//! Request preparation and result fusion for text retrieval: resolving
//! service origins, preparing dense and sparse embedding calls, fusing the
//! scores of a re-ranking service into a candidate list, and admitting
//! document-processing tasks to a queue.

pub mod candidate;
pub mod embedding;
pub mod error;
pub mod identity;
pub mod ranking;
pub mod rerank;
pub mod resolver;
pub mod score;
pub mod sparse;
pub mod task;
pub mod text;
pub mod transport;
