//! Choosing the origin of the service that answers a call.

use vstd::prelude::*;
use crate::error::{ServiceError, ServiceErrorView, Setting};
use crate::text::{contains_text, mentions};

verus! {

/// What a call is made for.
#[derive(Clone, Copy, Debug, PartialEq, Eq)]
pub enum Purpose {
    /// The dense embedding of a document.
    Doc,
    /// The dense embedding of a query.
    Query,
    /// A sparse embedding.
    Sparse,
    /// The re-ranking of candidates.
    Rerank,
}

/// The settings of the process: the credential and the service origins. A
/// field is `None` where the setting is not given at all.
#[derive(Clone, Debug, PartialEq, Eq)]
pub struct ServiceSettings {
    /// The credential sent to every backend.
    pub api_key: Option<String>,
    /// Overrides the GPU server for dense embeddings.
    pub embedding_server_origin: Option<String>,
    /// Overrides the GPU server for sparse embeddings.
    pub sparse_server_origin: Option<String>,
    /// Overrides the GPU server for re-ranking.
    pub reranker_server_origin: Option<String>,
    /// The general-purpose GPU server.
    pub gpu_server_origin: Option<String>,
}

/// The settings of a dataset that the embedding of its texts depends on.
#[derive(Clone, Debug, PartialEq, Eq)]
pub struct ServerDatasetConfiguration {
    /// The origin of the dataset's embedding service; empty for the public one.
    pub embedding_base_url: String,
    /// What is put in front of a query before it is embedded.
    pub embedding_query_prefix: String,
}

/// An optional text as an optional sequence of characters.
pub open spec fn text_of(setting: Option<String>) -> Option<Seq<char>> {
    match setting {
        Some(text) => Some(text@),
        None => None,
    }
}

/// [`ServiceSettings`] with each text as a sequence of characters.
pub struct ServiceSettingsView {
    pub api_key: Option<Seq<char>>,
    pub embedding_server_origin: Option<Seq<char>>,
    pub sparse_server_origin: Option<Seq<char>>,
    pub reranker_server_origin: Option<Seq<char>>,
    pub gpu_server_origin: Option<Seq<char>>,
}

impl View for ServiceSettings {
    type V = ServiceSettingsView;

    open spec fn view(&self) -> ServiceSettingsView {
        ServiceSettingsView {
            api_key: text_of(self.api_key),
            embedding_server_origin: text_of(self.embedding_server_origin),
            sparse_server_origin: text_of(self.sparse_server_origin),
            reranker_server_origin: text_of(self.reranker_server_origin),
            gpu_server_origin: text_of(self.gpu_server_origin),
        }
    }
}

/// The origin of the public embedding service.
pub open spec fn public_origin() -> Seq<char> {
    "https://api.openai.com/v1"@
}

/// The base URL that stands for managed hosting.
pub open spec fn managed_marker() -> Seq<char> {
    "https://embedding.trieve.ai"@
}

/// The override where it is given and not empty, else the GPU server; without
/// either, the GPU server's origin is reported as missing.
pub open spec fn preferred_origin(
    dedicated: Option<Seq<char>>,
    gpu: Option<Seq<char>>,
) -> Result<Seq<char>, ServiceErrorView> {
    if dedicated is Some && dedicated->0.len() > 0 {
        Ok(dedicated->0)
    } else if gpu is Some {
        Ok(gpu->0)
    } else {
        Err(ServiceErrorView::Configuration(Setting::GpuServerOrigin))
    }
}

/// The origin that serves `purpose`. `base_url` is the dataset's embedding
/// base URL; only dense embeddings look at it.
pub open spec fn resolved_origin(
    purpose: Purpose,
    base_url: Seq<char>,
    settings: ServiceSettingsView,
) -> Result<Seq<char>, ServiceErrorView> {
    match purpose {
        Purpose::Doc | Purpose::Query => if base_url.len() == 0 {
            Ok(public_origin())
        } else if mentions(base_url, managed_marker()) {
            preferred_origin(settings.embedding_server_origin, settings.gpu_server_origin)
        } else {
            Ok(base_url)
        },
        Purpose::Sparse => preferred_origin(
            settings.sparse_server_origin,
            settings.gpu_server_origin,
        ),
        Purpose::Rerank => preferred_origin(
            settings.reranker_server_origin,
            settings.gpu_server_origin,
        ),
    }
}

/// Whether `got` is the outcome `named`: the same variant, and the same text
/// in it.
pub open spec fn text_outcome(
    got: Result<String, ServiceError>,
    named: Result<Seq<char>, ServiceErrorView>,
) -> bool {
    match got {
        Ok(text) => named == Ok::<Seq<char>, ServiceErrorView>(text@),
        Err(error) => named == Err::<Seq<char>, ServiceErrorView>(error@),
    }
}

/// The override where it is given and not empty, else the GPU server.
pub fn prefer(dedicated: &Option<String>, gpu: &Option<String>) -> (origin: Result<
    String,
    ServiceError,
>)
    ensures
        text_outcome(origin, preferred_origin(text_of(*dedicated), text_of(*gpu))),
{
    match dedicated {
        Some(text) => {
            if !text.as_str().is_empty() {
                return Ok(text.clone());
            }
        },
        None => {},
    }
    match gpu {
        Some(text) => Ok(text.clone()),
        None => Err(ServiceError::Configuration(Setting::GpuServerOrigin)),
    }
}

/// The origin that serves `purpose`.
pub fn resolve(purpose: Purpose, base_url: &str, settings: &ServiceSettings) -> (origin: Result<
    String,
    ServiceError,
>)
    ensures
        text_outcome(origin, resolved_origin(purpose, base_url@, settings@)),
{
    match purpose {
        Purpose::Doc | Purpose::Query => {
            if base_url.is_empty() {
                Ok("https://api.openai.com/v1".to_owned())
            } else if contains_text(base_url, "https://embedding.trieve.ai") {
                prefer(&settings.embedding_server_origin, &settings.gpu_server_origin)
            } else {
                Ok(base_url.to_owned())
            }
        },
        Purpose::Sparse => prefer(&settings.sparse_server_origin, &settings.gpu_server_origin),
        Purpose::Rerank => prefer(&settings.reranker_server_origin, &settings.gpu_server_origin),
    }
}

} // verus!
