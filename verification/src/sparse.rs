//! Sparse embeddings: preparing the call and reading the reply.

use vstd::prelude::*;
use vstd::string::*;
use crate::error::{ServiceError, ServiceErrorView};
use crate::resolver::{preferred_origin, resolve, Purpose, ServiceSettings};
use crate::score::Binary32;
use crate::transport::{
    api_key, bearer_of, failed_call, json_content_type, json_post, request_failure,
    required_api_key, JsonPost, Reply,
};

verus! {

/// A sparse embedding as the service returns it: pairs of a term's index and
/// its weight, in no particular order.
#[derive(Clone, Debug, PartialEq, Eq)]
pub struct SpladeEmbedding {
    pub embeddings: Vec<(u32, Binary32)>,
}

/// The body of a sparse-embedding request.
#[derive(Clone, Debug, PartialEq, Eq)]
pub struct CustomSparseEmbedData {
    /// The text to encode.
    pub input: String,
    /// How to encode it: as a document or as a query.
    pub encode_type: String,
}

/// Prepares the call for the sparse embedding of `message`. An empty message
/// is refused before anything else is looked at, so no call is ever made for
/// it.
pub fn get_splade_embedding(message: &str, embed_type: &str, settings: &ServiceSettings) -> (post:
    Result<JsonPost<CustomSparseEmbedData>, ServiceError>)
    ensures
        message@.len() == 0 ==> post is Err && post->Err_0@ == ServiceErrorView::Validation,
        message@.len() > 0 ==> match preferred_origin(
            settings@.sparse_server_origin,
            settings@.gpu_server_origin,
        ) {
            Err(missing) => post is Err && post->Err_0@ == missing,
            Ok(origin) => match required_api_key(settings@) {
                Err(missing) => post is Err && post->Err_0@ == missing,
                Ok(key) => {
                    &&& post is Ok
                    &&& post->Ok_0.url@ == origin + "/sparse_encode"@
                    &&& post->Ok_0.content_type@ == json_content_type()
                    &&& post->Ok_0.authorization@ == bearer_of(key)
                    &&& post->Ok_0.body.input@ == message@
                    &&& post->Ok_0.body.encode_type@ == embed_type@
                },
            },
        },
{
    if message.is_empty() {
        return Err(ServiceError::Validation);
    }
    let origin = match resolve(Purpose::Sparse, "", settings) {
        Ok(origin) => origin,
        Err(missing) => {
            return Err(missing);
        },
    };
    let key = match api_key(settings) {
        Ok(key) => key,
        Err(missing) => {
            return Err(missing);
        },
    };
    let body = CustomSparseEmbedData {
        input: message.to_owned(),
        encode_type: embed_type.to_owned(),
    };
    Ok(json_post(origin, "/sparse_encode", key.as_str(), body))
}

/// Reads the reply to a sparse-embedding call.
pub fn finish_splade_embedding(reply: Reply<SpladeEmbedding>) -> (pairs: Result<
    Vec<(u32, Binary32)>,
    ServiceError,
>)
    ensures
        match reply {
            Reply::Failed(upstream) => pairs is Err && pairs->Err_0@
                == ServiceErrorView::RequestFailure(failed_call(upstream@)),
            Reply::Unreadable => pairs is Err && pairs->Err_0@ == ServiceErrorView::ParseFailure,
            Reply::Parsed(embedding) => pairs is Ok && pairs->Ok_0 == embedding.embeddings,
        },
{
    match reply {
        Reply::Failed(upstream) => Err(request_failure(upstream.as_str())),
        Reply::Unreadable => Err(ServiceError::ParseFailure),
        Reply::Parsed(embedding) => Ok(embedding.embeddings),
    }
}

} // verus!
