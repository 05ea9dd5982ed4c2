//! Dense embeddings: preparing the call and reading the reply.

use vstd::prelude::*;
use vstd::string::*;
use crate::error::{ServiceError, ServiceErrorView};
use crate::resolver::{
    resolve, resolved_origin, Purpose, ServerDatasetConfiguration, ServiceSettings,
};
use crate::score::Binary32;
use crate::text::same_text;
use crate::transport::{api_key, failed_call, request_failure, required_api_key};

verus! {

/// A call for the dense embedding of one text.
#[derive(Clone, Debug, PartialEq, Eq)]
pub struct EmbeddingCall {
    /// The origin of the embedding service.
    pub base_url: String,
    /// The credential.
    pub api_key: String,
    /// The embedding model.
    pub model: String,
    /// The text to embed.
    pub input: String,
}

/// One embedding of a reply, in the representation the service chose.
#[derive(Clone, Debug, PartialEq, Eq)]
pub enum EmbeddingOutput {
    /// A dense vector.
    Float(Vec<Binary32>),
    /// The vector encoded as text.
    Base64(String),
}

/// The model that every dense embedding is made with.
pub open spec fn embedding_model() -> Seq<char> {
    "text-embedding-3-small"@
}

/// What an embedding of the given type is made for: a query where the type
/// says so, else a document.
pub open spec fn purpose_of(embed_type: Seq<char>) -> Purpose {
    if embed_type == "query"@ {
        Purpose::Query
    } else {
        Purpose::Doc
    }
}

/// The text that is sent: a query behind the dataset's prefix, anything else
/// as it is.
pub open spec fn embedding_input(purpose: Purpose, prefix: Seq<char>, message: Seq<char>) -> Seq<
    char,
> {
    if purpose == Purpose::Query {
        prefix + message
    } else {
        message
    }
}

/// The vector that a list of embeddings stands for: the first one where it
/// is a dense vector, else the empty vector.
pub open spec fn first_vector(data: Seq<EmbeddingOutput>) -> Seq<Binary32> {
    match data[0] {
        EmbeddingOutput::Float(vector) => vector@,
        EmbeddingOutput::Base64(_) => Seq::empty(),
    }
}

/// What an embedding of the given type is made for.
pub fn embedding_purpose(embed_type: &str) -> (purpose: Purpose)
    ensures
        purpose == purpose_of(embed_type@),
{
    if same_text(embed_type, "query") {
        Purpose::Query
    } else {
        Purpose::Doc
    }
}

/// Prepares the call for the dense embedding of `message`.
///
/// The credential is looked at first, then the origin. A query is sent
/// behind the dataset's query prefix, any other text unchanged.
pub fn create_embedding(
    message: &str,
    embed_type: &str,
    dataset_config: ServerDatasetConfiguration,
    settings: &ServiceSettings,
) -> (call: Result<EmbeddingCall, ServiceError>)
    ensures
        match required_api_key(settings@) {
            Err(missing) => call is Err && call->Err_0@ == missing,
            Ok(key) => match resolved_origin(
                purpose_of(embed_type@),
                dataset_config.embedding_base_url@,
                settings@,
            ) {
                Err(missing) => call is Err && call->Err_0@ == missing,
                Ok(origin) => {
                    &&& call is Ok
                    &&& call->Ok_0.base_url@ == origin
                    &&& call->Ok_0.api_key@ == key
                    &&& call->Ok_0.model@ == embedding_model()
                    &&& call->Ok_0.input@ == embedding_input(
                        purpose_of(embed_type@),
                        dataset_config.embedding_query_prefix@,
                        message@,
                    )
                },
            },
        },
{
    let key = match api_key(settings) {
        Ok(key) => key,
        Err(missing) => {
            return Err(missing);
        },
    };
    let purpose = embedding_purpose(embed_type);
    let base_url = match resolve(purpose, dataset_config.embedding_base_url.as_str(), settings) {
        Ok(origin) => origin,
        Err(missing) => {
            return Err(missing);
        },
    };
    let input = match purpose {
        Purpose::Query => dataset_config.embedding_query_prefix.concat(message),
        _ => message.to_owned(),
    };
    Ok(EmbeddingCall { base_url, api_key: key, model: "text-embedding-3-small".to_owned(), input })
}

/// Reads the reply to an embedding call: the embeddings that the service
/// returned, or what the transport reported. A first embedding that is no
/// dense vector counts as the empty vector.
pub fn finish_embedding(reply: Result<Vec<EmbeddingOutput>, String>) -> (vector: Result<
    Vec<Binary32>,
    ServiceError,
>)
    requires
        reply matches Ok(data) ==> data@.len() > 0,
    ensures
        match reply {
            Ok(data) => vector is Ok && vector->Ok_0@ == first_vector(data@),
            Err(upstream) => vector is Err && vector->Err_0@ == ServiceErrorView::RequestFailure(
                failed_call(upstream@),
            ),
        },
{
    match reply {
        Ok(data) => {
            let mut data = data;
            let first = data.swap_remove(0);
            match first {
                EmbeddingOutput::Float(vector) => Ok(vector),
                EmbeddingOutput::Base64(_) => Ok(Vec::new()),
            }
        },
        Err(upstream) => Err(request_failure(upstream.as_str())),
    }
}

} // verus!
