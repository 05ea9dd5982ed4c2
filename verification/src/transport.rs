//! What is handed to a transport and what comes back from it. The library
//! prepares calls and reads replies; it makes no call itself.

use vstd::prelude::*;
use vstd::string::*;
use crate::error::{ServiceError, ServiceErrorView, Setting};
use crate::resolver::{text_outcome, ServiceSettings, ServiceSettingsView};

verus! {

/// A JSON body to be posted to a backend, with what authorizes it.
#[derive(Clone, Debug, PartialEq, Eq)]
pub struct JsonPost<B> {
    /// Where to post.
    pub url: String,
    /// The value of the `Content-Type` header.
    pub content_type: String,
    /// The value of the `Authorization` header.
    pub authorization: String,
    /// What is serialized as the body.
    pub body: B,
}

/// What came back from a backend.
#[derive(Clone, Debug, PartialEq, Eq)]
pub enum Reply<T> {
    /// The backend could not be reached, or answered with an error; the text
    /// says what went wrong.
    Failed(String),
    /// The backend answered, and the answer could not be read.
    Unreadable,
    /// The answer.
    Parsed(T),
}

/// The content type of every body that is posted.
pub open spec fn json_content_type() -> Seq<char> {
    "application/json"@
}

/// The `Authorization` header for a credential.
pub open spec fn bearer_of(api_key: Seq<char>) -> Seq<char> {
    "Bearer "@ + api_key
}

/// The text of the error for a call that failed with `upstream`.
pub open spec fn failed_call(upstream: Seq<char>) -> Seq<char> {
    "Failed making call to server "@ + upstream
}

/// The credential, or the error that reports it missing.
pub open spec fn required_api_key(settings: ServiceSettingsView) -> Result<
    Seq<char>,
    ServiceErrorView,
> {
    match settings.api_key {
        Some(key) => Ok(key),
        None => Err(ServiceErrorView::Configuration(Setting::ApiKey)),
    }
}

/// The `Authorization` header for a credential.
pub fn bearer(api_key: &str) -> (header: String)
    ensures
        header@ == bearer_of(api_key@),
{
    "Bearer ".to_owned().concat(api_key)
}

/// The post of `body` to `path` under `origin`, authorized by `api_key`.
pub fn json_post<B>(origin: String, path: &str, api_key: &str, body: B) -> (post: JsonPost<B>)
    ensures
        post.url@ == origin@ + path@,
        post.content_type@ == json_content_type(),
        post.authorization@ == bearer_of(api_key@),
        post.body == body,
{
    JsonPost {
        url: endpoint(origin, path),
        content_type: "application/json".to_owned(),
        authorization: bearer(api_key),
        body,
    }
}

/// `origin` followed by `path`.
pub fn endpoint(origin: String, path: &str) -> (url: String)
    ensures
        url@ == origin@ + path@,
{
    origin.concat(path)
}

/// The error for a call that failed with `upstream`.
pub fn request_failure(upstream: &str) -> (error: ServiceError)
    ensures
        error@ == ServiceErrorView::RequestFailure(failed_call(upstream@)),
{
    ServiceError::RequestFailure("Failed making call to server ".to_owned().concat(upstream))
}

/// The credential of the settings.
pub fn api_key(settings: &ServiceSettings) -> (key: Result<String, ServiceError>)
    ensures
        text_outcome(key, required_api_key(settings@)),
{
    match &settings.api_key {
        Some(key) => Ok(key.clone()),
        None => Err(ServiceError::Configuration(Setting::ApiKey)),
    }
}

} // verus!
