//! The errors that an operation of this library reports.

use vstd::prelude::*;

verus! {

/// A setting that an operation needs and that has no default.
#[derive(Clone, Copy, Debug, PartialEq, Eq)]
pub enum Setting {
    /// The credential sent to every backend.
    ApiKey,
    /// The origin of the general-purpose GPU server.
    GpuServerOrigin,
}

/// Why an operation failed. No operation retries, and none returns a partial
/// result beside an error.
#[derive(Clone, Debug, PartialEq, Eq)]
pub enum ServiceError {
    /// The text to encode was empty.
    Validation,
    /// A required setting is missing.
    Configuration(Setting),
    /// A backend could not be reached or refused the request; the text is
    /// what it reported.
    RequestFailure(String),
    /// A backend answered with something that could not be read.
    ParseFailure,
}

/// A [`ServiceError`] with its text as a sequence of characters.
pub enum ServiceErrorView {
    Validation,
    Configuration(Setting),
    RequestFailure(Seq<char>),
    ParseFailure,
}

impl View for ServiceError {
    type V = ServiceErrorView;

    open spec fn view(&self) -> ServiceErrorView {
        match self {
            ServiceError::Validation => ServiceErrorView::Validation,
            ServiceError::Configuration(setting) => ServiceErrorView::Configuration(*setting),
            ServiceError::RequestFailure(text) => ServiceErrorView::RequestFailure(text@),
            ServiceError::ParseFailure => ServiceErrorView::ParseFailure,
        }
    }
}

impl ServiceErrorView {
    /// The text shown to the caller.
    pub open spec fn message(self) -> Seq<char> {
        match self {
            ServiceErrorView::Validation => "Cannot encode empty query"@,
            ServiceErrorView::Configuration(Setting::ApiKey) => "OPENAI_API_KEY should be set"@,
            ServiceErrorView::Configuration(Setting::GpuServerOrigin) =>
                "GPU_SERVER_ORIGIN should be set if this is called"@,
            ServiceErrorView::RequestFailure(text) => text,
            ServiceErrorView::ParseFailure =>
                "Failed parsing response from custom embedding server"@,
        }
    }

    /// Whether the caller sees the error as a bad request. A missing setting
    /// is the one error that is not the request's fault.
    pub open spec fn is_bad_request(self) -> bool {
        !(self is Configuration)
    }
}

impl ServiceError {
    /// The text shown to the caller.
    pub fn message(&self) -> (text: String)
        ensures
            text@ == self@.message(),
    {
        match self {
            ServiceError::Validation => "Cannot encode empty query".to_owned(),
            ServiceError::Configuration(Setting::ApiKey) => "OPENAI_API_KEY should be set".to_owned(),
            ServiceError::Configuration(Setting::GpuServerOrigin) =>
                "GPU_SERVER_ORIGIN should be set if this is called".to_owned(),
            ServiceError::RequestFailure(text) => text.clone(),
            ServiceError::ParseFailure =>
                "Failed parsing response from custom embedding server".to_owned(),
        }
    }

    /// Whether the caller sees the error as a bad request.
    pub fn is_bad_request(&self) -> (bad: bool)
        ensures
            bad == self@.is_bad_request(),
    {
        match self {
            ServiceError::Configuration(_) => false,
            _ => true,
        }
    }
}

} // verus!
