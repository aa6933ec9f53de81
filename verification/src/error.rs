//! Errors of the discovery backends.
use vstd::prelude::*;
use vstd::string::*;

verus! {

/// Why a discovery operation failed.
#[derive(Debug)]
pub enum DiscoveryError {
    /// No such service; holds the id or name that was asked for.
    ServiceNotFound(String),
    /// A registration was not written.
    RegistrationFailed(String),
    /// A registration was not removed.
    DeregistrationFailed(String),
    /// The client, a key or a stored value is malformed, or the backend refused a lookup.
    InvalidConfiguration(String),
    /// The HTTP exchange itself failed, or its reply could not be read.
    Http(String),
}

/// The mathematical value of a [`DiscoveryError`].
pub enum ErrorView {
    ServiceNotFound(Seq<char>),
    RegistrationFailed(Seq<char>),
    DeregistrationFailed(Seq<char>),
    InvalidConfiguration(Seq<char>),
    Http(Seq<char>),
}

impl View for DiscoveryError {
    type V = ErrorView;

    open spec fn view(&self) -> ErrorView {
        match self {
            DiscoveryError::ServiceNotFound(text) => ErrorView::ServiceNotFound(text@),
            DiscoveryError::RegistrationFailed(text) => ErrorView::RegistrationFailed(text@),
            DiscoveryError::DeregistrationFailed(text) => ErrorView::DeregistrationFailed(text@),
            DiscoveryError::InvalidConfiguration(text) => ErrorView::InvalidConfiguration(text@),
            DiscoveryError::Http(text) => ErrorView::Http(text@),
        }
    }
}

impl ErrorView {
    /// The one-line description of the error.
    pub open spec fn message(self) -> Seq<char> {
        match self {
            ErrorView::ServiceNotFound(text) => "Service not found: "@ + text,
            ErrorView::RegistrationFailed(text) => "Registration failed: "@ + text,
            ErrorView::DeregistrationFailed(text) => "Deregistration failed: "@ + text,
            ErrorView::InvalidConfiguration(text) => "Invalid configuration: "@ + text,
            ErrorView::Http(text) => "HTTP error: "@ + text,
        }
    }
}

impl DiscoveryError {
    /// The one-line description of the error.
    pub fn message(&self) -> (text: String)
        ensures
            text@ == self@.message(),
    {
        match self {
            DiscoveryError::ServiceNotFound(text) => joined("Service not found: ", text),
            DiscoveryError::RegistrationFailed(text) => joined("Registration failed: ", text),
            DiscoveryError::DeregistrationFailed(text) => joined("Deregistration failed: ", text),
            DiscoveryError::InvalidConfiguration(text) => joined("Invalid configuration: ", text),
            DiscoveryError::Http(text) => joined("HTTP error: ", text),
        }
    }
}

/// `head` followed by `tail`.
pub fn joined(head: &str, tail: &str) -> (text: String)
    ensures
        text@ == head@ + tail@,
{
    let mut text = head.to_owned();
    text.append(tail);
    text
}

} // verus!
