//! The errors of the library.

use vstd::prelude::*;
use crate::object::{Kind, ObjectId};

verus! {

/// What can go wrong while a locator is resolved, a command is read or
/// objects and refs are copied.
#[derive(Debug, Clone, PartialEq, Eq)]
pub enum Error {
    /// The locator does not start with the scheme.
    MalformedLocator,
    /// The locator has no `/` or `:` that parts the endpoint from the bucket.
    AmbiguousLocator,
    /// A command line lacks an argument.
    MalformedCommand { line: String },
    /// A text that should name an object is not forty hexadecimal digits.
    InvalidObjectId { text: String },
    /// The bucket holds nothing under the key.
    RemoteNotFound { key: String },
    /// The bucket answered a call with a status other than success.
    RemoteProtocolError { key: String, status: u16 },
    /// A call to the bucket broke off without a status.
    RemoteUnavailable { key: String },
    /// The local repository could not be read or written.
    LocalStoreFailure,
    /// The local database lacks an object that is to be uploaded.
    ObjectNotFoundLocally { id: ObjectId },
    /// The bytes of an object are not an object of the expected kind.
    DecodeError { id: ObjectId, kind: Kind },
    /// There is no local ref of that name.
    LocalRefNotFound { name: String },
    /// The remote ref does not point to an ancestor of the pushed commit.
    NonFastForward { old: String, new: String },
    /// The ancestry of two commits could not be determined.
    AncestryUnknown { old: String, new: String },
    /// The value of a ref is not text.
    InvalidRefValue { key: String },
    /// Standard input could not be read, or standard output not written.
    StreamFailure,
    /// An answer was given that does not belong to the pending request.
    UnexpectedReply,
}

/// The mathematical value of an [`Error`].
#[verifier::ext_equal]
pub enum ErrorView {
    MalformedLocator,
    AmbiguousLocator,
    MalformedCommand { line: Seq<char> },
    InvalidObjectId { text: Seq<char> },
    RemoteNotFound { key: Seq<char> },
    RemoteProtocolError { key: Seq<char>, status: u16 },
    RemoteUnavailable { key: Seq<char> },
    LocalStoreFailure,
    ObjectNotFoundLocally { id: Seq<char> },
    DecodeError { id: Seq<char>, kind: Kind },
    LocalRefNotFound { name: Seq<char> },
    NonFastForward { old: Seq<char>, new: Seq<char> },
    AncestryUnknown { old: Seq<char>, new: Seq<char> },
    InvalidRefValue { key: Seq<char> },
    StreamFailure,
    UnexpectedReply,
}

impl View for Error {
    type V = ErrorView;

    open spec fn view(&self) -> ErrorView {
        match *self {
            Error::MalformedLocator => ErrorView::MalformedLocator,
            Error::AmbiguousLocator => ErrorView::AmbiguousLocator,
            Error::MalformedCommand { line } => ErrorView::MalformedCommand { line: line@ },
            Error::InvalidObjectId { text } => ErrorView::InvalidObjectId { text: text@ },
            Error::RemoteNotFound { key } => ErrorView::RemoteNotFound { key: key@ },
            Error::RemoteProtocolError { key, status } => ErrorView::RemoteProtocolError {
                key: key@,
                status,
            },
            Error::RemoteUnavailable { key } => ErrorView::RemoteUnavailable { key: key@ },
            Error::LocalStoreFailure => ErrorView::LocalStoreFailure,
            Error::ObjectNotFoundLocally { id } => ErrorView::ObjectNotFoundLocally { id: id@ },
            Error::DecodeError { id, kind } => ErrorView::DecodeError { id: id@, kind },
            Error::LocalRefNotFound { name } => ErrorView::LocalRefNotFound { name: name@ },
            Error::NonFastForward { old, new } => ErrorView::NonFastForward {
                old: old@,
                new: new@,
            },
            Error::AncestryUnknown { old, new } => ErrorView::AncestryUnknown {
                old: old@,
                new: new@,
            },
            Error::InvalidRefValue { key } => ErrorView::InvalidRefValue { key: key@ },
            Error::StreamFailure => ErrorView::StreamFailure,
            Error::UnexpectedReply => ErrorView::UnexpectedReply,
        }
    }
}

/// An error together with the objects that were being copied when it came
/// up: the nearest first, each one required by the next.
#[derive(Debug, Clone, PartialEq, Eq)]
pub struct Failure {
    pub error: Error,
    pub chain: Vec<ObjectId>,
}

/// The mathematical value of a [`Failure`].
#[verifier::ext_equal]
pub struct FailureView {
    pub error: ErrorView,
    pub chain: Seq<Seq<char>>,
}

impl View for Failure {
    type V = FailureView;

    open spec fn view(&self) -> FailureView {
        FailureView { error: self.error@, chain: self.chain@.map_values(|id: ObjectId| id@) }
    }
}

} // verus!
