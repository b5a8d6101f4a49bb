//! The requests that the engine hands to its driver and the replies that
//! the driver hands back. The engine decides; the driver talks to standard
//! input and output, to the local repository and to the bucket.

use vstd::prelude::*;
use crate::object::{Kind, ObjectId};

verus! {

/// One page of a listing of the bucket: the keys it holds and the status
/// that came with it.
#[derive(Debug, Clone, PartialEq, Eq)]
pub struct Page {
    pub keys: Vec<String>,
    pub status: u16,
}

/// The mathematical value of a [`Page`].
#[verifier::ext_equal]
pub struct PageView {
    pub keys: Seq<Seq<char>>,
    pub status: u16,
}

impl View for Page {
    type V = PageView;

    open spec fn view(&self) -> PageView {
        PageView { keys: self.keys@.map_values(|k: String| k@), status: self.status }
    }
}

/// The status with which the bucket reports success.
pub const STATUS_OK: u16 = 200;

/// The status with which the bucket reports that a key is absent.
pub const STATUS_NOT_FOUND: u16 = 404;

/// What a listing says of the key that was asked for: an error with the
/// first status that is not success, else whether a page before that holds
/// any key.
pub open spec fn exists_in(pages: Seq<PageView>) -> Result<bool, u16>
    decreases pages.len(),
{
    if pages.len() == 0 {
        Ok(false)
    } else if pages[0].status != STATUS_OK {
        Err(pages[0].status)
    } else if pages[0].keys.len() != 0 {
        Ok(true)
    } else {
        exists_in(pages.drop_first())
    }
}

/// What the driver is to do next.
#[derive(Debug, Clone, PartialEq, Eq)]
#[allow(inconsistent_fields)]
pub enum Request {
    /// Read the next command line from standard input.
    ReadLine,
    /// Write one line to standard output.
    Print { line: String },
    /// Look an object up in the local database.
    FindObject { id: ObjectId },
    /// Store an object of the given kind in the local database.
    WriteObject { kind: Kind, data: Vec<u8> },
    /// Read the local ref of that name.
    ReadRef { name: String },
    /// Ask whether the commit `old` is an ancestor of the commit `new`.
    IsAncestor { old: String, new: ObjectId },
    /// Get the value that the bucket holds under a key.
    Get { key: String },
    /// Store a value under a key of the bucket.
    Put { key: String, data: Vec<u8> },
    /// List the keys of the bucket that start with a prefix.
    List { prefix: String },
    /// Nothing: the work has come to its end.
    Stop,
}

/// The mathematical value of a [`Request`].
#[verifier::ext_equal]
#[allow(inconsistent_fields)]
pub enum RequestView {
    ReadLine,
    Print { line: Seq<char> },
    FindObject { id: Seq<char> },
    WriteObject { kind: Kind, data: Seq<u8> },
    ReadRef { name: Seq<char> },
    IsAncestor { old: Seq<char>, new: Seq<char> },
    Get { key: Seq<char> },
    Put { key: Seq<char>, data: Seq<u8> },
    List { prefix: Seq<char> },
    Stop,
}

impl View for Request {
    type V = RequestView;

    open spec fn view(&self) -> RequestView {
        match *self {
            Request::ReadLine => RequestView::ReadLine,
            Request::Print { line } => RequestView::Print { line: line@ },
            Request::FindObject { id } => RequestView::FindObject { id: id@ },
            Request::WriteObject { kind, data } => RequestView::WriteObject { kind, data: data@ },
            Request::ReadRef { name } => RequestView::ReadRef { name: name@ },
            Request::IsAncestor { old, new } => RequestView::IsAncestor { old: old@, new: new@ },
            Request::Get { key } => RequestView::Get { key: key@ },
            Request::Put { key, data } => RequestView::Put { key: key@, data: data@ },
            Request::List { prefix } => RequestView::List { prefix: prefix@ },
            Request::Stop => RequestView::Stop,
        }
    }
}

/// What the driver found when it did what was asked.
#[derive(Debug, Clone, PartialEq, Eq)]
#[allow(inconsistent_fields)]
pub enum Reply {
    /// The line that was read; empty at the end of the input.
    Line { text: String },
    /// The line was written.
    Printed,
    /// The bytes of the object, or nothing where the database lacks it.
    Object { data: Option<Vec<u8>> },
    /// The object was stored.
    Written,
    /// The content of the ref, or nothing where there is no such ref.
    RefText { text: Option<String> },
    /// Whether the one commit is an ancestor of the other.
    Ancestry { holds: bool },
    /// The body and the status with which the bucket answered a `Get`.
    Payload { data: Vec<u8>, status: u16 },
    /// The status with which the bucket answered a `Put`.
    Stored { status: u16 },
    /// The pages with which the bucket answered a `List`.
    Listing { pages: Vec<Page> },
    /// The call could not be made, or broke off.
    Failed,
}

/// The mathematical value of a [`Reply`].
#[verifier::ext_equal]
#[allow(inconsistent_fields)]
pub enum ReplyView {
    Line { text: Seq<char> },
    Printed,
    Object { data: Option<Seq<u8>> },
    Written,
    RefText { text: Option<Seq<char>> },
    Ancestry { holds: bool },
    Payload { data: Seq<u8>, status: u16 },
    Stored { status: u16 },
    Listing { pages: Seq<PageView> },
    Failed,
}

impl View for Reply {
    type V = ReplyView;

    open spec fn view(&self) -> ReplyView {
        match *self {
            Reply::Line { text } => ReplyView::Line { text: text@ },
            Reply::Printed => ReplyView::Printed,
            Reply::Object { data } => ReplyView::Object {
                data: match data {
                    Some(d) => Some(d@),
                    None => None,
                },
            },
            Reply::Written => ReplyView::Written,
            Reply::RefText { text } => ReplyView::RefText {
                text: match text {
                    Some(t) => Some(t@),
                    None => None,
                },
            },
            Reply::Ancestry { holds } => ReplyView::Ancestry { holds },
            Reply::Payload { data, status } => ReplyView::Payload { data: data@, status },
            Reply::Stored { status } => ReplyView::Stored { status },
            Reply::Listing { pages } => ReplyView::Listing {
                pages: pages@.map_values(|p: Page| p@),
            },
            Reply::Failed => ReplyView::Failed,
        }
    }
}

} // verus!
