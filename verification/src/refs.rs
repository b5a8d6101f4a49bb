//! The ref lister: lists the keys of the bucket under a prefix and prints
//! each with the value that the bucket holds under it, as `<value> <key>`,
//! in the order of the listing.

use vstd::prelude::*;
use vstd::utf8::{decode_utf8, valid_utf8};
use crate::error::{Error, ErrorView, Failure, FailureView};
use crate::exchange::{
    Page, PageView, Reply, ReplyView, Request, RequestView, STATUS_NOT_FOUND, STATUS_OK,
};
use crate::text::{chars_of, cut, text_of_bytes, trim_range, trimmed};

verus! {

/// The keys that a listing gives to read: those of its pages in order, up
/// to the first page whose status is not success.
pub open spec fn listed_keys(pages: Seq<PageView>) -> Seq<Seq<char>>
    decreases pages.len(),
{
    if pages.len() == 0 || pages[0].status != STATUS_OK {
        Seq::empty()
    } else {
        pages[0].keys + listed_keys(pages.drop_first())
    }
}

/// The first status of a listing that is not success, if there is one.
pub open spec fn listed_status(pages: Seq<PageView>) -> Option<u16>
    decreases pages.len(),
{
    if pages.len() == 0 {
        None
    } else if pages[0].status != STATUS_OK {
        Some(pages[0].status)
    } else {
        listed_status(pages.drop_first())
    }
}

/// The line that is printed for a ref: its value without the white space
/// around it, a space, its key.
pub open spec fn ref_line(value: Seq<char>, key: Seq<char>) -> Seq<char> {
    trimmed(value) + seq![' '] + key
}

/// Where a listing of refs stands.
#[derive(Debug, PartialEq, Eq)]
pub enum ListStage {
    /// The bucket is being asked for the keys.
    Listing,
    /// The value of the first of the keys that are left is being got.
    Reading,
    /// The line for that key is being printed.
    Printing { line: String },
    /// All lines are printed.
    Done,
    /// The listing broke off.
    Failed { failure: Failure },
}

/// The mathematical value of a [`ListStage`].
#[verifier::ext_equal]
pub enum ListStageView {
    Listing,
    Reading,
    Printing { line: Seq<char> },
    Done,
    Failed { failure: FailureView },
}

impl View for ListStage {
    type V = ListStageView;

    open spec fn view(&self) -> ListStageView {
        match *self {
            ListStage::Listing => ListStageView::Listing,
            ListStage::Reading => ListStageView::Reading,
            ListStage::Printing { line } => ListStageView::Printing { line: line@ },
            ListStage::Done => ListStageView::Done,
            ListStage::Failed { failure } => ListStageView::Failed { failure: failure@ },
        }
    }
}

/// The mathematical value of a [`RefList`].
#[verifier::ext_equal]
pub struct RefListView {
    /// The prefix of the keys that are listed.
    pub prefix: Seq<char>,
    /// The keys that are still to be read and printed, the next one first.
    pub keys: Seq<Seq<char>>,
    /// The status with which the listing broke off behind those keys.
    pub status: Option<u16>,
    /// The stage.
    pub stage: ListStageView,
}

impl RefListView {
    /// The listing of the keys under `prefix`, before anything was asked.
    pub open spec fn start(prefix: Seq<char>) -> RefListView {
        RefListView { prefix, keys: Seq::empty(), status: None, stage: ListStageView::Listing }
    }

    /// Whether a request is pending.
    pub open spec fn busy(self) -> bool {
        self.stage is Listing || self.stage is Reading || self.stage is Printing
    }

    /// While a key is read or printed it is the first of the keys that
    /// are left.
    pub open spec fn wf(self) -> bool {
        &&& self.stage is Reading || self.stage is Printing ==> self.keys.len() > 0
        &&& !self.busy() ==> self.keys.len() == 0 && self.status is None
        &&& self.stage is Listing ==> self.keys.len() == 0 && self.status is None
    }

    /// Breaks off with `error`.
    pub open spec fn fail(self, error: ErrorView) -> RefListView {
        RefListView {
            prefix: self.prefix,
            keys: Seq::empty(),
            status: None,
            stage: ListStageView::Failed { failure: FailureView { error, chain: Seq::empty() } },
        }
    }

    /// Goes on with the keys `keys`: reads the first, and with none left
    /// ends, badly where the listing had broken off.
    pub open spec fn resume(self, keys: Seq<Seq<char>>, status: Option<u16>) -> RefListView {
        if keys.len() > 0 {
            RefListView { prefix: self.prefix, keys, status, stage: ListStageView::Reading }
        } else {
            match status {
                Some(code) => self.fail(
                    ErrorView::RemoteProtocolError { key: self.prefix, status: code },
                ),
                None => RefListView {
                    prefix: self.prefix,
                    keys,
                    status,
                    stage: ListStageView::Done,
                },
            }
        }
    }

    /// What the driver is asked to do at this point.
    pub open spec fn request(self) -> RequestView {
        match self.stage {
            ListStageView::Listing => RequestView::List { prefix: self.prefix },
            ListStageView::Reading => RequestView::Get { key: self.keys[0] },
            ListStageView::Printing { line } => RequestView::Print { line },
            ListStageView::Done => RequestView::Stop,
            ListStageView::Failed { .. } => RequestView::Stop,
        }
    }

    /// The listing after the driver's reply to the pending request.
    pub open spec fn advance(self, reply: ReplyView) -> RefListView {
        match self.stage {
            ListStageView::Listing => match reply {
                ReplyView::Listing { pages } => self.resume(
                    listed_keys(pages),
                    listed_status(pages),
                ),
                ReplyView::Failed => self.fail(ErrorView::RemoteUnavailable { key: self.prefix }),
                _ => self.fail(ErrorView::UnexpectedReply),
            },
            ListStageView::Reading => match reply {
                ReplyView::Payload { data, status } => if status == STATUS_NOT_FOUND {
                    self.fail(ErrorView::RemoteNotFound { key: self.keys[0] })
                } else if status != STATUS_OK {
                    self.fail(ErrorView::RemoteProtocolError { key: self.keys[0], status })
                } else if !valid_utf8(data) {
                    self.fail(ErrorView::InvalidRefValue { key: self.keys[0] })
                } else {
                    RefListView {
                        prefix: self.prefix,
                        keys: self.keys,
                        status: self.status,
                        stage: ListStageView::Printing {
                            line: ref_line(decode_utf8(data), self.keys[0]),
                        },
                    }
                },
                ReplyView::Failed => self.fail(ErrorView::RemoteUnavailable { key: self.keys[0] }),
                _ => self.fail(ErrorView::UnexpectedReply),
            },
            ListStageView::Printing { line } => match reply {
                ReplyView::Printed => self.resume(self.keys.drop_first(), self.status),
                ReplyView::Failed => self.fail(ErrorView::StreamFailure),
                _ => self.fail(ErrorView::UnexpectedReply),
            },
            ListStageView::Done => self,
            ListStageView::Failed { .. } => self,
        }
    }
}

/// A listing keeps the key in hand first among the keys that are left.
pub proof fn lemma_list_advance_wf(l: RefListView, reply: ReplyView)
    requires
        l.wf(),
    ensures
        l.advance(reply).wf(),
{
}

/// Collects the keys that a listing gives to read, and the status with
/// which it broke off.
pub fn plan(pages: &Vec<Page>) -> (r: (Vec<String>, Option<u16>))
    ensures
        r.0@.map_values(|k: String| k@) == listed_keys(pages@.map_values(|p: Page| p@)),
        r.1 == listed_status(pages@.map_values(|p: Page| p@)),
{
    let ghost all = pages@.map_values(|p: Page| p@);
    let mut keys: Vec<String> = Vec::new();
    let mut i: usize = 0;
    assert(all.skip(0) =~= all);
    assert(keys@.map_values(|k: String| k@) + listed_keys(all) =~= listed_keys(all));
    while i < pages.len()
        invariant
            i <= pages.len(),
            all == pages@.map_values(|p: Page| p@),
            keys@.map_values(|k: String| k@) + listed_keys(all.skip(i as int)) == listed_keys(all),
            listed_status(all.skip(i as int)) == listed_status(all),
        decreases pages.len() - i,
    {
        let ghost rest = all.skip(i as int);
        assert(rest[0] == pages@[i as int]@);
        assert(rest.drop_first() =~= all.skip(i + 1));
        if pages[i].status != STATUS_OK {
            assert(keys@.map_values(|k: String| k@) + Seq::<Seq<char>>::empty()
                =~= keys@.map_values(|k: String| k@));
            return (keys, Some(pages[i].status));
        }
        let ghost before = keys@.map_values(|k: String| k@);
        let ghost tail = listed_keys(all.skip(i + 1));
        let page = &pages[i];
        let mut j: usize = 0;
        while j < page.keys.len()
            invariant
                j <= page.keys.len(),
                keys@.map_values(|k: String| k@) == before + page@.keys.take(j as int),
            decreases page.keys.len() - j,
        {
            let ghost held = keys@.map_values(|k: String| k@);
            keys.push(page.keys[j].clone());
            assert(keys@.map_values(|k: String| k@) =~= held.push(page.keys@[j as int]@));
            assert(page@.keys.take(j + 1) =~= page@.keys.take(j as int).push(page@.keys[j as int]));
            j += 1;
        }
        assert(page@.keys.take(page.keys.len() as int) =~= page@.keys);
        assert(before + page@.keys + tail =~= before + (page@.keys + tail));
        i += 1;
    }
    assert(keys@.map_values(|k: String| k@) + Seq::<Seq<char>>::empty() =~= keys@.map_values(
        |k: String| k@,
    ));
    (keys, None)
}

/// Writes the line for a ref out of its value and its key.
pub fn line_of(value: &str, key: &str) -> (r: String)
    ensures
        r@ == ref_line(value@, key@),
{
    let v = chars_of(value);
    assert(v@.subrange(0, v.len() as int) =~= v@);
    let (a, b) = trim_range(&v, 0, v.len());
    proof {
        reveal_strlit(" ");
        assert(" "@ =~= seq![' ']);
    }
    cut(value, a, b).concat(" ").concat(key)
}

/// The refs under a prefix, on their way from the bucket to standard
/// output.
#[derive(Debug, PartialEq, Eq)]
pub struct RefList {
    prefix: String,
    keys: Vec<String>,
    next: usize,
    status: Option<u16>,
    stage: ListStage,
}

impl View for RefList {
    type V = RefListView;

    closed spec fn view(&self) -> RefListView {
        RefListView {
            prefix: self.prefix@,
            keys: self.keys@.map_values(|k: String| k@).skip(self.next as int),
            status: self.status,
            stage: self.stage@,
        }
    }
}

impl RefList {
    #[verifier::type_invariant]
    spec fn well_formed(self) -> bool {
        self.next <= self.keys.len() && self@.wf()
    }

    /// Begins the listing of the keys under `prefix`.
    pub fn new(prefix: String) -> (r: RefList)
        ensures
            r@ == RefListView::start(prefix@),
            r@.wf(),
    {
        let r = RefList {
            prefix,
            keys: Vec::new(),
            next: 0,
            status: None,
            stage: ListStage::Listing,
        };
        assert(r@.keys =~= Seq::<Seq<char>>::empty());
        r
    }

    /// Whether the listing has come to its end, well or not.
    pub fn finished(&self) -> (r: bool)
        ensures
            r == !self@.busy(),
    {
        match self.stage {
            ListStage::Done => true,
            ListStage::Failed { .. } => true,
            _ => false,
        }
    }

    /// How the listing ended: nothing while it is under way.
    pub fn outcome(self) -> (r: Option<Result<(), Failure>>)
        ensures
            match self@.stage {
                ListStageView::Done => r == Some(Ok::<(), Failure>(())),
                ListStageView::Failed { failure } => r matches Some(Err(f)) && f@ == failure,
                _ => r is None,
            },
    {
        match self.stage {
            ListStage::Done => Some(Ok(())),
            ListStage::Failed { failure } => Some(Err(failure)),
            _ => None,
        }
    }

    /// What the driver is to do now.
    pub fn request(&self) -> (r: Request)
        ensures
            r@ == self@.request(),
    {
        proof {
            use_type_invariant(self);
        }
        match &self.stage {
            ListStage::Listing => Request::List { prefix: self.prefix.clone() },
            ListStage::Reading => Request::Get { key: self.keys[self.next].clone() },
            ListStage::Printing { line } => Request::Print { line: line.clone() },
            ListStage::Done => Request::Stop,
            ListStage::Failed { .. } => Request::Stop,
        }
    }

    fn fail(self, error: Error) -> (r: RefList)
        ensures
            r@ == self@.fail(error@),
    {
        let r = RefList {
            prefix: self.prefix,
            keys: Vec::new(),
            next: 0,
            status: None,
            stage: ListStage::Failed { failure: Failure { error, chain: Vec::new() } },
        };
        assert(r@.keys =~= Seq::<Seq<char>>::empty());
        assert(r.stage@->Failed_failure.chain =~= Seq::<Seq<char>>::empty());
        r
    }

    fn resume(prefix: String, keys: Vec<String>, next: usize, status: Option<u16>) -> (r: RefList)
        requires
            next <= keys.len(),
        ensures
            r@ == RefListView::start(prefix@).resume(
                keys@.map_values(|k: String| k@).skip(next as int),
                status,
            ),
    {
        if next < keys.len() {
            RefList { prefix, keys, next, status, stage: ListStage::Reading }
        } else {
            match status {
                Some(code) => {
                    let key = prefix.clone();
                    let r = RefList {
                        prefix,
                        keys: Vec::new(),
                        next: 0,
                        status: None,
                        stage: ListStage::Failed {
                            failure: Failure {
                                error: Error::RemoteProtocolError { key, status: code },
                                chain: Vec::new(),
                            },
                        },
                    };
                    assert(r@.keys =~= Seq::<Seq<char>>::empty());
                    assert(r.stage@->Failed_failure.chain =~= Seq::<Seq<char>>::empty());
                    r
                },
                None => RefList { prefix, keys, next, status, stage: ListStage::Done },
            }
        }
    }

    /// Takes the driver's reply to the pending request and decides how the
    /// listing goes on.
    pub fn advance(self, reply: Reply) -> (r: RefList)
        ensures
            r@ == self@.advance(reply@),
            r@.wf(),
    {
        proof {
            use_type_invariant(&self);
            lemma_list_advance_wf(self@, reply@);
        }
        let ghost before = self@;
        match &self.stage {
            ListStage::Listing => match reply {
                Reply::Listing { pages } => {
                    let (keys, status) = plan(&pages);
                    assert(keys@.map_values(|k: String| k@).skip(0) =~= keys@.map_values(
                        |k: String| k@,
                    ));
                    RefList::resume(self.prefix, keys, 0, status)
                },
                Reply::Failed => {
                    let key = self.prefix.clone();
                    self.fail(Error::RemoteUnavailable { key })
                },
                _ => self.fail(Error::UnexpectedReply),
            },
            ListStage::Reading => match reply {
                Reply::Payload { data, status } => {
                    let key = self.keys[self.next].clone();
                    if status == STATUS_NOT_FOUND {
                        self.fail(Error::RemoteNotFound { key })
                    } else if status != STATUS_OK {
                        self.fail(Error::RemoteProtocolError { key, status })
                    } else {
                        match text_of_bytes(data) {
                            Ok(value) => {
                                let line = line_of(value.as_str(), key.as_str());
                                let RefList { prefix, keys, next, status, stage: _ } = self;
                                RefList {
                                    prefix,
                                    keys,
                                    next,
                                    status,
                                    stage: ListStage::Printing { line },
                                }
                            },
                            Err(_) => self.fail(Error::InvalidRefValue { key }),
                        }
                    }
                },
                Reply::Failed => {
                    let key = self.keys[self.next].clone();
                    self.fail(Error::RemoteUnavailable { key })
                },
                _ => self.fail(Error::UnexpectedReply),
            },
            ListStage::Printing { .. } => match reply {
                Reply::Printed => {
                    let RefList { prefix, keys, next, status, stage: _ } = self;
                    assert(keys@.map_values(|k: String| k@).skip(next as int).drop_first()
                        =~= keys@.map_values(|k: String| k@).skip(next + 1));
                    RefList::resume(prefix, keys, next + 1, status)
                },
                Reply::Failed => self.fail(Error::StreamFailure),
                _ => self.fail(Error::UnexpectedReply),
            },
            ListStage::Done => self,
            ListStage::Failed { .. } => self,
        }
    }
}

} // verus!
