//! The push engine: copies the commit of a local ref and everything it
//! refers to into the bucket, then moves the remote ref.
//!
//! An object that the bucket already holds is not looked into. An object
//! that it lacks is loaded from the local database and decoded; its parts
//! are uploaded first, the tree of a commit before its parents, and only
//! then its own bytes. So the bucket never holds an object without what
//! that object refers to. The remote ref moves last: where it exists, only
//! forward, unless the push is forced.

use vstd::prelude::*;
use vstd::utf8::{decode_utf8, encode_utf8, valid_utf8};
use crate::error::{Error, ErrorView, Failure, FailureView};
use crate::exchange::{exists_in, Page, Reply, ReplyView, Request, RequestView, STATUS_OK};
use crate::object::{is_object_id, Kind, ObjectId};
use crate::text::{chars_of, cut, text_of_bytes, trim_range, trimmed};
use crate::walk::{
    chain, chain_of, children, decode_children, frames_view, links_view, pending, push_links,
    Frame, FrameView, LinkView,
};

verus! {

/// Decides from the pages of a listing by prefix whether the bucket holds
/// the key.
pub fn check_hash_remote(pages: &Vec<Page>) -> (r: Result<bool, u16>)
    ensures
        r == exists_in(pages@.map_values(|p: Page| p@)),
{
    let ghost all = pages@.map_values(|p: Page| p@);
    let mut i: usize = 0;
    assert(all.skip(0) =~= all);
    while i < pages.len()
        invariant
            i <= pages.len(),
            all == pages@.map_values(|p: Page| p@),
            exists_in(all.skip(i as int)) == exists_in(all),
        decreases pages.len() - i,
    {
        assert(all.skip(i as int)[0] == pages@[i as int]@);
        assert(all.skip(i as int).drop_first() =~= all.skip(i + 1));
        if pages[i].status != STATUS_OK {
            return Err(pages[i].status);
        }
        if pages[i].keys.len() != 0 {
            return Ok(true);
        }
        i += 1;
    }
    Ok(false)
}

/// Where a push stands.
#[derive(Debug, PartialEq, Eq)]
pub enum PushStage {
    /// The local ref is being read.
    ReadingRef,
    /// The bucket is being asked whether it holds the object on top.
    Checking,
    /// The object on top is being loaded from the local database.
    Loading,
    /// The object on top, whose parts are all there, is being uploaded.
    Storing,
    /// The remote ref is being read.
    ReadingRemoteRef,
    /// It is being asked whether the remote ref points to an ancestor.
    Asking { old: String },
    /// The remote ref is being written.
    WritingRef,
    /// The objects are there and the ref is moved.
    Done,
    /// The push broke off.
    Failed { failure: Failure },
}

/// The mathematical value of a [`PushStage`].
#[verifier::ext_equal]
pub enum PushStageView {
    ReadingRef,
    Checking,
    Loading,
    Storing,
    ReadingRemoteRef,
    Asking { old: Seq<char> },
    WritingRef,
    Done,
    Failed { failure: FailureView },
}

impl View for PushStage {
    type V = PushStageView;

    open spec fn view(&self) -> PushStageView {
        match *self {
            PushStage::ReadingRef => PushStageView::ReadingRef,
            PushStage::Checking => PushStageView::Checking,
            PushStage::Loading => PushStageView::Loading,
            PushStage::Storing => PushStageView::Storing,
            PushStage::ReadingRemoteRef => PushStageView::ReadingRemoteRef,
            PushStage::Asking { old } => PushStageView::Asking { old: old@ },
            PushStage::WritingRef => PushStageView::WritingRef,
            PushStage::Done => PushStageView::Done,
            PushStage::Failed { failure } => PushStageView::Failed { failure: failure@ },
        }
    }
}

/// The mathematical value of a [`Push`].
#[verifier::ext_equal]
pub struct PushView {
    /// The name of the local ref.
    pub src: Seq<char>,
    /// The key of the remote ref.
    pub dst: Seq<char>,
    /// Whether the remote ref may move backwards or sideways.
    pub force: bool,
    /// The commit that is pushed, once the local ref was read.
    pub tip: Option<Seq<char>>,
    /// The worklist.
    pub stack: Seq<FrameView>,
    /// The stage.
    pub stage: PushStageView,
}

impl PushView {
    /// The push of the local ref `src` to the remote ref `dst`, before
    /// anything was asked.
    pub open spec fn start(src: Seq<char>, dst: Seq<char>, force: bool) -> PushView {
        PushView {
            src,
            dst,
            force,
            tip: None,
            stack: Seq::empty(),
            stage: PushStageView::ReadingRef,
        }
    }

    /// Whether objects are still being uploaded.
    pub open spec fn uploading(self) -> bool {
        self.stage is Checking || self.stage is Loading || self.stage is Storing
    }

    /// Whether the remote ref is being dealt with.
    pub open spec fn on_ref(self) -> bool {
        self.stage is ReadingRemoteRef || self.stage is Asking || self.stage is WritingRef
    }

    /// While objects are uploaded the object in hand lies on top of the
    /// worklist, open exactly when it is being stored; otherwise the
    /// worklist is empty. The commit is known once the local ref was read.
    pub open spec fn wf(self) -> bool {
        &&& self.uploading() ==> self.stack.len() > 0 && (self.stack.last().open
            <==> self.stage is Storing)
        &&& !self.uploading() ==> self.stack.len() == 0
        &&& (self.uploading() || self.on_ref()) ==> self.tip is Some
        &&& self.stage is ReadingRef ==> self.tip is None
    }

    /// The same push at another stage and with another worklist.
    pub open spec fn at(self, stack: Seq<FrameView>, stage: PushStageView) -> PushView {
        PushView { src: self.src, dst: self.dst, force: self.force, tip: self.tip, stack, stage }
    }

    /// Goes on with what is left of the worklist: an open frame on top is
    /// stored, another one is checked, and with nothing left the remote ref
    /// is read.
    pub open spec fn resume(self, stack: Seq<FrameView>) -> PushView {
        self.at(
            stack,
            if stack.len() == 0 {
                PushStageView::ReadingRemoteRef
            } else if stack.last().open {
                PushStageView::Storing
            } else {
                PushStageView::Checking
            },
        )
    }

    /// Breaks off with `error`, naming the objects whose parts were being
    /// uploaded.
    pub open spec fn fail(self, error: ErrorView) -> PushView {
        self.at(
            Seq::empty(),
            PushStageView::Failed { failure: FailureView { error, chain: chain(self.stack) } },
        )
    }

    /// The worklist once the object on top was loaded with the bytes `data`
    /// and found to refer to `links`: the object is open and keeps its
    /// bytes, its parts lie above it.
    pub open spec fn entered(self, data: Seq<u8>, links: Seq<LinkView>) -> Seq<FrameView> {
        let top = self.stack.last();
        self.stack.drop_last().push(FrameView { id: top.id, kind: top.kind, open: true, data })
            + pending(links)
    }

    /// What the driver is asked to do at this point.
    pub open spec fn request(self) -> RequestView {
        match self.stage {
            PushStageView::ReadingRef => RequestView::ReadRef { name: self.src },
            PushStageView::Checking => RequestView::List { prefix: self.stack.last().id },
            PushStageView::Loading => RequestView::FindObject { id: self.stack.last().id },
            PushStageView::Storing => RequestView::Put {
                key: self.stack.last().id,
                data: self.stack.last().data,
            },
            PushStageView::ReadingRemoteRef => RequestView::Get { key: self.dst },
            PushStageView::Asking { old } => RequestView::IsAncestor {
                old,
                new: self.tip->Some_0,
            },
            PushStageView::WritingRef => RequestView::Put {
                key: self.dst,
                data: encode_utf8(self.tip->Some_0),
            },
            PushStageView::Done => RequestView::Stop,
            PushStageView::Failed { .. } => RequestView::Stop,
        }
    }

    /// The push after the driver's reply to the pending request.
    pub open spec fn advance(self, reply: ReplyView) -> PushView {
        let top = self.stack.last();
        match self.stage {
            PushStageView::ReadingRef => match reply {
                ReplyView::RefText { text: Some(text) } => {
                    let tip = trimmed(text);
                    if is_object_id(tip) {
                        PushView {
                            src: self.src,
                            dst: self.dst,
                            force: self.force,
                            tip: Some(tip),
                            stack: seq![
                                FrameView {
                                    id: tip,
                                    kind: Kind::Commit,
                                    open: false,
                                    data: Seq::empty(),
                                },
                            ],
                            stage: PushStageView::Checking,
                        }
                    } else {
                        self.fail(ErrorView::InvalidObjectId { text: tip })
                    }
                },
                ReplyView::RefText { text: None } => self.fail(
                    ErrorView::LocalRefNotFound { name: self.src },
                ),
                ReplyView::Failed => self.fail(ErrorView::LocalStoreFailure),
                _ => self.fail(ErrorView::UnexpectedReply),
            },
            PushStageView::Checking => match reply {
                ReplyView::Listing { pages } => match exists_in(pages) {
                    Ok(true) => self.resume(self.stack.drop_last()),
                    Ok(false) => self.at(self.stack, PushStageView::Loading),
                    Err(status) => self.fail(
                        ErrorView::RemoteProtocolError { key: top.id, status },
                    ),
                },
                ReplyView::Failed => self.fail(ErrorView::RemoteUnavailable { key: top.id }),
                _ => self.fail(ErrorView::UnexpectedReply),
            },
            PushStageView::Loading => match reply {
                ReplyView::Object { data: Some(data) } => match children(top.kind, data) {
                    Some(links) => self.resume(self.entered(data, links)),
                    None => self.fail(ErrorView::DecodeError { id: top.id, kind: top.kind }),
                },
                ReplyView::Object { data: None } => self.fail(
                    ErrorView::ObjectNotFoundLocally { id: top.id },
                ),
                ReplyView::Failed => self.fail(ErrorView::LocalStoreFailure),
                _ => self.fail(ErrorView::UnexpectedReply),
            },
            PushStageView::Storing => match reply {
                ReplyView::Stored { status } => if status == STATUS_OK {
                    self.resume(self.stack.drop_last())
                } else {
                    self.fail(ErrorView::RemoteProtocolError { key: top.id, status })
                },
                ReplyView::Failed => self.fail(ErrorView::RemoteUnavailable { key: top.id }),
                _ => self.fail(ErrorView::UnexpectedReply),
            },
            PushStageView::ReadingRemoteRef => match reply {
                ReplyView::Payload { data, status } => if status != STATUS_OK {
                    self.at(self.stack, PushStageView::WritingRef)
                } else if valid_utf8(data) {
                    self.at(self.stack, PushStageView::Asking { old: decode_utf8(data) })
                } else {
                    self.fail(ErrorView::InvalidRefValue { key: self.dst })
                },
                ReplyView::Failed => self.at(self.stack, PushStageView::WritingRef),
                _ => self.fail(ErrorView::UnexpectedReply),
            },
            PushStageView::Asking { old } => match reply {
                ReplyView::Ancestry { holds } => if holds || self.force {
                    self.at(self.stack, PushStageView::WritingRef)
                } else {
                    self.fail(ErrorView::NonFastForward { old, new: self.tip->Some_0 })
                },
                ReplyView::Failed => self.fail(
                    ErrorView::AncestryUnknown { old, new: self.tip->Some_0 },
                ),
                _ => self.fail(ErrorView::UnexpectedReply),
            },
            PushStageView::WritingRef => match reply {
                ReplyView::Stored { status } => if status == STATUS_OK {
                    self.at(self.stack, PushStageView::Done)
                } else {
                    self.fail(ErrorView::RemoteProtocolError { key: self.dst, status })
                },
                ReplyView::Failed => self.fail(ErrorView::RemoteUnavailable { key: self.dst }),
                _ => self.fail(ErrorView::UnexpectedReply),
            },
            PushStageView::Done => self,
            PushStageView::Failed { .. } => self,
        }
    }
}

/// A push keeps its worklist and its stage in step.
pub proof fn lemma_push_advance_wf(p: PushView, reply: ReplyView)
    requires
        p.wf(),
    ensures
        p.advance(reply).wf(),
{
    if let PushStageView::Loading = p.stage {
        if let ReplyView::Object { data: Some(data) } = reply {
            if let Some(links) = children(p.stack.last().kind, data) {
                let s = p.entered(data, links);
                if links.len() == 0 {
                    assert(s.last().open);
                } else {
                    assert(s.last() == pending(links).last());
                }
            }
        }
    }
}

/// The commit of a local ref and all that it refers to, on their way into
/// the bucket, and the remote ref that is to follow.
#[derive(Debug, PartialEq, Eq)]
pub struct Push {
    src: String,
    dst: String,
    force: bool,
    tip: Option<ObjectId>,
    stack: Vec<Frame>,
    stage: PushStage,
}

impl View for Push {
    type V = PushView;

    closed spec fn view(&self) -> PushView {
        PushView {
            src: self.src@,
            dst: self.dst@,
            force: self.force,
            tip: match self.tip {
                Some(id) => Some(id@),
                None => None,
            },
            stack: frames_view(self.stack@),
            stage: self.stage@,
        }
    }
}

impl Push {
    #[verifier::type_invariant]
    spec fn well_formed(self) -> bool {
        self@.wf()
    }

    /// Begins the push of the local ref `src` to the remote ref `dst`.
    pub fn new(src: String, dst: String, force: bool) -> (r: Push)
        ensures
            r@ == PushView::start(src@, dst@, force),
            r@.wf(),
    {
        let r = Push {
            src,
            dst,
            force,
            tip: None,
            stack: Vec::new(),
            stage: PushStage::ReadingRef,
        };
        assert(frames_view(r.stack@) =~= Seq::<FrameView>::empty());
        r
    }

    /// Whether the push has come to its end, well or not.
    pub fn finished(&self) -> (r: bool)
        ensures
            r == (self@.stage is Done || self@.stage is Failed),
    {
        match self.stage {
            PushStage::Done => true,
            PushStage::Failed { .. } => true,
            _ => false,
        }
    }

    /// How the push ended: nothing while it is under way.
    pub fn outcome(self) -> (r: Option<Result<(), Failure>>)
        ensures
            match self@.stage {
                PushStageView::Done => r == Some(Ok::<(), Failure>(())),
                PushStageView::Failed { failure } => r matches Some(Err(f)) && f@ == failure,
                _ => r is None,
            },
    {
        match self.stage {
            PushStage::Done => Some(Ok(())),
            PushStage::Failed { failure } => Some(Err(failure)),
            _ => None,
        }
    }

    /// What the driver is to do now.
    pub fn request(&self) -> (r: Request)
        ensures
            r@ == self@.request(),
    {
        proof {
            use_type_invariant(self);
        }
        match &self.stage {
            PushStage::ReadingRef => Request::ReadRef { name: self.src.clone() },
            PushStage::Checking => Request::List {
                prefix: self.stack[self.stack.len() - 1].id.as_str().to_owned(),
            },
            PushStage::Loading => Request::FindObject {
                id: self.stack[self.stack.len() - 1].id.clone(),
            },
            PushStage::Storing => Request::Put {
                key: self.stack[self.stack.len() - 1].id.as_str().to_owned(),
                data: self.stack[self.stack.len() - 1].data.clone(),
            },
            PushStage::ReadingRemoteRef => Request::Get { key: self.dst.clone() },
            PushStage::Asking { old } => match &self.tip {
                Some(tip) => Request::IsAncestor { old: old.clone(), new: tip.clone() },
                None => Request::Stop,
            },
            PushStage::WritingRef => match &self.tip {
                Some(tip) => Request::Put {
                    key: self.dst.clone(),
                    data: tip.as_str().as_bytes_vec(),
                },
                None => Request::Stop,
            },
            PushStage::Done => Request::Stop,
            PushStage::Failed { .. } => Request::Stop,
        }
    }

    fn at(self, stage: PushStage) -> (r: Push)
        requires
            self@.at(self@.stack, stage@).wf(),
        ensures
            r@ == self@.at(self@.stack, stage@),
    {
        let Push { src, dst, force, tip, stack, stage: _ } = self;
        Push { src, dst, force, tip, stack, stage }
    }

    fn resume(self) -> (r: Push)
        requires
            self@.resume(self@.stack).wf(),
        ensures
            r@ == self@.resume(self@.stack),
    {
        let Push { src, dst, force, tip, stack, stage: _ } = self;
        let stage = if stack.len() == 0 {
            PushStage::ReadingRemoteRef
        } else if stack[stack.len() - 1].open {
            PushStage::Storing
        } else {
            PushStage::Checking
        };
        Push { src, dst, force, tip, stack, stage }
    }

    fn fail(self, error: Error) -> (r: Push)
        ensures
            r@ == self@.fail(error@),
    {
        let Push { src, dst, force, tip, stack, stage: _ } = self;
        let chain = chain_of(&stack);
        let r = Push {
            src,
            dst,
            force,
            tip,
            stack: Vec::new(),
            stage: PushStage::Failed { failure: Failure { error, chain } },
        };
        assert(frames_view(r.stack@) =~= Seq::<FrameView>::empty());
        r
    }

    fn top_key(&self) -> (r: String)
        requires
            self@.stack.len() > 0,
        ensures
            r@ == self@.stack.last().id,
    {
        self.stack[self.stack.len() - 1].id.as_str().to_owned()
    }

    fn top_id(&self) -> (r: ObjectId)
        requires
            self@.stack.len() > 0,
        ensures
            r@ == self@.stack.last().id,
    {
        self.stack[self.stack.len() - 1].id.clone()
    }

    fn drop_top(self) -> (r: Push)
        requires
            self@.stack.len() > 0,
            self@.resume(self@.stack.drop_last()).wf(),
        ensures
            r@ == self@.resume(self@.stack.drop_last()),
    {
        let ghost before = self@;
        let Push { src, dst, force, tip, stack, stage } = self;
        let mut stack = stack;
        stack.pop();
        assert(frames_view(stack@) =~= before.stack.drop_last());
        let stage = if stack.len() == 0 {
            PushStage::ReadingRemoteRef
        } else if stack[stack.len() - 1].open {
            PushStage::Storing
        } else {
            PushStage::Checking
        };
        Push { src, dst, force, tip, stack, stage }
    }

    /// Takes the driver's reply to the pending request and decides how the
    /// push goes on.
    pub fn advance(self, reply: Reply) -> (r: Push)
        ensures
            r@ == self@.advance(reply@),
            r@.wf(),
    {
        proof {
            use_type_invariant(&self);
            lemma_push_advance_wf(self@, reply@);
        }
        let ghost before = self@;
        match &self.stage {
            PushStage::ReadingRef => match reply {
                Reply::RefText { text: Some(text) } => {
                    let v = chars_of(text.as_str());
                    assert(v@.subrange(0, v.len() as int) =~= v@);
                    let (a, b) = trim_range(&v, 0, v.len());
                    let word = cut(text.as_str(), a, b);
                    match ObjectId::from_hex(word.as_str()) {
                        Some(tip) => {
                            let Push { src, dst, force, tip: _, stack: _, stage: _ } = self;
                            let mut stack: Vec<Frame> = Vec::new();
                            stack.push(
                                Frame {
                                    id: tip.clone(),
                                    kind: Kind::Commit,
                                    open: false,
                                    data: Vec::new(),
                                },
                            );
                            assert(frames_view(stack@) =~= before.advance(reply@).stack);
                            Push {
                                src,
                                dst,
                                force,
                                tip: Some(tip),
                                stack,
                                stage: PushStage::Checking,
                            }
                        },
                        None => self.fail(Error::InvalidObjectId { text: word }),
                    }
                },
                Reply::RefText { text: None } => {
                    let name = self.src.clone();
                    self.fail(Error::LocalRefNotFound { name })
                },
                Reply::Failed => self.fail(Error::LocalStoreFailure),
                _ => self.fail(Error::UnexpectedReply),
            },
            PushStage::Checking => match reply {
                Reply::Listing { pages } => match check_hash_remote(&pages) {
                    Ok(true) => self.drop_top(),
                    Ok(false) => self.at(PushStage::Loading),
                    Err(status) => {
                        let key = self.top_key();
                        self.fail(Error::RemoteProtocolError { key, status })
                    },
                },
                Reply::Failed => {
                    let key = self.top_key();
                    self.fail(Error::RemoteUnavailable { key })
                },
                _ => self.fail(Error::UnexpectedReply),
            },
            PushStage::Loading => match reply {
                Reply::Object { data: Some(data) } => {
                    let kind = self.stack[self.stack.len() - 1].kind;
                    match decode_children(kind, &data) {
                        Some(links) => {
                            let Push { src, dst, force, tip, stack, stage: _ } = self;
                            let mut stack = stack;
                            let mut top = stack.pop().unwrap();
                            top.open = true;
                            top.data = data;
                            stack.push(top);
                            push_links(&mut stack, &links);
                            assert(frames_view(stack@) =~= before.entered(
                                data@,
                                links_view(links@),
                            ));
                            let stage = if stack[stack.len() - 1].open {
                                PushStage::Storing
                            } else {
                                PushStage::Checking
                            };
                            Push { src, dst, force, tip, stack, stage }
                        },
                        None => {
                            let id = self.top_id();
                            self.fail(Error::DecodeError { id, kind })
                        },
                    }
                },
                Reply::Object { data: None } => {
                    let id = self.top_id();
                    self.fail(Error::ObjectNotFoundLocally { id })
                },
                Reply::Failed => self.fail(Error::LocalStoreFailure),
                _ => self.fail(Error::UnexpectedReply),
            },
            PushStage::Storing => match reply {
                Reply::Stored { status } => {
                    if status == STATUS_OK {
                        self.drop_top()
                    } else {
                        let key = self.top_key();
                        self.fail(Error::RemoteProtocolError { key, status })
                    }
                },
                Reply::Failed => {
                    let key = self.top_key();
                    self.fail(Error::RemoteUnavailable { key })
                },
                _ => self.fail(Error::UnexpectedReply),
            },
            PushStage::ReadingRemoteRef => match reply {
                Reply::Payload { data, status } => {
                    if status != STATUS_OK {
                        self.at(PushStage::WritingRef)
                    } else {
                        match text_of_bytes(data) {
                            Ok(old) => self.at(PushStage::Asking { old }),
                            Err(_) => {
                                let key = self.dst.clone();
                                self.fail(Error::InvalidRefValue { key })
                            },
                        }
                    }
                },
                Reply::Failed => self.at(PushStage::WritingRef),
                _ => self.fail(Error::UnexpectedReply),
            },
            PushStage::Asking { old } => match reply {
                Reply::Ancestry { holds } => {
                    if holds || self.force {
                        self.at(PushStage::WritingRef)
                    } else {
                        let old = old.clone();
                        let new = match &self.tip {
                            Some(tip) => tip.as_str().to_owned(),
                            None => String::new(),
                        };
                        self.fail(Error::NonFastForward { old, new })
                    }
                },
                Reply::Failed => {
                    let old = old.clone();
                    let new = match &self.tip {
                        Some(tip) => tip.as_str().to_owned(),
                        None => String::new(),
                    };
                    self.fail(Error::AncestryUnknown { old, new })
                },
                _ => self.fail(Error::UnexpectedReply),
            },
            PushStage::WritingRef => match reply {
                Reply::Stored { status } => {
                    if status == STATUS_OK {
                        self.at(PushStage::Done)
                    } else {
                        let key = self.dst.clone();
                        self.fail(Error::RemoteProtocolError { key, status })
                    }
                },
                Reply::Failed => {
                    let key = self.dst.clone();
                    self.fail(Error::RemoteUnavailable { key })
                },
                _ => self.fail(Error::UnexpectedReply),
            },
            PushStage::Done => self,
            PushStage::Failed { .. } => self,
        }
    }
}

} // verus!
