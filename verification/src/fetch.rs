//! The fetch engine: brings a commit and everything it refers to from the
//! bucket into the local database.
//!
//! The walk is depth first. An object that the local database already holds
//! is not looked into: that ends the walk below shared history. An object
//! that it lacks is got from the bucket, stored, decoded, and its parts are
//! visited before anything else: the tree of a commit before its parents.

use vstd::prelude::*;
use crate::error::{Error, ErrorView, Failure, FailureView};
use crate::exchange::{Reply, ReplyView, Request, RequestView, STATUS_NOT_FOUND, STATUS_OK};
use crate::object::{Kind, ObjectId};
use crate::walk::{
    chain, chain_of, children, decode_children, frames_view, links_view, pending, push_links,
    Frame, FrameView, LinkView,
};

verus! {

/// Where a fetch stands with the object on top of its worklist.
#[derive(Debug, PartialEq, Eq)]
pub enum FetchStage {
    /// The local database is being asked for the object.
    Finding,
    /// The bucket is being asked for the object.
    Getting,
    /// The bytes that came from the bucket are being stored locally.
    Writing { data: Vec<u8> },
    /// Everything is there.
    Done,
    /// The fetch broke off.
    Failed { failure: Failure },
}

/// The mathematical value of a [`FetchStage`].
#[verifier::ext_equal]
pub enum FetchStageView {
    Finding,
    Getting,
    Writing { data: Seq<u8> },
    Done,
    Failed { failure: FailureView },
}

impl View for FetchStage {
    type V = FetchStageView;

    open spec fn view(&self) -> FetchStageView {
        match *self {
            FetchStage::Finding => FetchStageView::Finding,
            FetchStage::Getting => FetchStageView::Getting,
            FetchStage::Writing { data } => FetchStageView::Writing { data: data@ },
            FetchStage::Done => FetchStageView::Done,
            FetchStage::Failed { failure } => FetchStageView::Failed { failure: failure@ },
        }
    }
}

/// The mathematical value of a [`Fetch`]: the worklist and the stage.
#[verifier::ext_equal]
pub struct FetchView {
    pub stack: Seq<FrameView>,
    pub stage: FetchStageView,
}

/// The worklist without the open frames on its top: their parts are done.
pub open spec fn settle(stack: Seq<FrameView>) -> Seq<FrameView>
    decreases stack.len(),
{
    if stack.len() > 0 && stack.last().open {
        settle(stack.drop_last())
    } else {
        stack
    }
}

impl FetchView {
    /// The fetch of the commit `root`, before anything was asked.
    pub open spec fn start(root: Seq<char>) -> FetchView {
        FetchView {
            stack: seq![
                FrameView { id: root, kind: Kind::Commit, open: false, data: Seq::empty() },
            ],
            stage: FetchStageView::Finding,
        }
    }

    /// Whether a request is pending.
    pub open spec fn busy(self) -> bool {
        self.stage is Finding || self.stage is Getting || self.stage is Writing
    }

    /// While a request is pending the object in hand lies on top of the
    /// worklist; afterwards the worklist is empty.
    pub open spec fn wf(self) -> bool {
        if self.busy() {
            self.stack.len() > 0 && !self.stack.last().open
        } else {
            self.stack.len() == 0
        }
    }

    /// Goes on with what is left of the worklist.
    pub open spec fn resume(stack: Seq<FrameView>) -> FetchView {
        let rest = settle(stack);
        FetchView {
            stack: rest,
            stage: if rest.len() == 0 {
                FetchStageView::Done
            } else {
                FetchStageView::Finding
            },
        }
    }

    /// Breaks off with `error`, naming the objects whose parts were being
    /// fetched.
    pub open spec fn fail(self, error: ErrorView) -> FetchView {
        FetchView {
            stack: Seq::empty(),
            stage: FetchStageView::Failed {
                failure: FailureView { error, chain: chain(self.stack) },
            },
        }
    }

    /// What the driver is asked to do at this point.
    pub open spec fn request(self) -> RequestView {
        match self.stage {
            FetchStageView::Finding => RequestView::FindObject { id: self.stack.last().id },
            FetchStageView::Getting => RequestView::Get { key: self.stack.last().id },
            FetchStageView::Writing { data } => RequestView::WriteObject {
                kind: self.stack.last().kind,
                data,
            },
            FetchStageView::Done => RequestView::Stop,
            FetchStageView::Failed { .. } => RequestView::Stop,
        }
    }

    /// The worklist once the object on top was stored and found to refer
    /// to `links`: the object is open, its parts lie above it.
    pub open spec fn entered(self, links: Seq<LinkView>) -> Seq<FrameView> {
        let top = self.stack.last();
        self.stack.drop_last().push(
            FrameView { id: top.id, kind: top.kind, open: true, data: top.data },
        ) + pending(links)
    }

    /// The fetch after the driver's reply to the pending request.
    pub open spec fn advance(self, reply: ReplyView) -> FetchView {
        let top = self.stack.last();
        match self.stage {
            FetchStageView::Finding => match reply {
                ReplyView::Object { data: Some(_) } => Self::resume(self.stack.drop_last()),
                ReplyView::Object { data: None } => FetchView {
                    stack: self.stack,
                    stage: FetchStageView::Getting,
                },
                ReplyView::Failed => self.fail(ErrorView::LocalStoreFailure),
                _ => self.fail(ErrorView::UnexpectedReply),
            },
            FetchStageView::Getting => match reply {
                ReplyView::Payload { data, status } => if status == STATUS_OK {
                    FetchView { stack: self.stack, stage: FetchStageView::Writing { data } }
                } else if status == STATUS_NOT_FOUND {
                    self.fail(ErrorView::RemoteNotFound { key: top.id })
                } else {
                    self.fail(ErrorView::RemoteProtocolError { key: top.id, status })
                },
                ReplyView::Failed => self.fail(ErrorView::RemoteUnavailable { key: top.id }),
                _ => self.fail(ErrorView::UnexpectedReply),
            },
            FetchStageView::Writing { data } => match reply {
                ReplyView::Written => match children(top.kind, data) {
                    Some(links) => Self::resume(self.entered(links)),
                    None => self.fail(ErrorView::DecodeError { id: top.id, kind: top.kind }),
                },
                ReplyView::Failed => self.fail(ErrorView::LocalStoreFailure),
                _ => self.fail(ErrorView::UnexpectedReply),
            },
            FetchStageView::Done => self,
            FetchStageView::Failed { .. } => self,
        }
    }
}

/// What is left of a settled worklist has the object in hand on top.
pub proof fn lemma_settle(stack: Seq<FrameView>)
    ensures
        settle(stack).len() <= stack.len(),
        settle(stack).len() > 0 ==> !settle(stack).last().open,
    decreases stack.len(),
{
    if stack.len() > 0 && stack.last().open {
        lemma_settle(stack.drop_last());
    }
}

/// A fetch keeps the object in hand on top of its worklist at every step.
pub proof fn lemma_fetch_advance_wf(f: FetchView, reply: ReplyView)
    requires
        f.wf(),
    ensures
        f.advance(reply).wf(),
{
    lemma_settle(f.stack.drop_last());
    if let FetchStageView::Writing { data } = f.stage {
        if let Some(links) = children(f.stack.last().kind, data) {
            lemma_settle(f.entered(links));
        }
    }
}

/// Takes the open frames off the top of the worklist.
fn settle_stack(stack: &mut Vec<Frame>)
    ensures
        frames_view(final(stack)@) == settle(frames_view(old(stack)@)),
{
    while stack.len() > 0 && stack[stack.len() - 1].open
        invariant
            settle(frames_view(stack@)) == settle(frames_view(old(stack)@)),
        decreases stack.len(),
    {
        let ghost before = frames_view(stack@);
        stack.pop();
        assert(frames_view(stack@) =~= before.drop_last());
    }
}

/// A commit and all that it refers to, on their way from the bucket into
/// the local database.
#[derive(Debug, PartialEq, Eq)]
pub struct Fetch {
    stack: Vec<Frame>,
    stage: FetchStage,
}

impl View for Fetch {
    type V = FetchView;

    closed spec fn view(&self) -> FetchView {
        FetchView { stack: frames_view(self.stack@), stage: self.stage@ }
    }
}

impl Fetch {
    #[verifier::type_invariant]
    spec fn well_formed(self) -> bool {
        self@.wf()
    }

    /// Begins the fetch of the commit `root`.
    pub fn new(root: ObjectId) -> (r: Fetch)
        ensures
            r@ == FetchView::start(root@),
            r@.wf(),
    {
        let mut stack: Vec<Frame> = Vec::new();
        stack.push(Frame { id: root, kind: Kind::Commit, open: false, data: Vec::new() });
        assert(frames_view(stack@) =~= FetchView::start(root@).stack);
        Fetch { stack, stage: FetchStage::Finding }
    }

    fn resume(stack: Vec<Frame>) -> (r: Fetch)
        ensures
            r@ == FetchView::resume(frames_view(stack@)),
    {
        let mut stack = stack;
        proof {
            lemma_settle(frames_view(stack@));
        }
        settle_stack(&mut stack);
        if stack.len() == 0 {
            Fetch { stack, stage: FetchStage::Done }
        } else {
            Fetch { stack, stage: FetchStage::Finding }
        }
    }

    fn fail(stack: Vec<Frame>, error: Error) -> (r: Fetch)
        ensures
            r@.stack == Seq::<FrameView>::empty(),
            r@.stage == (FetchStageView::Failed {
                failure: FailureView { error: error@, chain: chain(frames_view(stack@)) },
            }),
    {
        let chain = chain_of(&stack);
        let r = Fetch {
            stack: Vec::new(),
            stage: FetchStage::Failed { failure: Failure { error, chain } },
        };
        assert(frames_view(r.stack@) =~= Seq::<FrameView>::empty());
        r
    }

    /// Whether the fetch has come to its end, well or not.
    pub fn finished(&self) -> (r: bool)
        ensures
            r == !self@.busy(),
    {
        match self.stage {
            FetchStage::Done => true,
            FetchStage::Failed { .. } => true,
            _ => false,
        }
    }

    /// How the fetch ended: nothing while it is under way.
    pub fn outcome(self) -> (r: Option<Result<(), Failure>>)
        ensures
            match self@.stage {
                FetchStageView::Done => r == Some(Ok::<(), Failure>(())),
                FetchStageView::Failed { failure } => r matches Some(Err(f)) && f@ == failure,
                _ => r is None,
            },
    {
        match self.stage {
            FetchStage::Done => Some(Ok(())),
            FetchStage::Failed { failure } => Some(Err(failure)),
            _ => None,
        }
    }

    /// What the driver is to do now.
    pub fn request(&self) -> (r: Request)
        ensures
            r@ == self@.request(),
    {
        proof {
            use_type_invariant(self);
        }
        match &self.stage {
            FetchStage::Finding => Request::FindObject {
                id: self.stack[self.stack.len() - 1].id.clone(),
            },
            FetchStage::Getting => Request::Get {
                key: self.stack[self.stack.len() - 1].id.as_str().to_owned(),
            },
            FetchStage::Writing { data } => Request::WriteObject {
                kind: self.stack[self.stack.len() - 1].kind,
                data: data.clone(),
            },
            FetchStage::Done => Request::Stop,
            FetchStage::Failed { .. } => Request::Stop,
        }
    }

    /// Takes the driver's reply to the pending request and decides how the
    /// fetch goes on.
    pub fn advance(self, reply: Reply) -> (r: Fetch)
        ensures
            r@ == self@.advance(reply@),
            r@.wf(),
    {
        proof {
            use_type_invariant(&self);
            lemma_fetch_advance_wf(self@, reply@);
        }
        let ghost before = self@;
        let Fetch { stack, stage } = self;
        let mut stack = stack;
        match stage {
            FetchStage::Finding => match reply {
                Reply::Object { data: Some(_) } => {
                    stack.pop();
                    assert(frames_view(stack@) =~= before.stack.drop_last());
                    Fetch::resume(stack)
                },
                Reply::Object { data: None } => Fetch { stack, stage: FetchStage::Getting },
                Reply::Failed => Fetch::fail(stack, Error::LocalStoreFailure),
                _ => Fetch::fail(stack, Error::UnexpectedReply),
            },
            FetchStage::Getting => match reply {
                Reply::Payload { data, status } => {
                    if status == STATUS_OK {
                        Fetch { stack, stage: FetchStage::Writing { data } }
                    } else if status == STATUS_NOT_FOUND {
                        let key = stack[stack.len() - 1].id.as_str().to_owned();
                        Fetch::fail(stack, Error::RemoteNotFound { key })
                    } else {
                        let key = stack[stack.len() - 1].id.as_str().to_owned();
                        Fetch::fail(stack, Error::RemoteProtocolError { key, status })
                    }
                },
                Reply::Failed => {
                    let key = stack[stack.len() - 1].id.as_str().to_owned();
                    Fetch::fail(stack, Error::RemoteUnavailable { key })
                },
                _ => Fetch::fail(stack, Error::UnexpectedReply),
            },
            FetchStage::Writing { data } => match reply {
                Reply::Written => {
                    let kind = stack[stack.len() - 1].kind;
                    match decode_children(kind, &data) {
                        Some(links) => {
                            let mut top = stack.pop().unwrap();
                            top.open = true;
                            stack.push(top);
                            push_links(&mut stack, &links);
                            assert(frames_view(stack@) =~= before.entered(links_view(links@)));
                            Fetch::resume(stack)
                        },
                        None => {
                            let id = stack[stack.len() - 1].id.clone();
                            Fetch::fail(stack, Error::DecodeError { id, kind })
                        },
                    }
                },
                Reply::Failed => Fetch::fail(stack, Error::LocalStoreFailure),
                _ => Fetch::fail(stack, Error::UnexpectedReply),
            },
            FetchStage::Done => Fetch { stack, stage: FetchStage::Done },
            FetchStage::Failed { failure } => Fetch {
                stack,
                stage: FetchStage::Failed { failure },
            },
        }
    }
}

} // verus!
