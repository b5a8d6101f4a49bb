//! The session of a remote helper: it reads one command at a time, runs
//! the listing, the fetch or the push that the command asks for, answers
//! each with an empty line, and ends at the first line that is no command
//! or at the first failure.

use vstd::prelude::*;
use crate::error::{Error, ErrorView, Failure, FailureView};
use crate::exchange::{Reply, ReplyView, Request, RequestView};
use crate::fetch::{Fetch, FetchStageView, FetchView};
use crate::locator::{locate, parse_remote_url, BucketStyle, Locator};
use crate::object::{is_object_id, ObjectId};
use crate::protocol::{command_of, parse_command, Command, CommandView};
use crate::push::{Push, PushStageView, PushView};
use crate::refs::{ListStageView, RefList, RefListView};

verus! {

/// The options that the helper is started with.
#[derive(Debug, Clone, PartialEq, Eq)]
pub struct Opts {
    /// The name of the remote.
    pub remote_name: String,
    /// The locator of the remote.
    pub remote_url: String,
    /// The directory of the local repository.
    pub git_dir: String,
    /// How much is logged.
    pub verbose: usize,
}

/// The parameters of the connection that a locator resolves to.
#[derive(Debug, Clone, PartialEq, Eq)]
pub struct RemoteLocator {
    /// The profile that holds the credentials, if one is named.
    pub profile: Option<String>,
    /// The endpoint or region.
    pub endpoint: String,
    /// The bucket.
    pub bucket: String,
    /// How the bucket is addressed.
    pub style: BucketStyle,
}

impl View for RemoteLocator {
    type V = Locator;

    open spec fn view(&self) -> Locator {
        Locator {
            profile: match self.profile {
                Some(p) => Some(p@),
                None => None,
            },
            endpoint: self.endpoint@,
            bucket: self.bucket@,
            style: self.style,
        }
    }
}

/// What a session is doing.
#[derive(Debug, PartialEq, Eq)]
enum Session {
    Idle,
    Saying { lines: Vec<String>, next: usize },
    Listing { list: RefList },
    Fetching { fetch: Fetch },
    Pushing { push: Push },
    Closed { failure: Option<Failure> },
}

/// The mathematical value of what a session is doing.
#[verifier::ext_equal]
pub enum SessionView {
    /// A command is being read.
    Idle,
    /// Lines are being printed, the next one first.
    Saying { lines: Seq<Seq<char>> },
    /// Refs are being listed.
    Listing { list: RefListView },
    /// A commit is being fetched.
    Fetching { fetch: FetchView },
    /// A ref is being pushed.
    Pushing { push: PushView },
    /// The session is over; with a failure where it ended badly.
    Closed { failure: Option<FailureView> },
}

impl View for Session {
    type V = SessionView;

    closed spec fn view(&self) -> SessionView {
        match *self {
            Session::Idle => SessionView::Idle,
            Session::Saying { lines, next } => SessionView::Saying {
                lines: lines@.map_values(|l: String| l@).skip(next as int),
            },
            Session::Listing { list } => SessionView::Listing { list: list@ },
            Session::Fetching { fetch } => SessionView::Fetching { fetch: fetch@ },
            Session::Pushing { push } => SessionView::Pushing { push: push@ },
            Session::Closed { failure } => SessionView::Closed {
                failure: match failure {
                    Some(f) => Some(f@),
                    None => None,
                },
            },
        }
    }
}

/// The mathematical value of a [`Remote`].
#[verifier::ext_equal]
pub struct RemoteView {
    pub locator: Locator,
    pub git_dir: Seq<char>,
    pub session: SessionView,
}

/// The lines with which the helper says what it can do.
pub open spec fn capability_lines() -> Seq<Seq<char>> {
    seq!["fetch"@, "push"@]
}

/// The prefix of the keys under which the bucket holds the refs.
pub open spec fn refs_prefix() -> Seq<char> {
    "refs/"@
}

/// The empty line that answers each command that was carried out.
pub open spec fn end_of_answer() -> Seq<Seq<char>> {
    seq![Seq::<char>::empty()]
}

impl RemoteView {
    /// A session may be over only once its operation is: while it lists,
    /// fetches or pushes, a request of that operation is pending.
    pub open spec fn wf(self) -> bool {
        match self.session {
            SessionView::Saying { lines } => lines.len() > 0,
            SessionView::Listing { list } => list.wf() && list.busy(),
            SessionView::Fetching { fetch } => fetch.wf() && fetch.busy(),
            SessionView::Pushing { push } => push.wf() && !(push.stage is Done) && !(push.stage
                is Failed),
            _ => true,
        }
    }

    /// The same remote doing something else.
    pub open spec fn with(self, session: SessionView) -> RemoteView {
        RemoteView { locator: self.locator, git_dir: self.git_dir, session }
    }

    /// The session ended by `error`.
    pub open spec fn closed(self, error: ErrorView) -> RemoteView {
        self.with(
            SessionView::Closed { failure: Some(FailureView { error, chain: Seq::empty() }) },
        )
    }

    /// The session that lists the refs of the remote.
    pub open spec fn list(self, for_push: bool) -> RemoteView {
        self.with(SessionView::Listing { list: RefListView::start(refs_prefix()) })
    }

    /// The session that fetches the commit named by `sha`; it ends at once
    /// where `sha` is no object id.
    pub open spec fn fetch(self, sha: Seq<char>) -> RemoteView {
        if is_object_id(sha) {
            self.with(SessionView::Fetching { fetch: FetchView::start(sha) })
        } else {
            self.closed(ErrorView::InvalidObjectId { text: sha })
        }
    }

    /// The session that pushes the local ref `src` to the remote ref `dst`.
    pub open spec fn push(self, src: Seq<char>, dst: Seq<char>, force: bool) -> RemoteView {
        self.with(SessionView::Pushing { push: PushView::start(src, dst, force) })
    }

    /// The session after the command line `line` was read.
    pub open spec fn dispatch(self, line: Seq<char>) -> RemoteView {
        match command_of(line) {
            Ok(CommandView::Capabilities) => self.with(
                SessionView::Saying { lines: capability_lines() + end_of_answer() },
            ),
            Ok(CommandView::List { for_push }) => self.list(for_push),
            Ok(CommandView::Fetch { sha, name }) => self.fetch(sha),
            Ok(CommandView::Push { src, dst, force }) => self.push(src, dst, force),
            Ok(CommandView::Exit) => self.with(SessionView::Closed { failure: None }),
            Err(error) => self.closed(error),
        }
    }

    /// The session after a step of its listing.
    pub open spec fn listed(self, list: RefListView) -> RemoteView {
        match list.stage {
            ListStageView::Done => self.with(SessionView::Saying { lines: end_of_answer() }),
            ListStageView::Failed { failure } => self.with(
                SessionView::Closed { failure: Some(failure) },
            ),
            _ => self.with(SessionView::Listing { list }),
        }
    }

    /// The session after a step of its fetch.
    pub open spec fn fetched(self, fetch: FetchView) -> RemoteView {
        match fetch.stage {
            FetchStageView::Done => self.with(SessionView::Saying { lines: end_of_answer() }),
            FetchStageView::Failed { failure } => self.with(
                SessionView::Closed { failure: Some(failure) },
            ),
            _ => self.with(SessionView::Fetching { fetch }),
        }
    }

    /// The session after a step of its push.
    pub open spec fn pushed(self, push: PushView) -> RemoteView {
        match push.stage {
            PushStageView::Done => self.with(SessionView::Saying { lines: end_of_answer() }),
            PushStageView::Failed { failure } => self.with(
                SessionView::Closed { failure: Some(failure) },
            ),
            _ => self.with(SessionView::Pushing { push }),
        }
    }

    /// What the driver is asked to do at this point.
    pub open spec fn request(self) -> RequestView {
        match self.session {
            SessionView::Idle => RequestView::ReadLine,
            SessionView::Saying { lines } => RequestView::Print { line: lines[0] },
            SessionView::Listing { list } => list.request(),
            SessionView::Fetching { fetch } => fetch.request(),
            SessionView::Pushing { push } => push.request(),
            SessionView::Closed { .. } => RequestView::Stop,
        }
    }

    /// The session after the driver's reply to the pending request.
    pub open spec fn run(self, reply: ReplyView) -> RemoteView {
        match self.session {
            SessionView::Idle => match reply {
                ReplyView::Line { text } => self.dispatch(text),
                ReplyView::Failed => self.closed(ErrorView::StreamFailure),
                _ => self.closed(ErrorView::UnexpectedReply),
            },
            SessionView::Saying { lines } => match reply {
                ReplyView::Printed => if lines.len() > 1 {
                    self.with(SessionView::Saying { lines: lines.drop_first() })
                } else {
                    self.with(SessionView::Idle)
                },
                ReplyView::Failed => self.closed(ErrorView::StreamFailure),
                _ => self.closed(ErrorView::UnexpectedReply),
            },
            SessionView::Listing { list } => self.listed(list.advance(reply)),
            SessionView::Fetching { fetch } => self.fetched(fetch.advance(reply)),
            SessionView::Pushing { push } => self.pushed(push.advance(reply)),
            SessionView::Closed { .. } => self,
        }
    }
}

/// The helper's side of a session with one remote.
#[derive(Debug, PartialEq, Eq)]
pub struct Remote {
    locator: RemoteLocator,
    git_dir: String,
    session: Session,
}

impl View for Remote {
    type V = RemoteView;

    closed spec fn view(&self) -> RemoteView {
        RemoteView { locator: self.locator@, git_dir: self.git_dir@, session: self.session@ }
    }
}

fn failure_of(error: Error) -> (r: Failure)
    ensures
        r@ == (FailureView { error: error@, chain: Seq::empty() }),
{
    let r = Failure { error, chain: Vec::new() };
    assert(r@.chain =~= Seq::<Seq<char>>::empty());
    r
}

impl Remote {
    #[verifier::type_invariant]
    spec fn well_formed(self) -> bool {
        &&& self@.wf()
        &&& self.session matches Session::Saying { lines, next } ==> next < lines.len()
    }

    /// Resolves the locator of the options and opens the session.
    pub fn new(opts: Opts) -> (r: Result<Remote, Error>)
        ensures
            match locate(opts.remote_url@) {
                Ok(locator) => r matches Ok(remote) && remote@ == (RemoteView {
                    locator,
                    git_dir: opts.git_dir@,
                    session: SessionView::Idle,
                }),
                Err(error) => r matches Err(e) && e@ == error,
            },
    {
        match parse_remote_url(opts.remote_url) {
            Ok((profile, endpoint, bucket, style)) => Ok(
                Remote {
                    locator: RemoteLocator { profile, endpoint, bucket, style },
                    git_dir: opts.git_dir,
                    session: Session::Idle,
                },
            ),
            Err(error) => Err(error),
        }
    }

    /// The parameters of the connection to the bucket.
    pub fn locator(&self) -> (r: &RemoteLocator)
        ensures
            r@ == self@.locator,
    {
        &self.locator
    }

    /// The directory of the local repository.
    pub fn git_dir(&self) -> (r: &str)
        ensures
            r@ == self@.git_dir,
    {
        self.git_dir.as_str()
    }

    /// The lines with which the helper says what it can do: `fetch`, then
    /// `push`.
    pub fn capabilities(&self) -> (r: Vec<String>)
        ensures
            r@.map_values(|l: String| l@) == capability_lines(),
    {
        let mut r: Vec<String> = Vec::new();
        r.push("fetch".to_owned());
        r.push("push".to_owned());
        assert(r@.map_values(|l: String| l@) =~= capability_lines());
        r
    }

    /// Whether the session is over.
    pub fn is_closed(&self) -> (r: bool)
        ensures
            r == self@.session is Closed,
    {
        match self.session {
            Session::Closed { .. } => true,
            _ => false,
        }
    }

    /// How the session ended: nothing while it is open.
    pub fn outcome(self) -> (r: Option<Result<(), Failure>>)
        ensures
            match self@.session {
                SessionView::Closed { failure: None } => r == Some(Ok::<(), Failure>(())),
                SessionView::Closed { failure: Some(failure) } => r matches Some(Err(f)) && f@
                    == failure,
                _ => r is None,
            },
    {
        match self.session {
            Session::Closed { failure: None } => Some(Ok(())),
            Session::Closed { failure: Some(failure) } => Some(Err(failure)),
            _ => None,
        }
    }

    /// What the driver is to do now.
    pub fn request(&self) -> (r: Request)
        ensures
            r@ == self@.request(),
    {
        proof {
            use_type_invariant(self);
        }
        match &self.session {
            Session::Idle => Request::ReadLine,
            Session::Saying { lines, next } => Request::Print { line: lines[*next].clone() },
            Session::Listing { list } => list.request(),
            Session::Fetching { fetch } => fetch.request(),
            Session::Pushing { push } => push.request(),
            Session::Closed { .. } => Request::Stop,
        }
    }

    fn say(self, lines: Vec<String>) -> (r: Remote)
        requires
            lines.len() > 0,
        ensures
            r@ == self@.with(SessionView::Saying { lines: lines@.map_values(|l: String| l@) }),
    {
        assert(lines@.map_values(|l: String| l@).skip(0) =~= lines@.map_values(|l: String| l@));
        Remote {
            locator: self.locator,
            git_dir: self.git_dir,
            session: Session::Saying { lines, next: 0 },
        }
    }

    fn acknowledge(self) -> (r: Remote)
        ensures
            r@ == self@.with(SessionView::Saying { lines: end_of_answer() }),
    {
        let mut lines: Vec<String> = Vec::new();
        lines.push(String::new());
        assert(lines@.map_values(|l: String| l@) =~= end_of_answer());
        self.say(lines)
    }

    fn close(self, failure: Option<Failure>) -> (r: Remote)
        ensures
            r@ == self@.with(
                SessionView::Closed {
                    failure: match failure {
                        Some(f) => Some(f@),
                        None => None,
                    },
                },
            ),
    {
        Remote {
            locator: self.locator,
            git_dir: self.git_dir,
            session: Session::Closed { failure },
        }
    }

    /// Begins to list the refs of the remote.
    pub fn list(self, for_push: bool) -> (r: Remote)
        ensures
            r@ == self@.list(for_push),
    {
        let list = RefList::new("refs/".to_owned());
        Remote { locator: self.locator, git_dir: self.git_dir, session: Session::Listing { list } }
    }

    /// Begins to fetch the commit named by `sha`.
    pub fn fetch(self, sha: &str) -> (r: Remote)
        ensures
            r@ == self@.fetch(sha@),
    {
        match ObjectId::from_hex(sha) {
            Some(root) => {
                let fetch = Fetch::new(root);
                Remote {
                    locator: self.locator,
                    git_dir: self.git_dir,
                    session: Session::Fetching { fetch },
                }
            },
            None => self.close(Some(failure_of(Error::InvalidObjectId { text: sha.to_owned() }))),
        }
    }

    /// Begins to push the local ref `src` to the remote ref `dst`.
    pub fn push(self, src: &str, dst: &str, force: bool) -> (r: Remote)
        ensures
            r@ == self@.push(src@, dst@, force),
    {
        let push = Push::new(src.to_owned(), dst.to_owned(), force);
        Remote { locator: self.locator, git_dir: self.git_dir, session: Session::Pushing { push } }
    }

    fn dispatch(self, line: &str) -> (r: Remote)
        ensures
            r@ == self@.dispatch(line@),
    {
        match parse_command(line) {
            Ok(Command::Capabilities) => {
                let mut lines = self.capabilities();
                lines.push(String::new());
                assert(lines@.map_values(|l: String| l@) =~= capability_lines() + end_of_answer());
                self.say(lines)
            },
            Ok(Command::List { for_push }) => self.list(for_push),
            Ok(Command::Fetch { sha, name }) => self.fetch(sha.as_str()),
            Ok(Command::Push { src, dst, force }) => self.push(src.as_str(), dst.as_str(), force),
            Ok(Command::Exit) => self.close(None),
            Err(error) => self.close(Some(failure_of(error))),
        }
    }

    /// Takes the driver's reply to the pending request and decides how the
    /// session goes on: which command is carried out, what is printed, and
    /// when the session ends.
    pub fn run(self, reply: Reply) -> (r: Remote)
        ensures
            r@ == self@.run(reply@),
    {
        proof {
            use_type_invariant(&self);
        }
        let Remote { locator, git_dir, session } = self;
        match session {
            Session::Idle => {
                let idle = Remote { locator, git_dir, session: Session::Idle };
                match reply {
                    Reply::Line { text } => idle.dispatch(text.as_str()),
                    Reply::Failed => idle.close(Some(failure_of(Error::StreamFailure))),
                    _ => idle.close(Some(failure_of(Error::UnexpectedReply))),
                }
            },
            Session::Saying { lines, next } => {
                let idle = Remote { locator, git_dir, session: Session::Idle };
                match reply {
                    Reply::Printed => {
                        if next + 1 < lines.len() {
                            assert(lines@.map_values(|l: String| l@).skip(next as int).drop_first()
                                =~= lines@.map_values(|l: String| l@).skip(next + 1));
                            Remote {
                                locator: idle.locator,
                                git_dir: idle.git_dir,
                                session: Session::Saying { lines, next: next + 1 },
                            }
                        } else {
                            idle
                        }
                    },
                    Reply::Failed => idle.close(Some(failure_of(Error::StreamFailure))),
                    _ => idle.close(Some(failure_of(Error::UnexpectedReply))),
                }
            },
            Session::Listing { list } => {
                let idle = Remote { locator, git_dir, session: Session::Idle };
                let list = list.advance(reply);
                if list.finished() {
                    match list.outcome() {
                        Some(Err(failure)) => idle.close(Some(failure)),
                        _ => idle.acknowledge(),
                    }
                } else {
                    Remote {
                        locator: idle.locator,
                        git_dir: idle.git_dir,
                        session: Session::Listing { list },
                    }
                }
            },
            Session::Fetching { fetch } => {
                let idle = Remote { locator, git_dir, session: Session::Idle };
                let fetch = fetch.advance(reply);
                if fetch.finished() {
                    match fetch.outcome() {
                        Some(Err(failure)) => idle.close(Some(failure)),
                        _ => idle.acknowledge(),
                    }
                } else {
                    Remote {
                        locator: idle.locator,
                        git_dir: idle.git_dir,
                        session: Session::Fetching { fetch },
                    }
                }
            },
            Session::Pushing { push } => {
                let idle = Remote { locator, git_dir, session: Session::Idle };
                let push = push.advance(reply);
                if push.finished() {
                    match push.outcome() {
                        Some(Err(failure)) => idle.close(Some(failure)),
                        _ => idle.acknowledge(),
                    }
                } else {
                    Remote {
                        locator: idle.locator,
                        git_dir: idle.git_dir,
                        session: Session::Pushing { push },
                    }
                }
            },
            Session::Closed { failure } => Remote {
                locator,
                git_dir,
                session: Session::Closed { failure },
            },
        }
    }
}

} // verus!
