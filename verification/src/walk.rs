//! The worklist that both engines walk the object graph with: a stack of
//! frames, the object in hand on top. An open frame stands for an object
//! whose parts are being copied and lie above it.

use vstd::prelude::*;
use crate::object::{
    commit_links, decode_commit, decode_tree, tree_entries, CommitLinks, CommitLinksView, Kind,
    ObjectId, TreeEntry, TreeEntryView, MODE_TREE,
};

verus! {

/// A reference from one object to another: the id and the kind that the
/// referring object expects there.
#[derive(Debug, PartialEq, Eq)]
pub struct Link {
    pub id: ObjectId,
    pub kind: Kind,
}

/// The mathematical value of a [`Link`].
#[verifier::ext_equal]
pub struct LinkView {
    pub id: Seq<char>,
    pub kind: Kind,
}

impl View for Link {
    type V = LinkView;

    open spec fn view(&self) -> LinkView {
        LinkView { id: self.id@, kind: self.kind }
    }
}

/// The mathematical value of a list of links.
pub open spec fn links_view(links: Seq<Link>) -> Seq<LinkView> {
    links.map_values(|l: Link| l@)
}

/// The kind of object that a tree entry of the given mode names: a tree for
/// the mode of directories, a blob for every other mode.
pub open spec fn entry_kind(mode: u16) -> Kind {
    if mode == MODE_TREE {
        Kind::Tree
    } else {
        Kind::Blob
    }
}

/// The references of a commit: its tree first, then its parents in order.
pub open spec fn commit_children(c: CommitLinksView) -> Seq<LinkView> {
    seq![LinkView { id: c.tree, kind: Kind::Tree }] + c.parents.map_values(
        |p: Seq<char>| LinkView { id: p, kind: Kind::Commit },
    )
}

/// The references of a tree: one for each entry, in order.
pub open spec fn tree_children(entries: Seq<TreeEntryView>) -> Seq<LinkView> {
    entries.map_values(|e: TreeEntryView| LinkView { id: e.id, kind: entry_kind(e.mode) })
}

/// The references of an object of the given kind with the given bytes, or
/// nothing where the bytes are no object of that kind. A blob has none.
pub open spec fn children(kind: Kind, data: Seq<u8>) -> Option<Seq<LinkView>> {
    match kind {
        Kind::Commit => match commit_links(data) {
            Some(c) => Some(commit_children(c)),
            None => None,
        },
        Kind::Tree => match tree_entries(data) {
            Some(entries) => Some(tree_children(entries)),
            None => None,
        },
        Kind::Blob => Some(Seq::empty()),
    }
}

/// Lists the references of a decoded commit.
pub fn links_of_commit(c: &CommitLinks) -> (r: Vec<Link>)
    ensures
        links_view(r@) == commit_children(c@),
{
    let mut r: Vec<Link> = Vec::new();
    r.push(Link { id: c.tree.clone(), kind: Kind::Tree });
    let mut i: usize = 0;
    while i < c.parents.len()
        invariant
            i <= c.parents.len(),
            r.len() == i + 1,
            r@[0]@ == (LinkView { id: c.tree@, kind: Kind::Tree }),
            forall|k: int| 1 <= k <= i ==> (#[trigger] r@[k])@ == (LinkView {
                id: c.parents@[k - 1]@,
                kind: Kind::Commit,
            }),
        decreases c.parents.len() - i,
    {
        r.push(Link { id: c.parents[i].clone(), kind: Kind::Commit });
        i += 1;
    }
    proof {
        let want = commit_children(c@);
        assert(want.len() == r.len());
        assert forall|k: int| 0 <= k < r.len() implies links_view(r@)[k] == want[k] by {
            if k > 0 {
                assert(want[k] == c@.parents.map_values(
                    |p: Seq<char>| LinkView { id: p, kind: Kind::Commit },
                )[k - 1]);
            }
        }
        assert(links_view(r@) =~= want);
    }
    r
}

/// Lists the references of the decoded entries of a tree.
pub fn links_of_tree(entries: &Vec<TreeEntry>) -> (r: Vec<Link>)
    ensures
        links_view(r@) == tree_children(entries@.map_values(|e: TreeEntry| e@)),
{
    let mut r: Vec<Link> = Vec::new();
    let mut i: usize = 0;
    while i < entries.len()
        invariant
            i <= entries.len(),
            r.len() == i,
            forall|k: int| 0 <= k < i ==> (#[trigger] r@[k])@ == (LinkView {
                id: entries@[k].id@,
                kind: entry_kind(entries@[k].mode),
            }),
        decreases entries.len() - i,
    {
        let kind = if entries[i].mode == MODE_TREE {
            Kind::Tree
        } else {
            Kind::Blob
        };
        r.push(Link { id: entries[i].id.clone(), kind });
        i += 1;
    }
    assert(links_view(r@) =~= tree_children(entries@.map_values(|e: TreeEntry| e@)));
    r
}

/// Decodes the bytes of an object of the given kind and lists what it
/// refers to; nothing where the bytes are no object of that kind.
pub fn decode_children(kind: Kind, data: &Vec<u8>) -> (r: Option<Vec<Link>>)
    ensures
        match r {
            Some(links) => children(kind, data@) == Some(links_view(links@)),
            None => children(kind, data@) is None,
        },
{
    match kind {
        Kind::Commit => match decode_commit(data) {
            Ok(c) => Some(links_of_commit(&c)),
            Err(_) => None,
        },
        Kind::Tree => match decode_tree(data) {
            Ok(entries) => Some(links_of_tree(&entries)),
            Err(_) => None,
        },
        Kind::Blob => {
            let r: Vec<Link> = Vec::new();
            assert(links_view(r@) =~= Seq::<LinkView>::empty());
            Some(r)
        },
    }
}

/// One entry of the worklist.
#[derive(Debug, PartialEq, Eq)]
pub struct Frame {
    /// The object.
    pub id: ObjectId,
    /// The kind that is expected of it.
    pub kind: Kind,
    /// Whether its parts have been put on the worklist above it.
    pub open: bool,
    /// Its bytes, where they are kept until its parts are done.
    pub data: Vec<u8>,
}

/// The mathematical value of a [`Frame`].
#[verifier::ext_equal]
pub struct FrameView {
    pub id: Seq<char>,
    pub kind: Kind,
    pub open: bool,
    pub data: Seq<u8>,
}

impl View for Frame {
    type V = FrameView;

    open spec fn view(&self) -> FrameView {
        FrameView { id: self.id@, kind: self.kind, open: self.open, data: self.data@ }
    }
}

/// The mathematical value of a worklist.
pub open spec fn frames_view(stack: Seq<Frame>) -> Seq<FrameView> {
    stack.map_values(|f: Frame| f@)
}

/// The frame with which a reference enters the worklist.
pub open spec fn frame_of(link: LinkView) -> FrameView {
    FrameView { id: link.id, kind: link.kind, open: false, data: Seq::empty() }
}

/// The frames of a list of references, the first reference last, so that
/// on a stack it comes out first.
pub open spec fn pending(links: Seq<LinkView>) -> Seq<FrameView> {
    Seq::new(links.len(), |i: int| frame_of(links[links.len() - 1 - i]))
}

/// The ids of the open frames of a worklist, from the top down: the
/// objects whose parts are being copied, the nearest first.
pub open spec fn chain(stack: Seq<FrameView>) -> Seq<Seq<char>>
    decreases stack.len(),
{
    if stack.len() == 0 {
        Seq::empty()
    } else if stack.last().open {
        seq![stack.last().id] + chain(stack.drop_last())
    } else {
        chain(stack.drop_last())
    }
}

/// Puts the frames of `links` on the worklist, the first link on top.
pub fn push_links(stack: &mut Vec<Frame>, links: &Vec<Link>)
    ensures
        frames_view(final(stack)@) == frames_view(old(stack)@) + pending(links_view(links@)),
{
    let ghost before = frames_view(stack@);
    let ghost todo = pending(links_view(links@));
    let n = links.len();
    let mut i: usize = 0;
    while i < n
        invariant
            i <= n,
            n == links.len(),
            todo == pending(links_view(links@)),
            frames_view(stack@) == before + todo.take(i as int),
        decreases n - i,
    {
        let link = &links[n - 1 - i];
        let ghost s0 = stack@;
        stack.push(Frame { id: link.id.clone(), kind: link.kind, open: false, data: Vec::new() });
        assert(stack@.last()@ == todo[i as int]);
        assert(frames_view(stack@) =~= frames_view(s0).push(todo[i as int]));
        assert(todo.take(i + 1) =~= todo.take(i as int).push(todo[i as int]));
        i += 1;
    }
    assert(todo.take(n as int) =~= todo);
}

/// Collects the ids of the open frames, from the top down.
pub fn chain_of(stack: &Vec<Frame>) -> (r: Vec<ObjectId>)
    ensures
        r@.map_values(|id: ObjectId| id@) == chain(frames_view(stack@)),
{
    let ghost frames = frames_view(stack@);
    let mut r: Vec<ObjectId> = Vec::new();
    let mut i: usize = stack.len();
    assert(frames.take(i as int) =~= frames);
    while i > 0
        invariant
            i <= stack.len(),
            frames == frames_view(stack@),
            r@.map_values(|id: ObjectId| id@) + chain(frames.take(i as int)) == chain(frames),
        decreases i,
    {
        let ghost part = frames.take(i as int);
        let ghost ids = r@.map_values(|id: ObjectId| id@);
        i -= 1;
        assert(part.drop_last() =~= frames.take(i as int));
        assert(part.last() == stack@[i as int]@);
        if stack[i].open {
            r.push(stack[i].id.clone());
            assert(r@.map_values(|id: ObjectId| id@) =~= ids + seq![part.last().id]);
            assert(r@.map_values(|id: ObjectId| id@) + chain(frames.take(i as int)) =~= ids
                + chain(part));
        }
    }
    assert(r@.map_values(|id: ObjectId| id@) + Seq::<Seq<char>>::empty() =~= r@.map_values(
        |id: ObjectId| id@,
    ));
    r
}

} // verus!
