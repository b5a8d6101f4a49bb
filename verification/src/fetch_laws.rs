//! What holds of every fetch that runs against stores that answer truly.

use vstd::prelude::*;
use vstd::set::axiom_set_remove_len;
use vstd::set_lib::lemma_len_subset;
use crate::exchange::{ReplyView, RequestView};
use crate::fetch::{lemma_fetch_advance_wf, lemma_settle, settle, FetchStageView, FetchView};
use crate::model::{
    lemma_closed_holds_reached, lemma_same_objects, stores_after, Object, Stores, Turn,
};
use crate::object::Kind;
use crate::walk::{children, frame_of, pending, FrameView, LinkView};

verus! {

/// The fetch after the replies of `turns`.
pub open spec fn fetch_after(f: FetchView, turns: Seq<Turn>) -> FetchView
    decreases turns.len(),
{
    if turns.len() == 0 {
        f
    } else {
        fetch_after(f.advance(turns[0].reply), turns.drop_first())
    }
}

/// Whether `turns` is a run of the fetch `f` against `stores`: each reply
/// answers the request that is pending when it comes.
pub open spec fn fetch_run(f: FetchView, stores: Stores, turns: Seq<Turn>) -> bool
    decreases turns.len(),
{
    turns.len() == 0 || (stores.answers(f.request(), turns[0].reply, turns[0].after) && fetch_run(
        f.advance(turns[0].reply),
        turns[0].after,
        turns.drop_first(),
    ))
}

/// Whether the worklist holds a frame that is still to be visited for the
/// object `id`, with the kind that the object has.
pub open spec fn awaits(stores: Stores, stack: Seq<FrameView>, id: Seq<char>) -> bool {
    exists|i: int|
        0 <= i < stack.len() && !(#[trigger] stack[i]).open && stack[i].id == id && stack[i].kind
            == stores.objects[id].kind
}

/// What holds at every point of a fetch of `root` that has not failed:
/// the root, and whatever an object in the local database refers to, is in
/// the local database or still on the worklist; and the object that is
/// being got or stored is one that the local database lacks.
pub open spec fn fetch_inv(f: FetchView, stores: Stores, root: Seq<char>) -> bool {
    &&& f.wf()
    &&& stores.coherent()
    &&& stores.well_kinded()
    &&& !(f.stage is Failed) ==> {
        &&& stores.objects.dom().contains(root) ==> stores.local.contains(root) || awaits(
            stores,
            f.stack,
            root,
        )
        &&& forall|from: Seq<char>, to: Seq<char>|
            stores.local.contains(from) && #[trigger] stores.refers(from, to)
                ==> stores.local.contains(to) || awaits(stores, f.stack, to)
        &&& f.stage is Getting || f.stage is Writing ==> !stores.local.contains(f.stack.last().id)
        &&& f.stage matches FetchStageView::Writing { data } ==> {
            &&& stores.remote.dom().contains(f.stack.last().id)
            &&& data == stores.remote[f.stack.last().id]
        }
    }
}

/// Settling keeps every frame that is still to be visited where it is.
pub proof fn lemma_settle_keeps(stack: Seq<FrameView>, i: int)
    requires
        0 <= i < stack.len(),
        !stack[i].open,
    ensures
        i < settle(stack).len(),
        settle(stack)[i] == stack[i],
    decreases stack.len(),
{
    if stack.last().open {
        lemma_settle_keeps(stack.drop_last(), i);
    }
}

proof fn lemma_awaits_below(stores: Stores, stack: Seq<FrameView>, id: Seq<char>, i: int)
    requires
        0 <= i < stack.len() - 1,
        !stack[i].open,
        stack[i].id == id,
        stack[i].kind == stores.objects[id].kind,
    ensures
        awaits(stores, settle(stack.drop_last()), id),
{
    lemma_settle_keeps(stack.drop_last(), i);
    assert(settle(stack.drop_last())[i] == stack[i]);
}

proof fn lemma_awaits_entered(
    stores: Stores,
    f: FetchView,
    links: Seq<LinkView>,
    id: Seq<char>,
    i: int,
)
    requires
        f.stack.len() > 0,
        0 <= i < f.entered(links).len(),
        i != f.stack.len() - 1,
        !f.entered(links)[i].open,
        f.entered(links)[i].id == id,
        f.entered(links)[i].kind == stores.objects[id].kind,
    ensures
        awaits(stores, settle(f.entered(links)), id),
{
    lemma_settle_keeps(f.entered(links), i);
    assert(settle(f.entered(links))[i] == f.entered(links)[i]);
}

/// One exchange keeps what holds of a fetch.
pub proof fn lemma_fetch_step(
    f: FetchView,
    stores: Stores,
    root: Seq<char>,
    reply: ReplyView,
    after: Stores,
)
    requires
        fetch_inv(f, stores, root),
        stores.answers(f.request(), reply, after),
    ensures
        fetch_inv(f.advance(reply), after, root),
        after.objects == stores.objects,
        after.remote == stores.remote,
{
    lemma_fetch_advance_wf(f, reply);
    let g = f.advance(reply);
    let top = f.stack.last();
    let n = f.stack.len() as int;
    if g.stage is Failed || f.stage is Failed || f.stage is Done {
        if f.stage is Done {
            assert(after == stores);
        }
        lemma_same_objects(stores, after);
        assert(after.coherent());
    } else {
        match f.stage {
            FetchStageView::Finding => {
                assert(after == stores);
                if g.stage is Getting {
                } else {
                    assert(stores.local.contains(top.id));
                    assert(g.stack == settle(f.stack.drop_last()));
                    if stores.objects.dom().contains(root) && !stores.local.contains(root) {
                        let i = choose|i: int|
                            0 <= i < f.stack.len() && !(#[trigger] f.stack[i]).open && f.stack[i].id
                                == root && f.stack[i].kind == stores.objects[root].kind;
                        lemma_awaits_below(stores, f.stack, root, i);
                    }
                    assert forall|from: Seq<char>, to: Seq<char>|
                        stores.local.contains(from) && #[trigger] stores.refers(
                            from,
                            to,
                        ) implies stores.local.contains(to) || awaits(stores, g.stack, to) by {
                        if !stores.local.contains(to) {
                            let i = choose|i: int|
                                0 <= i < f.stack.len() && !(#[trigger] f.stack[i]).open
                                    && f.stack[i].id == to && f.stack[i].kind
                                    == stores.objects[to].kind;
                            lemma_awaits_below(stores, f.stack, to, i);
                        }
                    }
                }
            },
            FetchStageView::Getting => {
                assert(after == stores);
            },
            FetchStageView::Writing { data } => {
                let links = children(top.kind, data)->Some_0;
                let entered = f.entered(links);
                assert(g.stack == settle(entered));
                assert(after.local == stores.local.union(stores.named(top.kind, data)));
                lemma_same_objects(stores, after);
                // The object in hand is now held under its id.
                assert(stores.objects.dom().contains(top.id) && top.kind
                    == stores.objects[top.id].kind ==> after.local.contains(top.id)) by {
                    if stores.objects.dom().contains(top.id) && top.kind
                        == stores.objects[top.id].kind {
                        assert(stores.objects[top.id] =~= (Object { kind: top.kind, data }));
                        assert(stores.named(top.kind, data).contains(top.id));
                    }
                }
                // What was awaited before is held now or is awaited still.
                assert forall|x: Seq<char>|
                    stores.objects.dom().contains(x) && awaits(
                        stores,
                        f.stack,
                        x,
                    ) implies after.local.contains(x) || awaits(after, g.stack, x) by {
                    let i = choose|i: int|
                        0 <= i < f.stack.len() && !(#[trigger] f.stack[i]).open && f.stack[i].id
                            == x && f.stack[i].kind == stores.objects[x].kind;
                    if i < n - 1 {
                        assert(entered[i] == f.stack[i]);
                        lemma_awaits_entered(after, f, links, x, i);
                    }
                }
                assert forall|from: Seq<char>, to: Seq<char>|
                    after.local.contains(from) && #[trigger] after.refers(
                        from,
                        to,
                    ) implies after.local.contains(to) || awaits(after, g.stack, to) by {
                    assert(stores.refers(from, to));
                    if stores.local.contains(from) {
                        if !stores.local.contains(to) {
                            assert(awaits(stores, f.stack, to));
                        }
                    } else {
                        assert(stores.named(top.kind, data).contains(from));
                        assert(stores.links(from) == links);
                        let j = choose|j: int|
                            0 <= j < stores.links(from).len() && #[trigger] stores.links(from)[j].id
                                == to;
                        assert(stores.objects.dom().contains(stores.links(from)[j].id));
                        assert(stores.objects[to].kind == links[j].kind);
                        let k = n + (links.len() - 1 - j);
                        assert(entered[k] == pending(links)[links.len() - 1 - j]);
                        assert(entered[k] == frame_of(links[j]));
                        lemma_awaits_entered(after, f, links, to, k);
                    }
                }
            },
            _ => {},
        }
    }
}

/// A run keeps what holds of a fetch, and leaves the objects and the
/// bucket as they are.
pub proof fn lemma_fetch_run(f: FetchView, stores: Stores, root: Seq<char>, turns: Seq<Turn>)
    requires
        fetch_inv(f, stores, root),
        fetch_run(f, stores, turns),
    ensures
        fetch_inv(fetch_after(f, turns), stores_after(stores, turns), root),
        stores_after(stores, turns).objects == stores.objects,
        stores_after(stores, turns).remote == stores.remote,
    decreases turns.len(),
{
    if turns.len() > 0 {
        lemma_fetch_step(f, stores, root, turns[0].reply, turns[0].after);
        let rest = turns.drop_first();
        lemma_fetch_run(f.advance(turns[0].reply), turns[0].after, root, rest);
        if rest.len() > 0 {
            assert(rest.last() == turns.last());
        }
    }
}

/// Fetch completeness: when a fetch of the commit `root` ends well, the
/// local database holds the root and every object that the root reaches.
/// The stores hold true copies of well-kinded objects, and the local
/// database lacked nothing that its objects refer to when the fetch began.
pub proof fn law_fetch_complete(
    stores: Stores,
    root: Seq<char>,
    turns: Seq<Turn>,
    id: Seq<char>,
)
    requires
        stores.coherent(),
        stores.well_kinded(),
        stores.local_closed(),
        stores.objects.dom().contains(root) ==> stores.objects[root].kind == Kind::Commit,
        fetch_run(FetchView::start(root), stores, turns),
        fetch_after(FetchView::start(root), turns).stage is Done,
        stores.reaches(root, id),
    ensures
        stores_after(stores, turns).local.contains(id),
        stores_after(stores, turns).local_closed(),
{
    let start = FetchView::start(root);
    assert(fetch_inv(start, stores, root)) by {
        assert(start.stack[0].id == root);
    }
    lemma_fetch_run(start, stores, root, turns);
    let end = stores_after(stores, turns);
    let done = fetch_after(start, turns);
    assert(done.stack.len() == 0);
    lemma_same_objects(stores, end);
    let path = choose|path: Seq<Seq<char>>| #[trigger]
        stores.is_path(path) && path[0] == root && path.last() == id;
    assert(end.local_closed());
    lemma_closed_holds_reached(end, end.local, root, path);
}

/// A fetch gets from the bucket, and stores, only what the local database
/// lacks: an object that it holds is not transferred again.
pub proof fn law_fetch_transfers_missing(stores: Stores, root: Seq<char>, turns: Seq<Turn>)
    requires
        stores.coherent(),
        stores.well_kinded(),
        stores.local_closed(),
        stores.objects.dom().contains(root) ==> stores.objects[root].kind == Kind::Commit,
        fetch_run(FetchView::start(root), stores, turns),
    ensures
        fetch_after(FetchView::start(root), turns).request() matches RequestView::Get { key }
            ==> !stores_after(stores, turns).local.contains(key),
        fetch_after(FetchView::start(root), turns).request() is WriteObject ==> !stores_after(
            stores,
            turns,
        ).local.contains(fetch_after(FetchView::start(root), turns).stack.last().id),
{
    let start = FetchView::start(root);
    assert(fetch_inv(start, stores, root)) by {
        assert(start.stack[0].id == root);
    }
    lemma_fetch_run(start, stores, root, turns);
}

/// Whether `turns` is a run of the fetch `f` against `stores` in which
/// every call goes well.
pub open spec fn fetch_smooth_run(f: FetchView, stores: Stores, turns: Seq<Turn>) -> bool
    decreases turns.len(),
{
    turns.len() == 0 || (stores.answers(f.request(), turns[0].reply, turns[0].after)
        && stores.prompt(f.request(), turns[0].reply) && fetch_smooth_run(
        f.advance(turns[0].reply),
        turns[0].after,
        turns.drop_first(),
    ))
}

/// What holds of a fetch that cannot fail: the stores hold between them
/// every object there is, each of which decodes, and each frame that is
/// still to be visited is for an object, with the kind of that object.
pub open spec fn fetch_safe(f: FetchView, stores: Stores) -> bool {
    &&& f.wf()
    &&& !(f.stage is Failed)
    &&& stores.coherent()
    &&& stores.well_kinded()
    &&& stores.whole()
    &&& forall|id: Seq<char>| #[trigger]
        stores.objects.dom().contains(id) ==> stores.local.contains(id)
            || stores.remote.dom().contains(id)
    &&& forall|i: int|
        0 <= i < f.stack.len() && !(#[trigger] f.stack[i]).open ==> stores.objects.dom().contains(
            f.stack[i].id,
        ) && f.stack[i].kind == stores.objects[f.stack[i].id].kind
    &&& f.stage is Getting || f.stage is Writing ==> !stores.local.contains(f.stack.last().id)
    &&& f.stage matches FetchStageView::Writing { data } ==> data
        == stores.objects[f.stack.last().id].data
}

/// Settling leaves what it keeps where it is.
pub proof fn lemma_settle_prefix(stack: Seq<FrameView>, i: int)
    requires
        0 <= i < settle(stack).len(),
    ensures
        i < stack.len(),
        settle(stack)[i] == stack[i],
    decreases stack.len(),
{
    if stack.len() > 0 && stack.last().open {
        lemma_settle_prefix(stack.drop_last(), i);
    }
}

/// One exchange that goes well keeps a fetch from failing.
pub proof fn lemma_fetch_safe_step(f: FetchView, stores: Stores, reply: ReplyView, after: Stores)
    requires
        fetch_safe(f, stores),
        stores.answers(f.request(), reply, after),
        stores.prompt(f.request(), reply),
    ensures
        fetch_safe(f.advance(reply), after),
{
    lemma_fetch_advance_wf(f, reply);
    let g = f.advance(reply);
    let top = f.stack.last();
    let n = f.stack.len() as int;
    match f.stage {
        FetchStageView::Finding => {
            assert(after == stores);
            if !(g.stage is Getting) {
                assert forall|i: int|
                    0 <= i < g.stack.len() && !(#[trigger] g.stack[i]).open implies {
                    &&& stores.objects.dom().contains(g.stack[i].id)
                    &&& g.stack[i].kind == stores.objects[g.stack[i].id].kind
                } by {
                    lemma_settle_prefix(f.stack.drop_last(), i);
                    assert(f.stack.drop_last()[i] == f.stack[i]);
                }
            }
        },
        FetchStageView::Getting => {
            assert(after == stores);
            assert(stores.objects.dom().contains(top.id)) by {
                assert(!f.stack[n - 1].open);
            }
            assert(stores.remote.dom().contains(top.id));
        },
        FetchStageView::Writing { data } => {
            assert(stores.objects.dom().contains(top.id) && top.kind
                == stores.objects[top.id].kind) by {
                assert(!f.stack[n - 1].open);
            }
            let links = children(top.kind, data)->Some_0;
            assert(stores.links(top.id) == links);
            let entered = f.entered(links);
            lemma_same_objects(stores, after);
            assert forall|i: int| 0 <= i < g.stack.len() && !(#[trigger] g.stack[i]).open implies
                after.objects.dom().contains(g.stack[i].id) && g.stack[i].kind
                == after.objects[g.stack[i].id].kind by {
                lemma_settle_prefix(entered, i);
                if i < n - 1 {
                    assert(entered[i] == f.stack[i]);
                } else if i >= n {
                    let k = links.len() - 1 - (i - n);
                    assert(entered[i] == pending(links)[i - n]);
                    assert(entered[i] == frame_of(links[k]));
                    assert(stores.objects.dom().contains(stores.links(top.id)[k].id));
                }
            }
        },
        _ => {},
    }
}

/// A run in which every call goes well keeps a fetch from failing.
pub proof fn lemma_fetch_safe_run(f: FetchView, stores: Stores, turns: Seq<Turn>)
    requires
        fetch_safe(f, stores),
        fetch_smooth_run(f, stores, turns),
    ensures
        fetch_safe(fetch_after(f, turns), stores_after(stores, turns)),
    decreases turns.len(),
{
    if turns.len() > 0 {
        lemma_fetch_safe_step(f, stores, turns[0].reply, turns[0].after);
        let rest = turns.drop_first();
        lemma_fetch_safe_run(f.advance(turns[0].reply), turns[0].after, rest);
        if rest.len() > 0 {
            assert(rest.last() == turns.last());
        }
    }
}

/// A fetch does not fail of itself: where the stores hold between them
/// every object there is, each of which decodes, the fetch of a commit
/// fails only when a call fails.
pub proof fn law_fetch_succeeds(stores: Stores, root: Seq<char>, turns: Seq<Turn>)
    requires
        stores.coherent(),
        stores.well_kinded(),
        stores.whole(),
        forall|id: Seq<char>| #[trigger]
            stores.objects.dom().contains(id) ==> stores.local.contains(id)
                || stores.remote.dom().contains(id),
        stores.objects.dom().contains(root),
        stores.objects[root].kind == Kind::Commit,
        fetch_smooth_run(FetchView::start(root), stores, turns),
    ensures
        !(fetch_after(FetchView::start(root), turns).stage is Failed),
{
    let start = FetchView::start(root);
    assert(fetch_safe(start, stores)) by {
        assert(start.stack[0].id == root);
    }
    lemma_fetch_safe_run(start, stores, turns);
}

/// The objects that the local database lacks.
pub open spec fn missing(stores: Stores) -> Set<Seq<char>> {
    stores.objects.dom().difference(stores.local)
}

/// How much a fetch has left to do with its worklist as it is: three
/// exchanges at most for each frame, less those that the frame on top has
/// had.
pub open spec fn fetch_weight(f: FetchView) -> nat {
    3 * f.stack.len() + match f.stage {
        FetchStageView::Finding => 2nat,
        FetchStageView::Getting => 1nat,
        _ => 0nat,
    }
}

/// A fetch comes to its end: with every exchange that goes well, either
/// the local database lacks fewer objects than before, or it lacks as many
/// and the fetch has less left to do with its worklist. There are finitely
/// many objects, so this cannot go on for ever.
pub proof fn law_fetch_progress(f: FetchView, stores: Stores, reply: ReplyView, after: Stores)
    requires
        fetch_safe(f, stores),
        stores.objects.dom().finite(),
        f.busy(),
        stores.answers(f.request(), reply, after),
        stores.prompt(f.request(), reply),
    ensures
        missing(stores).finite(),
        missing(after).finite(),
        missing(after).len() < missing(stores).len() || (missing(after).len() == missing(
            stores,
        ).len() && fetch_weight(f.advance(reply)) < fetch_weight(f)),
{
    lemma_fetch_safe_step(f, stores, reply, after);
    let top = f.stack.last();
    match f.stage {
        FetchStageView::Finding => {
            assert(after == stores);
            lemma_settle(f.stack.drop_last());
        },
        FetchStageView::Getting => {
            assert(after == stores);
        },
        FetchStageView::Writing { data } => {
            assert(!f.stack[f.stack.len() - 1].open);
            assert(stores.objects[top.id] =~= (Object { kind: top.kind, data }));
            assert(stores.named(top.kind, data).contains(top.id));
            assert(missing(stores).contains(top.id));
            assert(missing(after).subset_of(missing(stores).remove(top.id)));
            axiom_set_remove_len(missing(stores), top.id);
            lemma_len_subset(missing(after), missing(stores).remove(top.id));
        },
        _ => {},
    }
}

/// Fetch idempotence: the fetch of a commit that the local database holds
/// asks for that commit there, and ends with the answer. It makes no call
/// to the bucket and changes nothing.
pub proof fn law_fetch_present(stores: Stores, root: Seq<char>, reply: ReplyView, after: Stores)
    requires
        stores.local.contains(root),
        stores.answers(FetchView::start(root).request(), reply, after),
    ensures
        FetchView::start(root).request() == (RequestView::FindObject { id: root }),
        !FetchView::start(root).advance(reply).busy(),
        FetchView::start(root).advance(reply).request() is Stop,
        reply is Object ==> FetchView::start(root).advance(reply).stage is Done,
        after == stores,
{
    let start = FetchView::start(root);
    assert(start.stack.drop_last() =~= Seq::<FrameView>::empty());
}

/// A fetch that has come to its end stays as it is and asks for nothing.
pub proof fn law_fetch_end(f: FetchView, reply: ReplyView)
    requires
        !f.busy(),
    ensures
        f.request() is Stop,
        f.advance(reply) == f,
{
}

} // verus!
