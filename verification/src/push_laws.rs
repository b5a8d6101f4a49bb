//! What holds of every push that runs against stores that answer truly.

use vstd::prelude::*;
use vstd::set_lib::lemma_len_subset;
use vstd::set::axiom_set_remove_len;
use vstd::utf8::{decode_utf8, encode_utf8, valid_utf8};
use crate::error::{ErrorView, FailureView};
use crate::exchange::{ReplyView, RequestView, STATUS_OK};
use crate::model::{
    lemma_closed_holds_reached, lemma_descends_refers, lemma_refers_descends, lemma_same_objects,
    stores_after, Stores, Turn,
};
use crate::object::is_object_id;
use crate::push::{lemma_push_advance_wf, PushStageView, PushView};
use crate::text::trimmed;
use crate::walk::{chain, children, frame_of, pending, FrameView};

verus! {

/// The push after the replies of `turns`.
pub open spec fn push_after(p: PushView, turns: Seq<Turn>) -> PushView
    decreases turns.len(),
{
    if turns.len() == 0 {
        p
    } else {
        push_after(p.advance(turns[0].reply), turns.drop_first())
    }
}

/// Whether `turns` is a run of the push `p` against `stores`: each reply
/// answers the request that is pending when it comes.
pub open spec fn push_run(p: PushView, stores: Stores, turns: Seq<Turn>) -> bool
    decreases turns.len(),
{
    turns.len() == 0 || (stores.answers(p.request(), turns[0].reply, turns[0].after) && push_run(
        p.advance(turns[0].reply),
        turns[0].after,
        turns.drop_first(),
    ))
}

/// Whether a frame above position `i` of the worklist is for the object
/// `id`.
pub open spec fn above(stack: Seq<FrameView>, i: int, id: Seq<char>) -> bool {
    exists|j: int| i < j < stack.len() && (#[trigger] stack[j]).id == id
}

/// What holds of the worklist of a push: each frame expects the kind that
/// its object has, and an open frame keeps the bytes of its object, each
/// part of which is in the bucket or lies above the frame.
pub open spec fn stack_inv(stack: Seq<FrameView>, stores: Stores) -> bool {
    forall|i: int|
        0 <= i < stack.len() && stores.objects.dom().contains((#[trigger] stack[i]).id) ==> {
            &&& stack[i].kind == stores.objects[stack[i].id].kind
            &&& stack[i].open ==> {
                &&& stack[i].data == stores.objects[stack[i].id].data
                &&& forall|to: Seq<char>| #[trigger]
                    stores.refers(stack[i].id, to) ==> stores.remote.dom().contains(to) || above(
                        stack,
                        i,
                        to,
                    )
            }
        }
}

/// What holds at every point of a push: the stores hold true copies of
/// well-kinded objects, the bucket lacks nothing that an object in it
/// refers to, and the remote ref is not the key of an object.
pub open spec fn push_inv(p: PushView, stores: Stores) -> bool {
    &&& p.wf()
    &&& stores.coherent()
    &&& stores.well_kinded()
    &&& stores.remote_closed()
    &&& !stores.objects.dom().contains(p.dst)
    &&& stack_inv(p.stack, stores)
}

/// Taking the top frame off keeps what holds of the worklist, once the
/// bucket holds the object of that frame.
proof fn lemma_drop_top(stack: Seq<FrameView>, stores: Stores, after: Stores)
    requires
        stack.len() > 0,
        stack_inv(stack, stores),
        after.objects == stores.objects,
        stores.well_kinded(),
        forall|key: Seq<char>|
            stores.remote.dom().contains(key) ==> after.remote.dom().contains(key),
        stores.objects.dom().contains(stack.last().id) ==> after.remote.dom().contains(
            stack.last().id,
        ),
    ensures
        stack_inv(stack.drop_last(), after),
{
    lemma_same_objects(stores, after);
    let rest = stack.drop_last();
    assert forall|i: int|
        0 <= i < rest.len() && after.objects.dom().contains((#[trigger] rest[i]).id) implies {
        &&& rest[i].kind == after.objects[rest[i].id].kind
        &&& rest[i].open ==> {
            &&& rest[i].data == after.objects[rest[i].id].data
            &&& forall|to: Seq<char>| #[trigger]
                after.refers(rest[i].id, to) ==> after.remote.dom().contains(to) || above(
                    rest,
                    i,
                    to,
                )
        }
    } by {
        assert(rest[i] == stack[i]);
        if rest[i].open {
            assert forall|to: Seq<char>| #[trigger] after.refers(rest[i].id, to) implies (
            after.remote.dom().contains(to) || above(rest, i, to)) by {
                assert(stores.refers(stack[i].id, to));
                if !stores.remote.dom().contains(to) {
                    let j = choose|j: int| i < j < stack.len() && (#[trigger] stack[j]).id == to;
                    if j < rest.len() {
                        assert(rest[j].id == to);
                    }
                }
            }
        }
    }
}

/// One exchange keeps what holds of a push.
pub proof fn lemma_push_step(p: PushView, stores: Stores, reply: ReplyView, after: Stores)
    requires
        push_inv(p, stores),
        stores.answers(p.request(), reply, after),
    ensures
        push_inv(p.advance(reply), after),
        after.objects == stores.objects,
        after.local == stores.local,
{
    lemma_push_advance_wf(p, reply);
    let q = p.advance(reply);
    let top = p.stack.last();
    let n = p.stack.len() as int;
    assert(q.dst == p.dst);
    assert(stack_inv(Seq::<FrameView>::empty(), after));
    match p.stage {
        PushStageView::ReadingRef => {
            assert(after == stores);
            if q.stage is Checking {
                assert(q.stack.len() == 1);
            }
        },
        PushStageView::Checking => {
            assert(after == stores);
            if q.stage is Loading {
            } else if !(q.stage is Failed) {
                lemma_drop_top(p.stack, stores, after);
            }
        },
        PushStageView::Loading => {
            assert(after == stores);
            if let ReplyView::Object { data: Some(data) } = reply {
                if let Some(links) = children(top.kind, data) {
                    let entered = p.entered(data, links);
                    assert(q.stack == entered);
                    assert(stores.local.contains(top.id));
                    assert(stores.objects.dom().contains(top.id));
                    assert(stores.links(top.id) == links);
                    assert forall|i: int|
                        0 <= i < entered.len() && stores.objects.dom().contains(
                            (#[trigger] entered[i]).id,
                        ) implies {
                        &&& entered[i].kind == stores.objects[entered[i].id].kind
                        &&& entered[i].open ==> {
                            &&& entered[i].data == stores.objects[entered[i].id].data
                            &&& forall|to: Seq<char>| #[trigger]
                                stores.refers(entered[i].id, to) ==> stores.remote.dom().contains(
                                    to,
                                ) || above(entered, i, to)
                        }
                    } by {
                        if i < n - 1 {
                            assert(entered[i] == p.stack[i]);
                            if entered[i].open {
                                assert forall|to: Seq<char>| #[trigger]
                                    stores.refers(entered[i].id, to) implies (
                                stores.remote.dom().contains(to) || above(entered, i, to)) by {
                                    if !stores.remote.dom().contains(to) {
                                        let j = choose|j: int|
                                            i < j < p.stack.len() && (#[trigger] p.stack[j]).id
                                                == to;
                                        assert(entered[j].id == to);
                                    }
                                }
                            }
                        } else if i == n - 1 {
                            assert(entered[i].id == top.id);
                            assert forall|to: Seq<char>| #[trigger]
                                stores.refers(entered[i].id, to) implies (
                            stores.remote.dom().contains(to) || above(entered, i, to)) by {
                                let k = choose|k: int|
                                    0 <= k < stores.links(top.id).len() && #[trigger] stores.links(
                                        top.id,
                                    )[k].id == to;
                                let j = n + (links.len() - 1 - k);
                                assert(entered[j] == pending(links)[links.len() - 1 - k]);
                                assert(entered[j].id == to);
                            }
                        } else {
                            let k = links.len() - 1 - (i - n);
                            assert(entered[i] == pending(links)[i - n]);
                            assert(entered[i] == frame_of(links[k]));
                            assert(stores.objects.dom().contains(stores.links(top.id)[k].id));
                        }
                    }
                }
            }
        },
        PushStageView::Storing => {
            lemma_same_objects(stores, after);
            if q.stage is Failed {
                assert(after.remote == stores.remote);
                assert(after =~= stores);
            } else {
                assert(after.remote == stores.remote.insert(top.id, top.data));
                assert(after.coherent());
                assert(after.remote_closed()) by {
                    assert forall|from: Seq<char>, to: Seq<char>|
                        after.remote.dom().contains(from) && #[trigger] after.refers(
                            from,
                            to,
                        ) implies after.remote.dom().contains(to) by {
                        assert(stores.refers(from, to));
                        if from == top.id {
                            assert(p.stack[n - 1].id == from);
                            assert(!above(p.stack, n - 1, to));
                        }
                    }
                }
                lemma_drop_top(p.stack, stores, after);
            }
        },
        PushStageView::ReadingRemoteRef => {
            assert(after == stores);
        },
        PushStageView::Asking { old } => {
            assert(after == stores);
        },
        PushStageView::WritingRef => {
            lemma_same_objects(stores, after);
            if q.stage is Failed {
                assert(after =~= stores);
            } else {
                assert(after.remote == stores.remote.insert(p.dst, encode_utf8(p.tip->Some_0)));
                assert(after.remote_closed()) by {
                    assert forall|from: Seq<char>, to: Seq<char>|
                        after.remote.dom().contains(from) && #[trigger] after.refers(
                            from,
                            to,
                        ) implies after.remote.dom().contains(to) by {
                        assert(stores.refers(from, to));
                    }
                }
            }
        },
        PushStageView::Done => {
            assert(after =~= stores);
        },
        PushStageView::Failed { .. } => {
            assert(after =~= stores);
        },
    }
}

/// A run keeps what holds of a push.
pub proof fn lemma_push_run(p: PushView, stores: Stores, turns: Seq<Turn>)
    requires
        push_inv(p, stores),
        push_run(p, stores, turns),
    ensures
        push_inv(push_after(p, turns), stores_after(stores, turns)),
    decreases turns.len(),
{
    if turns.len() > 0 {
        lemma_push_step(p, stores, turns[0].reply, turns[0].after);
        let rest = turns.drop_first();
        lemma_push_run(p.advance(turns[0].reply), turns[0].after, rest);
        if rest.len() > 0 {
            assert(rest.last() == turns.last());
        }
    }
}

/// What comes first in a run is a run.
pub proof fn lemma_push_run_prefix(p: PushView, stores: Stores, turns: Seq<Turn>, n: int)
    requires
        push_run(p, stores, turns),
        0 <= n <= turns.len(),
    ensures
        push_run(p, stores, turns.take(n)),
    decreases n,
{
    if n > 0 {
        lemma_push_run_prefix(
            p.advance(turns[0].reply),
            turns[0].after,
            turns.drop_first(),
            n - 1,
        );
        assert(turns.take(n).drop_first() =~= turns.drop_first().take(n - 1));
    }
}

/// Push ordering: at every point of a push, the bucket lacks nothing that
/// an object in it refers to. It was so when the push began, the stores
/// hold true copies of well-kinded objects, and the remote ref is not the
/// key of an object.
pub proof fn law_push_ordering(
    src: Seq<char>,
    dst: Seq<char>,
    force: bool,
    stores: Stores,
    turns: Seq<Turn>,
    n: int,
)
    requires
        stores.coherent(),
        stores.well_kinded(),
        stores.remote_closed(),
        !stores.objects.dom().contains(dst),
        push_run(PushView::start(src, dst, force), stores, turns),
        0 <= n <= turns.len(),
    ensures
        stores_after(stores, turns.take(n)).remote_closed(),
        stores_after(stores, turns.take(n)).coherent(),
{
    let start = PushView::start(src, dst, force);
    lemma_push_run_prefix(start, stores, turns, n);
    lemma_push_run(start, stores, turns.take(n));
}

/// What a push has reached: while objects are uploaded the pushed commit
/// lies at the bottom of the worklist; afterwards the bucket holds it; and
/// at the end the bucket holds the id of the commit under the remote ref.
pub open spec fn push_goal(p: PushView, stores: Stores) -> bool {
    &&& p.uploading() ==> p.stack[0].id == p.tip->Some_0
    &&& (p.on_ref() || p.stage is Done) && stores.objects.dom().contains(p.tip->Some_0)
        ==> stores.remote.dom().contains(p.tip->Some_0)
    &&& p.stage is Done ==> stores.remote.dom().contains(p.dst) && stores.remote[p.dst]
        == encode_utf8(p.tip->Some_0)
}

/// One exchange keeps what a push has reached.
pub proof fn lemma_push_goal_step(p: PushView, stores: Stores, reply: ReplyView, after: Stores)
    requires
        push_inv(p, stores),
        push_goal(p, stores),
        stores.answers(p.request(), reply, after),
    ensures
        push_goal(p.advance(reply), after),
        p.tip is Some ==> p.advance(reply).tip == p.tip,
{
    lemma_push_step(p, stores, reply, after);
    let q = p.advance(reply);
    match p.stage {
        PushStageView::Loading => {
            if let ReplyView::Object { data: Some(data) } = reply {
                if let Some(links) = children(p.stack.last().kind, data) {
                    assert(p.entered(data, links)[0].id == p.stack[0].id);
                }
            }
        },
        PushStageView::Checking => {
            if !(q.stage is Failed) && !(q.stage is Loading) {
                if p.stack.len() > 1 {
                    assert(p.stack.drop_last()[0] == p.stack[0]);
                }
            }
        },
        PushStageView::Storing => {
            if !(q.stage is Failed) {
                if p.stack.len() > 1 {
                    assert(p.stack.drop_last()[0] == p.stack[0]);
                }
            }
        },
        _ => {},
    }
}

/// A run keeps what holds of a push and what it has reached.
pub proof fn lemma_push_goal_run(p: PushView, stores: Stores, turns: Seq<Turn>)
    requires
        push_inv(p, stores),
        push_goal(p, stores),
        push_run(p, stores, turns),
    ensures
        push_inv(push_after(p, turns), stores_after(stores, turns)),
        push_goal(push_after(p, turns), stores_after(stores, turns)),
        stores_after(stores, turns).objects == stores.objects,
    decreases turns.len(),
{
    if turns.len() > 0 {
        lemma_push_step(p, stores, turns[0].reply, turns[0].after);
        lemma_push_goal_step(p, stores, turns[0].reply, turns[0].after);
        let rest = turns.drop_first();
        lemma_push_goal_run(p.advance(turns[0].reply), turns[0].after, rest);
        if rest.len() > 0 {
            assert(rest.last() == turns.last());
        }
    }
}

/// Push completeness: when a push ends well, the bucket holds the pushed
/// commit and every object that it reaches, and holds the id of that
/// commit under the remote ref.
pub proof fn law_push_complete(
    src: Seq<char>,
    dst: Seq<char>,
    force: bool,
    stores: Stores,
    turns: Seq<Turn>,
    id: Seq<char>,
)
    requires
        stores.coherent(),
        stores.well_kinded(),
        stores.remote_closed(),
        !stores.objects.dom().contains(dst),
        push_run(PushView::start(src, dst, force), stores, turns),
        push_after(PushView::start(src, dst, force), turns).stage is Done,
        stores.reaches(push_after(PushView::start(src, dst, force), turns).tip->Some_0, id),
    ensures
        stores_after(stores, turns).remote.dom().contains(id),
        stores_after(stores, turns).remote.dom().contains(dst),
        stores_after(stores, turns).remote[dst] == encode_utf8(
            push_after(PushView::start(src, dst, force), turns).tip->Some_0,
        ),
{
    let start = PushView::start(src, dst, force);
    lemma_push_goal_run(start, stores, turns);
    let end = stores_after(stores, turns);
    let done = push_after(start, turns);
    let tip = done.tip->Some_0;
    lemma_push_dst(start, turns);
    lemma_same_objects(stores, end);
    let path = choose|path: Seq<Seq<char>>| #[trigger]
        stores.is_path(path) && path[0] == tip && path.last() == id;
    lemma_closed_holds_reached(end, end.remote.dom(), tip, path);
}

/// A push keeps its refs and its force.
pub proof fn lemma_push_dst(p: PushView, turns: Seq<Turn>)
    ensures
        push_after(p, turns).dst == p.dst,
        push_after(p, turns).src == p.src,
        push_after(p, turns).force == p.force,
    decreases turns.len(),
{
    if turns.len() > 0 {
        lemma_push_dst(p.advance(turns[0].reply), turns.drop_first());
    }
}

/// An object is put into the bucket only once all that it refers to is
/// there.
pub proof fn law_push_puts_complete(
    src: Seq<char>,
    dst: Seq<char>,
    force: bool,
    stores: Stores,
    turns: Seq<Turn>,
    to: Seq<char>,
)
    requires
        stores.coherent(),
        stores.well_kinded(),
        stores.remote_closed(),
        !stores.objects.dom().contains(dst),
        push_run(PushView::start(src, dst, force), stores, turns),
        push_after(PushView::start(src, dst, force), turns).stage is Storing,
        stores.refers(push_after(PushView::start(src, dst, force), turns).stack.last().id, to),
    ensures
        stores_after(stores, turns).remote.dom().contains(to),
{
    let start = PushView::start(src, dst, force);
    lemma_push_run(start, stores, turns);
    let p = push_after(start, turns);
    let end = stores_after(stores, turns);
    lemma_push_objects(start, stores, turns);
    lemma_same_objects(stores, end);
    let i = p.stack.len() - 1;
    assert(end.refers(p.stack[i].id, to));
    assert(!above(p.stack, i, to));
}

/// A run leaves the objects and the local database as they are.
pub proof fn lemma_push_objects(p: PushView, stores: Stores, turns: Seq<Turn>)
    requires
        push_inv(p, stores),
        push_run(p, stores, turns),
    ensures
        stores_after(stores, turns).objects == stores.objects,
        stores_after(stores, turns).local == stores.local,
    decreases turns.len(),
{
    if turns.len() > 0 {
        lemma_push_step(p, stores, turns[0].reply, turns[0].after);
        let rest = turns.drop_first();
        lemma_push_objects(p.advance(turns[0].reply), turns[0].after, rest);
        if rest.len() > 0 {
            assert(rest.last() == turns.last());
        }
    }
}

/// Whether `turns` is a run of the push `p` against `stores` in which every
/// call goes well.
pub open spec fn push_smooth_run(p: PushView, stores: Stores, turns: Seq<Turn>) -> bool
    decreases turns.len(),
{
    turns.len() == 0 || (stores.answers(p.request(), turns[0].reply, turns[0].after)
        && stores.prompt(p.request(), turns[0].reply) && push_smooth_run(
        p.advance(turns[0].reply),
        turns[0].after,
        turns.drop_first(),
    ))
}

/// What holds of a push that cannot fail over an object: the local
/// database holds every object there is, each of which decodes, each frame
/// of the worklist is for an object, with the kind of that object, and the
/// push has failed, if at all, over the remote ref.
pub open spec fn push_safe(p: PushView, stores: Stores) -> bool {
    &&& p.wf()
    &&& stores.well_kinded()
    &&& stores.whole()
    &&& forall|id: Seq<char>| #[trigger]
        stores.objects.dom().contains(id) ==> stores.local.contains(id)
    &&& forall|i: int|
        0 <= i < p.stack.len() ==> stores.objects.dom().contains((#[trigger] p.stack[i]).id)
            && p.stack[i].kind == stores.objects[p.stack[i].id].kind
    &&& p.stage matches PushStageView::Failed { failure } ==> failure.error is NonFastForward
        || failure.error is InvalidRefValue
}

/// One exchange that goes well keeps a push from failing over an object.
pub proof fn lemma_push_safe_step(p: PushView, stores: Stores, reply: ReplyView, after: Stores)
    requires
        push_safe(p, stores),
        stores.answers(p.request(), reply, after),
        stores.prompt(p.request(), reply),
    ensures
        push_safe(p.advance(reply), after),
{
    lemma_push_advance_wf(p, reply);
    let q = p.advance(reply);
    let top = p.stack.last();
    let n = p.stack.len() as int;
    assert(after.objects == stores.objects && after.local == stores.local) by {
        if p.stage is Done || p.stage is Failed {
            assert(after == stores);
        }
    }
    lemma_same_objects(stores, after);
    match p.stage {
        PushStageView::ReadingRef => {
            if q.stage is Checking {
                assert(q.stack.len() == 1);
            }
        },
        PushStageView::Checking => {
            if !(q.stage is Loading) {
                assert forall|i: int| 0 <= i < q.stack.len() implies stores.objects.dom().contains(
                    (#[trigger] q.stack[i]).id,
                ) && q.stack[i].kind == stores.objects[q.stack[i].id].kind by {
                    assert(q.stack[i] == p.stack[i]);
                }
            }
        },
        PushStageView::Loading => {
            assert(stores.objects.dom().contains(p.stack[n - 1].id));
            assert(stores.local.contains(top.id));
            let data = reply->Object_data->Some_0;
            let links = children(top.kind, data)->Some_0;
            assert(stores.links(top.id) == links);
            let entered = p.entered(data, links);
            assert forall|i: int| 0 <= i < entered.len() implies stores.objects.dom().contains(
                (#[trigger] entered[i]).id,
            ) && entered[i].kind == stores.objects[entered[i].id].kind by {
                if i < n - 1 {
                    assert(entered[i] == p.stack[i]);
                } else if i >= n {
                    let k = links.len() - 1 - (i - n);
                    assert(entered[i] == pending(links)[i - n]);
                    assert(entered[i] == frame_of(links[k]));
                    assert(stores.objects.dom().contains(stores.links(top.id)[k].id));
                }
            }
        },
        PushStageView::Storing => {
            assert forall|i: int| 0 <= i < q.stack.len() implies stores.objects.dom().contains(
                (#[trigger] q.stack[i]).id,
            ) && q.stack[i].kind == stores.objects[q.stack[i].id].kind by {
                assert(q.stack[i] == p.stack[i]);
            }
        },
        _ => {},
    }
}

/// A run in which every call goes well keeps a push from failing over an
/// object.
pub proof fn lemma_push_safe_run(p: PushView, stores: Stores, turns: Seq<Turn>)
    requires
        push_safe(p, stores),
        push_smooth_run(p, stores, turns),
    ensures
        push_safe(push_after(p, turns), stores_after(stores, turns)),
    decreases turns.len(),
{
    if turns.len() > 0 {
        lemma_push_safe_step(p, stores, turns[0].reply, turns[0].after);
        let rest = turns.drop_first();
        lemma_push_safe_run(p.advance(turns[0].reply), turns[0].after, rest);
        if rest.len() > 0 {
            assert(rest.last() == turns.last());
        }
    }
}

/// A push does not fail of itself: where the local database holds every
/// object there is, each of which decodes, and every call goes well, a
/// push fails only over the remote ref: because the ref may not be moved,
/// or because its value is no text.
pub proof fn law_push_succeeds(
    src: Seq<char>,
    dst: Seq<char>,
    force: bool,
    stores: Stores,
    turns: Seq<Turn>,
)
    requires
        stores.well_kinded(),
        stores.whole(),
        forall|id: Seq<char>| #[trigger]
            stores.objects.dom().contains(id) ==> stores.local.contains(id),
        push_smooth_run(PushView::start(src, dst, force), stores, turns),
    ensures
        push_after(PushView::start(src, dst, force), turns).stage matches PushStageView::Failed {
            failure,
        } ==> failure.error is NonFastForward || failure.error is InvalidRefValue,
        force ==> !(push_after(
            PushView::start(src, dst, force),
            turns,
        ).stage matches PushStageView::Failed { failure } && failure.error is NonFastForward),
{
    let start = PushView::start(src, dst, force);
    lemma_push_safe_run(start, stores, turns);
    if force {
        lemma_push_forced(start, turns);
    }
}

/// A forced push never fails with `NonFastForward`.
pub proof fn lemma_push_forced(p: PushView, turns: Seq<Turn>)
    requires
        p.force,
        !(p.stage matches PushStageView::Failed { failure } && failure.error is NonFastForward),
    ensures
        !(push_after(p, turns).stage matches PushStageView::Failed { failure }
            && failure.error is NonFastForward),
    decreases turns.len(),
{
    if turns.len() > 0 {
        lemma_push_forced(p.advance(turns[0].reply), turns.drop_first());
    }
}

/// The ids of the open frames of a worklist.
pub open spec fn open_ids(stack: Seq<FrameView>) -> Set<Seq<char>> {
    Set::new(|id: Seq<char>| exists|i: int| 0 <= i < stack.len() && (#[trigger] stack[i]).open
        && stack[i].id == id)
}

/// The objects that a push has still to take up: those that the bucket
/// lacks and that are not open on the worklist.
pub open spec fn untouched(p: PushView, stores: Stores) -> Set<Seq<char>> {
    stores.objects.dom().difference(stores.remote.dom().union(open_ids(p.stack)))
}

/// How much a push has left to do with its worklist as it is.
pub open spec fn push_weight(p: PushView) -> nat {
    match p.stage {
        PushStageView::ReadingRef => 7nat,
        PushStageView::Checking => 4 * p.stack.len() + 2,
        PushStageView::Loading => 4 * p.stack.len() + 1,
        PushStageView::Storing => 4 * p.stack.len(),
        PushStageView::ReadingRemoteRef => 3nat,
        PushStageView::Asking { .. } => 2nat,
        PushStageView::WritingRef => 1nat,
        _ => 0nat,
    }
}

/// What lies above an open frame descends from the object of that frame,
/// and the object that is being loaded is one that the bucket lacks.
pub open spec fn push_order(p: PushView, stores: Stores) -> bool {
    &&& forall|i: int, j: int|
        0 <= i < j < p.stack.len() && (#[trigger] p.stack[i]).open ==> stores.descends(
            p.stack[i].id,
            (#[trigger] p.stack[j]).id,
        )
    &&& p.stage is Loading ==> !stores.remote.dom().contains(p.stack.last().id)
}

/// Stores with the same objects agree on what descends from what.
proof fn lemma_same_descent(stores: Stores, after: Stores)
    requires
        after.objects == stores.objects,
    ensures
        forall|a: Seq<char>, b: Seq<char>| after.descends(a, b) == stores.descends(a, b),
        stores.acyclic() ==> after.acyclic(),
{
    lemma_same_objects(stores, after);
    assert forall|a: Seq<char>, b: Seq<char>| after.descends(a, b) == stores.descends(a, b) by {
        if stores.descends(a, b) {
            let path = choose|path: Seq<Seq<char>>| #[trigger]
                stores.is_path(path) && path.len() >= 2 && path[0] == a && path.last() == b;
            assert(after.is_path(path));
        }
        if after.descends(a, b) {
            let path = choose|path: Seq<Seq<char>>| #[trigger]
                after.is_path(path) && path.len() >= 2 && path[0] == a && path.last() == b;
            assert(stores.is_path(path));
        }
    }
}

/// Taking up the object on top of the worklist leaves one object less to
/// take up, and keeps the worklist in order.
proof fn lemma_push_enters(p: PushView, stores: Stores, reply: ReplyView)
    requires
        push_safe(p, stores),
        push_order(p, stores),
        stores.acyclic(),
        stores.objects.dom().finite(),
        p.stage is Loading,
        stores.answers(p.request(), reply, stores),
        stores.prompt(p.request(), reply),
    ensures
        push_order(p.advance(reply), stores),
        untouched(p, stores).finite(),
        untouched(p.advance(reply), stores).finite(),
        untouched(p.advance(reply), stores).len() < untouched(p, stores).len(),
{
    lemma_push_safe_step(p, stores, reply, stores);
    let q = p.advance(reply);
    let top = p.stack.last();
    let n = p.stack.len() as int;
    let before = untouched(p, stores);
    let left = untouched(q, stores);
    let data = reply->Object_data->Some_0;
    assert(stores.objects.dom().contains(p.stack[n - 1].id));
    assert(stores.local.contains(top.id));
    let links = children(top.kind, data)->Some_0;
    assert(stores.links(top.id) == links);
    let entered = p.entered(data, links);
    assert(q.stack == entered);
    // The object in hand is not open further down.
    assert(!open_ids(p.stack).contains(top.id)) by {
        if open_ids(p.stack).contains(top.id) {
            let i = choose|i: int|
                0 <= i < p.stack.len() && (#[trigger] p.stack[i]).open && p.stack[i].id == top.id;
            assert(p.stack[n - 1].id == top.id);
            assert(stores.descends(p.stack[i].id, p.stack[n - 1].id));
        }
    }
    assert(before.contains(top.id));
    assert(open_ids(entered).contains(top.id)) by {
        assert(entered[n - 1].open && entered[n - 1].id == top.id);
    }
    assert(left.subset_of(before.remove(top.id))) by {
        assert forall|id: Seq<char>| left.contains(id) implies before.remove(top.id).contains(
            id,
        ) by {
            if open_ids(p.stack).contains(id) {
                let i = choose|i: int|
                    0 <= i < p.stack.len() && (#[trigger] p.stack[i]).open && p.stack[i].id == id;
                assert(entered[i].open && entered[i].id == id);
            }
        }
    }
    axiom_set_remove_len(before, top.id);
    lemma_len_subset(left, before.remove(top.id));
    // What lies above an open frame descends from it.
    assert forall|i: int, j: int|
        0 <= i < j < entered.len() && (#[trigger] entered[i]).open implies stores.descends(
        entered[i].id,
        (#[trigger] entered[j]).id,
    ) by {
        if j < n {
            assert(entered[i].id == p.stack[i].id && entered[i].open == p.stack[i].open);
            assert(entered[j].id == p.stack[j].id);
            assert(stores.descends(p.stack[i].id, p.stack[j].id));
        } else {
            let k = links.len() - 1 - (j - n);
            assert(entered[j] == pending(links)[j - n]);
            assert(entered[j] == frame_of(links[k]));
            assert(stores.objects.dom().contains(stores.links(top.id)[k].id));
            assert(stores.refers(top.id, entered[j].id));
            if i == n - 1 {
                lemma_refers_descends(stores, top.id, entered[j].id);
            } else if i < n - 1 {
                assert(entered[i] == p.stack[i]);
                assert(stores.descends(p.stack[i].id, p.stack[n - 1].id));
                lemma_descends_refers(stores, entered[i].id, top.id, entered[j].id);
            } else {
                assert(entered[i] == pending(links)[i - n]);
            }
        }
    }
}

/// A push comes to its end: with every exchange that goes well, either
/// fewer objects are left to take up than before, or no more and the push
/// has less left to do with its worklist. There are finitely many objects,
/// none of which is referred to by itself, so this cannot go on for ever.
pub proof fn law_push_progress(p: PushView, stores: Stores, reply: ReplyView, after: Stores)
    requires
        push_safe(p, stores),
        push_order(p, stores),
        stores.acyclic(),
        stores.objects.dom().finite(),
        !(p.stage is Done) && !(p.stage is Failed),
        stores.answers(p.request(), reply, after),
        stores.prompt(p.request(), reply),
    ensures
        push_safe(p.advance(reply), after),
        push_order(p.advance(reply), after),
        after.acyclic(),
        untouched(p, stores).finite(),
        untouched(p.advance(reply), after).finite(),
        untouched(p.advance(reply), after).len() < untouched(p, stores).len() || (untouched(
            p.advance(reply),
            after,
        ).len() <= untouched(p, stores).len() && push_weight(p.advance(reply)) < push_weight(p)),
{
    lemma_push_safe_step(p, stores, reply, after);
    lemma_push_advance_wf(p, reply);
    let q = p.advance(reply);
    let n = p.stack.len() as int;
    assert(after.objects == stores.objects) by {}
    lemma_same_descent(stores, after);
    if p.stage is Loading {
        assert(after == stores);
        lemma_push_enters(p, stores, reply);
    } else {
        let before = untouched(p, stores);
        let left = untouched(q, after);
        assert(left.subset_of(before)) by {
            assert forall|id: Seq<char>| left.contains(id) implies before.contains(id) by {
                if open_ids(p.stack).contains(id) {
                    let i = choose|i: int|
                        0 <= i < p.stack.len() && (#[trigger] p.stack[i]).open && p.stack[i].id
                            == id;
                    if i < q.stack.len() {
                        assert(q.stack[i] == p.stack[i]);
                    } else {
                        assert(p.stage is Storing);
                        assert(i == n - 1);
                        assert(after.remote.dom().contains(id));
                    }
                }
            }
        }
        lemma_len_subset(left, before);
        assert forall|i: int, j: int|
            0 <= i < j < q.stack.len() && (#[trigger] q.stack[i]).open implies after.descends(
            q.stack[i].id,
            (#[trigger] q.stack[j]).id,
        ) by {
            assert(q.stack[i] == p.stack[i]);
            assert(q.stack[j] == p.stack[j]);
            assert(stores.descends(p.stack[i].id, p.stack[j].id));
        }
    }
}

/// A push begins in order, whatever the stores hold.
pub proof fn law_push_begins_in_order(src: Seq<char>, dst: Seq<char>, force: bool, stores: Stores)
    requires
        stores.well_kinded(),
        stores.whole(),
        forall|id: Seq<char>| #[trigger]
            stores.objects.dom().contains(id) ==> stores.local.contains(id),
    ensures
        push_safe(PushView::start(src, dst, force), stores),
        push_order(PushView::start(src, dst, force), stores),
        push_weight(PushView::start(src, dst, force)) == 7,
{
}

/// Push memoization: where the bucket already holds the commit that the
/// local ref names, the push asks once whether it is there and goes on to
/// the remote ref. No object is loaded and none is put.
pub proof fn law_push_present(
    src: Seq<char>,
    dst: Seq<char>,
    force: bool,
    text: Seq<char>,
    stores: Stores,
    reply: ReplyView,
    after: Stores,
)
    requires
        is_object_id(trimmed(text)),
        stores.objects.dom().contains(trimmed(text)),
        stores.remote.dom().contains(trimmed(text)),
        stores.answers(
            PushView::start(src, dst, force).advance(
                ReplyView::RefText { text: Some(text) },
            ).request(),
            reply,
            after,
        ),
    ensures
        ({
            let asked = PushView::start(src, dst, force).advance(
                ReplyView::RefText { text: Some(text) },
            );
            let then = asked.advance(reply);
            &&& asked.request() == (RequestView::List { prefix: trimmed(text) })
            &&& after == stores
            &&& !then.uploading()
            &&& reply is Listing ==> then.stage is ReadingRemoteRef || then.stage is Failed
            &&& then.stage is ReadingRemoteRef ==> then.request() == (RequestView::Get { key: dst })
        }),
{
    let asked = PushView::start(src, dst, force).advance(ReplyView::RefText { text: Some(text) });
    assert(asked.stack.len() == 1);
    assert(asked.stack.drop_last() =~= Seq::<FrameView>::empty());
}

/// Fast-forward enforcement: a push that finds the remote ref at a commit
/// that is no ancestor of the pushed one fails with `NonFastForward` and
/// asks for nothing more, so the ref stays; a forced push goes on to write
/// the ref. Where the remote ref is an ancestor the ref is written either
/// way.
pub proof fn law_push_fast_forward(p: PushView, old: Seq<char>, holds: bool)
    requires
        p.wf(),
        p.stage == (PushStageView::Asking { old }),
    ensures
        p.request() == (RequestView::IsAncestor { old, new: p.tip->Some_0 }),
        !holds && !p.force ==> {
            &&& p.advance(ReplyView::Ancestry { holds }).stage == (PushStageView::Failed {
                failure: FailureView {
                    error: ErrorView::NonFastForward { old, new: p.tip->Some_0 },
                    chain: Seq::empty(),
                },
            })
            &&& p.advance(ReplyView::Ancestry { holds }).request() is Stop
        },
        holds || p.force ==> {
            &&& p.advance(ReplyView::Ancestry { holds }).stage is WritingRef
            &&& p.advance(ReplyView::Ancestry { holds }).request() == (RequestView::Put {
                key: p.dst,
                data: encode_utf8(p.tip->Some_0),
            })
        },
{
    assert(chain(p.stack) =~= Seq::<Seq<char>>::empty());
}

/// The ancestry is asked about exactly when the remote ref is there: the
/// value that the bucket holds under it is then the older commit. Where the
/// bucket has no such ref the ref is written without asking.
pub proof fn law_push_reads_remote_ref(p: PushView, data: Seq<u8>, status: u16)
    requires
        p.wf(),
        p.stage is ReadingRemoteRef,
    ensures
        p.request() == (RequestView::Get { key: p.dst }),
        status == STATUS_OK && valid_utf8(data) ==> p.advance(
            ReplyView::Payload { data, status },
        ).stage == (PushStageView::Asking { old: decode_utf8(data) }),
        status != STATUS_OK ==> p.advance(ReplyView::Payload { data, status }).stage is WritingRef,
        p.advance(ReplyView::Failed).stage is WritingRef,
{
}

/// Asking and reading leave the stores alone: until a put succeeds, the
/// bucket is as it was.
pub proof fn law_push_changes_by_put(p: PushView, stores: Stores, reply: ReplyView, after: Stores)
    requires
        stores.answers(p.request(), reply, after),
        !(p.request() is Put) || reply != (ReplyView::Stored { status: STATUS_OK }),
    ensures
        after == stores,
{
    assert(after =~= stores);
}

} // verus!
