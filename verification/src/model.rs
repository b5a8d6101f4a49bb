//! A model of what the engine talks to: the objects there are, the ids
//! that the local database holds and the keys of the bucket with their
//! values. The laws of the engines are stated over it.

use vstd::prelude::*;
use crate::exchange::{exists_in, ReplyView, RequestView, STATUS_OK};
use crate::object::{is_object_id, Kind};
use crate::text::trimmed;
use crate::walk::{children, LinkView};

verus! {

/// An object: its kind and its bytes.
#[verifier::ext_equal]
pub struct Object {
    pub kind: Kind,
    pub data: Seq<u8>,
}

/// The state of the two stores.
#[verifier::ext_equal]
pub struct Stores {
    /// Every object there is, under its id. An id names one object for
    /// good: the stores hold copies.
    pub objects: Map<Seq<char>, Object>,
    /// The ids of the objects that the local database holds.
    pub local: Set<Seq<char>>,
    /// The keys of the bucket and what it holds under each: the objects
    /// under their ids, the refs under their names.
    pub remote: Map<Seq<char>, Seq<u8>>,
}

impl Stores {
    /// What the object `id` refers to; nothing where its bytes do not
    /// decode.
    pub open spec fn links(self, id: Seq<char>) -> Seq<LinkView> {
        match children(self.objects[id].kind, self.objects[id].data) {
            Some(links) => links,
            None => Seq::empty(),
        }
    }

    /// Whether the object `from` refers to the object `to`.
    pub open spec fn refers(self, from: Seq<char>, to: Seq<char>) -> bool {
        &&& self.objects.dom().contains(from)
        &&& self.objects.dom().contains(to)
        &&& exists|i: int|
            0 <= i < self.links(from).len() && #[trigger] self.links(from)[i].id == to
    }

    /// The stores hold true copies: what the local database holds are
    /// objects, and what the bucket holds under the id of an object are the
    /// bytes of that object.
    pub open spec fn coherent(self) -> bool {
        &&& forall|id: Seq<char>| self.local.contains(id) ==> self.objects.dom().contains(id)
        &&& forall|key: Seq<char>| #[trigger]
            self.remote.dom().contains(key) && self.objects.dom().contains(key)
                ==> self.remote[key] == self.objects[key].data
    }

    /// Every reference expects the kind that the object it names has.
    pub open spec fn well_kinded(self) -> bool {
        forall|id: Seq<char>, i: int|
            self.objects.dom().contains(id) && 0 <= i < self.links(id).len()
                && self.objects.dom().contains(#[trigger] self.links(id)[i].id)
                ==> self.objects[self.links(id)[i].id].kind == self.links(id)[i].kind
    }

    /// Whether `held` lacks nothing that an object in it refers to.
    pub open spec fn closed(self, held: Set<Seq<char>>) -> bool {
        forall|from: Seq<char>, to: Seq<char>|
            held.contains(from) && #[trigger] self.refers(from, to) ==> held.contains(to)
    }

    /// The local database lacks nothing that an object in it refers to.
    pub open spec fn local_closed(self) -> bool {
        self.closed(self.local)
    }

    /// The bucket lacks nothing that an object in it refers to.
    pub open spec fn remote_closed(self) -> bool {
        self.closed(self.remote.dom())
    }

    /// Every object decodes, and refers only to objects that there are.
    pub open spec fn whole(self) -> bool {
        forall|id: Seq<char>| #[trigger]
            self.objects.dom().contains(id) ==> {
                &&& children(self.objects[id].kind, self.objects[id].data) is Some
                &&& forall|i: int|
                    0 <= i < self.links(id).len() ==> self.objects.dom().contains(
                        #[trigger] self.links(id)[i].id,
                    )
            }
    }

    /// Whether `reply` is the answer of a call that went well: the call was
    /// made, the bucket answered with success where it could, and the local
    /// ref that was read is there and names an object.
    pub open spec fn prompt(self, request: RequestView, reply: ReplyView) -> bool {
        match request {
            RequestView::FindObject { .. } => reply is Object,
            RequestView::WriteObject { .. } => reply is Written,
            RequestView::Get { key } => reply is Payload && (self.remote.dom().contains(key)
                ==> reply->Payload_status == STATUS_OK),
            RequestView::Put { .. } => reply == (ReplyView::Stored { status: STATUS_OK }),
            RequestView::List { .. } => reply matches ReplyView::Listing { pages } && exists_in(
                pages,
            ) is Ok,
            RequestView::ReadRef { .. } => reply matches ReplyView::RefText { text: Some(text) }
                && is_object_id(trimmed(text)) && self.objects.dom().contains(trimmed(text)),
            RequestView::IsAncestor { .. } => reply is Ancestry,
            RequestView::ReadLine => reply is Line,
            RequestView::Print { .. } => reply is Printed,
            RequestView::Stop => true,
        }
    }

    /// A chain of objects in which each refers to the next.
    pub open spec fn is_path(self, path: Seq<Seq<char>>) -> bool {
        &&& path.len() > 0
        &&& self.objects.dom().contains(path[0])
        &&& forall|i: int| 0 <= i < path.len() - 1 ==> self.refers(#[trigger] path[i], path[i + 1])
    }

    /// Whether `to` is `from` or is referred to by it, directly or through
    /// other objects.
    pub open spec fn reaches(self, from: Seq<char>, to: Seq<char>) -> bool {
        exists|path: Seq<Seq<char>>| #[trigger]
            self.is_path(path) && path[0] == from && path.last() == to
    }

    /// Whether `to` is referred to by `from`, directly or through other
    /// objects.
    pub open spec fn descends(self, from: Seq<char>, to: Seq<char>) -> bool {
        exists|path: Seq<Seq<char>>| #[trigger]
            self.is_path(path) && path.len() >= 2 && path[0] == from && path.last() == to
    }

    /// No object is referred to by itself, directly or through other
    /// objects: an id is the hash of what the object holds.
    pub open spec fn acyclic(self) -> bool {
        forall|id: Seq<char>| !self.descends(id, id)
    }

    /// The ids under which the local database comes to hold the bytes
    /// `data` written as an object of kind `kind`: the ids of that object.
    pub open spec fn named(self, kind: Kind, data: Seq<u8>) -> Set<Seq<char>> {
        Set::new(
            |id: Seq<char>|
                self.objects.dom().contains(id) && self.objects[id] == (Object { kind, data }),
        )
    }

    /// Whether `reply` is an answer that the stores can give to `request`,
    /// leaving them as `after`.
    ///
    /// A call can always fail, and then changes nothing. The local database
    /// finds exactly what it holds, and holds what was written to it. The
    /// bucket gives with success only what it holds, holds what was put
    /// with success, and its listing by the id of an object is non-empty
    /// exactly when it holds that key. A local ref names a commit. Reading
    /// and asking change nothing.
    pub open spec fn answers(self, request: RequestView, reply: ReplyView, after: Stores) -> bool {
        match request {
            RequestView::FindObject { id } => {
                &&& after == self
                &&& reply matches ReplyView::Object { data } ==> {
                    &&& data is Some <==> self.local.contains(id)
                    &&& data matches Some(bytes) ==> bytes == self.objects[id].data
                }
            },
            RequestView::WriteObject { kind, data } => {
                &&& after.objects == self.objects
                &&& after.remote == self.remote
                &&& after.local == if reply is Written {
                    self.local.union(self.named(kind, data))
                } else {
                    self.local
                }
            },
            RequestView::Get { key } => {
                &&& after == self
                &&& reply matches ReplyView::Payload { data, status } ==> (status == STATUS_OK ==> {
                    &&& self.remote.dom().contains(key)
                    &&& data == self.remote[key]
                })
            },
            RequestView::Put { key, data } => {
                &&& after.objects == self.objects
                &&& after.local == self.local
                &&& after.remote == if reply == (ReplyView::Stored { status: STATUS_OK }) {
                    self.remote.insert(key, data)
                } else {
                    self.remote
                }
            },
            RequestView::List { prefix } => {
                &&& after == self
                &&& reply matches ReplyView::Listing { pages } ==> (self.objects.dom().contains(
                    prefix,
                ) ==> (exists_in(pages) matches Ok(found) ==> found == self.remote.dom().contains(
                    prefix,
                )))
            },
            RequestView::ReadRef { name } => {
                &&& after == self
                &&& reply matches ReplyView::RefText { text: Some(text) } ==> (
                self.objects.dom().contains(trimmed(text)) ==> self.objects[trimmed(text)].kind
                    == Kind::Commit)
            },
            _ => after == self,
        }
    }
}

/// One exchange with the driver: the reply to the pending request and the
/// stores as they are after it.
#[verifier::ext_equal]
pub struct Turn {
    pub reply: ReplyView,
    pub after: Stores,
}

/// The stores at the end of a run that began with `stores`.
pub open spec fn stores_after(stores: Stores, turns: Seq<Turn>) -> Stores {
    if turns.len() == 0 {
        stores
    } else {
        turns.last().after
    }
}

/// Stores that have the same objects agree on what refers to what, and on
/// whether the objects are well kinded and whole.
pub proof fn lemma_same_objects(stores: Stores, after: Stores)
    requires
        after.objects == stores.objects,
    ensures
        forall|a: Seq<char>| after.links(a) == stores.links(a),
        forall|a: Seq<char>, b: Seq<char>| after.refers(a, b) == stores.refers(a, b),
        forall|path: Seq<Seq<char>>| after.is_path(path) == stores.is_path(path),
        stores.well_kinded() ==> after.well_kinded(),
        stores.whole() ==> after.whole(),
{
    assert forall|a: Seq<char>| after.links(a) == stores.links(a) by {}
    assert forall|a: Seq<char>, b: Seq<char>| after.refers(a, b) == stores.refers(a, b) by {
        assert(after.links(a) == stores.links(a));
    }
    assert forall|path: Seq<Seq<char>>| after.is_path(path) == stores.is_path(path) by {
        if stores.is_path(path) {
            assert forall|i: int| 0 <= i < path.len() - 1 implies after.refers(
                #[trigger] path[i],
                path[i + 1],
            ) by {
                assert(stores.refers(path[i], path[i + 1]));
            }
        }
        if after.is_path(path) {
            assert forall|i: int| 0 <= i < path.len() - 1 implies stores.refers(
                #[trigger] path[i],
                path[i + 1],
            ) by {
                assert(after.refers(path[i], path[i + 1]));
            }
        }
    }
    if stores.well_kinded() {
        assert forall|id: Seq<char>, i: int|
            after.objects.dom().contains(id) && 0 <= i < after.links(id).len()
                && after.objects.dom().contains(
                #[trigger] after.links(id)[i].id,
            ) implies after.objects[after.links(id)[i].id].kind == after.links(id)[i].kind by {
            assert(after.links(id) == stores.links(id));
            assert(stores.objects.dom().contains(stores.links(id)[i].id));
        }
    }
    if stores.whole() {
        assert forall|id: Seq<char>| #[trigger] after.objects.dom().contains(id) implies {
            &&& children(after.objects[id].kind, after.objects[id].data) is Some
            &&& forall|i: int|
                0 <= i < after.links(id).len() ==> after.objects.dom().contains(
                    #[trigger] after.links(id)[i].id,
                )
        } by {
            assert(stores.objects.dom().contains(id));
            assert(after.links(id) == stores.links(id));
        }
    }
}

/// What an object refers to descends from it.
pub proof fn lemma_refers_descends(stores: Stores, from: Seq<char>, to: Seq<char>)
    requires
        stores.refers(from, to),
    ensures
        stores.descends(from, to),
{
    let path = seq![from, to];
    assert(stores.is_path(path)) by {
        assert forall|i: int| 0 <= i < path.len() - 1 implies stores.refers(
            #[trigger] path[i],
            path[i + 1],
        ) by {}
    }
}

/// What is referred to by a descendant of an object descends from the
/// object.
pub proof fn lemma_descends_refers(stores: Stores, from: Seq<char>, via: Seq<char>, to: Seq<char>)
    requires
        stores.descends(from, via),
        stores.refers(via, to),
    ensures
        stores.descends(from, to),
{
    let head = choose|path: Seq<Seq<char>>| #[trigger]
        stores.is_path(path) && path.len() >= 2 && path[0] == from && path.last() == via;
    let path = head.push(to);
    assert(stores.is_path(path)) by {
        assert forall|i: int| 0 <= i < path.len() - 1 implies stores.refers(
            #[trigger] path[i],
            path[i + 1],
        ) by {
            if i < head.len() - 1 {
                assert(stores.refers(head[i], head[i + 1]));
            }
        }
    }
    assert(path[0] == from && path.last() == to);
}

/// A store that holds an object and lacks nothing that its objects refer
/// to holds all that the object reaches.
pub proof fn lemma_closed_holds_reached(
    stores: Stores,
    held: Set<Seq<char>>,
    root: Seq<char>,
    path: Seq<Seq<char>>,
)
    requires
        stores.closed(held),
        held.contains(root),
        stores.is_path(path),
        path[0] == root,
    ensures
        held.contains(path.last()),
    decreases path.len(),
{
    if path.len() > 1 {
        let shorter = path.drop_last();
        assert(stores.is_path(shorter)) by {
            assert forall|i: int| 0 <= i < shorter.len() - 1 implies stores.refers(
                #[trigger] shorter[i],
                shorter[i + 1],
            ) by {
                assert(shorter[i] == path[i]);
                assert(stores.refers(path[i], path[i + 1]));
            }
        }
        lemma_closed_holds_reached(stores, held, root, shorter);
        let k = path.len() - 2;
        assert(stores.refers(path[k], path[k + 1]));
        assert(shorter.last() == path[k]);
    }
}

} // verus!
