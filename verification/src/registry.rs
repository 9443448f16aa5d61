//! The connection registry and the broadcast fan-out.
//!
//! The registry is the single source of truth for who is currently
//! connected: a table from connection identifier to that connection's
//! handle. A handle pairs the identifier with the connection's outbound
//! queue, which a delivery task drains to the transport in FIFO order.
//! Broadcasting a text message enqueues one copy onto every registered
//! handle's queue, the sender's own included.

use vstd::prelude::*;

verus! {

/// One connection's server-side representation: its identifier together
/// with its outbound queue of pending text messages. The queue is
/// unbounded; a slow consumer delays only its own delivery task.
pub struct ConnectionHandle {
    id: u64,
    queue: Vec<String>,
}

impl View for ConnectionHandle {
    type V = Seq<Seq<char>>;

    /// The outbound queue, front first: index 0 is delivered next.
    closed spec fn view(&self) -> Seq<Seq<char>> {
        self.queue@.map_values(|s: String| s@)
    }
}

impl ConnectionHandle {
    /// The connection identifier this handle belongs to.
    pub closed spec fn id(&self) -> u64 {
        self.id
    }

    /// A fresh handle with an empty outbound queue.
    pub fn new(id: u64) -> (h: ConnectionHandle)
        ensures
            h.id() == id,
            h@ == Seq::<Seq<char>>::empty(),
    {
        let h = ConnectionHandle { id, queue: Vec::new() };
        proof {
            assert(h@ =~= Seq::<Seq<char>>::empty());
        }
        h
    }

    /// The identifier, for callers outside ghost code.
    pub fn identifier(&self) -> (r: u64)
        ensures
            r == self.id(),
    {
        self.id
    }

    /// How many messages are queued and not yet delivered.
    pub fn outbound_len(&self) -> (n: usize)
        ensures
            n == self@.len(),
    {
        self.queue.len()
    }

    /// Append one copy of `message` to the back of the outbound queue.
    /// The queue is unbounded, so enqueueing never fails.
    pub fn enqueue(&mut self, message: &String)
        ensures
            final(self).id() == old(self).id(),
            final(self)@ == old(self)@.push(message@),
    {
        let copy = message.clone();
        self.queue.push(copy);
        proof {
            assert(self@ =~= old(self)@.push(message@));
        }
    }

    /// Delivery step: remove and return the message at the front of the
    /// queue, if any. Messages leave in the order they were enqueued.
    pub fn take_next(&mut self) -> (r: Option<String>)
        ensures
            final(self).id() == old(self).id(),
            old(self)@.len() == 0 ==> r is None && *final(self) == *old(self),
            old(self)@.len() > 0 ==> (r matches Some(m) && m@ == old(self)@[0] && final(self)@
                == old(self)@.drop_first()),
    {
        if self.queue.len() == 0 {
            None
        } else {
            let m = self.queue.remove(0);
            proof {
                assert(self@ =~= old(self)@.drop_first());
            }
            Some(m)
        }
    }
}

/// The shared table of currently joined connections. An identifier is
/// present exactly while its connection is logically joined: entered by
/// `register`, removed by `deregister`, never duplicated.
pub struct Registry {
    entries: Vec<ConnectionHandle>,
}

impl Registry {
    /// The registered handles, in table order. The order is
    /// implementation-defined and carries no meaning.
    pub closed spec fn handles(&self) -> Seq<ConnectionHandle> {
        self.entries@
    }

    /// The registered identifiers, in table order.
    pub open spec fn ids(&self) -> Seq<u64> {
        self.handles().map_values(|h: ConnectionHandle| h.id())
    }

    /// How many connections are registered.
    pub open spec fn count(&self) -> nat {
        self.handles().len()
    }

    /// Whether `id` is currently registered.
    pub open spec fn has_id(&self, id: u64) -> bool {
        self.ids().contains(id)
    }

    /// The table position of `id`; meaningful only while `id` is
    /// registered in a well-formed registry, where it is unique.
    pub open spec fn index_of(&self, id: u64) -> int {
        choose|i: int| 0 <= i < self.handles().len() && self.handles()[i].id() == id
    }

    /// The outbound queue of the connection registered under `id`.
    pub open spec fn queue_of(&self, id: u64) -> Seq<Seq<char>>
        recommends
            self.has_id(id),
    {
        self.handles()[self.index_of(id)]@
    }

    /// No two entries share an identifier: the table is a mapping.
    pub open spec fn wf(&self) -> bool {
        forall|i: int, j: int|
            0 <= i < j < self.handles().len() ==> self.handles()[i].id() != self.handles()[j].id()
    }

    /// In a well-formed registry a registered identifier sits at exactly
    /// one position, and `index_of` finds it.
    pub proof fn lemma_unique_index(&self, id: u64)
        requires
            self.wf(),
            self.has_id(id),
        ensures
            0 <= self.index_of(id) < self.handles().len(),
            self.handles()[self.index_of(id)].id() == id,
            forall|i: int|
                0 <= i < self.handles().len() && self.handles()[i].id() == id ==> i == self.index_of(
                    id,
                ),
    {
        let k = choose|k: int| 0 <= k < self.ids().len() && self.ids()[k] == id;
        assert(self.handles()[k].id() == id);
        assert(0 <= self.index_of(id) < self.handles().len() && self.handles()[self.index_of(
            id,
        )].id() == id);
        assert forall|i: int|
            0 <= i < self.handles().len() && self.handles()[i].id() == id implies i == self.index_of(
            id,
        ) by {
            let j = self.index_of(id);
            if i < j {
                assert(self.handles()[i].id() != self.handles()[j].id());
            } else if j < i {
                assert(self.handles()[j].id() != self.handles()[i].id());
            }
        }
    }

    /// An empty registry: nobody is connected at startup.
    pub fn new() -> (r: Registry)
        ensures
            r.wf(),
            r.count() == 0,
            forall|id: u64| !r.has_id(id),
    {
        Registry { entries: Vec::new() }
    }

    /// How many connections are registered, for callers outside ghost
    /// code.
    pub fn len(&self) -> (n: usize)
        ensures
            n == self.count(),
    {
        self.entries.len()
    }

    /// Whether `id` is currently registered, for callers outside ghost
    /// code.
    pub fn contains_id(&self, id: u64) -> (b: bool)
        ensures
            b == self.has_id(id),
    {
        let n = self.entries.len();
        let mut i: usize = 0;
        while i < n
            invariant
                n == self.handles().len(),
                0 <= i <= n,
                forall|k: int| 0 <= k < i ==> self.handles()[k].id() != id,
            decreases n - i,
        {
            if self.entries[i].identifier() == id {
                proof {
                    assert(self.ids()[i as int] == id);
                }
                return true;
            }
            i = i + 1;
        }
        proof {
            if self.has_id(id) {
                let k = choose|k: int| 0 <= k < self.ids().len() && self.ids()[k] == id;
                assert(self.handles()[k].id() == id);
            }
        }
        false
    }

    /// How many messages are queued for `id`, or nothing if `id` is not
    /// registered.
    pub fn queue_len(&self, id: u64) -> (r: Option<usize>)
        requires
            self.wf(),
        ensures
            self.has_id(id) ==> (r matches Some(n) && n == self.queue_of(id).len()),
            !self.has_id(id) ==> r is None,
    {
        let n = self.entries.len();
        let mut i: usize = 0;
        while i < n
            invariant
                self.wf(),
                n == self.handles().len(),
                0 <= i <= n,
                forall|k: int| 0 <= k < i ==> self.handles()[k].id() != id,
            decreases n - i,
        {
            if self.entries[i].identifier() == id {
                proof {
                    assert(self.ids()[i as int] == id);
                    self.lemma_unique_index(id);
                }
                return Some(self.entries[i].outbound_len());
            }
            i = i + 1;
        }
        proof {
            if self.has_id(id) {
                let k = choose|k: int| 0 <= k < self.ids().len() && self.ids()[k] == id;
                assert(self.handles()[k].id() == id);
            }
        }
        None
    }

    /// One delivery step for the connection registered under `id`: take
    /// the message at the front of its outbound queue, if any. Nothing
    /// else — membership or any other queue — changes.
    pub fn take_next(&mut self, id: u64) -> (r: Option<String>)
        requires
            old(self).wf(),
        ensures
            final(self).wf(),
            !old(self).has_id(id) ==> r is None && *final(self) == *old(self),
            old(self).has_id(id) && old(self).queue_of(id).len() == 0 ==> r is None
                && final(self).queue_of(id) == old(self).queue_of(id),
            old(self).has_id(id) && old(self).queue_of(id).len() > 0 ==> (r matches Some(m) && m@
                == old(self).queue_of(id)[0] && final(self).queue_of(id) == old(self).queue_of(
                id,
            ).drop_first()),
            forall|x: u64| #[trigger] final(self).has_id(x) == old(self).has_id(x),
            final(self).count() == old(self).count(),
            forall|x: u64|
                x != id && old(self).has_id(x) ==> #[trigger] final(self).queue_of(x) == old(
                    self,
                ).queue_of(x),
    {
        let ghost pre = *self;
        let n = self.entries.len();
        let mut i: usize = 0;
        while i < n
            invariant
                *self == pre,
                pre == *old(self),
                pre.wf(),
                n == pre.handles().len(),
                0 <= i <= n,
                forall|k: int| 0 <= k < i ==> pre.handles()[k].id() != id,
            decreases n - i,
        {
            if self.entries[i].identifier() == id {
                proof {
                    assert(pre.ids()[i as int] == id);
                    pre.lemma_unique_index(id);
                }
                let r = self.entries[i].take_next();
                proof {
                    let post = *self;
                    assert forall|k: int| 0 <= k < n implies post.ids()[k] == pre.ids()[k] by {
                        assert(post.handles()[k].id() == pre.handles()[k].id());
                    }
                    assert(post.ids() =~= pre.ids());
                    assert(post.wf()) by {
                        assert forall|a: int, b: int|
                            0 <= a < b < post.handles().len() implies post.handles()[a].id()
                            != post.handles()[b].id() by {
                            assert(post.handles()[a].id() == pre.handles()[a].id());
                            assert(post.handles()[b].id() == pre.handles()[b].id());
                        }
                    }
                    post.lemma_unique_index(id);
                    assert(post.index_of(id) == i as int);
                    if pre.queue_of(id).len() == 0 {
                        assert(post.handles()[i as int] == pre.handles()[i as int]);
                        assert(post.queue_of(id) == pre.queue_of(id));
                    }
                    assert forall|x: u64|
                        x != id && pre.has_id(x) implies #[trigger] post.queue_of(x)
                        == pre.queue_of(x) by {
                        pre.lemma_unique_index(x);
                        post.lemma_unique_index(x);
                        let k = pre.index_of(x);
                        assert(post.handles()[k].id() == pre.handles()[k].id());
                        assert(post.index_of(x) == k);
                        assert(k != i as int);
                        assert(post.handles()[k] == pre.handles()[k]);
                    }
                }
                return r;
            }
            i = i + 1;
        }
        proof {
            if pre.has_id(id) {
                let k = choose|k: int| 0 <= k < pre.ids().len() && pre.ids()[k] == id;
                assert(pre.handles()[k].id() == id);
            }
        }
        None
    }

    /// Insert `handle` into the table. The caller registers each
    /// identifier at most once, which keeps the table well-formed.
    pub fn register(&mut self, handle: ConnectionHandle)
        requires
            old(self).wf(),
            !old(self).has_id(handle.id()),
        ensures
            final(self).wf(),
            final(self).count() == old(self).count() + 1,
            final(self).has_id(handle.id()),
            final(self).queue_of(handle.id()) == handle@,
            forall|x: u64| x != handle.id() ==> final(self).has_id(x) == old(self).has_id(x),
            forall|x: u64|
                x != handle.id() && old(self).has_id(x) ==> final(self).queue_of(x) == old(
                    self,
                ).queue_of(x),
    {
        let ghost pre = *self;
        let ghost hid = handle.id();
        self.entries.push(handle);
        proof {
            let post = *self;
            let n = pre.handles().len() as int;
            assert(post.handles() == pre.handles().push(handle));
            assert forall|i: int| 0 <= i < n implies pre.handles()[i].id() != hid by {
                if pre.handles()[i].id() == hid {
                    assert(pre.ids()[i] == hid);
                    assert(pre.ids().contains(hid));
                }
            }
            assert(post.wf());
            assert(post.ids()[n] == hid);
            assert(post.has_id(hid));
            post.lemma_unique_index(hid);
            assert(post.index_of(hid) == n);
            assert(post.queue_of(hid) == handle@);
            assert forall|x: u64| x != hid implies post.has_id(x) == pre.has_id(x) by {
                if pre.has_id(x) {
                    let k = choose|k: int| 0 <= k < pre.ids().len() && pre.ids()[k] == x;
                    assert(post.ids()[k] == x);
                    assert(post.has_id(x));
                } else if post.has_id(x) {
                    let k = choose|k: int| 0 <= k < post.ids().len() && post.ids()[k] == x;
                    assert(k < n) by {
                        if k == n {
                            assert(post.ids()[k] == hid);
                        }
                    }
                    assert(pre.ids()[k] == x);
                    assert(pre.has_id(x));
                }
            }
            assert forall|x: u64| x != hid && pre.has_id(x) implies post.queue_of(x) == pre.queue_of(
                x,
            ) by {
                pre.lemma_unique_index(x);
                post.lemma_unique_index(x);
                let k = pre.index_of(x);
                assert(post.handles()[k].id() == x);
                assert(post.index_of(x) == k);
            }
        }
    }

    /// Remove the entry for `id`. Removing an absent identifier is a
    /// no-op, not an error, so cleanup paths may run more than once.
    pub fn deregister(&mut self, id: u64)
        requires
            old(self).wf(),
        ensures
            deregister_step(*old(self), *final(self), id),
    {
        let ghost pre = *self;
        let n = self.entries.len();
        let mut i: usize = 0;
        while i < n
            invariant
                *self == pre,
                pre == *old(self),
                pre.wf(),
                n == pre.handles().len(),
                0 <= i <= n,
                forall|k: int| 0 <= k < i ==> pre.handles()[k].id() != id,
            decreases n - i,
        {
            if self.entries[i].identifier() == id {
                self.entries.remove(i);
                proof {
                    let post = *self;
                    Self::lemma_removed(pre, post, i as int, id);
                }
                return ;
            }
            i = i + 1;
        }
        proof {
            if pre.has_id(id) {
                let k = choose|k: int| 0 <= k < pre.ids().len() && pre.ids()[k] == id;
                assert(pre.handles()[k].id() == id);
            }
        }
    }

    /// Fan one text message out: append one copy of `message` to every
    /// registered handle's outbound queue, the sender's own included.
    /// Membership and the table size are untouched, so one slow or dead
    /// recipient never blocks delivery to the rest.
    pub fn broadcast(&mut self, message: &String)
        requires
            old(self).wf(),
        ensures
            broadcast_step(*old(self), *final(self), message@),
    {
        let ghost pre = *self;
        let n = self.entries.len();
        let mut i: usize = 0;
        while i < n
            invariant
                pre == *old(self),
                pre.wf(),
                n == pre.handles().len(),
                self.handles().len() == n,
                0 <= i <= n,
                forall|k: int|
                    0 <= k < i ==> (#[trigger] self.handles()[k]).id() == pre.handles()[k].id()
                        && self.handles()[k]@ == pre.handles()[k]@.push(message@),
                forall|k: int| i <= k < n ==> self.handles()[k] == pre.handles()[k],
            decreases n - i,
        {
            self.entries[i].enqueue(message);
            i = i + 1;
        }
        proof {
            let post = *self;
            assert forall|k: int| 0 <= k < n implies post.ids()[k] == pre.ids()[k] by {
                assert(post.handles()[k].id() == pre.handles()[k].id());
            }
            assert(post.ids() =~= pre.ids());
            assert(post.wf()) by {
                assert forall|a: int, b: int|
                    0 <= a < b < post.handles().len() implies post.handles()[a].id()
                    != post.handles()[b].id() by {
                    assert(post.handles()[a].id() == pre.handles()[a].id());
                    assert(post.handles()[b].id() == pre.handles()[b].id());
                }
            }
            assert forall|x: u64| pre.has_id(x) implies post.queue_of(x) == pre.queue_of(x).push(
                message@,
            ) by {
                pre.lemma_unique_index(x);
                assert(post.has_id(x));
                post.lemma_unique_index(x);
                let k = pre.index_of(x);
                assert(post.handles()[k].id() == pre.handles()[k].id());
                assert(post.index_of(x) == k);
                assert(post.handles()[k]@ == pre.handles()[k]@.push(message@));
            }
        }
    }

    /// What removing the single entry at position `at` does to the
    /// table, provided that entry held `id` and nothing else did.
    proof fn lemma_removed(pre: Registry, post: Registry, at: int, id: u64)
        requires
            pre.wf(),
            0 <= at < pre.handles().len(),
            pre.handles()[at].id() == id,
            post.handles() == pre.handles().remove(at),
        ensures
            post.wf(),
            !post.has_id(id),
            post.count() == pre.count() - 1,
            pre.has_id(id),
            forall|x: u64| x != id ==> post.has_id(x) == pre.has_id(x),
            forall|x: u64| x != id && pre.has_id(x) ==> post.queue_of(x) == pre.queue_of(x),
    {
        let n = pre.handles().len() as int;
        pre.handles().remove_ensures(at);
        assert(pre.ids()[at] == id);
        assert(pre.has_id(id));
        assert forall|i: int, j: int|
            0 <= i < j < post.handles().len() implies post.handles()[i].id() != post.handles()[j].id() by {
            let pi = if i < at {
                i
            } else {
                i + 1
            };
            let pj = if j < at {
                j
            } else {
                j + 1
            };
            assert(post.handles()[i] == pre.handles()[pi]);
            assert(post.handles()[j] == pre.handles()[pj]);
        }
        assert forall|k: int| 0 <= k < post.handles().len() implies post.handles()[k].id() != id by {
            let pk = if k < at {
                k
            } else {
                k + 1
            };
            assert(post.handles()[k] == pre.handles()[pk]);
            if pk != at {
                assert(pre.handles()[pk].id() != pre.handles()[at].id());
            }
        }
        assert(!post.has_id(id)) by {
            if post.has_id(id) {
                let k = choose|k: int| 0 <= k < post.ids().len() && post.ids()[k] == id;
                assert(post.handles()[k].id() == id);
            }
        }
        assert forall|x: u64| x != id implies post.has_id(x) == pre.has_id(x) by {
            if pre.has_id(x) {
                let k = choose|k: int| 0 <= k < pre.ids().len() && pre.ids()[k] == x;
                assert(pre.handles()[k].id() == x);
                assert(k != at);
                let q = if k < at {
                    k
                } else {
                    k - 1
                };
                assert(post.handles()[q] == pre.handles()[k]);
                assert(post.ids()[q] == x);
                assert(post.has_id(x));
            } else if post.has_id(x) {
                let k = choose|k: int| 0 <= k < post.ids().len() && post.ids()[k] == x;
                let pk = if k < at {
                    k
                } else {
                    k + 1
                };
                assert(post.handles()[k] == pre.handles()[pk]);
                assert(pre.ids()[pk] == x);
                assert(pre.has_id(x));
            }
        }
        assert forall|x: u64| x != id && pre.has_id(x) implies post.queue_of(x) == pre.queue_of(
            x,
        ) by {
            pre.lemma_unique_index(x);
            post.lemma_unique_index(x);
            let k = pre.index_of(x);
            assert(k != at);
            let q = if k < at {
                k
            } else {
                k - 1
            };
            assert(post.handles()[q] == pre.handles()[k]);
            assert(post.index_of(x) == q);
        }
    }
}

/// How a well-formed registry changes when one text message `m` is
/// fanned out: membership and table size are unchanged, and every
/// registered queue grows by exactly one copy of `m` at the back — so
/// each recipient sees messages in the order the broadcasts ran.
pub open spec fn broadcast_step(pre: Registry, post: Registry, m: Seq<char>) -> bool {
    &&& post.wf()
    &&& post.count() == pre.count()
    &&& (forall|x: u64| #[trigger] post.has_id(x) == pre.has_id(x))
    &&& (forall|x: u64| pre.has_id(x) ==> #[trigger] post.queue_of(x) == pre.queue_of(x).push(m))
}

/// How a well-formed registry changes when `id` is deregistered: `id`
/// is gone, every other connection keeps its membership and its queue
/// untouched, the size shrinks by one exactly when `id` was present,
/// and removing an absent identifier changes nothing.
pub open spec fn deregister_step(pre: Registry, post: Registry, id: u64) -> bool {
    &&& post.wf()
    &&& !post.has_id(id)
    &&& (pre.has_id(id) ==> post.count() == pre.count() - 1)
    &&& (!pre.has_id(id) ==> post == pre)
    &&& (forall|x: u64| x != id ==> #[trigger] post.has_id(x) == pre.has_id(x))
    &&& (forall|x: u64|
        x != id && pre.has_id(x) ==> #[trigger] post.queue_of(x) == pre.queue_of(x))
}

} // verus!
