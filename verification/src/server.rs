//! The relay's process-wide state: the identifier counter and the
//! connection registry, and the operations a connection session drives
//! against them — join on connect, fan out each inbound text frame,
//! leave on disconnect.

use vstd::prelude::*;

use crate::frame::Frame;
use crate::ids::IdGenerator;
use crate::registry::broadcast_step;
use crate::registry::deregister_step;
use crate::registry::ConnectionHandle;
use crate::registry::Registry;

verus! {

/// The whole relay: initialized once at startup, shared by every
/// connection's session for the life of the process.
pub struct Server {
    generator: IdGenerator,
    registry: Registry,
}

/// What a successful connect does: the new identifier was never issued
/// before — so it collides neither with a live connection nor with a
/// past one — and it joins the registry with an empty outbound queue
/// while every other connection keeps its membership and its queue.
pub open spec fn connect_step(pre: Server, post: Server, id: u64) -> bool {
    &&& !pre.generator().issued().contains(id)
    &&& !pre.has_id(id)
    &&& id == pre.generator().counter()
    &&& post.generator().counter() == pre.generator().counter() + 1
    &&& post.has_id(id)
    &&& post.queue_of(id) == Seq::<Seq<char>>::empty()
    &&& post.count() == pre.count() + 1
    &&& (forall|x: u64| x != id ==> #[trigger] post.has_id(x) == pre.has_id(x))
    &&& (forall|x: u64| x != id && pre.has_id(x) ==> #[trigger] post.queue_of(x) == pre.queue_of(x))
}

impl Server {
    /// The identifier counter.
    pub closed spec fn generator(&self) -> IdGenerator {
        self.generator
    }

    /// The connection registry.
    pub closed spec fn registry(&self) -> Registry {
        self.registry
    }

    /// The registry is a well-formed table, and everything registered
    /// in it was issued by the counter — so a fresh identifier can
    /// never collide with a registered one.
    pub open spec fn wf(&self) -> bool {
        &&& self.generator().wf()
        &&& self.registry().wf()
        &&& (forall|id: u64|
            #[trigger] self.registry().has_id(id) ==> self.generator().issued().contains(id))
    }

    /// How many connections are currently joined.
    pub open spec fn count(&self) -> nat {
        self.registry().count()
    }

    /// Whether `id` is currently joined.
    pub open spec fn has_id(&self, id: u64) -> bool {
        self.registry().has_id(id)
    }

    /// The outbound queue of the connection joined under `id`.
    pub open spec fn queue_of(&self, id: u64) -> Seq<Seq<char>>
        recommends
            self.has_id(id),
    {
        self.registry().queue_of(id)
    }

    /// Whether the identifier space is not yet exhausted.
    pub open spec fn can_accept(&self) -> bool {
        self.generator().can_issue()
    }

    /// A fresh relay with nobody connected.
    pub fn new() -> (s: Server)
        ensures
            s.wf(),
            s.count() == 0,
            forall|id: u64| !s.has_id(id),
            s.can_accept(),
            s.generator().counter() == 1,
    {
        Server { generator: IdGenerator::new(), registry: Registry::new() }
    }

    /// How many connections are currently joined, for callers outside
    /// ghost code.
    pub fn connection_count(&self) -> (n: usize)
        ensures
            n == self.count(),
    {
        self.registry.len()
    }

    /// Whether `id` is currently joined, for callers outside ghost
    /// code.
    pub fn is_connected(&self, id: u64) -> (b: bool)
        ensures
            b == self.has_id(id),
    {
        self.registry.contains_id(id)
    }

    /// How many messages are queued for `id`, or nothing if `id` is
    /// not joined.
    pub fn queue_len(&self, id: u64) -> (r: Option<usize>)
        requires
            self.wf(),
        ensures
            self.has_id(id) ==> (r matches Some(n) && n == self.queue_of(id).len()),
            !self.has_id(id) ==> r is None,
    {
        self.registry.queue_len(id)
    }

    /// Accept a connection: draw a fresh identifier and join it to the
    /// registry with an empty outbound queue. Returns nothing only when
    /// the identifier space is exhausted, and then changes nothing.
    pub fn connect(&mut self) -> (r: Option<u64>)
        requires
            old(self).wf(),
        ensures
            final(self).wf(),
            r is Some <==> old(self).can_accept(),
            r is None ==> *final(self) == *old(self),
            r matches Some(id) ==> connect_step(*old(self), *final(self), id),
    {
        if !self.generator.has_capacity() {
            return None;
        }
        let id = self.generator.fresh_id();
        proof {
            assert(!old(self).registry().has_id(id));
        }
        let handle = ConnectionHandle::new(id);
        self.registry.register(handle);
        proof {
            assert forall|x: u64| #[trigger] self.registry().has_id(x) implies self.generator(
            ).issued().contains(x) by {
                if x != id {
                    assert(old(self).registry().has_id(x));
                }
            }
        }
        Some(id)
    }

    /// Handle one inbound frame: a text payload is enqueued once onto
    /// every joined connection's outbound queue, the sender's own
    /// included; any other frame kind is dropped and nothing changes.
    pub fn handle_frame(&mut self, frame: &Frame)
        requires
            old(self).wf(),
        ensures
            final(self).wf(),
            final(self).generator() == old(self).generator(),
            frame.is_text() ==> broadcast_step(
                old(self).registry(),
                final(self).registry(),
                frame.text(),
            ),
            !frame.is_text() ==> *final(self) == *old(self),
    {
        match frame.text_payload() {
            Some(message) => {
                self.registry.broadcast(message);
                proof {
                    assert forall|x: u64| #[trigger] self.registry().has_id(x) implies self
                        .generator().issued().contains(x) by {
                        assert(old(self).registry().has_id(x));
                    }
                }
            },
            None => {
            },
        }
    }

    /// End a connection: remove `id` from the registry, so no later
    /// broadcast can reach it. Disconnecting an absent identifier is a
    /// no-op, so cleanup may run more than once.
    pub fn disconnect(&mut self, id: u64)
        requires
            old(self).wf(),
        ensures
            final(self).wf(),
            final(self).generator() == old(self).generator(),
            deregister_step(old(self).registry(), final(self).registry(), id),
    {
        self.registry.deregister(id);
        proof {
            assert forall|x: u64| #[trigger] self.registry().has_id(x) implies self.generator(
            ).issued().contains(x) by {
                assert(old(self).registry().has_id(x));
            }
        }
    }

    /// One delivery step for the connection joined under `id`: take
    /// the message at the front of its outbound queue, if any. The
    /// delivery task calls this repeatedly, so messages reach the
    /// transport in the order they were enqueued.
    pub fn next_delivery(&mut self, id: u64) -> (r: Option<String>)
        requires
            old(self).wf(),
        ensures
            final(self).wf(),
            final(self).generator() == old(self).generator(),
            !old(self).has_id(id) ==> r is None && *final(self) == *old(self),
            old(self).has_id(id) && old(self).queue_of(id).len() == 0 ==> r is None
                && final(self).queue_of(id) == old(self).queue_of(id),
            old(self).has_id(id) && old(self).queue_of(id).len() > 0 ==> (r matches Some(m) && m@
                == old(self).queue_of(id)[0] && final(self).queue_of(id)
                == old(self).queue_of(id).drop_first()),
            forall|x: u64| #[trigger] final(self).has_id(x) == old(self).has_id(x),
            final(self).count() == old(self).count(),
            forall|x: u64|
                x != id && old(self).has_id(x) ==> #[trigger] final(self).queue_of(x) == old(
                    self,
                ).queue_of(x),
    {
        let r = self.registry.take_next(id);
        proof {
            assert forall|x: u64| #[trigger] self.registry().has_id(x) implies self.generator(
            ).issued().contains(x) by {
                assert(old(self).registry().has_id(x));
            }
        }
        r
    }
}

} // verus!
