//! The per-connection session: the decisions that drive one connection
//! end to end. The transport loop outside the library reads frames and
//! reports events; the session joins the registry on upgrade, hands
//! each inbound frame to the broadcast fan-out, and leaves the registry
//! when the inbound read ends.

use vstd::prelude::*;

use crate::frame::Frame;
use crate::registry::broadcast_step;
use crate::registry::deregister_step;
use crate::server::connect_step;
use crate::server::Server;

verus! {

/// Where a connection stands in its lifecycle.
#[derive(Clone, Copy, Debug, PartialEq, Eq, Structural)]
pub enum SessionState {
    /// The transport handshake is in progress; nothing is registered.
    Connecting,
    /// Registered: inbound frames are read and fanned out.
    Joined,
    /// Deregistered: no further frame is accepted or delivered to this
    /// identity, while its queue may still drain.
    Draining,
    /// Terminal.
    Closed,
}

/// One connection's session. It owns the connection's identifier from
/// the moment the handshake succeeds, and never registers it twice.
pub struct Session {
    state: SessionState,
    id: Option<u64>,
}

impl Session {
    /// The lifecycle phase.
    pub closed spec fn state(&self) -> SessionState {
        self.state
    }

    /// The identifier, present from the moment the session joined.
    pub closed spec fn id(&self) -> Option<u64> {
        self.id
    }

    /// A joined or draining session knows its identifier.
    pub open spec fn wf(&self) -> bool {
        self.state() is Joined || self.state() is Draining ==> self.id() is Some
    }

    /// A session for a connection whose handshake has just begun.
    pub fn new() -> (s: Session)
        ensures
            s.wf(),
            s.state() is Connecting,
            s.id() is None,
    {
        Session { state: SessionState::Connecting, id: None }
    }

    /// The lifecycle phase, for the driver loop outside ghost code.
    pub fn phase(&self) -> (p: SessionState)
        ensures
            p == self.state(),
    {
        self.state
    }

    /// The identifier, for the driver loop outside ghost code.
    pub fn connection_id(&self) -> (r: Option<u64>)
        ensures
            r == self.id(),
    {
        self.id
    }

    /// The handshake succeeded: obtain a fresh identifier and join the
    /// registry with an empty outbound queue. Only identifier-space
    /// exhaustion refuses, and then the session closes with the
    /// registry untouched — the connection never reaches `Joined`.
    pub fn on_upgraded(&mut self, server: &mut Server) -> (r: Option<u64>)
        requires
            old(self).state() is Connecting,
            old(server).wf(),
        ensures
            final(self).wf(),
            final(server).wf(),
            r is Some <==> old(server).can_accept(),
            r matches Some(id) ==> final(self).state() is Joined && final(self).id() == Some(id)
                && connect_step(*old(server), *final(server), id),
            r is None ==> final(self).state() is Closed && *final(server) == *old(server),
    {
        match server.connect() {
            Some(id) => {
                self.state = SessionState::Joined;
                self.id = Some(id);
                Some(id)
            },
            None => {
                self.state = SessionState::Closed;
                None
            },
        }
    }

    /// The handshake failed: the connection never joins, no registry
    /// entry is created, and nobody else is affected.
    pub fn on_upgrade_failed(&mut self)
        requires
            old(self).state() is Connecting,
        ensures
            final(self).wf(),
            final(self).state() is Closed,
            final(self).id() == old(self).id(),
    {
        self.state = SessionState::Closed;
    }

    /// One inbound frame while joined: hand it to the broadcast
    /// fan-out. A text payload reaches every joined queue once; any
    /// other frame kind changes nothing.
    pub fn on_frame(&mut self, server: &mut Server, frame: &Frame)
        requires
            old(self).state() is Joined,
            old(self).wf(),
            old(server).wf(),
        ensures
            *final(self) == *old(self),
            final(server).wf(),
            final(server).generator() == old(server).generator(),
            frame.is_text() ==> broadcast_step(
                old(server).registry(),
                final(server).registry(),
                frame.text(),
            ),
            !frame.is_text() ==> *final(server) == *old(server),
    {
        server.handle_frame(frame);
    }

    /// The inbound read ended — transport closed, protocol error or
    /// end of stream, all treated alike: leave the registry, so no
    /// later broadcast can enqueue to this identifier.
    pub fn on_read_end(&mut self, server: &mut Server)
        requires
            old(self).state() is Joined,
            old(self).wf(),
            old(server).wf(),
        ensures
            final(self).wf(),
            final(self).state() is Draining,
            final(self).id() == old(self).id(),
            final(server).wf(),
            final(server).generator() == old(server).generator(),
            old(self).id() matches Some(id) ==> deregister_step(
                old(server).registry(),
                final(server).registry(),
                id,
            ) && !final(server).has_id(id),
    {
        match self.id {
            Some(id) => {
                server.disconnect(id);
            },
            None => {
            },
        }
        self.state = SessionState::Draining;
    }

    /// The outbound queue's sending side is gone and the delivery task
    /// has finished draining: the session is over.
    pub fn on_drained(&mut self)
        requires
            old(self).state() is Draining,
        ensures
            final(self).wf(),
            final(self).state() is Closed,
            final(self).id() == old(self).id(),
    {
        self.state = SessionState::Closed;
    }
}

} // verus!
