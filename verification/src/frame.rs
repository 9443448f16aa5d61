//! Inbound frames, as the transport's native framing hands them over.
//!
//! Only textual payloads are ever rebroadcast; every other frame kind is
//! silently dropped by the broadcast engine.

use vstd::prelude::*;

verus! {

/// One inbound frame read from a connection's transport. The transport's
/// own framing distinguishes text, binary and control frames; the relay
/// rebroadcasts text payloads and ignores the rest.
pub enum Frame {
    /// A textual payload; the only kind that is rebroadcast.
    Text(String),
    /// A binary payload; never rebroadcast.
    Binary(Vec<u8>),
    /// A liveness probe; never rebroadcast.
    Ping(Vec<u8>),
    /// A liveness reply; never rebroadcast.
    Pong(Vec<u8>),
    /// A close notice; never rebroadcast.
    Close,
}

impl Frame {
    /// Whether this frame carries a textual payload.
    pub open spec fn is_text(&self) -> bool {
        self matches Frame::Text(_)
    }

    /// The textual payload of a text frame.
    pub open spec fn text(&self) -> Seq<char>
        recommends
            self.is_text(),
    {
        match self {
            Frame::Text(s) => s@,
            _ => Seq::<char>::empty(),
        }
    }

    /// The payload if this is a text frame, and nothing otherwise.
    pub fn text_payload(&self) -> (r: Option<&String>)
        ensures
            self.is_text() <==> r is Some,
            r matches Some(s) ==> s@ == self.text(),
    {
        match self {
            Frame::Text(s) => Some(s),
            _ => None,
        }
    }
}

} // verus!
