//! The discrete messages the relay core works with.
//!
//! The transport is treated as opaque: it delivers text, binary, ping and
//! close events, and accepts text, binary and ping writes. The core never
//! looks inside a binary payload.

use vstd::prelude::*;

verus! {

/// One discrete message on a connection's transport, as the relay core sees it.
#[derive(Debug, PartialEq)]
pub enum Frame {
    /// A text frame; routing reads its JSON fields, relaying passes it on verbatim.
    Text(String),
    /// A binary payload chunk, relayed verbatim and never inspected.
    Binary(Vec<u8>),
    /// A keepalive ping.
    Ping,
    /// The peer closed the connection.
    Close,
}

/// Mathematical image of a [`Frame`]: text as a character sequence, binary as
/// a byte sequence.
pub enum FrameView {
    Text(Seq<char>),
    Binary(Seq<u8>),
    Ping,
    Close,
}

impl View for Frame {
    type V = FrameView;

    open spec fn view(&self) -> FrameView {
        match self {
            Frame::Text(s) => FrameView::Text(s@),
            Frame::Binary(b) => FrameView::Binary(b@),
            Frame::Ping => FrameView::Ping,
            Frame::Close => FrameView::Close,
        }
    }
}

/// The text of the server-generated notification sent when a peer registers
/// with the role `"receiver"`.
pub open spec fn recipient_connected_json() -> Seq<char> {
    "{\"type\":\"recipient_connected\"}"@
}

/// Builds the server-generated `recipient_connected` notification frame.
pub fn recipient_connected_frame() -> (f: Frame)
    ensures
        f@ == FrameView::Text(recipient_connected_json()),
{
    Frame::Text("{\"type\":\"recipient_connected\"}".to_owned())
}

} // verus!
