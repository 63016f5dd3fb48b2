//! Streams that a relay reads from and writes to.
use vstd::prelude::*;

verus! {

/// A connection, by the number under which its two ends are held, and whether it is a
/// web socket.
#[derive(Clone, Copy, Debug, PartialEq, Eq, Structural)]
pub struct Stream {
    pub id: u64,
    pub ws: bool,
}

impl Stream {
    #[verifier::allow_in_spec]
    pub fn is_ws(&self) -> bool
        returns
            self.ws,
    {
        self.ws
    }

    /// Whether two streams drop their framing once they are paired: a web socket keeps
    /// its own.
    #[verifier::allow_in_spec]
    pub fn both_raw(&self, peer: &Stream) -> bool
        returns
            !self.ws && !peer.ws,
    {
        !self.is_ws() && !peer.is_ws()
    }
}

/// What a web socket gave.
#[derive(Debug)]
pub enum WsRead {
    Binary(Vec<u8>),
    /// A message of another kind: text, a ping, a close.
    Other,
    /// An error, in words.
    Failed(String),
    Ended,
}

/// What a stream gave: bytes, an error in words, or its end.
#[derive(Debug)]
pub enum Recv {
    Bytes(Vec<u8>),
    Failed(String),
    Ended,
}

/// What a web socket gives to a relay, as bytes; nothing where it failed or ended.
pub open spec fn ws_bytes(read: WsRead) -> Option<Seq<u8>> {
    match read {
        WsRead::Binary(bytes) => Some(bytes@),
        WsRead::Other => Some(Seq::empty()),
        _ => None,
    }
}

/// What a stream gave to a relay, as bytes; nothing where it failed or ended.
pub open spec fn recv_bytes(recv: Recv) -> Option<Seq<u8>> {
    match recv {
        Recv::Bytes(bytes) => Some(bytes@),
        _ => None,
    }
}

/// What a web socket gives to a relay: a message that is not binary counts as one
/// without bytes.
pub fn recv(read: WsRead) -> (recv: Recv)
    ensures
        recv_bytes(recv) == ws_bytes(read),
        match read {
            WsRead::Binary(bytes) => recv == Recv::Bytes(bytes),
            WsRead::Other => recv matches Recv::Bytes(bytes) && bytes@.len() == 0,
            WsRead::Failed(words) => recv == Recv::Failed(words),
            WsRead::Ended => recv == Recv::Ended,
        },
{
    match read {
        WsRead::Binary(bytes) => Recv::Bytes(bytes),
        WsRead::Other => Recv::Bytes(Vec::new()),
        WsRead::Failed(words) => Recv::Failed(words),
        WsRead::Ended => Recv::Ended,
    }
}

} // verus!
