//! By which sink a message reaches a remote end.
use vstd::prelude::*;

use crate::addr::{Addr, Remote};
use crate::message::{RendezvousMessage, UnionView};
use crate::rendezvous_server::action::{
    actions, no_actions, push_action, push_release, push_send, released, sent, Action, ActionView,
};
use crate::rendezvous_server::{lemma_unfiled, Place, RendezvousServer, ServerView};

verus! {

/// What a sink writes to.
#[derive(Clone, Copy, Debug, PartialEq, Eq, Structural)]
pub enum SinkKind {
    /// A stream of frames, encrypted or not.
    TcpStream { encrypted: bool },
    /// A web socket.
    Ws,
}

/// How the bytes of a message go out.
#[derive(Debug)]
pub enum Write {
    Nothing,
    /// Encrypt, then write as a frame.
    Encrypted(Vec<u8>),
    /// Write as a frame.
    Plain(Vec<u8>),
    /// Write as a binary message.
    Binary(Vec<u8>),
}

/// How the bytes of a message go out by a sink.
pub open spec fn write_of(kind: SinkKind, encoded: Option<Vec<u8>>) -> Write {
    match encoded {
        None => Write::Nothing,
        Some(bytes) => match kind {
            SinkKind::TcpStream { encrypted } => if encrypted {
                Write::Encrypted(bytes)
            } else {
                Write::Plain(bytes)
            },
            SinkKind::Ws => Write::Binary(bytes),
        },
    }
}

impl ServerView {
    /// The sink of the peer that is registered at an address. A web socket comes
    /// before a plain connection.
    pub open spec fn persistent(self, key: Addr) -> Option<u64> {
        if self.ws_map.dom().contains(key) {
            Some(self.ws_map[key])
        } else if self.tcp_map.dom().contains(key) {
            Some(self.tcp_map[key])
        } else {
            None
        }
    }

    /// The sink that waits for one answer at an address.
    pub open spec fn waiting(self, key: Addr) -> Option<u64> {
        self.sink_at(Place::Punch(key))
    }

    /// A message to a registered peer: by its sink, or else in a datagram.
    pub open spec fn to_peer(self, peer: Remote, message: Option<UnionView>) -> ActionView {
        match self.persistent(peer.key) {
            Some(sink) => ActionView::Send { sink, message },
            None => ActionView::SendUdp { to: peer.addr, message },
        }
    }

    /// A message to a remote end: by the sink of the peer that is registered there, or
    /// else by the sink that waits for one answer there, which is spent.
    pub open spec fn to_tcp(self, to: Remote, message: Option<UnionView>) -> (
        ServerView,
        Seq<ActionView>,
    ) {
        match self.persistent(to.key) {
            Some(sink) => (self, sent(Some(sink), message)),
            None => (
                self.unfiled(Place::Punch(to.key)),
                sent(self.waiting(to.key), message) + released(self.waiting(to.key)),
            ),
        }
    }
}

impl RendezvousServer {
    /// The sink of the peer that is registered at an address.
    pub fn persistent_sink(&self, key: Addr) -> (sink: Option<u64>)
        requires
            self.wf(),
        ensures
            sink == self@.persistent(key),
    {
        match self.ws_map.get(key) {
            Some(sink) => Some(sink),
            None => self.tcp_map.get(key),
        }
    }

    /// Sends a message to a registered peer.
    pub fn send_to_peer(&self, message: RendezvousMessage, peer: Remote) -> (action: Action)
        requires
            self.wf(),
        ensures
            action@ == self@.to_peer(peer, message@),
    {
        match self.persistent_sink(peer.key) {
            Some(sink) => Action::Send { sink, message },
            None => Action::SendUdp { to: peer.addr, message },
        }
    }

    /// Sends a message to a remote end that holds a connection; where none is known the
    /// message is lost.
    pub fn send_to_tcp(&mut self, message: RendezvousMessage, to: Remote) -> (list: Vec<Action>)
        requires
            old(self).wf(),
        ensures
            final(self).wf(),
            (final(self)@, actions(list@)) == old(self)@.to_tcp(to, message@),
    {
        let mut list = no_actions();
        if let Some(sink) = self.persistent_sink(to.key) {
            push_action(&mut list, Action::Send { sink, message });
            assert(actions(list@) =~= sent(Some(sink), message@));
            return list;
        }
        let sink = self.tcp_punch.remove(to.key);
        push_send(&mut list, sink, message);
        push_release(&mut list, sink);
        proof {
            lemma_unfiled(old(self)@, Place::Punch(to.key));
            assert(self@ == old(self)@.unfiled(Place::Punch(to.key)));
            assert(actions(list@) =~= sent(sink, message@) + released(sink));
        }
        list
    }

    /// How a message goes out by a sink, given its bytes; a message that cannot be
    /// encoded does not.
    pub fn send_to_sink(kind: SinkKind, encoded: Option<Vec<u8>>) -> (write: Write)
        ensures
            write == write_of(kind, encoded),
            write == (match (encoded, kind) {
                (None, _) => Write::Nothing,
                (Some(bytes), SinkKind::TcpStream { encrypted: true }) => Write::Encrypted(bytes),
                (Some(bytes), SinkKind::TcpStream { encrypted: false }) => Write::Plain(bytes),
                (Some(bytes), SinkKind::Ws) => Write::Binary(bytes),
            }),
    {
        match encoded {
            Some(bytes) => match kind {
                SinkKind::TcpStream { encrypted } => if encrypted {
                    Write::Encrypted(bytes)
                } else {
                    Write::Plain(bytes)
                },
                SinkKind::Ws => Write::Binary(bytes),
            },
            None => Write::Nothing,
        }
    }
}

} // verus!
