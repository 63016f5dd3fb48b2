//! Connections of a relay server: what becomes of one, how two are paired, and what is
//! carried between them.
use vstd::prelude::*;

use crate::addr::{Addr, Ip};
use crate::message::{RendezvousMessage, RequestRelay, Union};
use crate::relay_server::server::Listener;
use crate::relay_server::stream::Stream;
use crate::relay_server::{RelayServer, RelayServerView, Usage};
use crate::text::{append_decimal, decimal_text};

verus! {

/// How long a connection has for its first message, and for its other end to come, in
/// milliseconds.
pub const PAIR_TIMEOUT: u64 = 30_000;

/// How long a command has to come in, in milliseconds.
pub const COMMAND_TIMEOUT: u64 = 1_000;

/// How many bytes of a command are read.
pub const COMMAND_SIZE: usize = 1024;

/// How often a relay looks whether it has fallen silent, in seconds.
pub const SILENCE_CHECK: u64 = 3;

/// How long a relay may be silent, in seconds.
pub const SILENCE: u64 = 30;

/// How often a relay settles its account, in milliseconds.
pub const SETTLE: usize = 1_000;

/// What the loop of a relay server does next.
#[derive(Clone, Copy, Debug, PartialEq, Eq, Structural)]
pub enum LoopStep {
    /// Take the connection.
    Handle { ws: bool },
    /// Listen anew everywhere.
    Restart,
}

/// One turn of the loop of a relay server: a connection came in at a listener, or none
/// could be accepted there.
#[verifier::allow_in_spec]
pub fn io_loop(listener: Listener, accepted: bool) -> LoopStep
    returns
        (if !accepted {
            LoopStep::Restart
        } else {
            LoopStep::Handle { ws: listener == Listener::Ws }
        }),
{
    if !accepted {
        return LoopStep::Restart;
    }
    match listener {
        Listener::Tcp => LoopStep::Handle { ws: false },
        Listener::Ws => LoopStep::Handle { ws: true },
        Listener::Console => LoopStep::Handle { ws: false },
    }
}

/// What becomes of a connection.
#[derive(Clone, Copy, Debug, PartialEq, Eq, Structural)]
pub enum ConnectionUse {
    /// Read a command from it.
    Command,
    /// Turn it away.
    Blocked,
    /// Look for its other end.
    Pair,
}

/// Where a connection comes from: a web socket from where a proxy claims, if that is an
/// address; any other from its remote end.
#[verifier::allow_in_spec]
pub fn make_pair(addr: Addr, ws: bool, claimed: Option<Addr>) -> Addr
    returns
        (match claimed {
            Some(claimed) if ws => claimed,
            _ => addr,
        }),
{
    match claimed {
        Some(claimed) => if ws {
            claimed
        } else {
            addr
        },
        None => addr,
    }
}

/// The name under which a relay keeps account: the address and the port of the
/// connection that completed it.
pub open spec fn relay_id(ip: Seq<char>, port: u16) -> Seq<char> {
    ip + seq![':'] + decimal_text(port as nat)
}

fn make_relay_id(ip: &str, port: u16) -> (id: String)
    ensures
        id@ == relay_id(ip@, port),
{
    proof {
        reveal_strlit(":");
        assert(":"@ =~= seq![':']);
    }
    let mut id = ip.to_owned().concat(":");
    append_decimal(&mut id, port);
    id
}

/// What the first message of a connection leads to.
#[derive(Debug)]
pub enum Pairing {
    /// Nothing: it is no request for a relay, or one without a session.
    Ignored,
    /// The connection ends: the request has the wrong key.
    BadKey,
    /// It has to wait for its other end.
    Park(String),
    /// Its other end was waiting; account is kept under a name. Both ends drop their
    /// framing if they are `raw`.
    Paired { peer: Stream, id: String, raw: bool },
}

pub enum PairingView {
    Ignored,
    BadKey,
    Park(Seq<char>),
    Paired { peer: Stream, id: Seq<char>, raw: bool },
}

impl View for Pairing {
    type V = PairingView;

    open spec fn view(&self) -> PairingView {
        match self {
            Pairing::Ignored => PairingView::Ignored,
            Pairing::BadKey => PairingView::BadKey,
            Pairing::Park(uuid) => PairingView::Park(uuid@),
            Pairing::Paired { peer, id, raw } => PairingView::Paired {
                peer: *peer,
                id: id@,
                raw: *raw,
            },
        }
    }
}

/// The session of a request that a server with a key takes.
pub open spec fn session(key: Seq<char>, first: Option<RendezvousMessage>) -> Option<Seq<char>> {
    match first {
        Some(RendezvousMessage { union: Some(Union::RequestRelay(rf)) }) if (key.len() == 0
            || rf.licence_key@ == key) && rf.uuid@.len() > 0 => Some(rf.uuid@),
        _ => None,
    }
}

/// A first message that asks for a relay with the wrong key.
pub open spec fn bad_key(key: Seq<char>, first: Option<RendezvousMessage>) -> bool {
    first matches Some(RendezvousMessage { union: Some(Union::RequestRelay(rf)) }) && key.len() > 0
        && rf.licence_key@ != key
}

impl RelayServerView {
    /// What becomes of a connection.
    pub open spec fn use_of(self, ip: Ip, ip_text: Seq<char>, ws: bool) -> ConnectionUse {
        if !ws && ip.is_loopback() {
            ConnectionUse::Command
        } else if self.blocklist.contains(ip_text) {
            ConnectionUse::Blocked
        } else {
            ConnectionUse::Pair
        }
    }

    /// The connection that waits for the other end of a session.
    pub open spec fn waiting(self, uuid: Seq<char>) -> Option<Stream> {
        if self.peers.dom().contains(uuid) {
            Some(self.peers[uuid])
        } else {
            None
        }
    }

    /// What the first message of a connection leads to.
    pub open spec fn on_first(
        self,
        stream: Stream,
        ip: Seq<char>,
        port: u16,
        first: Option<RendezvousMessage>,
    ) -> (RelayServerView, PairingView) {
        match session(self.key, first) {
            Some(uuid) => match self.waiting(uuid) {
                Some(peer) => (
                    self.paired(uuid, relay_id(ip, port)),
                    PairingView::Paired {
                        peer,
                        id: relay_id(ip, port),
                        raw: stream.both_raw(&peer),
                    },
                ),
                None => (self, PairingView::Park(uuid)),
            },
            None => (
                self,
                if bad_key(self.key, first) {
                    PairingView::BadKey
                } else {
                    PairingView::Ignored
                },
            ),
        }
    }

    /// The server once the other end of a session has come.
    pub open spec fn paired(self, uuid: Seq<char>, id: Seq<char>) -> RelayServerView {
        RelayServerView {
            peers: self.peers.remove(uuid),
            usage: self.usage.insert(
                id,
                Usage { elapsed: 0, total: 0, highest_speed: 0, speed: 0 },
            ),
            ..self
        }
    }

    /// The server with a connection that waits for the other end of its session.
    pub open spec fn parked(self, uuid: Seq<char>, stream: Stream) -> RelayServerView {
        RelayServerView { peers: self.peers.insert(uuid, stream), ..self }
    }

    /// The server without a connection that waits for the other end of a session.
    pub open spec fn unparked(self, uuid: Seq<char>) -> RelayServerView {
        RelayServerView { peers: self.peers.remove(uuid), ..self }
    }

    /// The server once a relay has ended.
    pub open spec fn finished(self, id: Seq<char>) -> RelayServerView {
        RelayServerView { usage: self.usage.remove(id), ..self }
    }
}

impl RelayServer {
    /// What becomes of a connection from `ip`, which `ip_text` spells.
    pub fn handle_connection(&self, ip: Ip, ip_text: &str, ws: bool) -> (purpose: ConnectionUse)
        ensures
            purpose == self@.use_of(ip, ip_text@, ws),
            purpose == (if !ws && ip.is_loopback() {
                ConnectionUse::Command
            } else if self@.blocklist.contains(ip_text@) {
                ConnectionUse::Blocked
            } else {
                ConnectionUse::Pair
            }),
    {
        if !ws && ip.is_loopback() {
            ConnectionUse::Command
        } else if self.blocklist.contains(ip_text) {
            ConnectionUse::Blocked
        } else {
            ConnectionUse::Pair
        }
    }

    /// Takes the first message of a connection, if one came in time and could be read.
    /// `ip` and `port` say where the connection comes from.
    pub fn make_pair_(
        &mut self,
        stream: Stream,
        ip: &str,
        port: u16,
        first: Option<RendezvousMessage>,
    ) -> (pairing: Pairing)
        ensures
            (final(self)@, pairing@) == old(self)@.on_first(stream, ip@, port, first),
            match session(old(self)@.key, first) {
                Some(uuid) => if old(self)@.peers.dom().contains(uuid) {
                    &&& final(self)@ == old(self)@.paired(uuid, relay_id(ip@, port))
                    &&& pairing matches Pairing::Paired { peer, id, raw }
                    &&& peer == old(self)@.peers[uuid]
                    &&& id@ == relay_id(ip@, port)
                    &&& raw == stream.both_raw(&peer)
                } else {
                    &&& final(self)@ == old(self)@
                    &&& pairing matches Pairing::Park(waiting)
                    &&& waiting@ == uuid
                },
                None => {
                    &&& final(self)@ == old(self)@
                    &&& pairing == (if bad_key(old(self)@.key, first) {
                        Pairing::BadKey
                    } else {
                        Pairing::Ignored
                    })
                },
            },
    {
        let rf: RequestRelay = match first {
            Some(RendezvousMessage { union: Some(Union::RequestRelay(rf)) }) => rf,
            _ => {
                return Pairing::Ignored;
            },
        };
        if !self.key.as_str().is_empty() && rf.licence_key != self.key {
            return Pairing::BadKey;
        }
        if rf.uuid.as_str().is_empty() {
            return Pairing::Ignored;
        }
        let waiting: Option<Stream> = match self.peers.get(rf.uuid.as_str()) {
            Some(peer) => Some(*peer),
            None => None,
        };
        match waiting {
            Some(peer) => {
                self.peers.remove(rf.uuid.as_str());
                let id = make_relay_id(ip, port);
                self.usage.insert(
                    id.clone(),
                    Usage { elapsed: 0, total: 0, highest_speed: 0, speed: 0 },
                );
                let raw = stream.both_raw(&peer);
                Pairing::Paired { peer, id, raw }
            },
            None => Pairing::Park(rf.uuid),
        }
    }

    /// Lets a connection wait for the other end of its session. What waited for it is
    /// dropped.
    pub fn park(&mut self, uuid: String, stream: Stream) -> (dropped: Option<Stream>)
        ensures
            final(self)@ == old(self)@.parked(uuid@, stream),
            dropped == old(self)@.waiting(uuid@),
            dropped == (if old(self)@.peers.dom().contains(uuid@) {
                Some(old(self)@.peers[uuid@])
            } else {
                None
            }),
    {
        let dropped = match self.peers.get(uuid.as_str()) {
            Some(waiting) => Some(*waiting),
            None => None,
        };
        self.peers.insert(uuid, stream);
        dropped
    }

    /// Ends the wait for the other end of a session. What still waits is dropped.
    pub fn unpark(&mut self, uuid: &str) -> (dropped: Option<Stream>)
        ensures
            final(self)@ == old(self)@.unparked(uuid@),
            dropped == old(self)@.waiting(uuid@),
            dropped == (if old(self)@.peers.dom().contains(uuid@) {
                Some(old(self)@.peers[uuid@])
            } else {
                None
            }),
    {
        let dropped = match self.peers.get(uuid) {
            Some(waiting) => Some(*waiting),
            None => None,
        };
        self.peers.remove(uuid);
        dropped
    }

    /// Closes the account of a relay that has ended.
    pub fn finish(&mut self, id: &str)
        ensures
            final(self)@ == old(self)@.finished(id@),
    {
        self.usage.remove(id);
    }
}

} // verus!
