//! What the server does with the messages of a connection.
//!
//! Where a message calls for something that only the surroundings can find out, the
//! handler stops and says what it needs ([`Next`]); the function that goes on takes the
//! answer.
use vstd::prelude::*;

use crate::addr::Remote;
use crate::message::{
    clone_texts, ConfigUpdate, ConfigUpdateView, RegisterPk, RegisterPkResult, RelayPeer,
    RelayPeerView, RelayResponse, RelayResponseView, RendezvousMessage, RequestRelay,
    RequestRelayView, Union, UnionView,
};
use crate::peer::{Peer, PeerView};
use crate::rendezvous_server::action::{
    actions, no_actions, push_action, push_release, push_send, released, sent, Action, ActionView,
};
use crate::rendezvous_server::laws::{
    after_one, comes_to, law_happenings_follow, lemma_nothing_happens, lemma_one_happens,
    lemma_recorded, Happening,
};
use crate::rendezvous_server::register::{
    byte_len, change_countable, change_id, changes_after, ip_admits, ip_after, ip_moved, opt_peer,
    reg_counted, registration, MIN_ID_LEN,
};
use crate::rendezvous_server::{
    lemma_apart_by_tables, lemma_filed, lemma_unfiled, Place, RendezvousServer, ServerView,
    REG_TIMEOUT,
};
use crate::time::{elapsed_millis, millis_since};

verus! {

/// A connection that a message came in by.
pub struct Connection {
    pub remote: Remote,
    /// The IP address of the remote end, as text.
    pub ip: String,
    /// The connection is a web socket.
    pub ws: bool,
    /// The IP address that a proxy reports for the remote end.
    pub forwarded_ip: Option<String>,
    /// The sink of the connection, as long as it is not filed anywhere.
    pub sink: Option<u64>,
    /// The id of the peer that registered by the connection.
    pub registered: Option<String>,
}

impl Connection {
    /// The sink of the connection is filed nowhere.
    pub open spec fn apart(&self, view: ServerView) -> bool {
        self.sink matches Some(sink) ==> !view.is_filed(sink)
    }

    /// The connection without its sink.
    pub open spec fn spent(self) -> Connection {
        Connection { sink: None, ..self }
    }

    /// The connection once the peer `id` has registered by it.
    pub open spec fn registered_as(self, id: String) -> Connection {
        Connection { sink: None, registered: Some(id), ..self }
    }

    /// The IP address that the remote end registers from.
    pub open spec fn reg_ip(&self) -> Seq<char> {
        match self.forwarded_ip {
            Some(ip) => ip@,
            None => self.ip@,
        }
    }

    /// Where the sink of a registered peer is filed.
    pub open spec fn home(&self) -> Place {
        if self.ws {
            Place::Ws(self.remote.key)
        } else {
            Place::Tcp(self.remote.key)
        }
    }
}

/// What comes next for a message.
#[allow(inconsistent_fields)]
pub enum Next {
    /// The message is done with; the connection is kept, or closed.
    Done { keep: bool },
    /// Have the request to punch a hole answered.
    PunchHole { request: Vec<u8> },
    /// Look up the peer that the relay request is for, in memory.
    FindRelayPeer { request: RequestRelay },
    /// Decode the address that the relay response is for.
    DecodeAddr { response: RelayResponse },
    /// Look up the public key of the peer that the relay response names.
    FindPk { response: RelayResponse, to: Remote },
    /// Find out whether the address is in the local network.
    IsLan { response: RelayResponse, to: Remote },
    /// Choose a relay server for both ends.
    ChooseRelay { response: RelayResponse, to: Remote },
    /// Have the report of a punched hole handled.
    HoleSent { report: Vec<u8> },
    /// Have the report of a local address handled.
    LocalAddr { report: Vec<u8> },
    /// Find out whether the id has the form of an id.
    CheckIdForm { rk: RegisterPk, ip: String },
    /// Look up the peer that has the id.
    FindIdOwner { rk: RegisterPk },
    /// Look up the peer that registers, or make it where there is none.
    FindPeerToRegister { rk: RegisterPk, ip: String },
    /// Look up the peer that reports, in memory.
    FindPeerToHear { id: String, serial: i32 },
    /// Look up when each peer was last heard, in memory.
    FindLastHeard { peers: Vec<String> },
}

impl ServerView {
    /// The update that a peer with an older configuration gets.
    pub open spec fn update_for(self, serial: i32) -> Option<ConfigUpdateView> {
        if self.inner.serial > serial {
            Some(
                ConfigUpdateView {
                    serial: self.inner.serial,
                    rendezvous_servers: self.rendezvous_servers,
                },
            )
        } else {
            None
        }
    }

    /// The sink for an answer on a connection: that of the peer which is registered at
    /// its address, or else the connection's own.
    pub open spec fn answer_sink(self, conn: Connection) -> Option<u64> {
        match self.persistent(conn.remote.key) {
            Some(sink) => Some(sink),
            None => conn.sink,
        }
    }

    /// The state with the sink of the connection, where it has one, filed at a place.
    pub open spec fn with_sink_at(self, conn: Connection, place: Place) -> ServerView {
        match conn.sink {
            Some(sink) => self.filed(place, sink),
            None => self,
        }
    }

    /// The sink that filing the connection's own at a place displaces.
    pub open spec fn displaced(self, conn: Connection, place: Place) -> Option<u64> {
        match conn.sink {
            Some(sink) => self.sink_at(place),
            None => None,
        }
    }
}

/// The peer was heard less than the timeout ago.
pub open spec fn is_online(last_heard: Option<u64>, now: u64) -> bool {
    last_heard matches Some(then) && elapsed_millis(then, now) < REG_TIMEOUT
}

/// Bit `i` of a bit string, counted from the high end of its first byte.
pub open spec fn bit_at(bits: Seq<u8>, i: int) -> bool {
    (bits[i / 8] >> ((7 - i % 8) as u8)) & 1 == 1
}

/// `states` tells for each peer whether it is online: a bit for each, in order, and
/// zeros to fill the last byte.
pub open spec fn tells_online(states: Seq<u8>, last_heard: Seq<Option<u64>>, now: u64) -> bool {
    &&& states.len() == (last_heard.len() + 7) / 8
    &&& forall|i: int|
        0 <= i < 8 * states.len() ==> (#[trigger] bit_at(states, i) <==> (i < last_heard.len()
            && is_online(last_heard[i], now)))
}

proof fn lemma_set_bit(byte: u8, set: u8, bit: u8)
    by (bit_vector)
    requires
        set < 8,
        bit < 8,
    ensures
        ((byte | (1u8 << set)) >> bit) & 1 == 1 <==> set == bit || (byte >> bit) & 1 == 1,
{
}

proof fn lemma_zero_bit(bit: u8)
    by (bit_vector)
    requires
        bit < 8,
    ensures
        (0u8 >> bit) & 1 == 0,
{
}

/// Tells for each peer whether it is online, given when it was last heard.
pub fn online_states(last_heard: &Vec<Option<u64>>, now: u64) -> (states: Vec<u8>)
    ensures
        tells_online(states@, last_heard@, now),
{
    let n: usize = last_heard.len();
    let len: usize = n / 8 + if n % 8 == 0 { 0 } else { 1 };
    let mut states: Vec<u8> = vec![0u8; len];
    assert forall|j: int| 0 <= j < 8 * states.len() implies !bit_at(states@, j) by {
        lemma_zero_bit((7 - j % 8) as u8);
    }
    let mut i: usize = 0;
    while i < n
        invariant
            n == last_heard.len(),
            i <= n,
            states.len() == (n + 7) / 8,
            forall|j: int|
                0 <= j < 8 * states.len() ==> (#[trigger] bit_at(states@, j) <==> (j < i
                    && is_online(last_heard[j], now))),
        decreases n - i,
    {
        let ghost before = states@;
        let bit: u8 = 7 - (i % 8) as u8;
        let online = match last_heard[i] {
            Some(then) => millis_since(then, now) < REG_TIMEOUT,
            None => false,
        };
        if online {
            states.set(i / 8, states[i / 8] | (1u8 << bit));
        }
        assert forall|j: int| 0 <= j < 8 * states.len() implies (#[trigger] bit_at(states@, j)
            <==> (j < i + 1 && is_online(last_heard[j], now))) by {
            assert(bit_at(before, j) <==> (j < i && is_online(last_heard[j], now)));
            if online && j / 8 == i as int / 8 {
                lemma_set_bit(before[j / 8], bit, (7 - j % 8) as u8);
            }
        }
        i = i + 1;
    }
    states
}

/// What comes next for a message that asks for nothing at once.
pub open spec fn plain_next(parsed: Option<RendezvousMessage>) -> Next {
    match parsed {
        Some(RendezvousMessage { union: Some(union) }) => match union {
            Union::RelayResponse(response) => Next::DecodeAddr { response },
            Union::PunchHoleSent(report) => Next::HoleSent { report },
            Union::LocalAddr(report) => Next::LocalAddr { report },
            Union::RegisterPeer { id, serial } => if id@.len() == 0 {
                Next::Done { keep: true }
            } else {
                Next::FindPeerToHear { id, serial }
            },
            Union::OnlineRequest { peers } => Next::FindLastHeard { peers },
            _ => Next::Done { keep: false },
        },
        _ => Next::Done { keep: false },
    }
}

/// The response that tells how a registration ended.
pub open spec fn pk_response(result: RegisterPkResult) -> Option<UnionView> {
    Some(UnionView::RegisterPkResponse { result })
}

/// What becomes of a message that asks for something at once: the server and the connection
/// after it, what is done, and what comes next.
pub open spec fn handled(
    view: ServerView,
    conn: Connection,
    parsed: Option<RendezvousMessage>,
    now: u64,
    after: ServerView,
    open: Connection,
    done: Seq<ActionView>,
    next: Next,
) -> bool {
    let punch = Place::Punch(conn.remote.key);
    match parsed {
        Some(RendezvousMessage { union: Some(Union::PunchHoleRequest(request)) }) => {
            &&& after == view.with_sink_at(conn, punch)
            &&& open == conn.spent()
            &&& done == released(view.displaced(conn, punch))
            &&& next == Next::PunchHole { request }
        },
        Some(RendezvousMessage { union: Some(Union::RequestRelay(request)) }) => {
            &&& after == view.with_sink_at(conn, punch)
            &&& open == conn.spent()
            &&& done == released(view.displaced(conn, punch))
            &&& next == Next::FindRelayPeer { request }
        },
        Some(RendezvousMessage { union: Some(Union::RegisterPk(rk)) }) => {
            &&& open == conn
            &&& if rk.uuid@.len() == 0 {
                after == view && done.len() == 0 && next == Next::Done { keep: false }
            } else if rk.pk@.len() == 0 {
                &&& after == view
                &&& done.len() == 0
                &&& next matches Next::CheckIdForm { rk: to_check, ip }
                &&& to_check == rk
                &&& ip@ == conn.reg_ip()
            } else if byte_len(rk.id@) < MIN_ID_LEN {
                &&& after == view
                &&& done == sent(conn.sink, pk_response(RegisterPkResult::UuidMismatch))
                &&& next == Next::Done { keep: false }
            } else {
                &&& after == ServerView {
                    ip_blocker: ip_after(
                        view.ip_blocker,
                        conn.reg_ip(),
                        rk.id@,
                        now,
                        view.limits,
                    ),
                    ..view
                }
                &&& if ip_admits(view.ip_blocker, conn.reg_ip(), rk.id@, now, view.limits) {
                    &&& done.len() == 0
                    &&& next matches Next::FindPeerToRegister { rk: to_register, ip }
                    &&& to_register == rk
                    &&& ip@ == conn.reg_ip()
                } else {
                    &&& done == sent(conn.sink, pk_response(RegisterPkResult::TooFrequent))
                    &&& next == Next::Done { keep: false }
                }
            }
        },
        Some(RendezvousMessage { union: Some(Union::TestNatRequest { serial }) }) => {
            &&& after == view
            &&& open == conn
            &&& done == sent(
                view.answer_sink(conn),
                Some(
                    UnionView::TestNatResponse {
                        port: conn.remote.addr.port() as i32,
                        cu: view.update_for(serial),
                    },
                ),
            )
            &&& next == Next::Done { keep: false }
        },
        _ => after == view && open == conn && done.len() == 0 && next == plain_next(parsed),
    }
}

impl Connection {
    /// The IP address that the remote end registers from.
    fn registering_ip(&self) -> (ip: String)
        ensures
            ip@ == self.reg_ip(),
    {
        match &self.forwarded_ip {
            Some(ip) => ip.clone(),
            None => self.ip.clone(),
        }
    }
}

impl RendezvousServer {
    /// Files the sink of the connection, where it still has one, among those that wait
    /// for one answer.
    fn park_sink(&mut self, conn: &mut Connection) -> (list: Vec<Action>)
        requires
            old(self).wf(),
            old(conn).apart(old(self)@),
        ensures
            final(self).wf(),
            final(self)@ == old(self)@.with_sink_at(
                *old(conn),
                Place::Punch(old(conn).remote.key),
            ),
            *final(conn) == old(conn).spent(),
            actions(list@) == released(
                old(self)@.displaced(*old(conn), Place::Punch(old(conn).remote.key)),
            ),
    {
        let mut list = no_actions();
        if let Some(sink) = conn.sink.take() {
            let displaced = self.tcp_punch.insert(conn.remote.key, sink);
            push_release(&mut list, displaced);
            proof {
                lemma_filed(old(self)@, Place::Punch(conn.remote.key), sink);
                assert(self@ == old(self)@.filed(Place::Punch(conn.remote.key), sink));
            }
        }
        assert(actions(list@) =~= released(
            old(self)@.displaced(*old(conn), Place::Punch(old(conn).remote.key)),
        ));
        list
    }

    /// Files the sink of the connection, where it still has one, as that of the peer
    /// which is registered at its address.
    fn settle_sink(&mut self, conn: &mut Connection, list: &mut Vec<Action>)
        requires
            old(self).wf(),
            old(conn).apart(old(self)@),
        ensures
            final(self).wf(),
            final(self)@ == old(self)@.with_sink_at(*old(conn), old(conn).home()),
            *final(conn) == old(conn).spent(),
            actions(final(list)@) == actions(old(list)@) + released(
                old(self)@.displaced(*old(conn), old(conn).home()),
            ),
    {
        if let Some(sink) = conn.sink.take() {
            let displaced = if conn.ws {
                self.ws_map.insert(conn.remote.key, sink)
            } else {
                self.tcp_map.insert(conn.remote.key, sink)
            };
            push_release(list, displaced);
            proof {
                lemma_filed(old(self)@, old(conn).home(), sink);
                assert(self@ == old(self)@.filed(old(conn).home(), sink));
            }
        }
        assert(actions(list@) =~= actions(old(list)@) + released(
            old(self)@.displaced(*old(conn), old(conn).home()),
        ));
    }

    /// The update for a peer whose configuration has this serial number.
    fn config_update(&self, serial: i32) -> (update: Option<ConfigUpdate>)
        ensures
            match update {
                Some(cu) => self@.update_for(serial) == Some(cu@),
                None => self@.update_for(serial) is None,
            },
    {
        if self.inner.serial > serial {
            Some(
                ConfigUpdate {
                    serial: self.inner.serial,
                    rendezvous_servers: clone_texts(&self.rendezvous_servers),
                },
            )
        } else {
            None
        }
    }

    /// Answers on a connection.
    fn answer(&self, message: RendezvousMessage, conn: &Connection) -> (list: Vec<Action>)
        requires
            self.wf(),
        ensures
            actions(list@) == sent(self@.answer_sink(*conn), message@),
    {
        let mut list = no_actions();
        let sink = match self.persistent_sink(conn.remote.key) {
            Some(sink) => Some(sink),
            None => conn.sink,
        };
        push_send(&mut list, sink, message);
        assert(actions(list@) =~= sent(sink, message@));
        list
    }

    /// Takes a message that came in by a connection. `parsed` is nothing where the
    /// bytes spell no message.
    pub fn handle_tcp(
        &mut self,
        parsed: Option<RendezvousMessage>,
        conn: &mut Connection,
        now: u64,
    ) -> (r: (Vec<Action>, Next))
        requires
            old(self).wf(),
            old(conn).apart(old(self)@),
        ensures
            final(self).wf(),
            final(conn).apart(final(self)@),
            comes_to(old(self)@, *old(conn), final(self)@, *final(conn)),
            handled(
                old(self)@,
                *old(conn),
                parsed,
                now,
                final(self)@,
                *final(conn),
                actions(r.0@),
                r.1,
            ),
            match parsed {
                Some(RendezvousMessage { union: Some(Union::PunchHoleRequest(request)) }) => {
                    let place = Place::Punch(old(conn).remote.key);
                    &&& final(self)@ == old(self)@.with_sink_at(*old(conn), place)
                    &&& *final(conn) == old(conn).spent()
                    &&& actions(r.0@) == released(old(self)@.displaced(*old(conn), place))
                    &&& r.1 == Next::PunchHole { request }
                },
                Some(RendezvousMessage { union: Some(Union::RequestRelay(request)) }) => {
                    let place = Place::Punch(old(conn).remote.key);
                    &&& final(self)@ == old(self)@.with_sink_at(*old(conn), place)
                    &&& *final(conn) == old(conn).spent()
                    &&& actions(r.0@) == released(old(self)@.displaced(*old(conn), place))
                    &&& r.1 == Next::FindRelayPeer { request }
                },
                Some(RendezvousMessage { union: Some(Union::RegisterPk(rk)) }) => {
                    &&& *final(conn) == *old(conn)
                    &&& rk.uuid@.len() == 0 ==> {
                        &&& final(self)@ == old(self)@
                        &&& r.0@.len() == 0
                        &&& r.1 == Next::Done { keep: false }
                    }
                    &&& rk.uuid@.len() > 0 && rk.pk@.len() == 0 ==> {
                        &&& final(self)@ == old(self)@
                        &&& r.0@.len() == 0
                        &&& r.1 matches Next::CheckIdForm { rk: to_check, ip }
                        &&& to_check == rk
                        &&& ip@ == old(conn).reg_ip()
                    }
                    &&& rk.uuid@.len() > 0 && rk.pk@.len() > 0 ==> {
                        let long = byte_len(rk.id@) >= MIN_ID_LEN;
                        let passes = ip_admits(
                            old(self)@.ip_blocker,
                            old(conn).reg_ip(),
                            rk.id@,
                            now,
                            old(self).limits,
                        );
                        &&& final(self)@ == (if long {
                            ServerView {
                                ip_blocker: ip_after(
                                    old(self)@.ip_blocker,
                                    old(conn).reg_ip(),
                                    rk.id@,
                                    now,
                                    old(self).limits,
                                ),
                                ..old(self)@
                            }
                        } else {
                            old(self)@
                        })
                        &&& !long ==> {
                            &&& actions(r.0@) == sent(
                                old(conn).sink,
                                pk_response(RegisterPkResult::UuidMismatch),
                            )
                            &&& r.1 == Next::Done { keep: false }
                        }
                        &&& long && !passes ==> {
                            &&& actions(r.0@) == sent(
                                old(conn).sink,
                                pk_response(RegisterPkResult::TooFrequent),
                            )
                            &&& r.1 == Next::Done { keep: false }
                        }
                        &&& long && passes ==> {
                            &&& r.0@.len() == 0
                            &&& r.1 matches Next::FindPeerToRegister { rk: to_register, ip }
                            &&& to_register == rk
                            &&& ip@ == old(conn).reg_ip()
                        }
                    }
                },
                Some(RendezvousMessage { union: Some(Union::TestNatRequest { serial }) }) => {
                    &&& final(self)@ == old(self)@
                    &&& *final(conn) == *old(conn)
                    &&& actions(r.0@) == sent(
                        old(self)@.answer_sink(*old(conn)),
                        Some(
                            UnionView::TestNatResponse {
                                port: old(conn).remote.addr.port() as i32,
                                cu: old(self)@.update_for(serial),
                            },
                        ),
                    )
                    &&& r.1 == Next::Done { keep: false }
                },
                _ => {
                    &&& final(self)@ == old(self)@
                    &&& *final(conn) == *old(conn)
                    &&& r.0@.len() == 0
                    &&& r.1 == plain_next(parsed)
                },
            },
    {
        let union = match parsed {
            Some(message) => message.union,
            None => None,
        };
        proof {
            lemma_nothing_happens(old(self)@, *old(conn));
            lemma_one_happens(old(self)@, *old(conn), Happening::Asked);
        }
        match union {
            Some(Union::PunchHoleRequest(request)) => {
                // several attempts may come in by one connection, so it may have no sink
                let list = self.park_sink(conn);
                (list, Next::PunchHole { request })
            },
            Some(Union::RequestRelay(request)) => {
                let list = self.park_sink(conn);
                (list, Next::FindRelayPeer { request })
            },
            Some(Union::RelayResponse(response)) => {
                (Vec::new(), Next::DecodeAddr { response })
            },
            Some(Union::PunchHoleSent(report)) => (Vec::new(), Next::HoleSent { report }),
            Some(Union::LocalAddr(report)) => (Vec::new(), Next::LocalAddr { report }),
            Some(Union::TestNatRequest { serial }) => {
                let message = RendezvousMessage::of(
                    Union::TestNatResponse {
                        port: conn.remote.addr.port() as i32,
                        cu: self.config_update(serial),
                    },
                );
                (self.answer(message, conn), Next::Done { keep: false })
            },
            Some(Union::RegisterPk(rk)) => {
                if rk.uuid.is_empty() {
                    return (Vec::new(), Next::Done { keep: false });
                }
                let ip = conn.registering_ip();
                if rk.pk.is_empty() {
                    return (Vec::new(), Next::CheckIdForm { rk, ip });
                }
                match self.admit_register_pk(rk.id.as_str(), ip.as_str(), now) {
                    Ok(()) => {
                        proof {
                            lemma_apart_by_tables(old(self)@, self@);
                            lemma_recorded(old(self)@, *conn, self@);
                        }
                        (Vec::new(), Next::FindPeerToRegister { rk, ip })
                    },
                    Err(result) => {
                        proof {
                            lemma_apart_by_tables(old(self)@, self@);
                            lemma_recorded(old(self)@, *conn, self@);
                        }
                        (Self::pk_answer(result, conn), Next::Done { keep: false })
                    },
                }
            },
            Some(Union::RegisterPeer { id, serial }) => {
                if id.as_str().is_empty() {
                    (Vec::new(), Next::Done { keep: true })
                } else {
                    (Vec::new(), Next::FindPeerToHear { id, serial })
                }
            },
            Some(Union::OnlineRequest { peers }) => (Vec::new(), Next::FindLastHeard { peers }),
            _ => (Vec::new(), Next::Done { keep: false }),
        }
    }

    /// Tells by the connection's own sink how a registration ended.
    fn pk_answer(result: RegisterPkResult, conn: &Connection) -> (list: Vec<Action>)
        ensures
            actions(list@) == sent(conn.sink, pk_response(result)),
    {
        let mut list = no_actions();
        push_send(&mut list, conn.sink, Self::make_register_pk_response(result));
        assert(actions(list@) =~= sent(conn.sink, pk_response(result)));
        list
    }
}

impl RelayPeerView {
    /// The id by which the peer is named; empty where it is not named by one.
    pub open spec fn id(self) -> Seq<char> {
        match self {
            RelayPeerView::Id(id) => id,
            _ => Seq::empty(),
        }
    }
}

/// The peer reports from another address than before. An address of the loopback network
/// is no other address.
pub open spec fn moved_away(peer: PeerView, conn: Connection) -> bool {
    let ip = conn.remote.addr.ip();
    &&& !ip.is_loopback()
    &&& if peer.socket_addr.addr.port() != 0 {
        ip != peer.socket_addr.addr.ip()
    } else {
        conn.ip@ != peer.ip
    }
}

/// The peer has to register its key before it is heard: the server has none of it, or the
/// peer reports from another address than before.
pub open spec fn must_register(peer: PeerView, conn: Connection) -> bool {
    peer.pk.len() == 0 || moved_away(peer, conn)
}

/// What becomes of the answer to a request to punch a hole.
pub open spec fn punch_answered(
    view: ServerView,
    answer: Option<(RendezvousMessage, Option<Remote>)>,
    from: Remote,
) -> (ServerView, Seq<ActionView>) {
    match answer {
        Some((message, Some(peer))) => (view, seq![view.to_peer(peer, message@)]),
        Some((message, None)) => view.to_tcp(from, message@),
        None => (view, seq![]),
    }
}

/// A relay response goes on to `to`, without the address that it carried.
pub open spec fn addressed(response: RelayResponseView, to: Remote, next: Next) -> bool {
    let stripped = RelayResponseView { socket_addr: Seq::empty(), ..response };
    if response.peer.id().len() > 0 {
        &&& next matches Next::FindPk { response: then, to: same }
        &&& then@ == stripped
        &&& same == to
    } else {
        &&& next matches Next::IsLan { response: then, to: same }
        &&& then@ == stripped
        &&& same == to
    }
}

/// A relay response with the key of the peer that it names.
pub open spec fn with_key(response: RelayResponseView, pk: Seq<u8>) -> RelayResponseView {
    RelayResponseView { peer: RelayPeerView::Pk(pk), ..response }
}

/// A relay response with a relay server.
pub open spec fn with_relay(
    response: RelayResponseView,
    relay_server: Seq<char>,
) -> RelayResponseView {
    RelayResponseView { relay_server, ..response }
}

/// What becomes of the check that an id is free, once its form is known.
pub open spec fn id_asked(
    view: ServerView,
    conn: Connection,
    rk: RegisterPk,
    ip: Seq<char>,
    id_is_valid: bool,
    now: u64,
    after: ServerView,
    done: Seq<ActionView>,
    next: Next,
) -> bool {
    if !id_is_valid {
        &&& after == view
        &&& done == sent(conn.sink, pk_response(RegisterPkResult::InvalidIdFormat))
        &&& next == Next::Done { keep: false }
    } else {
        &&& after == ServerView {
            ip_blocker: ip_after(view.ip_blocker, ip, rk.id@, now, view.limits),
            ..view
        }
        &&& if ip_admits(view.ip_blocker, ip, rk.id@, now, view.limits) {
            done.len() == 0 && next == Next::FindIdOwner { rk }
        } else {
            &&& done == sent(conn.sink, pk_response(RegisterPkResult::TooFrequent))
            &&& next == Next::Done { keep: false }
        }
    }
}

/// The answer to whether an id is free.
pub open spec fn id_answer(
    conn: Connection,
    owner: Option<PeerView>,
    uuid: Seq<u8>,
) -> Seq<ActionView> {
    sent(conn.sink, pk_response(change_id(owner, uuid)))
}

/// The question who is online is answered.
pub open spec fn online_answered(
    view: ServerView,
    conn: Connection,
    last_heard: Seq<Option<u64>>,
    now: u64,
    done: Seq<ActionView>,
) -> bool {
    exists|states: Seq<u8>|
        tells_online(states, last_heard, now) && done == #[trigger] sent(
            view.answer_sink(conn),
            Some(UnionView::OnlineResponse { states }),
        )
}

/// What is done when a peer reports.
pub open spec fn hear_actions(
    view: ServerView,
    id: Seq<char>,
    serial: i32,
    peer: Option<PeerView>,
    conn: Connection,
    now: u64,
) -> Seq<ActionView> {
    match peer {
        Some(peer) => if must_register(peer, conn) {
            seq![]
        } else {
            seq![ActionView::HearPeer { id, addr: conn.remote, now }]
        },
        None => welcome(view, serial, conn.sink),
    }
}

/// What is done when a request for a relay is for a peer.
pub open spec fn request_actions(
    view: ServerView,
    request: RequestRelayView,
    encoded_addr: Seq<u8>,
    peer: Option<PeerView>,
) -> Seq<ActionView> {
    match peer {
        Some(peer) => seq![
            view.to_peer(
                peer.socket_addr,
                Some(
                    UnionView::RequestRelay(
                        RequestRelayView { socket_addr: encoded_addr, ..request },
                    ),
                ),
            ),
        ],
        None => seq![],
    }
}

/// The relay response that goes out to an end that is in the local network or not, unless
/// a relay server has to be chosen for both ends first.
pub open spec fn lan_response(
    response: RelayResponseView,
    local_ip: Seq<char>,
    is_lan: bool,
) -> Option<RelayResponseView> {
    if response.relay_server.len() == 0 {
        Some(response)
    } else if is_lan {
        Some(RelayResponseView { relay_server: local_ip, ..response })
    } else if response.relay_server == local_ip {
        None
    } else {
        Some(response)
    }
}

/// How a registration ends for the server, the connection and the peer, and what is done.
pub open spec fn registered_by(
    view: ServerView,
    conn: Connection,
    peer: PeerView,
    rk: RegisterPk,
    ip: Seq<char>,
    now: u64,
    after: ServerView,
    open: Connection,
    then: PeerView,
    done: Seq<ActionView>,
    next: Next,
) -> bool {
    match registration(peer, rk.uuid@, rk.pk@, ip, now) {
        Err(result) => {
            &&& after == view
            &&& open == conn
            &&& then == peer
            &&& done == sent(conn.sink, pk_response(result))
            &&& next == Next::Done { keep: false }
        },
        Ok((changed, ip_changed)) => {
            let noted = if ip_changed {
                ServerView {
                    ip_changes: changes_after(view.ip_changes, rk.id@, ip, now, view.limits),
                    ..view
                }
            } else {
                view
            };
            let update = ActionView::UpdatePk {
                id: rk.id@,
                addr: conn.remote,
                uuid: rk.uuid@,
                pk: rk.pk@,
                ip,
            };
            &&& after == noted.with_sink_at(conn, conn.home())
            &&& open == conn.registered_as(rk.id)
            &&& then == reg_counted(peer, now)
            &&& done == (if changed || conn.ws {
                seq![update]
            } else {
                seq![]
            }) + seq![ActionView::HearPeer { id: rk.id@, addr: conn.remote, now }] + sent(
                conn.sink,
                pk_response(RegisterPkResult::Accepted),
            ) + released(view.displaced(conn, conn.home()))
            &&& next == Next::Done { keep: true }
        },
    }
}

/// What a peer that is not in memory is told: to register its key, and the
/// configuration where its own is older.
pub open spec fn welcome(view: ServerView, serial: i32, sink: Option<u64>) -> Seq<ActionView> {
    sent(sink, Some(UnionView::RegisterPeerResponse { request_pk: true })) + match view.update_for(
        serial,
    ) {
        Some(cu) => sent(sink, Some(UnionView::ConfigureUpdate(cu))),
        None => seq![],
    }
}

impl RendezvousServer {
    /// Sends the answer to a request to punch a hole: to a peer, or back to where the
    /// request came from.
    pub fn handle_tcp_punch_hole_request(
        &mut self,
        message: RendezvousMessage,
        to: Option<Remote>,
        from: Remote,
    ) -> (list: Vec<Action>)
        requires
            old(self).wf(),
        ensures
            final(self).wf(),
            (final(self)@, actions(list@)) == punch_answered(old(self)@, Some((message, to)), from),
            (final(self)@, actions(list@)) == match to {
                Some(peer) => (old(self)@, seq![old(self)@.to_peer(peer, message@)]),
                None => old(self)@.to_tcp(from, message@),
            },
    {
        match to {
            Some(peer) => {
                let mut list = no_actions();
                push_action(&mut list, self.send_to_peer(message, peer));
                assert(actions(list@) =~= seq![old(self)@.to_peer(peer, message@)]);
                list
            },
            None => self.send_to_tcp(message, from),
        }
    }

    /// Goes on after [`Next::PunchHole`]; `answer` is nothing where the request failed.
    pub fn resume_punch_hole(
        &mut self,
        answer: Option<(RendezvousMessage, Option<Remote>)>,
        conn: &Connection,
    ) -> (r: (Vec<Action>, Next))
        requires
            old(self).wf(),
            conn.apart(old(self)@),
        ensures
            final(self).wf(),
            conn.apart(final(self)@),
            comes_to(old(self)@, *conn, final(self)@, *conn),
            r.1 == (Next::Done { keep: true }),
            (final(self)@, actions(r.0@)) == punch_answered(old(self)@, answer, conn.remote),
            (final(self)@, actions(r.0@)) == match answer {
                Some((message, Some(peer))) => (
                    old(self)@,
                    seq![old(self)@.to_peer(peer, message@)],
                ),
                Some((message, None)) => old(self)@.to_tcp(conn.remote, message@),
                None => (old(self)@, seq![]),
            },
    {
        proof { lemma_nothing_happens(old(self)@, *conn); }
        let list = match answer {
            Some((message, to)) => {
                proof {
                    lemma_one_happens(
                        old(self)@,
                        *conn,
                        Happening::Sent { to: conn.remote, message: message@ },
                    );
                }
                let list = self.handle_tcp_punch_hole_request(message, to, conn.remote);
                proof { lemma_unfiled(old(self)@, Place::Punch(conn.remote.key)); }
                list
            },
            None => no_actions(),
        };
        (list, Next::Done { keep: true })
    }

    /// Goes on after [`Next::FindRelayPeer`]: the request goes on to the peer, with the
    /// encoded address of the connection.
    pub fn resume_relay_request(
        &self,
        request: RequestRelay,
        encoded_addr: Vec<u8>,
        peer: Option<&Peer>,
    ) -> (r: (Vec<Action>, Next))
        requires
            self.wf(),
        ensures
            r.1 == (Next::Done { keep: true }),
            actions(r.0@) == request_actions(self@, request@, encoded_addr@, opt_peer(peer)),
            actions(r.0@) == match peer {
                Some(peer) => seq![
                    self@.to_peer(
                        peer.socket_addr,
                        Some(
                            UnionView::RequestRelay(
                                RequestRelayView { socket_addr: encoded_addr@, ..request@ },
                            ),
                        ),
                    ),
                ],
                None => seq![],
            },
    {
        let mut list = no_actions();
        if let Some(peer) = peer {
            let mut request = request;
            request.socket_addr = encoded_addr;
            let message = RendezvousMessage::of(Union::RequestRelay(request));
            push_action(&mut list, self.send_to_peer(message, peer.socket_addr));
            assert(actions(list@) =~= seq![self@.to_peer(peer.socket_addr, message@)]);
        }
        (list, Next::Done { keep: true })
    }

    /// Goes on after [`Next::DecodeAddr`]: the response is for `to`, and will not carry
    /// the address any more.
    pub fn resume_relay_addr(response: RelayResponse, to: Remote) -> (next: Next)
        ensures
            addressed(response@, to, next),
            ({
                let stripped = RelayResponseView { socket_addr: Seq::empty(), ..response@ };
                if response@.peer.id().len() > 0 {
                    &&& next matches Next::FindPk { response, to: same }
                    &&& response@ == stripped
                    &&& same == to
                } else {
                    &&& next matches Next::IsLan { response, to: same }
                    &&& response@ == stripped
                    &&& same == to
                }
            }),
    {
        let mut response = response;
        response.socket_addr = Vec::new();
        let named = match &response.peer {
            RelayPeer::Id(id) => !id.as_str().is_empty(),
            _ => false,
        };
        if named {
            Next::FindPk { response, to }
        } else {
            Next::IsLan { response, to }
        }
    }

    /// Goes on after [`Next::FindPk`]: the response names the peer by its key.
    pub fn resume_relay_pk(response: RelayResponse, to: Remote, pk: Vec<u8>) -> (next: Next)
        ensures
            next matches Next::IsLan { response: named, to: same } && same == to && named@
                == with_key(response@, pk@),
            next matches Next::IsLan { response: named, to: same } && same == to && named@ == (
            RelayResponseView { peer: RelayPeerView::Pk(pk@), ..response@ }),
    {
        let mut response = response;
        response.peer = RelayPeer::Pk(pk);
        Next::IsLan { response, to }
    }

    /// Sends a relay response on.
    fn send_relay_response(&mut self, response: RelayResponse, to: Remote) -> (r: (
        Vec<Action>,
        Next,
    ))
        requires
            old(self).wf(),
        ensures
            final(self).wf(),
            (final(self)@, actions(r.0@)) == old(self)@.to_tcp(
                to,
                Some(UnionView::RelayResponse(response@)),
            ),
            r.1 == (Next::Done { keep: false }),
    {
        let message = RendezvousMessage::of(Union::RelayResponse(response));
        (self.send_to_tcp(message, to), Next::Done { keep: false })
    }

    /// Goes on after [`Next::IsLan`]. An end in the local network gets the local address
    /// as the relay server; another end that would get it gets one that is chosen for
    /// both ends.
    pub fn resume_relay_lan(&mut self, response: RelayResponse, to: Remote, is_lan: bool) -> (r: (
        Vec<Action>,
        Next,
    ))
        requires
            old(self).wf(),
        ensures
            final(self).wf(),
            match lan_response(response@, old(self).inner.local_ip@, is_lan) {
                Some(sent_on) => (final(self)@, actions(r.0@)) == old(self)@.to_tcp(
                    to,
                    Some(UnionView::RelayResponse(sent_on)),
                ) && r.1 == (Next::Done { keep: false }),
                None => final(self)@ == old(self)@ && r.0@.len() == 0 && r.1 == (Next::ChooseRelay {
                    response,
                    to,
                }),
            },
            ({
                let named = response@.relay_server.len() > 0;
                let local = old(self).inner.local_ip@;
                if named && !is_lan && response@.relay_server == local {
                    &&& final(self)@ == old(self)@
                    &&& r.0@.len() == 0
                    &&& r.1 == Next::ChooseRelay { response, to }
                } else {
                    &&& (final(self)@, actions(r.0@)) == old(self)@.to_tcp(
                        to,
                        Some(
                            UnionView::RelayResponse(
                                if named && is_lan {
                                    RelayResponseView { relay_server: local, ..response@ }
                                } else {
                                    response@
                                },
                            ),
                        ),
                    )
                    &&& r.1 == Next::Done { keep: false }
                }
            }),
    {
        let mut response = response;
        if !response.relay_server.as_str().is_empty() {
            if is_lan {
                response.relay_server = self.inner.local_ip.clone();
            } else if response.relay_server == self.inner.local_ip {
                return (Vec::new(), Next::ChooseRelay { response, to });
            }
        }
        self.send_relay_response(response, to)
    }

    /// Goes on after [`Next::ChooseRelay`].
    pub fn resume_relay_choice(
        &mut self,
        response: RelayResponse,
        to: Remote,
        relay_server: String,
    ) -> (r: (Vec<Action>, Next))
        requires
            old(self).wf(),
        ensures
            final(self).wf(),
            (final(self)@, actions(r.0@)) == old(self)@.to_tcp(
                to,
                Some(UnionView::RelayResponse(with_relay(response@, relay_server@))),
            ),
            (final(self)@, actions(r.0@)) == old(self)@.to_tcp(
                to,
                Some(
                    UnionView::RelayResponse(
                        RelayResponseView { relay_server: relay_server@, ..response@ },
                    ),
                ),
            ),
            r.1 == (Next::Done { keep: false }),
    {
        let mut response = response;
        response.relay_server = relay_server;
        self.send_relay_response(response, to)
    }

    /// Goes on after [`Next::HoleSent`] and [`Next::LocalAddr`].
    pub fn resume_report() -> (next: Next)
        ensures
            next == (Next::Done { keep: false }),
    {
        Next::Done { keep: false }
    }

    /// Goes on after [`Next::CheckIdForm`].
    pub fn resume_id_form(
        &mut self,
        rk: RegisterPk,
        ip: String,
        id_is_valid: bool,
        conn: &Connection,
        now: u64,
    ) -> (r: (Vec<Action>, Next))
        requires
            old(self).wf(),
            conn.apart(old(self)@),
        ensures
            final(self).wf(),
            conn.apart(final(self)@),
            comes_to(old(self)@, *conn, final(self)@, *conn),
            id_asked(
                old(self)@,
                *conn,
                rk,
                ip@,
                id_is_valid,
                now,
                final(self)@,
                actions(r.0@),
                r.1,
            ),
            !id_is_valid ==> {
                &&& final(self)@ == old(self)@
                &&& actions(r.0@) == sent(
                    conn.sink,
                    pk_response(RegisterPkResult::InvalidIdFormat),
                )
                &&& r.1 == Next::Done { keep: false }
            },
            id_is_valid ==> {
                &&& final(self)@ == (ServerView {
                    ip_blocker: ip_after(
                        old(self)@.ip_blocker,
                        ip@,
                        rk.id@,
                        now,
                        old(self).limits,
                    ),
                    ..old(self)@
                })
                &&& if ip_admits(old(self)@.ip_blocker, ip@, rk.id@, now, old(self).limits) {
                    r.0@.len() == 0 && r.1 == Next::FindIdOwner { rk }
                } else {
                    &&& actions(r.0@) == sent(
                        conn.sink,
                        pk_response(RegisterPkResult::TooFrequent),
                    )
                    &&& r.1 == Next::Done { keep: false }
                }
            },
    {
        let admitted = self.admit_change_id(rk.id.as_str(), id_is_valid, ip.as_str(), now);
        proof {
            lemma_apart_by_tables(old(self)@, self@);
            lemma_recorded(old(self)@, *conn, self@);
        }
        match admitted {
            Ok(()) => (Vec::new(), Next::FindIdOwner { rk }),
            Err(result) => (Self::pk_answer(result, conn), Next::Done { keep: false }),
        }
    }

    /// Goes on after [`Next::FindIdOwner`].
    pub fn resume_id_owner(rk: RegisterPk, owner: Option<&Peer>, conn: &Connection) -> (r: (
        Vec<Action>,
        Next,
    ))
        ensures
            actions(r.0@) == id_answer(*conn, opt_peer(owner), rk.uuid@),
            actions(r.0@) == sent(conn.sink, pk_response(change_id(opt_peer(owner), rk.uuid@))),
            r.1 == (Next::Done { keep: false }),
    {
        let result = Self::validate_change_id(&rk.uuid, owner);
        (Self::pk_answer(result, conn), Next::Done { keep: false })
    }

    /// Goes on after [`Next::FindPeerToRegister`]. The record of a peer is updated where
    /// it differs, and always for a web socket, whose address is that of the connection;
    /// the peer is heard, the connection's sink becomes the way to reach it, and the
    /// connection is known as that of the peer.
    pub fn resume_register(
        &mut self,
        rk: RegisterPk,
        ip: String,
        peer: &mut Peer,
        conn: &mut Connection,
        now: u64,
    ) -> (r: (Vec<Action>, Next))
        requires
            old(self).wf(),
            old(conn).apart(old(self)@),
            registration(old(peer)@, rk.uuid@, rk.pk@, ip@, now) is Ok && ip_moved(
                old(peer)@,
                ip@,
            ) ==> change_countable(old(self)@.ip_changes, rk.id@, ip@, now, old(self).limits),
        ensures
            final(self).wf(),
            final(conn).apart(final(self)@),
            comes_to(old(self)@, *old(conn), final(self)@, *final(conn)),
            registered_by(
                old(self)@,
                *old(conn),
                old(peer)@,
                rk,
                ip@,
                now,
                final(self)@,
                *final(conn),
                final(peer)@,
                actions(r.0@),
                r.1,
            ),
            match registration(old(peer)@, rk.uuid@, rk.pk@, ip@, now) {
                Err(result) => {
                    &&& final(self)@ == old(self)@
                    &&& final(peer)@ == old(peer)@
                    &&& *final(conn) == *old(conn)
                    &&& actions(r.0@) == sent(old(conn).sink, pk_response(result))
                    &&& r.1 == Next::Done { keep: false }
                },
                Ok((changed, ip_changed)) => {
                    let update = ActionView::UpdatePk {
                        id: rk.id@,
                        addr: old(conn).remote,
                        uuid: rk.uuid@,
                        pk: rk.pk@,
                        ip: ip@,
                    };
                    let hear = ActionView::HearPeer { id: rk.id@, addr: old(conn).remote, now };
                    let noted = if ip_changed {
                        ServerView {
                            ip_changes: changes_after(
                                old(self)@.ip_changes,
                                rk.id@,
                                ip@,
                                now,
                                old(self).limits,
                            ),
                            ..old(self)@
                        }
                    } else {
                        old(self)@
                    };
                    &&& final(self)@ == noted.with_sink_at(*old(conn), old(conn).home())
                    &&& final(peer)@ == reg_counted(old(peer)@, now)
                    &&& *final(conn) == old(conn).registered_as(rk.id)
                    &&& actions(r.0@) == (if changed || old(conn).ws {
                        seq![update]
                    } else {
                        seq![]
                    }) + seq![hear] + sent(
                        old(conn).sink,
                        pk_response(RegisterPkResult::Accepted),
                    ) + released(old(self)@.displaced(*old(conn), old(conn).home()))
                    &&& r.1 == Next::Done { keep: true }
                },
            },
    {
        proof { lemma_nothing_happens(old(self)@, *old(conn)); }
        match self.validate_register_pk(rk.id.as_str(), &rk.uuid, &rk.pk, &ip, peer, now) {
            Ok((changed, ip_changed)) => {
                proof {
                    let happening = Happening::Registered { id: rk.id };
                    let then = after_one(self@, *conn, happening);
                    lemma_apart_by_tables(old(self)@, self@);
                    lemma_recorded(old(self)@, *conn, self@);
                    lemma_one_happens(self@, *conn, happening);
                    law_happenings_follow(old(self)@, *conn, self@, *conn, then.0, then.1);
                }
                let mut list = no_actions();
                let id = rk.id.clone();
                let registered = rk.id.clone();
                if changed || conn.ws {
                    push_action(
                        &mut list,
                        Action::UpdatePk {
                            id: rk.id,
                            addr: conn.remote,
                            uuid: rk.uuid,
                            pk: rk.pk,
                            ip,
                        },
                    );
                }
                push_action(&mut list, Action::HearPeer { id, addr: conn.remote, now });
                push_send(
                    &mut list,
                    conn.sink,
                    Self::make_register_pk_response(RegisterPkResult::Accepted),
                );
                self.settle_sink(conn, &mut list);
                conn.registered = Some(registered);
                proof {
                    let update = ActionView::UpdatePk {
                        id: rk.id@,
                        addr: old(conn).remote,
                        uuid: rk.uuid@,
                        pk: rk.pk@,
                        ip: ip@,
                    };
                    assert(actions(list@) =~= (if changed || old(conn).ws {
                        seq![update]
                    } else {
                        seq![]
                    }) + seq![ActionView::HearPeer { id: rk.id@, addr: old(conn).remote, now }]
                        + sent(old(conn).sink, pk_response(RegisterPkResult::Accepted)) + released(
                        old(self)@.displaced(*old(conn), old(conn).home()),
                    ));
                }
                (list, Next::Done { keep: true })
            },
            Err(result) => (Self::pk_answer(result, conn), Next::Done { keep: false }),
        }
    }

    /// Goes on after [`Next::FindPeerToHear`]. A known peer is heard, unless it has to
    /// register its key; an unknown one is told to.
    pub fn resume_hear(
        &self,
        id: String,
        serial: i32,
        peer: Option<&Peer>,
        conn: &Connection,
        now: u64,
    ) -> (r: (Vec<Action>, Next))
        ensures
            r.1 == (Next::Done { keep: true }),
            actions(r.0@) == hear_actions(self@, id@, serial, opt_peer(peer), *conn, now),
            actions(r.0@) == match peer {
                Some(peer) => if must_register(peer@, *conn) {
                    seq![]
                } else {
                    seq![ActionView::HearPeer { id: id@, addr: conn.remote, now }]
                },
                None => welcome(self@, serial, conn.sink),
            },
    {
        let mut list = no_actions();
        match peer {
            Some(peer) => {
                let ip = conn.remote.addr.ip();
                let ip_change = (if peer.socket_addr.addr.port() != 0 {
                    ip != peer.socket_addr.addr.ip()
                } else {
                    conn.ip != peer.ip
                }) && !ip.is_loopback();
                let request_pk = peer.pk.is_empty() || ip_change;
                if !request_pk {
                    push_action(&mut list, Action::HearPeer { id, addr: conn.remote, now });
                    assert(actions(list@) =~= seq![
                        ActionView::HearPeer { id: id@, addr: conn.remote, now },
                    ]);
                }
            },
            None => {
                push_send(
                    &mut list,
                    conn.sink,
                    RendezvousMessage::of(Union::RegisterPeerResponse { request_pk: true }),
                );
                if let Some(cu) = self.config_update(serial) {
                    push_send(
                        &mut list,
                        conn.sink,
                        RendezvousMessage::of(Union::ConfigureUpdate(cu)),
                    );
                }
                assert(actions(list@) =~= welcome(self@, serial, conn.sink));
            },
        }
        (list, Next::Done { keep: true })
    }

    /// Goes on after [`Next::FindLastHeard`].
    pub fn resume_online(&self, last_heard: &Vec<Option<u64>>, conn: &Connection, now: u64) -> (r: (
        Vec<Action>,
        Next,
    ))
        requires
            self.wf(),
        ensures
            r.1 == (Next::Done { keep: true }),
            online_answered(self@, *conn, last_heard@, now, actions(r.0@)),
            exists|states: Seq<u8>|
                tells_online(states, last_heard@, now) && actions(r.0@) == #[trigger] sent(
                    self@.answer_sink(*conn),
                    Some(UnionView::OnlineResponse { states }),
                ),
    {
        let states = online_states(last_heard, now);
        let message = RendezvousMessage::of(Union::OnlineResponse { states });
        (self.answer(message, conn), Next::Done { keep: true })
    }
}

} // verus!
