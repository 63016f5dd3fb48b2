//! What holds of connections and of the messages that come in by them.
use vstd::prelude::*;

use crate::addr::{Addr, Remote};
use crate::crypto::{box_public_key, signed_message};
use crate::laws::law_elapsed_millis;
use crate::message::{
    byte_strings, texts, ConfigUpdate, RegisterPk, RegisterPkResult, RelayPeer, RelayPeerView,
    RelayResponse,
    RelayResponseView, RendezvousMessage, RequestRelay, RequestRelayView, Union, UnionView,
};
use crate::network::parsed_network;
use crate::peer::PeerView;
use crate::proxy::ProxyHeaders;
use crate::rendezvous_server::action::{actions, released, sent, Action, ActionView};
use crate::rendezvous_server::listener::{
    decrypted_inbound, first_of, handshake_step, in_plain, is_offer, opened, tcp_inbound,
    test_port_answer, test_port_peers, test_port_use, ws_inbound, HandshakeError, HandshakeStep,
    Inbound, Opening, Reply, TcpInbound, TcpRead, TestPortUse, WsRead, COMMAND_SIZE,
    COMMAND_TIMEOUT, HANDSHAKE_TIMEOUT, READ_TIMEOUT,
};
use crate::rendezvous_server::register::{byte_len, ip_admits, ip_after, registration};
use crate::rendezvous_server::register_laws::law_registration;
use crate::rendezvous_server::server::{
    lowercase, self_test_by, test_again, turns_to, uppercase, Data, Endpoint, LoopEvent,
    LoopFailure, LoopStep, Options, SelfTest, Start, StartPlan,
};
use crate::rendezvous_server::sink::{write_of, SinkKind, Write};
use crate::rendezvous_server::tcp_handler::{
    addressed, bit_at, handled, hear_actions, id_answer, id_asked, is_online, lan_response,
    online_answered, plain_next, punch_answered, registered_by, request_actions, tells_online,
    with_key, with_relay, Connection, Next,
};
use crate::rendezvous_server::{
    lemma_unfiled, Limits, Place, ServerView, CHECK_RELAY_TIMEOUT, REG_TIMEOUT,
};

verus! {

/// A message that holds something.
pub open spec fn holding(union: Union) -> Option<RendezvousMessage> {
    Some(RendezvousMessage { union: Some(union) })
}

/// A list of texts, of byte strings or of actions says what each of its items says, in
/// order.
pub proof fn law_lists(list: Seq<String>, bytes: Seq<Vec<u8>>, done: Seq<Action>, i: int)
    ensures
        texts(list).len() == list.len(),
        byte_strings(bytes).len() == bytes.len(),
        actions(done).len() == done.len(),
        0 <= i < list.len() ==> texts(list)[i] == list[i]@,
        0 <= i < bytes.len() ==> byte_strings(bytes)[i] == bytes[i]@,
        0 <= i < done.len() ==> actions(done)[i] == done[i]@,
{
}

/// A message is written to a sink, or a sink let go of, once where there is one, and not
/// where there is none.
pub proof fn law_by_sink(sink: u64, message: Option<UnionView>)
    ensures
        sent(Some(sink), message).len() == 1,
        sent(Some(sink), message)[0] == (ActionView::Send { sink, message }),
        sent(None, message).len() == 0,
        released(Some(sink)).len() == 1,
        released(Some(sink))[0] == (ActionView::Release { sink }),
        released(None).len() == 0,
{
}

/// A sink that is filed at a place is found there, and one that is cleared is not; what is
/// filed elsewhere stays in either case.
pub proof fn law_places(view: ServerView, place: Place, other: Place, sink: u64)
    requires
        other != place,
    ensures
        view.filed(place, sink).sink_at(place) == Some(sink),
        view.filed(place, sink).sink_at(other) == view.sink_at(other),
        view.unfiled(place).sink_at(place) is None,
        view.unfiled(place).sink_at(other) == view.sink_at(other),
{
}

/// Filing and clearing touch nothing but the tables of sinks.
pub proof fn law_places_only(view: ServerView, place: Place, sink: u64)
    ensures
        ({
            let one = view.filed(place, sink);
            let two = view.unfiled(place);
            &&& one.inner == view.inner && two.inner == view.inner
            &&& one.limits == view.limits && two.limits == view.limits
            &&& one.rendezvous_servers == view.rendezvous_servers
            &&& two.rendezvous_servers == view.rendezvous_servers
            &&& one.relay_servers == view.relay_servers
            &&& two.relay_servers == view.relay_servers
            &&& one.relay_servers0 == view.relay_servers0
            &&& two.relay_servers0 == view.relay_servers0
            &&& one.ip_blocker == view.ip_blocker && two.ip_blocker == view.ip_blocker
            &&& one.ip_changes == view.ip_changes && two.ip_changes == view.ip_changes
        }),
{
}

/// A peer is reached by the web socket that is filed at its address, else by the plain
/// connection that is, else in a datagram to where it was last heard.
pub proof fn law_way_to_peer(view: ServerView, peer: Remote, message: Option<UnionView>)
    ensures
        view.sink_at(Place::Ws(peer.key)) matches Some(sink) ==> view.to_peer(peer, message) == (
        ActionView::Send { sink, message }),
        view.sink_at(Place::Ws(peer.key)) is None ==> match view.sink_at(Place::Tcp(peer.key)) {
            Some(sink) => view.to_peer(peer, message) == (ActionView::Send { sink, message }),
            None => view.to_peer(peer, message) == (ActionView::SendUdp {
                to: peer.addr,
                message,
            }),
        },
{
}

/// A message to a remote end goes by the web socket that is filed there, else by the plain
/// connection, with nothing changed; else by the sink that waits for one answer there, which
/// is let go of; else it is lost.
pub proof fn law_way_to_remote(view: ServerView, to: Remote, message: Option<UnionView>)
    ensures
        ({
            let (after, done) = view.to_tcp(to, message);
            let ws = view.sink_at(Place::Ws(to.key));
            let tcp = view.sink_at(Place::Tcp(to.key));
            let punch = view.sink_at(Place::Punch(to.key));
            &&& ws matches Some(sink) ==> after == view && done == seq![
                ActionView::Send { sink, message },
            ]
            &&& ws is None && tcp is Some ==> after == view && done == seq![
                ActionView::Send { sink: tcp->0, message },
            ]
            &&& ws is None && tcp is None && punch is Some ==> done == seq![
                ActionView::Send { sink: punch->0, message },
                ActionView::Release { sink: punch->0 },
            ] && after.sink_at(Place::Punch(to.key)) is None
            &&& ws is None && tcp is None && punch is None ==> done.len() == 0
        }),
{
    let done = view.to_tcp(to, message).1;
    if let Some(sink) = view.sink_at(Place::Punch(to.key)) {
        if view.persistent(to.key) is None {
            assert(done =~= seq![
                ActionView::Send { sink, message },
                ActionView::Release { sink },
            ]);
        }
    }
}

/// An answer on a connection goes by the sink of the peer that is registered at its
/// address, a web socket first; else by its own.
pub proof fn law_answer_sink(view: ServerView, conn: Connection)
    ensures
        view.sink_at(Place::Ws(conn.remote.key)) is Some ==> view.answer_sink(conn)
            == view.sink_at(Place::Ws(conn.remote.key)),
        view.sink_at(Place::Ws(conn.remote.key)) is None && view.sink_at(
            Place::Tcp(conn.remote.key),
        ) is Some ==> view.answer_sink(conn) == view.sink_at(Place::Tcp(conn.remote.key)),
        view.sink_at(Place::Ws(conn.remote.key)) is None && view.sink_at(
            Place::Tcp(conn.remote.key),
        ) is None ==> view.answer_sink(conn) == conn.sink,
{
}

/// A connection that files its own sink does so at the place named, and displaces what was
/// there; one without a sink changes nothing.
pub proof fn law_own_sink(view: ServerView, conn: Connection, place: Place, other: Place)
    requires
        other != place,
    ensures
        conn.sink matches Some(sink) ==> view.with_sink_at(conn, place).sink_at(place) == Some(sink)
            && view.with_sink_at(conn, place).sink_at(other) == view.sink_at(other)
            && view.displaced(conn, place) == view.sink_at(place),
        conn.sink is None ==> view.with_sink_at(conn, place) == view && view.displaced(
            conn,
            place,
        ) is None,
        conn.ws ==> conn.home() == Place::Ws(conn.remote.key),
        !conn.ws ==> conn.home() == Place::Tcp(conn.remote.key),
{
}

/// Once a peer has been heard from a connection whose sink is filed as that of a
/// registered peer, a message to where it is on record goes out by that sink; for a plain
/// connection, as long as no web socket is filed at its address.
pub proof fn law_heard_reachable(
    view: ServerView,
    conn: Connection,
    sink: u64,
    peer: PeerView,
    now: u64,
    message: Option<UnionView>,
    request: RequestRelayView,
    encoded: Seq<u8>,
)
    requires
        conn.sink == Some(sink),
        conn.ws || !view.ws_map.dom().contains(conn.remote.key),
    ensures
        view.with_sink_at(conn, conn.home()).to_peer(
            peer.heard(conn.remote, now).socket_addr,
            message,
        ) == (ActionView::Send { sink, message }),
        ({
            let done = request_actions(
                view.with_sink_at(conn, conn.home()),
                request,
                encoded,
                Some(peer.heard(conn.remote, now)),
            );
            &&& done.len() == 1
            &&& done[0] matches ActionView::Send { sink: by, .. }
            &&& by == sink
        }),
{
}

/// A request for a relay goes on to its peer where the peer is on record, with the address
/// of who asks, and otherwise as it came; without a peer it goes nowhere.
pub proof fn law_relay_request(
    view: ServerView,
    request: RequestRelayView,
    encoded: Seq<u8>,
    peer: PeerView,
)
    ensures
        request_actions(view, request, encoded, None).len() == 0,
        ({
            let done = request_actions(view, request, encoded, Some(peer));
            let message = match done[0] {
                ActionView::Send { message, .. } => message,
                ActionView::SendUdp { message, .. } => message,
                _ => None,
            };
            &&& done.len() == 1
            &&& done[0] == view.to_peer(peer.socket_addr, message)
            &&& message matches Some(UnionView::RequestRelay(rf))
            &&& rf.socket_addr == encoded
            &&& rf.id == request.id
            &&& rf.uuid == request.uuid
            &&& rf.licence_key == request.licence_key
            &&& rf.rest == request.rest
        }),
{
}

/// A web socket registers from what the headers of a proxy name, and from its own address
/// where they name nothing; a plain connection from its own address. What happens to the
/// sink, and a registration, change nothing of that.
pub proof fn law_registers_from(
    conn: Connection,
    remote: Remote,
    ip: String,
    headers: ProxyHeaders,
    sink: u64,
    id: String,
)
    ensures
        conn.is_ws_from(remote, ip, headers, sink) ==> conn.reg_ip() == (
        match headers.first_entry() {
            Some(named) => named,
            None => ip@,
        }),
        conn.is_tcp_from(remote, ip, sink) ==> conn.reg_ip() == ip@,
        conn.is_ws_from(remote, ip, headers, sink) ==> conn.ws && conn.remote == remote && conn.sink
            == Some(sink) && conn.registered is None,
        conn.is_tcp_from(remote, ip, sink) ==> !conn.ws && conn.remote == remote && conn.sink
            == Some(sink) && conn.registered is None,
        conn.spent().reg_ip() == conn.reg_ip(),
        conn.registered_as(id).reg_ip() == conn.reg_ip(),
        conn.spent().sink is None,
        conn.spent().registered == conn.registered,
        conn.spent().remote == conn.remote && conn.spent().ws == conn.ws,
        conn.registered_as(id).sink is None,
        conn.registered_as(id).registered == Some(id),
        conn.registered_as(id).remote == conn.remote && conn.registered_as(id).ws == conn.ws,
        conn.forwarded_ip matches Some(forwarded) ==> conn.reg_ip() == forwarded@,
        conn.forwarded_ip is None ==> conn.reg_ip() == conn.ip@,
{
}

/// A request to punch a hole, or for a relay, leaves the connection's own sink, where it
/// has one, to wait for the answer at its address; what waited there is let go of.
pub proof fn law_request_waits(
    view: ServerView,
    conn: Connection,
    punch: Vec<u8>,
    relay: RequestRelay,
    now: u64,
    after: ServerView,
    open: Connection,
    done: Seq<ActionView>,
    next: Next,
)
    requires
        handled(view, conn, holding(Union::PunchHoleRequest(punch)), now, after, open, done, next)
            || handled(view, conn, holding(Union::RequestRelay(relay)), now, after, open, done, next),
    ensures
        conn.sink is Some ==> after.sink_at(Place::Punch(conn.remote.key)) == conn.sink,
        conn.sink is None ==> after == view,
        open.sink is None,
        open.remote == conn.remote && open.ws == conn.ws && open.registered == conn.registered,
        conn.sink is Some && view.sink_at(Place::Punch(conn.remote.key)) is Some ==> done == seq![
            ActionView::Release { sink: view.sink_at(Place::Punch(conn.remote.key))->0 },
        ],
        conn.sink is None || view.sink_at(Place::Punch(conn.remote.key)) is None ==> done.len()
            == 0,
        next == (Next::PunchHole { request: punch }) || next == (Next::FindRelayPeer {
            request: relay,
        }),
        handled(view, conn, holding(Union::PunchHoleRequest(punch)), now, after, open, done, next)
            <==> next == (Next::PunchHole { request: punch }),
{
}

/// A registration without a machine ends the connection. One without a key asks whether
/// the id is free. One with an id of fewer than six bytes is a mismatch. Any other counts
/// against the address that a proxy reports, or else that of the connection: it is refused
/// as too frequent, or goes on with that address.
pub proof fn law_registration_asked(
    view: ServerView,
    conn: Connection,
    rk: RegisterPk,
    now: u64,
    after: ServerView,
    open: Connection,
    done: Seq<ActionView>,
    next: Next,
)
    requires
        handled(view, conn, holding(Union::RegisterPk(rk)), now, after, open, done, next),
    ensures
        ({
            let from = match conn.forwarded_ip {
                Some(forwarded) => forwarded@,
                None => conn.ip@,
            };
            let counted = rk.uuid@.len() > 0 && rk.pk@.len() > 0 && byte_len(rk.id@) >= 6;
            let passes = ip_admits(view.ip_blocker, from, rk.id@, now, view.limits);
            &&& open == conn
            &&& after == (ServerView { ip_blocker: after.ip_blocker, ..view })
            &&& !counted ==> after == view
            &&& counted ==> after.ip_blocker == ip_after(
                view.ip_blocker,
                from,
                rk.id@,
                now,
                view.limits,
            )
            &&& rk.uuid@.len() == 0 ==> done.len() == 0 && next == (Next::Done { keep: false })
            &&& rk.uuid@.len() > 0 && rk.pk@.len() == 0 ==> {
                &&& done.len() == 0
                &&& next matches Next::CheckIdForm { rk: same, ip }
                &&& same == rk
                &&& ip@ == from
            }
            &&& rk.uuid@.len() > 0 && rk.pk@.len() > 0 && (!counted || !passes) ==> {
                &&& next == (Next::Done { keep: false })
                &&& conn.sink is None ==> done.len() == 0
                &&& conn.sink matches Some(sink) ==> done == seq![
                    ActionView::Send {
                        sink,
                        message: Some(
                            UnionView::RegisterPkResponse {
                                result: if counted {
                                    RegisterPkResult::TooFrequent
                                } else {
                                    RegisterPkResult::UuidMismatch
                                },
                            },
                        ),
                    },
                ]
            }
            &&& counted && passes ==> {
                &&& done.len() == 0
                &&& next matches Next::FindPeerToRegister { rk: same, ip }
                &&& same == rk
                &&& ip@ == from
            }
        }),
{
}

/// A test of the NAT is answered with the port that the server sees, and with the
/// configuration if that of the peer is older; then the connection ends.
pub proof fn law_nat_test(
    view: ServerView,
    conn: Connection,
    serial: i32,
    now: u64,
    after: ServerView,
    open: Connection,
    done: Seq<ActionView>,
    next: Next,
)
    requires
        handled(view, conn, holding(Union::TestNatRequest { serial }), now, after, open, done, next),
    ensures
        after == view,
        open == conn,
        next == (Next::Done { keep: false }),
        view.answer_sink(conn) is None ==> done.len() == 0,
        view.answer_sink(conn) matches Some(sink) ==> {
            &&& done.len() == 1
            &&& done[0] matches ActionView::Send { sink: by, message }
            &&& by == sink
            &&& message matches Some(UnionView::TestNatResponse { port, cu })
            &&& port == conn.remote.addr.port()
            &&& cu is Some <==> view.inner.serial > serial
            &&& cu matches Some(cu) ==> cu.serial == view.inner.serial && cu.rendezvous_servers
                == view.rendezvous_servers
        },
{
}

/// Other messages change nothing at once. A response for a relay, a report of a hole or of a
/// local address, a report of a peer and a question who is online lead on, each with what it
/// carries; a report without an id keeps the connection; all else ends it.
pub proof fn law_other_messages(
    response: RelayResponse,
    bytes: Vec<u8>,
    id: String,
    serial: i32,
    peers: Vec<String>,
    keys: Vec<Vec<u8>>,
)
    ensures
        plain_next(holding(Union::RelayResponse(response))) == (Next::DecodeAddr { response }),
        plain_next(holding(Union::PunchHoleSent(bytes))) == (Next::HoleSent { report: bytes }),
        plain_next(holding(Union::LocalAddr(bytes))) == (Next::LocalAddr { report: bytes }),
        id@.len() > 0 ==> plain_next(holding(Union::RegisterPeer { id, serial })) == (
        Next::FindPeerToHear { id, serial }),
        id@.len() == 0 ==> plain_next(holding(Union::RegisterPeer { id, serial })) == (Next::Done {
            keep: true,
        }),
        plain_next(holding(Union::OnlineRequest { peers })) == (Next::FindLastHeard { peers }),
        plain_next(holding(Union::KeyExchange { keys })) == (Next::Done { keep: false }),
        plain_next(holding(Union::Hc(bytes))) == (Next::Done { keep: false }),
        plain_next(holding(Union::Other(bytes))) == (Next::Done { keep: false }),
        plain_next(Some(RendezvousMessage { union: None })) == (Next::Done { keep: false }),
        plain_next(None) == (Next::Done { keep: false }),
{
}

/// These messages are handled without any change of the server or the connection, and
/// without an answer.
pub proof fn law_nothing_at_once(
    view: ServerView,
    conn: Connection,
    parsed: Option<RendezvousMessage>,
    now: u64,
    after: ServerView,
    open: Connection,
    done: Seq<ActionView>,
    next: Next,
)
    requires
        handled(view, conn, parsed, now, after, open, done, next),
        parsed matches Some(message) ==> match message.union {
            Some(Union::PunchHoleRequest(_)) => false,
            Some(Union::RequestRelay(_)) => false,
            Some(Union::RegisterPk(_)) => false,
            Some(Union::TestNatRequest { .. }) => false,
            _ => true,
        },
    ensures
        after == view,
        open == conn,
        done.len() == 0,
        next == plain_next(parsed),
{
}

/// How a registration ends for all concerned. One that is refused is answered with the
/// reason by the connection's own sink, changes nothing, and ends the connection. One that
/// is accepted is answered with that; the peer is heard from the connection; its record is
/// updated, for a web socket always; the sink of the connection becomes the way to the peer,
/// and the connection is kept.
pub proof fn law_registered(
    view: ServerView,
    conn: Connection,
    peer: PeerView,
    rk: RegisterPk,
    ip: Seq<char>,
    now: u64,
    after: ServerView,
    open: Connection,
    then: PeerView,
    done: Seq<ActionView>,
    next: Next,
    sink: u64,
    message: Option<UnionView>,
)
    requires
        registered_by(view, conn, peer, rk, ip, now, after, open, then, done, next),
        conn.sink == Some(sink),
    ensures
        ({
            let taken = peer.uuid.len() > 0;
            let mismatch = taken && (peer.uuid != rk.uuid@ || (peer.ip != ip && peer.pk != rk.pk@));
            let often = peer.reg_pk.0 >= 3 && now - peer.reg_pk.1 < 7_000_000_000;
            let differs = !taken || peer.pk != rk.pk@ || peer.ip != ip;
            let hear = ActionView::HearPeer { id: rk.id@, addr: conn.remote, now };
            let update = ActionView::UpdatePk {
                id: rk.id@,
                addr: conn.remote,
                uuid: rk.uuid@,
                pk: rk.pk@,
                ip,
            };
            &&& mismatch || often ==> {
                &&& after == view && open == conn && then == peer
                &&& next == (Next::Done { keep: false })
                &&& done == seq![
                    ActionView::Send {
                        sink,
                        message: Some(
                            UnionView::RegisterPkResponse {
                                result: if mismatch {
                                    RegisterPkResult::UuidMismatch
                                } else {
                                    RegisterPkResult::TooFrequent
                                },
                            },
                        ),
                    },
                ]
            }
            &&& !mismatch && !often ==> {
                let answer = ActionView::Send {
                    sink,
                    message: Some(
                        UnionView::RegisterPkResponse { result: RegisterPkResult::Accepted },
                    ),
                };
                &&& next == (Next::Done { keep: true })
                &&& open.sink is None
                &&& open.registered == Some(rk.id)
                &&& done.contains(hear)
                &&& done.contains(answer)
                &&& done.contains(update) <==> differs || conn.ws
                &&& conn.ws ==> after.sink_at(Place::Ws(conn.remote.key)) == Some(sink)
                &&& !conn.ws ==> after.sink_at(Place::Tcp(conn.remote.key)) == Some(sink)
                &&& conn.ws || !view.ws_map.dom().contains(conn.remote.key) ==> after.to_peer(
                    then.heard(conn.remote, now).socket_addr,
                    message,
                ) == (ActionView::Send { sink, message })
                &&& then.reg_pk.1 == now
                &&& !(taken && peer.ip != ip) ==> after.ip_changes == view.ip_changes
                &&& after.ip_blocker == view.ip_blocker
                &&& view.sink_at(conn.home()) matches Some(was) ==> done.contains(
                    ActionView::Release { sink: was },
                )
            }
        }),
{
    law_registration(peer, rk.uuid@, rk.pk@, ip, now);
    let hear = ActionView::HearPeer { id: rk.id@, addr: conn.remote, now };
    let update = ActionView::UpdatePk {
        id: rk.id@,
        addr: conn.remote,
        uuid: rk.uuid@,
        pk: rk.pk@,
        ip,
    };
    let answer = ActionView::Send {
        sink,
        message: Some(UnionView::RegisterPkResponse { result: RegisterPkResult::Accepted }),
    };
    if let Ok((changed, moved)) = registration(peer, rk.uuid@, rk.pk@, ip, now) {
        let at: int = if changed || conn.ws {
            1
        } else {
            0
        };
        assert(done[at] == hear);
        assert(done[at + 1] == answer);
        if changed || conn.ws {
            assert(done[0] == update);
        }
        if done.contains(update) {
            let i = done.index_of(update);
            assert(done[i] == update);
        }
        if let Some(was) = view.sink_at(conn.home()) {
            assert(done[at + 2] == (ActionView::Release { sink: was }));
        }
    }
}

/// A peer with a key that reports from the IP address at which it was last heard, over
/// either transport, is heard, from where it reports now. So is one that reports from the
/// loopback network, and one whose record has no port if the address is that on record. One
/// without a key, or from elsewhere, is not. A peer that nobody knows is told to register,
/// and gets the configuration if its own is older.
pub proof fn law_report(
    view: ServerView,
    id: Seq<char>,
    serial: i32,
    peer: PeerView,
    conn: Connection,
    now: u64,
    sink: u64,
)
    ensures
        ({
            let done = hear_actions(view, id, serial, Some(peer), conn, now);
            let same = if peer.socket_addr.addr.port() != 0 {
                peer.socket_addr.addr.ip() == conn.remote.addr.ip()
            } else {
                peer.ip == conn.ip@
            };
            &&& peer.pk.len() > 0 && (same || conn.remote.addr.ip().is_loopback()) ==> done == seq![
                ActionView::HearPeer { id, addr: conn.remote, now },
            ]
            &&& peer.pk.len() == 0 || (!same && !conn.remote.addr.ip().is_loopback())
                ==> done.len() == 0
        }),
        conn.sink is None ==> hear_actions(view, id, serial, None, conn, now).len() == 0,
        conn.sink == Some(sink) ==> ({
            let done = hear_actions(view, id, serial, None, conn, now);
            &&& done[0] == (ActionView::Send {
                sink,
                message: Some(UnionView::RegisterPeerResponse { request_pk: true }),
            })
            &&& view.inner.serial <= serial ==> done.len() == 1
            &&& view.inner.serial > serial ==> {
                &&& done.len() == 2
                &&& done[1] matches ActionView::Send { sink: by, message }
                &&& by == sink
                &&& message matches Some(UnionView::ConfigureUpdate(cu))
                &&& cu.serial == view.inner.serial
                &&& cu.rendezvous_servers == view.rendezvous_servers
            }
        }),
{
}

/// A peer with a key that reports again by the connection that it was heard from is heard,
/// and online until 30 seconds have gone by since that report.
pub proof fn law_report_online(
    view: ServerView,
    id: Seq<char>,
    serial: i32,
    peer: PeerView,
    conn: Connection,
    before: u64,
    then: u64,
    now: u64,
)
    requires
        peer.pk.len() > 0,
        conn.remote.addr.port() != 0,
    ensures
        hear_actions(view, id, serial, Some(peer.heard(conn.remote, before)), conn, then) == seq![
            ActionView::HearPeer { id, addr: conn.remote, now: then },
        ],
        is_online(Some(peer.heard(conn.remote, then).last_reg_time), now) <==> now - then
            < 30_000_000_000,
        is_online(None, now) == false,
{
    law_elapsed_millis(then, now, 30_000);
}

proof fn lemma_bits(byte: u8)
    by (bit_vector)
    ensures
        byte == 128 * ((byte >> 7u8) & 1) + 64 * ((byte >> 6u8) & 1) + 32 * ((byte >> 5u8) & 1) + 16
            * ((byte >> 4u8) & 1) + 8 * ((byte >> 3u8) & 1) + 4 * ((byte >> 2u8) & 1) + 2 * ((byte
            >> 1u8) & 1) + ((byte >> 0u8) & 1),
        ((byte >> 7u8) & 1) <= 1,
        ((byte >> 6u8) & 1) <= 1,
        ((byte >> 5u8) & 1) <= 1,
        ((byte >> 4u8) & 1) <= 1,
        ((byte >> 3u8) & 1) <= 1,
        ((byte >> 2u8) & 1) <= 1,
        ((byte >> 1u8) & 1) <= 1,
        ((byte >> 0u8) & 1) <= 1,
{
}

/// The weight of a peer in the byte that tells of it, if it was heard less than 30 seconds
/// ago.
pub open spec fn weight(last_heard: Seq<Option<u64>>, i: int, now: u64, weight: int) -> int {
    if i < last_heard.len() && last_heard[i] is Some && now - last_heard[i]->0 < 30_000_000_000 {
        weight
    } else {
        0
    }
}

/// Each byte of the answer tells of eight peers, the first of them by its highest bit.
pub proof fn law_online_bytes(
    states: Seq<u8>,
    last_heard: Seq<Option<u64>>,
    now: u64,
    k: int,
)
    requires
        tells_online(states, last_heard, now),
        0 <= k < states.len(),
    ensures
        8 * states.len() < last_heard.len() + 8,
        last_heard.len() <= 8 * states.len(),
        states[k] == weight(last_heard, 8 * k, now, 128) + weight(last_heard, 8 * k + 1, now, 64)
            + weight(last_heard, 8 * k + 2, now, 32) + weight(last_heard, 8 * k + 3, now, 16)
            + weight(last_heard, 8 * k + 4, now, 8) + weight(last_heard, 8 * k + 5, now, 4)
            + weight(last_heard, 8 * k + 6, now, 2) + weight(last_heard, 8 * k + 7, now, 1),
{
    lemma_bits(states[k]);
    lemma_peer_bit(states, last_heard, now, 8 * k);
    lemma_peer_bit(states, last_heard, now, 8 * k + 1);
    lemma_peer_bit(states, last_heard, now, 8 * k + 2);
    lemma_peer_bit(states, last_heard, now, 8 * k + 3);
    lemma_peer_bit(states, last_heard, now, 8 * k + 4);
    lemma_peer_bit(states, last_heard, now, 8 * k + 5);
    lemma_peer_bit(states, last_heard, now, 8 * k + 6);
    lemma_peer_bit(states, last_heard, now, 8 * k + 7);
}

proof fn lemma_peer_bit(states: Seq<u8>, last_heard: Seq<Option<u64>>, now: u64, i: int)
    requires
        tells_online(states, last_heard, now),
        0 <= i < 8 * states.len(),
    ensures
        (states[i / 8] >> ((7 - i % 8) as u8)) & 1 == 1 <==> weight(last_heard, i, now, 1) == 1,
{
    assert(bit_at(states, i) <==> (i < last_heard.len() && is_online(last_heard[i], now)));
    if i < last_heard.len() {
        if let Some(then) = last_heard[i] {
            law_elapsed_millis(then, now, 30_000);
        }
    }
}

/// A relay response that names a relay server names the local one to an end in the local
/// network. To any other end it names the same, unless that is the local one: then one has
/// to be chosen. A response that names none goes out as it is. Nothing else of it changes.
pub proof fn law_relay_response(
    response: RelayResponseView,
    local_ip: Seq<char>,
    is_lan: bool,
)
    ensures
        lan_response(response, local_ip, is_lan) is None <==> response.relay_server.len() > 0
            && !is_lan && response.relay_server == local_ip,
        lan_response(response, local_ip, is_lan) matches Some(goes) ==> {
            &&& response.relay_server.len() > 0 && is_lan ==> goes.relay_server == local_ip
            &&& response.relay_server.len() == 0 || !is_lan ==> goes.relay_server
                == response.relay_server
            &&& goes.socket_addr == response.socket_addr
            &&& goes.peer == response.peer
            &&& goes.version == response.version
            &&& goes.rest == response.rest
        },
{
}

/// A peer is named by its id, and by nothing where it is named by a key or not at all.
pub proof fn law_relay_peer(id: Seq<char>, pk: Seq<u8>)
    ensures
        RelayPeerView::Id(id).id() == id,
        RelayPeerView::Pk(pk).id().len() == 0,
        RelayPeerView::Unset.id().len() == 0,
{
}

/// A reply with two keys, or more, makes the connection secure by the first two: the key of
/// the client, and the session key. A reply with fewer, or another one, goes on in plain
/// with what was sent, which is a surprise for a registration of a key and for a check of
/// health. Anything else fails. A session key that does not open ends the connection.
pub proof fn law_handshake(
    bytes: Vec<u8>,
    keys: Vec<Vec<u8>>,
    parsed: Option<RendezvousMessage>,
    words: String,
)
    ensures
        keys@.len() >= 2 ==> handshake_step(
            Reply::Received { bytes, parsed: holding(Union::KeyExchange { keys }) },
        ) == (HandshakeStep::OpenKey { client_pk: keys@[0], sealed_key: keys@[1] }),
        keys@.len() < 2 ==> handshake_step(
            Reply::Received { bytes, parsed: holding(Union::KeyExchange { keys }) },
        ) == (HandshakeStep::Plain { first: bytes, unexpected: false }),
        (parsed matches Some(message) ==> !(message.union matches Some(
            Union::KeyExchange { .. },
        ))) ==> ({
            let step = handshake_step(Reply::Received { bytes, parsed });
            &&& step matches HandshakeStep::Plain { first, unexpected }
            &&& first == bytes
            &&& unexpected <==> parsed is Some && match parsed->0.union {
                Some(Union::RegisterPk(_)) => true,
                Some(Union::Hc(_)) => true,
                _ => false,
            }
        }),
        handshake_step(Reply::SendFailed(words)) == HandshakeStep::Fail(
            HandshakeError::SendFailed(words),
        ),
        handshake_step(Reply::ReadFailed(words)) == HandshakeStep::Fail(
            HandshakeError::ReadFailed(words),
        ),
        handshake_step(Reply::Closed) == HandshakeStep::Fail(HandshakeError::Closed),
        handshake_step(Reply::TimedOut) == HandshakeStep::Fail(HandshakeError::TimedOut),
        opened(Ok(())) == Ok::<Opening, String>(Opening { encrypted: true, first: None }),
        opened(Err(words)) == Err::<Opening, String>(words),
{
}

/// A reply that goes on in plain is no exchange of two keys, and one that makes the
/// connection secure is.
pub proof fn law_plain_only_without_keys(reply: Reply)
    ensures
        handshake_step(reply) is OpenKey <==> (reply matches Reply::Received { parsed, .. }
            && parsed matches Some(message) && message.union matches Some(
            Union::KeyExchange { keys },
        ) && keys@.len() >= 2),
        handshake_step(reply) is Fail <==> !(reply is Received),
{
}

/// What a remote end sent in plain is handled first, unless it is empty.
pub proof fn law_first_message(bytes: Vec<u8>, encrypted: bool)
    ensures
        bytes@.len() > 0 ==> first_of(Opening { encrypted, first: Some(bytes) }) == Some(bytes),
        bytes@.len() == 0 ==> first_of(Opening { encrypted, first: Some(bytes) }) is None,
        first_of(Opening { encrypted, first: None }) is None,
{
}

/// Bytes are taken alike on a web socket, on a plain connection and once decrypted: without
/// any they are a heartbeat, otherwise a message. An encrypted frame is decrypted first.
/// Messages of another kind on a web socket are ignored. The end of a connection, an error, a
/// timeout, and what does not decrypt end it.
pub proof fn law_inbound(bytes: Vec<u8>)
    ensures
        ({
            let taken = if bytes@.len() == 0 {
                Inbound::Heartbeat
            } else {
                Inbound::Message(bytes)
            };
            &&& ws_inbound(WsRead::Binary(bytes)) == taken
            &&& tcp_inbound(TcpRead::Frame(bytes), false) == TcpInbound::Plain(taken)
            &&& decrypted_inbound(Some(bytes)) == taken
        }),
        tcp_inbound(TcpRead::Frame(bytes), true) == TcpInbound::Decrypt(bytes),
        ws_inbound(WsRead::Other) == Inbound::Ignore,
        ws_inbound(WsRead::Close) == Inbound::Stop,
        ws_inbound(WsRead::ReadFailed) == Inbound::Stop,
        ws_inbound(WsRead::Ended) == Inbound::Stop,
        ws_inbound(WsRead::TimedOut) == Inbound::Stop,
        decrypted_inbound(None) == Inbound::Stop,
        forall|encrypted: bool|
            #![auto]
            tcp_inbound(TcpRead::ReadFailed, encrypted) == TcpInbound::Plain(Inbound::Stop)
                && tcp_inbound(TcpRead::Ended, encrypted) == TcpInbound::Plain(Inbound::Stop)
                && tcp_inbound(TcpRead::TimedOut, encrypted) == TcpInbound::Plain(Inbound::Stop),
{
}

/// A heartbeat is answered by an empty message as long as the connection has its sink. On a
/// plain connection the time of its registered peer is noted; on a web socket, and without
/// a registered peer, nothing is.
pub proof fn law_heartbeat(conn: Connection, id: String, sink: u64, now: u64)
    ensures
        conn.sink == Some(sink) ==> conn.heartbeat(now)[0] == (ActionView::Send {
            sink,
            message: None,
        }),
        conn.sink == Some(sink) && (conn.ws || conn.registered is None) ==> conn.heartbeat(
            now,
        ).len() == 1,
        conn.sink is None && (conn.ws || conn.registered is None) ==> conn.heartbeat(now).len()
            == 0,
        conn.registered == Some(id) && !conn.ws ==> ({
            let done = conn.heartbeat(now);
            &&& done.last() == (ActionView::RefreshPeer { id: id@, now })
            &&& conn.sink is Some ==> done.len() == 2
            &&& conn.sink is None ==> done.len() == 1
        }),
{
}

/// Closing lets go of the connection's own sink, or, where that was filed, of what waits at
/// its address; and of what is filed for a registered peer of its transport there. What is
/// let go of is filed nowhere after that. What is filed elsewhere stays.
pub proof fn law_closing(view: ServerView, conn: Connection, sink: u64, other: Place)
    requires
        view.sinks_apart(),
        conn.apart(view),
        other != conn.home(),
        other != Place::Punch(conn.remote.key),
    ensures
        conn.sink matches Some(own) ==> view.closing(conn).contains(
            ActionView::Release { sink: own },
        ),
        view.closing(conn).contains(ActionView::Release { sink }) ==> !view.closed(conn).is_filed(
            sink,
        ),
        view.sink_at(conn.home()) == Some(sink) ==> view.closing(conn).contains(
            ActionView::Release { sink },
        ),
        view.closed(conn).sink_at(conn.home()) is None,
        conn.sink is None ==> view.closed(conn).sink_at(Place::Punch(conn.remote.key)) is None,
        conn.sink is Some ==> view.closed(conn).sink_at(Place::Punch(conn.remote.key))
            == view.sink_at(Place::Punch(conn.remote.key)),
        view.closed(conn).sink_at(other) == view.sink_at(other),
{
    let punch = Place::Punch(conn.remote.key);
    let home = conn.home();
    let cleared = if conn.sink is None {
        view.unfiled(punch)
    } else {
        view
    };
    lemma_unfiled(view, punch);
    lemma_unfiled(cleared, home);
    let list = view.closing(conn);
    if let Some(own) = conn.sink {
        assert(list[0] == (ActionView::Release { sink: own }));
    }
    if view.sink_at(home) is Some {
        assert(list.last() == (ActionView::Release { sink: view.sink_at(home)->0 }));
        assert(list[list.len() - 1] == list.last());
    }
    assert(cleared.sink_at(home) == view.sink_at(home));
    if list.contains(ActionView::Release { sink }) {
        let i = list.index_of(ActionView::Release { sink });
        assert(list[i] == (ActionView::Release { sink }));
        assert(conn.sink == Some(sink) || view.sink_at(punch) == Some(sink) || view.sink_at(home)
            == Some(sink));
    }
}

/// The test port takes commands from the machine itself, and messages from others. It
/// answers a test of the NAT with the port that the server sees, tells who is online, and
/// answers nothing else.
pub proof fn law_test_port(
    remote: Remote,
    serial: i32,
    peers: Vec<String>,
    other: Option<RendezvousMessage>,
)
    requires
        other matches Some(message) ==> match message.union {
            Some(Union::TestNatRequest { .. }) => false,
            Some(Union::OnlineRequest { .. }) => false,
            _ => true,
        },
    ensures
        test_port_use(remote) == TestPortUse::Command <==> remote.key.ip().is_loopback(),
        test_port_answer(holding(Union::TestNatRequest { serial }), remote) matches Some(
            UnionView::TestNatResponse { port, cu },
        ) && port == remote.addr.port() && cu is None,
        test_port_peers(holding(Union::OnlineRequest { peers })) == Some(peers),
        test_port_answer(other, remote) is None,
        test_port_peers(other) is None,
{
}

/// Bytes go out as the sink wants them; a message that cannot be encoded does not.
pub proof fn law_writes(bytes: Vec<u8>, kind: SinkKind)
    ensures
        write_of(SinkKind::TcpStream { encrypted: true }, Some(bytes)) == Write::Encrypted(bytes),
        write_of(SinkKind::TcpStream { encrypted: false }, Some(bytes)) == Write::Plain(bytes),
        write_of(SinkKind::Ws, Some(bytes)) == Write::Binary(bytes),
        write_of(kind, None) == Write::Nothing,
{
}

/// A server that starts listens at its port, with the port for NAT tests and commands one
/// below and that for web sockets two above, all bound to the same address. It has a local
/// address only with a mask, is as told, and knows nobody.
pub proof fn law_started(
    start: Start,
    bind_addr: Option<crate::addr::Ip>,
    port: i32,
    serial: i32,
    sk: Option<[u8; 64]>,
    rmem: usize,
    options: Options,
    limits: Limits,
    key: Addr,
    ip: Seq<char>,
)
    requires
        i32::MIN < port <= i32::MAX - 2,
        start.is_of(bind_addr, port, serial, sk, rmem, options, limits),
    ensures
        start.plan.bind_addr == bind_addr,
        start.plan.rmem == rmem,
        start.plan.port_of(Endpoint::Udp) == port,
        start.plan.port_of(Endpoint::Tcp) == port,
        start.plan.port_of(Endpoint::Nat) == port - 1,
        start.plan.port_of(Endpoint::Console) == port - 1,
        start.plan.port_of(Endpoint::Ws) == port + 2,
        start.server.inner.serial == serial,
        start.server.inner.sk == sk,
        start.server.inner.version == options.version,
        start.server.inner.software_url == options.software_url,
        start.server@.rendezvous_servers == texts(options.rendezvous_servers@),
        start.server@.relay_servers.len() == 0,
        start.server@.relay_servers0.len() == 0,
        parsed_network(options.mask@) is None <==> start.server.inner.mask is None,
        parsed_network(options.mask@) matches Some((net, prefix)) ==> (start.server.inner.mask
            matches Some(mask) && mask.ip == net && mask.prefix == prefix),
        start.self_test == self_test_by(lowercase(options.test_hbbs@), options.test_hbbs),
        start.server.limits == limits,
        start.server.inner.mask is None ==> start.server.inner.local_ip@.len() == 0,
        start.server.inner.mask is Some ==> start.server.inner.local_ip@ == options.local_ip@,
        start.server@.persistent(key) is None,
        start.server@.waiting(key) is None,
        !start.server@.ip_blocker.dom().contains(ip),
        !start.server@.ip_changes.dom().contains(ip),
        start.always_use_relay <==> uppercase(options.always_use_relay@) == "Y"@,
{
}

/// A server tests itself unless it is told not to: at its own address if none is given,
/// else at the one that is. A failed test on every IPv6 address is repeated on every IPv4
/// address at the same port, and no other is.
pub proof fn law_self_test(
    lower: Seq<char>,
    option: String,
    ip: u128,
    v4: u32,
    port: u16,
    flowinfo: u32,
    scope_id: u32,
)
    ensures
        lower == "no"@ ==> self_test_by(lower, option) == SelfTest::Skip,
        lower != "no"@ && option@.len() == 0 ==> self_test_by(lower, option) == SelfTest::OwnAddr,
        lower != "no"@ && option@.len() > 0 ==> self_test_by(lower, option) == SelfTest::At(option),
        test_again(Addr::V6 { ip: 0, port, flowinfo, scope_id }) == Some(Addr::V4 { ip: 0, port }),
        ip != 0 ==> test_again(Addr::V6 { ip, port, flowinfo, scope_id }) is None,
        test_again(Addr::V4 { ip: v4, port }) is None,
{
}

/// One turn of the loop: several relay servers are checked at the timer, one is not; those
/// that answer are taken over; a message, or a list as text, is passed on; connections go to
/// their handlers, as web sockets from the listener for them alone; a failure ends the loop
/// and names what failed. Nothing else changes.
pub proof fn law_turn(
    view: ServerView,
    event: LoopEvent,
    after: ServerView,
    step: LoopStep,
)
    requires
        turns_to(view, event, after, step),
    ensures
        after == (ServerView { relay_servers: after.relay_servers, ..view }),
        event matches LoopEvent::Data(Data::RelayServers(list)) ==> after.relay_servers == texts(
            list@,
        ) && step == LoopStep::Nothing,
        !(event matches LoopEvent::Data(Data::RelayServers(_))) ==> after == view,
        event is RelayTimer ==> {
            &&& view.relay_servers0.len() <= 1 ==> step == LoopStep::Nothing
            &&& view.relay_servers0.len() >= 2 ==> (step matches LoopStep::CheckRelays(list)
                && texts(list@) == view.relay_servers0)
        },
        event matches LoopEvent::Data(Data::Msg(message, to)) ==> step == LoopStep::SendUdp(
            message,
            to,
        ),
        event matches LoopEvent::Data(Data::RelayServers0(text)) ==> step
            == LoopStep::ParseRelayServers(text),
        event is Datagram ==> step == LoopStep::HandleDatagram,
        event is NoDatagram ==> step == LoopStep::Nothing,
        step is Fail <==> event is DatagramFailed || event is AcceptFailed,
        event is DatagramFailed ==> step == LoopStep::Fail(LoopFailure::UdpSocket),
        event matches LoopEvent::AcceptFailed(at) ==> (step matches LoopStep::Fail(failure)
            && failure.endpoint() == at),
        event == LoopEvent::Accepted(Endpoint::Tcp) ==> step == (LoopStep::HandleListener {
            ws: false,
        }),
        event == LoopEvent::Accepted(Endpoint::Ws) ==> step == (LoopStep::HandleListener {
            ws: true,
        }),
        event == LoopEvent::Accepted(Endpoint::Nat) ==> step == LoopStep::HandleListener2,
        event == LoopEvent::Accepted(Endpoint::Console) ==> step == LoopStep::HandleListener2,
{
}

/// The answer to a request to punch a hole goes to the peer that it is for, with nothing
/// changed, or back to where the request came from; without an answer nothing is done.
pub proof fn law_punch_answered(
    view: ServerView,
    message: RendezvousMessage,
    peer: Remote,
    from: Remote,
)
    ensures
        punch_answered(view, None, from) == (view, Seq::<ActionView>::empty()),
        punch_answered(view, Some((message, Some(peer))), from).0 == view,
        punch_answered(view, Some((message, Some(peer))), from).1.len() == 1,
        punch_answered(view, Some((message, Some(peer))), from).1[0] == view.to_peer(
            peer,
            message@,
        ),
        punch_answered(view, Some((message, None)), from) == view.to_tcp(from, message@),
{
}

/// A relay response goes on without the address that it carried, and with all else that it
/// did: to have the key of the peer found if it names one by an id, else straight on.
pub proof fn law_relay_addressed(response: RelayResponseView, to: Remote, next: Next)
    requires
        addressed(response, to, next),
    ensures
        ({
            let named = response.peer matches RelayPeerView::Id(id) && id.len() > 0;
            &&& named <==> next is FindPk
            &&& !named <==> next is IsLan
            &&& next matches Next::FindPk { response: then, to: same } ==> same == to
                && then@.socket_addr.len() == 0 && then@.peer == response.peer && then@.relay_server
                == response.relay_server && then@.version == response.version && then@.rest
                == response.rest
            &&& next matches Next::IsLan { response: then, to: same } ==> same == to
                && then@.socket_addr.len() == 0 && then@.peer == response.peer && then@.relay_server
                == response.relay_server && then@.version == response.version && then@.rest
                == response.rest
        }),
{
}

/// Putting in the key of a peer, or a relay server, changes nothing else of a response.
pub proof fn law_relay_filled(response: RelayResponseView, pk: Seq<u8>, relay: Seq<char>)
    ensures
        ({
            let one = with_key(response, pk);
            let two = with_relay(response, relay);
            &&& one.peer == RelayPeerView::Pk(pk) && one.relay_server == response.relay_server
            &&& one.socket_addr == response.socket_addr && one.version == response.version
            &&& one.rest == response.rest
            &&& two.relay_server == relay && two.peer == response.peer
            &&& two.socket_addr == response.socket_addr && two.version == response.version
            &&& two.rest == response.rest
        }),
{
}

/// The check that an id is free is answered by the connection's own sink: that the form is
/// wrong, that the address asks too often, that the id belongs to another machine, or that it
/// is free. It leaves nothing but that the address has asked, and ends the connection.
pub proof fn law_id_check(
    view: ServerView,
    conn: Connection,
    rk: RegisterPk,
    ip: Seq<char>,
    id_is_valid: bool,
    now: u64,
    after: ServerView,
    done: Seq<ActionView>,
    next: Next,
    sink: u64,
    owner: PeerView,
)
    requires
        conn.sink == Some(sink),
        id_asked(view, conn, rk, ip, id_is_valid, now, after, done, next),
    ensures
        ({
            let passes = ip_admits(view.ip_blocker, ip, rk.id@, now, view.limits);
            let refusal = if id_is_valid {
                RegisterPkResult::TooFrequent
            } else {
                RegisterPkResult::InvalidIdFormat
            };
            &&& after == (ServerView { ip_blocker: after.ip_blocker, ..view })
            &&& !id_is_valid ==> after == view
            &&& id_is_valid ==> after.ip_blocker == ip_after(
                view.ip_blocker,
                ip,
                rk.id@,
                now,
                view.limits,
            )
            &&& id_is_valid && passes ==> done.len() == 0 && next == (Next::FindIdOwner { rk })
            &&& !id_is_valid || !passes ==> next == (Next::Done { keep: false }) && done == seq![
                ActionView::Send {
                    sink,
                    message: Some(UnionView::RegisterPkResponse { result: refusal }),
                },
            ]
        }),
        ({
            let taken = owner.uuid.len() > 0 && owner.uuid != rk.uuid@;
            &&& id_answer(conn, Some(owner), rk.uuid@) == seq![
                ActionView::Send {
                    sink,
                    message: Some(
                        UnionView::RegisterPkResponse {
                            result: if taken {
                                RegisterPkResult::IdExists
                            } else {
                                RegisterPkResult::Accepted
                            },
                        },
                    ),
                },
            ]
            &&& id_answer(conn, None, rk.uuid@) == seq![
                ActionView::Send {
                    sink,
                    message: Some(
                        UnionView::RegisterPkResponse { result: RegisterPkResult::Accepted },
                    ),
                },
            ]
        }),
{
}

/// The question who is online is answered once, with the bits of each peer, by the sink for
/// answers; without one it is not.
pub proof fn law_online_answered(
    view: ServerView,
    conn: Connection,
    last_heard: Seq<Option<u64>>,
    now: u64,
    done: Seq<ActionView>,
)
    requires
        online_answered(view, conn, last_heard, now, done),
    ensures
        view.answer_sink(conn) is None ==> done.len() == 0,
        view.answer_sink(conn) matches Some(sink) ==> {
            &&& done.len() == 1
            &&& done[0] matches ActionView::Send { sink: by, message }
            &&& by == sink
            &&& message matches Some(UnionView::OnlineResponse { states })
            &&& tells_online(states, last_heard, now)
        },
{
}

/// An offer holds one key, and that is the public key of its secret key, signed.
pub proof fn law_offer(message: Option<UnionView>, secret_key: Seq<u8>, sk: Seq<u8>)
    requires
        is_offer(message, secret_key, sk),
    ensures
        message matches Some(UnionView::KeyExchange { keys }) && keys.len() == 1 && keys[0]
            == signed_message(box_public_key(secret_key), sk),
{
}

/// A connection without a key exchange is not encrypted, and starts with what was sent.
pub proof fn law_in_plain(first: Option<Vec<u8>>)
    ensures
        !in_plain(first).encrypted,
        in_plain(first).first == first,
{
}

/// A handshake that fails says why: by the error of the writing or the reading, that the
/// connection was closed, or that time ran out.
pub proof fn law_failure_words(error: String)
    ensures
        HandshakeError::SendFailed(error).words() == error@,
        HandshakeError::ReadFailed(error).words() == "secure_tcp handshake failed: "@ + error@,
        HandshakeError::Closed.words() == "secure_tcp handshake failed: connection closed"@,
        HandshakeError::TimedOut.words() == "secure_tcp handshake failed: timeout"@,
{
}

/// What failed is rebuilt where it listened: at the same address and port.
pub proof fn law_rebuilt(plan: StartPlan, endpoint: Endpoint)
    ensures
        plan.listen_at(endpoint).endpoint == endpoint,
        plan.listen_at(endpoint).bind_addr == plan.bind_addr,
        plan.listen_at(Endpoint::Udp).port == plan.port,
        plan.listen_at(Endpoint::Tcp).port == plan.port,
        plan.listen_at(Endpoint::Nat).port == plan.nat_port,
        plan.listen_at(Endpoint::Console).port == plan.nat_port,
        plan.listen_at(Endpoint::Ws).port == plan.ws_port,
{
}

/// How long things take: thirty seconds for a silent connection or peer, ten for a
/// handshake, one for a command of up to a kilobyte; relay servers are checked every three.
pub proof fn law_times()
    ensures
        REG_TIMEOUT == 30_000,
        READ_TIMEOUT == 30_000,
        HANDSHAKE_TIMEOUT == 10_000,
        COMMAND_TIMEOUT == 1_000,
        COMMAND_SIZE == 1_024,
        CHECK_RELAY_TIMEOUT == 3_000,
{
}

/// The views of messages say what each message holds.
pub proof fn law_message_views(
    rf: RequestRelay,
    rr: RelayResponse,
    rk: RegisterPk,
    cu: ConfigUpdate,
    id: String,
    pk: Vec<u8>,
)
    ensures
        rf@.id == rf.id@ && rf@.uuid == rf.uuid@ && rf@.licence_key == rf.licence_key@,
        rf@.socket_addr == rf.socket_addr@ && rf@.rest == rf.rest@,
        rr@.socket_addr == rr.socket_addr@ && rr@.peer == rr.peer@ && rr@.relay_server
            == rr.relay_server@,
        rr@.version == rr.version@ && rr@.rest == rr.rest@,
        RelayPeer::Unset@ == RelayPeerView::Unset,
        RelayPeer::Id(id)@ == RelayPeerView::Id(id@),
        RelayPeer::Pk(pk)@ == RelayPeerView::Pk(pk@),
        rk@.id == rk.id@ && rk@.uuid == rk.uuid@ && rk@.pk == rk.pk@,
        cu@.serial == cu.serial && cu@.rendezvous_servers == texts(cu.rendezvous_servers@),
{
}

/// The view of a union says of which kind it is and what it holds.
pub proof fn law_union_views(
    rf: RequestRelay,
    rr: RelayResponse,
    rk: RegisterPk,
    cu: ConfigUpdate,
    id: String,
    bytes: Vec<u8>,
    list: Vec<String>,
    keys: Vec<Vec<u8>>,
    n: i32,
    yes: bool,
    result: RegisterPkResult,
)
    ensures
        Union::PunchHoleRequest(bytes)@ == UnionView::PunchHoleRequest(bytes@),
        Union::RequestRelay(rf)@ == UnionView::RequestRelay(rf@),
        Union::RelayResponse(rr)@ == UnionView::RelayResponse(rr@),
        Union::PunchHoleSent(bytes)@ == UnionView::PunchHoleSent(bytes@),
        Union::LocalAddr(bytes)@ == UnionView::LocalAddr(bytes@),
        (Union::TestNatRequest { serial: n })@ == (UnionView::TestNatRequest { serial: n }),
        (Union::TestNatResponse { port: n, cu: None })@ == (UnionView::TestNatResponse {
            port: n,
            cu: None,
        }),
        (Union::TestNatResponse { port: n, cu: Some(cu) })@ == (UnionView::TestNatResponse {
            port: n,
            cu: Some(cu@),
        }),
        Union::RegisterPk(rk)@ == UnionView::RegisterPk(rk@),
        (Union::RegisterPkResponse { result })@ == (UnionView::RegisterPkResponse { result }),
        (Union::RegisterPeer { id, serial: n })@ == (UnionView::RegisterPeer {
            id: id@,
            serial: n,
        }),
        (Union::RegisterPeerResponse { request_pk: yes })@ == (UnionView::RegisterPeerResponse {
            request_pk: yes,
        }),
        Union::ConfigureUpdate(cu)@ == UnionView::ConfigureUpdate(cu@),
        (Union::OnlineRequest { peers: list })@ == (UnionView::OnlineRequest {
            peers: texts(list@),
        }),
        (Union::OnlineResponse { states: bytes })@ == (UnionView::OnlineResponse {
            states: bytes@,
        }),
        (Union::KeyExchange { keys })@ == (UnionView::KeyExchange { keys: byte_strings(keys@) }),
        Union::Hc(bytes)@ == UnionView::Hc(bytes@),
        Union::Other(bytes)@ == UnionView::Other(bytes@),
        (RendezvousMessage { union: None })@ == None::<UnionView>,
        (RendezvousMessage { union: Some(Union::Hc(bytes)) })@ == Some(UnionView::Hc(bytes@)),
{
}

/// The view of a message is that of what it holds.
pub proof fn law_message_view(union: Union)
    ensures
        (RendezvousMessage { union: Some(union) })@ == Some(union@),
{
}

/// The views of actions say what each asks for.
pub proof fn law_action_views(
    sink: u64,
    message: RendezvousMessage,
    to: Addr,
    id: String,
    addr: Remote,
    uuid: Vec<u8>,
    pk: Vec<u8>,
    ip: String,
    now: u64,
)
    ensures
        (Action::Send { sink, message })@ == (ActionView::Send { sink, message: message@ }),
        (Action::SendUdp { to, message })@ == (ActionView::SendUdp { to, message: message@ }),
        (Action::Release { sink })@ == (ActionView::Release { sink }),
        (Action::UpdatePk { id, addr, uuid, pk, ip })@ == (ActionView::UpdatePk {
            id: id@,
            addr,
            uuid: uuid@,
            pk: pk@,
            ip: ip@,
        }),
        (Action::HearPeer { id, addr, now })@ == (ActionView::HearPeer { id: id@, addr, now }),
        (Action::RefreshPeer { id, now })@ == (ActionView::RefreshPeer { id: id@, now }),
{
}

} // verus!
