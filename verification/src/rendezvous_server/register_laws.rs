//! What holds of registrations and of the limits on them.
use vstd::prelude::*;
use vstd::utf8::encode_utf8;

use crate::laws::law_elapsed_secs;
use crate::message::{texts, RegisterPkResult};
use crate::peer::{Peer, PeerView};
use crate::rendezvous_server::register::{
    blocker_view, byte_len, change_countable, change_id, change_id_admitted, changes_after,
    changes_view, ip_admits, ip_after, opt_peer, peer_after, reg_burst_over, reg_counted,
    register_pk_admitted, registration, server_after, IpChange, IpChangeView, IpRecord,
    IpRecordView,
};
use crate::rendezvous_server::tcp_handler::Connection;
use crate::rendezvous_server::{Limits, Place, RendezvousServer, ServerView};

verus! {

/// What is remembered of an address at its first request: that it came, and no id. The
/// request passes.
pub proof fn law_first_request(
    records: Map<Seq<char>, IpRecordView>,
    ip: Seq<char>,
    id: Seq<char>,
    now: u64,
    limits: Limits,
)
    requires
        !records.dom().contains(ip),
    ensures
        ip_admits(records, ip, id, now, limits),
        ({
            let record = ip_after(records, ip, id, now, limits)[ip];
            &&& record.requests == (0u32, now)
            &&& record.ids == Set::<Seq<char>>::empty()
            &&& record.ids_time == now
        }),
{
}

/// A request changes what is remembered of its own address, and nothing else.
pub proof fn law_records_apart(
    records: Map<Seq<char>, IpRecordView>,
    ip: Seq<char>,
    id: Seq<char>,
    now: u64,
    limits: Limits,
    other: Seq<char>,
)
    requires
        other != ip,
    ensures
        ip_after(records, ip, id, now, limits).dom().contains(ip),
        ip_after(records, ip, id, now, limits).dom().contains(other) == records.dom().contains(
            other,
        ),
        ip_after(records, ip, id, now, limits)[other] == records[other],
{
}

/// A known address is refused for its frequency, with nothing changed, if 31 of its
/// requests were counted and the pause since the last of them is not over. Otherwise the
/// request is counted at its time, from one after a pause.
pub proof fn law_request_counted(
    record: IpRecordView,
    id: Seq<char>,
    now: u64,
    limits: Limits,
)
    requires
        record.requests.0 <= 31,
    ensures
        ({
            let paused = now - record.requests.1 >= (limits.ip_block_secs + 1) * 1_000_000_000;
            let refused = !paused && record.requests.0 == 31;
            let after = record.after(id, now, limits);
            &&& refused ==> !record.admits(id, now, limits) && after == record
            &&& !refused ==> after.requests.1 == now
            &&& paused ==> after.requests.0 == 1
            &&& !refused && !paused ==> after.requests.0 == record.requests.0 + 1
        }),
{
    law_elapsed_secs(record.requests.1, now, limits.ip_block_secs as nat);
}

/// An address with more than 300 ids of the day gets no new one, and none of them is
/// forgotten for asking; with fewer it gets the id, which is noted. A day without a use
/// of the set empties it, but for the id that is asked for then, if it is new.
pub proof fn law_ids_of_the_day(
    record: IpRecordView,
    id: Seq<char>,
    other: Seq<char>,
    now: u64,
    limits: Limits,
)
    requires
        record.requests.0 <= 30,
        other != id,
    ensures
        ({
            let over = now - record.ids_time >= (limits.day_secs + 1) * 1_000_000_000;
            let full = !over && record.ids.len() > 300;
            let after = record.after(id, now, limits);
            &&& full ==> (record.admits(id, now, limits) <==> record.ids.contains(id))
            &&& full ==> after.ids == record.ids && after.ids_time == record.ids_time
            &&& !full ==> record.admits(id, now, limits) && after.ids_time == now
            &&& !full && !over ==> after.ids.contains(id)
            &&& !full && !over ==> after.ids.contains(other) == record.ids.contains(other)
            &&& over ==> !after.ids.contains(other)
            &&& over ==> (after.ids.contains(id) <==> !record.ids.contains(id))
        }),
{
    law_elapsed_secs(record.requests.1, now, limits.ip_block_secs as nat);
    law_elapsed_secs(record.ids_time, now, limits.day_secs as nat);
}

/// How a registration ends. It is refused as a mismatch if the id belongs to another
/// machine, or if both the address and the key are new; as too frequent if three were
/// counted and the last is less than seven seconds ago. Otherwise it is accepted: the
/// record has to change if the id was free or the key or the address is new, and the
/// address has changed if the id was taken and the address is new.
pub proof fn law_registration(
    peer: PeerView,
    uuid: Seq<u8>,
    pk: Seq<u8>,
    ip: Seq<char>,
    now: u64,
)
    ensures
        ({
            let taken = peer.uuid.len() > 0;
            let mismatch = taken && (peer.uuid != uuid || (peer.ip != ip && peer.pk != pk));
            let often = peer.reg_pk.0 >= 3 && now - peer.reg_pk.1 < 7_000_000_000;
            let result = registration(peer, uuid, pk, ip, now);
            &&& result == Err::<(bool, bool), _>(RegisterPkResult::UuidMismatch) <==> mismatch
            &&& result == Err::<(bool, bool), _>(RegisterPkResult::TooFrequent) <==> !mismatch
                && often
            &&& result is Ok <==> !mismatch && !often
            &&& result matches Ok((changed, moved)) ==> {
                &&& changed <==> !taken || peer.pk != pk || peer.ip != ip
                &&& moved <==> taken && peer.ip != ip
            }
        }),
{
    law_elapsed_secs(peer.reg_pk.1, now, 6);
}

/// An accepted registration is counted at its time, from one after a pause of seven
/// seconds; nothing else of the peer changes.
pub proof fn law_registration_counted(peer: PeerView, now: u64)
    requires
        peer.reg_pk.0 < u32::MAX,
    ensures
        ({
            let after = reg_counted(peer, now);
            let paused = now - peer.reg_pk.1 >= 7_000_000_000;
            &&& after.reg_pk.1 == now
            &&& paused ==> after.reg_pk.0 == 1
            &&& !paused ==> after.reg_pk.0 == peer.reg_pk.0 + 1
            &&& reg_burst_over(peer, now) <==> !paused && peer.reg_pk.0 >= 3
            &&& after.uuid == peer.uuid
            &&& after.pk == peer.pk
            &&& after.ip == peer.ip
            &&& after.socket_addr == peer.socket_addr
            &&& after.last_reg_time == peer.last_reg_time
        }),
{
    law_elapsed_secs(peer.reg_pk.1, now, 6);
}

/// An id is found taken if it belongs to another machine; free if nobody has it, if it
/// belongs to no machine yet, or to the one that asks.
pub proof fn law_change_id(peer: PeerView, uuid: Seq<u8>)
    ensures
        change_id(None, uuid) == RegisterPkResult::Accepted,
        change_id(Some(peer), uuid) == RegisterPkResult::IdExists <==> peer.uuid.len() > 0
            && peer.uuid != uuid,
        change_id(Some(peer), uuid) == RegisterPkResult::Accepted <==> peer.uuid.len() == 0
            || peer.uuid == uuid,
{
}

/// The length of an id is that of the bytes which encode it.
pub proof fn law_byte_len(id: Seq<char>)
    ensures
        byte_len(id) == encode_utf8(id).len(),
        vstd::utf8::is_ascii_chars(id) ==> byte_len(id) == id.len(),
{
    if vstd::utf8::is_ascii_chars(id) {
        vstd::utf8::is_ascii_chars_encode_utf8(id);
    }
}

/// Moves of a peer are counted by address, and forgotten when the first of them is too
/// long ago; those of other peers, and the counts of other addresses, stay.
pub proof fn law_moves(
    changes: Map<Seq<char>, IpChangeView>,
    id: Seq<char>,
    ip: Seq<char>,
    other_id: Seq<char>,
    other_ip: Seq<char>,
    now: u64,
    limits: Limits,
)
    requires
        other_id != id,
        other_ip != ip,
        change_countable(changes, id, ip, now, limits),
    ensures
        ({
            let after = changes_after(changes, id, ip, now, limits);
            let known = changes.dom().contains(id) && now - changes[id].since < (
            limits.ip_change_secs + 1) * 1_000_000_000;
            &&& after.dom().contains(id)
            &&& after.dom().contains(other_id) == changes.dom().contains(other_id)
            &&& after[other_id] == changes[other_id]
            &&& !known ==> after[id].since == now && after[id].seen(ip) == 1
                && after[id].seen(other_ip) == 0
            &&& known ==> after[id].since == changes[id].since && after[id].seen(ip)
                == changes[id].seen(ip) + 1 && after[id].seen(other_ip) == changes[id].seen(
                other_ip,
            )
        }),
{
    if changes.dom().contains(id) {
        law_elapsed_secs(changes[id].since, now, limits.ip_change_secs as nat);
    }
}

/// How often an address was seen is what is written down for it, and never without.
pub proof fn law_seen(change: IpChangeView, ip: Seq<char>)
    ensures
        change.ips.dom().contains(ip) ==> change.seen(ip) == change.ips[ip],
        !change.ips.dom().contains(ip) ==> change.seen(ip) == 0,
{
}

/// A move can be counted unless its counter is full and still in use.
pub proof fn law_countable(
    changes: Map<Seq<char>, IpChangeView>,
    id: Seq<char>,
    ip: Seq<char>,
    now: u64,
    limits: Limits,
)
    ensures
        !change_countable(changes, id, ip, now, limits) <==> changes.dom().contains(id)
            && changes[id].seen(ip) == u32::MAX && now - changes[id].since < (limits.ip_change_secs
            + 1) * 1_000_000_000,
{
    if changes.dom().contains(id) {
        law_elapsed_secs(changes[id].since, now, limits.ip_change_secs as nat);
    }
}

/// A check that an id is free is refused for the form of the id; a registration for an id
/// of fewer than six bytes. Neither counts then. Otherwise both count against the address,
/// and are refused if it asks too often.
pub proof fn law_admitted(
    view: ServerView,
    id: Seq<char>,
    ip: Seq<char>,
    now: u64,
)
    ensures
        ({
            let passes = ip_admits(view.ip_blocker, ip, id, now, view.limits);
            let counted = ip_after(view.ip_blocker, ip, id, now, view.limits);
            let (check, checked) = change_id_admitted(view, id, true, ip, now);
            let (register, registered) = register_pk_admitted(view, id, ip, now);
            &&& change_id_admitted(view, id, false, ip, now) == (
                Err::<(), _>(RegisterPkResult::InvalidIdFormat),
                view,
            )
            &&& encode_utf8(id).len() < 6 ==> register == Err::<(), _>(
                RegisterPkResult::UuidMismatch,
            ) && registered == view
            &&& passes ==> check is Ok
            &&& !passes ==> check == Err::<(), _>(RegisterPkResult::TooFrequent)
            &&& checked == (ServerView { ip_blocker: counted, ..view })
            &&& encode_utf8(id).len() >= 6 ==> register == check && registered == checked
        }),
{
}

/// A registration that is refused leaves the server and the peer as they were. One that is
/// accepted is counted for the peer, and for the server if the peer has moved.
pub proof fn law_registration_leaves(
    view: ServerView,
    peer: PeerView,
    id: Seq<char>,
    uuid: Seq<u8>,
    pk: Seq<u8>,
    ip: Seq<char>,
    now: u64,
)
    ensures
        ({
            let after = server_after(view, peer, id, uuid, pk, ip, now);
            let then = peer_after(peer, uuid, pk, ip, now);
            let accepted = registration(peer, uuid, pk, ip, now) is Ok;
            let moved = peer.uuid.len() > 0 && peer.ip != ip;
            &&& !accepted ==> after == view && then == peer
            &&& accepted ==> then == reg_counted(peer, now)
            &&& accepted && !moved ==> after == view
            &&& accepted && moved ==> after == (ServerView {
                ip_changes: changes_after(view.ip_changes, id, ip, now, view.limits),
                ..view
            })
        }),
{
}

/// A sound server has no sink at two places, and of each address no more than 31 counted
/// requests and 301 ids. A connection keeps its own sink only as long as it is filed nowhere.
pub proof fn law_sound(
    server: RendezvousServer,
    conn: Connection,
    one: Place,
    two: Place,
    ip: Seq<char>,
)
    requires
        server.wf(),
        conn.apart(server@),
    ensures
        server@.sink_at(one) is Some && server@.sink_at(one) == server@.sink_at(two) ==> one == two,
        server@.ip_blocker.dom().contains(ip) ==> server@.ip_blocker[ip].requests.0 <= 31
            && server@.ip_blocker[ip].ids.finite() && server@.ip_blocker[ip].ids.len() <= 301,
        conn.sink is Some ==> server@.sink_at(one) != conn.sink,
{
    if conn.sink is Some && server@.sink_at(one) == conn.sink {
        assert(server@.is_filed(conn.sink->0));
    }
}

/// The views of what is remembered, of a peer and of a server say what each holds.
pub proof fn law_views(
    record: IpRecord,
    change: IpChange,
    peer: Peer,
    server: RendezvousServer,
    records: Map<Seq<char>, IpRecord>,
    changes: Map<Seq<char>, IpChange>,
    key: Seq<char>,
)
    ensures
        record@.requests == record.requests && record@.ids == record.ids@ && record@.ids_time
            == record.ids_time,
        change@.since == change.since && change@.ips == change.ips@,
        peer@.socket_addr == peer.socket_addr,
        peer@.last_reg_time == peer.last_reg_time,
        peer@.uuid == peer.uuid@ && peer@.pk == peer.pk@ && peer@.ip == peer.ip@,
        peer@.reg_pk == peer.reg_pk,
        opt_peer(Some(&peer)) == Some(peer@),
        opt_peer(None) is None,
        server@.inner == server.inner && server@.limits == server.limits,
        server@.rendezvous_servers == texts(server.rendezvous_servers@),
        server@.relay_servers == texts(server.relay_servers@),
        server@.relay_servers0 == texts(server.relay_servers0@),
        server@.tcp_punch == server.tcp_punch@,
        server@.ws_map == server.ws_map@,
        server@.tcp_map == server.tcp_map@,
        records.dom().contains(key) ==> blocker_view(records)[key] == records[key]@,
        changes.dom().contains(key) ==> changes_view(changes)[key] == changes[key]@,
        blocker_view(records).dom().contains(key) == records.dom().contains(key),
        changes_view(changes).dom().contains(key) == changes.dom().contains(key),
        server@.ip_blocker == blocker_view(server.ip_blocker@),
        server@.ip_changes == changes_view(server.ip_changes@),
{
}

} // verus!
