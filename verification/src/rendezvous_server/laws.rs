//! What holds of the server as a whole.
use vstd::prelude::*;

use crate::addr::{Addr, Remote};
use crate::message::{RegisterPkResult, UnionView};
use crate::peer::PeerView;
use crate::rendezvous_server::action::ActionView;
use crate::rendezvous_server::register::{
    change_id, conflicts, ip_admits, ip_after, reg_burst_over, reg_counted, registration,
    IpChangeView, IpRecordView, IP_BURST, REG_BURST, REG_BURST_SECS,
};
use crate::rendezvous_server::server::{Endpoint, LoopFailure};
use crate::rendezvous_server::tcp_handler::{bit_at, is_online, tells_online, Connection};
use crate::rendezvous_server::{lemma_filed, lemma_unfiled, Limits, Place, ServerView, REG_TIMEOUT};
use crate::time::{elapsed_millis, elapsed_secs};

verus! {

/// A peer that has registered is reached by the sink of its connection. A plain
/// connection gives way to a web socket at the same address.
pub proof fn law_registered_reachable(
    view: ServerView,
    conn: Connection,
    sink: u64,
    addr: Addr,
    message: Option<UnionView>,
)
    requires
        conn.sink == Some(sink),
        conn.ws || !view.ws_map.dom().contains(conn.remote.key),
    ensures
        view.with_sink_at(conn, conn.home()).to_peer(
            Remote { addr, key: conn.remote.key },
            message,
        ) == (ActionView::Send { sink, message }),
{
}

/// Filing the sink of one connection changes nothing at other addresses.
pub proof fn law_filing_is_local(view: ServerView, conn: Connection, key: Addr)
    requires
        key != conn.remote.key,
    ensures
        view.with_sink_at(conn, conn.home()).persistent(key) == view.persistent(key),
        view.with_sink_at(conn, conn.home()).waiting(key) == view.waiting(key),
        view.closed(conn).persistent(key) == view.persistent(key),
        view.closed(conn).waiting(key) == view.waiting(key),
{
}

/// Once the connection of a registered peer is closed, its sink is filed nowhere.
pub proof fn law_closed_unreachable(view: ServerView, conn: Connection, sink: u64)
    requires
        view.sinks_apart(),
        conn.apart(view),
        conn.sink == Some(sink),
    ensures
        !view.with_sink_at(conn, conn.home()).closed(conn.spent()).is_filed(sink),
{
    let home = conn.home();
    let punch = Place::Punch(conn.remote.key);
    let registered = view.with_sink_at(conn, home);
    lemma_filed(view, home, sink);
    lemma_unfiled(registered, punch);
    let cleared = registered.unfiled(punch);
    assert(cleared.sink_at(home) == registered.sink_at(home));
    lemma_unfiled(cleared, home);
}

impl Place {
    /// The address of a place.
    pub open spec fn key(self) -> Addr {
        match self {
            Place::Punch(key) => key,
            Place::Ws(key) => key,
            Place::Tcp(key) => key,
        }
    }
}

impl ServerView {
    /// A sink is filed at an address.
    pub open spec fn knows(self, key: Addr) -> bool {
        ||| self.tcp_punch.dom().contains(key)
        ||| self.ws_map.dom().contains(key)
        ||| self.tcp_map.dom().contains(key)
    }
}

/// What can happen to a server and one of its connections while the connection is open.
pub enum Happening {
    /// A request that waits for its answer came in by the connection.
    Asked,
    /// A peer registered by the connection.
    Registered { id: String },
    /// A message went to a remote end, by whatever connection it came.
    Sent { to: Remote, message: Option<UnionView> },
    /// The records on addresses and peers changed.
    Recorded {
        ip_blocker: Map<Seq<char>, IpRecordView>,
        ip_changes: Map<Seq<char>, IpChangeView>,
    },
    /// Another connection filed its sink.
    OtherFiled { other: Connection, place: Place },
    /// Another connection was closed.
    OtherClosed { other: Connection },
}

/// Nothing is filed or closed for another connection at the address `key`.
pub open spec fn elsewhere(happening: Happening, key: Addr) -> bool {
    match happening {
        Happening::OtherFiled { place, .. } => place.key() != key,
        Happening::OtherClosed { other } => other.remote.key != key,
        _ => true,
    }
}

/// The server and the connection after one thing has happened.
pub open spec fn after_one(view: ServerView, conn: Connection, happening: Happening) -> (
    ServerView,
    Connection,
) {
    match happening {
        Happening::Asked => (
            view.with_sink_at(conn, Place::Punch(conn.remote.key)),
            conn.spent(),
        ),
        Happening::Registered { id } => (
            view.with_sink_at(conn, conn.home()),
            conn.registered_as(id),
        ),
        Happening::Sent { to, message } => (view.to_tcp(to, message).0, conn),
        Happening::Recorded { ip_blocker, ip_changes } => (
            ServerView { ip_blocker, ip_changes, ..view },
            conn,
        ),
        Happening::OtherFiled { other, place } => (view.with_sink_at(other, place), conn),
        Happening::OtherClosed { other } => (view.closed(other), conn),
    }
}

/// The server and the connection after all that has happened.
pub open spec fn after_all(view: ServerView, conn: Connection, happened: Seq<Happening>) -> (
    ServerView,
    Connection,
)
    decreases happened.len(),
{
    if happened.len() == 0 {
        (view, conn)
    } else {
        let before = after_all(view, conn, happened.drop_last());
        after_one(before.0, before.1, happened.last())
    }
}

/// Things may happen, none of them for another connection at the same address, that lead
/// from one state of the server and a connection to another.
pub open spec fn comes_to(
    view: ServerView,
    conn: Connection,
    after: ServerView,
    open: Connection,
) -> bool {
    exists|happened: Seq<Happening>|
        all_elsewhere(happened, conn.remote.key) && #[trigger] after_all(view, conn, happened) == (
            after,
            open,
        )
}

/// Nothing that has happened was for another connection at the address `key`.
pub open spec fn all_elsewhere(happened: Seq<Happening>, key: Addr) -> bool {
    forall|i: int| 0 <= i < happened.len() ==> elsewhere(#[trigger] happened[i], key)
}

/// Where nothing happens, nothing changes.
pub(crate) proof fn lemma_nothing_happens(view: ServerView, conn: Connection)
    ensures
        comes_to(view, conn, view, conn),
{
    assert(after_all(view, conn, seq![]) == (view, conn));
}

/// One thing that happens leads to what follows from it.
pub proof fn lemma_one_happens(view: ServerView, conn: Connection, happening: Happening)
    requires
        elsewhere(happening, conn.remote.key),
    ensures
        comes_to(
            view,
            conn,
            after_one(view, conn, happening).0,
            after_one(view, conn, happening).1,
        ),
{
    let happened = seq![happening];
    assert(happened.drop_last() =~= seq![]);
    assert(after_all(view, conn, happened.drop_last()) == (view, conn));
    assert(after_all(view, conn, happened) == after_one(view, conn, happening));
}

/// A change of the records alone is one of the things that happen.
pub(crate) proof fn lemma_recorded(view: ServerView, conn: Connection, after: ServerView)
    requires
        after == (ServerView {
            ip_blocker: after.ip_blocker,
            ip_changes: after.ip_changes,
            ..view
        }),
    ensures
        comes_to(view, conn, after, conn),
{
    lemma_one_happens(
        view,
        conn,
        Happening::Recorded { ip_blocker: after.ip_blocker, ip_changes: after.ip_changes },
    );
}

proof fn lemma_remote_stays(view: ServerView, conn: Connection, happened: Seq<Happening>)
    ensures
        after_all(view, conn, happened).1.remote == conn.remote,
    decreases happened.len(),
{
    if happened.len() > 0 {
        lemma_remote_stays(view, conn, happened.drop_last());
    }
}

proof fn lemma_after_both(
    view: ServerView,
    conn: Connection,
    first: Seq<Happening>,
    second: Seq<Happening>,
)
    ensures
        ({
            let (middle, open) = after_all(view, conn, first);
            after_all(view, conn, first + second) == after_all(middle, open, second)
        }),
    decreases second.len(),
{
    if second.len() == 0 {
        assert(first + second =~= first);
    } else {
        lemma_after_both(view, conn, first, second.drop_last());
        assert((first + second).drop_last() =~= first + second.drop_last());
    }
}

/// What may happen one after the other may happen.
pub proof fn law_happenings_follow(
    view: ServerView,
    conn: Connection,
    middle: ServerView,
    open: Connection,
    after: ServerView,
    last: Connection,
)
    requires
        comes_to(view, conn, middle, open),
        comes_to(middle, open, after, last),
    ensures
        comes_to(view, conn, after, last),
{
    let first = choose|first: Seq<Happening>|
        all_elsewhere(first, conn.remote.key) && #[trigger] after_all(view, conn, first) == (
            middle,
            open,
        );
    let second = choose|second: Seq<Happening>|
        all_elsewhere(second, open.remote.key) && #[trigger] after_all(middle, open, second) == (
            after,
            last,
        );
    lemma_remote_stays(view, conn, first);
    lemma_after_both(view, conn, first, second);
    assert(after_all(view, conn, first + second) == (after, last));
}

/// While a connection is open, its address is known only where its own sink was filed.
proof fn lemma_known_by_own_sink(view: ServerView, conn: Connection, happened: Seq<Happening>)
    requires
        !view.knows(conn.remote.key),
        all_elsewhere(happened, conn.remote.key),
    ensures
        ({
            let (after, open) = after_all(view, conn, happened);
            let key = conn.remote.key;
            &&& open.remote == conn.remote
            &&& open.ws == conn.ws
            &&& open.sink is Some ==> !after.knows(key)
            &&& if conn.ws {
                !after.tcp_map.dom().contains(key)
            } else {
                !after.ws_map.dom().contains(key)
            }
        }),
    decreases happened.len(),
{
    if happened.len() > 0 {
        let earlier = happened.drop_last();
        assert forall|i: int| 0 <= i < earlier.len() implies elsewhere(
            #[trigger] earlier[i],
            conn.remote.key,
        ) by {
            assert(earlier[i] == happened[i]);
        }
        lemma_known_by_own_sink(view, conn, earlier);
        assert(elsewhere(happened[happened.len() - 1], conn.remote.key));
    }
}

/// An address that is not known when a connection from it opens is not known after the
/// connection is closed, whatever happened in between.
pub proof fn law_closed_unknown(
    view: ServerView,
    conn: Connection,
    after: ServerView,
    open: Connection,
)
    requires
        !view.knows(conn.remote.key),
        comes_to(view, conn, after, open),
    ensures
        !after.closed(open).knows(conn.remote.key),
{
    let happened = choose|happened: Seq<Happening>|
        all_elsewhere(happened, conn.remote.key) && #[trigger] after_all(view, conn, happened) == (
            after,
            open,
        );
    lemma_known_by_own_sink(view, conn, happened);
}

/// The answer to a request goes back by the connection that the request came in by, and
/// spends its sink, unless a peer is registered at its address.
pub proof fn law_request_answered(
    view: ServerView,
    conn: Connection,
    sink: u64,
    answer: Option<UnionView>,
)
    requires
        conn.sink == Some(sink),
        view.persistent(conn.remote.key) is None,
    ensures
        view.with_sink_at(conn, Place::Punch(conn.remote.key)).to_tcp(conn.remote, answer) == (
            view.unfiled(Place::Punch(conn.remote.key)),
            seq![ActionView::Send { sink, message: answer }, ActionView::Release { sink }],
        ),
{
    let place = Place::Punch(conn.remote.key);
    let asked = view.with_sink_at(conn, place);
    assert(asked.tcp_punch.remove(conn.remote.key) =~= view.tcp_punch.remove(conn.remote.key));
    assert(asked.to_tcp(conn.remote, answer).1 =~= seq![
        ActionView::Send { sink, message: answer },
        ActionView::Release { sink },
    ]);
}

/// A sink that waits for one answer takes one: a second message to the same remote end
/// is lost, and changes nothing.
pub proof fn law_one_answer(
    view: ServerView,
    to: Remote,
    first: Option<UnionView>,
    second: Option<UnionView>,
)
    requires
        view.persistent(to.key) is None,
    ensures
        view.to_tcp(to, first).0.to_tcp(to, second) == (
            view.to_tcp(to, first).0,
            Seq::<ActionView>::empty(),
        ),
{
    let spent = view.to_tcp(to, first).0;
    assert(spent.tcp_punch =~= spent.tcp_punch.remove(to.key));
    assert(spent.to_tcp(to, second).1 =~= Seq::<ActionView>::empty());
}

/// A sink that is let go of after a message is filed nowhere.
pub proof fn law_released_unfiled(
    view: ServerView,
    to: Remote,
    message: Option<UnionView>,
    sink: u64,
)
    requires
        view.sinks_apart(),
        view.to_tcp(to, message).1.contains(ActionView::Release { sink }),
    ensures
        !view.to_tcp(to, message).0.is_filed(sink),
{
    lemma_unfiled(view, Place::Punch(to.key));
    let list = view.to_tcp(to, message).1;
    let i = choose|i: int| 0 <= i < list.len() && list[i] == (ActionView::Release { sink });
    assert(view.persistent(to.key) is None);
    assert(view.waiting(to.key) == Some(sink));
}

/// The records after the first `n` of a run of requests from one address.
pub open spec fn ip_run(
    records: Map<Seq<char>, IpRecordView>,
    ip: Seq<char>,
    ids: Seq<Seq<char>>,
    times: Seq<u64>,
    limits: Limits,
    n: nat,
) -> Map<Seq<char>, IpRecordView>
    decreases n,
{
    if n == 0 {
        records
    } else {
        ip_after(
            ip_run(records, ip, ids, times, limits, (n - 1) as nat),
            ip,
            ids[n - 1],
            times[n - 1],
            limits,
        )
    }
}

/// Each request of a run but the first comes within the pause that the limits ask for,
/// counted from the last request that was not refused for its frequency.
pub open spec fn ip_in_a_row(
    records: Map<Seq<char>, IpRecordView>,
    ip: Seq<char>,
    ids: Seq<Seq<char>>,
    times: Seq<u64>,
    limits: Limits,
) -> bool {
    forall|i: int|
        0 < i < times.len() ==> elapsed_secs(
            ip_run(records, ip, ids, times, limits, i as nat)[ip].requests.1,
            #[trigger] times[i],
        ) <= limits.ip_block_secs
}

/// What is remembered of an unseen address after `n` requests of a run.
proof fn lemma_ip_run(
    records: Map<Seq<char>, IpRecordView>,
    ip: Seq<char>,
    ids: Seq<Seq<char>>,
    times: Seq<u64>,
    limits: Limits,
    n: nat,
)
    requires
        !records.dom().contains(ip),
        0 < n <= times.len(),
        ids.len() == times.len(),
        ip_in_a_row(records, ip, ids, times, limits),
    ensures
        ({
            let run = ip_run(records, ip, ids, times, limits, n);
            let last = if n < IP_BURST + 2 {
                n - 1
            } else {
                IP_BURST + 1
            };
            &&& run.dom().contains(ip)
            &&& run[ip].requests == (last as u32, times[last])
            &&& run[ip].ids.finite()
            &&& run[ip].ids.len() <= last
        }),
    decreases n,
{
    if n > 1 {
        lemma_ip_run(records, ip, ids, times, limits, (n - 1) as nat);
        let record = ip_run(records, ip, ids, times, limits, (n - 1) as nat)[ip];
        assert(elapsed_secs(record.requests.1, times[n - 1]) <= limits.ip_block_secs);
        let kept = if record.day_over(times[n - 1], limits) {
            Set::empty()
        } else {
            record.ids
        };
        assert(kept.insert(ids[n - 1]).len() <= kept.len() + 1);
    } else {
        assert(ip_run(records, ip, ids, times, limits, 0) == records);
    }
}

/// An address that was not seen before gets the first `IP_BURST + 2` of the requests that
/// it makes in a row through, and none after them.
pub proof fn law_ip_burst(
    records: Map<Seq<char>, IpRecordView>,
    ip: Seq<char>,
    ids: Seq<Seq<char>>,
    times: Seq<u64>,
    limits: Limits,
    n: nat,
)
    requires
        !records.dom().contains(ip),
        n < times.len(),
        ids.len() == times.len(),
        ip_in_a_row(records, ip, ids, times, limits),
    ensures
        ip_admits(
            ip_run(records, ip, ids, times, limits, n),
            ip,
            ids[n as int],
            times[n as int],
            limits,
        ) <==> n < IP_BURST + 2,
{
    if n > 0 {
        lemma_ip_run(records, ip, ids, times, limits, n);
        let record = ip_run(records, ip, ids, times, limits, n)[ip];
        assert(elapsed_secs(record.requests.1, times[n as int]) <= limits.ip_block_secs);
    }
}

/// How often a known address was counted after `n` requests of a run that follows a pause.
proof fn lemma_ip_run_again(
    records: Map<Seq<char>, IpRecordView>,
    ip: Seq<char>,
    ids: Seq<Seq<char>>,
    times: Seq<u64>,
    limits: Limits,
    n: nat,
)
    requires
        records.dom().contains(ip),
        0 < n <= times.len(),
        elapsed_secs(records[ip].requests.1, times[0]) > limits.ip_block_secs,
        ip_in_a_row(records, ip, ids, times, limits),
    ensures
        ({
            let run = ip_run(records, ip, ids, times, limits, n);
            let count = if n < IP_BURST + 1 {
                n as int
            } else {
                IP_BURST + 1
            };
            &&& run.dom().contains(ip)
            &&& run[ip].requests == (count as u32, times[count - 1])
        }),
    decreases n,
{
    if n > 1 {
        lemma_ip_run_again(records, ip, ids, times, limits, (n - 1) as nat);
        let record = ip_run(records, ip, ids, times, limits, (n - 1) as nat)[ip];
        assert(elapsed_secs(record.requests.1, times[n - 1]) <= limits.ip_block_secs);
    } else {
        assert(ip_run(records, ip, ids, times, limits, 0) == records);
    }
}

/// A known address that has paused makes `IP_BURST + 1` requests in a row before any is
/// refused for its frequency; all after them are.
pub proof fn law_ip_burst_again(
    records: Map<Seq<char>, IpRecordView>,
    ip: Seq<char>,
    ids: Seq<Seq<char>>,
    times: Seq<u64>,
    limits: Limits,
    n: nat,
)
    requires
        records.dom().contains(ip),
        n < times.len(),
        elapsed_secs(records[ip].requests.1, times[0]) > limits.ip_block_secs,
        ip_in_a_row(records, ip, ids, times, limits),
    ensures
        ip_run(records, ip, ids, times, limits, n)[ip].burst_over(times[n as int], limits) <==> n
            >= IP_BURST + 1,
{
    if n > 0 {
        lemma_ip_run_again(records, ip, ids, times, limits, n);
        let record = ip_run(records, ip, ids, times, limits, n)[ip];
        assert(elapsed_secs(record.requests.1, times[n as int]) <= limits.ip_block_secs);
    } else {
        assert(ip_run(records, ip, ids, times, limits, 0) == records);
    }
}

/// Requests that are refused for their frequency do not extend the wait: after any of
/// them the record is as it was.
pub proof fn law_ip_wait(
    records: Map<Seq<char>, IpRecordView>,
    ip: Seq<char>,
    ids: Seq<Seq<char>>,
    times: Seq<u64>,
    limits: Limits,
    n: nat,
)
    requires
        records.dom().contains(ip),
        n <= times.len(),
        forall|i: int|
            0 <= i < n ==> records[ip].burst_over(#[trigger] times[i], limits),
    ensures
        ip_run(records, ip, ids, times, limits, n) == records,
    decreases n,
{
    if n > 0 {
        law_ip_wait(records, ip, ids, times, limits, (n - 1) as nat);
        assert(records[ip].burst_over(times[n - 1], limits));
        assert(ip_run(records, ip, ids, times, limits, n) =~= records);
    }
}

/// Requests from one address do not count against another.
pub proof fn law_addresses_apart(
    records: Map<Seq<char>, IpRecordView>,
    ip: Seq<char>,
    id: Seq<char>,
    now: u64,
    other: Seq<char>,
    other_id: Seq<char>,
    then: u64,
    limits: Limits,
)
    requires
        other != ip,
    ensures
        ip_admits(ip_after(records, ip, id, now, limits), other, other_id, then, limits)
            == ip_admits(records, other, other_id, then, limits),
{
}

/// An id that belongs to one machine is not registered by another, and the check that
/// an id is free says so beforehand.
pub proof fn law_id_bound(peer: PeerView, uuid: Seq<u8>, pk: Seq<u8>, ip: Seq<char>, now: u64)
    requires
        peer.uuid.len() > 0,
        peer.uuid != uuid,
    ensures
        registration(peer, uuid, pk, ip, now) == Err::<(bool, bool), _>(
            RegisterPkResult::UuidMismatch,
        ),
        change_id(Some(peer), uuid) == RegisterPkResult::IdExists,
{
}

/// An id that is found free for a machine is refused to it only for its frequency, or
/// because both its address and its key are new.
pub proof fn law_free_id(peer: PeerView, uuid: Seq<u8>, pk: Seq<u8>, ip: Seq<char>, now: u64)
    requires
        change_id(Some(peer), uuid) == RegisterPkResult::Accepted,
    ensures
        registration(peer, uuid, pk, ip, now) == Err::<(bool, bool), _>(
            RegisterPkResult::UuidMismatch,
        ) ==> peer.ip != ip && peer.pk != pk,
{
}

/// The peer after the first `n` of a run of registrations with the same values.
pub open spec fn reg_run(
    peer: PeerView,
    uuid: Seq<u8>,
    pk: Seq<u8>,
    ip: Seq<char>,
    times: Seq<u64>,
    n: nat,
) -> PeerView
    decreases n,
{
    if n == 0 {
        peer
    } else {
        let before = reg_run(peer, uuid, pk, ip, times, (n - 1) as nat);
        if registration(before, uuid, pk, ip, times[n - 1]) is Ok {
            reg_counted(before, times[n - 1])
        } else {
            before
        }
    }
}

/// Each registration of a run but the first comes within the pause that starts a new
/// burst, counted from the last one that was accepted.
pub open spec fn reg_in_a_row(
    peer: PeerView,
    uuid: Seq<u8>,
    pk: Seq<u8>,
    ip: Seq<char>,
    times: Seq<u64>,
) -> bool {
    forall|i: int|
        0 < i < times.len() ==> elapsed_secs(
            reg_run(peer, uuid, pk, ip, times, i as nat).reg_pk.1,
            #[trigger] times[i],
        ) <= REG_BURST_SECS
}

proof fn lemma_reg_run(
    peer: PeerView,
    uuid: Seq<u8>,
    pk: Seq<u8>,
    ip: Seq<char>,
    times: Seq<u64>,
    n: nat,
)
    requires
        !conflicts(peer, uuid, pk, ip),
        0 < n <= times.len(),
        peer.reg_pk.0 == 0 || elapsed_secs(peer.reg_pk.1, times[0]) > REG_BURST_SECS,
        reg_in_a_row(peer, uuid, pk, ip, times),
    ensures
        ({
            let count = if n < REG_BURST + 1 {
                n as int
            } else {
                REG_BURST + 1
            };
            reg_run(peer, uuid, pk, ip, times, n) == (PeerView {
                reg_pk: (count as u32, times[count - 1]),
                ..peer
            })
        }),
    decreases n,
{
    if n > 1 {
        lemma_reg_run(peer, uuid, pk, ip, times, (n - 1) as nat);
        let before = reg_run(peer, uuid, pk, ip, times, (n - 1) as nat);
        assert(elapsed_secs(before.reg_pk.1, times[n - 1]) <= REG_BURST_SECS);
    } else {
        assert(reg_run(peer, uuid, pk, ip, times, 0) == peer);
    }
}

/// A peer that has not registered, or has paused, gets the first `REG_BURST + 1` of the
/// registrations that it makes in a row accepted; all after them come too often.
pub proof fn law_reg_burst(
    peer: PeerView,
    uuid: Seq<u8>,
    pk: Seq<u8>,
    ip: Seq<char>,
    times: Seq<u64>,
    n: nat,
)
    requires
        !conflicts(peer, uuid, pk, ip),
        n < times.len(),
        peer.reg_pk.0 == 0 || elapsed_secs(peer.reg_pk.1, times[0]) > REG_BURST_SECS,
        reg_in_a_row(peer, uuid, pk, ip, times),
    ensures
        ({
            let before = reg_run(peer, uuid, pk, ip, times, n);
            let result = registration(before, uuid, pk, ip, times[n as int]);
            if n < REG_BURST + 1 {
                result is Ok
            } else {
                result == Err::<(bool, bool), _>(RegisterPkResult::TooFrequent)
            }
        }),
{
    if n > 0 {
        lemma_reg_run(peer, uuid, pk, ip, times, n);
        let before = reg_run(peer, uuid, pk, ip, times, n);
        assert(elapsed_secs(before.reg_pk.1, times[n as int]) <= REG_BURST_SECS);
    } else {
        assert(reg_run(peer, uuid, pk, ip, times, 0) == peer);
    }
}

/// Registrations that come too often do not extend the wait: after any of them a
/// registration is accepted as soon as the pause since the last accepted one is over.
pub proof fn law_reg_wait(
    peer: PeerView,
    uuid: Seq<u8>,
    pk: Seq<u8>,
    ip: Seq<char>,
    times: Seq<u64>,
    n: nat,
    now: u64,
)
    requires
        !conflicts(peer, uuid, pk, ip),
        n <= times.len(),
        forall|i: int| 0 <= i < n ==> reg_burst_over(peer, #[trigger] times[i]),
        elapsed_secs(peer.reg_pk.1, now) > REG_BURST_SECS,
    ensures
        reg_run(peer, uuid, pk, ip, times, n) == peer,
        registration(reg_run(peer, uuid, pk, ip, times, n), uuid, pk, ip, now) is Ok,
    decreases n,
{
    if n > 0 {
        law_reg_wait(peer, uuid, pk, ip, times, (n - 1) as nat, now);
        assert(reg_burst_over(peer, times[n - 1]));
    }
}

/// What is rebuilt after a failure is what failed.
pub proof fn law_failure_endpoint(endpoint: Endpoint, failure: LoopFailure)
    ensures
        LoopFailure::of(endpoint).endpoint() == endpoint,
        LoopFailure::of(failure.endpoint()) == failure,
{
}

/// A peer that was heard is online until the timeout has passed.
pub proof fn law_heard_online(peer: PeerView, addr: Remote, then: u64, now: u64)
    ensures
        is_online(Some(peer.heard(addr, then).last_reg_time), now) <==> elapsed_millis(then, now)
            < REG_TIMEOUT,
{
}

/// The peer that registered by a plain connection, after the first `n` heartbeats on it.
pub open spec fn heartbeat_run(
    peer: PeerView,
    id: Seq<char>,
    conn: Connection,
    times: Seq<u64>,
    n: nat,
) -> PeerView
    decreases n,
{
    if n == 0 {
        peer
    } else {
        let before = heartbeat_run(peer, id, conn, times, (n - 1) as nat);
        let refresh = ActionView::RefreshPeer { id, now: times[n - 1] };
        if conn.heartbeat(times[n - 1]).contains(refresh) {
            before.refreshed(times[n - 1])
        } else {
            before
        }
    }
}

/// Heartbeats keep a peer online that registered by a plain connection: each of them is
/// noted, and it is online until the timeout has passed since the last. Nothing else that
/// is known of the peer changes, such as where it is.
pub proof fn law_heartbeat_online(
    peer: PeerView,
    id: String,
    conn: Connection,
    times: Seq<u64>,
    n: nat,
    now: u64,
)
    requires
        conn.registered == Some(id),
        !conn.ws,
        0 < n <= times.len(),
    ensures
        heartbeat_run(peer, id@, conn, times, n) == peer.refreshed(times[n - 1]),
        is_online(Some(heartbeat_run(peer, id@, conn, times, n).last_reg_time), now)
            <==> elapsed_millis(times[n - 1], now) < REG_TIMEOUT,
    decreases n,
{
    let then = times[n - 1];
    let refresh = ActionView::RefreshPeer { id: id@, now: then };
    let list = conn.heartbeat(then);
    assert(list[list.len() - 1] == refresh);
    assert(list.contains(refresh));
    if n > 1 {
        law_heartbeat_online(peer, id, conn, times, (n - 1) as nat, now);
    } else {
        assert(heartbeat_run(peer, id@, conn, times, 0) == peer);
    }
}

proof fn lemma_same_byte(one: u8, two: u8)
    by (bit_vector)
    requires
        (one >> 0u8) & 1 == 1 <==> (two >> 0u8) & 1 == 1,
        (one >> 1u8) & 1 == 1 <==> (two >> 1u8) & 1 == 1,
        (one >> 2u8) & 1 == 1 <==> (two >> 2u8) & 1 == 1,
        (one >> 3u8) & 1 == 1 <==> (two >> 3u8) & 1 == 1,
        (one >> 4u8) & 1 == 1 <==> (two >> 4u8) & 1 == 1,
        (one >> 5u8) & 1 == 1 <==> (two >> 5u8) & 1 == 1,
        (one >> 6u8) & 1 == 1 <==> (two >> 6u8) & 1 == 1,
        (one >> 7u8) & 1 == 1 <==> (two >> 7u8) & 1 == 1,
    ensures
        one == two,
{
}

/// There is one answer to which peers are online.
pub proof fn law_online_answer(
    one: Seq<u8>,
    two: Seq<u8>,
    last_heard: Seq<Option<u64>>,
    now: u64,
)
    requires
        tells_online(one, last_heard, now),
        tells_online(two, last_heard, now),
    ensures
        one == two,
{
    assert forall|k: int| 0 <= k < one.len() implies one[k] == two[k] by {
        assert(bit_at(one, 8 * k) <==> bit_at(two, 8 * k));
        assert(bit_at(one, 8 * k + 1) <==> bit_at(two, 8 * k + 1));
        assert(bit_at(one, 8 * k + 2) <==> bit_at(two, 8 * k + 2));
        assert(bit_at(one, 8 * k + 3) <==> bit_at(two, 8 * k + 3));
        assert(bit_at(one, 8 * k + 4) <==> bit_at(two, 8 * k + 4));
        assert(bit_at(one, 8 * k + 5) <==> bit_at(two, 8 * k + 5));
        assert(bit_at(one, 8 * k + 6) <==> bit_at(two, 8 * k + 6));
        assert(bit_at(one, 8 * k + 7) <==> bit_at(two, 8 * k + 7));
        lemma_same_byte(one[k], two[k]);
    }
    assert(one =~= two);
}

} // verus!
