//! What holds of a relay server as a whole.
use vstd::prelude::*;

use crate::addr::{Addr, Ip};
use crate::laws::{all_white, is_core, law_elapsed_millis, law_elapsed_secs, law_pieces};
use crate::message::{RendezvousMessage, RequestRelay, Union};
use crate::relay_server::connection::{
    bad_key, io_loop, make_pair, relay_id, session, ConnectionUse, LoopStep, Pairing, PairingView,
    COMMAND_SIZE, COMMAND_TIMEOUT, PAIR_TIMEOUT, SETTLE, SILENCE, SILENCE_CHECK,
};
use crate::relay_server::relay::{bits, carry_of, settlement_of, Carry, Meter, Settlement, Side};
use crate::relay_server::server::{entries, entry, extended, plan_of, Listener, StartPlan};
use crate::relay_server::stream::{recv_bytes, ws_bytes, Recv, Stream, WsRead};
use crate::relay_server::{RelayServer, RelayServerView, Usage};
use crate::text::{
    decimal_text, law_port_text, lemma_position, pieces, port_of, position, trim_end, trim_start,
    until,
};
use crate::time::elapsed_millis;

verus! {

/// Two connections of one session are paired: the second finds the first, nothing waits
/// for the session after that, and once the relay has ended the server is as it was.
pub proof fn law_pairing(view: RelayServerView, uuid: Seq<char>, first: Stream, id: Seq<char>)
    requires
        !view.peers.dom().contains(uuid),
        !view.usage.dom().contains(id),
    ensures
        view.parked(uuid, first).peers.dom().contains(uuid),
        view.parked(uuid, first).peers[uuid] == first,
        view.parked(uuid, first).paired(uuid, id).peers == view.peers,
        view.parked(uuid, first).paired(uuid, id).usage.dom().contains(id),
        view.parked(uuid, first).paired(uuid, id).finished(id) == view,
{
    let paired = view.parked(uuid, first).paired(uuid, id);
    assert(paired.peers =~= view.peers);
    assert(paired.finished(id) =~= view);
}

/// A connection that waits in vain leaves the server as it was.
pub proof fn law_waiting_in_vain(view: RelayServerView, uuid: Seq<char>, stream: Stream)
    requires
        !view.peers.dom().contains(uuid),
    ensures
        view.parked(uuid, stream).unparked(uuid) == view,
{
    assert(view.parked(uuid, stream).unparked(uuid) =~= view);
}

/// The wait of a connection that was paired in time ends without effect.
pub proof fn law_wait_ends(view: RelayServerView, uuid: Seq<char>, id: Seq<char>)
    ensures
        view.paired(uuid, id).unparked(uuid) == view.paired(uuid, id),
{
    assert(view.paired(uuid, id).unparked(uuid) =~= view.paired(uuid, id));
}

/// Sessions do not disturb each other.
pub proof fn law_sessions_apart(
    view: RelayServerView,
    uuid: Seq<char>,
    other: Seq<char>,
    stream: Stream,
    id: Seq<char>,
)
    requires
        uuid != other,
    ensures
        view.parked(uuid, stream).peers.dom().contains(other) == view.peers.dom().contains(other),
        view.parked(uuid, stream).peers[other] == view.peers[other],
        view.paired(uuid, id).peers.dom().contains(other) == view.peers.dom().contains(other),
        view.paired(uuid, id).peers[other] == view.peers[other],
        view.unparked(uuid).peers.dom().contains(other) == view.peers.dom().contains(other),
        view.unparked(uuid).peers[other] == view.peers[other],
{
}

/// A server with a key takes no session from a request with another.
pub proof fn law_bad_key(key: Seq<char>, first: Option<RendezvousMessage>)
    requires
        bad_key(key, first),
    ensures
        session(key, first) is None,
{
}

/// What one end of a relay gave.
pub open spec fn given(received: Seq<(Side, Seq<u8>)>, from: Side) -> Seq<u8>
    decreases received.len(),
{
    if received.len() == 0 {
        seq![]
    } else {
        let (side, bytes) = received.last();
        given(received.drop_last(), from) + if side == from {
            bytes
        } else {
            seq![]
        }
    }
}

/// What is sent to one end of a relay.
pub open spec fn delivered(meter: Meter, received: Seq<(Side, Seq<u8>)>, to: Side) -> Seq<u8>
    decreases received.len(),
{
    if received.len() == 0 {
        seq![]
    } else {
        let (side, bytes) = received.last();
        let carry = carry_of(meter, side, bytes);
        delivered(meter, received.drop_last(), to) + match carry.send {
            Some(send) if carry.to == to => send,
            _ => seq![],
        }
    }
}

/// Each end of a relay is sent what the other gave, in the same order, with nothing lost
/// and nothing added.
pub proof fn law_delivery(meter: Meter, received: Seq<(Side, Seq<u8>)>)
    ensures
        delivered(meter, received, Side::Peer) == given(received, Side::Stream),
        delivered(meter, received, Side::Stream) == given(received, Side::Peer),
    decreases received.len(),
{
    if received.len() > 0 {
        law_delivery(meter, received.drop_last());
        assert(delivered(meter, received, Side::Peer) =~= given(received, Side::Stream));
        assert(delivered(meter, received, Side::Stream) =~= given(received, Side::Peer));
    }
}

/// What can happen to the account of a relay.
pub enum Turn {
    Carry { len: nat, now: u64 },
    Settle { n: usize, restart: u64, blacked: bool, start_check: usize },
}

/// The account after some turns.
pub open spec fn run(meter: Meter, turns: Seq<Turn>) -> Meter
    decreases turns.len(),
{
    if turns.len() == 0 {
        meter
    } else {
        let before = run(meter, turns.drop_last());
        match turns.last() {
            Turn::Carry { len, now } => before.carried(len, now),
            Turn::Settle { n, restart, blacked, start_check } => before.settled(
                n,
                restart,
                blacked,
                start_check,
            ),
        }
    }
}

/// Bytes that came in over some turns.
pub open spec fn bytes_in(turns: Seq<Turn>) -> nat
    decreases turns.len(),
{
    if turns.len() == 0 {
        0
    } else {
        bytes_in(turns.drop_last()) + match turns.last() {
            Turn::Carry { len, .. } => len,
            Turn::Settle { .. } => 0,
        }
    }
}

/// Milliseconds that were settled over some turns.
pub open spec fn millis_settled(turns: Seq<Turn>) -> nat
    decreases turns.len(),
{
    if turns.len() == 0 {
        0
    } else {
        millis_settled(turns.drop_last()) + match turns.last() {
            Turn::Carry { .. } => 0,
            Turn::Settle { n, .. } => n as nat,
        }
    }
}

/// Over any turns a relay counts every bit that came in and every millisecond that was
/// settled; its highest speed never falls, and it is never taken back from a downgrade.
pub proof fn law_account(meter: Meter, turns: Seq<Turn>)
    requires
        meter.wf(),
        meter.total + bits(bytes_in(turns)) <= usize::MAX,
        meter.elapsed + millis_settled(turns) <= usize::MAX,
    ensures
        run(meter, turns).wf(),
        run(meter, turns).total == meter.total + bits(bytes_in(turns)),
        run(meter, turns).elapsed == meter.elapsed + millis_settled(turns),
        run(meter, turns).highest_s >= meter.highest_s,
        meter.downgrade ==> run(meter, turns).downgrade,
    decreases turns.len(),
{
    if turns.len() > 0 {
        law_account(meter, turns.drop_last());
    }
}

proof fn lemma_unsettled(meter: Meter, carries: Seq<Turn>)
    requires
        meter.wf(),
        forall|i: int| 0 <= i < carries.len() ==> (#[trigger] carries[i]) is Carry,
        meter.total + bits(bytes_in(carries)) <= usize::MAX,
    ensures
        run(meter, carries).total == meter.total + bits(bytes_in(carries)),
        run(meter, carries).total_s == meter.total_s + bits(bytes_in(carries)),
        run(meter, carries).elapsed == meter.elapsed,
    decreases carries.len(),
{
    if carries.len() > 0 {
        let earlier = carries.drop_last();
        assert forall|i: int| 0 <= i < earlier.len() implies (#[trigger] earlier[i]) is Carry by {
            assert(earlier[i] == carries[i]);
        }
        lemma_unsettled(meter, earlier);
        assert(carries[carries.len() - 1] is Carry);
    }
}

/// Between two settlements the speed that the second writes is the difference of the
/// totals, divided by the difference of the times.
pub proof fn law_speed(
    meter: Meter,
    n1: usize,
    restart1: u64,
    blacked1: bool,
    start_check1: usize,
    carries: Seq<Turn>,
    n2: usize,
    restart2: u64,
    blacked2: bool,
    start_check2: usize,
)
    requires
        meter.wf(),
        n2 > 0,
        forall|i: int| 0 <= i < carries.len() ==> (#[trigger] carries[i]) is Carry,
        meter.total + bits(bytes_in(carries)) <= usize::MAX,
        meter.elapsed + n1 + n2 <= usize::MAX,
    ensures
        ({
            let one = meter.settled(n1, restart1, blacked1, start_check1);
            let between = run(one, carries);
            let two = between.settled(n2, restart2, blacked2, start_check2);
            &&& two.elapsed > one.elapsed
            &&& between.speed(n2) == (two.total - one.total) / (two.elapsed - one.elapsed)
        }),
{
    lemma_unsettled(meter.settled(n1, restart1, blacked1, start_check1), carries);
}

/// The latest speed is no higher than the highest.
pub proof fn law_highest_speed(
    meter: Meter,
    n: usize,
    restart: u64,
    blacked: bool,
    start_check: usize,
)
    requires
        n > 0,
    ensures
        meter.speed(n) <= meter.settled(n, restart, blacked, start_check).highest_s,
{
    assert(0 <= meter.total_s as int / n as int <= meter.total_s) by (nonlinear_arith)
        requires
            n > 0,
            meter.total_s >= 0,
    ;
}

/// A relay is downgraded only after the time for that, and for more than it may use on
/// average.
pub proof fn law_downgrade_deserved(
    meter: Meter,
    n: usize,
    restart: u64,
    blacked: bool,
    start_check: usize,
)
    requires
        !meter.downgrade,
        meter.elapsed + n <= usize::MAX,
        meter.settled(n, restart, blacked, start_check).downgrade,
    ensures
        meter.elapsed + n > start_check,
        meter.total > (meter.elapsed + n) * meter.downgrade_threshold,
{
}

/// The lines of two lists, one after the other, are those of both.
proof fn lemma_pieces_joined(one: Seq<char>, two: Seq<char>)
    ensures
        pieces(one + seq!['\n'] + two, '\n') == pieces(one, '\n') + pieces(two, '\n'),
    decreases one.len(),
{
    let both = one + seq!['\n'] + two;
    lemma_position(one, '\n');
    lemma_position(both, '\n');
    let at = position(one, '\n') as int;
    let at_both = position(both, '\n') as int;
    assert forall|i: int| 0 <= i < at implies both[i] != '\n' by {
        assert(both[i] == one[i]);
    }
    assert(both[at] == '\n');
    assert(at_both == at);
    assert(until(both, '\n') =~= until(one, '\n'));
    let rest = both.skip(at + 1);
    if at == one.len() {
        assert(rest =~= two);
        assert(until(one, '\n') =~= one);
        assert(pieces(one, '\n') == seq![one]);
    } else {
        lemma_pieces_joined(one.skip(at + 1), two);
        assert(rest =~= one.skip(at + 1) + seq!['\n'] + two);
        assert(pieces(both, '\n') =~= pieces(one, '\n') + pieces(two, '\n'));
    }
}

/// A list that holds the lines of two lists names the addresses of both.
pub proof fn law_lists_joined(one: Seq<char>, two: Seq<char>)
    ensures
        entries(one + seq!['\n'] + two) == entries(one).union(entries(two)),
{
    let both = one + seq!['\n'] + two;
    lemma_pieces_joined(one, two);
    let all = pieces(both, '\n');
    let first = pieces(one, '\n');
    let second = pieces(two, '\n');
    assert forall|name: Seq<char>| #[trigger] entries(both).contains(name) implies entries(
        one,
    ).union(entries(two)).contains(name) by {
        let i = choose|i: int| 0 <= i < all.len() && name == entry(#[trigger] all[i]);
        if i < first.len() {
            assert(all[i] == first[i]);
        } else {
            assert(all[i] == second[i - first.len()]);
        }
    }
    assert forall|name: Seq<char>| #[trigger]
        entries(one).union(entries(two)).contains(name) implies entries(both).contains(name) by {
        if entries(one).contains(name) {
            let i = choose|i: int| 0 <= i < first.len() && name == entry(#[trigger] first[i]);
            assert(all[i] == first[i]);
        } else {
            let i = choose|i: int| 0 <= i < second.len() && name == entry(#[trigger] second[i]);
            assert(all[first.len() + i] == second[i]);
        }
    }
    assert(entries(both) =~= entries(one).union(entries(two)));
}

/// A relay that starts has carried nothing, is not slowed down, falls silent 31 seconds
/// after its start, and is due a second after it.
pub proof fn law_fresh(threshold: usize, now: u64, later: u64)
    requires
        elapsed_millis(now, later) <= usize::MAX,
    ensures
        ({
            let meter = Meter::fresh(threshold, now);
            &&& meter.total == 0 && meter.total_s == 0 && meter.elapsed == 0
            &&& meter.highest_s == 0 && !meter.slow()
            &&& meter.downgrade_threshold == threshold
            &&& meter.silent_at(later) <==> later - now >= 31_000_000_000
            &&& meter.due_at(later) is Some <==> later - now >= 1_000_000_000
        }),
{
    law_elapsed_secs(now, later, 30);
    law_due(Meter::fresh(threshold, now), later);
}

/// Bytes can be counted as long as the total does not exceed the range of its type.
pub proof fn law_can_carry(meter: Meter, len: nat)
    ensures
        meter.can_carry(len) <==> meter.total + 8 * len <= usize::MAX,
        meter.wf() <==> meter.total_s <= meter.total,
{
}

/// How long things take: thirty seconds for a first message and for the other end, a second
/// for a command of up to a kilobyte; silence is looked for every three seconds.
pub proof fn law_times()
    ensures
        PAIR_TIMEOUT == 30_000,
        COMMAND_TIMEOUT == 1_000,
        COMMAND_SIZE == 1_024,
        SILENCE_CHECK == 3,
        SILENCE == 30,
        SETTLE == 1_000,
{
}

/// The view of a server says what the server holds, and so do those of what comes of a first
/// message and of what is carried.
pub proof fn law_views(server: RelayServer, carry: Carry, peer: Stream, id: String, raw: bool)
    ensures
        server@.key == server.key@,
        server@.peers == server.peers@,
        server@.usage == server.usage@,
        server@.blacklist == server.blacklist@,
        server@.blocklist == server.blocklist@,
        server@.settings == server.settings,
        (Pairing::Paired { peer, id, raw })@ == (PairingView::Paired { peer, id: id@, raw }),
        Pairing::Park(id)@ == PairingView::Park(id@),
        Pairing::BadKey@ == PairingView::BadKey,
        Pairing::Ignored@ == PairingView::Ignored,
        carry@.to == carry.to && carry@.bits == carry.bits && carry@.slow == carry.slow,
        carry.send matches Some(send) ==> carry@.send == Some(send@),
        carry.send is None ==> carry@.send is None,
{
}

/// A server starts with its key, with nobody waiting and no address listed: every connection
/// that is no command is to be paired. It slows relays down to 32 megabits a second that use
/// more than 66 hundredths of 128 megabits a second over half an hour.
pub proof fn law_new_server(view: RelayServerView, key: Seq<char>, uuid: Seq<char>, ip: Seq<char>)
    requires
        view.is_new(key),
    ensures
        view.key == key,
        view.waiting(uuid) is None,
        !view.usage.dom().contains(ip),
        !view.blacklist.contains(ip),
        !view.blocklist.contains(ip),
        view.use_of(Ip::V4(0), ip, true) == ConnectionUse::Pair,
        view.settings.downgrade_threshold == 66,
        view.settings.downgrade_start_check == 30 * 60 * 1_000,
        view.settings.limit_speed == 32 * 1_048_576,
        view.settings.total_bandwidth == 1_024 * 1_048_576,
        view.settings.single_bandwidth == 128 * 1_048_576,
{
}

/// Bytes of a stream are bytes for the relay; an error or the end is none.
pub proof fn law_recv_bytes(bytes: Vec<u8>, words: String)
    ensures
        recv_bytes(Recv::Bytes(bytes)) == Some(bytes@),
        recv_bytes(Recv::Failed(words)) is None,
        recv_bytes(Recv::Ended) is None,
{
}

/// A relay has two ends.
pub proof fn law_sides(side: Side)
    ensures
        side.other() != side,
        side.other().other() == side,
{
}

/// A byte has eight bits.
pub proof fn law_bits(one: nat, two: nat)
    ensures
        bits(0) == 0,
        bits(1) == 8,
        bits(one + two) == bits(one) + bits(two),
{
}

/// Bytes that came in are counted by eight bits each, are for the other end, and are sent
/// there as they are, if there are any. They are slowed down if the address is listed or
/// the relay was downgraded. After them, empty or not, the relay is silent again only once
/// 31 seconds have gone by. Nothing else of the account changes.
pub proof fn law_receipt(meter: Meter, from: Side, bytes: Seq<u8>, now: u64, later: u64)
    requires
        meter.total_s <= meter.total,
        meter.total + 8 * bytes.len() <= usize::MAX,
    ensures
        ({
            let after = meter.carried(bytes.len(), now);
            let carry = carry_of(meter, from, bytes);
            &&& after.silent_at(later) <==> later - now >= 31_000_000_000
            &&& after.total == meter.total + 8 * bytes.len()
            &&& after.total_s == meter.total_s + 8 * bytes.len()
            &&& after.tm == meter.tm
            &&& after.elapsed == meter.elapsed
            &&& after.highest_s == meter.highest_s
            &&& after.downgrade == meter.downgrade
            &&& after.blacked == meter.blacked
            &&& after.downgrade_threshold == meter.downgrade_threshold
            &&& carry.to != from
            &&& carry.bits == 8 * bytes.len()
            &&& carry.slow <==> meter.blacked || meter.downgrade
            &&& bytes.len() > 0 ==> carry.send == Some(bytes)
            &&& bytes.len() == 0 ==> carry.send is None
        }),
{
    law_elapsed_secs(now, later, 30);
}

proof fn lemma_last_receipt(meter: Meter, turns: Seq<Turn>, i: int)
    requires
        0 <= i < turns.len(),
        turns[i] is Carry,
        forall|j: int|
            i < j < turns.len() && turns[j] is Carry ==> turns[i]->now <= (
            #[trigger] turns[j])->now,
    ensures
        run(meter, turns).last_recv_time >= turns[i]->now,
    decreases turns.len(),
{
    let earlier = turns.drop_last();
    if i < turns.len() - 1 {
        assert forall|j: int| i < j < earlier.len() && earlier[j] is Carry implies earlier[i]->now
            <= (#[trigger] earlier[j])->now by {
            assert(earlier[j] == turns[j]);
        }
        lemma_last_receipt(meter, earlier, i);
        assert(turns[turns.len() - 1] == turns.last());
    }
}

/// Over any turns, a relay in which bytes came in within the last 31 seconds is not
/// silent; settlements do not count as silence, nor end it.
pub proof fn law_busy_relay(meter: Meter, turns: Seq<Turn>, i: int, later: u64)
    requires
        0 <= i < turns.len(),
        turns[i] is Carry,
        forall|j: int|
            i < j < turns.len() && turns[j] is Carry ==> turns[i]->now <= (
            #[trigger] turns[j])->now,
        later - turns[i]->now < 31_000_000_000,
    ensures
        !run(meter, turns).silent_at(later),
{
    lemma_last_receipt(meter, turns, i);
    law_elapsed_secs(run(meter, turns).last_recv_time, later, 30);
}

/// A relay in which nothing came in is silent as if nothing had happened.
pub proof fn law_idle_relay(meter: Meter, turns: Seq<Turn>, later: u64)
    requires
        forall|i: int| 0 <= i < turns.len() ==> (#[trigger] turns[i]) is Settle,
    ensures
        run(meter, turns).silent_at(later) == meter.silent_at(later),
        meter.silent_at(later) <==> later - meter.last_recv_time >= 31_000_000_000,
    decreases turns.len(),
{
    law_elapsed_secs(meter.last_recv_time, later, 30);
    if turns.len() > 0 {
        let earlier = turns.drop_last();
        assert forall|i: int| 0 <= i < earlier.len() implies (#[trigger] earlier[i]) is Settle by {
            assert(earlier[i] == turns[i]);
        }
        law_idle_relay(meter, earlier, later);
        assert(turns[turns.len() - 1] is Settle);
    }
}

/// A period is settled once it is a second long, for its length in whole milliseconds.
pub proof fn law_due(meter: Meter, now: u64)
    requires
        elapsed_millis(meter.tm, now) <= usize::MAX,
    ensures
        meter.due_at(now) is Some <==> now - meter.tm >= 1_000_000_000,
        meter.due_at(now) matches Some(n) ==> n * 1_000_000 <= now - meter.tm < (n + 1)
            * 1_000_000,
{
    law_elapsed_millis(meter.tm, now, 1_000);
}

/// A settlement adds its period to the time, starts the next one, and keeps the bits. The
/// speed is what was carried in the period, divided by its length; the highest is the
/// higher of it and that before. The relay is slowed down if its address is listed, if it
/// was downgraded before, or if by then it has taken longer than the time for that and
/// carried more than it may on average.
pub proof fn law_settlement(
    meter: Meter,
    n: usize,
    restart: u64,
    blacked: bool,
    start_check: usize,
)
    requires
        n > 0,
        meter.elapsed + n <= usize::MAX,
    ensures
        ({
            let after = meter.settled(n, restart, blacked, start_check);
            let speed = meter.speed(n);
            let excessive = meter.elapsed + n > start_check && meter.total > (meter.elapsed + n)
                * meter.downgrade_threshold;
            &&& n * speed <= meter.total_s < n * speed + n
            &&& after.highest_s >= speed && after.highest_s >= meter.highest_s
            &&& after.highest_s == speed || after.highest_s == meter.highest_s
            &&& after.elapsed == meter.elapsed + n
            &&& after.total == meter.total
            &&& after.total_s == 0
            &&& after.tm == restart
            &&& after.last_recv_time == meter.last_recv_time
            &&& after.downgrade_threshold == meter.downgrade_threshold
            &&& after.blacked == blacked
            &&& after.downgrade <==> meter.downgrade || excessive
            &&& after.slow() <==> blacked || meter.downgrade || excessive
        }),
{
    let total = meter.total_s as int;
    let speed = meter.speed(n);
    vstd::arithmetic::div_mod::lemma_fundamental_div_mod(total, n as int);
    assert(0 <= speed <= total) by (nonlinear_arith)
        requires
            n > 0,
            total >= 0,
            speed == total / n as int,
    ;
}

/// A relay whose address is turned away is ended, with nothing changed. Any other is
/// settled, slowed down while its address is listed, and written down under its own name;
/// other accounts, the lists and those that wait stay as they are.
pub proof fn law_settled_server(
    meter: Meter,
    ip: Seq<char>,
    id: Seq<char>,
    other: Seq<char>,
    server: RelayServerView,
    n: usize,
    restart: u64,
)
    requires
        n > 0,
        meter.elapsed + n <= usize::MAX,
        other != id,
    ensures
        ({
            let (after, now, came) = settlement_of(meter, ip, id, server, n, restart);
            &&& server.blocklist.contains(ip) ==> after == meter && now == server && came
                == Settlement::Blocked
            &&& !server.blocklist.contains(ip) ==> {
                &&& came == Settlement::Settled || came == Settlement::Downgraded
                &&& came == Settlement::Downgraded <==> after.downgrade && !meter.downgrade
                &&& after.elapsed == meter.elapsed + n
                &&& after.tm == restart
                &&& after.blacked == server.blacklist.contains(ip)
                &&& now.usage.dom().contains(id)
                &&& now.usage[id].elapsed == meter.elapsed + n
                &&& now.usage[id].total == meter.total
                &&& now.usage[id].speed == meter.total_s as int / n as int
                &&& now.usage[id].highest_speed == after.highest_s
                &&& now.usage.dom().contains(other) == server.usage.dom().contains(other)
                &&& now.usage[other] == server.usage[other]
                &&& now.peers == server.peers
                &&& now.blacklist == server.blacklist
                &&& now.blocklist == server.blocklist
                &&& now.settings == server.settings
                &&& now.key == server.key
                &&& meter.elapsed + n > server.settings.downgrade_start_check && meter.total > (
                meter.elapsed + n) * meter.downgrade_threshold ==> after.downgrade
            }
        }),
{
    law_settlement(
        meter,
        n,
        restart,
        server.blacklist.contains(ip),
        server.settings.downgrade_start_check,
    );
    let total = meter.total_s as int;
    let speed = meter.speed(n);
    assert(0 <= speed <= total) by (nonlinear_arith)
        requires
            n > 0,
            total >= 0,
            speed == total / n as int,
    ;
}

/// The message that asks for a relay.
pub open spec fn asking(rf: RequestRelay) -> Option<RendezvousMessage> {
    Some(RendezvousMessage { union: Some(Union::RequestRelay(rf)) })
}

/// Two connections that ask for one session with the right key, where no key is asked for
/// or the request carries it, are paired: the first has to wait, the second gets the
/// first, nothing waits after that, and account is kept under the address and the port of
/// the second. Both drop their framing only if neither is a web socket. Once the relay has
/// ended the server is as it was.
pub proof fn law_two_ends(
    view: RelayServerView,
    first: Stream,
    second: Stream,
    ip1: Seq<char>,
    port1: u16,
    ip2: Seq<char>,
    port2: u16,
    rf1: RequestRelay,
    rf2: RequestRelay,
)
    requires
        rf1.uuid@.len() > 0,
        rf2.uuid@ == rf1.uuid@,
        view.key.len() == 0 || (rf1.licence_key@ == view.key && rf2.licence_key@ == view.key),
        !view.peers.dom().contains(rf1.uuid@),
        !view.usage.dom().contains(relay_id(ip2, port2)),
    ensures
        view.on_first(first, ip1, port1, asking(rf1)) == (view, PairingView::Park(rf1.uuid@)),
        ({
            let id = relay_id(ip2, port2);
            let parked = view.parked(rf1.uuid@, first);
            let (paired, pairing) = parked.on_first(second, ip2, port2, asking(rf2));
            &&& pairing == (PairingView::Paired { peer: first, id, raw: !first.ws && !second.ws })
            &&& paired.peers == view.peers
            &&& paired.usage == view.usage.insert(
                id,
                Usage { elapsed: 0, total: 0, highest_speed: 0, speed: 0 },
            )
            &&& paired.finished(id) == view
        }),
{
    law_pairing(view, rf1.uuid@, first, relay_id(ip2, port2));
}

/// A request with the wrong key is refused; one without a session, or another message, or
/// none, is ignored. None of them changes anything.
pub proof fn law_refused(
    view: RelayServerView,
    stream: Stream,
    ip: Seq<char>,
    port: u16,
    rf: RequestRelay,
    other: Option<RendezvousMessage>,
)
    requires
        other matches Some(message) ==> !(message.union matches Some(Union::RequestRelay(_))),
    ensures
        view.key.len() > 0 && rf.licence_key@ != view.key ==> view.on_first(
            stream,
            ip,
            port,
            asking(rf),
        ) == (view, PairingView::BadKey),
        rf.uuid@.len() == 0 && (view.key.len() == 0 || rf.licence_key@ == view.key)
            ==> view.on_first(stream, ip, port, asking(rf)) == (view, PairingView::Ignored),
        view.on_first(stream, ip, port, other) == (view, PairingView::Ignored),
{
}

/// Parking, pairing and the end of a wait touch nothing but those that wait; the end of a
/// relay nothing but its account.
pub proof fn law_waiting(
    view: RelayServerView,
    uuid: Seq<char>,
    other: Seq<char>,
    stream: Stream,
    id: Seq<char>,
    other_id: Seq<char>,
)
    requires
        other != uuid,
        other_id != id,
    ensures
        view.parked(uuid, stream).waiting(uuid) == Some(stream),
        view.parked(uuid, stream).waiting(other) == view.waiting(other),
        view.unparked(uuid).waiting(uuid) is None,
        view.unparked(uuid).waiting(other) == view.waiting(other),
        view.paired(uuid, id).waiting(uuid) is None,
        view.paired(uuid, id).waiting(other) == view.waiting(other),
        view.finished(id).peers == view.peers,
        !view.finished(id).usage.dom().contains(id),
        view.finished(id).usage.dom().contains(other_id) == view.usage.dom().contains(other_id),
        view.finished(id).usage[other_id] == view.usage[other_id],
        view.paired(uuid, id).usage[other_id] == view.usage[other_id],
        view.paired(uuid, id).usage.dom().contains(other_id) == view.usage.dom().contains(other_id),
        view.parked(uuid, stream).usage == view.usage,
        view.unparked(uuid).usage == view.usage,
        view.parked(uuid, stream).key == view.key,
        view.paired(uuid, id).key == view.key,
        view.unparked(uuid).key == view.key,
        view.finished(id).key == view.key,
{
}

/// The name of an account is the address, a colon and the port.
pub proof fn law_relay_id(ip: Seq<char>, port: u16)
    ensures
        ({
            let n = ip.len() as int;
            let id = relay_id(ip, port);
            &&& id.len() > n + 1
            &&& id.take(n) == ip
            &&& id[n] == ':'
            &&& port_of(id.skip(n + 1)) == Some(port)
        }),
{
    let n = ip.len() as int;
    let id = relay_id(ip, port);
    crate::laws::law_decimal_text(port as nat);
    law_port_text(port);
    assert(id.take(n) =~= ip);
    assert(id.skip(n + 1) =~= decimal_text(port as nat));
}

/// A connection is turned away if its address is listed, unless it is a plain one of the
/// machine itself, which brings commands; any other is to be paired.
pub proof fn law_connection_use(view: RelayServerView, ip: Ip, text: Seq<char>, ws: bool)
    ensures
        view.use_of(ip, text, ws) == ConnectionUse::Command <==> !ws && ip.is_loopback(),
        view.use_of(ip, text, ws) == ConnectionUse::Blocked <==> view.blocklist.contains(text) && (
        ws || !ip.is_loopback()),
        view.use_of(ip, text, ws) == ConnectionUse::Pair <==> !view.blocklist.contains(text) && (ws
            || !ip.is_loopback()),
{
}

/// Connections are taken as web sockets at the listener for them, and nowhere else; where
/// none can be accepted the server listens anew.
pub proof fn law_listeners(listener: Listener, plan: StartPlan)
    ensures
        io_loop(listener, false) == LoopStep::Restart,
        io_loop(Listener::Ws, true) == (LoopStep::Handle { ws: true }),
        listener != Listener::Ws ==> io_loop(listener, true) == (LoopStep::Handle { ws: false }),
        plan.port_of(Listener::Ws) == plan.port2,
        listener != Listener::Ws ==> plan.port_of(listener) == plan.port,
{
}

/// A proxy is believed on web sockets, and on them alone.
pub proof fn law_claimed_addr(addr: Addr, claimed: Addr, any: Option<Addr>)
    ensures
        make_pair(addr, true, Some(claimed)) == claimed,
        make_pair(addr, true, None) == addr,
        make_pair(addr, false, any) == addr,
{
}

/// Two streams drop their framing if neither is a web socket.
pub proof fn law_framing(one: Stream, two: Stream)
    ensures
        one.both_raw(&two) == two.both_raw(&one),
        one.both_raw(&two) <==> !one.is_ws() && !two.is_ws(),
        one.is_ws() == one.ws,
{
}

/// The bytes of a binary message are those of the message; another message has none.
pub proof fn law_ws_bytes(bytes: Vec<u8>, words: String)
    ensures
        ws_bytes(WsRead::Binary(bytes)) == Some(bytes@),
        ws_bytes(WsRead::Other) == Some(Seq::<u8>::empty()),
        ws_bytes(WsRead::Failed(words)) is None,
        ws_bytes(WsRead::Ended) is None,
{
}

proof fn lemma_trim_end_keeps(word: Seq<char>, rest: Seq<char>)
    requires
        is_core(word),
    ensures
        exists|n: int|
            0 <= n <= rest.len() && #[trigger] trim_end(word + rest) == word + rest.take(n),
    decreases rest.len(),
{
    let text = word + rest;
    if rest.len() == 0 {
        assert(text =~= word);
        assert(trim_end(text) == word + rest.take(0));
    } else if crate::text::is_white(text.last()) {
        lemma_trim_end_keeps(word, rest.drop_last());
        assert(text.drop_last() =~= word + rest.drop_last());
        let n = choose|n: int|
            0 <= n <= rest.len() - 1 && trim_end(word + rest.drop_last()) == word
                + rest.drop_last().take(n);
        assert(rest.drop_last().take(n) =~= rest.take(n));
        assert(trim_end(text) == word + rest.take(n));
    } else {
        assert(rest.take(rest.len() as int) =~= rest);
        assert(trim_end(text) == word + rest.take(rest.len() as int));
    }
}

/// A line of a list names its first word, whatever white space stands around it and
/// whatever follows a space behind it; an empty line names the empty text.
pub proof fn law_entry(lead: Seq<char>, word: Seq<char>, tail: Seq<char>, rest: Seq<char>)
    requires
        all_white(lead),
        is_core(word),
        !word.contains(' '),
        all_white(tail),
    ensures
        entry(lead + word + tail) == word,
        entry(lead + word + seq![' '] + rest) == word,
        entry(lead) == Seq::<char>::empty(),
{
    crate::laws::law_trimmed(lead, word, tail);
    law_pieces(word, ' ', rest);
    assert(entry(lead) =~= Seq::<char>::empty());
    let line = lead + word + seq![' '] + rest;
    let behind = seq![' '] + rest;
    assert(line =~= lead + (word + behind) + Seq::<char>::empty());
    lemma_starts(lead, word + behind);
    lemma_trim_end_keeps(word, behind);
    let n = choose|n: int|
        0 <= n <= behind.len() && trim_end(word + behind) == word + behind.take(n);
    if n == 0 {
        assert(word + behind.take(0) =~= word);
    } else {
        assert(behind.take(n) =~= seq![' '] + rest.take(n - 1));
        law_pieces(word, ' ', rest.take(n - 1));
        assert(word + behind.take(n) =~= word + seq![' '] + rest.take(n - 1));
    }
}

proof fn lemma_starts(lead: Seq<char>, text: Seq<char>)
    requires
        all_white(lead),
        text.len() > 0,
        !crate::text::is_white(text[0]),
    ensures
        trim_start(lead + text + Seq::<char>::empty()) == text,
    decreases lead.len(),
{
    let all = lead + text + Seq::<char>::empty();
    if lead.len() == 0 {
        assert(all =~= text);
    } else {
        assert(crate::text::is_white(lead[0]));
        let less = lead.drop_first();
        assert forall|i: int| 0 <= i < less.len() implies crate::text::is_white(
            #[trigger] less[i],
        ) by {
            assert(crate::text::is_white(lead[i + 1]));
        }
        lemma_starts(less, text);
        assert(all.drop_first() =~= less + text + Seq::<char>::empty());
    }
}

/// An address that is the first word of a line of the list is on it, with all that was on
/// it before; nothing else is added.
pub proof fn law_listed(
    list: Set<Seq<char>>,
    before: Seq<char>,
    line: Seq<char>,
    behind: Seq<char>,
    name: Seq<char>,
)
    requires
        !line.contains('\n'),
    ensures
        entries(line) == Set::empty().insert(entry(line)),
        entries(before + seq!['\n'] + line).contains(entry(line)),
        entries(line + seq!['\n'] + behind).contains(entry(line)),
        list.contains(name) ==> list.union(entries(before)).contains(name),
        list.union(entries(before)).contains(name) ==> list.contains(name) || entries(
            before,
        ).contains(name),
{
    law_pieces(line, '\n', behind);
    law_lists_joined(before, line);
    law_lists_joined(line, behind);
    assert(pieces(line, '\n')[0] == line);
    assert(entries(line) =~= Set::empty().insert(entry(line)));
}

/// A list is extended by what its file names, and stays as it is without one.
pub proof fn law_extended(list: Set<Seq<char>>, contents: &str, name: Seq<char>)
    ensures
        extended(list, None) == list,
        extended(list, Some(contents)).contains(name) <==> list.contains(name) || entries(
            contents@,
        ).contains(name),
{
}

/// A server starts at the port that a text spells, with web sockets two above, and bound to
/// what it was told; without a port it does not start.
pub proof fn law_start(bind_addr: Option<Ip>, port: u16)
    requires
        port <= 65_533,
    ensures
        plan_of(bind_addr, port_of(decimal_text(port as nat))) matches Some(plan) && plan.bind_addr
            == bind_addr && plan.port == port && plan.port2 == port + 2,
        plan_of(bind_addr, None) is None,
{
    law_port_text(port);
}

} // verus!
