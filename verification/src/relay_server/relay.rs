//! What a relay carries between its two ends, and the account that it keeps.
use vstd::prelude::*;

use crate::relay_server::connection::{SETTLE, SILENCE};
use crate::relay_server::stream::{recv_bytes, Recv};
use crate::relay_server::{RelayServer, RelayServerView, Usage};
use crate::time::{elapsed_millis, elapsed_secs, millis_since, secs_since};

verus! {

/// The ends of a relay: the one that waited, and the one that completed it.
#[derive(Clone, Copy, Debug, PartialEq, Eq, Structural)]
pub enum Side {
    Peer,
    Stream,
}

impl Side {
    #[verifier::allow_in_spec]
    pub fn other(&self) -> Side
        returns
            (match *self {
                Side::Peer => Side::Stream,
                Side::Stream => Side::Peer,
            }),
    {
        match *self {
            Side::Peer => Side::Stream,
            Side::Stream => Side::Peer,
        }
    }
}

/// The account of a relay.
#[derive(Clone, Copy, Debug, PartialEq, Eq, Structural)]
pub struct Meter {
    /// Start of the period that is not settled yet.
    pub tm: u64,
    /// Milliseconds that are settled.
    pub elapsed: usize,
    /// Bits that were carried.
    pub total: usize,
    /// Bits of them in the period that is not settled yet.
    pub total_s: usize,
    /// Highest speed of a settled period, in bits per millisecond.
    pub highest_s: usize,
    /// Whether the relay has exceeded what it may use on average.
    pub downgrade: bool,
    /// Whether its address is among those that are slowed down.
    pub blacked: bool,
    /// What it may use on average, in bits per millisecond.
    pub downgrade_threshold: usize,
    pub last_recv_time: u64,
}

/// Bits in a number of bytes.
pub open spec fn bits(len: nat) -> nat {
    len * 8
}

impl Meter {
    /// The account of a relay that starts now.
    pub open spec fn fresh(downgrade_threshold: usize, now: u64) -> Meter {
        Meter {
            tm: now,
            elapsed: 0,
            total: 0,
            total_s: 0,
            highest_s: 0,
            downgrade: false,
            blacked: false,
            downgrade_threshold,
            last_recv_time: now,
        }
    }

    /// The unsettled bits are among those carried.
    pub open spec fn wf(self) -> bool {
        self.total_s <= self.total
    }

    /// Whether the relay is slowed down.
    #[verifier::allow_in_spec]
    pub fn slow(&self) -> bool
        returns
            self.blacked || self.downgrade,
    {
        self.blacked || self.downgrade
    }

    /// Whether a number of bytes can still be counted.
    pub open spec fn can_carry(self, len: nat) -> bool {
        self.total + bits(len) <= usize::MAX
    }

    /// The account once a number of bytes has come in.
    pub open spec fn carried(self, len: nat, now: u64) -> Meter {
        Meter {
            last_recv_time: now,
            total: (self.total + bits(len)) as usize,
            total_s: (self.total_s + bits(len)) as usize,
            ..self
        }
    }

    /// The relay has been silent for too long.
    pub open spec fn silent_at(self, later: u64) -> bool {
        elapsed_secs(self.last_recv_time, later) > SILENCE
    }

    /// The period that is to be settled, if it is long enough.
    pub open spec fn due_at(self, now: u64) -> Option<usize> {
        if self.unsettled(now) >= SETTLE {
            Some(self.unsettled(now))
        } else {
            None
        }
    }

    /// Milliseconds of the period that is not settled yet.
    pub open spec fn unsettled(self, now: u64) -> usize {
        elapsed_millis(self.tm, now) as usize
    }

    /// Speed over a period of `n` milliseconds, in bits per millisecond.
    pub open spec fn speed(self, n: usize) -> int {
        self.total_s as int / n as int
    }

    /// Whether the relay exceeds what it may use on average, from `start_check`
    /// milliseconds on.
    pub open spec fn excessive(self, start_check: usize) -> bool {
        self.elapsed > start_check && self.total > self.elapsed * self.downgrade_threshold
    }

    /// The account once a period of `n` milliseconds is settled and another has begun. A
    /// relay that was found excessive remains downgraded.
    pub open spec fn settled(
        self,
        n: usize,
        restart: u64,
        blacked: bool,
        start_check: usize,
    ) -> Meter {
        let speed = self.speed(n) as usize;
        let meter = Meter {
            tm: restart,
            elapsed: (self.elapsed + n) as usize,
            total_s: 0,
            highest_s: if speed > self.highest_s {
                speed
            } else {
                self.highest_s
            },
            blacked,
            ..self
        };
        Meter { downgrade: self.downgrade || meter.excessive(start_check), ..meter }
    }
}

/// What is sent on of bytes that came in: all of them, unless there are none.
pub open spec fn sent_on(bytes: Seq<u8>) -> Option<Seq<u8>> {
    if bytes.len() == 0 {
        None
    } else {
        Some(bytes)
    }
}

/// What to do with bytes that came in.
#[derive(Debug)]
pub struct Carry {
    /// The end that they are for.
    pub to: Side,
    /// Bits to wait for at the limits.
    pub bits: usize,
    /// Whether the limit is that of a relay that is slowed down.
    pub slow: bool,
    /// What to send, if anything.
    pub send: Option<Vec<u8>>,
}

pub struct CarryView {
    pub to: Side,
    pub bits: usize,
    pub slow: bool,
    pub send: Option<Seq<u8>>,
}

impl View for Carry {
    type V = CarryView;

    open spec fn view(&self) -> CarryView {
        CarryView {
            to: self.to,
            bits: self.bits,
            slow: self.slow,
            send: match self.send {
                Some(bytes) => Some(bytes@),
                None => None,
            },
        }
    }
}

/// What to do with bytes that one end gave.
pub open spec fn carry_of(meter: Meter, from: Side, bytes: Seq<u8>) -> CarryView {
    CarryView {
        to: from.other(),
        bits: bits(bytes.len()) as usize,
        slow: meter.slow(),
        send: sent_on(bytes),
    }
}

/// What a settlement makes of the account of a relay and of the server, and what comes of
/// it.
pub open spec fn settlement_of(
    meter: Meter,
    ip: Seq<char>,
    id: Seq<char>,
    server: RelayServerView,
    n: usize,
    restart: u64,
) -> (Meter, RelayServerView, Settlement) {
    if server.blocklist.contains(ip) {
        (meter, server, Settlement::Blocked)
    } else {
        let after = meter.settled(
            n,
            restart,
            server.blacklist.contains(ip),
            server.settings.downgrade_start_check,
        );
        let usage = Usage {
            elapsed: after.elapsed,
            total: after.total,
            highest_speed: after.highest_s,
            speed: meter.speed(n) as usize,
        };
        (
            after,
            RelayServerView { usage: server.usage.insert(id, usage), ..server },
            if after.downgrade && !meter.downgrade {
                Settlement::Downgraded
            } else {
                Settlement::Settled
            },
        )
    }
}

/// What came of a settlement.
#[derive(Clone, Copy, Debug, PartialEq, Eq, Structural)]
pub enum Settlement {
    /// The relay ends: its address is turned away by now.
    Blocked,
    Settled,
    /// It is settled, and slowed down from now on.
    Downgraded,
}

/// A relay between two connections.
pub struct Relay {
    /// The address of the end that completed the relay.
    pub ip: String,
    /// The name under which the server keeps its account.
    pub id: String,
    pub meter: Meter,
}

impl Relay {
    /// A relay that starts now.
    pub fn new(ip: String, id: String, downgrade_threshold: usize, now: u64) -> (relay: Relay)
        ensures
            relay.ip == ip,
            relay.id == id,
            relay.meter == Meter::fresh(downgrade_threshold, now),
            relay.meter == (Meter {
                tm: now,
                elapsed: 0,
                total: 0,
                total_s: 0,
                highest_s: 0,
                downgrade: false,
                blacked: false,
                downgrade_threshold,
                last_recv_time: now,
            }),
            relay.meter.wf(),
    {
        Relay {
            ip,
            id,
            meter: Meter {
                tm: now,
                elapsed: 0,
                total: 0,
                total_s: 0,
                highest_s: 0,
                downgrade: false,
                blacked: false,
                downgrade_threshold,
                last_recv_time: now,
            },
        }
    }

    /// Whether a number of bytes can still be counted.
    pub fn can_carry(&self, len: usize) -> (can: bool)
        ensures
            can == self.meter.can_carry(len as nat),
    {
        len <= (usize::MAX - self.meter.total) / 8
    }

    /// Takes what one end gave. Bytes are counted, and are for the other end; an end of
    /// the stream or an error ends the relay.
    pub fn received(&mut self, from: Side, recv: Recv, now: u64) -> (carry: Option<Carry>)
        requires
            old(self).meter.wf(),
            recv matches Recv::Bytes(bytes) ==> old(self).meter.can_carry(bytes@.len()),
        ensures
            final(self).meter.wf(),
            final(self).ip == old(self).ip,
            final(self).id == old(self).id,
            carry is Some <==> recv_bytes(recv) is Some,
            match recv {
                Recv::Bytes(bytes) => {
                    &&& final(self).meter == old(self).meter.carried(bytes@.len(), now)
                    &&& carry matches Some(carry)
                    &&& carry@ == carry_of(old(self).meter, from, bytes@)
                    &&& carry.to == from.other()
                    &&& carry.bits == bits(bytes@.len())
                    &&& carry.slow == old(self).meter.slow()
                    &&& match carry.send {
                        Some(send) => sent_on(bytes@) == Some(send@),
                        None => sent_on(bytes@) is None,
                    }
                },
                _ => final(self).meter == old(self).meter && carry is None,
            },
    {
        match recv {
            Recv::Bytes(bytes) => {
                self.meter.last_recv_time = now;
                let nb: usize = bytes.len() * 8;
                let slow = self.meter.slow();
                self.meter.total = self.meter.total + nb;
                self.meter.total_s = self.meter.total_s + nb;
                let send = if bytes.len() == 0 {
                    None
                } else {
                    Some(bytes)
                };
                Some(Carry { to: from.other(), bits: nb, slow, send })
            },
            _ => None,
        }
    }

    /// Whether the relay has been silent for too long, and ends with a timeout.
    pub fn silent(&self, now: u64) -> (silent: bool)
        ensures
            silent == self.meter.silent_at(now),
            silent == (elapsed_secs(self.meter.last_recv_time, now) > SILENCE),
    {
        secs_since(self.meter.last_recv_time, now) > SILENCE
    }

    /// The length of the period that is to be settled now, if it is long enough.
    pub fn due(&self, now: u64) -> (n: Option<usize>)
        ensures
            n == self.meter.due_at(now),
            n == (if self.meter.unsettled(now) >= SETTLE {
                Some(self.meter.unsettled(now))
            } else {
                None
            }),
    {
        let n: usize = millis_since(self.meter.tm, now) as usize;
        if n >= SETTLE {
            Some(n)
        } else {
            None
        }
    }

    /// Whether a period of `n` milliseconds can still be counted.
    pub fn can_settle(&self, n: usize) -> (can: bool)
        ensures
            can == (self.meter.elapsed + n <= usize::MAX),
    {
        n <= usize::MAX - self.meter.elapsed
    }

    /// Settles a period of `n` milliseconds, and starts another at `restart`. A relay
    /// whose address is turned away by now ends instead.
    pub fn settle(&mut self, server: &mut RelayServer, n: usize, restart: u64) -> (settlement:
        Settlement)
        requires
            old(self).meter.wf(),
            n > 0,
            old(self).meter.elapsed + n <= usize::MAX,
        ensures
            final(self).meter.wf(),
            final(self).ip == old(self).ip,
            final(self).id == old(self).id,
            (final(self).meter, final(server)@, settlement) == settlement_of(
                old(self).meter,
                old(self).ip@,
                old(self).id@,
                old(server)@,
                n,
                restart,
            ),
            if old(server)@.blocklist.contains(old(self).ip@) {
                &&& settlement == Settlement::Blocked
                &&& final(self).meter == old(self).meter
                &&& final(server)@ == old(server)@
            } else {
                &&& final(self).meter == old(self).meter.settled(
                    n,
                    restart,
                    old(server)@.blacklist.contains(old(self).ip@),
                    old(server)@.settings.downgrade_start_check,
                )
                &&& final(server)@ == (RelayServerView {
                    usage: old(server)@.usage.insert(
                        old(self).id@,
                        Usage {
                            elapsed: final(self).meter.elapsed,
                            total: final(self).meter.total,
                            highest_speed: final(self).meter.highest_s,
                            speed: old(self).meter.speed(n) as usize,
                        },
                    ),
                    ..old(server)@
                })
                &&& settlement == (if final(self).meter.downgrade && !old(self).meter.downgrade {
                    Settlement::Downgraded
                } else {
                    Settlement::Settled
                })
            },
    {
        if server.blocklist.contains(self.ip.as_str()) {
            return Settlement::Blocked;
        }
        self.meter.blacked = server.blacklist.contains(self.ip.as_str());
        self.meter.tm = restart;
        let speed: usize = self.meter.total_s / n;
        if speed > self.meter.highest_s {
            self.meter.highest_s = speed;
        }
        self.meter.elapsed = self.meter.elapsed + n;
        server.usage.insert(
            self.id.clone(),
            Usage {
                elapsed: self.meter.elapsed,
                total: self.meter.total,
                highest_speed: self.meter.highest_s,
                speed,
            },
        );
        self.meter.total_s = 0;
        if self.meter.elapsed > server.settings.downgrade_start_check && !self.meter.downgrade
            && self.exceeds() {
            self.meter.downgrade = true;
            Settlement::Downgraded
        } else {
            Settlement::Settled
        }
    }

    fn exceeds(&self) -> (exceeds: bool)
        ensures
            exceeds == (self.meter.total > self.meter.elapsed * self.meter.downgrade_threshold),
    {
        let elapsed: usize = self.meter.elapsed;
        let threshold: usize = self.meter.downgrade_threshold;
        assert(elapsed * threshold <= u64::MAX * u64::MAX) by (nonlinear_arith)
            requires
                elapsed <= u64::MAX,
                threshold <= u64::MAX,
        ;
        let allowed: u128 = elapsed as u128 * threshold as u128;
        self.meter.total as u128 > allowed
    }
}

} // verus!
