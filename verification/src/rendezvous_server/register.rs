//! Who may register a public key, and how often.
use vstd::hash_map::StringHashMap;
use vstd::hash_set::StringHashSet;
use vstd::prelude::*;

use crate::message::{same_bytes, RegisterPkResult, RendezvousMessage, Union, UnionView};
use crate::peer::{Peer, PeerView};
use crate::rendezvous_server::{lemma_apart_by_tables, Limits, RendezvousServer, ServerView};
use crate::time::{elapsed_secs, secs_since};

verus! {

broadcast use vstd::hash_set::group_hash_set_axioms;

/// Counted requests past which an IP address is refused for a while. Its first request
/// is not counted.
pub const IP_BURST: u32 = 30;

/// Ids past which an IP address gets no new ones in one day. That of its first request
/// is not counted.
pub const IP_IDS: usize = 300;

/// Registrations of a public key past which a peer is refused for a while.
pub const REG_BURST: u32 = 2;

/// Seconds after which a peer starts a new burst of registrations.
pub const REG_BURST_SECS: u64 = 6;

/// Bytes that an id has at least.
pub const MIN_ID_LEN: usize = 6;

/// What is remembered of an IP address.
pub struct IpRecord {
    /// Requests in the current burst, and when the last one came.
    pub requests: (u32, u64),
    /// Ids asked for, and when the set was last in use.
    pub ids: StringHashSet,
    pub ids_time: u64,
}

pub struct IpRecordView {
    pub requests: (u32, u64),
    pub ids: Set<Seq<char>>,
    pub ids_time: u64,
}

impl View for IpRecord {
    type V = IpRecordView;

    open spec fn view(&self) -> IpRecordView {
        IpRecordView { requests: self.requests, ids: self.ids@, ids_time: self.ids_time }
    }
}

pub open spec fn blocker_view(records: Map<Seq<char>, IpRecord>) -> Map<Seq<char>, IpRecordView> {
    records.map_values(|record: IpRecord| record@)
}

impl IpRecordView {
    /// The record of an IP address at its first request.
    pub open spec fn first(now: u64) -> IpRecordView {
        IpRecordView { requests: (0, now), ids: Set::empty(), ids_time: now }
    }

    pub open spec fn bounded(self) -> bool {
        &&& self.requests.0 <= IP_BURST + 1
        &&& self.ids.finite()
        &&& self.ids.len() <= IP_IDS + 1
    }

    /// The address has made its requests for now.
    pub open spec fn burst_over(self, now: u64, limits: Limits) -> bool {
        elapsed_secs(self.requests.1, now) <= limits.ip_block_secs && self.requests.0 > IP_BURST
    }

    /// The record after a request that the burst leaves room for.
    pub open spec fn counted(self, now: u64, limits: Limits) -> IpRecordView {
        let so_far = if elapsed_secs(self.requests.1, now) > limits.ip_block_secs {
            0
        } else {
            self.requests.0
        };
        IpRecordView { requests: ((so_far + 1) as u32, now), ..self }
    }

    /// The ids were last in use more than a day ago.
    pub open spec fn day_over(self, now: u64, limits: Limits) -> bool {
        elapsed_secs(self.ids_time, now) > limits.day_secs
    }

    /// The address has asked for its ids of the day.
    pub open spec fn ids_full(self, now: u64, limits: Limits) -> bool {
        !self.day_over(now, limits) && self.ids.len() > IP_IDS
    }

    /// The record after a request for `id` that the set of ids leaves room for. A day
    /// that is over empties the set; an id that was in it is not put back.
    pub open spec fn noted(self, id: Seq<char>, now: u64, limits: Limits) -> IpRecordView {
        let kept = if self.day_over(now, limits) {
            Set::empty()
        } else {
            self.ids
        };
        IpRecordView {
            ids: if self.ids.contains(id) {
                kept
            } else {
                kept.insert(id)
            },
            ids_time: now,
            ..self
        }
    }

    /// Whether a request for `id` passes.
    pub open spec fn admits(self, id: Seq<char>, now: u64, limits: Limits) -> bool {
        &&& !self.burst_over(now, limits)
        &&& self.ids_full(now, limits) ==> self.ids.contains(id)
    }

    /// The record after a request for `id`.
    pub open spec fn after(self, id: Seq<char>, now: u64, limits: Limits) -> IpRecordView {
        if self.burst_over(now, limits) {
            self
        } else if self.ids_full(now, limits) {
            self.counted(now, limits)
        } else {
            self.counted(now, limits).noted(id, now, limits)
        }
    }
}

/// Whether a request from `ip` for `id` passes.
pub open spec fn ip_admits(
    records: Map<Seq<char>, IpRecordView>,
    ip: Seq<char>,
    id: Seq<char>,
    now: u64,
    limits: Limits,
) -> bool {
    records.dom().contains(ip) ==> records[ip].admits(id, now, limits)
}

/// The records after a request from `ip` for `id`.
pub open spec fn ip_after(
    records: Map<Seq<char>, IpRecordView>,
    ip: Seq<char>,
    id: Seq<char>,
    now: u64,
    limits: Limits,
) -> Map<Seq<char>, IpRecordView> {
    records.insert(
        ip,
        if records.dom().contains(ip) {
            records[ip].after(id, now, limits)
        } else {
            IpRecordView::first(now)
        },
    )
}

/// The addresses that a peer moved to.
pub struct IpChange {
    /// When the first of them was seen.
    pub since: u64,
    /// How often each was seen.
    pub ips: StringHashMap<u32>,
}

pub struct IpChangeView {
    pub since: u64,
    pub ips: Map<Seq<char>, u32>,
}

impl View for IpChange {
    type V = IpChangeView;

    open spec fn view(&self) -> IpChangeView {
        IpChangeView { since: self.since, ips: self.ips@ }
    }
}

pub open spec fn changes_view(changes: Map<Seq<char>, IpChange>) -> Map<Seq<char>, IpChangeView> {
    changes.map_values(|change: IpChange| change@)
}

impl IpChangeView {
    pub open spec fn first(ip: Seq<char>, now: u64) -> IpChangeView {
        IpChangeView { since: now, ips: Map::empty().insert(ip, 1u32) }
    }

    /// How often `ip` was seen.
    pub open spec fn seen(self, ip: Seq<char>) -> u32 {
        if self.ips.dom().contains(ip) {
            self.ips[ip]
        } else {
            0
        }
    }

    /// The record after the peer moved to `ip`.
    pub open spec fn after(self, ip: Seq<char>, now: u64, limits: Limits) -> IpChangeView {
        if elapsed_secs(self.since, now) > limits.ip_change_secs {
            IpChangeView::first(ip, now)
        } else {
            IpChangeView { ips: self.ips.insert(ip, (self.seen(ip) + 1) as u32), ..self }
        }
    }
}

/// The records after the peer `id` moved to `ip`.
pub open spec fn changes_after(
    changes: Map<Seq<char>, IpChangeView>,
    id: Seq<char>,
    ip: Seq<char>,
    now: u64,
    limits: Limits,
) -> Map<Seq<char>, IpChangeView> {
    changes.insert(
        id,
        if changes.dom().contains(id) {
            changes[id].after(ip, now, limits)
        } else {
            IpChangeView::first(ip, now)
        },
    )
}

/// One more move of `id` to `ip` can be counted.
pub open spec fn change_countable(
    changes: Map<Seq<char>, IpChangeView>,
    id: Seq<char>,
    ip: Seq<char>,
    now: u64,
    limits: Limits,
) -> bool {
    changes.dom().contains(id) && elapsed_secs(changes[id].since, now) <= limits.ip_change_secs
        ==> changes[id].seen(ip) < u32::MAX
}

impl IpRecord {
    /// Whether a request for `id` passes; counts the request.
    fn check(&mut self, id: &str, now: u64, limits: Limits) -> (passes: bool)
        requires
            old(self)@.bounded(),
        ensures
            passes == old(self)@.admits(id@, now, limits),
            final(self)@ == old(self)@.after(id@, now, limits),
            final(self)@.bounded(),
    {
        if secs_since(self.requests.1, now) > limits.ip_block_secs {
            self.requests.0 = 0;
        } else if self.requests.0 > IP_BURST {
            return false;
        }
        self.requests.0 = self.requests.0 + 1;
        self.requests.1 = now;

        let is_new = !self.ids.contains(id);
        if secs_since(self.ids_time, now) > limits.day_secs {
            self.ids.clear();
        } else if self.ids.len() > IP_IDS {
            return !is_new;
        }
        if is_new {
            self.ids.insert(id.to_owned());
        }
        self.ids_time = now;
        true
    }
}

impl RendezvousServer {
    /// Whether a request from `ip` for `id` passes; counts the request.
    pub fn check_ip_blocker(&mut self, ip: &str, id: &str, now: u64) -> (passes: bool)
        requires
            old(self).wf(),
        ensures
            final(self).wf(),
            passes == ip_admits(old(self)@.ip_blocker, ip@, id@, now, old(self).limits),
            final(self)@ == (ServerView {
                ip_blocker: ip_after(old(self)@.ip_blocker, ip@, id@, now, old(self).limits),
                ..old(self)@
            }),
    {
        let limits = self.limits;
        let passes = match self.ip_blocker.get_mut(ip) {
            Some(record) => {
                assert(old(self)@.ip_blocker.dom().contains(ip@));
                record.check(id, now, limits)
            },
            None => {
                self.ip_blocker.insert_new(
                    ip.to_owned(),
                    IpRecord { requests: (0, now), ids: StringHashSet::new(), ids_time: now },
                );
                true
            },
        };
        proof {
            assert(self@.ip_blocker =~= ip_after(old(self)@.ip_blocker, ip@, id@, now, limits));
            lemma_apart_by_tables(old(self)@, self@);
        }
        passes
    }
}

/// The id belongs to another machine.
pub open spec fn owned_by_other(peer: PeerView, uuid: Seq<u8>) -> bool {
    peer.uuid.len() > 0 && peer.uuid != uuid
}

/// A registration that must not go through: the id belongs to another machine, or
/// both the address and the key differ from those on record.
pub open spec fn conflicts(peer: PeerView, uuid: Seq<u8>, pk: Seq<u8>, ip: Seq<char>) -> bool {
    &&& peer.uuid.len() > 0
    &&& peer.uuid != uuid || (peer.ip != ip && peer.pk != pk)
}

/// The peer has made its registrations for now.
pub open spec fn reg_burst_over(peer: PeerView, now: u64) -> bool {
    elapsed_secs(peer.reg_pk.1, now) <= REG_BURST_SECS && peer.reg_pk.0 > REG_BURST
}

/// The peer after a registration that its burst leaves room for.
pub open spec fn reg_counted(peer: PeerView, now: u64) -> PeerView {
    let so_far = if elapsed_secs(peer.reg_pk.1, now) > REG_BURST_SECS {
        0
    } else {
        peer.reg_pk.0
    };
    PeerView { reg_pk: ((so_far + 1) as u32, now), ..peer }
}

/// The address on record of a peer whose id is taken differs from `ip`.
pub open spec fn ip_moved(peer: PeerView, ip: Seq<char>) -> bool {
    peer.uuid.len() > 0 && peer.ip != ip
}

/// What is on record of the peer differs from what it registers.
pub open spec fn record_differs(peer: PeerView, pk: Seq<u8>, ip: Seq<char>) -> bool {
    peer.uuid.len() == 0 || peer.pk != pk || peer.ip != ip
}

/// How a registration with these values ends for the peer on record: with whether the
/// record has to change, and whether the address did.
pub open spec fn registration(
    peer: PeerView,
    uuid: Seq<u8>,
    pk: Seq<u8>,
    ip: Seq<char>,
    now: u64,
) -> Result<(bool, bool), RegisterPkResult> {
    if conflicts(peer, uuid, pk, ip) {
        Err(RegisterPkResult::UuidMismatch)
    } else if reg_burst_over(peer, now) {
        Err(RegisterPkResult::TooFrequent)
    } else {
        Ok((record_differs(peer, pk, ip), ip_moved(peer, ip)))
    }
}

/// How the check ends that an id is free for a machine.
pub open spec fn change_id(peer: Option<PeerView>, uuid: Seq<u8>) -> RegisterPkResult {
    match peer {
        Some(peer) if owned_by_other(peer, uuid) => RegisterPkResult::IdExists,
        _ => RegisterPkResult::Accepted,
    }
}

pub open spec fn opt_peer(peer: Option<&Peer>) -> Option<PeerView> {
    match peer {
        Some(peer) => Some(peer@),
        None => None,
    }
}

/// How the first half of the check that an id is free ends, and what it leaves.
pub open spec fn change_id_admitted(
    view: ServerView,
    id: Seq<char>,
    id_is_valid: bool,
    ip: Seq<char>,
    now: u64,
) -> (Result<(), RegisterPkResult>, ServerView) {
    if !id_is_valid {
        (Err(RegisterPkResult::InvalidIdFormat), view)
    } else {
        asked(view, id, ip, now)
    }
}

/// How the first half of a registration ends, and what it leaves.
pub open spec fn register_pk_admitted(
    view: ServerView,
    id: Seq<char>,
    ip: Seq<char>,
    now: u64,
) -> (Result<(), RegisterPkResult>, ServerView) {
    if byte_len(id) < MIN_ID_LEN {
        (Err(RegisterPkResult::UuidMismatch), view)
    } else {
        asked(view, id, ip, now)
    }
}

/// How a request from `ip` for `id` ends, and what it leaves.
pub open spec fn asked(view: ServerView, id: Seq<char>, ip: Seq<char>, now: u64) -> (
    Result<(), RegisterPkResult>,
    ServerView,
) {
    (
        if ip_admits(view.ip_blocker, ip, id, now, view.limits) {
            Ok(())
        } else {
            Err(RegisterPkResult::TooFrequent)
        },
        ServerView { ip_blocker: ip_after(view.ip_blocker, ip, id, now, view.limits), ..view },
    )
}

/// How a registration leaves the server.
pub open spec fn server_after(
    view: ServerView,
    peer: PeerView,
    id: Seq<char>,
    uuid: Seq<u8>,
    pk: Seq<u8>,
    ip: Seq<char>,
    now: u64,
) -> ServerView {
    if registration(peer, uuid, pk, ip, now) is Ok && ip_moved(peer, ip) {
        ServerView {
            ip_changes: changes_after(view.ip_changes, id, ip, now, view.limits),
            ..view
        }
    } else {
        view
    }
}

/// How a registration leaves the peer.
pub open spec fn peer_after(
    peer: PeerView,
    uuid: Seq<u8>,
    pk: Seq<u8>,
    ip: Seq<char>,
    now: u64,
) -> PeerView {
    if registration(peer, uuid, pk, ip, now) is Ok {
        reg_counted(peer, now)
    } else {
        peer
    }
}

/// The number of bytes of a text.
pub open spec fn byte_len(text: Seq<char>) -> nat {
    vstd::utf8::encode_utf8(text).len()
}

impl RendezvousServer {
    /// The response that tells how a registration ended.
    pub fn make_register_pk_response(result: RegisterPkResult) -> (message: RendezvousMessage)
        ensures
            message@ == Some(UnionView::RegisterPkResponse { result }),
    {
        RendezvousMessage::of(Union::RegisterPkResponse { result })
    }

    /// First half of the check that an id is free: the id has the form of an id, and
    /// the address may ask. Only then is the peer to be looked up.
    pub fn admit_change_id(&mut self, id: &str, id_is_valid: bool, ip: &str, now: u64) -> (r:
        Result<(), RegisterPkResult>)
        requires
            old(self).wf(),
        ensures
            final(self).wf(),
            (r, final(self)@) == change_id_admitted(old(self)@, id@, id_is_valid, ip@, now),
            !id_is_valid ==> {
                &&& r == Err::<(), _>(RegisterPkResult::InvalidIdFormat)
                &&& final(self)@ == old(self)@
            },
            id_is_valid ==> {
                &&& r == (if ip_admits(
                    old(self)@.ip_blocker,
                    ip@,
                    id@,
                    now,
                    old(self).limits,
                ) {
                    Ok(())
                } else {
                    Err(RegisterPkResult::TooFrequent)
                })
                &&& final(self)@ == (ServerView {
                    ip_blocker: ip_after(old(self)@.ip_blocker, ip@, id@, now, old(self).limits),
                    ..old(self)@
                })
            },
    {
        if !id_is_valid {
            return Err(RegisterPkResult::InvalidIdFormat);
        }
        if !self.check_ip_blocker(ip, id, now) {
            return Err(RegisterPkResult::TooFrequent);
        }
        Ok(())
    }

    /// Second half of the check that an id is free for the machine `uuid`, given the
    /// peer that has the id. Nothing is recorded.
    pub fn validate_change_id(uuid: &Vec<u8>, peer: Option<&Peer>) -> (result: RegisterPkResult)
        ensures
            result == change_id(opt_peer(peer), uuid@),
    {
        if let Some(peer) = peer {
            if !peer.uuid.is_empty() && !same_bytes(&peer.uuid, uuid) {
                return RegisterPkResult::IdExists;
            }
        }
        RegisterPkResult::Accepted
    }

    /// First half of a registration: the id is long enough, and the address may ask.
    /// Only then is the peer to be looked up, or made where there is none.
    pub fn admit_register_pk(&mut self, id: &str, ip: &str, now: u64) -> (r: Result<
        (),
        RegisterPkResult,
    >)
        requires
            old(self).wf(),
        ensures
            final(self).wf(),
            (r, final(self)@) == register_pk_admitted(old(self)@, id@, ip@, now),
            byte_len(id@) < MIN_ID_LEN ==> {
                &&& r == Err::<(), _>(RegisterPkResult::UuidMismatch)
                &&& final(self)@ == old(self)@
            },
            byte_len(id@) >= MIN_ID_LEN ==> {
                &&& r == (if ip_admits(
                    old(self)@.ip_blocker,
                    ip@,
                    id@,
                    now,
                    old(self).limits,
                ) {
                    Ok(())
                } else {
                    Err(RegisterPkResult::TooFrequent)
                })
                &&& final(self)@ == (ServerView {
                    ip_blocker: ip_after(old(self)@.ip_blocker, ip@, id@, now, old(self).limits),
                    ..old(self)@
                })
            },
    {
        if id.as_bytes().len() < MIN_ID_LEN {
            return Err(RegisterPkResult::UuidMismatch);
        }
        if !self.check_ip_blocker(ip, id, now) {
            return Err(RegisterPkResult::TooFrequent);
        }
        Ok(())
    }

    /// Counts a move of the peer `id` to the address `ip`.
    fn count_ip_change(&mut self, id: &str, ip: &str, now: u64)
        requires
            old(self).wf(),
            change_countable(old(self)@.ip_changes, id@, ip@, now, old(self).limits),
        ensures
            final(self).wf(),
            final(self)@ == (ServerView {
                ip_changes: changes_after(old(self)@.ip_changes, id@, ip@, now, old(self).limits),
                ..old(self)@
            }),
    {
        let limits = self.limits;
        match self.ip_changes.get_mut(id) {
            Some(change) => {
                assert(old(self)@.ip_changes.dom().contains(id@));
                if secs_since(change.since, now) > limits.ip_change_secs {
                    change.since = now;
                    change.ips.clear();
                    change.ips.insert(ip.to_owned(), 1);
                } else {
                    let times: u32 = match change.ips.get(ip) {
                        Some(times) => *times,
                        None => 0,
                    };
                    change.ips.insert(ip.to_owned(), times + 1);
                }
            },
            None => {
                let mut ips = StringHashMap::new();
                ips.insert(ip.to_owned(), 1);
                self.ip_changes.insert_new(id.to_owned(), IpChange { since: now, ips });
            },
        }
        proof {
            assert(self@.ip_changes =~= changes_after(
                old(self)@.ip_changes,
                id@,
                ip@,
                now,
                limits,
            ));
            lemma_apart_by_tables(old(self)@, self@);
        }
    }

    /// Whether one more move of `id` to `ip` can be counted.
    pub fn can_count_ip_change(&self, id: &str, ip: &str, now: u64) -> (countable: bool)
        requires
            self.wf(),
        ensures
            countable == change_countable(self@.ip_changes, id@, ip@, now, self.limits),
    {
        match self.ip_changes.get(id) {
            Some(change) => {
                assert(self@.ip_changes.dom().contains(id@));
                match change.ips.get(ip) {
                    Some(times) => secs_since(change.since, now) > self.limits.ip_change_secs
                        || *times < u32::MAX,
                    None => true,
                }
            },
            None => true,
        }
    }

    /// Whether a registration on the peer that has the id can be counted, if it succeeds
    /// and the peer has moved.
    pub fn can_register(
        &self,
        id: &str,
        uuid: &Vec<u8>,
        pk: &Vec<u8>,
        ip: &String,
        peer: &Peer,
        now: u64,
    ) -> (can: bool)
        requires
            self.wf(),
        ensures
            can == (registration(peer@, uuid@, pk@, ip@, now) is Ok && ip_moved(peer@, ip@)
                ==> change_countable(self@.ip_changes, id@, ip@, now, self.limits)),
    {
        if peer.uuid.is_empty() || peer.ip == *ip {
            return true;
        }
        if !same_bytes(&peer.uuid, uuid) || !same_bytes(&peer.pk, pk) {
            return true;
        }
        if secs_since(peer.reg_pk.1, now) <= REG_BURST_SECS && peer.reg_pk.0 > REG_BURST {
            return true;
        }
        self.can_count_ip_change(id, ip.as_str(), now)
    }

    /// Second half of a registration, on the peer that has the id. On success the
    /// registration is counted, a move to another address too; otherwise nothing
    /// changes.
    pub fn validate_register_pk(
        &mut self,
        id: &str,
        uuid: &Vec<u8>,
        pk: &Vec<u8>,
        ip: &String,
        peer: &mut Peer,
        now: u64,
    ) -> (r: Result<(bool, bool), RegisterPkResult>)
        requires
            old(self).wf(),
            registration(old(peer)@, uuid@, pk@, ip@, now) is Ok && ip_moved(old(peer)@, ip@)
                ==> change_countable(old(self)@.ip_changes, id@, ip@, now, old(self).limits),
        ensures
            final(self).wf(),
            r == registration(old(peer)@, uuid@, pk@, ip@, now),
            final(self)@ == server_after(old(self)@, old(peer)@, id@, uuid@, pk@, ip@, now),
            final(peer)@ == peer_after(old(peer)@, uuid@, pk@, ip@, now),
            r is Err ==> final(self)@ == old(self)@ && final(peer)@ == old(peer)@,
            r is Ok ==> final(peer)@ == reg_counted(old(peer)@, now),
            r is Ok ==> final(self)@ == (if ip_moved(old(peer)@, ip@) {
                ServerView {
                    ip_changes: changes_after(
                        old(self)@.ip_changes,
                        id@,
                        ip@,
                        now,
                        old(self).limits,
                    ),
                    ..old(self)@
                }
            } else {
                old(self)@
            }),
    {
        let same_ip = peer.ip == *ip;
        let same_pk = same_bytes(&peer.pk, pk);
        let (changed, ip_changed) = if peer.uuid.is_empty() {
            (true, false)
        } else {
            if same_bytes(&peer.uuid, uuid) {
                if !same_ip && !same_pk {
                    return Err(RegisterPkResult::UuidMismatch);
                }
            } else {
                return Err(RegisterPkResult::UuidMismatch);
            }
            (!same_pk || !same_ip, !same_ip)
        };
        let mut reg_pk = peer.reg_pk;
        if secs_since(reg_pk.1, now) > REG_BURST_SECS {
            reg_pk.0 = 0;
        } else if reg_pk.0 > REG_BURST {
            return Err(RegisterPkResult::TooFrequent);
        }
        reg_pk.0 = reg_pk.0 + 1;
        reg_pk.1 = now;
        peer.reg_pk = reg_pk;
        if ip_changed {
            self.count_ip_change(id, ip.as_str(), now);
        }
        Ok((changed, ip_changed))
    }
}

} // verus!
