//! What the server knows of a peer.
use vstd::prelude::*;

use crate::addr::Remote;

verus! {

/// A peer as the peer map holds it.
#[derive(Debug)]
pub struct Peer {
    /// Where the peer was last heard.
    pub socket_addr: Remote,
    /// When it was last heard.
    pub last_reg_time: u64,
    /// The machine that the id belongs to; empty where the id is still free.
    pub uuid: Vec<u8>,
    pub pk: Vec<u8>,
    /// The IP address that its public key was registered from.
    pub ip: String,
    /// Registrations in the current burst, and when the last one came.
    pub reg_pk: (u32, u64),
}

pub struct PeerView {
    pub socket_addr: Remote,
    pub last_reg_time: u64,
    pub uuid: Seq<u8>,
    pub pk: Seq<u8>,
    pub ip: Seq<char>,
    pub reg_pk: (u32, u64),
}

impl View for Peer {
    type V = PeerView;

    open spec fn view(&self) -> PeerView {
        PeerView {
            socket_addr: self.socket_addr,
            last_reg_time: self.last_reg_time,
            uuid: self.uuid@,
            pk: self.pk@,
            ip: self.ip@,
            reg_pk: self.reg_pk,
        }
    }
}

impl PeerView {
    /// The peer, heard from `remote` at `now`.
    pub open spec fn heard(self, remote: Remote, now: u64) -> PeerView {
        PeerView { socket_addr: remote, last_reg_time: now, ..self }
    }

    /// The peer, heard at `now` from where it is known to be.
    pub open spec fn refreshed(self, now: u64) -> PeerView {
        PeerView { last_reg_time: now, ..self }
    }
}

impl Peer {
    /// Notes that the peer was heard from `remote` at `now`.
    pub fn hear(&mut self, remote: Remote, now: u64)
        ensures
            final(self)@ == old(self)@.heard(remote, now),
    {
        self.socket_addr = remote;
        self.last_reg_time = now;
    }

    /// Notes that the peer was heard at `now`; where it is stays as it was.
    pub fn refresh(&mut self, now: u64)
        ensures
            final(self)@ == old(self)@.refreshed(now),
    {
        self.last_reg_time = now;
    }
}

} // verus!
