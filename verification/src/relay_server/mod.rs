//! Relay server: pairs two connections that name the same session, and carries bytes
//! between them.
use vstd::hash_map::StringHashMap;
use vstd::hash_set::StringHashSet;
use vstd::prelude::*;

pub mod connection;
pub mod laws;
pub mod relay;
pub mod server;
pub mod stream;

use crate::relay_server::stream::Stream;

verus! {

/// The file with the addresses that are slowed down.
pub const BLACKLIST_FILE: &'static str = "blacklist.txt";

/// The file with the addresses that are turned away.
pub const BLOCKLIST_FILE: &'static str = "blocklist.txt";

/// What of a single bandwidth a relay may use on average, in hundredths.
pub const DOWNGRADE_THRESHOLD_100: usize = 66;

/// How long a relay may exceed that, in milliseconds.
pub const DOWNGRADE_START_CHECK: usize = 1_800_000;

/// Bandwidth of a relay that is slowed down, in bits per second.
pub const LIMIT_SPEED: usize = 33_554_432;

/// Bandwidth of all relays together, in bits per second.
pub const TOTAL_BANDWIDTH: usize = 1_073_741_824;

/// Bandwidth of one relay, in bits per second.
pub const SINGLE_BANDWIDTH: usize = 134_217_728;

/// What a relay has used so far.
#[derive(Clone, Copy, Debug, PartialEq, Eq, Structural)]
pub struct Usage {
    /// Time that is accounted for, in milliseconds.
    pub elapsed: usize,
    /// Bits that were carried.
    pub total: usize,
    /// Highest speed, in bits per millisecond.
    pub highest_speed: usize,
    /// Latest speed, in bits per millisecond.
    pub speed: usize,
}

/// What the operator can change while the server runs.
#[derive(Clone, Copy, Debug, PartialEq, Eq, Structural)]
pub struct Settings {
    pub downgrade_threshold: usize,
    pub downgrade_start_check: usize,
    pub limit_speed: usize,
    pub total_bandwidth: usize,
    pub single_bandwidth: usize,
}

impl Default for Settings {
    fn default() -> (settings: Settings)
        ensures
            settings.downgrade_threshold == DOWNGRADE_THRESHOLD_100,
            settings.downgrade_start_check == DOWNGRADE_START_CHECK,
            settings.limit_speed == LIMIT_SPEED,
            settings.total_bandwidth == TOTAL_BANDWIDTH,
            settings.single_bandwidth == SINGLE_BANDWIDTH,
    {
        Settings {
            downgrade_threshold: DOWNGRADE_THRESHOLD_100,
            downgrade_start_check: DOWNGRADE_START_CHECK,
            limit_speed: LIMIT_SPEED,
            total_bandwidth: TOTAL_BANDWIDTH,
            single_bandwidth: SINGLE_BANDWIDTH,
        }
    }
}

/// State of a relay server.
pub struct RelayServer {
    /// What a request has to carry as its licence key; anything where it is empty.
    pub key: String,
    /// Connections that wait for their other end, by session.
    pub peers: StringHashMap<Stream>,
    /// What the relays that run have used.
    pub usage: StringHashMap<Usage>,
    /// Addresses that are slowed down.
    pub blacklist: StringHashSet,
    /// Addresses that are turned away.
    pub blocklist: StringHashSet,
    pub settings: Settings,
}

#[verifier::ext_equal]
pub struct RelayServerView {
    pub key: Seq<char>,
    pub peers: Map<Seq<char>, Stream>,
    pub usage: Map<Seq<char>, Usage>,
    pub blacklist: Set<Seq<char>>,
    pub blocklist: Set<Seq<char>>,
    pub settings: Settings,
}

impl View for RelayServer {
    type V = RelayServerView;

    open spec fn view(&self) -> RelayServerView {
        RelayServerView {
            key: self.key@,
            peers: self.peers@,
            usage: self.usage@,
            blacklist: self.blacklist@,
            blocklist: self.blocklist@,
            settings: self.settings,
        }
    }
}

impl RelayServerView {
    /// Nobody waits, nothing runs, and no address is listed; the settings are the defaults.
    pub open spec fn is_new(self, key: Seq<char>) -> bool {
        &&& self.key == key
        &&& self.peers == Map::<Seq<char>, Stream>::empty()
        &&& self.usage == Map::<Seq<char>, Usage>::empty()
        &&& self.blacklist == Set::<Seq<char>>::empty()
        &&& self.blocklist == Set::<Seq<char>>::empty()
        &&& self.settings.downgrade_threshold == DOWNGRADE_THRESHOLD_100
        &&& self.settings.downgrade_start_check == DOWNGRADE_START_CHECK
        &&& self.settings.limit_speed == LIMIT_SPEED
        &&& self.settings.total_bandwidth == TOTAL_BANDWIDTH
        &&& self.settings.single_bandwidth == SINGLE_BANDWIDTH
    }
}

impl RelayServer {
    /// A server with the default settings and without connections.
    pub fn new(key: String) -> (server: RelayServer)
        ensures
            server@.is_new(key@),
            server.key == key,
            server@.peers == Map::<Seq<char>, Stream>::empty(),
            server@.usage == Map::<Seq<char>, Usage>::empty(),
            server@.blacklist == Set::<Seq<char>>::empty(),
            server@.blocklist == Set::<Seq<char>>::empty(),
            server.settings.downgrade_threshold == DOWNGRADE_THRESHOLD_100,
            server.settings.downgrade_start_check == DOWNGRADE_START_CHECK,
            server.settings.limit_speed == LIMIT_SPEED,
            server.settings.total_bandwidth == TOTAL_BANDWIDTH,
            server.settings.single_bandwidth == SINGLE_BANDWIDTH,
    {
        RelayServer {
            key,
            peers: StringHashMap::new(),
            usage: StringHashMap::new(),
            blacklist: StringHashSet::new(),
            blocklist: StringHashSet::new(),
            settings: Settings::default(),
        }
    }
}

} // verus!
