//! The rendezvous server: its state, and what holds of it.
use vstd::prelude::*;

use crate::addr::Addr;
use crate::message::texts;
use crate::network::Ipv4Net;
use crate::sink_table::SinkTable;
use crate::str_table::StrTable;

pub mod action;
pub mod laws;
pub mod listener;
pub mod message_laws;
pub mod register;
pub mod register_laws;
pub mod server;
pub mod sink;
pub mod tcp_handler;

use crate::rendezvous_server::register::{
    blocker_view, changes_view, IpChange, IpChangeView, IpRecord, IpRecordView,
};

verus! {

/// Milliseconds after which a silent peer counts as offline, and a silent
/// connection is closed.
pub const REG_TIMEOUT: u64 = 30_000;

/// Milliseconds between two checks of the relay servers.
pub const CHECK_RELAY_TIMEOUT: u64 = 3_000;

/// How long the limits on registrations look back, in seconds.
#[derive(Clone, Copy, Debug, PartialEq, Eq, Structural)]
pub struct Limits {
    /// An IP address that paused for longer starts a new count of requests.
    pub ip_block_secs: u64,
    /// An IP address that paused for longer starts a new set of ids.
    pub day_secs: u64,
    /// Changes of address older than this are forgotten.
    pub ip_change_secs: u64,
}

/// What is fixed when the server starts.
pub struct Inner {
    pub serial: i32,
    pub version: String,
    pub software_url: String,
    pub mask: Option<Ipv4Net>,
    pub local_ip: String,
    /// The key that signs the offer of a secure connection.
    pub sk: Option<[u8; 64]>,
}

/// The state that the connections of a server share.
pub struct RendezvousServer {
    pub inner: Inner,
    pub limits: Limits,
    pub rendezvous_servers: Vec<String>,
    pub relay_servers: Vec<String>,
    pub relay_servers0: Vec<String>,
    /// Sinks of connections that wait for the answer to one request.
    pub tcp_punch: SinkTable,
    /// Sinks of peers that registered over a web socket.
    pub ws_map: SinkTable,
    /// Sinks of peers that registered over plain TCP.
    pub tcp_map: SinkTable,
    pub ip_blocker: StrTable<IpRecord>,
    pub ip_changes: StrTable<IpChange>,
}

pub struct ServerView {
    pub inner: Inner,
    pub limits: Limits,
    pub rendezvous_servers: Seq<Seq<char>>,
    pub relay_servers: Seq<Seq<char>>,
    pub relay_servers0: Seq<Seq<char>>,
    pub tcp_punch: Map<Addr, u64>,
    pub ws_map: Map<Addr, u64>,
    pub tcp_map: Map<Addr, u64>,
    pub ip_blocker: Map<Seq<char>, IpRecordView>,
    pub ip_changes: Map<Seq<char>, IpChangeView>,
}

impl View for RendezvousServer {
    type V = ServerView;

    open spec fn view(&self) -> ServerView {
        ServerView {
            inner: self.inner,
            limits: self.limits,
            rendezvous_servers: texts(self.rendezvous_servers@),
            relay_servers: texts(self.relay_servers@),
            relay_servers0: texts(self.relay_servers0@),
            tcp_punch: self.tcp_punch@,
            ws_map: self.ws_map@,
            tcp_map: self.tcp_map@,
            ip_blocker: blocker_view(self.ip_blocker@),
            ip_changes: changes_view(self.ip_changes@),
        }
    }
}

/// Where a sink can be filed.
pub enum Place {
    Punch(Addr),
    Ws(Addr),
    Tcp(Addr),
}

impl ServerView {
    /// The sink that is filed at a place.
    pub open spec fn sink_at(self, place: Place) -> Option<u64> {
        let (table, key) = match place {
            Place::Punch(key) => (self.tcp_punch, key),
            Place::Ws(key) => (self.ws_map, key),
            Place::Tcp(key) => (self.tcp_map, key),
        };
        if table.dom().contains(key) {
            Some(table[key])
        } else {
            None
        }
    }

    /// The state with `sink` filed at a place, instead of what was there.
    pub open spec fn filed(self, place: Place, sink: u64) -> ServerView {
        match place {
            Place::Punch(key) => ServerView { tcp_punch: self.tcp_punch.insert(key, sink), ..self },
            Place::Ws(key) => ServerView { ws_map: self.ws_map.insert(key, sink), ..self },
            Place::Tcp(key) => ServerView { tcp_map: self.tcp_map.insert(key, sink), ..self },
        }
    }

    /// The state with nothing filed at a place.
    pub open spec fn unfiled(self, place: Place) -> ServerView {
        match place {
            Place::Punch(key) => ServerView { tcp_punch: self.tcp_punch.remove(key), ..self },
            Place::Ws(key) => ServerView { ws_map: self.ws_map.remove(key), ..self },
            Place::Tcp(key) => ServerView { tcp_map: self.tcp_map.remove(key), ..self },
        }
    }

    /// The sink is filed somewhere.
    pub open spec fn is_filed(self, sink: u64) -> bool {
        exists|place: Place| self.sink_at(place) == Some(sink)
    }

    /// No sink is filed at two places.
    pub open spec fn sinks_apart(self) -> bool {
        forall|one: Place, two: Place|
            #![trigger self.sink_at(one), self.sink_at(two)]
            self.sink_at(one) is Some && self.sink_at(one) == self.sink_at(two) ==> one == two
    }

    /// The records on IP addresses keep within their bounds.
    pub open spec fn records_bounded(self) -> bool {
        forall|ip: Seq<char>| #[trigger]
            self.ip_blocker.dom().contains(ip) ==> self.ip_blocker[ip].bounded()
    }
}

/// Whether sinks are apart rests on the tables of sinks alone.
pub(crate) proof fn lemma_apart_by_tables(one: ServerView, two: ServerView)
    requires
        one.sinks_apart(),
        one.tcp_punch == two.tcp_punch,
        one.ws_map == two.ws_map,
        one.tcp_map == two.tcp_map,
    ensures
        two.sinks_apart(),
        forall|sink: u64| one.is_filed(sink) == #[trigger] two.is_filed(sink),
{
    assert forall|place: Place| #[trigger] two.sink_at(place) == one.sink_at(place) by {}
    assert forall|sink: u64| one.is_filed(sink) == #[trigger] two.is_filed(sink) by {
        if one.is_filed(sink) {
            let place = choose|place: Place| one.sink_at(place) == Some(sink);
            assert(two.sink_at(place) == Some(sink));
        }
        if two.is_filed(sink) {
            let place = choose|place: Place| two.sink_at(place) == Some(sink);
            assert(one.sink_at(place) == Some(sink));
        }
    }
}

/// Clearing a place keeps the sinks apart, and frees the sink that was there.
pub(crate) proof fn lemma_unfiled(view: ServerView, place: Place)
    requires
        view.sinks_apart(),
    ensures
        view.unfiled(place).sinks_apart(),
        view.sink_at(place) matches Some(sink) ==> !view.unfiled(place).is_filed(sink),
        forall|sink: u64| #[trigger]
            view.unfiled(place).is_filed(sink) ==> view.is_filed(sink),
{
    let after = view.unfiled(place);
    assert forall|other: Place| #[trigger] after.sink_at(other) == (if other == place {
        None
    } else {
        view.sink_at(other)
    }) by {}
    assert forall|sink: u64| #[trigger] after.is_filed(sink) implies view.is_filed(sink) by {
        let at = choose|at: Place| after.sink_at(at) == Some(sink);
        assert(view.sink_at(at) == Some(sink));
    }
    if let Some(sink) = view.sink_at(place) {
        if after.is_filed(sink) {
            let at = choose|at: Place| after.sink_at(at) == Some(sink);
            assert(view.sink_at(at) == view.sink_at(place));
        }
    }
}

/// Filing a sink that is filed nowhere keeps the sinks apart, and frees the sink that
/// it displaces.
pub(crate) proof fn lemma_filed(view: ServerView, place: Place, sink: u64)
    requires
        view.sinks_apart(),
        !view.is_filed(sink),
    ensures
        view.filed(place, sink).sinks_apart(),
        view.filed(place, sink).sink_at(place) == Some(sink),
        view.sink_at(place) matches Some(was) ==> !view.filed(place, sink).is_filed(was),
        forall|other: u64| #[trigger]
            view.filed(place, sink).is_filed(other) ==> other == sink || view.is_filed(other),
{
    let after = view.filed(place, sink);
    assert forall|at: Place| #[trigger] after.sink_at(at) == (if at == place {
        Some(sink)
    } else {
        view.sink_at(at)
    }) by {}
    assert forall|one: Place, two: Place|
        #![trigger after.sink_at(one), after.sink_at(two)]
        after.sink_at(one) is Some && after.sink_at(one) == after.sink_at(two) implies one
        == two by {
        if one == place && two != place {
            assert(view.sink_at(two) == Some(sink));
        } else if two == place && one != place {
            assert(view.sink_at(one) == Some(sink));
        } else if one != place {
            assert(view.sink_at(one) == view.sink_at(two));
        }
    }
    assert forall|other: u64| #[trigger] after.is_filed(other) implies other == sink
        || view.is_filed(other) by {
        let at = choose|at: Place| after.sink_at(at) == Some(other);
        if at != place {
            assert(view.sink_at(at) == Some(other));
        }
    }
    if let Some(was) = view.sink_at(place) {
        assert(view.is_filed(was));
        if after.is_filed(was) {
            let at = choose|at: Place| after.sink_at(at) == Some(was);
            assert(at != place);
            assert(view.sink_at(at) == view.sink_at(place));
        }
    }
}

impl RendezvousServer {
    /// The tables are sound, no sink is filed twice, and the records on IP addresses
    /// keep within their bounds.
    pub open spec fn wf(&self) -> bool {
        &&& self.tcp_punch.wf()
        &&& self.ws_map.wf()
        &&& self.tcp_map.wf()
        &&& self.ip_blocker.wf()
        &&& self.ip_changes.wf()
        &&& self@.sinks_apart()
        &&& self@.records_bounded()
    }
}

} // verus!
