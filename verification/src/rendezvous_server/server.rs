//! How the server starts, and what keeps it going.
use vstd::prelude::*;

use crate::addr::{Addr, Ip};
use crate::message::{clone_texts, texts, RendezvousMessage};
use crate::network::{network_of, parse_mask, parsed_network};
use crate::rendezvous_server::{
    lemma_apart_by_tables, Inner, Limits, RendezvousServer, ServerView,
};
use crate::sink_table::SinkTable;
use crate::str_table::StrTable;

verus! {

/// What the server listens on.
#[derive(Clone, Copy, Debug, PartialEq, Eq, Structural)]
pub enum Endpoint {
    /// Datagrams.
    Udp,
    /// Connections of peers.
    Tcp,
    /// Connections of peers that test their NAT, and commands.
    Nat,
    /// Commands, where the server is bound to an address of its own.
    Console,
    /// Web sockets.
    Ws,
}

/// Why the loop of the server ended.
#[derive(Clone, Copy, Debug, PartialEq, Eq, Structural)]
pub enum LoopFailure {
    UdpSocket,
    Listener3,
    Listener2,
    Listener,
    ConsoleListener,
}

/// Where to listen.
#[derive(Clone, Copy, Debug, PartialEq, Eq, Structural)]
pub struct Listen {
    pub endpoint: Endpoint,
    pub bind_addr: Option<Ip>,
    pub port: i32,
}

/// What the server listens on, from its start to its end.
#[derive(Clone, Copy, Debug, PartialEq, Eq, Structural)]
pub struct StartPlan {
    pub bind_addr: Option<Ip>,
    pub port: i32,
    pub nat_port: i32,
    pub ws_port: i32,
    /// Size of the receive buffer for datagrams.
    pub rmem: usize,
}

impl StartPlan {
    /// Where a server listens: the port for NAT tests is one below its own, that for web
    /// sockets two above.
    pub fn new(bind_addr: Option<Ip>, port: i32, rmem: usize) -> (plan: StartPlan)
        requires
            i32::MIN < port <= i32::MAX - 2,
        ensures
            plan == (StartPlan {
                bind_addr,
                port,
                nat_port: (port - 1) as i32,
                ws_port: (port + 2) as i32,
                rmem,
            }),
    {
        StartPlan { bind_addr, port, nat_port: port - 1, ws_port: port + 2, rmem }
    }

    /// The port of an endpoint.
    pub open spec fn port_of(self, endpoint: Endpoint) -> i32 {
        match endpoint {
            Endpoint::Udp => self.port,
            Endpoint::Tcp => self.port,
            Endpoint::Nat => self.nat_port,
            Endpoint::Console => self.nat_port,
            Endpoint::Ws => self.ws_port,
        }
    }

    /// Where an endpoint listens.
    pub open spec fn listen_at(self, endpoint: Endpoint) -> Listen {
        Listen { endpoint, bind_addr: self.bind_addr, port: self.port_of(endpoint) }
    }

    /// Where an endpoint listens.
    pub fn listen(&self, endpoint: Endpoint) -> (listen: Listen)
        ensures
            listen == self.listen_at(endpoint),
            listen == (Listen {
                endpoint,
                bind_addr: self.bind_addr,
                port: self.port_of(endpoint),
            }),
    {
        let port: i32 = match endpoint {
            Endpoint::Udp => self.port,
            Endpoint::Tcp => self.port,
            Endpoint::Nat => self.nat_port,
            Endpoint::Console => self.nat_port,
            Endpoint::Ws => self.ws_port,
        };
        Listen { endpoint, bind_addr: self.bind_addr, port }
    }

    /// What to listen on anew after a failure.
    pub fn rebuild(&self, failure: LoopFailure) -> (listen: Listen)
        ensures
            listen == self.listen_at(failure.endpoint()),
            listen == (Listen {
                endpoint: failure.endpoint(),
                bind_addr: self.bind_addr,
                port: self.port_of(failure.endpoint()),
            }),
    {
        self.listen(failure.endpoint())
    }
}

/// What the operator sets for a server.
pub struct Options {
    pub rendezvous_servers: Vec<String>,
    pub software_url: String,
    /// The version that the address of the software names.
    pub version: String,
    /// The local network, as text.
    pub mask: String,
    /// The address of the server in the local network.
    pub local_ip: String,
    pub always_use_relay: String,
    pub test_hbbs: String,
}

/// A server that starts.
pub struct Start {
    pub plan: StartPlan,
    pub server: RendezvousServer,
    /// Peers have to use a relay whatever they ask for.
    pub always_use_relay: bool,
    pub self_test: SelfTest,
}

/// The local address of a server: it has one only where it knows its local network.
pub open spec fn local_ip_by(network: Option<(u32, u8)>, local_ip: Seq<char>) -> Seq<char> {
    if network is None {
        Seq::empty()
    } else {
        local_ip
    }
}

impl ServerView {
    /// Nobody is connected, nothing is remembered, and no relay server is known.
    pub open spec fn is_idle(self) -> bool {
        &&& self.relay_servers.len() == 0
        &&& self.relay_servers0.len() == 0
        &&& self.tcp_punch == Map::<Addr, u64>::empty()
        &&& self.ws_map == Map::<Addr, u64>::empty()
        &&& self.tcp_map == Map::<Addr, u64>::empty()
        &&& self.ip_blocker.dom().is_empty()
        &&& self.ip_changes.dom().is_empty()
    }
}

impl Start {
    /// The start of a server with these settings. The port for NAT tests is one below its
    /// own, that for web sockets two above.
    pub open spec fn is_of(
        self,
        bind_addr: Option<Ip>,
        port: i32,
        serial: i32,
        sk: Option<[u8; 64]>,
        rmem: usize,
        options: Options,
        limits: Limits,
    ) -> bool {
        let server = self.server;
        &&& self.plan == StartPlan {
            bind_addr,
            port,
            nat_port: (port - 1) as i32,
            ws_port: (port + 2) as i32,
            rmem,
        }
        &&& server.wf()
        &&& server.inner.serial == serial
        &&& server.inner.version == options.version
        &&& server.inner.software_url == options.software_url
        &&& server.inner.mask == network_of(parsed_network(options.mask@))
        &&& server.inner.local_ip@ == local_ip_by(
            parsed_network(options.mask@),
            options.local_ip@,
        )
        &&& server.inner.sk == sk
        &&& server.limits == limits
        &&& server@.rendezvous_servers == texts(options.rendezvous_servers@)
        &&& server@.is_idle()
        &&& self.always_use_relay == (uppercase(options.always_use_relay@) == "Y"@)
        &&& self.self_test == self_test_by(lowercase(options.test_hbbs@), options.test_hbbs)
    }
}

impl LoopFailure {
    /// The failure of an endpoint.
    #[verifier::allow_in_spec]
    pub fn of(endpoint: Endpoint) -> LoopFailure
        returns
            (match endpoint {
                Endpoint::Udp => LoopFailure::UdpSocket,
                Endpoint::Ws => LoopFailure::Listener3,
                Endpoint::Nat => LoopFailure::Listener2,
                Endpoint::Tcp => LoopFailure::Listener,
                Endpoint::Console => LoopFailure::ConsoleListener,
            }),
    {
        match endpoint {
            Endpoint::Udp => LoopFailure::UdpSocket,
            Endpoint::Ws => LoopFailure::Listener3,
            Endpoint::Nat => LoopFailure::Listener2,
            Endpoint::Tcp => LoopFailure::Listener,
            Endpoint::Console => LoopFailure::ConsoleListener,
        }
    }

    /// The endpoint that failed.
    #[verifier::allow_in_spec]
    pub fn endpoint(&self) -> Endpoint
        returns
            (match *self {
                LoopFailure::UdpSocket => Endpoint::Udp,
                LoopFailure::Listener3 => Endpoint::Ws,
                LoopFailure::Listener2 => Endpoint::Nat,
                LoopFailure::Listener => Endpoint::Tcp,
                LoopFailure::ConsoleListener => Endpoint::Console,
            }),
    {
        match *self {
            LoopFailure::UdpSocket => Endpoint::Udp,
            LoopFailure::Listener3 => Endpoint::Ws,
            LoopFailure::Listener2 => Endpoint::Nat,
            LoopFailure::Listener => Endpoint::Tcp,
            LoopFailure::ConsoleListener => Endpoint::Console,
        }
    }
}

/// The uppercase text that `str::to_uppercase` makes.
pub uninterp spec fn uppercase(text: Seq<char>) -> Seq<char>;

/// Calls `str::to_uppercase`; claims that its result is a function of the text.
#[verifier::external_body]
fn to_upper(text: &str) -> (upper: String)
    ensures
        upper@ == uppercase(text@),
{
    text.to_uppercase()
}

/// The lowercase text that `str::to_lowercase` makes.
pub uninterp spec fn lowercase(text: Seq<char>) -> Seq<char>;

/// Calls `str::to_lowercase`; claims that its result is a function of the text.
#[verifier::external_body]
fn to_lower(text: &str) -> (lower: String)
    ensures
        lower@ == lowercase(text@),
{
    text.to_lowercase()
}

/// Whether an uppercase text switches an option on.
pub fn is_yes(upper: String) -> (yes: bool)
    ensures
        yes == (upper@ == "Y"@),
{
    upper == "Y".to_owned()
}

/// Whether peers have to use a relay whatever they ask for.
pub fn always_use_relay(option: &str) -> (always: bool)
    ensures
        always == (uppercase(option@) == "Y"@),
{
    is_yes(to_upper(option))
}

/// How the server tests itself once it listens.
#[derive(Debug)]
pub enum SelfTest {
    Skip,
    /// At the address that it listens on.
    OwnAddr,
    /// At the address that a text spells.
    At(String),
}

/// How the server tests itself, by an option and the same in lowercase.
pub open spec fn self_test_by(lower: Seq<char>, option: String) -> SelfTest {
    if lower == "no"@ {
        SelfTest::Skip
    } else if option@.len() == 0 {
        SelfTest::OwnAddr
    } else {
        SelfTest::At(option)
    }
}

/// How the server tests itself, by an option and the same in lowercase.
pub fn choose_self_test(lower: String, option: String) -> (test: SelfTest)
    ensures
        test == self_test_by(lower@, option),
{
    if lower == "no".to_owned() {
        SelfTest::Skip
    } else if option.as_str().is_empty() {
        SelfTest::OwnAddr
    } else {
        SelfTest::At(option)
    }
}

/// How the server tests itself, by an option.
pub fn self_test(option: String) -> (test: SelfTest)
    ensures
        test == self_test_by(lowercase(option@), option),
{
    choose_self_test(to_lower(option.as_str()), option)
}

/// Where to test again after a test at `addr` failed.
pub open spec fn test_again(addr: Addr) -> Option<Addr> {
    match addr {
        Addr::V6 { ip, port, .. } if ip == 0 => Some(Addr::V4 { ip: 0, port }),
        _ => None,
    }
}

/// Where to test again after a test at `addr` failed: a server that listens on every
/// IPv6 address may answer on IPv4 alone. Otherwise the server gives up.
pub fn self_test_again(addr: Addr) -> (again: Option<Addr>)
    ensures
        again == test_again(addr),
        again == (match addr {
            Addr::V6 { ip, port, .. } if ip == 0 => Some(Addr::V4 { ip: 0, port }),
            _ => None,
        }),
{
    match addr {
        Addr::V6 { port, .. } => if addr.ip().is_unspecified() {
            Some(Addr::V4 { ip: 0, port })
        } else {
            None
        },
        Addr::V4 { .. } => None,
    }
}

/// What other tasks hand to the loop of the server.
#[derive(Debug)]
pub enum Data {
    /// Send a message in a datagram.
    Msg(RendezvousMessage, Addr),
    /// The relay servers, as text.
    RelayServers0(String),
    /// The relay servers that answer.
    RelayServers(Vec<String>),
}

/// What can happen in the loop of the server.
#[derive(Debug)]
pub enum LoopEvent {
    /// It is time to check the relay servers.
    RelayTimer,
    Data(Data),
    /// A datagram came in.
    Datagram,
    /// A datagram could not be read, or not be handled.
    DatagramFailed,
    /// The source of datagrams gave nothing.
    NoDatagram,
    /// A connection came in at an endpoint.
    Accepted(Endpoint),
    /// No connection could be accepted at an endpoint.
    AcceptFailed(Endpoint),
}

/// What the loop of the server does next.
#[derive(Debug)]
pub enum LoopStep {
    Nothing,
    /// Check which of the relay servers answer.
    CheckRelays(Vec<String>),
    SendUdp(RendezvousMessage, Addr),
    /// Read the relay servers from a text.
    ParseRelayServers(String),
    HandleDatagram,
    /// Take the connection of a peer.
    HandleListener { ws: bool },
    /// Take a connection to the test port.
    HandleListener2,
    /// End the loop.
    Fail(LoopFailure),
}

/// What one turn of the loop leads to: the relay servers that answer from then on, and the
/// step to take, with a list of texts by what they hold.
pub open spec fn turns_to(
    view: ServerView,
    event: LoopEvent,
    after: ServerView,
    step: LoopStep,
) -> bool {
    match event {
        LoopEvent::RelayTimer => {
            &&& after == view
            &&& if view.relay_servers0.len() > 1 {
                step matches LoopStep::CheckRelays(list) && texts(list@) == view.relay_servers0
            } else {
                step == LoopStep::Nothing
            }
        },
        LoopEvent::Data(Data::Msg(message, to)) => {
            after == view && step == LoopStep::SendUdp(message, to)
        },
        LoopEvent::Data(Data::RelayServers0(text)) => {
            after == view && step == LoopStep::ParseRelayServers(text)
        },
        LoopEvent::Data(Data::RelayServers(list)) => {
            &&& after == (ServerView { relay_servers: texts(list@), ..view })
            &&& step == LoopStep::Nothing
        },
        LoopEvent::Datagram => after == view && step == LoopStep::HandleDatagram,
        LoopEvent::DatagramFailed => {
            after == view && step == LoopStep::Fail(LoopFailure::UdpSocket)
        },
        LoopEvent::NoDatagram => after == view && step == LoopStep::Nothing,
        LoopEvent::Accepted(at) => {
            &&& after == view
            &&& step == (match at {
                Endpoint::Tcp => LoopStep::HandleListener { ws: false },
                Endpoint::Ws => LoopStep::HandleListener { ws: true },
                Endpoint::Nat => LoopStep::HandleListener2,
                Endpoint::Console => LoopStep::HandleListener2,
                Endpoint::Udp => LoopStep::Nothing,
            })
        },
        LoopEvent::AcceptFailed(at) => after == view && step == LoopStep::Fail(
            LoopFailure::of(at),
        ),
    }
}

impl RendezvousServer {
    /// Starts a server that is bound to no address in particular.
    pub fn start(
        port: i32,
        serial: i32,
        sk: Option<[u8; 64]>,
        rmem: usize,
        options: Options,
        limits: Limits,
    ) -> (start: Start)
        requires
            i32::MIN < port <= i32::MAX - 2,
        ensures
            start.is_of(None, port, serial, sk, rmem, options, limits),
    {
        Self::start_with_bind(None, port, serial, sk, rmem, options, limits)
    }

    /// Starts a server: where it listens, its first state, and what its options ask for.
    pub fn start_with_bind(
        bind_addr: Option<Ip>,
        port: i32,
        serial: i32,
        sk: Option<[u8; 64]>,
        rmem: usize,
        options: Options,
        limits: Limits,
    ) -> (start: Start)
        requires
            i32::MIN < port <= i32::MAX - 2,
        ensures
            start.is_of(bind_addr, port, serial, sk, rmem, options, limits),
    {
        let plan = StartPlan::new(bind_addr, port, rmem);
        let server = Self::new(
            serial,
            options.version,
            options.software_url,
            options.mask.as_str(),
            options.local_ip,
            sk,
            options.rendezvous_servers,
            limits,
        );
        let always_use_relay = always_use_relay(options.always_use_relay.as_str());
        let self_test = self_test(options.test_hbbs);
        Start { plan, server, always_use_relay, self_test }
    }

    /// A server to which nobody is connected. `mask` spells the local network; only
    /// where it does has the server a local address.
    pub fn new(
        serial: i32,
        version: String,
        software_url: String,
        mask: &str,
        local_ip: String,
        sk: Option<[u8; 64]>,
        rendezvous_servers: Vec<String>,
        limits: Limits,
    ) -> (server: RendezvousServer)
        ensures
            server.wf(),
            server.inner.serial == serial,
            server.inner.version == version,
            server.inner.software_url == software_url,
            server.inner.mask == network_of(parsed_network(mask@)),
            server.inner.local_ip@ == local_ip_by(parsed_network(mask@), local_ip@),
            server.inner.sk == sk,
            server.limits == limits,
            server@.rendezvous_servers == texts(rendezvous_servers@),
            server@.is_idle(),
    {
        let mask = parse_mask(mask);
        let local_ip = match mask {
            Some(_) => local_ip,
            None => String::new(),
        };
        let server = RendezvousServer {
            inner: Inner { serial, version, software_url, mask, local_ip, sk },
            limits,
            rendezvous_servers,
            relay_servers: Vec::new(),
            relay_servers0: Vec::new(),
            tcp_punch: SinkTable::new(),
            ws_map: SinkTable::new(),
            tcp_map: SinkTable::new(),
            ip_blocker: StrTable::new(),
            ip_changes: StrTable::new(),
        };
        server
    }

    /// One turn of the loop of the server. More than one relay server is checked at the
    /// timer; what other tasks hand over is taken; a failure ends the loop.
    pub fn io_loop(&mut self, event: LoopEvent) -> (step: LoopStep)
        requires
            old(self).wf(),
        ensures
            final(self).wf(),
            turns_to(old(self)@, event, final(self)@, step),
            match event {
                LoopEvent::RelayTimer => {
                    &&& final(self)@ == old(self)@
                    &&& if old(self).relay_servers0@.len() > 1 {
                        step matches LoopStep::CheckRelays(list) && texts(list@)
                            == old(self)@.relay_servers0
                    } else {
                        step == LoopStep::Nothing
                    }
                },
                LoopEvent::Data(Data::Msg(message, to)) => {
                    final(self)@ == old(self)@ && step == LoopStep::SendUdp(message, to)
                },
                LoopEvent::Data(Data::RelayServers0(text)) => {
                    final(self)@ == old(self)@ && step == LoopStep::ParseRelayServers(text)
                },
                LoopEvent::Data(Data::RelayServers(list)) => {
                    &&& final(self)@ == (ServerView { relay_servers: texts(list@), ..old(self)@ })
                    &&& step == LoopStep::Nothing
                },
                LoopEvent::Datagram => {
                    final(self)@ == old(self)@ && step == LoopStep::HandleDatagram
                },
                LoopEvent::DatagramFailed => {
                    final(self)@ == old(self)@ && step == LoopStep::Fail(LoopFailure::UdpSocket)
                },
                LoopEvent::NoDatagram => {
                    final(self)@ == old(self)@ && step == LoopStep::Nothing
                },
                LoopEvent::Accepted(at) => {
                    &&& final(self)@ == old(self)@
                    &&& step == (match at {
                        Endpoint::Tcp => LoopStep::HandleListener { ws: false },
                        Endpoint::Ws => LoopStep::HandleListener { ws: true },
                        Endpoint::Nat => LoopStep::HandleListener2,
                        Endpoint::Console => LoopStep::HandleListener2,
                        Endpoint::Udp => LoopStep::Nothing,
                    })
                },
                LoopEvent::AcceptFailed(at) => {
                    final(self)@ == old(self)@ && step == LoopStep::Fail(LoopFailure::of(at))
                },
            },
    {
        match event {
            LoopEvent::RelayTimer => if self.relay_servers0.len() > 1 {
                LoopStep::CheckRelays(clone_texts(&self.relay_servers0))
            } else {
                LoopStep::Nothing
            },
            LoopEvent::Data(Data::Msg(message, to)) => LoopStep::SendUdp(message, to),
            LoopEvent::Data(Data::RelayServers0(text)) => LoopStep::ParseRelayServers(text),
            LoopEvent::Data(Data::RelayServers(list)) => {
                self.relay_servers = list;
                proof { lemma_apart_by_tables(old(self)@, self@); }
                LoopStep::Nothing
            },
            LoopEvent::Datagram => LoopStep::HandleDatagram,
            LoopEvent::DatagramFailed => LoopStep::Fail(LoopFailure::UdpSocket),
            LoopEvent::NoDatagram => LoopStep::Nothing,
            LoopEvent::Accepted(at) => match at {
                Endpoint::Tcp => LoopStep::HandleListener { ws: false },
                Endpoint::Ws => LoopStep::HandleListener { ws: true },
                Endpoint::Nat => LoopStep::HandleListener2,
                Endpoint::Console => LoopStep::HandleListener2,
                Endpoint::Udp => LoopStep::Nothing,
            },
            LoopEvent::AcceptFailed(at) => LoopStep::Fail(LoopFailure::of(at)),
        }
    }
}

} // verus!
