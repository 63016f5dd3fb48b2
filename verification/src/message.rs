//! The messages of the rendezvous protocol, with the fields that the server reads
//! or writes as plain values. What the server only hands on travels in wire form.
use vstd::prelude::*;

verus! {

/// The texts of a list.
pub open spec fn texts(list: Seq<String>) -> Seq<Seq<char>> {
    list.map_values(|s: String| s@)
}

/// The byte strings of a list.
pub open spec fn byte_strings(list: Seq<Vec<u8>>) -> Seq<Seq<u8>> {
    list.map_values(|s: Vec<u8>| s@)
}

/// How a request to register a public key ends.
#[derive(Clone, Copy, Debug, PartialEq, Eq, Structural)]
pub enum RegisterPkResult {
    Accepted,
    UuidMismatch,
    IdExists,
    TooFrequent,
    InvalidIdFormat,
}

/// A controlling peer asks for a relay to the peer `id`.
#[derive(Debug)]
pub struct RequestRelay {
    pub id: String,
    pub uuid: String,
    pub licence_key: String,
    pub socket_addr: Vec<u8>,
    /// The other fields, in wire form.
    pub rest: Vec<u8>,
}

pub struct RequestRelayView {
    pub id: Seq<char>,
    pub uuid: Seq<char>,
    pub licence_key: Seq<char>,
    pub socket_addr: Seq<u8>,
    pub rest: Seq<u8>,
}

impl View for RequestRelay {
    type V = RequestRelayView;

    open spec fn view(&self) -> RequestRelayView {
        RequestRelayView {
            id: self.id@,
            uuid: self.uuid@,
            licence_key: self.licence_key@,
            socket_addr: self.socket_addr@,
            rest: self.rest@,
        }
    }
}

/// By what a relay response names the answering peer.
#[derive(Debug)]
pub enum RelayPeer {
    Unset,
    Id(String),
    Pk(Vec<u8>),
}

pub enum RelayPeerView {
    Unset,
    Id(Seq<char>),
    Pk(Seq<u8>),
}

impl View for RelayPeer {
    type V = RelayPeerView;

    open spec fn view(&self) -> RelayPeerView {
        match self {
            RelayPeer::Unset => RelayPeerView::Unset,
            RelayPeer::Id(id) => RelayPeerView::Id(id@),
            RelayPeer::Pk(pk) => RelayPeerView::Pk(pk@),
        }
    }
}

/// A controlled peer answers a request for a relay.
#[derive(Debug)]
pub struct RelayResponse {
    pub socket_addr: Vec<u8>,
    pub peer: RelayPeer,
    pub relay_server: String,
    pub version: String,
    /// The other fields, in wire form.
    pub rest: Vec<u8>,
}

pub struct RelayResponseView {
    pub socket_addr: Seq<u8>,
    pub peer: RelayPeerView,
    pub relay_server: Seq<char>,
    pub version: Seq<char>,
    pub rest: Seq<u8>,
}

impl View for RelayResponse {
    type V = RelayResponseView;

    open spec fn view(&self) -> RelayResponseView {
        RelayResponseView {
            socket_addr: self.socket_addr@,
            peer: self.peer@,
            relay_server: self.relay_server@,
            version: self.version@,
            rest: self.rest@,
        }
    }
}

/// A peer registers its public key.
#[derive(Debug)]
pub struct RegisterPk {
    pub id: String,
    pub uuid: Vec<u8>,
    pub pk: Vec<u8>,
}

pub struct RegisterPkView {
    pub id: Seq<char>,
    pub uuid: Seq<u8>,
    pub pk: Seq<u8>,
}

impl View for RegisterPk {
    type V = RegisterPkView;

    open spec fn view(&self) -> RegisterPkView {
        RegisterPkView { id: self.id@, uuid: self.uuid@, pk: self.pk@ }
    }
}

/// The list of rendezvous servers that peers should use.
#[derive(Debug)]
pub struct ConfigUpdate {
    pub serial: i32,
    pub rendezvous_servers: Vec<String>,
}

pub struct ConfigUpdateView {
    pub serial: i32,
    pub rendezvous_servers: Seq<Seq<char>>,
}

impl View for ConfigUpdate {
    type V = ConfigUpdateView;

    open spec fn view(&self) -> ConfigUpdateView {
        ConfigUpdateView {
            serial: self.serial,
            rendezvous_servers: texts(self.rendezvous_servers@),
        }
    }
}

/// What a message holds.
#[derive(Debug)]
pub enum Union {
    PunchHoleRequest(Vec<u8>),
    RequestRelay(RequestRelay),
    RelayResponse(RelayResponse),
    PunchHoleSent(Vec<u8>),
    LocalAddr(Vec<u8>),
    TestNatRequest { serial: i32 },
    TestNatResponse { port: i32, cu: Option<ConfigUpdate> },
    RegisterPk(RegisterPk),
    RegisterPkResponse { result: RegisterPkResult },
    RegisterPeer { id: String, serial: i32 },
    RegisterPeerResponse { request_pk: bool },
    ConfigureUpdate(ConfigUpdate),
    OnlineRequest { peers: Vec<String> },
    OnlineResponse { states: Vec<u8> },
    KeyExchange { keys: Vec<Vec<u8>> },
    Hc(Vec<u8>),
    /// A message of another kind, in wire form.
    Other(Vec<u8>),
}

pub enum UnionView {
    PunchHoleRequest(Seq<u8>),
    RequestRelay(RequestRelayView),
    RelayResponse(RelayResponseView),
    PunchHoleSent(Seq<u8>),
    LocalAddr(Seq<u8>),
    TestNatRequest { serial: i32 },
    TestNatResponse { port: i32, cu: Option<ConfigUpdateView> },
    RegisterPk(RegisterPkView),
    RegisterPkResponse { result: RegisterPkResult },
    RegisterPeer { id: Seq<char>, serial: i32 },
    RegisterPeerResponse { request_pk: bool },
    ConfigureUpdate(ConfigUpdateView),
    OnlineRequest { peers: Seq<Seq<char>> },
    OnlineResponse { states: Seq<u8> },
    KeyExchange { keys: Seq<Seq<u8>> },
    Hc(Seq<u8>),
    Other(Seq<u8>),
}

impl View for Union {
    type V = UnionView;

    open spec fn view(&self) -> UnionView {
        match self {
            Union::PunchHoleRequest(wire) => UnionView::PunchHoleRequest(wire@),
            Union::RequestRelay(rf) => UnionView::RequestRelay(rf@),
            Union::RelayResponse(rr) => UnionView::RelayResponse(rr@),
            Union::PunchHoleSent(wire) => UnionView::PunchHoleSent(wire@),
            Union::LocalAddr(wire) => UnionView::LocalAddr(wire@),
            Union::TestNatRequest { serial } => UnionView::TestNatRequest { serial: *serial },
            Union::TestNatResponse { port, cu } => UnionView::TestNatResponse {
                port: *port,
                cu: match cu {
                    Some(cu) => Some(cu@),
                    None => None,
                },
            },
            Union::RegisterPk(rk) => UnionView::RegisterPk(rk@),
            Union::RegisterPkResponse { result } => UnionView::RegisterPkResponse {
                result: *result,
            },
            Union::RegisterPeer { id, serial } => UnionView::RegisterPeer {
                id: id@,
                serial: *serial,
            },
            Union::RegisterPeerResponse { request_pk } => UnionView::RegisterPeerResponse {
                request_pk: *request_pk,
            },
            Union::ConfigureUpdate(cu) => UnionView::ConfigureUpdate(cu@),
            Union::OnlineRequest { peers } => UnionView::OnlineRequest { peers: texts(peers@) },
            Union::OnlineResponse { states } => UnionView::OnlineResponse { states: states@ },
            Union::KeyExchange { keys } => UnionView::KeyExchange { keys: byte_strings(keys@) },
            Union::Hc(wire) => UnionView::Hc(wire@),
            Union::Other(wire) => UnionView::Other(wire@),
        }
    }
}

/// A message; one that holds nothing is a heartbeat.
#[derive(Debug)]
pub struct RendezvousMessage {
    pub union: Option<Union>,
}

impl View for RendezvousMessage {
    type V = Option<UnionView>;

    open spec fn view(&self) -> Option<UnionView> {
        match self.union {
            Some(union) => Some(union@),
            None => None,
        }
    }
}

impl RendezvousMessage {
    /// The message that holds nothing.
    pub fn new() -> (message: RendezvousMessage)
        ensures
            message@ == None::<UnionView>,
    {
        RendezvousMessage { union: None }
    }

    pub fn of(union: Union) -> (message: RendezvousMessage)
        ensures
            message@ == Some(union@),
    {
        RendezvousMessage { union: Some(union) }
    }
}

/// A copy of a list of texts.
pub(crate) fn clone_texts(list: &Vec<String>) -> (copy: Vec<String>)
    ensures
        copy@ == list@,
{
    let copy = list.clone();
    assert(copy@ =~= list@);
    copy
}

/// Whether two byte strings are the same.
pub(crate) fn same_bytes(one: &Vec<u8>, two: &Vec<u8>) -> (same: bool)
    ensures
        same == (one@ == two@),
{
    if one.len() != two.len() {
        return false;
    }
    let mut i: usize = 0;
    while i < one.len()
        invariant
            i <= one.len(),
            one.len() == two.len(),
            one@.take(i as int) =~= two@.take(i as int),
        decreases one.len() - i,
    {
        if one[i] != two[i] {
            return false;
        }
        i = i + 1;
    }
    assert(one@.take(i as int) =~= one@ && two@.take(i as int) =~= two@);
    true
}

} // verus!
