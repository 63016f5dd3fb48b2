//! Connections: how they open, what comes in by them, how they close.
use vstd::prelude::*;

use crate::addr::Remote;
use crate::crypto::{box_public_key, gen_box_keypair, sign_message, signed_message};
use crate::message::{byte_strings, RendezvousMessage, Union, UnionView};
use crate::proxy::ProxyHeaders;
use crate::rendezvous_server::action::{
    actions, no_actions, push_action, push_release, push_send, released, sent, Action, ActionView,
};
use crate::rendezvous_server::tcp_handler::Connection;
use crate::rendezvous_server::{lemma_unfiled, Place, RendezvousServer, ServerView};

verus! {

/// Milliseconds that the answer to the offer of a secure connection may take.
pub const HANDSHAKE_TIMEOUT: u64 = 10_000;

/// Milliseconds that a web socket, or a test connection, may be silent.
pub const READ_TIMEOUT: u64 = 30_000;

/// Milliseconds that a command may take to come in.
pub const COMMAND_TIMEOUT: u64 = 1_000;

/// Bytes that a command has at most.
pub const COMMAND_SIZE: usize = 1024;

/// The offer of a secure connection.
pub struct Offer {
    /// To be sent to the remote end.
    pub message: RendezvousMessage,
    /// The key that opens what the remote end sends back.
    pub secret_key: [u8; 32],
}

/// What came back on the offer of a secure connection.
pub enum Reply {
    /// Bytes, and the message that they spell.
    Received { bytes: Vec<u8>, parsed: Option<RendezvousMessage> },
    /// The offer could not be sent.
    SendFailed(String),
    ReadFailed(String),
    Closed,
    TimedOut,
}

/// Why a secure connection failed.
#[derive(Debug)]
pub enum HandshakeError {
    SendFailed(String),
    ReadFailed(String),
    Closed,
    TimedOut,
}

/// What the reply to the offer of a secure connection asks for.
pub enum HandshakeStep {
    /// Open the session key with the secret key of the offer.
    OpenKey { client_pk: Vec<u8>, sealed_key: Vec<u8> },
    /// The remote end goes on in plain. `unexpected` where it sent what should always be
    /// encrypted.
    Plain { first: Vec<u8>, unexpected: bool },
    Fail(HandshakeError),
}

/// How a plain connection starts off.
#[derive(Debug)]
pub struct Opening {
    /// What goes over the connection is encrypted.
    pub encrypted: bool,
    /// What the remote end sent already.
    pub first: Option<Vec<u8>>,
}

/// What is done with what came in.
#[derive(Debug)]
pub enum Inbound {
    /// Answer the heartbeat.
    Heartbeat,
    /// Handle the message.
    Message(Vec<u8>),
    Ignore,
    /// Close the connection.
    Stop,
}

/// What can happen on a web socket.
#[derive(Debug)]
pub enum WsRead {
    Binary(Vec<u8>),
    Close,
    /// A message of a kind that is no part of the protocol.
    Other,
    ReadFailed,
    Ended,
    TimedOut,
}

/// What can happen on a plain connection.
#[derive(Debug)]
pub enum TcpRead {
    Frame(Vec<u8>),
    ReadFailed,
    Ended,
    TimedOut,
}

/// What is done with a frame of a plain connection.
#[derive(Debug)]
pub enum TcpInbound {
    /// Decrypt it first.
    Decrypt(Vec<u8>),
    Plain(Inbound),
}

/// What the bytes of a message are: empty ones are a heartbeat.
pub open spec fn inbound(bytes: Vec<u8>) -> Inbound {
    if bytes@.len() == 0 {
        Inbound::Heartbeat
    } else {
        Inbound::Message(bytes)
    }
}

/// The reply holds the two keys that make the connection secure.
pub open spec fn session_keys(parsed: Option<RendezvousMessage>) -> Option<(Vec<u8>, Vec<u8>)> {
    match parsed {
        Some(RendezvousMessage { union: Some(Union::KeyExchange { keys }) }) if keys@.len()
            >= 2 => Some((keys@[0], keys@[1])),
        _ => None,
    }
}

/// A message that should always be encrypted.
pub open spec fn always_encrypted(parsed: Option<RendezvousMessage>) -> bool {
    parsed matches Some(message) && (message.union matches Some(Union::RegisterPk(_))
        || message.union matches Some(Union::Hc(_)))
}

/// What the reply to the offer of a secure connection asks for.
pub open spec fn handshake_step(reply: Reply) -> HandshakeStep {
    match reply {
        Reply::Received { bytes, parsed } => match session_keys(parsed) {
            Some((client_pk, sealed_key)) => HandshakeStep::OpenKey { client_pk, sealed_key },
            None => HandshakeStep::Plain { first: bytes, unexpected: always_encrypted(parsed) },
        },
        Reply::SendFailed(error) => HandshakeStep::Fail(HandshakeError::SendFailed(error)),
        Reply::ReadFailed(error) => HandshakeStep::Fail(HandshakeError::ReadFailed(error)),
        Reply::Closed => HandshakeStep::Fail(HandshakeError::Closed),
        Reply::TimedOut => HandshakeStep::Fail(HandshakeError::TimedOut),
    }
}

/// The offer carries the public key that belongs to its secret key, signed by the server.
pub open spec fn is_offer(message: Option<UnionView>, secret_key: Seq<u8>, sk: Seq<u8>) -> bool {
    message == Some(
        UnionView::KeyExchange {
            keys: seq![signed_message(box_public_key(secret_key), sk)],
        },
    )
}

/// How a connection starts off whose remote end has sent a session key.
pub open spec fn opened(key: Result<(), String>) -> Result<Opening, String> {
    match key {
        Ok(()) => Ok(Opening { encrypted: true, first: None }),
        Err(words) => Err(words),
    }
}

/// How a connection starts off on which no key is exchanged.
pub open spec fn in_plain(first: Option<Vec<u8>>) -> Opening {
    Opening { encrypted: false, first }
}

/// The message that is handled before any other.
pub open spec fn first_of(opening: Opening) -> Option<Vec<u8>> {
    match opening.first {
        Some(bytes) if bytes@.len() > 0 => Some(bytes),
        _ => None,
    }
}

/// What is done with what happened on a web socket.
pub open spec fn ws_inbound(read: WsRead) -> Inbound {
    match read {
        WsRead::Binary(bytes) => inbound(bytes),
        WsRead::Other => Inbound::Ignore,
        _ => Inbound::Stop,
    }
}

/// What is done with what happened on a plain connection.
pub open spec fn tcp_inbound(read: TcpRead, encrypted: bool) -> TcpInbound {
    match read {
        TcpRead::Frame(bytes) => if encrypted {
            TcpInbound::Decrypt(bytes)
        } else {
            TcpInbound::Plain(inbound(bytes))
        },
        _ => TcpInbound::Plain(Inbound::Stop),
    }
}

/// What is done with a decrypted frame.
pub open spec fn decrypted_inbound(bytes: Option<Vec<u8>>) -> Inbound {
    match bytes {
        Some(bytes) => inbound(bytes),
        None => Inbound::Stop,
    }
}

fn classify(bytes: Vec<u8>) -> (r: Inbound)
    ensures
        r == inbound(bytes),
{
    if bytes.is_empty() {
        Inbound::Heartbeat
    } else {
        Inbound::Message(bytes)
    }
}

/// The message that carries a signed key.
pub fn key_exchange(signed_key: Vec<u8>) -> (message: RendezvousMessage)
    ensures
        message@ == Some(UnionView::KeyExchange { keys: seq![signed_key@] }),
{
    let mut keys: Vec<Vec<u8>> = Vec::new();
    keys.push(signed_key);
    assert(byte_strings(keys@) =~= seq![signed_key@]);
    RendezvousMessage::of(Union::KeyExchange { keys })
}

impl Connection {
    /// A web socket has opened; `sink` names its sink.
    pub fn open_ws(remote: Remote, ip: String, headers: &ProxyHeaders, sink: u64) -> (conn:
        Connection)
        ensures
            conn.is_ws_from(remote, ip, *headers, sink),
            conn.remote == remote,
            conn.ip == ip,
            conn.ws,
            conn.sink == Some(sink),
            conn.registered is None,
            match conn.forwarded_ip {
                Some(forwarded) => headers.first_entry() == Some(forwarded@),
                None => headers.first_entry() is None,
            },
    {
        Connection {
            remote,
            ip,
            ws: true,
            forwarded_ip: headers.forwarded_ip(),
            sink: Some(sink),
            registered: None,
        }
    }

    /// A plain connection has opened; `sink` names its sink.
    pub fn open_tcp(remote: Remote, ip: String, sink: u64) -> (conn: Connection)
        ensures
            conn.is_tcp_from(remote, ip, sink),
            conn == (Connection {
                remote,
                ip,
                ws: false,
                forwarded_ip: None,
                sink: Some(sink),
                registered: None,
            }),
    {
        Connection {
            remote,
            ip,
            ws: false,
            forwarded_ip: None,
            sink: Some(sink),
            registered: None,
        }
    }
}

impl Connection {
    /// The connection is a web socket that has just opened.
    pub open spec fn is_ws_from(
        self,
        remote: Remote,
        ip: String,
        headers: ProxyHeaders,
        sink: u64,
    ) -> bool {
        &&& self.remote == remote
        &&& self.ip == ip
        &&& self.ws
        &&& self.sink == Some(sink)
        &&& self.registered is None
        &&& match self.forwarded_ip {
            Some(forwarded) => headers.first_entry() == Some(forwarded@),
            None => headers.first_entry() is None,
        }
    }

    /// The connection is a plain one that has just opened.
    pub open spec fn is_tcp_from(self, remote: Remote, ip: String, sink: u64) -> bool {
        self == Connection {
            remote,
            ip,
            ws: false,
            forwarded_ip: None,
            sink: Some(sink),
            registered: None,
        }
    }

    /// What a heartbeat leads to: an answer by the connection's own sink, and for a plain
    /// connection that the time is noted at which its registered peer was heard.
    pub open spec fn heartbeat(&self, now: u64) -> Seq<ActionView> {
        sent(self.sink, None) + match self.registered {
            Some(id) if !self.ws => seq![ActionView::RefreshPeer { id: id@, now }],
            _ => seq![],
        }
    }
}

impl HandshakeError {
    /// The error in words.
    pub open spec fn words(&self) -> Seq<char> {
        match self {
            HandshakeError::SendFailed(error) => error@,
            HandshakeError::ReadFailed(error) => "secure_tcp handshake failed: "@ + error@,
            HandshakeError::Closed => "secure_tcp handshake failed: connection closed"@,
            HandshakeError::TimedOut => "secure_tcp handshake failed: timeout"@,
        }
    }

    /// The error in words.
    pub fn message(&self) -> (words: String)
        ensures
            words@ == self.words(),
    {
        match self {
            HandshakeError::SendFailed(error) => error.clone(),
            HandshakeError::ReadFailed(error) => {
                let mut words = "secure_tcp handshake failed: ".to_owned();
                words.append(error.as_str());
                words
            },
            HandshakeError::Closed => "secure_tcp handshake failed: connection closed".to_owned(),
            HandshakeError::TimedOut => "secure_tcp handshake failed: timeout".to_owned(),
        }
    }
}

impl ServerView {
    /// The state once a connection is closed: nothing is filed any more where the sink of
    /// a registered peer is, nor, where the connection has spent its own sink, among
    /// those that wait for one answer.
    pub open spec fn closed(self, conn: Connection) -> ServerView {
        let cleared = if conn.sink is None {
            self.unfiled(Place::Punch(conn.remote.key))
        } else {
            self
        };
        cleared.unfiled(conn.home())
    }

    /// The sinks that are let go of when a connection is closed.
    pub open spec fn closing(self, conn: Connection) -> Seq<ActionView> {
        (match conn.sink {
            Some(sink) => released(Some(sink)),
            None => released(self.sink_at(Place::Punch(conn.remote.key))),
        }) + released(self.sink_at(conn.home()))
    }
}

impl RendezvousServer {
    /// Offers a secure connection: a fresh key, signed by the server, which follows the
    /// signature. A server without a key to sign with offers none.
    pub fn secure_tcp_offer(&self) -> (offer: Option<Offer>)
        ensures
            offer is Some == self.inner.sk is Some,
            offer matches Some(offer) ==> is_offer(
                offer.message@,
                offer.secret_key@,
                self.inner.sk->0@,
            ),
            offer matches Some(offer) ==> offer.message@ == Some(
                UnionView::KeyExchange {
                    keys: seq![
                        signed_message(
                            box_public_key(offer.secret_key@),
                            self.inner.sk->0@,
                        ),
                    ],
                },
            ),
            offer matches Some(offer) ==> signed_message(
                box_public_key(offer.secret_key@),
                self.inner.sk->0@,
            ).skip(64) == box_public_key(offer.secret_key@),
    {
        match &self.inner.sk {
            Some(sk) => {
                let (public_key, secret_key) = gen_box_keypair();
                let signed_key = sign_message(&public_key, sk);
                Some(Offer { message: key_exchange(signed_key), secret_key })
            },
            None => None,
        }
    }

    /// What the reply to the offer of a secure connection asks for. A remote end that
    /// sends anything but two keys goes on in plain.
    pub fn secure_tcp_reply(reply: Reply) -> (step: HandshakeStep)
        ensures
            step == handshake_step(reply),
            match reply {
                Reply::Received { bytes, parsed } => match session_keys(parsed) {
                    Some((client_pk, sealed_key)) => step == (HandshakeStep::OpenKey {
                        client_pk,
                        sealed_key,
                    }),
                    None => step == (HandshakeStep::Plain {
                        first: bytes,
                        unexpected: always_encrypted(parsed),
                    }),
                },
                Reply::SendFailed(error) => step == HandshakeStep::Fail(
                    HandshakeError::SendFailed(error),
                ),
                Reply::ReadFailed(error) => step == HandshakeStep::Fail(
                    HandshakeError::ReadFailed(error),
                ),
                Reply::Closed => step == HandshakeStep::Fail(HandshakeError::Closed),
                Reply::TimedOut => step == HandshakeStep::Fail(HandshakeError::TimedOut),
            },
    {
        match reply {
            Reply::Received { bytes, parsed } => {
                let mut unexpected = false;
                if let Some(message) = parsed {
                    match message.union {
                        Some(Union::KeyExchange { keys }) => {
                            if keys.len() >= 2 {
                                let mut keys = keys;
                                keys.truncate(2);
                                let sealed_key = keys.swap_remove(1);
                                let client_pk = keys.swap_remove(0);
                                return HandshakeStep::OpenKey { client_pk, sealed_key };
                            }
                        },
                        Some(Union::RegisterPk(_)) => {
                            unexpected = true;
                        },
                        Some(Union::Hc(_)) => {
                            unexpected = true;
                        },
                        _ => {},
                    }
                }
                HandshakeStep::Plain { first: bytes, unexpected }
            },
            Reply::SendFailed(error) => HandshakeStep::Fail(HandshakeError::SendFailed(error)),
            Reply::ReadFailed(error) => HandshakeStep::Fail(HandshakeError::ReadFailed(error)),
            Reply::Closed => HandshakeStep::Fail(HandshakeError::Closed),
            Reply::TimedOut => HandshakeStep::Fail(HandshakeError::TimedOut),
        }
    }

    /// How a connection starts off whose remote end has sent a session key: encrypted
    /// where the key was opened. A key that does not open ends the connection; it never
    /// goes on in plain.
    pub fn secure_tcp_opened(opened: Result<(), String>) -> (r: Result<Opening, String>)
        ensures
            r == self::opened(opened),
            r == (match opened {
                Ok(()) => Ok(Opening { encrypted: true, first: None }),
                Err(words) => Err(words),
            }),
    {
        match opened {
            Ok(()) => Ok(Opening { encrypted: true, first: None }),
            Err(words) => Err(words),
        }
    }

    /// How a connection starts off on which no key is exchanged: with what the remote end
    /// sent in plain, or with nothing where nothing was offered.
    pub fn secure_tcp_opening(first: Option<Vec<u8>>) -> (opening: Opening)
        ensures
            opening == in_plain(first),
            opening == (Opening { encrypted: false, first }),
    {
        Opening { encrypted: false, first }
    }

    /// The message that the remote end of a plain connection sent already, to be handled
    /// before any other. An empty one is none.
    pub fn first_message(opening: Opening) -> (message: Option<Vec<u8>>)
        ensures
            message == first_of(opening),
            message == (match opening.first {
                Some(bytes) if bytes@.len() > 0 => Some(bytes),
                _ => None,
            }),
    {
        match opening.first {
            Some(bytes) => if bytes.is_empty() {
                None
            } else {
                Some(bytes)
            },
            None => None,
        }
    }

    /// What is done with what happened on a web socket.
    pub fn on_ws_read(read: WsRead) -> (r: Inbound)
        ensures
            r == ws_inbound(read),
            r == (match read {
                WsRead::Binary(bytes) => inbound(bytes),
                WsRead::Other => Inbound::Ignore,
                _ => Inbound::Stop,
            }),
    {
        match read {
            WsRead::Binary(bytes) => classify(bytes),
            WsRead::Other => Inbound::Ignore,
            WsRead::Close => Inbound::Stop,
            WsRead::ReadFailed => Inbound::Stop,
            WsRead::Ended => Inbound::Stop,
            WsRead::TimedOut => Inbound::Stop,
        }
    }

    /// What is done with what happened on a plain connection.
    pub fn on_tcp_read(read: TcpRead, encrypted: bool) -> (r: TcpInbound)
        ensures
            r == tcp_inbound(read, encrypted),
            r == (match read {
                TcpRead::Frame(bytes) => if encrypted {
                    TcpInbound::Decrypt(bytes)
                } else {
                    TcpInbound::Plain(inbound(bytes))
                },
                _ => TcpInbound::Plain(Inbound::Stop),
            }),
    {
        match read {
            TcpRead::Frame(bytes) => if encrypted {
                TcpInbound::Decrypt(bytes)
            } else {
                TcpInbound::Plain(classify(bytes))
            },
            _ => TcpInbound::Plain(Inbound::Stop),
        }
    }

    /// What is done with a decrypted frame; one that does not decrypt ends the
    /// connection.
    pub fn on_decrypted(bytes: Option<Vec<u8>>) -> (r: Inbound)
        ensures
            r == decrypted_inbound(bytes),
            r == (match bytes {
                Some(bytes) => inbound(bytes),
                None => Inbound::Stop,
            }),
    {
        match bytes {
            Some(bytes) => classify(bytes),
            None => Inbound::Stop,
        }
    }

    /// Answers a heartbeat, as long as the connection has its sink; for the peer that
    /// registered by a plain connection the time is noted.
    pub fn answer_heartbeat(conn: &Connection, now: u64) -> (list: Vec<Action>)
        ensures
            actions(list@) == conn.heartbeat(now),
    {
        let mut list = no_actions();
        push_send(&mut list, conn.sink, RendezvousMessage::new());
        if !conn.ws {
            if let Some(id) = &conn.registered {
                push_action(&mut list, Action::RefreshPeer { id: id.clone(), now });
            }
        }
        assert(actions(list@) =~= conn.heartbeat(now));
        list
    }

    /// The connection is closed: at its address nothing is filed any more for registered
    /// peers of its transport, nor, where it has spent its own sink, among those that wait
    /// for one answer. The table of the other transport stays.
    pub fn close(&mut self, conn: Connection) -> (list: Vec<Action>)
        requires
            old(self).wf(),
        ensures
            final(self).wf(),
            final(self)@ == old(self)@.closed(conn),
            actions(list@) == old(self)@.closing(conn),
            actions(list@) == (match conn.sink {
                Some(sink) => released(Some(sink)),
                None => released(old(self)@.sink_at(Place::Punch(conn.remote.key))),
            }) + released(old(self)@.sink_at(conn.home())),
    {
        let mut list = no_actions();
        match conn.sink {
            Some(sink) => {
                push_release(&mut list, Some(sink));
            },
            None => {
                let sink = self.tcp_punch.remove(conn.remote.key);
                push_release(&mut list, sink);
                proof {
                    lemma_unfiled(old(self)@, Place::Punch(conn.remote.key));
                    assert(self@ == old(self)@.unfiled(Place::Punch(conn.remote.key)));
                }
            },
        }
        let ghost cleared = self@;
        let sink = if conn.ws {
            self.ws_map.remove(conn.remote.key)
        } else {
            self.tcp_map.remove(conn.remote.key)
        };
        push_release(&mut list, sink);
        proof {
            lemma_unfiled(cleared, conn.home());
            assert(self@ == cleared.unfiled(conn.home()));
            assert(sink == old(self)@.sink_at(conn.home()));
            assert(actions(list@) =~= (match conn.sink {
                Some(sink) => released(Some(sink)),
                None => released(old(self)@.sink_at(Place::Punch(conn.remote.key))),
            }) + released(old(self)@.sink_at(conn.home())));
        }
        list
    }

    /// The connection is dropped because its first message was refused: what is filed at
    /// its address stays.
    pub fn drop_refused(conn: Connection) -> (list: Vec<Action>)
        ensures
            actions(list@) == released(conn.sink),
    {
        let mut list = no_actions();
        push_release(&mut list, conn.sink);
        assert(actions(list@) =~= released(conn.sink));
        list
    }
}

/// What a connection to the test port is for.
#[derive(Clone, Copy, Debug, PartialEq, Eq, Structural)]
pub enum TestPortUse {
    /// A command to the server, from its own machine.
    Command,
    /// One message of a peer.
    Message,
}

/// What is done with a message that came in by the test port.
#[derive(Debug)]
pub enum TestPortReply {
    Nothing,
    Send(RendezvousMessage),
    /// Tell which of the peers are online.
    TellOnline { peers: Vec<String> },
}

/// What a connection to the test port is for.
pub open spec fn test_port_use(remote: Remote) -> TestPortUse {
    if remote.key.ip().is_loopback() {
        TestPortUse::Command
    } else {
        TestPortUse::Message
    }
}

/// The message that answers one that came in by the test port.
pub open spec fn test_port_answer(parsed: Option<RendezvousMessage>, remote: Remote) -> Option<
    UnionView,
> {
    match parsed {
        Some(RendezvousMessage { union: Some(Union::TestNatRequest { .. }) }) => Some(
            UnionView::TestNatResponse { port: remote.addr.port() as i32, cu: None },
        ),
        _ => None,
    }
}

/// The peers that a message which came in by the test port asks about.
pub open spec fn test_port_peers(parsed: Option<RendezvousMessage>) -> Option<Vec<String>> {
    match parsed {
        Some(RendezvousMessage { union: Some(Union::OnlineRequest { peers }) }) => Some(peers),
        _ => None,
    }
}

impl RendezvousServer {
    /// What a connection to the test port is for.
    pub fn handle_listener2(remote: Remote) -> (purpose: TestPortUse)
        ensures
            purpose == test_port_use(remote),
            purpose == (if remote.key.ip().is_loopback() {
                TestPortUse::Command
            } else {
                TestPortUse::Message
            }),
    {
        if remote.key.ip().is_loopback() {
            TestPortUse::Command
        } else {
            TestPortUse::Message
        }
    }

    /// What is done with a message that came in by the test port.
    pub fn on_test_port(parsed: Option<RendezvousMessage>, remote: Remote) -> (reply: TestPortReply)
        ensures
            match reply {
                TestPortReply::Send(message) => message@ is Some && test_port_answer(parsed, remote)
                    == message@ && test_port_peers(parsed) is None,
                TestPortReply::TellOnline { peers } => test_port_peers(parsed) == Some(peers)
                    && test_port_answer(parsed, remote) is None,
                TestPortReply::Nothing => test_port_answer(parsed, remote) is None
                    && test_port_peers(parsed) is None,
            },
            match parsed {
                Some(RendezvousMessage { union: Some(Union::TestNatRequest { .. }) }) => reply
                    matches TestPortReply::Send(message) && message@ == Some(
                    UnionView::TestNatResponse { port: remote.addr.port() as i32, cu: None },
                ),
                Some(RendezvousMessage { union: Some(Union::OnlineRequest { peers }) }) => reply
                    == (TestPortReply::TellOnline { peers }),
                _ => reply == TestPortReply::Nothing,
            },
    {
        match parsed {
            Some(message) => match message.union {
                Some(Union::TestNatRequest { .. }) => TestPortReply::Send(
                    RendezvousMessage::of(
                        Union::TestNatResponse { port: remote.addr.port() as i32, cu: None },
                    ),
                ),
                Some(Union::OnlineRequest { peers }) => TestPortReply::TellOnline { peers },
                _ => TestPortReply::Nothing,
            },
            None => TestPortReply::Nothing,
        }
    }
}

} // verus!
