use rendezvous::addr::{Addr, Remote};
use rendezvous::message::{RegisterPk, RendezvousMessage, Union};
use rendezvous::proxy::ProxyHeaders;
use rendezvous::rendezvous_server::action::Action;
use rendezvous::rendezvous_server::listener::{
    key_exchange, HandshakeError, HandshakeStep, Inbound, Opening, Reply, TcpInbound, TcpRead,
    TestPortReply, TestPortUse, WsRead,
};
use rendezvous::rendezvous_server::tcp_handler::Connection;
use rendezvous::rendezvous_server::{Limits, RendezvousServer};
use sodiumoxide::crypto::{box_, sign};

fn server(sk: Option<[u8; 64]>) -> RendezvousServer {
    RendezvousServer::new(
        1,
        "".to_owned(),
        "".to_owned(),
        "",
        "".to_owned(),
        sk,
        vec![],
        Limits { ip_block_secs: 60, day_secs: 86_400, ip_change_secs: 180 },
    )
}

fn remote(port: u16) -> Remote {
    let addr = Addr::V4 { ip: 0x0a00_0001, port };
    Remote { addr, key: addr }
}

fn conn(port: u16, ws: bool, sink: Option<u64>) -> Connection {
    Connection {
        remote: remote(port),
        ip: "10.0.0.1".to_owned(),
        ws,
        forwarded_ip: None,
        sink,
        registered: None,
    }
}

fn received(union: Option<Union>) -> Reply {
    Reply::Received { bytes: vec![1, 2, 3], parsed: Some(RendezvousMessage { union }) }
}

fn shown(actions: &Vec<Action>) -> String {
    format!("{actions:?}")
}

#[test]
fn an_offer_carries_a_signed_key() {
    sodiumoxide::init().unwrap();
    let (pk, sk) = sign::gen_keypair();
    let offer = server(Some(sk.0)).secure_tcp_offer().unwrap();
    let signed = match &offer.message.union {
        Some(Union::KeyExchange { keys }) if keys.len() == 1 => &keys[0],
        other => panic!("{other:?}"),
    };
    let offered = sign::verify(signed, &pk).unwrap();
    let expected = box_::SecretKey(offer.secret_key).public_key();
    assert_eq!(offered, expected.0);
    assert_eq!(&signed[64..], &expected.0[..]);
    assert_eq!(signed.len(), 96);
    // the same message under the same key is signed alike
    assert_eq!(*signed, sign::sign(&expected.0, &sk));
}

#[test]
fn each_offer_has_a_key_of_its_own() {
    sodiumoxide::init().unwrap();
    let (_, sk) = sign::gen_keypair();
    let server = server(Some(sk.0));
    let one = server.secure_tcp_offer().unwrap();
    let two = server.secure_tcp_offer().unwrap();
    assert_ne!(one.secret_key, two.secret_key);
}

#[test]
fn without_a_key_nothing_is_offered() {
    assert!(server(None).secure_tcp_offer().is_none());
}

#[test]
fn key_exchanges_carry_one_key() {
    match key_exchange(vec![4, 5]).union {
        Some(Union::KeyExchange { keys }) => assert_eq!(keys, [[4, 5]]),
        other => panic!("{other:?}"),
    }
}

#[test]
fn two_keys_make_a_connection_secure() {
    let keys = vec![vec![1], vec![2], vec![3]];
    match RendezvousServer::secure_tcp_reply(received(Some(Union::KeyExchange { keys }))) {
        HandshakeStep::OpenKey { client_pk, sealed_key } => {
            assert_eq!((client_pk, sealed_key), (vec![1], vec![2]));
        }
        _ => panic!(),
    }
}

#[test]
fn anything_else_goes_on_in_plain() {
    let rk = RegisterPk { id: "".to_owned(), uuid: vec![], pk: vec![] };
    let cases = [
        (received(Some(Union::KeyExchange { keys: vec![vec![1]] })), false),
        (received(Some(Union::RegisterPk(rk))), true),
        (received(Some(Union::Hc(vec![]))), true),
        (received(Some(Union::PunchHoleRequest(vec![]))), false),
        (received(None), false),
        (Reply::Received { bytes: vec![1, 2, 3], parsed: None }, false),
    ];
    for (reply, warned) in cases {
        match RendezvousServer::secure_tcp_reply(reply) {
            HandshakeStep::Plain { first, unexpected } => {
                assert_eq!(first, [1, 2, 3]);
                assert_eq!(unexpected, warned);
            }
            _ => panic!(),
        }
    }
}

fn failure(reply: Reply) -> HandshakeError {
    match RendezvousServer::secure_tcp_reply(reply) {
        HandshakeStep::Fail(error) => error,
        _ => panic!(),
    }
}

#[test]
fn handshakes_fail_in_words() {
    assert_eq!(
        failure(Reply::ReadFailed("reset by peer".to_owned())).message(),
        "secure_tcp handshake failed: reset by peer",
    );
    assert_eq!(failure(Reply::SendFailed("broken pipe".to_owned())).message(), "broken pipe");
    assert_eq!(
        failure(Reply::Closed).message(),
        "secure_tcp handshake failed: connection closed",
    );
    assert_eq!(failure(Reply::TimedOut).message(), "secure_tcp handshake failed: timeout");
}

#[test]
fn secure_connections_have_no_first_message() {
    let secure = RendezvousServer::secure_tcp_opened(Ok(())).unwrap();
    assert!(secure.encrypted);
    assert_eq!(secure.first, None);
    let plain = RendezvousServer::secure_tcp_opening(Some(vec![1]));
    assert!(!plain.encrypted);
    assert_eq!(plain.first, Some(vec![1]));
    let nothing_offered = RendezvousServer::secure_tcp_opening(None);
    assert!(!nothing_offered.encrypted);
    assert_eq!(nothing_offered.first, None);
}

#[test]
fn a_key_that_does_not_open_ends_the_connection() {
    let refused = RendezvousServer::secure_tcp_opened(Err("bad key".to_owned()));
    assert_eq!(refused.unwrap_err(), "bad key");
}

#[test]
fn empty_first_messages_are_none() {
    let opening = |first| Opening { encrypted: false, first };
    assert_eq!(RendezvousServer::first_message(opening(Some(vec![1]))), Some(vec![1]));
    assert_eq!(RendezvousServer::first_message(opening(Some(vec![]))), None);
    assert_eq!(RendezvousServer::first_message(opening(None)), None);
}

#[test]
fn web_sockets_are_read() {
    let read = RendezvousServer::on_ws_read;
    assert!(matches!(read(WsRead::Binary(vec![])), Inbound::Heartbeat));
    assert!(matches!(read(WsRead::Binary(vec![1])), Inbound::Message(b) if b == [1]));
    assert!(matches!(read(WsRead::Other), Inbound::Ignore));
    assert!(matches!(read(WsRead::Close), Inbound::Stop));
    assert!(matches!(read(WsRead::ReadFailed), Inbound::Stop));
    assert!(matches!(read(WsRead::Ended), Inbound::Stop));
    assert!(matches!(read(WsRead::TimedOut), Inbound::Stop));
}

#[test]
fn plain_connections_are_read() {
    let read = RendezvousServer::on_tcp_read;
    assert!(matches!(
        read(TcpRead::Frame(vec![]), false),
        TcpInbound::Plain(Inbound::Heartbeat),
    ));
    assert!(matches!(
        read(TcpRead::Frame(vec![1]), false),
        TcpInbound::Plain(Inbound::Message(b)) if b == [1],
    ));
    assert!(matches!(read(TcpRead::Frame(vec![1]), true), TcpInbound::Decrypt(b) if b == [1]));
    for encrypted in [true, false] {
        for end in [TcpRead::ReadFailed, TcpRead::Ended, TcpRead::TimedOut] {
            assert!(matches!(read(end, encrypted), TcpInbound::Plain(Inbound::Stop)));
        }
    }
    assert!(matches!(RendezvousServer::on_decrypted(None), Inbound::Stop));
    assert!(matches!(RendezvousServer::on_decrypted(Some(vec![])), Inbound::Heartbeat));
    assert!(matches!(RendezvousServer::on_decrypted(Some(vec![2])), Inbound::Message(_)));
}

#[test]
fn heartbeats_are_answered_by_the_own_sink() {
    for ws in [true, false] {
        let answer = RendezvousServer::answer_heartbeat(&conn(1, ws, Some(5)), 7);
        assert_eq!(
            shown(&answer),
            "[Send { sink: 5, message: RendezvousMessage { union: None } }]",
        );
        assert!(RendezvousServer::answer_heartbeat(&conn(1, ws, None), 7).is_empty());
    }
}

#[test]
fn heartbeats_of_a_registered_peer_are_heard() {
    let mut plain = conn(1, false, None);
    plain.registered = Some("abcdef".to_owned());
    let list = RendezvousServer::answer_heartbeat(&plain, 7);
    assert!(matches!(
        &list[..],
        [Action::RefreshPeer { id, now: 7 }] if id == "abcdef",
    ));
    // an answer comes first
    plain.sink = Some(5);
    let list = RendezvousServer::answer_heartbeat(&plain, 8);
    assert!(matches!(
        &list[..],
        [Action::Send { sink: 5, .. }, Action::RefreshPeer { now: 8, .. }],
    ));
    let mut ws = conn(1, true, None);
    ws.registered = Some("abcdef".to_owned());
    assert!(RendezvousServer::answer_heartbeat(&ws, 7).is_empty());
}

#[test]
fn web_sockets_take_the_word_of_a_proxy() {
    let headers = ProxyHeaders { real_ip: None, forwarded_for: Some(b"9.9.9.9, 10.0.0.1".to_vec()) };
    let conn = Connection::open_ws(remote(1), "10.0.0.1".to_owned(), &headers, 5);
    assert!(conn.ws);
    assert_eq!(conn.forwarded_ip, Some("9.9.9.9".to_owned()));
    assert_eq!(conn.sink, Some(5));
    let conn = Connection::open_tcp(remote(1), "10.0.0.1".to_owned(), 6);
    assert!(!conn.ws);
    assert_eq!(conn.forwarded_ip, None);
    assert_eq!(conn.sink, Some(6));
    assert_eq!(conn.registered, None);
}

#[test]
fn a_closed_connection_is_cleared() {
    let mut server = server(None);
    let key = remote(1).key;
    server.ws_map.insert(key, 1);
    server.tcp_map.insert(key, 2);
    server.tcp_punch.insert(key, 3);
    // a connection that kept its sink leaves those that wait alone
    let list = server.close(conn(1, false, Some(9)));
    assert_eq!(shown(&list), "[Release { sink: 9 }, Release { sink: 2 }]");
    assert_eq!(server.tcp_map.get(key), None);
    assert_eq!(server.ws_map.get(key), Some(1));
    assert_eq!(server.tcp_punch.get(key), Some(3));
    let list = server.close(conn(1, true, None));
    assert_eq!(shown(&list), "[Release { sink: 3 }, Release { sink: 1 }]");
    assert_eq!(server.ws_map.get(key), None);
    assert_eq!(server.tcp_punch.get(key), None);
}

#[test]
fn an_address_is_forgotten_when_its_connection_closes() {
    for ws in [true, false] {
        let mut server = server(None);
        let mut open = conn(1, ws, Some(3));
        let ask = Some(RendezvousMessage::of(Union::PunchHoleRequest(vec![])));
        server.handle_tcp(ask, &mut open, 0);
        server.ws_map.insert(remote(2).key, 9);
        server.send_to_tcp(RendezvousMessage::new(), remote(2));
        server.close(open);
        let key = remote(1).key;
        assert_eq!(server.tcp_punch.get(key), None);
        assert_eq!(server.ws_map.get(key), None);
        assert_eq!(server.tcp_map.get(key), None);
    }
}

#[test]
fn other_addresses_stay_when_one_closes() {
    let mut server = server(None);
    server.ws_map.insert(remote(1).key, 1);
    server.ws_map.insert(remote(2).key, 2);
    server.close(conn(1, true, None));
    assert_eq!(server.persistent_sink(remote(1).key), None);
    assert_eq!(server.persistent_sink(remote(2).key), Some(2));
}

#[test]
fn a_refused_first_message_clears_nothing() {
    let list = RendezvousServer::drop_refused(conn(1, false, Some(9)));
    assert_eq!(shown(&list), "[Release { sink: 9 }]");
    assert!(RendezvousServer::drop_refused(conn(1, false, None)).is_empty());
}

#[test]
fn the_test_port_takes_commands_from_its_own_machine() {
    let local = Addr::V4 { ip: 0x7f00_0001, port: 1 };
    assert_eq!(
        RendezvousServer::handle_listener2(Remote { addr: local, key: local }),
        TestPortUse::Command,
    );
    // an IPv4 address that came in as IPv6
    let mapped = Addr::V6 { ip: 0xffff_7f00_0001, port: 1, flowinfo: 0, scope_id: 0 };
    assert_eq!(
        RendezvousServer::handle_listener2(Remote { addr: mapped, key: local }),
        TestPortUse::Command,
    );
    assert_eq!(RendezvousServer::handle_listener2(remote(1)), TestPortUse::Message);
}

#[test]
fn the_test_port_tells_the_port() {
    let parsed = Some(RendezvousMessage::of(Union::TestNatRequest { serial: 0 }));
    match RendezvousServer::on_test_port(parsed, remote(40_000)) {
        TestPortReply::Send(message) => assert!(matches!(
            message.union,
            Some(Union::TestNatResponse { port: 40_000, cu: None }),
        )),
        other => panic!("{other:?}"),
    }
    let peers = vec!["a".to_owned()];
    let parsed = Some(RendezvousMessage::of(Union::OnlineRequest { peers }));
    assert!(matches!(
        RendezvousServer::on_test_port(parsed, remote(1)),
        TestPortReply::TellOnline { peers } if peers == ["a"],
    ));
    assert!(matches!(
        RendezvousServer::on_test_port(Some(RendezvousMessage::new()), remote(1)),
        TestPortReply::Nothing,
    ));
    assert!(matches!(RendezvousServer::on_test_port(None, remote(1)), TestPortReply::Nothing));
}
