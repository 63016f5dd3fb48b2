use rendezvous::addr::{Addr, Remote};
use rendezvous::message::{
    RegisterPk, RelayPeer, RelayResponse, RendezvousMessage, RequestRelay, Union,
};
use rendezvous::peer::Peer;
use rendezvous::rendezvous_server::action::Action;
use rendezvous::rendezvous_server::sink::{SinkKind, Write};
use rendezvous::rendezvous_server::tcp_handler::{online_states, Connection, Next};
use rendezvous::rendezvous_server::{Limits, RendezvousServer};

const MS: u64 = 1_000_000;

fn server() -> RendezvousServer {
    RendezvousServer::new(
        5,
        "".to_owned(),
        "".to_owned(),
        "192.168.0.0/16",
        "192.168.1.1".to_owned(),
        None,
        vec!["rs1".to_owned(), "rs2".to_owned()],
        Limits { ip_block_secs: 60, day_secs: 86_400, ip_change_secs: 180 },
    )
}

fn remote(port: u16) -> Remote {
    let addr = Addr::V4 { ip: 0x0a00_0001, port };
    Remote { addr, key: addr }
}

fn conn(port: u16, ws: bool, sink: Option<u64>) -> Connection {
    Connection {
        remote: remote(port),
        ip: "10.0.0.1".to_owned(),
        ws,
        forwarded_ip: None,
        sink,
        registered: None,
    }
}

fn peer(uuid: &[u8], pk: &[u8], ip: &str) -> Peer {
    Peer {
        socket_addr: remote(77),
        last_reg_time: 0,
        uuid: uuid.to_vec(),
        pk: pk.to_vec(),
        ip: ip.to_owned(),
        reg_pk: (0, 0),
    }
}

fn rk(id: &str, uuid: &[u8], pk: &[u8]) -> RegisterPk {
    RegisterPk { id: id.to_owned(), uuid: uuid.to_vec(), pk: pk.to_vec() }
}

fn message(union: Union) -> Option<RendezvousMessage> {
    Some(RendezvousMessage::of(union))
}

fn request() -> RequestRelay {
    RequestRelay {
        id: "other".to_owned(),
        uuid: "s".to_owned(),
        licence_key: "".to_owned(),
        socket_addr: vec![9],
        rest: vec![8],
    }
}

fn response(peer: RelayPeer, relay_server: &str) -> RelayResponse {
    RelayResponse {
        socket_addr: vec![9],
        peer,
        relay_server: relay_server.to_owned(),
        version: "1".to_owned(),
        rest: vec![],
    }
}

fn shown(actions: &Vec<Action>) -> String {
    format!("{actions:?}")
}

fn kept(next: &Next) -> bool {
    match next {
        Next::Done { keep } => *keep,
        _ => panic!(),
    }
}

#[test]
fn requests_wait_for_their_answer() {
    let mut server = server();
    let mut conn = conn(1, false, Some(3));
    let (list, next) = server.handle_tcp(message(Union::PunchHoleRequest(vec![7])), &mut conn, 0);
    assert!(list.is_empty());
    assert!(matches!(next, Next::PunchHole { request } if request == [7]));
    assert_eq!(conn.sink, None);
    assert_eq!(server.tcp_punch.get(remote(1).key), Some(3));
    // a second attempt has no sink to file
    let (list, next) = server.handle_tcp(message(Union::PunchHoleRequest(vec![8])), &mut conn, 0);
    assert!(list.is_empty());
    assert!(matches!(next, Next::PunchHole { .. }));
    assert_eq!(server.tcp_punch.get(remote(1).key), Some(3));
    // the answer goes back by the sink, once
    let answer = RendezvousMessage::of(Union::Hc(vec![]));
    let (list, next) = server.resume_punch_hole(Some((answer, None)), &conn);
    assert_eq!(
        shown(&list),
        "[Send { sink: 3, message: RendezvousMessage { union: Some(Hc([])) } }, \
         Release { sink: 3 }]",
    );
    assert!(kept(&next));
    let answer = RendezvousMessage::of(Union::Hc(vec![]));
    assert!(server.resume_punch_hole(Some((answer, None)), &conn).0.is_empty());
}

#[test]
fn a_new_request_displaces_an_old_one_at_its_address() {
    let mut server = server();
    let mut old = conn(1, false, Some(3));
    server.handle_tcp(message(Union::PunchHoleRequest(vec![])), &mut old, 0);
    let mut new = conn(1, false, Some(4));
    let (list, _) = server.handle_tcp(message(Union::RequestRelay(request())), &mut new, 0);
    assert_eq!(shown(&list), "[Release { sink: 3 }]");
    assert_eq!(server.tcp_punch.get(remote(1).key), Some(4));
}

#[test]
fn answers_to_a_peer_go_by_its_sink_or_a_datagram() {
    let mut server = server();
    let conn = conn(1, false, None);
    let hc = || RendezvousMessage::of(Union::Hc(vec![]));
    let (list, _) = server.resume_punch_hole(Some((hc(), Some(remote(2)))), &conn);
    assert!(matches!(&list[..], [Action::SendUdp { to, .. }] if *to == remote(2).addr));
    server.tcp_map.insert(remote(2).key, 22);
    let (list, _) = server.resume_punch_hole(Some((hc(), Some(remote(2)))), &conn);
    assert!(matches!(&list[..], [Action::Send { sink: 22, .. }]));
    // a web socket comes first
    server.ws_map.insert(remote(2).key, 23);
    let (list, _) = server.resume_punch_hole(Some((hc(), Some(remote(2)))), &conn);
    assert!(matches!(&list[..], [Action::Send { sink: 23, .. }]));
    let (list, next) = server.resume_punch_hole(None, &conn);
    assert!(list.is_empty() && kept(&next));
}

#[test]
fn relay_requests_carry_the_address_on() {
    let server = server();
    let (list, next) = server.resume_relay_request(request(), vec![1, 2], Some(&peer(&[1], &[2], "")));
    assert!(kept(&next));
    match &list[..] {
        [Action::SendUdp { to, message }] => {
            assert_eq!(*to, remote(77).addr);
            match &message.union {
                Some(Union::RequestRelay(rf)) => {
                    assert_eq!(rf.socket_addr, [1, 2]);
                    assert_eq!(rf.uuid, "s");
                    assert_eq!(rf.rest, [8]);
                }
                other => panic!("{other:?}"),
            }
        }
        other => panic!("{other:?}"),
    }
    let (list, next) = server.resume_relay_request(request(), vec![1, 2], None);
    assert!(list.is_empty() && kept(&next));
}

#[test]
fn relay_responses_lose_the_address() {
    let named = response(RelayPeer::Id("abc".to_owned()), "");
    match RendezvousServer::resume_relay_addr(named, remote(4)) {
        Next::FindPk { response, to } => {
            assert!(response.socket_addr.is_empty());
            assert_eq!(to, remote(4));
            match RendezvousServer::resume_relay_pk(response, to, vec![5]) {
                Next::IsLan { response, .. } => {
                    assert!(matches!(response.peer, RelayPeer::Pk(pk) if pk == [5]));
                }
                _ => panic!(),
            }
        }
        _ => panic!(),
    }
    for peer in [RelayPeer::Id("".to_owned()), RelayPeer::Unset, RelayPeer::Pk(vec![1])] {
        match RendezvousServer::resume_relay_addr(response(peer, ""), remote(4)) {
            Next::IsLan { response, .. } => assert!(response.socket_addr.is_empty()),
            _ => panic!(),
        }
    }
}

fn relay_server(list: &Vec<Action>) -> String {
    match &list[..] {
        [Action::Send { sink: 4, message }, Action::Release { sink: 4 }] => match &message.union {
            Some(Union::RelayResponse(rr)) => rr.relay_server.clone(),
            other => panic!("{other:?}"),
        },
        other => panic!("{other:?}"),
    }
}

#[test]
fn relay_responses_name_a_relay_server_in_reach() {
    let cases = [
        ("relay", true, "192.168.1.1"),
        ("relay", false, "relay"),
        ("", true, ""),
        ("192.168.1.1", true, "192.168.1.1"),
    ];
    for (named, is_lan, expected) in cases {
        let mut server = server();
        server.tcp_punch.insert(remote(4).key, 4);
        let rr = response(RelayPeer::Unset, named);
        let (list, next) = server.resume_relay_lan(rr, remote(4), is_lan);
        assert_eq!(relay_server(&list), expected);
        assert!(!kept(&next));
    }
    let mut server = server();
    server.tcp_punch.insert(remote(4).key, 4);
    let rr = response(RelayPeer::Unset, "192.168.1.1");
    let (list, next) = server.resume_relay_lan(rr, remote(4), false);
    assert!(list.is_empty());
    match next {
        Next::ChooseRelay { response, to } => {
            let (list, next) = server.resume_relay_choice(response, to, "public".to_owned());
            assert_eq!(relay_server(&list), "public");
            assert!(!kept(&next));
        }
        _ => panic!(),
    }
}

#[test]
fn nat_tests_are_answered() {
    let mut server = server();
    let mut conn = conn(40_000, false, Some(3));
    let (list, next) = server.handle_tcp(message(Union::TestNatRequest { serial: 5 }), &mut conn, 0);
    assert!(!kept(&next));
    assert_eq!(
        shown(&list),
        "[Send { sink: 3, message: RendezvousMessage { union: \
         Some(TestNatResponse { port: 40000, cu: None }) } }]",
    );
    let (list, _) = server.handle_tcp(message(Union::TestNatRequest { serial: 4 }), &mut conn, 0);
    assert_eq!(
        shown(&list),
        "[Send { sink: 3, message: RendezvousMessage { union: \
         Some(TestNatResponse { port: 40000, cu: Some(ConfigUpdate { serial: 5, \
         rendezvous_servers: [\"rs1\", \"rs2\"] }) }) } }]",
    );
    // a registered peer is answered by the sink that is filed
    server.tcp_map.insert(remote(40_000).key, 8);
    let (list, _) = server.handle_tcp(message(Union::TestNatRequest { serial: 5 }), &mut conn, 0);
    assert!(matches!(&list[..], [Action::Send { sink: 8, .. }]));
}

#[test]
fn messages_lead_on() {
    let mut server = server();
    let mut conn = conn(1, false, Some(3));
    let mut next = |union| {
        let (list, next) = server.handle_tcp(message(union), &mut conn, 0);
        assert!(list.is_empty());
        next
    };
    let rr = response(RelayPeer::Unset, "");
    assert!(matches!(next(Union::RelayResponse(rr)), Next::DecodeAddr { .. }));
    assert!(matches!(next(Union::PunchHoleSent(vec![1])), Next::HoleSent { report } if report == [1]));
    assert!(matches!(next(Union::LocalAddr(vec![2])), Next::LocalAddr { report } if report == [2]));
    let heard = Union::RegisterPeer { id: "".to_owned(), serial: 0 };
    assert!(kept(&next(heard)));
    let heard = Union::RegisterPeer { id: "a".to_owned(), serial: 1 };
    assert!(matches!(next(heard), Next::FindPeerToHear { id, serial: 1 } if id == "a"));
    let online = Union::OnlineRequest { peers: vec!["a".to_owned()] };
    assert!(matches!(next(online), Next::FindLastHeard { peers } if peers == ["a"]));
    assert!(!kept(&next(Union::Other(vec![]))));
    assert!(!kept(&next(Union::Hc(vec![]))));
    assert!(!kept(&RendezvousServer::resume_report()));
    assert!(!kept(&server.handle_tcp(None, &mut conn, 0).1));
    assert!(!kept(&server.handle_tcp(Some(RendezvousMessage::new()), &mut conn, 0).1));
}

fn pk_result(list: &Vec<Action>) -> String {
    match &list[..] {
        [Action::Send { sink: 3, message }] => match &message.union {
            Some(Union::RegisterPkResponse { result }) => format!("{result:?}"),
            other => panic!("{other:?}"),
        },
        other => panic!("{other:?}"),
    }
}

#[test]
fn ids_are_checked_before_a_change() {
    let mut server = server();
    let mut conn = conn(1, false, Some(3));
    conn.forwarded_ip = Some("9.9.9.9".to_owned());
    let ask = message(Union::RegisterPk(rk("abcdef", &[1], &[])));
    let (list, next) = server.handle_tcp(ask, &mut conn, 0);
    assert!(list.is_empty());
    let (rk, ip) = match next {
        Next::CheckIdForm { rk, ip } => (rk, ip),
        _ => panic!(),
    };
    assert_eq!(ip, "9.9.9.9");
    let (list, next) = server.resume_id_form(rk, ip, true, &conn, 0);
    assert!(list.is_empty());
    let rk = match next {
        Next::FindIdOwner { rk } => rk,
        _ => panic!(),
    };
    let (list, next) =
        RendezvousServer::resume_id_owner(rk, Some(&peer(&[2], &[3], "")), &conn);
    assert_eq!(pk_result(&list), "IdExists");
    assert!(!kept(&next));
    let free = RegisterPk { id: "abcdef".to_owned(), uuid: vec![2], pk: vec![] };
    let (list, _) = RendezvousServer::resume_id_owner(free, Some(&peer(&[2], &[3], "")), &conn);
    assert_eq!(pk_result(&list), "Accepted");
}

#[test]
fn ids_of_a_wrong_form_are_refused() {
    let mut server = server();
    let conn = conn(1, false, Some(3));
    let (list, next) =
        server.resume_id_form(rk("!", &[1], &[]), "9.9.9.9".to_owned(), false, &conn, 0);
    assert_eq!(pk_result(&list), "InvalidIdFormat");
    assert!(!kept(&next));
    for _ in 0..32 {
        server.resume_id_form(rk("abcdef", &[1], &[]), "9.9.9.9".to_owned(), true, &conn, 0);
    }
    let (list, next) =
        server.resume_id_form(rk("abcdef", &[1], &[]), "9.9.9.9".to_owned(), true, &conn, 0);
    assert_eq!(pk_result(&list), "TooFrequent");
    assert!(!kept(&next));
}

#[test]
fn registrations_are_admitted() {
    let mut server = server();
    let mut conn = conn(1, false, Some(3));
    let no_uuid = message(Union::RegisterPk(rk("abcdef", &[], &[2])));
    let (list, next) = server.handle_tcp(no_uuid, &mut conn, 0);
    assert!(list.is_empty() && !kept(&next));
    let short = message(Union::RegisterPk(rk("abcde", &[1], &[2])));
    let (list, next) = server.handle_tcp(short, &mut conn, 0);
    assert_eq!(pk_result(&list), "UuidMismatch");
    assert!(!kept(&next));
    for _ in 0..32 {
        let good = message(Union::RegisterPk(rk("abcdef", &[1], &[2])));
        let (list, next) = server.handle_tcp(good, &mut conn, 0);
        assert!(list.is_empty());
        assert!(matches!(next, Next::FindPeerToRegister { ip, .. } if ip == "10.0.0.1"));
    }
    let late = message(Union::RegisterPk(rk("abcdef", &[1], &[2])));
    let (list, next) = server.handle_tcp(late, &mut conn, 0);
    assert_eq!(pk_result(&list), "TooFrequent");
    assert!(!kept(&next));
    assert_eq!(conn.sink, Some(3));
}

#[test]
fn a_registered_peer_is_reached_by_its_connection() {
    for ws in [false, true] {
        let mut server = server();
        let mut conn = conn(1, ws, Some(3));
        let mut record = peer(&[], &[], "");
        let (list, next) = server.resume_register(
            rk("abcdef", &[1], &[2]),
            "10.0.0.1".to_owned(),
            &mut record,
            &mut conn,
            50,
        );
        assert!(kept(&next));
        assert!(matches!(
            &list[..],
            [
                Action::UpdatePk { id, addr, uuid, pk, ip },
                Action::HearPeer { id: heard, addr: from, now: 50 },
                Action::Send { sink: 3, .. },
            ] if id == "abcdef" && heard == "abcdef" && *addr == remote(1) && *from == remote(1)
                && *uuid == [1] && *pk == [2] && ip == "10.0.0.1",
        ));
        assert_eq!(record.reg_pk, (1, 50));
        assert_eq!(conn.sink, None);
        assert_eq!(conn.registered, Some("abcdef".to_owned()));
        let heartbeat = RendezvousServer::answer_heartbeat(&conn, 60);
        if ws {
            assert!(heartbeat.is_empty());
        } else {
            assert!(matches!(
                &heartbeat[..],
                [Action::RefreshPeer { id, now: 60 }] if id == "abcdef",
            ));
        }
        assert_eq!(server.persistent_sink(remote(1).key), Some(3));
        let hello = RendezvousMessage::of(Union::Hc(vec![]));
        assert!(matches!(server.send_to_peer(hello, remote(1)), Action::Send { sink: 3, .. }));
        // once the connection is closed it is not
        let list = server.close(conn);
        assert_eq!(shown(&list), "[Release { sink: 3 }]");
        let hello = RendezvousMessage::of(Union::Hc(vec![]));
        assert!(matches!(server.send_to_peer(hello, remote(1)), Action::SendUdp { .. }));
    }
}

#[test]
fn unchanged_records_are_updated_for_web_sockets_only() {
    for (ws, length) in [(false, 2), (true, 3)] {
        let mut server = server();
        let mut conn = conn(1, ws, Some(3));
        let mut record = peer(&[1], &[2], "10.0.0.1");
        let (list, _) = server.resume_register(
            rk("abcdef", &[1], &[2]),
            "10.0.0.1".to_owned(),
            &mut record,
            &mut conn,
            50,
        );
        assert_eq!(list.len(), length);
    }
}

#[test]
fn refused_registrations_change_nothing() {
    let mut server = server();
    let mut conn = conn(1, true, Some(3));
    let mut record = peer(&[9], &[2], "10.0.0.1");
    let (list, next) = server.resume_register(
        rk("abcdef", &[1], &[2]),
        "10.0.0.1".to_owned(),
        &mut record,
        &mut conn,
        50,
    );
    assert_eq!(pk_result(&list), "UuidMismatch");
    assert!(!kept(&next));
    assert_eq!(record.reg_pk, (0, 0));
    assert_eq!(conn.registered, None);
    assert_eq!(conn.sink, Some(3));
    assert_eq!(server.persistent_sink(remote(1).key), None);
}

#[test]
fn known_peers_are_heard() {
    let server = server();
    let conn = conn(1, false, Some(3));
    let heard = |record: &Peer, conn: &Connection| {
        let (list, next) = server.resume_hear("abcdef".to_owned(), 5, Some(record), conn, 9);
        assert!(kept(&next));
        match &list[..] {
            [] => false,
            [Action::HearPeer { id, addr, now: 9 }] => id == "abcdef" && *addr == remote(1),
            other => panic!("{other:?}"),
        }
    };
    assert!(heard(&peer(&[1], &[2], "8.8.8.8"), &conn));
    assert!(!heard(&peer(&[1], &[], "8.8.8.8"), &conn));
    let mut moved = peer(&[1], &[2], "10.0.0.1");
    moved.socket_addr.addr = Addr::V4 { ip: 0x0a00_0002, port: 1 };
    assert!(!heard(&moved, &conn));
    // without an address in memory the recorded one counts
    moved.socket_addr.addr = Addr::V4 { ip: 0, port: 0 };
    assert!(heard(&moved, &conn));
    moved.ip = "10.0.0.2".to_owned();
    assert!(!heard(&moved, &conn));
}

#[test]
fn the_loopback_network_is_no_move() {
    let server = server();
    let local = Addr::V4 { ip: 0x7f00_0001, port: 9 };
    let conn = Connection {
        remote: Remote { addr: local, key: local },
        ip: "127.0.0.1".to_owned(),
        ws: true,
        forwarded_ip: None,
        sink: None,
        registered: None,
    };
    let (list, _) =
        server.resume_hear("abcdef".to_owned(), 5, Some(&peer(&[1], &[2], "8.8.8.8")), &conn, 9);
    assert_eq!(list.len(), 1);
}

#[test]
fn unknown_peers_are_told_to_register() {
    let server = server();
    let conn = conn(1, false, Some(3));
    let (list, next) = server.resume_hear("abcdef".to_owned(), 5, None, &conn, 9);
    assert!(kept(&next));
    assert_eq!(
        shown(&list),
        "[Send { sink: 3, message: RendezvousMessage { union: \
         Some(RegisterPeerResponse { request_pk: true }) } }]",
    );
    let (list, _) = server.resume_hear("abcdef".to_owned(), 4, None, &conn, 9);
    assert_eq!(list.len(), 2);
    assert!(shown(&list).contains("ConfigureUpdate(ConfigUpdate { serial: 5"));
}

#[test]
fn online_peers_have_their_bit() {
    let now = 100_000 * MS;
    let online = Some(now - 29_999 * MS);
    let late = Some(now - 30_000 * MS);
    assert_eq!(online_states(&vec![], now), []);
    assert_eq!(online_states(&vec![online], now), [0x80]);
    assert_eq!(online_states(&vec![late], now), [0]);
    assert_eq!(online_states(&vec![None, online, late, Some(now + 5)], now), [0x50]);
    let mut nine = vec![None; 9];
    nine[7] = online;
    nine[8] = online;
    assert_eq!(online_states(&nine, now), [0x01, 0x80]);
}

#[test]
fn online_answers_go_by_the_filed_sink() {
    let mut server = server();
    let conn = conn(1, true, Some(3));
    let (list, next) = server.resume_online(&vec![Some(5)], &conn, 6);
    assert!(kept(&next));
    assert_eq!(
        shown(&list),
        "[Send { sink: 3, message: RendezvousMessage { union: \
         Some(OnlineResponse { states: [128] }) } }]",
    );
    server.ws_map.insert(remote(1).key, 8);
    let (list, _) = server.resume_online(&vec![Some(5)], &conn, 6);
    assert!(matches!(&list[..], [Action::Send { sink: 8, .. }]));
}

#[test]
fn messages_without_a_way_are_lost() {
    let mut server = server();
    assert!(server.send_to_tcp(RendezvousMessage::new(), remote(1)).is_empty());
    server.tcp_map.insert(remote(1).key, 8);
    server.tcp_punch.insert(remote(1).key, 9);
    let list = server.send_to_tcp(RendezvousMessage::new(), remote(1));
    assert!(matches!(&list[..], [Action::Send { sink: 8, .. }]));
    assert_eq!(server.tcp_punch.get(remote(1).key), Some(9));
}

#[test]
fn bytes_are_written_as_the_sink_wants_them() {
    let write = RendezvousServer::send_to_sink;
    let tcp = |encrypted| SinkKind::TcpStream { encrypted };
    assert!(matches!(write(tcp(true), Some(vec![1])), Write::Encrypted(b) if b == [1]));
    assert!(matches!(write(tcp(false), Some(vec![1])), Write::Plain(b) if b == [1]));
    assert!(matches!(write(SinkKind::Ws, Some(vec![1])), Write::Binary(b) if b == [1]));
    assert!(matches!(write(SinkKind::Ws, None), Write::Nothing));
}
