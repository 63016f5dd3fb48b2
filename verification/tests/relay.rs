use rendezvous::addr::{Addr, Ip};
use rendezvous::message::{RendezvousMessage, RequestRelay, Union};
use rendezvous::relay_server::connection::{
    io_loop, make_pair, ConnectionUse, LoopStep, Pairing,
};
use rendezvous::relay_server::relay::{Relay, Settlement, Side};
use rendezvous::relay_server::server::{read_list, start_with_bind, Listener};
use rendezvous::relay_server::stream::{recv, Recv, Stream, WsRead};
use rendezvous::relay_server::{RelayServer, Usage};

const MS: u64 = 1_000_000;

fn server(key: &str) -> RelayServer {
    RelayServer::new(key.to_owned())
}

fn request(uuid: &str, licence_key: &str) -> Option<RendezvousMessage> {
    Some(RendezvousMessage::of(Union::RequestRelay(RequestRelay {
        id: "peer".to_owned(),
        uuid: uuid.to_owned(),
        licence_key: licence_key.to_owned(),
        socket_addr: vec![],
        rest: vec![],
    })))
}

fn plain(id: u64) -> Stream {
    Stream { id, ws: false }
}

fn ws(id: u64) -> Stream {
    Stream { id, ws: true }
}

fn park(server: &mut RelayServer, stream: Stream, uuid: &str) {
    match server.make_pair_(stream, "1.1.1.1", 1, request(uuid, "")) {
        Pairing::Park(waiting) => {
            assert_eq!(waiting, uuid);
            assert_eq!(server.park(waiting, stream), None);
        }
        other => panic!("{other:?}"),
    }
}

#[test]
fn lists_hold_the_first_word_of_each_line() {
    let mut server = server("");
    read_list(&mut server.blocklist, "1.2.3.4 spam\n  5.6.7.8\t\r\n::1\n\n9.9.9.9\tx y");
    for ip in ["1.2.3.4", "5.6.7.8", "::1", "", "9.9.9.9\tx"] {
        assert!(server.blocklist.contains(ip), "{ip:?}");
    }
    for ip in ["spam", "9.9.9.9", "1.2.3.4 spam", "2.2.2.2"] {
        assert!(!server.blocklist.contains(ip), "{ip:?}");
    }
    assert_eq!(server.blocklist.len(), 5);
}

#[test]
fn lists_are_read_as_std_reads_them() {
    let contents = "a b c\n\u{a0}d e\u{3000}\n\n f\n+g  h\u{2003}i j";
    let mut server = server("");
    read_list(&mut server.blacklist, contents);
    let mut expected = std::collections::HashSet::new();
    for line in contents.split('\n') {
        if let Some(word) = line.trim().split(' ').next() {
            expected.insert(word.to_owned());
        }
    }
    assert_eq!(server.blacklist.len(), expected.len());
    for word in expected {
        assert!(server.blacklist.contains(&word), "{word:?}");
    }
}

#[test]
fn lists_joined_by_a_line_break_hold_both() {
    let (one, two) = ("1.1.1.1 x\n2.2.2.2", "3.3.3.3\n4.4.4.4 y");
    let mut apart = server("");
    read_list(&mut apart.blacklist, one);
    read_list(&mut apart.blacklist, two);
    let mut joined = server("");
    read_list(&mut joined.blacklist, &format!("{one}\n{two}"));
    assert_eq!(apart.blacklist.len(), joined.blacklist.len());
    for ip in ["1.1.1.1", "2.2.2.2", "3.3.3.3", "4.4.4.4"] {
        assert!(apart.blacklist.contains(ip) && joined.blacklist.contains(ip));
    }
}

#[test]
fn web_sockets_listen_two_ports_above() {
    let mut server = server("k");
    let bind = Some(Ip::V4(0x7f00_0001));
    let plan = start_with_bind(&mut server, bind, "21117", Some("1.1.1.1"), Some("2.2.2.2"));
    let plan = plan.unwrap();
    assert_eq!(plan.bind_addr, bind);
    assert_eq!(plan.port_of(Listener::Tcp), 21117);
    assert_eq!(plan.port_of(Listener::Ws), 21119);
    assert_eq!(plan.port_of(Listener::Console), 21117);
    assert!(server.blacklist.contains("1.1.1.1") && !server.blacklist.contains("2.2.2.2"));
    assert!(server.blocklist.contains("2.2.2.2") && !server.blocklist.contains("1.1.1.1"));
}

#[test]
fn without_a_port_the_lists_are_still_read() {
    let mut server = server("");
    assert!(start_with_bind(&mut server, None, "many", Some("1.1.1.1"), None).is_none());
    assert!(server.blacklist.contains("1.1.1.1"));
    assert_eq!(server.blocklist.len(), 0);
}

#[test]
fn default_settings() {
    let settings = server("").settings;
    assert_eq!(settings.downgrade_threshold, 66);
    assert_eq!(settings.downgrade_start_check, 1_800_000);
    assert_eq!(settings.limit_speed, 32 * 1024 * 1024);
    assert_eq!(settings.total_bandwidth, 1024 * 1024 * 1024);
    assert_eq!(settings.single_bandwidth, 128 * 1024 * 1024);
}

#[test]
fn only_one_listener_has_web_sockets() {
    assert_eq!(io_loop(Listener::Tcp, true), LoopStep::Handle { ws: false });
    assert_eq!(io_loop(Listener::Ws, true), LoopStep::Handle { ws: true });
    assert_eq!(io_loop(Listener::Console, true), LoopStep::Handle { ws: false });
    assert_eq!(io_loop(Listener::Ws, false), LoopStep::Restart);
    assert_eq!(io_loop(Listener::Tcp, false), LoopStep::Restart);
}

#[test]
fn commands_come_from_the_machine_itself() {
    let mut server = server("");
    read_list(&mut server.blocklist, "127.0.0.1\n9.9.9.9");
    let local = Ip::V4(0x7f00_0001);
    let remote = Ip::V4(0x0909_0909);
    assert_eq!(server.handle_connection(local, "127.0.0.1", false), ConnectionUse::Command);
    assert_eq!(server.handle_connection(local, "127.0.0.1", true), ConnectionUse::Blocked);
    assert_eq!(server.handle_connection(remote, "9.9.9.9", false), ConnectionUse::Blocked);
    assert_eq!(server.handle_connection(remote, "9.9.9.8", false), ConnectionUse::Pair);
    assert_eq!(server.handle_connection(Ip::V6(1), "::1", false), ConnectionUse::Command);
}

#[test]
fn proxies_are_believed_on_web_sockets_only() {
    let seen = Addr::V4 { ip: 1, port: 2 };
    let claimed = Addr::V4 { ip: 3, port: 0 };
    assert_eq!(make_pair(seen, true, Some(claimed)), claimed);
    assert_eq!(make_pair(seen, true, None), seen);
    assert_eq!(make_pair(seen, false, Some(claimed)), seen);
}

#[test]
fn two_ends_of_a_session_are_paired() {
    let mut server = server("");
    park(&mut server, plain(1), "s");
    match server.make_pair_(plain(2), "10.0.0.2", 4567, request("s", "")) {
        Pairing::Paired { peer, id, raw } => {
            assert_eq!(peer, plain(1));
            assert_eq!(id, "10.0.0.2:4567");
            assert!(raw);
        }
        other => panic!("{other:?}"),
    }
    assert_eq!(server.peers.len(), 0);
    let usage = *server.usage.get("10.0.0.2:4567").unwrap();
    assert_eq!(usage, Usage { elapsed: 0, total: 0, highest_speed: 0, speed: 0 });
    // the wait of the first end is over without effect
    assert_eq!(server.unpark("s"), None);
    server.finish("10.0.0.2:4567");
    assert_eq!(server.usage.len(), 0);
}

#[test]
fn account_names_hold_the_port() {
    for port in [0u16, 9, 10, 99, 100, 21117, 65535] {
        let mut server = server("");
        park(&mut server, plain(1), "s");
        match server.make_pair_(plain(2), "::1", port, request("s", "")) {
            Pairing::Paired { id, .. } => assert_eq!(id, format!("::1:{port}")),
            other => panic!("{other:?}"),
        }
    }
}

#[test]
fn web_sockets_keep_their_framing() {
    for (first, second) in [(ws(1), plain(2)), (plain(1), ws(2)), (ws(1), ws(2))] {
        let mut server = server("");
        park(&mut server, first, "s");
        match server.make_pair_(second, "1.1.1.1", 1, request("s", "")) {
            Pairing::Paired { peer, raw, .. } => {
                assert_eq!(peer, first);
                assert!(!raw);
            }
            other => panic!("{other:?}"),
        }
    }
}

#[test]
fn other_sessions_are_left_alone() {
    let mut server = server("");
    park(&mut server, plain(1), "s");
    park(&mut server, plain(2), "t");
    assert!(matches!(
        server.make_pair_(plain(3), "1.1.1.1", 1, request("t", "")),
        Pairing::Paired { peer: Stream { id: 2, .. }, .. },
    ));
    assert_eq!(*server.peers.get("s").unwrap(), plain(1));
    assert_eq!(server.unpark("s"), Some(plain(1)));
    assert_eq!(server.peers.len(), 0);
}

#[test]
fn a_second_end_that_waits_displaces_the_first() {
    let mut server = server("");
    assert_eq!(server.park("s".to_owned(), plain(1)), None);
    assert_eq!(server.park("s".to_owned(), plain(2)), Some(plain(1)));
    assert_eq!(*server.peers.get("s").unwrap(), plain(2));
}

#[test]
fn keys_are_asked_for() {
    let mut server = server("secret");
    assert!(matches!(
        server.make_pair_(plain(1), "1.1.1.1", 1, request("s", "wrong")),
        Pairing::BadKey,
    ));
    assert!(matches!(server.make_pair_(plain(1), "1.1.1.1", 1, request("", "")), Pairing::BadKey));
    assert!(matches!(
        server.make_pair_(plain(1), "1.1.1.1", 1, request("s", "secret")),
        Pairing::Park(_),
    ));
    assert_eq!(server.peers.len() + server.usage.len(), 0);
}

#[test]
fn other_first_messages_are_ignored() {
    let mut server = server("");
    assert!(matches!(server.make_pair_(plain(1), "1.1.1.1", 1, None), Pairing::Ignored));
    assert!(matches!(
        server.make_pair_(plain(1), "1.1.1.1", 1, Some(RendezvousMessage::new())),
        Pairing::Ignored,
    ));
    assert!(matches!(
        server.make_pair_(plain(1), "1.1.1.1", 1, request("", "any")),
        Pairing::Ignored,
    ));
}

#[test]
fn web_sockets_give_bytes() {
    assert!(matches!(recv(WsRead::Binary(vec![1, 2])), Recv::Bytes(b) if b == [1, 2]));
    assert!(matches!(recv(WsRead::Other), Recv::Bytes(b) if b.is_empty()));
    assert!(matches!(recv(WsRead::Failed("reset".to_owned())), Recv::Failed(w) if w == "reset"));
    assert!(matches!(recv(WsRead::Ended), Recv::Ended));
}

fn relay(threshold: usize) -> Relay {
    Relay::new("1.2.3.4".to_owned(), "1.2.3.4:5".to_owned(), threshold, 0)
}

#[test]
fn bytes_go_to_the_other_end() {
    let mut relay = relay(100);
    let carry = relay.received(Side::Peer, Recv::Bytes(vec![7; 5]), MS).unwrap();
    assert_eq!(carry.to, Side::Stream);
    assert_eq!(carry.bits, 40);
    assert!(!carry.slow);
    assert_eq!(carry.send, Some(vec![7; 5]));
    let carry = relay.received(Side::Stream, Recv::Bytes(vec![]), 2 * MS).unwrap();
    assert_eq!(carry.to, Side::Peer);
    assert_eq!(carry.bits, 0);
    assert_eq!(carry.send, None);
    assert_eq!((relay.meter.total, relay.meter.total_s), (40, 40));
    assert_eq!(relay.meter.last_recv_time, 2 * MS);
}

#[test]
fn each_end_is_sent_what_the_other_gave() {
    let mut relay = relay(100);
    let received: [(Side, &[u8]); 5] = [
        (Side::Peer, b"ab"),
        (Side::Stream, b"xyz"),
        (Side::Peer, b""),
        (Side::Peer, b"c"),
        (Side::Stream, b"!"),
    ];
    let (mut to_peer, mut to_stream) = (vec![], vec![]);
    for (from, bytes) in received {
        let carry = relay.received(from, Recv::Bytes(bytes.to_vec()), 1).unwrap();
        let sent = if carry.to == Side::Peer { &mut to_peer } else { &mut to_stream };
        sent.extend(carry.send.unwrap_or_default());
    }
    assert_eq!(to_stream, b"abc");
    assert_eq!(to_peer, b"xyz!");
    assert_eq!(relay.meter.total, 8 * 7);
}

#[test]
fn an_end_or_an_error_ends_the_relay() {
    let mut relay = relay(100);
    assert!(relay.received(Side::Peer, Recv::Ended, MS).is_none());
    assert!(relay.received(Side::Stream, Recv::Failed("reset".to_owned()), MS).is_none());
    assert_eq!(relay.meter.last_recv_time, 0);
}

#[test]
fn silence_ends_the_relay() {
    let relay = relay(100);
    assert!(!relay.silent(30_999 * MS));
    assert!(relay.silent(31_000 * MS));
}

#[test]
fn accounts_are_settled_every_second() {
    let mut server = server("");
    let mut relay = relay(100);
    assert_eq!(relay.due(999 * MS), None);
    relay.received(Side::Peer, Recv::Bytes(vec![0; 1000]), 10 * MS);
    assert_eq!(relay.due(2_000 * MS + 999_999), Some(2_000));
    assert_eq!(relay.settle(&mut server, 2_000, 2_001 * MS), Settlement::Settled);
    let usage = *server.usage.get("1.2.3.4:5").unwrap();
    assert_eq!(usage, Usage { elapsed: 2_000, total: 8_000, highest_speed: 4, speed: 4 });
    assert_eq!(relay.meter.total_s, 0);
    assert_eq!(relay.meter.tm, 2_001 * MS);
    // a slower period keeps the highest speed
    relay.received(Side::Peer, Recv::Bytes(vec![0; 250]), 2_500 * MS);
    assert_eq!(relay.settle(&mut server, 1_000, 3_001 * MS), Settlement::Settled);
    let usage = *server.usage.get("1.2.3.4:5").unwrap();
    assert_eq!(usage, Usage { elapsed: 3_000, total: 10_000, highest_speed: 4, speed: 2 });
}

#[test]
fn speeds_are_differences_of_totals_over_times() {
    let mut server = server("");
    let mut relay = relay(100);
    relay.received(Side::Peer, Recv::Bytes(vec![0; 77]), 1);
    relay.settle(&mut server, 1_000, 2);
    let one = *server.usage.get("1.2.3.4:5").unwrap();
    relay.received(Side::Peer, Recv::Bytes(vec![0; 900]), 3);
    relay.received(Side::Stream, Recv::Bytes(vec![0; 1_234]), 4);
    relay.settle(&mut server, 1_500, 5);
    let two = *server.usage.get("1.2.3.4:5").unwrap();
    assert_eq!(two.speed, (two.total - one.total) / (two.elapsed - one.elapsed));
    assert_eq!(two.speed, 11);
}

#[test]
fn blocked_addresses_end_a_relay() {
    let mut server = server("");
    let mut relay = relay(100);
    read_list(&mut server.blocklist, "1.2.3.4");
    assert_eq!(relay.settle(&mut server, 1_000, 5), Settlement::Blocked);
    assert_eq!(server.usage.len(), 0);
    assert_eq!(relay.meter.elapsed, 0);
}

#[test]
fn black_addresses_are_slowed_down_while_listed() {
    let mut server = server("");
    let mut relay = relay(100);
    read_list(&mut server.blacklist, "1.2.3.4");
    assert_eq!(relay.settle(&mut server, 1_000, 5), Settlement::Settled);
    assert!(relay.received(Side::Peer, Recv::Bytes(vec![1]), 6).unwrap().slow);
    server.blacklist.remove("1.2.3.4");
    assert_eq!(relay.settle(&mut server, 1_000, 7), Settlement::Settled);
    assert!(!relay.received(Side::Peer, Recv::Bytes(vec![1]), 8).unwrap().slow);
}

#[test]
fn heavy_use_is_downgraded_for_good() {
    let mut server = server("");
    server.settings.downgrade_start_check = 1_500;
    let mut relay = relay(8);
    relay.received(Side::Peer, Recv::Bytes(vec![0; 2_001]), 1);
    // too early
    assert_eq!(relay.settle(&mut server, 1_000, 2), Settlement::Settled);
    // 16 008 bits in 2 000 ms at 8 bits per ms
    assert_eq!(relay.settle(&mut server, 1_000, 3), Settlement::Downgraded);
    assert!(relay.received(Side::Peer, Recv::Bytes(vec![1]), 4).unwrap().slow);
    // no longer excessive, but still downgraded
    assert_eq!(relay.settle(&mut server, 1_000_000, 5), Settlement::Settled);
    assert!(relay.meter.downgrade);
}

#[test]
fn use_at_the_threshold_is_not_heavy() {
    let mut server = server("");
    server.settings.downgrade_start_check = 1_999;
    let mut relay = relay(8);
    relay.received(Side::Peer, Recv::Bytes(vec![0; 2_000]), 1);
    assert_eq!(relay.settle(&mut server, 2_000, 2), Settlement::Settled);
    assert!(!relay.meter.downgrade);
}

#[test]
fn counts_have_limits() {
    let mut relay = relay(100);
    relay.meter.total = usize::MAX - 15;
    assert!(relay.can_carry(1));
    assert!(!relay.can_carry(2));
    relay.meter.elapsed = usize::MAX - 1_000;
    assert!(relay.can_settle(1_000));
    assert!(!relay.can_settle(1_001));
}
