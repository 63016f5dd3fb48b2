use rendezvous::addr::{Addr, Ip};
use rendezvous::message::RendezvousMessage;
use rendezvous::rendezvous_server::server::{
    always_use_relay, choose_self_test, is_yes, self_test, self_test_again, Data, Endpoint,
    LoopEvent, LoopFailure, LoopStep, Options, SelfTest, StartPlan,
};
use rendezvous::rendezvous_server::{Limits, RendezvousServer};

fn server(mask: &str, local_ip: &str) -> RendezvousServer {
    RendezvousServer::new(
        3,
        "1.1".to_owned(),
        "url".to_owned(),
        mask,
        local_ip.to_owned(),
        None,
        vec!["rs1".to_owned()],
        limits(),
    )
}

fn limits() -> Limits {
    Limits { ip_block_secs: 60, day_secs: 86_400, ip_change_secs: 180 }
}

fn options() -> Options {
    Options {
        rendezvous_servers: vec!["rs1".to_owned(), "rs2".to_owned()],
        software_url: "https://example.org/app-1.2.3.zip".to_owned(),
        version: "1.2.3".to_owned(),
        mask: "10.0.0.0/8".to_owned(),
        local_ip: "10.1.1.1".to_owned(),
        always_use_relay: "y".to_owned(),
        test_hbbs: "No".to_owned(),
    }
}

#[test]
fn options_are_taken() {
    let start = RendezvousServer::start(21116, 7, Some([3; 64]), 0, options(), limits());
    assert_eq!(start.server.inner.serial, 7);
    assert_eq!(start.server.inner.sk, Some([3; 64]));
    assert_eq!(start.server.inner.version, "1.2.3");
    assert_eq!(start.server.inner.software_url, "https://example.org/app-1.2.3.zip");
    assert_eq!(start.server.inner.local_ip, "10.1.1.1");
    assert_eq!(start.server.inner.mask.unwrap().prefix, 8);
    assert_eq!(start.server.rendezvous_servers, ["rs1", "rs2"]);
    assert!(start.server.relay_servers.is_empty() && start.server.relay_servers0.is_empty());
    assert!(start.always_use_relay);
    assert!(matches!(start.self_test, SelfTest::Skip));
}

#[test]
fn listeners_use_the_bind_address() {
    let bind_addr = Some(Ip::V4(0x7f00_0001));
    let plan = RendezvousServer::start_with_bind(bind_addr, 21116, 1, None, 0, options(), limits());
    let plan = plan.plan;
    let all = [Endpoint::Udp, Endpoint::Tcp, Endpoint::Nat, Endpoint::Console, Endpoint::Ws];
    for endpoint in all {
        assert_eq!(plan.listen(endpoint).bind_addr, bind_addr);
    }
}

#[test]
fn ports_lie_around_the_main_one() {
    let plan = RendezvousServer::start(21116, 1, None, 4096, options(), limits()).plan;
    assert_eq!(plan.bind_addr, None);
    assert_eq!(plan.rmem, 4096);
    assert_eq!(plan.listen(Endpoint::Udp).port, 21116);
    assert_eq!(plan.listen(Endpoint::Tcp).port, 21116);
    assert_eq!(plan.listen(Endpoint::Nat).port, 21115);
    assert_eq!(plan.listen(Endpoint::Console).port, 21115);
    assert_eq!(plan.listen(Endpoint::Ws).port, 21118);
}

#[test]
fn what_failed_is_rebuilt_as_it_was() {
    let plan = StartPlan::new(Some(Ip::V6(1)), 21116, 0);
    let failures = [
        (LoopFailure::UdpSocket, Endpoint::Udp),
        (LoopFailure::Listener, Endpoint::Tcp),
        (LoopFailure::Listener2, Endpoint::Nat),
        (LoopFailure::Listener3, Endpoint::Ws),
        (LoopFailure::ConsoleListener, Endpoint::Console),
    ];
    for (failure, endpoint) in failures {
        assert_eq!(plan.rebuild(failure), plan.listen(endpoint));
    }
}

#[test]
fn a_server_has_a_local_address_only_with_a_mask() {
    let with = server("192.168.0.0/16", "192.168.1.1");
    assert_eq!(with.inner.local_ip, "192.168.1.1");
    assert_eq!(with.inner.mask.unwrap().prefix, 16);
    let without = server("", "192.168.1.1");
    assert_eq!(without.inner.local_ip, "");
    assert!(without.inner.mask.is_none());
    assert_eq!(without.rendezvous_servers, ["rs1"]);
    assert_eq!(without.inner.serial, 3);
}

#[test]
fn the_relay_option_has_no_case() {
    assert!(always_use_relay("y"));
    assert!(always_use_relay("Y"));
    assert!(!always_use_relay("yes"));
    assert!(!always_use_relay(""));
    assert!(!always_use_relay("N"));
    assert!(is_yes("Y".to_owned()));
    assert!(!is_yes("y".to_owned()));
}

#[test]
fn the_self_test_can_be_switched_off() {
    for option in ["no", "No", "NO", "nO"] {
        assert!(matches!(self_test(option.to_owned()), SelfTest::Skip));
    }
    assert!(matches!(self_test("".to_owned()), SelfTest::OwnAddr));
    match self_test("127.0.0.1:21116".to_owned()) {
        SelfTest::At(text) => assert_eq!(text, "127.0.0.1:21116"),
        other => panic!("{other:?}"),
    }
    match choose_self_test("none".to_owned(), "NONE".to_owned()) {
        SelfTest::At(text) => assert_eq!(text, "NONE"),
        other => panic!("{other:?}"),
    }
}

#[test]
fn a_failed_self_test_is_repeated_on_ipv4() {
    let any6 = Addr::V6 { ip: 0, port: 21116, flowinfo: 0, scope_id: 0 };
    assert_eq!(self_test_again(any6), Some(Addr::V4 { ip: 0, port: 21116 }));
    let one6 = Addr::V6 { ip: 1, port: 21116, flowinfo: 0, scope_id: 0 };
    assert_eq!(self_test_again(one6), None);
    assert_eq!(self_test_again(Addr::V4 { ip: 0, port: 21116 }), None);
}

#[test]
fn several_relay_servers_are_checked() {
    let mut server = server("", "");
    assert!(matches!(server.io_loop(LoopEvent::RelayTimer), LoopStep::Nothing));
    server.relay_servers0 = vec!["a".to_owned()];
    assert!(matches!(server.io_loop(LoopEvent::RelayTimer), LoopStep::Nothing));
    server.relay_servers0 = vec!["a".to_owned(), "b".to_owned()];
    match server.io_loop(LoopEvent::RelayTimer) {
        LoopStep::CheckRelays(list) => assert_eq!(list, ["a", "b"]),
        other => panic!("{other:?}"),
    }
}

#[test]
fn what_other_tasks_hand_over_is_taken() {
    let mut server = server("", "");
    let to = Addr::V4 { ip: 1, port: 2 };
    let data = Data::Msg(RendezvousMessage::new(), to);
    assert!(matches!(
        server.io_loop(LoopEvent::Data(data)),
        LoopStep::SendUdp(RendezvousMessage { union: None }, addr) if addr == to,
    ));
    let data = Data::RelayServers0("a,b".to_owned());
    assert!(matches!(
        server.io_loop(LoopEvent::Data(data)),
        LoopStep::ParseRelayServers(text) if text == "a,b",
    ));
    let data = Data::RelayServers(vec!["b".to_owned()]);
    assert!(matches!(server.io_loop(LoopEvent::Data(data)), LoopStep::Nothing));
    assert_eq!(server.relay_servers, ["b"]);
}

#[test]
fn connections_are_handled_by_listener() {
    let mut server = server("", "");
    let mut accepted = |at| server.io_loop(LoopEvent::Accepted(at));
    assert!(matches!(accepted(Endpoint::Tcp), LoopStep::HandleListener { ws: false }));
    assert!(matches!(accepted(Endpoint::Ws), LoopStep::HandleListener { ws: true }));
    assert!(matches!(accepted(Endpoint::Nat), LoopStep::HandleListener2));
    assert!(matches!(accepted(Endpoint::Console), LoopStep::HandleListener2));
}

#[test]
fn failures_end_the_loop() {
    let mut server = server("", "");
    let all = [
        (Endpoint::Tcp, LoopFailure::Listener),
        (Endpoint::Nat, LoopFailure::Listener2),
        (Endpoint::Ws, LoopFailure::Listener3),
        (Endpoint::Console, LoopFailure::ConsoleListener),
    ];
    for (at, expected) in all {
        let step = server.io_loop(LoopEvent::AcceptFailed(at));
        assert!(matches!(step, LoopStep::Fail(failure) if failure == expected));
        assert_eq!(expected.endpoint(), at);
    }
    assert!(matches!(
        server.io_loop(LoopEvent::DatagramFailed),
        LoopStep::Fail(LoopFailure::UdpSocket),
    ));
    assert!(matches!(server.io_loop(LoopEvent::Datagram), LoopStep::HandleDatagram));
    assert!(matches!(server.io_loop(LoopEvent::NoDatagram), LoopStep::Nothing));
}
