use rendezvous::addr::{Addr, Remote};
use rendezvous::message::{RegisterPkResult, Union};
use rendezvous::peer::Peer;
use rendezvous::rendezvous_server::{Limits, RendezvousServer};

const SEC: u64 = 1_000_000_000;

fn server() -> RendezvousServer {
    RendezvousServer::new(
        1,
        "1.1".to_owned(),
        "https://example.org/app-1.1.zip".to_owned(),
        "",
        "".to_owned(),
        None,
        vec![],
        Limits { ip_block_secs: 60, day_secs: 86_400, ip_change_secs: 180 },
    )
}

fn remote() -> Remote {
    let addr = Addr::V4 { ip: 0x0a00_0001, port: 1000 };
    Remote { addr, key: addr }
}

fn peer(uuid: &[u8], pk: &[u8], ip: &str) -> Peer {
    Peer {
        socket_addr: remote(),
        last_reg_time: 0,
        uuid: uuid.to_vec(),
        pk: pk.to_vec(),
        ip: ip.to_owned(),
        reg_pk: (0, 0),
    }
}

#[test]
fn an_address_gets_a_burst_through() {
    let mut server = server();
    for i in 0..32u64 {
        assert!(server.check_ip_blocker("1.1.1.1", "some-id", i), "{i}");
    }
    assert!(!server.check_ip_blocker("1.1.1.1", "some-id", 32));
    assert!(!server.check_ip_blocker("1.1.1.1", "other-id", 33));
    // another address is not affected
    assert!(server.check_ip_blocker("2.2.2.2", "some-id", 34));
    // the refused requests did not count: the pause is since the last that passed
    assert!(!server.check_ip_blocker("1.1.1.1", "some-id", 31 + 61 * SEC - 1));
    assert!(server.check_ip_blocker("1.1.1.1", "some-id", 31 + 61 * SEC));
    assert_eq!(server.ip_blocker.get("1.1.1.1").unwrap().requests, (1, 31 + 61 * SEC));
}

#[test]
fn an_address_gets_its_ids_of_a_day() {
    let mut server = server();
    let mut now = 0;
    assert!(server.check_ip_blocker("1.1.1.1", "unnoted", now));
    assert_eq!(server.ip_blocker.get("1.1.1.1").unwrap().ids.len(), 0);
    for i in 0..301 {
        now += 61 * SEC;
        assert!(server.check_ip_blocker("1.1.1.1", &format!("id-{i}"), now), "{i}");
    }
    assert_eq!(server.ip_blocker.get("1.1.1.1").unwrap().ids.len(), 301);
    now += 61 * SEC;
    assert!(!server.check_ip_blocker("1.1.1.1", "one-more", now));
    now += 61 * SEC;
    assert!(server.check_ip_blocker("1.1.1.1", "id-7", now));
    // a day without a use of the set starts anew; an id that was in it is not put back
    let used = server.ip_blocker.get("1.1.1.1").unwrap().ids_time;
    now = used + 86_401 * SEC;
    assert!(server.check_ip_blocker("1.1.1.1", "id-7", now));
    assert_eq!(server.ip_blocker.get("1.1.1.1").unwrap().ids.len(), 0);
    now += 61 * SEC;
    assert!(server.check_ip_blocker("1.1.1.1", "one-more", now));
    assert_eq!(server.ip_blocker.get("1.1.1.1").unwrap().ids.len(), 1);
}

#[test]
fn registrations_need_a_long_id() {
    let mut server = server();
    assert_eq!(
        server.admit_register_pk("12345", "1.1.1.1", 0),
        Err(RegisterPkResult::UuidMismatch),
    );
    assert!(server.ip_blocker.get("1.1.1.1").is_none());
    assert_eq!(server.admit_register_pk("123456", "1.1.1.1", 0), Ok(()));
    // the length is in bytes
    assert_eq!(server.admit_register_pk("\u{e9}\u{e9}\u{e9}", "1.1.1.1", 0), Ok(()));
    assert!(server.ip_blocker.get("1.1.1.1").is_some());
}

#[test]
fn registrations_are_limited_by_address() {
    let mut server = server();
    for _ in 0..32 {
        assert_eq!(server.admit_register_pk("123456", "1.1.1.1", 0), Ok(()));
    }
    assert_eq!(
        server.admit_register_pk("123456", "1.1.1.1", 0),
        Err(RegisterPkResult::TooFrequent),
    );
}

#[test]
fn a_check_of_an_id_needs_its_form() {
    let mut server = server();
    assert_eq!(
        server.admit_change_id("!", false, "1.1.1.1", 0),
        Err(RegisterPkResult::InvalidIdFormat),
    );
    assert!(server.ip_blocker.get("1.1.1.1").is_none());
    for _ in 0..32 {
        assert_eq!(server.admit_change_id("abcdef", true, "1.1.1.1", 0), Ok(()));
    }
    assert_eq!(
        server.admit_change_id("abcdef", true, "1.1.1.1", 0),
        Err(RegisterPkResult::TooFrequent),
    );
}

#[test]
fn an_id_is_free_for_its_own_machine() {
    let uuid = vec![1, 2, 3];
    let free = RendezvousServer::validate_change_id(&uuid, None);
    assert_eq!(free, RegisterPkResult::Accepted);
    let unbound = peer(&[], &[9], "1.1.1.1");
    let free = RendezvousServer::validate_change_id(&uuid, Some(&unbound));
    assert_eq!(free, RegisterPkResult::Accepted);
    let own = peer(&[1, 2, 3], &[9], "1.1.1.1");
    let free = RendezvousServer::validate_change_id(&uuid, Some(&own));
    assert_eq!(free, RegisterPkResult::Accepted);
    let other = peer(&[1, 2, 4], &[9], "1.1.1.1");
    let taken = RendezvousServer::validate_change_id(&uuid, Some(&other));
    assert_eq!(taken, RegisterPkResult::IdExists);
}

#[test]
fn a_new_peer_registers() {
    let mut server = server();
    let mut peer = peer(&[], &[], "");
    let r = server.validate_register_pk(
        "123456",
        &vec![1],
        &vec![2],
        &"1.1.1.1".to_owned(),
        &mut peer,
        7,
    );
    assert_eq!(r, Ok((true, false)));
    assert_eq!(peer.reg_pk, (1, 7));
    assert!(server.ip_changes.get("123456").is_none());
}

#[test]
fn a_known_peer_registers() {
    let cases: [(&[u8], &[u8], &str, Result<(bool, bool), RegisterPkResult>); 5] = [
        (&[1], &[2], "1.1.1.1", Ok((false, false))),
        (&[1], &[3], "1.1.1.1", Ok((true, false))),
        (&[1], &[2], "2.2.2.2", Ok((true, true))),
        (&[1], &[3], "2.2.2.2", Err(RegisterPkResult::UuidMismatch)),
        (&[9], &[2], "1.1.1.1", Err(RegisterPkResult::UuidMismatch)),
    ];
    for (uuid, pk, ip, expected) in cases {
        let mut server = server();
        let mut peer = peer(&[1], &[2], "1.1.1.1");
        let r = server.validate_register_pk(
            "123456",
            &uuid.to_vec(),
            &pk.to_vec(),
            &ip.to_owned(),
            &mut peer,
            7,
        );
        assert_eq!(r, expected);
        assert_eq!(peer.reg_pk, if r.is_ok() { (1, 7) } else { (0, 0) });
        assert_eq!(server.ip_changes.get("123456").is_some(), r == Ok((true, true)));
    }
}

#[test]
fn a_peer_registers_three_times_in_a_row() {
    let mut server = server();
    let mut peer = peer(&[1], &[2], "1.1.1.1");
    let ip = "1.1.1.1".to_owned();
    for now in [100, 101, 102] {
        let r = server.validate_register_pk("123456", &vec![1], &vec![2], &ip, &mut peer, now);
        assert_eq!(r, Ok((false, false)));
    }
    for now in [103, 102 + 7 * SEC - 1] {
        let r = server.validate_register_pk("123456", &vec![1], &vec![2], &ip, &mut peer, now);
        assert_eq!(r, Err(RegisterPkResult::TooFrequent));
        assert_eq!(peer.reg_pk, (3, 102));
    }
    let now = 102 + 7 * SEC;
    let r = server.validate_register_pk("123456", &vec![1], &vec![2], &ip, &mut peer, now);
    assert_eq!(r, Ok((false, false)));
    assert_eq!(peer.reg_pk, (1, now));
}

#[test]
fn moves_are_counted() {
    let mut server = server();
    let mut at = |server: &mut RendezvousServer, ip: &str, now: u64| {
        let mut peer = peer(&[1], &[2], "1.1.1.1");
        assert!(server.can_count_ip_change("123456", ip, now));
        let r = server.validate_register_pk(
            "123456",
            &vec![1],
            &vec![2],
            &ip.to_owned(),
            &mut peer,
            now,
        );
        assert_eq!(r, Ok((true, true)));
    };
    at(&mut server, "2.2.2.2", 5);
    at(&mut server, "2.2.2.2", 6);
    at(&mut server, "3.3.3.3", 5 + 180 * SEC);
    let change = server.ip_changes.get("123456").unwrap();
    assert_eq!(change.since, 5);
    assert_eq!(change.ips.get("2.2.2.2"), Some(&2));
    assert_eq!(change.ips.get("3.3.3.3"), Some(&1));
    at(&mut server, "2.2.2.2", 5 + 181 * SEC);
    let change = server.ip_changes.get("123456").unwrap();
    assert_eq!(change.since, 5 + 181 * SEC);
    assert_eq!(change.ips.len(), 1);
    assert_eq!(change.ips.get("2.2.2.2"), Some(&1));
}

#[test]
fn counts_of_moves_have_a_limit() {
    let mut server = server();
    let mut mover = peer(&[1], &[2], "1.1.1.1");
    let ip = "2.2.2.2".to_owned();
    let r = server.validate_register_pk("123456", &vec![1], &vec![2], &ip, &mut mover, 0);
    assert_eq!(r, Ok((true, true)));
    server.ip_changes.get_mut("123456").unwrap().ips.insert(ip.clone(), u32::MAX);
    assert!(!server.can_count_ip_change("123456", "2.2.2.2", 1));
    assert!(server.can_count_ip_change("123456", "3.3.3.3", 1));
    assert!(server.can_count_ip_change("654321", "2.2.2.2", 1));
    assert!(server.can_count_ip_change("123456", "2.2.2.2", 181 * SEC));
}

#[test]
fn a_full_count_matters_only_to_accepted_moves() {
    let mut server = server();
    let (uuid, pk) = (vec![1], vec![2]);
    let ip = "2.2.2.2".to_owned();
    let mut mover = peer(&[1], &[2], "1.1.1.1");
    let r = server.validate_register_pk("123456", &uuid, &pk, &ip, &mut mover, 0);
    assert_eq!(r, Ok((true, true)));
    server.ip_changes.get_mut("123456").unwrap().ips.insert(ip.clone(), u32::MAX);
    let can = |mover: &Peer, uuid: &Vec<u8>, pk: &Vec<u8>, ip: &String| {
        server.can_register("123456", uuid, pk, ip, mover, 1)
    };
    assert!(!can(&mover, &uuid, &pk, &ip));
    assert!(can(&mover, &uuid, &pk, &"1.1.1.1".to_owned()));
    assert!(can(&mover, &uuid, &vec![3], &ip));
    assert!(can(&mover, &vec![9], &pk, &ip));
    assert!(can(&peer(&[], &[], ""), &uuid, &pk, &ip));
    // one that comes too often is refused before it is counted
    mover.reg_pk = (3, 0);
    assert!(can(&mover, &uuid, &pk, &ip));
    let r = server.validate_register_pk("123456", &uuid, &pk, &ip, &mut mover, 1);
    assert_eq!(r, Err(RegisterPkResult::TooFrequent));
}

#[test]
fn bursts_are_measured_from_the_last_that_passed() {
    let mut server = server();
    let mut record = peer(&[1], &[2], "1.1.1.1");
    let ip = "1.1.1.1".to_owned();
    let mut at = |now: u64| {
        server.validate_register_pk("123456", &vec![1], &vec![2], &ip, &mut record, now * SEC)
    };
    for now in [100, 106, 112] {
        assert_eq!(at(now), Ok((false, false)));
    }
    // each refused, none extends the wait
    for now in [113, 115, 118] {
        assert_eq!(at(now), Err(RegisterPkResult::TooFrequent));
    }
    assert_eq!(at(119), Ok((false, false)));
}

#[test]
fn address_bursts_are_measured_from_the_last_that_passed() {
    let mut server = server();
    let mut at = |now: u64| server.check_ip_blocker("1.1.1.1", "some-id", now * SEC);
    for i in 0..32 {
        assert!(at(60 * i), "{i}");
    }
    assert!(!at(60 * 31 + 1));
    assert!(!at(60 * 31 + 60));
    // after a pause one fewer passes in a row, as the first is counted too
    let again = 60 * 31 + 61;
    for i in 0..31 {
        assert!(at(again + 60 * i), "{i}");
    }
    assert!(!at(again + 60 * 31));
}

#[test]
fn responses_carry_the_result() {
    let results = [
        RegisterPkResult::Accepted,
        RegisterPkResult::UuidMismatch,
        RegisterPkResult::IdExists,
        RegisterPkResult::TooFrequent,
        RegisterPkResult::InvalidIdFormat,
    ];
    for result in results {
        let message = RendezvousServer::make_register_pk_response(result);
        assert!(matches!(message.union, Some(Union::RegisterPkResponse { result: r }) if r == result));
    }
}

#[test]
fn a_peer_is_heard() {
    let mut peer = peer(&[1], &[2], "1.1.1.1");
    let addr = Addr::V4 { ip: 5, port: 6 };
    peer.hear(Remote { addr, key: addr }, 77);
    assert_eq!(peer.socket_addr.addr, addr);
    assert_eq!(peer.last_reg_time, 77);
    // a heartbeat leaves the address as it is
    peer.refresh(99);
    assert_eq!(peer.socket_addr.addr, addr);
    assert_eq!(peer.last_reg_time, 99);
}
