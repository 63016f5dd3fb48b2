use rendezvous::network::parse_mask;
use rendezvous::proxy::ProxyHeaders;
use rendezvous::text::{command_text, has_char, parse_port};
use rendezvous::time::{millis_since, secs_since};

fn headers(real_ip: Option<&str>, forwarded_for: Option<&str>) -> ProxyHeaders {
    ProxyHeaders {
        real_ip: real_ip.map(|s| s.as_bytes().to_vec()),
        forwarded_for: forwarded_for.map(|s| s.as_bytes().to_vec()),
    }
}

#[test]
fn ports_are_read_as_std_reads_them() {
    let texts = [
        "", "+", "-", "0", "00", "21117", "+21117", "65535", "65536", "065535", "99999", "-1",
        "-0", " 80", "80 ", "8 0", "8o", "++1", "1+", "4294967296", "99999999999999999999",
        "\u{661}",
    ];
    for text in texts {
        assert_eq!(parse_port(text), text.parse::<u16>().ok(), "{text:?}");
    }
}

#[test]
fn every_port_reads_back() {
    let mut port: u32 = 0;
    while port <= 0xffff {
        assert_eq!(parse_port(&port.to_string()), Some(port as u16));
        port += 7;
    }
    assert_eq!(parse_port("65535"), Some(65535));
}

#[test]
fn characters_are_found() {
    assert!(has_char("10.0.0.1", '.'));
    assert!(!has_char("fe80::1", '.'));
    assert!(!has_char("", '.'));
}

#[test]
fn commands_are_utf8() {
    assert_eq!(command_text(b"relay-servers\n"), Some("relay-servers\n"));
    assert_eq!(command_text("h\u{e9}".as_bytes()), Some("h\u{e9}"));
    assert_eq!(command_text(&[]), Some(""));
    assert_eq!(command_text(&[0xff, 0x41]), None);
    assert_eq!(command_text(&[0xc3]), None);
}

#[test]
fn real_ip_comes_before_forwarded_for() {
    let both = headers(Some("1.2.3.4"), Some("5.6.7.8"));
    assert_eq!(both.forwarded_ip(), Some("1.2.3.4".to_owned()));
    assert_eq!(both.claimed_addr(), Some("1.2.3.4:0".to_owned()));
    let chain = headers(None, Some("5.6.7.8"));
    assert_eq!(chain.forwarded_ip(), Some("5.6.7.8".to_owned()));
    assert_eq!(headers(None, None).forwarded_ip(), None);
    assert_eq!(headers(None, None).claimed_addr(), None);
}

#[test]
fn first_entry_of_a_chain_is_the_client() {
    let chain = headers(None, Some("  203.0.113.9\t, 10.0.0.1,10.0.0.2"));
    assert_eq!(chain.forwarded_ip(), Some("203.0.113.9".to_owned()));
    // a relay takes the value as it is
    assert_eq!(
        chain.claimed_addr(),
        Some("  203.0.113.9\t, 10.0.0.1,10.0.0.2:0".to_owned()),
    );
}

#[test]
fn empty_entries_report_nothing() {
    assert_eq!(headers(Some(""), None).forwarded_ip(), None);
    assert_eq!(headers(Some("  , 1.2.3.4"), None).forwarded_ip(), None);
    // an empty X-Real-IP hides X-Forwarded-For
    assert_eq!(headers(Some(""), Some("1.2.3.4")).forwarded_ip(), None);
}

#[test]
fn values_that_are_no_text_report_nothing() {
    let bytes = ProxyHeaders { real_ip: Some(vec![0x31, 0xe9]), forwarded_for: None };
    assert_eq!(bytes.forwarded_ip(), None);
    assert_eq!(bytes.claimed_addr(), None);
    let hidden = ProxyHeaders { real_ip: Some(vec![0x7f]), forwarded_for: Some(b"1.2.3.4".to_vec()) };
    assert_eq!(hidden.forwarded_ip(), None);
    // what is no address is still a text
    assert_eq!(headers(Some("unknown"), None).forwarded_ip(), Some("unknown".to_owned()));
}

#[test]
fn addresses_without_a_dot_are_bracketed() {
    let v6 = headers(Some("2001:db8::1"), None);
    assert_eq!(v6.claimed_addr(), Some("[2001:db8::1]:0".to_owned()));
}

#[test]
fn masks_are_networks() {
    let mask = parse_mask("192.168.0.0/16").unwrap();
    assert_eq!(mask.ip, 0xc0a8_0000);
    assert_eq!(mask.prefix, 16);
    let host = parse_mask("10.0.0.1").unwrap();
    assert_eq!((host.ip, host.prefix), (0x0a00_0001, 32));
    assert!(parse_mask("").is_none());
    assert!(parse_mask("10.0.0.0/33").is_none());
    assert!(parse_mask("fe80::/10").is_none());
}

#[test]
fn time_does_not_run_backwards() {
    assert_eq!(secs_since(5, 3), 0);
    assert_eq!(secs_since(1, 2_000_000_000), 1);
    assert_eq!(secs_since(0, 2_000_000_000), 2);
    assert_eq!(millis_since(0, 29_999_999_999), 29_999);
    assert_eq!(millis_since(7, 1), 0);
}
