//! What holds of times, addresses, texts and headers.
use vstd::prelude::*;
use vstd::utf8::{encode_utf8, valid_utf8};

use crate::addr::{Addr, Ip, Remote};
use crate::network::{network_of, Ipv4Net};
use crate::peer::PeerView;
use crate::proxy::{header_text, ProxyHeaders};
use crate::text::{
    decimal, decimal_text, digit, is_digit, is_white, lemma_position, pieces, port_of, position,
    text_of, trim_end, trim_start, trimmed, unsigned_digits, until,
};
use crate::time::{elapsed_millis, elapsed_secs};

verus! {

/// More than a number of seconds have gone by once the next second is complete, in
/// nanoseconds; before its start, none have.
pub proof fn law_elapsed_secs(since: u64, now: u64, secs: nat)
    ensures
        elapsed_secs(since, now) > secs <==> now - since >= (secs + 1) * 1_000_000_000,
        now <= since ==> elapsed_secs(since, now) == 0,
{
}

/// A number of milliseconds has gone by once that many millions of nanoseconds have;
/// before the start, none has.
pub proof fn law_elapsed_millis(since: u64, now: u64, millis: nat)
    requires
        millis > 0,
    ensures
        elapsed_millis(since, now) >= millis <==> now - since >= millis * 1_000_000,
        now <= since ==> elapsed_millis(since, now) == 0,
{
}

/// The loopback network is 127.0.0.0 to 127.255.255.255, and the one address ::1.
pub proof fn law_loopback(v4: u32, v6: u128)
    ensures
        Ip::V4(v4).is_loopback() <==> 2_130_706_432 <= v4 <= 2_147_483_647,
        Ip::V6(v6).is_loopback() <==> v6 == 1,
        Ip::V4(v4).is_unspecified() <==> v4 == 0,
        Ip::V6(v6).is_unspecified() <==> v6 == 0,
{
}

/// A socket address has the IP address and the port that it was made of.
pub proof fn law_addr_parts(v4: u32, v6: u128, port: u16, flowinfo: u32, scope_id: u32)
    ensures
        (Addr::V4 { ip: v4, port }).ip() == Ip::V4(v4),
        (Addr::V4 { ip: v4, port }).port() == port,
        (Addr::V6 { ip: v6, port, flowinfo, scope_id }).ip() == Ip::V6(v6),
        (Addr::V6 { ip: v6, port, flowinfo, scope_id }).port() == port,
{
}

/// A peer that was heard is known at the remote end that it was heard from, and since
/// then; one that is refreshed stays where it was. Neither changes whose the id is, nor
/// what was registered for it.
pub proof fn law_peer_heard(peer: PeerView, remote: Remote, now: u64)
    ensures
        peer.heard(remote, now).socket_addr == remote,
        peer.heard(remote, now).socket_addr.key == remote.key,
        peer.heard(remote, now).last_reg_time == now,
        peer.refreshed(now).socket_addr == peer.socket_addr,
        peer.refreshed(now).last_reg_time == now,
        peer.heard(remote, now).uuid == peer.uuid && peer.refreshed(now).uuid == peer.uuid,
        peer.heard(remote, now).pk == peer.pk && peer.refreshed(now).pk == peer.pk,
        peer.heard(remote, now).ip == peer.ip && peer.refreshed(now).ip == peer.ip,
        peer.heard(remote, now).reg_pk == peer.reg_pk,
        peer.refreshed(now).reg_pk == peer.reg_pk,
{
}

/// The mask has the address and the prefix that were read, and there is none where
/// nothing was.
pub proof fn law_network(ip: u32, prefix: u8)
    ensures
        network_of(Some((ip, prefix))) == Some(Ipv4Net { ip, prefix }),
        network_of(None) is None,
{
}

/// All characters of the text are white space.
pub open spec fn all_white(text: Seq<char>) -> bool {
    forall|i: int| 0 <= i < text.len() ==> is_white(#[trigger] text[i])
}

/// The text begins and ends with a character that is not white space.
pub open spec fn is_core(text: Seq<char>) -> bool {
    text.len() > 0 && !is_white(text[0]) && !is_white(text.last())
}

/// White space by its code points.
pub proof fn law_white(c: char)
    ensures
        is_white(c) <==> seq![
            9u32,
            10,
            11,
            12,
            13,
            32,
            133,
            160,
            5760,
            8192,
            8193,
            8194,
            8195,
            8196,
            8197,
            8198,
            8199,
            8200,
            8201,
            8202,
            8232,
            8233,
            8239,
            8287,
            12288,
        ].contains(c as u32),
{
    let codes = seq![
        9u32,
        10,
        11,
        12,
        13,
        32,
        133,
        160,
        5760,
        8192,
        8193,
        8194,
        8195,
        8196,
        8197,
        8198,
        8199,
        8200,
        8201,
        8202,
        8232,
        8233,
        8239,
        8287,
        12288,
    ];
    if is_white(c) {
        let n = c as u32;
        let i: int = if 9 <= n <= 13 {
            n - 9
        } else if n == 32 {
            5
        } else if n == 133 {
            6
        } else if n == 160 {
            7
        } else if n == 5760 {
            8
        } else if 8192 <= n <= 8202 {
            n - 8192 + 9
        } else if n == 8232 {
            20
        } else if n == 8233 {
            21
        } else if n == 8239 {
            22
        } else if n == 8287 {
            23
        } else {
            24
        };
        assert(codes[i] == n);
    }
    if codes.contains(c as u32) {
        let i = codes.index_of(c as u32);
        assert(codes[i] == c as u32);
    }
}

proof fn lemma_trim_start(lead: Seq<char>, rest: Seq<char>)
    requires
        all_white(lead),
        rest.len() > 0 ==> !is_white(rest[0]),
    ensures
        trim_start(lead + rest) == rest,
    decreases lead.len(),
{
    if lead.len() == 0 {
        assert(lead + rest =~= rest);
    } else {
        assert(is_white(lead[0]));
        assert((lead + rest).drop_first() =~= lead.drop_first() + rest);
        assert forall|i: int| 0 <= i < lead.drop_first().len() implies is_white(
            #[trigger] lead.drop_first()[i],
        ) by {
            assert(is_white(lead[i + 1]));
        }
        lemma_trim_start(lead.drop_first(), rest);
    }
}

proof fn lemma_trim_end(rest: Seq<char>, tail: Seq<char>)
    requires
        all_white(tail),
        rest.len() > 0 ==> !is_white(rest.last()),
    ensures
        trim_end(rest + tail) == rest,
    decreases tail.len(),
{
    if tail.len() == 0 {
        assert(rest + tail =~= rest);
    } else {
        assert(is_white(tail[tail.len() - 1]));
        assert((rest + tail).drop_last() =~= rest + tail.drop_last());
        assert forall|i: int| 0 <= i < tail.drop_last().len() implies is_white(
            #[trigger] tail.drop_last()[i],
        ) by {
            assert(is_white(tail[i]));
        }
        lemma_trim_end(rest, tail.drop_last());
    }
}

/// Trimming takes away the white space around a text, and nothing else.
pub proof fn law_trimmed(lead: Seq<char>, core: Seq<char>, tail: Seq<char>)
    requires
        all_white(lead),
        is_core(core),
        all_white(tail),
    ensures
        trimmed(lead + core + tail) == core,
        trimmed(lead) == Seq::<char>::empty(),
{
    assert(lead + core + tail =~= lead + (core + tail));
    lemma_trim_start(lead, core + tail);
    lemma_trim_end(core, tail);
    assert(lead + Seq::<char>::empty() =~= lead);
    lemma_trim_start(lead, Seq::empty());
}

/// A text up to a character is what stands before its first occurrence, or all of it
/// where there is none; the pieces between the occurrences are what stands before the
/// first, and the pieces of what stands behind it.
pub proof fn law_pieces(before: Seq<char>, c: char, behind: Seq<char>)
    requires
        !before.contains(c),
    ensures
        until(before, c) == before,
        until(before + seq![c] + behind, c) == before,
        pieces(before, c) == seq![before],
        pieces(before + seq![c] + behind, c) == seq![before] + pieces(behind, c),
{
    let all = before + seq![c] + behind;
    lemma_position(before, c);
    lemma_position(all, c);
    let n = before.len() as int;
    if position(before, c) < n {
        assert(before[position(before, c) as int] == c);
        assert(before.contains(c));
    }
    assert(until(before, c) =~= before);
    assert(all[n] == c);
    if position(all, c) < n {
        assert(before[position(all, c) as int] == c);
        assert(before.contains(c));
    }
    assert(position(all, c) == n);
    assert(until(all, c) =~= before);
    assert(all.skip(n + 1) =~= behind);
}

/// Decimal digits count by their places.
pub proof fn law_decimal(digits: Seq<char>, n: nat)
    requires
        n < 10,
    ensures
        decimal(Seq::empty()) == 0,
        decimal(digits.push(digit(n))) == 10 * decimal(digits) + n,
        digit(n) as u32 == 48 + n,
        is_digit(digit(n)),
{
    assert(digits.push(digit(n)).drop_last() =~= digits);
}

/// A number is written without zeros before it.
pub proof fn law_decimal_text(n: nat)
    ensures
        decimal_text(n).len() > 0,
        decimal_text(n)[0] == '0' ==> n == 0 && decimal_text(n).len() == 1,
        decimal(decimal_text(n)) == n,
    decreases n,
{
    let text = decimal_text(n);
    if n < 10 {
        assert(text.drop_last() =~= Seq::empty());
        assert(decimal(text.drop_last()) == 0);
    } else {
        law_decimal_text(n / 10);
        assert(text.drop_last() =~= decimal_text(n / 10));
        assert(text[0] == decimal_text(n / 10)[0]);
    }
}

/// A port is spelled by decimal digits for a number of 16 bits, with a plus sign before
/// them or not; by nothing else.
pub proof fn law_port(digits: Seq<char>, other: Seq<char>, at: int)
    requires
        digits.len() > 0,
        forall|i: int| 0 <= i < digits.len() ==> '0' <= #[trigger] digits[i] <= '9',
        0 <= at < other.len(),
        !('0' <= other[at] <= '9'),
        at == 0 ==> other[0] != '+',
    ensures
        port_of(digits) == (if decimal(digits) <= 65_535 {
            Some(decimal(digits) as u16)
        } else {
            None
        }),
        port_of(seq!['+'] + digits) == port_of(digits),
        port_of(other) is None,
        port_of(Seq::empty()) is None,
        port_of(seq!['+']) is None,
{
    assert(digits[0] != '+');
    assert(unsigned_digits(digits) == digits);
    assert((seq!['+'] + digits).drop_first() =~= digits);
    assert(unsigned_digits(seq!['+'] + digits) == digits);
    let rest = unsigned_digits(other);
    if other[0] == '+' {
        assert(rest[at - 1] == other[at]);
        assert(!is_digit(rest[at - 1]));
    } else {
        assert(!is_digit(rest[at]));
    }
    assert(seq!['+'].drop_first().len() == 0);
}

/// The bytes that encode a text are read as that text, and others as none.
pub proof fn law_text_of(text: Seq<char>, bytes: Seq<u8>)
    ensures
        text_of(encode_utf8(text)) == Some(text),
        !valid_utf8(bytes) ==> text_of(bytes) is None,
        text_of(bytes) matches Some(read) ==> encode_utf8(read) == bytes,
{
    if valid_utf8(bytes) {
        vstd::utf8::decode_utf8_encode_utf8(bytes);
    }
    vstd::utf8::encode_utf8_valid_utf8(text);
    vstd::utf8::encode_utf8_decode_utf8(text);
}

/// A header value of visible ASCII, spaces and tabs is the text of these characters; one
/// with any other byte is none.
pub proof fn law_header_text(bytes: Seq<u8>, other: Seq<u8>, at: int)
    requires
        forall|i: int|
            0 <= i < bytes.len() ==> (32 <= #[trigger] bytes[i] <= 126 || bytes[i] == 9),
        0 <= at < other.len(),
        other[at] != 9,
        other[at] < 32 || other[at] > 126,
    ensures
        header_text(bytes) matches Some(text) && text.len() == bytes.len() && forall|i: int|
            0 <= i < bytes.len() ==> #[trigger] text[i] as u32 == bytes[i],
        header_text(other) is None,
{
    if header_text(other) is Some {
        assert(crate::proxy::is_visible(other[at]));
    }
    assert forall|i: int| 0 <= i < bytes.len() implies crate::proxy::is_visible(
        #[trigger] bytes[i],
    ) by {}
}

/// `X-Real-IP` is reported where it is there, whatever `X-Forwarded-For` says; otherwise
/// `X-Forwarded-For` is.
pub proof fn law_reported(value: Vec<u8>, hidden: Option<Vec<u8>>)
    ensures
        (ProxyHeaders { real_ip: Some(value), forwarded_for: hidden }).reported() == header_text(
            value@,
        ),
        (ProxyHeaders { real_ip: None, forwarded_for: Some(value) }).reported() == header_text(
            value@,
        ),
        (ProxyHeaders { real_ip: None, forwarded_for: None }).reported() is None,
{
}

/// The client is what the headers report up to the first comma, without the white space
/// around it; where that is all white space, no client is named.
pub proof fn law_first_entry(
    headers: ProxyHeaders,
    lead: Seq<char>,
    entry: Seq<char>,
    tail: Seq<char>,
    rest: Seq<char>,
)
    requires
        all_white(lead),
        is_core(entry),
        all_white(tail),
        !entry.contains(','),
    ensures
        headers.reported() == Some(lead + entry + tail) ==> headers.first_entry() == Some(entry),
        headers.reported() == Some(lead + entry + tail + seq![','] + rest)
            ==> headers.first_entry() == Some(entry),
        headers.reported() == Some(lead) ==> headers.first_entry() is None,
        headers.reported() == Some(lead + seq![','] + rest) ==> headers.first_entry() is None,
        headers.reported() is None ==> headers.first_entry() is None,
{
    let whole = lead + entry + tail;
    assert(!lead.contains(',')) by {
        if lead.contains(',') {
            let i = lead.index_of(',');
            assert(is_white(lead[i]));
        }
    }
    assert(!whole.contains(',')) by {
        if whole.contains(',') {
            let i = whole.index_of(',');
            if i < lead.len() {
                assert(is_white(lead[i]));
            } else if i < lead.len() + entry.len() {
                assert(entry[i - lead.len()] == ',');
            } else {
                assert(is_white(tail[i - lead.len() - entry.len()]));
            }
        }
    }
    law_pieces(whole, ',', rest);
    law_pieces(lead, ',', rest);
    law_trimmed(lead, entry, tail);
}

/// A relay takes what the headers report with port zero: an address with a dot as it is,
/// another one in brackets.
pub proof fn law_claimed(headers: ProxyHeaders, ip: Seq<char>)
    requires
        headers.reported() == Some(ip),
    ensures
        ({
            let n = ip.len() as int;
            &&& headers.claimed() matches Some(text)
            &&& ip.contains('.') ==> text.len() == n + 2 && text.take(n) == ip && text[n] == ':'
                && text[n + 1] == '0'
            &&& !ip.contains('.') ==> text.len() == n + 4 && text[0] == '[' && text.subrange(
                1,
                n + 1,
            ) == ip && text[n + 1] == ']' && text[n + 2] == ':' && text[n + 3] == '0'
        }),
{
    let n = ip.len() as int;
    let text = headers.claimed()->0;
    if ip.contains('.') {
        assert(text.take(n) =~= ip);
    } else {
        assert(text.subrange(1, n + 1) =~= ip);
    }
}

/// Headers that report nothing claim no address.
pub proof fn law_nothing_claimed(headers: ProxyHeaders)
    requires
        headers.reported() is None,
    ensures
        headers.claimed() is None,
        headers.first_entry() is None,
{
}

} // verus!
