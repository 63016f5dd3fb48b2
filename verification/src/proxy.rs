//! What a reverse proxy reports of the remote end, in the headers `X-Real-IP` and
//! `X-Forwarded-For`.
//!
//! The headers are taken at their word. Whoever reaches the port of the web sockets
//! without a proxy can claim any address.
use vstd::prelude::*;
use vstd::utf8::{decode_utf8, encode_utf8, is_ascii_chars, valid_utf8};

use crate::text::{chars_of, find_char, has_char, part, trim_bounds, trimmed, until, utf8_text};

verus! {

/// A byte that a header value may hold as text: visible ASCII, a space or a tab.
pub open spec fn is_visible(byte: u8) -> bool {
    32 <= byte < 127 || byte == 9
}

/// The text of a header value; none where a byte of it is not visible.
pub open spec fn header_text(bytes: Seq<u8>) -> Option<Seq<char>> {
    if forall|i: int| 0 <= i < bytes.len() ==> is_visible(#[trigger] bytes[i]) {
        Some(Seq::new(bytes.len(), |i: int| bytes[i] as char))
    } else {
        None
    }
}

proof fn lemma_header_utf8(bytes: Seq<u8>)
    requires
        header_text(bytes) is Some,
    ensures
        valid_utf8(bytes),
        decode_utf8(bytes) == header_text(bytes)->0,
{
    let chars = header_text(bytes)->0;
    assert(is_ascii_chars(chars));
    vstd::utf8::is_ascii_chars_encode_utf8(chars);
    assert(encode_utf8(chars) =~= bytes);
    vstd::utf8::encode_utf8_valid_utf8(chars);
    vstd::utf8::encode_utf8_decode_utf8(chars);
}

/// The text of a header value.
fn header_str(bytes: &Vec<u8>) -> (text: Option<&str>)
    ensures
        match text {
            Some(text) => header_text(bytes@) == Some(text@),
            None => header_text(bytes@) is None,
        },
{
    let mut i: usize = 0;
    while i < bytes.len()
        invariant
            i <= bytes.len(),
            forall|j: int| 0 <= j < i ==> is_visible(#[trigger] bytes@[j]),
        decreases bytes.len() - i,
    {
        let byte: u8 = bytes[i];
        if !((32 <= byte && byte < 127) || byte == 9) {
            assert(!is_visible(bytes@[i as int]));
            return None;
        }
        i = i + 1;
    }
    proof { lemma_header_utf8(bytes@); }
    utf8_text(bytes.as_slice())
}

/// The headers in which a proxy reports the remote end, as bytes.
pub struct ProxyHeaders {
    pub real_ip: Option<Vec<u8>>,
    pub forwarded_for: Option<Vec<u8>>,
}

impl ProxyHeaders {
    /// What the headers report: `X-Real-IP`, or where that is missing
    /// `X-Forwarded-For`. A value that is no text reports nothing.
    pub open spec fn reported(&self) -> Option<Seq<char>> {
        match (self.real_ip, self.forwarded_for) {
            (Some(value), _) => header_text(value@),
            (None, Some(value)) => header_text(value@),
            (None, None) => None,
        }
    }

    fn report(&self) -> (text: Option<&str>)
        ensures
            match text {
                Some(text) => self.reported() == Some(text@),
                None => self.reported() is None,
            },
    {
        match &self.real_ip {
            Some(value) => header_str(value),
            None => match &self.forwarded_for {
                Some(value) => header_str(value),
                None => None,
            },
        }
    }

    /// The remote end that the headers name: the first entry of what they report,
    /// without the white space around it.
    pub open spec fn first_entry(&self) -> Option<Seq<char>> {
        match self.reported() {
            Some(text) if trimmed(until(text, ',')).len() > 0 => Some(trimmed(until(text, ','))),
            _ => None,
        }
    }

    /// The IP address of the remote end of a rendezvous connection. What is reported can
    /// be a chain of addresses, of which the first is the client's.
    pub fn forwarded_ip(&self) -> (ip: Option<String>)
        ensures
            match ip {
                Some(ip) => self.first_entry() == Some(ip@),
                None => self.first_entry() is None,
            },
    {
        match self.report() {
            Some(text) => {
                let chars = chars_of(text);
                let comma = find_char(&chars, 0, chars.len(), ',');
                let bounds = trim_bounds(&chars, 0, comma);
                proof {
                    assert(chars@.subrange(0, chars.len() as int) =~= text@);
                    assert(chars@.subrange(0, comma as int) =~= until(text@, ','));
                }
                if bounds.0 == bounds.1 {
                    None
                } else {
                    Some(part(text, bounds.0, bounds.1))
                }
            },
            None => None,
        }
    }

    /// The socket address, as text, that the headers claim for the remote end of a relay
    /// connection: the reported address with port zero.
    pub open spec fn claimed(&self) -> Option<Seq<char>> {
        match self.reported() {
            Some(text) => Some(
                if text.contains('.') {
                    text + seq![':', '0']
                } else {
                    seq!['['] + text + seq![']', ':', '0']
                },
            ),
            None => None,
        }
    }

    /// The socket address, as text, that the headers claim for the remote end of a relay
    /// connection; none where they report nothing.
    pub fn claimed_addr(&self) -> (text: Option<String>)
        ensures
            match text {
                Some(text) => self.claimed() == Some(text@),
                None => self.claimed() is None,
            },
    {
        match self.report() {
            Some(ip) => {
                proof {
                    reveal_strlit(":0");
                    reveal_strlit("[");
                    reveal_strlit("]:0");
                    assert(":0"@ =~= seq![':', '0']);
                    assert("["@ =~= seq!['[']);
                    assert("]:0"@ =~= seq![']', ':', '0']);
                }
                if has_char(ip, '.') {
                    Some(ip.to_owned().concat(":0"))
                } else {
                    Some("[".to_owned().concat(ip).concat("]:0"))
                }
            },
            None => None,
        }
    }
}

} // verus!
