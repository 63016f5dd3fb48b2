//! Texts: pieces, surrounding white space, numbers.
use vstd::prelude::*;
use vstd::utf8::{decode_utf8, valid_utf8};

verus! {

/// Calls `std::str::from_utf8`.
///
/// Claims that bytes which are valid UTF-8 give the text that they encode, and others
/// give none.
#[verifier::external_body]
pub(crate) fn utf8_text(bytes: &[u8]) -> (text: Option<&str>)
    ensures
        match text {
            Some(text) => valid_utf8(bytes@) && text@ == decode_utf8(bytes@),
            None => !valid_utf8(bytes@),
        },
{
    std::str::from_utf8(bytes).ok()
}

/// The text that bytes spell in UTF-8.
pub open spec fn text_of(bytes: Seq<u8>) -> Option<Seq<char>> {
    if valid_utf8(bytes) {
        Some(decode_utf8(bytes))
    } else {
        None
    }
}

/// The text of a command that came in as bytes; bytes that spell none are dropped.
pub fn command_text(bytes: &[u8]) -> (text: Option<&str>)
    ensures
        match text {
            Some(text) => text_of(bytes@) == Some(text@),
            None => text_of(bytes@) is None,
        },
{
    utf8_text(bytes)
}

/// The code points with the Unicode property `White_Space`.
pub open spec fn is_white(c: char) -> bool {
    ||| '\u{9}' <= c <= '\u{d}'
    ||| c == ' '
    ||| c == '\u{85}'
    ||| c == '\u{a0}'
    ||| c == '\u{1680}'
    ||| '\u{2000}' <= c <= '\u{200a}'
    ||| c == '\u{2028}'
    ||| c == '\u{2029}'
    ||| c == '\u{202f}'
    ||| c == '\u{205f}'
    ||| c == '\u{3000}'
}

/// The text without the white space at its start.
pub open spec fn trim_start(text: Seq<char>) -> Seq<char>
    decreases text.len(),
{
    if text.len() > 0 && is_white(text[0]) {
        trim_start(text.drop_first())
    } else {
        text
    }
}

/// The text without the white space at its end.
pub open spec fn trim_end(text: Seq<char>) -> Seq<char>
    decreases text.len(),
{
    if text.len() > 0 && is_white(text.last()) {
        trim_end(text.drop_last())
    } else {
        text
    }
}

/// The text without the white space around it.
pub open spec fn trimmed(text: Seq<char>) -> Seq<char> {
    trim_end(trim_start(text))
}

/// Where `c` first occurs in the text; the end of the text where it does not.
pub open spec fn position(text: Seq<char>, c: char) -> nat
    decreases text.len(),
{
    if text.len() == 0 || text[0] == c {
        0
    } else {
        1 + position(text.drop_first(), c)
    }
}

/// The text up to the first `c`.
pub open spec fn until(text: Seq<char>, c: char) -> Seq<char> {
    text.take(position(text, c) as int)
}

/// The pieces of the text between one `c` and the next.
pub open spec fn pieces(text: Seq<char>, c: char) -> Seq<Seq<char>>
    decreases text.len(),
{
    if position(text, c) >= text.len() {
        seq![text]
    } else {
        seq![until(text, c)] + pieces(text.skip(position(text, c) as int + 1), c)
    }
}

/// The position is that of the first `c`.
pub proof fn lemma_position(text: Seq<char>, c: char)
    ensures
        position(text, c) <= text.len(),
        position(text, c) < text.len() ==> text[position(text, c) as int] == c,
        forall|i: int| 0 <= i < position(text, c) ==> text[i] != c,
    decreases text.len(),
{
    if text.len() > 0 && text[0] != c {
        lemma_position(text.drop_first(), c);
        assert forall|i: int| 0 <= i < position(text, c) implies text[i] != c by {
            if i > 0 {
                assert(text[i] == text.drop_first()[i - 1]);
            }
        }
    }
}

/// The characters of a text.
pub(crate) fn chars_of(text: &str) -> (chars: Vec<char>)
    ensures
        chars@ == text@,
{
    let mut chars: Vec<char> = Vec::new();
    for c in it: text.chars()
        invariant
            chars@ =~= text@.take(it.index() as int),
            it.seq() == text@,
    {
        chars.push(c);
    }
    assert(chars@ =~= text@);
    chars
}

fn white(c: char) -> (r: bool)
    ensures
        r == is_white(c),
{
    ('\u{9}' <= c && c <= '\u{d}') || c == ' ' || c == '\u{85}' || c == '\u{a0}' || c == '\u{1680}'
        || ('\u{2000}' <= c && c <= '\u{200a}') || c == '\u{2028}' || c == '\u{2029}' || c
        == '\u{202f}' || c == '\u{205f}' || c == '\u{3000}'
}

/// Where `c` first occurs between two positions; the second where it does not.
pub(crate) fn find_char(chars: &Vec<char>, from: usize, to: usize, c: char) -> (at: usize)
    requires
        from <= to <= chars.len(),
    ensures
        from <= at <= to,
        at - from == position(chars@.subrange(from as int, to as int), c),
{
    let ghost all = chars@.subrange(from as int, to as int);
    let mut at: usize = from;
    proof { lemma_position(all, c); }
    while at < to && chars[at] != c
        invariant
            from <= at <= to <= chars.len(),
            all == chars@.subrange(from as int, to as int),
            forall|i: int| from <= i < at ==> chars[i] != c,
        decreases to - at,
    {
        at = at + 1;
    }
    proof {
        let p = position(all, c) as int;
        assert forall|i: int| 0 <= i < at - from implies all[i] != c by {
            assert(chars[from + i] != c);
        }
        if p < at - from {
            assert(all[p] == c);
        }
        if at - from < p {
            assert(all[at - from] != c);
        }
    }
    at
}

/// The bounds of what is left between two positions without the white space around it.
pub(crate) fn trim_bounds(chars: &Vec<char>, from: usize, to: usize) -> (bounds: (usize, usize))
    requires
        from <= to <= chars.len(),
    ensures
        from <= bounds.0 <= bounds.1 <= to,
        chars@.subrange(bounds.0 as int, bounds.1 as int) == trimmed(
            chars@.subrange(from as int, to as int),
        ),
{
    let ghost all = chars@.subrange(from as int, to as int);
    let mut start: usize = from;
    while start < to && white(chars[start])
        invariant
            from <= start <= to <= chars.len(),
            trim_start(chars@.subrange(start as int, to as int)) == trim_start(all),
        decreases to - start,
    {
        proof {
            let rest = chars@.subrange(start as int, to as int);
            assert(rest.drop_first() =~= chars@.subrange(start + 1, to as int));
        }
        start = start + 1;
    }
    let ghost tail = chars@.subrange(start as int, to as int);
    assert(trim_start(all) == tail);
    let mut end: usize = to;
    while end > start && white(chars[end - 1])
        invariant
            from <= start <= end <= to <= chars.len(),
            trim_end(chars@.subrange(start as int, end as int)) == trim_end(tail),
        decreases end - start,
    {
        proof {
            let rest = chars@.subrange(start as int, end as int);
            assert(rest.drop_last() =~= chars@.subrange(start as int, end - 1));
        }
        end = end - 1;
    }
    (start, end)
}

/// The part of a text between two positions.
pub(crate) fn part(text: &str, from: usize, to: usize) -> (part: String)
    requires
        from <= to <= text@.len(),
    ensures
        part@ == text@.subrange(from as int, to as int),
{
    text.substring_char(from, to).to_owned()
}

/// Whether a character occurs in a text.
pub fn has_char(text: &str, c: char) -> (has: bool)
    ensures
        has == text@.contains(c),
{
    let chars = chars_of(text);
    let at = find_char(&chars, 0, chars.len(), c);
    proof {
        assert(chars@.subrange(0, chars.len() as int) =~= text@);
        lemma_position(text@, c);
        if text@.contains(c) {
            let i = text@.index_of(c);
            assert(text@[i] == c);
        } else if at < chars.len() {
            assert(text@[at as int] == c);
        }
    }
    at < chars.len()
}

/// The digits of a decimal number.
pub open spec fn is_digit(c: char) -> bool {
    '0' <= c <= '9'
}

/// The value of a string of decimal digits.
pub open spec fn decimal(digits: Seq<char>) -> nat
    decreases digits.len(),
{
    if digits.len() == 0 {
        0
    } else {
        decimal(digits.drop_last()) * 10 + (digits.last() as nat - '0' as nat) as nat
    }
}

/// The digits of a number that may have a sign before it.
pub open spec fn unsigned_digits(text: Seq<char>) -> Seq<char> {
    if text.len() > 0 && text[0] == '+' {
        text.drop_first()
    } else {
        text
    }
}

/// The port that a text spells: digits, with a plus sign before them or not, for a
/// number of 16 bits.
pub open spec fn port_of(text: Seq<char>) -> Option<u16> {
    let digits = unsigned_digits(text);
    if digits.len() > 0 && (forall|i: int| 0 <= i < digits.len() ==> is_digit(#[trigger] digits[i]))
        && decimal(digits) <= u16::MAX {
        Some(decimal(digits) as u16)
    } else {
        None
    }
}

/// The decimal digit for a number below ten.
pub open spec fn digit(n: nat) -> char {
    ('0' as nat + n) as char
}

/// A number in decimal digits.
pub open spec fn decimal_text(n: nat) -> Seq<char>
    decreases n,
{
    if n < 10 {
        seq![digit(n)]
    } else {
        decimal_text(n / 10).push(digit(n % 10))
    }
}

fn append_digit(text: &mut String, n: u16)
    requires
        n < 10,
    ensures
        final(text)@ == old(text)@.push(digit(n as nat)),
{
    proof {
        reveal_strlit("0");
        reveal_strlit("1");
        reveal_strlit("2");
        reveal_strlit("3");
        reveal_strlit("4");
        reveal_strlit("5");
        reveal_strlit("6");
        reveal_strlit("7");
        reveal_strlit("8");
        reveal_strlit("9");
    }
    let digit_text = match n {
        0 => "0",
        1 => "1",
        2 => "2",
        3 => "3",
        4 => "4",
        5 => "5",
        6 => "6",
        7 => "7",
        8 => "8",
        _ => "9",
    };
    assert(digit_text@ =~= seq![digit(n as nat)]);
    text.append(digit_text);
    assert(text@ =~= old(text)@.push(digit(n as nat)));
}

/// Appends a number in decimal digits to a text.
pub(crate) fn append_decimal(text: &mut String, n: u16)
    ensures
        final(text)@ == old(text)@ + decimal_text(n as nat),
    decreases n,
{
    if n >= 10 {
        append_decimal(text, n / 10);
    }
    append_digit(text, n % 10);
    assert(text@ =~= old(text)@ + decimal_text(n as nat));
}

proof fn lemma_decimal_text(n: nat)
    ensures
        decimal_text(n).len() > 0,
        decimal(decimal_text(n)) == n,
        forall|i: int| 0 <= i < decimal_text(n).len() ==> is_digit(#[trigger] decimal_text(n)[i]),
    decreases n,
{
    let text = decimal_text(n);
    if n < 10 {
        assert(text.drop_last() =~= Seq::empty());
        assert(decimal(text.drop_last()) == 0);
    } else {
        lemma_decimal_text(n / 10);
        assert(text.drop_last() =~= decimal_text(n / 10));
    }
}

/// A port in decimal digits reads as that port.
pub proof fn law_port_text(port: u16)
    ensures
        port_of(decimal_text(port as nat)) == Some(port),
{
    lemma_decimal_text(port as nat);
    let text = decimal_text(port as nat);
    assert(is_digit(text[0]));
    assert(unsigned_digits(text) == text);
}

proof fn lemma_decimal_grows(digits: Seq<char>, upto: int)
    requires
        0 <= upto <= digits.len(),
    ensures
        decimal(digits.take(upto)) <= decimal(digits),
    decreases digits.len(),
{
    if upto < digits.len() {
        lemma_decimal_grows(digits.drop_last(), upto);
        assert(digits.drop_last().take(upto) =~= digits.take(upto));
    } else {
        assert(digits.take(upto) =~= digits);
    }
}

/// Reads a port number.
pub fn parse_port(text: &str) -> (port: Option<u16>)
    ensures
        port == port_of(text@),
{
    let chars = chars_of(text);
    let n: usize = chars.len();
    let start: usize = if n > 0 && chars[0] == '+' {
        1
    } else {
        0
    };
    let ghost digits = unsigned_digits(text@);
    assert(digits =~= chars@.subrange(start as int, n as int));
    if start == n {
        return None;
    }
    let mut value: u32 = 0;
    let mut at: usize = start;
    while at < n
        invariant
            n == chars.len(),
            start <= at <= n,
            digits == chars@.subrange(start as int, n as int),
            digits == unsigned_digits(text@),
            digits.len() == n - start,
            digits.len() > 0,
            forall|i: int| 0 <= i < at - start ==> is_digit(#[trigger] digits[i]),
            value == decimal(digits.take(at - start)),
            value <= u16::MAX,
        decreases n - at,
    {
        let c = chars[at];
        assert(c == digits[at - start]);
        if !('0' <= c && c <= '9') {
            assert(!is_digit(digits[at - start]));
            return None;
        }
        value = value * 10 + (c as u32 - '0' as u32);
        at = at + 1;
        proof {
            assert(digits.take(at - start).drop_last() =~= digits.take(at - start - 1));
            lemma_decimal_grows(digits, at - start);
        }
        if value > 0xffff {
            return None;
        }
    }
    assert(digits.take(at - start) =~= digits);
    Some(value as u16)
}

} // verus!
