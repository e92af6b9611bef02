//! The hexadecimal text forms of a UUID: what they are, and the calls into the
//! `uuid` crate that produce and read them.

use vstd::prelude::*;

verus! {

/// The lowercase hexadecimal digit for `n < 16`.
pub open spec fn hex_char(n: int) -> char {
    if n < 10 {
        (n + 48) as char
    } else {
        (n + 87) as char
    }
}

/// The value of a hexadecimal digit of either case, or `-1` for any other
/// character.
pub open spec fn hex_value(c: char) -> int {
    let x = c as u32;
    if 48 <= x <= 57 {
        x - 48
    } else if 97 <= x <= 102 {
        x - 87
    } else if 65 <= x <= 70 {
        x - 55
    } else {
        -1
    }
}

/// Two lowercase hex digits for each byte, high nibble first.
pub open spec fn simple_hex(b: Seq<u8>) -> Seq<char> {
    Seq::new(
        2 * b.len(),
        |i: int|
            if i % 2 == 0 {
                hex_char(b[i / 2] as int / 16)
            } else {
                hex_char(b[i / 2] as int % 16)
            },
    )
}

/// The 8-4-4-4-12 form: the simple form with a hyphen after digits 8, 12, 16
/// and 20.
pub open spec fn hyphenated_hex(b: Seq<u8>) -> Seq<char> {
    let s = simple_hex(b);
    s.subrange(0, 8) + seq!['-'] + s.subrange(8, 12) + seq!['-'] + s.subrange(12, 16) + seq![
        '-',
    ] + s.subrange(16, 20) + seq!['-'] + s.subrange(20, 32)
}

pub open spec fn urn_prefix() -> Seq<char> {
    seq!['u', 'r', 'n', ':', 'u', 'u', 'i', 'd', ':']
}

/// `urn:uuid:` followed by the hyphenated form.
pub open spec fn urn_text(b: Seq<u8>) -> Seq<char> {
    urn_prefix() + hyphenated_hex(b)
}

/// Sixteen bytes from 32 hex digits of either case, two digits per byte.
pub open spec fn decode_hex32(h: Seq<char>) -> Option<Seq<u8>> {
    if h.len() == 32 && forall|i: int| 0 <= i < 32 ==> hex_value(#[trigger] h[i]) >= 0 {
        Some(Seq::new(16, |j: int| (hex_value(h[2 * j]) * 16 + hex_value(h[2 * j + 1])) as u8))
    } else {
        None
    }
}

/// The 8-4-4-4-12 layout of 36 characters, hyphens at 8, 13, 18 and 23.
pub open spec fn decode_hyphenated(s: Seq<char>) -> Option<Seq<u8>> {
    if s.len() == 36 && s[8] == '-' && s[13] == '-' && s[18] == '-' && s[23] == '-' {
        decode_hex32(
            s.subrange(0, 8) + s.subrange(9, 13) + s.subrange(14, 18) + s.subrange(19, 23)
                + s.subrange(24, 36),
        )
    } else {
        None
    }
}

/// ASCII letters folded to lowercase, as a code point.
pub open spec fn ascii_lower(c: char) -> u32 {
    let x = c as u32;
    if 65 <= x <= 90 {
        (x + 32) as u32
    } else {
        x
    }
}

/// The layouts that a UUID is read from: 32 hex digits; the hyphenated form;
/// the hyphenated form in braces; and the hyphenated form after a `urn:uuid:`
/// prefix of either case.
pub open spec fn parse_text(s: Seq<char>) -> Option<Seq<u8>> {
    if s.len() == 32 {
        decode_hex32(s)
    } else if s.len() == 36 {
        decode_hyphenated(s)
    } else if s.len() == 38 && s[0] == '{' && s[37] == '}' {
        decode_hyphenated(s.subrange(1, 37))
    } else if s.len() == 45 && forall|i: int|
        0 <= i < 9 ==> ascii_lower(#[trigger] s[i]) == urn_prefix()[i] as u32 {
        decode_hyphenated(s.subrange(9, 45))
    } else {
        None
    }
}

/// Relies on `uuid::Uuid::parse_str`, which reads the four layouts of
/// `parse_text` (the URN prefix without regard to case) and nothing else.
#[verifier::external_body]
pub(crate) fn parse_uuid_str(s: &str) -> (r: Option<[u8; 16]>)
    ensures
        match parse_text(s@) {
            Some(b) => r is Some && r.unwrap()@ == b,
            None => r is None,
        },
{
    match uuid::Uuid::parse_str(s) {
        Ok(u) => Some(*u.as_bytes()),
        Err(_) => None,
    }
}

/// Relies on `uuid::fmt::Simple::encode_lower`: two lowercase hex digits per
/// byte.
#[verifier::external_body]
pub(crate) fn encode_simple(b: &[u8; 16]) -> (r: String)
    ensures
        r@ == simple_hex(b@),
{
    uuid::Uuid::from_bytes(*b).simple().encode_lower(&mut uuid::Uuid::encode_buffer()).to_string()
}

/// Relies on `uuid::fmt::Hyphenated::encode_lower`: the lowercase 8-4-4-4-12
/// form.
#[verifier::external_body]
pub(crate) fn encode_hyphenated(b: &[u8; 16]) -> (r: String)
    ensures
        r@ == hyphenated_hex(b@),
{
    uuid::Uuid::from_bytes(*b).hyphenated().encode_lower(&mut uuid::Uuid::encode_buffer()).to_string()
}

/// Relies on `uuid::fmt::Urn::encode_lower`: `urn:uuid:` and the lowercase
/// hyphenated form.
#[verifier::external_body]
pub(crate) fn encode_urn(b: &[u8; 16]) -> (r: String)
    ensures
        r@ == urn_text(b@),
{
    uuid::Uuid::from_bytes(*b).urn().encode_lower(&mut uuid::Uuid::encode_buffer()).to_string()
}

/// Relies on `String::push_str`: appends `t` to `s`.
#[verifier::external_body]
pub(crate) fn push_str(s: &mut String, t: &str)
    ensures
        final(s)@ == old(s)@ + t@,
{
    s.push_str(t)
}

pub proof fn lemma_hex_digit_round_trip(n: int)
    requires
        0 <= n < 16,
    ensures
        hex_value(hex_char(n)) == n,
{
}

/// The 32 digits of the simple form read back as the bytes they came from.
pub proof fn lemma_decode_simple(b: Seq<u8>)
    requires
        b.len() == 16,
    ensures
        decode_hex32(simple_hex(b)) == Some(b),
{
    let h = simple_hex(b);
    assert forall|i: int| 0 <= i < 32 implies hex_value(#[trigger] h[i]) >= 0 by {
        lemma_hex_digit_round_trip(b[i / 2] as int / 16);
        lemma_hex_digit_round_trip(b[i / 2] as int % 16);
    }
    let d = Seq::new(16, |j: int| (hex_value(h[2 * j]) * 16 + hex_value(h[2 * j + 1])) as u8);
    assert forall|j: int| 0 <= j < 16 implies d[j] == b[j] by {
        assert((2 * j) % 2 == 0);
        assert((2 * j + 1) % 2 == 1);
        assert((2 * j) / 2 == j);
        assert((2 * j + 1) / 2 == j);
        lemma_hex_digit_round_trip(b[j] as int / 16);
        lemma_hex_digit_round_trip(b[j] as int % 16);
    }
    assert(d =~= b);
}

/// The hyphenated form reads back as the bytes it was written from.
pub proof fn lemma_decode_hyphenated(b: Seq<u8>)
    requires
        b.len() == 16,
    ensures
        decode_hyphenated(hyphenated_hex(b)) == Some(b),
{
    let s = simple_hex(b);
    let h = hyphenated_hex(b);
    lemma_decode_simple(b);
    let p0 = s.subrange(0, 8);
    let p1 = s.subrange(8, 12);
    let p2 = s.subrange(12, 16);
    let p3 = s.subrange(16, 20);
    let p4 = s.subrange(20, 32);
    let d = seq!['-'];
    assert(h == p0 + d + p1 + d + p2 + d + p3 + d + p4);
    assert(h.len() == 36);
    assert(h.subrange(0, 8) =~= p0);
    assert(h.subrange(9, 13) =~= p1);
    assert(h.subrange(14, 18) =~= p2);
    assert(h.subrange(19, 23) =~= p3);
    assert(h.subrange(24, 36) =~= p4);
    assert(h[8] == '-' && h[13] == '-' && h[18] == '-' && h[23] == '-');
    assert(p0 + p1 + p2 + p3 + p4 =~= s);
}

/// Every text form that this crate writes reads back as the bytes it was
/// written from.
pub proof fn lemma_parse_text_round_trip(b: Seq<u8>)
    requires
        b.len() == 16,
    ensures
        parse_text(simple_hex(b)) == Some(b),
        parse_text(hyphenated_hex(b)) == Some(b),
        parse_text(urn_text(b)) == Some(b),
{
    lemma_parse_simple(b);
    lemma_parse_hyphenated(b);
    lemma_parse_urn(b);
}

proof fn lemma_parse_simple(b: Seq<u8>)
    requires
        b.len() == 16,
    ensures
        parse_text(simple_hex(b)) == Some(b),
{
    lemma_decode_simple(b);
    assert(simple_hex(b).len() == 32);
}

proof fn lemma_parse_hyphenated(b: Seq<u8>)
    requires
        b.len() == 16,
    ensures
        parse_text(hyphenated_hex(b)) == Some(b),
{
    lemma_decode_hyphenated(b);
    let h = hyphenated_hex(b);
    assert(simple_hex(b).len() == 32);
    assert(h.len() == 36);
}

proof fn lemma_parse_urn(b: Seq<u8>)
    requires
        b.len() == 16,
    ensures
        parse_text(urn_text(b)) == Some(b),
{
    lemma_decode_hyphenated(b);
    let h = hyphenated_hex(b);
    let u = urn_text(b);
    assert(simple_hex(b).len() == 32);
    assert(h.len() == 36);
    assert(u.len() == 45);
    assert(u.subrange(9, 45) =~= h);
    assert forall|i: int| 0 <= i < 9 implies ascii_lower(#[trigger] u[i]) == urn_prefix()[i] as u32 by {
        assert(u[i] == urn_prefix()[i]);
    }
}

} // verus!
