//! The UUID value: sixteen bytes in big-endian order, its constructors and the
//! views derived from it.

use vstd::prelude::*;

use crate::bytes::{
    be_value, lemma_be_value_append, lemma_be_value_bound, lemma_be_value_first_difference,
    lemma_be_value_single, lemma_pow256_16, lemma_pow256_small, read_be, write_be,
};
use crate::text::{
    encode_hyphenated, encode_simple, encode_urn, hyphenated_hex, parse_text, parse_uuid_str,
    push_str, simple_hex, urn_text,
};

verus! {

/// Why a UUID could not be constructed.
#[derive(Debug, Clone, Copy, PartialEq, Eq, Structural)]
pub enum UuidError {
    /// None of the input shapes was given.
    MissingInput,
    /// More than one input shape was given.
    AmbiguousInput,
    /// Text that is no UUID layout, or a byte string of a length other than 16.
    MalformedInput,
    /// Field `field` (counted from 1) of a field tuple does not fit in `bits` bits.
    FieldOutOfRange { field: u8, bits: u8 },
    /// A version override outside 1 to 5.
    InvalidVersion,
    /// No node was given for a time-based UUID and the host's could not be
    /// found.
    EnvironmentUnavailable,
}

/// The layout family read from the top bits of `clock_seq_hi_and_reserved`.
#[derive(Debug, Clone, Copy, PartialEq, Eq, Structural)]
pub enum Variant {
    Ncs,
    Rfc4122,
    Microsoft,
    Future,
}

/// A comparison between two UUIDs.
#[derive(Debug, Clone, Copy, PartialEq, Eq, Structural)]
pub enum CompareOp {
    Lt,
    Le,
    Eq,
    Ne,
    Gt,
    Ge,
}

/// A 128-bit universally unique identifier.
#[derive(Debug, Clone, Copy, PartialEq, Eq, PartialOrd, Ord, Hash)]
pub struct UUID {
    bytes: [u8; 16],
}

impl View for UUID {
    type V = Seq<u8>;

    closed spec fn view(&self) -> Seq<u8> {
        self.bytes@
    }
}

/// `time_low`: bytes 0 to 3.
pub open spec fn time_low_of(s: Seq<u8>) -> nat {
    be_value(s.subrange(0, 4))
}

/// `time_mid`: bytes 4 and 5.
pub open spec fn time_mid_of(s: Seq<u8>) -> nat {
    be_value(s.subrange(4, 6))
}

/// `time_hi_and_version`: bytes 6 and 7.
pub open spec fn time_hi_version_of(s: Seq<u8>) -> nat {
    be_value(s.subrange(6, 8))
}

/// `clock_seq_hi_and_reserved`: byte 8.
pub open spec fn clock_seq_hi_variant_of(s: Seq<u8>) -> nat {
    s[8] as nat
}

/// `clock_seq_low`: byte 9.
pub open spec fn clock_seq_low_of(s: Seq<u8>) -> nat {
    s[9] as nat
}

/// `node`: bytes 10 to 15.
pub open spec fn node_of(s: Seq<u8>) -> nat {
    be_value(s.subrange(10, 16))
}

/// The version: the top nibble of `time_hi_and_version`.
pub open spec fn version_of(s: Seq<u8>) -> nat {
    s[6] as nat / 16
}

/// The variant, from the top one to three bits of byte 8.
pub open spec fn variant_of(s: Seq<u8>) -> Variant {
    let x = s[8];
    if x < 0x80 {
        Variant::Ncs
    } else if x < 0xc0 {
        Variant::Rfc4122
    } else if x < 0xe0 {
        Variant::Microsoft
    } else {
        Variant::Future
    }
}

/// The 60-bit timestamp: the low 12 bits of `time_hi_and_version`, then
/// `time_mid`, then `time_low`.
pub open spec fn time_of(s: Seq<u8>) -> nat {
    (time_hi_version_of(s) % 0x1000) * 0x1_0000_0000_0000 + time_mid_of(s) * 0x1_0000_0000
        + time_low_of(s)
}

/// Where byte `i` of the little-endian layout comes from: the first three
/// groups (4, 2 and 2 bytes) are reversed, the last 8 bytes are kept.
pub open spec fn le_index(i: int) -> int {
    if i < 4 {
        3 - i
    } else if i < 6 {
        9 - i
    } else if i < 8 {
        13 - i
    } else {
        i
    }
}

/// The little-endian layout of 16 big-endian bytes, and back.
pub open spec fn swap_le(s: Seq<u8>) -> Seq<u8> {
    Seq::new(16, |i: int| s[le_index(i)])
}

/// `s` with the version nibble set to `v`.
pub open spec fn with_version(s: Seq<u8>, v: nat) -> Seq<u8> {
    s.update(6, (s[6] as nat % 16 + v * 16) as u8)
}

/// A version override is one of 1 to 5.
pub open spec fn valid_version(v: u8) -> bool {
    1 <= v <= 5
}

/// The first field of `f` that does not fit its width, if any.
pub open spec fn fields_error(f: (u128, u128, u128, u128, u128, u128)) -> Option<UuidError> {
    if f.0 >= 0x1_0000_0000 {
        Some(UuidError::FieldOutOfRange { field: 1, bits: 32 })
    } else if f.1 >= 0x1_0000 {
        Some(UuidError::FieldOutOfRange { field: 2, bits: 16 })
    } else if f.2 >= 0x1_0000 {
        Some(UuidError::FieldOutOfRange { field: 3, bits: 16 })
    } else if f.3 >= 0x100 {
        Some(UuidError::FieldOutOfRange { field: 4, bits: 8 })
    } else if f.4 >= 0x100 {
        Some(UuidError::FieldOutOfRange { field: 5, bits: 8 })
    } else if f.5 >= 0x1_0000_0000_0000 {
        Some(UuidError::FieldOutOfRange { field: 6, bits: 48 })
    } else {
        None
    }
}

/// The six fields of `s` are those of `f`.
pub open spec fn has_fields(s: Seq<u8>, f: (u128, u128, u128, u128, u128, u128)) -> bool {
    &&& time_low_of(s) == f.0
    &&& time_mid_of(s) == f.1
    &&& time_hi_version_of(s) == f.2
    &&& clock_seq_hi_variant_of(s) == f.3
    &&& clock_seq_low_of(s) == f.4
    &&& node_of(s) == f.5
}

pub open spec fn text_of(o: Option<&str>) -> Option<Seq<char>> {
    match o {
        Some(t) => Some(t@),
        None => None,
    }
}

pub open spec fn bytes_of(o: Option<&[u8]>) -> Option<Seq<u8>> {
    match o {
        Some(t) => Some(t@),
        None => None,
    }
}

/// How many of the five input shapes are given.
pub open spec fn shape_count(
    hex: Option<Seq<char>>,
    bytes: Option<Seq<u8>>,
    bytes_le: Option<Seq<u8>>,
    fields: Option<(u128, u128, u128, u128, u128, u128)>,
    integer: Option<u128>,
) -> nat {
    (if hex is Some { 1nat } else { 0nat }) + (if bytes is Some { 1nat } else { 0nat }) + (
    if bytes_le is Some { 1nat } else { 0nat }) + (if fields is Some { 1nat } else { 0nat }) + (
    if integer is Some { 1nat } else { 0nat })
}

/// The bytes read from 16 bytes of input, with the version override, if any.
pub open spec fn overridden(s: Seq<u8>, version: Option<u8>) -> Seq<u8> {
    match version {
        Some(v) => with_version(s, v as nat),
        None => s,
    }
}

/// UUIDs are equal when their bytes are, and ordered as their big-endian
/// integers.
pub open spec fn compare_spec(a: Seq<u8>, b: Seq<u8>, op: CompareOp) -> bool {
    match op {
        CompareOp::Lt => be_value(a) < be_value(b),
        CompareOp::Le => be_value(a) <= be_value(b),
        CompareOp::Eq => a == b,
        CompareOp::Ne => a != b,
        CompareOp::Gt => be_value(a) > be_value(b),
        CompareOp::Ge => be_value(a) >= be_value(b),
    }
}

/// `time_hi_and_version` from its two bytes.
pub proof fn lemma_time_hi_version_bytes(s: Seq<u8>)
    requires
        s.len() == 16,
    ensures
        time_hi_version_of(s) == s[6] as nat * 256 + s[7] as nat,
{
    assert(s.subrange(6, 8) =~= seq![s[6]] + seq![s[7]]);
    lemma_be_value_append(seq![s[6]], seq![s[7]]);
    lemma_be_value_single(s[6]);
    lemma_be_value_single(s[7]);
    lemma_pow256_small();
}

/// A UUID is its sixteen bytes.
pub proof fn lemma_view_len(u: UUID)
    ensures
        u@.len() == 16,
{
}

/// Two UUIDs with the same bytes are the same value.
pub proof fn lemma_view_injective(a: UUID, b: UUID)
    requires
        a@ == b@,
    ensures
        a == b,
{
    assert(a.bytes =~= b.bytes);
}

/// Compares two byte arrays from the first byte on: `-1`, `0` or `1` as `a`
/// is below, equal to or above `b` as a big-endian integer.
fn compare_bytes(a: &[u8; 16], b: &[u8; 16]) -> (r: i8)
    ensures
        r == 0 <==> a@ == b@,
        r < 0 <==> be_value(a@) < be_value(b@),
        r > 0 <==> be_value(a@) > be_value(b@),
        -1 <= r <= 1,
{
    let mut i: usize = 0;
    while i < 16
        invariant
            i <= 16,
            a@.subrange(0, i as int) == b@.subrange(0, i as int),
        decreases 16 - i,
    {
        if a[i] != b[i] {
            proof {
                if a[i as int] < b[i as int] {
                    lemma_be_value_first_difference(a@, b@, i as int);
                } else {
                    lemma_be_value_first_difference(b@, a@, i as int);
                }
            }
            return if a[i] < b[i] { -1 } else { 1 };
        }
        proof {
            assert(a@.subrange(0, i + 1) =~= a@.subrange(0, i as int).push(a[i as int]));
            assert(b@.subrange(0, i + 1) =~= b@.subrange(0, i as int).push(b[i as int]));
        }
        i = i + 1;
    }
    proof {
        assert(a@ =~= a@.subrange(0, 16));
        assert(b@ =~= b@.subrange(0, 16));
    }
    0
}

impl Variant {
    pub open spec fn description_spec(self) -> &'static str {
        match self {
            Variant::Ncs => "reserved for NCS compatibility",
            Variant::Rfc4122 => "specified in RFC 4122",
            Variant::Microsoft => "reserved for Microsoft compatibility",
            Variant::Future => "reserved for future definition",
        }
    }

    /// The conventional description of the variant.
    pub fn description(&self) -> (r: &'static str)
        ensures
            r == self.description_spec(),
    {
        match self {
            Variant::Ncs => "reserved for NCS compatibility",
            Variant::Rfc4122 => "specified in RFC 4122",
            Variant::Microsoft => "reserved for Microsoft compatibility",
            Variant::Future => "reserved for future definition",
        }
    }
}

impl UUID {
    /// The UUID whose big-endian bytes are `b`.
    pub fn from_array(b: [u8; 16]) -> (r: UUID)
        ensures
            r@ == b@,
    {
        UUID { bytes: b }
    }

    /// The UUID whose 128-bit big-endian value is `v`.
    pub fn from_integer(v: u128) -> (r: UUID)
        ensures
            be_value(r@) == v as nat,
    {
        let mut b: [u8; 16] = [0u8; 16];
        proof {
            lemma_pow256_16();
        }
        write_be(&mut b, 0, 16, v);
        proof {
            assert(b@.subrange(0, 16) =~= b@);
        }
        UUID { bytes: b }
    }

    /// The 128-bit big-endian value.
    pub fn as_integer(&self) -> (r: u128)
        ensures
            r as nat == be_value(self@),
    {
        proof {
            assert(self.bytes@.subrange(0, 16) =~= self.bytes@);
        }
        read_be(&self.bytes, 0, 16)
    }

    /// The sixteen big-endian bytes.
    pub fn bytes(&self) -> (r: [u8; 16])
        ensures
            r@ == self@,
    {
        self.bytes
    }

    /// `time_low`, the first 32 bits.
    pub fn time_low(&self) -> (r: u32)
        ensures
            r as nat == time_low_of(self@),
    {
        let v = read_be(&self.bytes, 0, 4);
        proof {
            lemma_be_value_bound(self.bytes@.subrange(0, 4));
            lemma_pow256_small();
        }
        v as u32
    }

    /// `time_mid`, the next 16 bits.
    pub fn time_mid(&self) -> (r: u16)
        ensures
            r as nat == time_mid_of(self@),
    {
        let v = read_be(&self.bytes, 4, 2);
        proof {
            lemma_be_value_bound(self.bytes@.subrange(4, 6));
            lemma_pow256_small();
        }
        v as u16
    }

    /// `time_hi_and_version`, the next 16 bits.
    pub fn time_hi_version(&self) -> (r: u16)
        ensures
            r as nat == time_hi_version_of(self@),
    {
        let v = read_be(&self.bytes, 6, 2);
        proof {
            lemma_be_value_bound(self.bytes@.subrange(6, 8));
            lemma_pow256_small();
        }
        v as u16
    }

    /// `clock_seq_hi_and_reserved`, byte 8.
    pub fn clock_seq_hi_variant(&self) -> (r: u8)
        ensures
            r as nat == clock_seq_hi_variant_of(self@),
    {
        self.bytes[8]
    }

    /// `clock_seq_low`, byte 9.
    pub fn clock_seq_low(&self) -> (r: u8)
        ensures
            r as nat == clock_seq_low_of(self@),
    {
        self.bytes[9]
    }

    /// The node, the low 48 bits.
    pub fn node(&self) -> (r: u64)
        ensures
            r as nat == node_of(self@),
    {
        let v = read_be(&self.bytes, 10, 6);
        proof {
            lemma_be_value_bound(self.bytes@.subrange(10, 16));
            lemma_pow256_small();
        }
        v as u64
    }

    /// The six fields, in the order of the layout.
    pub fn fields(&self) -> (r: (u32, u16, u16, u8, u8, u64))
        ensures
            has_fields(self@, (r.0 as u128, r.1 as u128, r.2 as u128, r.3 as u128, r.4 as u128, r.5 as u128)),
    {
        (
            self.time_low(),
            self.time_mid(),
            self.time_hi_version(),
            self.clock_seq_hi_variant(),
            self.clock_seq_low(),
            self.node(),
        )
    }

    /// The 60-bit timestamp of a time-based UUID.
    pub fn time(&self) -> (r: u64)
        ensures
            r as nat == time_of(self@),
    {
        let hi = (self.time_hi_version() % 0x1000) as u64;
        let mid = self.time_mid() as u64;
        let low = self.time_low() as u64;
        hi * 0x1_0000_0000_0000 + mid * 0x1_0000_0000 + low
    }

    /// The version number, 0 to 15.
    pub fn version(&self) -> (r: usize)
        ensures
            r as nat == version_of(self@),
    {
        (self.bytes[6] / 16) as usize
    }

    /// The variant.
    pub fn variant(&self) -> (r: Variant)
        ensures
            r == variant_of(self@),
    {
        let x = self.bytes[8];
        if x < 0x80 {
            Variant::Ncs
        } else if x < 0xc0 {
            Variant::Rfc4122
        } else if x < 0xe0 {
            Variant::Microsoft
        } else {
            Variant::Future
        }
    }

    /// Reads the hexadecimal text forms: 32 digits, hyphenated, braced, or
    /// after `urn:uuid:`; digits of either case.
    pub fn from_hex(s: &str) -> (r: Result<UUID, UuidError>)
        ensures
            match parse_text(s@) {
                Some(b) => r is Ok && r.unwrap()@ == b,
                None => r == Err::<UUID, UuidError>(UuidError::MalformedInput),
            },
    {
        match parse_uuid_str(s) {
            Some(b) => Ok(UUID { bytes: b }),
            None => Err(UuidError::MalformedInput),
        }
    }

    /// The UUID whose big-endian bytes are `b`, which must be 16.
    pub fn from_bytes(b: &[u8]) -> (r: Result<UUID, UuidError>)
        ensures
            b@.len() == 16 ==> r is Ok && r.unwrap()@ == b@,
            b@.len() != 16 ==> r == Err::<UUID, UuidError>(UuidError::MalformedInput),
    {
        if b.len() != 16 {
            Err(UuidError::MalformedInput)
        } else {
            Ok(UUID { bytes: array_of_slice(b) })
        }
    }

    /// The UUID whose little-endian layout is `b`, which must be 16 bytes.
    pub fn from_bytes_le(b: &[u8]) -> (r: Result<UUID, UuidError>)
        ensures
            b@.len() == 16 ==> r is Ok && r.unwrap()@ == swap_le(b@),
            b@.len() != 16 ==> r == Err::<UUID, UuidError>(UuidError::MalformedInput),
    {
        if b.len() != 16 {
            Err(UuidError::MalformedInput)
        } else {
            let a = array_of_slice(b);
            Ok(UUID { bytes: swap_le_array(&a) })
        }
    }

    /// Packs the six fields, most significant first; each must fit its width
    /// (32, 16, 16, 8, 8 and 48 bits), else the first that does not is named.
    pub fn from_fields(f: (u128, u128, u128, u128, u128, u128)) -> (r: Result<UUID, UuidError>)
        ensures
            match fields_error(f) {
                Some(e) => r == Err::<UUID, UuidError>(e),
                None => r is Ok && has_fields(r.unwrap()@, f),
            },
    {
        if f.0 >= 0x1_0000_0000 {
            return Err(UuidError::FieldOutOfRange { field: 1, bits: 32 });
        }
        if f.1 >= 0x1_0000 {
            return Err(UuidError::FieldOutOfRange { field: 2, bits: 16 });
        }
        if f.2 >= 0x1_0000 {
            return Err(UuidError::FieldOutOfRange { field: 3, bits: 16 });
        }
        if f.3 >= 0x100 {
            return Err(UuidError::FieldOutOfRange { field: 4, bits: 8 });
        }
        if f.4 >= 0x100 {
            return Err(UuidError::FieldOutOfRange { field: 5, bits: 8 });
        }
        if f.5 >= 0x1_0000_0000_0000 {
            return Err(UuidError::FieldOutOfRange { field: 6, bits: 48 });
        }
        proof {
            lemma_pow256_small();
        }
        let mut b: [u8; 16] = [0u8; 16];
        write_be(&mut b, 0, 4, f.0);
        let ghost b1 = b@;
        write_be(&mut b, 4, 2, f.1);
        let ghost b2 = b@;
        write_be(&mut b, 6, 2, f.2);
        let ghost b3 = b@;
        b[8] = f.3 as u8;
        b[9] = f.4 as u8;
        let ghost b4 = b@;
        write_be(&mut b, 10, 6, f.5);
        proof {
            assert(b@.subrange(0, 4) =~= b1.subrange(0, 4));
            assert(b@.subrange(4, 6) =~= b2.subrange(4, 6));
            assert(b@.subrange(6, 8) =~= b3.subrange(6, 8));
            assert(b@[8] == b4[8] && b@[9] == b4[9]);
        }
        Ok(UUID { bytes: b })
    }

    /// Builds a UUID from exactly one of five input shapes: hexadecimal text,
    /// 16 big-endian bytes, 16 little-endian bytes, a field tuple, or a
    /// 128-bit integer. A version override (1 to 5) sets the version nibble of
    /// a UUID read from bytes; the other shapes ignore it.
    pub fn new(
        hex: Option<&str>,
        bytes: Option<&[u8]>,
        bytes_le: Option<&[u8]>,
        fields: Option<(u128, u128, u128, u128, u128, u128)>,
        integer: Option<u128>,
        version: Option<u8>,
    ) -> (r: Result<UUID, UuidError>)
        ensures
            ({
                let n = shape_count(text_of(hex), bytes_of(bytes), bytes_of(bytes_le), fields, integer);
                if version is Some && !valid_version(version.unwrap()) {
                    r == Err::<UUID, UuidError>(UuidError::InvalidVersion)
                } else if n == 0 {
                    r == Err::<UUID, UuidError>(UuidError::MissingInput)
                } else if n > 1 {
                    r == Err::<UUID, UuidError>(UuidError::AmbiguousInput)
                } else if hex is Some {
                    match parse_text(hex.unwrap()@) {
                        Some(b) => r is Ok && r.unwrap()@ == b,
                        None => r == Err::<UUID, UuidError>(UuidError::MalformedInput),
                    }
                } else if bytes is Some {
                    if bytes.unwrap()@.len() == 16 {
                        r is Ok && r.unwrap()@ == overridden(bytes.unwrap()@, version)
                    } else {
                        r == Err::<UUID, UuidError>(UuidError::MalformedInput)
                    }
                } else if bytes_le is Some {
                    if bytes_le.unwrap()@.len() == 16 {
                        r is Ok && r.unwrap()@ == overridden(swap_le(bytes_le.unwrap()@), version)
                    } else {
                        r == Err::<UUID, UuidError>(UuidError::MalformedInput)
                    }
                } else if fields is Some {
                    match fields_error(fields.unwrap()) {
                        Some(e) => r == Err::<UUID, UuidError>(e),
                        None => r is Ok && has_fields(r.unwrap()@, fields.unwrap()),
                    }
                } else {
                    r is Ok && be_value(r.unwrap()@) == integer.unwrap() as nat
                }
            }),
    {
        if let Some(v) = version {
            if v < 1 || v > 5 {
                return Err(UuidError::InvalidVersion);
            }
        }
        let n: u8 = (if hex.is_some() { 1u8 } else { 0u8 }) + (if bytes.is_some() { 1u8 } else { 0u8 })
            + (if bytes_le.is_some() { 1u8 } else { 0u8 }) + (if fields.is_some() { 1u8 } else { 0u8 })
            + (if integer.is_some() { 1u8 } else { 0u8 });
        if n == 0 {
            return Err(UuidError::MissingInput);
        }
        if n > 1 {
            return Err(UuidError::AmbiguousInput);
        }
        if let Some(h) = hex {
            return UUID::from_hex(h);
        }
        if let Some(b) = bytes {
            return match UUID::from_bytes(b) {
                Ok(u) => Ok(u.with_version_override(version)),
                Err(e) => Err(e),
            };
        }
        if let Some(b) = bytes_le {
            return match UUID::from_bytes_le(b) {
                Ok(u) => Ok(u.with_version_override(version)),
                Err(e) => Err(e),
            };
        }
        if let Some(f) = fields {
            return UUID::from_fields(f);
        }
        match integer {
            Some(i) => Ok(UUID::from_integer(i)),
            None => Err(UuidError::MissingInput),
        }
    }

    fn with_version_override(self, version: Option<u8>) -> (r: UUID)
        requires
            version is Some ==> valid_version(version.unwrap()),
        ensures
            r@ == overridden(self@, version),
    {
        let mut b = self.bytes;
        if let Some(v) = version {
            set_version(&mut b, v);
        }
        UUID { bytes: b }
    }

    /// Replaces the bytes with `state`, which must be 16 bytes; otherwise the
    /// value is left as it was.
    pub fn setstate(&mut self, state: &[u8]) -> (r: Result<(), UuidError>)
        ensures
            state@.len() == 16 ==> r is Ok && final(self)@ == state@,
            state@.len() != 16 ==> r == Err::<(), UuidError>(UuidError::MalformedInput)
                && final(self)@ == old(self)@,
    {
        if state.len() != 16 {
            Err(UuidError::MalformedInput)
        } else {
            self.bytes = array_of_slice(state);
            Ok(())
        }
    }

    /// The sixteen bytes, to be handed back to `setstate`.
    pub fn getstate(&self) -> (r: Vec<u8>)
        ensures
            r@ == self@,
    {
        let mut v: Vec<u8> = Vec::new();
        let mut i: usize = 0;
        while i < 16
            invariant
                i <= 16,
                v@ =~= self.bytes@.subrange(0, i as int),
            decreases 16 - i,
        {
            v.push(self.bytes[i]);
            i = i + 1;
        }
        proof {
            assert(self.bytes@.subrange(0, 16) =~= self.bytes@);
        }
        v
    }

    /// The 32 lowercase hex digits.
    pub fn hex(&self) -> (r: String)
        ensures
            r@ == simple_hex(self@),
    {
        encode_simple(&self.bytes)
    }

    /// `urn:uuid:` and the hyphenated form.
    pub fn urn(&self) -> (r: String)
        ensures
            r@ == urn_text(self@),
    {
        encode_urn(&self.bytes)
    }

    /// The canonical form: lowercase, 8-4-4-4-12 digits.
    pub fn display_string(&self) -> (r: String)
        ensures
            r@ == hyphenated_hex(self@),
    {
        encode_hyphenated(&self.bytes)
    }

    /// The canonical form wrapped as `UUID('...')`.
    pub fn repr(&self) -> (r: String)
        ensures
            r@ == "UUID('"@ + hyphenated_hex(self@) + "')"@,
    {
        let mut s = "UUID('".to_owned();
        let h = encode_hyphenated(&self.bytes);
        push_str(&mut s, h.as_str());
        push_str(&mut s, "')");
        s
    }

    /// Compares `self` with `other` by `op`: equality of the bytes, order of
    /// the big-endian integers.
    pub fn richcmp(&self, other: &UUID, op: CompareOp) -> (r: bool)
        ensures
            r == compare_spec(self@, other@, op),
    {
        let c = compare_bytes(&self.bytes, &other.bytes);
        match op {
            CompareOp::Lt => c < 0,
            CompareOp::Le => c <= 0,
            CompareOp::Eq => c == 0,
            CompareOp::Ne => c != 0,
            CompareOp::Gt => c > 0,
            CompareOp::Ge => c >= 0,
        }
    }

    /// The little-endian layout: the first three groups byte-reversed.
    pub fn bytes_le(&self) -> (r: [u8; 16])
        ensures
            r@ == swap_le(self@),
    {
        let b = swap_le_array(&self.bytes);
        b
    }
}

/// The 16 bytes of `b` as an array.
fn array_of_slice(b: &[u8]) -> (r: [u8; 16])
    requires
        b@.len() == 16,
    ensures
        r@ == b@,
{
    let mut a: [u8; 16] = [0u8; 16];
    let mut i: usize = 0;
    while i < 16
        invariant
            b@.len() == 16,
            i <= 16,
            forall|j: int| 0 <= j < i ==> a@[j] == b@[j],
        decreases 16 - i,
    {
        a[i] = b[i];
        i = i + 1;
    }
    proof {
        assert(a@ =~= b@);
    }
    a
}

/// Sets the version nibble of `b` to `v`.
fn set_version(b: &mut [u8; 16], v: u8)
    requires
        valid_version(v),
    ensures
        final(b)@ == with_version(old(b)@, v as nat),
{
    b[6] = b[6] % 16 + v * 16;
    proof {
        assert(b@ =~= with_version(old(b)@, v as nat));
    }
}

/// Reverses the first three groups of `b` (4, 2 and 2 bytes).
fn swap_le_array(b: &[u8; 16]) -> (r: [u8; 16])
    ensures
        r@ == swap_le(b@),
{
    let mut a: [u8; 16] = *b;
    a[0] = b[3];
    a[1] = b[2];
    a[2] = b[1];
    a[3] = b[0];
    a[4] = b[5];
    a[5] = b[4];
    a[6] = b[7];
    a[7] = b[6];
    proof {
        assert(a@ =~= swap_le(b@));
    }
    a
}

} // verus!
