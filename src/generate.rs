//! The generators: time-based (version 1), name-based (versions 3 and 5),
//! random (version 4) and time-ordered random (version 7).

use vstd::prelude::*;

use crate::bytes::{be_value, lemma_pow256_small, write_be};
use crate::text::{encode_simple, simple_hex};
use crate::value::{
    has_fields, lemma_time_hi_version_bytes, lemma_view_len, node_of, time_hi_version_of,
    variant_of, version_of, UuidError, Variant, UUID,
};

verus! {

/// What `uuid::Uuid::new_v3` returns for a namespace and a name: the MD5
/// digest of the two, with version 3 and the RFC 4122 variant.
pub uninterp spec fn md5_name_uuid(namespace: Seq<u8>, name: Seq<u8>) -> Seq<u8>;

/// What `uuid::Uuid::new_v5` returns for a namespace and a name: the SHA-1
/// digest of the two, cut to 16 bytes, with version 5 and the RFC 4122 variant.
pub uninterp spec fn sha1_name_uuid(namespace: Seq<u8>, name: Seq<u8>) -> Seq<u8>;

/// A UUID of the given version with the RFC 4122 variant.
pub open spec fn is_rfc_version(s: Seq<u8>, v: nat) -> bool {
    s.len() == 16 && version_of(s) == v && variant_of(s) == Variant::Rfc4122
}

/// The simple hex form of some UUID of the given version with the RFC 4122
/// variant.
pub open spec fn is_hex_of_version(t: Seq<char>, v: nat) -> bool {
    exists|b: Seq<u8>| is_rfc_version(b, v) && t == simple_hex(b)
}

/// The hash that a name-based UUID is derived with.
#[derive(Debug, Clone, Copy, PartialEq, Eq, Structural)]
pub enum NameHash {
    /// MD5, for version 3.
    Md5,
    /// SHA-1, for version 5.
    Sha1,
}

/// The name-based UUID of `name` in `namespace`.
pub open spec fn name_uuid(hash: NameHash, namespace: Seq<u8>, name: Seq<u8>) -> Seq<u8> {
    match hash {
        NameHash::Md5 => md5_name_uuid(namespace, name),
        NameHash::Sha1 => sha1_name_uuid(namespace, name),
    }
}

/// Relies on `uuid::Uuid::new_v3`: a function of the namespace and the name,
/// with the version set to 3 and the variant to RFC 4122.
#[verifier::external_body]
fn new_v3_bytes(namespace: &[u8; 16], name: &[u8]) -> (r: [u8; 16])
    ensures
        r@ == md5_name_uuid(namespace@, name@),
        is_rfc_version(r@, 3),
{
    *uuid::Uuid::new_v3(&uuid::Uuid::from_bytes(*namespace), name).as_bytes()
}

/// Relies on `uuid::Uuid::new_v5`: a function of the namespace and the name,
/// with the version set to 5 and the variant to RFC 4122.
#[verifier::external_body]
fn new_v5_bytes(namespace: &[u8; 16], name: &[u8]) -> (r: [u8; 16])
    ensures
        r@ == sha1_name_uuid(namespace@, name@),
        is_rfc_version(r@, 5),
{
    *uuid::Uuid::new_v5(&uuid::Uuid::from_bytes(*namespace), name).as_bytes()
}

/// Relies on `uuid::Uuid::new_v4`: random bits with the version set to 4 and
/// the variant to RFC 4122.
#[verifier::external_body]
fn new_v4_bytes() -> (r: [u8; 16])
    ensures
        is_rfc_version(r@, 4),
{
    *uuid::Uuid::new_v4().as_bytes()
}

/// Relies on `uuid::Uuid::now_v7`: the Unix time in milliseconds and random
/// bits, with the version set to 7 and the variant to RFC 4122.
#[verifier::external_body]
fn now_v7_bytes() -> (r: [u8; 16])
    ensures
        is_rfc_version(r@, 7),
{
    *uuid::Uuid::now_v7().as_bytes()
}

/// Relies on `uuid::Uuid::now_v1`: the current time and the crate's shared
/// clock sequence, with the node bytes as given, the version set to 1 and the
/// variant to RFC 4122.
#[verifier::external_body]
fn now_v1_bytes(node: &[u8; 6]) -> (r: [u8; 16])
    ensures
        is_rfc_version(r@, 1),
        r@.subrange(10, 16) == node@,
{
    *uuid::Uuid::now_v1(node).as_bytes()
}

/// Relies on `uuid::Timestamp::now` with a `uuid::ContextV1` started at
/// `clock_seq`, read back by `to_gregorian`: the current time in 100 ns ticks
/// since 1582-10-15, and the context's first count, cut to 14 bits.
#[verifier::external_body]
fn gregorian_now(clock_seq: u16) -> (r: (u64, u16))
    ensures
        r.1 == clock_seq % 0x4000,
{
    uuid::Timestamp::now(uuid::ContextV1::new(clock_seq)).to_gregorian()
}

/// Relies on `rand::random`: a value drawn from the thread-local generator,
/// of which nothing is promised.
pub assume_specification<T>[ rand::random::<T> ]() -> (r: T)
    where
        rand::distributions::Standard: rand::distributions::Distribution<T>,
;

/// The 14-bit clock sequence: the low 6 bits of byte 8, then byte 9.
pub open spec fn clock_seq_of(s: Seq<u8>) -> nat {
    (s[8] as nat % 64) * 256 + s[9] as nat
}

/// The node made from 64 random bits: the low 48 of them, with the multicast
/// bit (the lowest bit of the first of the six bytes) set.
pub open spec fn multicast_node(x: u64) -> nat {
    let n = x as nat % 0x1_0000_0000_0000;
    if (n / 0x100_0000_0000) % 2 == 1 {
        n
    } else {
        n + 0x100_0000_0000
    }
}

/// The six bytes of a 48-bit node, most significant first.
pub fn node_bytes(n: u64) -> (r: [u8; 6])
    requires
        n < 0x1_0000_0000_0000,
    ensures
        be_value(r@) == n as nat,
{
    let mut buf: [u8; 16] = [0u8; 16];
    proof {
        lemma_pow256_small();
    }
    write_be(&mut buf, 10, 6, n as u128);
    let r: [u8; 6] = [buf[10], buf[11], buf[12], buf[13], buf[14], buf[15]];
    proof {
        assert(r@ =~= buf@.subrange(10, 16));
    }
    r
}

/// The node for `uuid_v1mc`, made from 64 random bits `x`.
pub fn node_from_random(x: u64) -> (r: u64)
    ensures
        r as nat == multicast_node(x),
{
    let n = x % 0x1_0000_0000_0000;
    if (n / 0x100_0000_0000) % 2 == 1 {
        n
    } else {
        n + 0x100_0000_0000
    }
}

/// A random node with the multicast bit set, marking it as no real MAC
/// address.
fn random_node_id() -> (r: [u8; 6])
    ensures
        be_value(r@) < 0x1_0000_0000_0000,
        (be_value(r@) / 0x100_0000_0000) % 2 == 1,
{
    let x: u64 = rand::random::<u64>();
    let n = node_from_random(x);
    node_bytes(n)
}

/// The version 1 UUID of a timestamp in 100 ns ticks since 1582-10-15, a
/// clock sequence and a 48-bit node: the ticks spread over `time_low`,
/// `time_mid` and the low 12 bits of `time_hi_and_version`, version 1, the
/// low 14 bits of the counter behind the RFC 4122 variant bits.
pub fn v1_from_timestamp(ticks: u64, counter: u16, node: u64) -> (r: UUID)
    requires
        node < 0x1_0000_0000_0000,
    ensures
        has_fields(
            r@,
            (
                (ticks % 0x1_0000_0000) as u128,
                (ticks / 0x1_0000_0000 % 0x1_0000) as u128,
                (ticks / 0x1_0000_0000_0000 % 0x1000 + 0x1000) as u128,
                (counter / 0x100 % 0x40 + 0x80) as u128,
                (counter % 0x100) as u128,
                node as u128,
            ),
        ),
        is_rfc_version(r@, 1),
        clock_seq_of(r@) == counter as nat % 0x4000,
        node_of(r@) == node as nat,
{
    let f = (
        (ticks % 0x1_0000_0000) as u128,
        (ticks / 0x1_0000_0000 % 0x1_0000) as u128,
        (ticks / 0x1_0000_0000_0000 % 0x1000 + 0x1000) as u128,
        (counter / 0x100 % 0x40 + 0x80) as u128,
        (counter % 0x100) as u128,
        node as u128,
    );
    match UUID::from_fields(f) {
        Ok(u) => {
            proof {
                lemma_view_len(u);
                lemma_time_hi_version_bytes(u@);
                let s = u@;
                let t = time_hi_version_of(s);
                assert(s[6] as nat == t / 256) by (nonlinear_arith)
                    requires
                        t == s[6] as nat * 256 + s[7] as nat,
                        s[7] < 256,
                ;
                assert(version_of(s) == 1);
                assert(clock_seq_of(s) == counter as nat % 0x4000);
            }
            u
        },
        Err(_) => UUID::from_integer(0),
    }
}

/// A version 1 UUID of the current time. The node is the low 48 bits of
/// `node`, or where none is given, of `host_node`, the host's own as found by
/// the caller; with neither there is no UUID. With a clock sequence, its low
/// 14 bits are the UUID's; without, the `uuid` crate's shared one is used.
pub fn uuid1(
    node: Option<u64>,
    clock_seq: Option<u16>,
    host_node: Option<u64>,
) -> (r: Result<UUID, UuidError>)
    ensures
        node is None && host_node is None ==> r == Err::<UUID, UuidError>(
            UuidError::EnvironmentUnavailable,
        ),
        node is Some || host_node is Some ==> {
            let given = if node is Some {
                node.unwrap()
            } else {
                host_node.unwrap()
            };
            &&& r is Ok
            &&& is_rfc_version(r.unwrap()@, 1)
            &&& node_of(r.unwrap()@) == given as nat % 0x1_0000_0000_0000
            &&& clock_seq is Some ==> clock_seq_of(r.unwrap()@) == clock_seq.unwrap() as nat
                % 0x4000
        },
{
    let chosen = match node {
        Some(n) => n,
        None => match host_node {
            Some(h) => h,
            None => {
                return Err(UuidError::EnvironmentUnavailable);
            },
        },
    };
    let n = chosen % 0x1_0000_0000_0000;
    match clock_seq {
        Some(cs) => {
            let (ticks, counter) = gregorian_now(cs);
            Ok(v1_from_timestamp(ticks, counter, n))
        },
        None => {
            let nb = node_bytes(n);
            Ok(UUID::from_array(now_v1_bytes(&nb)))
        },
    }
}

/// A version 1 UUID of the current time with a random node that has its
/// multicast bit set.
pub fn uuid_v1mc() -> (r: UUID)
    ensures
        is_rfc_version(r@, 1),
        (node_of(r@) / 0x100_0000_0000) % 2 == 1,
{
    let nb = random_node_id();
    UUID::from_array(now_v1_bytes(&nb))
}

/// The name-based UUID of `name` in `namespace`, by the given hash: version 3
/// for MD5, 5 for SHA-1.
pub fn uuid_from_name(namespace: &UUID, name: &[u8], hash: NameHash) -> (r: UUID)
    ensures
        r@ == name_uuid(hash, namespace@, name@),
        is_rfc_version(r@, if hash == NameHash::Md5 { 3nat } else { 5nat }),
{
    let ns = namespace.bytes();
    match hash {
        NameHash::Md5 => UUID::from_array(new_v3_bytes(&ns, name)),
        NameHash::Sha1 => UUID::from_array(new_v5_bytes(&ns, name)),
    }
}

/// The version 3 (MD5) UUID of `name` in `namespace`.
pub fn uuid3(namespace: &UUID, name: &[u8]) -> (r: UUID)
    ensures
        r@ == md5_name_uuid(namespace@, name@),
        is_rfc_version(r@, 3),
{
    uuid_from_name(namespace, name, NameHash::Md5)
}

/// The version 5 (SHA-1) UUID of `name` in `namespace`.
pub fn uuid5(namespace: &UUID, name: &[u8]) -> (r: UUID)
    ensures
        r@ == sha1_name_uuid(namespace@, name@),
        is_rfc_version(r@, 5),
{
    uuid_from_name(namespace, name, NameHash::Sha1)
}

/// A random (version 4) UUID.
pub fn uuid4() -> (r: UUID)
    ensures
        is_rfc_version(r@, 4),
{
    UUID::from_array(new_v4_bytes())
}

/// A time-ordered random (version 7) UUID.
pub fn uuid7() -> (r: UUID)
    ensures
        is_rfc_version(r@, 7),
{
    UUID::from_array(now_v7_bytes())
}

/// `n` random UUIDs, each made as by `uuid4`.
pub fn uuid4_bulk(n: usize) -> (r: Vec<UUID>)
    ensures
        r.len() == n,
        forall|i: int| 0 <= i < n ==> is_rfc_version(#[trigger] r[i]@, 4),
{
    let mut v: Vec<UUID> = Vec::new();
    let mut i: usize = 0;
    while i < n
        invariant
            i <= n,
            v.len() == i,
            forall|j: int| 0 <= j < i ==> is_rfc_version(#[trigger] v[j]@, 4),
        decreases n - i,
    {
        v.push(uuid4());
        i = i + 1;
    }
    v
}

/// The simple hex forms of `n` random UUIDs, each made as by `uuid4`.
pub fn uuid4_as_strings_bulk(n: usize) -> (r: Vec<String>)
    ensures
        r.len() == n,
        forall|i: int| 0 <= i < n ==> is_hex_of_version(#[trigger] r[i]@, 4),
{
    let mut v: Vec<String> = Vec::new();
    let mut i: usize = 0;
    while i < n
        invariant
            i <= n,
            v.len() == i,
            forall|j: int| 0 <= j < i ==> is_hex_of_version(#[trigger] v[j]@, 4),
        decreases n - i,
    {
        let b = new_v4_bytes();
        let t = encode_simple(&b);
        proof {
            assert(is_hex_of_version(t@, version_of(b@)));
        }
        v.push(t);
        i = i + 1;
    }
    v
}

/// `n` time-ordered random UUIDs, each made as by `uuid7`.
pub fn uuid7_bulk(n: usize) -> (r: Vec<UUID>)
    ensures
        r.len() == n,
        forall|i: int| 0 <= i < n ==> is_rfc_version(#[trigger] r[i]@, 7),
{
    let mut v: Vec<UUID> = Vec::new();
    let mut i: usize = 0;
    while i < n
        invariant
            i <= n,
            v.len() == i,
            forall|j: int| 0 <= j < i ==> is_rfc_version(#[trigger] v[j]@, 7),
        decreases n - i,
    {
        v.push(uuid7());
        i = i + 1;
    }
    v
}

/// The simple hex forms of `n` time-ordered random UUIDs, each made as by
/// `uuid7`.
pub fn uuid7_as_strings_bulk(n: usize) -> (r: Vec<String>)
    ensures
        r.len() == n,
        forall|i: int| 0 <= i < n ==> is_hex_of_version(#[trigger] r[i]@, 7),
{
    let mut v: Vec<String> = Vec::new();
    let mut i: usize = 0;
    while i < n
        invariant
            i <= n,
            v.len() == i,
            forall|j: int| 0 <= j < i ==> is_hex_of_version(#[trigger] v[j]@, 7),
        decreases n - i,
    {
        let b = now_v7_bytes();
        let t = encode_simple(&b);
        proof {
            assert(is_hex_of_version(t@, version_of(b@)));
        }
        v.push(t);
        i = i + 1;
    }
    v
}

} // verus!
