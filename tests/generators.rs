use fastuuid::{
    node_bytes, node_from_random, uuid1, uuid3, uuid4, uuid4_as_strings_bulk, uuid4_bulk, uuid5,
    uuid7, uuid7_as_strings_bulk, uuid7_bulk, uuid_from_name, uuid_v1mc, v1_from_timestamp,
    NameHash, UuidError, Variant, UUID,
};
use std::collections::HashSet;

fn namespace_dns() -> UUID {
    UUID::from_hex("6ba7b810-9dad-11d1-80b4-00c04fd430c8").unwrap()
}

#[test]
fn name_based_known_vectors() {
    let ns = namespace_dns();
    assert_eq!(
        uuid3(&ns, b"python.org").display_string(),
        "6fa459ea-ee8a-3ca4-894e-db77e160355e"
    );
    assert_eq!(
        uuid5(&ns, b"python.org").display_string(),
        "886313e1-3b8a-5372-9b90-0c9aee199e5d"
    );
    assert_eq!(
        uuid3(&ns, b"example.org").display_string(),
        "04738bdf-b25a-3829-a801-b21a1d25095b"
    );
    assert_eq!(
        uuid5(&ns, b"example.org").display_string(),
        "aad03681-8b63-5304-89e0-8ca8f49461b5"
    );
}

#[test]
fn name_based_deterministic() {
    let ns = namespace_dns();
    assert_eq!(uuid5(&ns, b"name"), uuid5(&ns, b"name"));
    assert_eq!(uuid3(&ns, b"name"), uuid3(&ns, b"name"));
    assert_ne!(uuid5(&ns, b"name1"), uuid5(&ns, b"name2"));
    assert_ne!(uuid3(&ns, b"name1"), uuid3(&ns, b"name2"));
    assert_eq!(uuid_from_name(&ns, b"x", NameHash::Md5), uuid3(&ns, b"x"));
    assert_eq!(uuid_from_name(&ns, b"x", NameHash::Sha1), uuid5(&ns, b"x"));
    let v5 = uuid5(&ns, b"name");
    assert_eq!(v5.version(), 5);
    assert_eq!(v5.variant(), Variant::Rfc4122);
    assert_eq!(uuid3(&ns, b"name").version(), 3);
    // a name-based UUID serves as a namespace in its turn
    let nested = uuid5(&v5, b"child");
    assert_eq!(nested, uuid5(&uuid5(&ns, b"name"), b"child"));
    assert_ne!(nested, v5);
}

#[test]
fn random_uuid_shape() {
    let u = uuid4();
    assert_eq!(u.version(), 4);
    assert_eq!(u.variant(), Variant::Rfc4122);
    let v = uuid7();
    assert_eq!(v.version(), 7);
    assert_eq!(v.variant(), Variant::Rfc4122);
}

#[test]
fn bulk_lengths() {
    for n in [0usize, 1, 7, 1000].iter() {
        assert_eq!(uuid4_bulk(*n).len(), *n);
        assert_eq!(uuid7_bulk(*n).len(), *n);
        assert_eq!(uuid4_as_strings_bulk(*n).len(), *n);
        assert_eq!(uuid7_as_strings_bulk(*n).len(), *n);
    }
}

#[test]
fn bulk_distinct() {
    let v = uuid4_bulk(5000);
    let set: HashSet<UUID> = v.iter().cloned().collect();
    assert_eq!(set.len(), 5000);
    for u in v.iter() {
        assert_eq!(u.version(), 4);
        assert_eq!(u.variant(), Variant::Rfc4122);
    }
    let s = uuid4_as_strings_bulk(5000);
    let set: HashSet<String> = s.iter().cloned().collect();
    assert_eq!(set.len(), 5000);
    for t in s.iter() {
        assert_eq!(t.len(), 32);
        let u = UUID::from_hex(t).unwrap();
        assert_eq!(u.version(), 4);
        assert_eq!(&u.hex(), t);
    }
}

#[test]
fn bulk_v7_time_prefix_non_decreasing() {
    let v = uuid7_bulk(2000);
    let mut last: u128 = 0;
    for u in v.iter() {
        assert_eq!(u.version(), 7);
        let prefix = u.as_integer() >> 80;
        assert!(prefix >= last);
        last = prefix;
    }
    for t in uuid7_as_strings_bulk(100).iter() {
        let u = UUID::from_hex(t).unwrap();
        assert_eq!(u.version(), 7);
        assert_eq!(u.variant(), Variant::Rfc4122);
    }
}

#[test]
fn v1_with_node_and_clock_seq() {
    let node: u64 = 0x1234_5678_9abc_def0;
    let u = uuid1(Some(node), Some(0x3abc), None).unwrap();
    assert_eq!(u.version(), 1);
    assert_eq!(u.variant(), Variant::Rfc4122);
    assert_eq!(u.node(), 0x5678_9abc_def0);
    assert_eq!(u.clock_seq_hi_variant() & 0x3f, 0x3a);
    assert_eq!(u.clock_seq_low(), 0xbc);
    let w = uuid1(Some(0x0102_0304_0506), None, Some(0xffff)).unwrap();
    assert_eq!(w.version(), 1);
    assert_eq!(w.node(), 0x0102_0304_0506);
    let big = uuid1(Some(1), Some(0xffff), None).unwrap();
    assert_eq!(big.clock_seq_hi_variant(), 0xbf);
    assert_eq!(big.clock_seq_low(), 0xff);
}

#[test]
fn v1_node_fallback() {
    let u = uuid1(None, None, Some(0x0a0b_0c0d_0e0f)).unwrap();
    assert_eq!(u.node(), 0x0a0b_0c0d_0e0f);
    assert_eq!(u.version(), 1);
    let w = uuid1(None, Some(7), Some(0xffff_0000_0000_0001)).unwrap();
    assert_eq!(w.node(), 1);
    assert_eq!(w.clock_seq_low(), 7);
    assert_eq!(uuid1(None, Some(1), None), Err(UuidError::EnvironmentUnavailable));
    assert_eq!(uuid1(None, None, None), Err(UuidError::EnvironmentUnavailable));
}

#[test]
fn v1_layout_from_timestamp() {
    let ticks: u64 = 0x0fed_cba9_8765_4321;
    let u = v1_from_timestamp(ticks, 0x1234, 0xaabb_ccdd_eeff);
    assert_eq!(u.time_low(), 0x8765_4321);
    assert_eq!(u.time_mid(), 0xcba9);
    assert_eq!(u.time_hi_version(), 0x1fed);
    assert_eq!(u.clock_seq_hi_variant(), 0x92);
    assert_eq!(u.clock_seq_low(), 0x34);
    assert_eq!(u.node(), 0xaabb_ccdd_eeff);
    assert_eq!(u.time(), ticks);
    assert_eq!(u.display_string(), "87654321-cba9-1fed-9234-aabbccddeeff");
}

#[test]
fn v1mc_node_is_multicast() {
    for _ in 0..100 {
        let u = uuid_v1mc();
        assert_eq!(u.version(), 1);
        assert_eq!(u.variant(), Variant::Rfc4122);
        assert_eq!((u.node() >> 40) & 1, 1);
    }
}

#[test]
fn multicast_node_from_random_bits() {
    assert_eq!(node_from_random(0), 0x0100_0000_0000);
    assert_eq!(node_from_random(0xffff_0000_0000_0000), 0x0100_0000_0000);
    assert_eq!(node_from_random(0x1234_5678_9abc_def0), 0x5778_9abc_def0);
    assert_eq!(node_from_random(u64::MAX), 0xffff_ffff_ffff);
    assert_eq!(node_bytes(0x0102_0304_0506), [1, 2, 3, 4, 5, 6]);
}
