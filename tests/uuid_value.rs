use fastuuid::{CompareOp, UuidError, Variant, UUID};

const SAMPLE: [u8; 16] = [
    0x12, 0x34, 0x56, 0x78, 0x9a, 0xbc, 0xde, 0xf0, 0x01, 0x23, 0x45, 0x67, 0x89, 0xab, 0xcd, 0xef,
];

fn sample() -> UUID {
    UUID::from_bytes(&SAMPLE).unwrap()
}

#[test]
fn bytes_round_trip() {
    let inputs: [[u8; 16]; 3] = [[0u8; 16], [0xffu8; 16], SAMPLE];
    for b in inputs.iter() {
        let u = UUID::from_bytes(b).unwrap();
        assert_eq!(u.bytes(), *b);
        assert_eq!(u.getstate(), b.to_vec());
    }
}

#[test]
fn bytes_le_round_trip() {
    let u = UUID::from_bytes_le(&SAMPLE).unwrap();
    assert_eq!(u.bytes_le(), SAMPLE);
}

#[test]
fn bytes_le_layout() {
    let u = sample();
    assert_eq!(
        u.bytes_le(),
        [
            0x78, 0x56, 0x34, 0x12, 0xbc, 0x9a, 0xf0, 0xde, 0x01, 0x23, 0x45, 0x67, 0x89, 0xab,
            0xcd, 0xef
        ]
    );
}

#[test]
fn bytes_le_twice_is_identity() {
    let u = sample();
    let once = UUID::from_bytes_le(&u.bytes()).unwrap();
    let twice = UUID::from_bytes_le(&once.bytes()).unwrap();
    assert_eq!(twice, u);
    assert_eq!(UUID::from_bytes(&u.bytes_le()).unwrap().bytes_le(), u.bytes());
}

#[test]
fn hex_round_trip() {
    for b in [[0u8; 16], [0xffu8; 16], SAMPLE].iter() {
        let u = UUID::from_bytes(b).unwrap();
        assert_eq!(UUID::from_hex(&u.hex()).unwrap(), u);
        assert_eq!(UUID::from_hex(&u.display_string()).unwrap(), u);
        assert_eq!(UUID::from_hex(&u.urn()).unwrap(), u);
    }
}

#[test]
fn text_forms() {
    let u = sample();
    assert_eq!(u.hex(), "123456789abcdef00123456789abcdef");
    assert_eq!(u.display_string(), "12345678-9abc-def0-0123-456789abcdef");
    assert_eq!(u.urn(), "urn:uuid:12345678-9abc-def0-0123-456789abcdef");
    assert_eq!(u.repr(), "UUID('12345678-9abc-def0-0123-456789abcdef')");
}

#[test]
fn hex_layouts_accepted() {
    let u = sample();
    for s in [
        "123456789abcdef00123456789abcdef",
        "123456789ABCDEF00123456789ABCDEF",
        "12345678-9abc-def0-0123-456789abcdef",
        "{12345678-9abc-def0-0123-456789abcdef}",
        "urn:uuid:12345678-9abc-def0-0123-456789abcdef",
        "URN:UUID:12345678-9ABC-DEF0-0123-456789ABCDEF",
    ]
    .iter()
    {
        assert_eq!(UUID::from_hex(s), Ok(u));
    }
}

#[test]
fn hex_layouts_rejected() {
    for s in [
        "",
        "not-a-uuid",
        "123456789abcdef00123456789abcdeg",
        "12345678-9abc-def0-0123_456789abcdef",
        "(12345678-9abc-def0-0123-456789abcdef)",
        "urn:uid::12345678-9abc-def0-0123-456789abcdef",
        "123456789abcdef00123456789abcde",
    ]
    .iter()
    {
        assert_eq!(UUID::from_hex(s), Err(UuidError::MalformedInput));
    }
}

#[test]
fn integer_round_trip() {
    for i in [0u128, 1, 0x0123_4567_89ab_cdef, u128::MAX, 1u128 << 127].iter() {
        assert_eq!(UUID::from_integer(*i).as_integer(), *i);
    }
    assert_eq!(sample().as_integer(), 0x123456789abcdef00123456789abcdef);
    assert_eq!(UUID::from_integer(0x123456789abcdef00123456789abcdef), sample());
}

#[test]
fn fields_of_sample() {
    let u = sample();
    assert_eq!(u.fields(), (0x12345678, 0x9abc, 0xdef0, 0x01, 0x23, 0x456789abcdef));
    assert_eq!(u.time_low(), 0x12345678);
    assert_eq!(u.time_mid(), 0x9abc);
    assert_eq!(u.time_hi_version(), 0xdef0);
    assert_eq!(u.clock_seq_hi_variant(), 0x01);
    assert_eq!(u.clock_seq_low(), 0x23);
    assert_eq!(u.node(), 0x456789abcdef);
    assert_eq!(u.version(), 13);
    assert_eq!(u.time(), 0x0ef0_9abc_1234_5678);
}

#[test]
fn fields_round_trip() {
    let t = (0x12345678u128, 0x9abc, 0xdef0, 0x01, 0x23, 0x456789abcdef);
    let u = UUID::from_fields(t).unwrap();
    assert_eq!(u, sample());
    let f = u.fields();
    assert_eq!(
        (f.0 as u128, f.1 as u128, f.2 as u128, f.3 as u128, f.4 as u128, f.5 as u128),
        t
    );
    let max = (0xffff_ffffu128, 0xffff, 0xffff, 0xff, 0xff, 0xffff_ffff_ffff);
    assert_eq!(UUID::from_fields(max).unwrap(), UUID::from_integer(u128::MAX));
}

#[test]
fn fields_out_of_range() {
    let ok = [0x12345678u128, 0x9abc, 0xdef0, 0x01, 0x23, 0x456789abcdef];
    let limits: [u128; 6] = [1 << 32, 1 << 16, 1 << 16, 1 << 8, 1 << 8, 1 << 48];
    let bits: [u8; 6] = [32, 16, 16, 8, 8, 48];
    for k in 0..6 {
        let mut f = ok;
        f[k] = limits[k];
        let t = (f[0], f[1], f[2], f[3], f[4], f[5]);
        assert_eq!(
            UUID::from_fields(t),
            Err(UuidError::FieldOutOfRange { field: (k + 1) as u8, bits: bits[k] })
        );
    }
    let t = (1u128 << 32, 1 << 16, 0, 0, 0, 0);
    assert_eq!(
        UUID::from_fields(t),
        Err(UuidError::FieldOutOfRange { field: 1, bits: 32 })
    );
}

#[test]
fn version_and_variant_decoding() {
    let u = UUID::from_hex("00000000-0000-4000-8000-000000000000").unwrap();
    assert_eq!(u.version(), 4);
    assert_eq!(u.variant(), Variant::Rfc4122);
    assert_eq!(u.variant().description(), "specified in RFC 4122");
}

#[test]
fn variant_classes() {
    let cases: [(u8, Variant, &str); 6] = [
        (0x00, Variant::Ncs, "reserved for NCS compatibility"),
        (0x7f, Variant::Ncs, "reserved for NCS compatibility"),
        (0x80, Variant::Rfc4122, "specified in RFC 4122"),
        (0xbf, Variant::Rfc4122, "specified in RFC 4122"),
        (0xc0, Variant::Microsoft, "reserved for Microsoft compatibility"),
        (0xe0, Variant::Future, "reserved for future definition"),
    ];
    for (byte, variant, text) in cases.iter() {
        let mut b = [0u8; 16];
        b[8] = *byte;
        let u = UUID::from_bytes(&b).unwrap();
        assert_eq!(u.variant(), *variant);
        assert_eq!(u.variant().description(), *text);
    }
}

#[test]
fn ordering_and_equality() {
    let a = UUID::from_integer(1);
    let b = UUID::from_integer(2);
    let c = UUID::from_integer(1u128 << 120);
    assert!(a.richcmp(&a, CompareOp::Eq));
    assert!(!a.richcmp(&a, CompareOp::Ne));
    assert!(a.richcmp(&a, CompareOp::Le) && a.richcmp(&a, CompareOp::Ge));
    assert!(!a.richcmp(&a, CompareOp::Lt) && !a.richcmp(&a, CompareOp::Gt));
    for (x, y) in [(a, b), (b, c), (a, c)].iter() {
        assert!(x.richcmp(y, CompareOp::Lt));
        assert!(!x.richcmp(y, CompareOp::Gt));
        assert!(y.richcmp(x, CompareOp::Gt));
        assert!(x.richcmp(y, CompareOp::Ne));
        assert!(x.richcmp(y, CompareOp::Le));
        assert!(!x.richcmp(y, CompareOp::Ge));
        assert!(x < y);
        assert_eq!(x.as_integer() < y.as_integer(), x.bytes() < y.bytes());
    }
}

#[test]
fn malformed_inputs() {
    assert_eq!(UUID::from_hex("not-a-uuid"), Err(UuidError::MalformedInput));
    assert_eq!(UUID::from_bytes(&[0u8; 15]), Err(UuidError::MalformedInput));
    assert_eq!(UUID::from_bytes_le(&[0u8; 17]), Err(UuidError::MalformedInput));
    assert_eq!(
        UUID::new(Some("00000000-0000-4000-8000-000000000000"), None, None, None, Some(5), None),
        Err(UuidError::AmbiguousInput)
    );
    assert_eq!(
        UUID::new(None, None, None, None, None, None),
        Err(UuidError::MissingInput)
    );
}

#[test]
fn constructor_shapes() {
    let u = sample();
    assert_eq!(
        UUID::new(Some("12345678-9abc-def0-0123-456789abcdef"), None, None, None, None, None),
        Ok(u)
    );
    assert_eq!(UUID::new(None, Some(&SAMPLE[..]), None, None, None, None), Ok(u));
    assert_eq!(UUID::new(None, None, Some(&u.bytes_le()[..]), None, None, None), Ok(u));
    assert_eq!(
        UUID::new(None, None, None, Some((0x12345678, 0x9abc, 0xdef0, 0x01, 0x23, 0x456789abcdef)), None, None),
        Ok(u)
    );
    assert_eq!(UUID::new(None, None, None, None, Some(u.as_integer()), None), Ok(u));
    assert_eq!(
        UUID::new(None, Some(&SAMPLE[..]), None, None, Some(1), None),
        Err(UuidError::AmbiguousInput)
    );
    assert_eq!(
        UUID::new(None, Some(&SAMPLE[..15]), None, None, None, None),
        Err(UuidError::MalformedInput)
    );
}

#[test]
fn version_override() {
    let v = UUID::new(None, Some(&SAMPLE[..]), None, None, None, Some(4)).unwrap();
    assert_eq!(v.version(), 4);
    assert_eq!(v.hex(), "123456789abc4ef00123456789abcdef");
    let le = UUID::new(None, None, Some(&SAMPLE[..]), None, None, Some(1)).unwrap();
    assert_eq!(le.version(), 1);
    // ignored for text and integer input
    let h = UUID::new(Some("123456789abcdef00123456789abcdef"), None, None, None, None, Some(3)).unwrap();
    assert_eq!(h.version(), 13);
    let i = UUID::new(None, None, None, None, Some(0), Some(2)).unwrap();
    assert_eq!(i.version(), 0);
    for bad in [0u8, 6, 255].iter() {
        assert_eq!(
            UUID::new(None, Some(&SAMPLE[..]), None, None, None, Some(*bad)),
            Err(UuidError::InvalidVersion)
        );
    }
}

#[test]
fn state_round_trip() {
    let u = sample();
    let mut w = UUID::from_integer(0);
    assert_eq!(w.setstate(&u.getstate()), Ok(()));
    assert_eq!(w, u);
    assert_eq!(w.setstate(&[1u8; 15]), Err(UuidError::MalformedInput));
    assert_eq!(w, u);
}
