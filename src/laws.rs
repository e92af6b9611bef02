//! Properties that relate several operations of the crate, stated over the
//! specifications that the operations' contracts use.

use vstd::prelude::*;

use crate::bytes::{
    be_value, lemma_be_value_first_difference, lemma_be_value_injective,
};
use crate::generate::{name_uuid, NameHash};
use crate::text::{hyphenated_hex, lemma_parse_text_round_trip, parse_text, simple_hex, urn_text};
use crate::value::{
    compare_spec, has_fields, lemma_view_injective, lemma_view_len, swap_le, CompareOp, UUID,
};

verus! {

/// Reading back the exported bytes gives the same UUID:
/// `from_bytes(u.bytes()) == u`, and `setstate` after `getstate` restores it.
pub proof fn lemma_bytes_round_trip(u: UUID, w: UUID)
    requires
        w@ == u@,
    ensures
        w == u,
{
    lemma_view_injective(w, u);
}

/// The little-endian layout is its own inverse: `bytes_le` of
/// `from_bytes_le(b)` is `b`.
pub proof fn lemma_little_endian_round_trip(b: Seq<u8>)
    requires
        b.len() == 16,
    ensures
        swap_le(swap_le(b)) == b,
{
    assert(swap_le(swap_le(b)) =~= b);
}

/// Each text form of a UUID parses back to it: `from_hex(u.hex()) == u`, and
/// so for the hyphenated and URN forms.
pub proof fn lemma_hex_round_trip(u: UUID)
    ensures
        parse_text(simple_hex(u@)) == Some(u@),
        parse_text(hyphenated_hex(u@)) == Some(u@),
        parse_text(urn_text(u@)) == Some(u@),
{
    lemma_view_len(u);
    lemma_parse_text_round_trip(u@);
}

/// A UUID and its integer determine each other:
/// `from_integer(u.as_integer()) == u`.
pub proof fn lemma_integer_round_trip(u: UUID, w: UUID)
    requires
        be_value(w@) == be_value(u@),
    ensures
        w == u,
{
    lemma_view_len(u);
    lemma_view_len(w);
    lemma_be_value_injective(w@, u@);
    lemma_view_injective(w, u);
}

/// The field tuple of a UUID determines it: `from_fields(u.fields()) == u`,
/// and `fields` reads back the tuple that `from_fields` packed.
pub proof fn lemma_fields_round_trip(
    u: UUID,
    w: UUID,
    f: (u128, u128, u128, u128, u128, u128),
)
    requires
        has_fields(u@, f),
        has_fields(w@, f),
    ensures
        w == u,
{
    lemma_view_len(u);
    lemma_view_len(w);
    let a = u@;
    let b = w@;
    lemma_be_value_injective(a.subrange(0, 4), b.subrange(0, 4));
    lemma_be_value_injective(a.subrange(4, 6), b.subrange(4, 6));
    lemma_be_value_injective(a.subrange(6, 8), b.subrange(6, 8));
    lemma_be_value_injective(a.subrange(10, 16), b.subrange(10, 16));
    assert forall|i: int| 0 <= i < 16 implies a[i] == b[i] by {
        if i < 4 {
            assert(a[i] == a.subrange(0, 4)[i]);
            assert(b[i] == b.subrange(0, 4)[i]);
        } else if i < 6 {
            assert(a[i] == a.subrange(4, 6)[i - 4]);
            assert(b[i] == b.subrange(4, 6)[i - 4]);
        } else if i < 8 {
            assert(a[i] == a.subrange(6, 8)[i - 6]);
            assert(b[i] == b.subrange(6, 8)[i - 6]);
        } else if i >= 10 {
            assert(a[i] == a.subrange(10, 16)[i - 10]);
            assert(b[i] == b.subrange(10, 16)[i - 10]);
        }
    }
    assert(a =~= b);
    lemma_view_injective(w, u);
}

/// Name-based generation is deterministic: the same hash, namespace and name
/// give the same UUID.
pub proof fn lemma_name_uuid_deterministic(
    hash: NameHash,
    namespace: UUID,
    name: Seq<u8>,
    a: UUID,
    b: UUID,
)
    requires
        a@ == name_uuid(hash, namespace@, name),
        b@ == name_uuid(hash, namespace@, name),
    ensures
        a == b,
{
    lemma_view_injective(a, b);
}

/// Every UUID equals itself, and of two different UUIDs exactly one is the
/// smaller.
pub proof fn lemma_order_total(a: UUID, b: UUID)
    ensures
        compare_spec(a@, a@, CompareOp::Eq),
        compare_spec(a@, b@, CompareOp::Eq) <==> a == b,
        a != b ==> (compare_spec(a@, b@, CompareOp::Lt) != compare_spec(a@, b@, CompareOp::Gt)),
        a == b ==> !compare_spec(a@, b@, CompareOp::Lt) && !compare_spec(a@, b@, CompareOp::Gt),
{
    lemma_view_len(a);
    lemma_view_len(b);
    if a@ == b@ {
        lemma_view_injective(a, b);
    }
    if be_value(a@) == be_value(b@) {
        lemma_be_value_injective(a@, b@);
        lemma_view_injective(a, b);
    }
}

/// The order is that of the bytes from the first on: where two UUIDs first
/// differ, the one with the smaller byte is the smaller.
pub proof fn lemma_order_bytewise(a: UUID, b: UUID, k: int)
    requires
        0 <= k < 16,
        a@.subrange(0, k) == b@.subrange(0, k),
        a@[k] < b@[k],
    ensures
        compare_spec(a@, b@, CompareOp::Lt),
{
    lemma_view_len(a);
    lemma_view_len(b);
    lemma_be_value_first_difference(a@, b@, k);
}

} // verus!
