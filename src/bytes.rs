//! Big-endian reading and writing of unsigned integers in a 16-byte buffer.

use vstd::prelude::*;

verus! {

/// `256^n`.
pub open spec fn pow256(n: nat) -> nat
    decreases n,
{
    if n == 0 {
        1
    } else {
        256 * pow256((n - 1) as nat)
    }
}

/// The unsigned integer whose big-endian representation is `s`.
pub open spec fn be_value(s: Seq<u8>) -> nat
    decreases s.len(),
{
    if s.len() == 0 {
        0
    } else {
        be_value(s.drop_last()) * 256 + s.last() as nat
    }
}

pub proof fn lemma_pow256_positive(n: nat)
    ensures
        pow256(n) > 0,
    decreases n,
{
    if n > 0 {
        lemma_pow256_positive((n - 1) as nat);
    }
}

pub proof fn lemma_pow256_monotonic(m: nat, n: nat)
    requires
        m <= n,
    ensures
        pow256(m) <= pow256(n),
    decreases n,
{
    if m < n {
        lemma_pow256_monotonic(m, (n - 1) as nat);
        lemma_pow256_positive((n - 1) as nat);
    }
}

pub proof fn lemma_pow256_16()
    ensures
        pow256(16) == 0x1_0000_0000_0000_0000_0000_0000_0000_0000,
{
    reveal_with_fuel(pow256, 17);
}

pub proof fn lemma_pow256_small()
    ensures
        pow256(1) == 0x100,
        pow256(2) == 0x1_0000,
        pow256(4) == 0x1_0000_0000,
        pow256(6) == 0x1_0000_0000_0000,
{
    reveal_with_fuel(pow256, 7);
}

/// A big-endian value of `n` bytes is below `256^n`.
pub proof fn lemma_be_value_bound(s: Seq<u8>)
    ensures
        be_value(s) < pow256(s.len()),
    decreases s.len(),
{
    if s.len() > 0 {
        let p = s.drop_last();
        lemma_be_value_bound(p);
        let b = be_value(p);
        let q = pow256(p.len());
        let l = s.last() as nat;
        assert(b * 256 + l < q * 256) by (nonlinear_arith)
            requires
                b < q,
                l < 256,
        ;
    }
}

/// Splitting a byte string splits its big-endian value.
pub proof fn lemma_be_value_append(a: Seq<u8>, b: Seq<u8>)
    ensures
        be_value(a + b) == be_value(a) * pow256(b.len()) + be_value(b),
    decreases b.len(),
{
    if b.len() == 0 {
        assert(a + b =~= a);
        assert(pow256(0) == 1);
        assert(be_value(b) == 0);
    } else {
        let b2 = b.drop_last();
        assert((a + b).drop_last() =~= a + b2);
        assert((a + b).last() == b.last());
        lemma_be_value_append(a, b2);
        let x = be_value(a);
        let y = be_value(b2);
        let p = pow256(b2.len());
        let l = b.last() as nat;
        assert(be_value(a + b) == be_value(a + b2) * 256 + l);
        assert(be_value(b) == y * 256 + l);
        assert(pow256(b.len()) == 256 * p);
        assert((x * p + y) * 256 + l == x * (256 * p) + (y * 256 + l)) by (nonlinear_arith);
    }
}

/// The value of one byte.
pub proof fn lemma_be_value_single(x: u8)
    ensures
        be_value(seq![x]) == x as nat,
{
    assert(seq![x].drop_last() =~= Seq::<u8>::empty());
    assert(be_value(Seq::<u8>::empty()) == 0);
    assert(seq![x].last() == x);
}

/// Byte strings of one length with one big-endian value are equal.
pub proof fn lemma_be_value_injective(a: Seq<u8>, b: Seq<u8>)
    requires
        a.len() == b.len(),
        be_value(a) == be_value(b),
    ensures
        a == b,
    decreases a.len(),
{
    if a.len() > 0 {
        let x = be_value(a.drop_last());
        let y = be_value(b.drop_last());
        let l = a.last() as nat;
        let m = b.last() as nat;
        assert(x * 256 + l == y * 256 + m);
        assert(x == y && l == m) by (nonlinear_arith)
            requires
                x * 256 + l == y * 256 + m,
                l < 256,
                m < 256,
        ;
        lemma_be_value_injective(a.drop_last(), b.drop_last());
        assert(a =~= a.drop_last().push(a.last()));
        assert(b =~= b.drop_last().push(b.last()));
    } else {
        assert(a =~= b);
    }
}

/// Where two byte strings of one length first differ, the smaller byte
/// belongs to the smaller big-endian value.
pub proof fn lemma_be_value_first_difference(a: Seq<u8>, b: Seq<u8>, k: int)
    requires
        a.len() == b.len(),
        0 <= k < a.len(),
        a.subrange(0, k) == b.subrange(0, k),
        a[k] < b[k],
    ensures
        be_value(a) < be_value(b),
{
    let n = a.len() as int;
    let p = a.subrange(0, k);
    let ra = a.subrange(k + 1, n);
    let rb = b.subrange(k + 1, n);
    assert(a =~= p + (seq![a[k]] + ra));
    assert(b =~= p + (seq![b[k]] + rb));
    lemma_be_value_append(p, seq![a[k]] + ra);
    lemma_be_value_append(p, seq![b[k]] + rb);
    lemma_be_value_append(seq![a[k]], ra);
    lemma_be_value_append(seq![b[k]], rb);
    lemma_be_value_single(a[k]);
    lemma_be_value_single(b[k]);
    lemma_be_value_bound(ra);
    lemma_be_value_bound(rb);
    let q = pow256(ra.len());
    let x = a[k] as nat;
    let y = b[k] as nat;
    let u = be_value(ra);
    let w = be_value(rb);
    assert(x * q + u < y * q + w) by (nonlinear_arith)
        requires
            x < y,
            u < q,
    ;
    let r = pow256((n - k) as nat);
    let e = be_value(p);
    let sa = x * q + u;
    let sb = y * q + w;
    assert(e * r + sa < e * r + sb);
}

/// Reads the `len` bytes of `b` from `start` on as a big-endian integer.
pub fn read_be(b: &[u8; 16], start: usize, len: usize) -> (r: u128)
    requires
        start + len <= 16,
    ensures
        r as nat == be_value(b@.subrange(start as int, start + len)),
{
    let mut acc: u128 = 0;
    let mut i: usize = start;
    proof {
        assert(b@.subrange(start as int, start as int) =~= Seq::<u8>::empty());
    }
    while i < start + len
        invariant
            start <= i <= start + len,
            start + len <= 16,
            acc as nat == be_value(b@.subrange(start as int, i as int)),
        decreases start + len - i,
    {
        let ghost prev = b@.subrange(start as int, i as int);
        proof {
            lemma_be_value_bound(prev);
            lemma_pow256_monotonic(prev.len(), 15);
            lemma_pow256_16();
            assert(pow256(16) == 256 * pow256(15));
            let p = pow256(15);
            let a = acc as nat;
            let x = b[i as int] as nat;
            assert(a * 256 + x < 256 * p) by (nonlinear_arith)
                requires
                    a < p,
                    x < 256,
            ;
            assert(b@.subrange(start as int, i + 1).drop_last() =~= prev);
        }
        acc = acc * 256 + b[i] as u128;
        i = i + 1;
    }
    acc
}

/// Writes `v` as a big-endian integer into the `len` bytes of `b` from `start`
/// on, leaving the other bytes as they were.
pub fn write_be(b: &mut [u8; 16], start: usize, len: usize, v: u128)
    requires
        start + len <= 16,
        (v as nat) < pow256(len as nat),
    ensures
        be_value(final(b)@.subrange(start as int, start + len)) == v as nat,
        forall|j: int|
            0 <= j < 16 && !(start <= j < start + len) ==> #[trigger] final(b)@[j] == old(b)@[j],
{
    let mut x: u128 = v;
    let mut k: usize = 0;
    let end: usize = start + len;
    proof {
        assert(b@.subrange(end as int, end as int) =~= Seq::<u8>::empty());
        assert(be_value(Seq::<u8>::empty()) == 0);
        assert(pow256(0) == 1);
    }
    while k < len
        invariant
            k <= len,
            end == start + len,
            end <= 16,
            v as nat == be_value(b@.subrange(end - k, end as int)) + x as nat * pow256(k as nat),
            forall|j: int|
                0 <= j < 16 && !(end - k <= j < end) ==> #[trigger] b@[j] == old(b)@[j],
        decreases len - k,
    {
        let pos: usize = end - 1 - k;
        let byte: u8 = (x % 256) as u8;
        let ghost seg = b@.subrange(end - k, end as int);
        let ghost x0 = x as nat;
        b[pos] = byte;
        x = x / 256;
        proof {
            let nseg = b@.subrange(pos as int, end as int);
            assert(seg =~= b@.subrange(end - k, end as int));
            assert(nseg =~= seq![byte] + seg);
            lemma_be_value_append(seq![byte], seg);
            lemma_be_value_single(byte);
            let p = pow256(k as nat);
            let xn = x as nat;
            let bn = byte as nat;
            assert(x0 == xn * 256 + bn);
            assert(x0 * p == bn * p + xn * (256 * p)) by (nonlinear_arith)
                requires
                    x0 == xn * 256 + bn,
            ;
        }
        k = k + 1;
    }
    proof {
        let s = b@.subrange(start as int, end as int);
        let p = pow256(len as nat);
        let xn = x as nat;
        let e = be_value(s);
        assert(xn == 0) by (nonlinear_arith)
            requires
                v as nat == e + xn * p,
                (v as nat) < p,
        ;
    }
}

} // verus!
