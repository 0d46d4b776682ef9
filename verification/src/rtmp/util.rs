//! Integers from a few bytes.

use vstd::prelude::*;

use crate::bytes::{be_value, le_value};

verus! {

/// 256 to the power `n`.
pub open spec fn pow256(n: nat) -> nat
    decreases n,
{
    if n == 0 {
        1
    } else {
        256 * pow256((n - 1) as nat)
    }
}

/// A big-endian value of `n` bytes is below 256^n.
proof fn lemma_be_value_bound(s: Seq<u8>)
    ensures
        0 <= be_value(s) < pow256(s.len()),
    decreases s.len(),
{
    if s.len() > 0 {
        lemma_be_value_bound(s.drop_last());
        let a = be_value(s.drop_last());
        let p = pow256((s.len() - 1) as nat);
        let b = s.last() as int;
        assert(a * 256 + b < p * 256) by (nonlinear_arith)
            requires
                0 <= a < p,
                0 <= b < 256,
        ;
    }
}

/// A little-endian value of `n` bytes is below 256^n.
proof fn lemma_le_value_bound(s: Seq<u8>)
    ensures
        0 <= le_value(s) < pow256(s.len()),
    decreases s.len(),
{
    if s.len() > 0 {
        lemma_le_value_bound(s.drop_first());
        let a = le_value(s.drop_first());
        let p = pow256((s.len() - 1) as nat);
        let b = s[0] as int;
        assert(b + 256 * a < 256 * p) by (nonlinear_arith)
            requires
                0 <= a < p,
                0 <= b < 256,
        ;
    }
}

/// The bytes of `raw` (at most four) read as a big-endian integer.
pub fn raw_u32_be(raw: &[u8]) -> (r: u32)
    requires
        raw@.len() <= 4,
    ensures
        r == be_value(raw@),
{
    let mut r: u32 = 0;
    let mut i: usize = 0;
    assert(raw@.take(0) =~= Seq::<u8>::empty());
    while i < raw.len()
        invariant
            i <= raw@.len() <= 4,
            r == be_value(raw@.take(i as int)),
        decreases raw@.len() - i,
    {
        proof {
            lemma_be_value_bound(raw@.take(i as int));
            assert(pow256(0) == 1);
            assert(pow256(1) == 256);
            assert(pow256(2) == 65536);
            assert(pow256(3) == 16777216);
            assert(raw@.take(i + 1).drop_last() =~= raw@.take(i as int));
        }
        r = r * 256 + raw[i] as u32;
        i = i + 1;
    }
    assert(raw@.take(i as int) =~= raw@);
    r
}

/// The bytes of `raw` (at most four) read as a little-endian integer.
pub fn raw_u32_le(raw: &[u8]) -> (r: u32)
    requires
        raw@.len() <= 4,
    ensures
        r == le_value(raw@),
{
    let mut r: u32 = 0;
    let mut i: usize = raw.len();
    assert(raw@.skip(raw@.len() as int) =~= Seq::<u8>::empty());
    while i > 0
        invariant
            i <= raw@.len() <= 4,
            r == le_value(raw@.skip(i as int)),
        decreases i,
    {
        proof {
            lemma_le_value_bound(raw@.skip(i as int));
            assert(pow256(0) == 1);
            assert(pow256(1) == 256);
            assert(pow256(2) == 65536);
            assert(pow256(3) == 16777216);
            assert(raw@.skip(i - 1).drop_first() =~= raw@.skip(i as int));
        }
        r = r * 256 + raw[i - 1] as u32;
        i = i - 1;
    }
    assert(raw@.skip(0) =~= raw@);
    r
}

/// Bytes read as a little-endian integer give the integer that the same
/// bytes in reverse order give read as a big-endian one; so `raw_u32_le` of
/// some bytes is `raw_u32_be` of them reversed.
pub proof fn lemma_le_is_reversed_be(s: Seq<u8>)
    ensures
        le_value(s) == be_value(s.reverse()),
    decreases s.len(),
{
    if s.len() > 0 {
        lemma_le_is_reversed_be(s.drop_first());
        let r = s.reverse();
        assert(r.drop_last() =~= s.drop_first().reverse());
        assert(r.last() == s[0]);
    }
}

} // verus!
