//! The identifier's bytes read as one 128-bit number, in big- or little-endian
//! order, and the way back from the number to the bytes.
use vstd::prelude::*;

use crate::Bytes;

verus! {

/// The number whose base-256 digits, most significant first, are `b`.
pub open spec fn be_value(b: Seq<u8>) -> nat
    decreases b.len(),
{
    if b.len() == 0 {
        0
    } else {
        (be_value(b.drop_last()) * 256 + b.last()) as nat
    }
}

/// The number whose base-256 digits, least significant first, are `b`.
pub open spec fn le_value(b: Seq<u8>) -> nat {
    be_value(b.reverse())
}

/// The `n` lowest base-256 digits of `x`, most significant first.
pub open spec fn be_bytes(x: nat, n: nat) -> Seq<u8>
    decreases n,
{
    if n == 0 {
        Seq::empty()
    } else {
        be_bytes(x / 256, (n - 1) as nat).push((x % 256) as u8)
    }
}

/// The `n` lowest base-256 digits of `x`, least significant first.
pub open spec fn le_bytes(x: nat, n: nat) -> Seq<u8> {
    be_bytes(x, n).reverse()
}

/// 256 to the power `n`: one more than the largest value of `n` bytes.
pub open spec fn radix_pow(n: nat) -> nat
    decreases n,
{
    if n == 0 {
        1
    } else {
        256 * radix_pow((n - 1) as nat)
    }
}

proof fn lemma_radix_pow_16()
    ensures
        radix_pow(16) == u128::MAX + 1,
{
    reveal_with_fuel(radix_pow, 17);
}

/// The value of one more digit appended to `b`.
proof fn lemma_be_value_push(b: Seq<u8>, d: u8)
    ensures
        be_value(b.push(d)) == be_value(b) * 256 + d,
{
    assert(b.push(d).drop_last() =~= b);
}

/// Reading one more digit keeps the value below the next power of 256.
proof fn lemma_be_step_bound(v: nat, d: u8, n: nat)
    requires
        v < radix_pow(n),
    ensures
        v * 256 + d < radix_pow(n + 1),
{
    let p = radix_pow(n);
    assert(radix_pow(n + 1) == 256 * p);
    assert(v * 256 + d < 256 * p) by (nonlinear_arith)
        requires
            v < p,
            d < 256,
    ;
}

/// Reads the sixteen bytes as a number, the first byte the most significant.
pub fn u128_from_be(b: &Bytes) -> (r: u128)
    ensures
        r == be_value(b@),
{
    let mut acc: u128 = 0;
    let mut i: usize = 0;
    while i < 16
        invariant
            i <= 16,
            acc == be_value(b@.subrange(0, i as int)),
            acc < radix_pow(i as nat),
        decreases 16 - i,
    {
        proof {
            assert(b@.subrange(0, i as int + 1) =~= b@.subrange(0, i as int).push(b@[i as int]));
            lemma_be_value_push(b@.subrange(0, i as int), b@[i as int]);
            lemma_be_step_bound(acc as nat, b@[i as int], i as nat);
            lemma_radix_pow_mono((i + 1) as nat, 16);
            lemma_radix_pow_16();
        }
        acc = acc * 256 + b[i] as u128;
        i = i + 1;
    }
    assert(b@.subrange(0, 16) =~= b@);
    acc
}

/// Reads the sixteen bytes as a number, the first byte the least significant.
pub fn u128_from_le(b: &Bytes) -> (r: u128)
    ensures
        r == le_value(b@),
{
    let mut acc: u128 = 0;
    let mut i: usize = 16;
    while i > 0
        invariant
            i <= 16,
            acc == be_value(b@.subrange(i as int, 16).reverse()),
            acc < radix_pow((16 - i) as nat),
        decreases i,
    {
        let j = i - 1;
        proof {
            let tail = b@.subrange(i as int, 16).reverse();
            assert(b@.subrange(j as int, 16).reverse() =~= tail.push(b@[j as int]));
            lemma_be_value_push(tail, b@[j as int]);
            lemma_be_step_bound(acc as nat, b@[j as int], (16 - i) as nat);
            lemma_radix_pow_mono((16 - j) as nat, 16);
            lemma_radix_pow_16();
        }
        acc = acc * 256 + b[j] as u128;
        i = j;
    }
    assert(b@.subrange(0, 16) =~= b@);
    acc
}

proof fn lemma_radix_pow_mono(m: nat, n: nat)
    requires
        m <= n,
    ensures
        radix_pow(m) <= radix_pow(n),
    decreases n,
{
    if m < n {
        lemma_radix_pow_mono(m, (n - 1) as nat);
    }
}

/// Splitting the big-endian value of `b` back into `b.len()` digits gives `b`.
pub proof fn lemma_be_round_trip(b: Seq<u8>)
    ensures
        be_bytes(be_value(b), b.len()) == b,
    decreases b.len(),
{
    if b.len() > 0 {
        let rest = b.drop_last();
        let v = be_value(rest);
        let d = b.last();
        let x = v * 256 + d;
        assert(x / 256 == v && x % 256 == d) by (nonlinear_arith)
            requires
                x == v * 256 + d,
                d < 256,
        ;
        lemma_be_round_trip(rest);
        assert(rest.push(d) =~= b);
    }
}

/// Splitting the little-endian value of `b` back into `b.len()` digits,
/// least significant first, gives `b`.
pub proof fn lemma_le_round_trip(b: Seq<u8>)
    ensures
        le_bytes(le_value(b), b.len()) == b,
{
    lemma_be_round_trip(b.reverse());
    assert(b.reverse().reverse() =~= b);
}

} // verus!
