//! Byte serialization shared by every part of the image.

use vstd::arithmetic::div_mod::{lemma_hoist_over_denominator, lemma_mod_multiples_vanish};
use vstd::prelude::*;

verus! {

/// `256` raised to the power `n`.
pub open spec fn pow256(n: nat) -> int
    decreases n,
{
    if n == 0 {
        1
    } else {
        256 * pow256((n - 1) as nat)
    }
}

/// The `n` low bytes of `v`, least significant first. A negative `v` yields its
/// two's complement form, since `%` and `/` round towards negative infinity.
pub open spec fn le_bytes(v: int, n: nat) -> Seq<u8>
    decreases n,
{
    if n == 0 {
        Seq::empty()
    } else {
        seq![(v % 256) as u8] + le_bytes(v / 256, (n - 1) as nat)
    }
}

/// Adding a multiple of `256^n` does not change the `n` low bytes.
pub proof fn lemma_le_bytes_modular(v: int, k: int, n: nat)
    ensures
        le_bytes(v + k * pow256(n), n) == le_bytes(v, n),
    decreases n,
{
    if n > 0 {
        let m = k * pow256((n - 1) as nat);
        assert(k * pow256(n) == 256 * m) by (nonlinear_arith)
            requires
                pow256(n) == 256 * pow256((n - 1) as nat),
                m == k * pow256((n - 1) as nat),
        ;
        lemma_mod_multiples_vanish(m, v, 256);
        lemma_hoist_over_denominator(v, m, 256);
        lemma_le_bytes_modular(v / 256, k, (n - 1) as nat);
    }
}

pub proof fn lemma_le_bytes_len(v: int, n: nat)
    ensures
        #[trigger] le_bytes(v, n).len() == n,
    decreases n,
{
    if n > 0 {
        lemma_le_bytes_len(v / 256, (n - 1) as nat);
    }
}

/// Appends the `n` low bytes of `v` to `out`, least significant first.
pub fn push_le(out: &mut Vec<u8>, v: u64, n: usize)
    ensures
        final(out)@ == old(out)@ + le_bytes(v as int, n as nat),
{
    let mut x: u64 = v;
    let mut i: usize = 0;
    while i < n
        invariant
            i <= n,
            out@ + le_bytes(x as int, (n - i) as nat) == old(out)@ + le_bytes(v as int, n as nat),
        decreases n - i,
    {
        let ghost before = out@;
        out.push((x % 256) as u8);
        proof {
            assert(le_bytes(x as int, (n - i) as nat) == seq![(x % 256) as u8] + le_bytes(
                x as int / 256,
                (n - i - 1) as nat,
            ));
            assert(before + le_bytes(x as int, (n - i) as nat) == out@ + le_bytes(
                x as int / 256,
                (n - i - 1) as nat,
            ));
        }
        x = x / 256;
        i = i + 1;
    }
}

/// Appends the `n` low bytes of the two's complement form of `v`.
pub fn push_le_signed(out: &mut Vec<u8>, v: i64, n: usize)
    requires
        1 <= n <= 4,
        -pow256(n as nat) / 2 <= v < pow256(n as nat) / 2,
    ensures
        final(out)@ == old(out)@ + le_bytes(v as int, n as nat),
{
    proof {
        reveal_with_fuel(pow256, 5);
    }
    if v >= 0 {
        push_le(out, v as u64, n);
    } else {
        let shifted: i64 = if n == 1 {
            v + 0x100
        } else if n == 2 {
            v + 0x1_0000
        } else if n == 3 {
            v + 0x100_0000
        } else {
            v + 0x1_0000_0000
        };
        proof {
            lemma_le_bytes_modular(v as int, 1, n as nat);
        }
        push_le(out, shifted as u64, n);
    }
}

/// The `n` low bytes of `v`, least significant first.
pub fn to_le(v: u64, n: usize) -> (r: Vec<u8>)
    ensures
        r@ == le_bytes(v as int, n as nat),
{
    let mut out = Vec::new();
    push_le(&mut out, v, n);
    assert(out@ =~= le_bytes(v as int, n as nat));
    out
}

/// The `n` low bytes of the two's complement form of `v`.
pub fn to_le_signed(v: i64, n: usize) -> (r: Vec<u8>)
    requires
        1 <= n <= 4,
        -pow256(n as nat) / 2 <= v < pow256(n as nat) / 2,
    ensures
        r@ == le_bytes(v as int, n as nat),
{
    let mut out = Vec::new();
    push_le_signed(&mut out, v, n);
    assert(out@ =~= le_bytes(v as int, n as nat));
    out
}

/// Types that serialize to a flat little-endian byte buffer.
pub trait AsBytes {
    /// Whether the value has a byte form at all.
    spec fn encodable(&self) -> bool;

    /// The bytes that the value serializes to.
    spec fn encoding(&self) -> Seq<u8>;

    fn as_bytes(&self) -> (r: Vec<u8>)
        requires
            self.encodable(),
        ensures
            r@ == self.encoding(),
    ;
}

impl AsBytes for u8 {
    open spec fn encodable(&self) -> bool {
        true
    }

    open spec fn encoding(&self) -> Seq<u8> {
        le_bytes(*self as int, 1)
    }

    fn as_bytes(&self) -> (r: Vec<u8>) {
        to_le(*self as u64, 1)
    }
}

impl AsBytes for u16 {
    open spec fn encodable(&self) -> bool {
        true
    }

    open spec fn encoding(&self) -> Seq<u8> {
        le_bytes(*self as int, 2)
    }

    fn as_bytes(&self) -> (r: Vec<u8>) {
        to_le(*self as u64, 2)
    }
}

impl AsBytes for u32 {
    open spec fn encodable(&self) -> bool {
        true
    }

    open spec fn encoding(&self) -> Seq<u8> {
        le_bytes(*self as int, 4)
    }

    fn as_bytes(&self) -> (r: Vec<u8>) {
        to_le(*self as u64, 4)
    }
}

impl AsBytes for u64 {
    open spec fn encodable(&self) -> bool {
        true
    }

    open spec fn encoding(&self) -> Seq<u8> {
        le_bytes(*self as int, 8)
    }

    fn as_bytes(&self) -> (r: Vec<u8>) {
        to_le(*self, 8)
    }
}

impl AsBytes for i8 {
    open spec fn encodable(&self) -> bool {
        true
    }

    open spec fn encoding(&self) -> Seq<u8> {
        le_bytes(*self as int, 1)
    }

    fn as_bytes(&self) -> (r: Vec<u8>) {
        proof {
            reveal_with_fuel(pow256, 2);
        }
        to_le_signed(*self as i64, 1)
    }
}

impl AsBytes for i16 {
    open spec fn encodable(&self) -> bool {
        true
    }

    open spec fn encoding(&self) -> Seq<u8> {
        le_bytes(*self as int, 2)
    }

    fn as_bytes(&self) -> (r: Vec<u8>) {
        proof {
            reveal_with_fuel(pow256, 3);
        }
        to_le_signed(*self as i64, 2)
    }
}

impl AsBytes for i32 {
    open spec fn encodable(&self) -> bool {
        true
    }

    open spec fn encoding(&self) -> Seq<u8> {
        le_bytes(*self as int, 4)
    }

    fn as_bytes(&self) -> (r: Vec<u8>) {
        proof {
            reveal_with_fuel(pow256, 5);
        }
        let r = to_le_signed(*self as i64, 4);
        assert(r@ == le_bytes(*self as int, 4));
        assert(r@ == self.encoding());
        r
    }
}

impl AsBytes for [u8] {
    open spec fn encodable(&self) -> bool {
        true
    }

    open spec fn encoding(&self) -> Seq<u8> {
        self@
    }

    fn as_bytes(&self) -> (r: Vec<u8>) {
        let mut out: Vec<u8> = Vec::new();
        let mut i: usize = 0;
        while i < self.len()
            invariant
                i <= self@.len(),
                out@ == self@.subrange(0, i as int),
            decreases self@.len() - i,
        {
            out.push(self[i]);
            i = i + 1;
            assert(out@ =~= self@.subrange(0, i as int));
        }
        assert(out@ =~= self@);
        assert(out@ == self.encoding());
        out
    }
}

} // verus!
