//! Numbers in byte strings.

use vstd::arithmetic::power2;
use vstd::prelude::*;

verus! {

/// The number that a byte string denotes, low byte first.
pub open spec fn le(s: Seq<u8>) -> nat
    decreases s.len(),
{
    if s.len() == 0 {
        0
    } else {
        s[0] as nat + 256 * le(s.drop_first())
    }
}

/// One more byte counts for `256` to the number of bytes before it.
pub proof fn lemma_le_push(s: Seq<u8>, b: u8)
    ensures
        le(s.push(b)) == le(s) + b * power2::pow2(8 * s.len()),
    decreases s.len(),
{
    if s.len() == 0 {
        assert(s.push(b).drop_first() =~= Seq::<u8>::empty());
        assert(le(Seq::<u8>::empty()) == 0);
        power2::lemma2_to64();
    } else {
        let rest = s.drop_first();
        assert(s.push(b).drop_first() =~= rest.push(b));
        lemma_le_push(rest, b);
        power2::lemma_pow2_adds(8, 8 * rest.len());
        power2::lemma2_to64();
        let p = power2::pow2(8 * rest.len());
        assert(256 * (b * p) == b * (256 * p)) by (nonlinear_arith);
    }
}

/// The number of four bytes.
pub proof fn lemma_le_four(s: Seq<u8>)
    requires
        s.len() == 4,
    ensures
        le(s) == s[0] + 0x100 * s[1] + 0x1_0000 * s[2] + 0x100_0000 * s[3],
{
    let a = s.drop_first();
    let b = a.drop_first();
    let c = b.drop_first();
    assert(a[0] == s[1] && b[0] == s[2] && c[0] == s[3]);
    assert(c.drop_first() =~= Seq::<u8>::empty());
    assert(le(c.drop_first()) == 0);
    assert(le(c) == s[3]);
    assert(le(b) == s[2] + 256 * le(c));
    assert(le(a) == s[1] + 256 * le(b));
}

/// Reads a 32-bit number at `off`, low byte first.
pub fn u32_le(s: &[u8], off: usize) -> (v: u32)
    requires
        off + 4 <= s@.len(),
    ensures
        v == le(s@.subrange(off as int, off + 4)),
{
    proof {
        lemma_le_four(s@.subrange(off as int, off + 4));
    }
    s[off] as u32 + 0x100 * s[off + 1] as u32 + 0x1_0000 * s[off + 2] as u32 + 0x100_0000 * s[off
        + 3] as u32
}

/// Appends a 32-bit number, low byte first.
pub fn push_u32_le(out: &mut Vec<u8>, v: u32)
    ensures
        final(out)@.len() == old(out)@.len() + 4,
        final(out)@.take(old(out)@.len() as int) == old(out)@,
        le(final(out)@.skip(old(out)@.len() as int)) == v,
{
    let ghost start = out@;
    out.push((v % 0x100) as u8);
    out.push((v / 0x100 % 0x100) as u8);
    out.push((v / 0x1_0000 % 0x100) as u8);
    out.push((v / 0x100_0000) as u8);
    proof {
        assert(out@.take(start.len() as int) =~= start);
        lemma_le_four(out@.skip(start.len() as int));
    }
}

/// The signed number of two bytes, high byte first.
pub open spec fn i16_of(hi: u8, lo: u8) -> int {
    let u = 256 * hi + lo;
    if u >= 0x8000 {
        u - 0x1_0000
    } else {
        u
    }
}

/// The signed number of two bytes.
pub fn i16_from(hi: u8, lo: u8) -> (v: i16)
    ensures
        v == i16_of(hi, lo),
{
    let u: i32 = 256 * hi as i32 + lo as i32;
    if u >= 0x8000 {
        (u - 0x1_0000) as i16
    } else {
        u as i16
    }
}

/// The signed number of two bytes is the unsigned one up to a multiple of `2^16`, in the
/// range of 16 bits.
pub proof fn law_i16_is_twos_complement(hi: u8, lo: u8)
    ensures
        -0x8000 <= i16_of(hi, lo) < 0x8000,
        i16_of(hi, lo) == 256 * hi + lo || i16_of(hi, lo) + 0x1_0000 == 256 * hi + lo,
{
}

} // verus!
