//! Conversion of big-endian bit fields (most significant bit first) into integers.

use vstd::prelude::*;
use vstd::arithmetic::power2::{pow2, lemma_pow2_unfold, lemma_pow2_strictly_increases, lemma2_to64};
use crate::DigSigProcErr;

verus! {

/// The unsigned value of a bit string read most significant bit first.
pub open spec fn bits_to_nat(s: Seq<bool>) -> nat
    decreases s.len(),
{
    if s.len() == 0 {
        0
    } else {
        2 * bits_to_nat(s.drop_last()) + (if s.last() { 1nat } else { 0nat })
    }
}

/// The two's complement value of a bit string read most significant bit first:
/// the leading bit carries the weight `-2^(len-1)`.
pub open spec fn bits_to_int(s: Seq<bool>) -> int {
    if s.len() > 0 && s[0] {
        bits_to_nat(s) - pow2(s.len())
    } else {
        bits_to_nat(s) as int
    }
}

/// The unsigned value of the bits `lo..hi` of `s`.
pub open spec fn field_u(s: Seq<bool>, lo: int, hi: int) -> nat {
    bits_to_nat(s.subrange(lo, hi))
}

/// The two's complement value of the bits `lo..hi` of `s`.
pub open spec fn field_i(s: Seq<bool>, lo: int, hi: int) -> int {
    bits_to_int(s.subrange(lo, hi))
}

/// A bit string of length `n` has an unsigned value below `2^n`.
pub proof fn lemma_bits_to_nat_bound(s: Seq<bool>)
    ensures
        bits_to_nat(s) < pow2(s.len()),
    decreases s.len(),
{
    if s.len() == 0 {
        lemma2_to64();
    } else {
        lemma_bits_to_nat_bound(s.drop_last());
        lemma_pow2_unfold(s.len());
    }
}

/// Splitting off the leading bit: it contributes `2^(len-1)` when set.
pub proof fn lemma_bits_to_nat_first(s: Seq<bool>)
    requires
        s.len() > 0,
    ensures
        bits_to_nat(s) == (if s[0] { pow2((s.len() - 1) as nat) } else { 0 }) + bits_to_nat(s.drop_first()),
    decreases s.len(),
{
    if s.len() == 1 {
        lemma2_to64();
        assert(s.drop_last() =~= Seq::<bool>::empty());
        assert(s.drop_first() =~= Seq::<bool>::empty());
    } else {
        let t = s.drop_last();
        lemma_bits_to_nat_first(t);
        assert(t.drop_first() =~= s.drop_first().drop_last());
        assert(s.drop_first().last() == s.last());
        lemma_pow2_unfold((s.len() - 1) as nat);
    }
}

/// A two's complement bit string of length `n > 0` lies in `[-2^(n-1), 2^(n-1))`.
pub proof fn lemma_bits_to_int_bound(s: Seq<bool>)
    requires
        s.len() > 0,
    ensures
        -(pow2((s.len() - 1) as nat) as int) <= bits_to_int(s) < pow2((s.len() - 1) as nat),
{
    lemma_bits_to_nat_first(s);
    lemma_bits_to_nat_bound(s.drop_first());
    lemma_pow2_unfold(s.len());
}

/// Exact integer value of `2^n` for `n <= 64`.
fn pow2_u128(n: usize) -> (p: u128)
    requires
        n <= 64,
    ensures
        p == pow2(n as nat),
{
    let mut p: u128 = 1;
    let mut i: usize = 0;
    proof { lemma2_to64(); }
    while i < n
        invariant
            i <= n <= 64,
            p == pow2(i as nat),
        decreases n - i,
    {
        proof {
            lemma_pow2_unfold((i + 1) as nat);
            lemma_pow2_strictly_increases((i + 1) as nat, 65);
            lemma_pow2_unfold(65);
            lemma2_to64();
        }
        p = p * 2;
        i = i + 1;
    }
    p
}

/// Reads at most 64 bits, most significant first, as an unsigned integer.
fn read_unsigned(bits: &[bool]) -> (v: u64)
    requires
        bits@.len() <= 64,
    ensures
        v == bits_to_nat(bits@),
{
    let mut v: u64 = 0;
    let mut i: usize = 0;
    proof { lemma2_to64(); }
    while i < bits.len()
        invariant
            i <= bits@.len() <= 64,
            v == bits_to_nat(bits@.take(i as int)),
        decreases bits@.len() - i,
    {
        proof {
            lemma_bits_to_nat_bound(bits@.take(i as int));
            if i + 1 < 64 {
                lemma_pow2_strictly_increases((i + 1) as nat, 64);
            }
            lemma_pow2_unfold((i + 1) as nat);
            lemma2_to64();
            assert(bits@.take(i + 1).drop_last() =~= bits@.take(i as int));
        }
        let b: u64 = if bits[i] { 1 } else { 0 };
        v = 2 * v + b;
        i = i + 1;
    }
    assert(bits@.take(bits@.len() as int) =~= bits@);
    v
}

/// Reads between 1 and 64 bits as a two's complement integer.
fn read_signed(bits: &[bool]) -> (v: i64)
    requires
        1 <= bits@.len() <= 64,
    ensures
        v == bits_to_int(bits@),
{
    let u = read_unsigned(bits);
    proof {
        lemma_bits_to_int_bound(bits@);
        lemma_bits_to_nat_bound(bits@);
        lemma2_to64();
        lemma_pow2_unfold(bits@.len());
        if bits@.len() < 64 {
            lemma_pow2_strictly_increases((bits@.len() - 1) as nat, 63);
        }
        lemma_pow2_unfold(64);
        let pm = pow2((bits@.len() - 1) as nat);
        assert(pm <= 0x8000000000000000);
    }
    if bits[0] {
        let p = pow2_u128(bits.len());
        let w: i128 = (u as i128) - (p as i128);
        w as i64
    } else {
        u as i64
    }
}

/// Reads at most 8 bits as an unsigned integer; longer inputs are refused.
pub fn to_u8(bits: &[bool]) -> (r: Result<u8, DigSigProcErr>)
    ensures
        bits@.len() <= 8 ==> r == Ok::<u8, DigSigProcErr>(bits_to_nat(bits@) as u8) && bits_to_nat(bits@) < 0x100,
        bits@.len() > 8 ==> r == Err::<u8, DigSigProcErr>(DigSigProcErr::InvalidTelemetryData("Bool slice too long for u8")),
{
    if bits.len() <= 8 {
        proof { lemma_bits_to_nat_bound(bits@); lemma2_to64(); if bits@.len() < 8 { lemma_pow2_strictly_increases(bits@.len(), 8); } }
        Ok(read_unsigned(bits) as u8)
    } else {
        Err(DigSigProcErr::InvalidTelemetryData("Bool slice too long for u8"))
    }
}

/// Reads at most 16 bits as an unsigned integer; longer inputs are refused.
pub fn to_u16(bits: &[bool]) -> (r: Result<u16, DigSigProcErr>)
    ensures
        bits@.len() <= 16 ==> r == Ok::<u16, DigSigProcErr>(bits_to_nat(bits@) as u16) && bits_to_nat(bits@) < 0x10000,
        bits@.len() > 16 ==> r == Err::<u16, DigSigProcErr>(DigSigProcErr::InvalidTelemetryData("Bool slice too long for u16")),
{
    if bits.len() <= 16 {
        proof { lemma_bits_to_nat_bound(bits@); lemma2_to64(); if bits@.len() < 16 { lemma_pow2_strictly_increases(bits@.len(), 16); } }
        Ok(read_unsigned(bits) as u16)
    } else {
        Err(DigSigProcErr::InvalidTelemetryData("Bool slice too long for u16"))
    }
}

/// Reads at most 32 bits as an unsigned integer; longer inputs are refused.
pub fn to_u32(bits: &[bool]) -> (r: Result<u32, DigSigProcErr>)
    ensures
        bits@.len() <= 32 ==> r == Ok::<u32, DigSigProcErr>(bits_to_nat(bits@) as u32) && bits_to_nat(bits@) < 0x1_0000_0000,
        bits@.len() > 32 ==> r == Err::<u32, DigSigProcErr>(DigSigProcErr::InvalidTelemetryData("Bool slice too long for u32")),
{
    if bits.len() <= 32 {
        proof { lemma_bits_to_nat_bound(bits@); lemma2_to64(); if bits@.len() < 32 { lemma_pow2_strictly_increases(bits@.len(), 32); } }
        Ok(read_unsigned(bits) as u32)
    } else {
        Err(DigSigProcErr::InvalidTelemetryData("Bool slice too long for u32"))
    }
}

/// Reads at most 8 bits as a two's complement integer (the leading bit is the sign);
/// longer inputs are refused.
pub fn to_i8(bits: &[bool]) -> (r: Result<i8, DigSigProcErr>)
    ensures
        bits@.len() <= 8 ==> r == Ok::<i8, DigSigProcErr>(bits_to_int(bits@) as i8)
            && -0x80 <= bits_to_int(bits@) < 0x80,
        bits@.len() > 8 ==> r == Err::<i8, DigSigProcErr>(DigSigProcErr::InvalidTelemetryData("Bool slice too long for i8")),
{
    if bits.len() > 8 {
        return Err(DigSigProcErr::InvalidTelemetryData("Bool slice too long for i8"));
    }
    if bits.len() == 0 {
        return Ok(0);
    }
    proof {
        lemma_bits_to_int_bound(bits@);
        lemma2_to64();
        lemma_pow2_unfold(64);
        if bits@.len() < 8 {
            lemma_pow2_strictly_increases((bits@.len() - 1) as nat, (8 - 1) as nat);
        }
        
    }
    Ok(read_signed(bits) as i8)
}

/// Reads at most 16 bits as a two's complement integer (the leading bit is the sign);
/// longer inputs are refused.
pub fn to_i16(bits: &[bool]) -> (r: Result<i16, DigSigProcErr>)
    ensures
        bits@.len() <= 16 ==> r == Ok::<i16, DigSigProcErr>(bits_to_int(bits@) as i16)
            && -0x8000 <= bits_to_int(bits@) < 0x8000,
        bits@.len() > 16 ==> r == Err::<i16, DigSigProcErr>(DigSigProcErr::InvalidTelemetryData("Bool slice too long for i16")),
{
    if bits.len() > 16 {
        return Err(DigSigProcErr::InvalidTelemetryData("Bool slice too long for i16"));
    }
    if bits.len() == 0 {
        return Ok(0);
    }
    proof {
        lemma_bits_to_int_bound(bits@);
        lemma2_to64();
        lemma_pow2_unfold(64);
        if bits@.len() < 16 {
            lemma_pow2_strictly_increases((bits@.len() - 1) as nat, (16 - 1) as nat);
        }
        
    }
    Ok(read_signed(bits) as i16)
}

/// Reads at most 32 bits as a two's complement integer (the leading bit is the sign);
/// longer inputs are refused.
pub fn to_i32(bits: &[bool]) -> (r: Result<i32, DigSigProcErr>)
    ensures
        bits@.len() <= 32 ==> r == Ok::<i32, DigSigProcErr>(bits_to_int(bits@) as i32)
            && -0x8000_0000 <= bits_to_int(bits@) < 0x8000_0000,
        bits@.len() > 32 ==> r == Err::<i32, DigSigProcErr>(DigSigProcErr::InvalidTelemetryData("Bool slice too long for i32")),
{
    if bits.len() > 32 {
        return Err(DigSigProcErr::InvalidTelemetryData("Bool slice too long for i32"));
    }
    if bits.len() == 0 {
        return Ok(0);
    }
    proof {
        lemma_bits_to_int_bound(bits@);
        lemma2_to64();
        lemma_pow2_unfold(64);
        if bits@.len() < 32 {
            lemma_pow2_strictly_increases((bits@.len() - 1) as nat, (32 - 1) as nat);
        }
        
    }
    Ok(read_signed(bits) as i32)
}

/// Reads at most 64 bits as a two's complement integer (the leading bit is the sign);
/// longer inputs are refused.
pub fn to_i64(bits: &[bool]) -> (r: Result<i64, DigSigProcErr>)
    ensures
        bits@.len() <= 64 ==> r == Ok::<i64, DigSigProcErr>(bits_to_int(bits@) as i64)
            && -0x8000_0000_0000_0000 <= bits_to_int(bits@) < 0x8000_0000_0000_0000,
        bits@.len() > 64 ==> r == Err::<i64, DigSigProcErr>(DigSigProcErr::InvalidTelemetryData("Bool slice too long for i64")),
{
    if bits.len() > 64 {
        return Err(DigSigProcErr::InvalidTelemetryData("Bool slice too long for i64"));
    }
    if bits.len() == 0 {
        return Ok(0);
    }
    proof {
        lemma_bits_to_int_bound(bits@);
        lemma2_to64();
        lemma_pow2_unfold(64);
        if bits@.len() < 64 {
            lemma_pow2_strictly_increases((bits@.len() - 1) as nat, (64 - 1) as nat);
        }
        lemma_pow2_unfold(64);
    }
    Ok(read_signed(bits) as i64)
}

/// Concatenation of two bit strings, for fields that the message splits in two.
pub(crate) fn concat_bits(a: &[bool], b: &[bool]) -> (r: Vec<bool>)
    ensures
        r@ == a@ + b@,
{
    let mut r: Vec<bool> = Vec::new();
    let mut i: usize = 0;
    while i < a.len()
        invariant
            i <= a@.len(),
            r@ == a@.take(i as int),
        decreases a@.len() - i,
    {
        r.push(a[i]);
        i = i + 1;
        assert(r@ =~= a@.take(i as int));
    }
    let mut j: usize = 0;
    while j < b.len()
        invariant
            j <= b@.len(),
            r@ == a@ + b@.take(j as int),
        decreases b@.len() - j,
    {
        r.push(b[j]);
        j = j + 1;
        assert(r@ =~= a@ + b@.take(j as int));
    }
    assert(b@.take(b@.len() as int) =~= b@);
    r
}

} // verus!
