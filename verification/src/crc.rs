//! The 16-bit running checksum that protects every frame (the
//! CRC-16/MCRF4XX variant): an accumulator starts at the all-ones value
//! and each byte is folded in with the standard polynomial update; the
//! per-message seed byte is folded in last.
use vstd::prelude::*;

verus! {

/// Folding one byte into the checksum accumulator.
pub open spec fn crc_step(acc: u16, b: u8) -> u16 {
    let t1 = b ^ (acc as u8);
    let t2 = t1 ^ (t1 << 4);
    (acc >> 8) ^ ((t2 as u16) << 8) ^ ((t2 as u16) << 3) ^ ((t2 as u16) >> 4)
}

/// The accumulator after folding in the first `n` bytes of `s`,
/// starting from the all-ones initial value.
pub open spec fn crc_accumulated(s: Seq<u8>, n: int) -> u16
    decreases n,
{
    if n <= 0 {
        0xffffu16
    } else {
        crc_step(crc_accumulated(s, n - 1), s[n - 1])
    }
}

/// The checksum of a byte sequence: all of `s` folded in, then the seed byte.
pub open spec fn crc_compute(s: Seq<u8>, seed: u8) -> u16 {
    crc_step(crc_accumulated(s, s.len() as int), seed)
}

/// Folds one byte into the accumulator.
pub fn crc_accumulate(b: u8, acc: u16) -> (r: u16)
    ensures
        r == crc_step(acc, b),
{
    let t1: u8 = b ^ (acc as u8);
    let t2: u8 = t1 ^ (t1 << 4u8);
    (acc >> 8u16) ^ ((t2 as u16) << 8u16) ^ ((t2 as u16) << 3u16) ^ ((t2 as u16) >> 4u16)
}

/// Computes the checksum of `bytes[start..end]` followed by the seed byte.
pub fn crc_calculate_region(bytes: &Vec<u8>, start: usize, end: usize, seed: u8) -> (r: u16)
    requires
        start <= end <= bytes@.len(),
    ensures
        r == crc_compute(bytes@.subrange(start as int, end as int), seed),
{
    let ghost region = bytes@.subrange(start as int, end as int);
    let mut acc: u16 = 0xffff;
    let mut i: usize = start;
    while i < end
        invariant
            start <= i <= end <= bytes@.len(),
            region == bytes@.subrange(start as int, end as int),
            acc == crc_accumulated(region, i - start),
        decreases end - i,
    {
        acc = crc_accumulate(bytes[i], acc);
        i = i + 1;
    }
    assert(region.len() == end - start);
    crc_accumulate(seed, acc)
}

} // verus!
