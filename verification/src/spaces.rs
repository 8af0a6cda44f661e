//! Space ids and the precision of coordinates in InfiniteDB.
//!
//! World coordinates are normalized to `u32` values whose order follows the
//! order of the coordinates; [`quantize_bits`] then keeps only the leading
//! bits of each, so nearby points share keys and range scans stay ranges.
use vstd::prelude::*;

pub mod dims;
pub mod ids;

verus! {

/// The number of kept bits: `bits` clamped to `1..=32`.
pub open spec fn clamp_bits(bits: u32) -> u32 {
    if bits < 1 {
        1
    } else if bits > 32 {
        32
    } else {
        bits
    }
}

/// The number of low bits that quantization clears.
pub open spec fn dropped_bits(bits: u32) -> u32 {
    (32 - clamp_bits(bits)) as u32
}

/// `coord` with its low `32 - bits` bits cleared (`bits` clamped to `1..=32`).
pub open spec fn quantize_spec(coord: u32, bits: u32) -> u32 {
    let s = dropped_bits(bits);
    (coord >> s) << s
}

/// Reduce effective precision to `bits` per Hilbert dimension (1–32), clearing low bits.
pub fn quantize_bits(coord: u32, bits: u32) -> (r: u32)
    ensures
        r == quantize_spec(coord, bits),
{
    let bits = if bits < 1 {
        1
    } else if bits > 32 {
        32
    } else {
        bits
    };
    if bits >= 32 {
        assert((coord >> 0u32) << 0u32 == coord) by (bit_vector);
        return coord;
    }
    let shift = 32 - bits;
    (coord >> shift) << shift
}

/// Quantization only clears low bits: the kept bits are those of `coord`,
/// the cleared ones are zero, and the result is never above `coord`.
pub proof fn quantize_clears_low_bits(coord: u32, bits: u32)
    ensures
        quantize_spec(coord, bits) >> dropped_bits(bits) == coord >> dropped_bits(bits),
        quantize_spec(coord, bits) & (((1u64 << dropped_bits(bits)) - 1) as u32) == 0,
        quantize_spec(coord, bits) <= coord,
{
    let s = dropped_bits(bits);
    assert(s < 32);
    assert(s < 32 ==> ((coord >> s) << s) >> s == coord >> s) by (bit_vector);
    assert(s < 32 ==> ((coord >> s) << s) & (((1u64 << s) - 1) as u32) == 0) by (bit_vector);
    assert(s < 32 ==> ((coord >> s) << s) <= coord) by (bit_vector);
}

/// Quantizing twice with the same precision is quantizing once.
pub proof fn quantize_idempotent(coord: u32, bits: u32)
    ensures
        quantize_spec(quantize_spec(coord, bits), bits) == quantize_spec(coord, bits),
{
    let s = dropped_bits(bits);
    assert(s < 32);
    assert(s < 32 ==> (((coord >> s) << s) >> s) << s == (coord >> s) << s) by (bit_vector);
}

/// Quantization preserves the order of coordinates, which keeps a range of
/// coordinates a range of keys.
pub proof fn quantize_monotonic(a: u32, b: u32, bits: u32)
    requires
        a <= b,
    ensures
        quantize_spec(a, bits) <= quantize_spec(b, bits),
{
    let s = dropped_bits(bits);
    assert(s < 32);
    assert(s < 32 && a <= b ==> (a >> s) << s <= (b >> s) << s) by (bit_vector);
}

/// With all 32 bits kept, quantization is the identity.
pub proof fn quantize_full_precision(coord: u32, bits: u32)
    requires
        bits >= 32,
    ensures
        quantize_spec(coord, bits) == coord,
{
    assert((coord >> 0u32) << 0u32 == coord) by (bit_vector);
}

/// Quantization keeps two coordinates apart only when their kept bits differ.
pub proof fn quantize_equal_iff_same_high_bits(a: u32, b: u32, bits: u32)
    ensures
        (quantize_spec(a, bits) == quantize_spec(b, bits)) == (a >> dropped_bits(bits) == b
            >> dropped_bits(bits)),
{
    let s = dropped_bits(bits);
    assert(s < 32);
    assert(s < 32 ==> (((a >> s) << s == (b >> s) << s) == (a >> s == b >> s))) by (bit_vector);
}

} // verus!
