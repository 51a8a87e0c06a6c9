use vstd::prelude::*;

verus! {

/// The 64-bit mix behind the grain field: the seed is combined with the
/// coordinates through two large odd multiplicative constants, then pushed
/// through a three-round xor-shift/multiply avalanche.
pub open spec fn spec_noise_word(seed: u64, x: u32, y: u32) -> u64 {
    let v0 = seed ^ (x as u64).wrapping_mul(0x9E37_79B9_7F4A_7C15) ^ (
    y as u64).wrapping_mul(0xC2B2_AE3D_27D4_EB4F);
    let v1 = v0 ^ (v0 >> 30);
    let v2 = v1.wrapping_mul(0xBF58_476D_1CE4_E5B9);
    let v3 = v2 ^ (v2 >> 27);
    let v4 = v3.wrapping_mul(0x94D0_49BB_1331_11EB);
    v4 ^ (v4 >> 31)
}

/// The grain sample at `(x, y)`: the low 10 bits of the mixed word,
/// remapped to a signed numerator over 1023.  The sample `r` stands for the
/// scalar `r / 1023`, which lies in `[-1, 1]`.
pub open spec fn spec_noise(seed: u64, x: u32, y: u32) -> i32 {
    (2 * ((spec_noise_word(seed, x, y) & 1023) as i32) - 1023) as i32
}

/// The seeded grain field.  The result is a pure function of `(seed, x, y)`
/// — there is no hidden generator state — and is the numerator of a scalar
/// over 1023, so it lies in `[-1023, 1023]`.
pub fn pseudo_noise(seed: u64, x: u32, y: u32) -> (r: i32)
    ensures
        r == spec_noise(seed, x, y),
        -1023 <= r <= 1023,
{
    let v0: u64 = seed ^ (x as u64).wrapping_mul(0x9E37_79B9_7F4A_7C15) ^ (
    y as u64).wrapping_mul(0xC2B2_AE3D_27D4_EB4F);
    let v1: u64 = v0 ^ (v0 >> 30);
    let v2: u64 = v1.wrapping_mul(0xBF58_476D_1CE4_E5B9);
    let v3: u64 = v2 ^ (v2 >> 27);
    let v4: u64 = v3.wrapping_mul(0x94D0_49BB_1331_11EB);
    let v5: u64 = v4 ^ (v4 >> 31);
    let masked: u64 = v5 & 1023;
    assert(v5 & 1023 <= 1023) by (bit_vector);
    let n: i32 = masked as i32;
    2 * n - 1023
}

/// Referential transparency of the grain field: equal inputs give equal
/// samples, in any two calls.
pub proof fn lemma_noise_deterministic(s1: u64, x1: u32, y1: u32, s2: u64, x2: u32, y2: u32)
    requires
        s1 == s2,
        x1 == x2,
        y1 == y2,
    ensures
        spec_noise(s1, x1, y1) == spec_noise(s2, x2, y2),
{
}

} // verus!
