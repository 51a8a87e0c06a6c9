use vstd::prelude::*;
use rand::{RngExt, SeedableRng};
use rand_chacha::ChaCha8Rng;

verus! {

/// The four palette indices the mesh template draws from a ChaCha8 stream
/// seeded with `seed`, each uniform below `len`.
pub uninterp spec fn mesh_picks(seed: u64, len: usize) -> (usize, usize, usize, usize);

/// The three palette indices, stripe width and diagonal drift the stripes
/// template draws from a ChaCha8 stream seeded with `seed`.
pub uninterp spec fn stripe_picks(seed: u64, len: usize) -> (usize, usize, usize, i32, i32);

/// Relies on rand_chacha's `ChaCha8Rng::seed_from_u64` and rand's
/// `random_range`: ChaCha8 is a deterministic stream cipher and uniform
/// integer sampling is a pure function of the stream, so the four draws
/// depend on `seed` and `len` alone; `random_range(0..len)` returns a value
/// below `len` and panics only on an empty range.
#[verifier::external_body]
pub(crate) fn draw_mesh_picks(seed: u64, len: usize) -> (r: (usize, usize, usize, usize))
    requires
        len >= 1,
    ensures
        r == mesh_picks(seed, len),
        r.0 < len,
        r.1 < len,
        r.2 < len,
        r.3 < len,
{
    let mut rng = ChaCha8Rng::seed_from_u64(seed);
    (
        rng.random_range(0..len),
        rng.random_range(0..len),
        rng.random_range(0..len),
        rng.random_range(0..len),
    )
}

/// Relies on rand_chacha's `ChaCha8Rng::seed_from_u64` and rand's
/// `random_range`, as the mesh draw does: the five draws depend on `seed`
/// and `len` alone; the first three are below `len`, the stripe width lies
/// in `28..92` and the drift in `18..72`.
#[verifier::external_body]
pub(crate) fn draw_stripe_picks(seed: u64, len: usize) -> (r: (usize, usize, usize, i32, i32))
    requires
        len >= 1,
    ensures
        r == stripe_picks(seed, len),
        r.0 < len,
        r.1 < len,
        r.2 < len,
        28 <= r.3 < 92,
        18 <= r.4 < 72,
{
    let mut rng = ChaCha8Rng::seed_from_u64(seed);
    (
        rng.random_range(0..len),
        rng.random_range(0..len),
        rng.random_range(0..len),
        rng.random_range(28..92),
        rng.random_range(18..72),
    )
}

} // verus!
