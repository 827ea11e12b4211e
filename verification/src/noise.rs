use vstd::prelude::*;
use vstd::wrapping::u32_specs;

verus! {

/// Seed every fresh noise run starts from.
pub const NOISE_SEED: u32 = 231724;

/// Modulus the mixed seed is reduced by after each call.
pub const NOISE_MODULUS: u32 = 231734;

/// One quadratic mixing step over 32-bit wraparound arithmetic:
/// `a*s*s + b*s + c`, every operation wrapping.
pub open spec fn quad_mix(a: u32, b: u32, c: u32, s: u32) -> u32 {
    u32_specs::wrapping_add(
        u32_specs::wrapping_add(
            u32_specs::wrapping_mul(u32_specs::wrapping_mul(a, s), s),
            u32_specs::wrapping_mul(b, s),
        ),
        c,
    )
}

/// The middle mixing step, which additionally multiplies both the quadratic
/// and the linear term by the call index `i`: `a*s*s*i + b*s*i + c`, wrapping.
pub open spec fn quad_mix_scaled(a: u32, b: u32, c: u32, s: u32, i: u32) -> u32 {
    u32_specs::wrapping_add(
        u32_specs::wrapping_add(
            u32_specs::wrapping_mul(
                u32_specs::wrapping_mul(u32_specs::wrapping_mul(a, s), s),
                i,
            ),
            u32_specs::wrapping_mul(u32_specs::wrapping_mul(b, s), i),
        ),
        c,
    )
}

/// The seed after one call with index `i` from seed `s`: the three fixed
/// mixing steps, then reduction modulo `NOISE_MODULUS`.
#[verifier::opaque]
pub open spec fn noise_step(s: u32, i: u32) -> u32 {
    quad_mix(991, 13, 237, quad_mix_scaled(37, 337, 80, quad_mix(41, 71, 93, s), i))
        % NOISE_MODULUS
}

/// The level a call reports: the reduced seed modulo 128, so in `[0, 128)`.
/// The caller maps it to a sample in roughly `[-1, 1)` as `level / 64 - 1`.
pub open spec fn noise_level(s: u32, i: u32) -> u32 {
    noise_step(s, i) % 128u32
}

/// The seed after `n` calls made with the consecutive indices `0..n`,
/// starting from a fresh generator.
pub open spec fn seed_at(n: nat) -> u32
    decreases n,
{
    if n == 0 {
        NOISE_SEED
    } else {
        noise_step(seed_at((n - 1) as nat), ((n - 1) as nat) as u32)
    }
}

/// The level the `n`-th call (0-based, index `n`) of a fresh run reports.
pub open spec fn level_at(n: nat) -> u32 {
    noise_level(seed_at(n), n as u32)
}

/// `levels` is a prefix of the level sequence of a fresh run over the
/// consecutive indices `0, 1, 2, ...`.
pub open spec fn is_noise_run(levels: Seq<u32>) -> bool {
    forall|j: int| 0 <= j < levels.len() ==> levels[j] == level_at(j as nat)
}

/// Fully deterministic pseudo-random generator: a seeded integer recurrence
/// over 32-bit wraparound arithmetic. Two runs from a fresh seed over the
/// same indices agree bit for bit, which keeps noise-floor estimates
/// reproducible across runs and machines.
pub struct NoiseGenerator {
    pub seed: u32,
}

impl NoiseGenerator {
    /// A generator at the fixed fresh seed.
    pub fn new() -> (r: NoiseGenerator)
        ensures
            r.seed == NOISE_SEED,
    {
        NoiseGenerator { seed: NOISE_SEED }
    }

    /// Advance the seed with call index `i` and report the new level.
    pub fn next_level(&mut self, i: u32) -> (level: u32)
        ensures
            final(self).seed == noise_step(old(self).seed, i),
            level == noise_level(old(self).seed, i),
            level < 128,
    {
        proof {
            reveal(noise_step);
        }
        let s0 = self.seed;
        let s1 = 41u32.wrapping_mul(s0).wrapping_mul(s0).wrapping_add(71u32.wrapping_mul(s0))
            .wrapping_add(93);
        let s2 = 37u32.wrapping_mul(s1).wrapping_mul(s1).wrapping_mul(i).wrapping_add(
            337u32.wrapping_mul(s1).wrapping_mul(i),
        ).wrapping_add(80);
        let s3 = 991u32.wrapping_mul(s2).wrapping_mul(s2).wrapping_add(13u32.wrapping_mul(s2))
            .wrapping_add(237);
        let reduced = s3 % NOISE_MODULUS;
        self.seed = reduced;
        reduced % 128
    }
}

/// Determinism of the noise source: any two level sequences drawn from fresh
/// runs over the same count of consecutive indices are identical.
pub proof fn lemma_noise_deterministic(a: Seq<u32>, b: Seq<u32>)
    requires
        a.len() == b.len(),
        is_noise_run(a),
        is_noise_run(b),
    ensures
        a =~= b,
{
}

} // verus!
