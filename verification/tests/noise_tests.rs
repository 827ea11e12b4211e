use deconv::noise::NoiseGenerator;
use std::num::Wrapping;

/// The recurrence exactly as documented: three fixed quadratic mixing steps
/// over 32-bit wraparound arithmetic, then reduction modulo 231734.
fn reference_step(seed: u32, i: u32) -> u32 {
    let mut s = Wrapping(seed);
    let i = Wrapping(i);
    s = Wrapping(41u32) * s * s + Wrapping(71) * s + Wrapping(93);
    s = Wrapping(37u32) * s * s * i + Wrapping(337) * s * i + Wrapping(80);
    s = Wrapping(991u32) * s * s + Wrapping(13) * s + Wrapping(237);
    s %= 231734;
    s.0
}

#[test]
fn noise_generator_matches_documented_recurrence() {
    let mut gen = NoiseGenerator::new();
    let mut seed: u32 = 231724;
    for i in 0..64u32 {
        let level = gen.next_level(i);
        seed = reference_step(seed, i);
        assert_eq!(gen.seed, seed);
        assert_eq!(level, seed % 128);
    }
}

#[test]
fn noise_levels_are_in_range() {
    let mut gen = NoiseGenerator::new();
    for i in 0..256u32 {
        let level = gen.next_level(i);
        assert!(level < 128);
        let sample = (level as f32) / 64.0 - 1.0;
        assert!((-1.0..1.0).contains(&sample));
    }
}

#[test]
fn two_fresh_runs_yield_identical_sequences() {
    let mut first = NoiseGenerator::new();
    let mut second = NoiseGenerator::new();
    let a: Vec<u32> = (0..100u32).map(|i| first.next_level(i)).collect();
    let b: Vec<u32> = (0..100u32).map(|i| second.next_level(i)).collect();
    assert_eq!(a, b);
}

#[test]
fn noise_depends_on_call_index() {
    // the same seed advanced with different indices diverges, so the
    // sequence really mixes the index in
    let mut gen_a = NoiseGenerator::new();
    let mut gen_b = NoiseGenerator::new();
    let a = gen_a.next_level(1);
    let b = gen_b.next_level(2);
    assert!(a != b || gen_a.seed != gen_b.seed);
}
