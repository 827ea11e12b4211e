use vstd::prelude::*;
use vstd::arithmetic::power2::pow2;
use crate::sized_image::{dims_ok, dim_exp, Domain, FrequencyDomain, SizedImage, TimeDomain};
use crate::noise::{level_at, noise_step, seed_at, NoiseGenerator};
use crate::vector::Vector;

verus! {

/// Apply `f` to every pixel in place; pixel `k` of the result is an output
/// of `f` on pixel `k` of the input. Dimensions are untouched.
pub fn map_pixels<P: Copy, D: Domain, F: Fn(P) -> P>(image: &mut SizedImage<P, D>, f: F)
    requires
        old(image).wf(),
        forall|p: P| call_requires(f, (p,)),
    ensures
        final(image).wf(),
        final(image).width_log_2 == old(image).width_log_2,
        final(image).height_log_2 == old(image).height_log_2,
        final(image).pixels@.len() == old(image).pixels@.len(),
        forall|k: int|
            0 <= k < old(image).pixels@.len() ==> call_ensures(
                f,
                (old(image).pixels@[k],),
                #[trigger] final(image).pixels@[k],
            ),
{
    let n = image.pixels.len();
    let mut k: usize = 0;
    while k < n
        invariant
            n == image.pixels@.len(),
            n == old(image).pixels@.len(),
            image.width_log_2 == old(image).width_log_2,
            image.height_log_2 == old(image).height_log_2,
            k <= n,
            forall|p: P| call_requires(f, (p,)),
            forall|j: int|
                0 <= j < k ==> call_ensures(
                    f,
                    (old(image).pixels@[j],),
                    #[trigger] image.pixels@[j],
                ),
            forall|j: int| k <= j < n ==> image.pixels@[j] == old(image).pixels@[j],
        decreases n - k,
    {
        let px = image.pixels[k];
        image.pixels.set(k, f(px));
        k = k + 1;
    }
}

/// Combine `image` with `other` of the same dimensions, pixel by pixel:
/// pixel `k` of the result is an output of `f` on pixel `k` of both inputs.
pub fn combine_pixels<P: Copy, D: Domain, F: Fn(P, P) -> P>(
    image: &mut SizedImage<P, D>,
    other: &SizedImage<P, D>,
    f: F,
)
    requires
        old(image).wf(),
        other.wf(),
        old(image).width_log_2 == other.width_log_2,
        old(image).height_log_2 == other.height_log_2,
        forall|a: P, b: P| call_requires(f, (a, b)),
    ensures
        final(image).wf(),
        final(image).width_log_2 == old(image).width_log_2,
        final(image).height_log_2 == old(image).height_log_2,
        final(image).pixels@.len() == old(image).pixels@.len(),
        forall|k: int|
            0 <= k < old(image).pixels@.len() ==> call_ensures(
                f,
                (old(image).pixels@[k], other.pixels@[k]),
                #[trigger] final(image).pixels@[k],
            ),
{
    let n = image.pixels.len();
    let mut k: usize = 0;
    while k < n
        invariant
            n == image.pixels@.len(),
            n == old(image).pixels@.len(),
            n == other.pixels@.len(),
            image.width_log_2 == old(image).width_log_2,
            image.height_log_2 == old(image).height_log_2,
            k <= n,
            forall|a: P, b: P| call_requires(f, (a, b)),
            forall|j: int|
                0 <= j < k ==> call_ensures(
                    f,
                    (old(image).pixels@[j], other.pixels@[j]),
                    #[trigger] image.pixels@[j],
                ),
            forall|j: int| k <= j < n ==> image.pixels@[j] == old(image).pixels@[j],
        decreases n - k,
    {
        let a = image.pixels[k];
        let b = other.pixels[k];
        image.pixels.set(k, f(a, b));
        k = k + 1;
    }
}

/// `out` can be reached from `acc` by folding `f` over `s` from the left,
/// one output of `f` at a time.
pub open spec fn fold_rel<P, F: Fn(P, P) -> P>(f: F, s: Seq<P>, acc: P, out: P) -> bool
    decreases s.len(),
{
    if s.len() == 0 {
        out == acc
    } else {
        exists|mid: P|
            #[trigger] call_ensures(f, (acc, s[0]), mid) && fold_rel(f, s.drop_first(), mid, out)
    }
}

proof fn lemma_fold_rel_snoc<P, F: Fn(P, P) -> P>(f: F, s: Seq<P>, x: P, acc: P, mid: P, out: P)
    requires
        fold_rel(f, s, acc, mid),
        call_ensures(f, (mid, x), out),
    ensures
        fold_rel(f, s.push(x), acc, out),
    decreases s.len(),
{
    if s.len() == 0 {
        assert(s.push(x)[0] == x);
        assert(s.push(x).drop_first() =~= Seq::<P>::empty());
        assert(call_ensures(f, (acc, x), out));
        assert(fold_rel(f, s.push(x).drop_first(), out, out));
    } else {
        let m1 = choose|m: P|
            #[trigger] call_ensures(f, (acc, s[0]), m) && fold_rel(f, s.drop_first(), m, mid);
        lemma_fold_rel_snoc(f, s.drop_first(), x, m1, mid, out);
        assert(s.push(x).drop_first() =~= s.drop_first().push(x));
        assert(s.push(x)[0] == s[0]);
        assert(call_ensures(f, (acc, s[0]), m1) && fold_rel(f, s.push(x).drop_first(), m1, out));
    }
}

/// Fold `f` over every element of `pixels` in order, starting from `init`.
/// The aggregate power estimates are one such fold per image.
pub fn accumulate<P: Copy, F: Fn(P, P) -> P + Copy>(pixels: &Vec<P>, init: P, f: F) -> (r: P)
    requires
        forall|a: P, b: P| call_requires(f, (a, b)),
    ensures
        fold_rel(f, pixels@, init, r),
{
    let n = pixels.len();
    let mut acc = init;
    let mut k: usize = 0;
    proof {
        assert(pixels@.take(0) =~= Seq::<P>::empty());
    }
    while k < n
        invariant
            n == pixels@.len(),
            k <= n,
            forall|a: P, b: P| call_requires(f, (a, b)),
            fold_rel(f, pixels@.take(k as int), init, acc),
        decreases n - k,
    {
        let next = f(acc, pixels[k]);
        proof {
            lemma_fold_rel_snoc(f, pixels@.take(k as int), pixels@[k as int], init, acc, next);
            assert(pixels@.take(k as int + 1) =~= pixels@.take(k as int).push(pixels@[k as int]));
        }
        acc = next;
        k = k + 1;
    }
    proof {
        assert(pixels@.take(n as int) =~= pixels@);
    }
    acc
}

/// One channel of the Wiener filter construction: from the kernel spectrum
/// value `h`, the aggregate signal power `s` and the aggregate noise power
/// `n`, the output is `conj(h) * s / (norm_sqr(h) * s + n)`, built from
/// exactly those scalar operations.
pub open spec fn wiener_scalar_rel<
    T,
    FC: Fn(T) -> T,
    FN: Fn(T) -> T,
    FM: Fn(T, T) -> T,
    FA: Fn(T, T) -> T,
    FD: Fn(T, T) -> T,
>(conj: FC, norm_sqr: FN, mul: FM, add: FA, div: FD, h: T, s: T, n: T, out: T) -> bool {
    exists|hc: T, hn: T, num: T, dl: T, den: T|
        #![trigger call_ensures(mul, (hc, s), num), call_ensures(mul, (hn, s), dl), call_ensures(add, (dl, n), den)]
        {
            &&& call_ensures(conj, (h,), hc)
            &&& call_ensures(norm_sqr, (h,), hn)
            &&& call_ensures(mul, (hc, s), num)
            &&& call_ensures(mul, (hn, s), dl)
            &&& call_ensures(add, (dl, n), den)
            &&& call_ensures(div, (num, den), out)
        }
}

/// Replace every frequency bin `H` of the kernel spectrum with
/// `conj(H) * S / (norm_sqr(H) * S + N)`, channel by channel, where `S` and
/// `N` are the aggregate signal- and noise-power vectors.
pub fn wiener_filter_image<
    T: Copy,
    FC: Fn(T) -> T + Copy,
    FN: Fn(T) -> T + Copy,
    FM: Fn(T, T) -> T + Copy,
    FA: Fn(T, T) -> T + Copy,
    FD: Fn(T, T) -> T + Copy,
>(
    kernel: &mut SizedImage<Vector<T>, FrequencyDomain>,
    signal_power: Vector<T>,
    noise_power: Vector<T>,
    conj: FC,
    norm_sqr: FN,
    mul: FM,
    add: FA,
    div: FD,
)
    requires
        old(kernel).wf(),
        forall|a: T| call_requires(conj, (a,)),
        forall|a: T| call_requires(norm_sqr, (a,)),
        forall|a: T, b: T| call_requires(mul, (a, b)),
        forall|a: T, b: T| call_requires(add, (a, b)),
        forall|a: T, b: T| call_requires(div, (a, b)),
    ensures
        final(kernel).wf(),
        final(kernel).width_log_2 == old(kernel).width_log_2,
        final(kernel).height_log_2 == old(kernel).height_log_2,
        final(kernel).pixels@.len() == old(kernel).pixels@.len(),
        forall|k: int, c: int|
            0 <= k < old(kernel).pixels@.len() && 0 <= c < 4 ==> wiener_scalar_rel(
                conj,
                norm_sqr,
                mul,
                add,
                div,
                old(kernel).pixels@[k].data@[c],
                signal_power.data@[c],
                noise_power.data@[c],
                #[trigger] final(kernel).pixels@[k].data@[c],
            ),
{
    let n = kernel.pixels.len();
    let mut k: usize = 0;
    while k < n
        invariant
            n == kernel.pixels@.len(),
            n == old(kernel).pixels@.len(),
            kernel.width_log_2 == old(kernel).width_log_2,
            kernel.height_log_2 == old(kernel).height_log_2,
            k <= n,
            forall|a: T| call_requires(conj, (a,)),
            forall|a: T| call_requires(norm_sqr, (a,)),
            forall|a: T, b: T| call_requires(mul, (a, b)),
            forall|a: T, b: T| call_requires(add, (a, b)),
            forall|a: T, b: T| call_requires(div, (a, b)),
            forall|j: int, c: int|
                0 <= j < k && 0 <= c < 4 ==> wiener_scalar_rel(
                    conj,
                    norm_sqr,
                    mul,
                    add,
                    div,
                    old(kernel).pixels@[j].data@[c],
                    signal_power.data@[c],
                    noise_power.data@[c],
                    #[trigger] kernel.pixels@[j].data@[c],
                ),
            forall|j: int| k <= j < n ==> kernel.pixels@[j] == old(kernel).pixels@[j],
        decreases n - k,
    {
        let px = kernel.pixels[k];
        let px_conj = px.map(conj);
        let px_sq_norm = px.map(norm_sqr);
        let numerator = px_conj.map_with(signal_power, mul);
        let damped = px_sq_norm.map_with(signal_power, mul);
        let denominator = damped.map_with(noise_power, add);
        let filtered = numerator.map_with(denominator, div);
        kernel.pixels.set(k, filtered);
        proof {
            assert forall|c: int| 0 <= c < 4 implies wiener_scalar_rel(
                conj,
                norm_sqr,
                mul,
                add,
                div,
                old(kernel).pixels@[k as int].data@[c],
                signal_power.data@[c],
                noise_power.data@[c],
                kernel.pixels@[k as int].data@[c],
            ) by {
                assert(call_ensures(conj, (px.data@[c],), px_conj.data@[c]));
                assert(call_ensures(norm_sqr, (px.data@[c],), px_sq_norm.data@[c]));
                assert(call_ensures(mul, (px_conj.data@[c], signal_power.data@[c]), numerator.data@[c]));
                assert(call_ensures(mul, (px_sq_norm.data@[c], signal_power.data@[c]), damped.data@[c]));
                assert(call_ensures(add, (damped.data@[c], noise_power.data@[c]), denominator.data@[c]));
                assert(call_ensures(div, (numerator.data@[c], denominator.data@[c]), filtered.data@[c]));
            }
        }
        k = k + 1;
    }
}

/// The noise texture: pixel `k` is built by `to_pixel` from the four noise
/// levels the deterministic generator reports for the consecutive call
/// indices `4k`, `4k+1`, `4k+2` and `4k+3` of a fresh run.
#[verifier::rlimit(50)]
pub fn noise_image<T: Copy, F: Fn(u32, u32, u32, u32) -> Vector<T>>(
    width: u32,
    height: u32,
    to_pixel: F,
) -> (r: SizedImage<Vector<T>, TimeDomain>)
    requires
        dims_ok(width, height),
        4 * pow2(dim_exp(width as nat) + dim_exp(height as nat)) <= u32::MAX,
        forall|a: u32, b: u32, c: u32, d: u32| call_requires(to_pixel, (a, b, c, d)),
    ensures
        r.wf(),
        r.width_log_2 == dim_exp(width as nat),
        r.height_log_2 == dim_exp(height as nat),
        forall|k: int|
            0 <= k < r.pixels@.len() ==> call_ensures(
                to_pixel,
                (
                    level_at((4 * k) as nat),
                    level_at((4 * k + 1) as nat),
                    level_at((4 * k + 2) as nat),
                    level_at((4 * k + 3) as nat),
                ),
                #[trigger] r.pixels@[k],
            ),
{
    let mut gen = NoiseGenerator::new();
    let l0 = gen.next_level(0);
    let l1 = gen.next_level(1);
    let l2 = gen.next_level(2);
    let l3 = gen.next_level(3);
    let first = to_pixel(l0, l1, l2, l3);
    let mut image: SizedImage<Vector<T>, TimeDomain> = SizedImage::new(width, height, first);
    let n = image.pixels.len();
    proof {
        vstd::arithmetic::power2::lemma_pow2_pos(
            (image.width_log_2 + image.height_log_2) as nat,
        );
        assert(seed_at(0) == crate::noise::NOISE_SEED);
        assert(seed_at(1) == noise_step(seed_at(0), 0));
        assert(seed_at(2) == noise_step(seed_at(1), 1));
        assert(seed_at(3) == noise_step(seed_at(2), 2));
        assert(seed_at(4) == noise_step(seed_at(3), 3));
    }
    let mut k: usize = 1;
    if n == 1 {
        return image;
    }
    while k < n
        invariant
            1 <= k <= n,
            n == image.pixels@.len(),
            n * 4 <= u32::MAX,
            image.wf(),
            image.width_log_2 == dim_exp(width as nat),
            image.height_log_2 == dim_exp(height as nat),
            gen.seed == seed_at((4 * k) as nat),
            forall|a: u32, b: u32, c: u32, d: u32| call_requires(to_pixel, (a, b, c, d)),
            forall|j: int|
                0 <= j < k ==> call_ensures(
                    to_pixel,
                    (
                        level_at((4 * j) as nat),
                        level_at((4 * j + 1) as nat),
                        level_at((4 * j + 2) as nat),
                        level_at((4 * j + 3) as nat),
                    ),
                    #[trigger] image.pixels@[j],
                ),
        decreases n - k,
    {
        let i0 = 4 * (k as u32);
        let m0 = gen.next_level(i0);
        let m1 = gen.next_level(i0 + 1);
        let m2 = gen.next_level(i0 + 2);
        let m3 = gen.next_level(i0 + 3);
        proof {
            let b = 4 * k as nat;
            assert(seed_at(b + 1) == noise_step(seed_at(b), b as u32));
            assert(seed_at(b + 2) == noise_step(seed_at(b + 1), (b + 1) as u32));
            assert(seed_at(b + 3) == noise_step(seed_at(b + 2), (b + 2) as u32));
            assert(seed_at(b + 4) == noise_step(seed_at(b + 3), (b + 3) as u32));
            assert(m0 == level_at(b));
            assert(m1 == level_at(b + 1));
            assert(m2 == level_at(b + 2));
            assert(m3 == level_at(b + 3));
            assert(gen.seed == seed_at((4 * (k + 1)) as nat));
        }
        let px = to_pixel(m0, m1, m2, m3);
        image.pixels.set(k, px);
        k = k + 1;
    }
    image
}

} // verus!
