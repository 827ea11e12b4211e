use vstd::prelude::*;
use vstd::arithmetic::power2::{pow2, lemma_pow2_strictly_increases, lemma2_to64};
use crate::vector::Vector;
use crate::sized_image::{SizedImage, TimeDomain, dims_ok, dim_exp};

verus! {

/// The box kernel's support: both offsets strictly inside the half-width `s`.
pub open spec fn in_box_support(x: int, y: int, s: int) -> bool {
    -s < x < s && -s < y < s
}

/// The value every channel of a box sample holds at offset `(x, y)`.
pub open spec fn box_sample_value<T>(x: int, y: int, s: int, weight: T, zero: T) -> T {
    if in_box_support(x, y, s) {
        weight
    } else {
        zero
    }
}

/// The box sample is symmetric under negating both coordinates.
pub proof fn lemma_box_sample_symmetric<T>(x: int, y: int, s: int, weight: T, zero: T)
    ensures
        box_sample_value(-x, -y, s, weight, zero) == box_sample_value(x, y, s, weight, zero),
{
}

/// With half-width one the box kernel is a unit impulse: only the center
/// offset carries the weight.
pub proof fn lemma_box_unit_impulse<T>(x: int, y: int, weight: T, zero: T)
    ensures
        box_sample_value(x, y, 1, weight, zero) == if x == 0 && y == 0 {
            weight
        } else {
            zero
        },
{
}

/// Samples a box filter: one constant weight on every channel inside a
/// square around the center, zero outside. The caller picks the weight
/// `1 / (2s - 1)^2` so the kernel's total spatial weight sums to one.
pub struct BoxKernelGen;

impl BoxKernelGen {
    /// The box sample at offset `(x, y)`: `weight` on all four channels
    /// (alpha included) inside the support, `zero` on all four outside.
    pub fn sample<T: Copy>(&self, x: i32, y: i32, size: i32, weight: T, zero: T) -> (r: Vector<T>)
        ensures
            forall|c: int|
                0 <= c < 4 ==> r.data@[c] == box_sample_value(
                    x as int,
                    y as int,
                    size as int,
                    weight,
                    zero,
                ),
    {
        let s = size as i64;
        let xl = x as i64;
        let yl = y as i64;
        if -s < xl && xl < s && -s < yl && yl < s {
            Vector::splat(weight)
        } else {
            Vector::splat(zero)
        }
    }
}

/// The squared distance the gaussian weight is computed from is symmetric
/// under negating both coordinates.
pub proof fn lemma_radius_sq_symmetric(x: int, y: int)
    ensures
        (-x) * (-x) + (-y) * (-y) == x * x + y * y,
{
    vstd::arithmetic::mul::lemma_mul_cancels_negatives(x, x);
    vstd::arithmetic::mul::lemma_mul_cancels_negatives(y, y);
}

/// Samples a gaussian filter: the weight `(1/(2*pi*sigma^2)) * exp(-r^2/(2*sigma^2))`
/// on the three color channels; the alpha channel is deliberately left at one
/// rather than filtered.
pub struct GaussianKernelGen;

impl GaussianKernelGen {
    /// The exact squared distance `x^2 + y^2` from the kernel center, which
    /// the gaussian's exponent is computed from.
    pub fn radius_sq(x: i32, y: i32) -> (r: i64)
        requires
            -0x4000_0000 <= x <= 0x4000_0000,
            -0x4000_0000 <= y <= 0x4000_0000,
        ensures
            r == x as int * x as int + y as int * y as int,
    {
        proof {
            lemma_square_bounded(x as int);
            lemma_square_bounded(y as int);
        }
        (x as i64) * (x as i64) + (y as i64) * (y as i64)
    }

    /// Assemble the gaussian sample: the weight on the three color channels
    /// and `one`, exactly, on the fourth (alpha) channel.
    pub fn sample<T: Copy>(&self, weight: T, one: T) -> (r: Vector<T>)
        ensures
            r.data@[0] == weight,
            r.data@[1] == weight,
            r.data@[2] == weight,
            r.data@[3] == one,
    {
        Vector::new([weight, weight, weight, one])
    }
}

proof fn lemma_square_bounded(x: int)
    by (nonlinear_arith)
    requires
        -0x4000_0000 <= x <= 0x4000_0000,
    ensures
        0 <= x * x <= 0x1000_0000_0000_0000,
{
}

/// Build a whole kernel image by sampling `generator` at every coordinate,
/// offset so that the sample argument `(0, 0)` lands at the buffer's center:
/// pixel `(i, j)` holds a sample for `(i - width/2, j - height/2)`.
pub fn generate_image<T: Copy, F: Fn(i32, i32) -> Vector<T>>(
    width: u32,
    height: u32,
    generator: F,
) -> (r: SizedImage<Vector<T>, TimeDomain>)
    requires
        dims_ok(width, height),
        dim_exp(width as nat) <= 30,
        dim_exp(height as nat) <= 30,
        forall|x: i32, y: i32| call_requires(generator, (x, y)),
    ensures
        r.wf(),
        r.width_log_2 == dim_exp(width as nat),
        r.height_log_2 == dim_exp(height as nat),
        forall|i: int, j: int|
            0 <= i < r.spec_width() && 0 <= j < r.spec_height() ==> call_ensures(
                generator,
                (
                    (i - r.spec_width() / 2) as i32,
                    (j - r.spec_height() / 2) as i32,
                ),
                #[trigger] r.pixel_at(i, j),
            ),
{
    let first = generator(0i32, 0i32);
    let mut kernel: SizedImage<Vector<T>, TimeDomain> = SizedImage::new(width, height, first);
    proof {
        lemma_pow2_le_30(kernel.width_log_2 as nat);
        lemma_pow2_le_30(kernel.height_log_2 as nat);
    }
    let w = kernel.width() as i32;
    let h = kernel.height() as i32;
    let half_w = w / 2;
    let half_h = h / 2;
    let mut i: i32 = 0;
    while i < w
        invariant
            kernel.wf(),
            kernel.width_log_2 == dim_exp(width as nat),
            kernel.height_log_2 == dim_exp(height as nat),
            w == kernel.spec_width(),
            h == kernel.spec_height(),
            0 < w <= 0x4000_0000,
            0 < h <= 0x4000_0000,
            half_w == w / 2,
            half_h == h / 2,
            0 <= i <= w,
            forall|x: i32, y: i32| call_requires(generator, (x, y)),
            forall|a: int, b: int|
                0 <= a < i && 0 <= b < h ==> call_ensures(
                    generator,
                    ((a - w / 2) as i32, (b - h / 2) as i32),
                    #[trigger] kernel.pixel_at(a, b),
                ),
        decreases w - i,
    {
        let mut j: i32 = 0;
        while j < h
            invariant
                kernel.wf(),
                kernel.width_log_2 == dim_exp(width as nat),
                kernel.height_log_2 == dim_exp(height as nat),
                w == kernel.spec_width(),
                h == kernel.spec_height(),
                0 < w <= 0x4000_0000,
                0 < h <= 0x4000_0000,
                half_w == w / 2,
                half_h == h / 2,
                0 <= i < w,
                0 <= j <= h,
                forall|x: i32, y: i32| call_requires(generator, (x, y)),
                forall|a: int, b: int|
                    0 <= a < i && 0 <= b < h ==> call_ensures(
                        generator,
                        ((a - w / 2) as i32, (b - h / 2) as i32),
                        #[trigger] kernel.pixel_at(a, b),
                    ),
                forall|b: int|
                    0 <= b < j ==> call_ensures(
                        generator,
                        ((i - w / 2) as i32, (b - h / 2) as i32),
                        #[trigger] kernel.pixel_at(i as int, b),
                    ),
            decreases h - j,
        {
            let x = i - half_w;
            let y = j - half_h;
            let px = generator(x, y);
            kernel.store_data(i as u32, j as u32, px);
            j = j + 1;
        }
        i = i + 1;
    }
    kernel
}

/// A whole box kernel image: pixel `(i, j)` holds the box sample for the
/// centered offset `(i - width/2, j - height/2)` on every channel.
pub fn generate_box_kernel<T: Copy>(
    width: u32,
    height: u32,
    size: i32,
    weight: T,
    zero: T,
) -> (r: SizedImage<Vector<T>, TimeDomain>)
    requires
        dims_ok(width, height),
        dim_exp(width as nat) <= 30,
        dim_exp(height as nat) <= 30,
    ensures
        r.wf(),
        r.width_log_2 == dim_exp(width as nat),
        r.height_log_2 == dim_exp(height as nat),
        forall|i: int, j: int, c: int|
            0 <= i < r.spec_width() && 0 <= j < r.spec_height() && 0 <= c < 4
                ==> #[trigger] r.pixel_at(i, j).data@[c] == box_sample_value(
                i - r.spec_width() / 2,
                j - r.spec_height() / 2,
                size as int,
                weight,
                zero,
            ),
{
    let gen = BoxKernelGen;
    let sampler = |x: i32, y: i32| -> (px: Vector<T>)
        ensures
            forall|c: int|
                0 <= c < 4 ==> px.data@[c] == box_sample_value(
                    x as int,
                    y as int,
                    size as int,
                    weight,
                    zero,
                ),
        { gen.sample(x, y, size, weight, zero) };
    let r = generate_image(width, height, sampler);
    proof {
        lemma_pow2_le_30(r.width_log_2 as nat);
        lemma_pow2_le_30(r.height_log_2 as nat);
        let w = r.spec_width() as int;
        let h = r.spec_height() as int;
        assert forall|i: int, j: int, c: int|
            0 <= i < w && 0 <= j < h && 0 <= c < 4 implies #[trigger] r.pixel_at(i, j).data@[c]
            == box_sample_value(i - w / 2, j - h / 2, size as int, weight, zero) by {
            assert(call_ensures(
                sampler,
                ((i - w / 2) as i32, (j - h / 2) as i32),
                r.pixel_at(i, j),
            ));
            assert(((i - w / 2) as i32) as int == i - w / 2);
            assert(((j - h / 2) as i32) as int == j - h / 2);
        }
    }
    r
}

proof fn lemma_pow2_le_30(e: nat)
    requires
        e <= 30,
    ensures
        pow2(e) <= 0x4000_0000,
{
    assert(pow2(30) == 0x4000_0000) by {
        lemma2_to64();
    }
    if e < 30 {
        lemma_pow2_strictly_increases(e, 30);
    }
}

} // verus!
