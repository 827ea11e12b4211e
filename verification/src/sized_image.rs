use vstd::prelude::*;
use core::marker::PhantomData;
use vstd::arithmetic::power2::{pow2, lemma_pow2_adds, lemma_pow2_strictly_increases, lemma2_to64};
use vstd::arithmetic::div_mod::{lemma_fundamental_div_mod, lemma_mod_division_less_than_divisor};
use vstd::bits::{lemma_u32_shl_is_mul, lemma_usize_shl_is_mul};

verus! {

/// Marker for the domain a pixel buffer currently lives in. Ordinary pipeline
/// code never inspects it at run time; it only rules out mixing spatial and
/// frequency values in one operation.
pub trait Domain {}

/// Tag for images indexed by spatial coordinate.
#[derive(Debug)]
pub struct TimeDomain;

impl Domain for TimeDomain {}

/// Tag for images indexed by spatial frequency.
#[derive(Debug)]
pub struct FrequencyDomain;

impl Domain for FrequencyDomain {}

/// A dense row-major pixel buffer whose true dimensions are the powers of two
/// `2^width_log_2 x 2^height_log_2`, tagged with the domain its values live in.
#[derive(Debug)]
pub struct SizedImage<Pixel, D: Domain> {
    pub width_log_2: u32,
    pub height_log_2: u32,
    pub pixels: Vec<Pixel>,
    pub _d: PhantomData<D>,
}

/// The exponent a requested dimension is rounded up to: the smallest `e`
/// with `i <= 2^e`.
pub open spec fn dim_exp(i: nat) -> nat
    decreases i,
{
    if i <= 1 {
        0
    } else {
        1 + dim_exp((i + 1) / 2)
    }
}

/// `e` is the exponent `dim_exp(i)` picks: `2^e` reaches `i` and `2^(e-1)`
/// does not.
pub open spec fn is_dim_exp(i: nat, e: nat) -> bool {
    i <= pow2(e) && (e > 0 ==> pow2((e - 1) as nat) < i)
}

pub proof fn lemma_dim_exp_is_dim_exp(i: nat)
    requires
        i >= 1,
    ensures
        is_dim_exp(i, dim_exp(i)),
    decreases i,
{
    if i <= 1 {
        assert(pow2(0) == 1) by {
            lemma2_to64();
        }
    } else {
        let h = (i + 1) / 2;
        lemma_dim_exp_is_dim_exp(h);
        let e = dim_exp(h);
        assert(pow2(e + 1) == 2 * pow2(e)) by {
            lemma_pow2_adds(e, 1);
            lemma2_to64();
        }
        assert(i <= 2 * pow2(e));
        if e > 0 {
            assert(pow2((e - 1) as nat) < h);
            assert(pow2(e) == 2 * pow2((e - 1) as nat)) by {
                lemma_pow2_adds((e - 1) as nat, 1);
                lemma2_to64();
            }
            assert(pow2(e) < i);
        } else {
            assert(pow2(0) == 1) by {
                lemma2_to64();
            }
        }
    }
}

pub proof fn lemma_dim_exp_unique(i: nat, e: nat)
    requires
        i >= 1,
        is_dim_exp(i, e),
    ensures
        e == dim_exp(i),
{
    lemma_dim_exp_is_dim_exp(i);
    let d = dim_exp(i);
    if e < d {
        lemma_pow2_strictly_increases(e, d);
        assert(pow2((d - 1) as nat) < i);
        if e < d - 1 {
            lemma_pow2_strictly_increases(e, (d - 1) as nat);
        }
        assert(pow2(e) <= pow2((d - 1) as nat));
    } else if d < e {
        if d < e - 1 {
            lemma_pow2_strictly_increases(d, (e - 1) as nat);
        }
        assert(pow2(d) <= pow2((e - 1) as nat));
    }
}

/// The rounded-up power-of-two exponent for a requested dimension. A
/// dimension of zero is rejected by the precondition rather than producing
/// a degenerate buffer.
pub fn log2u32(i: u32) -> (r: u32)
    requires
        1 <= i <= 0x8000_0000u32,
    ensures
        r == dim_exp(i as nat),
        r <= 31,
        i as nat <= pow2(r as nat),
{
    let mut e: u32 = 0;
    let mut p: u32 = 1;
    proof {
        assert(pow2(0) == 1) by {
            lemma2_to64();
        }
    }
    while p < i
        invariant
            1 <= i <= 0x8000_0000u32,
            e <= 31,
            p == pow2(e as nat),
            p <= 0x8000_0000u32,
            e > 0 ==> pow2((e - 1) as nat) < i,
        decreases 0x8000_0000u32 - p,
    {
        proof {
            assert(pow2(31) == 0x8000_0000) by {
                lemma2_to64();
            }
            if e as nat >= 31 {
                if e as nat > 31 {
                    lemma_pow2_strictly_increases(31, e as nat);
                }
                assert(p >= 0x8000_0000u32);
                assert(false);
            }
            lemma_pow2_adds(e as nat, 1);
            lemma2_to64();
        }
        p = p * 2;
        e = e + 1;
    }
    proof {
        lemma_dim_exp_unique(i as nat, e as nat);
    }
    e
}

/// The requested dimensions are valid and the padded buffer they call for
/// fits in memory on this machine.
pub open spec fn dims_ok(width: u32, height: u32) -> bool {
    &&& 1 <= width <= 0x8000_0000u32
    &&& 1 <= height <= 0x8000_0000u32
    &&& pow2(dim_exp(width as nat) + dim_exp(height as nat)) <= usize::MAX
}

/// Run-time test for `dims_ok`, for callers that take dimensions from input.
pub fn dims_supported(width: u32, height: u32) -> (r: bool)
    ensures
        r == dims_ok(width, height),
{
    if width == 0 || width > 0x8000_0000u32 || height == 0 || height > 0x8000_0000u32 {
        return false;
    }
    let we = log2u32(width);
    let he = log2u32(height);
    let e = (we + he) as u64;
    proof {
        assert(pow2(63) == 0x8000_0000_0000_0000u64) by {
            lemma2_to64();
            vstd::arithmetic::power2::lemma2_to64_rest();
        }
        let s = (we + he) as nat;
        if s < 62 {
            lemma_pow2_strictly_increases(s, 62);
        }
        if s <= 62 {
            assert(pow2(62) <= pow2(63)) by {
                lemma_pow2_strictly_increases(62, 63);
            }
        }
        lemma_u64_shl_is_mul_one(e);
    }
    let p = 1u64 << e;
    p <= usize::MAX as u64
}

proof fn lemma_u64_shl_is_mul_one(e: u64)
    requires
        e <= 62,
    ensures
        (1u64 << e) == pow2(e as nat),
        pow2(e as nat) <= 0x8000_0000_0000_0000u64,
{
    assert(pow2(63) == 0x8000_0000_0000_0000u64) by {
        lemma2_to64();
        vstd::arithmetic::power2::lemma2_to64_rest();
    }
    if (e as nat) < 63 {
        lemma_pow2_strictly_increases(e as nat, 63);
    }
    vstd::bits::lemma_u64_shl_is_mul(1u64, e);
}

impl<Pixel, D: Domain> SizedImage<Pixel, D> {
    /// The buffer is exactly the padded rectangle the two exponents call for.
    pub open spec fn wf(self) -> bool {
        &&& self.width_log_2 <= 31
        &&& self.height_log_2 <= 31
        &&& self.pixels@.len() == pow2((self.width_log_2 + self.height_log_2) as nat)
    }

    pub open spec fn spec_width(self) -> nat {
        pow2(self.width_log_2 as nat)
    }

    pub open spec fn spec_height(self) -> nat {
        pow2(self.height_log_2 as nat)
    }

    /// Where coordinate `(x, y)` lives in the row-major buffer.
    pub open spec fn spec_index(self, x: int, y: int) -> int {
        y * self.spec_width() + x
    }

    /// The pixel stored at coordinate `(x, y)`.
    pub open spec fn pixel_at(self, x: int, y: int) -> Pixel {
        self.pixels@[self.spec_index(x, y)]
    }

    /// The column a row-major position falls in: the inverse of `spec_index`.
    pub open spec fn spec_x_of(self, k: int) -> int {
        k % (self.spec_width() as int)
    }

    /// The row a row-major position falls in: the inverse of `spec_index`.
    pub open spec fn spec_y_of(self, k: int) -> int {
        k / (self.spec_width() as int)
    }

    pub proof fn lemma_area(self)
        requires
            self.wf(),
        ensures
            self.pixels@.len() == self.spec_width() * self.spec_height(),
    {
        lemma_pow2_adds(self.width_log_2 as nat, self.height_log_2 as nat);
    }

    /// A fresh padded buffer: the requested dimensions are rounded up to the
    /// next powers of two and every pixel is `init`.
    pub fn new(width: u32, height: u32, init: Pixel) -> (r: SizedImage<Pixel, D>)
        where Pixel: Copy,
        requires
            dims_ok(width, height),
        ensures
            r.wf(),
            r.width_log_2 == dim_exp(width as nat),
            r.height_log_2 == dim_exp(height as nat),
            width as nat <= r.spec_width(),
            height as nat <= r.spec_height(),
            forall|k: int| 0 <= k < r.pixels@.len() ==> r.pixels@[k] == init,
    {
        let width_log_2 = log2u32(width);
        let height_log_2 = log2u32(height);
        proof {
            lemma_pow2_adds(width_log_2 as nat, height_log_2 as nat);
            lemma_usize_shl_is_mul_bounded(width_log_2 as usize);
            lemma_usize_shl_is_mul_bounded(height_log_2 as usize);
        }
        let w: usize = 1usize << (width_log_2 as usize);
        let h: usize = 1usize << (height_log_2 as usize);
        let n: usize = w * h;
        let mut pixels: Vec<Pixel> = Vec::new();
        let mut k: usize = 0;
        while k < n
            invariant
                k <= n,
                pixels@.len() == k,
                forall|j: int| 0 <= j < k ==> pixels@[j] == init,
            decreases n - k,
        {
            pixels.push(init);
            k = k + 1;
        }
        SizedImage { width_log_2, height_log_2, pixels, _d: PhantomData }
    }

    /// Relabel the domain tag; the buffer and dimensions are untouched.
    pub fn convert<New: Domain>(self) -> (r: SizedImage<Pixel, New>)
        ensures
            r.width_log_2 == self.width_log_2,
            r.height_log_2 == self.height_log_2,
            r.pixels == self.pixels,
    {
        SizedImage {
            width_log_2: self.width_log_2,
            height_log_2: self.height_log_2,
            pixels: self.pixels,
            _d: PhantomData,
        }
    }

    /// Padded width of the buffer.
    pub fn width(&self) -> (r: u32)
        requires
            self.wf(),
        ensures
            r == self.spec_width(),
    {
        proof {
            lemma_u32_shl_is_mul_bounded(self.width_log_2);
        }
        1u32 << self.width_log_2
    }

    /// Padded height of the buffer.
    pub fn height(&self) -> (r: u32)
        requires
            self.wf(),
        ensures
            r == self.spec_height(),
    {
        proof {
            lemma_u32_shl_is_mul_bounded(self.height_log_2);
        }
        1u32 << self.height_log_2
    }

    /// Row-major position of `(x, y)`: `y * width + x`.
    pub fn index_of(&self, x: u32, y: u32) -> (r: usize)
        requires
            self.wf(),
            x < self.spec_width(),
            y < self.spec_height(),
        ensures
            r == self.spec_index(x as int, y as int),
            r < self.pixels@.len(),
    {
        proof {
            lemma_usize_shl_is_mul_bounded(self.width_log_2 as usize);
            self.lemma_area();
            lemma_index_in_area(
                self.spec_width() as int,
                self.spec_height() as int,
                x as int,
                y as int,
            );
        }
        let len = self.pixels.len();
        let w: usize = 1usize << (self.width_log_2 as usize);
        proof {
            assert((y as int) * (w as int) + (x as int) < len as int);
        }
        (y as usize) * w + (x as usize)
    }

    /// Overwrite the pixel at `(x, y)`; every other pixel keeps its value.
    pub fn store_data(&mut self, x: u32, y: u32, pixel: Pixel)
        requires
            old(self).wf(),
            x < old(self).spec_width(),
            y < old(self).spec_height(),
        ensures
            final(self).wf(),
            final(self).width_log_2 == old(self).width_log_2,
            final(self).height_log_2 == old(self).height_log_2,
            final(self).pixels@.len() == old(self).pixels@.len(),
            final(self).pixels@ == old(self).pixels@.update(
                old(self).spec_index(x as int, y as int),
                pixel,
            ),
            final(self).pixel_at(x as int, y as int) == pixel,
            forall|x2: int, y2: int|
                0 <= x2 < old(self).spec_width() && 0 <= y2 < old(self).spec_height() && (x2 != x
                    || y2 != y) ==> final(self).pixel_at(x2, y2) == old(self).pixel_at(x2, y2),
    {
        let index = self.index_of(x, y);
        self.pixels.set(index, pixel);
        proof {
            let w = self.spec_width() as int;
            let h = self.spec_height() as int;
            old(self).lemma_area();
            assert forall|x2: int, y2: int|
                0 <= x2 < w && 0 <= y2 < h && (x2 != x || y2 != y) implies self.pixel_at(x2, y2)
                == old(self).pixel_at(x2, y2) by {
                lemma_index_in_area(w, h, x2, y2);
                if self.spec_index(x2, y2) == old(self).spec_index(x as int, y as int) {
                    lemma_index_injective(w, x as int, y as int, x2, y2);
                }
            }
        }
    }

    /// The row-major position is a bijection between the coordinate
    /// rectangle and the buffer positions `[0, width * height)`.
    pub proof fn lemma_index_bijective(self)
        requires
            self.wf(),
        ensures
            self.pixels@.len() == self.spec_width() * self.spec_height(),
            forall|x: int, y: int|
                0 <= x < self.spec_width() && 0 <= y < self.spec_height() ==> 0
                    <= #[trigger] self.spec_index(x, y) < self.pixels@.len(),
            forall|x1: int, y1: int, x2: int, y2: int|
                0 <= x1 < self.spec_width() && 0 <= y1 < self.spec_height() && 0 <= x2
                    < self.spec_width() && 0 <= y2 < self.spec_height()
                    && #[trigger] self.spec_index(x1, y1) == #[trigger] self.spec_index(x2, y2)
                    ==> x1 == x2 && y1 == y2,
            forall|k: int|
                0 <= k < self.pixels@.len() ==> 0 <= #[trigger] self.spec_x_of(k)
                    < self.spec_width(),
            forall|k: int|
                0 <= k < self.pixels@.len() ==> 0 <= #[trigger] self.spec_y_of(k)
                    < self.spec_height(),
            forall|k: int|
                0 <= k < self.pixels@.len() ==> self.spec_index(
                    #[trigger] self.spec_x_of(k),
                    self.spec_y_of(k),
                ) == k,
    {
        let w = self.spec_width() as int;
        let h = self.spec_height() as int;
        self.lemma_area();
        assert forall|x: int, y: int| 0 <= x < w && 0 <= y < h implies 0 <= #[trigger] self
            .spec_index(x, y) < self.pixels@.len() by {
            lemma_index_in_area(w, h, x, y);
        }
        assert forall|x1: int, y1: int, x2: int, y2: int|
            0 <= x1 < w && 0 <= y1 < h && 0 <= x2 < w && 0 <= y2 < h && #[trigger] self.spec_index(
                x1,
                y1,
            ) == #[trigger] self.spec_index(x2, y2) implies x1 == x2 && y1 == y2 by {
            lemma_index_injective(w, x1, y1, x2, y2);
        }
        assert forall|k: int| 0 <= k < self.pixels@.len() implies 0 <= #[trigger] self.spec_x_of(k)
            < self.spec_width() && 0 <= self.spec_y_of(k) < self.spec_height() && self.spec_index(
            self.spec_x_of(k),
            self.spec_y_of(k),
        ) == k by {
            let x = k % w;
            let y = k / w;
            lemma_mod_division_less_than_divisor(k, w);
            vstd::arithmetic::div_mod::lemma_div_pos_is_pos(k, w);
            vstd::arithmetic::div_mod::lemma_multiply_divide_lt(k, w, h);
            lemma_fundamental_div_mod(k, w);
            assert(w * (k / w) == (k / w) * w) by (nonlinear_arith);
            assert(self.spec_index(x, y) == k);
        }
        assert forall|k: int| 0 <= k < self.pixels@.len() implies 0 <= #[trigger] self.spec_y_of(k)
            < self.spec_height() by {
            vstd::arithmetic::div_mod::lemma_div_pos_is_pos(k, w);
            vstd::arithmetic::div_mod::lemma_multiply_divide_lt(k, w, h);
        }
    }

    /// Copy a `width x height` row-major block of `pixels` into the top-left
    /// corner; every pixel outside that block keeps its value.
    pub fn blit(&mut self, width: u32, height: u32, pixels: &[Pixel])
        where Pixel: Copy,
        requires
            old(self).wf(),
            width as nat <= old(self).spec_width(),
            height as nat <= old(self).spec_height(),
            pixels@.len() == width * height,
        ensures
            final(self).wf(),
            final(self).width_log_2 == old(self).width_log_2,
            final(self).height_log_2 == old(self).height_log_2,
            forall|x: int, y: int|
                0 <= x < width && 0 <= y < height ==> final(self).pixel_at(x, y) == pixels@[y
                    * width + x],
            forall|x: int, y: int|
                0 <= x < old(self).spec_width() && 0 <= y < old(self).spec_height() && !(x < width
                    && y < height) ==> final(self).pixel_at(x, y) == old(self).pixel_at(x, y),
    {
        let ghost orig = *self;
        let mut i: u32 = 0;
        while i < height
            invariant
                self.wf(),
                orig.wf(),
                self.width_log_2 == orig.width_log_2,
                self.height_log_2 == orig.height_log_2,
                width as nat <= orig.spec_width(),
                height as nat <= orig.spec_height(),
                pixels@.len() == width * height,
                i <= height,
                forall|x: int, y: int|
                    0 <= x < width && 0 <= y < i ==> self.pixel_at(x, y) == pixels@[y * width + x],
                forall|x: int, y: int|
                    0 <= x < orig.spec_width() && 0 <= y < orig.spec_height() && !(x < width && y
                        < i) ==> self.pixel_at(x, y) == orig.pixel_at(x, y),
            decreases height - i,
        {
            let mut j: u32 = 0;
            while j < width
                invariant
                    self.wf(),
                    orig.wf(),
                    self.width_log_2 == orig.width_log_2,
                    self.height_log_2 == orig.height_log_2,
                    width as nat <= orig.spec_width(),
                    height as nat <= orig.spec_height(),
                    pixels@.len() == width * height,
                    i < height,
                    j <= width,
                    forall|x: int, y: int|
                        0 <= x < width && 0 <= y < i ==> self.pixel_at(x, y) == pixels@[y * width
                            + x],
                    forall|x: int| 0 <= x < j ==> self.pixel_at(x, i as int) == pixels@[i * width + x],
                    forall|x: int, y: int|
                        0 <= x < orig.spec_width() && 0 <= y < orig.spec_height() && !(x < width
                            && y < i) && !(x < j && y == i) ==> self.pixel_at(x, y) == orig.pixel_at(
                            x,
                            y,
                        ),
                decreases width - j,
            {
                let n = pixels.len();
                proof {
                    lemma_index_in_area(width as int, height as int, j as int, i as int);
                    assert((i as int) * (width as int) + (j as int) < n as int);
                }
                let src_index = (i as usize) * (width as usize) + (j as usize);
                self.store_data(j, i, pixels[src_index]);
                j = j + 1;
            }
            i = i + 1;
        }
    }

    /// Build a padded buffer holding the given `width x height` row-major
    /// pixels in its top-left corner, with `init` everywhere else.
    pub fn from(width: u32, height: u32, pixels: &[Pixel], init: Pixel) -> (r: SizedImage<
        Pixel,
        D,
    >)
        where Pixel: Copy,
        requires
            dims_ok(width, height),
            pixels@.len() == width * height,
        ensures
            r.wf(),
            r.width_log_2 == dim_exp(width as nat),
            r.height_log_2 == dim_exp(height as nat),
            forall|x: int, y: int|
                0 <= x < width && 0 <= y < height ==> r.pixel_at(x, y) == pixels@[y * width + x],
            forall|x: int, y: int|
                0 <= x < r.spec_width() && 0 <= y < r.spec_height() && !(x < width && y < height)
                    ==> r.pixel_at(x, y) == init,
    {
        let mut s = SizedImage::new(width, height, init);
        proof {
            s.lemma_index_bijective();
        }
        s.blit(width, height, pixels);
        s
    }

    /// A new, larger padded buffer: the whole original sits in the top-left
    /// corner, every added pixel is `init`, and the original is untouched.
    pub fn pad_to_new_size(&self, width: u32, height: u32, init: Pixel) -> (r: SizedImage<
        Pixel,
        D,
    >)
        where Pixel: Copy,
        requires
            self.wf(),
            dims_ok(width, height),
            self.spec_width() <= pow2(dim_exp(width as nat)),
            self.spec_height() <= pow2(dim_exp(height as nat)),
        ensures
            r.wf(),
            r.width_log_2 == dim_exp(width as nat),
            r.height_log_2 == dim_exp(height as nat),
            forall|x: int, y: int|
                0 <= x < self.spec_width() && 0 <= y < self.spec_height() ==> r.pixel_at(x, y)
                    == self.pixel_at(x, y),
            forall|x: int, y: int|
                0 <= x < r.spec_width() && 0 <= y < r.spec_height() && !(x < self.spec_width() && y
                    < self.spec_height()) ==> r.pixel_at(x, y) == init,
    {
        let mut new_image = SizedImage::new(width, height, init);
        proof {
            self.lemma_area();
            new_image.lemma_index_bijective();
        }
        let w = self.width();
        let h = self.height();
        new_image.blit(w, h, self.pixels.as_slice());
        new_image
    }
}

/// Two distinct in-range coordinates never share a row-major position.
proof fn lemma_index_injective(w: int, x1: int, y1: int, x2: int, y2: int)
    by (nonlinear_arith)
    requires
        0 < w,
        0 <= x1 < w,
        0 <= x2 < w,
        y1 * w + x1 == y2 * w + x2,
    ensures
        x1 == x2,
        y1 == y2,
{
}

/// Any in-range coordinate indexes inside the rectangle's buffer.
proof fn lemma_index_in_area(w: int, h: int, x: int, y: int)
    by (nonlinear_arith)
    requires
        0 < w,
        0 < h,
        0 <= x < w,
        0 <= y < h,
    ensures
        0 <= y * w + x < w * h,
{
}

proof fn lemma_u32_shl_is_mul_bounded(e: u32)
    requires
        e <= 31,
    ensures
        (1u32 << e) == pow2(e as nat),
        pow2(e as nat) <= 0x8000_0000u32,
{
    assert(pow2(31) == 0x8000_0000) by {
        lemma2_to64();
    }
    if (e as nat) < 31 {
        lemma_pow2_strictly_increases(e as nat, 31);
    }
    lemma_u32_shl_is_mul(1u32, e);
}

proof fn lemma_usize_shl_is_mul_bounded(e: usize)
    requires
        e <= 31,
    ensures
        (1usize << e) == pow2(e as nat),
        pow2(e as nat) <= 0x8000_0000usize,
{
    assert(pow2(31) == 0x8000_0000) by {
        lemma2_to64();
    }
    if (e as nat) < 31 {
        lemma_pow2_strictly_increases(e as nat, 31);
    }
    lemma_usize_shl_is_mul(1usize, e);
}

} // verus!
