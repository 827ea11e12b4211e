use vstd::prelude::*;
use vstd::arithmetic::power2::{pow2, lemma_pow2_strictly_increases, lemma2_to64, lemma2_to64_rest};
use crate::sized_image::{Domain, SizedImage};

verus! {

/// Failure a transform reports as a discrete status instead of an exception.
/// Any failure aborts the pipeline; there is no partial result.
#[derive(Debug, Clone, Copy, PartialEq, Eq, Structural)]
pub enum FourierTransformError {
    OutOfMemory,
    InvalidDimension,
    InvalidThreadCount,
}

impl FourierTransformError {
    /// The status code the external transform reports for this failure.
    pub open spec fn spec_code(self) -> u8 {
        match self {
            FourierTransformError::OutOfMemory => 1,
            FourierTransformError::InvalidDimension => 2,
            FourierTransformError::InvalidThreadCount => 3,
        }
    }

    /// Decode a status byte: 1, 2 and 3 are the three failures; any other
    /// value reports success and decodes to no error.
    pub fn from_code(value: u8) -> (r: Result<FourierTransformError, ()>)
        ensures
            match r {
                Ok(e) => e.spec_code() == value,
                Err(_) => !(1 <= value <= 3),
            },
    {
        match value {
            1 => Ok(FourierTransformError::OutOfMemory),
            2 => Ok(FourierTransformError::InvalidDimension),
            3 => Ok(FourierTransformError::InvalidThreadCount),
            _ => Err(()),
        }
    }

    /// The fixed description the pipeline reports for this failure.
    pub fn message(self) -> (r: &'static str)
        ensures
            self == FourierTransformError::OutOfMemory ==> r@ == "out of memory"@,
            self == FourierTransformError::InvalidDimension ==> r@ == "invalid dimension"@,
            self == FourierTransformError::InvalidThreadCount ==> r@ == "invalid thread count"@,
    {
        match self {
            FourierTransformError::OutOfMemory => "out of memory",
            FourierTransformError::InvalidDimension => "invalid dimension",
            FourierTransformError::InvalidThreadCount => "invalid thread count",
        }
    }
}

/// What the transform's `InvalidDimension` status stands for, checked before
/// any external call: the declared exponents must describe the buffer
/// exactly, `len == 2^width_log_2 * 2^height_log_2`, with each padded
/// dimension still representable.
pub fn validate_transform_input(len: usize, width_log_2: u32, height_log_2: u32) -> (r: Result<
    (),
    FourierTransformError,
>)
    ensures
        r is Ok <==> (width_log_2 <= 31 && height_log_2 <= 31 && len == pow2(
            (width_log_2 + height_log_2) as nat,
        )),
        r is Err ==> r->Err_0 == FourierTransformError::InvalidDimension,
{
    if width_log_2 > 31 || height_log_2 > 31 {
        return Err(FourierTransformError::InvalidDimension);
    }
    let e = (width_log_2 + height_log_2) as u64;
    proof {
        assert(pow2(63) == 0x8000_0000_0000_0000u64) by {
            lemma2_to64();
            lemma2_to64_rest();
        }
        if (e as nat) < 63 {
            lemma_pow2_strictly_increases(e as nat, 63);
        }
        vstd::bits::lemma_u64_shl_is_mul(1u64, e);
    }
    let expected = 1u64 << e;
    if (len as u64) == expected {
        Ok(())
    } else {
        Err(FourierTransformError::InvalidDimension)
    }
}

/// Interpret the status the external in-place transform reported on `image`:
/// a code of 1 to 3 is the matching failure; any other code is success, and
/// the buffer, whose dimensions the transform never changes, is relabeled to
/// the target domain. Only this interpretation step can move an image between
/// domains.
pub fn transform_status<Pixel, Src: Domain, Dst: Domain>(
    image: SizedImage<Pixel, Src>,
    status: u8,
) -> (r: Result<SizedImage<Pixel, Dst>, FourierTransformError>)
    ensures
        match r {
            Ok(out) => {
                &&& !(1 <= status <= 3)
                &&& out.width_log_2 == image.width_log_2
                &&& out.height_log_2 == image.height_log_2
                &&& out.pixels == image.pixels
            },
            Err(e) => 1 <= status <= 3 && e.spec_code() == status,
        },
{
    match FourierTransformError::from_code(status) {
        Ok(err) => Err(err),
        Err(_) => Ok(image.convert::<Dst>()),
    }
}

} // verus!
