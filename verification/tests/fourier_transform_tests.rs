use deconv::fourier_transform::{
    validate_transform_input, transform_status, FourierTransformError,
};
use deconv::sized_image::{FrequencyDomain, SizedImage, TimeDomain};

#[test]
fn from_code_decodes_each_status() {
    assert_eq!(
        FourierTransformError::from_code(1),
        Ok(FourierTransformError::OutOfMemory)
    );
    assert_eq!(
        FourierTransformError::from_code(2),
        Ok(FourierTransformError::InvalidDimension)
    );
    assert_eq!(
        FourierTransformError::from_code(3),
        Ok(FourierTransformError::InvalidThreadCount)
    );
    assert_eq!(FourierTransformError::from_code(0), Err(()));
    assert_eq!(FourierTransformError::from_code(4), Err(()));
    assert_eq!(FourierTransformError::from_code(255), Err(()));
}

#[test]
fn messages_name_each_failure() {
    assert_eq!(FourierTransformError::OutOfMemory.message(), "out of memory");
    assert_eq!(
        FourierTransformError::InvalidDimension.message(),
        "invalid dimension"
    );
    assert_eq!(
        FourierTransformError::InvalidThreadCount.message(),
        "invalid thread count"
    );
}

#[test]
fn validate_accepts_exact_power_of_two_buffers() {
    assert_eq!(validate_transform_input(16, 2, 2), Ok(()));
    assert_eq!(validate_transform_input(1, 0, 0), Ok(()));
    assert_eq!(validate_transform_input(8, 3, 0), Ok(()));
}

#[test]
fn validate_rejects_mismatched_lengths() {
    // a buffer whose length is not 2^a * 2^b for the declared exponents
    assert_eq!(
        validate_transform_input(15, 2, 2),
        Err(FourierTransformError::InvalidDimension)
    );
    assert_eq!(
        validate_transform_input(17, 2, 2),
        Err(FourierTransformError::InvalidDimension)
    );
    assert_eq!(
        validate_transform_input(0, 2, 2),
        Err(FourierTransformError::InvalidDimension)
    );
    assert_eq!(
        validate_transform_input(16, 40, 2),
        Err(FourierTransformError::InvalidDimension)
    );
}

#[test]
fn transform_status_zero_relabels_the_buffer() {
    let img: SizedImage<i64, TimeDomain> = SizedImage::from(2, 2, &[1, 2, 3, 4], 0);
    let pixels_before = img.pixels.clone();
    let r: Result<SizedImage<i64, FrequencyDomain>, _> = transform_status(img, 0);
    let out = r.expect("status 0 is success");
    assert_eq!(out.width(), 2);
    assert_eq!(out.height(), 2);
    assert_eq!(out.pixels, pixels_before);
}

#[test]
fn transform_status_failure_codes_abort() {
    for (code, expected) in [
        (1u8, FourierTransformError::OutOfMemory),
        (2, FourierTransformError::InvalidDimension),
        (3, FourierTransformError::InvalidThreadCount),
    ] {
        let img: SizedImage<i64, TimeDomain> = SizedImage::new(2, 2, 0);
        let r: Result<SizedImage<i64, FrequencyDomain>, _> = transform_status(img, code);
        assert_eq!(r.unwrap_err(), expected);
    }
}
