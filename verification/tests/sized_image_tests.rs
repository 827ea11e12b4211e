use deconv::sized_image::{dims_supported, log2u32, FrequencyDomain, SizedImage, TimeDomain};

#[test]
fn log2u32_rounds_up_to_next_power_of_two() {
    assert_eq!(log2u32(1), 0);
    assert_eq!(log2u32(2), 1);
    assert_eq!(log2u32(3), 2);
    assert_eq!(log2u32(4), 2);
    assert_eq!(log2u32(5), 3);
    assert_eq!(log2u32(300), 9);
    assert_eq!(log2u32(512), 9);
    assert_eq!(log2u32(513), 10);
    assert_eq!(log2u32(0x8000_0000), 31);
}

#[test]
fn dims_supported_rejects_zero_dimensions() {
    assert!(!dims_supported(0, 4));
    assert!(!dims_supported(4, 0));
    assert!(dims_supported(4, 4));
    assert!(dims_supported(300, 200));
}

#[test]
fn new_rounds_dimensions_and_fills_with_init() {
    let img: SizedImage<i64, TimeDomain> = SizedImage::new(3, 5, 9);
    assert_eq!(img.width(), 4);
    assert_eq!(img.height(), 8);
    assert_eq!(img.pixels.len(), 32);
    assert!(img.pixels.iter().all(|&p| p == 9));
}

#[test]
fn index_of_is_row_major() {
    let img: SizedImage<i64, TimeDomain> = SizedImage::new(4, 4, 0);
    assert_eq!(img.index_of(0, 0), 0);
    assert_eq!(img.index_of(3, 0), 3);
    assert_eq!(img.index_of(0, 1), 4);
    assert_eq!(img.index_of(3, 3), 15);
}

#[test]
fn index_of_covers_every_position_exactly_once() {
    let img: SizedImage<i64, TimeDomain> = SizedImage::new(8, 4, 0);
    let mut seen = vec![false; 32];
    for y in 0..img.height() {
        for x in 0..img.width() {
            let k = img.index_of(x, y);
            assert!(k < 32);
            assert!(!seen[k], "position hit twice");
            seen[k] = true;
        }
    }
    assert!(seen.iter().all(|&s| s));
}

#[test]
fn store_data_changes_exactly_one_pixel() {
    let mut img: SizedImage<i64, TimeDomain> = SizedImage::new(4, 4, 0);
    img.store_data(2, 1, 42);
    for y in 0..4u32 {
        for x in 0..4u32 {
            let expected = if (x, y) == (2, 1) { 42 } else { 0 };
            assert_eq!(img.pixels[img.index_of(x, y)], expected);
        }
    }
}

#[test]
fn from_copies_source_block_and_pads_with_init() {
    let source: Vec<i64> = vec![1, 2, 3, 4, 5, 6];
    let img: SizedImage<i64, TimeDomain> = SizedImage::from(3, 2, &source, -1);
    assert_eq!(img.width(), 4);
    assert_eq!(img.height(), 2);
    for y in 0..2u32 {
        for x in 0..4u32 {
            let expected = if x < 3 { source[(y * 3 + x) as usize] } else { -1 };
            assert_eq!(img.pixels[img.index_of(x, y)], expected);
        }
    }
}

#[test]
fn pad_to_new_size_keeps_content_and_fills_rest() {
    let source: Vec<i64> = vec![1, 2, 3, 4];
    let img: SizedImage<i64, TimeDomain> = SizedImage::from(2, 2, &source, 0);
    let padded = img.pad_to_new_size(4, 4, 7);
    assert_eq!(padded.width(), 4);
    assert_eq!(padded.height(), 4);
    for y in 0..4u32 {
        for x in 0..4u32 {
            let expected = if x < 2 && y < 2 {
                source[(y * 2 + x) as usize]
            } else {
                7
            };
            assert_eq!(padded.pixels[padded.index_of(x, y)], expected);
        }
    }
    // the source is untouched
    for y in 0..2u32 {
        for x in 0..2u32 {
            assert_eq!(img.pixels[img.index_of(x, y)], source[(y * 2 + x) as usize]);
        }
    }
}

#[test]
fn convert_relabels_without_touching_pixels() {
    let source: Vec<i64> = vec![1, 2, 3, 4];
    let img: SizedImage<i64, TimeDomain> = SizedImage::from(2, 2, &source, 0);
    let w = img.width();
    let h = img.height();
    let pixels_before = img.pixels.clone();
    let freq: SizedImage<i64, FrequencyDomain> = img.convert();
    assert_eq!(freq.width(), w);
    assert_eq!(freq.height(), h);
    assert_eq!(freq.pixels, pixels_before);
}

#[test]
fn blit_overwrites_only_the_block() {
    let mut img: SizedImage<i64, TimeDomain> = SizedImage::new(4, 4, 5);
    let block: Vec<i64> = vec![1, 2, 3, 4, 5, 6];
    img.blit(3, 2, &block);
    for y in 0..4u32 {
        for x in 0..4u32 {
            let expected = if x < 3 && y < 2 { block[(y * 3 + x) as usize] } else { 5 };
            assert_eq!(img.pixels[img.index_of(x, y)], expected, "at ({x},{y})");
        }
    }
}

#[test]
fn dims_supported_accepts_the_largest_dimension() {
    assert!(dims_supported(0x8000_0000, 1));
    assert!(!dims_supported(0x8000_0001, 1));
}
