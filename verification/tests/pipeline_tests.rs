use deconv::noise::NoiseGenerator;
use deconv::pipeline::{accumulate, combine_pixels, map_pixels, noise_image, wiener_filter_image};
use deconv::sized_image::{FrequencyDomain, SizedImage, TimeDomain};
use deconv::vector::Vector;

#[test]
fn map_pixels_clamps_every_channel() {
    // the ingest stage's epsilon clamp, channel by channel
    let source = vec![
        Vector::new([0.5f32, 0.001, 0.02, 0.0]),
        Vector::new([0.009f32, 1.0, 0.01, 0.3]),
    ];
    let mut img: SizedImage<Vector<f32>, TimeDomain> = SizedImage::from(2, 1, &source, Vector::splat(0.0));
    map_pixels(&mut img, |p: Vector<f32>| {
        p.map(|x: f32| if x < 0.01 { 0.01 } else { x })
    });
    let p0 = img.pixels[img.index_of(0, 0)];
    assert_eq!(p0.data, [0.5, 0.01, 0.02, 0.01]);
    let p1 = img.pixels[img.index_of(1, 0)];
    assert_eq!(p1.data, [0.01, 1.0, 0.01, 0.3]);
}

#[test]
fn combine_pixels_multiplies_element_wise() {
    let a = vec![Vector::new([1.0f64, 2.0, 3.0, 4.0]), Vector::splat(2.0)];
    let b = vec![Vector::new([5.0f64, 6.0, 7.0, 8.0]), Vector::splat(3.0)];
    let mut img: SizedImage<Vector<f64>, FrequencyDomain> = SizedImage::from(2, 1, &a, Vector::splat(0.0));
    let other: SizedImage<Vector<f64>, FrequencyDomain> = SizedImage::from(2, 1, &b, Vector::splat(0.0));
    combine_pixels(&mut img, &other, |x: Vector<f64>, y: Vector<f64>| {
        x.map_with(y, |p: f64, q: f64| p * q)
    });
    assert_eq!(img.pixels[img.index_of(0, 0)].data, [5.0, 12.0, 21.0, 32.0]);
    assert_eq!(img.pixels[img.index_of(1, 0)].data, [6.0, 6.0, 6.0, 6.0]);
}

#[test]
fn accumulate_sums_squared_magnitudes() {
    // the aggregate power estimate: sum of squared magnitudes per channel
    let pixels = vec![
        Vector::new([1.0f64, 2.0, 0.0, 1.0]),
        Vector::new([3.0f64, 1.0, 2.0, 1.0]),
        Vector::new([0.0f64, 2.0, 2.0, 1.0]),
    ];
    let total = accumulate(&pixels, Vector::splat(0.0f64), |acc: Vector<f64>, px: Vector<f64>| {
        acc.map_with(px.map(|x: f64| x * x), |a: f64, b: f64| a + b)
    });
    assert_eq!(total.data, [10.0, 9.0, 8.0, 3.0]);
}

#[test]
fn wiener_filter_identity_case_leaves_unit_kernel_alone() {
    // zero noise and a flat unit kernel spectrum: every bin becomes
    // conj(1) * s / (|1|^2 * s + 0) == 1, so the filter is the identity
    let bins = vec![Vector::splat(1.0f64); 4];
    let mut kernel: SizedImage<Vector<f64>, FrequencyDomain> =
        SizedImage::from(2, 2, &bins, Vector::splat(0.0));
    let signal = Vector::splat(5.0f64);
    let noise = Vector::splat(0.0f64);
    wiener_filter_image(
        &mut kernel,
        signal,
        noise,
        |x: f64| x,
        |x: f64| x * x,
        |a: f64, b: f64| a * b,
        |a: f64, b: f64| a + b,
        |a: f64, b: f64| a / b,
    );
    for px in kernel.pixels.iter() {
        for c in 0..4 {
            assert!((px.data[c] - 1.0).abs() < 1e-12);
        }
    }
}

#[test]
fn wiener_filter_damps_weak_bins_under_noise() {
    // one strong bin and one weak bin; with noise present the weak bin is
    // attenuated far below a plain inverse filter
    let bins = vec![Vector::splat(1.0f64), Vector::splat(0.001f64)];
    let mut kernel: SizedImage<Vector<f64>, FrequencyDomain> =
        SizedImage::from(2, 1, &bins, Vector::splat(0.0));
    let signal = Vector::splat(1.0f64);
    let noise = Vector::splat(0.01f64);
    wiener_filter_image(
        &mut kernel,
        signal,
        noise,
        |x: f64| x,
        |x: f64| x * x,
        |a: f64, b: f64| a * b,
        |a: f64, b: f64| a + b,
        |a: f64, b: f64| a / b,
    );
    let strong = kernel.pixels[kernel.index_of(0, 0)].data[0];
    let weak = kernel.pixels[kernel.index_of(1, 0)].data[0];
    assert!((strong - 1.0 / 1.01).abs() < 1e-12);
    // a plain inverse filter would blow the weak bin up to 1000
    assert!((weak - 0.001 / (0.000001 + 0.01)).abs() < 1e-12);
    assert!(weak < 0.1);
}

#[test]
fn noise_image_uses_four_consecutive_levels_per_pixel() {
    let magnitude = 1.0f32 / 256.0;
    let img = noise_image(4, 4, move |a: u32, b: u32, c: u32, d: u32| {
        let f = |l: u32| magnitude * ((l as f32) / 64.0 - 1.0);
        Vector::new([f(a), f(b), f(c), f(d)])
    });
    assert_eq!(img.width(), 4);
    assert_eq!(img.height(), 4);
    let mut gen = NoiseGenerator::new();
    for k in 0..16usize {
        let expected: Vec<f32> = (0..4u32)
            .map(|c| magnitude * ((gen.next_level(4 * k as u32 + c) as f32) / 64.0 - 1.0))
            .collect();
        assert_eq!(img.pixels[k].data.to_vec(), expected, "pixel {k}");
    }
}

#[test]
fn noise_image_is_reproducible() {
    let make = || {
        noise_image(8, 8, |a: u32, b: u32, c: u32, d: u32| {
            Vector::new([a as f64, b as f64, c as f64, d as f64])
        })
    };
    let first = make();
    let second = make();
    for k in 0..64usize {
        assert_eq!(first.pixels[k].data, second.pixels[k].data);
    }
}
