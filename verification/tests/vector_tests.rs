use deconv::vector::Vector;

#[test]
fn vector_new_keeps_channels() {
    let v = Vector::new([1.0f32, 2.0, 3.0, 4.0]);
    assert_eq!(v.data, [1.0, 2.0, 3.0, 4.0]);
}

#[test]
fn vector_splat_fills_all_channels() {
    let v = Vector::splat(7.5f32);
    assert_eq!(v.data, [7.5, 7.5, 7.5, 7.5]);
}

#[test]
fn vector_map_is_per_channel() {
    let v = Vector::new([1.0f32, -2.0, 3.0, -4.0]);
    let r = v.map(|x: f32| x * x);
    assert_eq!(r.data, [1.0, 4.0, 9.0, 16.0]);
}

#[test]
fn vector_map_with_is_element_wise() {
    let a = Vector::new([1.0f32, 2.0, 3.0, 4.0]);
    let b = Vector::new([10.0f32, 20.0, 30.0, 40.0]);
    let sum = a.map_with(b, |x: f32, y: f32| x + y);
    assert_eq!(sum.data, [11.0, 22.0, 33.0, 44.0]);
    let prod = a.map_with(b, |x: f32, y: f32| x * y);
    assert_eq!(prod.data, [10.0, 40.0, 90.0, 160.0]);
}

#[test]
fn vector_channels_never_interact() {
    let a = Vector::new([1i64, 0, 0, 0]);
    let b = Vector::new([0i64, 1, 0, 0]);
    let r = a.map_with(b, |x: i64, y: i64| x - y);
    assert_eq!(r.data, [1, -1, 0, 0]);
}

#[test]
fn vector_default_is_all_zero() {
    let v: deconv::vector::Vector<f32> = Default::default();
    assert_eq!(v.data, [0.0; 4]);
}

#[test]
fn vector_operators_are_element_wise() {
    let a = Vector::new([1.0f32, 2.0, 3.0, 4.0]);
    let b = Vector::new([10.0f32, 20.0, 30.0, 40.0]);
    assert_eq!((a + b).data, [11.0, 22.0, 33.0, 44.0]);
    assert_eq!((b - a).data, [9.0, 18.0, 27.0, 36.0]);
    assert_eq!((a * b).data, [10.0, 40.0, 90.0, 160.0]);
    assert_eq!((b / a).data, [10.0; 4]);
    assert_eq!((-a).data, [-1.0, -2.0, -3.0, -4.0]);
}
