use tiny_vect::Vect2;

#[test]
fn test_from_array_f32() {
    let v = Vect2::from_array([1.0f32.to_bits(), 2.0f32.to_bits()]);
    assert_eq!(v, Vect2::new(1.0f32.to_bits(), 2.0f32.to_bits()));
}

#[test]
fn test_from_tuple_f32() {
    let v = Vect2::from_tuple((3.0f32.to_bits(), 4.0f32.to_bits()));
    assert_eq!(v, Vect2::new(3.0f32.to_bits(), 4.0f32.to_bits()));
}

#[test]
fn test_from_array_i32() {
    let v = Vect2::from_array_i32([5, 6]);
    assert_eq!(v, Vect2::new(5.0f32.to_bits(), 6.0f32.to_bits()));
}

#[test]
fn test_from_tuple_i32() {
    let v = Vect2::from_tuple_i32((7, 8));
    assert_eq!(v, Vect2::new(7.0f32.to_bits(), 8.0f32.to_bits()));
}

#[test]
fn test_into_array() {
    let v = Vect2::new(1.0f32.to_bits(), 2.0f32.to_bits());
    let arr: [u32; 2] = v.into_array();
    assert_eq!(arr, [1.0f32.to_bits(), 2.0f32.to_bits()]);
}

#[test]
fn test_try_from_slice_f32() {
    let slice: &[u32] = &[1.0f32.to_bits(), 2.0f32.to_bits()];
    let v = Vect2::try_from_slice(slice).unwrap();
    assert_eq!(v, Vect2::new(1.0f32.to_bits(), 2.0f32.to_bits()));
}

#[test]
fn test_try_from_slice_i32() {
    let slice: &[i32] = &[3, 4];
    let v = Vect2::try_from_i32_slice(slice).unwrap();
    assert_eq!(v, Vect2::new(3.0f32.to_bits(), 4.0f32.to_bits()));
}

#[test]
fn test_try_from_bad_slice() {
    let bad: &[u32] = &[1.0f32.to_bits()];
    assert!(Vect2::try_from_slice(bad).is_err());
}

#[test]
fn vect2_try_from_empty_and_long() {
    let empty: &[u32] = &[];
    assert!(Vect2::try_from_slice(empty).is_err());
    let long: &[u32] = &[1, 2, 3];
    assert!(Vect2::try_from_slice(long).is_err());
    let bad_i32: &[i32] = &[1, 2, 3];
    assert!(Vect2::try_from_i32_slice(bad_i32).is_err());
    let err = Vect2::try_from_slice(empty).unwrap_err();
    assert_eq!(err, "Expected slice of length 2 for Vect2<f32>");
    let err = Vect2::try_from_i32_slice(bad_i32).unwrap_err();
    assert_eq!(err, "Expected slice of length 2 for Vect2<i32>");
}

#[test]
fn vect2_array_round_trip_exact() {
    // the components come back bit for bit, odd decimals included
    let a: [u32; 2] = [0.1f32.to_bits(), (-2.7f32).to_bits()];
    let v = Vect2::from_array(a);
    assert_eq!(v.into_array(), a);
    let nan: [u32; 2] = [f32::NAN.to_bits(), f32::INFINITY.to_bits()];
    assert_eq!(Vect2::from_array(nan).into_array(), nan);
}

#[test]
fn vect2_index_and_index_mut() {
    let mut v = Vect2::new(7.0f32.to_bits(), 8.0f32.to_bits());
    assert_eq!(v.index(0), 7.0f32.to_bits());
    assert_eq!(v.index(1), 8.0f32.to_bits());
    *v.index_mut(1) = 9.0f32.to_bits();
    assert_eq!(v.index(0), 7.0f32.to_bits());
    assert_eq!(v.index(1), 9.0f32.to_bits());
}

#[test]
fn vect2_equality_follows_ieee() {
    // the two zeros compare equal
    let pz = Vect2::new(0.0f32.to_bits(), 0.0f32.to_bits());
    let nz = Vect2::new((-0.0f32).to_bits(), (-0.0f32).to_bits());
    assert_eq!(pz, nz);
    // a NaN component never compares equal, even to itself
    let n = Vect2::new(f32::NAN.to_bits(), 1.0f32.to_bits());
    assert!(n != n);
    assert!(pz != Vect2::new(1.0f32.to_bits(), 0.0f32.to_bits()));
}

#[test]
fn vect2_is_zero_and_default() {
    let d = Vect2::default();
    assert!(d.is_zero());
    assert!(Vect2::new((-0.0f32).to_bits(), 0.0f32.to_bits()).is_zero());
    assert!(!Vect2::new(1.0f32.to_bits(), 0.0f32.to_bits()).is_zero());
    assert_eq!(d, Vect2::new(0.0f32.to_bits(), 0.0f32.to_bits()));
}

#[test]
fn vect2_is_finite_guard_condition() {
    assert!(Vect2::new(1.0f32.to_bits(), 2.0f32.to_bits()).is_finite());
    assert!(!Vect2::new(f32::INFINITY.to_bits(), 2.0f32.to_bits()).is_finite());
    assert!(!Vect2::new(1.0f32.to_bits(), f32::NAN.to_bits()).is_finite());
    // the overflowing sum of two maximal vectors fails the guard
    let s = f32::MAX + f32::MAX;
    assert!(!Vect2::new(s.to_bits(), s.to_bits()).is_finite());
}
