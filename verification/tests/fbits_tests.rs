use std::collections::hash_map::DefaultHasher;
use std::hash::{Hash, Hasher};

use tiny_vect::{clamp_unit, float_eq, is_finite, is_nan, is_zero_value, Vect2, Vect3};

fn hash_of<T: Hash>(v: &T) -> u64 {
    let mut h = DefaultHasher::new();
    v.hash(&mut h);
    h.finish()
}

#[test]
fn classification_agrees_with_native_predicates() {
    let samples: [f32; 12] = [
        0.0,
        -0.0,
        1.0,
        -1.5,
        0.1,
        f32::MAX,
        f32::MIN_POSITIVE,
        1e-42, // subnormal
        f32::INFINITY,
        f32::NEG_INFINITY,
        f32::NAN,
        -f32::NAN,
    ];
    for v in samples {
        let b = v.to_bits();
        assert_eq!(is_nan(b), v.is_nan(), "is_nan on {:?}", v);
        assert_eq!(is_finite(b), v.is_finite(), "is_finite on {:?}", v);
        assert_eq!(is_zero_value(b), v == 0.0, "is_zero_value on {:?}", v);
    }
}

#[test]
fn float_eq_agrees_with_native_comparison() {
    let samples: [f32; 10] = [
        0.0,
        -0.0,
        1.0,
        -1.0,
        0.1,
        f32::MAX,
        f32::INFINITY,
        f32::NEG_INFINITY,
        f32::NAN,
        1e-42,
    ];
    for a in samples {
        for b in samples {
            assert_eq!(
                float_eq(a.to_bits(), b.to_bits()),
                a == b,
                "float_eq on {:?} and {:?}",
                a,
                b
            );
        }
    }
}

#[test]
fn equal_vectors_hash_identically() {
    let a = Vect2::new(1.5f32.to_bits(), (-2.5f32).to_bits());
    let b = Vect2::new(1.5f32.to_bits(), (-2.5f32).to_bits());
    assert_eq!(a, b);
    assert_eq!(hash_of(&a), hash_of(&b));
    let c = Vect3::new(1.0f32.to_bits(), 2.0f32.to_bits(), 3.0f32.to_bits());
    let d = Vect3::new(1.0f32.to_bits(), 2.0f32.to_bits(), 3.0f32.to_bits());
    assert_eq!(c, d);
    assert_eq!(hash_of(&c), hash_of(&d));
}

#[test]
fn clamp_unit_agrees_with_native_clamp() {
    let samples: [f32; 16] = [
        0.0,
        -0.0,
        1.0,
        -1.0,
        0.99999,
        -0.99999,
        1.0000001,
        -1.0000001,
        0.5,
        -2.5,
        1e20,
        -1e20,
        f32::INFINITY,
        f32::NEG_INFINITY,
        f32::MIN_POSITIVE,
        1e-42,
    ];
    for v in samples {
        let clamped = f32::from_bits(clamp_unit(v.to_bits()));
        assert_eq!(
            clamped.to_bits(),
            v.clamp(-1.0, 1.0).to_bits(),
            "clamp_unit on {:?}",
            v
        );
    }
    // a NaN passes through unchanged
    let nan_bits = f32::NAN.to_bits();
    assert_eq!(clamp_unit(nan_bits), nan_bits);
}

#[test]
fn zero_sign_is_the_documented_hash_asymmetry() {
    // +0.0 and -0.0 compare equal but hash from different bit patterns
    let pz = Vect2::new(0.0f32.to_bits(), 0.0f32.to_bits());
    let nz = Vect2::new((-0.0f32).to_bits(), 0.0f32.to_bits());
    assert_eq!(pz, nz);
    assert_ne!(hash_of(&pz), hash_of(&nz));
}
