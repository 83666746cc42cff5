use tiny_vect::widen_i32;

fn check(i: i32) {
    assert_eq!(
        widen_i32(i),
        (i as f32).to_bits(),
        "widening of {} disagrees with the native conversion",
        i
    );
}

#[test]
fn widen_small_values_exact() {
    for i in -1000..=1000 {
        check(i);
    }
}

#[test]
fn widen_zero_is_positive_zero() {
    assert_eq!(widen_i32(0), 0.0f32.to_bits());
    assert_eq!(widen_i32(0), 0u32);
}

#[test]
fn widen_exact_up_to_two_pow_24() {
    for i in [
        1 << 20,
        (1 << 24) - 1,
        1 << 24,
        -(1 << 24),
        -((1 << 24) - 1),
        1 << 23,
        (1 << 23) + 1,
    ] {
        check(i);
    }
}

#[test]
fn widen_rounds_to_nearest_even() {
    // 2^24 + 1 is a tie and rounds down to the even 2^24
    check((1 << 24) + 1);
    // 2^24 + 3 is a tie and rounds up to the even 2^24 + 4
    check((1 << 24) + 3);
    // 2^24 + 2 is exact at this width
    check((1 << 24) + 2);
    check(-((1 << 24) + 1));
    check(-((1 << 24) + 3));
    for i in [
        16_777_229,
        33_554_433,
        33_554_435,
        67_108_871,
        123_456_789,
        999_999_999,
        1_234_567_891,
    ] {
        check(i);
        check(-i);
    }
}

#[test]
fn widen_extremes() {
    check(i32::MAX);
    check(i32::MIN);
    check(i32::MAX - 1);
    check(i32::MIN + 1);
    check(i32::MAX / 2);
}

#[test]
fn widen_sweep_matches_native_conversion() {
    // a deterministic pseudorandom sweep across the whole input range
    let mut state: u64 = 0x2545_f491_4f6c_dd1d;
    for _ in 0..200_000 {
        state = state.wrapping_mul(6_364_136_223_846_793_005).wrapping_add(1_442_695_040_888_963_407);
        let i = (state >> 16) as u32 as i32;
        check(i);
    }
}
