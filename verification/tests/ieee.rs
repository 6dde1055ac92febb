use whisper_stream::ieee::{
    is_greater_32, is_greater_64, is_nan_32, is_nan_64, total_key_32, NAN_64, NEG_INFINITY_32,
};

fn singles() -> Vec<f32> {
    vec![
        f32::from_bits(0xffc0_0001),
        f32::NEG_INFINITY,
        f32::MIN,
        -1.5,
        -f32::MIN_POSITIVE,
        -f32::from_bits(1),
        -0.0,
        0.0,
        f32::from_bits(1),
        0.6,
        1.0,
        f32::MAX,
        f32::INFINITY,
        f32::NAN,
    ]
}

fn doubles() -> Vec<f64> {
    vec![
        f64::from_bits(0xfff8_0000_0000_0001),
        f64::NEG_INFINITY,
        f64::MIN,
        -1.0,
        -f64::from_bits(1),
        -0.0,
        0.0,
        f64::from_bits(1),
        0.6,
        2.4,
        f64::MAX,
        f64::INFINITY,
        f64::NAN,
    ]
}

#[test]
fn singles_compare_as_numbers() {
    for a in singles() {
        assert_eq!(is_nan_32(a.to_bits()), a.is_nan());
        for b in singles() {
            assert_eq!(is_greater_32(a.to_bits(), b.to_bits()), a > b, "{a} > {b}");
        }
    }
}

#[test]
fn doubles_compare_as_numbers() {
    for a in doubles() {
        assert_eq!(is_nan_64(a.to_bits()), a.is_nan());
        for b in doubles() {
            assert_eq!(is_greater_64(a.to_bits(), b.to_bits()), a > b, "{a} > {b}");
        }
    }
}

#[test]
fn keys_follow_the_total_order() {
    for a in singles() {
        for b in singles() {
            assert_eq!(
                total_key_32(a.to_bits()).cmp(&total_key_32(b.to_bits())),
                a.total_cmp(&b),
                "{a} against {b}"
            );
        }
    }
    assert_eq!(total_key_32(0), 0);
    assert_eq!(total_key_32(0x8000_0000), -1);
}

#[test]
fn greater_numbers_have_greater_keys() {
    let (a, b) = (0.25f32.to_bits(), (-3.0f32).to_bits());
    assert!(is_greater_32(a, b));
    assert!(total_key_32(a) > total_key_32(b));
}

#[test]
fn distinct_patterns_have_distinct_keys() {
    assert_ne!(total_key_32((-0.0f32).to_bits()), total_key_32(0.0f32.to_bits()));
}

#[test]
fn named_patterns_are_the_numbers_they_name() {
    assert_eq!(NAN_64, f64::NAN.to_bits());
    assert_eq!(NEG_INFINITY_32, f32::NEG_INFINITY.to_bits());
}
