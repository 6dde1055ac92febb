use whisper_stream::duration::{
    clamp_seconds, samples_in_seconds, ONE_SECOND, TEN_SECONDS, THIRTY_SECONDS,
};

fn clamped(seconds: f64) -> f64 {
    f64::from_bits(clamp_seconds(seconds.to_bits()))
}

#[test]
fn named_lengths() {
    assert_eq!(f64::from_bits(ONE_SECOND), 1.0);
    assert_eq!(f64::from_bits(TEN_SECONDS), 10.0);
    assert_eq!(f64::from_bits(THIRTY_SECONDS), 30.0);
}

#[test]
fn lengths_are_brought_into_range() {
    for seconds in [
        -f64::INFINITY,
        -5.0,
        -0.0,
        0.0,
        0.999,
        1.0,
        10.0,
        29.999,
        30.0,
        30.001,
        1e300,
        f64::INFINITY,
        f64::NAN,
    ] {
        assert_eq!(clamped(seconds), seconds.min(30.0).max(1.0), "{seconds}");
    }
    assert_eq!(clamped(f64::NAN), 30.0);
    assert_eq!(clamped(0.0), 1.0);
}

#[test]
fn lengths_in_samples() {
    assert_eq!(samples_in_seconds(ONE_SECOND), 16_000);
    assert_eq!(samples_in_seconds(TEN_SECONDS), 160_000);
    assert_eq!(samples_in_seconds(15.0f64.to_bits()), 240_000);
    assert_eq!(samples_in_seconds(THIRTY_SECONDS), 480_000);
    assert_eq!(samples_in_seconds(1.00001f64.to_bits()), 16_000);
    assert_eq!(samples_in_seconds(2.5f64.to_bits()), 40_000);
}

#[test]
fn samples_agree_with_double_precision() {
    let mut state = 0x9e37_79b9_7f4a_7c15u64;
    for _ in 0..200_000 {
        state = state.wrapping_mul(6364136223846793005).wrapping_add(1442695040888963407);
        let bits = ONE_SECOND + (state >> 8) % (THIRTY_SECONDS - ONE_SECOND + 1);
        let seconds = f64::from_bits(bits);
        assert_eq!(samples_in_seconds(bits), (seconds * 16_000.0) as usize, "{seconds}");
    }
}

#[test]
fn samples_agree_next_to_whole_samples() {
    for n in 16_000..48_000u64 {
        let bits = (n as f64 / 16_000.0).to_bits();
        for near in [bits - 2, bits - 1, bits, bits + 1, bits + 2] {
            if near < ONE_SECOND {
                continue;
            }
            let seconds = f64::from_bits(near);
            assert_eq!(samples_in_seconds(near), (seconds * 16_000.0) as usize, "{seconds}");
        }
    }
}

#[test]
fn a_longer_chunk_has_no_fewer_samples() {
    assert!(samples_in_seconds(3.3f64.to_bits()) <= samples_in_seconds(3.4f64.to_bits()));
}
