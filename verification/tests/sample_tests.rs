use melviz::sample::{
    downmix, downmix_frames, normalize_i16, normalize_i24, normalize_i32, normalize_u8, Sample,
    SAMPLE_SCALE,
};

fn in_full_scale(s: Sample) -> bool {
    -SAMPLE_SCALE <= s.raw && s.raw <= SAMPLE_SCALE
}

#[test]
fn normalize_u8_bounds_and_values() {
    assert_eq!(normalize_u8(0).raw, 0);
    assert_eq!(normalize_u8(255).raw, SAMPLE_SCALE);
    assert_eq!(normalize_u8(128).raw, 128 * SAMPLE_SCALE / 255);
    for v in [0u8, 1, 2, 127, 128, 254, 255] {
        let s = normalize_u8(v);
        assert!(0 <= s.raw && s.raw <= SAMPLE_SCALE);
    }
}

#[test]
fn normalize_i16_bounds_and_values() {
    assert_eq!(normalize_i16(0).raw, 0);
    assert_eq!(normalize_i16(i16::MIN).raw, -SAMPLE_SCALE);
    assert_eq!(normalize_i16(i16::MAX).raw, 32767i64 * 65536);
    for v in [i16::MIN, -1, 0, 1, i16::MAX] {
        assert!(in_full_scale(normalize_i16(v)));
    }
}

#[test]
fn normalize_i24_bounds_and_values() {
    assert_eq!(normalize_i24(0).raw, 0);
    assert_eq!(normalize_i24(-8388608).raw, -SAMPLE_SCALE);
    assert_eq!(normalize_i24(8388607).raw, 8388607i64 * 256);
    for v in [-8388608i32, -1, 0, 1, 8388607] {
        assert!(in_full_scale(normalize_i24(v)));
    }
}

#[test]
fn normalize_i32_bounds_and_values() {
    assert_eq!(normalize_i32(0).raw, 0);
    assert_eq!(normalize_i32(i32::MIN).raw, -SAMPLE_SCALE);
    assert_eq!(normalize_i32(i32::MAX).raw, i32::MAX as i64);
    for v in [i32::MIN, -1, 0, 1, i32::MAX] {
        assert!(in_full_scale(normalize_i32(v)));
    }
}

#[test]
fn downmix_is_arithmetic_mean() {
    let frame = vec![Sample { raw: 100 }, Sample { raw: 200 }];
    assert_eq!(downmix(&frame).raw, 150);
    let frame = vec![Sample { raw: SAMPLE_SCALE }, Sample { raw: SAMPLE_SCALE }];
    assert_eq!(downmix(&frame).raw, SAMPLE_SCALE);
    let single = vec![Sample { raw: -123456 }];
    assert_eq!(downmix(&single).raw, -123456);
}

#[test]
fn downmix_rounds_toward_negative_infinity() {
    let frame = vec![Sample { raw: -1 }, Sample { raw: -2 }];
    assert_eq!(downmix(&frame).raw, -2);
    let frame = vec![Sample { raw: 1 }, Sample { raw: 2 }];
    assert_eq!(downmix(&frame).raw, 1);
}

#[test]
fn downmix_frames_walks_interleaved_buffer() {
    let data = vec![
        Sample { raw: 10 },
        Sample { raw: 20 },
        Sample { raw: 30 },
        Sample { raw: 50 },
        Sample { raw: -10 },
        Sample { raw: -30 },
    ];
    let mono = downmix_frames(&data, 2);
    assert_eq!(mono.len(), 3);
    assert_eq!(mono[0].raw, 15);
    assert_eq!(mono[1].raw, 40);
    assert_eq!(mono[2].raw, -20);
}

#[test]
fn downmix_frames_drops_trailing_partial_frame() {
    let data = vec![Sample { raw: 6 }, Sample { raw: 12 }, Sample { raw: 99 }];
    let mono = downmix_frames(&data, 2);
    assert_eq!(mono.len(), 1);
    assert_eq!(mono[0].raw, 9);
}

#[test]
fn clamped_pins_out_of_range_values() {
    assert_eq!(Sample::clamped(i64::MAX).raw, SAMPLE_SCALE);
    assert_eq!(Sample::clamped(i64::MIN).raw, -SAMPLE_SCALE);
    assert_eq!(Sample::clamped(77).raw, 77);
    assert_eq!(Sample::silence().raw, 0);
}
