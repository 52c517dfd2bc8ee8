use wavedown::{clamp, decode, downsample, format_peak, MinMax, OutputType, WaveError};

fn le_bytes(samples: &[i16]) -> Vec<u8> {
    let mut out = Vec::new();
    for s in samples {
        let u = *s as u16;
        out.push((u & 0xFF) as u8);
        out.push((u >> 8) as u8);
    }
    out
}

fn peaks(samples: &[i16], count: usize) -> Vec<(i16, i16)> {
    let r = downsample(&samples.to_vec(), count).unwrap();
    r.iter().map(|p| (p.min, p.max)).collect()
}

#[test]
fn minmax_new_stores_fields() {
    let p = MinMax::new(-3i16, 9i16);
    assert_eq!(p.min, -3);
    assert_eq!(p.max, 9);
}

#[test]
fn decode_empty_buffer() {
    let v = decode(&Vec::new()).unwrap();
    assert_eq!(v.len(), 0);
}

#[test]
fn decode_known_values() {
    let bytes = vec![0x64, 0x00, 0x9C, 0xFF, 0x00, 0x80, 0xFF, 0x7F, 0xFF, 0xFF];
    let v = decode(&bytes).unwrap();
    assert_eq!(v, vec![100, -100, -32768, 32767, -1]);
}

#[test]
fn decode_odd_lengths_fail() {
    for len in [1usize, 3, 5, 999] {
        let bytes = vec![0u8; len];
        assert_eq!(decode(&bytes).unwrap_err(), WaveError::InvalidLength);
    }
}

#[test]
fn downsample_zero_count_succeeds_empty() {
    assert_eq!(peaks(&[], 0).len(), 0);
    assert_eq!(peaks(&[1, 2, 3, 4, 5], 0).len(), 0);
}

#[test]
fn downsample_empty_input_fails() {
    assert_eq!(
        downsample(&Vec::new(), 5).unwrap_err(),
        WaveError::InsufficientData
    );
}

#[test]
fn downsample_too_few_samples_fails() {
    assert_eq!(
        downsample(&vec![1, 2, 3], 4).unwrap_err(),
        WaveError::InsufficientData
    );
    assert_eq!(
        downsample(&vec![0; 9], 10).unwrap_err(),
        WaveError::InsufficientData
    );
}

#[test]
fn downsample_eight_samples_two_windows() {
    let samples = [100, -100, 50, -50, 200, -200, 0, 0];
    let decoded = decode(&le_bytes(&samples)).unwrap();
    assert_eq!(decoded, samples.to_vec());
    let got = peaks(&decoded, 2);
    // Window 0 trace: (0,0) -> (0,100) -> (-100,100) -> (-100,100) -> (-100,100),
    // sums (-300, 400), divided by 4: (-75, 100).
    // Window 1 trace: (0,0) -> (0,200) -> (-200,200) -> (-200,200) -> (-200,200),
    // sums (-600, 800), divided by 4: (-150, 200).
    assert_eq!(got, vec![(-75, 100), (-150, 200)]);
}

#[test]
fn downsample_ten_samples_three_windows_discards_tail() {
    let samples = [100, -100, 50, -50, 200, -200, 0, 0, 300, -300];
    let got = peaks(&samples, 3);
    assert_eq!(got.len(), 3);
    assert_eq!(got, vec![(-66, 100), (-100, 133), (0, 100)]);
    // The one trailing sample is never read: the 9-sample prefix gives the
    // same windows.
    assert_eq!(got, peaks(&samples[..9], 3));
}

#[test]
fn downsample_running_extrema_never_reset_within_window() {
    // After the minimum drops it never rises back toward zero, even when all
    // later samples are positive; a true per-window minimum would be 0 here.
    let got = peaks(&[-100, 100, 100, 100], 1);
    assert_eq!(got, vec![(-100, 75)]);
}

#[test]
fn downsample_components_stay_in_sample_range() {
    let got = peaks(&[-32768; 6], 2);
    assert_eq!(got, vec![(-32768, 0), (-32768, 0)]);
    let got = peaks(&[32767; 6], 3);
    assert_eq!(got, vec![(0, 32767), (0, 32767), (0, 32767)]);
    for (mn, mx) in peaks(&[-32768, 32767, -32768, 32767, 0, -1, 1, 9], 4) {
        assert!((-32768..=32767).contains(&(mn as i32)));
        assert!((-32768..=32767).contains(&(mx as i32)));
    }
}

#[test]
fn format_short() {
    assert_eq!(format_peak(&MinMax::new(-75, 100), &OutputType::Short, 7), "-75 100\n");
    assert_eq!(format_peak(&MinMax::new(0, 0), &OutputType::Short, 0), "0 0\n");
    assert_eq!(
        format_peak(&MinMax::new(-32768, 32767), &OutputType::Short, 3),
        "-32768 32767\n"
    );
}

#[test]
fn format_byte_divides_by_257() {
    assert_eq!(format_peak(&MinMax::new(-75, 100), &OutputType::Byte, 7), "0 0\n");
    assert_eq!(
        format_peak(&MinMax::new(-32768, 32767), &OutputType::Byte, 7),
        "-127 127\n"
    );
    assert_eq!(format_peak(&MinMax::new(-514, 515), &OutputType::Byte, 7), "-2 2\n");
    for v in (-32768i32..=32767).step_by(97) {
        let v = v as i16;
        let line = format_peak(&MinMax::new(v, v), &OutputType::Byte, 7);
        let expect = format!("{} {}\n", v / 257, v / 257);
        assert_eq!(line, expect, "value {}", v);
    }
}

#[test]
fn format_float_divides_by_65535() {
    assert_eq!(
        format_peak(&MinMax::new(0, 0), &OutputType::Float, 7),
        "0.0000000 0.0000000\n"
    );
    assert_eq!(format_peak(&MinMax::new(-32768, 32767), &OutputType::Float, 0), "-1 0\n");
    for v in (-32768i32..=32767).step_by(171) {
        let v = v as i16;
        for p in 0usize..=7 {
            let line = format_peak(&MinMax::new(v, v), &OutputType::Float, p);
            let f = v as f64 / 65535.0;
            let expect = format!("{:.*} {:.*}\n", p, f, p, f);
            assert_eq!(line, expect, "value {} precision {}", v, p);
        }
    }
}

#[test]
fn format_float_uses_given_precision() {
    let p = MinMax::new(-100, 200);
    assert_eq!(format_peak(&p, &OutputType::Float, 2), "-0.00 0.00\n");
    assert_eq!(format_peak(&p, &OutputType::Float, 4), "-0.0015 0.0031\n");
}

#[test]
fn clamp_bounds_precision() {
    assert_eq!(clamp(0, 7, 20), 7);
    assert_eq!(clamp(0, 7, 8), 7);
    assert_eq!(clamp(0, 7, 7), 7);
    assert_eq!(clamp(0, 7, 3), 3);
    assert_eq!(clamp(0, 7, 0), 0);
    assert_eq!(clamp(2, 7, 1), 2);
}

#[test]
fn out_of_range_precision_behaves_as_seven() {
    let p = MinMax::new(-100, 200);
    let clamped = clamp(0, 7, 20);
    assert_eq!(
        format_peak(&p, &OutputType::Float, clamped),
        format_peak(&p, &OutputType::Float, 7)
    );
}

#[test]
fn error_messages() {
    assert_eq!(
        WaveError::InvalidLength.message(),
        "PCM stream length is not divisible by 2."
    );
    assert_eq!(
        WaveError::InsufficientData.message(),
        "Not enough PCM data to transform into the specified number of samples."
    );
}
