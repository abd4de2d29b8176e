use dsp_core::simd_utils::{
    clear_buffer, copy_buffer, copy_span, deinterleave_stereo, envelope_4_simd, envelope_index,
    envelope_lookup, find_peak, hard_clip_buffer, interleave_stereo, shift_left, simd_available,
    ENVELOPE_TABLE_SIZE, MAX_ENVELOPE_PHASE,
};

fn words(values: &[f32]) -> Vec<u32> {
    values.iter().map(|v| v.to_bits()).collect()
}

fn values(words: &[u32]) -> Vec<f32> {
    words.iter().map(|w| f32::from_bits(*w)).collect()
}

#[test]
fn test_find_peak() {
    let buffer = words(&[-3.0, 1.0, 5.0, -2.0, 4.0]);
    assert_eq!(f32::from_bits(find_peak(&buffer)), 5.0);
}

#[test]
fn find_peak_of_nothing_is_zero() {
    assert_eq!(find_peak(&[]), 0.0f32.to_bits());
}

#[test]
fn find_peak_takes_the_absolute_value() {
    let buffer = words(&[0.5, -7.25, 3.0]);
    assert_eq!(f32::from_bits(find_peak(&buffer)), 7.25);
}

#[test]
fn find_peak_passes_over_nan() {
    let buffer = words(&[1.0, f32::NAN, -2.0, -f32::NAN]);
    assert_eq!(f32::from_bits(find_peak(&buffer)), 2.0);
    assert_eq!(find_peak(&words(&[f32::NAN])), 0.0f32.to_bits());
}

#[test]
fn find_peak_reaches_infinity() {
    let buffer = words(&[1.0, f32::NEG_INFINITY, 3.0]);
    assert_eq!(f32::from_bits(find_peak(&buffer)), f32::INFINITY);
}

#[test]
fn find_peak_agrees_with_a_fold_over_the_values() {
    let samples = [0.25f32, -0.75, 0.5, -0.0, 1.0e-20, -3.5e10, 42.0, -41.0, 7.0];
    for len in 0..samples.len() {
        let want = samples[..len].iter().map(|x| x.abs()).fold(0.0f32, f32::max);
        assert_eq!(f32::from_bits(find_peak(&words(&samples[..len]))), want);
    }
}

#[test]
fn no_vector_path_is_built_in() {
    assert!(!simd_available());
}

#[test]
fn copy_buffer_copies_the_common_prefix() {
    let src = words(&[1.0, 2.0, 3.0]);
    let mut longer = words(&[9.0, 9.0, 9.0, 9.0, 9.0]);
    copy_buffer(&src, &mut longer);
    assert_eq!(values(&longer), [1.0, 2.0, 3.0, 9.0, 9.0]);

    let mut shorter = words(&[9.0, 9.0]);
    copy_buffer(&src, &mut shorter);
    assert_eq!(values(&shorter), [1.0, 2.0]);

    let mut empty: Vec<u32> = Vec::new();
    copy_buffer(&src, &mut empty);
    assert!(empty.is_empty());
}

#[test]
fn copy_buffer_keeps_every_bit() {
    let src = vec![0x7fc0_0001, 0xffff_ffff, 0x8000_0000, 0x0000_0001, 0x7f80_0000];
    let mut dst = vec![0u32; 5];
    copy_buffer(&src, &mut dst);
    assert_eq!(dst, src);
}

#[test]
fn clear_buffer_leaves_positive_zero() {
    let mut buffer = words(&[1.0, -2.0, f32::NAN, -0.0, 5.0, 6.0, 7.0, 8.0, 9.0]);
    clear_buffer(&mut buffer);
    assert_eq!(buffer, vec![0u32; 9]);
    let mut empty: Vec<u32> = Vec::new();
    clear_buffer(&mut empty);
    assert!(empty.is_empty());
}

#[test]
fn interleave_merges_frames() {
    let left = words(&[1.0, 2.0, 3.0, 4.0, 5.0]);
    let right = words(&[-1.0, -2.0, -3.0, -4.0, -5.0]);
    let mut out = vec![0u32; 10];
    interleave_stereo(&left, &right, &mut out);
    assert_eq!(values(&out), [1.0, -1.0, 2.0, -2.0, 3.0, -3.0, 4.0, -4.0, 5.0, -5.0]);
}

#[test]
fn interleave_stops_at_the_shortest_span() {
    let left = words(&[1.0, 2.0, 3.0]);
    let right = words(&[-1.0, -2.0]);
    let mut out = words(&[9.0; 7]);
    interleave_stereo(&left, &right, &mut out);
    assert_eq!(values(&out), [1.0, -1.0, 2.0, -2.0, 9.0, 9.0, 9.0]);

    let mut odd = words(&[9.0; 3]);
    interleave_stereo(&left, &left, &mut odd);
    assert_eq!(values(&odd), [1.0, 1.0, 9.0]);
}

#[test]
fn deinterleave_splits_frames() {
    let source = words(&[1.0, -1.0, 2.0, -2.0, 3.0, -3.0, 4.0]);
    let mut left = words(&[9.0; 4]);
    let mut right = words(&[9.0; 5]);
    deinterleave_stereo(&source, &mut left, &mut right);
    assert_eq!(values(&left), [1.0, 2.0, 3.0, 9.0]);
    assert_eq!(values(&right), [-1.0, -2.0, -3.0, 9.0, 9.0]);
}

#[test]
fn deinterleave_undoes_interleave() {
    let left: Vec<u32> = (0..37u32).map(|i| i.wrapping_mul(0x9e37_79b9)).collect();
    let right: Vec<u32> = (0..37u32).map(|i| !i.wrapping_mul(0x85eb_ca6b)).collect();
    let mut merged = vec![0u32; 74];
    interleave_stereo(&left, &right, &mut merged);
    let mut left_back = vec![7u32; 37];
    let mut right_back = vec![7u32; 37];
    deinterleave_stereo(&merged, &mut left_back, &mut right_back);
    assert_eq!(left_back, left);
    assert_eq!(right_back, right);
}

#[test]
fn hard_clip_buffer_limits_each_sample() {
    let mut buffer = words(&[-2.0, -1.0, -0.5, 0.0, 0.5, 1.0, 2.0, f32::INFINITY, f32::NEG_INFINITY]);
    hard_clip_buffer(&mut buffer, 1.0f32.to_bits());
    assert_eq!(values(&buffer), [-1.0, -1.0, -0.5, 0.0, 0.5, 1.0, 1.0, 1.0, -1.0]);
}

#[test]
fn hard_clip_buffer_keeps_a_nan() {
    let mut buffer = words(&[f32::NAN, 3.0]);
    hard_clip_buffer(&mut buffer, 1.0f32.to_bits());
    assert!(f32::from_bits(buffer[0]).is_nan());
    assert_eq!(f32::from_bits(buffer[1]), 1.0);
}

#[test]
fn hard_clip_buffer_agrees_with_clamp() {
    let samples = [0.25f32, -0.75, 0.5, -0.0, 1.0e-20, -3.5e10, 42.0, -41.0, 7.0];
    for limit in [0.0f32, 0.3, 1.0, 40.0, f32::INFINITY] {
        let mut buffer = words(&samples);
        hard_clip_buffer(&mut buffer, limit.to_bits());
        for (got, x) in buffer.iter().zip(samples.iter()) {
            assert_eq!(*got, x.clamp(-limit, limit).to_bits());
        }
    }
}

#[test]
fn copy_span_copies_what_fits() {
    let src = words(&[1.0, 2.0, 3.0, 4.0, 5.0]);
    let mut dst = words(&[9.0; 6]);
    assert_eq!(copy_span(&src, 1, &mut dst, 2, 3), 3);
    assert_eq!(values(&dst), [9.0, 9.0, 2.0, 3.0, 4.0, 9.0]);

    let mut dst = words(&[9.0; 6]);
    assert_eq!(copy_span(&src, 3, &mut dst, 0, 4), 2);
    assert_eq!(values(&dst), [4.0, 5.0, 9.0, 9.0, 9.0, 9.0]);

    let mut dst = words(&[9.0; 6]);
    assert_eq!(copy_span(&src, 5, &mut dst, 0, 4), 0);
    assert_eq!(values(&dst), [9.0; 6]);
}

#[test]
fn shift_left_drops_the_head_and_silences_the_tail() {
    let mut buffer = words(&[1.0, 2.0, 3.0, 4.0, 5.0]);
    shift_left(&mut buffer, 2);
    assert_eq!(values(&buffer), [3.0, 4.0, 5.0, 0.0, 0.0]);

    let mut buffer = words(&[1.0, 2.0, 3.0]);
    shift_left(&mut buffer, 0);
    assert_eq!(values(&buffer), [1.0, 2.0, 3.0]);

    let mut buffer = words(&[1.0, 2.0, 3.0]);
    shift_left(&mut buffer, 3);
    assert_eq!(buffer, vec![0u32; 3]);
}

#[test]
fn copy_span_stops_at_either_end() {
    let src = words(&[1.0, 2.0, 3.0, 4.0, 5.0]);
    let mut dst = words(&[9.0; 4]);
    assert_eq!(copy_span(&src, 0, &mut dst, 2, 5), 2);
    assert_eq!(values(&dst), [9.0, 9.0, 1.0, 2.0]);
    assert_eq!(copy_span(&src, 6, &mut dst, 0, 5), 0);
    assert_eq!(copy_span(&src, 0, &mut dst, 5, 5), 0);
    assert_eq!(copy_span(&src, 0, &mut dst, 4, 5), 0);
    assert_eq!(values(&dst), [9.0, 9.0, 1.0, 2.0]);
}

#[test]
fn shift_left_by_more_than_the_length_silences() {
    let mut buffer = words(&[1.0, 2.0, 3.0]);
    shift_left(&mut buffer, 7);
    assert_eq!(buffer, vec![0u32; 3]);
    shift_left(&mut buffer, usize::MAX);
    assert_eq!(buffer, vec![0u32; 3]);
}

#[test]
fn envelope_index_examples() {
    assert_eq!(ENVELOPE_TABLE_SIZE, 1024);
    assert_eq!(MAX_ENVELOPE_PHASE, 0.9999f32.to_bits());
    assert_eq!(envelope_index(0.0f32.to_bits()), 0);
    assert_eq!(envelope_index((-0.0f32).to_bits()), 0);
    assert_eq!(envelope_index(0.25f32.to_bits()), 256);
    assert_eq!(envelope_index(0.5f32.to_bits()), 512);
    assert_eq!(envelope_index(0.9999f32.to_bits()), 1023);
    assert_eq!(envelope_index(1.0f32.to_bits()), 1023);
    assert_eq!(envelope_index(7.5f32.to_bits()), 1023);
    assert_eq!(envelope_index(f32::INFINITY.to_bits()), 1023);
    assert_eq!(envelope_index((-0.5f32).to_bits()), 0);
    assert_eq!(envelope_index(f32::NEG_INFINITY.to_bits()), 0);
    assert_eq!(envelope_index(f32::NAN.to_bits()), 0);
    assert_eq!(envelope_index((1.0f32 / 1024.0).to_bits()), 1);
    assert_eq!(envelope_index((1.0f32 / 1024.0).to_bits() - 1), 0);
    assert_eq!(envelope_index(f32::MIN_POSITIVE.to_bits()), 0);
    assert_eq!(envelope_index(1), 0);
}

#[test]
fn envelope_index_agrees_with_the_values() {
    let mut bits: u32 = 0x1234_5678;
    for _ in 0..200_000 {
        bits = bits.wrapping_mul(1_664_525).wrapping_add(1_013_904_223);
        for word in [bits, (bits >> 2) | 0x3000_0000, 0x3f00_0000 | (bits >> 9)] {
            let phase = f32::from_bits(word);
            let want = (phase.clamp(0.0, 0.9999) * 1024.0) as usize;
            assert_eq!(envelope_index(word), want, "phase {phase}");
        }
    }
    for step in 0..=10_240u32 {
        let phase = step as f32 / 10_240.0;
        let want = (phase.clamp(0.0, 0.9999) * 1024.0) as usize;
        assert_eq!(envelope_index(phase.to_bits()), want);
    }
}

#[test]
fn envelope_lookup_reads_the_table() {
    let table: Vec<u32> = (0..1024u32).map(|i| i * 3 + 1).collect();
    assert_eq!(envelope_lookup(&table, 0.0f32.to_bits()), 1);
    assert_eq!(envelope_lookup(&table, 0.5f32.to_bits()), 512 * 3 + 1);
    assert_eq!(envelope_lookup(&table, 2.0f32.to_bits()), 1023 * 3 + 1);
    assert_eq!(envelope_lookup(&table, f32::NAN.to_bits()), 1);
    // A raised cosine is 0 at the start, 1 in the middle.
    let cosine: Vec<u32> = (0..1024)
        .map(|i| (0.5 - 0.5 * (2.0 * std::f32::consts::PI * i as f32 / 1024.0).cos()).to_bits())
        .collect();
    assert_eq!(f32::from_bits(envelope_lookup(&cosine, 0.0f32.to_bits())), 0.0);
    assert_eq!(f32::from_bits(envelope_lookup(&cosine, 0.5f32.to_bits())), 1.0);
    assert!(f32::from_bits(envelope_lookup(&cosine, 1.0f32.to_bits())) < 1.0e-4);
}

#[test]
fn envelope_lookup_in_a_short_table_is_zero() {
    let table: Vec<u32> = vec![7; 512];
    assert_eq!(envelope_lookup(&table, 0.25f32.to_bits()), 7);
    assert_eq!(envelope_lookup(&table, 0.5f32.to_bits()), 0);
    assert_eq!(envelope_lookup(&[], 0.0f32.to_bits()), 0);
}

#[test]
fn envelope_lookup_on_four_lanes() {
    let table: Vec<u32> = (0..1024u32).collect();
    let phases = [0.0f32, 0.25, 0.5, 7.0].map(f32::to_bits);
    assert_eq!(envelope_4_simd(&table, phases), [0, 256, 512, 1023]);
}
