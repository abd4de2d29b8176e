use dsp_core::memory::{init_engine, Arena};
use dsp_core::spectral::{
    capture, process, reset, resume, Action, FreezeStep, SpectralState, FFT_SIZE, HOP_SIZE,
    INPUT_TAIL, MAX_FREEZE, MAX_SHIFT, MIN_SHIFT, NUM_BINS, OUTPUT_SIZE,
};
use rustfft::num_complex::Complex;
use rustfft::FftPlanner;
use std::f32::consts::PI;

fn w(value: f32) -> u32 {
    value.to_bits()
}

fn ready(block: u32) -> Arena {
    let mut arena = Arena::new();
    assert_eq!(init_engine(&mut arena, w(44100.0), block), Ok(()));
    arena
}

fn fill_input(arena: &mut Arena, first: u32) {
    for (i, word) in arena.input_l.iter_mut().enumerate() {
        *word = first + i as u32;
    }
    for (i, word) in arena.input_r.iter_mut().enumerate() {
        *word = first + 100_000 + i as u32;
    }
}

/// Runs a block without analysing: every frame that is due is let pass.
fn run_without_analysis(state: &mut SpectralState, arena: &mut Arena, freeze: f32) -> Vec<FreezeStep> {
    let mut steps = Vec::new();
    let mut action = process(state, arena, w(freeze), w(0.0));
    loop {
        match action {
            Action::Done => return steps,
            Action::Analyze { freeze, .. } => {
                steps.push(freeze);
                action = resume(state, arena);
            }
        }
    }
}

#[test]
fn spectral_sizes_fit_together() {
    assert_eq!(FFT_SIZE, 2048);
    assert_eq!(HOP_SIZE, FFT_SIZE / 4);
    assert_eq!(NUM_BINS, FFT_SIZE / 2 + 1);
    assert_eq!(OUTPUT_SIZE, 2 * FFT_SIZE);
    assert_eq!(INPUT_TAIL, FFT_SIZE - HOP_SIZE);
    assert_eq!(MAX_SHIFT, w(24.0));
    assert_eq!(MIN_SHIFT, w(-24.0));
    assert_eq!(MAX_FREEZE, w(1.0));
}

#[test]
fn a_new_engine_is_silent() {
    let state = SpectralState::new();
    assert!(state.is_well_formed());
    assert_eq!(state.input_buffer_l.len(), FFT_SIZE);
    assert_eq!(state.output_buffer_r.len(), OUTPUT_SIZE);
    assert_eq!(state.frozen_mag_l.len(), NUM_BINS);
    assert_eq!(state.synth_phase_r.len(), NUM_BINS);
    assert!(!state.is_frozen);
    assert_eq!((state.input_pos, state.cursor), (0, 0));
    assert!(state.output_buffer_l.iter().all(|x| *x == 0));
}

#[test]
fn samples_enter_at_the_end_of_the_window() {
    let mut arena = ready(128);
    let mut state = SpectralState::new();
    fill_input(&mut arena, 1000);
    assert_eq!(process(&mut state, &mut arena, w(0.0), w(0.0)), Action::Done);
    assert_eq!((state.input_pos, state.cursor), (128, 0));
    assert_eq!(state.input_buffer_l[INPUT_TAIL..INPUT_TAIL + 128], arena.input_l[..128]);
    assert_eq!(state.input_buffer_r[INPUT_TAIL..INPUT_TAIL + 128], arena.input_r[..128]);
    assert!(state.input_buffer_l[..INPUT_TAIL].iter().all(|x| *x == 0));
    assert!(state.input_buffer_l[INPUT_TAIL + 128..].iter().all(|x| *x == 0));

    fill_input(&mut arena, 2000);
    assert_eq!(process(&mut state, &mut arena, w(0.0), w(0.0)), Action::Done);
    assert_eq!(state.input_pos, 256);
    assert_eq!(state.input_buffer_l[INPUT_TAIL + 127], 1127);
    assert_eq!(state.input_buffer_l[INPUT_TAIL + 128], 2000);
}

#[test]
fn a_frame_is_due_with_each_hop() {
    let mut arena = ready(128);
    let mut state = SpectralState::new();
    for call in 1..=12usize {
        fill_input(&mut arena, call as u32 * 1000);
        let action = process(&mut state, &mut arena, w(0.0), w(3.0));
        if call % 4 == 0 {
            assert_eq!(
                action,
                Action::Analyze { freeze: FreezeStep::Live, freeze_amount: w(0.0), shift: w(3.0) }
            );
            assert_eq!(state.input_pos, HOP_SIZE);
            // The window ends with the four blocks of this hop.
            assert_eq!(state.input_buffer_l[INPUT_TAIL], (call as u32 - 3) * 1000);
            assert_eq!(state.input_buffer_l[FFT_SIZE - 1], call as u32 * 1000 + 127);
            assert_eq!(resume(&mut state, &mut arena), Action::Done);
            assert_eq!(state.input_pos, 0);
            // The window has moved on by one hop.
            assert_eq!(state.input_buffer_l[INPUT_TAIL - HOP_SIZE], (call as u32 - 3) * 1000);
            assert_eq!(state.input_buffer_l[INPUT_TAIL - 1], call as u32 * 1000 + 127);
            assert!(state.input_buffer_l[INPUT_TAIL..].iter().all(|x| *x == 0));
        } else {
            assert_eq!(action, Action::Done);
            assert_eq!(state.input_pos, (call % 4) * 128);
        }
        assert!(state.is_well_formed());
    }
}

#[test]
fn frames_follow_the_number_of_samples() {
    for block in [32usize, 100, 128, 256, 300, 512] {
        let mut arena = ready(block as u32);
        let mut state = SpectralState::new();
        let mut taken = 0usize;
        let mut frames = 0usize;
        for _ in 0..25 {
            let before = state.input_pos;
            let in_block = run_without_analysis(&mut state, &mut arena, 0.0).len();
            assert_eq!(in_block, (before + block) / HOP_SIZE);
            taken += block;
            frames += in_block;
            assert_eq!(frames, taken / HOP_SIZE);
            assert_eq!(state.input_pos, taken % HOP_SIZE);
            assert_eq!(state.cursor, 0);
        }
    }
}

#[test]
fn a_block_of_a_whole_hop_has_its_frame_at_once() {
    let mut arena = ready(512);
    let mut state = SpectralState::new();
    fill_input(&mut arena, 1);
    let action = process(&mut state, &mut arena, w(0.0), w(0.0));
    assert!(matches!(action, Action::Analyze { .. }));
    assert_eq!(state.input_buffer_l[INPUT_TAIL..], arena.input_l[..512]);
    assert_eq!((state.input_pos, state.cursor), (512, 512));
    assert_eq!(resume(&mut state, &mut arena), Action::Done);
    assert_eq!((state.input_pos, state.cursor), (0, 0));
}

#[test]
fn parameters_are_brought_into_range() {
    let mut arena = ready(512);
    let mut state = SpectralState::new();
    let cases = [
        (2.0f32, 30.0f32, 1.0f32, 24.0f32),
        (-1.0, -30.0, 0.0, -24.0),
        (0.5, 7.0, 0.5, 7.0),
        (1.0, -24.0, 1.0, -24.0),
    ];
    for (freeze_amount, shift, want_freeze, want_shift) in cases {
        match process(&mut state, &mut arena, w(freeze_amount), w(shift)) {
            Action::Analyze { freeze_amount, shift, .. } => {
                assert_eq!(freeze_amount, w(want_freeze));
                assert_eq!(shift, w(want_shift));
            }
            Action::Done => panic!("a frame is due"),
        }
        resume(&mut state, &mut arena);
    }
}

#[test]
fn the_snapshot_is_captured_once_per_engagement() {
    let mut arena = ready(512);
    let mut state = SpectralState::new();
    let amounts = [0.0f32, 0.3, 0.3, 1.0, 0.0, 0.0, 0.7, 0.1, -0.0, f32::NAN, 1.0];
    let want = [
        FreezeStep::Live,
        FreezeStep::Capture,
        FreezeStep::Hold,
        FreezeStep::Hold,
        FreezeStep::Live,
        FreezeStep::Live,
        FreezeStep::Capture,
        FreezeStep::Hold,
        FreezeStep::Live,
        FreezeStep::Live,
        FreezeStep::Capture,
    ];
    for (amount, step) in amounts.iter().zip(want.iter()) {
        assert_eq!(run_without_analysis(&mut state, &mut arena, *amount), vec![*step]);
        assert_eq!(state.is_frozen, *step != FreezeStep::Live);
    }
}

#[test]
fn the_freeze_is_decided_per_frame_not_per_block() {
    let mut arena = ready(128);
    let mut state = SpectralState::new();
    // Blocks that complete no hop decide nothing.
    for _ in 0..3 {
        assert!(run_without_analysis(&mut state, &mut arena, 1.0).is_empty());
        assert!(!state.is_frozen);
    }
    assert_eq!(run_without_analysis(&mut state, &mut arena, 1.0), vec![FreezeStep::Capture]);
    assert!(state.is_frozen);
    for _ in 0..3 {
        assert!(run_without_analysis(&mut state, &mut arena, 0.0).is_empty());
        assert!(state.is_frozen);
    }
    assert_eq!(run_without_analysis(&mut state, &mut arena, 0.0), vec![FreezeStep::Live]);
    assert!(!state.is_frozen);
}

#[test]
fn the_block_is_emitted_from_the_head_of_the_rings() {
    let mut arena = ready(128);
    let mut state = SpectralState::new();
    for (i, word) in state.output_buffer_l.iter_mut().enumerate() {
        *word = i as u32 + 1;
    }
    for (i, word) in state.output_buffer_r.iter_mut().enumerate() {
        *word = i as u32 + 10_001;
    }
    arena.output_l[128] = 77;
    assert_eq!(process(&mut state, &mut arena, w(0.0), w(0.0)), Action::Done);
    for i in 0..128 {
        assert_eq!(arena.output_l[i], i as u32 + 1);
        assert_eq!(arena.output_r[i], i as u32 + 10_001);
    }
    assert_eq!(arena.output_l[128], 77);
    assert_eq!(state.output_buffer_l[0], 129);
    assert_eq!(state.output_buffer_l[OUTPUT_SIZE - 129], OUTPUT_SIZE as u32);
    assert!(state.output_buffer_l[OUTPUT_SIZE - 128..].iter().all(|x| *x == 0));
    assert_eq!(state.output_buffer_r[0], 10_129);
}

#[test]
fn nothing_is_emitted_while_a_frame_is_due() {
    let mut arena = ready(512);
    let mut state = SpectralState::new();
    state.output_buffer_l[0] = 5;
    assert!(matches!(process(&mut state, &mut arena, w(0.0), w(0.0)), Action::Analyze { .. }));
    assert_eq!(arena.output_l[0], 0);
    assert_eq!(state.output_buffer_l[0], 5);
    // The frame's result is added before the block is emitted.
    state.output_buffer_l[1] = 6;
    assert_eq!(resume(&mut state, &mut arena), Action::Done);
    assert_eq!((arena.output_l[0], arena.output_l[1]), (5, 6));
}

#[test]
fn resume_without_a_frame_due_changes_nothing() {
    let mut arena = ready(128);
    let mut state = SpectralState::new();
    fill_input(&mut arena, 1);
    assert_eq!(process(&mut state, &mut arena, w(0.0), w(0.0)), Action::Done);
    state.output_buffer_l[0] = 5;
    let window = state.input_buffer_l.clone();
    assert_eq!(resume(&mut state, &mut arena), Action::Done);
    assert_eq!(state.input_pos, 128);
    assert_eq!(state.input_buffer_l, window);
    assert_eq!(state.output_buffer_l[0], 5);
    assert_eq!(arena.output_l[0], 0);
}

#[test]
fn before_init_nothing_happens() {
    let mut arena = Arena::new();
    let mut state = SpectralState::new();
    arena.input_l[0] = 5;
    assert_eq!(process(&mut state, &mut arena, w(1.0), w(12.0)), Action::Done);
    assert_eq!((state.input_pos, state.cursor), (0, 0));
    assert_eq!(state.freeze_amount, 0);
    assert!(state.input_buffer_l.iter().all(|x| *x == 0));
}

#[test]
fn silent_until_the_first_frame() {
    let mut arena = ready(128);
    let mut state = SpectralState::new();
    for call in 0..3 {
        fill_input(&mut arena, 1000 * (call + 1));
        for word in arena.output_l.iter_mut() {
            *word = 9;
        }
        assert_eq!(process(&mut state, &mut arena, w(1.0), w(5.0)), Action::Done);
        assert!(arena.output_l[..128].iter().all(|x| *x == 0));
        assert!(arena.output_r[..128].iter().all(|x| *x == 0));
    }
}

#[test]
fn a_snapshot_is_stored_per_channel() {
    let mut state = SpectralState::new();
    let mag: Vec<u32> = (0..NUM_BINS as u32).map(|i| i + 1).collect();
    let phase: Vec<u32> = (0..NUM_BINS as u32).map(|i| i + 5000).collect();
    assert!(capture(&mut state, 1, &mag, &phase));
    assert_eq!(state.frozen_mag_r, mag);
    assert_eq!(state.frozen_phase_r, phase);
    assert!(state.frozen_mag_l.iter().all(|x| *x == 0));
    assert!(capture(&mut state, 0, &phase, &mag));
    assert_eq!(state.frozen_mag_l, phase);
    assert_eq!(state.frozen_phase_l, mag);
    assert_eq!(state.frozen_mag_r, mag);

    assert!(!capture(&mut state, 2, &mag, &phase));
    assert!(!capture(&mut state, 0, &mag[1..], &phase));
    assert!(!capture(&mut state, 0, &mag, &phase[1..]));
    assert_eq!(state.frozen_mag_l, phase);
    assert!(state.is_well_formed());
}

#[test]
fn reset_leaves_a_new_engine() {
    let mut arena = ready(512);
    let mut state = SpectralState::new();
    fill_input(&mut arena, 1);
    run_without_analysis(&mut state, &mut arena, 1.0);
    fill_input(&mut arena, 7);
    process(&mut state, &mut arena, w(1.0), w(3.0));
    let mag: Vec<u32> = vec![3; NUM_BINS];
    capture(&mut state, 0, &mag, &mag);
    capture(&mut state, 1, &mag, &mag);
    state.prev_phase_l[4] = 1;
    state.synth_phase_r[1024] = 1;
    state.output_buffer_r[4095] = 1;
    reset(&mut state);
    let fresh = SpectralState::new();
    assert_eq!(state.input_buffer_l, fresh.input_buffer_l);
    assert_eq!(state.input_buffer_r, fresh.input_buffer_r);
    assert_eq!(state.output_buffer_l, fresh.output_buffer_l);
    assert_eq!(state.output_buffer_r, fresh.output_buffer_r);
    assert_eq!(state.frozen_mag_l, fresh.frozen_mag_l);
    assert_eq!(state.frozen_mag_r, fresh.frozen_mag_r);
    assert_eq!(state.frozen_phase_l, fresh.frozen_phase_l);
    assert_eq!(state.frozen_phase_r, fresh.frozen_phase_r);
    assert_eq!(state.prev_phase_l, fresh.prev_phase_l);
    assert_eq!(state.prev_phase_r, fresh.prev_phase_r);
    assert_eq!(state.synth_phase_l, fresh.synth_phase_l);
    assert_eq!(state.synth_phase_r, fresh.synth_phase_r);
    assert_eq!(
        (state.input_pos, state.cursor, state.is_frozen, state.freeze_amount, state.shift),
        (0, 0, false, 0, 0)
    );
}

// The tests below run whole blocks with analysis and resynthesis computed
// on the sample values.

struct Frames {
    planner: FftPlanner<f32>,
    window: Vec<f32>,
}

fn values(words: &[u32]) -> Vec<f32> {
    words.iter().map(|x| f32::from_bits(*x)).collect()
}

fn store(words: &mut [u32], values: &[f32]) {
    for (word, value) in words.iter_mut().zip(values.iter()) {
        *word = value.to_bits();
    }
}

impl Frames {
    fn new() -> Frames {
        let window = (0..FFT_SIZE)
            .map(|i| 0.5 - 0.5 * (2.0 * PI * i as f32 / FFT_SIZE as f32).cos())
            .collect();
        Frames { planner: FftPlanner::new(), window }
    }

    fn frame(
        &mut self,
        state: &mut SpectralState,
        channel: u32,
        freeze: FreezeStep,
        amount: f32,
        ratio: f32,
    ) {
        let fft = self.planner.plan_fft_forward(FFT_SIZE);
        let ifft = self.planner.plan_fft_inverse(FFT_SIZE);
        let input =
            values(if channel == 0 { &state.input_buffer_l } else { &state.input_buffer_r });
        let mut spectrum: Vec<Complex<f32>> =
            (0..FFT_SIZE).map(|i| Complex::new(input[i] * self.window[i], 0.0)).collect();
        fft.process(&mut spectrum);
        let mut mag: Vec<f32> = spectrum[..NUM_BINS].iter().map(|c| c.norm()).collect();
        let mut phase: Vec<f32> = spectrum[..NUM_BINS].iter().map(|c| c.im.atan2(c.re)).collect();

        if freeze == FreezeStep::Capture {
            let mag_words: Vec<u32> = mag.iter().map(|x| x.to_bits()).collect();
            let phase_words: Vec<u32> = phase.iter().map(|x| x.to_bits()).collect();
            assert!(capture(state, channel, &mag_words, &phase_words));
        }
        if freeze != FreezeStep::Live {
            let (frozen_mag, frozen_phase) = if channel == 0 {
                (values(&state.frozen_mag_l), values(&state.frozen_phase_l))
            } else {
                (values(&state.frozen_mag_r), values(&state.frozen_phase_r))
            };
            for i in 0..NUM_BINS {
                mag[i] = mag[i] * (1.0 - amount) + frozen_mag[i] * amount;
                phase[i] = phase[i] * (1.0 - amount * 0.9) + frozen_phase[i] * amount * 0.9;
            }
        }
        assert!((ratio - 1.0).abs() <= 0.001, "these tests do not shift");

        let hop_phase = 2.0 * PI * HOP_SIZE as f32 / FFT_SIZE as f32;
        let (mut prev, mut synth) = if channel == 0 {
            (values(&state.prev_phase_l), values(&state.synth_phase_l))
        } else {
            (values(&state.prev_phase_r), values(&state.synth_phase_r))
        };
        for i in 0..NUM_BINS {
            let expected = prev[i] + i as f32 * hop_phase;
            let diff = phase[i] - expected;
            let wrapped = diff - (diff / (2.0 * PI)).round() * 2.0 * PI;
            let true_freq = i as f32 + wrapped / hop_phase;
            synth[i] += true_freq * hop_phase * ratio;
            prev[i] = phase[i];
        }
        for i in 0..NUM_BINS {
            spectrum[i] = Complex::new(mag[i] * synth[i].cos(), mag[i] * synth[i].sin());
            if i > 0 && i < NUM_BINS - 1 {
                spectrum[FFT_SIZE - i] = spectrum[i].conj();
            }
        }
        if channel == 0 {
            store(&mut state.prev_phase_l, &prev);
            store(&mut state.synth_phase_l, &synth);
        } else {
            store(&mut state.prev_phase_r, &prev);
            store(&mut state.synth_phase_r, &synth);
        }
        ifft.process(&mut spectrum);
        let ring = if channel == 0 { &mut state.output_buffer_l } else { &mut state.output_buffer_r };
        for i in 0..FFT_SIZE {
            let sum = f32::from_bits(ring[i]) + spectrum[i].re * self.window[i] / FFT_SIZE as f32;
            ring[i] = sum.to_bits();
        }
    }

    /// Runs one block and returns the left and right output.
    fn run(
        &mut self,
        state: &mut SpectralState,
        arena: &mut Arena,
        left: &[f32],
        right: &[f32],
        freeze_amount: f32,
    ) -> (Vec<f32>, Vec<f32>) {
        let n = left.len();
        store(&mut arena.input_l[..n], left);
        store(&mut arena.input_r[..n], right);
        let mut action = process(state, arena, w(freeze_amount), w(0.0));
        loop {
            match action {
                Action::Done => break,
                Action::Analyze { freeze, freeze_amount, shift } => {
                    let amount = f32::from_bits(freeze_amount);
                    let ratio = 2.0f32.powf(f32::from_bits(shift) / 12.0);
                    self.frame(state, 0, freeze, amount, ratio);
                    self.frame(state, 1, freeze, amount, ratio);
                    action = resume(state, arena);
                }
            }
        }
        (values(&arena.output_l[..n]), values(&arena.output_r[..n]))
    }
}

fn rms(samples: &[f32]) -> f32 {
    (samples.iter().map(|x| x * x).sum::<f32>() / samples.len() as f32).sqrt()
}

/// A sinusoid that falls on bin 64 of the window, so that its phase
/// advances by a whole number of turns per hop.
fn tone(block: usize, index: usize) -> Vec<f32> {
    (0..block)
        .map(|i| (2.0 * PI * 64.0 * (index * block + i) as f32 / FFT_SIZE as f32).sin() * 0.5)
        .collect()
}

#[test]
fn spectral_silence_in_gives_silence_out() {
    let mut arena = ready(128);
    let mut state = SpectralState::new();
    let mut frames = Frames::new();
    let silence = vec![0.0f32; 128];
    for _ in 0..40 {
        let (out_l, out_r) = frames.run(&mut state, &mut arena, &silence, &silence, 0.0);
        assert!(out_l.iter().all(|x| *x == 0.0));
        assert!(out_r.iter().all(|x| *x == 0.0));
    }
}

#[test]
fn a_steady_tone_comes_through_at_a_steady_level() {
    let block = 128usize;
    let mut arena = ready(block as u32);
    let mut state = SpectralState::new();
    let mut frames = Frames::new();
    let mut levels = Vec::new();
    for index in 0..96 {
        let input = tone(block, index);
        let (out_l, out_r) = frames.run(&mut state, &mut arena, &input, &input, 0.0);
        assert_eq!(out_l, out_r);
        if index >= 48 && index % 16 == 15 {
            levels.push(rms(&out_l));
        }
    }
    // Two windows at a quarter hop sum to a gain of one and a half.
    let want = 1.5 * 0.5 / 2.0f32.sqrt();
    for level in levels {
        assert!((level - want).abs() < 0.05 * want, "level {level}, expected {want}");
    }
}

#[test]
fn a_tone_is_reproduced_after_the_delay_of_the_window() {
    // With neither freeze nor shift, analysis and resynthesis give the
    // input back, later by the window less one block and larger by the
    // gain of the overlapping windows.
    for (block, bin) in [(128usize, 64.0f32), (128, 100.0), (64, 37.0), (256, 64.0)] {
        let delay = FFT_SIZE - block;
        let wave = |n: usize| (2.0 * PI * bin * n as f32 / FFT_SIZE as f32).sin() * 0.5;
        let mut arena = ready(block as u32);
        let mut state = SpectralState::new();
        let mut frames = Frames::new();
        let blocks = 6 * FFT_SIZE / block;
        for index in 0..blocks {
            let input: Vec<f32> = (0..block).map(|i| wave(index * block + i)).collect();
            let (out_l, _) = frames.run(&mut state, &mut arena, &input, &input, 0.0);
            if index * block >= 3 * FFT_SIZE {
                for i in 0..block {
                    let want = 1.5 * wave(index * block + i - delay);
                    assert!(
                        (out_l[i] - want).abs() < 0.02,
                        "block size {block}, bin {bin}, sample {}: {} for {want}",
                        index * block + i,
                        out_l[i]
                    );
                }
            }
        }
    }
}

#[test]
fn a_frozen_tone_is_sustained_over_silence() {
    let block = 128usize;
    let mut arena = ready(block as u32);
    let mut state = SpectralState::new();
    let mut frames = Frames::new();
    for index in 0..64 {
        let input = tone(block, index);
        frames.run(&mut state, &mut arena, &input, &input, 0.0);
    }
    // One more hop of the tone with the freeze engaged captures it.
    for index in 64..68 {
        let input = tone(block, index);
        frames.run(&mut state, &mut arena, &input, &input, 1.0);
    }
    assert!(state.is_frozen);
    let silence = vec![0.0f32; block];
    let mut sustained = Vec::new();
    for index in 0..200 {
        let (out_l, _) = frames.run(&mut state, &mut arena, &silence, &silence, 1.0);
        if index >= 100 {
            sustained.push(rms(&out_l));
        }
    }
    assert!(sustained.iter().all(|level| *level > 0.1), "the tone decayed: {sustained:?}");

    // Without freeze the same silence decays to nothing.
    for _ in 0..40 {
        frames.run(&mut state, &mut arena, &silence, &silence, 0.0);
    }
    let (out_l, _) = frames.run(&mut state, &mut arena, &silence, &silence, 0.0);
    assert!(rms(&out_l) < 1.0e-4);
    assert!(!state.is_frozen);
}

#[test]
fn spectral_after_reset_silence_in_gives_silence_out() {
    let block = 128usize;
    let mut arena = ready(block as u32);
    let mut state = SpectralState::new();
    let mut frames = Frames::new();
    for index in 0..40 {
        let input = tone(block, index);
        frames.run(&mut state, &mut arena, &input, &input, 0.5);
    }
    reset(&mut state);
    let silence = vec![0.0f32; block];
    for _ in 0..24 {
        let (out_l, out_r) = frames.run(&mut state, &mut arena, &silence, &silence, 0.0);
        assert!(out_l.iter().all(|x| *x == 0.0));
        assert!(out_r.iter().all(|x| *x == 0.0));
    }
}
