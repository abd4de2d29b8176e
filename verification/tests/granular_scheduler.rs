use dsp_core::granular::{
    active_grains, advance_grain, begin_spawn, find_free_grain, load_source, next_random, process,
    read_window, reset, start_grain, BlockPlan, Grain, GranularState, Spawn, MAX_DENSITY,
    MAX_GRAINS, MAX_GRAIN_SIZE, MIN_GRAIN_SIZE, RNG_SEED,
};
use dsp_core::memory::{
    granular_source_slice, init_engine, is_granular_ready, Arena, MAX_GRANULAR_SOURCE_SAMPLES,
};

fn w(value: f32) -> u32 {
    value.to_bits()
}

fn ready(block: u32) -> Arena {
    let mut arena = Arena::new();
    assert_eq!(init_engine(&mut arena, w(44100.0), block), Ok(()));
    arena
}

fn start(state: &mut GranularState, slot: usize) {
    start_grain(state, slot, w(0.25), w(1.0), w(0.9), 256, w(0.0));
}

#[test]
fn a_new_engine_is_idle() {
    let state = GranularState::new();
    assert!(state.is_well_formed());
    assert_eq!(state.grains.len(), MAX_GRAINS);
    assert_eq!(MAX_GRAINS, 100);
    assert_eq!(state.rng_state, RNG_SEED);
    assert_eq!(state.source_len, 0);
    assert_eq!(state.source_channels, 1);
    assert_eq!(state.spawn_accumulator, w(0.0));
    assert_eq!(active_grains(&state), 0);
    let idle = Grain {
        active: false,
        source_pos: w(0.0),
        phase: w(0.0),
        rate: w(1.0),
        amp: w(1.0),
        size_samples: 256,
        pan: w(0.0),
    };
    assert!(state.grains.iter().all(|g| *g == idle));
    assert_eq!(Grain::default(), idle);
}

#[test]
fn the_generator_is_reproducible() {
    let mut state = GranularState::new();
    assert_eq!(next_random(&mut state), 87_628_868);
    assert_eq!(next_random(&mut state), 71_072_467);
    assert_eq!(next_random(&mut state), 2_332_836_374);
    assert_eq!(next_random(&mut state), 2_726_892_157);
    assert_eq!(state.rng_state, 2_726_892_157);

    let mut other = GranularState::new();
    other.rng_state = u32::MAX;
    let want = u32::MAX.wrapping_mul(1_664_525).wrapping_add(1_013_904_223);
    assert_eq!(next_random(&mut other), want);
}

#[test]
fn a_draw_changes_the_generator_only() {
    let mut state = GranularState::new();
    start(&mut state, 3);
    let grains = state.grains.clone();
    next_random(&mut state);
    assert_eq!(state.grains, grains);
    assert_eq!(state.source_len, 0);
}

#[test]
fn grains_take_the_first_free_slot() {
    let mut state = GranularState::new();
    assert_eq!(find_free_grain(&state), Some(0));
    start(&mut state, 0);
    assert_eq!(find_free_grain(&state), Some(1));
    start(&mut state, 1);
    start(&mut state, 2);
    assert_eq!(find_free_grain(&state), Some(3));
    // Releasing an earlier slot makes it the next one taken.
    advance_grain(&mut state, 1, w(0.5), w(1.0));
    assert_eq!(find_free_grain(&state), Some(1));
    assert_eq!(active_grains(&state), 2);
}

#[test]
fn a_started_grain_holds_its_voice() {
    let mut state = GranularState::new();
    start_grain(&mut state, 7, w(0.3), w(2.0), w(0.85), 512, w(-0.7));
    let grain = state.grains[7];
    assert!(grain.active);
    assert_eq!(grain.source_pos, w(0.3));
    assert_eq!(grain.phase, w(0.0));
    assert_eq!(grain.rate, w(2.0));
    assert_eq!(grain.amp, w(0.85));
    assert_eq!(grain.size_samples, 512);
    assert_eq!(grain.pan, w(-0.7));
    assert_eq!(active_grains(&state), 1);
}

#[test]
fn the_pool_is_never_exceeded() {
    let mut state = GranularState::new();
    let mut started = 0;
    for _ in 0..1000 {
        match find_free_grain(&state) {
            Some(slot) => {
                start(&mut state, slot);
                started += 1;
            }
            None => {}
        }
        assert!(active_grains(&state) <= MAX_GRAINS);
    }
    assert_eq!(started, MAX_GRAINS);
    assert_eq!(active_grains(&state), MAX_GRAINS);
    assert_eq!(find_free_grain(&state), None);
}

#[test]
fn a_grain_ends_when_phase_or_position_reaches_one() {
    let mut state = GranularState::new();
    for slot in 0..6 {
        start(&mut state, slot);
    }
    advance_grain(&mut state, 0, w(0.5), w(0.999));
    assert!(state.grains[0].active);
    assert_eq!(state.grains[0].source_pos, w(0.5));
    assert_eq!(state.grains[0].phase, w(0.999));
    advance_grain(&mut state, 1, w(0.5), w(1.0));
    assert!(!state.grains[1].active);
    advance_grain(&mut state, 2, w(1.0), w(0.1));
    assert!(!state.grains[2].active);
    advance_grain(&mut state, 3, w(7.0), w(f32::INFINITY));
    assert!(!state.grains[3].active);
    // A NaN has not reached one.
    advance_grain(&mut state, 4, w(f32::NAN), w(f32::NAN));
    assert!(state.grains[4].active);
    advance_grain(&mut state, 5, w(-3.0), w(-0.0));
    assert!(state.grains[5].active);
    // The voice is kept.
    assert_eq!(state.grains[1].rate, w(1.0));
    assert_eq!(state.grains[1].amp, w(0.9));
}

#[test]
fn advancing_does_not_revive_a_grain() {
    let mut state = GranularState::new();
    advance_grain(&mut state, 9, w(0.1), w(0.1));
    assert!(!state.grains[9].active);
    assert_eq!(state.grains[9].phase, w(0.1));
}

#[test]
fn loading_records_the_source_and_releases_the_grains() {
    let mut arena = ready(128);
    let mut state = GranularState::new();
    start(&mut state, 0);
    start(&mut state, 50);
    state.spawn_accumulator = w(17.0);
    let rng = next_random(&mut state);
    assert!(load_source(&mut state, &mut arena, 1000, 2));
    assert_eq!(state.source_len, 2000);
    assert_eq!(state.source_channels, 2);
    assert_eq!(state.spawn_accumulator, w(0.0));
    assert_eq!(state.rng_state, rng);
    assert_eq!(active_grains(&state), 0);
    // The voice of a released grain is kept.
    assert_eq!(state.grains[50].amp, w(0.9));
    assert!(is_granular_ready(&arena));
    assert_eq!(granular_source_slice(&arena).len(), 1000);
    assert!(state.is_well_formed());
}

#[test]
fn the_channel_count_is_limited_to_one_or_two() {
    let mut arena = ready(128);
    let mut state = GranularState::new();
    load_source(&mut state, &mut arena, 10, 0);
    assert_eq!((state.source_len, state.source_channels), (0, 1));
    load_source(&mut state, &mut arena, 10, 1);
    assert_eq!((state.source_len, state.source_channels), (10, 1));
    load_source(&mut state, &mut arena, 10, 3);
    assert_eq!((state.source_len, state.source_channels), (30, 2));
}

#[test]
fn a_source_beyond_the_capacity_is_cut() {
    let mut arena = ready(128);
    let mut state = GranularState::new();
    load_source(&mut state, &mut arena, 441_000, 2);
    assert_eq!(state.source_len, MAX_GRANULAR_SOURCE_SAMPLES);
    load_source(&mut state, &mut arena, 441_001, 2);
    assert_eq!(state.source_len, MAX_GRANULAR_SOURCE_SAMPLES);
    load_source(&mut state, &mut arena, u32::MAX, u32::MAX);
    assert_eq!(state.source_len, MAX_GRANULAR_SOURCE_SAMPLES);
    assert_eq!(state.source_channels, 2);
    assert!(state.is_well_formed());
    assert!(arena.is_well_formed());
}

#[test]
fn reset_releases_the_grains_and_keeps_the_source() {
    let mut arena = ready(128);
    let mut state = GranularState::new();
    load_source(&mut state, &mut arena, 500, 1);
    for slot in 0..10 {
        start(&mut state, slot);
    }
    state.spawn_accumulator = w(3.0);
    let rng = next_random(&mut state);
    reset(&mut state);
    assert_eq!(active_grains(&state), 0);
    assert_eq!(state.spawn_accumulator, w(0.0));
    assert_eq!(state.source_len, 500);
    assert_eq!(state.source_channels, 1);
    assert_eq!(state.rng_state, rng);
}

#[test]
fn granular_reset_leaves_what_loading_again_leaves() {
    let mut arena = ready(128);
    let mut state = GranularState::new();
    load_source(&mut state, &mut arena, 500, 2);
    for slot in [0usize, 5, 99] {
        start(&mut state, slot);
    }
    state.spawn_accumulator = w(3.0);
    let mut loaded_again = GranularState {
        grains: state.grains.clone(),
        rng_state: state.rng_state,
        source_len: state.source_len,
        source_channels: state.source_channels,
        spawn_accumulator: state.spawn_accumulator,
    };
    reset(&mut state);
    load_source(&mut loaded_again, &mut arena, 500, 2);
    assert_eq!(state.grains, loaded_again.grains);
    assert_eq!(state.rng_state, loaded_again.rng_state);
    assert_eq!(state.source_len, loaded_again.source_len);
    assert_eq!(state.source_channels, loaded_again.source_channels);
    assert_eq!(state.spawn_accumulator, loaded_again.spawn_accumulator);
    let once = state.grains.clone();
    reset(&mut state);
    assert_eq!(state.grains, once);
}

#[test]
fn without_a_source_the_output_is_silent() {
    let mut arena = ready(128);
    let state = GranularState::new();
    let params = [
        (256u32, 10.0f32, 0.5f32, 0.5f32, 0.1f32),
        (0, 0.0, 0.0, 0.0, 0.0),
        (u32::MAX, 1.0e9, -5.0, 7.0, f32::NAN),
        (64, f32::INFINITY, f32::NAN, f32::NEG_INFINITY, 1.0),
    ];
    for (size, density, spread, position, spray) in params {
        for word in arena.output_l.iter_mut() {
            *word = w(0.5);
        }
        for word in arena.output_r.iter_mut() {
            *word = w(-0.5);
        }
        let plan = process(&state, &mut arena, size, w(density), w(spread), w(position), w(spray));
        assert_eq!(plan, None);
        assert!(arena.output_l[..128].iter().all(|x| *x == 0));
        assert!(arena.output_r[..128].iter().all(|x| *x == 0));
    }
}

#[test]
fn granular_is_silent_right_after_init() {
    for block in [32u32, 128, 512] {
        let mut arena = ready(block);
        let state = GranularState::new();
        assert_eq!(process(&state, &mut arena, 256, w(10.0), w(0.0), w(0.5), w(0.0)), None);
        assert!(arena.output_l.iter().all(|x| *x == 0));
        assert!(arena.output_r.iter().all(|x| *x == 0));
    }
}

#[test]
fn before_init_there_is_no_plan() {
    let mut arena = Arena::new();
    let mut state = GranularState::new();
    state.source_len = 100;
    assert_eq!(process(&state, &mut arena, 256, w(10.0), w(0.0), w(0.5), w(0.0)), None);
}

#[test]
fn before_init_no_source_is_loaded() {
    let mut arena = Arena::new();
    let mut state = GranularState::new();
    start(&mut state, 4);
    assert!(!load_source(&mut state, &mut arena, 1000, 2));
    assert_eq!((state.source_len, state.source_channels), (0, 1));
    assert!(state.grains[4].active);
    assert!(!is_granular_ready(&arena));
}

#[test]
fn the_plan_brings_parameters_into_range() {
    let mut arena = ready(256);
    let mut state = GranularState::new();
    load_source(&mut state, &mut arena, 1001, 2);
    for word in arena.output_l.iter_mut() {
        *word = w(0.5);
    }
    let plan = process(&state, &mut arena, 10, w(1000.0), w(-1.0), w(2.0), w(0.25));
    assert_eq!(
        plan,
        Some(BlockPlan {
            grain_size: MIN_GRAIN_SIZE,
            density: MAX_DENSITY,
            pitch_spread: w(0.0),
            position: w(1.0),
            spray: w(0.25),
            source_frames: 1001,
            buffer_size: 256,
            sample_rate: w(44100.0),
        })
    );
    assert_eq!(MAX_DENSITY, w(100.0));
    // The outputs are silenced before grains are mixed in.
    assert!(arena.output_l[..256].iter().all(|x| *x == 0));

    let plan = process(&state, &mut arena, 100_000, w(0.0), w(0.5), w(0.5), w(9.0)).unwrap();
    assert_eq!(plan.grain_size, MAX_GRAIN_SIZE);
    assert_eq!((MIN_GRAIN_SIZE, MAX_GRAIN_SIZE), (64, 4096));
    assert_eq!(plan.density, w(1.0));
    assert_eq!(plan.pitch_spread, w(0.5));
    assert_eq!(plan.spray, w(1.0));

    let plan = process(&state, &mut arena, 300, w(50.0), w(0.5), w(0.5), w(0.5)).unwrap();
    assert_eq!(plan.grain_size, 300);
    assert_eq!(plan.density, w(50.0));
}

#[test]
fn source_frames_count_whole_frames() {
    let mut arena = ready(128);
    let mut state = GranularState::new();
    load_source(&mut state, &mut arena, 7, 3);
    // 21 words read as two channels make ten whole frames.
    let plan = process(&state, &mut arena, 256, w(10.0), w(0.0), w(0.5), w(0.0)).unwrap();
    assert_eq!(plan.source_frames, 10);
}

#[test]
fn reads_stay_inside_the_source() {
    let mut arena = ready(128);
    let mut state = GranularState::new();
    load_source(&mut state, &mut arena, 10, 1);
    assert_eq!(read_window(&state, 0), Some(0));
    assert_eq!(read_window(&state, 8), Some(8));
    assert_eq!(read_window(&state, 9), None);
    assert_eq!(read_window(&state, 10), None);
    assert_eq!(read_window(&state, usize::MAX), None);

    load_source(&mut state, &mut arena, 10, 2);
    assert_eq!(read_window(&state, 0), Some(0));
    assert_eq!(read_window(&state, 8), Some(16));
    assert_eq!(read_window(&state, 9), None);

    load_source(&mut state, &mut arena, 1, 2);
    assert_eq!(read_window(&state, 0), None);
    load_source(&mut state, &mut arena, 0, 2);
    assert_eq!(read_window(&state, 0), None);
}

#[test]
fn a_spawn_takes_the_first_free_slot_and_four_draws() {
    let mut state = GranularState::new();
    start(&mut state, 0);
    start(&mut state, 1);
    let spawn = begin_spawn(&mut state);
    assert_eq!(
        spawn,
        Some(Spawn {
            slot: 2,
            position_draw: 87_628_868,
            pitch_draw: 71_072_467,
            pan_draw: 2_332_836_374,
            amplitude_draw: 2_726_892_157,
        })
    );
    assert_eq!(state.rng_state, 2_726_892_157);
    // The slot is free until the grain is started.
    assert!(!state.grains[2].active);
    assert_eq!(begin_spawn(&mut state).unwrap().slot, 2);
}

#[test]
fn a_full_pool_drops_the_grain_and_draws_nothing() {
    let mut state = GranularState::new();
    for slot in 0..MAX_GRAINS {
        start(&mut state, slot);
    }
    let grains = state.grains.clone();
    assert_eq!(begin_spawn(&mut state), None);
    assert_eq!(state.rng_state, RNG_SEED);
    assert_eq!(state.grains, grains);
    advance_grain(&mut state, 57, w(1.0), w(0.0));
    assert_eq!(begin_spawn(&mut state).unwrap().slot, 57);
}

#[test]
fn slots_outside_the_pool_are_ignored() {
    let mut state = GranularState::new();
    start_grain(&mut state, MAX_GRAINS, w(0.5), w(1.0), w(1.0), 256, w(0.0));
    start_grain(&mut state, usize::MAX, w(0.5), w(1.0), w(1.0), 256, w(0.0));
    advance_grain(&mut state, MAX_GRAINS, w(0.5), w(0.5));
    assert_eq!(active_grains(&state), 0);
    assert_eq!(state.grains.len(), MAX_GRAINS);
}
