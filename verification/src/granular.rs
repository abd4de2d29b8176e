//! The grain scheduler: a pool of grain slots of fixed size, the generator of
//! the random draws that vary each grain, and the bookkeeping of the loaded
//! source.
//!
//! A grain's position, phase, rate, amplitude and pan are sample words that
//! the caller computes. The scheduler decides which slot a new grain takes,
//! when a grain has finished, where in the source a grain may read, and what
//! a block starts from.
use vstd::prelude::*;
use vstd::arithmetic::div_mod::{lemma_add_mod_noop_right, lemma_mod_sub_multiples_vanish, lemma_small_mod};
use crate::sample::{le, clamped, word_le, word_clamp, lemma_order_of_plain_words, ONE, ZERO};
use crate::memory::{Arena, ArenaView, silence, set_granular_source_len, clear_outputs};
use crate::memory::{init_outcome, lemma_init_silences_blocks};
use crate::memory::MAX_GRANULAR_SOURCE_SAMPLES;

verus! {

/// Number of grain slots in the pool.
pub const MAX_GRAINS: usize = 100;

/// Shortest grain, in samples.
pub const MIN_GRAIN_SIZE: u32 = 64;

/// Longest grain, in samples.
pub const MAX_GRAIN_SIZE: u32 = 4096;

/// State of the random generator in a new engine.
pub const RNG_SEED: u32 = 12345;

/// Multiplier of the linear congruential generator.
pub const LCG_MULTIPLIER: u32 = 1664525;

/// Increment of the linear congruential generator.
pub const LCG_INCREMENT: u32 = 1013904223;

/// The sample word of 100, the highest density in grains per second.
pub const MAX_DENSITY: u32 = 0x42c8_0000;

/// One slot of the pool.
#[derive(Clone, Copy, Debug, PartialEq, Eq, Structural)]
pub struct Grain {
    /// Whether the slot holds a sounding grain.
    pub active: bool,
    /// Position in the source, a sample word in `[0, 1]`.
    pub source_pos: u32,
    /// Envelope phase, a sample word in `[0, 1)`.
    pub phase: u32,
    /// Playback rate, a sample word.
    pub rate: u32,
    /// Amplitude, a sample word.
    pub amp: u32,
    /// Duration in samples.
    pub size_samples: u32,
    /// Pan position, a sample word in `[-1, 1]`.
    pub pan: u32,
}

impl Grain {
    /// The slot as it is in a new pool: inactive, at the start of the source,
    /// at rate 1 and amplitude 1, 256 samples long, centred.
    pub open spec fn idle() -> Grain {
        Grain {
            active: false,
            source_pos: ZERO,
            phase: ZERO,
            rate: ONE,
            amp: ONE,
            size_samples: 256,
            pan: ZERO,
        }
    }

    /// The grain with its slot released; its other fields stay.
    pub open spec fn released(self) -> Grain {
        Grain { active: false, ..self }
    }
}

impl Default for Grain {
    fn default() -> (g: Grain)
        ensures
            g == Grain::idle(),
    {
        Grain {
            active: false,
            source_pos: ZERO,
            phase: ZERO,
            rate: ONE,
            amp: ONE,
            size_samples: 256,
            pan: ZERO,
        }
    }
}

/// The number of active grains among `grains`.
pub open spec fn count_active(grains: Seq<Grain>) -> nat
    decreases grains.len(),
{
    if grains.len() == 0 {
        0
    } else {
        count_active(grains.drop_last()) + if grains.last().active {
            1nat
        } else {
            0nat
        }
    }
}

/// Every slot of `grains` released.
pub open spec fn all_released(grains: Seq<Grain>) -> Seq<Grain> {
    Seq::new(grains.len(), |i: int| grains[i].released())
}

/// `slot` is the first inactive slot of `grains` in pool order.
pub open spec fn is_first_free(grains: Seq<Grain>, slot: int) -> bool {
    &&& 0 <= slot < grains.len()
    &&& !grains[slot].active
    &&& forall|j: int| 0 <= j < slot ==> grains[j].active
}

/// No slot of `grains` is inactive.
pub open spec fn pool_is_full(grains: Seq<Grain>) -> bool {
    forall|j: int| 0 <= j < grains.len() ==> grains[j].active
}

/// The state that follows `state` in the generator's sequence.
pub open spec fn lcg_next(state: u32) -> u32 {
    ((state as int * LCG_MULTIPLIER as int + LCG_INCREMENT as int) % 0x1_0000_0000) as u32
}

/// The number of source words recorded for a load of `length` frames in
/// `channels` channels: their product, cut to the capacity of the source
/// region.
pub open spec fn loaded_len(length: u32, channels: u32) -> nat {
    if length as int * channels as int <= MAX_GRANULAR_SOURCE_SAMPLES as int {
        (length as int * channels as int) as nat
    } else {
        MAX_GRANULAR_SOURCE_SAMPLES as nat
    }
}

/// The channel count recorded for a load: `channels` limited to 1 or 2.
pub open spec fn loaded_channels(channels: u32) -> u32 {
    if channels < 1 {
        1
    } else if channels > 2 {
        2
    } else {
        channels
    }
}

/// A grain has finished when its phase or its source position has reached 1.
/// A NaN has not reached it.
pub open spec fn grain_finished(source_pos: u32, phase: u32) -> bool {
    le(ONE, phase) || le(ONE, source_pos)
}

/// The granular engine: the grain pool, the generator state, the recorded
/// source and the spawn accumulator.
pub struct GranularState {
    pub grains: Vec<Grain>,
    pub rng_state: u32,
    /// Source words in use, counted over all channels.
    pub source_len: usize,
    /// Channels of the source, 1 or 2.
    pub source_channels: u32,
    /// Samples since the last spawn, a sample word.
    pub spawn_accumulator: u32,
}

/// The granular engine as a value.
pub struct GranularView {
    pub grains: Seq<Grain>,
    pub rng_state: u32,
    pub source_len: nat,
    pub source_channels: u32,
    pub spawn_accumulator: u32,
}

impl GranularView {
    /// The pool has its fixed size, the source has one or two channels and
    /// fits the source region.
    pub open spec fn wf(self) -> bool {
        &&& self.grains.len() == MAX_GRAINS
        &&& 1 <= self.source_channels <= 2
        &&& self.source_len <= MAX_GRANULAR_SOURCE_SAMPLES
    }

    /// The number of whole frames of the source.
    pub open spec fn source_frames(self) -> nat {
        self.source_len / (self.source_channels as nat)
    }

    /// The engine of `GranularState::new`.
    pub open spec fn fresh() -> GranularView {
        GranularView {
            grains: Seq::new(MAX_GRAINS as nat, |i: int| Grain::idle()),
            rng_state: RNG_SEED,
            source_len: 0,
            source_channels: 1,
            spawn_accumulator: ZERO,
        }
    }

    /// The engine after `reset`: every slot released and the spawn
    /// accumulator at zero. Source and generator are untouched.
    pub open spec fn reset(self) -> GranularView {
        GranularView { grains: all_released(self.grains), spawn_accumulator: ZERO, ..self }
    }

    /// The engine after `load_source`: the source recorded, every slot
    /// released and the spawn accumulator at zero. The generator is untouched.
    pub open spec fn loaded(self, length: u32, channels: u32) -> GranularView {
        GranularView {
            grains: all_released(self.grains),
            spawn_accumulator: ZERO,
            source_len: loaded_len(length, channels),
            source_channels: loaded_channels(channels),
            rng_state: self.rng_state,
        }
    }

    /// The engine after `start_grain`: the slot holds an active grain at
    /// phase zero with the given voice. Unchanged for a slot outside the
    /// pool.
    pub open spec fn started(
        self,
        slot: int,
        source_pos: u32,
        rate: u32,
        amp: u32,
        size_samples: u32,
        pan: u32,
    ) -> GranularView {
        if 0 <= slot < self.grains.len() {
            GranularView {
                grains: self.grains.update(
                    slot,
                    Grain { active: true, source_pos, phase: ZERO, rate, amp, size_samples, pan },
                ),
                ..self
            }
        } else {
            self
        }
    }

    /// The engine after `advance_grain`: the slot's grain moved to a new
    /// position and phase, and released if that finishes it. Unchanged for a
    /// slot outside the pool.
    pub open spec fn advanced(self, slot: int, source_pos: u32, phase: u32) -> GranularView {
        if 0 <= slot < self.grains.len() {
            GranularView {
                grains: self.grains.update(
                    slot,
                    Grain {
                        source_pos,
                        phase,
                        active: self.grains[slot].active && !grain_finished(source_pos, phase),
                        ..self.grains[slot]
                    },
                ),
                ..self
            }
        } else {
            self
        }
    }
}

impl View for GranularState {
    type V = GranularView;

    open spec fn view(&self) -> GranularView {
        GranularView {
            grains: self.grains@,
            rng_state: self.rng_state,
            source_len: self.source_len as nat,
            source_channels: self.source_channels,
            spawn_accumulator: self.spawn_accumulator,
        }
    }
}

impl GranularState {
    /// The pool has its fixed size, the source has one or two channels and
    /// fits the source region.
    pub open spec fn wf(&self) -> bool {
        self@.wf()
    }

    /// Whether the engine is well formed, tested at run time.
    pub fn is_well_formed(&self) -> (ok: bool)
        ensures
            ok == self.wf(),
    {
        self.grains.len() == MAX_GRAINS && 1 <= self.source_channels && self.source_channels <= 2
            && self.source_len <= MAX_GRANULAR_SOURCE_SAMPLES
    }

    /// An engine with an idle pool, the generator at its seed and no source.
    pub fn new() -> (state: GranularState)
        ensures
            state.wf(),
            state@ == GranularView::fresh(),
    {
        let state = GranularState {
            grains: vec![Grain::default(); MAX_GRAINS],
            rng_state: RNG_SEED,
            source_len: 0,
            source_channels: 1,
            spawn_accumulator: ZERO,
        };
        assert(state@.grains =~= GranularView::fresh().grains);
        state
    }
}

/// Releases every slot of the pool.
fn release_all(grains: &mut Vec<Grain>)
    ensures
        final(grains)@ == all_released(old(grains)@),
{
    let len: usize = grains.len();
    let mut i: usize = 0;
    while i < len
        invariant
            len == grains@.len(),
            grains@.len() == old(grains)@.len(),
            i <= len,
            forall|k: int| 0 <= k < i ==> grains@[k] == old(grains)@[k].released(),
            forall|k: int| i <= k < len ==> grains@[k] == old(grains)@[k],
        decreases len - i,
    {
        let g: Grain = grains[i];
        grains[i] = Grain {
            active: false,
            source_pos: g.source_pos,
            phase: g.phase,
            rate: g.rate,
            amp: g.amp,
            size_samples: g.size_samples,
            pan: g.pan,
        };
        i += 1;
    }
}

/// Declares a source of `length` frames in `channels` channels loaded. The
/// samples themselves already lie in the arena's source region. What exceeds
/// the region's capacity is cut off, so the first samples are kept. Every
/// grain is released and the spawn accumulator returns to zero; the arena
/// records the frame count and marks the source ready. Refused, with engine
/// and arena unchanged, exactly while the arena is not initialized.
pub fn load_source(state: &mut GranularState, arena: &mut Arena, length: u32, channels: u32) -> (loaded:
    bool)
    requires
        old(state).wf(),
        old(arena).wf(),
    ensures
        loaded == (old(arena)@.engine is Some),
        loaded ==> final(state)@ == old(state)@.loaded(length, channels) && final(arena)@ == old(
            arena,
        )@.with_granular_source_len(length),
        !loaded ==> final(state)@ == old(state)@ && final(arena)@ == old(arena)@,
        final(state).wf(),
        final(arena).wf(),
{
    if arena.engine.is_none() {
        return false;
    }
    assert(0 <= length as int * channels as int <= 0xffff_ffff * 0xffff_ffff) by (nonlinear_arith)
        requires
            0 <= length <= 0xffff_ffff,
            0 <= channels <= 0xffff_ffff,
    ;
    let words: u64 = length as u64 * channels as u64;
    state.source_len = if words <= MAX_GRANULAR_SOURCE_SAMPLES as u64 {
        words as usize
    } else {
        MAX_GRANULAR_SOURCE_SAMPLES
    };
    state.source_channels = if channels < 1 {
        1
    } else if channels > 2 {
        2
    } else {
        channels
    };
    release_all(&mut state.grains);
    state.spawn_accumulator = ZERO;
    set_granular_source_len(arena, length);
    true
}

/// Releases every grain and returns the spawn accumulator to zero. The
/// source and the generator are untouched.
pub fn reset(state: &mut GranularState)
    ensures
        final(state)@ == old(state)@.reset(),
        old(state).wf() ==> final(state).wf(),
{
    release_all(&mut state.grains);
    state.spawn_accumulator = ZERO;
}

/// One step of the generator on a bare state.
fn lcg_step(state: u32) -> (next: u32)
    ensures
        next == lcg_next(state),
{
    let product: u32 = state.wrapping_mul(LCG_MULTIPLIER);
    let next: u32 = product.wrapping_add(LCG_INCREMENT);
    proof {
        let x: int = state as int * LCG_MULTIPLIER as int;
        let range: int = 0x1_0000_0000;
        assert(0 <= x) by (nonlinear_arith)
            requires
                x == state as int * LCG_MULTIPLIER as int,
                0 <= state as int,
                0 <= LCG_MULTIPLIER as int,
        ;
        assert(product as int == x % range);
        lemma_add_mod_noop_right(LCG_INCREMENT as int, x, range);
        assert((LCG_INCREMENT as int + product as int) % range == (LCG_INCREMENT as int + x)
            % range);
        let sum: int = product as int + LCG_INCREMENT as int;
        if sum >= range {
            lemma_mod_sub_multiples_vanish(sum, range);
            lemma_small_mod((sum - range) as nat, range as nat);
        } else {
            lemma_small_mod(sum as nat, range as nat);
        }
    }
    next
}

/// Steps the generator and returns its new state, the next draw: a value
/// spread over all of `u32`.
pub fn next_random(state: &mut GranularState) -> (draw: u32)
    ensures
        draw == lcg_next(old(state)@.rng_state),
        final(state)@ == (GranularView { rng_state: draw, ..old(state)@ }),
{
    let next: u32 = lcg_step(state.rng_state);
    state.rng_state = next;
    next
}

/// The slot that the next grain takes: the first inactive one in pool order.
/// There is none exactly when every slot is active; the grain is then
/// dropped.
pub fn find_free_grain(state: &GranularState) -> (slot: Option<usize>)
    ensures
        slot matches Some(i) ==> is_first_free(state@.grains, i as int),
        slot is None <==> pool_is_full(state@.grains),
{
    let len: usize = state.grains.len();
    let mut i: usize = 0;
    while i < len
        invariant
            len == state.grains@.len(),
            i <= len,
            forall|j: int| 0 <= j < i ==> state.grains@[j].active,
        decreases len - i,
    {
        if !state.grains[i].active {
            return Some(i);
        }
        i += 1;
    }
    None
}

/// What a new grain is made from: its slot and the four draws that vary
/// its position, pitch, pan and amplitude, in the order they were drawn.
#[derive(Clone, Copy, Debug, PartialEq, Eq, Structural)]
pub struct Spawn {
    pub slot: usize,
    pub position_draw: u32,
    pub pitch_draw: u32,
    pub pan_draw: u32,
    pub amplitude_draw: u32,
}

/// What `begin_spawn` answers in a state: the first free slot with the next
/// four states of the generator, or nothing where the pool is full.
pub open spec fn spawn_of(state: GranularView, slot: int) -> Spawn {
    Spawn {
        slot: slot as usize,
        position_draw: lcg_next(state.rng_state),
        pitch_draw: lcg_next(lcg_next(state.rng_state)),
        pan_draw: lcg_next(lcg_next(lcg_next(state.rng_state))),
        amplitude_draw: lcg_next(lcg_next(lcg_next(lcg_next(state.rng_state)))),
    }
}

/// Prepares the spawning of one grain: takes the first free slot and draws
/// the four random numbers of its voice. Where the pool is full the grain is
/// dropped: nothing is drawn and the engine stays as it is. The slot is
/// taken for good by `start_grain`.
pub fn begin_spawn(state: &mut GranularState) -> (spawn: Option<Spawn>)
    ensures
        spawn is None <==> pool_is_full(old(state)@.grains),
        spawn is None ==> final(state)@ == old(state)@,
        spawn matches Some(s) ==> {
            &&& is_first_free(old(state)@.grains, s.slot as int)
            &&& s == spawn_of(old(state)@, s.slot as int)
            &&& final(state)@ == (GranularView { rng_state: s.amplitude_draw, ..old(state)@ })
        },
{
    match find_free_grain(state) {
        Some(slot) => {
            let position_draw: u32 = next_random(state);
            let pitch_draw: u32 = next_random(state);
            let pan_draw: u32 = next_random(state);
            let amplitude_draw: u32 = next_random(state);
            Some(Spawn { slot, position_draw, pitch_draw, pan_draw, amplitude_draw })
        },
        None => None,
    }
}

/// Starts a grain in `slot` at phase zero with the given voice. A slot
/// outside the pool is ignored.
pub fn start_grain(
    state: &mut GranularState,
    slot: usize,
    source_pos: u32,
    rate: u32,
    amp: u32,
    size_samples: u32,
    pan: u32,
)
    ensures
        final(state)@ == old(state)@.started(slot as int, source_pos, rate, amp, size_samples, pan),
        old(state).wf() ==> final(state).wf(),
{
    if slot < state.grains.len() {
        state.grains[slot] = Grain {
            active: true,
            source_pos,
            phase: ZERO,
            rate,
            amp,
            size_samples,
            pan,
        };
    }
}

/// Moves the grain in `slot` to a new source position and phase, and
/// releases the slot if the phase or the position has reached 1. A slot
/// outside the pool is ignored.
pub fn advance_grain(state: &mut GranularState, slot: usize, source_pos: u32, phase: u32)
    ensures
        final(state)@ == old(state)@.advanced(slot as int, source_pos, phase),
        old(state).wf() ==> final(state).wf(),
{
    if slot < state.grains.len() {
        let g: Grain = state.grains[slot];
        let finished: bool = word_le(ONE, phase) || word_le(ONE, source_pos);
        state.grains[slot] = Grain {
            active: g.active && !finished,
            source_pos,
            phase,
            rate: g.rate,
            amp: g.amp,
            size_samples: g.size_samples,
            pan: g.pan,
        };
    }
}

/// The number of grains that are sounding.
pub fn active_grains(state: &GranularState) -> (n: usize)
    ensures
        n == count_active(state@.grains),
        n <= state@.grains.len(),
{
    let len: usize = state.grains.len();
    let mut n: usize = 0;
    let mut i: usize = 0;
    while i < len
        invariant
            len == state.grains@.len(),
            i <= len,
            n <= i,
            n == count_active(state.grains@.take(i as int)),
        decreases len - i,
    {
        assert(state.grains@.take(i + 1).drop_last() =~= state.grains@.take(i as int));
        if state.grains[i].active {
            n += 1;
        }
        i += 1;
    }
    assert(state.grains@.take(len as int) =~= state.grains@);
    n
}

/// Where in the source region a grain at frame `frame` reads: the offset of
/// the first word of that frame. Two frames are read from there, so there is
/// such an offset exactly when the frame after `frame` is still inside the
/// source; a grain past that point reads silence.
pub fn read_window(state: &GranularState, frame: usize) -> (offset: Option<usize>)
    requires
        state.wf(),
    ensures
        offset is Some <==> frame + 1 < state@.source_frames(),
        offset matches Some(o) ==> o == frame * state@.source_channels && o + 2
            * state@.source_channels <= state@.source_len,
{
    let channels: usize = state.source_channels as usize;
    let frames: usize = state.source_len / channels;
    if frame < frames && frame + 1 < frames {
        assert(frames * channels <= state.source_len) by (nonlinear_arith)
            requires
                frames == state.source_len / channels,
                channels > 0,
        ;
        assert((frame + 2) * channels <= frames * channels) by (nonlinear_arith)
            requires
                frame + 2 <= frames,
                channels > 0,
        ;
        assert((frame + 2) * channels == frame * channels + 2 * channels) by (nonlinear_arith);
        Some(frame * channels)
    } else {
        None
    }
}

/// What a block of granular synthesis starts from: the parameters, each
/// brought into its range, and the extent of the source and of the block.
#[derive(Clone, Copy, Debug, PartialEq, Eq, Structural)]
pub struct BlockPlan {
    /// Grain duration in samples, within `[64, 4096]`.
    pub grain_size: u32,
    /// Grains per second, a sample word within `[1, 100]`.
    pub density: u32,
    /// Random pitch variation, a sample word within `[0, 1]`.
    pub pitch_spread: u32,
    /// Base position in the source, a sample word within `[0, 1]`.
    pub position: u32,
    /// Position randomization, a sample word within `[0, 1]`.
    pub spray: u32,
    /// Whole frames of the source.
    pub source_frames: usize,
    /// Samples in the block.
    pub buffer_size: usize,
    /// Sample rate in Hz, a sample word.
    pub sample_rate: u32,
}

/// A grain size brought into `[64, 4096]`.
pub open spec fn clamped_grain_size(grain_size: u32) -> u32 {
    if grain_size < MIN_GRAIN_SIZE {
        MIN_GRAIN_SIZE
    } else if grain_size > MAX_GRAIN_SIZE {
        MAX_GRAIN_SIZE
    } else {
        grain_size
    }
}

/// The plan of a block. There is none while the engine is not initialized
/// and none while no source is loaded: the block is then complete once the
/// outputs are silenced.
pub open spec fn block_plan(
    state: GranularView,
    arena: ArenaView,
    grain_size: u32,
    density: u32,
    pitch_spread: u32,
    position: u32,
    spray: u32,
) -> Option<BlockPlan> {
    match arena.engine {
        Some(e) => if state.source_len == 0 {
            None
        } else {
            Some(
                BlockPlan {
                    grain_size: clamped_grain_size(grain_size),
                    density: clamped(density, ONE, MAX_DENSITY),
                    pitch_spread: clamped(pitch_spread, ZERO, ONE),
                    position: clamped(position, ZERO, ONE),
                    spray: clamped(spray, ZERO, ONE),
                    source_frames: state.source_frames() as usize,
                    buffer_size: e.buffer_size as usize,
                    sample_rate: e.sample_rate,
                },
            )
        },
        None => None,
    }
}

/// Opens a block of granular synthesis: silences both output blocks and
/// answers with the plan for the grains to be mixed into them. Parameters out
/// of range are brought into range, never refused. With no source loaded, or
/// before the engine is initialized, there is no plan and the silenced
/// outputs are the block's result.
pub fn process(
    state: &GranularState,
    arena: &mut Arena,
    grain_size: u32,
    density: u32,
    pitch_spread: u32,
    position: u32,
    spray: u32,
) -> (plan: Option<BlockPlan>)
    requires
        state.wf(),
        old(arena).wf(),
    ensures
        final(arena)@ == old(arena)@.with_silent_outputs(),
        final(arena).wf(),
        plan == block_plan(
            state@,
            old(arena)@,
            grain_size,
            density,
            pitch_spread,
            position,
            spray,
        ),
{
    clear_outputs(arena);
    match arena.engine {
        Some(e) => {
            if state.source_len == 0 {
                return None;
            }
            proof {
                lemma_order_of_plain_words(ONE, MAX_DENSITY);
                lemma_order_of_plain_words(ZERO, ONE);
            }
            let size: u32 = if grain_size < MIN_GRAIN_SIZE {
                MIN_GRAIN_SIZE
            } else if grain_size > MAX_GRAIN_SIZE {
                MAX_GRAIN_SIZE
            } else {
                grain_size
            };
            Some(
                BlockPlan {
                    grain_size: size,
                    density: word_clamp(density, ONE, MAX_DENSITY),
                    pitch_spread: word_clamp(pitch_spread, ZERO, ONE),
                    position: word_clamp(position, ZERO, ONE),
                    spray: word_clamp(spray, ZERO, ONE),
                    source_frames: state.source_len / (state.source_channels as usize),
                    buffer_size: e.buffer_size as usize,
                    sample_rate: e.sample_rate,
                },
            )
        },
        None => None,
    }
}

/// With no source loaded a block of granular synthesis is silent, whatever
/// the parameters: there is no plan, so nothing is mixed, and both output
/// blocks hold only positive zero.
pub proof fn lemma_silent_without_source(
    state: GranularView,
    arena: ArenaView,
    grain_size: u32,
    density: u32,
    pitch_spread: u32,
    position: u32,
    spray: u32,
    channel: u32,
)
    requires
        state.wf(),
        arena.wf(),
        state.source_len == 0,
    ensures
        block_plan(state, arena, grain_size, density, pitch_spread, position, spray) is None,
        arena.with_silent_outputs().output(channel) == silence(arena.block_len()),
{
}

/// Right after `init_engine` a block of granular synthesis is silent: an
/// engine without a source has no plan, and the output blocks that
/// `init_engine` zeroed are silenced again over the whole block.
pub proof fn lemma_silent_after_init(
    before: ArenaView,
    sample_rate: u32,
    buffer_size: u32,
    state: GranularView,
    grain_size: u32,
    density: u32,
    pitch_spread: u32,
    position: u32,
    spray: u32,
    channel: u32,
)
    requires
        before.wf(),
        init_outcome(sample_rate, buffer_size) is Ok,
        state.wf(),
        state.source_len == 0,
    ensures
        ({
            let arena = before.initialized(sample_rate, buffer_size);
            &&& block_plan(state, arena, grain_size, density, pitch_spread, position, spray) is None
            &&& arena.with_silent_outputs().output(channel) == silence(buffer_size as nat)
            &&& arena.with_silent_outputs() == arena
        }),
{
    let arena = before.initialized(sample_rate, buffer_size);
    lemma_init_silences_blocks(before, sample_rate, buffer_size, channel);
    assert(arena.with_silent_outputs().output_l =~= arena.output_l);
    assert(arena.with_silent_outputs().output_r =~= arena.output_r);
}

/// Any number of grains may be started: the active ones never outnumber the
/// slots of the pool.
pub proof fn lemma_active_within_pool(grains: Seq<Grain>)
    ensures
        count_active(grains) <= grains.len(),
    decreases grains.len(),
{
    if grains.len() > 0 {
        lemma_active_within_pool(grains.drop_last());
    }
}

/// Starting a grain in an inactive slot adds one to the active grains, and
/// releasing an active one takes one away; any other change of a slot that
/// keeps its activity keeps the count.
pub proof fn lemma_count_follows_slot(grains: Seq<Grain>, slot: int, grain: Grain)
    requires
        0 <= slot < grains.len(),
    ensures
        count_active(grains.update(slot, grain)) == count_active(grains) + (if grain.active {
            1int
        } else {
            0int
        }) - (if grains[slot].active {
            1int
        } else {
            0int
        }),
    decreases grains.len(),
{
    let updated = grains.update(slot, grain);
    if slot == grains.len() - 1 {
        assert(updated.drop_last() =~= grains.drop_last());
    } else {
        lemma_count_follows_slot(grains.drop_last(), slot, grain);
        assert(updated.drop_last() =~= grains.drop_last().update(slot, grain));
    }
}

/// The pool is full exactly when every slot counts as active, so a grain is
/// dropped only when as many grains sound as the pool has slots.
pub proof fn lemma_full_pool_counts_every_slot(grains: Seq<Grain>)
    ensures
        pool_is_full(grains) <==> count_active(grains) == grains.len(),
    decreases grains.len(),
{
    if grains.len() > 0 {
        let front = grains.drop_last();
        lemma_full_pool_counts_every_slot(front);
        lemma_active_within_pool(front);
        if pool_is_full(grains) {
            assert forall|j: int| 0 <= j < front.len() implies front[j].active by {
                assert(front[j] == grains[j]);
            }
        }
        if count_active(grains) == grains.len() {
            assert(grains.last().active);
            assert(pool_is_full(front));
            assert forall|j: int| 0 <= j < grains.len() implies grains[j].active by {
                if j < front.len() {
                    assert(front[j] == grains[j]);
                }
            }
        }
    }
}

/// A released pool has no active grain.
pub proof fn lemma_released_pool_is_silent(grains: Seq<Grain>)
    ensures
        count_active(all_released(grains)) == 0,
    decreases grains.len(),
{
    if grains.len() > 0 {
        lemma_released_pool_is_silent(grains.drop_last());
        assert(all_released(grains).drop_last() =~= all_released(grains.drop_last()));
    }
}

/// Resetting an engine leaves it as loading its source again would: for an
/// engine that holds the source of `length` frames in `channels` channels,
/// `reset` and `load_source` end in the same state. Resetting twice is
/// resetting once.
pub proof fn lemma_reset_restores_loaded_state(state: GranularView, length: u32, channels: u32)
    requires
        state.wf(),
        state.source_len == loaded_len(length, channels),
        state.source_channels == loaded_channels(channels),
    ensures
        state.reset() == state.loaded(length, channels),
        state.reset().reset() == state.reset(),
        state.loaded(length, channels).reset() == state.loaded(length, channels),
        count_active(state.reset().grains) == 0,
{
    lemma_released_pool_is_silent(state.grains);
    assert(all_released(all_released(state.grains)) =~= all_released(state.grains));
}

} // verus!
