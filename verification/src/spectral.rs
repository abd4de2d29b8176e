//! Frame scheduling of the spectral freeze and shift effect.
//!
//! Input samples slide through a window of `FFT_SIZE` samples. Each time
//! `HOP_SIZE` new samples have arrived the window is analysed as one frame,
//! and the frame's resynthesis is added into an output ring twice the window
//! long, from whose head each block is emitted. A frame either follows the
//! live spectrum, captures it as the frozen snapshot, or holds the snapshot
//! captured before.
//!
//! Analysis and resynthesis are arithmetic on sample values and are done by
//! the caller. This module holds every buffer, moves the samples, decides
//! when a frame is due and what the frame does about freezing: `process`
//! opens a block and `resume` follows each analysed frame.
use vstd::prelude::*;
use vstd::slice::slice_subrange;
use crate::sample::{clamped, lt, word_clamp, word_lt, lemma_order_of_plain_words, lemma_word_bits, ZERO};
use crate::memory::{Arena, ArenaView, silence, output_slice_mut};
use crate::memory::{init_outcome, lemma_init_silences_blocks};
use crate::memory::MAX_BUFFER_SIZE;
use crate::simd_utils::{min_len, overlaid, shifted_left, copy_span, shift_left, clear_buffer, copy_buffer};

verus! {

/// Window length, in samples.
pub const FFT_SIZE: usize = 2048;

/// New samples per frame: a quarter of the window.
pub const HOP_SIZE: usize = 512;

/// Frequency bins of one frame, from zero to half the sample rate.
pub const NUM_BINS: usize = 1025;

/// Length of the output ring: twice the window.
pub const OUTPUT_SIZE: usize = 4096;

/// Where new samples enter the window: the window less one hop.
pub const INPUT_TAIL: usize = 1536;

/// The sample word of 24, the largest shift in semitones.
pub const MAX_SHIFT: u32 = 0x41c0_0000;

/// The sample word of -24, the smallest shift in semitones.
pub const MIN_SHIFT: u32 = 0xc1c0_0000;

/// The sample word of 1, the largest freeze amount.
pub const MAX_FREEZE: u32 = 0x3f80_0000;

/// What a frame does about freezing.
#[derive(Clone, Copy, Debug, PartialEq, Eq, Structural)]
pub enum FreezeStep {
    /// The freeze amount is not above zero: the frame follows the live
    /// spectrum.
    Live,
    /// The freeze amount is above zero for the first time since it was last
    /// at zero: the frame's magnitudes and phases are captured as the
    /// snapshot, then blended as under `Hold`.
    Capture,
    /// The freeze amount is still above zero: the frame is blended toward
    /// the snapshot that was captured.
    Hold,
}

/// What the caller is to do next.
#[derive(Clone, Copy, Debug, PartialEq, Eq, Structural)]
pub enum Action {
    /// Nothing: the block is complete and its output is emitted.
    Done,
    /// A hop of new samples has arrived. Analyse the window of each channel
    /// as one frame, with the freeze amount and the shift in semitones given
    /// here, add the resynthesis into the output rings, then call `resume`.
    Analyze { freeze: FreezeStep, freeze_amount: u32, shift: u32 },
}

/// The spectral engine.
pub struct SpectralState {
    /// Analysis window, left channel.
    pub input_buffer_l: Vec<u32>,
    /// Analysis window, right channel.
    pub input_buffer_r: Vec<u32>,
    /// Output ring, left channel.
    pub output_buffer_l: Vec<u32>,
    /// Output ring, right channel.
    pub output_buffer_r: Vec<u32>,
    /// New samples in the window since the last frame.
    pub input_pos: usize,
    /// Snapshot magnitudes, one per bin, for each channel.
    pub frozen_mag_l: Vec<u32>,
    pub frozen_mag_r: Vec<u32>,
    /// Snapshot phases, one per bin, for each channel.
    pub frozen_phase_l: Vec<u32>,
    pub frozen_phase_r: Vec<u32>,
    /// Phases of the frame before, one per bin, for each channel.
    pub prev_phase_l: Vec<u32>,
    pub prev_phase_r: Vec<u32>,
    /// Running synthesis phases, one per bin, for each channel.
    pub synth_phase_l: Vec<u32>,
    pub synth_phase_r: Vec<u32>,
    /// Whether a snapshot is held.
    pub is_frozen: bool,
    /// Samples of the block in progress that have been taken.
    pub cursor: usize,
    /// Freeze amount of the block in progress, a sample word in `[0, 1]`.
    pub freeze_amount: u32,
    /// Shift of the block in progress in semitones, a sample word in
    /// `[-24, 24]`.
    pub shift: u32,
}

/// The spectral engine as a value.
pub struct SpectralView {
    pub input_buffer_l: Seq<u32>,
    pub input_buffer_r: Seq<u32>,
    pub output_buffer_l: Seq<u32>,
    pub output_buffer_r: Seq<u32>,
    pub input_pos: nat,
    pub frozen_mag_l: Seq<u32>,
    pub frozen_mag_r: Seq<u32>,
    pub frozen_phase_l: Seq<u32>,
    pub frozen_phase_r: Seq<u32>,
    pub prev_phase_l: Seq<u32>,
    pub prev_phase_r: Seq<u32>,
    pub synth_phase_l: Seq<u32>,
    pub synth_phase_r: Seq<u32>,
    pub is_frozen: bool,
    pub cursor: nat,
    pub freeze_amount: u32,
    pub shift: u32,
}

impl SpectralView {
    /// Every buffer has its fixed length and no more than a hop of new
    /// samples waits in the window.
    pub open spec fn wf(self) -> bool {
        &&& self.input_buffer_l.len() == FFT_SIZE
        &&& self.input_buffer_r.len() == FFT_SIZE
        &&& self.output_buffer_l.len() == OUTPUT_SIZE
        &&& self.output_buffer_r.len() == OUTPUT_SIZE
        &&& self.input_pos <= HOP_SIZE
        &&& self.frozen_mag_l.len() == NUM_BINS
        &&& self.frozen_mag_r.len() == NUM_BINS
        &&& self.frozen_phase_l.len() == NUM_BINS
        &&& self.frozen_phase_r.len() == NUM_BINS
        &&& self.prev_phase_l.len() == NUM_BINS
        &&& self.prev_phase_r.len() == NUM_BINS
        &&& self.synth_phase_l.len() == NUM_BINS
        &&& self.synth_phase_r.len() == NUM_BINS
        &&& self.cursor <= MAX_BUFFER_SIZE
    }

    /// The engine of `SpectralState::new` and of `reset`: every buffer and
    /// phase silent, nothing frozen, no sample waiting.
    pub open spec fn fresh() -> SpectralView {
        SpectralView {
            input_buffer_l: silence(FFT_SIZE as nat),
            input_buffer_r: silence(FFT_SIZE as nat),
            output_buffer_l: silence(OUTPUT_SIZE as nat),
            output_buffer_r: silence(OUTPUT_SIZE as nat),
            input_pos: 0,
            frozen_mag_l: silence(NUM_BINS as nat),
            frozen_mag_r: silence(NUM_BINS as nat),
            frozen_phase_l: silence(NUM_BINS as nat),
            frozen_phase_r: silence(NUM_BINS as nat),
            prev_phase_l: silence(NUM_BINS as nat),
            prev_phase_r: silence(NUM_BINS as nat),
            synth_phase_l: silence(NUM_BINS as nat),
            synth_phase_r: silence(NUM_BINS as nat),
            is_frozen: false,
            cursor: 0,
            freeze_amount: ZERO,
            shift: ZERO,
        }
    }

    /// The engine at the opening of a block: no sample taken, the
    /// parameters set.
    pub open spec fn opened(self, freeze_amount: u32, shift: u32) -> SpectralView {
        SpectralView { cursor: 0, freeze_amount, shift, ..self }
    }

    /// The number of samples that gathering takes from a block of `n`
    /// samples: as many as complete the hop, or as many as the block has
    /// left.
    pub open spec fn take_count(self, n: nat) -> nat {
        if self.cursor <= n {
            min_len(HOP_SIZE - self.input_pos, n - self.cursor) as nat
        } else {
            0
        }
    }

    /// The engine after gathering from the block `(left, right)`: the
    /// samples from `cursor` on enter the end of the window.
    pub open spec fn filled(self, left: Seq<u32>, right: Seq<u32>) -> SpectralView {
        let k = self.take_count(left.len());
        SpectralView {
            input_buffer_l: overlaid(
                self.input_buffer_l,
                INPUT_TAIL + self.input_pos,
                left,
                self.cursor as int,
                k as int,
            ),
            input_buffer_r: overlaid(
                self.input_buffer_r,
                INPUT_TAIL + self.input_pos,
                right,
                self.cursor as int,
                k as int,
            ),
            input_pos: self.input_pos + k,
            cursor: self.cursor + k,
            ..self
        }
    }

    /// A full hop waits: a frame is due.
    pub open spec fn pending(self) -> bool {
        self.input_pos == HOP_SIZE
    }

    /// What the frame that is due does about freezing.
    pub open spec fn freeze_step(self) -> FreezeStep {
        if lt(ZERO, self.freeze_amount) {
            if self.is_frozen {
                FreezeStep::Hold
            } else {
                FreezeStep::Capture
            }
        } else {
            FreezeStep::Live
        }
    }

    /// The engine once the frame's freeze step is decided: a snapshot is
    /// held exactly when the freeze amount is above zero.
    pub open spec fn decided(self) -> SpectralView {
        SpectralView { is_frozen: lt(ZERO, self.freeze_amount), ..self }
    }

    /// The engine after a frame: the window moved left by one hop, no new
    /// sample waiting.
    pub open spec fn slid(self) -> SpectralView {
        SpectralView {
            input_buffer_l: shifted_left(self.input_buffer_l, HOP_SIZE as int),
            input_buffer_r: shifted_left(self.input_buffer_r, HOP_SIZE as int),
            input_pos: 0,
            ..self
        }
    }

    /// The engine after a block of `n` samples is emitted: the output rings
    /// moved left by the block, their end silent, no sample taken.
    pub open spec fn emitted(self, n: nat) -> SpectralView {
        SpectralView {
            output_buffer_l: shifted_left(self.output_buffer_l, n as int),
            output_buffer_r: shifted_left(self.output_buffer_r, n as int),
            cursor: 0,
            ..self
        }
    }

    /// The engine once gathering has stopped: the freeze step decided where
    /// a frame is due, the block emitted where it is not.
    pub open spec fn settled(self, n: nat) -> SpectralView {
        if self.pending() {
            self.decided()
        } else {
            self.emitted(n)
        }
    }

    /// What is due once gathering has stopped.
    pub open spec fn due(self) -> Action {
        if self.pending() {
            Action::Analyze {
                freeze: self.freeze_step(),
                freeze_amount: self.freeze_amount,
                shift: self.shift,
            }
        } else {
            Action::Done
        }
    }

    /// The arena once gathering has stopped: where the block is complete,
    /// the head of each output ring is in the output block of its channel.
    pub open spec fn delivered(self, arena: ArenaView) -> ArenaView {
        if self.pending() {
            arena
        } else {
            arena.with_output(0, self.output_buffer_l.take(arena.block_len() as int)).with_output(
                1,
                self.output_buffer_r.take(arena.block_len() as int),
            )
        }
    }

    /// The engine with the snapshot of a channel replaced.
    pub open spec fn with_snapshot(self, channel: u32, mag: Seq<u32>, phase: Seq<u32>) -> SpectralView {
        if channel == 0 {
            SpectralView { frozen_mag_l: mag, frozen_phase_l: phase, ..self }
        } else {
            SpectralView { frozen_mag_r: mag, frozen_phase_r: phase, ..self }
        }
    }
}

impl View for SpectralState {
    type V = SpectralView;

    open spec fn view(&self) -> SpectralView {
        SpectralView {
            input_buffer_l: self.input_buffer_l@,
            input_buffer_r: self.input_buffer_r@,
            output_buffer_l: self.output_buffer_l@,
            output_buffer_r: self.output_buffer_r@,
            input_pos: self.input_pos as nat,
            frozen_mag_l: self.frozen_mag_l@,
            frozen_mag_r: self.frozen_mag_r@,
            frozen_phase_l: self.frozen_phase_l@,
            frozen_phase_r: self.frozen_phase_r@,
            prev_phase_l: self.prev_phase_l@,
            prev_phase_r: self.prev_phase_r@,
            synth_phase_l: self.synth_phase_l@,
            synth_phase_r: self.synth_phase_r@,
            is_frozen: self.is_frozen,
            cursor: self.cursor as nat,
            freeze_amount: self.freeze_amount,
            shift: self.shift,
        }
    }
}

impl SpectralState {
    /// Every buffer has its fixed length and no more than a hop of new
    /// samples waits in the window.
    pub open spec fn wf(&self) -> bool {
        self@.wf()
    }

    /// Whether the engine is well formed, tested at run time.
    pub fn is_well_formed(&self) -> (ok: bool)
        ensures
            ok == self.wf(),
    {
        self.input_buffer_l.len() == FFT_SIZE && self.input_buffer_r.len() == FFT_SIZE
            && self.output_buffer_l.len() == OUTPUT_SIZE && self.output_buffer_r.len()
            == OUTPUT_SIZE && self.input_pos <= HOP_SIZE && self.frozen_mag_l.len() == NUM_BINS
            && self.frozen_mag_r.len() == NUM_BINS && self.frozen_phase_l.len() == NUM_BINS
            && self.frozen_phase_r.len() == NUM_BINS && self.prev_phase_l.len() == NUM_BINS
            && self.prev_phase_r.len() == NUM_BINS && self.synth_phase_l.len() == NUM_BINS
            && self.synth_phase_r.len() == NUM_BINS && self.cursor <= MAX_BUFFER_SIZE
    }

    /// An engine with every buffer and phase silent and nothing frozen.
    pub fn new() -> (state: SpectralState)
        ensures
            state.wf(),
            state@ == SpectralView::fresh(),
    {
        let state = SpectralState {
            input_buffer_l: vec![0u32; FFT_SIZE],
            input_buffer_r: vec![0u32; FFT_SIZE],
            output_buffer_l: vec![0u32; OUTPUT_SIZE],
            output_buffer_r: vec![0u32; OUTPUT_SIZE],
            input_pos: 0,
            frozen_mag_l: vec![0u32; NUM_BINS],
            frozen_mag_r: vec![0u32; NUM_BINS],
            frozen_phase_l: vec![0u32; NUM_BINS],
            frozen_phase_r: vec![0u32; NUM_BINS],
            prev_phase_l: vec![0u32; NUM_BINS],
            prev_phase_r: vec![0u32; NUM_BINS],
            synth_phase_l: vec![0u32; NUM_BINS],
            synth_phase_r: vec![0u32; NUM_BINS],
            is_frozen: false,
            cursor: 0,
            freeze_amount: ZERO,
            shift: ZERO,
        };
        proof {
            let target = SpectralView::fresh();
            assert(state@.input_buffer_l =~= target.input_buffer_l);
            assert(state@.input_buffer_r =~= target.input_buffer_r);
            assert(state@.output_buffer_l =~= target.output_buffer_l);
            assert(state@.output_buffer_r =~= target.output_buffer_r);
            assert(state@.frozen_mag_l =~= target.frozen_mag_l);
            assert(state@.frozen_mag_r =~= target.frozen_mag_r);
            assert(state@.frozen_phase_l =~= target.frozen_phase_l);
            assert(state@.frozen_phase_r =~= target.frozen_phase_r);
            assert(state@.prev_phase_l =~= target.prev_phase_l);
            assert(state@.prev_phase_r =~= target.prev_phase_r);
            assert(state@.synth_phase_l =~= target.synth_phase_l);
            assert(state@.synth_phase_r =~= target.synth_phase_r);
        }
        state
    }
}

/// Enters the samples of the arena's input blocks from `cursor` on at the
/// end of the window, as far as the hop has room and samples are left.
fn gather(state: &mut SpectralState, arena: &Arena)
    requires
        old(state).wf(),
        arena.wf(),
    ensures
        final(state)@ == old(state)@.filled(arena@.input(0), arena@.input(1)),
        final(state).wf(),
{
    let n: usize = match arena.engine {
        Some(e) => e.buffer_size as usize,
        None => 0,
    };
    let left = slice_subrange(arena.input_l.as_slice(), 0, n);
    let right = slice_subrange(arena.input_r.as_slice(), 0, n);
    if state.cursor <= n {
        let room: usize = HOP_SIZE - state.input_pos;
        let taken: usize = copy_span(
            left,
            state.cursor,
            state.input_buffer_l.as_mut_slice(),
            INPUT_TAIL + state.input_pos,
            room,
        );
        let same: usize = copy_span(
            right,
            state.cursor,
            state.input_buffer_r.as_mut_slice(),
            INPUT_TAIL + state.input_pos,
            room,
        );
        state.input_pos = state.input_pos + taken;
        state.cursor = state.cursor + taken;
    } else {
        proof {
            let target = old(state)@.filled(arena@.input(0), arena@.input(1));
            assert(state@.input_buffer_l =~= target.input_buffer_l);
            assert(state@.input_buffer_r =~= target.input_buffer_r);
        }
    }
}

/// Acts on where gathering has stopped: decides the freeze step of a frame
/// that is due, or else emits the block from the head of the output rings
/// and moves the rings on.
fn settle(state: &mut SpectralState, arena: &mut Arena) -> (action: Action)
    requires
        old(state).wf(),
        old(arena).wf(),
    ensures
        action == old(state)@.due(),
        final(state)@ == old(state)@.settled(old(arena)@.block_len()),
        final(arena)@ == old(state)@.delivered(old(arena)@),
        final(state).wf(),
        final(arena).wf(),
{
    if state.input_pos == HOP_SIZE {
        let above_zero: bool = word_lt(ZERO, state.freeze_amount);
        let freeze: FreezeStep = if above_zero {
            if state.is_frozen {
                FreezeStep::Hold
            } else {
                FreezeStep::Capture
            }
        } else {
            FreezeStep::Live
        };
        state.is_frozen = above_zero;
        Action::Analyze { freeze, freeze_amount: state.freeze_amount, shift: state.shift }
    } else {
        let n: usize = match arena.engine {
            Some(e) => e.buffer_size as usize,
            None => 0,
        };
        match output_slice_mut(arena, 0) {
            Some(view) => copy_buffer(slice_subrange(state.output_buffer_l.as_slice(), 0, n), view),
            None => {},
        }
        match output_slice_mut(arena, 1) {
            Some(view) => copy_buffer(slice_subrange(state.output_buffer_r.as_slice(), 0, n), view),
            None => {},
        }
        proof {
            let target = old(state)@.delivered(old(arena)@);
            assert(arena@.output_l =~= target.output_l);
            assert(arena@.output_r =~= target.output_r);
        }
        shift_left(state.output_buffer_l.as_mut_slice(), n);
        shift_left(state.output_buffer_r.as_mut_slice(), n);
        state.cursor = 0;
        Action::Done
    }
}

/// Opens a block. `freeze_amount` is brought into `[0, 1]` and `shift`, in
/// semitones, into `[-24, 24]`.
///
/// Samples are gathered from the start of the input blocks until a hop is
/// complete or the samples are used up. Where a hop is complete a frame is
/// due, and its freeze step is decided. Otherwise the block is emitted: the
/// head of each output ring goes to the output block of its channel and the
/// rings move on by the block size. Before the engine is initialized nothing
/// happens at all.
pub fn process(state: &mut SpectralState, arena: &mut Arena, freeze_amount: u32, shift: u32) -> (action:
    Action)
    requires
        old(state).wf(),
        old(arena).wf(),
    ensures
        final(state).wf(),
        final(arena).wf(),
        old(arena)@.engine is None ==> {
            &&& action == Action::Done
            &&& final(state)@ == old(state)@
            &&& final(arena)@ == old(arena)@
        },
        old(arena)@.engine is Some ==> {
            let gathered = old(state)@.opened(
                clamped(freeze_amount, ZERO, MAX_FREEZE),
                clamped(shift, MIN_SHIFT, MAX_SHIFT),
            ).filled(old(arena)@.input(0), old(arena)@.input(1));
            &&& action == gathered.due()
            &&& final(state)@ == gathered.settled(old(arena)@.block_len())
            &&& final(arena)@ == gathered.delivered(old(arena)@)
        },
{
    if arena.engine.is_none() {
        return Action::Done;
    }
    proof {
        lemma_order_of_plain_words(ZERO, MAX_FREEZE);
        lemma_word_bits(MIN_SHIFT);
        lemma_word_bits(MAX_SHIFT);
    }
    state.freeze_amount = word_clamp(freeze_amount, ZERO, MAX_FREEZE);
    state.shift = word_clamp(shift, MIN_SHIFT, MAX_SHIFT);
    state.cursor = 0;
    gather(state, arena);
    settle(state, arena)
}

/// Continues a block after a frame: the window moves left by one hop and
/// gathering goes on where it stopped, with the same end as in `process`.
/// Where no frame was due, nothing changes and the block is done.
pub fn resume(state: &mut SpectralState, arena: &mut Arena) -> (action: Action)
    requires
        old(state).wf(),
        old(arena).wf(),
    ensures
        final(state).wf(),
        final(arena).wf(),
        !old(state)@.pending() ==> {
            &&& action == Action::Done
            &&& final(state)@ == old(state)@
            &&& final(arena)@ == old(arena)@
        },
        old(state)@.pending() ==> {
            let gathered = old(state)@.slid().filled(old(arena)@.input(0), old(arena)@.input(1));
            &&& action == gathered.due()
            &&& final(state)@ == gathered.settled(old(arena)@.block_len())
            &&& final(arena)@ == gathered.delivered(old(arena)@)
        },
{
    if state.input_pos != HOP_SIZE {
        return Action::Done;
    }
    shift_left(state.input_buffer_l.as_mut_slice(), HOP_SIZE);
    shift_left(state.input_buffer_r.as_mut_slice(), HOP_SIZE);
    state.input_pos = 0;
    gather(state, arena);
    settle(state, arena)
}

/// Stores the magnitudes and phases of a frame as the snapshot of a
/// channel. Refused, with the engine unchanged, for a channel other than 0
/// and 1 or a span that does not hold one word per bin.
pub fn capture(state: &mut SpectralState, channel: u32, mag: &[u32], phase: &[u32]) -> (stored:
    bool)
    requires
        old(state).wf(),
    ensures
        stored == (channel < 2 && mag@.len() == NUM_BINS && phase@.len() == NUM_BINS),
        stored ==> final(state)@ == old(state)@.with_snapshot(channel, mag@, phase@),
        !stored ==> final(state)@ == old(state)@,
        final(state).wf(),
{
    if channel >= 2 || mag.len() != NUM_BINS || phase.len() != NUM_BINS {
        return false;
    }
    if channel == 0 {
        copy_buffer(mag, state.frozen_mag_l.as_mut_slice());
        copy_buffer(phase, state.frozen_phase_l.as_mut_slice());
    } else {
        copy_buffer(mag, state.frozen_mag_r.as_mut_slice());
        copy_buffer(phase, state.frozen_phase_r.as_mut_slice());
    }
    proof {
        let target = old(state)@.with_snapshot(channel, mag@, phase@);
        assert(state@.frozen_mag_l =~= target.frozen_mag_l);
        assert(state@.frozen_mag_r =~= target.frozen_mag_r);
        assert(state@.frozen_phase_l =~= target.frozen_phase_l);
        assert(state@.frozen_phase_r =~= target.frozen_phase_r);
    }
    true
}

/// Silences every buffer and phase, releases the snapshot and forgets the
/// samples that wait: the engine is as new.
pub fn reset(state: &mut SpectralState)
    requires
        old(state).wf(),
    ensures
        final(state)@ == SpectralView::fresh(),
        final(state).wf(),
{
    clear_buffer(state.input_buffer_l.as_mut_slice());
    clear_buffer(state.input_buffer_r.as_mut_slice());
    clear_buffer(state.output_buffer_l.as_mut_slice());
    clear_buffer(state.output_buffer_r.as_mut_slice());
    clear_buffer(state.frozen_mag_l.as_mut_slice());
    clear_buffer(state.frozen_mag_r.as_mut_slice());
    clear_buffer(state.frozen_phase_l.as_mut_slice());
    clear_buffer(state.frozen_phase_r.as_mut_slice());
    clear_buffer(state.prev_phase_l.as_mut_slice());
    clear_buffer(state.prev_phase_r.as_mut_slice());
    clear_buffer(state.synth_phase_l.as_mut_slice());
    clear_buffer(state.synth_phase_r.as_mut_slice());
    state.input_pos = 0;
    state.is_frozen = false;
    state.cursor = 0;
    state.freeze_amount = ZERO;
    state.shift = ZERO;
    proof {
        let target = SpectralView::fresh();
        assert(state@.input_buffer_l =~= target.input_buffer_l);
        assert(state@.input_buffer_r =~= target.input_buffer_r);
        assert(state@.output_buffer_l =~= target.output_buffer_l);
        assert(state@.output_buffer_r =~= target.output_buffer_r);
        assert(state@.frozen_mag_l =~= target.frozen_mag_l);
        assert(state@.frozen_mag_r =~= target.frozen_mag_r);
        assert(state@.frozen_phase_l =~= target.frozen_phase_l);
        assert(state@.frozen_phase_r =~= target.frozen_phase_r);
        assert(state@.prev_phase_l =~= target.prev_phase_l);
        assert(state@.prev_phase_r =~= target.prev_phase_r);
        assert(state@.synth_phase_l =~= target.synth_phase_l);
        assert(state@.synth_phase_r =~= target.synth_phase_r);
    }
}

/// A snapshot is captured once per engagement of the freeze: the frame
/// after a frame whose freeze amount was above zero holds and does not
/// capture again, and the frame after a frame whose freeze amount was not
/// above zero captures as soon as the amount rises above zero.
pub proof fn lemma_freeze_captures_once(state: SpectralView, next_amount: u32)
    ensures
        ({
            let next = SpectralView { freeze_amount: next_amount, ..state.decided() };
            &&& state.freeze_step() != FreezeStep::Live && lt(ZERO, next_amount)
                ==> next.freeze_step() == FreezeStep::Hold
            &&& state.freeze_step() == FreezeStep::Live && lt(ZERO, next_amount)
                ==> next.freeze_step() == FreezeStep::Capture
            &&& !lt(ZERO, next_amount) ==> next.freeze_step() == FreezeStep::Live
                && !next.decided().is_frozen
        }),
{
}

/// How a block of `remaining` samples is divided when `pos` new samples
/// already wait in the window: either the hop completes, and one frame more
/// is due than for what is left after it, or the samples run out first and
/// no frame is due. Over a whole block the frames number
/// `(pos + remaining) / HOP_SIZE`.
pub proof fn lemma_hop_schedule(pos: nat, remaining: nat)
    requires
        pos < HOP_SIZE,
    ensures
        ({
            let h: int = HOP_SIZE as int;
            let total: int = pos as int + remaining as int;
            let k: int = min_len(h - pos as int, remaining as int);
            &&& pos + k == h ==> total / h == 1 + (remaining as int - k) / h
            &&& pos + k < h ==> k == remaining && total / h == 0 && total % h == total
        }),
{
}

/// Gathering loses no sample and keeps their order: the new samples at the
/// end of the window afterwards are those that waited before, followed by
/// the samples taken from the block, from `cursor` on; the rest of the
/// window is untouched.
pub proof fn lemma_gather_appends(state: SpectralView, left: Seq<u32>, right: Seq<u32>)
    requires
        state.wf(),
        left.len() == right.len(),
        state.cursor <= left.len() <= MAX_BUFFER_SIZE,
    ensures
        ({
            let after = state.filled(left, right);
            let k = state.take_count(left.len());
            &&& after.input_pos == state.input_pos + k
            &&& after.cursor == state.cursor + k
            &&& after.input_buffer_l.take(INPUT_TAIL as int) == state.input_buffer_l.take(
                INPUT_TAIL as int,
            )
            &&& after.input_buffer_l.subrange(INPUT_TAIL as int, (INPUT_TAIL + after.input_pos) as int)
                == state.input_buffer_l.subrange(INPUT_TAIL as int, (INPUT_TAIL + state.input_pos) as int)
                + left.subrange(state.cursor as int, (state.cursor + k) as int)
            &&& after.input_buffer_r.subrange(INPUT_TAIL as int, (INPUT_TAIL + after.input_pos) as int)
                == state.input_buffer_r.subrange(INPUT_TAIL as int, (INPUT_TAIL + state.input_pos) as int)
                + right.subrange(state.cursor as int, (state.cursor + k) as int)
        }),
{
}

/// While no hop completes, a silent engine stays silent: a block that
/// leaves the hop incomplete is emitted from output rings that hold only
/// positive zero, so both output blocks are silent, whatever the input and
/// the parameters, and the rings are silent afterwards as well.
pub proof fn lemma_silent_until_first_frame(
    state: SpectralView,
    arena: ArenaView,
    freeze_amount: u32,
    shift: u32,
    channel: u32,
)
    requires
        state.wf(),
        arena.wf(),
        arena.engine is Some,
        state.output_buffer_l == silence(OUTPUT_SIZE as nat),
        state.output_buffer_r == silence(OUTPUT_SIZE as nat),
        state.input_pos + arena.block_len() < HOP_SIZE,
    ensures
        ({
            let gathered = state.opened(freeze_amount, shift).filled(
                arena.input(0),
                arena.input(1),
            );
            &&& gathered.due() == Action::Done
            &&& gathered.delivered(arena).output(channel) == silence(arena.block_len())
            &&& gathered.settled(arena.block_len()).output_buffer_l == silence(OUTPUT_SIZE as nat)
            &&& gathered.settled(arena.block_len()).output_buffer_r == silence(OUTPUT_SIZE as nat)
        }),
{
}

/// Right after `init_engine` a block on a new engine is silent as long as
/// it completes no hop, that is for every block size below `HOP_SIZE`: no
/// frame is due, and the block is emitted from silent output rings.
pub proof fn lemma_silent_after_init(
    before: ArenaView,
    sample_rate: u32,
    buffer_size: u32,
    freeze_amount: u32,
    shift: u32,
    channel: u32,
)
    requires
        before.wf(),
        init_outcome(sample_rate, buffer_size) is Ok,
        buffer_size < HOP_SIZE,
    ensures
        ({
            let arena = before.initialized(sample_rate, buffer_size);
            let gathered = SpectralView::fresh().opened(freeze_amount, shift).filled(
                arena.input(0),
                arena.input(1),
            );
            &&& gathered.due() == Action::Done
            &&& gathered.delivered(arena).output(channel) == silence(buffer_size as nat)
        }),
{
    let arena = before.initialized(sample_rate, buffer_size);
    lemma_init_silences_blocks(before, sample_rate, buffer_size, channel);
    lemma_silent_until_first_frame(SpectralView::fresh(), arena, freeze_amount, shift, channel);
}

} // verus!
