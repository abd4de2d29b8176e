//! Block scheduling of the partitioned convolution reverb.
//!
//! An impulse response is held as one spectrum per partition of `BLOCK_SIZE`
//! frames. Incoming samples are gathered into blocks of the same size; each
//! full block is transformed, stored in a frequency-domain delay line with
//! one slot per partition, and partition `p` is multiplied with the spectrum
//! stored `p` blocks ago. The products are summed, transformed back and
//! added into an overlap buffer, from whose head the output is mixed.
//!
//! The transforms, the products and the mix are arithmetic on sample values
//! and are done by the caller. This module holds every buffer, moves the
//! samples, and tells the caller after each step what is due: `process`
//! opens a block, `resume` follows each transform, `finish` follows the mix.
use vstd::prelude::*;
use vstd::arithmetic::div_mod::{lemma_mod_add_multiples_vanish, lemma_small_mod};
use vstd::slice::{slice_subrange, slice_to_vec};
use crate::sample::{clamped, le, magnitude, word_abs, word_clamp, ZERO, ONE};
use crate::sample::{lemma_order_of_plain_words, lemma_word_bits};
use crate::memory::{Arena, ArenaView, silence, set_ir_len, pass_through};
use crate::memory::{init_outcome, lemma_init_silences_blocks};
use crate::memory::{MAX_IR_SAMPLES, MAX_BUFFER_SIZE};
use crate::simd_utils::{min_len, overlaid, shifted_left, copy_span, shift_left, clear_buffer};

verus! {

/// Transform length, in samples.
pub const FFT_SIZE: usize = 512;

/// Samples per partition and per gathered input block: half the transform
/// length.
pub const BLOCK_SIZE: usize = 256;

/// Words of one spectrum: `FFT_SIZE` bins, each a real and an imaginary
/// sample word, real part first.
pub const SPECTRUM_WORDS: usize = 1024;

/// Longest impulse response, in frames: five seconds at 48 kHz.
pub const MAX_IR_FRAMES: usize = 240000;

/// Most partitions an impulse response is split into: the whole blocks
/// within `MAX_IR_FRAMES`.
pub const MAX_PARTITIONS: usize = 937;

/// The number of partitions of an impulse response of `length` frames: one
/// per started block, and no more than `MAX_PARTITIONS`.
pub open spec fn partitions_for(length: nat) -> nat {
    if (length + BLOCK_SIZE - 1) / (BLOCK_SIZE as int) <= MAX_PARTITIONS {
        ((length + BLOCK_SIZE - 1) / (BLOCK_SIZE as int)) as nat
    } else {
        MAX_PARTITIONS as nat
    }
}

/// The delay-line slot that partition `p` reads when the line stands at
/// `pos`: the slot written `p` blocks ago, `pos - p` modulo the `n` slots.
pub open spec fn slot_for(pos: nat, p: nat, n: nat) -> nat {
    ((pos as int - p as int) % (n as int)) as nat
}

/// A gathered block laid out as transform input: bin `i` holds input sample
/// `i` as its real part for `i < BLOCK_SIZE`; every other word is zero.
pub open spec fn padded(block: Seq<u32>) -> Seq<u32> {
    Seq::new(
        SPECTRUM_WORDS as nat,
        |k: int|
            if k % 2 == 0 && k / 2 < BLOCK_SIZE {
                block[k / 2]
            } else {
                0u32
            },
    )
}

/// What the caller is to do next.
#[derive(Clone, Copy, Debug, PartialEq, Eq, Structural)]
pub enum Action {
    /// Nothing: the block is complete and its output is written.
    Done,
    /// A full input block is gathered. Transform it for each channel, store
    /// the spectra, accumulate the products over all partitions, transform
    /// back and add into the overlap buffers; then call `resume`.
    Transform,
    /// Every sample of the block is taken. Mix the head of the overlap
    /// buffers with the input into the output, with `wet` as the share of
    /// the convolved signal; then call `finish`.
    Mix { wet: u32 },
}

/// A bank of spectra of `SPECTRUM_WORDS` words each, stored one after the
/// other.
pub struct SpectrumBank {
    pub words: Vec<u32>,
    pub slots: usize,
}

/// A bank of spectra as a value.
pub struct SpectrumBankView {
    pub words: Seq<u32>,
    pub slots: nat,
}

impl SpectrumBankView {
    /// The bank holds `slots` whole spectra, and no more than
    /// `MAX_PARTITIONS`.
    pub open spec fn wf(self) -> bool {
        &&& self.slots <= MAX_PARTITIONS
        &&& self.words.len() == self.slots * SPECTRUM_WORDS
    }

    /// The spectrum in slot `p`.
    pub open spec fn slot(self, p: int) -> Seq<u32> {
        self.words.subrange(p * SPECTRUM_WORDS, (p + 1) * SPECTRUM_WORDS)
    }

    /// The bank with slot `p` replaced by `spectrum`.
    pub open spec fn with_slot(self, p: int, spectrum: Seq<u32>) -> SpectrumBankView {
        SpectrumBankView {
            words: overlaid(self.words, p * SPECTRUM_WORDS, spectrum, 0, SPECTRUM_WORDS as int),
            ..self
        }
    }

    /// A bank of `slots` spectra that are all zero.
    pub open spec fn empty(slots: nat) -> SpectrumBankView {
        SpectrumBankView { words: silence((slots * SPECTRUM_WORDS) as nat), slots }
    }
}

impl View for SpectrumBank {
    type V = SpectrumBankView;

    open spec fn view(&self) -> SpectrumBankView {
        SpectrumBankView { words: self.words@, slots: self.slots as nat }
    }
}

impl SpectrumBank {
    /// Whether the bank is well formed, tested at run time.
    pub fn is_well_formed(&self) -> (ok: bool)
        ensures
            ok == self@.wf(),
    {
        self.slots <= MAX_PARTITIONS && self.words.len() == self.slots * SPECTRUM_WORDS
    }

    /// A bank of `slots` spectra that are all zero.
    pub fn new(slots: usize) -> (bank: SpectrumBank)
        requires
            slots <= MAX_PARTITIONS,
        ensures
            bank@ == SpectrumBankView::empty(slots as nat),
            bank@.wf(),
    {
        let bank = SpectrumBank { words: vec![0u32; slots * SPECTRUM_WORDS], slots };
        assert(bank@.words =~= silence((slots * SPECTRUM_WORDS) as nat));
        bank
    }

    /// The spectrum in slot `p`; none where the bank has no such slot.
    pub fn slot(&self, p: usize) -> (spectrum: Option<&[u32]>)
        requires
            self@.wf(),
        ensures
            spectrum is Some <==> p < self@.slots,
            spectrum matches Some(s) ==> s@ == self@.slot(p as int),
    {
        if p < self.slots {
            Some(
                slice_subrange(
                    self.words.as_slice(),
                    p * SPECTRUM_WORDS,
                    (p + 1) * SPECTRUM_WORDS,
                ),
            )
        } else {
            None
        }
    }

    /// Replaces the spectrum in slot `p`. Refused, with the bank unchanged,
    /// where the bank has no such slot or `spectrum` is not one spectrum
    /// long.
    pub fn store(&mut self, p: usize, spectrum: &[u32]) -> (stored: bool)
        requires
            old(self)@.wf(),
        ensures
            stored == (p < old(self)@.slots && spectrum@.len() == SPECTRUM_WORDS),
            stored ==> final(self)@ == old(self)@.with_slot(p as int, spectrum@),
            !stored ==> final(self)@ == old(self)@,
            final(self)@.wf(),
    {
        if p < self.slots && spectrum.len() == SPECTRUM_WORDS {
            let count: usize = copy_span(
                spectrum,
                0,
                self.words.as_mut_slice(),
                p * SPECTRUM_WORDS,
                SPECTRUM_WORDS,
            );
            true
        } else {
            false
        }
    }

    /// Sets every spectrum of the bank to zero.
    pub fn clear(&mut self)
        requires
            old(self)@.wf(),
        ensures
            final(self)@ == SpectrumBankView::empty(old(self)@.slots),
            final(self)@.wf(),
    {
        clear_buffer(self.words.as_mut_slice());
        assert(self@.words =~= SpectrumBankView::empty(old(self)@.slots).words);
    }
}

/// The convolution engine.
pub struct ConvolutionState {
    /// Spectrum of each partition of the impulse response.
    pub ir: SpectrumBank,
    /// Frequency-domain delay line of the left channel.
    pub fdl_l: SpectrumBank,
    /// Frequency-domain delay line of the right channel.
    pub fdl_r: SpectrumBank,
    /// Partitions of the loaded impulse response.
    pub num_partitions: usize,
    /// Input block being gathered, left channel.
    pub input_buffer_l: Vec<u32>,
    /// Input block being gathered, right channel.
    pub input_buffer_r: Vec<u32>,
    /// Samples gathered in the input block.
    pub input_pos: usize,
    /// Overlap buffer of the left channel.
    pub overlap_l: Vec<u32>,
    /// Overlap buffer of the right channel.
    pub overlap_r: Vec<u32>,
    /// Slot of the delay lines that the next spectrum is stored in.
    pub fdl_pos: usize,
    /// Whether an impulse response has been loaded.
    pub ir_loaded: bool,
    /// Samples of the block in progress that have been taken.
    pub cursor: usize,
    /// Share of the convolved signal in the block in progress, a sample word.
    pub wet: u32,
}

/// The convolution engine as a value.
pub struct ConvolutionView {
    pub ir: SpectrumBankView,
    pub fdl_l: SpectrumBankView,
    pub fdl_r: SpectrumBankView,
    pub num_partitions: nat,
    pub input_buffer_l: Seq<u32>,
    pub input_buffer_r: Seq<u32>,
    pub input_pos: nat,
    pub overlap_l: Seq<u32>,
    pub overlap_r: Seq<u32>,
    pub fdl_pos: nat,
    pub ir_loaded: bool,
    pub cursor: nat,
    pub wet: u32,
}

impl ConvolutionView {
    /// Each delay line has one slot per partition of the impulse response,
    /// the line's position is one of its slots, and every buffer has its
    /// fixed length.
    pub open spec fn wf(self) -> bool {
        &&& self.ir.wf()
        &&& self.fdl_l.wf()
        &&& self.fdl_r.wf()
        &&& self.ir.slots == self.num_partitions
        &&& self.fdl_l.slots == self.num_partitions
        &&& self.fdl_r.slots == self.num_partitions
        &&& self.input_buffer_l.len() == BLOCK_SIZE
        &&& self.input_buffer_r.len() == BLOCK_SIZE
        &&& self.input_pos <= BLOCK_SIZE
        &&& self.overlap_l.len() == FFT_SIZE
        &&& self.overlap_r.len() == FFT_SIZE
        &&& (self.fdl_pos < self.num_partitions || self.fdl_pos == 0)
        &&& self.cursor <= MAX_BUFFER_SIZE
    }

    /// The engine of `ConvolutionState::new`: nothing loaded, every buffer
    /// silent.
    pub open spec fn fresh() -> ConvolutionView {
        ConvolutionView {
            ir: SpectrumBankView::empty(0),
            fdl_l: SpectrumBankView::empty(0),
            fdl_r: SpectrumBankView::empty(0),
            num_partitions: 0,
            input_buffer_l: silence(BLOCK_SIZE as nat),
            input_buffer_r: silence(BLOCK_SIZE as nat),
            input_pos: 0,
            overlap_l: silence(FFT_SIZE as nat),
            overlap_r: silence(FFT_SIZE as nat),
            fdl_pos: 0,
            ir_loaded: false,
            cursor: 0,
            wet: ZERO,
        }
    }

    /// There is nothing to convolve with: no impulse response is loaded, or
    /// the loaded one is empty. A block is then passed through unchanged.
    pub open spec fn bypassed(self) -> bool {
        !self.ir_loaded || self.num_partitions == 0
    }

    /// The engine after `load_ir`: the spectra installed, delay lines of as
    /// many silent slots, silent overlap buffers, every position at zero.
    pub open spec fn loaded(self, spectra: Seq<u32>, partitions: nat) -> ConvolutionView {
        ConvolutionView {
            ir: SpectrumBankView { words: spectra, slots: partitions },
            fdl_l: SpectrumBankView::empty(partitions),
            fdl_r: SpectrumBankView::empty(partitions),
            num_partitions: partitions,
            input_pos: 0,
            overlap_l: silence(FFT_SIZE as nat),
            overlap_r: silence(FFT_SIZE as nat),
            fdl_pos: 0,
            ir_loaded: true,
            cursor: 0,
            ..self
        }
    }

    /// The engine after `reset`: silent delay lines and overlap buffers,
    /// every position at zero. The impulse response stays.
    pub open spec fn reset(self) -> ConvolutionView {
        ConvolutionView {
            fdl_l: SpectrumBankView::empty(self.fdl_l.slots),
            fdl_r: SpectrumBankView::empty(self.fdl_r.slots),
            input_pos: 0,
            overlap_l: silence(FFT_SIZE as nat),
            overlap_r: silence(FFT_SIZE as nat),
            fdl_pos: 0,
            cursor: 0,
            ..self
        }
    }

    /// The engine at the opening of a block: no sample taken, the mix set.
    pub open spec fn opened(self, wet: u32) -> ConvolutionView {
        ConvolutionView { cursor: 0, wet, ..self }
    }

    /// The number of samples that gathering takes from a block of `n`
    /// samples: as many as the input block has room for, or as many as the
    /// block has left.
    pub open spec fn take_count(self, n: nat) -> nat {
        if self.cursor <= n {
            min_len(BLOCK_SIZE - self.input_pos, n - self.cursor) as nat
        } else {
            0
        }
    }

    /// The engine after gathering from the block `(left, right)`: the
    /// samples from `cursor` on are appended to the input block.
    pub open spec fn filled(self, left: Seq<u32>, right: Seq<u32>) -> ConvolutionView {
        let k = self.take_count(left.len());
        ConvolutionView {
            input_buffer_l: overlaid(
                self.input_buffer_l,
                self.input_pos as int,
                left,
                self.cursor as int,
                k as int,
            ),
            input_buffer_r: overlaid(
                self.input_buffer_r,
                self.input_pos as int,
                right,
                self.cursor as int,
                k as int,
            ),
            input_pos: self.input_pos + k,
            cursor: self.cursor + k,
            ..self
        }
    }

    /// A full input block waits to be transformed.
    pub open spec fn pending(self) -> bool {
        self.input_pos == BLOCK_SIZE
    }

    /// The mix is fully dry: the share of the convolved signal is zero.
    pub open spec fn fully_dry(self) -> bool {
        magnitude(self.wet) == 0
    }

    /// Every sample is gathered and the mix is fully dry, so the output is
    /// the input and nothing is left to compute.
    pub open spec fn passes_dry(self) -> bool {
        !self.pending() && self.fully_dry()
    }

    /// What is due in this state: the transform of a full input block, or
    /// else the mix, unless the mix is fully dry.
    pub open spec fn due(self) -> Action {
        if self.pending() {
            Action::Transform
        } else if self.fully_dry() {
            Action::Done
        } else {
            Action::Mix { wet: self.wet }
        }
    }

    /// The engine once gathering has stopped: closed as by `finish` where
    /// the block passes dry, and as it is otherwise.
    pub open spec fn settled(self, n: nat) -> ConvolutionView {
        if self.passes_dry() {
            self.finished(n)
        } else {
            self
        }
    }

    /// The arena once gathering has stopped: where the block passes dry,
    /// each input block is copied to the output block of its channel.
    pub open spec fn delivered(self, arena: ArenaView) -> ArenaView {
        if self.passes_dry() {
            arena.passed_through()
        } else {
            arena
        }
    }

    /// The engine after a transform: the input block is empty again and the
    /// delay lines have moved on by one slot.
    pub open spec fn advanced(self) -> ConvolutionView {
        ConvolutionView {
            input_pos: 0,
            fdl_pos: ((self.fdl_pos + 1) % self.num_partitions) as nat,
            ..self
        }
    }

    /// The engine after `finish` on a block of `n` samples: the overlap
    /// buffers moved left by the block, their end silent, no sample taken.
    pub open spec fn finished(self, n: nat) -> ConvolutionView {
        ConvolutionView {
            overlap_l: shifted_left(self.overlap_l, n as int),
            overlap_r: shifted_left(self.overlap_r, n as int),
            cursor: 0,
            ..self
        }
    }

    /// The engine with the spectrum of the block just transformed stored in
    /// the delay line of a channel, at the line's position.
    pub open spec fn with_spectrum(self, channel: u32, spectrum: Seq<u32>) -> ConvolutionView {
        if channel == 0 {
            ConvolutionView { fdl_l: self.fdl_l.with_slot(self.fdl_pos as int, spectrum), ..self }
        } else {
            ConvolutionView { fdl_r: self.fdl_r.with_slot(self.fdl_pos as int, spectrum), ..self }
        }
    }
}

impl View for ConvolutionState {
    type V = ConvolutionView;

    open spec fn view(&self) -> ConvolutionView {
        ConvolutionView {
            ir: self.ir@,
            fdl_l: self.fdl_l@,
            fdl_r: self.fdl_r@,
            num_partitions: self.num_partitions as nat,
            input_buffer_l: self.input_buffer_l@,
            input_buffer_r: self.input_buffer_r@,
            input_pos: self.input_pos as nat,
            overlap_l: self.overlap_l@,
            overlap_r: self.overlap_r@,
            fdl_pos: self.fdl_pos as nat,
            ir_loaded: self.ir_loaded,
            cursor: self.cursor as nat,
            wet: self.wet,
        }
    }
}

impl ConvolutionState {
    /// Each delay line has one slot per partition of the impulse response,
    /// the line's position is one of its slots, and every buffer has its
    /// fixed length.
    pub open spec fn wf(&self) -> bool {
        self@.wf()
    }

    /// Whether the engine is well formed, tested at run time.
    pub fn is_well_formed(&self) -> (ok: bool)
        ensures
            ok == self.wf(),
    {
        self.ir.is_well_formed() && self.fdl_l.is_well_formed() && self.fdl_r.is_well_formed()
            && self.ir.slots == self.num_partitions && self.fdl_l.slots == self.num_partitions
            && self.fdl_r.slots == self.num_partitions && self.input_buffer_l.len() == BLOCK_SIZE
            && self.input_buffer_r.len() == BLOCK_SIZE && self.input_pos <= BLOCK_SIZE
            && self.overlap_l.len() == FFT_SIZE && self.overlap_r.len() == FFT_SIZE && (
        self.fdl_pos < self.num_partitions || self.fdl_pos == 0) && self.cursor <= MAX_BUFFER_SIZE
    }

    /// An engine with nothing loaded and every buffer silent.
    pub fn new() -> (state: ConvolutionState)
        ensures
            state.wf(),
            state@ == ConvolutionView::fresh(),
    {
        let state = ConvolutionState {
            ir: SpectrumBank::new(0),
            fdl_l: SpectrumBank::new(0),
            fdl_r: SpectrumBank::new(0),
            num_partitions: 0,
            input_buffer_l: vec![0u32; BLOCK_SIZE],
            input_buffer_r: vec![0u32; BLOCK_SIZE],
            input_pos: 0,
            overlap_l: vec![0u32; FFT_SIZE],
            overlap_r: vec![0u32; FFT_SIZE],
            fdl_pos: 0,
            ir_loaded: false,
            cursor: 0,
            wet: ZERO,
        };
        assert(state@.input_buffer_l =~= silence(BLOCK_SIZE as nat));
        assert(state@.input_buffer_r =~= silence(BLOCK_SIZE as nat));
        assert(state@.overlap_l =~= silence(FFT_SIZE as nat));
        assert(state@.overlap_r =~= silence(FFT_SIZE as nat));
        state
    }
}

/// The number of partitions of an impulse response of `length` frames.
pub fn partition_count(length: u32) -> (n: usize)
    ensures
        n == partitions_for(length as nat),
        n <= MAX_PARTITIONS,
{
    let blocks: u64 = (length as u64 + (BLOCK_SIZE as u64 - 1)) / (BLOCK_SIZE as u64);
    if blocks <= MAX_PARTITIONS as u64 {
        blocks as usize
    } else {
        MAX_PARTITIONS
    }
}

/// Where partition `p` of an impulse response lies in the arena's impulse
/// response region: the offset of its first word and the number of its
/// frames. A response of two channels has its frames interleaved, two words
/// each; any other has one word per frame. There is no such partition from
/// `partition_count(length)` on: what lies behind the last partition is not
/// used. Every word of the span is inside the region.
pub fn partition_span(p: usize, length: u32, channels: u32) -> (span: Option<(usize, usize)>)
    ensures
        span is Some <==> p < partitions_for(length as nat),
        span matches Some((first, frames)) ==> {
            let stride: int = if channels == 2 {
                2
            } else {
                1
            };
            &&& first == p * BLOCK_SIZE * stride
            &&& frames == min_len(BLOCK_SIZE as int, length - p * BLOCK_SIZE)
            &&& 1 <= frames
            &&& first + frames * stride <= MAX_IR_SAMPLES
        },
{
    if p < partition_count(length) {
        let start: usize = p * BLOCK_SIZE;
        let left: usize = length as usize - start;
        let frames: usize = if left < BLOCK_SIZE {
            left
        } else {
            BLOCK_SIZE
        };
        let stride: usize = if channels == 2 {
            2
        } else {
            1
        };
        Some((start * stride, frames))
    } else {
        None
    }
}

/// Installs an impulse response of `length` frames, given as the spectra of
/// its partitions in order, `SPECTRUM_WORDS` words each. The delay lines get
/// one silent slot per partition, the overlap buffers are silenced and every
/// position returns to zero; the arena records the length and marks the
/// response ready. Refused, with engine and arena unchanged, exactly when the
/// arena is not initialized or `spectra` does not hold
/// `partition_count(length)` spectra.
pub fn load_ir(state: &mut ConvolutionState, arena: &mut Arena, length: u32, spectra: &[u32]) -> (loaded:
    bool)
    requires
        old(state).wf(),
        old(arena).wf(),
    ensures
        loaded == (old(arena)@.engine is Some && spectra@.len() == partitions_for(length as nat)
            * SPECTRUM_WORDS),
        loaded ==> final(state)@ == old(state)@.loaded(spectra@, partitions_for(length as nat))
            && final(arena)@ == old(arena)@.with_ir_len(length),
        !loaded ==> final(state)@ == old(state)@ && final(arena)@ == old(arena)@,
        final(state).wf(),
        final(arena).wf(),
{
    let n: usize = partition_count(length);
    if arena.engine.is_none() || spectra.len() != n * SPECTRUM_WORDS {
        return false;
    }
    state.ir = SpectrumBank { words: slice_to_vec(spectra), slots: n };
    state.fdl_l = SpectrumBank::new(n);
    state.fdl_r = SpectrumBank::new(n);
    state.num_partitions = n;
    state.fdl_pos = 0;
    clear_buffer(state.overlap_l.as_mut_slice());
    clear_buffer(state.overlap_r.as_mut_slice());
    state.input_pos = 0;
    state.cursor = 0;
    state.ir_loaded = true;
    set_ir_len(arena, length);
    proof {
        let target = old(state)@.loaded(spectra@, n as nat);
        assert(state@.overlap_l =~= target.overlap_l);
        assert(state@.overlap_r =~= target.overlap_r);
    }
    true
}

/// Silences the delay lines and the overlap buffers and returns every
/// position to zero. The impulse response stays loaded.
pub fn reset(state: &mut ConvolutionState)
    requires
        old(state).wf(),
    ensures
        final(state)@ == old(state)@.reset(),
        final(state).wf(),
{
    clear_buffer(state.overlap_l.as_mut_slice());
    clear_buffer(state.overlap_r.as_mut_slice());
    state.fdl_l.clear();
    state.fdl_r.clear();
    state.input_pos = 0;
    state.fdl_pos = 0;
    state.cursor = 0;
    proof {
        let target = old(state)@.reset();
        assert(state@.overlap_l =~= target.overlap_l);
        assert(state@.overlap_r =~= target.overlap_r);
    }
}

/// Appends the samples of the arena's input blocks from `cursor` on to the
/// input block of the engine, as far as there is room and samples are left.
fn gather(state: &mut ConvolutionState, arena: &Arena)
    requires
        old(state).wf(),
        arena.wf(),
    ensures
        final(state)@ == old(state)@.filled(arena@.input(0), arena@.input(1)),
        final(state).wf(),
{
    let n: usize = match arena.engine {
        Some(e) => e.buffer_size as usize,
        None => 0,
    };
    let left = slice_subrange(arena.input_l.as_slice(), 0, n);
    let right = slice_subrange(arena.input_r.as_slice(), 0, n);
    if state.cursor <= n {
        let room: usize = BLOCK_SIZE - state.input_pos;
        let taken: usize = copy_span(
            left,
            state.cursor,
            state.input_buffer_l.as_mut_slice(),
            state.input_pos,
            room,
        );
        let same: usize = copy_span(
            right,
            state.cursor,
            state.input_buffer_r.as_mut_slice(),
            state.input_pos,
            room,
        );
        state.input_pos = state.input_pos + taken;
        state.cursor = state.cursor + taken;
    } else {
        proof {
            let target = old(state)@.filled(arena@.input(0), arena@.input(1));
            assert(state@.input_buffer_l =~= target.input_buffer_l);
            assert(state@.input_buffer_r =~= target.input_buffer_r);
        }
    }
}

/// Moves the overlap buffers left by `n` samples and silences their end.
fn close_block(state: &mut ConvolutionState, n: usize)
    requires
        old(state).wf(),
    ensures
        final(state)@ == old(state)@.finished(n as nat),
        final(state).wf(),
{
    shift_left(state.overlap_l.as_mut_slice(), n);
    shift_left(state.overlap_r.as_mut_slice(), n);
    state.cursor = 0;
}

/// Acts on where gathering has stopped: a full input block is to be
/// transformed; a fully dry block is written and closed at once; any other
/// block is to be mixed.
fn settle(state: &mut ConvolutionState, arena: &mut Arena) -> (action: Action)
    requires
        old(state).wf(),
        old(arena).wf(),
    ensures
        action == old(state)@.due(),
        final(state)@ == old(state)@.settled(old(arena)@.block_len()),
        final(arena)@ == old(state)@.delivered(old(arena)@),
        final(state).wf(),
        final(arena).wf(),
{
    if state.input_pos == BLOCK_SIZE {
        Action::Transform
    } else if word_abs(state.wet) == 0 {
        let n: usize = match arena.engine {
            Some(e) => e.buffer_size as usize,
            None => 0,
        };
        pass_through(arena);
        close_block(state, n);
        Action::Done
    } else {
        Action::Mix { wet: state.wet }
    }
}

/// Opens a block. `dry_wet` is the share of the convolved signal, a sample
/// word that is brought into `[0, 1]`.
///
/// With nothing to convolve with, or before the engine is initialized, the
/// input blocks are copied to the output blocks and the block is done. With
/// an impulse response loaded, samples are gathered from the start of the
/// input blocks until the engine's input block is full or the samples are
/// used up. A full input block is then due for its transform. Otherwise the
/// mix is due; but where the share of the convolved signal is zero the
/// output is the input, so the input blocks are copied to the output
/// blocks, the block is closed as by `finish`, and the block is done.
pub fn process(state: &mut ConvolutionState, arena: &mut Arena, dry_wet: u32) -> (action: Action)
    requires
        old(state).wf(),
        old(arena).wf(),
    ensures
        final(state).wf(),
        final(arena).wf(),
        old(state)@.bypassed() || old(arena)@.engine is None ==> {
            &&& action == Action::Done
            &&& final(state)@ == old(state)@
            &&& final(arena)@ == old(arena)@.passed_through()
        },
        !(old(state)@.bypassed() || old(arena)@.engine is None) ==> {
            let gathered = old(state)@.opened(clamped(dry_wet, ZERO, ONE)).filled(
                old(arena)@.input(0),
                old(arena)@.input(1),
            );
            &&& action == gathered.due()
            &&& final(state)@ == gathered.settled(old(arena)@.block_len())
            &&& final(arena)@ == gathered.delivered(old(arena)@)
        },
{
    if !state.ir_loaded || state.num_partitions == 0 || arena.engine.is_none() {
        pass_through(arena);
        return Action::Done;
    }
    proof {
        lemma_order_of_plain_words(ZERO, ONE);
    }
    state.wet = word_clamp(dry_wet, ZERO, ONE);
    state.cursor = 0;
    gather(state, arena);
    settle(state, arena)
}

/// Continues a block after a transform: the input block is emptied, the
/// delay lines move on by one slot, and gathering goes on where it stopped,
/// with the same end as in `process`. Where no transform was due, nothing
/// changes.
pub fn resume(state: &mut ConvolutionState, arena: &mut Arena) -> (action: Action)
    requires
        old(state).wf(),
        old(arena).wf(),
    ensures
        final(state).wf(),
        final(arena).wf(),
        !(old(state)@.pending() && old(state)@.num_partitions > 0) ==> {
            &&& action == old(state)@.due()
            &&& final(state)@ == old(state)@
            &&& final(arena)@ == old(arena)@
        },
        old(state)@.pending() && old(state)@.num_partitions > 0 ==> {
            let gathered = old(state)@.advanced().filled(
                old(arena)@.input(0),
                old(arena)@.input(1),
            );
            &&& action == gathered.due()
            &&& final(state)@ == gathered.settled(old(arena)@.block_len())
            &&& final(arena)@ == gathered.delivered(old(arena)@)
        },
{
    if state.input_pos == BLOCK_SIZE && state.num_partitions > 0 {
        state.input_pos = 0;
        state.fdl_pos = (state.fdl_pos + 1) % state.num_partitions;
        gather(state, arena);
        settle(state, arena)
    } else if state.input_pos == BLOCK_SIZE {
        Action::Transform
    } else if word_abs(state.wet) == 0 {
        Action::Done
    } else {
        Action::Mix { wet: state.wet }
    }
}

/// Closes a block after the mix: the overlap buffers move left by the block
/// size and their vacated end is silenced.
pub fn finish(state: &mut ConvolutionState, arena: &Arena)
    requires
        old(state).wf(),
        arena.wf(),
    ensures
        final(state)@ == old(state)@.finished(arena@.block_len()),
        final(state).wf(),
{
    let n: usize = match arena.engine {
        Some(e) => e.buffer_size as usize,
        None => 0,
    };
    close_block(state, n);
}

/// The delay-line slot that holds the spectrum for partition `p`: the one
/// stored `p` blocks before the line's position. None where the impulse
/// response has no partition `p`.
pub fn fdl_slot(state: &ConvolutionState, p: usize) -> (slot: Option<usize>)
    requires
        state.wf(),
    ensures
        slot is Some <==> p < state@.num_partitions,
        slot matches Some(i) ==> i == slot_for(state@.fdl_pos, p as nat, state@.num_partitions)
            && i < state@.num_partitions,
{
    if p < state.num_partitions {
        let n: usize = state.num_partitions;
        proof {
            lemma_mod_add_multiples_vanish(state.fdl_pos as int - p as int, n as int);
        }
        Some((state.fdl_pos + n - p) % n)
    } else {
        None
    }
}

/// Lays the gathered input block of a channel out as transform input in
/// `scratch`: each sample as the real part of its bin, zero everywhere else.
/// Refused, with `scratch` unchanged, for a channel other than 0 and 1 or a
/// scratch span that is not one spectrum long.
pub fn padded_input(state: &ConvolutionState, channel: u32, scratch: &mut [u32]) -> (written: bool)
    requires
        state.wf(),
    ensures
        written == (channel < 2 && old(scratch)@.len() == SPECTRUM_WORDS),
        written ==> final(scratch)@ == padded(
            if channel == 0 {
                state@.input_buffer_l
            } else {
                state@.input_buffer_r
            },
        ),
        !written ==> final(scratch)@ == old(scratch)@,
{
    if channel >= 2 || scratch.len() != SPECTRUM_WORDS {
        return false;
    }
    clear_buffer(scratch);
    let mut i: usize = 0;
    while i < BLOCK_SIZE
        invariant
            state.wf(),
            channel < 2,
            scratch@.len() == SPECTRUM_WORDS,
            i <= BLOCK_SIZE,
            forall|k: int|
                0 <= k < 2 * i ==> scratch@[k] == (if k % 2 == 0 {
                    if channel == 0 {
                        state@.input_buffer_l[k / 2]
                    } else {
                        state@.input_buffer_r[k / 2]
                    }
                } else {
                    0u32
                }),
            forall|k: int| 2 * i <= k < SPECTRUM_WORDS ==> scratch@[k] == 0,
        decreases BLOCK_SIZE - i,
    {
        let w: u32 = if channel == 0 {
            state.input_buffer_l[i]
        } else {
            state.input_buffer_r[i]
        };
        scratch[2 * i] = w;
        i += 1;
    }
    true
}

/// Stores the spectrum of the block just transformed in the delay line of a
/// channel, at the line's position. Refused, with the engine unchanged, for
/// a channel other than 0 and 1, a span that is not one spectrum long, or an
/// engine without partitions.
pub fn store_spectrum(state: &mut ConvolutionState, channel: u32, spectrum: &[u32]) -> (stored:
    bool)
    requires
        old(state).wf(),
    ensures
        stored == (channel < 2 && spectrum@.len() == SPECTRUM_WORDS && old(state)@.num_partitions
            > 0),
        stored ==> final(state)@ == old(state)@.with_spectrum(channel, spectrum@),
        !stored ==> final(state)@ == old(state)@,
        final(state).wf(),
{
    if channel == 0 {
        state.fdl_l.store(state.fdl_pos, spectrum)
    } else if channel == 1 {
        state.fdl_r.store(state.fdl_pos, spectrum)
    } else {
        false
    }
}

/// The partitions cover the impulse response and nothing more: the last one
/// starts inside the response, and together they reach its end unless the
/// response is longer than `MAX_PARTITIONS` blocks, in which case exactly the
/// first `MAX_PARTITIONS` blocks are kept.
pub proof fn lemma_partitions_cover(length: nat)
    ensures
        length == 0 <==> partitions_for(length) == 0,
        length > 0 ==> (partitions_for(length) - 1) * BLOCK_SIZE < length,
        length <= MAX_PARTITIONS * BLOCK_SIZE ==> partitions_for(length) * BLOCK_SIZE >= length,
        length > MAX_PARTITIONS * BLOCK_SIZE ==> partitions_for(length) == MAX_PARTITIONS,
{
}

/// The spectrum stored at one block is met by the next partition at the
/// next block: when the delay lines have moved on by one slot, partition
/// `p + 1` reads the slot that partition `p` read before. Partition 0 reads
/// the slot just stored.
pub proof fn lemma_slot_alignment(pos: nat, p: nat, n: nat)
    requires
        pos < n,
        p + 1 < n,
    ensures
        slot_for(pos, 0, n) == pos,
        slot_for(((pos as int + 1) % (n as int)) as nat, p + 1, n) == slot_for(pos, p, n),
        slot_for(pos, p, n) < n,
{
    let m: int = n as int;
    let q: int = pos as int;
    lemma_small_mod(pos, n);
    if q + 1 < m {
        lemma_small_mod(pos + 1, n);
    } else {
        lemma_mod_add_multiples_vanish(0, m);
        lemma_small_mod(0, n);
        assert((q + 1) % m == 0);
        lemma_mod_add_multiples_vanish(0 - (p as int + 1), m);
        assert(m + (0 - (p as int + 1)) == q - p as int);
    }
}

/// How a block of `remaining` samples is divided when `pos` samples are
/// already gathered: either the input block fills, and one transform more is
/// due than for what is left after it, or the samples run out first, no
/// transform is due and all of them are gathered. Over a whole block the
/// transforms number `(pos + remaining) / BLOCK_SIZE`, and
/// `(pos + remaining) % BLOCK_SIZE` samples stay gathered for the next.
pub proof fn lemma_gather_schedule(pos: nat, remaining: nat)
    requires
        pos < BLOCK_SIZE,
    ensures
        ({
            let b: int = BLOCK_SIZE as int;
            let total: int = pos as int + remaining as int;
            let k: int = min_len(b - pos as int, remaining as int);
            &&& pos + k == b ==> total / b == 1 + (remaining as int - k) / b && total % b == (
            remaining as int - k) % b
            &&& pos + k < b ==> k == remaining && total / b == 0 && total % b == total
        }),
{
}

/// Gathering loses no sample and keeps their order: what is gathered
/// afterwards is what was gathered before, followed by the samples taken
/// from the block, from `cursor` on.
pub proof fn lemma_gather_appends(state: ConvolutionView, left: Seq<u32>, right: Seq<u32>)
    requires
        state.wf(),
        left.len() == right.len(),
        state.cursor <= left.len() <= MAX_BUFFER_SIZE,
    ensures
        ({
            let after = state.filled(left, right);
            let k = state.take_count(left.len());
            &&& after.wf()
            &&& after.input_pos == state.input_pos + k
            &&& after.cursor == state.cursor + k
            &&& after.input_buffer_l.take(after.input_pos as int) == state.input_buffer_l.take(
                state.input_pos as int,
            ) + left.subrange(state.cursor as int, (state.cursor + k) as int)
            &&& after.input_buffer_r.take(after.input_pos as int) == state.input_buffer_r.take(
                state.input_pos as int,
            ) + right.subrange(state.cursor as int, (state.cursor + k) as int)
        }),
{
}

/// Resetting an engine leaves it as loading its impulse response again
/// would: for an engine that holds the spectra of a response, `reset` and
/// `load_ir` of those spectra end in the same state, and a second `reset`
/// changes nothing.
pub proof fn lemma_reset_restores_loaded_state(state: ConvolutionView)
    requires
        state.wf(),
        state.ir_loaded,
    ensures
        state.reset() == state.loaded(state.ir.words, state.num_partitions),
        state.reset().reset() == state.reset(),
        state.reset().wf(),
{
}

/// With the share of the convolved signal at zero a block comes out as it
/// went in, whatever impulse response is loaded: once every sample is
/// gathered nothing is left to compute, and the output block of each channel
/// equals its input block. Every `dry_wet` that is not above zero counts,
/// since it is brought to zero.
pub proof fn lemma_fully_dry_copies_input(
    state: ConvolutionView,
    arena: ArenaView,
    dry_wet: u32,
    channel: u32,
)
    requires
        state.wf(),
        arena.wf(),
        channel < 2,
        le(dry_wet, ZERO),
        state.wet == clamped(dry_wet, ZERO, ONE),
        !state.pending(),
    ensures
        state.fully_dry(),
        state.due() == Action::Done,
        state.delivered(arena).output(channel) == arena.input(channel),
{
    lemma_word_bits(0);
    lemma_word_bits(dry_wet);
    lemma_bypass_copies_input(arena, channel);
}

/// Without an impulse response a block comes out as it went in: the output
/// block of each channel equals its input block.
pub proof fn lemma_bypass_copies_input(arena: ArenaView, channel: u32)
    requires
        arena.wf(),
        channel < 2,
    ensures
        arena.passed_through().output(channel) == arena.input(channel),
{
}

/// Right after `init_engine` a block of convolution on an engine without an
/// impulse response is silent: the input blocks that `init_engine` zeroed
/// are passed through to the output blocks.
pub proof fn lemma_silent_after_init(
    before: ArenaView,
    sample_rate: u32,
    buffer_size: u32,
    channel: u32,
)
    requires
        before.wf(),
        init_outcome(sample_rate, buffer_size) is Ok,
        channel < 2,
    ensures
        before.initialized(sample_rate, buffer_size).passed_through().output(channel) == silence(
            buffer_size as nat,
        ),
{
    let arena = before.initialized(sample_rate, buffer_size);
    lemma_init_silences_blocks(before, sample_rate, buffer_size, channel);
    lemma_bypass_copies_input(arena, channel);
}

} // verus!
