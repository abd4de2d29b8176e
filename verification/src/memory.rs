//! The sample arena: every region of sample storage the engine uses, each
//! with a capacity fixed when the arena is made, and the engine state that
//! says how much of each region is in use.
//!
//! The regions are owned by one `Arena` value. Views handed out are bounded by
//! the configured block size or by the recorded length of loaded material, so
//! no view reaches past what its region holds.
use vstd::prelude::*;
use vstd::slice::slice_subrange;
use crate::sample::{le, word_le, lemma_order_of_plain_words, lemma_word_bits};
use crate::simd_utils::{clear_buffer, copy_buffer};

verus! {

/// Smallest block size, in samples, that `init_engine` accepts.
pub const MIN_BUFFER_SIZE: u32 = 32;

/// Capacity of each input and output region, in samples, and the largest
/// block size that `init_engine` accepts.
pub const MAX_BUFFER_SIZE: usize = 512;

/// Capacity of each work region, in samples.
pub const WORK_BUFFER_SIZE: usize = 512;

/// Capacity of the granular source region: ten seconds of stereo at 44.1 kHz.
pub const MAX_GRANULAR_SOURCE_SAMPLES: usize = 44100 * 10 * 2;

/// Capacity of the impulse response region: five seconds of stereo at 48 kHz.
pub const MAX_IR_SAMPLES: usize = 48000 * 5 * 2;

/// Flag: the engine is initialized.
pub const FLAG_INITIALIZED: u32 = 1;

/// Flag: a granular source is loaded.
pub const FLAG_GRANULAR_READY: u32 = 2;

/// Flag: an impulse response is loaded.
pub const FLAG_IR_READY: u32 = 4;

/// The sample word of 8000, the lowest sample rate in Hz that is accepted.
pub const MIN_SAMPLE_RATE: u32 = 0x45fa_0000;

/// The sample word of 192000, the highest sample rate in Hz that is accepted.
pub const MAX_SAMPLE_RATE: u32 = 0x483b_8000;

/// The sample word of 44100, the rate reported while the engine is not
/// initialized.
pub const DEFAULT_SAMPLE_RATE: u32 = 0x472c_4400;

/// The block size reported while the engine is not initialized.
pub const DEFAULT_BUFFER_SIZE: u32 = 128;

/// `n` words of positive zero.
pub open spec fn silence(n: nat) -> Seq<u32> {
    Seq::new(n, |i: int| 0u32)
}

/// The sample rate lies in `[8000, 192000]` Hz. A NaN does not.
pub open spec fn valid_sample_rate(rate: u32) -> bool {
    le(MIN_SAMPLE_RATE, rate) && le(rate, MAX_SAMPLE_RATE)
}

/// The block size lies in `[32, 512]` samples.
pub open spec fn valid_buffer_size(size: u32) -> bool {
    MIN_BUFFER_SIZE <= size <= MAX_BUFFER_SIZE
}

/// The flag `flag` is set in `flags`.
pub open spec fn has_flag(flags: u32, flag: u32) -> bool {
    flags & flag != 0
}

/// Why `init_engine` refused a configuration.
#[derive(Clone, Copy, Debug, PartialEq, Eq, Structural)]
pub enum InitError {
    /// The sample rate is outside `[8000, 192000]` Hz or is NaN.
    BadSampleRate,
    /// The block size is outside `[32, 512]` samples.
    BadBufferSize,
}

/// What `init_engine` answers for a configuration. The sample rate is judged
/// first.
pub open spec fn init_outcome(sample_rate: u32, buffer_size: u32) -> Result<(), InitError> {
    if !valid_sample_rate(sample_rate) {
        Err(InitError::BadSampleRate)
    } else if !valid_buffer_size(buffer_size) {
        Err(InitError::BadBufferSize)
    } else {
        Ok(())
    }
}

/// One region of the arena.
#[derive(Clone, Copy, Debug, PartialEq, Eq, Structural)]
pub enum Region {
    InputLeft,
    InputRight,
    OutputLeft,
    OutputRight,
    Work1,
    Work2,
    GranularSource,
    ImpulseResponse,
}

impl Region {
    /// The fixed capacity of the region, in samples.
    pub open spec fn capacity(self) -> nat {
        match self {
            Region::InputLeft | Region::InputRight | Region::OutputLeft | Region::OutputRight => MAX_BUFFER_SIZE as nat,
            Region::Work1 | Region::Work2 => WORK_BUFFER_SIZE as nat,
            Region::GranularSource => MAX_GRANULAR_SOURCE_SAMPLES as nat,
            Region::ImpulseResponse => MAX_IR_SAMPLES as nat,
        }
    }
}

/// The engine's configuration and readiness.
#[derive(Clone, Copy, Debug, PartialEq, Eq, Structural)]
pub struct EngineState {
    /// Sample rate in Hz, as a sample word.
    pub sample_rate: u32,
    /// Samples per processed block.
    pub buffer_size: u32,
    /// Readiness flags, a union of the `FLAG_` constants.
    pub flags: u32,
    /// Samples of the granular source region that hold loaded material.
    pub granular_source_len: u32,
    /// Samples of the impulse response region that hold loaded material.
    pub ir_len: u32,
}

impl EngineState {
    /// The state is one that `init_engine` and the length setters can leave:
    /// rate and block size in range, the initialized flag set, and both
    /// recorded lengths within their regions.
    pub open spec fn wf(self) -> bool {
        &&& valid_sample_rate(self.sample_rate)
        &&& valid_buffer_size(self.buffer_size)
        &&& has_flag(self.flags, FLAG_INITIALIZED)
        &&& self.granular_source_len <= MAX_GRANULAR_SOURCE_SAMPLES
        &&& self.ir_len <= MAX_IR_SAMPLES
    }
}

/// The arena: engine state, present once initialized, and the sample regions.
pub struct Arena {
    pub engine: Option<EngineState>,
    pub input_l: Vec<u32>,
    pub input_r: Vec<u32>,
    pub output_l: Vec<u32>,
    pub output_r: Vec<u32>,
    pub work_1: Vec<u32>,
    pub work_2: Vec<u32>,
    pub granular_source: Vec<u32>,
    pub ir: Vec<u32>,
}

/// The arena as a value: its engine state and the contents of each region.
pub struct ArenaView {
    pub engine: Option<EngineState>,
    pub input_l: Seq<u32>,
    pub input_r: Seq<u32>,
    pub output_l: Seq<u32>,
    pub output_r: Seq<u32>,
    pub work_1: Seq<u32>,
    pub work_2: Seq<u32>,
    pub granular_source: Seq<u32>,
    pub ir: Seq<u32>,
}

impl ArenaView {
    /// Every region has its fixed capacity, and the engine state, where
    /// present, is well formed.
    pub open spec fn wf(self) -> bool {
        &&& self.input_l.len() == MAX_BUFFER_SIZE
        &&& self.input_r.len() == MAX_BUFFER_SIZE
        &&& self.output_l.len() == MAX_BUFFER_SIZE
        &&& self.output_r.len() == MAX_BUFFER_SIZE
        &&& self.work_1.len() == WORK_BUFFER_SIZE
        &&& self.work_2.len() == WORK_BUFFER_SIZE
        &&& self.granular_source.len() == MAX_GRANULAR_SOURCE_SAMPLES
        &&& self.ir.len() == MAX_IR_SAMPLES
        &&& (self.engine matches Some(e) ==> e.wf())
    }

    /// The number of samples in a block view: the configured block size, and
    /// zero while the engine is not initialized.
    pub open spec fn block_len(self) -> nat {
        match self.engine {
            Some(e) => e.buffer_size as nat,
            None => 0,
        }
    }

    /// A block view exists for this channel: the engine is initialized and
    /// the channel is 0 (left) or 1 (right).
    pub open spec fn has_block(self, channel: u32) -> bool {
        self.engine is Some && channel < 2
    }

    /// The input block of a channel: the first `block_len()` words of its
    /// region.
    pub open spec fn input(self, channel: u32) -> Seq<u32> {
        if channel == 0 {
            self.input_l.take(self.block_len() as int)
        } else {
            self.input_r.take(self.block_len() as int)
        }
    }

    /// The output block of a channel: the first `block_len()` words of its
    /// region.
    pub open spec fn output(self, channel: u32) -> Seq<u32> {
        if channel == 0 {
            self.output_l.take(self.block_len() as int)
        } else {
            self.output_r.take(self.block_len() as int)
        }
    }

    /// The arena with the output block of a channel replaced by `words`; what
    /// lies behind the block in the region stays.
    pub open spec fn with_output(self, channel: u32, words: Seq<u32>) -> ArenaView {
        if channel == 0 {
            ArenaView { output_l: words + self.output_l.skip(self.block_len() as int), ..self }
        } else {
            ArenaView { output_r: words + self.output_r.skip(self.block_len() as int), ..self }
        }
    }

    /// The arena after `cleanup`: the engine state dropped, every region as
    /// it was.
    pub open spec fn cleaned(self) -> ArenaView {
        ArenaView { engine: None, ..self }
    }

    /// The arena with both output blocks silent.
    pub open spec fn with_silent_outputs(self) -> ArenaView {
        self.with_output(0, silence(self.block_len())).with_output(1, silence(self.block_len()))
    }

    /// The arena with each input block copied to the output block of its
    /// channel.
    pub open spec fn passed_through(self) -> ArenaView {
        self.with_output(0, self.input(0)).with_output(1, self.input(1))
    }

    /// The contents of a region, over its whole capacity.
    pub open spec fn region(self, region: Region) -> Seq<u32> {
        match region {
            Region::InputLeft => self.input_l,
            Region::InputRight => self.input_r,
            Region::OutputLeft => self.output_l,
            Region::OutputRight => self.output_r,
            Region::Work1 => self.work_1,
            Region::Work2 => self.work_2,
            Region::GranularSource => self.granular_source,
            Region::ImpulseResponse => self.ir,
        }
    }

    /// The arena with the contents of one region replaced.
    pub open spec fn with_region(self, region: Region, words: Seq<u32>) -> ArenaView {
        match region {
            Region::InputLeft => ArenaView { input_l: words, ..self },
            Region::InputRight => ArenaView { input_r: words, ..self },
            Region::OutputLeft => ArenaView { output_l: words, ..self },
            Region::OutputRight => ArenaView { output_r: words, ..self },
            Region::Work1 => ArenaView { work_1: words, ..self },
            Region::Work2 => ArenaView { work_2: words, ..self },
            Region::GranularSource => ArenaView { granular_source: words, ..self },
            Region::ImpulseResponse => ArenaView { ir: words, ..self },
        }
    }

    /// The arena after a successful `init_engine`: a fresh engine state with
    /// only the initialized flag set, and every input, output and work region
    /// zeroed. The two regions for loaded material keep their contents.
    pub open spec fn initialized(self, sample_rate: u32, buffer_size: u32) -> ArenaView {
        ArenaView {
            engine: Some(
                EngineState {
                    sample_rate,
                    buffer_size,
                    flags: FLAG_INITIALIZED,
                    granular_source_len: 0,
                    ir_len: 0,
                },
            ),
            input_l: silence(MAX_BUFFER_SIZE as nat),
            input_r: silence(MAX_BUFFER_SIZE as nat),
            output_l: silence(MAX_BUFFER_SIZE as nat),
            output_r: silence(MAX_BUFFER_SIZE as nat),
            work_1: silence(WORK_BUFFER_SIZE as nat),
            work_2: silence(WORK_BUFFER_SIZE as nat),
            granular_source: self.granular_source,
            ir: self.ir,
        }
    }

    /// The loaded part of the granular source region; empty while the engine
    /// is not initialized.
    pub open spec fn granular_source_loaded(self) -> Seq<u32> {
        match self.engine {
            Some(e) => self.granular_source.take(e.granular_source_len as int),
            None => Seq::empty(),
        }
    }

    /// The loaded part of the impulse response region; empty while the engine
    /// is not initialized.
    pub open spec fn ir_loaded(self) -> Seq<u32> {
        match self.engine {
            Some(e) => self.ir.take(e.ir_len as int),
            None => Seq::empty(),
        }
    }

    /// The arena after `set_granular_source_len`: the length recorded, cut to
    /// the region's capacity, and the ready flag set. Unchanged while the
    /// engine is not initialized.
    pub open spec fn with_granular_source_len(self, length: u32) -> ArenaView {
        match self.engine {
            Some(e) => ArenaView {
                engine: Some(
                    EngineState {
                        granular_source_len: if length <= MAX_GRANULAR_SOURCE_SAMPLES {
                            length
                        } else {
                            MAX_GRANULAR_SOURCE_SAMPLES as u32
                        },
                        flags: e.flags | FLAG_GRANULAR_READY,
                        ..e
                    },
                ),
                ..self
            },
            None => self,
        }
    }

    /// The arena after `set_ir_len`: the length recorded, cut to the region's
    /// capacity, and the ready flag set. Unchanged while the engine is not
    /// initialized.
    pub open spec fn with_ir_len(self, length: u32) -> ArenaView {
        match self.engine {
            Some(e) => ArenaView {
                engine: Some(
                    EngineState {
                        ir_len: if length <= MAX_IR_SAMPLES {
                            length
                        } else {
                            MAX_IR_SAMPLES as u32
                        },
                        flags: e.flags | FLAG_IR_READY,
                        ..e
                    },
                ),
                ..self
            },
            None => self,
        }
    }
}

impl View for Arena {
    type V = ArenaView;

    open spec fn view(&self) -> ArenaView {
        ArenaView {
            engine: self.engine,
            input_l: self.input_l@,
            input_r: self.input_r@,
            output_l: self.output_l@,
            output_r: self.output_r@,
            work_1: self.work_1@,
            work_2: self.work_2@,
            granular_source: self.granular_source@,
            ir: self.ir@,
        }
    }
}

impl Arena {
    /// Every region has its fixed capacity, and the engine state, where
    /// present, is well formed.
    pub open spec fn wf(&self) -> bool {
        self@.wf()
    }

    /// Whether the arena is well formed, tested at run time.
    pub fn is_well_formed(&self) -> (ok: bool)
        ensures
            ok == self.wf(),
    {
        let engine_ok: bool = match self.engine {
            Some(e) => word_le(MIN_SAMPLE_RATE, e.sample_rate) && word_le(
                e.sample_rate,
                MAX_SAMPLE_RATE,
            ) && MIN_BUFFER_SIZE <= e.buffer_size && e.buffer_size as usize <= MAX_BUFFER_SIZE
                && e.flags & FLAG_INITIALIZED != 0 && e.granular_source_len as usize
                <= MAX_GRANULAR_SOURCE_SAMPLES && e.ir_len as usize <= MAX_IR_SAMPLES,
            None => true,
        };
        engine_ok && self.input_l.len() == MAX_BUFFER_SIZE && self.input_r.len() == MAX_BUFFER_SIZE
            && self.output_l.len() == MAX_BUFFER_SIZE && self.output_r.len() == MAX_BUFFER_SIZE
            && self.work_1.len() == WORK_BUFFER_SIZE && self.work_2.len() == WORK_BUFFER_SIZE
            && self.granular_source.len() == MAX_GRANULAR_SOURCE_SAMPLES && self.ir.len()
            == MAX_IR_SAMPLES
    }

    /// Allocates every region, zeroed, with the engine not initialized.
    pub fn new() -> (arena: Arena)
        ensures
            arena.wf(),
            arena@.engine is None,
            arena@.input_l == silence(MAX_BUFFER_SIZE as nat),
            arena@.input_r == silence(MAX_BUFFER_SIZE as nat),
            arena@.output_l == silence(MAX_BUFFER_SIZE as nat),
            arena@.output_r == silence(MAX_BUFFER_SIZE as nat),
            arena@.work_1 == silence(WORK_BUFFER_SIZE as nat),
            arena@.work_2 == silence(WORK_BUFFER_SIZE as nat),
            arena@.granular_source == silence(MAX_GRANULAR_SOURCE_SAMPLES as nat),
            arena@.ir == silence(MAX_IR_SAMPLES as nat),
    {
        Arena {
            engine: None,
            input_l: vec![0u32; MAX_BUFFER_SIZE],
            input_r: vec![0u32; MAX_BUFFER_SIZE],
            output_l: vec![0u32; MAX_BUFFER_SIZE],
            output_r: vec![0u32; MAX_BUFFER_SIZE],
            work_1: vec![0u32; WORK_BUFFER_SIZE],
            work_2: vec![0u32; WORK_BUFFER_SIZE],
            granular_source: vec![0u32; MAX_GRANULAR_SOURCE_SAMPLES],
            ir: vec![0u32; MAX_IR_SAMPLES],
        }
    }
}

/// Configures the engine for a sample rate, given as a sample word, and a
/// block size. On success every input, output and work region is zeroed and
/// the engine is marked initialized with nothing loaded. On refusal the arena
/// is left exactly as it was.
pub fn init_engine(arena: &mut Arena, sample_rate: u32, buffer_size: u32) -> (r: Result<
    (),
    InitError,
>)
    requires
        old(arena).wf(),
    ensures
        r == init_outcome(sample_rate, buffer_size),
        r is Ok ==> final(arena)@ == old(arena)@.initialized(sample_rate, buffer_size),
        r is Err ==> final(arena)@ == old(arena)@,
        final(arena).wf(),
{
    if !(word_le(MIN_SAMPLE_RATE, sample_rate) && word_le(sample_rate, MAX_SAMPLE_RATE)) {
        return Err(InitError::BadSampleRate);
    }
    if buffer_size < MIN_BUFFER_SIZE || buffer_size > MAX_BUFFER_SIZE as u32 {
        return Err(InitError::BadBufferSize);
    }
    arena.engine = Some(
        EngineState {
            sample_rate,
            buffer_size,
            flags: FLAG_INITIALIZED,
            granular_source_len: 0,
            ir_len: 0,
        },
    );
    clear_buffer(arena.input_l.as_mut_slice());
    clear_buffer(arena.input_r.as_mut_slice());
    clear_buffer(arena.output_l.as_mut_slice());
    clear_buffer(arena.output_r.as_mut_slice());
    clear_buffer(arena.work_1.as_mut_slice());
    clear_buffer(arena.work_2.as_mut_slice());
    proof {
        lemma_flag_bits(0);
        let target = old(arena)@.initialized(sample_rate, buffer_size);
        assert(arena@.input_l =~= target.input_l);
        assert(arena@.input_r =~= target.input_r);
        assert(arena@.output_l =~= target.output_l);
        assert(arena@.output_r =~= target.output_r);
        assert(arena@.work_1 =~= target.work_1);
        assert(arena@.work_2 =~= target.work_2);
    }
    Ok(())
}

/// The input region of a channel: 0 is left, 1 is right, any other channel
/// has none.
pub fn get_input_buffer(channel: u32) -> (r: Option<Region>)
    ensures
        r == (if channel == 0 {
            Some(Region::InputLeft)
        } else if channel == 1 {
            Some(Region::InputRight)
        } else {
            None
        }),
{
    if channel == 0 {
        Some(Region::InputLeft)
    } else if channel == 1 {
        Some(Region::InputRight)
    } else {
        None
    }
}

/// The output region of a channel: 0 is left, 1 is right, any other channel
/// has none.
pub fn get_output_buffer(channel: u32) -> (r: Option<Region>)
    ensures
        r == (if channel == 0 {
            Some(Region::OutputLeft)
        } else if channel == 1 {
            Some(Region::OutputRight)
        } else {
            None
        }),
{
    if channel == 0 {
        Some(Region::OutputLeft)
    } else if channel == 1 {
        Some(Region::OutputRight)
    } else {
        None
    }
}

/// The input block of a channel, `buffer_size` words long. There is none
/// while the engine is not initialized, and none for a channel other than 0
/// and 1.
pub fn input_slice(arena: &Arena, channel: u32) -> (view: Option<&[u32]>)
    requires
        arena.wf(),
    ensures
        view is Some <==> arena@.has_block(channel),
        view matches Some(v) ==> v@ == arena@.input(channel),
{
    match arena.engine {
        Some(e) => {
            if channel == 0 {
                Some(slice_subrange(arena.input_l.as_slice(), 0, e.buffer_size as usize))
            } else if channel == 1 {
                Some(slice_subrange(arena.input_r.as_slice(), 0, e.buffer_size as usize))
            } else {
                None
            }
        },
        None => None,
    }
}

/// The output block of a channel, `buffer_size` words long, for writing.
/// There is none while the engine is not initialized, and none for a channel
/// other than 0 and 1; the arena then stays as it is.
pub fn output_slice_mut(arena: &mut Arena, channel: u32) -> (view: Option<&mut [u32]>)
    requires
        old(arena).wf(),
    ensures
        view is Some <==> old(arena)@.has_block(channel),
        view matches Some(v) ==> v@ == old(arena)@.output(channel) && final(arena)@ == old(
            arena,
        )@.with_output(channel, final(v)@),
        view is None ==> final(arena)@ == old(arena)@,
{
    match arena.engine {
        Some(e) => {
            if channel == 0 {
                let (head, tail) = arena.output_l.as_mut_slice().split_at_mut(
                    e.buffer_size as usize,
                );
                Some(head)
            } else if channel == 1 {
                let (head, tail) = arena.output_r.as_mut_slice().split_at_mut(
                    e.buffer_size as usize,
                );
                Some(head)
            } else {
                None
            }
        },
        None => None,
    }
}

/// Silences the output blocks of both channels. Does nothing while the
/// engine is not initialized.
pub fn clear_outputs(arena: &mut Arena)
    requires
        old(arena).wf(),
    ensures
        final(arena)@ == old(arena)@.with_silent_outputs(),
        final(arena).wf(),
{
    match output_slice_mut(arena, 0) {
        Some(view) => clear_buffer(view),
        None => {},
    }
    match output_slice_mut(arena, 1) {
        Some(view) => clear_buffer(view),
        None => {},
    }
    proof {
        let target = old(arena)@.with_silent_outputs();
        assert(arena@.output_l =~= target.output_l);
        assert(arena@.output_r =~= target.output_r);
    }
}

/// Copies the input block of each channel to its output block. Does nothing
/// while the engine is not initialized.
pub fn pass_through(arena: &mut Arena)
    requires
        old(arena).wf(),
    ensures
        final(arena)@ == old(arena)@.passed_through(),
        final(arena).wf(),
{
    match arena.engine {
        Some(e) => {
            let n: usize = e.buffer_size as usize;
            let (head_l, tail_l) = arena.output_l.as_mut_slice().split_at_mut(n);
            copy_buffer(slice_subrange(arena.input_l.as_slice(), 0, n), head_l);
            let (head_r, tail_r) = arena.output_r.as_mut_slice().split_at_mut(n);
            copy_buffer(slice_subrange(arena.input_r.as_slice(), 0, n), head_r);
        },
        None => {},
    }
    proof {
        let target = old(arena)@.passed_through();
        assert(arena@.output_l =~= target.output_l);
        assert(arena@.output_r =~= target.output_r);
    }
}

/// A whole region for writing: the way sample material is put into the arena
/// before it is declared loaded, and the way a block is handed in.
pub fn region_mut(arena: &mut Arena, region: Region) -> (view: &mut [u32])
    ensures
        view@ == old(arena)@.region(region),
        final(arena)@ == old(arena)@.with_region(region, final(view)@),
{
    match region {
        Region::InputLeft => arena.input_l.as_mut_slice(),
        Region::InputRight => arena.input_r.as_mut_slice(),
        Region::OutputLeft => arena.output_l.as_mut_slice(),
        Region::OutputRight => arena.output_r.as_mut_slice(),
        Region::Work1 => arena.work_1.as_mut_slice(),
        Region::Work2 => arena.work_2.as_mut_slice(),
        Region::GranularSource => arena.granular_source.as_mut_slice(),
        Region::ImpulseResponse => arena.ir.as_mut_slice(),
    }
}

/// The first work region, over its whole fixed size, for writing.
pub fn work_buffer_1(arena: &mut Arena) -> (view: &mut [u32])
    ensures
        view@ == old(arena)@.work_1,
        final(arena)@ == old(arena)@.with_region(Region::Work1, final(view)@),
{
    arena.work_1.as_mut_slice()
}

/// The second work region, over its whole fixed size, for writing.
pub fn work_buffer_2(arena: &mut Arena) -> (view: &mut [u32])
    ensures
        view@ == old(arena)@.work_2,
        final(arena)@ == old(arena)@.with_region(Region::Work2, final(view)@),
{
    arena.work_2.as_mut_slice()
}

/// The region that holds granular source material.
pub fn get_granular_source_ptr() -> (r: Region)
    ensures
        r == Region::GranularSource,
{
    Region::GranularSource
}

/// Records how many samples of the granular source region hold loaded
/// material and marks the source ready. A length beyond the region's capacity
/// is cut to the capacity. Does nothing while the engine is not initialized.
pub fn set_granular_source_len(arena: &mut Arena, length: u32)
    requires
        old(arena).wf(),
    ensures
        final(arena)@ == old(arena)@.with_granular_source_len(length),
        final(arena).wf(),
{
    match arena.engine {
        Some(e) => {
            let kept: u32 = if length as usize <= MAX_GRANULAR_SOURCE_SAMPLES {
                length
            } else {
                MAX_GRANULAR_SOURCE_SAMPLES as u32
            };
            let flags: u32 = e.flags;
            proof {
                lemma_flag_bits(flags);
            }
            arena.engine = Some(
                EngineState {
                    sample_rate: e.sample_rate,
                    buffer_size: e.buffer_size,
                    flags: flags | FLAG_GRANULAR_READY,
                    granular_source_len: kept,
                    ir_len: e.ir_len,
                },
            );
        },
        None => {},
    }
}

/// The loaded part of the granular source region; empty while the engine is
/// not initialized.
pub fn granular_source_slice(arena: &Arena) -> (view: &[u32])
    requires
        arena.wf(),
    ensures
        view@ == arena@.granular_source_loaded(),
{
    match arena.engine {
        Some(e) => slice_subrange(
            arena.granular_source.as_slice(),
            0,
            e.granular_source_len as usize,
        ),
        None => slice_subrange(arena.granular_source.as_slice(), 0, 0),
    }
}

/// The region that holds impulse response material.
pub fn get_ir_ptr() -> (r: Region)
    ensures
        r == Region::ImpulseResponse,
{
    Region::ImpulseResponse
}

/// Records how many samples of the impulse response region hold loaded
/// material and marks the response ready. A length beyond the region's
/// capacity is cut to the capacity. Does nothing while the engine is not
/// initialized.
pub fn set_ir_len(arena: &mut Arena, length: u32)
    requires
        old(arena).wf(),
    ensures
        final(arena)@ == old(arena)@.with_ir_len(length),
        final(arena).wf(),
{
    match arena.engine {
        Some(e) => {
            let kept: u32 = if length as usize <= MAX_IR_SAMPLES {
                length
            } else {
                MAX_IR_SAMPLES as u32
            };
            let flags: u32 = e.flags;
            proof {
                lemma_flag_bits(flags);
            }
            arena.engine = Some(
                EngineState {
                    sample_rate: e.sample_rate,
                    buffer_size: e.buffer_size,
                    flags: flags | FLAG_IR_READY,
                    granular_source_len: e.granular_source_len,
                    ir_len: kept,
                },
            );
        },
        None => {},
    }
}

/// The loaded part of the impulse response region; empty while the engine is
/// not initialized.
pub fn ir_slice(arena: &Arena) -> (view: &[u32])
    requires
        arena.wf(),
    ensures
        view@ == arena@.ir_loaded(),
{
    match arena.engine {
        Some(e) => slice_subrange(arena.ir.as_slice(), 0, e.ir_len as usize),
        None => slice_subrange(arena.ir.as_slice(), 0, 0),
    }
}

/// The configured sample rate as a sample word, and the word of 44100 while
/// the engine is not initialized.
pub fn sample_rate(arena: &Arena) -> (r: u32)
    ensures
        r == (match arena@.engine {
            Some(e) => e.sample_rate,
            None => DEFAULT_SAMPLE_RATE,
        }),
{
    match arena.engine {
        Some(e) => e.sample_rate,
        None => DEFAULT_SAMPLE_RATE,
    }
}

/// The configured block size, and 128 while the engine is not initialized.
pub fn buffer_size(arena: &Arena) -> (r: u32)
    ensures
        r == (match arena@.engine {
            Some(e) => e.buffer_size,
            None => DEFAULT_BUFFER_SIZE,
        }),
{
    match arena.engine {
        Some(e) => e.buffer_size,
        None => DEFAULT_BUFFER_SIZE,
    }
}

/// Whether the engine state is present and carries the flag `flag`.
fn flag_is_set(arena: &Arena, flag: u32) -> (r: bool)
    ensures
        r == (arena@.engine matches Some(e) && has_flag(e.flags, flag)),
{
    match arena.engine {
        Some(e) => e.flags & flag != 0,
        None => false,
    }
}

/// Whether `init_engine` has succeeded since the last `cleanup`.
pub fn is_initialized(arena: &Arena) -> (r: bool)
    ensures
        r == (arena@.engine matches Some(e) && has_flag(e.flags, FLAG_INITIALIZED)),
        arena.wf() ==> r == (arena@.engine is Some),
{
    flag_is_set(arena, FLAG_INITIALIZED)
}

/// Whether a granular source has been declared loaded.
pub fn is_granular_ready(arena: &Arena) -> (r: bool)
    ensures
        r == (arena@.engine matches Some(e) && has_flag(e.flags, FLAG_GRANULAR_READY)),
{
    flag_is_set(arena, FLAG_GRANULAR_READY)
}

/// Whether an impulse response has been declared loaded.
pub fn is_ir_ready(arena: &Arena) -> (r: bool)
    ensures
        r == (arena@.engine matches Some(e) && has_flag(e.flags, FLAG_IR_READY)),
{
    flag_is_set(arena, FLAG_IR_READY)
}

/// Drops the engine state, and with it every readiness flag and recorded
/// length. The regions keep their storage, so a later `init_engine` reuses
/// the arena.
pub fn cleanup(arena: &mut Arena)
    ensures
        final(arena)@ == old(arena)@.cleaned(),
        old(arena).wf() ==> final(arena).wf(),
{
    arena.engine = None;
}

/// In a well-formed arena every region holds exactly its capacity.
pub proof fn lemma_regions_have_their_capacity(arena: ArenaView, region: Region)
    requires
        arena.wf(),
    ensures
        arena.region(region).len() == region.capacity(),
{
}

/// Setting a flag keeps the flags that were set and sets the new one; the
/// initialized flag alone is set in a fresh engine state.
pub proof fn lemma_flag_bits(flags: u32)
    by (bit_vector)
    ensures
        1u32 & 1 != 0,
        flags & 1 != 0 ==> (flags | 2) & 1 != 0 && (flags | 4) & 1 != 0,
        flags & 2 != 0 ==> (flags | 4) & 2 != 0,
        flags & 4 != 0 ==> (flags | 2) & 4 != 0,
        (flags | 2) & 2 != 0,
        (flags | 4) & 4 != 0,
{
}

/// A sample rate is accepted exactly when its word lies between the words of
/// 8000 and 192000: in that range the order of the words is the order of
/// the values, and every negative or NaN word lies outside it.
pub proof fn lemma_sample_rate_range(rate: u32)
    ensures
        valid_sample_rate(rate) <==> MIN_SAMPLE_RATE <= rate <= MAX_SAMPLE_RATE,
{
    lemma_order_of_plain_words(MIN_SAMPLE_RATE, MAX_SAMPLE_RATE);
    lemma_word_bits(rate);
}

/// After a successful `init_engine` every view the engine hands out is
/// silent: the input and output blocks of both channels hold only positive
/// zero, over the whole configured block, and nothing is marked loaded.
pub proof fn lemma_init_silences_blocks(
    before: ArenaView,
    sample_rate: u32,
    buffer_size: u32,
    channel: u32,
)
    requires
        before.wf(),
        init_outcome(sample_rate, buffer_size) is Ok,
    ensures
        before.initialized(sample_rate, buffer_size).wf(),
        before.initialized(sample_rate, buffer_size).block_len() == buffer_size,
        before.initialized(sample_rate, buffer_size).input(channel) == silence(buffer_size as nat),
        before.initialized(sample_rate, buffer_size).output(channel) == silence(
            buffer_size as nat,
        ),
        before.initialized(sample_rate, buffer_size).granular_source_loaded() == Seq::<u32>::empty(),
        before.initialized(sample_rate, buffer_size).ir_loaded() == Seq::<u32>::empty(),
{
    lemma_flag_bits(0);
}

/// `cleanup` leaves an arena that can be initialized again: after
/// `init_engine` and `cleanup` the arena is well formed and not initialized,
/// and the same `init_engine` then gives the arena that the first one gave.
pub proof fn lemma_cleanup_allows_reinit(before: ArenaView, sample_rate: u32, buffer_size: u32)
    requires
        before.wf(),
        init_outcome(sample_rate, buffer_size) is Ok,
    ensures
        before.initialized(sample_rate, buffer_size).cleaned().wf(),
        before.initialized(sample_rate, buffer_size).cleaned().engine is None,
        before.initialized(sample_rate, buffer_size).cleaned().initialized(sample_rate, buffer_size)
            == before.initialized(sample_rate, buffer_size),
{
    lemma_flag_bits(0);
}

} // verus!
