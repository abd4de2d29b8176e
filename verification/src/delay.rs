//! Delay lines: the ring buffer under each of them and their parameters.
//!
//! A ring is a fixed span of sample words and a write position that wraps
//! around. Reading `d` back from the write position gives the word written
//! `d` writes ago, as long as `d` does not exceed the capacity. Each delay
//! effect holds one or two rings and its parameters, which every setter
//! brings into range. What an effect feeds back and mixes per sample is
//! arithmetic on sample values and is left to the caller.
use vstd::prelude::*;
use vstd::arithmetic::div_mod::{lemma_mod_add_multiples_vanish, lemma_small_mod, lemma_sub_mod_noop_right};
use crate::filters::OnePole;
use crate::memory::silence;
use crate::sample::{clamped, negated, word_clamp, word_neg, lemma_order_of_plain_words, ONE, ZERO};
use crate::simd_utils::clear_buffer;

verus! {

/// Capacity of a delay line, in samples: two seconds at 48 kHz.
pub const MAX_DELAY_SAMPLES: usize = 96000;

/// Capacity of an all-pass section, in samples.
pub const MAX_ALLPASS_SAMPLES: usize = 4096;

/// A ring of sample words.
pub struct RingBuffer {
    pub buffer: Vec<u32>,
    pub write_pos: usize,
}

/// A ring of sample words as a value.
pub struct RingView {
    pub buffer: Seq<u32>,
    pub write_pos: nat,
}

impl RingView {
    /// The ring has at least one word and its write position is inside it.
    pub open spec fn wf(self) -> bool {
        self.write_pos < self.buffer.len()
    }

    /// The position that lies `delay` words behind the write position.
    pub open spec fn position_back(self, delay: nat) -> int {
        (self.write_pos as int - delay as int) % (self.buffer.len() as int)
    }

    /// The word that lies `delay` words behind the write position.
    pub open spec fn read_back(self, delay: nat) -> u32 {
        self.buffer[self.position_back(delay)]
    }

    /// The ring after `word` is written at the write position and the
    /// position has moved on, wrapping at the end.
    pub open spec fn written(self, word: u32) -> RingView {
        RingView {
            buffer: self.buffer.update(self.write_pos as int, word),
            write_pos: ((self.write_pos as int + 1) % (self.buffer.len() as int)) as nat,
        }
    }
}

impl View for RingBuffer {
    type V = RingView;

    open spec fn view(&self) -> RingView {
        RingView { buffer: self.buffer@, write_pos: self.write_pos as nat }
    }
}

/// A delay of `samples` brought into what a ring of `capacity` words can
/// hold: at most `capacity - 1`, and at least 1.
pub open spec fn clamped_delay(samples: nat, capacity: nat) -> nat {
    if samples > capacity - 1 && capacity > 1 {
        (capacity - 1) as nat
    } else if samples < 1 || capacity <= 1 {
        1
    } else {
        samples
    }
}

impl RingBuffer {
    /// The ring has at least one word and its write position is inside it.
    pub open spec fn wf(&self) -> bool {
        self@.wf()
    }

    /// Whether the ring is well formed, tested at run time.
    pub fn is_well_formed(&self) -> (ok: bool)
        ensures
            ok == self.wf(),
    {
        self.write_pos < self.buffer.len()
    }

    /// A silent ring of `capacity` words, written from its start.
    pub fn new(capacity: usize) -> (ring: RingBuffer)
        requires
            capacity > 0,
        ensures
            ring.wf(),
            ring@.buffer == silence(capacity as nat),
            ring@.write_pos == 0,
    {
        RingBuffer { buffer: vec![0u32; capacity], write_pos: 0 }
    }

    /// The number of words in the ring.
    pub fn capacity(&self) -> (n: usize)
        ensures
            n == self@.buffer.len(),
    {
        self.buffer.len()
    }

    /// The word `delay` words behind the write position. A delay beyond the
    /// capacity wraps around the ring.
    pub fn read_at_offset(&self, delay: usize) -> (word: u32)
        requires
            self.wf(),
        ensures
            word == self@.read_back(delay as nat),
    {
        let len: usize = self.buffer.len();
        let back: usize = delay % len;
        let at: usize = if back <= self.write_pos {
            self.write_pos - back
        } else {
            len - (back - self.write_pos)
        };
        proof {
            let pos: int = self.write_pos as int;
            let m: int = len as int;
            lemma_sub_mod_noop_right(pos, delay as int, m);
            if back <= self.write_pos {
                lemma_small_mod((pos - back) as nat, len as nat);
            } else {
                lemma_mod_add_multiples_vanish(pos - back, m);
                lemma_small_mod((m + pos - back) as nat, len as nat);
            }
        }
        self.buffer[at]
    }

    /// Writes `word` at the write position and moves the position on.
    pub fn write_advance(&mut self, word: u32)
        requires
            old(self).wf(),
        ensures
            final(self)@ == old(self)@.written(word),
            final(self).wf(),
    {
        let len: usize = self.buffer.len();
        self.buffer[self.write_pos] = word;
        self.write_pos = if self.write_pos + 1 == len {
            0
        } else {
            self.write_pos + 1
        };
        proof {
            let pos: int = old(self).write_pos as int;
            if pos + 1 == len {
                lemma_mod_add_multiples_vanish(0, len as int);
                lemma_small_mod(0, len as nat);
            } else {
                lemma_small_mod((pos + 1) as nat, len as nat);
            }
        }
    }

    /// Silences the ring. The write position stays.
    pub fn clear(&mut self)
        ensures
            final(self)@ == (RingView {
                buffer: silence(old(self)@.buffer.len()),
                write_pos: old(self)@.write_pos,
            }),
            old(self).wf() ==> final(self).wf(),
    {
        clear_buffer(self.buffer.as_mut_slice());
        assert(self@.buffer =~= silence(old(self)@.buffer.len()));
    }
}

/// Brings a delay in samples into what a ring of `capacity` words can hold.
pub fn clamp_delay(samples: usize, capacity: usize) -> (delay: usize)
    requires
        capacity >= 1,
    ensures
        delay == clamped_delay(samples as nat, capacity as nat),
        1 <= delay,
        capacity >= 2 ==> delay < capacity,
{
    let most: usize = capacity - 1;
    let limited: usize = if samples < most {
        samples
    } else {
        most
    };
    if limited < 1 {
        1
    } else {
        limited
    }
}

/// A ring recalls what was written: right after a write, one word back lies
/// the word just written, and `d + 1` words back lies what lay `d` words
/// back before the write, for every `d` from 1 up to the capacity less one.
pub proof fn lemma_ring_recalls(ring: RingView, word: u32, d: nat)
    requires
        ring.wf(),
        1 <= d < ring.buffer.len(),
    ensures
        ring.written(word).wf(),
        ring.written(word).read_back(1) == word,
        ring.written(word).read_back(d + 1) == ring.read_back(d),
{
    let len: int = ring.buffer.len() as int;
    let pos: int = ring.write_pos as int;
    let next: int = (pos + 1) % len;
    if pos + 1 == len {
        lemma_mod_add_multiples_vanish(0, len);
        lemma_small_mod(0, len as nat);
        assert(next == 0);
        // next - 1 = -1, which is pos modulo len
        lemma_mod_add_multiples_vanish(-1, len);
        lemma_small_mod(pos as nat, len as nat);
        assert((next - 1) % len == pos);
        lemma_mod_add_multiples_vanish(next - (d as int + 1), len);
        assert(len + (next - (d as int + 1)) == pos - d as int);
    } else {
        lemma_small_mod((pos + 1) as nat, len as nat);
        assert(next == pos + 1);
        lemma_small_mod(pos as nat, len as nat);
    }
    // the slot read d back before the write is not the slot written
    let back: int = (pos - d as int) % len;
    if pos - d as int >= 0 {
        lemma_small_mod((pos - d as int) as nat, len as nat);
    } else {
        lemma_mod_add_multiples_vanish(pos - d as int, len);
        lemma_small_mod((len + pos - d as int) as nat, len as nat);
    }
    assert(back != pos);
}

/// The sample word of 95999, the longest delay in samples.
pub const MAX_DELAY: u32 = 0x47bb_7f80;

/// The sample word of 95900, the longest base delay of a modulated delay.
pub const MAX_BASE_DELAY: u32 = 0x47bb_4e00;

/// The sample word of 1000, the largest modulation depth in samples.
pub const MAX_MOD_DEPTH: u32 = 0x447a_0000;

/// The sample word of 0.99, the largest feedback of a delay line or comb.
pub const MAX_FEEDBACK: u32 = 0x3f7d_70a4;

/// The sample word of 0.95, the largest feedback of a ping-pong or
/// modulated delay.
pub const MAX_CROSS_FEEDBACK: u32 = 0x3f73_3333;

/// The sample word of 0.9, the largest coefficient of an all-pass section.
pub const MAX_COEFFICIENT: u32 = 0x3f66_6666;

/// The sample word of 0.5, the feedback, mix and coefficient of a new
/// effect.
pub const HALF: u32 = 0x3f00_0000;

/// The sample word of 1000, the delay in samples of a new delay line.
pub const DEFAULT_DELAY: u32 = 0x447a_0000;

/// The sample word of 500, the base delay in samples of a new modulated
/// delay.
pub const DEFAULT_BASE_DELAY: u32 = 0x43fa_0000;

/// The sample word of 100, the modulation depth in samples of a new
/// modulated delay.
pub const DEFAULT_MOD_DEPTH: u32 = 0x42c8_0000;

/// `x` limited to `[-bound, bound]`.
pub open spec fn clamped_around_zero(x: u32, bound: u32) -> u32 {
    clamped(x, negated(bound), bound)
}

/// Limits `x` to `[lo, hi]`, two plain constants in order.
fn limit(x: u32, lo: u32, hi: u32) -> (r: u32)
    requires
        lo <= hi <= 0x7f80_0000,
    ensures
        r == clamped(x, lo, hi),
{
    proof {
        lemma_order_of_plain_words(lo, hi);
    }
    word_clamp(x, lo, hi)
}

/// Limits `x` to `[-bound, bound]`, for a plain constant `bound`.
fn limit_around_zero(x: u32, bound: u32) -> (r: u32)
    requires
        bound <= 0x7f80_0000,
    ensures
        r == clamped_around_zero(x, bound),
{
    proof {
        lemma_order_of_plain_words(bound, bound);
    }
    word_clamp(x, word_neg(bound), bound)
}

/// A delay line with feedback through a damping filter and a dry/wet mix.
pub struct DelayLine {
    pub ring: RingBuffer,
    /// Delay in samples, a sample word in `[1, 95999]`; it may be
    /// fractional.
    pub delay_samples: u32,
    /// Feedback, a sample word in `[0, 0.99]`.
    pub feedback: u32,
    /// Dry/wet mix, a sample word in `[0, 1]`.
    pub mix: u32,
    pub damping: OnePole,
}

/// A delay line as a value.
pub struct DelayLineView {
    pub ring: RingView,
    pub delay_samples: u32,
    pub feedback: u32,
    pub mix: u32,
    pub damping: OnePole,
}

impl View for DelayLine {
    type V = DelayLineView;

    open spec fn view(&self) -> DelayLineView {
        DelayLineView {
            ring: self.ring@,
            delay_samples: self.delay_samples,
            feedback: self.feedback,
            mix: self.mix,
            damping: self.damping,
        }
    }
}

impl DelayLine {
    /// A silent line with a delay of 1000 samples, feedback and mix at 0.5
    /// and no damping.
    pub fn new() -> (line: DelayLine)
        ensures
            line@ == (DelayLineView {
                ring: RingView { buffer: silence(MAX_DELAY_SAMPLES as nat), write_pos: 0 },
                delay_samples: DEFAULT_DELAY,
                feedback: HALF,
                mix: HALF,
                damping: OnePole::passthrough(),
            }),
            line.ring.wf(),
    {
        DelayLine {
            ring: RingBuffer::new(MAX_DELAY_SAMPLES),
            delay_samples: DEFAULT_DELAY,
            feedback: HALF,
            mix: HALF,
            damping: OnePole::new(),
        }
    }

    /// Sets the delay in samples, brought into `[1, 95999]`.
    pub fn set_delay_samples(&mut self, samples: u32)
        ensures
            final(self)@ == (DelayLineView {
                delay_samples: clamped(samples, ONE, MAX_DELAY),
                ..old(self)@
            }),
    {
        self.delay_samples = limit(samples, ONE, MAX_DELAY);
    }

    /// Sets the feedback, brought into `[0, 0.99]`.
    pub fn set_feedback(&mut self, feedback: u32)
        ensures
            final(self)@ == (DelayLineView {
                feedback: clamped(feedback, ZERO, MAX_FEEDBACK),
                ..old(self)@
            }),
    {
        self.feedback = limit(feedback, ZERO, MAX_FEEDBACK);
    }

    /// Sets the dry/wet mix, brought into `[0, 1]`.
    pub fn set_mix(&mut self, mix: u32)
        ensures
            final(self)@ == (DelayLineView { mix: clamped(mix, ZERO, ONE), ..old(self)@ }),
    {
        self.mix = limit(mix, ZERO, ONE);
    }

    /// Silences the ring and clears the damping filter's memory.
    pub fn clear(&mut self)
        ensures
            final(self)@ == (DelayLineView {
                ring: RingView {
                    buffer: silence(old(self)@.ring.buffer.len()),
                    write_pos: old(self)@.ring.write_pos,
                },
                damping: old(self)@.damping.cleared(),
                ..old(self)@
            }),
    {
        self.ring.clear();
        self.damping.reset();
    }
}

/// A feedback comb, `y[n] = x[n] + g y[n - M]`, with damping in the loop.
pub struct CombFilter {
    pub ring: RingBuffer,
    /// Delay in samples, in `[1, 95999]`.
    pub delay_samples: usize,
    /// Feedback, a sample word in `[-0.99, 0.99]`.
    pub feedback: u32,
    pub damping: OnePole,
}

/// A feedback comb as a value.
pub struct CombFilterView {
    pub ring: RingView,
    pub delay_samples: nat,
    pub feedback: u32,
    pub damping: OnePole,
}

impl View for CombFilter {
    type V = CombFilterView;

    open spec fn view(&self) -> CombFilterView {
        CombFilterView {
            ring: self.ring@,
            delay_samples: self.delay_samples as nat,
            feedback: self.feedback,
            damping: self.damping,
        }
    }
}

impl CombFilter {
    /// A silent comb with a delay of 1000 samples, feedback at 0.5 and no
    /// damping.
    pub fn new() -> (comb: CombFilter)
        ensures
            comb@ == (CombFilterView {
                ring: RingView { buffer: silence(MAX_DELAY_SAMPLES as nat), write_pos: 0 },
                delay_samples: 1000,
                feedback: HALF,
                damping: OnePole::passthrough(),
            }),
            comb.ring.wf(),
    {
        CombFilter {
            ring: RingBuffer::new(MAX_DELAY_SAMPLES),
            delay_samples: 1000,
            feedback: HALF,
            damping: OnePole::new(),
        }
    }

    /// Sets the delay in samples, brought into `[1, 95999]`.
    pub fn set_delay_samples(&mut self, samples: usize)
        ensures
            final(self)@ == (CombFilterView {
                delay_samples: clamped_delay(samples as nat, MAX_DELAY_SAMPLES as nat),
                ..old(self)@
            }),
    {
        self.delay_samples = clamp_delay(samples, MAX_DELAY_SAMPLES);
    }

    /// Sets the feedback, brought into `[-0.99, 0.99]`.
    pub fn set_feedback(&mut self, feedback: u32)
        ensures
            final(self)@ == (CombFilterView {
                feedback: clamped_around_zero(feedback, MAX_FEEDBACK),
                ..old(self)@
            }),
    {
        self.feedback = limit_around_zero(feedback, MAX_FEEDBACK);
    }

    /// Silences the ring and clears the damping filter's memory.
    pub fn clear(&mut self)
        ensures
            final(self)@ == (CombFilterView {
                ring: RingView {
                    buffer: silence(old(self)@.ring.buffer.len()),
                    write_pos: old(self)@.ring.write_pos,
                },
                damping: old(self)@.damping.cleared(),
                ..old(self)@
            }),
    {
        self.ring.clear();
        self.damping.reset();
    }
}

/// An all-pass section, `y[n] = -g x[n] + x[n - M] + g y[n - M]`.
pub struct AllPassFilter {
    pub ring: RingBuffer,
    /// Delay in samples, in `[1, 4095]`.
    pub delay_samples: usize,
    /// Coefficient, a sample word in `[-0.9, 0.9]`.
    pub coefficient: u32,
}

/// An all-pass section as a value.
pub struct AllPassFilterView {
    pub ring: RingView,
    pub delay_samples: nat,
    pub coefficient: u32,
}

impl View for AllPassFilter {
    type V = AllPassFilterView;

    open spec fn view(&self) -> AllPassFilterView {
        AllPassFilterView {
            ring: self.ring@,
            delay_samples: self.delay_samples as nat,
            coefficient: self.coefficient,
        }
    }
}

impl AllPassFilter {
    /// A silent section with a delay of 500 samples and a coefficient of
    /// 0.5.
    pub fn new() -> (section: AllPassFilter)
        ensures
            section@ == (AllPassFilterView {
                ring: RingView { buffer: silence(MAX_ALLPASS_SAMPLES as nat), write_pos: 0 },
                delay_samples: 500,
                coefficient: HALF,
            }),
            section.ring.wf(),
    {
        AllPassFilter {
            ring: RingBuffer::new(MAX_ALLPASS_SAMPLES),
            delay_samples: 500,
            coefficient: HALF,
        }
    }

    /// Sets the delay in samples, brought into `[1, 4095]`.
    pub fn set_delay_samples(&mut self, samples: usize)
        ensures
            final(self)@ == (AllPassFilterView {
                delay_samples: clamped_delay(samples as nat, MAX_ALLPASS_SAMPLES as nat),
                ..old(self)@
            }),
    {
        self.delay_samples = clamp_delay(samples, MAX_ALLPASS_SAMPLES);
    }

    /// Sets the coefficient, brought into `[-0.9, 0.9]`.
    pub fn set_coefficient(&mut self, coefficient: u32)
        ensures
            final(self)@ == (AllPassFilterView {
                coefficient: clamped_around_zero(coefficient, MAX_COEFFICIENT),
                ..old(self)@
            }),
    {
        self.coefficient = limit_around_zero(coefficient, MAX_COEFFICIENT);
    }

    /// Silences the ring.
    pub fn clear(&mut self)
        ensures
            final(self)@ == (AllPassFilterView {
                ring: RingView {
                    buffer: silence(old(self)@.ring.buffer.len()),
                    write_pos: old(self)@.ring.write_pos,
                },
                ..old(self)@
            }),
    {
        self.ring.clear();
    }
}

/// A stereo delay whose feedback crosses between the channels. Both rings
/// are written together, so one write position serves both.
pub struct PingPongDelay {
    pub left: RingBuffer,
    pub right: RingBuffer,
    /// Delay in samples, in `[1, 95999]`.
    pub delay_samples: usize,
    /// Feedback, a sample word in `[0, 0.95]`.
    pub feedback: u32,
    /// Dry/wet mix, a sample word in `[0, 1]`.
    pub mix: u32,
    pub damping_l: OnePole,
    pub damping_r: OnePole,
}

/// A ping-pong delay as a value.
pub struct PingPongDelayView {
    pub left: RingView,
    pub right: RingView,
    pub delay_samples: nat,
    pub feedback: u32,
    pub mix: u32,
    pub damping_l: OnePole,
    pub damping_r: OnePole,
}

impl View for PingPongDelay {
    type V = PingPongDelayView;

    open spec fn view(&self) -> PingPongDelayView {
        PingPongDelayView {
            left: self.left@,
            right: self.right@,
            delay_samples: self.delay_samples as nat,
            feedback: self.feedback,
            mix: self.mix,
            damping_l: self.damping_l,
            damping_r: self.damping_r,
        }
    }
}

impl PingPongDelay {
    /// A silent delay of 22050 samples, feedback and mix at 0.5 and no
    /// damping.
    pub fn new() -> (delay: PingPongDelay)
        ensures
            delay@ == (PingPongDelayView {
                left: RingView { buffer: silence(MAX_DELAY_SAMPLES as nat), write_pos: 0 },
                right: RingView { buffer: silence(MAX_DELAY_SAMPLES as nat), write_pos: 0 },
                delay_samples: 22050,
                feedback: HALF,
                mix: HALF,
                damping_l: OnePole::passthrough(),
                damping_r: OnePole::passthrough(),
            }),
            delay.left.wf(),
            delay.right.wf(),
    {
        PingPongDelay {
            left: RingBuffer::new(MAX_DELAY_SAMPLES),
            right: RingBuffer::new(MAX_DELAY_SAMPLES),
            delay_samples: 22050,
            feedback: HALF,
            mix: HALF,
            damping_l: OnePole::new(),
            damping_r: OnePole::new(),
        }
    }

    /// Sets the delay in samples, brought into `[1, 95999]`.
    pub fn set_delay_samples(&mut self, samples: usize)
        ensures
            final(self)@ == (PingPongDelayView {
                delay_samples: clamped_delay(samples as nat, MAX_DELAY_SAMPLES as nat),
                ..old(self)@
            }),
    {
        self.delay_samples = clamp_delay(samples, MAX_DELAY_SAMPLES);
    }

    /// Sets the feedback, brought into `[0, 0.95]`.
    pub fn set_feedback(&mut self, feedback: u32)
        ensures
            final(self)@ == (PingPongDelayView {
                feedback: clamped(feedback, ZERO, MAX_CROSS_FEEDBACK),
                ..old(self)@
            }),
    {
        self.feedback = limit(feedback, ZERO, MAX_CROSS_FEEDBACK);
    }

    /// Sets the dry/wet mix, brought into `[0, 1]`.
    pub fn set_mix(&mut self, mix: u32)
        ensures
            final(self)@ == (PingPongDelayView { mix: clamped(mix, ZERO, ONE), ..old(self)@ }),
    {
        self.mix = limit(mix, ZERO, ONE);
    }

    /// Silences both rings and clears the memory of both damping filters.
    pub fn clear(&mut self)
        ensures
            final(self)@ == (PingPongDelayView {
                left: RingView {
                    buffer: silence(old(self)@.left.buffer.len()),
                    write_pos: old(self)@.left.write_pos,
                },
                right: RingView {
                    buffer: silence(old(self)@.right.buffer.len()),
                    write_pos: old(self)@.right.write_pos,
                },
                damping_l: old(self)@.damping_l.cleared(),
                damping_r: old(self)@.damping_r.cleared(),
                ..old(self)@
            }),
    {
        self.left.clear();
        self.right.clear();
        self.damping_l.reset();
        self.damping_r.reset();
    }
}

/// A delay whose time is modulated, for chorus and flanger.
pub struct ModulatedDelay {
    pub ring: RingBuffer,
    /// Base delay in samples, a sample word in `[1, 95900]`.
    pub base_delay: u32,
    /// Modulation depth in samples, a sample word in `[0, 1000]`.
    pub mod_depth: u32,
    /// Feedback, a sample word in `[-0.95, 0.95]`.
    pub feedback: u32,
}

/// A modulated delay as a value.
pub struct ModulatedDelayView {
    pub ring: RingView,
    pub base_delay: u32,
    pub mod_depth: u32,
    pub feedback: u32,
}

impl View for ModulatedDelay {
    type V = ModulatedDelayView;

    open spec fn view(&self) -> ModulatedDelayView {
        ModulatedDelayView {
            ring: self.ring@,
            base_delay: self.base_delay,
            mod_depth: self.mod_depth,
            feedback: self.feedback,
        }
    }
}

impl ModulatedDelay {
    /// A silent delay with a base delay of 500 samples, a depth of 100
    /// samples and no feedback.
    pub fn new() -> (delay: ModulatedDelay)
        ensures
            delay@ == (ModulatedDelayView {
                ring: RingView { buffer: silence(MAX_DELAY_SAMPLES as nat), write_pos: 0 },
                base_delay: DEFAULT_BASE_DELAY,
                mod_depth: DEFAULT_MOD_DEPTH,
                feedback: ZERO,
            }),
            delay.ring.wf(),
    {
        ModulatedDelay {
            ring: RingBuffer::new(MAX_DELAY_SAMPLES),
            base_delay: DEFAULT_BASE_DELAY,
            mod_depth: DEFAULT_MOD_DEPTH,
            feedback: ZERO,
        }
    }

    /// Sets the base delay in samples, brought into `[1, 95900]`.
    pub fn set_base_delay(&mut self, samples: u32)
        ensures
            final(self)@ == (ModulatedDelayView {
                base_delay: clamped(samples, ONE, MAX_BASE_DELAY),
                ..old(self)@
            }),
    {
        self.base_delay = limit(samples, ONE, MAX_BASE_DELAY);
    }

    /// Sets the modulation depth in samples, brought into `[0, 1000]`.
    pub fn set_mod_depth(&mut self, samples: u32)
        ensures
            final(self)@ == (ModulatedDelayView {
                mod_depth: clamped(samples, ZERO, MAX_MOD_DEPTH),
                ..old(self)@
            }),
    {
        self.mod_depth = limit(samples, ZERO, MAX_MOD_DEPTH);
    }

    /// Sets the feedback, brought into `[-0.95, 0.95]`.
    pub fn set_feedback(&mut self, feedback: u32)
        ensures
            final(self)@ == (ModulatedDelayView {
                feedback: clamped_around_zero(feedback, MAX_CROSS_FEEDBACK),
                ..old(self)@
            }),
    {
        self.feedback = limit_around_zero(feedback, MAX_CROSS_FEEDBACK);
    }

    /// Silences the ring.
    pub fn clear(&mut self)
        ensures
            final(self)@ == (ModulatedDelayView {
                ring: RingView {
                    buffer: silence(old(self)@.ring.buffer.len()),
                    write_pos: old(self)@.ring.write_pos,
                },
                ..old(self)@
            }),
    {
        self.ring.clear();
    }
}

impl Default for DelayLine {
    fn default() -> (line: DelayLine)
        ensures
            line.ring.wf(),
    {
        DelayLine::new()
    }
}

impl Default for CombFilter {
    fn default() -> (comb: CombFilter)
        ensures
            comb.ring.wf(),
    {
        CombFilter::new()
    }
}

impl Default for AllPassFilter {
    fn default() -> (section: AllPassFilter)
        ensures
            section.ring.wf(),
    {
        AllPassFilter::new()
    }
}

impl Default for PingPongDelay {
    fn default() -> (delay: PingPongDelay)
        ensures
            delay.left.wf(),
            delay.right.wf(),
    {
        PingPongDelay::new()
    }
}

impl Default for ModulatedDelay {
    fn default() -> (delay: ModulatedDelay)
        ensures
            delay.ring.wf(),
    {
        ModulatedDelay::new()
    }
}

} // verus!
