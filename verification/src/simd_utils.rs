//! Buffer primitives that move or compare sample words without computing new
//! values: copy, clear, shift, interleave, de-interleave, hard clipping, peak
//! detection and the index into the envelope table. Each works on the common
//! prefix of its spans and leaves every other element as it was.
use vstd::prelude::*;
use vstd::arithmetic::div_mod::{lemma_basic_div, lemma_div_multiples_vanish_quotient};
use vstd::arithmetic::power2::{pow2, lemma2_to64, lemma_pow2_adds, lemma_pow2_pos, lemma_pow2_strictly_increases};
use vstd::bits::lemma_u32_shr_is_div;
use crate::sample::{is_nan, magnitude, is_negative, le, clamped, negated, significand, scale, ZERO};
use crate::sample::scaled_magnitude;
use crate::sample::{word_abs, word_is_nan, word_clamp, word_neg};
use crate::sample::{lemma_order_of_magnitudes, lemma_order_of_plain_words, lemma_word_bits};

verus! {

/// Whether the four-lane vector path is built in. This build has only the
/// element-by-element path, whose results the vector path must reproduce bit
/// for bit.
pub fn simd_available() -> (r: bool)
    ensures
        r == false,
{
    false
}

/// The smaller of two lengths.
pub open spec fn min_len(a: int, b: int) -> int {
    if a < b {
        a
    } else {
        b
    }
}

/// Copies the first `min(src.len(), dst.len())` words of `src` into `dst`.
pub fn copy_buffer(src: &[u32], dst: &mut [u32])
    ensures
        final(dst)@.len() == old(dst)@.len(),
        forall|i: int|
            0 <= i < old(dst)@.len() ==> final(dst)@[i] == (if i < src@.len() {
                src@[i]
            } else {
                old(dst)@[i]
            }),
{
    let len: usize = if src.len() < dst.len() {
        src.len()
    } else {
        dst.len()
    };
    let mut i: usize = 0;
    while i < len
        invariant
            len == min_len(src@.len() as int, old(dst)@.len() as int),
            dst@.len() == old(dst)@.len(),
            i <= len,
            forall|k: int| 0 <= k < i ==> dst@[k] == src@[k],
            forall|k: int| i <= k < dst@.len() ==> dst@[k] == old(dst)@[k],
        decreases len - i,
    {
        dst[i] = src[i];
        i += 1;
    }
}

/// Sets every word of `buffer` to positive zero.
pub fn clear_buffer(buffer: &mut [u32])
    ensures
        final(buffer)@.len() == old(buffer)@.len(),
        forall|i: int| 0 <= i < final(buffer)@.len() ==> final(buffer)@[i] == 0,
{
    let len: usize = buffer.len();
    let mut i: usize = 0;
    while i < len
        invariant
            len == buffer@.len(),
            buffer@.len() == old(buffer)@.len(),
            i <= len,
            forall|k: int| 0 <= k < i ==> buffer@[k] == 0,
        decreases len - i,
    {
        buffer[i] = 0;
        i += 1;
    }
}

/// What `copy_span` leaves in `dst`: `count` words of `src`, taken from
/// offset `from`, laid over `dst` at offset `at`.
pub open spec fn overlaid(dst: Seq<u32>, at: int, src: Seq<u32>, from: int, count: int) -> Seq<u32> {
    Seq::new(
        dst.len(),
        |k: int|
            if at <= k < at + count {
                src[from + (k - at)]
            } else {
                dst[k]
            },
    )
}

/// The number of words that `copy_span` copies: no more than `room`, no more
/// than `src` holds from `from` on, and no more than `dst` holds from `at`
/// on.
pub open spec fn span_count(src_len: int, from: int, dst_len: int, at: int, room: int) -> int {
    if from > src_len || at > dst_len {
        0
    } else {
        min_len(room, min_len(src_len - from, dst_len - at))
    }
}

/// Copies up to `room` words of `src`, starting at offset `from`, into `dst`
/// at offset `at`, and answers how many were copied: `room`, or fewer where
/// either span ends first.
pub fn copy_span(src: &[u32], from: usize, dst: &mut [u32], at: usize, room: usize) -> (count:
    usize)
    ensures
        count == span_count(
            src@.len() as int,
            from as int,
            old(dst)@.len() as int,
            at as int,
            room as int,
        ),
        final(dst)@ == overlaid(old(dst)@, at as int, src@, from as int, count as int),
{
    let total: usize = dst.len();
    if from > src.len() || at > total {
        return 0;
    }
    let left: usize = src.len() - from;
    let space: usize = total - at;
    let fits: usize = if left < space {
        left
    } else {
        space
    };
    let count: usize = if room < fits {
        room
    } else {
        fits
    };
    let mut i: usize = 0;
    while i < count
        invariant
            from + count <= src@.len() <= usize::MAX,
            at + count <= total,
            total == dst@.len(),
            dst@.len() == old(dst)@.len(),
            i <= count,
            forall|k: int| at <= k < at + i ==> dst@[k] == src@[from + (k - at)],
            forall|k: int| 0 <= k < dst@.len() && !(at <= k < at + i) ==> dst@[k] == old(dst)@[k],
        decreases count - i,
    {
        dst[at + i] = src[from + i];
        i += 1;
    }
    count
}

/// What `shift_left` leaves: the words from `n` on moved to the front, and
/// positive zero behind them. Shifting by the length or more leaves only
/// zeros.
pub open spec fn shifted_left(buffer: Seq<u32>, n: int) -> Seq<u32> {
    Seq::new(
        buffer.len(),
        |k: int|
            if k + n < buffer.len() {
                buffer[k + n]
            } else {
                0u32
            },
    )
}

/// Moves the content of `buffer` left by `n` words, dropping the first `n`
/// and filling the vacated end with positive zero.
pub fn shift_left(buffer: &mut [u32], n: usize)
    ensures
        final(buffer)@ == shifted_left(old(buffer)@, n as int),
{
    let len: usize = buffer.len();
    let keep: usize = if n < len {
        len - n
    } else {
        0
    };
    let mut i: usize = 0;
    while i < keep
        invariant
            len == buffer@.len(),
            buffer@.len() == old(buffer)@.len(),
            keep + n == len || keep == 0,
            keep <= len,
            i <= keep,
            forall|k: int| 0 <= k < i ==> buffer@[k] == old(buffer)@[k + n],
            forall|k: int| i <= k < len ==> buffer@[k] == old(buffer)@[k],
        decreases keep - i,
    {
        let w: u32 = buffer[i + n];
        buffer[i] = w;
        i += 1;
    }
    while i < len
        invariant
            len == buffer@.len(),
            buffer@.len() == old(buffer)@.len(),
            keep + n == len || (keep == 0 && n >= len),
            keep <= i <= len,
            forall|k: int| 0 <= k < keep ==> buffer@[k] == old(buffer)@[k + n],
            forall|k: int| keep <= k < i ==> buffer@[k] == 0,
        decreases len - i,
    {
        buffer[i] = 0;
        i += 1;
    }
}

/// The number of stereo frames that fit all three spans of an interleaving:
/// the two channel spans and half of the interleaved span.
pub open spec fn stereo_frames(left: int, right: int, interleaved: int) -> int {
    min_len(min_len(left, right), interleaved / 2)
}

/// What `interleave_stereo` leaves in `out`: for each frame `i` below the
/// common frame count, `left[i]` at `2i` and `right[i]` at `2i + 1`; behind
/// them, `out` as it was.
pub open spec fn interleaved(left: Seq<u32>, right: Seq<u32>, out: Seq<u32>) -> Seq<u32> {
    Seq::new(
        out.len(),
        |k: int|
            if k < 2 * stereo_frames(left.len() as int, right.len() as int, out.len() as int) {
                if k % 2 == 0 {
                    left[k / 2]
                } else {
                    right[k / 2]
                }
            } else {
                out[k]
            },
    )
}

/// What `deinterleave_stereo` leaves in one channel span: the words of that
/// channel for the common frame count, and behind them the span as it was.
/// `lane` is 0 for the left channel and 1 for the right.
pub open spec fn deinterleaved(source: Seq<u32>, lane: int, channel: Seq<u32>, frames: int) -> Seq<
    u32,
> {
    Seq::new(
        channel.len(),
        |i: int|
            if i < frames {
                source[2 * i + lane]
            } else {
                channel[i]
            },
    )
}

/// Merges two channel spans into `[L0, R0, L1, R1, ..]`.
pub fn interleave_stereo(left: &[u32], right: &[u32], out: &mut [u32])
    ensures
        final(out)@ == interleaved(left@, right@, old(out)@),
{
    let a: usize = if left.len() < right.len() {
        left.len()
    } else {
        right.len()
    };
    let half: usize = out.len() / 2;
    let len: usize = if a < half {
        a
    } else {
        half
    };
    let mut i: usize = 0;
    while i < len
        invariant
            len == stereo_frames(left@.len() as int, right@.len() as int, old(out)@.len() as int),
            out@.len() == old(out)@.len(),
            2 * len <= out@.len() <= usize::MAX,
            i <= len,
            forall|k: int|
                0 <= k < 2 * i ==> out@[k] == (if k % 2 == 0 {
                    left@[k / 2]
                } else {
                    right@[k / 2]
                }),
            forall|k: int| 2 * i <= k < out@.len() ==> out@[k] == old(out)@[k],
        decreases len - i,
    {
        out[i * 2] = left[i];
        out[i * 2 + 1] = right[i];
        i += 1;
    }
}

/// Splits `[L0, R0, L1, R1, ..]` into its two channel spans.
pub fn deinterleave_stereo(source: &[u32], left: &mut [u32], right: &mut [u32])
    ensures
        final(left)@ == deinterleaved(
            source@,
            0,
            old(left)@,
            stereo_frames(old(left)@.len() as int, old(right)@.len() as int, source@.len() as int),
        ),
        final(right)@ == deinterleaved(
            source@,
            1,
            old(right)@,
            stereo_frames(old(left)@.len() as int, old(right)@.len() as int, source@.len() as int),
        ),
{
    let a: usize = if left.len() < right.len() {
        left.len()
    } else {
        right.len()
    };
    let half: usize = source.len() / 2;
    let len: usize = if a < half {
        a
    } else {
        half
    };
    let mut i: usize = 0;
    while i < len
        invariant
            len == stereo_frames(
                old(left)@.len() as int,
                old(right)@.len() as int,
                source@.len() as int,
            ),
            left@.len() == old(left)@.len(),
            right@.len() == old(right)@.len(),
            2 * len <= source@.len() <= usize::MAX,
            i <= len,
            forall|k: int| 0 <= k < i ==> left@[k] == source@[2 * k],
            forall|k: int| 0 <= k < i ==> right@[k] == source@[2 * k + 1],
            forall|k: int| i <= k < left@.len() ==> left@[k] == old(left)@[k],
            forall|k: int| i <= k < right@.len() ==> right@[k] == old(right)@[k],
        decreases len - i,
    {
        left[i] = source[i * 2];
        right[i] = source[i * 2 + 1];
        i += 1;
    }
}

/// Splitting what was just merged gives the two channels back: for spans of
/// one length `n` and an interleaved span of length `2n`, de-interleaving the
/// result of interleaving restores both channels, whatever the spans held
/// before.
pub proof fn lemma_interleave_round_trip(
    left: Seq<u32>,
    right: Seq<u32>,
    out: Seq<u32>,
    left_before: Seq<u32>,
    right_before: Seq<u32>,
)
    requires
        left.len() == right.len(),
        out.len() == 2 * left.len(),
        left_before.len() == left.len(),
        right_before.len() == left.len(),
    ensures
        deinterleaved(interleaved(left, right, out), 0, left_before, left.len() as int) == left,
        deinterleaved(interleaved(left, right, out), 1, right_before, left.len() as int) == right,
{
    let merged = interleaved(left, right, out);
    assert forall|i: int| 0 <= i < left.len() implies merged[2 * i] == left[i] && merged[2 * i + 1]
        == right[i] by {
        assert((2 * i) / 2 == i && (2 * i + 1) / 2 == i);
    }
}

/// `r` is the peak of `s`: the largest absolute value among the words of `s`
/// that are not NaN, and positive zero where there is none.
pub open spec fn is_peak(s: Seq<u32>, r: u32) -> bool {
    &&& !is_nan(r)
    &&& !is_negative(r)
    &&& forall|i: int| 0 <= i < s.len() && !is_nan(#[trigger] s[i]) ==> magnitude(s[i]) <= r
    &&& (r == 0 || exists|i: int| 0 <= i < s.len() && !is_nan(#[trigger] s[i]) && magnitude(s[i]) == r)
}

/// The peak absolute value of `buffer`. NaN words are passed over; an empty
/// span has peak zero.
pub fn find_peak(buffer: &[u32]) -> (r: u32)
    ensures
        is_peak(buffer@, r),
{
    let len: usize = buffer.len();
    let mut peak: u32 = 0;
    let mut i: usize = 0;
    proof {
        lemma_word_bits(0);
    }
    while i < len
        invariant
            len == buffer@.len(),
            i <= len,
            is_peak(buffer@.take(i as int), peak),
        decreases len - i,
    {
        let w: u32 = buffer[i];
        let m: u32 = word_abs(w);
        let ghost before = buffer@.take(i as int);
        let ghost after = buffer@.take(i + 1);
        let ghost old_peak = peak;
        if !word_is_nan(w) && m > peak {
            peak = m;
        }
        proof {
            // every word seen so far is bounded by the peak
            assert forall|k: int| 0 <= k < after.len() && !is_nan(#[trigger] after[k]) implies magnitude(
                after[k],
            ) <= peak by {
                if k < i {
                    assert(before[k] == after[k]);
                }
            }
            // and the peak is the magnitude of one of them
            if peak != 0 {
                if peak == old_peak {
                    let j = choose|j: int|
                        0 <= j < before.len() && !is_nan(#[trigger] before[j]) && magnitude(
                            before[j],
                        ) == old_peak;
                    assert(after[j] == before[j]);
                } else {
                    assert(after[i as int] == w);
                }
            }
        }
        i += 1;
    }
    assert(buffer@.take(len as int) =~= buffer@);
    peak
}

/// A span has one peak only.
pub proof fn lemma_peak_is_unique(s: Seq<u32>, a: u32, b: u32)
    requires
        is_peak(s, a),
        is_peak(s, b),
    ensures
        a == b,
{
    if a != 0 {
        let i = choose|i: int| 0 <= i < s.len() && !is_nan(#[trigger] s[i]) && magnitude(s[i]) == a;
        assert(magnitude(s[i]) <= b);
    }
    if b != 0 {
        let j = choose|j: int| 0 <= j < s.len() && !is_nan(#[trigger] s[j]) && magnitude(s[j]) == b;
        assert(magnitude(s[j]) <= a);
    }
}

/// The peak is at least as large, as a value, as the absolute value of every
/// word of the span that is not NaN.
pub proof fn lemma_peak_bounds_values(s: Seq<u32>, r: u32, i: int)
    requires
        is_peak(s, r),
        0 <= i < s.len(),
        !is_nan(s[i]),
    ensures
        le(magnitude(s[i]), r),
{
    let m = magnitude(s[i]);
    let w = s[i];
    lemma_word_bits(w);
    lemma_order_of_magnitudes(m, r);
}

/// Entries of the raised-cosine envelope table, which spans the phases from
/// 0 up to 1.
pub const ENVELOPE_TABLE_SIZE: usize = 1024;

/// The sample word of 0.9999, the largest phase that is looked up.
pub const MAX_ENVELOPE_PHASE: u32 = 0x3f7f_f972;

/// The table entry for a phase: the phase is limited to `[0, 0.9999]` and
/// multiplied by the table size, and the whole part of the product is the
/// index. With the value of a word being `significand * 2^(scale - 150)`,
/// that is the significand divided by `2^(140 - scale)`. A NaN is looked up
/// at entry 0.
pub open spec fn envelope_index_of(phase: u32) -> nat {
    let limited = magnitude(clamped(phase, ZERO, MAX_ENVELOPE_PHASE));
    if is_nan(phase) {
        0
    } else {
        significand(limited) / pow2((140 - scale(limited)) as nat)
    }
}

/// The index of the envelope table entry for a phase.
pub fn envelope_index(phase: u32) -> (index: usize)
    ensures
        index == envelope_index_of(phase),
        index < ENVELOPE_TABLE_SIZE,
{
    proof {
        lemma_order_of_plain_words(ZERO, MAX_ENVELOPE_PHASE);
    }
    let limited: u32 = word_abs(word_clamp(phase, ZERO, MAX_ENVELOPE_PHASE));
    if word_is_nan(phase) {
        return 0;
    }
    let e: u32 = (limited >> 23) & 0xff;
    let f: u32 = limited & 0x7f_ffff;
    let m: u32 = if e == 0 {
        f
    } else {
        f | 0x80_0000
    };
    let s: u32 = if e == 0 {
        1
    } else {
        e
    };
    proof {
        lemma_word_bits(limited);
        assert(m == significand(limited) && s == scale(limited));
    }
    let shift: u32 = 140 - s;
    if shift >= 32 {
        proof {
            lemma2_to64();
            lemma_pow2_strictly_increases(24, shift as nat);
            lemma_basic_div(m as int, pow2(shift as nat) as int);
        }
        0
    } else {
        proof {
            lemma_u32_shr_is_div(m, shift);
            assert(m < 0x100_0000u32 && 14 <= shift < 32 ==> (m >> shift) < 1024) by (bit_vector);
        }
        (m >> shift) as usize
    }
}

/// What `envelope_lookup` answers: the entry of `table` for the phase, and
/// positive zero where the table is too short to hold that entry.
pub open spec fn envelope_entry(table: Seq<u32>, phase: u32) -> u32 {
    if envelope_index_of(phase) < table.len() {
        table[envelope_index_of(phase) as int]
    } else {
        0u32
    }
}

/// Looks a phase up in an envelope table of `ENVELOPE_TABLE_SIZE` entries
/// that span the phases from 0 up to 1.
pub fn envelope_lookup(table: &[u32], phase: u32) -> (value: u32)
    ensures
        value == envelope_entry(table@, phase),
{
    let index: usize = envelope_index(phase);
    if index < table.len() {
        table[index]
    } else {
        0
    }
}

/// Looks four phases up at once, lane by lane.
pub fn envelope_4_simd(table: &[u32], phases: [u32; 4]) -> (values: [u32; 4])
    ensures
        forall|lane: int| 0 <= lane < 4 ==> values@[lane] == envelope_entry(table@, phases@[lane]),
{
    [
        envelope_lookup(table, phases[0]),
        envelope_lookup(table, phases[1]),
        envelope_lookup(table, phases[2]),
        envelope_lookup(table, phases[3]),
    ]
}

/// The index is the whole part of the limited phase times the table size:
/// with the value of the limited phase counted in units of `2^-149`, it is
/// that count times 1024, divided by `2^149`.
pub proof fn lemma_envelope_index_is_floor(phase: u32)
    requires
        !is_nan(phase),
    ensures
        envelope_index_of(phase) == (scaled_magnitude(clamped(phase, ZERO, MAX_ENVELOPE_PHASE))
            * ENVELOPE_TABLE_SIZE) / (pow2(149) as int),
        envelope_index_of(phase) < ENVELOPE_TABLE_SIZE,
{
    let limited = magnitude(clamped(phase, ZERO, MAX_ENVELOPE_PHASE));
    let c = clamped(phase, ZERO, MAX_ENVELOPE_PHASE);
    lemma_order_of_plain_words(ZERO, MAX_ENVELOPE_PHASE);
    lemma_word_bits(c);
    lemma_word_bits(limited);
    let sig = significand(limited) as int;
    let s = scale(limited);
    let low = pow2((s - 1) as nat) as int;
    let high = pow2((140 - s) as nat) as int;
    lemma_pow2_pos((s - 1) as nat);
    lemma_pow2_pos((140 - s) as nat);
    lemma2_to64();
    lemma_pow2_adds((s - 1) as nat, 10);
    lemma_pow2_adds((s + 9) as nat, (140 - s) as nat);
    let common = low * 1024;
    assert(pow2(149) == common * high);
    assert(scaled_magnitude(c) == sig * low);
    assert(common > 0) by (nonlinear_arith)
        requires
            common == low * 1024,
            low > 0,
    ;
    lemma_div_multiples_vanish_quotient(common, sig, high);
    assert(sig * low * 1024 == common * sig) by (nonlinear_arith)
        requires
            common == low * 1024,
    ;
    // the index is below the table size
    if s < 126 {
        lemma_pow2_strictly_increases(14, (140 - s) as nat);
    }
    assert(sig / high < 1024) by (nonlinear_arith)
        requires
            0 <= sig < 0x100_0000,
            high >= 0x4000,
    ;
}

/// Whether `limit` can bound a clip: it is not NaN and `-limit <= limit`.
pub open spec fn is_clip_limit(limit: u32) -> bool {
    le(negated(limit), limit)
}

/// Limits every word of `buffer` to `[-limit, limit]`. A NaN word stays as it
/// is.
pub fn hard_clip_buffer(buffer: &mut [u32], limit: u32)
    requires
        is_clip_limit(limit),
    ensures
        final(buffer)@.len() == old(buffer)@.len(),
        forall|i: int|
            0 <= i < final(buffer)@.len() ==> final(buffer)@[i] == clamped(
                old(buffer)@[i],
                negated(limit),
                limit,
            ),
{
    let low: u32 = word_neg(limit);
    let len: usize = buffer.len();
    let mut i: usize = 0;
    while i < len
        invariant
            len == buffer@.len(),
            buffer@.len() == old(buffer)@.len(),
            i <= len,
            low == negated(limit),
            le(low, limit),
            forall|k: int| 0 <= k < i ==> buffer@[k] == clamped(old(buffer)@[k], low, limit),
            forall|k: int| i <= k < len ==> buffer@[k] == old(buffer)@[k],
        decreases len - i,
    {
        let w: u32 = buffer[i];
        buffer[i] = word_clamp(w, low, limit);
        i += 1;
    }
}

} // verus!
