//! The bit-level model of single-precision samples.
//!
//! A sample word is the `u32` that holds the IEEE-754 binary32 encoding of a
//! value: one sign bit, eight exponent bits, twenty-three fraction bits. The
//! value of a word that is not NaN is its sign times its significand times a
//! power of two, and `lemma_order_is_value_order` shows that these values are
//! ordered as `order_key` orders the words. Comparisons, absolute value,
//! negation, minimum, maximum and clamping are therefore exact integer
//! computations.
use vstd::prelude::*;
use vstd::arithmetic::power2::{pow2, lemma2_to64, lemma_pow2_pos, lemma_pow2_strictly_increases, lemma_pow2_unfold};

verus! {

/// The sign bit of a sample word.
pub const SIGN_MASK: u32 = 0x8000_0000;

/// All bits of a sample word but the sign.
pub const MAGNITUDE_MASK: u32 = 0x7fff_ffff;

/// Positive infinity; every magnitude above it encodes a NaN.
pub const INFINITY: u32 = 0x7f80_0000;

/// Positive zero.
pub const ZERO: u32 = 0;

/// The value 1.
pub const ONE: u32 = 0x3f80_0000;

/// The word without its sign: the encoding of the absolute value.
pub open spec fn magnitude(w: u32) -> u32 {
    w & 0x7fff_ffff
}

/// The word encodes a NaN.
pub open spec fn is_nan(w: u32) -> bool {
    magnitude(w) > 0x7f80_0000
}

/// The sign bit is set.
pub open spec fn is_negative(w: u32) -> bool {
    w >= 0x8000_0000
}

/// The exponent field of a sample word.
pub open spec fn exponent_field(w: u32) -> nat {
    ((w >> 23) & 0xff) as nat
}

/// The fraction field of a sample word.
pub open spec fn fraction_field(w: u32) -> nat {
    (w & 0x7f_ffff) as nat
}

/// The significand of a finite word as an integer: the fraction field, with
/// the leading one in front of it unless the value is subnormal.
pub open spec fn significand(w: u32) -> nat {
    if exponent_field(w) == 0 {
        fraction_field(w)
    } else {
        fraction_field(w) + 0x80_0000
    }
}

/// The binary scale of a finite word: the absolute value that the word
/// encodes is `significand(w) * 2^(scale(w) - 150)`.
pub open spec fn scale(w: u32) -> nat {
    if exponent_field(w) == 0 {
        1
    } else {
        exponent_field(w)
    }
}

/// The absolute value that a word encodes, as the whole number of units of
/// `2^-149`, the smallest step of the encoding: the significand shifted up
/// by `scale - 1`. An infinity stands one binade above the largest finite
/// value.
pub open spec fn scaled_magnitude(w: u32) -> nat {
    significand(magnitude(w)) * pow2((scale(magnitude(w)) - 1) as nat)
}

/// The value that a word encodes, in units of `2^-149`.
pub open spec fn scaled_value(w: u32) -> int {
    if is_negative(w) {
        -(scaled_magnitude(w) as int)
    } else {
        scaled_magnitude(w) as int
    }
}

/// An integer that orders words as their values are ordered. Both zeros have
/// key 0. Meaningful for words that are not NaN.
pub open spec fn order_key(w: u32) -> int {
    if is_negative(w) {
        -(magnitude(w) as int)
    } else {
        magnitude(w) as int
    }
}

/// `a < b` as values. False when either is NaN.
pub open spec fn lt(a: u32, b: u32) -> bool {
    !is_nan(a) && !is_nan(b) && order_key(a) < order_key(b)
}

/// `a <= b` as values. False when either is NaN.
pub open spec fn le(a: u32, b: u32) -> bool {
    !is_nan(a) && !is_nan(b) && order_key(a) <= order_key(b)
}

/// The word with its sign flipped: the encoding of the negated value.
pub open spec fn negated(w: u32) -> u32 {
    w ^ 0x8000_0000
}

/// `x` limited to `[lo, hi]`: `lo` where `x < lo`, `hi` where `x > hi`, else
/// `x` itself, so a NaN stays as it is.
pub open spec fn clamped(x: u32, lo: u32, hi: u32) -> u32 {
    if lt(x, lo) {
        lo
    } else if lt(hi, x) {
        hi
    } else {
        x
    }
}

/// The larger of two values, ignoring a NaN: if one is NaN the other is
/// taken. Of two equal values the first is taken.
pub open spec fn larger(a: u32, b: u32) -> u32 {
    if is_nan(a) {
        b
    } else if is_nan(b) {
        a
    } else if lt(a, b) {
        b
    } else {
        a
    }
}

/// The smaller of two values, ignoring a NaN: if one is NaN the other is
/// taken. Of two equal values the first is taken.
pub open spec fn smaller(a: u32, b: u32) -> u32 {
    if is_nan(a) {
        b
    } else if is_nan(b) {
        a
    } else if lt(b, a) {
        b
    } else {
        a
    }
}

/// What the masks and shifts of this module do to a word: the facts about
/// the sign bit, the magnitude and the two fields that every other proof
/// here rests on.
pub proof fn lemma_word_bits(w: u32)
    by (bit_vector)
    ensures
        w & 0x7fff_ffff <= 0x7fff_ffff,
        (w & 0x7fff_ffff) & 0x7fff_ffff == w & 0x7fff_ffff,
        w < 0x8000_0000 ==> w & 0x7fff_ffff == w,
        w >= 0x8000_0000 ==> w & 0x7fff_ffff == w - 0x8000_0000,
        (w ^ 0x8000_0000) & 0x7fff_ffff == w & 0x7fff_ffff,
        (w ^ 0x8000_0000) >= 0x8000_0000 <==> w < 0x8000_0000,
        w & 0x7fff_ffff == 0 ==> w == 0 || w == 0x8000_0000,
        (w >> 23) & 0xff <= 255,
        w & 0x7f_ffff < 0x80_0000,
        (w & 0x7f_ffff) | 0x80_0000 == (w & 0x7f_ffff) + 0x80_0000,
        w <= 0x3f7f_ffff ==> (w >> 23) & 0xff <= 126,
        w == 0 ==> (w >> 23) & 0xff == 0 && w & 0x7f_ffff == 0,
{
}

/// Words without sign are ordered by exponent field first and fraction
/// field second.
proof fn lemma_words_compare(a: u32, b: u32)
    by (bit_vector)
    requires
        a < 0x8000_0000,
        b < 0x8000_0000,
    ensures
        a < b <==> ((a >> 23) & 0xff) < ((b >> 23) & 0xff) || (((a >> 23) & 0xff) == ((b >> 23)
            & 0xff) && (a & 0x7f_ffff) < (b & 0x7f_ffff)),
{
}

/// Absolute value of a sample word.
pub fn word_abs(w: u32) -> (r: u32)
    ensures
        r == magnitude(w),
        r <= 0x7fff_ffff,
        !is_negative(r),
        magnitude(r) == r,
        is_nan(r) == is_nan(w),
{
    proof {
        lemma_word_bits(w);
    }
    w & 0x7fff_ffff
}

/// Whether a sample word encodes a NaN.
pub fn word_is_nan(w: u32) -> (r: bool)
    ensures
        r == is_nan(w),
{
    word_abs(w) > 0x7f80_0000
}

/// Negation of a sample word.
pub fn word_neg(w: u32) -> (r: u32)
    ensures
        r == negated(w),
        magnitude(r) == magnitude(w),
        is_nan(r) == is_nan(w),
        is_negative(r) == !is_negative(w),
        order_key(r) == -order_key(w),
{
    proof {
        lemma_word_bits(w);
    }
    w ^ 0x8000_0000
}

/// The order key of a sample word as a machine integer.
fn key_of(w: u32) -> (k: i64)
    ensures
        k == order_key(w),
        -0x7fff_ffff <= k <= 0x7fff_ffff,
{
    let m: u32 = word_abs(w);
    if w >= 0x8000_0000 {
        -(m as i64)
    } else {
        m as i64
    }
}

/// `a < b` on sample words.
pub fn word_lt(a: u32, b: u32) -> (r: bool)
    ensures
        r == lt(a, b),
{
    !word_is_nan(a) && !word_is_nan(b) && key_of(a) < key_of(b)
}

/// `a <= b` on sample words.
pub fn word_le(a: u32, b: u32) -> (r: bool)
    ensures
        r == le(a, b),
{
    !word_is_nan(a) && !word_is_nan(b) && key_of(a) <= key_of(b)
}

/// Limits `x` to `[lo, hi]`.
pub fn word_clamp(x: u32, lo: u32, hi: u32) -> (r: u32)
    requires
        le(lo, hi),
    ensures
        r == clamped(x, lo, hi),
        is_nan(x) ==> r == x,
        !is_nan(x) ==> le(lo, r) && le(r, hi),
{
    if word_lt(x, lo) {
        lo
    } else if word_lt(hi, x) {
        hi
    } else {
        x
    }
}

/// The larger of two sample words, ignoring a NaN.
pub fn word_max(a: u32, b: u32) -> (r: u32)
    ensures
        r == larger(a, b),
{
    if word_is_nan(a) {
        b
    } else if word_is_nan(b) {
        a
    } else if word_lt(a, b) {
        b
    } else {
        a
    }
}

/// The smaller of two sample words, ignoring a NaN.
pub fn word_min(a: u32, b: u32) -> (r: u32)
    ensures
        r == smaller(a, b),
{
    if word_is_nan(a) {
        b
    } else if word_is_nan(b) {
        a
    } else if word_lt(b, a) {
        b
    } else {
        a
    }
}

/// Among words that are not NaN and not negative, the order of the values is
/// the order of the words themselves.
pub proof fn lemma_order_of_magnitudes(a: u32, b: u32)
    requires
        !is_nan(a),
        !is_nan(b),
        !is_negative(a),
        !is_negative(b),
    ensures
        lt(a, b) <==> a < b,
        le(a, b) <==> a <= b,
{
    lemma_word_bits(a);
    lemma_word_bits(b);
}

/// Words up to positive infinity are neither NaN nor negative, are their
/// own magnitude, and are ordered as values the way they are ordered as
/// integers; each lies at or above its own negation.
pub proof fn lemma_order_of_plain_words(a: u32, b: u32)
    requires
        a <= INFINITY,
        b <= INFINITY,
    ensures
        !is_nan(a) && !is_nan(b),
        !is_negative(a) && !is_negative(b),
        magnitude(a) == a && magnitude(b) == b,
        order_key(a) == a && order_key(b) == b,
        lt(a, b) <==> a < b,
        le(a, b) <==> a <= b,
        le(negated(a), a) && le(negated(b), b),
        le(ZERO, a) && le(ZERO, b),
{
    lemma_word_bits(a);
    lemma_word_bits(b);
    lemma_word_bits(0);
}

/// On words that are not NaN, `le` and `lt` form a total preorder: one of
/// `a < b`, `b < a` or `a <= b <= a` holds, and `le` is transitive.
pub proof fn lemma_order_is_total(a: u32, b: u32, c: u32)
    requires
        !is_nan(a),
        !is_nan(b),
        !is_nan(c),
    ensures
        lt(a, b) || lt(b, a) || (le(a, b) && le(b, a)),
        lt(a, b) <==> !le(b, a),
        le(a, b) && le(b, c) ==> le(a, c),
{
}

/// The fields of a word without sign: the exponent field is the word
/// shifted down, both fields are bounded, and words are ordered by exponent
/// field first and fraction field second.
proof fn lemma_fields_order(a: u32, b: u32)
    requires
        a < 0x8000_0000,
        b < 0x8000_0000,
    ensures
        exponent_field(a) <= 255,
        fraction_field(a) < 0x80_0000,
        magnitude(a) == a,
        a < b <==> exponent_field(a) < exponent_field(b) || (exponent_field(a) == exponent_field(
            b,
        ) && fraction_field(a) < fraction_field(b)),
{
    lemma_word_bits(a);
    lemma_words_compare(a, b);
}

/// A larger word without sign encodes a larger absolute value.
proof fn lemma_magnitude_grows(a: u32, b: u32)
    requires
        a < b,
        b < 0x8000_0000,
    ensures
        scaled_magnitude(a) < scaled_magnitude(b),
{
    lemma_fields_order(a, b);
    lemma_fields_order(b, a);
    let ea = exponent_field(a);
    let eb = exponent_field(b);
    let sa = significand(a);
    let sb = significand(b);
    let pa = pow2((scale(a) - 1) as nat);
    let pb = pow2((scale(b) - 1) as nat);
    lemma_pow2_pos((scale(a) - 1) as nat);
    lemma_pow2_pos((scale(b) - 1) as nat);
    if ea == eb {
        assert(sa * pa < sb * pb) by (nonlinear_arith)
            requires
                sa < sb,
                pa == pb,
                pa > 0,
        ;
    } else {
        if ea == 0 {
            assert(pa == 1) by {
                lemma2_to64();
            }
            assert(sa * pa < sb * pb) by (nonlinear_arith)
                requires
                    sa < 0x80_0000,
                    pa == 1,
                    sb >= 0x80_0000,
                    pb >= 1,
            ;
        } else {
            lemma_pow2_unfold(ea);
            if ea < eb - 1 {
                lemma_pow2_strictly_increases(ea, (eb - 1) as nat);
            }
            let top = pow2(ea);
            assert(sa * pa < sb * pb) by (nonlinear_arith)
                requires
                    sa < 0x100_0000,
                    top == 2 * pa,
                    top <= pb,
                    pa > 0,
                    sb >= 0x80_0000,
            ;
        }
    }
}

/// The order of words without sign is the order of the absolute values
/// that they encode.
pub proof fn lemma_magnitude_order_is_value_order(a: u32, b: u32)
    requires
        !is_negative(a),
        !is_negative(b),
    ensures
        a < b <==> scaled_magnitude(a) < scaled_magnitude(b),
        a == b <==> scaled_magnitude(a) == scaled_magnitude(b),
{
    if a < b {
        lemma_magnitude_grows(a, b);
    } else if b < a {
        lemma_magnitude_grows(b, a);
    }
}

/// The comparisons of this module are the comparisons of the encoded
/// values: for words that are not NaN, `lt` and `le` hold exactly when the
/// values, a sign and a significand times a power of two, stand in that
/// order. Both zeros encode the value zero.
pub proof fn lemma_order_is_value_order(a: u32, b: u32)
    requires
        !is_nan(a),
        !is_nan(b),
    ensures
        lt(a, b) <==> scaled_value(a) < scaled_value(b),
        le(a, b) <==> scaled_value(a) <= scaled_value(b),
        order_key(a) == 0 <==> scaled_value(a) == 0,
{
    let ma = magnitude(a);
    let mb = magnitude(b);
    lemma_word_bits(a);
    lemma_word_bits(b);
    lemma_word_bits(0);
    lemma_magnitude_order_is_value_order(ma, mb);
    lemma_magnitude_order_is_value_order(ma, 0);
    lemma_magnitude_order_is_value_order(mb, 0);
    assert(scaled_magnitude(0) == 0) by {
        assert(0 * pow2(0) == 0) by (nonlinear_arith);
    }
}

/// Flipping the sign bit negates the encoded value, and clearing it gives
/// the absolute value.
pub proof fn lemma_sign_is_value_sign(w: u32)
    ensures
        scaled_value(negated(w)) == -scaled_value(w),
        scaled_value(magnitude(w)) == scaled_magnitude(w),
        scaled_magnitude(w) == if scaled_value(w) < 0 {
            -scaled_value(w)
        } else {
            scaled_value(w)
        },
{
    lemma_word_bits(w);
}

} // verus!
