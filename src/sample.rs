//! The arithmetic that the signal processing structures need from a sample.

use vstd::prelude::*;

verus! {

/// A mixable audio sample: it has a silent value, and two samples mix into one.
///
/// Silence is the identity of mixing, on either side.
pub trait Sample: Copy + Sized {
    /// The silent sample.
    spec fn silence() -> Self;

    /// The mix of two samples.
    spec fn mixed(self, other: Self) -> Self;

    proof fn lemma_silence_left(x: Self)
        ensures
            Self::silence().mixed(x) == x,
    ;

    proof fn lemma_silence_right(x: Self)
        ensures
            x.mixed(Self::silence()) == x,
    ;

    fn zero_value() -> (r: Self)
        ensures
            r == Self::silence(),
    ;

    fn mix(self, other: Self) -> (r: Self)
        ensures
            r == self.mixed(other),
    ;
}

/// A sample that can be scaled by a weight of type `W`.
pub trait Weighted<W>: Sample {
    /// The sample scaled by `w`.
    spec fn weighted(self, w: W) -> Self;

    fn weigh(self, w: W) -> (r: Self)
        ensures
            r == self.weighted(w),
    ;
}

/// `v` clamped to the range of `i16`.
pub open spec fn clamp_i16(v: int) -> i16 {
    if v > i16::MAX {
        i16::MAX
    } else if v < i16::MIN {
        i16::MIN
    } else {
        v as i16
    }
}

fn saturate(v: i32) -> (r: i16)
    ensures
        r == clamp_i16(v as int),
{
    if v > i16::MAX as i32 {
        i16::MAX
    } else if v < i16::MIN as i32 {
        i16::MIN
    } else {
        v as i16
    }
}

/// 16-bit PCM samples mix by saturating addition.
impl Sample for i16 {
    open spec fn silence() -> i16 {
        0
    }

    open spec fn mixed(self, other: i16) -> i16 {
        clamp_i16(self + other)
    }

    proof fn lemma_silence_left(x: i16) {
    }

    proof fn lemma_silence_right(x: i16) {
    }

    fn zero_value() -> (r: i16) {
        0
    }

    fn mix(self, other: i16) -> (r: i16) {
        saturate(self as i32 + other as i32)
    }
}

/// 16-bit PCM samples scale by an integer gain, saturating.
impl Weighted<i16> for i16 {
    open spec fn weighted(self, w: i16) -> i16 {
        clamp_i16(self * w)
    }

    fn weigh(self, w: i16) -> (r: i16) {
        assert(-0x4000_0000 <= self as int * w as int <= 0x4000_0000) by (nonlinear_arith)
            requires
                -0x8000 <= self as int <= 0x7fff,
                -0x8000 <= w as int <= 0x7fff,
        ;
        saturate(self as i32 * w as i32)
    }
}

} // verus!
