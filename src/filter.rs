//! Delay lines and filters over ring buffers of samples.
//!
//! Each buffer is a `VecDeque` whose front holds the newest sample and whose
//! back holds the oldest one.

use std::collections::VecDeque;
use vstd::prelude::*;
use vstd::std_specs::iter::IteratorSpec;

use crate::sample::{Sample, Weighted};

verus! {

/// `n` silent samples.
pub open spec fn silent_seq<X: Sample>(n: nat) -> Seq<X> {
    Seq::new(n, |i: int| X::silence())
}

/// The buffer after `x` enters at the front and the oldest sample leaves at the back.
pub open spec fn shifted<X>(buf: Seq<X>, x: X) -> Seq<X> {
    seq![x] + buf.drop_last()
}

/// The history after `x` enters at the front of `buf`; the oldest sample
/// leaves at the back unless `buf` is empty.
pub open spec fn pushed_front<X>(buf: Seq<X>, x: X) -> Seq<X> {
    seq![x] + (if buf.len() > 0 {
        buf.drop_last()
    } else {
        buf
    })
}

/// Mix of the products of the last `k` samples of `buf` with the last `k`
/// weights of `w`, taken from the back: the oldest sample meets the last weight.
pub open spec fn tail_dot<W, X: Weighted<W>>(buf: Seq<X>, w: Seq<W>, k: nat) -> X
    decreases k,
{
    if k == 0 {
        X::silence()
    } else {
        tail_dot(buf, w, (k - 1) as nat).mixed(
            buf[buf.len() - k].weighted(w[w.len() - k]),
        )
    }
}

/// The convolution of a sample history with filter weights, aligned at the back.
pub open spec fn convolve<W, X: Weighted<W>>(buf: Seq<X>, w: Seq<W>) -> X {
    let k = if buf.len() <= w.len() { buf.len() } else { w.len() };
    tail_dot(buf, w, k)
}

pub(crate) fn silent_buffer<X: Sample>(n: usize) -> (r: VecDeque<X>)
    ensures
        r@ == silent_seq::<X>(n as nat),
{
    let mut buf: VecDeque<X> = VecDeque::new();
    let mut i: usize = 0;
    while i < n
        invariant
            i <= n,
            buf@ == silent_seq::<X>(i as nat),
        decreases n - i,
    {
        buf.push_back(X::zero_value());
        i = i + 1;
        assert(buf@ =~= silent_seq::<X>(i as nat));
    }
    buf
}

fn dot_from_back<W: Copy, X: Weighted<W>>(buf: &VecDeque<X>, w: &Vec<W>) -> (r: X)
    ensures
        r == convolve(buf@, w@),
{
    let m: usize = if buf.len() <= w.len() { buf.len() } else { w.len() };
    let mut acc = X::zero_value();
    let mut k: usize = 0;
    while k < m
        invariant
            k <= m,
            m <= buf@.len(),
            m <= w@.len(),
            m == if buf@.len() <= w@.len() { buf@.len() } else { w@.len() },
            acc == tail_dot(buf@, w@, k as nat),
        decreases m - k,
    {
        let p = buf[buf.len() - 1 - k].weigh(w[w.len() - 1 - k]);
        acc = acc.mix(p);
        k = k + 1;
    }
    acc
}

/// A simple delay line.
pub struct Delay<X> {
    buffer: VecDeque<X>,
    last_output: X,
}

impl<X: Sample> Delay<X> {
    /// The samples in the line, newest first.
    pub closed spec fn line(&self) -> Seq<X> {
        self.buffer@
    }

    /// The sample that the line gave out last.
    pub closed spec fn last_out(&self) -> X {
        self.last_output
    }

    /// A delay line of `n` samples, filled with silence.
    pub fn new(n: usize) -> (r: Self)
        ensures
            r.line() == silent_seq::<X>(n as nat),
            r.last_out() == X::silence(),
    {
        Delay { buffer: silent_buffer(n), last_output: X::zero_value() }
    }

    /// Push a new sample into the line and return the oldest one, which leaves it.
    pub fn push(&mut self, x: X) -> (r: X)
        requires
            old(self).line().len() > 0,
        ensures
            r == old(self).line().last(),
            final(self).line() == shifted(old(self).line(), x),
            final(self).last_out() == r,
    {
        let out = self.buffer.pop_back().unwrap();
        self.last_output = out;
        self.buffer.push_front(x);
        out
    }

    /// Take the oldest sample out of the line once there is no more input.
    pub fn push_empty(&mut self) -> (r: Option<X>)
        ensures
            old(self).line().len() == 0 ==> r is None && final(self).line() == old(self).line(),
            old(self).line().len() > 0 ==> r == Some(old(self).line().last())
                && final(self).line() == old(self).line().drop_last(),
            final(self).last_out() == old(self).last_out(),
    {
        self.buffer.pop_back()
    }

    /// The sample that the line gave out last.
    pub fn last(&self) -> (r: X)
        ensures
            r == self.last_out(),
    {
        self.last_output
    }
}

/// An all-pass filter with a delay element.
pub struct AllPass<W, X> {
    buffer: VecDeque<X>,
    last_output: X,
    forward_coefficient: W,
    backward_coefficient: W,
}

/// The output of an all-pass step whose feedback sum is `c` and whose delayed
/// sample is `d`.
pub open spec fn all_pass_output<W, X: Weighted<W>>(c: X, d: X, forward: W) -> X {
    c.weighted(forward).mixed(d)
}

impl<W: Copy, X: Weighted<W>> AllPass<W, X> {
    /// The delayed samples, newest first.
    pub closed spec fn line(&self) -> Seq<X> {
        self.buffer@
    }

    /// The sample that the filter gave out last.
    pub closed spec fn last_out(&self) -> X {
        self.last_output
    }

    /// The coefficient applied to the feedback sum on its way out.
    pub closed spec fn forward(&self) -> W {
        self.forward_coefficient
    }

    /// The coefficient applied to the delayed sample on its way back in.
    pub closed spec fn backward(&self) -> W {
        self.backward_coefficient
    }

    /// An all-pass filter with a delay of `n` samples, forward coefficient `f`
    /// and backward coefficient `b`.
    pub fn new(n: usize, f: W, b: W) -> (r: Self)
        ensures
            r.line() == silent_seq::<X>(n as nat),
            r.last_out() == X::silence(),
            r.forward() == f,
            r.backward() == b,
    {
        AllPass {
            buffer: silent_buffer(n),
            last_output: X::zero_value(),
            forward_coefficient: f,
            backward_coefficient: b,
        }
    }

    /// Push a new sample into the filter and return the filtered output.
    ///
    /// With `d` the oldest delayed sample, the feedback sum `c = x + d * b`
    /// enters the delay line and `c * f + d` comes out.
    pub fn push(&mut self, x: X) -> (r: X)
        requires
            old(self).line().len() > 0,
        ensures
            ({
                let d = old(self).line().last();
                let c = x.mixed(d.weighted(old(self).backward()));
                &&& r == all_pass_output(c, d, old(self).forward())
                &&& final(self).line() == shifted(old(self).line(), c)
            }),
            final(self).last_out() == r,
            final(self).forward() == old(self).forward(),
            final(self).backward() == old(self).backward(),
    {
        let d = self.buffer.pop_back().unwrap();
        let c = x.mix(d.weigh(self.backward_coefficient));
        self.last_output = c.weigh(self.forward_coefficient).mix(d);
        self.buffer.push_front(c);
        self.last_output
    }

    /// Produce the next output once there is no more input: the filter goes on
    /// as if it were fed silence, without the silent sample itself in the sum.
    pub fn push_empty(&mut self) -> (r: Option<X>)
        requires
            old(self).line().len() > 0,
        ensures
            ({
                let d = old(self).line().last();
                let c = d.weighted(old(self).backward());
                &&& r == Some(all_pass_output(c, d, old(self).forward()))
                &&& final(self).line() == shifted(old(self).line(), c)
            }),
            final(self).last_out() == r->0,
            final(self).forward() == old(self).forward(),
            final(self).backward() == old(self).backward(),
    {
        let d = self.buffer.pop_back().unwrap();
        let c = d.weigh(self.backward_coefficient);
        self.last_output = c.weigh(self.forward_coefficient).mix(d);
        self.buffer.push_front(c);
        Some(self.last_output)
    }

    /// The sample that the filter gave out last.
    pub fn last(&self) -> (r: X)
        ensures
            r == self.last_out(),
    {
        self.last_output
    }
}

/// A finite impulse response filter.
pub struct FirFilter<W, X> {
    convolution_buffer: VecDeque<X>,
    weights: Vec<W>,
}

impl<W: Copy, X: Weighted<W>> FirFilter<W, X> {
    /// The input history, newest first.
    pub closed spec fn history(&self) -> Seq<X> {
        self.convolution_buffer@
    }

    /// The filter weights.
    pub closed spec fn taps(&self) -> Seq<W> {
        self.weights@
    }

    /// `post` is `pre` after `x` was pushed, with output `r`.
    pub open spec fn pushed(pre: Self, post: Self, x: X, r: X) -> bool {
        &&& post.history() == pushed_front(pre.history(), x)
        &&& post.taps() == pre.taps()
        &&& r == convolve(post.history(), post.taps())
    }

    /// `post` is `pre` after a step without input, with output `r`.
    pub open spec fn drained(pre: Self, post: Self, r: Option<X>) -> bool {
        &&& post.taps() == pre.taps()
        &&& pre.history().len() == 0 ==> r is None && post.history() == pre.history()
        &&& pre.history().len() > 0 ==> post.history() == pre.history().drop_last() && r == Some(
            convolve(post.history(), post.taps()),
        )
    }

    /// A filter with the given weights and a silent history of the same length.
    pub fn new(weights: Vec<W>) -> (r: Self)
        ensures
            r.taps() == weights@,
            r.history() == silent_seq::<X>(weights@.len()),
    {
        FirFilter { convolution_buffer: silent_buffer(weights.len()), weights }
    }

    /// Push a new sample into the filter and return the filtered output: the
    /// history, after the oldest sample has left and `x` has entered, convolved
    /// with the weights.
    pub fn push(&mut self, x: X) -> (r: X)
        ensures
            Self::pushed(*old(self), *final(self), x, r),
    {
        self.convolution_buffer.pop_back();
        self.convolution_buffer.push_front(x);
        dot_from_back(&self.convolution_buffer, &self.weights)
    }

    /// Produce the next output once there is no more input: the oldest sample
    /// leaves the history and the rest is convolved with the weights. `None`
    /// once the history is empty.
    pub fn push_empty(&mut self) -> (r: Option<X>)
        ensures
            Self::drained(*old(self), *final(self), r),
    {
        if self.convolution_buffer.pop_back().is_none() {
            return None;
        }
        Some(dot_from_back(&self.convolution_buffer, &self.weights))
    }
}

/// A FIR filter applied to the samples of an input iterator.
pub struct FirFilterIterator<I: Iterator, W> {
    input: I,
    filter: FirFilter<W, I::Item>,
}

impl<I: Iterator, W: Copy> FirFilterIterator<I, W> where I::Item: Weighted<W> {
    /// The input iterator.
    pub closed spec fn source(&self) -> I {
        self.input
    }

    /// The filter state.
    pub closed spec fn state(&self) -> FirFilter<W, I::Item> {
        self.filter
    }

    /// Filter `input` with the given weights, starting from a silent history.
    pub fn new(input: I, weights: Vec<W>) -> (r: Self)
        ensures
            r.source() == input,
            r.state().taps() == weights@,
            r.state().history() == silent_seq::<I::Item>(weights@.len()),
    {
        FirFilterIterator { input, filter: FirFilter::new(weights) }
    }

    /// The next filtered sample: the next input sample pushed through the
    /// filter, or, once the input has ended, the filter's tail.
    pub fn next(&mut self) -> (r: Option<I::Item>)
        ensures
            (exists|x: I::Item, y: I::Item|
                #![trigger FirFilter::pushed(old(self).state(), final(self).state(), x, y)]
                r == Some(y) && FirFilter::pushed(old(self).state(), final(self).state(), x, y))
                || FirFilter::drained(old(self).state(), final(self).state(), r),
            old(self).source().obeys_prophetic_iter_laws() ==> if old(
                self,
            ).source().remaining().len() > 0 {
                r is Some && FirFilter::pushed(
                    old(self).state(),
                    final(self).state(),
                    old(self).source().remaining()[0],
                    r->0,
                )
            } else {
                FirFilter::drained(old(self).state(), final(self).state(), r)
            },
    {
        match self.input.next() {
            Some(x) => {
                let y = self.filter.push(x);
                assert(FirFilter::pushed(old(self).state(), self.state(), x, y));
                Some(y)
            },
            None => self.filter.push_empty(),
        }
    }
}

} // verus!
