//! Convolution of virtual speaker signals with head-related impulse responses.

use std::collections::VecDeque;
use vstd::prelude::*;

use crate::filter::{pushed_front, silent_seq};
use crate::sample::{Sample, Weighted};

verus! {

/// Mix of the products of the first `k` history samples with the first `k`
/// taps: the newest sample meets the first tap.
pub open spec fn head_dot<X: Weighted<X>>(buf: Seq<X>, h: Seq<X>, k: nat) -> X
    decreases k,
{
    if k == 0 {
        X::silence()
    } else {
        head_dot(buf, h, (k - 1) as nat).mixed(buf[k - 1].weighted(h[k - 1]))
    }
}

/// The response `h` applied to the history `buf`, newest sample first.
pub open spec fn respond<X: Weighted<X>>(buf: Seq<X>, h: Seq<X>) -> X {
    head_dot(buf, h, if buf.len() <= h.len() { buf.len() } else { h.len() })
}

/// The larger of two lengths.
pub open spec fn longer(a: nat, b: nat) -> nat {
    if a >= b { a } else { b }
}

/// One virtual speaker: its two impulse responses and its signal history.
pub struct VirtualSpeaker<X> {
    left: Vec<X>,
    right: Vec<X>,
    history: VecDeque<X>,
}

/// A virtual speaker as the contracts see it.
pub struct SpeakerState<X> {
    pub left: Seq<X>,
    pub right: Seq<X>,
    pub history: Seq<X>,
}

impl<X> View for VirtualSpeaker<X> {
    type V = SpeakerState<X>;

    closed spec fn view(&self) -> SpeakerState<X> {
        SpeakerState { left: self.left@, right: self.right@, history: self.history@ }
    }
}

/// The sample rates of the impulse responses and of the input differ.
#[derive(Clone, Copy, Debug, PartialEq, Eq, Structural)]
pub struct RateMismatch {
    /// The sample rate that the impulse-response data declares.
    pub declared: u32,
    /// The sample rate of the input.
    pub input: u32,
}

/// Mix, over the first `k` speakers, of each one's response to its history:
/// through the left-ear responses when `left`, else through the right-ear ones.
pub open spec fn bank_sum<X: Weighted<X>>(sp: Seq<SpeakerState<X>>, left: bool, k: nat) -> X
    decreases k,
{
    if k == 0 {
        X::silence()
    } else {
        let s = sp[k - 1];
        bank_sum(sp, left, (k - 1) as nat).mixed(
            respond(s.history, if left { s.left } else { s.right }),
        )
    }
}

proof fn lemma_bank_sum_prefix<X: Weighted<X>>(
    a: Seq<SpeakerState<X>>,
    b: Seq<SpeakerState<X>>,
    left: bool,
    k: nat,
)
    requires
        k <= a.len(),
        k <= b.len(),
        forall|j: int| 0 <= j < k ==> a[j] == b[j],
    ensures
        bank_sum(a, left, k) == bank_sum(b, left, k),
    decreases k,
{
    if k > 0 {
        lemma_bank_sum_prefix(a, b, left, (k - 1) as nat);
    }
}

fn respond_exec<X: Weighted<X>>(buf: &VecDeque<X>, h: &Vec<X>) -> (r: X)
    ensures
        r == respond(buf@, h@),
{
    let m: usize = if buf.len() <= h.len() { buf.len() } else { h.len() };
    let mut acc = X::zero_value();
    let mut k: usize = 0;
    while k < m
        invariant
            k <= m,
            m <= buf@.len(),
            m <= h@.len(),
            m == if buf@.len() <= h@.len() { buf@.len() } else { h@.len() },
            acc == head_dot(buf@, h@, k as nat),
        decreases m - k,
    {
        acc = acc.mix(buf[k].weigh(h[k]));
        k = k + 1;
    }
    acc
}

/// The convolution stage of headphone rendering: one signal per virtual
/// speaker goes in, one left and one right sample come out.
pub struct HrtfBank<X> {
    speakers: Vec<VirtualSpeaker<X>>,
}

impl<X: Weighted<X>> HrtfBank<X> {
    /// The virtual speakers, in the order of the data set.
    pub closed spec fn speakers(&self) -> Seq<SpeakerState<X>> {
        self.speakers@.map_values(|s: VirtualSpeaker<X>| s@)
    }

    /// A bank for the given `(left, right)` impulse responses, each speaker
    /// with a silent history as long as its longer response. Fails when the
    /// declared sample rate of the responses is not the input's.
    pub fn new(responses: Vec<(Vec<X>, Vec<X>)>, declared_rate: u32, input_rate: u32) -> (r:
        Result<Self, RateMismatch>)
        ensures
            declared_rate != input_rate ==> r == Err::<Self, RateMismatch>(
                RateMismatch { declared: declared_rate, input: input_rate },
            ),
            declared_rate == input_rate ==> r is Ok,
            r matches Ok(bank) ==> bank.speakers().len() == responses@.len() && forall|k: int|
                0 <= k < responses@.len() ==> {
                    let s = #[trigger] bank.speakers()[k];
                    &&& s.left == responses@[k].0@
                    &&& s.right == responses@[k].1@
                    &&& s.history == silent_seq::<X>(
                        longer(responses@[k].0@.len(), responses@[k].1@.len()),
                    )
                },
    {
        if declared_rate != input_rate {
            return Err(RateMismatch { declared: declared_rate, input: input_rate });
        }
        let ghost given = responses@;
        let mut speakers: Vec<VirtualSpeaker<X>> = Vec::new();
        let mut rest = responses;
        let n = rest.len();
        let mut i: usize = 0;
        while i < n
            invariant
                n == given.len(),
                i <= n,
                rest@ == given.subrange(i as int, n as int),
                speakers@.len() == i,
                forall|k: int|
                    0 <= k < i ==> {
                        let s = #[trigger] speakers@[k]@;
                        &&& s.left == given[k].0@
                        &&& s.right == given[k].1@
                        &&& s.history == silent_seq::<X>(
                            longer(given[k].0@.len(), given[k].1@.len()),
                        )
                    },
            decreases n - i,
        {
            let (left, right) = rest.remove(0);
            let len = if left.len() >= right.len() { left.len() } else { right.len() };
            let history = crate::filter::silent_buffer(len);
            speakers.push(VirtualSpeaker { left, right, history });
            i = i + 1;
        }
        let bank = HrtfBank { speakers };
        assert(bank.speakers().len() == given.len());
        Ok(bank)
    }

    /// Feed one signal to each virtual speaker and return the `(left, right)`
    /// output: each speaker's history takes in its signal, and the responses of
    /// all speakers to their histories are mixed, per ear.
    pub fn render(&mut self, signals: &Vec<X>) -> (r: (X, X))
        requires
            signals@.len() == old(self).speakers().len(),
        ensures
            final(self).speakers().len() == old(self).speakers().len(),
            forall|k: int|
                0 <= k < signals@.len() ==> #[trigger] final(self).speakers()[k] == (SpeakerState {
                    left: old(self).speakers()[k].left,
                    right: old(self).speakers()[k].right,
                    history: pushed_front(old(self).speakers()[k].history, signals@[k]),
                }),
            r.0 == bank_sum(final(self).speakers(), true, signals@.len()),
            r.1 == bank_sum(final(self).speakers(), false, signals@.len()),
    {
        let ghost before = self.speakers();
        let n = signals.len();
        let mut left = X::zero_value();
        let mut right = X::zero_value();
        let mut k: usize = 0;
        while k < n
            invariant
                n == signals@.len(),
                n == before.len(),
                k <= n,
                self.speakers().len() == n,
                forall|j: int|
                    0 <= j < k ==> #[trigger] self.speakers()[j] == (SpeakerState {
                        left: before[j].left,
                        right: before[j].right,
                        history: pushed_front(before[j].history, signals@[j]),
                    }),
                forall|j: int| k <= j < n ==> #[trigger] self.speakers()[j] == before[j],
                left == bank_sum(self.speakers(), true, k as nat),
                right == bank_sum(self.speakers(), false, k as nat),
            decreases n - k,
        {
            let ghost mid = self.speakers();
            let ghost old_speakers = self.speakers@;
            self.speakers[k].history.pop_back();
            self.speakers[k].history.push_front(signals[k]);
            assert(self.speakers@[k as int].history@ =~= pushed_front(
                mid[k as int].history,
                signals@[k as int],
            ));
            assert(self.speakers()[k as int] == (SpeakerState {
                left: before[k as int].left,
                right: before[k as int].right,
                history: pushed_front(before[k as int].history, signals@[k as int]),
            }));
            assert forall|j: int| 0 <= j < n && j != k implies #[trigger] self.speakers()[j]
                == mid[j] by {
                assert(self.speakers@[j] == old_speakers[j]);
            }
            assert forall|j: int| 0 <= j <= k implies #[trigger] self.speakers()[j] == (SpeakerState {
                left: before[j].left,
                right: before[j].right,
                history: pushed_front(before[j].history, signals@[j]),
            }) by {
                if j < k {
                    assert(mid[j] == self.speakers()[j]);
                }
            }
            assert forall|j: int| k < j < n implies #[trigger] self.speakers()[j] == before[j] by {
                assert(mid[j] == self.speakers()[j]);
            }
            proof {
                lemma_bank_sum_prefix(self.speakers(), mid, true, k as nat);
                lemma_bank_sum_prefix(self.speakers(), mid, false, k as nat);
            }
            left = left.mix(respond_exec(&self.speakers[k].history, &self.speakers[k].left));
            right = right.mix(respond_exec(&self.speakers[k].history, &self.speakers[k].right));
            k = k + 1;
        }
        (left, right)
    }
}

} // verus!
