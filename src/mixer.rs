//! Mixing the samples of all active streams, and retiring the streams that ended.

use vstd::prelude::*;

use crate::sample::Sample;

verus! {

/// The mix of the samples that the streams gave, in stream order, starting
/// from silence; a stream that ended (`None`) adds nothing.
pub open spec fn mix_of<X: Sample>(outs: Seq<Option<X>>) -> X
    decreases outs.len(),
{
    if outs.len() == 0 {
        X::silence()
    } else {
        let m = mix_of(outs.drop_last());
        match outs.last() {
            Some(x) => m.mixed(x),
            None => m,
        }
    }
}

/// The streams whose sample was `Some`, in their order.
pub open spec fn kept<S, X>(streams: Seq<S>, outs: Seq<Option<X>>) -> Seq<S>
    decreases streams.len(),
{
    if streams.len() == 0 || outs.len() == 0 {
        Seq::empty()
    } else {
        let rest = kept(streams.drop_first(), outs.drop_first());
        if outs[0] is Some {
            seq![streams[0]] + rest
        } else {
            rest
        }
    }
}

/// Whether a stream's sample is silence or the end of the stream.
pub open spec fn is_silent<X: Sample>(o: Option<X>) -> bool {
    o is None || o == Some(X::silence())
}

/// Mix the samples that the active streams gave on this tick, one per stream
/// in order, and take out of `active` each stream that gave `None`, keeping
/// the order of the others.
pub fn mix_and_retire<S, X: Sample>(active: &mut Vec<S>, outs: &Vec<Option<X>>) -> (r: X)
    requires
        outs@.len() == old(active)@.len(),
    ensures
        r == mix_of(outs@),
        final(active)@ == kept(old(active)@, outs@),
{
    let n = outs.len();
    let mut mix = X::zero_value();
    let mut i: usize = 0;
    while i < n
        invariant
            n == outs@.len(),
            i <= n,
            mix == mix_of(outs@.subrange(0, i as int)),
        decreases n - i,
    {
        assert(outs@.subrange(0, i + 1).drop_last() =~= outs@.subrange(0, i as int));
        match outs[i] {
            Some(x) => mix = mix.mix(x),
            None => {},
        }
        i = i + 1;
    }
    assert(outs@.subrange(0, n as int) =~= outs@);
    let ghost streams = active@;
    let mut j: usize = n;
    assert(streams.subrange(n as int, n as int) =~= Seq::<S>::empty());
    while j > 0
        invariant
            n == outs@.len(),
            n == streams.len(),
            j <= n,
            active@ == streams.subrange(0, j as int) + kept(
                streams.subrange(j as int, n as int),
                outs@.subrange(j as int, n as int),
            ),
        decreases j,
    {
        let ghost tail = kept(streams.subrange(j as int, n as int), outs@.subrange(j as int, n as int));
        j = j - 1;
        assert(streams.subrange(j as int, n as int).drop_first() =~= streams.subrange(j + 1, n as int));
        assert(outs@.subrange(j as int, n as int).drop_first() =~= outs@.subrange(j + 1, n as int));
        if outs[j].is_none() {
            active.remove(j);
            assert(active@ =~= streams.subrange(0, j as int) + tail);
        } else {
            assert(active@ =~= streams.subrange(0, j as int) + (seq![streams[j as int]] + tail));
        }
    }
    assert(streams.subrange(0, 0) + kept(streams, outs@) =~= kept(streams, outs@));
    assert(streams.subrange(0, n as int) =~= streams);
    assert(outs@.subrange(0, n as int) =~= outs@);
    mix
}

/// Streams that all give silence or end mix to silence.
pub proof fn lemma_silent_mix<X: Sample>(outs: Seq<Option<X>>)
    requires
        forall|j: int| 0 <= j < outs.len() ==> is_silent(#[trigger] outs[j]),
    ensures
        mix_of(outs) == X::silence(),
    decreases outs.len(),
{
    if outs.len() > 0 {
        lemma_silent_mix(outs.drop_last());
        X::lemma_silence_left(X::silence());
    }
}

/// Mixing one stream's sample `x` with streams that all give silence or end
/// yields exactly `x`.
pub proof fn lemma_single_voice<X: Sample>(outs: Seq<Option<X>>, i: int, x: X)
    requires
        0 <= i < outs.len(),
        outs[i] == Some(x),
        forall|j: int| 0 <= j < outs.len() && j != i ==> is_silent(#[trigger] outs[j]),
    ensures
        mix_of(outs) == x,
    decreases outs.len(),
{
    if i == outs.len() - 1 {
        let pre = outs.drop_last();
        assert forall|j: int| 0 <= j < pre.len() implies is_silent(#[trigger] pre[j]) by {
            assert(pre[j] == outs[j]);
        }
        lemma_silent_mix(pre);
        X::lemma_silence_left(x);
    } else {
        let pre = outs.drop_last();
        assert forall|j: int| 0 <= j < pre.len() && j != i implies is_silent(#[trigger] pre[j]) by {
            assert(pre[j] == outs[j]);
        }
        lemma_single_voice(pre, i, x);
        X::lemma_silence_right(x);
    }
}

/// The position, among all streams, of the `k`-th stream kept.
pub open spec fn source_index<X>(outs: Seq<Option<X>>, k: int) -> int
    decreases outs.len(),
{
    if outs.len() == 0 {
        0
    } else if outs[0] is Some && k == 0 {
        0
    } else {
        1 + source_index(outs.drop_first(), if outs[0] is Some { k - 1 } else { k })
    }
}

proof fn lemma_kept_source<S, X>(streams: Seq<S>, outs: Seq<Option<X>>, k: int)
    requires
        streams.len() == outs.len(),
        0 <= k < kept(streams, outs).len(),
    ensures
        0 <= source_index(outs, k) < streams.len(),
        outs[source_index(outs, k)] is Some,
        kept(streams, outs)[k] == streams[source_index(outs, k)],
    decreases streams.len(),
{
    let (s1, o1) = (streams.drop_first(), outs.drop_first());
    if !(outs[0] is Some && k == 0) {
        let k1 = if outs[0] is Some { k - 1 } else { k };
        assert(kept(streams, outs)[k] == kept(s1, o1)[k1]);
        lemma_kept_source(s1, o1, k1);
        let j1 = source_index(o1, k1);
        assert(streams[j1 + 1] == s1[j1]);
        assert(outs[j1 + 1] == o1[j1]);
    }
}

proof fn lemma_kept_len<S, X>(streams: Seq<S>, outs: Seq<Option<X>>)
    requires
        streams.len() == outs.len(),
    ensures
        kept(streams, outs).len() == outs.filter(|o: Option<X>| o is Some).len(),
    decreases streams.len(),
{
    let pred = |o: Option<X>| o is Some;
    reveal(Seq::filter);
    if streams.len() > 0 {
        let (s1, o1) = (streams.drop_first(), outs.drop_first());
        lemma_kept_len(s1, o1);
        let head = seq![outs[0]];
        assert(outs =~= head + o1);
        Seq::filter_distributes_over_add(head, o1, pred);
        assert(head.drop_last() =~= Seq::<Option<X>>::empty());
        assert(Seq::<Option<X>>::empty().filter(pred) =~= Seq::<Option<X>>::empty());
        assert(head.filter(pred).len() == if outs[0] is Some { 1int } else { 0int });
    } else {
        assert(outs.filter(pred) =~= Seq::<Option<X>>::empty());
    }
}

/// A stream that gave `None` on a tick is not among the streams kept after it:
/// the `k`-th kept stream is the stream at a position whose sample was `Some`,
/// and the kept streams are exactly as many as those samples.
pub proof fn lemma_ended_streams_leave<S, X>(streams: Seq<S>, outs: Seq<Option<X>>)
    requires
        streams.len() == outs.len(),
    ensures
        forall|k: int|
            0 <= k < kept(streams, outs).len() ==> 0 <= #[trigger] source_index(outs, k)
                < streams.len() && outs[source_index(outs, k)] is Some && kept(streams, outs)[k]
                == streams[source_index(outs, k)],
        kept(streams, outs).len() == outs.filter(|o: Option<X>| o is Some).len(),
{
    assert forall|k: int| 0 <= k < kept(streams, outs).len() implies 0 <= #[trigger] source_index(
        outs,
        k,
    ) < streams.len() && outs[source_index(outs, k)] is Some && kept(streams, outs)[k]
        == streams[source_index(outs, k)] by {
        lemma_kept_source(streams, outs, k);
    }
    lemma_kept_len(streams, outs);
}

} // verus!
