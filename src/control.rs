//! The command protocol between a sound controller and its spatial stream.
//!
//! A controller queues commands; the stream drains the queue before it
//! produces its next sample. Weights and playback rates are opaque here: `W`
//! stands for the encoding weights and `R` for the playback rate.

use vstd::prelude::*;

verus! {

/// A command from a controller to its stream.
#[derive(Debug)]
pub enum Command<W, R> {
    /// Jump: the applied weights change at once.
    SetWeights(W),
    /// Glide: the weights that the applied ones move toward.
    SetTarget(W),
    /// The playback rate that the Doppler effect calls for.
    SetSpeed(R),
    /// End the stream.
    Stop,
}

/// The commands that place a source at once: the rate, then the applied and
/// the target weights.
pub fn jump_commands<W: Copy, R>(weights: W, rate: R) -> (r: Vec<Command<W, R>>)
    ensures
        r@ == seq![Command::SetSpeed(rate), Command::SetWeights(weights), Command::SetTarget(weights)],
{
    let mut v: Vec<Command<W, R>> = Vec::new();
    v.push(Command::SetSpeed(rate));
    v.push(Command::SetWeights(weights));
    v.push(Command::SetTarget(weights));
    assert(v@ =~= seq![Command::SetSpeed(rate), Command::SetWeights(weights), Command::SetTarget(weights)]);
    v
}

/// The commands that move a source smoothly: the rate, then the target weights.
pub fn glide_commands<W, R>(weights: W, rate: R) -> (r: Vec<Command<W, R>>)
    ensures
        r@ == seq![Command::SetSpeed(rate), Command::SetTarget(weights)],
{
    let mut v: Vec<Command<W, R>> = Vec::new();
    v.push(Command::SetSpeed(rate));
    v.push(Command::SetTarget(weights));
    assert(v@ =~= seq![Command::SetSpeed(rate), Command::SetTarget(weights)]);
    v
}

/// The control state of a spatial stream.
#[derive(Debug)]
pub struct StreamControl<W, R> {
    /// The weights applied to the next sample.
    pub weights: W,
    /// The weights that the applied ones move toward.
    pub target: W,
    /// The playback rate.
    pub speed: R,
    /// Whether the stream has ended; once set, it stays set.
    pub stopped: bool,
}

/// The state after one command.
pub open spec fn after_command<W, R>(s: StreamControl<W, R>, c: Command<W, R>) -> StreamControl<W, R> {
    if s.stopped {
        s
    } else {
        match c {
            Command::SetWeights(w) => StreamControl { weights: w, ..s },
            Command::SetTarget(w) => StreamControl { target: w, ..s },
            Command::SetSpeed(v) => StreamControl { speed: v, ..s },
            Command::Stop => StreamControl { stopped: true, ..s },
        }
    }
}

/// The state after the commands `cs`, in order. A stop ends the stream: the
/// commands after it have no effect.
pub open spec fn after_commands<W, R>(s: StreamControl<W, R>, cs: Seq<Command<W, R>>) -> StreamControl<W, R>
    decreases cs.len(),
{
    if cs.len() == 0 {
        s
    } else {
        after_commands(after_command(s, cs[0]), cs.drop_first())
    }
}

proof fn lemma_after_commands_push<W, R>(s: StreamControl<W, R>, cs: Seq<Command<W, R>>, c: Command<W, R>)
    ensures
        after_commands(s, cs.push(c)) == after_command(after_commands(s, cs), c),
    decreases cs.len(),
{
    if cs.len() > 0 {
        assert(cs.push(c).drop_first() =~= cs.drop_first().push(c));
        assert(cs.push(c)[0] == cs[0]);
        lemma_after_commands_push(after_command(s, cs[0]), cs.drop_first(), c);
    } else {
        assert(cs.push(c).drop_first() =~= cs);
        assert(cs.push(c)[0] == c);
        assert(after_commands(after_command(s, c), cs) == after_command(s, c));
    }
}

/// A stop ends the stream, and no command queued after it has any effect.
pub proof fn lemma_stop_is_final<W, R>(s: StreamControl<W, R>, cs: Seq<Command<W, R>>, i: int)
    requires
        0 <= i < cs.len(),
        cs[i] is Stop,
    ensures
        after_commands(s, cs).stopped,
        after_commands(s, cs) == after_commands(s, cs.subrange(0, i + 1)),
    decreases cs.len(),
{
    if i == 0 {
        lemma_stopped_stays(after_command(s, cs[0]), cs.drop_first());
        assert(cs.subrange(0, 1).drop_first() =~= Seq::<Command<W, R>>::empty());
        assert(cs.subrange(0, 1)[0] == cs[0]);
        let t = after_command(s, cs[0]);
        assert(after_commands(t, Seq::<Command<W, R>>::empty()) == t);
        assert(after_commands(s, cs.subrange(0, 1)) == after_commands(t, cs.subrange(0, 1).drop_first()));
    } else {
        lemma_stop_is_final(after_command(s, cs[0]), cs.drop_first(), i - 1);
        assert(cs.subrange(0, i + 1).drop_first() =~= cs.drop_first().subrange(0, i));
        assert(cs.subrange(0, i + 1)[0] == cs[0]);
        assert(after_commands(s, cs.subrange(0, i + 1)) == after_commands(
            after_command(s, cs[0]),
            cs.subrange(0, i + 1).drop_first(),
        ));
    }
}

proof fn lemma_stopped_stays<W, R>(s: StreamControl<W, R>, cs: Seq<Command<W, R>>)
    requires
        s.stopped,
    ensures
        after_commands(s, cs) == s,
    decreases cs.len(),
{
    if cs.len() > 0 {
        lemma_stopped_stays(after_command(s, cs[0]), cs.drop_first());
    }
}

impl<W: Copy, R: Copy> StreamControl<W, R> {
    /// A running stream at rest at `weights`, playing at `speed`.
    pub fn new(weights: W, speed: R) -> (r: Self)
        ensures
            r == (StreamControl { weights, target: weights, speed, stopped: false }),
    {
        StreamControl { weights, target: weights, speed, stopped: false }
    }

    /// Apply the queued commands in order and report whether the stream has
    /// ended.
    pub fn apply(&mut self, commands: &Vec<Command<W, R>>) -> (r: bool)
        ensures
            *final(self) == after_commands(*old(self), commands@),
            r == final(self).stopped,
    {
        let ghost start = *self;
        let mut i: usize = 0;
        while i < commands.len()
            invariant
                i <= commands@.len(),
                *self == after_commands(start, commands@.subrange(0, i as int)),
            decreases commands@.len() - i,
        {
            if !self.stopped {
                match commands[i] {
                    Command::SetWeights(w) => self.weights = w,
                    Command::SetTarget(w) => self.target = w,
                    Command::SetSpeed(v) => self.speed = v,
                    Command::Stop => self.stopped = true,
                }
            }
            proof {
                lemma_after_commands_push(start, commands@.subrange(0, i as int), commands@[i as int]);
                assert(commands@.subrange(0, i as int).push(commands@[i as int]) =~= commands@.subrange(
                    0,
                    i + 1,
                ));
            }
            i = i + 1;
        }
        assert(commands@.subrange(0, commands@.len() as int) =~= commands@);
        self.stopped
    }
}

} // verus!
