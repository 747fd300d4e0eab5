use vstd::arithmetic::div_mod::{lemma_div_of0, lemma_multiply_divide_lt};
use vstd::prelude::*;

use crate::easing::{Curve, Easing, Linear};
use crate::fixed::{lemma_fixed_eq, lemma_from_view, lerp_raw, Fixed, RAW_LIMIT, SCALE};
use crate::tweenable::Tweenable;

verus! {

/// One timed segment of an animation: how long it lasts, which values it
/// moves between, and the easing curve applied within it.
pub struct Stage<T: Tweenable> {
    pub duration: Fixed,
    pub from: T,
    pub to: T,
    pub easing: Curve,
}

/// Spec-level playhead: inside stage `stage` with `time` raw units elapsed
/// within it, or past the last stage.
pub enum Playhead {
    Running { stage: int, time: int },
    Finished,
}

/// Advance a playhead that is at stage `i` with `t` raw units elapsed,
/// crossing whole stages while the remaining time covers them. Mirrors the
/// required advance loop: a zero-duration stage is always crossed, so a
/// progress fraction is never formed for it.
pub open spec fn advance<T: Tweenable>(stages: Seq<Stage<T>>, i: int, t: int) -> Playhead
    decreases stages.len() - i,
{
    if i >= stages.len() {
        Playhead::Finished
    } else if t >= stages[i].duration@ {
        advance(stages, i + 1, t - stages[i].duration@)
    } else {
        Playhead::Running { stage: i, time: t }
    }
}

/// Total remaining duration from stage `i` on.
pub open spec fn remaining_duration<T: Tweenable>(stages: Seq<Stage<T>>, i: int) -> int
    decreases stages.len() - i,
{
    if i >= stages.len() {
        0
    } else {
        stages[i].duration@ + remaining_duration(stages, i + 1)
    }
}

/// The normalized progress fraction `t / d` in fixed-point raw units.
pub open spec fn progress_of(t: int, d: int) -> int {
    (t * (SCALE as int)) / d
}

/// The value a stage shows `t` raw units into its interval.
pub open spec fn stage_value_at<T: Tweenable>(s: Stage<T>, t: int) -> T {
    s.from.lerp_spec(s.to, s.easing.eval(progress_of(t, s.duration@)))
}

/// Internal run-time playhead.
#[derive(Clone, Copy)]
enum State {
    Running { stage_index: usize, time: i64 },
    Finished,
}

/// A staged animation: an ordered list of stages, a playhead, and a cached
/// current value that `update` keeps in step with the playhead.
pub struct Sequence<T: Tweenable> {
    start: T,
    stages: Vec<Stage<T>>,
    state: State,
    current_value: T,
}

impl<T: Tweenable> Sequence<T> {
    /// The stages, in order.
    pub closed spec fn stages(self) -> Seq<Stage<T>> {
        self.stages@
    }

    /// The initial value the sequence was built from.
    pub closed spec fn start_value(self) -> T {
        self.start
    }

    /// The cached current value.
    pub closed spec fn value(self) -> T {
        self.current_value
    }

    pub closed spec fn is_finished(self) -> bool {
        self.state is Finished
    }

    /// Index of the active stage; meaningful only while running.
    pub closed spec fn stage_index(self) -> int {
        match self.state {
            State::Running { stage_index, .. } => stage_index as int,
            State::Finished => 0,
        }
    }

    /// Raw time elapsed within the active stage; meaningful only while running.
    pub closed spec fn stage_time(self) -> int {
        match self.state {
            State::Running { time, .. } => time as int,
            State::Finished => 0,
        }
    }

    /// The value a newly appended stage must start from: the end of the last
    /// stage, or the initial value if there is none.
    pub open spec fn chain_end(self) -> T {
        if self.stages().len() == 0 {
            self.start_value()
        } else {
            self.stages().last().to
        }
    }

    /// Well-formedness: durations are non-negative and representable, each
    /// stage starts where the previous one ended, and the playhead sits
    /// inside the stage list.
    pub open spec fn wf(self) -> bool {
        &&& forall|k: int|
            0 <= k < self.stages().len() ==> 0 <= (#[trigger] self.stages()[k]).duration@
                <= RAW_LIMIT as int
        &&& forall|k: int|
            1 <= k < self.stages().len() ==> (#[trigger] self.stages()[k]).from == self.stages()[k
                - 1].to
        &&& (self.stages().len() > 0 ==> self.stages()[0].from == self.start_value())
        &&& (self.stages().len() == 0 ==> self.value() == self.start_value())
        &&& (!self.is_finished() ==> {
            if self.stages().len() == 0 {
                self.stage_index() == 0 && self.stage_time() == 0
            } else {
                &&& 0 <= self.stage_index() < self.stages().len()
                &&& 0 <= self.stage_time() <= self.stages()[self.stage_index()].duration@
            }
        })
    }

    /// A fresh sequence: no stages, playhead at the start of stage zero, and
    /// the cached value equal to `start`.
    pub fn new(start: T) -> (r: Sequence<T>)
        ensures
            r.wf(),
            r.stages().len() == 0,
            !r.is_finished(),
            r.stage_index() == 0,
            r.stage_time() == 0,
            r.value() == start,
            r.start_value() == start,
    {
        Sequence {
            start,
            stages: Vec::new(),
            state: State::Running { stage_index: 0, time: 0 },
            current_value: start,
        }
    }

    /// Append a stage lasting `duration` that moves from the current chain
    /// end to `target` under `easing`.
    pub fn tween<E: Easing>(self, duration: Fixed, target: T, easing: E) -> (r: Sequence<T>)
        requires
            self.wf(),
            duration@ >= 0,
        ensures
            r.wf(),
            r.stages().len() == self.stages().len() + 1,
            r.stages().subrange(0, self.stages().len() as int) == self.stages(),
            r.stages().last().duration == duration,
            r.stages().last().from == self.chain_end(),
            r.stages().last().to == target,
            forall|x: int| #[trigger] r.stages().last().easing.eval(x) == easing.ease_spec(x),
            r.start_value() == self.start_value(),
            r.value() == self.value(),
            r.is_finished() == self.is_finished(),
            r.stage_index() == self.stage_index(),
            r.stage_time() == self.stage_time(),
    {
        // Reading the raw value establishes that the duration is within the
        // representable range, which the well-formedness of the result needs.
        let _duration_raw: i64 = duration.raw();
        let from = if self.stages.len() == 0 {
            self.start
        } else {
            self.stages[self.stages.len() - 1].to
        };
        let mut s = self;
        let ghost old_stages = s.stages@;
        let stage = Stage { duration, from, to: target, easing: easing.into_curve() };
        s.stages.push(stage);
        proof {
            assert(s.stages@.subrange(0, old_stages.len() as int) =~= old_stages);
        }
        s
    }

    /// Append a stage that holds the current chain end constant for
    /// `duration`; the curve is irrelevant since start equals end, so the
    /// identity curve is used.
    pub fn wait(self, duration: Fixed) -> (r: Sequence<T>)
        requires
            self.wf(),
            duration@ >= 0,
        ensures
            r.wf(),
            r.stages().len() == self.stages().len() + 1,
            r.stages().subrange(0, self.stages().len() as int) == self.stages(),
            r.stages().last().duration == duration,
            r.stages().last().from == self.chain_end(),
            r.stages().last().to == self.chain_end(),
            forall|x: int| #[trigger] r.stages().last().easing.eval(x) == x,
            r.start_value() == self.start_value(),
            r.value() == self.value(),
            r.is_finished() == self.is_finished(),
            r.stage_index() == self.stage_index(),
            r.stage_time() == self.stage_time(),
    {
        let target = if self.stages.len() == 0 {
            self.start
        } else {
            self.stages[self.stages.len() - 1].to
        };
        self.tween(duration, target, Linear)
    }

    /// A one-stage sequence moving from `from` to `to` over `duration`.
    pub fn single<E: Easing>(duration: Fixed, from: T, to: T, easing: E) -> (r: Sequence<T>)
        requires
            duration@ >= 0,
        ensures
            r.wf(),
            r.stages().len() == 1,
            r.stages()[0].duration == duration,
            r.stages()[0].from == from,
            r.stages()[0].to == to,
            forall|x: int| #[trigger] r.stages()[0].easing.eval(x) == easing.ease_spec(x),
            r.start_value() == from,
            r.value() == from,
            !r.is_finished(),
            r.stage_index() == 0,
            r.stage_time() == 0,
    {
        Sequence::new(from).tween(duration, to, easing)
    }

    /// What one `update` call does while the sequence is running with at
    /// least one stage: the playhead advances by `delta`, and the cached
    /// value is recomputed from the stage it lands in, or pinned to the last
    /// stage's end value if it ran past the end.
    pub open spec fn advanced_state(pre: Sequence<T>, post: Sequence<T>, delta: int) -> bool {
        match advance(pre.stages(), pre.stage_index(), pre.stage_time() + delta) {
            Playhead::Running { stage, time } => {
                &&& !post.is_finished()
                &&& post.stage_index() == stage
                &&& post.stage_time() == time
                &&& post.value() == stage_value_at(pre.stages()[stage], time)
            },
            Playhead::Finished => {
                &&& post.is_finished()
                &&& post.value() == pre.stages().last().to
            },
        }
    }

    /// Advance the playhead by `delta` elapsed time. Crosses as many stage
    /// boundaries as the elapsed time covers; once finished, does nothing.
    pub fn update(&mut self, delta: Fixed)
        requires
            old(self).wf(),
            delta@ >= 0,
        ensures
            final(self).wf(),
            final(self).stages() == old(self).stages(),
            final(self).start_value() == old(self).start_value(),
            (old(self).is_finished() ==> *final(self) == *old(self)),
            ((!old(self).is_finished() && old(self).stages().len() == 0) ==> (final(self).is_finished()
                && final(self).value() == old(self).value())),
            ((!old(self).is_finished() && old(self).stages().len() > 0)
                ==> Sequence::advanced_state(*old(self), *final(self), delta@)),
    {
        match self.state {
            State::Finished => {},
            State::Running { stage_index, time } => {
                if self.stages.len() == 0 {
                    self.state = State::Finished;
                    return;
                }
                let ghost pre = *self;
                let ghost target = advance(
                    pre.stages(),
                    pre.stage_index(),
                    pre.stage_time() + delta@,
                );
                let delta_raw: i64 = delta.raw();
                let mut i: usize = stage_index;
                let mut t: i64 = time + delta_raw;
                loop
                    invariant
                        pre == *old(self),
                        target == advance(pre.stages(), pre.stage_index(), pre.stage_time()
                            + delta@),
                        delta@ >= 0,
                        pre.wf(),
                        !pre.is_finished(),
                        pre.stages().len() > 0,
                        *self == pre,
                        0 <= i < self.stages.len(),
                        0 <= t <= 2 * RAW_LIMIT,
                        advance(pre.stages(), i as int, t as int) == target,
                    ensures
                        *self == pre,
                        0 <= i < self.stages.len(),
                        0 <= t,
                        t < self.stages@[i as int].duration@,
                        advance(pre.stages(), i as int, t as int) == target,
                    decreases self.stages.len() - i,
                {
                    let d: i64 = self.stages[i].duration.raw();
                    if t >= d {
                        proof {
                            assert(advance(pre.stages(), i as int, t as int) == advance(
                                pre.stages(),
                                i as int + 1,
                                t as int - d as int,
                            ));
                        }
                        t = t - d;
                        i = i + 1;
                        if i >= self.stages.len() {
                            let last_to = self.stages[self.stages.len() - 1].to;
                            proof {
                                assert(advance(pre.stages(), i as int, t as int)
                                    == Playhead::Finished);
                            }
                            self.state = State::Finished;
                            self.current_value = last_to;
                            return;
                        }
                    } else {
                        break;
                    }
                }
                let d: i64 = self.stages[i].duration.raw();
                let prog: Fixed = frac(t, d);
                let amount: Fixed = self.stages[i].easing.evaluate(prog);
                let from_v = self.stages[i].from;
                let to_v = self.stages[i].to;
                let v = from_v.lerp(to_v, amount);
                proof {
                    assert(advance(pre.stages(), i as int, t as int) == (Playhead::Running {
                        stage: i as int,
                        time: t as int,
                    }));
                    assert(v == stage_value_at(pre.stages()[i as int], t as int));
                }
                self.state = State::Running { stage_index: i, time: t };
                self.current_value = v;
            },
        }
    }

    /// The cached interpolated value.
    pub fn current(&self) -> (r: T)
        ensures
            r == self.value(),
    {
        self.current_value
    }

    pub fn finished(&self) -> (r: bool)
        ensures
            r == self.is_finished(),
    {
        match self.state {
            State::Finished => true,
            State::Running { .. } => false,
        }
    }

    /// Return the playhead to the start of stage zero and restore the cached
    /// value to the initial value.
    pub fn reset(&mut self)
        requires
            old(self).wf(),
        ensures
            final(self).wf(),
            final(self).stages() == old(self).stages(),
            final(self).start_value() == old(self).start_value(),
            !final(self).is_finished(),
            final(self).stage_index() == 0,
            final(self).stage_time() == 0,
            final(self).value() == old(self).start_value(),
    {
        self.state = State::Running { stage_index: 0, time: 0 };
        self.current_value = self.start;
    }
}

/// The progress fraction `t / d` as a fixed-point value.
fn frac(t: i64, d: i64) -> (r: Fixed)
    requires
        0 <= t < d,
    ensures
        r@ == progress_of(t as int, d as int),
        0 <= r@ < SCALE as int,
{
    let m: u128 = (t as u128) * 65536;
    let q: u128 = m / (d as u128);
    proof {
        lemma_multiply_divide_lt(t as int * SCALE as int, d as int, SCALE as int);
        assert((t as int * SCALE as int) < (d as int * SCALE as int));
        if t > 0 {
            assert(q >= 0);
        }
    }
    Fixed::from_raw(q as i64)
}

/// Chunking invariance: advancing by `t + d` in one step lands exactly where
/// advancing by `t` and then by `d` lands; running past the end is absorbing.
pub proof fn lemma_advance_additive<T: Tweenable>(stages: Seq<Stage<T>>, i: int, t: int, d: int)
    requires
        0 <= t,
        0 <= d,
    ensures
        advance(stages, i, t + d) == (match advance(stages, i, t) {
            Playhead::Running { stage, time } => advance(stages, stage, time + d),
            Playhead::Finished => Playhead::Finished,
        }),
    decreases stages.len() - i,
{
    if i >= stages.len() {
    } else if t >= stages[i].duration@ {
        lemma_advance_additive(stages, i + 1, t - stages[i].duration@, d);
    }
}

/// The playhead finishes exactly when the elapsed time reaches the total
/// remaining duration.
pub proof fn lemma_advance_finishes<T: Tweenable>(stages: Seq<Stage<T>>, i: int, t: int)
    requires
        0 <= i,
        0 <= t,
        forall|k: int| 0 <= k < stages.len() ==> (#[trigger] stages[k]).duration@ >= 0,
    ensures
        (advance(stages, i, t) == Playhead::Finished) <==> t >= remaining_duration(stages, i),
    decreases stages.len() - i,
{
    if i >= stages.len() {
    } else if t >= stages[i].duration@ {
        lemma_advance_finishes(stages, i + 1, t - stages[i].duration@);
    } else {
        lemma_remaining_nonneg(stages, i + 1);
    }
}

/// With non-negative durations the remaining duration is non-negative.
pub proof fn lemma_remaining_nonneg<T: Tweenable>(stages: Seq<Stage<T>>, i: int)
    requires
        0 <= i,
        forall|k: int| 0 <= k < stages.len() ==> (#[trigger] stages[k]).duration@ >= 0,
    ensures
        remaining_duration(stages, i) >= 0,
    decreases stages.len() - i,
{
    if i < stages.len() {
        lemma_remaining_nonneg(stages, i + 1);
    }
}

/// A running sequence finishes on an update exactly when the time elapsed in
/// the active stage plus the update's delta reaches the total duration of the
/// remaining stages, however that delta was accumulated.
pub proof fn lemma_finishes_when_time_runs_out<T: Tweenable>(s: Sequence<T>, delta: int)
    requires
        s.wf(),
        !s.is_finished(),
        s.stages().len() > 0,
        0 <= delta,
    ensures
        (advance(s.stages(), s.stage_index(), s.stage_time() + delta) == Playhead::Finished)
            <==> s.stage_time() + delta >= remaining_duration(s.stages(), s.stage_index()),
{
    lemma_advance_finishes(s.stages(), s.stage_index(), s.stage_time() + delta);
}

/// Value continuity at a stage boundary: when the playhead enters stage `j`
/// with no time elapsed in it, the value shown equals the end value of stage
/// `j - 1`, provided the stages chain (the construction invariant) and the
/// curve starts at zero.
pub proof fn lemma_entry_continuity(stages: Seq<Stage<Fixed>>, j: int)
    requires
        0 < j < stages.len(),
        stages[j].from == stages[j - 1].to,
        stages[j].duration@ > 0,
        stages[j].easing.eval(0) == 0,
        stages[j].from.wf(),
    ensures
        stage_value_at(stages[j], 0) == stages[j - 1].to,
{
    lemma_div_of0(stages[j].duration@);
    assert(progress_of(0, stages[j].duration@) == 0);
    let s = stages[j];
    assert(lerp_raw(s.from@, s.to@, 0) == s.from@);
    lemma_from_view(lerp_raw(s.from@, s.to@, 0));
    lemma_fixed_eq(s.from.lerp_spec(s.to, 0), s.from);
}

/// A wait stage never changes the value: whenever start equals end, the
/// stage shows that value at every instant, whatever the curve returns.
pub proof fn lemma_wait_stage_constant(s: Stage<Fixed>, t: int)
    requires
        s.from == s.to,
        s.from.wf(),
    ensures
        stage_value_at(s, t) == s.from,
{
    let e = s.easing.eval(progress_of(t, s.duration@));
    assert(lerp_raw(s.from@, s.to@, e) == s.from@);
    lemma_from_view(lerp_raw(s.from@, s.to@, e));
    lemma_fixed_eq(s.from.lerp_spec(s.to, e), s.from);
}

} // verus!
