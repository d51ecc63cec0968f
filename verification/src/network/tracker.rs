//! Apply a value only after it was wanted for a number of consecutive ticks.

use vstd::prelude::*;

verus! {

/// The tracker as a mathematical value.
pub struct TrackerModel {
    /// The value that is applied, if it is known.
    pub current: Option<bool>,
    /// The value that is wanted but not yet applied.
    pub pending: Option<bool>,
    /// For how many consecutive ticks the pending value was wanted.
    pub stable_ticks: u32,
    /// How many consecutive ticks are required.
    pub threshold: u32,
}

impl TrackerModel {
    /// The invariant of the tracker: a pending value has been wanted at least
    /// once and fewer times than required.
    pub open spec fn wf(self) -> bool {
        &&& self.pending.is_none() ==> self.stable_ticks == 0
        &&& self.pending.is_some() ==> 1 <= self.stable_ticks < self.threshold
    }

    /// One tick: the next state, and the value to apply now, if any.
    pub open spec fn evaluate(self, desired: bool) -> (TrackerModel, Option<bool>) {
        if self.current == Some(desired) {
            (TrackerModel { pending: None, stable_ticks: 0, ..self }, None)
        } else {
            let ticks = if self.pending == Some(desired) {
                self.stable_ticks + 1
            } else {
                1
            };
            if ticks >= self.threshold {
                (
                    TrackerModel {
                        current: Some(desired),
                        pending: None,
                        stable_ticks: 0,
                        ..self
                    },
                    Some(desired),
                )
            } else {
                (
                    TrackerModel {
                        pending: Some(desired),
                        stable_ticks: ticks as u32,
                        ..self
                    },
                    None,
                )
            }
        }
    }

    /// The state after a value was applied outside the tracker's own
    /// hysteresis, or after what is applied became unknown.
    pub open spec fn overridden(self, applied: Option<bool>) -> TrackerModel {
        TrackerModel { current: applied, pending: None, stable_ticks: 0, ..self }
    }

    /// The state after every value of `desired` was evaluated in order.
    pub open spec fn evaluate_all(self, desired: Seq<bool>) -> TrackerModel
        decreases desired.len(),
    {
        if desired.len() == 0 {
            self
        } else {
            self.evaluate_all(desired.drop_last()).evaluate(desired.last()).0
        }
    }
}

/// Hysteresis for one switch: a wanted value is applied once it was wanted for
/// as many consecutive ticks as the threshold says.
#[derive(Debug, Clone, Copy)]
pub struct StableValueTracker {
    current: Option<bool>,
    pending: Option<bool>,
    stable_ticks: u32,
    threshold: u32,
}

impl View for StableValueTracker {
    type V = TrackerModel;

    closed spec fn view(&self) -> TrackerModel {
        TrackerModel {
            current: self.current,
            pending: self.pending,
            stable_ticks: self.stable_ticks,
            threshold: self.threshold,
        }
    }
}

impl StableValueTracker {
    /// A tracker with nothing pending. `current` is the value applied so far,
    /// `None` where that is not known.
    pub fn new(threshold: u32, current: Option<bool>) -> (t: Self)
        ensures
            t@ == (TrackerModel { current, pending: None, stable_ticks: 0, threshold }),
            t@.wf(),
    {
        StableValueTracker { current, pending: None, stable_ticks: 0, threshold }
    }

    /// One tick with the value wanted now. Returns the value to apply, once it
    /// was wanted for the required number of consecutive ticks.
    pub fn evaluate(&mut self, desired: bool) -> (apply: Option<bool>)
        requires
            old(self)@.wf(),
        ensures
            (final(self)@, apply) == old(self)@.evaluate(desired),
            final(self)@.wf(),
    {
        if is_value(self.current, desired) {
            self.pending = None;
            self.stable_ticks = 0;
            return None;
        }
        if is_value(self.pending, desired) {
            self.stable_ticks = self.stable_ticks + 1;
        } else {
            self.pending = Some(desired);
            self.stable_ticks = 1;
        }
        if self.stable_ticks >= self.threshold {
            self.current = Some(desired);
            self.pending = None;
            self.stable_ticks = 0;
            Some(desired)
        } else {
            None
        }
    }

    /// The value that is applied, if it is known.
    pub fn current(&self) -> (current: Option<bool>)
        ensures
            current == self@.current,
    {
        self.current
    }

    /// Records what is applied now, decided outside the tracker's hysteresis;
    /// `None` makes the next wanted value count as a change. Anything pending
    /// is forgotten.
    pub fn set_applied(&mut self, applied: Option<bool>)
        ensures
            final(self)@ == old(self)@.overridden(applied),
            final(self)@.wf(),
    {
        self.current = applied;
        self.pending = None;
        self.stable_ticks = 0;
    }
}

/// Whether `slot` holds `value`.
fn is_value(slot: Option<bool>, value: bool) -> (same: bool)
    ensures
        same == (slot == Some(value)),
{
    match slot {
        Some(v) => v == value,
        None => false,
    }
}

/// A pending change is discarded the moment another value is wanted: the
/// count restarts at one for the new value, or at zero where the new value is
/// the one applied.
pub proof fn lemma_changed_desire_restarts(s: TrackerModel, desired: bool)
    requires
        s.wf(),
        s.pending.is_some(),
        s.pending != Some(desired),
    ensures
        s.evaluate(desired).0.stable_ticks <= 1,
        s.evaluate(desired).0.pending.is_some() ==> s.evaluate(desired).0.pending == Some(
            desired,
        ),
{
}

/// A wanted value that changes on every tick is never applied: with a
/// threshold of two or more and nothing pending at the start, no tick of a
/// sequence in which neighbours differ returns a value, and what is applied
/// stays as it was.
pub proof fn lemma_toggling_never_applies(s: TrackerModel, desired: Seq<bool>)
    requires
        s.wf(),
        s.pending.is_none(),
        s.threshold >= 2,
        forall|i: int| 0 <= i < desired.len() - 1 ==> desired[i] != #[trigger] desired[i + 1],
    ensures
        s.evaluate_all(desired).current == s.current,
        s.evaluate_all(desired).threshold == s.threshold,
        s.evaluate_all(desired).wf(),
        s.evaluate_all(desired).stable_ticks <= 1,
        desired.len() > 0 && s.evaluate_all(desired).pending.is_some() ==> s.evaluate_all(
            desired,
        ).pending == Some(desired.last()),
        forall|i: int|
            0 <= i < desired.len() ==> (#[trigger] s.evaluate_all(desired.take(i))).evaluate(
                desired[i],
            ).1.is_none(),
    decreases desired.len(),
{
    if desired.len() > 0 {
        let front = desired.drop_last();
        assert forall|i: int| 0 <= i < front.len() - 1 implies front[i] != #[trigger] front[i
            + 1] by {
            assert(desired[i] != desired[i + 1]);
        }
        lemma_toggling_never_applies(s, front);
        let n = desired.len() as int;
        if n >= 2 {
            assert(desired[n - 2] != desired[n - 2 + 1]);
            assert(front.last() == desired[n - 2]);
        }
        assert forall|i: int| 0 <= i < desired.len() implies (#[trigger] s.evaluate_all(
            desired.take(i),
        )).evaluate(desired[i]).1.is_none() by {
            if i < n - 1 {
                assert(front.take(i) =~= desired.take(i));
                assert(s.evaluate_all(front.take(i)).evaluate(front[i]).1.is_none());
            } else {
                assert(desired.take(i) =~= front);
            }
        }
    }
}

} // verus!
