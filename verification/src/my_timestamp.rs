//! The block timestamp: once in every block an unsigned inherent call sets the
//! current time, which must move forward by at least a minimum period.
//!
//! Times are in milliseconds.
use vstd::prelude::*;

use crate::frame::{ensure_none, DispatchError, Origin};

verus! {

/// How far ahead of the block author's clock a proposed time may be.
pub const MAX_TIMESTAMP_DRIFT_MILLIS: u64 = 30_000;

/// The calls of the module.
#[derive(Debug, PartialEq, Eq, Structural, Clone, Copy)]
pub enum Call {
    /// Set the current time.
    SetTime { now: u64 },
}

/// Why a proposed timestamp inherent is not accepted.
#[derive(Debug, PartialEq, Eq, Structural, Clone, Copy)]
pub enum InherentError {
    /// The time is valid only from the given time on.
    ValidAtTimestamp(u64),
    /// The time is too far ahead of the author's clock.
    TooFarInFuture,
}

/// What the module holds, as mathematics.
pub struct TimestampView {
    /// The current time; 0 until it was first set.
    pub now: u64,
    /// Whether the time was set in the current block.
    pub updated: bool,
    /// The least time between two blocks.
    pub period: u64,
}

/// A step of the module from block to block.
pub enum TimeStep {
    /// The inherent call sets the time.
    SetTime(u64),
    /// The block ends.
    Finalize,
}

impl TimestampView {
    /// Whether setting the time to `now` is allowed: not yet set in this
    /// block, and, once set before, at least the minimum period later.
    pub open spec fn may_set(self, now: u64) -> bool {
        &&& !self.updated
        &&& self.now == 0 || (self.now + self.period <= u64::MAX && now >= self.now + self.period)
    }

    /// Whether the module lets `step` happen: a time it may set, or the end
    /// of a block in which the time was set.
    pub open spec fn allows(self, step: TimeStep) -> bool {
        match step {
            TimeStep::SetTime(now) => self.may_set(now),
            TimeStep::Finalize => self.updated,
        }
    }

    /// The module after `step`.
    pub open spec fn apply(self, step: TimeStep) -> TimestampView {
        match step {
            TimeStep::SetTime(now) => TimestampView { now, updated: true, period: self.period },
            TimeStep::Finalize => TimestampView { now: self.now, updated: false, period: self.period },
        }
    }
}

/// Whether the module lets each of `steps` happen in turn, from `start`.
pub open spec fn allows_all(start: TimestampView, steps: Seq<TimeStep>) -> bool
    decreases steps.len(),
{
    steps.len() == 0 || (start.allows(steps[0]) && allows_all(start.apply(steps[0]), steps.drop_first()))
}

/// The module after `steps`, from `start`.
pub open spec fn apply_all(start: TimestampView, steps: Seq<TimeStep>) -> TimestampView
    decreases steps.len(),
{
    if steps.len() == 0 {
        start
    } else {
        apply_all(start.apply(steps[0]), steps.drop_first())
    }
}

/// The times that `steps` set, in order.
pub open spec fn set_times(steps: Seq<TimeStep>) -> Seq<u64>
    decreases steps.len(),
{
    if steps.len() == 0 {
        Seq::empty()
    } else {
        match steps[0] {
            TimeStep::SetTime(now) => seq![now].add(set_times(steps.drop_first())),
            TimeStep::Finalize => set_times(steps.drop_first()),
        }
    }
}

/// The module's storage and configuration.
pub struct Pallet {
    now: u64,
    did_update: bool,
    minimum_period: u64,
}

impl View for Pallet {
    type V = TimestampView;

    open spec fn view(&self) -> TimestampView {
        TimestampView { now: self.current(), updated: self.updated(), period: self.period() }
    }
}

impl Pallet {
    /// The current time; 0 until it was first set.
    pub closed spec fn current(&self) -> u64 {
        self.now
    }

    /// Whether the time was set in the current block.
    pub closed spec fn updated(&self) -> bool {
        self.did_update
    }

    /// The least time between two blocks.
    pub closed spec fn period(&self) -> u64 {
        self.minimum_period
    }

    /// Whether setting the time to `now` is allowed: not yet set in this
    /// block, and, once set before, at least the minimum period later.
    pub open spec fn may_set(&self, now: u64) -> bool {
        self@.may_set(now)
    }

    /// The earliest time the next block may have.
    pub open spec fn earliest(&self) -> int {
        self.current() + self.period()
    }

    /// The time a block author proposes when its clock reads `clock`.
    pub open spec fn proposed_time(&self, clock: u64) -> u64 {
        if clock >= self.earliest() {
            clock
        } else {
            self.earliest() as u64
        }
    }

    /// The verdict on a proposed time `t` of a node whose clock reads `clock`.
    pub open spec fn verdict(&self, t: u64, clock: u64) -> Result<(), InherentError> {
        if t > clock + MAX_TIMESTAMP_DRIFT_MILLIS {
            Err(InherentError::TooFarInFuture)
        } else if t < self.earliest() {
            Err(InherentError::ValidAtTimestamp(self.earliest() as u64))
        } else {
            Ok(())
        }
    }

    /// The module at genesis, with the given minimum period.
    pub fn new(minimum_period: u64) -> (p: Pallet)
        ensures
            p.current() == 0,
            !p.updated(),
            p.period() == minimum_period,
    {
        Pallet { now: 0, did_update: false, minimum_period }
    }

    /// The inherent call sets the current time to `now`, and hands back the
    /// time that the runtime's on-timestamp-set hook is to be told of.
    /// Refused, and nothing changes, for any origin but an unsigned one.
    pub fn set(&mut self, origin: Origin, now: u64) -> (r: Result<u64, DispatchError>)
        requires
            origin == Origin::Unsigned ==> old(self).may_set(now),
        ensures
            origin == Origin::Unsigned ==> {
                &&& r == Ok::<u64, DispatchError>(now)
                &&& final(self)@ == old(self)@.apply(TimeStep::SetTime(now))
            },
            origin != Origin::Unsigned ==> {
                &&& r == Err::<u64, DispatchError>(DispatchError::BadOrigin)
                &&& *final(self) == *old(self)
            },
    {
        ensure_none(origin)?;
        self.now = now;
        self.did_update = true;
        Ok(now)
    }

    /// Whether [`set`](Self::set) accepts `now` in the current state.
    pub fn can_set(&self, now: u64) -> (b: bool)
        ensures
            b == self.may_set(now),
    {
        !self.did_update && (self.now == 0 || (self.now <= u64::MAX - self.minimum_period && now
            >= self.now + self.minimum_period))
    }

    /// At the end of a block: the time must have been set in it; the mark is
    /// cleared for the next block.
    pub fn on_finalize(&mut self)
        requires
            old(self).updated(),
        ensures
            final(self)@ == old(self)@.apply(TimeStep::Finalize),
    {
        self.did_update = false;
    }

    /// The call a block author puts in a block whose clock reads
    /// `inherent_data`: the later of that time and the earliest time the
    /// block may have.
    pub fn create_inherent(&self, inherent_data: u64) -> (call: Option<Call>)
        requires
            self.current() + self.period() <= u64::MAX,
        ensures
            call == Some(Call::SetTime { now: self.proposed_time(inherent_data) }),
    {
        let earliest = self.now + self.minimum_period;
        let next_time = if inherent_data >= earliest {
            inherent_data
        } else {
            earliest
        };
        Some(Call::SetTime { now: next_time })
    }

    /// Whether a block's timestamp call is acceptable to a node whose clock
    /// reads `inherent_data`: not more than the drift ahead of that clock,
    /// and not before the earliest time the block may have.
    pub fn check_inherent(&self, call: &Call, inherent_data: u64) -> (r: Result<(), InherentError>)
        requires
            self.current() + self.period() <= u64::MAX,
        ensures
            match *call {
                Call::SetTime { now } => r == self.verdict(now, inherent_data),
            },
    {
        let t = match call {
            Call::SetTime { now } => *now,
        };
        let minimum = self.now + self.minimum_period;
        if t > inherent_data && t - inherent_data > MAX_TIMESTAMP_DRIFT_MILLIS {
            Err(InherentError::TooFarInFuture)
        } else if t < minimum {
            Err(InherentError::ValidAtTimestamp(minimum))
        } else {
            Ok(())
        }
    }

    /// Whether `call` is the module's inherent: every call of the module is.
    pub fn is_inherent(call: &Call) -> (b: bool)
        ensures
            b == (call is SetTime),
    {
        match call {
            Call::SetTime { .. } => true,
        }
    }

    /// The least time between two blocks.
    pub fn minimum_period(&self) -> (p: u64)
        ensures
            p == self.period(),
    {
        self.minimum_period
    }

    /// Whether the time was set in the current block.
    pub fn did_update(&self) -> (b: bool)
        ensures
            b == self.updated(),
    {
        self.did_update
    }

    /// The current time.
    pub fn get(&self) -> (now: u64)
        ensures
            now == self.current(),
    {
        self.now
    }

    /// The current time.
    pub fn now(&self) -> (now: u64)
        ensures
            now == self.current(),
    {
        self.now
    }

    /// Sets the current time directly, for tests and benchmarks.
    pub fn set_timestamp(&mut self, now: u64)
        ensures
            final(self).current() == now,
            final(self).updated() == old(self).updated(),
            final(self).period() == old(self).period(),
    {
        self.now = now;
    }
}

/// A source of the current time.
pub trait MyCustomTime {
    /// The time that `now` reports.
    spec fn time(&self) -> u64;

    /// The current time.
    fn now(&self) -> (t: u64)
        ensures
            t == self.time(),
    ;
}

/// The module is a source of the time it stores.
impl MyCustomTime for Pallet {
    open spec fn time(&self) -> u64 {
        self.current()
    }

    fn now(&self) -> (t: u64) {
        self.now
    }
}

} // verus!

verus! {

/// The time a block author proposes is one that the module lets it set, as
/// long as the time was not set yet in the block.
pub proof fn proposed_time_may_be_set(ts: Pallet, clock: u64)
    requires
        !ts.updated(),
        ts.earliest() <= u64::MAX,
    ensures
        ts.may_set(ts.proposed_time(clock)),
{
}

/// A node accepts the time that an author with the same clock proposes,
/// unless the earliest time the block may have is more than the drift ahead
/// of that clock; then it refuses it as too far in the future.
pub proof fn proposed_time_passes_its_own_check(ts: Pallet, clock: u64)
    requires
        ts.earliest() <= u64::MAX,
    ensures
        ts.earliest() <= clock + MAX_TIMESTAMP_DRIFT_MILLIS ==> ts.verdict(ts.proposed_time(clock), clock)
            is Ok,
        ts.earliest() > clock + MAX_TIMESTAMP_DRIFT_MILLIS ==> ts.verdict(ts.proposed_time(clock), clock)
            == Err::<(), InherentError>(InherentError::TooFarInFuture),
{
}

/// Once set in a block, the time moves forward by at least the minimum
/// period from one block to the next (after the genesis time 0).
pub proof fn time_moves_forward(before: Pallet, after: Pallet, now: u64)
    requires
        before.may_set(now),
        before.current() != 0,
        after.current() == now,
    ensures
        after.current() >= before.current() + before.period(),
{
}

/// The time is set at most once in a block: once set, no time may be set
/// again until the block is finalized.
pub proof fn set_once_per_block(ts: Pallet, now: u64)
    requires
        ts.updated(),
    ensures
        !ts.may_set(now),
{
}

/// Over any steps the module lets happen, from block to block: every time
/// set after a non-zero time is at least the minimum period later than it
/// (the first one too, where the module starts at a non-zero time), the
/// period stays, and the time never goes back.
pub proof fn set_times_move_forward(start: TimestampView, steps: Seq<TimeStep>)
    requires
        allows_all(start, steps),
    ensures
        apply_all(start, steps).period == start.period,
        apply_all(start, steps).now >= start.now,
        start.now != 0 && set_times(steps).len() > 0 ==> set_times(steps)[0] >= start.now
            + start.period,
        forall|i: int|
            0 <= i < set_times(steps).len() - 1 && #[trigger] set_times(steps)[i] != 0 ==> set_times(
                steps,
            )[i + 1] >= set_times(steps)[i] + start.period,
    decreases steps.len(),
{
    if steps.len() > 0 {
        let next = start.apply(steps[0]);
        let rest = steps.drop_first();
        set_times_move_forward(next, rest);
        match steps[0] {
            TimeStep::SetTime(now) => {
                let times = set_times(steps);
                assert(times == seq![now].add(set_times(rest)));
                assert forall|i: int|
                    0 <= i < times.len() - 1 && #[trigger] times[i] != 0 implies times[i + 1]
                    >= times[i] + start.period by {
                    if i > 0 {
                        assert(times[i] == set_times(rest)[i - 1]);
                        assert(times[i + 1] == set_times(rest)[i]);
                    }
                }
            },
            TimeStep::Finalize => {},
        }
    }
}

/// An author proposes the later of its clock and the current time plus the
/// minimum period.
pub proof fn proposed_time_is_the_later(ts: Pallet, clock: u64)
    requires
        ts.current() + ts.period() <= u64::MAX,
    ensures
        ts.proposed_time(clock) >= clock,
        ts.proposed_time(clock) >= ts.current() + ts.period(),
        ts.proposed_time(clock) == clock || ts.proposed_time(clock) == ts.current() + ts.period(),
{
}

/// A node refuses a proposed time `t` as too far in the future when it is
/// more than 30 seconds past its clock; otherwise, as valid only from the
/// current time plus the minimum period when it is before that, whatever the
/// clock; and accepts it in every other case.
pub proof fn verdict_bounds(ts: Pallet, t: u64, clock: u64)
    requires
        ts.current() + ts.period() <= u64::MAX,
    ensures
        t > clock + 30_000 ==> ts.verdict(t, clock) == Err::<(), InherentError>(
            InherentError::TooFarInFuture,
        ),
        t <= clock + 30_000 && t < ts.current() + ts.period() ==> ts.verdict(t, clock) == Err::<
            (),
            InherentError,
        >(InherentError::ValidAtTimestamp((ts.current() + ts.period()) as u64)),
        ts.verdict(t, clock) is Ok <==> (ts.current() + ts.period() <= t && t <= clock + 30_000),
{
}

/// The time may be set exactly when it was not set yet in the block and
/// either it was never set (it is 0) or the new time is at least the minimum
/// period after it; setting stores the time and marks the block, and the end
/// of a block clears the mark and keeps the time.
pub proof fn setting_rules(v: TimestampView, t: u64)
    ensures
        v.updated ==> !v.may_set(t),
        !v.updated && v.now == 0 ==> v.may_set(t),
        v.now != 0 && t < v.now + v.period ==> !v.may_set(t),
        !v.updated && v.now != 0 && v.now + v.period <= u64::MAX && t >= v.now + v.period ==> v.may_set(
            t,
        ),
        v.apply(TimeStep::SetTime(t)).now == t,
        v.apply(TimeStep::SetTime(t)).updated,
        v.apply(TimeStep::SetTime(t)).period == v.period,
        v.apply(TimeStep::Finalize).now == v.now,
        !v.apply(TimeStep::Finalize).updated,
        v.apply(TimeStep::Finalize).period == v.period,
{
}

} // verus!
