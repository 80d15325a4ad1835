//! Wait strategies and the takeable token.
//!
//! A wait strategy decides, for each unsuccessful attempt at a condition,
//! whether the waiter should spin, yield the processor, or park on an event.
//! The decision logic is verified here; actually spinning, yielding or
//! parking is scheduler work that the strategy's driver performs, consulting
//! [`HybridWait::step`] or [`HybridWait::step_until`] once per attempt.
//!
//! The module also provides [`TakeCell`], the ownership-transfer cell used
//! for the channel's write head: a slot whose value may be taken out, held
//! exclusively, and restored, signalling mutual exclusion by absence.

use vstd::prelude::*;

verus! {

/// Errors produced while waiting for a condition.
#[derive(Debug, PartialEq, Eq, Copy, Clone)]
pub enum WaitError {
    /// The deadline passed before the condition held.
    Timeout,
}

/// What a waiter should do next with an attempt at a condition.
#[derive(Debug, PartialEq, Eq, Copy, Clone)]
pub enum WaitAction {
    /// The condition holds; stop waiting.
    Ready,
    /// Busy-spin and try again.
    Spin,
    /// Yield the processor and try again.
    YieldNow,
    /// Park on the event primitive until notified.
    Park,
}

/// A wait strategy that spins for a configured number of attempts, then
/// yields for a configured number of attempts, and then parks on an event.
/// Zero spins and zero yields give a strategy that parks immediately.
#[derive(Debug, Copy, Clone)]
pub struct HybridWait {
    /// Number of busy-spin attempts before yielding begins.
    pub num_spin: u64,
    /// Number of yield attempts before parking begins.
    pub num_yield: u64,
}

impl HybridWait {
    /// The configured number of busy-spin attempts.
    pub open spec fn spec_num_spin(&self) -> u64 {
        self.num_spin
    }

    /// The configured number of yield attempts.
    pub open spec fn spec_num_yield(&self) -> u64 {
        self.num_yield
    }

    /// Create a strategy that spins `num_spin` times, yields `num_yield`
    /// times, and then parks.
    pub fn new(num_spin: u64, num_yield: u64) -> (r: Self)
        ensures
            r.spec_num_spin() == num_spin,
            r.spec_num_yield() == num_yield,
    {
        HybridWait { num_spin, num_yield }
    }

    /// Decide what the `attempt`-th try should do when the condition was
    /// observed in state `ready`: spin through the first `num_spin`
    /// attempts, yield through the next `num_yield`, park from then on.
    pub fn step(&self, attempt: u64, ready: bool) -> (a: WaitAction)
        ensures
            ready <==> a == WaitAction::Ready,
            !ready && attempt < self.spec_num_spin() ==> a == WaitAction::Spin,
            !ready && self.spec_num_spin() <= attempt
                && attempt - self.spec_num_spin() < self.spec_num_yield()
                ==> a == WaitAction::YieldNow,
            !ready && attempt - self.spec_num_spin() >= self.spec_num_yield()
                ==> a == WaitAction::Park,
    {
        if ready {
            WaitAction::Ready
        } else if attempt < self.num_spin {
            WaitAction::Spin
        } else if attempt - self.num_spin < self.num_yield {
            WaitAction::YieldNow
        } else {
            WaitAction::Park
        }
    }

    /// As [`Self::step`], but bounded by a deadline: once `now` reaches
    /// `deadline` an unready condition times out instead of waiting on.
    /// A condition observed ready wins over an expired deadline.
    pub fn step_until(&self, attempt: u64, ready: bool, now: u64, deadline: u64) -> (a: Result<
        WaitAction,
        WaitError,
    >)
        ensures
            ready <==> a == Ok::<WaitAction, WaitError>(WaitAction::Ready),
            !ready && now >= deadline ==> a == Err::<WaitAction, WaitError>(WaitError::Timeout),
            !ready && now < deadline && attempt < self.spec_num_spin() ==> a == Ok::<
                WaitAction,
                WaitError,
            >(WaitAction::Spin),
            !ready && now < deadline && self.spec_num_spin() <= attempt
                && attempt - self.spec_num_spin() < self.spec_num_yield() ==> a == Ok::<
                WaitAction,
                WaitError,
            >(WaitAction::YieldNow),
            !ready && now < deadline && attempt - self.spec_num_spin() >= self.spec_num_yield()
                ==> a == Ok::<WaitAction, WaitError>(WaitAction::Park),
    {
        if ready {
            Ok(WaitAction::Ready)
        } else if now >= deadline {
            Err(WaitError::Timeout)
        } else {
            Ok(self.step(attempt, false))
        }
    }
}

impl Default for HybridWait {
    /// The default strategy spins fifty times and never yields.
    fn default() -> (r: Self)
        ensures
            r.spec_num_spin() == 50,
            r.spec_num_yield() == 0,
    {
        HybridWait::new(50, 0)
    }
}

/// A wait strategy that parks on the event primitive straight away.
#[derive(Debug, Copy, Clone)]
pub struct BlockStrategy {
}

impl BlockStrategy {
    /// Create a new block-only strategy.
    pub fn new() -> (r: Self) {
        BlockStrategy {  }
    }

    /// A block-only strategy is a hybrid strategy with no spins and no
    /// yields.
    pub fn as_hybrid(&self) -> (r: HybridWait)
        ensures
            r.spec_num_spin() == 0,
            r.spec_num_yield() == 0,
    {
        HybridWait::new(0, 0)
    }
}

/// A value that waiters test against an expected content: waiting means
/// re-checking until the check passes.
pub trait Waitable {
    /// The type of the value compared against.
    type Inner;

    /// The value currently held, for specification.
    spec fn current(&self) -> Self::Inner;

    /// Check whether the waitable holds the expected value.
    fn check(&self, expected: &Self::Inner) -> (r: bool)
        ensures
            r <==> self.current() == *expected,
    ;
}

impl Waitable for usize {
    type Inner = usize;

    /// A plain counter is its own current value.
    open spec fn current(&self) -> usize {
        *self
    }

    fn check(&self, expected: &usize) -> (r: bool) {
        *self == *expected
    }
}

/// A container holding a value that callers may temporarily remove,
/// signalling mutual exclusion by absence: exactly one caller obtains the
/// value, and restores one when done.
pub trait Takeable {
    /// The type taken from the container.
    type Inner;

    /// What the container currently stores, for specification; empty
    /// while a caller holds the taken value.
    spec fn stored(&self) -> Option<Self::Inner>;

    /// Attempt to take the value, leaving the container empty.
    fn try_take(&mut self) -> (r: Option<Self::Inner>)
        ensures
            r == old(self).stored(),
            final(self).stored() is None,
    ;

    /// Put a value back, releasing the container to the next taker.
    fn restore(&mut self, value: Self::Inner)
        ensures
            final(self).stored() == Some(value),
    ;
}

/// An ownership-transfer cell: it holds a value that exactly one caller at a
/// time may take out, and absence of the value marks that it is held. The
/// channel's write head is such a cell; taking it grants the right to claim
/// the next publication slot, and restoring it hands that right on.
#[derive(Debug, PartialEq, Eq, Copy, Clone)]
pub struct TakeCell {
    /// The stored value; empty while a caller holds the taken value.
    pub inner: Option<usize>,
}

impl TakeCell {
    /// Create a cell holding `value`.
    pub fn new(value: usize) -> (r: Self)
        ensures
            r.inner == Some(value),
    {
        TakeCell { inner: Some(value) }
    }
}

impl Takeable for TakeCell {
    type Inner = usize;

    /// The cell's content is what it stores.
    open spec fn stored(&self) -> Option<usize> {
        self.inner
    }

    fn try_take(&mut self) -> (r: Option<usize>) {
        self.inner.take()
    }

    fn restore(&mut self, value: usize) {
        self.inner = Some(value);
    }
}

} // verus!
