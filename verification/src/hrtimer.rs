//! High resolution timers.
//!
//! A timer is initialized in the stopped state. A stopped timer can be started by the `start`
//! operation, with an expiry time. After the `start` operation, the timer is in the started state.
//! When the timer expires, the timer enters the running state and the handler is executed. After the
//! handler has finished executing, the timer may enter the started or stopped state, depending on
//! the return value of the handler. A timer that is cancelled enters the stopped state.
//!
//! A `start` operation on a timer in the running state takes effect after the handler has finished
//! executing and the timer has transitioned out of the running state. A `start` operation on a timer
//! in the started state restarts it.

use vstd::prelude::*;

verus! {

/// The host does not start the timer again.
pub const HRTIMER_NORESTART: u32 = 0;

/// The host starts the timer again.
pub const HRTIMER_RESTART: u32 = 1;

/// Restart policy for timers.
#[derive(Clone, Copy, Debug, PartialEq, Eq, Structural)]
pub enum HrTimerRestart {
    /// Timer should not be restarted.
    NoRestart,
    /// Timer should be restarted.
    Restart,
}

impl HrTimerRestart {
    /// The number of the policy.
    pub open spec fn code(self) -> u32 {
        match self {
            HrTimerRestart::NoRestart => HRTIMER_NORESTART,
            HrTimerRestart::Restart => HRTIMER_RESTART,
        }
    }

    /// The policy as the host takes it.
    pub fn into_c(self) -> (r: u32)
        ensures
            r == self.code(),
    {
        match self {
            HrTimerRestart::NoRestart => HRTIMER_NORESTART,
            HrTimerRestart::Restart => HRTIMER_RESTART,
        }
    }
}

/// State of a timer.
#[derive(Clone, Copy, Debug, PartialEq, Eq, Structural)]
pub enum TimerState {
    /// Initialized but not started, or cancelled, or not restarted.
    Stopped,
    /// Started or restarted, with an expiry time.
    Started(i64),
    /// Executing the callback. Holds the expiry time of the last start and that of a start that
    /// takes effect when the callback has finished.
    Running(i64, Option<i64>),
}

impl TimerState {
    /// The state after a start.
    pub open spec fn after_start(self, expires: i64) -> TimerState {
        match self {
            TimerState::Running(last, _) => TimerState::Running(last, Some(expires)),
            _ => TimerState::Started(expires),
        }
    }

    /// The state after the timer expired.
    pub open spec fn after_expire(self) -> TimerState {
        match self {
            TimerState::Started(expires) => TimerState::Running(expires, None),
            other => other,
        }
    }

    /// The state after the callback has finished.
    pub open spec fn after_finish(self, restart: HrTimerRestart) -> TimerState {
        match self {
            TimerState::Running(_, Some(expires)) => TimerState::Started(expires),
            TimerState::Running(last, None) => match restart {
                HrTimerRestart::Restart => TimerState::Started(last),
                HrTimerRestart::NoRestart => TimerState::Stopped,
            },
            other => other,
        }
    }
}

/// A timer.
#[derive(Clone, Copy, Debug, PartialEq, Eq, Structural)]
pub struct HrTimer {
    state: TimerState,
}

impl HrTimer {
    /// The state of the timer.
    pub closed spec fn state(self) -> TimerState {
        self.state
    }

    /// A new timer, which is stopped.
    pub fn new() -> (r: Self)
        ensures
            r.state() == TimerState::Stopped,
    {
        HrTimer { state: TimerState::Stopped }
    }

    /// Returns true if the timer is started or its callback is executing.
    pub fn active(&self) -> (r: bool)
        ensures
            r == (self.state() != TimerState::Stopped),
    {
        match self.state {
            TimerState::Stopped => false,
            _ => true,
        }
    }

    /// Starts or restarts the timer with expiry after `expires` time units.
    pub fn start(&mut self, expires: i64)
        ensures
            final(self).state() == old(self).state().after_start(expires),
    {
        self.state = match self.state {
            TimerState::Running(last, _) => TimerState::Running(last, Some(expires)),
            _ => TimerState::Started(expires),
        };
    }

    /// The timer expires and its callback starts to execute.
    pub fn expire(&mut self)
        requires
            old(self).state() is Started,
        ensures
            final(self).state() == old(self).state().after_expire(),
    {
        if let TimerState::Started(expires) = self.state {
            self.state = TimerState::Running(expires, None);
        }
    }

    /// The callback has finished executing.
    pub fn finish(&mut self, restart: HrTimerRestart)
        requires
            old(self).state() is Running,
        ensures
            final(self).state() == old(self).state().after_finish(restart),
    {
        if let TimerState::Running(last, next) = self.state {
            self.state = match next {
                Some(expires) => TimerState::Started(expires),
                None => match restart {
                    HrTimerRestart::Restart => TimerState::Started(last),
                    HrTimerRestart::NoRestart => TimerState::Stopped,
                },
            };
        }
    }

    /// Cancels the timer. The caller waits for a callback that is executing to finish first.
    ///
    /// Returns true if the timer was started.
    pub fn cancel(&mut self) -> (r: bool)
        requires
            !(old(self).state() is Running),
        ensures
            r == (old(self).state() is Started),
            final(self).state() == TimerState::Stopped,
    {
        let started: bool = self.active();
        self.state = TimerState::Stopped;
        started
    }
}

/// A handle representing a potentially running timer.
pub trait HrTimerHandle {
    /// The state of the timer.
    spec fn timer_state(&self) -> TimerState;

    /// Cancels the timer, if it is started. The caller waits for a callback that is executing to
    /// finish first.
    fn cancel(&mut self) -> (r: bool)
        requires
            !(old(self).timer_state() is Running),
        ensures
            r == (old(self).timer_state() is Started),
            final(self).timer_state() == TimerState::Stopped,
    ;
}

/// Implemented by structs that contain timers.
pub trait HasHrTimer: Sized {
    /// The timer within `self`.
    spec fn contained(&self) -> HrTimer;

    /// `other` differs in the timer alone.
    spec fn same_but_timer(&self, other: &Self) -> bool;

    /// What differs in the timer alone from a struct that differs in the timer alone does so too.
    proof fn lemma_same_but_timer(first: &Self, second: &Self, third: &Self)
        requires
            second.same_but_timer(first),
            third.same_but_timer(second),
        ensures
            third.same_but_timer(first),
    ;

    /// The timer within `self`.
    fn timer(&mut self) -> (r: &mut HrTimer)
        ensures
            *r == old(self).contained(),
            final(self).contained() == *final(r),
            final(self).same_but_timer(&*old(self)),
    ;

    /// Starts the timer contained in `self`. If it is already running it is removed and inserted.
    fn start_internal(&mut self, expires: i64)
        ensures
            final(self).contained().state() == old(self).contained().state().after_start(expires),
            final(self).same_but_timer(&*old(self)),
    {
        self.timer().start(expires);
    }
}

/// Implemented by structs that can be the target of a timer callback.
pub trait HrTimerCallback {
    /// What the callback works with.
    type Context;

    /// Called by the timer logic when the timer fires.
    fn run(&mut self, context: &mut Self::Context) -> HrTimerRestart;
}

/// Implemented to give the host a function to call when a timer fires.
pub trait RawHrTimerCallback: HrTimerCallback + Sized {
    /// Runs the callback and tells the host whether it starts the timer again: the callback
    /// changes `self` and the context, and what it returns is the answer.
    fn run_raw(&mut self, context: &mut Self::Context) -> (r: u32)
        ensures
            exists|this: &mut Self, passed: &mut Self::Context, restart: HrTimerRestart|
                {
                    &&& *this == *old(self) && *final(this) == *final(self)
                    &&& *passed == *old(context) && *final(passed) == *final(context)
                    &&& #[trigger] call_ensures(Self::run, (this, passed), restart)
                    &&& r == restart.code()
                },
    ;
}

impl<T: HrTimerCallback> RawHrTimerCallback for T {
    fn run_raw(&mut self, context: &mut Self::Context) -> (r: u32) {
        self.run(context).into_c()
    }
}

/// Implemented by pointer types that point to structs that embed a [`HrTimer`].
///
/// Starting a timer returns a [`HrTimerHandle`] that can be used to manipulate the timer.
pub trait HrTimerPointer: Sized {
    /// A handle representing a started or restarted timer.
    type TimerHandle: HrTimerHandle;

    /// The state of the timer.
    spec fn pointed(&self) -> TimerState;

    /// Starts the timer with expiry after `expires` time units. If the timer was already started,
    /// it is restarted with the new expiry time.
    fn start(self, expires: i64) -> (r: Self::TimerHandle)
        ensures
            r.timer_state() == self.pointed().after_start(expires),
    ;
}

/// Version of [`HrTimerPointer`] for situations where the pointer must outlive the
/// [`HrTimerHandle`], as for timers that live on the stack.
pub trait UnsafeHrTimerPointer: Sized {
    /// A handle representing a started timer.
    type TimerHandle: HrTimerHandle;

    /// The state of the timer.
    spec fn borrowed(&self) -> TimerState;

    /// Starts the timer after `expires` time units. If the timer was already started, it is
    /// restarted at the new expiry time.
    fn start(self, expires: i64) -> (r: Self::TimerHandle)
        ensures
            r.timer_state() == self.borrowed().after_start(expires),
    ;
}

/// A trait for timers that live on the stack.
pub trait ScopedHrTimerPointer: Sized {
    /// The state of the timer.
    spec fn scoped(&self) -> TimerState;

    /// Starts the timer to run after `expires` time units and immediately after calls `f`, with the
    /// started timer. When `f` returns, the timer is cancelled.
    fn start_scoped<U, F: FnOnce(&HrTimer) -> U>(self, expires: i64, f: F) -> (r: U)
        requires
            !(self.scoped() is Running),
            forall|timer: &HrTimer|
                timer.state() == self.scoped().after_start(expires) ==> #[trigger] call_requires(
                    f,
                    (timer,),
                ),
        ensures
            exists|timer: &HrTimer|
                timer.state() == self.scoped().after_start(expires) && #[trigger] call_ensures(
                    f,
                    (timer,),
                    r,
                ),
    ;
}

/// A handle that owns the struct with the timer.
pub struct ArcHrTimerHandle<T: HasHrTimer> {
    /// The struct with the timer.
    pub inner: T,
}

impl<T: HasHrTimer> HrTimerHandle for ArcHrTimerHandle<T> {
    open spec fn timer_state(&self) -> TimerState {
        self.inner.contained().state()
    }

    fn cancel(&mut self) -> (r: bool)
        ensures
            final(self).inner.same_but_timer(&old(self).inner),
    {
        self.inner.timer().cancel()
    }
}

/// A pointer that owns the struct with the timer.
pub struct Owner<T: HasHrTimer> {
    /// The struct with the timer.
    pub inner: T,
}

impl<T: HasHrTimer> HrTimerPointer for Owner<T> {
    type TimerHandle = ArcHrTimerHandle<T>;

    open spec fn pointed(&self) -> TimerState {
        self.inner.contained().state()
    }

    fn start(self, expires: i64) -> (r: ArcHrTimerHandle<T>)
        ensures
            r.inner.same_but_timer(&self.inner),
    {
        let mut inner = self.inner;
        inner.start_internal(expires);
        ArcHrTimerHandle { inner }
    }
}

/// A handle that borrows the struct with the timer.
pub struct PinMutHrTimerHandle<'a, T: HasHrTimer> {
    /// The struct with the timer.
    pub inner: &'a mut T,
}

impl<'a, T: HasHrTimer> HrTimerHandle for PinMutHrTimerHandle<'a, T> {
    open spec fn timer_state(&self) -> TimerState {
        self.inner.contained().state()
    }

    fn cancel(&mut self) -> (r: bool)
        ensures
            *final(final(self).inner) == *final(old(self).inner),
            final(self).inner.same_but_timer(&*old(self).inner),
    {
        self.inner.timer().cancel()
    }
}

/// A pointer that borrows the struct with the timer.
pub struct Borrower<'a, T: HasHrTimer> {
    /// The struct with the timer.
    pub inner: &'a mut T,
}

impl<'a, T: HasHrTimer> UnsafeHrTimerPointer for Borrower<'a, T> {
    type TimerHandle = PinMutHrTimerHandle<'a, T>;

    open spec fn borrowed(&self) -> TimerState {
        self.inner.contained().state()
    }

    fn start(self, expires: i64) -> (r: PinMutHrTimerHandle<'a, T>)
        ensures
            *final(self.inner) == *final(r.inner),
            r.inner.same_but_timer(&*old(self.inner)),
    {
        self.inner.start_internal(expires);
        PinMutHrTimerHandle { inner: self.inner }
    }
}

impl<'a, T: HasHrTimer> ScopedHrTimerPointer for Borrower<'a, T> {
    open spec fn scoped(&self) -> TimerState {
        self.inner.contained().state()
    }

    /// Starts the timer, calls `f` and cancels the timer, which is stopped then. The rest of the
    /// struct is as it was.
    fn start_scoped<U, F: FnOnce(&HrTimer) -> U>(self, expires: i64, f: F) -> (r: U)
        ensures
            final(self.inner).contained().state() == TimerState::Stopped,
            final(self.inner).same_but_timer(&*old(self.inner)),
    {
        let ghost stopped = *self.inner;
        let mut handle = self.start(expires);
        let ghost started = *handle.inner;
        let r = f(handle.inner.timer());
        let ghost shown = *handle.inner;
        let _ = handle.cancel();
        proof {
            T::lemma_same_but_timer(&stopped, &started, &shown);
            T::lemma_same_but_timer(&stopped, &shown, &*handle.inner);
        }
        r
    }
}

impl HasHrTimer for HrTimer {
    open spec fn contained(&self) -> HrTimer {
        *self
    }

    open spec fn same_but_timer(&self, other: &Self) -> bool {
        true
    }

    proof fn lemma_same_but_timer(first: &Self, second: &Self, third: &Self) {
    }

    fn timer(&mut self) -> (r: &mut HrTimer) {
        self
    }
}

/// A timer that was started and fired is stopped again if its callback does not ask for a restart,
/// and has the expiry time of its last start if it does. A start while the callback executes takes
/// effect when it has finished, whatever it asks for.
pub proof fn lemma_timer_cycle(state: TimerState, expires: i64, later: i64, restart: HrTimerRestart)
    requires
        !(state is Running),
    ensures
        state.after_start(expires).after_expire().after_finish(HrTimerRestart::NoRestart)
            == TimerState::Stopped,
        state.after_start(expires).after_expire().after_finish(HrTimerRestart::Restart)
            == TimerState::Started(expires),
        state.after_start(expires).after_expire().after_start(later).after_finish(restart)
            == TimerState::Started(later),
        state.after_start(expires).after_start(later) == TimerState::Started(later),
{
}

} // verus!
