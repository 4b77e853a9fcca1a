//! Per-call metadata and its propagation: the deadline and the trace
//! identifier that travel with a request, and the slot that holds the context
//! which is current for the code that runs on behalf of a call.

use vstd::prelude::*;

verus! {

/// An opaque identifier that ties a request to the trace it belongs to.
#[derive(Clone, Copy, Debug, PartialEq, Eq, Hash, Structural)]
pub struct TraceId(pub u64);

/// What every call carries: an absolute deadline, in nanoseconds since the Unix
/// epoch, and the trace the call belongs to.
#[derive(Clone, Copy, Debug, PartialEq, Eq, Hash, Structural)]
pub struct Context {
    pub deadline: u64,
    pub trace: TraceId,
}

/// The time left until `deadline` when the clock reads `now`; zero once the
/// deadline has passed.
pub open spec fn spec_remaining(deadline: u64, now: u64) -> u64 {
    if deadline > now {
        (deadline - now) as u64
    } else {
        0
    }
}

/// The time left until `deadline` when the clock reads `now`.
pub fn remaining(deadline: u64, now: u64) -> (left: u64)
    ensures
        left == spec_remaining(deadline, now),
{
    deadline.saturating_sub(now)
}

/// The instant that lies `timeout` after `now`, or the last instant that can
/// be written where that one cannot.
pub open spec fn spec_deadline_after(now: u64, timeout: u64) -> u64 {
    if now + timeout > u64::MAX {
        u64::MAX
    } else {
        (now + timeout) as u64
    }
}

/// The instant that lies `timeout` after `now`.
pub fn deadline_after(now: u64, timeout: u64) -> (deadline: u64)
    ensures
        deadline == spec_deadline_after(now, timeout),
{
    now.saturating_add(timeout)
}

/// Whether a call with this deadline is already over when the clock reads `now`.
pub open spec fn spec_expired(deadline: u64, now: u64) -> bool {
    deadline <= now
}

/// Whether a call with this deadline is already over when the clock reads `now`.
pub fn expired(deadline: u64, now: u64) -> (over: bool)
    ensures
        over == spec_expired(deadline, now),
{
    deadline <= now
}

/// The context that a new call gets: the one given with the call; without it
/// the current one; without either a fresh one, whose deadline lies `timeout`
/// after `now`.
pub open spec fn spec_resolve(
    explicit: Option<Context>,
    ambient: Option<Context>,
    now: u64,
    timeout: u64,
) -> Context {
    match explicit {
        Some(context) => context,
        None => match ambient {
            Some(context) => context,
            None => Context { deadline: spec_deadline_after(now, timeout), trace: TraceId(0) },
        },
    }
}

/// The context that a new call gets.
pub fn resolve(explicit: Option<Context>, ambient: Option<Context>, now: u64, timeout: u64) -> (context:
    Context)
    ensures
        context == spec_resolve(explicit, ambient, now, timeout),
{
    match explicit {
        Some(context) => context,
        None => match ambient {
            Some(context) => context,
            None => Context { deadline: deadline_after(now, timeout), trace: TraceId(0) },
        },
    }
}

/// The slot that holds the current context. Code that runs on behalf of a call
/// reads it here instead of taking it as a parameter.
pub struct Ambient {
    current: Option<Context>,
}

impl View for Ambient {
    type V = Option<Context>;

    closed spec fn view(&self) -> Option<Context> {
        self.current
    }
}

impl Ambient {
    /// A slot with no current context.
    pub fn new() -> (slot: Ambient)
        ensures
            slot@ is None,
    {
        Ambient { current: None }
    }

    /// A snapshot of the current context.
    pub fn capture(&self) -> (snapshot: Option<Context>)
        ensures
            snapshot == self@,
    {
        self.current
    }

    /// Makes `context` the current one.
    pub fn set(&mut self, context: Context)
        ensures
            final(self)@ == Some(context),
    {
        self.current = Some(context);
    }

    /// Puts back a snapshot taken earlier.
    pub fn restore(&mut self, snapshot: Option<Context>)
        ensures
            final(self)@ == snapshot,
    {
        self.current = snapshot;
    }

    /// Runs `f` with `context` as the current one, and puts the former one
    /// back when `f` is done.
    pub fn run_with<R, F: FnOnce(&Ambient) -> R>(&mut self, context: Context, f: F) -> (out: R)
        requires
            forall|slot: &Ambient| slot@ == Some(context) ==> f.requires((slot,)),
        ensures
            final(self)@ == old(self)@,
            exists|slot: &Ambient| slot@ == Some(context) && f.ensures((slot,), out),
    {
        let former = self.capture();
        self.set(context);
        let out = f(&*self);
        self.restore(former);
        out
    }
}

/// A computation together with the context that was current when it was made.
pub struct Propagating<T> {
    inner: T,
    context: Option<Context>,
}

/// Ties `inner` to the context that is current now, so that it later runs in
/// that context whatever is current then.
pub fn context_propagating<T>(ambient: &Ambient, inner: T) -> (bound: Propagating<T>)
    ensures
        bound.context() == ambient@,
        bound.inner() == inner,
{
    Propagating { inner, context: ambient.capture() }
}

impl<T> Propagating<T> {
    /// The context that the computation is tied to.
    pub closed spec fn context(self) -> Option<Context> {
        self.context
    }

    /// The computation.
    pub closed spec fn inner(self) -> T {
        self.inner
    }

    /// Runs the computation with its own context as the current one, and puts
    /// back what was current before.
    pub fn run<R>(self, ambient: &mut Ambient) -> (out: R) where T: FnOnce(&Ambient) -> R
        requires
            forall|slot: &Ambient| slot@ == self.context() ==> self.inner().requires((slot,)),
        ensures
            final(ambient)@ == old(ambient)@,
            exists|slot: &Ambient| slot@ == self.context() && self.inner().ensures((slot,), out),
    {
        let former = ambient.capture();
        ambient.restore(self.context);
        let f = self.inner;
        let out = f(&*ambient);
        ambient.restore(former);
        out
    }
}

} // verus!
