//! The connection supervisor's idle tracking: per-connection context and the
//! decision its timer loop takes each time the idle alarm fires.

use vstd::prelude::*;

verus! {

/// Per-connection state read by the idle supervisor: the instant (in
/// milliseconds of some monotonic clock) of the last inbound activity,
/// and whether the connection has been upgraded to a CONNECT tunnel.
pub struct Context {
    pub last_activity: u64,
    pub upgraded: bool,
}

impl Context {
    /// A fresh connection context: active now, not upgraded.
    pub fn new(now: u64) -> (c: Context)
        ensures
            c.last_activity == now,
            !c.upgraded,
    {
        Context { last_activity: now, upgraded: false }
    }

    /// Record inbound activity at instant `now`.
    pub fn refresh(&mut self, now: u64)
        ensures
            final(self).last_activity == now,
            final(self).upgraded == old(self).upgraded,
    {
        self.last_activity = now;
    }

    /// Mark the connection as carrying a CONNECT tunnel.
    pub fn upgrade(&mut self)
        ensures
            final(self).upgraded,
            final(self).last_activity == old(self).last_activity,
    {
        self.upgraded = true;
    }
}

/// When the idle alarm fires, in the supervisor's millisecond clock: one
/// idle timeout after the given activity instant, saturating at the clock's
/// end.
pub fn idle_deadline(last_activity: u64) -> (r: u64)
    ensures
        last_activity + crate::IDLE_TIMEOUT_SECS * 1000 <= u64::MAX ==> r == last_activity
            + crate::IDLE_TIMEOUT_SECS * 1000,
        last_activity + crate::IDLE_TIMEOUT_SECS * 1000 > u64::MAX ==> r == u64::MAX,
{
    let window: u64 = crate::IDLE_TIMEOUT_SECS * 1000;
    if last_activity <= u64::MAX - window {
        last_activity + window
    } else {
        u64::MAX
    }
}

/// What the supervisor does when the idle alarm fires. The alarm was armed
/// for `last_seen + IDLE_TIMEOUT`, where `last_seen` is the activity instant
/// the supervisor read before sleeping.
pub enum IdleAction {
    /// No new request arrived while the supervisor slept and the connection
    /// is not a tunnel: shut the connection down gracefully.
    Shutdown,
    /// The connection is a tunnel: the tunnel's own stream-level timer
    /// governs it, so refresh the activity instant and keep waiting.
    RefreshAndContinue,
    /// New requests arrived while the supervisor slept: re-arm the alarm
    /// from the new activity instant.
    Continue,
}

/// The supervisor's decision on wakeup, from the activity instant it saw
/// before sleeping (`last_seen`) and the context it reads now.
pub open spec fn spec_idle_decision(upgraded: bool, activity: u64, last_seen: u64) -> IdleAction {
    if upgraded {
        IdleAction::RefreshAndContinue
    } else if activity <= last_seen {
        IdleAction::Shutdown
    } else {
        IdleAction::Continue
    }
}

/// Decide what the supervisor does when the idle alarm fires: shut an idle
/// connection down, leave a tunneled connection to its own timer, or keep
/// waiting if new requests arrived in the meantime.
pub fn idle_decision(ctx: &Context, last_seen: u64) -> (a: IdleAction)
    ensures
        a == spec_idle_decision(ctx.upgraded, ctx.last_activity, last_seen),
{
    if ctx.upgraded {
        IdleAction::RefreshAndContinue
    } else if ctx.last_activity <= last_seen {
        IdleAction::Shutdown
    } else {
        IdleAction::Continue
    }
}

/// A connection with no inbound activity since the supervisor last looked is
/// shut down when the idle alarm fires — and an upgraded (tunneled)
/// connection never is, no matter how long it sits idle.
pub proof fn lemma_idle_shutdown(upgraded: bool, activity: u64, last_seen: u64)
    ensures
        upgraded ==> spec_idle_decision(upgraded, activity, last_seen) != IdleAction::Shutdown,
        !upgraded && activity <= last_seen ==> spec_idle_decision(upgraded, activity, last_seen)
            == IdleAction::Shutdown,
        spec_idle_decision(upgraded, activity, last_seen) == IdleAction::Shutdown ==> !upgraded
            && activity <= last_seen,
{
}

} // verus!
