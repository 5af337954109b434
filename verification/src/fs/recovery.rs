//! Riding out the two ways an operation's handles can die under it.
use crate::device::link_lost;
use crate::device_error::DeviceError;
use vstd::prelude::*;

verus! {

/// How many times an operation is retried across reconnects before it gives up. One reconnect is
/// the cable glitch we're here for; a second is a device that keeps dropping mid-operation, and
/// past that the retry is not the answer.
pub const MAX_ATTEMPTS: u32 = 3;

/// How many times an operation re-resolves its handles and tries again after the device says a
/// handle is stale.
///
/// One: the first stale handle means the device re-keyed the object and a fresh listing has the
/// new token, so the retry works. A second one for the same operation means the re-resolved token
/// died too, which isn't a re-key any more; looping on it would hammer the device instead of
/// telling the caller.
///
/// This budget is deliberately separate from [`MAX_ATTEMPTS`]: the two failures have nothing in
/// common. A stale handle costs one listing against a healthy session, a dead link costs a reopen
/// and a backoff wait, so spending one shouldn't shorten the other, and a stale handle must never
/// fall through into the reconnect path.
pub const MAX_STALE_RETRIES: u32 = 1;

/// What to do about a failed attempt.
#[derive(Debug, Clone, Copy, PartialEq, Eq, Structural)]
pub enum Verdict {
    /// The caller should see the failure.
    Report,
    /// The session is fine, the handles are not: re-resolve and try again.
    Retry,
    /// The session is gone: reopen the device.
    Reconnect,
}

/// What is left of an operation's budgets.
#[derive(Debug, Clone, Copy, PartialEq, Eq, Structural)]
pub struct Recovery {
    /// Sessions that may still be tried, the current one among them.
    pub sessions: u32,
    /// Re-resolutions left in the current session.
    pub stale_retries: u32,
}

impl Recovery {
    /// An operation that has not been tried yet.
    pub open spec fn full() -> Recovery {
        Recovery { sessions: MAX_ATTEMPTS, stale_retries: MAX_STALE_RETRIES }
    }

    pub fn new() -> (recovery: Self)
        ensures
            recovery == Recovery::full(),
    {
        Recovery { sessions: MAX_ATTEMPTS, stale_retries: MAX_STALE_RETRIES }
    }

    /// What to do about an attempt that failed with `error`.
    pub open spec fn verdict(self, error: DeviceError) -> Verdict {
        if error is StaleHandle {
            if self.stale_retries == 0 {
                Verdict::Report
            } else {
                Verdict::Retry
            }
        } else if link_lost(error) {
            Verdict::Reconnect
        } else {
            Verdict::Report
        }
    }

    /// The budgets after a verdict.
    pub open spec fn spent(self, verdict: Verdict) -> Recovery {
        if verdict == Verdict::Retry {
            Recovery { stale_retries: (self.stale_retries - 1) as u32, ..self }
        } else {
            self
        }
    }

    /// The budgets in a new session.
    pub open spec fn next_session(self) -> Recovery {
        if self.sessions == 0 {
            self
        } else {
            Recovery {
                sessions: (self.sessions - 1) as u32,
                stale_retries: MAX_STALE_RETRIES,
            }
        }
    }

    /// Decides about an attempt that failed with `error`.
    pub fn judge(&mut self, error: &DeviceError) -> (verdict: Verdict)
        ensures
            verdict == old(self).verdict(*error),
            *final(self) == old(self).spent(verdict),
    {
        if error.is_stale_handle() {
            if self.stale_retries == 0 {
                Verdict::Report
            } else {
                self.stale_retries -= 1;
                Verdict::Retry
            }
        } else if error.is_link_lost() {
            Verdict::Reconnect
        } else {
            Verdict::Report
        }
    }

    /// Moves on to the session that a reconnect brought; `false` once no more may be tried.
    pub fn reconnected(&mut self) -> (again: bool)
        ensures
            *final(self) == old(self).next_session(),
            again == (final(self).sessions > 0),
    {
        if self.sessions > 0 {
            self.sessions -= 1;
            self.stale_retries = MAX_STALE_RETRIES;
        }
        self.sessions > 0
    }

    /// How many more attempts the budgets can pay for, at most.
    pub open spec fn attempts_left(self) -> int {
        if self.sessions == 0 {
            0
        } else {
            (self.sessions - 1) * (1 + MAX_STALE_RETRIES) + 1 + self.stale_retries
        }
    }
}

/// A stale handle is never answered by a reconnect, whatever is left of the budgets.
pub proof fn stale_handles_never_reconnect(recovery: Recovery)
    ensures
        recovery.verdict(DeviceError::StaleHandle) != Verdict::Reconnect,
{
}

/// A failure that is neither a stale handle nor a lost link goes to the caller at once.
pub proof fn plain_failures_are_reported(recovery: Recovery, error: DeviceError)
    requires
        !(error is StaleHandle),
        !link_lost(error),
    ensures
        recovery.verdict(error) == Verdict::Report,
{
}

/// Every retry and every reconnect costs an attempt, and an operation starts with six: so it ends.
pub proof fn recovery_is_bounded(recovery: Recovery, error: DeviceError)
    requires
        recovery.stale_retries <= MAX_STALE_RETRIES,
    ensures
        Recovery::full().attempts_left() == 6,
        recovery.attempts_left() >= 0,
        recovery.spent(recovery.verdict(error)).stale_retries <= MAX_STALE_RETRIES,
        recovery.next_session().stale_retries <= MAX_STALE_RETRIES,
        recovery.sessions > 0 && recovery.verdict(error) == Verdict::Retry ==> recovery.spent(
            recovery.verdict(error),
        ).attempts_left() < recovery.attempts_left(),
        recovery.sessions > 0 ==> recovery.next_session().attempts_left()
            < recovery.attempts_left(),
{
}

/// What each failure is answered with: a lost session by a new one, always; a stale handle by another
/// try in the same session, as long as the budget for that lasts, and then by reporting it. Only such
/// a try costs a budget, and only its own; a new session costs one and has a full budget for stale
/// handles.
pub proof fn each_failure_has_its_answer(recovery: Recovery, error: DeviceError)
    ensures
        recovery.verdict(error) == Verdict::Reconnect <==> error is Disconnected
            || error is DeviceReset || error is NoDevice,
        recovery.verdict(error) == Verdict::Retry <==> error is StaleHandle
            && recovery.stale_retries > 0,
        recovery.spent(Verdict::Report) == recovery,
        recovery.spent(Verdict::Reconnect) == recovery,
        recovery.spent(Verdict::Retry).sessions == recovery.sessions,
        recovery.stale_retries > 0 ==> recovery.spent(Verdict::Retry).stale_retries
            == recovery.stale_retries - 1,
        recovery.sessions > 0 ==> recovery.next_session().sessions == recovery.sessions - 1
            && recovery.next_session().stale_retries == Recovery::full().stale_retries,
        Recovery::full().sessions == 3,
        Recovery::full().stale_retries == 1,
{
}

} // verus!
