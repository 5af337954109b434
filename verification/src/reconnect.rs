//! Policy for riding out a device disconnect.
//!
//! A flaky USB cable drops the device for a moment and brings it back. The filesystem stays mounted
//! while [`ReconnectPolicy`] still has budget, retrying the reopen on a capped exponential backoff.
use crate::duration::nanos;
use crate::text::{decimal, push_decimal};
use std::time::Duration;
use vstd::prelude::*;

verus! {

/// First pause after a disconnect, before the first reopen attempt, in milliseconds.
pub const FIRST_DELAY_MILLIS: u64 = 250;

/// Longest pause between two reopen attempts, in milliseconds.
pub const MAX_DELAY_MILLIS: u64 = 2000;

/// How long to keep trying to reopen a device that went away.
#[derive(Debug, Clone, Copy, PartialEq, Eq)]
pub struct ReconnectPolicy {
    timeout_secs: u64,
}

impl View for ReconnectPolicy {
    type V = int;

    /// The reconnect window, in seconds.
    closed spec fn view(&self) -> int {
        self.timeout_secs as int
    }
}

impl Default for ReconnectPolicy {
    fn default() -> (policy: Self)
        ensures
            policy@ == ReconnectPolicy::DEFAULT_TIMEOUT_SECS,
    {
        Self::from_secs(Self::DEFAULT_TIMEOUT_SECS)
    }
}

impl ReconnectPolicy {
    /// Default reconnect window, in seconds.
    pub const DEFAULT_TIMEOUT_SECS: u64 = 30;

    /// Builds a policy that gives the device `secs` seconds to come back. Zero disables
    /// reconnection: the mount gives up on the first disconnect.
    pub fn from_secs(secs: u64) -> (policy: Self)
        ensures
            policy@ == secs,
    {
        ReconnectPolicy { timeout_secs: secs }
    }

    /// Whether reconnection is turned off (`--reconnect-timeout 0`).
    pub fn is_disabled(&self) -> (disabled: bool)
        ensures
            disabled == (self@ == 0),
    {
        self.timeout_secs == 0
    }

    /// The reconnect window.
    pub fn timeout(&self) -> (timeout: Duration)
        ensures
            nanos(timeout) == self@ * 1_000_000_000,
    {
        Duration::from_secs(self.timeout_secs)
    }

    /// The reconnect window, in seconds.
    pub fn timeout_secs(&self) -> (secs: u64)
        ensures
            secs == self@,
    {
        self.timeout_secs
    }

    /// The pauses to take before each reopen attempt, in order. They end once the window is used
    /// up, which is the signal to give up and unmount.
    pub fn schedule(&self) -> (backoff: Backoff)
        ensures
            backoff@ == (BackoffView {
                remaining: self@ * 1000,
                next: FIRST_DELAY_MILLIS as int,
            }),
    {
        Backoff { remaining: self.timeout_secs as u128 * 1000, next: FIRST_DELAY_MILLIS }
    }
}

/// What is left of a reconnect window and the pause that comes next, in milliseconds.
#[verifier::ext_equal]
pub struct BackoffView {
    pub remaining: int,
    pub next: int,
}

impl BackoffView {
    /// The next pause: shortened where the window would end in it.
    pub open spec fn delay(self) -> int {
        if self.next < self.remaining {
            self.next
        } else {
            self.remaining
        }
    }

    /// What is left after the next pause: the one after it is twice as long, up to the cap.
    pub open spec fn after(self) -> BackoffView {
        BackoffView {
            remaining: self.remaining - self.delay(),
            next: if 2 * self.next < MAX_DELAY_MILLIS {
                2 * self.next
            } else {
                MAX_DELAY_MILLIS as int
            },
        }
    }

    /// All pauses, in order.
    pub open spec fn delays(self) -> Seq<int>
        decreases self.remaining,
    {
        if self.remaining <= 0 || self.next <= 0 {
            Seq::empty()
        } else {
            seq![self.delay()] + self.after().delays()
        }
    }
}

/// Capped exponential backoff bounded by the reconnect window.
///
/// Yields the sleep duration before each attempt. The last item is shortened so the pauses never
/// add up to more than the window.
#[derive(Debug)]
pub struct Backoff {
    remaining: u128,
    next: u64,
}

impl View for Backoff {
    type V = BackoffView;

    closed spec fn view(&self) -> BackoffView {
        BackoffView { remaining: self.remaining as int, next: self.next as int }
    }
}

impl Backoff {
    /// The next pause, until the window is used up.
    pub fn next(&mut self) -> (delay: Option<Duration>)
        ensures
            match delay {
                Some(d) => {
                    &&& old(self)@.remaining > 0
                    &&& nanos(d) == old(self)@.delay() * 1_000_000
                    &&& final(self)@ == old(self)@.after()
                },
                None => old(self)@.remaining == 0 && final(self)@ == old(self)@,
            },
    {
        if self.remaining == 0 {
            return None;
        }
        let delay: u64 = if (self.next as u128) < self.remaining {
            self.next
        } else {
            self.remaining as u64
        };
        self.remaining -= delay as u128;
        self.next = if self.next < MAX_DELAY_MILLIS / 2 {
            self.next * 2
        } else {
            MAX_DELAY_MILLIS
        };
        Some(Duration::from_millis(delay))
    }
}

/// What happened while a device is waited for.
#[derive(Debug, Clone, Copy, PartialEq, Eq, Structural)]
pub enum ReconnectEvent {
    /// It went away.
    Lost,
    /// The pause is over; the cable is out or is not.
    Paused { unplugged: bool },
    /// The device was reopened, or could not be.
    Opened(bool),
    /// The mount took the reopened device over, or could not.
    Resumed(bool),
}

/// What waiting for a device comes to.
#[derive(Debug)]
pub enum ReconnectStep {
    /// Pause this long.
    Pause(Duration),
    /// Reopen the device.
    Open,
    /// Have the mount take the reopened device over.
    Resume,
    /// Nothing: the device is back.
    Back,
    /// The device is gone for good, for this reason.
    GiveUp(String),
}

/// A device being waited for.
#[derive(Debug)]
pub struct Reconnect {
    policy: ReconnectPolicy,
    backoff: Backoff,
    who: String,
}

/// A [`Reconnect`], with its parts as mathematical values.
#[verifier::ext_equal]
pub struct ReconnectView {
    pub secs: int,
    pub backoff: BackoffView,
    pub who: Seq<char>,
}

impl View for Reconnect {
    type V = ReconnectView;

    closed spec fn view(&self) -> ReconnectView {
        ReconnectView { secs: self.policy@ as int, backoff: self.backoff@, who: self.who@ }
    }
}

impl ReconnectView {
    /// Whether an event sends the wait into its next pause: the start, and every attempt that
    /// failed.
    pub open spec fn waits_on(event: ReconnectEvent) -> bool {
        match event {
            ReconnectEvent::Lost => true,
            ReconnectEvent::Paused { unplugged } => unplugged,
            ReconnectEvent::Opened(opened) => !opened,
            ReconnectEvent::Resumed(resumed) => !resumed,
        }
    }

    /// Whether there is no further pause: reconnecting is off, or the window is used up.
    pub open spec fn is_over(self) -> bool {
        self.secs == 0 || self.backoff.remaining == 0
    }

    /// Why the device is given up.
    pub open spec fn reason(self) -> Seq<char> {
        if self.secs == 0 {
            reconnect_off_text(self.who)
        } else {
            gone_text(self.who, self.secs)
        }
    }
}

/// What is said of a device that went away while reconnecting is turned off.
pub open spec fn reconnect_off_text(who: Seq<char>) -> Seq<char> {
    who + " disconnected and reconnect is off (--reconnect-timeout 0)"@
}

/// What is said of a device that did not come back.
pub open spec fn gone_text(who: Seq<char>, secs: int) -> Seq<char> {
    who + " didn't come back within "@ + decimal(secs as nat) + "s"@
}

/// What is said while waiting for a device.
pub open spec fn waiting_text(who: Seq<char>, secs: int) -> Seq<char> {
    who + " disconnected, waiting up to "@ + decimal(secs as nat) + "s for it to come back..."@
}

/// Says that a device is being waited for.
pub fn waiting_message(who: &str, policy: &ReconnectPolicy) -> (message: String)
    ensures
        message@ == waiting_text(who@, policy@),
{
    let mut message = who.to_string();
    message.append(" disconnected, waiting up to ");
    push_decimal(&mut message, policy.timeout_secs());
    message.append("s for it to come back...");
    message
}

impl Reconnect {
    /// Starts to wait for the device called `who`.
    pub fn new(policy: ReconnectPolicy, who: &str) -> (wait: Self)
        ensures
            wait@ == (ReconnectView {
                secs: policy@ as int,
                backoff: BackoffView {
                    remaining: policy@ * 1000,
                    next: FIRST_DELAY_MILLIS as int,
                },
                who: who@,
            }),
    {
        Reconnect { policy, backoff: policy.schedule(), who: who.to_string() }
    }

    /// The next pause, or the reason to give up.
    fn next_pause(&mut self) -> (step: ReconnectStep)
        ensures
            if old(self)@.is_over() {
                &&& step matches ReconnectStep::GiveUp(reason) && reason@ == old(self)@.reason()
                &&& final(self)@ == old(self)@
            } else {
                &&& step matches ReconnectStep::Pause(d) && nanos(d) == old(self)@.backoff.delay()
                    * 1_000_000
                &&& final(self)@ == (ReconnectView {
                    backoff: old(self)@.backoff.after(),
                    ..old(self)@
                })
            },
    {
        if self.policy.is_disabled() {
            let mut reason = self.who.clone();
            reason.append(" disconnected and reconnect is off (--reconnect-timeout 0)");
            return ReconnectStep::GiveUp(reason);
        }
        match self.backoff.next() {
            Some(delay) => ReconnectStep::Pause(delay),
            None => {
                let mut reason = self.who.clone();
                reason.append(" didn't come back within ");
                push_decimal(&mut reason, self.policy.timeout_secs());
                reason.append("s");
                ReconnectStep::GiveUp(reason)
            },
        }
    }

    /// Takes what happened, and says what is next. After each pause the device is reopened and
    /// taken over, unless the cable is out; whatever fails leads to the next pause.
    pub fn step(&mut self, event: ReconnectEvent) -> (step: ReconnectStep)
        ensures
            if !ReconnectView::waits_on(event) {
                &&& final(self)@ == old(self)@
                &&& match event {
                    ReconnectEvent::Opened(_) => step is Resume,
                    ReconnectEvent::Resumed(_) => step is Back,
                    _ => step is Open,
                }
            } else if old(self)@.is_over() {
                &&& step matches ReconnectStep::GiveUp(reason) && reason@ == old(self)@.reason()
                &&& final(self)@ == old(self)@
            } else {
                &&& step matches ReconnectStep::Pause(d) && nanos(d) == old(self)@.backoff.delay()
                    * 1_000_000
                &&& final(self)@ == (ReconnectView {
                    backoff: old(self)@.backoff.after(),
                    ..old(self)@
                })
            },
    {
        match event {
            ReconnectEvent::Paused { unplugged: false } => ReconnectStep::Open,
            ReconnectEvent::Opened(true) => ReconnectStep::Resume,
            ReconnectEvent::Resumed(true) => ReconnectStep::Back,
            _ => self.next_pause(),
        }
    }
}

pub open spec fn sum(delays: Seq<int>) -> int
    decreases delays.len(),
{
    if delays.len() == 0 {
        0
    } else {
        delays[0] + sum(delays.drop_first())
    }
}

/// The pauses add up to exactly the window, and none is longer than the longest one or empty.
pub proof fn pauses_use_exactly_the_window(backoff: BackoffView)
    requires
        backoff.remaining >= 0,
        0 < backoff.next <= MAX_DELAY_MILLIS,
    ensures
        sum(backoff.delays()) == backoff.remaining,
        forall|i: int|
            0 <= i < backoff.delays().len() ==> 0 < #[trigger] backoff.delays()[i]
                <= MAX_DELAY_MILLIS,
        backoff.delays().len() == 0 <==> backoff.remaining == 0,
    decreases backoff.remaining,
{
    if backoff.remaining > 0 {
        let rest = backoff.after();
        pauses_use_exactly_the_window(rest);
        let all = backoff.delays();
        assert(all.drop_first() =~= rest.delays());
        assert forall|i: int| 0 <= i < all.len() implies 0 < #[trigger] all[i]
            <= MAX_DELAY_MILLIS by {
            if i > 0 {
                assert(all[i] == rest.delays()[i - 1]);
            }
        }
    }
}

/// How long the pauses are: a quarter of a second first, then twice as long each time up to two
/// seconds, and the last one as long as the window still is.
pub proof fn pauses_double_up_to_two_seconds(backoff: BackoffView)
    ensures
        backoff.delay() == backoff.next || backoff.delay() == backoff.remaining,
        backoff.delay() <= backoff.next,
        backoff.delay() <= backoff.remaining,
        backoff.after().remaining == backoff.remaining - backoff.delay(),
        2 * backoff.next <= 2000 ==> backoff.after().next == 2 * backoff.next,
        2 * backoff.next >= 2000 ==> backoff.after().next == 2000,
        FIRST_DELAY_MILLIS == 250,
        MAX_DELAY_MILLIS == 2000,
{
}

/// When a device is waited for: from when it is lost, and whenever something failed or the cable is
/// out; never while an attempt goes well. The wait is over where reconnecting is off or the window
/// used up, and only then.
pub proof fn failed_attempts_wait_on(wait: ReconnectView)
    ensures
        ReconnectView::waits_on(ReconnectEvent::Lost),
        ReconnectView::waits_on(ReconnectEvent::Paused { unplugged: true }),
        !ReconnectView::waits_on(ReconnectEvent::Paused { unplugged: false }),
        ReconnectView::waits_on(ReconnectEvent::Opened(false)),
        !ReconnectView::waits_on(ReconnectEvent::Opened(true)),
        ReconnectView::waits_on(ReconnectEvent::Resumed(false)),
        !ReconnectView::waits_on(ReconnectEvent::Resumed(true)),
        wait.is_over() <==> wait.secs == 0 || wait.backoff.remaining == 0,
{
}

/// Why a device is given up: because reconnecting is off, where it is; otherwise because the device
/// did not come back in the time that it had.
pub proof fn devices_are_given_up_for_a_reason(wait: ReconnectView)
    ensures
        wait.secs == 0 ==> wait.reason() == wait.who
            + " disconnected and reconnect is off (--reconnect-timeout 0)"@,
        wait.secs != 0 ==> wait.reason() == wait.who + " didn't come back within "@ + decimal(
            wait.secs as nat,
        ) + "s"@,
{
}

} // verus!
