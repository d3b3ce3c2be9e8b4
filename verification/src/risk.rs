//! The trading control state: the daily loss cap and the pause switch, and
//! the pre-trade check that consults and trips them.
use vstd::prelude::*;

verus! {

/// Control flags shared by the risk checks, the dashboards and the scan loop.
#[derive(Debug, Clone, Copy, PartialEq, Eq, Structural)]
pub struct ControlFlags {
    /// The daily loss cap was reached since the last daily reset.
    pub daily_cap_hit: bool,
    /// Trading is paused (by the user, or by the daily cap).
    pub paused: bool,
}

/// What the pre-trade check decided.
#[derive(Debug, Clone, Copy, PartialEq, Eq, Structural)]
pub enum CheckOutcome {
    /// Trading was already stopped (cap hit or paused); nothing changed.
    Blocked,
    /// The day's loss reached the cap: the cap is now marked hit and trading paused.
    CapTripped,
    /// The trade may proceed to sizing.
    Open,
}

/// Decision of the pre-trade check and next flags, given whether the day's loss has reached the cap.
pub open spec fn check_step(f: ControlFlags, loss_at_cap: bool) -> (CheckOutcome, ControlFlags) {
    if f.daily_cap_hit || f.paused {
        (CheckOutcome::Blocked, f)
    } else if loss_at_cap {
        (CheckOutcome::CapTripped, ControlFlags { daily_cap_hit: true, paused: true })
    } else {
        (CheckOutcome::Open, f)
    }
}

/// Flags after a daily reset.
pub open spec fn reset_flags(f: ControlFlags) -> ControlFlags {
    ControlFlags { daily_cap_hit: false, paused: false }
}

/// Flags after the pause switch is flipped.
pub open spec fn toggled(f: ControlFlags) -> ControlFlags {
    ControlFlags { daily_cap_hit: f.daily_cap_hit, paused: !f.paused }
}

impl ControlFlags {
    /// Trading allowed, cap not hit.
    pub fn new() -> (r: Self)
        ensures
            r == (ControlFlags { daily_cap_hit: false, paused: false }),
    {
        ControlFlags { daily_cap_hit: false, paused: false }
    }

    /// Whether new trades are refused.
    pub fn trading_blocked(&self) -> (r: bool)
        ensures
            r == (self.daily_cap_hit || self.paused),
    {
        self.daily_cap_hit || self.paused
    }

    /// First step of the pre-trade check: refuse when the cap was hit or
    /// trading is paused; otherwise, when the day's loss has reached the cap,
    /// mark the cap hit, pause, and refuse; otherwise let the trade through.
    pub fn pre_trade_check(&mut self, loss_at_cap: bool) -> (r: CheckOutcome)
        ensures
            (r, *final(self)) == check_step(*old(self), loss_at_cap),
    {
        if self.daily_cap_hit || self.paused {
            return CheckOutcome::Blocked;
        }
        if loss_at_cap {
            self.daily_cap_hit = true;
            self.paused = true;
            return CheckOutcome::CapTripped;
        }
        CheckOutcome::Open
    }

    /// Daily reset: clears the cap and resumes trading.
    pub fn reset_daily(&mut self)
        ensures
            *final(self) == reset_flags(*old(self)),
    {
        self.daily_cap_hit = false;
        self.paused = false;
    }

    /// Flips the pause switch and returns the new state of the switch.
    pub fn toggle_pause(&mut self) -> (r: bool)
        ensures
            *final(self) == toggled(*old(self)),
            r == final(self).paused,
    {
        self.paused = !self.paused;
        self.paused
    }
}

/// Once the pre-trade check trips the daily cap, every later check refuses and
/// changes nothing, whatever the day's loss, until a daily reset.
pub proof fn lemma_tripped_check_stays_closed(f: ControlFlags, loss_at_cap: bool, later_loss: bool)
    requires
        check_step(f, loss_at_cap).0 == CheckOutcome::CapTripped,
    ensures
        check_step(check_step(f, loss_at_cap).1, later_loss) == (
        CheckOutcome::Blocked,
        check_step(f, loss_at_cap).1,
        ),
{
}

/// After a daily reset the pre-trade check admits a trade unless the day's loss
/// has reached the cap.
pub proof fn lemma_reset_reopens_trading(f: ControlFlags, loss_at_cap: bool)
    ensures
        check_step(reset_flags(f), loss_at_cap).0 == (if loss_at_cap {
            CheckOutcome::CapTripped
        } else {
            CheckOutcome::Open
        }),
{
}

/// Flipping the pause switch twice restores the flags.
pub proof fn lemma_toggle_twice(f: ControlFlags)
    ensures
        toggled(toggled(f)) == f,
{
}

/// The pre-trade check admits a trade only when trading is not blocked and
/// the loss is under the cap, and then leaves the flags as they were; it
/// refuses without change exactly when trading was already blocked.
pub proof fn lemma_check_open_only_when_unblocked(f: ControlFlags, loss_at_cap: bool)
    ensures
        check_step(f, loss_at_cap).0 == CheckOutcome::Open ==> !(f.daily_cap_hit || f.paused)
            && !loss_at_cap && check_step(f, loss_at_cap).1 == f,
        check_step(f, loss_at_cap).0 == CheckOutcome::Blocked <==> (f.daily_cap_hit || f.paused),
{
}

} // verus!
