use vstd::prelude::*;

verus! {

/// How long a local clipboard change holds back remote clipboard updates, in
/// nanoseconds (750 ms).
pub const LOCAL_CLIPBOARD_QUIET_DUR: u64 = 750_000_000;

/// When the local clipboard last changed and when a remote update was last
/// applied to it.
///
/// Instants are nanoseconds on one monotonic clock (for example, the time
/// elapsed since a fixed origin taken at start-up).
#[derive(Clone, Copy, Debug)]
pub struct ClipboardTiming {
    pub last_local_change_at: Option<u64>,
    pub last_remote_apply_at: Option<u64>,
}

/// `now - earlier`, or zero when `now` is not later than `earlier`.
pub open spec fn spec_saturating_elapsed(now: u64, earlier: u64) -> u64 {
    if now >= earlier {
        (now - earlier) as u64
    } else {
        0
    }
}

/// How long a remote clipboard update has to wait at `now`: the rest of the
/// quiet period after the last local change, unless a remote update was
/// applied at or after that change.
pub open spec fn spec_remote_update_delay(timing: ClipboardTiming, now: u64) -> Option<u64> {
    match timing.last_local_change_at {
        None => None,
        Some(local) => {
            if timing.last_remote_apply_at matches Some(remote) && local <= remote {
                None
            } else {
                let elapsed = spec_saturating_elapsed(now, local);
                if elapsed < LOCAL_CLIPBOARD_QUIET_DUR {
                    Some((LOCAL_CLIPBOARD_QUIET_DUR - elapsed) as u64)
                } else {
                    None
                }
            }
        },
    }
}

impl ClipboardTiming {
    /// No change observed yet.
    pub fn new() -> (timing: ClipboardTiming)
        ensures
            timing.last_local_change_at is None,
            timing.last_remote_apply_at is None,
    {
        ClipboardTiming { last_local_change_at: None, last_remote_apply_at: None }
    }

    /// Records a local clipboard change at `now`.
    pub fn mark_local_change(&mut self, now: u64)
        ensures
            final(self).last_local_change_at == Some(now),
            final(self).last_remote_apply_at == old(self).last_remote_apply_at,
    {
        self.last_local_change_at = Some(now);
    }

    /// Records that a remote clipboard update was applied at `now`.
    pub fn mark_remote_apply(&mut self, now: u64)
        ensures
            final(self).last_remote_apply_at == Some(now),
            final(self).last_local_change_at == old(self).last_local_change_at,
    {
        self.last_remote_apply_at = Some(now);
    }

    /// How long a remote update must still wait at `now`, or `None` when it
    /// may be applied at once.
    pub fn remote_update_delay(&self, now: u64) -> (delay: Option<u64>)
        ensures
            delay == spec_remote_update_delay(*self, now),
    {
        let local_change_at = match self.last_local_change_at {
            None => {
                return None;
            },
            Some(t) => t,
        };
        if let Some(remote_apply_at) = self.last_remote_apply_at {
            if local_change_at <= remote_apply_at {
                return None;
            }
        }
        let elapsed = if now >= local_change_at {
            now - local_change_at
        } else {
            0
        };
        if elapsed < LOCAL_CLIPBOARD_QUIET_DUR {
            Some(LOCAL_CLIPBOARD_QUIET_DUR - elapsed)
        } else {
            None
        }
    }
}

impl Default for ClipboardTiming {
    fn default() -> (timing: ClipboardTiming)
        ensures
            timing.last_local_change_at is None,
            timing.last_remote_apply_at is None,
    {
        ClipboardTiming::new()
    }
}

/// What to do with a remote clipboard update.
#[derive(PartialEq, Eq, Structural, Clone, Copy, Debug)]
pub enum RemoteUpdateStep {
    /// Write the update to the local clipboard now.
    Apply,
    /// Sleep this many nanoseconds, then ask again with
    /// [`recheck_remote_update`].
    WaitThenRecheck(u64),
    /// Drop the update: a newer local change was observed while waiting.
    Skip,
}

/// The first decision on a remote update: apply it, or wait out the quiet
/// period of a recent local change.
pub fn plan_remote_update(timing: &ClipboardTiming, now: u64) -> (step: RemoteUpdateStep)
    ensures
        step == (match spec_remote_update_delay(*timing, now) {
            Some(d) => RemoteUpdateStep::WaitThenRecheck(d),
            None => RemoteUpdateStep::Apply,
        }),
{
    match timing.remote_update_delay(now) {
        Some(d) => RemoteUpdateStep::WaitThenRecheck(d),
        None => RemoteUpdateStep::Apply,
    }
}

/// The decision after the wait: apply the update unless the local clipboard
/// is still inside a quiet period, which means it changed again meanwhile.
pub fn recheck_remote_update(timing: &ClipboardTiming, now: u64) -> (step: RemoteUpdateStep)
    ensures
        step == (if spec_remote_update_delay(*timing, now) is Some {
            RemoteUpdateStep::Skip
        } else {
            RemoteUpdateStep::Apply
        }),
{
    if timing.remote_update_delay(now).is_some() {
        RemoteUpdateStep::Skip
    } else {
        RemoteUpdateStep::Apply
    }
}

/// A delay, when there is one, is positive and never longer than the quiet
/// period.
pub proof fn lemma_delay_within_quiet_period(timing: ClipboardTiming, now: u64)
    ensures
        spec_remote_update_delay(timing, now) matches Some(d) ==> 0 < d <= LOCAL_CLIPBOARD_QUIET_DUR,
{
}

/// Right after a local change at `t`, with no remote update applied since,
/// a remote update waits exactly the part of the quiet period that has not
/// yet elapsed, and may go ahead once the quiet period is over.
pub proof fn lemma_recent_local_change_delays(timing: ClipboardTiming, t: u64, now: u64)
    requires
        timing.last_local_change_at == Some(t),
        !(timing.last_remote_apply_at matches Some(r) && t <= r),
        t <= now,
    ensures
        now - t < LOCAL_CLIPBOARD_QUIET_DUR ==> spec_remote_update_delay(timing, now) == Some(
            (LOCAL_CLIPBOARD_QUIET_DUR - (now - t)) as u64,
        ),
        now - t >= LOCAL_CLIPBOARD_QUIET_DUR ==> spec_remote_update_delay(timing, now) is None,
{
}

/// A remote update applied at or after the last local change lifts the wait:
/// the next remote update is never delayed, whatever the time.
pub proof fn lemma_remote_apply_after_local_change_clears_delay(
    timing: ClipboardTiming,
    local: u64,
    remote: u64,
    now: u64,
)
    requires
        timing.last_local_change_at == Some(local),
        timing.last_remote_apply_at == Some(remote),
        local <= remote,
    ensures
        spec_remote_update_delay(timing, now) is None,
{
}

/// Sleeping the announced delay is enough: if nothing was marked meanwhile,
/// the recheck after the sleep lets the update through. So a recheck that
/// still asks to wait means the local clipboard changed again.
pub proof fn lemma_waiting_the_delay_expires_it(timing: ClipboardTiming, now: u64)
    requires
        timing.last_local_change_at matches Some(local) && local <= now,
        spec_remote_update_delay(timing, now) is Some,
        now + spec_remote_update_delay(timing, now)->0 <= u64::MAX,
    ensures
        spec_remote_update_delay(
            timing,
            (now + spec_remote_update_delay(timing, now)->0) as u64,
        ) is None,
{
}

/// Without any local change, remote updates are never delayed.
pub proof fn lemma_no_local_change_no_delay(timing: ClipboardTiming, now: u64)
    requires
        timing.last_local_change_at is None,
    ensures
        spec_remote_update_delay(timing, now) is None,
{
}

} // verus!
