//! The sync scheduler's per-tick decision.
//!
//! The scheduler is a perpetual loop, suspended between iterations by a
//! sleep whose duration is re-read from configuration every cycle, so
//! an interval change takes effect on the next tick without a restart.
//! The loop itself runs outside; this module decides what one tick
//! does. Sync failures never terminate the loop: the scheduler must
//! survive arbitrarily many consecutive failures.

use vstd::prelude::*;

verus! {

/// How long a tick sleeps when syncing is disabled, in seconds.
pub const FALLBACK_SLEEP_SECONDS: u64 = 60;

/// What one scheduler tick does.
#[derive(Clone, Copy, PartialEq, Eq, Structural, Debug)]
pub enum TickPlan {
    /// Syncing is disabled (interval zero or unset): sleep a short
    /// fallback period and re-read the configuration. Not an error.
    Disabled { sleep_seconds: u64 },
    /// Run one sync, then sleep the configured interval.
    Run { sleep_seconds: u64 },
}

/// The sleep a configured interval asks for, in seconds, saturating at
/// the largest representable duration.
pub open spec fn interval_sleep(minutes: u64) -> u64 {
    if minutes * 60 <= u64::MAX {
        (minutes * 60) as u64
    } else {
        u64::MAX
    }
}

/// Decide one tick from the configured interval, as read this cycle:
/// zero or absent means "sync disabled", anything else runs a sync and
/// sleeps that many minutes.
pub fn plan_tick(interval_minutes: Option<u64>) -> (r: TickPlan)
    ensures
        r == match interval_minutes {
            None => TickPlan::Disabled { sleep_seconds: FALLBACK_SLEEP_SECONDS },
            Some(m) => {
                if m == 0 {
                    TickPlan::Disabled { sleep_seconds: FALLBACK_SLEEP_SECONDS }
                } else {
                    TickPlan::Run { sleep_seconds: interval_sleep(m) }
                }
            },
        },
{
    match interval_minutes {
        None => TickPlan::Disabled { sleep_seconds: FALLBACK_SLEEP_SECONDS },
        Some(m) => {
            if m == 0 {
                TickPlan::Disabled { sleep_seconds: FALLBACK_SLEEP_SECONDS }
            } else {
                let sleep = match m.checked_mul(60) {
                    Some(s) => s,
                    None => u64::MAX,
                };
                TickPlan::Run { sleep_seconds: sleep }
            }
        },
    }
}

/// A tick never runs a sync while the configuration disables syncing,
/// and always runs one otherwise.
pub proof fn lemma_tick_respects_configuration(interval_minutes: Option<u64>)
    ensures
        (interval_minutes is None || interval_minutes == Some(0u64)) <==> (match interval_minutes {
            None => TickPlan::Disabled { sleep_seconds: FALLBACK_SLEEP_SECONDS },
            Some(m) => {
                if m == 0 {
                    TickPlan::Disabled { sleep_seconds: FALLBACK_SLEEP_SECONDS }
                } else {
                    TickPlan::Run { sleep_seconds: interval_sleep(m) }
                }
            },
        }) is Disabled,
{
}

} // verus!
