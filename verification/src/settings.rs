//! The externally supplied configuration the scheduler and the sync
//! commands read: the target calendar and the sync interval. The
//! settings file itself is read and written outside; this module is the
//! document's meaning and its updates.

use vstd::prelude::*;

verus! {

/// The subsystem's settings. An absent interval, like a zero one, means
/// syncing is disabled.
#[derive(Debug)]
pub struct Settings {
    pub google_calendar_id: Option<String>,
    pub sync_interval_minutes: Option<u64>,
}

impl Settings {
    /// Settings with nothing configured.
    pub fn new() -> (r: Settings)
        ensures
            r.google_calendar_id is None,
            r.sync_interval_minutes is None,
    {
        Settings { google_calendar_id: None, sync_interval_minutes: None }
    }

    /// Set the target calendar, leaving the interval as it is.
    pub fn set_calendar_id(&mut self, calendar_id: String)
        ensures
            final(self).google_calendar_id matches Some(c) && c@ == calendar_id@,
            final(self).sync_interval_minutes == old(self).sync_interval_minutes,
    {
        self.google_calendar_id = Some(calendar_id);
    }

    /// Forget the target calendar, leaving the interval as it is.
    pub fn remove_calendar_id(&mut self)
        ensures
            final(self).google_calendar_id is None,
            final(self).sync_interval_minutes == old(self).sync_interval_minutes,
    {
        self.google_calendar_id = None;
    }

    /// Set the sync interval, leaving the calendar as it is.
    pub fn set_sync_interval(&mut self, minutes: u64)
        ensures
            final(self).sync_interval_minutes == Some(minutes),
            final(self).google_calendar_id == old(self).google_calendar_id,
    {
        self.sync_interval_minutes = Some(minutes);
    }
}

} // verus!
