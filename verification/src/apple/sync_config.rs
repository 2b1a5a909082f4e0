//! Configuration for automatic Apple data re-import scheduling.
//!
//! Stores schedule preferences (daily/weekly/custom interval), which sources
//! are enabled, and last/next sync timestamps. Instants are UTC timestamps
//! (seconds and nanoseconds since the Unix epoch); intervals are whole
//! seconds.

use vstd::prelude::*;

verus! {

/// Seconds in one hour.
pub const SECS_PER_HOUR: i64 = 3600;

/// The latest instant `chrono` can represent (262142-12-31T23:59:59Z), in
/// seconds since the Unix epoch.
pub const MAX_UTC_SECS: i64 = 8_210_266_876_799;

/// An instant in UTC: seconds since the Unix epoch plus a sub-second part.
#[derive(Clone, Copy, Debug, PartialEq, Eq, Structural)]
pub struct Timestamp {
    pub secs: i64,
    pub nanos: u32,
}

/// A span of time in whole seconds.
#[derive(Clone, Copy, Debug, PartialEq, Eq, Structural)]
pub struct Duration {
    pub secs: i64,
}

impl Duration {
    /// A span of `hours` hours.
    pub fn hours(hours: i64) -> (d: Duration)
        requires
            i64::MIN <= hours * 3600 <= i64::MAX,
        ensures
            d.secs == hours * 3600,
    {
        Duration { secs: hours * SECS_PER_HOUR }
    }
}

/// `t` shifted by `secs` seconds.
pub open spec fn shifted(t: Timestamp, secs: int) -> Timestamp {
    Timestamp { secs: (t.secs + secs) as i64, nanos: t.nanos }
}

/// `a` comes strictly before `b`.
pub open spec fn before(a: Timestamp, b: Timestamp) -> bool {
    a.secs < b.secs || (a.secs == b.secs && a.nanos < b.nanos)
}

impl Timestamp {
    /// This instant shifted by `d`.
    pub fn plus(self, d: Duration) -> (r: Timestamp)
        requires
            i64::MIN <= self.secs + d.secs <= i64::MAX,
        ensures
            r == shifted(self, d.secs as int),
    {
        Timestamp { secs: self.secs + d.secs, nanos: self.nanos }
    }

    /// The current time.
    pub fn now() -> (t: Timestamp)
        ensures
            0 <= t.secs <= MAX_UTC_SECS,
            t.nanos < 1_000_000_000,
    {
        utc_now()
    }
}

/// `chrono::Utc::now`, as seconds and nanoseconds since the Unix epoch.
/// Trusted: the clock reading is not before the epoch (`Utc::now` panics
/// otherwise), is within `chrono`'s range, and its sub-second part is under
/// one second. Which instant it is, nothing states.
#[verifier::external_body]
fn utc_now() -> (t: Timestamp)
    ensures
        0 <= t.secs <= MAX_UTC_SECS,
        t.nanos < 1_000_000_000,
{
    let now = chrono::Utc::now();
    Timestamp { secs: now.timestamp(), nanos: now.timestamp_subsec_nanos() }
}

/// How often auto-sync should run.
#[derive(Clone, Copy, Debug, PartialEq, Eq, Structural)]
pub enum SyncSchedule {
    Daily,
    Weekly,
    /// Custom interval in hours.
    Custom { hours: u32 },
}

/// The interval of `s` in seconds.
pub open spec fn interval_secs(s: SyncSchedule) -> int {
    match s {
        SyncSchedule::Daily => 86400int,
        SyncSchedule::Weekly => 604800int,
        SyncSchedule::Custom { hours } => hours as int * 3600,
    }
}

impl SyncSchedule {
    /// The interval between two syncs.
    pub fn as_duration(&self) -> (d: Duration)
        ensures
            d.secs == interval_secs(*self),
            0 <= d.secs <= u32::MAX * 3600,
    {
        match self {
            SyncSchedule::Daily => Duration::hours(24),
            SyncSchedule::Weekly => Duration::hours(168),
            SyncSchedule::Custom { hours } => Duration::hours(*hours as i64),
        }
    }
}

/// Which Apple sources are enabled for auto-sync.
#[derive(Clone, Copy, Debug, PartialEq, Eq, Structural)]
pub struct EnabledSources {
    pub notes: bool,
    pub reminders: bool,
    pub photos: bool,
    pub calendar: bool,
    pub contacts: bool,
}

impl Default for EnabledSources {
    /// Every source but photos (which are expensive to export).
    fn default() -> (s: Self)
        ensures
            s == (EnabledSources {
                notes: true,
                reminders: true,
                photos: false,
                calendar: true,
                contacts: true,
            }),
    {
        EnabledSources { notes: true, reminders: true, photos: false, calendar: true, contacts: true }
    }
}

/// Top-level auto-sync configuration.
#[derive(Clone, Debug)]
pub struct AppleSyncConfig {
    /// Whether auto-sync is enabled.
    pub enabled: bool,
    /// The schedule for re-imports.
    pub schedule: SyncSchedule,
    /// Which Apple sources to include.
    pub sources: EnabledSources,
    /// Photo limit per sync (only applies when photos are enabled).
    pub photos_limit: usize,
    /// Timestamp of the last completed sync (None if never synced).
    pub last_sync: Option<Timestamp>,
    /// Computed next sync time (None if disabled or never scheduled).
    pub next_sync: Option<Timestamp>,
    /// Aggregated error message from the most recent sync attempt; cleared
    /// on any successful sync.
    pub last_error: Option<String>,
    /// Timestamp of the most recent failed sync attempt.
    pub last_error_at: Option<Timestamp>,
}

/// `c.schedule` shifts `t` without leaving the range of `i64`.
pub open spec fn shift_fits(c: AppleSyncConfig, t: Timestamp) -> bool {
    t.secs + interval_secs(c.schedule) <= i64::MAX
}

/// The next sync time of `c` when the interval is counted from `base`:
/// none while auto-sync is disabled.
pub open spec fn next_from(c: AppleSyncConfig, base: Timestamp) -> Option<Timestamp> {
    if c.enabled {
        Some(shifted(base, interval_secs(c.schedule)))
    } else {
        None
    }
}

/// `c` after a sync completed at `at`: `at` is the last sync, any error is
/// cleared, and the next sync is one interval after `at`.
pub open spec fn completed(c: AppleSyncConfig, at: Timestamp) -> AppleSyncConfig {
    AppleSyncConfig {
        last_sync: Some(at),
        next_sync: next_from(c, at),
        last_error: None,
        last_error_at: None,
        ..c
    }
}

/// `c` after a sync failed at `at` with `message`: the error is recorded,
/// the last successful sync is kept, and the next sync is one interval
/// after the failure.
pub open spec fn errored(c: AppleSyncConfig, at: Timestamp, message: String) -> AppleSyncConfig {
    AppleSyncConfig {
        last_error: Some(message),
        last_error_at: Some(at),
        next_sync: next_from(c, at),
        ..c
    }
}

impl Default for AppleSyncConfig {
    /// Disabled, daily, default sources, 50 photos, never synced.
    fn default() -> (c: Self)
        ensures
            !c.enabled,
            c.schedule == SyncSchedule::Daily,
            c.sources == (EnabledSources {
                notes: true,
                reminders: true,
                photos: false,
                calendar: true,
                contacts: true,
            }),
            c.photos_limit == 50,
            c.last_sync is None,
            c.next_sync is None,
            c.last_error is None,
            c.last_error_at is None,
    {
        AppleSyncConfig {
            enabled: false,
            schedule: SyncSchedule::Daily,
            sources: EnabledSources::default(),
            photos_limit: 50,
            last_sync: None,
            next_sync: None,
            last_error: None,
            last_error_at: None,
        }
    }
}

impl AppleSyncConfig {
    /// Recompute `next_sync` from `last_sync` and `schedule`; with no sync
    /// yet, the interval is counted from now. Disabled configs get none.
    pub fn recompute_next_sync(&mut self)
        requires
            old(self).last_sync matches Some(t) ==> shift_fits(*old(self), t),
        ensures
            final(self).next_sync is None <==> !old(self).enabled,
            old(self).last_sync matches Some(t) ==> *final(self) == (AppleSyncConfig {
                next_sync: next_from(*old(self), t),
                ..*old(self)
            }),
            old(self).last_sync is None ==> exists|n: Timestamp|
                0 <= n.secs <= MAX_UTC_SECS && *final(self) == (AppleSyncConfig {
                    next_sync: #[trigger] next_from(*old(self), n),
                    ..*old(self)
                }),
    {
        if !self.enabled {
            self.next_sync = None;
            assert(next_from(*old(self), Timestamp { secs: 0, nanos: 0 }) is None);
            return;
        }
        let base = match self.last_sync {
            Some(t) => t,
            None => Timestamp::now(),
        };
        let d = self.schedule.as_duration();
        self.next_sync = Some(base.plus(d));
        assert(self.next_sync == next_from(*old(self), base));
    }

    /// Mark a sync as completed at `at`, clear any prior error, and
    /// recompute `next_sync`.
    pub fn mark_sync_complete(&mut self, at: Timestamp)
        requires
            shift_fits(*old(self), at),
        ensures
            *final(self) == completed(*old(self), at),
    {
        self.last_sync = Some(at);
        self.last_error = None;
        self.last_error_at = None;
        self.recompute_next_sync();
    }

    /// Record a sync failure at `at`. `last_sync` is left alone, so a failed
    /// attempt does not mask the last successful sync, but `next_sync` is
    /// pushed one interval past the failure so a broken extractor is not
    /// retried in a hot loop.
    pub fn mark_sync_error(&mut self, at: Timestamp, message: String)
        requires
            shift_fits(*old(self), at),
        ensures
            *final(self) == errored(*old(self), at, message),
    {
        self.last_error = Some(message);
        self.last_error_at = Some(at);
        if self.enabled {
            let d = self.schedule.as_duration();
            self.next_sync = Some(at.plus(d));
        } else {
            self.next_sync = None;
        }
    }
}

/// One Apple source an auto-sync run can import.
#[derive(Clone, Copy, Debug, PartialEq, Eq, Structural)]
pub enum SyncSource {
    Notes,
    Reminders,
    Photos,
    Calendar,
    Contacts,
}

/// The enabled sources, in the order a sync run imports them: notes,
/// reminders, photos, calendar, contacts.
pub open spec fn sync_order(s: EnabledSources) -> Seq<SyncSource> {
    (if s.notes { seq![SyncSource::Notes] } else { seq![] })
        + (if s.reminders { seq![SyncSource::Reminders] } else { seq![] })
        + (if s.photos { seq![SyncSource::Photos] } else { seq![] })
        + (if s.calendar { seq![SyncSource::Calendar] } else { seq![] })
        + (if s.contacts { seq![SyncSource::Contacts] } else { seq![] })
}

/// The enabled sources in the order a sync run imports them.
pub fn sources_to_sync(s: &EnabledSources) -> (v: Vec<SyncSource>)
    ensures
        v@ == sync_order(*s),
{
    let mut v: Vec<SyncSource> = Vec::new();
    if s.notes {
        v.push(SyncSource::Notes);
    }
    if s.reminders {
        v.push(SyncSource::Reminders);
    }
    if s.photos {
        v.push(SyncSource::Photos);
    }
    if s.calendar {
        v.push(SyncSource::Calendar);
    }
    if s.contacts {
        v.push(SyncSource::Contacts);
    }
    proof {
        assert(v@ =~= sync_order(*s));
    }
    v
}

/// The label of a source in error messages.
pub open spec fn source_label(s: SyncSource) -> Seq<char> {
    match s {
        SyncSource::Notes => "notes"@,
        SyncSource::Reminders => "reminders"@,
        SyncSource::Photos => "photos"@,
        SyncSource::Calendar => "calendar"@,
        SyncSource::Contacts => "contacts"@,
    }
}

impl SyncSource {
    /// The label of this source in error messages.
    pub fn label(&self) -> (l: &'static str)
        ensures
            l@ == source_label(*self),
    {
        match self {
            SyncSource::Notes => "notes",
            SyncSource::Reminders => "reminders",
            SyncSource::Photos => "photos",
            SyncSource::Calendar => "calendar",
            SyncSource::Contacts => "contacts",
        }
    }
}

/// The message a sync run records for a source whose import failed with
/// `error`: the source's label, a colon and the error.
pub fn source_error(source: SyncSource, error: &str) -> (m: String)
    ensures
        m@ == source_label(source) + ": "@ + error@,
{
    let mut m = crate::text::owned(source.label());
    crate::text::push_str(&mut m, ": ");
    crate::text::push_str(&mut m, error);
    m
}

/// A successful sync after a failure clears the error: the indicator goes
/// green, and the next sync is one interval after the success.
pub proof fn law_complete_clears_error(
    c: AppleSyncConfig,
    failed_at: Timestamp,
    message: String,
    at: Timestamp,
)
    ensures
        completed(errored(c, failed_at, message), at).last_error is None,
        completed(errored(c, failed_at, message), at).last_error_at is None,
        completed(errored(c, failed_at, message), at).last_sync == Some(at),
        completed(errored(c, failed_at, message), at).next_sync == next_from(c, at),
{
}

/// A failed sync records its message and time, pushes the next sync one
/// interval past the failure (none when disabled), and never changes the
/// last successful sync, the schedule or the sources.
pub proof fn law_error_keeps_last_sync(c: AppleSyncConfig, at: Timestamp, message: String)
    ensures
        errored(c, at, message).last_error == Some(message),
        errored(c, at, message).last_error_at == Some(at),
        errored(c, at, message).next_sync == (if c.enabled {
            Some(shifted(at, interval_secs(c.schedule)))
        } else {
            None
        }),
        errored(c, at, message).last_sync == c.last_sync,
        errored(c, at, message).enabled == c.enabled,
        errored(c, at, message).schedule == c.schedule,
        errored(c, at, message).sources == c.sources,
        errored(c, at, message).photos_limit == c.photos_limit,
{
}

/// A disabled config never arms `next_sync`, whether a sync succeeds or
/// fails.
pub proof fn law_disabled_never_armed(c: AppleSyncConfig, at: Timestamp, message: String)
    requires
        !c.enabled,
    ensures
        completed(c, at).next_sync is None,
        errored(c, at, message).next_sync is None,
{
}

/// After a completion or a failure at `at` on an enabled config, the next
/// sync is exactly one schedule interval after `at`.
pub proof fn law_next_is_one_interval_later(c: AppleSyncConfig, at: Timestamp, message: String)
    requires
        c.enabled,
    ensures
        completed(c, at).next_sync == Some(shifted(at, interval_secs(c.schedule))),
        errored(c, at, message).next_sync == Some(shifted(at, interval_secs(c.schedule))),
{
}

/// Right after a completion at `at`, the scheduler does not fire again
/// before a whole interval has passed: every instant less than one
/// interval after `at` lies before the next sync. (With a custom interval
/// of zero hours the next sync is `at` itself, so there is no such instant.)
pub proof fn law_no_refire_within_interval(c: AppleSyncConfig, at: Timestamp, elapsed: int)
    requires
        c.enabled,
        shift_fits(c, at),
        0 <= elapsed < interval_secs(c.schedule),
    ensures
        completed(c, at).next_sync matches Some(next) && before(shifted(at, elapsed), next),
{
    assert(at.secs + elapsed <= i64::MAX);
    assert(at.secs + interval_secs(c.schedule) <= i64::MAX);
    assert(i64::MIN <= at.secs + elapsed);
}

} // verus!
