use vstd::prelude::*;

use crate::panels::Notice;
use crate::numbers;
use crate::text::concat_str;

verus! {

/// A calendar date as the date pickers give it.
#[derive(Clone, Copy, Debug, PartialEq, Eq, Structural)]
pub struct CalendarDate {
    pub year: i32,
    pub month: u32,
    pub day: u32,
}

/// What `time` makes of a UTC date and time of day: the nanoseconds since the Unix epoch
/// when `Month::try_from`, `Date::from_calendar_date` and `Time::from_hms_milli` accept
/// the parts, nothing otherwise.
pub uninterp spec fn utc_nanos(
    year: int,
    month: int,
    day: int,
    hour: int,
    minute: int,
    second: int,
    milli: int,
) -> Option<i128>;

/// Calls `time::Date::from_calendar_date` (after `Month::try_from` on the month number),
/// `time::Time::from_hms_milli`, then `PrimitiveDateTime::assume_utc` and
/// `OffsetDateTime::unix_timestamp_nanos`. The contract only names the result: it is
/// fixed by the arguments.
#[verifier::external_body]
fn utc_unix_nanos(year: i32, month: u8, day: u8, hour: u8, minute: u8, second: u8, milli: u16) -> (r:
    Option<i128>)
    ensures
        r == utc_nanos(
            year as int,
            month as int,
            day as int,
            hour as int,
            minute as int,
            second as int,
            milli as int,
        ),
{
    let month = time::Month::try_from(month).ok()?;
    let date = time::Date::from_calendar_date(year, month, day).ok()?;
    let clock = time::Time::from_hms_milli(hour, minute, second, milli).ok()?;
    Some(time::PrimitiveDateTime::new(date, clock).assume_utc().unix_timestamp_nanos())
}

/// `n` divided by a million, rounded toward zero as integer division does.
pub open spec fn nanos_to_millis(n: int) -> int {
    if n >= 0 {
        n / 1_000_000
    } else {
        -((-n) / 1_000_000)
    }
}

/// Milliseconds from nanoseconds, rounded toward zero, as `i64`.
pub fn offset_to_ms(nanos: i128) -> (ms: i64)
    ensures
        ms == nanos_to_millis(nanos as int) as i64,
{
    if nanos >= 0 {
        (nanos / 1_000_000) as i64
    } else {
        let magnitude: i128 = if nanos == i128::MIN {
            assert(-(nanos as int) / 1_000_000 < i128::MAX);
            (-(nanos + 1_000_000)) / 1_000_000 + 1
        } else {
            (-nanos) / 1_000_000
        };
        proof {
            if nanos == i128::MIN {
                assert((-(nanos as int + 1_000_000)) / 1_000_000 + 1 == (-(nanos as int)) / 1_000_000)
                    by (nonlinear_arith);
            }
        }
        (-magnitude) as i64
    }
}

/// The UTC instant in milliseconds of `date` at the given time of day.
pub open spec fn date_boundary(date: CalendarDate, hour: int, minute: int, second: int, milli: int) -> Option<
    i64,
> {
    match utc_nanos(
        date.year as int,
        (date.month as u8) as int,
        (date.day as u8) as int,
        hour,
        minute,
        second,
        milli,
    ) {
        Some(n) => Some(nanos_to_millis(n as int) as i64),
        None => None,
    }
}

/// The UTC instant in milliseconds of `date` at the given time of day, when `time`
/// accepts the date and time.
pub fn date_boundary_ms(date: CalendarDate, hour: u8, minute: u8, second: u8, milli: u16) -> (r:
    Option<i64>)
    ensures
        r == date_boundary(date, hour as int, minute as int, second as int, milli as int),
{
    match utc_unix_nanos(date.year, date.month as u8, date.day as u8, hour, minute, second, milli) {
        Some(n) => Some(offset_to_ms(n)),
        None => None,
    }
}

/// The first millisecond of `date` in UTC.
pub fn date_start_ms(date: CalendarDate) -> (r: Option<i64>)
    ensures
        r == date_boundary(date, 0, 0, 0, 0),
{
    date_boundary_ms(date, 0, 0, 0, 0)
}

/// The last millisecond of `date` in UTC.
pub fn date_end_ms(date: CalendarDate) -> (r: Option<i64>)
    ensures
        r == date_boundary(date, 23, 59, 59, 999),
{
    date_boundary_ms(date, 23, 59, 59, 999)
}

/// The order of the session list.
#[derive(Clone, Copy, Debug, PartialEq, Eq, Structural)]
pub enum SessionSortOrder {
    UpdatedAtAsc,
    UpdatedAtDesc,
    CreatedAtDesc,
}

/// The query that lists one page of sessions.
#[derive(Debug)]
pub struct SessionListQuery {
    pub limit: Option<i64>,
    pub offset: i64,
    pub updated_from_ms: Option<i64>,
    pub updated_to_ms: Option<i64>,
    pub channel: Option<String>,
    pub session_key_prefix: Option<String>,
    pub sort_order: SessionSortOrder,
}

/// The query that removes old sessions of some channels.
#[derive(Debug)]
pub struct SessionCleanupQuery {
    pub updated_before_ms: i64,
    pub channels: Vec<String>,
}

/// The state of the session page that its queries are made from.
#[derive(Debug)]
pub struct SessionPanel {
    pub loaded: bool,
    pub total_count: i64,
    pub channels: Vec<String>,
    pub start_date: Option<CalendarDate>,
    pub end_date: Option<CalendarDate>,
    pub channel_filter: Option<String>,
    pub sort_order: SessionSortOrder,
    pub page: i64,
    pub size: i64,
    pub selected_session: Option<String>,
    pub cleanup_open: bool,
    pub cleanup_updated_before: Option<CalendarDate>,
    pub cleanup_cron: bool,
    pub cleanup_webhook: bool,
    /// Whether a cleanup is running in the background.
    pub cleanup_running: bool,
}

/// The larger of `a` and 1.
pub open spec fn at_least_one(a: i64) -> int {
    if a < 1 {
        1
    } else {
        a as int
    }
}

/// The range filter of a date that may be missing.
pub open spec fn opt_boundary(d: Option<CalendarDate>, end: bool) -> Option<i64> {
    match d {
        Some(date) => if end {
            date_boundary(date, 23, 59, 59, 999)
        } else {
            date_boundary(date, 0, 0, 0, 0)
        },
        None => None,
    }
}

/// Whether the cleanup dialog holds what a cleanup needs: a day `time` accepts and at
/// least one channel.
pub open spec fn cleanup_possible(p: SessionPanel) -> bool {
    opt_boundary(p.cleanup_updated_before, false) is Some && cleanup_channel_names(
        p.cleanup_cron,
        p.cleanup_webhook,
    ).len() > 0
}

/// Why a session cleanup does not start, with the message to show.
#[derive(Debug)]
pub enum CleanupRefusal {
    /// A cleanup runs already (for information).
    AlreadyRunning(String),
    /// The day or the channels are missing (an error).
    Incomplete(String),
}

/// What a finished cleanup reports.
#[derive(Clone, Copy, Debug)]
pub struct SessionCleanupSummary {
    pub session_records_deleted: u64,
    pub jsonl_files_deleted: u64,
    pub jsonl_files_missing: u64,
}

/// How a background cleanup ended.
#[derive(Debug)]
pub enum CleanupEvent {
    Completed(Result<SessionCleanupSummary, String>),
    /// The task stopped without a word.
    Disconnected,
}

/// What the page does once a cleanup ended: show `notice`, and load the list again when
/// `refresh`.
#[derive(Debug)]
pub struct CleanupOutcome {
    pub notice: Notice,
    pub refresh: bool,
}

/// The message of a finished cleanup.
pub open spec fn cleanup_done_text(s: SessionCleanupSummary) -> Seq<char> {
    "Cleaned "@ + numbers::decimal_digits(s.session_records_deleted as nat) + " sessions and deleted "@
        + numbers::decimal_digits(s.jsonl_files_deleted as nat) + " JSONL files ("@
        + numbers::decimal_digits(s.jsonl_files_missing as nat) + " already missing)."@
}

/// The channels a cleanup removes, in this order: `cron`, then `webhook`, as selected.
pub open spec fn cleanup_channel_names(cron: bool, webhook: bool) -> Seq<Seq<char>> {
    (if cron {
        seq!["cron"@]
    } else {
        Seq::<Seq<char>>::empty()
    }) + (if webhook {
        seq!["webhook"@]
    } else {
        Seq::<Seq<char>>::empty()
    })
}

impl SessionPanel {
    /// The page on its first opening: the last year up to `today`, newest first, page 1 of
    /// 100, and a cleanup of both channels up to `today`.
    pub fn new(today: CalendarDate, one_year_ago: CalendarDate) -> (p: Self)
        ensures
            !p.loaded,
            p.total_count == 0,
            p.channels@.len() == 0,
            p.start_date == Some(one_year_ago),
            p.end_date == Some(today),
            p.channel_filter is None,
            p.sort_order == SessionSortOrder::UpdatedAtDesc,
            p.page == 1,
            p.size == 100,
            p.selected_session is None,
            !p.cleanup_open,
            p.cleanup_updated_before == Some(today),
            p.cleanup_cron,
            p.cleanup_webhook,
            !p.cleanup_running,
    {
        SessionPanel {
            loaded: false,
            total_count: 0,
            channels: Vec::new(),
            start_date: Some(one_year_ago),
            end_date: Some(today),
            channel_filter: None,
            sort_order: SessionSortOrder::UpdatedAtDesc,
            page: 1,
            size: 100,
            selected_session: None,
            cleanup_open: false,
            cleanup_updated_before: Some(today),
            cleanup_cron: true,
            cleanup_webhook: true,
            cleanup_running: false,
        }
    }

    /// The query for the current page: at least one row per page, pages counted from 1.
    pub fn list_query(&self) -> (q: SessionListQuery)
        requires
            (at_least_one(self.page) - 1) * at_least_one(self.size) <= i64::MAX,
        ensures
            q.limit == Some(at_least_one(self.size) as i64),
            q.offset as int == (at_least_one(self.page) - 1) * at_least_one(self.size),
            q.updated_from_ms == opt_boundary(self.start_date, false),
            q.updated_to_ms == opt_boundary(self.end_date, true),
            q.channel == self.channel_filter,
            q.session_key_prefix is None,
            q.sort_order == self.sort_order,
    {
        let size: i64 = if self.size < 1 {
            1
        } else {
            self.size
        };
        let page: i64 = if self.page < 1 {
            1
        } else {
            self.page
        };
        let offset: i64 = (page - 1) * size;
        let updated_from_ms = match self.start_date {
            Some(d) => date_start_ms(d),
            None => None,
        };
        let updated_to_ms = match self.end_date {
            Some(d) => date_end_ms(d),
            None => None,
        };
        let channel = match &self.channel_filter {
            Some(c) => Some(c.clone()),
            None => None,
        };
        SessionListQuery {
            limit: Some(size),
            offset,
            updated_from_ms,
            updated_to_ms,
            channel,
            session_key_prefix: None,
            sort_order: self.sort_order,
        }
    }

    /// Flips between oldest and newest update first; the creation order turns into
    /// oldest update first.
    pub fn toggle_sort_order(&mut self)
        ensures
            final(self).sort_order == (match old(self).sort_order {
                SessionSortOrder::UpdatedAtAsc => SessionSortOrder::UpdatedAtDesc,
                _ => SessionSortOrder::UpdatedAtAsc,
            }),
            final(self).page == old(self).page,
            final(self).size == old(self).size,
            final(self).start_date == old(self).start_date,
            final(self).end_date == old(self).end_date,
    {
        self.sort_order = match self.sort_order {
            SessionSortOrder::UpdatedAtAsc => SessionSortOrder::UpdatedAtDesc,
            SessionSortOrder::UpdatedAtDesc => SessionSortOrder::UpdatedAtAsc,
            SessionSortOrder::CreatedAtDesc => SessionSortOrder::UpdatedAtAsc,
        };
    }

    /// The header of the time column, with the direction of the order.
    pub fn updated_at_label(&self) -> (r: &'static str)
        ensures
            r@ == (match self.sort_order {
                SessionSortOrder::UpdatedAtAsc => "Updated At ↑"@,
                SessionSortOrder::UpdatedAtDesc => "Updated At ↓"@,
                SessionSortOrder::CreatedAtDesc => "Created At ↓"@,
            }),
    {
        match self.sort_order {
            SessionSortOrder::UpdatedAtAsc => "Updated At ↑",
            SessionSortOrder::UpdatedAtDesc => "Updated At ↓",
            SessionSortOrder::CreatedAtDesc => "Created At ↓",
        }
    }

    /// The channels selected for cleanup.
    pub fn cleanup_channels(&self) -> (r: Vec<String>)
        ensures
            crate::text::string_views(r@) == cleanup_channel_names(
                self.cleanup_cron,
                self.cleanup_webhook,
            ),
    {
        let mut channels: Vec<String> = Vec::new();
        if self.cleanup_cron {
            channels.push("cron".to_owned());
        }
        if self.cleanup_webhook {
            channels.push("webhook".to_owned());
        }
        assert(crate::text::string_views(channels@) =~= cleanup_channel_names(
            self.cleanup_cron,
            self.cleanup_webhook,
        ));
        channels
    }

    /// The cleanup to run: sessions of the selected channels last updated before the
    /// chosen day; nothing without a day `time` accepts or without a channel.
    pub fn cleanup_query(&self) -> (q: Option<SessionCleanupQuery>)
        ensures
            match q {
                None => opt_boundary(self.cleanup_updated_before, false) is None
                    || cleanup_channel_names(self.cleanup_cron, self.cleanup_webhook).len() == 0,
                Some(c) => {
                    &&& opt_boundary(self.cleanup_updated_before, false) == Some(c.updated_before_ms)
                    &&& crate::text::string_views(c.channels@) == cleanup_channel_names(
                        self.cleanup_cron,
                        self.cleanup_webhook,
                    )
                    &&& c.channels@.len() > 0
                },
            },
    {
        let updated_before_ms = match self.cleanup_updated_before {
            Some(d) => match date_start_ms(d) {
                Some(ms) => ms,
                None => {
                    return None;
                },
            },
            None => {
                return None;
            },
        };
        let channels = self.cleanup_channels();
        if channels.len() == 0 {
            return None;
        }
        Some(SessionCleanupQuery { updated_before_ms, channels })
    }

    /// Opens the cleanup dialog; its day is `today` when none is chosen yet.
    pub fn open_cleanup_dialog(&mut self, today: CalendarDate)
        ensures
            final(self).cleanup_open,
            final(self).cleanup_updated_before == (match old(self).cleanup_updated_before {
                Some(d) => Some(d),
                None => Some(today),
            }),
            final(self).cleanup_cron == old(self).cleanup_cron,
            final(self).cleanup_webhook == old(self).cleanup_webhook,
            final(self).cleanup_running == old(self).cleanup_running,
    {
        if self.cleanup_updated_before.is_none() {
            self.cleanup_updated_before = Some(today);
        }
        self.cleanup_open = true;
    }

    /// Chooses the channel the list shows (`None` for all); a new choice goes back to the
    /// first page. True when the list has to be loaded again.
    pub fn set_channel_filter(&mut self, channel: Option<String>) -> (changed: bool)
        ensures
            changed == (crate::tool::opt_view(channel) != crate::tool::opt_view(old(self).channel_filter)),
            crate::tool::opt_view(final(self).channel_filter) == crate::tool::opt_view(channel),
            changed ==> final(self).page == 1,
            !changed ==> final(self).page == old(self).page,
            final(self).size == old(self).size,
            final(self).sort_order == old(self).sort_order,
    {
        let same = match (&self.channel_filter, &channel) {
            (Some(a), Some(b)) => crate::text::str_eq(a.as_str(), b.as_str()),
            (None, None) => true,
            _ => false,
        };
        self.channel_filter = channel;
        if !same {
            self.page = 1;
        }
        !same
    }

    /// A click on the row of session `key`: selects it, or clears the selection when it
    /// was selected.
    pub fn toggle_selection(&mut self, key: &str)
        ensures
            crate::tool::opt_view(final(self).selected_session) == crate::panels::selection_after_click(
                crate::tool::opt_view(old(self).selected_session),
                key@,
            ),
            final(self).page == old(self).page,
            final(self).channel_filter == old(self).channel_filter,
    {
        crate::panels::toggle_selected(&mut self.selected_session, key);
    }

    /// Starts a cleanup: gives its query, unless one runs already or the dialog lacks the
    /// day or the channels.
    pub fn begin_clean_sessions(&mut self) -> (r: Result<SessionCleanupQuery, CleanupRefusal>)
        ensures
            match r {
                Err(CleanupRefusal::AlreadyRunning(m)) => old(self).cleanup_running && m@
                    == "Session cleanup is already in progress."@,
                Err(CleanupRefusal::Incomplete(m)) => !old(self).cleanup_running && !cleanup_possible(
                    *old(self),
                ) && m@ == "Select an Updated At date and at least one session type."@,
                Ok(c) => {
                    &&& !old(self).cleanup_running
                    &&& cleanup_possible(*old(self))
                    &&& opt_boundary(old(self).cleanup_updated_before, false) == Some(c.updated_before_ms)
                    &&& crate::text::string_views(c.channels@) == cleanup_channel_names(
                        old(self).cleanup_cron,
                        old(self).cleanup_webhook,
                    )
                },
            },
            final(self).cleanup_running == (old(self).cleanup_running || r is Ok),
            final(self).cleanup_updated_before == old(self).cleanup_updated_before,
            final(self).cleanup_cron == old(self).cleanup_cron,
            final(self).cleanup_webhook == old(self).cleanup_webhook,
            final(self).loaded == old(self).loaded,
    {
        if self.cleanup_running {
            return Err(CleanupRefusal::AlreadyRunning("Session cleanup is already in progress.".to_string()));
        }
        match self.cleanup_query() {
            Some(q) => {
                self.cleanup_running = true;
                Ok(q)
            },
            None => Err(
                CleanupRefusal::Incomplete(
                    "Select an Updated At date and at least one session type.".to_string(),
                ),
            ),
        }
    }

    /// Takes in how the running cleanup ended: the notice to show, and whether the list has
    /// to be loaded again. Nothing when no cleanup runs.
    pub fn finish_cleanup(&mut self, event: CleanupEvent) -> (r: Option<CleanupOutcome>)
        ensures
            !old(self).cleanup_running ==> r is None && final(self).cleanup_running == old(
                self,
            ).cleanup_running,
            old(self).cleanup_running ==> r is Some && !final(self).cleanup_running && match event {
                CleanupEvent::Completed(Ok(summary)) => r->0.refresh && r->0.notice is Success
                    && r->0.notice->Success_0@ == cleanup_done_text(summary),
                CleanupEvent::Completed(Err(e)) => !r->0.refresh && r->0.notice is Error
                    && r->0.notice->Error_0@ == "Failed to clean sessions: "@ + e@,
                CleanupEvent::Disconnected => !r->0.refresh && r->0.notice is Error
                    && r->0.notice->Error_0@
                    == "Failed to clean sessions: cleanup task stopped unexpectedly"@,
            },
            final(self).loaded == old(self).loaded,
            final(self).cleanup_open == old(self).cleanup_open,
    {
        if !self.cleanup_running {
            return None;
        }
        self.cleanup_running = false;
        match event {
            CleanupEvent::Completed(Ok(summary)) => {
                let a = concat_str("Cleaned ", numbers::u64_to_string(summary.session_records_deleted).as_str());
                let b = concat_str(a.as_str(), " sessions and deleted ");
                let c = concat_str(b.as_str(), numbers::u64_to_string(summary.jsonl_files_deleted).as_str());
                let d = concat_str(c.as_str(), " JSONL files (");
                let e = concat_str(d.as_str(), numbers::u64_to_string(summary.jsonl_files_missing).as_str());
                let msg = concat_str(e.as_str(), " already missing).");
                Some(CleanupOutcome { notice: Notice::Success(msg), refresh: true })
            },
            CleanupEvent::Completed(Err(err)) => {
                let msg = concat_str("Failed to clean sessions: ", err.as_str());
                Some(CleanupOutcome { notice: Notice::Error(msg), refresh: false })
            },
            CleanupEvent::Disconnected => {
                let msg = "Failed to clean sessions: cleanup task stopped unexpectedly".to_string();
                Some(CleanupOutcome { notice: Notice::Error(msg), refresh: false })
            },
        }
    }
}

} // verus!
