use klaw_gui::session::{
    date_end_ms, date_start_ms, offset_to_ms, CalendarDate, SessionPanel, SessionSortOrder,
};

fn date(year: i32, month: u32, day: u32) -> CalendarDate {
    CalendarDate { year, month, day }
}

fn panel() -> SessionPanel {
    SessionPanel::new(date(2026, 5, 7), date(2025, 5, 7))
}

#[test]
fn cleanup_query_requires_date_and_channel() {
    let mut p = panel();
    p.cleanup_updated_before = None;
    assert!(p.cleanup_query().is_none());

    let mut p = panel();
    p.cleanup_updated_before = Some(date(2026, 5, 7));
    p.cleanup_cron = false;
    p.cleanup_webhook = false;
    assert!(p.cleanup_query().is_none());
}

#[test]
fn cleanup_query_uses_selected_cleanup_channels() {
    let mut p = panel();
    p.cleanup_updated_before = Some(date(2026, 5, 7));
    p.cleanup_cron = true;
    p.cleanup_webhook = false;

    let query = p
        .cleanup_query()
        .expect("selected date and channel should build query");

    assert_eq!(query.channels, vec!["cron".to_string()]);
    assert_eq!(
        query.updated_before_ms,
        date_start_ms(p.cleanup_updated_before.expect("date should exist")).expect("date should convert")
    );
}

#[test]
fn day_boundaries_are_utc_milliseconds() {
    assert_eq!(date_start_ms(date(1970, 1, 1)), Some(0));
    assert_eq!(date_end_ms(date(1970, 1, 1)), Some(86_399_999));
    assert_eq!(date_start_ms(date(2026, 5, 7)), Some(1_778_112_000_000));
    assert_eq!(date_start_ms(date(1969, 12, 31)), Some(-86_400_000));
    assert_eq!(date_start_ms(date(2025, 2, 29)), None);
    assert_eq!(date_start_ms(date(2025, 13, 1)), None);
    assert_eq!(offset_to_ms(-1_500_000), -1);
    assert_eq!(offset_to_ms(1_999_999), 1);
    assert_eq!(offset_to_ms(i128::MIN), (i128::MIN / 1_000_000) as i64);
}

#[test]
fn list_query_pages_from_one_and_filters_by_dates() {
    let mut p = panel();
    p.page = 3;
    p.size = 20;
    p.channel_filter = Some("telegram".to_string());
    let q = p.list_query();
    assert_eq!(q.limit, Some(20));
    assert_eq!(q.offset, 40);
    assert_eq!(q.updated_from_ms, date_start_ms(date(2025, 5, 7)));
    assert_eq!(q.updated_to_ms, date_end_ms(date(2026, 5, 7)));
    assert_eq!(q.channel.as_deref(), Some("telegram"));
    assert_eq!(q.sort_order, SessionSortOrder::UpdatedAtDesc);
    p.page = 0;
    p.size = -5;
    let q = p.list_query();
    assert_eq!(q.limit, Some(1));
    assert_eq!(q.offset, 0);
}

#[test]
fn sort_order_toggles_and_labels() {
    let mut p = panel();
    assert_eq!(p.updated_at_label(), "Updated At ↓");
    p.toggle_sort_order();
    assert_eq!(p.sort_order, SessionSortOrder::UpdatedAtAsc);
    assert_eq!(p.updated_at_label(), "Updated At ↑");
    p.toggle_sort_order();
    assert_eq!(p.sort_order, SessionSortOrder::UpdatedAtDesc);
    p.sort_order = SessionSortOrder::CreatedAtDesc;
    assert_eq!(p.updated_at_label(), "Created At ↓");
    p.toggle_sort_order();
    assert_eq!(p.sort_order, SessionSortOrder::UpdatedAtAsc);
    assert_eq!(p.cleanup_channels(), vec!["cron".to_string(), "webhook".to_string()]);
}

use klaw_gui::panels::Notice;
use klaw_gui::session::{CleanupEvent, CleanupRefusal, SessionCleanupSummary};

#[test]
fn begin_clean_sessions_starts_once() {
    let mut p = panel();
    let query = p.begin_clean_sessions().expect("complete dialog");
    assert_eq!(query.channels, vec!["cron".to_string(), "webhook".to_string()]);
    assert!(p.cleanup_running);
    match p.begin_clean_sessions() {
        Err(CleanupRefusal::AlreadyRunning(m)) => {
            assert_eq!(m, "Session cleanup is already in progress.")
        }
        other => panic!("unexpected: {other:?}"),
    }
}

#[test]
fn begin_clean_sessions_needs_a_channel() {
    let mut p = panel();
    p.cleanup_cron = false;
    p.cleanup_webhook = false;
    match p.begin_clean_sessions() {
        Err(CleanupRefusal::Incomplete(m)) => {
            assert_eq!(m, "Select an Updated At date and at least one session type.")
        }
        other => panic!("unexpected: {other:?}"),
    }
    assert!(!p.cleanup_running);
}

#[test]
fn finish_cleanup_reports_counts_and_failures() {
    let mut p = panel();
    assert!(p.finish_cleanup(CleanupEvent::Disconnected).is_none());

    p.begin_clean_sessions().expect("starts");
    let outcome = p
        .finish_cleanup(CleanupEvent::Completed(Ok(SessionCleanupSummary {
            session_records_deleted: 12,
            jsonl_files_deleted: 10,
            jsonl_files_missing: 2,
        })))
        .expect("a cleanup was running");
    assert!(outcome.refresh);
    match outcome.notice {
        Notice::Success(m) => assert_eq!(
            m,
            "Cleaned 12 sessions and deleted 10 JSONL files (2 already missing)."
        ),
        other => panic!("unexpected: {other:?}"),
    }
    assert!(!p.cleanup_running);

    p.begin_clean_sessions().expect("starts again");
    let outcome = p
        .finish_cleanup(CleanupEvent::Completed(Err("database locked".to_string())))
        .expect("running");
    assert!(!outcome.refresh);
    match outcome.notice {
        Notice::Error(m) => assert_eq!(m, "Failed to clean sessions: database locked"),
        other => panic!("unexpected: {other:?}"),
    }

    p.begin_clean_sessions().expect("starts again");
    match p.finish_cleanup(CleanupEvent::Disconnected).expect("running").notice {
        Notice::Error(m) => assert_eq!(
            m,
            "Failed to clean sessions: cleanup task stopped unexpectedly"
        ),
        other => panic!("unexpected: {other:?}"),
    }
}

#[test]
fn cleanup_dialog_and_channel_filter() {
    let mut p = panel();
    p.cleanup_updated_before = None;
    p.open_cleanup_dialog(date(2026, 6, 1));
    assert!(p.cleanup_open);
    assert_eq!(p.cleanup_updated_before, Some(date(2026, 6, 1)));
    p.open_cleanup_dialog(date(2026, 7, 1));
    assert_eq!(p.cleanup_updated_before, Some(date(2026, 6, 1)));

    p.page = 4;
    assert!(!p.set_channel_filter(None));
    assert_eq!(p.page, 4);
    assert!(p.set_channel_filter(Some("cron".to_string())));
    assert_eq!(p.page, 1);
    assert_eq!(p.channel_filter.as_deref(), Some("cron"));
    p.page = 3;
    assert!(!p.set_channel_filter(Some("cron".to_string())));
    assert_eq!(p.page, 3);
}

#[test]
fn row_clicks_toggle_the_selected_session() {
    let mut p = panel();
    p.toggle_selection("dm:1");
    assert_eq!(p.selected_session.as_deref(), Some("dm:1"));
    p.toggle_selection("dm:2");
    assert_eq!(p.selected_session.as_deref(), Some("dm:2"));
    p.toggle_selection("dm:2");
    assert_eq!(p.selected_session, None);
}
