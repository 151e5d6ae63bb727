use klaw_gui::numbers::format_host_duration;
use klaw_gui::setting::{
    backup_plan_items, bool_status_key, sync_item_to_backup_item, BackupItem,
    LocationAuthorizationState, LocationStatus, SettingsSection, SyncItem,
};
use klaw_gui::system::{
    host_optional_text, host_optional_text_with_na, usage_text, DirKind, SystemPanel,
    SystemView, UsageText,
};

fn slices(panel: &SystemPanel) -> Vec<(String, f32)> {
    panel
        .disk_usage_chart_entries()
        .into_iter()
        .map(|(kind, bytes)| (kind.title().to_string(), bytes as f32))
        .collect()
}

#[test]
fn disk_usage_pie_slices_filter_missing_and_zero_usage() {
    let mut panel = SystemPanel::new();
    panel.dirs[SystemPanel::dir_index(DirKind::Tmp)].usage_bytes = Some(0);
    panel.dirs[SystemPanel::dir_index(DirKind::Workspace)].usage_bytes = Some(128);
    panel.dirs[SystemPanel::dir_index(DirKind::Sessions)].usage_bytes = None;
    panel.dirs[SystemPanel::dir_index(DirKind::Logs)].usage_bytes = Some(256);

    let slices = slices(&panel);

    assert_eq!(slices.len(), 2);
    assert_eq!(slices[0].0, "Workspace");
    assert_eq!(slices[0].1, 128.0);
    assert_eq!(slices[1].0, "Logs");
    assert_eq!(slices[1].1, 256.0);
}

#[test]
fn disk_usage_pie_slices_keep_directory_display_order() {
    let mut panel = SystemPanel::new();
    panel.dirs[SystemPanel::dir_index(DirKind::Models)].usage_bytes = Some(1);
    panel.dirs[SystemPanel::dir_index(DirKind::Tmp)].usage_bytes = Some(2);
    panel.dirs[SystemPanel::dir_index(DirKind::Archives)].usage_bytes = Some(3);

    let labels = slices(&panel).into_iter().map(|s| s.0).collect::<Vec<_>>();

    assert_eq!(labels, vec!["Temporary", "Archives", "Models"]);
}

#[test]
fn disk_usage_chart_total_bytes_counts_only_positive_usage() {
    let mut panel = SystemPanel::new();
    panel.dirs[SystemPanel::dir_index(DirKind::Tmp)].usage_bytes = Some(0);
    panel.dirs[SystemPanel::dir_index(DirKind::Workspace)].usage_bytes = Some(10);
    panel.dirs[SystemPanel::dir_index(DirKind::Sessions)].usage_bytes = None;
    panel.dirs[SystemPanel::dir_index(DirKind::Archives)].usage_bytes = Some(20);

    assert_eq!(panel.disk_usage_chart_total_bytes(), 30);
}

#[test]
fn disk_usage_total_saturates() {
    let mut panel = SystemPanel::new();
    panel.dirs[0].usage_bytes = Some(u64::MAX - 1);
    panel.dirs[7].usage_bytes = Some(5);
    assert_eq!(panel.disk_usage_chart_total_bytes(), u64::MAX);
    assert!(!panel.any_loading());
    panel.dirs[3].clear_pending = true;
    assert!(panel.any_loading());
    assert!(panel.get_dir(DirKind::Archives).is_loading());
}

#[test]
fn directory_and_view_names() {
    assert_eq!(DirKind::SkillsRegistry.dir_name(), "skills-registry");
    assert_eq!(DirKind::SkillsRegistry.title(), "Skills Registry");
    assert_eq!(DirKind::Tmp.title_key(), "system-dir-tmp");
    assert_eq!(SystemView::ProgramDiskUsage.tab_id(), "program-disk-usage");
    assert_eq!(SystemView::Environment.title_key(), "system-view-environment");
    assert_eq!(SystemView::all()[0], SystemView::HostInformation);
}

#[test]
fn usage_line_prefers_progress_then_size_then_error() {
    assert_eq!(usage_text(true, Some(3), Some("e")), UsageText::Calculating);
    assert_eq!(usage_text(false, Some(3), Some("e")), UsageText::Usage(3));
    assert_eq!(
        usage_text(false, None, Some("e")),
        UsageText::UnavailableError("e".to_string())
    );
    assert_eq!(usage_text(false, None, None), UsageText::Unavailable);
}

#[test]
fn host_values_and_durations_read_as_expected() {
    assert_eq!(host_optional_text(None), "N/A");
    assert_eq!(host_optional_text(Some("x".to_string())), "x");
    assert_eq!(host_optional_text_with_na(None, "-"), "-");
    assert_eq!(format_host_duration(59), "00h 00m 59s");
    assert_eq!(format_host_duration(3_661), "01h 01m 01s");
    assert_eq!(format_host_duration(90_061), "1d 01h 01m 01s");
}

#[test]
fn settings_sections_and_backup_items() {
    assert_eq!(SettingsSection::General.icon(), "\u{2699}");
    assert_eq!(SettingsSection::SecurityPrivacy.icon(), "\u{1F6E1}");
    assert_eq!(SettingsSection::Network.icon(), "\u{1F310}");
    assert_eq!(SettingsSection::Sync.icon(), "\u{1F504}");
    assert_eq!(SettingsSection::Sync.title_key(), "setting-section-sync");
    assert_eq!(sync_item_to_backup_item(SyncItem::Mcp), None);
    assert_eq!(sync_item_to_backup_item(SyncItem::Config), Some(BackupItem::Config));
    assert_eq!(
        backup_plan_items(&vec![SyncItem::Session, SyncItem::Mcp, SyncItem::Memory]),
        vec![BackupItem::Session, BackupItem::Memory]
    );
    assert_eq!(bool_status_key(true), "setting-enabled");
    assert_eq!(bool_status_key(false), "setting-disabled");
    let status = LocationStatus {
        services_enabled: false,
        authorization: LocationAuthorizationState::AuthorizedAlways,
    };
    assert_eq!(status.authorization_key(), "setting-auth-authorized-always");
    assert_eq!(status.detail_key(), Some("setting-auth-detail-auth-but-services-off"));
    let status = LocationStatus { services_enabled: true, ..status };
    assert_eq!(status.detail_key(), None);
    let status = LocationStatus {
        services_enabled: false,
        authorization: LocationAuthorizationState::UnsupportedPlatform,
    };
    assert_eq!(status.detail_key(), Some("setting-auth-detail-unsupported-platform"));
}

use klaw_gui::system::{pick_disk, DirState, DiskCandidate, EnvCheckLoader};

#[test]
fn dir_usage_and_clear_round() {
    let mut d = DirState::new();
    assert!(d.needs_initial_usage());
    d.begin_usage();
    assert!(!d.needs_initial_usage() && d.is_loading());
    assert!(d.finish_usage(Ok(2048)).is_none());
    assert_eq!(d.usage_bytes, Some(2048));

    d.begin_clear();
    let out = d.finish_clear(Ok(()));
    assert!(out.refresh);
    let n = out.notice.expect("reported");
    assert!(n.success && n.key == "system-notify-dir-cleared" && n.error.is_none());
    assert_eq!(d.usage_bytes, Some(0));
    assert!(d.usage_pending && !d.clear_pending);

    let n = d.finish_usage(Err("permission denied".to_string())).expect("reported");
    assert!(!n.success && n.key == "system-notify-failed-collect-usage");
    assert_eq!(n.error.as_deref(), Some("permission denied"));
    assert_eq!(d.usage_bytes, None);
    assert_eq!(d.usage_error.as_deref(), Some("permission denied"));

    d.begin_clear();
    let out = d.finish_clear(Err("busy".to_string()));
    assert!(!out.refresh);
    let n = out.notice.expect("reported");
    assert!(!n.success && n.key == "system-notify-failed-clear-dir");
    assert!(d.finish_clear(Ok(())).notice.is_none());
}

#[test]
fn env_check_runs_once() {
    let mut l: EnvCheckLoader<&str> = EnvCheckLoader::new();
    assert!(l.load_env_check(None));
    assert!(!l.load_env_check(None));
    assert!(!l.load_env_check(Some(Err("no runtime".to_string()))));
    assert!(l.loaded && l.report.is_none());
    assert!(!l.load_env_check(None));

    let mut l: EnvCheckLoader<&str> = EnvCheckLoader::new();
    assert!(l.load_env_check(None));
    assert!(!l.load_env_check(Some(Ok("ok"))));
    assert_eq!(l.report, Some("ok"));
}

#[test]
fn pick_disk_prefers_longest_then_last_mount() {
    let d = |holds_path: bool, mount_len: usize| DiskCandidate { holds_path, mount_len };
    assert_eq!(pick_disk(&vec![]), None);
    assert_eq!(pick_disk(&vec![d(false, 5)]), None);
    assert_eq!(pick_disk(&vec![d(true, 1), d(true, 5), d(false, 9), d(true, 3)]), Some(1));
    assert_eq!(pick_disk(&vec![d(true, 5), d(true, 5)]), Some(1));
}

use klaw_gui::setting::{
    apply_sync_message, backup_stage_key, refresh_settings_from_runtime, BackupProgressStage,
    KeyedNotice, LaunchAction, LaunchChange, LaunchState, NoticeLevel, SyncRecord,
    SyncTaskMessage,
};

fn notice_of(a: LaunchAction) -> KeyedNotice {
    match a {
        LaunchAction::Notify(n) => n,
        other => panic!("expected a notice, got {other:?}"),
    }
}

#[test]
fn launch_change_success_keeps_new_choice() {
    let (mut c, a) = LaunchChange::begin(true, false, Some("old".to_string()));
    assert!(matches!(a, LaunchAction::ApplyAutostart(true)));
    assert!(matches!(c.on_result(Ok(())), LaunchAction::SaveSettings));
    let n = notice_of(c.on_result(Ok(())));
    assert_eq!(n.level, NoticeLevel::Success);
    assert_eq!(n.key, Some("setting-notify-launch-enabled"));
    assert!(c.setting && c.save_error.is_none());
    assert!(matches!(c.state, LaunchState::Finished));
    assert!(matches!(c.on_result(Ok(())), LaunchAction::Nothing));
}

#[test]
fn launch_change_failures_restore_previous_choice() {
    let (_, a) = LaunchChange::begin(false, false, None);
    assert!(matches!(a, LaunchAction::Nothing));

    let (mut c, _) = LaunchChange::begin(true, false, None);
    let n = notice_of(c.on_result(Err("denied".to_string())));
    assert_eq!(n.level, NoticeLevel::Error);
    assert_eq!(n.key, Some("setting-notify-launch-update-failed"));
    assert_eq!(n.arg.as_deref(), Some("denied"));
    assert!(!c.setting);

    let (mut c, _) = LaunchChange::begin(false, true, None);
    c.on_result(Ok(()));
    assert!(matches!(c.on_result(Err("disk full".to_string())), LaunchAction::ApplyAutostart(true)));
    assert!(c.setting);
    let n = notice_of(c.on_result(Ok(())));
    assert_eq!(n.key, Some("setting-notify-launch-save-failed"));
    assert_eq!(n.arg.as_deref(), Some("disk full"));

    let (mut c, _) = LaunchChange::begin(false, true, None);
    c.on_result(Ok(()));
    c.on_result(Err("disk full".to_string()));
    let n = notice_of(c.on_result(Err("locked".to_string())));
    assert_eq!(n.key, Some("setting-notify-launch-save-and-rollback-failed"));
    let expected = "disk full; also failed to restore the previous macOS login item state: locked";
    assert_eq!(n.arg.as_deref(), Some(expected));
    assert_eq!(c.save_error.as_deref(), Some(expected));
    assert!(c.setting);
}

#[test]
fn sync_messages_update_record_and_notify() {
    let mut record = SyncRecord { last_manifest_id: None, last_sync_at: None };
    let e = apply_sync_message::<Vec<u32>>(
        &mut record,
        SyncTaskMessage::BackupDone { manifest_id: "m-7".to_string(), created_at: 1700 },
    );
    assert_eq!(record.last_manifest_id.as_deref(), Some("m-7"));
    assert_eq!(record.last_sync_at, Some(1700));
    assert_eq!(e.backup, Some(("m-7".to_string(), 1700)));
    assert_eq!(e.notice.key, Some("setting-notify-sync-backup-done"));
    assert_eq!(e.notice.arg.as_deref(), Some("m-7"));

    let e = apply_sync_message(&mut record, SyncTaskMessage::ListDone { snapshots: vec![1u32, 2] });
    assert_eq!(e.snapshots, Some(vec![1, 2]));
    assert_eq!(e.notice.key, Some("setting-notify-sync-list-done"));

    let e = apply_sync_message::<Vec<u32>>(
        &mut record,
        SyncTaskMessage::RestoreDone { manifest_id: "m-3".to_string() },
    );
    assert_eq!(e.notice.level, NoticeLevel::Warning);

    let e = apply_sync_message::<Vec<u32>>(&mut record, SyncTaskMessage::Failed("offline".to_string()));
    assert_eq!(e.notice.level, NoticeLevel::Error);
    assert_eq!(e.notice.key, None);
    assert_eq!(e.notice.arg.as_deref(), Some("offline"));
    assert_eq!(record.last_manifest_id.as_deref(), Some("m-7"));
}

#[test]
fn runtime_record_and_stage_keys() {
    let mut record = SyncRecord { last_manifest_id: Some("a".to_string()), last_sync_at: Some(1) };
    refresh_settings_from_runtime(&mut record, None, Some(5));
    assert_eq!(record.last_manifest_id.as_deref(), Some("a"));
    assert_eq!(record.last_sync_at, Some(5));
    refresh_settings_from_runtime(&mut record, Some("b".to_string()), None);
    assert_eq!(record.last_manifest_id.as_deref(), Some("b"));
    assert_eq!(record.last_sync_at, Some(5));
    assert_eq!(backup_stage_key(BackupProgressStage::UploadingBlobs), "setting-sync-stage-uploading-blobs");
    assert_eq!(backup_stage_key(BackupProgressStage::Completed), "setting-sync-stage-completed");
}

use klaw_gui::setting::{sync_actions, sync_count_from_field, sync_toggle_notice, toggle_backup_item};

#[test]
fn sync_count_fields_read_at_least_one() {
    assert_eq!(sync_count_from_field("30", 5), 30);
    assert_eq!(sync_count_from_field("0", 5), 1);
    assert_eq!(sync_count_from_field(" 7", 5), 5);
    assert_eq!(sync_count_from_field("abc", 5), 5);
    assert_eq!(sync_count_from_field("4294967296", 5), 5);
}

#[test]
fn backup_scope_ticks_add_and_remove() {
    let mut items = vec![SyncItem::Session, SyncItem::Skills];
    assert!(toggle_backup_item(&mut items, SyncItem::Memory, true));
    assert_eq!(items, vec![SyncItem::Session, SyncItem::Skills, SyncItem::Memory]);
    assert!(!toggle_backup_item(&mut items, SyncItem::Memory, true));
    assert!(toggle_backup_item(&mut items, SyncItem::Session, false));
    assert_eq!(items, vec![SyncItem::Skills, SyncItem::Memory]);
    assert!(!toggle_backup_item(&mut items, SyncItem::Config, false));
    assert_eq!(items.len(), 2);
}

#[test]
fn sync_actions_follow_state() {
    let a = sync_actions(true, false, true);
    assert!(a.run_backup && a.refresh_remote && a.run_cleanup && a.restore && a.show_progress_hint);
    let a = sync_actions(false, false, true);
    assert!(!a.run_backup && a.refresh_remote && !a.run_cleanup && !a.show_progress_hint);
    let a = sync_actions(true, true, true);
    assert!(!a.run_backup && !a.refresh_remote && !a.restore && !a.confirm_restore);
    let a = sync_actions(true, false, false);
    assert!(!a.run_backup && !a.restore && a.confirm_restore);
    assert_eq!(sync_toggle_notice(true).key, Some("setting-notify-sync-enabled"));
    assert_eq!(sync_toggle_notice(false).level, NoticeLevel::Info);
}
