use vstd::prelude::*;

use crate::text::concat_str;

verus! {

/// The sections of the settings page.
#[derive(Clone, Copy, Debug, PartialEq, Eq, Structural)]
pub enum SettingsSection {
    General,
    SecurityPrivacy,
    Network,
    Sync,
}

impl SettingsSection {
    /// The translation key of the section's title.
    pub fn title_key(&self) -> (r: &'static str)
        ensures
            r@ == (match *self {
                SettingsSection::General => "setting-section-general"@,
                SettingsSection::SecurityPrivacy => "setting-section-security"@,
                SettingsSection::Network => "setting-section-network"@,
                SettingsSection::Sync => "setting-section-sync"@,
            }),
    {
        match self {
            SettingsSection::General => "setting-section-general",
            SettingsSection::SecurityPrivacy => "setting-section-security",
            SettingsSection::Network => "setting-section-network",
            SettingsSection::Sync => "setting-section-sync",
        }
    }

    /// The symbol in front of the section's title.
    pub fn icon(&self) -> (r: &'static str)
        ensures
            r@ == (match *self {
                SettingsSection::General => "\u{2699}"@,
                SettingsSection::SecurityPrivacy => "\u{1F6E1}"@,
                SettingsSection::Network => "\u{1F310}"@,
                SettingsSection::Sync => "\u{1F504}"@,
            }),
    {
        match self {
            SettingsSection::General => "\u{2699}",
            SettingsSection::SecurityPrivacy => "\u{1F6E1}",
            SettingsSection::Network => "\u{1F310}",
            SettingsSection::Sync => "\u{1F504}",
        }
    }
}

/// What the sync settings can select for backup.
#[derive(Clone, Copy, Debug, PartialEq, Eq, Structural)]
pub enum SyncItem {
    Session,
    Skills,
    Mcp,
    SkillsRegistry,
    GuiSettings,
    Archive,
    UserWorkspace,
    Memory,
    Config,
}

/// What a backup can hold.
#[derive(Clone, Copy, Debug, PartialEq, Eq, Structural)]
pub enum BackupItem {
    Session,
    Skills,
    SkillsRegistry,
    GuiSettings,
    Archive,
    UserWorkspace,
    Memory,
    Config,
}

/// The backup item of a sync selection; MCP settings are not backed up.
pub open spec fn backup_item_of(item: SyncItem) -> Option<BackupItem> {
    match item {
        SyncItem::Session => Some(BackupItem::Session),
        SyncItem::Skills => Some(BackupItem::Skills),
        SyncItem::Mcp => None,
        SyncItem::SkillsRegistry => Some(BackupItem::SkillsRegistry),
        SyncItem::GuiSettings => Some(BackupItem::GuiSettings),
        SyncItem::Archive => Some(BackupItem::Archive),
        SyncItem::UserWorkspace => Some(BackupItem::UserWorkspace),
        SyncItem::Memory => Some(BackupItem::Memory),
        SyncItem::Config => Some(BackupItem::Config),
    }
}

/// The backup item of a sync selection.
pub fn sync_item_to_backup_item(item: SyncItem) -> (r: Option<BackupItem>)
    ensures
        r == backup_item_of(item),
{
    match item {
        SyncItem::Session => Some(BackupItem::Session),
        SyncItem::Skills => Some(BackupItem::Skills),
        SyncItem::Mcp => None,
        SyncItem::SkillsRegistry => Some(BackupItem::SkillsRegistry),
        SyncItem::GuiSettings => Some(BackupItem::GuiSettings),
        SyncItem::Archive => Some(BackupItem::Archive),
        SyncItem::UserWorkspace => Some(BackupItem::UserWorkspace),
        SyncItem::Memory => Some(BackupItem::Memory),
        SyncItem::Config => Some(BackupItem::Config),
    }
}

/// The backup items of the selected sync items, in order, those without one left out.
pub open spec fn backup_items_of(items: Seq<SyncItem>) -> Seq<BackupItem>
    decreases items.len(),
{
    if items.len() == 0 {
        Seq::<BackupItem>::empty()
    } else {
        match backup_item_of(items.last()) {
            Some(b) => backup_items_of(items.drop_last()).push(b),
            None => backup_items_of(items.drop_last()),
        }
    }
}

/// The items a backup plan holds for the selected sync items.
pub fn backup_plan_items(items: &Vec<SyncItem>) -> (r: Vec<BackupItem>)
    ensures
        r@ == backup_items_of(items@),
{
    let mut out: Vec<BackupItem> = Vec::new();
    let mut i: usize = 0;
    assert(items@.take(0) =~= Seq::<SyncItem>::empty());
    while i < items.len()
        invariant
            i <= items@.len(),
            out@ == backup_items_of(items@.take(i as int)),
        decreases items@.len() - i,
    {
        assert(items@.take(i + 1).drop_last() =~= items@.take(i as int));
        assert(items@.take(i + 1).last() == items@[i as int]);
        if let Some(b) = sync_item_to_backup_item(items[i]) {
            out.push(b);
        }
        i = i + 1;
    }
    assert(items@.take(items@.len() as int) =~= items@);
    out
}

/// The translation key of an on/off state.
pub fn bool_status_key(enabled: bool) -> (r: &'static str)
    ensures
        r@ == (if enabled {
            "setting-enabled"@
        } else {
            "setting-disabled"@
        }),
{
    if enabled {
        "setting-enabled"
    } else {
        "setting-disabled"
    }
}

/// Whether the app may use location services, as the platform reports it.
#[derive(Clone, Copy, Debug, PartialEq, Eq, Structural)]
pub enum LocationAuthorizationState {
    NotDetermined,
    Restricted,
    Denied,
    AuthorizedAlways,
    AuthorizedWhenInUse,
    UnsupportedPlatform,
    Unknown(i32),
}

/// The location services state shown on the security page.
#[derive(Clone, Copy, Debug, PartialEq, Eq, Structural)]
pub struct LocationStatus {
    pub services_enabled: bool,
    pub authorization: LocationAuthorizationState,
}

impl LocationStatus {
    /// The translation key of the authorization state.
    pub fn authorization_key(self) -> (r: &'static str)
        ensures
            r@ == (match self.authorization {
                LocationAuthorizationState::NotDetermined => "setting-auth-not-determined"@,
                LocationAuthorizationState::Restricted => "setting-auth-restricted"@,
                LocationAuthorizationState::Denied => "setting-auth-denied"@,
                LocationAuthorizationState::AuthorizedAlways => "setting-auth-authorized-always"@,
                LocationAuthorizationState::AuthorizedWhenInUse => "setting-auth-authorized-when-in-use"@,
                LocationAuthorizationState::UnsupportedPlatform => "setting-auth-unsupported-platform"@,
                LocationAuthorizationState::Unknown(_) => "setting-auth-unknown"@,
            }),
    {
        match self.authorization {
            LocationAuthorizationState::NotDetermined => "setting-auth-not-determined",
            LocationAuthorizationState::Restricted => "setting-auth-restricted",
            LocationAuthorizationState::Denied => "setting-auth-denied",
            LocationAuthorizationState::AuthorizedAlways => "setting-auth-authorized-always",
            LocationAuthorizationState::AuthorizedWhenInUse => "setting-auth-authorized-when-in-use",
            LocationAuthorizationState::UnsupportedPlatform => "setting-auth-unsupported-platform",
            LocationAuthorizationState::Unknown(_) => "setting-auth-unknown",
        }
    }

    /// The translation key of the explanation under the state, when there is one: none
    /// for an authorized app while services are on.
    pub fn detail_key(self) -> (r: Option<&'static str>)
        ensures
            match self.authorization {
                LocationAuthorizationState::NotDetermined => r is Some && r->0@
                    == "setting-auth-detail-not-determined"@,
                LocationAuthorizationState::Restricted => r is Some && r->0@
                    == "setting-auth-detail-restricted"@,
                LocationAuthorizationState::Denied => r is Some && r->0@ == "setting-auth-detail-denied"@,
                LocationAuthorizationState::AuthorizedAlways
                | LocationAuthorizationState::AuthorizedWhenInUse => if self.services_enabled {
                    r is None
                } else {
                    r is Some && r->0@ == "setting-auth-detail-auth-but-services-off"@
                },
                LocationAuthorizationState::UnsupportedPlatform => r is Some && r->0@
                    == "setting-auth-detail-unsupported-platform"@,
                LocationAuthorizationState::Unknown(_) => r is Some && r->0@
                    == "setting-auth-detail-unknown"@,
            },
    {
        match self.authorization {
            LocationAuthorizationState::NotDetermined => Some("setting-auth-detail-not-determined"),
            LocationAuthorizationState::Restricted => Some("setting-auth-detail-restricted"),
            LocationAuthorizationState::Denied => Some("setting-auth-detail-denied"),
            LocationAuthorizationState::AuthorizedAlways
            | LocationAuthorizationState::AuthorizedWhenInUse => {
                if self.services_enabled {
                    None
                } else {
                    Some("setting-auth-detail-auth-but-services-off")
                }
            },
            LocationAuthorizationState::UnsupportedPlatform => Some(
                "setting-auth-detail-unsupported-platform",
            ),
            LocationAuthorizationState::Unknown(_) => Some("setting-auth-detail-unknown"),
        }
    }
}

// ---------------------------------------------------------------------------
// Notices named by translation key
// ---------------------------------------------------------------------------

/// How a notice is shown.
#[derive(Clone, Copy, Debug, PartialEq, Eq, Structural)]
pub enum NoticeLevel {
    Success,
    Info,
    Warning,
    Error,
}

/// A notice of the settings page: its level, the translation key of its message (none
/// when `arg` is the whole message), and the value the message names, if any.
#[derive(Debug)]
pub struct KeyedNotice {
    pub level: NoticeLevel,
    pub key: Option<&'static str>,
    pub arg: Option<String>,
}

/// Whether `n` is the notice of level `level` with message key `key` naming `arg`.
pub open spec fn notice_is(n: KeyedNotice, level: NoticeLevel, key: Option<Seq<char>>, arg: Option<Seq<char>>) -> bool {
    &&& n.level == level
    &&& match (n.key, key) {
        (Some(a), Some(b)) => a@ == b,
        (None, None) => true,
        _ => false,
    }
    &&& crate::tool::opt_view(n.arg) == arg
}

// ---------------------------------------------------------------------------
// Launching at startup
// ---------------------------------------------------------------------------

/// Where a change of the launch-at-startup choice stands.
#[derive(Debug)]
pub enum LaunchState {
    /// The system is told the new choice.
    Applying,
    /// The settings are saved.
    Saving,
    /// Saving failed with `save_error`; the system is told the old choice again.
    RollingBack { save_error: String },
    Finished,
}

/// What the page does next for a launch-at-startup change.
#[derive(Debug)]
pub enum LaunchAction {
    /// Tell the system whether to launch the app at login.
    ApplyAutostart(bool),
    SaveSettings,
    Notify(KeyedNotice),
    Nothing,
}

/// A change of the launch-at-startup choice from `previous` to `desired`: the system
/// is told first, then the settings are saved; on any failure the choice shown goes back
/// to `previous`.
#[derive(Debug)]
pub struct LaunchChange {
    pub desired: bool,
    pub previous: bool,
    pub state: LaunchState,
    /// The choice the page shows.
    pub setting: bool,
    /// The error the page shows under the settings.
    pub save_error: Option<String>,
}

/// The text of a save error followed by a failed restore of the login item.
pub open spec fn rollback_failure_text(save_error: Seq<char>, rollback_error: Seq<char>) -> Seq<char> {
    save_error + "; also failed to restore the previous macOS login item state: "@ + rollback_error
}

impl LaunchChange {
    /// Starts a change; nothing happens when the choice did not change.
    pub fn begin(desired: bool, previous: bool, save_error: Option<String>) -> (r: (LaunchChange, LaunchAction))
        ensures
            r.0.desired == desired && r.0.previous == previous && r.0.setting == desired,
            r.0.save_error == save_error,
            desired == previous ==> r.0.state is Finished && r.1 is Nothing,
            desired != previous ==> r.0.state is Applying && r.1 == LaunchAction::ApplyAutostart(desired),
    {
        if desired == previous {
            (LaunchChange { desired, previous, state: LaunchState::Finished, setting: desired, save_error }, LaunchAction::Nothing)
        } else {
            (
                LaunchChange { desired, previous, state: LaunchState::Applying, setting: desired, save_error },
                LaunchAction::ApplyAutostart(desired),
            )
        }
    }

    /// Takes in the result of the last action and gives the next one.
    pub fn on_result(&mut self, result: Result<(), String>) -> (a: LaunchAction)
        ensures
            final(self).desired == old(self).desired,
            final(self).previous == old(self).previous,
            match old(self).state {
                LaunchState::Applying => match result {
                    Ok(_) => final(self).state is Saving && a is SaveSettings && final(self).setting
                        == old(self).setting && final(self).save_error == old(self).save_error,
                    Err(e) => {
                        &&& final(self).state is Finished
                        &&& final(self).setting == old(self).previous
                        &&& final(self).save_error == Some(e)
                        &&& a matches LaunchAction::Notify(n) && notice_is(
                            n,
                            NoticeLevel::Error,
                            Some("setting-notify-launch-update-failed"@),
                            Some(e@),
                        )
                    },
                },
                LaunchState::Saving => match result {
                    Ok(_) => {
                        &&& final(self).state is Finished
                        &&& final(self).setting == old(self).setting
                        &&& final(self).save_error is None
                        &&& a matches LaunchAction::Notify(n) && notice_is(
                            n,
                            NoticeLevel::Success,
                            Some(
                                if old(self).desired {
                                    "setting-notify-launch-enabled"@
                                } else {
                                    "setting-notify-launch-disabled"@
                                },
                            ),
                            None,
                        )
                    },
                    Err(e) => {
                        &&& final(self).state matches LaunchState::RollingBack { save_error } && save_error
                            == e
                        &&& final(self).setting == old(self).previous
                        &&& final(self).save_error == Some(e)
                        &&& a == LaunchAction::ApplyAutostart(old(self).previous)
                    },
                },
                LaunchState::RollingBack { save_error } => {
                    &&& final(self).state is Finished
                    &&& final(self).setting == old(self).setting
                    &&& match result {
                        Ok(_) => {
                            &&& final(self).save_error == old(self).save_error
                            &&& a matches LaunchAction::Notify(n) && notice_is(
                                n,
                                NoticeLevel::Error,
                                Some("setting-notify-launch-save-failed"@),
                                Some(save_error@),
                            )
                        },
                        Err(rb) => {
                            &&& crate::tool::opt_view(final(self).save_error) == Some(
                                rollback_failure_text(save_error@, rb@),
                            )
                            &&& a matches LaunchAction::Notify(n) && notice_is(
                                n,
                                NoticeLevel::Error,
                                Some("setting-notify-launch-save-and-rollback-failed"@),
                                Some(rollback_failure_text(save_error@, rb@)),
                            )
                        },
                    }
                },
                LaunchState::Finished => a is Nothing && *final(self) == *old(self),
            },
    {
        let mut state = LaunchState::Finished;
        std::mem::swap(&mut state, &mut self.state);
        match state {
            LaunchState::Applying => match result {
                Ok(()) => {
                    self.state = LaunchState::Saving;
                    LaunchAction::SaveSettings
                },
                Err(e) => {
                    self.setting = self.previous;
                    self.save_error = Some(e.clone());
                    LaunchAction::Notify(
                        KeyedNotice {
                            level: NoticeLevel::Error,
                            key: Some("setting-notify-launch-update-failed"),
                            arg: Some(e),
                        },
                    )
                },
            },
            LaunchState::Saving => match result {
                Ok(()) => {
                    self.save_error = None;
                    let key = if self.desired {
                        "setting-notify-launch-enabled"
                    } else {
                        "setting-notify-launch-disabled"
                    };
                    LaunchAction::Notify(KeyedNotice { level: NoticeLevel::Success, key: Some(key), arg: None })
                },
                Err(e) => {
                    self.setting = self.previous;
                    self.save_error = Some(e.clone());
                    self.state = LaunchState::RollingBack { save_error: e };
                    LaunchAction::ApplyAutostart(self.previous)
                },
            },
            LaunchState::RollingBack { save_error } => match result {
                Ok(()) => LaunchAction::Notify(
                    KeyedNotice {
                        level: NoticeLevel::Error,
                        key: Some("setting-notify-launch-save-failed"),
                        arg: Some(save_error),
                    },
                ),
                Err(rb) => {
                    let head = concat_str(
                        save_error.as_str(),
                        "; also failed to restore the previous macOS login item state: ",
                    );
                    let message = concat_str(head.as_str(), rb.as_str());
                    self.save_error = Some(message.clone());
                    LaunchAction::Notify(
                        KeyedNotice {
                            level: NoticeLevel::Error,
                            key: Some("setting-notify-launch-save-and-rollback-failed"),
                            arg: Some(message),
                        },
                    )
                },
            },
            LaunchState::Finished => LaunchAction::Nothing,
        }
    }
}

// ---------------------------------------------------------------------------
// Background sync tasks
// ---------------------------------------------------------------------------

/// What a finished sync task reports; `L` is the list of remote snapshots.
#[derive(Debug)]
pub enum SyncTaskMessage<L> {
    BackupDone { manifest_id: String, created_at: i64 },
    ListDone { snapshots: L },
    RestoreDone { manifest_id: String },
    CleanupDone,
    Failed(String),
}

/// The last snapshot the settings remember.
#[derive(Debug)]
pub struct SyncRecord {
    pub last_manifest_id: Option<String>,
    pub last_sync_at: Option<i64>,
}

/// What the page does with a sync task's report: show `notice`; publish `snapshots` as
/// the remote list; and when `backup` holds the new snapshot, publish it and save the
/// settings.
#[derive(Debug)]
pub struct SyncTaskEffect<L> {
    pub notice: KeyedNotice,
    pub snapshots: Option<L>,
    pub backup: Option<(String, i64)>,
}

/// Takes in a sync task's report: a finished backup becomes the last snapshot the
/// settings remember.
pub fn apply_sync_message<L>(record: &mut SyncRecord, message: SyncTaskMessage<L>) -> (r: SyncTaskEffect<L>)
    ensures
        match message {
            SyncTaskMessage::BackupDone { manifest_id, created_at } => {
                &&& crate::tool::opt_view(final(record).last_manifest_id) == Some(manifest_id@)
                &&& final(record).last_sync_at == Some(created_at)
                &&& r.backup matches Some((id, at)) && id@ == manifest_id@ && at == created_at
                &&& r.snapshots is None
                &&& notice_is(r.notice, NoticeLevel::Success, Some("setting-notify-sync-backup-done"@), Some(manifest_id@))
            },
            SyncTaskMessage::ListDone { snapshots } => {
                &&& *final(record) == *old(record)
                &&& r.backup is None
                &&& r.snapshots == Some(snapshots)
                &&& notice_is(r.notice, NoticeLevel::Success, Some("setting-notify-sync-list-done"@), None)
            },
            SyncTaskMessage::RestoreDone { manifest_id } => {
                &&& *final(record) == *old(record)
                &&& r.backup is None && r.snapshots is None
                &&& notice_is(r.notice, NoticeLevel::Warning, Some("setting-notify-sync-restore-done"@), Some(manifest_id@))
            },
            SyncTaskMessage::CleanupDone => {
                &&& *final(record) == *old(record)
                &&& r.backup is None && r.snapshots is None
                &&& notice_is(r.notice, NoticeLevel::Success, Some("setting-notify-sync-cleanup-done"@), None)
            },
            SyncTaskMessage::Failed(e) => {
                &&& *final(record) == *old(record)
                &&& r.backup is None && r.snapshots is None
                &&& notice_is(r.notice, NoticeLevel::Error, None, Some(e@))
            },
        },
{
    match message {
        SyncTaskMessage::BackupDone { manifest_id, created_at } => {
            record.last_manifest_id = Some(manifest_id.clone());
            record.last_sync_at = Some(created_at);
            SyncTaskEffect {
                notice: KeyedNotice {
                    level: NoticeLevel::Success,
                    key: Some("setting-notify-sync-backup-done"),
                    arg: Some(manifest_id.clone()),
                },
                snapshots: None,
                backup: Some((manifest_id, created_at)),
            }
        },
        SyncTaskMessage::ListDone { snapshots } => SyncTaskEffect {
            notice: KeyedNotice { level: NoticeLevel::Success, key: Some("setting-notify-sync-list-done"), arg: None },
            snapshots: Some(snapshots),
            backup: None,
        },
        SyncTaskMessage::RestoreDone { manifest_id } => SyncTaskEffect {
            notice: KeyedNotice {
                level: NoticeLevel::Warning,
                key: Some("setting-notify-sync-restore-done"),
                arg: Some(manifest_id),
            },
            snapshots: None,
            backup: None,
        },
        SyncTaskMessage::CleanupDone => SyncTaskEffect {
            notice: KeyedNotice { level: NoticeLevel::Success, key: Some("setting-notify-sync-cleanup-done"), arg: None },
            snapshots: None,
            backup: None,
        },
        SyncTaskMessage::Failed(e) => SyncTaskEffect {
            notice: KeyedNotice { level: NoticeLevel::Error, key: None, arg: Some(e) },
            snapshots: None,
            backup: None,
        },
    }
}

/// Takes the runtime's record of the last snapshot into the settings, where it knows one.
pub fn refresh_settings_from_runtime(record: &mut SyncRecord, runtime_manifest_id: Option<String>, runtime_sync_at: Option<i64>)
    ensures
        final(record).last_manifest_id == (match runtime_manifest_id {
            Some(id) => Some(id),
            None => old(record).last_manifest_id,
        }),
        final(record).last_sync_at == (match runtime_sync_at {
            Some(t) => Some(t),
            None => old(record).last_sync_at,
        }),
{
    if let Some(id) = runtime_manifest_id {
        record.last_manifest_id = Some(id);
    }
    if runtime_sync_at.is_some() {
        record.last_sync_at = runtime_sync_at;
    }
}

/// The stages of a backup, as the backup service reports them.
#[derive(Clone, Copy, Debug, PartialEq, Eq, Structural)]
pub enum BackupProgressStage {
    ReconcilingRemote,
    PreparingManifest,
    UploadingBlobs,
    UploadingManifest,
    UpdatingLatestPointer,
    CleaningUpRemote,
    Completed,
}

/// The translation key of a backup stage.
pub fn backup_stage_key(stage: BackupProgressStage) -> (r: &'static str)
    ensures
        r@ == (match stage {
            BackupProgressStage::ReconcilingRemote => "setting-sync-stage-reconciling"@,
            BackupProgressStage::PreparingManifest => "setting-sync-stage-preparing"@,
            BackupProgressStage::UploadingBlobs => "setting-sync-stage-uploading-blobs"@,
            BackupProgressStage::UploadingManifest => "setting-sync-stage-uploading-manifest"@,
            BackupProgressStage::UpdatingLatestPointer => "setting-sync-stage-updating-pointer"@,
            BackupProgressStage::CleaningUpRemote => "setting-sync-stage-cleaning-up"@,
            BackupProgressStage::Completed => "setting-sync-stage-completed"@,
        }),
{
    match stage {
        BackupProgressStage::ReconcilingRemote => "setting-sync-stage-reconciling",
        BackupProgressStage::PreparingManifest => "setting-sync-stage-preparing",
        BackupProgressStage::UploadingBlobs => "setting-sync-stage-uploading-blobs",
        BackupProgressStage::UploadingManifest => "setting-sync-stage-uploading-manifest",
        BackupProgressStage::UpdatingLatestPointer => "setting-sync-stage-updating-pointer",
        BackupProgressStage::CleaningUpRemote => "setting-sync-stage-cleaning-up",
        BackupProgressStage::Completed => "setting-sync-stage-completed",
    }
}

// ---------------------------------------------------------------------------
// The sync section's controls
// ---------------------------------------------------------------------------

/// The number a count field of the sync settings sets: the field read as a `u32`, at
/// least 1; the current number stays when the field does not read as one.
pub fn sync_count_from_field(field: &str, current: u32) -> (r: u32)
    ensures
        match crate::numbers::parse_unsigned(field@, u32::MAX as nat) {
            Some(n) => r as nat == if n < 1 {
                1
            } else {
                n
            },
            None => r == current,
        },
{
    match crate::numbers::parse_u32_chars(&crate::text::to_chars(field)) {
        Some(n) => if n < 1 {
            1
        } else {
            n
        },
        None => current,
    }
}

/// Ticks (`checked`) or unticks an item of the backup scope: a ticked item that is not
/// selected is added at the end, an unticked one loses its first selection. True when
/// the selection changed.
pub fn toggle_backup_item(items: &mut Vec<SyncItem>, item: SyncItem, checked: bool) -> (changed: bool)
    ensures
        ({
            let present = exists|i: int| 0 <= i < old(items)@.len() && old(items)@[i] == item;
            &&& changed == (checked != present)
            &&& checked && !present ==> final(items)@ == old(items)@.push(item)
            &&& !checked && present ==> exists|i: int|
                0 <= i < old(items)@.len() && old(items)@[i] == item && (forall|j: int|
                    0 <= j < i ==> old(items)@[j] != item) && final(items)@ == old(items)@.remove(i)
            &&& !changed ==> final(items)@ == old(items)@
        }),
{
    let mut index: Option<usize> = None;
    let mut k: usize = 0;
    while k < items.len()
        invariant
            k <= items@.len(),
            items@ == old(items)@,
            index is None ==> forall|j: int| 0 <= j < k ==> items@[j] != item,
            index matches Some(i) ==> i < items@.len() && items@[i as int] == item && forall|j: int|
                0 <= j < i ==> items@[j] != item,
        decreases items@.len() - k,
    {
        if index.is_none() && items[k] == item {
            index = Some(k);
        }
        k = k + 1;
    }
    match index {
        None => {
            if checked {
                items.push(item);
                true
            } else {
                false
            }
        },
        Some(i) => {
            if !checked {
                items.remove(i);
                true
            } else {
                false
            }
        },
    }
}

/// Which sync actions the page offers.
#[derive(Clone, Copy, Debug, PartialEq, Eq, Structural)]
pub struct SyncActions {
    pub run_backup: bool,
    pub refresh_remote: bool,
    pub run_cleanup: bool,
    pub restore: bool,
    pub confirm_restore: bool,
    pub show_progress_hint: bool,
}

/// The sync actions offered: backup and cleanup need sync on, no task running and valid
/// settings; refreshing the remote list and restoring need no task running and valid
/// settings; confirming a restore needs no task running.
pub fn sync_actions(enabled: bool, busy: bool, settings_valid: bool) -> (r: SyncActions)
    ensures
        r.run_backup == (enabled && !busy && settings_valid),
        r.refresh_remote == (!busy && settings_valid),
        r.run_cleanup == (enabled && !busy && settings_valid),
        r.restore == (!busy && settings_valid),
        r.confirm_restore == !busy,
        r.show_progress_hint == (enabled && settings_valid),
{
    SyncActions {
        run_backup: enabled && !busy && settings_valid,
        refresh_remote: !busy && settings_valid,
        run_cleanup: enabled && !busy && settings_valid,
        restore: !busy && settings_valid,
        confirm_restore: !busy,
        show_progress_hint: enabled && settings_valid,
    }
}

/// The notice when sync is switched on or off.
pub fn sync_toggle_notice(enabled: bool) -> (n: KeyedNotice)
    ensures
        enabled ==> notice_is(n, NoticeLevel::Success, Some("setting-notify-sync-enabled"@), None),
        !enabled ==> notice_is(n, NoticeLevel::Info, Some("setting-notify-sync-disabled"@), None),
{
    if enabled {
        KeyedNotice { level: NoticeLevel::Success, key: Some("setting-notify-sync-enabled"), arg: None }
    } else {
        KeyedNotice { level: NoticeLevel::Info, key: Some("setting-notify-sync-disabled"), arg: None }
    }
}

} // verus!
