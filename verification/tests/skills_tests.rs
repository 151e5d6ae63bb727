use klaw_gui::keyed::KeyedMap;
use klaw_gui::markdown::SkillSourceKind;
use klaw_gui::skills::{
    add_skill_to_config, check_local_skill_file, format_uninstall_result, local_skill_name,
    parse_skill_name_from_markdown, registry_skill_selector, remove_skill_from_config,
    skill_stale_status, source_label, validate_local_skill_name, FormMode,
    RegistrySkillSummary, SkillSummary, SkillUninstallResult, SkillsRegistryConfig,
    SkillsRegistryForm, SkillsRegistryPanel, StaleStatus, SyncRefusal,
};

fn registry(address: &str, installed: &[&str]) -> SkillsRegistryConfig {
    SkillsRegistryConfig {
        address: address.to_string(),
        installed: installed.iter().map(|s| s.to_string()).collect(),
    }
}

fn two_registries() -> KeyedMap<SkillsRegistryConfig> {
    let mut registries = KeyedMap::new();
    registries.insert(
        "private".to_string(),
        registry("https://example.com/private.git", &["demo", "plan"]),
    );
    registries.insert(
        "public".to_string(),
        registry("https://example.com/public.git", &["demo"]),
    );
    registries
}

#[test]
fn parse_skill_name_from_markdown_accepts_heading_and_name_field() {
    assert_eq!(
        parse_skill_name_from_markdown("# local_test\n\nbody"),
        Some("local_test".to_string())
    );
    assert_eq!(
        parse_skill_name_from_markdown("name: helper_skill\n\n# title"),
        Some("helper_skill".to_string())
    );
}

#[test]
fn skill_manage_remove_skill_from_config_updates_matching_registry_only() {
    let (next, changed) = remove_skill_from_config(two_registries(), "private", "demo");
    assert!(changed);
    assert_eq!(next.get("private").unwrap().installed, vec!["plan"]);
    assert_eq!(next.get("public").unwrap().installed, vec!["demo"]);
}

#[test]
fn skill_manage_add_skill_to_config_appends_and_sorts() {
    let mut registries = KeyedMap::new();
    registries.insert(
        "private".to_string(),
        registry("https://example.com/private.git", &["zeta"]),
    );
    let (next, changed) = add_skill_to_config(registries, "private", "alpha");
    assert!(changed);
    assert_eq!(next.get("private").unwrap().installed, vec!["alpha", "zeta"]);
}

#[test]
fn skills_manager_remove_skill_from_config_updates_matching_registry_only() {
    let (next, changed) = remove_skill_from_config(two_registries(), "private", "demo");
    assert!(changed);
    assert_eq!(next.get("private").unwrap().installed, vec!["plan"]);
    assert_eq!(next.get("public").unwrap().installed, vec!["demo"]);
}

#[test]
fn skills_manager_add_skill_to_config_appends_and_sorts() {
    let mut registries = KeyedMap::new();
    registries.insert(
        "private".to_string(),
        registry("https://example.com/private.git", &["zeta"]),
    );
    let (next, changed) = add_skill_to_config(registries, "private", "alpha");
    assert!(changed);
    assert_eq!(next.get("private").unwrap().installed, vec!["alpha", "zeta"]);
}

#[test]
fn skill_config_edits_leave_missing_registries_and_known_skills_alone() {
    let (next, changed) = add_skill_to_config(two_registries(), "missing", "alpha");
    assert!(!changed);
    assert_eq!(next.len(), 2);
    let (next, changed) = add_skill_to_config(next, "private", "plan");
    assert!(!changed);
    assert_eq!(next.get("private").unwrap().installed, vec!["demo", "plan"]);
    let (next, changed) = remove_skill_from_config(next, "public", "absent");
    assert!(!changed);
    assert_eq!(next.get("public").unwrap().installed, vec!["demo"]);
    let mut unsorted = KeyedMap::new();
    unsorted.insert("r".to_string(), registry("a", &["m", "b", "b"]));
    let (next, changed) = add_skill_to_config(unsorted, "r", "c");
    assert!(changed);
    assert_eq!(next.get("r").unwrap().installed, vec!["b", "b", "c", "m"]);
    let (next, changed) = remove_skill_from_config(next, "r", "b");
    assert!(changed);
    assert_eq!(next.get("r").unwrap().installed, vec!["c", "m"]);
}

#[test]
fn registry_skill_selector_prefers_non_empty_id_then_name_then_registry() {
    let skill = RegistrySkillSummary {
        id: "tools/amap".to_string(),
        name: "amap-lbs-skill".to_string(),
        local_path: "/tmp/SKILL.md".to_string(),
    };
    assert_eq!(registry_skill_selector(&skill, "amap"), "tools/amap");

    let skill = RegistrySkillSummary {
        id: String::new(),
        name: "amap-lbs-skill".to_string(),
        local_path: "/tmp/SKILL.md".to_string(),
    };
    assert_eq!(registry_skill_selector(&skill, "amap"), "amap-lbs-skill");

    let skill = RegistrySkillSummary {
        id: " ".to_string(),
        name: " ".to_string(),
        local_path: "/tmp/SKILL.md".to_string(),
    };
    assert_eq!(registry_skill_selector(&skill, "amap"), "amap");
}

#[test]
fn parse_skill_name_handles_quotes_blank_headings_and_absence() {
    assert_eq!(
        parse_skill_name_from_markdown("#   \nname: \"quoted-skill\"\n"),
        Some("quoted-skill".to_string())
    );
    assert_eq!(
        parse_skill_name_from_markdown("  name:  'single'  "),
        Some("single".to_string())
    );
    assert_eq!(parse_skill_name_from_markdown("#title\nbody"), None);
    assert_eq!(parse_skill_name_from_markdown(""), None);
}

#[test]
fn local_skill_names_are_checked() {
    assert_eq!(validate_local_skill_name("  ok_name-1 "), Ok(()));
    assert_eq!(
        validate_local_skill_name("   "),
        Err("Skill name cannot be empty".to_string())
    );
    assert_eq!(
        validate_local_skill_name(" bad name "),
        Err("Invalid skill name `bad name`; only [a-zA-Z0-9_-] are allowed".to_string())
    );
    assert_eq!(check_local_skill_file("SKILL.md"), Ok(()));
    assert_eq!(
        check_local_skill_file("README.md"),
        Err("Please select a file named SKILL.md".to_string())
    );
}

#[test]
fn local_install_refuses_registry_managed_names() {
    let installed = vec![
        SkillSummary {
            name: "demo".to_string(),
            source_kind: SkillSourceKind::Registry,
            stale: Some(false),
        },
        SkillSummary {
            name: "mine".to_string(),
            source_kind: SkillSourceKind::Local,
            stale: None,
        },
    ];
    assert_eq!(
        local_skill_name("# demo\n", &installed),
        Err("Skill `demo` is already managed by a registry; uninstall it first".to_string())
    );
    assert_eq!(local_skill_name("# mine\n", &installed), Ok("mine".to_string()));
    assert_eq!(
        local_skill_name("no name here", &installed),
        Err("Invalid SKILL.md format: missing skill name (`# <name>` or `name: <name>`)".to_string())
    );
    assert_eq!(
        local_skill_name("# has space", &installed),
        Err("Invalid skill name `has space`; only [a-zA-Z0-9_-] are allowed".to_string())
    );
}

#[test]
fn uninstall_results_and_labels_read_as_expected() {
    let result = SkillUninstallResult { removed_managed: true, removed_local: false };
    assert_eq!(
        format_uninstall_result("demo", Some("public"), &result),
        "Removed registry skill `demo` from `public` (managed index: true, local files: false)"
    );
    assert_eq!(
        format_uninstall_result("demo", None, &result),
        "Removed local skill `demo` (managed index: true, local files: false)"
    );
    assert_eq!(skill_stale_status(Some(true)), StaleStatus::Stale);
    assert_eq!(skill_stale_status(Some(false)).label(), "fresh");
    assert_eq!(skill_stale_status(None).label(), "-");
    assert_eq!(source_label(SkillSourceKind::Local), "local");
    assert_eq!(source_label(SkillSourceKind::Registry), "registry");
}

fn registry_panel(registries: KeyedMap<SkillsRegistryConfig>) -> SkillsRegistryPanel {
    SkillsRegistryPanel {
        registries,
        form: None,
        selected_registry: None,
        delete_confirm_id: None,
        sync_timeout_text: "30".to_string(),
        syncing_registry: None,
    }
}

#[test]
fn apply_form_adds_registry() {
    let mut form = SkillsRegistryForm::new();
    form.name = "private".to_string();
    form.address = "https://example.com/skills".to_string();
    form.installed_skills = vec!["one".to_string(), "two".to_string()];

    let updated = SkillsRegistryPanel::apply_form(KeyedMap::new(), &form).expect("should apply");

    assert!(updated.contains_key("private"));
    assert_eq!(updated.get("private").unwrap().installed.len(), 2);
}

#[test]
fn apply_form_rejects_duplicate_name() {
    let mut registries = KeyedMap::new();
    registries.insert(
        "anthropic".to_string(),
        registry("https://github.com/anthropics/skills", &[]),
    );
    let mut form = SkillsRegistryForm::new();
    form.name = "anthropic".to_string();
    form.address = "https://example.com/other".to_string();

    let err = SkillsRegistryPanel::apply_form(registries, &form).expect_err("duplicate should fail");

    assert!(err.contains("already exists"));
}

#[test]
fn apply_form_edits_registry() {
    let mut registries = KeyedMap::new();
    registries.insert(
        "private".to_string(),
        registry("https://example.com/v1", &["old"]),
    );
    let source = registries.get("private").expect("registry should exist");
    let mut form = SkillsRegistryForm::edit("private", source);
    form.address = "https://example.com/v2".to_string();

    let updated = SkillsRegistryPanel::apply_form(registries, &form).expect("should apply");

    assert_eq!(updated.get("private").unwrap().address, "https://example.com/v2");
}

#[test]
fn registry_form_renames_and_validates() {
    let mut form = SkillsRegistryForm::edit("private", &registry("https://a", &["x"]));
    assert_eq!(form.title(), FormMode::Edit);
    assert_eq!(SkillsRegistryForm::new().title(), FormMode::Add);
    form.name = "  renamed ".to_string();
    let updated = SkillsRegistryPanel::apply_form(two_registries(), &form).expect("rename");
    assert!(updated.contains_key("renamed"));
    assert!(!updated.contains_key("private"));
    assert!(updated.contains_key("public"));

    form.name = "public".to_string();
    assert_eq!(
        SkillsRegistryPanel::apply_form(two_registries(), &form).map(|_| ()),
        Err("Registry `public` already exists".to_string())
    );
    form.name = " ".to_string();
    assert_eq!(
        SkillsRegistryPanel::apply_form(two_registries(), &form).map(|_| ()),
        Err("Registry name cannot be empty".to_string())
    );
    form.name = "x".to_string();
    form.address = "  ".to_string();
    assert_eq!(
        SkillsRegistryPanel::apply_form(two_registries(), &form).map(|_| ()),
        Err("Registry address cannot be empty".to_string())
    );
}

#[test]
fn registry_sync_starts_once_with_a_valid_timeout() {
    let mut panel = registry_panel(two_registries());
    assert_eq!(
        panel.begin_registry_sync("missing").map(|_| ()),
        Err(SyncRefusal::NotFound)
    );
    panel.sync_timeout_text = "soon".to_string();
    assert_eq!(
        panel.begin_registry_sync("private").map(|_| ()),
        Err(SyncRefusal::InvalidTimeout)
    );
    panel.sync_timeout_text = " 45 ".to_string();
    let plan = panel.begin_registry_sync("private").expect("sync should start");
    assert_eq!(plan.registry_name, "private");
    assert_eq!(plan.address, "https://example.com/private.git");
    assert_eq!(plan.timeout_seconds, 45);
    assert_eq!(
        plan.installed,
        vec![
            ("private".to_string(), "demo".to_string()),
            ("private".to_string(), "plan".to_string()),
        ]
    );
    assert_eq!(
        panel.begin_registry_sync("public").map(|_| ()),
        Err(SyncRefusal::AlreadyRunning)
    );
    panel.finish_registry_sync();
    assert!(panel.begin_registry_sync("public").is_ok());
}

use klaw_gui::panels::Notice;
use klaw_gui::skills::{
    install_notice, install_window_registry, keeps_detail, registry_uninstall_notice,
    uninstall_notice, InstallStep, RegistryUninstallStep, UninstallStep,
};

fn notice_text(n: Notice) -> (&'static str, String) {
    match n {
        Notice::Success(m) => ("success", m),
        Notice::Info(m) => ("info", m),
        Notice::Warning(m) => ("warning", m),
        Notice::Error(m) => ("error", m),
    }
}

#[test]
fn install_window_keeps_or_picks_first_registry() {
    let regs = two_registries();
    let first = regs.first_key().expect("has registries");
    assert_eq!(install_window_registry(None, &regs), Some(first.clone()));
    assert_eq!(install_window_registry(Some("gone"), &regs), Some(first.clone()));
    let other: Vec<String> = regs.keys().into_iter().filter(|k| *k != first).collect();
    assert_eq!(install_window_registry(Some(other[0].as_str()), &regs), Some(other[0].clone()));
    assert_eq!(install_window_registry(Some("x"), &KeyedMap::new()), None);
}

#[test]
fn detail_is_kept_only_while_listed() {
    let items = vec![SkillSummary {
        name: "writer".to_string(),
        source_kind: SkillSourceKind::Local,
        stale: None,
    }];
    assert!(keeps_detail(&None, &items));
    assert!(keeps_detail(&Some("writer".to_string()), &items));
    assert!(!keeps_detail(&Some("reader".to_string()), &items));
}

#[test]
fn install_notices_name_skill_and_registry() {
    assert_eq!(
        notice_text(install_notice("hub", "pdf", InstallStep::Installed)),
        ("success", "Installed `pdf` from registry `hub`".to_string())
    );
    assert_eq!(
        notice_text(install_notice("hub", "pdf", InstallStep::AlreadyInstalled)),
        ("info", "`pdf` is already installed".to_string())
    );
    assert_eq!(
        notice_text(install_notice("hub", "pdf", InstallStep::InstallFailed("offline".to_string()))),
        (
            "warning",
            "Saved `pdf` in config, but install did not complete immediately: offline".to_string()
        )
    );
    assert_eq!(
        notice_text(install_notice("hub", "pdf", InstallStep::SaveFailed("locked".to_string()))),
        ("error", "Failed to save installed skill `pdf` to config: locked".to_string())
    );
}

#[test]
fn uninstall_notices_follow_what_happened() {
    assert_eq!(
        notice_text(registry_uninstall_notice("hub", "pdf", RegistryUninstallStep::Uninstalled)),
        ("success", "Uninstalled `pdf` from registry `hub`".to_string())
    );
    assert_eq!(
        notice_text(registry_uninstall_notice("hub", "pdf", RegistryUninstallStep::NotInstalled)),
        ("info", "`pdf` is not installed".to_string())
    );
    assert_eq!(
        notice_text(uninstall_notice(
            "pdf",
            Some("hub"),
            UninstallStep::Removed {
                config_updated: true,
                result: SkillUninstallResult { removed_managed: true, removed_local: false },
            }
        )),
        (
            "success",
            "Removed registry skill `pdf` from `hub` (managed index: true, local files: false)"
                .to_string()
        )
    );
    assert_eq!(
        notice_text(uninstall_notice(
            "pdf",
            Some("hub"),
            UninstallStep::CleanupFailed { config_updated: true, error: "busy".to_string() }
        )),
        ("warning", "Removed `pdf` from config, but local cleanup failed: busy".to_string())
    );
    assert_eq!(
        notice_text(uninstall_notice(
            "pdf",
            None,
            UninstallStep::CleanupFailed { config_updated: false, error: "busy".to_string() }
        )),
        ("error", "Failed to uninstall `pdf`: busy".to_string())
    );
    assert_eq!(
        notice_text(uninstall_notice("pdf", Some("hub"), UninstallStep::ConfigFailed("ro".to_string()))),
        ("error", "Failed to remove `pdf` from registry config: ro".to_string())
    );
}

use klaw_gui::skills::{installed_skill_pairs, registry_sources};

#[test]
fn registry_sources_and_installed_pairs_follow_name_order() {
    let regs = two_registries();
    assert_eq!(
        registry_sources(&regs),
        vec![
            ("private".to_string(), "https://example.com/private.git".to_string()),
            ("public".to_string(), "https://example.com/public.git".to_string()),
        ]
    );
    assert_eq!(
        installed_skill_pairs(&regs),
        vec![
            ("private".to_string(), "demo".to_string()),
            ("private".to_string(), "plan".to_string()),
            ("public".to_string(), "demo".to_string()),
        ]
    );
    assert!(installed_skill_pairs(&KeyedMap::new()).is_empty());
}

#[test]
fn editing_a_registry_and_saving_it_unchanged_keeps_it() {
    let registries = two_registries();
    let names: Vec<String> = registries.keys();
    let name = names[0].clone();
    let source = registries.get(&name).unwrap();
    let address = source.address.clone();
    let installed = source.installed.clone();
    let form = SkillsRegistryForm::edit(&name, source);

    let updated = SkillsRegistryPanel::apply_form(registries, &form).expect("unchanged form applies");

    assert_eq!(updated.len(), 2);
    assert_eq!(updated.get(&name).unwrap().address, address);
    assert_eq!(updated.get(&name).unwrap().installed, installed);
}

use klaw_gui::setting::NoticeLevel;
use klaw_gui::skills::registry_cleanup_notice;

#[test]
fn deleting_a_registry_removes_only_that_registry() {
    assert!(SkillsRegistryPanel::delete_registry(two_registries(), "missing").is_none());

    let updated = SkillsRegistryPanel::delete_registry(two_registries(), "private").expect("known registry");
    assert_eq!(updated.len(), 1);
    assert!(!updated.contains_key("private"));
    assert_eq!(updated.get("public").unwrap().address, "https://example.com/public.git");

    let mut panel = registry_panel(two_registries());
    panel.toggle_selection("private");
    panel.registry_deleted(updated);
    assert!(panel.selected_registry.is_none());
    assert_eq!(panel.registries.len(), 1);
}

#[test]
fn registry_cleanup_notice_counts_removed_skills() {
    assert!(registry_cleanup_notice(Ok(0)).is_none());

    let n = registry_cleanup_notice(Ok(12)).expect("some were removed");
    assert_eq!(n.level, NoticeLevel::Info);
    assert_eq!(n.key, Some("skills-reg-notify-cleaned-skills"));
    assert_eq!(n.arg.as_deref(), Some("12"));

    let n = registry_cleanup_notice(Err("disk full".to_string())).expect("failure is told");
    assert_eq!(n.level, NoticeLevel::Warning);
    assert_eq!(n.key, Some("skills-reg-notify-cleanup-failed"));
    assert_eq!(n.arg.as_deref(), Some("disk full"));
}

#[test]
fn sync_timeout_reads_whole_numbers_only() {
    let mut panel = registry_panel(KeyedMap::new());
    assert_eq!(panel.sync_timeout(), Some(30));
    panel.sync_timeout_text = " 45 ".to_string();
    assert_eq!(panel.sync_timeout(), Some(45));
    panel.sync_timeout_text = "4.5".to_string();
    assert_eq!(panel.sync_timeout(), None);
    panel.sync_timeout_text = String::new();
    assert_eq!(panel.sync_timeout(), None);
}

#[test]
fn snapshot_timeout_reads_back() {
    let mut panel = registry_panel(KeyedMap::new());
    panel.apply_snapshot(two_registries(), 120);
    assert_eq!(panel.sync_timeout_text, "120");
    assert_eq!(panel.sync_timeout(), Some(120));
    assert_eq!(panel.registries.len(), 2);
    panel.apply_snapshot(KeyedMap::new(), 0);
    assert_eq!(panel.sync_timeout(), Some(0));
}

#[test]
fn removing_a_just_added_skill_restores_the_list() {
    let (added, changed) = add_skill_to_config(two_registries(), "private", "build");
    assert!(changed);
    assert_eq!(
        added.get("private").unwrap().installed,
        vec!["build".to_string(), "demo".to_string(), "plan".to_string()]
    );
    let (removed, changed) = remove_skill_from_config(added, "private", "build");
    assert!(changed);
    assert_eq!(
        removed.get("private").unwrap().installed,
        vec!["demo".to_string(), "plan".to_string()]
    );
    assert_eq!(removed.get("public").unwrap().installed, vec!["demo".to_string()]);
}
