use klaw_gui::panels::{
    PanelRegistry, RenderCtx, SkillPanel, SystemMonitorPanel, WorkbenchMenu,
};
use klaw_gui::terminal::{shell_exited_notice, start_error_notice, TerminalPanel};

#[test]
fn closing_the_terminal_tab_drops_terminal_tabs_only() {
    let mut registry = PanelRegistry::default();
    registry.terminal.add_session_tab(None);
    registry.terminal.add_session_tab(None);
    registry.profile.selected_doc = Some("AGENTS.md".to_string());

    registry.handle_tab_closed(WorkbenchMenu::Profile);
    assert_eq!(registry.terminal.tab_count(), 2);
    assert_eq!(registry.profile.selected_doc.as_deref(), Some("AGENTS.md"));

    registry.handle_tab_closed(WorkbenchMenu::Terminal);
    assert_eq!(registry.terminal.tab_count(), 0);
    assert_eq!(registry.terminal.next_session_id(), 3);
    assert_eq!(registry.profile.selected_doc.as_deref(), Some("AGENTS.md"));
}

#[test]
fn terminal_tabs_get_increasing_ids_and_titles() {
    let mut panel = TerminalPanel::default();
    assert!(panel.needs_initial_tab());
    assert_eq!(panel.add_session_tab(None), 1);
    assert_eq!(panel.add_session_tab(Some("no shell".to_string())), 2);
    assert!(!panel.needs_initial_tab());
    assert_eq!(panel.tab(0).title, "Terminal 1");
    assert!(panel.tab(0).running);
    assert!(!panel.tab(1).running);
    assert_eq!(panel.tab(1).start_error.as_deref(), Some("no shell"));

    assert!(panel.mark_exited(1));
    assert_eq!(panel.tab(0).title, "Terminal 1 (exited)");
    assert_eq!(
        panel.tab(0).exit_notice.as_deref(),
        Some("Shell exited. Close this tab or open a new terminal.")
    );
    assert!(!panel.mark_exited(1));
    assert!(!panel.mark_exited(2));
    assert!(!panel.mark_exited(7));

    assert!(panel.close_tab(1));
    assert!(!panel.close_tab(1));
    assert_eq!(panel.tab_count(), 1);
    assert_eq!(panel.tab(0).id, 2);
    panel.on_tab_closed();
    assert_eq!(panel.add_session_tab(None), 3);
}

#[test]
fn terminal_notices_name_the_tab() {
    assert_eq!(start_error_notice("boom"), "Failed to start terminal: boom");
    assert_eq!(shell_exited_notice(12), "Terminal 12 shell exited");
}

#[test]
fn placeholder_pages_show_their_cards() {
    let ctx = RenderCtx { menu: WorkbenchMenu::Skill, tab_title: "Skills" };
    let view = SkillPanel.placeholder(&ctx);
    assert_eq!(view.heading, "Skills");
    assert_eq!(view.subtitle, "Skill catalog and sync status (mock)");
    assert_eq!(view.card_title, "Installed Skills");
    assert_eq!(view.grid_id, "skill-grid");
    assert_eq!(
        view.rows,
        vec![
            ("Installed".to_string(), "0".to_string()),
            ("Enabled".to_string(), "0".to_string()),
            ("Failures".to_string(), "0".to_string()),
        ]
    );

    let ctx = RenderCtx { menu: WorkbenchMenu::Monitor, tab_title: "Monitor" };
    let view = SystemMonitorPanel.placeholder(&ctx);
    assert_eq!(view.heading, "Monitor");
    assert_eq!(view.card_title, "System Signals");
    assert_eq!(view.rows[2], ("Uptime".to_string(), "N/A".to_string()));
}

use klaw_gui::terminal::pick_shell;

#[test]
fn pick_shell_prefers_env_then_fallbacks() {
    assert_eq!(pick_shell(Some("/usr/bin/fish".to_string()), true, true), "/usr/bin/fish");
    assert_eq!(pick_shell(Some(String::new()), true, true), "/bin/zsh");
    assert_eq!(pick_shell(None, false, true), "/bin/bash");
    assert_eq!(pick_shell(None, false, false), "/bin/sh");
}
