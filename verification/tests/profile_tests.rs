use klaw_gui::markdown::{summarize_markdown, truncate_text, validate_workspace_file_name};
use klaw_gui::profile::{
    ProfilePanel, WorkspaceMarkdownEditor, WorkspaceMarkdownPreview,
};

#[test]
fn summarize_markdown_uses_first_meaningful_line() {
    let summary = summarize_markdown("\n# Title\n\nbody");
    assert_eq!(summary, "Title");
}

#[test]
fn summarize_markdown_skips_empty_and_fence_only_lines() {
    let summary = summarize_markdown("\n```rust\n\n- bullet item");
    assert_eq!(summary, "bullet item");
}

#[test]
fn truncate_text_adds_ellipsis_when_needed() {
    assert_eq!(truncate_text("abcdef", 3), "abc...");
    assert_eq!(truncate_text("abc", 3), "abc");
}

#[test]
fn validate_workspace_file_name_rejects_nested_paths() {
    let err = validate_workspace_file_name("nested/file.md").expect_err("nested path");
    assert!(err.contains("directory separators"));
}

#[test]
fn sync_open_views_updates_matching_editor_and_preview() {
    let path = "/tmp/AGENTS.md".to_string();
    let mut panel = ProfilePanel {
        editor: Some(WorkspaceMarkdownEditor {
            file_name: "AGENTS.md".to_string(),
            path: path.clone(),
            original_raw: "old".to_string(),
            editor_raw: "dirty".to_string(),
            open: true,
        }),
        preview: Some(WorkspaceMarkdownPreview {
            file_name: "AGENTS.md".to_string(),
            path: path.clone(),
            content: "stale".to_string(),
            open: true,
        }),
        ..ProfilePanel::default()
    };

    panel.sync_open_views_with_content(&path, "new");

    let editor = panel.editor.as_ref().expect("editor should remain open");
    assert_eq!(editor.original_raw, "new");
    assert_eq!(editor.editor_raw, "new");

    let preview = panel.preview.as_ref().expect("preview should remain open");
    assert_eq!(preview.content, "new");
}

use klaw_gui::markdown::is_markdown_path;
use klaw_gui::profile::{
    build_workspace_docs, PreviewPoll, WorkspaceEntry, WorkspaceMarkdownDoc,
};

fn entry(name: &str, is_file: bool, content: &str) -> WorkspaceEntry {
    WorkspaceEntry {
        path: format!("/ws/{name}"),
        file_name: name.to_string(),
        is_file,
        content: content.to_string(),
        modified_label: "2024/01/01 00:00:00".to_string(),
        size_bytes: content.len() as u64,
    }
}

fn doc(name: &str) -> WorkspaceMarkdownDoc {
    WorkspaceMarkdownDoc {
        file_name: name.to_string(),
        path: format!("/ws/{name}"),
        summary: "summary".to_string(),
        modified_label: "-".to_string(),
        size_bytes: 1,
    }
}

#[test]
fn workspace_doc_loader_filters_non_markdown_files() {
    let docs = build_workspace_docs(vec![
        entry("AGENTS.md", true, "# Agents"),
        entry("notes.txt", true, "ignore"),
    ]);
    assert_eq!(docs.len(), 1);
    assert_eq!(docs[0].file_name, "AGENTS.md");
}

#[test]
fn workspace_docs_are_sorted_by_file_name_and_summarized() {
    let docs = build_workspace_docs(vec![
        entry("USER.md", true, "\n## Profile\nbody"),
        entry("dir.md", false, "# Not a file"),
        entry("AGENTS.md", true, "# Agents"),
        entry("SOUL.MD", true, ""),
    ]);
    let names: Vec<&str> = docs.iter().map(|d| d.file_name.as_str()).collect();
    assert_eq!(names, vec!["AGENTS.md", "SOUL.MD", "USER.md"]);
    assert_eq!(docs[0].summary, "Agents");
    assert_eq!(docs[1].summary, "Empty markdown file.");
    assert_eq!(docs[2].summary, "Profile");
    assert_eq!(docs[2].size_bytes, "\n## Profile\nbody".len() as u64);
}

#[test]
fn markdown_extension_is_matched_without_case() {
    assert!(is_markdown_path("/ws/README.MD"));
    assert!(is_markdown_path("notes.md"));
    assert!(!is_markdown_path("notes.markdown"));
    assert!(!is_markdown_path("/ws/.md/"));
}

#[test]
fn reload_keeps_existing_selection_and_drops_missing_one() {
    let mut panel = ProfilePanel::default();
    assert!(panel.ensure_loaded());
    panel.selected_doc = Some("AGENTS.md".to_string());
    let notice = panel.reload(Ok(("/ws".to_string(), vec![doc("AGENTS.md"), doc("USER.md")])));
    assert!(notice.is_none());
    assert!(!panel.ensure_loaded());
    assert_eq!(panel.selected_doc.as_deref(), Some("AGENTS.md"));
    assert_eq!(panel.workspace_dir.as_deref(), Some("/ws"));
    assert_eq!(panel.system_prompt_preview, "Loading system prompt preview...");
    assert!(panel.system_prompt_preview_loading);

    panel.selected_doc = Some("GONE.md".to_string());
    panel.reload(Ok(("/ws".to_string(), vec![doc("USER.md")])));
    assert_eq!(panel.selected_doc, None);
    assert_eq!(panel.docs.len(), 1);
}

#[test]
fn reload_failure_reports_and_keeps_state() {
    let mut panel = ProfilePanel::default();
    let notice = panel.reload(Err("HOME is unavailable".to_string()));
    assert_eq!(
        notice.as_deref(),
        Some("Failed to load workspace markdown files: HOME is unavailable")
    );
    assert!(!panel.loaded);
}

#[test]
fn preview_poll_handles_ready_pending_and_disconnect() {
    let mut panel = ProfilePanel::default();
    assert!(panel.poll_system_prompt_preview(PreviewPoll::Ready("x".to_string())).is_none());
    assert_eq!(panel.system_prompt_preview, "");

    panel.refresh_system_prompt_preview();
    assert!(panel.poll_system_prompt_preview(PreviewPoll::Pending).is_none());
    assert!(panel.system_prompt_preview_loading);
    assert!(panel.poll_system_prompt_preview(PreviewPoll::Ready("# Prompt".to_string())).is_none());
    assert_eq!(panel.system_prompt_preview, "# Prompt");
    assert!(!panel.system_prompt_preview_loading);

    panel.refresh_system_prompt_preview();
    assert_eq!(panel.system_prompt_preview, "# Prompt");
    let warning = panel.poll_system_prompt_preview(PreviewPoll::Disconnected);
    assert_eq!(warning.as_deref(), Some("System prompt preview loader disconnected"));
    assert_eq!(
        panel.system_prompt_preview,
        "# System Prompt Preview Unavailable\n\nBackground preview task disconnected."
    );
}

#[test]
fn editor_lifecycle_tracks_dirty_reset_and_save() {
    let mut panel = ProfilePanel::default();
    let d = doc("AGENTS.md");
    let notice = panel.open_editor(&d, Err("denied".to_string()));
    assert_eq!(notice.as_deref(), Some("Failed to read /ws/AGENTS.md: denied"));
    assert!(panel.editor.is_none());

    assert!(panel.open_editor(&d, Ok("text".to_string())).is_none());
    assert!(!panel.editor_dirty());
    panel.editor.as_mut().unwrap().editor_raw = "changed".to_string();
    assert!(panel.editor_dirty());
    panel.reset_editor();
    assert!(!panel.editor_dirty());

    panel.editor.as_mut().unwrap().editor_raw = "saved".to_string();
    let failed = panel.finish_editor_save(Err("disk full".to_string()));
    assert_eq!(failed, Err("Failed to save /ws/AGENTS.md: disk full".to_string()));
    assert!(panel.editor_dirty());
    let saved = panel.finish_editor_save(Ok(()));
    assert_eq!(saved, Ok("AGENTS.md".to_string()));
    assert!(!panel.editor_dirty());

    panel.request_editor_default();
    assert!(panel.pending_default_confirm.is_some());
    assert!(panel.apply_default_to_editor("# Template"));
    assert_eq!(panel.editor.as_ref().unwrap().editor_raw, "# Template");
    panel.close_editor();
    assert!(panel.editor.is_none());
    assert!(panel.pending_default_confirm.is_none());
    assert!(!panel.apply_default_to_editor("# Template"));
}

#[test]
fn sync_open_views_leaves_other_paths_alone() {
    let mut panel = ProfilePanel::default();
    panel.open_preview(&doc("USER.md"), Ok("user".to_string()));
    panel.sync_open_views_with_content("/ws/AGENTS.md", "new");
    assert_eq!(panel.preview.as_ref().unwrap().content, "user");
    panel.sync_open_views_with_content("/ws//./USER.md", "fresh");
    assert_eq!(panel.preview.as_ref().unwrap().content, "fresh");
}

#[test]
fn selection_toggles_and_delete_clears_views() {
    let mut panel = ProfilePanel::default();
    panel.toggle_selection("AGENTS.md");
    assert_eq!(panel.selected_doc.as_deref(), Some("AGENTS.md"));
    panel.toggle_selection("AGENTS.md");
    assert_eq!(panel.selected_doc, None);
    panel.toggle_selection("AGENTS.md");
    panel.open_preview(&doc("AGENTS.md"), Ok("x".to_string()));
    panel.pending_delete_doc = Some(doc("AGENTS.md"));
    panel.finish_delete(&doc("AGENTS.md"));
    assert_eq!(panel.selected_doc, None);
    assert!(panel.preview.is_none());
    assert!(panel.pending_delete_doc.is_none());
}
