use klaw_gui::keyed::KeyedMap;
use klaw_gui::mcp::{
    build_server_detail_markdown, command_display, remove_server, McpPanel, McpRuntimeRequests,
    McpServerConfig, McpServerForm, McpServerMode, ServerRuntimeStatus, StatusPoll, SyncPoll,
};
use klaw_gui::panels::Notice;

fn stdio_server(id: &str, command: Option<&str>, args: &[&str]) -> McpServerConfig {
    McpServerConfig {
        id: id.to_string(),
        enabled: true,
        mode: McpServerMode::Stdio,
        command: command.map(|c| c.to_string()),
        args: args.iter().map(|a| a.to_string()).collect(),
        env: KeyedMap::new(),
        cwd: None,
        url: None,
        headers: KeyedMap::new(),
    }
}

#[test]
fn apply_form_adds_new_server() {
    let mut form = McpServerForm::new();
    form.id = "docs".to_string();
    form.mode = McpServerMode::Sse;
    form.url = "https://example.com/sse".to_string();

    let updated = McpPanel::apply_form(Vec::new(), &form).expect("should apply");

    assert!(updated.iter().any(|item| item.id == "docs"));
}

#[test]
fn apply_form_rejects_duplicate_id() {
    let servers = vec![stdio_server("docs", Some("uvx mcp-docs"), &[])];
    let mut form = McpServerForm::new();
    form.id = "docs".to_string();

    let err = McpPanel::apply_form(servers, &form).expect_err("duplicate should fail");

    assert!(err.contains("already exists"));
}

#[test]
fn apply_form_edits_existing_server() {
    let servers = vec![stdio_server("docs", Some("old"), &[])];
    let source = servers
        .iter()
        .find(|item| item.id == "docs")
        .expect("server should exist");
    let mut form = McpServerForm::edit(source);
    form.command = "new".to_string();

    let updated = McpPanel::apply_form(servers, &form).expect("should apply");
    let server = updated
        .iter()
        .find(|item| item.id == "docs")
        .expect("server should exist");
    assert_eq!(server.command.as_deref(), Some("new"));
}

#[test]
fn server_status_defaults_to_stopped_without_runtime_data() {
    let panel = McpPanel::new();

    assert_eq!(panel.server_status_text("missing"), "stopped");
    assert_eq!(panel.server_tool_count("missing"), 0);
}

#[test]
fn command_display_joins_stdio_command_and_args() {
    let server = stdio_server("browser", Some("npx"), &["@browsermcp/mcp@latest"]);

    assert_eq!(command_display(&server), "npx @browsermcp/mcp@latest");
}

#[test]
fn command_display_covers_blank_commands_and_sse() {
    assert_eq!(command_display(&stdio_server("a", Some("  "), &[])), "-");
    assert_eq!(command_display(&stdio_server("a", None, &["x", "y"])), "x y");
    let mut sse = stdio_server("b", None, &[]);
    sse.mode = McpServerMode::Sse;
    assert_eq!(command_display(&sse), "-");
    sse.url = Some("https://h/sse".to_string());
    assert_eq!(command_display(&sse), "https://h/sse");
}

#[test]
fn apply_form_checks_id_and_trims_fields() {
    let mut form = McpServerForm::new();
    form.id = "   ".to_string();
    assert_eq!(
        McpPanel::apply_form(Vec::new(), &form).map(|_| ()),
        Err("MCP server ID cannot be empty".to_string())
    );
    form.id = " fs ".to_string();
    form.command = " uvx ".to_string();
    form.cwd = "  ".to_string();
    form.args_input = vec!["--root".to_string(), "/tmp".to_string()];
    let updated = McpPanel::apply_form(vec![stdio_server("other", None, &[])], &form).unwrap();
    assert_eq!(updated.len(), 2);
    assert_eq!(updated[1].id, "fs");
    assert_eq!(updated[1].command.as_deref(), Some("uvx"));
    assert_eq!(updated[1].cwd, None);
    assert_eq!(command_display(&updated[1]), "uvx --root /tmp");
    assert_eq!(
        McpPanel::apply_form(updated, &form).map(|_| ()),
        Err("MCP server ID 'fs' already exists, choose another ID".to_string())
    );
    let left = remove_server(
        vec![stdio_server("a", None, &[]), stdio_server("b", None, &[]), stdio_server("a", None, &[])],
        "a",
    );
    assert_eq!(left.len(), 1);
    assert_eq!(left[0].id, "b");
}

#[test]
fn detail_markdown_lists_runtime_state() {
    let status = ServerRuntimeStatus {
        state: "running".to_string(),
        tool_count: 12,
        last_error: None,
    };
    assert_eq!(
        build_server_detail_markdown("fs", Some(&status), Some("[]")),
        "# MCP Server Detail\n\n- Server: `fs`\n- State: `running`\n- Tools: `12`\n- Last Error: `-`\n\n## tools/list response\n\n```json\n[]\n```"
    );
    assert_eq!(
        build_server_detail_markdown("x", None, None),
        "# MCP Server Detail\n\n- Server: `x`\n- State: `stopped`\n- Tools: `0`\n- Last Error: `-`\n\n## tools/list response\n\n```json\nnull\n```"
    );
}

#[test]
fn status_refresh_is_scheduled_once_and_announced_on_request() {
    let mut requests = McpRuntimeRequests::new();
    assert!(requests.refresh_status_if_due(0));
    assert!(!requests.refresh_status_if_due(5000));
    assert!(!requests.schedule_status_refresh(true));
    let mut statuses = KeyedMap::new();
    assert!(requests
        .poll_status_refresh(&mut statuses, StatusPoll::Pending)
        .is_none());
    let notice = requests.poll_status_refresh(
        &mut statuses,
        StatusPoll::Ready(vec![
            (
                "fs".to_string(),
                ServerRuntimeStatus { state: "starting".to_string(), tool_count: 0, last_error: None },
            ),
            (
                "fs".to_string(),
                ServerRuntimeStatus { state: "running".to_string(), tool_count: 3, last_error: None },
            ),
        ]),
    );
    assert!(matches!(notice, Some(Notice::Success(ref m)) if m == "MCP status refreshed"));
    assert_eq!(statuses.len(), 1);
    assert_eq!(statuses.get("fs").unwrap().state, "running");
    assert!(!requests.refresh_status_if_due(1999));
    assert!(requests.refresh_status_if_due(2000));
    let notice = requests.poll_status_refresh(&mut statuses, StatusPoll::Failed("down".to_string()));
    assert!(notice.is_none());
    assert_eq!(statuses.len(), 1);
}

#[test]
fn manager_sync_reports_failures_and_requests_a_status_refresh() {
    let mut requests = McpRuntimeRequests::new();
    assert!(requests.schedule_manager_sync(false));
    assert!(!requests.schedule_manager_sync(true));
    let (notice, send) = requests.poll_manager_sync(SyncPoll::Done);
    assert!(matches!(notice, Some(Notice::Success(ref m)) if m == "MCP runtime synchronized"));
    assert!(send);
    assert!(requests.schedule_manager_sync(false));
    let (notice, send) = requests.poll_manager_sync(SyncPoll::Failed("boom".to_string()));
    assert!(matches!(notice, Some(Notice::Error(ref m)) if m == "Failed to sync MCP runtime: boom"));
    assert!(!send);
    let (notice, _) = requests.poll_manager_sync(SyncPoll::Disconnected);
    assert!(notice.is_none());
}

#[test]
fn forgetting_a_server_drops_its_status_and_selection() {
    let mut panel = McpPanel::new();
    panel.servers.push(stdio_server("fs", Some("npx"), &[]));
    panel.server_statuses.insert(
        "fs".to_string(),
        ServerRuntimeStatus { state: "running".to_string(), tool_count: 2, last_error: None },
    );
    panel.selected_server = Some("fs".to_string());
    assert_eq!(panel.server_status_text("fs"), "running");
    assert_eq!(panel.server_tool_count("fs"), 2);
    panel.open_edit_server("fs");
    assert_eq!(panel.form.as_ref().unwrap().title(), "Edit MCP Server");
    panel.forget_server("fs");
    assert_eq!(panel.server_status_text("fs"), "stopped");
    assert_eq!(panel.selected_server, None);
}

#[test]
fn editing_a_server_and_saving_it_unchanged_keeps_it() {
    let mut server = stdio_server("docs", Some("uvx mcp-docs"), &["--port", "8080"]);
    server.env.insert("TOKEN".to_string(), "abc".to_string());
    server.cwd = Some("/srv/docs".to_string());
    let servers = vec![server];

    let form = McpServerForm::edit(&servers[0]);
    let updated = McpPanel::apply_form(servers, &form).expect("unchanged form applies");

    assert_eq!(updated.len(), 1);
    let saved = &updated[0];
    assert_eq!(saved.id, "docs");
    assert!(saved.enabled);
    assert_eq!(saved.mode, McpServerMode::Stdio);
    assert_eq!(saved.command.as_deref(), Some("uvx mcp-docs"));
    assert_eq!(saved.args, vec!["--port".to_string(), "8080".to_string()]);
    assert_eq!(saved.env.get("TOKEN").map(|v| v.as_str()), Some("abc"));
    assert_eq!(saved.cwd.as_deref(), Some("/srv/docs"));
    assert_eq!(saved.url, None);
    assert_eq!(saved.headers.len(), 0);
}
