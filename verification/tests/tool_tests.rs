use klaw_gui::tool::parse_lines;

#[test]
fn parse_lines_ignores_blanks() {
    let lines = parse_lines("a\n\n b \n  ");
    assert_eq!(lines, vec!["a".to_string(), "b".to_string()]);
}

use klaw_gui::tool::{
    optional_string, tool_call_id_label, tools, ApplyPatchConfig, ApplyPatchForm,
    ChannelAttachmentForm, LogStatusFilter, MemoryForm, MemoryToolConfig, ShellConfig, ShellForm,
    SubAgentConfig, SubAgentForm, ToggleForm, ToolAuditRecord, ToolForm, ToolLogSortOrder,
    ToolsEnabled, WebFetchForm, filtered_log_rows,
};

#[test]
fn shell_form_rejects_invalid_numbers() {
    let form = ShellForm {
        enabled: true,
        workspace: String::new(),
        blocked_patterns_text: String::new(),
        unsafe_patterns_text: String::new(),
        allow_login_shell: true,
        max_timeout_ms: "abc".to_string(),
        max_output_bytes: "1024".to_string(),
    };

    let err = form.to_config().expect_err("should reject invalid timeout");
    assert!(err.contains("max_timeout_ms"));
}

#[test]
fn channel_attachment_form_parses_values() {
    let form = ChannelAttachmentForm {
        enabled: true,
        allowlist_text: "/tmp\n /Users/zhubby/Downloads ".to_string(),
        max_bytes: "2048".to_string(),
    };

    let config = form.to_config().expect("should parse");
    assert!(config.enabled);
    assert_eq!(config.local_attachments.max_bytes, 2048);
    assert_eq!(
        config.local_attachments.allowlist,
        vec!["/tmp".to_string(), "/Users/zhubby/Downloads".to_string()]
    );
}

#[test]
fn sub_agent_form_parses_values() {
    let form = SubAgentForm {
        enabled: true,
        max_iterations: "6".to_string(),
        max_tool_calls: "12".to_string(),
        inherit_parent_tools: true,
        exclude_tools_text: "sub_agent\nweb_search".to_string(),
    };

    let config = form.to_config().expect("should parse");
    assert_eq!(config.max_iterations, 6);
    assert_eq!(config.max_tool_calls, 12);
    assert_eq!(
        config.exclude_tools,
        vec!["sub_agent".to_string(), "web_search".to_string()]
    );
}

fn all_enabled(on: bool) -> ToolsEnabled {
    ToolsEnabled {
        apply_patch: on,
        shell: on,
        archive: on,
        channel_attachment: on,
        voice: on,
        approval: on,
        geo: on,
        local_search: on,
        terminal_multiplexers: on,
        cron_manager: on,
        heartbeat_manager: on,
        skills_registry: on,
        skills_manager: on,
        memory: on,
        web_fetch: on,
        web_search: on,
        sub_agent: on,
    }
}

#[test]
fn tool_descriptors_are_sorted_alphabetically() {
    let tools = tools(&all_enabled(false));
    let names = tools.iter().map(|tool| tool.name).collect::<Vec<_>>();
    let mut sorted = names.clone();
    sorted.sort_unstable();
    assert_eq!(names, sorted);
    assert_eq!(names.len(), 17);
    assert_eq!(names[0], "apply_patch");
    assert_eq!(names[16], "web_search");
}

#[test]
fn forms_show_settings_and_read_them_back() {
    let config = SubAgentConfig {
        enabled: false,
        max_iterations: 4_000_000_000,
        max_tool_calls: 0,
        inherit_parent_tools: false,
        exclude_tools: vec!["a".to_string(), "b c".to_string()],
    };
    let form = SubAgentForm::from_config(&config);
    assert_eq!(form.max_iterations, "4000000000");
    assert_eq!(form.exclude_tools_text, "a\nb c");
    let back = form.to_config().expect("round trip");
    assert_eq!(back.max_iterations, config.max_iterations);
    assert_eq!(back.exclude_tools, config.exclude_tools);

    let shell = ShellConfig {
        enabled: true,
        workspace: Some("/w".to_string()),
        blocked_patterns: vec!["rm -rf".to_string()],
        unsafe_patterns: Vec::new(),
        allow_login_shell: false,
        max_timeout_ms: 30_000,
        max_output_bytes: 65_536,
    };
    let form = ShellForm::from_config(&shell);
    assert_eq!(form.max_timeout_ms, "30000");
    let back = form.to_config().expect("shell round trip");
    assert_eq!(back.workspace.as_deref(), Some("/w"));
    assert_eq!(back.blocked_patterns, vec!["rm -rf".to_string()]);
    assert_eq!(back.max_output_bytes, 65_536);

    let mut web = WebFetchForm {
        enabled: true,
        max_chars: "100".to_string(),
        timeout_seconds: "+5".to_string(),
        cache_ttl_minutes: "0".to_string(),
        max_redirects: "256".to_string(),
        readability: true,
        ssrf_allowlist_text: String::new(),
    };
    assert_eq!(
        web.to_config().map(|_| ()),
        Err("max_redirects must be an integer between 0 and 255".to_string())
    );
    web.max_redirects = " 3 ".to_string();
    let fetched = web.to_config().expect("web fetch parses");
    assert_eq!(fetched.timeout_seconds, 5);
    assert_eq!(fetched.max_redirects, 3);

    let memory = MemoryForm {
        enabled: true,
        search_limit: "8".to_string(),
        fts_limit: "-1".to_string(),
        vector_limit: "8".to_string(),
        use_vector: false,
    };
    assert_eq!(
        memory.to_config().map(|_| ()),
        Err("fts_limit must be a positive integer".to_string())
    );
    let shown = MemoryForm::from_config(&MemoryToolConfig {
        enabled: true,
        search_limit: 1,
        fts_limit: 2,
        vector_limit: 3,
        use_vector: true,
    });
    assert_eq!(shown.vector_limit, "3");

    let patch = ApplyPatchForm::from_config(&ApplyPatchConfig {
        enabled: true,
        workspace: None,
        allow_absolute_paths: false,
        allowed_roots: vec!["/a".to_string(), "/b".to_string()],
    });
    assert_eq!(patch.allowed_roots_text, "/a\n/b");
    assert_eq!(patch.to_config().allowed_roots, vec!["/a".to_string(), "/b".to_string()]);
    assert_eq!(optional_string("  "), None);
    assert_eq!(optional_string(" x "), Some("x".to_string()));
}

#[test]
fn tool_form_titles_and_log_controls() {
    let toggle = ToolForm::Geo(ToggleForm { title: "Edit Tool: geo".to_string(), enabled: true });
    assert_eq!(toggle.title(), "Edit Tool: geo");
    let form = ToolForm::SubAgent(SubAgentForm {
        enabled: true,
        max_iterations: "1".to_string(),
        max_tool_calls: "1".to_string(),
        inherit_parent_tools: true,
        exclude_tools_text: String::new(),
    });
    assert_eq!(form.title(), "Edit Tool: sub_agent");
    assert_eq!(ToolLogSortOrder::StartedAtDesc.label(), "Time ↓");
    assert_eq!(ToolLogSortOrder::StartedAtDesc.toggled(), ToolLogSortOrder::StartedAtAsc);
    let records = vec![
        ToolAuditRecord { id: "1".to_string(), failed: false, metadata_json: None },
        ToolAuditRecord { id: "2".to_string(), failed: true, metadata_json: None },
    ];
    assert_eq!(filtered_log_rows(&records, LogStatusFilter::All), vec![0, 1]);
    assert_eq!(filtered_log_rows(&records, LogStatusFilter::FailedOnly), vec![1]);
}

#[test]
fn tool_call_id_is_read_from_json_metadata() {
    let mut audit = ToolAuditRecord {
        id: "1".to_string(),
        failed: false,
        metadata_json: Some("{\"tool_call_id\":\"call_42\",\"other\":1}".to_string()),
    };
    assert_eq!(tool_call_id_label(&audit), "call_42");
    audit.metadata_json = Some("{\"tool_call_id\":7}".to_string());
    assert_eq!(tool_call_id_label(&audit), "-");
    audit.metadata_json = Some("not json".to_string());
    assert_eq!(tool_call_id_label(&audit), "-");
    audit.metadata_json = None;
    assert_eq!(tool_call_id_label(&audit), "-");
}

use klaw_gui::tool::{
    apply_tool_form, open_editor, BraveConfig, ChannelAttachmentToolConfig, LocalAttachmentConfig,
    TavilyConfig, ToolToggle, ToolsConfig, WebFetchConfig, WebSearchConfig,
};

fn sample_tools_config() -> ToolsConfig {
    let off = ToolToggle { enabled: false };
    ToolsConfig {
        apply_patch: ApplyPatchConfig {
            enabled: true,
            workspace: None,
            allow_absolute_paths: false,
            allowed_roots: vec![],
        },
        shell: ShellConfig {
            enabled: true,
            workspace: None,
            blocked_patterns: vec!["rm -rf /".to_string()],
            unsafe_patterns: vec![],
            allow_login_shell: false,
            max_timeout_ms: 30000,
            max_output_bytes: 4096,
        },
        archive: ToolToggle { enabled: true },
        channel_attachment: ChannelAttachmentToolConfig {
            enabled: false,
            local_attachments: LocalAttachmentConfig { allowlist: vec![], max_bytes: 1024 },
        },
        voice: off,
        approval: off,
        geo: off,
        local_search: off,
        terminal_multiplexers: off,
        cron_manager: off,
        heartbeat_manager: off,
        skills_registry: off,
        skills_manager: off,
        memory: MemoryToolConfig {
            enabled: true,
            search_limit: 8,
            fts_limit: 20,
            vector_limit: 20,
            use_vector: false,
        },
        web_fetch: WebFetchConfig {
            enabled: true,
            max_chars: 50000,
            timeout_seconds: 15,
            cache_ttl_minutes: 10,
            max_redirects: 3,
            readability: true,
            ssrf_allowlist: vec![],
        },
        web_search: WebSearchConfig {
            enabled: false,
            provider: "tavily".to_string(),
            tavily: TavilyConfig {
                base_url: None,
                api_key: None,
                env_key: None,
                search_depth: "basic".to_string(),
                topic: None,
                include_answer: None,
                include_raw_content: None,
                include_images: None,
                project_id: None,
            },
            brave: BraveConfig {
                base_url: None,
                api_key: None,
                env_key: None,
                country: None,
                search_lang: None,
                ui_lang: None,
                safesearch: None,
                freshness: None,
            },
        },
        sub_agent: SubAgentConfig {
            enabled: true,
            max_iterations: 6,
            max_tool_calls: 12,
            inherit_parent_tools: true,
            exclude_tools: vec!["sub_agent".to_string(), "web_search".to_string()],
        },
    }
}

#[test]
fn open_editor_shows_toggle_state_and_title() {
    let config = sample_tools_config();
    match open_editor(&config, "archive") {
        Some(ToolForm::Archive(t)) => {
            assert_eq!(t.title, "Edit Tool: archive");
            assert!(t.enabled);
        }
        other => panic!("unexpected form: {other:?}"),
    }
    match open_editor(&config, "voice") {
        Some(ToolForm::Voice(t)) => {
            assert_eq!(t.title, "Edit Tool: voice");
            assert!(!t.enabled);
        }
        other => panic!("unexpected form: {other:?}"),
    }
}

#[test]
fn open_editor_unknown_tool_gives_none() {
    let config = sample_tools_config();
    assert!(open_editor(&config, "unknown_tool").is_none());
    assert!(open_editor(&config, "").is_none());
}

#[test]
fn open_editor_sub_agent_shows_settings() {
    let config = sample_tools_config();
    match open_editor(&config, "sub_agent") {
        Some(ToolForm::SubAgent(f)) => {
            assert!(f.enabled);
            assert_eq!(f.max_iterations, "6");
            assert_eq!(f.max_tool_calls, "12");
            assert!(f.inherit_parent_tools);
            assert_eq!(f.exclude_tools_text, "sub_agent\nweb_search");
        }
        other => panic!("unexpected form: {other:?}"),
    }
}

#[test]
fn apply_toggle_form_changes_only_that_tool() {
    let config = sample_tools_config();
    let form = ToolForm::Geo(ToggleForm { title: "Edit Tool: geo".to_string(), enabled: true });
    let saved = apply_tool_form(config, form).expect("toggle forms always save");
    assert!(saved.geo.enabled);
    assert!(saved.archive.enabled);
    assert!(!saved.voice.enabled);
    assert_eq!(saved.shell.max_timeout_ms, 30000);
    assert_eq!(saved.sub_agent.max_iterations, 6);
}

#[test]
fn apply_shell_form_refuses_bad_timeout() {
    let config = sample_tools_config();
    let form = ToolForm::Shell(ShellForm {
        enabled: true,
        workspace: String::new(),
        blocked_patterns_text: String::new(),
        unsafe_patterns_text: String::new(),
        allow_login_shell: false,
        max_timeout_ms: "0x10".to_string(),
        max_output_bytes: "4096".to_string(),
    });
    let err = apply_tool_form(config, form).expect_err("bad timeout is refused");
    assert_eq!(err, "max_timeout_ms must be a positive integer");
}

#[test]
fn saving_unchanged_editors_keeps_settings() {
    for key in [
        "archive",
        "voice",
        "sub_agent",
        "shell",
        "memory",
        "web_fetch",
        "channel_attachment",
        "apply_patch",
    ] {
        let config = sample_tools_config();
        let form = open_editor(&config, key).expect("known tool");
        let saved = apply_tool_form(sample_tools_config(), form).expect("unchanged form saves");
        assert_eq!(saved.archive.enabled, config.archive.enabled);
        assert_eq!(saved.voice.enabled, config.voice.enabled);
        assert_eq!(saved.sub_agent.max_iterations, config.sub_agent.max_iterations);
        assert_eq!(saved.sub_agent.max_tool_calls, config.sub_agent.max_tool_calls);
        assert_eq!(saved.sub_agent.exclude_tools, config.sub_agent.exclude_tools);
        assert_eq!(saved.shell.blocked_patterns, config.shell.blocked_patterns);
        assert_eq!(saved.shell.max_timeout_ms, config.shell.max_timeout_ms);
        assert_eq!(saved.memory.search_limit, config.memory.search_limit);
        assert_eq!(saved.web_fetch.max_redirects, config.web_fetch.max_redirects);
        assert_eq!(
            saved.channel_attachment.local_attachments.max_bytes,
            config.channel_attachment.local_attachments.max_bytes
        );
        assert_eq!(saved.apply_patch.allowed_roots, config.apply_patch.allowed_roots);
        assert_eq!(saved.apply_patch.workspace, config.apply_patch.workspace);
    }
}

use klaw_gui::session::{date_end_ms, date_start_ms, CalendarDate};
use klaw_gui::tool::{log_record_by_id, tool_audit_query, TOOL_LOG_PAGE_SIZE};

fn audit(id: &str, failed: bool) -> ToolAuditRecord {
    ToolAuditRecord { id: id.to_string(), failed, metadata_json: None }
}

#[test]
fn tool_audit_query_covers_chosen_days() {
    let start = CalendarDate { year: 2026, month: 4, day: 7 };
    let end = CalendarDate { year: 2026, month: 5, day: 7 };
    let q = tool_audit_query(
        "shell",
        &Some("dm:1".to_string()),
        Some(start),
        Some(end),
        ToolLogSortOrder::StartedAtDesc,
    );
    assert_eq!(q.tool_name.as_deref(), Some("shell"));
    assert_eq!(q.session_key.as_deref(), Some("dm:1"));
    assert_eq!(q.started_from_ms, date_start_ms(start));
    assert_eq!(q.started_to_ms, date_end_ms(end));
    assert_eq!(q.limit, TOOL_LOG_PAGE_SIZE);
    assert_eq!(q.limit, 100);
    assert_eq!(q.offset, 0);
    assert_eq!(q.sort_order, ToolLogSortOrder::StartedAtDesc);

    let open = tool_audit_query("shell", &None, None, None, ToolLogSortOrder::StartedAtAsc);
    assert!(open.started_from_ms.is_none() && open.started_to_ms.is_none());
    assert!(open.session_key.is_none());
}

#[test]
fn log_record_by_id_finds_first_match() {
    let rows = vec![audit("a", false), audit("b", true), audit("b", false)];
    assert_eq!(log_record_by_id(&rows, "b"), Some(1));
    assert_eq!(log_record_by_id(&rows, "z"), None);
}

#[test]
fn enabled_tools_reads_each_switch() {
    let e = sample_tools_config().enabled_tools();
    assert!(e.apply_patch && e.shell && e.archive && e.memory && e.web_fetch);
    assert!(!e.channel_attachment && !e.voice && !e.web_search && !e.skills_manager);
}

use klaw_gui::tool::join_with_newlines;

#[test]
fn parse_lines_reads_its_own_output_back() {
    for value in ["a\n\n b \n  ", "  x\r\n\ty \r\n\r\nz", "", " \n \n", "one"] {
        let once = parse_lines(value);
        let twice = parse_lines(&join_with_newlines(&once));
        assert_eq!(twice, once);
    }
    assert_eq!(parse_lines("  x\r\n\ty \r\n\r\nz"), vec!["x", "y", "z"]);
}

use klaw_gui::tool::{json_section_for, json_section_view, JsonSectionView};

#[test]
fn json_sections_show_a_tree_only_for_json() {
    assert_eq!(json_section_for(true), JsonSectionView::Tree);
    assert_eq!(json_section_for(false), JsonSectionView::Raw);
    assert_eq!(json_section_view("{\"path\": \"a.md\", \"n\": [1, 2]}"), JsonSectionView::Tree);
    assert_eq!(json_section_view("42"), JsonSectionView::Tree);
    assert_eq!(json_section_view("not json {"), JsonSectionView::Raw);
    assert_eq!(json_section_view(""), JsonSectionView::Raw);
}
