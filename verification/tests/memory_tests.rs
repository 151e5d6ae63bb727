use klaw_gui::keyed::KeyedMap;
use klaw_gui::memory::{
    aggregate_session_key_options, apply_memory_form, count_records_with_status,
    filter_long_term_records, governance_summary, read_string_field, read_string_list_field,
    selected_long_term_record, KindFilter, LongTermMemoryKind, LongTermMemoryStatus,
    MemoryConfigForm, MemoryRecord, MetadataField, SessionIndex, StatusFilter,
};
use klaw_gui::provider::{ModelProviderConfig, ProviderConfig};

fn test_config() -> ProviderConfig {
    let mut model_providers = KeyedMap::new();
    model_providers.insert(
        "openai".to_string(),
        ModelProviderConfig {
            default_model: "gpt-4.1-mini".to_string(),
            ..ModelProviderConfig::default()
        },
    );
    model_providers.insert(
        "anthropic".to_string(),
        ModelProviderConfig {
            default_model: "sonnet-3-7-latest".to_string(),
            ..ModelProviderConfig::default()
        },
    );
    ProviderConfig {
        model_provider: "openai".to_string(),
        model_providers,
        ..ProviderConfig::default()
    }
}

fn long_term_record(
    id: &str,
    content: &str,
    kind: LongTermMemoryKind,
    status: LongTermMemoryStatus,
    topic: Option<&str>,
) -> MemoryRecord {
    MemoryRecord {
        id: id.to_string(),
        scope: "long_term".to_string(),
        content: content.to_string(),
        status: Some(status),
        kind: Some(kind),
        topic: topic.map(|t| t.to_string()),
        supersedes: MetadataField::Missing,
        superseded_by: MetadataField::Missing,
        pinned: false,
        created_at_ms: 1,
        updated_at_ms: 2,
    }
}

fn session_index(session_key: &str, active_session_key: Option<&str>) -> SessionIndex {
    SessionIndex {
        session_key: session_key.to_string(),
        active_session_key: active_session_key.map(ToString::to_string),
    }
}

#[test]
fn config_form_uses_existing_memory_values() {
    let mut config = test_config();
    config.embedding_enabled = true;
    config.embedding_provider = "anthropic".to_string();
    config.embedding_model = "custom-embed".to_string();

    let form = MemoryConfigForm::from_config(&config);

    assert!(form.enabled);
    assert_eq!(form.provider, "anthropic");
    assert_eq!(form.model, "custom-embed");
}

#[test]
fn config_form_falls_back_to_active_provider_and_default_model() {
    let mut config = test_config();
    config.embedding_enabled = false;
    config.embedding_provider = "missing".to_string();
    config.embedding_model.clear();

    let form = MemoryConfigForm::from_config(&config);

    assert!(!form.enabled);
    assert_eq!(form.provider, "openai");
    assert_eq!(form.model, "gpt-4.1-mini");
}

#[test]
fn selecting_provider_updates_model_to_provider_default() {
    let config = test_config();
    let mut form = MemoryConfigForm {
        enabled: false,
        provider: "openai".to_string(),
        model: "custom".to_string(),
    };

    form.set_provider(&config, "anthropic".to_string());

    assert_eq!(form.provider, "anthropic");
    assert_eq!(form.model, "sonnet-3-7-latest");
}

#[test]
fn apply_form_updates_memory_embedding_config() {
    let config = test_config();
    let form = MemoryConfigForm {
        enabled: true,
        provider: "anthropic".to_string(),
        model: "text-embedding-custom".to_string(),
    };

    let updated = apply_memory_form(config, &form).expect("form should apply");

    assert!(updated.embedding_enabled);
    assert_eq!(updated.embedding_provider, "anthropic");
    assert_eq!(updated.embedding_model, "text-embedding-custom");
}

#[test]
fn apply_form_rejects_unknown_provider() {
    let config = test_config();
    let form = MemoryConfigForm {
        enabled: false,
        provider: "missing".to_string(),
        model: "text-embedding-3-small".to_string(),
    };

    let err = apply_memory_form(config, &form).expect_err("provider should be rejected");

    assert!(err.contains("not available"));
}

#[test]
fn resolve_provider_falls_back_to_first_provider_by_name() {
    let mut config = test_config();
    config.model_provider = "gone".to_string();
    assert_eq!(MemoryConfigForm::resolve_provider(&config, Some(" nope ")), "anthropic");
    assert_eq!(MemoryConfigForm::resolve_provider(&config, Some(" openai ")), "openai");
    assert_eq!(MemoryConfigForm::provider_default_model(&config, "nope"), "");
    let empty = ProviderConfig {
        model_providers: KeyedMap::new(),
        ..ProviderConfig::default()
    };
    assert_eq!(MemoryConfigForm::resolve_provider(&empty, None), "");
    let form = MemoryConfigForm { enabled: true, provider: " ".to_string(), model: "m".to_string() };
    assert_eq!(
        apply_memory_form(test_config(), &form).map(|_| ()),
        Err("Provider cannot be empty".to_string())
    );
    let form = MemoryConfigForm { enabled: true, provider: "openai".to_string(), model: " ".to_string() };
    assert_eq!(
        apply_memory_form(test_config(), &form).map(|_| ()),
        Err("Model cannot be empty".to_string())
    );
}

#[test]
fn filter_long_term_records_applies_status_kind_and_topic() {
    let records = vec![
        long_term_record(
            "1",
            "Default language is Chinese",
            LongTermMemoryKind::Preference,
            LongTermMemoryStatus::Active,
            Some("reply_language"),
        ),
        long_term_record(
            "2",
            "Default language is English",
            LongTermMemoryKind::Preference,
            LongTermMemoryStatus::Superseded,
            Some("reply_language"),
        ),
        long_term_record(
            "3",
            "Follow project rule",
            LongTermMemoryKind::ProjectRule,
            LongTermMemoryStatus::Active,
            Some("code_style"),
        ),
    ];

    let filtered =
        filter_long_term_records(&records, StatusFilter::Active, KindFilter::Preference, "reply");

    assert_eq!(filtered.len(), 1);
    assert_eq!(filtered[0].id, "1");
}

#[test]
fn filters_default_missing_metadata_and_ignore_topic_case() {
    let mut plain = long_term_record(
        "p",
        "no metadata",
        LongTermMemoryKind::Identity,
        LongTermMemoryStatus::Archived,
        None,
    );
    plain.status = None;
    plain.kind = None;
    let records = vec![
        plain,
        long_term_record("t", "x", LongTermMemoryKind::Fact, LongTermMemoryStatus::Rejected, Some("Reply_Language")),
    ];
    let all = filter_long_term_records(&records, StatusFilter::All, KindFilter::All, "  ");
    assert_eq!(all.len(), 2);
    let facts = filter_long_term_records(&records, StatusFilter::Active, KindFilter::Fact, "");
    assert_eq!(facts.len(), 1);
    assert_eq!(facts[0].id, "p");
    let topic = filter_long_term_records(&records, StatusFilter::All, KindFilter::All, " REPLY ");
    assert_eq!(topic.len(), 1);
    assert_eq!(topic[0].id, "t");
    assert_eq!(selected_long_term_record(&all, Some("t")).unwrap().id, "t");
    assert_eq!(selected_long_term_record(&all, Some("zzz")).unwrap().id, "p");
    assert!(selected_long_term_record(&Vec::<&MemoryRecord>::new(), Some("t")).is_none());
    assert_eq!(count_records_with_status(&records, None), 2);
    assert_eq!(count_records_with_status(&records, Some(LongTermMemoryStatus::Active)), 1);
    assert_eq!(count_records_with_status(&records, Some(LongTermMemoryStatus::Archived)), 0);
    assert_eq!(StatusFilter::Superseded.label(), "Superseded");
    assert_eq!(KindFilter::All.label(), "All kinds");
    assert_eq!(KindFilter::ProjectRule.label(), "project_rule");
}

#[test]
fn governance_summary_renders_supersedes_information() {
    let mut record = long_term_record(
        "1",
        "Use Chinese",
        LongTermMemoryKind::Preference,
        LongTermMemoryStatus::Active,
        None,
    );
    record.supersedes = MetadataField::List(vec![Some("old-1".to_string())]);
    record.superseded_by = MetadataField::Text("new-2".to_string());

    let summary = governance_summary(&record);
    assert!(summary.contains("old-1"));
    assert!(summary.contains("new-2"));
}

#[test]
fn governance_summary_covers_every_combination() {
    let mut record = long_term_record("1", "c", LongTermMemoryKind::Fact, LongTermMemoryStatus::Active, None);
    assert_eq!(governance_summary(&record), "-");
    record.supersedes = MetadataField::List(vec![Some("a".to_string()), None, Some("b".to_string())]);
    assert_eq!(governance_summary(&record), "supersedes: a, b");
    record.superseded_by = MetadataField::Text("  n  ".to_string());
    assert_eq!(governance_summary(&record), "supersedes: a, b; superseded_by: n");
    record.supersedes = MetadataField::Other;
    assert_eq!(governance_summary(&record), "superseded_by: n");
    assert_eq!(read_string_field(&MetadataField::Text("   ".to_string())), None);
    assert_eq!(read_string_list_field(&MetadataField::Text("x".to_string())), vec!["x"]);
    assert!(read_string_list_field(&MetadataField::Missing).is_empty());
}

#[test]
fn aggregate_session_key_options_dedupes_base_and_active_keys() {
    let sessions = vec![
        session_index("base-1", Some("active-1")),
        session_index("base-2", Some("active-1")),
        session_index("base-1", None),
    ];

    let options = aggregate_session_key_options(&sessions);

    assert_eq!(options, vec!["base-1", "active-1", "base-2"]);
}

#[test]
fn aggregate_session_key_options_skips_blank_active_keys() {
    let sessions = vec![session_index("a", Some("  ")), session_index("b", Some("a"))];
    assert_eq!(aggregate_session_key_options(&sessions), vec!["a", "b"]);
}

use klaw_gui::memory::{session_match_parts, split_whitespace_words, MatchParts};

#[test]
fn session_match_parts_report_phrase_words_and_role() {
    assert_eq!(
        session_match_parts("deploy rollback procedure", "assistant", " Deploy Rollback "),
        Some(MatchParts { phrase_match: true, token_hits: 2, token_count: 2, assistant: true })
    );
    assert_eq!(
        session_match_parts("deploy rollback", "user", "rollback"),
        Some(MatchParts { phrase_match: true, token_hits: 1, token_count: 1, assistant: false })
    );
    assert_eq!(
        session_match_parts("rollback done", "user", "deploy rollback"),
        Some(MatchParts { phrase_match: false, token_hits: 1, token_count: 2, assistant: false })
    );
    assert_eq!(session_match_parts("anything", "user", "   "), None);
    assert_eq!(session_match_parts("anything", "user", "other"), None);
}

#[test]
fn whitespace_words_split_like_split_whitespace() {
    let text = "  a bc\t\n d  ";
    let words: Vec<String> = split_whitespace_words(&text.chars().collect())
        .into_iter()
        .map(|w| w.into_iter().collect())
        .collect();
    let expected: Vec<String> = text.split_whitespace().map(ToString::to_string).collect();
    assert_eq!(words, expected);
    assert!(split_whitespace_words(&Vec::new()).is_empty());
}

use klaw_gui::panels::Notice;
use klaw_gui::memory::{
    pick_session_key, session_keys_to_search, session_search_request, LoadPoll, OverviewLoader,
    SearchPoll, SearchStart, SessionSearchForm, SessionSearchState,
};

fn search_form(key: &str, query: &str, days: &str, limit: &str) -> SessionSearchForm {
    SessionSearchForm {
        session_key: key.to_string(),
        query: query.to_string(),
        within_days: days.to_string(),
        limit: limit.to_string(),
    }
}

#[test]
fn session_search_form_defaults() {
    let f = SessionSearchForm::new();
    assert_eq!(f.within_days, "3");
    assert_eq!(f.limit, "8");
    assert!(f.session_key.is_empty() && f.query.is_empty());
}

#[test]
fn session_search_request_checks_fields_in_order() {
    let err = |f: SessionSearchForm| session_search_request(&f).unwrap_err();
    assert_eq!(err(search_form(" ", "q", "3", "8")), "Session search requires a session key");
    assert_eq!(err(search_form("k", "  ", "3", "8")), "Session search requires a query");
    assert_eq!(err(search_form("k", "q", "0", "8")), "within_days must be a positive integer");
    assert_eq!(err(search_form("k", "q", "-2", "8")), "within_days must be a positive integer");
    assert_eq!(err(search_form("k", "q", "3", "0")), "limit must be a positive integer");
    assert_eq!(err(search_form("k", "q", "3", "x")), "limit must be a positive integer");

    let ok = session_search_request(&search_form(" dm:1 ", " hello world ", " 7 ", "+5")).unwrap();
    assert_eq!(ok.session_key, "dm:1");
    assert_eq!(ok.query, "hello world");
    assert_eq!(ok.within_days, 7);
    assert_eq!(ok.limit, 5);
}

#[test]
fn session_keys_cover_base_active_and_input() {
    let (base, keys) = session_keys_to_search("dm:1:child", Some("dm:1".to_string()), Some("dm:1:new".to_string()));
    assert_eq!(base, "dm:1");
    assert_eq!(keys, vec!["dm:1".to_string(), "dm:1:new".to_string(), "dm:1:child".to_string()]);

    let (base, keys) = session_keys_to_search("dm:1", None, Some("  ".to_string()));
    assert_eq!(base, "dm:1");
    assert_eq!(keys, vec!["dm:1".to_string()]);

    let (_, keys) = session_keys_to_search("dm:1:new", Some("dm:1".to_string()), Some("dm:1:new".to_string()));
    assert_eq!(keys, vec!["dm:1".to_string(), "dm:1:new".to_string()]);
}

#[test]
fn overview_reload_asked_while_loading_runs_afterwards() {
    let mut loader = OverviewLoader::new();
    assert!(loader.ensure_loaded());
    assert!(!loader.ensure_loaded());
    assert!(!loader.refresh());
    assert!(loader.refresh_queued);

    let pending = loader.poll_load(LoadPoll::Pending);
    assert!(pending.notice.is_none() && !pending.send);

    let done = loader.poll_load(LoadPoll::Loaded);
    assert!(done.notice.is_none());
    assert!(done.send);
    assert!(loader.loaded && loader.loading && !loader.refresh_queued);

    let failed = loader.poll_load(LoadPoll::Failed("db closed".to_string()));
    assert!(!failed.send);
    match failed.notice {
        Some(Notice::Error(m)) => assert_eq!(m, "Failed to load memory panel: db closed"),
        other => panic!("unexpected: {other:?}"),
    }
    assert!(!loader.loading && !loader.request_running);
    assert!(!loader.ensure_loaded());
}

#[test]
fn overview_loader_disconnect_is_reported() {
    let mut loader = OverviewLoader::new();
    assert!(loader.refresh());
    let out = loader.poll_load(LoadPoll::Disconnected);
    match out.notice {
        Some(Notice::Error(m)) => assert_eq!(m, "Memory panel loader closed unexpectedly"),
        other => panic!("unexpected: {other:?}"),
    }
    assert!(!out.send && !loader.loaded && !loader.loading);
}

#[test]
fn pick_session_key_keeps_known_keys() {
    let options = vec!["a".to_string(), "b".to_string()];
    assert_eq!(pick_session_key("b", &options), "b");
    assert_eq!(pick_session_key("c", &options), "a");
    assert_eq!(pick_session_key("  ", &options), "a");
    assert_eq!(pick_session_key("c", &Vec::new()), "");
}

#[test]
fn session_search_runs_one_at_a_time() {
    let mut state = SessionSearchState { loading: false };
    match state.begin_session_search(&search_form("k", "", "3", "8")) {
        SearchStart::Refused(m) => assert_eq!(m, "Session search requires a query"),
        other => panic!("unexpected: {other:?}"),
    }
    assert!(!state.loading);
    assert!(matches!(state.begin_session_search(&search_form("k", "q", "3", "8")), SearchStart::Start(_)));
    assert!(matches!(state.begin_session_search(&search_form("k", "q", "3", "8")), SearchStart::Busy));

    let pending = state.poll_session_search::<u32>(SearchPoll::Pending);
    assert!(pending.output.is_none() && state.loading);
    let done = state.poll_session_search(SearchPoll::Done(Ok(4u32)));
    assert_eq!(done.output, Some(4));
    assert!(!state.loading);

    assert!(matches!(state.begin_session_search(&search_form("k", "q", "3", "8")), SearchStart::Start(_)));
    let failed = state.poll_session_search::<u32>(SearchPoll::Done(Err("io".to_string())));
    match failed.notice {
        Some(Notice::Error(m)) => assert_eq!(m, "Session search failed: io"),
        other => panic!("unexpected: {other:?}"),
    }
}

#[test]
fn opening_the_embedding_form_and_saving_it_unchanged_keeps_the_settings() {
    let mut config = test_config();
    config.embedding_enabled = true;
    config.embedding_provider = "anthropic".to_string();
    config.embedding_model = "embed-large".to_string();

    let form = MemoryConfigForm::from_config(&config);
    let updated = apply_memory_form(config, &form).expect("unchanged form applies");

    assert!(updated.embedding_enabled);
    assert_eq!(updated.embedding_provider, "anthropic");
    assert_eq!(updated.embedding_model, "embed-large");
}
