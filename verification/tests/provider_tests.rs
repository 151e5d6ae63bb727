use klaw_gui::provider::{ModelProviderConfig, ProviderConfig, ProviderForm, ProviderPanel};

fn anthropic() -> ModelProviderConfig {
    ModelProviderConfig {
        base_url: "https://api.anthropic.com/v1".to_string(),
        wire_api: "responses".to_string(),
        default_model: "sonnet-4".to_string(),
        ..ModelProviderConfig::default()
    }
}

#[test]
fn apply_form_add_provider_sets_active_when_requested() {
    let config = ProviderConfig::default();
    let mut form = ProviderForm::new();
    form.id = "anthropic".to_string();
    form.name = "Anthropic".to_string();
    form.base_url = "https://api.anthropic.com/v1".to_string();
    form.wire_api = "responses".to_string();
    form.default_model = "sonnet-3-7-latest".to_string();
    form.env_key = "ANTHROPIC_API_KEY".to_string();
    form.set_as_active = true;

    let updated = ProviderPanel::apply_form(config, &form).expect("form should apply");

    assert_eq!(updated.model_provider, "anthropic");
    assert!(updated.model_providers.contains_key("anthropic"));
    assert_eq!(
        updated.model_providers.get("anthropic").unwrap().env_key.as_deref(),
        Some("ANTHROPIC_API_KEY")
    );
}

#[test]
fn apply_form_rename_provider_updates_references() {
    let mut config = ProviderConfig::default();
    config.embedding_provider = "openai".to_string();

    let source = config
        .model_providers
        .get("openai")
        .expect("default provider should exist");
    let mut form = ProviderForm::edit("openai", source, &config.model_provider);
    form.id = "openai-main".to_string();

    let updated = ProviderPanel::apply_form(config, &form).expect("form should apply");

    assert_eq!(updated.model_provider, "openai-main");
    assert_eq!(updated.embedding_provider, "openai-main");
    assert!(updated.model_providers.contains_key("openai-main"));
    assert!(!updated.model_providers.contains_key("openai"));
}

#[test]
fn apply_form_preserves_stream_flag() {
    let config = ProviderConfig::default();
    let mut form = ProviderForm::new();
    form.id = "openai-stream".to_string();
    form.base_url = "https://api.openai.com/v1".to_string();
    form.wire_api = "responses".to_string();
    form.default_model = "gpt-4.1-mini".to_string();
    form.stream = true;

    let updated = ProviderPanel::apply_form(config, &form).expect("form should apply");

    assert!(updated.model_providers.get("openai-stream").unwrap().stream);
}

#[test]
fn apply_form_rejects_duplicate_provider_id() {
    let config = ProviderConfig::default();
    let mut form = ProviderForm::new();
    form.id = "openai".to_string();

    let err = ProviderPanel::apply_form(config, &form).expect_err("duplicate id should fail");

    assert!(err.contains("already exists"));
}

#[test]
fn remove_provider_deletes_non_active_provider() {
    let mut config = ProviderConfig::default();
    config.model_providers.insert("anthropic".to_string(), anthropic());

    let updated =
        ProviderPanel::remove_provider(config, "anthropic").expect("delete should succeed");

    assert!(!updated.model_providers.contains_key("anthropic"));
    assert!(updated.model_providers.contains_key("openai"));
}

#[test]
fn remove_provider_rejects_active_provider() {
    let config = ProviderConfig::default();

    let err = ProviderPanel::remove_provider(config, "openai").expect_err("active delete should fail");

    assert!(err.contains("Cannot delete active provider"));
}

#[test]
fn remove_provider_rejects_memory_embedding_provider() {
    let mut config = ProviderConfig::default();
    config.model_providers.insert("anthropic".to_string(), anthropic());
    config.embedding_enabled = true;
    config.embedding_provider = "anthropic".to_string();

    let err = ProviderPanel::remove_provider(config, "anthropic")
        .expect_err("embedding provider delete should fail");

    assert!(err.contains("memory embedding"));
}

#[test]
fn provider_form_messages_and_trimming() {
    let mut form = ProviderForm::new();
    assert_eq!(form.title(), "Add Provider");
    assert_eq!(
        ProviderPanel::apply_form(ProviderConfig::default(), &form).map(|_| ()),
        Err("Provider ID cannot be empty".to_string())
    );
    form.id = "  extra  ".to_string();
    form.base_url = " ".to_string();
    assert_eq!(
        ProviderPanel::apply_form(ProviderConfig::default(), &form).map(|_| ()),
        Err("Base URL cannot be empty".to_string())
    );
    form.base_url = " https://x ".to_string();
    form.wire_api = String::new();
    assert_eq!(
        ProviderPanel::apply_form(ProviderConfig::default(), &form).map(|_| ()),
        Err("Wire API cannot be empty".to_string())
    );
    form.wire_api = "chat".to_string();
    form.default_model = "\t".to_string();
    assert_eq!(
        ProviderPanel::apply_form(ProviderConfig::default(), &form).map(|_| ()),
        Err("Default model cannot be empty".to_string())
    );
    form.default_model = " m ".to_string();
    form.api_key = "   ".to_string();
    form.tokenizer_path = " tok.json ".to_string();
    let updated = ProviderPanel::apply_form(ProviderConfig::default(), &form).expect("applies");
    let saved = updated.model_providers.get("extra").unwrap();
    assert_eq!(form.normalized_id(), "extra");
    assert_eq!(saved.base_url, "https://x");
    assert_eq!(saved.default_model, "m");
    assert_eq!(saved.api_key, None);
    assert_eq!(saved.tokenizer_path.as_deref(), Some("tok.json"));
    assert_eq!(updated.model_provider, "openai");

    let mut dup = ProviderForm::edit("extra", saved, &updated.model_provider);
    assert_eq!(dup.title(), "Edit Provider");
    assert!(!dup.set_as_active);
    dup.id = "openai".to_string();
    assert_eq!(
        ProviderPanel::apply_form(updated, &dup).map(|_| ()),
        Err("Provider ID 'openai' already exists, choose another ID".to_string())
    );
    assert_eq!(
        ProviderPanel::remove_provider(ProviderConfig::default(), "nope").map(|_| ()),
        Err("Provider 'nope' not found".to_string())
    );
}

#[test]
fn opening_forms_prefills_from_the_configuration() {
    let mut panel = ProviderPanel {
        config: ProviderConfig::default(),
        form: None,
        selected_provider: None,
        delete_confirm: None,
    };
    panel.open_add_provider();
    assert!(!panel.form.as_ref().unwrap().set_as_active);
    panel.open_edit_provider("openai");
    let form = panel.form.as_ref().unwrap();
    assert_eq!(form.original_id.as_deref(), Some("openai"));
    assert!(form.set_as_active);
    assert_eq!(form.env_key, "OPENAI_API_KEY");
}

use klaw_gui::panels::Notice;
use klaw_gui::provider::{sync_messages, ActivateRefusal, ProviderChange, ProviderRuntime};

fn two_providers() -> ProviderConfig {
    let mut config = ProviderConfig::default();
    config.model_providers.insert("anthropic".to_string(), anthropic());
    config
}

#[test]
fn activate_provider_switches_active_provider() {
    let updated = ProviderPanel::activate_provider(two_providers(), "anthropic").expect("known provider");
    assert_eq!(updated.model_provider, "anthropic");
    assert_eq!(updated.embedding_provider, "openai");
    assert_eq!(updated.model_providers.len(), 2);
}

#[test]
fn activate_provider_refuses_missing_and_active() {
    match ProviderPanel::activate_provider(two_providers(), "missing") {
        Err(ActivateRefusal::NotFound(m)) => assert_eq!(m, "Provider 'missing' not found"),
        other => panic!("unexpected: {other:?}"),
    }
    match ProviderPanel::activate_provider(two_providers(), "openai") {
        Err(ActivateRefusal::AlreadyActive(m)) => {
            assert_eq!(m, "Provider 'openai' is already active")
        }
        other => panic!("unexpected: {other:?}"),
    }
}

#[test]
fn forget_deleted_provider_clears_only_that_selection() {
    let mut panel = ProviderPanel {
        config: two_providers(),
        form: None,
        selected_provider: Some("anthropic".to_string()),
        delete_confirm: None,
    };
    panel.forget_deleted_provider("openai");
    assert_eq!(panel.selected_provider.as_deref(), Some("anthropic"));
    panel.forget_deleted_provider("anthropic");
    assert_eq!(panel.selected_provider, None);
}

#[test]
fn sync_messages_name_the_provider() {
    let (ok, failed) = sync_messages(ProviderChange::Activated, "anthropic");
    assert_eq!(ok, "Set active provider to 'anthropic' and synced running runtime");
    assert_eq!(
        failed,
        "Saved active provider to 'anthropic', but failed to sync running runtime"
    );
    let (ok, _) = sync_messages(ProviderChange::Deleted, "old");
    assert_eq!(ok, "Deleted provider 'old' and synced runtime");
    let (ok, failed) = sync_messages(ProviderChange::Saved, "ignored");
    assert_eq!(ok, "Provider configuration saved and runtime synced");
    assert_eq!(
        failed,
        "Provider configuration saved, but failed to sync running runtime"
    );
}

#[test]
fn status_requests_follow_the_poll_interval() {
    let mut runtime: ProviderRuntime<u32> = ProviderRuntime::new();
    assert!(runtime.refresh_runtime_status(None, 0));
    assert!(!runtime.refresh_runtime_status(None, 5000));
    assert!(!runtime.refresh_runtime_status(Some(Ok(7)), 1999));
    assert_eq!(runtime.runtime_status, Some(7));
    assert!(!runtime.status_waiting);
    assert!(runtime.refresh_runtime_status(None, 2000));
    assert!(!runtime.refresh_runtime_status(Some(Err("down".to_string())), 100));
    assert_eq!(runtime.runtime_status, Some(7));
}

#[test]
fn runtime_sync_reports_success_and_failure() {
    let mut runtime: ProviderRuntime<u32> = ProviderRuntime::new();
    assert!(runtime.poll_runtime_sync(Some(Ok(1))).is_none());

    let (ok, failed) = sync_messages(ProviderChange::Saved, "");
    runtime.begin_runtime_sync(ok, failed);
    assert!(runtime.poll_runtime_sync(None).is_none());
    match runtime.poll_runtime_sync(Some(Ok(3))) {
        Some(Notice::Success(m)) => assert_eq!(m, "Provider configuration saved and runtime synced"),
        other => panic!("unexpected: {other:?}"),
    }
    assert_eq!(runtime.runtime_status, Some(3));

    let (ok, failed) = sync_messages(ProviderChange::Deleted, "old");
    runtime.begin_runtime_sync(ok, failed);
    match runtime.poll_runtime_sync(Some(Err("timeout".to_string()))) {
        Some(Notice::Error(m)) => assert_eq!(
            m,
            "Deleted provider 'old', but failed to sync running runtime: timeout"
        ),
        other => panic!("unexpected: {other:?}"),
    }
    assert!(!runtime.sync_waiting);
    assert_eq!(runtime.sync_success_message, None);
}

#[test]
fn editing_a_provider_and_saving_it_unchanged_keeps_it() {
    let mut config = two_providers();
    let mut provider = anthropic();
    provider.name = Some("Anthropic".to_string());
    provider.tokenizer_path = Some("/tmp/tokenizer.json".to_string());
    provider.env_key = Some("ANTHROPIC_API_KEY".to_string());
    provider.proxy = true;
    provider.stream = true;
    config.model_providers.insert("anthropic".to_string(), provider);

    let source = config.model_providers.get("anthropic").unwrap();
    let form = ProviderForm::edit("anthropic", source, &config.model_provider);
    let updated = ProviderPanel::apply_form(config, &form).expect("unchanged form applies");

    let saved = updated.model_providers.get("anthropic").unwrap();
    assert_eq!(saved.name.as_deref(), Some("Anthropic"));
    assert_eq!(saved.base_url, "https://api.anthropic.com/v1");
    assert_eq!(saved.wire_api, "responses");
    assert_eq!(saved.default_model, "sonnet-4");
    assert_eq!(saved.tokenizer_path.as_deref(), Some("/tmp/tokenizer.json"));
    assert_eq!(saved.env_key.as_deref(), Some("ANTHROPIC_API_KEY"));
    assert!(saved.proxy);
    assert!(saved.stream);
    assert_eq!(updated.model_provider, "openai");
    assert_eq!(updated.model_providers.len(), 2);
}
