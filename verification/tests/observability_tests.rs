use klaw_gui::keyed::KeyedMap;
use klaw_gui::observability::{
    delete_price_entry, flattened_price_rows, known_providers, parse_config_from_buffers,
    save_price_entry, sync_buffers_from_config, ObservabilityBuffers, ObservabilitySettings,
    PriceForm, SampleRateCheck,
};
use klaw_gui::provider::{ModelProviderConfig, ProviderConfig};

fn sample_settings() -> ObservabilitySettings {
    ObservabilitySettings {
        endpoint: "http://localhost:4317".to_string(),
        service_name: "klaw".to_string(),
        service_version: "0.1.0".to_string(),
        prometheus_port: 9464,
        prometheus_path: "/metrics".to_string(),
        audit_output_path: None,
        export_interval_seconds: 60,
        retention_days: 7,
        flush_interval_seconds: 5,
    }
}

fn buffers_with(f: impl FnOnce(&mut ObservabilityBuffers)) -> ObservabilityBuffers {
    let mut b = sync_buffers_from_config(&sample_settings(), "0.10".to_string());
    f(&mut b);
    b
}

#[test]
fn buffers_show_settings_as_text() {
    let b = sync_buffers_from_config(&sample_settings(), "1.00".to_string());
    assert_eq!(b.prometheus_port, "9464");
    assert_eq!(b.export_interval, "60");
    assert_eq!(b.retention_days, "7");
    assert_eq!(b.flush_interval, "5");
    assert_eq!(b.audit_output_path, "");
    assert_eq!(b.sample_rate, "1.00");
}

#[test]
fn buffers_read_back_as_the_same_settings() {
    let b = sync_buffers_from_config(&sample_settings(), "0.10".to_string());
    let s = parse_config_from_buffers(&b, SampleRateCheck::Valid).expect("valid fields");
    assert_eq!(s.endpoint, "http://localhost:4317");
    assert_eq!(s.service_name, "klaw");
    assert_eq!(s.prometheus_port, 9464);
    assert_eq!(s.prometheus_path, "/metrics");
    assert_eq!(s.audit_output_path, None);
    assert_eq!(s.export_interval_seconds, 60);
    assert_eq!(s.retention_days, 7);
    assert_eq!(s.flush_interval_seconds, 5);
}

#[test]
fn parse_trims_texts_and_reads_audit_path() {
    let b = buffers_with(|b| {
        b.endpoint = "  http://collector:4317 ".to_string();
        b.audit_output_path = "  /var/log/audit.jsonl ".to_string();
        b.prometheus_port = " 9100 ".to_string();
    });
    let s = parse_config_from_buffers(&b, SampleRateCheck::Valid).expect("valid fields");
    assert_eq!(s.endpoint, "http://collector:4317");
    assert_eq!(s.audit_output_path.as_deref(), Some("/var/log/audit.jsonl"));
    assert_eq!(s.prometheus_port, 9100);

    let blank = buffers_with(|b| b.audit_output_path = "   ".to_string());
    let s = parse_config_from_buffers(&blank, SampleRateCheck::Valid).expect("valid fields");
    assert_eq!(s.audit_output_path, None);
}

#[test]
fn parse_refuses_each_field_in_screen_order() {
    let cases: Vec<(ObservabilityBuffers, SampleRateCheck, &str)> = vec![
        (
            buffers_with(|b| b.prometheus_port = "70000".to_string()),
            SampleRateCheck::Valid,
            "obs-validation-prometheus-port-invalid",
        ),
        (
            buffers_with(|b| b.prometheus_port = "0".to_string()),
            SampleRateCheck::Unparsable,
            "obs-validation-prometheus-port-zero",
        ),
        (buffers_with(|_| {}), SampleRateCheck::Unparsable, "obs-validation-sample-rate-invalid"),
        (buffers_with(|_| {}), SampleRateCheck::OutOfRange, "obs-validation-sample-rate-range"),
        (
            buffers_with(|b| b.export_interval = "soon".to_string()),
            SampleRateCheck::Valid,
            "obs-validation-export-interval-invalid",
        ),
        (
            buffers_with(|b| b.export_interval = "0".to_string()),
            SampleRateCheck::Valid,
            "obs-validation-export-interval-zero",
        ),
        (
            buffers_with(|b| b.retention_days = "-1".to_string()),
            SampleRateCheck::Valid,
            "obs-validation-retention-days-invalid",
        ),
        (
            buffers_with(|b| b.retention_days = "0".to_string()),
            SampleRateCheck::Valid,
            "obs-validation-retention-days-zero",
        ),
        (
            buffers_with(|b| b.flush_interval = "".to_string()),
            SampleRateCheck::Valid,
            "obs-validation-flush-interval-invalid",
        ),
        (
            buffers_with(|b| b.flush_interval = "0".to_string()),
            SampleRateCheck::Valid,
            "obs-validation-flush-interval-zero",
        ),
    ];
    for (b, rate, expected) in cases {
        let err = parse_config_from_buffers(&b, rate).expect_err("refused");
        assert_eq!(err, expected);
    }
}

#[test]
fn price_form_titles_and_names() {
    let add: PriceForm<(u32, u32)> = PriceForm::new((0, 0));
    assert_eq!(add.title_key(), "obs-price-form-title-add");
    assert_eq!(add.validate_names().unwrap_err(), "obs-validation-price-provider-empty");

    let mut edit = PriceForm::edit("openai", "gpt-4o", (5, 15));
    assert_eq!(edit.title_key(), "obs-price-form-title-edit");
    edit.model = "   ".to_string();
    assert_eq!(edit.validate_names().unwrap_err(), "obs-validation-price-model-empty");
    edit.provider = " openai ".to_string();
    edit.model = " gpt-4o-mini ".to_string();
    assert_eq!(
        edit.validate_names().unwrap(),
        ("openai".to_string(), "gpt-4o-mini".to_string())
    );
}

fn price_table() -> KeyedMap<KeyedMap<u32>> {
    let mut table: KeyedMap<KeyedMap<u32>> = KeyedMap::new();
    assert!(save_price_entry(&mut table, &None, &None, "openai".into(), "gpt-4o".into(), 5).is_ok());
    assert!(save_price_entry(&mut table, &None, &None, "anthropic".into(), "sonnet-4".into(), 3).is_ok());
    assert!(save_price_entry(&mut table, &None, &None, "openai".into(), "gpt-4o-mini".into(), 1).is_ok());
    table
}

fn rows(table: &KeyedMap<KeyedMap<u32>>) -> Vec<(String, String, u32)> {
    flattened_price_rows(table)
        .into_iter()
        .map(|(p, m, v)| (p, m, *v))
        .collect()
}

#[test]
fn price_rows_are_sorted_by_provider_then_model() {
    let table = price_table();
    assert_eq!(
        rows(&table),
        vec![
            ("anthropic".to_string(), "sonnet-4".to_string(), 3),
            ("openai".to_string(), "gpt-4o".to_string(), 5),
            ("openai".to_string(), "gpt-4o-mini".to_string(), 1),
        ]
    );
}

#[test]
fn adding_a_listed_price_is_refused() {
    let mut table = price_table();
    let refused = save_price_entry(&mut table, &None, &None, "openai".into(), "gpt-4o".into(), 99);
    assert_eq!(refused, Err(99));
    assert_eq!(rows(&table).len(), 3);
    assert_eq!(rows(&table)[1].2, 5);
}

#[test]
fn editing_a_price_moves_it_and_keeps_the_old_provider() {
    let mut table = price_table();
    let saved = save_price_entry(
        &mut table,
        &Some("anthropic".to_string()),
        &Some("sonnet-4".to_string()),
        "openai".into(),
        "gpt-4o".into(),
        7,
    );
    assert_eq!(saved, Ok(()));
    assert_eq!(
        rows(&table),
        vec![
            ("openai".to_string(), "gpt-4o".to_string(), 7),
            ("openai".to_string(), "gpt-4o-mini".to_string(), 1),
        ]
    );
    assert!(table.contains_key("anthropic"));
    assert_eq!(table.get("anthropic").map(|m| m.len()), Some(0));
}

#[test]
fn deleting_the_last_model_drops_the_provider() {
    let mut table = price_table();
    delete_price_entry(&mut table, "anthropic", "sonnet-4");
    assert!(!table.contains_key("anthropic"));
    delete_price_entry(&mut table, "openai", "gpt-4o");
    assert!(table.contains_key("openai"));
    assert_eq!(rows(&table), vec![("openai".to_string(), "gpt-4o-mini".to_string(), 1)]);
    delete_price_entry(&mut table, "missing", "model");
    assert_eq!(rows(&table).len(), 1);
}

#[test]
fn add_then_delete_gives_back_the_prices() {
    let mut table = price_table();
    let before = rows(&table);
    assert!(save_price_entry(&mut table, &None, &None, "google".into(), "gemini".into(), 2).is_ok());
    delete_price_entry(&mut table, "google", "gemini");
    assert_eq!(rows(&table), before);
}

#[test]
fn known_providers_are_sorted() {
    let mut config = ProviderConfig::new();
    config
        .model_providers
        .insert("zeta".to_string(), ModelProviderConfig::openai());
    config
        .model_providers
        .insert("alpha".to_string(), ModelProviderConfig::openai());
    assert_eq!(
        known_providers(&config),
        vec!["alpha".to_string(), "openai".to_string(), "zeta".to_string()]
    );
}
