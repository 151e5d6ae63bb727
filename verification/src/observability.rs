use vstd::prelude::*;

use crate::keyed::KeyedMap;
use crate::numbers;
use crate::provider::ProviderConfig;
use crate::text;
use crate::tool::{field_number, parse_field_u64};

verus! {

// ---------------------------------------------------------------------------
// Settings edited through text fields
// ---------------------------------------------------------------------------

/// The observability settings that the panel edits through text fields: all of them
/// but the trace sample rate, which is a fraction.
#[derive(Debug)]
pub struct ObservabilitySettings {
    pub endpoint: String,
    pub service_name: String,
    pub service_version: String,
    pub prometheus_port: u16,
    pub prometheus_path: String,
    pub audit_output_path: Option<String>,
    pub export_interval_seconds: u64,
    pub retention_days: u16,
    pub flush_interval_seconds: u64,
}

/// The text fields of the observability panel.
#[derive(Debug)]
pub struct ObservabilityBuffers {
    pub endpoint: String,
    pub service_name: String,
    pub service_version: String,
    pub prometheus_port: String,
    pub prometheus_path: String,
    pub audit_output_path: String,
    pub sample_rate: String,
    pub export_interval: String,
    pub retention_days: String,
    pub flush_interval: String,
}

/// What the sample-rate field holds: a fraction from 0 to 1, something that is no
/// number, or a number outside that range.
#[derive(Clone, Copy, Debug, PartialEq, Eq, Structural)]
pub enum SampleRateCheck {
    Valid,
    Unparsable,
    OutOfRange,
}

/// The text shown for an optional path: the path, or nothing.
pub open spec fn optional_text(o: Option<String>) -> Seq<char> {
    match o {
        Some(s) => s@,
        None => Seq::empty(),
    }
}

/// Whether the fields `b` show the settings `s` (the sample rate aside).
pub open spec fn buffers_show(b: ObservabilityBuffers, s: ObservabilitySettings) -> bool {
    &&& b.endpoint@ == s.endpoint@
    &&& b.service_name@ == s.service_name@
    &&& b.service_version@ == s.service_version@
    &&& b.prometheus_port@ == numbers::decimal_digits(s.prometheus_port as nat)
    &&& b.prometheus_path@ == s.prometheus_path@
    &&& b.audit_output_path@ == optional_text(s.audit_output_path)
    &&& b.export_interval@ == numbers::decimal_digits(s.export_interval_seconds as nat)
    &&& b.retention_days@ == numbers::decimal_digits(s.retention_days as nat)
    &&& b.flush_interval@ == numbers::decimal_digits(s.flush_interval_seconds as nat)
}

/// Fills the text fields from the settings; the sample rate comes already written.
pub fn sync_buffers_from_config(s: &ObservabilitySettings, sample_rate: String) -> (b: ObservabilityBuffers)
    ensures
        buffers_show(b, *s),
        b.sample_rate@ == sample_rate@,
{
    ObservabilityBuffers {
        endpoint: s.endpoint.clone(),
        service_name: s.service_name.clone(),
        service_version: s.service_version.clone(),
        prometheus_port: numbers::u64_to_string(s.prometheus_port as u64),
        prometheus_path: s.prometheus_path.clone(),
        audit_output_path: match &s.audit_output_path {
            Some(p) => p.clone(),
            None => String::new(),
        },
        sample_rate,
        export_interval: numbers::u64_to_string(s.export_interval_seconds),
        retention_days: numbers::u64_to_string(s.retention_days as u64),
        flush_interval: numbers::u64_to_string(s.flush_interval_seconds),
    }
}

/// The key of the message that refuses the fields `b`, if they are refused; the checks
/// run in the order of the fields on screen.
pub open spec fn buffers_error(b: ObservabilityBuffers, sample_rate: SampleRateCheck) -> Option<Seq<char>> {
    if field_number(b.prometheus_port@, u16::MAX as nat) is None {
        Some("obs-validation-prometheus-port-invalid"@)
    } else if field_number(b.prometheus_port@, u16::MAX as nat) == Some(0nat) {
        Some("obs-validation-prometheus-port-zero"@)
    } else if sample_rate == SampleRateCheck::Unparsable {
        Some("obs-validation-sample-rate-invalid"@)
    } else if sample_rate == SampleRateCheck::OutOfRange {
        Some("obs-validation-sample-rate-range"@)
    } else if field_number(b.export_interval@, u64::MAX as nat) is None {
        Some("obs-validation-export-interval-invalid"@)
    } else if field_number(b.export_interval@, u64::MAX as nat) == Some(0nat) {
        Some("obs-validation-export-interval-zero"@)
    } else if field_number(b.retention_days@, u16::MAX as nat) is None {
        Some("obs-validation-retention-days-invalid"@)
    } else if field_number(b.retention_days@, u16::MAX as nat) == Some(0nat) {
        Some("obs-validation-retention-days-zero"@)
    } else if field_number(b.flush_interval@, u64::MAX as nat) is None {
        Some("obs-validation-flush-interval-invalid"@)
    } else if field_number(b.flush_interval@, u64::MAX as nat) == Some(0nat) {
        Some("obs-validation-flush-interval-zero"@)
    } else {
        None
    }
}

/// The optional path that a field holds: its trimmed text, or none when that is empty.
pub open spec fn optional_field(t: Seq<char>) -> Option<Seq<char>> {
    if text::trim(t).len() == 0 {
        None
    } else {
        Some(text::trim(t))
    }
}

/// Whether `s` holds what the fields `b` say: trimmed texts and the numbers they hold.
pub open spec fn settings_read(b: ObservabilityBuffers, s: ObservabilitySettings) -> bool {
    &&& s.endpoint@ == text::trim(b.endpoint@)
    &&& s.service_name@ == text::trim(b.service_name@)
    &&& s.service_version@ == text::trim(b.service_version@)
    &&& s.prometheus_path@ == text::trim(b.prometheus_path@)
    &&& match s.audit_output_path {
        Some(p) => optional_field(b.audit_output_path@) == Some(p@),
        None => optional_field(b.audit_output_path@) is None,
    }
    &&& field_number(b.prometheus_port@, u16::MAX as nat) == Some(s.prometheus_port as nat)
    &&& field_number(b.export_interval@, u64::MAX as nat) == Some(s.export_interval_seconds as nat)
    &&& field_number(b.retention_days@, u16::MAX as nat) == Some(s.retention_days as nat)
    &&& field_number(b.flush_interval@, u64::MAX as nat) == Some(s.flush_interval_seconds as nat)
}

fn parse_field_u16(value: &str) -> (r: Option<u16>)
    ensures
        match r {
            Some(v) => field_number(value@, u16::MAX as nat) == Some(v as nat),
            None => field_number(value@, u16::MAX as nat) is None,
        },
{
    numbers::parse_u16_chars(&text::trim_vec(&text::to_chars(value)))
}

/// Reads the settings from the text fields, or gives the key of the message that
/// refuses them; `sample_rate` is what the sample-rate field was found to hold.
pub fn parse_config_from_buffers(b: &ObservabilityBuffers, sample_rate: SampleRateCheck) -> (r: Result<
    ObservabilitySettings,
    String,
>)
    ensures
        match r {
            Ok(s) => buffers_error(*b, sample_rate) is None && settings_read(*b, s),
            Err(e) => buffers_error(*b, sample_rate) == Some(e@),
        },
{
    let endpoint = text::trim_str(b.endpoint.as_str());
    let service_name = text::trim_str(b.service_name.as_str());
    let service_version = text::trim_str(b.service_version.as_str());
    let prometheus_path = text::trim_str(b.prometheus_path.as_str());
    let audit = text::trim_vec(&text::to_chars(b.audit_output_path.as_str()));
    let audit_output_path = if audit.len() == 0 {
        None
    } else {
        Some(text::from_chars(&audit))
    };
    let prometheus_port = match parse_field_u16(b.prometheus_port.as_str()) {
        Some(v) => v,
        None => return Err("obs-validation-prometheus-port-invalid".to_string()),
    };
    if prometheus_port == 0 {
        return Err("obs-validation-prometheus-port-zero".to_string());
    }
    match sample_rate {
        SampleRateCheck::Unparsable => return Err("obs-validation-sample-rate-invalid".to_string()),
        SampleRateCheck::OutOfRange => return Err("obs-validation-sample-rate-range".to_string()),
        SampleRateCheck::Valid => {},
    }
    let export_interval_seconds = match parse_field_u64(b.export_interval.as_str()) {
        Some(v) => v,
        None => return Err("obs-validation-export-interval-invalid".to_string()),
    };
    if export_interval_seconds == 0 {
        return Err("obs-validation-export-interval-zero".to_string());
    }
    let retention_days = match parse_field_u16(b.retention_days.as_str()) {
        Some(v) => v,
        None => return Err("obs-validation-retention-days-invalid".to_string()),
    };
    if retention_days == 0 {
        return Err("obs-validation-retention-days-zero".to_string());
    }
    let flush_interval_seconds = match parse_field_u64(b.flush_interval.as_str()) {
        Some(v) => v,
        None => return Err("obs-validation-flush-interval-invalid".to_string()),
    };
    if flush_interval_seconds == 0 {
        return Err("obs-validation-flush-interval-zero".to_string());
    }
    Ok(
        ObservabilitySettings {
            endpoint,
            service_name,
            service_version,
            prometheus_port,
            prometheus_path,
            audit_output_path,
            export_interval_seconds,
            retention_days,
            flush_interval_seconds,
        },
    )
}

/// Whether the settings are ones the panel accepts back unchanged: non-zero numbers
/// and texts without surrounding white space, the audit path not empty when set.
pub open spec fn settings_valid(s: ObservabilitySettings) -> bool {
    &&& s.prometheus_port != 0
    &&& s.export_interval_seconds != 0
    &&& s.retention_days != 0
    &&& s.flush_interval_seconds != 0
    &&& text::trim(s.endpoint@) == s.endpoint@
    &&& text::trim(s.service_name@) == s.service_name@
    &&& text::trim(s.service_version@) == s.service_version@
    &&& text::trim(s.prometheus_path@) == s.prometheus_path@
    &&& s.audit_output_path matches Some(p) ==> text::trim(p@) == p@ && p@.len() > 0
}

/// Fields filled from valid settings read back as the same settings, when the sample
/// rate is valid.
pub proof fn lemma_buffers_roundtrip(b: ObservabilityBuffers, s: ObservabilitySettings)
    requires
        buffers_show(b, s),
        settings_valid(s),
    ensures
        buffers_error(b, SampleRateCheck::Valid) is None,
        settings_read(b, s),
{
    crate::tool::lemma_number_field_roundtrip(s.prometheus_port as nat, u16::MAX as nat);
    crate::tool::lemma_number_field_roundtrip(s.export_interval_seconds as nat, u64::MAX as nat);
    crate::tool::lemma_number_field_roundtrip(s.retention_days as nat, u16::MAX as nat);
    crate::tool::lemma_number_field_roundtrip(s.flush_interval_seconds as nat, u64::MAX as nat);
    if s.audit_output_path is None {
        assert(text::trim(Seq::<char>::empty()) =~= Seq::<char>::empty()) by {
            reveal_with_fuel(text::trim_start, 2);
            reveal_with_fuel(text::trim_end, 2);
        }
    }
}

// ---------------------------------------------------------------------------
// Price table
// ---------------------------------------------------------------------------

/// A price table: for each provider, for each model, its price entry.
pub open spec fn price_view<V>(t: KeyedMap<KeyedMap<V>>) -> Map<Seq<char>, Map<Seq<char>, V>> {
    t@.map_values(|inner: KeyedMap<V>| inner@)
}

/// Whether the prices list model `m` of provider `p`.
pub open spec fn has_price<V>(t: Map<Seq<char>, Map<Seq<char>, V>>, p: Seq<char>, m: Seq<char>) -> bool {
    t.dom().contains(p) && t[p].dom().contains(m)
}

/// The prices with model `m` of provider `p` removed; the provider stays listed.
pub open spec fn without_model<V>(t: Map<Seq<char>, Map<Seq<char>, V>>, p: Seq<char>, m: Seq<char>) -> Map<
    Seq<char>,
    Map<Seq<char>, V>,
> {
    if t.dom().contains(p) {
        t.insert(p, t[p].remove(m))
    } else {
        t
    }
}

/// The prices with entry `v` set for model `m` of provider `p`.
pub open spec fn with_price<V>(t: Map<Seq<char>, Map<Seq<char>, V>>, p: Seq<char>, m: Seq<char>, v: V) -> Map<
    Seq<char>,
    Map<Seq<char>, V>,
> {
    let models = if t.dom().contains(p) {
        t[p]
    } else {
        Map::empty()
    };
    t.insert(p, models.insert(m, v))
}

/// The view of an optional name.
pub open spec fn name_view(o: Option<String>) -> Option<Seq<char>> {
    match o {
        Some(s) => Some(s@),
        None => None,
    }
}

/// What saving price `v` for model `m` of provider `p` makes of the prices `t`: a form
/// that edited the price of `op`/`om` first takes that price away when the names
/// changed; a form that adds a price is refused (none) when the price is already listed.
pub open spec fn price_saved<V>(
    t: Map<Seq<char>, Map<Seq<char>, V>>,
    op: Option<Seq<char>>,
    om: Option<Seq<char>>,
    p: Seq<char>,
    m: Seq<char>,
    v: V,
) -> Option<Map<Seq<char>, Map<Seq<char>, V>>> {
    let base = if op is Some && om is Some && (op->0 != p || om->0 != m) {
        without_model(t, op->0, om->0)
    } else {
        t
    };
    if op is None && has_price(base, p, m) {
        None
    } else {
        Some(with_price(base, p, m, v))
    }
}

/// The prices with model `m` of provider `p` removed, and the provider too when no model
/// of it is left.
pub open spec fn price_deleted<V>(t: Map<Seq<char>, Map<Seq<char>, V>>, p: Seq<char>, m: Seq<char>) -> Map<
    Seq<char>,
    Map<Seq<char>, V>,
> {
    if t.dom().contains(p) {
        if t[p].remove(m).dom() == Set::<Seq<char>>::empty() {
            t.remove(p)
        } else {
            t.insert(p, t[p].remove(m))
        }
    } else {
        t
    }
}

/// Whether every provider listed in the prices has at least one model.
pub open spec fn no_empty_provider<V>(t: Map<Seq<char>, Map<Seq<char>, V>>) -> bool {
    forall|p: Seq<char>| #[trigger] t.dom().contains(p) ==> t[p].dom() != Set::<Seq<char>>::empty()
}

/// Deleting a price takes exactly that price away, and leaves no provider without models
/// where there was none before.
pub proof fn lemma_price_deleted<V>(t: Map<Seq<char>, Map<Seq<char>, V>>, p: Seq<char>, m: Seq<char>)
    ensures
        !has_price(price_deleted(t, p, m), p, m),
        forall|p2: Seq<char>, m2: Seq<char>|
            (p2 != p || m2 != m) ==> (#[trigger] has_price(price_deleted(t, p, m), p2, m2) == has_price(
                t,
                p2,
                m2,
            ) && (has_price(t, p2, m2) ==> price_deleted(t, p, m)[p2][m2] == t[p2][m2])),
        no_empty_provider(t) ==> no_empty_provider(price_deleted(t, p, m)),
{
    let d = price_deleted(t, p, m);
    assert forall|p2: Seq<char>, m2: Seq<char>| (p2 != p || m2 != m) implies (#[trigger] has_price(
        d,
        p2,
        m2,
    ) == has_price(t, p2, m2) && (has_price(t, p2, m2) ==> d[p2][m2] == t[p2][m2])) by {
        if p2 == p && t.dom().contains(p) {
            assert(t[p].remove(m).dom().contains(m2) == t[p].dom().contains(m2));
        }
    }
}

/// Saving a price lists it, with the entry that was saved.
pub proof fn lemma_price_saved_listed<V>(
    t: Map<Seq<char>, Map<Seq<char>, V>>,
    op: Option<Seq<char>>,
    om: Option<Seq<char>>,
    p: Seq<char>,
    m: Seq<char>,
    v: V,
)
    requires
        price_saved(t, op, om, p, m, v) is Some,
    ensures
        has_price(price_saved(t, op, om, p, m, v)->0, p, m),
        price_saved(t, op, om, p, m, v)->0[p][m] == v,
{
}

/// Adding a price that was not listed and then deleting it gives back the prices, when
/// no provider was without models.
pub proof fn lemma_add_then_delete_price<V>(
    t: Map<Seq<char>, Map<Seq<char>, V>>,
    p: Seq<char>,
    m: Seq<char>,
    v: V,
)
    requires
        no_empty_provider(t),
        !has_price(t, p, m),
    ensures
        price_saved(t, None, None, p, m, v) is Some,
        price_deleted(price_saved(t, None, None, p, m, v)->0, p, m) == t,
{
    let added = with_price(t, p, m, v);
    if t.dom().contains(p) {
        assert(added[p].remove(m) =~= t[p]);
        assert(added.insert(p, added[p].remove(m)) =~= t);
    } else {
        assert(added[p].remove(m) =~= Map::<Seq<char>, V>::empty());
        assert(added.remove(p) =~= t);
    }
}

/// The key of the message that refuses the names of a price form, if they are refused.
pub open spec fn price_names_error(provider: Seq<char>, model: Seq<char>) -> Option<Seq<char>> {
    if text::trim(provider).len() == 0 {
        Some("obs-validation-price-provider-empty"@)
    } else if text::trim(model).len() == 0 {
        Some("obs-validation-price-model-empty"@)
    } else {
        None
    }
}

/// The form that adds or edits a price; `rates` holds what the price costs.
#[derive(Debug)]
pub struct PriceForm<R> {
    pub original_provider: Option<String>,
    pub original_model: Option<String>,
    pub provider: String,
    pub model: String,
    pub rates: R,
}

impl<R> PriceForm<R> {
    /// An empty form that adds a price.
    pub fn new(rates: R) -> (f: Self)
        ensures
            f.original_provider is None,
            f.original_model is None,
            f.provider@ == Seq::<char>::empty(),
            f.model@ == Seq::<char>::empty(),
            f.rates == rates,
    {
        PriceForm {
            original_provider: None,
            original_model: None,
            provider: String::new(),
            model: String::new(),
            rates,
        }
    }

    /// A form that edits the price of model `model` of provider `provider`.
    pub fn edit(provider: &str, model: &str, rates: R) -> (f: Self)
        ensures
            name_view(f.original_provider) == Some(provider@),
            name_view(f.original_model) == Some(model@),
            f.provider@ == provider@,
            f.model@ == model@,
            f.rates == rates,
    {
        PriceForm {
            original_provider: Some(provider.to_string()),
            original_model: Some(model.to_string()),
            provider: provider.to_string(),
            model: model.to_string(),
            rates,
        }
    }

    /// The key of the form's window title.
    pub fn title_key(&self) -> (r: &'static str)
        ensures
            r@ == (if self.original_provider is Some {
                "obs-price-form-title-edit"@
            } else {
                "obs-price-form-title-add"@
            }),
    {
        if self.original_provider.is_some() {
            "obs-price-form-title-edit"
        } else {
            "obs-price-form-title-add"
        }
    }

    /// The trimmed provider and model names, or the key of the message that refuses them.
    pub fn validate_names(&self) -> (r: Result<(String, String), String>)
        ensures
            match r {
                Ok((p, m)) => price_names_error(self.provider@, self.model@) is None && p@ == text::trim(
                    self.provider@,
                ) && m@ == text::trim(self.model@),
                Err(e) => price_names_error(self.provider@, self.model@) == Some(e@),
            },
    {
        let provider = text::trim_vec(&text::to_chars(self.provider.as_str()));
        if provider.len() == 0 {
            return Err("obs-validation-price-provider-empty".to_string());
        }
        let model = text::trim_vec(&text::to_chars(self.model.as_str()));
        if model.len() == 0 {
            return Err("obs-validation-price-model-empty".to_string());
        }
        Ok((text::from_chars(&provider), text::from_chars(&model)))
    }
}

/// Saves price `entry` for model `model` of provider `provider`, as a form with the
/// given original names asks; an added price that is already listed is refused and
/// handed back, the table unchanged.
pub fn save_price_entry<V>(
    table: &mut KeyedMap<KeyedMap<V>>,
    original_provider: &Option<String>,
    original_model: &Option<String>,
    provider: String,
    model: String,
    entry: V,
) -> (r: Result<(), V>)
    ensures
        match price_saved(
            price_view(*old(table)),
            name_view(*original_provider),
            name_view(*original_model),
            provider@,
            model@,
            entry,
        ) {
            Some(t) => r is Ok && price_view(*final(table)) == t,
            None => r == Err::<(), V>(entry) && price_view(*final(table)) == price_view(*old(table)),
        },
{
    let ghost t0 = price_view(*table);
    if let Some(op) = original_provider {
        if let Some(om) = original_model {
            if !(text::str_eq(op.as_str(), provider.as_str()) && text::str_eq(om.as_str(), model.as_str())) {
                if let Some(mut models) = table.remove(op.as_str()) {
                    let _ = models.remove(om.as_str());
                    table.insert(op.clone(), models);
                }
                proof {
                    assert(price_view(*table) =~= without_model(t0, op@, om@));
                }
            }
        }
    }
    let ghost base = price_view(*table);
    let is_dup = match table.get(provider.as_str()) {
        Some(models) => models.contains_key(model.as_str()),
        None => false,
    };
    if is_dup && original_provider.is_none() {
        return Err(entry);
    }
    let mut models = match table.remove(provider.as_str()) {
        Some(m) => m,
        None => KeyedMap::new(),
    };
    models.insert(model, entry);
    table.insert(provider, models);
    proof {
        assert(price_view(*table) =~= with_price(base, provider@, model@, entry));
    }
    Ok(())
}

/// Deletes the price of model `model` of provider `provider`, and the provider when it
/// has no model left.
pub fn delete_price_entry<V>(table: &mut KeyedMap<KeyedMap<V>>, provider: &str, model: &str)
    ensures
        price_view(*final(table)) == price_deleted(price_view(*old(table)), provider@, model@),
{
    let ghost t0 = price_view(*table);
    if let Some(mut models) = table.remove(provider) {
        let _ = models.remove(model);
        if !models.is_empty() {
            table.insert(provider.to_string(), models);
            proof {
                assert(price_view(*table) =~= price_deleted(t0, provider@, model@));
            }
        } else {
            proof {
                assert(price_view(*table) =~= price_deleted(t0, provider@, model@));
            }
        }
    } else {
        proof {
            assert(price_view(*table) =~= t0);
        }
    }
}

/// The providers a price can be set for: those of the model settings, sorted by name.
pub fn known_providers(config: &ProviderConfig) -> (r: Vec<String>)
    ensures
        r@.map_values(|s: String| s@) == config.model_providers.key_order(),
        crate::keyed::strictly_sorted(r@.map_values(|s: String| s@)),
        forall|k: Seq<char>| #[trigger] config.model_providers@.dom().contains(k) <==> r@.map_values(
            |s: String| s@,
        ).contains(k),
{
    config.model_providers.keys()
}

/// The price rows of provider `p`, whose models are `inner`, in model order.
pub open spec fn provider_rows<V>(p: Seq<char>, inner: KeyedMap<V>) -> Seq<(Seq<char>, Seq<char>, V)> {
    inner.key_order().map_values(|m: Seq<char>| (p, m, inner@[m]))
}

/// The price rows of the first `n` providers of `t`, in provider order.
pub open spec fn rows_upto<V>(t: KeyedMap<KeyedMap<V>>, n: int) -> Seq<(Seq<char>, Seq<char>, V)>
    decreases n,
{
    if n <= 0 {
        Seq::empty()
    } else {
        rows_upto(t, n - 1) + provider_rows(t.key_order()[n - 1], t@[t.key_order()[n - 1]])
    }
}

/// All price rows of `t`: provider by provider, model by model, in name order.
pub open spec fn price_rows<V>(t: KeyedMap<KeyedMap<V>>) -> Seq<(Seq<char>, Seq<char>, V)> {
    rows_upto(t, t.key_order().len() as int)
}

/// The names and price of each row.
pub open spec fn row_views<V>(rows: Seq<(String, String, &V)>) -> Seq<(Seq<char>, Seq<char>, V)> {
    rows.map_values(|r: (String, String, &V)| (r.0@, r.1@, *r.2))
}

/// Whether row `a` comes before row `b`: by provider name, then by model name.
pub open spec fn row_before<V>(a: (Seq<char>, Seq<char>, V), b: (Seq<char>, Seq<char>, V)) -> bool {
    ||| a.0 != b.0 && text::seq_le(a.0, b.0)
    ||| a.0 == b.0 && a.1 != b.1 && text::seq_le(a.1, b.1)
}

/// Whether the rows are in strictly increasing (provider, model) order.
pub open spec fn rows_sorted<V>(rows: Seq<(Seq<char>, Seq<char>, V)>) -> bool {
    forall|i: int, j: int| 0 <= i < j < rows.len() ==> row_before(#[trigger] rows[i], #[trigger] rows[j])
}

/// The prices as rows of provider, model and price, sorted by provider and then model.
pub fn flattened_price_rows<V>(table: &KeyedMap<KeyedMap<V>>) -> (r: Vec<(String, String, &V)>)
    ensures
        row_views(r@) == price_rows(*table),
        rows_sorted(row_views(r@)),
        forall|k: int|
            0 <= k < r@.len() ==> #[trigger] has_price(price_view(*table), r@[k].0@, r@[k].1@)
                && price_view(*table)[r@[k].0@][r@[k].1@] == *r@[k].2,
        forall|p: Seq<char>, m: Seq<char>|
            #[trigger] has_price(price_view(*table), p, m) ==> exists|k: int|
                0 <= k < r@.len() && r@[k].0@ == p && r@[k].1@ == m,
{
    let mut rows: Vec<(String, String, &V)> = Vec::new();
    let n = table.len();
    let ghost okeys = table.key_order();
    let ghost mut pidx: Seq<int> = Seq::empty();
    let mut i: usize = 0;
    while i < n
        invariant
            n == okeys.len(),
            okeys == table.key_order(),
            crate::keyed::strictly_sorted(okeys),
            i <= n,
            row_views(rows@) == rows_upto(*table, i as int),
            pidx.len() == rows@.len(),
            forall|k: int| 0 <= k < rows@.len() ==> 0 <= #[trigger] pidx[k] < i && rows@[k].0@ == okeys[pidx[k]],
            rows_sorted(row_views(rows@)),
            forall|k: int|
                0 <= k < rows@.len() ==> #[trigger] has_price(price_view(*table), rows@[k].0@, rows@[k].1@)
                    && price_view(*table)[rows@[k].0@][rows@[k].1@] == *rows@[k].2,
            forall|a: int, m: Seq<char>|
                0 <= a < i && #[trigger] has_price(price_view(*table), okeys[a], m) ==> exists|k: int|
                    0 <= k < rows@.len() && rows@[k].0@ == okeys[a] && rows@[k].1@ == m,
        decreases n - i,
    {
        let (pk, models) = table.entry_at(i);
        let mcount = models.len();
        let ghost mkeys = models.key_order();
        let ghost start = rows@.len();
        let mut j: usize = 0;
        while j < mcount
            invariant
                n == okeys.len(),
                okeys == table.key_order(),
                crate::keyed::strictly_sorted(okeys),
                i < n,
                pk@ == okeys[i as int],
                table@.dom().contains(pk@),
                table@[pk@] == *models,
                mcount == mkeys.len(),
                mkeys == models.key_order(),
                crate::keyed::strictly_sorted(mkeys),
                j <= mcount,
                start <= rows@.len(),
                rows@.len() == start + j,
                row_views(rows@) == rows_upto(*table, i as int) + provider_rows(pk@, *models).take(j as int),
                pidx.len() == rows@.len(),
                forall|k: int| 0 <= k < start ==> 0 <= #[trigger] pidx[k] < i && rows@[k].0@ == okeys[pidx[k]],
                forall|k: int| start <= k < rows@.len() ==> #[trigger] pidx[k] == i && rows@[k].0@ == pk@
                    && rows@[k].1@ == mkeys[k - start],
                rows_sorted(row_views(rows@)),
                forall|k: int|
                    0 <= k < rows@.len() ==> #[trigger] has_price(price_view(*table), rows@[k].0@, rows@[k].1@)
                        && price_view(*table)[rows@[k].0@][rows@[k].1@] == *rows@[k].2,
                forall|a: int, m: Seq<char>|
                    0 <= a < i && #[trigger] has_price(price_view(*table), okeys[a], m) ==> exists|k: int|
                        0 <= k < rows@.len() && rows@[k].0@ == okeys[a] && rows@[k].1@ == m,
                forall|m: Seq<char>| #[trigger] models@.dom().contains(m) <==> mkeys.contains(m),
            decreases mcount - j,
        {
            let (mk, entry) = models.entry_at(j);
            let ghost before = rows@;
            rows.push((pk.clone(), mk.clone(), entry));
            proof {
                let rv = row_views(rows@);
                let bv = row_views(before);
                assert(rv =~= bv.push((pk@, mk@, *entry)));
                assert forall|a: int, b: int| 0 <= a < b < rv.len() implies row_before(
                    #[trigger] rv[a],
                    #[trigger] rv[b],
                ) by {
                    assert(rv[a] == bv[a]);
                    if b == rv.len() - 1 {
                        assert(bv[a].0 == before[a].0@ && bv[a].1 == before[a].1@);
                        if a < start {
                            let pa = pidx[a];
                            assert(before[a].0@ == okeys[pa]);
                            assert(crate::keyed::strictly_sorted(okeys));
                            assert(text::seq_le(okeys[pa], okeys[i as int]) && okeys[pa] != okeys[i as int]);
                        } else {
                            assert(before[a].0@ == pk@);
                            assert(before[a].1@ == mkeys[a - start]);
                            assert(text::seq_le(mkeys[a - start], mkeys[j as int]) && mkeys[a - start]
                                != mkeys[j as int]);
                        }
                    } else {
                        assert(rv[b] == bv[b]);
                    }
                }
                assert(provider_rows(pk@, *models).take(j + 1) =~= provider_rows(pk@, *models).take(j as int).push(
                    (pk@, mk@, *entry),
                ));
                let old_pidx = pidx;
                pidx = pidx.push(i as int);
                assert forall|a: int, m: Seq<char>|
                    0 <= a < i && #[trigger] has_price(price_view(*table), okeys[a], m) implies exists|k: int|
                        0 <= k < rows@.len() && rows@[k].0@ == okeys[a] && rows@[k].1@ == m by {
                    let k = choose|k: int|
                        0 <= k < before.len() && before[k].0@ == okeys[a] && before[k].1@ == m;
                    assert(rows@[k] == before[k]);
                }
                assert forall|k: int| start <= k < rows@.len() implies #[trigger] pidx[k] == i && rows@[k].0@
                    == pk@ && rows@[k].1@ == mkeys[k - start] by {
                    if k < rows@.len() - 1 {
                        assert(pidx[k] == old_pidx[k]);
                        assert(old_pidx[k] == i && before[k].0@ == pk@ && before[k].1@ == mkeys[k - start]);
                        assert(rows@[k] == before[k]);
                    } else {
                        assert(k - start == j);
                        assert(rows@[k].1@ == mk@);
                    }
                }
            }
            j = j + 1;
        }
        proof {
            assert(provider_rows(pk@, *models).take(mcount as int) =~= provider_rows(pk@, *models));
            assert(price_view(*table)[okeys[i as int]] == models@);
            assert forall|a: int, m: Seq<char>|
                0 <= a < i + 1 && #[trigger] has_price(price_view(*table), okeys[a], m) implies exists|k: int|
                    0 <= k < rows@.len() && rows@[k].0@ == okeys[a] && rows@[k].1@ == m by {
                if a == i {
                    assert(mkeys.contains(m));
                    let b = choose|b: int| 0 <= b < mkeys.len() && mkeys[b] == m;
                    assert(pidx[start + b] == i);
                    assert(rows@[start + b].1@ == mkeys[b] && rows@[start + b].0@ == pk@);
                }
            }
        }
        i = i + 1;
    }
    proof {
        assert forall|p: Seq<char>, m: Seq<char>| #[trigger] has_price(price_view(*table), p, m) implies exists|
            k: int,
        | 0 <= k < rows@.len() && rows@[k].0@ == p && rows@[k].1@ == m by {
            assert(okeys.contains(p));
            let a = choose|a: int| 0 <= a < okeys.len() && okeys[a] == p;
            assert(has_price(price_view(*table), okeys[a], m));
        }
    }
    rows
}

} // verus!
