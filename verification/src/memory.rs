use vstd::prelude::*;

use crate::keyed::KeyedMap;
use crate::provider::{ModelProviderConfig, ProviderConfig};
use crate::panels::Notice;
use crate::skills;
use crate::tool::field_number;
use crate::text;
use crate::text::{concat_str, contains_exec, lowercase_vec, str_eq, to_chars, trim_str, trim_vec};

verus! {

// ---------------------------------------------------------------------------
// The embedding settings form
// ---------------------------------------------------------------------------

/// The form that edits the memory embedding settings.
#[derive(Debug)]
pub struct MemoryConfigForm {
    pub enabled: bool,
    pub provider: String,
    pub model: String,
}

/// The smallest key of a map, if it has one.
pub open spec fn least_key<V>(m: Map<Seq<char>, V>) -> Option<Seq<char>> {
    if exists|k: Seq<char>| #[trigger] m.dom().contains(k) {
        Some(
            choose|k: Seq<char>|
                #[trigger] m.dom().contains(k) && forall|o: Seq<char>|
                    #[trigger] m.dom().contains(o) ==> text::seq_le(k, o),
        )
    } else {
        None
    }
}

/// The provider the embedding form starts with: the preferred one when it names a
/// provider, else the active one when it does, else the first provider by name, else none.
pub open spec fn resolved_provider(config: ProviderConfig, preferred: Option<Seq<char>>) -> Seq<char> {
    let p = match preferred {
        Some(p) => text::trim(p),
        None => Seq::<char>::empty(),
    };
    let active = text::trim(config.model_provider@);
    if p.len() > 0 && config.model_providers@.dom().contains(p) {
        p
    } else if active.len() > 0 && config.model_providers@.dom().contains(active) {
        active
    } else {
        match least_key(config.model_providers@) {
            Some(k) => k,
            None => Seq::<char>::empty(),
        }
    }
}

/// The default model of a provider, trimmed; empty for an unknown provider.
pub open spec fn default_model_of(config: ProviderConfig, provider: Seq<char>) -> Seq<char> {
    if config.model_providers@.dom().contains(provider) {
        text::trim(config.model_providers@[provider].default_model@)
    } else {
        Seq::<char>::empty()
    }
}

/// The first key of a map is its least key.
fn first_provider(m: &KeyedMap<ModelProviderConfig>) -> (r: String)
    ensures
        r@ == (match least_key(m@) {
            Some(k) => k,
            None => Seq::<char>::empty(),
        }),
{
    match m.first_key() {
        Some(k) => {
            proof {
                assert(m@.dom().contains(k@));
                let c = choose|c: Seq<char>|
                    #[trigger] m@.dom().contains(c) && forall|o: Seq<char>|
                        #[trigger] m@.dom().contains(o) ==> text::seq_le(c, o);
                assert(text::seq_le(c, k@));
                assert(text::seq_le(k@, c));
                text::lemma_seq_le_antisym(c, k@);
            }
            k
        },
        None => {
            proof {
                if exists|k: Seq<char>| #[trigger] m@.dom().contains(k) {
                    let k = choose|k: Seq<char>| #[trigger] m@.dom().contains(k);
                    assert(m@.dom() =~= Set::<Seq<char>>::empty());
                    assert(!m@.dom().contains(k));
                }
            }
            String::new()
        },
    }
}

impl MemoryConfigForm {
    /// The provider to preselect.
    pub fn resolve_provider(config: &ProviderConfig, preferred: Option<&str>) -> (r: String)
        ensures
            r@ == resolved_provider(
                *config,
                match preferred {
                    Some(p) => Some(p@),
                    None => None,
                },
            ),
    {
        let p = match preferred {
            Some(p) => trim_str(p),
            None => String::new(),
        };
        if !p.as_str().is_empty() && config.model_providers.contains_key(p.as_str()) {
            return p;
        }
        let active = trim_str(config.model_provider.as_str());
        if !active.as_str().is_empty() && config.model_providers.contains_key(active.as_str()) {
            return active;
        }
        first_provider(&config.model_providers)
    }

    /// The default model of `provider`, trimmed; empty for an unknown provider.
    pub fn provider_default_model(config: &ProviderConfig, provider: &str) -> (r: String)
        ensures
            r@ == default_model_of(*config, provider@),
    {
        match config.model_providers.get(provider) {
            Some(p) => trim_str(p.default_model.as_str()),
            None => String::new(),
        }
    }

    /// The form showing the embedding settings of `config`: the configured provider when it
    /// exists, and the configured model, or that provider's default model when blank.
    pub fn from_config(config: &ProviderConfig) -> (f: Self)
        ensures
            f.enabled == config.embedding_enabled,
            f.provider@ == resolved_provider(*config, Some(config.embedding_provider@)),
            f.model@ == (if text::trim(config.embedding_model@).len() == 0 {
                default_model_of(*config, f.provider@)
            } else {
                text::trim(config.embedding_model@)
            }),
    {
        let provider = MemoryConfigForm::resolve_provider(
            config,
            Some(config.embedding_provider.as_str()),
        );
        let trimmed = trim_str(config.embedding_model.as_str());
        let model = if trimmed.as_str().is_empty() {
            MemoryConfigForm::provider_default_model(config, provider.as_str())
        } else {
            trimmed
        };
        MemoryConfigForm { enabled: config.embedding_enabled, provider, model }
    }

    /// Picks another provider; the model becomes that provider's default model.
    pub fn set_provider(&mut self, config: &ProviderConfig, provider: String)
        ensures
            final(self).provider == provider,
            final(self).model@ == default_model_of(*config, provider@),
            final(self).enabled == old(self).enabled,
    {
        self.model = MemoryConfigForm::provider_default_model(config, provider.as_str());
        self.provider = provider;
    }
}

/// The message that refuses an embedding form, if it is refused.
pub open spec fn embedding_form_error(config: ProviderConfig, form: MemoryConfigForm) -> Option<Seq<char>> {
    let provider = text::trim(form.provider@);
    if provider.len() == 0 {
        Some("Provider cannot be empty"@)
    } else if !config.model_providers@.dom().contains(provider) {
        Some("Provider '"@ + provider + "' is not available"@)
    } else if text::trim(form.model@).len() == 0 {
        Some("Model cannot be empty"@)
    } else {
        None
    }
}

/// Saves the embedding form into `config`, or says why it cannot.
pub fn apply_memory_form(config: ProviderConfig, form: &MemoryConfigForm) -> (r: Result<ProviderConfig, String>)
    ensures
        match r {
            Err(e) => embedding_form_error(config, *form) == Some(e@),
            Ok(c) => {
                &&& embedding_form_error(config, *form) is None
                &&& c.embedding_enabled == form.enabled
                &&& c.embedding_provider@ == text::trim(form.provider@)
                &&& c.embedding_model@ == text::trim(form.model@)
                &&& c.model_providers == config.model_providers
                &&& c.model_provider == config.model_provider
            },
        },
{
    let mut config = config;
    let provider = trim_str(form.provider.as_str());
    if provider.as_str().is_empty() {
        return Err("Provider cannot be empty".to_owned());
    }
    if !config.model_providers.contains_key(provider.as_str()) {
        let head = concat_str("Provider '", provider.as_str());
        let msg = concat_str(head.as_str(), "' is not available");
        assert(msg@ =~= "Provider '"@ + provider@ + "' is not available"@);
        return Err(msg);
    }
    let model = trim_str(form.model.as_str());
    if model.as_str().is_empty() {
        return Err("Model cannot be empty".to_owned());
    }
    config.embedding_enabled = form.enabled;
    config.embedding_provider = provider;
    config.embedding_model = model;
    Ok(config)
}

/// Opening the embedding form and saving it unchanged is accepted and keeps the embedding
/// settings, when they name a listed provider and a model without surrounding white space.
pub proof fn lemma_embedding_form_roundtrip(config: ProviderConfig, form: MemoryConfigForm)
    requires
        config.embedding_provider@.len() > 0,
        text::trim(config.embedding_provider@) == config.embedding_provider@,
        config.model_providers@.dom().contains(config.embedding_provider@),
        config.embedding_model@.len() > 0,
        text::trim(config.embedding_model@) == config.embedding_model@,
        form.enabled == config.embedding_enabled,
        form.provider@ == resolved_provider(config, Some(config.embedding_provider@)),
        form.model@ == (if text::trim(config.embedding_model@).len() == 0 {
            default_model_of(config, form.provider@)
        } else {
            text::trim(config.embedding_model@)
        }),
    ensures
        embedding_form_error(config, form) is None,
        text::trim(form.provider@) == config.embedding_provider@,
        text::trim(form.model@) == config.embedding_model@,
{
}

// ---------------------------------------------------------------------------
// Long-term memory records
// ---------------------------------------------------------------------------

/// The life-cycle status of a long-term memory record.
#[derive(Clone, Copy, Debug, PartialEq, Eq, Structural)]
pub enum LongTermMemoryStatus {
    Active,
    Superseded,
    Archived,
    Rejected,
}

/// What kind of thing a long-term memory record says.
#[derive(Clone, Copy, Debug, PartialEq, Eq, Structural)]
pub enum LongTermMemoryKind {
    Identity,
    Preference,
    ProjectRule,
    Workflow,
    Fact,
    Constraint,
}

/// A metadata field of a record as read from its JSON: missing, a string, a list whose
/// string items are given (other items as nothing), or some other value.
#[derive(Debug)]
pub enum MetadataField {
    Missing,
    Text(String),
    List(Vec<Option<String>>),
    Other,
}

/// A long-term memory record, with the metadata the page reads from it.
#[derive(Debug)]
pub struct MemoryRecord {
    pub id: String,
    pub scope: String,
    pub content: String,
    pub status: Option<LongTermMemoryStatus>,
    pub kind: Option<LongTermMemoryKind>,
    pub topic: Option<String>,
    pub supersedes: MetadataField,
    pub superseded_by: MetadataField,
    pub pinned: bool,
    pub created_at_ms: i64,
    pub updated_at_ms: i64,
}

/// The status a record counts with: `Active` when it states none.
pub open spec fn record_status(r: MemoryRecord) -> LongTermMemoryStatus {
    match r.status {
        Some(s) => s,
        None => LongTermMemoryStatus::Active,
    }
}

/// The kind a record counts with: `Fact` when it states none.
pub open spec fn record_kind(r: MemoryRecord) -> LongTermMemoryKind {
    match r.kind {
        Some(k) => k,
        None => LongTermMemoryKind::Fact,
    }
}

/// Which statuses the record list shows.
#[derive(Clone, Copy, Debug, PartialEq, Eq, Structural)]
pub enum StatusFilter {
    Active,
    Superseded,
    Archived,
    Rejected,
    All,
}

impl StatusFilter {
    /// The word shown for the filter.
    pub fn label(self) -> (r: &'static str)
        ensures
            r@ == (match self {
                StatusFilter::Active => "Active"@,
                StatusFilter::Superseded => "Superseded"@,
                StatusFilter::Archived => "Archived"@,
                StatusFilter::Rejected => "Rejected"@,
                StatusFilter::All => "All"@,
            }),
    {
        match self {
            StatusFilter::Active => "Active",
            StatusFilter::Superseded => "Superseded",
            StatusFilter::Archived => "Archived",
            StatusFilter::Rejected => "Rejected",
            StatusFilter::All => "All",
        }
    }

    /// Whether a record of `status` passes the filter.
    pub open spec fn accepts(self, status: LongTermMemoryStatus) -> bool {
        match self {
            StatusFilter::Active => status == LongTermMemoryStatus::Active,
            StatusFilter::Superseded => status == LongTermMemoryStatus::Superseded,
            StatusFilter::Archived => status == LongTermMemoryStatus::Archived,
            StatusFilter::Rejected => status == LongTermMemoryStatus::Rejected,
            StatusFilter::All => true,
        }
    }

    /// Whether a record of `status` passes the filter.
    pub fn matches(self, status: LongTermMemoryStatus) -> (b: bool)
        ensures
            b == self.accepts(status),
    {
        match self {
            StatusFilter::Active => status == LongTermMemoryStatus::Active,
            StatusFilter::Superseded => status == LongTermMemoryStatus::Superseded,
            StatusFilter::Archived => status == LongTermMemoryStatus::Archived,
            StatusFilter::Rejected => status == LongTermMemoryStatus::Rejected,
            StatusFilter::All => true,
        }
    }
}

/// Which kinds the record list shows.
#[derive(Clone, Copy, Debug, PartialEq, Eq, Structural)]
pub enum KindFilter {
    All,
    Identity,
    Preference,
    ProjectRule,
    Workflow,
    Fact,
    Constraint,
}

impl KindFilter {
    /// The word shown for the filter.
    pub fn label(self) -> (r: &'static str)
        ensures
            r@ == (match self {
                KindFilter::All => "All kinds"@,
                KindFilter::Identity => "identity"@,
                KindFilter::Preference => "preference"@,
                KindFilter::ProjectRule => "project_rule"@,
                KindFilter::Workflow => "workflow"@,
                KindFilter::Fact => "fact"@,
                KindFilter::Constraint => "constraint"@,
            }),
    {
        match self {
            KindFilter::All => "All kinds",
            KindFilter::Identity => "identity",
            KindFilter::Preference => "preference",
            KindFilter::ProjectRule => "project_rule",
            KindFilter::Workflow => "workflow",
            KindFilter::Fact => "fact",
            KindFilter::Constraint => "constraint",
        }
    }

    /// Whether a record of `kind` passes the filter.
    pub open spec fn accepts(self, kind: LongTermMemoryKind) -> bool {
        match self {
            KindFilter::All => true,
            KindFilter::Identity => kind == LongTermMemoryKind::Identity,
            KindFilter::Preference => kind == LongTermMemoryKind::Preference,
            KindFilter::ProjectRule => kind == LongTermMemoryKind::ProjectRule,
            KindFilter::Workflow => kind == LongTermMemoryKind::Workflow,
            KindFilter::Fact => kind == LongTermMemoryKind::Fact,
            KindFilter::Constraint => kind == LongTermMemoryKind::Constraint,
        }
    }

    /// Whether a record of `kind` passes the filter.
    pub fn matches(self, kind: LongTermMemoryKind) -> (b: bool)
        ensures
            b == self.accepts(kind),
    {
        match self {
            KindFilter::All => true,
            KindFilter::Identity => kind == LongTermMemoryKind::Identity,
            KindFilter::Preference => kind == LongTermMemoryKind::Preference,
            KindFilter::ProjectRule => kind == LongTermMemoryKind::ProjectRule,
            KindFilter::Workflow => kind == LongTermMemoryKind::Workflow,
            KindFilter::Fact => kind == LongTermMemoryKind::Fact,
            KindFilter::Constraint => kind == LongTermMemoryKind::Constraint,
        }
    }
}

/// Whether a record passes the status filter, the kind filter and the topic filter (the
/// topic contains the trimmed filter text, ignoring ASCII case; a blank filter passes all).
pub open spec fn record_passes(
    r: MemoryRecord,
    status_filter: StatusFilter,
    kind_filter: KindFilter,
    topic_filter: Seq<char>,
) -> bool {
    let needle = text::ascii_lowercase(text::trim(topic_filter));
    let topic = match r.topic {
        Some(t) => t@,
        None => Seq::<char>::empty(),
    };
    &&& status_filter.accepts(record_status(r))
    &&& kind_filter.accepts(record_kind(r))
    &&& (needle.len() == 0 || text::contains_seq(text::ascii_lowercase(topic), needle))
}

/// The records that pass the filters, in order.
pub open spec fn passing_records(
    records: Seq<MemoryRecord>,
    status_filter: StatusFilter,
    kind_filter: KindFilter,
    topic_filter: Seq<char>,
) -> Seq<MemoryRecord>
    decreases records.len(),
{
    if records.len() == 0 {
        records
    } else if record_passes(records.last(), status_filter, kind_filter, topic_filter) {
        passing_records(records.drop_last(), status_filter, kind_filter, topic_filter).push(
            records.last(),
        )
    } else {
        passing_records(records.drop_last(), status_filter, kind_filter, topic_filter)
    }
}

proof fn lemma_passing_complete(
    records: Seq<MemoryRecord>,
    status_filter: StatusFilter,
    kind_filter: KindFilter,
    topic_filter: Seq<char>,
    i: int,
)
    requires
        0 <= i < records.len(),
        record_passes(records[i], status_filter, kind_filter, topic_filter),
    ensures
        passing_records(records, status_filter, kind_filter, topic_filter).contains(records[i]),
    decreases records.len(),
{
    let p = passing_records(records, status_filter, kind_filter, topic_filter);
    if i == records.len() - 1 {
        assert(p.last() == records[i]);
        assert(p.contains(p.last()) || p[p.len() - 1] == records[i]);
    } else {
        let t = records.drop_last();
        assert(t[i] == records[i]);
        lemma_passing_complete(t, status_filter, kind_filter, topic_filter, i);
        let q = passing_records(t, status_filter, kind_filter, topic_filter);
        let k = choose|k: int| 0 <= k < q.len() && q[k] == records[i];
        if record_passes(records.last(), status_filter, kind_filter, topic_filter) {
            assert(p[k] == q[k]);
        }
    }
}

proof fn lemma_passing_sound(
    records: Seq<MemoryRecord>,
    status_filter: StatusFilter,
    kind_filter: KindFilter,
    topic_filter: Seq<char>,
    x: MemoryRecord,
)
    requires
        passing_records(records, status_filter, kind_filter, topic_filter).contains(x),
    ensures
        records.contains(x),
        record_passes(x, status_filter, kind_filter, topic_filter),
    decreases records.len(),
{
    let p = passing_records(records, status_filter, kind_filter, topic_filter);
    let t = records.drop_last();
    let q = passing_records(t, status_filter, kind_filter, topic_filter);
    let k = choose|k: int| 0 <= k < p.len() && p[k] == x;
    if record_passes(records.last(), status_filter, kind_filter, topic_filter) && k == p.len() - 1 {
        assert(records[records.len() - 1] == x);
    } else {
        assert(q[k] == x);
        lemma_passing_sound(t, status_filter, kind_filter, topic_filter, x);
        let m = choose|m: int| 0 <= m < t.len() && t[m] == x;
        assert(records[m] == x);
    }
}

/// The topic of a record, ASCII letters in small case; empty when it has none.
pub open spec fn lowered_topic(r: MemoryRecord) -> Seq<char> {
    text::ascii_lowercase(
        match r.topic {
            Some(t) => t@,
            None => Seq::<char>::empty(),
        },
    )
}

/// The topic filter matches anywhere in the topic: a record whose status and kind pass
/// is listed as soon as the trimmed filter text occurs at some position of its topic,
/// ASCII case ignored on both sides, not only at the start. Conversely every listed
/// record is one of the records, passes the status and kind filters, and its topic holds
/// the filter text somewhere (or the filter is blank).
pub proof fn lemma_topic_filter_matches_anywhere(
    records: Seq<MemoryRecord>,
    status_filter: StatusFilter,
    kind_filter: KindFilter,
    topic_filter: Seq<char>,
    i: int,
    j: int,
)
    requires
        0 <= i < records.len(),
        status_filter.accepts(record_status(records[i])),
        kind_filter.accepts(record_kind(records[i])),
        ({
            let low = lowered_topic(records[i]);
            let needle = text::ascii_lowercase(text::trim(topic_filter));
            &&& 0 <= j
            &&& j + needle.len() <= low.len()
            &&& low.subrange(j, j + needle.len()) == needle
        }),
    ensures
        passing_records(records, status_filter, kind_filter, topic_filter).contains(records[i]),
        forall|x: MemoryRecord|
            #[trigger] passing_records(records, status_filter, kind_filter, topic_filter).contains(x)
                ==> records.contains(x) && status_filter.accepts(record_status(x))
                && kind_filter.accepts(record_kind(x)) && (text::ascii_lowercase(
                text::trim(topic_filter),
            ).len() == 0 || exists|k: int|
                0 <= k && k + text::ascii_lowercase(text::trim(topic_filter)).len() <= lowered_topic(
                    x,
                ).len() && #[trigger] lowered_topic(x).subrange(
                    k,
                    k + text::ascii_lowercase(text::trim(topic_filter)).len(),
                ) == text::ascii_lowercase(text::trim(topic_filter))),
{
    let needle = text::ascii_lowercase(text::trim(topic_filter));
    assert(text::occurs_at(lowered_topic(records[i]), needle, j));
    lemma_passing_complete(records, status_filter, kind_filter, topic_filter, i);
    assert forall|x: MemoryRecord|
        #[trigger] passing_records(records, status_filter, kind_filter, topic_filter).contains(x)
            implies records.contains(x) && status_filter.accepts(record_status(x))
            && kind_filter.accepts(record_kind(x)) && (needle.len() == 0 || exists|k: int|
            0 <= k && k + needle.len() <= lowered_topic(x).len() && #[trigger] lowered_topic(
                x,
            ).subrange(k, k + needle.len()) == needle) by {
        lemma_passing_sound(records, status_filter, kind_filter, topic_filter, x);
        if needle.len() > 0 {
            assert(text::contains_seq(lowered_topic(x), needle));
            let k = choose|k: int| text::occurs_at(lowered_topic(x), needle, k);
            assert(lowered_topic(x).subrange(k, k + needle.len()) == needle);
        }
    }
}

/// The records the long-term list shows, in order.
pub fn filter_long_term_records<'a>(
    records: &'a Vec<MemoryRecord>,
    status_filter: StatusFilter,
    kind_filter: KindFilter,
    topic_filter: &str,
) -> (r: Vec<&'a MemoryRecord>)
    ensures
        r@.len() == passing_records(records@, status_filter, kind_filter, topic_filter@).len(),
        forall|i: int|
            0 <= i < r@.len() ==> *#[trigger] r@[i] == passing_records(
                records@,
                status_filter,
                kind_filter,
                topic_filter@,
            )[i],
{
    let needle = lowercase_vec(&trim_vec(&to_chars(topic_filter)));
    let mut out: Vec<&'a MemoryRecord> = Vec::new();
    let mut i: usize = 0;
    assert(records@.take(0) =~= Seq::<MemoryRecord>::empty());
    while i < records.len()
        invariant
            i <= records@.len(),
            needle@ == text::ascii_lowercase(text::trim(topic_filter@)),
            out@.len() == passing_records(records@.take(i as int), status_filter, kind_filter, topic_filter@).len(),
            forall|j: int|
                0 <= j < out@.len() ==> *#[trigger] out@[j] == passing_records(
                    records@.take(i as int),
                    status_filter,
                    kind_filter,
                    topic_filter@,
                )[j],
        decreases records@.len() - i,
    {
        let rec = &records[i];
        assert(records@.take(i + 1).drop_last() =~= records@.take(i as int));
        assert(records@.take(i + 1).last() == records@[i as int]);
        let status = match rec.status {
            Some(s) => s,
            None => LongTermMemoryStatus::Active,
        };
        let kind = match rec.kind {
            Some(k) => k,
            None => LongTermMemoryKind::Fact,
        };
        let topic_ok = if needle.len() == 0 {
            true
        } else {
            let topic = match &rec.topic {
                Some(t) => lowercase_vec(&to_chars(t.as_str())),
                None => Vec::new(),
            };
            proof {
                if rec.topic is None {
                    assert(topic@ =~= text::ascii_lowercase(Seq::<char>::empty()));
                }
            }
            contains_exec(&topic, &needle)
        };
        if status_filter.matches(status) && kind_filter.matches(kind) && topic_ok {
            let ghost before = out@;
            out.push(rec);
            proof {
                let p = passing_records(records@.take(i + 1), status_filter, kind_filter, topic_filter@);
                assert forall|j: int| 0 <= j < out@.len() implies *#[trigger] out@[j] == p[j] by {
                    if j < before.len() {
                        assert(out@[j] == before[j]);
                    }
                }
            }
        }
        i = i + 1;
    }
    assert(records@.take(records@.len() as int) =~= records@);
    out
}

/// The record the detail pane shows: the selected one when the list has it, else the
/// first of the list.
pub fn selected_long_term_record<'a>(records: &Vec<&'a MemoryRecord>, selected_id: Option<&str>) -> (r:
    Option<&'a MemoryRecord>)
    ensures
        match selected_id {
            Some(id) if exists|i: int| 0 <= i < records@.len() && (#[trigger] records@[i]).id@ == id@ => {
                r is Some && r->0.id@ == id@ && exists|i: int|
                    0 <= i < records@.len() && *#[trigger] records@[i] == *r->0 && forall|j: int|
                        0 <= j < i ==> (#[trigger] records@[j]).id@ != id@
            },
            _ => if records@.len() > 0 {
                r is Some && *r->0 == *records@[0]
            } else {
                r is None
            },
        },
{
    if let Some(id) = selected_id {
        let mut i: usize = 0;
        while i < records.len()
            invariant
                i <= records@.len(),
                selected_id == Some(id),
                forall|j: int| 0 <= j < i ==> (#[trigger] records@[j]).id@ != id@,
            decreases records@.len() - i,
        {
            if str_eq(records[i].id.as_str(), id) {
                let found = records[i];
                assert(*records@[i as int] == *found);
                return Some(found);
            }
            i = i + 1;
        }
    }
    if records.len() > 0 {
        Some(records[0])
    } else {
        None
    }
}

/// How many records have the given status (all records when none is given); a record
/// without a status counts as active.
pub open spec fn status_count(records: Seq<MemoryRecord>, status: Option<LongTermMemoryStatus>) -> nat
    decreases records.len(),
{
    if records.len() == 0 {
        0
    } else {
        status_count(records.drop_last(), status) + (if status is None || status == Some(
            record_status(records.last()),
        ) {
            1nat
        } else {
            0nat
        })
    }
}

/// How many records have the given status (all records when none is given).
pub fn count_records_with_status(records: &Vec<MemoryRecord>, status: Option<LongTermMemoryStatus>) -> (n:
    usize)
    ensures
        n == status_count(records@, status),
{
    let mut n: usize = 0;
    let mut i: usize = 0;
    assert(records@.take(0) =~= Seq::<MemoryRecord>::empty());
    while i < records.len()
        invariant
            i <= records@.len(),
            n == status_count(records@.take(i as int), status),
            n <= i,
        decreases records@.len() - i,
    {
        assert(records@.take(i + 1).drop_last() =~= records@.take(i as int));
        assert(records@.take(i + 1).last() == records@[i as int]);
        let current = match records[i].status {
            Some(s) => s,
            None => LongTermMemoryStatus::Active,
        };
        let counted = match status {
            None => true,
            Some(expected) => expected == current,
        };
        if counted {
            n = n + 1;
        }
        i = i + 1;
    }
    assert(records@.take(records@.len() as int) =~= records@);
    n
}

/// The words a list metadata field gives: a string as a one-word list, the string items
/// of a list, nothing otherwise.
pub open spec fn list_field_words(f: MetadataField) -> Seq<Seq<char>> {
    match f {
        MetadataField::Text(s) => seq![s@],
        MetadataField::List(items) => present_items(items@),
        _ => Seq::<Seq<char>>::empty(),
    }
}

/// The items that are present, in order.
pub open spec fn present_items(items: Seq<Option<String>>) -> Seq<Seq<char>>
    decreases items.len(),
{
    if items.len() == 0 {
        Seq::<Seq<char>>::empty()
    } else {
        match items.last() {
            Some(s) => present_items(items.drop_last()).push(s@),
            None => present_items(items.drop_last()),
        }
    }
}

/// The words of a list metadata field.
pub fn read_string_list_field(field: &MetadataField) -> (r: Vec<String>)
    ensures
        text::string_views(r@) == list_field_words(*field),
{
    match field {
        MetadataField::Text(s) => {
            let mut v: Vec<String> = Vec::new();
            v.push(s.clone());
            assert(text::string_views(v@) =~= seq![s@]);
            v
        },
        MetadataField::List(items) => {
            let mut v: Vec<String> = Vec::new();
            let mut i: usize = 0;
            assert(items@.take(0) =~= Seq::<Option<String>>::empty());
            assert(text::string_views(v@) =~= Seq::<Seq<char>>::empty());
            while i < items.len()
                invariant
                    i <= items@.len(),
                    text::string_views(v@) == present_items(items@.take(i as int)),
                decreases items@.len() - i,
            {
                assert(items@.take(i + 1).drop_last() =~= items@.take(i as int));
                assert(items@.take(i + 1).last() == items@[i as int]);
                if let Some(s) = &items[i] {
                    let ghost before = v@;
                    v.push(s.clone());
                    assert(text::string_views(v@) =~= text::string_views(before).push(s@));
                }
                i = i + 1;
            }
            assert(items@.take(items@.len() as int) =~= items@);
            v
        },
        _ => {
            let v: Vec<String> = Vec::new();
            assert(text::string_views(v@) =~= Seq::<Seq<char>>::empty());
            v
        },
    }
}

/// The text a single-valued metadata field gives: a string, trimmed, when not blank.
pub open spec fn text_field_value(f: MetadataField) -> Option<Seq<char>> {
    match f {
        MetadataField::Text(s) => if text::trim(s@).len() > 0 {
            Some(text::trim(s@))
        } else {
            None
        },
        _ => None,
    }
}

/// The text of a single-valued metadata field.
pub fn read_string_field(field: &MetadataField) -> (r: Option<String>)
    ensures
        crate::tool::opt_view(r) == text_field_value(*field),
{
    match field {
        MetadataField::Text(s) => {
            let t = trim_str(s.as_str());
            if t.as_str().is_empty() {
                None
            } else {
                Some(t)
            }
        },
        _ => None,
    }
}

/// `words` joined with `, `.
pub open spec fn join_comma(words: Seq<Seq<char>>) -> Seq<char>
    decreases words.len(),
{
    if words.len() == 0 {
        Seq::<char>::empty()
    } else if words.len() == 1 {
        words[0]
    } else {
        join_comma(words.drop_last()) + ", "@ + words.last()
    }
}

fn join_with_comma(v: &Vec<String>) -> (r: String)
    ensures
        r@ == join_comma(text::string_views(v@)),
{
    let ghost all = text::string_views(v@);
    let mut out: Vec<char> = Vec::new();
    let mut k: usize = 0;
    assert(all.take(0) =~= Seq::<Seq<char>>::empty());
    while k < v.len()
        invariant
            k <= v@.len(),
            all == text::string_views(v@),
            out@ == join_comma(all.take(k as int)),
        decreases v@.len() - k,
    {
        assert(all.take(k + 1).drop_last() =~= all.take(k as int));
        assert(all.take(k + 1).last() == v@[k as int]@);
        let mut w = to_chars(v[k].as_str());
        if k > 0 {
            let mut sep = to_chars(", ");
            out.append(&mut sep);
        } else {
            assert(out@ =~= Seq::<char>::empty());
        }
        out.append(&mut w);
        k = k + 1;
    }
    assert(all.take(v@.len() as int) =~= all);
    text::from_chars(&out)
}

/// The governance line of a record: which records it supersedes and which one supersedes it.
pub open spec fn governance_text(r: MemoryRecord) -> Seq<char> {
    let sup = list_field_words(r.supersedes);
    match text_field_value(r.superseded_by) {
        Some(by) => if sup.len() > 0 {
            "supersedes: "@ + join_comma(sup) + "; superseded_by: "@ + by
        } else {
            "superseded_by: "@ + by
        },
        None => if sup.len() > 0 {
            "supersedes: "@ + join_comma(sup)
        } else {
            "-"@
        },
    }
}

/// The governance line of a record.
pub fn governance_summary(record: &MemoryRecord) -> (r: String)
    ensures
        r@ == governance_text(*record),
{
    let supersedes = read_string_list_field(&record.supersedes);
    let superseded_by = read_string_field(&record.superseded_by);
    match superseded_by {
        Some(by) => {
            if supersedes.len() > 0 {
                let list = join_with_comma(&supersedes);
                let a = concat_str("supersedes: ", list.as_str());
                let b = concat_str(a.as_str(), "; superseded_by: ");
                let r = concat_str(b.as_str(), by.as_str());
                assert(r@ =~= "supersedes: "@ + list@ + "; superseded_by: "@ + by@);
                r
            } else {
                concat_str("superseded_by: ", by.as_str())
            }
        },
        None => {
            if supersedes.len() > 0 {
                let list = join_with_comma(&supersedes);
                concat_str("supersedes: ", list.as_str())
            } else {
                "-".to_owned()
            }
        },
    }
}

// ---------------------------------------------------------------------------
// Session keys
// ---------------------------------------------------------------------------

/// A session of the store, as the search form lists its keys.
#[derive(Debug)]
pub struct SessionIndex {
    pub session_key: String,
    pub active_session_key: Option<String>,
}

/// The session keys offered by the search form: each session's key, then its active key
/// when that is not blank, each key once, in order of first appearance.
pub open spec fn session_key_options(sessions: Seq<SessionIndex>) -> Seq<Seq<char>>
    decreases sessions.len(),
{
    if sessions.len() == 0 {
        Seq::<Seq<char>>::empty()
    } else {
        let before = session_key_options(sessions.drop_last());
        let s = sessions.last();
        let with_key = if before.contains(s.session_key@) {
            before
        } else {
            before.push(s.session_key@)
        };
        match s.active_session_key {
            Some(a) => if text::trim(a@).len() > 0 && !with_key.contains(a@) {
                with_key.push(a@)
            } else {
                with_key
            },
            None => with_key,
        }
    }
}

fn contains_string(v: &Vec<String>, x: &str) -> (r: bool)
    ensures
        r == text::string_views(v@).contains(x@),
{
    let mut i: usize = 0;
    while i < v.len()
        invariant
            i <= v@.len(),
            forall|j: int| 0 <= j < i ==> (#[trigger] v@[j])@ != x@,
        decreases v@.len() - i,
    {
        if str_eq(v[i].as_str(), x) {
            assert(text::string_views(v@)[i as int] == x@);
            return true;
        }
        i = i + 1;
    }
    proof {
        if text::string_views(v@).contains(x@) {
            let k = choose|k: int|
                0 <= k < text::string_views(v@).len() && text::string_views(v@)[k] == x@;
            assert(v@[k]@ == x@);
        }
    }
    false
}

/// The session keys offered by the search form.
pub fn aggregate_session_key_options(sessions: &Vec<SessionIndex>) -> (r: Vec<String>)
    ensures
        text::string_views(r@) == session_key_options(sessions@),
{
    let mut options: Vec<String> = Vec::new();
    let mut i: usize = 0;
    assert(sessions@.take(0) =~= Seq::<SessionIndex>::empty());
    assert(text::string_views(options@) =~= Seq::<Seq<char>>::empty());
    while i < sessions.len()
        invariant
            i <= sessions@.len(),
            text::string_views(options@) == session_key_options(sessions@.take(i as int)),
        decreases sessions@.len() - i,
    {
        assert(sessions@.take(i + 1).drop_last() =~= sessions@.take(i as int));
        assert(sessions@.take(i + 1).last() == sessions@[i as int]);
        let s = &sessions[i];
        if !contains_string(&options, s.session_key.as_str()) {
            let ghost before = options@;
            options.push(s.session_key.clone());
            assert(text::string_views(options@) =~= text::string_views(before).push(s.session_key@));
        }
        if let Some(a) = &s.active_session_key {
            let t = trim_str(a.as_str());
            if !t.as_str().is_empty() && !contains_string(&options, a.as_str()) {
                let ghost before = options@;
                options.push(a.clone());
                assert(text::string_views(options@) =~= text::string_views(before).push(a@));
            }
        }
        i = i + 1;
    }
    assert(sessions@.take(sessions@.len() as int) =~= sessions@);
    options
}

/// No session key is offered twice.
pub proof fn lemma_session_key_options_distinct(sessions: Seq<SessionIndex>)
    ensures
        forall|i: int, j: int|
            0 <= i < j < session_key_options(sessions).len() ==> #[trigger] session_key_options(
                sessions,
            )[i] != #[trigger] session_key_options(sessions)[j],
    decreases sessions.len(),
{
    if sessions.len() > 0 {
        let before = session_key_options(sessions.drop_last());
        lemma_session_key_options_distinct(sessions.drop_last());
        let s = sessions.last();
        let with_key = if before.contains(s.session_key@) {
            before
        } else {
            before.push(s.session_key@)
        };
        assert forall|i: int, j: int| 0 <= i < j < with_key.len() implies #[trigger] with_key[i]
            != #[trigger] with_key[j] by {
            if j == before.len() {
                assert(before[i] == with_key[i]);
                assert(before.contains(before[i]));
            }
        }
        let out = session_key_options(sessions);
        assert forall|i: int, j: int| 0 <= i < j < out.len() implies #[trigger] out[i] != #[trigger] out[j] by {
            if j == with_key.len() {
                assert(with_key.contains(with_key[i]));
            }
        }
    }
}


// ---------------------------------------------------------------------------
// Matching chat records against a search
// ---------------------------------------------------------------------------

/// The index of the first white space character of `s`, or its length.
pub open spec fn ws_index(s: Seq<char>) -> nat
    decreases s.len(),
{
    if s.len() == 0 || text::is_ws(s[0]) {
        0
    } else {
        1 + ws_index(s.drop_first())
    }
}

/// The words of `s`, as `str::split_whitespace` yields them.
pub open spec fn ws_tokens(s: Seq<char>) -> Seq<Seq<char>>
    decreases s.len(),
{
    let t = text::trim_start(s);
    if t.len() == 0 {
        Seq::<Seq<char>>::empty()
    } else {
        let k = ws_index(t);
        if k < t.len() {
            proof {
                lemma_trim_start_len(s);
                lemma_ws_index(t);
                assert(k > 0);
            }
            seq![t.take(k as int)] + ws_tokens(t.skip(k as int))
        } else {
            seq![t]
        }
    }
}

/// Trimming the start of a text drops a prefix of white space and leaves a suffix that
/// does not start with white space.
pub proof fn lemma_trim_start_len(s: Seq<char>)
    ensures
        text::trim_start(s).len() <= s.len(),
        text::trim_start(s) == s.skip(s.len() - text::trim_start(s).len()),
        text::trim_start(s).len() > 0 ==> !text::is_ws(text::trim_start(s)[0]),
        forall|j: int| 0 <= j < s.len() - text::trim_start(s).len() ==> text::is_ws(#[trigger] s[j]),
    decreases s.len(),
{
    if s.len() > 0 && text::is_ws(s[0]) {
        lemma_trim_start_len(s.drop_first());
        let t = s.drop_first();
        assert forall|j: int| 0 <= j < s.len() - text::trim_start(s).len() implies text::is_ws(
            #[trigger] s[j],
        ) by {
            if j > 0 {
                assert(s[j] == t[j - 1]);
            }
        }
        assert(t.skip(t.len() - text::trim_start(t).len()) =~= s.skip(
            s.len() - text::trim_start(s).len(),
        ));
    } else {
        assert(s.skip(0) =~= s);
    }
}

/// `ws_index` is the position of the first white space, or the length when there is none.
pub proof fn lemma_ws_index(s: Seq<char>)
    ensures
        ws_index(s) <= s.len(),
        ws_index(s) < s.len() ==> text::is_ws(s[ws_index(s) as int]),
        forall|j: int| 0 <= j < ws_index(s) ==> !text::is_ws(#[trigger] s[j]),
    decreases s.len(),
{
    if s.len() > 0 && !text::is_ws(s[0]) {
        lemma_ws_index(s.drop_first());
        assert forall|j: int| 0 <= j < ws_index(s) implies !text::is_ws(#[trigger] s[j]) by {
            if j > 0 {
                assert(s[j] == s.drop_first()[j - 1]);
            }
        }
    }
}

/// The words of `s`, as `str::split_whitespace` yields them.
pub fn split_whitespace_words(s: &Vec<char>) -> (r: Vec<Vec<char>>)
    ensures
        text::views(r@) == ws_tokens(s@),
{
    let mut r: Vec<Vec<char>> = Vec::new();
    let mut i: usize = 0;
    assert(s@.skip(0) =~= s@);
    assert(text::views(r@) =~= Seq::<Seq<char>>::empty());
    while i < s.len()
        invariant
            i <= s.len(),
            ws_tokens(s@) == text::views(r@) + ws_tokens(s@.skip(i as int)),
        decreases s.len() - i,
    {
        let ghost rest = s@.skip(i as int);
        let mut j: usize = i;
        while j < s.len() && text::is_whitespace(s[j])
            invariant
                i <= j <= s.len(),
                forall|k: int| i <= k < j ==> text::is_ws(#[trigger] s@[k]),
            decreases s.len() - j,
        {
            j = j + 1;
        }
        proof {
            lemma_trim_start_len(rest);
            let t = text::trim_start(rest);
            let d = rest.len() - t.len();
            if d < j - i {
                assert(!text::is_ws(rest[d]));
                if t.len() > 0 {
                    assert(t[0] == rest[d]);
                }
                assert(text::is_ws(s@[i + d]));
                assert(rest[d] == s@[i + d]);
            }
            if j < s.len() {
                assert(!text::is_ws(s@[j as int]));
                if d > j - i {
                    assert(text::is_ws(rest[j - i]));
                    assert(rest[j - i] == s@[j as int]);
                }
            }
            assert(d == j - i || (j == s.len() && t.len() == 0));
            if j == s.len() {
                assert(t.len() == 0) by {
                    assert(d <= rest.len());
                }
            }
        }
        if j == s.len() {
            proof {
                let t = text::trim_start(rest);
                assert(t.len() == 0);
                assert(ws_tokens(rest) =~= Seq::<Seq<char>>::empty());
                assert(text::views(r@) + Seq::<Seq<char>>::empty() =~= text::views(r@));
                assert(s@.skip(s.len() as int) =~= Seq::<char>::empty());
                assert(ws_tokens(Seq::<char>::empty()) =~= Seq::<Seq<char>>::empty());
            }
            i = j;
        } else {
            let mut k: usize = j;
            while k < s.len() && !text::is_whitespace(s[k])
                invariant
                    j <= k <= s.len(),
                    forall|m: int| j <= m < k ==> !text::is_ws(#[trigger] s@[m]),
                decreases s.len() - k,
            {
                k = k + 1;
            }
            let word = text::sub_vec(s, j, k);
            proof {
                let t = text::trim_start(rest);
                assert(t =~= s@.skip(j as int));
                lemma_ws_index(t);
                let w = ws_index(t);
                if w < k - j {
                    assert(text::is_ws(t[w as int]));
                    assert(t[w as int] == s@[j + w]);
                }
                if k < s.len() && w > k - j {
                    assert(!text::is_ws(t[k - j]));
                    assert(t[k - j] == s@[k as int]);
                }
                assert(w == k - j);
                assert(t.take(w as int) =~= word@);
                if k < s.len() {
                    assert(t.skip(w as int) =~= s@.skip(k as int));
                    assert(ws_tokens(rest) == seq![word@] + ws_tokens(s@.skip(k as int)));
                } else {
                    assert(t.take(w as int) =~= t);
                    assert(ws_tokens(rest) == seq![word@]);
                    assert(s@.skip(k as int) =~= Seq::<char>::empty());
                    assert(ws_tokens(Seq::<char>::empty()) =~= Seq::<Seq<char>>::empty());
                }
            }
            let ghost before = text::views(r@);
            r.push(word);
            assert(text::views(r@) =~= before.push(word@));
            assert(before + (seq![word@] + ws_tokens(s@.skip(k as int))) =~= before.push(word@)
                + ws_tokens(s@.skip(k as int)));
            i = k;
        }
    }
    assert(s@.skip(i as int) =~= Seq::<char>::empty());
    assert(ws_tokens(Seq::<char>::empty()) =~= Seq::<Seq<char>>::empty());
    assert(text::views(r@) + Seq::<Seq<char>>::empty() =~= text::views(r@));
    r
}

/// What a search finds in one chat record: whether the whole query occurs, how many of
/// its words occur, how many words it has, and whether the assistant wrote the record.
#[derive(Clone, Copy, Debug, PartialEq, Eq, Structural)]
pub struct MatchParts {
    pub phrase_match: bool,
    pub token_hits: usize,
    pub token_count: usize,
    pub assistant: bool,
}

/// How many of `words` occur in `s`.
pub open spec fn hits_in(words: Seq<Seq<char>>, s: Seq<char>) -> nat
    decreases words.len(),
{
    if words.len() == 0 {
        0
    } else {
        hits_in(words.drop_last(), s) + (if text::contains_seq(s, words.last()) {
            1nat
        } else {
            0nat
        })
    }
}

/// What a search for `query` finds in a record with `content` written by `role`: nothing
/// for a blank query, or when neither the query nor any of its words occurs (ASCII case
/// ignored).
pub open spec fn match_parts(content: Seq<char>, role: Seq<char>, query: Seq<char>) -> Option<MatchParts> {
    let c = text::ascii_lowercase(content);
    let q = text::ascii_lowercase(text::trim(query));
    let words = ws_tokens(q);
    let phrase = text::contains_seq(c, q);
    let hits = hits_in(words, c);
    if q.len() == 0 || (!phrase && hits == 0) {
        None
    } else {
        Some(
            MatchParts {
                phrase_match: phrase,
                token_hits: hits as usize,
                token_count: words.len() as usize,
                assistant: role == "assistant"@,
            },
        )
    }
}

/// The case of ASCII letters in a record does not change what a search finds in it: two
/// contents equal up to ASCII case give the same result.
pub proof fn lemma_match_ignores_content_case(
    c1: Seq<char>,
    c2: Seq<char>,
    role: Seq<char>,
    query: Seq<char>,
)
    requires
        text::eq_ignore_ascii_case(c1, c2),
    ensures
        match_parts(c1, role, query) == match_parts(c2, role, query),
{
    assert(text::ascii_lowercase(c1) =~= text::ascii_lowercase(c2)) by {
        assert forall|i: int| 0 <= i < c1.len() implies text::ascii_lower(c1[i]) == text::ascii_lower(
            c2[i],
        ) by {
            assert(text::lower_code(c1[i]) == text::lower_code(c2[i]));
        }
    }
}

/// The case of ASCII letters in the query does not change what a search finds: two
/// queries equal up to ASCII case give the same result.
pub proof fn lemma_match_ignores_query_case(
    content: Seq<char>,
    role: Seq<char>,
    q1: Seq<char>,
    q2: Seq<char>,
)
    requires
        text::eq_ignore_ascii_case(q1, q2),
    ensures
        match_parts(content, role, q1) == match_parts(content, role, q2),
{
    text::lemma_lowercase_trim_ignores_case(q1, q2);
}

/// A search finds a record, as a phrase match, wherever the trimmed query occurs in its
/// content with ASCII case ignored on both sides; whether the assistant wrote it is
/// recorded.
pub proof fn lemma_phrase_found(content: Seq<char>, role: Seq<char>, query: Seq<char>, j: int)
    requires
        ({
            let q = text::ascii_lowercase(text::trim(query));
            &&& q.len() > 0
            &&& 0 <= j
            &&& j + q.len() <= content.len()
            &&& text::ascii_lowercase(content).subrange(j, j + q.len()) == q
        }),
    ensures
        match_parts(content, role, query) is Some,
        match_parts(content, role, query)->0.phrase_match,
        match_parts(content, role, query)->0.assistant == (role == "assistant"@),
{
    let q = text::ascii_lowercase(text::trim(query));
    assert(text::occurs_at(text::ascii_lowercase(content), q, j));
}

/// What a search for `query` finds in a record with `content` written by `role`.
pub fn session_match_parts(content: &str, role: &str, query: &str) -> (r: Option<MatchParts>)
    ensures
        r == match_parts(content@, role@, query@),
{
    let c = lowercase_vec(&to_chars(content));
    let q = lowercase_vec(&trim_vec(&to_chars(query)));
    if q.len() == 0 {
        return None;
    }
    let phrase = contains_exec(&c, &q);
    let words = split_whitespace_words(&q);
    let ghost all = text::views(words@);
    let mut hits: usize = 0;
    let mut i: usize = 0;
    assert(all.take(0) =~= Seq::<Seq<char>>::empty());
    while i < words.len()
        invariant
            i <= words@.len(),
            all == text::views(words@),
            hits == hits_in(all.take(i as int), c@),
            hits <= i,
        decreases words@.len() - i,
    {
        assert(all.take(i + 1).drop_last() =~= all.take(i as int));
        assert(all.take(i + 1).last() == words@[i as int]@);
        if contains_exec(&c, &words[i]) {
            hits = hits + 1;
        }
        i = i + 1;
    }
    assert(all.take(words@.len() as int) =~= all);
    if !phrase && hits == 0 {
        return None;
    }
    Some(
        MatchParts {
            phrase_match: phrase,
            token_hits: hits,
            token_count: words.len(),
            assistant: str_eq(role, "assistant"),
        },
    )
}


// ---------------------------------------------------------------------------
// Session history search
// ---------------------------------------------------------------------------

/// The fields of the session search.
#[derive(Debug)]
pub struct SessionSearchForm {
    pub session_key: String,
    pub query: String,
    pub within_days: String,
    pub limit: String,
}

impl SessionSearchForm {
    /// An empty search over the last 3 days, for at most 8 hits.
    pub fn new() -> (f: Self)
        ensures
            f.session_key@ == Seq::<char>::empty(),
            f.query@ == Seq::<char>::empty(),
            f.within_days@ == "3"@,
            f.limit@ == "8"@,
    {
        SessionSearchForm {
            session_key: String::new(),
            query: String::new(),
            within_days: "3".to_string(),
            limit: "8".to_string(),
        }
    }
}

/// A session search to run.
#[derive(Debug)]
pub struct SessionSearchRequest {
    pub session_key: String,
    pub query: String,
    pub within_days: i64,
    pub limit: usize,
}

/// The message that refuses the search fields, if they are refused.
pub open spec fn session_search_error(f: SessionSearchForm) -> Option<Seq<char>> {
    if text::trim(f.session_key@).len() == 0 {
        Some("Session search requires a session key"@)
    } else if text::trim(f.query@).len() == 0 {
        Some("Session search requires a query"@)
    } else if !(field_number(f.within_days@, i64::MAX as nat) matches Some(d) && d > 0) {
        Some("within_days must be a positive integer"@)
    } else if !(field_number(f.limit@, usize::MAX as nat) matches Some(n) && n > 0) {
        Some("limit must be a positive integer"@)
    } else {
        None
    }
}

/// The search that the fields ask for: trimmed key and query, and the two positive
/// numbers; or the message that refuses them.
pub fn session_search_request(f: &SessionSearchForm) -> (r: Result<SessionSearchRequest, String>)
    ensures
        match r {
            Ok(q) => {
                &&& session_search_error(*f) is None
                &&& q.session_key@ == text::trim(f.session_key@)
                &&& q.query@ == text::trim(f.query@)
                &&& field_number(f.within_days@, i64::MAX as nat) == Some(q.within_days as nat)
                &&& field_number(f.limit@, usize::MAX as nat) == Some(q.limit as nat)
            },
            Err(e) => session_search_error(*f) == Some(e@),
        },
{
    let key = trim_vec(&to_chars(f.session_key.as_str()));
    if key.len() == 0 {
        return Err("Session search requires a session key".to_string());
    }
    let query = trim_vec(&to_chars(f.query.as_str()));
    if query.len() == 0 {
        return Err("Session search requires a query".to_string());
    }
    let within = crate::tool::parse_field_u64(f.within_days.as_str());
    let within_days: i64 = match within {
        Some(v) => if 0 < v && v <= i64::MAX as u64 {
            v as i64
        } else {
            return Err("within_days must be a positive integer".to_string());
        },
        None => return Err("within_days must be a positive integer".to_string()),
    };
    let limit: usize = match crate::tool::parse_field_usize(f.limit.as_str()) {
        Some(v) => if v > 0 {
            v
        } else {
            return Err("limit must be a positive integer".to_string());
        },
        None => return Err("limit must be a positive integer".to_string()),
    };
    Ok(
        SessionSearchRequest {
            session_key: text::from_chars(&key),
            query: text::from_chars(&query),
            within_days,
            limit,
        },
    )
}

/// The sessions a search reads, in this order: the base session of the key given, its
/// active session when that is set, not blank and another one, and the key given when it
/// is none of these.
pub open spec fn search_session_keys(input: Seq<char>, base: Seq<char>, active: Option<Seq<char>>) -> Seq<
    Seq<char>,
> {
    let with_active = match active {
        Some(a) => if text::trim(a).len() > 0 && a != base {
            seq![base, a]
        } else {
            seq![base]
        },
        None => seq![base],
    };
    if input != base && !with_active.contains(input) {
        with_active.push(input)
    } else {
        with_active
    }
}

/// The base session key and the session keys a search for `input` reads. `base_of_input`
/// is the session whose active key is `input`, when the store knows one; `active_of_base`
/// is the active key that the store gives for the base session.
pub fn session_keys_to_search(input: &str, base_of_input: Option<String>, active_of_base: Option<String>) -> (r: (
    String,
    Vec<String>,
))
    ensures
        r.0@ == (match base_of_input {
            Some(b) => b@,
            None => input@,
        }),
        text::string_views(r.1@) == search_session_keys(input@, r.0@, crate::tool::opt_view(active_of_base)),
{
    let base = match base_of_input {
        Some(b) => b,
        None => input.to_string(),
    };
    let mut keys: Vec<String> = Vec::new();
    keys.push(base.clone());
    let ghost first = seq![base@];
    if let Some(a) = active_of_base {
        let blank = trim_vec(&to_chars(a.as_str())).len() == 0;
        if !blank && !str_eq(a.as_str(), base.as_str()) {
            keys.push(a);
        }
    }
    let ghost with_active = text::string_views(keys@);
    assert(with_active =~= (match crate::tool::opt_view(active_of_base) {
        Some(a) => if text::trim(a).len() > 0 && a != base@ {
            seq![base@, a]
        } else {
            seq![base@]
        },
        None => seq![base@],
    }));
    if !str_eq(input, base.as_str()) {
        let mut found = false;
        let mut i: usize = 0;
        while i < keys.len()
            invariant
                i <= keys@.len(),
                found == text::string_views(keys@).take(i as int).contains(input@),
            decreases keys@.len() - i,
        {
            assert(text::string_views(keys@).take(i + 1) =~= text::string_views(keys@).take(i as int).push(
                keys@[i as int]@,
            ));
            proof {
                vstd::seq_lib::lemma_seq_contains_after_push(
                    text::string_views(keys@).take(i as int),
                    keys@[i as int]@,
                    input@,
                );
            }
            if str_eq(keys[i].as_str(), input) {
                found = true;
            }
            i = i + 1;
        }
        assert(text::string_views(keys@).take(keys@.len() as int) =~= text::string_views(keys@));
        if !found {
            keys.push(input.to_string());
            assert(text::string_views(keys@) =~= with_active.push(input@));
        }
    }
    (base, keys)
}

// ---------------------------------------------------------------------------
// Loading the overview and running searches in the background
// ---------------------------------------------------------------------------

/// What a look at the background overview load found.
#[derive(Debug)]
pub enum LoadPoll {
    Loaded,
    Failed(String),
    Pending,
    Disconnected,
}

/// The memory page's bookkeeping of its overview load.
#[derive(Debug)]
pub struct OverviewLoader {
    /// Whether an overview was ever loaded.
    pub loaded: bool,
    /// Whether the page shows that it is loading.
    pub loading: bool,
    /// Whether a reload was asked for while one was running.
    pub refresh_queued: bool,
    /// Whether a load runs in the background.
    pub request_running: bool,
}

/// What the page does after a look at the overview load: show `notice`, and start a new
/// load when `send`.
#[derive(Debug)]
pub struct LoadOutcome {
    pub notice: Option<Notice>,
    pub send: bool,
}

impl OverviewLoader {
    /// Nothing loaded, nothing running.
    pub fn new() -> (l: Self)
        ensures
            !l.loaded && !l.loading && !l.refresh_queued && !l.request_running,
    {
        OverviewLoader { loaded: false, loading: false, refresh_queued: false, request_running: false }
    }

    /// Asks for a load; true when a new load has to be started. While one runs, the request
    /// is queued for when it ends.
    pub fn refresh(&mut self) -> (send: bool)
        ensures
            send == !old(self).request_running,
            old(self).request_running ==> final(self).refresh_queued && final(self).request_running
                && final(self).loading == old(self).loading && final(self).loaded == old(self).loaded,
            !old(self).request_running ==> final(self).request_running && final(self).loading
                && final(self).refresh_queued == old(self).refresh_queued && final(self).loaded == old(
                self,
            ).loaded,
    {
        if self.request_running {
            self.refresh_queued = true;
            return false;
        }
        self.loading = true;
        self.request_running = true;
        true
    }

    /// Loads the overview the first time the page shows; true when a load has to start.
    pub fn ensure_loaded(&mut self) -> (send: bool)
        ensures
            send == (!old(self).loaded && !old(self).request_running),
            !send ==> *final(self) == *old(self),
            send ==> final(self).request_running && final(self).loading && final(self).refresh_queued
                == old(self).refresh_queued && !final(self).loaded,
    {
        if self.loaded || self.request_running {
            return false;
        }
        self.refresh()
    }

    /// Takes in what the running load answered. A reload queued meanwhile starts once the
    /// load ends with an answer.
    pub fn poll_load(&mut self, poll: LoadPoll) -> (r: LoadOutcome)
        ensures
            (!old(self).request_running || poll is Pending) ==> r.notice is None && !r.send
                && *final(self) == *old(self),
            old(self).request_running ==> match poll {
                LoadPoll::Pending => true,
                LoadPoll::Loaded => {
                    &&& r.notice is None
                    &&& final(self).loaded
                    &&& r.send == old(self).refresh_queued
                    &&& !final(self).refresh_queued
                    &&& final(self).request_running == r.send
                    &&& final(self).loading == r.send
                },
                LoadPoll::Failed(e) => {
                    &&& r.notice is Some && r.notice->0 is Error && r.notice->0->Error_0@
                        == "Failed to load memory panel: "@ + e@
                    &&& final(self).loaded == old(self).loaded
                    &&& r.send == old(self).refresh_queued
                    &&& !final(self).refresh_queued
                    &&& final(self).request_running == r.send
                    &&& final(self).loading == r.send
                },
                LoadPoll::Disconnected => {
                    &&& r.notice is Some && r.notice->0 is Error && r.notice->0->Error_0@
                        == "Memory panel loader closed unexpectedly"@
                    &&& final(self).loaded == old(self).loaded
                    &&& !r.send
                    &&& final(self).refresh_queued == old(self).refresh_queued
                    &&& !final(self).request_running
                    &&& !final(self).loading
                },
            },
    {
        if !self.request_running {
            return LoadOutcome { notice: None, send: false };
        }
        let notice = match poll {
            LoadPoll::Pending => {
                return LoadOutcome { notice: None, send: false };
            },
            LoadPoll::Loaded => {
                self.loaded = true;
                None
            },
            LoadPoll::Failed(err) => Some(Notice::Error(concat_str("Failed to load memory panel: ", err.as_str()))),
            LoadPoll::Disconnected => {
                self.request_running = false;
                self.loading = false;
                return LoadOutcome {
                    notice: Some(Notice::Error("Memory panel loader closed unexpectedly".to_string())),
                    send: false,
                };
            },
        };
        self.request_running = false;
        self.loading = false;
        let mut send = false;
        if self.refresh_queued {
            self.refresh_queued = false;
            send = self.refresh();
        }
        LoadOutcome { notice, send }
    }
}

/// The session key the search shows once an overview came: the one typed when it is one
/// of the options, else the first option, else nothing.
pub open spec fn session_key_after_load(current: Seq<char>, options: Seq<Seq<char>>) -> Seq<char> {
    if text::trim(current).len() == 0 || !options.contains(current) {
        if options.len() > 0 {
            options[0]
        } else {
            Seq::empty()
        }
    } else {
        current
    }
}

/// The session key to show once an overview with the given key options came.
pub fn pick_session_key(current: &str, options: &Vec<String>) -> (r: String)
    ensures
        r@ == session_key_after_load(current@, text::string_views(options@)),
{
    let blank = trim_vec(&to_chars(current)).len() == 0;
    let mut found = false;
    let mut i: usize = 0;
    while i < options.len()
        invariant
            i <= options@.len(),
            found == text::string_views(options@).take(i as int).contains(current@),
        decreases options@.len() - i,
    {
        assert(text::string_views(options@).take(i + 1) =~= text::string_views(options@).take(i as int).push(
            options@[i as int]@,
        ));
        proof {
            vstd::seq_lib::lemma_seq_contains_after_push(
                text::string_views(options@).take(i as int),
                options@[i as int]@,
                current@,
            );
        }
        if str_eq(options[i].as_str(), current) {
            found = true;
        }
        i = i + 1;
    }
    assert(text::string_views(options@).take(options@.len() as int) =~= text::string_views(options@));
    if blank || !found {
        if options.len() > 0 {
            options[0].clone()
        } else {
            String::new()
        }
    } else {
        current.to_string()
    }
}

/// What starting a session search leads to.
#[derive(Debug)]
pub enum SearchStart {
    /// A search runs already; nothing happens.
    Busy,
    /// The fields are refused, with the message to show.
    Refused(String),
    /// The search to run in the background.
    Start(SessionSearchRequest),
}

/// What a look at the background search found; `O` is what a search finds.
#[derive(Debug)]
pub enum SearchPoll<O> {
    Done(Result<O, String>),
    Pending,
    Disconnected,
}

/// What the page does after a look at the search: show `notice`, and show `output` as the
/// new result.
#[derive(Debug)]
pub struct SearchOutcome<O> {
    pub notice: Option<Notice>,
    pub output: Option<O>,
}

/// Whether a session search runs in the background.
#[derive(Debug)]
pub struct SessionSearchState {
    pub loading: bool,
}

impl SessionSearchState {
    /// Starts the search the fields ask for, unless one runs or the fields are refused.
    pub fn begin_session_search(&mut self, form: &SessionSearchForm) -> (r: SearchStart)
        ensures
            old(self).loading ==> r is Busy && final(self).loading,
            !old(self).loading ==> match r {
                SearchStart::Busy => false,
                SearchStart::Refused(e) => session_search_error(*form) == Some(e@) && !final(self).loading,
                SearchStart::Start(q) => {
                    &&& session_search_error(*form) is None
                    &&& final(self).loading
                    &&& q.session_key@ == text::trim(form.session_key@)
                    &&& q.query@ == text::trim(form.query@)
                    &&& field_number(form.within_days@, i64::MAX as nat) == Some(q.within_days as nat)
                    &&& field_number(form.limit@, usize::MAX as nat) == Some(q.limit as nat)
                },
            },
    {
        if self.loading {
            return SearchStart::Busy;
        }
        match session_search_request(form) {
            Ok(q) => {
                self.loading = true;
                SearchStart::Start(q)
            },
            Err(e) => SearchStart::Refused(e),
        }
    }

    /// Takes in what the running search answered.
    pub fn poll_session_search<O>(&mut self, poll: SearchPoll<O>) -> (r: SearchOutcome<O>)
        ensures
            (!old(self).loading || poll is Pending) ==> r.notice is None && r.output is None
                && final(self).loading == old(self).loading,
            old(self).loading ==> match poll {
                SearchPoll::Pending => true,
                SearchPoll::Done(Ok(o)) => r.notice is None && r.output == Some(o) && !final(self).loading,
                SearchPoll::Done(Err(e)) => r.output is None && !final(self).loading && r.notice is Some
                    && r.notice->0 is Error && r.notice->0->Error_0@ == "Session search failed: "@ + e@,
                SearchPoll::Disconnected => r.output is None && !final(self).loading && r.notice is Some
                    && r.notice->0 is Error && r.notice->0->Error_0@
                    == "Session search task disconnected unexpectedly"@,
            },
    {
        if !self.loading {
            return SearchOutcome { notice: None, output: None };
        }
        match poll {
            SearchPoll::Pending => SearchOutcome { notice: None, output: None },
            SearchPoll::Done(Ok(o)) => {
                self.loading = false;
                SearchOutcome { notice: None, output: Some(o) }
            },
            SearchPoll::Done(Err(e)) => {
                self.loading = false;
                SearchOutcome {
                    notice: Some(Notice::Error(concat_str("Session search failed: ", e.as_str()))),
                    output: None,
                }
            },
            SearchPoll::Disconnected => {
                self.loading = false;
                SearchOutcome {
                    notice: Some(Notice::Error("Session search task disconnected unexpectedly".to_string())),
                    output: None,
                }
            },
        }
    }
}

} // verus!
