use vstd::prelude::*;

use crate::keyed::KeyedMap;
use crate::text;
use crate::text::{concat_str, str_eq, trim_str};
use crate::tool;
use crate::tool::{clone_opt, optional_string, text_or_empty};
use crate::panels::Notice;

verus! {

/// One model provider of the configuration.
#[derive(Debug)]
pub struct ModelProviderConfig {
    pub name: Option<String>,
    pub base_url: String,
    pub wire_api: String,
    pub default_model: String,
    pub tokenizer_path: Option<String>,
    pub proxy: bool,
    pub stream: bool,
    pub env_key: Option<String>,
    pub api_key: Option<String>,
}

impl ModelProviderConfig {
    /// The provider that a new configuration starts with.
    pub fn openai() -> (p: Self)
        ensures
            p.name is None,
            p.base_url@ == "https://api.openai.com/v1"@,
            p.wire_api@ == "chat_completions"@,
            p.default_model@ == "gpt-4o-mini"@,
            p.tokenizer_path is None,
            !p.proxy,
            !p.stream,
            tool::opt_view(p.env_key) == Some("OPENAI_API_KEY"@),
            p.api_key is None,
    {
        ModelProviderConfig {
            name: None,
            base_url: "https://api.openai.com/v1".to_owned(),
            wire_api: "chat_completions".to_owned(),
            default_model: "gpt-4o-mini".to_owned(),
            tokenizer_path: None,
            proxy: false,
            stream: false,
            env_key: Some("OPENAI_API_KEY".to_owned()),
            api_key: None,
        }
    }
}

impl Default for ModelProviderConfig {
    fn default() -> (p: Self)
        ensures
            p.name is None,
            p.base_url@ == "https://api.openai.com/v1"@,
            p.wire_api@ == "chat_completions"@,
            p.default_model@ == "gpt-4o-mini"@,
            p.tokenizer_path is None,
            !p.proxy,
            !p.stream,
            tool::opt_view(p.env_key) == Some("OPENAI_API_KEY"@),
            p.api_key is None,
    {
        ModelProviderConfig::openai()
    }
}

/// The part of the application configuration that names providers: the providers, the
/// active one, and the one memory embedding uses.
#[derive(Debug)]
pub struct ProviderConfig {
    pub model_providers: KeyedMap<ModelProviderConfig>,
    pub model_provider: String,
    pub embedding_enabled: bool,
    pub embedding_provider: String,
    pub embedding_model: String,
}

impl ProviderConfig {
    /// A configuration with the `openai` provider, active.
    pub fn new() -> (c: Self)
        ensures
            c.model_providers@.dom() == set![ "openai"@ ],
            c.model_provider@ == "openai"@,
            !c.embedding_enabled,
            c.embedding_provider@ == "openai"@,
            c.embedding_model@ == Seq::<char>::empty(),
    {
        let mut providers = KeyedMap::new();
        providers.insert("openai".to_owned(), ModelProviderConfig::openai());
        assert(providers@.dom() =~= set![ "openai"@ ]);
        ProviderConfig {
            model_providers: providers,
            model_provider: "openai".to_owned(),
            embedding_enabled: false,
            embedding_provider: "openai".to_owned(),
            embedding_model: String::new(),
        }
    }
}

impl Default for ProviderConfig {
    fn default() -> (c: Self)
        ensures
            c.model_providers@.dom() == set![ "openai"@ ],
            c.model_provider@ == "openai"@,
            !c.embedding_enabled,
            c.embedding_provider@ == "openai"@,
            c.embedding_model@ == Seq::<char>::empty(),
    {
        ProviderConfig::new()
    }
}

/// The form that adds or edits a provider.
#[derive(Debug)]
pub struct ProviderForm {
    pub original_id: Option<String>,
    pub id: String,
    pub name: String,
    pub base_url: String,
    pub wire_api: String,
    pub default_model: String,
    pub tokenizer_path: String,
    pub proxy: bool,
    pub stream: bool,
    pub env_key: String,
    pub api_key: String,
    pub set_as_active: bool,
}

/// Whether provider `p` is what form `f` describes: every text trimmed, blank optional
/// texts unset.
pub open spec fn provider_from_form(p: ModelProviderConfig, f: ProviderForm) -> bool {
    &&& tool::opt_view(p.name) == tool::optional_text(f.name@)
    &&& p.base_url@ == text::trim(f.base_url@)
    &&& p.wire_api@ == text::trim(f.wire_api@)
    &&& p.default_model@ == text::trim(f.default_model@)
    &&& tool::opt_view(p.tokenizer_path) == tool::optional_text(f.tokenizer_path@)
    &&& p.proxy == f.proxy
    &&& p.stream == f.stream
    &&& tool::opt_view(p.env_key) == tool::optional_text(f.env_key@)
    &&& tool::opt_view(p.api_key) == tool::optional_text(f.api_key@)
}

/// Whether form `f` edits provider `id` and shows its settings `p`.
pub open spec fn edit_form_shows(f: ProviderForm, id: Seq<char>, p: ModelProviderConfig) -> bool {
    &&& f.original_id is Some && f.original_id->0@ == id
    &&& f.id@ == id
    &&& f.name@ == tool::text_of(p.name)
    &&& f.base_url@ == p.base_url@
    &&& f.wire_api@ == p.wire_api@
    &&& f.default_model@ == p.default_model@
    &&& f.tokenizer_path@ == tool::text_of(p.tokenizer_path)
    &&& f.proxy == p.proxy
    &&& f.stream == p.stream
    &&& f.env_key@ == tool::text_of(p.env_key)
    &&& f.api_key@ == tool::text_of(p.api_key)
}

/// Whether a provider's settings read back the same through the form: required texts
/// not blank and without surrounding white space, optional texts clean.
pub open spec fn provider_clean(p: ModelProviderConfig) -> bool {
    &&& p.base_url@.len() > 0 && text::trim(p.base_url@) == p.base_url@
    &&& p.wire_api@.len() > 0 && text::trim(p.wire_api@) == p.wire_api@
    &&& p.default_model@.len() > 0 && text::trim(p.default_model@) == p.default_model@
    &&& tool::clean_optional(p.name)
    &&& tool::clean_optional(p.tokenizer_path)
    &&& tool::clean_optional(p.env_key)
    &&& tool::clean_optional(p.api_key)
}

impl ProviderForm {
    /// A form for a new provider, prefilled from the default provider.
    pub fn new() -> (f: Self)
        ensures
            f.original_id is None,
            f.id@ == Seq::<char>::empty(),
            f.name@ == Seq::<char>::empty(),
            f.base_url@ == "https://api.openai.com/v1"@,
            f.wire_api@ == "chat_completions"@,
            f.default_model@ == "gpt-4o-mini"@,
            f.tokenizer_path@ == Seq::<char>::empty(),
            !f.proxy,
            !f.stream,
            f.env_key@ == "OPENAI_API_KEY"@,
            f.api_key@ == Seq::<char>::empty(),
            !f.set_as_active,
    {
        let d = ModelProviderConfig::openai();
        ProviderForm {
            original_id: None,
            id: String::new(),
            name: text_or_empty(&d.name),
            base_url: d.base_url,
            wire_api: d.wire_api,
            default_model: d.default_model,
            tokenizer_path: text_or_empty(&d.tokenizer_path),
            proxy: d.proxy,
            stream: d.stream,
            env_key: text_or_empty(&d.env_key),
            api_key: text_or_empty(&d.api_key),
            set_as_active: false,
        }
    }

    /// A form that edits provider `id`; it is marked active when `id` is the active provider.
    pub fn edit(id: &str, provider: &ModelProviderConfig, active_provider: &str) -> (f: Self)
        ensures
            edit_form_shows(f, id@, *provider),
            f.base_url == provider.base_url,
            f.wire_api == provider.wire_api,
            f.default_model == provider.default_model,
            f.set_as_active == (id@ == active_provider@),
    {
        ProviderForm {
            original_id: Some(id.to_owned()),
            id: id.to_owned(),
            name: text_or_empty(&provider.name),
            base_url: provider.base_url.clone(),
            wire_api: provider.wire_api.clone(),
            default_model: provider.default_model.clone(),
            tokenizer_path: text_or_empty(&provider.tokenizer_path),
            proxy: provider.proxy,
            stream: provider.stream,
            env_key: text_or_empty(&provider.env_key),
            api_key: text_or_empty(&provider.api_key),
            set_as_active: str_eq(id, active_provider),
        }
    }

    /// The window title: editing or adding.
    pub fn title(&self) -> (r: &'static str)
        ensures
            r@ == (if self.original_id is Some {
                "Edit Provider"@
            } else {
                "Add Provider"@
            }),
    {
        if self.original_id.is_some() {
            "Edit Provider"
        } else {
            "Add Provider"
        }
    }

    /// The provider id, trimmed.
    pub fn normalized_id(&self) -> (r: String)
        ensures
            r@ == text::trim(self.id@),
    {
        trim_str(self.id.as_str())
    }

    /// The provider the form describes.
    pub fn to_config(&self) -> (p: ModelProviderConfig)
        ensures
            provider_from_form(p, *self),
    {
        ModelProviderConfig {
            name: optional_string(self.name.as_str()),
            base_url: trim_str(self.base_url.as_str()),
            wire_api: trim_str(self.wire_api.as_str()),
            default_model: trim_str(self.default_model.as_str()),
            tokenizer_path: optional_string(self.tokenizer_path.as_str()),
            proxy: self.proxy,
            stream: self.stream,
            env_key: optional_string(self.env_key.as_str()),
            api_key: optional_string(self.api_key.as_str()),
        }
    }
}

/// Whether the form renames the provider it edits.
pub open spec fn renames(form: ProviderForm) -> bool {
    form.original_id is Some && form.original_id->0@ != text::trim(form.id@)
}

/// The message that refuses a form, if the form is refused.
pub open spec fn provider_form_error(config: ProviderConfig, form: ProviderForm) -> Option<Seq<char>> {
    let id = text::trim(form.id@);
    if id.len() == 0 {
        Some("Provider ID cannot be empty"@)
    } else if text::trim(form.base_url@).len() == 0 {
        Some("Base URL cannot be empty"@)
    } else if text::trim(form.wire_api@).len() == 0 {
        Some("Wire API cannot be empty"@)
    } else if text::trim(form.default_model@).len() == 0 {
        Some("Default model cannot be empty"@)
    } else if (form.original_id is None || renames(form)) && config.model_providers@.dom().contains(
        id,
    ) {
        Some("Provider ID '"@ + id + "' already exists, choose another ID"@)
    } else {
        None
    }
}

/// The providers kept beside the one a form saves: all, less the old entry of a renamed one.
pub open spec fn providers_kept(config: ProviderConfig, form: ProviderForm) -> Map<
    Seq<char>,
    ModelProviderConfig,
> {
    if renames(form) {
        config.model_providers@.remove(form.original_id->0@)
    } else {
        config.model_providers@
    }
}

/// A reference to a provider after a form saved: it follows a renamed provider.
pub open spec fn followed_reference(reference: Seq<char>, form: ProviderForm) -> Seq<char> {
    if renames(form) && reference == form.original_id->0@ {
        text::trim(form.id@)
    } else {
        reference
    }
}

/// The message that refuses to delete a provider, if it is refused.
pub open spec fn remove_provider_error(config: ProviderConfig, id: Seq<char>) -> Option<Seq<char>> {
    if !config.model_providers@.dom().contains(id) {
        Some("Provider '"@ + id + "' not found"@)
    } else if config.model_provider@ == id {
        Some("Cannot delete active provider '"@ + id
            + "'. Set another provider active first."@)
    } else if config.embedding_enabled && config.embedding_provider@ == id {
        Some("Cannot delete provider '"@ + id + "' because memory embedding uses it."@)
    } else {
        None
    }
}

/// The provider settings page.
#[derive(Debug)]
pub struct ProviderPanel {
    pub config: ProviderConfig,
    pub form: Option<ProviderForm>,
    pub selected_provider: Option<String>,
    pub delete_confirm: Option<String>,
}

impl ProviderPanel {
    /// Saves `form` into `config`, or says why it cannot be saved. The saved provider is
    /// stored under the trimmed id; renaming a provider moves the active provider and the
    /// embedding provider along with it, and the form can make the provider active.
    pub fn apply_form(config: ProviderConfig, form: &ProviderForm) -> (r: Result<ProviderConfig, String>)
        ensures
            match r {
                Err(e) => provider_form_error(config, *form) == Some(e@),
                Ok(c) => {
                    let id = text::trim(form.id@);
                    &&& provider_form_error(config, *form) is None
                    &&& c.model_providers@ == providers_kept(config, *form).insert(
                        id,
                        c.model_providers@[id],
                    )
                    &&& provider_from_form(c.model_providers@[id], *form)
                    &&& c.model_provider@ == (if form.set_as_active {
                        id
                    } else {
                        followed_reference(config.model_provider@, *form)
                    })
                    &&& c.embedding_provider@ == followed_reference(
                        config.embedding_provider@,
                        *form,
                    )
                    &&& c.embedding_enabled == config.embedding_enabled
                    &&& c.embedding_model == config.embedding_model
                },
            },
    {
        let mut config = config;
        let ghost before = config;
        let provider_id = form.normalized_id();
        if provider_id.as_str().is_empty() {
            return Err("Provider ID cannot be empty".to_owned());
        }
        let provider = form.to_config();
        if provider.base_url.as_str().is_empty() {
            return Err("Base URL cannot be empty".to_owned());
        }
        if provider.wire_api.as_str().is_empty() {
            return Err("Wire API cannot be empty".to_owned());
        }
        if provider.default_model.as_str().is_empty() {
            return Err("Default model cannot be empty".to_owned());
        }
        let duplicate_msg = {
            let head = concat_str("Provider ID '", provider_id.as_str());
            concat_str(head.as_str(), "' already exists, choose another ID")
        };
        assert(duplicate_msg@ =~= "Provider ID '"@ + provider_id@
            + "' already exists, choose another ID"@);
        match &form.original_id {
            Some(original_id) => {
                if !str_eq(original_id.as_str(), provider_id.as_str()) {
                    if config.model_providers.contains_key(provider_id.as_str()) {
                        return Err(duplicate_msg);
                    }
                    config.model_providers.remove(original_id.as_str());
                    if str_eq(config.model_provider.as_str(), original_id.as_str()) {
                        config.model_provider = provider_id.clone();
                    }
                    if str_eq(config.embedding_provider.as_str(), original_id.as_str()) {
                        config.embedding_provider = provider_id.clone();
                    }
                }
            },
            None => {
                if config.model_providers.contains_key(provider_id.as_str()) {
                    return Err(duplicate_msg);
                }
            },
        }
        let ghost kept = config.model_providers@;
        assert(kept == providers_kept(before, *form));
        config.model_providers.insert(provider_id.clone(), provider);
        assert(config.model_providers@ == kept.insert(provider_id@, config.model_providers@[provider_id@]));
        if form.set_as_active || str_eq(config.model_provider.as_str(), provider_id.as_str()) {
            config.model_provider = provider_id;
        }
        Ok(config)
    }

    /// Deletes provider `provider_id` from `config`, unless it is missing, active, or used
    /// by memory embedding.
    pub fn remove_provider(config: ProviderConfig, provider_id: &str) -> (r: Result<ProviderConfig, String>)
        ensures
            match r {
                Err(e) => remove_provider_error(config, provider_id@) == Some(e@),
                Ok(c) => {
                    &&& remove_provider_error(config, provider_id@) is None
                    &&& c.model_providers@ == config.model_providers@.remove(provider_id@)
                    &&& c.model_provider == config.model_provider
                    &&& c.embedding_enabled == config.embedding_enabled
                    &&& c.embedding_provider == config.embedding_provider
                    &&& c.embedding_model == config.embedding_model
                },
            },
    {
        let mut config = config;
        if !config.model_providers.contains_key(provider_id) {
            let head = concat_str("Provider '", provider_id);
            let msg = concat_str(head.as_str(), "' not found");
            assert(msg@ =~= "Provider '"@ + provider_id@ + "' not found"@);
            return Err(msg);
        }
        if str_eq(config.model_provider.as_str(), provider_id) {
            let head = concat_str("Cannot delete active provider '", provider_id);
            let msg = concat_str(head.as_str(), "'. Set another provider active first.");
            assert(msg@ =~= "Cannot delete active provider '"@ + provider_id@
                + "'. Set another provider active first."@);
            return Err(msg);
        }
        if config.embedding_enabled && str_eq(config.embedding_provider.as_str(), provider_id) {
            let head = concat_str("Cannot delete provider '", provider_id);
            let msg = concat_str(head.as_str(), "' because memory embedding uses it.");
            assert(msg@ =~= "Cannot delete provider '"@ + provider_id@
                + "' because memory embedding uses it."@);
            return Err(msg);
        }
        config.model_providers.remove(provider_id);
        Ok(config)
    }

    /// Opens the form for a new provider; it becomes active when it is the first provider.
    pub fn open_add_provider(&mut self)
        ensures
            final(self).form is Some,
            final(self).form->0.original_id is None,
            final(self).form->0.id@ == Seq::<char>::empty(),
            final(self).form->0.set_as_active == (old(self).config.model_providers@.dom()
                == Set::<Seq<char>>::empty()),
            final(self).config == old(self).config,
    {
        let mut form = ProviderForm::new();
        form.set_as_active = self.config.model_providers.is_empty();
        self.form = Some(form);
    }

    /// Opens the form on provider `provider_id`, when there is one.
    pub fn open_edit_provider(&mut self, provider_id: &str)
        ensures
            !old(self).config.model_providers@.dom().contains(provider_id@) ==> final(self).form
                == old(self).form,
            old(self).config.model_providers@.dom().contains(provider_id@) ==> {
                let p = old(self).config.model_providers@[provider_id@];
                let f = final(self).form->0;
                &&& final(self).form is Some
                &&& f.original_id is Some && f.original_id->0@ == provider_id@
                &&& f.id@ == provider_id@
                &&& f.name@ == tool::text_of(p.name)
                &&& f.base_url == p.base_url
                &&& f.wire_api == p.wire_api
                &&& f.default_model == p.default_model
                &&& f.set_as_active == (provider_id@ == old(self).config.model_provider@)
            },
            final(self).config == old(self).config,
    {
        let form = match self.config.model_providers.get(provider_id) {
            Some(p) => Some(ProviderForm::edit(provider_id, p, self.config.model_provider.as_str())),
            None => None,
        };
        if form.is_some() {
            self.form = form;
        }
    }
}

/// Why a provider cannot be made the active one, with the message to show.
#[derive(Debug)]
pub enum ActivateRefusal {
    /// No provider has that id (an error).
    NotFound(String),
    /// The provider is active already (for information).
    AlreadyActive(String),
}

/// A change of the provider settings that the running runtime has to follow.
#[derive(Clone, Copy, Debug, PartialEq, Eq, Structural)]
pub enum ProviderChange {
    Activated,
    Saved,
    Deleted,
}

impl ProviderPanel {
    /// Makes provider `provider_id` the active one, unless there is no such provider or it
    /// is active already.
    pub fn activate_provider(config: ProviderConfig, provider_id: &str) -> (r: Result<ProviderConfig, ActivateRefusal>)
        ensures
            match r {
                Ok(c) => {
                    &&& config.model_providers@.dom().contains(provider_id@)
                    &&& config.model_provider@ != provider_id@
                    &&& c.model_provider@ == provider_id@
                    &&& c.model_providers == config.model_providers
                    &&& c.embedding_enabled == config.embedding_enabled
                    &&& c.embedding_provider == config.embedding_provider
                    &&& c.embedding_model == config.embedding_model
                },
                Err(ActivateRefusal::NotFound(m)) => !config.model_providers@.dom().contains(provider_id@)
                    && m@ == "Provider '"@ + provider_id@ + "' not found"@,
                Err(ActivateRefusal::AlreadyActive(m)) => config.model_providers@.dom().contains(provider_id@)
                    && config.model_provider@ == provider_id@ && m@ == "Provider '"@ + provider_id@
                    + "' is already active"@,
            },
    {
        if !config.model_providers.contains_key(provider_id) {
            let msg = concat_str(concat_str("Provider '", provider_id).as_str(), "' not found");
            proof {
                assert(msg@ =~= "Provider '"@ + provider_id@ + "' not found"@);
            }
            return Err(ActivateRefusal::NotFound(msg));
        }
        if str_eq(config.model_provider.as_str(), provider_id) {
            let msg = concat_str(concat_str("Provider '", provider_id).as_str(), "' is already active");
            proof {
                assert(msg@ =~= "Provider '"@ + provider_id@ + "' is already active"@);
            }
            return Err(ActivateRefusal::AlreadyActive(msg));
        }
        let mut config = config;
        config.model_provider = provider_id.to_string();
        Ok(config)
    }

    /// A click on the row of provider `provider_id`: selects it, or clears the selection
    /// when it was selected.
    pub fn toggle_selection(&mut self, provider_id: &str)
        ensures
            crate::tool::opt_view(final(self).selected_provider) == crate::panels::selection_after_click(
                crate::tool::opt_view(old(self).selected_provider),
                provider_id@,
            ),
            final(self).config == old(self).config,
            final(self).form == old(self).form,
            final(self).delete_confirm == old(self).delete_confirm,
    {
        crate::panels::toggle_selected(&mut self.selected_provider, provider_id);
    }

    /// Forgets the selection of a provider that was deleted.
    pub fn forget_deleted_provider(&mut self, provider_id: &str)
        ensures
            selects(old(self).selected_provider, provider_id@) ==> final(self).selected_provider is None,
            !selects(old(self).selected_provider, provider_id@) ==> final(self).selected_provider
                == old(self).selected_provider,
            final(self).config == old(self).config,
            final(self).form == old(self).form,
            final(self).delete_confirm == old(self).delete_confirm,
    {
        let clear = match &self.selected_provider {
            Some(s) => str_eq(s.as_str(), provider_id),
            None => false,
        };
        if clear {
            self.selected_provider = None;
        }
    }
}

/// Whether the selection is provider `id`.
pub open spec fn selects(selected: Option<String>, id: Seq<char>) -> bool {
    match selected {
        Some(s) => s@ == id,
        None => false,
    }
}

/// The messages shown once the runtime has followed a change, or failed to.
pub open spec fn sync_message_texts(change: ProviderChange, id: Seq<char>) -> (Seq<char>, Seq<char>) {
    match change {
        ProviderChange::Activated => (
            "Set active provider to '"@ + id + "' and synced running runtime"@,
            "Saved active provider to '"@ + id + "', but failed to sync running runtime"@,
        ),
        ProviderChange::Saved => (
            "Provider configuration saved and runtime synced"@,
            "Provider configuration saved, but failed to sync running runtime"@,
        ),
        ProviderChange::Deleted => (
            "Deleted provider '"@ + id + "' and synced runtime"@,
            "Deleted provider '"@ + id + "', but failed to sync running runtime"@,
        ),
    }
}

/// The success and failure messages of the runtime synchronization that follows a change
/// of provider `id`.
pub fn sync_messages(change: ProviderChange, id: &str) -> (r: (String, String))
    ensures
        (r.0@, r.1@) == sync_message_texts(change, id@),
{
    match change {
        ProviderChange::Activated => {
            let ok = concat_str(concat_str("Set active provider to '", id).as_str(), "' and synced running runtime");
            let failed = concat_str(concat_str("Saved active provider to '", id).as_str(), "', but failed to sync running runtime");
            proof {
                assert(ok@ =~= "Set active provider to '"@ + id@ + "' and synced running runtime"@);
                assert(failed@ =~= "Saved active provider to '"@ + id@
                    + "', but failed to sync running runtime"@);
            }
            (ok, failed)
        },
        ProviderChange::Saved => (
            "Provider configuration saved and runtime synced".to_string(),
            "Provider configuration saved, but failed to sync running runtime".to_string(),
        ),
        ProviderChange::Deleted => {
            let ok = concat_str(concat_str("Deleted provider '", id).as_str(), "' and synced runtime");
            let failed = concat_str(concat_str("Deleted provider '", id).as_str(), "', but failed to sync running runtime");
            proof {
                assert(ok@ =~= "Deleted provider '"@ + id@ + "' and synced runtime"@);
                assert(failed@ =~= "Deleted provider '"@ + id@ + "', but failed to sync running runtime"@);
            }
            (ok, failed)
        },
    }
}

/// The time between two automatic status requests, in milliseconds.
pub const PROVIDER_STATUS_POLL_INTERVAL_MS: u64 = 2000;

/// The provider page's bookkeeping of its background requests to the runtime; `S` is the
/// runtime's status report.
#[derive(Debug)]
pub struct ProviderRuntime<S> {
    /// The last status report received.
    pub runtime_status: Option<S>,
    /// Whether a status request is running.
    pub status_waiting: bool,
    /// Whether a status request was ever started.
    pub status_started: bool,
    /// Whether a synchronization request is running.
    pub sync_waiting: bool,
    pub sync_success_message: Option<String>,
    pub sync_failure_message: Option<String>,
}

impl<S> ProviderRuntime<S> {
    /// Nothing received, nothing running.
    pub fn new() -> (r: Self)
        ensures
            r.runtime_status is None,
            !r.status_waiting && !r.status_started && !r.sync_waiting,
            r.sync_success_message is None && r.sync_failure_message is None,
    {
        ProviderRuntime {
            runtime_status: None,
            status_waiting: false,
            status_started: false,
            sync_waiting: false,
            sync_success_message: None,
            sync_failure_message: None,
        }
    }

    /// Takes in the answer of the running status request, if one came (`answer`), and
    /// says whether a new status request is due: when none runs and none was started yet,
    /// or the last one started at least the poll interval ago (`elapsed_ms`).
    pub fn refresh_runtime_status(&mut self, answer: Option<Result<S, String>>, elapsed_ms: u64) -> (send: bool)
        ensures
            ({
                let still_waiting = old(self).status_waiting && answer is None;
                &&& send == (!still_waiting && (!old(self).status_started || elapsed_ms
                    >= PROVIDER_STATUS_POLL_INTERVAL_MS))
                &&& final(self).status_waiting == (still_waiting || send)
                &&& final(self).status_started == (old(self).status_started || send)
            }),
            old(self).status_waiting ==> (answer matches Some(Ok(s)) ==> final(self).runtime_status
                == Some(s)),
            !(old(self).status_waiting && answer matches Some(Ok(_))) ==> final(self).runtime_status
                == old(self).runtime_status,
            final(self).sync_waiting == old(self).sync_waiting,
            final(self).sync_success_message == old(self).sync_success_message,
            final(self).sync_failure_message == old(self).sync_failure_message,
    {
        if self.status_waiting {
            match answer {
                Some(result) => {
                    self.status_waiting = false;
                    if let Ok(snapshot) = result {
                        self.runtime_status = Some(snapshot);
                    }
                },
                None => {},
            }
        }
        let due = !self.status_started || elapsed_ms >= PROVIDER_STATUS_POLL_INTERVAL_MS;
        if !due || self.status_waiting {
            return false;
        }
        self.status_started = true;
        self.status_waiting = true;
        true
    }

    /// Starts a synchronization of the runtime, with the messages for its outcome.
    pub fn begin_runtime_sync(&mut self, success_message: String, failure_message: String)
        ensures
            final(self).sync_waiting,
            final(self).sync_success_message == Some(success_message),
            final(self).sync_failure_message == Some(failure_message),
            final(self).runtime_status == old(self).runtime_status,
            final(self).status_waiting == old(self).status_waiting,
            final(self).status_started == old(self).status_started,
    {
        self.sync_waiting = true;
        self.sync_success_message = Some(success_message);
        self.sync_failure_message = Some(failure_message);
    }

    /// Takes in the answer of the running synchronization, if one came, and gives the
    /// notice to show: the success message, or the failure message (by default "Failed to
    /// sync running runtime") followed by the error.
    pub fn poll_runtime_sync(&mut self, answer: Option<Result<S, String>>) -> (notice: Option<Notice>)
        ensures
            (!old(self).sync_waiting || answer is None) ==> notice is None && *final(self)
                == *old(self),
            old(self).sync_waiting ==> match answer {
                None => true,
                Some(Ok(s)) => {
                    &&& final(self).runtime_status == Some(s)
                    &&& !final(self).sync_waiting
                    &&& final(self).sync_success_message is None
                    &&& final(self).sync_failure_message is None
                    &&& match old(self).sync_success_message {
                        Some(m) => notice == Some(Notice::Success(m)),
                        None => notice is None,
                    }
                },
                Some(Err(e)) => {
                    let prefix = match old(self).sync_failure_message {
                        Some(m) => m@,
                        None => "Failed to sync running runtime"@,
                    };
                    &&& final(self).runtime_status == old(self).runtime_status
                    &&& !final(self).sync_waiting
                    &&& final(self).sync_success_message is None
                    &&& final(self).sync_failure_message is None
                    &&& notice is Some && notice->0 is Error && notice->0->Error_0@ == prefix + ": "@ + e@
                },
            },
            final(self).status_waiting == old(self).status_waiting,
            final(self).status_started == old(self).status_started,
    {
        if !self.sync_waiting {
            return None;
        }
        let result = match answer {
            Some(r) => r,
            None => return None,
        };
        self.sync_waiting = false;
        match result {
            Ok(snapshot) => {
                self.runtime_status = Some(snapshot);
                self.sync_failure_message = None;
                match self.sync_success_message.take() {
                    Some(m) => Some(Notice::Success(m)),
                    None => None,
                }
            },
            Err(err) => {
                self.sync_success_message = None;
                let prefix = match self.sync_failure_message.take() {
                    Some(m) => m,
                    None => "Failed to sync running runtime".to_string(),
                };
                let msg = concat_str(concat_str(prefix.as_str(), ": ").as_str(), err.as_str());
                proof {
                    assert(msg@ =~= prefix@ + ": "@ + err@);
                }
                Some(Notice::Error(msg))
            },
        }
    }
}

/// Opening the editor of a provider and saving it unchanged is accepted and gives back
/// the same settings, when the provider's id and texts are clean.
pub proof fn lemma_provider_edit_roundtrip(
    config: ProviderConfig,
    id: Seq<char>,
    form: ProviderForm,
    saved: ModelProviderConfig,
)
    requires
        config.model_providers@.dom().contains(id),
        id.len() > 0,
        text::trim(id) == id,
        provider_clean(config.model_providers@[id]),
        edit_form_shows(form, id, config.model_providers@[id]),
        provider_from_form(saved, form),
    ensures
        provider_form_error(config, form) is None,
        !renames(form),
        tool::opt_view(saved.name) == tool::opt_view(config.model_providers@[id].name),
        saved.base_url@ == config.model_providers@[id].base_url@,
        saved.wire_api@ == config.model_providers@[id].wire_api@,
        saved.default_model@ == config.model_providers@[id].default_model@,
        tool::opt_view(saved.tokenizer_path) == tool::opt_view(config.model_providers@[id].tokenizer_path),
        saved.proxy == config.model_providers@[id].proxy,
        saved.stream == config.model_providers@[id].stream,
        tool::opt_view(saved.env_key) == tool::opt_view(config.model_providers@[id].env_key),
        tool::opt_view(saved.api_key) == tool::opt_view(config.model_providers@[id].api_key),
{
    let p = config.model_providers@[id];
    tool::lemma_clean_optional_roundtrip(p.name);
    tool::lemma_clean_optional_roundtrip(p.tokenizer_path);
    tool::lemma_clean_optional_roundtrip(p.env_key);
    tool::lemma_clean_optional_roundtrip(p.api_key);
}

/// Renaming the active provider through a form keeps it active under its new id, and the
/// embedding provider follows the same way.
pub proof fn lemma_rename_keeps_references(config: ProviderConfig, form: ProviderForm)
    requires
        renames(form),
        provider_form_error(config, form) is None,
        config.model_provider@ == form.original_id->0@,
    ensures
        followed_reference(config.model_provider@, form) == text::trim(form.id@),
        config.embedding_provider@ == form.original_id->0@ ==> followed_reference(
            config.embedding_provider@,
            form,
        ) == text::trim(form.id@),
        !providers_kept(config, form).dom().contains(form.original_id->0@),
{
}

} // verus!
