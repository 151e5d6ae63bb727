use vstd::prelude::*;

use crate::numbers;
use crate::numbers::{parse_u32_chars, parse_u64_chars, parse_u8_chars, parse_usize_chars, u64_to_string};
use crate::text;
use crate::text::{from_chars, split_lines, to_chars, trim_str, trim_vec};

verus! {

// ---------------------------------------------------------------------------
// Text fields of the tool forms
// ---------------------------------------------------------------------------

/// The non-blank lines of `lines`, each trimmed, in order.
pub open spec fn nonblank_lines(lines: Seq<Seq<char>>) -> Seq<Seq<char>>
    decreases lines.len(),
{
    if lines.len() == 0 {
        lines
    } else if text::trim(lines.last()).len() == 0 {
        nonblank_lines(lines.drop_last())
    } else {
        nonblank_lines(lines.drop_last()).push(text::trim(lines.last()))
    }
}

/// The entries of a multi-line field: its lines, trimmed, blank ones left out.
pub fn parse_lines(value: &str) -> (r: Vec<String>)
    ensures
        text::string_views(r@) == nonblank_lines(text::lines_of(value@)),
{
    let chars = to_chars(value);
    let ls = split_lines(&chars);
    let ghost all = text::views(ls@);
    let mut r: Vec<String> = Vec::new();
    let mut i: usize = 0;
    assert(all.take(0) =~= Seq::<Seq<char>>::empty());
    assert(text::string_views(r@) =~= Seq::<Seq<char>>::empty());
    while i < ls.len()
        invariant
            i <= ls.len(),
            all == text::views(ls@),
            text::string_views(r@) == nonblank_lines(all.take(i as int)),
        decreases ls.len() - i,
    {
        assert(all.take(i + 1).drop_last() =~= all.take(i as int));
        assert(all.take(i + 1).last() == ls@[i as int]@);
        let t = trim_vec(&ls[i]);
        if t.len() > 0 {
            let ghost before = r@;
            r.push(from_chars(&t));
            assert(text::string_views(r@) =~= text::string_views(before).push(t@));
        }
        i = i + 1;
    }
    assert(all.take(ls.len() as int) =~= all);
    r
}

/// The value of an optional text field: its trimmed text, or nothing when blank.
pub open spec fn optional_text(s: Seq<char>) -> Option<Seq<char>> {
    if text::trim(s).len() > 0 {
        Some(text::trim(s))
    } else {
        None
    }
}

/// The view of an optional string.
pub open spec fn opt_view(o: Option<String>) -> Option<Seq<char>> {
    match o {
        Some(s) => Some(s@),
        None => None,
    }
}

/// The value of an optional text field: its trimmed text, or nothing when blank.
pub fn optional_string(value: &str) -> (r: Option<String>)
    ensures
        opt_view(r) == optional_text(value@),
{
    let trimmed = trim_str(value);
    if trimmed.as_str().is_empty() {
        None
    } else {
        Some(trimmed)
    }
}

/// A copy of an optional string.
pub fn clone_opt(o: &Option<String>) -> (r: Option<String>)
    ensures
        r == *o,
{
    match o {
        Some(s) => Some(s.clone()),
        None => None,
    }
}

/// The text of an optional string, empty when there is none.
pub fn text_or_empty(o: &Option<String>) -> (r: String)
    ensures
        r@ == (match *o {
            Some(s) => s@,
            None => Seq::<char>::empty(),
        }),
{
    match o {
        Some(s) => s.clone(),
        None => String::new(),
    }
}


/// `lines` joined with line breaks.
pub open spec fn join_lines(lines: Seq<Seq<char>>) -> Seq<char>
    decreases lines.len(),
{
    if lines.len() == 0 {
        Seq::<char>::empty()
    } else if lines.len() == 1 {
        lines[0]
    } else {
        join_lines(lines.drop_last()) + "\n"@ + lines.last()
    }
}

/// The strings of `v` joined with line breaks, as a multi-line field shows a list.
pub fn join_with_newlines(v: &Vec<String>) -> (r: String)
    ensures
        r@ == join_lines(text::string_views(v@)),
{
    let ghost all = text::string_views(v@);
    let mut out: Vec<char> = Vec::new();
    let mut k: usize = 0;
    assert(all.take(0) =~= Seq::<Seq<char>>::empty());
    while k < v.len()
        invariant
            k <= v@.len(),
            all == text::string_views(v@),
            out@ == join_lines(all.take(k as int)),
        decreases v@.len() - k,
    {
        assert(all.take(k + 1).drop_last() =~= all.take(k as int));
        assert(all.take(k + 1).last() == v@[k as int]@);
        let mut w = to_chars(v[k].as_str());
        if k > 0 {
            let mut nl = to_chars("\n");
            out.append(&mut nl);
        } else {
            assert(out@ =~= Seq::<char>::empty());
        }
        out.append(&mut w);
        k = k + 1;
    }
    assert(all.take(v@.len() as int) =~= all);
    from_chars(&out)
}

/// What a numeric field holds: its trimmed text read as an unsigned integer no larger
/// than `max`.
pub open spec fn field_number(text: Seq<char>, max: nat) -> Option<nat> {
    numbers::parse_unsigned(text::trim(text), max)
}

/// Reads a numeric field as a `u64`.
pub fn parse_field_u64(value: &str) -> (r: Option<u64>)
    ensures
        match r {
            Some(v) => field_number(value@, u64::MAX as nat) == Some(v as nat),
            None => field_number(value@, u64::MAX as nat) is None,
        },
{
    parse_u64_chars(&trim_vec(&to_chars(value)))
}

/// Reads a numeric field as a `usize`.
pub fn parse_field_usize(value: &str) -> (r: Option<usize>)
    ensures
        match r {
            Some(v) => field_number(value@, usize::MAX as nat) == Some(v as nat),
            None => field_number(value@, usize::MAX as nat) is None,
        },
{
    parse_usize_chars(&trim_vec(&to_chars(value)))
}

/// Reads a numeric field as a `u32`.
pub fn parse_field_u32(value: &str) -> (r: Option<u32>)
    ensures
        match r {
            Some(v) => field_number(value@, u32::MAX as nat) == Some(v as nat),
            None => field_number(value@, u32::MAX as nat) is None,
        },
{
    parse_u32_chars(&trim_vec(&to_chars(value)))
}

/// Reads a numeric field as a `u8`.
pub fn parse_field_u8(value: &str) -> (r: Option<u8>)
    ensures
        match r {
            Some(v) => field_number(value@, u8::MAX as nat) == Some(v as nat),
            None => field_number(value@, u8::MAX as nat) is None,
        },
{
    parse_u8_chars(&trim_vec(&to_chars(value)))
}

// ---------------------------------------------------------------------------
// Tool settings and their forms
// ---------------------------------------------------------------------------

/// The message that refuses the `shell` form, if it is refused: the first numeric field
/// that does not hold a number.
pub open spec fn shell_form_error(f: ShellForm) -> Option<Seq<char>> {
    if field_number(f.max_timeout_ms@, u64::MAX as nat) is None {
        Some("max_timeout_ms must be a positive integer"@)
    } else if field_number(f.max_output_bytes@, usize::MAX as nat) is None {
        Some("max_output_bytes must be a positive integer"@)
    } else {
        None
    }
}

/// Whether the `shell` settings `c` are what form `f` describes.
pub open spec fn shell_form_reads(f: ShellForm, c: ShellConfig) -> bool {
    &&& c.enabled == f.enabled
    &&& opt_view(c.workspace) == optional_text(f.workspace@)
    &&& text::string_views(c.blocked_patterns@) == nonblank_lines(text::lines_of(f.blocked_patterns_text@))
    &&& text::string_views(c.unsafe_patterns@) == nonblank_lines(text::lines_of(f.unsafe_patterns_text@))
    &&& c.allow_login_shell == f.allow_login_shell
    &&& Some(c.max_timeout_ms as nat) == field_number(f.max_timeout_ms@, u64::MAX as nat)
    &&& Some(c.max_output_bytes as nat) == field_number(f.max_output_bytes@, usize::MAX as nat)
}

/// The message that refuses the `channel_attachment` form, if it is refused.
pub open spec fn channel_attachment_form_error(f: ChannelAttachmentForm) -> Option<Seq<char>> {
    if field_number(f.max_bytes@, u64::MAX as nat) is None {
        Some("max_bytes must be a positive integer"@)
    } else {
        None
    }
}

/// Whether the `channel_attachment` settings `c` are what form `f` describes.
pub open spec fn channel_attachment_form_reads(f: ChannelAttachmentForm, c: ChannelAttachmentToolConfig) -> bool {
    &&& c.enabled == f.enabled
    &&& text::string_views(c.local_attachments.allowlist@) == nonblank_lines(text::lines_of(f.allowlist_text@))
    &&& Some(c.local_attachments.max_bytes as nat) == field_number(f.max_bytes@, u64::MAX as nat)
}

/// The message that refuses the `sub_agent` form, if it is refused.
pub open spec fn sub_agent_form_error(f: SubAgentForm) -> Option<Seq<char>> {
    if field_number(f.max_iterations@, u32::MAX as nat) is None {
        Some("max_iterations must be a positive integer"@)
    } else if field_number(f.max_tool_calls@, u32::MAX as nat) is None {
        Some("max_tool_calls must be a positive integer"@)
    } else {
        None
    }
}

/// Whether the `sub_agent` settings `c` are what form `f` describes.
pub open spec fn sub_agent_form_reads(f: SubAgentForm, c: SubAgentConfig) -> bool {
    &&& c.enabled == f.enabled
    &&& Some(c.max_iterations as nat) == field_number(f.max_iterations@, u32::MAX as nat)
    &&& Some(c.max_tool_calls as nat) == field_number(f.max_tool_calls@, u32::MAX as nat)
    &&& c.inherit_parent_tools == f.inherit_parent_tools
    &&& text::string_views(c.exclude_tools@) == nonblank_lines(text::lines_of(f.exclude_tools_text@))
}

/// The message that refuses the `memory` tool form, if it is refused.
pub open spec fn memory_form_error(f: MemoryForm) -> Option<Seq<char>> {
    if field_number(f.search_limit@, usize::MAX as nat) is None {
        Some("search_limit must be a positive integer"@)
    } else if field_number(f.fts_limit@, usize::MAX as nat) is None {
        Some("fts_limit must be a positive integer"@)
    } else if field_number(f.vector_limit@, usize::MAX as nat) is None {
        Some("vector_limit must be a positive integer"@)
    } else {
        None
    }
}

/// Whether the `memory` tool settings `c` are what form `f` describes.
pub open spec fn memory_form_reads(f: MemoryForm, c: MemoryToolConfig) -> bool {
    &&& c.enabled == f.enabled
    &&& Some(c.search_limit as nat) == field_number(f.search_limit@, usize::MAX as nat)
    &&& Some(c.fts_limit as nat) == field_number(f.fts_limit@, usize::MAX as nat)
    &&& Some(c.vector_limit as nat) == field_number(f.vector_limit@, usize::MAX as nat)
    &&& c.use_vector == f.use_vector
}

/// The message that refuses the `web_fetch` form, if it is refused.
pub open spec fn web_fetch_form_error(f: WebFetchForm) -> Option<Seq<char>> {
    if field_number(f.max_chars@, usize::MAX as nat) is None {
        Some("max_chars must be a positive integer"@)
    } else if field_number(f.timeout_seconds@, u64::MAX as nat) is None {
        Some("timeout_seconds must be a positive integer"@)
    } else if field_number(f.cache_ttl_minutes@, u64::MAX as nat) is None {
        Some("cache_ttl_minutes must be a positive integer"@)
    } else if field_number(f.max_redirects@, u8::MAX as nat) is None {
        Some("max_redirects must be an integer between 0 and 255"@)
    } else {
        None
    }
}

/// Whether the `web_fetch` settings `c` are what form `f` describes.
pub open spec fn web_fetch_form_reads(f: WebFetchForm, c: WebFetchConfig) -> bool {
    &&& c.enabled == f.enabled
    &&& Some(c.max_chars as nat) == field_number(f.max_chars@, usize::MAX as nat)
    &&& Some(c.timeout_seconds as nat) == field_number(f.timeout_seconds@, u64::MAX as nat)
    &&& Some(c.cache_ttl_minutes as nat) == field_number(f.cache_ttl_minutes@, u64::MAX as nat)
    &&& Some(c.max_redirects as nat) == field_number(f.max_redirects@, u8::MAX as nat)
    &&& c.readability == f.readability
    &&& text::string_views(c.ssrf_allowlist@) == nonblank_lines(text::lines_of(f.ssrf_allowlist_text@))
}

/// Whether the `apply_patch` settings `c` are what form `f` describes.
pub open spec fn apply_patch_form_reads(f: ApplyPatchForm, c: ApplyPatchConfig) -> bool {
    &&& c.enabled == f.enabled
    &&& opt_view(c.workspace) == optional_text(f.workspace@)
    &&& c.allow_absolute_paths == f.allow_absolute_paths
    &&& text::string_views(c.allowed_roots@) == nonblank_lines(text::lines_of(f.allowed_roots_text@))
}

/// Settings of the `shell` tool.
#[derive(Debug)]
pub struct ShellConfig {
    pub enabled: bool,
    pub workspace: Option<String>,
    pub blocked_patterns: Vec<String>,
    pub unsafe_patterns: Vec<String>,
    pub allow_login_shell: bool,
    pub max_timeout_ms: u64,
    pub max_output_bytes: usize,
}

/// The form of the `shell` tool.
#[derive(Debug)]
pub struct ShellForm {
    pub enabled: bool,
    pub workspace: String,
    pub blocked_patterns_text: String,
    pub unsafe_patterns_text: String,
    pub allow_login_shell: bool,
    pub max_timeout_ms: String,
    pub max_output_bytes: String,
}

impl ShellForm {
    /// The form showing `config`.
    pub fn from_config(config: &ShellConfig) -> (f: Self)
        ensures
            f.enabled == config.enabled,
            f.workspace@ == (match config.workspace {
                Some(w) => w@,
                None => Seq::<char>::empty(),
            }),
            f.blocked_patterns_text@ == join_lines(text::string_views(config.blocked_patterns@)),
            f.unsafe_patterns_text@ == join_lines(text::string_views(config.unsafe_patterns@)),
            f.allow_login_shell == config.allow_login_shell,
            f.max_timeout_ms@ == numbers::decimal_digits(config.max_timeout_ms as nat),
            f.max_output_bytes@ == numbers::decimal_digits(config.max_output_bytes as nat),
            shell_form_shows(f, *config),
    {
        ShellForm {
            enabled: config.enabled,
            workspace: text_or_empty(&config.workspace),
            blocked_patterns_text: join_with_newlines(&config.blocked_patterns),
            unsafe_patterns_text: join_with_newlines(&config.unsafe_patterns),
            allow_login_shell: config.allow_login_shell,
            max_timeout_ms: u64_to_string(config.max_timeout_ms),
            max_output_bytes: u64_to_string(config.max_output_bytes as u64),
        }
    }

    /// The settings the form describes, or the message for the first number it cannot read.
    pub fn to_config(&self) -> (r: Result<ShellConfig, String>)
        ensures
            match r {
                Ok(c) => shell_form_error(*self) is None && shell_form_reads(*self, c),
                Err(e) => shell_form_error(*self) == Some(e@),
            },
    {
        let max_timeout_ms = match parse_field_u64(self.max_timeout_ms.as_str()) {
            Some(v) => v,
            None => {
                return Err("max_timeout_ms must be a positive integer".to_owned());
            },
        };
        let max_output_bytes = match parse_field_usize(self.max_output_bytes.as_str()) {
            Some(v) => v,
            None => {
                return Err("max_output_bytes must be a positive integer".to_owned());
            },
        };
        Ok(
            ShellConfig {
                enabled: self.enabled,
                workspace: optional_string(self.workspace.as_str()),
                blocked_patterns: parse_lines(self.blocked_patterns_text.as_str()),
                unsafe_patterns: parse_lines(self.unsafe_patterns_text.as_str()),
                allow_login_shell: self.allow_login_shell,
                max_timeout_ms,
                max_output_bytes,
            },
        )
    }
}

/// Local attachment settings of the `channel_attachment` tool.
#[derive(Debug)]
pub struct LocalAttachmentConfig {
    pub allowlist: Vec<String>,
    pub max_bytes: u64,
}

/// Settings of the `channel_attachment` tool.
#[derive(Debug)]
pub struct ChannelAttachmentToolConfig {
    pub enabled: bool,
    pub local_attachments: LocalAttachmentConfig,
}

/// The form of the `channel_attachment` tool.
#[derive(Debug)]
pub struct ChannelAttachmentForm {
    pub enabled: bool,
    pub allowlist_text: String,
    pub max_bytes: String,
}

impl ChannelAttachmentForm {
    /// The form showing `config`.
    pub fn from_config(config: &ChannelAttachmentToolConfig) -> (f: Self)
        ensures
            f.enabled == config.enabled,
            f.allowlist_text@ == join_lines(text::string_views(config.local_attachments.allowlist@)),
            f.max_bytes@ == numbers::decimal_digits(config.local_attachments.max_bytes as nat),
            channel_attachment_form_shows(f, *config),
    {
        ChannelAttachmentForm {
            enabled: config.enabled,
            allowlist_text: join_with_newlines(&config.local_attachments.allowlist),
            max_bytes: u64_to_string(config.local_attachments.max_bytes),
        }
    }

    /// The settings the form describes, or the message for a size it cannot read.
    pub fn to_config(&self) -> (r: Result<ChannelAttachmentToolConfig, String>)
        ensures
            match r {
                Ok(c) => channel_attachment_form_error(*self) is None && channel_attachment_form_reads(*self, c),
                Err(e) => channel_attachment_form_error(*self) == Some(e@),
            },
    {
        let max_bytes = match parse_field_u64(self.max_bytes.as_str()) {
            Some(v) => v,
            None => {
                return Err("max_bytes must be a positive integer".to_owned());
            },
        };
        Ok(
            ChannelAttachmentToolConfig {
                enabled: self.enabled,
                local_attachments: LocalAttachmentConfig {
                    allowlist: parse_lines(self.allowlist_text.as_str()),
                    max_bytes,
                },
            },
        )
    }
}

/// Settings of the `sub_agent` tool.
#[derive(Debug)]
pub struct SubAgentConfig {
    pub enabled: bool,
    pub max_iterations: u32,
    pub max_tool_calls: u32,
    pub inherit_parent_tools: bool,
    pub exclude_tools: Vec<String>,
}

/// The form of the `sub_agent` tool.
#[derive(Debug)]
pub struct SubAgentForm {
    pub enabled: bool,
    pub max_iterations: String,
    pub max_tool_calls: String,
    pub inherit_parent_tools: bool,
    pub exclude_tools_text: String,
}

impl SubAgentForm {
    /// The form showing `config`.
    pub fn from_config(config: &SubAgentConfig) -> (f: Self)
        ensures
            f.enabled == config.enabled,
            f.max_iterations@ == numbers::decimal_digits(config.max_iterations as nat),
            f.max_tool_calls@ == numbers::decimal_digits(config.max_tool_calls as nat),
            f.inherit_parent_tools == config.inherit_parent_tools,
            f.exclude_tools_text@ == join_lines(text::string_views(config.exclude_tools@)),
            sub_agent_form_shows(f, *config),
    {
        SubAgentForm {
            enabled: config.enabled,
            max_iterations: u64_to_string(config.max_iterations as u64),
            max_tool_calls: u64_to_string(config.max_tool_calls as u64),
            inherit_parent_tools: config.inherit_parent_tools,
            exclude_tools_text: join_with_newlines(&config.exclude_tools),
        }
    }

    /// The settings the form describes, or the message for the first number it cannot read.
    pub fn to_config(&self) -> (r: Result<SubAgentConfig, String>)
        ensures
            match r {
                Ok(c) => sub_agent_form_error(*self) is None && sub_agent_form_reads(*self, c),
                Err(e) => sub_agent_form_error(*self) == Some(e@),
            },
    {
        let max_iterations = match parse_field_u32(self.max_iterations.as_str()) {
            Some(v) => v,
            None => {
                return Err("max_iterations must be a positive integer".to_owned());
            },
        };
        let max_tool_calls = match parse_field_u32(self.max_tool_calls.as_str()) {
            Some(v) => v,
            None => {
                return Err("max_tool_calls must be a positive integer".to_owned());
            },
        };
        Ok(
            SubAgentConfig {
                enabled: self.enabled,
                max_iterations,
                max_tool_calls,
                inherit_parent_tools: self.inherit_parent_tools,
                exclude_tools: parse_lines(self.exclude_tools_text.as_str()),
            },
        )
    }
}

/// Settings of the `memory` tool.
#[derive(Debug)]
pub struct MemoryToolConfig {
    pub enabled: bool,
    pub search_limit: usize,
    pub fts_limit: usize,
    pub vector_limit: usize,
    pub use_vector: bool,
}

/// The form of the `memory` tool.
#[derive(Debug)]
pub struct MemoryForm {
    pub enabled: bool,
    pub search_limit: String,
    pub fts_limit: String,
    pub vector_limit: String,
    pub use_vector: bool,
}

impl MemoryForm {
    /// The form showing `config`.
    pub fn from_config(config: &MemoryToolConfig) -> (f: Self)
        ensures
            f.enabled == config.enabled,
            f.search_limit@ == numbers::decimal_digits(config.search_limit as nat),
            f.fts_limit@ == numbers::decimal_digits(config.fts_limit as nat),
            f.vector_limit@ == numbers::decimal_digits(config.vector_limit as nat),
            f.use_vector == config.use_vector,
            memory_form_shows(f, *config),
    {
        MemoryForm {
            enabled: config.enabled,
            search_limit: u64_to_string(config.search_limit as u64),
            fts_limit: u64_to_string(config.fts_limit as u64),
            vector_limit: u64_to_string(config.vector_limit as u64),
            use_vector: config.use_vector,
        }
    }

    /// The settings the form describes, or the message for the first limit it cannot read.
    pub fn to_config(&self) -> (r: Result<MemoryToolConfig, String>)
        ensures
            match r {
                Ok(c) => memory_form_error(*self) is None && memory_form_reads(*self, c),
                Err(e) => memory_form_error(*self) == Some(e@),
            },
    {
        let search_limit = match parse_field_usize(self.search_limit.as_str()) {
            Some(v) => v,
            None => {
                return Err("search_limit must be a positive integer".to_owned());
            },
        };
        let fts_limit = match parse_field_usize(self.fts_limit.as_str()) {
            Some(v) => v,
            None => {
                return Err("fts_limit must be a positive integer".to_owned());
            },
        };
        let vector_limit = match parse_field_usize(self.vector_limit.as_str()) {
            Some(v) => v,
            None => {
                return Err("vector_limit must be a positive integer".to_owned());
            },
        };
        Ok(
            MemoryToolConfig {
                enabled: self.enabled,
                search_limit,
                fts_limit,
                vector_limit,
                use_vector: self.use_vector,
            },
        )
    }
}

/// Settings of the `web_fetch` tool.
#[derive(Debug)]
pub struct WebFetchConfig {
    pub enabled: bool,
    pub max_chars: usize,
    pub timeout_seconds: u64,
    pub cache_ttl_minutes: u64,
    pub max_redirects: u8,
    pub readability: bool,
    pub ssrf_allowlist: Vec<String>,
}

/// The form of the `web_fetch` tool.
#[derive(Debug)]
pub struct WebFetchForm {
    pub enabled: bool,
    pub max_chars: String,
    pub timeout_seconds: String,
    pub cache_ttl_minutes: String,
    pub max_redirects: String,
    pub readability: bool,
    pub ssrf_allowlist_text: String,
}

impl WebFetchForm {
    /// The form showing `config`.
    pub fn from_config(config: &WebFetchConfig) -> (f: Self)
        ensures
            f.enabled == config.enabled,
            f.max_chars@ == numbers::decimal_digits(config.max_chars as nat),
            f.timeout_seconds@ == numbers::decimal_digits(config.timeout_seconds as nat),
            f.cache_ttl_minutes@ == numbers::decimal_digits(config.cache_ttl_minutes as nat),
            f.max_redirects@ == numbers::decimal_digits(config.max_redirects as nat),
            f.readability == config.readability,
            f.ssrf_allowlist_text@ == join_lines(text::string_views(config.ssrf_allowlist@)),
            web_fetch_form_shows(f, *config),
    {
        WebFetchForm {
            enabled: config.enabled,
            max_chars: u64_to_string(config.max_chars as u64),
            timeout_seconds: u64_to_string(config.timeout_seconds),
            cache_ttl_minutes: u64_to_string(config.cache_ttl_minutes),
            max_redirects: u64_to_string(config.max_redirects as u64),
            readability: config.readability,
            ssrf_allowlist_text: join_with_newlines(&config.ssrf_allowlist),
        }
    }

    /// The settings the form describes, or the message for the first number it cannot read.
    pub fn to_config(&self) -> (r: Result<WebFetchConfig, String>)
        ensures
            match r {
                Ok(c) => web_fetch_form_error(*self) is None && web_fetch_form_reads(*self, c),
                Err(e) => web_fetch_form_error(*self) == Some(e@),
            },
    {
        let max_chars = match parse_field_usize(self.max_chars.as_str()) {
            Some(v) => v,
            None => {
                return Err("max_chars must be a positive integer".to_owned());
            },
        };
        let timeout_seconds = match parse_field_u64(self.timeout_seconds.as_str()) {
            Some(v) => v,
            None => {
                return Err("timeout_seconds must be a positive integer".to_owned());
            },
        };
        let cache_ttl_minutes = match parse_field_u64(self.cache_ttl_minutes.as_str()) {
            Some(v) => v,
            None => {
                return Err("cache_ttl_minutes must be a positive integer".to_owned());
            },
        };
        let max_redirects = match parse_field_u8(self.max_redirects.as_str()) {
            Some(v) => v,
            None => {
                return Err("max_redirects must be an integer between 0 and 255".to_owned());
            },
        };
        Ok(
            WebFetchConfig {
                enabled: self.enabled,
                max_chars,
                timeout_seconds,
                cache_ttl_minutes,
                max_redirects,
                readability: self.readability,
                ssrf_allowlist: parse_lines(self.ssrf_allowlist_text.as_str()),
            },
        )
    }
}

/// Settings of the `apply_patch` tool.
#[derive(Debug)]
pub struct ApplyPatchConfig {
    pub enabled: bool,
    pub workspace: Option<String>,
    pub allow_absolute_paths: bool,
    pub allowed_roots: Vec<String>,
}

/// The form of the `apply_patch` tool.
#[derive(Debug)]
pub struct ApplyPatchForm {
    pub enabled: bool,
    pub workspace: String,
    pub allow_absolute_paths: bool,
    pub allowed_roots_text: String,
}

impl ApplyPatchForm {
    /// The form showing `config`.
    pub fn from_config(config: &ApplyPatchConfig) -> (f: Self)
        ensures
            f.enabled == config.enabled,
            f.workspace@ == (match config.workspace {
                Some(w) => w@,
                None => Seq::<char>::empty(),
            }),
            f.allow_absolute_paths == config.allow_absolute_paths,
            f.allowed_roots_text@ == join_lines(text::string_views(config.allowed_roots@)),
            apply_patch_form_shows(f, *config),
    {
        ApplyPatchForm {
            enabled: config.enabled,
            workspace: text_or_empty(&config.workspace),
            allow_absolute_paths: config.allow_absolute_paths,
            allowed_roots_text: join_with_newlines(&config.allowed_roots),
        }
    }

    /// The settings the form describes.
    pub fn to_config(&self) -> (c: ApplyPatchConfig)
        ensures
            apply_patch_form_reads(*self, c),
    {
        ApplyPatchConfig {
            enabled: self.enabled,
            workspace: optional_string(self.workspace.as_str()),
            allow_absolute_paths: self.allow_absolute_paths,
            allowed_roots: parse_lines(self.allowed_roots_text.as_str()),
        }
    }
}


/// The form of a tool whose only setting is whether it is on.
#[derive(Debug)]
pub struct ToggleForm {
    pub title: String,
    pub enabled: bool,
}

/// Tavily settings of the `web_search` tool.
#[derive(Debug)]
pub struct TavilyConfig {
    pub base_url: Option<String>,
    pub api_key: Option<String>,
    pub env_key: Option<String>,
    pub search_depth: String,
    pub topic: Option<String>,
    pub include_answer: Option<bool>,
    pub include_raw_content: Option<bool>,
    pub include_images: Option<bool>,
    pub project_id: Option<String>,
}

/// Brave settings of the `web_search` tool.
#[derive(Debug)]
pub struct BraveConfig {
    pub base_url: Option<String>,
    pub api_key: Option<String>,
    pub env_key: Option<String>,
    pub country: Option<String>,
    pub search_lang: Option<String>,
    pub ui_lang: Option<String>,
    pub safesearch: Option<String>,
    pub freshness: Option<String>,
}

/// Settings of the `web_search` tool.
#[derive(Debug)]
pub struct WebSearchConfig {
    pub enabled: bool,
    pub provider: String,
    pub tavily: TavilyConfig,
    pub brave: BraveConfig,
}

/// The form of the `web_search` tool.
#[derive(Debug)]
pub struct WebSearchForm {
    pub enabled: bool,
    pub provider: String,
    pub tavily_base_url: String,
    pub tavily_api_key: String,
    pub tavily_env_key: String,
    pub tavily_search_depth: String,
    pub tavily_topic: String,
    pub tavily_include_answer: bool,
    pub tavily_include_raw_content: bool,
    pub tavily_include_images: bool,
    pub tavily_project_id: String,
    pub brave_base_url: String,
    pub brave_api_key: String,
    pub brave_env_key: String,
    pub brave_country: String,
    pub brave_search_lang: String,
    pub brave_ui_lang: String,
    pub brave_safesearch: String,
    pub brave_freshness: String,
}

/// The text of an optional setting, empty when unset.
pub open spec fn text_of(o: Option<String>) -> Seq<char> {
    match o {
        Some(s) => s@,
        None => Seq::<char>::empty(),
    }
}

/// Whether an optional text reads back the same through a form field: unset, or set to
/// a text that is not blank and has no surrounding white space.
pub open spec fn clean_optional(o: Option<String>) -> bool {
    match o {
        Some(s) => s@.len() > 0 && text::trim(s@) == s@,
        None => true,
    }
}

/// An optional text that is clean shows in its field and reads back as itself.
pub proof fn lemma_clean_optional_roundtrip(o: Option<String>)
    requires
        clean_optional(o),
    ensures
        optional_text(text_of(o)) == opt_view(o),
{
    if o is None {
        assert(text::trim(Seq::<char>::empty()) =~= Seq::<char>::empty()) by {
            reveal_with_fuel(text::trim_start, 2);
            reveal_with_fuel(text::trim_end, 2);
        }
    }
}

/// A flag that may be unset, read as off when unset.
pub open spec fn flag_of(o: Option<bool>) -> bool {
    match o {
        Some(b) => b,
        None => false,
    }
}

fn flag_or_false(o: Option<bool>) -> (b: bool)
    ensures
        b == flag_of(o),
{
    match o {
        Some(b) => b,
        None => false,
    }
}

/// Whether the `web_search` settings `c` are what form `f` describes: texts trimmed, blank
/// optional texts unset, flags set.
pub open spec fn web_search_form_applied(f: WebSearchForm, c: WebSearchConfig) -> bool {
    &&& c.enabled == f.enabled
    &&& c.provider@ == text::trim(f.provider@)
    &&& opt_view(c.tavily.base_url) == optional_text(f.tavily_base_url@)
    &&& opt_view(c.tavily.api_key) == optional_text(f.tavily_api_key@)
    &&& opt_view(c.tavily.env_key) == optional_text(f.tavily_env_key@)
    &&& c.tavily.search_depth@ == text::trim(f.tavily_search_depth@)
    &&& opt_view(c.tavily.topic) == optional_text(f.tavily_topic@)
    &&& c.tavily.include_answer == Some(f.tavily_include_answer)
    &&& c.tavily.include_raw_content == Some(f.tavily_include_raw_content)
    &&& c.tavily.include_images == Some(f.tavily_include_images)
    &&& opt_view(c.tavily.project_id) == optional_text(f.tavily_project_id@)
    &&& opt_view(c.brave.base_url) == optional_text(f.brave_base_url@)
    &&& opt_view(c.brave.api_key) == optional_text(f.brave_api_key@)
    &&& opt_view(c.brave.env_key) == optional_text(f.brave_env_key@)
    &&& opt_view(c.brave.country) == optional_text(f.brave_country@)
    &&& opt_view(c.brave.search_lang) == optional_text(f.brave_search_lang@)
    &&& opt_view(c.brave.ui_lang) == optional_text(f.brave_ui_lang@)
    &&& opt_view(c.brave.safesearch) == optional_text(f.brave_safesearch@)
    &&& opt_view(c.brave.freshness) == optional_text(f.brave_freshness@)
}

impl WebSearchForm {
    /// The form showing `config`.
    pub fn from_config(config: &WebSearchConfig) -> (f: Self)
        ensures
            f.enabled == config.enabled,
            f.provider == config.provider,
            f.tavily_base_url@ == text_of(config.tavily.base_url),
            f.tavily_api_key@ == text_of(config.tavily.api_key),
            f.tavily_env_key@ == text_of(config.tavily.env_key),
            f.tavily_search_depth == config.tavily.search_depth,
            f.tavily_topic@ == text_of(config.tavily.topic),
            f.tavily_include_answer == flag_of(config.tavily.include_answer),
            f.tavily_include_raw_content == flag_of(config.tavily.include_raw_content),
            f.tavily_include_images == flag_of(config.tavily.include_images),
            f.tavily_project_id@ == text_of(config.tavily.project_id),
            f.brave_base_url@ == text_of(config.brave.base_url),
            f.brave_api_key@ == text_of(config.brave.api_key),
            f.brave_env_key@ == text_of(config.brave.env_key),
            f.brave_country@ == text_of(config.brave.country),
            f.brave_search_lang@ == text_of(config.brave.search_lang),
            f.brave_ui_lang@ == text_of(config.brave.ui_lang),
            f.brave_safesearch@ == text_of(config.brave.safesearch),
            f.brave_freshness@ == text_of(config.brave.freshness),
    {
        WebSearchForm {
            enabled: config.enabled,
            provider: config.provider.clone(),
            tavily_base_url: text_or_empty(&config.tavily.base_url),
            tavily_api_key: text_or_empty(&config.tavily.api_key),
            tavily_env_key: text_or_empty(&config.tavily.env_key),
            tavily_search_depth: config.tavily.search_depth.clone(),
            tavily_topic: text_or_empty(&config.tavily.topic),
            tavily_include_answer: flag_or_false(config.tavily.include_answer),
            tavily_include_raw_content: flag_or_false(config.tavily.include_raw_content),
            tavily_include_images: flag_or_false(config.tavily.include_images),
            tavily_project_id: text_or_empty(&config.tavily.project_id),
            brave_base_url: text_or_empty(&config.brave.base_url),
            brave_api_key: text_or_empty(&config.brave.api_key),
            brave_env_key: text_or_empty(&config.brave.env_key),
            brave_country: text_or_empty(&config.brave.country),
            brave_search_lang: text_or_empty(&config.brave.search_lang),
            brave_ui_lang: text_or_empty(&config.brave.ui_lang),
            brave_safesearch: text_or_empty(&config.brave.safesearch),
            brave_freshness: text_or_empty(&config.brave.freshness),
        }
    }

    /// Writes the form into `config`: texts trimmed, blank optional texts unset, flags set.
    pub fn apply_to(&self, config: &mut WebSearchConfig)
        ensures
            web_search_form_applied(*self, *final(config)),
    {
        config.enabled = self.enabled;
        config.provider = trim_str(self.provider.as_str());
        config.tavily.base_url = optional_string(self.tavily_base_url.as_str());
        config.tavily.api_key = optional_string(self.tavily_api_key.as_str());
        config.tavily.env_key = optional_string(self.tavily_env_key.as_str());
        config.tavily.search_depth = trim_str(self.tavily_search_depth.as_str());
        config.tavily.topic = optional_string(self.tavily_topic.as_str());
        config.tavily.include_answer = Some(self.tavily_include_answer);
        config.tavily.include_raw_content = Some(self.tavily_include_raw_content);
        config.tavily.include_images = Some(self.tavily_include_images);
        config.tavily.project_id = optional_string(self.tavily_project_id.as_str());
        config.brave.base_url = optional_string(self.brave_base_url.as_str());
        config.brave.api_key = optional_string(self.brave_api_key.as_str());
        config.brave.env_key = optional_string(self.brave_env_key.as_str());
        config.brave.country = optional_string(self.brave_country.as_str());
        config.brave.search_lang = optional_string(self.brave_search_lang.as_str());
        config.brave.ui_lang = optional_string(self.brave_ui_lang.as_str());
        config.brave.safesearch = optional_string(self.brave_safesearch.as_str());
        config.brave.freshness = optional_string(self.brave_freshness.as_str());
    }
}

/// The form of the tool being edited.
#[derive(Debug)]
pub enum ToolForm {
    ApplyPatch(ApplyPatchForm),
    Shell(ShellForm),
    Archive(ToggleForm),
    ChannelAttachment(ChannelAttachmentForm),
    Voice(ToggleForm),
    Approval(ToggleForm),
    Geo(ToggleForm),
    LocalSearch(ToggleForm),
    TerminalMultiplexers(ToggleForm),
    CronManager(ToggleForm),
    HeartbeatManager(ToggleForm),
    SkillsRegistry(ToggleForm),
    SkillsManager(ToggleForm),
    Memory(MemoryForm),
    WebFetch(WebFetchForm),
    WebSearch(WebSearchForm),
    SubAgent(SubAgentForm),
}

/// The title of a tool form's window.
pub open spec fn tool_form_title(f: ToolForm) -> Seq<char> {
    match f {
        ToolForm::ApplyPatch(_) => "Edit Tool: apply_patch"@,
        ToolForm::Shell(_) => "Edit Tool: shell"@,
        ToolForm::Archive(t) => t.title@,
        ToolForm::ChannelAttachment(_) => "Edit Tool: channel_attachment"@,
        ToolForm::Voice(t) => t.title@,
        ToolForm::Approval(t) => t.title@,
        ToolForm::Geo(t) => t.title@,
        ToolForm::LocalSearch(t) => t.title@,
        ToolForm::TerminalMultiplexers(t) => t.title@,
        ToolForm::CronManager(t) => t.title@,
        ToolForm::HeartbeatManager(t) => t.title@,
        ToolForm::SkillsRegistry(t) => t.title@,
        ToolForm::SkillsManager(t) => t.title@,
        ToolForm::Memory(_) => "Edit Tool: memory"@,
        ToolForm::WebFetch(_) => "Edit Tool: web_fetch"@,
        ToolForm::WebSearch(_) => "Edit Tool: web_search"@,
        ToolForm::SubAgent(_) => "Edit Tool: sub_agent"@,
    }
}

impl ToolForm {
    /// The title of the form's window.
    pub fn title(&self) -> (r: &str)
        ensures
            r@ == tool_form_title(*self),
    {
        match self {
            ToolForm::ApplyPatch(_) => "Edit Tool: apply_patch",
            ToolForm::Shell(_) => "Edit Tool: shell",
            ToolForm::Archive(t) => t.title.as_str(),
            ToolForm::ChannelAttachment(_) => "Edit Tool: channel_attachment",
            ToolForm::Voice(t) => t.title.as_str(),
            ToolForm::Approval(t) => t.title.as_str(),
            ToolForm::Geo(t) => t.title.as_str(),
            ToolForm::LocalSearch(t) => t.title.as_str(),
            ToolForm::TerminalMultiplexers(t) => t.title.as_str(),
            ToolForm::CronManager(t) => t.title.as_str(),
            ToolForm::HeartbeatManager(t) => t.title.as_str(),
            ToolForm::SkillsRegistry(t) => t.title.as_str(),
            ToolForm::SkillsManager(t) => t.title.as_str(),
            ToolForm::Memory(_) => "Edit Tool: memory",
            ToolForm::WebFetch(_) => "Edit Tool: web_fetch",
            ToolForm::WebSearch(_) => "Edit Tool: web_search",
            ToolForm::SubAgent(_) => "Edit Tool: sub_agent",
        }
    }
}

// ---------------------------------------------------------------------------
// Tool call logs
// ---------------------------------------------------------------------------

/// The order of the tool call log.
#[derive(Clone, Copy, Debug, PartialEq, Eq, Structural)]
pub enum ToolLogSortOrder {
    StartedAtAsc,
    StartedAtDesc,
}

impl ToolLogSortOrder {
    /// The other order.
    pub fn toggled(self) -> (r: Self)
        ensures
            r == (match self {
                ToolLogSortOrder::StartedAtAsc => ToolLogSortOrder::StartedAtDesc,
                ToolLogSortOrder::StartedAtDesc => ToolLogSortOrder::StartedAtAsc,
            }),
    {
        match self {
            ToolLogSortOrder::StartedAtAsc => ToolLogSortOrder::StartedAtDesc,
            ToolLogSortOrder::StartedAtDesc => ToolLogSortOrder::StartedAtAsc,
        }
    }

    /// The header of the time column, with the direction of the order.
    pub fn label(self) -> (r: &'static str)
        ensures
            r@ == (match self {
                ToolLogSortOrder::StartedAtAsc => "Time ↑"@,
                ToolLogSortOrder::StartedAtDesc => "Time ↓"@,
            }),
    {
        match self {
            ToolLogSortOrder::StartedAtAsc => "Time ↑",
            ToolLogSortOrder::StartedAtDesc => "Time ↓",
        }
    }
}

/// Which tool calls the log shows.
#[derive(Clone, Copy, Debug, PartialEq, Eq, Structural)]
pub enum LogStatusFilter {
    All,
    FailedOnly,
}

/// One recorded tool call.
#[derive(Debug)]
pub struct ToolAuditRecord {
    pub id: String,
    pub failed: bool,
    pub metadata_json: Option<String>,
}

/// The positions of the calls the log shows under `filter`, in order.
pub open spec fn shown_calls(records: Seq<ToolAuditRecord>, filter: LogStatusFilter) -> Seq<int>
    decreases records.len(),
{
    if records.len() == 0 {
        Seq::<int>::empty()
    } else {
        let rest = shown_calls(records.drop_last(), filter);
        if filter == LogStatusFilter::All || records.last().failed {
            rest.push(records.len() - 1)
        } else {
            rest
        }
    }
}

/// The positions of the calls the log shows under `filter`, in order.
pub fn filtered_log_rows(records: &Vec<ToolAuditRecord>, filter: LogStatusFilter) -> (r: Vec<usize>)
    ensures
        r@.len() == shown_calls(records@, filter).len(),
        forall|i: int| 0 <= i < r@.len() ==> #[trigger] r@[i] as int == shown_calls(records@, filter)[i],
{
    let mut out: Vec<usize> = Vec::new();
    let mut i: usize = 0;
    assert(records@.take(0) =~= Seq::<ToolAuditRecord>::empty());
    while i < records.len()
        invariant
            i <= records@.len(),
            out@.len() == shown_calls(records@.take(i as int), filter).len(),
            forall|j: int|
                0 <= j < out@.len() ==> #[trigger] out@[j] as int == shown_calls(
                    records@.take(i as int),
                    filter,
                )[j],
        decreases records@.len() - i,
    {
        assert(records@.take(i + 1).drop_last() =~= records@.take(i as int));
        assert(records@.take(i + 1).last() == records@[i as int]);
        if filter == LogStatusFilter::All || records[i].failed {
            out.push(i);
        }
        i = i + 1;
    }
    assert(records@.take(records@.len() as int) =~= records@);
    out
}

/// How many tool calls the log loads at once.
pub const TOOL_LOG_PAGE_SIZE: i64 = 100;

/// The query that loads the log of one tool.
#[derive(Debug)]
pub struct ToolAuditQuery {
    pub session_key: Option<String>,
    pub tool_name: Option<String>,
    pub started_from_ms: Option<i64>,
    pub started_to_ms: Option<i64>,
    pub limit: i64,
    pub offset: i64,
    pub sort_order: ToolLogSortOrder,
}

/// The query for the first page of the log of tool `tool`: calls of the chosen session,
/// started within the chosen days, in the chosen order.
pub fn tool_audit_query(
    tool: &str,
    session_filter: &Option<String>,
    start_date: Option<crate::session::CalendarDate>,
    end_date: Option<crate::session::CalendarDate>,
    sort_order: ToolLogSortOrder,
) -> (q: ToolAuditQuery)
    ensures
        q.session_key == *session_filter,
        opt_view(q.tool_name) == Some(tool@),
        q.started_from_ms == crate::session::opt_boundary(start_date, false),
        q.started_to_ms == crate::session::opt_boundary(end_date, true),
        q.limit == TOOL_LOG_PAGE_SIZE,
        q.offset == 0,
        q.sort_order == sort_order,
{
    ToolAuditQuery {
        session_key: clone_opt(session_filter),
        tool_name: Some(tool.to_string()),
        started_from_ms: match start_date {
            Some(d) => crate::session::date_start_ms(d),
            None => None,
        },
        started_to_ms: match end_date {
            Some(d) => crate::session::date_end_ms(d),
            None => None,
        },
        limit: TOOL_LOG_PAGE_SIZE,
        offset: 0,
        sort_order,
    }
}

/// The position of the first loaded call with id `id`.
pub fn log_record_by_id(records: &Vec<ToolAuditRecord>, id: &str) -> (r: Option<usize>)
    ensures
        r matches Some(i) ==> i < records@.len() && records@[i as int].id@ == id@ && forall|j: int|
            0 <= j < i ==> (#[trigger] records@[j]).id@ != id@,
        r is None ==> forall|j: int| 0 <= j < records@.len() ==> (#[trigger] records@[j]).id@ != id@,
{
    let mut i: usize = 0;
    while i < records.len()
        invariant
            i <= records@.len(),
            forall|j: int| 0 <= j < i ==> (#[trigger] records@[j]).id@ != id@,
        decreases records@.len() - i,
    {
        if text::str_eq(records[i].id.as_str(), id) {
            return Some(i);
        }
        i = i + 1;
    }
    None
}

/// What `serde_json` reads from a JSON text: the string under `key` of the object it holds,
/// when the text parses as JSON and that member is a string.
pub uninterp spec fn json_string_member(raw: Seq<char>, key: Seq<char>) -> Option<Seq<char>>;

/// Parses `raw` with `serde_json::from_str::<serde_json::Value>` and takes the string member
/// `key` (`Value::get`, then the `String` variant). The contract names the result only: it is
/// fixed by the two arguments.
#[verifier::external_body]
fn json_string_member_of(raw: &str, key: &str) -> (r: Option<String>)
    ensures
        opt_view(r) == json_string_member(raw@, key@),
{
    match serde_json::from_str::<serde_json::Value>(raw) {
        Ok(value) => match value.get(key) {
            Some(serde_json::Value::String(s)) => Some(s.clone()),
            _ => None,
        },
        Err(_) => None,
    }
}

/// The label of a tool call id that metadata may carry: the id, or `-`.
pub fn tool_call_id_from_member(member: Option<String>) -> (r: String)
    ensures
        r@ == (match member {
            Some(s) => s@,
            None => "-"@,
        }),
{
    match member {
        Some(s) => s,
        None => "-".to_owned(),
    }
}

/// The tool call id shown for a recorded call: the `tool_call_id` string of its JSON
/// metadata, or `-`.
pub fn tool_call_id_label(audit: &ToolAuditRecord) -> (r: String)
    ensures
        r@ == (match audit.metadata_json {
            Some(raw) => match json_string_member(raw@, "tool_call_id"@) {
                Some(s) => s,
                None => "-"@,
            },
            None => "-"@,
        }),
{
    match &audit.metadata_json {
        Some(raw) => tool_call_id_from_member(json_string_member_of(raw.as_str(), "tool_call_id")),
        None => "-".to_owned(),
    }
}


/// Whether `serde_json` reads a JSON value from the text.
pub uninterp spec fn json_parses(raw: Seq<char>) -> bool;

/// Whether `serde_json::from_str::<serde_json::Value>` accepts `raw`. The contract names
/// the answer only: it is fixed by the text.
#[verifier::external_body]
fn parses_as_json(raw: &str) -> (r: bool)
    ensures
        r == json_parses(raw@),
{
    serde_json::from_str::<serde_json::Value>(raw).is_ok()
}

/// How a recorded JSON text (arguments, result, metadata) is shown in the log detail.
#[derive(Clone, Copy, Debug, PartialEq, Eq, Structural)]
pub enum JsonSectionView {
    /// As a tree of its values.
    Tree,
    /// As the raw text.
    Raw,
}

/// The view of a JSON section, given whether its text parses: a tree when it does, the
/// raw text otherwise.
pub fn json_section_for(parses: bool) -> (v: JsonSectionView)
    ensures
        v == (if parses {
            JsonSectionView::Tree
        } else {
            JsonSectionView::Raw
        }),
{
    if parses {
        JsonSectionView::Tree
    } else {
        JsonSectionView::Raw
    }
}

/// The view of the JSON section holding `raw`: a tree when the text parses as JSON, the
/// raw text otherwise.
pub fn json_section_view(raw: &str) -> (v: JsonSectionView)
    ensures
        v == (if json_parses(raw@) {
            JsonSectionView::Tree
        } else {
            JsonSectionView::Raw
        }),
{
    json_section_for(parses_as_json(raw))
}

// ---------------------------------------------------------------------------
// The tool list
// ---------------------------------------------------------------------------

/// Which tools the configuration turns on.
#[derive(Clone, Copy, Debug)]
pub struct ToolsEnabled {
    pub apply_patch: bool,
    pub shell: bool,
    pub archive: bool,
    pub channel_attachment: bool,
    pub voice: bool,
    pub approval: bool,
    pub geo: bool,
    pub local_search: bool,
    pub terminal_multiplexers: bool,
    pub cron_manager: bool,
    pub heartbeat_manager: bool,
    pub skills_registry: bool,
    pub skills_manager: bool,
    pub memory: bool,
    pub web_fetch: bool,
    pub web_search: bool,
    pub sub_agent: bool,
}

/// One row of the tool list.
#[derive(Clone, Copy, Debug)]
pub struct ToolDescriptor {
    pub key: &'static str,
    pub name: &'static str,
    pub description: &'static str,
    pub enabled: bool,
}

/// The name a descriptor is ordered by.
pub open spec fn by_name() -> spec_fn(ToolDescriptor) -> Seq<char> {
    |d: ToolDescriptor| d.name@
}

/// The tools, in the order the list declares them.
pub open spec fn declared_tools(e: ToolsEnabled) -> Seq<ToolDescriptor> {
    seq![
        ToolDescriptor { key: "apply_patch", name: "apply_patch", description: "Patch workspace files with constrained path policy.", enabled: e.apply_patch },
        ToolDescriptor { key: "shell", name: "shell", description: "Execute local shell commands with approval policy.", enabled: e.shell },
        ToolDescriptor { key: "archive", name: "archive", description: "Manage archived attachments from conversations.", enabled: e.archive },
        ToolDescriptor { key: "channel_attachment", name: "channel_attachment", description: "Send archived or approved local files back into the current chat.", enabled: e.channel_attachment },
        ToolDescriptor { key: "voice", name: "voice", description: "Transcribe audio and synthesize text into speech.", enabled: e.voice },
        ToolDescriptor { key: "approval", name: "approval", description: "Manage approval lifecycle for high-risk actions.", enabled: e.approval },
        ToolDescriptor { key: "geo", name: "geo", description: "Get current coordinates from available system location services.", enabled: e.geo },
        ToolDescriptor { key: "local_search", name: "local_search", description: "Search local workspace files and snippets.", enabled: e.local_search },
        ToolDescriptor { key: "terminal_multiplexers", name: "terminal_multiplexers", description: "Operate tmux/zellij sessions for long-running tasks.", enabled: e.terminal_multiplexers },
        ToolDescriptor { key: "cron_manager", name: "cron_manager", description: "Create and control scheduled cron jobs.", enabled: e.cron_manager },
        ToolDescriptor { key: "heartbeat_manager", name: "heartbeat_manager", description: "Manage session-bound heartbeat jobs.", enabled: e.heartbeat_manager },
        ToolDescriptor { key: "skills_registry", name: "skills_registry", description: "Browse and inspect read-only registry catalogs.", enabled: e.skills_registry },
        ToolDescriptor { key: "skills_manager", name: "skills_manager", description: "Install, uninstall, and load installed skills.", enabled: e.skills_manager },
        ToolDescriptor { key: "memory", name: "memory", description: "Persist and retrieve long-term memory records.", enabled: e.memory },
        ToolDescriptor { key: "web_fetch", name: "web_fetch", description: "Fetch and extract web page content safely.", enabled: e.web_fetch },
        ToolDescriptor { key: "web_search", name: "web_search", description: "Search web results via configured provider.", enabled: e.web_search },
        ToolDescriptor { key: "sub_agent", name: "sub_agent", description: "Delegate focused tasks to a bounded child agent.", enabled: e.sub_agent },
    ]
}

fn descriptor_position(r: &Vec<ToolDescriptor>, d: &ToolDescriptor) -> (p: usize)
    ensures
        p == text::first_after_key(r@, by_name(), d.name@),
        p <= r@.len(),
{
    let mut p: usize = 0;
    assert(r@.skip(0) =~= r@);
    while p < r.len() && text::str_le(r[p].name, d.name)
        invariant
            p <= r.len(),
            text::first_after_key(r@, by_name(), d.name@) == p + text::first_after_key(
                r@.skip(p as int),
                by_name(),
                d.name@,
            ),
        decreases r.len() - p,
    {
        assert(r@.skip(p as int).drop_first() =~= r@.skip(p + 1));
        assert(r@.skip(p as int)[0] == r@[p as int]);
        p = p + 1;
    }
    if p < r.len() {
        assert(r@.skip(p as int)[0] == r@[p as int]);
    }
    p
}

/// The tool list: every tool with whether it is on, ordered by name.
pub fn tools(enabled: &ToolsEnabled) -> (r: Vec<ToolDescriptor>)
    ensures
        r@ == text::sort_by_key(declared_tools(*enabled), by_name()),
{
    let e = *enabled;
    let declared: [ToolDescriptor; 17] = [
        ToolDescriptor { key: "apply_patch", name: "apply_patch", description: "Patch workspace files with constrained path policy.", enabled: e.apply_patch },
        ToolDescriptor { key: "shell", name: "shell", description: "Execute local shell commands with approval policy.", enabled: e.shell },
        ToolDescriptor { key: "archive", name: "archive", description: "Manage archived attachments from conversations.", enabled: e.archive },
        ToolDescriptor { key: "channel_attachment", name: "channel_attachment", description: "Send archived or approved local files back into the current chat.", enabled: e.channel_attachment },
        ToolDescriptor { key: "voice", name: "voice", description: "Transcribe audio and synthesize text into speech.", enabled: e.voice },
        ToolDescriptor { key: "approval", name: "approval", description: "Manage approval lifecycle for high-risk actions.", enabled: e.approval },
        ToolDescriptor { key: "geo", name: "geo", description: "Get current coordinates from available system location services.", enabled: e.geo },
        ToolDescriptor { key: "local_search", name: "local_search", description: "Search local workspace files and snippets.", enabled: e.local_search },
        ToolDescriptor { key: "terminal_multiplexers", name: "terminal_multiplexers", description: "Operate tmux/zellij sessions for long-running tasks.", enabled: e.terminal_multiplexers },
        ToolDescriptor { key: "cron_manager", name: "cron_manager", description: "Create and control scheduled cron jobs.", enabled: e.cron_manager },
        ToolDescriptor { key: "heartbeat_manager", name: "heartbeat_manager", description: "Manage session-bound heartbeat jobs.", enabled: e.heartbeat_manager },
        ToolDescriptor { key: "skills_registry", name: "skills_registry", description: "Browse and inspect read-only registry catalogs.", enabled: e.skills_registry },
        ToolDescriptor { key: "skills_manager", name: "skills_manager", description: "Install, uninstall, and load installed skills.", enabled: e.skills_manager },
        ToolDescriptor { key: "memory", name: "memory", description: "Persist and retrieve long-term memory records.", enabled: e.memory },
        ToolDescriptor { key: "web_fetch", name: "web_fetch", description: "Fetch and extract web page content safely.", enabled: e.web_fetch },
        ToolDescriptor { key: "web_search", name: "web_search", description: "Search web results via configured provider.", enabled: e.web_search },
        ToolDescriptor { key: "sub_agent", name: "sub_agent", description: "Delegate focused tasks to a bounded child agent.", enabled: e.sub_agent },
    ];
    let ghost orig = declared_tools(e);
    assert(declared@ =~= orig);
    let mut r: Vec<ToolDescriptor> = Vec::new();
    let mut i: usize = 0;
    assert(orig.take(0) =~= Seq::<ToolDescriptor>::empty());
    while i < 17
        invariant
            i <= 17,
            declared@ == orig,
            orig.len() == 17,
            r@ == text::sort_by_key(orig.take(i as int), by_name()),
        decreases 17 - i,
    {
        let d = declared[i];
        assert(orig.take(i + 1).drop_last() =~= orig.take(i as int));
        assert(orig.take(i + 1).last() == d);
        let p = descriptor_position(&r, &d);
        r.insert(p, d);
        i = i + 1;
    }
    assert(orig.take(17) =~= orig);
    r
}

/// The tool list comes out in name order.
pub proof fn lemma_tools_sorted(enabled: ToolsEnabled)
    ensures
        text::keys_sorted(text::sort_by_key(declared_tools(enabled), by_name()), by_name()),
        text::sort_by_key(declared_tools(enabled), by_name()).len() == 17,
{
    text::lemma_sort_by_key(declared_tools(enabled), by_name());
}


// ---------------------------------------------------------------------------
// Showing settings in a form and reading them back
// ---------------------------------------------------------------------------

/// Entries that a multi-line field gives back unchanged: each is trimmed, not empty, and
/// holds no line break.
pub open spec fn clean_entries(xs: Seq<Seq<char>>) -> bool {
    forall|i: int|
        0 <= i < xs.len() ==> text::trim(#[trigger] xs[i]) == xs[i] && xs[i].len() > 0 && !xs[i].contains(
            '\n',
        )
}

proof fn lemma_join_lines_front(xs: Seq<Seq<char>>)
    requires
        xs.len() >= 2,
    ensures
        join_lines(xs) == xs[0] + "\n"@ + join_lines(xs.drop_first()),
    decreases xs.len(),
{
    if xs.len() > 2 {
        lemma_join_lines_front(xs.drop_last());
        assert(xs.drop_last().drop_first() =~= xs.drop_first().drop_last());
        assert(xs.drop_first().last() == xs.last());
        assert(xs.drop_last()[0] == xs[0]);
        assert(join_lines(xs.drop_first()) == join_lines(xs.drop_first().drop_last()) + "\n"@
            + xs.drop_first().last());
        assert(join_lines(xs) =~= xs[0] + "\n"@ + join_lines(xs.drop_first()));
    } else {
        assert(xs.drop_first() =~= seq![xs[1]]);
        assert(xs.drop_last() =~= seq![xs[0]]);
        assert(join_lines(seq![xs[0]]) == xs[0]);
        assert(join_lines(seq![xs[1]]) == xs[1]);
    }
}

proof fn lemma_trimmed_ends(x: Seq<char>)
    requires
        text::trim(x) == x,
        x.len() > 0,
    ensures
        !text::is_ws(x.last()),
{
    text::lemma_trim_end_last(text::trim_start(x));
}

proof fn lemma_lines_of_join(xs: Seq<Seq<char>>)
    requires
        xs.len() > 0,
        clean_entries(xs),
    ensures
        text::lines_of(join_lines(xs)) == xs,
    decreases xs.len(),
{
    reveal_strlit("\n");
    let x = xs[0];
    assert(text::trim(xs[0]) == xs[0] && xs[0].len() > 0 && !xs[0].contains('\n'));
    lemma_trimmed_ends(x);
    assert(text::strip_cr(x) == x) by {
        assert(x.last() != '\r');
    }
    if xs.len() == 1 {
        assert(forall|j: int| 0 <= j < x.len() ==> #[trigger] x[j] != '\n') by {
            assert forall|j: int| 0 <= j < x.len() implies #[trigger] x[j] != '\n' by {
                if x[j] == '\n' {
                    assert(x.contains('\n'));
                }
            }
        }
        text::lemma_newline_index_pub(x, x.len() as int);
    } else {
        let rest = xs.drop_first();
        assert forall|i: int| 0 <= i < rest.len() implies text::trim(#[trigger] rest[i]) == rest[i]
            && rest[i].len() > 0 && !rest[i].contains('\n') by {
            assert(rest[i] == xs[i + 1]);
        }
        lemma_lines_of_join(rest);
        lemma_join_lines_front(xs);
        let s = join_lines(xs);
        let tail = join_lines(rest);
        assert(s == x + "\n"@ + tail);
        assert forall|j: int| 0 <= j < x.len() implies #[trigger] s[j] != '\n' by {
            assert(s[j] == x[j]);
            if x[j] == '\n' {
                assert(x.contains('\n'));
            }
        }
        assert(s[x.len() as int] == '\n');
        text::lemma_newline_index_pub(s, x.len() as int);
        assert(s.subrange(0, x.len() as int) =~= x);
        assert(s.subrange(x.len() as int + 1, s.len() as int) =~= tail);
        assert(seq![x] + rest =~= xs);
    }
}

proof fn lemma_nonblank_clean(xs: Seq<Seq<char>>)
    requires
        clean_entries(xs),
    ensures
        nonblank_lines(xs) == xs,
    decreases xs.len(),
{
    if xs.len() > 0 {
        let t = xs.drop_last();
        assert forall|i: int| 0 <= i < t.len() implies text::trim(#[trigger] t[i]) == t[i] && t[i].len()
            > 0 && !t[i].contains('\n') by {
            assert(t[i] == xs[i]);
        }
        lemma_nonblank_clean(t);
        assert(text::trim(xs.last()) == xs.last() && xs.last().len() > 0);
        assert(t.push(xs.last()) =~= xs);
    }
}

/// A list shown in a multi-line field reads back as the same list, when its entries are
/// trimmed, not empty and free of line breaks.
pub proof fn lemma_list_field_roundtrip(xs: Seq<Seq<char>>)
    requires
        clean_entries(xs),
    ensures
        nonblank_lines(text::lines_of(join_lines(xs))) == xs,
{
    if xs.len() > 0 {
        lemma_lines_of_join(xs);
    } else {
        assert(text::lines_of(Seq::<char>::empty()) =~= Seq::<Seq<char>>::empty());
    }
    lemma_nonblank_clean(xs);
}

/// The first line break of `s` is at `newline_index(s)`, or there is none.
proof fn lemma_newline_index_bounds(s: Seq<char>)
    ensures
        0 <= text::newline_index(s) <= s.len(),
        forall|j: int| 0 <= j < text::newline_index(s) ==> #[trigger] s[j] != '\n',
    decreases s.len(),
{
    if s.len() > 0 && s[0] != '\n' {
        let t = s.drop_first();
        lemma_newline_index_bounds(t);
        assert forall|j: int| 0 <= j < text::newline_index(s) implies #[trigger] s[j] != '\n' by {
            if j > 0 {
                assert(s[j] == t[j - 1]);
            }
        }
    }
}

/// No line of `s` holds a line break.
proof fn lemma_lines_free_of_breaks(s: Seq<char>)
    ensures
        forall|i: int|
            0 <= i < text::lines_of(s).len() ==> !(#[trigger] text::lines_of(s)[i]).contains('\n'),
    decreases s.len(),
{
    if s.len() > 0 {
        let n = text::newline_index(s);
        lemma_newline_index_bounds(s);
        if n < s.len() {
            let rest = s.subrange(n + 1, s.len() as int);
            lemma_lines_free_of_breaks(rest);
            let head = text::strip_cr(s.subrange(0, n));
            assert(!head.contains('\n')) by {
                if head.contains('\n') {
                    let k = choose|k: int| 0 <= k < head.len() && head[k] == '\n';
                    assert(s[k] == '\n');
                }
            }
            assert forall|i: int| 0 <= i < text::lines_of(s).len() implies !(
            #[trigger] text::lines_of(s)[i]).contains('\n') by {
                if i > 0 {
                    assert(text::lines_of(s)[i] == text::lines_of(rest)[i - 1]);
                }
            }
        } else {
            assert(!s.contains('\n')) by {
                if s.contains('\n') {
                    let k = choose|k: int| 0 <= k < s.len() && s[k] == '\n';
                    assert(s[k] == '\n');
                }
            }
        }
    }
}

/// The entries a multi-line field gives are clean when its lines hold no line break.
proof fn lemma_nonblank_lines_clean(ls: Seq<Seq<char>>)
    requires
        forall|i: int| 0 <= i < ls.len() ==> !(#[trigger] ls[i]).contains('\n'),
    ensures
        clean_entries(nonblank_lines(ls)),
    decreases ls.len(),
{
    if ls.len() > 0 {
        let t = ls.drop_last();
        assert forall|i: int| 0 <= i < t.len() implies !(#[trigger] t[i]).contains('\n') by {
            assert(t[i] == ls[i]);
        }
        lemma_nonblank_lines_clean(t);
        let x = text::trim(ls.last());
        text::lemma_trim_idempotent(ls.last(), '\n');
        let r = nonblank_lines(ls);
        if x.len() > 0 {
            assert forall|i: int| 0 <= i < r.len() implies text::trim(#[trigger] r[i]) == r[i]
                && r[i].len() > 0 && !r[i].contains('\n') by {
                if i < r.len() - 1 {
                    assert(r[i] == nonblank_lines(t)[i]);
                }
            }
        }
    }
}

/// Reading back the entries of a multi-line field, shown one per line, gives the same
/// entries: taking the entries of a field is idempotent.
pub proof fn lemma_parse_lines_idempotent(value: Seq<char>)
    ensures
        nonblank_lines(text::lines_of(join_lines(nonblank_lines(text::lines_of(value)))))
            == nonblank_lines(text::lines_of(value)),
{
    lemma_lines_free_of_breaks(value);
    lemma_nonblank_lines_clean(text::lines_of(value));
    lemma_list_field_roundtrip(nonblank_lines(text::lines_of(value)));
}

/// A number shown in a numeric field reads back as the same number.
pub proof fn lemma_number_field_roundtrip(n: nat, max: nat)
    requires
        n <= max,
    ensures
        field_number(numbers::decimal_digits(n), max) == Some(n),
{
    let d = numbers::decimal_digits(n);
    numbers::lemma_decimal_digits(n);
    assert(numbers::is_digit(d[0]));
    assert(numbers::is_digit(d.last()));
    text::lemma_trim_of_unpadded(d);
    numbers::lemma_parse_to_string_roundtrip(n, max);
}

/// Whether form `f` shows the `shell` settings `c`, as `from_config` makes it.
pub open spec fn shell_form_shows(f: ShellForm, c: ShellConfig) -> bool {
    &&& f.enabled == c.enabled
    &&& f.workspace@ == text_of(c.workspace)
    &&& f.blocked_patterns_text@ == join_lines(text::string_views(c.blocked_patterns@))
    &&& f.unsafe_patterns_text@ == join_lines(text::string_views(c.unsafe_patterns@))
    &&& f.allow_login_shell == c.allow_login_shell
    &&& f.max_timeout_ms@ == numbers::decimal_digits(c.max_timeout_ms as nat)
    &&& f.max_output_bytes@ == numbers::decimal_digits(c.max_output_bytes as nat)
}

/// Saving the `shell` form unchanged gives back the settings it showed, when the
/// workspace and the patterns are clean.
pub proof fn lemma_shell_form_roundtrip(f: ShellForm, c: ShellConfig, saved: ShellConfig)
    requires
        shell_form_shows(f, c),
        clean_optional(c.workspace),
        clean_entries(text::string_views(c.blocked_patterns@)),
        clean_entries(text::string_views(c.unsafe_patterns@)),
        shell_form_reads(f, saved),
    ensures
        shell_form_error(f) is None,
        saved.enabled == c.enabled,
        opt_view(saved.workspace) == opt_view(c.workspace),
        text::string_views(saved.blocked_patterns@) == text::string_views(c.blocked_patterns@),
        text::string_views(saved.unsafe_patterns@) == text::string_views(c.unsafe_patterns@),
        saved.allow_login_shell == c.allow_login_shell,
        saved.max_timeout_ms == c.max_timeout_ms,
        saved.max_output_bytes == c.max_output_bytes,
{
    lemma_clean_optional_roundtrip(c.workspace);
    lemma_list_field_roundtrip(text::string_views(c.blocked_patterns@));
    lemma_list_field_roundtrip(text::string_views(c.unsafe_patterns@));
    lemma_number_field_roundtrip(c.max_timeout_ms as nat, u64::MAX as nat);
    lemma_number_field_roundtrip(c.max_output_bytes as nat, usize::MAX as nat);
}

/// Whether form `f` shows the `channel_attachment` settings `c`, as `from_config` makes it.
pub open spec fn channel_attachment_form_shows(f: ChannelAttachmentForm, c: ChannelAttachmentToolConfig) -> bool {
    &&& f.enabled == c.enabled
    &&& f.allowlist_text@ == join_lines(text::string_views(c.local_attachments.allowlist@))
    &&& f.max_bytes@ == numbers::decimal_digits(c.local_attachments.max_bytes as nat)
}

/// Saving the `channel_attachment` form unchanged gives back the settings it showed, when
/// the allowed paths are clean.
pub proof fn lemma_channel_attachment_form_roundtrip(
    f: ChannelAttachmentForm,
    c: ChannelAttachmentToolConfig,
    saved: ChannelAttachmentToolConfig,
)
    requires
        channel_attachment_form_shows(f, c),
        clean_entries(text::string_views(c.local_attachments.allowlist@)),
        channel_attachment_form_reads(f, saved),
    ensures
        channel_attachment_form_error(f) is None,
        saved.enabled == c.enabled,
        text::string_views(saved.local_attachments.allowlist@) == text::string_views(
            c.local_attachments.allowlist@,
        ),
        saved.local_attachments.max_bytes == c.local_attachments.max_bytes,
{
    lemma_list_field_roundtrip(text::string_views(c.local_attachments.allowlist@));
    lemma_number_field_roundtrip(c.local_attachments.max_bytes as nat, u64::MAX as nat);
}

/// Whether form `f` shows the `memory` tool settings `c`, as `from_config` makes it.
pub open spec fn memory_form_shows(f: MemoryForm, c: MemoryToolConfig) -> bool {
    &&& f.enabled == c.enabled
    &&& f.search_limit@ == numbers::decimal_digits(c.search_limit as nat)
    &&& f.fts_limit@ == numbers::decimal_digits(c.fts_limit as nat)
    &&& f.vector_limit@ == numbers::decimal_digits(c.vector_limit as nat)
    &&& f.use_vector == c.use_vector
}

/// Saving the `memory` tool form unchanged gives back the settings it showed.
pub proof fn lemma_memory_form_roundtrip(f: MemoryForm, c: MemoryToolConfig, saved: MemoryToolConfig)
    requires
        memory_form_shows(f, c),
        memory_form_reads(f, saved),
    ensures
        memory_form_error(f) is None,
        saved == c,
{
    lemma_number_field_roundtrip(c.search_limit as nat, usize::MAX as nat);
    lemma_number_field_roundtrip(c.fts_limit as nat, usize::MAX as nat);
    lemma_number_field_roundtrip(c.vector_limit as nat, usize::MAX as nat);
}

/// Whether form `f` shows the `web_fetch` settings `c`, as `from_config` makes it.
pub open spec fn web_fetch_form_shows(f: WebFetchForm, c: WebFetchConfig) -> bool {
    &&& f.enabled == c.enabled
    &&& f.max_chars@ == numbers::decimal_digits(c.max_chars as nat)
    &&& f.timeout_seconds@ == numbers::decimal_digits(c.timeout_seconds as nat)
    &&& f.cache_ttl_minutes@ == numbers::decimal_digits(c.cache_ttl_minutes as nat)
    &&& f.max_redirects@ == numbers::decimal_digits(c.max_redirects as nat)
    &&& f.readability == c.readability
    &&& f.ssrf_allowlist_text@ == join_lines(text::string_views(c.ssrf_allowlist@))
}

/// Saving the `web_fetch` form unchanged gives back the settings it showed, when the
/// allowed hosts are clean.
pub proof fn lemma_web_fetch_form_roundtrip(f: WebFetchForm, c: WebFetchConfig, saved: WebFetchConfig)
    requires
        web_fetch_form_shows(f, c),
        clean_entries(text::string_views(c.ssrf_allowlist@)),
        web_fetch_form_reads(f, saved),
    ensures
        web_fetch_form_error(f) is None,
        saved.enabled == c.enabled,
        saved.max_chars == c.max_chars,
        saved.timeout_seconds == c.timeout_seconds,
        saved.cache_ttl_minutes == c.cache_ttl_minutes,
        saved.max_redirects == c.max_redirects,
        saved.readability == c.readability,
        text::string_views(saved.ssrf_allowlist@) == text::string_views(c.ssrf_allowlist@),
{
    lemma_number_field_roundtrip(c.max_chars as nat, usize::MAX as nat);
    lemma_number_field_roundtrip(c.timeout_seconds as nat, u64::MAX as nat);
    lemma_number_field_roundtrip(c.cache_ttl_minutes as nat, u64::MAX as nat);
    lemma_number_field_roundtrip(c.max_redirects as nat, u8::MAX as nat);
    lemma_list_field_roundtrip(text::string_views(c.ssrf_allowlist@));
}

/// Whether form `f` shows the `apply_patch` settings `c`, as `from_config` makes it.
pub open spec fn apply_patch_form_shows(f: ApplyPatchForm, c: ApplyPatchConfig) -> bool {
    &&& f.enabled == c.enabled
    &&& f.workspace@ == text_of(c.workspace)
    &&& f.allow_absolute_paths == c.allow_absolute_paths
    &&& f.allowed_roots_text@ == join_lines(text::string_views(c.allowed_roots@))
}

/// Saving the `apply_patch` form unchanged gives back the settings it showed, when the
/// workspace and the allowed roots are clean.
pub proof fn lemma_apply_patch_form_roundtrip(f: ApplyPatchForm, c: ApplyPatchConfig, saved: ApplyPatchConfig)
    requires
        apply_patch_form_shows(f, c),
        clean_optional(c.workspace),
        clean_entries(text::string_views(c.allowed_roots@)),
        apply_patch_form_reads(f, saved),
    ensures
        saved.enabled == c.enabled,
        opt_view(saved.workspace) == opt_view(c.workspace),
        saved.allow_absolute_paths == c.allow_absolute_paths,
        text::string_views(saved.allowed_roots@) == text::string_views(c.allowed_roots@),
{
    lemma_clean_optional_roundtrip(c.workspace);
    lemma_list_field_roundtrip(text::string_views(c.allowed_roots@));
}

/// Whether form `f` shows the sub-agent settings `c`, as `from_config` makes it.
pub open spec fn sub_agent_form_shows(f: SubAgentForm, c: SubAgentConfig) -> bool {
    &&& f.enabled == c.enabled
    &&& f.max_iterations@ == numbers::decimal_digits(c.max_iterations as nat)
    &&& f.max_tool_calls@ == numbers::decimal_digits(c.max_tool_calls as nat)
    &&& f.inherit_parent_tools == c.inherit_parent_tools
    &&& f.exclude_tools_text@ == join_lines(text::string_views(c.exclude_tools@))
}

/// Saving the sub-agent form unchanged gives back the settings it showed, when the
/// excluded tools are trimmed, not empty and free of line breaks.
pub proof fn lemma_sub_agent_form_roundtrip(f: SubAgentForm, c: SubAgentConfig)
    requires
        sub_agent_form_shows(f, c),
        clean_entries(text::string_views(c.exclude_tools@)),
    ensures
        field_number(f.max_iterations@, u32::MAX as nat) == Some(c.max_iterations as nat),
        field_number(f.max_tool_calls@, u32::MAX as nat) == Some(c.max_tool_calls as nat),
        nonblank_lines(text::lines_of(f.exclude_tools_text@)) == text::string_views(c.exclude_tools@),
{
    lemma_number_field_roundtrip(c.max_iterations as nat, u32::MAX as nat);
    lemma_number_field_roundtrip(c.max_tool_calls as nat, u32::MAX as nat);
    lemma_list_field_roundtrip(text::string_views(c.exclude_tools@));
}


// ---------------------------------------------------------------------------
// The tool settings
// ---------------------------------------------------------------------------

/// Settings of a tool that can only be turned on or off.
#[derive(Clone, Copy, Debug, PartialEq, Eq, Structural)]
pub struct ToolToggle {
    pub enabled: bool,
}

/// The settings of all tools.
#[derive(Debug)]
pub struct ToolsConfig {
    pub apply_patch: ApplyPatchConfig,
    pub shell: ShellConfig,
    pub archive: ToolToggle,
    pub channel_attachment: ChannelAttachmentToolConfig,
    pub voice: ToolToggle,
    pub approval: ToolToggle,
    pub geo: ToolToggle,
    pub local_search: ToolToggle,
    pub terminal_multiplexers: ToolToggle,
    pub cron_manager: ToolToggle,
    pub heartbeat_manager: ToolToggle,
    pub skills_registry: ToolToggle,
    pub skills_manager: ToolToggle,
    pub memory: MemoryToolConfig,
    pub web_fetch: WebFetchConfig,
    pub web_search: WebSearchConfig,
    pub sub_agent: SubAgentConfig,
}

impl ToolsConfig {
    /// Which tools are on.
    pub fn enabled_tools(&self) -> (e: ToolsEnabled)
        ensures
            e.apply_patch == self.apply_patch.enabled,
            e.shell == self.shell.enabled,
            e.archive == self.archive.enabled,
            e.channel_attachment == self.channel_attachment.enabled,
            e.voice == self.voice.enabled,
            e.approval == self.approval.enabled,
            e.geo == self.geo.enabled,
            e.local_search == self.local_search.enabled,
            e.terminal_multiplexers == self.terminal_multiplexers.enabled,
            e.cron_manager == self.cron_manager.enabled,
            e.heartbeat_manager == self.heartbeat_manager.enabled,
            e.skills_registry == self.skills_registry.enabled,
            e.skills_manager == self.skills_manager.enabled,
            e.memory == self.memory.enabled,
            e.web_fetch == self.web_fetch.enabled,
            e.web_search == self.web_search.enabled,
            e.sub_agent == self.sub_agent.enabled,
    {
        ToolsEnabled {
            apply_patch: self.apply_patch.enabled,
            shell: self.shell.enabled,
            archive: self.archive.enabled,
            channel_attachment: self.channel_attachment.enabled,
            voice: self.voice.enabled,
            approval: self.approval.enabled,
            geo: self.geo.enabled,
            local_search: self.local_search.enabled,
            terminal_multiplexers: self.terminal_multiplexers.enabled,
            cron_manager: self.cron_manager.enabled,
            heartbeat_manager: self.heartbeat_manager.enabled,
            skills_registry: self.skills_registry.enabled,
            skills_manager: self.skills_manager.enabled,
            memory: self.memory.enabled,
            web_fetch: self.web_fetch.enabled,
            web_search: self.web_search.enabled,
            sub_agent: self.sub_agent.enabled,
        }
    }
}

/// The number of the tool named `key`, in the order of the fields of `ToolsConfig`
/// counted from 0; -1 for a name that is no tool's.
pub open spec fn tool_index(key: Seq<char>) -> int {
    if key == "apply_patch"@ {
        0
    } else if key == "shell"@ {
        1
    } else if key == "archive"@ {
        2
    } else if key == "channel_attachment"@ {
        3
    } else if key == "voice"@ {
        4
    } else if key == "approval"@ {
        5
    } else if key == "geo"@ {
        6
    } else if key == "local_search"@ {
        7
    } else if key == "terminal_multiplexers"@ {
        8
    } else if key == "cron_manager"@ {
        9
    } else if key == "heartbeat_manager"@ {
        10
    } else if key == "skills_registry"@ {
        11
    } else if key == "skills_manager"@ {
        12
    } else if key == "memory"@ {
        13
    } else if key == "web_fetch"@ {
        14
    } else if key == "web_search"@ {
        15
    } else if key == "sub_agent"@ {
        16
    } else {
        -1
    }
}

/// Whether the tool numbered `index` can only be turned on or off.
pub open spec fn is_toggle_index(index: int) -> bool {
    index == 2 || 4 <= index <= 12
}

/// The toggle of the tool numbered `index`, among those that only have one.
pub open spec fn toggle_of(config: ToolsConfig, index: int) -> Option<ToolToggle> {
    if index == 2 {
        Some(config.archive)
    } else if index == 4 {
        Some(config.voice)
    } else if index == 5 {
        Some(config.approval)
    } else if index == 6 {
        Some(config.geo)
    } else if index == 7 {
        Some(config.local_search)
    } else if index == 8 {
        Some(config.terminal_multiplexers)
    } else if index == 9 {
        Some(config.cron_manager)
    } else if index == 10 {
        Some(config.heartbeat_manager)
    } else if index == 11 {
        Some(config.skills_registry)
    } else if index == 12 {
        Some(config.skills_manager)
    } else {
        None
    }
}

/// The number of the tool that `form` edits, as `tool_index` counts them.
pub open spec fn form_index(form: ToolForm) -> int {
    match form {
        ToolForm::ApplyPatch(_) => 0,
        ToolForm::Shell(_) => 1,
        ToolForm::Archive(_) => 2,
        ToolForm::ChannelAttachment(_) => 3,
        ToolForm::Voice(_) => 4,
        ToolForm::Approval(_) => 5,
        ToolForm::Geo(_) => 6,
        ToolForm::LocalSearch(_) => 7,
        ToolForm::TerminalMultiplexers(_) => 8,
        ToolForm::CronManager(_) => 9,
        ToolForm::HeartbeatManager(_) => 10,
        ToolForm::SkillsRegistry(_) => 11,
        ToolForm::SkillsManager(_) => 12,
        ToolForm::Memory(_) => 13,
        ToolForm::WebFetch(_) => 14,
        ToolForm::WebSearch(_) => 15,
        ToolForm::SubAgent(_) => 16,
    }
}

/// The on/off setting a toggle form holds, and its title.
pub open spec fn toggle_parts(form: ToolForm) -> Option<(bool, Seq<char>)> {
    match form {
        ToolForm::Archive(t) => Some((t.enabled, t.title@)),
        ToolForm::Voice(t) => Some((t.enabled, t.title@)),
        ToolForm::Approval(t) => Some((t.enabled, t.title@)),
        ToolForm::Geo(t) => Some((t.enabled, t.title@)),
        ToolForm::LocalSearch(t) => Some((t.enabled, t.title@)),
        ToolForm::TerminalMultiplexers(t) => Some((t.enabled, t.title@)),
        ToolForm::CronManager(t) => Some((t.enabled, t.title@)),
        ToolForm::HeartbeatManager(t) => Some((t.enabled, t.title@)),
        ToolForm::SkillsRegistry(t) => Some((t.enabled, t.title@)),
        ToolForm::SkillsManager(t) => Some((t.enabled, t.title@)),
        _ => None,
    }
}

fn toggle_form(key: &str, enabled: bool) -> (f: ToolForm)
    requires
        is_toggle_index(tool_index(key@)),
    ensures
        form_index(f) == tool_index(key@),
        toggle_parts(f) == Some((enabled, "Edit Tool: "@ + key@)),
{
    let form = ToggleForm { title: crate::text::concat_str("Edit Tool: ", key), enabled };
    if text::str_eq(key, "archive") {
        ToolForm::Archive(form)
    } else if text::str_eq(key, "voice") {
        ToolForm::Voice(form)
    } else if text::str_eq(key, "approval") {
        ToolForm::Approval(form)
    } else if text::str_eq(key, "geo") {
        ToolForm::Geo(form)
    } else if text::str_eq(key, "local_search") {
        ToolForm::LocalSearch(form)
    } else if text::str_eq(key, "terminal_multiplexers") {
        ToolForm::TerminalMultiplexers(form)
    } else if text::str_eq(key, "cron_manager") {
        ToolForm::CronManager(form)
    } else if text::str_eq(key, "heartbeat_manager") {
        ToolForm::HeartbeatManager(form)
    } else if text::str_eq(key, "skills_registry") {
        ToolForm::SkillsRegistry(form)
    } else {
        ToolForm::SkillsManager(form)
    }
}

/// The form that edits tool `key`, showing its current settings; none for an unknown tool.
pub fn open_editor(config: &ToolsConfig, key: &str) -> (f: Option<ToolForm>)
    ensures
        f is None <==> tool_index(key@) < 0,
        f matches Some(form) ==> form_index(form) == tool_index(key@),
        f matches Some(ToolForm::SubAgent(form)) ==> sub_agent_form_shows(form, config.sub_agent),
        toggle_of(*config, tool_index(key@)) matches Some(t) ==> f is Some && toggle_parts(f->0) == Some(
            (t.enabled, "Edit Tool: "@ + key@),
        ),
{
    if text::str_eq(key, "apply_patch") {
        Some(ToolForm::ApplyPatch(ApplyPatchForm::from_config(&config.apply_patch)))
    } else if text::str_eq(key, "shell") {
        Some(ToolForm::Shell(ShellForm::from_config(&config.shell)))
    } else if text::str_eq(key, "archive") {
        Some(toggle_form(key, config.archive.enabled))
    } else if text::str_eq(key, "channel_attachment") {
        Some(ToolForm::ChannelAttachment(ChannelAttachmentForm::from_config(&config.channel_attachment)))
    } else if text::str_eq(key, "voice") {
        Some(toggle_form(key, config.voice.enabled))
    } else if text::str_eq(key, "approval") {
        Some(toggle_form(key, config.approval.enabled))
    } else if text::str_eq(key, "geo") {
        Some(toggle_form(key, config.geo.enabled))
    } else if text::str_eq(key, "local_search") {
        Some(toggle_form(key, config.local_search.enabled))
    } else if text::str_eq(key, "terminal_multiplexers") {
        Some(toggle_form(key, config.terminal_multiplexers.enabled))
    } else if text::str_eq(key, "cron_manager") {
        Some(toggle_form(key, config.cron_manager.enabled))
    } else if text::str_eq(key, "heartbeat_manager") {
        Some(toggle_form(key, config.heartbeat_manager.enabled))
    } else if text::str_eq(key, "skills_registry") {
        Some(toggle_form(key, config.skills_registry.enabled))
    } else if text::str_eq(key, "skills_manager") {
        Some(toggle_form(key, config.skills_manager.enabled))
    } else if text::str_eq(key, "memory") {
        Some(ToolForm::Memory(MemoryForm::from_config(&config.memory)))
    } else if text::str_eq(key, "web_fetch") {
        Some(ToolForm::WebFetch(WebFetchForm::from_config(&config.web_fetch)))
    } else if text::str_eq(key, "web_search") {
        Some(ToolForm::WebSearch(WebSearchForm::from_config(&config.web_search)))
    } else if text::str_eq(key, "sub_agent") {
        Some(ToolForm::SubAgent(SubAgentForm::from_config(&config.sub_agent)))
    } else {
        None
    }
}

/// Whether `new` has the settings of `old` for every tool but the one numbered `except`
/// (in the order of the fields of `ToolsConfig`, counted from 0).
pub open spec fn others_unchanged(old: ToolsConfig, new: ToolsConfig, except: int) -> bool {
    &&& (except != 0 ==> new.apply_patch == old.apply_patch)
    &&& (except != 1 ==> new.shell == old.shell)
    &&& (except != 2 ==> new.archive == old.archive)
    &&& (except != 3 ==> new.channel_attachment == old.channel_attachment)
    &&& (except != 4 ==> new.voice == old.voice)
    &&& (except != 5 ==> new.approval == old.approval)
    &&& (except != 6 ==> new.geo == old.geo)
    &&& (except != 7 ==> new.local_search == old.local_search)
    &&& (except != 8 ==> new.terminal_multiplexers == old.terminal_multiplexers)
    &&& (except != 9 ==> new.cron_manager == old.cron_manager)
    &&& (except != 10 ==> new.heartbeat_manager == old.heartbeat_manager)
    &&& (except != 11 ==> new.skills_registry == old.skills_registry)
    &&& (except != 12 ==> new.skills_manager == old.skills_manager)
    &&& (except != 13 ==> new.memory == old.memory)
    &&& (except != 14 ==> new.web_fetch == old.web_fetch)
    &&& (except != 15 ==> new.web_search == old.web_search)
    &&& (except != 16 ==> new.sub_agent == old.sub_agent)
}

/// What saving `form` into `config` gives: the settings with the edited tool replaced
/// by what the form reads, or the message that refuses the form.
pub open spec fn tool_form_saved(
    config: ToolsConfig,
    form: ToolForm,
    r: Result<ToolsConfig, String>,
) -> bool {
    match form {
        ToolForm::ApplyPatch(f) => r is Ok && apply_patch_form_reads(f, r->Ok_0.apply_patch)
            && others_unchanged(config, r->Ok_0, 0),
        ToolForm::Shell(f) => match r {
            Ok(c) => shell_form_error(f) is None && shell_form_reads(f, c.shell) && others_unchanged(
                config,
                c,
                1,
            ),
            Err(e) => shell_form_error(f) == Some(e@),
        },
        ToolForm::Archive(t) => r is Ok && r->Ok_0.archive.enabled == t.enabled && others_unchanged(
            config,
            r->Ok_0,
            2,
        ),
        ToolForm::ChannelAttachment(f) => match r {
            Ok(c) => channel_attachment_form_error(f) is None && channel_attachment_form_reads(
                f,
                c.channel_attachment,
            ) && others_unchanged(config, c, 3),
            Err(e) => channel_attachment_form_error(f) == Some(e@),
        },
        ToolForm::Voice(t) => r is Ok && r->Ok_0.voice.enabled == t.enabled && others_unchanged(
            config,
            r->Ok_0,
            4,
        ),
        ToolForm::Approval(t) => r is Ok && r->Ok_0.approval.enabled == t.enabled
            && others_unchanged(config, r->Ok_0, 5),
        ToolForm::Geo(t) => r is Ok && r->Ok_0.geo.enabled == t.enabled && others_unchanged(
            config,
            r->Ok_0,
            6,
        ),
        ToolForm::LocalSearch(t) => r is Ok && r->Ok_0.local_search.enabled == t.enabled
            && others_unchanged(config, r->Ok_0, 7),
        ToolForm::TerminalMultiplexers(t) => r is Ok && r->Ok_0.terminal_multiplexers.enabled
            == t.enabled && others_unchanged(config, r->Ok_0, 8),
        ToolForm::CronManager(t) => r is Ok && r->Ok_0.cron_manager.enabled == t.enabled
            && others_unchanged(config, r->Ok_0, 9),
        ToolForm::HeartbeatManager(t) => r is Ok && r->Ok_0.heartbeat_manager.enabled == t.enabled
            && others_unchanged(config, r->Ok_0, 10),
        ToolForm::SkillsRegistry(t) => r is Ok && r->Ok_0.skills_registry.enabled == t.enabled
            && others_unchanged(config, r->Ok_0, 11),
        ToolForm::SkillsManager(t) => r is Ok && r->Ok_0.skills_manager.enabled == t.enabled
            && others_unchanged(config, r->Ok_0, 12),
        ToolForm::Memory(f) => match r {
            Ok(c) => memory_form_error(f) is None && memory_form_reads(f, c.memory)
                && others_unchanged(config, c, 13),
            Err(e) => memory_form_error(f) == Some(e@),
        },
        ToolForm::WebFetch(f) => match r {
            Ok(c) => web_fetch_form_error(f) is None && web_fetch_form_reads(f, c.web_fetch)
                && others_unchanged(config, c, 14),
            Err(e) => web_fetch_form_error(f) == Some(e@),
        },
        ToolForm::WebSearch(f) => r is Ok && web_search_form_applied(f, r->Ok_0.web_search)
            && others_unchanged(config, r->Ok_0, 15),
        ToolForm::SubAgent(f) => match r {
            Ok(c) => sub_agent_form_error(f) is None && sub_agent_form_reads(f, c.sub_agent)
                && others_unchanged(config, c, 16),
            Err(e) => sub_agent_form_error(f) == Some(e@),
        },
    }
}

/// Saves a tool form into the settings, or says why it cannot: only the edited tool
/// changes.
#[verifier::spinoff_prover]
#[verifier::rlimit(40)]
pub fn apply_tool_form(config: ToolsConfig, form: ToolForm) -> (r: Result<ToolsConfig, String>)
    ensures
        tool_form_saved(config, form, r),
{
    let mut config = config;
    match form {
        ToolForm::ApplyPatch(f) => {
            config.apply_patch = f.to_config();
        },
        ToolForm::Shell(f) => {
            config.shell = f.to_config()?;
        },
        ToolForm::Archive(t) => {
            config.archive.enabled = t.enabled;
        },
        ToolForm::ChannelAttachment(f) => {
            config.channel_attachment = f.to_config()?;
        },
        ToolForm::Voice(t) => {
            config.voice.enabled = t.enabled;
        },
        ToolForm::Approval(t) => {
            config.approval.enabled = t.enabled;
        },
        ToolForm::Geo(t) => {
            config.geo.enabled = t.enabled;
        },
        ToolForm::LocalSearch(t) => {
            config.local_search.enabled = t.enabled;
        },
        ToolForm::TerminalMultiplexers(t) => {
            config.terminal_multiplexers.enabled = t.enabled;
        },
        ToolForm::CronManager(t) => {
            config.cron_manager.enabled = t.enabled;
        },
        ToolForm::HeartbeatManager(t) => {
            config.heartbeat_manager.enabled = t.enabled;
        },
        ToolForm::SkillsRegistry(t) => {
            config.skills_registry.enabled = t.enabled;
        },
        ToolForm::SkillsManager(t) => {
            config.skills_manager.enabled = t.enabled;
        },
        ToolForm::Memory(f) => {
            config.memory = f.to_config()?;
        },
        ToolForm::WebFetch(f) => {
            config.web_fetch = f.to_config()?;
        },
        ToolForm::WebSearch(f) => {
            f.apply_to(&mut config.web_search);
        },
        ToolForm::SubAgent(f) => {
            config.sub_agent = f.to_config()?;
        },
    }
    Ok(config)
}

/// Opening the editor of an on/off tool and saving it unchanged gives back the same
/// settings.
pub proof fn lemma_toggle_save_unchanged(
    config: ToolsConfig,
    key: Seq<char>,
    form: ToolForm,
    saved: Result<ToolsConfig, String>,
)
    requires
        toggle_of(config, tool_index(key)) is Some,
        form_index(form) == tool_index(key),
        toggle_parts(form) is Some,
        (toggle_parts(form)->0).0 == toggle_of(config, tool_index(key))->0.enabled,
        tool_form_saved(config, form, saved),
    ensures
        saved == Ok::<ToolsConfig, String>(config),
{
}

/// Opening the sub-agent editor and saving it unchanged gives back the same settings,
/// when the excluded tools are trimmed, not empty and free of line breaks.
pub proof fn lemma_sub_agent_save_unchanged(
    config: ToolsConfig,
    form: ToolForm,
    saved: Result<ToolsConfig, String>,
)
    requires
        form is SubAgent,
        sub_agent_form_shows(form->SubAgent_0, config.sub_agent),
        clean_entries(text::string_views(config.sub_agent.exclude_tools@)),
        tool_form_saved(config, form, saved),
    ensures
        saved is Ok,
        others_unchanged(config, saved->Ok_0, 16),
        saved->Ok_0.sub_agent.enabled == config.sub_agent.enabled,
        saved->Ok_0.sub_agent.max_iterations == config.sub_agent.max_iterations,
        saved->Ok_0.sub_agent.max_tool_calls == config.sub_agent.max_tool_calls,
        saved->Ok_0.sub_agent.inherit_parent_tools == config.sub_agent.inherit_parent_tools,
        text::string_views(saved->Ok_0.sub_agent.exclude_tools@) == text::string_views(
            config.sub_agent.exclude_tools@,
        ),
{
    let f = form->SubAgent_0;
    lemma_sub_agent_form_roundtrip(f, config.sub_agent);
}

} // verus!
