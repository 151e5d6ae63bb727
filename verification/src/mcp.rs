use vstd::prelude::*;

use crate::keyed::KeyedMap;
use crate::numbers;
use crate::numbers::u64_to_string;
use crate::panels::Notice;
use crate::skills::clone_strings;
use crate::text;
use crate::text::{concat_all, concat_str, str_eq, to_chars, trim_str};
use crate::tool;
use crate::tool::{clone_opt, optional_string, text_or_empty};

verus! {

/// How an MCP server is reached.
#[derive(Clone, Copy, Debug, PartialEq, Eq, Structural)]
pub enum McpServerMode {
    Stdio,
    Sse,
}

/// One MCP server of the configuration.
#[derive(Debug)]
pub struct McpServerConfig {
    pub id: String,
    pub enabled: bool,
    pub mode: McpServerMode,
    pub command: Option<String>,
    pub args: Vec<String>,
    pub env: KeyedMap<String>,
    pub cwd: Option<String>,
    pub url: Option<String>,
    pub headers: KeyedMap<String>,
}

/// The form that adds or edits an MCP server.
#[derive(Debug)]
pub struct McpServerForm {
    pub original_id: Option<String>,
    pub id: String,
    pub enabled: bool,
    pub mode: McpServerMode,
    pub command: String,
    pub args_input: Vec<String>,
    pub env_input: KeyedMap<String>,
    pub cwd: String,
    pub url: String,
    pub headers_input: KeyedMap<String>,
}

/// Whether server `s` is what form `f` describes.
pub open spec fn server_from_form(s: McpServerConfig, f: McpServerForm) -> bool {
    &&& s.id@ == text::trim(f.id@)
    &&& s.enabled == f.enabled
    &&& s.mode == f.mode
    &&& tool::opt_view(s.command) == tool::optional_text(f.command@)
    &&& s.args@ == f.args_input@
    &&& s.env@ == f.env_input@
    &&& tool::opt_view(s.cwd) == tool::optional_text(f.cwd@)
    &&& tool::opt_view(s.url) == tool::optional_text(f.url@)
    &&& s.headers@ == f.headers_input@
}

/// Whether form `f` shows the settings of server `s`.
pub open spec fn server_edit_shows(f: McpServerForm, s: McpServerConfig) -> bool {
    &&& f.id@ == s.id@
    &&& f.enabled == s.enabled
    &&& f.mode == s.mode
    &&& f.command@ == tool::text_of(s.command)
    &&& f.args_input@ == s.args@
    &&& f.env_input@ == s.env@
    &&& f.cwd@ == tool::text_of(s.cwd)
    &&& f.url@ == tool::text_of(s.url)
    &&& f.headers_input@ == s.headers@
}

/// Opening the editor of a server and saving it unchanged gives back the same settings,
/// when the server's id and optional texts are clean.
pub proof fn lemma_server_edit_roundtrip(server: McpServerConfig, form: McpServerForm, saved: McpServerConfig)
    requires
        server_edit_shows(form, server),
        text::trim(server.id@) == server.id@,
        tool::clean_optional(server.command),
        tool::clean_optional(server.cwd),
        tool::clean_optional(server.url),
        server_from_form(saved, form),
    ensures
        saved.id@ == server.id@,
        saved.enabled == server.enabled,
        saved.mode == server.mode,
        tool::opt_view(saved.command) == tool::opt_view(server.command),
        saved.args@ == server.args@,
        saved.env@ == server.env@,
        tool::opt_view(saved.cwd) == tool::opt_view(server.cwd),
        tool::opt_view(saved.url) == tool::opt_view(server.url),
        saved.headers@ == server.headers@,
{
    tool::lemma_clean_optional_roundtrip(server.command);
    tool::lemma_clean_optional_roundtrip(server.cwd);
    tool::lemma_clean_optional_roundtrip(server.url);
}

impl McpServerForm {
    /// A form for a new, enabled stdio server.
    pub fn new() -> (f: Self)
        ensures
            f.original_id is None,
            f.id@ == Seq::<char>::empty(),
            f.enabled,
            f.mode == McpServerMode::Stdio,
            f.command@ == Seq::<char>::empty(),
            f.args_input@.len() == 0,
            f.env_input@ == Map::<Seq<char>, String>::empty(),
            f.cwd@ == Seq::<char>::empty(),
            f.url@ == Seq::<char>::empty(),
            f.headers_input@ == Map::<Seq<char>, String>::empty(),
    {
        McpServerForm {
            original_id: None,
            id: String::new(),
            enabled: true,
            mode: McpServerMode::Stdio,
            command: String::new(),
            args_input: Vec::new(),
            env_input: KeyedMap::new(),
            cwd: String::new(),
            url: String::new(),
            headers_input: KeyedMap::new(),
        }
    }

    /// A form that edits `server`.
    pub fn edit(server: &McpServerConfig) -> (f: Self)
        ensures
            f.original_id == Some(server.id),
            f.id == server.id,
            server_edit_shows(f, *server),
    {
        McpServerForm {
            original_id: Some(server.id.clone()),
            id: server.id.clone(),
            enabled: server.enabled,
            mode: server.mode,
            command: text_or_empty(&server.command),
            args_input: clone_strings(&server.args),
            env_input: server.env.duplicate(),
            cwd: text_or_empty(&server.cwd),
            url: text_or_empty(&server.url),
            headers_input: server.headers.duplicate(),
        }
    }

    /// The window title: editing or adding.
    pub fn title(&self) -> (r: &'static str)
        ensures
            r@ == (if self.original_id is Some {
                "Edit MCP Server"@
            } else {
                "Add MCP Server"@
            }),
    {
        if self.original_id.is_some() {
            "Edit MCP Server"
        } else {
            "Add MCP Server"
        }
    }

    /// The server id, trimmed.
    pub fn normalized_id(&self) -> (r: String)
        ensures
            r@ == text::trim(self.id@),
    {
        trim_str(self.id.as_str())
    }

    /// The server the form describes.
    pub fn to_config(&self) -> (s: McpServerConfig)
        ensures
            server_from_form(s, *self),
    {
        McpServerConfig {
            id: self.normalized_id(),
            enabled: self.enabled,
            mode: self.mode,
            command: optional_string(self.command.as_str()),
            args: clone_strings(&self.args_input),
            env: self.env_input.duplicate(),
            cwd: optional_string(self.cwd.as_str()),
            url: optional_string(self.url.as_str()),
            headers: self.headers_input.duplicate(),
        }
    }
}

/// The position of the first server with id `id`.
pub open spec fn first_with_id(s: Seq<McpServerConfig>, id: Seq<char>) -> Option<int>
    decreases s.len(),
{
    if s.len() == 0 {
        None
    } else if s[0].id@ == id {
        Some(0)
    } else {
        match first_with_id(s.drop_first(), id) {
            Some(i) => Some(i + 1),
            None => None,
        }
    }
}

proof fn lemma_first_with_id(s: Seq<McpServerConfig>, id: Seq<char>)
    ensures
        first_with_id(s, id) matches Some(i) ==> 0 <= i < s.len() && s[i].id@ == id && forall|j: int|
            0 <= j < i ==> (#[trigger] s[j]).id@ != id,
        first_with_id(s, id) is None ==> forall|j: int| 0 <= j < s.len() ==> (#[trigger] s[j]).id@ != id,
    decreases s.len(),
{
    if s.len() > 0 {
        lemma_first_with_id(s.drop_first(), id);
        assert forall|j: int| 1 <= j < s.len() implies (#[trigger] s[j]).id@ == s.drop_first()[j - 1].id@ by {}
    }
}

/// The position of the first server with id `id`, computed.
fn find_server(servers: &Vec<McpServerConfig>, id: &str) -> (r: Option<usize>)
    ensures
        match r {
            Some(i) => first_with_id(servers@, id@) == Some(i as int) && i < servers@.len(),
            None => first_with_id(servers@, id@) is None,
        },
{
    proof {
        lemma_first_with_id(servers@, id@);
    }
    let mut i: usize = 0;
    while i < servers.len()
        invariant
            i <= servers.len(),
            forall|j: int| 0 <= j < i ==> (#[trigger] servers@[j]).id@ != id@,
            first_with_id(servers@, id@) matches Some(k) ==> 0 <= k < servers@.len() && servers@[k].id@
                == id@ && forall|j: int| 0 <= j < k ==> (#[trigger] servers@[j]).id@ != id@,
            first_with_id(servers@, id@) is None ==> forall|j: int|
                0 <= j < servers@.len() ==> (#[trigger] servers@[j]).id@ != id@,
        decreases servers.len() - i,
    {
        if str_eq(servers[i].id.as_str(), id) {
            return Some(i);
        }
        i = i + 1;
    }
    None
}

/// The runtime state of one server, as the status refresh reported it.
#[derive(Debug)]
pub struct ServerRuntimeStatus {
    pub state: String,
    pub tool_count: usize,
    pub last_error: Option<String>,
}

/// The MCP settings page.
#[derive(Debug)]
pub struct McpPanel {
    pub servers: Vec<McpServerConfig>,
    pub form: Option<McpServerForm>,
    pub selected_server: Option<String>,
    pub server_statuses: KeyedMap<ServerRuntimeStatus>,
}

impl McpPanel {
    /// A page with no server and no runtime status.
    pub fn new() -> (p: Self)
        ensures
            p.servers@.len() == 0,
            p.form is None,
            p.selected_server is None,
            p.server_statuses@ == Map::<Seq<char>, ServerRuntimeStatus>::empty(),
    {
        McpPanel {
            servers: Vec::new(),
            form: None,
            selected_server: None,
            server_statuses: KeyedMap::new(),
        }
    }

    /// Saves `form` into the server list, or says why it cannot. Editing replaces the
    /// first server that has the edited id, in place; otherwise the server is added at the
    /// end, unless a server with its id exists.
    pub fn apply_form(servers: Vec<McpServerConfig>, form: &McpServerForm) -> (r: Result<
        Vec<McpServerConfig>,
        String,
    >)
        ensures
            text::trim(form.id@).len() == 0 ==> r is Err && r->Err_0@
                == "MCP server ID cannot be empty"@,
            text::trim(form.id@).len() > 0 ==> match form.original_id {
                Some(o) if first_with_id(servers@, o@) is Some => {
                    let i = first_with_id(servers@, o@)->0;
                    &&& r is Ok
                    &&& r->Ok_0@.len() == servers@.len()
                    &&& r->Ok_0@ == servers@.update(i, r->Ok_0@[i])
                    &&& server_from_form(r->Ok_0@[i], *form)
                },
                _ => if first_with_id(servers@, text::trim(form.id@)) is Some {
                    &&& r is Err
                    &&& r->Err_0@ == "MCP server ID '"@ + text::trim(form.id@)
                        + "' already exists, choose another ID"@
                } else {
                    &&& r is Ok
                    &&& r->Ok_0@.len() == servers@.len() + 1
                    &&& r->Ok_0@.drop_last() == servers@
                    &&& server_from_form(r->Ok_0@.last(), *form)
                },
            },
    {
        let mut servers = servers;
        let server = form.to_config();
        if server.id.as_str().is_empty() {
            return Err("MCP server ID cannot be empty".to_owned());
        }
        let target = match &form.original_id {
            Some(o) => find_server(&servers, o.as_str()),
            None => None,
        };
        match target {
            Some(i) => {
                let ghost before = servers@;
                let _old = servers.remove(i);
                servers.insert(i, server);
                assert(servers@ =~= before.update(i as int, servers@[i as int]));
                Ok(servers)
            },
            None => {
                if find_server(&servers, server.id.as_str()).is_some() {
                    let head = concat_str("MCP server ID '", server.id.as_str());
                    let msg = concat_str(head.as_str(), "' already exists, choose another ID");
                    assert(msg@ =~= "MCP server ID '"@ + text::trim(form.id@)
                        + "' already exists, choose another ID"@);
                    return Err(msg);
                }
                let ghost before = servers@;
                servers.push(server);
                assert(servers@.drop_last() =~= before);
                Ok(servers)
            },
        }
    }

    /// A click on the row of server `id`: selects it, or clears the selection when it was
    /// selected.
    pub fn toggle_selection(&mut self, id: &str)
        ensures
            crate::tool::opt_view(final(self).selected_server) == crate::panels::selection_after_click(
                crate::tool::opt_view(old(self).selected_server),
                id@,
            ),
            final(self).servers == old(self).servers,
            final(self).form == old(self).form,
    {
        crate::panels::toggle_selected(&mut self.selected_server, id);
    }

    /// Opens the form on the first server with id `id`, when there is one.
    pub fn open_edit_server(&mut self, id: &str)
        ensures
            first_with_id(old(self).servers@, id@) is None ==> final(self).form == old(self).form,
            first_with_id(old(self).servers@, id@) matches Some(i) ==> final(self).form is Some
                && final(self).form->0.original_id == Some(old(self).servers@[i].id)
                && final(self).form->0.id == old(self).servers@[i].id,
            final(self).servers == old(self).servers,
    {
        match find_server(&self.servers, id) {
            Some(i) => {
                let form = McpServerForm::edit(&self.servers[i]);
                self.form = Some(form);
            },
            None => {},
        }
    }

    /// After server `id` was deleted: its runtime status is forgotten and it is no longer
    /// selected.
    pub fn forget_server(&mut self, id: &str)
        ensures
            final(self).server_statuses@ == old(self).server_statuses@.remove(id@),
            final(self).selected_server == (match old(self).selected_server {
                Some(s) => if s@ == id@ {
                    None
                } else {
                    Some(s)
                },
                None => None,
            }),
            final(self).servers == old(self).servers,
    {
        self.server_statuses.remove(id);
        let drop_selection = match &self.selected_server {
            Some(s) => str_eq(s.as_str(), id),
            None => false,
        };
        if drop_selection {
            self.selected_server = None;
        }
    }

    /// The runtime state shown for server `id`; `stopped` when nothing was reported.
    pub fn server_status_text(&self, id: &str) -> (r: &str)
        ensures
            r@ == (if self.server_statuses@.dom().contains(id@) {
                self.server_statuses@[id@].state@
            } else {
                "stopped"@
            }),
    {
        match self.server_statuses.get(id) {
            Some(status) => status.state.as_str(),
            None => "stopped",
        }
    }

    /// The tool count shown for server `id`; 0 when nothing was reported.
    pub fn server_tool_count(&self, id: &str) -> (r: usize)
        ensures
            r == (if self.server_statuses@.dom().contains(id@) {
                self.server_statuses@[id@].tool_count
            } else {
                0
            }),
    {
        match self.server_statuses.get(id) {
            Some(status) => status.tool_count,
            None => 0,
        }
    }
}

/// The servers without those with id `id`, in order.
pub open spec fn servers_without(s: Seq<McpServerConfig>, id: Seq<char>) -> Seq<McpServerConfig>
    decreases s.len(),
{
    if s.len() == 0 {
        s
    } else if s.last().id@ == id {
        servers_without(s.drop_last(), id)
    } else {
        servers_without(s.drop_last(), id).push(s.last())
    }
}

/// Deletes every server with id `id` from the server list.
pub fn remove_server(servers: Vec<McpServerConfig>, id: &str) -> (r: Vec<McpServerConfig>)
    ensures
        r@ == servers_without(servers@, id@),
{
    let ghost orig = servers@;
    let mut rest = servers;
    let mut out: Vec<McpServerConfig> = Vec::new();
    let ghost mut i: int = 0;
    assert(orig.take(0) =~= Seq::<McpServerConfig>::empty());
    assert(orig.skip(0) =~= orig);
    while rest.len() > 0
        invariant
            0 <= i <= orig.len(),
            rest@ == orig.skip(i),
            out@ == servers_without(orig.take(i), id@),
        decreases rest.len(),
    {
        let server = rest.remove(0);
        proof {
            assert(server == orig[i]);
            assert(orig.take(i + 1).drop_last() =~= orig.take(i));
            assert(orig.take(i + 1).last() == orig[i]);
            assert(orig.skip(i).subrange(1, orig.skip(i).len() as int) =~= orig.skip(i + 1));
        }
        if !str_eq(server.id.as_str(), id) {
            out.push(server);
        }
        proof {
            i = i + 1;
        }
    }
    assert(orig.take(i) =~= orig);
    out
}

/// `parts` joined with single spaces.
pub open spec fn join_space(parts: Seq<Seq<char>>) -> Seq<char>
    decreases parts.len(),
{
    if parts.len() == 0 {
        Seq::<char>::empty()
    } else if parts.len() == 1 {
        parts[0]
    } else {
        join_space(parts.drop_last()) + " "@ + parts.last()
    }
}

/// The words that show how a stdio server is started: its command, when set and not
/// blank, then its arguments.
pub open spec fn command_parts(server: McpServerConfig) -> Seq<Seq<char>> {
    let head = match server.command {
        Some(c) => if text::trim(c@).len() > 0 {
            seq![text::trim(c@)]
        } else {
            Seq::<Seq<char>>::empty()
        },
        None => Seq::<Seq<char>>::empty(),
    };
    head + text::string_views(server.args@)
}

/// How the server list shows the way a server is reached.
pub open spec fn command_text(server: McpServerConfig) -> Seq<char> {
    match server.mode {
        McpServerMode::Stdio => if command_parts(server).len() == 0 {
            "-"@
        } else {
            join_space(command_parts(server))
        },
        McpServerMode::Sse => match server.url {
            Some(u) => u@,
            None => "-"@,
        },
    }
}

/// How the server list shows the way a server is reached: the command line of a stdio
/// server, the URL of an SSE server, `-` when there is none.
pub fn command_display(server: &McpServerConfig) -> (r: String)
    ensures
        r@ == command_text(*server),
{
    proof {
        reveal_strlit(" ");
    }
    match server.mode {
        McpServerMode::Stdio => {
            let mut parts: Vec<String> = Vec::new();
            if let Some(c) = &server.command {
                let t = trim_str(c.as_str());
                if !t.as_str().is_empty() {
                    parts.push(t);
                }
            }
            let ghost head = text::string_views(parts@);
            let mut i: usize = 0;
            assert(server.args@.take(0) =~= Seq::<String>::empty());
            while i < server.args.len()
                invariant
                    i <= server.args@.len(),
                    text::string_views(parts@) == head + text::string_views(server.args@.take(i as int)),
                decreases server.args@.len() - i,
            {
                let ghost before = parts@;
                parts.push(server.args[i].clone());
                assert(text::string_views(server.args@.take(i + 1)) =~= text::string_views(
                    server.args@.take(i as int),
                ).push(server.args@[i as int]@));
                assert(text::string_views(parts@) =~= text::string_views(before).push(
                    server.args@[i as int]@,
                ));
                i = i + 1;
            }
            assert(server.args@.take(server.args@.len() as int) =~= server.args@);
            assert(text::string_views(parts@) =~= command_parts(*server));
            if parts.len() == 0 {
                return "-".to_owned();
            }
            let ghost all = text::string_views(parts@);
            let mut v: Vec<char> = Vec::new();
            let mut k: usize = 0;
            assert(all.take(0) =~= Seq::<Seq<char>>::empty());
            while k < parts.len()
                invariant
                    k <= parts@.len(),
                    all == text::string_views(parts@),
                    v@ == join_space(all.take(k as int)),
                decreases parts@.len() - k,
            {
                assert(all.take(k + 1).drop_last() =~= all.take(k as int));
                assert(all.take(k + 1).last() == parts@[k as int]@);
                let mut w = to_chars(parts[k].as_str());
                if k > 0 {
                    let mut sp = to_chars(" ");
                    v.append(&mut sp);
                } else {
                    assert(v@ =~= Seq::<char>::empty());
                }
                v.append(&mut w);
                k = k + 1;
            }
            assert(all.take(parts@.len() as int) =~= all);
            text::from_chars(&v)
        },
        McpServerMode::Sse => match &server.url {
            Some(u) => u.clone(),
            None => "-".to_owned(),
        },
    }
}

/// The markdown of a server's detail window: its state, tool count and last error from
/// the runtime status (`stopped`, 0 and `-` without one), and the pretty-printed
/// `tools/list` response (`null` without one).
pub fn build_server_detail_markdown(
    server_id: &str,
    status: Option<&ServerRuntimeStatus>,
    tools_list_json: Option<&str>,
) -> (r: String)
    ensures
        r@ == "# MCP Server Detail\n\n- Server: `"@ + server_id@ + "`\n- State: `"@ + (match status {
            Some(s) => s.state@,
            None => "stopped"@,
        }) + "`\n- Tools: `"@ + numbers::decimal_digits((match status {
            Some(s) => s.tool_count,
            None => 0,
        }) as nat) + "`\n- Last Error: `"@ + (match status {
            Some(s) => match s.last_error {
                Some(e) => e@,
                None => "-"@,
            },
            None => "-"@,
        }) + "`\n\n## tools/list response\n\n```json\n"@ + (match tools_list_json {
            Some(j) => j@,
            None => "null"@,
        }) + "\n```"@,
{
    let state: &str = match status {
        Some(s) => s.state.as_str(),
        None => "stopped",
    };
    let count: usize = match status {
        Some(s) => s.tool_count,
        None => 0,
    };
    let last_error: &str = match status {
        Some(s) => match &s.last_error {
            Some(e) => e.as_str(),
            None => "-",
        },
        None => "-",
    };
    let tools: &str = match tools_list_json {
        Some(j) => j,
        None => "null",
    };
    let count_text = u64_to_string(count as u64);
    let parts: [&str; 11] = [
        "# MCP Server Detail\n\n- Server: `",
        server_id,
        "`\n- State: `",
        state,
        "`\n- Tools: `",
        count_text.as_str(),
        "`\n- Last Error: `",
        last_error,
        "`\n\n## tools/list response\n\n```json\n",
        tools,
        "\n```",
    ];
    let r = concat_all(&parts);
    proof {
        let all = parts@.map_values(|p: &str| p@);
        reveal_with_fuel(text::concat_views, 12);
        assert(r@ =~= all[0] + all[1] + all[2] + all[3] + all[4] + all[5] + all[6] + all[7] + all[8]
            + all[9] + all[10]);
    }
    r
}


// ---------------------------------------------------------------------------
// Runtime status refresh and synchronization
// ---------------------------------------------------------------------------

/// What a look at the background status request found.
#[derive(Debug)]
pub enum StatusPoll {
    /// The runtime answered with the status of each server, keyed by server id.
    Ready(Vec<(String, ServerRuntimeStatus)>),
    Failed(String),
    Pending,
    Disconnected,
}

/// What a look at the background synchronization request found.
#[derive(Debug)]
pub enum SyncPoll {
    Done,
    Failed(String),
    Pending,
    Disconnected,
}

/// The seconds between two automatic status refreshes, in milliseconds.
pub const MCP_STATUS_POLL_INTERVAL_MS: u64 = 2000;

/// The bookkeeping of the background requests of the MCP page.
#[derive(Debug)]
pub struct McpRuntimeRequests {
    /// Whether a status request is running.
    pub status_waiting: bool,
    /// Whether a status refresh was ever started.
    pub status_started: bool,
    pub status_refresh_announce: bool,
    pub status_refresh_manual: bool,
    /// Whether a synchronization request is running.
    pub sync_waiting: bool,
    pub sync_announce: bool,
}

/// The statuses a runtime answer gives: each server id with its status, a later entry for
/// the same id replacing an earlier one.
pub open spec fn statuses_of(entries: Seq<(String, ServerRuntimeStatus)>) -> Map<Seq<char>, ServerRuntimeStatus>
    decreases entries.len(),
{
    if entries.len() == 0 {
        Map::<Seq<char>, ServerRuntimeStatus>::empty()
    } else {
        statuses_of(entries.drop_last()).insert(entries.last().0@, entries.last().1)
    }
}

/// The status map of a runtime answer.
pub fn collect_statuses(entries: Vec<(String, ServerRuntimeStatus)>) -> (m: KeyedMap<ServerRuntimeStatus>)
    ensures
        m@ == statuses_of(entries@),
{
    let ghost orig = entries@;
    let mut rest = entries;
    let mut m: KeyedMap<ServerRuntimeStatus> = KeyedMap::new();
    let ghost mut i: int = 0;
    assert(orig.take(0) =~= Seq::<(String, ServerRuntimeStatus)>::empty());
    assert(orig.skip(0) =~= orig);
    while rest.len() > 0
        invariant
            0 <= i <= orig.len(),
            rest@ == orig.skip(i),
            m@ == statuses_of(orig.take(i)),
        decreases rest.len(),
    {
        let (k, v) = rest.remove(0);
        proof {
            assert((k, v) == orig[i]);
            assert(orig.take(i + 1).drop_last() =~= orig.take(i));
            assert(orig.take(i + 1).last() == orig[i]);
            assert(orig.skip(i).subrange(1, orig.skip(i).len() as int) =~= orig.skip(i + 1));
        }
        m.insert(k, v);
        proof {
            i = i + 1;
        }
    }
    assert(orig.take(i) =~= orig);
    m
}

impl McpRuntimeRequests {
    /// Nothing running, nothing started.
    pub fn new() -> (r: Self)
        ensures
            !r.status_waiting && !r.status_started && !r.status_refresh_announce
                && !r.status_refresh_manual && !r.sync_waiting && !r.sync_announce,
    {
        McpRuntimeRequests {
            status_waiting: false,
            status_started: false,
            status_refresh_announce: false,
            status_refresh_manual: false,
            sync_waiting: false,
            sync_announce: false,
        }
    }

    /// Asks for a status refresh; true when a new request has to be sent. While one is
    /// running, the request only joins it (and asks it to be announced when `announce`).
    pub fn schedule_status_refresh(&mut self, announce: bool) -> (send: bool)
        ensures
            send == !old(self).status_waiting,
            old(self).status_waiting ==> {
                &&& final(self).status_refresh_announce == (old(self).status_refresh_announce
                    || announce)
                &&& final(self).status_waiting
                &&& final(self).status_started == old(self).status_started
                &&& final(self).status_refresh_manual == old(self).status_refresh_manual
            },
            !old(self).status_waiting ==> {
                &&& final(self).status_waiting
                &&& final(self).status_started
                &&& final(self).status_refresh_announce == announce
                &&& final(self).status_refresh_manual == announce
            },
            final(self).sync_waiting == old(self).sync_waiting,
            final(self).sync_announce == old(self).sync_announce,
    {
        if self.status_waiting {
            self.status_refresh_announce = self.status_refresh_announce || announce;
            return false;
        }
        self.status_waiting = true;
        self.status_started = true;
        self.status_refresh_announce = announce;
        self.status_refresh_manual = announce;
        true
    }

    /// The periodic refresh: a silent status request is due when none runs and none was
    /// ever started, or the last one started at least the poll interval ago. True when a
    /// new request has to be sent.
    pub fn refresh_status_if_due(&mut self, elapsed_ms: u64) -> (send: bool)
        ensures
            send == (!old(self).status_waiting && (!old(self).status_started || elapsed_ms
                >= MCP_STATUS_POLL_INTERVAL_MS)),
            send ==> {
                &&& final(self).status_waiting
                &&& final(self).status_started
                &&& !final(self).status_refresh_announce
                &&& !final(self).status_refresh_manual
            },
            !send ==> *final(self) == *old(self),
    {
        if self.status_waiting {
            return false;
        }
        if !self.status_started || elapsed_ms >= MCP_STATUS_POLL_INTERVAL_MS {
            return self.schedule_status_refresh(false);
        }
        false
    }

    /// Asks for a synchronization of the runtime; true when a new request has to be sent.
    pub fn schedule_manager_sync(&mut self, announce: bool) -> (send: bool)
        ensures
            send == !old(self).sync_waiting,
            final(self).sync_waiting,
            old(self).sync_waiting ==> final(self).sync_announce == (old(self).sync_announce
                || announce),
            !old(self).sync_waiting ==> final(self).sync_announce == announce,
            final(self).status_waiting == old(self).status_waiting,
            final(self).status_started == old(self).status_started,
            final(self).status_refresh_announce == old(self).status_refresh_announce,
            final(self).status_refresh_manual == old(self).status_refresh_manual,
    {
        if self.sync_waiting {
            self.sync_announce = self.sync_announce || announce;
            return false;
        }
        self.sync_waiting = true;
        self.sync_announce = announce;
        true
    }

    /// Takes in what the status request answered: new statuses replace the old ones; a
    /// notice comes only for an announced refresh.
    pub fn poll_status_refresh(
        &mut self,
        statuses: &mut KeyedMap<ServerRuntimeStatus>,
        poll: StatusPoll,
    ) -> (notice: Option<Notice>)
        ensures
            !old(self).status_waiting ==> notice is None && *final(self) == *old(self)
                && final(statuses)@ == old(statuses)@,
            old(self).status_waiting ==> match poll {
                StatusPoll::Pending => notice is None && *final(self) == *old(self)
                    && final(statuses)@ == old(statuses)@,
                StatusPoll::Ready(entries) => {
                    &&& final(statuses)@ == statuses_of(entries@)
                    &&& (old(self).status_refresh_announce ==> notice is Some && notice->0
                        is Success && notice->0->Success_0@ == "MCP status refreshed"@)
                    &&& (!old(self).status_refresh_announce ==> notice is None)
                    &&& !final(self).status_waiting
                    &&& !final(self).status_refresh_announce
                    &&& !final(self).status_refresh_manual
                },
                StatusPoll::Failed(err) => {
                    &&& final(statuses)@ == old(statuses)@
                    &&& (old(self).status_refresh_announce ==> notice is Some && notice->0
                        is Error && notice->0->Error_0@ == "Failed to refresh MCP status: "@ + err@)
                    &&& (!old(self).status_refresh_announce ==> notice is None)
                    &&& !final(self).status_waiting
                    &&& !final(self).status_refresh_announce
                    &&& !final(self).status_refresh_manual
                },
                StatusPoll::Disconnected => {
                    &&& final(statuses)@ == old(statuses)@
                    &&& (old(self).status_refresh_announce ==> notice is Some && notice->0
                        is Error && notice->0->Error_0@
                        == "Failed to refresh MCP status: background task disconnected"@)
                    &&& (!old(self).status_refresh_announce ==> notice is None)
                    &&& !final(self).status_waiting
                    &&& !final(self).status_refresh_announce
                    &&& !final(self).status_refresh_manual
                },
            },
            final(self).status_started == old(self).status_started,
            final(self).sync_waiting == old(self).sync_waiting,
            final(self).sync_announce == old(self).sync_announce,
    {
        if !self.status_waiting {
            return None;
        }
        let announce = self.status_refresh_announce;
        let notice = match poll {
            StatusPoll::Pending => {
                return None;
            },
            StatusPoll::Ready(entries) => {
                *statuses = collect_statuses(entries);
                if announce {
                    Some(Notice::Success("MCP status refreshed".to_owned()))
                } else {
                    None
                }
            },
            StatusPoll::Failed(err) => {
                if announce {
                    Some(Notice::Error(concat_str("Failed to refresh MCP status: ", err.as_str())))
                } else {
                    None
                }
            },
            StatusPoll::Disconnected => {
                if announce {
                    Some(
                        Notice::Error(
                            "Failed to refresh MCP status: background task disconnected".to_owned(),
                        ),
                    )
                } else {
                    None
                }
            },
        };
        self.status_waiting = false;
        self.status_refresh_announce = false;
        self.status_refresh_manual = false;
        notice
    }

    /// Takes in what the synchronization request answered. A finished synchronization asks
    /// for a silent status refresh; the second result tells whether that refresh has to be
    /// sent. Failures are always reported.
    pub fn poll_manager_sync(&mut self, poll: SyncPoll) -> (r: (Option<Notice>, bool))
        ensures
            !old(self).sync_waiting ==> r.0 is None && !r.1 && *final(self) == *old(self),
            old(self).sync_waiting ==> match poll {
                SyncPoll::Pending => r.0 is None && !r.1 && *final(self) == *old(self),
                SyncPoll::Done => {
                    &&& (old(self).sync_announce ==> r.0 is Some && r.0->0 is Success
                        && r.0->0->Success_0@ == "MCP runtime synchronized"@)
                    &&& (!old(self).sync_announce ==> r.0 is None)
                    &&& r.1 == !old(self).status_waiting
                    &&& final(self).status_waiting
                    &&& (!old(self).status_waiting ==> final(self).status_started)
                    &&& (old(self).status_waiting ==> final(self).status_started == old(
                        self,
                    ).status_started)
                    &&& (!old(self).status_waiting ==> !final(self).status_refresh_announce
                        && !final(self).status_refresh_manual)
                    &&& (old(self).status_waiting ==> final(self).status_refresh_announce
                        == old(self).status_refresh_announce && final(self).status_refresh_manual
                        == old(self).status_refresh_manual)
                    &&& !final(self).sync_waiting
                    &&& !final(self).sync_announce
                },
                SyncPoll::Failed(err) => {
                    &&& r.0 is Some && r.0->0 is Error && r.0->0->Error_0@
                        == "Failed to sync MCP runtime: "@ + err@
                    &&& !r.1
                    &&& !final(self).sync_waiting
                    &&& !final(self).sync_announce
                    &&& final(self).status_waiting == old(self).status_waiting
                    &&& final(self).status_started == old(self).status_started
                },
                SyncPoll::Disconnected => {
                    &&& r.0 is Some && r.0->0 is Error && r.0->0->Error_0@
                        == "Failed to sync MCP runtime: background task disconnected"@
                    &&& !r.1
                    &&& !final(self).sync_waiting
                    &&& !final(self).sync_announce
                    &&& final(self).status_waiting == old(self).status_waiting
                    &&& final(self).status_started == old(self).status_started
                },
            },
    {
        if !self.sync_waiting {
            return (None, false);
        }
        match poll {
            SyncPoll::Pending => (None, false),
            SyncPoll::Done => {
                let announce = self.sync_announce;
                self.sync_waiting = false;
                let send = self.schedule_status_refresh(false);
                self.sync_announce = false;
                let notice = if announce {
                    Some(Notice::Success("MCP runtime synchronized".to_owned()))
                } else {
                    None
                };
                (notice, send)
            },
            SyncPoll::Failed(err) => {
                self.sync_waiting = false;
                self.sync_announce = false;
                (Some(Notice::Error(concat_str("Failed to sync MCP runtime: ", err.as_str()))), false)
            },
            SyncPoll::Disconnected => {
                self.sync_waiting = false;
                self.sync_announce = false;
                (
                    Some(
                        Notice::Error(
                            "Failed to sync MCP runtime: background task disconnected".to_owned(),
                        ),
                    ),
                    false,
                )
            },
        }
    }
}

} // verus!
