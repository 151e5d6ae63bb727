use vstd::prelude::*;

use crate::profile::ProfilePanel;
use crate::terminal::{TerminalPanel, TerminalTab};

verus! {

/// The selection after a click on the row of `key`: a click on the selected row clears
/// the selection, a click on another row selects it.
pub open spec fn selection_after_click(selected: Option<Seq<char>>, key: Seq<char>) -> Option<Seq<char>> {
    if selected == Some(key) {
        None
    } else {
        Some(key)
    }
}

/// Applies a click on the row of `key` to the selection.
pub fn toggle_selected(selected: &mut Option<String>, key: &str)
    ensures
        crate::tool::opt_view(*final(selected)) == selection_after_click(crate::tool::opt_view(*old(selected)), key@),
{
    let was = match selected {
        Some(s) => crate::text::str_eq(s.as_str(), key),
        None => false,
    };
    if was {
        *selected = None;
    } else {
        *selected = Some(key.to_string());
    }
}

/// A message for the notification area, by its kind.
#[derive(Debug)]
pub enum Notice {
    Success(String),
    Info(String),
    Warning(String),
    Error(String),
}

/// The pages of the workbench.
#[derive(Clone, Copy, Debug, PartialEq, Eq, Structural)]
pub enum WorkbenchMenu {
    Profile,
    System,
    Setting,
    Terminal,
    Session,
    Approval,
    Acp,
    Configuration,
    Provider,
    LocalModels,
    Llm,
    Channel,
    Voice,
    Cron,
    Heartbeat,
    Gateway,
    Webhook,
    Mcp,
    Skill,
    SkillsManager,
    Memory,
    Archive,
    Tool,
    Monitor,
    Logs,
    AnalyzeDashboard,
    Observability,
}

/// What a page is rendered for: which menu entry, under which tab title.
pub struct RenderCtx<'a> {
    pub menu: WorkbenchMenu,
    pub tab_title: &'a str,
}

/// The content of a placeholder page: a heading, a subtitle, one card and a key-value grid.
#[derive(Debug)]
pub struct PlaceholderView {
    pub heading: String,
    pub subtitle: String,
    pub card_title: String,
    pub card_body: String,
    pub grid_id: String,
    pub rows: Vec<(String, String)>,
}

/// Whether the grid rows hold exactly the given keys and values, in order.
pub open spec fn rows_are(rows: Seq<(String, String)>, expected: Seq<(Seq<char>, Seq<char>)>) -> bool {
    &&& rows.len() == expected.len()
    &&& forall|i: int|
        0 <= i < rows.len() ==> (#[trigger] rows[i]).0@ == expected[i].0 && rows[i].1@ == expected[i].1
}

/// Builds the grid rows from pairs of literals.
fn rows_of(pairs: &[(&str, &str)]) -> (rows: Vec<(String, String)>)
    ensures
        rows@.len() == pairs@.len(),
        forall|i: int|
            0 <= i < rows@.len() ==> (#[trigger] rows@[i]).0@ == pairs@[i].0@ && rows@[i].1@
                == pairs@[i].1@,
{
    let mut rows: Vec<(String, String)> = Vec::new();
    let mut i: usize = 0;
    while i < pairs.len()
        invariant
            i <= pairs@.len(),
            rows@.len() == i,
            forall|j: int|
                0 <= j < i ==> (#[trigger] rows@[j]).0@ == pairs@[j].0@ && rows@[j].1@
                    == pairs@[j].1@,
        decreases pairs@.len() - i,
    {
        let (k, v) = pairs[i];
        rows.push((k.to_owned(), v.to_owned()));
        i = i + 1;
    }
    rows
}

/// The skill catalog page, still a placeholder.
pub struct SkillPanel;

impl SkillPanel {
    /// What the page shows.
    pub fn placeholder(&self, ctx: &RenderCtx) -> (v: PlaceholderView)
        ensures
            v.heading@ == ctx.tab_title@,
            v.subtitle@ == "Skill catalog and sync status (mock)"@,
            v.card_title@ == "Installed Skills"@,
            v.card_body@ == "Skill source, version, and sync controls will be added later."@,
            v.grid_id@ == "skill-grid"@,
            rows_are(
                v.rows@,
                seq![("Installed"@, "0"@), ("Enabled"@, "0"@), ("Failures"@, "0"@)],
            ),
    {
        let pairs: [(&str, &str); 3] = [("Installed", "0"), ("Enabled", "0"), ("Failures", "0")];
        let rows = rows_of(&pairs);
        PlaceholderView {
            heading: ctx.tab_title.to_owned(),
            subtitle: "Skill catalog and sync status (mock)".to_owned(),
            card_title: "Installed Skills".to_owned(),
            card_body: "Skill source, version, and sync controls will be added later.".to_owned(),
            grid_id: "skill-grid".to_owned(),
            rows,
        }
    }
}

/// The runtime health page, still a placeholder.
pub struct SystemMonitorPanel;

impl SystemMonitorPanel {
    /// What the page shows.
    pub fn placeholder(&self, ctx: &RenderCtx) -> (v: PlaceholderView)
        ensures
            v.heading@ == ctx.tab_title@,
            v.subtitle@ == "Runtime health and observability (mock)"@,
            v.card_title@ == "System Signals"@,
            v.card_body@
                == "CPU, memory, queue depth, and task counters will be attached in a later phase."@,
            v.grid_id@ == "system-grid"@,
            rows_are(v.rows@, seq![("CPU"@, "N/A"@), ("Memory"@, "N/A"@), ("Uptime"@, "N/A"@)]),
    {
        let pairs: [(&str, &str); 3] = [("CPU", "N/A"), ("Memory", "N/A"), ("Uptime", "N/A")];
        let rows = rows_of(&pairs);
        PlaceholderView {
            heading: ctx.tab_title.to_owned(),
            subtitle: "Runtime health and observability (mock)".to_owned(),
            card_title: "System Signals".to_owned(),
            card_body: "CPU, memory, queue depth, and task counters will be attached in a later phase.".to_owned(),
            grid_id: "system-grid".to_owned(),
            rows,
        }
    }
}

/// The part of the workbench's page registry that closing a tab acts on. The workbench
/// holds one page per menu entry; of those, only the terminal page changes when its tab
/// closes, and the others keep their state, so this registry holds the terminal page and
/// the profile page it starts with. The state of every other page is held by that page's
/// own type in its module.
pub struct PanelRegistry {
    pub profile: ProfilePanel,
    pub terminal: TerminalPanel,
}

impl PanelRegistry {
    /// Every page in its initial state.
    pub fn new() -> (r: Self)
        ensures
            !r.profile.loaded,
            r.profile.docs@.len() == 0,
            r.terminal.tabs() == Seq::<TerminalTab>::empty(),
            r.terminal.next_id() == 1,
    {
        PanelRegistry { profile: ProfilePanel::new(), terminal: TerminalPanel::new() }
    }

    /// The tab of page `menu` was closed: the terminal page drops its tabs; every other
    /// page keeps its state.
    pub fn handle_tab_closed(&mut self, menu: WorkbenchMenu)
        ensures
            menu == WorkbenchMenu::Terminal ==> {
                &&& final(self).terminal.tabs() == Seq::<TerminalTab>::empty()
                &&& final(self).terminal.next_id() == old(self).terminal.next_id()
                &&& final(self).profile == old(self).profile
            },
            menu != WorkbenchMenu::Terminal ==> *final(self) == *old(self),
    {
        match menu {
            WorkbenchMenu::Terminal => self.terminal.on_tab_closed(),
            _ => {},
        }
    }
}

impl Default for PanelRegistry {
    fn default() -> (r: Self)
        ensures
            !r.profile.loaded,
            r.profile.docs@.len() == 0,
            r.terminal.tabs() == Seq::<TerminalTab>::empty(),
            r.terminal.next_id() == 1,
    {
        PanelRegistry::new()
    }
}

} // verus!
