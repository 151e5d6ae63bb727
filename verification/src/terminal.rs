use vstd::prelude::*;

use crate::numbers;
use crate::numbers::u64_to_string;
use crate::text::concat_str;

verus! {

/// One tab of the terminal panel: what the panel decides on, without the shell process.
pub struct TerminalTab {
    pub id: u64,
    pub title: String,
    /// Whether the tab still has a live shell session.
    pub running: bool,
    pub start_error: Option<String>,
    pub exit_notice: Option<String>,
}

/// The title of a freshly opened tab.
pub open spec fn tab_title(id: nat) -> Seq<char> {
    "Terminal "@ + numbers::decimal_digits(id)
}

/// The title of a tab whose shell has exited.
pub open spec fn exited_title(id: nat) -> Seq<char> {
    "Terminal "@ + numbers::decimal_digits(id) + " (exited)"@
}

/// The notice shown in a tab whose shell has exited.
pub open spec fn exit_notice_text() -> Seq<char> {
    "Shell exited. Close this tab or open a new terminal."@
}

/// Tab ids strictly increase along the tab list and stay below the next id to hand out.
pub open spec fn ids_increasing(tabs: Seq<TerminalTab>, next_id: u64) -> bool {
    &&& next_id >= 1
    &&& forall|i: int| 0 <= i < tabs.len() ==> (#[trigger] tabs[i]).id < next_id
    &&& forall|i: int, j: int| 0 <= i < j < tabs.len() ==> (#[trigger] tabs[i]).id < (#[trigger] tabs[j]).id
}

/// The index of the tab with the given id, if there is one.
pub open spec fn tab_index(tabs: Seq<TerminalTab>, id: u64) -> Option<int> {
    if exists|i: int| 0 <= i < tabs.len() && (#[trigger] tabs[i]).id == id {
        Some(choose|i: int| 0 <= i < tabs.len() && (#[trigger] tabs[i]).id == id)
    } else {
        None
    }
}

/// The terminal panel: its tabs, in the order they were opened, and the next session id.
pub struct TerminalPanel {
    tabs: Vec<TerminalTab>,
    next_session_id: u64,
}

/// Finds the index of the tab with id `id`.
fn find_tab(tabs: &Vec<TerminalTab>, id: u64) -> (r: Option<usize>)
    ensures
        match r {
            Some(i) => i < tabs.len() && tabs@[i as int].id == id,
            None => forall|j: int| 0 <= j < tabs.len() ==> (#[trigger] tabs@[j]).id != id,
        },
{
    let mut i: usize = 0;
    while i < tabs.len()
        invariant
            i <= tabs.len(),
            forall|j: int| 0 <= j < i ==> (#[trigger] tabs@[j]).id != id,
        decreases tabs.len() - i,
    {
        if tabs[i].id == id {
            return Some(i);
        }
        i = i + 1;
    }
    None
}

impl TerminalPanel {
    #[verifier::type_invariant]
    spec fn well_formed(self) -> bool {
        ids_increasing(self.tabs@, self.next_session_id)
    }

    /// The open tabs, oldest first.
    pub closed spec fn tabs(&self) -> Seq<TerminalTab> {
        self.tabs@
    }

    /// The id the next opened tab receives.
    pub closed spec fn next_id(&self) -> u64 {
        self.next_session_id
    }

    /// A panel with no tab, whose first tab will get id 1.
    pub fn new() -> (p: Self)
        ensures
            p.tabs() == Seq::<TerminalTab>::empty(),
            p.next_id() == 1,
            ids_increasing(p.tabs(), p.next_id()),
    {
        TerminalPanel { tabs: Vec::new(), next_session_id: 1 }
    }

    /// The number of open tabs.
    pub fn tab_count(&self) -> (n: usize)
        ensures
            n == self.tabs().len(),
    {
        self.tabs.len()
    }

    /// The tab at position `i`.
    pub fn tab(&self, i: usize) -> (t: &TerminalTab)
        requires
            i < self.tabs().len(),
        ensures
            *t == self.tabs()[i as int],
    {
        &self.tabs[i]
    }

    /// The id the next opened tab receives.
    pub fn next_session_id(&self) -> (n: u64)
        ensures
            n == self.next_id(),
    {
        self.next_session_id
    }

    /// Whether the panel has to open its first tab: it has none.
    pub fn needs_initial_tab(&self) -> (b: bool)
        ensures
            b == (self.tabs().len() == 0),
    {
        self.tabs.len() == 0
    }

    /// Opens a tab with the next id; `start_error` is the failure to start its shell, if any.
    pub fn add_session_tab(&mut self, start_error: Option<String>) -> (id: u64)
        requires
            old(self).next_id() < u64::MAX,
        ensures
            id == old(self).next_id(),
            final(self).next_id() == old(self).next_id() + 1,
            final(self).tabs().len() == old(self).tabs().len() + 1,
            final(self).tabs().drop_last() == old(self).tabs(),
            final(self).tabs().last().id == id,
            final(self).tabs().last().title@ == tab_title(id as nat),
            final(self).tabs().last().running == start_error.is_none(),
            final(self).tabs().last().start_error == start_error,
            final(self).tabs().last().exit_notice.is_none(),
            ids_increasing(final(self).tabs(), final(self).next_id()),
    {
        proof {
            use_type_invariant(&*self);
        }
        let id = self.next_session_id;
        let title = concat_str("Terminal ", u64_to_string(id).as_str());
        let running = start_error.is_none();
        let tab = TerminalTab { id, title, running, start_error, exit_notice: None };
        let mut tabs: Vec<TerminalTab> = Vec::new();
        std::mem::swap(&mut tabs, &mut self.tabs);
        let ghost before = tabs@;
        tabs.push(tab);
        assert(tabs@.drop_last() =~= before);
        self.next_session_id = id + 1;
        self.tabs = tabs;
        id
    }

    /// Records that the shell of tab `id` has exited; true when that tab was running.
    pub fn mark_exited(&mut self, id: u64) -> (exited: bool)
        ensures
            final(self).next_id() == old(self).next_id(),
            final(self).tabs().len() == old(self).tabs().len(),
            exited == (tab_index(old(self).tabs(), id) is Some && old(self).tabs()[tab_index(
                old(self).tabs(),
                id,
            )->0].running),
            !exited ==> final(self).tabs() == old(self).tabs(),
            exited ==> {
                let i = tab_index(old(self).tabs(), id)->0;
                &&& forall|j: int|
                    0 <= j < old(self).tabs().len() && j != i ==> #[trigger] final(self).tabs()[j]
                        == old(self).tabs()[j]
                &&& final(self).tabs()[i].id == id
                &&& !final(self).tabs()[i].running
                &&& final(self).tabs()[i].title@ == exited_title(id as nat)
                &&& final(self).tabs()[i].exit_notice is Some
                &&& final(self).tabs()[i].exit_notice->0@ == exit_notice_text()
                &&& final(self).tabs()[i].start_error == old(self).tabs()[i].start_error
            },
            ids_increasing(final(self).tabs(), final(self).next_id()),
    {
        proof {
            use_type_invariant(&*self);
        }
        let found = find_tab(&self.tabs, id);
        proof {
            let ts = self.tabs@;
            if let Some(i) = found {
                assert(exists|k: int| 0 <= k < ts.len() && (#[trigger] ts[k]).id == id);
                let c = choose|k: int| 0 <= k < ts.len() && (#[trigger] ts[k]).id == id;
                if c < i {
                    assert(ts[c].id < ts[i as int].id);
                } else if i < c {
                    assert(ts[i as int].id < ts[c].id);
                }
                assert(tab_index(ts, id) == Some(i as int));
            } else {
                assert(tab_index(ts, id) is None);
            }
        }
        match found {
            None => false,
            Some(i) => {
                if !self.tabs[i].running {
                    return false;
                }
                let mut tabs: Vec<TerminalTab> = Vec::new();
                std::mem::swap(&mut tabs, &mut self.tabs);
                let ghost before = tabs@;
                let old_tab = tabs.remove(i);
                let exited_suffix = concat_str(u64_to_string(id).as_str(), " (exited)");
                let title = concat_str("Terminal ", exited_suffix.as_str());
                let notice = "Shell exited. Close this tab or open a new terminal.".to_owned();
                let tab = TerminalTab {
                    id: old_tab.id,
                    title,
                    running: false,
                    start_error: old_tab.start_error,
                    exit_notice: Some(notice),
                };
                tabs.insert(i, tab);
                proof {
                    assert(tabs@.len() == before.len());
                    assert forall|j: int| 0 <= j < before.len() && j != i implies #[trigger] tabs@[j]
                        == before[j] by {
                        if j < i {
                        } else {
                        }
                    }
                    assert(tabs@[i as int].title@ =~= exited_title(id as nat));
                    assert forall|a: int, b: int| 0 <= a < b < tabs@.len() implies (
                    #[trigger] tabs@[a]).id < (#[trigger] tabs@[b]).id by {
                        assert(tabs@[a].id == before[a].id);
                        assert(tabs@[b].id == before[b].id);
                    }
                    assert forall|a: int| 0 <= a < tabs@.len() implies (
                    #[trigger] tabs@[a]).id < self.next_session_id by {
                        assert(tabs@[a].id == before[a].id);
                    }
                }
                self.tabs = tabs;
                true
            },
        }
    }

    /// Closes tab `id`; true when such a tab was open.
    pub fn close_tab(&mut self, id: u64) -> (closed: bool)
        ensures
            final(self).next_id() == old(self).next_id(),
            closed == tab_index(old(self).tabs(), id) is Some,
            closed ==> final(self).tabs() == old(self).tabs().remove(
                tab_index(old(self).tabs(), id)->0,
            ),
            !closed ==> final(self).tabs() == old(self).tabs(),
            ids_increasing(final(self).tabs(), final(self).next_id()),
    {
        proof {
            use_type_invariant(&*self);
        }
        let found = find_tab(&self.tabs, id);
        proof {
            let ts = self.tabs@;
            if let Some(i) = found {
                assert(exists|k: int| 0 <= k < ts.len() && (#[trigger] ts[k]).id == id);
                let c = choose|k: int| 0 <= k < ts.len() && (#[trigger] ts[k]).id == id;
                if c < i {
                    assert(ts[c].id < ts[i as int].id);
                } else if i < c {
                    assert(ts[i as int].id < ts[c].id);
                }
                assert(tab_index(ts, id) == Some(i as int));
            } else {
                assert(tab_index(ts, id) is None);
            }
        }
        match found {
            None => false,
            Some(i) => {
                let mut tabs: Vec<TerminalTab> = Vec::new();
                std::mem::swap(&mut tabs, &mut self.tabs);
                let ghost before = tabs@;
                let _closed_tab = tabs.remove(i);
                proof {
                    assert forall|a: int, b: int| 0 <= a < b < tabs@.len() implies (
                    #[trigger] tabs@[a]).id < (#[trigger] tabs@[b]).id by {
                        let a0 = if a < i { a } else { a + 1 };
                        let b0 = if b < i { b } else { b + 1 };
                        assert(tabs@[a] == before[a0]);
                        assert(tabs@[b] == before[b0]);
                    }
                    assert forall|a: int| 0 <= a < tabs@.len() implies (#[trigger] tabs@[a]).id
                        < self.next_session_id by {
                        let a0 = if a < i { a } else { a + 1 };
                        assert(tabs@[a] == before[a0]);
                    }
                }
                self.tabs = tabs;
                true
            },
        }
    }

    /// Closing the terminal page drops every tab; the id counter keeps counting.
    pub fn on_tab_closed(&mut self)
        ensures
            final(self).tabs() == Seq::<TerminalTab>::empty(),
            final(self).next_id() == old(self).next_id(),
            ids_increasing(final(self).tabs(), final(self).next_id()),
    {
        proof {
            use_type_invariant(&*self);
        }
        self.tabs = Vec::new();
    }
}

impl Default for TerminalPanel {
    fn default() -> (p: Self)
        ensures
            p.tabs() == Seq::<TerminalTab>::empty(),
            p.next_id() == 1,
    {
        TerminalPanel::new()
    }
}

/// The notice for a tab whose shell could not start.
pub fn start_error_notice(err: &str) -> (r: String)
    ensures
        r@ == "Failed to start terminal: "@ + err@,
{
    concat_str("Failed to start terminal: ", err)
}

/// The notice for a tab whose shell exited.
pub fn shell_exited_notice(id: u64) -> (r: String)
    ensures
        r@ == "Terminal "@ + numbers::decimal_digits(id as nat) + " shell exited"@,
{
    let tail = concat_str(u64_to_string(id).as_str(), " shell exited");
    let r = concat_str("Terminal ", tail.as_str());
    assert(r@ =~= "Terminal "@ + numbers::decimal_digits(id as nat) + " shell exited"@);
    r
}

/// The shell a terminal runs on Unix: the one `SHELL` names when it is set and not empty,
/// else `/bin/zsh` or `/bin/bash`, the first that exists, else `/bin/sh`.
pub open spec fn shell_choice(env_shell: Option<Seq<char>>, zsh_exists: bool, bash_exists: bool) -> Seq<char> {
    match env_shell {
        Some(s) => if s.len() > 0 {
            s
        } else if zsh_exists {
            "/bin/zsh"@
        } else if bash_exists {
            "/bin/bash"@
        } else {
            "/bin/sh"@
        },
        None => if zsh_exists {
            "/bin/zsh"@
        } else if bash_exists {
            "/bin/bash"@
        } else {
            "/bin/sh"@
        },
    }
}

/// The shell a terminal runs, from the `SHELL` variable and which fallback shells exist.
pub fn pick_shell(env_shell: Option<String>, zsh_exists: bool, bash_exists: bool) -> (r: String)
    ensures
        r@ == shell_choice(crate::tool::opt_view(env_shell), zsh_exists, bash_exists),
{
    if let Some(s) = env_shell {
        if crate::text::to_chars(s.as_str()).len() > 0 {
            return s;
        }
    }
    if zsh_exists {
        "/bin/zsh".to_string()
    } else if bash_exists {
        "/bin/bash".to_string()
    } else {
        "/bin/sh".to_string()
    }
}

} // verus!
