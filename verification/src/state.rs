//! The workspaces, tabs, panes and terminals that requests are about.
use crate::schema::{EventData, PaneId};
use std::collections::HashMap;
use vstd::prelude::*;

verus! {

/// Identifies a terminal.
pub type TerminalId = u64;

/// The coding agent that a terminal runs.
#[derive(Debug, Clone, Copy, PartialEq, Eq, Structural)]
pub enum Agent {
    Codex,
    GithubCopilot,
    OpenCode,
    Pi,
    Other(u32),
}

/// What an agent is doing.
#[derive(Debug, Clone, Copy, PartialEq, Eq, Structural)]
pub enum AgentState {
    Idle,
    Working,
    Blocked,
    Unknown,
}

/// A terminal, as far as requests look at it.
#[derive(Debug)]
pub struct Terminal {
    /// The command line that it was launched with, where it was not the shell.
    pub launch_argv: Option<Vec<String>>,
    pub state: AgentState,
    /// The API's name for `state`.
    pub state_label: String,
    /// The agent that it is known to run, by launch or by report.
    pub known_agent: Option<Agent>,
    /// The agent that its screen and processes show.
    pub detected_agent: Option<Agent>,
    /// The API's name for its agent.
    pub agent_label: Option<String>,
    /// A launched agent has not come up yet.
    pub launch_pending: bool,
    /// Its agent reports every state change itself.
    pub reports_lifecycle: bool,
}

/// A pane shows one terminal.
#[derive(Debug)]
pub struct Pane {
    pub attached_terminal_id: TerminalId,
    /// The id that the API answers with.
    pub public_id: Option<String>,
}

/// A tab arranges panes around the one it was opened with.
#[derive(Debug)]
pub struct Tab {
    pub root_pane: PaneId,
    pub panes: HashMap<PaneId, Pane>,
    /// The id that the API answers with.
    pub public_id: Option<String>,
}

#[derive(Debug)]
pub struct Workspace {
    /// The id that the API answers with.
    pub public_id: String,
    pub custom_name: Option<String>,
    pub tabs: Vec<Tab>,
    pub active_tab: usize,
}

/// How the agents panel orders its rows.
#[derive(Debug, Clone, Copy, PartialEq, Eq, Structural)]
pub enum AgentPanelSort {
    Spaces,
    Priority,
    UserOrdered,
}

/// A row of the agents panel.
#[derive(Debug, Clone, Copy, PartialEq, Eq, Structural)]
pub struct PanelEntry {
    pub ws_idx: usize,
    pub pane_id: PaneId,
}

/// A spelling under which the API accepts a pane.
#[derive(Debug)]
pub struct PaneSpelling {
    pub spelling: String,
    pub ws_idx: usize,
    pub pane_id: PaneId,
}

#[derive(Debug)]
pub struct AppState {
    pub workspaces: Vec<Workspace>,
    pub terminals: HashMap<TerminalId, Terminal>,
    /// The spellings that the API accepts besides the public ids of the rows.
    pub pane_spellings: Vec<PaneSpelling>,
    /// The focused workspace.
    pub active: Option<usize>,
    /// The rows of the agents panel, in the order that the panel derives.
    pub agent_rows: Vec<PanelEntry>,
    pub agent_panel_sort: AgentPanelSort,
    /// Public pane ids in the order that the user arranged.
    pub agent_user_order: Vec<String>,
    /// The session differs from what was last saved.
    pub session_dirty: bool,
}

#[derive(Debug)]
pub struct App {
    pub state: AppState,
    /// Events that subscribers have not been told yet.
    pub events: Vec<EventData>,
}

impl Workspace {
    /// The first tab that holds the pane.
    pub open spec fn tab_of(self, pane_id: PaneId) -> Option<int> {
        first_tab_with(self.tabs@, pane_id)
    }

    /// The pane, where one of the tabs holds it.
    pub open spec fn pane_at(self, pane_id: PaneId) -> Option<Pane> {
        match self.tab_of(pane_id) {
            Some(i) => Some(self.tabs@[i].panes@[pane_id]),
            None => None,
        }
    }

    /// The terminal that the pane shows.
    pub open spec fn shown_terminal(self, pane_id: PaneId) -> Option<TerminalId> {
        match self.pane_at(pane_id) {
            Some(pane) => Some(pane.attached_terminal_id),
            None => None,
        }
    }

    /// The active tab exists and shows its root pane.
    pub open spec fn is_shown(self) -> bool {
        &&& self.active_tab < self.tabs@.len()
        &&& self.tabs@[self.active_tab as int].panes@.contains_key(
            self.tabs@[self.active_tab as int].root_pane,
        )
    }

    /// Whether the active tab exists and shows its root pane.
    pub fn shows_root_pane(&self) -> (shown: bool)
        ensures
            shown == self.is_shown(),
    {
        broadcast use vstd::std_specs::hash::group_hash_axioms;

        if self.active_tab < self.tabs.len() {
            let tab = &self.tabs[self.active_tab];
            tab.panes.contains_key(&tab.root_pane)
        } else {
            false
        }
    }

    /// The pane, where one of the tabs holds it.
    pub fn pane(&self, pane_id: PaneId) -> (pane: Option<&Pane>)
        ensures
            match pane {
                Some(pane) => self.pane_at(pane_id) == Some(*pane),
                None => self.pane_at(pane_id) is None,
            },
    {
        broadcast use vstd::std_specs::hash::group_hash_axioms;

        let mut i: usize = 0;
        while i < self.tabs.len()
            invariant
                i <= self.tabs@.len(),
                first_tab_with(self.tabs@.take(i as int), pane_id) is None,
            decreases self.tabs@.len() - i,
        {
            proof {
                lemma_first_tab_extends(self.tabs@, i as int, pane_id);
            }
            match self.tabs[i].panes.get(&pane_id) {
                Some(pane) => {
                    return Some(pane);
                },
                None => {},
            }
            i = i + 1;
        }
        assert(self.tabs@.take(i as int) == self.tabs@);
        None
    }

    /// The terminal that the pane shows.
    pub fn terminal_id(&self, pane_id: PaneId) -> (id: Option<TerminalId>)
        ensures
            id == self.shown_terminal(pane_id),
    {
        match self.pane(pane_id) {
            Some(pane) => Some(pane.attached_terminal_id),
            None => None,
        }
    }
}

/// The first of `tabs` that holds the pane.
pub open spec fn first_tab_with(tabs: Seq<Tab>, pane_id: PaneId) -> Option<int>
    decreases tabs.len(),
{
    if tabs.len() == 0 {
        None
    } else {
        match first_tab_with(tabs.drop_last(), pane_id) {
            Some(i) => Some(i),
            None => if tabs.last().panes@.contains_key(pane_id) {
                Some(tabs.len() - 1)
            } else {
                None
            },
        }
    }
}

proof fn lemma_first_tab_extends(tabs: Seq<Tab>, i: int, pane_id: PaneId)
    requires
        0 <= i < tabs.len(),
        first_tab_with(tabs.take(i), pane_id) is None,
    ensures
        tabs[i].panes@.contains_key(pane_id) ==> first_tab_with(tabs, pane_id) == Some(i),
        !tabs[i].panes@.contains_key(pane_id) ==> first_tab_with(tabs.take(i + 1), pane_id) is None,
{
    assert(tabs.take(i + 1).drop_last() == tabs.take(i));
    if tabs[i].panes@.contains_key(pane_id) {
        lemma_first_tab_stays(tabs, i + 1, pane_id);
    }
}

proof fn lemma_first_tab_stays(tabs: Seq<Tab>, i: int, pane_id: PaneId)
    requires
        0 <= i <= tabs.len(),
        first_tab_with(tabs.take(i), pane_id) is Some,
    ensures
        first_tab_with(tabs, pane_id) == first_tab_with(tabs.take(i), pane_id),
    decreases tabs.len() - i,
{
    if i < tabs.len() {
        assert(tabs.take(i + 1).drop_last() == tabs.take(i));
        lemma_first_tab_stays(tabs, i + 1, pane_id);
    } else {
        assert(tabs.take(i) == tabs);
    }
}

/// A pane is looked for tab by tab: the first tab that holds it is the one it is
/// found in, and it is not found exactly where no tab holds it.
pub proof fn lemma_pane_is_in_the_first_tab_with_it(workspace: Workspace, pane_id: PaneId, i: int)
    requires
        0 <= i < workspace.tabs@.len(),
        workspace.tabs@[i].panes@.contains_key(pane_id),
        forall|j: int|
            0 <= j < i ==> !(#[trigger] workspace.tabs@[j]).panes@.contains_key(pane_id),
    ensures
        workspace.tab_of(pane_id) == Some(i),
        workspace.pane_at(pane_id) == Some(workspace.tabs@[i].panes@[pane_id]),
        workspace.shown_terminal(pane_id) == Some(
            workspace.tabs@[i].panes@[pane_id].attached_terminal_id,
        ),
{
    lemma_no_tab_before(workspace.tabs@, i, pane_id);
    lemma_first_tab_extends(workspace.tabs@, i, pane_id);
}

/// A pane that no tab holds is not found.
pub proof fn lemma_pane_without_tab_is_not_found(workspace: Workspace, pane_id: PaneId)
    requires
        forall|j: int|
            0 <= j < workspace.tabs@.len() ==> !(
            #[trigger] workspace.tabs@[j]).panes@.contains_key(pane_id),
    ensures
        workspace.tab_of(pane_id) is None,
        workspace.pane_at(pane_id) is None,
        workspace.shown_terminal(pane_id) is None,
{
    let tabs = workspace.tabs@;
    lemma_no_tab_before(tabs, tabs.len() as int, pane_id);
    assert(tabs.take(tabs.len() as int) == tabs);
}

proof fn lemma_no_tab_before(tabs: Seq<Tab>, i: int, pane_id: PaneId)
    requires
        0 <= i <= tabs.len(),
        forall|j: int| 0 <= j < i ==> !(#[trigger] tabs[j]).panes@.contains_key(pane_id),
    ensures
        first_tab_with(tabs.take(i), pane_id) is None,
    decreases i,
{
    if i > 0 {
        lemma_no_tab_before(tabs, i - 1, pane_id);
        assert(tabs.take(i).drop_last() == tabs.take(i - 1));
        assert(!tabs[i - 1].panes@.contains_key(pane_id));
    }
}

/// A workspace is shown exactly where its active tab is one of its tabs and
/// holds its own root pane.
pub proof fn lemma_shown_by_the_active_tab(workspace: Workspace)
    ensures
        workspace.is_shown() <==> {
            &&& workspace.active_tab < workspace.tabs@.len()
            &&& workspace.tabs@[workspace.active_tab as int].panes@.dom().contains(
                workspace.tabs@[workspace.active_tab as int].root_pane,
            )
        },
{
}

} // verus!
