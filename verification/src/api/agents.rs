//! Requests about agents.
use crate::panel;
use crate::schema::{
    self, error_reply, AgentMoveParams, AgentReadParams, ErrorBody, EventData, PaneId,
    PaneReadResult, Reply, ResponseResult,
};
use crate::state::{
    Agent, AgentPanelSort, App, AppState, PaneSpelling, PanelEntry, Terminal, TerminalId,
};
use crate::text;
use vstd::prelude::*;

verus! {

/// Answers with the agents that the caller collected.
pub fn handle_agent_list<A>(id: String, agents: Vec<A>) -> (reply: Reply<A>)
    ensures
        reply == (Reply::Success { id, result: ResponseResult::AgentList { agents } }),
{
    Reply::Success { id, result: ResponseResult::AgentList { agents } }
}

fn agent_info_reply<A>(id: String, found: Result<A, ErrorBody>) -> (reply: Reply<A>)
    ensures
        reply == (match found {
            Ok(agent) => Reply::Success { id, result: ResponseResult::AgentInfo { agent } },
            Err(error) => Reply::Error { id, error },
        }),
{
    match found {
        Ok(agent) => Reply::Success { id, result: ResponseResult::AgentInfo { agent } },
        Err(error) => Reply::Error { id, error },
    }
}

/// Answers with the agent that a target names.
pub fn handle_agent_get<A>(id: String, found: Result<A, ErrorBody>) -> (reply: Reply<A>)
    ensures
        reply == (match found {
            Ok(agent) => Reply::Success { id, result: ResponseResult::AgentInfo { agent } },
            Err(error) => Reply::Error { id, error },
        }),
{
    agent_info_reply(id, found)
}

/// Answers with the agent that was focused.
pub fn handle_agent_focus<A>(id: String, focused: Result<A, ErrorBody>) -> (reply: Reply<A>)
    ensures
        reply == (match focused {
            Ok(agent) => Reply::Success { id, result: ResponseResult::AgentInfo { agent } },
            Err(error) => Reply::Error { id, error },
        }),
{
    agent_info_reply(id, focused)
}

/// Answers with the agent that was renamed.
pub fn handle_agent_rename<A>(id: String, renamed: Result<A, ErrorBody>) -> (reply: Reply<A>)
    ensures
        reply == (match renamed {
            Ok(agent) => Reply::Success { id, result: ResponseResult::AgentInfo { agent } },
            Err(error) => Reply::Error { id, error },
        }),
{
    agent_info_reply(id, renamed)
}

/// Answers with the agent that was started and its command line.
pub fn handle_agent_start<A>(id: String, started: Result<(A, Vec<String>), ErrorBody>) -> (reply:
    Reply<A>)
    ensures
        reply == (match started {
            Ok((agent, argv)) => Reply::Success {
                id,
                result: ResponseResult::AgentStarted { agent, argv },
            },
            Err(error) => Reply::Error { id, error },
        }),
{
    match started {
        Ok((agent, argv)) => Reply::Success {
            id,
            result: ResponseResult::AgentStarted { agent, argv },
        },
        Err(error) => Reply::Error { id, error },
    }
}

/// The pane that is first listed under the spelling.
pub open spec fn spelled_pane(spellings: Seq<PaneSpelling>, requested: Seq<char>) -> Option<
    (usize, PaneId),
>
    decreases spellings.len(),
{
    if spellings.len() == 0 {
        None
    } else if spellings[0].spelling@ == requested {
        Some((spellings[0].ws_idx, spellings[0].pane_id))
    } else {
        spelled_pane(spellings.skip(1), requested)
    }
}

/// Which row a move takes, and before which row it goes; or the error.
pub enum MoveTarget {
    Row { pane: Seq<char>, before: Option<Seq<char>> },
    Refused { code: Seq<char>, message: Seq<char> },
}

/// A pane that the panel does not list.
pub open spec fn no_such_pane(requested: Seq<char>) -> MoveTarget {
    MoveTarget::Refused {
        code: "pane_not_found"@,
        message: "pane "@ + requested + " not found"@,
    }
}

/// What a move needs next.
#[derive(Debug)]
pub enum MoveStep<A> {
    /// Nothing: this is the answer.
    Answer(Reply<A>),
    /// The agents as they are listed now, for [`handle_agent_list`].
    ListAgents { id: String },
}

impl App {
    /// The pane of the first of `rows` with the public id.
    pub open spec fn row_with_id(self, rows: Seq<PanelEntry>, id: Seq<char>) -> Option<
        (usize, PaneId),
    >
        decreases rows.len(),
    {
        if rows.len() == 0 {
            None
        } else if self.public_pane(rows[0].ws_idx as int, rows[0].pane_id) == Some(id) {
            Some((rows[0].ws_idx, rows[0].pane_id))
        } else {
            self.row_with_id(rows.skip(1), id)
        }
    }

    /// The pane that the API accepts under the spelling: the public id of a row
    /// is a spelling of that row's pane, and other spellings are listed.
    pub open spec fn accepted_pane(self, requested: Seq<char>) -> Option<(usize, PaneId)> {
        match self.row_with_id(self.state.agent_rows@, requested) {
            Some(pane) => Some(pane),
            None => spelled_pane(self.state.pane_spellings@, requested),
        }
    }

    /// The public id of the row that the spelling names.
    pub open spec fn panel_row(self, requested: Seq<char>) -> Option<Seq<char>> {
        match self.accepted_pane(requested) {
            Some((ws_idx, pane_id)) => match self.public_pane(ws_idx as int, pane_id) {
                Some(id) => if self.panel_ids().contains(id) {
                    Some(id)
                } else {
                    None
                },
                None => None,
            },
            None => None,
        }
    }

    /// What the move is about.
    pub open spec fn move_target(self, params: AgentMoveParams) -> MoveTarget {
        match self.panel_row(params.pane_id@) {
            Some(pane) => match params.before_pane_id {
                Some(requested) => match self.panel_row(requested@) {
                    Some(before) => if before == pane {
                        MoveTarget::Refused {
                            code: "agent_move_failed"@,
                            message: "before_pane_id must not be the moved pane"@,
                        }
                    } else {
                        MoveTarget::Row { pane, before: Some(before) }
                    },
                    None => no_such_pane(requested@),
                },
                None => MoveTarget::Row { pane, before: None },
            },
            None => no_such_pane(params.pane_id@),
        }
    }

    /// This is `before` with the rows in the user's `order`. Where that is how
    /// they were, nothing changed.
    pub open spec fn ordered_from(self, before: App, order: Seq<Seq<char>>) -> bool {
        if before.state.agent_panel_sort is UserOrdered && text::words(
            before.state.agent_user_order@,
        ) == order {
            self == before
        } else {
            &&& self.state == (AppState {
                agent_panel_sort: AgentPanelSort::UserOrdered,
                agent_user_order: self.state.agent_user_order,
                session_dirty: true,
                ..before.state
            })
            &&& text::words(self.state.agent_user_order@) == order
            &&& self.events@.len() == before.events@.len() + 1
            &&& self.events@.drop_last() == before.events@
            &&& self.events@.last() matches EventData::AgentReordered { pane_ids }
            &&& text::words(pane_ids@) == order
        }
    }

    /// The pane that the API accepts under the spelling.
    pub fn parse_pane_id(&self, requested: &str) -> (pane: Option<(usize, PaneId)>)
        ensures
            pane == self.accepted_pane(requested@),
    {
        let ghost rows = self.state.agent_rows@;
        let mut k: usize = 0;
        assert(rows.skip(0) == rows);
        while k < self.state.agent_rows.len()
            invariant
                k <= rows.len(),
                rows == self.state.agent_rows@,
                self.row_with_id(rows.skip(k as int), requested@) == self.row_with_id(
                    rows,
                    requested@,
                ),
            decreases rows.len() - k,
        {
            let row = self.state.agent_rows[k];
            match self.public_pane_id(row.ws_idx, row.pane_id) {
                Some(id) => {
                    if id.as_str().eq(requested) {
                        return Some((row.ws_idx, row.pane_id));
                    }
                },
                None => {},
            }
            assert(rows.skip(k as int).skip(1) == rows.skip(k + 1));
            k = k + 1;
        }
        let ghost all = self.state.pane_spellings@;
        let mut i: usize = 0;
        assert(all.skip(0) == all);
        while i < self.state.pane_spellings.len()
            invariant
                i <= all.len(),
                all == self.state.pane_spellings@,
                self.row_with_id(self.state.agent_rows@, requested@) is None,
                spelled_pane(all.skip(i as int), requested@) == spelled_pane(all, requested@),
            decreases all.len() - i,
        {
            let known = &self.state.pane_spellings[i];
            if known.spelling.as_str().eq(requested) {
                return Some((known.ws_idx, known.pane_id));
            }
            assert(all.skip(i as int).skip(1) == all.skip(i + 1));
            i = i + 1;
        }
        None
    }

    /// Accept any pane id spelling the API takes, but only for panes that the
    /// agents panel actually lists, and normalize to the public id the stored
    /// order uses.
    pub fn resolve_agent_panel_pane_id(&self, requested: &str) -> (row: Option<String>)
        ensures
            text::optional(row) == self.panel_row(requested@),
    {
        let (ws_idx, pane_id) = match self.parse_pane_id(requested) {
            Some(pane) => pane,
            None => {
                return None;
            },
        };
        let public_id = match self.public_pane_id(ws_idx, pane_id) {
            Some(id) => id,
            None => {
                return None;
            },
        };
        let listed = self.agent_panel_pane_ids();
        if panel::contains_id(&listed, public_id.as_str()) {
            Some(public_id)
        } else {
            None
        }
    }

    /// Place one agent row before another and switch the panel to the
    /// user-defined order. The stored order covers every agent pane currently
    /// in the panel, so a later `spaces`/`priority` pass can be resumed without
    /// losing what the user arranged.
    pub fn handle_agent_move<A>(&mut self, id: String, params: AgentMoveParams) -> (step:
        MoveStep<A>)
        ensures
            match old(self).move_target(params) {
                MoveTarget::Row { pane, before } => {
                    &&& step == (MoveStep::<A>::ListAgents { id })
                    &&& final(self).ordered_from(
                        *old(self),
                        panel::moved(old(self).panel_ids(), pane, before),
                    )
                },
                MoveTarget::Refused { code, message } => {
                    &&& step matches MoveStep::Answer(reply)
                    &&& schema::is_error(reply, id, code, message)
                    &&& *final(self) == *old(self)
                },
            },
    {
        let pane_id = match self.resolve_agent_panel_pane_id(params.pane_id.as_str()) {
            Some(pane_id) => pane_id,
            None => {
                return MoveStep::Answer(pane_not_found(id, params.pane_id.as_str()));
            },
        };
        let before_pane_id = match params.before_pane_id {
            Some(requested) => {
                let resolved = match self.resolve_agent_panel_pane_id(requested.as_str()) {
                    Some(resolved) => resolved,
                    None => {
                        return MoveStep::Answer(pane_not_found(id, requested.as_str()));
                    },
                };
                if resolved.as_str().eq(pane_id.as_str()) {
                    return MoveStep::Answer(
                        error_reply(
                            id,
                            "agent_move_failed",
                            "before_pane_id must not be the moved pane".to_owned(),
                        ),
                    );
                }
                Some(resolved)
            },
            None => None,
        };
        let rows = self.agent_panel_pane_ids();
        let order = match &before_pane_id {
            Some(before) => panel::move_id(&rows, pane_id.as_str(), Some(before.as_str())),
            None => panel::move_id(&rows, pane_id.as_str(), None),
        };
        let ordered = match self.state.agent_panel_sort {
            AgentPanelSort::UserOrdered => true,
            _ => false,
        };
        if !ordered || !panel::same_ids(&self.state.agent_user_order, &order) {
            let told = order.clone();
            self.state.agent_panel_sort = AgentPanelSort::UserOrdered;
            self.state.agent_user_order = order;
            self.state.session_dirty = true;
            self.events.push(EventData::AgentReordered { pane_ids: told });
            assert(self.events@.drop_last() =~= old(self).events@);
        }
        MoveStep::ListAgents { id }
    }
}

/// Where the agent that a target names is.
#[derive(Debug, Clone, Copy, PartialEq, Eq, Structural)]
pub struct ResolvedAgent {
    pub ws_idx: usize,
    pub tab_idx: usize,
    pub pane_id: PaneId,
}

/// What looking for a pane's running terminal found.
#[derive(Debug, Clone, Copy, PartialEq, Eq, Structural)]
pub enum RuntimeProbe {
    /// The pane has no running terminal.
    Missing,
    /// Its foreground process is not the expected agent.
    OtherProcess,
    /// The expected agent is its foreground process.
    HostsAgent,
}

impl App {
    /// The terminal that the pane shows.
    pub open spec fn pane_terminal_id(self, ws_idx: int, pane_id: PaneId) -> Option<TerminalId> {
        if 0 <= ws_idx < self.state.workspaces@.len() {
            self.state.workspaces@[ws_idx].shown_terminal(pane_id)
        } else {
            None
        }
    }

    /// The terminal that the pane shows.
    pub open spec fn pane_terminal(self, ws_idx: int, pane_id: PaneId) -> Option<Terminal> {
        match self.pane_terminal_id(ws_idx, pane_id) {
            Some(terminal_id) => if self.state.terminals@.contains_key(terminal_id) {
                Some(self.state.terminals@[terminal_id])
            } else {
                None
            },
            None => None,
        }
    }

    /// The agent that the terminal there is known to run.
    pub open spec fn known_agent_at(self, at: ResolvedAgent) -> Option<Agent> {
        match self.pane_terminal(at.ws_idx as int, at.pane_id) {
            Some(terminal) => terminal.known_agent,
            None => None,
        }
    }

    /// The terminal that the pane shows.
    pub fn terminal_id_at(&self, ws_idx: usize, pane_id: PaneId) -> (id: Option<TerminalId>)
        ensures
            id == self.pane_terminal_id(ws_idx as int, pane_id),
    {
        if ws_idx < self.state.workspaces.len() {
            self.state.workspaces[ws_idx].terminal_id(pane_id)
        } else {
            None
        }
    }

    /// The terminal that the pane shows.
    pub fn terminal_at(&self, ws_idx: usize, pane_id: PaneId) -> (terminal: Option<&Terminal>)
        ensures
            match terminal {
                Some(terminal) => self.pane_terminal(ws_idx as int, pane_id) == Some(*terminal),
                None => self.pane_terminal(ws_idx as int, pane_id) is None,
            },
    {
        broadcast use vstd::std_specs::hash::group_hash_axioms;

        match self.terminal_id_at(ws_idx, pane_id) {
            Some(terminal_id) => self.state.terminals.get(&terminal_id),
            None => None,
        }
    }
}

/// What the answer to a target without an active agent says.
pub open spec fn not_ready_message(target: Seq<char>) -> Seq<char> {
    "agent "@ + target + " is not an active named agent"@
}

/// Answers that the target is no active agent.
pub fn agent_not_ready<A>(id: String, target: &str) -> (reply: Reply<A>)
    ensures
        schema::is_error(reply, id, "agent_not_ready"@, not_ready_message(target@)),
{
    error_reply(
        id,
        "agent_not_ready",
        "agent ".to_owned().concat(target).concat(" is not an active named agent"),
    )
}

/// What the answer to an unknown target says.
pub open spec fn not_found_message(target: Seq<char>) -> Seq<char> {
    "agent target "@ + target + " not found"@
}

/// Answers that there is no such target.
pub fn agent_not_found<A>(id: String, target: &str) -> (reply: Reply<A>)
    ensures
        schema::is_error(reply, id, "agent_not_found"@, not_found_message(target@)),
{
    error_reply(
        id,
        "agent_not_found",
        "agent target ".to_owned().concat(target).concat(" not found"),
    )
}

fn pane_not_found<A>(id: String, requested: &str) -> (reply: Reply<A>)
    ensures
        schema::is_error(
            reply,
            id,
            "pane_not_found"@,
            "pane "@ + requested@ + " not found"@,
        ),
{
    error_reply(id, "pane_not_found", "pane ".to_owned().concat(requested).concat(" not found"))
}

/// A read request whose target was found.
#[derive(Debug)]
pub struct ReadTask {
    pub id: String,
    pub params: AgentReadParams,
    pub agent: ResolvedAgent,
}

/// What a read request needs next.
#[derive(Debug)]
pub enum ReadStep<A> {
    /// Nothing: this is the answer.
    Answer(Reply<A>),
    /// What the terminal of the agent's pane shows, read as `params` says, for
    /// [`App::terminal_read`].
    ReadTerminal { task: ReadTask },
}

/// Starts a read request: its target must be known.
pub fn handle_agent_read<A>(
    id: String,
    params: AgentReadParams,
    resolved: Result<ResolvedAgent, ErrorBody>,
) -> (step: ReadStep<A>)
    ensures
        step == (match resolved {
            Ok(agent) => ReadStep::<A>::ReadTerminal { task: ReadTask { id, params, agent } },
            Err(error) => ReadStep::Answer(Reply::Error { id, error }),
        }),
{
    match resolved {
        Ok(agent) => ReadStep::ReadTerminal { task: ReadTask { id, params, agent } },
        Err(error) => ReadStep::Answer(Reply::Error { id, error }),
    }
}

/// What was read from an agent's terminal.
#[derive(Debug)]
pub struct TerminalSnapshot {
    pub workspace_id: String,
    pub text: String,
    pub truncated: bool,
}

impl App {
    /// The id that the API answers with for the tab.
    pub open spec fn public_tab(self, ws_idx: int, tab_idx: int) -> Option<Seq<char>> {
        if 0 <= ws_idx < self.state.workspaces@.len() && 0 <= tab_idx
            < self.state.workspaces@[ws_idx].tabs@.len() {
            text::optional(self.state.workspaces@[ws_idx].tabs@[tab_idx].public_id)
        } else {
            None
        }
    }

    /// The id that the API answers with for the tab.
    pub fn public_tab_id(&self, ws_idx: usize, tab_idx: usize) -> (id: Option<String>)
        ensures
            text::optional(id) == self.public_tab(ws_idx as int, tab_idx as int),
    {
        if ws_idx < self.state.workspaces.len() && tab_idx
            < self.state.workspaces[ws_idx].tabs.len() {
            text::clone_optional(&self.state.workspaces[ws_idx].tabs[tab_idx].public_id)
        } else {
            None
        }
    }

    /// Ends a read request with what was read from the agent's terminal, where
    /// it has one.
    pub fn terminal_read<A>(&self, task: ReadTask, snapshot: Option<TerminalSnapshot>) -> (reply:
        Reply<A>)
        requires
            snapshot is Some ==> self.public_tab(
                task.agent.ws_idx as int,
                task.agent.tab_idx as int,
            ) is Some,
        ensures
            match snapshot {
                None => schema::is_error(
                    reply,
                    task.id,
                    "agent_not_found"@,
                    not_found_message(task.params.target@),
                ),
                Some(snapshot) => {
                    &&& reply matches Reply::Success {
                        id,
                        result: ResponseResult::PaneRead { read },
                    }
                    &&& id == task.id
                    &&& read.pane_id@ == self.public_pane(
                        task.agent.ws_idx as int,
                        task.agent.pane_id,
                    ).unwrap_or(task.params.target@)
                    &&& read.workspace_id == snapshot.workspace_id
                    &&& Some(read.tab_id@) == self.public_tab(
                        task.agent.ws_idx as int,
                        task.agent.tab_idx as int,
                    )
                    &&& read.source == task.params.source
                    &&& read.format == task.params.format
                    &&& read.text == snapshot.text
                    &&& read.revision == 0
                    &&& read.truncated == snapshot.truncated
                },
            },
    {
        let snapshot = match snapshot {
            Some(snapshot) => snapshot,
            None => {
                return agent_not_found(task.id, task.params.target.as_str());
            },
        };
        let pane_id = match self.public_pane_id(task.agent.ws_idx, task.agent.pane_id) {
            Some(pane_id) => pane_id,
            None => task.params.target,
        };
        let tab_id = self.public_tab_id(task.agent.ws_idx, task.agent.tab_idx).unwrap();
        Reply::Success {
            id: task.id,
            result: ResponseResult::PaneRead {
                read: PaneReadResult {
                    pane_id,
                    workspace_id: snapshot.workspace_id,
                    tab_id,
                    source: task.params.source,
                    format: task.params.format,
                    text: snapshot.text,
                    revision: 0,
                    truncated: snapshot.truncated,
                },
            },
        }
    }
}

/// A spelling resolves to an id exactly where its pane has that public id and
/// the panel lists it. So a pane without a row is refused.
pub proof fn lemma_spelling_resolves_to_listed_row(app: App, requested: Seq<char>, id: Seq<char>)
    ensures
        app.panel_row(requested) == Some(id) <==> (app.accepted_pane(requested) matches Some(
            (ws_idx, pane_id),
        ) && app.public_pane(ws_idx as int, pane_id) == Some(id) && app.panel_ids().contains(id)),
{
}

/// Two spellings of one pane resolve alike.
pub proof fn lemma_spellings_of_one_pane_resolve_alike(app: App, a: Seq<char>, b: Seq<char>)
    requires
        app.accepted_pane(a) == app.accepted_pane(b),
    ensures
        app.panel_row(a) == app.panel_row(b),
{
}

/// Every id that the panel shows resolves to itself.
pub proof fn lemma_shown_id_resolves_to_itself(app: App, id: Seq<char>)
    requires
        app.panel_ids().contains(id),
    ensures
        app.panel_row(id) == Some(id),
{
    let rows = app.state.agent_rows@;
    let public = |row: PanelEntry| app.public_pane(row.ws_idx as int, row.pane_id);
    panel::lemma_panel_shows_the_rows(app);
    assert(app.row_ids().contains(id));
    rows.lemma_filter_map_contains(public, id);
    let row = choose|row: PanelEntry| #[trigger] rows.contains(row) && public(row) == Some(id);
    lemma_row_with_id_is_found(app, rows, row, id);
}

/// An id that a spelling was resolved to resolves to itself.
pub proof fn lemma_resolved_row_resolves_to_itself(app: App, requested: Seq<char>, id: Seq<char>)
    requires
        app.panel_row(requested) == Some(id),
    ensures
        app.panel_row(id) == Some(id),
{
    lemma_shown_id_resolves_to_itself(app, id);
}

proof fn lemma_row_with_id_is_found(
    app: App,
    rows: Seq<PanelEntry>,
    row: PanelEntry,
    id: Seq<char>,
)
    requires
        rows.contains(row),
        app.public_pane(row.ws_idx as int, row.pane_id) == Some(id),
    ensures
        app.row_with_id(rows, id) matches Some((ws_idx, pane_id)) && app.public_pane(
            ws_idx as int,
            pane_id,
        ) == Some(id),
    decreases rows.len(),
{
    let i = choose|i: int| 0 <= i < rows.len() && rows[i] == row;
    if app.public_pane(rows[0].ws_idx as int, rows[0].pane_id) != Some(id) {
        assert(rows.skip(1)[i - 1] == row);
        lemma_row_with_id_is_found(app, rows.skip(1), row, id);
    }
}

proof fn lemma_row_with_id_of(a: App, b: App, rows: Seq<PanelEntry>, id: Seq<char>)
    requires
        a.state.workspaces == b.state.workspaces,
    ensures
        a.row_with_id(rows, id) == b.row_with_id(rows, id),
    decreases rows.len(),
{
    if rows.len() > 0 {
        assert(a.public_pane(rows[0].ws_idx as int, rows[0].pane_id) == b.public_pane(
            rows[0].ws_idx as int,
            rows[0].pane_id,
        ));
        lemma_row_with_id_of(a, b, rows.skip(1), id);
    }
}

/// A move changes neither which rows there are nor what a spelling resolves to.
pub proof fn lemma_move_keeps_resolution(
    app: App,
    after: App,
    order: Seq<Seq<char>>,
    requested: Seq<char>,
)
    requires
        after.ordered_from(app, order),
    ensures
        after.row_ids() == app.row_ids(),
        after.accepted_pane(requested) == app.accepted_pane(requested),
        after.panel_row(requested) == app.panel_row(requested),
{
    lemma_row_with_id_of(app, after, app.state.agent_rows@, requested);
    panel::lemma_row_ids_of(app, after);
    panel::lemma_panel_shows_the_rows(app);
    panel::lemma_panel_shows_the_rows(after);
    match app.accepted_pane(requested) {
        Some((ws_idx, pane_id)) => match app.public_pane(ws_idx as int, pane_id) {
            Some(id) => {
                assert(after.public_pane(ws_idx as int, pane_id) == Some(id));
                assert(app.panel_ids().contains(id) <==> app.row_ids().contains(id));
                assert(after.panel_ids().contains(id) <==> after.row_ids().contains(id));
            },
            None => {},
        },
        None => {},
    }
}

/// After a move of a row that is there once, the panel shows the rows in the
/// order that was stored and told to subscribers.
pub proof fn lemma_panel_shows_the_move(
    app: App,
    after: App,
    pane: Seq<char>,
    before: Option<Seq<char>>,
)
    requires
        app.row_ids().to_multiset().count(pane) == 1,
        after.ordered_from(app, panel::moved(app.panel_ids(), pane, before)),
    ensures
        after.panel_ids() == panel::moved(app.panel_ids(), pane, before),
{
    let order = panel::moved(app.panel_ids(), pane, before);
    panel::lemma_panel_shows_the_rows(app);
    panel::lemma_row_ids_of(app, after);
    panel::lemma_move_keeps_every_row(app.panel_ids(), pane, before);
    panel::lemma_complete_order_is_shown(after.row_ids(), order);
}

/// A request that moved a row succeeds again where nothing happened in between,
/// and then leaves everything as it is: the order and the sort, the events, and
/// whether the session is to be saved.
pub proof fn lemma_same_move_changes_nothing(
    app: App,
    after: App,
    again: App,
    params: AgentMoveParams,
    pane: Seq<char>,
    before: Option<Seq<char>>,
)
    requires
        app.move_target(params) == (MoveTarget::Row { pane, before }),
        after.ordered_from(app, panel::moved(app.panel_ids(), pane, before)),
    ensures
        after.move_target(params) == (MoveTarget::Row { pane, before }),
        again.ordered_from(after, panel::moved(after.panel_ids(), pane, before)) ==> again == after,
{
    let order = panel::moved(app.panel_ids(), pane, before);
    lemma_move_keeps_resolution(app, after, order, params.pane_id@);
    match params.before_pane_id {
        Some(requested) => {
            lemma_move_keeps_resolution(app, after, order, requested@);
        },
        None => {},
    }
    panel::lemma_panel_shows_the_rows(app);
    assert(app.panel_ids().contains(pane));
    panel::lemma_stored_move_is_settled(app.row_ids(), app.panel_ids(), pane, before);
    assert(text::words(after.state.agent_user_order@) == order);
    assert(after.panel_ids() == panel::arranged(app.row_ids(), order));
}

/// A listed spelling is that of the first entry that spells so, and a spelling
/// that no entry has is none.
pub proof fn lemma_first_entry_spells_the_pane(
    spellings: Seq<PaneSpelling>,
    requested: Seq<char>,
    i: int,
)
    requires
        0 <= i <= spellings.len(),
        forall|j: int| 0 <= j < i ==> (#[trigger] spellings[j]).spelling@ != requested,
        i < spellings.len() ==> spellings[i].spelling@ == requested,
    ensures
        i < spellings.len() ==> spelled_pane(spellings, requested) == Some(
            (spellings[i].ws_idx, spellings[i].pane_id),
        ),
        i == spellings.len() ==> spelled_pane(spellings, requested) is None,
    decreases spellings.len(),
{
    if spellings.len() > 0 && i > 0 {
        let rest = spellings.skip(1);
        assert(spellings[0].spelling@ != requested);
        assert forall|j: int| 0 <= j < i - 1 implies (#[trigger] rest[j]).spelling@ != requested by {
            assert(spellings[j + 1].spelling@ != requested);
        }
        lemma_first_entry_spells_the_pane(rest, requested, i - 1);
    }
}

/// The public id of a row spells the pane of the first row that has it, and an id
/// that no row has spells none.
pub proof fn lemma_first_row_has_the_id(app: App, rows: Seq<PanelEntry>, id: Seq<char>, i: int)
    requires
        0 <= i <= rows.len(),
        forall|j: int|
            0 <= j < i ==> app.public_pane(
                (#[trigger] rows[j]).ws_idx as int,
                rows[j].pane_id,
            ) != Some(id),
        i < rows.len() ==> app.public_pane(rows[i].ws_idx as int, rows[i].pane_id) == Some(id),
    ensures
        i < rows.len() ==> app.row_with_id(rows, id) == Some((rows[i].ws_idx, rows[i].pane_id)),
        i == rows.len() ==> app.row_with_id(rows, id) is None,
    decreases rows.len(),
{
    if rows.len() > 0 && i > 0 {
        let rest = rows.skip(1);
        assert(app.public_pane(rows[0].ws_idx as int, rows[0].pane_id) != Some(id));
        assert forall|j: int| 0 <= j < i - 1 implies app.public_pane(
            (#[trigger] rest[j]).ws_idx as int,
            rest[j].pane_id,
        ) != Some(id) by {
            assert(rest[j] == rows[j + 1]);
        }
        lemma_first_row_has_the_id(app, rest, id, i - 1);
    }
}

/// The id of a row is accepted for that row, and a spelling that is no row's id
/// for what is listed under it.
pub proof fn lemma_row_ids_are_accepted_first(app: App, requested: Seq<char>)
    ensures
        app.row_ids().contains(requested) ==> (app.accepted_pane(requested) matches Some(
            (ws_idx, pane_id),
        ) && app.public_pane(ws_idx as int, pane_id) == Some(requested)),
        !app.row_ids().contains(requested) ==> app.accepted_pane(requested) == spelled_pane(
            app.state.pane_spellings@,
            requested,
        ),
{
    let rows = app.state.agent_rows@;
    let public = |row: PanelEntry| app.public_pane(row.ws_idx as int, row.pane_id);
    if app.row_ids().contains(requested) {
        rows.lemma_filter_map_contains(public, requested);
        let row = choose|row: PanelEntry| #[trigger]
            rows.contains(row) && public(row) == Some(requested);
        lemma_row_with_id_is_found(app, rows, row, requested);
    } else {
        lemma_id_of_no_row(app, rows, requested);
    }
}

proof fn lemma_id_of_no_row(app: App, rows: Seq<PanelEntry>, id: Seq<char>)
    requires
        !rows.filter_map(
            |row: PanelEntry| app.public_pane(row.ws_idx as int, row.pane_id),
        ).contains(id),
    ensures
        app.row_with_id(rows, id) is None,
{
    let public = |row: PanelEntry| app.public_pane(row.ws_idx as int, row.pane_id);
    assert forall|j: int| 0 <= j < rows.len() implies app.public_pane(
        (#[trigger] rows[j]).ws_idx as int,
        rows[j].pane_id,
    ) != Some(id) by {
        if public(rows[j]) == Some(id) {
            lemma_filter_map_holds(rows, public, j, id);
        }
    }
    lemma_first_row_has_the_id(app, rows, id, rows.len() as int);
}

proof fn lemma_filter_map_holds(
    rows: Seq<PanelEntry>,
    public: spec_fn(PanelEntry) -> Option<Seq<char>>,
    j: int,
    id: Seq<char>,
)
    requires
        0 <= j < rows.len(),
        public(rows[j]) == Some(id),
    ensures
        rows.filter_map(public).contains(id),
    decreases rows.len(),
{
    let shorter = rows.drop_last();
    let ids = rows.filter_map(public);
    if j == rows.len() - 1 {
        assert(ids[ids.len() - 1] == id);
    } else {
        lemma_filter_map_holds(shorter, public, j, id);
        let before = shorter.filter_map(public);
        let k = choose|k: int| 0 <= k < before.len() && before[k] == id;
        assert(ids[k] == id);
    }
}

/// A move is about the row that the first spelling resolves to, and the row that
/// the second resolves to. It is refused where the first resolves to none, where
/// the second does, and where both resolve to one row, in this order.
pub proof fn lemma_move_is_about_resolved_rows(app: App, params: AgentMoveParams)
    ensures
        app.panel_row(params.pane_id@) is None ==> app.move_target(params)
            == (MoveTarget::Refused {
            code: "pane_not_found"@,
            message: "pane "@ + params.pane_id@ + " not found"@,
        }),
        app.panel_row(params.pane_id@) matches Some(pane) ==> match params.before_pane_id {
            None => app.move_target(params) == (MoveTarget::Row { pane, before: None }),
            Some(requested) => match app.panel_row(requested@) {
                None => app.move_target(params) == (MoveTarget::Refused {
                    code: "pane_not_found"@,
                    message: "pane "@ + requested@ + " not found"@,
                }),
                Some(before) => if before == pane {
                    app.move_target(params) == (MoveTarget::Refused {
                        code: "agent_move_failed"@,
                        message: "before_pane_id must not be the moved pane"@,
                    })
                } else {
                    app.move_target(params) == (MoveTarget::Row { pane, before: Some(before) })
                },
            },
        },
{
}

/// A move stores its order, chooses the user's sort, and changes nothing else of
/// the state but that it is to be saved. Subscribers are told the order once, and
/// the state is to be saved, exactly where the order or the sort changed.
pub proof fn lemma_move_stores_its_order(app: App, after: App, order: Seq<Seq<char>>)
    requires
        after.ordered_from(app, order),
    ensures
        after.state.agent_panel_sort == AgentPanelSort::UserOrdered,
        text::words(after.state.agent_user_order@) == order,
        after.state.workspaces == app.state.workspaces,
        after.state.terminals == app.state.terminals,
        after.state.pane_spellings == app.state.pane_spellings,
        after.state.active == app.state.active,
        after.state.agent_rows == app.state.agent_rows,
        app.state.agent_panel_sort == AgentPanelSort::UserOrdered && text::words(
            app.state.agent_user_order@,
        ) == order ==> after == app,
        !(app.state.agent_panel_sort == AgentPanelSort::UserOrdered && text::words(
            app.state.agent_user_order@,
        ) == order) ==> {
            &&& after.state.session_dirty
            &&& after.events@.len() == app.events@.len() + 1
            &&& forall|i: int|
                0 <= i < app.events@.len() ==> #[trigger] after.events@[i] == app.events@[i]
            &&& after.events@[app.events@.len() as int] matches EventData::AgentReordered {
                pane_ids,
            }
            &&& text::words(pane_ids@) == order
        },
{
    if after != app {
        assert forall|i: int| 0 <= i < app.events@.len() implies #[trigger] after.events@[i]
            == app.events@[i] by {
            assert(after.events@.drop_last()[i] == app.events@[i]);
        }
    }
}

/// A move starts from the rows as the panel shows them: under a derived sort, from
/// the derived order, whatever is stored.
pub proof fn lemma_move_starts_from_what_is_shown(
    app: App,
    after: App,
    pane: Seq<char>,
    before: Option<Seq<char>>,
)
    requires
        app.state.agent_panel_sort != AgentPanelSort::UserOrdered,
        after.ordered_from(app, panel::moved(app.panel_ids(), pane, before)),
    ensures
        text::words(after.state.agent_user_order@).filter(panel::is_not(pane))
            == app.row_ids().filter(panel::is_not(pane)),
        text::words(after.state.agent_user_order@).contains(pane),
{
    panel::lemma_stored_order_counts_only_when_chosen(app);
    panel::lemma_move_keeps_the_others(app.row_ids(), pane, before);
    let parts = panel::lemma_move_cuts_the_others(app.row_ids(), pane, before);
    let order = panel::moved(app.row_ids(), pane, before);
    assert(order[parts.0.len() as int] == pane);
}

/// The terminal of a pane is the one that its workspace's pane shows, where it is
/// still there.
pub proof fn lemma_terminal_of_the_pane(app: App, ws_idx: int, pane_id: PaneId)
    ensures
        !(0 <= ws_idx < app.state.workspaces@.len()) ==> app.pane_terminal_id(
            ws_idx,
            pane_id,
        ) is None && app.pane_terminal(ws_idx, pane_id) is None,
        0 <= ws_idx < app.state.workspaces@.len() ==> match app.state.workspaces@[ws_idx].pane_at(
            pane_id,
        ) {
            None => app.pane_terminal_id(ws_idx, pane_id) is None && app.pane_terminal(
                ws_idx,
                pane_id,
            ) is None,
            Some(pane) => {
                &&& app.pane_terminal_id(ws_idx, pane_id) == Some(pane.attached_terminal_id)
                &&& if app.state.terminals@.dom().contains(pane.attached_terminal_id) {
                    app.pane_terminal(ws_idx, pane_id) == Some(
                        app.state.terminals@[pane.attached_terminal_id],
                    )
                } else {
                    app.pane_terminal(ws_idx, pane_id) is None
                }
            },
        },
{
}

/// The agent at a place is the one that the terminal of that pane is known to run.
pub proof fn lemma_known_agent_of_the_pane(app: App, at: ResolvedAgent)
    ensures
        match app.pane_terminal(at.ws_idx as int, at.pane_id) {
            Some(terminal) => app.known_agent_at(at) == terminal.known_agent,
            None => app.known_agent_at(at) is None,
        },
{
}

/// The public id of a tab is that of the workspace's tab, where it is there and
/// has one.
pub proof fn lemma_public_tab_of_the_workspace(app: App, ws_idx: int, tab_idx: int)
    ensures
        ({
            let workspaces = app.state.workspaces@;
            if 0 <= ws_idx < workspaces.len() && 0 <= tab_idx < workspaces[ws_idx].tabs@.len() {
                match workspaces[ws_idx].tabs@[tab_idx].public_id {
                    Some(id) => app.public_tab(ws_idx, tab_idx) == Some(id@),
                    None => app.public_tab(ws_idx, tab_idx) is None,
                }
            } else {
                app.public_tab(ws_idx, tab_idx) is None
            }
        }),
{
}

/// What is told of a target that is no active agent, and of one that is unknown,
/// names the target.
pub proof fn lemma_messages_name_the_target(target: Seq<char>)
    ensures
        not_ready_message(target) == "agent "@ + target + " is not an active named agent"@,
        not_found_message(target) == "agent target "@ + target + " not found"@,
{
}

/// A move that succeeds stores and tells an order that has the moved row directly
/// before the other, or last, and the rows that the panel showed else as it showed
/// them. A move that is refused changes nothing, and its answer carries the id.
pub proof fn lemma_move_reorders_what_is_shown<A>(
    app: &mut App,
    id: String,
    params: AgentMoveParams,
    step: MoveStep<A>,
    shown: Vec<String>,
)
    requires
        call_ensures(App::agent_panel_pane_ids, (&*old(app),), shown),
        call_ensures(App::handle_agent_move::<A>, (app, id, params), step),
    ensures
        match step {
            MoveStep::ListAgents { id: to } => {
                &&& to == id
                &&& old(app).panel_row(params.pane_id@) matches Some(pane)
                &&& final(app).state.agent_panel_sort == AgentPanelSort::UserOrdered
                &&& ({
                    let order = text::words(final(app).state.agent_user_order@);
                    &&& order.contains(pane)
                    &&& order.filter(panel::is_not(pane)) == text::words(shown@).filter(
                        panel::is_not(pane),
                    )
                    &&& params.before_pane_id is None ==> order.last() == pane
                    &&& params.before_pane_id matches Some(requested)
                        ==> (old(app).panel_row(requested@) matches Some(before) && before != pane
                        && exists|at: int|
                        0 <= at < order.len() - 1 && #[trigger] order[at] == pane && order[at + 1]
                            == before)
                })
            },
            MoveStep::Answer(reply) => {
                &&& *final(app) == *old(app)
                &&& reply matches Reply::Error { id: to, error }
                &&& to == id
                &&& error.code@ == "pane_not_found"@ || error.code@ == "agent_move_failed"@
            },
        },
{
    let before = *old(app);
    lemma_move_is_about_resolved_rows(before, params);
    match before.move_target(params) {
        MoveTarget::Row { pane, before: other } => {
            let order = panel::moved(before.panel_ids(), pane, other);
            lemma_move_stores_its_order(before, *final(app), order);
            panel::lemma_move_keeps_the_others(before.panel_ids(), pane, other);
            let parts = panel::lemma_move_cuts_the_others(before.panel_ids(), pane, other);
            assert(order[parts.0.len() as int] == pane);
            panel::lemma_moved_row_stands_before(before.panel_ids(), pane, other);
        },
        MoveTarget::Refused { .. } => {},
    }
}

/// What was read is answered with the ids of the pane and tab that the target was
/// resolved to, and read as it was asked for.
pub proof fn lemma_read_is_about_the_target<A>(
    app: App,
    id: String,
    params: AgentReadParams,
    agent: ResolvedAgent,
    step: ReadStep<A>,
    task: ReadTask,
    snapshot: TerminalSnapshot,
    reply: Reply<A>,
    missing: Reply<A>,
)
    requires
        call_ensures(handle_agent_read::<A>, (id, params, Ok(agent)), step),
        step matches ReadStep::ReadTerminal { task: asked } ==> asked == task,
        call_ensures(App::terminal_read::<A>, (&app, task, Some(snapshot)), reply),
        call_ensures(App::terminal_read::<A>, (&app, task, None), missing),
    ensures
        step is ReadTerminal,
        task.agent == agent && task.id == id && task.params == params,
        reply matches Reply::Success { id: to, result: ResponseResult::PaneRead { read } } && to
            == id && Some(read.tab_id@) == app.public_tab(
            agent.ws_idx as int,
            agent.tab_idx as int,
        ) && (app.public_pane(agent.ws_idx as int, agent.pane_id) matches Some(pane)
            ==> read.pane_id@ == pane) && (app.public_pane(
            agent.ws_idx as int,
            agent.pane_id,
        ) is None ==> read.pane_id@ == params.target@) && read.workspace_id
            == snapshot.workspace_id && read.text == snapshot.text && read.truncated
            == snapshot.truncated && read.source == params.source && read.format == params.format
            && read.revision == 0,
        missing matches Reply::Error { id: to, error } && to == id && error.code@
            == "agent_not_found"@ && error.message@ == "agent target "@ + params.target@
            + " not found"@,
{
}

/// A found agent is answered as it is, and an error as it is.
pub proof fn lemma_found_agents_are_answered<A>(
    id: String,
    found: Result<A, ErrorBody>,
    got: Reply<A>,
    focused: Reply<A>,
    renamed: Reply<A>,
)
    requires
        call_ensures(handle_agent_get::<A>, (id, found), got),
        call_ensures(handle_agent_focus::<A>, (id, found), focused),
        call_ensures(handle_agent_rename::<A>, (id, found), renamed),
    ensures
        got == focused && focused == renamed,
        found matches Ok(agent) ==> got == (Reply::Success {
            id,
            result: ResponseResult::AgentInfo { agent },
        }),
        found matches Err(error) ==> got == (Reply::<A>::Error { id, error }),
{
}

/// Started agents are answered with their command line, and agents are listed as
/// they were collected.
pub proof fn lemma_started_and_listed_agents_are_answered<A>(
    id: String,
    agents: Vec<A>,
    started: Result<(A, Vec<String>), ErrorBody>,
    list: Reply<A>,
    start: Reply<A>,
)
    requires
        call_ensures(handle_agent_list::<A>, (id, agents), list),
        call_ensures(handle_agent_start::<A>, (id, started), start),
    ensures
        list == (Reply::Success { id, result: ResponseResult::AgentList { agents } }),
        started matches Ok((agent, argv)) ==> start == (Reply::Success {
            id,
            result: ResponseResult::AgentStarted { agent, argv },
        }),
        started matches Err(error) ==> start == (Reply::<A>::Error { id, error }),
{
}

/// A spelling that is resolved is resolved to the public id of its own pane, which
/// is listed and resolves to itself.
pub proof fn lemma_resolution_is_settled(
    app: App,
    requested: &str,
    pane: Option<(usize, PaneId)>,
    row: Option<String>,
    resolved: &str,
    again: Option<String>,
    listed: Vec<String>,
)
    requires
        call_ensures(App::parse_pane_id, (&app, requested), pane),
        call_ensures(App::resolve_agent_panel_pane_id, (&app, requested), row),
        call_ensures(App::agent_panel_pane_ids, (&app,), listed),
        row matches Some(id) ==> resolved@ == id@,
        call_ensures(App::resolve_agent_panel_pane_id, (&app, resolved), again),
    ensures
        row matches Some(id) ==> {
            &&& again is Some
            &&& again->0@ == id@
            &&& text::words(listed@).contains(id@)
            &&& pane matches Some((ws_idx, pane_id))
            &&& app.public_pane(ws_idx as int, pane_id) == Some(id@)
        },
        row is None ==> match pane {
            Some((ws_idx, pane_id)) => match app.public_pane(ws_idx as int, pane_id) {
                Some(id) => !text::words(listed@).contains(id),
                None => true,
            },
            None => true,
        },
{
    match row {
        Some(id) => {
            lemma_resolved_row_resolves_to_itself(app, requested@, id@);
        },
        None => {},
    }
}

} // verus!
