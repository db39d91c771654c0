//! Requests that list tmux sessions and attach them to workspaces.
use crate::schema::{
    self, error_reply, ErrorBody, EventData, Reply, ResponseResult, TmuxAttachParams, TmuxSessionInfo,
};
use crate::state::{App, AppState, Workspace};
use crate::text;
use crate::tmux::{self, TmuxError, TmuxSession};
use vstd::prelude::*;

verus! {

impl App {
    /// The command line that the root terminal of the workspace's first tab
    /// was launched with.
    pub open spec fn root_command(self, ws_idx: int) -> Option<Seq<Seq<char>>> {
        let workspaces = self.state.workspaces@;
        let terminals = self.state.terminals@;
        if 0 <= ws_idx < workspaces.len() && workspaces[ws_idx].tabs@.len() > 0 {
            let tab = workspaces[ws_idx].tabs@[0];
            if tab.panes@.contains_key(tab.root_pane) && terminals.contains_key(
                tab.panes@[tab.root_pane].attached_terminal_id,
            ) {
                match terminals[tab.panes@[tab.root_pane].attached_terminal_id].launch_argv {
                    Some(argv) => Some(text::words(argv@)),
                    None => None,
                }
            } else {
                None
            }
        } else {
            None
        }
    }

    /// The tmux session that the workspace shows.
    pub open spec fn shown_session(self, ws_idx: int) -> Option<Seq<char>> {
        match self.root_command(ws_idx) {
            Some(command) => tmux::attached_session(command),
            None => None,
        }
    }

    /// The first of the workspaces before `end` that shows the session.
    pub open spec fn open_workspace_before(self, session: Seq<char>, end: int) -> Option<int>
        decreases end,
    {
        if end <= 0 {
            None
        } else {
            match self.open_workspace_before(session, end - 1) {
                Some(ws_idx) => Some(ws_idx),
                None => if self.shown_session(end - 1) == Some(session) {
                    Some(end - 1)
                } else {
                    None
                },
            }
        }
    }

    /// The first workspace that shows the session.
    pub open spec fn open_workspace(self, session: Seq<char>) -> Option<int> {
        self.open_workspace_before(session, self.state.workspaces@.len() as int)
    }

    proof fn lemma_open_workspace_before(self, session: Seq<char>, end: int)
        ensures
            match self.open_workspace_before(session, end) {
                Some(i) => {
                    &&& 0 <= i < end
                    &&& self.shown_session(i) == Some(session)
                    &&& forall|j: int| 0 <= j < i ==> self.shown_session(j) != Some(session)
                },
                None => forall|j: int| 0 <= j < end ==> self.shown_session(j) != Some(session),
            },
        decreases end,
    {
        if end > 0 {
            self.lemma_open_workspace_before(session, end - 1);
        }
    }

    /// The first workspace that shows the session is the one that shows it with
    /// none before it showing it; there is none exactly where no workspace does.
    pub proof fn lemma_open_workspace_is_first(self, session: Seq<char>)
        ensures
            match self.open_workspace(session) {
                Some(i) => {
                    &&& 0 <= i < self.state.workspaces@.len()
                    &&& self.shown_session(i) == Some(session)
                    &&& forall|j: int| 0 <= j < i ==> self.shown_session(j) != Some(session)
                },
                None => forall|j: int|
                    0 <= j < self.state.workspaces@.len() ==> self.shown_session(j) != Some(
                        session,
                    ),
            },
    {
        self.lemma_open_workspace_before(session, self.state.workspaces@.len() as int);
    }

    /// The tmux session that the workspace shows.
    pub fn workspace_tmux_session(&self, ws_idx: usize) -> (session: Option<String>)
        ensures
            text::optional(session) == self.shown_session(ws_idx as int),
    {
        broadcast use vstd::std_specs::hash::group_hash_axioms;

        if ws_idx >= self.state.workspaces.len() {
            return None;
        }
        let workspace = &self.state.workspaces[ws_idx];
        if workspace.tabs.len() == 0 {
            return None;
        }
        let tab = &workspace.tabs[0];
        let pane = match tab.panes.get(&tab.root_pane) {
            Some(pane) => pane,
            None => {
                return None;
            },
        };
        let terminal = match self.state.terminals.get(&pane.attached_terminal_id) {
            Some(terminal) => terminal,
            None => {
                return None;
            },
        };
        match &terminal.launch_argv {
            Some(argv) => match tmux::session_name_from_launch_argv(argv) {
                Some(name) => Some(name.to_owned()),
                None => None,
            },
            None => None,
        }
    }

    /// The first workspace that shows the session.
    pub fn open_workspace_idx_for_tmux_session(&self, session: &str) -> (ws_idx: Option<usize>)
        ensures
            match ws_idx {
                Some(i) => self.open_workspace(session@) == Some(i as int) && i
                    < self.state.workspaces@.len(),
                None => self.open_workspace(session@) is None,
            },
    {
        let mut ws_idx: usize = 0;
        while ws_idx < self.state.workspaces.len()
            invariant
                ws_idx <= self.state.workspaces@.len(),
                self.open_workspace_before(session@, ws_idx as int) is None,
            decreases self.state.workspaces@.len() - ws_idx,
        {
            match self.workspace_tmux_session(ws_idx) {
                Some(name) => {
                    if name.as_str().eq(session) {
                        proof {
                            let end = self.state.workspaces@.len() as int;
                            self.lemma_open_workspace_before(session@, ws_idx as int);
                            self.lemma_open_workspace_before(session@, end);
                        }
                        return Some(ws_idx);
                    }
                },
                None => {},
            }
            ws_idx = ws_idx + 1;
        }
        None
    }

    /// The id of the first workspace that shows the session.
    pub open spec fn open_workspace_id(self, session: Seq<char>) -> Option<Seq<char>> {
        match self.open_workspace(session) {
            Some(ws_idx) => Some(self.state.workspaces@[ws_idx].public_id@),
            None => None,
        }
    }

    /// What the API says of the session.
    pub fn tmux_session_info(&self, session: &TmuxSession) -> (info: TmuxSessionInfo)
        ensures
            info.describes(*session),
            text::optional(info.open_workspace_id) == self.open_workspace_id(session.name@),
    {
        let open_workspace_id = match self.open_workspace_idx_for_tmux_session(
            session.name.as_str(),
        ) {
            Some(ws_idx) => Some(self.state.workspaces[ws_idx].public_id.clone()),
            None => None,
        };
        TmuxSessionInfo {
            name: session.name.clone(),
            windows: session.windows,
            attached: session.attached,
            created_unix: session.created_unix,
            path: text::clone_optional(&session.path),
            open_workspace_id,
        }
    }

    /// Answers with the sessions that tmux lists, or with why it lists none.
    pub fn handle_tmux_list<A>(
        &self,
        id: String,
        listed: Result<Vec<TmuxSession>, TmuxError>,
    ) -> (reply: Reply<A>)
        ensures
            match listed {
                Ok(sessions) => {
                    &&& reply matches Reply::Success {
                        id: to,
                        result: ResponseResult::TmuxSessionList { sessions: infos },
                    }
                    &&& to == id
                    &&& infos@.len() == sessions@.len()
                    &&& forall|i: int|
                        0 <= i < infos@.len() ==> {
                            &&& (#[trigger] infos@[i]).describes(sessions@[i])
                            &&& text::optional(infos@[i].open_workspace_id)
                                == self.open_workspace_id(sessions@[i].name@)
                        }
                },
                Err(TmuxError::Unavailable(detail)) => schema::is_error(
                    reply,
                    id,
                    "tmux_unavailable"@,
                    "tmux is not available: "@ + detail@,
                ),
                Err(TmuxError::Failed(detail)) => schema::is_error(
                    reply,
                    id,
                    "tmux_failed"@,
                    "tmux command failed: "@ + detail@,
                ),
            },
    {
        let sessions = match listed {
            Ok(sessions) => sessions,
            Err(err) => {
                return error_reply(id, err.code(), err.message());
            },
        };
        let mut infos: Vec<TmuxSessionInfo> = Vec::new();
        let mut i: usize = 0;
        while i < sessions.len()
            invariant
                i <= sessions@.len(),
                infos@.len() == i,
                forall|k: int|
                    0 <= k < i ==> {
                        &&& (#[trigger] infos@[k]).describes(sessions@[k])
                        &&& text::optional(infos@[k].open_workspace_id) == self.open_workspace_id(
                            sessions@[k].name@,
                        )
                    },
            decreases sessions@.len() - i,
        {
            infos.push(self.tmux_session_info(&sessions[i]));
            i = i + 1;
        }
        Reply::Success { id, result: ResponseResult::TmuxSessionList { sessions: infos } }
    }
}

/// An attach request that waits for its workspace to be created.
#[derive(Debug)]
pub struct PendingAttach {
    pub id: String,
    pub label: Option<String>,
    pub session: TmuxSession,
}

/// What an attach request needs next.
#[derive(Debug)]
pub enum AttachStep<A> {
    /// Nothing: this is the answer.
    Answer(Reply<A>),
    /// Whatever the focus on the workspace asks of the caller. Then this is the
    /// answer.
    Focused { ws_idx: usize, reply: Reply<A> },
    /// The sessions that tmux lists, for [`choose_tmux_session`].
    ListSessions { id: String, params: TmuxAttachParams },
    /// The launch environment made of `params.env`, for
    /// [`App::attach_tmux_session`].
    NormalizeEnv { id: String, params: TmuxAttachParams, session: TmuxSession },
    /// A workspace that runs `argv` under `env`, for
    /// [`App::tmux_workspace_created`]. It starts in `cwd` where
    /// [`launch_directory`] accepts it, else where new terminals do.
    CreateWorkspace {
        cwd: Option<String>,
        focus: bool,
        argv: Vec<String>,
        env: Vec<(String, String)>,
        pending: PendingAttach,
    },
}

/// Starts an attach request: refuses a name that tmux would not take literally.
pub fn handle_tmux_attach<A>(id: String, params: TmuxAttachParams) -> (step: AttachStep<A>)
    ensures
        match tmux::session_name_problem(params.session@) {
            Some(problem) => step matches AttachStep::Answer(reply) && schema::is_error(
                reply,
                id,
                "invalid_request"@,
                problem,
            ),
            None => step == (AttachStep::<A>::ListSessions { id, params }),
        },
{
    match tmux::validate_session_name(params.session.as_str()) {
        Ok(()) => AttachStep::ListSessions { id, params },
        Err(message) => AttachStep::Answer(error_reply(id, "invalid_request", message)),
    }
}

/// The first session of that name.
pub open spec fn first_named(sessions: Seq<TmuxSession>, name: Seq<char>) -> Option<TmuxSession>
    decreases sessions.len(),
{
    if sessions.len() == 0 {
        None
    } else if sessions[0].name@ == name {
        Some(sessions[0])
    } else {
        first_named(sessions.skip(1), name)
    }
}

/// Continues an attach request with the sessions that tmux listed.
pub fn choose_tmux_session<A>(
    id: String,
    params: TmuxAttachParams,
    listed: Result<Vec<TmuxSession>, TmuxError>,
) -> (step: AttachStep<A>)
    ensures
        match listed {
            Ok(sessions) => match first_named(sessions@, params.session@) {
                Some(session) => step == (AttachStep::<A>::NormalizeEnv { id, params, session }),
                None => step matches AttachStep::Answer(reply) && schema::is_error(
                    reply,
                    id,
                    "tmux_session_not_found"@,
                    "tmux session "@ + params.session@ + " not found"@,
                ),
            },
            Err(TmuxError::Unavailable(detail)) => step matches AttachStep::Answer(reply)
                && schema::is_error(
                reply,
                id,
                "tmux_unavailable"@,
                "tmux is not available: "@ + detail@,
            ),
            Err(TmuxError::Failed(detail)) => step matches AttachStep::Answer(reply)
                && schema::is_error(
                reply,
                id,
                "tmux_failed"@,
                "tmux command failed: "@ + detail@,
            ),
        },
{
    let mut sessions = match listed {
        Ok(sessions) => sessions,
        Err(err) => {
            return AttachStep::Answer(error_reply(id, err.code(), err.message()));
        },
    };
    let ghost all = sessions@;
    let mut i: usize = 0;
    assert(all.skip(0) == all);
    while i < sessions.len()
        invariant
            i <= sessions@.len(),
            sessions@ == all,
            first_named(all.skip(i as int), params.session@) == first_named(all, params.session@),
        ensures
            i <= sessions@.len(),
            sessions@ == all,
            first_named(all.skip(i as int), params.session@) == first_named(all, params.session@),
            i < sessions@.len() ==> all[i as int].name@ == params.session@,
        decreases sessions@.len() - i,
    {
        if sessions[i].name.as_str().eq(params.session.as_str()) {
            break;
        }
        assert(all.skip(i as int).skip(1) == all.skip(i + 1));
        i = i + 1;
    }
    if i < sessions.len() {
        let session = sessions.swap_remove(i);
        return AttachStep::NormalizeEnv { id, params, session };
    }
    let message = "tmux session ".to_owned().concat(params.session.as_str()).concat(" not found");
    AttachStep::Answer(error_reply(id, "tmux_session_not_found", message))
}

/// The directory that a new workspace starts in, where the requested one is a
/// directory.
pub fn launch_directory(requested: Option<String>, is_directory: bool) -> (cwd: Option<String>)
    ensures
        cwd == (if is_directory {
            requested
        } else {
            None
        }),
{
    if is_directory {
        requested
    } else {
        None
    }
}

/// The label that an attached workspace is given: the requested one, or the
/// default for a new workspace.
pub open spec fn attach_label(
    requested: Option<String>,
    created: bool,
    session: Seq<char>,
) -> Option<Seq<char>> {
    match requested {
        Some(label) => Some(label@),
        None => if created {
            Some("tmux:"@ + session)
        } else {
            None
        },
    }
}

impl App {
    /// This is `before` with the workspace labelled, subscribers told and the
    /// session marked as changed.
    pub open spec fn attached_from(
        self,
        before: App,
        ws_idx: int,
        label: Option<Seq<char>>,
        created: bool,
    ) -> bool {
        let workspaces = self.state.workspaces@;
        &&& self.state == (AppState {
            workspaces: self.state.workspaces,
            session_dirty: true,
            ..before.state
        })
        &&& workspaces.len() == before.state.workspaces@.len()
        &&& forall|i: int|
            0 <= i < workspaces.len() && i != ws_idx ==> workspaces[i]
                == before.state.workspaces@[i]
        &&& workspaces[ws_idx] == (Workspace {
            custom_name: workspaces[ws_idx].custom_name,
            ..before.state.workspaces@[ws_idx]
        })
        &&& match label {
            Some(label) => workspaces[ws_idx].custom_name matches Some(name) && name@ == label,
            None => workspaces[ws_idx].custom_name
                == before.state.workspaces@[ws_idx].custom_name,
        }
        &&& if created {
            self.events@ == before.events@.push(
                EventData::WorkspaceOpened { ws_idx: ws_idx as usize },
            )
        } else {
            match label {
                Some(label) => {
                    &&& self.events@.len() == before.events@.len() + 1
                    &&& self.events@.drop_last() == before.events@
                    &&& self.events@.last() matches EventData::WorkspaceRenamed {
                        workspace_id,
                        label: told,
                    }
                    &&& workspace_id@ == before.state.workspaces@[ws_idx].public_id@
                    &&& told@ == label
                },
                None => self.events@ == before.events@,
            }
        }
    }

    /// `reply` tells of the attached workspace.
    pub open spec fn tells_attached<A>(
        self,
        reply: Reply<A>,
        id: String,
        ws_idx: int,
        session: TmuxSession,
        already_open: bool,
    ) -> bool {
        let workspace = self.state.workspaces@[ws_idx];
        &&& reply matches Reply::Success {
            id: to,
            result: ResponseResult::TmuxAttached {
                ws_idx: told_ws,
                tab_idx,
                root_pane,
                session: info,
                already_open: told_open,
            },
        }
        &&& to == id
        &&& told_ws == ws_idx
        &&& tab_idx == workspace.active_tab
        &&& root_pane == workspace.tabs@[workspace.active_tab as int].root_pane
        &&& info.describes(session)
        &&& text::optional(info.open_workspace_id) == self.open_workspace_id(session.name@)
        &&& told_open == already_open
    }

    fn finish_attach<A>(
        &mut self,
        id: String,
        requested: Option<String>,
        session: TmuxSession,
        ws_idx: usize,
        created: bool,
    ) -> (reply: Reply<A>)
        requires
            ws_idx < old(self).state.workspaces@.len(),
            old(self).state.workspaces@[ws_idx as int].is_shown(),
        ensures
            final(self).attached_from(
                *old(self),
                ws_idx as int,
                attach_label(requested, created, session.name@),
                created,
            ),
            final(self).tells_attached(reply, id, ws_idx as int, session, !created),
    {
        let label = match requested {
            Some(label) => Some(label),
            None => if created {
                Some(tmux::default_label(session.name.as_str()))
            } else {
                None
            },
        };
        match label {
            Some(label) => {
                let workspace_id = self.state.workspaces[ws_idx].public_id.clone();
                self.state.workspaces[ws_idx].custom_name = Some(label.clone());
                if !created {
                    self.events.push(EventData::WorkspaceRenamed { workspace_id, label });
                    assert(self.events@.drop_last() =~= old(self).events@);
                }
            },
            None => {},
        }
        self.state.session_dirty = true;
        if created {
            self.events.push(EventData::WorkspaceOpened { ws_idx });
        }
        let tab_idx = self.state.workspaces[ws_idx].active_tab;
        let root_pane = self.state.workspaces[ws_idx].tabs[tab_idx].root_pane;
        let info = self.tmux_session_info(&session);
        Reply::Success {
            id,
            result: ResponseResult::TmuxAttached {
                ws_idx,
                tab_idx,
                root_pane,
                session: info,
                already_open: !created,
            },
        }
    }

    /// Continues an attach request with the launch environment: answers for the
    /// workspace that shows the session already, or asks for a new one.
    pub fn attach_tmux_session<A>(
        &mut self,
        id: String,
        params: TmuxAttachParams,
        session: TmuxSession,
        env: Result<Vec<(String, String)>, ErrorBody>,
    ) -> (step: AttachStep<A>)
        requires
            env is Ok ==> (old(self).open_workspace(session.name@) matches Some(ws_idx)
                ==> old(self).state.workspaces@[ws_idx].is_shown()),
        ensures
            match env {
                Err(error) => {
                    &&& *final(self) == *old(self)
                    &&& step == AttachStep::<A>::Answer(Reply::Error { id, error })
                },
                Ok(env) => match old(self).open_workspace(session.name@) {
                    Some(ws_idx) => {
                        &&& final(self).attached_from(
                            App {
                                state: AppState {
                                    active: if params.focus {
                                        Some(ws_idx as usize)
                                    } else {
                                        old(self).state.active
                                    },
                                    ..old(self).state
                                },
                                events: old(self).events,
                            },
                            ws_idx,
                            attach_label(params.label, false, session.name@),
                            false,
                        )
                        &&& if params.focus {
                            &&& step matches AttachStep::Focused { ws_idx: focused, reply }
                            &&& focused == ws_idx
                            &&& final(self).tells_attached(reply, id, ws_idx, session, true)
                        } else {
                            &&& step matches AttachStep::Answer(reply)
                            &&& final(self).tells_attached(reply, id, ws_idx, session, true)
                        }
                    },
                    None => {
                        &&& *final(self) == *old(self)
                        &&& step matches AttachStep::CreateWorkspace {
                            cwd,
                            focus,
                            argv,
                            env: launch_env,
                            pending,
                        }
                        &&& text::optional(cwd) == text::optional(
                            if params.cwd is Some {
                                params.cwd
                            } else {
                                session.path
                            },
                        )
                        &&& focus == params.focus
                        &&& text::words(argv@) == tmux::attach_words(session.name@)
                        &&& launch_env == env
                        &&& pending == (PendingAttach { id, label: params.label, session })
                    },
                },
            },
    {
        let env = match env {
            Ok(env) => env,
            Err(error) => {
                return AttachStep::Answer(Reply::Error { id, error });
            },
        };
        match self.open_workspace_idx_for_tmux_session(session.name.as_str()) {
            Some(ws_idx) => {
                if params.focus {
                    self.state.active = Some(ws_idx);
                }
                let reply = self.finish_attach(id, params.label, session, ws_idx, false);
                if params.focus {
                    AttachStep::Focused { ws_idx, reply }
                } else {
                    AttachStep::Answer(reply)
                }
            },
            None => {
                let argv = tmux::attach_argv(session.name.as_str());
                let cwd = match params.cwd {
                    Some(cwd) => Some(cwd),
                    None => text::clone_optional(&session.path),
                };
                AttachStep::CreateWorkspace {
                    cwd,
                    focus: params.focus,
                    argv,
                    env,
                    pending: PendingAttach { id, label: params.label, session },
                }
            },
        }
    }

    /// Ends an attach request with the created workspace, or with why it could
    /// not be created.
    pub fn tmux_workspace_created<A>(
        &mut self,
        pending: PendingAttach,
        created: Result<usize, String>,
    ) -> (reply: Reply<A>)
        requires
            created matches Ok(ws_idx) ==> ws_idx < old(self).state.workspaces@.len()
                && old(self).state.workspaces@[ws_idx as int].is_shown(),
        ensures
            match created {
                Ok(ws_idx) => {
                    &&& final(self).attached_from(
                        *old(self),
                        ws_idx as int,
                        attach_label(pending.label, true, pending.session.name@),
                        true,
                    )
                    &&& final(self).tells_attached(
                        reply,
                        pending.id,
                        ws_idx as int,
                        pending.session,
                        false,
                    )
                },
                Err(reason) => {
                    &&& *final(self) == *old(self)
                    &&& schema::is_error(reply, pending.id, "tmux_attach_failed"@, reason@)
                },
            },
    {
        match created {
            Ok(ws_idx) => self.finish_attach(
                pending.id,
                pending.label,
                pending.session,
                ws_idx,
                true,
            ),
            Err(reason) => error_reply(pending.id, "tmux_attach_failed", reason),
        }
    }
}

/// Attaching changes no workspace's session: each is found where it was.
pub proof fn lemma_attach_keeps_sessions(
    before: App,
    after: App,
    ws_idx: int,
    label: Option<Seq<char>>,
    created: bool,
    session: Seq<char>,
)
    requires
        0 <= ws_idx < before.state.workspaces@.len(),
        after.attached_from(before, ws_idx, label, created),
    ensures
        forall|i: int| after.shown_session(i) == before.shown_session(i),
        after.open_workspace(session) == before.open_workspace(session),
        after.open_workspace_id(session) == before.open_workspace_id(session),
{
    assert forall|i: int| after.shown_session(i) == before.shown_session(i) by {
        if 0 <= i < before.state.workspaces@.len() {
            assert(after.state.workspaces@[i].tabs == before.state.workspaces@[i].tabs);
        }
    }
    let end = before.state.workspaces@.len() as int;
    before.lemma_open_workspace_before(session, end);
    after.lemma_open_workspace_before(session, end);
    match before.open_workspace(session) {
        Some(i) => {
            assert(after.shown_session(i) == Some(session));
            match after.open_workspace(session) {
                Some(k) => {
                    assert(before.shown_session(k) == Some(session));
                },
                None => {},
            }
            assert(after.state.workspaces@[i].public_id == before.state.workspaces@[i].public_id);
        },
        None => {
            match after.open_workspace(session) {
                Some(k) => {
                    assert(before.shown_session(k) == Some(session));
                },
                None => {},
            }
        },
    }
}

/// A workspace that was created to attach a session is the one that later
/// requests find for it, so that attaching the session again reuses it.
pub proof fn lemma_created_workspace_is_found(
    created: App,
    after: App,
    ws_idx: int,
    label: Option<Seq<char>>,
    session: Seq<char>,
)
    requires
        session.len() > 0,
        0 <= ws_idx < created.state.workspaces@.len(),
        created.root_command(ws_idx) == Some(tmux::attach_words(session)),
        forall|i: int| 0 <= i < ws_idx ==> created.shown_session(i) != Some(session),
        after.attached_from(created, ws_idx, label, true),
    ensures
        after.open_workspace(session) == Some(ws_idx),
        after.open_workspace_id(session) == Some(after.state.workspaces@[ws_idx].public_id@),
{
    tmux::lemma_attach_command_names_session(tmux::attach_words(session), session);
    assert(created.shown_session(ws_idx) == Some(session));
    assert(created.open_workspace(session) == Some(ws_idx)) by {
        created.lemma_open_workspace_is_first(session);
        match created.open_workspace(session) {
            Some(first) => {
                assert(created.shown_session(first) == Some(session));
                assert(!(first < ws_idx));
                assert(!(ws_idx < first));
            },
            None => {},
        }
    }
    lemma_attach_keeps_sessions(created, after, ws_idx, label, true, session);
    assert(after.open_workspace(session) == Some(ws_idx));
}

/// Which session a workspace shows is decided by its first tab alone, whichever
/// tab is active: it is the session that the root terminal of that tab was
/// launched to attach.
pub proof fn lemma_first_tab_decides_the_session(app: App, ws_idx: int, session: Seq<char>)
    ensures
        app.shown_session(ws_idx) == Some(session) <==> {
            &&& 0 <= ws_idx < app.state.workspaces@.len()
            &&& app.state.workspaces@[ws_idx].tabs@.len() > 0
            &&& ({
                let tab = app.state.workspaces@[ws_idx].tabs@[0];
                &&& tab.panes@.dom().contains(tab.root_pane)
                &&& app.state.terminals@.dom().contains(
                    tab.panes@[tab.root_pane].attached_terminal_id,
                )
                &&& app.state.terminals@[tab.panes@[tab.root_pane].attached_terminal_id].launch_argv
                    matches Some(argv)
                &&& text::words(argv@) == seq!["tmux"@, "attach-session"@, "-t"@, "="@ + session]
                &&& session.len() > 0
            })
        },
{
    match app.root_command(ws_idx) {
        Some(command) => {
            tmux::lemma_attach_command_names_session(command, session);
            tmux::lemma_attach_command(session);
        },
        None => {},
    }
}

/// Opening further tabs, closing them again and switching between them changes
/// nothing of which session a workspace shows.
pub proof fn lemma_other_tabs_change_no_session(app: App, after: App, ws_idx: int)
    requires
        after.state.terminals == app.state.terminals,
        0 <= ws_idx < app.state.workspaces@.len(),
        0 <= ws_idx < after.state.workspaces@.len(),
        app.state.workspaces@[ws_idx].tabs@.len() > 0,
        after.state.workspaces@[ws_idx].tabs@.len() > 0,
        after.state.workspaces@[ws_idx].tabs@[0] == app.state.workspaces@[ws_idx].tabs@[0],
    ensures
        after.shown_session(ws_idx) == app.shown_session(ws_idx),
{
    match app.shown_session(ws_idx) {
        Some(session) => {
            lemma_first_tab_decides_the_session(app, ws_idx, session);
            lemma_first_tab_decides_the_session(after, ws_idx, session);
        },
        None => {
            match after.shown_session(ws_idx) {
                Some(session) => {
                    lemma_first_tab_decides_the_session(app, ws_idx, session);
                    lemma_first_tab_decides_the_session(after, ws_idx, session);
                },
                None => {},
            }
        },
    }
}

/// A session is told to be open in the workspace that shows it first, by that
/// workspace's id, and nowhere where none shows it.
pub proof fn lemma_open_workspace_is_told(app: App, session: Seq<char>)
    ensures
        match app.open_workspace_id(session) {
            Some(id) => exists|i: int|
                0 <= i < app.state.workspaces@.len() && #[trigger] app.shown_session(i) == Some(
                    session,
                ) && app.state.workspaces@[i].public_id@ == id && forall|j: int|
                    0 <= j < i ==> #[trigger] app.shown_session(j) != Some(session),
            None => forall|i: int|
                0 <= i < app.state.workspaces@.len() ==> #[trigger] app.shown_session(i) != Some(
                    session,
                ),
        },
{
    app.lemma_open_workspace_is_first(session);
}

/// The session that is chosen is the first of that name, and none where none has
/// it.
pub proof fn lemma_first_of_the_name_is_chosen(
    sessions: Seq<TmuxSession>,
    name: Seq<char>,
    i: int,
)
    requires
        0 <= i <= sessions.len(),
        forall|j: int| 0 <= j < i ==> (#[trigger] sessions[j]).name@ != name,
        i < sessions.len() ==> sessions[i].name@ == name,
    ensures
        i < sessions.len() ==> first_named(sessions, name) == Some(sessions[i]),
        i == sessions.len() ==> first_named(sessions, name) is None,
    decreases sessions.len(),
{
    if sessions.len() > 0 && i > 0 {
        let rest = sessions.skip(1);
        assert(sessions[0].name@ != name);
        assert forall|j: int| 0 <= j < i - 1 implies (#[trigger] rest[j]).name@ != name by {
            assert(sessions[j + 1].name@ != name);
        }
        lemma_first_of_the_name_is_chosen(rest, name, i - 1);
    }
}

/// A workspace gets the label that was asked for. Without one a new workspace is
/// named after its session, and one that was open keeps its name.
pub proof fn lemma_label_is_the_one_asked_for(requested: Option<String>, session: Seq<char>)
    ensures
        requested matches Some(label) ==> attach_label(requested, true, session) == Some(label@)
            && attach_label(requested, false, session) == Some(label@),
        requested is None ==> attach_label(requested, true, session) == Some("tmux:"@ + session),
        requested is None ==> attach_label(requested, false, session) is None,
{
}

/// Attaching changes the name of the one workspace, where it gets a label, and
/// marks the state to be saved; nothing else of the state changes. Subscribers are
/// told of a new workspace, and of the new name of one that was open.
pub proof fn lemma_attach_changes_only_the_label(
    before: App,
    after: App,
    ws_idx: int,
    label: Option<Seq<char>>,
    created: bool,
)
    requires
        0 <= ws_idx < before.state.workspaces@.len(),
        ws_idx <= usize::MAX,
        after.attached_from(before, ws_idx, label, created),
    ensures
        after.state.session_dirty,
        after.state.terminals == before.state.terminals,
        after.state.pane_spellings == before.state.pane_spellings,
        after.state.active == before.state.active,
        after.state.agent_rows == before.state.agent_rows,
        after.state.agent_panel_sort == before.state.agent_panel_sort,
        after.state.agent_user_order == before.state.agent_user_order,
        after.state.workspaces@.len() == before.state.workspaces@.len(),
        forall|i: int|
            0 <= i < before.state.workspaces@.len() ==> {
                &&& (#[trigger] after.state.workspaces@[i]).public_id
                    == before.state.workspaces@[i].public_id
                &&& after.state.workspaces@[i].tabs == before.state.workspaces@[i].tabs
                &&& after.state.workspaces@[i].active_tab == before.state.workspaces@[i].active_tab
                &&& i != ws_idx || label is None ==> after.state.workspaces@[i].custom_name
                    == before.state.workspaces@[i].custom_name
            },
        label is Some ==> text::optional(after.state.workspaces@[ws_idx].custom_name) == label,
        !created && label is None ==> after.events@ == before.events@,
        created || label is Some ==> after.events@.len() == before.events@.len() + 1 && forall|
            i: int,
        |
            0 <= i < before.events@.len() ==> #[trigger] after.events@[i] == before.events@[i],
        created ==> after.events@.last() == (EventData::WorkspaceOpened { ws_idx: ws_idx as usize }),
        !created && label is Some ==> (after.events@.last() matches EventData::WorkspaceRenamed {
            workspace_id,
            label: told,
        } && workspace_id@ == before.state.workspaces@[ws_idx].public_id@ && Some(told@) == label),
{
    if !created && label is Some {
        assert forall|i: int| 0 <= i < before.events@.len() implies #[trigger] after.events@[i]
            == before.events@[i] by {
            assert(after.events@.drop_last()[i] == before.events@[i]);
        }
    }
}

/// The answer to an attach request tells the workspace, its active tab with that
/// tab's root pane, the session, and whether it was open.
pub proof fn lemma_attach_answer<A>(
    app: App,
    reply: Reply<A>,
    id: String,
    ws_idx: int,
    session: TmuxSession,
    already_open: bool,
)
    requires
        app.tells_attached(reply, id, ws_idx, session, already_open),
    ensures
        reply matches Reply::Success {
            id: to,
            result: ResponseResult::TmuxAttached {
                ws_idx: told,
                tab_idx,
                root_pane,
                session: info,
                already_open: open,
            },
        } && to == id && told == ws_idx && tab_idx == app.state.workspaces@[ws_idx].active_tab
            && root_pane == app.state.workspaces@[ws_idx].tabs@[tab_idx as int].root_pane
            && info.describes(session) && open == already_open && text::optional(
            info.open_workspace_id,
        ) == app.open_workspace_id(session.name@),
{
}

/// A session is attached in the first workspace that shows it, whichever tab is
/// active there, and only where none shows it is a workspace asked for. That one
/// is to run the attach command of the session, in the directory that was asked
/// for before the session's own.
pub proof fn lemma_open_workspace_is_reused<A>(
    app: &mut App,
    id: String,
    params: TmuxAttachParams,
    session: TmuxSession,
    env: Vec<(String, String)>,
    step: AttachStep<A>,
)
    requires
        call_ensures(App::attach_tmux_session::<A>, (app, id, params, session, Ok(env)), step),
    ensures
        match step {
            AttachStep::CreateWorkspace { cwd, focus, argv, env: launch_env, pending } => {
                &&& forall|i: int|
                    0 <= i < old(app).state.workspaces@.len() ==> #[trigger] old(app).shown_session(
                        i,
                    ) != Some(session.name@)
                &&& *final(app) == *old(app)
                &&& text::words(argv@) == seq![
                    "tmux"@,
                    "attach-session"@,
                    "-t"@,
                    "="@ + session.name@,
                ]
                &&& focus == params.focus
                &&& launch_env == env
                &&& params.cwd matches Some(asked) ==> cwd is Some && cwd->0@ == asked@
                &&& params.cwd is None ==> text::optional(cwd) == text::optional(session.path)
                &&& pending.id == id && pending.label == params.label && pending.session == session
            },
            AttachStep::Answer(reply) => {
                &&& !params.focus
                &&& final(app).state.active == old(app).state.active
                &&& reply matches Reply::Success {
                    id: to,
                    result: ResponseResult::TmuxAttached { ws_idx, already_open, .. },
                }
                &&& to == id
                &&& already_open
                &&& old(app).shown_session(ws_idx as int) == Some(session.name@)
                &&& forall|i: int|
                    0 <= i < ws_idx ==> #[trigger] old(app).shown_session(i) != Some(session.name@)
            },
            AttachStep::Focused { ws_idx, reply } => {
                &&& params.focus
                &&& final(app).state.active == Some(ws_idx)
                &&& reply matches Reply::Success {
                    id: to,
                    result: ResponseResult::TmuxAttached { ws_idx: told, already_open, .. },
                }
                &&& to == id
                &&& told == ws_idx
                &&& already_open
                &&& old(app).shown_session(ws_idx as int) == Some(session.name@)
                &&& forall|i: int|
                    0 <= i < ws_idx ==> #[trigger] old(app).shown_session(i) != Some(session.name@)
            },
            _ => false,
        },
{
    old(app).lemma_open_workspace_is_first(session.name@);
    tmux::lemma_attach_command(session.name@);
}

/// A refused environment is answered with its error, and changes nothing.
pub proof fn lemma_refused_env_changes_nothing<A>(
    app: &mut App,
    id: String,
    params: TmuxAttachParams,
    session: TmuxSession,
    error: ErrorBody,
    step: AttachStep<A>,
)
    requires
        call_ensures(App::attach_tmux_session::<A>, (app, id, params, session, Err(error)), step),
    ensures
        *final(app) == *old(app),
        step == AttachStep::<A>::Answer(Reply::Error { id, error }),
{
}

/// A created workspace is labelled, told of and answered as new; one that could
/// not be created changes nothing and is answered with the reason.
pub proof fn lemma_created_workspace_is_answered_as_new<A>(
    app: &mut App,
    pending: PendingAttach,
    created: Result<usize, String>,
    reply: Reply<A>,
)
    requires
        call_ensures(App::tmux_workspace_created::<A>, (app, pending, created), reply),
        created matches Ok(ws_idx) ==> ws_idx < old(app).state.workspaces@.len(),
    ensures
        match created {
            Ok(ws_idx) => {
                &&& reply matches Reply::Success {
                    id,
                    result: ResponseResult::TmuxAttached { ws_idx: told, already_open, .. },
                }
                &&& id == pending.id
                &&& told == ws_idx
                &&& !already_open
                &&& text::optional(final(app).state.workspaces@[ws_idx as int].custom_name) == Some(
                    match pending.label {
                        Some(label) => label@,
                        None => "tmux:"@ + pending.session.name@,
                    },
                )
                &&& final(app).events@ == old(app).events@.push(
                    EventData::WorkspaceOpened { ws_idx },
                )
            },
            Err(reason) => {
                &&& *final(app) == *old(app)
                &&& reply matches Reply::Error { id, error }
                &&& id == pending.id
                &&& error.code@ == "tmux_attach_failed"@
                &&& error.message@ == reason@
            },
        },
{
}

/// An attach request goes on with the first listed session of exactly the asked
/// name, and only where that name is valid.
pub proof fn lemma_listed_session_of_the_name_is_attached<A>(
    id: String,
    params: TmuxAttachParams,
    start: AttachStep<A>,
    sessions: Vec<TmuxSession>,
    step: AttachStep<A>,
)
    requires
        call_ensures(handle_tmux_attach::<A>, (id, params), start),
        call_ensures(choose_tmux_session::<A>, (id, params, Ok(sessions)), step),
    ensures
        start is ListSessions || start is Answer,
        start is ListSessions <==> tmux::session_name_problem(params.session@) is None,
        start matches AttachStep::ListSessions { id: to, params: asked } ==> to == id && asked
            == params,
        start matches AttachStep::Answer(reply) ==> (reply matches Reply::Error { id: to, error }
            && to == id && error.code@ == "invalid_request"@),
        match step {
            AttachStep::NormalizeEnv { id: to, params: asked, session } => {
                &&& to == id
                &&& asked == params
                &&& session.name@ == params.session@
                &&& sessions@.contains(session)
            },
            AttachStep::Answer(reply) => {
                &&& forall|i: int|
                    0 <= i < sessions@.len() ==> (#[trigger] sessions@[i]).name@ != params.session@
                &&& reply matches Reply::Error { id: to, error }
                &&& to == id
                &&& error.code@ == "tmux_session_not_found"@
                &&& error.message@ == "tmux session "@ + params.session@ + " not found"@
            },
            _ => false,
        },
{
    lemma_first_named_is_there(sessions@, params.session@);
}

proof fn lemma_first_named_is_there(sessions: Seq<TmuxSession>, name: Seq<char>)
    ensures
        match first_named(sessions, name) {
            Some(session) => session.name@ == name && sessions.contains(session),
            None => forall|i: int|
                0 <= i < sessions.len() ==> (#[trigger] sessions[i]).name@ != name,
        },
    decreases sessions.len(),
{
    if sessions.len() > 0 {
        let rest = sessions.skip(1);
        lemma_first_named_is_there(rest, name);
        if sessions[0].name@ == name {
            assert(sessions.contains(sessions[0]));
        } else {
            match first_named(rest, name) {
                Some(session) => {
                    let i = choose|i: int| 0 <= i < rest.len() && rest[i] == session;
                    assert(sessions[i + 1] == session);
                },
                None => {
                    assert forall|i: int| 0 <= i < sessions.len() implies (
                    #[trigger] sessions[i]).name@ != name by {
                        if i > 0 {
                            assert(rest[i - 1].name@ != name);
                        }
                    }
                },
            }
        }
    }
}

/// Sessions are listed one for one, each with the workspace that shows it.
pub proof fn lemma_sessions_are_listed_one_for_one<A>(
    app: App,
    id: String,
    sessions: Vec<TmuxSession>,
    reply: Reply<A>,
)
    requires
        call_ensures(App::handle_tmux_list::<A>, (&app, id, Ok(sessions)), reply),
    ensures
        reply matches Reply::Success {
            id: to,
            result: ResponseResult::TmuxSessionList { sessions: infos },
        } && to == id && infos@.len() == sessions@.len() && forall|i: int|
            0 <= i < sessions@.len() ==> {
                &&& (#[trigger] infos@[i]).name@ == sessions@[i].name@
                &&& infos@[i].windows == sessions@[i].windows
                &&& infos@[i].attached == sessions@[i].attached
                &&& infos@[i].created_unix == sessions@[i].created_unix
                &&& text::optional(infos@[i].path) == text::optional(sessions@[i].path)
                &&& text::optional(infos@[i].open_workspace_id) == app.open_workspace_id(
                    sessions@[i].name@,
                )
            },
{
}

/// A new workspace starts in the directory that was asked for exactly where it is
/// one.
pub proof fn lemma_only_directories_are_started_in(
    requested: Option<String>,
    is_directory: bool,
    cwd: Option<String>,
)
    requires
        call_ensures(launch_directory, (requested, is_directory), cwd),
    ensures
        is_directory ==> cwd == requested,
        !is_directory ==> cwd is None,
{
}

/// Which session a workspace shows, and which workspace shows a session, fit
/// together: the one that is found shows it, and none before it does.
pub proof fn lemma_found_workspace_shows_the_session(
    app: App,
    session: &str,
    found: Option<usize>,
    i: usize,
    shown: Option<String>,
)
    requires
        call_ensures(App::open_workspace_idx_for_tmux_session, (&app, session), found),
        call_ensures(App::workspace_tmux_session, (&app, i), shown),
    ensures
        found == Some(i) ==> shown is Some && shown->0@ == session@,
        shown is Some && shown->0@ == session@ ==> found is Some && found->0 <= i,
        shown is Some <==> app.shown_session(i as int) is Some,
        shown matches Some(name) ==> app.shown_session(i as int) == Some(name@),
{
    app.lemma_open_workspace_is_first(session@);
}

} // verus!
