use herdr::api::tmux::{choose_tmux_session, handle_tmux_attach, launch_directory, AttachStep};
use herdr::schema::{
    ErrorBody, EventData, LaunchEnv, Reply, ResponseResult, TmuxAttachParams, TmuxSessionInfo,
};
use herdr::state::{
    AgentPanelSort, AgentState, App, AppState, Pane, Tab, Terminal, Workspace,
};
use herdr::tmux::{attach_argv, TmuxError, TmuxSession};
use std::collections::HashMap;

fn test_app() -> App {
    let mut app = App {
        state: AppState {
            workspaces: Vec::new(),
            terminals: HashMap::new(),
            pane_spellings: Vec::new(),
            active: Some(0),
            agent_rows: Vec::new(),
            agent_panel_sort: AgentPanelSort::Spaces,
            agent_user_order: Vec::new(),
            session_dirty: false,
        },
        events: Vec::new(),
    };
    open_workspace(&mut app, None, false);
    app
}

/// Opens a workspace that runs `argv`, as the caller of the library does.
fn open_workspace(app: &mut App, argv: Option<Vec<String>>, focus: bool) -> usize {
    let ws_idx = app.state.workspaces.len();
    let terminal_id = 100 + ws_idx as u64;
    let root_pane = 10 + ws_idx as u64;
    let pane = Pane { attached_terminal_id: terminal_id, public_id: None };
    app.state.terminals.insert(
        terminal_id,
        Terminal {
            launch_argv: argv,
            state: AgentState::Unknown,
            state_label: "unknown".into(),
            known_agent: None,
            detected_agent: None,
            agent_label: None,
            launch_pending: false,
            reports_lifecycle: false,
        },
    );
    app.state.workspaces.push(Workspace {
        public_id: format!("w{}", ws_idx + 1),
        custom_name: None,
        tabs: vec![Tab {
            root_pane,
            panes: HashMap::from([(root_pane, pane)]),
            public_id: None,
        }],
        active_tab: 0,
    });
    if focus {
        app.state.active = Some(ws_idx);
    }
    ws_idx
}

fn params(session: &str, focus: bool) -> TmuxAttachParams {
    TmuxAttachParams {
        session: session.into(),
        focus,
        label: None,
        cwd: None,
        env: LaunchEnv::new(),
    }
}

fn session(name: &str) -> TmuxSession {
    TmuxSession {
        name: name.into(),
        windows: 2,
        attached: 0,
        created_unix: Some(1),
        path: Some("/tmp".into()),
    }
}

struct Attached {
    ws_idx: usize,
    root_pane: u64,
    session: TmuxSessionInfo,
    already_open: bool,
    /// Where the workspace was asked to start.
    cwd: Option<String>,
}

fn attach(app: &mut App, params: TmuxAttachParams, session: TmuxSession) -> Attached {
    let step: AttachStep<String> =
        app.attach_tmux_session("req".into(), params, session, Ok(Vec::new()));
    let (reply, cwd) = match step {
        AttachStep::Answer(reply) => (reply, None),
        AttachStep::Focused { ws_idx, reply } => {
            assert_eq!(app.state.active, Some(ws_idx));
            (reply, None)
        }
        AttachStep::CreateWorkspace { cwd, focus, argv, pending, .. } => {
            let ws_idx = open_workspace(app, Some(argv), focus);
            (app.tmux_workspace_created(pending, Ok(ws_idx)), cwd)
        }
        other => panic!("unexpected step {other:?}"),
    };
    match reply {
        Reply::Success {
            id,
            result: ResponseResult::TmuxAttached { ws_idx, tab_idx, root_pane, session, already_open },
        } => {
            assert_eq!(id, "req");
            assert_eq!(tab_idx, 0);
            Attached { ws_idx, root_pane, session, already_open, cwd }
        }
        other => panic!("expected tmux attached response, got {other:?}"),
    }
}

fn error_of(step: AttachStep<String>) -> (String, String) {
    match step {
        AttachStep::Answer(Reply::Error { id, error }) => {
            assert_eq!(id, "req");
            (error.code, error.message)
        }
        other => panic!("expected an error, got {other:?}"),
    }
}

#[test]
fn attach_creates_workspace_with_tmux_launch_argv_and_default_label() {
    let mut app = test_app();

    let attached = attach(&mut app, params("api", false), session("api"));

    assert!(!attached.already_open);
    let workspace = &app.state.workspaces[attached.ws_idx];
    assert_eq!(workspace.custom_name.as_deref(), Some("tmux:api"));
    assert_eq!(app.workspace_tmux_session(attached.ws_idx).as_deref(), Some("api"));
    assert_eq!(
        attached.session.open_workspace_id.as_deref(),
        Some(workspace.public_id.as_str())
    );
    assert_eq!(app.state.workspaces.len(), 2);
    assert_eq!(app.workspace_tmux_session(1).as_deref(), Some("api"));
    let root = app.state.workspaces[1].tabs[0].root_pane;
    assert_eq!(attached.root_pane, root);
    let terminal_id = app.state.workspaces[1].terminal_id(root).unwrap();
    let terminal = &app.state.terminals[&terminal_id];
    assert_eq!(
        terminal.launch_argv.as_deref(),
        Some(attach_argv("api").as_slice())
    );
    assert_eq!(app.state.active, Some(0), "no-focus attach keeps focus");
    assert_eq!(app.events, vec![EventData::WorkspaceOpened { ws_idx: 1 }]);
    assert!(app.state.session_dirty);
    assert_eq!(attached.cwd.as_deref(), Some("/tmp"), "the session's own directory");
}

#[test]
fn attach_reuses_open_workspace_for_same_session() {
    let mut app = test_app();
    let first = attach(&mut app, params("api", false), session("api"));

    let second = attach(&mut app, params("api", true), session("api"));

    assert!(second.already_open);
    assert_eq!(second.ws_idx, first.ws_idx);
    assert_eq!(app.state.workspaces.len(), 2);
    assert_eq!(app.state.active, Some(1), "focus attach switches workspace");
    assert_eq!(app.events.len(), 1, "a reused workspace without a label is not told of");
    assert_eq!(app.state.workspaces[1].custom_name.as_deref(), Some("tmux:api"));
}

#[test]
fn attach_honors_custom_label_and_cwd() {
    let mut app = test_app();
    let mut params = params("batch", false);
    params.label = Some("jobs".into());
    params.cwd = Some("/tmp/herdr-tmux-cwd".into());

    let attached = attach(&mut app, params, session("batch"));

    assert_eq!(app.state.workspaces[attached.ws_idx].custom_name.as_deref(), Some("jobs"));
    assert_eq!(attached.cwd.as_deref(), Some("/tmp/herdr-tmux-cwd"));
}

#[test]
fn handle_tmux_attach_rejects_invalid_session_names() {
    let app = test_app();
    let response = handle_tmux_attach("req".into(), params("a:b", false));
    let (code, message) = error_of(response);
    assert_eq!(code, "invalid_request");
    assert_eq!(message, "tmux session name must not contain ':' or '.'");
    assert_eq!(app.state.workspaces.len(), 1);
}

#[test]
fn a_label_for_a_reused_workspace_is_told() {
    let mut app = test_app();
    attach(&mut app, params("api", false), session("api"));
    app.events.clear();
    app.state.session_dirty = false;
    let mut again = params("api", false);
    again.label = Some("renamed".into());

    let attached = attach(&mut app, again, session("api"));

    assert!(attached.already_open);
    assert_eq!(app.state.active, Some(0));
    assert_eq!(app.state.workspaces[1].custom_name.as_deref(), Some("renamed"));
    assert_eq!(
        app.events,
        vec![EventData::WorkspaceRenamed {
            workspace_id: "w2".into(),
            label: "renamed".into(),
        }]
    );
    assert!(app.state.session_dirty);
}

#[test]
fn attach_asks_for_the_listed_session() {
    let AttachStep::ListSessions { id, params } =
        handle_tmux_attach::<String>("req".into(), params("api", true))
    else {
        panic!("expected the sessions to be asked for");
    };
    assert_eq!(id, "req");
    let mut second = session("api");
    second.windows = 9;
    let listed = Ok(vec![session("other"), session("api"), second]);
    let AttachStep::NormalizeEnv { params, session, .. } =
        choose_tmux_session::<String>(id, params, listed)
    else {
        panic!("expected the environment to be asked for");
    };
    assert!(params.focus);
    assert_eq!((session.name.as_str(), session.windows), ("api", 2), "the first of that name");
}

#[test]
fn attach_tells_why_no_session_was_chosen() {
    let choose = |listed| error_of(choose_tmux_session("req".into(), params("api", true), listed));
    assert_eq!(
        choose(Ok(vec![session("other")])),
        ("tmux_session_not_found".into(), "tmux session api not found".into())
    );
    assert_eq!(
        choose(Err(TmuxError::Unavailable("gone".into()))),
        ("tmux_unavailable".into(), "tmux is not available: gone".into())
    );
    assert_eq!(
        choose(Err(TmuxError::Failed("bad".into()))),
        ("tmux_failed".into(), "tmux command failed: bad".into())
    );
}

#[test]
fn attach_tells_why_no_workspace_was_opened() {
    let mut app = test_app();
    let bad_env = ErrorBody { code: "invalid_env".into(), message: "bad name".into() };
    let step =
        app.attach_tmux_session("req".into(), params("api", true), session("api"), Err(bad_env));
    assert_eq!(error_of(step), ("invalid_env".into(), "bad name".into()));

    let env = vec![("A".to_string(), "1".to_string())];
    let step: AttachStep<String> =
        app.attach_tmux_session("req".into(), params("api", true), session("api"), Ok(env.clone()));
    let AttachStep::CreateWorkspace { focus, argv, env: launch_env, pending, .. } = step else {
        panic!("expected a workspace to be asked for");
    };
    assert!(focus);
    assert_eq!(argv, attach_argv("api"));
    assert_eq!(launch_env, env);
    let reply = app.tmux_workspace_created(pending, Err("spawn failed".into()));
    assert_eq!(
        error_of(AttachStep::Answer(reply)),
        ("tmux_attach_failed".into(), "spawn failed".into())
    );
    assert_eq!(app.state.workspaces.len(), 1);
    assert!(app.events.is_empty());
    assert!(!app.state.session_dirty);
}

#[test]
fn only_directories_are_launched_in() {
    assert_eq!(launch_directory(Some("/tmp".into()), true).as_deref(), Some("/tmp"));
    assert_eq!(launch_directory(Some("/tmp".into()), false), None);
    assert_eq!(launch_directory(None, true), None);
}

#[test]
fn listed_sessions_name_their_workspaces() {
    let mut app = test_app();
    attach(&mut app, params("api", false), session("api"));
    let reply: Reply<String> =
        app.handle_tmux_list("req".into(), Ok(vec![session("batch"), session("api")]));
    let Reply::Success { id, result: ResponseResult::TmuxSessionList { sessions } } = reply else {
        panic!("expected tmux session list response");
    };
    assert_eq!(id, "req");
    assert_eq!(sessions.len(), 2);
    assert_eq!(
        sessions[0],
        TmuxSessionInfo {
            name: "batch".into(),
            windows: 2,
            attached: 0,
            created_unix: Some(1),
            path: Some("/tmp".into()),
            open_workspace_id: None,
        }
    );
    assert_eq!(sessions[1].open_workspace_id.as_deref(), Some("w2"));

    let failed: Reply<String> =
        app.handle_tmux_list("req".into(), Err(TmuxError::Failed("bad".into())));
    assert_eq!(
        error_of(AttachStep::Answer(failed)),
        ("tmux_failed".into(), "tmux command failed: bad".into())
    );
    let unavailable: Reply<String> =
        app.handle_tmux_list("req".into(), Err(TmuxError::Unavailable("gone".into())));
    assert_eq!(error_of(AttachStep::Answer(unavailable)).0, "tmux_unavailable");
}

#[test]
fn the_first_workspace_of_a_session_is_found() {
    let mut app = test_app();
    open_workspace(&mut app, Some(attach_argv("api")), false);
    open_workspace(&mut app, Some(attach_argv("api")), false);
    open_workspace(&mut app, Some(vec!["bash".to_string()]), false);
    assert_eq!(app.open_workspace_idx_for_tmux_session("api"), Some(1));
    assert_eq!(app.open_workspace_idx_for_tmux_session("ap"), None);
    assert_eq!(app.workspace_tmux_session(3), None);
    assert_eq!(app.workspace_tmux_session(9), None);
    app.state.workspaces[1].tabs.clear();
    assert_eq!(app.open_workspace_idx_for_tmux_session("api"), Some(2));
}
