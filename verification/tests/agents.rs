use bytes::Bytes;
use herdr::api::agents::{
    agent_not_found, agent_not_ready, handle_agent_focus, handle_agent_get, handle_agent_list,
    handle_agent_read, handle_agent_rename, handle_agent_start, MoveStep, ReadStep, ReadTask,
    ResolvedAgent, RuntimeProbe, TerminalSnapshot,
};
use herdr::api::explain::{agent_explained, ExplainStep};
use herdr::api::keys::{keys_sent, KeysStep};
use herdr::panel::{arrange, move_id};
use herdr::schema::{
    AgentMoveParams, AgentReadParams, AgentSendKeysParams, ErrorBody, EventData, Reply,
    ResponseResult,
};
use herdr::state::{
    Agent, AgentPanelSort, AgentState, App, AppState, Pane, PaneSpelling, PanelEntry, Tab,
    Terminal, Workspace,
};
use std::collections::HashMap;

const ROOT_PANE: u64 = 1;

fn terminal(agent: Option<Agent>) -> Terminal {
    Terminal {
        launch_argv: None,
        state: AgentState::Idle,
        state_label: "idle".to_string(),
        known_agent: agent,
        detected_agent: agent,
        agent_label: None,
        launch_pending: false,
        reports_lifecycle: false,
    }
}

fn workspace(label: &str, terminal_id: u64) -> Workspace {
    let pane = Pane {
        attached_terminal_id: terminal_id,
        public_id: Some(format!("{label}:p1")),
    };
    Workspace {
        public_id: label.to_string(),
        custom_name: None,
        tabs: vec![Tab {
            root_pane: ROOT_PANE,
            panes: HashMap::from([(ROOT_PANE, pane)]),
            public_id: Some(format!("{label}:t1")),
        }],
        active_tab: 0,
    }
}

/// Lists the root pane of every workspace, under its public id.
fn refresh_rows(app: &mut App) {
    app.state.agent_rows = (0..app.state.workspaces.len())
        .map(|ws_idx| PanelEntry { ws_idx, pane_id: ROOT_PANE })
        .collect();
    app.state.pane_spellings = app
        .state
        .agent_rows
        .iter()
        .map(|row| PaneSpelling {
            spelling: app.public_pane_id(row.ws_idx, row.pane_id).unwrap(),
            ws_idx: row.ws_idx,
            pane_id: row.pane_id,
        })
        .collect();
}

fn app_with_agent_rows(labels: &[&str]) -> App {
    let mut app = App {
        state: AppState {
            workspaces: Vec::new(),
            terminals: HashMap::new(),
            pane_spellings: Vec::new(),
            active: Some(0),
            agent_rows: Vec::new(),
            agent_panel_sort: AgentPanelSort::Spaces,
            agent_user_order: Vec::new(),
            session_dirty: false,
        },
        events: Vec::new(),
    };
    for (ws_idx, label) in labels.iter().enumerate() {
        app.state.workspaces.push(workspace(label, ws_idx as u64));
        app.state.terminals.insert(ws_idx as u64, terminal(Some(Agent::Codex)));
    }
    refresh_rows(&mut app);
    app
}

fn move_agent(app: &mut App, params: AgentMoveParams) -> Reply<String> {
    match app.handle_agent_move("req".into(), params) {
        MoveStep::Answer(reply) => reply,
        MoveStep::ListAgents { id } => handle_agent_list(id, app.agent_panel_pane_ids()),
    }
}

fn error_of(reply: Reply<String>) -> (String, String) {
    match reply {
        Reply::Error { id, error } => {
            assert_eq!(id, "req");
            (error.code, error.message)
        }
        Reply::Success { .. } => panic!("expected an error"),
    }
}

fn result_of(reply: Reply<String>) -> ResponseResult<String> {
    match reply {
        Reply::Success { id, result } => {
            assert_eq!(id, "req");
            result
        }
        Reply::Error { error, .. } => panic!("expected a success, got {error:?}"),
    }
}

fn at_root() -> Result<ResolvedAgent, ErrorBody> {
    Ok(ResolvedAgent { ws_idx: 0, tab_idx: 0, pane_id: ROOT_PANE })
}

fn no_target() -> ErrorBody {
    ErrorBody { code: "agent_not_found".into(), message: "no such agent".into() }
}

#[test]
fn agent_move_reorders_rows_and_selects_the_user_defined_sort() {
    let mut app = app_with_agent_rows(&["one", "two", "three"]);
    let rows = app.agent_panel_pane_ids();
    assert_eq!(rows.len(), 3, "each workspace contributes one agent row");

    let response = move_agent(
        &mut app,
        AgentMoveParams {
            pane_id: rows[0].clone(),
            before_pane_id: Some(rows[2].clone()),
        },
    );

    assert!(matches!(result_of(response), ResponseResult::AgentList { .. }));
    assert_eq!(app.state.agent_panel_sort, AgentPanelSort::UserOrdered);
    let expected = vec![rows[1].clone(), rows[0].clone(), rows[2].clone()];
    assert_eq!(app.state.agent_user_order, expected);
    // The projection the endpoint sends clients must agree with the stored order.
    assert_eq!(app.agent_panel_pane_ids(), expected);
    assert!(app.events.iter().any(|event| {
        matches!(event, EventData::AgentReordered { pane_ids } if pane_ids == &expected)
    }));
    assert!(app.state.session_dirty);
}

#[test]
fn agent_move_without_before_pane_moves_to_the_end() {
    let mut app = app_with_agent_rows(&["one", "two", "three"]);
    let rows = app.agent_panel_pane_ids();

    move_agent(
        &mut app,
        AgentMoveParams {
            pane_id: rows[0].clone(),
            before_pane_id: None,
        },
    );

    assert_eq!(
        app.agent_panel_pane_ids(),
        vec![rows[1].clone(), rows[2].clone(), rows[0].clone()]
    );
}

#[test]
fn agent_move_rejects_unknown_and_self_referential_targets() {
    let mut app = app_with_agent_rows(&["one", "two"]);
    let rows = app.agent_panel_pane_ids();

    for params in [
        AgentMoveParams {
            pane_id: "nope:p1".into(),
            before_pane_id: None,
        },
        AgentMoveParams {
            pane_id: rows[0].clone(),
            before_pane_id: Some("nope:p1".into()),
        },
        AgentMoveParams {
            pane_id: rows[0].clone(),
            before_pane_id: Some(rows[0].clone()),
        },
    ] {
        let response = move_agent(&mut app, params);
        assert!(
            matches!(response, Reply::Error { .. }),
            "expected an error response, got {response:?}"
        );
    }
    assert!(app.state.agent_user_order.is_empty());
    assert_eq!(app.state.agent_panel_sort, AgentPanelSort::Spaces);
}

#[test]
fn agent_user_order_survives_a_closed_pane() {
    let mut app = app_with_agent_rows(&["one", "two", "three"]);
    let rows = app.agent_panel_pane_ids();
    move_agent(
        &mut app,
        AgentMoveParams {
            pane_id: rows[2].clone(),
            before_pane_id: Some(rows[0].clone()),
        },
    );
    assert_eq!(app.agent_panel_pane_ids()[0], rows[2]);

    // Dropping the middle workspace leaves a stale id in the stored order.
    app.state.workspaces.remove(1);
    app.state.active = Some(0);
    refresh_rows(&mut app);

    assert_eq!(
        app.agent_panel_pane_ids(),
        vec![rows[2].clone(), rows[0].clone()],
        "a stale id must not strand the remaining order"
    );
}

#[test]
fn every_agent_move_reaches_attached_clients() {
    let mut app = app_with_agent_rows(&["one", "two", "three"]);
    let order = app.agent_panel_pane_ids();
    assert_eq!(order.len(), 3, "three agent rows: {order:?}");

    // First move: the panel leaves its derived order.
    let to_end = AgentMoveParams { pane_id: order[0].clone(), before_pane_id: None };
    move_agent(&mut app, to_end.clone());
    assert_eq!(
        app.agent_panel_pane_ids(),
        vec![order[1].clone(), order[2].clone(), order[0].clone()]
    );
    assert_eq!(app.events.len(), 1);

    // Second move: already user-ordered, so only the order itself changes.
    let to_front = AgentMoveParams {
        pane_id: order[0].clone(),
        before_pane_id: Some(order[1].clone()),
    };
    move_agent(&mut app, to_front.clone());
    assert_eq!(
        app.agent_panel_pane_ids(),
        vec![order[0].clone(), order[1].clone(), order[2].clone()],
        "the second reorder must reach attached clients"
    );
    assert_eq!(app.events.len(), 2);

    // The same move again changes nothing and is not told.
    app.state.session_dirty = false;
    move_agent(&mut app, to_front);
    assert_eq!(app.agent_panel_pane_ids(), order);
    assert_eq!(app.events.len(), 2);
    assert!(!app.state.session_dirty);
}

#[test]
fn the_same_move_is_settled_where_rows_repeat() {
    let mut app = app_with_agent_rows(&["x", "y", "id"]);
    let row = |ws_idx| PanelEntry { ws_idx, pane_id: ROOT_PANE };
    app.state.agent_rows = vec![row(0), row(1), row(0), row(2), row(2)];
    let params = AgentMoveParams {
        pane_id: "id:p1".into(),
        before_pane_id: Some("y:p1".into()),
    };
    move_agent(&mut app, params.clone());
    let stored = app.state.agent_user_order.clone();
    assert_eq!(stored, vec!["x:p1", "id:p1", "y:p1", "x:p1"]);
    assert_eq!(app.events.len(), 1);
    app.state.session_dirty = false;

    assert!(matches!(result_of(move_agent(&mut app, params)), ResponseResult::AgentList { .. }));
    assert_eq!(app.state.agent_user_order, stored);
    assert_eq!(app.state.agent_panel_sort, AgentPanelSort::UserOrdered);
    assert_eq!(app.events.len(), 1);
    assert!(!app.state.session_dirty);
}

#[test]
fn refused_moves_say_why() {
    let mut app = app_with_agent_rows(&["one", "two"]);
    let unknown = AgentMoveParams { pane_id: "nope".into(), before_pane_id: None };
    assert_eq!(
        error_of(move_agent(&mut app, unknown)),
        ("pane_not_found".into(), "pane nope not found".into())
    );
    let before_unknown = AgentMoveParams {
        pane_id: "one:p1".into(),
        before_pane_id: Some("nope".into()),
    };
    assert_eq!(
        error_of(move_agent(&mut app, before_unknown)),
        ("pane_not_found".into(), "pane nope not found".into())
    );
    let before_itself = AgentMoveParams {
        pane_id: "one:p1".into(),
        before_pane_id: Some("one:p1".into()),
    };
    assert_eq!(
        error_of(move_agent(&mut app, before_itself)),
        (
            "agent_move_failed".into(),
            "before_pane_id must not be the moved pane".into()
        )
    );
}

#[test]
fn panes_are_accepted_under_other_spellings_if_the_panel_lists_them() {
    let mut app = app_with_agent_rows(&["one", "two"]);
    app.state.pane_spellings.push(PaneSpelling {
        spelling: "second".into(),
        ws_idx: 1,
        pane_id: ROOT_PANE,
    });
    assert_eq!(app.resolve_agent_panel_pane_id("second").as_deref(), Some("two:p1"));
    assert_eq!(app.resolve_agent_panel_pane_id("third"), None);
    assert_eq!(app.parse_pane_id("second"), Some((1, ROOT_PANE)));
    let resolved = app.resolve_agent_panel_pane_id("second").unwrap();
    assert_eq!(
        app.resolve_agent_panel_pane_id(&resolved),
        Some(resolved),
        "a resolved id resolves to itself"
    );
    app.state.pane_spellings.clear();
    assert_eq!(
        app.resolve_agent_panel_pane_id("two:p1").as_deref(),
        Some("two:p1"),
        "the id of a row needs no listed spelling"
    );
    assert_eq!(app.resolve_agent_panel_pane_id("second"), None);
    app.state.pane_spellings.push(PaneSpelling {
        spelling: "second".into(),
        ws_idx: 1,
        pane_id: ROOT_PANE,
    });
    app.state.agent_rows.pop();
    assert_eq!(app.parse_pane_id("second"), Some((1, ROOT_PANE)));
    assert_eq!(app.resolve_agent_panel_pane_id("second"), None, "a pane without a row");
}

#[test]
fn rows_are_arranged_without_loss() {
    let ids = |words: &[&str]| words.iter().map(|word| word.to_string()).collect::<Vec<_>>();
    assert_eq!(
        arrange(&ids(&["a", "b", "c", "d"]), &ids(&["c", "gone", "a", "c"])),
        ids(&["c", "a", "b", "d"])
    );
    assert_eq!(
        arrange(&ids(&["a", "b", "a", "c"]), &ids(&["c", "a"])),
        ids(&["c", "a", "b", "a"])
    );
    assert_eq!(arrange(&ids(&["a", "b"]), &ids(&[])), ids(&["a", "b"]));
    assert_eq!(arrange(&ids(&["a", "b"]), &ids(&["b", "a"])), ids(&["b", "a"]));
    assert_eq!(move_id(&ids(&["a", "b", "c"]), "c", Some("a")), ids(&["c", "a", "b"]));
    assert_eq!(move_id(&ids(&["a", "b", "c"]), "a", None), ids(&["b", "c", "a"]));
    assert_eq!(move_id(&ids(&["a", "b", "c"]), "a", Some("gone")), ids(&["b", "c", "a"]));
}

#[test]
fn found_agents_are_answered() {
    let agent = || Ok::<String, ErrorBody>("builder".to_string());
    for reply in [
        handle_agent_get("req".into(), agent()),
        handle_agent_focus("req".into(), agent()),
        handle_agent_rename("req".into(), agent()),
    ] {
        let ResponseResult::AgentInfo { agent } = result_of(reply) else {
            panic!("expected agent info response");
        };
        assert_eq!(agent, "builder");
    }
    for reply in [
        handle_agent_get("req".into(), Err(no_target())),
        handle_agent_focus("req".into(), Err(no_target())),
        handle_agent_rename("req".into(), Err(no_target())),
        handle_agent_start("req".into(), Err(no_target())),
    ] {
        assert_eq!(error_of(reply), ("agent_not_found".into(), "no such agent".into()));
    }
    let started = handle_agent_start(
        "req".into(),
        Ok(("builder".to_string(), vec!["codex".to_string()])),
    );
    let ResponseResult::AgentStarted { agent, argv } = result_of(started) else {
        panic!("expected agent started response");
    };
    assert_eq!((agent.as_str(), argv.len()), ("builder", 1));
}

#[test]
fn missing_agents_are_answered() {
    assert_eq!(
        error_of(agent_not_found("req".into(), "x")),
        ("agent_not_found".into(), "agent target x not found".into())
    );
    assert_eq!(
        error_of(agent_not_ready("req".into(), "x")),
        ("agent_not_ready".into(), "agent x is not an active named agent".into())
    );
}

fn read_params() -> AgentReadParams {
    AgentReadParams {
        target: "builder".into(),
        source: "visible".into(),
        format: "text".into(),
        lines: Some(3),
    }
}

fn snapshot() -> TerminalSnapshot {
    TerminalSnapshot {
        workspace_id: "one".into(),
        text: "screen".into(),
        truncated: true,
    }
}

fn read_task() -> ReadTask {
    match handle_agent_read::<String>("req".into(), read_params(), at_root()) {
        ReadStep::ReadTerminal { task } => task,
        ReadStep::Answer(reply) => panic!("expected the terminal to be asked for, got {reply:?}"),
    }
}

#[test]
fn reading_answers_with_the_snapshot() {
    let mut app = app_with_agent_rows(&["one"]);
    let reply = app.terminal_read(read_task(), Some(snapshot()));
    let ResponseResult::PaneRead { read } = result_of(reply) else {
        panic!("expected pane read response");
    };
    assert_eq!(read.pane_id, "one:p1");
    assert_eq!(read.workspace_id, "one");
    assert_eq!(read.tab_id, "one:t1");
    assert_eq!(read.source, "visible");
    assert_eq!(read.format, "text");
    assert_eq!(read.text, "screen");
    assert_eq!(read.revision, 0);
    assert!(read.truncated);

    app.state.workspaces[0].tabs[0].panes.get_mut(&ROOT_PANE).unwrap().public_id = None;
    let reply = app.terminal_read(read_task(), Some(snapshot()));
    let ResponseResult::PaneRead { read } = result_of(reply) else {
        panic!("expected pane read response");
    };
    assert_eq!(read.pane_id, "builder", "the target stands in for a missing id");
}

#[test]
fn reading_needs_a_target_with_a_terminal() {
    let app = app_with_agent_rows(&["one"]);
    let ReadStep::Answer(reply) =
        handle_agent_read("req".into(), read_params(), Err(no_target()))
    else {
        panic!("expected an answer");
    };
    assert_eq!(error_of(reply).1, "no such agent");
    assert_eq!(
        error_of(app.terminal_read(read_task(), None)),
        ("agent_not_found".into(), "agent target builder not found".into())
    );
    let task = read_task();
    assert_eq!((task.agent.ws_idx, task.agent.pane_id), (0, ROOT_PANE));
    assert_eq!(task.params, read_params());
}

fn explain(app: &App, has_runtime: bool) -> ExplainStep<String> {
    app.handle_agent_explain("req".into(), "builder".into(), at_root(), has_runtime)
}

fn answered(step: ExplainStep<String>) -> Reply<String> {
    match step {
        ExplainStep::Answer(reply) => reply,
        ExplainStep::InspectScreen { .. } => panic!("expected an answer"),
    }
}

#[test]
fn self_reporting_agents_are_explained_without_their_screen() {
    let mut app = app_with_agent_rows(&["one"]);
    let terminal = app.state.terminals.get_mut(&0).unwrap();
    terminal.reports_lifecycle = true;
    terminal.state_label = "working".into();
    terminal.agent_label = Some("pi".into());

    let reply = answered(explain(&app, true));
    let ResponseResult::AgentExplain { explain: value } = result_of(reply) else {
        panic!("expected agent explain response");
    };
    let members = value.as_object().unwrap();
    assert_eq!(members.len(), 19);
    assert_eq!(value["agent"], "pi");
    assert_eq!(value["state"], "working");
    assert_eq!(value["screen_detection_skipped"], true);
    assert_eq!(value["screen_detection_skip_reason"], "full_lifecycle_hook_authority");
    for name in [
        "local_override_shadowing_remote",
        "visible_idle",
        "visible_blocker",
        "visible_working",
        "skip_state_update",
    ] {
        assert_eq!(value[name], false, "{name}");
    }
    for name in [
        "manifest_source",
        "manifest_version",
        "cached_remote_version",
        "remote_update_status",
        "remote_update_error",
        "matched_rule",
        "skipped_update_reason",
        "fallback_reason",
        "warning",
    ] {
        assert!(members[name].is_null(), "{name}");
    }
    assert_eq!(members["evaluated_rules"].as_array().map(|rules| rules.len()), Some(0));

    app.state.terminals.get_mut(&0).unwrap().agent_label = None;
    let ResponseResult::AgentExplain { explain: value } = result_of(answered(explain(&app, true)))
    else {
        panic!("expected agent explain response");
    };
    assert_eq!(value["agent"], "unknown");
}

#[test]
fn other_agents_are_explained_from_their_screen() {
    let mut app = app_with_agent_rows(&["one"]);
    assert!(matches!(
        explain(&app, true),
        ExplainStep::InspectScreen { agent: Agent::Codex, .. }
    ));
    let terminal = app.state.terminals.get_mut(&0).unwrap();
    terminal.known_agent = None;
    terminal.detected_agent = Some(Agent::Pi);
    assert!(matches!(
        explain(&app, true),
        ExplainStep::InspectScreen { agent: Agent::Pi, .. }
    ));
    app.state.terminals.get_mut(&0).unwrap().detected_agent = None;
    assert_eq!(
        error_of(answered(explain(&app, true))),
        (
            "agent_explain_unavailable".into(),
            "agent target builder does not have a detected agent label".into()
        )
    );
    let reply: Reply<String> = agent_explained("req".into(), serde_json::Value::Bool(true));
    let ResponseResult::AgentExplain { explain } = result_of(reply) else {
        panic!("expected agent explain response");
    };
    assert_eq!(explain, true);
}

#[test]
fn explaining_needs_a_running_terminal() {
    let mut app = app_with_agent_rows(&["one"]);
    let not_found = ("agent_not_found".to_string(), "agent target builder not found".to_string());
    assert_eq!(error_of(answered(explain(&app, false))), not_found);
    app.state.terminals.clear();
    assert_eq!(error_of(answered(explain(&app, true))), not_found);
    app.state.workspaces.clear();
    assert_eq!(error_of(answered(explain(&app, true))), not_found);
    let unresolved: ExplainStep<String> =
        app.handle_agent_explain("req".into(), "x".into(), Err(no_target()), true);
    assert_eq!(error_of(answered(unresolved)).1, "no such agent");
}

/// Sends the keys to a terminal that knows `up` and `enter`. Returns what the
/// terminal was sent, with the answer.
fn send_keys(app: &App, keys: &[&str], probe: RuntimeProbe) -> (Vec<Bytes>, Reply<String>) {
    let mut sent = Vec::new();
    let params = AgentSendKeysParams {
        target: "builder".into(),
        keys: keys.iter().map(|key| key.to_string()).collect(),
    };
    let mut step = app.handle_agent_send_keys("req".into(), params, at_root());
    loop {
        step = match step {
            KeysStep::Answer(reply) => return (sent, reply),
            KeysStep::ProbeRuntime { task } => {
                assert_eq!((task.ws_idx, task.pane_id), (0, ROOT_PANE));
                task.runtime_probed(probe)
            }
            KeysStep::EncodeKeys { task } => {
                let encoded = task
                    .params
                    .keys
                    .iter()
                    .map(|key| match key.as_str() {
                        "up" => Ok(b"\x1b[A".to_vec()),
                        "enter" => Ok(b"\r".to_vec()),
                        other => Err(other.to_string()),
                    })
                    .collect::<Result<Vec<_>, _>>();
                task.keys_encoded(encoded)
            }
            KeysStep::SendBytes { bytes, task } => {
                sent.push(bytes);
                KeysStep::Answer(keys_sent(task.id, Ok(())))
            }
        }
    }
}

#[test]
fn agent_send_keys_validates_every_key_before_writing() {
    let mut app = app_with_agent_rows(&["one"]);
    app.state.terminals.insert(0, terminal(Some(Agent::Pi)));

    let (sent, rejected) = send_keys(&app, &["enter", "not-a-key"], RuntimeProbe::HostsAgent);
    let (code, message) = error_of(rejected);
    assert_eq!(code, "invalid_key");
    assert_eq!(message, "unsupported key not-a-key");
    assert!(sent.is_empty());

    let (sent, reply) = send_keys(&app, &["up", "enter"], RuntimeProbe::HostsAgent);
    assert!(matches!(result_of(reply), ResponseResult::Acknowledged));
    assert_eq!(sent, vec![Bytes::from_static(b"\x1b[A\r")]);
}

#[test]
fn keys_need_an_active_agent() {
    let mut app = app_with_agent_rows(&["one"]);
    let not_ready = "agent builder is not an active named agent";
    let not_found = "agent target builder not found";
    let refused = |app: &App, probe| {
        let (sent, reply) = send_keys(app, &["up"], probe);
        assert!(sent.is_empty());
        error_of(reply).1
    };
    assert_eq!(refused(&app, RuntimeProbe::Missing), not_found);
    assert_eq!(refused(&app, RuntimeProbe::OtherProcess), not_ready);
    app.state.terminals.get_mut(&0).unwrap().known_agent = None;
    assert_eq!(refused(&app, RuntimeProbe::HostsAgent), not_ready);
    app.state.terminals.clear();
    assert_eq!(refused(&app, RuntimeProbe::HostsAgent), not_ready);
    app.state.workspaces.clear();
    assert_eq!(refused(&app, RuntimeProbe::HostsAgent), not_found);

    let params = AgentSendKeysParams { target: "x".into(), keys: Vec::new() };
    let KeysStep::Answer(reply) =
        app.handle_agent_send_keys::<String>("req".into(), params, Err(no_target()))
    else {
        panic!("expected an answer");
    };
    assert_eq!(error_of(reply).1, "no such agent");
    assert_eq!(
        error_of(keys_sent("req".into(), Err("closed".into()))),
        ("agent_send_keys_failed".into(), "closed".into())
    );
}
