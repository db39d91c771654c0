use bytes::Bytes;
use herdr::api::agents::{ResolvedAgent, RuntimeProbe};
use herdr::api::prompt::{
    append_codex_paste_boundary, handle_deferred_agent_api_request, prompt_response,
    submission_queued, PromptStep, Submission, AGENT_PROMPT_SUBMIT_DELAY_MS,
};
use herdr::schema::{
    AgentPromptParams, ErrorBody, Method, PromptWait, Reply, Request, ResponseResult,
};
use herdr::state::{
    Agent, AgentPanelSort, AgentState, App, AppState, Pane, Tab, Terminal, Workspace,
};
use std::collections::HashMap;

const ROOT_PANE: u64 = 1;

fn app_with_agent(agent: Agent, state: AgentState) -> App {
    let terminal = Terminal {
        launch_argv: None,
        state,
        state_label: "idle".to_string(),
        known_agent: Some(agent),
        detected_agent: Some(agent),
        agent_label: None,
        launch_pending: false,
        reports_lifecycle: false,
    };
    let pane = Pane { attached_terminal_id: 7, public_id: Some("agent:p1".into()) };
    let workspace = Workspace {
        public_id: "agent".to_string(),
        custom_name: None,
        tabs: vec![Tab {
            root_pane: ROOT_PANE,
            panes: HashMap::from([(ROOT_PANE, pane)]),
            public_id: Some("agent:t1".into()),
        }],
        active_tab: 0,
    };
    App {
        state: AppState {
            workspaces: vec![workspace],
            terminals: HashMap::from([(7, terminal)]),
            pane_spellings: Vec::new(),
            active: Some(0),
            agent_rows: Vec::new(),
            agent_panel_sort: AgentPanelSort::Spaces,
            agent_user_order: Vec::new(),
            session_dirty: false,
        },
        events: Vec::new(),
    }
}

/// A terminal that writes down what it is sent.
struct Host {
    windows: bool,
    bracketed: bool,
    probe: RuntimeProbe,
    focus: Result<Vec<u8>, String>,
    focus_sent: Result<(), String>,
    right_key: Result<Vec<Vec<u8>>, String>,
    described: bool,
    queued: Result<(), String>,
    submission: Submission,
    sent: Vec<Bytes>,
    delays: Vec<u64>,
    deadlines: Vec<Option<u64>>,
}

fn host() -> Host {
    Host {
        windows: false,
        bracketed: true,
        probe: RuntimeProbe::HostsAgent,
        focus: Ok(b"\x1b[I".to_vec()),
        focus_sent: Ok(()),
        right_key: Ok(vec![Vec::new(), b"\x1b[C".to_vec(), b"x".to_vec()]),
        described: true,
        queued: Ok(()),
        submission: Submission::Delivered,
        sent: Vec::new(),
        delays: Vec::new(),
        deadlines: Vec::new(),
    }
}

fn prompt(target: &str, text: &str) -> AgentPromptParams {
    AgentPromptParams { target: target.into(), text: text.into(), wait: None }
}

fn run(app: &App, host: &mut Host, params: AgentPromptParams) -> Reply<String> {
    let request = Request { id: "req".into(), method: Method::AgentPrompt(params) };
    let mut step = handle_deferred_agent_api_request(request).expect("a prompt is deferred");
    loop {
        step = match step {
            PromptStep::Refused { id, error } => return Reply::Error { id, error },
            PromptStep::ResolveTarget { id, params } => {
                let resolved = match params.target.as_str() {
                    "builder" | "agent:p1" => {
                        Ok(ResolvedAgent { ws_idx: 0, tab_idx: 0, pane_id: ROOT_PANE })
                    }
                    other => Err(ErrorBody {
                        code: "agent_not_found".into(),
                        message: format!("agent target {other} not found"),
                    }),
                };
                app.target_resolved(id, params, resolved, host.windows)
            }
            PromptStep::ProbeRuntime { task } => task.runtime_probed(host.probe),
            PromptStep::EncodeFocus { task } => task.focus_encoded(host.focus.clone()),
            PromptStep::SendFocus { focus, task } => {
                host.sent.push(focus);
                task.focus_sent(host.focus_sent.clone())
            }
            PromptStep::EncodeSubmission { task } => {
                let text = if host.bracketed {
                    format!("\x1b[200~{}\x1b[201~", task.params.text)
                } else {
                    task.params.text.clone()
                };
                task.submission_encoded(text.into_bytes(), b"\r".to_vec())
            }
            PromptStep::EncodeBoundary { keys, text, enter, task } => {
                assert_eq!(keys, vec!["right"]);
                task.boundary_encoded(text, enter, host.right_key.clone())
            }
            PromptStep::DescribeAgent { text, enter, task } => {
                let agent = if host.described { Some(task.params.target.clone()) } else { None };
                task.agent_described(text, enter, agent)
            }
            PromptStep::Submit { text, enter, delay_ms, deadline, agent, task } => {
                if host.queued.is_ok() {
                    host.sent.push(text);
                    host.sent.push(enter);
                    host.delays.push(delay_ms);
                    host.deadlines.push(deadline);
                }
                submission_queued(task.id, agent, host.queued.clone())
            }
            PromptStep::AwaitSubmission { id, agent } => {
                return prompt_response(id, agent, host.submission.clone())
            }
        }
    }
}

fn error_of(reply: Reply<String>) -> (String, String) {
    match reply {
        Reply::Error { id, error } => {
            assert_eq!(id, "req");
            (error.code, error.message)
        }
        Reply::Success { .. } => panic!("expected an error"),
    }
}

fn prompted(reply: Reply<String>) -> String {
    match reply {
        Reply::Success { id, result: ResponseResult::AgentPrompted { agent } } => {
            assert_eq!(id, "req");
            agent
        }
        other => panic!("expected prompted response, got {other:?}"),
    }
}

#[test]
fn windows_codex_prompt_flushes_paste_burst_before_enter() {
    let app = app_with_agent(Agent::Codex, AgentState::Idle);
    let mut host = Host { windows: true, bracketed: false, ..host() };
    prompted(run(&app, &mut host, prompt("builder", "A != B")));
    // The non-character key must precede Enter so Codex commits the paste burst first.
    assert_eq!(
        host.sent,
        vec![Bytes::from_static(b"A != B\x1b[C"), Bytes::from_static(b"\r")]
    );
}

#[test]
fn agent_prompt_sends_text_then_delays_enter() {
    let app = app_with_agent(Agent::OpenCode, AgentState::Working);
    let mut bracketed = host();
    assert_eq!(prompted(run(&app, &mut bracketed, prompt("agent:p1", "A != B"))), "agent:p1");
    assert_eq!(
        bracketed.sent,
        vec![
            Bytes::from_static(b"\x1b[200~A != B\x1b[201~"),
            Bytes::from_static(b"\r")
        ]
    );
    assert_eq!(bracketed.delays, vec![300]);
    assert_eq!(AGENT_PROMPT_SUBMIT_DELAY_MS, 300);

    let mut raw = Host { bracketed: false, ..host() };
    prompted(run(&app, &mut raw, prompt("builder", "A != B")));
    assert_eq!(
        raw.sent,
        vec![Bytes::from_static(b"A != B"), Bytes::from_static(b"\r")]
    );

    let mut rejecting = host();
    let rejected = run(&app, &mut rejecting, prompt("opencode", "wrong target"));
    assert_eq!(error_of(rejected).0, "agent_not_found");
    assert!(rejecting.sent.is_empty());
}

#[test]
fn agent_prompt_rejects_blocked_agent_without_writing() {
    let app = app_with_agent(Agent::GithubCopilot, AgentState::Blocked);
    let mut host = host();
    let response = run(&app, &mut host, prompt("builder", "unrelated prompt"));
    let (code, message) = error_of(response);
    assert_eq!(code, "agent_blocked");
    assert_eq!(message, "agent builder is blocked and requires interactive input");
    assert!(host.sent.is_empty(), "blocked prompt wrote or scheduled terminal input");
    assert!(host.delays.is_empty(), "blocked prompt wrote or scheduled terminal input");
}

#[test]
fn agent_prompt_focuses_copilot_before_submitting() {
    let app = app_with_agent(Agent::GithubCopilot, AgentState::Idle);
    let mut host = host();
    prompted(run(&app, &mut host, prompt("builder", "A != B")));
    assert_eq!(
        host.sent,
        vec![
            Bytes::from_static(b"\x1b[I"),
            Bytes::from_static(b"\x1b[200~A != B\x1b[201~"),
            Bytes::from_static(b"\r"),
        ]
    );
}

#[test]
fn agent_prompt_rejects_managed_agent_while_startup_is_pending() {
    let mut app = app_with_agent(Agent::OpenCode, AgentState::Idle);
    app.state.terminals.get_mut(&7).unwrap().launch_pending = true;
    let mut host = host();
    let response = run(&app, &mut host, prompt("builder", "A != B"));
    assert_eq!(
        error_of(response),
        (
            "agent_not_ready".into(),
            "agent builder is not an active named agent".into()
        )
    );
    assert!(host.sent.is_empty());
}

#[test]
fn only_prompts_are_deferred() {
    for method in [Method::AgentList, Method::TmuxList] {
        let request = Request { id: "req".into(), method };
        assert!(handle_deferred_agent_api_request::<String>(request).is_none());
    }
}

#[test]
fn refused_prompts_say_why_and_write_nothing() {
    let mut app = app_with_agent(Agent::Pi, AgentState::Idle);
    let mut check = |app: &App, mut host: Host, params, code: &str, message: &str| {
        let refused = error_of(run(app, &mut host, params));
        assert_eq!(refused, (code.to_string(), message.to_string()));
        assert!(host.sent.is_empty());
    };
    let ask = || prompt("builder", "hello");
    let not_found = "agent target builder not found";
    let not_ready = "agent builder is not an active named agent";
    check(
        &app,
        host(),
        prompt("builder", ""),
        "empty_agent_prompt",
        "agent prompt must not be empty",
    );
    check(
        &app,
        Host { probe: RuntimeProbe::Missing, ..host() },
        ask(),
        "agent_not_found",
        not_found,
    );
    check(
        &app,
        Host { probe: RuntimeProbe::OtherProcess, ..host() },
        ask(),
        "agent_not_ready",
        "agent builder is no longer the pane foreground process",
    );
    check(&app, Host { described: false, ..host() }, ask(), "agent_not_found", not_found);
    check(
        &app,
        Host { queued: Err("queue full".into()), ..host() },
        ask(),
        "agent_prompt_failed",
        "queue full",
    );
    app.state.terminals.get_mut(&7).unwrap().known_agent = None;
    check(&app, host(), ask(), "agent_not_ready", not_ready);
    app.state.terminals.clear();
    check(&app, host(), ask(), "agent_not_found", not_found);
    app.state.workspaces.clear();
    check(&app, host(), ask(), "agent_not_found", not_found);
}

#[test]
fn copilot_needs_its_focus_report() {
    let app = app_with_agent(Agent::GithubCopilot, AgentState::Idle);
    let mut unencoded = Host { focus: Err("no focus".into()), ..host() };
    assert_eq!(
        error_of(run(&app, &mut unencoded, prompt("builder", "hello"))),
        ("agent_prompt_failed".into(), "no focus".into())
    );
    assert!(unencoded.sent.is_empty());
    let mut unsent = Host { focus_sent: Err("closed".into()), ..host() };
    assert_eq!(
        error_of(run(&app, &mut unsent, prompt("builder", "hello"))),
        ("agent_prompt_failed".into(), "closed".into())
    );
    assert!(unsent.delays.is_empty());
}

#[test]
fn submissions_end_in_an_answer() {
    let app = app_with_agent(Agent::Pi, AgentState::Idle);
    let ended = |submission| {
        error_of(run(&app, &mut Host { submission, ..host() }, prompt("builder", "hello")))
    };
    assert_eq!(
        ended(Submission::TimedOut { reason: "too late".into() }),
        ("timeout".into(), "too late".into())
    );
    assert_eq!(
        ended(Submission::Failed { reason: "broken".into() }),
        ("agent_prompt_failed".into(), "broken".into())
    );
    assert_eq!(
        ended(Submission::Abandoned),
        ("agent_prompt_failed".into(), "pty actor closed".into())
    );
}

#[test]
fn only_windows_keeps_the_deadline() {
    let app = app_with_agent(Agent::Codex, AgentState::Idle);
    let waiting = || AgentPromptParams {
        wait: Some(PromptWait { submission_deadline: Some(42) }),
        ..prompt("builder", "hello")
    };
    let mut windows = Host { windows: true, ..host() };
    prompted(run(&app, &mut windows, waiting()));
    assert_eq!(windows.deadlines, vec![Some(42)]);
    let mut elsewhere = host();
    prompted(run(&app, &mut elsewhere, waiting()));
    assert_eq!(elsewhere.deadlines, vec![None]);
    assert_eq!(
        elsewhere.sent[0],
        Bytes::from_static(b"\x1b[200~hello\x1b[201~"),
        "no boundary key"
    );
}

#[test]
fn boundary_keys_are_appended_where_there_is_one() {
    let boundary = |keys| {
        let mut text = b"ab".to_vec();
        append_codex_paste_boundary(&mut text, keys);
        text
    };
    assert_eq!(boundary(Ok(vec![Vec::new(), b"K".to_vec(), b"L".to_vec()])), b"abK");
    assert_eq!(boundary(Ok(vec![Vec::new()])), b"ab");
    assert_eq!(boundary(Ok(Vec::new())), b"ab");
    assert_eq!(boundary(Err("right".into())), b"ab");
}
