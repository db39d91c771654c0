//! Requests that type a prompt to an agent and submit it.
//!
//! A prompt alternates decisions with work on the agent's terminal. Each
//! decision is a function that takes what the work came to and returns the
//! [`PromptStep`] to be done next.
use crate::api::agents::{self, ResolvedAgent, RuntimeProbe};
use crate::external::{self, buffer_of};
use crate::schema::{
    self, error_reply, AgentPromptParams, ErrorBody, Method, PaneId, Reply, Request, ResponseResult,
};
use crate::state::{Agent, AgentState, App};
use crate::text;
use bytes::Bytes;
use vstd::prelude::*;

verus! {

/// How long Enter is held back after the text, so that the agent has taken the
/// text in.
pub const AGENT_PROMPT_SUBMIT_DELAY_MS: u64 = 300;

/// The key that ends a paste to Codex on Windows. It types nothing.
pub const CODEX_PASTE_BOUNDARY_KEY: &'static str = "right";

/// A prompt whose target is ready for it.
#[derive(Debug)]
pub struct PromptTask {
    pub id: String,
    pub params: AgentPromptParams,
    pub ws_idx: usize,
    pub pane_id: PaneId,
    pub agent: Agent,
    /// The agent runs on Windows.
    pub windows: bool,
}

/// What a prompt needs next. `A` describes an agent.
#[derive(Debug)]
pub enum PromptStep<A> {
    /// Nothing: this is the answer.
    Refused { id: String, error: ErrorBody },
    /// Where the target is, for [`App::target_resolved`].
    ResolveTarget { id: String, params: AgentPromptParams },
    /// Whether the pane's terminal hosts the agent, for
    /// [`PromptTask::runtime_probed`].
    ProbeRuntime { task: PromptTask },
    /// The report that the terminal gained focus, for
    /// [`PromptTask::focus_encoded`].
    EncodeFocus { task: PromptTask },
    /// The report to be sent, for [`PromptTask::focus_sent`].
    SendFocus { focus: Bytes, task: PromptTask },
    /// The bytes of the text and of Enter, for
    /// [`PromptTask::submission_encoded`].
    EncodeSubmission { task: PromptTask },
    /// The bytes of each of the keys, for [`PromptTask::boundary_encoded`].
    EncodeBoundary { keys: Vec<String>, text: Vec<u8>, enter: Vec<u8>, task: PromptTask },
    /// What is known of the agent, for [`PromptTask::agent_described`].
    DescribeAgent { text: Vec<u8>, enter: Vec<u8>, task: PromptTask },
    /// The text to be sent, and Enter `delay_ms` after it, for
    /// [`submission_queued`].
    Submit {
        text: Bytes,
        enter: Bytes,
        delay_ms: u64,
        deadline: Option<u64>,
        agent: A,
        task: PromptTask,
    },
    /// The end of the submission, for [`prompt_response`].
    AwaitSubmission { id: String, agent: A },
}

/// A [`PromptStep`] by the characters and bytes that it holds.
pub enum PromptStage<A> {
    Refused { id: String, code: Seq<char>, message: Seq<char> },
    ResolveTarget { id: String, params: AgentPromptParams },
    ProbeRuntime { task: PromptTask },
    EncodeFocus { task: PromptTask },
    SendFocus { focus: Seq<u8>, task: PromptTask },
    EncodeSubmission { task: PromptTask },
    EncodeBoundary { keys: Seq<Seq<char>>, text: Seq<u8>, enter: Seq<u8>, task: PromptTask },
    DescribeAgent { text: Seq<u8>, enter: Seq<u8>, task: PromptTask },
    Submit {
        text: Seq<u8>,
        enter: Seq<u8>,
        delay_ms: u64,
        deadline: Option<u64>,
        agent: A,
        task: PromptTask,
    },
    AwaitSubmission { id: String, agent: A },
}

impl<A> View for PromptStep<A> {
    type V = PromptStage<A>;

    open spec fn view(&self) -> PromptStage<A> {
        match *self {
            PromptStep::Refused { id, error } => PromptStage::Refused {
                id,
                code: error.code@,
                message: error.message@,
            },
            PromptStep::ResolveTarget { id, params } => PromptStage::ResolveTarget { id, params },
            PromptStep::ProbeRuntime { task } => PromptStage::ProbeRuntime { task },
            PromptStep::EncodeFocus { task } => PromptStage::EncodeFocus { task },
            PromptStep::SendFocus { focus, task } => PromptStage::SendFocus {
                focus: external::byte_content(focus),
                task,
            },
            PromptStep::EncodeSubmission { task } => PromptStage::EncodeSubmission { task },
            PromptStep::EncodeBoundary { keys, text, enter, task } => PromptStage::EncodeBoundary {
                keys: text::words(keys@),
                text: text@,
                enter: enter@,
                task,
            },
            PromptStep::DescribeAgent { text, enter, task } => PromptStage::DescribeAgent {
                text: text@,
                enter: enter@,
                task,
            },
            PromptStep::Submit { text, enter, delay_ms, deadline, agent, task } =>
                PromptStage::Submit {
                text: external::byte_content(text),
                enter: external::byte_content(enter),
                delay_ms,
                deadline,
                agent,
                task,
            },
            PromptStep::AwaitSubmission { id, agent } => PromptStage::AwaitSubmission { id, agent },
        }
    }
}

/// The prompt is refused because its target is unknown.
pub open spec fn refused_not_found<A>(id: String, target: Seq<char>) -> PromptStage<A> {
    PromptStage::Refused {
        id,
        code: "agent_not_found"@,
        message: agents::not_found_message(target),
    }
}

/// The prompt is refused because its target is no active agent.
pub open spec fn refused_not_ready<A>(id: String, target: Seq<char>) -> PromptStage<A> {
    PromptStage::Refused {
        id,
        code: "agent_not_ready"@,
        message: agents::not_ready_message(target),
    }
}

/// The prompt is refused because work on the terminal failed.
pub open spec fn refused_failed<A>(id: String, reason: Seq<char>) -> PromptStage<A> {
    PromptStage::Refused { id, code: "agent_prompt_failed"@, message: reason }
}

fn refuse<A>(id: String, code: &str, message: String) -> (step: PromptStep<A>)
    ensures
        step@ == (PromptStage::<A>::Refused { id, code: code@, message: message@ }),
{
    PromptStep::Refused { id, error: ErrorBody { code: code.to_owned(), message } }
}

fn refuse_not_found<A>(id: String, target: &str) -> (step: PromptStep<A>)
    ensures
        step@ == refused_not_found::<A>(id, target@),
{
    refuse(
        id,
        "agent_not_found",
        "agent target ".to_owned().concat(target).concat(" not found"),
    )
}

fn refuse_not_ready<A>(id: String, target: &str) -> (step: PromptStep<A>)
    ensures
        step@ == refused_not_ready::<A>(id, target@),
{
    refuse(
        id,
        "agent_not_ready",
        "agent ".to_owned().concat(target).concat(" is not an active named agent"),
    )
}

/// How a prompt starts.
pub open spec fn prompt_start<A>(id: String, params: AgentPromptParams) -> PromptStage<A> {
    if params.text@.len() == 0 {
        PromptStage::Refused {
            id,
            code: "empty_agent_prompt"@,
            message: "agent prompt must not be empty"@,
        }
    } else {
        PromptStage::ResolveTarget { id, params }
    }
}

/// Starts a prompt: it must have text.
pub fn queue_agent_prompt<A>(id: String, params: AgentPromptParams) -> (step: PromptStep<A>)
    ensures
        step@ == prompt_start::<A>(id, params),
{
    if params.text.as_str().is_empty() {
        return refuse(
            id,
            "empty_agent_prompt",
            "agent prompt must not be empty".to_owned(),
        );
    }
    PromptStep::ResolveTarget { id, params }
}

/// Takes the request where its answer has to wait for a submission: a prompt.
/// Other requests are answered at once, by other functions.
pub fn handle_deferred_agent_api_request<A>(request: Request) -> (step: Option<PromptStep<A>>)
    ensures
        match request.method {
            Method::AgentPrompt(params) => step matches Some(step) && step@ == prompt_start::<A>(
                request.id,
                params,
            ),
            _ => step is None,
        },
{
    match request.method {
        Method::AgentPrompt(params) => Some(queue_agent_prompt(request.id, params)),
        _ => None,
    }
}

impl App {
    /// How a prompt goes on once its target is resolved: the pane must show a
    /// terminal whose known agent is neither blocked nor still starting.
    pub open spec fn after_target<A>(
        self,
        id: String,
        params: AgentPromptParams,
        resolved: Result<ResolvedAgent, ErrorBody>,
        windows: bool,
    ) -> PromptStage<A> {
        match resolved {
            Err(error) => PromptStage::Refused { id, code: error.code@, message: error.message@ },
            Ok(at) => match self.pane_terminal(at.ws_idx as int, at.pane_id) {
                None => refused_not_found(id, params.target@),
                Some(terminal) => if terminal.state is Blocked {
                    PromptStage::Refused {
                        id,
                        code: "agent_blocked"@,
                        message: "agent "@ + params.target@
                            + " is blocked and requires interactive input"@,
                    }
                } else {
                    match terminal.known_agent {
                        None => refused_not_ready(id, params.target@),
                        Some(agent) => if terminal.launch_pending {
                            refused_not_ready(id, params.target@)
                        } else {
                            PromptStage::ProbeRuntime {
                                task: PromptTask {
                                    id,
                                    params,
                                    ws_idx: at.ws_idx,
                                    pane_id: at.pane_id,
                                    agent,
                                    windows,
                                },
                            }
                        },
                    }
                },
            },
        }
    }

    /// Goes on with where the target is.
    pub fn target_resolved<A>(
        &self,
        id: String,
        params: AgentPromptParams,
        resolved: Result<ResolvedAgent, ErrorBody>,
        windows: bool,
    ) -> (step: PromptStep<A>)
        ensures
            step@ == self.after_target::<A>(id, params, resolved, windows),
    {
        let resolved = match resolved {
            Ok(resolved) => resolved,
            Err(error) => {
                return PromptStep::Refused { id, error };
            },
        };
        let (ws_idx, pane_id) = (resolved.ws_idx, resolved.pane_id);
        let terminal = match self.terminal_at(ws_idx, pane_id) {
            Some(terminal) => terminal,
            None => {
                return refuse_not_found(id, params.target.as_str());
            },
        };
        if terminal.state == AgentState::Blocked {
            let message = "agent ".to_owned().concat(params.target.as_str()).concat(
                " is blocked and requires interactive input",
            );
            return refuse(id, "agent_blocked", message);
        }
        let agent = match terminal.known_agent {
            Some(agent) => agent,
            None => {
                return refuse_not_ready(id, params.target.as_str());
            },
        };
        if terminal.launch_pending {
            return refuse_not_ready(id, params.target.as_str());
        }
        PromptStep::ProbeRuntime {
            task: PromptTask { id, params, ws_idx, pane_id, agent, windows },
        }
    }
}

/// The first of `keys` that is not empty.
pub open spec fn first_key(keys: Seq<Vec<u8>>) -> Option<Seq<u8>>
    decreases keys.len(),
{
    if keys.len() == 0 {
        None
    } else if keys[0]@.len() > 0 {
        Some(keys[0]@)
    } else {
        first_key(keys.skip(1))
    }
}

/// The text with the boundary key after it, where that could be encoded.
pub open spec fn with_boundary(text: Seq<u8>, keys: Result<Vec<Vec<u8>>, String>) -> Seq<u8> {
    match keys {
        Ok(keys) => match first_key(keys@) {
            Some(key) => text + key,
            None => text,
        },
        Err(_) => text,
    }
}

/// Appends the boundary key to the text.
///
/// Codex's Windows input reader does not surface bracketed paste. It detects
/// the prompt as a "paste burst" and, while that burst is buffered, rewrites a
/// following Enter into a newline instead of submitting. The burst only flushes
/// after an idle timeout, so any size-based delay is a timing guess. Codex
/// flushes a buffered burst synchronously when it receives a non-character key,
/// so appending one after the paste gives the submission a deterministic paste
/// boundary regardless of prompt size or delivery speed.
pub fn append_codex_paste_boundary(text: &mut Vec<u8>, keys: Result<Vec<Vec<u8>>, String>)
    ensures
        final(text)@ == with_boundary(old(text)@, keys),
{
    let keys = match keys {
        Ok(keys) => keys,
        Err(_) => {
            return ;
        },
    };
    let ghost all = keys@;
    let ghost before = text@;
    let mut i: usize = 0;
    assert(all.skip(0) == all);
    while i < keys.len()
        invariant
            i <= keys@.len(),
            all == keys@,
            text@ == before,
            first_key(all.skip(i as int)) == first_key(all),
        ensures
            i <= keys@.len(),
            first_key(all.skip(i as int)) == first_key(all),
            i < keys@.len() ==> all[i as int]@.len() > 0,
            text@ == before,
        decreases keys@.len() - i,
    {
        if keys[i].len() > 0 {
            break;
        }
        assert(all.skip(i as int).skip(1) == all.skip(i + 1));
        i = i + 1;
    }
    if i < keys.len() {
        text.extend_from_slice(keys[i].as_slice());
        assert(text@ =~= before + all[i as int]@);
    }
}

impl PromptTask {
    /// The reading of the clock after which the prompt must not be submitted.
    pub open spec fn deadline(self) -> Option<u64> {
        match self.params.wait {
            Some(wait) => if self.windows {
                wait.submission_deadline
            } else {
                None
            },
            None => None,
        }
    }

    /// How the prompt goes on once the terminal was looked for. Copilot ignores
    /// synthetic Enter after focus loss until it receives focus gained.
    pub open spec fn after_probe<A>(self, probe: RuntimeProbe) -> PromptStage<A> {
        match probe {
            RuntimeProbe::Missing => refused_not_found(self.id, self.params.target@),
            RuntimeProbe::OtherProcess => PromptStage::Refused {
                id: self.id,
                code: "agent_not_ready"@,
                message: "agent "@ + self.params.target@
                    + " is no longer the pane foreground process"@,
            },
            RuntimeProbe::HostsAgent => if self.agent is GithubCopilot {
                PromptStage::EncodeFocus { task: self }
            } else {
                PromptStage::EncodeSubmission { task: self }
            },
        }
    }

    /// Goes on where the agent is the terminal's foreground process.
    pub fn runtime_probed<A>(self, probe: RuntimeProbe) -> (step: PromptStep<A>)
        ensures
            step@ == self.after_probe::<A>(probe),
    {
        match probe {
            RuntimeProbe::Missing => refuse_not_found(self.id, self.params.target.as_str()),
            RuntimeProbe::OtherProcess => {
                let message = "agent ".to_owned().concat(self.params.target.as_str()).concat(
                    " is no longer the pane foreground process",
                );
                refuse(self.id, "agent_not_ready", message)
            },
            RuntimeProbe::HostsAgent => if self.agent == Agent::GithubCopilot {
                PromptStep::EncodeFocus { task: self }
            } else {
                PromptStep::EncodeSubmission { task: self }
            },
        }
    }

    /// How the prompt goes on with the focus report.
    pub open spec fn after_focus_encoding<A>(
        self,
        encoded: Result<Vec<u8>, String>,
    ) -> PromptStage<A> {
        match encoded {
            Ok(focus) => PromptStage::SendFocus { focus: focus@, task: self },
            Err(reason) => refused_failed(self.id, reason@),
        }
    }

    /// Goes on with the focus report.
    pub fn focus_encoded<A>(self, encoded: Result<Vec<u8>, String>) -> (step: PromptStep<A>)
        ensures
            step@ == self.after_focus_encoding::<A>(encoded),
    {
        match encoded {
            Ok(focus) => PromptStep::SendFocus { focus: buffer_of(focus), task: self },
            Err(reason) => refuse(self.id, "agent_prompt_failed", reason),
        }
    }

    /// How the prompt goes on once the focus report was sent.
    pub open spec fn after_focus<A>(self, sent: Result<(), String>) -> PromptStage<A> {
        match sent {
            Ok(()) => PromptStage::EncodeSubmission { task: self },
            Err(reason) => refused_failed(self.id, reason@),
        }
    }

    /// Goes on once the focus report was sent.
    pub fn focus_sent<A>(self, sent: Result<(), String>) -> (step: PromptStep<A>)
        ensures
            step@ == self.after_focus::<A>(sent),
    {
        match sent {
            Ok(()) => PromptStep::EncodeSubmission { task: self },
            Err(reason) => refuse(self.id, "agent_prompt_failed", reason),
        }
    }

    /// How the prompt goes on with its bytes.
    pub open spec fn after_encoding<A>(self, text: Seq<u8>, enter: Seq<u8>) -> PromptStage<A> {
        if self.windows && self.agent is Codex {
            PromptStage::EncodeBoundary {
                keys: seq![CODEX_PASTE_BOUNDARY_KEY@],
                text,
                enter,
                task: self,
            }
        } else {
            PromptStage::DescribeAgent { text, enter, task: self }
        }
    }

    /// Goes on with the bytes of the text and of Enter.
    pub fn submission_encoded<A>(self, text: Vec<u8>, enter: Vec<u8>) -> (step: PromptStep<A>)
        ensures
            step@ == self.after_encoding::<A>(text@, enter@),
    {
        if self.windows && self.agent == Agent::Codex {
            let keys: Vec<String> = vec![CODEX_PASTE_BOUNDARY_KEY.to_owned()];
            assert(text::words(keys@) =~= seq![CODEX_PASTE_BOUNDARY_KEY@]);
            PromptStep::EncodeBoundary { keys, text, enter, task: self }
        } else {
            PromptStep::DescribeAgent { text, enter, task: self }
        }
    }

    /// How the prompt goes on with the boundary key.
    pub open spec fn after_boundary<A>(
        self,
        text: Seq<u8>,
        enter: Seq<u8>,
        keys: Result<Vec<Vec<u8>>, String>,
    ) -> PromptStage<A> {
        PromptStage::DescribeAgent { text: with_boundary(text, keys), enter, task: self }
    }

    /// Goes on with the boundary key.
    pub fn boundary_encoded<A>(
        self,
        text: Vec<u8>,
        enter: Vec<u8>,
        keys: Result<Vec<Vec<u8>>, String>,
    ) -> (step: PromptStep<A>)
        ensures
            step@ == self.after_boundary::<A>(text@, enter@, keys),
    {
        let mut text = text;
        append_codex_paste_boundary(&mut text, keys);
        PromptStep::DescribeAgent { text, enter, task: self }
    }

    /// How the prompt goes on with what is known of the agent.
    pub open spec fn after_description<A>(
        self,
        text: Seq<u8>,
        enter: Seq<u8>,
        agent: Option<A>,
    ) -> PromptStage<A> {
        match agent {
            Some(agent) => PromptStage::Submit {
                text,
                enter,
                delay_ms: AGENT_PROMPT_SUBMIT_DELAY_MS,
                deadline: self.deadline(),
                agent,
                task: self,
            },
            None => refused_not_found(self.id, self.params.target@),
        }
    }

    /// Goes on with what is known of the agent.
    pub fn agent_described<A>(self, text: Vec<u8>, enter: Vec<u8>, agent: Option<A>) -> (step:
        PromptStep<A>)
        ensures
            step@ == self.after_description::<A>(text@, enter@, agent),
    {
        let deadline = match self.params.wait {
            Some(wait) => if self.windows {
                wait.submission_deadline
            } else {
                None
            },
            None => None,
        };
        match agent {
            Some(agent) => PromptStep::Submit {
                text: buffer_of(text),
                enter: buffer_of(enter),
                delay_ms: AGENT_PROMPT_SUBMIT_DELAY_MS,
                deadline,
                agent,
                task: self,
            },
            None => refuse_not_found(self.id, self.params.target.as_str()),
        }
    }
}

/// How a prompt goes on once it was handed to the terminal.
pub open spec fn after_queueing<A>(
    id: String,
    agent: A,
    queued: Result<(), String>,
) -> PromptStage<A> {
    match queued {
        Ok(()) => PromptStage::AwaitSubmission { id, agent },
        Err(reason) => refused_failed(id, reason@),
    }
}

/// Goes on once the prompt was handed to the terminal.
pub fn submission_queued<A>(id: String, agent: A, queued: Result<(), String>) -> (step: PromptStep<
    A,
>)
    ensures
        step@ == after_queueing(id, agent, queued),
{
    match queued {
        Ok(()) => PromptStep::AwaitSubmission { id, agent },
        Err(reason) => refuse(id, "agent_prompt_failed", reason),
    }
}

/// How a submission ended.
#[derive(Debug, Clone, PartialEq, Eq)]
pub enum Submission {
    Delivered,
    TimedOut { reason: String },
    Failed { reason: String },
    /// The terminal went away before it could tell.
    Abandoned,
}

/// Answers a prompt once its submission has ended.
pub fn prompt_response<A>(id: String, agent: A, submission: Submission) -> (reply: Reply<A>)
    ensures
        match submission {
            Submission::Delivered => reply == (Reply::Success {
                id,
                result: ResponseResult::AgentPrompted { agent },
            }),
            Submission::TimedOut { reason } => schema::is_error(reply, id, "timeout"@, reason@),
            Submission::Failed { reason } => schema::is_error(
                reply,
                id,
                "agent_prompt_failed"@,
                reason@,
            ),
            Submission::Abandoned => schema::is_error(
                reply,
                id,
                "agent_prompt_failed"@,
                "pty actor closed"@,
            ),
        },
{
    match submission {
        Submission::Delivered => Reply::Success {
            id,
            result: ResponseResult::AgentPrompted { agent },
        },
        Submission::TimedOut { reason } => error_reply(id, "timeout", reason),
        Submission::Failed { reason } => error_reply(id, "agent_prompt_failed", reason),
        Submission::Abandoned => error_reply(
            id,
            "agent_prompt_failed",
            "pty actor closed".to_owned(),
        ),
    }
}

/// What the work that a prompt asks for came to, each time that it was asked
/// for.
pub struct PromptWork<A> {
    pub resolved: Result<ResolvedAgent, ErrorBody>,
    pub windows: bool,
    pub probe: RuntimeProbe,
    pub focus: Result<Vec<u8>, String>,
    pub focus_sent: Result<(), String>,
    pub text: Seq<u8>,
    pub enter: Seq<u8>,
    pub boundary: Result<Vec<Vec<u8>>, String>,
    pub agent: Option<A>,
    pub queued: Result<(), String>,
}

/// How many more steps a prompt can take.
pub open spec fn steps_left<A>(stage: PromptStage<A>) -> nat {
    match stage {
        PromptStage::ResolveTarget { .. } => 8,
        PromptStage::ProbeRuntime { .. } => 7,
        PromptStage::EncodeFocus { .. } => 6,
        PromptStage::SendFocus { .. } => 5,
        PromptStage::EncodeSubmission { .. } => 4,
        PromptStage::EncodeBoundary { .. } => 3,
        PromptStage::DescribeAgent { .. } => 2,
        PromptStage::Submit { .. } => 1,
        PromptStage::Refused { .. } => 0,
        PromptStage::AwaitSubmission { .. } => 0,
    }
}

/// How a prompt goes on once the work of its stage is done.
pub open spec fn next_stage<A>(app: App, work: PromptWork<A>, stage: PromptStage<A>) -> PromptStage<
    A,
> {
    match stage {
        PromptStage::ResolveTarget { id, params } => app.after_target(
            id,
            params,
            work.resolved,
            work.windows,
        ),
        PromptStage::ProbeRuntime { task } => task.after_probe(work.probe),
        PromptStage::EncodeFocus { task } => task.after_focus_encoding(work.focus),
        PromptStage::SendFocus { task, .. } => task.after_focus(work.focus_sent),
        PromptStage::EncodeSubmission { task } => task.after_encoding(work.text, work.enter),
        PromptStage::EncodeBoundary { text, enter, task, .. } => task.after_boundary(
            text,
            enter,
            work.boundary,
        ),
        PromptStage::DescribeAgent { text, enter, task } => task.after_description(
            text,
            enter,
            work.agent,
        ),
        PromptStage::Submit { agent, task, .. } => after_queueing(task.id, agent, work.queued),
        PromptStage::Refused { .. } => stage,
        PromptStage::AwaitSubmission { .. } => stage,
    }
}

/// Every step brings a prompt nearer to its end.
pub proof fn lemma_prompt_steps_end<A>(app: App, work: PromptWork<A>, stage: PromptStage<A>)
    ensures
        steps_left(stage) > 0 ==> steps_left(next_stage(app, work, stage)) < steps_left(stage),
{
}

/// What a stage hands to the terminal.
pub open spec fn handed_over<A>(stage: PromptStage<A>) -> Seq<Seq<u8>> {
    match stage {
        PromptStage::SendFocus { focus, .. } => seq![focus],
        PromptStage::Submit { text, enter, .. } => seq![text, enter],
        _ => Seq::empty(),
    }
}

/// Where a prompt ends, and what it hands to the terminal on its way.
pub open spec fn prompt_run<A>(app: App, work: PromptWork<A>, stage: PromptStage<A>) -> (
    PromptStage<A>,
    Seq<Seq<u8>>,
)
    decreases steps_left(stage),
{
    if steps_left(stage) == 0 {
        (stage, Seq::empty())
    } else {
        let (end, rest) = prompt_run(app, work, next_stage(app, work, stage));
        (end, handed_over(stage) + rest)
    }
}

impl App {
    /// The agent that is ready for a prompt: the one that the target's terminal
    /// is known to run, has come up and hosts, and that is not blocked.
    pub open spec fn ready_agent(
        self,
        resolved: Result<ResolvedAgent, ErrorBody>,
        probe: RuntimeProbe,
    ) -> Option<Agent> {
        match resolved {
            Ok(at) => match self.pane_terminal(at.ws_idx as int, at.pane_id) {
                Some(terminal) => if !(terminal.state is Blocked) && !terminal.launch_pending
                    && probe is HostsAgent {
                    terminal.known_agent
                } else {
                    None
                },
                None => None,
            },
            Err(_) => None,
        }
    }
}

/// Where a prompt ends that is not ready to be encoded: the first decision that
/// refuses it gives the code and the message.
pub open spec fn first_refusal<A>(
    app: App,
    id: String,
    params: AgentPromptParams,
    work: PromptWork<A>,
) -> PromptStage<A> {
    match prompt_start::<A>(id, params) {
        PromptStage::ResolveTarget { .. } => match app.after_target::<A>(
            id,
            params,
            work.resolved,
            work.windows,
        ) {
            PromptStage::ProbeRuntime { task } => task.after_probe(work.probe),
            refused => refused,
        },
        refused => refused,
    }
}

/// A prompt without text, or whose target is not ready for it, is refused by the
/// first decision that finds so, and hands nothing to the terminal.
pub proof fn lemma_unready_prompt_writes_nothing<A>(
    app: App,
    id: String,
    params: AgentPromptParams,
    work: PromptWork<A>,
)
    requires
        params.text@.len() == 0 || app.ready_agent(work.resolved, work.probe) is None,
    ensures
        prompt_run(app, work, prompt_start(id, params)).0 == first_refusal(app, id, params, work),
        first_refusal(app, id, params, work) is Refused,
        prompt_run(app, work, prompt_start(id, params)).1 == Seq::<Seq<u8>>::empty(),
{
    reveal_with_fuel(prompt_run, 4);
    assert(prompt_run(app, work, prompt_start(id, params)).1 =~= Seq::empty());
}

/// The bytes of the text as they are handed to the terminal: a paste to Codex
/// on Windows ends with the boundary key.
pub open spec fn typed_text<A>(agent: Agent, work: PromptWork<A>) -> Seq<u8> {
    if work.windows && agent is Codex {
        with_boundary(work.text, work.boundary)
    } else {
        work.text
    }
}

/// The report of focus that the terminal is handed before the text: Copilot's.
pub open spec fn focus_report<A>(agent: Agent, work: PromptWork<A>) -> Seq<Seq<u8>> {
    match work.focus {
        Ok(focus) => if agent is GithubCopilot {
            seq![focus@]
        } else {
            Seq::empty()
        },
        Err(_) => Seq::empty(),
    }
}

/// Why the focus of an agent that needs it could not be reported.
pub open spec fn focus_failure<A>(agent: Agent, work: PromptWork<A>) -> Option<Seq<char>> {
    if agent is GithubCopilot {
        match (work.focus, work.focus_sent) {
            (Err(reason), _) => Some(reason@),
            (Ok(_), Err(reason)) => Some(reason@),
            (Ok(_), Ok(())) => None,
        }
    } else {
        None
    }
}

/// A prompt with text for an agent that is ready is submitted exactly where the
/// work on the terminal succeeds. The terminal is then handed the text and
/// Enter, and Copilot the report of focus before them. Where that work fails,
/// the prompt is refused with the reason, and where it fails before the
/// submission, the terminal is handed neither text nor Enter.
pub proof fn lemma_ready_prompt_is_submitted<A>(
    app: App,
    id: String,
    params: AgentPromptParams,
    work: PromptWork<A>,
    agent: Agent,
)
    requires
        params.text@.len() > 0,
        app.ready_agent(work.resolved, work.probe) == Some(agent),
    ensures
        ({
            let (end, handed) = prompt_run(app, work, prompt_start(id, params));
            let report = focus_report(agent, work);
            match (focus_failure(agent, work), work.agent, work.queued) {
                (Some(reason), _, _) => {
                    &&& end == refused_failed::<A>(id, reason)
                    &&& handed == report
                },
                (None, None, _) => {
                    &&& end == refused_not_found::<A>(id, params.target@)
                    &&& handed == report
                },
                (None, Some(described), Ok(())) => {
                    &&& end == (PromptStage::AwaitSubmission { id, agent: described })
                    &&& handed == report + seq![typed_text(agent, work), work.enter]
                },
                (None, Some(_), Err(reason)) => {
                    &&& end == refused_failed::<A>(id, reason@)
                    &&& handed == report + seq![typed_text(agent, work), work.enter]
                },
            }
        }),
{
    reveal_with_fuel(prompt_run, 10);
    let (end, handed) = prompt_run(app, work, prompt_start(id, params));
    let report = focus_report(agent, work);
    if focus_failure(agent, work) is Some || work.agent is None {
        assert(handed =~= report);
    } else {
        assert(handed =~= report + seq![typed_text(agent, work), work.enter]);
    }
}

/// A step is seen with every value that it holds.
pub proof fn lemma_step_is_seen_whole<A>(step: PromptStep<A>)
    ensures
        match step {
            PromptStep::Refused { id, error } => step@ matches PromptStage::Refused {
                id: seen,
                code,
                message,
            } && seen == id && code == error.code@ && message == error.message@,
            PromptStep::ResolveTarget { id, params } => step@ matches PromptStage::ResolveTarget {
                id: seen,
                params: asked,
            } && seen == id && asked == params,
            PromptStep::ProbeRuntime { task } => step@ matches PromptStage::ProbeRuntime {
                task: seen,
            } && seen == task,
            PromptStep::EncodeFocus { task } => step@ matches PromptStage::EncodeFocus {
                task: seen,
            } && seen == task,
            PromptStep::SendFocus { focus, task } => step@ matches PromptStage::SendFocus {
                focus: bytes,
                task: seen,
            } && bytes == external::byte_content(focus) && seen == task,
            PromptStep::EncodeSubmission { task } => step@ matches PromptStage::EncodeSubmission {
                task: seen,
            } && seen == task,
            PromptStep::EncodeBoundary { keys, text, enter, task } =>
                step@ matches PromptStage::EncodeBoundary {
                keys: names,
                text: typed,
                enter: key,
                task: seen,
            } && names == text::words(keys@) && typed == text@ && key == enter@ && seen == task,
            PromptStep::DescribeAgent { text, enter, task } =>
                step@ matches PromptStage::DescribeAgent { text: typed, enter: key, task: seen }
                && typed == text@ && key == enter@ && seen == task,
            PromptStep::Submit { text, enter, delay_ms, deadline, agent, task } =>
                step@ matches PromptStage::Submit {
                text: typed,
                enter: key,
                delay_ms: delay,
                deadline: until,
                agent: described,
                task: seen,
            } && typed == external::byte_content(text) && key == external::byte_content(enter)
                && delay == delay_ms && until == deadline && described == agent && seen == task,
            PromptStep::AwaitSubmission { id, agent } =>
                step@ matches PromptStage::AwaitSubmission { id: seen, agent: described } && seen
                == id && described == agent,
        },
{
}

/// A prompt must have text.
pub proof fn lemma_prompt_must_have_text<A>(id: String, params: AgentPromptParams)
    ensures
        params.text@.len() > 0 ==> prompt_start::<A>(id, params) == (PromptStage::<
            A,
        >::ResolveTarget { id, params }),
        params.text@.len() == 0 ==> prompt_start::<A>(id, params) == (PromptStage::<A>::Refused {
            id,
            code: "empty_agent_prompt"@,
            message: "agent prompt must not be empty"@,
        }),
{
}

/// A resolved prompt goes on with a task that names the target's own workspace and
/// pane, the agent that is known there, and the request as it was asked; and it
/// does so exactly where the terminal there is not blocked, is known to run an
/// agent, and has come up. Of several reasons to refuse it the first is told.
pub proof fn lemma_prompt_goes_to_its_target<A>(
    app: App,
    id: String,
    params: AgentPromptParams,
    resolved: Result<ResolvedAgent, ErrorBody>,
    windows: bool,
)
    ensures
        ({
            let stage = app.after_target::<A>(id, params, resolved, windows);
            match resolved {
                Err(error) => stage == (PromptStage::<A>::Refused {
                    id,
                    code: error.code@,
                    message: error.message@,
                }),
                Ok(at) => match app.pane_terminal(at.ws_idx as int, at.pane_id) {
                    None => stage == (PromptStage::<A>::Refused {
                        id,
                        code: "agent_not_found"@,
                        message: "agent target "@ + params.target@ + " not found"@,
                    }),
                    Some(terminal) => {
                        &&& stage is ProbeRuntime <==> terminal.state != AgentState::Blocked
                            && terminal.known_agent is Some && !terminal.launch_pending
                        &&& stage matches PromptStage::ProbeRuntime { task } ==> {
                            &&& task.ws_idx == at.ws_idx
                            &&& task.pane_id == at.pane_id
                            &&& Some(task.agent) == terminal.known_agent
                            &&& task.id == id
                            &&& task.params == params
                            &&& task.windows == windows
                        }
                        &&& terminal.state == AgentState::Blocked ==> stage == (PromptStage::<
                            A,
                        >::Refused {
                            id,
                            code: "agent_blocked"@,
                            message: "agent "@ + params.target@
                                + " is blocked and requires interactive input"@,
                        })
                        &&& terminal.state != AgentState::Blocked && (terminal.known_agent is None
                            || terminal.launch_pending) ==> stage == (PromptStage::<A>::Refused {
                            id,
                            code: "agent_not_ready"@,
                            message: "agent "@ + params.target@ + " is not an active named agent"@,
                        })
                    },
                },
            }
        }),
{
}

/// The task that a stage is about.
pub open spec fn task_of<A>(stage: PromptStage<A>) -> Option<PromptTask> {
    match stage {
        PromptStage::ProbeRuntime { task } => Some(task),
        PromptStage::EncodeFocus { task } => Some(task),
        PromptStage::SendFocus { task, .. } => Some(task),
        PromptStage::EncodeSubmission { task } => Some(task),
        PromptStage::EncodeBoundary { task, .. } => Some(task),
        PromptStage::DescribeAgent { task, .. } => Some(task),
        PromptStage::Submit { task, .. } => Some(task),
        _ => None,
    }
}

/// A prompt keeps its task: every stage up to the submission is about the same
/// terminal, agent and request as the one before, and its end carries the same
/// id.
pub proof fn lemma_prompt_keeps_its_task<A>(app: App, work: PromptWork<A>, stage: PromptStage<A>)
    requires
        task_of(stage) is Some,
    ensures
        ({
            let task = task_of(stage)->0;
            match next_stage(app, work, stage) {
                PromptStage::Refused { id, .. } => id == task.id,
                PromptStage::ResolveTarget { .. } => false,
                PromptStage::ProbeRuntime { .. } => false,
                PromptStage::EncodeFocus { task: next } => next == task,
                PromptStage::SendFocus { task: next, .. } => next == task,
                PromptStage::EncodeSubmission { task: next } => next == task,
                PromptStage::EncodeBoundary { task: next, .. } => next == task,
                PromptStage::DescribeAgent { task: next, .. } => next == task,
                PromptStage::Submit { task: next, .. } => next == task,
                PromptStage::AwaitSubmission { id, .. } => id == task.id,
            }
        }),
{
}

/// A prompt goes on where its terminal hosts the agent: Copilot is first told of
/// focus. Else it is refused with what was found.
pub proof fn lemma_probe_decides<A>(task: PromptTask, probe: RuntimeProbe)
    ensures
        probe == RuntimeProbe::Missing ==> task.after_probe::<A>(probe) == (PromptStage::<
            A,
        >::Refused {
            id: task.id,
            code: "agent_not_found"@,
            message: "agent target "@ + task.params.target@ + " not found"@,
        }),
        probe == RuntimeProbe::OtherProcess ==> task.after_probe::<A>(probe) == (PromptStage::<
            A,
        >::Refused {
            id: task.id,
            code: "agent_not_ready"@,
            message: "agent "@ + task.params.target@
                + " is no longer the pane foreground process"@,
        }),
        probe == RuntimeProbe::HostsAgent && task.agent == Agent::GithubCopilot
            ==> task.after_probe::<A>(probe) == (PromptStage::<A>::EncodeFocus { task }),
        probe == RuntimeProbe::HostsAgent && task.agent != Agent::GithubCopilot
            ==> task.after_probe::<A>(probe) == (PromptStage::<A>::EncodeSubmission { task }),
{
}

/// The report of focus is sent as it was encoded, and the text is encoded once it
/// was sent. Where either fails the prompt is refused with the reason.
pub proof fn lemma_focus_comes_before_the_text<A>(
    task: PromptTask,
    encoded: Result<Vec<u8>, String>,
    sent: Result<(), String>,
)
    ensures
        encoded matches Ok(focus) ==> task.after_focus_encoding::<A>(encoded) == (PromptStage::<
            A,
        >::SendFocus { focus: focus@, task }),
        encoded matches Err(reason) ==> task.after_focus_encoding::<A>(encoded) == (PromptStage::<
            A,
        >::Refused { id: task.id, code: "agent_prompt_failed"@, message: reason@ }),
        sent is Ok ==> task.after_focus::<A>(sent) == (PromptStage::<A>::EncodeSubmission { task }),
        sent matches Err(reason) ==> task.after_focus::<A>(sent) == (PromptStage::<A>::Refused {
            id: task.id,
            code: "agent_prompt_failed"@,
            message: reason@,
        }),
{
}

/// The bytes of the text and of Enter are handed on as they were encoded, but for
/// the boundary key that Codex on Windows is sent after the text. They are then
/// submitted with the delay and, on Windows, the deadline that was asked for.
pub proof fn lemma_bytes_are_handed_on<A>(
    task: PromptTask,
    text: Seq<u8>,
    enter: Seq<u8>,
    keys: Result<Vec<Vec<u8>>, String>,
    agent: Option<A>,
)
    ensures
        task.windows && task.agent == Agent::Codex ==> task.after_encoding::<A>(text, enter) == (
        PromptStage::<A>::EncodeBoundary { keys: seq!["right"@], text, enter, task }),
        !(task.windows && task.agent == Agent::Codex) ==> task.after_encoding::<A>(text, enter)
            == (PromptStage::<A>::DescribeAgent { text, enter, task }),
        task.after_boundary::<A>(text, enter, keys) == (PromptStage::<A>::DescribeAgent {
            text: with_boundary(text, keys),
            enter,
            task,
        }),
        agent matches Some(described) ==> (task.after_description::<A>(text, enter, agent)
            matches PromptStage::Submit {
            text: typed,
            enter: key,
            delay_ms,
            deadline,
            agent: told,
            task: same,
        } && typed == text && key == enter && delay_ms == 300 && told == described && same == task
            && deadline == (if task.windows && task.params.wait is Some {
            task.params.wait->0.submission_deadline
        } else {
            None
        })),
        agent is None ==> task.after_description::<A>(text, enter, agent) == (PromptStage::<
            A,
        >::Refused {
            id: task.id,
            code: "agent_not_found"@,
            message: "agent target "@ + task.params.target@ + " not found"@,
        }),
{
}

/// The boundary is the first key that has bytes, after the text. Without such a
/// key the text stays as it is.
pub proof fn lemma_boundary_is_the_first_key_with_bytes(text: Seq<u8>, keys: Vec<Vec<u8>>, i: int)
    requires
        0 <= i <= keys@.len(),
        forall|j: int| 0 <= j < i ==> (#[trigger] keys@[j])@.len() == 0,
        i < keys@.len() ==> keys@[i]@.len() > 0,
    ensures
        i < keys@.len() ==> with_boundary(text, Ok(keys)) == text + keys@[i]@,
        i == keys@.len() ==> with_boundary(text, Ok(keys)) == text,
        forall|key: String| #[trigger] with_boundary(text, Err(key)) == text,
{
    lemma_first_key_at(keys@, i);
}

proof fn lemma_first_key_at(keys: Seq<Vec<u8>>, i: int)
    requires
        0 <= i <= keys.len(),
        forall|j: int| 0 <= j < i ==> (#[trigger] keys[j])@.len() == 0,
        i < keys.len() ==> keys[i]@.len() > 0,
    ensures
        i < keys.len() ==> first_key(keys) == Some(keys[i]@),
        i == keys.len() ==> first_key(keys) is None,
    decreases keys.len(),
{
    if keys.len() > 0 && i > 0 {
        let rest = keys.skip(1);
        assert(keys[0]@.len() == 0);
        assert forall|j: int| 0 <= j < i - 1 implies (#[trigger] rest[j])@.len() == 0 by {
            assert(keys[j + 1]@.len() == 0);
        }
        lemma_first_key_at(rest, i - 1);
    }
}

/// A prompt that the terminal took waits for its end, and one that it did not take
/// is refused with the reason.
pub proof fn lemma_queued_prompt_waits<A>(id: String, agent: A, queued: Result<(), String>)
    ensures
        queued is Ok ==> after_queueing(id, agent, queued) == (PromptStage::AwaitSubmission {
            id,
            agent,
        }),
        queued matches Err(reason) ==> after_queueing(id, agent, queued) == (PromptStage::<
            A,
        >::Refused { id, code: "agent_prompt_failed"@, message: reason@ }),
{
}

/// An agent is ready exactly where the terminal of its pane is not blocked, has
/// come up, hosts it, and is known to run it.
pub proof fn lemma_ready_agent_is_the_known_one(
    app: App,
    resolved: Result<ResolvedAgent, ErrorBody>,
    probe: RuntimeProbe,
    agent: Agent,
)
    ensures
        app.ready_agent(resolved, probe) == Some(agent) <==> {
            &&& resolved is Ok
            &&& app.pane_terminal(
                resolved->Ok_0.ws_idx as int,
                resolved->Ok_0.pane_id,
            ) matches Some(terminal)
            &&& terminal.state != AgentState::Blocked
            &&& !terminal.launch_pending
            &&& terminal.known_agent == Some(agent)
            &&& probe == RuntimeProbe::HostsAgent
        },
{
}

/// A prompt is typed to the terminal that its target was resolved to: whatever the
/// task that the resolved prompt goes on with is asked to probe, encode, describe
/// or submit is in that workspace and pane.
pub proof fn lemma_resolved_prompt_probes_its_target<A>(
    app: App,
    id: String,
    params: AgentPromptParams,
    at: ResolvedAgent,
    windows: bool,
    step: PromptStep<A>,
)
    requires
        call_ensures(App::target_resolved::<A>, (&app, id, params, Ok(at), windows), step),
    ensures
        step is ProbeRuntime || step is Refused,
        step matches PromptStep::ProbeRuntime { task } ==> task.ws_idx == at.ws_idx && task.pane_id
            == at.pane_id && task.id == id && task.params == params && task.windows == windows
            && app.known_agent_at(at) == Some(task.agent),
        step matches PromptStep::Refused { id: to, .. } ==> to == id,
{
    lemma_prompt_goes_to_its_target::<A>(app, id, params, Ok(at), windows);
}

/// A prompt is submitted to the terminal of its own task, with the bytes that it
/// was handed.
pub proof fn lemma_submission_is_the_tasks_own<A>(
    task: PromptTask,
    text: Vec<u8>,
    enter: Vec<u8>,
    agent: A,
    step: PromptStep<A>,
)
    requires
        call_ensures(PromptTask::agent_described::<A>, (task, text, enter, Some(agent)), step),
    ensures
        step matches PromptStep::Submit {
            text: typed,
            enter: key,
            delay_ms,
            deadline,
            agent: told,
            task: same,
        } && external::byte_content(typed) == text@ && external::byte_content(key) == enter@
            && delay_ms == 300 && deadline == (if task.windows && task.params.wait is Some {
            task.params.wait->0.submission_deadline
        } else {
            None
        }) && told == agent && same == task,
{
}

/// The answer to a prompt tells how its submission ended, and carries its id.
pub proof fn lemma_answer_tells_how_it_ended<A>(
    id: String,
    agent: A,
    submission: Submission,
    reply: Reply<A>,
)
    requires
        call_ensures(prompt_response::<A>, (id, agent, submission), reply),
    ensures
        reply is Success <==> submission is Delivered,
        match reply {
            Reply::Success { id: to, result } => to == id && result == (
            ResponseResult::AgentPrompted { agent }),
            Reply::Error { id: to, error } => to == id && match submission {
                Submission::Delivered => false,
                Submission::TimedOut { reason } => error.code@ == "timeout"@ && error.message@
                    == reason@,
                Submission::Failed { reason } => error.code@ == "agent_prompt_failed"@
                    && error.message@ == reason@,
                Submission::Abandoned => error.code@ == "agent_prompt_failed"@ && error.message@
                    == "pty actor closed"@,
            },
        },
{
}

/// A request waits exactly where it is a prompt, which then starts as it was asked.
pub proof fn lemma_only_prompts_wait<A>(request: Request, step: Option<PromptStep<A>>)
    requires
        call_ensures(handle_deferred_agent_api_request::<A>, (request,), step),
    ensures
        step is Some <==> request.method is AgentPrompt,
        request.method matches Method::AgentPrompt(params) ==> (match step {
            Some(PromptStep::ResolveTarget { id, params: asked }) => id == request.id && asked
                == params && params.text@.len() > 0,
            Some(PromptStep::Refused { id, error }) => id == request.id && error.code@
                == "empty_agent_prompt"@ && params.text@.len() == 0,
            _ => false,
        }),
{
}

} // verus!
