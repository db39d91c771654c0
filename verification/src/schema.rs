//! What the API takes and answers.
use crate::text;
use crate::tmux::TmuxSession;
use vstd::prelude::*;

verus! {

/// Identifies a pane within its workspace.
pub type PaneId = u64;

/// Environment variables for a launched command. A later value for a variable
/// replaces an earlier one.
#[derive(Debug)]
pub struct LaunchEnv {
    entries: Vec<(String, String)>,
}

/// The variables that `entries` set, the later ones over the earlier.
pub open spec fn env_map(entries: Seq<(String, String)>) -> Map<Seq<char>, Seq<char>>
    decreases entries.len(),
{
    if entries.len() == 0 {
        Map::empty()
    } else {
        env_map(entries.drop_last()).insert(entries.last().0@, entries.last().1@)
    }
}

/// No variable is set twice.
pub open spec fn distinct_names(entries: Seq<(String, String)>) -> bool {
    forall|i: int, j: int| #![auto]
        0 <= i < j < entries.len() ==> entries[i].0@ != entries[j].0@
}

proof fn lemma_env_map_without(entries: Seq<(String, String)>, i: int, value: Seq<char>)
    requires
        0 <= i < entries.len(),
    ensures
        env_map(entries.remove(i)).insert(entries[i].0@, value) == env_map(entries).insert(
            entries[i].0@,
            value,
        ),
    decreases entries.len(),
{
    let name = entries[i].0@;
    if i == entries.len() - 1 {
        assert(entries.remove(i) == entries.drop_last());
        assert(env_map(entries).insert(name, value) =~= env_map(entries.drop_last()).insert(
            name,
            value,
        ));
    } else {
        lemma_env_map_without(entries.drop_last(), i, value);
        let rest = entries.remove(i);
        assert(rest.drop_last() == entries.drop_last().remove(i));
        assert(rest.last() == entries.last());
        let last = entries.last();
        let shorter = env_map(entries.drop_last());
        let without = env_map(rest.drop_last());
        let left = without.insert(last.0@, last.1@).insert(name, value);
        let right = shorter.insert(last.0@, last.1@).insert(name, value);
        assert forall|k: Seq<char>| left.contains_key(k) == right.contains_key(k) by {
            assert(without.insert(name, value).contains_key(k) == shorter.insert(
                name,
                value,
            ).contains_key(k));
        }
        assert forall|k: Seq<char>| left.contains_key(k) implies left[k] == right[k] by {
            assert(without.insert(name, value)[k] == shorter.insert(name, value)[k]);
        }
        assert(left =~= right);
    }
}

impl View for LaunchEnv {
    type V = Map<Seq<char>, Seq<char>>;

    closed spec fn view(&self) -> Map<Seq<char>, Seq<char>> {
        env_map(self.entries@)
    }
}

impl LaunchEnv {
    #[verifier::type_invariant]
    spec fn well_formed(self) -> bool {
        distinct_names(self.entries@)
    }

    /// No variable.
    pub fn new() -> (env: Self)
        ensures
            env@ == Map::<Seq<char>, Seq<char>>::empty(),
    {
        LaunchEnv { entries: Vec::new() }
    }

    /// This environment with `name` set to `value`.
    pub fn with(self, name: String, value: String) -> (env: Self)
        ensures
            env@ == self@.insert(name@, value@),
    {
        proof {
            use_type_invariant(&self);
        }
        let mut entries = self.entries;
        let ghost before = entries@;
        let mut i: usize = 0;
        while i < entries.len()
            invariant
                i <= entries@.len(),
                entries@ == before,
                distinct_names(before),
                forall|j: int| #![auto] 0 <= j < i ==> entries@[j].0@ != name@,
            ensures
                i <= entries@.len(),
                i < entries@.len() ==> entries@[i as int].0@ == name@,
            decreases entries@.len() - i,
        {
            if entries[i].0.as_str().eq(name.as_str()) {
                break;
            }
            i = i + 1;
        }
        if i < entries.len() {
            proof {
                lemma_env_map_without(before, i as int, value@);
            }
            let _ = entries.remove(i);
        }
        let ghost rest = entries@;
        entries.push((name, value));
        assert(entries@.drop_last() == rest);
        LaunchEnv { entries }
    }

    /// The variables with their values.
    pub fn entries(&self) -> (entries: &Vec<(String, String)>)
        ensures
            env_map(entries@) == self@,
            distinct_names(entries@),
    {
        proof {
            use_type_invariant(self);
        }
        &self.entries
    }
}

/// Asks to show a tmux session in a workspace.
#[derive(Debug)]
pub struct TmuxAttachParams {
    pub session: String,
    pub focus: bool,
    pub label: Option<String>,
    pub cwd: Option<String>,
    pub env: LaunchEnv,
}

/// Asks to place one agent row before another, or at the end.
#[derive(Debug, Clone, PartialEq, Eq)]
pub struct AgentMoveParams {
    pub pane_id: String,
    pub before_pane_id: Option<String>,
}

/// How long a prompt may take to be submitted.
#[derive(Debug, Clone, Copy, PartialEq, Eq)]
pub struct PromptWait {
    /// A reading of the caller's clock, in milliseconds.
    pub submission_deadline: Option<u64>,
}

/// Asks to type a prompt to an agent and submit it.
#[derive(Debug, Clone, PartialEq, Eq)]
pub struct AgentPromptParams {
    pub target: String,
    pub text: String,
    pub wait: Option<PromptWait>,
}

/// Asks to send keys to an agent.
#[derive(Debug, Clone, PartialEq, Eq)]
pub struct AgentSendKeysParams {
    pub target: String,
    pub keys: Vec<String>,
}

/// Asks to read an agent's terminal.
#[derive(Debug, Clone, PartialEq, Eq)]
pub struct AgentReadParams {
    pub target: String,
    /// The name of the part of the terminal that is read.
    pub source: String,
    /// The name of the notation that the text is read in.
    pub format: String,
    pub lines: Option<u32>,
}

/// What a request asks for.
#[derive(Debug)]
pub enum Method {
    AgentList,
    AgentMove(AgentMoveParams),
    AgentPrompt(AgentPromptParams),
    AgentRead(AgentReadParams),
    AgentExplain { target: String },
    AgentSendKeys(AgentSendKeysParams),
    TmuxList,
    TmuxAttach(TmuxAttachParams),
}

/// A request and the id that its answer carries.
#[derive(Debug)]
pub struct Request {
    pub id: String,
    pub method: Method,
}

/// The text read from a pane.
#[derive(Debug, Clone, PartialEq, Eq)]
pub struct PaneReadResult {
    pub pane_id: String,
    pub workspace_id: String,
    pub tab_id: String,
    /// The name of the part of the terminal that is read.
    pub source: String,
    /// The name of the notation that the text is read in.
    pub format: String,
    pub text: String,
    pub revision: u64,
    pub truncated: bool,
}

/// A tmux session, and the workspace that shows it.
#[derive(Debug, Clone, PartialEq, Eq)]
pub struct TmuxSessionInfo {
    pub name: String,
    pub windows: usize,
    pub attached: usize,
    pub created_unix: Option<u64>,
    pub path: Option<String>,
    pub open_workspace_id: Option<String>,
}

impl TmuxSessionInfo {
    /// This describes `session`.
    pub open spec fn describes(self, session: TmuxSession) -> bool {
        &&& self.name@ == session.name@
        &&& self.windows == session.windows
        &&& self.attached == session.attached
        &&& self.created_unix == session.created_unix
        &&& text::optional(self.path) == text::optional(session.path)
    }
}

/// What went wrong.
#[derive(Debug, Clone, PartialEq, Eq)]
pub struct ErrorBody {
    pub code: String,
    pub message: String,
}

/// What a request came to. `A` describes an agent.
#[derive(Debug)]
pub enum ResponseResult<A> {
    Acknowledged,
    AgentList { agents: Vec<A> },
    AgentInfo { agent: A },
    AgentStarted { agent: A, argv: Vec<String> },
    AgentPrompted { agent: A },
    AgentExplain { explain: serde_json::Value },
    PaneRead { read: PaneReadResult },
    TmuxSessionList { sessions: Vec<TmuxSessionInfo> },
    /// The workspace with its active tab and that tab's root pane.
    TmuxAttached {
        ws_idx: usize,
        tab_idx: usize,
        root_pane: PaneId,
        session: TmuxSessionInfo,
        already_open: bool,
    },
}

/// The answer to the request `id`.
#[derive(Debug)]
pub enum Reply<A> {
    Success { id: String, result: ResponseResult<A> },
    Error { id: String, error: ErrorBody },
}

/// `reply` answers the request `id` with the given error.
pub open spec fn is_error<A>(
    reply: Reply<A>,
    id: String,
    code: Seq<char>,
    message: Seq<char>,
) -> bool {
    reply matches Reply::Error { id: to, error } && to == id && error.code@ == code
        && error.message@ == message
}

/// Answers `id` with an error.
pub fn error_reply<A>(id: String, code: &str, message: String) -> (reply: Reply<A>)
    ensures
        is_error(reply, id, code@, message@),
{
    Reply::Error { id, error: ErrorBody { code: code.to_owned(), message } }
}

/// What subscribers are told.
#[derive(Debug, Clone, PartialEq, Eq)]
pub enum EventData {
    AgentReordered { pane_ids: Vec<String> },
    WorkspaceRenamed { workspace_id: String, label: String },
    /// The events of a newly opened workspace with its tab and pane.
    WorkspaceOpened { ws_idx: usize },
}

/// A variable that is set last has the value it was set to, and setting it leaves
/// the others as they were.
pub proof fn lemma_last_assignment_wins(
    entries: Seq<(String, String)>,
    entry: (String, String),
    other: Seq<char>,
)
    ensures
        env_map(Seq::empty()).dom() == Set::<Seq<char>>::empty(),
        env_map(entries.push(entry)).contains_key(entry.0@),
        env_map(entries.push(entry))[entry.0@] == entry.1@,
        other != entry.0@ ==> env_map(entries.push(entry)).contains_key(other) == env_map(
            entries,
        ).contains_key(other),
        other != entry.0@ && env_map(entries).contains_key(other) ==> env_map(
            entries.push(entry),
        )[other] == env_map(entries)[other],
{
    assert(entries.push(entry).drop_last() =~= entries);
    assert(env_map(Seq::empty()).dom() =~= Set::<Seq<char>>::empty());
}

/// An error answer carries the id of its request, its code and its message.
pub proof fn lemma_error_answer<A>(
    reply: Reply<A>,
    id: String,
    code: Seq<char>,
    message: Seq<char>,
)
    ensures
        is_error(reply, id, code, message) <==> match reply {
            Reply::Error { id: to, error } => to == id && error.code@ == code && error.message@
                == message,
            Reply::Success { .. } => false,
        },
{
}

/// What is told of a session is what is known of it.
pub proof fn lemma_description_tells_every_field(info: TmuxSessionInfo, session: TmuxSession)
    requires
        info.describes(session),
    ensures
        info.name@ == session.name@,
        info.windows == session.windows,
        info.attached == session.attached,
        info.created_unix == session.created_unix,
        info.path is Some <==> session.path is Some,
        info.path is Some ==> info.path->0@ == session.path->0@,
{
}

/// No variable is set twice where any two entries name different ones.
pub proof fn lemma_distinct_names_differ(entries: Seq<(String, String)>, i: int, j: int)
    requires
        distinct_names(entries),
        0 <= i < j < entries.len(),
    ensures
        entries[i].0@ != entries[j].0@,
{
}

} // verus!
