//! Requests that send keys to an agent.
use crate::api::agents::{self, agent_not_found, agent_not_ready, ResolvedAgent, RuntimeProbe};
use crate::external::{self, buffer_of};
use crate::schema::{
    self, error_reply, AgentSendKeysParams, ErrorBody, PaneId, Reply, ResponseResult,
};
use crate::state::{Agent, App};
use bytes::Bytes;
use vstd::prelude::*;

verus! {

/// A send-keys request whose target runs an agent.
#[derive(Debug)]
pub struct KeysTask {
    pub id: String,
    pub params: AgentSendKeysParams,
    pub ws_idx: usize,
    pub pane_id: PaneId,
    pub agent: Agent,
}

/// What a send-keys request needs next.
#[derive(Debug)]
pub enum KeysStep<A> {
    /// Nothing: this is the answer.
    Answer(Reply<A>),
    /// Whether the pane's terminal hosts the agent, for
    /// [`KeysTask::runtime_probed`].
    ProbeRuntime { task: KeysTask },
    /// The bytes of each key, for [`KeysTask::keys_encoded`].
    EncodeKeys { task: KeysTask },
    /// The bytes to be sent, for [`keys_sent`].
    SendBytes { bytes: Bytes, task: KeysTask },
}

/// The bytes of the keys, one key after the other.
pub open spec fn joined(keys: Seq<Vec<u8>>) -> Seq<u8>
    decreases keys.len(),
{
    if keys.len() == 0 {
        Seq::empty()
    } else {
        joined(keys.drop_last()) + keys.last()@
    }
}

fn join(keys: &Vec<Vec<u8>>) -> (bytes: Vec<u8>)
    ensures
        bytes@ == joined(keys@),
{
    let mut bytes: Vec<u8> = Vec::new();
    let mut i: usize = 0;
    assert(keys@.take(0) =~= Seq::empty());
    while i < keys.len()
        invariant
            i <= keys@.len(),
            bytes@ == joined(keys@.take(i as int)),
        decreases keys@.len() - i,
    {
        let ghost before = bytes@;
        assert(keys@.take(i + 1).drop_last() == keys@.take(i as int));
        bytes.extend_from_slice(keys[i].as_slice());
        assert(bytes@ =~= before + keys@[i as int]@);
        i = i + 1;
    }
    assert(keys@.take(i as int) == keys@);
    bytes
}

impl App {
    /// Starts a send-keys request: its target must run a known agent.
    pub fn handle_agent_send_keys<A>(
        &self,
        id: String,
        params: AgentSendKeysParams,
        resolved: Result<ResolvedAgent, ErrorBody>,
    ) -> (step: KeysStep<A>)
        ensures
            match resolved {
                Err(error) => step == KeysStep::<A>::Answer(Reply::Error { id, error }),
                Ok(at) => if self.pane_terminal_id(at.ws_idx as int, at.pane_id) is None {
                    step matches KeysStep::Answer(reply) && schema::is_error(
                        reply,
                        id,
                        "agent_not_found"@,
                        agents::not_found_message(params.target@),
                    )
                } else {
                    match self.known_agent_at(at) {
                        Some(agent) => step == (KeysStep::<A>::ProbeRuntime {
                            task: KeysTask {
                                id,
                                params,
                                ws_idx: at.ws_idx,
                                pane_id: at.pane_id,
                                agent,
                            },
                        }),
                        None => step matches KeysStep::Answer(reply) && schema::is_error(
                            reply,
                            id,
                            "agent_not_ready"@,
                            agents::not_ready_message(params.target@),
                        ),
                    }
                },
            },
    {
        let resolved = match resolved {
            Ok(resolved) => resolved,
            Err(error) => {
                return KeysStep::Answer(Reply::Error { id, error });
            },
        };
        let (ws_idx, pane_id) = (resolved.ws_idx, resolved.pane_id);
        if self.terminal_id_at(ws_idx, pane_id).is_none() {
            return KeysStep::Answer(agent_not_found(id, params.target.as_str()));
        }
        let known = match self.terminal_at(ws_idx, pane_id) {
            Some(terminal) => terminal.known_agent,
            None => None,
        };
        match known {
            Some(agent) => KeysStep::ProbeRuntime {
                task: KeysTask { id, params, ws_idx, pane_id, agent },
            },
            None => KeysStep::Answer(agent_not_ready(id, params.target.as_str())),
        }
    }
}

impl KeysTask {
    /// Goes on where the agent is the terminal's foreground process.
    pub fn runtime_probed<A>(self, probe: RuntimeProbe) -> (step: KeysStep<A>)
        ensures
            match probe {
                RuntimeProbe::Missing => step matches KeysStep::Answer(reply) && schema::is_error(
                    reply,
                    self.id,
                    "agent_not_found"@,
                    agents::not_found_message(self.params.target@),
                ),
                RuntimeProbe::OtherProcess => step matches KeysStep::Answer(reply)
                    && schema::is_error(
                    reply,
                    self.id,
                    "agent_not_ready"@,
                    agents::not_ready_message(self.params.target@),
                ),
                RuntimeProbe::HostsAgent => step == (KeysStep::<A>::EncodeKeys { task: self }),
            },
    {
        match probe {
            RuntimeProbe::Missing => KeysStep::Answer(
                agent_not_found(self.id, self.params.target.as_str()),
            ),
            RuntimeProbe::OtherProcess => KeysStep::Answer(
                agent_not_ready(self.id, self.params.target.as_str()),
            ),
            RuntimeProbe::HostsAgent => KeysStep::EncodeKeys { task: self },
        }
    }

    /// Sends the bytes of all keys together. One key that is not supported
    /// refuses the request, and nothing is sent.
    pub fn keys_encoded<A>(self, encoded: Result<Vec<Vec<u8>>, String>) -> (step: KeysStep<A>)
        ensures
            match encoded {
                Ok(keys) => step matches KeysStep::SendBytes { bytes, task } && task == self
                    && external::byte_content(bytes) == joined(keys@),
                Err(key) => step matches KeysStep::Answer(reply) && schema::is_error(
                    reply,
                    self.id,
                    "invalid_key"@,
                    "unsupported key "@ + key@,
                ),
            },
    {
        match encoded {
            Ok(keys) => KeysStep::SendBytes { bytes: buffer_of(join(&keys)), task: self },
            Err(key) => KeysStep::Answer(
                error_reply(
                    self.id,
                    "invalid_key",
                    "unsupported key ".to_owned().concat(key.as_str()),
                ),
            ),
        }
    }
}

/// Ends a send-keys request.
pub fn keys_sent<A>(id: String, sent: Result<(), String>) -> (reply: Reply<A>)
    ensures
        match sent {
            Ok(()) => reply == (Reply::<A>::Success { id, result: ResponseResult::Acknowledged }),
            Err(reason) => schema::is_error(reply, id, "agent_send_keys_failed"@, reason@),
        },
{
    match sent {
        Ok(()) => Reply::Success { id, result: ResponseResult::Acknowledged },
        Err(reason) => error_reply(id, "agent_send_keys_failed", reason),
    }
}

/// The keys of a request go out in their order: those of a longer request are
/// those of its beginning, then those of its rest.
pub proof fn lemma_keys_keep_their_order(first: Seq<Vec<u8>>, rest: Seq<Vec<u8>>)
    ensures
        joined(first + rest) == joined(first) + joined(rest),
    decreases rest.len(),
{
    if rest.len() == 0 {
        assert(first + rest =~= first);
        assert(joined(first + rest) =~= joined(first) + joined(rest));
    } else {
        lemma_keys_keep_their_order(first, rest.drop_last());
        assert((first + rest).drop_last() =~= first + rest.drop_last());
        assert(joined(first + rest) =~= joined(first) + joined(rest));
    }
}

/// One key is its bytes, and no key is none.
pub proof fn lemma_one_key_is_its_bytes(key: Vec<u8>)
    ensures
        joined(Seq::empty()) == Seq::<u8>::empty(),
        joined(seq![key]) == key@,
{
    reveal_with_fuel(joined, 2);
    assert(seq![key].drop_last() =~= Seq::empty());
    assert(Seq::<u8>::empty() + key@ =~= key@);
}

/// Keys go to the terminal that the target was resolved to, where it is known to
/// run an agent; else the request is answered at once.
pub proof fn lemma_keys_go_to_their_target<A>(
    app: App,
    id: String,
    params: AgentSendKeysParams,
    resolved: Result<ResolvedAgent, ErrorBody>,
    step: KeysStep<A>,
)
    requires
        call_ensures(App::handle_agent_send_keys::<A>, (&app, id, params, resolved), step),
    ensures
        match step {
            KeysStep::ProbeRuntime { task } => {
                &&& resolved matches Ok(at)
                &&& task.ws_idx == at.ws_idx
                &&& task.pane_id == at.pane_id
                &&& app.pane_terminal(at.ws_idx as int, at.pane_id) matches Some(terminal)
                &&& terminal.known_agent == Some(task.agent)
                &&& task.id == id
                &&& task.params == params
            },
            KeysStep::Answer(reply) => {
                &&& reply matches Reply::Error { id: to, error }
                &&& to == id
                &&& match resolved {
                    Err(problem) => error == problem,
                    Ok(at) => if app.pane_terminal_id(at.ws_idx as int, at.pane_id) is None {
                        error.code@ == "agent_not_found"@ && error.message@ == "agent target "@
                            + params.target@ + " not found"@
                    } else {
                        &&& app.known_agent_at(at) is None
                        &&& error.code@ == "agent_not_ready"@
                        &&& error.message@ == "agent "@ + params.target@
                            + " is not an active named agent"@
                    },
                }
            },
            _ => false,
        },
{
}

/// The keys are encoded exactly where the terminal hosts the agent, for the same
/// task. Then they are sent all together or not at all: one key that is not
/// supported is named in the answer, and nothing is sent.
pub proof fn lemma_keys_are_sent_together_or_not_at_all<A>(
    task: KeysTask,
    probe: RuntimeProbe,
    probed: KeysStep<A>,
    encoded: Result<Vec<Vec<u8>>, String>,
    step: KeysStep<A>,
    sent: Result<(), String>,
    reply: Reply<A>,
)
    requires
        call_ensures(KeysTask::runtime_probed::<A>, (task, probe), probed),
        call_ensures(KeysTask::keys_encoded::<A>, (task, encoded), step),
        call_ensures(keys_sent::<A>, (task.id, sent), reply),
    ensures
        probe == RuntimeProbe::HostsAgent <==> probed is EncodeKeys,
        probed matches KeysStep::EncodeKeys { task: same } ==> same == task,
        probe == RuntimeProbe::Missing ==> (probed matches KeysStep::Answer(
            Reply::Error { id, error },
        ) && id == task.id && error.code@ == "agent_not_found"@),
        probe == RuntimeProbe::OtherProcess ==> (probed matches KeysStep::Answer(
            Reply::Error { id, error },
        ) && id == task.id && error.code@ == "agent_not_ready"@),
        encoded matches Ok(keys) ==> (step matches KeysStep::SendBytes { bytes, task: same }
            && external::byte_content(bytes) == joined(keys@) && same == task),
        encoded matches Err(key) ==> (step matches KeysStep::Answer(Reply::Error { id, error })
            && id == task.id && error.code@ == "invalid_key"@ && error.message@
            == "unsupported key "@ + key@),
        sent is Ok <==> reply is Success,
        sent matches Err(reason) ==> (reply matches Reply::Error { id, error } && id == task.id
            && error.code@ == "agent_send_keys_failed"@ && error.message@ == reason@),
        reply matches Reply::Success { id, result } ==> id == task.id && result is Acknowledged,
{
}

} // verus!
