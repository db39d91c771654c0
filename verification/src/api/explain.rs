//! Requests for why an agent is taken to be in its state.
use crate::api::agents::{agent_not_found, ResolvedAgent};
use crate::external::{new_object, object_value, set_member, JsonField};
use crate::schema::{self, error_reply, ErrorBody, Reply, ResponseResult};
use crate::state::{Agent, App, Terminal};
use crate::{api::agents, external};
use vstd::prelude::*;

verus! {

/// What the explanation says of an agent that reports every state change
/// itself: its screen was not looked at.
pub open spec fn lifecycle_members(agent: Seq<char>, state: Seq<char>) -> external::JsonMembers {
    external::no_members().insert("agent"@, external::JsonFieldView::Text(agent)).insert(
        "state"@,
        external::JsonFieldView::Text(state),
    ).insert("manifest_source"@, external::JsonFieldView::Null).insert(
        "manifest_version"@,
        external::JsonFieldView::Null,
    ).insert("cached_remote_version"@, external::JsonFieldView::Null).insert(
        "local_override_shadowing_remote"@,
        external::JsonFieldView::Bool(false),
    ).insert("remote_update_status"@, external::JsonFieldView::Null).insert(
        "remote_update_error"@,
        external::JsonFieldView::Null,
    ).insert("matched_rule"@, external::JsonFieldView::Null).insert(
        "visible_idle"@,
        external::JsonFieldView::Bool(false),
    ).insert("visible_blocker"@, external::JsonFieldView::Bool(false)).insert(
        "visible_working"@,
        external::JsonFieldView::Bool(false),
    ).insert("screen_detection_skipped"@, external::JsonFieldView::Bool(true)).insert(
        "screen_detection_skip_reason"@,
        external::JsonFieldView::Text("full_lifecycle_hook_authority"@),
    ).insert("skip_state_update"@, external::JsonFieldView::Bool(false)).insert(
        "skipped_update_reason"@,
        external::JsonFieldView::Null,
    ).insert("fallback_reason"@, external::JsonFieldView::Null).insert(
        "warning"@,
        external::JsonFieldView::Null,
    ).insert("evaluated_rules"@, external::JsonFieldView::EmptyList)
}

/// The explanation for an agent that reports every state change itself.
pub fn lifecycle_explanation(agent: &str, state: &str) -> (explain: serde_json::Value)
    ensures
        external::object_members(explain) == lifecycle_members(agent@, state@),
{
    let mut object = new_object();
    set_member(&mut object, "agent", JsonField::Text(agent.to_owned()));
    set_member(&mut object, "state", JsonField::Text(state.to_owned()));
    set_member(&mut object, "manifest_source", JsonField::Null);
    set_member(&mut object, "manifest_version", JsonField::Null);
    set_member(&mut object, "cached_remote_version", JsonField::Null);
    set_member(&mut object, "local_override_shadowing_remote", JsonField::Bool(false));
    set_member(&mut object, "remote_update_status", JsonField::Null);
    set_member(&mut object, "remote_update_error", JsonField::Null);
    set_member(&mut object, "matched_rule", JsonField::Null);
    set_member(&mut object, "visible_idle", JsonField::Bool(false));
    set_member(&mut object, "visible_blocker", JsonField::Bool(false));
    set_member(&mut object, "visible_working", JsonField::Bool(false));
    set_member(&mut object, "screen_detection_skipped", JsonField::Bool(true));
    set_member(
        &mut object,
        "screen_detection_skip_reason",
        JsonField::Text("full_lifecycle_hook_authority".to_owned()),
    );
    set_member(&mut object, "skip_state_update", JsonField::Bool(false));
    set_member(&mut object, "skipped_update_reason", JsonField::Null);
    set_member(&mut object, "fallback_reason", JsonField::Null);
    set_member(&mut object, "warning", JsonField::Null);
    set_member(&mut object, "evaluated_rules", JsonField::EmptyList);
    object_value(object)
}

/// What an explain request needs next.
#[derive(Debug)]
pub enum ExplainStep<A> {
    /// Nothing: this is the answer.
    Answer(Reply<A>),
    /// The explanation from the screen of the agent there, for
    /// [`agent_explained`].
    InspectScreen { id: String, at: ResolvedAgent, agent: Agent },
}

impl App {
    /// Answers for an agent that reports its state itself, or asks for its
    /// screen to be looked at.
    pub fn handle_agent_explain<A>(
        &self,
        id: String,
        target: String,
        resolved: Result<ResolvedAgent, ErrorBody>,
        has_runtime: bool,
    ) -> (step: ExplainStep<A>)
        ensures
            match resolved {
                Err(error) => step == ExplainStep::<A>::Answer(Reply::Error { id, error }),
                Ok(at) => match self.pane_terminal(at.ws_idx as int, at.pane_id) {
                    Some(terminal) => if !has_runtime {
                        step matches ExplainStep::Answer(reply) && schema::is_error(
                            reply,
                            id,
                            "agent_not_found"@,
                            agents::not_found_message(target@),
                        )
                    } else if terminal.reports_lifecycle {
                        &&& step matches ExplainStep::Answer(
                            Reply::Success {
                                id: to,
                                result: ResponseResult::AgentExplain { explain },
                            },
                        )
                        &&& to == id
                        &&& external::object_members(explain) == lifecycle_members(
                            match terminal.agent_label {
                                Some(label) => label@,
                                None => "unknown"@,
                            },
                            terminal.state_label@,
                        )
                    } else {
                        match if terminal.known_agent is Some {
                            terminal.known_agent
                        } else {
                            terminal.detected_agent
                        } {
                            Some(agent) => step == (ExplainStep::<A>::InspectScreen {
                                id,
                                at,
                                agent,
                            }),
                            None => step matches ExplainStep::Answer(reply) && schema::is_error(
                                reply,
                                id,
                                "agent_explain_unavailable"@,
                                "agent target "@ + target@
                                    + " does not have a detected agent label"@,
                            ),
                        }
                    },
                    None => step matches ExplainStep::Answer(reply) && schema::is_error(
                        reply,
                        id,
                        "agent_not_found"@,
                        agents::not_found_message(target@),
                    ),
                },
            },
    {
        let at = match resolved {
            Ok(at) => at,
            Err(error) => {
                return ExplainStep::Answer(Reply::Error { id, error });
            },
        };
        if !has_runtime {
            return ExplainStep::Answer(agent_not_found(id, target.as_str()));
        }
        let terminal = match self.terminal_at(at.ws_idx, at.pane_id) {
            Some(terminal) => terminal,
            None => {
                return ExplainStep::Answer(agent_not_found(id, target.as_str()));
            },
        };
        if terminal.reports_lifecycle {
            let label = match &terminal.agent_label {
                Some(label) => label.as_str(),
                None => "unknown",
            };
            let explain = lifecycle_explanation(label, terminal.state_label.as_str());
            return ExplainStep::Answer(
                Reply::Success { id, result: ResponseResult::AgentExplain { explain } },
            );
        }
        let agent = match terminal.known_agent {
            Some(agent) => Some(agent),
            None => terminal.detected_agent,
        };
        match agent {
            Some(agent) => ExplainStep::InspectScreen { id, at, agent },
            None => {
                let message = "agent target ".to_owned().concat(target.as_str()).concat(
                    " does not have a detected agent label",
                );
                ExplainStep::Answer(error_reply(id, "agent_explain_unavailable", message))
            },
        }
    }
}

/// Answers with the explanation from the agent's screen.
pub fn agent_explained<A>(id: String, explain: serde_json::Value) -> (reply: Reply<A>)
    ensures
        reply == (Reply::<A>::Success { id, result: ResponseResult::AgentExplain { explain } }),
{
    Reply::Success { id, result: ResponseResult::AgentExplain { explain } }
}

/// The explanation names the agent and its state as they are known, says that the
/// screen was skipped and why, and leaves everything that the screen would have
/// shown without a value. It has no further members.
pub proof fn lemma_lifecycle_explanation_tells(agent: Seq<char>, state: Seq<char>)
    ensures
        ({
            let told = lifecycle_members(agent, state);
            &&& told["agent"@] == external::JsonFieldView::Text(agent)
            &&& told["state"@] == external::JsonFieldView::Text(state)
            &&& told["manifest_source"@] == external::JsonFieldView::Null
            &&& told["manifest_version"@] == external::JsonFieldView::Null
            &&& told["cached_remote_version"@] == external::JsonFieldView::Null
            &&& told["local_override_shadowing_remote"@] == external::JsonFieldView::Bool(false)
            &&& told["remote_update_status"@] == external::JsonFieldView::Null
            &&& told["remote_update_error"@] == external::JsonFieldView::Null
            &&& told["matched_rule"@] == external::JsonFieldView::Null
            &&& told["visible_idle"@] == external::JsonFieldView::Bool(false)
            &&& told["visible_blocker"@] == external::JsonFieldView::Bool(false)
            &&& told["visible_working"@] == external::JsonFieldView::Bool(false)
            &&& told["screen_detection_skipped"@] == external::JsonFieldView::Bool(true)
            &&& told["screen_detection_skip_reason"@] == external::JsonFieldView::Text(
                "full_lifecycle_hook_authority"@,
            )
            &&& told["skip_state_update"@] == external::JsonFieldView::Bool(false)
            &&& told["skipped_update_reason"@] == external::JsonFieldView::Null
            &&& told["fallback_reason"@] == external::JsonFieldView::Null
            &&& told["warning"@] == external::JsonFieldView::Null
            &&& told["evaluated_rules"@] == external::JsonFieldView::EmptyList
        }),
        forall|name: Seq<char>| #[trigger]
            lifecycle_members(agent, state).contains_key(name) <==> {
                ||| name == "agent"@
                ||| name == "state"@
                ||| name == "manifest_source"@
                ||| name == "manifest_version"@
                ||| name == "cached_remote_version"@
                ||| name == "local_override_shadowing_remote"@
                ||| name == "remote_update_status"@
                ||| name == "remote_update_error"@
                ||| name == "matched_rule"@
                ||| name == "visible_idle"@
                ||| name == "visible_blocker"@
                ||| name == "visible_working"@
                ||| name == "screen_detection_skipped"@
                ||| name == "screen_detection_skip_reason"@
                ||| name == "skip_state_update"@
                ||| name == "skipped_update_reason"@
                ||| name == "fallback_reason"@
                ||| name == "warning"@
                ||| name == "evaluated_rules"@
            },
{
    reveal_strlit("agent");
    reveal_strlit("state");
    reveal_strlit("manifest_source");
    reveal_strlit("manifest_version");
    reveal_strlit("cached_remote_version");
    reveal_strlit("local_override_shadowing_remote");
    reveal_strlit("remote_update_status");
    reveal_strlit("remote_update_error");
    reveal_strlit("matched_rule");
    reveal_strlit("visible_idle");
    reveal_strlit("visible_blocker");
    reveal_strlit("visible_working");
    reveal_strlit("screen_detection_skipped");
    reveal_strlit("screen_detection_skip_reason");
    reveal_strlit("skip_state_update");
    reveal_strlit("skipped_update_reason");
    reveal_strlit("fallback_reason");
    reveal_strlit("warning");
    reveal_strlit("evaluated_rules");
    assert("agent"@.len() == 5);
    assert("state"@.len() == 5);
    assert("manifest_source"@.len() == 15);
    assert("manifest_version"@.len() == 16);
    assert("cached_remote_version"@.len() == 21);
    assert("local_override_shadowing_remote"@.len() == 31);
    assert("remote_update_status"@.len() == 20);
    assert("remote_update_error"@.len() == 19);
    assert("matched_rule"@.len() == 12);
    assert("visible_idle"@.len() == 12);
    assert("visible_blocker"@.len() == 15);
    assert("visible_working"@.len() == 15);
    assert("screen_detection_skipped"@.len() == 24);
    assert("screen_detection_skip_reason"@.len() == 28);
    assert("skip_state_update"@.len() == 17);
    assert("skipped_update_reason"@.len() == 21);
    assert("fallback_reason"@.len() == 15);
    assert("warning"@.len() == 7);
    assert("evaluated_rules"@.len() == 15);
    assert("agent"@[0] != "state"@[0]);
    assert("manifest_source"@[0] != "visible_blocker"@[0]);
    assert("manifest_source"@[0] != "visible_working"@[0]);
    assert("manifest_source"@[0] != "fallback_reason"@[0]);
    assert("manifest_source"@[0] != "evaluated_rules"@[0]);
    assert("cached_remote_version"@[0] != "skipped_update_reason"@[0]);
    assert("matched_rule"@[0] != "visible_idle"@[0]);
    assert("visible_blocker"@[8] != "visible_working"@[8]);
    assert("visible_blocker"@[0] != "fallback_reason"@[0]);
    assert("visible_blocker"@[0] != "evaluated_rules"@[0]);
    assert("visible_working"@[0] != "fallback_reason"@[0]);
    assert("visible_working"@[0] != "evaluated_rules"@[0]);
    assert("fallback_reason"@[0] != "evaluated_rules"@[0]);
}

/// A self-reporting agent is explained by its own label and state; another from
/// the screen of the terminal that its target was resolved to, as the agent that
/// it is known to be before what it was detected as.
pub proof fn lemma_explanation_is_about_the_target<A>(
    app: App,
    id: String,
    target: String,
    at: ResolvedAgent,
    has_runtime: bool,
    terminal: Terminal,
    step: ExplainStep<A>,
)
    requires
        call_ensures(App::handle_agent_explain::<A>, (&app, id, target, Ok(at), has_runtime), step),
        app.pane_terminal(at.ws_idx as int, at.pane_id) == Some(terminal),
    ensures
        !has_runtime ==> (step matches ExplainStep::Answer(Reply::Error { id: to, error }) && to
            == id && error.code@ == "agent_not_found"@),
        has_runtime && terminal.reports_lifecycle ==> (step matches ExplainStep::Answer(
            Reply::Success { id: to, result: ResponseResult::AgentExplain { explain } },
        ) && to == id && external::object_members(explain)["agent"@]
            == external::JsonFieldView::Text(
            match terminal.agent_label {
                Some(label) => label@,
                None => "unknown"@,
            },
        ) && external::object_members(explain)["state"@] == external::JsonFieldView::Text(
            terminal.state_label@,
        )),
        has_runtime && !terminal.reports_lifecycle && (terminal.known_agent is Some
            || terminal.detected_agent is Some) ==> (step matches ExplainStep::InspectScreen {
            id: to,
            at: same,
            agent,
        } && to == id && same == at && (terminal.known_agent == Some(agent)
            || terminal.known_agent is None && terminal.detected_agent == Some(agent))),
        has_runtime && !terminal.reports_lifecycle && terminal.known_agent is None
            && terminal.detected_agent is None ==> (step matches ExplainStep::Answer(
            Reply::Error { id: to, error },
        ) && to == id && error.code@ == "agent_explain_unavailable"@ && error.message@
            == "agent target "@ + target@ + " does not have a detected agent label"@),
{
    lemma_lifecycle_explanation_tells(
        match terminal.agent_label {
            Some(label) => label@,
            None => "unknown"@,
        },
        terminal.state_label@,
    );
}

} // verus!
