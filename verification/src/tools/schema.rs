//! The actions of the tool, their arguments and the shape of their answers.

use vstd::prelude::*;

use crate::json::{
    bool_of, empty_object, field, items_view, json_pretty, ref_view, str_of, to_pretty_text,
    Json, JsonView,
};
use crate::text::text_eq;
use crate::transport::{copied, field_text};

verus! {

#[derive(Debug, Clone, Copy, PartialEq, Eq, Structural)]
pub enum ToolAction {
    BackendStatus,
    BackendPing,
    BackendRefresh,
    BackendRestart,
    BackendStop,
}

pub open spec fn tool_action_name(action: ToolAction) -> Seq<char> {
    match action {
        ToolAction::BackendStatus => "backend.status"@,
        ToolAction::BackendPing => "backend.ping"@,
        ToolAction::BackendRefresh => "backend.refresh"@,
        ToolAction::BackendRestart => "backend.restart"@,
        ToolAction::BackendStop => "backend.stop"@,
    }
}

pub open spec fn tool_action_of(name: Seq<char>) -> Option<ToolAction> {
    if name == "backend.status"@ {
        Some(ToolAction::BackendStatus)
    } else if name == "backend.ping"@ {
        Some(ToolAction::BackendPing)
    } else if name == "backend.refresh"@ {
        Some(ToolAction::BackendRefresh)
    } else if name == "backend.restart"@ {
        Some(ToolAction::BackendRestart)
    } else if name == "backend.stop"@ {
        Some(ToolAction::BackendStop)
    } else {
        None
    }
}

/// What is wrong with the params of an action, if anything: only a restart
/// constrains them, `force` to a boolean.
pub open spec fn params_fault(action: ToolAction, params: JsonView) -> Option<Seq<char>> {
    if action == ToolAction::BackendRestart && (field(params, "force"@) matches Some(v) && !(
    v is Bool)) {
        Some("`params.force` must be a boolean"@)
    } else {
        None
    }
}

impl ToolAction {
    pub fn from_name(name: &str) -> (action: Option<ToolAction>)
        ensures
            action == tool_action_of(name@),
    {
        if text_eq(name, "backend.status") {
            Some(ToolAction::BackendStatus)
        } else if text_eq(name, "backend.ping") {
            Some(ToolAction::BackendPing)
        } else if text_eq(name, "backend.refresh") {
            Some(ToolAction::BackendRefresh)
        } else if text_eq(name, "backend.restart") {
            Some(ToolAction::BackendRestart)
        } else if text_eq(name, "backend.stop") {
            Some(ToolAction::BackendStop)
        } else {
            None
        }
    }

    pub fn name(self) -> (name: &'static str)
        ensures
            name@ == tool_action_name(self),
    {
        match self {
            ToolAction::BackendStatus => "backend.status",
            ToolAction::BackendPing => "backend.ping",
            ToolAction::BackendRefresh => "backend.refresh",
            ToolAction::BackendRestart => "backend.restart",
            ToolAction::BackendStop => "backend.stop",
        }
    }

    /// Checks the params of the action.
    pub fn validate_params(self, params: &Json) -> (r: Result<(), &'static str>)
        ensures
            match r {
                Ok(_) => params_fault(self, params@) is None,
                Err(message) => params_fault(self, params@) == Some(message@),
            },
    {
        match self {
            ToolAction::BackendRestart => match params.get("force") {
                Some(force) => if force.is_boolean() {
                    Ok(())
                } else {
                    Err("`params.force` must be a boolean")
                },
                None => Ok(()),
            },
            _ => Ok(()),
        }
    }
}

/// A checked call of the tool.
#[derive(Debug)]
pub struct ToolInvocation {
    pub action: ToolAction,
    pub target: String,
    pub params: Json,
}

/// The value of a `ToolInvocation`.
#[verifier::ext_equal]
pub struct InvocationView {
    pub action: ToolAction,
    pub target: Seq<char>,
    pub params: JsonView,
}

impl View for ToolInvocation {
    type V = InvocationView;

    open spec fn view(&self) -> InvocationView {
        InvocationView { action: self.action, target: self.target@, params: self.params@ }
    }
}

pub open spec fn ok_view(action: Seq<char>, target: Seq<char>, result: JsonView) -> JsonView {
    JsonView::Obj(
        map![
            "ok"@ => JsonView::Bool(true),
            "action"@ => JsonView::Str(action),
            "target"@ => JsonView::Str(target),
            "result"@ => result,
            "error"@ => JsonView::Null,
            "evidence"@ => empty_object(),
        ],
    )
}

pub open spec fn code_and_message(code: Seq<char>, message: Seq<char>) -> JsonView {
    JsonView::Obj(
        map![
            "code"@ => JsonView::Str(code),
            "message"@ => JsonView::Str(message),
        ],
    )
}

pub open spec fn fault_view(
    action: Seq<char>,
    target: Seq<char>,
    code: Seq<char>,
    message: Seq<char>,
) -> JsonView {
    JsonView::Obj(
        map![
            "ok"@ => JsonView::Bool(false),
            "action"@ => JsonView::Str(action),
            "target"@ => JsonView::Str(target),
            "result"@ => JsonView::Null,
            "error"@ => code_and_message(code, message),
            "evidence"@ => empty_object(),
        ],
    )
}

/// The envelope of an action that went well.
pub fn ok_envelope(action: &str, target: &str, result: Json) -> (j: Json)
    ensures
        j@ == ok_view(action@, target@, result@),
{
    let mut j = Json::object();
    j.set("ok", Json::Bool(true));
    j.set("action", Json::text(action));
    j.set("target", Json::text(target));
    j.set("result", result);
    j.set("error", Json::Null);
    j.set("evidence", Json::object());
    j
}

/// The envelope of an action that was refused or failed.
pub fn error_envelope(action: &str, target: &str, code: &str, message: &str) -> (j: Json)
    ensures
        j@ == fault_view(action@, target@, code@, message@),
{
    let mut error = Json::object();
    error.set("code", Json::text(code));
    error.set("message", Json::text(message));
    let mut j = Json::object();
    j.set("ok", Json::Bool(false));
    j.set("action", Json::text(action));
    j.set("target", Json::text(target));
    j.set("result", Json::Null);
    j.set("error", error);
    j.set("evidence", Json::object());
    j
}

/// The call that arguments stand for, or the envelope that says what is wrong
/// with them: the first thing in this order.
pub open spec fn invocation_of(arguments: Option<JsonView>) -> Result<InvocationView, JsonView> {
    let args = match arguments {
        Some(v) => v,
        None => JsonView::Null,
    };
    if !(args is Obj) {
        Err(
            fault_view(
                "unknown"@,
                "default"@,
                "invalidParams"@,
                "`arguments` must be an object with an action field"@,
            ),
        )
    } else {
        match str_of(field(args, "action"@)) {
            None => Err(
                fault_view("unknown"@, "default"@, "invalidParams"@, "`action` is required"@),
            ),
            Some(name) => match tool_action_of(name) {
                None => Err(
                    fault_view(
                        name,
                        "default"@,
                        "unknownAction"@,
                        "unsupported mcp.wrapper action"@,
                    ),
                ),
                Some(action) => {
                    let target = match str_of(field(args, "target"@)) {
                        Some(t) => t,
                        None => "default"@,
                    };
                    let params = match field(args, "params"@) {
                        Some(p) => p,
                        None => empty_object(),
                    };
                    if target != "default"@ {
                        Err(
                            fault_view(
                                tool_action_name(action),
                                target,
                                "unsupportedTarget"@,
                                "only target `default` is supported in single-backend mode"@,
                            ),
                        )
                    } else if !(params is Obj) {
                        Err(
                            fault_view(
                                tool_action_name(action),
                                target,
                                "invalidParams"@,
                                "`params` must be an object when present"@,
                            ),
                        )
                    } else {
                        match params_fault(action, params) {
                            Some(message) => Err(
                                fault_view(
                                    tool_action_name(action),
                                    target,
                                    "invalidParams"@,
                                    message,
                                ),
                            ),
                            None => Ok(InvocationView { action, target, params }),
                        }
                    }
                },
            },
        }
    }
}

impl ToolInvocation {
    /// Checks the arguments of a call. What comes out is valid; else the envelope
    /// says what is wrong.
    pub fn from_arguments(arguments: Option<&Json>) -> (r: Result<ToolInvocation, Json>)
        ensures
            match r {
                Ok(invocation) => invocation_of(ref_view(arguments)) == Ok::<
                    InvocationView,
                    JsonView,
                >(invocation@),
                Err(envelope) => invocation_of(ref_view(arguments)) == Err::<
                    InvocationView,
                    JsonView,
                >(envelope@),
            },
    {
        let args = match arguments {
            Some(args) if args.is_object() => args,
            _ => {
                return Err(
                    error_envelope(
                        "unknown",
                        "default",
                        "invalidParams",
                        "`arguments` must be an object with an action field",
                    ),
                );
            },
        };
        let action_name = match field_text(args.get("action")) {
            Some(name) => name,
            None => {
                return Err(
                    error_envelope("unknown", "default", "invalidParams", "`action` is required"),
                );
            },
        };
        let action = match ToolAction::from_name(action_name) {
            Some(action) => action,
            None => {
                return Err(
                    error_envelope(
                        action_name,
                        "default",
                        "unknownAction",
                        "unsupported mcp.wrapper action",
                    ),
                );
            },
        };
        let target = match field_text(args.get("target")) {
            Some(target) => target,
            None => "default",
        };
        if !text_eq(target, "default") {
            return Err(
                error_envelope(
                    action.name(),
                    target,
                    "unsupportedTarget",
                    "only target `default` is supported in single-backend mode",
                ),
            );
        }
        let params = match copied(args.get("params")) {
            Some(params) => params,
            None => Json::object(),
        };
        if !params.is_object() {
            return Err(
                error_envelope(
                    action.name(),
                    target,
                    "invalidParams",
                    "`params` must be an object when present",
                ),
            );
        }
        match action.validate_params(&params) {
            Err(message) => Err(error_envelope(action.name(), target, "invalidParams", message)),
            Ok(_) => Ok(ToolInvocation { action, target: target.to_owned(), params }),
        }
    }
}

/// Checks the arguments of a call.
pub fn parse_invocation(arguments: Option<&Json>) -> (r: Result<ToolInvocation, Json>)
    ensures
        match r {
            Ok(invocation) => invocation_of(ref_view(arguments)) == Ok::<InvocationView, JsonView>(
                invocation@,
            ),
            Err(envelope) => invocation_of(ref_view(arguments)) == Err::<InvocationView, JsonView>(
                envelope@,
            ),
        },
{
    ToolInvocation::from_arguments(arguments)
}

/// An answer to `tools/call` that carries an envelope, with `text` as what is
/// shown.
pub open spec fn call_result(envelope: JsonView, text: Seq<char>) -> JsonView {
    let ok = bool_of(field(envelope, "ok"@));
    JsonView::Obj(
        map![
            "content"@ => JsonView::Arr(
                seq![
                    JsonView::Obj(
                        map![
                            "type"@ => JsonView::Str("text"@),
                            "text"@ => JsonView::Str(text),
                        ],
                    ),
                ],
            ),
            "isError"@ => JsonView::Bool(ok != Some(true)),
            "_meta"@ => JsonView::Obj(map!["mcpWrapper"@ => envelope]),
        ],
    )
}

/// Wraps an envelope and its text as an answer to `tools/call`.
pub fn call_result_with_text(envelope: Json, text: String) -> (j: Json)
    ensures
        j@ == call_result(envelope@, text@),
{
    let is_error = match envelope.get("ok") {
        Some(ok) => match ok.as_bool() {
            Some(b) => !b,
            None => true,
        },
        None => true,
    };
    let mut block = Json::object();
    block.set("type", Json::text("text"));
    block.set("text", Json::Str(text));
    let mut content: Vec<Json> = Vec::new();
    content.push(block);
    assert(items_view(content@) =~= seq![block@]);
    let mut meta = Json::object();
    meta.set("mcpWrapper", envelope);
    let mut j = Json::object();
    j.set("content", Json::from_items(content));
    j.set("isError", Json::Bool(is_error));
    j.set("_meta", meta);
    j
}

/// Wraps an envelope as an answer to `tools/call`: indented as text, and as it is
/// under `_meta`.
pub fn to_call_tool_result(envelope: Json) -> (j: Json)
    ensures
        j@ == call_result(envelope@, json_pretty(envelope@)),
{
    let text = to_pretty_text(&envelope);
    call_result_with_text(envelope, text)
}

/// The name of every action leads back to it, and no other name does.
pub proof fn law_action_names_lead_back(name: Seq<char>, action: ToolAction)
    ensures
        tool_action_of(name) == Some(action) <==> name == tool_action_name(action),
{
    reveal_strlit("backend.status");
    reveal_strlit("backend.ping");
    reveal_strlit("backend.refresh");
    reveal_strlit("backend.restart");
    reveal_strlit("backend.stop");
    assert("backend.status"@.len() == 14);
    assert("backend.ping"@.len() == 12);
    assert("backend.refresh"@.len() == 15);
    assert("backend.restart"@.len() == 15);
    assert("backend.stop"@.len() == 12);
    assert("backend.ping"@[8] != "backend.stop"@[8]);
    assert("backend.refresh"@[10] != "backend.restart"@[10]);
}

/// A call that passes the checks is for the default target, has an object for
/// params and, where it restarts, a boolean `force` or none.
pub proof fn law_checked_calls_are_valid(arguments: Option<JsonView>)
    ensures
        invocation_of(arguments) matches Ok(invocation) ==> {
            &&& invocation.target == "default"@
            &&& invocation.params is Obj
            &&& invocation.action == ToolAction::BackendRestart ==> (field(
                invocation.params,
                "force"@,
            ) matches Some(force) ==> force is Bool)
        },
{
}

/// The actions are those of the backend, named by group and command.
pub proof fn law_actions_are_named_by_group_and_command()
    ensures
        tool_action_name(ToolAction::BackendStatus) == "backend."@ + "status"@,
        tool_action_name(ToolAction::BackendPing) == "backend."@ + "ping"@,
        tool_action_name(ToolAction::BackendRefresh) == "backend."@ + "refresh"@,
        tool_action_name(ToolAction::BackendRestart) == "backend."@ + "restart"@,
        tool_action_name(ToolAction::BackendStop) == "backend."@ + "stop"@,
{
    reveal_strlit("backend.");
    reveal_strlit("status");
    reveal_strlit("ping");
    reveal_strlit("refresh");
    reveal_strlit("restart");
    reveal_strlit("stop");
    reveal_strlit("backend.status");
    reveal_strlit("backend.ping");
    reveal_strlit("backend.refresh");
    reveal_strlit("backend.restart");
    reveal_strlit("backend.stop");
    assert("backend."@.len() == 8);
    assert("status"@.len() == 6);
    assert("ping"@.len() == 4);
    assert("refresh"@.len() == 7);
    assert("restart"@.len() == 7);
    assert("stop"@.len() == 4);
    assert("backend.status"@.len() == 14);
    assert("backend.ping"@.len() == 12);
    assert("backend.refresh"@.len() == 15);
    assert("backend.restart"@.len() == 15);
    assert("backend.stop"@.len() == 12);
    assert("ping"@[0] != "stop"@[0]);
    assert("refresh"@[2] != "restart"@[2]);
    assert("backend.ping"@[8] != "backend.stop"@[8]);
    assert("backend.refresh"@[10] != "backend.restart"@[10]);
    assert("backend."@ + "status"@ =~= "backend.status"@);
    assert("backend."@ + "ping"@ =~= "backend.ping"@);
    assert("backend."@ + "refresh"@ =~= "backend.refresh"@);
    assert("backend."@ + "restart"@ =~= "backend.restart"@);
    assert("backend."@ + "stop"@ =~= "backend.stop"@);
}

/// Different actions have different names.
pub proof fn law_action_names_differ(a: ToolAction, b: ToolAction)
    requires
        tool_action_name(a) == tool_action_name(b),
    ensures
        a == b,
{
    law_action_names_lead_back(tool_action_name(a), a);
    law_action_names_lead_back(tool_action_name(b), b);
}

/// Only `force` of a restart has to be a boolean; all other params are accepted.
pub proof fn law_only_force_is_checked(
    action: ToolAction,
    params: &Json,
    r: Result<(), &'static str>,
)
    requires
        call_ensures(ToolAction::validate_params, (action, params), r),
    ensures
        action != ToolAction::BackendRestart ==> r is Ok,
        action == ToolAction::BackendRestart ==> (r is Ok <==> (field(params@, "force"@)
            matches Some(force) ==> force is Bool)),
{
}

/// The fields of an envelope.
proof fn lemma_envelope_fields()
    ensures
        "ok"@ != "action"@ && "ok"@ != "target"@ && "ok"@ != "result"@ && "ok"@ != "error"@
            && "ok"@ != "evidence"@,
        "action"@ != "target"@ && "action"@ != "result"@ && "action"@ != "error"@ && "action"@
            != "evidence"@,
        "target"@ != "result"@ && "target"@ != "error"@ && "target"@ != "evidence"@,
        "result"@ != "error"@ && "result"@ != "evidence"@ && "error"@ != "evidence"@,
        "code"@ != "message"@,
        "content"@ != "isError"@ && "content"@ != "_meta"@ && "isError"@ != "_meta"@,
        "type"@ != "text"@,
        "params"@ != "action"@ && "params"@ != "target"@,
{
    reveal_strlit("ok");
    reveal_strlit("action");
    reveal_strlit("target");
    reveal_strlit("result");
    reveal_strlit("error");
    reveal_strlit("evidence");
    reveal_strlit("params");
    assert("ok"@.len() == 2);
    assert("action"@.len() == 6);
    assert("target"@.len() == 6);
    assert("result"@.len() == 6);
    assert("error"@.len() == 5);
    assert("evidence"@.len() == 8);
    assert("params"@.len() == 6);
    assert("action"@[0] != "target"@[0]);
    assert("action"@[0] != "result"@[0]);
    assert("action"@[0] != "params"@[0]);
    assert("target"@[0] != "result"@[0]);
    assert("target"@[0] != "params"@[0]);
    assert("result"@[0] != "params"@[0]);
    reveal_strlit("code");
    reveal_strlit("message");
    assert("code"@.len() == 4);
    assert("message"@.len() == 7);
    reveal_strlit("content");
    reveal_strlit("isError");
    reveal_strlit("_meta");
    assert("content"@.len() == 7);
    assert("isError"@.len() == 7);
    assert("_meta"@.len() == 5);
    assert("content"@[0] != "isError"@[0]);
    reveal_strlit("type");
    reveal_strlit("text");
    assert("type"@.len() == 4);
    assert("text"@.len() == 4);
    assert("type"@[1] != "text"@[1]);
}

/// An envelope says whether the action went well, which one it was and of what target,
/// and its result or its error.
pub proof fn law_envelopes_hold_their_parts(
    action: &str,
    target: &str,
    result: Json,
    good: Json,
    code: &str,
    message: &str,
    bad: Json,
)
    requires
        call_ensures(ok_envelope, (action, target, result), good),
        call_ensures(error_envelope, (action, target, code, message), bad),
    ensures
        field(good@, "ok"@) == Some(JsonView::Bool(true)),
        field(good@, "action"@) == Some(JsonView::Str(action@)),
        field(good@, "target"@) == Some(JsonView::Str(target@)),
        field(good@, "result"@) == Some(result@),
        field(good@, "error"@) == Some(JsonView::Null),
        field(bad@, "ok"@) == Some(JsonView::Bool(false)),
        field(bad@, "action"@) == Some(JsonView::Str(action@)),
        field(bad@, "target"@) == Some(JsonView::Str(target@)),
        field(bad@, "result"@) == Some(JsonView::Null),
        crate::json::opt_field(field(bad@, "error"@), "code"@) == Some(JsonView::Str(code@)),
        crate::json::opt_field(field(bad@, "error"@), "message"@) == Some(JsonView::Str(message@)),
{
    lemma_envelope_fields();
}

/// The code of a refusal.
pub open spec fn refusal_code(envelope: JsonView) -> Option<JsonView> {
    crate::json::opt_field(field(envelope, "error"@), "code"@)
}

/// A call that names an action, has no other target than the default one, and params
/// that the action takes, is accepted as what it says.
pub proof fn law_valid_calls_are_accepted(
    arguments: Json,
    action: ToolAction,
    r: Result<ToolInvocation, Json>,
)
    requires
        call_ensures(parse_invocation, (Some(&arguments),), r),
        field(arguments@, "action"@) == Some(JsonView::Str(tool_action_name(action))),
        field(arguments@, "target"@) is None || field(arguments@, "target"@) == Some(
            JsonView::Str("default"@),
        ),
        field(arguments@, "params"@) matches Some(params) ==> params is Obj && (field(
            params,
            "force"@,
        ) matches Some(force) ==> force is Bool),
    ensures
        r matches Ok(call) && call.action == action && call.target@ == "default"@
            && call.params@ == match field(arguments@, "params"@) {
            Some(params) => params,
            None => JsonView::Obj(Map::empty()),
        },
{
    law_action_names_lead_back(tool_action_name(action), action);
}

/// A call without arguments, without an action, with an unknown action, for another
/// target, or with params that the action does not take, is refused with a code of its
/// own; the refusal is an envelope that says so.
pub proof fn law_invalid_calls_are_refused(
    arguments: Option<&Json>,
    r: Result<ToolInvocation, Json>,
)
    requires
        call_ensures(parse_invocation, (arguments,), r),
    ensures
        (r matches Err(envelope) ==> field(envelope@, "ok"@) == Some(JsonView::Bool(false))),
        !(arguments matches Some(a) && a@ is Obj) ==> (r matches Err(envelope) && refusal_code(
            envelope@,
        ) == Some(JsonView::Str("invalidParams"@))),
        (arguments matches Some(a) ==> a@ is Obj ==> {
            &&& str_of(field(a@, "action"@)) is None ==> (r matches Err(envelope) && refusal_code(
                envelope@,
            ) == Some(JsonView::Str("invalidParams"@)))
            &&& (str_of(field(a@, "action"@)) matches Some(name) ==> (forall|action: ToolAction|
                name != #[trigger] tool_action_name(action)) ==> (r matches Err(envelope)
                && refusal_code(envelope@) == Some(JsonView::Str("unknownAction"@)) && field(
                envelope@,
                "action"@,
            ) == Some(JsonView::Str(name))))
            &&& (str_of(field(a@, "action"@)) matches Some(name) ==> (exists|action: ToolAction|
                name == #[trigger] tool_action_name(action)) ==> (str_of(
                field(a@, "target"@),
            ) matches Some(target) ==> target != "default"@ ==> (r matches Err(envelope)
                && refusal_code(envelope@) == Some(JsonView::Str("unsupportedTarget"@)) && field(
                envelope@,
                "target"@,
            ) == Some(JsonView::Str(target)))))
            &&& (field(a@, "params"@) matches Some(params) ==> !(params is Obj) ==> r is Err)
        }),
{
    lemma_envelope_fields();
    if let Some(a) = arguments {
        if let Some(name) = str_of(field(a@, "action"@)) {
            law_action_names_lead_back(name, ToolAction::BackendStatus);
            law_action_names_lead_back(name, ToolAction::BackendPing);
            law_action_names_lead_back(name, ToolAction::BackendRefresh);
            law_action_names_lead_back(name, ToolAction::BackendRestart);
            law_action_names_lead_back(name, ToolAction::BackendStop);
            if let Some(action) = tool_action_of(name) {
                assert(name == tool_action_name(action));
            }
        }
    }
}

/// An answer of the tool carries the envelope as it is, shows it as text, and is an error
/// exactly where the envelope does not say that all went well.
pub proof fn law_answers_carry_the_envelope(envelope: Json, j: Json)
    requires
        call_ensures(to_call_tool_result, (envelope,), j),
    ensures
        crate::json::opt_field(field(j@, "_meta"@), "mcpWrapper"@) == Some(envelope@),
        field(j@, "isError"@) == Some(
            JsonView::Bool(field(envelope@, "ok"@) != Some(JsonView::Bool(true))),
        ),
        field(j@, "content"@) matches Some(JsonView::Arr(blocks)) && blocks.len() == 1 && field(
            blocks[0],
            "type"@,
        ) == Some(JsonView::Str("text"@)) && field(blocks[0], "text"@) == Some(
            JsonView::Str(json_pretty(envelope@)),
        ),
{
    lemma_envelope_fields();
}

/// An action is found by its name and told by it, and arguments are checked the same way
/// wherever they are.
pub proof fn law_actions_are_found_by_name(
    name: &str,
    found: Option<ToolAction>,
    action: ToolAction,
    told: &'static str,
    arguments: Option<&Json>,
    a: Result<ToolInvocation, Json>,
    b: Result<ToolInvocation, Json>,
)
    requires
        call_ensures(ToolAction::from_name, (name,), found),
        call_ensures(ToolAction::name, (action,), told),
        call_ensures(ToolInvocation::from_arguments, (arguments,), a),
        call_ensures(parse_invocation, (arguments,), b),
    ensures
        found == Some(action) <==> name@ == told@,
        a is Ok <==> b is Ok,
        (a matches Ok(x) ==> b matches Ok(y) && x@ == y@),
{
    law_action_names_lead_back(name@, action);
}

/// An envelope says that there is no further evidence, and an answer shows the text that
/// it is given.
pub proof fn law_evidence_and_text(
    action: &str,
    target: &str,
    result: Json,
    good: Json,
    text: String,
    j: Json,
)
    requires
        call_ensures(ok_envelope, (action, target, result), good),
        call_ensures(call_result_with_text, (good, text), j),
    ensures
        field(good@, "evidence"@) == Some(JsonView::Obj(Map::empty())),
        field(j@, "isError"@) == Some(JsonView::Bool(false)),
        field(j@, "content"@) matches Some(JsonView::Arr(blocks)) && blocks.len() == 1 && field(
            blocks[0],
            "text"@,
        ) == Some(JsonView::Str(text@)),
{
    lemma_envelope_fields();
}

} // verus!
