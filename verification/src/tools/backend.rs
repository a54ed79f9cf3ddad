//! The actions on the backend: what is refused, what is answered at once, and what
//! has to be done first. The tool and the control methods share them.

use vstd::prelude::*;

use crate::backend_manager::{
    slot_snapshot, snapshot_json, BackendSlot, BackendSnapshot, SlotView,
};
use crate::error_codes::INTERNAL_ERROR;
use crate::json::{bool_of, field, json_pretty, opt_field, Json, JsonView};
use crate::mcp_interface::WrapperControlMethod;
use crate::mcp_manager::{mcp_snapshot_json, report_json, Cache, CacheView, RefreshReport};
use crate::tools::schema::{
    call_result, error_envelope, fault_view, invocation_of, ok_envelope, ok_view, parse_invocation,
    to_call_tool_result, tool_action_name, InvocationView, ToolAction, ToolInvocation,
};
use crate::transport::{
    build_error_response, build_response, error_response_view, response_view, subfield,
};

verus! {

/// What an action can see: the cache, the slot of the backend, whether its process
/// lives, and how many calls are running.
pub struct InvocationContext<'a> {
    pub cache: &'a Cache,
    pub backend_slot: &'a BackendSlot,
    pub alive: bool,
    pub active_calls: usize,
}

/// How an action goes on.
#[derive(Debug)]
pub enum ControlStep {
    /// It is done; this is the result.
    Answer(Json),
    /// It is refused, or has failed.
    Refuse { code: &'static str, message: String },
    /// The cache is to be refreshed.
    Refresh,
    /// The backend is to be restarted.
    Restart { force: bool },
    /// The backend is to be stopped.
    Stop,
}

/// The value of a `ControlStep`.
#[verifier::ext_equal]
pub enum StepView {
    Answer(JsonView),
    Refuse { code: Seq<char>, message: Seq<char> },
    Refresh,
    Restart { force: bool },
    Stop,
}

impl View for ControlStep {
    type V = StepView;

    open spec fn view(&self) -> StepView {
        match self {
            ControlStep::Answer(j) => StepView::Answer(j@),
            ControlStep::Refuse { code, message } => StepView::Refuse {
                code: code@,
                message: message@,
            },
            ControlStep::Refresh => StepView::Refresh,
            ControlStep::Restart { force } => StepView::Restart { force: *force },
            ControlStep::Stop => StepView::Stop,
        }
    }
}

/// The state of the backend and of the cache.
pub open spec fn status_json(slot: SlotView, alive: bool, cache: CacheView) -> JsonView {
    JsonView::Obj(
        map![
            "backend"@ => snapshot_json(slot_snapshot(slot, alive)),
            "mcp"@ => mcp_snapshot_json(cache),
        ],
    )
}

/// Whether the backend lives.
pub open spec fn ping_json(slot: SlotView, alive: bool) -> JsonView {
    JsonView::Obj(
        map![
            "ok"@ => JsonView::Bool(slot.occupied && alive),
            "backend"@ => snapshot_json(slot_snapshot(slot, alive)),
        ],
    )
}

/// How an action begins.
pub open spec fn first_step(
    action: ToolAction,
    force: bool,
    slot: SlotView,
    alive: bool,
    cache: CacheView,
    active_calls: nat,
) -> StepView {
    match action {
        ToolAction::BackendStatus => StepView::Answer(status_json(slot, alive, cache)),
        ToolAction::BackendPing => StepView::Answer(ping_json(slot, alive)),
        ToolAction::BackendRefresh => if slot.occupied && alive {
            StepView::Refresh
        } else {
            StepView::Refuse {
                code: "backendUnavailable"@,
                message: "backend unavailable for refresh"@,
            }
        },
        ToolAction::BackendRestart => if active_calls > 0 && !force {
            StepView::Refuse {
                code: "activeCalls"@,
                message: "backend restart rejected while calls are active"@,
            }
        } else {
            StepView::Restart { force }
        },
        ToolAction::BackendStop => if active_calls > 0 {
            StepView::Refuse {
                code: "activeCalls"@,
                message: "backend stop rejected while calls are active"@,
            }
        } else {
            StepView::Stop
        },
    }
}

/// Begins an action: it is answered, refused, or says what is to be done.
pub fn begin(action: ToolAction, force: bool, context: &InvocationContext) -> (step: ControlStep)
    requires
        context.cache.wf(),
    ensures
        step@ == first_step(
            action,
            force,
            context.backend_slot@,
            context.alive,
            context.cache@,
            context.active_calls as nat,
        ),
{
    match action {
        ToolAction::BackendStatus => {
            let mut j = Json::object();
            j.set("backend", context.backend_slot.snapshot(context.alive).to_value());
            j.set("mcp", context.cache.snapshot().to_value());
            ControlStep::Answer(j)
        },
        ToolAction::BackendPing => {
            let backend = context.backend_slot.snapshot(context.alive);
            let mut j = Json::object();
            j.set("ok", Json::Bool(backend.alive));
            j.set("backend", backend.to_value());
            ControlStep::Answer(j)
        },
        ToolAction::BackendRefresh => if context.backend_slot.live(context.alive) {
            ControlStep::Refresh
        } else {
            ControlStep::Refuse {
                code: "backendUnavailable",
                message: "backend unavailable for refresh".to_owned(),
            }
        },
        ToolAction::BackendRestart => if BackendSlot::restart_blocked_by_active_calls(
            context.active_calls,
            force,
        ) {
            ControlStep::Refuse {
                code: "activeCalls",
                message: "backend restart rejected while calls are active".to_owned(),
            }
        } else {
            ControlStep::Restart { force }
        },
        ToolAction::BackendStop => if BackendSlot::stop_blocked_by_active_calls(
            context.active_calls,
        ) {
            ControlStep::Refuse {
                code: "activeCalls",
                message: "backend stop rejected while calls are active".to_owned(),
            }
        } else {
            ControlStep::Stop
        },
    }
}

/// How an action goes on after the restart it asked for: a new backend that lives
/// is asked for its lists.
pub fn after_restart(result: Result<(), String>, live: bool) -> (step: ControlStep)
    ensures
        step@ == (match result {
            Err(e) => StepView::Refuse { code: "backendRestart"@, message: e@ },
            Ok(_) => if live {
                StepView::Refresh
            } else {
                StepView::Refuse {
                    code: "backendUnavailable"@,
                    message: "backend unavailable after restart"@,
                }
            },
        }),
{
    match result {
        Err(e) => ControlStep::Refuse { code: "backendRestart", message: e },
        Ok(_) => if live {
            ControlStep::Refresh
        } else {
            ControlStep::Refuse {
                code: "backendUnavailable",
                message: "backend unavailable after restart".to_owned(),
            }
        },
    }
}

/// How an action ends after the refresh it asked for.
pub fn after_refresh(result: Result<RefreshReport, String>) -> (step: ControlStep)
    ensures
        step@ == (match result {
            Ok(report) => StepView::Answer(report_json(report@)),
            Err(e) => StepView::Refuse { code: "backendRefresh"@, message: e@ },
        }),
{
    match result {
        Ok(report) => ControlStep::Answer(report.to_value()),
        Err(e) => ControlStep::Refuse { code: "backendRefresh", message: e },
    }
}

/// How an action ends after the stop it asked for.
pub fn after_stop(snapshot: &BackendSnapshot) -> (step: ControlStep)
    ensures
        step@ == StepView::Answer(snapshot_json(snapshot@)),
{
    ControlStep::Answer(snapshot.to_value())
}

/// The envelope that ends a call of the tool, if the step is an end.
pub open spec fn end_envelope(invocation: InvocationView, step: StepView) -> Option<JsonView> {
    match step {
        StepView::Answer(result) => Some(
            ok_view(tool_action_name(invocation.action), invocation.target, result),
        ),
        StepView::Refuse { code, message } => Some(
            fault_view(tool_action_name(invocation.action), invocation.target, code, message),
        ),
        _ => None,
    }
}

/// Whether a call of the tool is forced.
pub open spec fn is_forced(params: JsonView) -> bool {
    bool_of(field(params, "force"@)) == Some(true)
}

fn forced(params: Option<&Json>) -> (b: bool)
    ensures
        b == (bool_of(opt_field(crate::json::ref_view(params), "force"@)) == Some(true)),
{
    match subfield(params, "force") {
        Some(force) => match force.as_bool() {
            Some(b) => b,
            None => false,
        },
        None => false,
    }
}

/// The envelope that ends a call of the tool, if the step is an end.
pub fn envelope_for(invocation: &ToolInvocation, step: &ControlStep) -> (envelope: Option<Json>)
    ensures
        crate::json::opt_view(envelope) == end_envelope(invocation@, step@),
{
    let action = invocation.action.name();
    let target = invocation.target.as_str();
    match step {
        ControlStep::Answer(result) => Some(ok_envelope(action, target, result.copy())),
        ControlStep::Refuse { code, message } => Some(
            error_envelope(action, target, code, message.as_str()),
        ),
        _ => None,
    }
}

/// A call of the tool: what ends it at once, or what it waits for.
#[derive(Debug)]
pub enum ToolCall {
    /// The arguments are wrong: this envelope says how.
    Invalid(Json),
    /// The call and its first step.
    Started(ToolInvocation, ControlStep),
}

/// How a call of the tool begins.
pub open spec fn call_start(
    raw: JsonView,
    slot: SlotView,
    alive: bool,
    cache: CacheView,
    active_calls: nat,
) -> Result<(InvocationView, StepView), JsonView> {
    match invocation_of(opt_field(field(raw, "params"@), "arguments"@)) {
        Err(envelope) => Err(envelope),
        Ok(invocation) => Ok(
            (
                invocation,
                first_step(
                    invocation.action,
                    is_forced(invocation.params),
                    slot,
                    alive,
                    cache,
                    active_calls,
                ),
            ),
        ),
    }
}

/// Begins a call of the tool: its arguments are checked, then its action begins.
pub fn invoke(raw: &Json, context: &InvocationContext) -> (call: ToolCall)
    requires
        context.cache.wf(),
    ensures
        ({
            let start = call_start(
                raw@,
                context.backend_slot@,
                context.alive,
                context.cache@,
                context.active_calls as nat,
            );
            match call {
                ToolCall::Invalid(envelope) => start == Err::<(InvocationView, StepView), JsonView>(
                    envelope@,
                ),
                ToolCall::Started(invocation, step) => start == Ok::<
                    (InvocationView, StepView),
                    JsonView,
                >((invocation@, step@)),
            }
        }),
{
    match parse_invocation(subfield(raw.get("params"), "arguments")) {
        Err(envelope) => ToolCall::Invalid(envelope),
        Ok(invocation) => {
            let force = forced(Some(&invocation.params));
            let step = begin(invocation.action, force, context);
            ToolCall::Started(invocation, step)
        },
    }
}

/// The answer to a call of the tool, once it is at an end.
pub fn tool_answer(id: Json, envelope: Json) -> (j: Json)
    ensures
        j@ == response_view(id@, call_result(envelope@, json_pretty(envelope@))),
{
    build_response(id, to_call_tool_result(envelope))
}

/// The action of a control method.
pub open spec fn control_action(control: WrapperControlMethod) -> ToolAction {
    match control {
        WrapperControlMethod::BackendStatus => ToolAction::BackendStatus,
        WrapperControlMethod::BackendRefresh => ToolAction::BackendRefresh,
        WrapperControlMethod::BackendRestart => ToolAction::BackendRestart,
        WrapperControlMethod::BackendStop => ToolAction::BackendStop,
        WrapperControlMethod::BackendPing => ToolAction::BackendPing,
    }
}

/// The action of a control method.
pub fn action_for_control(control: WrapperControlMethod) -> (action: ToolAction)
    ensures
        action == control_action(control),
{
    match control {
        WrapperControlMethod::BackendStatus => ToolAction::BackendStatus,
        WrapperControlMethod::BackendRefresh => ToolAction::BackendRefresh,
        WrapperControlMethod::BackendRestart => ToolAction::BackendRestart,
        WrapperControlMethod::BackendStop => ToolAction::BackendStop,
        WrapperControlMethod::BackendPing => ToolAction::BackendPing,
    }
}

/// Begins a control method: what it does is what the tool does.
pub fn handle_wrapper_control(
    control: WrapperControlMethod,
    raw: &Json,
    context: &InvocationContext,
) -> (step: ControlStep)
    requires
        context.cache.wf(),
    ensures
        step@ == first_step(
            control_action(control),
            bool_of(opt_field(field(raw@, "params"@), "force"@)) == Some(true),
            context.backend_slot@,
            context.alive,
            context.cache@,
            context.active_calls as nat,
        ),
{
    begin(action_for_control(control), forced(raw.get("params")), context)
}

/// The answer to a control method, if the step is an end.
pub open spec fn control_answer_view(id: JsonView, step: StepView) -> Option<JsonView> {
    match step {
        StepView::Answer(result) => Some(response_view(id, result)),
        StepView::Refuse { message, .. } => Some(
            error_response_view(id, INTERNAL_ERROR as int, message, None),
        ),
        _ => None,
    }
}

/// The answer to a control method, if the step is an end.
pub fn control_answer(id: Json, step: &ControlStep) -> (answer: Option<Json>)
    ensures
        crate::json::opt_view(answer) == control_answer_view(id@, step@),
{
    match step {
        ControlStep::Answer(result) => Some(build_response(id, result.copy())),
        ControlStep::Refuse { message, .. } => Some(
            build_error_response(id, INTERNAL_ERROR, message.as_str(), None),
        ),
        _ => None,
    }
}

/// While calls are running the backend is neither stopped nor restarted without
/// force; a forced restart is always begun.
pub proof fn law_running_calls_protect_the_backend(
    slot: SlotView,
    alive: bool,
    cache: CacheView,
    active_calls: nat,
)
    requires
        active_calls > 0,
    ensures
        first_step(ToolAction::BackendStop, false, slot, alive, cache, active_calls) is Refuse,
        first_step(ToolAction::BackendRestart, false, slot, alive, cache, active_calls) is Refuse,
        first_step(ToolAction::BackendRestart, true, slot, alive, cache, active_calls) == (
        StepView::Restart { force: true }),
{
}

// ── What the actions are for ────────────────────────────────────────

proof fn lemma_answer_fields()
    ensures
        "ok"@ != "backend"@ && "backend"@ != "mcp"@,
        "id"@ != "error"@ && "id"@ != "result"@ && "id"@ != "jsonrpc"@ && "error"@ != "result"@,
        "error"@ != "jsonrpc"@ && "result"@ != "jsonrpc"@,
        "code"@ != "message"@ && "code"@ != "data"@ && "message"@ != "data"@,
        "backendUnavailable"@ != "activeCalls"@,
{
    reveal_strlit("ok");
    reveal_strlit("backend");
    reveal_strlit("mcp");
    assert("ok"@.len() == 2);
    assert("backend"@.len() == 7);
    assert("mcp"@.len() == 3);
    reveal_strlit("id");
    reveal_strlit("error");
    reveal_strlit("result");
    reveal_strlit("jsonrpc");
    assert("id"@.len() == 2);
    assert("error"@.len() == 5);
    assert("result"@.len() == 6);
    assert("jsonrpc"@.len() == 7);
    reveal_strlit("code");
    reveal_strlit("message");
    reveal_strlit("data");
    assert("code"@.len() == 4);
    assert("message"@.len() == 7);
    assert("data"@.len() == 4);
    assert("code"@[0] != "data"@[0]);
    reveal_strlit("backendUnavailable");
    reveal_strlit("activeCalls");
    assert("backendUnavailable"@.len() == 18);
    assert("activeCalls"@.len() == 11);
}

/// A status tells the backend and the cache, and a ping tells whether the backend lives;
/// both are answered at once. A refresh needs a live backend. A stop, and a restart that
/// is not forced, need that no call is running.
pub proof fn law_actions_begin(
    action: ToolAction,
    force: bool,
    context: InvocationContext<'_>,
    step: ControlStep,
)
    requires
        call_ensures(begin, (action, force, &context), step),
    ensures
        ({
            let live = context.backend_slot@.occupied && context.alive;
            let backend = snapshot_json(slot_snapshot(context.backend_slot@, context.alive));
            match action {
                ToolAction::BackendStatus => step@ matches StepView::Answer(j) && field(
                    j,
                    "backend"@,
                ) == Some(backend) && field(j, "mcp"@) == Some(mcp_snapshot_json(context.cache@)),
                ToolAction::BackendPing => step@ matches StepView::Answer(j) && field(j, "ok"@)
                    == Some(JsonView::Bool(live)) && field(j, "backend"@) == Some(backend),
                ToolAction::BackendRefresh => if live {
                    step@ is Refresh
                } else {
                    step@ matches StepView::Refuse { code, message } && code
                        == "backendUnavailable"@
                },
                ToolAction::BackendRestart => if context.active_calls == 0 || force {
                    step@ == (StepView::Restart { force })
                } else {
                    step@ matches StepView::Refuse { code, message } && code == "activeCalls"@
                },
                ToolAction::BackendStop => if context.active_calls == 0 {
                    step@ is Stop
                } else {
                    step@ matches StepView::Refuse { code, message } && code == "activeCalls"@
                },
            }
        }),
{
    lemma_answer_fields();
}

/// A control method and the action of the tool that end in the same word do the same,
/// and both are forced by the same parameter.
pub proof fn law_control_methods_act_as_the_tool(
    control: WrapperControlMethod,
    action: ToolAction,
    word: Seq<char>,
    raw: &Json,
    force: bool,
    context: InvocationContext<'_>,
    by_method: ControlStep,
    by_tool: ControlStep,
)
    requires
        crate::mcp_interface::control_method(control) == "mcp-wrapper/backend/"@ + word,
        tool_action_name(action) == "backend."@ + word,
        force == (opt_field(field(raw@, "params"@), "force"@) == Some(JsonView::Bool(true))),
        call_ensures(handle_wrapper_control, (control, raw, &context), by_method),
        call_ensures(begin, (action, force, &context), by_tool),
    ensures
        by_method@ == by_tool@,
{
    reveal_strlit("mcp-wrapper/backend/");
    reveal_strlit("backend.");
    reveal_strlit("mcp-wrapper/backend/status");
    reveal_strlit("mcp-wrapper/backend/ping");
    reveal_strlit("mcp-wrapper/backend/refresh");
    reveal_strlit("mcp-wrapper/backend/restart");
    reveal_strlit("mcp-wrapper/backend/stop");
    reveal_strlit("backend.status");
    reveal_strlit("backend.ping");
    reveal_strlit("backend.refresh");
    reveal_strlit("backend.restart");
    reveal_strlit("backend.stop");
    assert("mcp-wrapper/backend/"@.len() == 20);
    assert("backend."@.len() == 8);
    assert("mcp-wrapper/backend/status"@.len() == 26);
    assert("mcp-wrapper/backend/ping"@.len() == 24);
    assert("mcp-wrapper/backend/refresh"@.len() == 27);
    assert("mcp-wrapper/backend/restart"@.len() == 27);
    assert("mcp-wrapper/backend/stop"@.len() == 24);
    assert("backend.status"@.len() == 14);
    assert("backend.ping"@.len() == 12);
    assert("backend.refresh"@.len() == 15);
    assert("backend.restart"@.len() == 15);
    assert("backend.stop"@.len() == 12);
    assert("mcp-wrapper/backend/ping"@[20] != "mcp-wrapper/backend/stop"@[20]);
    assert("mcp-wrapper/backend/refresh"@[22] != "mcp-wrapper/backend/restart"@[22]);
    assert("backend.ping"@[8] != "backend.stop"@[8]);
    assert("backend.refresh"@[10] != "backend.restart"@[10]);
    let m = crate::mcp_interface::control_method(control);
    let t = tool_action_name(action);
    assert(m.len() == t.len() + 12);
    if m.len() == 24 {
        assert(m[20] == word[0]);
        assert(t[8] == word[0]);
        assert("mcp-wrapper/backend/ping"@[20] != "mcp-wrapper/backend/stop"@[20]);
        assert("backend.ping"@[8] != "mcp-wrapper/backend/stop"@[20]);
        assert("backend.stop"@[8] != "mcp-wrapper/backend/ping"@[20]);
    } else if m.len() == 27 {
        assert(m[22] == word[2]);
        assert(t[10] == word[2]);
        assert("backend.refresh"@[10] != "mcp-wrapper/backend/restart"@[22]);
        assert("backend.restart"@[10] != "mcp-wrapper/backend/refresh"@[22]);
    }
}

/// A call of the tool whose arguments are valid begins the action that they name, forced
/// where they say so; one whose arguments are not is refused before anything happens.
pub proof fn law_calls_begin_what_they_name(
    raw: &Json,
    arguments: JsonView,
    action: ToolAction,
    force: bool,
    context: InvocationContext<'_>,
    call: ToolCall,
    step: ControlStep,
)
    requires
        opt_field(field(raw@, "params"@), "arguments"@) == Some(arguments),
        field(arguments, "action"@) == Some(JsonView::Str(tool_action_name(action))),
        field(arguments, "target"@) is None || field(arguments, "target"@) == Some(
            JsonView::Str("default"@),
        ),
        field(arguments, "params"@) matches Some(params) ==> params is Obj && (field(
            params,
            "force"@,
        ) matches Some(value) ==> value is Bool),
        force == (opt_field(field(arguments, "params"@), "force"@) == Some(JsonView::Bool(true))),
        call_ensures(invoke, (raw, &context), call),
        call_ensures(begin, (action, force, &context), step),
    ensures
        call matches ToolCall::Started(invocation, first) && invocation.action == action
            && invocation.target@ == "default"@ && first@ == step@,
{
    crate::tools::schema::law_action_names_lead_back(tool_action_name(action), action);
}

/// A restart that succeeded goes on with a refresh of the backend that it brought up; one
/// that failed is refused with the reason.
pub proof fn law_restart_goes_on_with_a_refresh(
    result: Result<(), String>,
    live: bool,
    step: ControlStep,
)
    requires
        call_ensures(after_restart, (result, live), step),
    ensures
        step@ is Refresh <==> result is Ok && live,
        !(step@ is Refresh) ==> step@ is Refuse,
        (result matches Err(why) ==> step@ == (StepView::Refuse {
            code: "backendRestart"@,
            message: why@,
        })),
{
}

/// A refresh that succeeded is answered with its report, and one that failed is refused
/// with the reason; a stop is answered with the state of the backend.
pub proof fn law_refresh_and_stop_are_answered(
    result: Result<RefreshReport, String>,
    refreshed: ControlStep,
    snapshot: &BackendSnapshot,
    stopped: ControlStep,
)
    requires
        call_ensures(after_refresh, (result,), refreshed),
        call_ensures(after_stop, (snapshot,), stopped),
    ensures
        match result {
            Ok(report) => refreshed@ == StepView::Answer(report_json(report@)),
            Err(why) => refreshed@ matches StepView::Refuse { code, message } && message == why@
                && code == "backendRefresh"@,
        },
        stopped@ == StepView::Answer(snapshot_json(snapshot@)),
{
}

/// A call of the tool ends with an envelope once it is answered or refused, and not
/// before; the envelope names its action and its target.
pub proof fn law_ends_have_envelopes(
    invocation: &ToolInvocation,
    step: &ControlStep,
    envelope: Option<Json>,
)
    requires
        call_ensures(envelope_for, (invocation, step), envelope),
    ensures
        envelope is Some <==> step@ is Answer || step@ is Refuse,
        (envelope matches Some(e) ==> {
            &&& field(e@, "action"@) == Some(
                JsonView::Str(tool_action_name(invocation.action)),
            )
            &&& field(e@, "target"@) == Some(JsonView::Str(invocation.target@))
            &&& field(e@, "ok"@) == Some(JsonView::Bool(step@ is Answer))
            &&& (step@ matches StepView::Answer(result) ==> field(e@, "result"@) == Some(result))
            &&& (step@ matches StepView::Refuse { code, message } ==> opt_field(
                field(e@, "error"@),
                "code"@,
            ) == Some(JsonView::Str(code)) && opt_field(field(e@, "error"@), "message"@) == Some(
                JsonView::Str(message),
            ))
        }),
{
    reveal_strlit("ok");
    reveal_strlit("action");
    reveal_strlit("target");
    reveal_strlit("result");
    reveal_strlit("error");
    reveal_strlit("evidence");
    assert("ok"@.len() == 2);
    assert("action"@.len() == 6);
    assert("target"@.len() == 6);
    assert("result"@.len() == 6);
    assert("error"@.len() == 5);
    assert("evidence"@.len() == 8);
    assert("action"@[0] != "target"@[0]);
    assert("action"@[0] != "result"@[0]);
    assert("target"@[0] != "result"@[0]);
    reveal_strlit("code");
    reveal_strlit("message");
    assert("code"@.len() == 4);
    assert("message"@.len() == 7);
}

/// The answer to a call of the tool goes back under the id of the call, and carries the
/// envelope.
pub proof fn law_tool_answers_go_back(id: Json, envelope: Json, j: Json)
    requires
        call_ensures(tool_answer, (id, envelope), j),
    ensures
        field(j@, "id"@) == Some(id@),
        field(j@, "error"@) is None,
        opt_field(opt_field(field(j@, "result"@), "_meta"@), "mcpWrapper"@) == Some(envelope@),
        opt_field(field(j@, "result"@), "isError"@) == Some(
            JsonView::Bool(field(envelope@, "ok"@) != Some(JsonView::Bool(true))),
        ),
{
    lemma_answer_fields();
    reveal_strlit("content");
    reveal_strlit("isError");
    reveal_strlit("_meta");
    assert("content"@.len() == 7);
    assert("isError"@.len() == 7);
    assert("_meta"@.len() == 5);
    assert("content"@[0] != "isError"@[0]);
}

/// A control method is answered with its result, or with an error that has the reason of
/// the refusal, once it is at an end and not before.
pub proof fn law_control_methods_are_answered(id: Json, step: &ControlStep, answer: Option<Json>)
    requires
        call_ensures(control_answer, (id, step), answer),
    ensures
        answer is Some <==> step@ is Answer || step@ is Refuse,
        (answer matches Some(j) ==> {
            &&& field(j@, "id"@) == Some(id@)
            &&& (step@ matches StepView::Answer(result) ==> field(j@, "result"@) == Some(result)
                && field(j@, "error"@) is None)
            &&& (step@ matches StepView::Refuse { code, message } ==> field(j@, "result"@) is None
                && opt_field(field(j@, "error"@), "message"@) == Some(JsonView::Str(message))
                && opt_field(field(j@, "error"@), "code"@) == Some(
                JsonView::Num(crate::json::NumberView::Int(-32603)),
            ))
        }),
{
    lemma_answer_fields();
}

} // verus!
