//! The administration commands: what is asked of a broker, and what is reported.

use vstd::prelude::*;
use vstd::string::*;

use crate::cli::{action_name, texts, AdminAction, CommandTarget, TargetView};
use crate::daemon_manager::BrokerStatus;
use crate::event_plane::wrapper_call;
use crate::json::{
    bool_of, field, items_view, opt_field, opt_view, str_of, with_field, Json, JsonView,
    NumberView,
};
use crate::logging::{cmd_hash, command_hash};
use crate::text::join;
use crate::tools::backend::is_forced;
use crate::tools::schema::{
    call_result, code_and_message, fault_view, invocation_of, law_action_names_lead_back,
    tool_action_name, ToolAction,
};
use crate::transport::{
    build_request, copied, field_text, request_view, response_view, subfield, with_opt,
};

verus! {

/// The report on an administration command.
pub open spec fn report_view(
    ok: bool,
    action: Seq<char>,
    target: Option<TargetView>,
    broker: Option<JsonView>,
    result: Option<JsonView>,
    error: Option<JsonView>,
) -> JsonView {
    let body = JsonView::Obj(
        map![
            "ok"@ => JsonView::Bool(ok),
            "action"@ => JsonView::Str(action),
        ],
    );
    let body = with_opt(
        body,
        "target"@,
        match target {
            Some(target) => Some(target_json(target)),
            None => None,
        },
    );
    with_opt(
        with_opt(with_opt(body, "broker"@, broker), "result"@, result),
        "error"@,
        error,
    )
}

/// Strings as a JSON array.
pub open spec fn text_array(all: Seq<Seq<char>>) -> JsonView {
    JsonView::Arr(Seq::new(all.len(), |i: int| JsonView::Str(all[i])))
}

/// A command in reports.
pub open spec fn target_json(target: TargetView) -> JsonView {
    JsonView::Obj(
        map![
            "cmd"@ => JsonView::Str(target.cmd),
            "args"@ => text_array(target.args),
            "hash"@ => JsonView::Str(command_hash(target.cmd, target.args)),
        ],
    )
}

/// Strings as a JSON array.
fn texts_value(all: &Vec<String>) -> (j: Json)
    ensures
        j@ == text_array(texts(all@)),
{
    let mut items: Vec<Json> = Vec::new();
    let mut i: usize = 0;
    while i < all.len()
        invariant
            i <= all@.len(),
            items@.len() == i,
            forall|k: int| 0 <= k < i ==> (#[trigger] items@[k])@ == JsonView::Str(all@[k]@),
        decreases all@.len() - i,
    {
        items.push(Json::text(all[i].as_str()));
        i = i + 1;
    }
    assert(items_view(items@) =~= text_array(texts(all@))->Arr_0);
    Json::from_items(items)
}

/// A command in reports.
pub fn target_value(target: &CommandTarget) -> (j: Json)
    ensures
        j@ == target_json(target@),
{
    let hash = cmd_hash(target.cmd.as_str(), target.args.as_slice());
    let mut j = Json::object();
    j.set("cmd", Json::text(target.cmd.as_str()));
    j.set("args", texts_value(&target.args));
    j.set("hash", Json::text(hash.as_str()));
    j
}

/// The state of a broker in reports.
pub open spec fn broker_json(status: BrokerStatus) -> JsonView {
    JsonView::Obj(
        map![
            "hash"@ => JsonView::Str(status.hash@),
            "running"@ => JsonView::Bool(status.running),
            "pid"@ => match status.pid {
                Some(pid) => JsonView::Num(NumberView::Int(pid as int)),
                None => JsonView::Null,
            },
            "socketExists"@ => JsonView::Bool(status.socket_exists),
            "lockExists"@ => JsonView::Bool(status.lock_exists),
            "socket"@ => JsonView::Str(status.socket@),
            "lock"@ => JsonView::Str(status.lock@),
            "pidPath"@ => JsonView::Str(status.pid_path@),
            "metaPath"@ => JsonView::Str(status.meta_path@),
            "meta"@ => match opt_view(status.meta) {
                Some(meta) => meta,
                None => JsonView::Null,
            },
            "metaMatchesCurrentExe"@ => JsonView::Bool(status.meta_matches_current_exe),
        ],
    )
}

/// The state of a broker in reports.
pub fn broker_value(status: &BrokerStatus) -> (j: Json)
    ensures
        j@ == broker_json(*status),
{
    let mut j = Json::object();
    j.set("hash", Json::text(status.hash.as_str()));
    j.set("running", Json::Bool(status.running));
    j.set(
        "pid",
        match status.pid {
            Some(pid) => Json::UInt(pid as u64),
            None => Json::Null,
        },
    );
    j.set("socketExists", Json::Bool(status.socket_exists));
    j.set("lockExists", Json::Bool(status.lock_exists));
    j.set("socket", Json::text(status.socket.as_str()));
    j.set("lock", Json::text(status.lock.as_str()));
    j.set("pidPath", Json::text(status.pid_path.as_str()));
    j.set("metaPath", Json::text(status.meta_path.as_str()));
    j.set(
        "meta",
        match &status.meta {
            Some(meta) => meta.copy(),
            None => Json::Null,
        },
    );
    j.set("metaMatchesCurrentExe", Json::Bool(status.meta_matches_current_exe));
    j
}

/// An error in reports.
pub fn error(code: &str, message: &str) -> (j: Json)
    ensures
        j@ == code_and_message(code@, message@),
{
    let mut j = Json::object();
    j.set("code", Json::text(code));
    j.set("message", Json::text(message));
    j
}

pub open spec fn target_of(target: Option<&CommandTarget>) -> Option<TargetView> {
    match target {
        Some(target) => Some(target@),
        None => None,
    }
}

/// Builds the report on an administration command.
pub fn envelope(
    ok: bool,
    action: &str,
    target: Option<&CommandTarget>,
    broker: Option<Json>,
    result: Option<Json>,
    err: Option<Json>,
) -> (j: Json)
    ensures
        j@ == report_view(
            ok,
            action@,
            target_of(target),
            opt_view(broker),
            opt_view(result),
            opt_view(err),
        ),
{
    let mut body = Json::object();
    body.set("ok", Json::Bool(ok));
    body.set("action", Json::text(action));
    if let Some(target) = target {
        body.set("target", target_value(target));
    }
    if let Some(broker) = broker {
        body.set("broker", broker);
    }
    if let Some(result) = result {
        body.set("result", result);
    }
    if let Some(err) = err {
        body.set("error", err);
    }
    body
}

// ── What is reported ────────────────────────────────────────────────

/// The states of brokers in reports.
pub open spec fn brokers_json(brokers: Seq<BrokerStatus>) -> JsonView {
    JsonView::Obj(
        map![
            "brokers"@ => JsonView::Arr(
                Seq::new(brokers.len(), |i: int| broker_json(brokers[i])),
            ),
        ],
    )
}

/// Reports on `broker list`.
pub fn broker_list(listed: Result<Vec<BrokerStatus>, String>) -> (j: Json)
    ensures
        j@ == match listed {
            Ok(brokers) => report_view(
                true,
                "broker.list"@,
                None,
                None,
                Some(brokers_json(brokers@)),
                None,
            ),
            Err(e) => report_view(
                false,
                "broker.list"@,
                None,
                None,
                None,
                Some(code_and_message("broker.list"@, e@)),
            ),
        },
{
    match listed {
        Ok(brokers) => {
            let mut items: Vec<Json> = Vec::new();
            let mut i: usize = 0;
            while i < brokers.len()
                invariant
                    i <= brokers@.len(),
                    items@.len() == i,
                    forall|k: int|
                        0 <= k < i ==> (#[trigger] items@[k])@ == broker_json(brokers@[k]),
                decreases brokers@.len() - i,
            {
                items.push(broker_value(&brokers[i]));
                i = i + 1;
            }
            assert(items_view(items@) =~= Seq::new(
                brokers@.len(),
                |k: int| broker_json(brokers@[k]),
            ));
            let mut result = Json::object();
            result.set("brokers", Json::from_items(items));
            envelope(true, "broker.list", None, None, Some(result), None)
        },
        Err(e) => envelope(
            false,
            "broker.list",
            None,
            None,
            None,
            Some(error("broker.list", e.as_str())),
        ),
    }
}

/// Reports on a command about the broker of one command: `broker status`, `broker
/// stop` or `broker restart`. The name of the action is the code of its error.
pub fn broker_report(
    action: AdminAction,
    target: &CommandTarget,
    done: Result<(), String>,
    status: &BrokerStatus,
) -> (j: Json)
    ensures
        j@ == match done {
            Ok(_) => report_view(
                true,
                action_name(action),
                Some(target@),
                Some(broker_json(*status)),
                Some(JsonView::Null),
                None,
            ),
            Err(e) => report_view(
                false,
                action_name(action),
                Some(target@),
                Some(broker_json(*status)),
                None,
                Some(code_and_message(action_name(action), e@)),
            ),
        },
{
    match done {
        Ok(_) => envelope(
            true,
            action.name(),
            Some(target),
            Some(broker_value(status)),
            Some(Json::Null),
            None,
        ),
        Err(e) => envelope(
            false,
            action.name(),
            Some(target),
            Some(broker_value(status)),
            None,
            Some(error(action.name(), e.as_str())),
        ),
    }
}

/// What `status` shows of the backend: what the broker answered, why it did not, or
/// nothing where there is no broker.
pub open spec fn status_result(reply: Option<Result<Json, String>>) -> JsonView {
    match reply {
        Some(Ok(resp)) => match field(resp@, "result"@) {
            Some(result) => result,
            None => JsonView::Null,
        },
        Some(Err(e)) => JsonView::Obj(map!["backendError"@ => JsonView::Str(e@)]),
        None => JsonView::Null,
    }
}

/// Reports on `status`.
pub fn status(
    target: &CommandTarget,
    broker: &BrokerStatus,
    reply: Option<Result<Json, String>>,
) -> (j: Json)
    ensures
        j@ == report_view(
            true,
            "status"@,
            Some(target@),
            Some(broker_json(*broker)),
            Some(status_result(reply)),
            None,
        ),
{
    let result = match reply {
        Some(Ok(resp)) => match resp.get("result") {
            Some(result) => result.copy(),
            None => Json::Null,
        },
        Some(Err(e)) => {
            let mut j = Json::object();
            j.set("backendError", Json::text(e.as_str()));
            j
        },
        None => Json::Null,
    };
    envelope(true, "status", Some(target), Some(broker_value(broker)), Some(result), None)
}

/// What `doctor` shows: the identity of the command, and the ping of the backend,
/// where a broker answered it.
pub open spec fn doctor_result(hash: Seq<char>, reply: Option<JsonView>) -> JsonView {
    JsonView::Obj(
        map![
            "targetHash"@ => JsonView::Str(hash),
            "backendPing"@ => match opt_field(reply, "result"@) {
                Some(ping) => ping,
                None => JsonView::Null,
            },
        ],
    )
}

/// Reports on `doctor`.
pub fn doctor(target: &CommandTarget, broker: &BrokerStatus, reply: Option<Json>) -> (j: Json)
    ensures
        j@ == report_view(
            true,
            "doctor"@,
            Some(target@),
            Some(broker_json(*broker)),
            Some(doctor_result(broker.hash@, opt_view(reply))),
            None,
        ),
{
    let ping = match &reply {
        Some(resp) => copied(resp.get("result")),
        None => None,
    };
    let mut result = Json::object();
    result.set("targetHash", Json::text(broker.hash.as_str()));
    result.set(
        "backendPing",
        match ping {
            Some(ping) => ping,
            None => Json::Null,
        },
    );
    envelope(true, "doctor", Some(target), Some(broker_value(broker)), Some(result), None)
}

// ── What is asked of the broker ─────────────────────────────────────

/// The action of the proxy's tool behind an administration command.
pub open spec fn tool_action(action: AdminAction) -> Option<ToolAction> {
    match action {
        AdminAction::BackendStatus => Some(ToolAction::BackendStatus),
        AdminAction::BackendPing => Some(ToolAction::BackendPing),
        AdminAction::BackendRefresh => Some(ToolAction::BackendRefresh),
        AdminAction::BackendRestart => Some(ToolAction::BackendRestart),
        AdminAction::BackendStop => Some(ToolAction::BackendStop),
        _ => None,
    }
}

/// A call of the proxy's tool.
pub open spec fn tool_call(action: ToolAction, force: bool) -> JsonView {
    let arguments = JsonView::Obj(
        map![
            "action"@ => JsonView::Str(tool_action_name(action)),
        ],
    );
    let arguments = if force {
        with_field(
            arguments,
            "params"@,
            JsonView::Obj(map!["force"@ => JsonView::Bool(true)]),
        )
    } else {
        arguments
    };
    JsonView::Obj(
        map![
            "name"@ => JsonView::Str("mcp.wrapper"@),
            "arguments"@ => arguments,
        ],
    )
}

/// What an administration command asks of the broker.
pub open spec fn question(action: AdminAction, force: bool) -> Option<JsonView> {
    let id = JsonView::Num(NumberView::Int(1));
    match action {
        AdminAction::Status => Some(request_view(id, "mcp-wrapper/backend/status"@, None)),
        AdminAction::Doctor => Some(request_view(id, "mcp-wrapper/backend/ping"@, None)),
        _ => match tool_action(action) {
            Some(tool) => Some(request_view(id, "tools/call"@, Some(tool_call(tool, force)))),
            None => None,
        },
    }
}

/// What an administration command asks of the broker: a call of the proxy's tool for
/// the commands about the backend, a control method for `status` and `doctor`, and
/// nothing for those about the broker itself.
pub fn broker_request(action: AdminAction, force: bool) -> (request: Option<Json>)
    ensures
        opt_view(request) == question(action, force),
{
    let tool = match action {
        AdminAction::Status => {
            return Some(build_request(Json::UInt(1), "mcp-wrapper/backend/status", None));
        },
        AdminAction::Doctor => {
            return Some(build_request(Json::UInt(1), "mcp-wrapper/backend/ping", None));
        },
        AdminAction::BackendStatus => ToolAction::BackendStatus,
        AdminAction::BackendPing => ToolAction::BackendPing,
        AdminAction::BackendRefresh => ToolAction::BackendRefresh,
        AdminAction::BackendRestart => ToolAction::BackendRestart,
        AdminAction::BackendStop => ToolAction::BackendStop,
        _ => {
            return None;
        },
    };
    let mut arguments = Json::object();
    arguments.set("action", Json::text(tool.name()));
    if force {
        let mut params = Json::object();
        params.set("force", Json::Bool(true));
        arguments.set("params", params);
    }
    let mut call = Json::object();
    call.set("name", Json::text("mcp.wrapper"));
    call.set("arguments", arguments);
    Some(build_request(Json::UInt(1), "tools/call", Some(call)))
}

/// The envelope that an answer of the proxy's tool carries.
pub open spec fn carried_envelope(resp: JsonView) -> Option<JsonView> {
    opt_field(opt_field(field(resp, "result"@), "_meta"@), "mcpWrapper"@)
}

/// What came of a command about the backend.
#[verifier::ext_equal]
pub struct Outcome {
    pub ok: bool,
    pub result: Option<JsonView>,
    pub error: Option<JsonView>,
}

/// What an answer of the broker says: an error of the protocol is reported as it is,
/// and otherwise the envelope tells whether the action went well.
pub open spec fn outcome_of(resp: JsonView) -> Outcome {
    if field(resp, "error"@) is Some {
        Outcome { ok: false, result: None, error: field(resp, "error"@) }
    } else {
        match carried_envelope(resp) {
            Some(envelope) => if bool_of(field(envelope, "ok"@)) == Some(true) {
                Outcome { ok: true, result: field(envelope, "result"@), error: None }
            } else {
                Outcome { ok: false, result: None, error: field(envelope, "error"@) }
            },
            None => Outcome { ok: true, result: field(resp, "result"@), error: None },
        }
    }
}

/// What an attempt to ask the broker came to.
#[derive(Debug)]
pub enum BrokerReply {
    /// There was no broker to ask, and why.
    Unreachable(String),
    /// The broker did not answer, and why.
    Failed(String),
    /// The broker answered.
    Answer(Json),
}

/// The report on a command about the backend.
pub open spec fn backend_report(
    action: AdminAction,
    target: TargetView,
    status: BrokerStatus,
    reply: BrokerReply,
) -> JsonView {
    let outcome = match reply {
        BrokerReply::Unreachable(e) => Outcome {
            ok: false,
            result: None,
            error: Some(code_and_message("broker.notRunning"@, e@)),
        },
        BrokerReply::Failed(e) => Outcome {
            ok: false,
            result: None,
            error: Some(code_and_message("backend.control"@, e@)),
        },
        BrokerReply::Answer(resp) => outcome_of(resp@),
    };
    report_view(
        outcome.ok,
        action_name(action),
        Some(target),
        Some(broker_json(status)),
        outcome.result,
        outcome.error,
    )
}

/// Reports on a command about the backend.
pub fn backend_control(
    action: AdminAction,
    target: &CommandTarget,
    status: &BrokerStatus,
    reply: BrokerReply,
) -> (j: Json)
    ensures
        j@ == backend_report(action, target@, *status, reply),
{
    let (ok, result, err) = match &reply {
        BrokerReply::Unreachable(e) => (
            false,
            None,
            Some(error("broker.notRunning", e.as_str())),
        ),
        BrokerReply::Failed(e) => (false, None, Some(error("backend.control", e.as_str()))),
        BrokerReply::Answer(resp) => match resp.get("error") {
            Some(err) => (false, None, Some(err.copy())),
            None => match subfield(subfield(resp.get("result"), "_meta"), "mcpWrapper") {
                Some(carried) => {
                    let ok = match carried.get("ok") {
                        Some(ok) => match ok.as_bool() {
                            Some(ok) => ok,
                            None => false,
                        },
                        None => false,
                    };
                    if ok {
                        (true, copied(carried.get("result")), None)
                    } else {
                        (false, None, copied(carried.get("error")))
                    }
                },
                None => (true, copied(resp.get("result")), None),
            },
        },
    };
    envelope(ok, action.name(), Some(target), Some(broker_value(status)), result, err)
}

// ── What is printed ─────────────────────────────────────────────────

/// Whether a report says that all went well.
pub open spec fn went_well(report: JsonView) -> bool {
    bool_of(field(report, "ok"@)) == Some(true)
}

/// The exit code of an administration command.
pub fn exit_code(report: &Json) -> (code: i32)
    ensures
        code == if went_well(report@) {
            0i32
        } else {
            1i32
        },
{
    match report.get("ok") {
        Some(ok) => match ok.as_bool() {
            Some(true) => 0,
            _ => 1,
        },
        None => 1,
    }
}

/// Whether an administration command may start a broker in order to ask it something:
/// only with `--start`, and only `status` and the commands about the backend.
pub open spec fn starts_broker(action: AdminAction, start: bool) -> bool {
    start && (action is Status || tool_action(action) is Some)
}

/// Whether an administration command may start a broker in order to ask it something:
/// only with `--start`, and only `status` and the commands about the backend. `doctor`
/// asks a broker that is running, and the commands about the broker ask nothing.
pub fn may_start(action: AdminAction, start: bool) -> (b: bool)
    ensures
        b == starts_broker(action, start),
{
    let asks = match action {
        AdminAction::Status => true,
        AdminAction::BackendStatus => true,
        AdminAction::BackendPing => true,
        AdminAction::BackendRefresh => true,
        AdminAction::BackendRestart => true,
        AdminAction::BackendStop => true,
        _ => false,
    };
    start && asks
}

/// A report in words.
pub open spec fn report_lines(report: JsonView) -> Seq<Seq<char>> {
    let action = match str_of(field(report, "action"@)) {
        Some(action) => action,
        None => "admin"@,
    };
    if went_well(report) {
        let first = seq![action + ": ok"@];
        match bool_of(opt_field(field(report, "broker"@), "running"@)) {
            Some(running) => first.push(
                "broker.running: "@ + if running {
                    "true"@
                } else {
                    "false"@
                },
            ),
            None => first,
        }
    } else {
        let first = seq![action + ": failed"@];
        match str_of(opt_field(field(report, "error"@), "message"@)) {
            Some(message) => first.push("error: "@ + message),
            None => first,
        }
    }
}

/// A report in words: whether all went well, and the state of the broker or the
/// error.
pub fn print_text(report: &Json) -> (lines: Vec<String>)
    ensures
        texts(lines@) == report_lines(report@),
{
    let action = match field_text(report.get("action")) {
        Some(action) => action,
        None => "admin",
    };
    let mut lines: Vec<String> = Vec::new();
    if exit_code(report) == 0 {
        lines.push(join(action, ": ok"));
        let running = match subfield(report.get("broker"), "running") {
            Some(running) => running.as_bool(),
            None => None,
        };
        assert(texts(lines@) =~= seq![action@ + ": ok"@]);
        if let Some(running) = running {
            let ghost before = lines@;
            lines.push(
                join(
                    "broker.running: ",
                    if running {
                        "true"
                    } else {
                        "false"
                    },
                ),
            );
            assert(texts(lines@) =~= texts(before).push(lines@[1]@));
        }
    } else {
        lines.push(join(action, ": failed"));
        assert(texts(lines@) =~= seq![action@ + ": failed"@]);
        if let Some(message) = field_text(subfield(report.get("error"), "message")) {
            let ghost before = lines@;
            lines.push(join("error: ", message));
            assert(texts(lines@) =~= texts(before).push(lines@[1]@));
        }
    }
    lines
}

/// Without `--start` no command starts a broker in order to ask it something, and
/// `doctor` never does.
pub proof fn law_no_broker_is_started_unasked(action: AdminAction, start: bool)
    ensures
        !starts_broker(action, false),
        !starts_broker(AdminAction::Doctor, start),
{
}

/// A refusal by the proxy's tool is reported as a failure, with its own code and
/// message, and the command exits accordingly.
pub proof fn law_refusal_is_reported(
    action: AdminAction,
    target: TargetView,
    status: BrokerStatus,
    resp: Json,
    tool: Seq<char>,
    name: Seq<char>,
    code: Seq<char>,
    message: Seq<char>,
    text: Seq<char>,
    id: JsonView,
)
    requires
        resp@ == response_view(
            id,
            call_result(
                fault_view(tool, name, code, message),
                text,
            ),
        ),
    ensures
        ({
            let report = backend_report(action, target, status, BrokerReply::Answer(resp));
            &&& !went_well(report)
            &&& field(report, "error"@) == Some(code_and_message(code, message))
        }),
{
    lemma_report_fields();
    let envelope = fault_view(tool, name, code, message);
    assert(field(resp@, "error"@) is None);
    assert(carried_envelope(resp@) == Some(envelope));
    assert(field(envelope, "ok"@) == Some(JsonView::Bool(false)));
    assert(field(envelope, "error"@) == Some(code_and_message(code, message)));
}

/// A command about the backend is a valid call of the proxy's tool, with that action,
/// and forced where the command is: there is no second way to control the backend.
pub proof fn law_backend_commands_call_the_tool(action: AdminAction, force: bool)
    requires
        tool_action(action) is Some,
    ensures
        ({
            let raw = question(action, force)->0;
            let arguments = opt_field(field(raw, "params"@), "arguments"@);
            &&& question(action, force) is Some
            &&& wrapper_call(raw)
            &&& invocation_of(arguments) matches Ok(call) && {
                &&& call.action == tool_action(action)->0
                &&& call.target == "default"@
                &&& is_forced(call.params) == force
            }
        }),
{
    let tool = tool_action(action)->0;
    law_action_names_lead_back(tool_action_name(tool), tool);
    reveal_strlit("jsonrpc");
    reveal_strlit("id");
    reveal_strlit("method");
    reveal_strlit("params");
    reveal_strlit("name");
    reveal_strlit("arguments");
    reveal_strlit("action");
    reveal_strlit("target");
    reveal_strlit("force");
    assert("jsonrpc"@.len() == 7 && "id"@.len() == 2 && "method"@.len() == 6);
    assert("params"@.len() == 6 && "name"@.len() == 4 && "arguments"@.len() == 9);
    assert("action"@.len() == 6 && "target"@.len() == 6 && "force"@.len() == 5);
    assert("method"@[0] == 'm' && "params"@[0] == 'p');
    assert("action"@[0] == 'a' && "target"@[0] == 't');
    let raw = question(action, force)->0;
    let call = tool_call(tool, force);
    assert(field(raw, "params"@) == Some(call));
    assert(field(call, "name"@) == Some(JsonView::Str("mcp.wrapper"@)));
}

/// The names of the fields are distinct.
proof fn lemma_report_fields()
    ensures
        "ok"@ != "action"@,
        "ok"@ != "target"@,
        "ok"@ != "broker"@,
        "ok"@ != "result"@,
        "ok"@ != "error"@,
        "ok"@ != "evidence"@,
        "error"@ != "evidence"@,
        "error"@ != "jsonrpc"@,
        "error"@ != "id"@,
        "error"@ != "result"@,
        "result"@ != "id"@,
        "result"@ != "jsonrpc"@,
        "_meta"@ != "content"@,
        "_meta"@ != "isError"@,
        "_meta"@ != "structuredContent"@,
{
    reveal_strlit("ok");
    reveal_strlit("action");
    reveal_strlit("target");
    reveal_strlit("broker");
    reveal_strlit("result");
    reveal_strlit("error");
    reveal_strlit("evidence");
    reveal_strlit("jsonrpc");
    reveal_strlit("id");
    reveal_strlit("_meta");
    reveal_strlit("content");
    reveal_strlit("isError");
    reveal_strlit("structuredContent");
    assert("ok"@.len() == 2);
    assert("action"@.len() == 6);
    assert("target"@.len() == 6);
    assert("broker"@.len() == 6);
    assert("result"@.len() == 6);
    assert("error"@.len() == 5);
    assert("evidence"@.len() == 8);
    assert("jsonrpc"@.len() == 7);
    assert("id"@.len() == 2);
    assert("_meta"@.len() == 5);
    assert("content"@.len() == 7);
    assert("isError"@.len() == 7);
    assert("structuredContent"@.len() == 17);
}

// ── What the reports are for ────────────────────────────────────────

proof fn lemma_all_report_fields()
    ensures
        "action"@ != "target"@ && "action"@ != "broker"@ && "action"@ != "result"@ && "action"@
            != "error"@,
        "target"@ != "broker"@ && "target"@ != "result"@ && "target"@ != "error"@,
        "broker"@ != "result"@ && "broker"@ != "error"@ && "result"@ != "error"@,
        "code"@ != "message"@,
{
    reveal_strlit("ok");
    reveal_strlit("action");
    reveal_strlit("target");
    reveal_strlit("broker");
    reveal_strlit("result");
    reveal_strlit("error");
    assert("ok"@.len() == 2);
    assert("action"@.len() == 6);
    assert("target"@.len() == 6);
    assert("broker"@.len() == 6);
    assert("result"@.len() == 6);
    assert("error"@.len() == 5);
    assert("action"@[0] != "target"@[0]);
    assert("action"@[0] != "broker"@[0]);
    assert("action"@[0] != "result"@[0]);
    assert("target"@[0] != "broker"@[0]);
    assert("target"@[0] != "result"@[0]);
    assert("broker"@[0] != "result"@[0]);
    reveal_strlit("code");
    reveal_strlit("message");
    assert("code"@.len() == 4);
    assert("message"@.len() == 7);
}

/// The code of the error in a report.
pub open spec fn reported_code(report: JsonView) -> Option<Seq<char>> {
    str_of(opt_field(field(report, "error"@), "code"@))
}

/// The message of the error in a report.
pub open spec fn reported_message(report: JsonView) -> Option<Seq<char>> {
    str_of(opt_field(field(report, "error"@), "message"@))
}

/// A report has the parts that it was made of, under their names, and no others.
pub proof fn law_report_holds_its_parts(
    ok: bool,
    action: &str,
    target: Option<&CommandTarget>,
    broker: Option<Json>,
    result: Option<Json>,
    err: Option<Json>,
    report: Json,
)
    requires
        call_ensures(envelope, (ok, action, target, broker, result, err), report),
    ensures
        field(report@, "ok"@) == Some(JsonView::Bool(ok)),
        field(report@, "action"@) == Some(JsonView::Str(action@)),
        field(report@, "target"@) is Some <==> target is Some,
        field(report@, "broker"@) == opt_view(broker),
        field(report@, "result"@) == opt_view(result),
        field(report@, "error"@) == opt_view(err),
        (target matches Some(t) ==> opt_field(field(report@, "target"@), "cmd"@) == Some(
            JsonView::Str(t.cmd@),
        )),
{
    lemma_report_fields();
    lemma_all_report_fields();
    reveal_strlit("cmd");
    reveal_strlit("args");
    reveal_strlit("hash");
    assert("cmd"@.len() == 3);
    assert("args"@.len() == 4);
    assert("hash"@.len() == 4);
    assert("args"@[0] != "hash"@[0]);
}

/// A command is reported with its words in order and with its identity.
pub proof fn law_reported_target(target: &CommandTarget, j: Json, i: int)
    requires
        call_ensures(target_value, (target,), j),
        0 <= i < target.args@.len(),
    ensures
        field(j@, "cmd"@) == Some(JsonView::Str(target.cmd@)),
        field(j@, "args"@) matches Some(JsonView::Arr(args)) && args.len() == target.args@.len()
            && args[i] == JsonView::Str(target.args@[i]@),
        field(j@, "hash"@) == Some(JsonView::Str(command_hash(target.cmd@, texts(target.args@)))),
{
    reveal_strlit("cmd");
    reveal_strlit("args");
    reveal_strlit("hash");
    assert("cmd"@.len() == 3);
    assert("args"@.len() == 4);
    assert("hash"@.len() == 4);
    assert("args"@[0] != "hash"@[0]);
}

/// The state of a broker is reported field by field.
pub proof fn law_reported_broker(status: &BrokerStatus, j: Json)
    requires
        call_ensures(broker_value, (status,), j),
    ensures
        field(j@, "hash"@) == Some(JsonView::Str(status.hash@)),
        field(j@, "running"@) == Some(JsonView::Bool(status.running)),
        field(j@, "pid"@) == Some(
            match status.pid {
                Some(pid) => JsonView::Num(NumberView::Int(pid as int)),
                None => JsonView::Null,
            },
        ),
        field(j@, "socketExists"@) == Some(JsonView::Bool(status.socket_exists)),
        field(j@, "lockExists"@) == Some(JsonView::Bool(status.lock_exists)),
        field(j@, "socket"@) == Some(JsonView::Str(status.socket@)),
        field(j@, "lock"@) == Some(JsonView::Str(status.lock@)),
        field(j@, "pidPath"@) == Some(JsonView::Str(status.pid_path@)),
        field(j@, "metaPath"@) == Some(JsonView::Str(status.meta_path@)),
        field(j@, "meta"@) == Some(
            match status.meta {
                Some(meta) => meta@,
                None => JsonView::Null,
            },
        ),
        field(j@, "metaMatchesCurrentExe"@) == Some(
            JsonView::Bool(status.meta_matches_current_exe),
        ),
{
    reveal_strlit("hash");
    reveal_strlit("running");
    reveal_strlit("pid");
    reveal_strlit("socketExists");
    reveal_strlit("lockExists");
    reveal_strlit("socket");
    reveal_strlit("lock");
    reveal_strlit("pidPath");
    reveal_strlit("metaPath");
    reveal_strlit("meta");
    reveal_strlit("metaMatchesCurrentExe");
    assert("hash"@.len() == 4);
    assert("running"@.len() == 7);
    assert("pid"@.len() == 3);
    assert("socketExists"@.len() == 12);
    assert("lockExists"@.len() == 10);
    assert("socket"@.len() == 6);
    assert("lock"@.len() == 4);
    assert("pidPath"@.len() == 7);
    assert("metaPath"@.len() == 8);
    assert("meta"@.len() == 4);
    assert("metaMatchesCurrentExe"@.len() == 21);
    assert("hash"@[0] != "lock"@[0]);
    assert("hash"@[0] != "meta"@[0]);
    assert("running"@[0] != "pidPath"@[0]);
    assert("lock"@[0] != "meta"@[0]);
}

/// The list of brokers is reported with every broker, in order; where it could not be
/// had, the reason is.
pub proof fn law_reported_brokers(
    listed: Result<Vec<BrokerStatus>, String>,
    report: Json,
    i: int,
    one: Json,
)
    requires
        call_ensures(broker_list, (listed,), report),
        listed matches Ok(brokers) ==> 0 <= i < brokers@.len() && call_ensures(
            broker_value,
            (&brokers@[i],),
            one,
        ),
    ensures
        field(report@, "action"@) == Some(JsonView::Str("broker.list"@)),
        field(report@, "ok"@) == Some(JsonView::Bool(listed is Ok)),
        (listed matches Ok(brokers) ==> opt_field(field(report@, "result"@), "brokers"@)
            matches Some(JsonView::Arr(all)) && all.len() == brokers@.len() && all[i] == one@),
        (listed matches Err(why) ==> reported_message(report@) == Some(why@)),
{
    lemma_report_fields();
    lemma_all_report_fields();
}

/// A command about a broker is reported under its name with the state of that broker, and
/// where it failed with the reason.
pub proof fn law_broker_commands_are_reported(
    action: AdminAction,
    target: &CommandTarget,
    done: Result<(), String>,
    status: &BrokerStatus,
    report: Json,
    state: Json,
)
    requires
        call_ensures(broker_report, (action, target, done, status), report),
        call_ensures(broker_value, (status,), state),
    ensures
        field(report@, "ok"@) == Some(JsonView::Bool(done is Ok)),
        field(report@, "action"@) == Some(JsonView::Str(action_name(action))),
        opt_field(field(report@, "target"@), "cmd"@) == Some(JsonView::Str(target.cmd@)),
        field(report@, "broker"@) == Some(state@),
        done is Ok ==> field(report@, "error"@) is None,
        (done matches Err(why) ==> reported_message(report@) == Some(why@) && reported_code(report@)
            == Some(action_name(action)) && field(report@, "result"@) is None),
{
    lemma_report_fields();
    lemma_all_report_fields();
    reveal_strlit("cmd");
    reveal_strlit("args");
    reveal_strlit("hash");
    assert("cmd"@.len() == 3);
    assert("args"@.len() == 4);
    assert("hash"@.len() == 4);
    assert("args"@[0] != "hash"@[0]);
}

/// `status` shows what the broker answered, or why it did not; `doctor` shows its ping
/// and the identity of the command. Both show the state of the broker and go well.
pub proof fn law_status_and_doctor_show_the_answer(
    target: &CommandTarget,
    broker: &BrokerStatus,
    reply: Option<Result<Json, String>>,
    shown: Json,
    ping: Option<Json>,
    examined: Json,
    state: Json,
)
    requires
        call_ensures(status, (target, broker, reply), shown),
        call_ensures(doctor, (target, broker, ping), examined),
        call_ensures(broker_value, (broker,), state),
    ensures
        field(shown@, "ok"@) == Some(JsonView::Bool(true)),
        field(shown@, "action"@) == Some(JsonView::Str("status"@)),
        field(shown@, "broker"@) == Some(state@),
        (reply matches Some(Ok(answer)) ==> (field(answer@, "result"@) matches Some(result)
            ==> field(shown@, "result"@) == Some(result))),
        (reply matches Some(Err(why)) ==> opt_field(field(shown@, "result"@), "backendError"@)
            == Some(JsonView::Str(why@))),
        reply is None ==> field(shown@, "result"@) == Some(JsonView::Null),
        field(examined@, "ok"@) == Some(JsonView::Bool(true)),
        field(examined@, "action"@) == Some(JsonView::Str("doctor"@)),
        field(examined@, "broker"@) == Some(state@),
        opt_field(field(examined@, "result"@), "targetHash"@) == Some(JsonView::Str(broker.hash@)),
        opt_field(field(examined@, "result"@), "backendPing"@) == Some(
            match ping {
                Some(answer) => match field(answer@, "result"@) {
                    Some(result) => result,
                    None => JsonView::Null,
                },
                None => JsonView::Null,
            },
        ),
{
    lemma_report_fields();
    lemma_all_report_fields();
    reveal_strlit("targetHash");
    reveal_strlit("backendPing");
    assert("targetHash"@.len() == 10);
    assert("backendPing"@.len() == 11);
}

/// Each command asks the broker for what it names: those about the backend call the
/// proxy's tool with the action of the same name, `status` and `doctor` ask for the state
/// and for a ping, and those about the broker ask nothing.
pub proof fn law_commands_ask_for_what_they_name(
    action: AdminAction,
    force: bool,
    request: Option<Json>,
)
    requires
        call_ensures(broker_request, (action, force), request),
    ensures
        (request matches Some(raw) ==> field(raw@, "id"@) is Some),
        "backend."@.is_prefix_of(action_name(action)) ==> (request matches Some(raw) && field(
            raw@,
            "method"@,
        ) == Some(JsonView::Str("tools/call"@)) && opt_field(field(raw@, "params"@), "name"@)
            == Some(JsonView::Str("mcp.wrapper"@)) && opt_field(
            opt_field(field(raw@, "params"@), "arguments"@),
            "action"@,
        ) == Some(JsonView::Str(action_name(action))) && (opt_field(
            opt_field(opt_field(field(raw@, "params"@), "arguments"@), "params"@),
            "force"@,
        ) == Some(JsonView::Bool(true)) <==> force)),
        action_name(action) == "status"@ ==> (request matches Some(raw) && field(
            raw@,
            "method"@,
        ) == Some(JsonView::Str("mcp-wrapper/backend/"@ + "status"@))),
        action_name(action) == "doctor"@ ==> (request matches Some(raw) && field(
            raw@,
            "method"@,
        ) == Some(JsonView::Str("mcp-wrapper/backend/"@ + "ping"@))),
        "broker."@.is_prefix_of(action_name(action)) ==> request is None,
{
    lemma_action_prefixes(action);
    reveal_strlit("jsonrpc");
    reveal_strlit("id");
    reveal_strlit("method");
    reveal_strlit("params");
    assert("jsonrpc"@.len() == 7);
    assert("id"@.len() == 2);
    assert("method"@.len() == 6);
    assert("params"@.len() == 6);
    assert("method"@[0] != "params"@[0]);
    reveal_strlit("name");
    reveal_strlit("arguments");
    assert("name"@.len() == 4);
    assert("arguments"@.len() == 9);
    reveal_strlit("action");
    reveal_strlit("params");
    reveal_strlit("force");
    assert("action"@.len() == 6);
    assert("params"@.len() == 6);
    assert("force"@.len() == 5);
    assert("action"@[0] != "params"@[0]);
    reveal_strlit("mcp-wrapper/backend/");
    reveal_strlit("status");
    reveal_strlit("ping");
    reveal_strlit("mcp-wrapper/backend/status");
    reveal_strlit("mcp-wrapper/backend/ping");
    assert("mcp-wrapper/backend/"@.len() == 20);
    assert("status"@.len() == 6);
    assert("ping"@.len() == 4);
    assert("mcp-wrapper/backend/status"@.len() == 26);
    assert("mcp-wrapper/backend/ping"@.len() == 24);
    assert("mcp-wrapper/backend/"@ + "status"@ =~= "mcp-wrapper/backend/status"@);
    assert("mcp-wrapper/backend/"@ + "ping"@ =~= "mcp-wrapper/backend/ping"@);
    if let Some(tool) = tool_action(action) {
        let raw = question(action, force)->0;
        let call = tool_call(tool, force);
        assert(field(raw, "params"@) == Some(call));
    }
}

/// Which actions are about the backend, and which about the broker.
proof fn lemma_action_prefixes(action: AdminAction)
    ensures
        "backend."@.is_prefix_of(action_name(action)) <==> tool_action(action) is Some,
        "broker."@.is_prefix_of(action_name(action)) <==> action is BrokerList || action
            is BrokerStatus || action is BrokerStop || action is BrokerRestart,
        tool_action(action) matches Some(tool) ==> tool_action_name(tool) == action_name(action),
        action_name(action) == "status"@ <==> action is Status,
        action_name(action) == "doctor"@ <==> action is Doctor,
{
    reveal_strlit("backend.");
    reveal_strlit("broker.");
    reveal_strlit("status");
    reveal_strlit("doctor");
    reveal_strlit("backend.status");
    reveal_strlit("backend.ping");
    reveal_strlit("backend.refresh");
    reveal_strlit("backend.restart");
    reveal_strlit("backend.stop");
    reveal_strlit("broker.list");
    reveal_strlit("broker.status");
    reveal_strlit("broker.stop");
    reveal_strlit("broker.restart");
    assert("backend."@.len() == 8);
    assert("broker."@.len() == 7);
    assert("status"@.len() == 6);
    assert("doctor"@.len() == 6);
    assert("backend.status"@.len() == 14);
    assert("backend.ping"@.len() == 12);
    assert("backend.refresh"@.len() == 15);
    assert("backend.restart"@.len() == 15);
    assert("backend.stop"@.len() == 12);
    assert("broker.list"@.len() == 11);
    assert("broker.status"@.len() == 13);
    assert("broker.stop"@.len() == 11);
    assert("broker.restart"@.len() == 14);
    assert("status"@[0] != "doctor"@[0]);
    assert("backend.status"@[1] != "broker.restart"@[1]);
    assert("backend.ping"@[8] != "backend.stop"@[8]);
    assert("backend.refresh"@[10] != "backend.restart"@[10]);
    assert("broker.list"@[7] != "broker.stop"@[7]);
    assert("backend.status"@.subrange(0, 8) =~= "backend."@);
    assert("backend.ping"@.subrange(0, 8) =~= "backend."@);
    assert("backend.refresh"@.subrange(0, 8) =~= "backend."@);
    assert("backend.restart"@.subrange(0, 8) =~= "backend."@);
    assert("backend.stop"@.subrange(0, 8) =~= "backend."@);
    assert("broker.list"@.subrange(0, 7) =~= "broker."@);
    assert("broker.status"@.subrange(0, 7) =~= "broker."@);
    assert("broker.stop"@.subrange(0, 7) =~= "broker."@);
    assert("broker.restart"@.subrange(0, 7) =~= "broker."@);
    let name = action_name(action);
    if "backend."@.is_prefix_of(name) {
        assert(name.subrange(0, 8)[1] == "backend."@[1]);
        assert(name.subrange(0, 8)[0] == "backend."@[0]);
    }
    if "broker."@.is_prefix_of(name) {
        assert(name.subrange(0, 7)[1] == "broker."@[1]);
        assert(name.subrange(0, 7)[0] == "broker."@[0]);
    }
}

/// A command may start a broker exactly where `--start` is given and it is `status` or
/// about the backend.
pub proof fn law_which_commands_start_a_broker(action: AdminAction, start: bool, may: bool)
    requires
        call_ensures(may_start, (action, start), may),
    ensures
        may <==> start && (action_name(action) == "status"@ || "backend."@.is_prefix_of(
            action_name(action),
        )),
{
    lemma_action_prefixes(action);
}

/// A command about the backend is reported as the broker answered: a result that went
/// well is shown as it is, an error of the protocol and a refusal are failures with their
/// own error, and where there was no answer the reason is given.
pub proof fn law_backend_commands_are_reported(
    action: AdminAction,
    target: &CommandTarget,
    status: &BrokerStatus,
    reply: BrokerReply,
    report: Json,
    state: Json,
)
    requires
        call_ensures(backend_control, (action, target, status, reply), report),
        call_ensures(broker_value, (status,), state),
    ensures
        field(report@, "action"@) == Some(JsonView::Str(action_name(action))),
        opt_field(field(report@, "target"@), "cmd"@) == Some(JsonView::Str(target.cmd@)),
        field(report@, "broker"@) == Some(state@),
        match reply {
            BrokerReply::Unreachable(why) => {
                &&& field(report@, "ok"@) == Some(JsonView::Bool(false))
                &&& reported_code(report@) == Some("broker.notRunning"@)
                &&& reported_message(report@) == Some(why@)
                &&& field(report@, "result"@) is None
            },
            BrokerReply::Failed(why) => {
                &&& field(report@, "ok"@) == Some(JsonView::Bool(false))
                &&& reported_code(report@) == Some("backend.control"@)
                &&& reported_message(report@) == Some(why@)
                &&& field(report@, "result"@) is None
            },
            BrokerReply::Answer(answer) => {
                let carried = opt_field(
                    opt_field(field(answer@, "result"@), "_meta"@),
                    "mcpWrapper"@,
                );
                let failed = field(answer@, "error"@) is Some || (carried is Some && opt_field(
                    carried,
                    "ok"@,
                ) != Some(JsonView::Bool(true)));
                &&& field(report@, "ok"@) == Some(JsonView::Bool(!failed))
                &&& field(answer@, "error"@) is Some ==> field(report@, "error"@) == field(
                    answer@,
                    "error"@,
                )
                &&& field(answer@, "error"@) is None && failed ==> field(report@, "error"@)
                    == opt_field(carried, "error"@)
                &&& !failed ==> field(report@, "error"@) is None && field(report@, "result"@)
                    == if carried is Some {
                    opt_field(carried, "result"@)
                } else {
                    field(answer@, "result"@)
                }
                &&& failed ==> field(report@, "result"@) is None
            },
        },
{
    lemma_report_fields();
    lemma_all_report_fields();
    reveal_strlit("cmd");
    reveal_strlit("args");
    reveal_strlit("hash");
    assert("cmd"@.len() == 3);
    assert("args"@.len() == 4);
    assert("hash"@.len() == 4);
    assert("args"@[0] != "hash"@[0]);
}

/// A command exits with zero exactly where its report says that all went well.
pub proof fn law_exit_code_tells_success(report: &Json, code: i32)
    requires
        call_ensures(exit_code, (report,), code),
    ensures
        code == 0 <==> field(report@, "ok"@) == Some(JsonView::Bool(true)),
        code == 0 || code == 1,
{
}

/// A report in words begins with the action and how it went; after that come the state of
/// the broker where it went well, and the error where it did not.
pub proof fn law_report_in_words(report: &Json, lines: Vec<String>)
    requires
        call_ensures(print_text, (report,), lines),
        field(report@, "action"@) is Some && field(report@, "action"@)->0 is Str,
    ensures
        ({
            let action = field(report@, "action"@)->0->Str_0;
            let good = field(report@, "ok"@) == Some(JsonView::Bool(true));
            &&& lines@.len() >= 1
            &&& action.is_prefix_of(lines@[0]@)
            &&& good ==> lines@[0]@ == action + ": ok"@
            &&& !good ==> lines@[0]@ == action + ": failed"@
            &&& good && opt_field(field(report@, "broker"@), "running"@) == Some(
                JsonView::Bool(true),
            ) ==> lines@.len() == 2 && lines@[1]@ == "broker.running: "@ + "true"@
            &&& good && opt_field(field(report@, "broker"@), "running"@) == Some(
                JsonView::Bool(false),
            ) ==> lines@.len() == 2 && lines@[1]@ == "broker.running: "@ + "false"@
            &&& (opt_field(field(report@, "error"@), "message"@) matches Some(JsonView::Str(why))
                ==> !good ==> lines@.len() == 2 && lines@[1]@ == "error: "@ + why)
        }),
{
    let action = field(report@, "action"@)->0->Str_0;
    let words = texts(lines@);
    assert(words.len() == lines@.len());
    assert(words[0] == lines@[0]@);
    if words.len() > 1 {
        assert(words[1] == lines@[1]@);
    }
    assert((action + ": ok"@).subrange(0, action.len() as int) =~= action);
    assert((action + ": failed"@).subrange(0, action.len() as int) =~= action);
}

/// An error in reports has its code and its message.
pub proof fn law_reported_error(code: &str, message: &str, j: Json)
    requires
        call_ensures(error, (code, message), j),
    ensures
        field(j@, "code"@) == Some(JsonView::Str(code@)),
        field(j@, "message"@) == Some(JsonView::Str(message@)),
{
    reveal_strlit("code");
    reveal_strlit("message");
    assert("code"@.len() == 4);
    assert("message"@.len() == 7);
}

} // verus!
