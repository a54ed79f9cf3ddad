//! MCP over JSON-RPC: which method is answered from where.

use vstd::prelude::*;

pub use crate::error_codes;
use crate::text::text_eq;
pub use crate::transport::{
    build_error_response, build_notification, build_request, build_response, classify, decode_line,
    encode_line, JsonRpcMessage, Line,
};

verus! {

/// The discovery answers that are kept in the cache.
#[derive(Debug, Clone, Copy, PartialEq, Eq, Hash, Structural)]
pub enum McpDataKey {
    Initialize,
    ToolsList,
    PromptsList,
    ResourcesList,
    ResourceTemplatesList,
}

/// Who answers a request.
#[derive(Debug, Clone, Copy, PartialEq, Eq, Structural)]
pub enum Route {
    McpData(McpDataKey),
    PassThrough,
    Local,
    WrapperControl(WrapperControlMethod),
}

/// The control methods of the proxy itself.
#[derive(Debug, Clone, Copy, PartialEq, Eq, Structural)]
pub enum WrapperControlMethod {
    BackendStatus,
    BackendRefresh,
    BackendRestart,
    BackendStop,
    BackendPing,
}

/// The method that asks for a discovery answer.
pub open spec fn data_method(key: McpDataKey) -> Seq<char> {
    match key {
        McpDataKey::Initialize => "initialize"@,
        McpDataKey::ToolsList => "tools/list"@,
        McpDataKey::PromptsList => "prompts/list"@,
        McpDataKey::ResourcesList => "resources/list"@,
        McpDataKey::ResourceTemplatesList => "resources/templates/list"@,
    }
}

/// The name of a control method.
pub open spec fn control_method(control: WrapperControlMethod) -> Seq<char> {
    match control {
        WrapperControlMethod::BackendStatus => "mcp-wrapper/backend/status"@,
        WrapperControlMethod::BackendRefresh => "mcp-wrapper/backend/refresh"@,
        WrapperControlMethod::BackendRestart => "mcp-wrapper/backend/restart"@,
        WrapperControlMethod::BackendStop => "mcp-wrapper/backend/stop"@,
        WrapperControlMethod::BackendPing => "mcp-wrapper/backend/ping"@,
    }
}

/// The control method of a name.
pub open spec fn control_of(method: Seq<char>) -> Option<WrapperControlMethod> {
    if method == "mcp-wrapper/backend/status"@ {
        Some(WrapperControlMethod::BackendStatus)
    } else if method == "mcp-wrapper/backend/refresh"@ {
        Some(WrapperControlMethod::BackendRefresh)
    } else if method == "mcp-wrapper/backend/restart"@ {
        Some(WrapperControlMethod::BackendRestart)
    } else if method == "mcp-wrapper/backend/stop"@ {
        Some(WrapperControlMethod::BackendStop)
    } else if method == "mcp-wrapper/backend/ping"@ {
        Some(WrapperControlMethod::BackendPing)
    } else {
        None
    }
}

/// The discovery answer that a method asks for.
pub open spec fn data_key_of(method: Seq<char>) -> Option<McpDataKey> {
    if method == "initialize"@ {
        Some(McpDataKey::Initialize)
    } else if method == "tools/list"@ {
        Some(McpDataKey::ToolsList)
    } else if method == "prompts/list"@ {
        Some(McpDataKey::PromptsList)
    } else if method == "resources/list"@ {
        Some(McpDataKey::ResourcesList)
    } else if method == "resources/templates/list"@ {
        Some(McpDataKey::ResourceTemplatesList)
    } else {
        None
    }
}

/// Who answers a method: discovery from the cache, `ping` and the control
/// methods here, everything else the backend.
pub open spec fn route_of(method: Seq<char>) -> Route {
    match (data_key_of(method), control_of(method)) {
        (Some(key), _) => Route::McpData(key),
        (None, Some(control)) => Route::WrapperControl(control),
        (None, None) => if method == "ping"@ {
            Route::Local
        } else {
            Route::PassThrough
        },
    }
}

/// The control method of a name.
pub fn control_for_method(method: &str) -> (control: Option<WrapperControlMethod>)
    ensures
        control == control_of(method@),
{
    if text_eq(method, "mcp-wrapper/backend/status") {
        Some(WrapperControlMethod::BackendStatus)
    } else if text_eq(method, "mcp-wrapper/backend/refresh") {
        Some(WrapperControlMethod::BackendRefresh)
    } else if text_eq(method, "mcp-wrapper/backend/restart") {
        Some(WrapperControlMethod::BackendRestart)
    } else if text_eq(method, "mcp-wrapper/backend/stop") {
        Some(WrapperControlMethod::BackendStop)
    } else if text_eq(method, "mcp-wrapper/backend/ping") {
        Some(WrapperControlMethod::BackendPing)
    } else {
        None
    }
}

/// Decides who answers a request.
pub fn route(method: &str) -> (r: Route)
    ensures
        r == route_of(method@),
{
    if text_eq(method, "initialize") {
        Route::McpData(McpDataKey::Initialize)
    } else if text_eq(method, "tools/list") {
        Route::McpData(McpDataKey::ToolsList)
    } else if text_eq(method, "prompts/list") {
        Route::McpData(McpDataKey::PromptsList)
    } else if text_eq(method, "resources/list") {
        Route::McpData(McpDataKey::ResourcesList)
    } else if text_eq(method, "resources/templates/list") {
        Route::McpData(McpDataKey::ResourceTemplatesList)
    } else {
        match control_for_method(method) {
            Some(control) => Route::WrapperControl(control),
            None => if text_eq(method, "ping") {
                Route::Local
            } else {
                Route::PassThrough
            },
        }
    }
}

/// The discovery answer that a notification of the backend makes stale.
pub open spec fn list_changed_key(method: Seq<char>) -> Option<McpDataKey> {
    if method == "notifications/tools/list_changed"@ {
        Some(McpDataKey::ToolsList)
    } else if method == "notifications/prompts/list_changed"@ {
        Some(McpDataKey::PromptsList)
    } else if method == "notifications/resources/list_changed"@ {
        Some(McpDataKey::ResourcesList)
    } else {
        None
    }
}

/// The discovery answer that a notification of the backend makes stale.
pub fn is_list_changed_notification(method: &str) -> (key: Option<McpDataKey>)
    ensures
        key == list_changed_key(method@),
{
    if text_eq(method, "notifications/tools/list_changed") {
        Some(McpDataKey::ToolsList)
    } else if text_eq(method, "notifications/prompts/list_changed") {
        Some(McpDataKey::PromptsList)
    } else if text_eq(method, "notifications/resources/list_changed") {
        Some(McpDataKey::ResourcesList)
    } else {
        None
    }
}

/// The method that asks for a discovery answer.
pub fn method_for_mcp_data_key(key: &McpDataKey) -> (method: &'static str)
    ensures
        method@ == data_method(*key),
{
    match key {
        McpDataKey::Initialize => "initialize",
        McpDataKey::ToolsList => "tools/list",
        McpDataKey::PromptsList => "prompts/list",
        McpDataKey::ResourcesList => "resources/list",
        McpDataKey::ResourceTemplatesList => "resources/templates/list",
    }
}

/// The method of every discovery key routes back to that key.
pub proof fn law_data_method_routes_back(key: McpDataKey)
    ensures
        route_of(data_method(key)) == Route::McpData(key),
{
    lemma_method_literals();
}

/// The name of every control method routes back to that method.
pub proof fn law_control_method_routes_back(control: WrapperControlMethod)
    ensures
        route_of(control_method(control)) == Route::WrapperControl(control),
{
    lemma_method_literals();
}

/// Only the method of a key is served from that key's cache slot.
pub proof fn law_data_route_has_one_method(method: Seq<char>, key: McpDataKey)
    ensures
        route_of(method) == Route::McpData(key) <==> method == data_method(key),
{
    lemma_method_literals();
}

/// The fixed methods differ from one another: in length, or else in a letter.
pub proof fn lemma_method_literals()
    ensures
        "initialize"@.len() == 10,
        "tools/list"@.len() == 10,
        "prompts/list"@.len() == 12,
        "resources/list"@.len() == 14,
        "resources/templates/list"@.len() == 24,
        "mcp-wrapper/backend/status"@.len() == 26,
        "mcp-wrapper/backend/refresh"@.len() == 27,
        "mcp-wrapper/backend/restart"@.len() == 27,
        "mcp-wrapper/backend/stop"@.len() == 24,
        "mcp-wrapper/backend/ping"@.len() == 24,
        "ping"@.len() == 4,
        "initialize"@ != "tools/list"@,
        "resources/templates/list"@ != "mcp-wrapper/backend/stop"@,
        "resources/templates/list"@ != "mcp-wrapper/backend/ping"@,
        "mcp-wrapper/backend/refresh"@ != "mcp-wrapper/backend/restart"@,
        "mcp-wrapper/backend/stop"@ != "mcp-wrapper/backend/ping"@,
{
    reveal_strlit("initialize");
    reveal_strlit("tools/list");
    reveal_strlit("prompts/list");
    reveal_strlit("resources/list");
    reveal_strlit("resources/templates/list");
    reveal_strlit("mcp-wrapper/backend/status");
    reveal_strlit("mcp-wrapper/backend/refresh");
    reveal_strlit("mcp-wrapper/backend/restart");
    reveal_strlit("mcp-wrapper/backend/stop");
    reveal_strlit("mcp-wrapper/backend/ping");
    reveal_strlit("ping");
    assert("initialize"@[0] != "tools/list"@[0]);
    assert("resources/templates/list"@[0] != "mcp-wrapper/backend/stop"@[0]);
    assert("resources/templates/list"@[0] != "mcp-wrapper/backend/ping"@[0]);
    assert("mcp-wrapper/backend/refresh"@[22] != "mcp-wrapper/backend/restart"@[22]);
    assert("mcp-wrapper/backend/stop"@[20] != "mcp-wrapper/backend/ping"@[20]);
}

/// A ping is answered here, the methods of discovery are served from the cache, the
/// control methods are carried out here, and every other method is passed on.
pub proof fn law_routes(method: &str, r: Route)
    requires
        call_ensures(route, (method,), r),
    ensures
        r == Route::Local <==> method@ == "ping"@,
        (r matches Route::McpData(key) ==> method@ == data_method(key)),
        (r matches Route::WrapperControl(control) ==> method@ == control_method(control)),
        r == Route::PassThrough ==> method@ != "ping"@ && (forall|key: McpDataKey|
            method@ != #[trigger] data_method(key)) && (forall|control: WrapperControlMethod|
            method@ != #[trigger] control_method(control)),
{
    lemma_method_literals();
}

/// A control method is named by the word of what it does.
pub proof fn law_control_methods_are_named_by_what_they_do()
    ensures
        control_method(WrapperControlMethod::BackendStatus) == "mcp-wrapper/backend/"@ + "status"@,
        control_method(WrapperControlMethod::BackendRefresh) == "mcp-wrapper/backend/"@
            + "refresh"@,
        control_method(WrapperControlMethod::BackendRestart) == "mcp-wrapper/backend/"@
            + "restart"@,
        control_method(WrapperControlMethod::BackendStop) == "mcp-wrapper/backend/"@ + "stop"@,
        control_method(WrapperControlMethod::BackendPing) == "mcp-wrapper/backend/"@ + "ping"@,
{
    reveal_strlit("mcp-wrapper/backend/");
    reveal_strlit("status");
    reveal_strlit("refresh");
    reveal_strlit("restart");
    reveal_strlit("stop");
    reveal_strlit("ping");
    reveal_strlit("mcp-wrapper/backend/status");
    reveal_strlit("mcp-wrapper/backend/refresh");
    reveal_strlit("mcp-wrapper/backend/restart");
    reveal_strlit("mcp-wrapper/backend/stop");
    reveal_strlit("mcp-wrapper/backend/ping");
    assert("mcp-wrapper/backend/"@.len() == 20);
    assert("status"@.len() == 6);
    assert("refresh"@.len() == 7);
    assert("restart"@.len() == 7);
    assert("stop"@.len() == 4);
    assert("ping"@.len() == 4);
    assert("mcp-wrapper/backend/status"@.len() == 26);
    assert("mcp-wrapper/backend/refresh"@.len() == 27);
    assert("mcp-wrapper/backend/restart"@.len() == 27);
    assert("mcp-wrapper/backend/stop"@.len() == 24);
    assert("mcp-wrapper/backend/ping"@.len() == 24);
    assert("refresh"@[2] != "restart"@[2]);
    assert("stop"@[0] != "ping"@[0]);
    assert("mcp-wrapper/backend/refresh"@[22] != "mcp-wrapper/backend/restart"@[22]);
    assert("mcp-wrapper/backend/stop"@[20] != "mcp-wrapper/backend/ping"@[20]);
    assert("mcp-wrapper/backend/"@ + "status"@ =~= "mcp-wrapper/backend/status"@);
    assert("mcp-wrapper/backend/"@ + "refresh"@ =~= "mcp-wrapper/backend/refresh"@);
    assert("mcp-wrapper/backend/"@ + "restart"@ =~= "mcp-wrapper/backend/restart"@);
    assert("mcp-wrapper/backend/"@ + "stop"@ =~= "mcp-wrapper/backend/stop"@);
    assert("mcp-wrapper/backend/"@ + "ping"@ =~= "mcp-wrapper/backend/ping"@);
}

/// A control method is found by its name, and no other name leads to one.
pub proof fn law_control_methods_are_found_by_name(
    method: &str,
    control: WrapperControlMethod,
    found: Option<WrapperControlMethod>,
)
    requires
        call_ensures(control_for_method, (method,), found),
    ensures
        found == Some(control) <==> method@ == control_method(control),
{
    lemma_method_literals();
}

/// A notification that a list has changed is about that list.
pub proof fn law_changed_list_is_about_its_key(
    method: &str,
    name: Seq<char>,
    key: Option<McpDataKey>,
    asked: &'static str,
)
    requires
        call_ensures(is_list_changed_notification, (method,), key),
        name == "tools"@ || name == "prompts"@ || name == "resources"@,
        method@ == "notifications/"@ + name + "/list_changed"@,
        key matches Some(k) ==> call_ensures(method_for_mcp_data_key, (&k,), asked),
    ensures
        key is Some,
        asked@ == name + "/list"@,
{
    reveal_strlit("notifications/");
    reveal_strlit("tools");
    reveal_strlit("prompts");
    reveal_strlit("resources");
    reveal_strlit("/list_changed");
    reveal_strlit("/list");
    reveal_strlit("tools/list");
    reveal_strlit("prompts/list");
    reveal_strlit("resources/list");
    reveal_strlit("notifications/tools/list_changed");
    reveal_strlit("notifications/prompts/list_changed");
    reveal_strlit("notifications/resources/list_changed");
    assert("notifications/"@.len() == 14);
    assert("tools"@.len() == 5);
    assert("prompts"@.len() == 7);
    assert("resources"@.len() == 9);
    assert("/list_changed"@.len() == 13);
    assert("/list"@.len() == 5);
    assert("tools/list"@.len() == 10);
    assert("prompts/list"@.len() == 12);
    assert("resources/list"@.len() == 14);
    assert("notifications/tools/list_changed"@.len() == 32);
    assert("notifications/prompts/list_changed"@.len() == 34);
    assert("notifications/resources/list_changed"@.len() == 36);
    assert("notifications/"@[0] != "resources/list"@[0]);
    assert("tools"@[0] != "/list"@[0]);
    assert("notifications/"@ + "tools"@ + "/list_changed"@ =~= "notifications/tools/list_changed"@);
    assert("notifications/"@ + "prompts"@ + "/list_changed"@
        =~= "notifications/prompts/list_changed"@);
    assert("notifications/"@ + "resources"@ + "/list_changed"@
        =~= "notifications/resources/list_changed"@);
    assert("tools"@ + "/list"@ =~= "tools/list"@);
    assert("prompts"@ + "/list"@ =~= "prompts/list"@);
    assert("resources"@ + "/list"@ =~= "resources/list"@);
}

} // verus!
