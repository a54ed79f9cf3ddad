//! Method dispatch: maps method names to routing decisions.

use vstd::prelude::*;

use crate::text::text_eq;

verus! {

/// Which cache slot to read from or invalidate.
#[derive(Debug, Clone, Copy, PartialEq, Eq, Hash, Structural)]
pub enum CacheKey {
    Initialize,
    ToolsList,
    PromptsList,
    ResourcesList,
    ResourceTemplatesList,
}

/// Where to send an incoming request.
#[derive(Debug, Clone, Copy, PartialEq, Eq, Structural)]
pub enum Route {
    /// Serve from the cached response.
    Cache(CacheKey),
    /// Forward to the backend.
    PassThrough,
    /// Answer without the backend.
    Local,
}

/// The method that fills a cache slot.
pub open spec fn key_method(key: CacheKey) -> Seq<char> {
    match key {
        CacheKey::Initialize => "initialize"@,
        CacheKey::ToolsList => "tools/list"@,
        CacheKey::PromptsList => "prompts/list"@,
        CacheKey::ResourcesList => "resources/list"@,
        CacheKey::ResourceTemplatesList => "resources/templates/list"@,
    }
}

/// Where a method goes.
pub open spec fn route_of(method: Seq<char>) -> Route {
    if method == "initialize"@ {
        Route::Cache(CacheKey::Initialize)
    } else if method == "tools/list"@ {
        Route::Cache(CacheKey::ToolsList)
    } else if method == "prompts/list"@ {
        Route::Cache(CacheKey::PromptsList)
    } else if method == "resources/list"@ {
        Route::Cache(CacheKey::ResourcesList)
    } else if method == "resources/templates/list"@ {
        Route::Cache(CacheKey::ResourceTemplatesList)
    } else if method == "ping"@ {
        Route::Local
    } else {
        Route::PassThrough
    }
}

/// Decides how to handle an incoming method.
pub fn route(method: &str) -> (r: Route)
    ensures
        r == route_of(method@),
{
    if text_eq(method, "initialize") {
        Route::Cache(CacheKey::Initialize)
    } else if text_eq(method, "tools/list") {
        Route::Cache(CacheKey::ToolsList)
    } else if text_eq(method, "prompts/list") {
        Route::Cache(CacheKey::PromptsList)
    } else if text_eq(method, "resources/list") {
        Route::Cache(CacheKey::ResourcesList)
    } else if text_eq(method, "resources/templates/list") {
        Route::Cache(CacheKey::ResourceTemplatesList)
    } else if text_eq(method, "ping") {
        Route::Local
    } else {
        Route::PassThrough
    }
}

/// The cache slot that a notification of the backend makes stale.
pub open spec fn list_changed_key(method: Seq<char>) -> Option<CacheKey> {
    if method == "notifications/tools/list_changed"@ {
        Some(CacheKey::ToolsList)
    } else if method == "notifications/prompts/list_changed"@ {
        Some(CacheKey::PromptsList)
    } else if method == "notifications/resources/list_changed"@ {
        Some(CacheKey::ResourcesList)
    } else {
        None
    }
}

/// Detects cache invalidation notifications from the backend.
pub fn is_list_changed_notification(method: &str) -> (key: Option<CacheKey>)
    ensures
        key == list_changed_key(method@),
{
    if text_eq(method, "notifications/tools/list_changed") {
        Some(CacheKey::ToolsList)
    } else if text_eq(method, "notifications/prompts/list_changed") {
        Some(CacheKey::PromptsList)
    } else if text_eq(method, "notifications/resources/list_changed") {
        Some(CacheKey::ResourcesList)
    } else {
        None
    }
}

/// Which method to call to fill a cache slot again.
pub fn list_method_for_key(key: &CacheKey) -> (method: &'static str)
    ensures
        method@ == key_method(*key),
{
    match key {
        CacheKey::Initialize => "initialize",
        CacheKey::ToolsList => "tools/list",
        CacheKey::PromptsList => "prompts/list",
        CacheKey::ResourcesList => "resources/list",
        CacheKey::ResourceTemplatesList => "resources/templates/list",
    }
}

/// The method that fills a slot is served from that slot, and no other method is.
pub proof fn law_slot_method_routes_back(method: Seq<char>, key: CacheKey)
    ensures
        route_of(method) == Route::Cache(key) <==> method == key_method(key),
{
    reveal_strlit("initialize");
    reveal_strlit("tools/list");
    reveal_strlit("prompts/list");
    reveal_strlit("resources/list");
    reveal_strlit("resources/templates/list");
    reveal_strlit("ping");
    assert("initialize"@.len() == 10);
    assert("tools/list"@.len() == 10);
    assert("prompts/list"@.len() == 12);
    assert("resources/list"@.len() == 14);
    assert("resources/templates/list"@.len() == 24);
    assert("ping"@.len() == 4);
    assert("initialize"@[0] != "tools/list"@[0]);
}

/// A ping is answered here, the methods of the slots are served from them, and every
/// other method is passed on.
pub proof fn law_routes(method: &str, r: Route)
    requires
        call_ensures(route, (method,), r),
    ensures
        r == Route::Local <==> method@ == "ping"@,
        r == Route::PassThrough <==> method@ != "ping"@ && forall|key: CacheKey|
            method@ != #[trigger] key_method(key),
        (r matches Route::Cache(key) ==> method@ == key_method(key)),
{
    law_slot_method_routes_back(method@, CacheKey::Initialize);
    law_slot_method_routes_back(method@, CacheKey::ToolsList);
    law_slot_method_routes_back(method@, CacheKey::PromptsList);
    law_slot_method_routes_back(method@, CacheKey::ResourcesList);
    law_slot_method_routes_back(method@, CacheKey::ResourceTemplatesList);
    reveal_strlit("initialize");
    reveal_strlit("tools/list");
    reveal_strlit("prompts/list");
    reveal_strlit("resources/list");
    reveal_strlit("resources/templates/list");
    reveal_strlit("ping");
    assert("initialize"@.len() == 10);
    assert("tools/list"@.len() == 10);
    assert("prompts/list"@.len() == 12);
    assert("resources/list"@.len() == 14);
    assert("resources/templates/list"@.len() == 24);
    assert("ping"@.len() == 4);
    assert("initialize"@[0] != "tools/list"@[0]);
    if forall|key: CacheKey| method@ != #[trigger] key_method(key) {
        assert(method@ != key_method(CacheKey::Initialize));
        assert(method@ != key_method(CacheKey::ToolsList));
        assert(method@ != key_method(CacheKey::PromptsList));
        assert(method@ != key_method(CacheKey::ResourcesList));
        assert(method@ != key_method(CacheKey::ResourceTemplatesList));
    }
}

/// A notification that a list has changed is about the slot of that list; no other
/// notification is about a slot.
pub proof fn law_changed_list_is_about_its_slot(method: &str, name: Seq<char>, key: Option<CacheKey>)
    requires
        call_ensures(is_list_changed_notification, (method,), key),
        name == "tools"@ || name == "prompts"@ || name == "resources"@,
    ensures
        method@ == "notifications/"@ + name + "/list_changed"@ ==> (key matches Some(key)
            && key_method(key) == name + "/list"@),
        (key matches Some(key) ==> exists|list: Seq<char>|
            method@ == "notifications/"@ + list + "/list_changed"@ && #[trigger] (list + "/list"@)
                == key_method(key)),
{
    reveal_strlit("notifications/");
    reveal_strlit("tools");
    reveal_strlit("prompts");
    reveal_strlit("resources");
    reveal_strlit("/list_changed");
    reveal_strlit("/list");
    reveal_strlit("tools/list");
    reveal_strlit("prompts/list");
    reveal_strlit("resources/list");
    reveal_strlit("notifications/tools/list_changed");
    reveal_strlit("notifications/prompts/list_changed");
    reveal_strlit("notifications/resources/list_changed");
    assert("notifications/"@.len() == 14);
    assert("tools"@.len() == 5);
    assert("prompts"@.len() == 7);
    assert("resources"@.len() == 9);
    assert("/list_changed"@.len() == 13);
    assert("/list"@.len() == 5);
    assert("tools/list"@.len() == 10);
    assert("prompts/list"@.len() == 12);
    assert("resources/list"@.len() == 14);
    assert("notifications/tools/list_changed"@.len() == 32);
    assert("notifications/prompts/list_changed"@.len() == 34);
    assert("notifications/resources/list_changed"@.len() == 36);
    assert("notifications/"@[0] != "resources/list"@[0]);
    assert("tools"@[0] != "/list"@[0]);
    assert("notifications/"@ + "tools"@ + "/list_changed"@ =~= "notifications/tools/list_changed"@);
    assert("notifications/"@ + "prompts"@ + "/list_changed"@
        =~= "notifications/prompts/list_changed"@);
    assert("notifications/"@ + "resources"@ + "/list_changed"@
        =~= "notifications/resources/list_changed"@);
    assert("tools"@ + "/list"@ =~= "tools/list"@);
    assert("prompts"@ + "/list"@ =~= "prompts/list"@);
    assert("resources"@ + "/list"@ =~= "resources/list"@);
}

/// A slot is filled by a method that is served from it.
pub proof fn law_slots_are_filled_by_their_methods(
    key: CacheKey,
    method: &'static str,
    r: Route,
)
    requires
        call_ensures(list_method_for_key, (&key,), method),
        call_ensures(route, (method,), r),
    ensures
        r == Route::Cache(key),
{
    law_slot_method_routes_back(method@, key);
}

} // verus!
