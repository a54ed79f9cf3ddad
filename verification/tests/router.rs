use mcp_wrapper_rs::router::{is_list_changed_notification, list_method_for_key, route, CacheKey, Route};

#[test]
fn cached_methods() {
    assert_eq!(route("initialize"), Route::Cache(CacheKey::Initialize));
    assert_eq!(route("tools/list"), Route::Cache(CacheKey::ToolsList));
    assert_eq!(route("prompts/list"), Route::Cache(CacheKey::PromptsList));
    assert_eq!(route("resources/list"), Route::Cache(CacheKey::ResourcesList));
    assert_eq!(
        route("resources/templates/list"),
        Route::Cache(CacheKey::ResourceTemplatesList)
    );
}

#[test]
fn router_local_methods() {
    assert_eq!(route("ping"), Route::Local);
}

#[test]
fn router_passthrough_methods() {
    assert_eq!(route("tools/call"), Route::PassThrough);
    assert_eq!(route("resources/read"), Route::PassThrough);
    assert_eq!(route("prompts/get"), Route::PassThrough);
    assert_eq!(route("completion/complete"), Route::PassThrough);
    assert_eq!(route("logging/setLevel"), Route::PassThrough);
    assert_eq!(route("resources/subscribe"), Route::PassThrough);
    assert_eq!(route("resources/unsubscribe"), Route::PassThrough);
    // Unknown future methods also pass through
    assert_eq!(route("some/future/method"), Route::PassThrough);
}

#[test]
fn list_changed_notifications() {
    assert_eq!(
        is_list_changed_notification("notifications/tools/list_changed"),
        Some(CacheKey::ToolsList)
    );
    assert_eq!(
        is_list_changed_notification("notifications/prompts/list_changed"),
        Some(CacheKey::PromptsList)
    );
    assert_eq!(
        is_list_changed_notification("notifications/resources/list_changed"),
        Some(CacheKey::ResourcesList)
    );
    assert_eq!(
        is_list_changed_notification("notifications/other"),
        None
    );
    assert_eq!(is_list_changed_notification("tools/call"), None);
}

#[test]
fn roundtrip_cache_keys() {
    let keys = [
        CacheKey::Initialize,
        CacheKey::ToolsList,
        CacheKey::PromptsList,
        CacheKey::ResourcesList,
        CacheKey::ResourceTemplatesList,
    ];
    for key in &keys {
        let method = list_method_for_key(key);
        assert_eq!(route(method), Route::Cache(*key));
    }
}
