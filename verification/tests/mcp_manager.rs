use std::time::{Duration, SystemTime, UNIX_EPOCH};

use mcp_wrapper_rs::fingerprint::texts_fingerprint;
use mcp_wrapper_rs::json::{parse, to_text, Json};
use mcp_wrapper_rs::mcp_interface::McpDataKey;
use mcp_wrapper_rs::mcp_manager::{
    build_initialize_request, build_list_request, cached_list_request_has_cursor,
    civil_from_unix_days, discovery_data_keys, discovery_hash, empty_result_for, handshake_outcome, hash_value,
    initialized_notification, list_field_for, list_query_time, protocol_version_for_unix_days,
    protocol_version_for_unix_seconds_local, query_time, validate_list_response, Cache,
    Capabilities, HandshakeReply, ListDrain, ListSweep, Reading, Refresh,
};
use mcp_wrapper_rs::table::Table;

fn json(text: &str) -> Json {
    parse(text).expect("valid JSON")
}

fn at(value: &Json, path: &[&str]) -> Json {
    let mut here = value;
    for key in path {
        here = here.get(key).expect("field");
    }
    here.copy()
}

#[test]
fn protocol_version_for_unix_days_formats_calendar_dates() {
    assert_eq!(protocol_version_for_unix_days(0), "1970-01-01");
    assert_eq!(protocol_version_for_unix_days(10_957), "2000-01-01");
    assert_eq!(protocol_version_for_unix_days(19_782), "2024-02-29");
    assert_eq!(protocol_version_for_unix_days(20_626), "2026-06-22");
}

#[test]
fn dates_before_the_epoch_and_at_the_ends_of_years() {
    assert_eq!(civil_from_unix_days(-1), (1969, 12, 31));
    assert_eq!(civil_from_unix_days(-719_468), (0, 3, 1));
    assert_eq!(civil_from_unix_days(11_016), (2000, 2, 29));
    assert_eq!(civil_from_unix_days(47_540), (2100, 2, 28));
    assert_eq!(civil_from_unix_days(47_541), (2100, 3, 1));
    assert_eq!(protocol_version_for_unix_days(-1), "1969-12-31");
}

#[test]
fn the_local_date_comes_first() {
    assert_eq!(
        protocol_version_for_unix_seconds_local(Some((126, 5, 22)), 0),
        "2026-06-22"
    );
    assert_eq!(
        protocol_version_for_unix_seconds_local(None, 19_782 * 86_400 + 86_399),
        "2024-02-29"
    );
    assert_eq!(
        protocol_version_for_unix_seconds_local(None, -86_399),
        "1970-01-01"
    );
}

#[test]
fn initialize_request_uses_today_protocol_version() {
    let seconds = SystemTime::now()
        .duration_since(UNIX_EPOCH)
        .unwrap()
        .as_secs();
    let today = protocol_version_for_unix_seconds_local(None, seconds as i64);
    let req = build_initialize_request(json("1"), today.as_str());
    assert_eq!(
        at(&req, &["params", "protocolVersion"]),
        Json::text(&protocol_version_for_unix_days((seconds / 86_400) as i64))
    );
    assert_ne!(
        at(&req, &["params", "protocolVersion"]),
        Json::text("2024-11-05")
    );
    assert_eq!(
        req,
        json(&format!(
            r#"{{"jsonrpc": "2.0", "id": 1, "method": "initialize", "params": {{
                "protocolVersion": "{today}", "capabilities": {{}},
                "clientInfo": {{"name": "mcp-wrapper-rs", "version": "0.5.1"}}}}}}"#
        ))
    );
}

#[test]
fn cached_list_cursor_null_is_not_a_frontend_cursor() {
    assert!(!cached_list_request_has_cursor(
        &McpDataKey::ToolsList,
        &json(
            r#"{
            "jsonrpc": "2.0",
            "id": 1,
            "method": "tools/list",
            "params": {"cursor": null}
        }"#
        )
    ));
    assert!(cached_list_request_has_cursor(
        &McpDataKey::ToolsList,
        &json(
            r#"{
            "jsonrpc": "2.0",
            "id": 1,
            "method": "tools/list",
            "params": {"cursor": "page-2"}
        }"#
        )
    ));
}

#[test]
fn list_refresh_rejects_error_and_malformed_envelopes() {
    assert!(validate_list_response(
        &json(r#"{"jsonrpc": "2.0", "id": 1, "error": {"code": -32001, "message": "no"}}"#),
        "tools",
        "tools/list",
        0,
    )
    .is_err());
    assert!(validate_list_response(
        &json(r#"{"jsonrpc": "2.0", "id": 1}"#),
        "tools",
        "tools/list",
        0,
    )
    .is_err());
    assert!(validate_list_response(
        &json(r#"{"jsonrpc": "2.0", "id": 1, "result": {"tools": {}}}"#),
        "tools",
        "tools/list",
        0,
    )
    .is_err());
    assert!(validate_list_response(
        &json(r#"{"jsonrpc": "2.0", "id": 1, "result": {"tools": [], "nextCursor": 2}}"#),
        "tools",
        "tools/list",
        0,
    )
    .is_err());
    assert!(validate_list_response(
        &json(r#"{"jsonrpc": "2.0", "id": 1, "result": {"tools": []}}"#),
        "tools",
        "tools/list",
        0,
    )
    .is_ok());
}

#[test]
fn faults_of_list_answers_are_named() {
    let fault = |text: &str| {
        validate_list_response(&json(text), "tools", "tools/list", 2).expect_err("a fault")
    };
    assert_eq!(
        fault(r#"{"error": {"message": "no", "code": -32001}}"#),
        r#"tools/list: backend error on page 2: {"code":-32001,"message":"no"}"#
    );
    assert_eq!(
        fault("{}"),
        "tools/list: missing object result on page 2"
    );
    assert_eq!(
        fault(r#"{"result": {}}"#),
        "tools/list: result.tools is not an array on page 2"
    );
    assert_eq!(
        fault(r#"{"result": {"tools": [], "nextCursor": 2}}"#),
        "tools/list: result.nextCursor is not a string on page 2"
    );
}

#[test]
fn requests_and_empty_answers_have_their_form() {
    assert_eq!(
        build_list_request(json("4"), "tools/list", None),
        json(r#"{"jsonrpc": "2.0", "id": 4, "method": "tools/list"}"#)
    );
    assert_eq!(
        build_list_request(json("4"), "tools/list", Some("p2")),
        json(r#"{"jsonrpc": "2.0", "id": 4, "method": "tools/list", "params": {"cursor": "p2"}}"#)
    );
    assert_eq!(
        initialized_notification(),
        json(r#"{"jsonrpc": "2.0", "method": "notifications/initialized"}"#)
    );
    assert_eq!(
        empty_result_for(&McpDataKey::ResourceTemplatesList),
        json(r#"{"resourceTemplates": []}"#)
    );
    assert_eq!(empty_result_for(&McpDataKey::Initialize), json("{}"));
    assert_eq!(list_field_for(&McpDataKey::PromptsList), "prompts");
}

#[test]
fn the_handshake_succeeds_or_says_why_not() {
    assert_eq!(
        handshake_outcome(HandshakeReply::TimedOut),
        Err("initialize handshake timeout".to_string())
    );
    assert_eq!(
        handshake_outcome(HandshakeReply::Answer(json(
            r#"{"id": 1, "result": {"capabilities": {"tools": {}}}}"#
        ))),
        Ok(json(r#"{"capabilities": {"tools": {}}}"#))
    );
    assert!(handshake_outcome(HandshakeReply::Failed("broken pipe".to_string()))
        .expect_err("a failure")
        .contains("broken pipe"));
}

#[test]
fn capabilities_decide_what_is_asked() {
    let c = Capabilities::from_server_info(&json(
        r#"{"capabilities": {"tools": {}, "resources": null}}"#,
    ));
    assert!(c.supports(&McpDataKey::Initialize));
    assert!(c.supports(&McpDataKey::ToolsList));
    assert!(!c.supports(&McpDataKey::PromptsList));
    assert!(c.supports(&McpDataKey::ResourcesList));
    assert!(c.supports(&McpDataKey::ResourceTemplatesList));
    let none = Capabilities::from_server_info(&json("{}"));
    assert!(!none.supports(&McpDataKey::ToolsList));
}

#[test]
fn queries_share_the_time_that_is_left() {
    assert_eq!(query_time(0), None);
    assert_eq!(query_time(7), Some(7));
    assert_eq!(query_time(9_000_000_000), Some(5_000_000_000));
    assert_eq!(list_query_time(Reading::Refresh { left: 0 }), None);
    assert_eq!(
        list_query_time(Reading::Refresh { left: 7 }),
        Some(Duration::from_nanos(7))
    );
    assert_eq!(
        list_query_time(Reading::Refresh { left: 9_000_000_000 }),
        Some(Duration::from_secs(5))
    );
    for secs in [1, 30] {
        let init_timeout = Duration::from_secs(secs);
        assert_eq!(
            list_query_time(Reading::Discovery { init_timeout }),
            Some(init_timeout)
        );
    }
}

#[test]
fn a_list_is_drained_page_by_page() {
    let mut drain = ListDrain::start(McpDataKey::ToolsList);
    assert_eq!(
        drain.request(json("1")),
        json(r#"{"jsonrpc": "2.0", "id": 1, "method": "tools/list"}"#)
    );
    assert_eq!(
        drain.on_page(&json(
            r#"{"result": {"tools": [{"name": "a"}], "nextCursor": "p2"}}"#
        )),
        Ok(false)
    );
    assert_eq!(
        at(&drain.request(json("2")), &["params", "cursor"]),
        Json::text("p2")
    );
    assert_eq!(
        drain.on_page(&json(r#"{"result": {"tools": [{"name": "b"}]}}"#)),
        Ok(true)
    );
    assert_eq!(
        drain.result(),
        json(r#"{"tools": [{"name": "a"}, {"name": "b"}]}"#)
    );
}

fn answer_all(sweep: &mut ListSweep, tools: &str) -> Result<(), String> {
    while sweep.advance() {
        let page = if sweep.method() == "tools/list" {
            json(tools)
        } else {
            json(r#"{"result": {"prompts": [], "resources": [], "resourceTemplates": []}}"#)
        };
        sweep.on_page(&page)?;
    }
    Ok(())
}

fn discovered(tools: &str) -> Cache {
    let info = json(
        r#"{"protocolVersion": "2025-03-26", "capabilities": {"tools": {}},
            "serverInfo": {"name": "echo", "version": "0.1.0"}}"#,
    );
    let mut sweep = Cache::begin_discovery(&info);
    answer_all(&mut sweep, tools).unwrap();
    Cache::from_discovery(info, sweep, 1)
}

fn refresh_of(cache: &Cache, generation: u64, tools: &str) -> Result<Refresh, String> {
    let mut refresh = cache.begin_refresh(true, generation, None, discovery_data_keys())?;
    answer_all(refresh.sweep(), tools)?;
    Ok(refresh)
}

const ONE_TOOL: &str = r#"{"result": {"tools": [{"name": "echo"}]}}"#;
const TWO_TOOLS: &str = r#"{"result": {"tools": [{"name": "echo"}, {"name": "more"}]}}"#;

#[test]
fn discovery_fills_the_cache() {
    let cache = discovered(ONE_TOOL);
    let tools = cache.lookup(&McpDataKey::ToolsList).unwrap();
    assert_eq!(tools.get("tools").unwrap().as_array().unwrap().len(), 2);
    assert_eq!(
        cache.lookup(&McpDataKey::PromptsList),
        Some(json(r#"{"prompts": []}"#))
    );
    let info = cache.lookup(&McpDataKey::Initialize).unwrap();
    assert!(at(&info, &["capabilities", "tools"]).is_object());
    let snapshot = cache.snapshot().to_value();
    assert_eq!(snapshot.get("cacheEpoch"), Some(&json("1")));
    assert_eq!(snapshot.get("backendGeneration"), Some(&json("1")));
}

#[test]
fn the_epoch_counts_changes() {
    let mut cache = discovered(ONE_TOOL);
    let same = refresh_of(&cache, 1, ONE_TOOL).unwrap();
    let report = cache.commit_refresh(same, 1).unwrap().to_value();
    assert_eq!(report.get("changed"), Some(&Json::Bool(false)));
    assert_eq!(report.get("newCacheEpoch"), Some(&json("1")));

    let news = refresh_of(&cache, 1, TWO_TOOLS).unwrap();
    let report = cache.commit_refresh(news, 1).unwrap().to_value();
    assert_eq!(report.get("changed"), Some(&Json::Bool(true)));
    assert_eq!(report.get("oldCacheEpoch"), Some(&json("1")));
    assert_eq!(report.get("newCacheEpoch"), Some(&json("2")));
    assert_ne!(report.get("oldDiscoveryHash"), report.get("newDiscoveryHash"));
}

#[test]
fn stale_refreshes_are_refused() {
    let mut cache = discovered(ONE_TOOL);
    let first = refresh_of(&cache, 1, TWO_TOOLS).unwrap();
    let second = refresh_of(&cache, 1, ONE_TOOL).unwrap();
    let third = refresh_of(&cache, 1, ONE_TOOL).unwrap();
    assert!(cache.commit_refresh(first, 1).is_ok());
    assert_eq!(
        cache.commit_refresh(second, 1).err(),
        Some("cache snapshot changed while refresh candidate was building".to_string())
    );
    assert_eq!(
        cache.commit_refresh(third, 2).err(),
        Some("backend generation changed while refresh candidate was building".to_string())
    );
    let tools = cache.lookup(&McpDataKey::ToolsList).unwrap();
    assert_eq!(tools.get("tools").unwrap().as_array().unwrap().len(), 3);
}

#[test]
fn a_failed_page_ends_a_refresh_and_leaves_the_cache() {
    let cache = discovered(ONE_TOOL);
    let error = match refresh_of(&cache, 1, r#"{"error": {"code": 1}}"#) {
        Err(error) => error,
        Ok(_) => panic!("the backend answered with an error"),
    };
    assert_eq!(error, r#"tools/list: backend error on page 0: {"code":1}"#);
    assert_eq!(
        cache
            .begin_refresh(false, 1, None, discovery_data_keys())
            .err(),
        Some("backend unavailable for cache refresh".to_string())
    );
    let mut refresh = cache
        .begin_refresh(true, 1, None, discovery_data_keys())
        .ok()
        .unwrap();
    assert!(refresh.sweep().advance());
    assert_eq!(
        refresh.sweep().on_deadline(),
        Err("tools/list: cache refresh deadline exceeded".to_string())
    );
    let mut refresh = cache
        .begin_refresh(true, 1, None, discovery_data_keys())
        .ok()
        .unwrap();
    assert!(refresh.sweep().advance());
    assert_eq!(
        refresh.sweep().on_failure("gone"),
        Err("tools/list: list query failed: gone".to_string())
    );
}

#[test]
fn the_handshake_is_no_list() {
    let cache = discovered(ONE_TOOL);
    let keys = vec![McpDataKey::Initialize, McpDataKey::ToolsList];
    let mut refresh = cache.begin_refresh(true, 1, None, keys).ok().unwrap();
    assert!(refresh.sweep().advance());
    let request = refresh.sweep().request(Json::UInt(9));
    assert_eq!(request.get("method"), Some(&Json::text("initialize")));
    assert_eq!(
        refresh
            .sweep()
            .on_page(&json(r#"{"result": {"protocolVersion": "2025-03-26"}}"#)),
        Err("initialize: result. is not an array on page 0".to_string())
    );
    assert_eq!(
        refresh.sweep().on_page(&json(r#"{"result": {"": [1]}}"#)),
        Ok(())
    );
    assert!(refresh.sweep().advance());
    assert_eq!(refresh.sweep().method(), "tools/list");

    let mut drain = ListDrain::start(McpDataKey::Initialize);
    assert_eq!(drain.on_page(&json(r#"{"result": {"": [1]}}"#)), Ok(true));
    assert_eq!(drain.result(), json("{}"));
}

#[test]
fn fingerprints_are_those_of_the_texts() {
    let value = json(r#"{"b": 1, "a": [true, null]}"#);
    assert_eq!(to_text(&value), r#"{"a":[true,null],"b":1}"#);
    assert_eq!(hash_value(&value), texts_fingerprint(&[to_text(&value)]));
    assert_eq!(hash_value(&value).len(), 16);
    assert_ne!(hash_value(&value), hash_value(&json("{}")));
}

#[test]
fn views_for_clients_do_not_enter_the_fingerprint() {
    let cache = discovered(ONE_TOOL);
    let info = json(
        r#"{"protocolVersion": "2025-03-26", "capabilities": {"tools": {}},
            "serverInfo": {"name": "echo", "version": "0.1.0"}}"#,
    );
    let mut raw: Table<McpDataKey, Json> = Table::new();
    raw.insert(McpDataKey::ToolsList, json(r#"{"tools": [{"name": "echo"}]}"#));
    for key in discovery_data_keys() {
        if key != McpDataKey::ToolsList {
            raw.insert(key, empty_result_for(&key));
        }
    }
    assert_eq!(
        cache.snapshot().to_value().get("discoveryHash"),
        Some(&Json::text(&discovery_hash(&info, &raw)))
    );
    raw.insert(
        McpDataKey::ToolsList,
        cache.lookup(&McpDataKey::ToolsList).unwrap(),
    );
    assert_ne!(
        cache.snapshot().to_value().get("discoveryHash"),
        Some(&Json::text(&discovery_hash(&info, &raw)))
    );
}
