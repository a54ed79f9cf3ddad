use mcp_wrapper_rs::event_plane::{
    find_mount, is_wrapper_tool_request, legacy_control_route, list_changed_data_keys,
    list_changed_notification_methods, mount_table, notification, notification_program, request,
    route_for_client_request, selector_matches, should_drop_client_notification,
    verify_cache_refresh_targets, verify_mount_table, verify_program_legality,
    verify_selector_uniqueness, verify_spec_completeness, verify_table, Dir, EventKey, EventKind,
    EventProgramId, MountEntry, Outcome, ProgramClass, Selector,
};
use mcp_wrapper_rs::json::{parse, Json};
use mcp_wrapper_rs::mcp_interface::{route, McpDataKey, Route};

fn json(text: &str) -> Json {
    parse(text).unwrap()
}

#[test]
fn verifier_accepts_static_mount_table() {
    verify_mount_table().expect("mount table should satisfy verifier gates");
}

#[test]
fn mount_table_has_explicit_spec_entries() {
    let expected = [
        (Dir::ClientToServer, EventKind::Request, "initialize"),
        (
            Dir::ClientToServer,
            EventKind::Notification,
            "notifications/initialized",
        ),
        (Dir::ClientToServer, EventKind::Request, "tools/list"),
        (Dir::ClientToServer, EventKind::Request, "tools/call"),
        (
            Dir::ServerToClient,
            EventKind::Request,
            "sampling/createMessage",
        ),
        (
            Dir::ServerToClient,
            EventKind::Notification,
            "notifications/resources/updated",
        ),
        (
            Dir::ClientToServer,
            EventKind::Notification,
            "notifications/roots/list_changed",
        ),
    ];

    for (dir, kind, method) in expected {
        assert!(
            find_mount(dir, kind, method, None).is_some(),
            "missing mount entry for {method}"
        );
    }
}

#[test]
fn wrapper_tool_selector_precedes_generic_tools_call() {
    let wrapper_index = mount_table()
        .iter()
        .position(|entry| entry.program == EventProgramId::InvokeWrapperTool)
        .expect("wrapper tool mount");
    let generic_index = mount_table()
        .iter()
        .position(|entry| {
            entry.key.method == "tools/call"
                && entry.program == EventProgramId::ClientRequestThenPass
        })
        .expect("generic tools/call mount");

    assert!(wrapper_index < generic_index);
    assert_eq!(
        find_mount(
            Dir::ClientToServer,
            EventKind::Request,
            "tools/call",
            Some("mcp.wrapper")
        )
        .map(|entry| entry.program),
        Some(EventProgramId::InvokeWrapperTool)
    );
}

#[test]
fn unknown_future_request_has_no_mount_and_passes_by_default() {
    assert!(find_mount(
        Dir::ClientToServer,
        EventKind::Request,
        "future/method",
        None
    )
    .is_none());
}

#[test]
fn notifications_do_not_respond() {
    for entry in mount_table()
        .iter()
        .filter(|entry| entry.key.kind == EventKind::Notification)
    {
        assert_ne!(entry.outcome, Outcome::Respond);
    }
}

#[test]
fn list_changed_projection_is_cache_refresh_program() {
    assert_eq!(
        list_changed_data_keys("notifications/tools/list_changed"),
        vec![McpDataKey::ToolsList]
    );
    assert_eq!(
        list_changed_data_keys("notifications/prompts/list_changed"),
        vec![McpDataKey::PromptsList]
    );
    assert_eq!(
        list_changed_data_keys("notifications/resources/list_changed"),
        vec![McpDataKey::ResourcesList, McpDataKey::ResourceTemplatesList]
    );
    assert!(find_mount(
        Dir::ServerToClient,
        EventKind::Notification,
        "notifications/resources/templates/list_changed",
        None
    )
    .is_none());
    assert!(list_changed_data_keys("notifications/other").is_empty());
}

#[test]
fn initialized_notification_is_local_drop_program() {
    assert!(mcp_wrapper_rs::event_plane::should_drop_client_notification(
        "notifications/initialized"
    ));
    assert!(!mcp_wrapper_rs::event_plane::should_drop_client_notification(
        "notifications/roots/list_changed"
    ));
}

#[test]
fn wrapper_tool_request_projects_from_mount_selector() {
    assert!(is_wrapper_tool_request(&json(
        r#"{
        "jsonrpc": "2.0",
        "id": 1,
        "method": "tools/call",
        "params": {"name": "mcp.wrapper", "arguments": {}}
    }"#
    )));
    assert!(!is_wrapper_tool_request(&json(
        r#"{
        "jsonrpc": "2.0",
        "id": 1,
        "method": "tools/call",
        "params": {"name": "echo", "arguments": {}}
    }"#
    )));
}

#[test]
fn lifetime_notifications_project_from_mount_table() {
    assert_eq!(
        notification_program(Dir::ClientToServer, "notifications/cancelled"),
        Some(EventProgramId::CancelRequest)
    );
    assert_eq!(
        notification_program(Dir::ServerToClient, "notifications/progress"),
        Some(EventProgramId::ProgressRequest)
    );
    assert_eq!(
        notification_program(Dir::ClientToServer, "notifications/roots/list_changed"),
        Some(EventProgramId::PassNotification)
    );
}

#[test]
fn the_table_routes_like_the_router() {
    for method in [
        "initialize",
        "tools/list",
        "prompts/list",
        "resources/list",
        "resources/templates/list",
        "ping",
        "tools/call",
        "completion/complete",
        "mcp-wrapper/backend/status",
        "mcp-wrapper/backend/unknown",
        "no/such/method",
        "",
    ] {
        assert_eq!(route_for_client_request(method), route(method), "{method}");
    }
    assert_eq!(
        legacy_control_route("mcp-wrapper/backend/unknown"),
        Route::PassThrough
    );
}

#[test]
fn selectors_match_by_method_tool_or_prefix() {
    assert!(selector_matches(Selector::Any, "ping", "ping", None));
    assert!(!selector_matches(Selector::Any, "ping", "pong", None));
    let tool = Selector::ToolName("mcp.wrapper");
    assert!(selector_matches(
        tool,
        "tools/call",
        "tools/call",
        Some("mcp.wrapper")
    ));
    assert!(!selector_matches(tool, "tools/call", "tools/call", Some("echo")));
    assert!(!selector_matches(tool, "tools/call", "tools/call", None));
    let prefix = Selector::LegacyMethodPrefix("mcp-wrapper/");
    assert!(selector_matches(prefix, "x", "mcp-wrapper/backend/ping", None));
    assert!(!selector_matches(prefix, "x", "mcp", None));
}

fn fault(result: Result<(), String>) -> String {
    result.expect_err("a fault")
}

#[test]
fn an_incomplete_table_is_refused() {
    let keys = vec![EventKey {
        dir: Dir::ServerToClient,
        kind: EventKind::Request,
        method: "roots/list",
        selector: Selector::Any,
    }];
    assert_eq!(
        fault(verify_spec_completeness(&Vec::new(), &keys)),
        "missing mount entry for ServerToClient Request roots/list"
    );
    assert!(verify_spec_completeness(&mount_table(), &keys).is_ok());
    assert!(verify_table(&Vec::new(), &keys).is_err());
}

#[test]
fn selectors_of_a_table_are_distinct_and_in_order() {
    let plain = |method| {
        request(
            Dir::ClientToServer,
            method,
            ProgramClass::Pass,
            EventProgramId::PassNotification,
            Outcome::Pass,
        )
    };
    let wrapper = MountEntry {
        key: EventKey {
            dir: Dir::ClientToServer,
            kind: EventKind::Request,
            method: "tools/call",
            selector: Selector::ToolName("mcp.wrapper"),
        },
        ..plain("tools/call")
    };
    assert_eq!(
        fault(verify_selector_uniqueness(&vec![plain("a"), plain("a")])),
        "duplicate mount entry for a"
    );
    assert_eq!(
        fault(verify_selector_uniqueness(&vec![plain("tools/call")])),
        "missing mcp.wrapper selector"
    );
    assert_eq!(
        fault(verify_selector_uniqueness(&vec![wrapper])),
        "missing generic tools/call selector"
    );
    assert_eq!(
        fault(verify_selector_uniqueness(&vec![plain("tools/call"), wrapper])),
        "mcp.wrapper selector must be mounted before generic tools/call"
    );
    assert!(verify_selector_uniqueness(&vec![wrapper, plain("tools/call")]).is_ok());
}

#[test]
fn programs_of_a_table_are_legal() {
    let note = |class, program, outcome| {
        vec![notification(Dir::ServerToClient, "n", class, program, outcome)]
    };
    assert_eq!(
        fault(verify_program_legality(&note(
            ProgramClass::Local,
            EventProgramId::LocalPing,
            Outcome::Respond
        ))),
        "notification program responds: n"
    );
    assert_eq!(
        fault(verify_program_legality(&note(
            ProgramClass::Pass,
            EventProgramId::PassNotification,
            Outcome::Drop
        ))),
        "pass program has non-pass outcome: n"
    );
    assert_eq!(
        fault(verify_program_legality(&note(
            ProgramClass::Local,
            EventProgramId::CacheToolsList,
            Outcome::Drop
        ))),
        "cache program outside cache class: n"
    );
    assert_eq!(
        fault(verify_program_legality(&note(
            ProgramClass::Local,
            EventProgramId::CancelRequest,
            Outcome::Drop
        ))),
        "lifetime program outside lifetime class: n"
    );
    let refresh = note(
        ProgramClass::Cache,
        EventProgramId::RefreshCacheThenPass,
        Outcome::Pass,
    );
    assert_eq!(
        fault(verify_cache_refresh_targets(&refresh)),
        "refresh program missing cache target for n"
    );
}

#[test]
fn announcements_name_three_lists() {
    assert_eq!(
        list_changed_notification_methods(),
        vec![
            "notifications/tools/list_changed",
            "notifications/prompts/list_changed",
            "notifications/resources/list_changed"
        ]
    );
    assert!(should_drop_client_notification("notifications/initialized"));
    assert!(!should_drop_client_notification("notifications/cancelled"));
}
