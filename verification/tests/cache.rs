use mcp_wrapper_rs::cache::{
    build_initialize_request, build_list_request, empty_result_for, queried_slots, Cache,
    ListReplies,
};
use mcp_wrapper_rs::json::{parse, Json};
use mcp_wrapper_rs::mcp_manager::Capabilities;
use mcp_wrapper_rs::router::CacheKey;

fn json(text: &str) -> Json {
    parse(text).expect("valid JSON")
}

fn store() -> Cache {
    Cache::from_replies(
        json(r#"{"capabilities": {"tools": {}, "resources": {}}}"#),
        &ListReplies {
            tools: Some(json(r#"{"id": 2, "result": {"tools": [{"name": "echo"}]}}"#)),
            prompts: Some(json(r#"{"id": 3, "result": {"prompts": [1]}}"#)),
            resources: Some(json(r#"{"id": 4, "error": {}}"#)),
            templates: None,
        },
    )
}

#[test]
fn only_lists_of_the_server_are_asked_for() {
    let all = Capabilities {
        tools: true,
        prompts: true,
        resources: true,
    };
    assert_eq!(
        queried_slots(&all),
        vec![
            CacheKey::ToolsList,
            CacheKey::PromptsList,
            CacheKey::ResourcesList,
            CacheKey::ResourceTemplatesList
        ]
    );
    let some = Capabilities {
        tools: false,
        prompts: true,
        resources: false,
    };
    assert_eq!(queried_slots(&some), vec![CacheKey::PromptsList]);
}

#[test]
fn discovery_fills_every_slot() {
    let store = store();
    assert_eq!(
        store.lookup(&CacheKey::ToolsList),
        Some(json(r#"{"tools": [{"name": "echo"}]}"#))
    );
    assert_eq!(
        store.lookup(&CacheKey::PromptsList),
        Some(json(r#"{"prompts": []}"#))
    );
    assert_eq!(
        store.lookup(&CacheKey::ResourcesList),
        Some(json(r#"{"resources": []}"#))
    );
    assert_eq!(
        store.lookup(&CacheKey::ResourceTemplatesList),
        Some(json(r#"{"resourceTemplates": []}"#))
    );
    assert_eq!(
        store.lookup(&CacheKey::Initialize),
        Some(json(r#"{"capabilities": {"tools": {}, "resources": {}}}"#))
    );
}

#[test]
fn a_read_gives_what_was_written() {
    let mut store = store();
    store.update(&CacheKey::ToolsList, json(r#"{"tools": []}"#));
    store.update(&CacheKey::PromptsList, json(r#"{"prompts": [1]}"#));
    store.update(&CacheKey::Initialize, json(r#"{"new": 1}"#));
    assert_eq!(
        store.lookup(&CacheKey::ToolsList),
        Some(json(r#"{"tools": []}"#))
    );
    assert_eq!(
        store.lookup(&CacheKey::PromptsList),
        Some(json(r#"{"prompts": []}"#))
    );
    assert_eq!(
        store.lookup(&CacheKey::Initialize),
        Some(json(r#"{"new": 1}"#))
    );
}

#[test]
fn requests_of_the_store_have_their_form() {
    assert_eq!(
        build_list_request(json("3"), &CacheKey::ResourceTemplatesList),
        json(r#"{"jsonrpc": "2.0", "id": 3, "method": "resources/templates/list"}"#)
    );
    assert_eq!(
        build_initialize_request(json("1"))
            .get("params")
            .unwrap()
            .get("protocolVersion"),
        Some(&Json::text("2024-11-05"))
    );
    assert_eq!(
        empty_result_for(&CacheKey::ToolsList),
        json(r#"{"tools": []}"#)
    );
}

#[test]
fn list_tools_result_empty_conforms() {
    assert_eq!(empty_result_for(&CacheKey::ToolsList), json(r#"{"tools": []}"#));
}

#[test]
fn list_prompts_result_conforms() {
    assert_eq!(empty_result_for(&CacheKey::PromptsList), json(r#"{"prompts": []}"#));
}

#[test]
fn list_resources_result_conforms() {
    assert_eq!(
        empty_result_for(&CacheKey::ResourcesList),
        json(r#"{"resources": []}"#)
    );
}

#[test]
fn list_resource_templates_result_conforms() {
    assert_eq!(
        empty_result_for(&CacheKey::ResourceTemplatesList),
        json(r#"{"resourceTemplates": []}"#)
    );
}
