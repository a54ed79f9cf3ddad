//! The description of the tool, and how it joins what the backend offers.

use vstd::prelude::*;

use crate::event_plane::wrapper_call;
use crate::json::{
    empty_object, field, items_view, opt_field, str_of, with_field, Json, JsonView,
};
use crate::text::text_eq;
use crate::transport::{field_text, subfield};

verus! {

/// The name that is reserved for the tool.
pub const WRAPPER_TOOL_NAME: &'static str = "mcp.wrapper";

/// Whether a request calls the tool.
pub fn is_wrapper_tool_call(raw: &Json) -> (b: bool)
    ensures
        b == wrapper_call(raw@),
{
    let is_call = match field_text(raw.get("method")) {
        Some(method) => text_eq(method, "tools/call"),
        None => false,
    };
    is_call && match field_text(subfield(raw.get("params"), "name")) {
        Some(name) => text_eq(name, "mcp.wrapper"),
        None => false,
    }
}

pub open spec fn action_schema() -> JsonView {
    JsonView::Obj(
        map![
            "type"@ => JsonView::Str("string"@),
            "enum"@ => JsonView::Arr(
                seq![
                    JsonView::Str("backend.status"@),
                    JsonView::Str("backend.ping"@),
                    JsonView::Str("backend.refresh"@),
                    JsonView::Str("backend.restart"@),
                    JsonView::Str("backend.stop"@),
                ],
            ),
        ],
    )
}

pub open spec fn target_schema() -> JsonView {
    JsonView::Obj(
        map![
            "type"@ => JsonView::Str("string"@),
            "default"@ => JsonView::Str("default"@),
            "description"@ => JsonView::Str("Backend target. Phase 1 supports only default."@),
        ],
    )
}

pub open spec fn params_schema() -> JsonView {
    JsonView::Obj(
        map![
            "type"@ => JsonView::Str("object"@),
            "additionalProperties"@ => JsonView::Bool(true),
            "description"@ => JsonView::Str(
                "Action-specific parameters. backend.restart accepts force:boolean."@,
            ),
        ],
    )
}

pub open spec fn input_schema() -> JsonView {
    JsonView::Obj(
        map![
            "type"@ => JsonView::Str("object"@),
            "required"@ => JsonView::Arr(seq![JsonView::Str("action"@)]),
            "properties"@ => JsonView::Obj(
                map![
                    "action"@ => action_schema(),
                    "target"@ => target_schema(),
                    "params"@ => params_schema(),
                ],
            ),
        ],
    )
}

/// The description of the tool.
pub open spec fn descriptor() -> JsonView {
    JsonView::Obj(
        map![
            "name"@ => JsonView::Str("mcp.wrapper"@),
            "description"@ => JsonView::Str(
                "Unified mcp-wrapper control tool for backend status, ping, refresh, restart, and stop actions."@,
            ),
            "inputSchema"@ => input_schema(),
        ],
    )
}

fn action_schema_json() -> (j: Json)
    ensures
        j@ == action_schema(),
{
    let mut names: Vec<Json> = Vec::new();
    names.push(Json::text("backend.status"));
    names.push(Json::text("backend.ping"));
    names.push(Json::text("backend.refresh"));
    names.push(Json::text("backend.restart"));
    names.push(Json::text("backend.stop"));
    assert(items_view(names@) =~= seq![
        JsonView::Str("backend.status"@),
        JsonView::Str("backend.ping"@),
        JsonView::Str("backend.refresh"@),
        JsonView::Str("backend.restart"@),
        JsonView::Str("backend.stop"@),
    ]);
    let mut j = Json::object();
    j.set("type", Json::text("string"));
    j.set("enum", Json::from_items(names));
    j
}

fn input_schema_json() -> (j: Json)
    ensures
        j@ == input_schema(),
{
    let mut target = Json::object();
    target.set("type", Json::text("string"));
    target.set("default", Json::text("default"));
    target.set("description", Json::text("Backend target. Phase 1 supports only default."));
    let mut params = Json::object();
    params.set("type", Json::text("object"));
    params.set("additionalProperties", Json::Bool(true));
    params.set(
        "description",
        Json::text("Action-specific parameters. backend.restart accepts force:boolean."),
    );
    let mut properties = Json::object();
    properties.set("action", action_schema_json());
    properties.set("target", target);
    properties.set("params", params);
    let mut required: Vec<Json> = Vec::new();
    required.push(Json::text("action"));
    assert(items_view(required@) =~= seq![JsonView::Str("action"@)]);
    let mut j = Json::object();
    j.set("type", Json::text("object"));
    j.set("required", Json::from_items(required));
    j.set("properties", properties);
    j
}

/// The description of the tool.
pub fn tool_descriptor() -> (j: Json)
    ensures
        j@ == descriptor(),
{
    let mut j = Json::object();
    j.set("name", Json::text("mcp.wrapper"));
    j.set(
        "description",
        Json::text(
            "Unified mcp-wrapper control tool for backend status, ping, refresh, restart, and stop actions.",
        ),
    );
    j.set("inputSchema", input_schema_json());
    j
}

/// A tool that has the reserved name.
pub open spec fn has_reserved_name(tool: JsonView) -> bool {
    str_of(field(tool, "name"@)) == Some("mcp.wrapper"@)
}

/// The tools that do not have the reserved name, in order.
pub open spec fn without_reserved(tools: Seq<JsonView>) -> Seq<JsonView>
    decreases tools.len(),
{
    if tools.len() == 0 {
        Seq::empty()
    } else {
        let init = without_reserved(tools.drop_last());
        if has_reserved_name(tools.last()) {
            init
        } else {
            init.push(tools.last())
        }
    }
}

/// The tools of a list answer.
pub open spec fn tools_in(result: JsonView) -> Seq<JsonView> {
    match field(result, "tools"@) {
        Some(JsonView::Arr(tools)) => tools,
        _ => Seq::empty(),
    }
}

/// A list answer with the tool in it: other tools under the reserved name give
/// way.
pub open spec fn with_wrapper_tool(result: JsonView) -> JsonView {
    let base = if result is Obj {
        result
    } else {
        empty_object()
    };
    with_field(
        base,
        "tools"@,
        JsonView::Arr(without_reserved(tools_in(result)).push(descriptor())),
    )
}

/// Adds the tool to a list answer. Tools of the backend under the reserved name
/// are dropped; anything that is no list counts as an empty one.
pub fn merge_tools_list(result: Json) -> (j: Json)
    ensures
        j@ == with_wrapper_tool(result@),
{
    let mut kept: Vec<Json> = Vec::new();
    let ghost tools = tools_in(result@);
    assert(items_view(kept@) =~= Seq::empty());
    if let Some(list) = result.get("tools") {
        if let Some(items) = list.as_array() {
            let mut i: usize = 0;
            assert(tools == items_view(items@));
            assert(tools.take(0) =~= Seq::empty());
            while i < items.len()
                invariant
                    i <= items@.len(),
                    tools == items_view(items@),
                    items_view(kept@) == without_reserved(tools.take(i as int)),
                decreases items@.len() - i,
            {
                let ghost before = kept@;
                let reserved = match field_text(items[i].get("name")) {
                    Some(name) => text_eq(name, "mcp.wrapper"),
                    None => false,
                };
                proof {
                    assert(tools.take(i + 1).drop_last() =~= tools.take(i as int));
                    assert(tools.take(i + 1).last() == items@[i as int]@);
                }
                if !reserved {
                    kept.push(items[i].copy());
                    assert(items_view(kept@) =~= items_view(before).push(items@[i as int]@));
                }
                i = i + 1;
            }
            assert(tools.take(tools.len() as int) =~= tools);
        }
    }
    assert(items_view(kept@) == without_reserved(tools));
    let ghost others = kept@;
    kept.push(tool_descriptor());
    assert(items_view(kept@) =~= items_view(others).push(descriptor()));
    let mut j = if result.is_object() {
        result
    } else {
        Json::object()
    };
    j.set("tools", Json::from_items(kept));
    j
}

/// What a handshake answer says the server can do.
pub open spec fn capabilities_in(result: JsonView) -> JsonView {
    match field(result, "capabilities"@) {
        Some(JsonView::Obj(m)) => JsonView::Obj(m),
        _ => empty_object(),
    }
}

/// A handshake answer that offers tools.
pub open spec fn with_tools_capability(result: JsonView) -> JsonView {
    let base = if result is Obj {
        result
    } else {
        empty_object()
    };
    let caps = capabilities_in(result);
    with_field(
        base,
        "capabilities"@,
        if field(caps, "tools"@) is Some {
            caps
        } else {
            with_field(caps, "tools"@, empty_object())
        },
    )
}

/// Makes sure that a handshake answer offers tools; what it says already stays.
pub fn merge_initialize_result(result: Json) -> (j: Json)
    ensures
        j@ == with_tools_capability(result@),
{
    let mut caps = match result.get("capabilities") {
        Some(caps) => if caps.is_object() {
            caps.copy()
        } else {
            Json::object()
        },
        None => Json::object(),
    };
    if caps.get("tools").is_none() {
        caps.set("tools", Json::object());
    }
    let mut j = if result.is_object() {
        result
    } else {
        Json::object()
    };
    j.set("capabilities", caps);
    j
}

proof fn lemma_kept_tools(tools: Seq<JsonView>)
    ensures
        forall|i: int|
            0 <= i < without_reserved(tools).len() ==> !has_reserved_name(
                #[trigger] without_reserved(tools)[i],
            ),
    decreases tools.len(),
{
    if tools.len() > 0 {
        let init = without_reserved(tools.drop_last());
        let all = without_reserved(tools);
        lemma_kept_tools(tools.drop_last());
        assert forall|i: int| 0 <= i < all.len() implies !has_reserved_name(#[trigger] all[i]) by {
            if i < init.len() {
                assert(all[i] == init[i]);
            }
        }
    }
}

proof fn lemma_kept_all(tools: Seq<JsonView>)
    requires
        forall|i: int| 0 <= i < tools.len() ==> !has_reserved_name(#[trigger] tools[i]),
    ensures
        without_reserved(tools) == tools,
    decreases tools.len(),
{
    if tools.len() > 0 {
        lemma_kept_all(tools.drop_last());
        assert(tools.drop_last().push(tools.last()) =~= tools);
    } else {
        assert(without_reserved(tools) =~= tools);
    }
}

/// The description has the reserved name.
proof fn lemma_descriptor_name()
    ensures
        has_reserved_name(descriptor()),
{
    reveal_strlit("name");
    reveal_strlit("description");
    reveal_strlit("inputSchema");
    assert("name"@.len() == 4);
    assert("description"@.len() == 11);
    assert("inputSchema"@.len() == 11);
}

/// In a merged list exactly one tool has the reserved name, the last, and it is
/// the proxy's own; the others are the backend's, in their order.
pub proof fn law_merged_list_has_one_wrapper_tool(result: JsonView)
    ensures
        ({
            let tools = tools_in(with_wrapper_tool(result));
            &&& tools == without_reserved(tools_in(result)).push(descriptor())
            &&& has_reserved_name(tools.last())
            &&& forall|i: int|
                0 <= i < tools.len() - 1 ==> !has_reserved_name(#[trigger] tools[i])
        }),
{
    lemma_kept_tools(tools_in(result));
    lemma_descriptor_name();
}

/// Merging a merged list changes nothing.
pub proof fn law_merging_tools_twice_changes_nothing(result: JsonView)
    ensures
        with_wrapper_tool(with_wrapper_tool(result)) == with_wrapper_tool(result),
{
    let once = with_wrapper_tool(result);
    let others = without_reserved(tools_in(result));
    lemma_kept_tools(tools_in(result));
    lemma_kept_all(others);
    lemma_descriptor_name();
    assert(others.push(descriptor()).drop_last() =~= others);
    assert(without_reserved(others.push(descriptor())) == others);
    assert(with_wrapper_tool(once)->Obj_0 =~= once->Obj_0);
}

/// Tools without the reserved name are all kept.
pub proof fn law_other_tools_are_kept(result: JsonView)
    requires
        forall|i: int|
            0 <= i < tools_in(result).len() ==> !has_reserved_name(#[trigger] tools_in(result)[i]),
    ensures
        tools_in(with_wrapper_tool(result)) == tools_in(result).push(descriptor()),
{
    lemma_kept_all(tools_in(result));
}

/// A merged handshake answer offers tools, keeps every capability there was, and
/// keeps every other field; merging it again changes nothing.
pub proof fn law_merged_handshake_offers_tools(result: JsonView, key: Seq<char>)
    ensures
        ({
            let merged = with_tools_capability(result);
            let caps = capabilities_in(merged);
            &&& field(caps, "tools"@) is Some
            &&& field(capabilities_in(result), key) is Some ==> field(caps, key) == field(
                capabilities_in(result),
                key,
            )
            &&& key != "capabilities"@ && result is Obj ==> field(merged, key) == field(result, key)
            &&& with_tools_capability(merged) == merged
        }),
{
    let merged = with_tools_capability(result);
    assert(with_tools_capability(merged)->Obj_0 =~= merged->Obj_0);
}

proof fn lemma_kept_are_filtered(tools: Seq<JsonView>)
    ensures
        without_reserved(tools) == tools.filter(
            |tool: JsonView| field(tool, "name"@) != Some(JsonView::Str("mcp.wrapper"@)),
        ),
    decreases tools.len(),
{
    reveal(Seq::filter);
    if tools.len() > 0 {
        lemma_kept_are_filtered(tools.drop_last());
    } else {
        assert(without_reserved(tools) =~= tools);
    }
}

/// A merged list has the tools of the server, in their order and without any under the
/// reserved name, and then the proxy's own; every other field of the list stays.
pub proof fn law_merged_tools_are_the_servers_and_the_proxys(
    result: JsonView,
    tools: Seq<JsonView>,
    other: Seq<char>,
)
    requires
        field(result, "tools"@) == Some(JsonView::Arr(tools)),
    ensures
        field(with_wrapper_tool(result), "tools"@) matches Some(JsonView::Arr(all)) && {
            &&& all.len() > 0
            &&& all.drop_last() == tools.filter(
                |tool: JsonView| field(tool, "name"@) != Some(JsonView::Str("mcp.wrapper"@)),
            )
            &&& field(all.last(), "name"@) == Some(JsonView::Str("mcp.wrapper"@))
        },
        other != "tools"@ ==> field(with_wrapper_tool(result), other) == field(result, other),
{
    lemma_kept_are_filtered(tools);
    lemma_descriptor_name();
    assert(without_reserved(tools).push(descriptor()).drop_last() =~= without_reserved(tools));
}

/// The description of the tool names every action that it takes, and requires one.
pub proof fn law_description_names_every_action(action: crate::tools::schema::ToolAction)
    ensures
        opt_field(
            opt_field(opt_field(field(descriptor(), "inputSchema"@), "properties"@), "action"@),
            "enum"@,
        ) matches Some(JsonView::Arr(names)) && names.contains(
            JsonView::Str(crate::tools::schema::tool_action_name(action)),
        ) && names.len() == 5,
        opt_field(field(descriptor(), "inputSchema"@), "required"@) == Some(
            JsonView::Arr(seq![JsonView::Str("action"@)]),
        ),
        field(descriptor(), "name"@) == Some(JsonView::Str("mcp.wrapper"@)),
{
    reveal_strlit("name");
    reveal_strlit("description");
    reveal_strlit("inputSchema");
    assert("name"@.len() == 4);
    assert("description"@.len() == 11);
    assert("inputSchema"@.len() == 11);
    assert("description"@[0] != "inputSchema"@[0]);
    reveal_strlit("type");
    reveal_strlit("required");
    reveal_strlit("properties");
    assert("type"@.len() == 4);
    assert("required"@.len() == 8);
    assert("properties"@.len() == 10);
    reveal_strlit("action");
    reveal_strlit("target");
    reveal_strlit("params");
    assert("action"@.len() == 6);
    assert("target"@.len() == 6);
    assert("params"@.len() == 6);
    assert("action"@[0] != "target"@[0]);
    assert("action"@[0] != "params"@[0]);
    assert("target"@[0] != "params"@[0]);
    reveal_strlit("enum");
    reveal_strlit("type");
    assert("enum"@.len() == 4);
    assert("type"@.len() == 4);
    assert("enum"@[0] != "type"@[0]);
    let names = seq![
        JsonView::Str("backend.status"@),
        JsonView::Str("backend.ping"@),
        JsonView::Str("backend.refresh"@),
        JsonView::Str("backend.restart"@),
        JsonView::Str("backend.stop"@),
    ];
    assert(field(action_schema(), "enum"@) == Some(JsonView::Arr(names)));
    assert(names.contains(names[0]) && names.contains(names[1]) && names.contains(names[2])
        && names.contains(names[3]) && names.contains(names[4]));
}

/// A request is a call of the tool where it calls a tool of the reserved name; the
/// description of the tool, a merged list and a merged handshake are what is served.
pub proof fn law_tool_as_it_is_offered(
    raw: &Json,
    called: bool,
    described: Json,
    list: Json,
    merged: Json,
    shaken: Json,
    offered: Json,
    tools: Seq<JsonView>,
    other: Seq<char>,
)
    requires
        call_ensures(is_wrapper_tool_call, (raw,), called),
        call_ensures(tool_descriptor, (), described),
        call_ensures(merge_tools_list, (list,), merged),
        call_ensures(merge_initialize_result, (shaken,), offered),
        field(list@, "tools"@) == Some(JsonView::Arr(tools)),
        other != "tools"@,
    ensures
        called <==> field(raw@, "method"@) == Some(JsonView::Str("tools/call"@)) && opt_field(
            field(raw@, "params"@),
            "name"@,
        ) == Some(JsonView::Str("mcp.wrapper"@)),
        field(merged@, other) == field(list@, other),
        field(merged@, "tools"@) matches Some(JsonView::Arr(all)) && all.len() > 0 && all.last()
            == described@ && all.drop_last() == tools.filter(
            |tool: JsonView| field(tool, "name"@) != Some(JsonView::Str("mcp.wrapper"@)),
        ),
        field(described@, "name"@) == Some(JsonView::Str("mcp.wrapper"@)),
        opt_field(field(offered@, "capabilities"@), "tools"@) is Some,
        shaken@ is Obj && other != "capabilities"@ ==> field(offered@, other) == field(
            shaken@,
            other,
        ),
{
    law_merged_tools_are_the_servers_and_the_proxys(list@, tools, other);
    law_merged_handshake_offers_tools(shaken@, other);
    lemma_descriptor_name();
}

/// The arguments of the tool are an object: an action by name, a target that is the
/// default one unless it is given, and params with any fields.
pub proof fn law_description_of_the_arguments(described: Json)
    requires
        call_ensures(tool_descriptor, (), described),
    ensures
        ({
            let schema = field(described@, "inputSchema"@);
            let properties = opt_field(schema, "properties"@);
            &&& opt_field(schema, "type"@) == Some(JsonView::Str("object"@))
            &&& opt_field(opt_field(properties, "action"@), "type"@) == Some(
                JsonView::Str("string"@),
            )
            &&& opt_field(opt_field(properties, "target"@), "type"@) == Some(
                JsonView::Str("string"@),
            )
            &&& opt_field(opt_field(properties, "target"@), "default"@) == Some(
                JsonView::Str("default"@),
            )
            &&& opt_field(opt_field(properties, "params"@), "type"@) == Some(
                JsonView::Str("object"@),
            )
            &&& opt_field(opt_field(properties, "params"@), "additionalProperties"@) == Some(
                JsonView::Bool(true),
            )
        }),
{
    reveal_strlit("name");
    reveal_strlit("description");
    reveal_strlit("inputSchema");
    assert("name"@.len() == 4);
    assert("description"@.len() == 11);
    assert("inputSchema"@.len() == 11);
    assert("description"@[0] != "inputSchema"@[0]);
    reveal_strlit("type");
    reveal_strlit("required");
    reveal_strlit("properties");
    reveal_strlit("enum");
    reveal_strlit("default");
    reveal_strlit("additionalProperties");
    reveal_strlit("description");
    assert("type"@.len() == 4);
    assert("required"@.len() == 8);
    assert("properties"@.len() == 10);
    assert("enum"@.len() == 4);
    assert("default"@.len() == 7);
    assert("additionalProperties"@.len() == 20);
    assert("description"@.len() == 11);
    assert("type"@[0] != "enum"@[0]);
    reveal_strlit("action");
    reveal_strlit("target");
    reveal_strlit("params");
    assert("action"@.len() == 6);
    assert("target"@.len() == 6);
    assert("params"@.len() == 6);
    assert("action"@[0] != "target"@[0]);
    assert("action"@[0] != "params"@[0]);
    assert("target"@[0] != "params"@[0]);
}

} // verus!
