//! A plain store of discovery answers: one slot for each list, and one for what the
//! server says of itself. Slots of lists that the server does not have stay empty.

use vstd::prelude::*;
use vstd::string::*;

use crate::json::{opt_field, opt_view, Json, JsonView};
use crate::mcp_interface::McpDataKey;
use crate::mcp_manager::{
    build_initialize_request as initialize_request, capabilities_of, empty_result,
    empty_result_for as empty_answer, initialize_params, supported, Capabilities,
};
use crate::router::{key_method, list_method_for_key, CacheKey};
use crate::table::Table;
use crate::transport::{build_request, copied, request_view};

verus! {

/// The protocol version that is asked for.
pub const PROTOCOL_VERSION: &'static str = "2024-11-05";

/// The data that a slot holds.
pub open spec fn data_of(key: CacheKey) -> McpDataKey {
    match key {
        CacheKey::Initialize => McpDataKey::Initialize,
        CacheKey::ToolsList => McpDataKey::ToolsList,
        CacheKey::PromptsList => McpDataKey::PromptsList,
        CacheKey::ResourcesList => McpDataKey::ResourcesList,
        CacheKey::ResourceTemplatesList => McpDataKey::ResourceTemplatesList,
    }
}

/// The data that a slot holds.
pub fn data_key(key: &CacheKey) -> (data: McpDataKey)
    ensures
        data == data_of(*key),
{
    match key {
        CacheKey::Initialize => McpDataKey::Initialize,
        CacheKey::ToolsList => McpDataKey::ToolsList,
        CacheKey::PromptsList => McpDataKey::PromptsList,
        CacheKey::ResourcesList => McpDataKey::ResourcesList,
        CacheKey::ResourceTemplatesList => McpDataKey::ResourceTemplatesList,
    }
}

/// Builds the first request of the handshake.
pub fn build_initialize_request(id: Json) -> (j: Json)
    ensures
        j@ == request_view(id@, "initialize"@, Some(initialize_params("2024-11-05"@))),
{
    initialize_request(id, PROTOCOL_VERSION)
}

/// Builds the request that fills a slot.
pub fn build_list_request(id: Json, key: &CacheKey) -> (j: Json)
    ensures
        j@ == request_view(id@, key_method(*key), None),
{
    build_request(id, list_method_for_key(key), None)
}

/// What a slot holds without the server.
pub fn empty_result_for(key: &CacheKey) -> (j: Json)
    ensures
        j@ == empty_result(data_of(*key)),
{
    empty_answer(&data_key(key))
}

/// The slots of the lists.
pub open spec fn list_slots() -> Seq<CacheKey> {
    seq![
        CacheKey::ToolsList,
        CacheKey::PromptsList,
        CacheKey::ResourcesList,
        CacheKey::ResourceTemplatesList,
    ]
}

/// The lists that a server has, in the order in which it is asked for them.
pub open spec fn slots_to_query(c: Capabilities) -> Seq<CacheKey> {
    list_slots().filter(|key: CacheKey| supported(c, data_of(key)))
}

/// The lists to ask a server for.
pub fn queried_slots(capabilities: &Capabilities) -> (keys: Vec<CacheKey>)
    ensures
        keys@ == slots_to_query(*capabilities),
{
    let ghost has = |key: CacheKey| supported(*capabilities, data_of(key));
    let mut keys: Vec<CacheKey> = Vec::new();
    let ghost all = list_slots();
    proof {
        reveal_with_fuel(Seq::filter, 5);
        assert(all.drop_last() =~= seq![
            CacheKey::ToolsList,
            CacheKey::PromptsList,
            CacheKey::ResourcesList,
        ]);
        assert(all.drop_last().drop_last() =~= seq![CacheKey::ToolsList, CacheKey::PromptsList]);
        assert(all.drop_last().drop_last().drop_last() =~= seq![CacheKey::ToolsList]);
        assert(all.drop_last().drop_last().drop_last().drop_last() =~= Seq::empty());
    }
    if capabilities.tools {
        keys.push(CacheKey::ToolsList);
    }
    if capabilities.prompts {
        keys.push(CacheKey::PromptsList);
    }
    if capabilities.resources {
        keys.push(CacheKey::ResourcesList);
        keys.push(CacheKey::ResourceTemplatesList);
    }
    assert(keys@ =~= all.filter(has));
    keys
}

/// The cached answers.
pub struct Cache {
    server_info: Json,
    responses: Table<McpDataKey, Json>,
    capabilities: Capabilities,
}

/// The value of a `Cache`.
#[verifier::ext_equal]
pub struct StoreView {
    pub server_info: JsonView,
    pub responses: Map<McpDataKey, JsonView>,
    pub capabilities: Capabilities,
}

impl View for Cache {
    type V = StoreView;

    closed spec fn view(&self) -> StoreView {
        StoreView {
            server_info: self.server_info@,
            responses: self.responses@,
            capabilities: self.capabilities,
        }
    }
}

/// What a slot holds.
pub open spec fn held(store: StoreView, key: CacheKey) -> Option<JsonView> {
    if key == CacheKey::Initialize {
        Some(store.server_info)
    } else if store.responses.contains_key(data_of(key)) {
        Some(store.responses[data_of(key)])
    } else {
        None
    }
}

/// A store in which a slot was filled anew. A slot of a list that the server does not
/// have stays as it is.
pub open spec fn refilled(store: StoreView, key: CacheKey, value: JsonView) -> StoreView {
    if key == CacheKey::Initialize {
        StoreView { server_info: value, ..store }
    } else if supported(store.capabilities, data_of(key)) {
        StoreView { responses: store.responses.insert(data_of(key), value), ..store }
    } else {
        store
    }
}

/// What a slot holds after discovery: what the server answered, or the empty answer
/// where it has no such list or gave no result.
pub open spec fn discovered(c: Capabilities, key: CacheKey, reply: Option<JsonView>) -> JsonView {
    match opt_field(reply, "result"@) {
        Some(result) => if supported(c, data_of(key)) {
            result
        } else {
            empty_result(data_of(key))
        },
        None => empty_result(data_of(key)),
    }
}

/// What the server answered to the request for each list, where it was asked and
/// answered.
#[derive(Debug)]
pub struct ListReplies {
    pub tools: Option<Json>,
    pub prompts: Option<Json>,
    pub resources: Option<Json>,
    pub templates: Option<Json>,
}

impl Cache {
    fn fill(&mut self, key: CacheKey, reply: &Option<Json>)
        requires
            key != CacheKey::Initialize,
        ensures
            final(self)@ == (StoreView {
                responses: old(self)@.responses.insert(
                    data_of(key),
                    discovered(old(self)@.capabilities, key, opt_view(*reply)),
                ),
                ..old(self)@
            }),
    {
        let result = match reply {
            Some(reply) => copied(reply.get("result")),
            None => None,
        };
        let value = match result {
            Some(result) => if self.capabilities.supports(&data_key(&key)) {
                result
            } else {
                empty_result_for(&key)
            },
            None => empty_result_for(&key),
        };
        self.responses.insert(data_key(&key), value);
    }

    /// The store after discovery.
    pub fn from_replies(server_info: Json, replies: &ListReplies) -> (c: Cache)
        ensures
            c@.server_info == server_info@,
            c@.capabilities == capabilities_of(server_info@),
            c@.responses == Map::empty().insert(
                McpDataKey::ToolsList,
                discovered(c@.capabilities, CacheKey::ToolsList, opt_view(replies.tools)),
            ).insert(
                McpDataKey::PromptsList,
                discovered(c@.capabilities, CacheKey::PromptsList, opt_view(replies.prompts)),
            ).insert(
                McpDataKey::ResourcesList,
                discovered(c@.capabilities, CacheKey::ResourcesList, opt_view(replies.resources)),
            ).insert(
                McpDataKey::ResourceTemplatesList,
                discovered(
                    c@.capabilities,
                    CacheKey::ResourceTemplatesList,
                    opt_view(replies.templates),
                ),
            ),
    {
        let capabilities = Capabilities::from_server_info(&server_info);
        let mut c = Cache { server_info, responses: Table::new(), capabilities };
        c.fill(CacheKey::ToolsList, &replies.tools);
        c.fill(CacheKey::PromptsList, &replies.prompts);
        c.fill(CacheKey::ResourcesList, &replies.resources);
        c.fill(CacheKey::ResourceTemplatesList, &replies.templates);
        c
    }

    /// Reads a slot.
    pub fn lookup(&self, key: &CacheKey) -> (value: Option<Json>)
        ensures
            opt_view(value) == held(self@, *key),
    {
        match key {
            CacheKey::Initialize => Some(self.server_info.copy()),
            _ => copied(self.responses.get(&data_key(key))),
        }
    }

    /// Fills a slot anew.
    pub fn update(&mut self, key: &CacheKey, value: Json)
        ensures
            final(self)@ == refilled(old(self)@, *key, value@),
    {
        match key {
            CacheKey::Initialize => {
                self.server_info = value;
            },
            _ => {
                if self.capabilities.supports(&data_key(key)) {
                    self.responses.insert(data_key(key), value);
                }
            },
        }
    }
}

/// A slot that was filled anew holds that value, where the server has such a list,
/// and every other slot holds what it held.
pub proof fn law_read_gives_what_was_written(
    store: StoreView,
    key: CacheKey,
    value: JsonView,
    other: CacheKey,
)
    ensures
        supported(store.capabilities, data_of(key)) ==> held(refilled(store, key, value), key)
            == Some(value),
        other != key ==> held(refilled(store, key, value), other) == held(store, other),
        !supported(store.capabilities, data_of(key)) ==> refilled(store, key, value) == store,
{
}

/// A slot is filled by the method of its data.
pub proof fn law_slots_have_the_methods_of_their_data(key: CacheKey)
    ensures
        key_method(key) == crate::mcp_interface::data_method(data_of(key)),
{
}

/// Different slots hold different data.
pub proof fn law_slots_hold_their_own_data(a: CacheKey, b: CacheKey)
    requires
        data_of(a) == data_of(b),
    ensures
        a == b,
{
}

/// The requests of discovery: the handshake asks for the protocol version of the fifth of
/// November 2024, and a list is asked for by its method, without params.
pub proof fn law_requests_of_discovery(id: Json, first: Json, key: CacheKey, list: Json)
    requires
        call_ensures(build_initialize_request, (id,), first),
        call_ensures(build_list_request, (id, &key), list),
    ensures
        crate::json::field(first@, "id"@) == Some(id@),
        crate::json::field(first@, "method"@) == Some(JsonView::Str("initialize"@)),
        opt_field(crate::json::field(first@, "params"@), "protocolVersion"@) == Some(
            JsonView::Str("2024-11-05"@),
        ),
        crate::json::field(list@, "id"@) == Some(id@),
        crate::json::field(list@, "method"@) == Some(JsonView::Str(key_method(key))),
        crate::json::field(list@, "params"@) is None,
{
    reveal_strlit("jsonrpc");
    reveal_strlit("id");
    reveal_strlit("method");
    reveal_strlit("params");
    assert("jsonrpc"@.len() == 7);
    assert("id"@.len() == 2);
    assert("method"@.len() == 6);
    assert("params"@.len() == 6);
    assert("method"@[0] != "params"@[0]);
    reveal_strlit("protocolVersion");
    reveal_strlit("capabilities");
    reveal_strlit("clientInfo");
    assert("protocolVersion"@.len() == 15);
    assert("capabilities"@.len() == 12);
    assert("clientInfo"@.len() == 10);
}

/// A server is asked for the lists that its capabilities name, each once and in the order
/// of the slots.
pub proof fn law_only_lists_that_there_are_are_asked_for(
    capabilities: Capabilities,
    keys: Vec<CacheKey>,
    key: CacheKey,
)
    requires
        call_ensures(queried_slots, (&capabilities,), keys),
    ensures
        keys@.contains(CacheKey::ToolsList) <==> capabilities.tools,
        keys@.contains(CacheKey::PromptsList) <==> capabilities.prompts,
        keys@.contains(CacheKey::ResourcesList) <==> capabilities.resources,
        keys@.contains(CacheKey::ResourceTemplatesList) <==> capabilities.resources,
        !keys@.contains(CacheKey::Initialize),
        keys@.no_duplicates(),
{
    let has = |key: CacheKey| supported(capabilities, data_of(key));
    let all = list_slots();
    let mine = (if capabilities.tools {
        seq![CacheKey::ToolsList]
    } else {
        Seq::empty()
    }) + (if capabilities.prompts {
        seq![CacheKey::PromptsList]
    } else {
        Seq::empty()
    }) + (if capabilities.resources {
        seq![CacheKey::ResourcesList, CacheKey::ResourceTemplatesList]
    } else {
        Seq::empty()
    });
    reveal_with_fuel(Seq::filter, 5);
    assert(all.drop_last() =~= seq![
        CacheKey::ToolsList,
        CacheKey::PromptsList,
        CacheKey::ResourcesList,
    ]);
    assert(all.drop_last().drop_last() =~= seq![CacheKey::ToolsList, CacheKey::PromptsList]);
    assert(all.drop_last().drop_last().drop_last() =~= seq![CacheKey::ToolsList]);
    assert(all.drop_last().drop_last().drop_last().drop_last() =~= Seq::empty());
    assert(keys@ =~= mine);
    let t: int = 0;
    let p: int = if capabilities.tools {
        1
    } else {
        0
    };
    let r: int = p + if capabilities.prompts {
        1int
    } else {
        0int
    };
    if capabilities.tools {
        assert(mine[t] == CacheKey::ToolsList);
    }
    if capabilities.prompts {
        assert(mine[p] == CacheKey::PromptsList);
    }
    if capabilities.resources {
        assert(mine[r] == CacheKey::ResourcesList);
        assert(mine[r + 1] == CacheKey::ResourceTemplatesList);
    }
}

/// After discovery the store holds the handshake as it is and, for each list that the
/// server has, the result that it gave; every other list is there and empty.
pub proof fn law_store_holds_what_was_discovered(
    info: Json,
    replies: ListReplies,
    store: Cache,
    key: CacheKey,
    value: Option<Json>,
)
    requires
        call_ensures(Cache::from_replies, (info, &replies), store),
        call_ensures(Cache::lookup, (&store, &key), value),
    ensures
        value is Some,
        key == CacheKey::Initialize ==> value->0@ == info@,
        key != CacheKey::Initialize ==> {
            let reply = match key {
                CacheKey::ToolsList => replies.tools,
                CacheKey::PromptsList => replies.prompts,
                CacheKey::ResourcesList => replies.resources,
                _ => replies.templates,
            };
            let offered = opt_field(
                crate::json::field(info@, "capabilities"@),
                match key {
                    CacheKey::ToolsList => "tools"@,
                    CacheKey::PromptsList => "prompts"@,
                    _ => "resources"@,
                },
            ) is Some;
            let result = opt_field(opt_view(reply), "result"@);
            &&& offered && result is Some ==> value->0@ == result->0
            &&& !offered || result is None ==> crate::json::field(
                value->0@,
                crate::mcp_manager::list_field(data_of(key)),
            ) == Some(JsonView::Arr(Seq::empty()))
        },
{
}

/// What is written to a slot of a list that the server has, or of the handshake, is what
/// is read from it, and no other slot changes; a slot of a list that the server does not
/// have stays as it is.
pub proof fn law_slots_are_written_and_read(
    store: &mut Cache,
    key: CacheKey,
    value: Json,
    unit: (),
    other: CacheKey,
)
    requires
        call_ensures(Cache::update, (store, &key, value), unit),
    ensures
        ({
            let offered = match key {
                CacheKey::Initialize => true,
                CacheKey::ToolsList => old(store)@.capabilities.tools,
                CacheKey::PromptsList => old(store)@.capabilities.prompts,
                _ => old(store)@.capabilities.resources,
            };
            &&& offered ==> held(final(store)@, key) == Some(value@)
            &&& !offered ==> final(store)@ == old(store)@
            &&& other != key ==> held(final(store)@, other) == held(old(store)@, other)
            &&& final(store)@.capabilities == old(store)@.capabilities
        }),
{
}

/// A slot without the server holds its list, and the list is empty; the data of a slot is
/// that of its method.
pub proof fn law_empty_slots(key: CacheKey, j: Json, data: McpDataKey)
    requires
        call_ensures(empty_result_for, (&key,), j),
        call_ensures(data_key, (&key,), data),
    ensures
        key != CacheKey::Initialize ==> crate::json::field(
            j@,
            crate::mcp_manager::list_field(data),
        ) == Some(JsonView::Arr(Seq::empty())),
        key_method(key) == crate::mcp_interface::data_method(data),
{
}

} // verus!
