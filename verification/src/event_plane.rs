//! The event table: which program handles which MCP event, and the checks that
//! keep the table sound.

use vstd::prelude::*;
use vstd::string::*;

use crate::json::{field, opt_field, str_of, Json, JsonView};
use crate::mcp_interface::{
    control_for_method, control_of, route_of, McpDataKey, Route,
};
use crate::text::{join, starts_with, text_eq};
use crate::transport::{field_text, subfield};

verus! {

/// Which way an event travels.
#[derive(Debug, Clone, Copy, PartialEq, Eq, Structural)]
pub enum Dir {
    ClientToServer,
    ServerToClient,
}

#[derive(Debug, Clone, Copy, PartialEq, Eq, Structural)]
pub enum EventKind {
    Request,
    Notification,
}

/// What an entry asks of an event beside its method.
#[derive(Debug, Clone, Copy, PartialEq, Eq)]
pub enum Selector {
    Any,
    ToolName(&'static str),
    LegacyMethodPrefix(&'static str),
}

#[derive(Debug, Clone, Copy, PartialEq, Eq)]
pub struct EventKey {
    pub dir: Dir,
    pub kind: EventKind,
    pub method: &'static str,
    pub selector: Selector,
}

#[derive(Debug, Clone, Copy, PartialEq, Eq, Structural)]
pub enum ProgramClass {
    Cache,
    Local,
    Lifetime,
    Control,
    Pass,
}

#[derive(Debug, Clone, Copy, PartialEq, Eq, Structural)]
pub enum EventProgramId {
    CacheInitializeView,
    CacheToolsList,
    CachePromptsList,
    CacheResourcesList,
    CacheResourceTemplatesList,
    LocalPing,
    DropClientInitialized,
    InvokeWrapperTool,
    LegacyBackendHook,
    ClientRequestThenPass,
    PeerRequestThenPass,
    CancelRequest,
    ProgressRequest,
    RefreshCacheThenPass,
    PassNotification,
}

/// The part of the cache that an event makes stale.
#[derive(Debug, Clone, Copy, PartialEq, Eq, Structural)]
pub enum CacheRefreshTarget {
    Tools,
    Prompts,
    Resources,
}

#[derive(Debug, Clone, Copy, PartialEq, Eq, Structural)]
pub enum Outcome {
    Pass,
    Respond,
    Forward,
    Drop,
    RefreshThenForward,
    Reject,
}

#[derive(Debug, Clone, Copy, PartialEq, Eq)]
pub struct MountEntry {
    pub key: EventKey,
    pub program_class: ProgramClass,
    pub program: EventProgramId,
    pub outcome: Outcome,
    pub cache_refresh_target: Option<CacheRefreshTarget>,
}

#[verifier::ext_equal]
pub enum SelectorView {
    Any,
    ToolName(Seq<char>),
    LegacyMethodPrefix(Seq<char>),
}

impl View for Selector {
    type V = SelectorView;

    open spec fn view(&self) -> SelectorView {
        match self {
            Selector::Any => SelectorView::Any,
            Selector::ToolName(name) => SelectorView::ToolName(name@),
            Selector::LegacyMethodPrefix(prefix) => SelectorView::LegacyMethodPrefix(prefix@),
        }
    }
}

#[verifier::ext_equal]
pub struct KeyView {
    pub dir: Dir,
    pub kind: EventKind,
    pub method: Seq<char>,
    pub selector: SelectorView,
}

impl View for EventKey {
    type V = KeyView;

    open spec fn view(&self) -> KeyView {
        KeyView {
            dir: self.dir,
            kind: self.kind,
            method: self.method@,
            selector: self.selector@,
        }
    }
}

#[verifier::ext_equal]
pub struct MountView {
    pub key: KeyView,
    pub program_class: ProgramClass,
    pub program: EventProgramId,
    pub outcome: Outcome,
    pub cache_refresh_target: Option<CacheRefreshTarget>,
}

impl View for MountEntry {
    type V = MountView;

    open spec fn view(&self) -> MountView {
        MountView {
            key: self.key@,
            program_class: self.program_class,
            program: self.program,
            outcome: self.outcome,
            cache_refresh_target: self.cache_refresh_target,
        }
    }
}

pub open spec fn table_view(table: Seq<MountEntry>) -> Seq<MountView> {
    Seq::new(table.len(), |i: int| table[i]@)
}

pub open spec fn keys_view(keys: Seq<EventKey>) -> Seq<KeyView> {
    Seq::new(keys.len(), |i: int| keys[i]@)
}

pub open spec fn key_view(dir: Dir, kind: EventKind, method: Seq<char>) -> KeyView {
    KeyView { dir, kind, method, selector: SelectorView::Any }
}

pub open spec fn request_mount(
    dir: Dir,
    method: Seq<char>,
    program_class: ProgramClass,
    program: EventProgramId,
    outcome: Outcome,
) -> MountView {
    MountView {
        key: key_view(dir, EventKind::Request, method),
        program_class,
        program,
        outcome,
        cache_refresh_target: None,
    }
}

pub open spec fn notification_mount(
    dir: Dir,
    method: Seq<char>,
    program_class: ProgramClass,
    program: EventProgramId,
    outcome: Outcome,
) -> MountView {
    MountView {
        key: key_view(dir, EventKind::Notification, method),
        program_class,
        program,
        outcome,
        cache_refresh_target: None,
    }
}

/// The table, in order of precedence.
pub open spec fn mounts() -> Seq<MountView> {
    seq![
        request_mount(
            Dir::ClientToServer,
            "initialize"@,
            ProgramClass::Cache,
            EventProgramId::CacheInitializeView,
            Outcome::Respond,
        ),
        notification_mount(
            Dir::ClientToServer,
            "notifications/initialized"@,
            ProgramClass::Local,
            EventProgramId::DropClientInitialized,
            Outcome::Drop,
        ),
        request_mount(
            Dir::ClientToServer,
            "ping"@,
            ProgramClass::Local,
            EventProgramId::LocalPing,
            Outcome::Respond,
        ),
        request_mount(
            Dir::ServerToClient,
            "ping"@,
            ProgramClass::Lifetime,
            EventProgramId::PeerRequestThenPass,
            Outcome::Pass,
        ),
        request_mount(
            Dir::ClientToServer,
            "tools/list"@,
            ProgramClass::Cache,
            EventProgramId::CacheToolsList,
            Outcome::Respond,
        ),
        request_mount(
            Dir::ClientToServer,
            "prompts/list"@,
            ProgramClass::Cache,
            EventProgramId::CachePromptsList,
            Outcome::Respond,
        ),
        request_mount(
            Dir::ClientToServer,
            "resources/list"@,
            ProgramClass::Cache,
            EventProgramId::CacheResourcesList,
            Outcome::Respond,
        ),
        request_mount(
            Dir::ClientToServer,
            "resources/templates/list"@,
            ProgramClass::Cache,
            EventProgramId::CacheResourceTemplatesList,
            Outcome::Respond,
        ),
        MountView {
            key: KeyView {
                dir: Dir::ClientToServer,
                kind: EventKind::Request,
                method: "tools/call"@,
                selector: SelectorView::ToolName("mcp.wrapper"@),
            },
            program_class: ProgramClass::Control,
            program: EventProgramId::InvokeWrapperTool,
            outcome: Outcome::Respond,
            cache_refresh_target: None,
        },
        request_mount(
            Dir::ClientToServer,
            "tools/call"@,
            ProgramClass::Lifetime,
            EventProgramId::ClientRequestThenPass,
            Outcome::Pass,
        ),
        request_mount(
            Dir::ClientToServer,
            "prompts/get"@,
            ProgramClass::Lifetime,
            EventProgramId::ClientRequestThenPass,
            Outcome::Pass,
        ),
        request_mount(
            Dir::ClientToServer,
            "resources/read"@,
            ProgramClass::Lifetime,
            EventProgramId::ClientRequestThenPass,
            Outcome::Pass,
        ),
        request_mount(
            Dir::ClientToServer,
            "resources/subscribe"@,
            ProgramClass::Lifetime,
            EventProgramId::ClientRequestThenPass,
            Outcome::Pass,
        ),
        request_mount(
            Dir::ClientToServer,
            "resources/unsubscribe"@,
            ProgramClass::Lifetime,
            EventProgramId::ClientRequestThenPass,
            Outcome::Pass,
        ),
        request_mount(
            Dir::ClientToServer,
            "completion/complete"@,
            ProgramClass::Lifetime,
            EventProgramId::ClientRequestThenPass,
            Outcome::Pass,
        ),
        request_mount(
            Dir::ClientToServer,
            "logging/setLevel"@,
            ProgramClass::Lifetime,
            EventProgramId::ClientRequestThenPass,
            Outcome::Pass,
        ),
        request_mount(
            Dir::ServerToClient,
            "sampling/createMessage"@,
            ProgramClass::Lifetime,
            EventProgramId::PeerRequestThenPass,
            Outcome::Pass,
        ),
        request_mount(
            Dir::ServerToClient,
            "roots/list"@,
            ProgramClass::Lifetime,
            EventProgramId::PeerRequestThenPass,
            Outcome::Pass,
        ),
        request_mount(
            Dir::ServerToClient,
            "elicitation/create"@,
            ProgramClass::Lifetime,
            EventProgramId::PeerRequestThenPass,
            Outcome::Pass,
        ),
        notification_mount(
            Dir::ClientToServer,
            "notifications/cancelled"@,
            ProgramClass::Lifetime,
            EventProgramId::CancelRequest,
            Outcome::Forward,
        ),
        notification_mount(
            Dir::ServerToClient,
            "notifications/cancelled"@,
            ProgramClass::Lifetime,
            EventProgramId::CancelRequest,
            Outcome::Forward,
        ),
        notification_mount(
            Dir::ClientToServer,
            "notifications/progress"@,
            ProgramClass::Lifetime,
            EventProgramId::ProgressRequest,
            Outcome::Forward,
        ),
        notification_mount(
            Dir::ServerToClient,
            "notifications/progress"@,
            ProgramClass::Lifetime,
            EventProgramId::ProgressRequest,
            Outcome::Forward,
        ),
        MountView {
            key: KeyView {
                dir: Dir::ServerToClient,
                kind: EventKind::Notification,
                method: "notifications/tools/list_changed"@,
                selector: SelectorView::Any,
            },
            program_class: ProgramClass::Cache,
            program: EventProgramId::RefreshCacheThenPass,
            outcome: Outcome::RefreshThenForward,
            cache_refresh_target: Some(CacheRefreshTarget::Tools),
        },
        MountView {
            key: KeyView {
                dir: Dir::ServerToClient,
                kind: EventKind::Notification,
                method: "notifications/prompts/list_changed"@,
                selector: SelectorView::Any,
            },
            program_class: ProgramClass::Cache,
            program: EventProgramId::RefreshCacheThenPass,
            outcome: Outcome::RefreshThenForward,
            cache_refresh_target: Some(CacheRefreshTarget::Prompts),
        },
        MountView {
            key: KeyView {
                dir: Dir::ServerToClient,
                kind: EventKind::Notification,
                method: "notifications/resources/list_changed"@,
                selector: SelectorView::Any,
            },
            program_class: ProgramClass::Cache,
            program: EventProgramId::RefreshCacheThenPass,
            outcome: Outcome::RefreshThenForward,
            cache_refresh_target: Some(CacheRefreshTarget::Resources),
        },
        notification_mount(
            Dir::ServerToClient,
            "notifications/resources/updated"@,
            ProgramClass::Pass,
            EventProgramId::PassNotification,
            Outcome::Pass,
        ),
        notification_mount(
            Dir::ServerToClient,
            "notifications/message"@,
            ProgramClass::Pass,
            EventProgramId::PassNotification,
            Outcome::Pass,
        ),
        notification_mount(
            Dir::ClientToServer,
            "notifications/roots/list_changed"@,
            ProgramClass::Pass,
            EventProgramId::PassNotification,
            Outcome::Pass,
        ),
        MountView {
            key: KeyView {
                dir: Dir::ClientToServer,
                kind: EventKind::Request,
                method: "mcp-wrapper/backend/*"@,
                selector: SelectorView::LegacyMethodPrefix("mcp-wrapper/backend/"@),
            },
            program_class: ProgramClass::Control,
            program: EventProgramId::LegacyBackendHook,
            outcome: Outcome::Respond,
            cache_refresh_target: None,
        },
    ]
}

/// The events that MCP names: each must be in the table.
pub open spec fn spec_keys() -> Seq<KeyView> {
    seq![
        key_view(Dir::ClientToServer, EventKind::Request, "initialize"@),
        key_view(Dir::ClientToServer, EventKind::Notification, "notifications/initialized"@),
        key_view(Dir::ClientToServer, EventKind::Request, "ping"@),
        key_view(Dir::ServerToClient, EventKind::Request, "ping"@),
        key_view(Dir::ClientToServer, EventKind::Request, "tools/list"@),
        key_view(Dir::ClientToServer, EventKind::Request, "prompts/list"@),
        key_view(Dir::ClientToServer, EventKind::Request, "resources/list"@),
        key_view(Dir::ClientToServer, EventKind::Request, "resources/templates/list"@),
        key_view(Dir::ClientToServer, EventKind::Request, "tools/call"@),
        key_view(Dir::ClientToServer, EventKind::Request, "prompts/get"@),
        key_view(Dir::ClientToServer, EventKind::Request, "resources/read"@),
        key_view(Dir::ClientToServer, EventKind::Request, "resources/subscribe"@),
        key_view(Dir::ClientToServer, EventKind::Request, "resources/unsubscribe"@),
        key_view(Dir::ClientToServer, EventKind::Request, "completion/complete"@),
        key_view(Dir::ClientToServer, EventKind::Request, "logging/setLevel"@),
        key_view(Dir::ServerToClient, EventKind::Request, "sampling/createMessage"@),
        key_view(Dir::ServerToClient, EventKind::Request, "roots/list"@),
        key_view(Dir::ServerToClient, EventKind::Request, "elicitation/create"@),
        key_view(Dir::ClientToServer, EventKind::Notification, "notifications/cancelled"@),
        key_view(Dir::ServerToClient, EventKind::Notification, "notifications/cancelled"@),
        key_view(Dir::ClientToServer, EventKind::Notification, "notifications/progress"@),
        key_view(Dir::ServerToClient, EventKind::Notification, "notifications/progress"@),
        key_view(Dir::ServerToClient, EventKind::Notification, "notifications/tools/list_changed"@),
        key_view(Dir::ServerToClient, EventKind::Notification, "notifications/prompts/list_changed"@),
        key_view(Dir::ServerToClient, EventKind::Notification, "notifications/resources/list_changed"@),
        key_view(Dir::ServerToClient, EventKind::Notification, "notifications/resources/updated"@),
        key_view(Dir::ServerToClient, EventKind::Notification, "notifications/message"@),
        key_view(Dir::ClientToServer, EventKind::Notification, "notifications/roots/list_changed"@),
    ]
}

/// Whether an entry is for an event.
pub open spec fn mount_matches(
    entry: MountView,
    dir: Dir,
    kind: EventKind,
    method: Seq<char>,
    tool: Option<Seq<char>>,
) -> bool {
    &&& entry.key.dir == dir
    &&& entry.key.kind == kind
    &&& match entry.key.selector {
        SelectorView::Any => entry.key.method == method,
        SelectorView::ToolName(name) => entry.key.method == method && tool == Some(name),
        SelectorView::LegacyMethodPrefix(prefix) => prefix.is_prefix_of(method),
    }
}

/// The first entry from position `i` on that is for an event.
pub open spec fn first_mount(
    table: Seq<MountView>,
    i: int,
    dir: Dir,
    kind: EventKind,
    method: Seq<char>,
    tool: Option<Seq<char>>,
) -> Option<MountView>
    decreases table.len() - i,
{
    if i < 0 || i >= table.len() {
        None
    } else if mount_matches(table[i], dir, kind, method, tool) {
        Some(table[i])
    } else {
        first_mount(table, i + 1, dir, kind, method, tool)
    }
}

/// The entry of the table that handles an event.
pub open spec fn mount_of(
    dir: Dir,
    kind: EventKind,
    method: Seq<char>,
    tool: Option<Seq<char>>,
) -> Option<MountView> {
    first_mount(mounts(), 0, dir, kind, method, tool)
}

pub open spec fn opt_mount(entry: Option<MountEntry>) -> Option<MountView> {
    match entry {
        Some(e) => Some(e@),
        None => None,
    }
}

fn plain_key(dir: Dir, kind: EventKind, method: &'static str) -> (key: EventKey)
    ensures
        key@ == key_view(dir, kind, method@),
{
    EventKey { dir, kind, method, selector: Selector::Any }
}

/// An entry for a request with any tool name.
pub fn request(
    dir: Dir,
    method: &'static str,
    program_class: ProgramClass,
    program: EventProgramId,
    outcome: Outcome,
) -> (entry: MountEntry)
    ensures
        entry@ == request_mount(dir, method@, program_class, program, outcome),
{
    MountEntry {
        key: plain_key(dir, EventKind::Request, method),
        program_class,
        program,
        outcome,
        cache_refresh_target: None,
    }
}

/// An entry for a notification.
pub fn notification(
    dir: Dir,
    method: &'static str,
    program_class: ProgramClass,
    program: EventProgramId,
    outcome: Outcome,
) -> (entry: MountEntry)
    ensures
        entry@ == notification_mount(dir, method@, program_class, program, outcome),
{
    MountEntry {
        key: plain_key(dir, EventKind::Notification, method),
        program_class,
        program,
        outcome,
        cache_refresh_target: None,
    }
}

/// The table, in order of precedence.
pub fn mount_table() -> (table: Vec<MountEntry>)
    ensures
        table_view(table@) == mounts(),
{
    let mut table: Vec<MountEntry> = Vec::new();
    table.push(
        request(
            Dir::ClientToServer,
            "initialize",
            ProgramClass::Cache,
            EventProgramId::CacheInitializeView,
            Outcome::Respond,
        ),
    );
    table.push(
        notification(
            Dir::ClientToServer,
            "notifications/initialized",
            ProgramClass::Local,
            EventProgramId::DropClientInitialized,
            Outcome::Drop,
        ),
    );
    table.push(
        request(
            Dir::ClientToServer,
            "ping",
            ProgramClass::Local,
            EventProgramId::LocalPing,
            Outcome::Respond,
        ),
    );
    table.push(
        request(
            Dir::ServerToClient,
            "ping",
            ProgramClass::Lifetime,
            EventProgramId::PeerRequestThenPass,
            Outcome::Pass,
        ),
    );
    table.push(
        request(
            Dir::ClientToServer,
            "tools/list",
            ProgramClass::Cache,
            EventProgramId::CacheToolsList,
            Outcome::Respond,
        ),
    );
    table.push(
        request(
            Dir::ClientToServer,
            "prompts/list",
            ProgramClass::Cache,
            EventProgramId::CachePromptsList,
            Outcome::Respond,
        ),
    );
    table.push(
        request(
            Dir::ClientToServer,
            "resources/list",
            ProgramClass::Cache,
            EventProgramId::CacheResourcesList,
            Outcome::Respond,
        ),
    );
    table.push(
        request(
            Dir::ClientToServer,
            "resources/templates/list",
            ProgramClass::Cache,
            EventProgramId::CacheResourceTemplatesList,
            Outcome::Respond,
        ),
    );
    table.push(
        MountEntry {
            key: EventKey {
                dir: Dir::ClientToServer,
                kind: EventKind::Request,
                method: "tools/call",
                selector: Selector::ToolName("mcp.wrapper"),
            },
            program_class: ProgramClass::Control,
            program: EventProgramId::InvokeWrapperTool,
            outcome: Outcome::Respond,
            cache_refresh_target: None,
        },
    );
    table.push(
        request(
            Dir::ClientToServer,
            "tools/call",
            ProgramClass::Lifetime,
            EventProgramId::ClientRequestThenPass,
            Outcome::Pass,
        ),
    );
    table.push(
        request(
            Dir::ClientToServer,
            "prompts/get",
            ProgramClass::Lifetime,
            EventProgramId::ClientRequestThenPass,
            Outcome::Pass,
        ),
    );
    table.push(
        request(
            Dir::ClientToServer,
            "resources/read",
            ProgramClass::Lifetime,
            EventProgramId::ClientRequestThenPass,
            Outcome::Pass,
        ),
    );
    table.push(
        request(
            Dir::ClientToServer,
            "resources/subscribe",
            ProgramClass::Lifetime,
            EventProgramId::ClientRequestThenPass,
            Outcome::Pass,
        ),
    );
    table.push(
        request(
            Dir::ClientToServer,
            "resources/unsubscribe",
            ProgramClass::Lifetime,
            EventProgramId::ClientRequestThenPass,
            Outcome::Pass,
        ),
    );
    table.push(
        request(
            Dir::ClientToServer,
            "completion/complete",
            ProgramClass::Lifetime,
            EventProgramId::ClientRequestThenPass,
            Outcome::Pass,
        ),
    );
    table.push(
        request(
            Dir::ClientToServer,
            "logging/setLevel",
            ProgramClass::Lifetime,
            EventProgramId::ClientRequestThenPass,
            Outcome::Pass,
        ),
    );
    table.push(
        request(
            Dir::ServerToClient,
            "sampling/createMessage",
            ProgramClass::Lifetime,
            EventProgramId::PeerRequestThenPass,
            Outcome::Pass,
        ),
    );
    table.push(
        request(
            Dir::ServerToClient,
            "roots/list",
            ProgramClass::Lifetime,
            EventProgramId::PeerRequestThenPass,
            Outcome::Pass,
        ),
    );
    table.push(
        request(
            Dir::ServerToClient,
            "elicitation/create",
            ProgramClass::Lifetime,
            EventProgramId::PeerRequestThenPass,
            Outcome::Pass,
        ),
    );
    table.push(
        notification(
            Dir::ClientToServer,
            "notifications/cancelled",
            ProgramClass::Lifetime,
            EventProgramId::CancelRequest,
            Outcome::Forward,
        ),
    );
    table.push(
        notification(
            Dir::ServerToClient,
            "notifications/cancelled",
            ProgramClass::Lifetime,
            EventProgramId::CancelRequest,
            Outcome::Forward,
        ),
    );
    table.push(
        notification(
            Dir::ClientToServer,
            "notifications/progress",
            ProgramClass::Lifetime,
            EventProgramId::ProgressRequest,
            Outcome::Forward,
        ),
    );
    table.push(
        notification(
            Dir::ServerToClient,
            "notifications/progress",
            ProgramClass::Lifetime,
            EventProgramId::ProgressRequest,
            Outcome::Forward,
        ),
    );
    table.push(
        MountEntry {
            key: EventKey {
                dir: Dir::ServerToClient,
                kind: EventKind::Notification,
                method: "notifications/tools/list_changed",
                selector: Selector::Any,
            },
            program_class: ProgramClass::Cache,
            program: EventProgramId::RefreshCacheThenPass,
            outcome: Outcome::RefreshThenForward,
            cache_refresh_target: Some(CacheRefreshTarget::Tools),
        },
    );
    table.push(
        MountEntry {
            key: EventKey {
                dir: Dir::ServerToClient,
                kind: EventKind::Notification,
                method: "notifications/prompts/list_changed",
                selector: Selector::Any,
            },
            program_class: ProgramClass::Cache,
            program: EventProgramId::RefreshCacheThenPass,
            outcome: Outcome::RefreshThenForward,
            cache_refresh_target: Some(CacheRefreshTarget::Prompts),
        },
    );
    table.push(
        MountEntry {
            key: EventKey {
                dir: Dir::ServerToClient,
                kind: EventKind::Notification,
                method: "notifications/resources/list_changed",
                selector: Selector::Any,
            },
            program_class: ProgramClass::Cache,
            program: EventProgramId::RefreshCacheThenPass,
            outcome: Outcome::RefreshThenForward,
            cache_refresh_target: Some(CacheRefreshTarget::Resources),
        },
    );
    table.push(
        notification(
            Dir::ServerToClient,
            "notifications/resources/updated",
            ProgramClass::Pass,
            EventProgramId::PassNotification,
            Outcome::Pass,
        ),
    );
    table.push(
        notification(
            Dir::ServerToClient,
            "notifications/message",
            ProgramClass::Pass,
            EventProgramId::PassNotification,
            Outcome::Pass,
        ),
    );
    table.push(
        notification(
            Dir::ClientToServer,
            "notifications/roots/list_changed",
            ProgramClass::Pass,
            EventProgramId::PassNotification,
            Outcome::Pass,
        ),
    );
    table.push(
        MountEntry {
            key: EventKey {
                dir: Dir::ClientToServer,
                kind: EventKind::Request,
                method: "mcp-wrapper/backend/*",
                selector: Selector::LegacyMethodPrefix("mcp-wrapper/backend/"),
            },
            program_class: ProgramClass::Control,
            program: EventProgramId::LegacyBackendHook,
            outcome: Outcome::Respond,
            cache_refresh_target: None,
        },
    );
    assert(table_view(table@) =~= mounts());
    table
}

fn spec_event_keys() -> (keys: Vec<EventKey>)
    ensures
        keys_view(keys@) == spec_keys(),
{
    let mut keys: Vec<EventKey> = Vec::new();
    keys.push(plain_key(Dir::ClientToServer, EventKind::Request, "initialize"));
    keys.push(plain_key(Dir::ClientToServer, EventKind::Notification, "notifications/initialized"));
    keys.push(plain_key(Dir::ClientToServer, EventKind::Request, "ping"));
    keys.push(plain_key(Dir::ServerToClient, EventKind::Request, "ping"));
    keys.push(plain_key(Dir::ClientToServer, EventKind::Request, "tools/list"));
    keys.push(plain_key(Dir::ClientToServer, EventKind::Request, "prompts/list"));
    keys.push(plain_key(Dir::ClientToServer, EventKind::Request, "resources/list"));
    keys.push(plain_key(Dir::ClientToServer, EventKind::Request, "resources/templates/list"));
    keys.push(plain_key(Dir::ClientToServer, EventKind::Request, "tools/call"));
    keys.push(plain_key(Dir::ClientToServer, EventKind::Request, "prompts/get"));
    keys.push(plain_key(Dir::ClientToServer, EventKind::Request, "resources/read"));
    keys.push(plain_key(Dir::ClientToServer, EventKind::Request, "resources/subscribe"));
    keys.push(plain_key(Dir::ClientToServer, EventKind::Request, "resources/unsubscribe"));
    keys.push(plain_key(Dir::ClientToServer, EventKind::Request, "completion/complete"));
    keys.push(plain_key(Dir::ClientToServer, EventKind::Request, "logging/setLevel"));
    keys.push(plain_key(Dir::ServerToClient, EventKind::Request, "sampling/createMessage"));
    keys.push(plain_key(Dir::ServerToClient, EventKind::Request, "roots/list"));
    keys.push(plain_key(Dir::ServerToClient, EventKind::Request, "elicitation/create"));
    keys.push(plain_key(Dir::ClientToServer, EventKind::Notification, "notifications/cancelled"));
    keys.push(plain_key(Dir::ServerToClient, EventKind::Notification, "notifications/cancelled"));
    keys.push(plain_key(Dir::ClientToServer, EventKind::Notification, "notifications/progress"));
    keys.push(plain_key(Dir::ServerToClient, EventKind::Notification, "notifications/progress"));
    keys.push(plain_key(Dir::ServerToClient, EventKind::Notification, "notifications/tools/list_changed"));
    keys.push(plain_key(Dir::ServerToClient, EventKind::Notification, "notifications/prompts/list_changed"));
    keys.push(plain_key(Dir::ServerToClient, EventKind::Notification, "notifications/resources/list_changed"));
    keys.push(plain_key(Dir::ServerToClient, EventKind::Notification, "notifications/resources/updated"));
    keys.push(plain_key(Dir::ServerToClient, EventKind::Notification, "notifications/message"));
    keys.push(plain_key(Dir::ClientToServer, EventKind::Notification, "notifications/roots/list_changed"));
    assert(keys_view(keys@) =~= spec_keys());
    keys
}

/// Whether a selector takes an event.
pub fn selector_matches(
    selector: Selector,
    entry_method: &str,
    method: &str,
    tool_name: Option<&str>,
) -> (b: bool)
    ensures
        b == (match selector@ {
            SelectorView::Any => entry_method@ == method@,
            SelectorView::ToolName(name) => entry_method@ == method@ && crate::json::opt_str(
                tool_name,
            ) == Some(name),
            SelectorView::LegacyMethodPrefix(prefix) => prefix.is_prefix_of(method@),
        }),
{
    match selector {
        Selector::Any => text_eq(entry_method, method),
        Selector::ToolName(name) => text_eq(entry_method, method) && match tool_name {
            Some(tool) => text_eq(tool, name),
            None => false,
        },
        Selector::LegacyMethodPrefix(prefix) => starts_with(method, prefix),
    }
}

fn find_in(
    table: &Vec<MountEntry>,
    dir: Dir,
    kind: EventKind,
    method: &str,
    tool_name: Option<&str>,
) -> (entry: Option<MountEntry>)
    ensures
        opt_mount(entry) == first_mount(
            table_view(table@),
            0,
            dir,
            kind,
            method@,
            crate::json::opt_str(tool_name),
        ),
{
    let ghost tool = crate::json::opt_str(tool_name);
    let mut i: usize = 0;
    while i < table.len()
        invariant
            i <= table@.len(),
            tool == crate::json::opt_str(tool_name),
            first_mount(table_view(table@), 0, dir, kind, method@, tool) == first_mount(
                table_view(table@),
                i as int,
                dir,
                kind,
                method@,
                tool,
            ),
        decreases table@.len() - i,
    {
        let entry = table[i];
        if entry.key.dir == dir && entry.key.kind == kind && selector_matches(
            entry.key.selector,
            entry.key.method,
            method,
            tool_name,
        ) {
            return Some(entry);
        }
        i = i + 1;
    }
    None
}

/// The entry of the table that handles an event.
pub fn find_mount(dir: Dir, kind: EventKind, method: &str, tool_name: Option<&str>) -> (entry: Option<
    MountEntry,
>)
    ensures
        opt_mount(entry) == mount_of(dir, kind, method@, crate::json::opt_str(tool_name)),
{
    find_in(&mount_table(), dir, kind, method, tool_name)
}

/// The route that the program of a request stands for.
pub open spec fn program_route(program: Option<EventProgramId>, method: Seq<char>) -> Route {
    match program {
        Some(EventProgramId::CacheInitializeView) => Route::McpData(McpDataKey::Initialize),
        Some(EventProgramId::CacheToolsList) => Route::McpData(McpDataKey::ToolsList),
        Some(EventProgramId::CachePromptsList) => Route::McpData(McpDataKey::PromptsList),
        Some(EventProgramId::CacheResourcesList) => Route::McpData(McpDataKey::ResourcesList),
        Some(EventProgramId::CacheResourceTemplatesList) => Route::McpData(
            McpDataKey::ResourceTemplatesList,
        ),
        Some(EventProgramId::LocalPing) => Route::Local,
        Some(EventProgramId::LegacyBackendHook) => match control_of(method) {
            Some(control) => Route::WrapperControl(control),
            None => Route::PassThrough,
        },
        _ => Route::PassThrough,
    }
}

pub open spec fn mount_program(entry: Option<MountView>) -> Option<EventProgramId> {
    match entry {
        Some(e) => Some(e.program),
        None => None,
    }
}

/// The route of a client's request, read off the table.
pub fn route_for_client_request(method: &str) -> (route: Route)
    ensures
        route == program_route(
            mount_program(mount_of(Dir::ClientToServer, EventKind::Request, method@, None)),
            method@,
        ),
        route == route_of(method@),
{
    proof {
        law_table_routes_like_the_router(method@);
    }
    match find_mount(Dir::ClientToServer, EventKind::Request, method, None) {
        Some(entry) => match entry.program {
            EventProgramId::CacheInitializeView => Route::McpData(McpDataKey::Initialize),
            EventProgramId::CacheToolsList => Route::McpData(McpDataKey::ToolsList),
            EventProgramId::CachePromptsList => Route::McpData(McpDataKey::PromptsList),
            EventProgramId::CacheResourcesList => Route::McpData(McpDataKey::ResourcesList),
            EventProgramId::CacheResourceTemplatesList => Route::McpData(
                McpDataKey::ResourceTemplatesList,
            ),
            EventProgramId::LocalPing => Route::Local,
            EventProgramId::LegacyBackendHook => legacy_control_route(method),
            _ => Route::PassThrough,
        },
        None => Route::PassThrough,
    }
}

/// The route of a control method.
pub fn legacy_control_route(method: &str) -> (route: Route)
    ensures
        route == (match control_of(method@) {
            Some(control) => Route::WrapperControl(control),
            None => Route::PassThrough,
        }),
{
    match control_for_method(method) {
        Some(control) => Route::WrapperControl(control),
        None => Route::PassThrough,
    }
}

/// A call of the proxy's own tool.
pub open spec fn wrapper_call(raw: JsonView) -> bool {
    &&& str_of(field(raw, "method"@)) == Some("tools/call"@)
    &&& str_of(opt_field(field(raw, "params"@), "name"@)) == Some("mcp.wrapper"@)
}

/// Whether a request calls the proxy's own tool.
pub fn is_wrapper_tool_request(raw: &Json) -> (b: bool)
    ensures
        b == wrapper_call(raw@),
{
    let is_call = match field_text(raw.get("method")) {
        Some(method) => text_eq(method, "tools/call"),
        None => false,
    };
    if !is_call {
        return false;
    }
    let tool_name = field_text(subfield(raw.get("params"), "name"));
    proof {
        lemma_tools_call_mount(crate::json::opt_str(tool_name));
    }
    match find_mount(Dir::ClientToServer, EventKind::Request, "tools/call", tool_name) {
        Some(entry) => entry.program == EventProgramId::InvokeWrapperTool,
        None => false,
    }
}

/// The program that handles a notification.
pub fn notification_program(dir: Dir, method: &str) -> (program: Option<EventProgramId>)
    ensures
        program == mount_program(mount_of(dir, EventKind::Notification, method@, None)),
        program == notification_program_of(dir, method@),
{
    proof {
        lemma_notification_entry(dir, method@);
    }
    match find_mount(dir, EventKind::Notification, method, None) {
        Some(entry) => Some(entry.program),
        None => None,
    }
}

/// The program of each notification, spelled out.
pub open spec fn notification_program_of(dir: Dir, method: Seq<char>) -> Option<EventProgramId> {
    if method == "notifications/cancelled"@ {
        Some(EventProgramId::CancelRequest)
    } else if method == "notifications/progress"@ {
        Some(EventProgramId::ProgressRequest)
    } else {
        match dir {
            Dir::ClientToServer => if method == "notifications/initialized"@ {
                Some(EventProgramId::DropClientInitialized)
            } else if method == "notifications/roots/list_changed"@ {
                Some(EventProgramId::PassNotification)
            } else {
                None
            },
            Dir::ServerToClient => if method == "notifications/tools/list_changed"@ || method
                == "notifications/prompts/list_changed"@ || method
                == "notifications/resources/list_changed"@ {
                Some(EventProgramId::RefreshCacheThenPass)
            } else if method == "notifications/resources/updated"@ || method
                == "notifications/message"@ {
                Some(EventProgramId::PassNotification)
            } else {
                None
            },
        }
    }
}

/// The discovery answers that a notification of the backend makes stale.
pub open spec fn stale_keys(method: Seq<char>) -> Seq<McpDataKey> {
    if method == "notifications/tools/list_changed"@ {
        seq![McpDataKey::ToolsList]
    } else if method == "notifications/prompts/list_changed"@ {
        seq![McpDataKey::PromptsList]
    } else if method == "notifications/resources/list_changed"@ {
        seq![McpDataKey::ResourcesList, McpDataKey::ResourceTemplatesList]
    } else {
        seq![]
    }
}

/// The discovery answers that a notification of the backend makes stale.
pub fn list_changed_data_keys(method: &str) -> (keys: Vec<McpDataKey>)
    ensures
        keys@ == stale_keys(method@),
{
    proof {
        lemma_notification_entry(Dir::ServerToClient, method@);
        lemma_table_literals();
    }
    let mut keys: Vec<McpDataKey> = Vec::new();
    let entry = match find_mount(Dir::ServerToClient, EventKind::Notification, method, None) {
        Some(entry) => entry,
        None => {
            return keys;
        },
    };
    if entry.program != EventProgramId::RefreshCacheThenPass {
        return keys;
    }
    match entry.cache_refresh_target {
        Some(CacheRefreshTarget::Tools) => {
            keys.push(McpDataKey::ToolsList);
        },
        Some(CacheRefreshTarget::Prompts) => {
            keys.push(McpDataKey::PromptsList);
        },
        Some(CacheRefreshTarget::Resources) => {
            keys.push(McpDataKey::ResourcesList);
            keys.push(McpDataKey::ResourceTemplatesList);
        },
        None => {},
    }
    assert(keys@ =~= stale_keys(method@));
    keys
}

/// The notifications that announce changed lists, in the order of the table.
pub open spec fn list_changed_methods() -> Seq<Seq<char>> {
    seq![
        "notifications/tools/list_changed"@,
        "notifications/prompts/list_changed"@,
        "notifications/resources/list_changed"@,
    ]
}

pub open spec fn strs_view(v: Seq<&'static str>) -> Seq<Seq<char>> {
    Seq::new(v.len(), |i: int| v[i]@)
}

/// The methods of the entries from `0` to `n` that run a program.
pub open spec fn methods_of_program(
    table: Seq<MountView>,
    n: int,
    program: EventProgramId,
) -> Seq<Seq<char>>
    decreases n,
{
    if n <= 0 {
        Seq::empty()
    } else {
        let before = methods_of_program(table, n - 1, program);
        if table[n - 1].program == program {
            before.push(table[n - 1].key.method)
        } else {
            before
        }
    }
}

/// The notifications that announce changed lists.
pub fn list_changed_notification_methods() -> (methods: Vec<&'static str>)
    ensures
        strs_view(methods@) == list_changed_methods(),
{
    let table = mount_table();
    let mut methods: Vec<&'static str> = Vec::new();
    let mut i: usize = 0;
    assert(strs_view(methods@) =~= Seq::empty());
    while i < table.len()
        invariant
            i <= table@.len(),
            strs_view(methods@) == methods_of_program(
                table_view(table@),
                i as int,
                EventProgramId::RefreshCacheThenPass,
            ),
        decreases table@.len() - i,
    {
        let ghost before = methods@;
        if table[i].program == EventProgramId::RefreshCacheThenPass {
            methods.push(table[i].key.method);
            assert(strs_view(methods@) =~= strs_view(before).push(table_view(table@)[i as int].key.method));
        }
        i = i + 1;
    }
    proof {
        lemma_list_changed_methods();
    }
    methods
}

/// Whether a client's notification ends at the proxy.
pub fn should_drop_client_notification(method: &str) -> (b: bool)
    ensures
        b == (method@ == "notifications/initialized"@),
{
    proof {
        lemma_notification_entry(Dir::ClientToServer, method@);
    }
    match find_mount(Dir::ClientToServer, EventKind::Notification, method, None) {
        Some(entry) => entry.outcome == Outcome::Drop,
        None => false,
    }
}

/// The literals of the table: each length, and a letter where lengths agree.
proof fn lemma_table_literals()
    ensures
        "initialize"@.len() == 10,
        "notifications/initialized"@.len() == 25,
        "ping"@.len() == 4,
        "tools/list"@.len() == 10,
        "prompts/list"@.len() == 12,
        "resources/list"@.len() == 14,
        "resources/templates/list"@.len() == 24,
        "tools/call"@.len() == 10,
        "mcp.wrapper"@.len() == 11,
        "prompts/get"@.len() == 11,
        "resources/read"@.len() == 14,
        "resources/subscribe"@.len() == 19,
        "resources/unsubscribe"@.len() == 21,
        "completion/complete"@.len() == 19,
        "logging/setLevel"@.len() == 16,
        "sampling/createMessage"@.len() == 22,
        "roots/list"@.len() == 10,
        "elicitation/create"@.len() == 18,
        "notifications/cancelled"@.len() == 23,
        "notifications/progress"@.len() == 22,
        "notifications/tools/list_changed"@.len() == 32,
        "notifications/prompts/list_changed"@.len() == 34,
        "notifications/resources/list_changed"@.len() == 36,
        "notifications/resources/updated"@.len() == 31,
        "notifications/message"@.len() == 21,
        "notifications/roots/list_changed"@.len() == 32,
        "mcp-wrapper/backend/*"@.len() == 21,
        "mcp-wrapper/backend/"@.len() == 20,
        "initialize"@ != "tools/list"@,
        "initialize"@ != "tools/call"@,
        "initialize"@ != "roots/list"@,
        "tools/list"@ != "tools/call"@,
        "tools/list"@ != "roots/list"@,
        "resources/list"@ != "resources/read"@,
        "tools/call"@ != "roots/list"@,
        "mcp.wrapper"@ != "prompts/get"@,
        "resources/subscribe"@ != "completion/complete"@,
        "resources/unsubscribe"@ != "notifications/message"@,
        "resources/unsubscribe"@ != "mcp-wrapper/backend/*"@,
        "sampling/createMessage"@ != "notifications/progress"@,
        "notifications/tools/list_changed"@ != "notifications/roots/list_changed"@,
        "notifications/message"@ != "mcp-wrapper/backend/*"@,
{
    reveal_strlit("initialize");
    reveal_strlit("notifications/initialized");
    reveal_strlit("ping");
    reveal_strlit("tools/list");
    reveal_strlit("prompts/list");
    reveal_strlit("resources/list");
    reveal_strlit("resources/templates/list");
    reveal_strlit("tools/call");
    reveal_strlit("mcp.wrapper");
    reveal_strlit("prompts/get");
    reveal_strlit("resources/read");
    reveal_strlit("resources/subscribe");
    reveal_strlit("resources/unsubscribe");
    reveal_strlit("completion/complete");
    reveal_strlit("logging/setLevel");
    reveal_strlit("sampling/createMessage");
    reveal_strlit("roots/list");
    reveal_strlit("elicitation/create");
    reveal_strlit("notifications/cancelled");
    reveal_strlit("notifications/progress");
    reveal_strlit("notifications/tools/list_changed");
    reveal_strlit("notifications/prompts/list_changed");
    reveal_strlit("notifications/resources/list_changed");
    reveal_strlit("notifications/resources/updated");
    reveal_strlit("notifications/message");
    reveal_strlit("notifications/roots/list_changed");
    reveal_strlit("mcp-wrapper/backend/*");
    reveal_strlit("mcp-wrapper/backend/");
    assert("initialize"@[0] != "tools/list"@[0]);
    assert("initialize"@[0] != "tools/call"@[0]);
    assert("initialize"@[0] != "roots/list"@[0]);
    assert("tools/list"@[6] != "tools/call"@[6]);
    assert("tools/list"@[0] != "roots/list"@[0]);
    assert("resources/list"@[10] != "resources/read"@[10]);
    assert("tools/call"@[0] != "roots/list"@[0]);
    assert("mcp.wrapper"@[0] != "prompts/get"@[0]);
    assert("resources/subscribe"@[0] != "completion/complete"@[0]);
    assert("resources/unsubscribe"@[0] != "notifications/message"@[0]);
    assert("resources/unsubscribe"@[0] != "mcp-wrapper/backend/*"@[0]);
    assert("sampling/createMessage"@[0] != "notifications/progress"@[0]);
    assert("notifications/tools/list_changed"@[14] != "notifications/roots/list_changed"@[14]);
    assert("notifications/message"@[0] != "mcp-wrapper/backend/*"@[0]);
}

/// Every control method begins with the prefix that the table mounts, and no other
/// method of the table does.
proof fn lemma_control_prefix(method: Seq<char>)
    ensures
        control_of(method) is Some ==> "mcp-wrapper/backend/"@.is_prefix_of(method),
        "mcp-wrapper/backend/"@.is_prefix_of(method) ==> method.len() >= 20 && method[0] == 'm',
{
    reveal_strlit("mcp-wrapper/backend/");
    reveal_strlit("mcp-wrapper/backend/status");
    reveal_strlit("mcp-wrapper/backend/refresh");
    reveal_strlit("mcp-wrapper/backend/restart");
    reveal_strlit("mcp-wrapper/backend/stop");
    reveal_strlit("mcp-wrapper/backend/ping");
    let p = "mcp-wrapper/backend/"@;
    assert(p.len() == 20);
    assert(p[0] == 'm');
    assert("mcp-wrapper/backend/status"@.subrange(0, 20) =~= p);
    assert("mcp-wrapper/backend/refresh"@.subrange(0, 20) =~= p);
    assert("mcp-wrapper/backend/restart"@.subrange(0, 20) =~= p);
    assert("mcp-wrapper/backend/stop"@.subrange(0, 20) =~= p);
    assert("mcp-wrapper/backend/ping"@.subrange(0, 20) =~= p);
    if p.is_prefix_of(method) {
        assert(method.subrange(0, 20)[0] == method[0]);
    }
}

/// An entry that matches, with none before it, is the one that is found.
proof fn lemma_first_at(
    table: Seq<MountView>,
    from: int,
    at: int,
    dir: Dir,
    kind: EventKind,
    method: Seq<char>,
    tool: Option<Seq<char>>,
)
    requires
        0 <= from <= at < table.len(),
        mount_matches(table[at], dir, kind, method, tool),
        forall|j: int|
            from <= j < at ==> !mount_matches(#[trigger] table[j], dir, kind, method, tool),
    ensures
        first_mount(table, from, dir, kind, method, tool) == Some(table[at]),
    decreases at - from,
{
    if from < at {
        lemma_first_at(table, from + 1, at, dir, kind, method, tool);
    }
}

/// Where no entry matches, none is found.
proof fn lemma_first_none(
    table: Seq<MountView>,
    from: int,
    dir: Dir,
    kind: EventKind,
    method: Seq<char>,
    tool: Option<Seq<char>>,
)
    requires
        0 <= from <= table.len(),
        forall|j: int|
            from <= j < table.len() ==> !mount_matches(
                #[trigger] table[j],
                dir,
                kind,
                method,
                tool,
            ),
    ensures
        first_mount(table, from, dir, kind, method, tool) is None,
    decreases table.len() - from,
{
    if from < table.len() {
        lemma_first_none(table, from + 1, dir, kind, method, tool);
    }
}

/// The methods of the client's requests in the table: none begins like a control
/// method.
proof fn lemma_request_initials()
    ensures
        "initialize"@.len() > 0 && "initialize"@[0] != 'm',
        "ping"@.len() > 0 && "ping"@[0] != 'm',
        "tools/list"@.len() > 0 && "tools/list"@[0] != 'm',
        "prompts/list"@.len() > 0 && "prompts/list"@[0] != 'm',
        "resources/list"@.len() > 0 && "resources/list"@[0] != 'm',
        "resources/templates/list"@.len() > 0 && "resources/templates/list"@[0] != 'm',
        "tools/call"@.len() > 0 && "tools/call"@[0] != 'm',
        "prompts/get"@.len() > 0 && "prompts/get"@[0] != 'm',
        "resources/read"@.len() > 0 && "resources/read"@[0] != 'm',
        "resources/subscribe"@.len() > 0 && "resources/subscribe"@[0] != 'm',
        "resources/unsubscribe"@.len() > 0 && "resources/unsubscribe"@[0] != 'm',
        "completion/complete"@.len() > 0 && "completion/complete"@[0] != 'm',
        "logging/setLevel"@.len() > 0 && "logging/setLevel"@[0] != 'm',
{
    reveal_strlit("initialize");
    reveal_strlit("ping");
    reveal_strlit("tools/list");
    reveal_strlit("prompts/list");
    reveal_strlit("resources/list");
    reveal_strlit("resources/templates/list");
    reveal_strlit("tools/call");
    reveal_strlit("prompts/get");
    reveal_strlit("resources/read");
    reveal_strlit("resources/subscribe");
    reveal_strlit("resources/unsubscribe");
    reveal_strlit("completion/complete");
    reveal_strlit("logging/setLevel");
}

/// The route read off the table is the route of the router, for every method.
#[verifier::rlimit(60)]
#[verifier::spinoff_prover]
pub proof fn law_table_routes_like_the_router(method: Seq<char>)
    ensures
        program_route(
            mount_program(mount_of(Dir::ClientToServer, EventKind::Request, method, None)),
            method,
        ) == route_of(method),
{
    lemma_table_literals();
    lemma_request_initials();
    lemma_control_prefix(method);
    let t = mounts();
    let d = Dir::ClientToServer;
    let k = EventKind::Request;
    if method == "initialize"@ {
        lemma_first_at(t, 0, 0, d, k, method, None);
    } else if method == "ping"@ {
        lemma_first_at(t, 0, 2, d, k, method, None);
    } else if method == "tools/list"@ {
        lemma_first_at(t, 0, 4, d, k, method, None);
    } else if method == "prompts/list"@ {
        lemma_first_at(t, 0, 5, d, k, method, None);
    } else if method == "resources/list"@ {
        lemma_first_at(t, 0, 6, d, k, method, None);
    } else if method == "resources/templates/list"@ {
        lemma_first_at(t, 0, 7, d, k, method, None);
    } else if method == "tools/call"@ {
        lemma_first_at(t, 0, 9, d, k, method, None);
    } else if method == "prompts/get"@ {
        lemma_first_at(t, 0, 10, d, k, method, None);
    } else if method == "resources/read"@ {
        lemma_first_at(t, 0, 11, d, k, method, None);
    } else if method == "resources/subscribe"@ {
        lemma_first_at(t, 0, 12, d, k, method, None);
    } else if method == "resources/unsubscribe"@ {
        lemma_first_at(t, 0, 13, d, k, method, None);
    } else if method == "completion/complete"@ {
        lemma_first_at(t, 0, 14, d, k, method, None);
    } else if method == "logging/setLevel"@ {
        lemma_first_at(t, 0, 15, d, k, method, None);
    } else if "mcp-wrapper/backend/"@.is_prefix_of(method) {
        lemma_first_at(t, 0, 29, d, k, method, None);
    } else {
        lemma_first_none(t, 0, d, k, method, None);
    }
}

/// A tool call is the proxy's own exactly where it names the proxy's tool.
#[verifier::spinoff_prover]
proof fn lemma_tools_call_mount(tool: Option<Seq<char>>)
    ensures
        mount_program(mount_of(Dir::ClientToServer, EventKind::Request, "tools/call"@, tool)) == (
        if tool == Some("mcp.wrapper"@) {
            Some(EventProgramId::InvokeWrapperTool)
        } else {
            Some(EventProgramId::ClientRequestThenPass)
        }),
{
    lemma_table_literals();
    let t = mounts();
    let d = Dir::ClientToServer;
    let k = EventKind::Request;
    if tool == Some("mcp.wrapper"@) {
        lemma_first_at(t, 0, 8, d, k, "tools/call"@, tool);
    } else {
        lemma_first_at(t, 0, 9, d, k, "tools/call"@, tool);
    }
}

/// The entry of each notification.
#[verifier::rlimit(40)]
#[verifier::spinoff_prover]
proof fn lemma_notification_entry(dir: Dir, method: Seq<char>)
    ensures
        match mount_of(dir, EventKind::Notification, method, None) {
            Some(e) => {
                &&& Some(e.program) == notification_program_of(dir, method)
                &&& (e.outcome == Outcome::Drop) == (dir == Dir::ClientToServer && method
                    == "notifications/initialized"@)
                &&& dir == Dir::ServerToClient ==> e.cache_refresh_target == refresh_target(method)
            },
            None => notification_program_of(dir, method) is None,
        },
{
    lemma_table_literals();
    let t = mounts();
    let k = EventKind::Notification;
    match dir {
        Dir::ClientToServer => {
            if method == "notifications/initialized"@ {
                lemma_first_at(t, 0, 1, dir, k, method, None);
            } else if method == "notifications/cancelled"@ {
                lemma_first_at(t, 0, 19, dir, k, method, None);
            } else if method == "notifications/progress"@ {
                lemma_first_at(t, 0, 21, dir, k, method, None);
            } else if method == "notifications/roots/list_changed"@ {
                lemma_first_at(t, 0, 28, dir, k, method, None);
            } else {
                lemma_first_none(t, 0, dir, k, method, None);
            }
        },
        Dir::ServerToClient => {
            if method == "notifications/cancelled"@ {
                lemma_first_at(t, 0, 20, dir, k, method, None);
            } else if method == "notifications/progress"@ {
                lemma_first_at(t, 0, 22, dir, k, method, None);
            } else if method == "notifications/tools/list_changed"@ {
                lemma_first_at(t, 0, 23, dir, k, method, None);
            } else if method == "notifications/prompts/list_changed"@ {
                lemma_first_at(t, 0, 24, dir, k, method, None);
            } else if method == "notifications/resources/list_changed"@ {
                lemma_first_at(t, 0, 25, dir, k, method, None);
            } else if method == "notifications/resources/updated"@ {
                lemma_first_at(t, 0, 26, dir, k, method, None);
            } else if method == "notifications/message"@ {
                lemma_first_at(t, 0, 27, dir, k, method, None);
            } else {
                lemma_first_none(t, 0, dir, k, method, None);
            }
        },
    }
}

pub open spec fn refresh_target(method: Seq<char>) -> Option<CacheRefreshTarget> {
    if method == "notifications/tools/list_changed"@ {
        Some(CacheRefreshTarget::Tools)
    } else if method == "notifications/prompts/list_changed"@ {
        Some(CacheRefreshTarget::Prompts)
    } else if method == "notifications/resources/list_changed"@ {
        Some(CacheRefreshTarget::Resources)
    } else {
        None
    }
}

proof fn lemma_list_changed_methods()
    ensures
        methods_of_program(
            mounts(),
            mounts().len() as int,
            EventProgramId::RefreshCacheThenPass,
        ) == list_changed_methods(),
{
    reveal_with_fuel(methods_of_program, 31);
    assert(methods_of_program(
        mounts(),
        mounts().len() as int,
        EventProgramId::RefreshCacheThenPass,
    ) =~= list_changed_methods());
}

/// The message of a failed check.
pub open spec fn fault_of(r: Result<(), String>) -> Option<Seq<char>> {
    match r {
        Ok(_) => None,
        Err(message) => Some(message@),
    }
}

pub open spec fn dir_name(dir: Dir) -> Seq<char> {
    match dir {
        Dir::ClientToServer => "ClientToServer"@,
        Dir::ServerToClient => "ServerToClient"@,
    }
}

pub open spec fn kind_name(kind: EventKind) -> Seq<char> {
    match kind {
        EventKind::Request => "Request"@,
        EventKind::Notification => "Notification"@,
    }
}

pub open spec fn missing_message(key: KeyView) -> Seq<char> {
    "missing mount entry for "@ + dir_name(key.dir) + " "@ + kind_name(key.kind) + " "@ + key.method
}

/// The first of the keys from `i` on that no entry handles.
pub open spec fn missing_fault(table: Seq<MountView>, keys: Seq<KeyView>, i: int) -> Option<Seq<char>>
    decreases keys.len() - i,
{
    if i < 0 || i >= keys.len() {
        None
    } else if first_mount(table, 0, keys[i].dir, keys[i].kind, keys[i].method, None) is None {
        Some(missing_message(keys[i]))
    } else {
        missing_fault(table, keys, i + 1)
    }
}

/// Checks that every key has an entry.
pub fn verify_spec_completeness(table: &Vec<MountEntry>, keys: &Vec<EventKey>) -> (r: Result<
    (),
    String,
>)
    ensures
        fault_of(r) == missing_fault(table_view(table@), keys_view(keys@), 0),
{
    let mut i: usize = 0;
    while i < keys.len()
        invariant
            i <= keys@.len(),
            missing_fault(table_view(table@), keys_view(keys@), 0) == missing_fault(
                table_view(table@),
                keys_view(keys@),
                i as int,
            ),
        decreases keys@.len() - i,
    {
        let key = keys[i];
        if find_in(table, key.dir, key.kind, key.method, None).is_none() {
            let mut message = join(
                "missing mount entry for ",
                match key.dir {
                    Dir::ClientToServer => "ClientToServer",
                    Dir::ServerToClient => "ServerToClient",
                },
            );
            message.append(" ");
            message.append(
                match key.kind {
                    EventKind::Request => "Request",
                    EventKind::Notification => "Notification",
                },
            );
            message.append(" ");
            message.append(key.method);
            return Err(message);
        }
        i = i + 1;
    }
    Ok(())
}

fn same_key(a: &EventKey, b: &EventKey) -> (same: bool)
    ensures
        same == (a@ == b@),
{
    a.dir == b.dir && a.kind == b.kind && text_eq(a.method, b.method) && same_selector(
        &a.selector,
        &b.selector,
    )
}

fn same_selector(a: &Selector, b: &Selector) -> (same: bool)
    ensures
        same == (a@ == b@),
{
    match (a, b) {
        (Selector::Any, Selector::Any) => true,
        (Selector::ToolName(x), Selector::ToolName(y)) => text_eq(x, y),
        (Selector::LegacyMethodPrefix(x), Selector::LegacyMethodPrefix(y)) => text_eq(x, y),
        _ => false,
    }
}

/// The first entry from `i` on whose key comes back later.
pub open spec fn duplicate_fault(table: Seq<MountView>, i: int) -> Option<Seq<char>>
    decreases table.len() - i,
{
    if i < 0 || i >= table.len() {
        None
    } else if exists|j: int| i < j < table.len() && (#[trigger] table[j]).key == table[i].key {
        Some("duplicate mount entry for "@ + table[i].key.method)
    } else {
        duplicate_fault(table, i + 1)
    }
}

pub open spec fn is_wrapper_entry(entry: MountView) -> bool {
    entry.key.selector == SelectorView::ToolName("mcp.wrapper"@)
}

pub open spec fn is_generic_call(entry: MountView) -> bool {
    entry.key == key_view(Dir::ClientToServer, EventKind::Request, "tools/call"@)
}

/// The place of the first entry from `i` on that is for the proxy's tool
/// (`wrapper`) or for any other tool call.
pub open spec fn place_of(table: Seq<MountView>, wrapper: bool, i: int) -> Option<int>
    decreases table.len() - i,
{
    if i < 0 || i >= table.len() {
        None
    } else if wrapper && is_wrapper_entry(table[i]) || !wrapper && is_generic_call(table[i]) {
        Some(i)
    } else {
        place_of(table, wrapper, i + 1)
    }
}

/// What is wrong with the selectors of a table, if anything.
pub open spec fn selector_fault(table: Seq<MountView>) -> Option<Seq<char>> {
    match (duplicate_fault(table, 0), place_of(table, true, 0), place_of(table, false, 0)) {
        (Some(message), _, _) => Some(message),
        (None, None, _) => Some("missing mcp.wrapper selector"@),
        (None, Some(_), None) => Some("missing generic tools/call selector"@),
        (None, Some(wrapper), Some(generic)) => if wrapper > generic {
            Some("mcp.wrapper selector must be mounted before generic tools/call"@)
        } else {
            None
        },
    }
}

fn place(table: &Vec<MountEntry>, wrapper: bool) -> (found: Option<usize>)
    ensures
        match found {
            Some(i) => place_of(table_view(table@), wrapper, 0) == Some(i as int),
            None => place_of(table_view(table@), wrapper, 0) is None,
        },
{
    let mut i: usize = 0;
    while i < table.len()
        invariant
            i <= table@.len(),
            place_of(table_view(table@), wrapper, 0) == place_of(
                table_view(table@),
                wrapper,
                i as int,
            ),
        decreases table@.len() - i,
    {
        let key = table[i].key;
        let hit = if wrapper {
            same_selector(&key.selector, &Selector::ToolName("mcp.wrapper"))
        } else {
            same_key(&key, &plain_key(Dir::ClientToServer, EventKind::Request, "tools/call"))
        };
        if hit {
            return Some(i);
        }
        i = i + 1;
    }
    None
}

/// Checks that no key occurs twice and that the proxy's tool comes before the
/// other tool calls.
pub fn verify_selector_uniqueness(table: &Vec<MountEntry>) -> (r: Result<(), String>)
    ensures
        fault_of(r) == selector_fault(table_view(table@)),
{
    let ghost view = table_view(table@);
    let mut i: usize = 0;
    while i < table.len()
        invariant
            i <= table@.len(),
            view == table_view(table@),
            duplicate_fault(view, 0) == duplicate_fault(view, i as int),
        decreases table@.len() - i,
    {
        let left = table[i];
        let mut j: usize = i + 1;
        while j < table.len()
            invariant
                i < j <= table@.len(),
                left == table@[i as int],
                view == table_view(table@),
                duplicate_fault(view, 0) == duplicate_fault(view, i as int),
                forall|k: int| i < k < j ==> (#[trigger] view[k]).key != view[i as int].key,
            decreases table@.len() - j,
        {
            if same_key(&left.key, &table[j].key) {
                assert(view[j as int].key == view[i as int].key);
                return Err(join("duplicate mount entry for ", left.key.method));
            }
            j = j + 1;
        }
        i = i + 1;
    }
    let wrapper_tool = match place(table, true) {
        Some(i) => i,
        None => {
            return Err("missing mcp.wrapper selector".to_owned());
        },
    };
    let generic_tool_call = match place(table, false) {
        Some(i) => i,
        None => {
            return Err("missing generic tools/call selector".to_owned());
        },
    };
    if wrapper_tool > generic_tool_call {
        return Err("mcp.wrapper selector must be mounted before generic tools/call".to_owned());
    }
    Ok(())
}

pub open spec fn is_cache_program(program: EventProgramId) -> bool {
    ||| program == EventProgramId::CacheInitializeView
    ||| program == EventProgramId::CacheToolsList
    ||| program == EventProgramId::CachePromptsList
    ||| program == EventProgramId::CacheResourcesList
    ||| program == EventProgramId::CacheResourceTemplatesList
}

pub open spec fn is_lifetime_program(program: EventProgramId) -> bool {
    ||| program == EventProgramId::CancelRequest
    ||| program == EventProgramId::ProgressRequest
    ||| program == EventProgramId::ClientRequestThenPass
    ||| program == EventProgramId::PeerRequestThenPass
}

/// The first rule that an entry breaks, if any: a notification has no answer, a
/// pass program passes, and cache and lifetime programs stay in their class.
pub open spec fn entry_fault(entry: MountView) -> Option<Seq<char>> {
    if entry.key.kind == EventKind::Notification && (entry.outcome == Outcome::Respond
        || entry.outcome == Outcome::Reject) {
        Some("notification program responds: "@ + entry.key.method)
    } else if entry.program_class == ProgramClass::Pass && entry.outcome != Outcome::Pass {
        Some("pass program has non-pass outcome: "@ + entry.key.method)
    } else if is_cache_program(entry.program) && entry.program_class != ProgramClass::Cache {
        Some("cache program outside cache class: "@ + entry.key.method)
    } else if is_lifetime_program(entry.program) && entry.program_class != ProgramClass::Lifetime {
        Some("lifetime program outside lifetime class: "@ + entry.key.method)
    } else {
        None
    }
}

/// The first broken rule from entry `i` on.
pub open spec fn legality_fault(table: Seq<MountView>, i: int) -> Option<Seq<char>>
    decreases table.len() - i,
{
    if i < 0 || i >= table.len() {
        None
    } else {
        match entry_fault(table[i]) {
            Some(message) => Some(message),
            None => legality_fault(table, i + 1),
        }
    }
}

/// Checks that every entry keeps the rules of its program.
pub fn verify_program_legality(table: &Vec<MountEntry>) -> (r: Result<(), String>)
    ensures
        fault_of(r) == legality_fault(table_view(table@), 0),
{
    let mut i: usize = 0;
    while i < table.len()
        invariant
            i <= table@.len(),
            legality_fault(table_view(table@), 0) == legality_fault(table_view(table@), i as int),
        decreases table@.len() - i,
    {
        let entry = table[i];
        if entry.key.kind == EventKind::Notification && (entry.outcome == Outcome::Respond
            || entry.outcome == Outcome::Reject) {
            return Err(join("notification program responds: ", entry.key.method));
        }
        if entry.program_class == ProgramClass::Pass && entry.outcome != Outcome::Pass {
            return Err(join("pass program has non-pass outcome: ", entry.key.method));
        }
        let cache_program = match entry.program {
            EventProgramId::CacheInitializeView
            | EventProgramId::CacheToolsList
            | EventProgramId::CachePromptsList
            | EventProgramId::CacheResourcesList
            | EventProgramId::CacheResourceTemplatesList => true,
            _ => false,
        };
        if cache_program && entry.program_class != ProgramClass::Cache {
            return Err(join("cache program outside cache class: ", entry.key.method));
        }
        let lifetime_program = match entry.program {
            EventProgramId::CancelRequest
            | EventProgramId::ProgressRequest
            | EventProgramId::ClientRequestThenPass
            | EventProgramId::PeerRequestThenPass => true,
            _ => false,
        };
        if lifetime_program && entry.program_class != ProgramClass::Lifetime {
            return Err(join("lifetime program outside lifetime class: ", entry.key.method));
        }
        i = i + 1;
    }
    Ok(())
}

/// An entry names a part of the cache exactly where its program refreshes it.
pub open spec fn target_fault(entry: MountView) -> Option<Seq<char>> {
    if entry.program == EventProgramId::RefreshCacheThenPass
        && entry.cache_refresh_target is None {
        Some("refresh program missing cache target for "@ + entry.key.method)
    } else if entry.program != EventProgramId::RefreshCacheThenPass
        && entry.cache_refresh_target is Some {
        Some("non-refresh program has cache target for "@ + entry.key.method)
    } else {
        None
    }
}

/// The first wrong target from entry `i` on.
pub open spec fn targets_fault(table: Seq<MountView>, i: int) -> Option<Seq<char>>
    decreases table.len() - i,
{
    if i < 0 || i >= table.len() {
        None
    } else {
        match target_fault(table[i]) {
            Some(message) => Some(message),
            None => targets_fault(table, i + 1),
        }
    }
}

/// Checks that the refresh programs, and no others, name a part of the cache.
pub fn verify_cache_refresh_targets(table: &Vec<MountEntry>) -> (r: Result<(), String>)
    ensures
        fault_of(r) == targets_fault(table_view(table@), 0),
{
    let mut i: usize = 0;
    while i < table.len()
        invariant
            i <= table@.len(),
            targets_fault(table_view(table@), 0) == targets_fault(table_view(table@), i as int),
        decreases table@.len() - i,
    {
        let entry = table[i];
        if entry.program == EventProgramId::RefreshCacheThenPass
            && entry.cache_refresh_target.is_none() {
            return Err(join("refresh program missing cache target for ", entry.key.method));
        }
        if entry.program != EventProgramId::RefreshCacheThenPass
            && entry.cache_refresh_target.is_some() {
            return Err(join("non-refresh program has cache target for ", entry.key.method));
        }
        i = i + 1;
    }
    Ok(())
}

/// What is wrong with a table, if anything: the first check that fails.
pub open spec fn table_fault(table: Seq<MountView>, keys: Seq<KeyView>) -> Option<Seq<char>> {
    match (
        missing_fault(table, keys, 0),
        selector_fault(table),
        legality_fault(table, 0),
        targets_fault(table, 0),
    ) {
        (Some(message), _, _, _) => Some(message),
        (None, Some(message), _, _) => Some(message),
        (None, None, Some(message), _) => Some(message),
        (None, None, None, fault) => fault,
    }
}

/// Runs every check on a table.
pub fn verify_table(table: &Vec<MountEntry>, keys: &Vec<EventKey>) -> (r: Result<(), String>)
    ensures
        fault_of(r) == table_fault(table_view(table@), keys_view(keys@)),
{
    match verify_spec_completeness(table, keys) {
        Err(message) => {
            return Err(message);
        },
        Ok(_) => {},
    }
    match verify_selector_uniqueness(table) {
        Err(message) => {
            return Err(message);
        },
        Ok(_) => {},
    }
    match verify_program_legality(table) {
        Err(message) => {
            return Err(message);
        },
        Ok(_) => {},
    }
    verify_cache_refresh_targets(table)
}

/// Runs every check on the table of this proxy: it passes them all.
pub fn verify_mount_table() -> (r: Result<(), String>)
    ensures
        fault_of(r) == table_fault(mounts(), spec_keys()),
        r is Ok,
{
    proof {
        law_table_is_sound();
    }
    verify_table(&mount_table(), &spec_event_keys())
}

proof fn lemma_some_mount(
    table: Seq<MountView>,
    from: int,
    at: int,
    key: KeyView,
)
    requires
        0 <= from <= at < table.len(),
        mount_matches(table[at], key.dir, key.kind, key.method, None),
    ensures
        first_mount(table, from, key.dir, key.kind, key.method, None) is Some,
    decreases at - from,
{
    if from < at {
        lemma_some_mount(table, from + 1, at, key);
    }
}

proof fn lemma_nothing_missing(table: Seq<MountView>, keys: Seq<KeyView>, i: int)
    requires
        0 <= i <= keys.len(),
        forall|j: int|
            0 <= j < keys.len() ==> first_mount(
                table,
                0,
                (#[trigger] keys[j]).dir,
                keys[j].kind,
                keys[j].method,
                None,
            ) is Some,
    ensures
        missing_fault(table, keys, i) is None,
    decreases keys.len() - i,
{
    if i < keys.len() {
        lemma_nothing_missing(table, keys, i + 1);
    }
}

proof fn lemma_no_duplicates(table: Seq<MountView>, i: int)
    requires
        0 <= i <= table.len(),
        forall|a: int, b: int|
            0 <= a < b < table.len() ==> (#[trigger] table[a]).key != (#[trigger] table[b]).key,
    ensures
        duplicate_fault(table, i) is None,
    decreases table.len() - i,
{
    if i < table.len() {
        lemma_no_duplicates(table, i + 1);
    }
}

proof fn lemma_all_entries_legal(table: Seq<MountView>, i: int)
    requires
        0 <= i <= table.len(),
        forall|j: int|
            0 <= j < table.len() ==> entry_fault(#[trigger] table[j]) is None && target_fault(
                table[j],
            ) is None,
    ensures
        legality_fault(table, i) is None,
        targets_fault(table, i) is None,
    decreases table.len() - i,
{
    if i < table.len() {
        lemma_all_entries_legal(table, i + 1);
    }
}

proof fn lemma_place_at(table: Seq<MountView>, wrapper: bool, from: int, at: int)
    requires
        0 <= from <= at < table.len(),
        wrapper && is_wrapper_entry(table[at]) || !wrapper && is_generic_call(table[at]),
        forall|j: int|
            from <= j < at ==> !(wrapper && is_wrapper_entry(#[trigger] table[j]) || !wrapper
                && is_generic_call(table[j])),
    ensures
        place_of(table, wrapper, from) == Some(at),
    decreases at - from,
{
    if from < at {
        lemma_place_at(table, wrapper, from + 1, at);
    }
}

/// Every key that MCP names has an entry.
#[verifier::spinoff_prover]
proof fn lemma_table_is_complete()
    ensures
        missing_fault(mounts(), spec_keys(), 0) is None,
{
    let t = mounts();
    let keys = spec_keys();
    lemma_some_mount(t, 0, 0, keys[0]);
    lemma_some_mount(t, 0, 1, keys[1]);
    lemma_some_mount(t, 0, 2, keys[2]);
    lemma_some_mount(t, 0, 3, keys[3]);
    lemma_some_mount(t, 0, 4, keys[4]);
    lemma_some_mount(t, 0, 5, keys[5]);
    lemma_some_mount(t, 0, 6, keys[6]);
    lemma_some_mount(t, 0, 7, keys[7]);
    lemma_some_mount(t, 0, 9, keys[8]);
    lemma_some_mount(t, 0, 10, keys[9]);
    lemma_some_mount(t, 0, 11, keys[10]);
    lemma_some_mount(t, 0, 12, keys[11]);
    lemma_some_mount(t, 0, 13, keys[12]);
    lemma_some_mount(t, 0, 14, keys[13]);
    lemma_some_mount(t, 0, 15, keys[14]);
    lemma_some_mount(t, 0, 16, keys[15]);
    lemma_some_mount(t, 0, 17, keys[16]);
    lemma_some_mount(t, 0, 18, keys[17]);
    lemma_some_mount(t, 0, 19, keys[18]);
    lemma_some_mount(t, 0, 20, keys[19]);
    lemma_some_mount(t, 0, 21, keys[20]);
    lemma_some_mount(t, 0, 22, keys[21]);
    lemma_some_mount(t, 0, 23, keys[22]);
    lemma_some_mount(t, 0, 24, keys[23]);
    lemma_some_mount(t, 0, 25, keys[24]);
    lemma_some_mount(t, 0, 26, keys[25]);
    lemma_some_mount(t, 0, 27, keys[26]);
    lemma_some_mount(t, 0, 28, keys[27]);
    lemma_nothing_missing(t, keys, 0);
}

/// No two entries have the same key.
#[verifier::rlimit(60)]
#[verifier::spinoff_prover]
proof fn lemma_table_has_no_duplicates()
    ensures
        forall|a: int, b: int|
            0 <= a < b < mounts().len() ==> (#[trigger] mounts()[a]).key != (
            #[trigger] mounts()[b]).key,
{
    lemma_table_literals();
}

/// The table passes every check: each event that MCP names is mounted, no key
/// occurs twice, the proxy's own tool comes before the other tool calls, no
/// notification is answered, and refreshes name what they refresh.
#[verifier::spinoff_prover]
pub proof fn law_table_is_sound()
    ensures
        table_fault(mounts(), spec_keys()) is None,
        forall|i: int|
            0 <= i < mounts().len() && (#[trigger] mounts()[i]).key.kind == EventKind::Notification
                ==> mounts()[i].outcome != Outcome::Respond && mounts()[i].outcome
                != Outcome::Reject,
{
    let t = mounts();
    lemma_table_literals();
    lemma_table_is_complete();
    lemma_table_has_no_duplicates();
    lemma_no_duplicates(t, 0);
    lemma_all_entries_legal(t, 0);
    lemma_place_at(t, true, 0, 8);
    lemma_place_at(t, false, 0, 9);
}

// ── What the checks of a table are for ──────────────────────────────

proof fn lemma_missing(table: Seq<MountView>, keys: Seq<KeyView>, i: int)
    requires
        0 <= i <= keys.len(),
    ensures
        missing_fault(table, keys, i) is None <==> forall|k: int|
            i <= k < keys.len() ==> first_mount(
                table,
                0,
                (#[trigger] keys[k]).dir,
                keys[k].kind,
                keys[k].method,
                None,
            ) is Some,
    decreases keys.len() - i,
{
    if i < keys.len() {
        lemma_missing(table, keys, i + 1);
        if first_mount(table, 0, keys[i].dir, keys[i].kind, keys[i].method, None) is None {
            assert(keys[i].dir == keys[i].dir);
        }
    }
}

proof fn lemma_duplicate(table: Seq<MountView>, i: int)
    requires
        0 <= i <= table.len(),
    ensures
        duplicate_fault(table, i) is None <==> forall|a: int, b: int|
            i <= a < b < table.len() ==> (#[trigger] table[a]).key != (#[trigger] table[b]).key,
    decreases table.len() - i,
{
    if i < table.len() {
        lemma_duplicate(table, i + 1);
        if duplicate_fault(table, i) is None {
            assert forall|a: int, b: int| i <= a < b < table.len() implies (
            #[trigger] table[a]).key != (#[trigger] table[b]).key by {
                if a == i {
                    assert(table[b].key != table[i].key);
                }
            }
        }
    }
}

proof fn lemma_place(table: Seq<MountView>, wrapper: bool, i: int)
    requires
        0 <= i <= table.len(),
    ensures
        (place_of(table, wrapper, i) matches Some(at) ==> i <= at < table.len() && (wrapper
            && is_wrapper_entry(table[at]) || !wrapper && is_generic_call(table[at])) && forall|
            k: int,
        |
            i <= k < at ==> !(wrapper && is_wrapper_entry(#[trigger] table[k]) || !wrapper
                && is_generic_call(table[k]))),
        place_of(table, wrapper, i) is None ==> forall|k: int|
            i <= k < table.len() ==> !(wrapper && is_wrapper_entry(#[trigger] table[k])
                || !wrapper && is_generic_call(table[k])),
    decreases table.len() - i,
{
    if i < table.len() {
        lemma_place(table, wrapper, i + 1);
    }
}

proof fn lemma_legality(table: Seq<MountView>, i: int)
    requires
        0 <= i <= table.len(),
    ensures
        legality_fault(table, i) is None <==> forall|k: int|
            i <= k < table.len() ==> entry_fault(#[trigger] table[k]) is None,
        targets_fault(table, i) is None <==> forall|k: int|
            i <= k < table.len() ==> target_fault(#[trigger] table[k]) is None,
    decreases table.len() - i,
{
    if i < table.len() {
        lemma_legality(table, i + 1);
    }
}

/// A table passes exactly where every event that it must handle is mounted, no key occurs
/// twice, the proxy's own tool comes before the other tool calls, and every entry keeps
/// the rules.
pub proof fn law_tables_that_pass(
    table: &Vec<MountEntry>,
    keys: &Vec<EventKey>,
    r: Result<(), String>,
)
    requires
        call_ensures(verify_table, (table, keys), r),
    ensures
        ({
            let t = table_view(table@);
            let k = keys_view(keys@);
            r is Ok <==> {
                &&& forall|i: int|
                    0 <= i < k.len() ==> first_mount(
                        t,
                        0,
                        (#[trigger] k[i]).dir,
                        k[i].kind,
                        k[i].method,
                        None,
                    ) is Some
                &&& forall|a: int, b: int|
                    0 <= a < b < t.len() ==> (#[trigger] t[a]).key != (#[trigger] t[b]).key
                &&& exists|a: int, b: int|
                    0 <= a <= b < t.len() && is_wrapper_entry(#[trigger] t[a]) && is_generic_call(
                        #[trigger] t[b],
                    ) && forall|c: int| 0 <= c < b ==> !is_generic_call(#[trigger] t[c])
                &&& forall|i: int| 0 <= i < t.len() ==> keeps_the_rules(#[trigger] t[i])
            }
        }),
{
    let t = table_view(table@);
    let k = keys_view(keys@);
    lemma_missing(t, k, 0);
    lemma_duplicate(t, 0);
    lemma_place(t, true, 0);
    lemma_place(t, false, 0);
    lemma_legality(t, 0);
    assert forall|i: int| 0 <= i < t.len() implies keeps_the_rules(#[trigger] t[i]) == (
    entry_fault(t[i]) is None && target_fault(t[i]) is None) by {}
    if r is Ok {
        let a = place_of(t, true, 0)->0;
        let b = place_of(t, false, 0)->0;
        assert(is_wrapper_entry(t[a]) && is_generic_call(t[b]));
    }
}

/// The rules of an entry: a notification is not answered, what passes passes, what reads
/// the cache or keeps requests is of that class, and what refreshes the cache, and
/// nothing else, names a part of it.
pub open spec fn keeps_the_rules(entry: MountView) -> bool {
    &&& entry.key.kind == EventKind::Notification ==> entry.outcome != Outcome::Respond
        && entry.outcome != Outcome::Reject
    &&& entry.program_class == ProgramClass::Pass ==> entry.outcome == Outcome::Pass
    &&& entry.program == EventProgramId::CacheInitializeView || entry.program
        == EventProgramId::CacheToolsList || entry.program == EventProgramId::CachePromptsList
        || entry.program == EventProgramId::CacheResourcesList || entry.program
        == EventProgramId::CacheResourceTemplatesList ==> entry.program_class
        == ProgramClass::Cache
    &&& entry.program == EventProgramId::CancelRequest || entry.program
        == EventProgramId::ProgressRequest || entry.program
        == EventProgramId::ClientRequestThenPass || entry.program
        == EventProgramId::PeerRequestThenPass ==> entry.program_class == ProgramClass::Lifetime
    &&& entry.program == EventProgramId::RefreshCacheThenPass <==> entry.cache_refresh_target
        is Some
}

/// An event is handled by the first entry that is for it: for its direction, its kind and
/// its method, and for its tool where the entry names one.
pub proof fn law_first_entry_handles_an_event(
    table: Seq<MountView>,
    i: int,
    dir: Dir,
    kind: EventKind,
    method: Seq<char>,
    tool: Option<Seq<char>>,
)
    requires
        0 <= i <= table.len(),
    ensures
        (first_mount(table, i, dir, kind, method, tool) matches Some(entry) ==> exists|at: int|
            i <= at < table.len() && #[trigger] table[at] == entry && forall|k: int|
                i <= k < at ==> !is_for(#[trigger] table[k], dir, kind, method, tool)),
        (first_mount(table, i, dir, kind, method, tool) matches Some(entry) ==> is_for(
            entry,
            dir,
            kind,
            method,
            tool,
        )),
        first_mount(table, i, dir, kind, method, tool) is None ==> forall|k: int|
            i <= k < table.len() ==> !is_for(#[trigger] table[k], dir, kind, method, tool),
    decreases table.len() - i,
{
    if i < table.len() {
        law_first_entry_handles_an_event(table, i + 1, dir, kind, method, tool);
        if is_for(table[i], dir, kind, method, tool) {
            assert(table[i] == table[i]);
        } else if let Some(entry) = first_mount(table, i + 1, dir, kind, method, tool) {
            let at = choose|at: int|
                i + 1 <= at < table.len() && #[trigger] table[at] == entry && forall|k: int|
                    i + 1 <= k < at ==> !is_for(#[trigger] table[k], dir, kind, method, tool);
            assert(table[at] == entry);
        }
    }
}

/// Whether an entry is for an event.
pub open spec fn is_for(
    entry: MountView,
    dir: Dir,
    kind: EventKind,
    method: Seq<char>,
    tool: Option<Seq<char>>,
) -> bool {
    entry.key.dir == dir && entry.key.kind == kind && match entry.key.selector {
        SelectorView::Any => method == entry.key.method,
        SelectorView::ToolName(name) => method == entry.key.method && tool == Some(name),
        SelectorView::LegacyMethodPrefix(prefix) => prefix.is_prefix_of(method),
    }
}

/// A request is a call of the proxy's own tool where it calls a tool of that name, and a
/// notification of a client ends here where it is the end of the handshake.
pub proof fn law_own_tool_and_end_of_handshake(
    raw: &Json,
    own: bool,
    method: &str,
    dropped: bool,
)
    requires
        call_ensures(is_wrapper_tool_request, (raw,), own),
        call_ensures(should_drop_client_notification, (method,), dropped),
    ensures
        own <==> field(raw@, "method"@) == Some(JsonView::Str("tools/call"@)) && opt_field(
            field(raw@, "params"@),
            "name"@,
        ) == Some(JsonView::Str("mcp.wrapper"@)),
        dropped <==> method@ == "notifications/"@ + "initialized"@,
{
    reveal_strlit("notifications/");
    reveal_strlit("initialized");
    reveal_strlit("notifications/initialized");
    assert("notifications/"@.len() == 14);
    assert("initialized"@.len() == 11);
    assert("notifications/initialized"@.len() == 25);
    assert("notifications/"@ + "initialized"@ =~= "notifications/initialized"@);
}

/// The table routes a request of a client as the router does.
pub proof fn law_table_and_router_agree(method: &str, route: Route, by_router: Route)
    requires
        call_ensures(route_for_client_request, (method,), route),
        call_ensures(crate::mcp_interface::route, (method,), by_router),
    ensures
        route == by_router,
{
}

/// A key without an entry is named in the message: where it comes from, what it is, and
/// its method.
pub proof fn law_missing_entry_is_named(
    table: &Vec<MountEntry>,
    keys: &Vec<EventKey>,
    r: Result<(), String>,
)
    requires
        call_ensures(verify_spec_completeness, (table, keys), r),
    ensures
        r is Ok <==> forall|i: int|
            0 <= i < keys@.len() ==> first_mount(
                table_view(table@),
                0,
                (#[trigger] keys_view(keys@)[i]).dir,
                keys_view(keys@)[i].kind,
                keys_view(keys@)[i].method,
                None,
            ) is Some,
        (r matches Err(message) ==> exists|i: int|
            0 <= i < keys@.len() && message@ == "missing mount entry for "@ + (if (
            #[trigger] keys_view(keys@)[i]).dir == Dir::ClientToServer {
                "ClientToServer"@
            } else {
                "ServerToClient"@
            }) + " "@ + (if keys_view(keys@)[i].kind == EventKind::Request {
                "Request"@
            } else {
                "Notification"@
            }) + " "@ + keys_view(keys@)[i].method),
{
    let t = table_view(table@);
    let k = keys_view(keys@);
    lemma_missing(t, k, 0);
    if let Err(message) = r {
        lemma_missing_message(t, k, 0);
    }
}

proof fn lemma_missing_message(table: Seq<MountView>, keys: Seq<KeyView>, i: int)
    requires
        0 <= i <= keys.len(),
        missing_fault(table, keys, i) is Some,
    ensures
        exists|k: int|
            i <= k < keys.len() && missing_fault(table, keys, i) == Some(
                missing_message(#[trigger] keys[k]),
            ),
    decreases keys.len() - i,
{
    if i < keys.len() {
        if first_mount(table, 0, keys[i].dir, keys[i].kind, keys[i].method, None) is None {
            assert(missing_fault(table, keys, i) == Some(missing_message(keys[i])));
        } else {
            lemma_missing_message(table, keys, i + 1);
        }
    }
}

/// The other checks of a table, one by one.
pub proof fn law_single_checks_of_a_table(
    table: &Vec<MountEntry>,
    selectors: Result<(), String>,
    legality: Result<(), String>,
    targets: Result<(), String>,
)
    requires
        call_ensures(verify_selector_uniqueness, (table,), selectors),
        call_ensures(verify_program_legality, (table,), legality),
        call_ensures(verify_cache_refresh_targets, (table,), targets),
    ensures
        ({
            let t = table_view(table@);
            &&& selectors is Ok ==> forall|a: int, b: int|
                0 <= a < b < t.len() ==> (#[trigger] t[a]).key != (#[trigger] t[b]).key
            &&& selectors is Ok <==> {
                &&& forall|a: int, b: int|
                    0 <= a < b < t.len() ==> (#[trigger] t[a]).key != (#[trigger] t[b]).key
                &&& exists|a: int, b: int|
                    0 <= a <= b < t.len() && is_wrapper_entry(#[trigger] t[a]) && is_generic_call(
                        #[trigger] t[b],
                    ) && forall|c: int| 0 <= c < b ==> !is_generic_call(#[trigger] t[c])
            }
            &&& legality is Ok && targets is Ok <==> forall|i: int|
                0 <= i < t.len() ==> keeps_the_rules(#[trigger] t[i])
        }),
{
    let t = table_view(table@);
    lemma_duplicate(t, 0);
    lemma_place(t, true, 0);
    lemma_place(t, false, 0);
    lemma_legality(t, 0);
    assert forall|i: int| 0 <= i < t.len() implies keeps_the_rules(#[trigger] t[i]) == (
    entry_fault(t[i]) is None && target_fault(t[i]) is None) by {}
    if selectors is Ok {
        let a = place_of(t, true, 0)->0;
        let b = place_of(t, false, 0)->0;
        assert(is_wrapper_entry(t[a]) && is_generic_call(t[b]));
    }
}

/// A notification of the backend that a list has changed makes exactly the lists stale
/// whose methods begin with its name, and no other notification makes a list stale.
pub proof fn law_stale_lists(
    method: &str,
    keys: Vec<McpDataKey>,
    name: Seq<char>,
    key: McpDataKey,
)
    requires
        call_ensures(list_changed_data_keys, (method,), keys),
        name == "tools"@ || name == "prompts"@ || name == "resources"@,
    ensures
        method@ == "notifications/"@ + name + "/list_changed"@ ==> (keys@.contains(key) <==> (name
            + "/"@).is_prefix_of(crate::mcp_interface::data_method(key))),
        method@ != "notifications/tools/list_changed"@ && method@
            != "notifications/prompts/list_changed"@ && method@
            != "notifications/resources/list_changed"@ ==> keys@.len() == 0,
        keys@.no_duplicates(),
{
    lemma_table_literals();
    reveal_strlit("notifications/");
    reveal_strlit("tools");
    reveal_strlit("prompts");
    reveal_strlit("resources");
    reveal_strlit("/list_changed");
    reveal_strlit("/");
    reveal_strlit("initialize");
    reveal_strlit("tools/list");
    reveal_strlit("prompts/list");
    reveal_strlit("resources/list");
    reveal_strlit("resources/templates/list");
    reveal_strlit("notifications/tools/list_changed");
    reveal_strlit("notifications/prompts/list_changed");
    reveal_strlit("notifications/resources/list_changed");
    assert("notifications/"@.len() == 14);
    assert("tools"@.len() == 5);
    assert("prompts"@.len() == 7);
    assert("resources"@.len() == 9);
    assert("/list_changed"@.len() == 13);
    assert("/"@.len() == 1);
    assert("initialize"@.len() == 10);
    assert("tools/list"@.len() == 10);
    assert("prompts/list"@.len() == 12);
    assert("resources/list"@.len() == 14);
    assert("resources/templates/list"@.len() == 24);
    assert("notifications/tools/list_changed"@.len() == 32);
    assert("notifications/prompts/list_changed"@.len() == 34);
    assert("notifications/resources/list_changed"@.len() == 36);
    assert("notifications/"@[0] != "resources/list"@[0]);
    assert("initialize"@[0] != "tools/list"@[0]);
    assert("notifications/"@ + "tools"@ + "/list_changed"@ =~= "notifications/tools/list_changed"@);
    assert("notifications/"@ + "prompts"@ + "/list_changed"@
        =~= "notifications/prompts/list_changed"@);
    assert("notifications/"@ + "resources"@ + "/list_changed"@
        =~= "notifications/resources/list_changed"@);
    assert("tools/list"@.subrange(0, 6) =~= "tools"@ + "/"@);
    assert("prompts/list"@.subrange(0, 8) =~= "prompts"@ + "/"@);
    assert("resources/list"@.subrange(0, 10) =~= "resources"@ + "/"@);
    assert("resources/templates/list"@.subrange(0, 10) =~= "resources"@ + "/"@);
    let m = crate::mcp_interface::data_method(key);
    if (name + "/"@).is_prefix_of(m) {
        assert(m.subrange(0, (name + "/"@).len() as int)[0] == (name + "/"@)[0]);
        assert((name + "/"@)[0] == name[0]);
    }
    let k = stale_keys(method@);
    if method@ == "notifications/tools/list_changed"@ {
        assert(k[0] == McpDataKey::ToolsList);
    } else if method@ == "notifications/prompts/list_changed"@ {
        assert(k[0] == McpDataKey::PromptsList);
    } else if method@ == "notifications/resources/list_changed"@ {
        assert(k[0] == McpDataKey::ResourcesList);
        assert(k[1] == McpDataKey::ResourceTemplatesList);
    }
}

/// Cancellations and progress are handled as such from either side, the end of the
/// handshake is dropped, and the table of this proxy passes its checks.
pub proof fn law_programs_of_notifications(
    dir: Dir,
    method: &str,
    program: Option<EventProgramId>,
    found: Option<MountEntry>,
    r: Result<(), String>,
)
    requires
        call_ensures(notification_program, (dir, method), program),
        call_ensures(find_mount, (dir, EventKind::Notification, method, None), found),
        call_ensures(verify_mount_table, (), r),
    ensures
        program == Some(EventProgramId::CancelRequest) <==> method@ == "notifications/cancelled"@,
        program == Some(EventProgramId::ProgressRequest) <==> method@ == "notifications/progress"@,
        program == Some(EventProgramId::RefreshCacheThenPass) <==> dir == Dir::ServerToClient && (
        method@ == "notifications/tools/list_changed"@ || method@
            == "notifications/prompts/list_changed"@ || method@
            == "notifications/resources/list_changed"@),
        program is Some <==> found is Some,
        (found matches Some(entry) ==> program == Some(entry@.program) && entry@.key.dir == dir
            && entry@.key.kind == EventKind::Notification && entry@.outcome != Outcome::Respond),
        r is Ok,
{
    lemma_table_literals();
    law_table_is_sound();
    law_first_entry_handles_an_event(
        mounts(),
        0,
        dir,
        EventKind::Notification,
        method@,
        None,
    );
    lemma_notification_entry(dir, method@);
    if let Some(entry) = found {
        let at = choose|at: int| 0 <= at < mounts().len() && #[trigger] mounts()[at] == entry@;
        assert(mounts()[at].outcome != Outcome::Respond);
    }
}

/// A control method is carried out here, and any other method of its kind is passed on.
pub proof fn law_control_routes(
    method: &str,
    route: Route,
    control: crate::mcp_interface::WrapperControlMethod,
)
    requires
        call_ensures(legacy_control_route, (method,), route),
    ensures
        route == Route::WrapperControl(control) <==> method@
            == crate::mcp_interface::control_method(control),
        !(route is WrapperControl) ==> route == Route::PassThrough,
{
    crate::mcp_interface::lemma_method_literals();
}

} // verus!
