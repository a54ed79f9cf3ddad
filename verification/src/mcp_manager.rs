//! What is known of the MCP server: its capabilities, the cached discovery answers
//! and how they are filled and refreshed.

use std::time::Duration;

use vstd::prelude::*;
use vstd::std_specs::hash::DefaultHasherAdditionalSpecFns;
use vstd::string::*;

use crate::backend_manager::uint_view;
use crate::fingerprint::{digest, texts_fingerprint, texts_writes};
use crate::json::{
    empty_object, field, items_view, json_text, opt_field, opt_view, str_of, to_text, Json,
    JsonView, NumberView,
};
use crate::mcp_interface::{data_method, method_for_mcp_data_key, McpDataKey};
use crate::table::{rows_map, Table, TableKey};
use crate::text::{decimal, decimal_text, join, join3, padded, padded_text};
use crate::timeouts::{duration_from_nanos, nanos, CACHE_PAGINATION_MAX_PAGES};
use crate::tools::wrapper::{
    merge_initialize_result, merge_tools_list, with_tools_capability, with_wrapper_tool,
};
use crate::transport::{
    build_notification, build_request, copied, field_text, notification_view, request_view, subfield,
};

verus! {

// ── Calendar ────────────────────────────────────────────────────────

#[verifier::opaque]
pub open spec fn is_leap_year(y: int) -> bool {
    y % 4 == 0 && (y % 100 != 0 || y % 400 == 0)
}

pub open spec fn month_days(y: int, m: int) -> int {
    if m == 2 {
        if is_leap_year(y) {
            29
        } else {
            28
        }
    } else if m == 4 || m == 6 || m == 9 || m == 11 {
        30
    } else {
        31
    }
}

/// A date of the Gregorian calendar.
pub open spec fn is_date(y: int, m: int, d: int) -> bool {
    1 <= m <= 12 && 1 <= d <= month_days(y, m)
}

/// The days of a year before a month.
pub open spec fn days_before_month(y: int, m: int) -> int
    decreases m,
{
    if m <= 1 {
        0
    } else {
        days_before_month(y, m - 1) + month_days(y, m - 1)
    }
}

/// The days from the first of January of year 0 to that of year `y`.
#[verifier::opaque]
pub open spec fn days_before_year(y: int) -> int {
    365 * y + (y + 3) / 4 - (y + 99) / 100 + (y + 399) / 400
}

/// The number of days from 1970-01-01 to a date.
pub open spec fn day_number(y: int, m: int, d: int) -> int {
    days_before_year(y) - days_before_year(1970) + days_before_month(y, m) + d - 1
}

proof fn lemma_months(y: int)
    ensures
        days_before_month(y, 1) == 0,
        days_before_month(y, 2) == 31,
        days_before_month(y, 3) == 31 + month_days(y, 2),
        days_before_month(y, 4) == 62 + month_days(y, 2),
        days_before_month(y, 5) == 92 + month_days(y, 2),
        days_before_month(y, 6) == 123 + month_days(y, 2),
        days_before_month(y, 7) == 153 + month_days(y, 2),
        days_before_month(y, 8) == 184 + month_days(y, 2),
        days_before_month(y, 9) == 215 + month_days(y, 2),
        days_before_month(y, 10) == 245 + month_days(y, 2),
        days_before_month(y, 11) == 276 + month_days(y, 2),
        days_before_month(y, 12) == 306 + month_days(y, 2),
{
    reveal_with_fuel(days_before_month, 13);
}

/// The year within its era of 400 years, counted from March, of a day of the era.
#[verifier::spinoff_prover]
#[verifier::rlimit(40)]
proof fn lemma_year_of_era(doe: int, yoe: int, doy: int)
    requires
        0 <= doe <= 146096,
        yoe == (doe - doe / 1460 + doe / 36524 - doe / 146096) / 365,
        doy == doe - (365 * yoe + yoe / 4 - yoe / 100),
    ensures
        0 <= yoe <= 399,
        0 <= doy <= 365,
        doy == 365 ==> (yoe % 4 == 3 && (yoe % 100 != 99 || yoe == 399)),
{
}

/// Division rounded up, by division rounded down.
#[verifier::spinoff_prover]
#[verifier::rlimit(40)]
proof fn lemma_round_up(n: int, d: int)
    requires
        d == 4 || d == 100 || d == 400,
    ensures
        (n + d - 1) / d == n / d + if n % d == 0 {
            0int
        } else {
            1int
        },
{
}

/// Whole eras do not matter for the place of a year in the leap cycle.
#[verifier::spinoff_prover]
#[verifier::rlimit(40)]
proof fn lemma_era_shift(era: int, n: int)
    ensures
        (400 * era + n) / 4 == 100 * era + n / 4,
        (400 * era + n) / 100 == 4 * era + n / 100,
        (400 * era + n) / 400 == era + n / 400,
        (400 * era + n) % 4 == n % 4,
        (400 * era + n) % 100 == n % 100,
        (400 * era + n) % 400 == n % 400,
{
}

/// The first of March of a year, by era and year of the era.
#[verifier::spinoff_prover]
#[verifier::rlimit(40)]
proof fn lemma_march_first(era: int, yoe: int)
    requires
        0 <= yoe <= 399,
    ensures
        day_number(400 * era + yoe, 3, 1) == era * 146_097 + 365 * yoe + yoe / 4 - yoe / 100
            - 719_468,
{
    let y = 400 * era + yoe;
    lemma_months(y);
    lemma_era_shift(era, yoe);
    lemma_round_up(y, 4);
    lemma_round_up(y, 100);
    lemma_round_up(y, 400);
    let four = if yoe % 4 == 0 {
        0int
    } else {
        1int
    };
    let hundred = if yoe % 100 == 0 {
        0int
    } else {
        1int
    };
    let era_end = if yoe % 400 == 0 {
        0int
    } else {
        1int
    };
    let leap = if is_leap_year(y) {
        1int
    } else {
        0int
    };
    assert(days_before_year(y) == 365 * y + (100 * era + yoe / 4 + four) - (4 * era + yoe / 100
        + hundred) + (era + era_end)) by {
        reveal(days_before_year);
    }
    assert(four - hundred + era_end + leap == 1) by {
        reveal(is_leap_year);
    }
    assert(days_before_year(1970) == 719_528) by {
        reveal(days_before_year);
    }
}

/// A multiple of `d` is passed exactly where the number is one.
#[verifier::spinoff_prover]
#[verifier::rlimit(40)]
proof fn lemma_pass_multiple(n: int, d: int)
    requires
        d == 4 || d == 100 || d == 400,
    ensures
        (n + d) / d - (n + d - 1) / d == if n % d == 0 {
            1int
        } else {
            0int
        },
{
    lemma_round_up(n, d);
    assert((n + d) / d == n / d + 1);
}

/// A year has 365 days, or 366 if it is a leap year.
#[verifier::spinoff_prover]
#[verifier::rlimit(40)]
proof fn lemma_year_length(y: int)
    ensures
        days_before_year(y + 1) - days_before_year(y) == if is_leap_year(y) {
            366int
        } else {
            365int
        },
{
    lemma_pass_multiple(y, 4);
    lemma_pass_multiple(y, 100);
    lemma_pass_multiple(y, 400);
    let four = (y + 4) / 4 - (y + 3) / 4;
    let hundred = (y + 100) / 100 - (y + 99) / 100;
    let era_end = (y + 400) / 400 - (y + 399) / 400;
    assert(days_before_year(y + 1) - days_before_year(y) == 365 + four - hundred + era_end) by {
        reveal(days_before_year);
    }
    assert(y % 400 == 0 ==> y % 100 == 0);
    assert(y % 100 == 0 ==> y % 4 == 0);
    reveal(is_leap_year);
}

/// The day and the month of a day of the year counted from March.
#[verifier::spinoff_prover]
#[verifier::rlimit(40)]
proof fn lemma_month_of_year(doy: int, mp: int, day: int)
    requires
        0 <= doy <= 365,
        mp == (5 * doy + 2) / 153,
        day == doy - (153 * mp + 2) / 5 + 1,
    ensures
        0 <= mp <= 11,
        doy == days_since_march(mp) + day - 1,
        1 <= day <= 31,
        mp < 11 ==> day <= days_since_march(mp + 1) - days_since_march(mp),
        mp == 11 ==> day <= 29,
        mp == 11 && day == 29 ==> doy == 365,
{
}

/// The days from the first of March to the first of the month `mp` months later.
spec fn days_since_march(mp: int) -> int {
    if mp == 0 {
        0
    } else if mp == 1 {
        31
    } else if mp == 2 {
        61
    } else if mp == 3 {
        92
    } else if mp == 4 {
        122
    } else if mp == 5 {
        153
    } else if mp == 6 {
        184
    } else if mp == 7 {
        214
    } else if mp == 8 {
        245
    } else if mp == 9 {
        275
    } else if mp == 10 {
        306
    } else {
        337
    }
}

/// A day of the year counted from March is the date that its parts make.
#[verifier::spinoff_prover]
#[verifier::rlimit(40)]
proof fn lemma_from_march(y: int, doy: int, mp: int, day: int, month: int, year: int)
    requires
        0 <= doy <= 365,
        doy == 365 ==> is_leap_year(y + 1),
        mp == (5 * doy + 2) / 153,
        day == doy - (153 * mp + 2) / 5 + 1,
        month == if mp < 10 {
            mp + 3
        } else {
            mp - 9
        },
        year == if month <= 2 {
            y + 1
        } else {
            y
        },
    ensures
        is_date(year, month, day),
        day_number(year, month, day) == day_number(y, 3, 1) + doy,
{
    lemma_month_of_year(doy, mp, day);
    lemma_year_length(y);
    lemma_months(y);
    lemma_months(y + 1);
    if mp == 0 {
    } else if mp == 1 {
    } else if mp == 2 {
    } else if mp == 3 {
    } else if mp == 4 {
    } else if mp == 5 {
    } else if mp == 6 {
    } else if mp == 7 {
    } else if mp == 8 {
    } else if mp == 9 {
    } else if mp == 10 {
    } else {
        assert(mp == 11);
    }
}

#[verifier::spinoff_prover]
#[verifier::rlimit(40)]
proof fn lemma_leap_in_era(era: int, yoe: int)
    requires
        0 <= yoe <= 399,
        yoe % 4 == 3 && (yoe % 100 != 99 || yoe == 399),
    ensures
        is_leap_year(400 * era + yoe + 1),
{
    lemma_era_shift(era, yoe + 1);
    assert(400 * era + yoe + 1 == 400 * era + (yoe + 1));
    assert((yoe + 1) % 4 == 0);
    assert(yoe != 399 ==> (yoe + 1) % 100 != 0);
    reveal(is_leap_year);
}

/// The date of a day number: a date of the calendar, and the only one with that
/// number.
pub fn civil_from_unix_days(unix_days: i64) -> (date: (i64, u32, u32))
    requires
        unix_days <= i64::MAX - 719_468,
    ensures
        is_date(date.0 as int, date.1 as int, date.2 as int),
        day_number(date.0 as int, date.1 as int, date.2 as int) == unix_days,
        -25_300_000_000_000_000 < date.0 < 25_300_000_000_000_000,
{
    let z: i64 = unix_days + 719_468;
    let era: i64 = (if z >= 0 {
        z
    } else {
        z - 146_096
    }) / 146_097;
    assert(era == z as int / 146_097);
    let doe: i64 = z - era * 146_097;
    assert(0 <= doe <= 146_096);
    let yoe: i64 = (doe - doe / 1_460 + doe / 36_524 - doe / 146_096) / 365;
    proof {
        lemma_year_of_era(doe as int, yoe as int, doe - (365 * yoe + yoe / 4 - yoe / 100));
    }
    let doy: i64 = doe - (365 * yoe + yoe / 4 - yoe / 100);
    let mp: i64 = (5 * doy + 2) / 153;
    let day: i64 = doy - (153 * mp + 2) / 5 + 1;
    let month: i64 = if mp < 10 {
        mp + 3
    } else {
        mp - 9
    };
    let year: i64 = if month <= 2 {
        yoe + era * 400 + 1
    } else {
        yoe + era * 400
    };
    proof {
        let y = 400 * era + yoe;
        if doy == 365 {
            lemma_leap_in_era(era as int, yoe as int);
        }
        lemma_march_first(era as int, yoe as int);
        lemma_from_march(y, doy as int, mp as int, day as int, month as int, year as int);
    }
    (year, month as u32, day as u32)
}

#[verifier::spinoff_prover]
#[verifier::rlimit(40)]
proof fn lemma_year_order(y: int, n: nat)
    ensures
        days_before_year(y + n) >= days_before_year(y) + 365 * n,
    decreases n,
{
    if n > 0 {
        lemma_year_order(y, (n - 1) as nat);
        lemma_year_length(y + n - 1);
    }
}

/// A date lies within its year.
#[verifier::spinoff_prover]
#[verifier::rlimit(40)]
proof fn lemma_date_in_year(y: int, m: int, d: int)
    requires
        is_date(y, m, d),
    ensures
        0 <= days_before_month(y, m) + d - 1 < days_before_year(y + 1) - days_before_year(y),
{
    lemma_months(y);
    lemma_year_length(y);
}

/// Different dates have different day numbers.
pub proof fn law_dates_have_their_own_number(
    y1: int,
    m1: int,
    d1: int,
    y2: int,
    m2: int,
    d2: int,
)
    requires
        is_date(y1, m1, d1),
        is_date(y2, m2, d2),
        day_number(y1, m1, d1) == day_number(y2, m2, d2),
    ensures
        y1 == y2 && m1 == m2 && d1 == d2,
{
    lemma_date_in_year(y1, m1, d1);
    lemma_date_in_year(y2, m2, d2);
    if y1 < y2 {
        lemma_year_order(y1 + 1, (y2 - y1 - 1) as nat);
    }
    if y2 < y1 {
        lemma_year_order(y2 + 1, (y1 - y2 - 1) as nat);
    }
    lemma_months(y1);
}

/// A date as `YYYY-MM-DD`.
pub open spec fn date_text(y: int, m: int, d: int) -> Seq<char> {
    padded(y, 4) + "-"@ + padded(m, 2) + "-"@ + padded(d, 2)
}

/// The text of a date with a given day number.
pub open spec fn is_date_text(text: Seq<char>, unix_days: int) -> bool {
    exists|y: int, m: int, d: int|
        is_date(y, m, d) && day_number(y, m, d) == unix_days && text == #[trigger] date_text(
            y,
            m,
            d,
        )
}

fn format_date(y: i64, m: i64, d: i64) -> (text: String)
    requires
        y > i64::MIN,
        m > i64::MIN,
        d > i64::MIN,
    ensures
        text@ == date_text(y as int, m as int, d as int),
{
    let mut text = padded_text(y, 4);
    text.append("-");
    text.append(padded_text(m, 2).as_str());
    text.append("-");
    text.append(padded_text(d, 2).as_str());
    text
}

/// The protocol version of a day: its date.
pub fn protocol_version_for_unix_days(unix_days: i64) -> (text: String)
    requires
        unix_days <= i64::MAX - 719_468,
    ensures
        is_date_text(text@, unix_days as int),
{
    let (year, month, day) = civil_from_unix_days(unix_days);
    let text = format_date(year, month as i64, day as i64);
    assert(text@ == date_text(year as int, month as int, day as int));
    text
}

/// The protocol version at a moment: the local date where the machine knows it
/// (years since 1900, months since January, day of the month), else the date of
/// the day since 1970.
pub fn protocol_version_for_unix_seconds_local(
    local: Option<(i32, i32, i32)>,
    unix_seconds: i64,
) -> (text: String)
    ensures
        match local {
            Some((year, month, day)) => text@ == date_text(year + 1900, month + 1, day as int),
            None => is_date_text(
                text@,
                if unix_seconds >= 0 {
                    unix_seconds as int / 86_400
                } else {
                    -((-unix_seconds) as int / 86_400)
                },
            ),
        },
{
    match local {
        Some((year, month, day)) => format_date(
            year as i64 + 1900,
            month as i64 + 1,
            day as i64,
        ),
        None => protocol_version_for_unix_days(unix_seconds / 86_400),
    }
}

// ── Capabilities and discovery answers ──────────────────────────────

/// What the server says it can do: which lists it has.
#[derive(Debug, Clone, Copy, PartialEq, Eq, Structural)]
pub struct Capabilities {
    pub tools: bool,
    pub prompts: bool,
    pub resources: bool,
}

pub open spec fn capabilities_of(server_info: JsonView) -> Capabilities {
    let caps = field(server_info, "capabilities"@);
    Capabilities {
        tools: opt_field(caps, "tools"@) is Some,
        prompts: opt_field(caps, "prompts"@) is Some,
        resources: opt_field(caps, "resources"@) is Some,
    }
}

pub open spec fn supported(c: Capabilities, key: McpDataKey) -> bool {
    match key {
        McpDataKey::Initialize => true,
        McpDataKey::ToolsList => c.tools,
        McpDataKey::PromptsList => c.prompts,
        McpDataKey::ResourcesList => c.resources,
        McpDataKey::ResourceTemplatesList => c.resources,
    }
}

impl Capabilities {
    pub fn from_server_info(server_info: &Json) -> (c: Capabilities)
        ensures
            c == capabilities_of(server_info@),
    {
        let caps = server_info.get("capabilities");
        Capabilities {
            tools: subfield(caps, "tools").is_some(),
            prompts: subfield(caps, "prompts").is_some(),
            resources: subfield(caps, "resources").is_some(),
        }
    }

    /// Whether the server answers the method of a key.
    pub fn supports(&self, key: &McpDataKey) -> (b: bool)
        ensures
            b == supported(*self, *key),
    {
        match key {
            McpDataKey::Initialize => true,
            McpDataKey::ToolsList => self.tools,
            McpDataKey::PromptsList => self.prompts,
            McpDataKey::ResourcesList => self.resources,
            McpDataKey::ResourceTemplatesList => self.resources,
        }
    }
}

/// The field of a list answer that holds the list.
pub open spec fn list_field(key: McpDataKey) -> Seq<char> {
    match key {
        McpDataKey::ToolsList => "tools"@,
        McpDataKey::PromptsList => "prompts"@,
        McpDataKey::ResourcesList => "resources"@,
        McpDataKey::ResourceTemplatesList => "resourceTemplates"@,
        McpDataKey::Initialize => ""@,
    }
}

/// The field of a list answer that holds the list.
pub fn list_field_for(key: &McpDataKey) -> (name: &'static str)
    ensures
        name@ == list_field(*key),
{
    match key {
        McpDataKey::ToolsList => "tools",
        McpDataKey::PromptsList => "prompts",
        McpDataKey::ResourcesList => "resources",
        McpDataKey::ResourceTemplatesList => "resourceTemplates",
        McpDataKey::Initialize => "",
    }
}

/// The keys that discovery asks for, in order.
pub open spec fn discovery_keys() -> Seq<McpDataKey> {
    seq![
        McpDataKey::ToolsList,
        McpDataKey::PromptsList,
        McpDataKey::ResourcesList,
        McpDataKey::ResourceTemplatesList,
    ]
}

/// The keys that discovery asks for, in order.
pub fn discovery_data_keys() -> (keys: Vec<McpDataKey>)
    ensures
        keys@ == discovery_keys(),
{
    let mut keys: Vec<McpDataKey> = Vec::new();
    keys.push(McpDataKey::ToolsList);
    keys.push(McpDataKey::PromptsList);
    keys.push(McpDataKey::ResourcesList);
    keys.push(McpDataKey::ResourceTemplatesList);
    assert(keys@ =~= discovery_keys());
    keys
}

/// A list answer with given items. The handshake has no list: nothing is kept of it.
pub open spec fn list_result(key: McpDataKey, items: Seq<JsonView>) -> JsonView {
    if key == McpDataKey::Initialize {
        empty_object()
    } else {
        JsonView::Obj(map![list_field(key) => JsonView::Arr(items)])
    }
}

/// The answer of a server without the list.
pub open spec fn empty_result(key: McpDataKey) -> JsonView {
    list_result(key, Seq::empty())
}

/// The answer of a server without the list.
pub fn empty_result_for(key: &McpDataKey) -> (j: Json)
    ensures
        j@ == empty_result(*key),
{
    let mut j = Json::object();
    match key {
        McpDataKey::Initialize => {},
        _ => {
            j.set(list_field_for(key), Json::array());
        },
    }
    j
}

/// The version of this program.
pub const VERSION: &'static str = "0.5.1";

pub open spec fn initialize_params(protocol_version: Seq<char>) -> JsonView {
    JsonView::Obj(
        map![
            "protocolVersion"@ => JsonView::Str(protocol_version),
            "capabilities"@ => empty_object(),
            "clientInfo"@ => JsonView::Obj(
                map![
                    "name"@ => JsonView::Str("mcp-wrapper-rs"@),
                    "version"@ => JsonView::Str("0.5.1"@),
                ],
            ),
        ],
    )
}

/// The first request of the handshake.
pub fn build_initialize_request(id: Json, protocol_version: &str) -> (j: Json)
    ensures
        j@ == request_view(id@, "initialize"@, Some(initialize_params(protocol_version@))),
{
    let mut client = Json::object();
    client.set("name", Json::text("mcp-wrapper-rs"));
    client.set("version", Json::text("0.5.1"));
    let mut params = Json::object();
    params.set("protocolVersion", Json::text(protocol_version));
    params.set("capabilities", Json::object());
    params.set("clientInfo", client);
    build_request(id, "initialize", Some(params))
}

/// What came back for the first request of the handshake.
#[derive(Debug)]
pub enum HandshakeReply {
    TimedOut,
    Failed(String),
    Answer(Json),
}

/// What the server says of itself, or why the handshake failed.
pub open spec fn handshake_result(reply: HandshakeReply) -> Result<JsonView, Seq<char>> {
    match reply {
        HandshakeReply::TimedOut => Err("initialize handshake timeout"@),
        HandshakeReply::Failed(error) => Err("initialize handshake: "@ + error@),
        HandshakeReply::Answer(answer) => match field(answer@, "error"@) {
            Some(error) => Err("initialize rejected: "@ + json_text(error)),
            None => Ok(
                match field(answer@, "result"@) {
                    Some(result) => result,
                    None => empty_object(),
                },
            ),
        },
    }
}

/// Reads the outcome of the handshake: what the server says of itself, or why it
/// failed. After a success the backend gets the initialized notification.
pub fn handshake_outcome(reply: HandshakeReply) -> (r: Result<Json, String>)
    ensures
        match r {
            Ok(info) => handshake_result(reply) == Ok::<JsonView, Seq<char>>(info@),
            Err(message) => handshake_result(reply) == Err::<JsonView, Seq<char>>(message@),
        },
{
    match reply {
        HandshakeReply::TimedOut => Err("initialize handshake timeout".to_owned()),
        HandshakeReply::Failed(error) => Err(join("initialize handshake: ", error.as_str())),
        HandshakeReply::Answer(answer) => match answer.get("error") {
            Some(error) => Err(join("initialize rejected: ", to_text(error).as_str())),
            None => Ok(
                match copied(answer.get("result")) {
                    Some(result) => result,
                    None => Json::object(),
                },
            ),
        },
    }
}

/// The notification that ends the handshake.
pub fn initialized_notification() -> (j: Json)
    ensures
        j@ == notification_view("notifications/initialized"@, None),
{
    build_notification("notifications/initialized", None)
}

pub open spec fn cursor_params(cursor: Option<Seq<char>>) -> Option<JsonView> {
    match cursor {
        Some(c) => Some(JsonView::Obj(map!["cursor"@ => JsonView::Str(c)])),
        None => None,
    }
}

/// Asks for a page of a list.
pub fn build_list_request(id: Json, method: &str, cursor: Option<&str>) -> (j: Json)
    ensures
        j@ == request_view(id@, method@, cursor_params(crate::json::opt_str(cursor))),
{
    let params = match cursor {
        Some(c) => {
            let mut params = Json::object();
            params.set("cursor", Json::text(c));
            Some(params)
        },
        None => None,
    };
    build_request(id, method, params)
}

/// Whether a client asks for a page of a list that is kept as a whole.
pub open spec fn asks_for_page(key: McpDataKey, raw: JsonView) -> bool {
    &&& key != McpDataKey::Initialize
    &&& opt_field(field(raw, "params"@), "cursor"@) matches Some(cursor)
    &&& !(cursor is Null)
}

/// Whether a client asks for a page of a list that is kept as a whole.
pub fn cached_list_request_has_cursor(key: &McpDataKey, raw: &Json) -> (b: bool)
    ensures
        b == asks_for_page(*key, raw@),
{
    let listed = match key {
        McpDataKey::Initialize => false,
        _ => true,
    };
    listed && match subfield(raw.get("params"), "cursor") {
        Some(cursor) => !cursor.is_null(),
        None => false,
    }
}

/// The result of a list answer, or what is wrong with the answer.
pub open spec fn validated(
    response: JsonView,
    name: Seq<char>,
    method: Seq<char>,
    page: nat,
) -> Result<JsonView, Seq<char>> {
    match (field(response, "error"@), field(response, "result"@)) {
        (Some(error), _) => Err(
            method + ": backend error on page "@ + decimal(page) + ": "@ + json_text(error),
        ),
        (None, Some(JsonView::Obj(m))) => {
            let result = JsonView::Obj(m);
            if !(field(result, name) matches Some(list) && list is Arr) {
                Err(method + ": result."@ + name + " is not an array on page "@ + decimal(page))
            } else if field(result, "nextCursor"@) matches Some(cursor) && !(cursor is Null) && !(
            cursor is Str) {
                Err(method + ": result.nextCursor is not a string on page "@ + decimal(page))
            } else {
                Ok(result)
            }
        },
        (None, _) => Err(method + ": missing object result on page "@ + decimal(page)),
    }
}

/// Checks a list answer: no error, an object with the list, and a cursor that is a
/// string where there is one.
pub fn validate_list_response(
    response: &Json,
    name: &str,
    method: &str,
    page_index: usize,
) -> (r: Result<Json, String>)
    ensures
        match r {
            Ok(result) => validated(response@, name@, method@, page_index as nat) == Ok::<
                JsonView,
                Seq<char>,
            >(result@),
            Err(message) => validated(response@, name@, method@, page_index as nat) == Err::<
                JsonView,
                Seq<char>,
            >(message@),
        },
{
    let page = decimal_text(page_index as u64);
    if let Some(error) = response.get("error") {
        let mut message = join3(method, ": backend error on page ", page.as_str());
        message.append(": ");
        message.append(to_text(error).as_str());
        return Err(message);
    }
    let result = match response.get("result") {
        Some(result) if result.is_object() => result,
        _ => {
            return Err(join3(method, ": missing object result on page ", page.as_str()));
        },
    };
    let has_list = match result.get(name) {
        Some(list) => list.is_array(),
        None => false,
    };
    if !has_list {
        let mut message = join3(method, ": result.", name);
        message.append(" is not an array on page ");
        message.append(page.as_str());
        return Err(message);
    }
    let bad_cursor = match result.get("nextCursor") {
        Some(cursor) => !cursor.is_null() && !cursor.is_string(),
        None => false,
    };
    if bad_cursor {
        return Err(
            join3(method, ": result.nextCursor is not a string on page ", page.as_str()),
        );
    }
    Ok(result.copy())
}

// ── Reading a list page by page ─────────────────────────────────────

/// How long a query of a refresh may take, in nanoseconds.
pub const LIST_QUERY_NANOS: u64 = 5_000_000_000;

/// How long the next query of a refresh may take: no longer than a query may take
/// at all, nor than what is left of the refresh. `None` where nothing is left.
pub fn query_time(left: u64) -> (limit: Option<u64>)
    ensures
        limit == (if left == 0 {
            None::<u64>
        } else if left < LIST_QUERY_NANOS {
            Some(left)
        } else {
            Some(LIST_QUERY_NANOS)
        }),
{
    if left == 0 {
        None
    } else if left < LIST_QUERY_NANOS {
        Some(left)
    } else {
        Some(LIST_QUERY_NANOS)
    }
}

/// What lists are read for.
#[derive(Debug)]
pub enum Reading {
    /// The first discovery, with the time limit that the user sets for the start.
    Discovery { init_timeout: Duration },
    /// A refresh, with what is left of its time in nanoseconds.
    Refresh { left: u64 },
}

/// How long the next query for a list may take: in the first discovery the time limit
/// for the start, anew for each query; in a refresh what `query_time` gives. `None`
/// where no time is left.
pub fn list_query_time(reading: Reading) -> (limit: Option<Duration>)
    ensures
        match reading {
            Reading::Discovery { init_timeout } => limit == Some(init_timeout),
            Reading::Refresh { left } => match limit {
                None => left == 0,
                Some(limit) => left > 0 && nanos(limit) == if left < LIST_QUERY_NANOS {
                    left as nat
                } else {
                    LIST_QUERY_NANOS as nat
                },
            },
        },
{
    match reading {
        Reading::Discovery { init_timeout } => Some(init_timeout),
        Reading::Refresh { left } => match query_time(left) {
            Some(limit) => Some(duration_from_nanos(limit)),
            None => None,
        },
    }
}

/// A list that is being read page by page.
#[derive(Debug)]
pub struct ListDrain {
    key: McpDataKey,
    items: Vec<Json>,
    cursor: Option<String>,
    page: usize,
}

/// The value of a `ListDrain`.
#[verifier::ext_equal]
pub struct DrainView {
    pub key: McpDataKey,
    pub items: Seq<JsonView>,
    pub cursor: Option<Seq<char>>,
    pub page: nat,
}

impl View for ListDrain {
    type V = DrainView;

    closed spec fn view(&self) -> DrainView {
        DrainView {
            key: self.key,
            items: items_view(self.items@),
            cursor: crate::backend_manager::opt_text(self.cursor),
            page: self.page as nat,
        }
    }
}

pub open spec fn drain_start(key: McpDataKey) -> DrainView {
    DrainView { key, items: Seq::empty(), cursor: None, page: 0 }
}

/// The items that a list holds.
pub open spec fn items_of(v: Option<JsonView>) -> Seq<JsonView> {
    match v {
        Some(JsonView::Arr(items)) => items,
        _ => Seq::empty(),
    }
}

/// What a page does: its items are added, and it is the last one if it names no
/// next page. Too many pages are an error.
pub open spec fn drain_step(d: DrainView, response: JsonView) -> Result<
    (DrainView, bool),
    Seq<char>,
> {
    match validated(response, list_field(d.key), data_method(d.key), d.page) {
        Err(message) => Err(message),
        Ok(result) => {
            let items = d.items + items_of(field(result, list_field(d.key)));
            match str_of(field(result, "nextCursor"@)) {
                None => Ok((DrainView { items, cursor: None, ..d }, true)),
                Some(cursor) => if d.page + 1 >= CACHE_PAGINATION_MAX_PAGES {
                    Err(data_method(d.key) + ": pagination drain cap reached"@)
                } else {
                    Ok(
                        (
                            DrainView { items, cursor: Some(cursor), page: d.page + 1, ..d },
                            false,
                        ),
                    )
                },
            }
        },
    }
}

impl ListDrain {
    /// Begins to read a list.
    pub fn start(key: McpDataKey) -> (d: ListDrain)
        ensures
            d@ == drain_start(key),
    {
        let d = ListDrain { key, items: Vec::new(), cursor: None, page: 0 };
        assert(d@.items =~= Seq::empty());
        d
    }

    /// Asks for the next page.
    pub fn request(&self, id: Json) -> (j: Json)
        ensures
            j@ == request_view(id@, data_method(self@.key), cursor_params(self@.cursor)),
    {
        let cursor = match &self.cursor {
            Some(c) => Some(c.as_str()),
            None => None,
        };
        build_list_request(id, method_for_mcp_data_key(&self.key), cursor)
    }

    /// Takes in a page; `true` where it was the last one.
    pub fn on_page(&mut self, response: &Json) -> (r: Result<bool, String>)
        requires
            old(self)@.page < CACHE_PAGINATION_MAX_PAGES,
        ensures
            match r {
                Ok(last) => drain_step(old(self)@, response@) == Ok::<(DrainView, bool), Seq<char>>(
                    (final(self)@, last),
                ),
                Err(message) => {
                    &&& drain_step(old(self)@, response@) == Err::<(DrainView, bool), Seq<char>>(
                        message@,
                    )
                    &&& final(self)@ == old(self)@
                },
            },
            final(self)@.page < CACHE_PAGINATION_MAX_PAGES,
    {
        let method = method_for_mcp_data_key(&self.key);
        let name = list_field_for(&self.key);
        let result = match validate_list_response(response, name, method, self.page) {
            Ok(result) => result,
            Err(message) => {
                return Err(message);
            },
        };
        let cursor = match field_text(result.get("nextCursor")) {
            Some(c) => Some(c.to_owned()),
            None => None,
        };
        if cursor.is_some() && self.page + 1 >= CACHE_PAGINATION_MAX_PAGES {
            return Err(join(method, ": pagination drain cap reached"));
        }
        let ghost before = self@.items;
        if let Some(list) = result.get(name) {
            if let Some(items) = list.as_array() {
                let mut i: usize = 0;
                assert(items_view(items@).take(0) =~= Seq::empty());
                while i < items.len()
                    invariant
                        i <= items@.len(),
                        items_view(self.items@) == before + items_view(items@).take(i as int),
                        self.key == old(self).key,
                        self.cursor == old(self).cursor,
                        self.page == old(self).page,
                    decreases items@.len() - i,
                {
                    let ghost so_far = self.items@;
                    self.items.push(items[i].copy());
                    proof {
                        let all = items_view(items@);
                        assert(all.take(i + 1) =~= all.take(i as int).push(all[i as int]));
                        assert(items_view(self.items@) =~= items_view(so_far).push(all[i as int]));
                        assert(items_view(self.items@) =~= before + all.take(i + 1));
                    }
                    i = i + 1;
                }
                assert(items_view(items@).take(items@.len() as int) =~= items_view(items@));
            }
        }
        let last = cursor.is_none();
        self.cursor = cursor;
        if !last {
            self.page = self.page + 1;
        }
        Ok(last)
    }

    /// The whole list, as one answer.
    pub fn result(&self) -> (j: Json)
        ensures
            j@ == list_result(self@.key, self@.items),
    {
        let mut j = Json::object();
        match self.key {
            McpDataKey::Initialize => {},
            _ => {
                let list = Json::from_items(copy_items(&self.items));
                j.set(list_field_for(&self.key), list);
            },
        }
        j
    }
}

fn copy_items(items: &Vec<Json>) -> (copy: Vec<Json>)
    ensures
        items_view(copy@) == items_view(items@),
{
    let mut copy: Vec<Json> = Vec::new();
    let mut i: usize = 0;
    while i < items.len()
        invariant
            i <= items@.len(),
            copy@.len() == i,
            forall|j: int| 0 <= j < i ==> (#[trigger] copy@[j])@ == items@[j]@,
        decreases items@.len() - i,
    {
        copy.push(items[i].copy());
        i = i + 1;
    }
    assert(items_view(copy@) =~= items_view(items@));
    copy
}

/// Reading a list from a sequence of answers: where it ends well, every answer was
/// used.
pub open spec fn drained(d: DrainView, pages: Seq<JsonView>) -> Option<DrainView>
    decreases pages.len(),
{
    if pages.len() == 0 {
        None
    } else {
        match drain_step(d, pages[0]) {
            Err(_) => None,
            Ok((next, last)) => if last {
                if pages.len() == 1 {
                    Some(next)
                } else {
                    None
                }
            } else {
                drained(next, pages.drop_first())
            },
        }
    }
}

/// The items on a list of pages, one page after the other.
pub open spec fn all_items(key: McpDataKey, pages: Seq<JsonView>) -> Seq<JsonView>
    decreases pages.len(),
{
    if pages.len() == 0 {
        Seq::empty()
    } else {
        items_of(opt_field(field(pages[0], "result"@), list_field(key))) + all_items(
            key,
            pages.drop_first(),
        )
    }
}

/// A list read to its end holds the items of all its pages, in order, and there
/// are no more pages than the cap.
pub proof fn law_drain_collects_every_page(d: DrainView, pages: Seq<JsonView>)
    requires
        d.page < CACHE_PAGINATION_MAX_PAGES,
    ensures
        drained(d, pages) matches Some(end) ==> {
            &&& end.key == d.key
            &&& end.items == d.items + all_items(d.key, pages)
            &&& d.page + pages.len() <= CACHE_PAGINATION_MAX_PAGES
        },
    decreases pages.len(),
{
    if pages.len() > 0 {
        match drain_step(d, pages[0]) {
            Err(_) => {},
            Ok((next, last)) => {
                let here = items_of(opt_field(field(pages[0], "result"@), list_field(d.key)));
                if last {
                    if pages.len() == 1 {
                        assert(all_items(d.key, pages.drop_first()) =~= Seq::empty());
                        assert(here + Seq::empty() =~= here);
                    }
                } else {
                    law_drain_collects_every_page(next, pages.drop_first());
                    assert(d.items + here + all_items(d.key, pages.drop_first()) =~= d.items + (
                    here + all_items(d.key, pages.drop_first())));
                }
            },
        }
    }
}

// ── Reading several lists ───────────────────────────────────────────

impl View for McpDataKey {
    type V = McpDataKey;

    open spec fn view(&self) -> McpDataKey {
        *self
    }
}

impl TableKey for McpDataKey {
    type Key = McpDataKey;

    open spec fn key(&self) -> McpDataKey {
        *self
    }

    fn same_key(&self, other: &McpDataKey) -> (same: bool) {
        *self == *other
    }

    fn copy_key(&self) -> (copy: McpDataKey) {
        *self
    }
}

/// Several lists that are read one after the other.
pub struct ListSweep {
    keys: Vec<McpDataKey>,
    at: usize,
    capabilities: Capabilities,
    responses: Table<McpDataKey, Json>,
    strict: bool,
    drain: Option<ListDrain>,
}

/// The value of a `ListSweep`.
#[verifier::ext_equal]
pub struct SweepView {
    /// The lists to read, in order.
    pub keys: Seq<McpDataKey>,
    /// How many of them are done.
    pub at: int,
    pub capabilities: Capabilities,
    /// The answers so far.
    pub responses: Map<McpDataKey, JsonView>,
    /// Whether a list that cannot be read ends the sweep; else it counts as empty.
    pub strict: bool,
    /// The list that is being read.
    pub drain: Option<DrainView>,
}

impl View for ListSweep {
    type V = SweepView;

    closed spec fn view(&self) -> SweepView {
        SweepView {
            keys: self.keys@,
            at: self.at as int,
            capabilities: self.capabilities,
            responses: self.responses@,
            strict: self.strict,
            drain: match self.drain {
                Some(d) => Some(d@),
                None => None,
            },
        }
    }
}

impl SweepView {
    /// The list that is being read is the next one.
    pub open spec fn sound(self) -> bool {
        &&& 0 <= self.at <= self.keys.len()
        &&& self.drain matches Some(d) ==> {
            &&& self.at < self.keys.len()
            &&& d.key == self.keys[self.at]
            &&& d.page < CACHE_PAGINATION_MAX_PAGES
        }
    }

    pub open spec fn finished(self) -> bool {
        self.at == self.keys.len() && self.drain is None
    }

    /// The sweep with an answer for its next list.
    pub open spec fn answered(self, answer: JsonView) -> SweepView {
        SweepView {
            at: self.at + 1,
            responses: self.responses.insert(self.keys[self.at], answer),
            drain: None,
            ..self
        }
    }

    /// The sweep at its next list that the server has: lists that it has not
    /// count as empty.
    pub open spec fn advanced(self) -> SweepView
        decreases self.keys.len() - self.at,
    {
        if self.drain is Some || self.at < 0 || self.at >= self.keys.len() {
            self
        } else if supported(self.capabilities, self.keys[self.at]) {
            SweepView { drain: Some(drain_start(self.keys[self.at])), ..self }
        } else {
            self.answered(empty_result(self.keys[self.at])).advanced()
        }
    }

    /// What a page of the list that is being read does.
    pub open spec fn paged(self, response: JsonView) -> Result<SweepView, Seq<char>> {
        match drain_step(self.drain->0, response) {
            Ok((next, last)) => Ok(
                if last {
                    self.answered(list_result(next.key, next.items))
                } else {
                    SweepView { drain: Some(next), ..self }
                },
            ),
            Err(message) => self.gave_up(message),
        }
    }

    /// What a list that cannot be read does.
    pub open spec fn gave_up(self, message: Seq<char>) -> Result<SweepView, Seq<char>> {
        if self.strict {
            Err(message)
        } else {
            Ok(self.answered(empty_result(self.keys[self.at])))
        }
    }
}

impl ListSweep {
    /// Begins to read lists. `strict`: a list that cannot be read ends the sweep.
    pub fn new(
        keys: Vec<McpDataKey>,
        capabilities: Capabilities,
        responses: Table<McpDataKey, Json>,
        strict: bool,
    ) -> (sweep: ListSweep)
        ensures
            sweep@ == (SweepView {
                keys: keys@,
                at: 0,
                capabilities,
                responses: responses@,
                strict,
                drain: None,
            }),
            sweep@.sound(),
    {
        ListSweep { keys, at: 0, capabilities, responses, strict, drain: None }
    }

    /// Goes on to the next list that the server has. `true` where there is one:
    /// then the next page is to be asked for. Else the sweep is finished.
    pub fn advance(&mut self) -> (asking: bool)
        requires
            old(self)@.sound(),
        ensures
            final(self)@ == old(self)@.advanced(),
            final(self)@.sound(),
            asking == (final(self)@.drain is Some),
            !asking ==> final(self)@.finished(),
    {
        while self.drain.is_none() && self.at < self.keys.len()
            invariant
                self@.sound(),
                self@.advanced() == old(self)@.advanced(),
            decreases self.keys@.len() - self.at, (if self.drain is None { 1int } else { 0int }),
        {
            let key = self.keys[self.at];
            if self.capabilities.supports(&key) {
                self.drain = Some(ListDrain::start(key));
            } else {
                self.responses.insert(key, empty_result_for(&key));
                self.at = self.at + 1;
            }
        }
        self.drain.is_some()
    }

    /// The method of the list that is being read.
    pub fn method(&self) -> (method: &'static str)
        requires
            self@.sound(),
            self@.drain is Some,
        ensures
            method@ == data_method(self@.keys[self@.at]),
    {
        method_for_mcp_data_key(&self.keys[self.at])
    }

    /// Asks for the next page of the list that is being read.
    pub fn request(&self, id: Json) -> (j: Json)
        requires
            self@.drain is Some,
        ensures
            j@ == request_view(
                id@,
                data_method(self@.drain->0.key),
                cursor_params(self@.drain->0.cursor),
            ),
    {
        match &self.drain {
            Some(d) => d.request(id),
            None => Json::Null,
        }
    }

    /// Takes in a page of the list that is being read.
    pub fn on_page(&mut self, response: &Json) -> (r: Result<(), String>)
        requires
            old(self)@.sound(),
            old(self)@.drain is Some,
        ensures
            match r {
                Ok(_) => old(self)@.paged(response@) == Ok::<SweepView, Seq<char>>(final(self)@),
                Err(message) => old(self)@.paged(response@) == Err::<SweepView, Seq<char>>(
                    message@,
                ),
            },
            final(self)@.sound(),
    {
        let mut drain = match self.drain.take() {
            Some(d) => d,
            None => {
                return Ok(());
            },
        };
        match drain.on_page(response) {
            Ok(last) => {
                if last {
                    let key = self.keys[self.at];
                    self.responses.insert(key, drain.result());
                    assert(self.at < self.keys.len());
                    self.at = self.at + 1;
                } else {
                    self.drain = Some(drain);
                }
                Ok(())
            },
            Err(message) => {
                self.drain = Some(drain);
                self.give_up(message)
            },
        }
    }

    /// The next page of the list that is being read could not be had.
    pub fn on_failure(&mut self, error: &str) -> (r: Result<(), String>)
        requires
            old(self)@.sound(),
            old(self)@.drain is Some,
        ensures
            ({
                let message = data_method(old(self)@.keys[old(self)@.at])
                    + ": list query failed: "@ + error@;
                match r {
                    Ok(_) => old(self)@.gave_up(message) == Ok::<SweepView, Seq<char>>(
                        final(self)@,
                    ),
                    Err(text) => old(self)@.gave_up(message) == Err::<SweepView, Seq<char>>(text@),
                }
            }),
            final(self)@.sound(),
    {
        let message = join3(self.method(), ": list query failed: ", error);
        self.give_up(message)
    }

    /// No time is left for the next page of the list that is being read.
    pub fn on_deadline(&mut self) -> (r: Result<(), String>)
        requires
            old(self)@.sound(),
            old(self)@.drain is Some,
        ensures
            ({
                let message = data_method(old(self)@.keys[old(self)@.at])
                    + ": cache refresh deadline exceeded"@;
                match r {
                    Ok(_) => old(self)@.gave_up(message) == Ok::<SweepView, Seq<char>>(
                        final(self)@,
                    ),
                    Err(text) => old(self)@.gave_up(message) == Err::<SweepView, Seq<char>>(text@),
                }
            }),
            final(self)@.sound(),
    {
        let message = join(self.method(), ": cache refresh deadline exceeded");
        self.give_up(message)
    }

    fn give_up(&mut self, message: String) -> (r: Result<(), String>)
        requires
            old(self)@.sound(),
            old(self)@.drain is Some,
        ensures
            match r {
                Ok(_) => old(self)@.gave_up(message@) == Ok::<SweepView, Seq<char>>(final(self)@),
                Err(text) => {
                    &&& old(self)@.gave_up(message@) == Err::<SweepView, Seq<char>>(text@)
                    &&& final(self)@ == old(self)@
                },
            },
            final(self)@.sound(),
    {
        if self.strict {
            return Err(message);
        }
        let key = self.keys[self.at];
        self.responses.insert(key, empty_result_for(&key));
        assert(self.at < self.keys.len());
        self.at = self.at + 1;
        self.drain = None;
        Ok(())
    }
}

/// Every list that is done has an answer, and the answers for lists that were not
/// asked for are those of `base`.
pub open spec fn answers_so_far(s: SweepView, base: Map<McpDataKey, JsonView>) -> bool {
    &&& forall|i: int| 0 <= i < s.at ==> s.responses.contains_key(#[trigger] s.keys[i])
    &&& forall|key: McpDataKey|
        !s.keys.contains(key) ==> (#[trigger] s.responses.contains_key(key)) == base.contains_key(
            key,
        ) && (base.contains_key(key) ==> s.responses[key] == base[key])
}

proof fn lemma_answer_keeps(s: SweepView, base: Map<McpDataKey, JsonView>, answer: JsonView)
    requires
        s.sound(),
        s.at < s.keys.len(),
        answers_so_far(s, base),
    ensures
        answers_so_far(s.answered(answer), base),
{
    assert(s.keys.contains(s.keys[s.at]));
    let next = s.answered(answer);
    assert forall|i: int| 0 <= i < next.at implies next.responses.contains_key(
        #[trigger] next.keys[i],
    ) by {
        if i < s.at {
            assert(s.responses.contains_key(s.keys[i]));
        }
    }
    assert forall|key: McpDataKey| !next.keys.contains(key) implies (
    #[trigger] next.responses.contains_key(key)) == base.contains_key(key) && (base.contains_key(
        key,
    ) ==> next.responses[key] == base[key]) by {
        assert(s.responses.contains_key(key) == base.contains_key(key));
    }
}

/// However a sweep goes on, every list that is done has an answer, and the answers
/// for lists that were not asked for stay; so a finished sweep has an answer for
/// each of its lists.
pub proof fn law_sweep_answers_every_list(
    s: SweepView,
    base: Map<McpDataKey, JsonView>,
    response: JsonView,
    message: Seq<char>,
)
    requires
        s.sound(),
        answers_so_far(s, base),
    ensures
        s.advanced().sound(),
        answers_so_far(s.advanced(), base),
        s.drain is Some ==> (s.paged(response) matches Ok(next) ==> answers_so_far(next, base)),
        s.drain is Some ==> (s.gave_up(message) matches Ok(next) ==> answers_so_far(next, base)),
    decreases s.keys.len() - s.at,
{
    if s.at < s.keys.len() {
        lemma_answer_keeps(s, base, empty_result(s.keys[s.at]));
    }
    if s.drain is Some {
        match drain_step(s.drain->0, response) {
            Ok((next, last)) => {
                if last {
                    lemma_answer_keeps(s, base, list_result(next.key, next.items));
                    assert(answers_so_far(
                        s.answered(list_result(next.key, next.items)),
                        base,
                    ));
                } else {
                    let on = SweepView { drain: Some(next), ..s };
                    assert(on.keys == s.keys && on.responses == s.responses && on.at == s.at);
                    assert forall|i: int| 0 <= i < on.at implies on.responses.contains_key(
                        #[trigger] on.keys[i],
                    ) by {
                        assert(s.responses.contains_key(s.keys[i]));
                    }
                    assert(answers_so_far(on, base));
                }
            },
            Err(why) => {
                assert(s.paged(response) == s.gave_up(why));
            },
        }
    }
    if s.drain is None && s.at < s.keys.len() && !supported(s.capabilities, s.keys[s.at]) {
        law_sweep_answers_every_list(
            s.answered(empty_result(s.keys[s.at])),
            base,
            response,
            message,
        );
    }
}

/// A cache that was filled by a sweep over all lists has an answer for every
/// discovery request.
pub proof fn law_discovered_cache_has_every_list(s: SweepView, c: CacheView, key: McpDataKey)
    requires
        answers_so_far(s, Map::empty()),
        s.finished(),
        s.keys == discovery_keys(),
        c.responses == s.responses,
    ensures
        served(c, key) is Some,
{
    assert(s.keys[0] == McpDataKey::ToolsList);
    assert(s.keys[1] == McpDataKey::PromptsList);
    assert(s.keys[2] == McpDataKey::ResourcesList);
    assert(s.keys[3] == McpDataKey::ResourceTemplatesList);
}

// ── Fingerprints ────────────────────────────────────────────────────

/// The fingerprint of a value: of its text.
pub open spec fn value_fingerprint(v: JsonView) -> Seq<char> {
    digest(texts_writes(seq![json_text(v)]))
}

/// The fingerprint of a value.
pub fn hash_value(value: &Json) -> (hash: String)
    ensures
        hash@ == value_fingerprint(value@),
{
    let mut texts: Vec<String> = Vec::new();
    texts.push(to_text(value));
    assert(crate::cli::texts(texts@) =~= seq![json_text(value@)]);
    texts_fingerprint(texts.as_slice())
}

/// The value of a field, or null.
pub open spec fn or_null(v: Option<JsonView>) -> JsonView {
    match v {
        Some(v) => v,
        None => JsonView::Null,
    }
}

pub open spec fn response_of(responses: Map<McpDataKey, JsonView>, key: McpDataKey) -> Option<
    JsonView,
> {
    if responses.contains_key(key) {
        Some(responses[key])
    } else {
        None
    }
}

/// The texts that make up what was discovered.
pub open spec fn discovery_texts(
    server_info: JsonView,
    responses: Map<McpDataKey, JsonView>,
) -> Seq<Seq<char>> {
    seq![
        json_text(server_info),
        json_text(or_null(response_of(responses, McpDataKey::ToolsList))),
        json_text(or_null(response_of(responses, McpDataKey::PromptsList))),
        json_text(or_null(response_of(responses, McpDataKey::ResourcesList))),
        json_text(or_null(response_of(responses, McpDataKey::ResourceTemplatesList))),
    ]
}

/// The fingerprint of what was discovered: of the server's own data alone.
pub open spec fn discovery_fingerprint(
    server_info: JsonView,
    responses: Map<McpDataKey, JsonView>,
) -> Seq<char> {
    digest(texts_writes(discovery_texts(server_info, responses)))
}

fn response_text(responses: &Table<McpDataKey, Json>, key: McpDataKey) -> (text: String)
    ensures
        text@ == json_text(or_null(response_of(responses@, key))),
{
    match responses.get(&key) {
        Some(v) => to_text(v),
        None => to_text(&Json::Null),
    }
}

/// The fingerprint of what was discovered.
pub fn discovery_hash(server_info: &Json, responses: &Table<McpDataKey, Json>) -> (hash: String)
    ensures
        hash@ == discovery_fingerprint(server_info@, responses@),
{
    let mut texts: Vec<String> = Vec::new();
    texts.push(to_text(server_info));
    texts.push(response_text(responses, McpDataKey::ToolsList));
    texts.push(response_text(responses, McpDataKey::PromptsList));
    texts.push(response_text(responses, McpDataKey::ResourcesList));
    texts.push(response_text(responses, McpDataKey::ResourceTemplatesList));
    assert(crate::cli::texts(texts@) =~= discovery_texts(server_info@, responses@));
    texts_fingerprint(texts.as_slice())
}

// ── The cache ───────────────────────────────────────────────────────

/// The cached discovery answers. The server's own data and the views that clients
/// get of it are kept side by side.
pub struct Cache {
    responses: Table<McpDataKey, Json>,
    server_info: Json,
    backend_generation: u64,
    cache_epoch: u64,
    capabilities_hash: String,
    discovery_hash: String,
    tools_list_view: Json,
    initialize_view: Json,
}

/// The value of a `Cache`: the server's own data, which backend it is from, and
/// how often it changed.
#[verifier::ext_equal]
pub struct CacheView {
    pub responses: Map<McpDataKey, JsonView>,
    pub server_info: JsonView,
    pub backend_generation: u64,
    pub cache_epoch: u64,
}

impl View for Cache {
    type V = CacheView;

    closed spec fn view(&self) -> CacheView {
        CacheView {
            responses: self.responses@,
            server_info: self.server_info@,
            backend_generation: self.backend_generation,
            cache_epoch: self.cache_epoch,
        }
    }
}

/// The list of tools that clients get.
pub open spec fn tools_view(responses: Map<McpDataKey, JsonView>) -> JsonView {
    with_wrapper_tool(
        match response_of(responses, McpDataKey::ToolsList) {
            Some(list) => list,
            None => empty_result(McpDataKey::ToolsList),
        },
    )
}

/// What clients get for a key.
pub open spec fn served(c: CacheView, key: McpDataKey) -> Option<JsonView> {
    match key {
        McpDataKey::Initialize => Some(with_tools_capability(c.server_info)),
        McpDataKey::ToolsList => Some(tools_view(c.responses)),
        _ => response_of(c.responses, key),
    }
}

/// What is told about the cache.
#[derive(Debug)]
pub struct McpSnapshot {
    pub backend_generation: u64,
    pub cache_epoch: u64,
    pub server_info: Json,
    pub capabilities_hash: String,
    pub discovery_hash: String,
}

pub open spec fn mcp_snapshot_json(c: CacheView) -> JsonView {
    JsonView::Obj(
        map![
            "backendGeneration"@ => uint_view(c.backend_generation),
            "cacheEpoch"@ => uint_view(c.cache_epoch),
            "serverInfo"@ => c.server_info,
            "capabilitiesHash"@ => JsonView::Str(
                value_fingerprint(or_null(field(c.server_info, "capabilities"@))),
            ),
            "discoveryHash"@ => JsonView::Str(discovery_fingerprint(c.server_info, c.responses)),
        ],
    )
}

impl McpSnapshot {
    /// Whether this is the snapshot of a cache.
    pub open spec fn tells(&self, c: CacheView) -> bool {
        &&& self.backend_generation == c.backend_generation
        &&& self.cache_epoch == c.cache_epoch
        &&& self.server_info@ == c.server_info
        &&& self.capabilities_hash@ == value_fingerprint(
            or_null(field(c.server_info, "capabilities"@)),
        )
        &&& self.discovery_hash@ == discovery_fingerprint(c.server_info, c.responses)
    }

    pub open spec fn json(&self) -> JsonView {
        JsonView::Obj(
            map![
                "backendGeneration"@ => uint_view(self.backend_generation),
                "cacheEpoch"@ => uint_view(self.cache_epoch),
                "serverInfo"@ => self.server_info@,
                "capabilitiesHash"@ => JsonView::Str(self.capabilities_hash@),
                "discoveryHash"@ => JsonView::Str(self.discovery_hash@),
            ],
        )
    }

    pub fn to_value(&self) -> (j: Json)
        ensures
            j@ == self.json(),
    {
        let mut j = Json::object();
        j.set("backendGeneration", Json::UInt(self.backend_generation));
        j.set("cacheEpoch", Json::UInt(self.cache_epoch));
        j.set("serverInfo", self.server_info.copy());
        j.set("capabilitiesHash", Json::Str(self.capabilities_hash.clone()));
        j.set("discoveryHash", Json::Str(self.discovery_hash.clone()));
        j
    }
}

/// What a refresh did.
#[derive(Debug)]
pub struct RefreshReport {
    pub old_cache_epoch: u64,
    pub new_cache_epoch: u64,
    pub old_discovery_hash: String,
    pub new_discovery_hash: String,
    pub changed: bool,
}

/// The value of a `RefreshReport`.
#[verifier::ext_equal]
pub struct ReportView {
    pub old_cache_epoch: u64,
    pub new_cache_epoch: u64,
    pub old_discovery_hash: Seq<char>,
    pub new_discovery_hash: Seq<char>,
    pub changed: bool,
}

impl View for RefreshReport {
    type V = ReportView;

    open spec fn view(&self) -> ReportView {
        ReportView {
            old_cache_epoch: self.old_cache_epoch,
            new_cache_epoch: self.new_cache_epoch,
            old_discovery_hash: self.old_discovery_hash@,
            new_discovery_hash: self.new_discovery_hash@,
            changed: self.changed,
        }
    }
}

pub open spec fn report_json(r: ReportView) -> JsonView {
    JsonView::Obj(
        map![
            "oldCacheEpoch"@ => uint_view(r.old_cache_epoch),
            "newCacheEpoch"@ => uint_view(r.new_cache_epoch),
            "oldDiscoveryHash"@ => JsonView::Str(r.old_discovery_hash),
            "newDiscoveryHash"@ => JsonView::Str(r.new_discovery_hash),
            "changed"@ => JsonView::Bool(r.changed),
        ],
    )
}

impl RefreshReport {
    pub fn to_value(&self) -> (j: Json)
        ensures
            j@ == report_json(self@),
    {
        let mut j = Json::object();
        j.set("oldCacheEpoch", Json::UInt(self.old_cache_epoch));
        j.set("newCacheEpoch", Json::UInt(self.new_cache_epoch));
        j.set("oldDiscoveryHash", Json::Str(self.old_discovery_hash.clone()));
        j.set("newDiscoveryHash", Json::Str(self.new_discovery_hash.clone()));
        j.set("changed", Json::Bool(self.changed));
        j
    }
}

/// A refresh on its way: what it started from and what it has read so far.
pub struct Refresh {
    sweep: ListSweep,
    server_info: Json,
    backend_generation: u64,
    base_generation: u64,
    base_epoch: u64,
    base_hash: String,
}

/// The value of a `Refresh`.
#[verifier::ext_equal]
pub struct RefreshView {
    pub sweep: SweepView,
    pub server_info: JsonView,
    /// The generation of the backend that is asked.
    pub backend_generation: u64,
    /// The generation, epoch and fingerprint of the cache when it began.
    pub base_generation: u64,
    pub base_epoch: u64,
    pub base_hash: Seq<char>,
}

impl View for Refresh {
    type V = RefreshView;

    closed spec fn view(&self) -> RefreshView {
        RefreshView {
            sweep: self.sweep@,
            server_info: self.server_info@,
            backend_generation: self.backend_generation,
            base_generation: self.base_generation,
            base_epoch: self.base_epoch,
            base_hash: self.base_hash@,
        }
    }
}

impl Refresh {
    /// The lists that are being read.
    pub fn sweep(&mut self) -> (sweep: &mut ListSweep)
        ensures
            sweep@ == old(self)@.sweep,
            final(self)@ == (RefreshView { sweep: final(sweep)@, ..old(self)@ }),
    {
        &mut self.sweep
    }
}

/// How a refresh begins.
pub open spec fn refresh_start(
    c: CacheView,
    backend_generation: u64,
    server_info: Option<JsonView>,
    keys: Seq<McpDataKey>,
) -> RefreshView {
    let info = match server_info {
        Some(info) => info,
        None => c.server_info,
    };
    RefreshView {
        sweep: SweepView {
            keys,
            at: 0,
            capabilities: capabilities_of(info),
            responses: c.responses,
            strict: true,
            drain: None,
        },
        server_info: info,
        backend_generation,
        base_generation: c.backend_generation,
        base_epoch: c.cache_epoch,
        base_hash: discovery_fingerprint(c.server_info, c.responses),
    }
}

/// Whether a refresh found anything new.
pub open spec fn found_news(r: RefreshView) -> bool {
    ||| discovery_fingerprint(r.server_info, r.sweep.responses) != r.base_hash
    ||| r.backend_generation != r.base_generation
}

/// The report of a refresh.
pub open spec fn refresh_report(r: RefreshView) -> ReportView {
    ReportView {
        old_cache_epoch: r.base_epoch,
        new_cache_epoch: if found_news(r) {
            (r.base_epoch + 1) as u64
        } else {
            r.base_epoch
        },
        old_discovery_hash: r.base_hash,
        new_discovery_hash: discovery_fingerprint(r.server_info, r.sweep.responses),
        changed: found_news(r),
    }
}

/// The cache after a refresh.
pub open spec fn refreshed(r: RefreshView) -> CacheView {
    CacheView {
        responses: r.sweep.responses,
        server_info: r.server_info,
        backend_generation: r.backend_generation,
        cache_epoch: refresh_report(r).new_cache_epoch,
    }
}

/// Why a refresh cannot be committed, if it cannot: another backend is up, or the
/// cache changed meanwhile.
pub open spec fn commit_fault(c: CacheView, r: RefreshView, generation_now: u64) -> Option<
    Seq<char>,
> {
    if generation_now != r.backend_generation {
        Some("backend generation changed while refresh candidate was building"@)
    } else if c.cache_epoch != r.base_epoch || c.backend_generation != r.base_generation {
        Some("cache snapshot changed while refresh candidate was building"@)
    } else {
        None
    }
}

fn copy_responses(responses: &Table<McpDataKey, Json>) -> (copy: Table<McpDataKey, Json>)
    ensures
        copy@ == responses@,
{
    let mut copy: Table<McpDataKey, Json> = Table::new();
    let count = responses.len();
    let ghost rows = responses.row_views();
    let mut i: usize = 0;
    assert(rows.take(0) =~= Seq::empty());
    while i < count
        invariant
            i <= count,
            count == rows.len(),
            rows == responses.row_views(),
            copy@ == rows_map(rows.take(i as int)),
        decreases count - i,
    {
        copy.insert(*responses.key_at(i), responses.value_at(i).copy());
        proof {
            assert(rows.take(i + 1).drop_last() =~= rows.take(i as int));
            assert(rows.take(i + 1).last() == rows[i as int]);
        }
        i = i + 1;
    }
    assert(rows.take(rows.len() as int) =~= rows);
    copy
}

fn capabilities_hash_of(server_info: &Json) -> (hash: String)
    ensures
        hash@ == value_fingerprint(or_null(field(server_info@, "capabilities"@))),
{
    match server_info.get("capabilities") {
        Some(caps) => hash_value(caps),
        None => hash_value(&Json::Null),
    }
}

fn tools_view_of(responses: &Table<McpDataKey, Json>) -> (j: Json)
    ensures
        j@ == tools_view(responses@),
{
    match responses.get(&McpDataKey::ToolsList) {
        Some(list) => merge_tools_list(list.copy()),
        None => merge_tools_list(empty_result_for(&McpDataKey::ToolsList)),
    }
}

impl Cache {
    /// The views and fingerprints are those of the data.
    pub closed spec fn wf(&self) -> bool {
        &&& self.tools_list_view@ == tools_view(self.responses@)
        &&& self.initialize_view@ == with_tools_capability(self.server_info@)
        &&& self.capabilities_hash@ == value_fingerprint(
            or_null(field(self.server_info@, "capabilities"@)),
        )
        &&& self.discovery_hash@ == discovery_fingerprint(self.server_info@, self.responses@)
    }

    /// A cache of what a backend answered.
    pub fn build(
        server_info: Json,
        responses: Table<McpDataKey, Json>,
        backend_generation: u64,
        cache_epoch: u64,
    ) -> (cache: Cache)
        ensures
            cache@ == (CacheView {
                responses: responses@,
                server_info: server_info@,
                backend_generation,
                cache_epoch,
            }),
            cache.wf(),
    {
        let capabilities_hash = capabilities_hash_of(&server_info);
        let discovery_hash = discovery_hash(&server_info, &responses);
        let tools_list_view = tools_view_of(&responses);
        let initialize_view = merge_initialize_result(server_info.copy());
        Cache {
            responses,
            server_info,
            backend_generation,
            cache_epoch,
            capabilities_hash,
            discovery_hash,
            tools_list_view,
            initialize_view,
        }
    }

    /// Begins the first discovery of a server: lists that cannot be read count as
    /// empty.
    pub fn begin_discovery(server_info: &Json) -> (sweep: ListSweep)
        ensures
            sweep@ == (SweepView {
                keys: discovery_keys(),
                at: 0,
                capabilities: capabilities_of(server_info@),
                responses: Map::empty(),
                strict: false,
                drain: None,
            }),
            sweep@.sound(),
    {
        ListSweep::new(
            discovery_data_keys(),
            Capabilities::from_server_info(server_info),
            Table::new(),
            false,
        )
    }

    /// The cache after the first discovery.
    pub fn from_discovery(server_info: Json, sweep: ListSweep, backend_generation: u64) -> (cache:
        Cache)
        requires
            sweep@.finished(),
        ensures
            cache@ == (CacheView {
                responses: sweep@.responses,
                server_info: server_info@,
                backend_generation,
                cache_epoch: 1,
            }),
            cache.wf(),
    {
        Cache::build(server_info, sweep.responses, backend_generation, 1)
    }

    /// What clients get for a key.
    pub fn lookup(&self, key: &McpDataKey) -> (answer: Option<Json>)
        requires
            self.wf(),
        ensures
            opt_view(answer) == served(self@, *key),
    {
        match key {
            McpDataKey::Initialize => Some(self.initialize_view.copy()),
            McpDataKey::ToolsList => Some(self.tools_list_view.copy()),
            _ => copied(self.responses.get(key)),
        }
    }

    /// What is told about the cache.
    pub fn snapshot(&self) -> (snapshot: McpSnapshot)
        requires
            self.wf(),
        ensures
            snapshot.tells(self@),
    {
        McpSnapshot {
            backend_generation: self.backend_generation,
            cache_epoch: self.cache_epoch,
            server_info: self.server_info.copy(),
            capabilities_hash: self.capabilities_hash.clone(),
            discovery_hash: self.discovery_hash.clone(),
        }
    }

    /// Begins to read lists again, from the backend of a generation. It needs a
    /// live backend. What the backend said of itself in its handshake counts
    /// where it is known.
    pub fn begin_refresh(
        &self,
        live: bool,
        backend_generation: u64,
        server_info: Option<Json>,
        keys: Vec<McpDataKey>,
    ) -> (r: Result<Refresh, String>)
        requires
            self.wf(),
        ensures
            match r {
                Ok(refresh) => {
                    &&& live
                    &&& refresh@ == refresh_start(
                        self@,
                        backend_generation,
                        opt_view(server_info),
                        keys@,
                    )
                    &&& refresh@.sweep.sound()
                },
                Err(message) => !live && message@ == "backend unavailable for cache refresh"@,
            },
    {
        if !live {
            return Err("backend unavailable for cache refresh".to_owned());
        }
        let info = match server_info {
            Some(info) => info,
            None => self.server_info.copy(),
        };
        let sweep = ListSweep::new(
            keys,
            Capabilities::from_server_info(&info),
            copy_responses(&self.responses),
            true,
        );
        Ok(
            Refresh {
                sweep,
                server_info: info,
                backend_generation,
                base_generation: self.backend_generation,
                base_epoch: self.cache_epoch,
                base_hash: self.discovery_hash.clone(),
            },
        )
    }

    /// Takes over what a refresh has read, all at once, or nothing of it where the
    /// backend or the cache changed meanwhile.
    pub fn commit_refresh(&mut self, refresh: Refresh, generation_now: u64) -> (r: Result<
        RefreshReport,
        String,
    >)
        requires
            old(self).wf(),
            refresh@.sweep.finished(),
            refresh@.base_epoch < u64::MAX,
        ensures
            final(self).wf(),
            match r {
                Ok(report) => {
                    &&& commit_fault(old(self)@, refresh@, generation_now) is None
                    &&& report@ == refresh_report(refresh@)
                    &&& final(self)@ == refreshed(refresh@)
                },
                Err(message) => {
                    &&& commit_fault(old(self)@, refresh@, generation_now) == Some(message@)
                    &&& final(self)@ == old(self)@
                },
            },
    {
        if generation_now != refresh.backend_generation {
            return Err(
                "backend generation changed while refresh candidate was building".to_owned(),
            );
        }
        if self.cache_epoch != refresh.base_epoch || self.backend_generation
            != refresh.base_generation {
            return Err("cache snapshot changed while refresh candidate was building".to_owned());
        }
        let Refresh { sweep, server_info, backend_generation, base_generation, base_epoch, base_hash } =
            refresh;
        let new_hash = discovery_hash(&server_info, &sweep.responses);
        let changed = !crate::text::text_eq(new_hash.as_str(), base_hash.as_str())
            || backend_generation != base_generation;
        let new_cache_epoch: u64 = if changed {
            base_epoch + 1
        } else {
            base_epoch
        };
        let next = Cache::build(server_info, sweep.responses, backend_generation, new_cache_epoch);
        *self = next;
        Ok(
            RefreshReport {
                old_cache_epoch: base_epoch,
                new_cache_epoch,
                old_discovery_hash: base_hash,
                new_discovery_hash: new_hash,
                changed,
            },
        )
    }
}

/// The epoch never goes back, and goes on by one exactly where a refresh found
/// news; without news nothing that clients or the fingerprint can tell differs.
pub proof fn law_epoch_counts_changes(c: CacheView, r: RefreshView, generation_now: u64)
    requires
        commit_fault(c, r, generation_now) is None,
        r.base_epoch < u64::MAX,
        r.base_hash == discovery_fingerprint(c.server_info, c.responses),
    ensures
        refreshed(r).cache_epoch == c.cache_epoch + if found_news(r) {
            1int
        } else {
            0int
        },
        !found_news(r) ==> refreshed(r).backend_generation == c.backend_generation
            && discovery_fingerprint(refreshed(r).server_info, refreshed(r).responses)
            == discovery_fingerprint(c.server_info, c.responses),
{
}

/// Two refreshes that began from the same cache cannot both be committed, where
/// the first found news.
pub proof fn law_stale_refresh_is_refused(
    c: CacheView,
    first: RefreshView,
    second: RefreshView,
    generation_now: u64,
    later: u64,
)
    requires
        commit_fault(c, first, generation_now) is None,
        first.base_epoch < u64::MAX,
        found_news(first),
        second.base_epoch == c.cache_epoch,
    ensures
        commit_fault(refreshed(first), second, later) is Some,
{
}

/// A refresh that crosses a restart of the backend is refused.
pub proof fn law_refresh_across_restart_is_refused(c: CacheView, r: RefreshView, now: u64)
    requires
        now != r.backend_generation,
    ensures
        commit_fault(c, r, now) is Some,
{
}

/// What clients are served never flows back: the fingerprint is that of the
/// server's own data, which is also what the next refresh starts from.
pub proof fn law_views_do_not_flow_back(c: CacheView, generation: u64, keys: Seq<McpDataKey>)
    ensures
        refresh_start(c, generation, None, keys).base_hash == discovery_fingerprint(
            c.server_info,
            c.responses,
        ),
        refresh_start(c, generation, None, keys).sweep.responses == c.responses,
        refresh_start(c, generation, None, keys).server_info == c.server_info,
{
}

// ── What discovery and the cache are for ────────────────────────────

/// A list is found in its answers under the first word of its method; templates of
/// resources have a word of their own.
pub proof fn law_lists_are_named_by_their_methods(key: McpDataKey)
    ensures
        key != McpDataKey::Initialize && key != McpDataKey::ResourceTemplatesList
            ==> data_method(key) == list_field(key) + "/list"@,
        data_method(McpDataKey::ResourceTemplatesList) == "resources"@ + "/templates/list"@,
        list_field(McpDataKey::ResourceTemplatesList) == "resource"@ + "Templates"@,
        list_field(McpDataKey::ToolsList) == "tools"@,
        list_field(McpDataKey::PromptsList) == "prompts"@,
        list_field(McpDataKey::ResourcesList) == "resources"@,
        data_method(McpDataKey::Initialize) == "initialize"@,
{
    reveal_strlit("tools");
    reveal_strlit("prompts");
    reveal_strlit("resources");
    reveal_strlit("resourceTemplates");
    reveal_strlit("resource");
    reveal_strlit("Templates");
    reveal_strlit("/list");
    reveal_strlit("/templates/list");
    reveal_strlit("tools/list");
    reveal_strlit("prompts/list");
    reveal_strlit("resources/list");
    reveal_strlit("resources/templates/list");
    assert("tools"@.len() == 5);
    assert("prompts"@.len() == 7);
    assert("resources"@.len() == 9);
    assert("resourceTemplates"@.len() == 17);
    assert("resource"@.len() == 8);
    assert("Templates"@.len() == 9);
    assert("/list"@.len() == 5);
    assert("/templates/list"@.len() == 15);
    assert("tools/list"@.len() == 10);
    assert("prompts/list"@.len() == 12);
    assert("resources/list"@.len() == 14);
    assert("resources/templates/list"@.len() == 24);
    assert("tools"@[0] != "/list"@[0]);
    assert("resources"@[0] != "Templates"@[0]);
    assert("tools"@ + "/list"@ =~= "tools/list"@);
    assert("prompts"@ + "/list"@ =~= "prompts/list"@);
    assert("resources"@ + "/list"@ =~= "resources/list"@);
    assert("resources"@ + "/templates/list"@ =~= "resources/templates/list"@);
    assert("resource"@ + "Templates"@ =~= "resourceTemplates"@);
}

/// A valid page adds its items, in order, to those that were read. It ends the list
/// exactly where it names no next page; where it names one, reading goes on there,
/// unless a hundred pages have been read.
pub proof fn law_page_ends_the_list_only_without_a_next_page(
    d: DrainView,
    response: JsonView,
    result: Map<Seq<char>, JsonView>,
    items: Seq<JsonView>,
)
    requires
        field(response, "error"@) is None,
        field(response, "result"@) == Some(JsonView::Obj(result)),
        result.contains_key(list_field(d.key)),
        result[list_field(d.key)] == JsonView::Arr(items),
    ensures
        result.contains_key("nextCursor"@) ==> (result["nextCursor"@] matches JsonView::Str(next)
            ==> if d.page + 1 < 100 {
            drain_step(d, response) == Ok::<(DrainView, bool), Seq<char>>(
                (
                    DrainView {
                        key: d.key,
                        items: d.items + items,
                        cursor: Some(next),
                        page: d.page + 1,
                    },
                    false,
                ),
            )
        } else {
            drain_step(d, response) is Err
        }),
        !result.contains_key("nextCursor"@) || result["nextCursor"@] is Null ==> drain_step(
            d,
            response,
        ) == Ok::<(DrainView, bool), Seq<char>>(
            (
                DrainView { key: d.key, items: d.items + items, cursor: None, page: d.page },
                true,
            ),
        ),
        result.contains_key("nextCursor"@) && !(result["nextCursor"@] is Null) && !(
        result["nextCursor"@] is Str) ==> drain_step(d, response) is Err,
{
}

/// An answer that is an error, or has no such list, is no page.
pub proof fn law_what_is_no_page_is_refused(d: DrainView, response: JsonView)
    ensures
        field(response, "error"@) is Some ==> drain_step(d, response) is Err,
        !(field(response, "result"@) matches Some(result) && field(result, list_field(d.key))
            matches Some(list) && list is Arr) ==> drain_step(d, response) is Err,
{
}

/// Whether an answer is a valid page of a list with these items and this next page.
pub open spec fn is_page(
    response: JsonView,
    name: Seq<char>,
    items: Seq<JsonView>,
    next: Option<Seq<char>>,
) -> bool {
    &&& field(response, "error"@) is None
    &&& field(response, "result"@) matches Some(result) && {
        &&& result is Obj
        &&& field(result, name) == Some(JsonView::Arr(items))
        &&& field(result, "nextCursor"@) == match next {
            Some(cursor) => Some(JsonView::Str(cursor)),
            None => None,
        }
    }
}

/// Up to a hundred pages, each of which but the last names a next one, are all read,
/// and the list holds the items of all of them, one page after the other.
pub proof fn law_every_page_is_read(
    d: DrainView,
    pages: Seq<JsonView>,
    items: Seq<Seq<JsonView>>,
    cursors: Seq<Option<Seq<char>>>,
)
    requires
        pages.len() > 0,
        d.page + pages.len() <= 100,
        items.len() == pages.len(),
        cursors.len() == pages.len(),
        forall|i: int|
            0 <= i < pages.len() ==> is_page(
                #[trigger] pages[i],
                list_field(d.key),
                items[i],
                cursors[i],
            ),
        forall|i: int| 0 <= i < pages.len() ==> (#[trigger] cursors[i] is Some) == (i < pages.len()
            - 1),
    ensures
        drained(d, pages) matches Some(end) && end.key == d.key && end.items == d.items
            + items.flatten(),
    decreases pages.len(),
{
    let response = pages[0];
    assert(is_page(response, list_field(d.key), items[0], cursors[0]));
    let result = field(response, "result"@)->0;
    law_page_ends_the_list_only_without_a_next_page(d, response, result->Obj_0, items[0]);
    assert(cursors[0] is Some == (0 < pages.len() - 1));
    if pages.len() == 1 {
        assert(items.drop_first().flatten() =~= Seq::empty());
        assert(items.flatten() =~= items[0]);
    } else {
        assert(result->Obj_0["nextCursor"@] == JsonView::Str(cursors[0]->0));
        let next = drain_step(d, response)->Ok_0.0;
        let rest = pages.drop_first();
        assert forall|i: int| 0 <= i < rest.len() implies is_page(
            #[trigger] rest[i],
            list_field(next.key),
            items.drop_first()[i],
            cursors.drop_first()[i],
        ) by {
            assert(rest[i] == pages[i + 1]);
        }
        assert forall|i: int| 0 <= i < rest.len() implies (#[trigger] cursors.drop_first()[i]
            is Some) == (i < rest.len() - 1) by {
            assert(cursors[i + 1] is Some == (i + 1 < pages.len() - 1));
        }
        law_every_page_is_read(next, rest, items.drop_first(), cursors.drop_first());
        assert(d.items + items[0] + items.drop_first().flatten() =~= d.items + (items[0]
            + items.drop_first().flatten()));
    }
}

/// The answer for a list holds its items under the name of the list, and nothing else.
pub proof fn law_list_answer_holds_its_items(
    key: McpDataKey,
    items: Seq<JsonView>,
    other: Seq<char>,
)
    requires
        key != McpDataKey::Initialize,
    ensures
        field(list_result(key, items), list_field(key)) == Some(JsonView::Arr(items)),
        other != list_field(key) ==> field(list_result(key, items), other) is None,
        field(empty_result(key), list_field(key)) == Some(JsonView::Arr(Seq::empty())),
{
}

/// Prompts, resources and resource templates are served exactly as the server gave
/// them, and nothing is served that the server did not give.
pub proof fn law_other_lists_are_served_as_they_are(c: CacheView, key: McpDataKey)
    requires
        key != McpDataKey::Initialize,
        key != McpDataKey::ToolsList,
    ensures
        c.responses.contains_key(key) ==> served(c, key) == Some(c.responses[key]),
        !c.responses.contains_key(key) ==> served(c, key) is None,
{
}

/// The tools that are served are the server's, in its order and without any under the
/// reserved name, and then the proxy's own; whatever else the server said about its
/// tools is served too.
pub proof fn law_tools_are_served_with_the_proxys_own(
    c: CacheView,
    tools: Seq<JsonView>,
    other: Seq<char>,
)
    requires
        c.responses.contains_key(McpDataKey::ToolsList),
        field(c.responses[McpDataKey::ToolsList], "tools"@) == Some(JsonView::Arr(tools)),
    ensures
        served(c, McpDataKey::ToolsList) matches Some(list) && field(list, "tools"@) matches Some(
            JsonView::Arr(all),
        ) && {
            &&& all.len() > 0
            &&& all.drop_last() == tools.filter(
                |tool: JsonView| field(tool, "name"@) != Some(JsonView::Str("mcp.wrapper"@)),
            )
            &&& field(all.last(), "name"@) == Some(JsonView::Str("mcp.wrapper"@))
            &&& other != "tools"@ ==> field(list, other) == field(
                c.responses[McpDataKey::ToolsList],
                other,
            )
        },
{
    crate::tools::wrapper::law_merged_tools_are_the_servers_and_the_proxys(
        c.responses[McpDataKey::ToolsList],
        tools,
        other,
    );
}

/// What the server says of itself is served, with every field but its capabilities as
/// it is, and with every capability that it has.
pub proof fn law_handshake_is_served(c: CacheView, other: Seq<char>)
    requires
        c.server_info is Obj,
    ensures
        served(c, McpDataKey::Initialize) matches Some(info) && {
            &&& other != "capabilities"@ ==> field(info, other) == field(c.server_info, other)
            &&& opt_field(field(info, "capabilities"@), "tools"@) is Some
            &&& opt_field(field(c.server_info, "capabilities"@), other) is Some ==> opt_field(
                field(info, "capabilities"@),
                other,
            ) == opt_field(field(c.server_info, "capabilities"@), other)
        },
{
    crate::tools::wrapper::law_merged_handshake_offers_tools(c.server_info, other);
}

/// A sweep after the answers to a number of requests for pages.
pub open spec fn after_pages(s: SweepView, pages: Seq<JsonView>) -> Result<SweepView, Seq<char>>
    decreases pages.len(),
{
    if pages.len() == 0 {
        Ok(s)
    } else {
        match s.paged(pages[0]) {
            Ok(next) => after_pages(next, pages.drop_first()),
            Err(message) => Err(message),
        }
    }
}

/// A list that the server gave page by page is done once its last page was read, and
/// then it is kept with the items of all its pages, in order. No other answer changes.
pub proof fn law_read_list_is_kept_whole(
    s: SweepView,
    d: DrainView,
    pages: Seq<JsonView>,
    items: Seq<Seq<JsonView>>,
    cursors: Seq<Option<Seq<char>>>,
    other: McpDataKey,
)
    requires
        s.sound(),
        s.drain == Some(d),
        d.key != McpDataKey::Initialize,
        pages.len() > 0,
        d.page + pages.len() <= 100,
        items.len() == pages.len(),
        cursors.len() == pages.len(),
        forall|i: int|
            0 <= i < pages.len() ==> is_page(
                #[trigger] pages[i],
                list_field(d.key),
                items[i],
                cursors[i],
            ),
        forall|i: int| 0 <= i < pages.len() ==> (#[trigger] cursors[i] is Some) == (i < pages.len()
            - 1),
    ensures
        after_pages(s, pages) matches Ok(end) && {
            &&& end.drain is None
            &&& end.at == s.at + 1
            &&& end.keys == s.keys
            &&& end.responses.contains_key(d.key)
            &&& field(end.responses[d.key], list_field(d.key)) == Some(
                JsonView::Arr(d.items + items.flatten()),
            )
            &&& other != d.key ==> end.responses.contains_key(other) == s.responses.contains_key(
                other,
            ) && (s.responses.contains_key(other) ==> end.responses[other] == s.responses[other])
        },
    decreases pages.len(),
{
    let response = pages[0];
    assert(is_page(response, list_field(d.key), items[0], cursors[0]));
    let result = field(response, "result"@)->0;
    law_page_ends_the_list_only_without_a_next_page(d, response, result->Obj_0, items[0]);
    assert(cursors[0] is Some == (0 < pages.len() - 1));
    let next = s.paged(response)->Ok_0;
    let rest = pages.drop_first();
    if pages.len() == 1 {
        assert(items.drop_first().flatten() =~= Seq::empty());
        assert(items.flatten() =~= items[0]);
        assert(after_pages(next, rest) == Ok::<SweepView, Seq<char>>(next));
    } else {
        assert(result->Obj_0["nextCursor"@] == JsonView::Str(cursors[0]->0));
        let on = next.drain->0;
        assert forall|i: int| 0 <= i < rest.len() implies is_page(
            #[trigger] rest[i],
            list_field(on.key),
            items.drop_first()[i],
            cursors.drop_first()[i],
        ) by {
            assert(rest[i] == pages[i + 1]);
        }
        assert forall|i: int| 0 <= i < rest.len() implies (#[trigger] cursors.drop_first()[i]
            is Some) == (i < rest.len() - 1) by {
            assert(cursors[i + 1] is Some == (i + 1 < pages.len() - 1));
        }
        law_read_list_is_kept_whole(
            next,
            on,
            rest,
            items.drop_first(),
            cursors.drop_first(),
            other,
        );
        assert(d.items + items[0] + items.drop_first().flatten() =~= d.items + (items[0]
            + items.drop_first().flatten()));
    }
}

/// What clients are served of prompts, resources and resource templates after discovery
/// or a refresh is the items of all pages that the server gave, in order.
pub proof fn law_discovered_list_is_served_whole(
    s: SweepView,
    c: CacheView,
    key: McpDataKey,
    pages: Seq<JsonView>,
    items: Seq<Seq<JsonView>>,
    cursors: Seq<Option<Seq<char>>>,
)
    requires
        s.sound(),
        s.drain == Some(drain_start(key)),
        key != McpDataKey::Initialize,
        key != McpDataKey::ToolsList,
        0 < pages.len() <= 100,
        items.len() == pages.len(),
        cursors.len() == pages.len(),
        forall|i: int|
            0 <= i < pages.len() ==> is_page(
                #[trigger] pages[i],
                list_field(key),
                items[i],
                cursors[i],
            ),
        forall|i: int| 0 <= i < pages.len() ==> (#[trigger] cursors[i] is Some) == (i < pages.len()
            - 1),
        after_pages(s, pages) matches Ok(end) ==> c.responses == end.responses,
    ensures
        opt_field(served(c, key), list_field(key)) == Some(JsonView::Arr(items.flatten())),
{
    law_read_list_is_kept_whole(s, drain_start(key), pages, items, cursors, key);
    assert(Seq::empty() + items.flatten() =~= items.flatten());
}

/// Reading a list begins at its first page, with nothing read.
pub proof fn law_reading_begins_at_the_first_page(key: McpDataKey)
    ensures
        drain_start(key) == (DrainView { key, items: Seq::empty(), cursor: None, page: 0 }),
        cursor_params(None) is None,
{
}

/// The next page is asked for by its cursor.
pub proof fn law_next_page_is_asked_for_by_its_cursor(cursor: Seq<char>)
    ensures
        opt_field(cursor_params(Some(cursor)), "cursor"@) == Some(JsonView::Str(cursor)),
{
}

/// A server has the lists that its capabilities name; where there are resources there
/// are templates of them.
pub proof fn law_lists_follow_the_capabilities(info: JsonView, key: McpDataKey)
    ensures
        supported(capabilities_of(info), key) == match key {
            McpDataKey::Initialize => true,
            McpDataKey::ResourceTemplatesList => opt_field(
                field(info, "capabilities"@),
                "resources"@,
            ) is Some,
            _ => opt_field(field(info, "capabilities"@), list_field(key)) is Some,
        },
{
}

/// A sweep stops at the first list from where it is that the server has, and begins to
/// read it. Lists that the server does not have are passed over.
pub proof fn law_sweep_stops_at_the_next_list_there_is(s: SweepView)
    requires
        s.sound(),
        s.drain is None,
    ensures
        ({
            let next = s.advanced();
            &&& next.keys == s.keys
            &&& next.capabilities == s.capabilities
            &&& next.strict == s.strict
            &&& s.at <= next.at <= s.keys.len()
            &&& forall|i: int|
                s.at <= i < next.at ==> !supported(s.capabilities, #[trigger] s.keys[i])
            &&& next.at < s.keys.len() ==> supported(s.capabilities, s.keys[next.at])
                && next.drain == Some(
                DrainView { key: s.keys[next.at], items: Seq::empty(), cursor: None, page: 0 },
            )
            &&& next.at == s.keys.len() ==> next.drain is None
        }),
    decreases s.keys.len() - s.at,
{
    if s.at < s.keys.len() && !supported(s.capabilities, s.keys[s.at]) {
        law_sweep_stops_at_the_next_list_there_is(s.answered(empty_result(s.keys[s.at])));
    }
}

/// Where no list is named twice, a list that is passed over counts as empty, and the
/// answers that are there stay as they are.
pub proof fn law_missing_lists_count_as_empty(s: SweepView, i: int)
    requires
        s.sound(),
        s.drain is None,
        s.keys.no_duplicates(),
        0 <= i < s.keys.len(),
        s.keys[i] != McpDataKey::Initialize,
    ensures
        s.at <= i < s.advanced().at ==> s.advanced().responses.contains_key(s.keys[i]) && field(
            s.advanced().responses[s.keys[i]],
            list_field(s.keys[i]),
        ) == Some(JsonView::Arr(Seq::empty())),
        i < s.at ==> s.advanced().responses.contains_key(s.keys[i]) == s.responses.contains_key(
            s.keys[i],
        ) && (s.responses.contains_key(s.keys[i]) ==> s.advanced().responses[s.keys[i]]
            == s.responses[s.keys[i]]),
    decreases s.keys.len() - s.at,
{
    if s.at < s.keys.len() && !supported(s.capabilities, s.keys[s.at]) {
        let next = s.answered(empty_result(s.keys[s.at]));
        law_missing_lists_count_as_empty(next, i);
    }
}

/// A list that cannot be read ends a refresh, which then changes nothing, and counts as
/// empty in the first discovery.
pub proof fn law_unreadable_list(s: SweepView, message: Seq<char>)
    requires
        s.sound(),
        s.drain is Some,
        s.keys[s.at] != McpDataKey::Initialize,
    ensures
        s.strict ==> s.gave_up(message) == Err::<SweepView, Seq<char>>(message),
        !s.strict ==> (s.gave_up(message) matches Ok(next) && {
            &&& next.at == s.at + 1
            &&& next.drain is None
            &&& next.keys == s.keys
            &&& next.responses.contains_key(s.keys[s.at])
            &&& field(next.responses[s.keys[s.at]], list_field(s.keys[s.at])) == Some(
                JsonView::Arr(Seq::empty()),
            )
        }),
{
}

/// The first discovery reads all four lists of a server, passes over what cannot be
/// read, and starts from nothing.
pub proof fn law_discovery_reads_every_list(info: &Json, sweep: ListSweep, key: McpDataKey)
    requires
        call_ensures(Cache::begin_discovery, (info,), sweep),
    ensures
        sweep@.keys.contains(key) == (key != McpDataKey::Initialize),
        sweep@.keys.no_duplicates(),
        sweep@.at == 0,
        sweep@.drain is None,
        !sweep@.strict,
        !sweep@.responses.contains_key(key),
        sweep@.capabilities == capabilities_of(info@),
{
    let keys = sweep@.keys;
    assert(keys[0] == McpDataKey::ToolsList);
    assert(keys[1] == McpDataKey::PromptsList);
    assert(keys[2] == McpDataKey::ResourcesList);
    assert(keys[3] == McpDataKey::ResourceTemplatesList);
}

/// A discovered cache holds what was read, is of the backend that was asked, and has the
/// first epoch.
pub proof fn law_discovered_cache_holds_what_was_read(
    info: Json,
    sweep: ListSweep,
    generation: u64,
    cache: Cache,
)
    requires
        call_ensures(Cache::from_discovery, (info, sweep, generation), cache),
    ensures
        cache@.responses == sweep@.responses,
        cache@.server_info == info@,
        cache@.backend_generation == generation,
        cache@.cache_epoch == 1,
{
}

/// Every list of a discovery is asked for.
pub proof fn law_discovery_has_every_list(key: McpDataKey)
    ensures
        discovery_keys().contains(key) == (key != McpDataKey::Initialize),
        discovery_keys().no_duplicates(),
{
    assert(discovery_keys()[0] == McpDataKey::ToolsList);
    assert(discovery_keys()[1] == McpDataKey::PromptsList);
    assert(discovery_keys()[2] == McpDataKey::ResourcesList);
    assert(discovery_keys()[3] == McpDataKey::ResourceTemplatesList);
}

/// A refresh reads the lists that it was asked for, from the first one on, for what the
/// backend says of itself; it starts from the cached answers and fails as a whole where
/// a list cannot be read.
pub proof fn law_refresh_starts_from_the_cache(
    c: CacheView,
    generation: u64,
    info: Option<JsonView>,
    keys: Seq<McpDataKey>,
)
    ensures
        ({
            let r = refresh_start(c, generation, info, keys);
            &&& r.sweep.keys == keys
            &&& r.sweep.at == 0
            &&& r.sweep.drain is None
            &&& r.sweep.strict
            &&& r.sweep.responses == c.responses
            &&& r.sweep.capabilities == capabilities_of(r.server_info)
            &&& r.server_info == if info is Some {
                info->0
            } else {
                c.server_info
            }
            &&& r.backend_generation == generation
        }),
{
}

/// A refresh is taken over exactly where neither the backend nor the cache has changed
/// since it began; then the cache holds what was read, of the backend that was asked.
pub proof fn law_refresh_is_taken_over(
    c: CacheView,
    generation: u64,
    info: Option<JsonView>,
    keys: Seq<McpDataKey>,
    read: SweepView,
    now: CacheView,
    generation_now: u64,
)
    ensures
        ({
            let r = RefreshView { sweep: read, ..refresh_start(c, generation, info, keys) };
            &&& commit_fault(now, r, generation_now) is None <==> generation_now == generation
                && now.cache_epoch == c.cache_epoch && now.backend_generation
                == c.backend_generation
            &&& refreshed(r).responses == read.responses
            &&& refreshed(r).server_info == r.server_info
            &&& refreshed(r).backend_generation == generation
        }),
{
}

/// What is fed to the hasher for what was discovered.
pub open spec fn discovery_writes(
    server_info: JsonView,
    responses: Map<McpDataKey, JsonView>,
) -> Seq<Seq<u8>> {
    texts_writes(discovery_texts(server_info, responses))
}

/// The text of the answer for a list, or of null where there is none.
pub open spec fn answer_text(responses: Map<McpDataKey, JsonView>, key: McpDataKey) -> Seq<char> {
    json_text(
        if responses.contains_key(key) {
            responses[key]
        } else {
            JsonView::Null
        },
    )
}

/// What is hashed tells discovered data apart: from it follow the text of what the
/// server says of itself and the text of its answer for every list.
pub proof fn law_discovery_hash_covers_every_list(
    info: JsonView,
    responses: Map<McpDataKey, JsonView>,
    other_info: JsonView,
    other_responses: Map<McpDataKey, JsonView>,
    key: McpDataKey,
)
    requires
        discovery_writes(info, responses) == discovery_writes(other_info, other_responses),
        key != McpDataKey::Initialize,
    ensures
        json_text(info) == json_text(other_info),
        answer_text(responses, key) == answer_text(other_responses, key),
{
    let a = discovery_texts(info, responses);
    let b = discovery_texts(other_info, other_responses);
    crate::fingerprint::law_hashed_texts_are_told_apart(a, b);
    assert(a[0] == b[0]);
    assert(a[1] == b[1]);
    assert(a[2] == b[2]);
    assert(a[3] == b[3]);
    assert(a[4] == b[4]);
}

/// A refresh that read another answer for any list, or another handshake, reports a
/// change, with another fingerprint and the next epoch, unless the hash itself collides;
/// and one that reports no change has left every answer as it was.
pub proof fn law_changed_answers_are_reported(
    c: CacheView,
    generation: u64,
    info: Option<JsonView>,
    keys: Seq<McpDataKey>,
    read: SweepView,
    key: McpDataKey,
)
    requires
        key != McpDataKey::Initialize,
        c.cache_epoch < u64::MAX,
        ({
            let r = refresh_start(c, generation, info, keys);
            let before = discovery_writes(c.server_info, c.responses);
            let after = discovery_writes(r.server_info, read.responses);
            before != after ==> std::collections::hash_map::DefaultHasher::spec_finish(before)
                != std::collections::hash_map::DefaultHasher::spec_finish(after)
        }),
    ensures
        ({
            let r = RefreshView { sweep: read, ..refresh_start(c, generation, info, keys) };
            let report = refresh_report(r);
            &&& answer_text(c.responses, key) != answer_text(read.responses, key) || json_text(
                c.server_info,
            ) != json_text(r.server_info) ==> report.changed && report.old_discovery_hash
                != report.new_discovery_hash
            &&& generation != c.backend_generation ==> report.changed
            &&& report.old_cache_epoch == c.cache_epoch
            &&& report.new_cache_epoch == c.cache_epoch + if report.changed {
                1int
            } else {
                0int
            }
            &&& refreshed(r).cache_epoch == report.new_cache_epoch
            &&& !report.changed ==> answer_text(c.responses, key) == answer_text(
                read.responses,
                key,
            ) && report.old_discovery_hash == report.new_discovery_hash
        }),
{
    let r = RefreshView { sweep: read, ..refresh_start(c, generation, info, keys) };
    let before = discovery_writes(c.server_info, c.responses);
    let after = discovery_writes(r.server_info, read.responses);
    if before == after {
        law_discovery_hash_covers_every_list(
            c.server_info,
            c.responses,
            r.server_info,
            read.responses,
            key,
        );
    } else {
        crate::fingerprint::law_digests_of_different_hashes_differ(before, after);
    }
}

/// The report of a refresh tells what happened, under the names that clients know.
pub proof fn law_refresh_report_tells_what_happened(r: ReportView)
    ensures
        field(report_json(r), "changed"@) == Some(JsonView::Bool(r.changed)),
        field(report_json(r), "oldCacheEpoch"@) == Some(
            JsonView::Num(NumberView::Int(r.old_cache_epoch as int)),
        ),
        field(report_json(r), "newCacheEpoch"@) == Some(
            JsonView::Num(NumberView::Int(r.new_cache_epoch as int)),
        ),
        field(report_json(r), "oldDiscoveryHash"@) == Some(JsonView::Str(r.old_discovery_hash)),
        field(report_json(r), "newDiscoveryHash"@) == Some(JsonView::Str(r.new_discovery_hash)),
{
    reveal_strlit("changed");
    reveal_strlit("oldCacheEpoch");
    reveal_strlit("newCacheEpoch");
    reveal_strlit("oldDiscoveryHash");
    reveal_strlit("newDiscoveryHash");
    assert("changed"@.len() == 7);
    assert("oldCacheEpoch"@.len() == 13);
    assert("newCacheEpoch"@.len() == 13);
    assert("oldDiscoveryHash"@.len() == 16);
    assert("newDiscoveryHash"@.len() == 16);
    assert("oldCacheEpoch"@[0] != "newCacheEpoch"@[0]);
    assert("oldDiscoveryHash"@[0] != "newDiscoveryHash"@[0]);
}

/// What is told about the cache is what it holds: its epoch, its backend, what the
/// server says of itself, and the fingerprint that refreshes compare.
pub proof fn law_snapshot_tells_the_cache(c: CacheView, generation: u64, keys: Seq<McpDataKey>)
    ensures
        field(mcp_snapshot_json(c), "cacheEpoch"@) == Some(
            JsonView::Num(NumberView::Int(c.cache_epoch as int)),
        ),
        field(mcp_snapshot_json(c), "backendGeneration"@) == Some(
            JsonView::Num(NumberView::Int(c.backend_generation as int)),
        ),
        field(mcp_snapshot_json(c), "serverInfo"@) == Some(c.server_info),
        field(mcp_snapshot_json(c), "discoveryHash"@) == Some(
            JsonView::Str(refresh_start(c, generation, None, keys).base_hash),
        ),
        field(mcp_snapshot_json(c), "capabilitiesHash"@) is Some,
{
    reveal_strlit("backendGeneration");
    reveal_strlit("cacheEpoch");
    reveal_strlit("serverInfo");
    reveal_strlit("capabilitiesHash");
    reveal_strlit("discoveryHash");
    assert("backendGeneration"@.len() == 17);
    assert("cacheEpoch"@.len() == 10);
    assert("serverInfo"@.len() == 10);
    assert("capabilitiesHash"@.len() == 16);
    assert("discoveryHash"@.len() == 13);
    assert("cacheEpoch"@[0] != "serverInfo"@[0]);
}

/// The handshake asks for a protocol version, and a server that answers it without an
/// error has said what it can do; an error, a timeout or a failure ends it.
pub proof fn law_handshake(version: Seq<char>, answer: Json, error: String)
    ensures
        field(initialize_params(version), "protocolVersion"@) == Some(JsonView::Str(version)),
        field(initialize_params(version), "capabilities"@) == Some(empty_object()),
        opt_field(field(initialize_params(version), "clientInfo"@), "name"@) == Some(
            JsonView::Str("mcp-wrapper-rs"@),
        ),
        field(answer@, "error"@) is Some ==> handshake_result(
            HandshakeReply::Answer(answer),
        ) is Err,
        field(answer@, "error"@) is None && field(answer@, "result"@) is Some ==> handshake_result(
            HandshakeReply::Answer(answer),
        ) == Ok::<JsonView, Seq<char>>(field(answer@, "result"@)->0),
        handshake_result(HandshakeReply::TimedOut) is Err,
        handshake_result(HandshakeReply::Failed(error)) is Err,
{
    reveal_strlit("protocolVersion");
    reveal_strlit("capabilities");
    reveal_strlit("clientInfo");
    assert("protocolVersion"@.len() == 15);
    assert("capabilities"@.len() == 12);
    assert("clientInfo"@.len() == 10);
    reveal_strlit("name");
    reveal_strlit("version");
    assert("name"@.len() == 4);
    assert("version"@.len() == 7);
}

/// A client that asks a kept list for a page does so with a cursor that is not null.
pub proof fn law_pages_are_asked_for_with_a_cursor(key: McpDataKey, raw: JsonView)
    ensures
        asks_for_page(McpDataKey::Initialize, raw) == false,
        key != McpDataKey::Initialize ==> asks_for_page(key, raw) == (opt_field(
            field(raw, "params"@),
            "cursor"@,
        ) is Some && opt_field(field(raw, "params"@), "cursor"@) != Some(JsonView::Null)),
{
}

/// A query of a refresh takes no longer than five seconds, nor than what is left of the
/// refresh; in the first discovery each query has the time for the start.
pub proof fn law_time_of_a_query(reading: Reading, limit: Option<Duration>)
    requires
        call_ensures(list_query_time, (reading,), limit),
    ensures
        match reading {
            Reading::Discovery { init_timeout } => limit == Some(init_timeout),
            Reading::Refresh { left } => {
                &&& limit is None == (left == 0)
                &&& limit matches Some(limit) ==> nanos(limit) <= left && nanos(limit)
                    <= 5_000_000_000 && (nanos(limit) == left || nanos(limit) == 5_000_000_000)
            },
        },
{
}

/// The day after a date is the next date of the calendar, and 1970 began on day zero.
pub proof fn law_days_follow_one_another(y: int, m: int, d: int)
    requires
        is_date(y, m, d),
    ensures
        day_number(1970, 1, 1) == 0,
        d < month_days(y, m) ==> day_number(y, m, d + 1) == day_number(y, m, d) + 1,
        d == month_days(y, m) && m < 12 ==> day_number(y, m + 1, 1) == day_number(y, m, d) + 1,
        d == month_days(y, m) && m == 12 ==> day_number(y + 1, 1, 1) == day_number(y, m, d) + 1,
        m == 2 ==> month_days(y, m) == if y % 4 == 0 && (y % 100 != 0 || y % 400 == 0) {
            29int
        } else {
            28int
        },
        m == 4 || m == 6 || m == 9 || m == 11 ==> month_days(y, m) == 30,
        m != 2 && m != 4 && m != 6 && m != 9 && m != 11 ==> month_days(y, m) == 31,
{
    reveal(is_leap_year);
    lemma_months(y);
    lemma_months(y + 1);
    lemma_year_length(y);
    reveal_with_fuel(days_before_month, 2);
    assert(days_before_month(1970, 1) == 0);
}

// ── The same, of the functions that callers use ─────────────────────

/// Reading a page: one that names a next page never ends the list, and reading goes on
/// there unless a hundred pages have been read; one that names none ends it. What is no
/// page is refused, and a refusal changes nothing.
pub proof fn law_reading_ends_where_no_page_is_named(
    d: &mut ListDrain,
    response: &Json,
    r: Result<bool, String>,
)
    requires
        old(d)@.page < 100,
        call_ensures(ListDrain::on_page, (d, response), r),
    ensures
        r is Err ==> final(d)@ == old(d)@,
        ({
            let result = field(response@, "result"@);
            let list = opt_field(result, list_field(old(d)@.key));
            let next = opt_field(result, "nextCursor"@);
            let valid = field(response@, "error"@) is None && list is Some && list->0 is Arr && (
            next is Some ==> next->0 is Null || next->0 is Str);
            &&& !valid ==> r is Err
            &&& valid && next is Some && next->0 is Str ==> {
                &&& r != Ok::<bool, String>(true)
                &&& old(d)@.page + 1 < 100 ==> r == Ok::<bool, String>(false)
                &&& old(d)@.page + 1 == 100 ==> r is Err
                &&& r is Ok ==> final(d)@ == (DrainView {
                    key: old(d)@.key,
                    items: old(d)@.items + list->0->Arr_0,
                    cursor: Some(next->0->Str_0),
                    page: old(d)@.page + 1,
                })
            }
            &&& valid && !(next is Some && next->0 is Str) ==> {
                &&& r == Ok::<bool, String>(true)
                &&& final(d)@ == (DrainView {
                    key: old(d)@.key,
                    items: old(d)@.items + list->0->Arr_0,
                    cursor: None,
                    page: old(d)@.page,
                })
            }
        }),
{
}

/// What a list asks for, and what it holds in the end: the page that comes next, by the
/// method of the list, and all items that were read.
pub proof fn law_list_asks_and_answers(
    d: ListDrain,
    id: Json,
    request: Json,
    result: Json,
    key: McpDataKey,
    fresh: ListDrain,
)
    requires
        call_ensures(ListDrain::request, (&d, id), request),
        call_ensures(ListDrain::result, (&d,), result),
        call_ensures(ListDrain::start, (key,), fresh),
        d@.key != McpDataKey::Initialize,
    ensures
        field(request@, "id"@) == Some(id@),
        field(request@, "method"@) == Some(JsonView::Str(data_method(d@.key))),
        d@.cursor is None ==> field(request@, "params"@) is None,
        (d@.cursor matches Some(cursor) ==> opt_field(field(request@, "params"@), "cursor"@)
            == Some(JsonView::Str(cursor))),
        field(result@, list_field(d@.key)) == Some(JsonView::Arr(d@.items)),
        fresh@.key == key && fresh@.items.len() == 0 && fresh@.cursor is None && fresh@.page == 0,
{
    lemma_request_fields();
}

proof fn lemma_request_fields()
    ensures
        "jsonrpc"@ != "id"@ && "jsonrpc"@ != "method"@ && "jsonrpc"@ != "params"@,
        "id"@ != "method"@ && "id"@ != "params"@ && "method"@ != "params"@,
{
    reveal_strlit("jsonrpc");
    reveal_strlit("id");
    reveal_strlit("method");
    reveal_strlit("params");
    assert("jsonrpc"@.len() == 7);
    assert("id"@.len() == 2);
    assert("method"@.len() == 6);
    assert("params"@.len() == 6);
    assert("method"@[0] != "params"@[0]);
}

/// A sweep asks for the list that it is at; a failure, or the end of its time, ends a
/// refresh with the reason, and passes the list over in the first discovery.
pub proof fn law_sweep_asks_for_its_list(
    s: ListSweep,
    id: Json,
    method: &'static str,
    request: Json,
)
    requires
        s@.sound(),
        s@.drain is Some,
        call_ensures(ListSweep::method, (&s,), method),
        call_ensures(ListSweep::request, (&s, id), request),
    ensures
        method@ == data_method(s@.keys[s@.at]),
        field(request@, "id"@) == Some(id@),
        field(request@, "method"@) == Some(JsonView::Str(method@)),
        s@.drain->0.cursor is None ==> field(request@, "params"@) is None,
        (s@.drain->0.cursor matches Some(cursor) ==> opt_field(
            field(request@, "params"@),
            "cursor"@,
        ) == Some(JsonView::Str(cursor))),
{
    lemma_request_fields();
}

/// A list that failed, or whose time is up, ends a refresh with an error that names its
/// method and the reason; in the first discovery it counts as empty.
pub proof fn law_failed_list(
    failed: &mut ListSweep,
    error: &str,
    f: Result<(), String>,
    late: &mut ListSweep,
    t: Result<(), String>,
)
    requires
        old(failed)@.sound() && old(failed)@.drain is Some,
        old(late)@.sound() && old(late)@.drain is Some,
        old(failed)@.keys[old(failed)@.at] != McpDataKey::Initialize,
        old(late)@.keys[old(late)@.at] != McpDataKey::Initialize,
        call_ensures(ListSweep::on_failure, (failed, error), f),
        call_ensures(ListSweep::on_deadline, (late,), t),
    ensures
        f is Err <==> old(failed)@.strict,
        t is Err <==> old(late)@.strict,
        (f matches Err(why) ==> data_method(
            old(failed)@.keys[old(failed)@.at],
        ).is_prefix_of(why@) && error@.is_suffix_of(why@)),
        (t matches Err(why) ==> data_method(
            old(late)@.keys[old(late)@.at],
        ).is_prefix_of(why@)),
        f is Ok ==> final(failed)@.at == old(failed)@.at + 1 && final(
            failed)@.drain is None && final(failed)@.responses.contains_key(
            old(failed)@.keys[old(failed)@.at],
        ) && field(
            final(failed)@.responses[old(failed)@.keys[old(failed)@.at]],
            list_field(old(failed)@.keys[old(failed)@.at]),
        ) == Some(JsonView::Arr(Seq::empty())),
        t is Ok ==> final(late)@.at == old(late)@.at + 1 && final(late)@.drain is None && field(
            final(late)@.responses[old(late)@.keys[old(late)@.at]],
            list_field(old(late)@.keys[old(late)@.at]),
        ) == Some(JsonView::Arr(Seq::empty())),
{
    if let Err(why) = f {
        let m = data_method(old(failed)@.keys[old(failed)@.at]);
        assert(why@.subrange(0, m.len() as int) =~= m);
        assert(why@.subrange(why@.len() - error@.len(), why@.len() as int) =~= error@);
    }
    if let Err(why) = t {
        let m = data_method(old(late)@.keys[old(late)@.at]);
        assert(why@.subrange(0, m.len() as int) =~= m);
    }
}

/// A page that a sweep reads is a page of the list that it is at. The last one makes the
/// list an answer of the sweep with all its items and goes to the next list; a page
/// before that only adds its items; and what is no page ends a refresh.
pub proof fn law_sweep_reads_pages(
    s: &mut ListSweep,
    response: &Json,
    r: Result<(), String>,
    items: Seq<JsonView>,
    next: Option<Seq<char>>,
    other: McpDataKey,
)
    requires
        old(s)@.sound(),
        old(s)@.drain is Some,
        old(s)@.drain->0.key != McpDataKey::Initialize,
        call_ensures(ListSweep::on_page, (s, response), r),
        is_page(response@, list_field(old(s)@.drain->0.key), items, next),
        old(s)@.drain->0.page + 1 < 100,
        other != old(s)@.drain->0.key,
    ensures
        r is Ok,
        final(s)@.keys == old(s)@.keys,
        final(s)@.strict == old(s)@.strict,
        final(s)@.capabilities == old(s)@.capabilities,
        final(s)@.responses.contains_key(other) == old(s)@.responses.contains_key(other),
        old(s)@.responses.contains_key(other) ==> final(s)@.responses[other] == old(
            s)@.responses[other],
        next is Some ==> final(s)@.at == old(s)@.at && final(s)@.responses == old(s)@.responses
            && final(s)@.drain == Some(
            DrainView {
                key: old(s)@.drain->0.key,
                items: old(s)@.drain->0.items + items,
                cursor: next,
                page: old(s)@.drain->0.page + 1,
            },
        ),
        next is None ==> final(s)@.at == old(s)@.at + 1 && final(s)@.drain is None && final(
            s)@.responses.contains_key(old(s)@.drain->0.key) && field(
            final(s)@.responses[old(s)@.drain->0.key],
            list_field(old(s)@.drain->0.key),
        ) == Some(JsonView::Arr(old(s)@.drain->0.items + items)),
{
    let d = old(s)@.drain->0;
    let result = field(response@, "result"@)->0;
    law_page_ends_the_list_only_without_a_next_page(d, response@, result->Obj_0, items);
    if next is Some {
        assert(result->Obj_0["nextCursor"@] == JsonView::Str(next->0));
    }
}

/// Two states of discovered data have different fingerprints wherever the text of the
/// handshake or of the answer for any list differs, unless the hash itself collides; and
/// they have the same where all those texts are the same.
pub proof fn law_fingerprint_tells_answers_apart(
    info: &Json,
    responses: &Table<McpDataKey, Json>,
    hash: String,
    other_info: &Json,
    other_responses: &Table<McpDataKey, Json>,
    other_hash: String,
    key: McpDataKey,
)
    requires
        call_ensures(discovery_hash, (info, responses), hash),
        call_ensures(discovery_hash, (other_info, other_responses), other_hash),
        key != McpDataKey::Initialize,
        ({
            let a = discovery_writes(info@, responses@);
            let b = discovery_writes(other_info@, other_responses@);
            a != b ==> std::collections::hash_map::DefaultHasher::spec_finish(a)
                != std::collections::hash_map::DefaultHasher::spec_finish(b)
        }),
    ensures
        hash@ == other_hash@ ==> json_text(info@) == json_text(other_info@) && answer_text(
            responses@,
            key,
        ) == answer_text(other_responses@, key),
        info@ == other_info@ && responses@ == other_responses@ ==> hash@ == other_hash@,
        hash@.len() == 16,
{
    let a = discovery_writes(info@, responses@);
    let b = discovery_writes(other_info@, other_responses@);
    crate::fingerprint::law_digests_of_different_hashes_differ(a, b);
    if a == b {
        law_discovery_hash_covers_every_list(
            info@,
            responses@,
            other_info@,
            other_responses@,
            key,
        );
    }
}

/// The fingerprint of a value is that of its text.
pub proof fn law_fingerprint_of_a_value(a: &Json, x: String, b: &Json, y: String)
    requires
        call_ensures(hash_value, (a,), x),
        call_ensures(hash_value, (b,), y),
        ({
            let p = texts_writes(seq![json_text(a@)]);
            let q = texts_writes(seq![json_text(b@)]);
            p != q ==> std::collections::hash_map::DefaultHasher::spec_finish(p)
                != std::collections::hash_map::DefaultHasher::spec_finish(q)
        }),
    ensures
        x@ == y@ <==> json_text(a@) == json_text(b@),
{
    let p = seq![json_text(a@)];
    let q = seq![json_text(b@)];
    crate::fingerprint::law_digests_of_different_hashes_differ(texts_writes(p), texts_writes(q));
    if texts_writes(p) == texts_writes(q) {
        crate::fingerprint::law_hashed_texts_are_told_apart(p, q);
        assert(p[0] == q[0]);
    }
}

/// A client is served the server's own answer for prompts, resources and resource
/// templates, and nothing where the server gave none.
pub proof fn law_lookup_gives_the_servers_answer(
    c: Cache,
    key: McpDataKey,
    answer: Option<Json>,
)
    requires
        call_ensures(Cache::lookup, (&c, &key), answer),
        key != McpDataKey::Initialize,
        key != McpDataKey::ToolsList,
    ensures
        answer is Some <==> c@.responses.contains_key(key),
        (answer matches Some(given) ==> given@ == c@.responses[key]),
{
}

/// A client is served the server's tools without any under the reserved name, in order,
/// and the proxy's own after them; and the handshake of the server with its own fields.
pub proof fn law_lookup_gives_tools_and_handshake(
    c: Cache,
    tools: Seq<JsonView>,
    listed: Option<Json>,
    shaken: Option<Json>,
    other: Seq<char>,
)
    requires
        call_ensures(Cache::lookup, (&c, &McpDataKey::ToolsList), listed),
        call_ensures(Cache::lookup, (&c, &McpDataKey::Initialize), shaken),
        c@.responses.contains_key(McpDataKey::ToolsList),
        field(c@.responses[McpDataKey::ToolsList], "tools"@) == Some(JsonView::Arr(tools)),
        c@.server_info is Obj,
        other != "capabilities"@,
    ensures
        listed matches Some(list) && field(list@, "tools"@) matches Some(JsonView::Arr(all))
            && all.len() > 0 && all.drop_last() == tools.filter(
            |tool: JsonView| field(tool, "name"@) != Some(JsonView::Str("mcp.wrapper"@)),
        ) && field(all.last(), "name"@) == Some(JsonView::Str("mcp.wrapper"@)),
        shaken matches Some(info) && field(info@, other) == field(c@.server_info, other)
            && opt_field(field(info@, "capabilities"@), "tools"@) is Some,
{
    law_tools_are_served_with_the_proxys_own(c@, tools, other);
    law_handshake_is_served(c@, other);
}

/// A refresh needs a live backend; it begins with what is cached and reads the lists that
/// it was asked for.
pub proof fn law_refresh_needs_a_backend(
    c: Cache,
    live: bool,
    generation: u64,
    info: Option<Json>,
    keys: Vec<McpDataKey>,
    r: Result<Refresh, String>,
)
    requires
        call_ensures(Cache::begin_refresh, (&c, live, generation, info, keys), r),
    ensures
        r is Ok <==> live,
        (r matches Ok(refresh) ==> {
            &&& refresh@.sweep.keys == keys@
            &&& refresh@.sweep.at == 0
            &&& refresh@.sweep.drain is None
            &&& refresh@.sweep.strict
            &&& refresh@.sweep.responses == c@.responses
            &&& refresh@.backend_generation == generation
            &&& refresh@.base_epoch == c@.cache_epoch
            &&& refresh@.base_generation == c@.backend_generation
            &&& (info matches Some(told) ==> refresh@.server_info == told@)
            &&& info is None ==> refresh@.server_info == c@.server_info
            &&& refresh@.sweep.capabilities == capabilities_of(refresh@.server_info)
        }),
{
}

/// A refresh that is committed replaces the cache by what was read, and the epoch goes up
/// exactly where it reports a change. One that is refused, because the backend or the
/// cache changed meanwhile, leaves the cache as it is.
pub proof fn law_committed_refresh_replaces_the_cache(
    c: &mut Cache,
    refresh: Refresh,
    generation_now: u64,
    r: Result<RefreshReport, String>,
)
    requires
        refresh@.base_epoch < u64::MAX,
        call_ensures(Cache::commit_refresh, (c, refresh, generation_now), r),
    ensures
        r is Err ==> final(c)@ == old(c)@,
        r is Ok <==> generation_now == refresh@.backend_generation && old(c)@.cache_epoch
            == refresh@.base_epoch && old(c)@.backend_generation == refresh@.base_generation,
        (r matches Ok(report) ==> {
            &&& final(c)@.responses == refresh@.sweep.responses
            &&& final(c)@.server_info == refresh@.server_info
            &&& final(c)@.backend_generation == refresh@.backend_generation
            &&& report@.old_cache_epoch == refresh@.base_epoch
            &&& report@.new_cache_epoch == final(c)@.cache_epoch
            &&& final(c)@.cache_epoch == refresh@.base_epoch + if report@.changed {
                1int
            } else {
                0int
            }
            &&& report@.changed <==> report@.old_discovery_hash != report@.new_discovery_hash
                || refresh@.backend_generation != refresh@.base_generation
            &&& report@.old_discovery_hash == refresh@.base_hash
        }),
{
}

/// What is told about the cache and about a refresh, as clients see it.
pub proof fn law_values_told(
    c: Cache,
    snapshot: McpSnapshot,
    told: Json,
    report: RefreshReport,
    shown: Json,
)
    requires
        call_ensures(Cache::snapshot, (&c,), snapshot),
        call_ensures(McpSnapshot::to_value, (&snapshot,), told),
        call_ensures(RefreshReport::to_value, (&report,), shown),
    ensures
        told@ == mcp_snapshot_json(c@),
        field(told@, "cacheEpoch"@) == Some(
            JsonView::Num(NumberView::Int(c@.cache_epoch as int)),
        ),
        field(told@, "backendGeneration"@) == Some(
            JsonView::Num(NumberView::Int(c@.backend_generation as int)),
        ),
        field(told@, "serverInfo"@) == Some(c@.server_info),
        field(told@, "discoveryHash"@) == Some(
            JsonView::Str(discovery_fingerprint(c@.server_info, c@.responses)),
        ),
        field(shown@, "changed"@) == Some(JsonView::Bool(report.changed)),
        field(shown@, "oldCacheEpoch"@) == Some(
            JsonView::Num(NumberView::Int(report@.old_cache_epoch as int)),
        ),
        field(shown@, "newCacheEpoch"@) == Some(
            JsonView::Num(NumberView::Int(report@.new_cache_epoch as int)),
        ),
        field(shown@, "oldDiscoveryHash"@) == Some(JsonView::Str(report@.old_discovery_hash)),
        field(shown@, "newDiscoveryHash"@) == Some(JsonView::Str(report@.new_discovery_hash)),
{
    reveal_strlit("backendGeneration");
    reveal_strlit("cacheEpoch");
    reveal_strlit("serverInfo");
    reveal_strlit("capabilitiesHash");
    reveal_strlit("discoveryHash");
    assert("backendGeneration"@.len() == 17);
    assert("cacheEpoch"@.len() == 10);
    assert("serverInfo"@.len() == 10);
    assert("capabilitiesHash"@.len() == 16);
    assert("discoveryHash"@.len() == 13);
    assert("cacheEpoch"@[0] != "serverInfo"@[0]);
    reveal_strlit("changed");
    reveal_strlit("oldCacheEpoch");
    reveal_strlit("newCacheEpoch");
    reveal_strlit("oldDiscoveryHash");
    reveal_strlit("newDiscoveryHash");
    assert("changed"@.len() == 7);
    assert("oldCacheEpoch"@.len() == 13);
    assert("newCacheEpoch"@.len() == 13);
    assert("oldDiscoveryHash"@.len() == 16);
    assert("newDiscoveryHash"@.len() == 16);
    assert("oldCacheEpoch"@[0] != "newCacheEpoch"@[0]);
    assert("oldDiscoveryHash"@[0] != "newDiscoveryHash"@[0]);
}

/// The requests and notifications of the handshake and of discovery have the fields that
/// the protocol names.
pub proof fn law_messages_of_discovery(
    id: Json,
    version: &str,
    first: Json,
    method: &str,
    cursor: Option<&str>,
    list: Json,
    done: Json,
)
    requires
        call_ensures(build_initialize_request, (id, version), first),
        call_ensures(build_list_request, (id, method, cursor), list),
        call_ensures(initialized_notification, (), done),
    ensures
        field(first@, "jsonrpc"@) == Some(JsonView::Str("2.0"@)),
        field(first@, "id"@) == Some(id@),
        field(first@, "method"@) == Some(JsonView::Str("initialize"@)),
        opt_field(field(first@, "params"@), "protocolVersion"@) == Some(JsonView::Str(version@)),
        field(list@, "jsonrpc"@) == Some(JsonView::Str("2.0"@)),
        field(list@, "id"@) == Some(id@),
        field(list@, "method"@) == Some(JsonView::Str(method@)),
        cursor is None ==> field(list@, "params"@) is None,
        (cursor matches Some(at) ==> opt_field(field(list@, "params"@), "cursor"@) == Some(
            JsonView::Str(at@),
        )),
        field(done@, "method"@) == Some(JsonView::Str("notifications/initialized"@)),
        field(done@, "id"@) is None,
        field(done@, "params"@) is None,
{
    lemma_request_fields();
    reveal_strlit("protocolVersion");
    reveal_strlit("capabilities");
    reveal_strlit("clientInfo");
    assert("protocolVersion"@.len() == 15);
    assert("capabilities"@.len() == 12);
    assert("clientInfo"@.len() == 10);
}

/// A handshake that was answered without an error gives what the server said; one that
/// was not says why.
pub proof fn law_handshake_gives_what_the_server_said(
    answer: Json,
    r: Result<Json, String>,
    why: String,
    failed: Result<Json, String>,
    late: Result<Json, String>,
)
    requires
        call_ensures(handshake_outcome, (HandshakeReply::Answer(answer),), r),
        call_ensures(handshake_outcome, (HandshakeReply::Failed(why),), failed),
        call_ensures(handshake_outcome, (HandshakeReply::TimedOut,), late),
    ensures
        field(answer@, "error"@) is Some ==> r is Err,
        field(answer@, "error"@) is None && field(answer@, "result"@) is Some ==> (r matches Ok(
            info,
        ) && info@ == field(answer@, "result"@)->0),
        failed is Err,
        late is Err,
{
}

/// The lists of a server, as it says of itself, and under which name each is found.
pub proof fn law_lists_of_a_server(
    info: &Json,
    c: Capabilities,
    key: McpDataKey,
    has_list: bool,
    name: &'static str,
    keys: Vec<McpDataKey>,
)
    requires
        call_ensures(Capabilities::from_server_info, (info,), c),
        call_ensures(Capabilities::supports, (&c, &key), has_list),
        call_ensures(list_field_for, (&key,), name),
        call_ensures(discovery_data_keys, (), keys),
    ensures
        key == McpDataKey::ToolsList ==> name@ == "tools"@ && has_list == opt_field(
            field(info@, "capabilities"@),
            "tools"@,
        ) is Some,
        key == McpDataKey::PromptsList ==> name@ == "prompts"@ && has_list == opt_field(
            field(info@, "capabilities"@),
            "prompts"@,
        ) is Some,
        key == McpDataKey::ResourcesList ==> name@ == "resources"@ && has_list == opt_field(
            field(info@, "capabilities"@),
            "resources"@,
        ) is Some,
        key == McpDataKey::ResourceTemplatesList ==> name@ == "resourceTemplates"@ && has_list
            == opt_field(field(info@, "capabilities"@), "resources"@) is Some,
        keys@.contains(key) <==> key != McpDataKey::Initialize,
        keys@.no_duplicates(),
{
    law_discovery_has_every_list(key);
}

/// A page of a list is valid where it is no error, has the list, and names its next page
/// by a text or not at all; it is taken as it is.
pub proof fn law_valid_pages_are_taken_as_they_are(
    response: &Json,
    name: &str,
    method: &str,
    page: usize,
    r: Result<Json, String>,
)
    requires
        call_ensures(validate_list_response, (response, name, method, page), r),
    ensures
        ({
            let result = field(response@, "result"@);
            let list = opt_field(result, name@);
            let next = opt_field(result, "nextCursor"@);
            &&& r is Ok <==> field(response@, "error"@) is None && list is Some && list->0 is Arr
                && (next is Some ==> next->0 is Null || next->0 is Str)
            &&& (r matches Ok(taken) ==> taken@ == result->0)
            &&& (r matches Err(why) ==> method@.is_prefix_of(why@))
        }),
{
    if let Err(why) = r {
        assert(why@.subrange(0, method@.len() as int) =~= method@);
    }
}

/// The text of a date of four digits in the year has the year, the month and the day in
/// it, in that order, with a dash between.
pub proof fn law_date_text_holds_the_date(y: int, m: int, d: int)
    requires
        0 <= y <= 9999,
        1 <= m <= 12,
        1 <= d <= 31,
    ensures
        date_text(y, m, d).len() == 10,
        date_text(y, m, d)[4] == '-',
        date_text(y, m, d)[7] == '-',
        crate::text::digits_value(date_text(y, m, d).subrange(0, 4)) == Some(y as nat),
        crate::text::digits_value(date_text(y, m, d).subrange(5, 7)) == Some(m as nat),
        crate::text::digits_value(date_text(y, m, d).subrange(8, 10)) == Some(d as nat),
{
    crate::text::law_padded_number_reads_back(y as nat, 4);
    crate::text::law_padded_number_reads_back(m as nat, 2);
    crate::text::law_padded_number_reads_back(d as nat, 2);
    reveal_strlit("-");
    assert("-"@ =~= seq!['-']);
    let text = date_text(y, m, d);
    assert(text.subrange(0, 4) =~= crate::text::padded(y, 4));
    assert(text.subrange(5, 7) =~= crate::text::padded(m, 2));
    assert(text.subrange(8, 10) =~= crate::text::padded(d, 2));
}

/// A protocol version is the text of the local date where there is one, and else of the
/// date in universal time.
pub proof fn law_protocol_version_is_a_date(
    local: Option<(i32, i32, i32)>,
    seconds: i64,
    text: String,
)
    requires
        call_ensures(protocol_version_for_unix_seconds_local, (local, seconds), text),
    ensures
        (local matches Some((year, month, day)) ==> text@ == date_text(
            year + 1900,
            month + 1,
            day as int,
        )),
        local is None && seconds >= 0 ==> exists|y: int, m: int, d: int| #[trigger]
            is_date(y, m, d) && day_number(y, m, d) * 86_400 <= seconds < (day_number(y, m, d) + 1)
                * 86_400 && text@ == date_text(y, m, d),
{
    if local is None && seconds >= 0 {
        let days = seconds as int / 86_400;
        let (y, m, d) = choose|y: int, m: int, d: int| #[trigger]
            is_date(y, m, d) && day_number(y, m, d) == days && text@ == date_text(y, m, d);
        assert(is_date(y, m, d));
    }
}

/// The date of a day is a date of the calendar, and it is that day; days that follow one
/// another have dates that do.
pub proof fn law_date_of_a_day(
    days: i64,
    date: (i64, u32, u32),
    next: (i64, u32, u32),
    text: String,
)
    requires
        days < i64::MAX - 719_468,
        call_ensures(civil_from_unix_days, (days,), date),
        call_ensures(civil_from_unix_days, ((days + 1) as i64,), next),
        call_ensures(protocol_version_for_unix_days, (days,), text),
    ensures
        ({
            let (y, m, d) = (date.0 as int, date.1 as int, date.2 as int);
            &&& 1 <= m <= 12
            &&& 1 <= d <= 31
            &&& text@ == date_text(y, m, d)
            &&& d < month_days(y, m) ==> next.0 == y && next.1 == m && next.2 == d + 1
            &&& d == month_days(y, m) && m < 12 ==> next.0 == y && next.1 == m + 1 && next.2 == 1
            &&& d == month_days(y, m) && m == 12 ==> next.0 == y + 1 && next.1 == 1 && next.2 == 1
        }),
{
    let (y, m, d) = (date.0 as int, date.1 as int, date.2 as int);
    law_days_follow_one_another(y, m, d);
    let (y2, m2, d2) = (next.0 as int, next.1 as int, next.2 as int);
    if d < month_days(y, m) {
        law_dates_have_their_own_number(y, m, d + 1, y2, m2, d2);
    } else if m < 12 {
        law_dates_have_their_own_number(y, m + 1, 1, y2, m2, d2);
    } else {
        law_dates_have_their_own_number(y + 1, 1, 1, y2, m2, d2);
    }
    let (ty, tm, td) = choose|ty: int, tm: int, td: int| #[trigger]
        is_date(ty, tm, td) && day_number(ty, tm, td) == days && text@ == date_text(ty, tm, td);
    law_dates_have_their_own_number(y, m, d, ty, tm, td);
}

/// A sweep is asking for a list after it went on, or it is at its end and has passed every
/// list; what it passed over it has as empty.
pub proof fn law_sweep_goes_on(
    s: &mut ListSweep,
    asking: bool,
    keys: Vec<McpDataKey>,
    capabilities: Capabilities,
    responses: Table<McpDataKey, Json>,
    strict: bool,
    fresh: ListSweep,
)
    requires
        old(s)@.sound(),
        old(s)@.drain is None,
        call_ensures(ListSweep::advance, (s,), asking),
        call_ensures(ListSweep::new, (keys, capabilities, responses, strict), fresh),
    ensures
        asking <==> final(s)@.drain is Some,
        asking ==> final(s)@.at < final(s)@.keys.len() && supported(
            final(s)@.capabilities,
            final(s)@.keys[final(s)@.at],
        ) && final(s)@.drain->0.key == final(s)@.keys[final(s)@.at] && final(
            s)@.drain->0.items.len() == 0 && final(s)@.drain->0.cursor is None,
        !asking ==> final(s)@.at == final(s)@.keys.len(),
        final(s)@.keys == old(s)@.keys,
        fresh@.keys == keys@ && fresh@.at == 0 && fresh@.drain is None && fresh@.strict == strict
            && fresh@.responses == responses@ && fresh@.capabilities == capabilities,
{
    law_sweep_stops_at_the_next_list_there_is(old(s)@);
}

/// The time of a query, in nanoseconds: what is left, of five seconds at most, and none
/// where nothing is left.
pub proof fn law_time_that_is_left(left: u64, limit: Option<u64>, key: McpDataKey, raw: &Json, paged: bool, j: Json)
    requires
        call_ensures(query_time, (left,), limit),
        call_ensures(cached_list_request_has_cursor, (&key, raw), paged),
        call_ensures(empty_result_for, (&key,), j),
    ensures
        limit is None <==> left == 0,
        (limit matches Some(n) ==> n <= left && n <= 5_000_000_000 && (n == left || n
            == 5_000_000_000)),
        paged <==> key != McpDataKey::Initialize && opt_field(
            field(raw@, "params"@),
            "cursor"@,
        ) is Some && opt_field(field(raw@, "params"@), "cursor"@) != Some(JsonView::Null),
        key != McpDataKey::Initialize ==> field(j@, list_field(key)) == Some(
            JsonView::Arr(Seq::empty()),
        ),
{
}

} // verus!
