//! JSON-RPC 2.0 over lines of text: framing, classification and message
//! builders. Nothing here knows about MCP.

use vstd::prelude::*;
use vstd::string::*;

pub use crate::error_codes;
use crate::json::{
    self, Json, JsonView, NumberView, empty_object, field, json_parse, json_text, opt_view, plain,
    str_of, with_field, MAX_DEPTH,
};
use crate::text::{trim, trim_end, trim_start, trimmed};

verus! {

/// A message sorted by its role.
#[derive(Debug)]
pub enum JsonRpcMessage {
    Request { id: Json, method: String, params: Option<Json> },
    Response { id: Json, result: Option<Json>, error: Option<Json> },
    Notification { method: String, params: Option<Json> },
}

/// The value of a `JsonRpcMessage`.
#[verifier::ext_equal]
pub enum MessageView {
    Request { id: JsonView, method: Seq<char>, params: Option<JsonView> },
    Response { id: JsonView, result: Option<JsonView>, error: Option<JsonView> },
    Notification { method: Seq<char>, params: Option<JsonView> },
}

impl View for JsonRpcMessage {
    type V = MessageView;

    open spec fn view(&self) -> MessageView {
        match self {
            JsonRpcMessage::Request { id, method, params } => MessageView::Request {
                id: id@,
                method: method@,
                params: opt_view(*params),
            },
            JsonRpcMessage::Response { id, result, error } => MessageView::Response {
                id: id@,
                result: opt_view(*result),
                error: opt_view(*error),
            },
            JsonRpcMessage::Notification { method, params } => MessageView::Notification {
                method: method@,
                params: opt_view(*params),
            },
        }
    }
}

/// The role of a message: a method and an id make a request, a method alone a
/// notification, an id alone a response. Anything else counts as a notification
/// with an empty method.
pub open spec fn classified(v: JsonView) -> MessageView {
    match (str_of(field(v, "method"@)), field(v, "id"@)) {
        (Some(method), Some(id)) => MessageView::Request {
            id,
            method,
            params: field(v, "params"@),
        },
        (Some(method), None) => MessageView::Notification { method, params: field(v, "params"@) },
        (None, Some(id)) => MessageView::Response {
            id,
            result: field(v, "result"@),
            error: field(v, "error"@),
        },
        (None, None) => MessageView::Notification { method: Seq::empty(), params: None },
    }
}

/// A copy of an optional field.
pub fn copied(v: Option<&Json>) -> (c: Option<Json>)
    ensures
        opt_view(c) == json::ref_view(v),
{
    match v {
        Some(v) => Some(v.copy()),
        None => None,
    }
}

/// The text of an optional string field.
pub fn field_text<'a>(v: Option<&'a Json>) -> (s: Option<&'a str>)
    ensures
        json::opt_str(s) == str_of(json::ref_view(v)),
{
    match v {
        Some(v) => v.as_str(),
        None => None,
    }
}

/// The field of an optional value.
pub fn subfield<'a>(v: Option<&'a Json>, key: &str) -> (s: Option<&'a Json>)
    ensures
        json::ref_view(s) == json::opt_field(json::ref_view(v), key@),
{
    match v {
        Some(v) => v.get(key),
        None => None,
    }
}

/// Sorts a message by its role.
pub fn classify(msg: &Json) -> (m: JsonRpcMessage)
    ensures
        m@ == classified(msg@),
{
    match (field_text(msg.get("method")), msg.get("id")) {
        (Some(method), Some(id)) => JsonRpcMessage::Request {
            id: id.copy(),
            method: method.to_owned(),
            params: copied(msg.get("params")),
        },
        (Some(method), None) => JsonRpcMessage::Notification {
            method: method.to_owned(),
            params: copied(msg.get("params")),
        },
        (None, Some(id)) => JsonRpcMessage::Response {
            id: id.copy(),
            result: copied(msg.get("result")),
            error: copied(msg.get("error")),
        },
        (None, None) => JsonRpcMessage::Notification { method: String::new(), params: None },
    }
}

pub open spec fn with_opt(v: JsonView, key: Seq<char>, value: Option<JsonView>) -> JsonView {
    match value {
        Some(value) => with_field(v, key, value),
        None => v,
    }
}

/// The fields every message begins with.
pub open spec fn rpc_base() -> JsonView {
    with_field(empty_object(), "jsonrpc"@, JsonView::Str("2.0"@))
}

pub open spec fn request_view(
    id: JsonView,
    method: Seq<char>,
    params: Option<JsonView>,
) -> JsonView {
    with_opt(
        with_field(with_field(rpc_base(), "id"@, id), "method"@, JsonView::Str(method)),
        "params"@,
        params,
    )
}

pub open spec fn response_view(id: JsonView, result: JsonView) -> JsonView {
    with_field(with_field(rpc_base(), "id"@, id), "result"@, result)
}

pub open spec fn error_view(code: int, message: Seq<char>, data: Option<JsonView>) -> JsonView {
    with_opt(
        with_field(
            with_field(empty_object(), "code"@, JsonView::Num(NumberView::Int(code))),
            "message"@,
            JsonView::Str(message),
        ),
        "data"@,
        data,
    )
}

pub open spec fn error_response_view(
    id: JsonView,
    code: int,
    message: Seq<char>,
    data: Option<JsonView>,
) -> JsonView {
    with_field(with_field(rpc_base(), "id"@, id), "error"@, error_view(code, message, data))
}

pub open spec fn notification_view(method: Seq<char>, params: Option<JsonView>) -> JsonView {
    with_opt(with_field(rpc_base(), "method"@, JsonView::Str(method)), "params"@, params)
}

fn rpc_message() -> (msg: Json)
    ensures
        msg@ == rpc_base(),
{
    let mut msg = Json::object();
    msg.set("jsonrpc", Json::text("2.0"));
    msg
}

/// Builds a request.
pub fn build_request(id: Json, method: &str, params: Option<Json>) -> (msg: Json)
    ensures
        msg@ == request_view(id@, method@, opt_view(params)),
{
    let mut msg = rpc_message();
    msg.set("id", id);
    msg.set("method", Json::text(method));
    if let Some(p) = params {
        msg.set("params", p);
    }
    msg
}

/// Builds a successful response.
pub fn build_response(id: Json, result: Json) -> (msg: Json)
    ensures
        msg@ == response_view(id@, result@),
{
    let mut msg = rpc_message();
    msg.set("id", id);
    msg.set("result", result);
    msg
}

/// Builds an error response.
pub fn build_error_response(id: Json, code: i64, message: &str, data: Option<Json>) -> (msg: Json)
    ensures
        msg@ == error_response_view(id@, code as int, message@, opt_view(data)),
{
    let mut error = Json::object();
    error.set("code", Json::Int(code));
    error.set("message", Json::text(message));
    if let Some(d) = data {
        error.set("data", d);
    }
    let mut msg = rpc_message();
    msg.set("id", id);
    msg.set("error", error);
    msg
}

/// Builds a notification.
pub fn build_notification(method: &str, params: Option<Json>) -> (msg: Json)
    ensures
        msg@ == notification_view(method@, opt_view(params)),
{
    let mut msg = rpc_message();
    msg.set("method", Json::text(method));
    if let Some(p) = params {
        msg.set("params", p);
    }
    msg
}

/// What a line of input holds.
#[derive(Debug)]
pub enum Line {
    /// Only white space.
    Blank,
    /// Something that is no JSON.
    Malformed,
    /// One message.
    Message(Json),
}

/// The value of a `Line`.
#[verifier::ext_equal]
pub enum LineView {
    Blank,
    Malformed,
    Message(JsonView),
}

impl View for Line {
    type V = LineView;

    open spec fn view(&self) -> LineView {
        match self {
            Line::Blank => LineView::Blank,
            Line::Malformed => LineView::Malformed,
            Line::Message(j) => LineView::Message(j@),
        }
    }
}

/// What a text is, given what came of parsing it.
pub open spec fn line_of(text: Seq<char>, parsed: Option<JsonView>) -> LineView {
    if text.len() == 0 {
        LineView::Blank
    } else {
        match parsed {
            Some(v) => LineView::Message(v),
            None => LineView::Malformed,
        }
    }
}

/// What a line holds, white space around it set aside.
pub open spec fn line_view(line: Seq<char>) -> LineView {
    line_of(trimmed(line), json_parse(trimmed(line)))
}

/// Says what a text is, given what came of parsing it.
pub fn sort_line(text: &str, parsed: Option<Json>) -> (l: Line)
    ensures
        l@ == line_of(text@, opt_view(parsed)),
{
    if text.is_empty() {
        return Line::Blank;
    }
    match parsed {
        Some(j) => Line::Message(j),
        None => Line::Malformed,
    }
}

/// Reads a line of input.
pub fn decode_line(line: &str) -> (l: Line)
    ensures
        l@ == line_view(line@),
{
    let text = trim(line);
    let parsed = json::parse(text.as_str());
    sort_line(text.as_str(), parsed)
}

/// The line that carries a message: its compact text and a line feed.
pub open spec fn message_line(v: JsonView) -> Seq<char> {
    json_text(v).push('\n')
}

/// Writes a message as one line: there is no line feed but the last character.
/// Reading the line gives the message back, unless a fraction is in it or it is
/// nested deeper than the reader goes.
pub fn encode_line(msg: &Json) -> (line: String)
    ensures
        line@ == message_line(msg@),
        forall|i: int| 0 <= i < line@.len() - 1 ==> line@[i] != '\n',
        plain(msg@, MAX_DEPTH as nat) ==> line_view(line@) == LineView::Message(msg@),
{
    let mut line = json::to_text(msg);
    let ghost text = line@;
    line.append("\n");
    proof {
        reveal_strlit("\n");
        assert(line@ =~= text.push('\n'));
        assert(trim_start(line@) == line@);
        assert(line@.drop_last() =~= text);
        assert(trim_end(line@) == trim_end(text));
        assert(trim_end(text) == text);
    }
    line
}

/// What is built as a request, a response, an error or a notification is sorted as
/// such, with the parts that it was built from.
pub proof fn law_built_messages_keep_their_role(
    id: JsonView,
    method: Seq<char>,
    params: Option<JsonView>,
    result: JsonView,
    code: int,
    message: Seq<char>,
    data: Option<JsonView>,
)
    ensures
        classified(request_view(id, method, params)) == (MessageView::Request {
            id,
            method,
            params,
        }),
        classified(notification_view(method, params)) == (MessageView::Notification {
            method,
            params,
        }),
        classified(response_view(id, result)) == (MessageView::Response {
            id,
            result: Some(result),
            error: None,
        }),
        classified(error_response_view(id, code, message, data)) == (MessageView::Response {
            id,
            result: None,
            error: Some(error_view(code, message, data)),
        }),
{
    reveal_strlit("jsonrpc");
    reveal_strlit("id");
    reveal_strlit("method");
    reveal_strlit("params");
    reveal_strlit("result");
    reveal_strlit("error");
    assert("jsonrpc"@.len() == 7 && "id"@.len() == 2 && "error"@.len() == 5);
    assert("method"@.len() == 6 && "params"@.len() == 6 && "result"@.len() == 6);
    assert("method"@[0] == 'm' && "params"@[0] == 'p' && "result"@[0] == 'r');
}

proof fn lemma_message_fields()
    ensures
        "jsonrpc"@ != "id"@ && "jsonrpc"@ != "method"@ && "jsonrpc"@ != "params"@ && "jsonrpc"@
            != "result"@ && "jsonrpc"@ != "error"@,
        "id"@ != "method"@ && "id"@ != "params"@ && "id"@ != "result"@ && "id"@ != "error"@,
        "method"@ != "params"@ && "method"@ != "result"@ && "method"@ != "error"@,
        "params"@ != "result"@ && "params"@ != "error"@ && "result"@ != "error"@,
        "code"@ != "message"@ && "code"@ != "data"@ && "message"@ != "data"@,
{
    reveal_strlit("jsonrpc");
    reveal_strlit("id");
    reveal_strlit("method");
    reveal_strlit("params");
    reveal_strlit("result");
    reveal_strlit("error");
    assert("jsonrpc"@.len() == 7);
    assert("id"@.len() == 2);
    assert("method"@.len() == 6);
    assert("params"@.len() == 6);
    assert("result"@.len() == 6);
    assert("error"@.len() == 5);
    assert("method"@[0] != "params"@[0]);
    assert("method"@[0] != "result"@[0]);
    assert("params"@[0] != "result"@[0]);
    reveal_strlit("code");
    reveal_strlit("message");
    reveal_strlit("data");
    assert("code"@.len() == 4);
    assert("message"@.len() == 7);
    assert("data"@.len() == 4);
    assert("code"@[0] != "data"@[0]);
}

/// A message is built of its parts: the version of the protocol, and the id, the method,
/// the params, the result or the error, each under its name and as it is; a part that it
/// does not have is not there.
pub proof fn law_built_messages_hold_their_parts(
    id: Json,
    method: &str,
    params: Option<Json>,
    request: Json,
    result: Json,
    response: Json,
    code: i64,
    message: &str,
    data: Option<Json>,
    failure: Json,
    notification: Json,
)
    requires
        call_ensures(build_request, (id, method, params), request),
        call_ensures(build_response, (id, result), response),
        call_ensures(build_error_response, (id, code, message, data), failure),
        call_ensures(build_notification, (method, params), notification),
    ensures
        field(request@, "jsonrpc"@) == Some(JsonView::Str("2.0"@)),
        field(request@, "id"@) == Some(id@),
        field(request@, "method"@) == Some(JsonView::Str(method@)),
        field(request@, "params"@) == opt_view(params),
        field(request@, "result"@) is None && field(request@, "error"@) is None,
        field(response@, "jsonrpc"@) == Some(JsonView::Str("2.0"@)),
        field(response@, "id"@) == Some(id@),
        field(response@, "result"@) == Some(result@),
        field(response@, "method"@) is None && field(response@, "error"@) is None,
        field(failure@, "jsonrpc"@) == Some(JsonView::Str("2.0"@)),
        field(failure@, "id"@) == Some(id@),
        json::opt_field(field(failure@, "error"@), "code"@) == Some(
            JsonView::Num(NumberView::Int(code as int)),
        ),
        json::opt_field(field(failure@, "error"@), "message"@) == Some(JsonView::Str(message@)),
        json::opt_field(field(failure@, "error"@), "data"@) == opt_view(data),
        field(failure@, "method"@) is None && field(failure@, "result"@) is None,
        field(notification@, "jsonrpc"@) == Some(JsonView::Str("2.0"@)),
        field(notification@, "method"@) == Some(JsonView::Str(method@)),
        field(notification@, "params"@) == opt_view(params),
        field(notification@, "id"@) is None && field(notification@, "result"@) is None && field(
            notification@,
            "error"@,
        ) is None,
{
    lemma_message_fields();
}

/// A message is told by its fields: with a method and an id it is a request, with a
/// method alone a notification, and with an id alone a response; and its parts are taken
/// from it as they are.
pub proof fn law_messages_are_told_by_their_fields(msg: &Json, m: JsonRpcMessage)
    requires
        call_ensures(classify, (msg,), m),
    ensures
        match m@ {
            MessageView::Request { id, method, params } => {
                &&& field(msg@, "method"@) == Some(JsonView::Str(method))
                &&& field(msg@, "id"@) == Some(id)
                &&& field(msg@, "params"@) == params
            },
            MessageView::Notification { method, params } => {
                &&& field(msg@, "id"@) is None
                &&& method.len() > 0 ==> field(msg@, "method"@) == Some(JsonView::Str(method))
                    && field(msg@, "params"@) == params
            },
            MessageView::Response { id, result, error } => {
                &&& str_of(field(msg@, "method"@)) is None
                &&& field(msg@, "id"@) == Some(id)
                &&& field(msg@, "result"@) == result
                &&& field(msg@, "error"@) == error
            },
        },
{
}

/// A line is blank where there is nothing in it but white space, and else holds the
/// message that its text without that white space is, if it is one.
pub proof fn law_lines_hold_messages(line: &str, l: Line)
    requires
        call_ensures(decode_line, (line,), l),
    ensures
        l@ is Blank <==> forall|i: int|
            0 <= i < line@.len() ==> crate::text::is_white(#[trigger] line@[i]),
        (l@ matches LineView::Message(v) ==> json_parse(trimmed(line@)) == Some(v)),
        l@ is Malformed ==> json_parse(trimmed(line@)) is None,
{
    crate::text::law_blank_texts_are_white_space(line@);
}

/// A message is written as its text and one line feed, the only one in it.
pub proof fn law_written_lines(msg: &Json, line: String, i: int)
    requires
        call_ensures(encode_line, (msg,), line),
        0 <= i < line@.len(),
    ensures
        line@.len() > 0,
        line@.drop_last() == json_text(msg@),
        line@[i] == '\n' <==> i == line@.len() - 1,
{
    assert(line@.drop_last() =~= json_text(msg@));
}

/// The parts of a value: a copy is the value, and the field of a field is found under
/// both names.
pub proof fn law_parts_of_values<'a>(
    v: &'a Json,
    c: Option<Json>,
    key: &str,
    part: Option<&'a Json>,
    text: Option<&'a str>,
)
    requires
        call_ensures(copied, (Some(v),), c),
        call_ensures(subfield, (Some(v), key), part),
        call_ensures(field_text, (Some(v),), text),
    ensures
        c matches Some(copy) && copy@ == v@,
        (part matches Some(found) ==> v@ is Obj && v@->Obj_0.contains_key(key@) && found@
            == v@->Obj_0[key@]),
        part is None ==> !(v@ is Obj && v@->Obj_0.contains_key(key@)),
        text is Some <==> v@ is Str,
        (text matches Some(s) ==> v@ == JsonView::Str(s@)),
{
}

/// A text is blank, a message or neither, by what came of parsing it.
pub proof fn law_sorted_lines(text: &str, parsed: Option<Json>, l: Line)
    requires
        call_ensures(sort_line, (text, parsed), l),
    ensures
        l@ is Blank <==> text@.len() == 0,
        l@ is Malformed <==> text@.len() > 0 && parsed is None,
        (l@ matches LineView::Message(v) ==> parsed matches Some(j) && v == j@),
{
}

} // verus!
