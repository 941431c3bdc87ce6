//! The JSON-RPC 2.0 messages as they stand on a line.
//!
//! The parts of a message stand in a fixed order. What is inside a result, an identifier or
//! the data of an error stands in the order of names, and parameters as their writer puts them.

use vstd::prelude::*;

use crate::protocol;
use crate::rpc;
use crate::rpc::{JsonRpcError, MessageV, RpcErrorV};
use crate::text;
use crate::value;
use crate::value::{compact, encoded, json_form, quoted, Data, DataV};

verus! {

/// A request. The parameters are given in JSON notation.
pub open spec fn request_notation(id: u64, method: Seq<char>, params: Seq<char>) -> Seq<char> {
    "{\"jsonrpc\":\"2.0\",\"id\":"@ + text::decimal(id as nat) + ",\"method\":"@ + quoted(method) + ",\"params\":"@
        + params + "}"@
}

/// A notification. The parameters are given in JSON notation.
pub open spec fn notification_notation(method: Seq<char>, params: Seq<char>) -> Seq<char> {
    "{\"jsonrpc\":\"2.0\",\"method\":"@ + quoted(method) + ",\"params\":"@ + params + "}"@
}

/// The notification that cancels a request.
pub open spec fn cancellation_notation(id: u64) -> Seq<char> {
    notification_notation(
        protocol::METHOD_CANCEL_REQUEST@,
        "{\"id\":"@ + text::decimal(id as nat) + "}"@,
    )
}

/// The error part of an answer.
pub open spec fn error_notation(error: RpcErrorV) -> Seq<char> {
    let head = "{\"code\":"@ + text::signed_decimal(error.code as int) + ",\"message\":"@ + quoted(error.message);
    match error.data {
        Some(data) => head + ",\"data\":"@ + encoded(data) + "}"@,
        None => head + "}"@,
    }
}

/// The model of the outcome of a request.
pub open spec fn outcome_view(outcome: Result<Data, JsonRpcError>) -> Result<DataV, RpcErrorV> {
    match outcome {
        Ok(result) => Ok(result@),
        Err(error) => Err(error@),
    }
}

/// An answer.
pub open spec fn response_notation(id: DataV, outcome: Result<DataV, RpcErrorV>) -> Seq<char> {
    let head = "{\"jsonrpc\":\"2.0\",\"id\":"@ + encoded(id);
    match outcome {
        Ok(result) => head + ",\"result\":"@ + encoded(result) + "}"@,
        Err(error) => head + ",\"error\":"@ + error_notation(error) + "}"@,
    }
}

/// Writes a text in JSON notation.
fn quote(s: &str) -> (r: String)
    ensures
        r@ == quoted(s@),
{
    value::encode(&Data::text(s))
}

/// Writes a request.
pub fn write_request(id: u64, method: &str, params: &str) -> (r: String)
    ensures
        r@ == request_notation(id, method@, params@),
{
    let head = text::cat4(
        "{\"jsonrpc\":\"2.0\",\"id\":",
        text::number(id as u128).as_str(),
        ",\"method\":",
        quote(method).as_str(),
    );
    text::cat4(head.as_str(), ",\"params\":", params, "}")
}

/// Writes a notification.
pub fn write_notification(method: &str, params: &str) -> (r: String)
    ensures
        r@ == notification_notation(method@, params@),
{
    text::cat5("{\"jsonrpc\":\"2.0\",\"method\":", quote(method).as_str(), ",\"params\":", params, "}")
}

/// Writes the notification that cancels a request.
pub fn write_cancellation(id: u64) -> (r: String)
    ensures
        r@ == cancellation_notation(id),
{
    let params = text::cat3("{\"id\":", text::number(id as u128).as_str(), "}");
    write_notification(protocol::METHOD_CANCEL_REQUEST, params.as_str())
}

/// Writes the error part of an answer.
fn write_error(error: &JsonRpcError) -> (r: String)
    ensures
        r@ == error_notation(error@),
{
    let head = text::cat4(
        "{\"code\":",
        text::signed_number(error.code as i128).as_str(),
        ",\"message\":",
        quote(error.message.as_str()).as_str(),
    );
    match &error.data {
        Some(data) => text::cat4(head.as_str(), ",\"data\":", value::encode(data).as_str(), "}"),
        None => text::cat2(head.as_str(), "}"),
    }
}

/// Writes an answer that is an error.
pub fn write_rejection(id: &Data, error: &JsonRpcError) -> (r: String)
    ensures
        r@ == response_notation(id@, Err(error@)),
{
    let head = text::cat2("{\"jsonrpc\":\"2.0\",\"id\":", value::encode(id).as_str());
    text::cat4(head.as_str(), ",\"error\":", write_error(error).as_str(), "}")
}

/// Writes an answer.
pub fn write_response(id: &Data, outcome: &Result<Data, JsonRpcError>) -> (r: String)
    ensures
        r@ == response_notation(id@, outcome_view(*outcome)),
{
    match outcome {
        Ok(result) => {
            let head = text::cat2("{\"jsonrpc\":\"2.0\",\"id\":", value::encode(id).as_str());
            text::cat4(head.as_str(), ",\"result\":", value::encode(result).as_str(), "}")
        },
        Err(error) => write_rejection(id, error),
    }
}

// ---------------------------------------------------------------------------
// What the notations stand for
// ---------------------------------------------------------------------------

/// The named values of a request.
pub open spec fn request_value(id: u64, method: Seq<char>, params: DataV) -> DataV {
    DataV::Object(
        seq![
            ("jsonrpc"@, DataV::Str("2.0"@)),
            ("id"@, DataV::Integer(id as int)),
            ("method"@, DataV::Str(method)),
            ("params"@, params),
        ],
    )
}

/// The named values of a notification.
pub open spec fn notification_value(method: Seq<char>, params: DataV) -> DataV {
    DataV::Object(
        seq![("jsonrpc"@, DataV::Str("2.0"@)), ("method"@, DataV::Str(method)), ("params"@, params)],
    )
}

/// The named values of a JSON-RPC error.
pub open spec fn error_value(error: RpcErrorV) -> DataV {
    let head = seq![("code"@, DataV::Integer(error.code as int)), ("message"@, DataV::Str(error.message))];
    DataV::Object(
        match error.data {
            Some(data) => head.push(("data"@, json_form(data))),
            None => head,
        },
    )
}

/// The part of an answer that is its result or its error.
pub open spec fn outcome_entry(outcome: Result<DataV, RpcErrorV>) -> (Seq<char>, DataV) {
    match outcome {
        Ok(result) => ("result"@, json_form(result)),
        Err(error) => ("error"@, error_value(error)),
    }
}

/// The named values of an answer.
pub open spec fn response_value(id: DataV, outcome: Result<DataV, RpcErrorV>) -> DataV {
    DataV::Object(
        seq![("jsonrpc"@, DataV::Str("2.0"@)), ("id"@, json_form(id)), outcome_entry(outcome)],
    )
}

/// A text without characters that JSON escapes.
pub open spec fn is_plain(s: Seq<char>) -> bool {
    forall|i: int| 0 <= i < s.len() ==> (#[trigger] s[i]) as u32 >= 32 && s[i] != '"' && s[i] != '\\'
}

/// A plain text stands as it is between quotation marks.
proof fn lemma_plain(s: Seq<char>)
    requires
        is_plain(s),
    ensures
        value::escapes(s) == s,
    decreases s.len(),
{
    if s.len() > 0 {
        let rest = s.drop_last();
        assert forall|i: int| 0 <= i < rest.len() implies (#[trigger] rest[i]) as u32 >= 32 && rest[i] != '"'
            && rest[i] != '\\' by {
            assert(rest[i] == s[i]);
        }
        lemma_plain(rest);
        assert(s.last() == s[s.len() - 1]);
        assert(value::escapes(s) =~= s);
    } else {
        assert(value::escapes(s) =~= s);
    }
}

/// One more part of a joined text.
proof fn lemma_joined_more(parts: Seq<Seq<char>>, more: Seq<char>)
    requires
        parts.len() > 0,
    ensures
        text::joined(parts.push(more), ","@) == text::joined(parts, ","@) + ","@ + more,
{
    assert(parts.push(more).drop_last() =~= parts);
}

/// The notation of an entry.
spec fn member(entry: (Seq<char>, DataV)) -> Seq<char> {
    quoted(entry.0) + ":"@ + compact(entry.1)
}

/// The notation of two named values.
proof fn lemma_two(a: (Seq<char>, DataV), b: (Seq<char>, DataV))
    ensures
        compact(DataV::Object(seq![a, b])) == seq!['{'] + (member(a) + ","@ + member(b)) + seq!['}'],
{
    let parts = value::compact_members(seq![a, b]);
    assert(parts =~= seq![member(a)].push(member(b)));
    lemma_joined_more(seq![member(a)], member(b));
}

/// The notation of three named values.
proof fn lemma_three(a: (Seq<char>, DataV), b: (Seq<char>, DataV), c: (Seq<char>, DataV))
    ensures
        compact(DataV::Object(seq![a, b, c])) == seq!['{'] + (member(a) + ","@ + member(b) + ","@ + member(c))
            + seq!['}'],
{
    let parts = value::compact_members(seq![a, b, c]);
    let two = seq![member(a)].push(member(b));
    assert(parts =~= two.push(member(c)));
    lemma_joined_more(seq![member(a)], member(b));
    lemma_joined_more(two, member(c));
}

/// The notation of four named values.
proof fn lemma_four(
    a: (Seq<char>, DataV),
    b: (Seq<char>, DataV),
    c: (Seq<char>, DataV),
    d: (Seq<char>, DataV),
)
    ensures
        compact(DataV::Object(seq![a, b, c, d])) == seq!['{'] + (member(a) + ","@ + member(b) + ","@ + member(c)
            + ","@ + member(d)) + seq!['}'],
{
    let parts = value::compact_members(seq![a, b, c, d]);
    let two = seq![member(a)].push(member(b));
    let three = two.push(member(c));
    assert(parts =~= three.push(member(d)));
    lemma_joined_more(seq![member(a)], member(b));
    lemma_joined_more(two, member(c));
    lemma_joined_more(three, member(d));
}

/// The notations of the names that messages have.
proof fn lemma_names()
    ensures
        quoted("jsonrpc"@) =~= "\"jsonrpc\""@,
        quoted("2.0"@) =~= "\"2.0\""@,
        quoted("id"@) =~= "\"id\""@,
        quoted("method"@) =~= "\"method\""@,
        quoted("params"@) =~= "\"params\""@,
        quoted("result"@) =~= "\"result\""@,
        quoted("error"@) =~= "\"error\""@,
        quoted("code"@) =~= "\"code\""@,
        quoted("message"@) =~= "\"message\""@,
        quoted("data"@) =~= "\"data\""@,
{
    reveal_strlit("jsonrpc");
    reveal_strlit("2.0");
    reveal_strlit("id");
    reveal_strlit("method");
    reveal_strlit("params");
    reveal_strlit("result");
    reveal_strlit("error");
    reveal_strlit("code");
    reveal_strlit("message");
    reveal_strlit("data");
    reveal_strlit("\"jsonrpc\"");
    reveal_strlit("\"2.0\"");
    reveal_strlit("\"id\"");
    reveal_strlit("\"method\"");
    reveal_strlit("\"params\"");
    reveal_strlit("\"result\"");
    reveal_strlit("\"error\"");
    reveal_strlit("\"code\"");
    reveal_strlit("\"message\"");
    reveal_strlit("\"data\"");
    lemma_plain("jsonrpc"@);
    lemma_plain("2.0"@);
    lemma_plain("id"@);
    lemma_plain("method"@);
    lemma_plain("params"@);
    lemma_plain("result"@);
    lemma_plain("error"@);
    lemma_plain("code"@);
    lemma_plain("message"@);
    lemma_plain("data"@);
}

/// What stands between the parts of messages.
proof fn lemma_separators()
    ensures
        "{\"jsonrpc\":\"2.0\",\"id\":"@ =~= seq!['{'] + ("\"jsonrpc\""@ + ":"@ + "\"2.0\""@ + ","@ + (
        "\"id\""@ + ":"@)),
        "{\"jsonrpc\":\"2.0\",\"method\":"@ =~= seq!['{'] + ("\"jsonrpc\""@ + ":"@ + "\"2.0\""@ + ","@ + (
        "\"method\""@ + ":"@)),
        "{\"code\":"@ =~= seq!['{'] + ("\"code\""@ + ":"@),
        "{\"id\":"@ =~= seq!['{'] + ("\"id\""@ + ":"@),
        ",\"method\":"@ =~= ","@ + ("\"method\""@ + ":"@),
        ",\"params\":"@ =~= ","@ + ("\"params\""@ + ":"@),
        ",\"result\":"@ =~= ","@ + ("\"result\""@ + ":"@),
        ",\"error\":"@ =~= ","@ + ("\"error\""@ + ":"@),
        ",\"message\":"@ =~= ","@ + ("\"message\""@ + ":"@),
        ",\"data\":"@ =~= ","@ + ("\"data\""@ + ":"@),
        "}"@ =~= seq!['}'],
{
    reveal_strlit("\"jsonrpc\"");
    reveal_strlit("\"2.0\"");
    reveal_strlit("\"id\"");
    reveal_strlit("\"method\"");
    reveal_strlit("\"params\"");
    reveal_strlit("\"result\"");
    reveal_strlit("\"error\"");
    reveal_strlit("\"code\"");
    reveal_strlit("\"message\"");
    reveal_strlit("\"data\"");
    reveal_strlit(":");
    reveal_strlit(",");
    reveal_strlit("}");
    reveal_strlit("{\"jsonrpc\":\"2.0\",\"id\":");
    reveal_strlit("{\"jsonrpc\":\"2.0\",\"method\":");
    reveal_strlit("{\"code\":");
    reveal_strlit("{\"id\":");
    reveal_strlit(",\"method\":");
    reveal_strlit(",\"params\":");
    reveal_strlit(",\"result\":");
    reveal_strlit(",\"error\":");
    reveal_strlit(",\"message\":");
    reveal_strlit(",\"data\":");
}

/// A request is the compact notation of its named values, in their order.
pub proof fn requests_are_compact(id: u64, method: Seq<char>, params: DataV)
    ensures
        request_notation(id, method, compact(params)) == compact(request_value(id, method, params)),
{
    lemma_names();
    lemma_separators();
    let a = ("jsonrpc"@, DataV::Str("2.0"@));
    let b = ("id"@, DataV::Integer(id as int));
    let c = ("method"@, DataV::Str(method));
    let d = ("params"@, params);
    lemma_four(a, b, c, d);
    assert(request_notation(id, method, compact(params)) =~= compact(request_value(id, method, params)));
}

/// A notification is the compact notation of its named values, in their order.
pub proof fn notifications_are_compact(method: Seq<char>, params: DataV)
    ensures
        notification_notation(method, compact(params)) == compact(notification_value(method, params)),
{
    lemma_names();
    lemma_separators();
    let a = ("jsonrpc"@, DataV::Str("2.0"@));
    let b = ("method"@, DataV::Str(method));
    let c = ("params"@, params);
    lemma_three(a, b, c);
    assert(notification_notation(method, compact(params)) =~= compact(notification_value(method, params)));
}

/// A cancellation is the notification that names the request.
pub proof fn cancellations_are_compact(id: u64)
    ensures
        cancellation_notation(id) == compact(
            notification_value(
                protocol::METHOD_CANCEL_REQUEST@,
                DataV::Object(seq![("id"@, DataV::Integer(id as int))]),
            ),
        ),
{
    lemma_names();
    lemma_separators();
    let entry = ("id"@, DataV::Integer(id as int));
    let params = DataV::Object(seq![entry]);
    assert(value::compact_members(seq![entry]) =~= seq![member(entry)]);
    assert(compact(params) =~= "{\"id\":"@ + text::decimal(id as nat) + "}"@);
    notifications_are_compact(protocol::METHOD_CANCEL_REQUEST@, params);
}

/// Two members put together.
proof fn lemma_put_two(p: Seq<char>, v: Seq<char>, q: Seq<char>, w: Seq<char>)
    ensures
        (seq!['{'] + (p + ":"@)) + v + (","@ + (q + ":"@)) + w + seq!['}'] == seq!['{'] + ((p + ":"@ + v) + ","@ + (
        q + ":"@ + w)) + seq!['}'],
{
    assert((seq!['{'] + (p + ":"@)) + v + (","@ + (q + ":"@)) + w + seq!['}'] =~= seq!['{'] + ((p + ":"@ + v)
        + ","@ + (q + ":"@ + w)) + seq!['}']);
}

/// Three members put together.
proof fn lemma_put_three(
    p: Seq<char>,
    v: Seq<char>,
    q: Seq<char>,
    w: Seq<char>,
    o: Seq<char>,
    x: Seq<char>,
)
    ensures
        (seq!['{'] + (p + ":"@)) + v + (","@ + (q + ":"@)) + w + (","@ + (o + ":"@)) + x + seq!['}'] == seq!['{']
            + ((p + ":"@ + v) + ","@ + (q + ":"@ + w) + ","@ + (o + ":"@ + x)) + seq!['}'],
{
    assert((seq!['{'] + (p + ":"@)) + v + (","@ + (q + ":"@)) + w + (","@ + (o + ":"@)) + x + seq!['}']
        =~= seq!['{'] + ((p + ":"@ + v) + ","@ + (q + ":"@ + w) + ","@ + (o + ":"@ + x)) + seq!['}']);
}

/// The error part of an answer is the compact notation of its named values, in their order.
proof fn lemma_errors_are_compact(error: RpcErrorV)
    ensures
        error_notation(error) == compact(error_value(error)),
{
    lemma_names();
    lemma_separators();
    let a = ("code"@, DataV::Integer(error.code as int));
    let b = ("message"@, DataV::Str(error.message));
    let code = text::signed_decimal(error.code as int);
    let message = quoted(error.message);
    match error.data {
        Some(data) => {
            let c = ("data"@, json_form(data));
            lemma_three(a, b, c);
            lemma_put_three("\"code\""@, code, "\"message\""@, message, "\"data\""@, encoded(data));
            assert(error_value(error)->Object_0 =~= seq![a, b, c]);
        },
        None => {
            lemma_two(a, b);
            lemma_put_two("\"code\""@, code, "\"message\""@, message);
            assert(error_value(error)->Object_0 =~= seq![a, b]);
        },
    }
}

/// The notation of the part of an answer that is its result or its error.
proof fn lemma_outcome(outcome: Result<DataV, RpcErrorV>)
    ensures
        member(outcome_entry(outcome)) == match outcome {
            Ok(result) => "\"result\""@ + ":"@ + encoded(result),
            Err(error) => "\"error\""@ + ":"@ + error_notation(error),
        },
{
    lemma_names();
    match outcome {
        Ok(_) => {},
        Err(error) => {
            lemma_errors_are_compact(error);
        },
    }
}

/// The parts of an answer put together.
proof fn lemma_answer(id: Seq<char>, name: Seq<char>, last: Seq<char>)
    ensures
        "{\"jsonrpc\":\"2.0\",\"id\":"@ + id + (","@ + (name + ":"@)) + last + "}"@ == seq!['{'] + (
        "\"jsonrpc\""@ + ":"@ + "\"2.0\""@ + ","@ + ("\"id\""@ + ":"@ + id) + ","@ + (name + ":"@ + last))
            + seq!['}'],
{
    lemma_separators();
    assert("{\"jsonrpc\":\"2.0\",\"id\":"@ + id + (","@ + (name + ":"@)) + last + "}"@ =~= seq!['{'] + (
    "\"jsonrpc\""@ + ":"@ + "\"2.0\""@ + ","@ + ("\"id\""@ + ":"@ + id) + ","@ + (name + ":"@ + last))
        + seq!['}']);
}

/// An answer is the compact notation of its named values, in their order.
pub proof fn responses_are_compact(id: DataV, outcome: Result<DataV, RpcErrorV>)
    ensures
        response_notation(id, outcome) == compact(response_value(id, outcome)),
{
    lemma_names();
    lemma_separators();
    let a = ("jsonrpc"@, DataV::Str("2.0"@));
    let b = ("id"@, json_form(id));
    lemma_outcome(outcome);
    lemma_three(a, b, outcome_entry(outcome));
    match outcome {
        Ok(result) => {
            lemma_answer(encoded(id), "\"result\""@, encoded(result));
        },
        Err(error) => {
            lemma_answer(encoded(id), "\"error\""@, error_notation(error));
        },
    }
}

/// The names of messages differ.
proof fn lemma_names_differ()
    ensures
        "jsonrpc"@.len() == 7,
        "id"@.len() == 2,
        "method"@.len() == 6,
        "params"@.len() == 6,
        "result"@.len() == 6,
        "error"@.len() == 5,
        "code"@.len() == 4,
        "message"@.len() == 7,
        "data"@.len() == 4,
        "method"@ != "params"@,
        "method"@ != "result"@,
        "params"@ != "result"@,
        "code"@ != "data"@,
{
    reveal_strlit("jsonrpc");
    reveal_strlit("id");
    reveal_strlit("method");
    reveal_strlit("params");
    reveal_strlit("result");
    reveal_strlit("error");
    reveal_strlit("code");
    reveal_strlit("message");
    reveal_strlit("data");
    assert("method"@[0] == 'm' && "params"@[0] == 'p' && "result"@[0] == 'r');
    assert("code"@[0] == 'c' && "data"@[0] == 'd');
}

/// What is found under a name once names are in order.
proof fn lemma_found(entries: Seq<(Seq<char>, DataV)>, at: int)
    requires
        value::distinct_names(entries),
        0 <= at < entries.len(),
    ensures
        value::field(value::canonical(DataV::Object(entries)), entries[at].0) == Some(
            value::canonical(entries[at].1),
        ),
{
    value::lemma_lookup_distinct(entries, at);
    value::canonical_form_keeps_fields(entries, entries[at].0);
}

/// What is missing is missing once names are in order.
proof fn lemma_missing(entries: Seq<(Seq<char>, DataV)>, name: Seq<char>)
    requires
        value::distinct_names(entries),
        forall|i: int| 0 <= i < entries.len() ==> (#[trigger] entries[i]).0 != name,
    ensures
        value::field(value::canonical(DataV::Object(entries)), name) is None,
{
    value::lemma_lookup_absent(entries, name);
    value::canonical_form_keeps_fields(entries, name);
}

/// What is read of a request is what was sent, with the names of its parameters in order.
pub proof fn requests_are_read_back(id: u64, method: Seq<char>, params: DataV)
    ensures
        rpc::message_of(value::canonical(request_value(id, method, params))) == Some(
            MessageV {
                jsonrpc: "2.0"@,
                id: Some(DataV::Integer(id as int)),
                method: Some(method),
                params: value::optional(Some(value::canonical(params))),
                result: None,
                error: None,
            },
        ),
{
    lemma_names_differ();
    let entries = request_value(id, method, params)->Object_0;
    lemma_found(entries, 0);
    lemma_found(entries, 1);
    lemma_found(entries, 2);
    lemma_found(entries, 3);
    lemma_missing(entries, "result"@);
    lemma_missing(entries, "error"@);
}

/// What is read of a notification is what was sent, with the names of its parameters in order.
pub proof fn notifications_are_read_back(method: Seq<char>, params: DataV)
    ensures
        rpc::message_of(value::canonical(notification_value(method, params))) == Some(
            MessageV {
                jsonrpc: "2.0"@,
                id: None,
                method: Some(method),
                params: value::optional(Some(value::canonical(params))),
                result: None,
                error: None,
            },
        ),
{
    lemma_names_differ();
    let entries = notification_value(method, params)->Object_0;
    lemma_found(entries, 0);
    lemma_found(entries, 1);
    lemma_found(entries, 2);
    lemma_missing(entries, "id"@);
    lemma_missing(entries, "result"@);
    lemma_missing(entries, "error"@);
}

/// The error that is read of an answer.
pub open spec fn received_error(error: RpcErrorV) -> RpcErrorV {
    RpcErrorV {
        data: match error.data {
            Some(data) => value::optional(Some(value::canonical(json_form(data)))),
            None => None,
        },
        ..error
    }
}

/// What is read of the error part of an answer.
proof fn lemma_errors_are_read_back(error: RpcErrorV)
    ensures
        rpc::rpc_error_of(value::canonical(error_value(error))) == Some(received_error(error)),
{
    lemma_names_differ();
    let entries = error_value(error)->Object_0;
    lemma_found(entries, 0);
    lemma_found(entries, 1);
    if error.data is Some {
        lemma_found(entries, 2);
    } else {
        lemma_missing(entries, "data"@);
    }
    assert(rpc::rpc_error_of(value::canonical(error_value(error)))->0 =~= received_error(error));
}

/// What is read of an answer is what was sent, with names in order.
pub proof fn responses_are_read_back(id: DataV, outcome: Result<DataV, RpcErrorV>)
    ensures
        rpc::message_of(value::canonical(response_value(id, outcome))) == Some(
            MessageV {
                jsonrpc: "2.0"@,
                id: value::optional(Some(value::canonical(json_form(id)))),
                method: None,
                params: None,
                result: match outcome {
                    Ok(result) => value::optional(Some(value::canonical(json_form(result)))),
                    Err(_) => None,
                },
                error: match outcome {
                    Ok(_) => None,
                    Err(error) => Some(received_error(error)),
                },
            },
        ),
{
    lemma_names_differ();
    let entries = response_value(id, outcome)->Object_0;
    assert(entries[2] == outcome_entry(outcome));
    lemma_found(entries, 0);
    lemma_found(entries, 1);
    lemma_found(entries, 2);
    lemma_missing(entries, "method"@);
    lemma_missing(entries, "params"@);
    match outcome {
        Ok(_) => {
            lemma_missing(entries, "error"@);
        },
        Err(error) => {
            lemma_errors_are_read_back(error);
            lemma_missing(entries, "result"@);
        },
    }
}

} // verus!
