//! The plugin's side of a connection.
//!
//! Lines are read and written, and handlers run, elsewhere. The functions here decide what
//! each line asks for and how every outcome is answered.

use vstd::prelude::*;

use crate::client;
use crate::outside;
use crate::protocol;
use crate::protocol::{InitializeRequest, InitializeResult, PluginManifest};
use crate::rpc;
use crate::rpc::{ErrorKind, IncomingMessage, JsonRpcError, MessageV, PluginError, RequestId, ServeError};
use crate::text;
use crate::value;
use crate::value::{Data, DataV};
use crate::version;
use crate::wire;

verus! {

/// Input that is no JSON.
pub const CODE_PARSE_ERROR: i64 = -32700;

/// JSON that is no request.
pub const CODE_INVALID_REQUEST: i64 = -32600;

/// A method that no plugin has.
pub const CODE_METHOD_NOT_FOUND: i64 = -32601;

/// Parameters that do not suit the method.
pub const CODE_INVALID_PARAMS: i64 = -32602;

/// A result that cannot be encoded.
pub const CODE_INTERNAL_ERROR: i64 = -32603;

/// A structured plugin error.
pub const CODE_PLUGIN_ERROR: i64 = -32000;

/// An error without further data.
pub open spec fn plain_error(error: JsonRpcError, code: i64, message: Seq<char>) -> bool {
    error.code == code && error.message@ == message && error.data is None
}

/// An error whose data is the text of another error.
pub open spec fn error_with_cause(error: JsonRpcError, code: i64, message: Seq<char>, cause: Seq<char>) -> bool {
    &&& error.code == code
    &&& error.message@ == message
    &&& error.data matches Some(data)
    &&& data@ == DataV::Object(seq![("error"@, DataV::Str(cause))])
}

/// An error without further data.
pub fn rpc_error(code: i64, message: &str) -> (r: JsonRpcError)
    ensures
        plain_error(r, code, message@),
{
    JsonRpcError { code, message: message.to_owned(), data: None }
}

/// An error whose data is the text of another error.
fn rpc_error_with_cause(code: i64, message: &str, cause: &str) -> (r: JsonRpcError)
    ensures
        error_with_cause(r, code, message@, cause@),
{
    broadcast use value::lemma_object_view;

    let mut entries: Vec<(String, Data)> = Vec::new();
    entries.push(("error".to_owned(), Data::text(cause)));
    assert(value::entry_views(entries@) =~= seq![("error"@, DataV::Str(cause@))]);
    JsonRpcError { code, message: message.to_owned(), data: Some(Data::Object(entries)) }
}

/// The JSON-RPC error for a structured plugin error.
pub fn plugin_rpc_error(error: PluginError) -> (r: JsonRpcError)
    ensures
        r.code == CODE_PLUGIN_ERROR,
        r.message@ == error.message@,
        r.data matches Some(data) && data@ == rpc::plugin_error_value(error@),
{
    let data = error.to_value();
    JsonRpcError { code: CODE_PLUGIN_ERROR, message: error.message, data: Some(data) }
}

/// The JSON-RPC error for parameters that cannot be read.
pub fn parameter_error(cause: &str) -> (r: JsonRpcError)
    ensures
        error_with_cause(r, CODE_INVALID_PARAMS, "invalid method parameters"@, cause@),
{
    rpc_error_with_cause(CODE_INVALID_PARAMS, "invalid method parameters", cause)
}

/// The answer to a call: the result of the handler, encoded elsewhere, or its error.
pub fn call_response(outcome: Result<Result<Data, String>, PluginError>) -> (r: Result<Data, JsonRpcError>)
    ensures
        match outcome {
            Ok(Ok(result)) => r == Ok::<Data, JsonRpcError>(result),
            Ok(Err(cause)) => r matches Err(error) && error_with_cause(
                error,
                CODE_INTERNAL_ERROR,
                "failed to serialize plugin result"@,
                cause@,
            ),
            Err(plugin_error) => {
                &&& r matches Err(error)
                &&& error.code == CODE_PLUGIN_ERROR
                &&& error.message@ == plugin_error.message@
                &&& error.data matches Some(data)
                &&& data@ == rpc::plugin_error_value(plugin_error@)
            },
        },
{
    match outcome {
        Ok(Ok(result)) => Ok(result),
        Ok(Err(cause)) => Err(
            rpc_error_with_cause(CODE_INTERNAL_ERROR, "failed to serialize plugin result", cause.as_str()),
        ),
        Err(error) => Err(plugin_rpc_error(error)),
    }
}

/// An operation that a plugin can be asked for.
#[derive(Clone, Copy, Debug, PartialEq, Eq, Structural)]
pub enum Method {
    Initialize,
    Validate,
    Plan,
    Apply,
    Inspect,
    Destroy,
    Cancel,
    LockAcquire,
    LockRelease,
    Logs,
}

impl Method {
    /// The name on the wire.
    pub open spec fn text(self) -> Seq<char> {
        match self {
            Method::Initialize => protocol::METHOD_INITIALIZE@,
            Method::Validate => protocol::METHOD_VALIDATE@,
            Method::Plan => protocol::METHOD_PLAN@,
            Method::Apply => protocol::METHOD_APPLY@,
            Method::Inspect => protocol::METHOD_INSPECT@,
            Method::Destroy => protocol::METHOD_DESTROY@,
            Method::Cancel => protocol::METHOD_CANCEL@,
            Method::LockAcquire => protocol::METHOD_LOCK_ACQUIRE@,
            Method::LockRelease => protocol::METHOD_LOCK_RELEASE@,
            Method::Logs => protocol::METHOD_LOGS@,
        }
    }

    /// Returns the name on the wire.
    pub fn as_str(self) -> (r: &'static str)
        ensures
            r@ == self.text(),
    {
        match self {
            Method::Initialize => protocol::METHOD_INITIALIZE,
            Method::Validate => protocol::METHOD_VALIDATE,
            Method::Plan => protocol::METHOD_PLAN,
            Method::Apply => protocol::METHOD_APPLY,
            Method::Inspect => protocol::METHOD_INSPECT,
            Method::Destroy => protocol::METHOD_DESTROY,
            Method::Cancel => protocol::METHOD_CANCEL,
            Method::LockAcquire => protocol::METHOD_LOCK_ACQUIRE,
            Method::LockRelease => protocol::METHOD_LOCK_RELEASE,
            Method::Logs => protocol::METHOD_LOGS,
        }
    }

    /// The answer of a plugin that does not implement the operation.
    pub fn unsupported(self) -> (r: PluginError)
        ensures
            r@ == rpc::permanent_error(
                ErrorKind::Unsupported,
                "method_unsupported"@,
                "plugin does not implement `"@ + self.text() + "`"@,
            ),
    {
        PluginError::unsupported(self.as_str())
    }
}

/// No operation has the name.
pub open spec fn is_unknown_method(name: Seq<char>) -> bool {
    forall|m: Method| #[trigger] m.text() != name
}

/// Finds the operation that a name on the wire asks for.
pub fn dispatch(name: &str) -> (r: Result<Method, JsonRpcError>)
    ensures
        match r {
            Ok(method) => method.text() == name@,
            Err(error) => is_unknown_method(name@) && plain_error(
                error,
                CODE_METHOD_NOT_FOUND,
                "method not found"@,
            ),
        },
{
    if text::same(name, protocol::METHOD_INITIALIZE) {
        Ok(Method::Initialize)
    } else if text::same(name, protocol::METHOD_VALIDATE) {
        Ok(Method::Validate)
    } else if text::same(name, protocol::METHOD_PLAN) {
        Ok(Method::Plan)
    } else if text::same(name, protocol::METHOD_APPLY) {
        Ok(Method::Apply)
    } else if text::same(name, protocol::METHOD_INSPECT) {
        Ok(Method::Inspect)
    } else if text::same(name, protocol::METHOD_DESTROY) {
        Ok(Method::Destroy)
    } else if text::same(name, protocol::METHOD_CANCEL) {
        Ok(Method::Cancel)
    } else if text::same(name, protocol::METHOD_LOCK_ACQUIRE) {
        Ok(Method::LockAcquire)
    } else if text::same(name, protocol::METHOD_LOCK_RELEASE) {
        Ok(Method::LockRelease)
    } else if text::same(name, protocol::METHOD_LOGS) {
        Ok(Method::Logs)
    } else {
        Err(rpc_error(CODE_METHOD_NOT_FOUND, "method not found"))
    }
}

// ---------------------------------------------------------------------------
// Lines
// ---------------------------------------------------------------------------

/// What a line of the core asks for.
#[derive(Debug, PartialEq, Eq)]
pub enum ServerStep {
    /// The line is answered with an error and serving goes on.
    Reject { id: Data, error: JsonRpcError },
    /// The line is answered with an error and serving ends.
    RejectAndStop { id: Data, error: JsonRpcError },
    /// A request is to be cancelled.
    CancelRequest { id: RequestId },
    /// A cancellation that names no request is dropped.
    Ignore,
    /// A notification is passed to the handler.
    Notification { method: String, params: Data },
    /// The request is answered with an empty result and serving ends.
    Shutdown { id: Data },
    /// An operation is to be run; its answer carries `raw_id`.
    Call { id: RequestId, raw_id: Data, method: String, params: Data },
}

/// The step answers with an error.
pub open spec fn rejects(step: ServerStep, id: DataV, code: i64, message: Seq<char>) -> bool {
    &&& step matches ServerStep::Reject { id: answered, error }
    &&& answered@ == id
    &&& plain_error(error, code, message)
}

/// The parameters of a message: none stand for no named values.
pub open spec fn params_of(message: MessageV) -> DataV {
    match message.params {
        Some(params) => params,
        None => DataV::Object(Seq::empty()),
    }
}

/// A value is no identifier of a request.
pub open spec fn is_no_id(v: DataV) -> bool {
    v !is Str && value::count_of(Some(v)) is None
}

/// The request that a cancellation names: its parameters are a record with the identifier.
pub open spec fn cancelled_id(params: DataV) -> Option<DataV> {
    match value::part(params, "id"@, 0) {
        Some(id) => if value::is_record(params, 1) && !is_no_id(id) {
            Some(id)
        } else {
            None
        },
        None => None,
    }
}

/// What a message of the core asks for.
pub open spec fn step_is(message: MessageV, step: ServerStep) -> bool {
    if message.jsonrpc != "2.0"@ {
        rejects(step, DataV::Null, CODE_INVALID_REQUEST, "invalid JSON-RPC 2.0 request"@)
    } else if message.method is None {
        rejects(
            step,
            match message.id {
                Some(id) => id,
                None => DataV::Null,
            },
            CODE_INVALID_REQUEST,
            "plugin server accepts only requests/notifications"@,
        )
    } else if message.id is None {
        if message.method->0 == protocol::METHOD_CANCEL_REQUEST@ {
            match cancelled_id(params_of(message)) {
                Some(named) => step matches ServerStep::CancelRequest { id } && rpc::request_id_is(
                    named,
                    Some(id),
                ),
                None => step is Ignore,
            }
        } else {
            step matches ServerStep::Notification { method, params } && method@ == message.method->0
                && params@ == params_of(message)
        }
    } else if is_no_id(message.id->0) {
        rejects(step, DataV::Null, CODE_INVALID_REQUEST, "request ID must be a string or integer"@)
    } else if message.method->0 == protocol::METHOD_SHUTDOWN@ {
        step matches ServerStep::Shutdown { id } && id@ == message.id->0
    } else {
        &&& step matches ServerStep::Call { id, raw_id, method, params }
        &&& rpc::request_id_is(message.id->0, Some(id))
        &&& raw_id@ == message.id->0
        &&& method@ == message.method->0
        &&& params@ == params_of(message)
    }
}

/// What a document asks for, where it may be no message.
pub open spec fn served(document: DataV, step: ServerStep) -> bool {
    match rpc::message_of(document) {
        None => rejects(step, DataV::Null, CODE_INVALID_REQUEST, "invalid JSON-RPC 2.0 request"@),
        Some(message) => step_is(message, step),
    }
}

/// Finds the request that a cancellation names.
fn find_cancelled(params: &Data) -> (r: Option<RequestId>)
    ensures
        match (r, cancelled_id(params@)) {
            (Some(id), Some(named)) => rpc::request_id_is(named, Some(id)),
            (None, None) => true,
            _ => false,
        },
{
    if !params.is_record(1) {
        return None;
    }
    match params.part("id", 0) {
        Some(id) => RequestId::from_value(id),
        None => None,
    }
}

/// Takes the line end off what was read, or ends serving where it is too long.
pub fn accept_line(line: Vec<u8>) -> (r: Result<Vec<u8>, ServerStep>)
    ensures
        if line@.len() > protocol::MAX_MESSAGE_BYTES + 1 {
            &&& r matches Err(ServerStep::RejectAndStop { id, error })
            &&& id@ == DataV::Null
            &&& plain_error(error, CODE_PARSE_ERROR, "message exceeds 16777216 bytes"@)
        } else {
            r matches Ok(content) && content@ == client::line_content(line@)
        },
{
    if line.len() > protocol::MAX_MESSAGE_BYTES + 1 {
        return Err(
            ServerStep::RejectAndStop {
                id: Data::Null,
                error: rpc_error(CODE_PARSE_ERROR, "message exceeds 16777216 bytes"),
            },
        );
    }
    let mut content = line;
    client::trim_newline(&mut content);
    Ok(content)
}

/// Takes parsed input, or rejects what is no JSON.
pub fn accept_input(parsed: Result<Data, String>) -> (r: Result<Data, ServerStep>)
    ensures
        match parsed {
            Ok(raw) => r == Ok::<Data, ServerStep>(raw),
            Err(cause) => {
                &&& r matches Err(ServerStep::Reject { id, error })
                &&& id@ == DataV::Null
                &&& error_with_cause(error, CODE_PARSE_ERROR, "parse error"@, cause@)
            },
        },
{
    match parsed {
        Ok(raw) => Ok(raw),
        Err(cause) => Err(
            ServerStep::Reject {
                id: Data::Null,
                error: rpc_error_with_cause(CODE_PARSE_ERROR, "parse error", cause.as_str()),
            },
        ),
    }
}

/// Reads the content of a line.
pub fn read_input(content: &[u8]) -> (r: Result<Data, ServerStep>)
    ensures
        match outside::json_parsed(content@) {
            Ok(model) => r matches Ok(raw) && raw@ == model,
            Err(cause) => {
                &&& r matches Err(ServerStep::Reject { id, error })
                &&& id@ == DataV::Null
                &&& error_with_cause(error, CODE_PARSE_ERROR, "parse error"@, cause)
            },
        },
        forall|v: DataV|
            outside::is_exact_json(v, 100) && content@ == vstd::utf8::encode_utf8(#[trigger] value::compact(v))
                ==> (r matches Ok(raw) && raw@ == value::canonical(v)),
{
    accept_input(value::parse_json(content))
}

/// Decides what a message of the core asks for; `decoded` are its parts, where it has them.
pub fn serve(decoded: Option<IncomingMessage>) -> (r: ServerStep)
    ensures
        match decoded {
            None => rejects(r, DataV::Null, CODE_INVALID_REQUEST, "invalid JSON-RPC 2.0 request"@),
            Some(message) => step_is(message@, r),
        },
{
    let message = match decoded {
        Some(message) => message,
        None => {
            return ServerStep::Reject {
                id: Data::Null,
                error: rpc_error(CODE_INVALID_REQUEST, "invalid JSON-RPC 2.0 request"),
            };
        },
    };
    if !text::same(message.jsonrpc.as_str(), "2.0") {
        return ServerStep::Reject {
            id: Data::Null,
            error: rpc_error(CODE_INVALID_REQUEST, "invalid JSON-RPC 2.0 request"),
        };
    }
    let method = match message.method {
        Some(method) => method,
        None => {
            let id = match message.id {
                Some(id) => id,
                None => Data::Null,
            };
            return ServerStep::Reject {
                id,
                error: rpc_error(CODE_INVALID_REQUEST, "plugin server accepts only requests/notifications"),
            };
        },
    };
    let params = match message.params {
        Some(params) => params,
        None => Data::object(),
    };
    let raw_id = match message.id {
        Some(id) => id,
        None => {
            return if text::same(method.as_str(), protocol::METHOD_CANCEL_REQUEST) {
                match find_cancelled(&params) {
                    Some(id) => ServerStep::CancelRequest { id },
                    None => ServerStep::Ignore,
                }
            } else {
                ServerStep::Notification { method, params }
            };
        },
    };
    let id = match RequestId::from_value(&raw_id) {
        Some(id) => id,
        None => {
            return ServerStep::Reject {
                id: Data::Null,
                error: rpc_error(CODE_INVALID_REQUEST, "request ID must be a string or integer"),
            };
        },
    };
    if text::same(method.as_str(), protocol::METHOD_SHUTDOWN) {
        return ServerStep::Shutdown { id: raw_id };
    }
    ServerStep::Call { id, raw_id, method, params }
}

/// Decides what a line of the core asks for.
pub fn serve_line(line: Vec<u8>) -> (r: ServerStep)
    ensures
        if line@.len() > protocol::MAX_MESSAGE_BYTES + 1 {
            &&& r matches ServerStep::RejectAndStop { id, error }
            &&& id@ == DataV::Null
            &&& plain_error(error, CODE_PARSE_ERROR, "message exceeds 16777216 bytes"@)
        } else {
            match outside::json_parsed(client::line_content(line@)) {
                Ok(document) => served(document, r),
                Err(cause) => {
                    &&& r matches ServerStep::Reject { id, error }
                    &&& id@ == DataV::Null
                    &&& error_with_cause(error, CODE_PARSE_ERROR, "parse error"@, cause)
                },
            }
        },
        forall|v: DataV|
            line@.len() <= protocol::MAX_MESSAGE_BYTES + 1 && outside::is_exact_json(v, 100)
                && client::line_content(line@) == vstd::utf8::encode_utf8(#[trigger] value::compact(v))
                ==> served(value::canonical(v), r),
{
    let content = match accept_line(line) {
        Ok(content) => content,
        Err(step) => {
            return step;
        },
    };
    match read_input(content.as_slice()) {
        Ok(raw) => serve(IncomingMessage::from_value(&raw)),
        Err(step) => step,
    }
}

/// Every request is answered: a message with an identifier that is a text or an unsigned
/// number is never dropped, and its answer carries that identifier.
pub proof fn requests_are_answered(message: MessageV, step: ServerStep)
    requires
        step_is(message, step),
        message.jsonrpc == "2.0"@,
        message.id is Some,
        !is_no_id(message.id->0),
    ensures
        match step {
            ServerStep::Reject { id, .. } => id@ == message.id->0,
            ServerStep::Shutdown { id } => id@ == message.id->0,
            ServerStep::Call { raw_id, .. } => raw_id@ == message.id->0,
            _ => false,
        },
{
}

/// What the core asks for is what the plugin runs: under the same number, by the same name, and
/// with the same parameters, their names in order.
pub proof fn requests_are_served_as_sent(id: u64, method: Seq<char>, params: DataV, step: ServerStep)
    requires
        served(value::canonical(wire::request_value(id, method, params)), step),
        method != protocol::METHOD_SHUTDOWN@,
        params !is Null,
    ensures
        step matches ServerStep::Call { id: RequestId::Number(number), raw_id, method: name, params: given }
            && number == id && raw_id@ == DataV::Integer(id as int) && name@ == method && given@
            == value::canonical(params),
{
    wire::requests_are_read_back(id, method, params);
}

/// How a task that ran a request ended.
#[derive(Debug, PartialEq, Eq)]
pub enum TaskOutcome {
    /// It wrote its answer, or failed to.
    Finished(Result<(), ServeError>),
    /// It was cancelled.
    Cancelled,
    /// It broke off.
    Failed(String),
}

/// Ends serving with an error where a task failed. A cancelled task has not.
pub fn accept_task(outcome: TaskOutcome) -> (r: Result<(), ServeError>)
    ensures
        match outcome {
            TaskOutcome::Finished(result) => r == result,
            TaskOutcome::Cancelled => r == Ok::<(), ServeError>(()),
            TaskOutcome::Failed(error) => r matches Err(ServeError::Io(detail)) && detail@
                == "plugin request task failed: "@ + error@,
        },
{
    match outcome {
        TaskOutcome::Finished(result) => result,
        TaskOutcome::Cancelled => Ok(()),
        TaskOutcome::Failed(error) => Err(
            ServeError::Io(text::cat2("plugin request task failed: ", error.as_str())),
        ),
    }
}

// ---------------------------------------------------------------------------
// Answers
// ---------------------------------------------------------------------------

/// The line of a message, or the failure to write one that is too long.
pub open spec fn is_written(r: Result<Vec<u8>, ServeError>, notation: Seq<char>) -> bool {
    match (r, client::framed(notation)) {
        (Ok(line), Some(model)) => line@ == model,
        (Err(ServeError::Io(detail)), None) => detail@ == "outgoing message exceeds 16777216 bytes"@,
        _ => false,
    }
}

/// Puts a message on a line.
fn written_line(notation: &str) -> (r: Result<Vec<u8>, ServeError>)
    ensures
        is_written(r, notation@),
{
    match client::message_line(notation) {
        Ok(line) => Ok(line),
        Err(_) => Err(ServeError::Io("outgoing message exceeds 16777216 bytes".to_owned())),
    }
}

/// The line of an answer.
pub fn response_line(id: &Data, outcome: &Result<Data, JsonRpcError>) -> (r: Result<Vec<u8>, ServeError>)
    ensures
        is_written(r, wire::response_notation(id@, wire::outcome_view(*outcome))),
{
    written_line(wire::write_response(id, outcome).as_str())
}

/// The line of a notification to the core. The parameters are given in JSON notation.
pub fn event_line(method: &str, params: &str) -> (r: Result<Vec<u8>, ServeError>)
    ensures
        is_written(r, wire::notification_notation(method@, params@)),
{
    written_line(wire::write_notification(method, params).as_str())
}

/// What a step is answered with before anything is run.
pub open spec fn reply_notation(step: ServerStep) -> Option<Seq<char>> {
    match step {
        ServerStep::Reject { id, error } => Some(wire::response_notation(id@, Err(error@))),
        ServerStep::RejectAndStop { id, error } => Some(wire::response_notation(id@, Err(error@))),
        ServerStep::Shutdown { id } => Some(
            wire::response_notation(id@, Ok(DataV::Object(Seq::empty()))),
        ),
        _ => None,
    }
}

/// The line that a step is answered with before anything is run: errors, and an empty result
/// for the request to stop.
pub fn reply(step: &ServerStep) -> (r: Option<Result<Vec<u8>, ServeError>>)
    ensures
        match (r, reply_notation(*step)) {
            (Some(line), Some(notation)) => is_written(line, notation),
            (None, None) => true,
            _ => false,
        },
{
    let line = match step {
        ServerStep::Reject { id, error } => wire::write_rejection(id, error),
        ServerStep::RejectAndStop { id, error } => wire::write_rejection(id, error),
        ServerStep::Shutdown { id } => wire::write_response(id, &Ok(Data::object())),
        _ => {
            return None;
        },
    };
    Some(written_line(line.as_str()))
}

/// Tests whether serving ends with a step.
pub fn is_last(step: &ServerStep) -> (r: bool)
    ensures
        r == (step is Shutdown || step is RejectAndStop),
{
    match step {
        ServerStep::Shutdown { .. } => true,
        ServerStep::RejectAndStop { .. } => true,
        _ => false,
    }
}

/// A request to stop ends serving, and is answered with its number and an empty result.
pub proof fn shutdown_is_answered(message: MessageV, step: ServerStep, number: u64)
    requires
        step_is(message, step),
        message.jsonrpc == "2.0"@,
        message.id == Some(DataV::Integer(number as int)),
        message.method == Some(protocol::METHOD_SHUTDOWN@),
    ensures
        step is Shutdown,
        reply_notation(step) == Some(
            "{\"jsonrpc\":\"2.0\",\"id\":"@ + text::decimal(number as nat) + ",\"result\":{}}"@,
        ),
{
    let empty = DataV::Object(Seq::<(Seq<char>, DataV)>::empty());
    assert(value::json_members(Seq::<(Seq<char>, DataV)>::empty()) =~= Seq::<(Seq<char>, DataV)>::empty());
    assert(value::json_form(empty) == empty);
    assert(value::compact_members(Seq::<(Seq<char>, DataV)>::empty()) =~= Seq::<Seq<char>>::empty());
    reveal_strlit(",\"result\":{}}");
    reveal_strlit(",\"result\":");
    reveal_strlit("}");
    assert(value::encoded(empty) =~= seq!['{', '}']);
    let head = "{\"jsonrpc\":\"2.0\",\"id\":"@ + text::decimal(number as nat);
    assert(head + ",\"result\":"@ + seq!['{', '}'] + "}"@ =~= head + ",\"result\":{}}"@);
}

// ---------------------------------------------------------------------------
// Negotiation
// ---------------------------------------------------------------------------

/// A plugin can open a session: its version is offered and it accepts that version itself.
pub open spec fn can_open(manifest: PluginManifest, request: InitializeRequest) -> bool {
    let v = manifest.protocol.version;
    &&& request.protocol_version == v || request.supported_protocol_versions@.contains(v)
    &&& version::in_range(manifest.protocol.requires, v)
}

/// The answer to an opening request that no version suits.
pub open spec fn is_mismatch(error: PluginError, manifest: PluginManifest, request: InitializeRequest) -> bool {
    &&& error@.kind == ErrorKind::Validation
    &&& error@.code == "protocol_mismatch"@
    &&& error@.message == "plugin protocol "@ + version::version_text(manifest.protocol.version)
        + " is not compatible with requested "@ + version::version_text(request.protocol_version)
    &&& !error@.retryable
    &&& error@.retry_after_ms is None
    &&& error@.details == DataV::Object(
        seq![
            ("requested"@, DataV::Str(version::version_text(request.protocol_version))),
            ("plugin"@, DataV::Str(version::version_text(manifest.protocol.version))),
        ],
    )
}

/// Answers the opening request under a session identifier.
pub fn negotiate(manifest: PluginManifest, request: &InitializeRequest, session_id: String) -> (r: Result<
    InitializeResult,
    PluginError,
>)
    ensures
        if can_open(manifest, *request) {
            r == Ok::<InitializeResult, PluginError>(
                InitializeResult { protocol_version: manifest.protocol.version, session_id, manifest },
            )
        } else {
            r matches Err(error) && is_mismatch(error, manifest, *request)
        },
{
    broadcast use value::lemma_object_view;

    let own = manifest.protocol.version;
    let offered = request.protocol_version == own || client::offers(
        &request.supported_protocol_versions,
        own,
    );
    if offered && manifest.protocol.requires.contains(own) {
        return Ok(InitializeResult { protocol_version: own, session_id, manifest });
    }
    let message = text::cat4(
        "plugin protocol ",
        own.to_text().as_str(),
        " is not compatible with requested ",
        request.protocol_version.to_text().as_str(),
    );
    let mut details: Vec<(String, Data)> = Vec::new();
    details.push(("requested".to_owned(), Data::text(request.protocol_version.to_text().as_str())));
    details.push(("plugin".to_owned(), Data::text(own.to_text().as_str())));
    assert(value::entry_views(details@) =~= seq![
        ("requested"@, DataV::Str(version::version_text(request.protocol_version))),
        ("plugin"@, DataV::Str(version::version_text(own))),
    ]);
    let error = PluginError::permanent(ErrorKind::Validation, "protocol_mismatch", message.as_str());
    Err(error.with_details(Data::Object(details)))
}

/// Answers the opening request under a fresh session identifier.
pub fn initialize(manifest: PluginManifest, request: &InitializeRequest) -> (r: Result<
    InitializeResult,
    PluginError,
>)
    ensures
        match r {
            Ok(result) => can_open(manifest, *request) && result.protocol_version
                == manifest.protocol.version && result.manifest == manifest && result.session_id@.len() == 36,
            Err(error) => !can_open(manifest, *request) && is_mismatch(error, manifest, *request),
        },
{
    let session_id = outside::uuid_hyphenated(outside::uuid_random());
    negotiate(manifest, request, session_id)
}

/// What a plugin agrees to, the core accepts.
pub proof fn both_sides_agree(manifest: PluginManifest, request: InitializeRequest, result: InitializeResult)
    requires
        can_open(manifest, request),
        result.manifest == manifest,
        result.protocol_version == manifest.protocol.version,
    ensures
        client::negotiated(request, result),
{
}

/// The core recognises the refusal of a plugin as a protocol mismatch, with both versions.
pub proof fn refusal_is_recognised(details: DataV, requested: version::ProtocolVersion, own: version::ProtocolVersion)
    requires
        details == DataV::Object(
            seq![
                ("requested"@, DataV::Str(version::version_text(requested))),
                ("plugin"@, DataV::Str(version::version_text(own))),
            ],
        ),
    ensures
        client::version_field(details, "requested"@) == Some(requested),
        client::version_field(details, "plugin"@) == Some(own),
{
    reveal_strlit("requested");
    reveal_strlit("plugin");
    let entries = details->Object_0;
    assert("requested"@.len() != "plugin"@.len());
    let rest = entries.subrange(1, entries.len() as int);
    assert(rest[0] == entries[1]);
    assert(value::lookup(rest, "plugin"@) == Some(entries[1].1));
    version::version_round_trip(requested);
    version::version_round_trip(own);
}

} // verus!
