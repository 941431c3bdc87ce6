//! Errors of the plugin protocol and the JSON-RPC 2.0 envelope.

use vstd::prelude::*;

use crate::text;
use crate::value;
use crate::value::{Data, DataV};
use crate::version;
use crate::version::ProtocolVersion;

verus! {

/// Stable category of a plugin error.
#[derive(Clone, Copy, Debug, PartialEq, Eq, Structural)]
pub enum ErrorKind {
    Validation,
    Unsupported,
    Authentication,
    NotFound,
    Conflict,
    LockUnavailable,
    Timeout,
    RateLimited,
    Unavailable,
    Cancelled,
    Internal,
}

impl ErrorKind {
    /// The notation of the category.
    pub open spec fn text(self) -> Seq<char> {
        match self {
            ErrorKind::Validation => "validation"@,
            ErrorKind::Unsupported => "unsupported"@,
            ErrorKind::Authentication => "authentication"@,
            ErrorKind::NotFound => "not_found"@,
            ErrorKind::Conflict => "conflict"@,
            ErrorKind::LockUnavailable => "lock_unavailable"@,
            ErrorKind::Timeout => "timeout"@,
            ErrorKind::RateLimited => "rate_limited"@,
            ErrorKind::Unavailable => "unavailable"@,
            ErrorKind::Cancelled => "cancelled"@,
            ErrorKind::Internal => "internal"@,
        }
    }

    /// Returns the notation of the category.
    pub fn as_str(self) -> (r: &'static str)
        ensures
            r@ == self.text(),
    {
        match self {
            ErrorKind::Validation => "validation",
            ErrorKind::Unsupported => "unsupported",
            ErrorKind::Authentication => "authentication",
            ErrorKind::NotFound => "not_found",
            ErrorKind::Conflict => "conflict",
            ErrorKind::LockUnavailable => "lock_unavailable",
            ErrorKind::Timeout => "timeout",
            ErrorKind::RateLimited => "rate_limited",
            ErrorKind::Unavailable => "unavailable",
            ErrorKind::Cancelled => "cancelled",
            ErrorKind::Internal => "internal",
        }
    }
}

/// A structured error of a plugin.
#[derive(Debug, PartialEq, Eq)]
pub struct PluginError {
    pub kind: ErrorKind,
    pub code: String,
    pub message: String,
    pub retryable: bool,
    pub retry_after_ms: Option<u64>,
    pub details: Data,
}

/// The model of [`PluginError`].
pub struct PluginErrorV {
    pub kind: ErrorKind,
    pub code: Seq<char>,
    pub message: Seq<char>,
    pub retryable: bool,
    pub retry_after_ms: Option<u64>,
    pub details: DataV,
}

impl View for PluginError {
    type V = PluginErrorV;

    open spec fn view(&self) -> PluginErrorV {
        PluginErrorV {
            kind: self.kind,
            code: self.code@,
            message: self.message@,
            retryable: self.retryable,
            retry_after_ms: self.retry_after_ms,
            details: self.details@,
        }
    }
}

/// An error that a retry cannot mend.
pub open spec fn permanent_error(kind: ErrorKind, code: Seq<char>, message: Seq<char>) -> PluginErrorV {
    PluginErrorV { kind, code, message, retryable: false, retry_after_ms: None, details: DataV::Null }
}

/// The named values of a plugin error.
pub open spec fn plugin_error_value(error: PluginErrorV) -> DataV {
    let a = seq![
        ("kind"@, DataV::Str(error.kind.text())),
        ("code"@, DataV::Str(error.code)),
        ("message"@, DataV::Str(error.message)),
        ("retryable"@, DataV::Bool(error.retryable)),
    ];
    let b = match error.retry_after_ms {
        Some(delay) => a.push(("retry_after_ms"@, DataV::Integer(delay as int))),
        None => a,
    };
    DataV::Object(
        if error.details == DataV::Null {
            b
        } else {
            b.push(("details"@, error.details))
        },
    )
}

impl PluginError {
    /// Creates an error that a retry cannot mend.
    pub fn permanent(kind: ErrorKind, code: &str, message: &str) -> (r: PluginError)
        ensures
            r@ == permanent_error(kind, code@, message@),
    {
        PluginError {
            kind,
            code: code.to_owned(),
            message: message.to_owned(),
            retryable: false,
            retry_after_ms: None,
            details: Data::Null,
        }
    }

    /// Creates an error that a retry may mend.
    pub fn retryable(kind: ErrorKind, code: &str, message: &str) -> (r: PluginError)
        ensures
            r@ == (PluginErrorV { retryable: true, ..permanent_error(kind, code@, message@) }),
    {
        PluginError {
            kind,
            code: code.to_owned(),
            message: message.to_owned(),
            retryable: true,
            retry_after_ms: None,
            details: Data::Null,
        }
    }

    /// Creates the error for a method that a plugin lacks.
    pub fn unsupported(method: &str) -> (r: PluginError)
        ensures
            r@ == permanent_error(
                ErrorKind::Unsupported,
                "method_unsupported"@,
                "plugin does not implement `"@ + method@ + "`"@,
            ),
    {
        let message = text::cat3("plugin does not implement `", method, "`");
        PluginError::permanent(ErrorKind::Unsupported, "method_unsupported", message.as_str())
    }

    /// Adds machine-readable details.
    pub fn with_details(self, details: Data) -> (r: PluginError)
        ensures
            r@ == (PluginErrorV { details: details@, ..self@ }),
    {
        PluginError {
            kind: self.kind,
            code: self.code,
            message: self.message,
            retryable: self.retryable,
            retry_after_ms: self.retry_after_ms,
            details,
        }
    }

    /// Adds the shortest sensible delay before a retry.
    pub fn with_retry_after(self, delay_ms: u64) -> (r: PluginError)
        ensures
            r@ == (PluginErrorV { retry_after_ms: Some(delay_ms), ..self@ }),
    {
        PluginError {
            kind: self.kind,
            code: self.code,
            message: self.message,
            retryable: self.retryable,
            retry_after_ms: Some(delay_ms),
            details: self.details,
        }
    }

    /// The error as it goes over the wire.
    pub fn to_value(&self) -> (r: Data)
        ensures
            r@ == plugin_error_value(self@),
    {
        broadcast use {value::lemma_object_view, value::lemma_array_view};

        let mut out: Vec<(String, Data)> = Vec::new();
        out.push(("kind".to_owned(), Data::text(self.kind.as_str())));
        out.push(("code".to_owned(), Data::text(self.code.as_str())));
        out.push(("message".to_owned(), Data::text(self.message.as_str())));
        out.push(("retryable".to_owned(), Data::Bool(self.retryable)));
        match self.retry_after_ms {
            Some(delay) => {
                out.push(("retry_after_ms".to_owned(), Data::Integer(delay as i128)));
            },
            None => {},
        }
        match &self.details {
            Data::Null => {},
            _ => {
                out.push(("details".to_owned(), self.details.duplicate()));
            },
        }
        assert(value::entry_views(out@) =~= plugin_error_value(self@)->Object_0);
        Data::Object(out)
    }
}

/// The category with a notation.
pub open spec fn kind_with(s: Seq<char>) -> Option<ErrorKind> {
    if exists|kind: ErrorKind| #[trigger] kind.text() == s {
        Some(choose|kind: ErrorKind| #[trigger] kind.text() == s)
    } else {
        None
    }
}

/// The category that a value stands for: its notation, alone or as the name of nothing.
pub open spec fn kind_of(v: Option<DataV>) -> Option<ErrorKind> {
    match v {
        Some(DataV::Str(s)) => kind_with(s),
        Some(DataV::Object(entries)) => if entries.len() == 1 && entries[0].1 == DataV::Null {
            kind_with(entries[0].0)
        } else {
            None
        },
        _ => None,
    }
}

/// The plugin error that a value stands for.
pub open spec fn plugin_error_of(v: DataV) -> Option<PluginErrorV> {
    let kind = kind_of(value::part(v, "kind"@, 0));
    let code = value::text_of(value::part(v, "code"@, 1));
    let message = value::text_of(value::part(v, "message"@, 2));
    let retryable = value::part(v, "retryable"@, 3);
    let delay = value::optional(value::part(v, "retry_after_ms"@, 4));
    let details = value::part(v, "details"@, 5);
    if value::is_record(v, 6) && kind is Some && code is Some && message is Some && (retryable is None
        || value::flag_of(retryable) is Some) && (delay is None || value::count_of(delay) is Some) {
        Some(
            PluginErrorV {
                kind: kind->0,
                code: code->0,
                message: message->0,
                retryable: value::flag_of(retryable) == Some(true),
                retry_after_ms: value::count_of(delay),
                details: match details {
                    Some(details) => details,
                    None => DataV::Null,
                },
            },
        )
    } else {
        None
    }
}

/// No two categories have one notation.
proof fn lemma_kinds_differ(a: ErrorKind, b: ErrorKind)
    requires
        a.text() == b.text(),
    ensures
        a == b,
{
    reveal_strlit("validation");
    reveal_strlit("unsupported");
    reveal_strlit("authentication");
    reveal_strlit("not_found");
    reveal_strlit("conflict");
    reveal_strlit("lock_unavailable");
    reveal_strlit("timeout");
    reveal_strlit("rate_limited");
    reveal_strlit("unavailable");
    reveal_strlit("cancelled");
    reveal_strlit("internal");
    let x = a.text();
    let y = b.text();
    assert(x.len() == y.len());
    assert(x[0] == y[0] && x[1] == y[1] && x[2] == y[2]);
}

/// The category of a notation is the one that has it.
proof fn lemma_kind_with(kind: ErrorKind)
    ensures
        kind_with(kind.text()) == Some(kind),
{
    let found = choose|other: ErrorKind| #[trigger] other.text() == kind.text();
    assert(found.text() == kind.text());
    lemma_kinds_differ(found, kind);
}

impl ErrorKind {
    /// Finds the category with a notation.
    pub fn parse(s: &str) -> (r: Option<ErrorKind>)
        ensures
            r == kind_with(s@),
    {
        let kinds = [
            ErrorKind::Validation,
            ErrorKind::Unsupported,
            ErrorKind::Authentication,
            ErrorKind::NotFound,
            ErrorKind::Conflict,
            ErrorKind::LockUnavailable,
            ErrorKind::Timeout,
            ErrorKind::RateLimited,
            ErrorKind::Unavailable,
            ErrorKind::Cancelled,
            ErrorKind::Internal,
        ];
        let mut i: usize = 0;
        while i < 11
            invariant
                i <= 11,
                kinds@.len() == 11,
                forall|kind: ErrorKind| kinds@.contains(kind),
                forall|k: int| 0 <= k < i ==> (#[trigger] kinds@[k]).text() != s@,
            decreases 11 - i,
        {
            if text::same(s, kinds[i].as_str()) {
                proof {
                    lemma_kind_with(kinds@[i as int]);
                }
                return Some(kinds[i]);
            }
            i += 1;
        }
        assert forall|kind: ErrorKind| #[trigger] kind.text() != s@ by {
            assert(kinds@.contains(kind));
        }
        None
    }

    /// Reads a category.
    fn from_value(v: Option<&Data>) -> (r: Option<ErrorKind>)
        ensures
            r == kind_of(value::option_view(v)),
    {
        broadcast use value::lemma_object_view;

        match v {
            Some(Data::Str(s)) => ErrorKind::parse(s.as_str()),
            Some(Data::Object(entries)) => if entries.len() == 1 {
                match &entries[0].1 {
                    Data::Null => ErrorKind::parse(entries[0].0.as_str()),
                    _ => None,
                }
            } else {
                None
            },
            _ => None,
        }
    }
}

impl PluginError {
    /// Reads a plugin error.
    pub fn from_value(v: &Data) -> (r: Option<PluginError>)
        ensures
            match (r, plugin_error_of(v@)) {
                (Some(error), Some(model)) => error@ == model,
                (None, None) => true,
                _ => false,
            },
    {
        if !v.is_record(6) {
            return None;
        }
        let kind = ErrorKind::from_value(v.part("kind", 0));
        let code = match v.part("code", 1) {
            Some(code) => code.as_str(),
            None => None,
        };
        let message = match v.part("message", 2) {
            Some(message) => message.as_str(),
            None => None,
        };
        let retryable = match v.part("retryable", 3) {
            Some(flag) => flag.as_bool(),
            None => Some(false),
        };
        let retry_after_ms = match v.optional_part("retry_after_ms", 4) {
            Some(delay) => match delay.as_u64() {
                Some(n) => Some(n),
                None => {
                    return None;
                },
            },
            None => None,
        };
        let details = match v.part("details", 5) {
            Some(details) => details.duplicate(),
            None => Data::Null,
        };
        match (kind, code, message, retryable) {
            (Some(kind), Some(code), Some(message), Some(retryable)) => Some(
                PluginError {
                    kind,
                    code: code.to_owned(),
                    message: message.to_owned(),
                    retryable,
                    retry_after_ms,
                    details,
                },
            ),
            _ => None,
        }
    }
}

/// The parts of what goes over the wire of a plugin error.
proof fn lemma_plugin_error_parts(error: PluginErrorV)
    ensures
        ({
            let v = plugin_error_value(error);
            &&& value::distinct_names(v->Object_0)
            &&& value::field(v, "kind"@) == Some(DataV::Str(error.kind.text()))
            &&& value::field(v, "code"@) == Some(DataV::Str(error.code))
            &&& value::field(v, "message"@) == Some(DataV::Str(error.message))
            &&& value::field(v, "retryable"@) == Some(DataV::Bool(error.retryable))
            &&& value::field(v, "retry_after_ms"@) == match error.retry_after_ms {
                Some(delay) => Some(DataV::Integer(delay as int)),
                None => None,
            }
            &&& value::field(v, "details"@) == if error.details == DataV::Null {
                None
            } else {
                Some(error.details)
            }
        }),
{
    reveal_strlit("kind");
    reveal_strlit("code");
    reveal_strlit("message");
    reveal_strlit("retryable");
    reveal_strlit("retry_after_ms");
    reveal_strlit("details");
    assert("kind"@[0] != "code"@[0]);
    assert("message"@[0] != "details"@[0]);
    let entries = plugin_error_value(error)->Object_0;
    assert(entries[0].0 == "kind"@ && entries[1].0 == "code"@ && entries[2].0 == "message"@ && entries[3].0
        == "retryable"@);
    assert forall|i: int, j: int| 0 <= i < j < entries.len() implies (#[trigger] entries[i]).0 != (
    #[trigger] entries[j]).0 by {
        assert(i == 0 || i == 1 || i == 2 || i == 3 || i == 4);
        assert(j == 1 || j == 2 || j == 3 || j == 4 || j == 5);
    }
    value::lemma_lookup_distinct(entries, 0);
    value::lemma_lookup_distinct(entries, 1);
    value::lemma_lookup_distinct(entries, 2);
    value::lemma_lookup_distinct(entries, 3);
    if error.retry_after_ms is Some {
        value::lemma_lookup_distinct(entries, 4);
    } else {
        value::lemma_lookup_absent(entries, "retry_after_ms"@);
    }
    if error.details != DataV::Null {
        value::lemma_lookup_distinct(entries, entries.len() - 1);
    } else {
        value::lemma_lookup_absent(entries, "details"@);
    }
}

/// What goes over the wire of a plugin error is read as that error, also where its names were
/// put in order on the way.
pub proof fn plugin_errors_are_read_back(error: PluginErrorV)
    ensures
        plugin_error_of(plugin_error_value(error)) == Some(error),
        plugin_error_of(value::canonical(plugin_error_value(error))) == Some(
            PluginErrorV { details: value::canonical(error.details), ..error },
        ),
{
    lemma_plugin_error_parts(error);
    lemma_kind_with(error.kind);
    let entries = plugin_error_value(error)->Object_0;
    value::canonical_form_keeps_fields(entries, "kind"@);
    value::canonical_form_keeps_fields(entries, "code"@);
    value::canonical_form_keeps_fields(entries, "message"@);
    value::canonical_form_keeps_fields(entries, "retryable"@);
    value::canonical_form_keeps_fields(entries, "retry_after_ms"@);
    value::canonical_form_keeps_fields(entries, "details"@);
}

/// Identifies a request.
#[derive(Clone, Debug, PartialEq, Eq, Hash)]
pub enum RequestId {
    /// A number.
    Number(u64),
    /// A text.
    Text(String),
}

impl RequestId {
    /// The notation of the identifier.
    pub open spec fn text(self) -> Seq<char> {
        match self {
            RequestId::Number(n) => text::decimal(n as nat),
            RequestId::Text(s) => s@,
        }
    }

    /// Returns the notation of the identifier.
    pub fn to_text(&self) -> (r: String)
        ensures
            r@ == self.text(),
    {
        match self {
            RequestId::Number(n) => text::number(*n as u128),
            RequestId::Text(s) => s.clone(),
        }
    }

    /// Reads an identifier: an unsigned number or a text.
    pub fn from_value(v: &Data) -> (r: Option<RequestId>)
        ensures
            request_id_is(v@, r),
    {
        match v {
            Data::Str(s) => Some(RequestId::Text(s.clone())),
            _ => match v.as_u64() {
                Some(n) => Some(RequestId::Number(n)),
                None => None,
            },
        }
    }
}

/// `id` is the identifier that a value is.
pub open spec fn request_id_is(v: DataV, id: Option<RequestId>) -> bool {
    match id {
        Some(RequestId::Number(n)) => v == DataV::Integer(n as int),
        Some(RequestId::Text(s)) => v == DataV::Str(s@),
        None => v !is Str && value::count_of(Some(v)) is None,
    }
}

/// The error part of a JSON-RPC response.
#[derive(Clone, Debug, PartialEq, Eq)]
pub struct JsonRpcError {
    pub code: i64,
    pub message: String,
    pub data: Option<Data>,
}

/// A message read from the wire.
#[derive(Clone, Debug, PartialEq, Eq)]
pub struct IncomingMessage {
    pub jsonrpc: String,
    pub id: Option<Data>,
    pub method: Option<String>,
    pub params: Option<Data>,
    pub result: Option<Data>,
    pub error: Option<JsonRpcError>,
}

/// The model of [`JsonRpcError`].
#[verifier::ext_equal]
pub struct RpcErrorV {
    pub code: i64,
    pub message: Seq<char>,
    pub data: Option<DataV>,
}

impl View for JsonRpcError {
    type V = RpcErrorV;

    open spec fn view(&self) -> RpcErrorV {
        RpcErrorV { code: self.code, message: self.message@, data: data_of(self.data) }
    }
}

/// The model of [`IncomingMessage`].
#[verifier::ext_equal]
pub struct MessageV {
    pub jsonrpc: Seq<char>,
    pub id: Option<DataV>,
    pub method: Option<Seq<char>>,
    pub params: Option<DataV>,
    pub result: Option<DataV>,
    pub error: Option<RpcErrorV>,
}

impl View for IncomingMessage {
    type V = MessageV;

    open spec fn view(&self) -> MessageV {
        MessageV {
            jsonrpc: self.jsonrpc@,
            id: data_of(self.id),
            method: text::option_of(self.method),
            params: data_of(self.params),
            result: data_of(self.result),
            error: match self.error {
                Some(error) => Some(error@),
                None => None,
            },
        }
    }
}

/// The model of an optional value.
pub open spec fn data_of(v: Option<Data>) -> Option<DataV> {
    match v {
        Some(inner) => Some(inner@),
        None => None,
    }
}

/// The JSON-RPC error that a value stands for.
pub open spec fn rpc_error_of(v: DataV) -> Option<RpcErrorV> {
    let code = value::integer_of(value::part(v, "code"@, 0));
    let message = value::text_of(value::part(v, "message"@, 1));
    if value::is_record(v, 3) && code is Some && message is Some {
        Some(
            RpcErrorV {
                code: code->0,
                message: message->0,
                data: value::optional(value::part(v, "data"@, 2)),
            },
        )
    } else {
        None
    }
}

/// The message that a value stands for.
pub open spec fn message_of(v: DataV) -> Option<MessageV> {
    let jsonrpc = value::text_of(value::part(v, "jsonrpc"@, 0));
    let method = value::optional(value::part(v, "method"@, 2));
    let error = value::optional(value::part(v, "error"@, 5));
    if value::is_record(v, 6) && jsonrpc is Some && (method is None || value::text_of(method) is Some) && (
    error is None || rpc_error_of(error->0) is Some) {
        Some(
            MessageV {
                jsonrpc: jsonrpc->0,
                id: value::optional(value::part(v, "id"@, 1)),
                method: value::text_of(method),
                params: value::optional(value::part(v, "params"@, 3)),
                result: value::optional(value::part(v, "result"@, 4)),
                error: match error {
                    Some(inner) => rpc_error_of(inner),
                    None => None,
                },
            },
        )
    } else {
        None
    }
}

/// Copies an optional value.
fn copied(v: Option<&Data>) -> (r: Option<Data>)
    ensures
        data_of(r) == value::option_view(v),
{
    match v {
        Some(inner) => Some(inner.duplicate()),
        None => None,
    }
}

impl JsonRpcError {
    /// Reads a JSON-RPC error.
    pub fn from_value(v: &Data) -> (r: Option<JsonRpcError>)
        ensures
            match (r, rpc_error_of(v@)) {
                (Some(error), Some(model)) => error@ == model,
                (None, None) => true,
                _ => false,
            },
    {
        if !v.is_record(3) {
            return None;
        }
        let code = match v.part("code", 0) {
            Some(code) => code.as_integer(),
            None => None,
        };
        let message = match v.part("message", 1) {
            Some(message) => message.as_str(),
            None => None,
        };
        match (code, message) {
            (Some(code), Some(message)) => Some(
                JsonRpcError { code, message: message.to_owned(), data: copied(v.optional_part("data", 2)) },
            ),
            _ => None,
        }
    }
}

impl IncomingMessage {
    /// Reads a message.
    pub fn from_value(v: &Data) -> (r: Option<IncomingMessage>)
        ensures
            match (r, message_of(v@)) {
                (Some(message), Some(model)) => message@ == model,
                (None, None) => true,
                _ => false,
            },
    {
        if !v.is_record(6) {
            return None;
        }
        let jsonrpc = match v.part("jsonrpc", 0) {
            Some(jsonrpc) => match jsonrpc.as_str() {
                Some(s) => s.to_owned(),
                None => {
                    return None;
                },
            },
            None => {
                return None;
            },
        };
        let method = match v.optional_part("method", 2) {
            Some(method) => match method.as_str() {
                Some(s) => Some(s.to_owned()),
                None => {
                    return None;
                },
            },
            None => None,
        };
        let error = match v.optional_part("error", 5) {
            Some(error) => match JsonRpcError::from_value(error) {
                Some(error) => Some(error),
                None => {
                    return None;
                },
            },
            None => None,
        };
        let message = IncomingMessage {
            jsonrpc,
            id: copied(v.optional_part("id", 1)),
            method,
            params: copied(v.optional_part("params", 3)),
            result: copied(v.optional_part("result", 4)),
            error,
        };
        assert(message@ =~= message_of(v@)->0);
        Some(message)
    }
}

/// Serving a plugin failed.
#[derive(Debug, PartialEq, Eq)]
pub enum ServeError {
    /// Standard input or output failed.
    Io(String),
    /// A message could not be encoded.
    Serialization(String),
}

impl ServeError {
    /// Describes the error to a person.
    pub fn message(&self) -> (r: String)
        ensures
            match *self {
                ServeError::Io(source) => r@ == "plugin stdio failed: "@ + source@,
                ServeError::Serialization(source) => r@ == "failed to serialize plugin JSON-RPC output: "@
                    + source@,
            },
    {
        match self {
            ServeError::Io(source) => text::cat2("plugin stdio failed: ", source.as_str()),
            ServeError::Serialization(source) => text::cat2(
                "failed to serialize plugin JSON-RPC output: ",
                source.as_str(),
            ),
        }
    }
}

/// A request to a plugin failed.
#[derive(Debug, PartialEq, Eq)]
pub enum ClientError {
    /// The plugin could not be started.
    Spawn {
        /// The executable.
        program: String,
        /// Underlying process error.
        source: String,
    },
    /// The connection failed.
    Io(String),
    /// A payload could not be encoded or decoded.
    Serialization(String),
    /// The plugin broke the protocol.
    Protocol(String),
    /// The plugin answered with a structured error.
    Remote(PluginError),
    /// The plugin answered with a JSON-RPC error.
    RemoteRpc {
        /// The JSON-RPC error code.
        code: i64,
        /// The text of the error.
        message: String,
        /// What else the plugin sent.
        data: Option<Data>,
    },
    /// No protocol version suits both sides.
    ProtocolMismatch {
        /// The version that the core prefers.
        requested: ProtocolVersion,
        /// The version that the plugin chose.
        selected: ProtocolVersion,
    },
    /// No answer came in time.
    Timeout {
        /// The method.
        method: String,
        /// The request.
        id: RequestId,
        /// Time that was given, in milliseconds.
        timeout_ms: u64,
    },
    /// The request was cancelled.
    Cancelled,
    /// The connection is closed.
    Closed,
}

/// A retry may mend the error.
pub open spec fn retry_may_help(error: ClientError) -> bool {
    match error {
        ClientError::Remote(inner) => inner.retryable,
        ClientError::Timeout { .. } => true,
        ClientError::Io(_) => true,
        _ => false,
    }
}

/// The fractional digits of milliseconds, without trailing zeros.
pub open spec fn fraction_text(ms: nat) -> Seq<char> {
    if ms == 0 {
        Seq::empty()
    } else if ms % 100 == 0 {
        "."@ + text::decimal(ms / 100)
    } else if ms % 10 == 0 {
        "."@ + text::decimal(ms / 100) + text::decimal(ms / 10 % 10)
    } else {
        "."@ + text::decimal(ms / 100) + text::decimal(ms / 10 % 10) + text::decimal(ms % 10)
    }
}

/// The short notation of a time: seconds with up to three fractional digits, or
/// milliseconds below one second.
pub open spec fn duration_text(ms: nat) -> Seq<char> {
    if ms == 0 {
        "0ns"@
    } else if ms < 1000 {
        text::decimal(ms) + "ms"@
    } else {
        text::decimal(ms / 1000) + fraction_text(ms % 1000) + "s"@
    }
}

/// Writes a time given in milliseconds.
pub fn duration(ms: u64) -> (r: String)
    ensures
        r@ == duration_text(ms as nat),
{
    if ms == 0 {
        return "0ns".to_owned();
    }
    if ms < 1000 {
        return text::cat2(text::number(ms as u128).as_str(), "ms");
    }
    let rest: u64 = ms % 1000;
    let hundreds = text::number((rest / 100) as u128);
    let tens = text::number((rest / 10 % 10) as u128);
    let ones = text::number((rest % 10) as u128);
    let fraction = if rest == 0 {
        String::new()
    } else if rest % 100 == 0 {
        text::cat2(".", hundreds.as_str())
    } else if rest % 10 == 0 {
        text::cat3(".", hundreds.as_str(), tens.as_str())
    } else {
        text::cat4(".", hundreds.as_str(), tens.as_str(), ones.as_str())
    };
    text::cat3(text::number((ms / 1000) as u128).as_str(), fraction.as_str(), "s")
}

impl ClientError {
    /// Whether a retry may mend the error.
    pub fn is_retryable(&self) -> (r: bool)
        ensures
            r == retry_may_help(*self),
    {
        match self {
            ClientError::Remote(error) => error.retryable,
            ClientError::Timeout { .. } | ClientError::Io(_) => true,
            _ => false,
        }
    }

    /// The text of the error.
    pub open spec fn text(self) -> Seq<char> {
        match self {
            ClientError::Spawn { program, source } => "failed to spawn plugin `"@ + program@ + "`: "@
                + source@,
            ClientError::Io(source) => "plugin transport failed: "@ + source@,
            ClientError::Serialization(source) => "invalid JSON-RPC payload: "@ + source@,
            ClientError::Protocol(detail) => "plugin stdout protocol corruption: "@ + detail@,
            ClientError::Remote(error) => "plugin request failed: "@ + error.message@,
            ClientError::RemoteRpc { code, message, .. } => "plugin returned JSON-RPC error "@
                + text::signed_decimal(code as int) + ": "@ + message@,
            ClientError::ProtocolMismatch { requested, selected } =>
                "plugin protocol mismatch: core requested "@ + version::version_text(requested)
                + ", plugin selected "@ + version::version_text(selected),
            ClientError::Timeout { method, id, timeout_ms } => "plugin method `"@ + method@
                + "` (request "@ + id.text() + ") timed out after "@ + duration_text(timeout_ms as nat),
            ClientError::Cancelled => "plugin request was cancelled"@,
            ClientError::Closed => "plugin connection is closed"@,
        }
    }

    /// Describes the error to a person.
    pub fn message(&self) -> (r: String)
        ensures
            r@ == self.text(),
    {
        match self {
            ClientError::Spawn { program, source } => text::cat4(
                "failed to spawn plugin `",
                program.as_str(),
                "`: ",
                source.as_str(),
            ),
            ClientError::Io(source) => text::cat2("plugin transport failed: ", source.as_str()),
            ClientError::Serialization(source) => text::cat2("invalid JSON-RPC payload: ", source.as_str()),
            ClientError::Protocol(detail) => text::cat2(
                "plugin stdout protocol corruption: ",
                detail.as_str(),
            ),
            ClientError::Remote(error) => text::cat2("plugin request failed: ", error.message.as_str()),
            ClientError::RemoteRpc { code, message, .. } => text::cat4(
                "plugin returned JSON-RPC error ",
                text::signed_number(*code as i128).as_str(),
                ": ",
                message.as_str(),
            ),
            ClientError::ProtocolMismatch { requested, selected } => text::cat4(
                "plugin protocol mismatch: core requested ",
                requested.to_text().as_str(),
                ", plugin selected ",
                selected.to_text().as_str(),
            ),
            ClientError::Timeout { method, id, timeout_ms } => {
                let head = text::cat4("plugin method `", method.as_str(), "` (request ", id.to_text().as_str());
                text::cat3(head.as_str(), ") timed out after ", duration(*timeout_ms).as_str())
            },
            ClientError::Cancelled => "plugin request was cancelled".to_owned(),
            ClientError::Closed => "plugin connection is closed".to_owned(),
        }
    }
}

/// Trying again may help where time ran out, where the transport failed, and where the plugin
/// says so; nowhere else.
pub proof fn retries_help_where_the_plugin_says_so(error: ClientError)
    ensures
        error is Timeout || error is Io ==> retry_may_help(error),
        error matches ClientError::Remote(inner) ==> (retry_may_help(error) <==> inner.retryable),
        !(error is Timeout || error is Io || error is Remote) ==> !retry_may_help(error),
{
}

} // verus!
