//! The core's side of a plugin connection.
//!
//! Lines are read and written elsewhere. [`ClientState`] decides what each of them means:
//! which request it answers, what is passed on as an event, and when the connection is
//! beyond use.

use vstd::prelude::*;

use crate::protocol;
use crate::protocol::{
    ApplyRequest, DestroyRequest, InitializeRequest, InitializeResult, InspectRequest, OperationContext,
    PlanRequest, PluginEvent, ValidateRequest,
};
use crate::rpc;
use crate::rpc::{ClientError, IncomingMessage, JsonRpcError, PluginError, PluginErrorV, RequestId};
use crate::text;
use crate::value;
use crate::value::{Data, DataV};
use crate::version;
use crate::version::ProtocolVersion;
use crate::wire;

verus! {

/// Fallback deadline, in seconds, for short requests without operation-specific work units.
pub const DEFAULT_REQUEST_TIMEOUT_SECONDS: u64 = 7500;

/// Hard upper bound, in seconds, for one typed provider operation request.
pub const MAX_OPERATION_REQUEST_TIMEOUT_SECONDS: u64 = 86400;

/// Longest accepted command or readiness phase, in seconds.
pub const MAX_CONFIGURED_PHASE_SECONDS: u64 = 3600;

/// Command phase where none is configured, in seconds.
pub const DEFAULT_COMMAND_PHASE_SECONDS: u64 = 600;

/// Readiness phase where none is configured, in seconds.
pub const DEFAULT_READINESS_PHASE_SECONDS: u64 = 300;

/// Time added once to every operation, in seconds.
pub const PROVIDER_COORDINATION_MARGIN_SECONDS: u64 = 300;

// ---------------------------------------------------------------------------
// Deadlines
// ---------------------------------------------------------------------------

/// The seconds of a phase: what is configured, kept between one and the longest accepted
/// phase, or the fallback.
pub open spec fn phase_seconds(config: DataV, key: Seq<char>, fallback: u64) -> u64 {
    match value::count_of(value::field(config, key)) {
        Some(n) => if n < 1 {
            1
        } else if n > MAX_CONFIGURED_PHASE_SECONDS {
            MAX_CONFIGURED_PHASE_SECONDS
        } else {
            n
        },
        None => fallback,
    }
}

/// The seconds that a number of work units may take: one command and one readiness phase
/// each, at least one of each, and the margin; never more than a day.
pub open spec fn timeout_seconds(config: DataV, work_units: nat) -> nat {
    let unit = phase_seconds(config, "command_timeout_seconds"@, DEFAULT_COMMAND_PHASE_SECONDS) as nat
        + phase_seconds(config, "readiness_timeout_seconds"@, DEFAULT_READINESS_PHASE_SECONDS) as nat;
    let total = unit * value::at_least(work_units, 1) + PROVIDER_COORDINATION_MARGIN_SECONDS as nat;
    if total < MAX_OPERATION_REQUEST_TIMEOUT_SECONDS {
        total
    } else {
        MAX_OPERATION_REQUEST_TIMEOUT_SECONDS as nat
    }
}

/// The configured seconds of a phase.
fn configured_phase_seconds(config: &Data, key: &str, fallback: u64) -> (r: u64)
    ensures
        r == phase_seconds(config@, key@, fallback),
{
    let found: Option<u64> = match config.get(key) {
        Some(v) => v.as_u64(),
        None => None,
    };
    match found {
        Some(n) => if n < 1 {
            1
        } else if n > MAX_CONFIGURED_PHASE_SECONDS {
            MAX_CONFIGURED_PHASE_SECONDS
        } else {
            n
        },
        None => fallback,
    }
}

/// Derive a bounded deadline, in seconds, for a typed provider operation.
///
/// One work unit receives the configured command phase plus readiness phase.
/// Values are capped at the protocol's accepted 60-minute phase ceiling, a
/// fixed coordination margin is added once, and the complete request is
/// capped at 24 hours. Callers should use exact locked-plan action counts for
/// mutations and exact selection/resource counts for scalable reads.
pub fn operation_request_timeout(context: &OperationContext, work_units: usize) -> (r: u64)
    ensures
        r == timeout_seconds(context.config@, work_units as nat),
{
    let command: u64 = configured_phase_seconds(
        &context.config,
        "command_timeout_seconds",
        DEFAULT_COMMAND_PHASE_SECONDS,
    );
    let readiness: u64 = configured_phase_seconds(
        &context.config,
        "readiness_timeout_seconds",
        DEFAULT_READINESS_PHASE_SECONDS,
    );
    let units: usize = if work_units < 1 { 1 } else { work_units };
    let unit: u64 = command + readiness;
    if units as u64 >= MAX_OPERATION_REQUEST_TIMEOUT_SECONDS {
        assert(unit * units >= MAX_OPERATION_REQUEST_TIMEOUT_SECONDS) by (nonlinear_arith)
            requires
                unit >= 1,
                units >= MAX_OPERATION_REQUEST_TIMEOUT_SECONDS,
        ;
        return MAX_OPERATION_REQUEST_TIMEOUT_SECONDS;
    }
    assert(unit * units <= 7200 * 86400) by (nonlinear_arith)
        requires
            unit <= 7200,
            units < 86400,
    ;
    let total: u64 = unit * units as u64 + PROVIDER_COORDINATION_MARGIN_SECONDS;
    if total < MAX_OPERATION_REQUEST_TIMEOUT_SECONDS {
        total
    } else {
        MAX_OPERATION_REQUEST_TIMEOUT_SECONDS
    }
}

/// A longer configured phase or more work never shortens a deadline, and no deadline is
/// longer than a day or shorter than the margin and two seconds.
pub proof fn deadline_is_monotonic_and_bounded(config: DataV, fewer: nat, more: nat)
    requires
        fewer <= more,
    ensures
        timeout_seconds(config, fewer) <= timeout_seconds(config, more),
        302 <= timeout_seconds(config, fewer) <= MAX_OPERATION_REQUEST_TIMEOUT_SECONDS,
{
    let unit = phase_seconds(config, "command_timeout_seconds"@, DEFAULT_COMMAND_PHASE_SECONDS) as nat
        + phase_seconds(config, "readiness_timeout_seconds"@, DEFAULT_READINESS_PHASE_SECONDS) as nat;
    let a = value::at_least(fewer, 1);
    let b = value::at_least(more, 1);
    assert(unit * a <= unit * b && unit * a >= 2) by (nonlinear_arith)
        requires
            unit >= 2,
            1 <= a <= b,
    ;
}

/// The number of environments that a request names, where it names any.
pub open spec fn selected_count(metadata: DataV) -> Option<nat> {
    match value::items_of(value::field_of(value::field(metadata, "selection"@), "environment_ids"@)) {
        Some(items) => Some(items.len()),
        None => None,
    }
}

/// The number of environments that a request names.
pub fn selection_len(context: &OperationContext) -> (r: Option<usize>)
    ensures
        match (r, selected_count(context.metadata@)) {
            (Some(n), Some(m)) => n == m,
            (None, None) => true,
            _ => false,
        },
{
    match context.metadata.get("selection") {
        Some(selection) => match selection.get("environment_ids") {
            Some(ids) => match ids.as_array() {
                Some(items) => Some(items.len()),
                None => None,
            },
            None => None,
        },
        None => None,
    }
}

/// The work of the environments that a request names: at least one.
pub open spec fn selection_units(metadata: DataV) -> nat {
    match selected_count(metadata) {
        Some(n) => value::at_least(n, 1),
        None => 1,
    }
}

/// Counts the work of the environments that a request names.
fn selection_work_units(context: &OperationContext) -> (r: usize)
    ensures
        r == selection_units(context.metadata@),
{
    match selection_len(context) {
        Some(n) => if n < 1 {
            1
        } else {
            n
        },
        None => 1,
    }
}

/// The work of a value that may be absent.
pub open spec fn optional_work(v: Option<Data>) -> nat {
    match v {
        Some(inner) => value::work_units(inner@),
        None => 1,
    }
}

/// Counts the work of a value that may be absent.
fn optional_work_units(v: &Option<Data>) -> (r: usize)
    ensures
        r == optional_work(*v),
{
    match v {
        Some(inner) => value::json_work_units(inner),
        None => 1,
    }
}

/// One more, as far as the machine can count.
pub open spec fn one_more(n: nat) -> nat {
    if n < usize::MAX {
        n + 1
    } else {
        usize::MAX as nat
    }
}

/// The deadline of a validation, in seconds.
pub fn validate_timeout(request: &ValidateRequest) -> (r: u64)
    ensures
        r == timeout_seconds(request.context.config@, value::work_units(request.desired@)),
{
    operation_request_timeout(&request.context, value::json_work_units(&request.desired))
}

/// The deadline of planning, in seconds.
pub fn plan_timeout(request: &PlanRequest) -> (r: u64)
    ensures
        r == timeout_seconds(
            request.context.config@,
            value::at_least(value::work_units(request.desired@), optional_work(request.current)),
        ),
{
    let desired: usize = value::json_work_units(&request.desired);
    let current: usize = optional_work_units(&request.current);
    operation_request_timeout(&request.context, if desired < current { current } else { desired })
}

/// The deadline of applying a plan, in seconds.
pub fn apply_timeout(request: &ApplyRequest) -> (r: u64)
    ensures
        r == timeout_seconds(request.context.config@, one_more(request.plan.actions@.len())),
{
    operation_request_timeout(&request.context, request.plan.actions.len().saturating_add(1))
}

/// The deadline of an inspection, in seconds.
///
/// Provider discovery cardinality is unknown until inspection returns: even a
/// current-environment query may scan an account or cluster.
pub fn inspect_timeout(request: &InspectRequest) -> (r: u64)
    ensures
        r == timeout_seconds(request.context.config@, usize::MAX as nat),
{
    operation_request_timeout(&request.context, usize::MAX)
}

/// The deadline of a destruction, in seconds.
pub fn destroy_timeout(request: &DestroyRequest) -> (r: u64)
    ensures
        r == timeout_seconds(
            request.context.config@,
            one_more(
                value::at_least(
                    value::at_least(
                        selection_units(request.context.metadata@),
                        optional_work(request.current),
                    ),
                    request.journal@.len(),
                ),
            ),
        ),
{
    let selection: usize = selection_work_units(&request.context);
    let current: usize = optional_work_units(&request.current);
    let both: usize = if selection < current { current } else { selection };
    let units: usize = if both < request.journal.len() { request.journal.len() } else { both };
    operation_request_timeout(&request.context, units.saturating_add(1))
}

/// Core-side process behavior.
#[derive(Clone, Copy, Debug, PartialEq, Eq, Structural)]
pub struct ClientOptions {
    /// Default deadline for a request, in milliseconds.
    pub request_timeout_ms: u64,
    /// Time allowed for process exit after `plugin.shutdown`, in milliseconds.
    pub shutdown_timeout_ms: u64,
    /// Capacity of the lossy broadcast event channel.
    pub event_buffer: usize,
}

impl Default for ClientOptions {
    fn default() -> (r: ClientOptions)
        ensures
            r.request_timeout_ms == DEFAULT_REQUEST_TIMEOUT_SECONDS * 1000,
            r.shutdown_timeout_ms == 5000,
            r.event_buffer == 256,
    {
        ClientOptions {
            request_timeout_ms: DEFAULT_REQUEST_TIMEOUT_SECONDS * 1000,
            shutdown_timeout_ms: 5000,
            event_buffer: 256,
        }
    }
}

/// What a client passes on besides answers.
#[derive(Clone, PartialEq, Eq)]
pub enum ClientEvent {
    /// A typed plugin event.
    Plugin(PluginEvent),
    /// A non-protocol stderr line.
    ///
    /// Plugins must redact secrets before writing stderr.
    Stderr(String),
    /// A valid extension notification not known to this protocol release.
    Notification {
        /// Namespaced JSON-RPC method.
        method: String,
        /// Untyped notification parameters.
        params: Data,
    },
}

// ---------------------------------------------------------------------------
// Negotiation and remote errors
// ---------------------------------------------------------------------------

/// Both sides agree: the plugin chose a version that was offered, implements it and
/// accepts it.
pub open spec fn negotiated(request: InitializeRequest, result: InitializeResult) -> bool {
    let v = result.protocol_version;
    &&& v == request.protocol_version || request.supported_protocol_versions@.contains(v)
    &&& result.manifest.protocol.version == v
    &&& version::in_range(result.manifest.protocol.requires, v)
}

/// Whether a version is among others.
pub fn offers(versions: &Vec<ProtocolVersion>, wanted: ProtocolVersion) -> (r: bool)
    ensures
        r == versions@.contains(wanted),
{
    let mut i: usize = 0;
    while i < versions.len()
        invariant
            i <= versions@.len(),
            forall|k: int| 0 <= k < i ==> versions@[k] != wanted,
        decreases versions.len() - i,
    {
        if versions[i] == wanted {
            return true;
        }
        i += 1;
    }
    false
}

/// Accepts the answer to the opening request only where both sides agree on a version.
pub fn accept_initialize(request: &InitializeRequest, result: InitializeResult) -> (r: Result<
    InitializeResult,
    ClientError,
>)
    ensures
        if negotiated(*request, result) {
            r == Ok::<InitializeResult, ClientError>(result)
        } else {
            r == Err::<InitializeResult, ClientError>(
                ClientError::ProtocolMismatch {
                    requested: request.protocol_version,
                    selected: result.protocol_version,
                },
            )
        },
{
    let selected = result.protocol_version;
    let offered = selected == request.protocol_version || offers(
        &request.supported_protocol_versions,
        selected,
    );
    if offered && result.manifest.protocol.version == selected && result.manifest.protocol.requires.contains(
        selected,
    ) {
        Ok(result)
    } else {
        Err(ClientError::ProtocolMismatch { requested: request.protocol_version, selected })
    }
}

/// The version under a name of error details.
pub open spec fn version_field(details: DataV, name: Seq<char>) -> Option<ProtocolVersion> {
    match value::text_of(value::field(details, name)) {
        Some(s) => version::version_of(s),
        None => None,
    }
}

/// The version under a name of error details.
fn version_under(details: &Data, name: &str) -> (r: Option<ProtocolVersion>)
    ensures
        r == version_field(details@, name@),
{
    match details.get_str(name) {
        Some(s) => match ProtocolVersion::parse(s) {
            Ok(v) => Some(v),
            Err(_) => None,
        },
        None => None,
    }
}

/// What the core makes of a JSON-RPC error: the plugin error that its data is, or the error as
/// it came.
pub open spec fn remote_error_is(error: JsonRpcError, r: ClientError) -> bool {
    let decoded = match error.data {
        Some(data) => rpc::plugin_error_of(data@),
        None => None,
    };
    match decoded {
        None => r == (ClientError::RemoteRpc { code: error.code, message: error.message, data: error.data }),
        Some(plugin_error) => {
            let requested = version_field(plugin_error.details, "requested"@);
            let selected = version_field(plugin_error.details, "plugin"@);
            if plugin_error.code == "protocol_mismatch"@ && requested is Some && selected is Some {
                r == (ClientError::ProtocolMismatch { requested: requested->0, selected: selected->0 })
            } else {
                r matches ClientError::Remote(found) && found@ == plugin_error
            }
        },
    }
}

/// What the core makes of a JSON-RPC error.
pub fn map_remote_error(error: JsonRpcError) -> (r: ClientError)
    ensures
        remote_error_is(error, r),
{
    let decoded = match &error.data {
        Some(data) => PluginError::from_value(data),
        None => None,
    };
    match decoded {
        None => ClientError::RemoteRpc { code: error.code, message: error.message, data: error.data },
        Some(plugin_error) => {
            if text::same(plugin_error.code.as_str(), "protocol_mismatch") {
                match (
                    version_under(&plugin_error.details, "requested"),
                    version_under(&plugin_error.details, "plugin"),
                ) {
                    (Some(requested), Some(selected)) => {
                        return ClientError::ProtocolMismatch { requested, selected };
                    },
                    _ => {},
                }
            }
            ClientError::Remote(plugin_error)
        },
    }
}

/// The error of a plugin arrives as that error, unless it is the refusal of a protocol version.
/// An error without data arrives as it was sent.
pub proof fn plugin_errors_arrive(error: PluginErrorV, sent: JsonRpcError, r: ClientError)
    requires
        remote_error_is(sent, r),
    ensures
        error.code != "protocol_mismatch"@ && rpc::data_of(sent.data) == Some(rpc::plugin_error_value(error))
            ==> (r matches ClientError::Remote(found) && found@ == error),
        sent.data is None ==> r == (ClientError::RemoteRpc {
            code: sent.code,
            message: sent.message,
            data: sent.data,
        }),
{
    rpc::plugin_errors_are_read_back(error);
}

// ---------------------------------------------------------------------------
// Lines
// ---------------------------------------------------------------------------

/// A line without one line feed and then one carriage return at its end.
pub open spec fn line_content(line: Seq<u8>) -> Seq<u8> {
    let a = if line.len() > 0 && line.last() == 10 {
        line.drop_last()
    } else {
        line
    };
    if a.len() > 0 && a.last() == 13 {
        a.drop_last()
    } else {
        a
    }
}

/// Takes the line end off a line.
pub fn trim_newline(buffer: &mut Vec<u8>)
    ensures
        final(buffer)@ == line_content(old(buffer)@),
{
    if buffer.len() > 0 && buffer[buffer.len() - 1] == 10 {
        let last = buffer.pop();
        assert(buffer@ =~= old(buffer)@.drop_last());
    }
    let ghost a = buffer@;
    if buffer.len() > 0 && buffer[buffer.len() - 1] == 13 {
        let last = buffer.pop();
        assert(buffer@ =~= a.drop_last());
    }
}

/// Puts the line end behind an encoded message, where the message is not too long.
pub fn frame_message(encoded: Vec<u8>) -> (r: Result<Vec<u8>, ClientError>)
    ensures
        if encoded@.len() > protocol::MAX_MESSAGE_BYTES {
            r matches Err(ClientError::Protocol(detail)) && detail@
                == "outgoing message exceeds 16777216 bytes"@
        } else {
            r matches Ok(line) && line@ == encoded@.push(10)
        },
{
    if encoded.len() > protocol::MAX_MESSAGE_BYTES {
        return Err(ClientError::Protocol("outgoing message exceeds 16777216 bytes".to_owned()));
    }
    let mut line = encoded;
    line.push(10);
    Ok(line)
}

/// The line of a message, unless the message is too long.
pub open spec fn framed(notation: Seq<char>) -> Option<Seq<u8>> {
    let encoded = vstd::utf8::encode_utf8(notation);
    if encoded.len() > protocol::MAX_MESSAGE_BYTES {
        None
    } else {
        Some(encoded.push(10))
    }
}

/// The line of a message, or the failure to write one that is too long.
pub open spec fn is_sent(r: Result<Vec<u8>, ClientError>, notation: Seq<char>) -> bool {
    match (r, framed(notation)) {
        (Ok(line), Some(model)) => line@ == model,
        (Err(ClientError::Protocol(detail)), None) => detail@ == "outgoing message exceeds 16777216 bytes"@,
        _ => false,
    }
}

/// Puts a message on a line.
pub fn message_line(notation: &str) -> (r: Result<Vec<u8>, ClientError>)
    ensures
        is_sent(r, notation@),
{
    frame_message(vstd::slice::slice_to_vec(notation.as_bytes()))
}

/// The line of a request. The parameters are given in JSON notation.
pub fn request_line(id: u64, method: &str, params: &str) -> (r: Result<Vec<u8>, ClientError>)
    ensures
        is_sent(r, wire::request_notation(id, method@, params@)),
{
    message_line(wire::write_request(id, method, params).as_str())
}

/// The line of a notification to the plugin. The parameters are given in JSON notation.
pub fn notification_line(method: &str, params: &str) -> (r: Result<Vec<u8>, ClientError>)
    ensures
        is_sent(r, wire::notification_notation(method@, params@)),
{
    message_line(wire::write_notification(method, params).as_str())
}

/// The line that cancels a request.
pub fn cancellation_line(id: u64) -> (r: Result<Vec<u8>, ClientError>)
    ensures
        is_sent(r, wire::cancellation_notation(id)),
{
    message_line(wire::write_cancellation(id).as_str())
}

/// A text that ends with a brace ends with that byte.
proof fn lemma_ends_with_brace(s: Seq<char>)
    requires
        s.len() > 0,
        s.last() == '}',
    ensures
        vstd::utf8::encode_utf8(s).len() > 0,
        vstd::utf8::encode_utf8(s).last() == 125,
    decreases s.len(),
{
    let rest = s.drop_first();
    if s.len() == 1 {
        assert(rest =~= Seq::<char>::empty());
        assert(vstd::utf8::leading_byte_width_1(125u32) == 125u8) by {
            assert((125u32 & 0x7F) as u8 == 125u8) by (bit_vector);
        }
        assert(vstd::utf8::encode_utf8(s) =~= seq![125u8]);
    } else {
        assert(rest.last() == s.last());
        lemma_ends_with_brace(rest);
        let head = vstd::utf8::encode_scalar(s[0] as u32);
        assert((head + vstd::utf8::encode_utf8(rest)).last() == vstd::utf8::encode_utf8(rest).last());
    }
}

/// The line of named values holds their notation, and nothing is lost at its end.
pub proof fn lines_hold_messages(message: DataV)
    requires
        message is Object,
        framed(value::compact(message)) is Some,
    ensures
        line_content(framed(value::compact(message))->0) == vstd::utf8::encode_utf8(value::compact(message)),
{
    lemma_ends_with_brace(value::compact(message));
    framed_message_is_read_back(vstd::utf8::encode_utf8(value::compact(message)));
}

/// What is sent is what is read back from the line.
pub proof fn framed_message_is_read_back(encoded: Seq<u8>)
    requires
        encoded.len() == 0 || encoded.last() != 13,
    ensures
        line_content(encoded.push(10)) == encoded,
{
    assert(encoded.push(10).drop_last() =~= encoded);
}

/// Why a connection is beyond use.
#[derive(Clone, Debug, PartialEq, Eq)]
pub enum TerminalFailure {
    /// The plugin broke the protocol.
    Protocol(String),
    /// The connection is closed.
    Closed,
}

/// The error of a request on a connection that is beyond use.
pub open spec fn terminal_error(failure: TerminalFailure) -> ClientError {
    match failure {
        TerminalFailure::Protocol(detail) => ClientError::Protocol(detail),
        TerminalFailure::Closed => ClientError::Closed,
    }
}

impl TerminalFailure {
    /// The error of a request on a connection that is beyond use.
    pub fn into_error(self) -> (r: ClientError)
        ensures
            r == terminal_error(self),
    {
        match self {
            TerminalFailure::Protocol(detail) => ClientError::Protocol(detail),
            TerminalFailure::Closed => ClientError::Closed,
        }
    }

    /// A copy of the failure.
    pub fn duplicate(&self) -> (r: TerminalFailure)
        ensures
            r == *self,
    {
        match self {
            TerminalFailure::Protocol(detail) => TerminalFailure::Protocol(detail.clone()),
            TerminalFailure::Closed => TerminalFailure::Closed,
        }
    }

    /// Describes the failure to a person.
    pub fn message(&self) -> (r: String)
        ensures
            match *self {
                TerminalFailure::Protocol(detail) => r@ == detail@,
                TerminalFailure::Closed => r@ == "connection closed"@,
            },
    {
        match self {
            TerminalFailure::Protocol(detail) => detail.clone(),
            TerminalFailure::Closed => "connection closed".to_owned(),
        }
    }
}

/// The failure says `detail`.
pub open spec fn fails_with<T>(r: Result<T, TerminalFailure>, detail: Seq<char>) -> bool {
    r matches Err(TerminalFailure::Protocol(s)) && s@ == detail
}

/// Reports a broken protocol.
fn broken<T>(detail: &str) -> (r: Result<T, TerminalFailure>)
    ensures
        fails_with(r, detail@),
{
    Err(TerminalFailure::Protocol(detail.to_owned()))
}

/// What reading from the plugin gave.
#[derive(Debug, PartialEq, Eq)]
pub enum ReadOutcome {
    /// The plugin closed its output.
    End,
    /// A line, with its line end.
    Line(Vec<u8>),
    /// Reading failed.
    Failed(String),
}

/// Takes the content of what was read, or says why the connection is over.
pub fn accept_read(outcome: ReadOutcome) -> (r: Result<Vec<u8>, TerminalFailure>)
    ensures
        match outcome {
            ReadOutcome::End => r == Err::<Vec<u8>, TerminalFailure>(TerminalFailure::Closed),
            ReadOutcome::Failed(error) => fails_with(r, "failed to read stdout: "@ + error@),
            ReadOutcome::Line(line) => if line@.len() > protocol::MAX_MESSAGE_BYTES + 1 {
                fails_with(r, "message exceeds 16777216 bytes"@)
            } else {
                r matches Ok(content) && content@ == line_content(line@)
            },
        },
{
    match outcome {
        ReadOutcome::End => Err(TerminalFailure::Closed),
        ReadOutcome::Failed(error) => {
            let detail = text::cat2("failed to read stdout: ", error.as_str());
            broken(detail.as_str())
        },
        ReadOutcome::Line(line) => {
            if line.len() > protocol::MAX_MESSAGE_BYTES + 1 {
                return broken("message exceeds 16777216 bytes");
            }
            let mut content = line;
            trim_newline(&mut content);
            Ok(content)
        },
    }
}

/// Takes a parsed line only where it is an object.
pub fn accept_object(parsed: Result<Data, String>) -> (r: Result<Data, TerminalFailure>)
    ensures
        match parsed {
            Err(error) => fails_with(r, "malformed JSON-RPC output: "@ + error@),
            Ok(raw) => if raw@ is Object {
                r == Ok::<Data, TerminalFailure>(raw)
            } else {
                fails_with(r, "JSON-RPC message must be an object"@)
            },
        },
{
    match parsed {
        Err(error) => {
            let detail = text::cat2("malformed JSON-RPC output: ", error.as_str());
            broken(detail.as_str())
        },
        Ok(raw) => {
            if raw.as_object().is_none() {
                return broken("JSON-RPC message must be an object");
            }
            Ok(raw)
        },
    }
}

/// Reads the object that a line of the plugin holds.
pub fn read_object(line: &[u8]) -> (r: Result<Data, TerminalFailure>)
    ensures
        if line@.len() == 0 {
            fails_with(r, "empty line on protocol stdout"@)
        } else {
            match crate::outside::json_parsed(line@) {
                Err(error) => fails_with(r, "malformed JSON-RPC output: "@ + error),
                Ok(model) => if model is Object {
                    r matches Ok(raw) && raw@ == model
                } else {
                    fails_with(r, "JSON-RPC message must be an object"@)
                },
            }
        },
        forall|v: DataV|
            crate::outside::is_exact_json(v, 100) && v is Object && line@ == vstd::utf8::encode_utf8(
                #[trigger] value::compact(v),
            ) ==> (r matches Ok(raw) && raw@ == value::canonical(v)),
{
    proof {
        assert forall|v: DataV| v is Object implies vstd::utf8::encode_utf8(#[trigger] value::compact(v)).len()
            > 0 by {
            lemma_ends_with_brace(value::compact(v));
        }
    }
    if line.len() == 0 {
        return broken("empty line on protocol stdout");
    }
    accept_object(value::parse_json(line))
}

// ---------------------------------------------------------------------------
// Requests
// ---------------------------------------------------------------------------

/// What answers a request.
#[derive(Debug, PartialEq, Eq)]
pub enum Response {
    /// The plugin answered with a result.
    Success(Data),
    /// The plugin answered with an error.
    Remote(JsonRpcError),
}

/// What a message of the plugin is.
#[derive(Debug, PartialEq, Eq)]
pub enum Incoming {
    /// An event, in its untyped form.
    Event(Data),
    /// An extension notification.
    Notification { method: String, params: Data },
    /// The answer to a request that is waited for.
    Answer { id: u64, response: Response },
    /// The late answer to a request that was given up.
    Late,
}

/// Which requests of a connection are open.
#[derive(Debug, PartialEq, Eq)]
pub struct ClientState {
    /// The number of the next request.
    pub next_id: u64,
    /// Requests that are waited for.
    pub pending: Vec<u64>,
    /// Requests that were given up and may still be answered.
    pub retired: Vec<u64>,
    /// Why the connection is beyond use, where it is.
    pub terminal: Option<TerminalFailure>,
}

/// No number occurs twice.
pub open spec fn distinct(s: Seq<u64>) -> bool {
    forall|i: int, j: int| 0 <= i < j < s.len() ==> #[trigger] s[i] != #[trigger] s[j]
}

/// The numbers of a list.
pub open spec fn members(s: Seq<u64>) -> Set<u64> {
    Set::new(|x: u64| s.contains(x))
}

/// Takes a number out of a list.
fn take_out(list: &mut Vec<u64>, x: u64) -> (r: bool)
    requires
        distinct(old(list)@),
    ensures
        r == old(list)@.contains(x),
        distinct(final(list)@),
        members(final(list)@) == members(old(list)@).remove(x),
{
    let ghost before = list@;
    let mut i: usize = 0;
    while i < list.len()
        invariant
            list@ == before,
            i <= before.len(),
            forall|k: int| 0 <= k < i ==> before[k] != x,
            distinct(before),
            before == old(list)@,
        decreases list.len() - i,
    {
        if list[i] == x {
            let removed = list.remove(i);
            proof {
                let after = list@;
                assert forall|a: int, b: int| 0 <= a < b < after.len() implies #[trigger] after[a]
                    != #[trigger] after[b] by {
                    let p = if a < i { a } else { a + 1 };
                    let q = if b < i { b } else { b + 1 };
                    assert(after[a] == before[p] && after[b] == before[q]);
                }
                assert forall|y: u64| after.contains(y) <==> before.contains(y) && y != x by {
                    if after.contains(y) {
                        let a = choose|a: int| 0 <= a < after.len() && after[a] == y;
                        let p = if a < i { a } else { a + 1 };
                        assert(before[p] == y);
                        if p < i {
                        } else {
                            assert(before[i as int] != before[p]);
                        }
                    }
                    if before.contains(y) && y != x {
                        let p = choose|p: int| 0 <= p < before.len() && before[p] == y;
                        assert(after[if p < i { p } else { p - 1 }] == y);
                    }
                }
                assert(members(after) =~= members(before).remove(x));
            }
            return true;
        }
        i += 1;
    }
    assert(members(before) =~= members(before).remove(x));
    false
}

/// Puts a new number into a list.
fn put_in(list: &mut Vec<u64>, x: u64)
    requires
        distinct(old(list)@),
        !old(list)@.contains(x),
    ensures
        distinct(final(list)@),
        members(final(list)@) == members(old(list)@).insert(x),
{
    let ghost before = list@;
    list.push(x);
    proof {
        let after = list@;
        assert forall|y: u64| after.contains(y) <==> before.contains(y) || y == x by {
            if before.contains(y) {
                let p = choose|p: int| 0 <= p < before.len() && before[p] == y;
                assert(after[p] == y);
            }
            assert(after[before.len() as int] == x);
            if after.contains(y) {
                let p = choose|p: int| 0 <= p < after.len() && after[p] == y;
                if p < before.len() {
                    assert(before[p] == y);
                }
            }
        }
        assert(members(after) =~= members(before).insert(x));
    }
}

/// How a message is taken: the failure it is, or what it is and what becomes of the
/// open requests.
pub open spec fn incoming_is(
    state: ClientState,
    raw: DataV,
    decoded: Result<IncomingMessage, String>,
    r: Result<Incoming, TerminalFailure>,
    after: ClientState,
) -> bool {
    let has_result = value::field(raw, "result"@) is Some;
    let has_error = value::field(raw, "error"@) is Some;
    match decoded {
        Err(error) => fails_with(r, "invalid JSON-RPC object: "@ + error@) && after == state,
        Ok(message) => {
            let params = match message.params {
                Some(params) => params,
                None => Data::Null,
            };
            if message.jsonrpc@ != "2.0"@ {
                fails_with(r, "JSON-RPC version must be `2.0`"@) && after == state
            } else if message.method is Some {
                &&& after == state
                &&& if message.id is Some {
                    fails_with(r, "plugin-to-core requests are not supported"@)
                } else if message.method->0@ == protocol::METHOD_EVENT@ {
                    r == Ok::<Incoming, TerminalFailure>(Incoming::Event(params))
                } else {
                    r == Ok::<Incoming, TerminalFailure>(
                        Incoming::Notification { method: message.method->0, params },
                    )
                }
            } else if has_result == has_error {
                fails_with(r, "response must contain exactly one of `result` or `error`"@) && after == state
            } else if message.id is None {
                fails_with(r, "response is missing request ID"@) && after == state
            } else {
                answer_is(state, message, r, after)
            }
        },
    }
}

/// How an answer is taken: by the request that waits for it, by none where the request was
/// given up, and as a failure where there never was such a request.
pub open spec fn answer_is(
    state: ClientState,
    message: IncomingMessage,
    r: Result<Incoming, TerminalFailure>,
    after: ClientState,
) -> bool {
    let id = message.id->0@;
    if id !is Str && value::count_of(Some(id)) is None {
        fails_with(r, "response ID must be a string or integer"@) && after == state
    } else {
        match value::count_of(Some(id)) {
            Some(n) => {
                &&& after.next_id == state.next_id
                &&& after.terminal == state.terminal
                &&& members(after.pending@) == members(state.pending@).remove(n)
                &&& if state.pending@.contains(n) {
                    &&& after.retired@ == state.retired@
                    &&& r matches Ok(Incoming::Answer { id: answered, response })
                    &&& answered == n
                    &&& match message.error {
                        Some(error) => response == Response::Remote(error),
                        None => match message.result {
                            Some(result) => response == Response::Success(result),
                            None => response == Response::Success(Data::Null),
                        },
                    }
                } else if state.retired@.contains(n) {
                    &&& members(after.retired@) == members(state.retired@).remove(n)
                    &&& r == Ok::<Incoming, TerminalFailure>(Incoming::Late)
                } else {
                    &&& members(after.retired@) == members(state.retired@).remove(n)
                    &&& fails_with(
                        r,
                        "response references unknown request ID `"@ + text::decimal(n as nat) + "`"@,
                    )
                }
            },
            None => fails_with(
                r,
                "response references unknown request ID `"@ + id->Str_0 + "`"@,
            ) && after == state,
        }
    }
}

impl ClientState {
    /// No request is open twice, none was given up and is still waited for, none has the
    /// number of a request to come, and none is waited for on a connection beyond use.
    pub open spec fn wf(self) -> bool {
        &&& distinct(self.pending@)
        &&& distinct(self.retired@)
        &&& forall|x: u64| self.pending@.contains(x) ==> x < self.next_id && !self.retired@.contains(x)
        &&& forall|x: u64| self.retired@.contains(x) ==> x < self.next_id
        &&& self.terminal is Some ==> self.pending@.len() == 0
    }

    /// A fresh connection.
    pub fn new() -> (r: ClientState)
        ensures
            r.wf(),
            r.next_id == 1,
            r.pending@.len() == 0,
            r.retired@.len() == 0,
            r.terminal is None,
    {
        ClientState { next_id: 1, pending: Vec::new(), retired: Vec::new(), terminal: None }
    }

    /// Opens a request and gives its number, unless the connection is beyond use.
    pub fn begin_request(&mut self) -> (r: Result<u64, ClientError>)
        requires
            old(self).wf(),
            old(self).next_id < u64::MAX,
        ensures
            final(self).wf(),
            final(self).terminal == old(self).terminal,
            final(self).retired@ == old(self).retired@,
            match old(self).terminal {
                Some(failure) => r == Err::<u64, ClientError>(terminal_error(failure)) && *final(self) == *old(
                    self,
                ),
                None => {
                    &&& r == Ok::<u64, ClientError>(old(self).next_id)
                    &&& final(self).next_id == old(self).next_id + 1
                    &&& members(final(self).pending@) == members(old(self).pending@).insert(
                        old(self).next_id,
                    )
                },
            },
    {
        match &self.terminal {
            Some(failure) => {
                return Err(failure.duplicate().into_error());
            },
            None => {},
        }
        let id: u64 = self.next_id;
        self.next_id = id + 1;
        put_in(&mut self.pending, id);
        proof {
            assert forall|x: u64| self.pending@.contains(x) implies x < self.next_id
                && !self.retired@.contains(x) by {
                assert(members(self.pending@).contains(x));
                assert(members(old(self).pending@).insert(id).contains(x));
                if x != id {
                    assert(members(old(self).pending@).contains(x));
                }
            }
        }
        Ok(id)
    }

    /// Gives a request up for want of an answer. Its answer may still come.
    pub fn give_up(&mut self, id: u64)
        requires
            old(self).wf(),
            old(self).pending@.contains(id),
        ensures
            final(self).wf(),
            final(self).next_id == old(self).next_id,
            final(self).terminal == old(self).terminal,
            members(final(self).pending@) == members(old(self).pending@).remove(id),
            members(final(self).retired@) == members(old(self).retired@).insert(id),
    {
        let taken = take_out(&mut self.pending, id);
        put_in(&mut self.retired, id);
        proof {
            assert forall|x: u64| self.pending@.contains(x) implies x < self.next_id
                && !self.retired@.contains(x) by {
                assert(members(self.pending@).contains(x));
                assert(members(old(self).pending@).contains(x));
                if self.retired@.contains(x) {
                    assert(members(self.retired@).contains(x));
                    assert(members(old(self).retired@).contains(x));
                }
            }
            assert forall|x: u64| self.retired@.contains(x) implies x < self.next_id by {
                assert(members(self.retired@).contains(x));
                if x != id {
                    assert(members(old(self).retired@).contains(x));
                }
            }
            if self.terminal is Some {
                assert(!old(self).pending@.contains(id));
            }
        }
    }

    /// Declares the connection beyond use, unless it is already, and gives the requests
    /// that were waited for: each is answered with the failure.
    pub fn mark_terminal(&mut self, failure: TerminalFailure) -> (r: Vec<u64>)
        requires
            old(self).wf(),
        ensures
            final(self).wf(),
            final(self).next_id == old(self).next_id,
            final(self).retired@ == old(self).retired@,
            final(self).pending@.len() == 0,
            if old(self).terminal is Some {
                final(self).terminal == old(self).terminal && r@.len() == 0
            } else {
                final(self).terminal == Some(failure) && r@ == old(self).pending@
            },
    {
        if self.terminal.is_some() {
            return Vec::new();
        }
        self.terminal = Some(failure);
        let mut open: Vec<u64> = Vec::new();
        std::mem::swap(&mut open, &mut self.pending);
        open
    }

    /// Closes the connection because a request could not be written, and gives the other
    /// requests that were waited for.
    pub fn write_failed(&mut self, id: u64, error: &str) -> (r: Vec<u64>)
        requires
            old(self).wf(),
            old(self).pending@.contains(id),
        ensures
            final(self).wf(),
            final(self).next_id == old(self).next_id,
            final(self).retired@ == old(self).retired@,
            final(self).pending@.len() == 0,
            final(self).terminal matches Some(TerminalFailure::Protocol(detail)) && detail@
                == "failed to write request: "@ + error@,
            members(r@) == members(old(self).pending@).remove(id),
    {
        let taken = take_out(&mut self.pending, id);
        proof {
            assert forall|x: u64| self.pending@.contains(x) implies x < self.next_id
                && !self.retired@.contains(x) by {
                assert(members(self.pending@).contains(x));
                assert(members(old(self).pending@).contains(x));
            }
        }
        self.mark_terminal(TerminalFailure::Protocol(text::cat2("failed to write request: ", error)))
    }

    /// Takes one message of the plugin: `raw` is the object on the line and `decoded` its
    /// parts, or why it has none.
    pub fn process_incoming(&mut self, raw: &Data, decoded: Result<IncomingMessage, String>) -> (r: Result<
        Incoming,
        TerminalFailure,
    >)
        requires
            old(self).wf(),
        ensures
            final(self).wf(),
            incoming_is(*old(self), raw@, decoded, r, *final(self)),
    {
        let has_result = raw.get("result").is_some();
        let has_error = raw.get("error").is_some();
        let message = match decoded {
            Ok(message) => message,
            Err(error) => {
                let detail = text::cat2("invalid JSON-RPC object: ", error.as_str());
                return broken(detail.as_str());
            },
        };
        if !text::same(message.jsonrpc.as_str(), "2.0") {
            return broken("JSON-RPC version must be `2.0`");
        }
        match message.method {
            Some(method) => {
                if message.id.is_some() {
                    return broken("plugin-to-core requests are not supported");
                }
                let params = match message.params {
                    Some(params) => params,
                    None => Data::Null,
                };
                return if text::same(method.as_str(), protocol::METHOD_EVENT) {
                    Ok(Incoming::Event(params))
                } else {
                    Ok(Incoming::Notification { method, params })
                };
            },
            None => {},
        }
        if has_result == has_error {
            return broken("response must contain exactly one of `result` or `error`");
        }
        let raw_id = match &message.id {
            Some(id) => id,
            None => {
                return broken("response is missing request ID");
            },
        };
        let id = match RequestId::from_value(raw_id) {
            Some(id) => id,
            None => {
                return broken("response ID must be a string or integer");
            },
        };
        let number: u64 = match &id {
            RequestId::Number(n) => *n,
            RequestId::Text(s) => {
                let detail = text::cat3("response references unknown request ID `", s.as_str(), "`");
                return broken(detail.as_str());
            },
        };
        let ghost before = *self;
        let waited = take_out(&mut self.pending, number);
        proof {
            assert forall|x: u64| self.pending@.contains(x) implies x < self.next_id
                && !self.retired@.contains(x) by {
                assert(members(self.pending@).contains(x));
                assert(members(before.pending@).contains(x));
            }
            if self.terminal is Some && self.pending@.len() > 0 {
                assert(self.pending@.contains(self.pending@[0]));
                assert(members(self.pending@).contains(self.pending@[0]));
                assert(members(before.pending@).contains(self.pending@[0]));
            }
        }
        if !waited {
            let ghost middle = *self;
            let late = take_out(&mut self.retired, number);
            proof {
                assert forall|x: u64| self.retired@.contains(x) implies x < self.next_id by {
                    assert(members(self.retired@).contains(x));
                    assert(members(before.retired@).contains(x));
                }
                assert forall|x: u64| self.pending@.contains(x) implies !self.retired@.contains(x) by {
                    if self.retired@.contains(x) {
                        assert(members(self.retired@).contains(x));
                        assert(members(before.retired@).contains(x));
                    }
                }
            }
            if late {
                return Ok(Incoming::Late);
            }
            let detail = text::cat3(
                "response references unknown request ID `",
                id.to_text().as_str(),
                "`",
            );
            return broken(detail.as_str());
        }
        let response = match message.error {
            Some(error) => Response::Remote(error),
            None => match message.result {
                Some(result) => Response::Success(result),
                None => Response::Success(Data::Null),
            },
        };
        Ok(Incoming::Answer { id: number, response })
    }
}

/// Every request is answered at most once: a request that was answered, or given up, is no
/// longer waited for, so no later message can answer it.
pub proof fn no_second_answer(
    state: ClientState,
    raw: DataV,
    decoded: Result<IncomingMessage, String>,
    r: Result<Incoming, TerminalFailure>,
    after: ClientState,
)
    requires
        incoming_is(state, raw, decoded, r, after),
    ensures
        r matches Ok(Incoming::Answer { id, .. }) ==> state.pending@.contains(id)
            && !after.pending@.contains(id),
{
    match r {
        Ok(Incoming::Answer { id, .. }) => {
            assert(!members(after.pending@).contains(id));
        },
        _ => {},
    }
}

/// The failure for an event that is none of the known ones.
pub fn reject_event(error: &str) -> (r: TerminalFailure)
    ensures
        r matches TerminalFailure::Protocol(detail) && detail@ == "invalid plugin event: "@ + error@,
{
    TerminalFailure::Protocol(text::cat2("invalid plugin event: ", error))
}

/// Takes the outcome of a shutdown request: a plugin that is gone already has shut down.
pub fn accept_shutdown(outcome: Result<(), ClientError>) -> (r: Result<(), ClientError>)
    ensures
        match outcome {
            Ok(()) => r == Ok::<(), ClientError>(()),
            Err(ClientError::Closed) => r == Ok::<(), ClientError>(()),
            Err(error) => r == Err::<(), ClientError>(error),
        },
{
    match outcome {
        Ok(()) => Ok(()),
        Err(ClientError::Closed) => Ok(()),
        Err(error) => Err(error),
    }
}

/// A deadline is made of what is configured: the time of a command and the time to become ready,
/// once for each unit of work, and a margin.
pub proof fn deadlines_follow_the_configuration(config: DataV, command: u64, readiness: u64, units: nat)
    requires
        value::field(config, "command_timeout_seconds"@) == Some(DataV::Integer(command as int)),
        value::field(config, "readiness_timeout_seconds"@) == Some(DataV::Integer(readiness as int)),
        1 <= command <= 3600,
        1 <= readiness <= 3600,
        units >= 1,
        (command + readiness) * units + 300 < 86400,
    ensures
        timeout_seconds(config, units) == (command + readiness) * units + 300,
{
}

/// Without configuration a command has ten minutes and becoming ready five.
pub proof fn deadlines_have_defaults(config: DataV)
    requires
        value::field(config, "command_timeout_seconds"@) is None,
        value::field(config, "readiness_timeout_seconds"@) is None,
    ensures
        timeout_seconds(config, 1) == 600 + 300 + 300,
        timeout_seconds(config, 0) == 600 + 300 + 300,
        timeout_seconds(config, 2) == 2 * (600 + 300) + 300,
{
}

/// A session is opened only under a version that the core offered, that is the plugin's own, and
/// that the plugin accepts.
pub proof fn sessions_use_an_offered_version(request: InitializeRequest, result: InitializeResult)
    requires
        negotiated(request, result),
    ensures
        result.protocol_version == request.protocol_version
            || request.supported_protocol_versions@.contains(result.protocol_version),
        result.manifest.protocol.version == result.protocol_version,
        !version::older(result.protocol_version, result.manifest.protocol.requires.minimum),
        result.manifest.protocol.requires.maximum_exclusive matches Some(limit) ==> version::older(
            result.protocol_version,
            limit,
        ),
{
}

/// An answer goes to the request that it names, while that is open, and to no other.
pub proof fn answers_go_to_their_request(
    state: ClientState,
    raw: DataV,
    message: IncomingMessage,
    r: Result<Incoming, TerminalFailure>,
    after: ClientState,
)
    requires
        incoming_is(state, raw, Ok(message), r, after),
    ensures
        r matches Ok(Incoming::Answer { id, .. }) ==> state.pending@.contains(id) && (message.id matches Some(named)
            && named@ == DataV::Integer(id as int)) && !members(after.pending@).contains(id),
        r matches Ok(Incoming::Answer { response, .. }) ==> match message.error {
            Some(error) => response == Response::Remote(error),
            None => match message.result {
                Some(result) => response == Response::Success(result),
                None => response == Response::Success(Data::Null),
            },
        },
        r matches Ok(Incoming::Notification { method, .. }) ==> message.method == Some(method) && message.id is None,
        r matches Ok(Incoming::Event(_)) ==> (message.method matches Some(method) && method@ == "plugin.event"@)
            && message.id is None,
        message.jsonrpc@ != "2.0"@ ==> r is Err,
        message.method is Some && message.id is Some ==> r is Err,
{
}

/// The deadline of a destruction counts every selected environment, and one at least.
pub proof fn selected_environments_count(metadata: DataV)
    ensures
        selection_units(metadata) >= 1,
        value::field(metadata, "selection"@) matches Some(selection) ==> (value::field(
            selection,
            "environment_ids"@,
        ) matches Some(DataV::Array(ids)) ==> (ids.len() >= 1 ==> selection_units(metadata) == ids.len())),
        value::field(metadata, "selection"@) is None ==> selection_units(metadata) == 1,
{
}

/// The deadline counts what is there already, and one step where there is nothing.
pub proof fn present_state_counts(v: Data)
    ensures
        optional_work(Some(v)) == value::work_units(v@),
        optional_work(None) == 1,
{
}

/// One more step is counted as far as the machine can count.
pub proof fn one_more_step_counts(n: nat)
    ensures
        n < usize::MAX ==> one_more(n) == n + 1,
        n >= usize::MAX ==> one_more(n) == usize::MAX,
{
}

} // verus!
