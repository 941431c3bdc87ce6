use lightrail::client::{
    accept_initialize, accept_read, cancellation_line, map_remote_error, notification_line,
    operation_request_timeout, read_object, request_line, ClientOptions, ClientState, Incoming, ReadOutcome, Response,
    TerminalFailure, MAX_OPERATION_REQUEST_TIMEOUT_SECONDS,
};
use lightrail::collections::StringMap;
use lightrail::protocol::{
    Capability, ExecutableMetadata, InitializeRequest, OperationContext, PluginManifest, SecretValue,
};
use lightrail::rpc::{ClientError, ErrorKind, IncomingMessage, JsonRpcError, PluginError, RequestId};
use lightrail::server::{
    dispatch, event_line, is_last, negotiate, plugin_rpc_error, reply, response_line, serve, serve_line,
    ServerStep,
};
use lightrail::value::Data;
use lightrail::version::{ProtocolCompatibility, ProtocolRequirement, ProtocolVersion};

fn json(source: &str) -> Data {
    lightrail::value::parse_json(source.as_bytes()).expect("JSON")
}

fn with_config(config: Data) -> OperationContext {
    OperationContext { config, ..OperationContext::default() }
}

fn manifest(protocol: ProtocolVersion) -> PluginManifest {
    PluginManifest {
        id: "io.lightrail.test".to_owned(),
        name: "Test plugin".to_owned(),
        version: "0.1.0".to_owned(),
        protocol: ProtocolCompatibility {
            version: protocol,
            requires: ProtocolRequirement::compatible_with(protocol),
        },
        executable: ExecutableMetadata::default(),
        capabilities: vec![Capability::Other("test-echo".to_owned())],
        features: Vec::new(),
        required_secrets: Vec::new(),
        config_schema: json(r#"{"type":"object"}"#),
        config_ui_hints: Data::object(),
    }
}

/// Reads a message as it stands on the wire.
fn decode(raw: &Data) -> IncomingMessage {
    IncomingMessage::from_value(raw).expect("message")
}

fn receive(state: &mut ClientState, line: Vec<u8>) -> Result<Incoming, TerminalFailure> {
    let content = accept_read(ReadOutcome::Line(line))?;
    let raw = read_object(&content)?;
    let decoded = decode(&raw);
    state.process_incoming(&raw, Ok(decoded))
}

#[test]
fn default_request_timeout_is_the_fallback_for_short_protocol_calls() {
    assert_eq!(ClientOptions::default().request_timeout_ms, 125 * 60 * 1000);
}

#[test]
fn operation_timeout_uses_exact_units_and_configured_phase_budgets() {
    let context = with_config(json(
        r#"{"command_timeout_seconds": 3600, "readiness_timeout_seconds": 3000}"#,
    ));

    assert_eq!(operation_request_timeout(&context, 3), (3_600 + 3_000) * 3 + 300);
}

#[test]
fn operation_timeout_saturates_at_the_explicit_request_ceiling() {
    let context = with_config(json(
        r#"{"command_timeout_seconds": 18446744073709551615, "readiness_timeout_seconds": 18446744073709551615}"#,
    ));

    assert_eq!(
        operation_request_timeout(&context, usize::MAX),
        MAX_OPERATION_REQUEST_TIMEOUT_SECONDS
    );
}

#[test]
fn operation_timeout_never_shrinks_with_more_work() {
    let context = with_config(Data::object());
    assert_eq!(operation_request_timeout(&context, 0), 600 + 300 + 300);
    assert_eq!(operation_request_timeout(&context, 1), 600 + 300 + 300);
    assert_eq!(operation_request_timeout(&context, 2), 2 * 900 + 300);
}

#[test]
fn request_response_and_notification_round_trip() {
    let mut state = ClientState::new();
    let id = state.begin_request().expect("request");
    let line = request_line(id, "plugin.validate", r#"{"desired":{"answer":42}}"#).expect("line");
    assert_eq!(
        line,
        b"{\"jsonrpc\":\"2.0\",\"id\":1,\"method\":\"plugin.validate\",\"params\":{\"desired\":{\"answer\":42}}}\n"
            .to_vec()
    );

    let (raw_id, params) = match serve_line(line) {
        ServerStep::Call { id, raw_id, method, params } => {
            assert_eq!(id, RequestId::Number(1));
            assert_eq!(method, "plugin.validate");
            (raw_id, params)
        }
        _ => panic!("must be a call"),
    };
    let event = br#"{"jsonrpc":"2.0","method":"plugin.event","params":{"type":"progress","message":"validating"}}"#;
    match receive(&mut state, event.to_vec()).expect("event") {
        Incoming::Event(params) => assert_eq!(params.get_str("message"), Some("validating")),
        _ => panic!("must be an event"),
    }
    let answer = response_line(&raw_id, &Ok(params.get("desired").expect("desired").clone())).expect("line");
    assert_eq!(answer, b"{\"jsonrpc\":\"2.0\",\"id\":1,\"result\":{\"answer\":42}}\n".to_vec());
    assert_eq!(
        receive(&mut state, answer).expect("answer"),
        Incoming::Answer { id: 1, response: Response::Success(json(r#"{"answer":42}"#)) }
    );
    assert!(state.pending.is_empty());
}

#[test]
fn concurrent_responses_are_correlated_by_id() {
    let mut state = ClientState::new();
    let slow = state.begin_request().expect("slow");
    let fast = state.begin_request().expect("fast");
    assert_ne!(slow, fast);
    let answer = |id: u64, name: &str| {
        format!("{{\"jsonrpc\":\"2.0\",\"id\":{id},\"result\":{{\"name\":\"{name}\"}}}}\n").into_bytes()
    };

    match receive(&mut state, answer(fast, "fast")).expect("fast response") {
        Incoming::Answer { id, response: Response::Success(result) } => {
            assert_eq!(id, fast);
            assert_eq!(result.get_str("name"), Some("fast"));
        }
        _ => panic!("must be an answer"),
    }
    match receive(&mut state, answer(slow, "slow")).expect("slow response") {
        Incoming::Answer { id, response: Response::Success(result) } => {
            assert_eq!(id, slow);
            assert_eq!(result.get_str("name"), Some("slow"));
        }
        _ => panic!("must be an answer"),
    }
    assert!(receive(&mut state, answer(slow, "again")).is_err());
}

#[test]
fn incompatible_protocol_is_rejected() {
    let request = InitializeRequest::current("0.1.0");
    let error = negotiate(manifest(ProtocolVersion::new(2, 0, 0)), &request, "session".to_owned())
        .expect_err("major mismatch must fail");
    assert_eq!(error.code, "protocol_mismatch");
    let error = map_remote_error(plugin_rpc_error(error));
    assert!(
        matches!(
            error,
            ClientError::ProtocolMismatch {
                requested: ProtocolVersion { major: 1, minor: 0, patch: 0 },
                selected: ProtocolVersion { major: 2, minor: 0, patch: 0 },
            }
        ),
        "unexpected error: {}",
        error.message()
    );
}

#[test]
fn a_session_that_the_plugin_opens_is_accepted() {
    let request = InitializeRequest::current("0.1.0");
    let version = ProtocolVersion::new(1, 0, 0);
    let result = negotiate(manifest(version), &request, "session".to_owned()).expect("protocol should negotiate");
    assert_eq!(result.session_id, "session");
    let accepted = accept_initialize(&request, result).expect("accepted");
    assert_eq!(accepted.manifest.id, "io.lightrail.test");
    assert!(accepted.manifest.features.is_empty());
    let fresh = lightrail::server::initialize(manifest(version), &request).expect("fresh session");
    assert_eq!(fresh.session_id.len(), 36);
}

#[test]
fn timeout_cancels_the_rpc_request() {
    let mut state = ClientState::new();
    let id = state.begin_request().expect("request");
    state.give_up(id);
    assert!(state.pending.is_empty());
    let error = ClientError::Timeout { method: "validate".to_owned(), id: RequestId::Number(id), timeout_ms: 30 };
    assert!(error.is_retryable());
    let late = format!("{{\"jsonrpc\":\"2.0\",\"id\":{id},\"result\":null}}\n").into_bytes();
    assert_eq!(receive(&mut state, late).expect("late"), Incoming::Late);
    assert!(state.terminal.is_none());
}

#[test]
fn call_specific_timeout_sends_the_standard_cancellation_notification() {
    let mut state = ClientState::new();
    let id = state.begin_request().expect("request");
    let cancellation = cancellation_line(id).expect("line");
    assert_eq!(
        cancellation,
        b"{\"jsonrpc\":\"2.0\",\"method\":\"$/cancelRequest\",\"params\":{\"id\":1}}\n".to_vec()
    );
    assert_eq!(serve_line(cancellation), ServerStep::CancelRequest { id: RequestId::Number(id) });
}

#[test]
fn malformed_stdout_is_a_terminal_protocol_error() {
    let mut state = ClientState::new();
    let id = state.begin_request().expect("request");
    let failure = receive(&mut state, b"this-is-not-json\n".to_vec()).expect_err("malformed output must fail");
    match &failure {
        TerminalFailure::Protocol(detail) => assert!(detail.starts_with("malformed JSON-RPC output: ")),
        _ => panic!("must be a protocol failure"),
    }
    assert_eq!(state.mark_terminal(failure), vec![id]);
    assert!(matches!(state.begin_request(), Err(ClientError::Protocol(_))));
}

#[test]
fn what_is_no_message_ends_the_connection() {
    let mut state = ClientState::new();
    assert!(receive(&mut state, b"\n".to_vec()).is_err());
    assert!(receive(&mut state, b"[1]\n".to_vec()).is_err());
    assert!(receive(&mut state, b"{\"jsonrpc\":\"1.0\",\"id\":1,\"result\":1}\n".to_vec()).is_err());
    assert!(receive(&mut state, b"{\"jsonrpc\":\"2.0\",\"id\":7,\"result\":1}\n".to_vec()).is_err());
    assert_eq!(accept_read(ReadOutcome::End), Err(TerminalFailure::Closed));
    assert!(accept_read(ReadOutcome::Failed("broken pipe".to_owned())).is_err());
}

#[test]
fn what_is_no_request_is_rejected() {
    let rejected = |source: &str| match serve(Some(decode(&json(source)))) {
        ServerStep::Reject { id, error } => (id, error.code),
        _ => panic!("must be rejected"),
    };
    assert_eq!(rejected(r#"{"jsonrpc":"1.0","id":3,"method":"plan"}"#), (Data::Null, -32600));
    assert_eq!(rejected(r#"{"jsonrpc":"2.0","id":3}"#).1, -32600);
    assert_eq!(rejected(r#"{"jsonrpc":"2.0","id":[],"method":"plan"}"#).1, -32600);
    assert!(dispatch("nothing.known").is_err());
    match serve(Some(decode(&json(r#"{"jsonrpc":"2.0","id":"x","method":"plugin.shutdown"}"#)))) {
        ServerStep::Shutdown { id } => assert_eq!(id, Data::text("x")),
        _ => panic!("must shut down"),
    }
}

#[test]
fn secrets_are_redacted_from_rust_diagnostics() {
    let secret = SecretValue::new("super-secret-token");
    assert_eq!(secret.expose_secret(), "super-secret-token");
    assert_eq!(secret.to_text(), "[REDACTED]");
    assert!(!secret.to_debug().contains("super-secret-token"));

    let mut secrets = StringMap::new();
    secrets.insert("token".to_owned(), secret);
    let context = OperationContext { secrets, ..OperationContext::default() };
    assert!(!context.to_debug().contains("super-secret-token"));
    assert_eq!(
        context.to_value().get("secrets").expect("secrets").get_str("token"),
        Some("super-secret-token")
    );
}

#[test]
fn versions_are_read_back() {
    let version = ProtocolVersion::parse("1.20.3").expect("version");
    assert_eq!(version, ProtocolVersion::new(1, 20, 3));
    assert_eq!(version.to_text(), "1.20.3");
    for wrong in ["", "1", "1.2", "1.2.3.4", "01.2.3", "1.2.x", "+1.2.3", "1.2.18446744073709551616"] {
        let error = ProtocolVersion::parse(wrong).expect_err("not canonical");
        assert_eq!(
            error.message(),
            format!("invalid protocol version `{wrong}`; expected canonical major.minor.patch")
        );
    }
    let requirement = ProtocolRequirement::compatible_with(ProtocolVersion::new(1, 2, 3));
    assert!(requirement.contains(ProtocolVersion::new(1, 0, 0)));
    assert!(requirement.contains(ProtocolVersion::new(1, 9, 0)));
    assert!(!requirement.contains(ProtocolVersion::new(2, 0, 0)));
    assert!(!requirement.contains(ProtocolVersion::new(0, 9, 0)));
}

#[test]
fn plugin_errors_say_whether_to_try_again() {
    let error = PluginError::retryable(ErrorKind::Unavailable, "busy", "try later").with_retry_after(250);
    assert!(error.retryable);
    assert_eq!(error.retry_after_ms, Some(250));
    assert!(ClientError::Remote(error).is_retryable());
    let error = PluginError::unsupported("plan");
    assert!(!error.retryable);
    assert!(!ClientError::Remote(error).is_retryable());
    assert!(!ClientError::Protocol("x".to_owned()).is_retryable());
    assert!(ClientError::Io("x".to_owned()).is_retryable());
}

#[test]
fn numbers_beyond_a_float_are_kept() {
    let source = r#"{"a":18446744073709551615,"b":-9223372036854775808,"c":[true,null,"é"]}"#;
    let data = json(source);
    assert_eq!(data.get("a"), Some(&Data::Integer(18446744073709551615)));
    assert_eq!(data.get("b"), Some(&Data::Integer(-9223372036854775808)));
    assert_eq!(json(&lightrail::value::encode(&data)), data);
    assert!(lightrail::value::parse_json(b"{").is_err());
}

#[test]
fn a_notation_is_read_as_what_was_written() {
    let sent = Data::Object(vec![
        ("zone".to_owned(), Data::Str("a\u{e9}\n\"\\\u{1}\u{7f}".to_owned())),
        (
            "app".to_owned(),
            Data::Object(vec![
                ("port".to_owned(), Data::Integer(8080)),
                ("live".to_owned(), Data::Bool(true)),
            ]),
        ),
    ]);
    let notation = lightrail::value::encode(&sent);
    assert_eq!(
        notation,
        "{\"app\":{\"live\":true,\"port\":8080},\"zone\":\"a\u{e9}\\n\\\"\\\\\\u0001\u{7f}\"}"
    );
    let read = lightrail::value::parse_json(notation.as_bytes()).expect("JSON");
    assert_eq!(read, lightrail::value::canonical_json(&sent));
    assert_eq!(read.get_str("zone"), sent.get_str("zone"));
}

#[test]
fn shutdown_is_answered_in_order_and_ends_serving() {
    let step = serve_line(b"{\"jsonrpc\":\"2.0\",\"id\":1,\"method\":\"plugin.shutdown\"}\n".to_vec());
    assert_eq!(step, ServerStep::Shutdown { id: Data::Integer(1) });
    let line = reply(&step).expect("answered").expect("line");
    assert_eq!(line, b"{\"jsonrpc\":\"2.0\",\"id\":1,\"result\":{}}\n".to_vec());
    assert!(is_last(&step));
    let step = serve_line(b"{\"jsonrpc\":\"2.0\",\"id\":2,\"method\":\"plugin.plan\"}\n".to_vec());
    assert!(reply(&step).is_none());
    assert!(!is_last(&step));
}

#[test]
fn errors_are_answered_in_order() {
    let error = JsonRpcError {
        code: -32000,
        message: "no \"zone\"".to_owned(),
        data: Some(json(r#"{"kind":"validation","code":"zone"}"#)),
    };
    assert_eq!(
        response_line(&Data::Str("a".to_owned()), &Err(error)).expect("line"),
        b"{\"jsonrpc\":\"2.0\",\"id\":\"a\",\"error\":{\"code\":-32000,\"message\":\"no \\\"zone\\\"\",\"data\":{\"code\":\"zone\",\"kind\":\"validation\"}}}\n"
            .to_vec()
    );
    let step = serve_line(b"[]\n".to_vec());
    assert_eq!(
        reply(&step).expect("answered").expect("line"),
        b"{\"jsonrpc\":\"2.0\",\"id\":null,\"error\":{\"code\":-32600,\"message\":\"invalid JSON-RPC 2.0 request\"}}\n"
            .to_vec()
    );
    assert_eq!(
        event_line("plugin.event", "{\"type\":\"progress\",\"message\":\"x\"}").expect("line"),
        b"{\"jsonrpc\":\"2.0\",\"method\":\"plugin.event\",\"params\":{\"type\":\"progress\",\"message\":\"x\"}}\n"
            .to_vec()
    );
    assert_eq!(
        notification_line("x", "[]").expect("line"),
        b"{\"jsonrpc\":\"2.0\",\"method\":\"x\",\"params\":[]}\n".to_vec()
    );
    assert!(event_line("x", &"a".repeat(17_000_000)).is_err());
    assert!(notification_line("x", &"a".repeat(17_000_000)).is_err());
}

#[test]
fn cancellations_name_a_request() {
    let cancel = |params: &str| {
        serve_line(format!("{{\"jsonrpc\":\"2.0\",\"method\":\"$/cancelRequest\",\"params\":{params}}}").into_bytes())
    };
    assert_eq!(cancel("[7]"), ServerStep::CancelRequest { id: RequestId::Number(7) });
    assert_eq!(cancel("{\"id\":\"x\",\"more\":1}"), ServerStep::CancelRequest { id: RequestId::Text("x".to_owned()) });
    assert_eq!(cancel("[7,8]"), ServerStep::Ignore);
    assert_eq!(cancel("{\"id\":-1}"), ServerStep::Ignore);
    assert_eq!(cancel("7"), ServerStep::Ignore);
}

#[test]
fn plugin_errors_arrive_as_they_were_raised() {
    let raised = || {
        PluginError::retryable(ErrorKind::RateLimited, "quota", "too many requests")
            .with_retry_after(250)
            .with_details(json(r#"{"b":1,"a":[null]}"#))
    };
    assert_eq!(map_remote_error(plugin_rpc_error(raised())), ClientError::Remote(raised()));
    let plain = JsonRpcError { code: -32601, message: "method not found".to_owned(), data: None };
    assert_eq!(
        map_remote_error(plain),
        ClientError::RemoteRpc { code: -32601, message: "method not found".to_owned(), data: None }
    );
    let read = |source: &str| PluginError::from_value(&json(source));
    assert_eq!(read(r#"["internal","c","m"]"#), Some(PluginError::permanent(ErrorKind::Internal, "c", "m")));
    assert_eq!(
        read(r#"{"kind":{"conflict":null},"code":"c","message":"m","retry_after_ms":null}"#),
        Some(PluginError::permanent(ErrorKind::Conflict, "c", "m"))
    );
    assert_eq!(read(r#"{"kind":"unknown","code":"c","message":"m"}"#), None);
    assert_eq!(read(r#"{"kind":"internal","code":"c"}"#), None);
    assert_eq!(read(r#"{"kind":"internal","code":"c","message":"m","retryable":null}"#), None);
    assert_eq!(read(r#"{"kind":"internal","code":"c","message":"m","retry_after_ms":-1}"#), None);
}

#[test]
fn numbers_are_written_as_json_holds_them() {
    let encode = |data: Data| lightrail::value::encode(&data);
    assert_eq!(encode(Data::Float("1.50".to_owned())), "1.5");
    assert_eq!(encode(Data::Float("nan".to_owned())), "null");
    assert_eq!(encode(Data::Integer(i128::from(u64::MAX))), "18446744073709551615");
    assert_eq!(encode(Data::Integer(i128::from(i64::MIN))), "-9223372036854775808");
    assert_eq!(encode(Data::Integer(i128::MAX)), "null");
    assert_eq!(encode(Data::Datetime("2024-01-01".to_owned())), "\"2024-01-01\"");
    assert_eq!(
        encode(Data::Object(vec![
            ("b".to_owned(), Data::Null),
            ("a".to_owned(), Data::Array(vec![Data::Bool(false), Data::Str("x".to_owned())])),
            ("b".to_owned(), Data::Integer(2)),
        ])),
        "{\"a\":[false,\"x\"],\"b\":2}"
    );
    assert_eq!(json("[1.5, -3, null]"), Data::Array(vec![
        Data::Float("1.5".to_owned()),
        Data::Integer(-3),
        Data::Null,
    ]));
}

#[test]
fn canonical_forms_agree_and_are_stable() {
    let entry = |name: &str, data: Data| (name.to_owned(), data);
    let inner = |first: &str, second: &str| {
        Data::Object(vec![entry(first, Data::Integer(1)), entry(second, Data::Integer(1))])
    };
    let left = Data::Object(vec![entry("b", inner("x", "y")), entry("a", Data::Array(vec![inner("p", "q"), Data::Null]))]);
    let right = Data::Object(vec![entry("a", Data::Array(vec![inner("q", "p"), Data::Null])), entry("b", inner("y", "x"))]);
    assert_ne!(left, right);
    let canonical = lightrail::value::canonical_json(&left);
    assert_eq!(canonical, lightrail::value::canonical_json(&right));
    assert_eq!(canonical, lightrail::value::canonical_json(&canonical));
    assert_eq!(lightrail::value::encode(&left), lightrail::value::encode(&canonical));
    assert_eq!(
        lightrail::value::encode(&canonical),
        "{\"a\":[{\"p\":1,\"q\":1},null],\"b\":{\"x\":1,\"y\":1}}"
    );
}
