use use_aws_mcp::json::JsonValue;
use use_aws_mcp::json_parse::parse_json;
use use_aws_mcp::mcp_server::{
    classify_message, encode_response, AwsMcpServer, Dispatch, InvocationOutcome, JsonRpcError,
    JsonRpcMessage, JsonRpcRequest, JsonRpcResponse, LineOutcome, ManifestSource, ToolCall,
};

fn request(method: &str, params: Option<&str>) -> JsonRpcRequest {
    JsonRpcRequest {
        jsonrpc: "2.0".to_string(),
        id: JsonValue::Num("1".to_string()),
        method: method.to_string(),
        params: params.map(|p| parse_json(p).expect("test params must parse")),
    }
}

fn no_manifest() -> ManifestSource {
    ManifestSource::Unreadable("missing".to_string())
}

#[test]
fn test_initialize_returns_capabilities() {
    let server = AwsMcpServer::new();
    let resp = server.handle_initialize(request("initialize", None));
    assert!(resp.error.is_none());
    let encoded = encode_response(&resp);
    assert!(encoded.contains("\"protocolVersion\":\"2024-11-05\""));
    assert!(encoded.contains("\"listChanged\":true"));
    assert!(encoded.contains("\"name\":\"use_aws\""));
}

#[test]
fn test_unknown_method_yields_method_not_found() {
    let server = AwsMcpServer::new();
    match server.handle_request(request("bogus/method", None), &no_manifest()) {
        Dispatch::Reply(resp) => {
            assert!(resp.result.is_none());
            let err = resp.error.unwrap();
            assert_eq!(err.code, -32601);
            assert_eq!(err.message, "Method 'bogus/method' not found");
        }
        _ => panic!("expected a reply"),
    }
}

#[test]
fn test_tool_call_wrong_name_yields_tool_not_found() {
    let server = AwsMcpServer::new();
    let params = r#"{"name": "other_tool", "arguments": {}}"#;
    match server.handle_tool_call(request("tools/call", Some(params))) {
        Dispatch::Reply(resp) => {
            assert!(resp.result.is_none());
            let err = resp.error.unwrap();
            assert_eq!(err.code, -32601);
            assert_eq!(err.message, "Tool 'other_tool' not found");
        }
        _ => panic!("expected a reply"),
    }
}

#[test]
fn test_tool_call_missing_params() {
    let server = AwsMcpServer::new();
    match server.handle_tool_call(request("tools/call", None)) {
        Dispatch::Reply(resp) => {
            assert!(resp.result.is_none());
            let err = resp.error.unwrap();
            assert_eq!(err.code, -32602);
            assert_eq!(err.message, "Missing params for tools/call");
        }
        _ => panic!("expected a reply"),
    }
}

#[test]
fn test_tool_call_bad_arguments() {
    let server = AwsMcpServer::new();
    let params = r#"{"name": "use_aws", "arguments": {"service_name": "s3"}}"#;
    match server.handle_tool_call(request("tools/call", Some(params))) {
        Dispatch::Reply(resp) => {
            assert!(resp.result.is_none());
            let err = resp.error.unwrap();
            assert_eq!(err.code, -32603);
            assert_eq!(err.message, "Failed to deserialize use_aws arguments");
        }
        _ => panic!("expected a reply"),
    }
}

#[test]
fn test_tool_call_accepted_becomes_invocation() {
    let server = AwsMcpServer::new();
    let params = r#"{
        "name": "use_aws",
        "arguments": {
            "service_name": "s3",
            "operation_name": "list-buckets",
            "region": "us-west-2"
        }
    }"#;
    match server.handle_tool_call(request("tools/call", Some(params))) {
        Dispatch::Invoke(pending) => {
            assert_eq!(pending.command.service_name, "s3");
            assert_eq!(pending.command.operation_name, "list-buckets");
            assert!(pending.description.contains("Service name: s3"));
            assert!(pending.description.contains("Profile name: default"));
        }
        _ => panic!("expected a pending invocation"),
    }
}

#[test]
fn test_tools_list_from_document() {
    let server = AwsMcpServer::new();
    let doc = parse_json(r#"{"tools": [{"name": "use_aws"}]}"#).unwrap();
    let resp = server.handle_tools_list(request("tools/list", None), &ManifestSource::Document(doc));
    assert!(resp.error.is_none());
    let encoded = encode_response(&resp);
    assert!(encoded.contains("\"tools\":[{\"name\":\"use_aws\"}]"));
}

#[test]
fn test_tools_list_failures_are_internal_errors() {
    let server = AwsMcpServer::new();

    let resp = server.handle_tools_list(
        request("tools/list", None),
        &ManifestSource::Unreadable("no such file".to_string()),
    );
    let err = resp.error.unwrap();
    assert_eq!(err.code, -32603);
    assert_eq!(err.message, "Failed to read schema.json: no such file");

    let resp = server.handle_tools_list(request("tools/list", None), &ManifestSource::Unparseable);
    let err = resp.error.unwrap();
    assert_eq!(err.code, -32603);
    assert_eq!(err.message, "Failed to parse schema.json");

    let doc = parse_json(r#"{"other": 1}"#).unwrap();
    let resp =
        server.handle_tools_list(request("tools/list", None), &ManifestSource::Document(doc));
    let err = resp.error.unwrap();
    assert_eq!(err.code, -32603);
    assert_eq!(err.message, "schema.json does not contain a 'tools' key");
}

#[test]
fn test_nonzero_exit_yields_tool_execution_error_with_stderr() {
    let server = AwsMcpServer::new();
    let resp = server.finish_tool_call(
        JsonValue::Num("9".to_string()),
        "desc".to_string(),
        InvocationOutcome::Completed {
            status_code: Some(2),
            stdout: "partial".to_string(),
            stderr: "boom: access denied".to_string(),
        },
    );
    assert!(resp.result.is_none());
    let err = resp.error.unwrap();
    assert_eq!(err.code, -32000);
    assert_eq!(err.message, "boom: access denied");
}

#[test]
fn test_nonzero_exit_truncates_long_stderr() {
    let server = AwsMcpServer::new();
    let long = "e".repeat(60000);
    let resp = server.finish_tool_call(
        JsonValue::Num("9".to_string()),
        "desc".to_string(),
        InvocationOutcome::Completed {
            status_code: Some(1),
            stdout: String::new(),
            stderr: long,
        },
    );
    let err = resp.error.unwrap();
    assert_eq!(err.code, -32000);
    assert_eq!(err.message, format!("{} ... truncated", "e".repeat(50000)));
}

#[test]
fn test_successful_invocation_composes_content() {
    let server = AwsMcpServer::new();
    let resp = server.finish_tool_call(
        JsonValue::Num("3".to_string()),
        "the description".to_string(),
        InvocationOutcome::Completed {
            status_code: Some(0),
            stdout: "bucket-list".to_string(),
            stderr: String::new(),
        },
    );
    assert!(resp.error.is_none());
    let encoded = encode_response(&resp);
    assert!(encoded.contains("the description\\n\\nResult:\\n"));
    assert!(encoded.contains("\\\"exit_status\\\":\\\"0\\\""));
    assert!(encoded.contains("bucket-list"));
    assert!(encoded.contains("\"type\":\"text\""));
}

#[test]
fn test_spawn_failure_yields_tool_execution_error() {
    let server = AwsMcpServer::new();
    let resp = server.finish_tool_call(
        JsonValue::Null,
        String::new(),
        InvocationOutcome::SpawnFailed { reason: "binary not found".to_string() },
    );
    let err = resp.error.unwrap();
    assert_eq!(err.code, -32000);
    assert_eq!(err.message, "binary not found");
}

#[test]
fn test_response_round_trip_error_and_result_exclusive() {
    let with_error = JsonRpcResponse {
        jsonrpc: "2.0".to_string(),
        id: JsonValue::Num("7".to_string()),
        result: None,
        error: Some(JsonRpcError {
            code: -32601,
            message: "Method 'x' not found".to_string(),
            data: None,
        }),
    };
    let encoded = encode_response(&with_error);
    let decoded = parse_json(&encoded).expect("an encoded response must parse");
    assert!(decoded.get("error").is_some());
    assert!(decoded.get("result").is_none());
    match classify_message(&decoded) {
        Some(JsonRpcMessage::Response(_)) => {}
        _ => panic!("an encoded response must classify as a response"),
    }

    let with_result = JsonRpcResponse {
        jsonrpc: "2.0".to_string(),
        id: JsonValue::Num("8".to_string()),
        result: Some(parse_json(r#"{"ok": true}"#).unwrap()),
        error: None,
    };
    let encoded = encode_response(&with_result);
    let decoded = parse_json(&encoded).expect("an encoded response must parse");
    assert!(decoded.get("result").is_some());
    assert!(decoded.get("error").is_none());
    match classify_message(&decoded) {
        Some(JsonRpcMessage::Response(_)) => {}
        _ => panic!("an encoded response must classify as a response"),
    }
}

#[test]
fn test_classify_request_notification_and_response() {
    let req = parse_json(r#"{"jsonrpc": "2.0", "id": 1, "method": "initialize"}"#).unwrap();
    match classify_message(&req) {
        Some(JsonRpcMessage::Request(r)) => {
            assert_eq!(r.method, "initialize");
            assert!(r.params.is_none());
        }
        _ => panic!("expected a request"),
    }

    let note =
        parse_json(r#"{"jsonrpc": "2.0", "method": "notifications/initialized"}"#).unwrap();
    match classify_message(&note) {
        Some(JsonRpcMessage::Notification(n)) => {
            assert_eq!(n.method, "notifications/initialized");
        }
        _ => panic!("expected a notification"),
    }

    let resp = parse_json(r#"{"jsonrpc": "2.0", "id": 1, "result": {}}"#).unwrap();
    match classify_message(&resp) {
        Some(JsonRpcMessage::Response(_)) => {}
        _ => panic!("expected a response"),
    }

    let nothing = parse_json(r#"{"jsonrpc": "2.0"}"#).unwrap();
    assert!(classify_message(&nothing).is_none());
}

#[test]
fn test_handle_line_flow() {
    let server = AwsMcpServer::new();
    let manifest = no_manifest();

    assert!(matches!(server.handle_line("   ", &manifest), LineOutcome::Blank));
    assert!(matches!(server.handle_line("{not json", &manifest), LineOutcome::Malformed));
    assert!(matches!(
        server.handle_line(r#"{"jsonrpc": "2.0", "method": "notifications/initialized"}"#, &manifest),
        LineOutcome::NoReply
    ));
    match server.handle_line(r#"{"jsonrpc": "2.0", "id": 5, "method": "nope"}"#, &manifest) {
        LineOutcome::Reply(line) => {
            assert!(line.contains("\"error\""));
            assert!(line.contains("-32601"));
            assert!(line.contains("\"id\":5"));
        }
        _ => panic!("expected an encoded reply"),
    }
}

#[test]
fn test_generate_tool_description() {
    let server = AwsMcpServer::new();
    let unknown = ToolCall {
        name: "other".to_string(),
        arguments: JsonValue::Null,
    };
    assert_eq!(server.generate_tool_description(&unknown).unwrap_or_default(), "Unknown tool: other");

    let known = ToolCall {
        name: "use_aws".to_string(),
        arguments: parse_json(
            r#"{"service_name": "ec2", "operation_name": "describe-instances", "region": "us-east-1"}"#,
        )
        .unwrap(),
    };
    let description = server.generate_tool_description(&known).unwrap_or_default();
    assert!(description.contains("Service name: ec2"));
    assert!(description.contains("Operation name: describe-instances"));

    let bad = ToolCall {
        name: "use_aws".to_string(),
        arguments: JsonValue::Null,
    };
    assert!(server.generate_tool_description(&bad).is_err());
}
