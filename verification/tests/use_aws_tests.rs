use use_aws_mcp::use_aws::{decode_use_aws_request, truncate_stream, user_agent_env_value, UseAws};
use use_aws_mcp::json_parse::parse_json;

fn use_aws_from_json(text: &str) -> UseAws {
    let value = parse_json(text).expect("test JSON must parse");
    let request = match decode_use_aws_request(&value) {
        Ok(r) => r,
        Err(_) => panic!("test JSON must decode"),
    };
    UseAws::from(request)
}

#[test]
fn test_requires_acceptance() {
    let cmd = use_aws_from_json(
        r#"{
            "service_name": "ecs",
            "operation_name": "list-task-definitions",
            "region": "us-west-2",
            "profile_name": "default",
            "label": ""
        }"#,
    );
    assert!(!cmd.requires_acceptance());
    let cmd = use_aws_from_json(
        r#"{
            "service_name": "lambda",
            "operation_name": "list-functions",
            "region": "us-west-2",
            "profile_name": "default",
            "label": ""
        }"#,
    );
    assert!(!cmd.requires_acceptance());
    let cmd = use_aws_from_json(
        r#"{
            "service_name": "s3",
            "operation_name": "put-object",
            "region": "us-west-2",
            "profile_name": "default",
            "label": ""
        }"#,
    );
    assert!(cmd.requires_acceptance());
}

#[test]
fn test_use_aws_deser() {
    let cmd = use_aws_from_json(
        r#"{
            "service_name": "s3",
            "operation_name": "put-object",
            "parameters": {
                "TableName": "table-name",
                "KeyConditionExpression": "PartitionKey = :pkValue"
            },
            "region": "us-west-2",
            "profile_name": "default",
            "label": ""
        }"#,
    );
    let params = cmd.cli_parameters().unwrap();
    assert!(
        params.iter().any(|p| p.0 == "--table-name" && p.1 == "table-name"),
        "not found in {:?}",
        params
    );
    assert!(
        params
            .iter()
            .any(|p| p.0 == "--key-condition-expression" && p.1 == "PartitionKey = :pkValue"),
        "not found in {:?}",
        params
    );
}

#[test]
fn test_queue_description() {
    let cmd = use_aws_from_json(
        r#"{
            "service_name": "s3",
            "operation_name": "list-buckets",
            "parameters": {
                "max-items": "10"
            },
            "region": "us-west-2",
            "profile_name": "development",
            "label": "List S3 buckets"
        }"#,
    );

    let mut output = String::new();
    cmd.queue_description(&mut output);
    let output_str = output;

    println!("Generated output: '{}'", output_str);

    assert!(output_str.contains("Running aws cli command:"));
    assert!(output_str.contains("Service name: s3"));
    assert!(output_str.contains("Operation name: list-buckets"));
    assert!(output_str.contains("Parameters:"));
    assert!(output_str.contains("- max-items: \"10\""));
    assert!(output_str.contains("Profile name: development"));
    assert!(output_str.contains("Region: us-west-2"));
    assert!(output_str.contains("Label: List S3 buckets"));
}

#[test]
fn test_queue_description_empty_parameters() {
    let cmd = use_aws_from_json(
        r#"{
            "service_name": "ec2",
            "operation_name": "describe-instances",
            "region": "us-east-1"
        }"#,
    );

    let mut output = String::new();
    cmd.queue_description(&mut output);
    let output_str = output;

    assert!(output_str.contains("Running aws cli command:"));
    assert!(output_str.contains("Service name: ec2"));
    assert!(output_str.contains("Operation name: describe-instances"));
    assert!(output_str.contains("Profile name: default"));
    assert!(output_str.contains("Region: us-east-1"));
    assert!(!output_str.contains("Parameters:"));
}

#[test]
fn test_read_only_prefixes_do_not_require_acceptance() {
    for op in [
        "list-buckets",
        "describe-instances",
        "get-caller-identity",
        "ls",
        "search-resources",
        "batch_get-item",
    ] {
        let cmd = use_aws_from_json(&format!(
            r#"{{"service_name": "s3", "operation_name": "{}", "region": "us-east-1"}}"#,
            op
        ));
        assert!(!cmd.requires_acceptance(), "{} should be read-only", op);
    }
    for op in ["put-object", "delete-bucket", ""] {
        let cmd = use_aws_from_json(&format!(
            r#"{{"service_name": "s3", "operation_name": "{}", "region": "us-east-1"}}"#,
            op
        ));
        assert!(cmd.requires_acceptance(), "{:?} should require acceptance", op);
    }
}

#[test]
fn test_command_args_order_and_empty_value_flag() {
    let cmd = use_aws_from_json(
        r#"{
            "service_name": "dynamodb",
            "operation_name": "query",
            "parameters": {
                "TableName": "people",
                "--dry-run": ""
            },
            "region": "eu-west-1",
            "profile_name": "dev"
        }"#,
    );
    let args = cmd.command_args();
    assert_eq!(
        args,
        vec![
            "--region".to_string(),
            "eu-west-1".to_string(),
            "--profile".to_string(),
            "dev".to_string(),
            "dynamodb".to_string(),
            "query".to_string(),
            "--table-name".to_string(),
            "people".to_string(),
            "--dry-run".to_string(),
        ]
    );
}

#[test]
fn test_command_args_without_profile_or_parameters() {
    let cmd = use_aws_from_json(
        r#"{"service_name": "sts", "operation_name": "get-caller-identity", "region": "us-east-1"}"#,
    );
    let args = cmd.command_args();
    assert_eq!(
        args,
        vec![
            "--region".to_string(),
            "us-east-1".to_string(),
            "sts".to_string(),
            "get-caller-identity".to_string(),
        ]
    );
}

#[test]
fn test_non_string_parameter_uses_json_text() {
    let cmd = use_aws_from_json(
        r#"{
            "service_name": "dynamodb",
            "operation_name": "query",
            "parameters": {"MaxItems": 10},
            "region": "us-east-1"
        }"#,
    );
    let params = cmd.cli_parameters().unwrap();
    assert_eq!(params.len(), 1);
    assert_eq!(params[0].0, "--max-items");
    assert_eq!(params[0].1, "10");

    let mut output = String::new();
    cmd.queue_description(&mut output);
    assert!(output.contains("- MaxItems: 10"));
}

#[test]
fn test_duplicate_parameter_keys_keep_first_binding() {
    let cmd = use_aws_from_json(
        r#"{
            "service_name": "dynamodb",
            "operation_name": "query",
            "parameters": {"TableName": "first", "TableName": "second"},
            "region": "us-east-1"
        }"#,
    );
    let params = cmd.cli_parameters().unwrap();
    assert_eq!(params.len(), 1);
    assert_eq!(params[0].0, "--table-name");
    assert_eq!(params[0].1, "first");
}

#[test]
fn test_truncation_cuts_to_share_with_marker() {
    let long = "a".repeat(25);
    let cut = truncate_stream(&long, 10);
    assert_eq!(cut, format!("{} ... truncated", "a".repeat(10)));

    let short = "hello";
    assert_eq!(truncate_stream(short, 10), "hello");

    let exact = "a".repeat(10);
    assert_eq!(truncate_stream(&exact, 10), exact);
}

#[test]
fn test_truncation_respects_character_boundaries() {
    let s = "aé"; // 'é' takes two bytes; cutting at byte 2 would split it
    let cut = truncate_stream(s, 2);
    assert_eq!(cut, "a ... truncated");
}

#[test]
fn test_user_agent_env_value() {
    assert_eq!(user_agent_env_value(None), "UseAws-MCP-Server Version/0.1.0");
    assert_eq!(user_agent_env_value(Some("")), "UseAws-MCP-Server Version/0.1.0");
    assert_eq!(
        user_agent_env_value(Some("existing")),
        "existing UseAws-MCP-Server Version/0.1.0"
    );
}

#[test]
fn test_decode_rejects_bad_arguments() {
    let value = parse_json(r#"{"service_name": "s3"}"#).unwrap();
    assert!(decode_use_aws_request(&value).is_err());
    let value = parse_json(r#"{"service_name": 3, "operation_name": "x", "region": "r"}"#).unwrap();
    assert!(decode_use_aws_request(&value).is_err());
    let value = parse_json(r#"["not", "an", "object"]"#).unwrap();
    assert!(decode_use_aws_request(&value).is_err());
}
