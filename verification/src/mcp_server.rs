//! The JSON-RPC engine: message classification, dispatch by method name,
//! and response encoding.
//!
//! The engine itself performs no reading, writing or spawning. The caller
//! reads one line at a time, hands it in, performs any pending invocation,
//! and writes the encoded reply back.

use vstd::prelude::*;
use vstd::string::StrSliceExecFns;
use vstd::string::StringExecFns;

use crate::error::McpError;
use crate::json::JsonModel;
use crate::json::JsonValue;
use crate::json::json_text_of;
use crate::json::lookup;
use crate::json::model_fields;
use crate::json::lemma_model_fields;
use crate::json::lemma_model_seq;
use crate::json::model_seq;
use crate::json::to_json_text;
use crate::json::str_eq;
use crate::json::i64_to_string;
use crate::json::dec_int_text;
use crate::json_parse::is_ws_char;
use crate::json_parse::json_document;
use crate::json_parse::parse_json;
use crate::use_aws::UseAws;
use crate::use_aws::UseAwsResponse;
use crate::use_aws::description_text;
use crate::use_aws::decode_use_aws_request;
use crate::use_aws::request_shape;
use crate::use_aws::request_decodes_to;
use crate::use_aws::required_str_field;
use crate::use_aws::process_output;
use crate::use_aws::truncated_stream_text;
use crate::use_aws::stream_share;
use crate::use_aws::UseAwsRequest;

verus! {

/// An inbound JSON-RPC request: it carries an id and is answered.
pub struct JsonRpcRequest {
    pub jsonrpc: String,
    pub id: JsonValue,
    pub method: String,
    pub params: Option<JsonValue>,
}

/// An inbound JSON-RPC notification: no id, never answered.
pub struct JsonRpcNotification {
    pub jsonrpc: String,
    pub method: String,
    pub params: Option<JsonValue>,
}

/// A JSON-RPC error object.
pub struct JsonRpcError {
    pub code: i32,
    pub message: String,
    pub data: Option<JsonValue>,
}

/// An outbound JSON-RPC response: the echoed id with either a result or an
/// error, never both.
pub struct JsonRpcResponse {
    pub jsonrpc: String,
    pub id: JsonValue,
    pub result: Option<JsonValue>,
    pub error: Option<JsonRpcError>,
}

/// One decoded inbound message. A response-shaped message is accepted
/// structurally, carried as the raw value, and always ignored: this peer
/// never issues requests, so nothing correlates with it.
pub enum JsonRpcMessage {
    Request(JsonRpcRequest),
    Response(JsonValue),
    Notification(JsonRpcNotification),
}

/// One tool call: the tool's name and its argument value.
pub struct ToolCall {
    pub name: String,
    pub arguments: JsonValue,
}

/// A tool call the engine has accepted: the caller runs the subprocess and
/// hands the outcome to `finish_tool_call`.
pub struct PendingInvocation {
    pub id: JsonValue,
    pub command: UseAws,
    pub description: String,
}

/// What handling one message asks of the caller.
pub enum Dispatch {
    NoReply,
    Reply(JsonRpcResponse),
    Invoke(PendingInvocation),
}

/// What became of the capability manifest before dispatch: the caller reads
/// the document and parses it with this crate's parser.
pub enum ManifestSource {
    Unreadable(String),
    Unparseable,
    Document(JsonValue),
}

/// How one finished subprocess ended.
pub enum InvocationOutcome {
    Completed { status_code: Option<i32>, stdout: String, stderr: String },
    SpawnFailed { reason: String },
}

/// What one inbound line asks of the caller. A line that decodes to no
/// known message shape is malformed, which ends the session.
pub enum LineOutcome {
    Blank,
    Malformed,
    NoReply,
    Reply(String),
    Invoke(PendingInvocation),
}

/// A request-shaped value: a string `jsonrpc` tag, a string method, an id.
pub open spec fn is_request_shape(m: JsonModel) -> bool {
    match m {
        JsonModel::Obj(fs) => {
            &&& lookup(fs, "jsonrpc"@) matches Option::Some(JsonModel::Str(_))
            &&& lookup(fs, "method"@) matches Option::Some(JsonModel::Str(_))
            &&& lookup(fs, "id"@) is Some
        },
        _ => false,
    }
}

/// A notification-shaped value: as a request, but with no id.
pub open spec fn is_notification_shape(m: JsonModel) -> bool {
    match m {
        JsonModel::Obj(fs) => {
            &&& lookup(fs, "jsonrpc"@) matches Option::Some(JsonModel::Str(_))
            &&& lookup(fs, "method"@) matches Option::Some(JsonModel::Str(_))
            &&& lookup(fs, "id"@) is None
        },
        _ => false,
    }
}

/// A response-shaped value: no method, but an id and a result or error.
pub open spec fn is_response_shape(m: JsonModel) -> bool {
    match m {
        JsonModel::Obj(fs) => {
            &&& lookup(fs, "jsonrpc"@) matches Option::Some(JsonModel::Str(_))
            &&& lookup(fs, "method"@) is None
            &&& lookup(fs, "id"@) is Some
            &&& (lookup(fs, "result"@) is Some || lookup(fs, "error"@) is Some)
        },
        _ => false,
    }
}

/// Whether a decoded request carries exactly the fields of the value.
pub open spec fn request_matches(m: JsonModel, req: JsonRpcRequest) -> bool {
    match m {
        JsonModel::Obj(fs) => {
            &&& lookup(fs, "jsonrpc"@) == Option::Some(JsonModel::Str(req.jsonrpc@))
            &&& lookup(fs, "method"@) == Option::Some(JsonModel::Str(req.method@))
            &&& lookup(fs, "id"@) == Option::Some(req.id@)
            &&& (match req.params {
                Option::Some(p) => lookup(fs, "params"@) == Option::Some(p@),
                Option::None => lookup(fs, "params"@) is None,
            })
        },
        _ => false,
    }
}

/// Whether a decoded notification carries exactly the fields of the value.
pub open spec fn notification_matches(m: JsonModel, n: JsonRpcNotification) -> bool {
    match m {
        JsonModel::Obj(fs) => {
            &&& lookup(fs, "jsonrpc"@) == Option::Some(JsonModel::Str(n.jsonrpc@))
            &&& lookup(fs, "method"@) == Option::Some(JsonModel::Str(n.method@))
            &&& (match n.params {
                Option::Some(p) => lookup(fs, "params"@) == Option::Some(p@),
                Option::None => lookup(fs, "params"@) is None,
            })
        },
        _ => false,
    }
}

/// Sorts one decoded value into request, notification, or ignored
/// response, by the presence of its `method` and `id` fields; a value of no
/// known shape is rejected.
pub fn classify_message(v: &JsonValue) -> (r: Option<JsonRpcMessage>)
    ensures
        match r {
            Option::Some(JsonRpcMessage::Request(req)) => is_request_shape(v@) && request_matches(
                v@,
                req,
            ),
            Option::Some(JsonRpcMessage::Notification(n)) => is_notification_shape(v@)
                && notification_matches(v@, n),
            Option::Some(JsonRpcMessage::Response(raw)) => is_response_shape(v@) && raw@ == v@,
            Option::None => !is_request_shape(v@) && !is_notification_shape(v@)
                && !is_response_shape(v@),
        },
{
    let jsonrpc = match required_str_field(v, "jsonrpc") {
        Option::Some(s) => s,
        Option::None => {
            return Option::None;
        },
    };
    match v.get("method") {
        Option::Some(w) => {
            let method = match w.as_str() {
                Option::Some(s) => s.to_owned(),
                Option::None => {
                    return Option::None;
                },
            };
            let params = match v.get("params") {
                Option::Some(p) => Option::Some(p.duplicate()),
                Option::None => Option::None,
            };
            match v.get("id") {
                Option::Some(idv) => Option::Some(
                    JsonRpcMessage::Request(
                        JsonRpcRequest { jsonrpc, id: idv.duplicate(), method, params },
                    ),
                ),
                Option::None => Option::Some(
                    JsonRpcMessage::Notification(JsonRpcNotification { jsonrpc, method, params }),
                ),
            }
        },
        Option::None => {
            if v.get("id").is_some() {
                let has_result = v.get("result").is_some();
                let has_error = v.get("error").is_some();
                if has_result || has_error {
                    Option::Some(JsonRpcMessage::Response(v.duplicate()))
                } else {
                    Option::None
                }
            } else {
                Option::None
            }
        },
    }
}

/// The JSON object a [`JsonRpcError`] encodes to: `data` omitted when
/// absent.
pub open spec fn error_model(e: JsonRpcError) -> JsonModel {
    JsonModel::Obj(
        seq![("code"@, JsonModel::Num(dec_int_text(e.code as int))), ("message"@, JsonModel::Str(e.message@))]
            + (match e.data {
            Option::Some(d) => seq![("data"@, d@)],
            Option::None => Seq::<(Seq<char>, JsonModel)>::empty(),
        }),
    )
}

/// The JSON object a [`JsonRpcResponse`] encodes to: `result` and `error`
/// each omitted when absent.
pub open spec fn response_model(r: JsonRpcResponse) -> JsonModel {
    JsonModel::Obj(
        seq![("jsonrpc"@, JsonModel::Str(r.jsonrpc@)), ("id"@, r.id@)] + (match r.result {
            Option::Some(v) => seq![("result"@, v@)],
            Option::None => Seq::<(Seq<char>, JsonModel)>::empty(),
        }) + (match r.error {
            Option::Some(e) => seq![("error"@, error_model(e))],
            Option::None => Seq::<(Seq<char>, JsonModel)>::empty(),
        }),
    )
}

/// A well-formed response: exactly one of result and error is present.
pub open spec fn response_wf(r: JsonRpcResponse) -> bool {
    (r.result is Some) != (r.error is Some)
}

/// Encodes one response as a single line of JSON text.
pub fn encode_response(resp: &JsonRpcResponse) -> (r: String)
    ensures
        r@ == json_text_of(response_model(*resp)),
{
    let mut fields: Vec<(String, JsonValue)> = Vec::new();
    fields.push((String::from_str("jsonrpc"), JsonValue::Str(resp.jsonrpc.clone())));
    fields.push((String::from_str("id"), resp.id.duplicate()));
    match &resp.result {
        Option::Some(v) => {
            fields.push((String::from_str("result"), v.duplicate()));
        },
        Option::None => {},
    }
    match &resp.error {
        Option::Some(e) => {
            let mut efields: Vec<(String, JsonValue)> = Vec::new();
            efields.push((String::from_str("code"), JsonValue::Num(i64_to_string(e.code as i64))));
            efields.push((String::from_str("message"), JsonValue::Str(e.message.clone())));
            match &e.data {
                Option::Some(d) => {
                    efields.push((String::from_str("data"), d.duplicate()));
                },
                Option::None => {},
            }
            proof {
                lemma_model_fields(efields@);
                assert(model_fields(efields@) =~= error_model(*e)->Obj_0);
            }
            fields.push((String::from_str("error"), JsonValue::Obj(efields)));
        },
        Option::None => {},
    }
    let value = JsonValue::Obj(fields);
    proof {
        lemma_model_fields(value->Obj_0@);
        assert(model_fields(value->Obj_0@) =~= response_model(*resp)->Obj_0);
    }
    to_json_text(&value)
}

/// An error response: the echoed id, no result, and the given code and
/// message.
pub open spec fn is_error_response(
    r: JsonRpcResponse,
    id: JsonModel,
    code: int,
    msg: Seq<char>,
) -> bool {
    &&& r.jsonrpc@ == "2.0"@
    &&& r.id@ == id
    &&& r.result is None
    &&& r.error matches Option::Some(e) && e.code as int == code && e.message@ == msg && e.data
        is None
}

/// A success response: the echoed id, the given result, and no error.
pub open spec fn is_success_response(r: JsonRpcResponse, id: JsonModel, result: JsonModel) -> bool {
    &&& r.jsonrpc@ == "2.0"@
    &&& r.id@ == id
    &&& r.result matches Option::Some(v) && v@ == result
    &&& r.error is None
}

/// Builds an error response.
fn error_response(id: JsonValue, code: i32, message: String) -> (r: JsonRpcResponse)
    ensures
        is_error_response(r, id@, code as int, message@),
        response_wf(r),
{
    JsonRpcResponse {
        jsonrpc: String::from_str("2.0"),
        id,
        result: Option::None,
        error: Option::Some(JsonRpcError { code, message, data: Option::None }),
    }
}

/// Builds a success response.
fn success_response(id: JsonValue, result: JsonValue) -> (r: JsonRpcResponse)
    ensures
        is_success_response(r, id@, result@),
        response_wf(r),
{
    JsonRpcResponse {
        jsonrpc: String::from_str("2.0"),
        id,
        result: Option::Some(result),
        error: Option::None,
    }
}

/// The static capability document returned by `initialize`.
pub open spec fn capabilities_model() -> JsonModel {
    JsonModel::Obj(
        seq![
            ("protocolVersion"@, JsonModel::Str("2024-11-05"@)),
            (
                "capabilities"@,
                JsonModel::Obj(
                    seq![("tools"@, JsonModel::Obj(seq![("listChanged"@, JsonModel::Bool(true))]))],
                ),
            ),
            (
                "serverInfo"@,
                JsonModel::Obj(
                    seq![("name"@, JsonModel::Str("use_aws"@)), ("version"@, JsonModel::Str("0.1.0"@))],
                ),
            ),
        ],
    )
}

/// A tool-call parameter value of the right shape: a string name and any
/// argument value.
pub open spec fn tool_call_shape(m: JsonModel) -> bool {
    match m {
        JsonModel::Obj(fs) => lookup(fs, "name"@) matches Option::Some(JsonModel::Str(_))
            && lookup(fs, "arguments"@) is Some,
        _ => false,
    }
}

/// The tool name of a tool-call parameter value of the right shape.
pub open spec fn tool_call_name(m: JsonModel) -> Seq<char> {
    match m {
        JsonModel::Obj(fs) => match lookup(fs, "name"@) {
            Option::Some(JsonModel::Str(s)) => s,
            _ => Seq::empty(),
        },
        _ => Seq::empty(),
    }
}

/// The arguments of a tool-call parameter value of the right shape.
pub open spec fn tool_call_arguments(m: JsonModel) -> JsonModel {
    match m {
        JsonModel::Obj(fs) => match lookup(fs, "arguments"@) {
            Option::Some(a) => a,
            _ => JsonModel::Null,
        },
        _ => JsonModel::Null,
    }
}

/// The command a decoded request stands for: the same fields.
pub open spec fn command_of(u: UseAwsRequest) -> UseAws {
    UseAws {
        service_name: u.service_name,
        operation_name: u.operation_name,
        parameters: u.parameters,
        region: u.region,
        profile_name: u.profile_name,
        label: u.label,
    }
}

/// What `handle_tool_call` promises: each malformed stage is answered with
/// the fitting error, a wrong tool name with the method-not-found code, and
/// a well-formed call becomes a pending invocation that carries the decoded
/// command and its rendered description.
pub open spec fn tool_call_step_ok(request: JsonRpcRequest, r: Dispatch) -> bool {
    let pm = request.params->Some_0@;
    &&& (request.params is None ==> (r matches Dispatch::Reply(resp) && is_error_response(
        resp,
        request.id@,
        -32602,
        "Missing params for tools/call"@,
    )))
    &&& (request.params is Some && !tool_call_shape(pm) ==> (r matches Dispatch::Reply(resp)
        && is_error_response(resp, request.id@, -32602, "Invalid params for tools/call"@)))
    &&& (request.params is Some && tool_call_shape(pm) && tool_call_name(pm) != "use_aws"@ ==> (
    r matches Dispatch::Reply(resp) && is_error_response(
        resp,
        request.id@,
        -32601,
        "Tool '"@ + tool_call_name(pm) + "' not found"@,
    )))
    &&& (request.params is Some && tool_call_shape(pm) && tool_call_name(pm) == "use_aws"@
        && !request_shape(tool_call_arguments(pm)) ==> (r matches Dispatch::Reply(resp)
        && is_error_response(
        resp,
        request.id@,
        -32603,
        "Failed to deserialize use_aws arguments"@,
    )))
    &&& (request.params is Some && tool_call_shape(pm) && tool_call_name(pm) == "use_aws"@
        && request_shape(tool_call_arguments(pm)) ==> (r matches Dispatch::Invoke(pi) && pi.id@
        == request.id@ && (exists|u: UseAwsRequest|
        request_decodes_to(tool_call_arguments(pm), u) && pi.command == command_of(u))
        && pi.description@ == description_text(pi.command)))
}

/// The serialized result of a successful invocation: exit status zero and
/// the two captured streams, each truncated to its share of the budget.
pub open spec fn invocation_response_text(out: Seq<char>, err: Seq<char>) -> Seq<char> {
    json_text_of(
        JsonModel::Obj(
            seq![
                ("exit_status"@, JsonModel::Str(dec_int_text(0))),
                ("stdout"@, JsonModel::Str(truncated_stream_text(out, stream_share()))),
                ("stderr"@, JsonModel::Str(truncated_stream_text(err, stream_share()))),
            ],
        ),
    )
}

/// The result object of a successful tool call: one text content entry
/// holding the description, a blank line, and the serialized result.
pub open spec fn tool_result_model(desc: Seq<char>, out: Seq<char>, err: Seq<char>) -> JsonModel {
    JsonModel::Obj(
        seq![
            (
                "content"@,
                JsonModel::Arr(
                    seq![
                        JsonModel::Obj(
                            seq![
                                ("type"@, JsonModel::Str("text"@)),
                                (
                                    "text"@,
                                    JsonModel::Str(
                                        desc + "\n\nResult:\n"@ + invocation_response_text(
                                            out,
                                            err,
                                        ),
                                    ),
                                ),
                            ],
                        ),
                    ],
                ),
            ),
        ],
    )
}

/// What `handle_tools_list` promises for each state of the manifest.
pub open spec fn tools_list_step_ok(
    id: JsonModel,
    manifest: ManifestSource,
    resp: JsonRpcResponse,
) -> bool {
    match manifest {
        ManifestSource::Unreadable(reason) => is_error_response(
            resp,
            id,
            -32603,
            "Failed to read schema.json: "@ + reason@,
        ),
        ManifestSource::Unparseable => is_error_response(
            resp,
            id,
            -32603,
            "Failed to parse schema.json"@,
        ),
        ManifestSource::Document(doc) => match doc@ {
            JsonModel::Obj(fs) => match lookup(fs, "tools"@) {
                Option::Some(t) => is_success_response(
                    resp,
                    id,
                    JsonModel::Obj(seq![("tools"@, t)]),
                ),
                Option::None => is_error_response(
                    resp,
                    id,
                    -32603,
                    "schema.json does not contain a 'tools' key"@,
                ),
            },
            _ => is_error_response(resp, id, -32603, "schema.json does not contain a 'tools' key"@),
        },
    }
}

/// What `handle_request` promises, method by method.
pub open spec fn request_step_ok(
    request: JsonRpcRequest,
    manifest: ManifestSource,
    r: Dispatch,
) -> bool {
    &&& (request.method@ == "initialize"@ ==> (r matches Dispatch::Reply(resp)
        && is_success_response(resp, request.id@, capabilities_model()) && response_wf(resp)))
    &&& (request.method@ == "tools/list"@ ==> (r matches Dispatch::Reply(resp)
        && tools_list_step_ok(request.id@, manifest, resp) && response_wf(resp)))
    &&& (request.method@ == "tools/call"@ ==> tool_call_step_ok(request, r))
    &&& (request.method@ != "initialize"@ && request.method@ != "tools/list"@ && request.method@
        != "tools/call"@ ==> (r matches Dispatch::Reply(resp) && is_error_response(
        resp,
        request.id@,
        -32601,
        "Method '"@ + request.method@ + "' not found"@,
    )))
}

/// The protocol engine. It holds no I/O: the caller reads lines, hands them
/// in, performs invocations, and writes the replies back.
pub struct AwsMcpServer {}

impl AwsMcpServer {
    /// A fresh engine.
    pub fn new() -> (r: Self)
        ensures
            r == (AwsMcpServer {  }),
    {
        AwsMcpServer {  }
    }

    /// Answers `initialize` with the static capability document.
    pub fn handle_initialize(&self, request: JsonRpcRequest) -> (r: JsonRpcResponse)
        ensures
            is_success_response(r, request.id@, capabilities_model()),
            response_wf(r),
    {
        let mut tools_caps: Vec<(String, JsonValue)> = Vec::new();
        tools_caps.push((String::from_str("listChanged"), JsonValue::Bool(true)));
        proof {
            lemma_model_fields(tools_caps@);
            assert(model_fields(tools_caps@) =~= seq![("listChanged"@, JsonModel::Bool(true))]);
        }
        let ghost m_tools = model_fields(tools_caps@);
        let mut caps: Vec<(String, JsonValue)> = Vec::new();
        caps.push((String::from_str("tools"), JsonValue::Obj(tools_caps)));
        proof {
            lemma_model_fields(caps@);
            assert(model_fields(caps@) =~= seq![("tools"@, JsonModel::Obj(m_tools))]);
        }
        let ghost m_caps = model_fields(caps@);
        let mut info: Vec<(String, JsonValue)> = Vec::new();
        info.push((String::from_str("name"), JsonValue::Str(String::from_str("use_aws"))));
        info.push((String::from_str("version"), JsonValue::Str(String::from_str("0.1.0"))));
        proof {
            lemma_model_fields(info@);
            assert(model_fields(info@) =~= seq![
                ("name"@, JsonModel::Str("use_aws"@)),
                ("version"@, JsonModel::Str("0.1.0"@)),
            ]);
        }
        let ghost m_info = model_fields(info@);
        let mut top: Vec<(String, JsonValue)> = Vec::new();
        top.push(
            (String::from_str("protocolVersion"), JsonValue::Str(String::from_str("2024-11-05"))),
        );
        top.push((String::from_str("capabilities"), JsonValue::Obj(caps)));
        top.push((String::from_str("serverInfo"), JsonValue::Obj(info)));
        proof {
            lemma_model_fields(top@);
            assert(model_fields(top@) =~= capabilities_model()->Obj_0);
        }
        success_response(request.id, JsonValue::Obj(top))
    }

    /// Answers `tools/list` from the capability manifest the caller read:
    /// the document's `tools` entry on success, an internal error when the
    /// document is unreadable, unparseable, or lacks that key.
    pub fn handle_tools_list(&self, request: JsonRpcRequest, manifest: &ManifestSource) -> (r:
        JsonRpcResponse)
        ensures
            tools_list_step_ok(request.id@, *manifest, r),
            response_wf(r),
    {
        match manifest {
            ManifestSource::Unreadable(reason) => {
                let mut msg = String::from_str("Failed to read schema.json: ");
                msg.append(reason.as_str());
                error_response(request.id, -32603, msg)
            },
            ManifestSource::Unparseable => {
                error_response(request.id, -32603, String::from_str("Failed to parse schema.json"))
            },
            ManifestSource::Document(doc) => {
                match doc.get("tools") {
                    Option::Some(t) => {
                        let mut fields: Vec<(String, JsonValue)> = Vec::new();
                        fields.push((String::from_str("tools"), t.duplicate()));
                        proof {
                            lemma_model_fields(fields@);
                            assert(model_fields(fields@) =~= seq![("tools"@, t@)]);
                        }
                        success_response(request.id, JsonValue::Obj(fields))
                    },
                    Option::None => error_response(
                        request.id,
                        -32603,
                        String::from_str("schema.json does not contain a 'tools' key"),
                    ),
                }
            },
        }
    }

    /// Checks a `tools/call` request and, when it is well formed and names
    /// the one registered tool, hands back the decoded command with its
    /// rendered description for the caller to run.
    pub fn handle_tool_call(&self, request: JsonRpcRequest) -> (r: Dispatch)
        ensures
            tool_call_step_ok(request, r),
    {
        let params = match request.params {
            Option::Some(p) => p,
            Option::None => {
                return Dispatch::Reply(
                    error_response(
                        request.id,
                        -32602,
                        String::from_str("Missing params for tools/call"),
                    ),
                );
            },
        };
        let name = match required_str_field(&params, "name") {
            Option::Some(s) => s,
            Option::None => {
                return Dispatch::Reply(
                    error_response(
                        request.id,
                        -32602,
                        String::from_str("Invalid params for tools/call"),
                    ),
                );
            },
        };
        let arguments_present = params.get("arguments").is_some();
        if !arguments_present {
            return Dispatch::Reply(
                error_response(
                    request.id,
                    -32602,
                    String::from_str("Invalid params for tools/call"),
                ),
            );
        }
        if !str_eq(name.as_str(), "use_aws") {
            let mut msg = String::from_str("Tool '");
            msg.append(name.as_str());
            msg.append("' not found");
            proof {
                assert(msg@ =~= "Tool '"@ + tool_call_name(params@) + "' not found"@);
            }
            return Dispatch::Reply(error_response(request.id, -32601, msg));
        }
        let arguments = match params.get("arguments") {
            Option::Some(a) => a,
            Option::None => {
                proof {
                    assert(false);
                }
                return Dispatch::Reply(
                    error_response(
                        request.id,
                        -32602,
                        String::from_str("Invalid params for tools/call"),
                    ),
                );
            },
        };
        let use_aws_request = match decode_use_aws_request(arguments) {
            Ok(u) => u,
            Err(_) => {
                return Dispatch::Reply(
                    error_response(
                        request.id,
                        -32603,
                        String::from_str("Failed to deserialize use_aws arguments"),
                    ),
                );
            },
        };
        let ghost gu = use_aws_request;
        let command = UseAws::from(use_aws_request);
        let mut description = String::new();
        command.queue_description(&mut description);
        proof {
            assert(command == command_of(gu));
            assert(request_decodes_to(tool_call_arguments(params@), gu));
        }
        Dispatch::Invoke(PendingInvocation { id: request.id, command, description })
    }

    /// Dispatches one request by method name; an unknown method is answered
    /// with the method-not-found error inside a normal response.
    pub fn handle_request(&self, request: JsonRpcRequest, manifest: &ManifestSource) -> (r:
        Dispatch)
        ensures
            request_step_ok(request, *manifest, r),
    {
        proof {
            reveal_strlit("initialize");
            reveal_strlit("tools/list");
            reveal_strlit("tools/call");
            assert("initialize"@ != "tools/list"@) by {
                assert("initialize"@[0] != "tools/list"@[0]);
            }
            assert("initialize"@ != "tools/call"@) by {
                assert("initialize"@[0] != "tools/call"@[0]);
            }
            assert("tools/list"@ != "tools/call"@) by {
                assert("tools/list"@[6] != "tools/call"@[6]);
            }
        }
        if str_eq(request.method.as_str(), "initialize") {
            let resp = self.handle_initialize(request);
            Dispatch::Reply(resp)
        } else if str_eq(request.method.as_str(), "tools/list") {
            let resp = self.handle_tools_list(request, manifest);
            Dispatch::Reply(resp)
        } else if str_eq(request.method.as_str(), "tools/call") {
            self.handle_tool_call(request)
        } else {
            let mut msg = String::from_str("Method '");
            msg.append(request.method.as_str());
            msg.append("' not found");
            proof {
                assert(msg@ =~= "Method '"@ + request.method@ + "' not found"@);
            }
            Dispatch::Reply(error_response(request.id, -32601, msg))
        }
    }

    /// Acknowledges a notification; none produces a reply or an error.
    pub fn handle_notification(&self, _notification: JsonRpcNotification) -> (r: Result<
        (),
        McpError,
    >)
        ensures
            r is Ok,
    {
        Ok(())
    }

    /// Turns one finished invocation into the call's response: success
    /// composes the description and the serialized result into one text
    /// content entry; a non-zero exit or a spawn failure becomes the tool
    /// execution error, carrying the truncated stderr or the failure reason.
    pub fn finish_tool_call(
        &self,
        id: JsonValue,
        description: String,
        outcome: InvocationOutcome,
    ) -> (r: JsonRpcResponse)
        ensures
            response_wf(r),
            outcome matches InvocationOutcome::SpawnFailed { reason } ==> is_error_response(
                r,
                id@,
                -32000,
                reason@,
            ),
            outcome matches InvocationOutcome::Completed { status_code, stdout, stderr } ==> {
                if (status_code matches Option::Some(c) && c != 0) {
                    is_error_response(
                        r,
                        id@,
                        -32000,
                        truncated_stream_text(stderr@, stream_share()),
                    )
                } else {
                    is_success_response(
                        r,
                        id@,
                        tool_result_model(description@, stdout@, stderr@),
                    )
                }
            },
    {
        match outcome {
            InvocationOutcome::SpawnFailed { reason } => {
                error_response(id, -32000, reason)
            },
            InvocationOutcome::Completed { status_code, stdout, stderr } => {
                match process_output(status_code, stdout.as_str(), stderr.as_str()) {
                    Ok(output) => {
                        let response = UseAwsResponse::from_output(output);
                        proof {
                            reveal_strlit("exit_status");
                            reveal_strlit("stdout");
                            reveal_strlit("stderr");
                            assert("exit_status"@ != "stdout"@) by {
                                assert("exit_status"@.len() != "stdout"@.len());
                            }
                            assert("exit_status"@ != "stderr"@) by {
                                assert("exit_status"@.len() != "stderr"@.len());
                            }
                            assert("stdout"@ != "stderr"@) by {
                                assert("stdout"@[3] != "stderr"@[3]);
                            }
                        }
                        let serialized = response.serialize();
                        proof {
                            let irm = crate::use_aws::invocation_result_model(
                                0,
                                stdout@,
                                stderr@,
                            );
                            let ifs = irm->Obj_0;
                            assert(ifs.skip(1) =~= seq![
                                (
                                    "stdout"@,
                                    JsonModel::Str(
                                        truncated_stream_text(stdout@, stream_share()),
                                    ),
                                ),
                                (
                                    "stderr"@,
                                    JsonModel::Str(
                                        truncated_stream_text(stderr@, stream_share()),
                                    ),
                                ),
                            ]);
                            assert(ifs.skip(1).skip(1) =~= seq![
                                (
                                    "stderr"@,
                                    JsonModel::Str(
                                        truncated_stream_text(stderr@, stream_share()),
                                    ),
                                ),
                            ]);
                            assert(lookup(ifs, "exit_status"@) == Option::Some(
                                JsonModel::Str(dec_int_text(0)),
                            ));
                            assert(lookup(ifs.skip(1), "stdout"@) == Option::Some(
                                JsonModel::Str(truncated_stream_text(stdout@, stream_share())),
                            ));
                            assert(lookup(ifs, "stdout"@) == Option::Some(
                                JsonModel::Str(truncated_stream_text(stdout@, stream_share())),
                            ));
                            assert(lookup(ifs.skip(1).skip(1), "stderr"@) == Option::Some(
                                JsonModel::Str(truncated_stream_text(stderr@, stream_share())),
                            ));
                            assert(lookup(ifs.skip(1), "stderr"@) == Option::Some(
                                JsonModel::Str(truncated_stream_text(stderr@, stream_share())),
                            ));
                            assert(lookup(ifs, "stderr"@) == Option::Some(
                                JsonModel::Str(truncated_stream_text(stderr@, stream_share())),
                            ));
                            assert(crate::use_aws::use_aws_response_model(response)->Obj_0 =~= seq![
                                ("exit_status"@, JsonModel::Str(dec_int_text(0))),
                                (
                                    "stdout"@,
                                    JsonModel::Str(
                                        truncated_stream_text(stdout@, stream_share()),
                                    ),
                                ),
                                (
                                    "stderr"@,
                                    JsonModel::Str(
                                        truncated_stream_text(stderr@, stream_share()),
                                    ),
                                ),
                            ]);
                            assert(serialized@ == invocation_response_text(stdout@, stderr@));
                        }
                        let mut text = description;
                        text.append("\n\nResult:\n");
                        text.append(serialized.as_str());
                        let mut entry: Vec<(String, JsonValue)> = Vec::new();
                        entry.push((String::from_str("type"), JsonValue::Str(String::from_str("text"))));
                        entry.push((String::from_str("text"), JsonValue::Str(text)));
                        proof {
                            lemma_model_fields(entry@);
                        }
                        let ghost m_entry = model_fields(entry@);
                        let mut items: Vec<JsonValue> = Vec::new();
                        items.push(JsonValue::Obj(entry));
                        proof {
                            lemma_model_seq(items@);
                        }
                        let ghost m_items = model_seq(items@);
                        let mut fields: Vec<(String, JsonValue)> = Vec::new();
                        fields.push((String::from_str("content"), JsonValue::Arr(items)));
                        let value = JsonValue::Obj(fields);
                        proof {
                            lemma_model_fields(value->Obj_0@);
                            assert(m_items =~= seq![JsonModel::Obj(m_entry)]);
                            assert(m_entry =~= tool_result_model(
                                description@,
                                stdout@,
                                stderr@,
                            )->Obj_0[0].1->Arr_0[0]->Obj_0);
                            assert(model_fields(value->Obj_0@) =~= tool_result_model(
                                description@,
                                stdout@,
                                stderr@,
                            )->Obj_0);
                        }
                        success_response(id, value)
                    },
                    Err(e) => {
                        let message = match e {
                            McpError::AwsCli(m) => m,
                            _ => {
                                proof {
                                    assert(false);
                                }
                                String::new()
                            },
                        };
                        error_response(id, -32000, message)
                    },
                }
            },
        }
    }

    /// Routes one decoded message: a request is dispatched, a notification
    /// is acknowledged without a reply, and a response-shaped message is
    /// discarded.
    pub fn handle_message(&self, message: JsonRpcMessage, manifest: &ManifestSource) -> (r:
        Dispatch)
        ensures
            match message {
                JsonRpcMessage::Request(req) => request_step_ok(req, *manifest, r),
                JsonRpcMessage::Notification(_) => r is NoReply,
                JsonRpcMessage::Response(_) => r is NoReply,
            },
    {
        match message {
            JsonRpcMessage::Request(request) => self.handle_request(request, manifest),
            JsonRpcMessage::Notification(notification) => {
                let _ = self.handle_notification(notification);
                Dispatch::NoReply
            },
            JsonRpcMessage::Response(_) => Dispatch::NoReply,
        }
    }

    /// Generate a human-readable description of a tool call: the decoded
    /// command's rendering, a fixed note for an unknown tool, and an error
    /// when the arguments do not decode.
    pub fn generate_tool_description(&self, tool_call: &ToolCall) -> (r: Result<String, McpError>)
        ensures
            tool_call.name@ != "use_aws"@ ==> (r matches Ok(s) && s@ == "Unknown tool: "@
                + tool_call.name@),
            tool_call.name@ == "use_aws"@ && request_shape(tool_call.arguments@) ==> (r matches Ok(
                s,
            ) && (exists|u: UseAwsRequest|
                request_decodes_to(tool_call.arguments@, u) && s@ == description_text(
                    command_of(u),
                ))),
            tool_call.name@ == "use_aws"@ && !request_shape(tool_call.arguments@) ==> r is Err,
    {
        if !str_eq(tool_call.name.as_str(), "use_aws") {
            let mut s = String::from_str("Unknown tool: ");
            s.append(tool_call.name.as_str());
            return Ok(s);
        }
        let use_aws_request = match decode_use_aws_request(&tool_call.arguments) {
            Ok(u) => u,
            Err(e) => {
                return Err(e);
            },
        };
        let ghost gu = use_aws_request;
        let command = UseAws::from(use_aws_request);
        let mut output = String::new();
        command.queue_description(&mut output);
        proof {
            assert(request_decodes_to(tool_call.arguments@, gu) && output@ == description_text(
                command_of(gu),
            ));
        }
        Ok(output)
    }

    /// Handles one inbound line: a blank line asks for nothing, a line that
    /// does not decode to a known message shape is malformed and fatal, and
    /// a decoded message is dispatched; a reply comes back already encoded.
    pub fn handle_line(&self, line: &str, manifest: &ManifestSource) -> (r: LineOutcome)
        ensures
            r is Blank <==> all_ws(line@),
            !all_ws(line@) ==> line_outcome_ok(line@, *manifest, r),
    {
        if line_is_blank(line) {
            return LineOutcome::Blank;
        }
        let value = match parse_json(line) {
            Option::Some(v) => v,
            Option::None => {
                return LineOutcome::Malformed;
            },
        };
        let message = match classify_message(&value) {
            Option::Some(m) => m,
            Option::None => {
                return LineOutcome::Malformed;
            },
        };
        let ghost gm = message;
        let step = self.handle_message(message, manifest);
        let ghost gd = step;
        match step {
            Dispatch::NoReply => {
                proof {
                    if gm is Request {
                        assert(request_matches(value@, gm->Request_0) && request_step_ok(
                            gm->Request_0,
                            *manifest,
                            gd,
                        ) && dispatch_outcome_matches(gd, LineOutcome::NoReply));
                    }
                }
                LineOutcome::NoReply
            },
            Dispatch::Reply(resp) => {
                let text = encode_response(&resp);
                let ghost outcome = LineOutcome::Reply(text);
                proof {
                    assert(dispatch_outcome_matches(gd, outcome));
                    if gm is Request {
                        assert(request_matches(value@, gm->Request_0) && request_step_ok(
                            gm->Request_0,
                            *manifest,
                            gd,
                        ));
                    }
                }
                LineOutcome::Reply(text)
            },
            Dispatch::Invoke(pi) => {
                let ghost outcome = LineOutcome::Invoke(pi);
                proof {
                    assert(dispatch_outcome_matches(gd, outcome));
                    if gm is Request {
                        assert(request_matches(value@, gm->Request_0) && request_step_ok(
                            gm->Request_0,
                            *manifest,
                            gd,
                        ));
                    }
                }
                LineOutcome::Invoke(pi)
            },
        }
    }
}

/// How a line outcome reflects a dispatch: nothing for no reply, the
/// encoded text of a reply, the pending invocation handed through.
pub open spec fn dispatch_outcome_matches(d: Dispatch, r: LineOutcome) -> bool {
    match d {
        Dispatch::NoReply => r is NoReply,
        Dispatch::Reply(resp) => r matches LineOutcome::Reply(t) && t@ == json_text_of(
            response_model(resp),
        ),
        Dispatch::Invoke(pi) => r matches LineOutcome::Invoke(pj) && pj == pi,
    }
}

/// What one non-blank line yields: malformed exactly when it is not a JSON
/// document of a known message shape; a notification or response-shaped
/// document asks for nothing; a request-shaped document is dispatched, and
/// the outcome carries the dispatch's reply or pending invocation.
pub open spec fn line_outcome_ok(line: Seq<char>, manifest: ManifestSource, r: LineOutcome) -> bool {
    let jd = json_document(line);
    &&& !(r is Blank)
    &&& (r is Malformed <==> (jd is None || !(is_request_shape(jd->Some_0)
        || is_notification_shape(jd->Some_0) || is_response_shape(jd->Some_0))))
    &&& (jd is Some && (is_notification_shape(jd->Some_0) || is_response_shape(jd->Some_0))
        ==> r is NoReply)
    &&& (jd is Some && is_request_shape(jd->Some_0) ==> (exists|req: JsonRpcRequest, d: Dispatch|
        request_matches(jd->Some_0, req) && request_step_ok(req, manifest, d)
            && dispatch_outcome_matches(d, r)))
}

impl Default for AwsMcpServer {
    /// The same engine `new` builds.
    fn default() -> (r: Self)
        ensures
            r == (AwsMcpServer {  }),
    {
        AwsMcpServer::new()
    }
}

/// A line of nothing but whitespace.
pub open spec fn all_ws(s: Seq<char>) -> bool {
    forall|i: int| 0 <= i < s.len() ==> is_ws_char(s[i])
}

/// The exec counterpart of `all_ws`.
fn line_is_blank(line: &str) -> (r: bool)
    ensures
        r == all_ws(line@),
{
    let n: usize = line.unicode_len();
    let mut i: usize = 0;
    while i < n
        invariant
            n == line@.len(),
            i <= n,
            forall|k: int| 0 <= k < i ==> is_ws_char(line@[k]),
        decreases n - i,
    {
        let c = line.get_char(i);
        if !(c == ' ' || c == '\t' || c == '\n' || c == '\r') {
            return false;
        }
        i = i + 1;
    }
    true
}

/// What `lookup` returns on a three-member list.
proof fn lemma_lookup3(
    fs: Seq<(Seq<char>, JsonModel)>,
    k0: Seq<char>,
    v0: JsonModel,
    k1: Seq<char>,
    v1: JsonModel,
    k2: Seq<char>,
    v2: JsonModel,
    key: Seq<char>,
)
    requires
        fs =~= seq![(k0, v0), (k1, v1), (k2, v2)],
    ensures
        lookup(fs, key) == (if key == k0 {
            Option::Some(v0)
        } else if key == k1 {
            Option::Some(v1)
        } else if key == k2 {
            Option::Some(v2)
        } else {
            Option::<JsonModel>::None
        }),
{
    assert(fs.skip(1) =~= seq![(k1, v1), (k2, v2)]);
    assert(fs.skip(1).skip(1) =~= seq![(k2, v2)]);
    assert(fs.skip(1).skip(1).skip(1) =~= Seq::<(Seq<char>, JsonModel)>::empty());
    assert(lookup(fs.skip(1).skip(1).skip(1), key) is None);
    assert(lookup(fs.skip(1).skip(1), key) == (if key == k2 {
        Option::Some(v2)
    } else {
        Option::<JsonModel>::None
    }));
    assert(lookup(fs.skip(1), key) == (if key == k1 {
        Option::Some(v1)
    } else if key == k2 {
        Option::Some(v2)
    } else {
        Option::<JsonModel>::None
    }));
}

/// The round trip of an outbound response: encoding a well-formed response
/// yields a value that decodes back to the response shape, with `error`
/// absent exactly when `result` is present — never both, never neither.
pub proof fn lemma_response_round_trip(resp: JsonRpcResponse)
    requires
        response_wf(resp),
    ensures
        is_response_shape(response_model(resp)),
        !is_request_shape(response_model(resp)),
        !is_notification_shape(response_model(resp)),
        response_model(resp) matches JsonModel::Obj(fs) && (lookup(fs, "result"@) is Some <==> resp.result is Some)
            && (lookup(fs, "error"@) is Some <==> resp.error is Some) && (lookup(fs, "result"@)
            is Some <==> lookup(fs, "error"@) is None),
{
    reveal_strlit("jsonrpc");
    reveal_strlit("id");
    reveal_strlit("method");
    reveal_strlit("result");
    reveal_strlit("error");
    assert("jsonrpc"@ != "id"@ && "jsonrpc"@ != "method"@ && "jsonrpc"@ != "result"@ && "jsonrpc"@
        != "error"@) by {
        assert("jsonrpc"@.len() == 7 && "id"@.len() == 2 && "method"@.len() == 6 && "result"@.len()
            == 6 && "error"@.len() == 5);
        assert("jsonrpc"@[0] != "method"@[0] || "jsonrpc"@.len() != "method"@.len());
    }
    assert("id"@ != "method"@ && "id"@ != "result"@ && "id"@ != "error"@) by {
        assert("id"@.len() == 2 && "method"@.len() == 6 && "result"@.len() == 6 && "error"@.len()
            == 5);
    }
    assert("method"@ != "result"@) by {
        assert("method"@[0] != "result"@[0]);
    }
    assert("method"@ != "error"@ && "result"@ != "error"@) by {
        assert("method"@.len() == 6 && "result"@.len() == 6 && "error"@.len() == 5);
    }
    let m = response_model(resp);
    let fs = m->Obj_0;
    if resp.result is Some {
        let rv = resp.result->Some_0@;
        lemma_lookup3(fs, "jsonrpc"@, JsonModel::Str(resp.jsonrpc@), "id"@, resp.id@, "result"@, rv, "jsonrpc"@);
        lemma_lookup3(fs, "jsonrpc"@, JsonModel::Str(resp.jsonrpc@), "id"@, resp.id@, "result"@, rv, "id"@);
        lemma_lookup3(fs, "jsonrpc"@, JsonModel::Str(resp.jsonrpc@), "id"@, resp.id@, "result"@, rv, "method"@);
        lemma_lookup3(fs, "jsonrpc"@, JsonModel::Str(resp.jsonrpc@), "id"@, resp.id@, "result"@, rv, "result"@);
        lemma_lookup3(fs, "jsonrpc"@, JsonModel::Str(resp.jsonrpc@), "id"@, resp.id@, "result"@, rv, "error"@);
    } else {
        let ev = error_model(resp.error->Some_0);
        lemma_lookup3(fs, "jsonrpc"@, JsonModel::Str(resp.jsonrpc@), "id"@, resp.id@, "error"@, ev, "jsonrpc"@);
        lemma_lookup3(fs, "jsonrpc"@, JsonModel::Str(resp.jsonrpc@), "id"@, resp.id@, "error"@, ev, "id"@);
        lemma_lookup3(fs, "jsonrpc"@, JsonModel::Str(resp.jsonrpc@), "id"@, resp.id@, "error"@, ev, "method"@);
        lemma_lookup3(fs, "jsonrpc"@, JsonModel::Str(resp.jsonrpc@), "id"@, resp.id@, "error"@, ev, "result"@);
        lemma_lookup3(fs, "jsonrpc"@, JsonModel::Str(resp.jsonrpc@), "id"@, resp.id@, "error"@, ev, "error"@);
    }
}

} // verus!
