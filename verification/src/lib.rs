pub mod error;
pub mod json;
pub mod json_parse;
pub mod mcp_server;
pub mod use_aws;

pub use error::McpError;
pub use mcp_server::AwsMcpServer;
pub use use_aws::{UseAws, UseAwsRequest, UseAwsResponse};

use vstd::prelude::*;

use crate::json::JsonModel;
use crate::json::JsonValue;

verus! {

/// Maximum size in bytes for tool response output, split evenly between the
/// captured stdout and stderr streams.
pub const MAX_TOOL_RESPONSE_SIZE: usize = 100000;

/// Output kind for tool responses.
pub enum OutputKind {
    Text(String),
    Json(JsonValue),
}

impl Default for OutputKind {
    /// An empty text output.
    fn default() -> (r: Self)
        ensures
            r matches OutputKind::Text(s) && s@ == Seq::<char>::empty(),
    {
        OutputKind::Text(String::new())
    }
}

/// Tool invocation output.
pub struct InvokeOutput {
    pub output: OutputKind,
}

impl Default for InvokeOutput {
    /// An output holding empty text.
    fn default() -> (r: Self)
        ensures
            r.output matches OutputKind::Text(s) && s@ == Seq::<char>::empty(),
    {
        InvokeOutput { output: OutputKind::Text(String::new()) }
    }
}

impl InvokeOutput {
    /// The carried text: a text output as it is, a JSON output only when it
    /// is a JSON string, and the empty string otherwise.
    pub fn as_str<'a>(&'a self) -> (r: &'a str)
        ensures
            match self.output {
                OutputKind::Text(s) => r@ == s@,
                OutputKind::Json(j) => match j@ {
                    JsonModel::Str(t) => r@ == t,
                    _ => r@ == Seq::<char>::empty(),
                },
            },
    {
        match &self.output {
            OutputKind::Text(s) => s.as_str(),
            OutputKind::Json(j) => {
                match j.as_str() {
                    Some(s) => s,
                    None => {
                        proof {
                            reveal_strlit("");
                        }
                        ""
                    },
                }
            },
        }
    }
}

} // verus!
