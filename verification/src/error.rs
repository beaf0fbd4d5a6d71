//! The error kinds this crate reports. Each carries its message text.

use vstd::prelude::*;

verus! {

/// One failure of the server, named by where it arose.
#[derive(Debug)]
pub enum McpError {
    JsonRpc(String),
    Serialization(String),
    Io(String),
    AwsCli(String),
    ToolExecution(String),
    InvalidRequest(String),
}

impl McpError {
    /// The message text the error carries.
    pub fn message<'a>(&'a self) -> (r: &'a String)
        ensures
            r@ == self.message_text(),
    {
        match self {
            McpError::JsonRpc(m) => m,
            McpError::Serialization(m) => m,
            McpError::Io(m) => m,
            McpError::AwsCli(m) => m,
            McpError::ToolExecution(m) => m,
            McpError::InvalidRequest(m) => m,
        }
    }

    /// The message text, in the mathematical view.
    pub open spec fn message_text(&self) -> Seq<char> {
        match self {
            McpError::JsonRpc(m) => m@,
            McpError::Serialization(m) => m@,
            McpError::Io(m) => m@,
            McpError::AwsCli(m) => m@,
            McpError::ToolExecution(m) => m@,
            McpError::InvalidRequest(m) => m@,
        }
    }
}

} // verus!
