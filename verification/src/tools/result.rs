//! What a tool declares and returns: its parameter schema and the outcome of
//! one invocation.

use vstd::prelude::*;

verus! {

/// Result of running a tool: success flag, captured output, optional error text.
pub struct ToolResult {
    pub success: bool,
    pub output: String,
    pub error: Option<String>,
}

/// The view of an optional string.
pub open spec fn opt_view(o: Option<String>) -> Option<Seq<char>> {
    match o {
        Some(s) => Some(s@),
        None => None,
    }
}

impl ToolResult {
    /// A failed result with no output and the given error text.
    pub open spec fn is_failure(&self, msg: Seq<char>) -> bool {
        &&& !self.success
        &&& self.output@.len() == 0
        &&& opt_view(self.error) == Some(msg)
    }

    pub fn failure(msg: String) -> (r: ToolResult)
        ensures
            r.is_failure(msg@),
    {
        ToolResult { success: false, output: String::new(), error: Some(msg) }
    }
}

/// One property of a tool's parameter schema:
/// `{"type": kind, "description": description}`, plus `"default": false` when `default_false`.
pub struct ParamProp {
    pub name: String,
    pub kind: String,
    pub description: String,
    pub default_false: bool,
}

/// A tool's parameter schema: `{"type":"object","properties":{..},"required":[..]}`.
pub struct ParamSchema {
    pub properties: Vec<ParamProp>,
    pub required: Vec<String>,
}

} // verus!
