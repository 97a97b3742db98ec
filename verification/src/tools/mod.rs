//! Tools: the shell tool, skill shell tools, and the MCP server policy.

pub mod result;
pub mod shell;
pub mod skill_tool;
pub mod mcp_serve;
