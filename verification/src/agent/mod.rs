//! An assistant that answers a task with the help of tools over the index.

pub mod runner;
pub mod tools;

pub use runner::{
    Agent, AgentMessage, AgentResponse, AgentRun, AgentStep, AgentTurn, ToolCallRecord, ToolRequest,
};
pub use tools::{
    format_seconds, parse_tool_call, tool_call_from_json, tool_definitions, ToolCall, ToolContext,
};
