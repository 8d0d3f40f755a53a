//! Configuration of the MCP server.
pub mod mcp;
