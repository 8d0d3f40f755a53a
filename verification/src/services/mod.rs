//! Decisions of the chat, code extraction, project and retrieval services.
pub mod code_agent;
pub mod project_agent;
pub mod provider;
pub mod chat;
pub mod rag;
pub mod rerank;
