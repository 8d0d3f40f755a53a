//! Message types exchanged with chat models.
pub mod chat_ollama;
