//! Verified core of a retrieval-augmented code and document assistant:
//! source parsing into code entities, text chunking, file routing and the
//! decisions of the loading, chat and project pipelines.
pub mod cli;
pub mod db;
pub mod handler;
pub mod json;
pub mod models;
pub mod parser;
pub mod path;
pub mod server;
pub mod services;
pub mod setup;
pub mod text;
pub mod tools;
