//! Decisions of the file loading pipelines.
pub mod code_loader;
pub mod data_loader;
pub mod image_loader;
