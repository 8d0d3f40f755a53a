//! Statements and addresses of the vector store and the code graph.
pub mod graph_store;
pub mod vector_store;
