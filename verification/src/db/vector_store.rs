//! Statements and address of the vector store of embeddings.
use vstd::prelude::*;

use crate::parser::entity::{entity_type_text, opt_view, CodeEntity};
use crate::parser::language_text;
use crate::text::{concat, concat3};

verus! {

/// Enables vector columns.
pub const CREATE_EXTENSION: &'static str = "CREATE EXTENSION IF NOT EXISTS vector";

/// The table of embedded chunks and entities.
pub const CREATE_TABLE: &'static str = "CREATE TABLE IF NOT EXISTS embeddings (
    id          BIGSERIAL PRIMARY KEY,
    content     TEXT NOT NULL,
    embedding   vector(512),
    source_file TEXT,
    entity_type TEXT,
    entity_name TEXT,
    language    TEXT,
    created_at  TIMESTAMP DEFAULT NOW()
)";

/// Approximate nearest-neighbour index on the embeddings (cosine).
pub const CREATE_VECTOR_INDEX: &'static str = "CREATE INDEX IF NOT EXISTS embeddings_hnsw_idx ON embeddings USING hnsw (embedding vector_cosine_ops)";

/// Index on the entity type.
pub const CREATE_TYPE_INDEX: &'static str = "CREATE INDEX IF NOT EXISTS embeddings_entity_type_idx ON embeddings (entity_type)";

/// Whether a database exists (parameter: its name).
pub const DATABASE_EXISTS: &'static str = "SELECT EXISTS(SELECT 1 FROM pg_database WHERE datname = $1)";

/// Number of rows stored for a source file.
pub const COUNT_FILE_ROWS: &'static str = "SELECT COUNT(*) FROM embeddings WHERE source_file = $1";

/// Removes the rows of a source file.
pub const DELETE_FILE_ROWS: &'static str = "DELETE FROM embeddings WHERE source_file = $1";

/// Stores one embedded text with its metadata.
pub const INSERT_ROW: &'static str = "INSERT INTO embeddings (content, embedding, source_file, entity_type, entity_name, language) VALUES ($1, $2, $3, $4, $5, $6)";

/// The rows most similar to a query vector ($1) at or above a similarity
/// ($2), best first, at most $3 of them.
pub const SEARCH_SIMILAR: &'static str = "SELECT id, content, COALESCE(source_file, '') AS source_file, entity_type, entity_name, 1 - (embedding <=> $1) AS similarity FROM embeddings WHERE 1 - (embedding <=> $1) >= $2 ORDER BY similarity DESC LIMIT $3";

/// The statements that set up the store, in order.
pub fn schema_statements() -> (r: Vec<&'static str>)
    ensures
        r@ == seq![CREATE_EXTENSION, CREATE_TABLE, CREATE_VECTOR_INDEX, CREATE_TYPE_INDEX],
{
    let mut v: Vec<&'static str> = Vec::new();
    v.push(CREATE_EXTENSION);
    v.push(CREATE_TABLE);
    v.push(CREATE_VECTOR_INDEX);
    v.push(CREATE_TYPE_INDEX);
    proof {
        assert(v@ =~= seq![CREATE_EXTENSION, CREATE_TABLE, CREATE_VECTOR_INDEX, CREATE_TYPE_INDEX]);
    }
    v
}

/// The address of a database of the server.
pub open spec fn database_url_of(
    user: Seq<char>,
    password: Seq<char>,
    host: Seq<char>,
    port: Seq<char>,
    database: Seq<char>,
) -> Seq<char> {
    "postgres://"@ + user + ":"@ + password + "@"@ + host + ":"@ + port + "/"@ + database
}

/// The address of a database of the server.
pub fn database_url(user: &str, password: &str, host: &str, port: &str, database: &str) -> (r:
    String)
    ensures
        r@ == database_url_of(user@, password@, host@, port@, database@),
{
    let a = concat3("postgres://", user, ":");
    let b = concat3(a.as_str(), password, "@");
    let c = concat3(b.as_str(), host, ":");
    let d = concat3(c.as_str(), port, "/");
    concat(d.as_str(), database)
}

/// The address of the server's default `postgres` database, from which the
/// target database is created.
pub fn admin_database_url(user: &str, password: &str, host: &str, port: &str) -> (r: String)
    ensures
        r@ == database_url_of(user@, password@, host@, port@, "postgres"@),
{
    database_url(user, password, host, port, "postgres")
}

/// The statement that creates a database with a quoted name.
pub fn create_database_statement(database: &str) -> (r: String)
    ensures
        r@ == "CREATE DATABASE \""@ + database@ + "\""@,
{
    concat3("CREATE DATABASE \"", database, "\"")
}

/// The descriptive columns of a stored row: entity type, entity name and
/// language, each absent where it does not apply.
#[derive(Debug, Clone)]
pub struct RowMeta {
    pub entity_type: Option<String>,
    pub entity_name: Option<String>,
    pub language: Option<String>,
}

/// The descriptive columns of a row for a code entity: its type, its
/// qualified name and its language.
pub fn code_row_meta(entity: &CodeEntity) -> (r: RowMeta)
    ensures
        opt_view(r.entity_type) == Some(entity_type_text(entity.entity_type)),
        opt_view(r.entity_name) == Some(entity.qualified_name@),
        opt_view(r.language) == Some(language_text(entity.language)),
{
    RowMeta {
        entity_type: Some(String::from_str(entity.entity_type.as_str())),
        entity_name: Some(entity.qualified_name.clone()),
        language: Some(String::from_str(entity.language.as_str())),
    }
}

/// The descriptive columns of a row for a document chunk: none.
pub fn document_row_meta() -> (r: RowMeta)
    ensures
        r.entity_type is None,
        r.entity_name is None,
        r.language is None,
{
    RowMeta { entity_type: None, entity_name: None, language: None }
}

/// The descriptive columns of a row for an image chunk: the type `image`
/// alone.
pub fn image_row_meta() -> (r: RowMeta)
    ensures
        opt_view(r.entity_type) == Some("image"@),
        r.entity_name is None,
        r.language is None,
{
    RowMeta { entity_type: Some(String::from_str("image")), entity_name: None, language: None }
}

} // verus!
