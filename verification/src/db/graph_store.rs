//! Statements of the code graph: entity nodes and relationship edges.
use vstd::prelude::*;

use crate::parser::entity::{
    entity_label, entity_type_text, relationship_label, CodeEntity, CodeRelationship,
};
use crate::parser::language_text;
use crate::text::concat3;

verus! {

/// Uniqueness constraint of the code graph.
pub const SCHEMA_UNIQUE_NAME: &'static str = "CREATE CONSTRAINT IF NOT EXISTS FOR (e:CodeEntity) REQUIRE e.qualified_name IS UNIQUE";

/// Index of the code graph on entity types.
pub const SCHEMA_INDEX_TYPE: &'static str = "CREATE INDEX IF NOT EXISTS FOR (e:CodeEntity) ON (e.entity_type)";

/// Index of the code graph on languages.
pub const SCHEMA_INDEX_LANGUAGE: &'static str = "CREATE INDEX IF NOT EXISTS FOR (e:CodeEntity) ON (e.language)";

/// Index of the code graph on short names.
pub const SCHEMA_INDEX_NAME: &'static str = "CREATE INDEX IF NOT EXISTS FOR (e:CodeEntity) ON (e.name)";

/// Removes every node of a source file (parameter `file`).
pub const DELETE_FILE_ENTITIES: &'static str = "MATCH (e:CodeEntity {source_file: $file}) DETACH DELETE e";

/// The statements that set up the code graph, in order.
pub fn schema_statements() -> (r: Vec<&'static str>)
    ensures
        r@ == seq![SCHEMA_UNIQUE_NAME, SCHEMA_INDEX_TYPE, SCHEMA_INDEX_LANGUAGE, SCHEMA_INDEX_NAME],
{
    let mut v: Vec<&'static str> = Vec::new();
    v.push(SCHEMA_UNIQUE_NAME);
    v.push(SCHEMA_INDEX_TYPE);
    v.push(SCHEMA_INDEX_LANGUAGE);
    v.push(SCHEMA_INDEX_NAME);
    proof {
        assert(v@ =~= seq![SCHEMA_UNIQUE_NAME, SCHEMA_INDEX_TYPE, SCHEMA_INDEX_LANGUAGE, SCHEMA_INDEX_NAME]);
    }
    v
}

/// A parameter value of a graph statement.
#[derive(Debug, Clone)]
pub enum GraphValue {
    Text(String),
    Integer(usize),
}

/// Model of a parameter value.
pub enum GraphValueModel {
    Text(Seq<char>),
    Integer(nat),
}

/// Model of a parameter value.
pub open spec fn graph_value_view(v: GraphValue) -> GraphValueModel {
    match v {
        GraphValue::Text(s) => GraphValueModel::Text(s@),
        GraphValue::Integer(n) => GraphValueModel::Integer(n as nat),
    }
}

/// A statement of the graph with named parameters.
#[derive(Debug, Clone)]
pub struct GraphStatement {
    pub cypher: String,
    pub params: Vec<(String, GraphValue)>,
}

/// Models of named parameters.
pub open spec fn params_view(p: Seq<(String, GraphValue)>) -> Seq<(Seq<char>, GraphValueModel)> {
    p.map_values(|x: (String, GraphValue)| (x.0@, graph_value_view(x.1)))
}

/// The statement that merges an entity node with a label.
pub open spec fn entity_cypher_of(label: Seq<char>) -> Seq<char> {
    "MERGE (e:CodeEntity:"@ + label + " {qualified_name: $qn})\n             SET e.name = $name,\n                 e.entity_type = $etype,\n                 e.language = $lang,\n                 e.source_file = $file,\n                 e.start_line = $start,\n                 e.end_line = $end_line,\n                 e.signature = $sig"@
}

/// The statement that merges an edge of a type between two nodes.
pub open spec fn relationship_cypher_of(rel_type: Seq<char>) -> Seq<char> {
    "MATCH (a:CodeEntity {qualified_name: $from})\n             MATCH (b:CodeEntity {qualified_name: $to})\n             MERGE (a)-[:"@ + rel_type + "]->(b)"@
}

/// The statement that merges an entity node with the label of its type,
/// setting its properties.
pub fn entity_cypher(label: &str) -> (r: String)
    ensures
        r@ == entity_cypher_of(label@),
{
    concat3("MERGE (e:CodeEntity:", label, " {qualified_name: $qn})\n             SET e.name = $name,\n                 e.entity_type = $etype,\n                 e.language = $lang,\n                 e.source_file = $file,\n                 e.start_line = $start,\n                 e.end_line = $end_line,\n                 e.signature = $sig")
}

/// The statement that merges an edge of a type between the two nodes with
/// the given qualified names; nothing is made when a node is missing.
pub fn relationship_cypher(rel_type: &str) -> (r: String)
    ensures
        r@ == relationship_cypher_of(rel_type@),
{
    concat3("MATCH (a:CodeEntity {qualified_name: $from})\n             MATCH (b:CodeEntity {qualified_name: $to})\n             MERGE (a)-[:", rel_type, "]->(b)")
}

/// The parameters of an entity's statement.
pub open spec fn entity_params_of(e: CodeEntity) -> Seq<(Seq<char>, GraphValueModel)> {
    seq![
        ("qn"@, GraphValueModel::Text(e.qualified_name@)),
        ("name"@, GraphValueModel::Text(e.name@)),
        ("etype"@, GraphValueModel::Text(entity_type_text(e.entity_type))),
        ("lang"@, GraphValueModel::Text(language_text(e.language))),
        ("file"@, GraphValueModel::Text(e.source_file@)),
        ("start"@, GraphValueModel::Integer(e.start_line as nat)),
        ("end_line"@, GraphValueModel::Integer(e.end_line as nat)),
        ("sig"@, GraphValueModel::Text(e.signature@)),
    ]
}

fn text_param(name: &str, value: String) -> (r: (String, GraphValue))
    ensures
        r.0@ == name@,
        graph_value_view(r.1) == GraphValueModel::Text(value@),
{
    (String::from_str(name), GraphValue::Text(value))
}

/// The statement that stores an entity: its label comes from its type, and
/// its qualified name, name, type, language, file, lines and signature are
/// the parameters `qn`, `name`, `etype`, `lang`, `file`, `start`, `end_line`
/// and `sig`.
pub fn entity_statement(e: &CodeEntity) -> (r: GraphStatement)
    ensures
        r.cypher@ == entity_cypher_of(entity_label(e.entity_type)),
        params_view(r.params@) == entity_params_of(*e),
{
    let mut params: Vec<(String, GraphValue)> = Vec::new();
    params.push(text_param("qn", e.qualified_name.clone()));
    params.push(text_param("name", e.name.clone()));
    params.push(text_param("etype", String::from_str(e.entity_type.as_str())));
    params.push(text_param("lang", String::from_str(e.language.as_str())));
    params.push(text_param("file", e.source_file.clone()));
    params.push((String::from_str("start"), GraphValue::Integer(e.start_line)));
    params.push((String::from_str("end_line"), GraphValue::Integer(e.end_line)));
    params.push(text_param("sig", e.signature.clone()));
    let r = GraphStatement { cypher: entity_cypher(e.entity_type.neo4j_label()), params };
    proof {
        assert(params_view(r.params@) =~= entity_params_of(*e));
    }
    r
}

/// The statement that stores a relationship: its edge type comes from its
/// kind, and its end points are the parameters `from` and `to`.
pub fn relationship_statement(rel: &CodeRelationship) -> (r: GraphStatement)
    ensures
        r.cypher@ == relationship_cypher_of(relationship_label(rel.relationship_type)),
        params_view(r.params@) == seq![
            ("from"@, GraphValueModel::Text(rel.from_qualified_name@)),
            ("to"@, GraphValueModel::Text(rel.to_qualified_name@)),
        ],
{
    let mut params: Vec<(String, GraphValue)> = Vec::new();
    params.push(text_param("from", rel.from_qualified_name.clone()));
    params.push(text_param("to", rel.to_qualified_name.clone()));
    let r = GraphStatement { cypher: relationship_cypher(rel.relationship_type.neo4j_type()), params };
    proof {
        assert(params_view(r.params@) =~= seq![
            ("from"@, GraphValueModel::Text(rel.from_qualified_name@)),
            ("to"@, GraphValueModel::Text(rel.to_qualified_name@)),
        ]);
    }
    r
}

/// The address of the graph database at a host and Bolt port.
pub fn bolt_uri(host: &str, port: &str) -> (r: String)
    ensures
        r@ == "bolt://"@ + host@ + ":"@ + port@,
{
    let a = concat3("bolt://", host, ":");
    crate::text::concat(a.as_str(), port)
}

} // verus!
