//! Code entities and relationships extracted from source files.
use vstd::prelude::*;

use super::CodeLanguage;

verus! {

/// Kinds of code entity.
#[derive(Debug, Clone, Copy, PartialEq, Eq, Structural)]
pub enum EntityType {
    File,
    Module,
    Class,
    Struct,
    Enum,
    Interface,
    Trait,
    Function,
    Method,
    Variable,
    Constant,
    Import,
    TypeAlias,
}

/// Display text of an entity type.
pub open spec fn entity_type_text(t: EntityType) -> Seq<char> {
    match t {
        EntityType::File => "file"@,
        EntityType::Module => "module"@,
        EntityType::Class => "class"@,
        EntityType::Struct => "struct"@,
        EntityType::Enum => "enum"@,
        EntityType::Interface => "interface"@,
        EntityType::Trait => "trait"@,
        EntityType::Function => "function"@,
        EntityType::Method => "method"@,
        EntityType::Variable => "variable"@,
        EntityType::Constant => "constant"@,
        EntityType::Import => "import"@,
        EntityType::TypeAlias => "type_alias"@,
    }
}

/// Graph label of an entity type.
pub open spec fn entity_label(t: EntityType) -> Seq<char> {
    match t {
        EntityType::File => "File"@,
        EntityType::Module => "Module"@,
        EntityType::Class => "Class"@,
        EntityType::Struct => "Struct"@,
        EntityType::Enum => "Enum"@,
        EntityType::Interface => "Interface"@,
        EntityType::Trait => "Trait"@,
        EntityType::Function => "Function"@,
        EntityType::Method => "Method"@,
        EntityType::Variable => "Variable"@,
        EntityType::Constant => "Constant"@,
        EntityType::Import => "Import"@,
        EntityType::TypeAlias => "TypeAlias"@,
    }
}

/// A text without any copy of a char.
pub open spec fn without_char(s: Seq<char>, c: char) -> Seq<char>
    decreases s.len(),
{
    if s.len() == 0 {
        seq![]
    } else {
        without_char(s.drop_last(), c) + if s.last() == c {
            seq![]
        } else {
            seq![s.last()]
        }
    }
}

/// Law of graph labels: a label is a non-empty run of ASCII letters, and
/// lower-cased (in ASCII) it is the entity type's text without its `_`; so
/// distinct entity types have distinct labels, each safe to write into a
/// statement's text.
#[verifier::spinoff_prover]
#[verifier::rlimit(100)]
pub proof fn lemma_label_matches_type_text(t: EntityType)
    ensures
        entity_label(t).len() > 0,
        forall|i: int|
            0 <= i < entity_label(t).len() ==> ('A' <= #[trigger] entity_label(t)[i] <= 'Z') || (
            'a' <= entity_label(t)[i] <= 'z'),
        entity_label(t).map_values(|c: char| crate::text::ascii_lower(c)) == without_char(
            entity_type_text(t),
            '_',
        ),
{
    reveal_with_fuel(without_char, 11);
    match t {
        EntityType::File => {
            reveal_strlit("File");
            reveal_strlit("file");
            assert(entity_label(t) =~= seq!['F', 'i', 'l', 'e']);
            assert(without_char(entity_type_text(t), '_') =~= seq!['f', 'i', 'l', 'e']);
            assert(entity_label(t).map_values(|c: char| crate::text::ascii_lower(c)) =~= seq!['f', 'i', 'l', 'e']);
        },
        EntityType::Module => {
            reveal_strlit("Module");
            reveal_strlit("module");
            assert(entity_label(t) =~= seq!['M', 'o', 'd', 'u', 'l', 'e']);
            assert(without_char(entity_type_text(t), '_') =~= seq!['m', 'o', 'd', 'u', 'l', 'e']);
            assert(entity_label(t).map_values(|c: char| crate::text::ascii_lower(c)) =~= seq!['m', 'o', 'd', 'u', 'l', 'e']);
        },
        EntityType::Class => {
            reveal_strlit("Class");
            reveal_strlit("class");
            assert(entity_label(t) =~= seq!['C', 'l', 'a', 's', 's']);
            assert(without_char(entity_type_text(t), '_') =~= seq!['c', 'l', 'a', 's', 's']);
            assert(entity_label(t).map_values(|c: char| crate::text::ascii_lower(c)) =~= seq!['c', 'l', 'a', 's', 's']);
        },
        EntityType::Struct => {
            reveal_strlit("Struct");
            reveal_strlit("struct");
            assert(entity_label(t) =~= seq!['S', 't', 'r', 'u', 'c', 't']);
            assert(without_char(entity_type_text(t), '_') =~= seq!['s', 't', 'r', 'u', 'c', 't']);
            assert(entity_label(t).map_values(|c: char| crate::text::ascii_lower(c)) =~= seq!['s', 't', 'r', 'u', 'c', 't']);
        },
        EntityType::Enum => {
            reveal_strlit("Enum");
            reveal_strlit("enum");
            assert(entity_label(t) =~= seq!['E', 'n', 'u', 'm']);
            assert(without_char(entity_type_text(t), '_') =~= seq!['e', 'n', 'u', 'm']);
            assert(entity_label(t).map_values(|c: char| crate::text::ascii_lower(c)) =~= seq!['e', 'n', 'u', 'm']);
        },
        EntityType::Interface => {
            reveal_strlit("Interface");
            reveal_strlit("interface");
            assert(entity_label(t) =~= seq!['I', 'n', 't', 'e', 'r', 'f', 'a', 'c', 'e']);
            assert(without_char(entity_type_text(t), '_') =~= seq!['i', 'n', 't', 'e', 'r', 'f', 'a', 'c', 'e']);
            assert(entity_label(t).map_values(|c: char| crate::text::ascii_lower(c)) =~= seq!['i', 'n', 't', 'e', 'r', 'f', 'a', 'c', 'e']);
        },
        EntityType::Trait => {
            reveal_strlit("Trait");
            reveal_strlit("trait");
            assert(entity_label(t) =~= seq!['T', 'r', 'a', 'i', 't']);
            assert(without_char(entity_type_text(t), '_') =~= seq!['t', 'r', 'a', 'i', 't']);
            assert(entity_label(t).map_values(|c: char| crate::text::ascii_lower(c)) =~= seq!['t', 'r', 'a', 'i', 't']);
        },
        EntityType::Function => {
            reveal_strlit("Function");
            reveal_strlit("function");
            assert(entity_label(t) =~= seq!['F', 'u', 'n', 'c', 't', 'i', 'o', 'n']);
            assert(without_char(entity_type_text(t), '_') =~= seq!['f', 'u', 'n', 'c', 't', 'i', 'o', 'n']);
            assert(entity_label(t).map_values(|c: char| crate::text::ascii_lower(c)) =~= seq!['f', 'u', 'n', 'c', 't', 'i', 'o', 'n']);
        },
        EntityType::Method => {
            reveal_strlit("Method");
            reveal_strlit("method");
            assert(entity_label(t) =~= seq!['M', 'e', 't', 'h', 'o', 'd']);
            assert(without_char(entity_type_text(t), '_') =~= seq!['m', 'e', 't', 'h', 'o', 'd']);
            assert(entity_label(t).map_values(|c: char| crate::text::ascii_lower(c)) =~= seq!['m', 'e', 't', 'h', 'o', 'd']);
        },
        EntityType::Variable => {
            reveal_strlit("Variable");
            reveal_strlit("variable");
            assert(entity_label(t) =~= seq!['V', 'a', 'r', 'i', 'a', 'b', 'l', 'e']);
            assert(without_char(entity_type_text(t), '_') =~= seq!['v', 'a', 'r', 'i', 'a', 'b', 'l', 'e']);
            assert(entity_label(t).map_values(|c: char| crate::text::ascii_lower(c)) =~= seq!['v', 'a', 'r', 'i', 'a', 'b', 'l', 'e']);
        },
        EntityType::Constant => {
            reveal_strlit("Constant");
            reveal_strlit("constant");
            assert(entity_label(t) =~= seq!['C', 'o', 'n', 's', 't', 'a', 'n', 't']);
            assert(without_char(entity_type_text(t), '_') =~= seq!['c', 'o', 'n', 's', 't', 'a', 'n', 't']);
            assert(entity_label(t).map_values(|c: char| crate::text::ascii_lower(c)) =~= seq!['c', 'o', 'n', 's', 't', 'a', 'n', 't']);
        },
        EntityType::Import => {
            reveal_strlit("Import");
            reveal_strlit("import");
            assert(entity_label(t) =~= seq!['I', 'm', 'p', 'o', 'r', 't']);
            assert(without_char(entity_type_text(t), '_') =~= seq!['i', 'm', 'p', 'o', 'r', 't']);
            assert(entity_label(t).map_values(|c: char| crate::text::ascii_lower(c)) =~= seq!['i', 'm', 'p', 'o', 'r', 't']);
        },
        EntityType::TypeAlias => {
            reveal_strlit("TypeAlias");
            reveal_strlit("type_alias");
            assert(entity_label(t) =~= seq!['T', 'y', 'p', 'e', 'A', 'l', 'i', 'a', 's']);
            assert(without_char(entity_type_text(t), '_') =~= seq!['t', 'y', 'p', 'e', 'a', 'l', 'i', 'a', 's']);
            assert(entity_label(t).map_values(|c: char| crate::text::ascii_lower(c)) =~= seq!['t', 'y', 'p', 'e', 'a', 'l', 'i', 'a', 's']);
        },
    }
}

impl EntityType {
    /// The lower-case display text of the entity type (`function`, `type_alias`, ...).
    pub fn as_str(&self) -> (r: &'static str)
        ensures
            r@ == entity_type_text(*self),
    {
        match self {
            EntityType::File => "file",
            EntityType::Module => "module",
            EntityType::Class => "class",
            EntityType::Struct => "struct",
            EntityType::Enum => "enum",
            EntityType::Interface => "interface",
            EntityType::Trait => "trait",
            EntityType::Function => "function",
            EntityType::Method => "method",
            EntityType::Variable => "variable",
            EntityType::Constant => "constant",
            EntityType::Import => "import",
            EntityType::TypeAlias => "type_alias",
        }
    }

    /// The node label used for this entity type in the code graph.
    pub fn neo4j_label(&self) -> (r: &'static str)
        ensures
            r@ == entity_label(*self),
    {
        match self {
            EntityType::File => "File",
            EntityType::Module => "Module",
            EntityType::Class => "Class",
            EntityType::Struct => "Struct",
            EntityType::Enum => "Enum",
            EntityType::Interface => "Interface",
            EntityType::Trait => "Trait",
            EntityType::Function => "Function",
            EntityType::Method => "Method",
            EntityType::Variable => "Variable",
            EntityType::Constant => "Constant",
            EntityType::Import => "Import",
            EntityType::TypeAlias => "TypeAlias",
        }
    }
}

/// Kinds of relationship between code entities.
#[derive(Debug, Clone, Copy, PartialEq, Eq, Structural)]
pub enum RelationshipType {
    Contains,
    Calls,
    Imports,
    Inherits,
    Implements,
    TypeReference,
    Uses,
}

/// Graph edge type of a relationship kind.
pub open spec fn relationship_label(t: RelationshipType) -> Seq<char> {
    match t {
        RelationshipType::Contains => "CONTAINS"@,
        RelationshipType::Calls => "CALLS"@,
        RelationshipType::Imports => "IMPORTS"@,
        RelationshipType::Inherits => "INHERITS"@,
        RelationshipType::Implements => "IMPLEMENTS"@,
        RelationshipType::TypeReference => "TYPE_REFERENCE"@,
        RelationshipType::Uses => "USES"@,
    }
}

impl RelationshipType {
    /// The edge type used for this relationship in the code graph.
    pub fn neo4j_type(&self) -> (r: &'static str)
        ensures
            r@ == relationship_label(*self),
    {
        match self {
            RelationshipType::Contains => "CONTAINS",
            RelationshipType::Calls => "CALLS",
            RelationshipType::Imports => "IMPORTS",
            RelationshipType::Inherits => "INHERITS",
            RelationshipType::Implements => "IMPLEMENTS",
            RelationshipType::TypeReference => "TYPE_REFERENCE",
            RelationshipType::Uses => "USES",
        }
    }
}

/// A named element of a source file: the file itself, a type, a function,
/// an import and so on.
#[derive(Debug, Clone)]
pub struct CodeEntity {
    pub qualified_name: String,
    pub name: String,
    pub entity_type: EntityType,
    pub language: CodeLanguage,
    pub source_file: String,
    pub content: String,
    pub start_line: usize,
    pub end_line: usize,
    pub parent: Option<String>,
    pub signature: String,
}

/// Mathematical model of a code entity.
pub struct EntityModel {
    pub qualified_name: Seq<char>,
    pub name: Seq<char>,
    pub entity_type: EntityType,
    pub language: CodeLanguage,
    pub source_file: Seq<char>,
    pub content: Seq<char>,
    pub start_line: nat,
    pub end_line: nat,
    pub parent: Option<Seq<char>>,
    pub signature: Seq<char>,
}

/// Model of an optional string.
pub open spec fn opt_view(o: Option<String>) -> Option<Seq<char>> {
    match o {
        Some(s) => Some(s@),
        None => None,
    }
}

impl View for CodeEntity {
    type V = EntityModel;

    open spec fn view(&self) -> EntityModel {
        EntityModel {
            qualified_name: self.qualified_name@,
            name: self.name@,
            entity_type: self.entity_type,
            language: self.language,
            source_file: self.source_file@,
            content: self.content@,
            start_line: self.start_line as nat,
            end_line: self.end_line as nat,
            parent: opt_view(self.parent),
            signature: self.signature@,
        }
    }
}

/// A directed relationship between two qualified names.
#[derive(Debug, Clone)]
pub struct CodeRelationship {
    pub from_qualified_name: String,
    pub to_qualified_name: String,
    pub relationship_type: RelationshipType,
}

/// Mathematical model of a relationship.
pub struct RelationshipModel {
    pub from: Seq<char>,
    pub to: Seq<char>,
    pub kind: RelationshipType,
}

impl View for CodeRelationship {
    type V = RelationshipModel;

    open spec fn view(&self) -> RelationshipModel {
        RelationshipModel {
            from: self.from_qualified_name@,
            to: self.to_qualified_name@,
            kind: self.relationship_type,
        }
    }
}

/// Entities and relationships extracted from one source file.
#[derive(Debug, Clone)]
pub struct ParseResult {
    pub entities: Vec<CodeEntity>,
    pub relationships: Vec<CodeRelationship>,
}

/// Mathematical model of a parse result.
pub struct ParseModel {
    pub entities: Seq<EntityModel>,
    pub relationships: Seq<RelationshipModel>,
}

/// Models of a sequence of entities.
pub open spec fn entity_views(s: Seq<CodeEntity>) -> Seq<EntityModel> {
    s.map_values(|e: CodeEntity| e@)
}

/// Models of a sequence of relationships.
pub open spec fn relationship_views(s: Seq<CodeRelationship>) -> Seq<RelationshipModel> {
    s.map_values(|r: CodeRelationship| r@)
}

impl View for ParseResult {
    type V = ParseModel;

    open spec fn view(&self) -> ParseModel {
        ParseModel {
            entities: entity_views(self.entities@),
            relationships: relationship_views(self.relationships@),
        }
    }
}

} // verus!
