//! Code entity and relationship extraction from syntax-tree query matches.
//!
//! Parsing and query matching are done by tree-sitter; what its query
//! cursor yields is turned into plain captures (capture name, node text,
//! node rows), and everything after that is the verified fold
//! [`collect_entities`], whose result is exactly [`parse_model`].
use vstd::prelude::*;

use super::entity::{
    entity_views, opt_view, relationship_views, CodeEntity, CodeRelationship, EntityModel, EntityType, ParseModel, ParseResult,
    RelationshipModel, RelationshipType,
};
use super::queries;
use super::CodeLanguage;
use crate::path::{file_name_of, path_file_name, plain_path};
use crate::text::{
    concat, concat3, count_lines, first_line, lines_of, first_line_of, is_prefix, is_suffix, str_ends_with, str_eq,
    str_starts_with, string_of, to_chars,
};

verus! {

// ---------------------------------------------------------------------------
// Outside types and calls
// ---------------------------------------------------------------------------

#[verifier::external_type_specification]
#[verifier::external_body]
pub struct ExLanguage(tree_sitter::Language);

#[verifier::external_type_specification]
#[verifier::external_body]
pub struct ExParser(tree_sitter::Parser);

#[verifier::external_type_specification]
#[verifier::external_body]
pub struct ExTree(tree_sitter::Tree);

#[verifier::external_type_specification]
#[verifier::external_body]
pub struct ExQuery(tree_sitter::Query);

#[verifier::external_type_specification]
#[verifier::external_body]
pub struct ExLanguageError(tree_sitter::LanguageError);

#[verifier::external_type_specification]
#[verifier::external_body]
pub struct ExQueryError(tree_sitter::QueryError);

/// Converts `tree_sitter_rust::LANGUAGE` into a grammar handle; the handle is the
/// Rust grammar, so it is tagged with `CodeLanguage::Rust`.
#[verifier::external_body]
fn rust_grammar() -> (r: Grammar)
    ensures
        r@ == CodeLanguage::Rust,
{
    Grammar { language: tree_sitter_rust::LANGUAGE.into(), lang: Ghost(CodeLanguage::Rust) }
}

/// Converts `tree_sitter_python::LANGUAGE` into a grammar handle; the handle is the
/// Python grammar, so it is tagged with `CodeLanguage::Python`.
#[verifier::external_body]
fn python_grammar() -> (r: Grammar)
    ensures
        r@ == CodeLanguage::Python,
{
    Grammar { language: tree_sitter_python::LANGUAGE.into(), lang: Ghost(CodeLanguage::Python) }
}

/// Converts `tree_sitter_javascript::LANGUAGE` into a grammar handle; the handle is the
/// JavaScript grammar, so it is tagged with `CodeLanguage::JavaScript`.
#[verifier::external_body]
fn javascript_grammar() -> (r: Grammar)
    ensures
        r@ == CodeLanguage::JavaScript,
{
    Grammar { language: tree_sitter_javascript::LANGUAGE.into(), lang: Ghost(CodeLanguage::JavaScript) }
}

/// Converts `tree_sitter_typescript::LANGUAGE_TYPESCRIPT` into a grammar handle; the handle is the
/// TypeScript grammar, so it is tagged with `CodeLanguage::TypeScript`.
#[verifier::external_body]
fn typescript_grammar() -> (r: Grammar)
    ensures
        r@ == CodeLanguage::TypeScript,
{
    Grammar { language: tree_sitter_typescript::LANGUAGE_TYPESCRIPT.into(), lang: Ghost(CodeLanguage::TypeScript) }
}

/// Converts `tree_sitter_java::LANGUAGE` into a grammar handle; the handle is the
/// Java grammar, so it is tagged with `CodeLanguage::Java`.
#[verifier::external_body]
fn java_grammar() -> (r: Grammar)
    ensures
        r@ == CodeLanguage::Java,
{
    Grammar { language: tree_sitter_java::LANGUAGE.into(), lang: Ghost(CodeLanguage::Java) }
}

/// Converts `tree_sitter_go::LANGUAGE` into a grammar handle; the handle is the
/// Go grammar, so it is tagged with `CodeLanguage::Go`.
#[verifier::external_body]
fn go_grammar() -> (r: Grammar)
    ensures
        r@ == CodeLanguage::Go,
{
    Grammar { language: tree_sitter_go::LANGUAGE.into(), lang: Ghost(CodeLanguage::Go) }
}

/// Converts `tree_sitter_c::LANGUAGE` into a grammar handle; the handle is the
/// C grammar, so it is tagged with `CodeLanguage::C`.
#[verifier::external_body]
fn c_grammar() -> (r: Grammar)
    ensures
        r@ == CodeLanguage::C,
{
    Grammar { language: tree_sitter_c::LANGUAGE.into(), lang: Ghost(CodeLanguage::C) }
}

/// Converts `tree_sitter_cpp::LANGUAGE` into a grammar handle; the handle is the
/// Cpp grammar, so it is tagged with `CodeLanguage::Cpp`.
#[verifier::external_body]
fn cpp_grammar() -> (r: Grammar)
    ensures
        r@ == CodeLanguage::Cpp,
{
    Grammar { language: tree_sitter_cpp::LANGUAGE.into(), lang: Ghost(CodeLanguage::Cpp) }
}

/// A grammar handle, with the language it was made for.
pub struct Grammar {
    language: tree_sitter::Language,
    lang: Ghost<CodeLanguage>,
}

impl View for Grammar {
    type V = CodeLanguage;

    closed spec fn view(&self) -> CodeLanguage {
        self.lang@
    }
}

/// A parser, with the language set on it, if any.
struct LangParser {
    parser: tree_sitter::Parser,
    lang: Ghost<Option<CodeLanguage>>,
}

impl View for LangParser {
    type V = Option<CodeLanguage>;

    closed spec fn view(&self) -> Option<CodeLanguage> {
        self.lang@
    }
}

/// A syntax tree, with the language and the source it was parsed from.
struct LangTree {
    tree: tree_sitter::Tree,
    lang: Ghost<CodeLanguage>,
    source: Ghost<Seq<char>>,
}

impl View for LangTree {
    type V = (CodeLanguage, Seq<char>);

    closed spec fn view(&self) -> (CodeLanguage, Seq<char>) {
        (self.lang@, self.source@)
    }
}

/// A compiled query, with the grammar's language and the query text.
struct LangQuery {
    query: tree_sitter::Query,
    lang: Ghost<CodeLanguage>,
    text: Ghost<Seq<char>>,
}

impl View for LangQuery {
    type V = (CodeLanguage, Seq<char>);

    closed spec fn view(&self) -> (CodeLanguage, Seq<char>) {
        (self.lang@, self.text@)
    }
}

/// Name for whether tree-sitter accepts the grammar of a language: whether
/// the grammar's ABI version lies in the range this tree-sitter supports.
pub uninterp spec fn grammar_fits(lang: CodeLanguage) -> bool;

/// Name for whether a query text compiles against the grammar of a
/// language.
pub uninterp spec fn query_compiles(lang: CodeLanguage, query: Seq<char>) -> bool;

/// Name for the captures, match by match, that a query (compiled against
/// the grammar of a language) finds in the syntax tree of a source: each
/// capture's name, its node's text and its node's start and end rows.
pub uninterp spec fn ts_captures(lang: CodeLanguage, query: Seq<char>, source: Seq<char>) -> Seq<
    Seq<CaptureModel>,
>;

/// Calls `tree_sitter::Parser::new`: a parser with no language set.
#[verifier::external_body]
fn new_parser() -> (r: LangParser)
    ensures
        r@ is None,
{
    LangParser { parser: tree_sitter::Parser::new(), lang: Ghost(None) }
}

/// Calls `tree_sitter::Parser::set_language`, which succeeds exactly when
/// the grammar's ABI version is one this tree-sitter supports; on success
/// the parser has the grammar's language, on failure it is left as it was.
#[verifier::external_body]
fn set_parser_language(parser: &mut LangParser, grammar: &Grammar) -> (r: Result<
    (),
    tree_sitter::LanguageError,
>)
    ensures
        r is Ok <==> grammar_fits(grammar@),
        final(parser)@ == (if r is Ok {
            Some(grammar@)
        } else {
            old(parser)@
        }),
{
    let r = parser.parser.set_language(&grammar.language);
    if r.is_ok() {
        parser.lang = Ghost(Some(grammar.lang@));
    }
    r
}

/// Calls `tree_sitter::Parser::parse` on the whole source, with no previous
/// tree. It gives no tree only when no language is set (no timeout and no
/// cancellation flag are ever set on these parsers); the tree is that of
/// the source in the parser's language.
#[verifier::external_body]
fn parse_source(parser: &mut LangParser, source: &str) -> (r: Option<LangTree>)
    ensures
        final(parser)@ == old(parser)@,
        r is Some <==> old(parser)@ is Some,
        r matches Some(t) ==> t@ == (old(parser)@->0, source@),
{
    let lang = Ghost(parser.lang@->0);
    parser.parser.parse(source, None).map(|tree| LangTree { tree, lang, source: Ghost(source@) })
}

/// Calls `tree_sitter::Query::new`, which succeeds exactly when the query
/// text compiles against the grammar.
#[verifier::external_body]
fn new_query(grammar: &Grammar, source: &str) -> (r: Result<LangQuery, tree_sitter::QueryError>)
    ensures
        r is Ok <==> query_compiles(grammar@, source@),
        r matches Ok(q) ==> q@ == (grammar@, source@),
{
    let lang = Ghost(grammar.lang@);
    tree_sitter::Query::new(&grammar.language, source).map(|query| LangQuery { query, lang, text: Ghost(source@) })
}

/// Runs a `tree_sitter::QueryCursor` over the tree of the source and
/// converts each match into its captures: the capture name, the node's text
/// (`None` when it is not valid UTF-8) and the zero-based rows of the
/// node's start and end. The tree must be that of this source (node ranges
/// index into it). The captures are those named by [`ts_captures`]; of them
/// it is also stated that a node starts at or before the row where it ends,
/// and that no row exceeds the number of characters of the source, since a
/// row counts the line breaks before a position in it.
#[verifier::external_body]
fn query_captures(query: &LangQuery, tree: &LangTree, source: &str) -> (r: Vec<Vec<CaptureText>>)
    requires
        tree@ == (query@.0, source@),
    ensures
        match_views(r@) == ts_captures(query@.0, query@.1, source@),
        forall|i: int, j: int|
            0 <= i < r@.len() && 0 <= j < r@[i]@.len() ==> #[trigger] r@[i]@[j].start_row
                <= r@[i]@[j].end_row && r@[i]@[j].end_row <= source@.len(),
{
    let q = &query.query;
    let names = q.capture_names();
    let mut cursor = tree_sitter::QueryCursor::new();
    let mut it = cursor.matches(q, tree.tree.root_node(), source.as_bytes());
    let mut out = Vec::new();
    while let Some(m) = tree_sitter::StreamingIterator::next(&mut it) {
        out.push(m.captures.iter().map(|c| CaptureText {
            name: names[c.index as usize].to_string(),
            text: c.node.utf8_text(source.as_bytes()).ok().map(|t| t.to_string()),
            start_row: c.node.start_position().row,
            end_row: c.node.end_position().row,
        }).collect());
    }
    out
}

// ---------------------------------------------------------------------------
// Captures
// ---------------------------------------------------------------------------

/// One capture of a query match: the capture's name in the query, the text
/// of the captured node (`None` when it is not valid UTF-8) and the
/// zero-based rows where the node starts and ends.
#[derive(Debug, Clone)]
pub struct CaptureText {
    pub name: String,
    pub text: Option<String>,
    pub start_row: usize,
    pub end_row: usize,
}

/// Model of a capture.
pub struct CaptureModel {
    pub name: Seq<char>,
    pub text: Option<Seq<char>>,
    pub start_row: nat,
    pub end_row: nat,
}

impl View for CaptureText {
    type V = CaptureModel;

    open spec fn view(&self) -> CaptureModel {
        CaptureModel {
            name: self.name@,
            text: opt_view(self.text),
            start_row: self.start_row as nat,
            end_row: self.end_row as nat,
        }
    }
}

/// Models of the captures of one match.
pub open spec fn capture_views(m: Seq<CaptureText>) -> Seq<CaptureModel> {
    m.map_values(|c: CaptureText| c@)
}

/// Models of all matches.
pub open spec fn match_views(ms: Seq<Vec<CaptureText>>) -> Seq<Seq<CaptureModel>> {
    ms.map_values(|m: Vec<CaptureText>| capture_views(m@))
}

/// Every row of every capture is below `usize::MAX`, so that the one-based
/// line number after it fits.
pub open spec fn rows_fit(ms: Seq<Seq<CaptureModel>>) -> bool {
    forall|i: int, j: int|
        0 <= i < ms.len() && 0 <= j < ms[i].len() ==> #[trigger] ms[i][j].start_row < usize::MAX
            && ms[i][j].end_row < usize::MAX
}

// ---------------------------------------------------------------------------
// Model of the extraction
// ---------------------------------------------------------------------------

/// The text of a node, or the empty text when it could not be read.
pub open spec fn text_or_empty(t: Option<Seq<char>>) -> Seq<char> {
    match t {
        Some(x) => x,
        None => seq![],
    }
}

/// Captures of whole definitions; entities are made from their name captures.
pub open spec fn is_definition_capture(n: Seq<char>) -> bool {
    n == "function.def"@ || n == "struct.def"@ || n == "enum.def"@ || n == "trait.def"@ || n
        == "class.def"@ || n == "interface.def"@ || n == "method.def"@ || n == "constant.def"@
        || n == "static.def"@ || n == "variable.def"@ || n == "import.def"@ || n
        == "import.from_def"@ || n == "type_alias.def"@ || n == "module.def"@
}

/// Captures that name a new entity: `*.name`, except call and inheritance names.
pub open spec fn is_entity_name_capture(n: Seq<char>) -> bool {
    is_suffix(".name"@, n) && !is_prefix("call."@, n) && !is_prefix("inherits."@, n)
        && !is_prefix("implements."@, n)
}

/// The capture name without its `.name` suffix.
pub open spec fn capture_prefix(n: Seq<char>) -> Seq<char> {
    n.subrange(0, n.len() - ".name"@.len())
}

/// The entity type that a capture prefix stands for.
pub open spec fn entity_type_of_prefix(p: Seq<char>) -> Option<EntityType> {
    if p == "function"@ {
        Some(EntityType::Function)
    } else if p == "struct"@ {
        Some(EntityType::Struct)
    } else if p == "enum"@ {
        Some(EntityType::Enum)
    } else if p == "trait"@ {
        Some(EntityType::Trait)
    } else if p == "class"@ {
        Some(EntityType::Class)
    } else if p == "interface"@ {
        Some(EntityType::Interface)
    } else if p == "method"@ {
        Some(EntityType::Method)
    } else if p == "constant"@ {
        Some(EntityType::Constant)
    } else if p == "static"@ {
        Some(EntityType::Variable)
    } else if p == "variable"@ {
        Some(EntityType::Variable)
    } else if p == "type_alias"@ {
        Some(EntityType::TypeAlias)
    } else if p == "module"@ {
        Some(EntityType::Module)
    } else {
        None
    }
}

/// Law of capture prefixes: the text of each entity type that a definition
/// can have names that type as a capture prefix, `static` names a variable,
/// and a prefix names a type only in these ways; files and imports are never
/// named by a prefix.
pub proof fn lemma_prefix_names_entity_type(p: Seq<char>, t: EntityType)
    ensures
        t != EntityType::File && t != EntityType::Import ==> entity_type_of_prefix(
            crate::parser::entity::entity_type_text(t),
        ) == Some(t),
        entity_type_of_prefix("static"@) == Some(EntityType::Variable),
        entity_type_of_prefix(p) == Some(t) ==> p == crate::parser::entity::entity_type_text(t) || (p
            == "static"@ && t == EntityType::Variable),
        entity_type_of_prefix(p) != Some(EntityType::File),
        entity_type_of_prefix(p) != Some(EntityType::Import),
{
    reveal_strlit("function");
    reveal_strlit("struct");
    reveal_strlit("enum");
    reveal_strlit("trait");
    reveal_strlit("class");
    reveal_strlit("interface");
    reveal_strlit("method");
    reveal_strlit("constant");
    reveal_strlit("static");
    reveal_strlit("variable");
    reveal_strlit("type_alias");
    reveal_strlit("module");
    let x = crate::parser::entity::entity_type_text(t);
    assert(crate::text::word_key("function"@) == (8int, 'f', 'u', 'n'));
    assert(crate::text::word_key("struct"@) == (6int, 's', 't', 'r'));
    assert(crate::text::word_key("enum"@) == (4int, 'e', 'n', 'u'));
    assert(crate::text::word_key("trait"@) == (5int, 't', 'r', 'a'));
    assert(crate::text::word_key("class"@) == (5int, 'c', 'l', 'a'));
    assert(crate::text::word_key("interface"@) == (9int, 'i', 'n', 't'));
    assert(crate::text::word_key("method"@) == (6int, 'm', 'e', 't'));
    assert(crate::text::word_key("constant"@) == (8int, 'c', 'o', 'n'));
    assert(crate::text::word_key("static"@) == (6int, 's', 't', 'a'));
    assert(crate::text::word_key("variable"@) == (8int, 'v', 'a', 'r'));
    assert(crate::text::word_key("type_alias"@) == (10int, 't', 'y', 'p'));
    assert(crate::text::word_key("module"@) == (6int, 'm', 'o', 'd'));
    assert(crate::text::word_key(x) == crate::text::word_key(x));
    assert(crate::text::word_key(p) == crate::text::word_key(p));
}

/// The first capture of the match at or after index `i` with the given name.
pub open spec fn find_capture(m: Seq<CaptureModel>, name: Seq<char>, i: int) -> Option<
    CaptureModel,
>
    decreases m.len() - i,
{
    if i < 0 || i >= m.len() {
        None
    } else if m[i].name == name {
        Some(m[i])
    } else {
        find_capture(m, name, i + 1)
    }
}

/// Functions and methods, which can make calls.
pub open spec fn is_callable_kind(t: EntityType) -> bool {
    t == EntityType::Function || t == EntityType::Method
}

/// Classes, structs, traits and enums, which can inherit and implement.
pub open spec fn is_type_kind(t: EntityType) -> bool {
    t == EntityType::Class || t == EntityType::Struct || t == EntityType::Trait || t
        == EntityType::Enum
}

/// An entity of the requested family that spans the given line of the file.
pub open spec fn encloses(e: EntityModel, file: Seq<char>, line: nat, callable: bool) -> bool {
    (if callable {
        is_callable_kind(e.entity_type)
    } else {
        is_type_kind(e.entity_type)
    }) && e.source_file == file && e.start_line <= line && e.end_line >= line
}

/// The qualified name of the last of the first `k` entities that encloses
/// the line, or the file path when none does.
pub open spec fn enclosing(
    ents: Seq<EntityModel>,
    file: Seq<char>,
    line: nat,
    callable: bool,
    k: int,
) -> Seq<char>
    decreases k,
{
    if k <= 0 {
        file
    } else if encloses(ents[k - 1], file, line, callable) {
        ents[k - 1].qualified_name
    } else {
        enclosing(ents, file, line, callable, k - 1)
    }
}

/// The parent type named by an `impl.type` capture, for methods.
pub open spec fn parent_name_of(m: Seq<CaptureModel>, prefix: Seq<char>) -> Option<Seq<char>> {
    if prefix == "method"@ {
        match find_capture(m, "impl.type"@, 0) {
            Some(c) => c.text,
            None => None,
        }
    } else {
        None
    }
}

/// The qualified name of the last of the first `k` entities that is a
/// class, struct, trait or enum of the file spanning the line, if any: the
/// innermost type around the line, since a type is extracted before what it
/// holds.
pub open spec fn enclosing_type(ents: Seq<EntityModel>, file: Seq<char>, line: nat, k: int) -> Option<
    Seq<char>,
>
    decreases k,
{
    if k <= 0 {
        None
    } else if encloses(ents[k - 1], file, line, false) {
        Some(ents[k - 1].qualified_name)
    } else {
        enclosing_type(ents, file, line, k - 1)
    }
}

/// The qualified name of the parent of a new entity: for a method of an
/// `impl` block, `file::type` of the implemented type; otherwise the
/// innermost class, struct, trait or enum already extracted around the line
/// where the entity starts, if any.
pub open spec fn parent_of(
    file: Seq<char>,
    m: Seq<CaptureModel>,
    prefix: Seq<char>,
    ents: Seq<EntityModel>,
    line: nat,
) -> Option<Seq<char>> {
    match parent_name_of(m, prefix) {
        Some(p) => Some(file + "::"@ + p),
        None => enclosing_type(ents, file, line, ents.len() as int),
    }
}

/// The qualified name `parent::name` under a parent, else `file::name`.
pub open spec fn qualified_name_of(file: Seq<char>, parent_qn: Option<Seq<char>>, text: Seq<char>) -> Seq<
    char,
> {
    match parent_qn {
        Some(q) => q + "::"@ + text,
        None => file + "::"@ + text,
    }
}

/// A new entity for a name capture, with its containment edge.
pub open spec fn named_entity_step(
    file: Seq<char>,
    lang: CodeLanguage,
    m: Seq<CaptureModel>,
    c: CaptureModel,
    et: EntityType,
    st: ParseModel,
) -> ParseModel {
    let text = text_or_empty(c.text);
    let prefix = capture_prefix(c.name);
    let def = find_capture(m, prefix + ".def"@, 0);
    let content = match def {
        Some(d) => text_or_empty(d.text),
        None => text,
    };
    let signature = match def {
        Some(d) => first_line_of(text_or_empty(d.text)),
        None => text,
    };
    let start_line = match def {
        Some(d) => d.start_row + 1,
        None => c.start_row + 1,
    };
    let end_line = match def {
        Some(d) => d.end_row + 1,
        None => c.end_row + 1,
    };
    let parent_qn = parent_of(file, m, prefix, st.entities, start_line);
    let qn = qualified_name_of(file, parent_qn, text);
    let container = match parent_qn {
        Some(q) => q,
        None => file,
    };
    ParseModel {
        entities: st.entities.push(
            EntityModel {
                qualified_name: qn,
                name: text,
                entity_type: et,
                language: lang,
                source_file: file,
                content: content,
                start_line: start_line,
                end_line: end_line,
                parent: parent_qn,
                signature: signature,
            },
        ),
        relationships: st.relationships.push(
            RelationshipModel { from: container, to: qn, kind: RelationshipType::Contains },
        ),
    }
}

/// A new import entity, contained in the file, with an import edge.
pub open spec fn import_step(
    file: Seq<char>,
    lang: CodeLanguage,
    c: CaptureModel,
    st: ParseModel,
) -> ParseModel {
    let text = text_or_empty(c.text);
    let import_qn = file + "::import::"@ + text;
    ParseModel {
        entities: st.entities.push(
            EntityModel {
                qualified_name: import_qn,
                name: text,
                entity_type: EntityType::Import,
                language: lang,
                source_file: file,
                content: text,
                start_line: c.start_row + 1,
                end_line: c.end_row + 1,
                parent: Some(file),
                signature: text,
            },
        ),
        relationships: st.relationships.push(
            RelationshipModel { from: file, to: import_qn, kind: RelationshipType::Contains },
        ).push(RelationshipModel { from: file, to: text, kind: RelationshipType::Imports }),
    }
}

/// A new edge from the entity enclosing the capture.
pub open spec fn edge_step(
    file: Seq<char>,
    c: CaptureModel,
    callable: bool,
    to: Seq<char>,
    kind: RelationshipType,
    st: ParseModel,
) -> ParseModel {
    let from = enclosing(st.entities, file, c.start_row + 1, callable, st.entities.len() as int);
    ParseModel {
        entities: st.entities,
        relationships: st.relationships.push(RelationshipModel { from, to, kind }),
    }
}

/// The effect of one capture of match `m` on the entities and relationships.
pub open spec fn process_capture(
    file: Seq<char>,
    lang: CodeLanguage,
    m: Seq<CaptureModel>,
    c: CaptureModel,
    st: ParseModel,
) -> ParseModel {
    let text = text_or_empty(c.text);
    if is_definition_capture(c.name) {
        st
    } else if is_entity_name_capture(c.name) {
        match entity_type_of_prefix(capture_prefix(c.name)) {
            Some(et) => named_entity_step(file, lang, m, c, et, st),
            None => st,
        }
    } else if c.name == "import.path"@ || c.name == "import.module"@ {
        import_step(file, lang, c, st)
    } else if c.name == "call.name"@ {
        edge_step(file, c, true, file + "::"@ + text, RelationshipType::Calls, st)
    } else if c.name == "call.method_name"@ {
        edge_step(file, c, true, "*::"@ + text, RelationshipType::Calls, st)
    } else if c.name == "inherits.name"@ {
        edge_step(file, c, false, text, RelationshipType::Inherits, st)
    } else if c.name == "implements.name"@ {
        edge_step(file, c, false, text, RelationshipType::Implements, st)
    } else {
        st
    }
}

/// The effect of the first `k` captures of match `m`, in order.
pub open spec fn process_captures(
    file: Seq<char>,
    lang: CodeLanguage,
    m: Seq<CaptureModel>,
    k: int,
    st: ParseModel,
) -> ParseModel
    decreases k,
{
    if k <= 0 {
        st
    } else {
        process_capture(file, lang, m, m[k - 1], process_captures(file, lang, m, k - 1, st))
    }
}

/// The effect of the first `n` matches, in order.
pub open spec fn process_matches(
    file: Seq<char>,
    lang: CodeLanguage,
    ms: Seq<Seq<CaptureModel>>,
    n: int,
    st: ParseModel,
) -> ParseModel
    decreases n,
{
    if n <= 0 {
        st
    } else {
        let prev = process_matches(file, lang, ms, n - 1, st);
        process_captures(file, lang, ms[n - 1], ms[n - 1].len() as int, prev)
    }
}

/// The entity that stands for the file itself.
pub open spec fn file_entity(
    file: Seq<char>,
    file_name: Option<Seq<char>>,
    line_count: nat,
    lang: CodeLanguage,
) -> EntityModel {
    EntityModel {
        qualified_name: file,
        name: match file_name {
            Some(n) => n,
            None => file,
        },
        entity_type: EntityType::File,
        language: lang,
        source_file: file,
        content: seq![],
        start_line: 1,
        end_line: line_count,
        parent: None,
        signature: file,
    }
}

/// Entities and relationships of a file: the file entity, then the effect of
/// every capture of every match, in order.
pub open spec fn parse_model(
    file: Seq<char>,
    file_name: Option<Seq<char>>,
    line_count: nat,
    lang: CodeLanguage,
    ms: Seq<Seq<CaptureModel>>,
) -> ParseModel {
    process_matches(
        file,
        lang,
        ms,
        ms.len() as int,
        ParseModel { entities: seq![file_entity(file, file_name, line_count, lang)], relationships: seq![] },
    )
}

// ---------------------------------------------------------------------------
// Extraction
// ---------------------------------------------------------------------------

/// Model of the entities and relationships collected so far.
pub open spec fn state_of(entities: Seq<CodeEntity>, rels: Seq<CodeRelationship>) -> ParseModel {
    ParseModel { entities: entity_views(entities), relationships: relationship_views(rels) }
}

/// A copy of an optional string.
fn clone_opt(o: &Option<String>) -> (r: Option<String>)
    ensures
        opt_view(r) == opt_view(*o),
{
    match o {
        Some(s) => Some(s.clone()),
        None => None,
    }
}

/// The text of a capture, or the empty string when it could not be read.
fn text_or_empty_exec(t: &Option<String>) -> (r: String)
    ensures
        r@ == text_or_empty(opt_view(*t)),
{
    match t {
        Some(s) => s.clone(),
        None => String::new(),
    }
}

fn is_definition_capture_exec(n: &str) -> (r: bool)
    ensures
        r == is_definition_capture(n@),
{
    str_eq(n, "function.def") || str_eq(n, "struct.def") || str_eq(n, "enum.def") || str_eq(
        n,
        "trait.def",
    ) || str_eq(n, "class.def") || str_eq(n, "interface.def") || str_eq(n, "method.def")
        || str_eq(n, "constant.def") || str_eq(n, "static.def") || str_eq(n, "variable.def")
        || str_eq(n, "import.def") || str_eq(n, "import.from_def") || str_eq(n, "type_alias.def")
        || str_eq(n, "module.def")
}

fn is_entity_name_capture_exec(n: &str) -> (r: bool)
    ensures
        r == is_entity_name_capture(n@),
{
    str_ends_with(n, ".name") && !str_starts_with(n, "call.") && !str_starts_with(n, "inherits.")
        && !str_starts_with(n, "implements.")
}

fn capture_prefix_exec(n: &str) -> (r: String)
    requires
        is_suffix(".name"@, n@),
    ensures
        r@ == capture_prefix(n@),
{
    let cs = to_chars(n);
    let sfx = to_chars(".name");
    string_of(cs.as_slice(), 0, cs.len() - sfx.len())
}

fn entity_type_of_prefix_exec(p: &str) -> (r: Option<EntityType>)
    ensures
        r == entity_type_of_prefix(p@),
{
    if str_eq(p, "function") {
        Some(EntityType::Function)
    } else if str_eq(p, "struct") {
        Some(EntityType::Struct)
    } else if str_eq(p, "enum") {
        Some(EntityType::Enum)
    } else if str_eq(p, "trait") {
        Some(EntityType::Trait)
    } else if str_eq(p, "class") {
        Some(EntityType::Class)
    } else if str_eq(p, "interface") {
        Some(EntityType::Interface)
    } else if str_eq(p, "method") {
        Some(EntityType::Method)
    } else if str_eq(p, "constant") {
        Some(EntityType::Constant)
    } else if str_eq(p, "static") {
        Some(EntityType::Variable)
    } else if str_eq(p, "variable") {
        Some(EntityType::Variable)
    } else if str_eq(p, "type_alias") {
        Some(EntityType::TypeAlias)
    } else if str_eq(p, "module") {
        Some(EntityType::Module)
    } else {
        None
    }
}

/// Index of the first capture of the match with the given name.
fn find_capture_exec(m: &Vec<CaptureText>, name: &str) -> (r: Option<usize>)
    ensures
        match r {
            Some(i) => i < m@.len() && find_capture(capture_views(m@), name@, 0) == Some(
                m@[i as int]@,
            ),
            None => find_capture(capture_views(m@), name@, 0) is None,
        },
{
    let ghost v = capture_views(m@);
    let mut i: usize = 0;
    while i < m.len()
        invariant
            v == capture_views(m@),
            i <= m@.len(),
            find_capture(v, name@, 0) == find_capture(v, name@, i as int),
        decreases m@.len() - i,
    {
        if str_eq(m[i].name.as_str(), name) {
            return Some(i);
        }
        i = i + 1;
    }
    None
}

/// Whether the entity is of the requested family and spans the line.
fn encloses_exec(e: &CodeEntity, file: &str, line: usize, callable: bool) -> (r: bool)
    ensures
        r == encloses(e@, file@, line as nat, callable),
{
    let kind_ok = if callable {
        e.entity_type == EntityType::Function || e.entity_type == EntityType::Method
    } else {
        e.entity_type == EntityType::Class || e.entity_type == EntityType::Struct
            || e.entity_type == EntityType::Trait || e.entity_type == EntityType::Enum
    };
    kind_ok && str_eq(e.source_file.as_str(), file) && e.start_line <= line && e.end_line >= line
}

/// The qualified name of the last entity of the family that spans the line,
/// or the file path.
fn enclosing_exec(entities: &Vec<CodeEntity>, file: &str, line: usize, callable: bool) -> (r:
    String)
    ensures
        r@ == enclosing(
            entity_views(entities@),
            file@,
            line as nat,
            callable,
            entities@.len() as int,
        ),
{
    let ghost v = entity_views(entities@);
    let mut k: usize = entities.len();
    while k > 0
        invariant
            v == entity_views(entities@),
            k <= entities@.len(),
            enclosing(v, file@, line as nat, callable, entities@.len() as int) == enclosing(
                v,
                file@,
                line as nat,
                callable,
                k as int,
            ),
        decreases k,
    {
        if encloses_exec(&entities[k - 1], file, line, callable) {
            return entities[k - 1].qualified_name.clone();
        }
        k = k - 1;
    }
    String::from_str(file)
}

/// The qualified name of the innermost class, struct, trait or enum of the
/// file that spans the line, if any.
fn enclosing_type_exec(entities: &Vec<CodeEntity>, file: &str, line: usize) -> (r: Option<String>)
    ensures
        opt_view(r) == enclosing_type(entity_views(entities@), file@, line as nat, entities@.len() as int),
{
    let ghost v = entity_views(entities@);
    let mut k: usize = entities.len();
    while k > 0
        invariant
            v == entity_views(entities@),
            k <= entities@.len(),
            enclosing_type(v, file@, line as nat, entities@.len() as int) == enclosing_type(
                v,
                file@,
                line as nat,
                k as int,
            ),
        decreases k,
    {
        if encloses_exec(&entities[k - 1], file, line, false) {
            return Some(entities[k - 1].qualified_name.clone());
        }
        k = k - 1;
    }
    None
}

/// Adds the entity named by a name capture, and its containment edge.
fn named_entity_exec(
    file: &str,
    lang: CodeLanguage,
    m: &Vec<CaptureText>,
    c: &CaptureText,
    et: EntityType,
    entities: &mut Vec<CodeEntity>,
    rels: &mut Vec<CodeRelationship>,
)
    requires
        is_suffix(".name"@, c.name@),
        c.start_row < usize::MAX,
        c.end_row < usize::MAX,
        forall|j: int|
            0 <= j < m@.len() ==> #[trigger] m@[j].start_row < usize::MAX && m@[j].end_row
                < usize::MAX,
    ensures
        state_of(final(entities)@, final(rels)@) == named_entity_step(
            file@,
            lang,
            capture_views(m@),
            c@,
            et,
            state_of(old(entities)@, old(rels)@),
        ),
{
    let ghost v = capture_views(m@);
    let text = text_or_empty_exec(&c.text);
    let prefix = capture_prefix_exec(c.name.as_str());
    let def_name = concat(prefix.as_str(), ".def");
    let def = find_capture_exec(m, def_name.as_str());
    let content: String;
    let signature: String;
    let start_line: usize;
    let end_line: usize;
    match def {
        Some(i) => {
            let dt = text_or_empty_exec(&m[i].text);
            signature = first_line(dt.as_str());
            content = dt;
            start_line = m[i].start_row + 1;
            end_line = m[i].end_row + 1;
        },
        None => {
            content = text.clone();
            signature = text.clone();
            start_line = c.start_row + 1;
            end_line = c.end_row + 1;
        },
    }
    let parent: Option<String> = if str_eq(prefix.as_str(), "method") {
        match find_capture_exec(m, "impl.type") {
            Some(i) => clone_opt(&m[i].text),
            None => None,
        }
    } else {
        None
    };
    let parent_qn: Option<String> = match &parent {
        Some(p) => Some(concat3(file, "::", p.as_str())),
        None => enclosing_type_exec(entities, file, start_line),
    };
    let qn = match &parent_qn {
        Some(q) => concat3(q.as_str(), "::", text.as_str()),
        None => concat3(file, "::", text.as_str()),
    };
    let container = match &parent_qn {
        Some(q) => q.clone(),
        None => String::from_str(file),
    };
    let ghost old_e = entity_views(entities@);
    let ghost old_r = relationship_views(rels@);
    entities.push(
        CodeEntity {
            qualified_name: qn.clone(),
            name: text,
            entity_type: et,
            language: lang,
            source_file: String::from_str(file),
            content: content,
            start_line: start_line,
            end_line: end_line,
            parent: parent_qn,
            signature: signature,
        },
    );
    rels.push(
        CodeRelationship {
            from_qualified_name: container,
            to_qualified_name: qn,
            relationship_type: RelationshipType::Contains,
        },
    );
    proof {
        let st = named_entity_step(file@, lang, v, c@, et, ParseModel { entities: old_e, relationships: old_r });
        assert(entity_views(entities@) =~= st.entities);
        assert(relationship_views(rels@) =~= st.relationships);
    }
}

/// Adds the import entity of an import capture, and its edges.
fn import_exec(
    file: &str,
    lang: CodeLanguage,
    c: &CaptureText,
    entities: &mut Vec<CodeEntity>,
    rels: &mut Vec<CodeRelationship>,
)
    requires
        c.start_row < usize::MAX,
        c.end_row < usize::MAX,
    ensures
        state_of(final(entities)@, final(rels)@) == import_step(
            file@,
            lang,
            c@,
            state_of(old(entities)@, old(rels)@),
        ),
{
    let text = text_or_empty_exec(&c.text);
    let import_qn = concat3(file, "::import::", text.as_str());
    let ghost old_e = entity_views(entities@);
    let ghost old_r = relationship_views(rels@);
    entities.push(
        CodeEntity {
            qualified_name: import_qn.clone(),
            name: text.clone(),
            entity_type: EntityType::Import,
            language: lang,
            source_file: String::from_str(file),
            content: text.clone(),
            start_line: c.start_row + 1,
            end_line: c.end_row + 1,
            parent: Some(String::from_str(file)),
            signature: text.clone(),
        },
    );
    rels.push(
        CodeRelationship {
            from_qualified_name: String::from_str(file),
            to_qualified_name: import_qn,
            relationship_type: RelationshipType::Contains,
        },
    );
    rels.push(
        CodeRelationship {
            from_qualified_name: String::from_str(file),
            to_qualified_name: text,
            relationship_type: RelationshipType::Imports,
        },
    );
    proof {
        let st = import_step(file@, lang, c@, ParseModel { entities: old_e, relationships: old_r });
        assert(entity_views(entities@) =~= st.entities);
        assert(relationship_views(rels@) =~= st.relationships);
    }
}

/// Adds an edge from the entity enclosing the capture.
fn edge_exec(
    file: &str,
    c: &CaptureText,
    callable: bool,
    to: String,
    kind: RelationshipType,
    entities: &Vec<CodeEntity>,
    rels: &mut Vec<CodeRelationship>,
)
    requires
        c.start_row < usize::MAX,
    ensures
        state_of(entities@, final(rels)@) == edge_step(
            file@,
            c@,
            callable,
            to@,
            kind,
            state_of(entities@, old(rels)@),
        ),
{
    let from = enclosing_exec(entities, file, c.start_row + 1, callable);
    let ghost old_r = relationship_views(rels@);
    rels.push(
        CodeRelationship { from_qualified_name: from, to_qualified_name: to, relationship_type: kind },
    );
    proof {
        assert(relationship_views(rels@) =~= old_r.push(
            RelationshipModel { from: from@, to: to@, kind },
        ));
    }
}

/// Applies one capture of match `m`.
fn process_capture_exec(
    file: &str,
    lang: CodeLanguage,
    m: &Vec<CaptureText>,
    c: &CaptureText,
    entities: &mut Vec<CodeEntity>,
    rels: &mut Vec<CodeRelationship>,
)
    requires
        c.start_row < usize::MAX,
        c.end_row < usize::MAX,
        forall|j: int|
            0 <= j < m@.len() ==> #[trigger] m@[j].start_row < usize::MAX && m@[j].end_row
                < usize::MAX,
    ensures
        state_of(final(entities)@, final(rels)@) == process_capture(
            file@,
            lang,
            capture_views(m@),
            c@,
            state_of(old(entities)@, old(rels)@),
        ),
{
    let name = c.name.as_str();
    if is_definition_capture_exec(name) {
    } else if is_entity_name_capture_exec(name) {
        let prefix = capture_prefix_exec(name);
        match entity_type_of_prefix_exec(prefix.as_str()) {
            Some(et) => named_entity_exec(file, lang, m, c, et, entities, rels),
            None => {},
        }
    } else if str_eq(name, "import.path") || str_eq(name, "import.module") {
        import_exec(file, lang, c, entities, rels);
    } else if str_eq(name, "call.name") {
        let text = text_or_empty_exec(&c.text);
        let to = concat3(file, "::", text.as_str());
        edge_exec(file, c, true, to, RelationshipType::Calls, entities, rels);
    } else if str_eq(name, "call.method_name") {
        let text = text_or_empty_exec(&c.text);
        let to = concat("*::", text.as_str());
        edge_exec(file, c, true, to, RelationshipType::Calls, entities, rels);
    } else if str_eq(name, "inherits.name") {
        let to = text_or_empty_exec(&c.text);
        edge_exec(file, c, false, to, RelationshipType::Inherits, entities, rels);
    } else if str_eq(name, "implements.name") {
        let to = text_or_empty_exec(&c.text);
        edge_exec(file, c, false, to, RelationshipType::Implements, entities, rels);
    }
}

/// Builds the entities and relationships of a file from its query matches:
/// the file entity first, then the effect of every capture of every match,
/// in order.
pub fn collect_entities(
    file_path: &str,
    file_name: Option<String>,
    line_count: usize,
    lang: CodeLanguage,
    matches: &Vec<Vec<CaptureText>>,
) -> (r: ParseResult)
    requires
        rows_fit(match_views(matches@)),
    ensures
        r@ == parse_model(file_path@, opt_view(file_name), line_count as nat, lang, match_views(matches@)),
{
    let ghost ms = match_views(matches@);
    let ghost init = ParseModel {
        entities: seq![file_entity(file_path@, opt_view(file_name), line_count as nat, lang)],
        relationships: seq![],
    };
    let name = match file_name {
        Some(n) => n,
        None => String::from_str(file_path),
    };
    let mut entities: Vec<CodeEntity> = Vec::new();
    let mut rels: Vec<CodeRelationship> = Vec::new();
    entities.push(
        CodeEntity {
            qualified_name: String::from_str(file_path),
            name: name,
            entity_type: EntityType::File,
            language: lang,
            source_file: String::from_str(file_path),
            content: String::new(),
            start_line: 1,
            end_line: line_count,
            parent: None,
            signature: String::from_str(file_path),
        },
    );
    proof {
        assert(entity_views(entities@) =~= init.entities);
        assert(relationship_views(rels@) =~= init.relationships);
    }
    let mut i: usize = 0;
    while i < matches.len()
        invariant
            ms == match_views(matches@),
            rows_fit(ms),
            i <= matches@.len(),
            state_of(entities@, rels@) == process_matches(file_path@, lang, ms, i as int, init),
        decreases matches@.len() - i,
    {
        let m = &matches[i];
        let ghost prev = state_of(entities@, rels@);
        proof {
            assert(ms[i as int] == capture_views(m@));
            assert forall|j: int| 0 <= j < m@.len() implies #[trigger] m@[j].start_row < usize::MAX
                && m@[j].end_row < usize::MAX by {
                assert(ms[i as int][j] == m@[j]@);
                assert(ms[i as int][j].start_row < usize::MAX);
            }
        }
        let mut k: usize = 0;
        while k < m.len()
            invariant
                ms == match_views(matches@),
                i < matches@.len(),
                m == &matches@[i as int],
                ms[i as int] == capture_views(m@),
                forall|j: int|
                    0 <= j < m@.len() ==> #[trigger] m@[j].start_row < usize::MAX && m@[j].end_row
                        < usize::MAX,
                k <= m@.len(),
                state_of(entities@, rels@) == process_captures(
                    file_path@,
                    lang,
                    ms[i as int],
                    k as int,
                    prev,
                ),
            decreases m@.len() - k,
        {
            proof {
                assert(ms[i as int][k as int] == m@[k as int]@);
            }
            process_capture_exec(file_path, lang, m, &m[k], &mut entities, &mut rels);
            k = k + 1;
        }
        i = i + 1;
    }
    proof {
        assert(ms.len() == matches@.len());
    }
    ParseResult { entities, relationships: rels }
}

/// The qualified name of the last function or method that spans `line` of
/// the file, or the file path when none does.
pub fn find_enclosing_function(entities: &Vec<CodeEntity>, file_path: &str, line: usize) -> (r:
    String)
    ensures
        r@ == enclosing(entity_views(entities@), file_path@, line as nat, true, entities@.len() as int),
{
    enclosing_exec(entities, file_path, line, true)
}

/// The qualified name of the last class, struct, trait or enum that spans
/// `line` of the file, or the file path when none does.
pub fn find_enclosing_type(entities: &Vec<CodeEntity>, file_path: &str, line: usize) -> (r: String)
    ensures
        r@ == enclosing(
            entity_views(entities@),
            file_path@,
            line as nat,
            false,
            entities@.len() as int,
        ),
{
    enclosing_exec(entities, file_path, line, false)
}

/// The grammar of a language.
pub fn get_language(lang: CodeLanguage) -> (r: Grammar)
    ensures
        r@ == lang,
{
    match lang {
        CodeLanguage::Rust => rust_grammar(),
        CodeLanguage::Python => python_grammar(),
        CodeLanguage::JavaScript => javascript_grammar(),
        CodeLanguage::TypeScript => typescript_grammar(),
        CodeLanguage::Java => java_grammar(),
        CodeLanguage::Go => go_grammar(),
        CodeLanguage::C => c_grammar(),
        CodeLanguage::Cpp => cpp_grammar(),
    }
}

/// Why a source file could not be turned into entities.
pub enum ParseFileError {
    /// The grammar does not fit the parser library.
    Language(tree_sitter::LanguageError),
    /// The parser produced no tree for the file at this path.
    Parse(String),
    /// The language's query does not fit its grammar.
    Query(tree_sitter::QueryError),
}

/// The captures of a language's query in a source.
pub open spec fn source_captures(lang: CodeLanguage, source: Seq<char>) -> Seq<Seq<CaptureModel>> {
    ts_captures(lang, queries::query_text(lang)@, source)
}

/// Parses a source file and extracts its code entities and relationships.
///
/// It succeeds exactly when tree-sitter accepts the language's grammar and
/// the language's query compiles against it; it fails with `Language` when
/// the grammar is not accepted and with `Query` when the query does not
/// compile, and never with `Parse`. On success the result is
/// [`parse_model`] of the file path, the file name (on a plain path the one
/// [`file_name_of`] gives), the number of lines of the source, and the
/// captures of the language's query in the source. The file entity comes
/// first, every entity belongs to the file and the language, every other
/// entity starts on a line at or before the one it ends on, and the edges
/// keep the shape stated by [`parse_well_formed`].
pub fn parse_file(file_path: &str, source: &str, lang: CodeLanguage) -> (r: Result<
    ParseResult,
    ParseFileError,
>)
    requires
        source@.len() < usize::MAX,
    ensures
        r is Ok <==> grammar_fits(lang) && query_compiles(lang, queries::query_text(lang)@),
        r matches Err(ParseFileError::Language(_)) <==> !grammar_fits(lang),
        r matches Err(ParseFileError::Query(_)) <==> grammar_fits(lang) && !query_compiles(
            lang,
            queries::query_text(lang)@,
        ),
        !(r matches Err(ParseFileError::Parse(_))),
        r matches Ok(pr) ==> {
            &&& exists|name: Option<Seq<char>>|
                pr@ == #[trigger] parse_model(
                    file_path@,
                    name,
                    lines_of(source@).len(),
                    lang,
                    source_captures(lang, source@),
                ) && (plain_path(file_path@) ==> name == file_name_of(file_path@))
            &&& pr@.entities.len() >= 1
            &&& pr@.entities[0].qualified_name == file_path@
            &&& pr@.entities[0].entity_type == EntityType::File
            &&& pr@.entities[0].end_line == lines_of(source@).len()
            &&& plain_path(file_path@) ==> pr@.entities[0].name == match file_name_of(file_path@) {
                Some(n) => n,
                None => file_path@,
            }
            &&& parse_well_formed(file_path@, lang, pr@)
            &&& lines_ordered(pr@.entities)
        },
{
    let grammar = get_language(lang);
    let mut parser = new_parser();
    match set_parser_language(&mut parser, &grammar) {
        Ok(()) => {},
        Err(e) => {
            return Err(ParseFileError::Language(e));
        },
    }
    let tree = match parse_source(&mut parser, source) {
        Some(t) => t,
        None => {
            return Err(ParseFileError::Parse(String::from_str(file_path)));
        },
    };
    let query = match new_query(&grammar, queries::get_query_for_language(lang)) {
        Ok(q) => q,
        Err(e) => {
            return Err(ParseFileError::Query(e));
        },
    };
    let matches = query_captures(&query, &tree, source);
    let ghost ms = match_views(matches@);
    proof {
        assert forall|i: int, j: int| 0 <= i < ms.len() && 0 <= j < ms[i].len() implies #[trigger] ms[i][j].start_row
            < usize::MAX && ms[i][j].end_row < usize::MAX by {
            assert(ms[i][j] == matches@[i]@[j]@);
            assert(matches@[i]@[j].start_row <= matches@[i]@[j].end_row);
        }
        assert forall|i: int, j: int| 0 <= i < ms.len() && 0 <= j < ms[i].len() implies #[trigger] ms[i][j].start_row
            <= ms[i][j].end_row by {
            assert(ms[i][j] == matches@[i]@[j]@);
        }
    }
    let file_name = path_file_name(file_path);
    let line_count = count_lines(source);
    let ghost name = opt_view(file_name);
    let pr = collect_entities(file_path, file_name, line_count, lang, &matches);
    proof {
        lemma_parse_well_formed(file_path@, name, line_count as nat, lang, ms);
        lemma_entity_lines_ordered(file_path@, name, line_count as nat, lang, ms);
        assert(ms == source_captures(lang, source@));
        assert(line_count as nat == lines_of(source@).len());
        assert(pr@ == parse_model(file_path@, name, lines_of(source@).len(), lang, source_captures(lang, source@)));
        assert(plain_path(file_path@) ==> name == file_name_of(file_path@));
    }
    Ok(pr)
}

// ---------------------------------------------------------------------------
// Laws of the extraction
// ---------------------------------------------------------------------------

/// Some entity has this qualified name.
pub open spec fn names_entity(ents: Seq<EntityModel>, qn: Seq<char>) -> bool {
    exists|i: int| 0 <= i < ents.len() && #[trigger] ents[i].qualified_name == qn
}

/// Some entity of the family (callables or types) has this qualified name.
pub open spec fn names_family(ents: Seq<EntityModel>, qn: Seq<char>, callable: bool) -> bool {
    exists|i: int|
        0 <= i < ents.len() && #[trigger] ents[i].qualified_name == qn && (if callable {
            is_callable_kind(ents[i].entity_type)
        } else {
            is_type_kind(ents[i].entity_type)
        })
}

/// The shape of one extracted edge: a containment edge points at an
/// extracted entity, a call starts at the file or at a function or method,
/// an inheritance or implementation starts at the file or at a class,
/// struct, trait or enum, and an import starts at the file.
pub open spec fn edge_well_formed(file: Seq<char>, ents: Seq<EntityModel>, r: RelationshipModel) -> bool {
    match r.kind {
        RelationshipType::Contains => names_entity(ents, r.to),
        RelationshipType::Calls => r.from == file || names_family(ents, r.from, true),
        RelationshipType::Inherits => r.from == file || names_family(ents, r.from, false),
        RelationshipType::Implements => r.from == file || names_family(ents, r.from, false),
        RelationshipType::Imports => r.from == file,
        _ => false,
    }
}

/// What every extraction result of a file keeps: the file entity comes
/// first; every entity belongs to the file and the language; every other
/// entity has a qualified name under `file::` and is not a file; every edge
/// is well formed.
pub open spec fn parse_well_formed(file: Seq<char>, lang: CodeLanguage, pm: ParseModel) -> bool {
    &&& pm.entities.len() >= 1
    &&& pm.entities[0].qualified_name == file
    &&& pm.entities[0].entity_type == EntityType::File
    &&& forall|i: int|
        0 <= i < pm.entities.len() ==> (#[trigger] pm.entities[i]).source_file == file
            && pm.entities[i].language == lang
    &&& forall|i: int|
        1 <= i < pm.entities.len() ==> is_prefix(file + "::"@, (#[trigger] pm.entities[i]).qualified_name)
            && pm.entities[i].entity_type != EntityType::File
    &&& forall|j: int|
        0 <= j < pm.relationships.len() ==> edge_well_formed(
            file,
            pm.entities,
            #[trigger] pm.relationships[j],
        )
}

/// `b` extends `a`: both sequences only grew.
pub open spec fn extends(a: ParseModel, b: ParseModel) -> bool {
    &&& a.entities.len() <= b.entities.len()
    &&& a.relationships.len() <= b.relationships.len()
    &&& forall|i: int| 0 <= i < a.entities.len() ==> #[trigger] b.entities[i] == a.entities[i]
    &&& forall|i: int|
        0 <= i < a.relationships.len() ==> #[trigger] b.relationships[i] == a.relationships[i]
}

proof fn lemma_prefix_concat(a: Seq<char>, b: Seq<char>)
    ensures
        is_prefix(a, a + b),
{
    assert((a + b).subrange(0, a.len() as int) =~= a);
}

proof fn lemma_prefix_extend(a: Seq<char>, q: Seq<char>, x: Seq<char>)
    requires
        is_prefix(a, q),
    ensures
        is_prefix(a, q + x),
{
    assert((q + x).subrange(0, a.len() as int) =~= q.subrange(0, a.len() as int));
}

proof fn lemma_enclosing_type_member(ents: Seq<EntityModel>, file: Seq<char>, line: nat, k: int)
    requires
        k <= ents.len(),
        ents.len() >= 1,
        ents[0].entity_type == EntityType::File,
    ensures
        enclosing_type(ents, file, line, k) matches Some(q) ==> exists|j: int|
            1 <= j < k && #[trigger] ents[j].qualified_name == q,
    decreases k,
{
    if k > 0 {
        if encloses(ents[k - 1], file, line, false) {
            assert(k - 1 != 0);
            assert(ents[k - 1].qualified_name == enclosing_type(ents, file, line, k)->0);
        } else {
            lemma_enclosing_type_member(ents, file, line, k - 1);
        }
    }
}

proof fn lemma_enclosing_shape(
    ents: Seq<EntityModel>,
    file: Seq<char>,
    line: nat,
    callable: bool,
    k: int,
)
    requires
        k <= ents.len(),
    ensures
        enclosing(ents, file, line, callable, k) == file || names_family(
            ents,
            enclosing(ents, file, line, callable, k),
            callable,
        ),
    decreases k,
{
    if k <= 0 {
    } else if encloses(ents[k - 1], file, line, callable) {
        assert(ents[k - 1].qualified_name == enclosing(ents, file, line, callable, k));
    } else {
        lemma_enclosing_shape(ents, file, line, callable, k - 1);
    }
}

proof fn lemma_extends_keeps_edges(file: Seq<char>, a: ParseModel, b: ParseModel)
    requires
        extends(a, b),
    ensures
        forall|j: int|
            0 <= j < a.relationships.len() && edge_well_formed(file, a.entities, a.relationships[j])
                ==> edge_well_formed(file, b.entities, #[trigger] b.relationships[j]),
{
    assert forall|j: int|
        0 <= j < a.relationships.len() && edge_well_formed(file, a.entities, a.relationships[j])
            implies edge_well_formed(file, b.entities, #[trigger] b.relationships[j]) by {
        let r = a.relationships[j];
        assert(b.relationships[j] == r);
        if names_entity(a.entities, r.to) {
            let i = choose|i: int| 0 <= i < a.entities.len() && #[trigger] a.entities[i].qualified_name == r.to;
            assert(b.entities[i] == a.entities[i]);
        }
        if names_family(a.entities, r.from, true) {
            let i = choose|i: int|
                0 <= i < a.entities.len() && #[trigger] a.entities[i].qualified_name == r.from && is_callable_kind(a.entities[i].entity_type);
            assert(b.entities[i] == a.entities[i]);
        }
        if names_family(a.entities, r.from, false) {
            let i = choose|i: int|
                0 <= i < a.entities.len() && #[trigger] a.entities[i].qualified_name == r.from && is_type_kind(a.entities[i].entity_type);
            assert(b.entities[i] == a.entities[i]);
        }
    }
}

proof fn lemma_capture_step(
    file: Seq<char>,
    lang: CodeLanguage,
    m: Seq<CaptureModel>,
    c: CaptureModel,
    st: ParseModel,
)
    requires
        parse_well_formed(file, lang, st),
    ensures
        parse_well_formed(file, lang, process_capture(file, lang, m, c, st)),
        extends(st, process_capture(file, lang, m, c, st)),
{
    reveal_strlit("::");
    reveal_strlit("::import::");
    let next = process_capture(file, lang, m, c, st);
    let text = text_or_empty(c.text);
    let n = st.entities.len();
    assert(extends(st, next));
    lemma_extends_keeps_edges(file, st, next);
    if is_definition_capture(c.name) {
    } else if is_entity_name_capture(c.name) {
        match entity_type_of_prefix(capture_prefix(c.name)) {
            Some(et) => {
                let e = next.entities[n as int];
                let prefix = capture_prefix(c.name);
                let parent_qn = parent_of(file, m, prefix, st.entities, e.start_line);
                assert(e.qualified_name == qualified_name_of(file, parent_qn, text));
                match parent_qn {
                    Some(q) => {
                        match parent_name_of(m, prefix) {
                            Some(p) => {
                                assert(q == (file + "::"@) + p);
                                lemma_prefix_concat(file + "::"@, p);
                            },
                            None => {
                                lemma_enclosing_type_member(st.entities, file, e.start_line, n as int);
                                let j = choose|j: int|
                                    1 <= j < n && #[trigger] st.entities[j].qualified_name == q;
                                assert(is_prefix(file + "::"@, st.entities[j].qualified_name));
                            },
                        }
                        lemma_prefix_extend(file + "::"@, q, "::"@ + text);
                        assert(e.qualified_name == q + ("::"@ + text));
                    },
                    None => {
                        assert(e.qualified_name == (file + "::"@) + text);
                        lemma_prefix_concat(file + "::"@, text);
                    },
                }
                assert(is_prefix(file + "::"@, e.qualified_name));
                assert(next.entities[n as int].qualified_name == next.relationships[st.relationships.len() as int].to);
            },
            None => {},
        }
    } else if c.name == "import.path"@ || c.name == "import.module"@ {
        let e = next.entities[n as int];
        assert(e.qualified_name == (file + "::"@) + ("::import::"@.subrange(2, 10) + text));
        lemma_prefix_concat(file + "::"@, "::import::"@.subrange(2, 10) + text);
        assert(is_prefix(file + "::"@, e.qualified_name));
        assert(next.entities[n as int].qualified_name == next.relationships[st.relationships.len() as int].to);
    } else {
        lemma_enclosing_shape(st.entities, file, c.start_row + 1, true, n as int);
        lemma_enclosing_shape(st.entities, file, c.start_row + 1, false, n as int);
    }
}

proof fn lemma_captures_wf(
    file: Seq<char>,
    lang: CodeLanguage,
    m: Seq<CaptureModel>,
    k: int,
    st: ParseModel,
)
    requires
        parse_well_formed(file, lang, st),
    ensures
        parse_well_formed(file, lang, process_captures(file, lang, m, k, st)),
        extends(st, process_captures(file, lang, m, k, st)),
    decreases k,
{
    if k > 0 {
        lemma_captures_wf(file, lang, m, k - 1, st);
        let prev = process_captures(file, lang, m, k - 1, st);
        lemma_capture_step(file, lang, m, m[k - 1], prev);
    }
}

proof fn lemma_matches_wf(
    file: Seq<char>,
    lang: CodeLanguage,
    ms: Seq<Seq<CaptureModel>>,
    n: int,
    st: ParseModel,
)
    requires
        parse_well_formed(file, lang, st),
    ensures
        parse_well_formed(file, lang, process_matches(file, lang, ms, n, st)),
        extends(st, process_matches(file, lang, ms, n, st)),
    decreases n,
{
    if n > 0 {
        lemma_matches_wf(file, lang, ms, n - 1, st);
        let prev = process_matches(file, lang, ms, n - 1, st);
        lemma_captures_wf(file, lang, ms[n - 1], ms[n - 1].len() as int, prev);
    }
}

/// Law of the extraction: whatever the query matches are, the result starts
/// with the file entity (unchanged), every entity belongs to the file and its
/// language, every other entity's qualified name lies under `file::`, every
/// containment edge points at an extracted entity, every call starts at the
/// file or at an extracted function or method, and every inheritance or
/// implementation edge starts at the file or at an extracted class, struct,
/// trait or enum.
pub proof fn lemma_parse_well_formed(
    file: Seq<char>,
    file_name: Option<Seq<char>>,
    line_count: nat,
    lang: CodeLanguage,
    ms: Seq<Seq<CaptureModel>>,
)
    ensures
        parse_well_formed(file, lang, parse_model(file, file_name, line_count, lang, ms)),
        parse_model(file, file_name, line_count, lang, ms).entities[0] == file_entity(
            file,
            file_name,
            line_count,
            lang,
        ),
{
    let init = ParseModel {
        entities: seq![file_entity(file, file_name, line_count, lang)],
        relationships: seq![],
    };
    assert(parse_well_formed(file, lang, init));
    lemma_matches_wf(file, lang, ms, ms.len() as int, init);
}

/// Every capture's node starts at or before the row where it ends.
pub open spec fn rows_ordered(ms: Seq<Seq<CaptureModel>>) -> bool {
    forall|i: int, j: int|
        0 <= i < ms.len() && 0 <= j < ms[i].len() ==> #[trigger] ms[i][j].start_row
            <= ms[i][j].end_row
}

/// Every entity after the first starts on a line (counted from 1) at or
/// before the one it ends on.
pub open spec fn lines_ordered(ents: Seq<EntityModel>) -> bool {
    forall|i: int| 1 <= i < ents.len() ==> 1 <= (#[trigger] ents[i]).start_line <= ents[i].end_line
}

proof fn lemma_find_capture_member(m: Seq<CaptureModel>, name: Seq<char>, i: int)
    ensures
        find_capture(m, name, i) matches Some(c) ==> exists|k: int| 0 <= k < m.len() && m[k] == c,
    decreases m.len() - i,
{
    if 0 <= i < m.len() && m[i].name != name {
        lemma_find_capture_member(m, name, i + 1);
    }
}

proof fn lemma_capture_lines(
    file: Seq<char>,
    lang: CodeLanguage,
    m: Seq<CaptureModel>,
    c: CaptureModel,
    st: ParseModel,
)
    requires
        lines_ordered(st.entities),
        c.start_row <= c.end_row,
        forall|k: int| 0 <= k < m.len() ==> (#[trigger] m[k]).start_row <= m[k].end_row,
    ensures
        lines_ordered(process_capture(file, lang, m, c, st).entities),
{
    let next = process_capture(file, lang, m, c, st);
    let n = st.entities.len() as int;
    if is_entity_name_capture(c.name) && !is_definition_capture(c.name) {
        lemma_find_capture_member(m, capture_prefix(c.name) + ".def"@, 0);
    }
    assert forall|i: int| 1 <= i < next.entities.len() implies 1 <= (#[trigger] next.entities[i]).start_line
        <= next.entities[i].end_line by {
        if i < n {
            assert(next.entities[i] == st.entities[i]);
        }
    }
}

proof fn lemma_captures_lines(
    file: Seq<char>,
    lang: CodeLanguage,
    m: Seq<CaptureModel>,
    k: int,
    st: ParseModel,
)
    requires
        lines_ordered(st.entities),
        k <= m.len(),
        forall|q: int| 0 <= q < m.len() ==> (#[trigger] m[q]).start_row <= m[q].end_row,
    ensures
        lines_ordered(process_captures(file, lang, m, k, st).entities),
    decreases k,
{
    if k > 0 {
        lemma_captures_lines(file, lang, m, k - 1, st);
        let prev = process_captures(file, lang, m, k - 1, st);
        lemma_capture_lines(file, lang, m, m[k - 1], prev);
    }
}

proof fn lemma_matches_lines(
    file: Seq<char>,
    lang: CodeLanguage,
    ms: Seq<Seq<CaptureModel>>,
    n: int,
    st: ParseModel,
)
    requires
        lines_ordered(st.entities),
        n <= ms.len(),
        rows_ordered(ms),
    ensures
        lines_ordered(process_matches(file, lang, ms, n, st).entities),
    decreases n,
{
    if n > 0 {
        lemma_matches_lines(file, lang, ms, n - 1, st);
        let prev = process_matches(file, lang, ms, n - 1, st);
        let m = ms[n - 1];
        assert forall|q: int| 0 <= q < m.len() implies (#[trigger] m[q]).start_row <= m[q].end_row by {
            assert(ms[n - 1][q] == m[q]);
        }
        lemma_captures_lines(file, lang, m, m.len() as int, prev);
    }
}

/// Law of the extraction: when every captured node starts at or before the
/// row where it ends, every entity after the file entity starts on a line
/// (counted from 1) at or before the one it ends on.
pub proof fn lemma_entity_lines_ordered(
    file: Seq<char>,
    file_name: Option<Seq<char>>,
    line_count: nat,
    lang: CodeLanguage,
    ms: Seq<Seq<CaptureModel>>,
)
    requires
        rows_ordered(ms),
    ensures
        lines_ordered(parse_model(file, file_name, line_count, lang, ms).entities),
{
    let init = ParseModel {
        entities: seq![file_entity(file, file_name, line_count, lang)],
        relationships: seq![],
    };
    lemma_matches_lines(file, lang, ms, ms.len() as int, init);
}

} // verus!
