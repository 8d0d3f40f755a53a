use cli_chat::parser::entity::{CodeEntity, EntityType, RelationshipType};
use cli_chat::parser::queries::get_query_for_language;
use cli_chat::parser::tree_sitter_parser::{
    collect_entities, find_enclosing_function, find_enclosing_type, parse_file, CaptureText,
};
use cli_chat::parser::{detect_language, language_for_extension, CodeLanguage};

fn entity(qn: &str, et: EntityType, start: usize, end: usize) -> CodeEntity {
    CodeEntity {
        qualified_name: qn.to_string(),
        name: qn.to_string(),
        entity_type: et,
        language: CodeLanguage::Rust,
        source_file: "a.rs".to_string(),
        content: String::new(),
        start_line: start,
        end_line: end,
        parent: None,
        signature: String::new(),
    }
}

#[test]
fn detect_language_by_extension_in_any_case() {
    assert_eq!(detect_language("src/main.rs"), Some(CodeLanguage::Rust));
    assert_eq!(detect_language("src/MAIN.RS"), Some(CodeLanguage::Rust));
    assert_eq!(detect_language("app.py"), Some(CodeLanguage::Python));
    assert_eq!(detect_language("web/app.mjs"), Some(CodeLanguage::JavaScript));
    assert_eq!(detect_language("web/app.tsx"), Some(CodeLanguage::TypeScript));
    assert_eq!(detect_language("Main.java"), Some(CodeLanguage::Java));
    assert_eq!(detect_language("main.go"), Some(CodeLanguage::Go));
    assert_eq!(detect_language("lib.h"), Some(CodeLanguage::C));
    assert_eq!(detect_language("lib.hxx"), Some(CodeLanguage::Cpp));
    assert_eq!(detect_language("App.TSX"), Some(CodeLanguage::TypeScript));
}

#[test]
fn detect_language_rejects_other_files() {
    assert_eq!(detect_language("notes.txt"), None);
    assert_eq!(detect_language("Makefile"), None);
    assert_eq!(language_for_extension("md"), None);
    assert_eq!(language_for_extension("CC"), Some(CodeLanguage::Cpp));
}

#[test]
fn labels_of_entities_and_edges() {
    assert_eq!(EntityType::Function.neo4j_label(), "Function");
    assert_eq!(EntityType::TypeAlias.neo4j_label(), "TypeAlias");
    assert_eq!(EntityType::TypeAlias.as_str(), "type_alias");
    assert_eq!(RelationshipType::Calls.neo4j_type(), "CALLS");
    assert_eq!(RelationshipType::TypeReference.neo4j_type(), "TYPE_REFERENCE");
    assert_eq!(CodeLanguage::Cpp.as_str(), "cpp");
}

#[test]
fn every_language_has_a_query() {
    for lang in [
        CodeLanguage::Rust,
        CodeLanguage::Python,
        CodeLanguage::JavaScript,
        CodeLanguage::TypeScript,
        CodeLanguage::Java,
        CodeLanguage::Go,
        CodeLanguage::C,
        CodeLanguage::Cpp,
    ] {
        assert!(get_query_for_language(lang).contains("@"));
    }
    assert!(get_query_for_language(CodeLanguage::Rust).contains("function_item"));
}

#[test]
fn parse_rust_file_entities_and_edges() {
    let source = "use std::io;\n\nfn main() {\n    helper();\n}\n\nfn helper() {}\n";
    let pr = match parse_file("src/main.rs", source, CodeLanguage::Rust) {
        Ok(pr) => pr,
        Err(_) => panic!("the Rust grammar parses this file"),
    };
    let first = &pr.entities[0];
    assert_eq!(first.entity_type, EntityType::File);
    assert_eq!(first.qualified_name, "src/main.rs");
    assert_eq!(first.name, "main.rs");
    assert_eq!(first.end_line, 7);
    let names: Vec<&str> = pr.entities.iter().map(|e| e.qualified_name.as_str()).collect();
    assert!(names.contains(&"src/main.rs::main"));
    assert!(names.contains(&"src/main.rs::helper"));
    assert!(names.contains(&"src/main.rs::import::std::io"));
    let main = pr.entities.iter().find(|e| e.name == "main").unwrap();
    assert_eq!(main.entity_type, EntityType::Function);
    assert_eq!(main.start_line, 3);
    assert_eq!(main.end_line, 5);
    assert_eq!(main.signature, "fn main() {");
    assert!(pr.relationships.iter().any(|r| r.relationship_type == RelationshipType::Calls
        && r.from_qualified_name == "src/main.rs::main"
        && r.to_qualified_name == "src/main.rs::helper"));
    assert!(pr.relationships.iter().any(|r| r.relationship_type == RelationshipType::Imports
        && r.from_qualified_name == "src/main.rs"
        && r.to_qualified_name == "std::io"));
}

#[test]
fn methods_are_qualified_by_their_type() {
    let source = "struct Point;\nimpl Point {\n    fn norm(&self) -> u32 { 0 }\n}\n";
    let pr = match parse_file("geo.rs", source, CodeLanguage::Rust) {
        Ok(pr) => pr,
        Err(_) => panic!("parses"),
    };
    let m = pr.entities.iter().find(|e| e.name == "norm").unwrap();
    assert_eq!(m.entity_type, EntityType::Method);
    assert_eq!(m.qualified_name, "geo.rs::Point::norm");
    assert_eq!(m.parent.as_deref(), Some("geo.rs::Point"));
    assert!(pr.relationships.iter().any(|r| r.relationship_type == RelationshipType::Contains
        && r.from_qualified_name == "geo.rs::Point"
        && r.to_qualified_name == "geo.rs::Point::norm"));
}

#[test]
fn collect_entities_from_captures() {
    let m = vec![
        CaptureText { name: "function.name".to_string(), text: Some("run".to_string()), start_row: 1, end_row: 1 },
        CaptureText {
            name: "function.def".to_string(),
            text: Some("fn run() {\n}".to_string()),
            start_row: 1,
            end_row: 2,
        },
    ];
    let pr = collect_entities("x.rs", Some("x.rs".to_string()), 3, CodeLanguage::Rust, &vec![m]);
    assert_eq!(pr.entities.len(), 2);
    assert_eq!(pr.entities[1].qualified_name, "x.rs::run");
    assert_eq!(pr.entities[1].content, "fn run() {\n}");
    assert_eq!(pr.entities[1].signature, "fn run() {");
    assert_eq!(pr.entities[1].start_line, 2);
    assert_eq!(pr.entities[1].end_line, 3);
    assert_eq!(pr.relationships.len(), 1);
    assert_eq!(pr.relationships[0].from_qualified_name, "x.rs");
}

#[test]
fn enclosing_entities_last_one_wins() {
    let ents = vec![
        entity("a.rs", EntityType::File, 1, 30),
        entity("a.rs::S", EntityType::Struct, 1, 20),
        entity("a.rs::f", EntityType::Function, 2, 10),
        entity("a.rs::g", EntityType::Method, 4, 6),
    ];
    assert_eq!(find_enclosing_function(&ents, "a.rs", 5), "a.rs::g");
    assert_eq!(find_enclosing_function(&ents, "a.rs", 8), "a.rs::f");
    assert_eq!(find_enclosing_function(&ents, "a.rs", 25), "a.rs");
    assert_eq!(find_enclosing_function(&ents, "b.rs", 5), "b.rs");
    assert_eq!(find_enclosing_type(&ents, "a.rs", 5), "a.rs::S");
    assert_eq!(find_enclosing_type(&ents, "a.rs", 21), "a.rs");
}

#[test]
fn extensions_follow_the_file_name() {
    assert_eq!(detect_language("dir.rs/file"), None);
    assert_eq!(detect_language(".rs"), None);
    assert_eq!(detect_language("a/.hidden.py"), Some(CodeLanguage::Python));
    assert_eq!(detect_language("src/lib.rs/"), Some(CodeLanguage::Rust));
    assert_eq!(detect_language("src/lib.rs/."), Some(CodeLanguage::Rust));
    assert_eq!(detect_language("src/lib.rs/.."), None);
}

#[test]
fn functions_inside_a_class_are_qualified_by_it() {
    let source = "class A:\n    def f(self):\n        return 1\n\ndef g():\n    pass\n";
    let pr = match parse_file("m.py", source, CodeLanguage::Python) {
        Ok(pr) => pr,
        Err(_) => panic!("parses"),
    };
    let names: Vec<&str> = pr.entities.iter().map(|e| e.qualified_name.as_str()).collect();
    assert!(names.contains(&"m.py::A"));
    assert!(names.contains(&"m.py::A::f"));
    assert!(names.contains(&"m.py::g"));
    let f = pr.entities.iter().find(|e| e.qualified_name == "m.py::A::f").unwrap();
    assert_eq!(f.parent.as_deref(), Some("m.py::A"));
    for e in &pr.entities[1..] {
        assert!(1 <= e.start_line && e.start_line <= e.end_line);
        assert!(e.qualified_name.starts_with("m.py::"));
    }
}

#[test]
fn labels_are_type_texts_without_underscores() {
    for t in [
        EntityType::File,
        EntityType::Module,
        EntityType::Class,
        EntityType::Struct,
        EntityType::Enum,
        EntityType::Interface,
        EntityType::Trait,
        EntityType::Function,
        EntityType::Method,
        EntityType::Variable,
        EntityType::Constant,
        EntityType::Import,
        EntityType::TypeAlias,
    ] {
        let label = t.neo4j_label();
        assert!(!label.is_empty() && label.chars().all(|c| c.is_ascii_alphabetic()));
        assert_eq!(label.to_ascii_lowercase(), t.as_str().replace('_', ""));
    }
}
