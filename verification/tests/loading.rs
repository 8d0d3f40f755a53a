use cli_chat::db::graph_store::{
    bolt_uri, entity_cypher, entity_statement, relationship_cypher, relationship_statement,
    GraphValue, DELETE_FILE_ENTITIES,
};
use cli_chat::db::vector_store::{
    admin_database_url, code_row_meta, create_database_statement, database_url, document_row_meta,
    image_row_meta, schema_statements, CREATE_EXTENSION,
};
use cli_chat::handler::code_loader::{collect_imports, embeddable, embedding_text, MIN_CONTENT_LEN};
use cli_chat::handler::data_loader::{
    append_page_text, append_vision_text, batch_count, chunk_text, is_pdf, load_action, route_file,
    route_for_extension, split_batches, FileRoute, LoadAction, CHUNK_SIZE,
};
use cli_chat::handler::image_loader::{chat_url, combine_image_text, detect_image, vision_request_body};
use cli_chat::parser::entity::{CodeEntity, CodeRelationship, EntityType, RelationshipType};
use cli_chat::parser::CodeLanguage;

fn entity(qn: &str, et: EntityType, content: &str) -> CodeEntity {
    CodeEntity {
        qualified_name: qn.to_string(),
        name: "n".to_string(),
        entity_type: et,
        language: CodeLanguage::Python,
        source_file: "m.py".to_string(),
        content: content.to_string(),
        start_line: 4,
        end_line: 9,
        parent: None,
        signature: "sig".to_string(),
    }
}

#[test]
fn chunk_text_splits_paragraphs() {
    assert_eq!(chunk_text("first\n\nsecond", CHUNK_SIZE), vec!["first", "second"]);
    assert_eq!(chunk_text("one line", 1000), vec!["one line"]);
    assert!(chunk_text("", 1000).is_empty());
    assert_eq!(chunk_text("a\n\n\n\nb", 1000), vec!["a", "b"]);
}

#[test]
fn chunk_text_splits_long_paragraphs_into_lines() {
    assert_eq!(chunk_text("aaaa\nbbbb\n\ncc", 5), vec!["aaaa", "bbbb", "cc"]);
    // a line longer than the limit stays one oversized chunk
    assert_eq!(chunk_text("abcdefgh\nij", 3), vec!["abcdefgh", "ij"]);
    // a paragraph that fits keeps its line breaks
    assert_eq!(chunk_text("ab\ncd", 10), vec!["ab\ncd"]);
}

#[test]
fn chunk_text_short_text_is_one_chunk() {
    let text = "short text without breaks";
    assert_eq!(chunk_text(text, 100), vec![text.to_string()]);
}

#[test]
fn chunk_text_chunks_have_no_paragraph_breaks() {
    let text = "p1 line1\np1 line2\n\np2\n\n\nlonger paragraph line one\nline two";
    for c in chunk_text(text, 12) {
        assert!(!c.is_empty());
        assert!(!c.contains("\n\n"));
        assert!(c.chars().count() <= 12 || !c.contains('\n'));
    }
}

#[test]
fn pdf_and_image_detection() {
    assert!(is_pdf("report.PDF"));
    assert!(is_pdf("dir/a.pdf"));
    assert!(!is_pdf("a.pdf.txt"));
    assert!(!is_pdf("pdf"));
    assert!(detect_image("photo.JPeG"));
    assert!(detect_image("scan.tif"));
    assert!(!detect_image("notes.txt"));
    assert!(!detect_image("png"));
}

#[test]
fn files_are_routed_by_extension() {
    assert_eq!(route_file("a.rs"), FileRoute::Code(CodeLanguage::Rust));
    assert_eq!(route_file("a.PNG"), FileRoute::Image);
    assert_eq!(route_file("a.pdf"), FileRoute::Document);
    assert_eq!(route_file("README"), FileRoute::Document);
    assert_eq!(route_for_extension(Some("go")), FileRoute::Code(CodeLanguage::Go));
    assert_eq!(route_for_extension(None), FileRoute::Document);
}

#[test]
fn load_actions() {
    assert_eq!(load_action(false, true), LoadAction::Skip);
    assert_eq!(load_action(false, false), LoadAction::Load);
    assert_eq!(load_action(true, true), LoadAction::Reload);
    assert_eq!(load_action(true, false), LoadAction::Reload);
}

#[test]
fn vision_text_of_pdf_pages() {
    let mut all = String::new();
    append_page_text(&mut all, 1, "Title");
    append_page_text(&mut all, 2, "");
    append_page_text(&mut all, 12, "End");
    assert_eq!(all, "[Page 1]\nTitle\n\n[Page 12]\nEnd\n\n");
    let mut text = String::from("extracted");
    append_vision_text(&mut text, "seen");
    assert_eq!(text, "extracted\n\n[Vision OCR]\nseen");
    let mut text2 = String::from("extracted");
    append_vision_text(&mut text2, "");
    assert_eq!(text2, "extracted");
}

#[test]
fn batches_cover_all_items_in_order() {
    assert_eq!(batch_count(0, 10), 0);
    assert_eq!(batch_count(10, 10), 1);
    assert_eq!(batch_count(25, 10), 3);
    let items: Vec<String> = (0..7).map(|i| i.to_string()).collect();
    let batches = split_batches(&items, 3);
    assert_eq!(batches.len(), 3);
    assert_eq!(batches[0], vec!["0", "1", "2"]);
    assert_eq!(batches[2], vec!["6"]);
    let flat: Vec<String> = batches.into_iter().flatten().collect();
    assert_eq!(flat, items);
}

#[test]
fn image_text_is_combined() {
    assert_eq!(combine_image_text("text", "a cat").as_deref(), Some("text\n\na cat"));
    assert_eq!(combine_image_text("", "a cat").as_deref(), Some("\n\na cat"));
    assert_eq!(combine_image_text("", ""), None);
    assert_eq!(combine_image_text("  ", "\n"), None);
}

#[test]
fn vision_request_encodes_the_image() {
    let body = vision_request_body("llava", "Say \"hi\"", b"hi");
    assert_eq!(
        body,
        "{\"messages\":[{\"content\":\"Say \\\"hi\\\"\",\"images\":[\"aGk=\"],\"role\":\"user\"}],\"model\":\"llava\",\"stream\":false}"
    );
    assert_eq!(chat_url("localhost", "11434"), "http://localhost:11434/api/chat");
}

#[test]
fn code_entities_are_enriched_with_imports() {
    let ents = vec![
        entity("m.py", EntityType::File, ""),
        entity("m.py::import::os", EntityType::Import, "import os"),
        entity("m.py::f", EntityType::Function, "def f():\n    return 1"),
        entity("m.py::import::sys", EntityType::Import, "import sys"),
    ];
    let imports = collect_imports(&ents);
    assert_eq!(imports, vec!["import os", "import sys"]);
    assert_eq!(
        embedding_text(&imports, &ents[2]),
        "import os\nimport sys\n--- function: m.py::f ---\ndef f():\n    return 1"
    );
    assert_eq!(embedding_text(&vec![], &ents[2]), "--- function: m.py::f ---\ndef f():\n    return 1");
}

#[test]
fn only_substantial_code_entities_are_embedded() {
    let long = "x".repeat(MIN_CONTENT_LEN);
    assert!(embeddable(&entity("a", EntityType::Function, &long)));
    assert!(!embeddable(&entity("a", EntityType::Function, &long[1..])));
    assert!(!embeddable(&entity("a", EntityType::Import, &long)));
    assert!(!embeddable(&entity("a", EntityType::File, &long)));
    // the limit counts bytes
    let wide = "é".repeat(25);
    assert!(embeddable(&entity("a", EntityType::Class, &wide)));
}

#[test]
fn row_metadata_per_kind() {
    let e = entity("m.py::f", EntityType::Function, "x");
    let m = code_row_meta(&e);
    assert_eq!(m.entity_type.as_deref(), Some("function"));
    assert_eq!(m.entity_name.as_deref(), Some("m.py::f"));
    assert_eq!(m.language.as_deref(), Some("python"));
    let d = document_row_meta();
    assert!(d.entity_type.is_none() && d.entity_name.is_none() && d.language.is_none());
    let i = image_row_meta();
    assert_eq!(i.entity_type.as_deref(), Some("image"));
    assert!(i.entity_name.is_none() && i.language.is_none());
}

#[test]
fn vector_store_statements_and_addresses() {
    let s = schema_statements();
    assert_eq!(s.len(), 4);
    assert_eq!(s[0], CREATE_EXTENSION);
    assert!(s[1].contains("vector(512)"));
    assert_eq!(database_url("u", "p", "h", "5432", "db"), "postgres://u:p@h:5432/db");
    assert_eq!(admin_database_url("u", "p", "h", "1"), "postgres://u:p@h:1/postgres");
    assert_eq!(create_database_statement("racl"), "CREATE DATABASE \"racl\"");
}

#[test]
fn graph_statements() {
    assert!(entity_cypher("Function").starts_with("MERGE (e:CodeEntity:Function {qualified_name: $qn})"));
    assert!(relationship_cypher("CALLS").ends_with("MERGE (a)-[:CALLS]->(b)"));
    assert_eq!(bolt_uri("localhost", "7687"), "bolt://localhost:7687");
    assert!(DELETE_FILE_ENTITIES.contains("DETACH DELETE"));
    let e = entity("m.py::f", EntityType::Function, "x");
    let st = entity_statement(&e);
    assert!(st.cypher.contains("CodeEntity:Function"));
    assert_eq!(st.params[0].0, "qn");
    match &st.params[0].1 {
        GraphValue::Text(t) => assert_eq!(t, "m.py::f"),
        _ => panic!("text parameter"),
    }
    let start = st.params.iter().find(|p| p.0 == "start").unwrap();
    match &start.1 {
        GraphValue::Integer(n) => assert_eq!(*n, 4),
        _ => panic!("integer parameter"),
    }
    let r = CodeRelationship {
        from_qualified_name: "a".to_string(),
        to_qualified_name: "b".to_string(),
        relationship_type: RelationshipType::Inherits,
    };
    let rs = relationship_statement(&r);
    assert!(rs.cypher.contains("[:INHERITS]"));
    assert_eq!(rs.params.len(), 2);
}

#[test]
fn page_images_in_page_order() {
    let names: Vec<String> = ["page-10.png", "notes.txt", "page-02.png", ".png", "page-01.png", "x.PNG"]
        .iter()
        .map(|s| s.to_string())
        .collect();
    assert_eq!(
        cli_chat::handler::data_loader::page_image_names(&names),
        vec!["page-01.png", "page-02.png", "page-10.png"]
    );
    assert!(cli_chat::handler::data_loader::text_le_exec("ab", "abc"));
    assert!(!cli_chat::handler::data_loader::text_le_exec("b", "abc"));
}
