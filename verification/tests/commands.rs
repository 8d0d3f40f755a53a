use cli_chat::cli::{
    content_preview, is_document_extension, is_processable_extension, is_processable_file,
    parse_chat_command, parse_operation, skip_directory, ChatCommand, Operation, OperationError,
    LOAD_USAGE, RELOAD_USAGE, SAVE_USAGE,
};
use cli_chat::server::mcp::{
    config_file_name, config_or_default, get_device_config_path, is_mcp_server, setup_mcp_server,
    DEFAULT_MCP_CONFIG,
};
use cli_chat::tools::{BaseToolCall, ToolKind, SEARCH_CODE_DEFINITION, WEB_SEARCH_DEFINITION};

#[test]
fn operations_from_the_command_line() {
    assert!(matches!(parse_operation("simple", None, false, None), Ok(Operation::Simple)));
    assert!(matches!(parse_operation("chat", None, false, None), Ok(Operation::Chat)));
    match parse_operation("loader", Some("docs".to_string()), true, None) {
        Ok(Operation::Loader { path, force }) => {
            assert_eq!(path, "docs");
            assert!(force);
        }
        other => panic!("unexpected {:?}", other),
    }
    match parse_operation("search", None, false, Some("how".to_string())) {
        Ok(Operation::Search { query }) => assert_eq!(query, "how"),
        other => panic!("unexpected {:?}", other),
    }
    assert!(matches!(parse_operation("loader", None, false, None), Err(OperationError::MissingPath)));
    assert!(matches!(parse_operation("search", None, false, None), Err(OperationError::MissingQuery)));
    assert!(matches!(parse_operation("setup", None, false, None), Ok(Operation::Unknown)));
    assert_eq!(
        OperationError::MissingPath.message(),
        "`path` is required when operation is `loader`"
    );
}

#[test]
fn chat_commands() {
    assert!(matches!(parse_chat_command("   \n"), ChatCommand::Skip));
    assert!(matches!(parse_chat_command(" quit "), ChatCommand::Exit));
    match parse_chat_command("/reload  ./docs ") {
        ChatCommand::Load { path, force } => {
            assert_eq!(path, "./docs");
            assert!(force);
        }
        other => panic!("unexpected {:?}", other),
    }
    match parse_chat_command("/load src/main.rs") {
        ChatCommand::Load { path, force } => {
            assert_eq!(path, "src/main.rs");
            assert!(!force);
        }
        other => panic!("unexpected {:?}", other),
    }
    match parse_chat_command("/save out.rs") {
        ChatCommand::Save { path } => assert_eq!(path, "out.rs"),
        other => panic!("unexpected {:?}", other),
    }
    assert!(matches!(parse_chat_command("/create"), ChatCommand::Create { dir: None }));
    match parse_chat_command("/create proj") {
        ChatCommand::Create { dir } => assert_eq!(dir.as_deref(), Some("proj")),
        other => panic!("unexpected {:?}", other),
    }
    match parse_chat_command("/reload") {
        ChatCommand::Usage { hint } => assert_eq!(hint, RELOAD_USAGE),
        other => panic!("unexpected {:?}", other),
    }
    match parse_chat_command("/load   ") {
        ChatCommand::Usage { hint } => assert_eq!(hint, LOAD_USAGE),
        other => panic!("unexpected {:?}", other),
    }
    match parse_chat_command("/save") {
        ChatCommand::Usage { hint } => assert_eq!(hint, SAVE_USAGE),
        other => panic!("unexpected {:?}", other),
    }
    match parse_chat_command("  what is a trait? ") {
        ChatCommand::Ask { question } => assert_eq!(question, "what is a trait?"),
        other => panic!("unexpected {:?}", other),
    }
}

#[test]
fn directory_walk_filters() {
    for d in ["target", "node_modules", ".git", "__pycache__", ".venv", "dist", "build"] {
        assert!(skip_directory(d));
    }
    assert!(!skip_directory("src"));
    assert!(!skip_directory("targets"));
    assert!(is_document_extension("PDF"));
    assert!(is_document_extension("md"));
    assert!(!is_document_extension("exe"));
    assert!(is_processable_extension("rs"));
    assert!(is_processable_extension("JPG"));
    assert!(is_processable_extension("docx"));
    assert!(!is_processable_extension("bin"));
    assert!(is_processable_file("a/b/c.py"));
    assert!(!is_processable_file("a/b/c"));
    assert!(!is_processable_file("archive.tar.gz"));
}

#[test]
fn previews_of_search_results() {
    assert_eq!(content_preview("a\nb"), "a\n    b");
    let long = "y".repeat(250);
    assert_eq!(content_preview(&long), format!("{}...", "y".repeat(200)));
    let exactly = "z".repeat(200);
    assert_eq!(content_preview(&exactly), exactly);
    // more than 200 bytes but only 150 characters: all shown, then "..."
    let wide = "é".repeat(150);
    assert_eq!(content_preview(&wide), format!("{}...", wide));
}

#[test]
fn tools_by_name() {
    let tools = BaseToolCall::new();
    let defs = tools.get_available_tool_definitions();
    assert_eq!(defs.len(), 3);
    assert_eq!(defs[0], SEARCH_CODE_DEFINITION);
    assert_eq!(defs[2], WEB_SEARCH_DEFINITION);
    assert_eq!(tools.tool_for_name("web_search"), Some(ToolKind::WebSearch));
    assert_eq!(tools.tool_for_name("nope"), None);
    let names = vec![
        "search_knowledge_base".to_string(),
        "unknown".to_string(),
        "search_code".to_string(),
    ];
    assert_eq!(
        tools.respective_tools(&names),
        vec![ToolKind::SearchKnowledgeBase, ToolKind::SearchCode]
    );
    assert_eq!(ToolKind::SearchKnowledgeBase.name(), "search_knowledge_base");
    assert!(ToolKind::WebSearch.get_tool_call().contains("\"name\": \"web_search\""));
}

#[test]
fn mcp_configuration_files() {
    assert!(is_mcp_server("MCP server"));
    assert!(!is_mcp_server("localhost"));
    assert_eq!(config_file_name("my settings"), "mcp_config.txt");
    assert_eq!(config_file_name("config.json"), "mcp_config.txt");
    assert_eq!(config_file_name("mcp_server.json"), "config.json");
    assert_eq!(get_device_config_path(), "mcp_server.json");
    assert_eq!(config_or_default(String::new()), DEFAULT_MCP_CONFIG);
    assert_eq!(config_or_default("{}".to_string()), "{}");
    let steps = setup_mcp_server("MCP server", 8080, 30);
    assert_eq!(steps.len(), 2);
    assert_eq!(steps[0].read_from, "mcp_config.txt");
    assert_eq!(steps[0].write_to, "mcp_server.json");
    assert_eq!(steps[1].read_from, "config.json");
    assert_eq!(steps[1].write_to, "mcp_server.json");
}

#[test]
fn surrounding_space_does_not_change_a_command() {
    for line in ["/save out.rs", "/create", "exit", "what now", "/load a b"] {
        let padded = format!(" \t{}\n ", line);
        assert_eq!(format!("{:?}", parse_chat_command(line)), format!("{:?}", parse_chat_command(&padded)));
    }
}
