use cli_chat::models::chat_ollama::{EncodedFile, Message, MessageRole};
use cli_chat::services::chat::{
    encode_file, guess_mime_type, extend_history, history_images, is_exit_message, reply_error, select_model,
    IMAGE_MODEL_NAME, MODEL_NAME,
};
use cli_chat::services::code_agent::{extraction_prompt, should_save_code, strip_markdown_fences};
use cli_chat::services::project_agent::{
    build_command, builds_again, cargo_manifest, detect_language_from_code, error_preview,
    extract_project_name, extract_rust_deps, fix_prompt, next_build_step, no_code_found,
    scaffold_files, BuildOutcome, BuildStep, ProjectLang, MAX_FIX_ATTEMPTS,
};
use cli_chat::services::provider::{
    authorization, chat_endpoint, default_port, embeddings_endpoint, openai_vision_request_body,
    parse_provider, Provider,
};
use cli_chat::services::chat::plain_chat_request_body;
use cli_chat::tools::{SEARCH_CODE_DEFINITION, SEARCH_KNOWLEDGE_BASE_DEFINITION, WEB_SEARCH_DEFINITION};
use cli_chat::services::rag::{build_context_string, rag_preamble, ContextSnippet, NO_CONTEXT_ANSWER};
use cli_chat::services::rerank::{boosted_score, rerank, Candidate, CODE_BOOST, TOP_K};

fn msg(role: MessageRole, content: &str, images: &[&str]) -> Message {
    Message {
        role,
        content: content.to_string(),
        files: if images.is_empty() {
            None
        } else {
            Some(
                images
                    .iter()
                    .map(|d| EncodedFile { file_name: "f.png".to_string(), data: d.to_string() })
                    .collect(),
            )
        },
    }
}

fn cand(score: u32, etype: Option<&str>, content: &str) -> Candidate {
    Candidate { score, entity_type: etype.map(|s| s.to_string()), content: content.to_string() }
}

#[test]
fn exit_words_end_the_chat() {
    assert!(is_exit_message("exit"));
    assert!(is_exit_message("  quit\n"));
    assert!(!is_exit_message("exit now"));
    assert!(!is_exit_message("/bye"));
}

#[test]
fn model_follows_images() {
    assert_eq!(select_model(false), MODEL_NAME);
    assert_eq!(select_model(true), IMAGE_MODEL_NAME);
    let history = vec![
        msg(MessageRole::USER, "a", &["img1", "img2"]),
        msg(MessageRole::ASSISTANT, "b", &[]),
        msg(MessageRole::USER, "c", &["img3"]),
    ];
    assert_eq!(history_images(&history), vec!["img1", "img2", "img3"]);
    assert!(history_images(&vec![msg(MessageRole::USER, "x", &[])]).is_empty());
}

#[test]
fn a_turn_extends_history_without_images() {
    let history = vec![msg(MessageRole::USER, "a", &["img1"])];
    let next = extend_history(history.clone(), "q".to_string(), "ans".to_string());
    assert_eq!(next.len(), 3);
    assert_eq!(next[1].role, MessageRole::USER);
    assert_eq!(next[1].content, "q");
    assert_eq!(next[2].role, MessageRole::ASSISTANT);
    assert_eq!(next[2].content, "ans");
    assert_eq!(history_images(&next), history_images(&history));
    assert_eq!(MessageRole::ASSISTANT.as_str(), "assistant");
}

#[test]
fn reply_status_errors() {
    assert_eq!(reply_error(500), Some("Server Error"));
    assert_eq!(reply_error(400), Some("Bad Request"));
    assert_eq!(reply_error(200), None);
    assert_eq!(reply_error(404), None);
}

#[test]
fn files_are_encoded_as_data_urls() {
    assert_eq!(encode_file("pic.png", b"hi"), "data:image/png;base64,aGk=");
    assert_eq!(encode_file("blob", b""), "data:application/octet-stream;base64,");
}

#[test]
fn markdown_fences_are_removed() {
    assert_eq!(strip_markdown_fences("```rust\nfn main() {}\n```"), "fn main() {}");
    assert_eq!(strip_markdown_fences("  plain code  "), "plain code");
    assert_eq!(strip_markdown_fences("a\n```\nb\n   ```py\nc"), "a\nb\nc");
    let once = strip_markdown_fences("```\nx\n```\n");
    assert_eq!(strip_markdown_fences(&once), once);
}

#[test]
fn code_is_saved_only_when_there_is_some() {
    assert!(should_save_code("fn main() {}"));
    assert!(!should_save_code("   "));
    assert!(!should_save_code(" // No code found \n"));
    assert!(no_code_found("// No code found"));
    assert_eq!(extraction_prompt("X"), "Extract the clean, runnable code from this text:\n\nX");
}

#[test]
fn project_language_is_detected_from_markers() {
    assert_eq!(detect_language_from_code("fn main() { println!(\"x\"); }"), ProjectLang::Rust);
    assert_eq!(detect_language_from_code("def main():\n    print(1)"), ProjectLang::Python);
    assert_eq!(detect_language_from_code("package main\nfunc main() {}"), ProjectLang::Go);
    assert_eq!(
        detect_language_from_code("public class Main { public static void main(String[] a) {} }"),
        ProjectLang::Java
    );
    assert_eq!(detect_language_from_code("nothing recognisable"), ProjectLang::Rust);
    assert_eq!(ProjectLang::TypeScript.name(), "typescript");
    assert_eq!(ProjectLang::TypeScript.extension(), "ts");
}

#[test]
fn project_names() {
    assert_eq!(extract_project_name("class Foo {}", ProjectLang::Java), "Main");
    assert_eq!(extract_project_name("fn main() {}", ProjectLang::Rust), "generated_project");
}

#[test]
fn rust_dependencies_from_code() {
    let code = "use serde_json::Value;\nuse std::io;\nuse crate::x;\nuse tokio::{\n    sync::Mutex,\n    fs,\n};\nfn main() {\n    let v = reqwest::get(u);\n    let w = serde_json::to_string(&v);\n    let p = Path::new(x);\n}\n";
    assert_eq!(extract_rust_deps(code), vec!["serde-json", "tokio", "reqwest"]);
    assert!(extract_rust_deps("fn main() {}").is_empty());
    assert_eq!(
        extract_rust_deps("use time::Duration;\nuse selfie::Camera;\n"),
        vec!["time", "selfie"]
    );
    assert!(extract_rust_deps("use self::a;\nuse super::b;\nuse core::fmt;\nuse alloc::vec;\n").is_empty());
}

#[test]
fn cargo_manifest_lists_dependencies() {
    let m = cargo_manifest("use anyhow::Result;\nfn main() {}");
    assert_eq!(
        m,
        "[package]\nname = \"generated_project\"\nversion = \"0.1.0\"\nedition = \"2021\"\n\n[dependencies]\nanyhow = \"*\"\n"
    );
}

#[test]
fn scaffolds_per_language() {
    let rust = scaffold_files(ProjectLang::Rust, "fn main() {}");
    assert_eq!(rust.len(), 2);
    assert_eq!(rust[0].path, "Cargo.toml");
    assert_eq!(rust[1].path, "src/main.rs");
    assert_eq!(rust[1].contents, "fn main() {}");
    let go = scaffold_files(ProjectLang::Go, "package main");
    assert_eq!(go[0].contents, "module generated_project\n\ngo 1.21\n");
    let java = scaffold_files(ProjectLang::Java, "class Main {}");
    assert_eq!(java.len(), 1);
    assert_eq!(java[0].path, "Main.java");
    let js = scaffold_files(ProjectLang::JavaScript, "x");
    assert_eq!(js[0].contents, "{\"name\":\"generated_project\",\"version\":\"1.0.0\",\"main\":\"index.js\"}");
}

#[test]
fn build_commands() {
    let (cmd, args) = build_command(ProjectLang::Python);
    assert_eq!(cmd, "python3");
    assert_eq!(args, vec!["-m", "py_compile", "main.py"]);
    let (cmd, args) = build_command(ProjectLang::Java);
    assert_eq!(cmd, "javac");
    assert_eq!(args, vec!["Main.java"]);
}

#[test]
fn build_loop_builds_and_repairs_at_most_three_times() {
    let failed = BuildOutcome::Failed("error[E0425]".to_string());
    match next_build_step(1, ProjectLang::Rust, "fn main() {}", &failed) {
        BuildStep::Repair(p) => assert_eq!(
            p,
            "\nThe following code has build errors. Fix them.\n\nCode:\nfn main() {}\n\nBuild errors:\nerror[E0425]\n\nOutput ONLY the corrected source code.\n"
        ),
        other => panic!("expected a repair, got {:?}", other),
    }
    assert!(matches!(next_build_step(MAX_FIX_ATTEMPTS, ProjectLang::Go, "x", &failed), BuildStep::Repair(_)));
    assert!(matches!(next_build_step(MAX_FIX_ATTEMPTS + 1, ProjectLang::Go, "x", &failed), BuildStep::GiveUp));
    assert!(matches!(next_build_step(1, ProjectLang::Go, "x", &BuildOutcome::Succeeded), BuildStep::Done));
    assert!(builds_again(MAX_FIX_ATTEMPTS - 1));
    assert!(!builds_again(MAX_FIX_ATTEMPTS));
    // a run where every build fails builds three times and repairs three times
    let mut builds = 0;
    let mut repairs = 0;
    let mut attempt = 1;
    loop {
        builds += 1;
        match next_build_step(attempt, ProjectLang::Rust, "x", &failed) {
            BuildStep::Repair(_) => {
                repairs += 1;
                if !builds_again(attempt) {
                    break;
                }
                attempt += 1;
            }
            _ => break,
        }
    }
    assert_eq!(builds, 3);
    assert_eq!(repairs, 3);
    assert_eq!(
        fix_prompt(ProjectLang::Java, "e", "c"),
        "\nThe following code has build errors. Fix them.\n\nCode:\nc\n\nBuild errors:\ne\n\nOutput ONLY the corrected source code.\n"
    );
}

#[test]
fn error_preview_shows_ten_lines() {
    let errors: String = (1..=12).map(|i| format!("l{}", i)).collect::<Vec<_>>().join("\n");
    assert_eq!(error_preview(&errors), "l1\n  l2\n  l3\n  l4\n  l5\n  l6\n  l7\n  l8\n  l9\n  l10");
    assert_eq!(error_preview("one"), "one");
}

#[test]
fn context_block_and_preamble() {
    let snips = vec![
        ContextSnippet {
            source_file: "/src/a.rs".to_string(),
            entity_type: Some("function".to_string()),
            entity_name: Some("a.rs::f".to_string()),
            similarity: "0.912".to_string(),
            content: "fn f() {}".to_string(),
        },
        ContextSnippet {
            source_file: "/doc/b.md".to_string(),
            entity_type: None,
            entity_name: None,
            similarity: "0.700".to_string(),
            content: "text".to_string(),
        },
    ];
    assert_eq!(
        build_context_string(&snips),
        "[1] Source: /src/a.rs\n    Type: function \u{2014} a.rs::f\n    Similarity: 0.912\n    fn f() {}\n\n[2] Source: /doc/b.md\n    Similarity: 0.700\n    text\n\n"
    );
    let p = rag_preamble("CTX");
    assert!(p.starts_with("You are a helpful assistant. Answer questions using only the provided context.\n\nContext:\nCTX\n\nInstructions:\n"));
    assert!(NO_CONTEXT_ANSWER.contains("No relevant context"));
}

#[test]
fn rerank_boosts_code_and_drops_duplicates() {
    let cands = vec![
        cand(900_000, None, "doc text"),
        cand(800_000, Some("function"), "fn a() {}"),
        cand(850_000, None, "doc text"),
        cand(700_000, Some("image"), "pic"),
    ];
    assert_eq!(boosted_score(&cands[1]), 800_000 + CODE_BOOST as u64);
    assert_eq!(boosted_score(&cands[3]), 700_000);
    // the function (950000) first, then the first doc; its duplicate is dropped
    assert_eq!(rerank(&cands), vec![1, 0, 3]);
}

#[test]
fn rerank_keeps_top_k_and_ties_in_order() {
    let cands: Vec<Candidate> = (0..8).map(|i| cand(600_000, None, &format!("c{}", i))).collect();
    assert_eq!(rerank(&cands), vec![0, 1, 2, 3, 4]);
    assert_eq!(rerank(&cands).len(), TOP_K);
    assert!(rerank(&vec![]).is_empty());
    let long_a = format!("{}A", "x".repeat(200));
    let long_b = format!("{}B", "x".repeat(200));
    assert_eq!(rerank(&vec![cand(1, None, &long_a), cand(2, None, &long_b)]), vec![1]);
}

#[test]
fn providers_and_requests() {
    assert_eq!(parse_provider(Some("lmstudio")), Provider::LmStudio);
    assert_eq!(parse_provider(Some("ollama")), Provider::Ollama);
    assert_eq!(parse_provider(None), Provider::Ollama);
    assert_eq!(default_port(Provider::LmStudio), "1234");
    assert_eq!(chat_endpoint(Provider::LmStudio, "h", None), "http://h:1234/v1/chat/completions");
    assert_eq!(chat_endpoint(Provider::Ollama, "h", Some("9")), "http://h:9/api/chat");
    assert_eq!(authorization(Provider::LmStudio, None).as_deref(), Some("Bearer lm-studio"));
    assert_eq!(authorization(Provider::LmStudio, Some("k")).as_deref(), Some("Bearer k"));
    assert_eq!(authorization(Provider::Ollama, Some("k")), None);
    assert_eq!(embeddings_endpoint("e", "11434"), "http://e:11434/api/embeddings");
    assert_eq!(
        openai_vision_request_body("m", "p", "data:x"),
        "{\"messages\":[{\"content\":[{\"text\":\"p\",\"type\":\"text\"},{\"image_url\":{\"url\":\"data:x\"},\"type\":\"image_url\"}],\"role\":\"user\"}],\"model\":\"m\"}"
    );
}

#[test]
fn mime_types_by_extension() {
    assert_eq!(guess_mime_type("photo.PNG"), "image/png");
    assert_eq!(guess_mime_type("notes"), "application/octet-stream");
    assert_eq!(guess_mime_type("x.unknownext"), "application/octet-stream");
}

#[test]
fn dependencies_are_listed_once() {
    let code = "use tokio::task;\nuse tokio::sync;\nfn f() { tokio::spawn(a); serde::x(); serde::y(); }\n";
    let deps = extract_rust_deps(code);
    assert_eq!(deps, vec!["tokio", "serde"]);
    let mut sorted = deps.clone();
    sorted.sort();
    sorted.dedup();
    assert_eq!(sorted.len(), deps.len());
}

#[test]
fn request_bodies() {
    assert_eq!(
        cli_chat::services::provider::embedding_request_body("m", "a \"b\""),
        "{\"model\":\"m\",\"prompt\":\"a \\\"b\\\"\"}"
    );
    let history = vec![Message::user("q1".to_string()), Message::assistant("a1".to_string())];
    assert_eq!(
        cli_chat::services::provider::chat_request_body(Provider::Ollama, "g", "sys", &history, "q2"),
        "{\"messages\":[{\"content\":\"sys\",\"role\":\"system\"},{\"content\":\"q1\",\"role\":\"user\"},{\"content\":\"a1\",\"role\":\"assistant\"},{\"content\":\"q2\",\"role\":\"user\"}],\"model\":\"g\",\"stream\":false}"
    );
    assert_eq!(
        cli_chat::services::provider::chat_request_body(Provider::LmStudio, "g", "s", &vec![], "q"),
        "{\"messages\":[{\"content\":\"s\",\"role\":\"system\"},{\"content\":\"q\",\"role\":\"user\"}],\"model\":\"g\"}"
    );
}

#[test]
fn base64_groups_and_padding() {
    assert_eq!(encode_file("a.png", b"Man"), "data:image/png;base64,TWFu");
    assert_eq!(encode_file("a.png", b"M"), "data:image/png;base64,TQ==");
    assert_eq!(encode_file("a.png", b"Many"), "data:image/png;base64,TWFueQ==");
    assert_eq!(encode_file("a.png", &[0xfb, 0xff]), "data:image/png;base64,+/8=");
}

#[test]
fn scaffold_extensions_are_detected_as_their_language() {
    for lang in [
        ProjectLang::Rust,
        ProjectLang::Python,
        ProjectLang::JavaScript,
        ProjectLang::TypeScript,
        ProjectLang::Go,
        ProjectLang::Java,
    ] {
        let path = format!("main.{}", lang.extension());
        let detected = cli_chat::parser::detect_language(&path).map(|c| c.as_str());
        assert_eq!(detected, Some(lang.name()));
    }
}

#[test]
fn request_bodies_escape_control_chars() {
    assert_eq!(
        cli_chat::services::provider::embedding_request_body("m", "a\\b\n\t\r\u{8}\u{c}\u{1}\u{1f}é\u{7f}"),
        "{\"model\":\"m\",\"prompt\":\"a\\\\b\\n\\t\\r\\b\\f\\u0001\\u001fé\u{7f}\"}"
    );
}

#[test]
fn reply_text_stands_where_the_provider_puts_it() {
    assert_eq!(
        cli_chat::services::provider::reply_content_pointer(Provider::Ollama),
        "/message/content"
    );
    assert_eq!(
        cli_chat::services::provider::reply_content_pointer(Provider::LmStudio),
        "/choices/0/message/content"
    );
}

#[test]
fn plain_chat_request_carries_images_messages_and_tools() {
    let tools = format!(
        "{},{},{}",
        SEARCH_CODE_DEFINITION, SEARCH_KNOWLEDGE_BASE_DEFINITION, WEB_SEARCH_DEFINITION
    );
    let history = vec![
        msg(MessageRole::USER, "hi", &["AAA", "B\"B"]),
        msg(MessageRole::ASSISTANT, "yo", &[]),
    ];
    assert_eq!(
        plain_chat_request_body(&history, "q", "p"),
        format!(
            "{{\"images\":[\"AAA\",\"B\\\"B\"],\"messages\":[{{\"content\":\"hi\",\"role\":\"user\"}},{{\"content\":\"yo\",\"role\":\"assistant\"}},{{\"content\":\"q\",\"role\":\"user\"}}],\"model\":\"{}\",\"prefix\":\"p\",\"stream\":false,\"suffix\":\" Keep answers precise\",\"tools\":[{}]}}",
            IMAGE_MODEL_NAME, tools
        )
    );
    assert_eq!(
        plain_chat_request_body(&vec![], "q", ""),
        format!(
            "{{\"images\":[],\"messages\":[{{\"content\":\"q\",\"role\":\"user\"}}],\"model\":\"{}\",\"prefix\":\"\",\"stream\":false,\"suffix\":\" Keep answers precise\",\"tools\":[{}]}}",
            MODEL_NAME, tools
        )
    );
}
