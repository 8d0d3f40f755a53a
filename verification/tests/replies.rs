use cli_chat::handler::data_loader::{route_from, FileRoute};
use cli_chat::parser::CodeLanguage;
use cli_chat::services::chat::{chat_reply, chat_reply_from, tool_call_from, tool_call_with, ChatReply};
use cli_chat::services::provider::{answer_text, reply_text, Provider};
use cli_chat::services::rag::{answer_without_model, NO_CONTEXT_ANSWER};
use cli_chat::tools::{text_or_null, web_search_query, BaseToolCall, ToolCall, ToolKind, ToolRun};

fn call(name: &str, arguments: &str) -> ToolCall {
    ToolCall { name: name.to_string(), arguments: arguments.to_string() }
}

#[test]
fn reply_text_is_read_where_each_provider_puts_it() {
    let ollama = "{\"model\":\"m\",\"message\":{\"role\":\"assistant\",\"content\":\"Hi \\\"there\\\"\"}}";
    let lmstudio = "{\"choices\":[{\"message\":{\"role\":\"assistant\",\"content\":\"Hello\"}}]}";
    assert_eq!(reply_text(Provider::Ollama, ollama), Some("Hi \"there\"".to_string()));
    assert_eq!(reply_text(Provider::LmStudio, lmstudio), Some("Hello".to_string()));
    assert_eq!(reply_text(Provider::Ollama, lmstudio), Some(String::new()));
    assert_eq!(reply_text(Provider::LmStudio, ollama), Some(String::new()));
    assert_eq!(reply_text(Provider::Ollama, "{\"message\":{\"content\":7}}"), Some(String::new()));
    assert_eq!(reply_text(Provider::Ollama, "not json"), None);
}

#[test]
fn answer_text_from_what_was_found() {
    assert_eq!(answer_text(false, Some("x".to_string())), None);
    assert_eq!(answer_text(true, Some("x".to_string())), Some("x".to_string()));
    assert_eq!(answer_text(true, None), Some(String::new()));
}

#[test]
fn chat_reply_is_text_or_tool_calls() {
    let text = "{\"message\":{\"role\":\"assistant\",\"content\":\"The answer\"}}";
    assert_eq!(chat_reply(text), Some(ChatReply::Text("The answer".to_string())));
    let tools = "{\"message\":{\"role\":\"assistant\",\"content\":\"\",\"tool_calls\":[{\"function\":{\"name\":\"web_search\",\"arguments\":{\"query\":\"rust verus\"}}},{\"function\":{\"name\":\"other\"}}]}}";
    assert_eq!(
        chat_reply(tools),
        Some(ChatReply::Tools(vec![
            call("web_search", "{\"query\":\"rust verus\"}"),
            call("other", "null"),
        ]))
    );
    assert_eq!(
        chat_reply("{\"message\":{\"content\":\"c\",\"tool_calls\":[]}}"),
        Some(ChatReply::Tools(vec![]))
    );
    assert_eq!(chat_reply("{\"message\":{}}"), Some(ChatReply::Text(String::new())));
    assert_eq!(chat_reply("{\"message\":"), None);
}

#[test]
fn chat_reply_from_what_was_found() {
    assert_eq!(chat_reply_from(false, Some("t".to_string()), None), None);
    assert_eq!(chat_reply_from(true, Some("t".to_string()), None), Some(ChatReply::Text("t".to_string())));
    assert_eq!(chat_reply_from(true, None, None), Some(ChatReply::Text(String::new())));
    assert_eq!(
        chat_reply_from(true, Some("t".to_string()), Some(vec![call("a", "1")])),
        Some(ChatReply::Tools(vec![call("a", "1")]))
    );
}

#[test]
fn tool_calls_are_read_from_their_items() {
    assert_eq!(
        tool_call_from("{\"function\":{\"name\":\"search_code\",\"arguments\":{\"language\":\"rust\"}}}"),
        call("search_code", "{\"language\":\"rust\"}")
    );
    assert_eq!(tool_call_from("{\"function\":{\"arguments\":[1,2]}}"), call("", "[1,2]"));
    assert_eq!(tool_call_from("[]"), call("", "null"));
    assert_eq!(tool_call_with(None, None), call("", "null"));
    assert_eq!(tool_call_with(Some("n".to_string()), Some("{}".to_string())), call("n", "{}"));
    assert_eq!(text_or_null(None), "null");
    assert_eq!(text_or_null(Some("1".to_string())), "1");
}

#[test]
fn web_search_looks_for_the_query_argument() {
    assert_eq!(web_search_query("{\"query\":\"rust verus\"}"), "\"rust verus\"");
    assert_eq!(web_search_query("{\"query\":3}"), "3");
    assert_eq!(web_search_query("{\"q\":\"x\"}"), "null");
    assert_eq!(web_search_query("null"), "null");
}

#[test]
fn tool_runs_follow_the_calls_that_name_a_tool() {
    let tools = BaseToolCall::new();
    let runs = tools.tool_runs(&vec![
        call("web_search", "{\"query\":\"a\"}"),
        call("unknown", "{}"),
        call("search_code", "null"),
    ]);
    assert_eq!(
        runs,
        vec![
            ToolRun { tool: ToolKind::WebSearch, arguments: "{\"query\":\"a\"}".to_string() },
            ToolRun { tool: ToolKind::SearchCode, arguments: "null".to_string() },
        ]
    );
    assert!(tools.tool_runs(&vec![]).is_empty());
}

#[test]
fn routing_prefers_code_then_images() {
    assert_eq!(route_from(Some(CodeLanguage::Go), true), FileRoute::Code(CodeLanguage::Go));
    assert_eq!(route_from(Some(CodeLanguage::C), false), FileRoute::Code(CodeLanguage::C));
    assert_eq!(route_from(None, true), FileRoute::Image);
    assert_eq!(route_from(None, false), FileRoute::Document);
}

#[test]
fn no_snippets_answers_without_the_model() {
    assert_eq!(answer_without_model(0), Some(NO_CONTEXT_ANSWER));
    assert_eq!(answer_without_model(3), None);
}
