//! The model providers that chat and vision requests go to: Ollama's own
//! chat API, or LM Studio's OpenAI-compatible one.
use vstd::prelude::*;

use crate::handler::image_loader::{json_string, json_string_literal};
use crate::json::{is_json, json_str_at, json_string_at, json_valid};
use crate::models::chat_ollama::{role_text, Message};
use crate::parser::entity::opt_view;
use crate::text::{concat, concat3, join, join_with, str_eq, string_views};

verus! {

/// A model provider.
#[derive(Debug, Clone, Copy, PartialEq, Eq, Structural)]
pub enum Provider {
    /// LM Studio, with the OpenAI-compatible API and a bearer key.
    LmStudio,
    /// Ollama, with its own chat API and no key.
    Ollama,
}

/// The provider named by a setting: `lmstudio` or `ollama`; Ollama when the
/// setting is absent or names neither.
pub open spec fn provider_of(setting: Option<Seq<char>>) -> Provider {
    match setting {
        Some(s) => if s == "lmstudio"@ {
            Provider::LmStudio
        } else {
            Provider::Ollama
        },
        None => Provider::Ollama,
    }
}

/// The provider named by a setting such as `CHAT_PROVIDER`.
pub fn parse_provider(setting: Option<&str>) -> (r: Provider)
    ensures
        r == provider_of(
            match setting {
                Some(s) => Some(s@),
                None => None,
            },
        ),
{
    match setting {
        Some(s) => if str_eq(s, "lmstudio") {
            Provider::LmStudio
        } else {
            Provider::Ollama
        },
        None => Provider::Ollama,
    }
}

/// The key used with LM Studio when none is configured.
pub const DEFAULT_API_KEY: &'static str = "lm-studio";

/// The port of a provider when none is configured.
pub open spec fn default_port_of(p: Provider) -> Seq<char> {
    match p {
        Provider::LmStudio => "1234"@,
        Provider::Ollama => "11434"@,
    }
}

/// The path of a provider's chat endpoint.
pub open spec fn chat_path_of(p: Provider) -> Seq<char> {
    match p {
        Provider::LmStudio => "/v1/chat/completions"@,
        Provider::Ollama => "/api/chat"@,
    }
}

/// The port of a provider when none is configured.
pub fn default_port(p: Provider) -> (r: &'static str)
    ensures
        r@ == default_port_of(p),
{
    match p {
        Provider::LmStudio => "1234",
        Provider::Ollama => "11434",
    }
}

/// The chat endpoint of a provider at a host and port, the provider's
/// default port when none is configured.
pub open spec fn endpoint_of(p: Provider, host: Seq<char>, port: Option<Seq<char>>) -> Seq<char> {
    "http://"@ + host + ":"@ + match port {
        Some(q) => q,
        None => default_port_of(p),
    } + chat_path_of(p)
}

/// The chat endpoint of a provider at a host and port.
pub fn chat_endpoint(p: Provider, host: &str, port: Option<&str>) -> (r: String)
    ensures
        r@ == endpoint_of(
            p,
            host@,
            match port {
                Some(q) => Some(q@),
                None => None,
            },
        ),
{
    let q = match port {
        Some(q) => q,
        None => default_port(p),
    };
    let path = match p {
        Provider::LmStudio => "/v1/chat/completions",
        Provider::Ollama => "/api/chat",
    };
    let a = concat3("http://", host, ":");
    concat3(a.as_str(), q, path)
}

/// The `Authorization` header of a request: a bearer key for LM Studio
/// (the configured one, else `lm-studio`), none for Ollama.
pub open spec fn authorization_of(p: Provider, key: Option<Seq<char>>) -> Option<Seq<char>> {
    match p {
        Provider::LmStudio => Some(
            "Bearer "@ + match key {
                Some(k) => k,
                None => DEFAULT_API_KEY@,
            },
        ),
        Provider::Ollama => None,
    }
}

/// The `Authorization` header of a request to a provider.
pub fn authorization(p: Provider, key: Option<&str>) -> (r: Option<String>)
    ensures
        crate::parser::entity::opt_view(r) == authorization_of(
            p,
            match key {
                Some(k) => Some(k@),
                None => None,
            },
        ),
{
    match p {
        Provider::LmStudio => {
            let k = match key {
                Some(k) => k,
                None => DEFAULT_API_KEY,
            };
            Some(concat("Bearer ", k))
        },
        Provider::Ollama => None,
    }
}

/// The embedding endpoint of the Ollama server at a host and port.
pub fn embeddings_endpoint(host: &str, port: &str) -> (r: String)
    ensures
        r@ == "http://"@ + host@ + ":"@ + port@ + "/api/embeddings"@,
{
    let a = concat3("http://", host, ":");
    concat3(a.as_str(), port, "/api/embeddings")
}

/// The OpenAI-compatible JSON body asking a vision model about an image
/// given as a data URL.
pub open spec fn openai_vision_request_of(model: Seq<char>, prompt: Seq<char>, data_url: Seq<char>) -> Seq<
    char,
> {
    "{\"messages\":[{\"content\":[{\"text\":"@ + json_string_literal(prompt)
        + ",\"type\":\"text\"},{\"image_url\":{\"url\":"@ + json_string_literal(data_url)
        + "},\"type\":\"image_url\"}],\"role\":\"user\"}],\"model\":"@ + json_string_literal(model)
        + "}"@
}

/// The OpenAI-compatible JSON body asking a vision model about an image
/// given as a data URL.
pub fn openai_vision_request_body(model: &str, prompt: &str, data_url: &str) -> (r: String)
    ensures
        r@ == openai_vision_request_of(model@, prompt@, data_url@),
{
    let p = json_string(prompt);
    let u = json_string(data_url);
    let m = json_string(model);
    let mut body = String::from_str("{\"messages\":[{\"content\":[{\"text\":");
    body.append(p.as_str());
    body.append(",\"type\":\"text\"},{\"image_url\":{\"url\":");
    body.append(u.as_str());
    body.append("},\"type\":\"image_url\"}],\"role\":\"user\"}],\"model\":");
    body.append(m.as_str());
    body.append("}");
    body
}

/// Where the answer text stands in a chat reply of the provider, as a JSON
/// pointer: Ollama answers with one message, LM Studio with a list of
/// choices whose first holds the message.
pub open spec fn reply_pointer_of(p: Provider) -> Seq<char> {
    match p {
        Provider::Ollama => "/message/content"@,
        Provider::LmStudio => "/choices/0/message/content"@,
    }
}

/// The JSON pointer to the answer text in a chat reply of the provider.
pub fn reply_content_pointer(p: Provider) -> (r: &'static str)
    ensures
        r@ == reply_pointer_of(p),
{
    match p {
        Provider::Ollama => "/message/content",
        Provider::LmStudio => "/choices/0/message/content",
    }
}

/// The answer text of a reply: none when the reply is not JSON; else the
/// string found where the provider puts the answer, or an empty text when
/// none is there.
pub open spec fn reply_text_of(valid: bool, found: Option<Seq<char>>) -> Option<Seq<char>> {
    if !valid {
        None
    } else {
        match found {
            Some(t) => Some(t),
            None => Some(seq![]),
        }
    }
}

/// The answer text of a reply, from whether it is JSON and the string found
/// where the provider puts the answer.
pub fn answer_text(valid: bool, found: Option<String>) -> (r: Option<String>)
    ensures
        opt_view(r) == reply_text_of(valid, opt_view(found)),
{
    if !valid {
        None
    } else {
        match found {
            Some(t) => Some(t),
            None => Some(String::new()),
        }
    }
}

/// The answer text of a chat reply of the provider, read from the reply's
/// body; none when the body is not JSON.
pub fn reply_text(p: Provider, body: &str) -> (r: Option<String>)
    ensures
        opt_view(r) == reply_text_of(json_valid(body@), json_str_at(body@, reply_pointer_of(p))),
{
    let valid = is_json(body);
    let found = json_string_at(body, reply_content_pointer(p));
    answer_text(valid, found)
}

/// One chat message as a JSON object.
pub open spec fn json_message_of(role: Seq<char>, content: Seq<char>) -> Seq<char> {
    "{\"content\":"@ + json_string_literal(content) + ",\"role\":"@ + json_string_literal(role) + "}"@
}

/// The JSON body asking the embedding model for the embedding of a text.
pub open spec fn embedding_request_of(model: Seq<char>, text: Seq<char>) -> Seq<char> {
    "{\"model\":"@ + json_string_literal(model) + ",\"prompt\":"@ + json_string_literal(text) + "}"@
}

/// The JSON body asking the embedding model for the embedding of a text.
pub fn embedding_request_body(model: &str, text: &str) -> (r: String)
    ensures
        r@ == embedding_request_of(model@, text@),
{
    let m = json_string(model);
    let t = json_string(text);
    let a = concat3("{\"model\":", m.as_str(), ",\"prompt\":");
    concat3(a.as_str(), t.as_str(), "}")
}

/// The earlier messages of a conversation as JSON objects, in order.
pub open spec fn history_messages_of(history: Seq<Message>) -> Seq<Seq<char>> {
    history.map_values(|m: Message| json_message_of(role_text(m.role), m.content@))
}

/// The JSON body of a chat request to a provider: the instructions as a
/// system message, the earlier messages, then the user's message, and the
/// model; Ollama is also told not to stream.
pub open spec fn chat_request_of(
    p: Provider,
    model: Seq<char>,
    preamble: Seq<char>,
    history: Seq<Message>,
    prompt: Seq<char>,
) -> Seq<char> {
    "{\"messages\":["@ + join_with(
        seq![json_message_of("system"@, preamble)] + history_messages_of(history) + seq![
            json_message_of("user"@, prompt),
        ],
        ","@,
    ) + "],\"model\":"@ + json_string_literal(model) + match p {
        Provider::Ollama => ",\"stream\":false"@,
        Provider::LmStudio => seq![],
    } + "}"@
}

/// Writes one chat message as a JSON object.
pub(crate) fn json_message(role: &str, content: &str) -> (r: String)
    ensures
        r@ == json_message_of(role@, content@),
{
    let c = json_string(content);
    let ro = json_string(role);
    let a = concat3("{\"content\":", c.as_str(), ",\"role\":");
    concat3(a.as_str(), ro.as_str(), "}")
}

/// The earlier messages of a conversation as JSON objects, in order.
pub(crate) fn history_json_messages(history: &Vec<Message>) -> (r: Vec<String>)
    ensures
        string_views(r@) == history_messages_of(history@),
{
    let mut msgs: Vec<String> = Vec::new();
    let mut i: usize = 0;
    while i < history.len()
        invariant
            i <= history@.len(),
            string_views(msgs@) == history_messages_of(history@).take(i as int),
        decreases history@.len() - i,
    {
        let ghost before = string_views(msgs@);
        let m = &history[i];
        msgs.push(json_message(m.role.as_str(), m.content.as_str()));
        i = i + 1;
        proof {
            assert(string_views(msgs@) =~= before.push(json_message_of(role_text(m.role), m.content@)));
            assert(history_messages_of(history@).take(i as int) =~= history_messages_of(history@).take(
                i - 1,
            ).push(json_message_of(role_text(history@[i - 1].role), history@[i - 1].content@)));
        }
    }
    proof {
        assert(history_messages_of(history@).take(history@.len() as int) =~= history_messages_of(
            history@,
        ));
    }
    msgs
}

/// The JSON body of a chat request to a provider.
pub fn chat_request_body(
    p: Provider,
    model: &str,
    preamble: &str,
    history: &Vec<Message>,
    prompt: &str,
) -> (r: String)
    ensures
        r@ == chat_request_of(p, model@, preamble@, history@, prompt@),
{
    let mut msgs: Vec<String> = Vec::new();
    msgs.push(json_message("system", preamble));
    let mut rest = history_json_messages(history);
    msgs.append(&mut rest);
    msgs.push(json_message("user", prompt));
    proof {
        assert(string_views(msgs@) =~= seq![json_message_of("system"@, preamble@)]
            + history_messages_of(history@) + seq![json_message_of("user"@, prompt@)]);
    }
    let joined = join(&msgs, ",");
    let m = json_string(model);
    let a = concat3("{\"messages\":[", joined.as_str(), "],\"model\":");
    let b = concat(a.as_str(), m.as_str());
    let tail = match p {
        Provider::Ollama => ",\"stream\":false}",
        Provider::LmStudio => "}",
    };
    let r = concat(b.as_str(), tail);
    proof {
        reveal_strlit(",\"stream\":false}");
        reveal_strlit(",\"stream\":false");
        reveal_strlit("}");
        assert(r@ =~= chat_request_of(p, model@, preamble@, history@, prompt@));
    }
    r
}

} // verus!
