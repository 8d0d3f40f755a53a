//! Decisions of the plain chat: when to stop, which model to ask, which
//! images to send and how files are encoded.
use vstd::prelude::*;

use crate::handler::image_loader::{base64_standard, encode_base64, json_string, json_string_literal};
use crate::path::{extension_of, path_extension, plain_path};
use crate::models::chat_ollama::{EncodedFile, Message, MessageRole};
use crate::services::provider::{
    history_json_messages, history_messages_of, json_message, json_message_of, reply_content_pointer,
    reply_pointer_of, Provider,
};
use crate::text::{concat3, join, join_with, str_eq, string_views, trim, trim_of};
use crate::json::{
    is_json, json_array_items_at, json_items_at, json_str_at, json_string_at, json_text_at, json_valid,
    json_value_text_at,
};
use crate::parser::entity::opt_view;
use crate::tools::{
    all_tools, call_views, or_null, text_or_null, tool_definition_of, BaseToolCall, ToolCall, ToolKind,
};

verus! {

/// The model used for text-only conversations.
pub const MODEL_NAME: &'static str = "gpt-oss:latest";

/// The model used when the conversation holds images.
pub const IMAGE_MODEL_NAME: &'static str = "llama3.2-vision:11b-instruct-q4_K_M";

/// Whether a line typed by the user ends the conversation: `exit` or
/// `quit`, ignoring surrounding whitespace.
pub open spec fn is_exit_text(message: Seq<char>) -> bool {
    trim_of(message) == "exit"@ || trim_of(message) == "quit"@
}

/// Whether a line typed by the user ends the conversation.
pub fn is_exit_message(message: &str) -> (r: bool)
    ensures
        r == is_exit_text(message@),
{
    let t = trim(message);
    str_eq(t.as_str(), "exit") || str_eq(t.as_str(), "quit")
}

/// The model asked for a conversation, by whether it holds images.
pub fn select_model(has_images: bool) -> (r: &'static str)
    ensures
        r == (if has_images {
            IMAGE_MODEL_NAME
        } else {
            MODEL_NAME
        }),
{
    if has_images {
        IMAGE_MODEL_NAME
    } else {
        MODEL_NAME
    }
}

/// The data of every file attached to the messages, in order.
pub open spec fn images_of(history: Seq<Message>) -> Seq<Seq<char>>
    decreases history.len(),
{
    if history.len() == 0 {
        seq![]
    } else {
        images_of(history.drop_last()) + match history.last().files {
            Some(fs) => fs@.map_values(|f: EncodedFile| f.data@),
            None => seq![],
        }
    }
}

/// The data of every file attached to the messages, in order.
pub fn history_images(history: &Vec<Message>) -> (r: Vec<String>)
    ensures
        string_views(r@) == images_of(history@),
{
    let mut out: Vec<String> = Vec::new();
    let mut i: usize = 0;
    proof {
        assert(history@.take(0) =~= Seq::<Message>::empty());
        assert(string_views(out@) =~= images_of(history@.take(0)));
    }
    while i < history.len()
        invariant
            i <= history@.len(),
            string_views(out@) == images_of(history@.take(i as int)),
        decreases history@.len() - i,
    {
        let ghost before = string_views(out@);
        proof {
            assert(history@.take(i + 1).drop_last() =~= history@.take(i as int));
            assert(history@.take(i + 1).last() == history@[i as int]);
        }
        match &history[i].files {
            Some(fs) => {
                let mut j: usize = 0;
                while j < fs.len()
                    invariant
                        j <= fs@.len(),
                        string_views(out@) == before + fs@.take(j as int).map_values(
                            |f: EncodedFile| f.data@,
                        ),
                    decreases fs@.len() - j,
                {
                    let ghost b2 = string_views(out@);
                    out.push(fs[j].data.clone());
                    j = j + 1;
                    proof {
                        assert(string_views(out@) =~= b2.push(fs@[j - 1].data@));
                        assert(fs@.take(j as int).map_values(|f: EncodedFile| f.data@) =~= fs@.take(
                            j - 1,
                        ).map_values(|f: EncodedFile| f.data@).push(fs@[j - 1].data@));
                    }
                }
                proof {
                    assert(fs@.take(fs@.len() as int) =~= fs@);
                }
            },
            None => {
                proof {
                    assert(before + Seq::<Seq<char>>::empty() =~= before);
                }
            },
        }
        i = i + 1;
    }
    proof {
        assert(history@.take(history@.len() as int) =~= history@);
    }
    out
}

/// Name for the MIME type, as text, that `mime_guess::from_ext(ext)
/// .first_or_octet_stream()` gives for a file extension (its first known
/// type, else `application/octet-stream`).
pub uninterp spec fn mime_for_extension(ext: Seq<char>) -> Seq<char>;

/// The MIME type guessed for a plain path: that of its extension, or
/// `application/octet-stream` when it has none.
pub open spec fn mime_of_path(path: Seq<char>) -> Seq<char> {
    match extension_of(path) {
        Some(e) => mime_for_extension(e),
        None => "application/octet-stream"@,
    }
}

/// Calls `mime_guess::from_ext(ext).first_or_octet_stream()` and writes the
/// MIME type as text: the first type known for the extension, else
/// `application/octet-stream`; never empty.
#[verifier::external_body]
fn mime_from_extension(ext: &str) -> (r: String)
    ensures
        r@ == mime_for_extension(ext@),
        r@.len() > 0,
{
    mime_guess::from_ext(ext).first_or_octet_stream().to_string()
}

/// The MIME type of a file, guessed from its extension as
/// `mime_guess::from_path` does: `application/octet-stream` for a path
/// without extension.
pub fn guess_mime_type(path: &str) -> (r: String)
    ensures
        plain_path(path@) ==> r@ == mime_of_path(path@),
        r@.len() > 0,
{
    match path_extension(path) {
        Some(e) => mime_from_extension(e.as_str()),
        None => {
            let r = String::from_str("application/octet-stream");
            proof {
                reveal_strlit("application/octet-stream");
            }
            r
        },
    }
}

/// A data URL for file contents of a MIME type.
pub open spec fn data_url_of(mime: Seq<char>, bytes: Seq<u8>) -> Seq<char> {
    "data:"@ + mime + ";base64,"@ + base64_standard(bytes)
}

/// A data URL for the contents of a file, with the MIME type guessed from
/// its path.
pub fn encode_file(file_path: &str, contents: &[u8]) -> (r: String)
    ensures
        plain_path(file_path@) ==> r@ == data_url_of(mime_of_path(file_path@), contents@),
        exists|mime: Seq<char>| mime.len() > 0 && r@ == #[trigger] data_url_of(mime, contents@),
{
    let mime = guess_mime_type(file_path);
    let encoded = encode_base64(contents);
    let a = concat3("data:", mime.as_str(), ";base64,");
    let r = crate::text::concat(a.as_str(), encoded.as_str());
    proof {
        assert(r@ == data_url_of(mime@, contents@));
    }
    r
}

/// The address of the chat endpoint of the model server.
pub const CHAT_ENDPOINT: &'static str = "http://localhost:11434/api/chat";

/// The text appended to every request to the chat model.
pub const CHAT_SUFFIX: &'static str = " Keep answers precise";

/// The JSON body of a plain chat request, keys in the order `serde_json`
/// writes an object's keys: the data of the files attached to the earlier
/// messages as images, the earlier messages and then the user's message,
/// the model chosen by whether there are images, the instructions as
/// prefix, no streaming, the suffix, and the definitions of the tools.
pub open spec fn plain_chat_request_of(history: Seq<Message>, message: Seq<char>, prefix: Seq<char>) -> Seq<
    char,
> {
    let images = images_of(history);
    let model = if images.len() > 0 {
        IMAGE_MODEL_NAME
    } else {
        MODEL_NAME
    };
    "{\"images\":["@ + join_with(images.map_values(|d: Seq<char>| json_string_literal(d)), ","@)
        + "],\"messages\":["@ + join_with(
        history_messages_of(history) + seq![json_message_of("user"@, message)],
        ","@,
    ) + "],\"model\":"@ + json_string_literal(model@) + ",\"prefix\":"@ + json_string_literal(prefix)
        + ",\"stream\":false,\"suffix\":"@ + json_string_literal(CHAT_SUFFIX@) + ",\"tools\":["@
        + join_with(all_tools().map_values(|t: ToolKind| tool_definition_of(t)@), ","@) + "]}"@
}

/// The JSON body of a plain chat request with the conversation so far, the
/// user's message and the instructions.
pub fn plain_chat_request_body(history: &Vec<Message>, message: &str, prefix: &str) -> (r: String)
    ensures
        r@ == plain_chat_request_of(history@, message@, prefix@),
{
    let images = history_images(history);
    let ghost image_data = images_of(history@);
    let mut quoted: Vec<String> = Vec::new();
    let mut i: usize = 0;
    while i < images.len()
        invariant
            i <= images@.len(),
            string_views(images@) == image_data,
            string_views(quoted@) == image_data.take(i as int).map_values(
                |d: Seq<char>| json_string_literal(d),
            ),
        decreases images@.len() - i,
    {
        let ghost before = string_views(quoted@);
        proof {
            assert(string_views(images@)[i as int] == images@[i as int]@);
        }
        quoted.push(json_string(images[i].as_str()));
        i = i + 1;
        proof {
            assert(string_views(quoted@) =~= before.push(json_string_literal(image_data[i - 1])));
            assert(image_data.take(i as int) =~= image_data.take(i - 1).push(image_data[i - 1]));
            assert(string_views(quoted@) =~= image_data.take(i as int).map_values(
                |d: Seq<char>| json_string_literal(d),
            ));
        }
    }
    proof {
        assert(image_data.take(images@.len() as int) =~= image_data);
    }
    let mut msgs = history_json_messages(history);
    msgs.push(json_message("user", message));
    proof {
        assert(string_views(msgs@) =~= history_messages_of(history@) + seq![
            json_message_of("user"@, message@),
        ]);
    }
    let tools = BaseToolCall::new();
    let defs = tools.get_available_tool_definitions();
    let ghost def_texts = all_tools().map_values(|t: ToolKind| tool_definition_of(t)@);
    let mut texts: Vec<String> = Vec::new();
    let mut j: usize = 0;
    while j < defs.len()
        invariant
            j <= defs@.len(),
            defs@ == all_tools().map_values(|t: ToolKind| tool_definition_of(t)),
            def_texts == all_tools().map_values(|t: ToolKind| tool_definition_of(t)@),
            string_views(texts@) == def_texts.take(j as int),
        decreases defs@.len() - j,
    {
        let ghost before = string_views(texts@);
        texts.push(String::from_str(defs[j]));
        j = j + 1;
        proof {
            assert(defs@[j - 1] == tool_definition_of(all_tools()[j - 1]));
            assert(def_texts[j - 1] == tool_definition_of(all_tools()[j - 1])@);
            assert(string_views(texts@) =~= before.push(def_texts[j - 1]));
            assert(def_texts.take(j as int) =~= def_texts.take(j - 1).push(def_texts[j - 1]));
            assert(string_views(texts@) =~= def_texts.take(j as int));
        }
    }
    proof {
        assert(def_texts.take(defs@.len() as int) =~= def_texts);
    }
    let model = select_model(images.len() > 0);
    let mut body = String::from_str("{\"images\":[");
    body.append(join(&quoted, ",").as_str());
    body.append("],\"messages\":[");
    body.append(join(&msgs, ",").as_str());
    body.append("],\"model\":");
    body.append(json_string(model).as_str());
    body.append(",\"prefix\":");
    body.append(json_string(prefix).as_str());
    body.append(",\"stream\":false,\"suffix\":");
    body.append(json_string(CHAT_SUFFIX).as_str());
    body.append(",\"tools\":[");
    body.append(join(&texts, ",").as_str());
    body.append("]}");
    body
}

/// What the chat model answered: a text, or calls of tools.
#[derive(Debug, Clone, PartialEq, Eq)]
pub enum ChatReply {
    /// The answer text.
    Text(String),
    /// The tools to call, with their arguments, in order.
    Tools(Vec<ToolCall>),
}

/// The model of a chat reply.
pub enum ChatReplyModel {
    Text(Seq<char>),
    Tools(Seq<(Seq<char>, Seq<char>)>),
}

/// The model of a chat reply.
pub open spec fn chat_reply_view(r: ChatReply) -> ChatReplyModel {
    match r {
        ChatReply::Text(t) => ChatReplyModel::Text(t@),
        ChatReply::Tools(c) => ChatReplyModel::Tools(call_views(c@)),
    }
}

/// Where the calls of tools stand in a reply of the chat model.
pub open spec fn tool_calls_pointer() -> Seq<char> {
    "/message/tool_calls"@
}

/// Where a call's tool name stands in the call.
pub open spec fn call_name_pointer() -> Seq<char> {
    "/function/name"@
}

/// Where a call's arguments stand in the call.
pub open spec fn call_arguments_pointer() -> Seq<char> {
    "/function/arguments"@
}

/// A call of a tool from the name and the arguments found in it: a missing
/// name is empty and missing arguments are JSON `null`.
pub open spec fn tool_call_of(name: Option<Seq<char>>, arguments: Option<Seq<char>>) -> (Seq<char>, Seq<char>) {
    (
        match name {
            Some(n) => n,
            None => seq![],
        },
        or_null(arguments),
    )
}

/// A call of a tool from the name and the arguments found in it.
pub fn tool_call_with(name: Option<String>, arguments: Option<String>) -> (r: ToolCall)
    ensures
        (r.name@, r.arguments@) == tool_call_of(opt_view(name), opt_view(arguments)),
{
    let name = match name {
        Some(n) => n,
        None => String::new(),
    };
    ToolCall { name, arguments: text_or_null(arguments) }
}

/// The call of a tool written as one item of the reply's list of calls.
pub open spec fn tool_call_in(item: Seq<char>) -> (Seq<char>, Seq<char>) {
    tool_call_of(json_str_at(item, call_name_pointer()), json_text_at(item, call_arguments_pointer()))
}

/// The call of a tool written as one item of the reply's list of calls.
pub fn tool_call_from(item: &str) -> (r: ToolCall)
    ensures
        (r.name@, r.arguments@) == tool_call_in(item@),
{
    let name = json_string_at(item, "/function/name");
    let arguments = json_value_text_at(item, "/function/arguments");
    proof {
        reveal_strlit("/function/name");
        reveal_strlit("/function/arguments");
    }
    tool_call_with(name, arguments)
}

/// What the chat model answered, from whether the reply is JSON, the
/// answer text found in it and the calls of tools found in it: none when
/// the reply is not JSON; the calls when the reply has a list of them; else
/// the text, empty when there is none.
pub open spec fn chat_reply_from_of(
    valid: bool,
    text: Option<Seq<char>>,
    calls: Option<Seq<(Seq<char>, Seq<char>)>>,
) -> Option<ChatReplyModel> {
    if !valid {
        None
    } else {
        match calls {
            Some(c) => Some(ChatReplyModel::Tools(c)),
            None => Some(
                ChatReplyModel::Text(
                    match text {
                        Some(t) => t,
                        None => seq![],
                    },
                ),
            ),
        }
    }
}

/// What the chat model answered, from whether the reply is JSON, the
/// answer text found in it and the calls of tools found in it.
pub fn chat_reply_from(valid: bool, text: Option<String>, calls: Option<Vec<ToolCall>>) -> (r: Option<
    ChatReply,
>)
    ensures
        (match r {
            Some(c) => Some(chat_reply_view(c)),
            None => None,
        }) == chat_reply_from_of(
            valid,
            opt_view(text),
            match calls {
                Some(c) => Some(call_views(c@)),
                None => None,
            },
        ),
{
    if !valid {
        None
    } else {
        match calls {
            Some(c) => Some(ChatReply::Tools(c)),
            None => match text {
                Some(t) => Some(ChatReply::Text(t)),
                None => Some(ChatReply::Text(String::new())),
            },
        }
    }
}

/// What the chat model answered in a reply's body: none when the body is
/// not JSON; the calls of tools when the reply has a list of them, each
/// read from its item; else the answer text, empty when there is none.
pub open spec fn chat_reply_of(body: Seq<char>) -> Option<ChatReplyModel> {
    chat_reply_from_of(
        json_valid(body),
        json_str_at(body, reply_pointer_of(Provider::Ollama)),
        match json_items_at(body, tool_calls_pointer()) {
            Some(items) => Some(items.map_values(|it: Seq<char>| tool_call_in(it))),
            None => None,
        },
    )
}

/// What the chat model answered in a reply's body.
pub fn chat_reply(body: &str) -> (r: Option<ChatReply>)
    ensures
        (match r {
            Some(c) => Some(chat_reply_view(c)),
            None => None,
        }) == chat_reply_of(body@),
{
    let valid = is_json(body);
    let text = json_string_at(body, reply_content_pointer(Provider::Ollama));
    let items = json_array_items_at(body, "/message/tool_calls");
    proof {
        reveal_strlit("/message/tool_calls");
    }
    let calls = match items {
        Some(items) => {
            let ghost iv = string_views(items@);
            let mut calls: Vec<ToolCall> = Vec::new();
            let mut i: usize = 0;
            while i < items.len()
                invariant
                    i <= items@.len(),
                    iv == string_views(items@),
                    call_views(calls@) == iv.take(i as int).map_values(|it: Seq<char>| tool_call_in(it)),
                decreases items@.len() - i,
            {
                let ghost before = call_views(calls@);
                let c = tool_call_from(items[i].as_str());
                calls.push(c);
                i = i + 1;
                proof {
                    assert(iv[i - 1] == items@[i - 1]@);
                    assert(call_views(calls@) =~= before.push(tool_call_in(iv[i - 1])));
                    assert(iv.take(i as int) =~= iv.take(i - 1).push(iv[i - 1]));
                    assert(call_views(calls@) =~= iv.take(i as int).map_values(
                        |it: Seq<char>| tool_call_in(it),
                    ));
                }
            }
            proof {
                assert(iv.take(items@.len() as int) =~= iv);
            }
            Some(calls)
        },
        None => None,
    };
    chat_reply_from(valid, text, calls)
}

/// The error of a reply with an HTTP status that the chat does not accept:
/// `Server Error` for 500 and `Bad Request` for 400.
pub fn reply_error(status: u16) -> (r: Option<&'static str>)
    ensures
        r == (if status == 500 {
            Some("Server Error")
        } else if status == 400 {
            Some("Bad Request")
        } else {
            None::<&'static str>
        }),
{
    if status == 500 {
        Some("Server Error")
    } else if status == 400 {
        Some("Bad Request")
    } else {
        None
    }
}

/// The conversation after a turn: the earlier messages, the user's
/// message without files, and the assistant's answer.
pub open spec fn after_turn(history: Seq<Message>, question: Seq<char>, answer: Seq<char>) -> Seq<
    (MessageRole, Seq<char>, bool),
> {
    message_views(history) + seq![
        (MessageRole::USER, question, false),
        (MessageRole::ASSISTANT, answer, false),
    ]
}

/// Role, content and whether files are attached, for each message.
pub open spec fn message_views(history: Seq<Message>) -> Seq<(MessageRole, Seq<char>, bool)> {
    history.map_values(|m: Message| (m.role, m.content@, m.files is Some))
}

/// The conversation after a turn: the user's message, without files, and
/// the assistant's answer follow the earlier messages.
pub fn extend_history(history: Vec<Message>, question: String, answer: String) -> (r: Vec<Message>)
    ensures
        message_views(r@) == after_turn(history@, question@, answer@),
        r@.len() == history@.len() + 2,
        r@.take(history@.len() as int) == history@,
        images_of(r@) == images_of(history@),
{
    let mut out = history;
    let ghost before = out@;
    out.push(Message::user(question));
    out.push(Message::assistant(answer));
    proof {
        assert(out@.take(before.len() as int) =~= before);
        assert(message_views(out@) =~= after_turn(before, question@, answer@));
        let turn = out@.skip(before.len() as int);
        assert(out@ =~= before + turn);
        lemma_turn_adds_no_images(before, turn);
    }
    out
}

/// A turn adds no images to the conversation: the images sent with the
/// next request are those of the conversation before the turn.
pub proof fn lemma_turn_adds_no_images(history: Seq<Message>, turn: Seq<Message>)
    requires
        forall|i: int| 0 <= i < turn.len() ==> (#[trigger] turn[i]).files is None,
    ensures
        images_of(history + turn) == images_of(history),
    decreases turn.len(),
{
    if turn.len() > 0 {
        let t = turn.drop_last();
        assert((history + turn).drop_last() =~= history + t);
        assert((history + turn).last() == turn.last());
        lemma_turn_adds_no_images(history, t);
        assert(images_of(history + turn) =~= images_of(history + t) + Seq::<Seq<char>>::empty());
    } else {
        assert(history + turn =~= history);
    }
}

} // verus!
