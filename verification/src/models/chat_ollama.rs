//! Chat messages with optional attached files.
use vstd::prelude::*;

verus! {

/// Who wrote a chat message.
#[allow(non_camel_case_types)]
#[derive(Debug, Clone, Copy, PartialEq, Eq, Structural)]
pub enum MessageRole {
    ASSISTANT,
    USER,
}

/// A file attached to a message: its name and its encoded data.
#[derive(Debug, Clone)]
pub struct EncodedFile {
    pub file_name: String,
    pub data: String,
}

/// One chat message, with the files attached to it, if any.
#[derive(Debug, Clone)]
pub struct Message {
    pub role: MessageRole,
    pub content: String,
    pub files: Option<Vec<EncodedFile>>,
}

/// Lower-case name of a role, as it is sent to the model server.
pub open spec fn role_text(r: MessageRole) -> Seq<char> {
    match r {
        MessageRole::ASSISTANT => "assistant"@,
        MessageRole::USER => "user"@,
    }
}

impl MessageRole {
    /// Lower-case name of the role (`assistant`, `user`).
    pub fn as_str(&self) -> (r: &'static str)
        ensures
            r@ == role_text(*self),
    {
        match self {
            MessageRole::ASSISTANT => "assistant",
            MessageRole::USER => "user",
        }
    }
}

impl Message {
    /// A message from the user with no files.
    pub fn user(content: String) -> (r: Message)
        ensures
            r.role == MessageRole::USER,
            r.content == content,
            r.files is None,
    {
        Message { role: MessageRole::USER, content, files: None }
    }

    /// A message from the assistant with no files.
    pub fn assistant(content: String) -> (r: Message)
        ensures
            r.role == MessageRole::ASSISTANT,
            r.content == content,
            r.files is None,
    {
        Message { role: MessageRole::ASSISTANT, content, files: None }
    }
}

} // verus!
