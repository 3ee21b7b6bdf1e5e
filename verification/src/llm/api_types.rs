//! The chat-completion wire types that the core logic reads and writes.
//! Serialisation itself happens outside the library; here the types are
//! plain data with verified accessors.

use vstd::prelude::*;

use crate::chars::str_eq;

verus! {

/// One message of a chat conversation, tagged by role.
pub enum ChatMessage {
    System { content: String },
    User { content: String },
    Assistant { content: String },
}

impl ChatMessage {
    /// A system-role message with the given content.
    pub fn system(content: &str) -> (r: ChatMessage)
        ensures
            r matches ChatMessage::System { content: c } && c@ == content@,
    {
        ChatMessage::System { content: content.to_owned() }
    }

    /// A user-role message with the given content.
    pub fn user(content: &str) -> (r: ChatMessage)
        ensures
            r matches ChatMessage::User { content: c } && c@ == content@,
    {
        ChatMessage::User { content: content.to_owned() }
    }

    /// An assistant-role message with the given content.
    pub fn assistant(content: &str) -> (r: ChatMessage)
        ensures
            r matches ChatMessage::Assistant { content: c } && c@ == content@,
    {
        ChatMessage::Assistant { content: content.to_owned() }
    }

    /// The message text, whatever the role.
    pub open spec fn spec_content(&self) -> Seq<char> {
        match self {
            ChatMessage::System { content } => content@,
            ChatMessage::User { content } => content@,
            ChatMessage::Assistant { content } => content@,
        }
    }
}

/// A successful chat-completion response.
pub struct ChatCompletionResponse {
    pub id: String,
    pub object: String,
    pub created: i64,
    pub model: String,
    pub choices: Vec<ChatChoice>,
    pub usage: Usage,
    pub system_fingerprint: Option<String>,
}

/// One returned completion choice.
pub struct ChatChoice {
    pub index: u32,
    pub message: ChatMessageResponse,
    pub finish_reason: String,
}

/// The message inside a completion choice.
pub struct ChatMessageResponse {
    pub role: String,
    pub content: String,
}

/// Token accounting as the endpoint reports it.
#[derive(Debug, Clone, Copy)]
pub struct Usage {
    pub prompt_tokens: u32,
    pub completion_tokens: u32,
    pub total_tokens: u32,
}

/// The error envelope of a non-2xx response body.
pub struct ErrorResponse {
    pub error: ErrorDetail,
}

/// The error object inside the envelope.
pub struct ErrorDetail {
    pub message: String,
    pub error_type: String,
    pub param: Option<String>,
    pub code: Option<String>,
}

impl ChatCompletionResponse {
    /// The translated text: the content of the first choice, if any.
    pub fn get_content(&self) -> (r: Option<&str>)
        ensures
            match r {
                Some(s) => self.choices@.len() > 0 && s@ == self.choices@[0].message.content@,
                None => self.choices@.len() == 0,
            },
    {
        if self.choices.len() > 0 {
            Some(self.choices[0].message.content.as_str())
        } else {
            None
        }
    }

    /// Whether the first choice finished normally (`finish_reason == "stop"`).
    pub fn is_complete(&self) -> (r: bool)
        ensures
            r == (self.choices@.len() > 0 && self.choices@[0].finish_reason@ == "stop"@),
    {
        if self.choices.len() > 0 {
            str_eq(self.choices[0].finish_reason.as_str(), "stop")
        } else {
            false
        }
    }
}

} // verus!
