//! The exchange with the inference server, as far as it is computation:
//! how a request is put together, how the outcome of an exchange is named,
//! and the message that stands in a chat for each kind of failure.

use crate::history::{MessageView, Role, MAX_MESSAGE_CHARS};
use crate::json::{
    is_boolean, json_document, json_tree, member_of, read_document, text_of, JsonTree,
};
use crate::settings::{FloatBits, Settings, SettingsView};
use crate::store::{message_views, Message};
use crate::text::{prefix, truncate_chars};
use vstd::prelude::*;

verus! {

/// One turn of the conversation that is sent to the server.
#[derive(Debug, PartialEq, Eq)]
pub struct Turn {
    pub role: Role,
    pub content: String,
}

/// Mathematical value of a [`Turn`].
pub struct TurnView {
    pub role: Role,
    pub content: Seq<char>,
}

impl View for Turn {
    type V = TurnView;

    open spec fn view(&self) -> TurnView {
        TurnView { role: self.role, content: self.content@ }
    }
}

/// A request for one complete response.
#[derive(Debug, PartialEq, Eq)]
pub struct ChatRequest {
    pub model: String,
    pub messages: Vec<Turn>,
    /// Never set: the server answers with one complete response.
    pub stream: bool,
    pub temperature: FloatBits,
    pub top_p: FloatBits,
    pub max_tokens: i32,
}

/// Mathematical value of a [`ChatRequest`].
#[verifier::ext_equal]
pub struct ChatRequestView {
    pub model: Seq<char>,
    pub messages: Seq<TurnView>,
    pub stream: bool,
    pub temperature: FloatBits,
    pub top_p: FloatBits,
    pub max_tokens: i32,
}

/// The values of a sequence of turns.
pub open spec fn turn_views(turns: Seq<Turn>) -> Seq<TurnView> {
    turns.map_values(|t: Turn| t@)
}

impl View for ChatRequest {
    type V = ChatRequestView;

    open spec fn view(&self) -> ChatRequestView {
        ChatRequestView {
            model: self.model@,
            messages: turn_views(self.messages@),
            stream: self.stream,
            temperature: self.temperature,
            top_p: self.top_p,
            max_tokens: self.max_tokens,
        }
    }
}

/// The status code of an HTTP response: a number from 100 to 999.
#[derive(Clone, Copy, Debug, PartialEq, Eq, Structural)]
pub struct HttpStatus {
    code: u16,
}

impl HttpStatus {
    /// The number of the status.
    pub closed spec fn value(self) -> u16 {
        self.code
    }

    #[verifier::type_invariant]
    closed spec fn in_range(self) -> bool {
        100 <= self.code <= 999
    }

    /// The status with this number, if it is a status code.
    pub fn new(code: u16) -> (r: Option<HttpStatus>)
        ensures
            r is Some <==> 100 <= code <= 999,
            r matches Some(s) ==> s.value() == code,
    {
        if 100 <= code && code <= 999 {
            Some(HttpStatus { code })
        } else {
            None
        }
    }

    /// The number of the status.
    pub fn code(&self) -> (r: u16)
        ensures
            r == self.value(),
            100 <= r <= 999,
    {
        proof {
            use_type_invariant(self);
        }
        self.code
    }

    /// Whether the status reports success: a number from 200 to 299.
    pub fn is_success(&self) -> (r: bool)
        ensures
            r == (200 <= self.value() <= 299),
    {
        200 <= self.code && self.code <= 299
    }
}

/// Why an exchange with the server gave no reply.
#[derive(Clone, Copy, Debug, PartialEq, Eq, Structural)]
pub enum GenerateError {
    /// The server could not be reached.
    ConnectionFailed,
    /// The server answered with a status that does not report success.
    BadStatus(HttpStatus),
    /// The body of the answer is not a reply.
    ParseFailed,
}

/// What `reqwest::StatusCode` displays for the status with this number: the
/// number, a space, and the reason phrase that the code is registered with.
pub uninterp spec fn status_display(code: u16) -> Seq<char>;

/// The text that `reqwest::StatusCode` displays for a status code. The
/// status is made with `StatusCode::from_u16`, which takes every number from
/// 100 to 999, and formatted with its `Display`, which depends on the number
/// alone.
#[verifier::external_body]
fn status_text(code: u16) -> (r: String)
    requires
        100 <= code <= 999,
    ensures
        r@ == status_display(code),
{
    match reqwest::StatusCode::from_u16(code) {
        Ok(status) => status.to_string(),
        Err(_) => String::new(),
    }
}

/// The message that stands in a chat when a turn is sent with no model
/// selected.
pub open spec fn no_model_text() -> Seq<char> {
    "Error: No model selected. Please open Settings and choose a model before sending messages."@
}

/// The message that stands in a chat for a failed exchange.
pub open spec fn failure_text(e: GenerateError) -> Seq<char> {
    match e {
        GenerateError::ConnectionFailed =>
            "Error: Could not connect to Ollama. Make sure Ollama is running at http://localhost:11434"@,
        GenerateError::BadStatus(status) => "Error: Ollama API returned status "@ + status_display(
            status.value(),
        ),
        GenerateError::ParseFailed => "Error: Failed to parse response from Ollama"@,
    }
}

/// The message that stands in a chat for the outcome of an exchange: the
/// reply, or the message of the failure.
pub open spec fn reply_text(outcome: Result<Seq<char>, GenerateError>) -> Seq<char> {
    match outcome {
        Ok(text) => text,
        Err(e) => failure_text(e),
    }
}

/// The message for a turn that was sent with no model selected.
pub fn no_model_message() -> (r: &'static str)
    ensures
        r@ == no_model_text(),
{
    "Error: No model selected. Please open Settings and choose a model before sending messages."
}

/// The message for a failed exchange.
pub fn failure_message(e: GenerateError) -> (r: String)
    ensures
        r@ == failure_text(e),
{
    match e {
        GenerateError::ConnectionFailed => String::from_str(
            "Error: Could not connect to Ollama. Make sure Ollama is running at http://localhost:11434",
        ),
        GenerateError::BadStatus(status) => {
            let mut text = String::from_str("Error: Ollama API returned status ");
            let shown = status_text(status.code());
            text.append(shown.as_str());
            text
        },
        GenerateError::ParseFailed => String::from_str(
            "Error: Failed to parse response from Ollama",
        ),
    }
}

/// The reply that a document carries: the content of its member `message`,
/// where that has a role and a content that are strings, and the member
/// `done`, if there is one, is `true` or `false`.
pub open spec fn reply_in(doc: JsonTree) -> Option<Seq<char>> {
    match doc.member("message"@) {
        Some(message) => {
            if message.member("role"@) is Some && message.member("role"@)->0.text() is Some
                && message.member("content"@) is Some && (doc.member("done"@) is Some
                ==> doc.member("done"@)->0 is Bool) {
                message.member("content"@)->0.text()
            } else {
                None
            }
        },
        None => None,
    }
}

/// What the body of an answer that reports success comes to: the reply
/// that it carries, or the failure to find one.
pub open spec fn decoded(body: Seq<u8>) -> Result<Seq<char>, GenerateError> {
    match json_document(body) {
        Some(doc) => match reply_in(doc) {
            Some(reply) => Ok(reply),
            None => Err(GenerateError::ParseFailed),
        },
        None => Err(GenerateError::ParseFailed),
    }
}

/// What an answer of the server comes to: nothing but its status where that
/// does not report success, else what its body holds.
pub open spec fn interpreted(status: HttpStatus, body: Seq<u8>) -> Result<
    Seq<char>,
    GenerateError,
> {
    if 200 <= status.value() <= 299 {
        decoded(body)
    } else {
        Err(GenerateError::BadStatus(status))
    }
}

/// The text of an outcome, with its failure as it is.
pub open spec fn outcome_view(outcome: Result<String, GenerateError>) -> Result<
    Seq<char>,
    GenerateError,
> {
    match outcome {
        Ok(reply) => Ok(reply@),
        Err(e) => Err(e),
    }
}

/// The reply that a document carries.
pub fn reply_of(doc: &serde_json::Value) -> (r: Option<String>)
    ensures
        match r {
            Some(reply) => reply_in(json_tree(*doc)) == Some(reply@),
            None => reply_in(json_tree(*doc)) is None,
        },
{
    let message = match member_of(doc, "message") {
        Some(message) => message,
        None => {
            return None;
        },
    };
    let role_given = match member_of(message, "role") {
        Some(role) => text_of(role).is_some(),
        None => false,
    };
    let done_fits = match member_of(doc, "done") {
        Some(done) => is_boolean(done),
        None => true,
    };
    if !role_given || !done_fits {
        return None;
    }
    match member_of(message, "content") {
        Some(content) => match text_of(content) {
            Some(reply) => Some(reply.to_owned()),
            None => None,
        },
        None => None,
    }
}

/// Reads the body of an answer that reports success.
pub fn decode_reply(body: &[u8]) -> (r: Result<String, GenerateError>)
    ensures
        outcome_view(r) == decoded(body@),
{
    match read_document(body) {
        Ok(doc) => match reply_of(&doc) {
            Some(reply) => Ok(reply),
            None => Err(GenerateError::ParseFailed),
        },
        Err(_) => Err(GenerateError::ParseFailed),
    }
}

/// Names the outcome of an exchange in which the server answered.
pub fn interpret(status: HttpStatus, body: &[u8]) -> (r: Result<String, GenerateError>)
    ensures
        outcome_view(r) == interpreted(status, body@),
{
    if status.is_success() {
        decode_reply(body)
    } else {
        Err(GenerateError::BadStatus(status))
    }
}

/// The turn that a stored message stands for.
pub open spec fn turn_of(m: MessageView) -> TurnView {
    TurnView { role: m.role, content: m.content }
}

/// The system turn, where there is a system prompt.
pub open spec fn system_turns(system_prompt: Seq<char>) -> Seq<TurnView> {
    if system_prompt.len() > 0 {
        seq![TurnView { role: Role::System, content: system_prompt }]
    } else {
        Seq::empty()
    }
}

/// The conversation that is sent: the system prompt if there is one, then
/// the stored messages oldest first, then the new user turn, cut to the
/// length that a message keeps.
pub open spec fn context(
    system_prompt: Seq<char>,
    stored: Seq<MessageView>,
    user_text: Seq<char>,
) -> Seq<TurnView> {
    system_turns(system_prompt) + stored.map_values(|m: MessageView| turn_of(m)) + seq![
        TurnView { role: Role::User, content: prefix(user_text, MAX_MESSAGE_CHARS as nat) },
    ]
}

/// The request for a user turn under these settings.
pub open spec fn request_for(
    settings: SettingsView,
    stored: Seq<MessageView>,
    user_text: Seq<char>,
) -> ChatRequestView {
    ChatRequestView {
        model: settings.model,
        messages: context(settings.system_prompt, stored, user_text),
        stream: false,
        temperature: settings.temperature,
        top_p: settings.top_p,
        max_tokens: settings.max_tokens,
    }
}

/// Puts the request for a user turn together.
pub fn build_request(settings: &Settings, stored: &Vec<Message>, user_text: &str) -> (r:
    ChatRequest)
    ensures
        r@ == request_for(settings@, message_views(stored@), user_text@),
{
    let ghost history = message_views(stored@).map_values(|m: MessageView| turn_of(m));
    let mut turns: Vec<Turn> = Vec::new();
    if !settings.system_prompt.as_str().is_empty() {
        turns.push(Turn { role: Role::System, content: settings.system_prompt.clone() });
    }
    assert(turn_views(turns@) =~= system_turns(settings@.system_prompt));
    let mut i: usize = 0;
    while i < stored.len()
        invariant
            i <= stored.len(),
            history == message_views(stored@).map_values(|m: MessageView| turn_of(m)),
            turn_views(turns@) == system_turns(settings@.system_prompt) + history.take(i as int),
        decreases stored.len() - i,
    {
        let ghost before = turns@;
        turns.push(Turn { role: stored[i].role, content: stored[i].content.clone() });
        proof {
            assert(turn_views(turns@) =~= turn_views(before).push(history[i as int]));
            assert(turn_views(turns@) =~= system_turns(settings@.system_prompt) + history.take(
                i + 1,
            ));
        }
        i = i + 1;
    }
    assert(history.take(i as int) =~= history);
    let ghost before = turns@;
    turns.push(Turn { role: Role::User, content: truncate_chars(user_text, MAX_MESSAGE_CHARS) });
    assert(turn_views(turns@) =~= turn_views(before).push(
        TurnView { role: Role::User, content: prefix(user_text@, MAX_MESSAGE_CHARS as nat) },
    ));
    let r = ChatRequest {
        model: settings.model.clone(),
        messages: turns,
        stream: false,
        temperature: settings.temperature,
        top_p: settings.top_p,
        max_tokens: settings.max_tokens,
    };
    assert(r@ =~= request_for(settings@, message_views(stored@), user_text@));
    r
}

} // verus!
