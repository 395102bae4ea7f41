//! Requests to and replies from the text-generation service, as plain data. Sending them is left
//! to the caller; the session engine only builds requests and reads replies.

use vstd::prelude::*;

verus! {

/// Who wrote a message of a chat.
#[derive(Debug, Clone, Copy, PartialEq, Eq, Structural, PartialOrd, Ord, Hash)]
pub enum Role {
    System,
    User,
    Assistant,
}

impl Role {
    /// The name of the role on the wire.
    pub fn name(self) -> (r: &'static str)
        ensures
            r@ == role_name(self),
    {
        match self {
            Role::System => "system",
            Role::User => "user",
            Role::Assistant => "assistant",
        }
    }
}

pub open spec fn role_name(r: Role) -> Seq<char> {
    match r {
        Role::System => "system"@,
        Role::User => "user"@,
        Role::Assistant => "assistant"@,
    }
}

/// One message of a chat.
#[derive(Debug, Clone)]
pub struct Msg {
    pub role: Role,
    pub content: String,
}

/// The mathematical value of a [`Msg`].
pub struct MsgView {
    pub role: Role,
    pub content: Seq<char>,
}

impl View for Msg {
    type V = MsgView;

    open spec fn view(&self) -> MsgView {
        MsgView { role: self.role, content: self.content@ }
    }
}

impl Msg {
    pub fn new(role: Role, content: String) -> (r: Msg)
        ensures
            r.role == role,
            r.content == content,
    {
        Msg { role, content }
    }

    /// A message of the system prompt.
    pub fn system(content: &str) -> (r: Msg)
        ensures
            r.role == Role::System,
            r.content@ == content@,
    {
        Msg::new(Role::System, content.to_owned())
    }

    /// A message written by the user.
    pub fn user(content: &str) -> (r: Msg)
        ensures
            r.role == Role::User,
            r.content@ == content@,
    {
        Msg::new(Role::User, content.to_owned())
    }

    /// A message written by the assistant.
    pub fn assistant(content: &str) -> (r: Msg)
        ensures
            r.role == Role::Assistant,
            r.content@ == content@,
    {
        Msg::new(Role::Assistant, content.to_owned())
    }

    /// The text of the message.
    pub fn text(&self) -> (r: &str)
        ensures
            r@ == self.content@,
    {
        self.content.as_str()
    }
}

/// A chat model of the service.
#[derive(Debug, Clone, Copy, PartialEq, Eq, Structural)]
pub enum ChatModel {
    Gpt4,
    Turbo,
    Turbo0301,
}

impl Default for ChatModel {
    fn default() -> (r: ChatModel)
        ensures
            r == ChatModel::Gpt4,
    {
        ChatModel::Gpt4
    }
}

impl ChatModel {
    /// The name of the model on the wire.
    pub fn name(self) -> (r: &'static str)
        ensures
            r@ == chat_model_name(self),
    {
        match self {
            ChatModel::Gpt4 => "gpt-4",
            ChatModel::Turbo => "gpt-3.5-turbo",
            ChatModel::Turbo0301 => "gpt-3.5-turbo-0301",
        }
    }
}

pub open spec fn chat_model_name(m: ChatModel) -> Seq<char> {
    match m {
        ChatModel::Gpt4 => "gpt-4"@,
        ChatModel::Turbo => "gpt-3.5-turbo"@,
        ChatModel::Turbo0301 => "gpt-3.5-turbo-0301"@,
    }
}

/// A text model of the service.
#[derive(Debug, Clone, Copy, PartialEq, Eq, Structural)]
pub enum Model {
    Davinci,
    Curie,
    Babbage,
    Ada,
}

impl Default for Model {
    fn default() -> (r: Model)
        ensures
            r == Model::Davinci,
    {
        Model::Davinci
    }
}

impl Model {
    /// The name of the embedding model of this family, where it has one.
    pub fn embed_repr(self) -> (r: Option<&'static str>)
        ensures
            r is Some <==> self == Model::Ada,
            r matches Some(s) ==> s@ == "text-embedding-ada-002"@,
    {
        match self {
            Model::Davinci | Model::Curie | Model::Babbage => None,
            Model::Ada => Some("text-embedding-ada-002"),
        }
    }

    /// The name of the completion model of this family.
    pub fn text_repr(self) -> (r: &'static str)
        ensures
            r@ == model_text_name(self),
    {
        match self {
            Model::Davinci => "text-davinci-003",
            Model::Curie => "text-curie-001",
            Model::Babbage => "text-babbage-001",
            Model::Ada => "text-ada-001",
        }
    }
}

pub open spec fn model_text_name(m: Model) -> Seq<char> {
    match m {
        Model::Davinci => "text-davinci-003"@,
        Model::Curie => "text-curie-001"@,
        Model::Babbage => "text-babbage-001"@,
        Model::Ada => "text-ada-001"@,
    }
}

/// A completion model of the service.
#[derive(Debug, Clone, Copy, PartialEq, Eq, Structural)]
pub enum Completions {
    Davinci,
    Curie,
    Babbage,
    Ada,
}

impl Default for Completions {
    fn default() -> (r: Completions)
        ensures
            r == Completions::Davinci,
    {
        Completions::Davinci
    }
}

impl Completions {
    /// The name of the model on the wire.
    pub fn name(self) -> (r: &'static str)
        ensures
            r@ == completions_name(self),
    {
        match self {
            Completions::Davinci => "text-davinci-003",
            Completions::Curie => "text-curie-001",
            Completions::Babbage => "text-babbage-001",
            Completions::Ada => "text-ada-001",
        }
    }
}

pub open spec fn completions_name(m: Completions) -> Seq<char> {
    match m {
        Completions::Davinci => "text-davinci-003"@,
        Completions::Curie => "text-curie-001"@,
        Completions::Babbage => "text-babbage-001"@,
        Completions::Ada => "text-ada-001"@,
    }
}

/// One piece of a streamed chat reply.
#[derive(Debug, Clone)]
pub enum Delta {
    Role(Role),
    Content(String),
}

impl Delta {
    /// The text that the piece adds to the reply: its content, or nothing for a role.
    pub fn content(self) -> (r: String)
        ensures
            self matches Delta::Content(c) ==> r == c,
            self is Role ==> r@ == Seq::<char>::empty(),
    {
        match self {
            Delta::Role(_) => String::new(),
            Delta::Content(c) => c,
        }
    }
}

/// One choice of a chat reply.
#[derive(Debug, Clone)]
pub struct ChatChoice {
    pub message: Msg,
}

/// A chat reply of the service.
#[derive(Debug, Clone)]
pub struct ChatResponse {
    pub id: String,
    pub object: String,
    pub created: u64,
    pub choices: Vec<ChatChoice>,
}

impl ChatResponse {
    /// The text of the first choice; `None` where the reply holds no choice.
    pub fn into_content(self) -> (r: Option<String>)
        ensures
            r is None <==> self.choices@.len() == 0,
            r matches Some(c) ==> c == self.choices@[0].message.content,
    {
        let mut choices = self.choices;
        if choices.len() == 0 {
            None
        } else {
            let first = choices.swap_remove(0);
            Some(first.message.content)
        }
    }
}

/// A chat request: the model, the messages, the number of choices and the stop sequences.
/// Sampling parameters are left at the service's defaults.
#[derive(Debug, Clone)]
pub struct ChatRequest {
    pub model: ChatModel,
    pub messages: Vec<Msg>,
    pub n: usize,
    pub stop: Vec<String>,
}

/// The mathematical value of a [`ChatRequest`].
pub struct ChatRequestView {
    pub model: ChatModel,
    pub messages: Seq<MsgView>,
    pub n: nat,
    pub stop: Seq<Seq<char>>,
}

impl View for ChatRequest {
    type V = ChatRequestView;

    open spec fn view(&self) -> ChatRequestView {
        ChatRequestView {
            model: self.model,
            messages: self.messages@.map_values(|m: Msg| m@),
            n: self.n as nat,
            stop: self.stop@.map_values(|s: String| s@),
        }
    }
}

impl Default for ChatRequest {
    fn default() -> (r: ChatRequest)
        ensures
            r.model == ChatModel::Gpt4,
            r.messages@.len() == 0,
            r.n == 1,
            r.stop@.len() == 0,
    {
        ChatRequest { model: ChatModel::Gpt4, messages: Vec::new(), n: 1, stop: Vec::new() }
    }
}

impl ChatRequest {
    /// A request with no message, for one choice, with no stop sequence.
    pub fn new() -> (r: ChatRequest)
        ensures
            r@.model == ChatModel::Gpt4,
            r@.messages == Seq::<MsgView>::empty(),
            r@.n == 1,
            r@.stop == Seq::<Seq<char>>::empty(),
    {
        let r = ChatRequest::default();
        proof {
            assert(r@.messages =~= Seq::<MsgView>::empty());
            assert(r@.stop =~= Seq::<Seq<char>>::empty());
        }
        r
    }

    pub fn model(self, model: ChatModel) -> (r: ChatRequest)
        ensures
            r@ == (ChatRequestView { model, ..self@ }),
    {
        ChatRequest { model, ..self }
    }

    /// Appends a message.
    pub fn message(self, message: Msg) -> (r: ChatRequest)
        ensures
            r@ == (ChatRequestView { messages: self@.messages.push(message@), ..self@ }),
    {
        let mut messages = self.messages;
        messages.push(message);
        let r = ChatRequest { messages, ..self };
        proof {
            assert(r@.messages =~= self@.messages.push(message@));
        }
        r
    }

    pub fn n(self, n: usize) -> (r: ChatRequest)
        ensures
            r@ == (ChatRequestView { n: n as nat, ..self@ }),
    {
        ChatRequest { n, ..self }
    }

    /// Adds a sequence at which the service stops generating.
    pub fn stop_at(self, stop: &str) -> (r: ChatRequest)
        ensures
            r@ == (ChatRequestView { stop: self@.stop.push(stop@), ..self@ }),
    {
        let mut s = self.stop;
        s.push(stop.to_owned());
        let r = ChatRequest { stop: s, ..self };
        proof {
            assert(r@.stop =~= self@.stop.push(stop@));
        }
        r
    }

    /// Appends a system message.
    pub fn sys_msg(self, content: &str) -> (r: ChatRequest)
        ensures
            r@ == (ChatRequestView {
                messages: self@.messages.push(MsgView { role: Role::System, content: content@ }),
                ..self@
            }),
    {
        self.message(Msg::system(content))
    }

    /// Appends a user message.
    pub fn user_msg(self, content: &str) -> (r: ChatRequest)
        ensures
            r@ == (ChatRequestView {
                messages: self@.messages.push(MsgView { role: Role::User, content: content@ }),
                ..self@
            }),
    {
        self.message(Msg::user(content))
    }

    /// Appends an assistant message.
    pub fn assistant_msg(self, content: &str) -> (r: ChatRequest)
        ensures
            r@ == (ChatRequestView {
                messages: self@.messages.push(MsgView { role: Role::Assistant, content: content@ }),
                ..self@
            }),
    {
        self.message(Msg::assistant(content))
    }
}

} // verus!
