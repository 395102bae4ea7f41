//! The packets exchanged between a client and the session engine: an envelope with an
//! identifier around a closed set of client and server messages.

use vstd::prelude::*;

use crate::chars::chars_of;

verus! {

/// A lowercase hexadecimal digit.
pub open spec fn is_hex_lower(c: char) -> bool {
    ('0' <= c && c <= '9') || ('a' <= c && c <= 'f')
}

/// The canonical text of a UUID: 36 characters, lowercase hexadecimal digits in groups of
/// 8, 4, 4, 4 and 12 separated by hyphens.
pub open spec fn is_uuid_text(s: Seq<char>) -> bool {
    &&& s.len() == 36
    &&& forall|p: int|
        0 <= p < 36 ==> if p == 8 || p == 13 || p == 18 || p == 23 {
            s[p] == '-'
        } else {
            is_hex_lower(#[trigger] s[p])
        }
}

/// Relies on `uuid::Uuid::new_v4` and the `Display` of `Uuid`, which writes the hyphenated
/// lowercase form: a random identifier in canonical text, with the version digit `4`.
#[verifier::external_body]
fn random_uuid_text() -> (r: String)
    ensures
        is_uuid_text(r@),
        r@[14] == '4',
{
    uuid::Uuid::new_v4().to_string()
}

/// The identifier of a packet: a random (version 4) UUID, held as its canonical text.
#[derive(Debug, PartialEq, Eq, Hash)]
pub struct PacketId {
    text: String,
}

impl Clone for PacketId {
    fn clone(&self) -> (r: PacketId) {
        proof {
            use_type_invariant(self);
        }
        PacketId { text: self.text.clone() }
    }
}

impl View for PacketId {
    type V = Seq<char>;

    closed spec fn view(&self) -> Seq<char> {
        self.text@
    }
}

impl PacketId {
    #[verifier::type_invariant]
    spec fn inv(&self) -> bool {
        is_uuid_text(self.text@)
    }

    /// A freshly generated identifier.
    pub fn random() -> (r: PacketId)
        ensures
            is_uuid_text(r@),
            r@[14] == '4',
    {
        PacketId { text: random_uuid_text() }
    }

    /// The identifier written as `text`, where it is the canonical text of a UUID.
    pub fn parse(text: &str) -> (r: Option<PacketId>)
        ensures
            r is Some <==> is_uuid_text(text@),
            r matches Some(id) ==> id@ == text@,
    {
        let v = chars_of(text);
        if v.len() == 36 && is_uuid_chars(&v, 0) {
            proof {
                assert(v@.subrange(0, 36) =~= v@);
            }
            Some(PacketId { text: text.to_owned() })
        } else {
            proof {
                if is_uuid_text(text@) {
                    assert(v@.subrange(0, 36) =~= v@);
                }
            }
            None
        }
    }

    /// The canonical text of the identifier.
    pub fn as_str(&self) -> (r: &str)
        ensures
            r@ == self@,
            is_uuid_text(r@),
    {
        proof {
            use_type_invariant(self);
        }
        self.text.as_str()
    }
}

/// Whether `v[from..from + 36]` is the canonical text of a UUID.
fn is_uuid_chars(v: &Vec<char>, from: usize) -> (r: bool)
    ensures
        r == (from + 36 <= v@.len() && is_uuid_text(v@.subrange(from as int, from + 36))),
{
    if from > v.len() || v.len() - from < 36 {
        return false;
    }
    let ghost t = v@.subrange(from as int, from + 36);
    let end: usize = from + 36;
    let mut p: usize = 0;
    while p < 36
        invariant
            end == from + 36,
            end <= v@.len(),
            t == v@.subrange(from as int, from + 36),
            p <= 36,
            forall|q: int|
                0 <= q < p ==> if q == 8 || q == 13 || q == 18 || q == 23 {
                    t[q] == '-'
                } else {
                    is_hex_lower(#[trigger] t[q])
                },
        decreases 36 - p,
    {
        let c = v[end - 36 + p];
        assert(t[p as int] == c);
        let ok = if p == 8 || p == 13 || p == 18 || p == 23 {
            c == '-'
        } else {
            ('0' <= c && c <= '9') || ('a' <= c && c <= 'f')
        };
        if !ok {
            return false;
        }
        p = p + 1;
    }
    true
}

/// A message sent by the client.
#[derive(Debug, Clone, PartialEq, Eq)]
pub enum Client {
    /// Send an instruction. This starts a question-answer session.
    Instruction { instruction: String },
    /// Answer the outstanding question.
    Answer { answer: String },
    /// Ask for the final plan.
    Execute,
}

/// A message sent by the session engine.
#[derive(Debug, Clone, PartialEq, Eq)]
pub enum Server {
    /// One fragment of a question. A question is the concatenation of a series of fragments that
    /// starts with `is_first_word` and ends with `is_last_word`.
    Question { question: String, is_first_word: bool, is_last_word: bool },
}

/// The mathematical value of a [`Client`] message.
pub enum ClientMsg {
    Instruction(Seq<char>),
    Answer(Seq<char>),
    Execute,
}

/// The mathematical value of a [`Server`] message.
pub enum ServerMsg {
    Question { question: Seq<char>, is_first_word: bool, is_last_word: bool },
}

impl View for Client {
    type V = ClientMsg;

    open spec fn view(&self) -> ClientMsg {
        match self {
            Client::Instruction { instruction } => ClientMsg::Instruction(instruction@),
            Client::Answer { answer } => ClientMsg::Answer(answer@),
            Client::Execute => ClientMsg::Execute,
        }
    }
}

impl View for Server {
    type V = ServerMsg;

    open spec fn view(&self) -> ServerMsg {
        match self {
            Server::Question { question, is_first_word, is_last_word } => ServerMsg::Question {
                question: question@,
                is_first_word: *is_first_word,
                is_last_word: *is_last_word,
            },
        }
    }
}

/// The envelope around every message: a fresh identifier and the payload.
#[derive(Debug, Clone, PartialEq, Eq)]
pub struct Packet<T> {
    pub id: PacketId,
    pub data: T,
}

/// The mathematical value of a [`Packet`].
pub struct PacketView<V> {
    pub id: Seq<char>,
    pub data: V,
}

impl<T: View> View for Packet<T> {
    type V = PacketView<T::V>;

    open spec fn view(&self) -> PacketView<T::V> {
        PacketView { id: self.id@, data: self.data@ }
    }
}

pub type ClientPacket = Packet<Client>;

pub type ServerPacket = Packet<Server>;

impl<T> Packet<T> {
    /// Wraps `data` under a freshly generated identifier.
    pub fn new(data: T) -> (r: Self)
        ensures
            r.data == data,
            is_uuid_text(r.id@),
    {
        Packet { id: PacketId::random(), data }
    }

    /// Wraps `data` under the given identifier.
    pub fn with_id(id: PacketId, data: T) -> (r: Self)
        ensures
            r.id == id,
            r.data == data,
    {
        Packet { id, data }
    }
}

impl Packet<Server> {
    /// Wraps a server message, given as one of its variants, under a fresh identifier.
    pub fn server(data: Question) -> (r: Self)
        ensures
            r.data == (Server::Question {
                question: data.question,
                is_first_word: data.is_first_word,
                is_last_word: data.is_last_word,
            }),
    {
        Self::new(Server::from(data))
    }
}

impl Packet<Client> {
    /// Wraps a client message, given as one of its variants, under a fresh identifier.
    pub fn client<C>(data: C) -> (r: Self) where Client: From<C>
        ensures
            call_ensures(Client::from, (data,), r.data),
    {
        Self::new(Client::from(data))
    }
}

/// The `Instruction` variant of [`Client`] as a type of its own.
#[derive(Debug, Clone, PartialEq, Eq)]
pub struct Instruction {
    pub instruction: String,
}

/// The `Answer` variant of [`Client`] as a type of its own.
#[derive(Debug, Clone, PartialEq, Eq)]
pub struct Answer {
    pub answer: String,
}

/// The `Execute` variant of [`Client`] as a type of its own.
#[derive(Debug, Clone, Copy, PartialEq, Eq)]
pub struct Execute;

/// The `Question` variant of [`Server`] as a type of its own.
#[derive(Debug, Clone, PartialEq, Eq)]
pub struct Question {
    pub question: String,
    pub is_first_word: bool,
    pub is_last_word: bool,
}

impl From<Instruction> for Client {
    fn from(v: Instruction) -> (r: Client) {
        Client::Instruction { instruction: v.instruction }
    }
}

impl vstd::std_specs::convert::FromSpecImpl<Instruction> for Client {
    open spec fn obeys_from_spec() -> bool {
        true
    }

    open spec fn from_spec(v: Instruction) -> Client {
        Client::Instruction { instruction: v.instruction }
    }
}

impl From<Answer> for Client {
    fn from(v: Answer) -> (r: Client) {
        Client::Answer { answer: v.answer }
    }
}

impl vstd::std_specs::convert::FromSpecImpl<Answer> for Client {
    open spec fn obeys_from_spec() -> bool {
        true
    }

    open spec fn from_spec(v: Answer) -> Client {
        Client::Answer { answer: v.answer }
    }
}

impl From<Execute> for Client {
    fn from(v: Execute) -> (r: Client) {
        Client::Execute
    }
}

impl vstd::std_specs::convert::FromSpecImpl<Execute> for Client {
    open spec fn obeys_from_spec() -> bool {
        true
    }

    open spec fn from_spec(v: Execute) -> Client {
        Client::Execute
    }
}

impl From<Question> for Server {
    fn from(v: Question) -> (r: Server) {
        Server::Question {
            question: v.question,
            is_first_word: v.is_first_word,
            is_last_word: v.is_last_word,
        }
    }
}

impl vstd::std_specs::convert::FromSpecImpl<Question> for Server {
    open spec fn obeys_from_spec() -> bool {
        true
    }

    open spec fn from_spec(v: Question) -> Server {
        Server::Question {
            question: v.question,
            is_first_word: v.is_first_word,
            is_last_word: v.is_last_word,
        }
    }
}

impl From<Instruction> for String {
    fn from(v: Instruction) -> (r: String) {
        v.instruction
    }
}

impl vstd::std_specs::convert::FromSpecImpl<Instruction> for String {
    open spec fn obeys_from_spec() -> bool {
        true
    }

    open spec fn from_spec(v: Instruction) -> String {
        v.instruction
    }
}

impl TryFrom<Client> for Instruction {
    type Error = Client;

    fn try_from(v: Client) -> (r: Result<Instruction, Client>) {
        match v {
            Client::Instruction { instruction } => Ok(Instruction { instruction }),
            other => Err(other),
        }
    }
}

impl vstd::std_specs::convert::TryFromSpecImpl<Client> for Instruction {
    open spec fn obeys_try_from_spec() -> bool {
        true
    }

    open spec fn try_from_spec(v: Client) -> Result<Instruction, Client> {
        match v {
            Client::Instruction { instruction } => Ok(Instruction { instruction }),
            other => Err(other),
        }
    }
}

impl TryFrom<Client> for Answer {
    type Error = Client;

    fn try_from(v: Client) -> (r: Result<Answer, Client>) {
        match v {
            Client::Answer { answer } => Ok(Answer { answer }),
            other => Err(other),
        }
    }
}

impl vstd::std_specs::convert::TryFromSpecImpl<Client> for Answer {
    open spec fn obeys_try_from_spec() -> bool {
        true
    }

    open spec fn try_from_spec(v: Client) -> Result<Answer, Client> {
        match v {
            Client::Answer { answer } => Ok(Answer { answer }),
            other => Err(other),
        }
    }
}

impl TryFrom<Client> for Execute {
    type Error = Client;

    fn try_from(v: Client) -> (r: Result<Execute, Client>) {
        match v {
            Client::Execute => Ok(Execute),
            other => Err(other),
        }
    }
}

impl vstd::std_specs::convert::TryFromSpecImpl<Client> for Execute {
    open spec fn obeys_try_from_spec() -> bool {
        true
    }

    open spec fn try_from_spec(v: Client) -> Result<Execute, Client> {
        match v {
            Client::Execute => Ok(Execute),
            other => Err(other),
        }
    }
}

impl From<Server> for Question {
    fn from(v: Server) -> (r: Question) {
        match v {
            Server::Question { question, is_first_word, is_last_word } => Question {
                question,
                is_first_word,
                is_last_word,
            },
        }
    }
}

impl vstd::std_specs::convert::FromSpecImpl<Server> for Question {
    open spec fn obeys_from_spec() -> bool {
        true
    }

    open spec fn from_spec(v: Server) -> Question {
        match v {
            Server::Question { question, is_first_word, is_last_word } => Question {
                question,
                is_first_word,
                is_last_word,
            },
        }
    }
}

} // verus!
