//! The question-and-answer session: its state, the prompts it sends to the text-generation
//! service, and the per-connection state machine that turns client packets into requests to that
//! service and its replies into server packets.

use vstd::prelude::*;

use crate::chars::{extend_str, string_of, trim, trim_spec};
use crate::chat::{ChatModel, ChatRequest, ChatRequestView, MsgView, Role};
use crate::protocol::{Client, ClientMsg, ClientPacket, Server, ServerMsg, ServerPacket};
use crate::stream::{fragments, fragments_spec, is_series, join_series, lemma_join_fragments};

verus! {

/// The system prompt of a request for the next question.
pub const QUESTION_PROMPT: &'static str =
    "list relevant questions that are important for completing the task. One per line. Only include the raw question text. Do not include any other text. Also ask questions to correct any mistakes or misunderstandings. The user might have";

/// The system prompt of a request for the plan.
pub const PLAN_PROMPT: &'static str =
    "Plan how to complete the instruction. List one step per line and include in-depth explanation on how you think you can best complete the task.";

/// What the client receives in place of a plan when the service could not produce one.
pub const PLAN_FAILED: &'static str = "Error generating plan. Check logs. (does your API KEY support GPT4?)";

/// The enumeration marker that a generated question may start with: digits and a period.
pub const MARKER_PATTERN: &'static str = "^\\d+\\.?";

/// The leftmost match of a regular expression in a text, as character positions.
pub uninterp spec fn regex_find(pattern: Seq<char>, text: Seq<char>) -> Option<(usize, usize)>;

/// Relies on `regex::Regex::new` and `regex::Regex::find`: compiles `pattern` and returns where
/// its leftmost match in `text` starts and ends, counted in characters; `None` where nothing
/// matches or the pattern does not compile. A match lies within the text.
#[verifier::external_body]
fn find_match(pattern: &str, text: &str) -> (r: Option<(usize, usize)>)
    ensures
        r == regex_find(pattern@, text@),
        r matches Some((a, b)) ==> a <= b <= text@.len(),
{
    match regex::Regex::new(pattern) {
        Ok(re) => re.find(text).map(
            |m| (text[..m.start()].chars().count(), text[..m.end()].chars().count()),
        ),
        Err(_) => None,
    }
}

/// `text` without the match `found`, where that match starts it.
pub open spec fn strip_marker_spec(text: Seq<char>, found: Option<(usize, usize)>) -> Seq<char> {
    match found {
        Some((a, b)) => if a == 0 && b <= text.len() {
            text.subrange(b as int, text.len() as int)
        } else {
            text
        },
        None => text,
    }
}

/// The question that a reply of the service stands for: the reply trimmed, without a leading
/// enumeration marker, trimmed again.
pub open spec fn question_of(reply: Seq<char>) -> Seq<char> {
    let t = trim_spec(reply);
    trim_spec(strip_marker_spec(t, regex_find(MARKER_PATTERN@, t)))
}

/// Drops the match `found` from the start of `text`, where it starts there.
pub fn strip_marker(text: &str, found: Option<(usize, usize)>) -> (r: String)
    ensures
        r@ == strip_marker_spec(text@, found),
{
    match found {
        Some((a, b)) => {
            if a == 0 && b <= text.unicode_len() {
                let n = text.unicode_len();
                text.substring_char(b, n).to_owned()
            } else {
                text.to_owned()
            }
        },
        None => text.to_owned(),
    }
}

/// Trims `question` and drops a leading enumeration marker from it.
pub fn trim_question(question: &str) -> (r: String)
    ensures
        r@ == strip_marker_spec(trim_spec(question@), regex_find(MARKER_PATTERN@, trim_spec(question@))),
{
    let t = trim(question);
    let found = find_match(MARKER_PATTERN, t.as_str());
    strip_marker(t.as_str(), found)
}

/// The question that the reply `reply` of the service stands for.
pub fn question_text(reply: &str) -> (r: String)
    ensures
        r@ == question_of(reply@),
{
    let q = trim_question(reply);
    trim(q.as_str())
}

/// The command-line options of the engine: the address it listens on.
#[derive(Debug, Clone)]
pub struct Args {
    pub ip: String,
    pub port: u16,
}

impl Default for Args {
    fn default() -> (r: Args)
        ensures
            r.ip@ == "127.0.0.1"@,
            r.port == 8080,
    {
        Args { ip: "127.0.0.1".to_owned(), port: 8080 }
    }
}

/// The mathematical value of a [`QAndA`].
pub struct QAndAView {
    pub instruction: Seq<char>,
    pub questions: Seq<Seq<char>>,
    pub answers: Seq<Seq<char>>,
}

impl QAndAView {
    /// At most one question is without an answer, and no answer is without a question.
    pub open spec fn wf(self) -> bool {
        self.answers.len() <= self.questions.len() <= self.answers.len() + 1
    }

    /// A question is outstanding.
    pub open spec fn awaiting_answer(self) -> bool {
        self.questions.len() == self.answers.len() + 1
    }

    /// Every question has its answer: the next question may be generated.
    pub open spec fn awaiting_question(self) -> bool {
        self.questions.len() == self.answers.len()
    }
}

pub open spec fn fresh_session(instruction: Seq<char>) -> QAndAView {
    QAndAView { instruction, questions: Seq::empty(), answers: Seq::empty() }
}

/// The text of one question with its answer in a prompt.
pub open spec fn exchange_text(q: Seq<char>, a: Seq<char>) -> Seq<char> {
    "Q: "@ + q + "\nA: "@ + a + "\n\n"@
}

/// The text of the first `k` questions with their answers.
pub open spec fn history_text(qs: Seq<Seq<char>>, ans: Seq<Seq<char>>, k: nat) -> Seq<char>
    decreases k,
{
    if k == 0 {
        Seq::empty()
    } else {
        history_text(qs, ans, (k - 1) as nat) + exchange_text(qs[k - 1], ans[k - 1])
    }
}

/// The instruction followed by every answered question with its answer.
pub open spec fn context_text(s: QAndAView) -> Seq<char> {
    let k = if s.questions.len() < s.answers.len() {
        s.questions.len()
    } else {
        s.answers.len()
    };
    "Instruction: "@ + s.instruction + "\n\n"@ + history_text(s.questions, s.answers, k)
}

/// The request for the next question.
pub open spec fn question_request_spec(s: QAndAView) -> ChatRequestView {
    ChatRequestView {
        model: ChatModel::Gpt4,
        messages: seq![
            MsgView { role: Role::System, content: QUESTION_PROMPT@ },
            MsgView { role: Role::User, content: context_text(s) + "Q: "@ },
        ],
        n: 1,
        stop: seq!["\n"@],
    }
}

/// The request for the plan.
pub open spec fn plan_request_spec(s: QAndAView) -> ChatRequestView {
    ChatRequestView {
        model: ChatModel::Gpt4,
        messages: seq![
            MsgView { role: Role::System, content: PLAN_PROMPT@ },
            MsgView { role: Role::User, content: context_text(s) + "---\n\nIntricate Plan:\n"@ },
        ],
        n: 1,
        stop: Seq::empty(),
    }
}

/// The state of one question-and-answer session: the instruction, the questions asked so far and
/// the answers given, `answers[i]` answering `questions[i]`.
pub struct QAndA {
    instruction: String,
    questions: Vec<String>,
    answers: Vec<String>,
}

impl View for QAndA {
    type V = QAndAView;

    closed spec fn view(&self) -> QAndAView {
        QAndAView {
            instruction: self.instruction@,
            questions: self.questions@.map_values(|s: String| s@),
            answers: self.answers@.map_values(|s: String| s@),
        }
    }
}

impl QAndA {
    /// A session on `instruction`, with no question yet.
    pub fn new(instruction: String) -> (r: QAndA)
        ensures
            r@ == fresh_session(instruction@),
    {
        let r = QAndA { instruction, questions: Vec::new(), answers: Vec::new() };
        proof {
            assert(r@.questions =~= Seq::<Seq<char>>::empty());
            assert(r@.answers =~= Seq::<Seq<char>>::empty());
        }
        r
    }

    /// The instruction of the session.
    pub fn instruction(&self) -> (r: &str)
        ensures
            r@ == self@.instruction,
    {
        self.instruction.as_str()
    }

    /// The number of questions asked so far.
    pub fn question_count(&self) -> (r: usize)
        ensures
            r == self@.questions.len(),
    {
        self.questions.len()
    }

    /// The number of answers given so far.
    pub fn answer_count(&self) -> (r: usize)
        ensures
            r == self@.answers.len(),
    {
        self.answers.len()
    }

    /// Records a question; every earlier question must have its answer.
    pub fn add_question(&mut self, question: String)
        requires
            old(self)@.wf(),
            old(self)@.awaiting_question(),
        ensures
            final(self)@ == (QAndAView {
                questions: old(self)@.questions.push(question@),
                ..old(self)@
            }),
    {
        self.questions.push(question);
        proof {
            assert(self@.questions =~= old(self)@.questions.push(question@));
        }
    }

    /// Records the answer to the outstanding question.
    pub fn answer(&mut self, answer: String)
        requires
            old(self)@.wf(),
            old(self)@.awaiting_answer(),
        ensures
            final(self)@ == (QAndAView { answers: old(self)@.answers.push(answer@), ..old(self)@ }),
    {
        self.answers.push(answer);
        proof {
            assert(self@.answers =~= old(self)@.answers.push(answer@));
        }
    }

    /// The instruction and every answered question with its answer, as prompt text.
    fn context(&self) -> (r: Vec<char>)
        ensures
            r@ == context_text(self@),
    {
        let mut out: Vec<char> = Vec::new();
        extend_str(&mut out, "Instruction: ");
        extend_str(&mut out, self.instruction.as_str());
        extend_str(&mut out, "\n\n");
        let n: usize = if self.questions.len() < self.answers.len() {
            self.questions.len()
        } else {
            self.answers.len()
        };
        let ghost head = out@;
        let mut k: usize = 0;
        while k < n
            invariant
                k <= n,
                n <= self.questions@.len(),
                n <= self.answers@.len(),
                head == "Instruction: "@ + self@.instruction + "\n\n"@,
                out@ == head + history_text(self@.questions, self@.answers, k as nat),
            decreases n - k,
        {
            let ghost before = out@;
            extend_str(&mut out, "Q: ");
            extend_str(&mut out, self.questions[k].as_str());
            extend_str(&mut out, "\nA: ");
            extend_str(&mut out, self.answers[k].as_str());
            extend_str(&mut out, "\n\n");
            proof {
                assert(self@.questions[k as int] == self.questions@[k as int]@);
                assert(self@.answers[k as int] == self.answers@[k as int]@);
                assert(out@ =~= before + exchange_text(
                    self@.questions[k as int],
                    self@.answers[k as int],
                ));
                assert(history_text(self@.questions, self@.answers, (k + 1) as nat) == history_text(
                    self@.questions,
                    self@.answers,
                    k as nat,
                ) + exchange_text(self@.questions[k as int], self@.answers[k as int]));
            }
            k = k + 1;
        }
        out
    }

    /// The request for the next question: the instruction and the history so far, stopping at
    /// the end of the first line, so that exactly one question comes back.
    pub fn chat_request(&self) -> (r: ChatRequest)
        ensures
            r@ == question_request_spec(self@),
    {
        let mut text = self.context();
        extend_str(&mut text, "Q: ");
        let user = string_of(&text);
        let r = ChatRequest::new().stop_at("\n").sys_msg(QUESTION_PROMPT).user_msg(user.as_str());
        proof {
            assert(r@.messages =~= question_request_spec(self@).messages);
            assert(r@.stop =~= question_request_spec(self@).stop);
        }
        r
    }

    /// The request for the plan: the instruction and the history so far.
    pub fn plan_request(&self) -> (r: ChatRequest)
        ensures
            r@ == plan_request_spec(self@),
    {
        let mut text = self.context();
        extend_str(&mut text, "---\n\nIntricate Plan:\n");
        let user = string_of(&text);
        let r = ChatRequest::new().sys_msg(PLAN_PROMPT).user_msg(user.as_str());
        proof {
            assert(r@.messages =~= plan_request_spec(self@).messages);
            assert(r@.stop =~= plan_request_spec(self@).stop);
        }
        r
    }

    /// Records the question that the service's reply `reply` stands for, and returns it. Every
    /// earlier question must have its answer.
    pub fn gen_question(&mut self, reply: &str) -> (r: String)
        requires
            old(self)@.wf(),
            old(self)@.awaiting_question(),
        ensures
            r@ == question_of(reply@),
            final(self)@ == (QAndAView {
                questions: old(self)@.questions.push(question_of(reply@)),
                ..old(self)@
            }),
            final(self)@.wf(),
            final(self)@.awaiting_answer(),
    {
        let q = question_text(reply);
        self.add_question(q.clone());
        q
    }

    /// The plan given the service's outcome: its text, or a fixed diagnostic where it failed.
    pub fn plan(&self, outcome: Option<String>) -> (r: String)
        ensures
            outcome matches Some(p) ==> r == p,
            outcome is None ==> r@ == PLAN_FAILED@,
    {
        match outcome {
            Some(p) => p,
            None => PLAN_FAILED.to_owned(),
        }
    }
}

/// Why a session refuses an event; each ends the connection.
#[derive(Debug, Clone, Copy, PartialEq, Eq, Structural)]
pub enum SessionError {
    /// An answer came while no question was outstanding.
    NoActiveQuestion,
    /// `Execute` came before any instruction.
    NoActiveInstruction,
    /// A second instruction came on the connection.
    InstructionAlreadyGiven,
    /// A question came back from the service while none was requested.
    NoQuestionRequested,
}

/// What the session asks of the text-generation service after a client packet.
#[derive(Debug)]
pub enum Action {
    /// Generate the next question; its reply goes to [`Process::question_reply`].
    AskQuestion(ChatRequest),
    /// Generate the plan; its outcome goes to [`Process::plan_reply`].
    AskPlan(ChatRequest),
}

/// The session after a client message, or why the message is refused.
pub open spec fn packet_step(s: Option<QAndAView>, m: ClientMsg) -> Result<
    Option<QAndAView>,
    SessionError,
> {
    match m {
        ClientMsg::Instruction(i) => if s is Some {
            Err(SessionError::InstructionAlreadyGiven)
        } else {
            Ok(Some(fresh_session(i)))
        },
        ClientMsg::Answer(a) => match s {
            Some(q) => if q.awaiting_answer() {
                Ok(Some(QAndAView { answers: q.answers.push(a), ..q }))
            } else {
                Err(SessionError::NoActiveQuestion)
            },
            None => Err(SessionError::NoActiveQuestion),
        },
        ClientMsg::Execute => if s is None {
            Err(SessionError::NoActiveInstruction)
        } else {
            Ok(s)
        },
    }
}

/// The session after the service replied `reply` to a request for a question.
pub open spec fn question_step(s: Option<QAndAView>, reply: Seq<char>) -> Result<
    Option<QAndAView>,
    SessionError,
> {
    match s {
        Some(q) => if q.awaiting_question() {
            Ok(Some(QAndAView { questions: q.questions.push(question_of(reply)), ..q }))
        } else {
            Err(SessionError::NoQuestionRequested)
        },
        None => Err(SessionError::NoQuestionRequested),
    }
}

/// The per-connection state machine. It starts with no instruction; an instruction starts the
/// session, which then lives as long as the connection.
pub struct Process {
    q_and_a: Option<QAndA>,
}

impl View for Process {
    type V = Option<QAndAView>;

    closed spec fn view(&self) -> Option<QAndAView> {
        match self.q_and_a {
            Some(q) => Some(q@),
            None => None,
        }
    }
}

impl Process {
    /// Every state the machine reaches is well formed.
    pub open spec fn wf(&self) -> bool {
        self@ matches Some(q) ==> q.wf()
    }

    /// A connection on which nothing has been received.
    pub fn new() -> (r: Process)
        ensures
            r@ is None,
            r.wf(),
    {
        Process { q_and_a: None }
    }

    /// The session, once an instruction was received.
    pub fn session(&self) -> (r: Option<&QAndA>)
        ensures
            r matches Some(q) ==> self@ == Some(q@),
            r is None <==> self@ is None,
    {
        match &self.q_and_a {
            Some(q) => Some(q),
            None => None,
        }
    }

    /// Takes in a client packet: records what it says and returns the request to make of the
    /// service, or refuses it when it comes out of order. A refused packet changes nothing.
    pub fn process_packet(&mut self, packet: ClientPacket) -> (r: Result<Action, SessionError>)
        requires
            old(self).wf(),
        ensures
            final(self).wf(),
            match packet_step(old(self)@, packet.data@) {
                Ok(s) => final(self)@ == s && match r {
                    Ok(Action::AskQuestion(req)) => !(packet.data is Execute) && (s matches Some(
                        q,
                    ) && req@ == question_request_spec(q)),
                    Ok(Action::AskPlan(req)) => packet.data is Execute && (s matches Some(q)
                        && req@ == plan_request_spec(q)),
                    Err(_) => false,
                },
                Err(e) => r == Err::<Action, SessionError>(e) && final(self)@ == old(self)@,
            },
    {
        match packet.data {
            Client::Instruction { instruction } => {
                if self.q_and_a.is_some() {
                    return Err(SessionError::InstructionAlreadyGiven);
                }
                let q_and_a = QAndA::new(instruction);
                let request = q_and_a.chat_request();
                self.q_and_a = Some(q_and_a);
                Ok(Action::AskQuestion(request))
            },
            Client::Answer { answer } => {
                match &mut self.q_and_a {
                    Some(q_and_a) => {
                        if q_and_a.answers.len() >= q_and_a.questions.len() {
                            return Err(SessionError::NoActiveQuestion);
                        }
                        q_and_a.answer(answer);
                        let request = q_and_a.chat_request();
                        Ok(Action::AskQuestion(request))
                    },
                    None => Err(SessionError::NoActiveQuestion),
                }
            },
            Client::Execute => {
                match &self.q_and_a {
                    Some(q_and_a) => Ok(Action::AskPlan(q_and_a.plan_request())),
                    None => Err(SessionError::NoActiveInstruction),
                }
            },
        }
    }

    /// Takes in the service's reply to a request for a question: records the question and
    /// returns the packets that carry it, one per word.
    pub fn question_reply(&mut self, reply: &str) -> (r: Result<Vec<ServerPacket>, SessionError>)
        requires
            old(self).wf(),
        ensures
            final(self).wf(),
            match question_step(old(self)@, reply@) {
                Ok(s) => final(self)@ == s && (r matches Ok(ps) && ps@.map_values(
                    |p: ServerPacket| p.data@,
                ) == fragments_spec(question_of(reply@))),
                Err(e) => r == Err::<Vec<ServerPacket>, SessionError>(e) && final(self)@ == old(
                    self,
                )@,
            },
    {
        match &mut self.q_and_a {
            Some(q_and_a) => {
                if q_and_a.questions.len() != q_and_a.answers.len() {
                    return Err(SessionError::NoQuestionRequested);
                }
                let question = q_and_a.gen_question(reply);
                Ok(fragments(question.as_str()))
            },
            None => Err(SessionError::NoQuestionRequested),
        }
    }

    /// Takes in the outcome of a request for the plan and returns the packet that carries the
    /// plan, or the fixed diagnostic where the service failed. The plan travels as one complete
    /// question.
    pub fn plan_reply(&self, outcome: Option<String>) -> (r: Result<ServerPacket, SessionError>)
        ensures
            self@ is None ==> r == Err::<ServerPacket, SessionError>(
                SessionError::NoActiveInstruction,
            ),
            self@ is Some ==> (r matches Ok(p) && p.data@ == (ServerMsg::Question {
                question: match outcome {
                    Some(t) => t@,
                    None => PLAN_FAILED@,
                },
                is_first_word: true,
                is_last_word: true,
            })),
    {
        match &self.q_and_a {
            Some(q_and_a) => {
                let text = q_and_a.plan(outcome);
                Ok(
                    ServerPacket::new(
                        Server::Question { question: text, is_first_word: true, is_last_word: true },
                    ),
                )
            },
            None => Err(SessionError::NoActiveInstruction),
        }
    }
}

/// One turn of a connection: the client message `m`, then, where it asks for a question, the
/// service's reply `reply`. Gives the session after the turn and the number of questions sent.
pub open spec fn turn(s: Option<QAndAView>, m: ClientMsg, reply: Seq<char>) -> Result<
    (Option<QAndAView>, nat),
    SessionError,
> {
    match packet_step(s, m) {
        Err(e) => Err(e),
        Ok(s2) => if m is Execute {
            Ok((s2, 0))
        } else {
            match question_step(s2, reply) {
                Ok(s3) => Ok((s3, 1)),
                Err(e) => Err(e),
            }
        },
    }
}

/// A connection that receives the messages `ms` in order, the service replying `replies[k]` to
/// the request that `ms[k]` makes. Gives the final session and the number of questions sent, or
/// the error that ends the connection.
pub open spec fn conversation(
    s: Option<QAndAView>,
    ms: Seq<ClientMsg>,
    replies: Seq<Seq<char>>,
) -> Result<(Option<QAndAView>, nat), SessionError>
    decreases ms.len(),
{
    if ms.len() == 0 {
        Ok((s, 0))
    } else {
        match turn(s, ms[0], replies[0]) {
            Err(e) => Err(e),
            Ok((s2, k)) => match conversation(s2, ms.drop_first(), replies.drop_first()) {
                Ok((s3, j)) => Ok((s3, k + j)),
                Err(e) => Err(e),
            },
        }
    }
}

pub open spec fn answer_msgs(answers: Seq<Seq<char>>) -> Seq<ClientMsg> {
    answers.map_values(|a: Seq<char>| ClientMsg::Answer(a))
}

proof fn lemma_answers_then_execute(
    q: QAndAView,
    answers: Seq<Seq<char>>,
    replies: Seq<Seq<char>>,
)
    requires
        q.awaiting_answer(),
    ensures
        conversation(Some(q), answer_msgs(answers) + seq![ClientMsg::Execute], replies) matches Ok(
            (Some(f), k),
        ) && k == answers.len() && f.questions.len() == q.questions.len() + answers.len()
            && f.answers.len() == q.answers.len() + answers.len(),
    decreases answers.len(),
{
    let ms = answer_msgs(answers) + seq![ClientMsg::Execute];
    if answers.len() == 0 {
        assert(ms[0] == ClientMsg::Execute);
        assert(ms.drop_first() =~= Seq::<ClientMsg>::empty());
        assert(conversation(Some(q), ms.drop_first(), replies.drop_first()) == Ok::<
            (Option<QAndAView>, nat),
            SessionError,
        >((Some(q), 0)));
    } else {
        assert(ms[0] == ClientMsg::Answer(answers[0]));
        let q2 = QAndAView {
            questions: q.questions.push(question_of(replies[0])),
            answers: q.answers.push(answers[0]),
            ..q
        };
        assert(turn(Some(q), ms[0], replies[0]) == Ok::<(Option<QAndAView>, nat), SessionError>(
            (Some(q2), 1),
        ));
        assert(ms.drop_first() =~= answer_msgs(answers.drop_first()) + seq![ClientMsg::Execute]);
        lemma_answers_then_execute(q2, answers.drop_first(), replies.drop_first());
    }
}

/// An instruction, any number of answers and then `Execute`: every step is accepted, and the
/// client receives one question after the instruction and one more after each answer.
pub proof fn lemma_question_per_answer(
    instruction: Seq<char>,
    answers: Seq<Seq<char>>,
    replies: Seq<Seq<char>>,
)
    ensures
        conversation(
            None,
            seq![ClientMsg::Instruction(instruction)] + answer_msgs(answers) + seq![ClientMsg::Execute],
            replies,
        ) matches Ok((Some(f), k)) && k == answers.len() + 1 && f.questions.len() == answers.len()
            + 1 && f.answers.len() == answers.len(),
{
    let ms = seq![ClientMsg::Instruction(instruction)] + answer_msgs(answers) + seq![
        ClientMsg::Execute,
    ];
    let q1 = QAndAView {
        instruction,
        questions: seq![question_of(replies[0])],
        answers: Seq::empty(),
    };
    assert(fresh_session(instruction).questions.push(question_of(replies[0])) =~= q1.questions);
    assert(turn(None, ms[0], replies[0]) == Ok::<(Option<QAndAView>, nat), SessionError>(
        (Some(q1), 1),
    ));
    assert(ms.drop_first() =~= answer_msgs(answers) + seq![ClientMsg::Execute]);
    lemma_answers_then_execute(q1, answers, replies.drop_first());
}

/// An answer recorded and the next question generated: the question adds exactly one entry to
/// the questions and leaves the answers as the answer left them.
pub proof fn lemma_answer_then_question(s: QAndAView, answer: Seq<char>, reply: Seq<char>)
    requires
        s.wf(),
        s.awaiting_answer(),
    ensures
        packet_step(Some(s), ClientMsg::Answer(answer)) matches Ok(Some(s1)) && (question_step(
            Some(s1),
            reply,
        ) matches Ok(Some(s2)) && s2.questions == s1.questions.push(question_of(reply))
            && s2.answers == s1.answers && s1.answers == s.answers.push(answer)
            && s1.questions == s.questions && s2.wf() && s2.awaiting_answer()),
{
}

/// An answer before any instruction ends the connection, and no question is sent.
pub proof fn lemma_answer_first_rejected(
    answer: Seq<char>,
    rest: Seq<ClientMsg>,
    replies: Seq<Seq<char>>,
)
    ensures
        conversation(None, seq![ClientMsg::Answer(answer)] + rest, replies) == Err::<
            (Option<QAndAView>, nat),
            SessionError,
        >(SessionError::NoActiveQuestion),
{
    let ms = seq![ClientMsg::Answer(answer)] + rest;
    assert(ms[0] == ClientMsg::Answer(answer));
}

/// The fragments that carry a generated question form one complete series and join back to the
/// very question that generating it without streaming records and returns.
pub proof fn lemma_streamed_question(reply: Seq<char>)
    ensures
        join_series(fragments_spec(question_of(reply))) == question_of(reply),
        is_series(fragments_spec(question_of(reply))),
{
    lemma_join_fragments(question_of(reply));
}

/// Generating a question once every earlier question has its answer records exactly one new
/// question, leaves the answers alone, and streams that question as one complete series that
/// joins back to it.
pub proof fn lemma_streamed_question_recorded(s: QAndAView, reply: Seq<char>)
    requires
        s.wf(),
        s.awaiting_question(),
    ensures
        question_step(Some(s), reply) matches Ok(Some(s2)) && s2.questions.len()
            == s.questions.len() + 1 && s2.questions.last() == join_series(
            fragments_spec(question_of(reply)),
        ) && s2.questions.drop_last() == s.questions && s2.answers == s.answers,
        is_series(fragments_spec(question_of(reply))),
{
    lemma_join_fragments(question_of(reply));
    assert(s.questions.push(question_of(reply)).drop_last() =~= s.questions);
}

} // verus!
