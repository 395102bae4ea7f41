//! The terminal client: its input buffer, and the state machine that turns key presses into
//! client packets and server packets into lines on the screen. Drawing and reading the terminal
//! happen outside.

use vstd::prelude::*;

use crate::chars::trim_spec;
use crate::protocol::{Client, ClientPacket, Server, ServerMsg};
use crate::stream::{fragment_text, fragments_spec, is_first, is_last, is_series, join_series, lemma_join_fragments};

verus! {

/// Relies on `String::push`: appends `c`.
#[verifier::external_body]
fn push_char(s: &mut String, c: char)
    ensures
        final(s)@ == old(s)@.push(c),
{
    s.push(c)
}

/// Relies on `String::pop`: removes and returns the last character, if any.
#[verifier::external_body]
fn pop_char(s: &mut String) -> (r: Option<char>)
    ensures
        old(s)@.len() == 0 ==> r is None && final(s)@ == old(s)@,
        old(s)@.len() > 0 ==> r == Some(old(s)@.last()) && final(s)@ == old(s)@.drop_last(),
{
    s.pop()
}

/// The command-line options of the terminal client.
#[derive(Debug, Clone)]
pub struct Args {
    /// Connect to a remote engine over a WebSocket instead of running one in process.
    pub remote: bool,
    pub ip: String,
    pub port: u16,
}

/// The lines typed and received so far; the last one is being edited.
pub struct Ui {
    input: Vec<String>,
}

impl View for Ui {
    type V = Seq<Seq<char>>;

    closed spec fn view(&self) -> Seq<Seq<char>> {
        self.input@.map_values(|s: String| s@)
    }
}

impl Ui {
    /// There is always a line being edited.
    pub open spec fn wf(&self) -> bool {
        self@.len() > 0
    }

    /// One empty line.
    pub fn new() -> (r: Ui)
        ensures
            r@ == seq![Seq::<char>::empty()],
            r.wf(),
    {
        let mut input: Vec<String> = Vec::new();
        input.push(String::new());
        let r = Ui { input };
        proof {
            assert(r@ =~= seq![Seq::<char>::empty()]);
        }
        r
    }

    /// Back to one empty line.
    pub fn reset(&mut self)
        ensures
            final(self)@ == seq![Seq::<char>::empty()],
            final(self).wf(),
    {
        self.input.clear();
        self.input.push(String::new());
        proof {
            assert(self@ =~= seq![Seq::<char>::empty()]);
        }
    }

    /// The line being edited.
    pub fn current_line(&mut self) -> (r: &mut String)
        requires
            old(self).wf(),
        ensures
            r@ == old(self)@.last(),
            final(self)@ == old(self)@.update(old(self)@.len() - 1, final(r)@),
            final(self).wf(),
    {
        let n = self.input.len();
        &mut self.input[n - 1]
    }

    /// The line being edited.
    pub fn last_line(&self) -> (r: &str)
        requires
            self.wf(),
        ensures
            r@ == self@.last(),
    {
        self.input[self.input.len() - 1].as_str()
    }

    /// Appends `text` to the line being edited.
    pub fn type_str(&mut self, text: &str)
        requires
            old(self).wf(),
        ensures
            final(self)@ == old(self)@.update(old(self)@.len() - 1, old(self)@.last() + text@),
            final(self).wf(),
    {
        let n = self.input.len();
        let mut line = self.input[n - 1].clone();
        line.append(text);
        self.input.set(n - 1, line);
        proof {
            assert(self@ =~= old(self)@.update(old(self)@.len() - 1, old(self)@.last() + text@));
        }
    }

    /// Appends `c` to the line being edited.
    pub fn type_char(&mut self, c: char)
        requires
            old(self).wf(),
        ensures
            final(self)@ == old(self)@.update(old(self)@.len() - 1, old(self)@.last().push(c)),
            final(self).wf(),
    {
        let n = self.input.len();
        let mut line = self.input[n - 1].clone();
        push_char(&mut line, c);
        self.input.set(n - 1, line);
        proof {
            assert(self@ =~= old(self)@.update(old(self)@.len() - 1, old(self)@.last().push(c)));
        }
    }

    /// Erases the last character of the line being edited, if any.
    pub fn erase_char(&mut self)
        requires
            old(self).wf(),
        ensures
            final(self)@ == old(self)@.update(
                old(self)@.len() - 1,
                if old(self)@.last().len() > 0 {
                    old(self)@.last().drop_last()
                } else {
                    old(self)@.last()
                },
            ),
            final(self).wf(),
    {
        let n = self.input.len();
        let mut line = self.input[n - 1].clone();
        pop_char(&mut line);
        self.input.set(n - 1, line);
        proof {
            assert(self@ =~= old(self)@.update(
                old(self)@.len() - 1,
                if old(self)@.last().len() > 0 {
                    old(self)@.last().drop_last()
                } else {
                    old(self)@.last()
                },
            ));
        }
    }

    /// Starts a new, empty line.
    pub fn new_line(&mut self)
        ensures
            final(self)@ == old(self)@.push(Seq::<char>::empty()),
            final(self).wf(),
    {
        self.input.push(String::new());
        proof {
            assert(self@ =~= old(self)@.push(Seq::<char>::empty()));
        }
    }

    /// The number of lines.
    pub fn line_count(&self) -> (r: usize)
        ensures
            r == self@.len(),
    {
        self.input.len()
    }

    /// The line at `i`.
    pub fn line(&self, i: usize) -> (r: &str)
        requires
            i < self@.len(),
        ensures
            r@ == self@[i as int],
    {
        self.input[i].as_str()
    }
}

/// A line of text drawn at a place on the screen.
#[derive(Debug, Clone)]
pub struct Label {
    text: String,
}

impl View for Label {
    type V = Seq<char>;

    closed spec fn view(&self) -> Seq<char> {
        self.text@
    }
}

impl Label {
    /// A label with no text.
    pub fn new() -> (r: Label)
        ensures
            r@ == Seq::<char>::empty(),
    {
        Label { text: String::new() }
    }

    /// The label with its text set to `text`.
    pub fn text(self, text: &str) -> (r: Label)
        ensures
            r@ == text@,
    {
        Label { text: text.to_owned() }
    }

    /// The text of the label.
    pub fn content(&self) -> (r: &str)
        ensures
            r@ == self@,
    {
        self.text.as_str()
    }
}

/// A key press, as far as the client reads it.
#[derive(Debug, Clone, Copy, PartialEq, Eq, Structural)]
pub enum Key {
    Esc,
    Backspace,
    Enter,
    Char(char),
    Other,
}

/// What the client does after a key press.
#[derive(Debug)]
pub enum KeyOutcome {
    /// Leave the client.
    Quit,
    /// Send the packet to the engine.
    Send(ClientPacket),
    /// Nothing beyond what the screen shows.
    Stay,
}

/// The state of the terminal client: the screen, the instruction once it was sent, and whether
/// it waits for the next question (keys other than `Esc` are ignored meanwhile).
pub struct App {
    ui: Ui,
    instruction: Option<String>,
    waiting_for_question: bool,
}

/// The mathematical value of an [`App`].
pub struct AppView {
    pub lines: Seq<Seq<char>>,
    pub instruction: Option<Seq<char>>,
    pub waiting_for_question: bool,
}

impl View for App {
    type V = AppView;

    closed spec fn view(&self) -> AppView {
        AppView {
            lines: self.ui@,
            instruction: match self.instruction {
                Some(i) => Some(i@),
                None => None,
            },
            waiting_for_question: self.waiting_for_question,
        }
    }
}

impl App {
    pub open spec fn wf(&self) -> bool {
        self@.lines.len() > 0
    }

    /// A client that has sent nothing yet.
    pub fn new() -> (r: App)
        ensures
            r@.lines == seq![Seq::<char>::empty()],
            r@.instruction is None,
            !r@.waiting_for_question,
            r.wf(),
    {
        App { ui: Ui::new(), instruction: None, waiting_for_question: false }
    }

    /// The screen.
    pub fn ui(&self) -> (r: &Ui)
        ensures
            r@ == self@.lines,
    {
        &self.ui
    }

    /// Takes in a key press. `Esc` quits. While a question is awaited nothing else happens. A
    /// character is typed, `Backspace` erases one, and `Enter` on a line that is not blank sends
    /// it: as the instruction the first time, as an answer afterwards.
    pub fn on_key(&mut self, key: Key) -> (r: KeyOutcome)
        requires
            old(self).wf(),
        ensures
            final(self).wf(),
            key == Key::Esc ==> r is Quit && final(self)@ == old(self)@,
            key != Key::Esc && old(self)@.waiting_for_question ==> r is Stay && final(self)@ == old(
                self,
            )@,
            key != Key::Esc && !old(self)@.waiting_for_question ==> {
                let line = old(self)@.lines.last();
                let last = (old(self)@.lines.len() - 1) as int;
                match key {
                    Key::Char(c) => r is Stay && final(self)@ == (AppView {
                        lines: old(self)@.lines.update(last, line.push(c)),
                        ..old(self)@
                    }),
                    Key::Backspace => r is Stay && final(self)@ == (AppView {
                        lines: old(self)@.lines.update(
                            last,
                            if line.len() > 0 {
                                line.drop_last()
                            } else {
                                line
                            },
                        ),
                        ..old(self)@
                    }),
                    Key::Enter => if trim_spec(line).len() == 0 {
                        r is Stay && final(self)@ == old(self)@
                    } else {
                        (r matches KeyOutcome::Send(p) && p.data@ == (if old(self)@.instruction is None {
                            crate::protocol::ClientMsg::Instruction(line)
                        } else {
                            crate::protocol::ClientMsg::Answer(line)
                        })) && final(self)@ == (AppView {
                            lines: old(self)@.lines.push(Seq::<char>::empty()),
                            instruction: if old(self)@.instruction is None {
                                Some(line)
                            } else {
                                old(self)@.instruction
                            },
                            waiting_for_question: true,
                        })
                    },
                    _ => r is Stay && final(self)@ == old(self)@,
                }
            },
    {
        if key == Key::Esc {
            return KeyOutcome::Quit;
        }
        if self.waiting_for_question {
            return KeyOutcome::Stay;
        }
        match key {
            Key::Char(c) => {
                self.ui.type_char(c);
                KeyOutcome::Stay
            },
            Key::Backspace => {
                self.ui.erase_char();
                KeyOutcome::Stay
            },
            Key::Enter => {
                let line = self.ui.last_line().to_owned();
                let blank = crate::chars::trim(line.as_str());
                if blank.as_str().unicode_len() == 0 {
                    return KeyOutcome::Stay;
                }
                let data = match &self.instruction {
                    None => {
                        self.instruction = Some(line.clone());
                        Client::Instruction { instruction: line }
                    },
                    Some(_) => Client::Answer { answer: line },
                };
                self.waiting_for_question = true;
                self.ui.new_line();
                KeyOutcome::Send(ClientPacket::new(data))
            },
            _ => KeyOutcome::Stay,
        }
    }

    /// Takes in a fragment of a question. The first fragment starts a new line, marked `> `;
    /// later fragments extend it. The last one ends the question: the client stops waiting and
    /// opens a line for the reply.
    pub fn on_packet(&mut self, packet: Server)
        requires
            old(self).wf(),
        ensures
            final(self).wf(),
            final(self)@ == shown_after(old(self)@, packet@),
    {
        match packet {
            Server::Question { question, is_first_word, is_last_word } => {
                let ghost before = self.ui@;
                if is_first_word {
                    self.ui.new_line();
                    self.ui.type_str("> ");
                    self.ui.type_str(question.as_str());
                    proof {
                        assert(Seq::<char>::empty() + "> "@ + question@ =~= "> "@ + question@);
                        assert(self.ui@ =~= before.push("> "@ + question@));
                    }
                } else {
                    self.ui.type_str(question.as_str());
                }
                if is_last_word {
                    self.waiting_for_question = false;
                    self.ui.new_line();
                }
            },
        }
    }
}

/// The client after it takes in the fragment `m`. The first fragment of a question starts a new
/// line, marked `> `; later fragments extend it. The last one ends the question: the client stops
/// waiting and opens a line for the reply.
pub open spec fn shown_after(v: AppView, m: ServerMsg) -> AppView {
    let shown = if is_first(m) {
        v.lines.push("> "@ + fragment_text(m))
    } else {
        v.lines.update(v.lines.len() - 1, v.lines.last() + fragment_text(m))
    };
    AppView {
        lines: if is_last(m) {
            shown.push(Seq::<char>::empty())
        } else {
            shown
        },
        instruction: v.instruction,
        waiting_for_question: v.waiting_for_question && !is_last(m),
    }
}

/// The client after it takes in the fragments `ms` in order.
pub open spec fn shown_after_all(v: AppView, ms: Seq<ServerMsg>) -> AppView
    decreases ms.len(),
{
    if ms.len() == 0 {
        v
    } else {
        shown_after_all(shown_after(v, ms[0]), ms.drop_first())
    }
}

proof fn lemma_join_step(ms: Seq<ServerMsg>)
    requires
        ms.len() >= 1,
    ensures
        join_series(ms) == fragment_text(ms[0]) + join_series(ms.drop_first()),
{
    let ts = ms.map_values(|m: ServerMsg| fragment_text(m));
    assert(ts.drop_first() =~= ms.drop_first().map_values(|m: ServerMsg| fragment_text(m)));
}

/// The rest of a series after its first fragment extends the line being edited.
proof fn lemma_rest_of_series(v: AppView, ms: Seq<ServerMsg>)
    requires
        v.lines.len() > 0,
        ms.len() >= 1,
        forall|k: int| 0 <= k < ms.len() ==> !is_first(#[trigger] ms[k]),
        forall|k: int| 0 <= k < ms.len() ==> (is_last(#[trigger] ms[k]) <==> k == ms.len() - 1),
    ensures
        shown_after_all(v, ms) == (AppView {
            lines: v.lines.update(v.lines.len() - 1, v.lines.last() + join_series(ms)).push(
                Seq::<char>::empty(),
            ),
            instruction: v.instruction,
            waiting_for_question: false,
        }),
    decreases ms.len(),
{
    lemma_join_step(ms);
    assert(!is_first(ms[0]));
    let v1 = shown_after(v, ms[0]);
    if ms.len() == 1 {
        assert(is_last(ms[0]));
        assert(ms.drop_first().len() == 0);
        assert(join_series(ms.drop_first()) == Seq::<char>::empty());
        assert(v.lines.last() + fragment_text(ms[0]) =~= v.lines.last() + join_series(ms));
    } else {
        assert(!is_last(ms[0]));
        let rest = ms.drop_first();
        assert forall|k: int| 0 <= k < rest.len() implies !is_first(#[trigger] rest[k]) by {
            assert(rest[k] == ms[k + 1]);
        }
        assert forall|k: int| 0 <= k < rest.len() implies (is_last(#[trigger] rest[k]) <==> k
            == rest.len() - 1) by {
            assert(rest[k] == ms[k + 1]);
        }
        lemma_rest_of_series(v1, rest);
        assert(v1.lines.last() == v.lines.last() + fragment_text(ms[0]));
        assert(v1.lines.len() == v.lines.len());
        assert((v.lines.last() + fragment_text(ms[0])) + join_series(rest) =~= v.lines.last()
            + join_series(ms));
        assert(v1.lines.update(v1.lines.len() - 1, v1.lines.last() + join_series(rest)) =~= v.lines.update(
            v.lines.len() - 1,
            v.lines.last() + join_series(ms),
        ));
    }
}

/// A client that takes in the whole series of fragments of a question shows the question on one
/// new line, marked `> `, stops waiting only at the end, and opens a line for the reply.
pub proof fn lemma_series_shown_on_one_line(v: AppView, q: Seq<char>)
    requires
        v.lines.len() > 0,
    ensures
        shown_after_all(v, fragments_spec(q)) == (AppView {
            lines: v.lines.push("> "@ + q).push(Seq::<char>::empty()),
            instruction: v.instruction,
            waiting_for_question: false,
        }),
{
    let ms = fragments_spec(q);
    lemma_join_fragments(q);
    lemma_join_step(ms);
    assert(is_first(ms[0]));
    let v1 = shown_after(v, ms[0]);
    if ms.len() == 1 {
        assert(is_last(ms[0]));
        assert(join_series(ms.drop_first()) == Seq::<char>::empty());
        assert(fragment_text(ms[0]) =~= q);
        assert(shown_after_all(v1, ms.drop_first()) == v1);
    } else {
        let rest = ms.drop_first();
        assert(!is_last(ms[0]));
        assert forall|k: int| 0 <= k < rest.len() implies !is_first(#[trigger] rest[k]) by {
            assert(rest[k] == ms[k + 1]);
        }
        assert forall|k: int| 0 <= k < rest.len() implies (is_last(#[trigger] rest[k]) <==> k
            == rest.len() - 1) by {
            assert(rest[k] == ms[k + 1]);
        }
        lemma_rest_of_series(v1, rest);
        assert(v1.lines.last() == "> "@ + fragment_text(ms[0]));
        assert(("> "@ + fragment_text(ms[0])) + join_series(rest) =~= "> "@ + q);
        assert(v1.lines.update(v1.lines.len() - 1, v1.lines.last() + join_series(rest)) =~= v.lines.push(
            "> "@ + q,
        ));
    }
}

} // verus!
