use auton::chat::{ChatModel, ChatRequest, Completions, Model, Msg, Role};
use auton::protocol::{Client, Packet, Server, ServerPacket};
use auton::session::{
    question_text, strip_marker, trim_question, Action, Process, QAndA, SessionError, PLAN_FAILED,
    PLAN_PROMPT, QUESTION_PROMPT,
};
use auton::stream::fragments;

fn join(packets: &[ServerPacket]) -> String {
    let mut s = String::new();
    for p in packets {
        let Server::Question { question, .. } = &p.data;
        s.push_str(question);
    }
    s
}

fn ask(process: &mut Process, data: Client) -> Result<Action, SessionError> {
    process.process_packet(Packet::new(data))
}

#[test]
fn calculator_scenario() {
    let mut process = Process::new();
    let action = ask(&mut process, Client::Instruction { instruction: "Create a calculator".to_string() }).unwrap();
    let Action::AskQuestion(request) = action else { panic!("expected a question request") };
    assert_eq!(request.stop, vec!["\n".to_string()]);
    assert_eq!(request.messages[1].content, "Instruction: Create a calculator\n\nQ: ");
    let sent = process.question_reply("1. Which language should I use?").unwrap();
    assert_eq!(join(&sent), "Which language should I use?");

    let action = ask(&mut process, Client::Answer { answer: "Rust".to_string() }).unwrap();
    let Action::AskQuestion(request) = action else { panic!("expected a question request") };
    assert_eq!(
        request.messages[1].content,
        "Instruction: Create a calculator\n\nQ: Which language should I use?\nA: Rust\n\nQ: "
    );
    let sent = process.question_reply("Command line or GUI?").unwrap();
    assert!(!join(&sent).is_empty());

    let action = ask(&mut process, Client::Execute).unwrap();
    let Action::AskPlan(request) = action else { panic!("expected a plan request") };
    assert!(request.stop.is_empty());
    assert_eq!(request.messages[0].content, PLAN_PROMPT);
    assert!(request.messages[1].content.ends_with("---\n\nIntricate Plan:\n"));
    let plan = process.plan_reply(Some("1. Parse input\n2. Evaluate".to_string())).unwrap();
    assert_eq!(
        plan.data,
        Server::Question {
            question: "1. Parse input\n2. Evaluate".to_string(),
            is_first_word: true,
            is_last_word: true,
        }
    );
    let session = process.session().unwrap();
    assert_eq!(session.question_count(), 2);
    assert_eq!(session.answer_count(), 1);
}

#[test]
fn answer_first_is_refused() {
    let mut process = Process::new();
    let r = ask(&mut process, Client::Answer { answer: "x".to_string() });
    assert_eq!(r.unwrap_err(), SessionError::NoActiveQuestion);
    assert!(process.session().is_none());
}

#[test]
fn execute_first_is_refused() {
    let mut process = Process::new();
    assert_eq!(ask(&mut process, Client::Execute).unwrap_err(), SessionError::NoActiveInstruction);
    assert_eq!(process.plan_reply(None).unwrap_err(), SessionError::NoActiveInstruction);
}

#[test]
fn second_instruction_is_refused() {
    let mut process = Process::new();
    ask(&mut process, Client::Instruction { instruction: "a".to_string() }).unwrap();
    let r = ask(&mut process, Client::Instruction { instruction: "b".to_string() });
    assert_eq!(r.unwrap_err(), SessionError::InstructionAlreadyGiven);
    assert_eq!(process.session().unwrap().instruction(), "a");
}

#[test]
fn answer_while_question_pending_is_refused() {
    let mut process = Process::new();
    ask(&mut process, Client::Instruction { instruction: "a".to_string() }).unwrap();
    let r = ask(&mut process, Client::Answer { answer: "early".to_string() });
    assert_eq!(r.unwrap_err(), SessionError::NoActiveQuestion);
    process.question_reply("q").unwrap();
    assert_eq!(process.question_reply("again").unwrap_err(), SessionError::NoQuestionRequested);
}

#[test]
fn one_question_per_answer() {
    let mut process = Process::new();
    let mut questions = 0;
    ask(&mut process, Client::Instruction { instruction: "task".to_string() }).unwrap();
    questions += usize::from(!process.question_reply("first?").unwrap().is_empty());
    for k in 0..5 {
        ask(&mut process, Client::Answer { answer: format!("answer {k}") }).unwrap();
        questions += usize::from(!process.question_reply("next?").unwrap().is_empty());
    }
    assert!(matches!(ask(&mut process, Client::Execute).unwrap(), Action::AskPlan(_)));
    assert_eq!(questions, 6);
    assert_eq!(process.session().unwrap().question_count(), 6);
}

#[test]
fn sessions_are_isolated() {
    let mut a = Process::new();
    let mut b = Process::new();
    ask(&mut a, Client::Instruction { instruction: "Create a calculator".to_string() }).unwrap();
    ask(&mut b, Client::Instruction { instruction: "Write a poem".to_string() }).unwrap();
    a.question_reply("Which language?").unwrap();
    b.question_reply("Which meter?").unwrap();
    let Action::AskQuestion(ra) = ask(&mut a, Client::Answer { answer: "Rust".to_string() }).unwrap() else {
        panic!("expected a question request")
    };
    assert!(!ra.messages[1].content.contains("poem"));
    assert!(!ra.messages[1].content.contains("meter"));
    assert_eq!(b.session().unwrap().answer_count(), 0);
    assert_eq!(a.session().unwrap().answer_count(), 1);
}

#[test]
fn answer_then_question_adds_one_question() {
    let mut q = QAndA::new("task".to_string());
    q.gen_question("first?");
    q.answer("yes".to_string());
    assert_eq!((q.question_count(), q.answer_count()), (1, 1));
    let question = q.gen_question("  2.   second?  ");
    assert_eq!(question, "second?");
    assert_eq!((q.question_count(), q.answer_count()), (2, 1));
}

#[test]
fn question_request_holds_prompts() {
    let mut q = QAndA::new("Create a simple CLI calculator in 3 steps".to_string());
    q.add_question("Which language should I use?".to_string());
    q.answer("Rust".to_string());
    let r = q.chat_request();
    assert_eq!(r.messages.len(), 2);
    assert_eq!(r.messages[0].role, Role::System);
    assert_eq!(r.messages[0].content, QUESTION_PROMPT);
    assert_eq!(r.messages[1].role, Role::User);
    assert_eq!(
        r.messages[1].content,
        "Instruction: Create a simple CLI calculator in 3 steps\n\nQ: Which language should I use?\nA: Rust\n\nQ: "
    );
    let p = q.plan_request();
    assert_eq!(
        p.messages[1].content,
        "Instruction: Create a simple CLI calculator in 3 steps\n\nQ: Which language should I use?\nA: Rust\n\n---\n\nIntricate Plan:\n"
    );
    assert_eq!(p.model, ChatModel::Gpt4);
}

#[test]
fn plan_failure_degrades_to_diagnostic() {
    let q = QAndA::new("task".to_string());
    assert_eq!(q.plan(None), PLAN_FAILED);
    assert_eq!(q.plan(Some("steps".to_string())), "steps");
}

#[test]
fn enumeration_markers_are_stripped() {
    assert_eq!(trim_question("  12. What is it?"), " What is it?");
    assert_eq!(question_text("  12. What is it?  "), "What is it?");
    assert_eq!(question_text("3 Which one?"), "Which one?");
    assert_eq!(question_text("Why 3 steps?"), "Why 3 steps?");
    assert_eq!(question_text("\u{0663}. Arabic-Indic digit"), "Arabic-Indic digit");
    assert_eq!(question_text(""), "");
}

#[test]
fn strip_marker_only_at_the_start() {
    assert_eq!(strip_marker("12. x", Some((0, 3))), " x");
    assert_eq!(strip_marker("a 12. x", Some((2, 5))), "a 12. x");
    assert_eq!(strip_marker("x", None), "x");
    assert_eq!(strip_marker("x", Some((0, 9))), "x");
}

#[test]
fn fragments_join_back() {
    for q in ["Which language should I use?", "", "one", "a  b\tc ", " lead"] {
        let fs = fragments(q);
        assert_eq!(join(&fs), q);
        let n = fs.len();
        for (k, p) in fs.iter().enumerate() {
            let Server::Question { is_first_word, is_last_word, .. } = &p.data;
            assert_eq!(*is_first_word, k == 0);
            assert_eq!(*is_last_word, k + 1 == n);
        }
    }
    let words: Vec<String> = fragments("Which language should I use?")
        .into_iter()
        .map(|p| {
            let Server::Question { question, .. } = p.data;
            question
        })
        .collect();
    assert_eq!(words, vec!["Which ", "language ", "should ", "I ", "use?"]);
}

#[test]
fn test_completions() {
    let completion = Completions::default();
    assert_eq!(completion, Completions::Davinci);
}

#[test]
fn test_chat_model() {
    let model = ChatModel::default();
    assert_eq!(model, ChatModel::Gpt4);
}

#[test]
fn test_model() {
    let model = Model::default();
    assert_eq!(model, Model::Davinci);
    assert_eq!(model.embed_repr(), None);
    assert_eq!(model.text_repr(), "text-davinci-003");

    let model = Model::Curie;
    assert_eq!(model.embed_repr(), None);
    assert_eq!(model.text_repr(), "text-curie-001");

    let model = Model::Babbage;
    assert_eq!(model.embed_repr(), None);
    assert_eq!(model.text_repr(), "text-babbage-001");

    let model = Model::Ada;
    assert_eq!(model.embed_repr().unwrap(), "text-embedding-ada-002");
    assert_eq!(model.text_repr(), "text-ada-001")
}

#[test]
fn chat_request_builder() {
    let req = ChatRequest::new()
        .model(ChatModel::Turbo)
        .message(Msg::system("hello"))
        .message(Msg::user("hello"))
        .n(3)
        .stop_at("\n")
        .stop_at("#####");
    assert_eq!(req.model, ChatModel::Turbo);
    assert_eq!(req.messages.len(), 2);
    assert_eq!(req.n, 3);
    assert_eq!(req.stop, vec!["\n", "#####"]);
    assert_eq!(Role::Assistant.name(), "assistant");
    assert_eq!(ChatModel::Turbo0301.name(), "gpt-3.5-turbo-0301");
}
