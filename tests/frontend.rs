use auton::frontend::{App, Key, KeyOutcome, Label, Ui};
use auton::protocol::{Client, Server};
use auton::stream::fragments;

fn lines(ui: &Ui) -> Vec<String> {
    (0..ui.line_count()).map(|i| ui.line(i).to_string()).collect()
}

fn type_line(app: &mut App, text: &str) -> KeyOutcome {
    for c in text.chars() {
        assert!(matches!(app.on_key(Key::Char(c)), KeyOutcome::Stay));
    }
    app.on_key(Key::Enter)
}

#[test]
fn ui_lines() {
    let mut ui = Ui::new();
    assert_eq!(lines(&ui), vec![""]);
    ui.current_line().push_str("abc");
    ui.new_line();
    ui.current_line().push('d');
    assert_eq!(lines(&ui), vec!["abc", "d"]);
    ui.reset();
    assert_eq!(lines(&ui), vec![""]);
}

#[test]
fn label_text() {
    let label = Label::new().text("hello");
    assert_eq!(label.content(), "hello");
    assert_eq!(Label::new().content(), "");
}

#[test]
fn first_line_is_the_instruction_then_answers() {
    let mut app = App::new();
    let KeyOutcome::Send(p) = type_line(&mut app, "Create a calculator") else { panic!("nothing sent") };
    assert_eq!(p.data, Client::Instruction { instruction: "Create a calculator".to_string() });
    // keys are ignored while the question is awaited
    assert!(matches!(app.on_key(Key::Char('x')), KeyOutcome::Stay));
    for p in fragments("Which language?") {
        app.on_packet(p.data);
    }
    assert_eq!(lines(app.ui()), vec!["Create a calculator", "", "> Which language?", ""]);
    let KeyOutcome::Send(p) = type_line(&mut app, "Rusty") else { panic!("nothing sent") };
    assert_eq!(p.data, Client::Answer { answer: "Rusty".to_string() });
}

#[test]
fn editing_keys() {
    let mut app = App::new();
    app.on_key(Key::Char('a'));
    app.on_key(Key::Char('b'));
    app.on_key(Key::Backspace);
    assert_eq!(lines(app.ui()), vec!["a"]);
    app.on_key(Key::Backspace);
    app.on_key(Key::Backspace);
    assert_eq!(lines(app.ui()), vec![""]);
    assert!(matches!(type_line(&mut app, "   "), KeyOutcome::Stay));
    assert!(matches!(app.on_key(Key::Esc), KeyOutcome::Quit));
}

#[test]
fn fragments_extend_one_line() {
    let mut app = App::new();
    type_line(&mut app, "task");
    app.on_packet(Server::Question { question: "Which ".to_string(), is_first_word: true, is_last_word: false });
    app.on_packet(Server::Question { question: "one?".to_string(), is_first_word: false, is_last_word: true });
    assert_eq!(lines(app.ui()), vec!["task", "", "> Which one?", ""]);
}
