use mind::backend::information::InformationImpl;
use mind::backend::runner::{sort_by_capture, Captured, Response, Signal};
use mind::backend::state::{InputLine, State, Step};
use mind::command::{Command, Invocation, Line};
use mind::information::Information;
use mind::object::Object;
use mind::time::Timestamp;
use uuid::Uuid;

fn item(title: &str, secs: i64, nanos: u32) -> InformationImpl {
    InformationImpl::captured(title, Uuid::from_u128(secs as u128), Timestamp::new(secs, nanos, 0).unwrap())
}

fn titles(list: &[InformationImpl]) -> Vec<String> {
    list.iter().map(|i| i.title().to_string()).collect()
}

fn typing(text: &str) -> State {
    let mut state = State::default();
    state.input = Some(InputLine { value: text.to_string(), cursor: text.chars().count() });
    state
}

#[test]
fn what_was_captured_is_shown_in_the_order_of_capture() {
    let list = vec![
        item("c", 30, 0),
        item("a", 10, 5),
        item("d", 30, 0),
        item("b", 10, 6),
        item("e", 30, 0),
        item("z", -5, 0),
    ];
    let mut expected = list.clone();
    expected.sort_by_key(|i| (i.captured_at().secs(), i.captured_at().nanos()));
    let sorted = sort_by_capture(list);
    assert_eq!(titles(&sorted), vec!["z", "a", "b", "c", "d", "e"]);
    assert_eq!(titles(&sorted), titles(&expected));
    assert!(sort_by_capture(Vec::new()).is_empty());
    let mut state = State::default();
    state.show(vec![item("y", 2, 0), item("x", 1, 0)]);
    assert_eq!(titles(&state.information_list), vec!["x", "y"]);
    state.show(vec![item("w", 0, 0)]);
    assert_eq!(titles(&state.information_list), vec!["w"]);
}

#[test]
fn a_state_begins_with_capturing() {
    let state = State::default();
    assert_eq!(state.current_step, Step::Capture);
    assert!(state.information_list.is_empty());
    assert!(state.horizon_priority_list.is_empty());
    assert!(state.label_list.is_empty());
    assert!(state.information_label_relation_list.is_empty());
    assert!(state.input.is_none());
    let line = InputLine::default();
    assert_eq!(line.value, "");
    assert_eq!(line.cursor, 0);
}

#[test]
fn a_line_with_text_is_kept_when_it_is_sent_off() {
    let now = Timestamp::new(77, 0, 0).unwrap();
    let mut state = typing("title\nbody");
    match state.capture_at(Some(Response::Submitted), Uuid::from_u128(9), now) {
        Captured::Keep(kept) => {
            assert_eq!(kept.title(), "title");
            assert_eq!(kept.body(), Some("body"));
            assert_eq!(*kept.id(), Uuid::from_u128(9));
            assert_eq!(*kept.captured_at(), now);
        }
        other => panic!("{:?}", other),
    }
    let line = state.input.unwrap();
    assert_eq!(line.value, "");
    assert_eq!(line.cursor, 0);
}

#[test]
fn an_empty_line_that_is_sent_off_ends_the_session() {
    let now = Timestamp::new(77, 0, 0).unwrap();
    let mut state = typing("");
    assert!(matches!(
        state.capture_at(Some(Response::Submitted), Uuid::from_u128(9), now),
        Captured::Nothing(Signal::Quit)
    ));
    let mut fresh = State::default();
    assert!(matches!(
        fresh.capture_at(Some(Response::Submitted), Uuid::from_u128(9), now),
        Captured::Nothing(Signal::Quit)
    ));
    assert_eq!(fresh.input.unwrap().value, "");
}

#[test]
fn other_keys_keep_the_line_as_it_is() {
    let now = Timestamp::new(77, 0, 0).unwrap();
    let mut state = typing("abc");
    assert!(matches!(
        state.capture_at(Some(Response::StateChanged), Uuid::from_u128(9), now),
        Captured::Nothing(Signal::Continue)
    ));
    assert!(matches!(
        state.capture_at(None, Uuid::from_u128(9), now),
        Captured::Nothing(Signal::Continue)
    ));
    assert!(matches!(
        state.capture_at(Some(Response::Escaped), Uuid::from_u128(9), now),
        Captured::Nothing(Signal::Quit)
    ));
    let line = state.input.unwrap();
    assert_eq!(line.value, "abc");
    assert_eq!(line.cursor, 3);
}

#[test]
fn capturing_by_the_clock_gives_a_fresh_id() {
    let mut state = typing("one");
    let first = match state.capture(Some(Response::Submitted)) {
        Captured::Keep(kept) => kept,
        other => panic!("{:?}", other),
    };
    state.input = Some(InputLine { value: "two".to_string(), cursor: 3 });
    let second = match state.capture(Some(Response::Submitted)) {
        Captured::Keep(kept) => kept,
        other => panic!("{:?}", other),
    };
    assert_eq!(first.title(), "one");
    assert_eq!(second.title(), "two");
    assert_ne!(first.id(), second.id());
    assert!(!first.captured_at().is_after(second.captured_at()));
    assert!(matches!(state.capture(Some(Response::Escaped)), Captured::Nothing(Signal::Quit)));
}

fn args(words: &[&str]) -> Vec<String> {
    words.iter().map(|w| w.to_string()).collect()
}

#[test]
fn the_arguments_say_what_is_asked() {
    assert!(matches!(Invocation::from_args(&args(&[])), Invocation::Interactive));
    assert!(matches!(Invocation::from_args(&args(&["--version"])), Invocation::Version));
    assert!(matches!(Invocation::from_args(&args(&["--version", "x"])), Invocation::Version));
    assert!(matches!(Invocation::from_args(&args(&["--help"])), Invocation::Help));
    assert!(matches!(Invocation::from_args(&args(&[" --help"])), Invocation::Invalid));
    assert!(matches!(Invocation::from_args(&args(&["pop"])), Invocation::Act(Command::PopLast)));
    assert!(matches!(
        Invocation::from_args(&args(&[" pop ", " 3\n"])),
        Invocation::Act(Command::Pop(3))
    ));
    assert!(matches!(Invocation::from_args(&args(&["2"])), Invocation::Act(Command::Continue(2))));
    assert!(matches!(
        Invocation::from_args(&args(&["e", "r", "x"])),
        Invocation::Act(Command::EditReminders)
    ));
    assert!(matches!(Invocation::from_args(&args(&["hello"])), Invocation::Invalid));
    assert!(matches!(Invocation::from_args(&args(&["pop", "x"])), Invocation::Invalid));
    assert!(matches!(Invocation::from_args(&args(&[""])), Invocation::Invalid));
}

#[test]
fn a_typed_line_is_a_task_or_a_statement() {
    assert!(matches!(Line::read(""), Line::Quit));
    assert!(matches!(Line::read("  \t\n"), Line::Quit));
    match Line::read("  write the report \n") {
        Line::Act(Command::Push(name)) => assert_eq!(name, "write the report"),
        other => panic!("{:?}", other),
    }
    match Line::read("pop") {
        Line::Act(Command::Push(name)) => assert_eq!(name, "pop"),
        other => panic!("{:?}", other),
    }
    assert!(matches!(Line::read("/pop"), Line::Act(Command::PopLast)));
    assert!(matches!(Line::read("/p 2"), Line::Act(Command::Pop(2))));
    assert!(matches!(Line::read(" /get 1 2 3\n"), Line::Act(Command::Get(1))));
    assert!(matches!(Line::read("/7"), Line::Act(Command::Continue(7))));
    assert!(matches!(Line::read("/e r"), Line::Act(Command::EditReminders)));
    assert!(matches!(Line::read("/r"), Line::Act(Command::RemindLast)));
    assert!(matches!(Line::read("/"), Line::Nothing));
    assert!(matches!(Line::read("/ pop"), Line::Nothing));
    assert!(matches!(Line::read("/pop  2"), Line::Nothing));
    assert!(matches!(Line::read("/pop x"), Line::Nothing));
    assert!(matches!(Line::read("/hello"), Line::Nothing));
    assert!(matches!(Line::read("//pop"), Line::Nothing));
}

#[test]
fn a_typed_statement_is_read_as_its_words_are() {
    for line in ["/pop", "/p 1", "/g", "/get 9 9", "/e reminders", "/x", "/ 1", "/1 ", "/pop  1"] {
        let statement = line.splitn(2, '/').nth(1).unwrap().split(' ');
        let want = Command::from(statement);
        match (Line::read(line), want) {
            (Line::Act(got), Some(want)) => assert_eq!(format!("{:?}", got), format!("{:?}", want)),
            (Line::Nothing, None) => {}
            (got, want) => panic!("{:?} {:?} {:?}", line, got, want),
        }
    }
}
