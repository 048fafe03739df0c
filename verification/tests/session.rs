use rwfile::mode::Mode;
use rwfile::outcome::{FailureKind, Outcome};
use rwfile::session::{step, Action, Event, Notice, State};

fn text(s: &str) -> String {
    String::from(s)
}

fn args(list: &[&str]) -> Event {
    Event::Args(list.iter().map(|s| text(s)).collect())
}

fn exit(outcome: Outcome) -> Option<(State, Action)> {
    Some((State::Finished, Action::Exit { outcome }))
}

fn ask_mode(path: &str, notice: Notice) -> Option<(State, Action)> {
    Some((State::AwaitingMode { path: text(path) }, Action::AskMode { notice }))
}

/// Reports `events` one after another and collects what is asked for, up to
/// the first event that is not taken.
fn run(events: Vec<Event>) -> (State, Vec<Action>) {
    let mut state = State::Start;
    let mut actions = Vec::new();
    for event in events {
        match step(state.clone(), event) {
            Some((next, action)) => {
                state = next;
                actions.push(action);
            }
            None => break,
        }
    }
    (state, actions)
}

fn every_state() -> Vec<State> {
    vec![
        State::Start,
        State::AwaitingMode { path: text("notes.txt") },
        State::OpeningForRead,
        State::Reading,
        State::AwaitingText { path: text("notes.txt") },
        State::OpeningForAppend { text: text("hello\n") },
        State::Appending,
        State::Finished,
    ]
}

fn every_event() -> Vec<Event> {
    vec![
        args(&["tool", "notes.txt"]),
        Event::PromptFailed,
        Event::InputFailed,
        Event::Input(text("r\n")),
        Event::Opened,
        Event::OpenFailed(FailureKind::NotFound),
        Event::Line(text("a line")),
        Event::EndOfFile,
        Event::ReadFailed,
        Event::Written,
        Event::WriteFailed(FailureKind::Other),
    ]
}

/// The events that are a result of what each state waits for, by their place
/// in `every_event`.
fn expected_events(state: &State) -> &'static [usize] {
    match state {
        State::Start => &[0],
        State::AwaitingMode { .. } => &[1, 2, 3],
        State::OpeningForRead => &[4, 5],
        State::Reading => &[6, 7, 8],
        State::AwaitingText { .. } => &[1, 2, 3],
        State::OpeningForAppend { .. } => &[4, 5],
        State::Appending => &[9, 10],
        State::Finished => &[],
    }
}

#[test]
fn one_argument_asks_for_the_mode() {
    assert_eq!(
        step(State::Start, args(&["tool", "notes.txt"])),
        ask_mode("notes.txt", Notice::Nothing)
    );
}

#[test]
fn the_argument_is_the_path_whatever_it_holds() {
    for path in ["", " ", "r", "a b/c d.txt", "/tmp/\u{00E9}t\u{00E9}", "-", "--help"] {
        assert_eq!(step(State::Start, args(&["tool", path])), ask_mode(path, Notice::Nothing));
    }
}

#[test]
fn missing_argument_exits_with_usage() {
    let next = step(State::Start, args(&["tool"]));
    assert_eq!(next, exit(Outcome::Usage));
    assert_eq!(Outcome::Usage.exit_code(), 4);
}

#[test]
fn extra_arguments_exit_with_usage() {
    assert_eq!(step(State::Start, args(&["tool", "a.txt", "b.txt"])), exit(Outcome::Usage));
    assert_eq!(step(State::Start, args(&["tool", "a.txt", "r"])), exit(Outcome::Usage));
    let many: Vec<&str> = std::iter::repeat("x").take(100).collect();
    assert_eq!(step(State::Start, args(&many)), exit(Outcome::Usage));
}

#[test]
fn empty_command_line_exits_with_usage() {
    assert_eq!(step(State::Start, args(&[])), exit(Outcome::Usage));
}

#[test]
fn wrong_argument_count_asks_for_nothing_else() {
    for list in [&[][..], &["tool"][..], &["tool", "a", "b"][..]] {
        let (state, actions) = run(vec![
            args(list),
            Event::Input(text("r\n")),
            Event::Opened,
            Event::Line(text("a line")),
            Event::EndOfFile,
        ]);
        assert_eq!(state, State::Finished);
        assert_eq!(actions, vec![Action::Exit { outcome: Outcome::Usage }]);
    }
}

#[test]
fn answer_r_opens_the_file_for_reading() {
    let waiting = State::AwaitingMode { path: text("notes.txt") };
    assert_eq!(
        step(waiting.clone(), Event::Input(text("r\n"))),
        Some((State::OpeningForRead, Action::OpenForRead { path: text("notes.txt") }))
    );
    assert_eq!(
        step(waiting, Event::Input(text("  r  "))),
        Some((State::OpeningForRead, Action::OpenForRead { path: text("notes.txt") }))
    );
}

#[test]
fn answer_w_asks_for_the_text() {
    let waiting = State::AwaitingMode { path: text("notes.txt") };
    assert_eq!(
        step(waiting.clone(), Event::Input(text("w\n"))),
        Some((State::AwaitingText { path: text("notes.txt") }, Action::AskText))
    );
    assert_eq!(
        step(waiting, Event::Input(text("\tw\r\n"))),
        Some((State::AwaitingText { path: text("notes.txt") }, Action::AskText))
    );
}

#[test]
fn invalid_answer_asks_again() {
    for answer in ["", "\n", "x\n", "R\n", "W\n", "rw\n", "r w\n", "read\n", "write\n", "0\n"] {
        let waiting = State::AwaitingMode { path: text("notes.txt") };
        assert_eq!(
            step(waiting, Event::Input(text(answer))),
            ask_mode("notes.txt", Notice::InvalidInput),
            "{:?}",
            answer
        );
    }
}

#[test]
fn unreadable_answer_exits_with_one() {
    let waiting = State::AwaitingMode { path: text("notes.txt") };
    assert_eq!(step(waiting, Event::InputFailed), exit(Outcome::InputFailed));
    assert_eq!(Outcome::InputFailed.exit_code(), 1);
}

#[test]
fn unreadable_answer_is_not_asked_for_again() {
    let (state, actions) = run(vec![
        args(&["prog", "f"]),
        Event::InputFailed,
        Event::Input(text("w\n")),
        Event::Input(text("b\n")),
        Event::Opened,
        Event::Written,
    ]);
    assert_eq!(state, State::Finished);
    assert_eq!(
        actions,
        vec![
            Action::AskMode { notice: Notice::Nothing },
            Action::Exit { outcome: Outcome::InputFailed },
        ]
    );
}

#[test]
fn unreadable_answer_ends_the_run_after_invalid_ones_too() {
    let (state, actions) = run(vec![
        args(&["prog", "f"]),
        Event::Input(text("x\n")),
        Event::Input(text("\n")),
        Event::InputFailed,
        Event::Input(text("r\n")),
        Event::Opened,
    ]);
    assert_eq!(state, State::Finished);
    assert_eq!(
        actions,
        vec![
            Action::AskMode { notice: Notice::Nothing },
            Action::AskMode { notice: Notice::InvalidInput },
            Action::AskMode { notice: Notice::InvalidInput },
            Action::Exit { outcome: Outcome::InputFailed },
        ]
    );
}

#[test]
fn mode_is_asked_until_an_answer_selects_one() {
    let (state, actions) = run(vec![
        args(&["tool", "notes.txt"]),
        Event::Input(text("\n")),
        Event::Input(text("yes\n")),
        Event::Input(text("rw\n")),
        Event::Input(text("")),
        Event::Input(text("w\n")),
    ]);
    assert_eq!(state, State::AwaitingText { path: text("notes.txt") });
    assert_eq!(
        actions,
        vec![
            Action::AskMode { notice: Notice::Nothing },
            Action::AskMode { notice: Notice::InvalidInput },
            Action::AskMode { notice: Notice::InvalidInput },
            Action::AskMode { notice: Notice::InvalidInput },
            Action::AskMode { notice: Notice::InvalidInput },
            Action::AskText,
        ]
    );
}

#[test]
fn end_of_input_keeps_asking_for_the_mode() {
    let mut events = vec![args(&["tool", "notes.txt"])];
    for _ in 0..1000 {
        events.push(Event::Input(text("")));
    }
    let (state, actions) = run(events);
    assert_eq!(state, State::AwaitingMode { path: text("notes.txt") });
    assert_eq!(actions.len(), 1001);
    assert_eq!(actions[0], Action::AskMode { notice: Notice::Nothing });
    for action in &actions[1..] {
        assert_eq!(*action, Action::AskMode { notice: Notice::InvalidInput });
    }
}

#[test]
fn failed_mode_prompt_exits_with_one() {
    let waiting = State::AwaitingMode { path: text("notes.txt") };
    assert_eq!(step(waiting, Event::PromptFailed), exit(Outcome::PromptFailed));
    assert_eq!(Outcome::PromptFailed.exit_code(), 1);
}

#[test]
fn opened_file_is_read_from_its_first_line() {
    assert_eq!(step(State::OpeningForRead, Event::Opened), Some((State::Reading, Action::ReadLine)));
}

#[test]
fn missing_file_exits_with_two_in_read_mode() {
    let (state, actions) = run(vec![
        args(&["tool", "/no/such/file"]),
        Event::Input(text("r\n")),
        Event::OpenFailed(FailureKind::NotFound),
    ]);
    assert_eq!(state, State::Finished);
    let outcome = Outcome::OpenFailed { mode: Mode::Read, kind: FailureKind::NotFound };
    assert_eq!(actions.last(), Some(&Action::Exit { outcome }));
    assert_eq!(outcome.exit_code(), 2);
}

#[test]
fn unreadable_file_exits_with_three_in_read_mode() {
    let next = step(State::OpeningForRead, Event::OpenFailed(FailureKind::PermissionDenied));
    let outcome = Outcome::OpenFailed { mode: Mode::Read, kind: FailureKind::PermissionDenied };
    assert_eq!(next, exit(outcome));
    assert_eq!(outcome.exit_code(), 3);
}

#[test]
fn other_open_failure_exits_with_one_in_read_mode() {
    let next = step(State::OpeningForRead, Event::OpenFailed(FailureKind::Other));
    let outcome = Outcome::OpenFailed { mode: Mode::Read, kind: FailureKind::Other };
    assert_eq!(next, exit(outcome));
    assert_eq!(outcome.exit_code(), 1);
}

#[test]
fn each_line_is_echoed_unchanged() {
    for line in ["", " ", "plain", "  indented\t", "r", "\u{00E9}t\u{00E9} \u{1F600}", "a\rb"] {
        assert_eq!(
            step(State::Reading, Event::Line(text(line))),
            Some((State::Reading, Action::Echo { line: text(line) }))
        );
    }
}

#[test]
fn end_of_file_ends_the_run_well() {
    assert_eq!(step(State::Reading, Event::EndOfFile), exit(Outcome::Printed));
    assert_eq!(Outcome::Printed.exit_code(), 0);
}

#[test]
fn failed_read_ends_the_run_with_one() {
    assert_eq!(step(State::Reading, Event::ReadFailed), exit(Outcome::ReadFailed));
    assert_eq!(Outcome::ReadFailed.exit_code(), 1);
}

#[test]
fn read_run_echoes_every_line_in_order() {
    let lines = ["first", "", "third line", "  ", "last"];
    let mut events = vec![args(&["tool", "notes.txt"]), Event::Input(text("r\n")), Event::Opened];
    events.extend(lines.iter().map(|line| Event::Line(text(line))));
    events.push(Event::EndOfFile);
    let (state, actions) = run(events);
    assert_eq!(state, State::Finished);

    let mut expected = vec![
        Action::AskMode { notice: Notice::Nothing },
        Action::OpenForRead { path: text("notes.txt") },
        Action::ReadLine,
    ];
    expected.extend(lines.iter().map(|line| Action::Echo { line: text(line) }));
    expected.push(Action::Exit { outcome: Outcome::Printed });
    assert_eq!(actions, expected);
}

#[test]
fn read_run_of_an_empty_file_prints_nothing() {
    let (state, actions) = run(vec![
        args(&["tool", "empty.txt"]),
        Event::Input(text("r\n")),
        Event::Opened,
        Event::EndOfFile,
    ]);
    assert_eq!(state, State::Finished);
    assert_eq!(
        actions,
        vec![
            Action::AskMode { notice: Notice::Nothing },
            Action::OpenForRead { path: text("empty.txt") },
            Action::ReadLine,
            Action::Exit { outcome: Outcome::Printed },
        ]
    );
}

#[test]
fn read_run_stops_at_the_first_failure() {
    let (state, actions) = run(vec![
        args(&["tool", "notes.txt"]),
        Event::Input(text("r\n")),
        Event::Opened,
        Event::Line(text("first")),
        Event::ReadFailed,
        Event::Line(text("never printed")),
    ]);
    assert_eq!(state, State::Finished);
    assert_eq!(
        actions,
        vec![
            Action::AskMode { notice: Notice::Nothing },
            Action::OpenForRead { path: text("notes.txt") },
            Action::ReadLine,
            Action::Echo { line: text("first") },
            Action::Exit { outcome: Outcome::ReadFailed },
        ]
    );
}

#[test]
fn typed_text_opens_the_file_for_appending() {
    let waiting = State::AwaitingText { path: text("notes.txt") };
    assert_eq!(
        step(waiting, Event::Input(text("hello\n"))),
        Some((
            State::OpeningForAppend { text: text("hello\n") },
            Action::OpenForAppend { path: text("notes.txt") }
        ))
    );
}

#[test]
fn text_that_looks_like_a_mode_is_still_text() {
    for typed in ["r\n", "w\n", "", "\n", "  spaced  \n"] {
        let waiting = State::AwaitingText { path: text("notes.txt") };
        assert_eq!(
            step(waiting, Event::Input(text(typed))),
            Some((
                State::OpeningForAppend { text: text(typed) },
                Action::OpenForAppend { path: text("notes.txt") }
            ))
        );
    }
}

#[test]
fn failed_text_prompt_exits_with_one() {
    let waiting = State::AwaitingText { path: text("notes.txt") };
    assert_eq!(step(waiting, Event::PromptFailed), exit(Outcome::PromptFailed));
}

#[test]
fn unreadable_text_exits_with_one() {
    let waiting = State::AwaitingText { path: text("notes.txt") };
    assert_eq!(step(waiting, Event::InputFailed), exit(Outcome::InputFailed));
    assert_eq!(Outcome::InputFailed.exit_code(), 1);
}

#[test]
fn opened_file_gets_the_text_as_typed() {
    for typed in ["hello\n", "no line ending", "", "  kept  \r\n", "\u{00E9}\n"] {
        let opening = State::OpeningForAppend { text: text(typed) };
        assert_eq!(
            step(opening, Event::Opened),
            Some((State::Appending, Action::Append { text: text(typed) }))
        );
    }
}

#[test]
fn unwritable_file_exits_with_three_in_write_mode() {
    let (state, actions) = run(vec![
        args(&["tool", "/read/only.txt"]),
        Event::Input(text("w\n")),
        Event::Input(text("hello\n")),
        Event::OpenFailed(FailureKind::PermissionDenied),
    ]);
    assert_eq!(state, State::Finished);
    let outcome = Outcome::OpenFailed { mode: Mode::Write, kind: FailureKind::PermissionDenied };
    assert_eq!(actions.last(), Some(&Action::Exit { outcome }));
    assert_eq!(outcome.exit_code(), 3);
    assert!(!actions.iter().any(|action| matches!(action, Action::Append { .. })));
}

#[test]
fn missing_directory_exits_with_two_in_write_mode() {
    let opening = State::OpeningForAppend { text: text("hello\n") };
    let outcome = Outcome::OpenFailed { mode: Mode::Write, kind: FailureKind::NotFound };
    assert_eq!(step(opening, Event::OpenFailed(FailureKind::NotFound)), exit(outcome));
    assert_eq!(outcome.exit_code(), 2);
}

#[test]
fn other_open_failure_exits_with_one_in_write_mode() {
    let opening = State::OpeningForAppend { text: text("hello\n") };
    let outcome = Outcome::OpenFailed { mode: Mode::Write, kind: FailureKind::Other };
    assert_eq!(step(opening, Event::OpenFailed(FailureKind::Other)), exit(outcome));
    assert_eq!(outcome.exit_code(), 1);
}

#[test]
fn written_text_ends_the_run_well() {
    assert_eq!(step(State::Appending, Event::Written), exit(Outcome::Written));
    assert_eq!(Outcome::Written.exit_code(), 0);
}

#[test]
fn denied_write_exits_with_three() {
    let outcome = Outcome::WriteFailed { kind: FailureKind::PermissionDenied };
    assert_eq!(
        step(State::Appending, Event::WriteFailed(FailureKind::PermissionDenied)),
        exit(outcome)
    );
    assert_eq!(outcome.exit_code(), 3);
}

#[test]
fn other_failed_write_exits_with_one() {
    for kind in [FailureKind::NotFound, FailureKind::Other] {
        let outcome = Outcome::WriteFailed { kind };
        assert_eq!(step(State::Appending, Event::WriteFailed(kind)), exit(outcome));
        assert_eq!(outcome.exit_code(), 1);
    }
}

#[test]
fn write_run_appends_once_what_was_typed() {
    let (state, actions) = run(vec![
        args(&["tool", "notes.txt"]),
        Event::Input(text("w\n")),
        Event::Input(text("a new line\n")),
        Event::Opened,
        Event::Written,
    ]);
    assert_eq!(state, State::Finished);
    assert_eq!(
        actions,
        vec![
            Action::AskMode { notice: Notice::Nothing },
            Action::AskText,
            Action::OpenForAppend { path: text("notes.txt") },
            Action::Append { text: text("a new line\n") },
            Action::Exit { outcome: Outcome::Written },
        ]
    );
}

#[test]
fn repeated_write_runs_add_their_texts_in_order() {
    let mut file = String::from("already there\n");
    for typed in ["one\n", "two\n", "", "three"] {
        let (_, actions) = run(vec![
            args(&["tool", "notes.txt"]),
            Event::Input(text("w\n")),
            Event::Input(text(typed)),
            Event::Opened,
            Event::Written,
        ]);
        for action in actions {
            match action {
                Action::Append { text } => file.push_str(&text),
                Action::OpenForAppend { path } => assert_eq!(path, "notes.txt"),
                Action::AskMode { .. } | Action::AskText | Action::Exit { .. } => {}
                other => panic!("a write run asked for {:?}", other),
            }
        }
    }
    assert_eq!(file, "already there\none\ntwo\nthree");
}

#[test]
fn read_run_never_asks_to_write() {
    let (_, actions) = run(vec![
        args(&["tool", "notes.txt"]),
        Event::Input(text("r\n")),
        Event::Opened,
        Event::Line(text("w")),
        Event::Line(text("more")),
        Event::EndOfFile,
    ]);
    assert_eq!(actions.len(), 6);
    for action in actions {
        assert!(!matches!(action, Action::OpenForAppend { .. } | Action::Append { .. }));
    }
}

#[test]
fn each_state_takes_only_the_results_it_waits_for() {
    for state in every_state() {
        let expected = expected_events(&state);
        for (place, event) in every_event().into_iter().enumerate() {
            let next = step(state.clone(), event.clone());
            assert_eq!(next.is_some(), expected.contains(&place), "{:?} {:?}", state, event);
        }
    }
}

#[test]
fn finished_run_takes_no_event() {
    for event in every_event() {
        assert_eq!(step(State::Finished, event), None);
    }
}

#[test]
fn exit_always_comes_with_the_finished_state() {
    for state in every_state() {
        for event in every_event() {
            if let Some((next, action)) = step(state.clone(), event) {
                assert_eq!(
                    next == State::Finished,
                    matches!(action, Action::Exit { .. }),
                    "{:?}",
                    state
                );
            }
        }
    }
}
