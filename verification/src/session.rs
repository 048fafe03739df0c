//! One run of the tool as a state machine.
//!
//! The caller does the work on the console and on the file system and reports
//! each result as an [`Event`]. [`step`] answers with the next [`State`] and
//! with the [`Action`] that the caller carries out next. A run starts in
//! [`State::Start`] with the event [`Event::Args`] and ends with the action
//! [`Action::Exit`].

use crate::mode::{mode_of, parse_mode, Mode};
use crate::outcome::{FailureKind, Outcome};
use vstd::prelude::*;

verus! {

/// What is said before the mode is asked for.
#[derive(Clone, Copy, Debug, PartialEq, Eq, Structural)]
pub enum Notice {
    /// Nothing: the mode is asked for the first time.
    Nothing,
    /// That the last answer selects no mode.
    InvalidInput,
}

/// Where a run stands: what the caller was last asked to do.
#[derive(Clone, Debug, PartialEq, Eq)]
pub enum State {
    /// Nothing has happened yet.
    Start,
    /// The mode was asked for, to be applied to the file at `path`.
    AwaitingMode { path: String },
    /// The file is being opened for reading.
    OpeningForRead,
    /// The next line of the file is being read.
    Reading,
    /// The text to append to the file at `path` was asked for.
    AwaitingText { path: String },
    /// The file is being opened to append `text` to it.
    OpeningForAppend { text: String },
    /// The text is being written.
    Appending,
    /// The run is over.
    Finished,
}

/// What the caller reports back.
#[derive(Clone, Debug, PartialEq, Eq)]
pub enum Event {
    /// The command line: the program's name, then its arguments.
    Args(Vec<String>),
    /// The prompt could not be shown.
    PromptFailed,
    /// No line could be read from the console.
    InputFailed,
    /// A line was read from the console, with its line ending if it has one.
    /// At the end of the input the line is empty.
    Input(String),
    /// The file is open.
    Opened,
    /// The file could not be opened.
    OpenFailed(FailureKind),
    /// The next line of the file, without its line ending.
    Line(String),
    /// The file has no further line.
    EndOfFile,
    /// The next line of the file could not be read.
    ReadFailed,
    /// The text is in the file.
    Written,
    /// The text could not be written.
    WriteFailed(FailureKind),
}

/// What the caller does next.
#[derive(Clone, Debug, PartialEq, Eq)]
pub enum Action {
    /// Say what `notice` stands for, show the prompt for the mode, and read a
    /// line from the console.
    AskMode { notice: Notice },
    /// Open the file at `path` for reading.
    OpenForRead { path: String },
    /// Read the next line of the open file.
    ReadLine,
    /// Print `line` and a line ending, then read the next line of the open
    /// file.
    Echo { line: String },
    /// Show the prompt for the text, and read a line from the console.
    AskText,
    /// Open the file at `path` so that what is written goes to its end, and
    /// create the file if it does not exist.
    OpenForAppend { path: String },
    /// Write all of `text` to the open file.
    Append { text: String },
    /// Report `outcome` and leave with its exit status.
    Exit { outcome: Outcome },
}

/// A [`State`] with each string as the sequence of its characters.
pub enum StateView {
    Start,
    AwaitingMode { path: Seq<char> },
    OpeningForRead,
    Reading,
    AwaitingText { path: Seq<char> },
    OpeningForAppend { text: Seq<char> },
    Appending,
    Finished,
}

/// An [`Event`] with each string as the sequence of its characters.
pub enum EventView {
    Args(Seq<Seq<char>>),
    PromptFailed,
    InputFailed,
    Input(Seq<char>),
    Opened,
    OpenFailed(FailureKind),
    Line(Seq<char>),
    EndOfFile,
    ReadFailed,
    Written,
    WriteFailed(FailureKind),
}

/// An [`Action`] with each string as the sequence of its characters.
pub enum ActionView {
    AskMode { notice: Notice },
    OpenForRead { path: Seq<char> },
    ReadLine,
    Echo { line: Seq<char> },
    AskText,
    OpenForAppend { path: Seq<char> },
    Append { text: Seq<char> },
    Exit { outcome: Outcome },
}

impl View for State {
    type V = StateView;

    open spec fn view(&self) -> StateView {
        match self {
            State::Start => StateView::Start,
            State::AwaitingMode { path } => StateView::AwaitingMode { path: path@ },
            State::OpeningForRead => StateView::OpeningForRead,
            State::Reading => StateView::Reading,
            State::AwaitingText { path } => StateView::AwaitingText { path: path@ },
            State::OpeningForAppend { text } => StateView::OpeningForAppend { text: text@ },
            State::Appending => StateView::Appending,
            State::Finished => StateView::Finished,
        }
    }
}

impl View for Event {
    type V = EventView;

    open spec fn view(&self) -> EventView {
        match self {
            Event::Args(args) => EventView::Args(Seq::new(args@.len(), |i: int| args@[i]@)),
            Event::PromptFailed => EventView::PromptFailed,
            Event::InputFailed => EventView::InputFailed,
            Event::Input(line) => EventView::Input(line@),
            Event::Opened => EventView::Opened,
            Event::OpenFailed(kind) => EventView::OpenFailed(*kind),
            Event::Line(line) => EventView::Line(line@),
            Event::EndOfFile => EventView::EndOfFile,
            Event::ReadFailed => EventView::ReadFailed,
            Event::Written => EventView::Written,
            Event::WriteFailed(kind) => EventView::WriteFailed(*kind),
        }
    }
}

impl View for Action {
    type V = ActionView;

    open spec fn view(&self) -> ActionView {
        match self {
            Action::AskMode { notice } => ActionView::AskMode { notice: *notice },
            Action::OpenForRead { path } => ActionView::OpenForRead { path: path@ },
            Action::ReadLine => ActionView::ReadLine,
            Action::Echo { line } => ActionView::Echo { line: line@ },
            Action::AskText => ActionView::AskText,
            Action::OpenForAppend { path } => ActionView::OpenForAppend { path: path@ },
            Action::Append { text } => ActionView::Append { text: text@ },
            Action::Exit { outcome } => ActionView::Exit { outcome: *outcome },
        }
    }
}

/// The state and the action that follow when `event` is reported in `state`,
/// or `None` when `event` is no result of what `state` waits for.
///
/// A run with exactly one argument asks for the mode until an answer selects
/// one; any other run ends at once. Reading opens the file and echoes line
/// after line until the file ends. Writing asks for the text, then opens the
/// file and appends the text as it was typed. The first failure ends the run:
/// only an answer that selects no mode is asked for again.
pub open spec fn transition(state: StateView, event: EventView) -> Option<(StateView, ActionView)> {
    match (state, event) {
        (StateView::Start, EventView::Args(args)) => if args.len() == 2 {
            Some((StateView::AwaitingMode { path: args[1] }, ask_mode(Notice::Nothing)))
        } else {
            Some(finish(Outcome::Usage))
        },
        (StateView::AwaitingMode { .. }, EventView::PromptFailed) => Some(
            finish(Outcome::PromptFailed),
        ),
        (StateView::AwaitingMode { .. }, EventView::InputFailed) => Some(
            finish(Outcome::InputFailed),
        ),
        (StateView::AwaitingMode { path }, EventView::Input(line)) => match mode_of(line) {
            Some(Mode::Read) => Some((StateView::OpeningForRead, ActionView::OpenForRead { path })),
            Some(Mode::Write) => Some((StateView::AwaitingText { path }, ActionView::AskText)),
            None => Some((state, ask_mode(Notice::InvalidInput))),
        },
        (StateView::OpeningForRead, EventView::Opened) => Some(
            (StateView::Reading, ActionView::ReadLine),
        ),
        (StateView::OpeningForRead, EventView::OpenFailed(kind)) => Some(
            finish(Outcome::OpenFailed { mode: Mode::Read, kind }),
        ),
        (StateView::Reading, EventView::Line(line)) => Some(
            (StateView::Reading, ActionView::Echo { line }),
        ),
        (StateView::Reading, EventView::EndOfFile) => Some(finish(Outcome::Printed)),
        (StateView::Reading, EventView::ReadFailed) => Some(finish(Outcome::ReadFailed)),
        (StateView::AwaitingText { .. }, EventView::PromptFailed) => Some(
            finish(Outcome::PromptFailed),
        ),
        (StateView::AwaitingText { .. }, EventView::InputFailed) => Some(
            finish(Outcome::InputFailed),
        ),
        (StateView::AwaitingText { path }, EventView::Input(text)) => Some(
            (StateView::OpeningForAppend { text }, ActionView::OpenForAppend { path }),
        ),
        (StateView::OpeningForAppend { text }, EventView::Opened) => Some(
            (StateView::Appending, ActionView::Append { text }),
        ),
        (StateView::OpeningForAppend { .. }, EventView::OpenFailed(kind)) => Some(
            finish(Outcome::OpenFailed { mode: Mode::Write, kind }),
        ),
        (StateView::Appending, EventView::Written) => Some(finish(Outcome::Written)),
        (StateView::Appending, EventView::WriteFailed(kind)) => Some(
            finish(Outcome::WriteFailed { kind }),
        ),
        _ => None,
    }
}

/// The action that asks for the mode after `notice`.
pub open spec fn ask_mode(notice: Notice) -> ActionView {
    ActionView::AskMode { notice }
}

/// The end of a run with `outcome`.
pub open spec fn finish(outcome: Outcome) -> (StateView, ActionView) {
    (StateView::Finished, ActionView::Exit { outcome })
}

/// Whether `step` is what `transition` gives for the views.
pub open spec fn step_matches(
    step: Option<(State, Action)>,
    expected: Option<(StateView, ActionView)>,
) -> bool {
    match step {
        Some((state, action)) => expected == Some((state@, action@)),
        None => expected is None,
    }
}

/// The end of a run with `outcome`.
fn finished(outcome: Outcome) -> (end: (State, Action))
    ensures
        (end.0@, end.1@) == finish(outcome),
{
    (State::Finished, Action::Exit { outcome })
}

/// Takes the run one step further: returns the state and the action that
/// follow when `event` is reported in `state`, or `None` when `event` is no
/// result of what `state` waits for.
pub fn step(state: State, event: Event) -> (next: Option<(State, Action)>)
    ensures
        step_matches(next, transition(state@, event@)),
{
    match state {
        State::Start => match event {
            Event::Args(args) => {
                if args.len() == 2 {
                    let path = args[1].clone();
                    Some((State::AwaitingMode { path }, Action::AskMode { notice: Notice::Nothing }))
                } else {
                    Some(finished(Outcome::Usage))
                }
            },
            _ => None,
        },
        State::AwaitingMode { path } => match event {
            Event::PromptFailed => Some(finished(Outcome::PromptFailed)),
            Event::InputFailed => Some(finished(Outcome::InputFailed)),
            Event::Input(line) => match parse_mode(line.as_str()) {
                Some(Mode::Read) => Some((State::OpeningForRead, Action::OpenForRead { path })),
                Some(Mode::Write) => Some((State::AwaitingText { path }, Action::AskText)),
                None => Some(
                    (State::AwaitingMode { path }, Action::AskMode { notice: Notice::InvalidInput }),
                ),
            },
            _ => None,
        },
        State::OpeningForRead => match event {
            Event::Opened => Some((State::Reading, Action::ReadLine)),
            Event::OpenFailed(kind) => Some(
                finished(Outcome::OpenFailed { mode: Mode::Read, kind }),
            ),
            _ => None,
        },
        State::Reading => match event {
            Event::Line(line) => Some((State::Reading, Action::Echo { line })),
            Event::EndOfFile => Some(finished(Outcome::Printed)),
            Event::ReadFailed => Some(finished(Outcome::ReadFailed)),
            _ => None,
        },
        State::AwaitingText { path } => match event {
            Event::PromptFailed => Some(finished(Outcome::PromptFailed)),
            Event::InputFailed => Some(finished(Outcome::InputFailed)),
            Event::Input(text) => Some(
                (State::OpeningForAppend { text }, Action::OpenForAppend { path }),
            ),
            _ => None,
        },
        State::OpeningForAppend { text } => match event {
            Event::Opened => Some((State::Appending, Action::Append { text })),
            Event::OpenFailed(kind) => Some(
                finished(Outcome::OpenFailed { mode: Mode::Write, kind }),
            ),
            _ => None,
        },
        State::Appending => match event {
            Event::Written => Some(finished(Outcome::Written)),
            Event::WriteFailed(kind) => Some(finished(Outcome::WriteFailed { kind })),
            _ => None,
        },
        State::Finished => None,
    }
}

} // verus!
