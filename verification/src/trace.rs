//! Whole runs: what follows from the single steps.
//!
//! Everything here is stated of the views, so it holds of every caller that
//! reports what happened and carries out what it is asked to do.

use crate::mode::{mode_of, Mode};
use crate::outcome::{
    open_failure_code, write_failure_code, FailureKind, Outcome, EXIT_FAILURE, EXIT_NOT_FOUND,
    EXIT_PERMISSION_DENIED, EXIT_USAGE,
};
use crate::session::{transition, ActionView, EventView, Notice, StateView};
use vstd::prelude::*;
use vstd::utf8::encode_utf8;

verus! {

/// The state reached and the actions asked for when `events` are reported one
/// after another from `state` on. An event that is no result of what the state
/// waits for stops the run there.
pub open spec fn run(state: StateView, events: Seq<EventView>) -> (StateView, Seq<ActionView>)
    decreases events.len(),
{
    if events.len() == 0 {
        (state, Seq::empty())
    } else {
        match transition(state, events.first()) {
            Some((next, action)) => {
                let (end, actions) = run(next, events.drop_first());
                (end, seq![action] + actions)
            },
            None => (state, Seq::empty()),
        }
    }
}

/// Whether `action` opens, reads or writes the file.
pub open spec fn touches_file(action: ActionView) -> bool {
    !(action is AskMode || action is AskText || action is Exit)
}

/// Whether none of `actions` opens, reads or writes the file.
pub open spec fn none_touches_file(actions: Seq<ActionView>) -> bool {
    forall|i: int| 0 <= i < actions.len() ==> !touches_file(#[trigger] actions[i])
}

/// The lines that a caller prints when it carries out `actions`.
pub open spec fn echoed(actions: Seq<ActionView>) -> Seq<Seq<char>>
    decreases actions.len(),
{
    if actions.len() == 0 {
        Seq::empty()
    } else {
        match actions.first() {
            ActionView::Echo { line } => seq![line] + echoed(actions.drop_first()),
            _ => echoed(actions.drop_first()),
        }
    }
}

/// The bytes that the file holds when a caller has carried out `actions` in
/// full on a file that held `content`: each `Append` puts the bytes of its
/// text behind what is there, and no other action changes the file.
pub open spec fn file_after(content: Seq<u8>, actions: Seq<ActionView>) -> Seq<u8>
    decreases actions.len(),
{
    if actions.len() == 0 {
        content
    } else {
        match actions.first() {
            ActionView::Append { text } => file_after(
                content + encode_utf8(text),
                actions.drop_first(),
            ),
            _ => file_after(content, actions.drop_first()),
        }
    }
}

/// Whether `event` is an answer to the question for the mode that selects no
/// mode: a line that is neither `r` nor `w` once trimmed.
pub open spec fn selects_no_mode(event: EventView) -> bool {
    match event {
        EventView::Input(line) => mode_of(line) is None,
        _ => false,
    }
}

/// The events that take a run with the argument `path` up to the question for
/// the mode that follows the answers `refused`.
pub open spec fn start_events(
    program: Seq<char>,
    path: Seq<char>,
    refused: Seq<EventView>,
) -> Seq<EventView> {
    seq![EventView::Args(seq![program, path])] + refused
}

/// The first question for the mode and one more for each of `refused`.
pub open spec fn start_actions(refused: Seq<EventView>) -> Seq<ActionView> {
    seq![ActionView::AskMode { notice: Notice::Nothing }] + asked_again(refused)
}

/// The questions for the mode that follow the answers `refused`: one for each,
/// with the notice that the answer was invalid.
pub open spec fn asked_again(refused: Seq<EventView>) -> Seq<ActionView> {
    Seq::new(refused.len(), |i: int| ActionView::AskMode { notice: Notice::InvalidInput })
}

/// The events of a file that gives `lines` one after another.
pub open spec fn lines_given(lines: Seq<Seq<char>>) -> Seq<EventView> {
    lines.map_values(|line: Seq<char>| EventView::Line(line))
}

/// The actions that print `lines` one after another.
pub open spec fn lines_printed(lines: Seq<Seq<char>>) -> Seq<ActionView> {
    lines.map_values(|line: Seq<char>| ActionView::Echo { line })
}

/// The events of a file that is read to its end: one for each of `lines`,
/// then the end of the file.
pub open spec fn lines_read(lines: Seq<Seq<char>>) -> Seq<EventView> {
    lines_given(lines).push(EventView::EndOfFile)
}

/// The actions that print `lines` one after another and then end the run.
pub open spec fn lines_echoed(lines: Seq<Seq<char>>) -> Seq<ActionView> {
    lines_printed(lines).push(ActionView::Exit { outcome: Outcome::Printed })
}

/// The outcome of a run that ends because the console failed with `failure`,
/// which is a prompt that could not be shown or a line that could not be read.
pub open spec fn console_outcome(failure: EventView) -> Outcome {
    if failure is PromptFailed {
        Outcome::PromptFailed
    } else {
        Outcome::InputFailed
    }
}

/// The events of a run that reads: the answers `refused`, then `answer`, then
/// a file that opens and gives `lines`.
pub open spec fn read_events(
    program: Seq<char>,
    path: Seq<char>,
    refused: Seq<EventView>,
    answer: Seq<char>,
    lines: Seq<Seq<char>>,
) -> Seq<EventView> {
    start_events(program, path, refused) + seq![EventView::Input(answer), EventView::Opened]
        + lines_read(lines)
}

/// The actions of a run that reads `lines` from the file at `path`.
pub open spec fn read_actions(
    path: Seq<char>,
    refused: Seq<EventView>,
    lines: Seq<Seq<char>>,
) -> Seq<ActionView> {
    start_actions(refused) + seq![ActionView::OpenForRead { path }, ActionView::ReadLine]
        + lines_echoed(lines)
}

/// The events of a run that writes: the answers `refused`, then `answer`, then
/// `text`, then a file that opens and takes the text.
pub open spec fn write_events(
    program: Seq<char>,
    path: Seq<char>,
    refused: Seq<EventView>,
    answer: Seq<char>,
    text: Seq<char>,
) -> Seq<EventView> {
    start_events(program, path, refused) + seq![
        EventView::Input(answer),
        EventView::Input(text),
        EventView::Opened,
        EventView::Written,
    ]
}

/// The actions of a run that writes `text` to the file at `path`.
pub open spec fn write_actions(
    path: Seq<char>,
    refused: Seq<EventView>,
    text: Seq<char>,
) -> Seq<ActionView> {
    start_actions(refused) + seq![
        ActionView::AskText,
        ActionView::OpenForAppend { path },
        ActionView::Append { text },
        ActionView::Exit { outcome: Outcome::Written },
    ]
}

/// A run in two parts is the first part, and then the second part from where
/// the first one ended, unless the first part stopped early.
pub proof fn lemma_run_in_parts(state: StateView, first: Seq<EventView>, second: Seq<EventView>)
    ensures
        run(state, first).1.len() <= first.len(),
        run(state, first).1.len() == first.len() ==> run(state, first + second) == (
            run(run(state, first).0, second).0,
            run(state, first).1 + run(run(state, first).0, second).1,
        ),
        run(state, first).1.len() < first.len() ==> run(state, first + second) == run(
            state,
            first,
        ),
    decreases first.len(),
{
    if first.len() == 0 {
        assert(first + second =~= second);
        assert(Seq::<ActionView>::empty() + run(state, second).1 =~= run(state, second).1);
    } else {
        assert((first + second).first() == first.first());
        assert((first + second).drop_first() =~= first.drop_first() + second);
        match transition(state, first.first()) {
            Some((next, action)) => {
                lemma_run_in_parts(next, first.drop_first(), second);
                let head = run(next, first.drop_first());
                if head.1.len() == first.drop_first().len() {
                    let tail = run(head.0, second);
                    assert(seq![action] + (head.1 + tail.1) =~= (seq![action] + head.1) + tail.1);
                }
            },
            None => {},
        }
    }
}

/// What is printed by actions in two parts is what the first part prints and
/// then what the second part prints.
pub proof fn lemma_echoed_in_parts(first: Seq<ActionView>, second: Seq<ActionView>)
    ensures
        echoed(first + second) == echoed(first) + echoed(second),
    decreases first.len(),
{
    if first.len() == 0 {
        assert(first + second =~= second);
        assert(echoed(first) + echoed(second) =~= echoed(second));
    } else {
        assert((first + second).first() == first.first());
        assert((first + second).drop_first() =~= first.drop_first() + second);
        lemma_echoed_in_parts(first.drop_first(), second);
        let rest = echoed(first.drop_first());
        match first.first() {
            ActionView::Echo { line } => {
                assert(seq![line] + (rest + echoed(second)) =~= (seq![line] + rest) + echoed(
                    second,
                ));
            },
            _ => {},
        }
    }
}

/// What actions in two parts do to the file is what the second part does to
/// the file that the first part has left.
pub proof fn lemma_file_after_in_parts(
    content: Seq<u8>,
    first: Seq<ActionView>,
    second: Seq<ActionView>,
)
    ensures
        file_after(content, first + second) == file_after(file_after(content, first), second),
    decreases first.len(),
{
    if first.len() == 0 {
        assert(first + second =~= second);
    } else {
        assert((first + second).first() == first.first());
        assert((first + second).drop_first() =~= first.drop_first() + second);
        match first.first() {
            ActionView::Append { text } => {
                lemma_file_after_in_parts(
                    content + encode_utf8(text),
                    first.drop_first(),
                    second,
                );
            },
            _ => {
                lemma_file_after_in_parts(content, first.drop_first(), second);
            },
        }
    }
}

/// Actions without an `Echo` print nothing.
pub proof fn lemma_nothing_echoed(actions: Seq<ActionView>)
    requires
        forall|i: int| 0 <= i < actions.len() ==> !(#[trigger] actions[i] is Echo),
    ensures
        echoed(actions) == Seq::<Seq<char>>::empty(),
    decreases actions.len(),
{
    if actions.len() > 0 {
        assert(!(actions[0] is Echo));
        let rest = actions.drop_first();
        assert forall|i: int| 0 <= i < rest.len() implies !(#[trigger] rest[i] is Echo) by {
            assert(rest[i] == actions[i + 1]);
        }
        lemma_nothing_echoed(rest);
    }
}

/// Actions without an `Append` leave the file as it is.
pub proof fn lemma_nothing_appended(content: Seq<u8>, actions: Seq<ActionView>)
    requires
        forall|i: int| 0 <= i < actions.len() ==> !(#[trigger] actions[i] is Append),
    ensures
        file_after(content, actions) == content,
    decreases actions.len(),
{
    if actions.len() > 0 {
        assert(!(actions[0] is Append));
        let rest = actions.drop_first();
        assert forall|i: int| 0 <= i < rest.len() implies !(#[trigger] rest[i] is Append) by {
            assert(rest[i] == actions[i + 1]);
        }
        lemma_nothing_appended(content, rest);
    }
}

/// Once a run is over, no event is taken and nothing more is asked for.
pub proof fn lemma_nothing_follows_the_end(events: Seq<EventView>)
    ensures
        run(StateView::Finished, events) == (StateView::Finished, Seq::<ActionView>::empty()),
{
}

/// A run that is not started with exactly one argument ends at once with the
/// exit status for a wrong usage: no question is asked, the file is not
/// touched, and whatever is reported afterwards changes nothing.
pub proof fn lemma_wrong_argument_count_ends_run(args: Seq<Seq<char>>, later: Seq<EventView>)
    requires
        args.len() != 2,
    ensures
        run(StateView::Start, seq![EventView::Args(args)] + later) == (
            StateView::Finished,
            seq![ActionView::Exit { outcome: Outcome::Usage }],
        ),
        Outcome::Usage.code() == EXIT_USAGE,
        EXIT_USAGE == 4,
        none_touches_file(run(StateView::Start, seq![EventView::Args(args)] + later).1),
{
    let events = seq![EventView::Args(args)] + later;
    assert(events.first() == EventView::Args(args));
    lemma_nothing_follows_the_end(events.drop_first());
    assert(seq![ActionView::Exit { outcome: Outcome::Usage }] + Seq::<ActionView>::empty()
        =~= seq![ActionView::Exit { outcome: Outcome::Usage }]);
}

/// What follows an answer to the question for the mode: the file is opened
/// for reading exactly when the answer selects reading, the text is asked for
/// exactly when it selects writing, and in every other case the mode is asked
/// for again and the state stays as it is.
pub proof fn lemma_mode_decides_operation(path: Seq<char>, line: Seq<char>)
    ensures
        transition(StateView::AwaitingMode { path }, EventView::Input(line)) == Some(
            match mode_of(line) {
                Some(Mode::Read) => (StateView::OpeningForRead, ActionView::OpenForRead { path }),
                Some(Mode::Write) => (StateView::AwaitingText { path }, ActionView::AskText),
                None => (
                    StateView::AwaitingMode { path },
                    ActionView::AskMode { notice: Notice::InvalidInput },
                ),
            },
        ),
{
}

/// As long as no answer selects a mode, the mode is asked for again: after any
/// number of such answers the run still waits for the mode, it has asked once
/// more for each answer, and it has not touched the file.
pub proof fn lemma_refused_answers_ask_again(path: Seq<char>, refused: Seq<EventView>)
    requires
        forall|i: int| 0 <= i < refused.len() ==> selects_no_mode(#[trigger] refused[i]),
    ensures
        run(StateView::AwaitingMode { path }, refused) == (
            StateView::AwaitingMode { path },
            asked_again(refused),
        ),
        asked_again(refused).len() == refused.len(),
        forall|i: int|
            0 <= i < refused.len() ==> (#[trigger] asked_again(refused)[i]) is AskMode
                && !touches_file(asked_again(refused)[i]),
    decreases refused.len(),
{
    if refused.len() > 0 {
        assert(selects_no_mode(refused[0]));
        let rest = refused.drop_first();
        assert forall|i: int| 0 <= i < rest.len() implies selects_no_mode(#[trigger] rest[i]) by {
            assert(rest[i] == refused[i + 1]);
        }
        lemma_refused_answers_ask_again(path, rest);
        assert(seq![asked_again(refused).first()] + asked_again(rest) =~= asked_again(refused));
    } else {
        assert(asked_again(refused) =~= Seq::<ActionView>::empty());
    }
}

/// A run with one argument asks for the mode, and asks again after each answer
/// that selects none; it then waits for the next answer, with the argument as
/// the path of the file.
pub proof fn lemma_start_asks_for_mode(
    program: Seq<char>,
    path: Seq<char>,
    refused: Seq<EventView>,
)
    requires
        forall|i: int| 0 <= i < refused.len() ==> selects_no_mode(#[trigger] refused[i]),
    ensures
        run(StateView::Start, start_events(program, path, refused)) == (
            StateView::AwaitingMode { path },
            start_actions(refused),
        ),
        start_actions(refused).len() == start_events(program, path, refused).len(),
        none_touches_file(start_actions(refused)),
{
    let args = seq![EventView::Args(seq![program, path])];
    reveal_with_fuel(run, 2);
    assert(args.drop_first() =~= Seq::<EventView>::empty());
    assert(run(StateView::Start, args) == (
        StateView::AwaitingMode { path },
        seq![ActionView::AskMode { notice: Notice::Nothing }] + Seq::<ActionView>::empty(),
    ));
    assert(seq![ActionView::AskMode { notice: Notice::Nothing }] + Seq::<ActionView>::empty()
        =~= seq![ActionView::AskMode { notice: Notice::Nothing }]);
    lemma_refused_answers_ask_again(path, refused);
    lemma_run_in_parts(StateView::Start, args, refused);
}

/// Reading prints the file as it is: when the file gives `lines` and then
/// ends, the run echoes exactly these lines, each one unchanged and in its
/// place, and ends well.
pub proof fn lemma_reading_echoes_lines(lines: Seq<Seq<char>>)
    ensures
        run(StateView::Reading, lines_read(lines)) == (StateView::Finished, lines_echoed(lines)),
        lines_echoed(lines).len() == lines_read(lines).len(),
        echoed(lines_echoed(lines)) == lines,
    decreases lines.len(),
{
    let events = lines_read(lines);
    let actions = lines_echoed(lines);
    if lines.len() == 0 {
        lemma_nothing_follows_the_end(events.drop_first());
        assert(actions =~= seq![ActionView::Exit { outcome: Outcome::Printed }]
            + Seq::<ActionView>::empty());
        assert(echoed(actions.drop_first()) =~= lines);
    } else {
        let rest = lines.drop_first();
        lemma_reading_echoes_lines(rest);
        assert(events.first() == EventView::Line(lines.first()));
        assert(events.drop_first() =~= lines_read(rest));
        assert(actions.first() == ActionView::Echo { line: lines.first() });
        assert(actions.drop_first() =~= lines_echoed(rest));
        assert(actions =~= seq![actions.first()] + lines_echoed(rest));
        assert(lines =~= seq![lines.first()] + rest);
    }
}

/// A run that reads: once an answer selects reading and the file opens, the
/// run prints the lines that the file gives, all of them, unchanged and in
/// their order, and nothing else of the file; it leaves the file as it was
/// and ends well.
pub proof fn lemma_read_run(
    program: Seq<char>,
    path: Seq<char>,
    refused: Seq<EventView>,
    answer: Seq<char>,
    lines: Seq<Seq<char>>,
    content: Seq<u8>,
)
    requires
        forall|i: int| 0 <= i < refused.len() ==> selects_no_mode(#[trigger] refused[i]),
        mode_of(answer) == Some(Mode::Read),
    ensures
        run(StateView::Start, read_events(program, path, refused, answer, lines)) == (
            StateView::Finished,
            read_actions(path, refused, lines),
        ),
        echoed(read_actions(path, refused, lines)) == lines,
        file_after(content, read_actions(path, refused, lines)) == content,
        read_actions(path, refused, lines).last() == (ActionView::Exit {
            outcome: Outcome::Printed,
        }),
{
    let start = start_events(program, path, refused);
    let open = seq![EventView::Input(answer), EventView::Opened];
    let waiting = StateView::AwaitingMode { path };
    let opened = seq![ActionView::OpenForRead { path }, ActionView::ReadLine];
    lemma_start_asks_for_mode(program, path, refused);
    assert(run(waiting, open) == (StateView::Reading, opened)) by {
        reveal_with_fuel(run, 3);
        assert(open.drop_first() =~= seq![EventView::Opened]);
        assert(open.drop_first().drop_first() =~= Seq::<EventView>::empty());
        assert(run(waiting, open).1 =~= opened);
    }
    lemma_run_in_parts(StateView::Start, start, open);
    lemma_reading_echoes_lines(lines);
    lemma_run_in_parts(StateView::Start, start + open, lines_read(lines));

    let quiet = start_actions(refused) + opened;
    assert forall|i: int| 0 <= i < quiet.len() implies !(#[trigger] quiet[i] is Echo) && !(quiet[i] is Append) by {
        if i < start_actions(refused).len() {
            assert(quiet[i] == start_actions(refused)[i]);
        }
    }
    lemma_nothing_echoed(quiet);
    lemma_echoed_in_parts(quiet, lines_echoed(lines));
    assert(Seq::<Seq<char>>::empty() + lines =~= lines);
    lemma_nothing_appended(content, read_actions(path, refused, lines));
}

/// A run that writes: once an answer selects writing, the text is read, the
/// file opens and the write succeeds, the run has asked for one write, of the
/// text as it was typed; the file is what it was with the bytes of the text
/// behind it, and the run ends well.
pub proof fn lemma_write_run(
    program: Seq<char>,
    path: Seq<char>,
    refused: Seq<EventView>,
    answer: Seq<char>,
    text: Seq<char>,
    content: Seq<u8>,
)
    requires
        forall|i: int| 0 <= i < refused.len() ==> selects_no_mode(#[trigger] refused[i]),
        mode_of(answer) == Some(Mode::Write),
    ensures
        run(StateView::Start, write_events(program, path, refused, answer, text)) == (
            StateView::Finished,
            write_actions(path, refused, text),
        ),
        file_after(content, write_actions(path, refused, text)) == content + encode_utf8(text),
        echoed(write_actions(path, refused, text)) == Seq::<Seq<char>>::empty(),
        write_actions(path, refused, text).last() == (ActionView::Exit {
            outcome: Outcome::Written,
        }),
{
    let start = start_events(program, path, refused);
    let events = seq![
        EventView::Input(answer),
        EventView::Input(text),
        EventView::Opened,
        EventView::Written,
    ];
    let actions = seq![
        ActionView::AskText,
        ActionView::OpenForAppend { path },
        ActionView::Append { text },
        ActionView::Exit { outcome: Outcome::Written },
    ];
    let waiting = StateView::AwaitingMode { path };
    lemma_start_asks_for_mode(program, path, refused);
    assert(run(waiting, events) == (StateView::Finished, actions)) by {
        reveal_with_fuel(run, 5);
        assert(events.drop_first() =~= seq![
            EventView::Input(text),
            EventView::Opened,
            EventView::Written,
        ]);
        assert(events.drop_first().drop_first() =~= seq![EventView::Opened, EventView::Written]);
        assert(events.drop_first().drop_first().drop_first() =~= seq![EventView::Written]);
        assert(events.drop_first().drop_first().drop_first().drop_first() =~= Seq::<
            EventView,
        >::empty());
        assert(run(waiting, events).1 =~= actions);
    }
    lemma_run_in_parts(StateView::Start, start, events);

    lemma_writing_adds_text(content, path, refused, text);
    lemma_nothing_echoed(write_actions(path, refused, text));
}

/// The actions of a run that writes put the bytes of the text behind what
/// the file held, and change nothing else of it.
pub proof fn lemma_writing_adds_text(
    content: Seq<u8>,
    path: Seq<char>,
    refused: Seq<EventView>,
    text: Seq<char>,
)
    ensures
        file_after(content, write_actions(path, refused, text)) == content + encode_utf8(text),
{
    let asked = start_actions(refused);
    let actions = seq![
        ActionView::AskText,
        ActionView::OpenForAppend { path },
        ActionView::Append { text },
        ActionView::Exit { outcome: Outcome::Written },
    ];
    lemma_nothing_appended(content, asked);
    lemma_file_after_in_parts(content, asked, actions);
    reveal_with_fuel(file_after, 5);
    assert(actions.drop_first() =~= seq![
        ActionView::OpenForAppend { path },
        ActionView::Append { text },
        ActionView::Exit { outcome: Outcome::Written },
    ]);
    assert(actions.drop_first().drop_first() =~= seq![
        ActionView::Append { text },
        ActionView::Exit { outcome: Outcome::Written },
    ]);
    assert(actions.drop_first().drop_first().drop_first() =~= seq![
        ActionView::Exit { outcome: Outcome::Written },
    ]);
    assert(actions.drop_first().drop_first().drop_first().drop_first() =~= Seq::<
        ActionView,
    >::empty());
}

/// Nothing that a run asks for takes anything away from the file: what the
/// file held before is still there, at its beginning, after any actions.
pub proof fn lemma_content_is_kept(content: Seq<u8>, actions: Seq<ActionView>)
    ensures
        content.is_prefix_of(file_after(content, actions)),
    decreases actions.len(),
{
    if actions.len() > 0 {
        match actions.first() {
            ActionView::Append { text } => {
                lemma_content_is_kept(content + encode_utf8(text), actions.drop_first());
                let more = content + encode_utf8(text);
                let end = file_after(more, actions.drop_first());
                assert(content =~= more.subrange(0, content.len() as int));
                assert(content =~= end.subrange(0, content.len() as int));
            },
            _ => {
                lemma_content_is_kept(content, actions.drop_first());
            },
        }
    }
}

/// Writes accumulate: after two runs that write, one after the other, the
/// file is what it was with the bytes of the first text and then those of the
/// second text behind it.
pub proof fn lemma_repeated_writes_accumulate(
    content: Seq<u8>,
    first_path: Seq<char>,
    first_refused: Seq<EventView>,
    first_text: Seq<char>,
    second_path: Seq<char>,
    second_refused: Seq<EventView>,
    second_text: Seq<char>,
)
    ensures
        file_after(
            file_after(content, write_actions(first_path, first_refused, first_text)),
            write_actions(second_path, second_refused, second_text),
        ) == content + encode_utf8(first_text) + encode_utf8(second_text),
{
    lemma_writing_adds_text(content, first_path, first_refused, first_text);
    lemma_writing_adds_text(
        content + encode_utf8(first_text),
        second_path,
        second_refused,
        second_text,
    );
}

/// While the file gives lines, each one is echoed unchanged and in its
/// place, and the run goes on reading.
pub proof fn lemma_lines_are_echoed(lines: Seq<Seq<char>>)
    ensures
        run(StateView::Reading, lines_given(lines)) == (StateView::Reading, lines_printed(lines)),
        lines_printed(lines).len() == lines_given(lines).len(),
        echoed(lines_printed(lines)) == lines,
    decreases lines.len(),
{
    let events = lines_given(lines);
    let actions = lines_printed(lines);
    if lines.len() == 0 {
        assert(actions =~= Seq::<ActionView>::empty());
        assert(echoed(actions) =~= lines);
    } else {
        let rest = lines.drop_first();
        lemma_lines_are_echoed(rest);
        assert(events.first() == EventView::Line(lines.first()));
        assert(events.drop_first() =~= lines_given(rest));
        assert(actions.first() == ActionView::Echo { line: lines.first() });
        assert(actions.drop_first() =~= lines_printed(rest));
        assert(actions =~= seq![actions.first()] + lines_printed(rest));
        assert(lines =~= seq![lines.first()] + rest);
    }
}

/// A run that has come to its end with as many actions as events stays as it
/// is, whatever is reported afterwards.
pub proof fn lemma_ended_run_stays(
    state: StateView,
    events: Seq<EventView>,
    actions: Seq<ActionView>,
    later: Seq<EventView>,
)
    requires
        run(state, events) == (StateView::Finished, actions),
        actions.len() == events.len(),
    ensures
        run(state, events + later) == (StateView::Finished, actions),
{
    lemma_run_in_parts(state, events, later);
    lemma_nothing_follows_the_end(later);
    assert(actions + Seq::<ActionView>::empty() =~= actions);
}

/// A run that asks for the mode, is refused some answers, and then comes to
/// its end from the question for the mode with the events `rest`.
proof fn lemma_run_after_start(
    program: Seq<char>,
    path: Seq<char>,
    refused: Seq<EventView>,
    rest: Seq<EventView>,
    actions: Seq<ActionView>,
    later: Seq<EventView>,
)
    requires
        forall|i: int| 0 <= i < refused.len() ==> selects_no_mode(#[trigger] refused[i]),
        run(StateView::AwaitingMode { path }, rest) == (StateView::Finished, actions),
        actions.len() == rest.len(),
    ensures
        run(StateView::Start, start_events(program, path, refused) + rest + later) == (
            StateView::Finished,
            start_actions(refused) + actions,
        ),
{
    let start = start_events(program, path, refused);
    lemma_start_asks_for_mode(program, path, refused);
    lemma_run_in_parts(StateView::Start, start, rest);
    lemma_ended_run_stays(StateView::Start, start + rest, start_actions(refused) + actions, later);
}

/// A run ends at once, with the exit status for a failure, when the prompt
/// for the mode cannot be shown or the answer cannot be read: the mode is not
/// asked for again, the file is not touched, and whatever is reported
/// afterwards changes nothing.
pub proof fn lemma_console_failure_at_mode_ends_run(
    program: Seq<char>,
    path: Seq<char>,
    refused: Seq<EventView>,
    failure: EventView,
    later: Seq<EventView>,
)
    requires
        forall|i: int| 0 <= i < refused.len() ==> selects_no_mode(#[trigger] refused[i]),
        failure is PromptFailed || failure is InputFailed,
    ensures
        run(StateView::Start, start_events(program, path, refused) + seq![failure] + later) == (
            StateView::Finished,
            start_actions(refused) + seq![ActionView::Exit { outcome: console_outcome(failure) }],
        ),
        console_outcome(failure).code() == EXIT_FAILURE,
        EXIT_FAILURE == 1,
        none_touches_file(
            start_actions(refused) + seq![ActionView::Exit { outcome: console_outcome(failure) }],
        ),
{
    let rest = seq![failure];
    let actions = seq![ActionView::Exit { outcome: console_outcome(failure) }];
    assert(run(StateView::AwaitingMode { path }, rest) == (StateView::Finished, actions)) by {
        reveal_with_fuel(run, 2);
        assert(rest.drop_first() =~= Seq::<EventView>::empty());
        assert(run(StateView::AwaitingMode { path }, rest).1 =~= actions);
    }
    lemma_run_after_start(program, path, refused, rest, actions, later);
    lemma_start_asks_for_mode(program, path, refused);
}

/// A run that writes ends at once, with the exit status for a failure, when
/// the prompt for the text cannot be shown or the text cannot be read: the
/// file is not touched.
pub proof fn lemma_console_failure_at_text_ends_run(
    program: Seq<char>,
    path: Seq<char>,
    refused: Seq<EventView>,
    answer: Seq<char>,
    failure: EventView,
    later: Seq<EventView>,
)
    requires
        forall|i: int| 0 <= i < refused.len() ==> selects_no_mode(#[trigger] refused[i]),
        mode_of(answer) == Some(Mode::Write),
        failure is PromptFailed || failure is InputFailed,
    ensures
        run(
            StateView::Start,
            start_events(program, path, refused) + seq![EventView::Input(answer), failure] + later,
        ) == (
            StateView::Finished,
            start_actions(refused) + seq![
                ActionView::AskText,
                ActionView::Exit { outcome: console_outcome(failure) },
            ],
        ),
        console_outcome(failure).code() == EXIT_FAILURE,
        EXIT_FAILURE == 1,
        none_touches_file(
            start_actions(refused) + seq![
                ActionView::AskText,
                ActionView::Exit { outcome: console_outcome(failure) },
            ],
        ),
{
    let rest = seq![EventView::Input(answer), failure];
    let actions = seq![
        ActionView::AskText,
        ActionView::Exit { outcome: console_outcome(failure) },
    ];
    assert(run(StateView::AwaitingMode { path }, rest) == (StateView::Finished, actions)) by {
        reveal_with_fuel(run, 3);
        assert(rest.drop_first() =~= seq![failure]);
        assert(rest.drop_first().drop_first() =~= Seq::<EventView>::empty());
        assert(run(StateView::AwaitingMode { path }, rest).1 =~= actions);
    }
    lemma_run_after_start(program, path, refused, rest, actions, later);
    lemma_start_asks_for_mode(program, path, refused);
}

/// A run that reads a file that cannot be opened ends with the exit status
/// for the kind of the failure, two for a file that does not exist and three
/// for a denied access; it prints nothing of the file and leaves it as it
/// was.
pub proof fn lemma_failed_open_ends_read_run(
    program: Seq<char>,
    path: Seq<char>,
    refused: Seq<EventView>,
    answer: Seq<char>,
    kind: FailureKind,
    later: Seq<EventView>,
    content: Seq<u8>,
)
    requires
        forall|i: int| 0 <= i < refused.len() ==> selects_no_mode(#[trigger] refused[i]),
        mode_of(answer) == Some(Mode::Read),
    ensures
        run(
            StateView::Start,
            start_events(program, path, refused) + seq![
                EventView::Input(answer),
                EventView::OpenFailed(kind),
            ] + later,
        ) == (
            StateView::Finished,
            start_actions(refused) + seq![
                ActionView::OpenForRead { path },
                ActionView::Exit { outcome: Outcome::OpenFailed { mode: Mode::Read, kind } },
            ],
        ),
        (Outcome::OpenFailed { mode: Mode::Read, kind }).code() == open_failure_code(kind),
        kind is NotFound ==> open_failure_code(kind) == EXIT_NOT_FOUND && EXIT_NOT_FOUND == 2,
        kind is PermissionDenied ==> open_failure_code(kind) == EXIT_PERMISSION_DENIED
            && EXIT_PERMISSION_DENIED == 3,
        kind is Other ==> open_failure_code(kind) == EXIT_FAILURE && EXIT_FAILURE == 1,
        echoed(
            start_actions(refused) + seq![
                ActionView::OpenForRead { path },
                ActionView::Exit { outcome: Outcome::OpenFailed { mode: Mode::Read, kind } },
            ],
        ) == Seq::<Seq<char>>::empty(),
        file_after(
            content,
            start_actions(refused) + seq![
                ActionView::OpenForRead { path },
                ActionView::Exit { outcome: Outcome::OpenFailed { mode: Mode::Read, kind } },
            ],
        ) == content,
{
    let rest = seq![EventView::Input(answer), EventView::OpenFailed(kind)];
    let actions = seq![
        ActionView::OpenForRead { path },
        ActionView::Exit { outcome: Outcome::OpenFailed { mode: Mode::Read, kind } },
    ];
    assert(run(StateView::AwaitingMode { path }, rest) == (StateView::Finished, actions)) by {
        reveal_with_fuel(run, 3);
        assert(rest.drop_first() =~= seq![EventView::OpenFailed(kind)]);
        assert(rest.drop_first().drop_first() =~= Seq::<EventView>::empty());
        assert(run(StateView::AwaitingMode { path }, rest).1 =~= actions);
    }
    lemma_run_after_start(program, path, refused, rest, actions, later);
    lemma_start_asks_for_mode(program, path, refused);
    lemma_nothing_echoed(start_actions(refused) + actions);
    lemma_nothing_appended(content, start_actions(refused) + actions);
}

/// A run that writes to a file that cannot be opened ends with the exit
/// status for the kind of the failure, two where the way to the file does not
/// exist and three for a denied access; it asks for no write and leaves the
/// file as it was.
pub proof fn lemma_failed_open_ends_write_run(
    program: Seq<char>,
    path: Seq<char>,
    refused: Seq<EventView>,
    answer: Seq<char>,
    text: Seq<char>,
    kind: FailureKind,
    later: Seq<EventView>,
    content: Seq<u8>,
)
    requires
        forall|i: int| 0 <= i < refused.len() ==> selects_no_mode(#[trigger] refused[i]),
        mode_of(answer) == Some(Mode::Write),
    ensures
        run(
            StateView::Start,
            start_events(program, path, refused) + seq![
                EventView::Input(answer),
                EventView::Input(text),
                EventView::OpenFailed(kind),
            ] + later,
        ) == (
            StateView::Finished,
            start_actions(refused) + seq![
                ActionView::AskText,
                ActionView::OpenForAppend { path },
                ActionView::Exit { outcome: Outcome::OpenFailed { mode: Mode::Write, kind } },
            ],
        ),
        (Outcome::OpenFailed { mode: Mode::Write, kind }).code() == open_failure_code(kind),
        kind is NotFound ==> open_failure_code(kind) == EXIT_NOT_FOUND && EXIT_NOT_FOUND == 2,
        kind is PermissionDenied ==> open_failure_code(kind) == EXIT_PERMISSION_DENIED
            && EXIT_PERMISSION_DENIED == 3,
        kind is Other ==> open_failure_code(kind) == EXIT_FAILURE && EXIT_FAILURE == 1,
        file_after(
            content,
            start_actions(refused) + seq![
                ActionView::AskText,
                ActionView::OpenForAppend { path },
                ActionView::Exit { outcome: Outcome::OpenFailed { mode: Mode::Write, kind } },
            ],
        ) == content,
{
    let rest = seq![
        EventView::Input(answer),
        EventView::Input(text),
        EventView::OpenFailed(kind),
    ];
    let actions = seq![
        ActionView::AskText,
        ActionView::OpenForAppend { path },
        ActionView::Exit { outcome: Outcome::OpenFailed { mode: Mode::Write, kind } },
    ];
    assert(run(StateView::AwaitingMode { path }, rest) == (StateView::Finished, actions)) by {
        reveal_with_fuel(run, 4);
        assert(rest.drop_first() =~= seq![EventView::Input(text), EventView::OpenFailed(kind)]);
        assert(rest.drop_first().drop_first() =~= seq![EventView::OpenFailed(kind)]);
        assert(rest.drop_first().drop_first().drop_first() =~= Seq::<EventView>::empty());
        assert(run(StateView::AwaitingMode { path }, rest).1 =~= actions);
    }
    lemma_run_after_start(program, path, refused, rest, actions, later);
    lemma_start_asks_for_mode(program, path, refused);
    lemma_nothing_appended(content, start_actions(refused) + actions);
}

/// A run that reads a file that fails after it has given `lines` has printed
/// exactly these lines, unchanged and in their order, and ends with the exit
/// status for a failure; it leaves the file as it was.
pub proof fn lemma_failed_read_ends_read_run(
    program: Seq<char>,
    path: Seq<char>,
    refused: Seq<EventView>,
    answer: Seq<char>,
    lines: Seq<Seq<char>>,
    later: Seq<EventView>,
    content: Seq<u8>,
)
    requires
        forall|i: int| 0 <= i < refused.len() ==> selects_no_mode(#[trigger] refused[i]),
        mode_of(answer) == Some(Mode::Read),
    ensures
        run(
            StateView::Start,
            start_events(program, path, refused) + (seq![
                EventView::Input(answer),
                EventView::Opened,
            ] + lines_given(lines) + seq![EventView::ReadFailed]) + later,
        ) == (
            StateView::Finished,
            start_actions(refused) + (seq![ActionView::OpenForRead { path }, ActionView::ReadLine]
                + lines_printed(lines) + seq![ActionView::Exit { outcome: Outcome::ReadFailed }]),
        ),
        Outcome::ReadFailed.code() == EXIT_FAILURE,
        EXIT_FAILURE == 1,
        echoed(
            start_actions(refused) + (seq![ActionView::OpenForRead { path }, ActionView::ReadLine]
                + lines_printed(lines) + seq![ActionView::Exit { outcome: Outcome::ReadFailed }]),
        ) == lines,
        file_after(
            content,
            start_actions(refused) + (seq![ActionView::OpenForRead { path }, ActionView::ReadLine]
                + lines_printed(lines) + seq![ActionView::Exit { outcome: Outcome::ReadFailed }]),
        ) == content,
{
    let waiting = StateView::AwaitingMode { path };
    let open = seq![EventView::Input(answer), EventView::Opened];
    let opened = seq![ActionView::OpenForRead { path }, ActionView::ReadLine];
    let fail = seq![EventView::ReadFailed];
    let failed = seq![ActionView::Exit { outcome: Outcome::ReadFailed }];
    assert(run(waiting, open) == (StateView::Reading, opened)) by {
        reveal_with_fuel(run, 3);
        assert(open.drop_first() =~= seq![EventView::Opened]);
        assert(open.drop_first().drop_first() =~= Seq::<EventView>::empty());
        assert(run(waiting, open).1 =~= opened);
    }
    assert(run(StateView::Reading, fail) == (StateView::Finished, failed)) by {
        reveal_with_fuel(run, 2);
        assert(fail.drop_first() =~= Seq::<EventView>::empty());
        assert(run(StateView::Reading, fail).1 =~= failed);
    }
    lemma_lines_are_echoed(lines);
    lemma_run_in_parts(waiting, open, lines_given(lines));
    lemma_run_in_parts(waiting, open + lines_given(lines), fail);
    let actions = opened + lines_printed(lines) + failed;
    lemma_run_after_start(program, path, refused, open + lines_given(lines) + fail, actions, later);

    lemma_start_asks_for_mode(program, path, refused);
    let all = start_actions(refused) + actions;
    lemma_nothing_appended(content, all);
    lemma_nothing_echoed(start_actions(refused));
    lemma_nothing_echoed(opened);
    lemma_nothing_echoed(failed);
    lemma_echoed_in_parts(start_actions(refused), actions);
    lemma_echoed_in_parts(opened + lines_printed(lines), failed);
    lemma_echoed_in_parts(opened, lines_printed(lines));
    assert(echoed(all) =~= lines);
}

/// A run that writes to a file that opens but does not take the text has
/// asked for one write, of the text as it was typed, and ends with the exit
/// status for the kind of the failure: three for a denied access, one for
/// any other.
pub proof fn lemma_failed_write_ends_write_run(
    program: Seq<char>,
    path: Seq<char>,
    refused: Seq<EventView>,
    answer: Seq<char>,
    text: Seq<char>,
    kind: FailureKind,
    later: Seq<EventView>,
)
    requires
        forall|i: int| 0 <= i < refused.len() ==> selects_no_mode(#[trigger] refused[i]),
        mode_of(answer) == Some(Mode::Write),
    ensures
        run(
            StateView::Start,
            start_events(program, path, refused) + seq![
                EventView::Input(answer),
                EventView::Input(text),
                EventView::Opened,
                EventView::WriteFailed(kind),
            ] + later,
        ) == (
            StateView::Finished,
            start_actions(refused) + seq![
                ActionView::AskText,
                ActionView::OpenForAppend { path },
                ActionView::Append { text },
                ActionView::Exit { outcome: Outcome::WriteFailed { kind } },
            ],
        ),
        (Outcome::WriteFailed { kind }).code() == write_failure_code(kind),
        kind is PermissionDenied ==> write_failure_code(kind) == EXIT_PERMISSION_DENIED
            && EXIT_PERMISSION_DENIED == 3,
        !(kind is PermissionDenied) ==> write_failure_code(kind) == EXIT_FAILURE
            && EXIT_FAILURE == 1,
{
    let rest = seq![
        EventView::Input(answer),
        EventView::Input(text),
        EventView::Opened,
        EventView::WriteFailed(kind),
    ];
    let actions = seq![
        ActionView::AskText,
        ActionView::OpenForAppend { path },
        ActionView::Append { text },
        ActionView::Exit { outcome: Outcome::WriteFailed { kind } },
    ];
    assert(run(StateView::AwaitingMode { path }, rest) == (StateView::Finished, actions)) by {
        reveal_with_fuel(run, 5);
        assert(rest.drop_first() =~= seq![
            EventView::Input(text),
            EventView::Opened,
            EventView::WriteFailed(kind),
        ]);
        assert(rest.drop_first().drop_first() =~= seq![
            EventView::Opened,
            EventView::WriteFailed(kind),
        ]);
        assert(rest.drop_first().drop_first().drop_first() =~= seq![EventView::WriteFailed(kind)]);
        assert(rest.drop_first().drop_first().drop_first().drop_first() =~= Seq::<
            EventView,
        >::empty());
        assert(run(StateView::AwaitingMode { path }, rest).1 =~= actions);
    }
    lemma_run_after_start(program, path, refused, rest, actions, later);
}

} // verus!
