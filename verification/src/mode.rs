//! The two modes of the tool and the answers that select them.

use crate::text::{
    all_white_space, is_white_space, lemma_trimmed_between, lemma_trimmed_cuts, trim, trimmed,
};
use vstd::prelude::*;

verus! {

/// What the tool does with the file.
#[derive(Clone, Copy, Debug, PartialEq, Eq, Structural)]
pub enum Mode {
    /// Print the file, line by line.
    Read,
    /// Append one line of typed text to the file.
    Write,
}

/// The mode that a line of input selects: `r` selects reading and `w` selects
/// writing, with any white space around the letter; nothing else selects a
/// mode.
pub open spec fn mode_of(line: Seq<char>) -> Option<Mode> {
    let token = trimmed(line);
    if token == seq!['r'] {
        Some(Mode::Read)
    } else if token == seq!['w'] {
        Some(Mode::Write)
    } else {
        None
    }
}

/// Whether `line` is `letter` with nothing but white space around it.
pub open spec fn is_letter_in_white_space(line: Seq<char>, letter: char) -> bool {
    exists|at: int|
        0 <= at < line.len() && #[trigger] line[at] == letter && all_white_space(
            line.subrange(0, at),
        ) && all_white_space(line.subrange(at + 1, line.len() as int))
}

/// A line selects reading exactly when it is an `r` with nothing but white
/// space around it, and writing exactly when it is such a `w`.
pub proof fn lemma_mode_of_line(line: Seq<char>)
    ensures
        mode_of(line) == Some(Mode::Read) <==> is_letter_in_white_space(line, 'r'),
        mode_of(line) == Some(Mode::Write) <==> is_letter_in_white_space(line, 'w'),
        mode_of(line) is None <==> !is_letter_in_white_space(line, 'r')
            && !is_letter_in_white_space(line, 'w'),
{
    lemma_token_is_letter(line, 'r');
    lemma_token_is_letter(line, 'w');
    assert(seq!['r'][0] != seq!['w'][0]);
}

/// What is left of a line is one letter exactly when the line is that letter
/// with nothing but white space around it.
proof fn lemma_token_is_letter(line: Seq<char>, letter: char)
    requires
        !is_white_space(letter),
    ensures
        trimmed(line) == seq![letter] <==> is_letter_in_white_space(line, letter),
{
    if trimmed(line) == seq![letter] {
        let (from, to) = lemma_trimmed_cuts(line);
        assert(line.subrange(from, to).len() == 1);
        assert(line.subrange(from, to)[0] == letter);
        assert(line[from] == letter);
    }
    if is_letter_in_white_space(line, letter) {
        let at = choose|at: int|
            0 <= at < line.len() && #[trigger] line[at] == letter && all_white_space(
                line.subrange(0, at),
            ) && all_white_space(line.subrange(at + 1, line.len() as int));
        let before = line.subrange(0, at);
        let after = line.subrange(at + 1, line.len() as int);
        assert(line =~= before + seq![letter] + after);
        lemma_trimmed_between(before, seq![letter], after);
    }
}

/// The mode that `line` selects, if it selects one.
pub fn parse_mode(line: &str) -> (mode: Option<Mode>)
    ensures
        mode == mode_of(line@),
{
    let token = trim(line);
    if token.unicode_len() != 1 {
        return None;
    }
    let letter = token.get_char(0);
    if letter == 'r' {
        assert(token@ =~= seq!['r']);
        Some(Mode::Read)
    } else if letter == 'w' {
        assert(token@ =~= seq!['w']);
        Some(Mode::Write)
    } else {
        None
    }
}

} // verus!
