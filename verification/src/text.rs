//! White space at the ends of a line of input.

use vstd::prelude::*;

verus! {

/// Whether `c` is white space: one of the 25 code points that carry the
/// Unicode property `White_Space`.
pub open spec fn is_white_space(c: char) -> bool {
    let n = c as u32;
    ||| 0x0009 <= n <= 0x000D
    ||| n == 0x0020
    ||| n == 0x0085
    ||| n == 0x00A0
    ||| n == 0x1680
    ||| 0x2000 <= n <= 0x200A
    ||| n == 0x2028
    ||| n == 0x2029
    ||| n == 0x202F
    ||| n == 0x205F
    ||| n == 0x3000
}

/// `s` without the white space it starts with.
pub open spec fn trim_start(s: Seq<char>) -> Seq<char>
    decreases s.len(),
{
    if s.len() > 0 && is_white_space(s.first()) {
        trim_start(s.drop_first())
    } else {
        s
    }
}

/// `s` without the white space it ends with.
pub open spec fn trim_end(s: Seq<char>) -> Seq<char>
    decreases s.len(),
{
    if s.len() > 0 && is_white_space(s.last()) {
        trim_end(s.drop_last())
    } else {
        s
    }
}

/// `s` without the white space at either end.
pub open spec fn trimmed(s: Seq<char>) -> Seq<char> {
    trim_end(trim_start(s))
}

/// Whether `s` holds nothing but white space.
pub open spec fn all_white_space(s: Seq<char>) -> bool {
    forall|i: int| 0 <= i < s.len() ==> is_white_space(#[trigger] s[i])
}

/// Trimming white space at the start leaves what follows it.
pub proof fn lemma_trim_start_skips(before: Seq<char>, rest: Seq<char>)
    requires
        all_white_space(before),
    ensures
        trim_start(before + rest) == trim_start(rest),
    decreases before.len(),
{
    if before.len() == 0 {
        assert(before + rest =~= rest);
    } else {
        assert(is_white_space(before[0]));
        assert((before + rest).first() == before[0]);
        assert((before + rest).drop_first() =~= before.drop_first() + rest);
        assert forall|i: int| 0 <= i < before.drop_first().len() implies is_white_space(
            #[trigger] before.drop_first()[i],
        ) by {
            assert(before.drop_first()[i] == before[i + 1]);
        }
        lemma_trim_start_skips(before.drop_first(), rest);
    }
}

/// Trimming white space at the end leaves what stands before it.
pub proof fn lemma_trim_end_skips(rest: Seq<char>, after: Seq<char>)
    requires
        all_white_space(after),
    ensures
        trim_end(rest + after) == trim_end(rest),
    decreases after.len(),
{
    if after.len() == 0 {
        assert(rest + after =~= rest);
    } else {
        assert(is_white_space(after[after.len() - 1]));
        assert((rest + after).last() == after.last());
        assert((rest + after).drop_last() =~= rest + after.drop_last());
        assert forall|i: int| 0 <= i < after.drop_last().len() implies is_white_space(
            #[trigger] after.drop_last()[i],
        ) by {
            assert(after.drop_last()[i] == after[i]);
        }
        lemma_trim_end_skips(rest, after.drop_last());
    }
}

/// Trimming leaves what stands between the white space at the two ends: a
/// text that neither starts nor ends with white space is what is left of it
/// with any white space before and after it.
pub proof fn lemma_trimmed_between(before: Seq<char>, token: Seq<char>, after: Seq<char>)
    requires
        all_white_space(before),
        all_white_space(after),
        token.len() > 0 ==> !is_white_space(token.first()) && !is_white_space(token.last()),
    ensures
        trimmed(before + token + after) == token,
{
    assert(before + token + after =~= before + (token + after));
    lemma_trim_start_skips(before, token + after);
    if token.len() == 0 {
        assert(token + after =~= Seq::<char>::empty() + after);
        lemma_trim_start_skips(after, Seq::<char>::empty());
        assert(after + Seq::<char>::empty() =~= after);
        assert(trimmed(before + token + after) =~= token);
    } else {
        assert((token + after).first() == token.first());
        lemma_trim_end_skips(token, after);
    }
}

/// Where trimming cuts: returns the two positions between which `s` is left.
/// Before the first and from the second on there is nothing but white space,
/// and what is left neither starts nor ends with white space.
pub proof fn lemma_trimmed_cuts(s: Seq<char>) -> (ends: (int, int))
    ensures
        0 <= ends.0 <= ends.1 <= s.len(),
        trimmed(s) == s.subrange(ends.0, ends.1),
        all_white_space(s.subrange(0, ends.0)),
        all_white_space(s.subrange(ends.1, s.len() as int)),
        ends.0 < ends.1 ==> !is_white_space(s[ends.0]) && !is_white_space(s[ends.1 - 1]),
{
    let from = lemma_trim_start_cuts(s);
    let rest = s.subrange(from, s.len() as int);
    let len = lemma_trim_end_cuts(rest);
    let to = from + len;
    assert(rest.subrange(0, len) =~= s.subrange(from, to));
    assert forall|i: int| 0 <= i < s.len() - to implies is_white_space(
        #[trigger] s.subrange(to, s.len() as int)[i],
    ) by {
        assert(s.subrange(to, s.len() as int)[i] == rest.subrange(len, rest.len() as int)[i]);
    }
    if from < to {
        assert(rest[len - 1] == s[to - 1]);
    }
    (from, to)
}

/// Where trimming at the start cuts: returns the position of the first
/// character that is left, or the length of `s` if none is.
proof fn lemma_trim_start_cuts(s: Seq<char>) -> (from: int)
    ensures
        0 <= from <= s.len(),
        trim_start(s) == s.subrange(from, s.len() as int),
        all_white_space(s.subrange(0, from)),
        from < s.len() ==> !is_white_space(s[from]),
    decreases s.len(),
{
    if s.len() > 0 && is_white_space(s.first()) {
        let rest = s.drop_first();
        let from = lemma_trim_start_cuts(rest);
        assert(rest.subrange(from, rest.len() as int) =~= s.subrange(from + 1, s.len() as int));
        assert forall|i: int| 0 <= i < from + 1 implies is_white_space(
            #[trigger] s.subrange(0, from + 1)[i],
        ) by {
            if i > 0 {
                assert(s.subrange(0, from + 1)[i] == rest.subrange(0, from)[i - 1]);
            }
        }
        if from < rest.len() {
            assert(rest[from] == s[from + 1]);
        }
        from + 1
    } else {
        assert(s.subrange(0, s.len() as int) =~= s);
        0
    }
}

/// Where trimming at the end cuts: returns the position behind the last
/// character that is left, or zero if none is.
proof fn lemma_trim_end_cuts(s: Seq<char>) -> (to: int)
    ensures
        0 <= to <= s.len(),
        trim_end(s) == s.subrange(0, to),
        all_white_space(s.subrange(to, s.len() as int)),
        0 < to ==> !is_white_space(s[to - 1]),
    decreases s.len(),
{
    if s.len() > 0 && is_white_space(s.last()) {
        let rest = s.drop_last();
        let to = lemma_trim_end_cuts(rest);
        assert(rest.subrange(0, to) =~= s.subrange(0, to));
        assert forall|i: int| 0 <= i < s.len() - to implies is_white_space(
            #[trigger] s.subrange(to, s.len() as int)[i],
        ) by {
            if i < rest.len() - to {
                assert(s.subrange(to, s.len() as int)[i] == rest.subrange(
                    to,
                    rest.len() as int,
                )[i]);
            }
        }
        if 0 < to {
            assert(rest[to - 1] == s[to - 1]);
        }
        to
    } else {
        assert(s.subrange(0, s.len() as int) =~= s);
        s.len() as int
    }
}

/// Calls `str::trim`, which returns the part of `s` that is left when the
/// leading and the trailing white space are removed, white space being the
/// characters with the Unicode property `White_Space`. Not proved: that this is
/// `trimmed` of the characters of `s`.
#[verifier::external_body]
pub(crate) fn trim<'a>(s: &'a str) -> (t: &'a str)
    ensures
        t@ == trimmed(s@),
{
    s.trim()
}

} // verus!
