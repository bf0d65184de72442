//! Splitting a command string into the argument vector handed to the
//! external tool.
//!
//! Arguments are separated by spaces. A double quote opens or closes a quoted
//! span; inside one, spaces do not separate. The quote marks themselves are
//! not part of any argument, and an argument that comes out empty is dropped.
//! A quote left open at the end of the string is tolerated.

use vstd::prelude::*;
use crate::text::chars_of;

verus! {

/// Whether `c` is the double quote mark.
pub open spec fn is_quote(c: char) -> bool {
    c == '"'
}

/// Whether position `i` of `s` lies inside a quoted span: an odd number of
/// quote marks stand before it.
pub open spec fn quoted_at(s: Seq<char>, i: int) -> bool {
    s.take(i).filter(|c: char| is_quote(c)).len() % 2 == 1
}

/// Whether the character at `i` separates two arguments: a space outside any
/// quoted span.
pub open spec fn is_break(s: Seq<char>, i: int) -> bool {
    0 <= i < s.len() && s[i] == ' ' && !quoted_at(s, i)
}

/// The first break at or after `from`, or the length of `s` if there is none.
pub open spec fn next_break(s: Seq<char>, from: int) -> int
    decreases s.len() - from,
{
    if from >= s.len() {
        s.len() as int
    } else if is_break(s, from) {
        from
    } else {
        next_break(s, from + 1)
    }
}

/// A piece of the input without its quote marks.
pub open spec fn strip_quotes(piece: Seq<char>) -> Seq<char> {
    piece.filter(|c: char| !is_quote(c))
}

/// The arguments found from position `from` on, where `from` is the start of
/// the input or the position after a break.
pub open spec fn args_from(s: Seq<char>, from: int) -> Seq<Seq<char>>
    decreases s.len() - from,
{
    if from < 0 || from > s.len() {
        Seq::empty()
    } else {
        let end = next_break(s, from);
        let word = strip_quotes(s.subrange(from, end));
        let rest = if from <= end < s.len() {
            args_from(s, end + 1)
        } else {
            Seq::empty()
        };
        if word.len() > 0 {
            seq![word] + rest
        } else {
            rest
        }
    }
}

/// The argument vector of a command string.
pub open spec fn split_args(s: Seq<char>) -> Seq<Seq<char>> {
    args_from(s, 0)
}

/// The first break from `from` on lies between `from` and the end.
proof fn lemma_next_break_bounds(s: Seq<char>, from: int)
    requires
        0 <= from <= s.len(),
    ensures
        from <= next_break(s, from) <= s.len(),
    decreases s.len() - from,
{
    if from < s.len() && !is_break(s, from) {
        lemma_next_break_bounds(s, from + 1);
    }
}

/// With no break in `[from, at)`, the first break from `from` on is the first
/// from `at` on.
proof fn lemma_next_break_skips(s: Seq<char>, from: int, at: int)
    requires
        0 <= from <= at <= s.len(),
        forall|k: int| from <= k < at ==> !is_break(s, k),
    ensures
        next_break(s, from) == next_break(s, at),
    decreases at - from,
{
    if from < at {
        lemma_next_break_skips(s, from + 1, at);
    }
}

/// No position is quoted before any quote mark has been seen.
proof fn lemma_unquoted_at_start(s: Seq<char>)
    ensures
        !quoted_at(s, 0),
{
    assert(s.take(0) =~= Seq::empty());
    reveal(Seq::filter);
}

/// A quote mark at `i` flips whether the next position is quoted; any other
/// character leaves it as it is.
proof fn lemma_quoted_step(s: Seq<char>, i: int)
    requires
        0 <= i < s.len(),
    ensures
        quoted_at(s, i + 1) == (quoted_at(s, i) != is_quote(s[i])),
{
    assert(s.take(i + 1) =~= s.take(i).push(s[i]));
    s.take(i).lemma_filter_push(s[i], |c: char| is_quote(c));
}

/// An empty piece stays empty.
proof fn lemma_strip_nothing(s: Seq<char>, from: int)
    requires
        0 <= from <= s.len(),
    ensures
        strip_quotes(s.subrange(from, from)) == Seq::<char>::empty(),
{
    assert(s.subrange(from, from) =~= Seq::empty());
    reveal(Seq::filter);
}

/// A piece grown by one character grows by that character once stripped,
/// unless the character is a quote mark.
proof fn lemma_strip_step(s: Seq<char>, from: int, i: int)
    requires
        0 <= from <= i < s.len(),
    ensures
        strip_quotes(s.subrange(from, i + 1)) == if is_quote(s[i]) {
            strip_quotes(s.subrange(from, i))
        } else {
            strip_quotes(s.subrange(from, i)).push(s[i])
        },
{
    assert(s.subrange(from, i + 1) =~= s.subrange(from, i).push(s[i]));
    s.subrange(from, i).lemma_filter_push(s[i], |c: char| !is_quote(c));
}

/// Splits a command string into arguments: at spaces, except inside double
/// quotes; the quote marks are removed and empty arguments dropped.
pub fn parse_args(input: &str) -> (args: Vec<String>)
    ensures
        args.deep_view() == split_args(input@),
{
    let chars = chars_of(input);
    let mut args: Vec<String> = Vec::new();
    let mut current = String::new();
    let mut in_quotes = false;
    let ghost s = input@;
    let ghost start: int = 0;
    let mut i: usize = 0;
    proof {
        lemma_unquoted_at_start(s);
        lemma_strip_nothing(s, 0);
    }
    while i < chars.len()
        invariant
            chars@ == s,
            0 <= start <= i <= s.len(),
            in_quotes == quoted_at(s, i as int),
            current@ == strip_quotes(s.subrange(start, i as int)),
            forall|k: int| start <= k < i ==> !is_break(s, k),
            split_args(s) == args.deep_view() + args_from(s, start),
        decreases chars.len() - i,
    {
        let c = chars[i];
        proof {
            lemma_quoted_step(s, i as int);
            lemma_strip_step(s, start, i as int);
        }
        if c == '"' {
            in_quotes = !in_quotes;
        } else if c == ' ' && !in_quotes {
            proof {
                lemma_next_break_skips(s, start, i as int);
                assert(next_break(s, start) == i);
                lemma_strip_nothing(s, i + 1);
            }
            let ghost before = args.deep_view();
            if !current.as_str().is_empty() {
                args.push(current);
                assert(args.deep_view() =~= before.push(current@));
                current = String::new();
            }
            proof {
                start = i + 1;
            }
        } else {
            current.push(c);
        }
        i += 1;
    }
    proof {
        lemma_next_break_skips(s, start, s.len() as int);
    }
    let ghost before = args.deep_view();
    if !current.as_str().is_empty() {
        args.push(current);
        assert(args.deep_view() =~= before.push(current@));
    }
    args
}

/// No argument is empty and none holds a quote mark, whatever the command
/// string.
pub proof fn lemma_args_are_clean(s: Seq<char>)
    ensures
        forall|k: int|
            0 <= k < split_args(s).len() ==> (#[trigger] split_args(s)[k]).len() > 0
                && !split_args(s)[k].contains('"'),
{
    lemma_args_from_are_clean(s, 0);
}

proof fn lemma_args_from_are_clean(s: Seq<char>, from: int)
    requires
        0 <= from <= s.len(),
    ensures
        forall|k: int|
            0 <= k < args_from(s, from).len() ==> (#[trigger] args_from(s, from)[k]).len() > 0
                && !args_from(s, from)[k].contains('"'),
    decreases s.len() - from,
{
    lemma_next_break_bounds(s, from);
    let end = next_break(s, from);
    let piece = s.subrange(from, end);
    let word = strip_quotes(piece);
    let rest = if end < s.len() {
        args_from(s, end + 1)
    } else {
        Seq::empty()
    };
    if end < s.len() {
        lemma_args_from_are_clean(s, end + 1);
    }
    assert(!word.contains('"')) by {
        if word.contains('"') {
            let j = word.index_of('"');
            piece.lemma_filter_pred(|c: char| !is_quote(c), j);
        }
    }
    let found = args_from(s, from);
    assert forall|k: int| 0 <= k < found.len() implies (#[trigger] found[k]).len() > 0
        && !found[k].contains('"') by {
        if word.len() > 0 {
            assert(found == seq![word] + rest);
            if k > 0 {
                assert(found[k] == rest[k - 1]);
            }
        } else {
            assert(found == rest);
        }
    }
}

} // verus!
