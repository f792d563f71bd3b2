//! What a client shows of a log file before it follows it: its last lines.

use crate::text::prefixed;
use vstd::prelude::*;
use vstd::std_specs::iter::IteratorSpec;
use vstd::string::StrSliceExecFns;

verus! {

broadcast use vstd::string::group_string_axioms;

/// How many lines of a log are shown before the log is followed.
pub const HISTORY_LINES: usize = 100;

/// How many characters stand at the front of `text` before the first line
/// feed.
pub open spec fn line_len(text: Seq<char>) -> nat
    decreases text.len(),
{
    if text.len() == 0 || text[0] == '\n' {
        0
    } else {
        1 + line_len(text.drop_first())
    }
}

/// A line without the carriage return that may end it.
pub open spec fn without_cr(line: Seq<char>) -> Seq<char> {
    if line.len() > 0 && line.last() == '\r' {
        line.drop_last()
    } else {
        line
    }
}

/// The lines of `text`. A line ends with a line feed, or with a carriage
/// return and a line feed, neither of which belongs to it; what follows the
/// last line feed is a line too, as it stands, unless it is empty.
pub open spec fn lines_of(text: Seq<char>) -> Seq<Seq<char>>
    decreases text.len(),
    via lines_of_decreases
{
    if text.len() == 0 {
        Seq::empty()
    } else {
        let n = line_len(text) as int;
        if n == text.len() {
            seq![text]
        } else {
            seq![without_cr(text.take(n))] + lines_of(text.skip(n + 1))
        }
    }
}

/// The last `HISTORY_LINES` of `lines`, or all of them where they are fewer.
pub open spec fn last_lines(lines: Seq<Seq<char>>) -> Seq<Seq<char>> {
    if lines.len() > HISTORY_LINES {
        lines.skip(lines.len() - HISTORY_LINES)
    } else {
        lines
    }
}

/// The first line of a text is no longer than the text.
pub proof fn lemma_line_len_bound(text: Seq<char>)
    ensures
        line_len(text) <= text.len(),
    decreases text.len(),
{
    if text.len() > 0 && text[0] != '\n' {
        lemma_line_len_bound(text.drop_first());
    }
}

#[via_fn]
proof fn lines_of_decreases(text: Seq<char>) {
    lemma_line_len_bound(text);
}

/// A run of `k` characters without a line feed, followed by a line feed or
/// by the end of the text, is the first line of the text.
proof fn lemma_line_len(text: Seq<char>, k: int)
    requires
        0 <= k <= text.len(),
        forall|j: int| 0 <= j < k ==> #[trigger] text[j] != '\n',
        k == text.len() || text[k] == '\n',
    ensures
        line_len(text) == k,
    decreases k,
{
    if k > 0 {
        let rest = text.drop_first();
        assert forall|j: int| 0 <= j < k - 1 implies #[trigger] rest[j] != '\n' by {
            assert(rest[j] == text[j + 1]);
        }
        lemma_line_len(rest, k - 1);
    }
}

/// The lines of `text`, each as a string of its own.
pub fn lines(text: &str) -> (list: Vec<String>)
    ensures
        list@.len() == lines_of(text@).len(),
        forall|i: int| 0 <= i < list@.len() ==> (#[trigger] list@[i])@ == lines_of(text@)[i],
{
    let mut list: Vec<String> = Vec::new();
    let ghost mut found: Seq<Seq<char>> = Seq::empty();
    let mut start: usize = 0;
    let mut at: usize = 0;
    let mut after_cr = false;
    let len = text.unicode_len();
    proof {
        assert(text@.skip(0) == text@);
        assert(found + lines_of(text@) == lines_of(text@));
    }
    for c in it: text.chars()
        invariant
            it.seq() == text@,
            len == text@.len(),
            at == it.index(),
            start <= at <= len,
            forall|j: int| start <= j < at ==> #[trigger] text@[j] != '\n',
            after_cr == (start < at && text@[at - 1] == '\r'),
            list@.len() == found.len(),
            forall|i: int| 0 <= i < list@.len() ==> (#[trigger] list@[i])@ == found[i],
            lines_of(text@) == found + lines_of(text@.skip(start as int)),
    {
        assert(c == text@[at as int]);
        if c == '\n' {
            let ghost tail = text@.skip(start as int);
            let end = if after_cr {
                at - 1
            } else {
                at
            };
            let line = text.substring_char(start, end);
            proof {
                assert forall|j: int| 0 <= j < at - start implies #[trigger] tail[j] != '\n' by {
                    assert(tail[j] == text@[start + j]);
                }
                assert(tail[at - start] == text@[at as int]);
                lemma_line_len(tail, at - start);
                let whole = tail.take(at - start);
                assert(whole == text@.subrange(start as int, at as int));
                if after_cr {
                    assert(whole.last() == text@[at - 1]);
                    assert(whole.drop_last() == text@.subrange(start as int, at - 1));
                }
                assert(line@ == without_cr(whole));
                assert(tail.skip(at - start + 1) == text@.skip(at + 1));
                found = found.push(line@);
            }
            list.push(line.to_owned());
            start = at + 1;
            after_cr = false;
        } else {
            after_cr = c == '\r';
        }
        at = at + 1;
    }
    if start < at {
        let ghost tail = text@.skip(start as int);
        let line = text.substring_char(start, at);
        proof {
            assert forall|j: int| 0 <= j < at - start implies #[trigger] tail[j] != '\n' by {
                assert(tail[j] == text@[start + j]);
            }
            lemma_line_len(tail, at - start);
            assert(tail == text@.subrange(start as int, at as int));
            found = found.push(line@);
        }
        list.push(line.to_owned());
    } else {
        assert(text@.skip(start as int).len() == 0);
    }
    list
}

/// The lines of a log that are shown before the log is followed: its last
/// `HISTORY_LINES` lines, oldest first.
pub fn history(content: &str) -> (list: Vec<String>)
    ensures
        list@.len() == last_lines(lines_of(content@)).len(),
        forall|i: int|
            0 <= i < list@.len() ==> (#[trigger] list@[i])@ == last_lines(lines_of(content@))[i],
{
    let mut all = lines(content);
    if all.len() > HISTORY_LINES {
        let from = all.len() - HISTORY_LINES;
        all.split_off(from)
    } else {
        all
    }
}

/// A line of standard output as it is shown.
pub fn out_line(line: &str) -> (s: String)
    ensures
        s@ == "out: "@ + line@,
{
    prefixed("out: ", line)
}

/// A line of standard error as it is shown.
pub fn err_line(line: &str) -> (s: String)
    ensures
        s@ == "err: "@ + line@,
{
    prefixed("err: ", line)
}

} // verus!
