//! How a text falls into lines, and how lines are put together again.
//!
//! A line ends at a line feed; a carriage return directly before that line
//! feed belongs to the line ending. The last line needs no line ending, and
//! a text that ends with a line ending has no empty line after it.

use vstd::prelude::*;
use vstd::string::*;
use crate::text::{chars_of, string_of};

verus! {

/// The separator that is written between two lines: carriage return, line feed.
pub open spec fn line_break() -> Seq<char> {
    seq!['\r', '\n']
}

/// A sequence of characters without a line feed.
pub open spec fn is_line(s: Seq<char>) -> bool {
    forall|i: int| 0 <= i < s.len() ==> s[i] != '\n'
}

/// Every element is a line.
pub open spec fn all_lines(lines: Seq<Seq<char>>) -> bool {
    forall|i: int| 0 <= i < lines.len() ==> is_line(#[trigger] lines[i])
}

/// The position of the first line feed in `s`, or the length of `s` where
/// it holds none.
pub open spec fn line_end(s: Seq<char>) -> int
    decreases s.len(),
{
    if s.len() == 0 || s[0] == '\n' {
        0
    } else {
        1 + line_end(s.drop_first())
    }
}

/// `s` without one carriage return at its end, if it has one there.
pub open spec fn without_carriage_return(s: Seq<char>) -> Seq<char> {
    if s.len() > 0 && s.last() == '\r' {
        s.drop_last()
    } else {
        s
    }
}

/// The lines of `s`, without their line endings.
pub open spec fn lines_of(s: Seq<char>) -> Seq<Seq<char>>
    decreases s.len(),
{
    let end = line_end(s);
    if s.len() == 0 {
        Seq::empty()
    } else if 0 <= end < s.len() {
        seq![without_carriage_return(s.take(end))] + lines_of(s.skip(end + 1))
    } else {
        seq![s]
    }
}

/// The given lines with a line break between each two of them, and none
/// after the last.
pub open spec fn joined(lines: Seq<Seq<char>>) -> Seq<char>
    decreases lines.len(),
{
    if lines.len() == 0 {
        Seq::empty()
    } else if lines.len() == 1 {
        lines[0]
    } else {
        lines[0] + line_break() + joined(lines.drop_first())
    }
}

/// What the strings of `v` hold.
pub open spec fn texts(v: Seq<String>) -> Seq<Seq<char>> {
    Seq::new(v.len(), |i: int| v[i]@)
}

/// `line_end` is the least position that holds a line feed, if there is one.
pub proof fn lemma_line_end(s: Seq<char>)
    ensures
        0 <= line_end(s) <= s.len(),
        is_line(s.take(line_end(s))),
        line_end(s) < s.len() ==> s[line_end(s)] == '\n',
    decreases s.len(),
{
    if s.len() == 0 || s[0] == '\n' {
    } else {
        let rest = s.drop_first();
        lemma_line_end(rest);
        let k = line_end(rest);
        let prefix = s.take(k + 1);
        assert forall|i: int| 0 <= i < prefix.len() implies prefix[i] != '\n' by {
            if i > 0 {
                assert(rest.take(k)[i - 1] == s[i]);
            }
        }
    }
}

/// A position with no line feed before it, which holds one or is the end of
/// `s`, is `line_end(s)`.
pub proof fn lemma_line_end_is(s: Seq<char>, k: int)
    requires
        0 <= k <= s.len(),
        forall|i: int| 0 <= i < k ==> s[i] != '\n',
        k < s.len() ==> s[k] == '\n',
    ensures
        line_end(s) == k,
    decreases s.len(),
{
    if s.len() == 0 || s[0] == '\n' {
    } else {
        let rest = s.drop_first();
        assert forall|i: int| 0 <= i < k - 1 implies rest[i] != '\n' by {
            assert(rest[i] == s[i + 1]);
        }
        lemma_line_end_is(rest, k - 1);
    }
}

/// No line of a text holds a line feed.
pub proof fn lemma_lines_are_lines(s: Seq<char>)
    ensures
        all_lines(lines_of(s)),
    decreases s.len(),
{
    lemma_line_end(s);
    if s.len() == 0 {
    } else if line_end(s) >= s.len() {
        assert(s.take(line_end(s)) =~= s);
    } else {
        let k = line_end(s);
        let head = without_carriage_return(s.take(k));
        let tail = lines_of(s.skip(k + 1));
        lemma_lines_are_lines(s.skip(k + 1));
        assert(is_line(head));
        assert forall|i: int| 0 <= i < lines_of(s).len() implies is_line(
            #[trigger] lines_of(s)[i],
        ) by {
            if i > 0 {
                assert(lines_of(s)[i] == tail[i - 1]);
            }
        }
    }
}

/// Where the first line feed of `s.skip(start)` stands at `at`, the lines of
/// that rest are the line before it and the lines of what follows it.
pub proof fn lemma_lines_step(s: Seq<char>, start: int, at: int)
    requires
        0 <= start <= at < s.len(),
        forall|i: int| start <= i < at ==> s[i] != '\n',
        s[at] == '\n',
    ensures
        lines_of(s.skip(start)) == seq![without_carriage_return(s.subrange(start, at))] + lines_of(
            s.skip(at + 1),
        ),
{
    let rest = s.skip(start);
    assert forall|i: int| 0 <= i < at - start implies rest[i] != '\n' by {
        assert(rest[i] == s[start + i]);
    }
    lemma_line_end_is(rest, at - start);
    assert(rest.take(at - start) =~= s.subrange(start, at));
    assert(rest.skip(at - start + 1) =~= s.skip(at + 1));
}

/// A rest without a line feed is one line, or none if it is empty.
pub proof fn lemma_lines_last(s: Seq<char>, start: int)
    requires
        0 <= start <= s.len(),
        forall|i: int| start <= i < s.len() ==> s[i] != '\n',
    ensures
        lines_of(s.skip(start)) == if start < s.len() {
            seq![s.subrange(start, s.len() as int)]
        } else {
            Seq::<Seq<char>>::empty()
        },
{
    let rest = s.skip(start);
    assert forall|i: int| 0 <= i < rest.len() implies rest[i] != '\n' by {
        assert(rest[i] == s[start + i]);
    }
    lemma_line_end_is(rest, rest.len() as int);
    assert(rest =~= s.subrange(start, s.len() as int));
}

/// Joining one more line adds a line break and the line, or the line alone
/// where it is the first.
pub proof fn lemma_joined_push(lines: Seq<Seq<char>>, line: Seq<char>)
    ensures
        joined(lines.push(line)) == if lines.len() == 0 {
            line
        } else {
            joined(lines) + line_break() + line
        },
    decreases lines.len(),
{
    let more = lines.push(line);
    if lines.len() == 0 {
    } else {
        let rest = lines.drop_first();
        lemma_joined_push(rest, line);
        assert(more.drop_first() =~= rest.push(line));
        assert(joined(more) =~= joined(lines) + line_break() + line);
    }
}

/// A line, a line break and a text: the lines are that line and the lines
/// of the text.
pub proof fn lemma_lines_after_line(line: Seq<char>, rest: Seq<char>)
    requires
        is_line(line),
    ensures
        lines_of(line + line_break() + rest) == seq![line] + lines_of(rest),
{
    let s = line + line_break() + rest;
    let at = line.len() as int + 1;
    assert forall|i: int| 0 <= i < at implies s[i] != '\n' by {
        if i < line.len() {
            assert(s[i] == line[i]);
        }
    }
    lemma_lines_step(s, 0, at);
    assert(s.skip(0) =~= s);
    assert(s.subrange(0, at) =~= line.push('\r'));
    assert(line.push('\r').drop_last() =~= line);
    assert(s.skip(at + 1) =~= rest);
}

/// Splitting what was joined gives the lines back, but for an empty last
/// line: a text has no empty line after its last line ending.
pub proof fn lemma_lines_of_joined(lines: Seq<Seq<char>>)
    requires
        all_lines(lines),
    ensures
        lines_of(joined(lines)) == if lines.len() > 0 && lines.last().len() == 0 {
            lines.drop_last()
        } else {
            lines
        },
    decreases lines.len(),
{
    if lines.len() == 0 {
    } else if lines.len() == 1 {
        let line = lines[0];
        assert(is_line(line));
        if line.len() == 0 {
            assert(lines.drop_last() =~= Seq::<Seq<char>>::empty());
        } else {
            lemma_line_end_is(line, line.len() as int);
            assert(lines =~= seq![line]);
        }
    } else {
        let first = lines[0];
        let rest = lines.drop_first();
        assert(is_line(first));
        assert forall|i: int| 0 <= i < rest.len() implies is_line(#[trigger] rest[i]) by {
            assert(rest[i] == lines[i + 1]);
        }
        lemma_lines_of_joined(rest);
        lemma_lines_after_line(first, joined(rest));
        assert(rest.last() == lines.last());
        if lines.last().len() == 0 {
            assert(seq![first] + rest.drop_last() =~= lines.drop_last());
        } else {
            assert(seq![first] + rest =~= lines);
        }
    }
}

/// Every line feed of `s` stands directly behind a carriage return.
pub open spec fn line_feeds_follow_carriage_returns(s: Seq<char>) -> bool {
    forall|i: int| 0 <= i < s.len() && #[trigger] s[i] == '\n' ==> i > 0 && s[i - 1] == '\r'
}

/// Joined lines hold no line feed but those of the line breaks between
/// them.
pub proof fn lemma_joined_line_feeds(lines: Seq<Seq<char>>)
    requires
        all_lines(lines),
    ensures
        line_feeds_follow_carriage_returns(joined(lines)),
    decreases lines.len(),
{
    if lines.len() == 0 {
    } else if lines.len() == 1 {
        assert(is_line(lines[0]));
    } else {
        let first = lines[0];
        let rest = lines.drop_first();
        assert(is_line(first));
        assert forall|i: int| 0 <= i < rest.len() implies is_line(#[trigger] rest[i]) by {
            assert(rest[i] == lines[i + 1]);
        }
        lemma_joined_line_feeds(rest);
        let tail = joined(rest);
        let s = joined(lines);
        let at = first.len() as int;
        assert(s == first + line_break() + tail);
        assert forall|i: int| 0 <= i < s.len() && #[trigger] s[i] == '\n' implies i > 0 && s[i
            - 1] == '\r' by {
            if i < at {
                assert(s[i] == first[i]);
            } else if i == at + 1 {
                assert(s[i - 1] == '\r');
            } else if i > at + 1 {
                let j = i - at - 2;
                assert(s[i] == tail[j]);
                assert(j > 0 && tail[j - 1] == '\r');
                assert(s[i - 1] == tail[j - 1]);
            }
        }
    }
}

/// Splits a text into its lines. The line endings are not part of the lines.
pub fn split_lines(text: &str) -> (lines: Vec<String>)
    ensures
        texts(lines@) == lines_of(text@),
{
    let chars = chars_of(text);
    let n = chars.len();
    let mut lines: Vec<String> = Vec::new();
    let mut start: usize = 0;
    let mut i: usize = 0;
    proof {
        assert(chars@.skip(0) =~= chars@);
        assert(texts(lines@) + lines_of(chars@) =~= lines_of(chars@));
    }
    while i < n
        invariant
            n == chars.len(),
            start <= i <= n,
            forall|j: int| start <= j < i ==> chars@[j] != '\n',
            lines_of(chars@) == texts(lines@) + lines_of(chars@.skip(start as int)),
        decreases n - i,
    {
        if chars[i] == '\n' {
            let end = if i > start && chars[i - 1] == '\r' {
                i - 1
            } else {
                i
            };
            let line = string_of(&chars, start, end);
            proof {
                lemma_lines_step(chars@, start as int, i as int);
                assert(line@ =~= without_carriage_return(chars@.subrange(start as int, i as int)));
                assert(texts(lines@.push(line)) =~= texts(lines@).push(line@));
                assert(texts(lines@).push(line@) + lines_of(chars@.skip(i + 1)) =~= texts(lines@)
                    + (seq![line@] + lines_of(chars@.skip(i + 1))));
            }
            lines.push(line);
            start = i + 1;
        }
        i += 1;
    }
    proof {
        lemma_lines_last(chars@, start as int);
    }
    if start < n {
        let line = string_of(&chars, start, n);
        proof {
            assert(texts(lines@.push(line)) =~= texts(lines@).push(line@));
            assert(texts(lines@).push(line@) =~= texts(lines@) + seq![line@]);
        }
        lines.push(line);
    } else {
        proof {
            assert(texts(lines@) + Seq::<Seq<char>>::empty() =~= texts(lines@));
        }
    }
    lines
}

/// Puts lines together with a carriage return and a line feed between each
/// two of them.
pub fn join_lines(lines: &Vec<String>) -> (text: String)
    ensures
        text@ == joined(texts(lines@)),
{
    let mut text = String::new();
    let mut i: usize = 0;
    proof {
        assert(texts(lines@).take(0) =~= Seq::<Seq<char>>::empty());
    }
    while i < lines.len()
        invariant
            i <= lines.len(),
            text@ == joined(texts(lines@).take(i as int)),
        decreases lines.len() - i,
    {
        proof {
            reveal_strlit("\r\n");
            assert("\r\n"@ =~= line_break());
            lemma_joined_push(texts(lines@).take(i as int), lines@[i as int]@);
            assert(texts(lines@).take(i + 1) =~= texts(lines@).take(i as int).push(
                lines@[i as int]@,
            ));
        }
        if i > 0 {
            text.append("\r\n");
        }
        text.append(lines[i].as_str());
        i += 1;
    }
    proof {
        assert(texts(lines@).take(lines.len() as int) =~= texts(lines@));
    }
    text
}

} // verus!
