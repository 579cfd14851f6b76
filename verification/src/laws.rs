//! What holds of every conversion.
//!
//! Each statement is about `converted(content, timestamps)` for an arbitrary
//! set of timestamp lines, so it holds of `convert_with` with any expression
//! and of `srt2vtt`, whose text is `converted(content, timestamp_lines())`.

use vstd::prelude::*;
use crate::convert::{
    commas_replaced,
    converted,
    converted_lines,
    line_rewritten,
    lines_rewritten,
    HEADER,
};
use crate::lines::{
    all_lines,
    is_line,
    joined,
    lemma_joined_line_feeds,
    lemma_lines_after_line,
    lemma_lines_are_lines,
    lemma_lines_of_joined,
    line_break,
    line_feeds_follow_carriage_returns,
    lines_of,
};

verus! {

/// The first line of every WebVTT text.
pub open spec fn header_line() -> Seq<char> {
    seq!['W', 'E', 'B', 'V', 'T', 'T']
}

/// The two lines that the header adds: `WEBVTT` and an empty line.
pub open spec fn header_lines() -> Seq<Seq<char>> {
    seq![header_line(), Seq::<char>::empty()]
}

/// The header is its two lines, each with a line break after it.
pub proof fn lemma_header()
    ensures
        HEADER@ == header_line() + line_break() + line_break(),
        HEADER@.len() == 10,
{
    reveal_strlit("WEBVTT\r\n\r\n");
    assert(HEADER@ =~= header_line() + line_break() + line_break());
}

/// The lines of a text behind the header are the two header lines and then
/// the lines of the text.
pub proof fn lemma_lines_behind_header(content: Seq<char>)
    ensures
        lines_of(HEADER@ + content) == header_lines() + lines_of(content),
{
    lemma_header();
    let empty = Seq::<char>::empty();
    let second = empty + line_break() + content;
    assert(HEADER@ + content =~= header_line() + line_break() + second);
    assert(is_line(header_line()));
    assert(is_line(empty));
    lemma_lines_after_line(header_line(), second);
    lemma_lines_after_line(empty, content);
    assert(seq![header_line()] + (seq![empty] + lines_of(content)) =~= header_lines() + lines_of(
        content,
    ));
}

/// Replacing commas keeps the length, puts a period where a comma stood,
/// leaves every other character alone, and so leaves no comma behind.
pub proof fn law_commas_replaced(line: Seq<char>)
    ensures
        commas_replaced(line).len() == line.len(),
        forall|j: int|
            0 <= j < line.len() && line[j] == ',' ==> #[trigger] commas_replaced(line)[j] == '.',
        forall|j: int|
            0 <= j < line.len() && line[j] != ',' ==> #[trigger] commas_replaced(line)[j]
                == line[j],
        !commas_replaced(line).contains(','),
        !line.contains(',') ==> commas_replaced(line) == line,
        is_line(line) ==> is_line(commas_replaced(line)),
{
    if !line.contains(',') {
        assert(commas_replaced(line) =~= line);
    }
}

/// The lines that are joined to the WebVTT text are the two header lines
/// and, for each line of the source in its place, that line rewritten: no
/// line is added behind the header, dropped or moved.
pub proof fn law_line_for_line(content: Seq<char>, timestamps: Set<Seq<char>>)
    ensures
        converted_lines(content, timestamps) == header_lines() + lines_rewritten(
            lines_of(content),
            timestamps,
        ),
        converted_lines(content, timestamps).len() == lines_of(content).len() + 2,
        all_lines(converted_lines(content, timestamps)),
{
    lemma_lines_behind_header(content);
    law_commas_replaced(header_line());
    law_commas_replaced(Seq::<char>::empty());
    let source = lines_of(content);
    let out = converted_lines(content, timestamps);
    assert(out =~= header_lines() + lines_rewritten(source, timestamps));
    lemma_lines_are_lines(HEADER@ + content);
    assert forall|i: int| 0 <= i < out.len() implies is_line(#[trigger] out[i]) by {
        let line = lines_of(HEADER@ + content)[i];
        assert(is_line(line));
        law_commas_replaced(line);
    }
}

/// Every line ending of the WebVTT text is a carriage return and a line
/// feed, whatever line endings the source has.
pub proof fn law_line_breaks_only(content: Seq<char>, timestamps: Set<Seq<char>>)
    ensures
        line_feeds_follow_carriage_returns(converted(content, timestamps)),
{
    law_line_for_line(content, timestamps);
    lemma_joined_line_feeds(converted_lines(content, timestamps));
}

/// The first line of the WebVTT text is `WEBVTT`, whatever the source holds.
pub proof fn law_header_first(content: Seq<char>, timestamps: Set<Seq<char>>)
    ensures
        lines_of(converted(content, timestamps)).len() >= 1,
        lines_of(converted(content, timestamps))[0] == header_line(),
{
    law_line_for_line(content, timestamps);
    lemma_lines_of_joined(converted_lines(content, timestamps));
}

/// The WebVTT text has the lines that were joined to it, but for the last
/// where that one is empty: an empty last line leaves only the line break
/// before it.
pub proof fn law_lines_of_converted(content: Seq<char>, timestamps: Set<Seq<char>>)
    ensures
        lines_of(converted(content, timestamps)) == if lines_of(content).len() == 0 || lines_of(
            content,
        ).last().len() == 0 {
            converted_lines(content, timestamps).drop_last()
        } else {
            converted_lines(content, timestamps)
        },
{
    law_line_for_line(content, timestamps);
    let out = converted_lines(content, timestamps);
    lemma_lines_of_joined(out);
    let source = lines_of(content);
    if source.len() > 0 {
        law_commas_replaced(source.last());
        assert(out.last() == line_rewritten(source.last(), timestamps.contains(source.last())));
    }
}

/// The WebVTT text has two lines more than the source, where the source has
/// a line and its last line is not empty.
pub proof fn law_line_count(content: Seq<char>, timestamps: Set<Seq<char>>)
    requires
        lines_of(content).len() > 0,
        lines_of(content).last().len() > 0,
    ensures
        lines_of(converted(content, timestamps)).len() == lines_of(content).len() + 2,
{
    law_line_for_line(content, timestamps);
    law_lines_of_converted(content, timestamps);
}

/// Line `i` of the source stands as line `i + 2` of the WebVTT text: with a
/// period for every comma where it is a timestamp line, and character for
/// character as it was where it is not.
pub proof fn law_selective_substitution(content: Seq<char>, timestamps: Set<Seq<char>>, i: int)
    requires
        0 <= i < lines_of(content).len(),
    ensures
        timestamps.contains(lines_of(content)[i]) ==> converted_lines(content, timestamps)[i + 2]
            == commas_replaced(lines_of(content)[i]),
        !timestamps.contains(lines_of(content)[i]) ==> converted_lines(content, timestamps)[i + 2]
            == lines_of(content)[i],
        i + 2 < lines_of(converted(content, timestamps)).len() ==> lines_of(
            converted(content, timestamps),
        )[i + 2] == converted_lines(content, timestamps)[i + 2],
{
    law_line_for_line(content, timestamps);
    law_lines_of_converted(content, timestamps);
}

/// Where no line of the source is a timestamp line, the WebVTT text is the
/// header lines and the lines of the source, joined: the header, and then
/// the source with each line ending written as carriage return, line feed,
/// and none after the last line.
pub proof fn law_without_timestamps(content: Seq<char>, timestamps: Set<Seq<char>>)
    requires
        forall|i: int|
            0 <= i < lines_of(content).len() ==> !timestamps.contains(#[trigger] lines_of(content)[i]),
    ensures
        converted(content, timestamps) == joined(header_lines() + lines_of(content)),
        lines_of(content).len() > 0 ==> converted(content, timestamps) == HEADER@ + joined(
            lines_of(content),
        ),
{
    law_line_for_line(content, timestamps);
    let source = lines_of(content);
    assert(lines_rewritten(source, timestamps) =~= source);
    if source.len() > 0 {
        lemma_joined_header(source);
    }
}

/// A source that already has a carriage return and a line feed between its
/// lines, no line ending behind its last line and no timestamp line comes
/// out as the header followed by the source itself.
pub proof fn law_normalized_source_is_kept(lines: Seq<Seq<char>>, timestamps: Set<Seq<char>>)
    requires
        lines.len() > 0,
        all_lines(lines),
        lines.last().len() > 0,
        forall|i: int| 0 <= i < lines.len() ==> !timestamps.contains(#[trigger] lines[i]),
    ensures
        converted(joined(lines), timestamps) == HEADER@ + joined(lines),
{
    lemma_lines_of_joined(lines);
    law_without_timestamps(joined(lines), timestamps);
}

/// Joining the header lines and further lines gives the header and then the
/// further lines joined.
pub proof fn lemma_joined_header(lines: Seq<Seq<char>>)
    requires
        lines.len() > 0,
    ensures
        joined(header_lines() + lines) == HEADER@ + joined(lines),
{
    lemma_header();
    let all = header_lines() + lines;
    let tail = all.drop_first();
    assert(tail =~= seq![Seq::<char>::empty()] + lines);
    assert(tail.drop_first() =~= lines);
    assert(joined(tail) == Seq::<char>::empty() + line_break() + joined(lines));
    assert(joined(all) == header_line() + line_break() + joined(tail));
    assert(joined(all) =~= HEADER@ + joined(lines));
}

} // verus!
