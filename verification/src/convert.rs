//! Rewriting SubRip text as WebVTT text.
//!
//! The WebVTT header is put in front of the text, the whole is taken apart
//! into lines, every comma of a line that holds a timestamp becomes a
//! period, and the lines are put together again with carriage return and
//! line feed between them.
//!
//! Known quirk: a timestamp anywhere in a line has every comma of that line
//! replaced, not only the comma of the timestamp.

use vstd::prelude::*;
use vstd::string::*;
use regex::Regex;
use crate::lines::{join_lines, joined, lines_of, split_lines, texts};
use crate::pattern::{
    haystacks_matched,
    pattern_accepted,
    pattern_language,
    refusal_text,
    refusal_words,
};

verus! {

/// The shape of a timestamp: two digits, colon, two digits, colon, two
/// digits, comma, and one digit or more.
pub const TIMESTAMP_PATTERN: &'static str = "[0-9][0-9]:[0-9][0-9]:[0-9][0-9],[0-9]+";

/// What every WebVTT text starts with: the line `WEBVTT` and an empty line.
pub const HEADER: &'static str = "WEBVTT\r\n\r\n";

/// The engine accepts the timestamp pattern on the machine at hand.
pub open spec fn timestamp_pattern_accepted() -> bool {
    pattern_accepted(TIMESTAMP_PATTERN@, usize::BITS)
}

/// The lines in which a timestamp occurs.
pub open spec fn timestamp_lines() -> Set<Seq<char>> {
    pattern_language(TIMESTAMP_PATTERN@)
}

/// `line` with a period in the place of every comma.
pub open spec fn commas_replaced(line: Seq<char>) -> Seq<char> {
    Seq::new(
        line.len(),
        |i: int|
            if line[i] == ',' {
                '.'
            } else {
                line[i]
            },
    )
}

/// A timestamp line with its commas replaced; any other line as it is.
pub open spec fn line_rewritten(line: Seq<char>, is_timestamp: bool) -> Seq<char> {
    if is_timestamp {
        commas_replaced(line)
    } else {
        line
    }
}

/// Each line rewritten by whether it is among `timestamps`.
pub open spec fn lines_rewritten(lines: Seq<Seq<char>>, timestamps: Set<Seq<char>>) -> Seq<
    Seq<char>,
> {
    Seq::new(lines.len(), |i: int| line_rewritten(lines[i], timestamps.contains(lines[i])))
}

/// The lines of the WebVTT text for `content`, the two header lines first,
/// where `timestamps` are the lines that count as timestamp lines.
pub open spec fn converted_lines(content: Seq<char>, timestamps: Set<Seq<char>>) -> Seq<
    Seq<char>,
> {
    lines_rewritten(lines_of(HEADER@ + content), timestamps)
}

/// The WebVTT text for `content`, where `timestamps` are the lines that
/// count as timestamp lines.
pub open spec fn converted(content: Seq<char>, timestamps: Set<Seq<char>>) -> Seq<char> {
    joined(converted_lines(content, timestamps))
}

/// The WebVTT text for the SubRip text `content`.
pub open spec fn vtt_text(content: Seq<char>) -> Seq<char> {
    converted(content, timestamp_lines())
}

/// The timestamp pattern was refused by the regular-expression engine.
#[derive(Debug, PartialEq, Eq)]
pub struct ConversionError {
    /// The engine's reason.
    pub message: String,
}

impl ConversionError {
    /// A sentence for the user: the engine's reason.
    pub fn message(&self) -> (text: String)
        ensures
            text@ == self.message@,
    {
        self.message.clone()
    }
}

/// Replaces every comma of `line` by a period.
pub fn replace_commas(line: &str) -> (out: String)
    ensures
        out@ == commas_replaced(line@),
{
    let mut out = String::new();
    for c in it: line.chars()
        invariant
            it.seq() == line@,
            out@ == commas_replaced(line@.take(it.index())),
    {
        proof {
            assert(commas_replaced(line@.take(it.index() + 1)) =~= commas_replaced(
                line@.take(it.index()),
            ).push(
                if c == ',' {
                    '.'
                } else {
                    c
                },
            ));
        }
        if c == ',' {
            out.push('.');
        } else {
            out.push(c);
        }
    }
    proof {
        assert(line@.take(line@.len() as int) =~= line@);
    }
    out
}

/// Rewrites one line, given whether a timestamp was found in it.
pub fn rewrite_line(line: &str, is_timestamp: bool) -> (out: String)
    ensures
        out@ == line_rewritten(line@, is_timestamp),
{
    if is_timestamp {
        replace_commas(line)
    } else {
        String::from_str(line)
    }
}

/// Converts SubRip text to WebVTT text, with `timestamp` deciding which
/// lines hold a timestamp.
pub fn convert_with(content: &str, timestamp: &Regex) -> (text: String)
    ensures
        text@ == converted(content@, haystacks_matched(*timestamp)),
{
    let mut buffer = String::from_str(HEADER);
    buffer.append(content);
    let lines = split_lines(buffer.as_str());
    let ghost timestamps = haystacks_matched(*timestamp);
    let mut rewritten: Vec<String> = Vec::new();
    let mut i: usize = 0;
    while i < lines.len()
        invariant
            i <= lines.len(),
            timestamps == haystacks_matched(*timestamp),
            texts(rewritten@) == lines_rewritten(texts(lines@).take(i as int), timestamps),
        decreases lines.len() - i,
    {
        let line = lines[i].as_str();
        let found = timestamp.is_match(line);
        let out = rewrite_line(line, found);
        proof {
            assert(texts(rewritten@.push(out)) =~= texts(rewritten@).push(out@));
            assert(lines_rewritten(texts(lines@).take(i + 1), timestamps) =~= lines_rewritten(
                texts(lines@).take(i as int),
                timestamps,
            ).push(out@));
        }
        rewritten.push(out);
        i += 1;
    }
    proof {
        assert(texts(lines@).take(lines.len() as int) =~= texts(lines@));
    }
    join_lines(&rewritten)
}

/// Finishes a conversion once the timestamp pattern has been handed to the
/// engine: the text converted with the compiled expression, or the engine's
/// refusal as an error.
pub fn convert_compiled(content: &str, compiled: Result<Regex, regex::Error>) -> (result: Result<
    String,
    ConversionError,
>)
    ensures
        compiled matches Ok(timestamp) ==> (result matches Ok(text) && text@ == converted(
            content@,
            haystacks_matched(timestamp),
        )),
        compiled matches Err(error) ==> (result matches Err(refusal) && refusal.message@
            == refusal_words(error)),
{
    match compiled {
        Ok(timestamp) => Ok(convert_with(content, &timestamp)),
        Err(error) => Err(ConversionError { message: refusal_text(&error) }),
    }
}

/// Converts the text of a SubRip file to the text of the WebVTT file.
///
/// The conversion fails only if the engine refuses the timestamp pattern,
/// which does not depend on `content`.
pub fn srt2vtt(content: String) -> (result: Result<String, ConversionError>)
    ensures
        timestamp_pattern_accepted() ==> (result matches Ok(text) && text@ == vtt_text(content@)),
        !timestamp_pattern_accepted() ==> result is Err,
{
    convert_compiled(content.as_str(), Regex::new(TIMESTAMP_PATTERN))
}

} // verus!
