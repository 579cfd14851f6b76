use regex::Regex;
use srt2vtt::convert::{
    convert_compiled, convert_with, replace_commas, rewrite_line, HEADER, TIMESTAMP_PATTERN,
};
use srt2vtt::{srt2vtt, ConversionError};

fn count_lines(text: &str) -> usize {
    text.lines().count()
}

#[test]
fn convert_srt_to_vtt_correctly() {
    let srt_content = "1\r\n00:00:01,000 --> 00:00:04,074\r\nSubtitles, first\r\n\r\n\
                       2\r\n00:00:05,000 --> 00:00:09,000\r\nSecond, cue\r\n"
        .to_string();

    let vtt_content_expected = "WEBVTT\r\n\r\n1\r\n00:00:01.000 --> 00:00:04.074\r\n\
                                Subtitles, first\r\n\r\n\
                                2\r\n00:00:05.000 --> 00:00:09.000\r\nSecond, cue\r\n"
        .to_string();

    let vtt_content = srt2vtt(srt_content).unwrap();

    let zip_contents = vtt_content.lines().zip(vtt_content_expected.lines());

    let regex = Regex::new(r"[0-9][0-9]:[0-9][0-9]:[0-9][0-9],\d*").unwrap();

    assert_eq!(vtt_content.lines().nth(0).unwrap(), "WEBVTT");

    for (line, line_expected) in zip_contents {
        if regex.is_match(line_expected) {
            assert_eq!(line, line_expected);
        }
    }
}

#[test]
fn end_to_end_with_line_feeds() {
    let source = "1\n00:00:01,000 --> 00:00:04,074\nHello world".to_string();
    assert_eq!(
        srt2vtt(source),
        Ok("WEBVTT\r\n\r\n1\r\n00:00:01.000 --> 00:00:04.074\r\nHello world".to_string())
    );
}

#[test]
fn end_to_end_with_carriage_return_line_feeds() {
    let source = "1\r\n00:00:01,000 --> 00:00:04,074\r\nHello world\r\n".to_string();
    assert_eq!(
        srt2vtt(source),
        Ok("WEBVTT\r\n\r\n1\r\n00:00:01.000 --> 00:00:04.074\r\nHello world".to_string())
    );
}

#[test]
fn header_is_the_first_line() {
    let sources = ["", "a", "\n", "1\n00:00:01,000 --> 00:00:04,074\nHello\n", "WEBVTT", ",,,"];
    for source in sources {
        let text = srt2vtt(source.to_string()).unwrap();
        assert_eq!(text.lines().next(), Some("WEBVTT"), "for {:?}", source);
        assert!(text.starts_with("WEBVTT\r\n"), "for {:?}", source);
    }
}

#[test]
fn header_constant_is_the_two_header_lines() {
    assert_eq!(HEADER, "WEBVTT\r\n\r\n");
}

#[test]
fn two_lines_are_added() {
    let sources = [
        "a",
        "a\n",
        "a\nb",
        "a\n\nb\r\n",
        "1\n00:00:01,000 --> 00:00:04,074\nHello world",
        "\r",
    ];
    for source in sources {
        let text = srt2vtt(source.to_string()).unwrap();
        assert_eq!(count_lines(&text), count_lines(source) + 2, "for {:?}", source);
    }
}

#[test]
fn an_empty_last_line_is_not_counted_again() {
    assert_eq!(srt2vtt(String::new()), Ok("WEBVTT\r\n".to_string()));
    assert_eq!(count_lines("WEBVTT\r\n"), 1);
    assert_eq!(srt2vtt("a\n\n".to_string()), Ok("WEBVTT\r\n\r\na\r\n".to_string()));
    assert_eq!(count_lines("a\n\n"), 2);
    assert_eq!(count_lines("WEBVTT\r\n\r\na\r\n"), 3);
}

#[test]
fn only_timestamp_lines_are_rewritten() {
    let source = "1\n00:00:01,000 --> 00:00:04,074\nHello, world\nbye, now\n00:10:59,5\n";
    let text = srt2vtt(source.to_string()).unwrap();
    let lines: Vec<&str> = text.lines().collect();
    assert_eq!(
        lines,
        vec![
            "WEBVTT",
            "",
            "1",
            "00:00:01.000 --> 00:00:04.074",
            "Hello, world",
            "bye, now",
            "00:10:59.5",
        ]
    );
}

#[test]
fn every_comma_of_a_timestamp_line_is_replaced() {
    assert_eq!(
        srt2vtt("a, b 00:00:01,000 c, d,".to_string()),
        Ok("WEBVTT\r\n\r\na. b 00:00:01.000 c. d.".to_string())
    );
}

#[test]
fn a_timestamp_needs_a_digit_behind_the_comma() {
    assert_eq!(
        srt2vtt("00:00:01, x\n00:00:01,\n00:00:01,7".to_string()),
        Ok("WEBVTT\r\n\r\n00:00:01, x\r\n00:00:01,\r\n00:00:01.7".to_string())
    );
}

#[test]
fn a_timestamp_needs_two_digits_in_each_field() {
    assert_eq!(
        srt2vtt("0:00:01,000\n00:0:01,000\n00:00:1,000\n00-00-01,000\n100:00:01,000".to_string()),
        Ok("WEBVTT\r\n\r\n0:00:01,000\r\n00:0:01,000\r\n00:00:1,000\r\n00-00-01,000\r\n\
            100:00:01.000"
            .to_string())
    );
}

#[test]
fn text_without_timestamps_only_gets_the_header_and_line_breaks() {
    assert_eq!(
        srt2vtt("one, two\nthree\r\n\r\nfour,".to_string()),
        Ok("WEBVTT\r\n\r\none, two\r\nthree\r\n\r\nfour,".to_string())
    );
    let kept = "a\r\nb, c\r\n\r\nd";
    assert_eq!(srt2vtt(kept.to_string()), Ok(format!("{}{}", HEADER, kept)));
}

#[test]
fn replace_commas_replaces_each_comma() {
    assert_eq!(replace_commas(""), "");
    assert_eq!(replace_commas("abc"), "abc");
    assert_eq!(replace_commas(","), ".");
    assert_eq!(replace_commas("a,b,,c."), "a.b..c.");
    assert_eq!(replace_commas("\u{e9},\u{ff0c}"), "\u{e9}.\u{ff0c}");
}

#[test]
fn rewrite_line_goes_by_the_flag() {
    assert_eq!(rewrite_line("a,b", true), "a.b");
    assert_eq!(rewrite_line("a,b", false), "a,b");
    assert_eq!(rewrite_line("00:00:01,000", false), "00:00:01,000");
    assert_eq!(rewrite_line("", true), "");
}

#[test]
fn convert_with_takes_any_expression() {
    let marked = Regex::new("^#").unwrap();
    assert_eq!(
        convert_with("#a,b\nc,d\n00:00:01,000", &marked),
        "WEBVTT\r\n\r\n#a.b\r\nc,d\r\n00:00:01,000"
    );
    let never = Regex::new("[^\\s\\S]").unwrap();
    assert_eq!(convert_with("00:00:01,000", &never), "WEBVTT\r\n\r\n00:00:01,000");
}

#[test]
fn convert_compiled_converts_with_the_compiled_expression() {
    assert_eq!(
        convert_compiled("x,y\nz,", Regex::new("x")),
        Ok("WEBVTT\r\n\r\nx.y\r\nz,".to_string())
    );
}

#[test]
fn convert_compiled_hands_on_a_refusal() {
    let refusal = Regex::new("(").unwrap_err().to_string();
    assert!(!refusal.is_empty());
    assert_eq!(
        convert_compiled("x,y", Regex::new("(")),
        Err(ConversionError { message: refusal.clone() })
    );
    let error = convert_compiled("", Regex::new("(")).unwrap_err();
    assert_eq!(error.message(), refusal);
}

#[test]
fn timestamp_pattern_compiles() {
    assert!(Regex::new(TIMESTAMP_PATTERN).is_ok());
    assert!(srt2vtt("anything".to_string()).is_ok());
}

#[test]
fn a_comma_in_the_text_line_stays() {
    assert_eq!(
        srt2vtt("1\n00:00:01,000 --> 00:00:04,074\nHello, world".to_string()),
        Ok("WEBVTT\r\n\r\n1\r\n00:00:01.000 --> 00:00:04.074\r\nHello, world".to_string())
    );
}

#[test]
fn words_beside_a_timestamp_lose_their_commas() {
    assert_eq!(
        srt2vtt("00:00:01,000 --> 00:00:04,074 Hi, there".to_string()),
        Ok("WEBVTT\r\n\r\n00:00:01.000 --> 00:00:04.074 Hi. there".to_string())
    );
}

#[test]
fn a_comma_without_a_digit_is_no_timestamp() {
    assert_eq!(srt2vtt("00:00:01, x".to_string()), Ok("WEBVTT\r\n\r\n00:00:01, x".to_string()));
}

#[test]
fn mixed_line_endings_become_line_breaks() {
    assert_eq!(
        srt2vtt("a, b\r\nc\nd".to_string()),
        Ok("WEBVTT\r\n\r\na, b\r\nc\r\nd".to_string())
    );
}

#[test]
fn conversion_succeeds_whatever_the_content() {
    let sources = [
        "",
        "\n",
        "\r",
        ",",
        "00:00:01,000",
        "99:99:99,9",
        "00:00:01,",
        "no timestamp at all",
        "\u{e9}\u{65e5}, \u{672c}\n00:00:01,000\r\n",
        "1\n00:00:01,000 --> 00:00:04,074\nHello world\n\n2\n00:00:05,000 --> 00:00:06,000\nBye\n",
    ];
    for source in sources {
        assert!(srt2vtt(source.to_string()).is_ok(), "for {:?}", source);
    }
}

#[test]
fn every_line_feed_follows_a_carriage_return() {
    let sources = ["a\nb\r\nc\n", "\n\n\n", "a\r\r\nb", "00:00:01,000\n,\n", "", "x\ry\nz"];
    for source in sources {
        let text = srt2vtt(source.to_string()).unwrap();
        let bytes = text.as_bytes();
        for i in 0..bytes.len() {
            if bytes[i] == b'\n' {
                assert!(i > 0 && bytes[i - 1] == b'\r', "for {:?} at {}", source, i);
            }
        }
    }
}

#[test]
fn output_is_two_header_lines_and_one_line_for_each_source_line() {
    let sources = ["", "a", "a\n", "a\n\n", "\n", "a\r\nb\nc", "a\r\r\nb", "00:00:01,000\n\n"];
    for source in sources {
        let text = srt2vtt(source.to_string()).unwrap();
        assert_eq!(text.split("\r\n").count(), count_lines(source) + 2, "for {:?}", source);
    }
}

#[test]
fn each_source_line_stands_two_places_further_on() {
    let source = "x, y\n12:34:56,7 a, b\r\n\r\nlast,";
    let text = srt2vtt(source.to_string()).unwrap();
    let lines: Vec<&str> = text.split("\r\n").collect();
    assert_eq!(lines, vec!["WEBVTT", "", "x, y", "12:34:56.7 a. b", "", "last,"]);
}
