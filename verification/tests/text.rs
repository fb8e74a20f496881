use familyclaw_agent::json::{parse, Json};
use familyclaw_agent::llm::{LlmError, ToolDefinition};
use familyclaw_agent::stream::{chunk_delta, sse_payload, SseBuffer};
use familyclaw_agent::text::{
    contains, count_chars, count_words, decimal_text, fit_bytes, is_space, join,
    longer_than_bytes, parse_unsigned, same_ignoring_ascii_case, starts_with, strip_prefix,
    take_chars, take_digits, to_ascii_lower, trim, width,
};

#[test]
fn white_space_is_what_the_standard_library_takes_for_it() {
    for c in '\0'..=char::MAX {
        assert_eq!(is_space(c), c.is_whitespace(), "{c:?}");
        assert_eq!(width(c), c.len_utf8(), "{c:?}");
    }
}

const SAMPLES: [&str; 8] = [
    "",
    " ",
    "a",
    "  a b\u{a0}\n",
    "ÄÖ ä\u{2003}x",
    "one two  three",
    "\u{feff}x\u{feff}",
    "…⚠✅",
];

#[test]
fn text_functions_agree_with_the_standard_library() {
    for s in SAMPLES {
        assert_eq!(trim(s), s.trim());
        assert_eq!(count_words(s), s.split_whitespace().count());
        assert_eq!(count_chars(s), s.chars().count());
        assert_eq!(to_ascii_lower(s), s.to_ascii_lowercase());
        for n in 0..8 {
            assert_eq!(longer_than_bytes(s, n), s.len() > n);
            assert_eq!(take_chars(s, n), s.chars().take(n).collect::<String>());
            let mut end = n.min(s.len());
            while !s.is_char_boundary(end) {
                end -= 1;
            }
            assert_eq!(fit_bytes(s, n), &s[..end]);
        }
        for t in SAMPLES {
            assert_eq!(contains(s, t), s.contains(t));
            assert_eq!(starts_with(s, t), s.starts_with(t));
            assert_eq!(strip_prefix(s, t).as_deref(), s.strip_prefix(t));
            assert_eq!(same_ignoring_ascii_case(s, t), s.eq_ignore_ascii_case(t));
        }
    }
    let parts: Vec<String> = vec!["a".into(), "".into(), "c".into()];
    assert_eq!(join(&parts, ", "), parts.join(", "));
    assert_eq!(join(&vec![], ", "), "");
    assert_eq!(take_digits("404: not found"), "404");
    assert_eq!(take_digits("none"), "");
}

#[test]
fn numbers_are_written_and_read_in_decimal() {
    for n in [0, 7, 10, 99, 100, u32::MAX as u64, u64::MAX] {
        assert_eq!(decimal_text(n), n.to_string());
        assert_eq!(parse_unsigned(&n.to_string(), u64::MAX), Some(n));
    }
    for s in ["", "+", "-1", "+7", "007", "1 ", "18446744073709551616", "x"] {
        assert_eq!(parse_unsigned(s, u64::MAX), s.parse::<u64>().ok(), "{s}");
    }
    assert_eq!(parse_unsigned("256", 255), None);
    assert_eq!(parse_unsigned("255", 255), Some(255));
}

#[test]
fn json_is_read_and_written_as_serde_json_does() {
    for text in [
        "null",
        "true",
        "[]",
        "{}",
        "[1, 2.5, -3, 1e3, 18446744073709551615]",
        "{\"b\": {\"x\": []}, \"a\": [\"q\\\"\\\\\\n\\u0007ä\\ud83d\\ude00\", {}]}",
    ] {
        let j = parse(text).expect("valid");
        let v: serde_json::Value = serde_json::from_str(text).expect("valid");
        assert_eq!(j.to_text(), v.to_string());
        assert_eq!(
            j.to_pretty_text(),
            serde_json::to_string_pretty(&v).expect("pretty")
        );
        assert_eq!(j.copy(), j);
        assert_eq!(j.is_object(), v.is_object());
    }
    let error = parse("{ not json ]").expect_err("invalid");
    let expected = serde_json::from_str::<serde_json::Value>("{ not json ]")
        .expect_err("invalid")
        .to_string();
    assert_eq!(error, expected);
    let object = parse("{\"a\": 1}").expect("valid");
    assert_eq!(object.get("a"), Some(&Json::Number("1".into())));
    assert_eq!(object.get("b"), None);
    assert_eq!(parse("[1]").expect("valid").get("a"), None);
}

#[test]
fn a_wrong_tool_name_is_shown_quoted() {
    let tool = ToolDefinition {
        name: "a\"b\n".into(),
        description: "d".into(),
        input_schema: parse("{}").expect("valid"),
    };
    match tool.validate() {
        Err(LlmError::InvalidTool(message)) => {
            assert!(message.contains(&format!("{:?}", "a\"b\n")), "{message}");
        }
        other => panic!("{other:?}"),
    }
}

#[test]
fn a_stream_gives_the_same_payloads_however_it_is_cut() {
    let stream = "data: {\"a\":1}\r\n\n: ping\ndata:  {\"b\":\"…\"}\ndata: [DONE]\ndata: rest";
    let payloads = vec!["{\"a\":1}".to_string(), "{\"b\":\"…\"}".to_string()];
    let mut whole = SseBuffer::new();
    assert_eq!(whole.feed(stream), payloads);
    for (at, _) in stream.char_indices() {
        let mut cut = SseBuffer::new();
        let mut found = cut.feed(&stream[..at]);
        found.extend(cut.feed(&stream[at..]));
        assert_eq!(found, payloads, "{at}");
    }
}

#[test]
fn an_event_line_gives_its_payload_and_a_chunk_its_text() {
    assert_eq!(sse_payload("data: {}").as_deref(), Some("{}"));
    assert_eq!(sse_payload("data: [DONE]"), None);
    assert_eq!(sse_payload("event: x"), None);
    assert_eq!(chunk_delta(&None), None);
    assert_eq!(chunk_delta(&Some(vec![])), None);
    assert_eq!(chunk_delta(&Some(vec![Some(String::new())])), None);
    assert_eq!(chunk_delta(&Some(vec![None, Some("x".into())])), None);
    assert_eq!(
        chunk_delta(&Some(vec![Some("hi".into()), None])).as_deref(),
        Some("hi")
    );
}

#[test]
fn every_character_is_quoted_as_serde_json_quotes_it() {
    for c in ('\0'..='\u{ff}').chain("\u{2028}…😀".chars()) {
        let text = format!("a{c}b");
        let expected = serde_json::Value::from(text.as_str()).to_string();
        assert_eq!(Json::Text(text).to_text(), expected);
    }
}

#[test]
fn blank_text_is_no_value() {
    for text in ["", " ", "\n\t", "\u{a0}", "\u{3000}"] {
        assert!(parse(text).is_err());
    }
}

#[test]
fn plain_values_are_read_back_as_they_were_written() {
    let nested = |depth: usize| format!("{}{}", "[".repeat(depth), "]".repeat(depth));
    assert!(parse(&nested(128)).is_err());
    for text in [
        nested(127),
        "-9223372036854775808".to_string(),
        "18446744073709551615".to_string(),
        "{\"\":null,\"A\":[true,\"\u{1f600}\\\"\\u0001\"],\"a\":{},\"ä\":0}".to_string(),
    ] {
        let value = parse(&text).expect("valid");
        assert_eq!(value.to_text(), text);
        assert_eq!(parse(&value.to_text()), Ok(value));
    }
}
