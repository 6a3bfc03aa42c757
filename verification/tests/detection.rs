use trustfall_rustdoc::detect::{
    detect_rustdoc_format_version, detect_rustdoc_format_version_fast_path, read_tail,
    version_from_full_parse, FastPathFailure,
};
use trustfall_rustdoc::error::LoadingError;

fn detection_error(path: &str, cause: &str) -> LoadingError {
    LoadingError::RustdocFormatDetection(path.to_string(), cause.to_string())
}

// Detection succeeds both with and without the fast path.
#[test]
fn test_rustdoc_format_version() {
    let fast_file_data = r#"{"test":10,"format_version":10}"#;
    let test_path = "";
    match detect_rustdoc_format_version(test_path, fast_file_data) {
        Ok(version_num) => assert_eq!(version_num, 10),
        Err(e) => panic!("Format version detection failed with error {}", e.message()),
    }

    let slow_file_data = r#"{"format_version":10,"test":10}"#;
    match detect_rustdoc_format_version(test_path, slow_file_data) {
        Ok(version_num) => assert_eq!(version_num, 10),
        Err(e) => panic!("Format version detection failed with error {}", e.message()),
    }
}

#[test]
fn fast_path_reads_trailing_version() {
    let text = r#"{"test":10,"format_version":37}"#;
    assert_eq!(detect_rustdoc_format_version_fast_path("a.json", text), Ok(37));
    assert_eq!(read_tail(text.as_bytes()), Ok(37));
}

#[test]
fn fast_path_reads_up_to_four_digits() {
    for (digits, value) in [("7", 7u32), ("48", 48), ("123", 123), ("9999", 9999), ("0042", 42)] {
        let text = format!(r#"{{"items":[1,2,3],"format_version":{digits}}}"#);
        assert_eq!(read_tail(text.as_bytes()), Ok(value));
        assert_eq!(detect_rustdoc_format_version("a.json", &text), Ok(value));
    }
}

#[test]
fn both_paths_agree_on_one_to_nine_digits() {
    let mut digits = String::new();
    for d in ['1', '2', '3', '4', '5', '6', '7', '8', '9'] {
        digits.push(d);
        let value: u32 = digits.parse().unwrap();
        let text = format!(r#"{{"padding":"0123456789","format_version":{digits}}}"#);
        let fast = read_tail(text.as_bytes());
        if digits.len() <= 4 {
            assert_eq!(fast, Ok(value));
        } else {
            assert_eq!(fast, Err(FastPathFailure::NoComma));
        }
        let slow = version_from_full_parse("a.json", full_parse(&text));
        assert_eq!(slow, Ok(value));
        assert_eq!(detect_rustdoc_format_version("a.json", &text), Ok(value));
    }
}

// What the library asks of the parser, asked here of the parser directly.
fn full_parse(text: &str) -> Result<Option<u64>, String> {
    match serde_json::from_str::<serde_json::Value>(text) {
        Ok(value) => Ok(value.get("format_version").and_then(|member| member.as_u64())),
        Err(error) => Err(error.to_string()),
    }
}

#[test]
fn fast_path_accepts_a_plus_sign() {
    let text = r#"{"t":[1,2,3,4,5,6],"format_version":+10}"#;
    assert_eq!(read_tail(text.as_bytes()), Ok(10));
}

#[test]
fn fast_path_fails_on_short_text() {
    let text = r#"{"format_version":1}"#;
    assert!(text.len() < 23);
    assert_eq!(read_tail(text.as_bytes()), Err(FastPathFailure::TooShort));
    assert_eq!(
        detect_rustdoc_format_version_fast_path("short.json", text),
        Err(detection_error("short.json", "Fast path failed: file is shorter than 23 bytes."))
    );
    assert_eq!(detect_rustdoc_format_version("short.json", text), Ok(1));
    assert_eq!(read_tail(b""), Err(FastPathFailure::TooShort));
}

#[test]
fn fast_path_fails_without_comma() {
    let text = r#"{"a":1,"format_version":12345}"#;
    assert_eq!(read_tail(text.as_bytes()), Err(FastPathFailure::NoComma));
    assert_eq!(
        detect_rustdoc_format_version_fast_path("p", text),
        Err(detection_error("p", "Fast path failed: comma not found in last 23 bytes."))
    );
    assert_eq!(detect_rustdoc_format_version("p", text), Ok(12345));
}

#[test]
fn fast_path_fails_without_colon() {
    let text = "xxxxxxxxxxxxxxxxxxxxxxxxxxxxxx,abc}";
    assert_eq!(read_tail(text.as_bytes()), Err(FastPathFailure::NoColon));
    assert_eq!(
        detect_rustdoc_format_version_fast_path("p", text),
        Err(detection_error("p", "Fast path failed: no colon follows the final comma."))
    );
}

#[test]
fn fast_path_fails_without_brace() {
    let text = r#"{"test":10,"format_version":10"#;
    assert_eq!(read_tail(text.as_bytes()), Err(FastPathFailure::NoBrace));
    assert_eq!(
        detect_rustdoc_format_version_fast_path("p", text),
        Err(detection_error("p", "Fast path failed: file does not end with a close bracket."))
    );
}

#[test]
fn fast_path_fails_on_another_final_key() {
    let text = r#"{"format_version":10,"test":10}"#;
    assert_eq!(read_tail(text.as_bytes()), Err(FastPathFailure::WrongKey));
    assert_eq!(
        detect_rustdoc_format_version_fast_path("p", text),
        Err(detection_error("p", "Fast path failed: final key is not \"format_version\""))
    );
}

#[test]
fn fast_path_wants_exactly_the_key() {
    // The text between the last comma and the colon ends in the key, but is more than the key.
    let text = r#"{"abcdefgh":[1,2 "format_version":10}"#;
    assert_eq!(read_tail(text.as_bytes()), Err(FastPathFailure::WrongKey));
    let text = r#"{"abcdefghij":1,"Format_version":10}"#;
    assert_eq!(read_tail(text.as_bytes()), Err(FastPathFailure::WrongKey));
}

#[test]
fn fast_path_fails_on_invalid_number() {
    for text in [
        r#"{"test":10,"format_version":1x}"#,
        r#"{"test":10,"format_version":}"#,
        r#"{"test":10,"format_version":-1}"#,
        r#"{"test":10,"format_version":+}"#,
        r#"{"test":10,"format_version": 1}"#,
    ] {
        assert_eq!(read_tail(text.as_bytes()), Err(FastPathFailure::InvalidNumber), "{text}");
        assert_eq!(
            detect_rustdoc_format_version_fast_path("p", text),
            Err(detection_error("p", "Fast path failed: version number is invalid."))
        );
    }
}

#[test]
fn fast_path_wants_a_brace_after_the_comma() {
    let text = r#"{"test":1},"format_version":"#;
    assert_eq!(read_tail(text.as_bytes()), Err(FastPathFailure::NoBrace));
}

#[test]
fn fast_path_takes_the_last_brace_not_the_last_byte() {
    let text = "{\"test\":10,\"format_version\":39}\n";
    assert_eq!(read_tail(text.as_bytes()), Ok(39));
}

#[test]
fn fast_path_inspects_bytes_not_characters() {
    // The tail of 23 bytes starts inside the two-byte character.
    let text = "{\"k\":\"\u{e9}\",\"format_version\":43}";
    assert!(!text.is_char_boundary(text.len() - 23));
    assert_eq!(read_tail(text.as_bytes()), Ok(43));
    assert_eq!(detect_rustdoc_format_version("p", text), Ok(43));
}

#[test]
fn detection_falls_back_to_the_full_parse() {
    let text = r#"{
        "format_version": 45,
        "root": "0:0",
        "index": {}
    }"#;
    assert!(read_tail(text.as_bytes()).is_err());
    assert_eq!(detect_rustdoc_format_version("p", text), Ok(45));
}

#[test]
fn detection_never_reads_the_number_of_another_key() {
    let text = r#"{"format_version":45,"other_version":12}"#;
    assert_eq!(read_tail(text.as_bytes()), Err(FastPathFailure::WrongKey));
    assert_eq!(detect_rustdoc_format_version("p", text), Ok(45));
    let text = r#"{"some_key":[1,2,3],"other_version":12}"#;
    assert_eq!(
        detect_rustdoc_format_version("p", text),
        Err(detection_error("p", "no unsigned integer `format_version` at the top level"))
    );
}

#[test]
fn detection_fails_where_both_paths_fail() {
    match detect_rustdoc_format_version("broken.json", "this is not a rustdoc JSON file at all") {
        Err(LoadingError::RustdocFormatDetection(path, cause)) => {
            assert_eq!(path, "broken.json");
            assert!(cause.starts_with("expected"), "{cause}");
        }
        other => panic!("unexpected {other:?}"),
    }
    assert_eq!(
        detect_rustdoc_format_version("p", r#"{"test":10,"format_version":"ten","x":1}"#),
        Err(detection_error("p", "no unsigned integer `format_version` at the top level"))
    );
    assert_eq!(
        detect_rustdoc_format_version("p", r#"{"format_version":-3,"test":10}"#),
        Err(detection_error("p", "no unsigned integer `format_version` at the top level"))
    );
}

#[test]
fn full_parse_outcomes() {
    assert_eq!(version_from_full_parse("p", Ok(Some(48))), Ok(48));
    assert_eq!(version_from_full_parse("p", Ok(Some(4294967295))), Ok(u32::MAX));
    assert_eq!(
        version_from_full_parse("p", Ok(Some(4294967296))),
        Err(detection_error("p", "`format_version` does not fit in 32 bits"))
    );
    assert_eq!(
        version_from_full_parse("p", Ok(None)),
        Err(detection_error("p", "no unsigned integer `format_version` at the top level"))
    );
    assert_eq!(
        version_from_full_parse("p", Err("EOF while parsing".to_string())),
        Err(detection_error("p", "EOF while parsing"))
    );
}

#[test]
fn full_parse_reads_the_text_and_the_key() {
    // Fails if the parser's answer were the text or the key handed back.
    let text = r#"{"format_version":4294967296,"a":[1,2,3,4,5,6,7,8,9]}"#;
    assert_eq!(
        detect_rustdoc_format_version("p", text),
        Err(detection_error("p", "`format_version` does not fit in 32 bits"))
    );
}

#[test]
fn failure_sentences() {
    assert_eq!(
        FastPathFailure::TooShort.describe(),
        "Fast path failed: file is shorter than 23 bytes."
    );
    assert_eq!(
        FastPathFailure::NoComma.describe(),
        "Fast path failed: comma not found in last 23 bytes."
    );
    assert_eq!(
        FastPathFailure::WrongKey.describe(),
        "Fast path failed: final key is not \"format_version\""
    );
}
