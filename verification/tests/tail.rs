use textutils::tail::{
    count_lines_bytes, extract_from, get_start_index, magnitude_of, parse_count, Config,
    ConfigError,
    ExtractionError, TakeValue, TakeValue::PlusZero, TakeValue::TakeNum, Unit,
};

#[test]
fn test_parse_count() {
    // All integers should be interpreted as negative numbers
    let res = parse_count("3");
    assert!(res.is_ok());
    assert_eq!(res.unwrap(), TakeNum(-3));
    // A leading "+" should result in a positive number
    let res = parse_count("+3");
    assert!(res.is_ok());
    assert_eq!(res.unwrap(), TakeNum(3));
    // An explicit "-" value should result in a negative number
    let res = parse_count("-3");
    assert!(res.is_ok());
    assert_eq!(res.unwrap(), TakeNum(-3));
    // Zero is Zero
    let res = parse_count("0");
    assert!(res.is_ok());
    assert_eq!(res.unwrap(), TakeNum(0));
    // Plus zero is special
    let res = parse_count("+0");
    assert!(res.is_ok());
    assert_eq!(res.unwrap(), PlusZero);
    // Test boundaries
    let res = parse_count(&i64::MAX.to_string());
    assert!(res.is_ok());
    assert_eq!(res.unwrap(), TakeNum(i64::MIN + 1));
    let res = parse_count(&(i64::MIN + 1).to_string());
    assert!(res.is_ok());
    assert_eq!(res.unwrap(), TakeNum(i64::MIN + 1));
    let res = parse_count(&format!("+{}", i64::MAX));
    assert!(res.is_ok());
    assert_eq!(res.unwrap(), TakeNum(i64::MAX));
    let res = parse_count(&i64::MIN.to_string());
    assert!(res.is_ok());
    assert_eq!(res.unwrap(), TakeNum(i64::MIN));
    // A floating-point value is invalid
    let res = parse_count("3.14");
    assert!(res.is_err());
    assert_eq!(res.unwrap_err().to_string(), "3.14");
    // Any noninteger string is invalid
    let res = parse_count("foo");
    assert!(res.is_err());
    assert_eq!(res.unwrap_err().to_string(), "foo");
}

/// The content of the two sample inputs.
fn sample(filename: &str) -> Option<&'static [u8]> {
    match filename {
        "tests/inputs/one.txt" => Some("Öne line, four wordś.\n".as_bytes()),
        "tests/inputs/ten.txt" => Some(TEN.as_bytes()),
        _ => None,
    }
}

#[test]
fn test_count_lines_bytes() {
    let res = sample("tests/inputs/one.txt").map(count_lines_bytes);
    assert!(res.is_some());
    assert_eq!(res.unwrap(), (1, 24));

    let res = sample("tests/inputs/ten.txt").map(count_lines_bytes);
    assert!(res.is_some());
    assert_eq!(res.unwrap(), (10, 49));
}

#[test]
fn test_get_start_index() {
    // +0 from an empty file (0 lines/bytes) returns None
    assert_eq!(get_start_index(&PlusZero, 0), None);
    // +0 from a nonempty file returns an index that
    // is one less than the number of lines/bytes
    assert_eq!(get_start_index(&PlusZero, 1), Some(0));
    // Taking 0 lines/bytes returns None
    assert_eq!(get_start_index(&TakeNum(0), 1), None);
    // Taking any lines/bytes from an empty file returns None
    assert_eq!(get_start_index(&TakeNum(1), 0), None);
    // Taking more lines/bytes than is available returns None
    assert_eq!(get_start_index(&TakeNum(2), 1), None);
    // When starting line/byte is less than total lines/bytes,
    // return one less than starting number
    assert_eq!(get_start_index(&TakeNum(1), 10), Some(0));
    assert_eq!(get_start_index(&TakeNum(2), 10), Some(1));
    assert_eq!(get_start_index(&TakeNum(3), 10), Some(2));
    // When starting line/byte is negative and less than total,
    // return total - start
    assert_eq!(get_start_index(&TakeNum(-1), 10), Some(9));
    assert_eq!(get_start_index(&TakeNum(-2), 10), Some(8));
    assert_eq!(get_start_index(&TakeNum(-3), 10), Some(7));
    // When starting line/byte is negative and more than total,
    // return 0 to print the whole file
    assert_eq!(get_start_index(&TakeNum(-20), 10), Some(0));
}

#[test]
fn parse_count_rejects_malformed_text() {
    for text in ["", "+", "-", "+-3", "-+3", "--3", "3-", " 3", "3 ", "1e3", "٣", "+٣", "0x10"] {
        let res = parse_count(text);
        assert!(res.is_err(), "{:?}", text);
        assert_eq!(res.unwrap_err().text, text);
    }
}

#[test]
fn parse_count_signs_and_zeros() {
    assert_eq!(parse_count("+00").unwrap(), TakeNum(0));
    assert_eq!(parse_count("-0").unwrap(), TakeNum(0));
    assert_eq!(parse_count("00").unwrap(), TakeNum(0));
    assert_eq!(parse_count("+007").unwrap(), TakeNum(7));
    assert_eq!(parse_count("0000000000000000000000000000012").unwrap(), TakeNum(-12));
}

#[test]
fn parse_count_at_the_edges_of_the_range() {
    // The unsigned text of the largest magnitude is the most negative count.
    assert_eq!(parse_count("9223372036854775808").unwrap(), TakeNum(i64::MIN));
    assert_eq!(parse_count("-9223372036854775808").unwrap(), TakeNum(i64::MIN));
    assert!(parse_count("+9223372036854775808").is_err());
    assert!(parse_count("9223372036854775809").is_err());
    assert!(parse_count("-9223372036854775809").is_err());
    assert!(parse_count("99999999999999999999999999999999999999999999").is_err());
    assert_eq!(parse_count("+9223372036854775807").unwrap(), TakeNum(i64::MAX));
}

#[test]
fn start_index_is_none_for_every_offset_on_an_empty_resource() {
    for offset in [PlusZero, TakeNum(0), TakeNum(1), TakeNum(-1), TakeNum(i64::MAX), TakeNum(i64::MIN)] {
        assert_eq!(get_start_index(&offset, 0), None);
    }
}

#[test]
fn start_index_from_the_start() {
    for total in 1u64..6 {
        assert_eq!(get_start_index(&PlusZero, total), Some(0));
        for v in 1..=total {
            assert_eq!(get_start_index(&TakeNum(v as i64), total), Some(v - 1));
        }
        assert_eq!(get_start_index(&TakeNum(total as i64 + 1), total), None);
        assert_eq!(get_start_index(&TakeNum(0), total), None);
    }
    assert_eq!(get_start_index(&TakeNum(i64::MAX), u64::MAX), Some(i64::MAX as u64 - 1));
    assert_eq!(get_start_index(&TakeNum(i64::MAX), 5), None);
}

#[test]
fn start_index_from_the_end() {
    for total in 1u64..6 {
        for v in 1..total {
            assert_eq!(get_start_index(&TakeNum(-(v as i64)), total), Some(total - v));
        }
        assert_eq!(get_start_index(&TakeNum(-(total as i64)), total), Some(0));
        assert_eq!(get_start_index(&TakeNum(-(total as i64) - 1), total), Some(0));
    }
    // The most negative count has a magnitude of its own.
    assert_eq!(get_start_index(&TakeNum(i64::MIN), 10), Some(0));
    assert_eq!(get_start_index(&TakeNum(i64::MIN), 1 << 63), Some(0));
    assert_eq!(get_start_index(&TakeNum(i64::MIN), (1 << 63) + 5), Some(5));
    assert_eq!(get_start_index(&TakeNum(i64::MIN), u64::MAX), Some((1 << 63) - 1));
}

#[test]
fn resolution_is_repeatable() {
    let offset = parse_count("-4").unwrap();
    assert_eq!(get_start_index(&offset, 7), get_start_index(&offset, 7));
    assert_eq!(get_start_index(&offset, 7), Some(3));
}

const TEN: &str = "one\ntwo\nthree\nfour\nfive\nsix\nseven\neight\nnine\nten\n";

fn tail_lines(text: &str, content: &[u8]) -> Result<Vec<u8>, ExtractionError> {
    let config = Config::from_args(vec!["-".to_string()], Some(text), None, false).unwrap();
    config.tail(content).map(|w| w.to_vec())
}

fn tail_bytes(text: &str, content: &[u8]) -> Result<Vec<u8>, ExtractionError> {
    let config = Config::from_args(vec!["-".to_string()], None, Some(text), false).unwrap();
    config.tail(content).map(|w| w.to_vec())
}

#[test]
fn ten_lines_scenario() {
    let (lines, _) = count_lines_bytes(TEN.as_bytes());
    assert_eq!(lines, 10);

    let five = parse_count("5").unwrap();
    assert_eq!(five, TakeNum(-5));
    assert_eq!(get_start_index(&five, lines), Some(5));
    assert_eq!(tail_lines("5", TEN.as_bytes()).unwrap(), b"six\nseven\neight\nnine\nten\n");

    let plus_five = parse_count("+5").unwrap();
    assert_eq!(plus_five, TakeNum(5));
    assert_eq!(get_start_index(&plus_five, lines), Some(4));
    assert_eq!(tail_lines("+5", TEN.as_bytes()).unwrap(), b"five\nsix\nseven\neight\nnine\nten\n");

    let minus_twenty = parse_count("-20").unwrap();
    assert_eq!(minus_twenty, TakeNum(-20));
    assert_eq!(get_start_index(&minus_twenty, lines), Some(0));
    assert_eq!(tail_lines("-20", TEN.as_bytes()).unwrap(), TEN.as_bytes());

    let plus_zero = parse_count("+0").unwrap();
    assert_eq!(plus_zero, PlusZero);
    assert_eq!(get_start_index(&plus_zero, lines), Some(0));
    assert_eq!(tail_lines("+0", TEN.as_bytes()).unwrap(), TEN.as_bytes());
}

#[test]
fn one_line_scenario() {
    let one = "Öne line, four wordś.\n";
    assert_eq!(count_lines_bytes(one.as_bytes()), (1, 24));
    assert_eq!(tail_lines("+0", one.as_bytes()).unwrap(), one.as_bytes());
    assert_eq!(tail_bytes("+0", one.as_bytes()).unwrap(), one.as_bytes());
    assert_eq!(tail_bytes("+0", one.as_bytes()).unwrap().len(), 24);
}

#[test]
fn counts_lines_with_and_without_a_final_line_feed() {
    assert_eq!(count_lines_bytes(b""), (0, 0));
    assert_eq!(count_lines_bytes(b"\n"), (1, 1));
    assert_eq!(count_lines_bytes(b"a"), (1, 1));
    assert_eq!(count_lines_bytes(b"a\nb"), (2, 3));
    assert_eq!(count_lines_bytes(b"a\nb\n"), (2, 4));
    assert_eq!(count_lines_bytes(b"\n\n\n"), (3, 3));
    assert_eq!(count_lines_bytes(b"a\r\nb\r\n"), (2, 6));
}

#[test]
fn line_strategy_skips_whole_lines() {
    let content = b"a\nbb\n\nccc";
    assert_eq!(extract_from(content, 0, Unit::Line).unwrap(), b"a\nbb\n\nccc");
    assert_eq!(extract_from(content, 1, Unit::Line).unwrap(), b"bb\n\nccc");
    assert_eq!(extract_from(content, 2, Unit::Line).unwrap(), b"\nccc");
    assert_eq!(extract_from(content, 3, Unit::Line).unwrap(), b"ccc");
    assert_eq!(extract_from(content, 4, Unit::Line).unwrap(), b"");
    assert_eq!(extract_from(content, u64::MAX, Unit::Line).unwrap(), b"");
    assert_eq!(extract_from(b"", 3, Unit::Line).unwrap(), b"");
}

#[test]
fn byte_strategy_seeks() {
    let content = b"hello\nworld";
    assert_eq!(extract_from(content, 0, Unit::Byte).unwrap(), b"hello\nworld");
    assert_eq!(extract_from(content, 6, Unit::Byte).unwrap(), b"world");
    assert_eq!(extract_from(content, 11, Unit::Byte).unwrap(), b"");
    assert_eq!(extract_from(content, 12, Unit::Byte).unwrap(), b"");
    assert_eq!(extract_from(content, u64::MAX, Unit::Byte).unwrap(), b"");
}

#[test]
fn byte_strategy_passes_invalid_text_through() {
    let content: &[u8] = &[0xc3, 0x96, 0xff, 0x0a, 0xc3];
    assert_eq!(extract_from(content, 1, Unit::Byte).unwrap(), &[0x96, 0xff, 0x0a, 0xc3]);
    assert_eq!(tail_bytes("2", content).unwrap(), &[0x0a, 0xc3]);
}

#[test]
fn line_strategy_refuses_invalid_text() {
    let content: &[u8] = &[b'a', 0x0a, 0xff, 0x0a, b'b'];
    assert_eq!(extract_from(content, 1, Unit::Line), Err(ExtractionError::DecodingError));
    assert_eq!(tail_lines("1", content), Err(ExtractionError::DecodingError));
    // Where nothing is selected the content is not decoded.
    assert_eq!(tail_lines("0", content).unwrap(), b"");
    // A window that is cut inside a character is still refused as a whole.
    assert_eq!(extract_from(&[0xc3, 0x0a, 0x96], 1, Unit::Line), Err(ExtractionError::DecodingError));
}

#[test]
fn tail_by_lines_and_bytes() {
    assert_eq!(tail_lines("3", TEN.as_bytes()).unwrap(), b"eight\nnine\nten\n");
    assert_eq!(tail_lines("+10", TEN.as_bytes()).unwrap(), b"ten\n");
    assert_eq!(tail_lines("+11", TEN.as_bytes()).unwrap(), b"");
    assert_eq!(tail_lines("0", TEN.as_bytes()).unwrap(), b"");
    assert_eq!(tail_lines("3", b"").unwrap(), b"");
    assert_eq!(tail_lines("1", b"a\nb").unwrap(), b"b");
    assert_eq!(tail_bytes("4", TEN.as_bytes()).unwrap(), b"ten\n");
    assert_eq!(tail_bytes("+46", TEN.as_bytes()).unwrap(), b"ten\n");
    assert_eq!(tail_bytes("-100", TEN.as_bytes()).unwrap(), TEN.as_bytes());
    assert_eq!(tail_bytes("+50", TEN.as_bytes()).unwrap(), b"");
}

#[test]
fn config_defaults_and_errors() {
    let config = Config::from_args(vec!["a".to_string()], None, None, true).unwrap();
    assert_eq!(config.lines, TakeNum(-10));
    assert_eq!(config.bytes, None);
    assert!(config.quiet);
    assert_eq!(config.files, vec!["a".to_string()]);

    let config = Config::from_args(vec![], Some("+2"), Some("7"), false).unwrap();
    assert_eq!(config.lines, TakeNum(2));
    assert_eq!(config.bytes, Some(TakeValue::TakeNum(-7)));

    match Config::from_args(vec![], Some("x"), Some("y"), false) {
        Err(ConfigError::IllegalLineCount(e)) => assert_eq!(e.text, "x"),
        other => panic!("{:?}", other),
    }
    match Config::from_args(vec![], Some("1"), Some("y"), false) {
        Err(ConfigError::IllegalByteCount(e)) => assert_eq!(e.text, "y"),
        other => panic!("{:?}", other),
    }
}

#[test]
fn banners_between_resources() {
    let files = vec!["a.txt".to_string(), "b.txt".to_string()];
    let config = Config::from_args(files.clone(), None, None, false).unwrap();
    assert_eq!(config.header(0), Some("==> a.txt <==".to_string()));
    assert_eq!(config.header(1), Some("\n==> b.txt <==".to_string()));

    let quiet = Config::from_args(files, None, None, true).unwrap();
    assert_eq!(quiet.header(0), None);
    assert_eq!(quiet.header(1), None);

    assert_eq!(config.header(2), None);

    let single = Config::from_args(vec!["a.txt".to_string()], None, None, false).unwrap();
    assert_eq!(single.header(0), None);
}

#[test]
fn magnitudes_never_overflow() {
    assert_eq!(magnitude_of(0), 0);
    assert_eq!(magnitude_of(5), 5);
    assert_eq!(magnitude_of(-5), 5);
    assert_eq!(magnitude_of(i64::MAX), (1 << 63) - 1);
    assert_eq!(magnitude_of(i64::MIN + 1), (1 << 63) - 1);
    assert_eq!(magnitude_of(i64::MIN), 1 << 63);
}
