use csvmd::error::{describe_location, CsvMdError};
use csvmd::{
    csv_to_markdown, csv_to_markdown_streaming, csv_to_markdown_streaming_chunked,
    csv_to_markdown_streaming_seekable, Config,
};

fn strict() -> Config {
    Config {
        flexible: false,
        ..Config::default()
    }
}

fn parts(error: CsvMdError) -> (String, String) {
    match error {
        CsvMdError::Csv { message, location } => (message, location),
        other => panic!("not a parse failure: {:?}", other),
    }
}

#[test]
fn location_in_words() {
    assert_eq!(describe_location(Some((2, 1))), "line 2, record 1");
    assert_eq!(describe_location(Some((0, 0))), "line 0, record 0");
    assert_eq!(describe_location(Some((10, 9))), "line 10, record 9");
    assert_eq!(
        describe_location(Some((1234567890, 907))),
        "line 1234567890, record 907"
    );
    assert_eq!(
        describe_location(Some((u64::MAX, u64::MAX))),
        "line 18446744073709551615, record 18446744073709551615"
    );
    assert_eq!(describe_location(None), "unknown location");
}

#[test]
fn ragged_record_fails_when_not_flexible() {
    let error = csv_to_markdown(b"a,b\nc,d,e\n", strict()).unwrap_err();
    let (message, location) = parts(error);
    assert_eq!(
        message,
        "CSV error: record 1 (line: 2, byte: 4): found record with 3 fields, \
         but the previous record has 2 fields"
    );
    assert_eq!(location, "line 2, record 1");
}

#[test]
fn ragged_record_is_padded_when_flexible() {
    let table = csv_to_markdown(b"a,b\nc,d,e\n", Config::default()).unwrap();
    assert_eq!(table, "| a | b |  |\n| --- | --- | --- |\n| c | d | e |\n");
}

#[test]
fn even_records_pass_when_not_flexible() {
    let table = csv_to_markdown(b"a,b\nc,d\n", strict()).unwrap();
    assert_eq!(table, "| a | b |\n| --- | --- |\n| c | d |\n");
}

#[test]
fn invalid_utf8_fails_with_its_place() {
    let error = csv_to_markdown(b"Name,Age\nJohn,\xff\n", Config::default()).unwrap_err();
    let (message, location) = parts(error);
    assert_eq!(
        message,
        "CSV parse error: record 1 (line 2, field: 1, byte: 9): \
         invalid utf-8: invalid UTF-8 in field 1 near byte index 0"
    );
    assert_eq!(location, "line 2, record 1");
}

#[test]
fn invalid_utf8_in_first_record() {
    let error = csv_to_markdown(b"\xff\xfe,b\n", Config::default()).unwrap_err();
    let (_, location) = parts(error);
    assert_eq!(location, "line 1, record 0");
}

#[test]
fn two_pass_conversions_write_nothing_on_failure() {
    let input = b"a,b\nc,d\ne,f,g\n";
    let mut buffered = b"kept".to_vec();
    let error = csv_to_markdown_streaming(input, &mut buffered, strict()).unwrap_err();
    assert_eq!(parts(error).1, "line 3, record 2");
    assert_eq!(buffered, b"kept");

    let mut seekable = b"kept".to_vec();
    let error = csv_to_markdown_streaming_seekable(input, &mut seekable, strict()).unwrap_err();
    assert_eq!(parts(error).1, "line 3, record 2");
    assert_eq!(seekable, b"kept");
}

#[test]
fn chunked_conversion_keeps_the_rows_before_a_failure() {
    let input = b"a,b\nc,d\ne,f,g\n";
    let mut output = b"kept".to_vec();
    let error = csv_to_markdown_streaming_chunked(input, &mut output, strict(), 4).unwrap_err();
    let (message, location) = parts(error);
    assert_eq!(
        message,
        "CSV error: record 2 (line: 3, byte: 8): found record with 3 fields, \
         but the previous record has 2 fields"
    );
    assert_eq!(location, "line 3, record 2");
    assert_eq!(
        output,
        b"kept| a | b |  |\n| --- | --- | --- |\n| c | d |  |\n"
    );
}

#[test]
fn all_conversions_report_the_same_failure() {
    let input = b"x,y\n\"bad \xc3\x28\",z\n";
    let config = Config::default();
    let from_string = parts(csv_to_markdown(input, config).unwrap_err());
    let mut sink = Vec::new();
    let buffered = parts(csv_to_markdown_streaming(input, &mut sink, config).unwrap_err());
    let seekable =
        parts(csv_to_markdown_streaming_seekable(input, &mut sink, config).unwrap_err());
    let mut spilled = Vec::new();
    let chunked = parts(
        csv_to_markdown_streaming_chunked(input, &mut spilled, config, 3).unwrap_err(),
    );
    assert_eq!(from_string.1, "line 2, record 1");
    assert_eq!(buffered, from_string);
    assert_eq!(seekable, from_string);
    assert_eq!(chunked, from_string);
    assert!(sink.is_empty());
    assert_eq!(spilled, b"| x | y |\n| --- | --- |\n");
}

#[test]
fn parse_failure_from_message_and_place() {
    let (message, location) = parts(CsvMdError::parse_failure("broken".to_string(), Some((7, 6))));
    assert_eq!(message, "broken");
    assert_eq!(location, "line 7, record 6");
    let (message, location) = parts(CsvMdError::parse_failure(String::new(), None));
    assert_eq!(message, "");
    assert_eq!(location, "unknown location");
}

#[test]
fn error_in_one_line() {
    let error = CsvMdError::parse_failure("broken".to_string(), Some((7, 6)));
    assert_eq!(
        error.describe(),
        "CSV parsing error at line 7, record 6: broken"
    );
    let error = csv_to_markdown(b"a,b\nc,d,e\n", strict()).unwrap_err();
    assert_eq!(
        error.describe(),
        "CSV parsing error at line 2, record 1: CSV error: record 1 (line: 2, byte: 4): \
         found record with 3 fields, but the previous record has 2 fields"
    );
}
