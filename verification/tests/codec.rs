use minidisc::netmd::query_utils::{
    format_query, parse_template, scan_query, Prefix, QueryError, QueryValue, Token, Width,
};
use minidisc::netmd::utils::{bcd_to_int, int_to_bcd};

fn numbers(values: &[QueryValue]) -> Vec<i64> {
    values.iter().map(|v| v.to_i64().unwrap()).collect()
}

#[test]
fn format_play_command() {
    let bytes = format_query(
        "18c3 ff %b 000000".to_string(),
        vec![QueryValue::Number(0x75)],
    )
    .unwrap();
    assert_eq!(bytes, vec![0x18, 0xc3, 0xff, 0x75, 0x00, 0x00, 0x00]);
}

#[test]
fn format_numbers_of_every_width() {
    let bytes = format_query(
        "%b %w %d %q".to_string(),
        vec![
            QueryValue::Number(0x12),
            QueryValue::Number(0x1234),
            QueryValue::Number(0x1234_5678),
            QueryValue::Number(0x0102_0304_0506_0708),
        ],
    )
    .unwrap();
    assert_eq!(
        bytes,
        vec![0x12, 0x12, 0x34, 0x12, 0x34, 0x56, 0x78, 1, 2, 3, 4, 5, 6, 7, 8]
    );
}

#[test]
fn format_little_endian_on_request() {
    let bytes = format_query(
        "%<w %>w %<d".to_string(),
        vec![
            QueryValue::Number(0x1234),
            QueryValue::Number(0x1234),
            QueryValue::Number(0x0102_0304),
        ],
    )
    .unwrap();
    assert_eq!(bytes, vec![0x34, 0x12, 0x12, 0x34, 4, 3, 2, 1]);
}

#[test]
fn format_truncates_numbers_to_their_width() {
    let bytes = format_query(
        "%b %w".to_string(),
        vec![QueryValue::Number(0x1ff), QueryValue::Number(-2)],
    )
    .unwrap();
    assert_eq!(bytes, vec![0xff, 0xff, 0xfe]);
}

#[test]
fn format_arrays() {
    let bytes = format_query(
        "%x %s %z %*".to_string(),
        vec![
            QueryValue::Array(vec![1, 2, 3]),
            QueryValue::Array(vec![4, 5]),
            QueryValue::Array(vec![6]),
            QueryValue::Array(vec![7, 8]),
        ],
    )
    .unwrap();
    assert_eq!(
        bytes,
        vec![0, 3, 1, 2, 3, 0, 3, 4, 5, 0, 1, 6, 7, 8]
    );
}

#[test]
fn format_binary_coded_decimal() {
    let bytes = format_query(
        "%B %W".to_string(),
        vec![QueryValue::Number(42), QueryValue::Number(1234)],
    )
    .unwrap();
    assert_eq!(bytes, vec![0x42, 0x12, 0x34]);
}

#[test]
fn format_errors() {
    assert_eq!(
        format_query("1".to_string(), vec![]),
        Err(QueryError::InvalidHex)
    );
    assert_eq!(
        format_query("zz".to_string(), vec![]),
        Err(QueryError::InvalidHex)
    );
    assert_eq!(
        format_query("%b".to_string(), vec![]),
        Err(QueryError::MissingArgument)
    );
    assert_eq!(
        format_query("%b".to_string(), vec![QueryValue::Array(vec![])]),
        Err(QueryError::TypeMismatch)
    );
    assert_eq!(
        format_query("%x".to_string(), vec![QueryValue::Number(1)]),
        Err(QueryError::TypeMismatch)
    );
    assert_eq!(
        format_query("%y".to_string(), vec![]),
        Err(QueryError::UnrecognizedChar('y'))
    );
    assert_eq!(
        format_query("%?".to_string(), vec![]),
        Err(QueryError::UnrecognizedChar('?'))
    );
}

#[test]
fn parse_template_gives_elements() {
    let tokens = parse_template("18 %<w %s %? %*").unwrap();
    assert_eq!(
        tokens,
        vec![
            Token::Literal(0x18),
            Token::Number { width: Width::Word, little_endian: true },
            Token::Counted { prefix: Prefix::Terminated },
            Token::Skip,
            Token::Rest,
        ]
    );
}

#[test]
fn scan_reads_values_in_order() {
    let values = scan_query(
        vec![0x09, 0x18, 0x50, 0x00, 0x07, 0x42, 0xaa, 0x00, 0x02, 0x01, 0x02, 0x09, 0x08],
        "1850 %w %B %? %x %*".to_string(),
    )
    .unwrap();
    assert_eq!(values.len(), 4);
    assert_eq!(values[0].to_i64(), Ok(7));
    assert_eq!(values[1].to_i64(), Ok(42));
    assert_eq!(values[2].to_vec(), Ok(vec![1, 2]));
    assert_eq!(values[3].to_vec(), Ok(vec![9, 8]));
}

#[test]
fn scan_reads_signed_words() {
    let values = scan_query(vec![0x09, 0xff, 0xfe, 0xff], "%w %b".to_string()).unwrap();
    assert_eq!(numbers(&values), vec![-2, 255]);
}

#[test]
fn scan_reports_mismatch() {
    let r = scan_query(vec![0x09, 0x18, 0xc4], "18c3".to_string());
    assert_eq!(
        r.unwrap_err(),
        QueryError::InputMismatch { index: 2, expected: 0xc3, actual: 0xc4 }
    );
}

#[test]
fn scan_errors() {
    assert_eq!(
        scan_query(vec![0x09, 0x18], "18c3".to_string()).unwrap_err(),
        QueryError::UnexpectedEnd
    );
    assert_eq!(
        scan_query(vec![0x09, 0x18, 0xc3, 0x00], "18c3".to_string()).unwrap_err(),
        QueryError::TrailingData
    );
    assert_eq!(
        scan_query(vec![0x09, 0x00, 0x05, 0x01], "%x".to_string()).unwrap_err(),
        QueryError::UnexpectedEnd
    );
    assert_eq!(
        scan_query(vec![0x09], "%!".to_string()).unwrap_err(),
        QueryError::UnrecognizedChar('!')
    );
}

#[test]
fn value_kinds() {
    assert_eq!(QueryValue::Number(1).to_vec(), Err(QueryError::TypeMismatch));
    assert_eq!(QueryValue::Array(vec![1]).to_i64(), Err(QueryError::TypeMismatch));
    assert_eq!(QueryValue::Array(vec![1]).to_vec(), Ok(vec![1]));
    assert_eq!(QueryValue::Number(-5).to_i64(), Ok(-5));
}

#[test]
fn scan_of_format_gives_the_values_back() {
    let template = "1806 %b 00 %w %d %q %B %W %x %z %*";
    let values = vec![
        QueryValue::Number(200),
        QueryValue::Number(-1234),
        QueryValue::Number(0x0102_0304),
        QueryValue::Number(-1),
        QueryValue::Number(99),
        QueryValue::Number(2024),
        QueryValue::Array(vec![1, 2, 3]),
        QueryValue::Array(vec![]),
        QueryValue::Array(vec![0xff; 10]),
    ];
    let mut message = vec![0x09];
    message.extend(format_query(template.to_string(), values.clone()).unwrap());
    let read = scan_query(message, template.to_string()).unwrap();
    assert_eq!(read.len(), values.len());
    for (a, b) in read.iter().zip(values.iter()) {
        match (a, b) {
            (QueryValue::Number(x), QueryValue::Number(y)) => assert_eq!(x, y),
            (QueryValue::Array(x), QueryValue::Array(y)) => assert_eq!(x, y),
            _ => panic!("kinds differ"),
        }
    }
}

#[test]
fn scan_of_format_keeps_the_closing_zero_of_terminated_arrays() {
    let mut message = vec![0x09];
    message.extend(
        format_query("%s".to_string(), vec![QueryValue::Array(vec![7, 8])]).unwrap(),
    );
    let read = scan_query(message, "%s".to_string()).unwrap();
    assert_eq!(read[0].to_vec(), Ok(vec![7, 8, 0]));
}

#[test]
fn bcd_round_trip_examples() {
    assert_eq!(int_to_bcd(1234), 0x1234);
    assert_eq!(bcd_to_int(0x1234), 1234);
    assert_eq!(int_to_bcd(0), 0);
    assert_eq!(int_to_bcd(-7), 0);
    assert_eq!(bcd_to_int(0), 0);
    for x in [0, 1, 9, 10, 99, 100, 12_345_678, 80_000_000, 99_999_999] {
        assert_eq!(bcd_to_int(int_to_bcd(x)), x);
    }
}

#[test]
fn bcd_of_eight_digits_fills_the_pattern() {
    assert_eq!(int_to_bcd(99_999_999) as u32, 0x9999_9999);
    assert_eq!(bcd_to_int(0x0000_00ff), 165);
}
