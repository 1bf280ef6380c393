use uptime_monitor::decimal::{parse_int, push_int};
use uptime_monitor::history::History;
use uptime_monitor::record::{Outcome, ProbeRecord};
use uptime_monitor::wire::{
    decode, encode, parse_record, push_record, CLOSE_BRACE, CLOSE_BRACKET, COMMA,
    NO_RESPONSE_TEXT, OPEN_BRACKET, PING_KEY, RESULT_KEY, SUCCESS_TEXT, TIMESTAMP_KEY,
};

fn record(timestamp: i64, outcome: Outcome, latency_millis: i64) -> ProbeRecord {
    ProbeRecord { timestamp, outcome, latency_millis }
}

fn int_text(v: i64) -> Vec<u8> {
    let mut out = Vec::new();
    push_int(&mut out, v);
    out
}

#[test]
fn the_constants_spell_the_format() {
    assert_eq!(&TIMESTAMP_KEY[..], b"{\"timestamp\":");
    assert_eq!(&RESULT_KEY[..], b",\"result\":\"");
    assert_eq!(&PING_KEY[..], b"\",\"ping\":");
    assert_eq!(&SUCCESS_TEXT[..], b"Success");
    assert_eq!(&NO_RESPONSE_TEXT[..], b"No Response");
    assert_eq!(OPEN_BRACKET, b'[');
    assert_eq!(CLOSE_BRACKET, b']');
    assert_eq!(CLOSE_BRACE, b'}');
    assert_eq!(COMMA, b',');
}

#[test]
fn integers_are_written_in_decimal() {
    assert_eq!(int_text(0), b"0".to_vec());
    assert_eq!(int_text(7), b"7".to_vec());
    assert_eq!(int_text(10), b"10".to_vec());
    assert_eq!(int_text(1700000000), b"1700000000".to_vec());
    assert_eq!(int_text(-1), b"-1".to_vec());
    assert_eq!(int_text(-250), b"-250".to_vec());
    assert_eq!(int_text(i64::MAX), b"9223372036854775807".to_vec());
    assert_eq!(int_text(i64::MIN), b"-9223372036854775808".to_vec());
}

#[test]
fn integers_are_written_as_the_standard_library_writes_them() {
    for v in [0i64, 1, -1, 9, 10, 99, 100, 101, 12345, -98765, i64::MAX, i64::MIN, i64::MAX - 1] {
        assert_eq!(int_text(v), format!("{}", v).into_bytes());
    }
}

#[test]
fn push_int_appends_after_what_is_there() {
    let mut out = b"x=".to_vec();
    push_int(&mut out, -42);
    assert_eq!(out, b"x=-42".to_vec());
}

#[test]
fn integers_are_read_up_to_the_first_byte_that_is_no_digit() {
    assert_eq!(parse_int(b"123,", 0), Some((123, 3)));
    assert_eq!(parse_int(b"x-45}", 1), Some((-45, 4)));
    assert_eq!(parse_int(b"0", 0), Some((0, 1)));
    assert_eq!(parse_int(b"7", 0), Some((7, 1)));
    assert_eq!(parse_int(b"9223372036854775807]", 0), Some((i64::MAX, 19)));
    assert_eq!(parse_int(b"-9223372036854775808", 0), Some((i64::MIN, 20)));
}

#[test]
fn integers_in_another_spelling_are_not_read() {
    assert_eq!(parse_int(b"", 0), None);
    assert_eq!(parse_int(b"12", 2), None);
    assert_eq!(parse_int(b"12", 5), None);
    assert_eq!(parse_int(b"-", 0), None);
    assert_eq!(parse_int(b"abc", 0), None);
    assert_eq!(parse_int(b"+1", 0), None);
    assert_eq!(parse_int(b"-0", 0), None);
    assert_eq!(parse_int(b"00", 0), None);
    assert_eq!(parse_int(b"012", 0), None);
    assert_eq!(parse_int(b"-01", 0), None);
    assert_eq!(parse_int(b" 1", 0), None);
}

#[test]
fn integers_out_of_range_are_not_read() {
    assert_eq!(parse_int(b"9223372036854775808", 0), None);
    assert_eq!(parse_int(b"-9223372036854775809", 0), None);
    assert_eq!(parse_int(b"18446744073709551616", 0), None);
    assert_eq!(parse_int(b"99999999999999999999999999", 0), None);
}

#[test]
fn a_record_is_written_with_its_three_fields_in_order() {
    let mut out = Vec::new();
    push_record(&mut out, &record(100, Outcome::Success, 20));
    assert_eq!(out, b"{\"timestamp\":100,\"result\":\"Success\",\"ping\":20}".to_vec());
    let mut out = Vec::new();
    push_record(&mut out, &record(200, Outcome::NoResponse, 500));
    assert_eq!(out, b"{\"timestamp\":200,\"result\":\"No Response\",\"ping\":500}".to_vec());
}

#[test]
fn a_record_is_read_where_it_stands() {
    let text = b"[{\"timestamp\":-5,\"result\":\"No Response\",\"ping\":0}]";
    assert_eq!(parse_record(text, 1), Some((record(-5, Outcome::NoResponse, 0), text.len() - 1)));
    assert_eq!(parse_record(text, 0), None);
    assert_eq!(parse_record(text, 2), None);
    assert_eq!(parse_record(text, text.len()), None);
    assert_eq!(parse_record(text, text.len() + 7), None);
}

#[test]
fn the_empty_history_is_an_empty_array() {
    assert_eq!(encode(&History::new()), b"[]".to_vec());
    assert_eq!(decode(b"[]"), Some(History::new()));
}

#[test]
fn a_history_is_written_as_an_array_without_white_space() {
    let history = History {
        records: vec![record(200, Outcome::NoResponse, 500), record(100, Outcome::Success, 20)],
    };
    let expected = b"[{\"timestamp\":200,\"result\":\"No Response\",\"ping\":500},{\"timestamp\":100,\"result\":\"Success\",\"ping\":20}]";
    assert_eq!(encode(&history), expected.to_vec());
    assert_eq!(decode(expected), Some(history));
}

#[test]
fn decode_after_encode_gives_the_history_back() {
    let mut records = Vec::new();
    for i in 0..50i64 {
        let outcome = if i % 3 == 0 { Outcome::NoResponse } else { Outcome::Success };
        records.push(record(1_700_000_000 - i * 60, outcome, i * i - 7));
    }
    records.push(record(i64::MIN, Outcome::Success, i64::MAX));
    records.push(record(i64::MAX, Outcome::NoResponse, i64::MIN));
    records.push(record(0, Outcome::Success, 0));
    let history = History { records };
    let stored = encode(&history);
    assert_eq!(decode(&stored), Some(history));
}

#[test]
fn encode_after_decode_gives_the_bytes_back() {
    let stored: &[u8] = b"[{\"timestamp\":3,\"result\":\"Success\",\"ping\":-1},{\"timestamp\":2,\"result\":\"No Response\",\"ping\":9223372036854775807},{\"timestamp\":1,\"result\":\"Success\",\"ping\":0}]";
    let history = decode(stored).unwrap();
    assert_eq!(history.records.len(), 3);
    assert_eq!(encode(&history), stored.to_vec());
}

#[test]
fn records_that_repeat_are_kept() {
    let same = record(5, Outcome::Success, 5);
    let history = History { records: vec![same, same, same] };
    assert_eq!(decode(&encode(&history)), Some(history));
}

#[test]
fn what_encode_does_not_write_is_not_read() {
    let bad: [&[u8]; 27] = [
        b"",
        b"[",
        b"]",
        b"[]x",
        b" []",
        b"[] ",
        b"[ ]",
        b"[]]",
        b"[[]]",
        b"{}",
        b"null",
        b"[,]",
        b"[{}]",
        b"[{\"timestamp\":1,\"result\":\"Success\",\"ping\":2},]",
        b"[{\"timestamp\":1,\"result\":\"Success\",\"ping\":2}",
        b"[{\"timestamp\":1,\"result\":\"Success\",\"ping\":2}{\"timestamp\":1,\"result\":\"Success\",\"ping\":2}]",
        b"[{\"timestamp\":1,\"result\":\"Success\",\"ping\":2}, {\"timestamp\":1,\"result\":\"Success\",\"ping\":2}]",
        b"[{\"timestamp\": 1,\"result\":\"Success\",\"ping\":2}]",
        b"[{\"ping\":2,\"timestamp\":1,\"result\":\"Success\"}]",
        b"[{\"timestamp\":1,\"result\":\"Success\"}]",
        b"[{\"timestamp\":1,\"result\":\"success\",\"ping\":2}]",
        b"[{\"timestamp\":1,\"result\":\"Timeout\",\"ping\":2}]",
        b"[{\"timestamp\":01,\"result\":\"Success\",\"ping\":2}]",
        b"[{\"timestamp\":1,\"result\":\"Success\",\"ping\":2.0}]",
        b"[{\"timestamp\":1,\"result\":\"Success\",\"ping\":-0}]",
        b"[{\"timestamp\":9223372036854775808,\"result\":\"Success\",\"ping\":2}]",
        b"[{\"timestamp\":1,\"result\":\"Success\",\"ping\":2,\"extra\":3}]",
    ];
    for text in bad {
        assert_eq!(decode(text), None, "{:?}", String::from_utf8_lossy(text));
    }
}

#[test]
fn the_stored_form_is_json_that_holds_the_three_fields() {
    let history = History {
        records: vec![record(200, Outcome::NoResponse, 500), record(-100, Outcome::Success, 20)],
    };
    let parsed: serde_json::Value = serde_json::from_slice(&encode(&history)).unwrap();
    let items = parsed.as_array().unwrap();
    assert_eq!(items.len(), 2);
    let first = items[0].as_object().unwrap();
    assert_eq!(first.len(), 3);
    assert_eq!(first.get("timestamp").unwrap().as_i64(), Some(200));
    assert_eq!(first.get("result").unwrap().as_str(), Some("No Response"));
    assert_eq!(first.get("ping").unwrap().as_i64(), Some(500));
    let second = items[1].as_object().unwrap();
    assert_eq!(second.get("timestamp").unwrap().as_i64(), Some(-100));
    assert_eq!(second.get("result").unwrap().as_str(), Some("Success"));
    assert_eq!(second.get("ping").unwrap().as_i64(), Some(20));
}

#[test]
fn the_extremes_are_json_too() {
    let history = History { records: vec![record(i64::MIN, Outcome::Success, i64::MAX)] };
    let parsed: serde_json::Value = serde_json::from_slice(&encode(&history)).unwrap();
    let item = parsed.as_array().unwrap()[0].as_object().unwrap();
    assert_eq!(item.get("timestamp").unwrap().as_i64(), Some(i64::MIN));
    assert_eq!(item.get("ping").unwrap().as_i64(), Some(i64::MAX));
}

#[test]
fn integers_are_spelled_as_serde_json_spells_them() {
    let mut v: i64 = 1;
    for _ in 0..62 {
        for w in [v, -v, v - 1, 1 - v, v + 1] {
            assert_eq!(int_text(w), serde_json::to_string(&w).unwrap().into_bytes());
            assert_eq!(serde_json::from_slice::<i64>(&int_text(w)).unwrap(), w);
        }
        v *= 2;
    }
    for w in [i64::MIN, i64::MAX, 0] {
        assert_eq!(int_text(w), serde_json::to_string(&w).unwrap().into_bytes());
    }
}

#[test]
fn outcomes_are_spelled_as_serde_json_spells_the_two_strings() {
    let mut success = vec![b'"'];
    success.extend_from_slice(&SUCCESS_TEXT);
    success.push(b'"');
    assert_eq!(success, serde_json::to_string("Success").unwrap().into_bytes());
    let mut no_response = vec![b'"'];
    no_response.extend_from_slice(&NO_RESPONSE_TEXT);
    no_response.push(b'"');
    assert_eq!(no_response, serde_json::to_string("No Response").unwrap().into_bytes());
}
