use clock_sync_master::codec::{decode, encode, DecodeError, Message};

#[test]
fn encode_introduce() {
    assert_eq!(encode(&Message::Introduce), "{\"type\":\"introduce\"}");
}

#[test]
fn encode_request_time() {
    assert_eq!(encode(&Message::RequestTime), "{\"type\":\"request_time\"}");
}

#[test]
fn encode_time_report() {
    assert_eq!(
        encode(&Message::TimeReport { time: 12345 }),
        "{\"type\":\"time_report\",\"time\":12345}"
    );
}

#[test]
fn encode_time_report_negative() {
    assert_eq!(
        encode(&Message::TimeReport { time: -42 }),
        "{\"type\":\"time_report\",\"time\":-42}"
    );
}

#[test]
fn encode_adjust_time() {
    assert_eq!(
        encode(&Message::AdjustTime { adjustment: -250 }),
        "{\"type\":\"adjust_time\",\"adjustment\":-250}"
    );
}

#[test]
fn encode_adjust_time_zero() {
    assert_eq!(
        encode(&Message::AdjustTime { adjustment: 0 }),
        "{\"type\":\"adjust_time\",\"adjustment\":0}"
    );
}

#[test]
fn encode_extreme_values() {
    assert_eq!(
        encode(&Message::AdjustTime {
            adjustment: i64::MIN
        }),
        "{\"type\":\"adjust_time\",\"adjustment\":-9223372036854775808}"
    );
    assert_eq!(
        encode(&Message::TimeReport { time: i64::MAX }),
        "{\"type\":\"time_report\",\"time\":9223372036854775807}"
    );
}

#[test]
fn decode_introduce() {
    assert_eq!(decode("{\"type\":\"introduce\"}"), Ok(Message::Introduce));
}

#[test]
fn decode_time_report() {
    assert_eq!(
        decode("{\"type\":\"time_report\",\"time\":987654}"),
        Ok(Message::TimeReport { time: 987654 })
    );
}

#[test]
fn decode_request_time() {
    assert_eq!(decode("{\"type\":\"request_time\"}"), Ok(Message::RequestTime));
}

#[test]
fn decode_adjust_time() {
    assert_eq!(
        decode("{\"type\":\"adjust_time\",\"adjustment\":-77}"),
        Ok(Message::AdjustTime { adjustment: -77 })
    );
}

#[test]
fn decode_tolerates_whitespace_and_extra_fields() {
    assert_eq!(
        decode("{ \"extra\": [1, 2], \"type\" : \"introduce\" }"),
        Ok(Message::Introduce)
    );
}

#[test]
fn decode_unrecognized_type_is_not_an_error() {
    assert_eq!(decode("{\"type\":\"goodbye\"}"), Ok(Message::Unrecognized));
    assert_eq!(decode("{\"type\":\"\"}"), Ok(Message::Unrecognized));
}

#[test]
fn decode_malformed_payloads() {
    assert_eq!(decode("not json at all"), Err(DecodeError::Malformed));
    assert_eq!(decode(""), Err(DecodeError::Malformed));
    assert_eq!(decode("{\"type\":\"introduce\""), Err(DecodeError::Malformed));
}

#[test]
fn decode_non_object_payloads() {
    assert_eq!(decode("[1,2,3]"), Err(DecodeError::Malformed));
    assert_eq!(decode("42"), Err(DecodeError::Malformed));
    assert_eq!(decode("\"introduce\""), Err(DecodeError::Malformed));
    assert_eq!(decode("null"), Err(DecodeError::Malformed));
}

#[test]
fn decode_missing_or_non_string_type() {
    assert_eq!(decode("{}"), Err(DecodeError::MissingType));
    assert_eq!(decode("{\"time\":5}"), Err(DecodeError::MissingType));
    assert_eq!(decode("{\"type\":7}"), Err(DecodeError::MissingType));
}

#[test]
fn decode_missing_integer_field() {
    assert_eq!(
        decode("{\"type\":\"time_report\"}"),
        Err(DecodeError::MissingField)
    );
    assert_eq!(
        decode("{\"type\":\"adjust_time\"}"),
        Err(DecodeError::MissingField)
    );
    assert_eq!(
        decode("{\"type\":\"time_report\",\"time\":\"late\"}"),
        Err(DecodeError::MissingField)
    );
}

#[test]
fn round_trip_every_encodable_kind() {
    for m in [
        Message::Introduce,
        Message::RequestTime,
        Message::TimeReport { time: -31337 },
        Message::AdjustTime { adjustment: 60000 },
    ] {
        assert_eq!(decode(&encode(&m)), Ok(m));
    }
}
