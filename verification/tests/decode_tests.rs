use log_ingest::decode::{decode, decode_payload, DecodeError};
use log_ingest::{CivilDateTime, LogLevel};

fn now() -> CivilDateTime {
    CivilDateTime { year: 2024, month: 3, day: 15, hour: 10, minute: 42, second: 7 }
}

#[test]
fn decodes_a_two_field_object() {
    let r = decode(br#"{"L":"WARN","S":"disk nearly full"}"#, &now()).unwrap();
    assert_eq!(r.level, LogLevel::Warn);
    assert_eq!(r.body, b"disk nearly full".to_vec());
    assert_eq!(r.event_time, now());
}

#[test]
fn unknown_level_coerces_to_info() {
    let r = decode(br#"{"L":"verbose","S":"x"}"#, &now()).unwrap();
    assert_eq!(r.level, LogLevel::Info);
    assert_eq!(r.body, b"x".to_vec());
}

#[test]
fn missing_body_is_an_error() {
    assert_eq!(decode(br#"{"L":"INFO"}"#, &now()).unwrap_err(), DecodeError::MissingBody);
}

#[test]
fn missing_level_is_an_error() {
    assert_eq!(decode(br#"{"S":"x"}"#, &now()).unwrap_err(), DecodeError::MissingLevel);
    assert_eq!(decode(b"{}", &now()).unwrap_err(), DecodeError::MissingLevel);
}

#[test]
fn non_object_payloads_are_rejected() {
    assert_eq!(decode_payload(b"[1,2]").unwrap_err(), DecodeError::NotAnObject);
    assert_eq!(decode_payload(b"42").unwrap_err(), DecodeError::NotAnObject);
    assert_eq!(decode_payload(b"").unwrap_err(), DecodeError::Syntax);
    assert_eq!(decode_payload(b"   ").unwrap_err(), DecodeError::Syntax);
}

#[test]
fn wrong_typed_fields_are_rejected() {
    assert_eq!(
        decode_payload(br#"{"L":42,"S":"x"}"#).unwrap_err(),
        DecodeError::WrongType
    );
    assert_eq!(
        decode_payload(br#"{"L":"INFO","S":null}"#).unwrap_err(),
        DecodeError::WrongType
    );
}

#[test]
fn duplicate_fields_are_rejected() {
    assert_eq!(
        decode_payload(br#"{"L":"INFO","L":"WARN","S":"x"}"#).unwrap_err(),
        DecodeError::DuplicateField
    );
    assert_eq!(
        decode_payload(br#"{"S":"a","S":"b","L":"INFO"}"#).unwrap_err(),
        DecodeError::DuplicateField
    );
}

#[test]
fn trailing_content_is_rejected() {
    assert_eq!(
        decode_payload(br#"{"L":"INFO","S":"x"} extra"#).unwrap_err(),
        DecodeError::TrailingData
    );
    assert!(decode_payload(b"{\"L\":\"INFO\",\"S\":\"x\"} \t\r\n").is_ok());
}

#[test]
fn other_members_are_ignored() {
    let (l, s) = decode_payload(
        br#" { "extra" : { "a" : [ 1 , -2.5e+10 , { "b" : null } ] , "c" : true } ,
             "L" : "error" , "ignored" : false , "S" : "kept" , "z" : "tail" } "#,
    )
    .unwrap();
    assert_eq!(l, b"error".to_vec());
    assert_eq!(s, b"kept".to_vec());
}

#[test]
fn escapes_are_unescaped() {
    let (_, s) = decode_payload(br#"{"L":"INFO","S":"a\n\t\"\\\/ b"}"#).unwrap();
    assert_eq!(s, b"a\n\t\"\\/ b".to_vec());
    let raw = r#"{"L":"INFO","S":"Aé中😀"}"#;
    let (_, s) = decode_payload(raw.as_bytes()).unwrap();
    assert_eq!(String::from_utf8(s).unwrap(), "Aé中😀");
    // the same text spelled with unicode escapes, surrogate pair included
    let escaped = r#"{"L":"INFO","S":"\u0041\u00e9\u4e2d\ud83d\ude00"}"#;
    let (_, s) = decode_payload(escaped.as_bytes()).unwrap();
    assert_eq!(String::from_utf8(s).unwrap(), "Aé中😀");
}

#[test]
fn bad_escapes_and_control_bytes_are_rejected() {
    assert_eq!(
        decode_payload(br#"{"L":"INFO","S":"\q"}"#).unwrap_err(),
        DecodeError::Syntax
    );
    // a lone surrogate names no scalar
    assert_eq!(
        decode_payload(br#"{"L":"INFO","S":"\ud800"}"#).unwrap_err(),
        DecodeError::Syntax
    );
    assert_eq!(
        decode_payload(b"{\"L\":\"INFO\",\"S\":\"a\x01b\"}").unwrap_err(),
        DecodeError::Syntax
    );
}

#[test]
fn malformed_numbers_are_rejected() {
    assert_eq!(
        decode_payload(br#"{"L":"INFO","S":"x","n":01}"#).unwrap_err(),
        DecodeError::Syntax
    );
    assert_eq!(
        decode_payload(br#"{"L":"INFO","S":"x","n":1e}"#).unwrap_err(),
        DecodeError::Syntax
    );
    assert_eq!(
        decode_payload(br#"{"L":"INFO","S":"x","n":-}"#).unwrap_err(),
        DecodeError::Syntax
    );
    assert!(decode_payload(br#"{"L":"INFO","S":"x","n":-0.25E-3}"#).is_ok());
}

#[test]
fn unterminated_payloads_are_rejected() {
    assert_eq!(decode_payload(br#"{"L":"INFO","S":"x"#).unwrap_err(), DecodeError::Syntax);
    assert_eq!(decode_payload(br#"{"L":"INFO","S":"x""#).unwrap_err(), DecodeError::Syntax);
    assert_eq!(decode_payload(br#"{"L":"INFO","S":"x",}"#).unwrap_err(), DecodeError::Syntax);
}

#[test]
fn deep_nesting_hits_the_limit() {
    let mut payload = Vec::new();
    payload.extend_from_slice(br#"{"L":"INFO","S":"x","deep":"#);
    for _ in 0..200 {
        payload.push(b'[');
    }
    for _ in 0..200 {
        payload.push(b']');
    }
    payload.push(b'}');
    assert_eq!(decode_payload(&payload).unwrap_err(), DecodeError::Syntax);

    let mut payload = Vec::new();
    payload.extend_from_slice(br#"{"L":"INFO","S":"x","deep":"#);
    for _ in 0..100 {
        payload.push(b'[');
    }
    for _ in 0..100 {
        payload.push(b']');
    }
    payload.push(b'}');
    assert!(decode_payload(&payload).is_ok());
}
