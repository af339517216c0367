use ai_task::error::AppError;
use ai_task::extract::{is_json, json_error, not_json, path_rejected, JsonFailure};
use ai_task::idempotency::{
    json_source, parse_failure, read_key, replay_location, replay_status, request_hash, KeyHeader,
    MAX_KEY_LEN,
};

#[test]
fn json_content_types() {
    assert!(!is_json(None));
    assert!(is_json(Some("application/json; charset=utf-8")));
    assert!(is_json(Some("application/merge-patch+json")));
    assert!(!is_json(Some("text/plain")));
    assert!(is_json(Some("  Application/JSON ")));
}

#[test]
fn a_wrong_field_is_422_on_its_path_and_broken_json_is_400() {
    match json_error(JsonFailure::Data, "hosts[1].port", "invalid type: string") {
        AppError::Validation(v) => {
            assert_eq!(v[0].field, "hosts[1].port");
            assert!(v[0].message.contains("invalid type"));
        }
        _ => panic!("a data error is a 422"),
    }
    match json_error(JsonFailure::Data, ".", "missing field `name`") {
        AppError::Validation(v) => {
            assert_eq!(v[0].field, "body");
            assert!(v[0].message.contains("name"));
        }
        _ => panic!("a data error is a 422"),
    }
    match json_error(JsonFailure::Syntax, "", "EOF while parsing") {
        AppError::BadRequest(m) => assert!(m.contains("JSON"), "{m}"),
        _ => panic!("a syntax error is a 400"),
    }
    assert_eq!(not_json().classify(), (415, "unsupported_media_type"));
    assert!(matches!(path_rejected(400, "x".into()), AppError::BadRequest(_)));
    assert!(matches!(path_rejected(500, "x".into()), AppError::Internal(_)));
}

#[test]
fn the_same_bytes_hash_the_same_and_different_bytes_do_not() {
    let a = request_hash(br#"{"dry_run":true}"#);
    let b = request_hash(br#"{"dry_run":true}"#);
    let c = request_hash(br#"{"dry_run":false}"#);
    assert_eq!(a, b);
    assert_ne!(a, c);
    assert_eq!(a.len(), 64);
}

#[test]
fn whitespace_differences_are_a_different_request() {
    let a = request_hash(br#"{"dry_run":true}"#);
    let b = request_hash(br#"{ "dry_run": true }"#);
    assert_ne!(a, b);
}

#[test]
fn the_request_hash_is_lowercase_sha256_hex() {
    assert_eq!(
        request_hash(b"abc"),
        "ba7816bf8f01cfea414140de5dae2223b00361a396177a9cb410ff61f20015ad"
    );
}

#[test]
fn a_blank_key_is_treated_as_absent() {
    assert!(read_key(KeyHeader::Text("   ")).expect("read").is_none());
    assert!(read_key(KeyHeader::Absent).expect("read").is_none());
}

#[test]
fn an_overlong_key_is_rejected_rather_than_truncated() {
    let long = "x".repeat(MAX_KEY_LEN + 1);
    match read_key(KeyHeader::Text(&long)) {
        Err(AppError::BadRequest(m)) => assert_eq!(m, "Idempotency-Key 超过 200 字符"),
        _ => panic!("an overlong key is refused"),
    }
    let exact = "x".repeat(MAX_KEY_LEN);
    assert_eq!(read_key(KeyHeader::Text(&exact)).expect("fits"), Some(exact));
    assert!(matches!(read_key(KeyHeader::NotAscii), Err(AppError::BadRequest(_))));
    assert_eq!(read_key(KeyHeader::Text(" k1 ")).expect("read"), Some("k1".to_string()));
}

#[test]
fn replays_keep_a_valid_status_and_rebuild_the_location() {
    assert_eq!(replay_status(201), 201);
    assert_eq!(replay_status(42), 200);
    assert_eq!(replay_status(1000), 200);
    assert_eq!(replay_location(Some("r1")).as_deref(), Some("/api/v1/runs/r1"));
    assert_eq!(replay_location(None), None);
    assert_eq!(json_source(b""), b"null".to_vec());
    assert_eq!(json_source(b"{}"), b"{}".to_vec());
    match parse_failure("oops") {
        AppError::BadRequest(m) => assert_eq!(m, "报文解析失败：oops"),
        _ => panic!(),
    }
}
