use bmo::errors::{BmoError, ErrorCode, ParseError};

#[test]
fn error_envelope_has_code() {
    let mut map = serde_json::Map::new();
    map.insert("ok".to_string(), serde_json::Value::Bool(false));
    map.insert("error".to_string(), serde_json::Value::String("not found".to_string()));
    map.insert(
        "code".to_string(),
        serde_json::Value::String(ErrorCode::NotFound.as_str().to_string()),
    );
    let out = serde_json::Value::Object(map);
    assert_eq!(out["ok"], false);
    assert_eq!(out["code"], "not-found");
}

#[test]
fn error_codes() {
    assert_eq!(ErrorCode::General.exit_code(), 1);
    assert_eq!(ErrorCode::NotFound.exit_code(), 2);
    assert_eq!(ErrorCode::Validation.exit_code(), 3);
    assert_eq!(ErrorCode::Conflict.exit_code(), 4);
}

#[test]
fn code_names() {
    assert_eq!(ErrorCode::General.as_str(), "general");
    assert_eq!(ErrorCode::NotFound.as_str(), "not-found");
    assert_eq!(ErrorCode::Validation.as_str(), "validation");
    assert_eq!(ErrorCode::Conflict.as_str(), "conflict");
}

#[test]
fn each_error_has_its_code() {
    let cases = [
        (BmoError::NotFound("issue 9 not found".to_string()), ErrorCode::NotFound),
        (BmoError::Validation("bad".to_string()), ErrorCode::Validation),
        (BmoError::Conflict("taken".to_string()), ErrorCode::Conflict),
        (BmoError::Db("locked".to_string()), ErrorCode::General),
    ];
    for (e, code) in cases.iter() {
        assert_eq!(ErrorCode::of(e), *code);
        assert_eq!(ErrorCode::from(e), *code);
    }
    let io = BmoError::Io(std::io::Error::new(std::io::ErrorKind::Other, "disk"));
    assert_eq!(ErrorCode::of(&io), ErrorCode::General);
}

#[test]
fn error_messages() {
    assert_eq!(BmoError::NotFound("issue 9 not found".to_string()).message(), "not found: issue 9 not found");
    assert_eq!(BmoError::Validation("bad".to_string()).message(), "validation error: bad");
    assert_eq!(BmoError::Conflict("taken".to_string()).message(), "conflict: taken");
    assert_eq!(BmoError::Db("locked".to_string()).message(), "database error: locked");
    assert_eq!(ParseError::InvalidIssueId("x".to_string()).message(), "invalid issue ID: x");
    assert_eq!(ParseError::UnknownKind("x".to_string()).message(), "unknown kind: x");
    assert_eq!(ParseError::UnknownPriority("x".to_string()).message(), "unknown priority: x");
    assert_eq!(ParseError::UnknownRelationKind("x".to_string()).message(), "unknown relation kind: x");
}

#[test]
fn io_errors_show_their_cause() {
    let e = BmoError::Io(std::io::Error::new(std::io::ErrorKind::Other, "disk full"));
    let m = e.message();
    assert!(m.starts_with("io error: "));
    assert!(m.ends_with("disk full"));
}
