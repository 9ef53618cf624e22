use query_guard::error::ValidationError;
use query_guard::form::TestParams;
use query_guard::respond::{index, json_response, ContentKind, EncodingError, QueryError, Rendered};

fn fail() -> ValidationError {
    ValidationError::new("fail")
}

#[test]
fn plain_rendering() {
    assert_eq!(
        fail().render_plain(),
        Rendered { status: 400, content_type: ContentKind::Plain, body: Some("msg: fail".to_string()) }
    );
}

#[test]
fn json_rendering() {
    assert_eq!(
        fail().render_json(),
        Rendered { status: 400, content_type: ContentKind::Json, body: Some("{\"message\":\"fail\"}".to_string()) }
    );
}

#[test]
fn json_rendering_escapes_reason() {
    let e = ValidationError::new("a\"b\\c\n");
    assert_eq!(e.render_json().body, Some("{\"message\":\"a\\\"b\\\\c\\n\"}".to_string()));
}

#[test]
fn encoding_failure_is_server_error() {
    let r = json_response(Err(EncodingError));
    assert_eq!(r.status, 500);
    assert_eq!(r.body, None);
}

#[test]
fn query_error_renders_as_json() {
    let q = QueryError { message: "must be between -90 and 90.".to_string() };
    assert_eq!(
        q.respond_to().body,
        Some("{\"message\":\"must be between -90 and 90.\"}".to_string())
    );
}

#[test]
fn handler_greets_or_fails() {
    let ok = TestParams::from_query("name=Alice&lat=45").unwrap();
    assert_eq!(query_guard::respond::test(ok).unwrap(), "Hello Mr Alice");
    let bad = TestParams::from_query("name=Bob&lat=200").unwrap();
    assert_eq!(query_guard::respond::test(bad).unwrap_err(), QueryError { message: "must be between -90 and 90.".to_string() });
}

#[test]
fn index_greets() {
    assert_eq!(index(), "Hello, world!");
}

#[test]
fn json_rendering_escapes_control_characters() {
    let e = ValidationError::new("\u{1}\t\u{1f}");
    assert_eq!(e.render_json().body, Some("{\"message\":\"\\u0001\\t\\u001f\"}".to_string()));
}
