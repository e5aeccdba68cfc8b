use get_elastic_templates::errors::EsError;
use get_elastic_templates::protocol::{
    build_put_body, handle_get_response, handle_list_response, handle_put_response,
    is_success_status, script_endpoint,
};
use get_elastic_templates::script_content::ScriptContent;

#[test]
fn success_statuses_are_the_two_hundreds() {
    assert!(is_success_status(200));
    assert!(is_success_status(201));
    assert!(is_success_status(299));
    assert!(!is_success_status(199));
    assert!(!is_success_status(300));
    assert!(!is_success_status(404));
    assert!(!is_success_status(503));
}

#[test]
fn list_response_yields_the_stored_script_names() {
    let body = r#"{"metadata":{"stored_scripts":{"a":{"lang":"mustache"},"b":{"lang":"mustache"}}}}"#;
    let names = handle_list_response(200, body).unwrap();
    assert_eq!(names, vec!["a".to_string(), "b".to_string()]);
}

#[test]
fn list_response_without_stored_scripts_is_malformed() {
    let body = r#"{"metadata":{}}"#;
    match handle_list_response(200, body) {
        Err(EsError::MalformedResponse(_)) => {}
        other => panic!("expected a malformed-response error, got {:?}", other),
    }
}

#[test]
fn list_response_with_non_object_stored_scripts_is_malformed() {
    let body = r#"{"metadata":{"stored_scripts":3}}"#;
    match handle_list_response(200, body) {
        Err(EsError::MalformedResponse(_)) => {}
        other => panic!("expected a malformed-response error, got {:?}", other),
    }
}

#[test]
fn list_response_with_unparseable_body_is_malformed() {
    match handle_list_response(200, "not json at all") {
        Err(EsError::MalformedResponse(_)) => {}
        other => panic!("expected a malformed-response error, got {:?}", other),
    }
}

#[test]
fn list_response_with_bad_status_reports_the_status() {
    match handle_list_response(503, "unavailable") {
        Err(EsError::RemoteStatusError(status, body)) => {
            assert_eq!(status, 503);
            assert_eq!(body, "unavailable");
        }
        other => panic!("expected a remote-status error, got {:?}", other),
    }
}

#[test]
fn get_response_yields_the_template() {
    let body = r#"{"_id":"tmpl1","found":true,"script":{"lang":"mustache","source":"{{a}}"}}"#;
    let content = handle_get_response(200, body).unwrap();
    assert_eq!(content.lang().as_str(), "mustache");
    assert_eq!(content.source().as_str(), "{{a}}");
}

#[test]
fn get_response_without_script_member_is_not_found() {
    let body = r#"{"_id":"tmpl1","found":false}"#;
    match handle_get_response(200, body) {
        Err(EsError::TemplateNotFound(_)) => {}
        other => panic!("expected a template-not-found error, got {:?}", other),
    }
}

#[test]
fn get_response_with_incomplete_script_is_malformed() {
    let body = r#"{"script":{"lang":"mustache"}}"#;
    match handle_get_response(200, body) {
        Err(EsError::MalformedResponse(_)) => {}
        other => panic!("expected a malformed-response error, got {:?}", other),
    }
}

#[test]
fn get_response_with_bad_status_reports_the_status() {
    match handle_get_response(404, "missing") {
        Err(EsError::RemoteStatusError(status, body)) => {
            assert_eq!(status, 404);
            assert_eq!(body, "missing");
        }
        other => panic!("expected a remote-status error, got {:?}", other),
    }
}

#[test]
fn put_response_succeeds_on_success_status() {
    assert!(handle_put_response(200, "").is_ok());
    assert!(handle_put_response(201, "created").is_ok());
}

#[test]
fn put_response_carries_the_body_text_on_failure() {
    match handle_put_response(400, "bad script") {
        Err(EsError::RemoteStatusError(status, body)) => {
            assert_eq!(status, 400);
            assert_eq!(body, "bad script");
        }
        other => panic!("expected a remote-status error, got {:?}", other),
    }
}

#[test]
fn put_body_serializes_the_script_object() {
    let content = ScriptContent::new("mustache".to_string(), "{{a}}".to_string());
    let body = build_put_body(&content);
    assert_eq!(body, r#"{"script":{"lang":"mustache","source":"{{a}}"}}"#);
}

#[test]
fn uploaded_template_fetches_back_equal() {
    let content = ScriptContent::new("mustache".to_string(), "{{a}}".to_string());
    let endpoint = script_endpoint("tmpl1");
    assert_eq!(endpoint, "/_scripts/tmpl1");
    let body = build_put_body(&content);
    let fetched = handle_get_response(200, &body).unwrap();
    assert_eq!(fetched, content);
}

#[test]
fn round_trip_survives_escaping() {
    let content = ScriptContent::new(
        "mustache".to_string(),
        "line one\n\t\"quoted\" \\ {{value}} \u{263a}".to_string(),
    );
    let body = build_put_body(&content);
    let fetched = handle_get_response(200, &body).unwrap();
    assert_eq!(fetched, content);
}

#[test]
fn endpoint_appends_the_template_name() {
    assert_eq!(script_endpoint("a"), "/_scripts/a");
    assert_eq!(script_endpoint(""), "/_scripts/");
}
