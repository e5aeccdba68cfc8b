use std::collections::BTreeMap;

use get_elastic_templates::copy_service::{begin_copy_run, CopyRun};
use get_elastic_templates::errors::EsError;
use get_elastic_templates::protocol::{build_put_body, handle_put_response};
use get_elastic_templates::script_content::ScriptContent;

#[test]
fn full_copy_completes_every_template() {
    let body = r#"{"metadata":{"stored_scripts":{"a":{},"b":{}}}}"#;
    let mut run = begin_copy_run(200, body).unwrap();
    let mut completions = 0;
    while let Some(name) = run.next_template() {
        assert!(!name.is_empty());
        run.record_completed();
        completions += 1;
    }
    assert!(run.finished());
    assert_eq!(completions, 2);
    assert_eq!(run.completed_names(), &vec!["a".to_string(), "b".to_string()]);
    assert!(run.failed_names().is_empty());
    assert!(run.summary().is_ok());
}

#[test]
fn upload_failure_skips_the_template_but_not_the_run() {
    let names = vec!["a".to_string(), "b".to_string()];
    let mut run = CopyRun::new(names);
    while let Some(name) = run.next_template() {
        let upload_status: u16 = if name.as_str() == "b" { 400 } else { 200 };
        match handle_put_response(upload_status, "rejected script") {
            Ok(()) => run.record_completed(),
            Err(_) => run.record_failed(),
        }
    }
    assert!(run.finished());
    assert_eq!(run.completed_names(), &vec!["a".to_string()]);
    assert_eq!(run.failed_names(), &vec!["b".to_string()]);
    assert!(run.summary().is_ok());
}

#[test]
fn enumeration_failure_stops_the_run_before_any_fetch() {
    let body = r#"{"metadata":{"other":{}}}"#;
    match begin_copy_run(200, body) {
        Err(EsError::MalformedResponse(_)) => {}
        other => panic!("expected a malformed-response error, got {:?}", other),
    }
}

#[test]
fn enumeration_bad_status_stops_the_run() {
    match begin_copy_run(500, "unavailable") {
        Err(EsError::RemoteStatusError(500, _)) => {}
        other => panic!("expected a remote-status error, got {:?}", other),
    }
}

fn run_copy_once(
    target: &mut BTreeMap<String, String>,
    names: &[String],
    source: &BTreeMap<String, ScriptContent>,
    accepted: &dyn Fn(&str) -> bool,
) {
    let mut run = CopyRun::new(names.to_vec());
    while let Some(name) = run.next_template() {
        let name = name.clone();
        let content = source.get(&name).unwrap();
        let body = build_put_body(content);
        if accepted(&name) {
            target.insert(name, body);
            run.record_completed();
        } else {
            run.record_failed();
        }
    }
    assert!(run.summary().is_ok());
}

#[test]
fn running_the_copy_twice_leaves_the_target_as_once() {
    let names = vec!["a".to_string(), "b".to_string(), "c".to_string()];
    let mut source = BTreeMap::new();
    source.insert("a".to_string(), ScriptContent::new("mustache".into(), "{{a}}".into()));
    source.insert("b".to_string(), ScriptContent::new("mustache".into(), "{{b}}".into()));
    source.insert("c".to_string(), ScriptContent::new("mustache".into(), "{{c}}".into()));
    let accepted = |name: &str| name != "b";

    let mut target_once = BTreeMap::new();
    target_once.insert("old".to_string(), "stale body".to_string());
    let mut target_twice = target_once.clone();

    run_copy_once(&mut target_once, &names, &source, &accepted);
    run_copy_once(&mut target_twice, &names, &source, &accepted);
    run_copy_once(&mut target_twice, &names, &source, &accepted);

    assert_eq!(target_once, target_twice);
    assert!(target_once.contains_key("a"));
    assert!(!target_once.contains_key("b"));
    assert!(target_once.contains_key("old"));
}
