use std::collections::BTreeMap;
use vrl_python::runtime::{VRLError, VRLRuntime};

fn object(entries: &[(&str, vrl::value::Value)]) -> vrl::value::Value {
    let mut map = BTreeMap::new();
    for (k, v) in entries {
        map.insert((*k).into(), v.clone());
    }
    vrl::value::Value::Object(map)
}

#[test]
fn execute_assigns_field_on_empty_event() {
    let mut rt = VRLRuntime::new(None).unwrap();
    let res = rt.execute(".a = 1".to_string(), object(&[])).ok().unwrap();
    assert_eq!(res.processed_event, object(&[("a", vrl::value::Value::Integer(1))]));
    assert_eq!(res.runtime_result, vrl::value::Value::Integer(1));
}

#[test]
fn execute_derives_field_from_input() {
    let mut rt = VRLRuntime::new(None).unwrap();
    let event = object(&[("y", vrl::value::Value::Integer(2))]);
    let res = rt.execute(".x = (.y + 1) ?? 0".to_string(), event).ok().unwrap();
    assert_eq!(
        res.processed_event,
        object(&[("y", vrl::value::Value::Integer(2)), ("x", vrl::value::Value::Integer(3))])
    );
    assert_eq!(res.runtime_result, vrl::value::Value::Integer(3));
}

#[test]
fn compile_reports_invalid_syntax() {
    let mut rt = VRLRuntime::new(None).unwrap();
    let source = "this is not valid syntax !!!";
    match rt.compile(source.to_string()) {
        Err(VRLError::Compile(d)) => {
            assert!(!d.messages.is_empty());
            assert!(d.formatted_message.contains(source));
            assert!(d.message().contains(source));
        }
        _ => panic!("expected a compile error"),
    }
    assert!(!rt.is_compiled());
}

#[test]
fn unknown_timezone_is_rejected() {
    match VRLRuntime::new(Some("not-a-real-zone".to_string())) {
        Err(VRLError::InvalidTimezone(name)) => assert_eq!(name, "not-a-real-zone"),
        _ => panic!("expected an invalid time zone"),
    }
}

#[test]
fn local_and_named_timezones_are_accepted() {
    assert!(VRLRuntime::new(Some(String::new())).is_ok());
    assert!(VRLRuntime::new(Some("local".to_string())).is_ok());
    assert!(VRLRuntime::new(Some("UTC".to_string())).is_ok());
    assert!(VRLRuntime::new(Some("Asia/Shanghai".to_string())).is_ok());
}

#[test]
fn clear_cache_then_execute_compiles_again() {
    let mut rt = VRLRuntime::new(None).unwrap();
    assert_eq!(rt.compile(".a = 1".to_string()).ok(), Some(true));
    assert!(rt.is_compiled());
    rt.clear_cache();
    assert!(!rt.is_compiled());
    rt.clear_cache();
    assert!(!rt.is_compiled());
    let res = rt.execute(".a = 1".to_string(), object(&[])).ok().unwrap();
    assert_eq!(res.runtime_result, vrl::value::Value::Integer(1));
    assert!(rt.is_compiled());
}

#[test]
fn execute_twice_with_same_source() {
    let mut rt = VRLRuntime::new(None).unwrap();
    let first = rt.execute(".a = 1".to_string(), object(&[])).ok().unwrap();
    let second = rt.execute(".a = 1".to_string(), object(&[("b", vrl::value::Value::Boolean(true))])).ok().unwrap();
    assert_eq!(first.processed_event, object(&[("a", vrl::value::Value::Integer(1))]));
    assert_eq!(
        second.processed_event,
        object(&[("a", vrl::value::Value::Integer(1)), ("b", vrl::value::Value::Boolean(true))])
    );
}

#[test]
fn check_syntax_does_not_disturb_execution() {
    assert!(VRLRuntime::check_syntax("this is not valid syntax !!!".to_string()).is_some());
    assert!(VRLRuntime::check_syntax(".a = 1".to_string()).is_none());
    let mut rt = VRLRuntime::new(None).unwrap();
    let res = rt.execute(".a = 2".to_string(), object(&[])).ok().unwrap();
    assert_eq!(res.runtime_result, vrl::value::Value::Integer(2));
}

#[test]
fn failed_compile_keeps_previous_program() {
    let mut rt = VRLRuntime::new(None).unwrap();
    assert!(rt.compile(".a = 1".to_string()).is_ok());
    assert!(rt.compile("this is not valid syntax !!!".to_string()).is_err());
    assert!(rt.is_compiled());
    match rt.execute("still not valid !!!".to_string(), object(&[])) {
        Err(VRLError::Compile(_)) => {}
        _ => panic!("expected a compile error"),
    }
    assert!(rt.is_compiled());
}

#[test]
fn termination_gives_runtime_diagnostic() {
    let mut rt = VRLRuntime::new(None).unwrap();
    match rt.execute(".a = 1\nabort".to_string(), object(&[])) {
        Err(VRLError::Runtime(d)) => {
            assert_eq!(d.messages.len(), 1);
            assert!(!d.formatted_message.is_empty());
        }
        _ => panic!("expected a runtime error"),
    }
}

#[test]
fn run_is_stateless() {
    let res = VRLRuntime::run(".a = 1".to_string(), object(&[]), None).ok().unwrap();
    assert_eq!(res.runtime_result, vrl::value::Value::Integer(1));
    match VRLRuntime::run(".a = 1".to_string(), object(&[]), Some("nowhere".to_string())) {
        Err(VRLError::InvalidTimezone(_)) => {}
        _ => panic!("expected an invalid time zone"),
    }
}

#[test]
fn unhandled_fallible_addition_is_a_compile_error() {
    let mut rt = VRLRuntime::new(None).unwrap();
    let event = object(&[("y", vrl::value::Value::Integer(2))]);
    match rt.execute(".x = .y + 1".to_string(), event) {
        Err(VRLError::Compile(d)) => {
            assert_eq!(d.messages.len(), 1);
            assert!(d.formatted_message.contains(".x = .y + 1"));
        }
        _ => panic!("expected a compile error"),
    }
    assert!(!rt.is_compiled());
}

#[test]
fn standard_library_functions_are_available() {
    let mut rt = VRLRuntime::new(None).unwrap();
    let res = rt.execute(".a = upcase(\"abc\")".to_string(), object(&[])).ok().unwrap();
    assert_eq!(res.runtime_result, vrl::value::Value::from("ABC"));
    assert!(VRLRuntime::check_syntax("to_int!(\"1\")".to_string()).is_none());
}

#[test]
fn engine_keeps_the_zone_it_was_made_with() {
    assert_eq!(VRLRuntime::new(None).unwrap().timezone_name(), None);
    assert_eq!(VRLRuntime::new(Some(String::new())).unwrap().timezone_name(), None);
    assert_eq!(VRLRuntime::new(Some("local".to_string())).unwrap().timezone_name(), None);
    let mut rt = VRLRuntime::new(Some("UTC".to_string())).unwrap();
    assert_eq!(rt.timezone_name(), Some("UTC".to_string()));
    assert!(rt.compile(".a = 1".to_string()).is_ok());
    rt.clear_cache();
    assert_eq!(rt.timezone_name(), Some("UTC".to_string()));
}

#[test]
fn compile_diagnostic_matches_syntax_check() {
    let source = "this is not valid syntax !!!";
    let checked = VRLRuntime::check_syntax(source.to_string()).unwrap();
    let mut rt = VRLRuntime::new(None).unwrap();
    match rt.compile(source.to_string()) {
        Err(VRLError::Compile(d)) => {
            assert_eq!(d.messages, checked.messages);
            assert_eq!(d.formatted_message, checked.formatted_message);
            assert!(!d.colored_message.is_empty());
        }
        _ => panic!("expected a compile error"),
    }
}

#[test]
fn runtime_diagnostic_message_is_the_termination_text() {
    let mut rt = VRLRuntime::new(None).unwrap();
    match rt.execute("abort \"stopped here\"".to_string(), object(&[])) {
        Err(VRLError::Runtime(d)) => {
            assert_eq!(d.messages.len(), 1);
            assert!(d.messages[0].contains("stopped here"));
            assert!(!d.colored_message.is_empty());
        }
        _ => panic!("expected a runtime error"),
    }
}

#[test]
fn crypto_and_environment_functions_compile() {
    assert!(VRLRuntime::check_syntax("sha2(\"abc\")".to_string()).is_none());
    assert!(VRLRuntime::check_syntax("get_env_var(\"HOME\") ?? \"\"".to_string()).is_none());
}

#[test]
fn prepare_compiles_once_and_keeps_a_failed_source_out() {
    let mut rt = VRLRuntime::new(None).unwrap();
    let source = ".a = 1".to_string();
    assert!(rt.prepare(&source).is_ok());
    assert!(rt.is_cached(&source));
    assert!(rt.prepare(&source).is_ok());
    let bad = "this is not valid syntax !!!".to_string();
    match rt.prepare(&bad) {
        Err(VRLError::Compile(d)) => assert!(d.formatted_message.contains("this is not valid syntax !!!")),
        _ => panic!("expected a compile error"),
    }
    assert!(rt.is_cached(&source));
    assert!(!rt.is_cached(&bad));
}
