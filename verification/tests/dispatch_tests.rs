use zenweb::dispatch::Prep;
use zenweb::dispatch::RequestError;
use zenweb::dispatch::prepare;
use zenweb::dispatch::shape_response;
use zenweb::input::BODY_CAP;
use zenweb::input::bound_body;
use zenweb::registry::ContractFile;
use zenweb::registry::Registry;

fn echo_registry() -> Registry {
    let files = vec![ContractFile {
        name: String::from("echo"),
        script: b"Given nothing, print the data".to_vec(),
        keys: None,
    }];
    Registry::build(files).unwrap()
}

#[test]
fn unknown_contract_is_not_found() {
    let reg = echo_registry();
    match prepare(&reg, &String::from("does-not-exist"), None) {
        Prep::NotFound => {}
        _ => panic!("an unknown name must yield the not-found outcome"),
    }
    match prepare(&reg, &String::from("does-not-exist"), Some(b"{}".to_vec())) {
        Prep::NotFound => {}
        _ => panic!("an unknown name must yield the not-found outcome, body or not"),
    }
}

#[test]
fn bodyless_request_runs_with_empty_input() {
    let reg = echo_registry();
    match prepare(&reg, &String::from("echo"), None) {
        Prep::Run { script, keys, input } => {
            assert_eq!(script, b"Given nothing, print the data".to_vec());
            assert_eq!(keys, Vec::<u8>::new());
            assert_eq!(input, Vec::<u8>::new());
        }
        _ => panic!("a known contract with no body must run"),
    }
}

#[test]
fn body_is_passed_through_unchanged() {
    let reg = echo_registry();
    match prepare(&reg, &String::from("echo"), Some(b"{\"a\":1}".to_vec())) {
        Prep::Run { input, .. } => assert_eq!(input, b"{\"a\":1}".to_vec()),
        _ => panic!("a known contract with a small body must run"),
    }
}

#[test]
fn oversized_body_is_cut_to_exactly_the_cap() {
    let reg = echo_registry();
    let body = vec![b'a'; BODY_CAP + 5];
    match prepare(&reg, &String::from("echo"), Some(body)) {
        Prep::Run { input, .. } => {
            assert_eq!(input.len(), BODY_CAP);
            assert!(input.iter().all(|&b| b == b'a'));
        }
        _ => panic!("an oversized body must be truncated, not rejected"),
    }
}

#[test]
fn bound_body_truncates_only_past_the_cap() {
    assert_eq!(bound_body(None), Vec::<u8>::new());
    let small = vec![7u8; 100];
    assert_eq!(bound_body(Some(small.clone())), small);
    let exact = vec![7u8; BODY_CAP];
    assert_eq!(bound_body(Some(exact.clone())), exact);
    let big = vec![7u8; BODY_CAP + 1];
    assert_eq!(bound_body(Some(big)).len(), BODY_CAP);
}

#[test]
fn non_text_body_is_an_internal_error() {
    let reg = echo_registry();
    match prepare(&reg, &String::from("echo"), Some(vec![0xff, 0xfe])) {
        Prep::Invalid(RequestError::NotText) => {}
        _ => panic!("a non-UTF-8 body must be rejected as not text"),
    }
}

#[test]
fn truncation_that_cuts_a_character_is_an_internal_error() {
    let reg = echo_registry();
    let mut body = vec![b'a'; BODY_CAP - 1];
    body.extend_from_slice("é".as_bytes());
    assert_eq!(body.len(), BODY_CAP + 1);
    match prepare(&reg, &String::from("echo"), Some(body)) {
        Prep::Invalid(RequestError::NotText) => {}
        _ => panic!("the truncated input, not the full one, must be validated"),
    }
}

#[test]
fn nul_in_body_is_an_internal_error() {
    let reg = echo_registry();
    match prepare(&reg, &String::from("echo"), Some(b"a\0b".to_vec())) {
        Prep::Invalid(RequestError::EmbeddedNul) => {}
        _ => panic!("an embedded NUL in the body must be rejected"),
    }
}

#[test]
fn successful_run_renders_the_fixed_document() {
    let rendered = shape_response(true, "{\"a\":1}", "").unwrap();
    assert_eq!(
        rendered,
        "{\n    \"ret\": 1,\n    \"out\": {\n        \"a\": 1\n    },\n    \"err\": \"\"\n}"
    );
}

#[test]
fn engine_failure_is_still_a_normal_response() {
    let rendered = shape_response(false, "{}", "verification failed").unwrap();
    assert_eq!(
        rendered,
        "{\n    \"ret\": 0,\n    \"out\": {},\n    \"err\": \"verification failed\"\n}"
    );
}

#[test]
fn unparseable_engine_output_is_an_internal_error() {
    match shape_response(true, "not structured data", "") {
        Err(RequestError::UnparsableOutput) => {}
        _ => panic!("unparseable engine output must not become a normal response"),
    }
    match shape_response(true, "", "logs") {
        Err(RequestError::UnparsableOutput) => {}
        _ => panic!("empty engine output must not become a normal response"),
    }
}

#[test]
fn identical_outcomes_render_identical_documents() {
    let first = shape_response(true, "{\"a\":1}", "log line").unwrap();
    let second = shape_response(true, "{\"a\":1}", "log line").unwrap();
    assert_eq!(first, second);
}

#[test]
fn engine_output_values_pass_through() {
    let rendered = shape_response(true, "[1, 2, 3]", "warn").unwrap();
    assert_eq!(
        rendered,
        "{\n    \"ret\": 1,\n    \"out\": [\n        1,\n        2,\n        3\n    ],\n    \"err\": \"warn\"\n}"
    );
}
