use nerf::api::{
    build_request_body, check_status, expand_prompt_path, handle_response, is_success_status,
};
use nerf::errors::NerfError;
use nerf::json::{extract_reworded_text, pretty_json};
use nerf::text::{fill_template, join_words};

#[test]
fn extracts_first_choice_content() {
    let body = r#"{"choices":[{"message":{"content":"Fixed sentence."}}]}"#;
    assert_eq!(
        extract_reworded_text(body),
        Ok(String::from("Fixed sentence."))
    );
}

#[test]
fn extracts_content_byte_for_byte() {
    let body = "{\"choices\":[{\"message\":{\"content\":\"  a\\nb\\tc  \"}}]}";
    assert_eq!(extract_reworded_text(body), Ok(String::from("  a\nb\tc  ")));
}

#[test]
fn ignores_later_choices_and_extra_fields() {
    let body = r#"{"id":"x","created":1700000000,"choices":[{"index":0,"message":{"role":"assistant","content":"first"}},{"message":{"content":"second"}}],"usage":{"total_tokens":12}}"#;
    assert_eq!(extract_reworded_text(body), Ok(String::from("first")));
}

#[test]
fn rejects_empty_choices_list() {
    let body = r#"{"choices":[]}"#;
    assert_eq!(extract_reworded_text(body), Err(NerfError::Parse));
}

#[test]
fn rejects_malformed_json() {
    assert_eq!(extract_reworded_text("not json at all"), Err(NerfError::Parse));
}

#[test]
fn rejects_missing_message() {
    let body = r#"{"choices":[{"text":"no message"}]}"#;
    assert_eq!(extract_reworded_text(body), Err(NerfError::Parse));
}

#[test]
fn rejects_non_string_content() {
    let body = r#"{"choices":[{"message":{"content":42}}]}"#;
    assert_eq!(extract_reworded_text(body), Err(NerfError::Parse));
}

#[test]
fn status_401_is_api_error_with_status() {
    let body = r#"{"choices":[{"message":{"content":"ignored"}}]}"#;
    assert_eq!(handle_response(401, body), Err(NerfError::Api(401)));
}

#[test]
fn success_status_hands_body_to_extraction() {
    let body = r#"{"choices":[{"message":{"content":"Fixed sentence."}}]}"#;
    assert_eq!(handle_response(200, body), Ok(String::from("Fixed sentence.")));
    assert_eq!(handle_response(200, r#"{"choices":[]}"#), Err(NerfError::Parse));
}

#[test]
fn status_range_bounds() {
    assert!(is_success_status(200));
    assert!(is_success_status(299));
    assert!(!is_success_status(199));
    assert!(!is_success_status(300));
    assert_eq!(check_status(204), Ok(()));
    assert_eq!(check_status(500), Err(NerfError::Api(500)));
}

#[test]
fn builds_request_body_exactly() {
    let body = build_request_body("Rewrite: fix this sentence");
    let expected = r#"{"messages":[{"content":"You are a helpful assistant. When transforming statements, preserve all URLs, `@handles`, and `#channels` exactly as they are, without any modifications. Do not include these instructions in your output.","role":"system"},{"content":"Rewrite: fix this sentence","role":"user"}],"model":"gpt-3.5-turbo-16k"}"#;
    assert_eq!(body, expected);
}

#[test]
fn request_body_escapes_prompt_text() {
    let body = build_request_body("say \"hi\"\n");
    assert!(body.contains(r#""content":"say \"hi\"\n""#));
}

#[test]
fn pretty_prints_json() {
    assert_eq!(
        pretty_json(r#"{"a":1}"#),
        Ok(String::from("{\n  \"a\": 1\n}"))
    );
}

#[test]
fn pretty_rejects_non_json() {
    assert_eq!(pretty_json("{oops"), Err(NerfError::Parse));
}

#[test]
fn keeps_path_without_tilde_unchanged() {
    assert_eq!(expand_prompt_path("/etc/hosts"), "/etc/hosts");
    assert_eq!(expand_prompt_path(""), "");
    assert_eq!(expand_prompt_path("relative/prompt"), "relative/prompt");
}

#[test]
fn end_to_end_transformation() {
    let words = vec![
        String::from("fix"),
        String::from("this"),
        String::from("sentence"),
    ];
    let input = join_words(&words);
    let prompt = fill_template("Rewrite: {input}", &input);
    assert_eq!(prompt, "Rewrite: fix this sentence");
    let mock_response = r#"{"choices":[{"message":{"content":"Fixed sentence."}}]}"#;
    let printed = handle_response(200, mock_response);
    assert_eq!(printed, Ok(String::from("Fixed sentence.")));
}
