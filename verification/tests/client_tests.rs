use aitex::client::{bearer_token, check_status, completions_url, extract_reply, handle_response};
use aitex::config::ApiConfig;
use aitex::errors::PipelineError;

fn config_with_url_and_key(url: &str, key: &str) -> ApiConfig {
    let mut c = ApiConfig::default();
    c.api_url = url.to_string();
    c.api_key = key.to_string();
    c
}

#[test]
fn completions_url_appends_the_path() {
    let c = config_with_url_and_key("https://api.example.com/v1", "k");
    assert_eq!(completions_url(&c), "https://api.example.com/v1/chat/completions");
}

#[test]
fn bearer_token_prefixes_the_key() {
    let c = config_with_url_and_key("https://api.example.com/v1", "secret-key-123");
    assert_eq!(bearer_token(&c), "Bearer secret-key-123");
}

#[test]
fn http_401_fails_with_status_and_body() {
    match handle_response(401, "invalid key".to_string()) {
        Err(PipelineError::Http(s, b)) => {
            assert_eq!(s, 401);
            assert_eq!(b, "invalid key");
        }
        other => panic!("expected an HTTP failure, got {:?}", other),
    }
}

#[test]
fn status_boundaries_follow_the_2xx_rule() {
    assert!(check_status(200, String::new()).is_ok());
    assert!(check_status(299, String::new()).is_ok());
    assert!(matches!(check_status(199, String::new()), Err(PipelineError::Http(199, _))));
    assert!(matches!(check_status(300, String::new()), Err(PipelineError::Http(300, _))));
}

#[test]
fn malformed_json_fails_with_parse() {
    match handle_response(200, "not json at all".to_string()) {
        Err(PipelineError::Parse(_)) => {}
        other => panic!("expected a parse failure, got {:?}", other),
    }
}

#[test]
fn successful_response_is_extracted_and_sanitized() {
    let body = r#"{"choices":[{"message":{"content":"Sure! Here it is: $E=mc^2$ Hope that helps."}}]}"#;
    match handle_response(200, body.to_string()) {
        Ok(latex) => assert_eq!(latex, "$E=mc^2$"),
        other => panic!("expected success, got {:?}", other),
    }
}

#[test]
fn missing_content_path_degrades_to_empty() {
    for body in ["{}", r#"{"choices":[]}"#, r#"{"choices":[{"message":{}}]}"#, r#"{"choices":[{"message":{"content":7}}]}"#] {
        match handle_response(200, body.to_string()) {
            Ok(latex) => assert_eq!(latex, "", "body: {}", body),
            other => panic!("expected empty success for {}, got {:?}", body, other),
        }
    }
}

#[test]
fn extract_reply_trims_the_assistant_text() {
    let body = r#"{"choices":[{"message":{"content":"  \\alpha  "}}]}"#;
    assert_eq!(extract_reply(body).unwrap(), "\\alpha");
}

#[test]
fn extract_reply_ignores_extra_response_fields() {
    let body = r#"{"id":"x","object":"chat.completion","choices":[{"index":0,"message":{"role":"assistant","content":"$a+b$"},"finish_reason":"stop"}],"usage":{"total_tokens":5}}"#;
    assert_eq!(extract_reply(body).unwrap(), "$a+b$");
}

#[test]
fn extract_reply_fails_with_parse_on_malformed_json() {
    match extract_reply("{not json") {
        Err(PipelineError::Parse(_)) => {}
        other => panic!("expected a parse failure, got {:?}", other),
    }
}

#[test]
fn extract_reply_degrades_to_empty_on_a_non_string_path() {
    assert_eq!(extract_reply(r#"{"choices":[{"message":{"content":42}}]}"#).unwrap(), "");
    assert_eq!(extract_reply(r#"{"choices":"none"}"#).unwrap(), "");
    assert_eq!(extract_reply("null").unwrap(), "");
}
