use aitex::config::ApiConfig;
use aitex::json::render_request;
use aitex::request::{build_probe_request, build_recognition_request, request_image_b64};

fn small_config() -> ApiConfig {
    ApiConfig {
        enabled: true,
        provider: "p".to_string(),
        api_url: "https://api.example.com/v1".to_string(),
        api_key: "0123456789".to_string(),
        model_name: "m".to_string(),
        system_prompt: "sys".to_string(),
    }
}

#[test]
fn probe_request_renders_to_the_exact_body() {
    let req = build_probe_request(&small_config());
    let body = render_request(&req);
    let expected = "{\"model\":\"m\",\"messages\":[{\"role\":\"system\",\"content\":\"sys\"},{\"role\":\"user\",\"content\":\"Hello, this is a test message.\"}],\"max_tokens\":10,\"temperature\":0.2}";
    assert_eq!(body, expected);
}

#[test]
fn recognition_request_embeds_the_base64_png() {
    let req = build_recognition_request(&small_config(), &vec![1u8, 2, 3]);
    // AQID is the standard-alphabet base64 of the bytes 1, 2, 3.
    assert_eq!(request_image_b64(&req).as_deref(), Some("AQID"));
}

#[test]
fn base64_padding_is_kept() {
    let req = build_recognition_request(&small_config(), &vec![255u8]);
    assert_eq!(request_image_b64(&req).as_deref(), Some("/w=="));
}

#[test]
fn rendered_recognition_body_round_trips_through_a_json_parser() {
    let png = vec![1u8, 2, 3];
    let req = build_recognition_request(&small_config(), &png);
    let body = render_request(&req);
    let v: serde_json::Value = serde_json::from_str(&body).unwrap();
    assert_eq!(v.get("model").unwrap().as_str().unwrap(), "m");
    assert_eq!(v.get("max_tokens").unwrap().as_u64().unwrap(), 1024);
    assert_eq!(v.get("temperature").unwrap().as_f64().unwrap(), 0.2);
    let messages = v.get("messages").unwrap().as_array().unwrap();
    assert_eq!(messages.len(), 2);
    assert_eq!(messages[0].get("role").unwrap().as_str().unwrap(), "system");
    assert_eq!(messages[0].get("content").unwrap().as_str().unwrap(), "sys");
    assert_eq!(messages[1].get("role").unwrap().as_str().unwrap(), "user");
    let parts = messages[1].get("content").unwrap().as_array().unwrap();
    assert_eq!(parts.len(), 2);
    assert_eq!(parts[0].get("type").unwrap().as_str().unwrap(), "image_url");
    let url = parts[0].get("image_url").unwrap().get("url").unwrap().as_str().unwrap();
    assert_eq!(url, "data:image/png;base64,AQID");
    assert_eq!(parts[1].get("type").unwrap().as_str().unwrap(), "text");
    assert_eq!(
        parts[1].get("text").unwrap().as_str().unwrap(),
        "请识别图像中的数学公式，输出纯净的LaTeX代码"
    );
}

#[test]
fn escaping_round_trips_through_a_json_parser() {
    let mut c = small_config();
    c.system_prompt = "line1\nline2\t\"quoted\" \\backslash\\ 中文 \u{1}control".to_string();
    let req = build_probe_request(&c);
    let body = render_request(&req);
    let v: serde_json::Value = serde_json::from_str(&body).unwrap();
    let messages = v.get("messages").unwrap().as_array().unwrap();
    assert_eq!(
        messages[0].get("content").unwrap().as_str().unwrap(),
        "line1\nline2\t\"quoted\" \\backslash\\ 中文 \u{1}control"
    );
}

#[test]
fn empty_image_yields_an_empty_payload() {
    let req = build_recognition_request(&small_config(), &Vec::new());
    assert_eq!(request_image_b64(&req).as_deref(), Some(""));
}

#[test]
fn probe_request_carries_no_image_payload() {
    let req = build_probe_request(&small_config());
    assert!(request_image_b64(&req).is_none());
}
