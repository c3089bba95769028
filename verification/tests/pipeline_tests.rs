use aitex::config::ApiConfig;
use aitex::errors::PipelineError;
use aitex::pipeline::prepare_recognition;

fn ready_config() -> ApiConfig {
    let mut c = ApiConfig::default();
    c.api_key = "0123456789abc".to_string();
    c
}

fn tiny_png() -> Vec<u8> {
    let img = image::RgbImage::from_raw(1, 1, vec![200u8, 200, 200]).unwrap();
    let mut buf = Vec::new();
    img.write_to(&mut std::io::Cursor::new(&mut buf), image::ImageFormat::Png).unwrap();
    buf
}

#[test]
fn disabled_pipeline_is_refused_before_decoding() {
    let mut c = ready_config();
    c.enabled = false;
    match prepare_recognition(&c, &tiny_png()) {
        Err(PipelineError::Config(m)) => assert_eq!(m, "API未启用"),
        other => panic!("expected a refusal, got {:?}", other),
    }
}

#[test]
fn unconfigured_credential_is_refused_before_decoding() {
    let mut c = ready_config();
    c.api_key = String::new();
    match prepare_recognition(&c, &tiny_png()) {
        Err(PipelineError::Config(m)) => assert_eq!(m, "API密钥未配置"),
        other => panic!("expected a refusal, got {:?}", other),
    }
}

#[test]
fn undecodable_input_fails_with_decode() {
    match prepare_recognition(&ready_config(), &vec![0u8; 16]) {
        Err(PipelineError::Decode(_)) => {}
        other => panic!("expected a decode failure, got {:?}", other),
    }
}

#[test]
fn prepared_body_is_a_recognition_request_with_the_png_inlined() {
    let body = prepare_recognition(&ready_config(), &tiny_png()).unwrap();
    let v: serde_json::Value = serde_json::from_str(&body).unwrap();
    assert_eq!(v.get("max_tokens").unwrap().as_u64().unwrap(), 1024);
    let messages = v.get("messages").unwrap().as_array().unwrap();
    let parts = messages[1].get("content").unwrap().as_array().unwrap();
    let url = parts[0].get("image_url").unwrap().get("url").unwrap().as_str().unwrap();
    let b64 = url.strip_prefix("data:image/png;base64,").unwrap();
    // The inlined payload must decode as a PNG of the normalized pixels.
    let png = base64::Engine::decode(&base64::engine::general_purpose::STANDARD, b64).unwrap();
    let decoded = image::load_from_memory(&png).unwrap().to_rgb8();
    assert_eq!(decoded.dimensions(), (1, 1));
    assert_eq!(decoded.into_raw(), vec![200u8, 200, 200]);
}
