use aitex::config::{ApiConfig, AppState};
use aitex::errors::PipelineError;
use aitex::validate::{check_pipeline_enabled, probe_outcome, validate_config_fields};

fn valid_config() -> ApiConfig {
    ApiConfig {
        enabled: true,
        provider: "provider".to_string(),
        api_url: "https://api.example.com/v1".to_string(),
        api_key: "0123456789abc".to_string(),
        model_name: "some-model".to_string(),
        system_prompt: "prompt".to_string(),
    }
}

#[test]
fn default_config_values() {
    let c = ApiConfig::default();
    assert!(c.enabled);
    assert_eq!(c.provider, "硅基流动");
    assert_eq!(c.api_url, "https://api.siliconflow.cn/v1");
    assert_eq!(c.api_key, "");
    assert_eq!(c.model_name, "Qwen/Qwen2.5-VL-72B-Instruct");
    assert!(c.system_prompt.contains("LaTeX"));
    assert!(c.system_prompt.contains("单行"));
}

#[test]
fn app_state_get_and_set() {
    let mut state = AppState::new(ApiConfig::default());
    assert_eq!(state.get().provider, "硅基流动");
    let mut replacement = valid_config();
    replacement.provider = "other".to_string();
    state.set(replacement);
    assert_eq!(state.get().provider, "other");
}

#[test]
fn short_api_key_fails_validation_before_any_network_call() {
    let mut c = valid_config();
    c.api_key = "12345".to_string();
    match validate_config_fields(&c) {
        Err(PipelineError::Config(m)) => assert_eq!(m, "API密钥长度似乎不正确，请检查"),
        other => panic!("expected a validation failure, got {:?}", other),
    }
}

#[test]
fn empty_provider_fails_first() {
    let mut c = valid_config();
    c.provider = "   ".to_string();
    c.api_url = "".to_string();
    match validate_config_fields(&c) {
        Err(PipelineError::Config(m)) => assert_eq!(m, "API提供商不能为空"),
        other => panic!("expected a validation failure, got {:?}", other),
    }
}

#[test]
fn empty_url_fails_second() {
    let mut c = valid_config();
    c.api_url = " \t ".to_string();
    match validate_config_fields(&c) {
        Err(PipelineError::Config(m)) => assert_eq!(m, "API地址不能为空"),
        other => panic!("expected a validation failure, got {:?}", other),
    }
}

#[test]
fn empty_key_fails_third() {
    let mut c = valid_config();
    c.api_key = "".to_string();
    match validate_config_fields(&c) {
        Err(PipelineError::Config(m)) => assert_eq!(m, "API密钥不能为空"),
        other => panic!("expected a validation failure, got {:?}", other),
    }
}

#[test]
fn empty_model_fails_fourth() {
    let mut c = valid_config();
    c.model_name = "\n".to_string();
    match validate_config_fields(&c) {
        Err(PipelineError::Config(m)) => assert_eq!(m, "模型名称不能为空"),
        other => panic!("expected a validation failure, got {:?}", other),
    }
}

#[test]
fn url_without_http_scheme_is_rejected() {
    let mut c = valid_config();
    c.api_url = "ftp://api.example.com".to_string();
    match validate_config_fields(&c) {
        Err(PipelineError::Config(m)) => assert_eq!(m, "API地址必须以 http:// 或 https:// 开头"),
        other => panic!("expected a validation failure, got {:?}", other),
    }
}

#[test]
fn http_and_https_schemes_are_accepted() {
    let mut c = valid_config();
    c.api_url = "http://127.0.0.1:8080/v1".to_string();
    assert!(validate_config_fields(&c).is_ok());
    c.api_url = "https://api.example.com/v1".to_string();
    assert!(validate_config_fields(&c).is_ok());
}

#[test]
fn disabled_pipeline_is_refused() {
    let mut c = valid_config();
    c.enabled = false;
    match check_pipeline_enabled(&c) {
        Err(PipelineError::Config(m)) => assert_eq!(m, "API未启用"),
        other => panic!("expected a refusal, got {:?}", other),
    }
}

#[test]
fn missing_credential_is_refused() {
    let mut c = valid_config();
    c.api_key = "".to_string();
    match check_pipeline_enabled(&c) {
        Err(PipelineError::Config(m)) => assert_eq!(m, "API密钥未配置"),
        other => panic!("expected a refusal, got {:?}", other),
    }
}

#[test]
fn enabled_configured_pipeline_may_run() {
    assert!(check_pipeline_enabled(&valid_config()).is_ok());
}

#[test]
fn probe_success_gives_the_confirmation_message() {
    match probe_outcome(200, "ignored".to_string()) {
        Ok(m) => assert_eq!(m, "API连接成功"),
        other => panic!("expected success, got {:?}", other),
    }
}

#[test]
fn probe_failure_carries_status_and_body() {
    match probe_outcome(503, "overloaded".to_string()) {
        Err(PipelineError::Http(s, b)) => {
            assert_eq!(s, 503);
            assert_eq!(b, "overloaded");
        }
        other => panic!("expected an HTTP failure, got {:?}", other),
    }
}
