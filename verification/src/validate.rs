//! Configuration validation: the ordered field checks run before any
//! network traffic, the fail-fast gate of the recognition pipeline,
//! and the outcome rule of the connectivity probe.

use vstd::prelude::*;
use crate::config::ApiConfig;
use crate::errors::PipelineError;
use crate::text::{has_prefix, str_has_prefix, trim_spec, trim_str};

verus! {

/// A field is blank when nothing but whitespace is in it.
pub open spec fn trimmed_empty(s: Seq<char>) -> bool {
    trim_spec(s).len() == 0
}

/// The field checks, in their fixed order, as the message of the
/// first violated one; `None` when every check passes. Later checks
/// never run when an earlier one fails.
pub open spec fn field_validation_error(c: ApiConfig) -> Option<Seq<char>> {
    if trimmed_empty(c.provider@) {
        Some("API提供商不能为空"@)
    } else if trimmed_empty(c.api_url@) {
        Some("API地址不能为空"@)
    } else if trimmed_empty(c.api_key@) {
        Some("API密钥不能为空"@)
    } else if trimmed_empty(c.model_name@) {
        Some("模型名称不能为空"@)
    } else if !has_prefix(c.api_url@, "http://"@) && !has_prefix(c.api_url@, "https://"@) {
        Some("API地址必须以 http:// 或 https:// 开头"@)
    } else if c.api_key@.len() < 10 {
        Some("API密钥长度似乎不正确，请检查"@)
    } else {
        None
    }
}

/// Checks the configuration's fields in order and fails on the first
/// violation with `Config` carrying that check's message. Pure: no
/// network traffic can have happened when this fails.
pub fn validate_config_fields(config: &ApiConfig) -> (r: Result<(), PipelineError>)
    ensures
        r is Ok <==> field_validation_error(*config) is None,
        (r matches Err(e) ==> e matches PipelineError::Config(m) && field_validation_error(
            *config,
        ) matches Some(t) && m@ == t),
{
    if trim_str(config.provider.as_str()).as_str().unicode_len() == 0 {
        return Err(PipelineError::Config(String::from_str("API提供商不能为空")));
    }
    if trim_str(config.api_url.as_str()).as_str().unicode_len() == 0 {
        return Err(PipelineError::Config(String::from_str("API地址不能为空")));
    }
    if trim_str(config.api_key.as_str()).as_str().unicode_len() == 0 {
        return Err(PipelineError::Config(String::from_str("API密钥不能为空")));
    }
    if trim_str(config.model_name.as_str()).as_str().unicode_len() == 0 {
        return Err(PipelineError::Config(String::from_str("模型名称不能为空")));
    }
    if !str_has_prefix(config.api_url.as_str(), "http://") && !str_has_prefix(
        config.api_url.as_str(),
        "https://",
    ) {
        return Err(PipelineError::Config(String::from_str("API地址必须以 http:// 或 https:// 开头")));
    }
    if config.api_key.as_str().unicode_len() < 10 {
        return Err(PipelineError::Config(String::from_str("API密钥长度似乎不正确，请检查")));
    }
    Ok(())
}

/// The fail-fast gate of the recognition pipeline: the message on
/// which it refuses to run, `None` when it may proceed. A disabled
/// pipeline is refused before a missing credential.
pub open spec fn pipeline_gate_error(c: ApiConfig) -> Option<Seq<char>> {
    if !c.enabled {
        Some("API未启用"@)
    } else if c.api_key@.len() == 0 {
        Some("API密钥未配置"@)
    } else {
        None
    }
}

/// Refuses a disabled pipeline or an empty credential with `Config`,
/// before any image decode or network I/O can happen. Pure.
pub fn check_pipeline_enabled(config: &ApiConfig) -> (r: Result<(), PipelineError>)
    ensures
        r is Ok <==> pipeline_gate_error(*config) is None,
        (r matches Err(e) ==> e matches PipelineError::Config(m) && pipeline_gate_error(*config)
            matches Some(t) && m@ == t),
{
    if !config.enabled {
        return Err(PipelineError::Config(String::from_str("API未启用")));
    }
    if config.api_key.as_str().unicode_len() == 0 {
        return Err(PipelineError::Config(String::from_str("API密钥未配置")));
    }
    Ok(())
}

/// The outcome rule of the connectivity probe: any 2xx status means
/// the endpoint answered and validation succeeds with the fixed
/// confirmation message; any other status fails with `Http` carrying
/// the status and the raw body.
pub fn probe_outcome(status: u16, body: String) -> (r: Result<String, PipelineError>)
    ensures
        200 <= status < 300 ==> (r matches Ok(m) && m@ == "API连接成功"@),
        !(200 <= status < 300) ==> (r matches Err(PipelineError::Http(s, b)) && s == status && b@
            == body@),
{
    if 200 <= status && status < 300 {
        Ok(String::from_str("API连接成功"))
    } else {
        Err(PipelineError::Http(status, body))
    }
}

} // verus!
