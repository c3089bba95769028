//! Recognition endpoint configuration and the in-memory cell that owns it.

use vstd::prelude::*;

verus! {

/// Configuration of the recognition endpoint: which provider to call,
/// where, with which credential and model, and the system instruction
/// sent with every request.
#[derive(Debug, Clone)]
pub struct ApiConfig {
    pub enabled: bool,
    pub provider: String,
    pub api_url: String,
    pub api_key: String,
    pub model_name: String,
    pub system_prompt: String,
}

impl Default for ApiConfig {
    /// The defaults used when no persisted configuration exists: the
    /// pipeline enabled, a default provider and base URL, an empty
    /// credential, a default vision model, and a fixed system prompt
    /// demanding single-line LaTeX with no commentary.
    fn default() -> (r: Self)
        ensures
            r.enabled == true,
            r.provider@ == "硅基流动"@,
            r.api_url@ == "https://api.siliconflow.cn/v1"@,
            r.api_key@ == ""@,
            r.model_name@ == "Qwen/Qwen2.5-VL-72B-Instruct"@,
            r.system_prompt@ == "你是一个专业的数学公式识别系统，请严格按照以下要求操作：\n1. 专注识别图像中的数学公式、符号、希腊字母、运算符等\n2. 输出标准LaTeX代码，确保可被编译器解析\n3. 所有公式必须转换为单行格式（禁止使用\\begin{align}等多行环境）\n4. 多行公式用空格分隔或合并为单行\n5. 不添加解释性文字，直接输出纯净的LaTeX代码"@,
    {
        ApiConfig {
            enabled: true,
            provider: String::from_str("硅基流动"),
            api_url: String::from_str("https://api.siliconflow.cn/v1"),
            api_key: String::from_str(""),
            model_name: String::from_str("Qwen/Qwen2.5-VL-72B-Instruct"),
            system_prompt: String::from_str(
                "你是一个专业的数学公式识别系统，请严格按照以下要求操作：\n1. 专注识别图像中的数学公式、符号、希腊字母、运算符等\n2. 输出标准LaTeX代码，确保可被编译器解析\n3. 所有公式必须转换为单行格式（禁止使用\\begin{align}等多行环境）\n4. 多行公式用空格分隔或合并为单行\n5. 不添加解释性文字，直接输出纯净的LaTeX代码",
            ),
        }
    }
}

/// The single in-memory configuration cell. Callers snapshot the held
/// value with `get` and replace it wholesale with `set`; pipeline
/// components never hold a long-lived reference to it.
pub struct AppState {
    pub config: ApiConfig,
}

impl AppState {
    /// Creates a cell holding `config`.
    pub fn new(config: ApiConfig) -> (r: Self)
        ensures
            r.config == config,
    {
        AppState { config }
    }

    /// Reads the held configuration.
    pub fn get(&self) -> (r: &ApiConfig)
        ensures
            *r == self.config,
    {
        &self.config
    }

    /// Replaces the held configuration wholesale.
    pub fn set(&mut self, config: ApiConfig)
        ensures
            final(self).config == config,
    {
        self.config = config;
    }
}

} // verus!
