//! Chat-completion request construction: the provider-agnostic request
//! model, the fixed recognition and probe payloads, and the JSON wire
//! form the client sends.

use vstd::prelude::*;
use crate::config::ApiConfig;

verus! {

/// What base64 standard-alphabet encoding with padding yields for a
/// byte sequence.
pub uninterp spec fn base64_of(bytes: Seq<u8>) -> Seq<char>;

/// Relies on base64's `STANDARD` engine `encode`: standard alphabet
/// with `=` padding and no line wrapping, a function of the bytes
/// alone, four output characters for every three input bytes rounded
/// up.
#[verifier::external_body]
fn base64_encode(bytes: &Vec<u8>) -> (r: String)
    ensures
        r@ == base64_of(bytes@),
        r@.len() == 4 * ((bytes@.len() + 2) / 3),
{
    base64::Engine::encode(&base64::engine::general_purpose::STANDARD, bytes.as_slice())
}

/// One entry of a mixed-content user message.
pub enum ContentPart {
    /// An inline image, carried as a data URL.
    ImageUrl(String),
    /// A plain-text instruction.
    Text(String),
}

/// The content of a chat message: plain text for probes, a part list
/// for recognition.
pub enum MessageContent {
    Text(String),
    Parts(Vec<ContentPart>),
}

/// One role/content entry of a chat request.
pub struct ChatMessage {
    pub role: String,
    pub content: MessageContent,
}

/// A provider-agnostic chat-completion request. The temperature is
/// held in thousandths to keep the model exact.
pub struct ChatRequest {
    pub model: String,
    pub messages: Vec<ChatMessage>,
    pub max_tokens: u64,
    pub temperature_milli: u64,
}

/// The data-URL prefix under which the PNG is inlined.
pub open spec fn data_url_prefix() -> Seq<char> {
    "data:image/png;base64,"@
}

/// The fixed user instruction sent with every recognition request.
pub open spec fn recognition_instruction() -> Seq<char> {
    "请识别图像中的数学公式，输出纯净的LaTeX代码"@
}

/// The fixed plain-text payload of a connectivity probe.
pub open spec fn probe_text() -> Seq<char> {
    "Hello, this is a test message."@
}

/// A system message carrying exactly the instruction `sys`.
pub open spec fn is_system_message(m: ChatMessage, sys: Seq<char>) -> bool {
    &&& m.role@ == "system"@
    &&& m.content matches MessageContent::Text(t) && t@ == sys
}

/// The user message of a recognition request: the inlined PNG first,
/// the fixed instruction second.
pub open spec fn is_recognition_user_message(m: ChatMessage, png: Seq<u8>) -> bool {
    &&& m.role@ == "user"@
    &&& m.content matches MessageContent::Parts(parts) && {
        &&& parts@.len() == 2
        &&& parts@[0] matches ContentPart::ImageUrl(u) && u@ == data_url_prefix() + base64_of(png)
        &&& parts@[1] matches ContentPart::Text(t) && t@ == recognition_instruction()
    }
}

/// The full shape of a recognition request for the given model name,
/// system prompt, and PNG bytes.
pub open spec fn is_recognition_request(
    req: ChatRequest,
    model: Seq<char>,
    sys: Seq<char>,
    png: Seq<u8>,
) -> bool {
    &&& req.model@ == model
    &&& req.messages@.len() == 2
    &&& is_system_message(req.messages@[0], sys)
    &&& is_recognition_user_message(req.messages@[1], png)
    &&& req.max_tokens == 1024
    &&& req.temperature_milli == 200
}

/// The full shape of a connectivity probe request.
pub open spec fn is_probe_request(req: ChatRequest, model: Seq<char>, sys: Seq<char>) -> bool {
    &&& req.model@ == model
    &&& req.messages@.len() == 2
    &&& is_system_message(req.messages@[0], sys)
    &&& req.messages@[1].role@ == "user"@
    &&& req.messages@[1].content matches MessageContent::Text(t) && t@ == probe_text()
    &&& req.max_tokens == 10
    &&& req.temperature_milli == 200
}

/// Builds the recognition request: the system prompt, then a user
/// message inlining `png` as a base64 data URL beside the fixed
/// instruction; 1024 tokens at temperature 0.2. Pure: no I/O, and
/// `config` is only read.
pub fn build_recognition_request(config: &ApiConfig, png: &Vec<u8>) -> (r: ChatRequest)
    ensures
        is_recognition_request(r, config.model_name@, config.system_prompt@, png@),
{
    let b64 = base64_encode(png);
    let url = String::from_str("data:image/png;base64,").concat(b64.as_str());
    let parts = vec![
        ContentPart::ImageUrl(url),
        ContentPart::Text(String::from_str("请识别图像中的数学公式，输出纯净的LaTeX代码")),
    ];
    let messages = vec![
        ChatMessage {
            role: String::from_str("system"),
            content: MessageContent::Text(config.system_prompt.clone()),
        },
        ChatMessage { role: String::from_str("user"), content: MessageContent::Parts(parts) },
    ];
    ChatRequest {
        model: config.model_name.clone(),
        messages,
        max_tokens: 1024,
        temperature_milli: 200,
    }
}

/// Builds the connectivity probe request: the system prompt and a
/// fixed plain-text user message; 10 tokens at temperature 0.2.
pub fn build_probe_request(config: &ApiConfig) -> (r: ChatRequest)
    ensures
        is_probe_request(r, config.model_name@, config.system_prompt@),
{
    let messages = vec![
        ChatMessage {
            role: String::from_str("system"),
            content: MessageContent::Text(config.system_prompt.clone()),
        },
        ChatMessage {
            role: String::from_str("user"),
            content: MessageContent::Text(String::from_str("Hello, this is a test message.")),
        },
    ];
    ChatRequest {
        model: config.model_name.clone(),
        messages,
        max_tokens: 10,
        temperature_milli: 200,
    }
}

/// The image data URL of a request's user message, when it has one.
pub open spec fn message_image_url(m: ChatMessage) -> Option<Seq<char>> {
    match m.content {
        MessageContent::Parts(parts) => if parts@.len() > 0 {
            match parts@[0] {
                ContentPart::ImageUrl(u) => Some(u@),
                _ => None,
            }
        } else {
            None
        },
        _ => None,
    }
}

/// The base64 payload of a data URL, when the URL carries the PNG
/// data-URL prefix.
pub open spec fn strip_data_url_prefix(u: Seq<char>) -> Option<Seq<char>> {
    if u.len() >= data_url_prefix().len() && u.take(data_url_prefix().len() as int)
        == data_url_prefix() {
        Some(u.skip(data_url_prefix().len() as int))
    } else {
        None
    }
}

/// The base64 image payload carried by a two-message request, when
/// its user message inlines one.
pub open spec fn request_image_b64_spec(req: ChatRequest) -> Option<Seq<char>> {
    if req.messages@.len() == 2 {
        match message_image_url(req.messages@[1]) {
            Some(u) => strip_data_url_prefix(u),
            None => None,
        }
    } else {
        None
    }
}

/// Extracts the base64 image payload of a request, as
/// [`request_image_b64_spec`] describes it.
pub fn request_image_b64(req: &ChatRequest) -> (r: Option<String>)
    ensures
        r is Some <==> request_image_b64_spec(*req) is Some,
        (r matches Some(s) ==> request_image_b64_spec(*req) matches Some(t) && s@ == t),
{
    if req.messages.len() != 2 {
        return None;
    }
    let m = &req.messages[1];
    let parts = match &m.content {
        MessageContent::Parts(p) => p,
        _ => { return None; },
    };
    if parts.len() == 0 {
        return None;
    }
    let url: &String = match &parts[0] {
        ContentPart::ImageUrl(u) => u,
        _ => { return None; },
    };
    let prefix = "data:image/png;base64,";
    if !crate::text::str_has_prefix(url.as_str(), prefix) {
        return None;
    }
    let plen = prefix.unicode_len();
    let ulen = url.as_str().unicode_len();
    Some(String::from_str(url.as_str().substring_char(plen, ulen)))
}

/// The round-trip law: building a recognition request from a
/// configuration and PNG bytes and then extracting the image payload
/// of its user message reproduces the exact base64 encoding of those
/// bytes, unmodified.
pub proof fn lemma_request_round_trip(
    req: ChatRequest,
    model: Seq<char>,
    sys: Seq<char>,
    png: Seq<u8>,
)
    requires
        is_recognition_request(req, model, sys, png),
    ensures
        request_image_b64_spec(req) == Some(base64_of(png)),
{
    let u = data_url_prefix() + base64_of(png);
    assert(u.take(data_url_prefix().len() as int) =~= data_url_prefix());
    assert(u.skip(data_url_prefix().len() as int) =~= base64_of(png));
}

} // verus!
