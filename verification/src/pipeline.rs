//! The pure head of the recognition pipeline: everything of
//! `process_image` that precedes the network call, composed under one
//! contract. The caller posts the returned body and hands the status
//! and response text to [`crate::client::handle_response`].

use vstd::prelude::*;
use crate::config::ApiConfig;
use crate::errors::PipelineError;
use crate::image_norm::{
    encode_normalized, normalize, normalized_pixels, png_bytes_of, png_encode_ok, rgb_decode_of,
};
use crate::json::{render_request, request_json};
use crate::request::{build_recognition_request, is_recognition_request, ChatRequest};
use crate::validate::{check_pipeline_enabled, pipeline_gate_error};

verus! {

/// Gates the pipeline, normalizes the raw image, re-encodes it as
/// PNG, and renders the recognition request body. Fail-fast: a
/// disabled pipeline or missing credential is refused before the
/// image is even decoded, and a decode failure precedes any encoding
/// work. On success the body is the JSON form of a recognition
/// request that inlines the PNG of the polarity-normalized pixels.
pub fn prepare_recognition(config: &ApiConfig, raw: &Vec<u8>) -> (r: Result<String, PipelineError>)
    ensures
        (pipeline_gate_error(*config) matches Some(m) ==> r matches Err(PipelineError::Config(t))
            && t@ == m),
        pipeline_gate_error(*config) is None && rgb_decode_of(raw@) is None ==> r matches Err(
            PipelineError::Decode(_),
        ),
        (pipeline_gate_error(*config) is None ==> (rgb_decode_of(raw@) matches Some(d) ==> (d.0
            * d.1 == 0 ==> r matches Err(PipelineError::Decode(_))))),
        (pipeline_gate_error(*config) is None ==> (rgb_decode_of(raw@) matches Some(d) ==> (d.0
            * d.1 > 0 ==> (r is Ok || r matches Err(PipelineError::Encode(_)))))),
        (pipeline_gate_error(*config) is None ==> (rgb_decode_of(raw@) matches Some(d) ==> (d.0
            * d.1 > 0 && png_encode_ok(d.0, d.1, normalized_pixels(d.2, d.0 * d.1)) ==> r
            is Ok))),
        (r matches Ok(body) ==> pipeline_gate_error(*config) is None && (rgb_decode_of(raw@)
            matches Some(d) && d.0 * d.1 > 0 && (exists|q: ChatRequest|
            #[trigger] is_recognition_request(
                q,
                config.model_name@,
                config.system_prompt@,
                png_bytes_of(d.0, d.1, normalized_pixels(d.2, d.0 * d.1)),
            ) && body@ == request_json(q)))),
{
    match check_pipeline_enabled(config) {
        Err(e) => {
            return Err(e);
        },
        Ok(()) => {},
    }
    let img = match normalize(raw) {
        Ok(i) => i,
        Err(e) => {
            return Err(e);
        },
    };
    let png = match encode_normalized(&img) {
        Ok(p) => p,
        Err(e) => {
            return Err(e);
        },
    };
    let req = build_recognition_request(config, &png);
    let body = render_request(&req);
    proof {
        assert(is_recognition_request(
            req,
            config.model_name@,
            config.system_prompt@,
            png_bytes_of(img.width, img.height, img.pixels@),
        ));
    }
    Ok(body)
}

} // verus!
