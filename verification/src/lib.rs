//! Image-to-LaTeX recognition pipeline.
//!
//! The pipeline turns a raster image of a mathematical expression into
//! clean single-line LaTeX: [`image_norm`] decodes the image and
//! normalizes its polarity, [`request`] and [`json`] build the
//! chat-completion payload that embeds it, [`client`] holds the pure
//! halves of the HTTP exchange and extracts the assistant's reply, and
//! [`sanitize`] strips that reply down to compiler-safe LaTeX.
//! [`validate`] checks a configuration before any traffic is sent.
//! Recognition intelligence lives in the external model; this crate
//! does the preprocessing, request construction, and postprocessing
//! around it.

pub mod client;
pub mod config;
pub mod errors;
pub mod image_norm;
pub mod json;
pub mod pipeline;
pub mod request;
pub mod sanitize;
pub mod text;
pub mod validate;
