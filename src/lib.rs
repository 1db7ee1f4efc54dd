//! Boundary layer between a host runtime and an HTML-to-Markdown converter.
//!
//! The host hands over raw text bytes, a character bound and optional JSON
//! configuration payloads; this library decodes and bounds the text, parses the
//! configuration, runs the conversion and encodes the outcome as the bytes of
//! one owned output string.

pub mod b64;
pub mod bridge;
pub mod config;
pub mod convert;
pub mod encode;
pub mod error;
pub mod json;
pub mod text;
