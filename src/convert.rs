use base64::Engine;
use crate::b64::base64_of;
use crate::config::{image_config_fields, metadata_json_accepted, options_json_accepted, text_view};
use crate::encode::extraction_json;
use html_to_markdown_rs::{
    ConversionError, HtmlExtraction, InlineImage, InlineImageConfig,
    InlineImageFormat, InlineImageSource, InlineImageWarning, MetadataConfig,
};
use std::collections::BTreeMap;
use vstd::prelude::*;

verus! {

#[verifier::external_type_specification]
pub struct ExInlineImageFormat(InlineImageFormat);

#[verifier::external_type_specification]
pub struct ExInlineImageSource(InlineImageSource);

#[verifier::external_type_specification]
pub struct ExInlineImage(InlineImage);

#[verifier::external_type_specification]
pub struct ExInlineImageWarning(InlineImageWarning);

#[verifier::external_type_specification]
pub struct ExHtmlExtraction(HtmlExtraction);

/// The Markdown that the converter makes of `html` with its default options,
/// or `None` where it rejects the input.
pub uninterp spec fn default_markdown(html: Seq<char>) -> Option<Seq<char>>;

/// The Markdown that the converter makes of `html` with the options parsed
/// from the JSON text `options_json`, or `None` where it rejects the input.
pub uninterp spec fn options_markdown(html: Seq<char>, options_json: Seq<char>) -> Option<Seq<char>>;

/// The Markdown, and the JSON text of the metadata, that the converter makes
/// of `html` with the options and the metadata configuration parsed from the
/// given JSON texts (absent: the defaults), or `None` where it rejects the
/// input or the metadata cannot be written as JSON.
pub uninterp spec fn metadata_conversion(
    html: Seq<char>,
    options_json: Option<Seq<char>>,
    config_json: Option<Seq<char>>,
) -> Option<(Seq<char>, Seq<char>)>;

/// The JSON document of the extraction that the converter makes of `html`
/// with the options parsed from `options_json` (absent: the defaults) and an
/// image configuration with the given size limit, file name prefix, SVG
/// capture and dimension inference; `None` where it rejects the input.
pub uninterp spec fn image_extraction_json(
    html: Seq<char>,
    options_json: Option<Seq<char>>,
    max_size: u64,
    filename_prefix: Option<Seq<char>>,
    capture_svg: bool,
    infer_dimensions: bool,
) -> Option<Seq<u8>>;

/// The debug form of the text `s`: quoted, with std's escapes.
pub uninterp spec fn debug_quoted(s: Seq<char>) -> Seq<char>;

/// The entries of a map of texts, in the order its keys sort in.
pub uninterp spec fn sorted_entries(m: Map<Seq<char>, Seq<char>>) -> Seq<(Seq<char>, Seq<char>)>;

/// Relies on html_to_markdown_rs::convert, with the options that
/// conversion_options_from_json parses from `options_json` when it is given:
/// the outcome depends on the HTML text and the JSON text alone, and empty
/// HTML with default options gives empty Markdown.
#[verifier::external_body]
pub(crate) fn convert_markdown(html: &str, options_json: Option<&str>) -> (r: Result<String, ConversionError>)
    ensures
        options_json is None ==> (r is Ok <==> default_markdown(html@) is Some),
        options_json is None ==> (r matches Ok(s) ==> default_markdown(html@) == Some(s@)),
        options_json matches Some(j) ==> (r is Ok <==> (options_json_accepted(j@) && options_markdown(html@, j@) is Some)),
        options_json matches Some(j) ==> (r matches Ok(s) ==> options_markdown(html@, j@) == Some(s@)),
        r matches Ok(s) ==> (options_json is None && html@.len() == 0 ==> s@.len() == 0),
        options_json is None && html@.len() == 0 ==> r is Ok,
{
    match options_json {
        None => html_to_markdown_rs::convert(html, None),
        Some(j) => html_to_markdown_rs::conversion_options_from_json(j).and_then(|o| html_to_markdown_rs::convert(html, Some(o))),
    }
}

/// Relies on html_to_markdown_rs::convert_with_metadata, with the options
/// and the metadata configuration parsed from the given JSON texts (absent:
/// the defaults), which returns the Markdown with the extracted metadata;
/// and on serde_json::to_value and the JSON text of the value, which write
/// that metadata with its keys sorted and a NUL inside a string escaped. A
/// serialization error is handed on as an error.
#[verifier::external_body]
pub(crate) fn convert_metadata(html: &str, options_json: Option<&str>, config_json: Option<&str>) -> (r: Result<(String, String), ConversionError>)
    ensures
        r is Ok <==> ((options_json matches Some(j) ==> options_json_accepted(j@)) && (config_json matches Some(c) ==> metadata_json_accepted(c@)) && metadata_conversion(html@, text_view(options_json), text_view(config_json)) is Some),
        r matches Ok(p) ==> metadata_conversion(html@, text_view(options_json), text_view(config_json)) == Some((p.0@, p.1@)),
        r matches Ok(p) ==> forall|i: int| 0 <= i < p.1@.len() ==> p.1@[i] != '\0',
{
    let options = match options_json { Some(j) => Some(html_to_markdown_rs::conversion_options_from_json(j)?), None => None };
    let config = match config_json { Some(c) => html_to_markdown_rs::metadata_config_from_json(c)?, None => MetadataConfig::default() };
    let (markdown, metadata) = html_to_markdown_rs::convert_with_metadata(html, options, config, None)?;
    let value = serde_json::to_value(&metadata).map_err(|e| ConversionError::Other(e.to_string()))?;
    Ok((markdown, value.to_string()))
}

/// Relies on html_to_markdown_rs::convert_with_inline_images, with the
/// options parsed from `options_json` (absent: the defaults), which returns
/// the Markdown, the captured images and the warnings, in encounter order;
/// its outcome depends on the HTML text, the JSON text and the image
/// configuration's fields alone.
#[verifier::external_body]
pub(crate) fn convert_images(html: &str, options_json: Option<&str>, config: InlineImageConfig) -> (r: Result<HtmlExtraction, ConversionError>)
    ensures
        r is Ok <==> ((options_json matches Some(j) ==> options_json_accepted(j@)) && image_extraction_json(html@, text_view(options_json), image_config_fields(config).0, image_config_fields(config).1, image_config_fields(config).2, image_config_fields(config).3) is Some),
        r matches Ok(x) ==> image_extraction_json(html@, text_view(options_json), image_config_fields(config).0, image_config_fields(config).1, image_config_fields(config).2, image_config_fields(config).3) == Some(extraction_json(x)),
{
    let options = match options_json { Some(j) => Some(html_to_markdown_rs::conversion_options_from_json(j)?), None => None };
    html_to_markdown_rs::convert_with_inline_images(html, options, config, None)
}

/// Relies on base64's standard engine, which writes the standard, padded
/// base64 text of `data`.
#[verifier::external_body]
pub(crate) fn base64_text(data: &[u8]) -> (r: String)
    ensures
        r@ == base64_of(data@),
{
    base64::engine::general_purpose::STANDARD.encode(data)
}

/// Relies on std's `Debug` for `str`, which quotes and escapes the text.
#[verifier::external_body]
pub(crate) fn debug_text(s: &str) -> (r: String)
    ensures
        r@ == debug_quoted(s@),
{
    format!("{:?}", s)
}

/// Relies on `BTreeMap::iter`, which walks the entries in key order.
#[verifier::external_body]
pub(crate) fn attribute_entries(m: &BTreeMap<String, String>) -> (r: Vec<(String, String)>)
    ensures
        r.deep_view() == sorted_entries(m.deep_view()),
{
    m.iter().map(|(k, v)| (k.clone(), v.clone())).collect()
}

} // verus!
