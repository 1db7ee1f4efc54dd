use crate::error::BridgeError;
use crate::text::decode_text;
use html_to_markdown_rs::{ConversionError, ConversionOptions, InlineImageConfig, MetadataConfig};
use vstd::prelude::*;
use vstd::utf8::{decode_utf8, valid_utf8};

verus! {

#[verifier::external_type_specification]
#[verifier::external_body]
pub struct ExConversionOptions(ConversionOptions);

#[verifier::external_type_specification]
#[verifier::external_body]
pub struct ExMetadataConfig(MetadataConfig);

#[verifier::external_type_specification]
#[verifier::external_body]
pub struct ExConversionError(ConversionError);

#[verifier::external_type_specification]
pub struct ExInlineImageConfig(InlineImageConfig);

/// The size limit, in decoded bytes, that an inline image may have when no
/// image configuration is given: 5 MiB.
pub const DEFAULT_IMAGE_LIMIT: u64 = 5242880;

/// Whether the converter's option parser accepts the JSON text `json`.
pub uninterp spec fn options_json_accepted(json: Seq<char>) -> bool;

/// Whether the converter's metadata configuration parser accepts `json`.
pub uninterp spec fn metadata_json_accepted(json: Seq<char>) -> bool;

/// Whether the converter's inline image configuration parser accepts `json`.
pub uninterp spec fn image_json_accepted(json: Seq<char>) -> bool;

/// What a configuration payload fixes about the defaults that lie under
/// one configuration of the image family: size limit, file name prefix,
/// whether inline SVG is captured, whether dimensions are inferred.
pub uninterp spec fn image_config_of(json: Seq<char>) -> (u64, Option<Seq<char>>, bool, bool);

/// The fields of an inline image configuration, as plain values.
pub open spec fn image_config_fields(c: InlineImageConfig) -> (u64, Option<Seq<char>>, bool, bool) {
    (
        c.max_decoded_size_bytes,
        match c.filename_prefix {
            Some(p) => Some(p@),
            None => None,
        },
        c.capture_svg,
        c.infer_dimensions,
    )
}

/// The view of an optional text.
pub open spec fn text_view(t: Option<&str>) -> Option<Seq<char>> {
    match t {
        Some(s) => Some(s@),
        None => None,
    }
}

/// The JSON text of a payload, if it is present and well-formed UTF-8.
pub open spec fn payload_json(payload: Option<&[u8]>) -> Option<Seq<char>> {
    match payload {
        Some(b) => if valid_utf8(b@) {
            Some(decode_utf8(b@))
        } else {
            None
        },
        None => None,
    }
}

/// Relies on html_to_markdown_rs::conversion_options_from_json: whether it
/// succeeds depends on the JSON text alone.
#[verifier::external_body]
fn options_from_json(json: &str) -> (r: Result<ConversionOptions, ConversionError>)
    ensures
        r is Ok <==> options_json_accepted(json@),
{
    html_to_markdown_rs::conversion_options_from_json(json)
}

/// Relies on html_to_markdown_rs::metadata_config_from_json: whether it
/// succeeds depends on the JSON text alone.
#[verifier::external_body]
fn metadata_from_json(json: &str) -> (r: Result<MetadataConfig, ConversionError>)
    ensures
        r is Ok <==> metadata_json_accepted(json@),
{
    html_to_markdown_rs::metadata_config_from_json(json)
}

/// Relies on html_to_markdown_rs::inline_image_config_from_json: whether it
/// succeeds depends on the JSON text alone.
#[verifier::external_body]
fn image_config_from_json(json: &str) -> (r: Result<InlineImageConfig, ConversionError>)
    ensures
        r is Ok <==> image_json_accepted(json@),
        r matches Ok(c) ==> image_config_fields(c) == image_config_of(json@),
{
    html_to_markdown_rs::inline_image_config_from_json(json)
}

/// Relies on `InlineImageConfig::new`: the configuration it builds has the
/// given size limit, no file name prefix, captures inline SVG and does not
/// infer dimensions.
#[verifier::external_body]
fn image_config_with_limit(limit: u64) -> (r: InlineImageConfig)
    ensures
        image_config_fields(r) == (limit, None::<Seq<char>>, true, false),
{
    InlineImageConfig::new(limit)
}

/// The outcome a payload must have, given whether its family's parser
/// accepts a text: `Ok(true)` when present and accepted, `Ok(false)` when
/// absent, and the error otherwise.
pub open spec fn payload_outcome(
    payload: Option<&[u8]>,
    accepted: spec_fn(Seq<char>) -> bool,
) -> Result<bool, BridgeError> {
    match payload {
        None => Ok(false),
        Some(b) => if !valid_utf8(b@) {
            Err(BridgeError::InvalidPayload)
        } else if !accepted(decode_utf8(b@)) {
            Err(BridgeError::InvalidConfiguration)
        } else {
            Ok(true)
        },
    }
}

/// Checks the optional conversion options payload, and hands on its JSON
/// text where the converter's option parser accepts it; an absent payload
/// selects the converter's defaults (`None`).
pub fn parse_conversion_options(payload: Option<&[u8]>) -> (r: Result<Option<&str>, BridgeError>)
    ensures
        match (r, payload_outcome(payload, |t: Seq<char>| options_json_accepted(t))) {
            (Ok(o), Ok(_)) => text_view(o) == payload_json(payload),
            (Err(e), Err(f)) => e == f,
            _ => false,
        },
        r matches Ok(Some(t)) ==> options_json_accepted(t@),
{
    match payload {
        None => Ok(None),
        Some(bytes) => match decode_text(bytes) {
            None => Err(BridgeError::InvalidPayload),
            Some(json) => match options_from_json(json) {
                Ok(_) => Ok(Some(json)),
                Err(_) => Err(BridgeError::InvalidConfiguration),
            },
        },
    }
}

/// Checks the optional metadata configuration payload, and hands on its JSON
/// text where the converter's parser accepts it; an absent payload selects
/// the converter's default extraction (`None`).
pub fn parse_metadata_config(payload: Option<&[u8]>) -> (r: Result<Option<&str>, BridgeError>)
    ensures
        match (r, payload_outcome(payload, |t: Seq<char>| metadata_json_accepted(t))) {
            (Ok(c), Ok(_)) => text_view(c) == payload_json(payload),
            (Err(e), Err(f)) => e == f,
            _ => false,
        },
        r matches Ok(Some(t)) ==> metadata_json_accepted(t@),
{
    match payload {
        None => Ok(None),
        Some(bytes) => match decode_text(bytes) {
            None => Err(BridgeError::InvalidPayload),
            Some(json) => match metadata_from_json(json) {
                Ok(_) => Ok(Some(json)),
                Err(_) => Err(BridgeError::InvalidConfiguration),
            },
        },
    }
}

/// Parses the optional inline image configuration payload; an absent payload
/// selects a configuration whose size limit is `DEFAULT_IMAGE_LIMIT`.
pub fn parse_inline_image_config(payload: Option<&[u8]>) -> (r: Result<InlineImageConfig, BridgeError>)
    ensures
        match (r, payload_outcome(payload, |t: Seq<char>| image_json_accepted(t))) {
            (Ok(c), Ok(_)) => image_config_fields(c) == match payload_json(payload) {
                Some(j) => image_config_of(j),
                None => (DEFAULT_IMAGE_LIMIT, None::<Seq<char>>, true, false),
            },
            (Err(e), Err(f)) => e == f,
            _ => false,
        },
        payload is None ==> (r matches Ok(c) && c.max_decoded_size_bytes == DEFAULT_IMAGE_LIMIT),
{
    match payload {
        None => Ok(image_config_with_limit(DEFAULT_IMAGE_LIMIT)),
        Some(bytes) => match decode_text(bytes) {
            None => Err(BridgeError::InvalidPayload),
            Some(json) => match image_config_from_json(json) {
                Ok(c) => Ok(c),
                Err(_) => Err(BridgeError::InvalidConfiguration),
            },
        },
    }
}

} // verus!
