use crate::config::{
    image_config_of, image_json_accepted, metadata_json_accepted, options_json_accepted,
    parse_conversion_options, parse_inline_image_config, parse_metadata_config, payload_json,
    payload_outcome, DEFAULT_IMAGE_LIMIT,
};
use crate::convert::{
    convert_images, convert_markdown, convert_metadata, default_markdown, image_extraction_json,
    metadata_conversion, options_markdown,
};
use crate::encode::{
    encode_extraction, encode_metadata_document, extraction_json, lemma_extraction_json_no_zero,
    lemma_metadata_document_no_zero, metadata_document,
};
use crate::error::BridgeError;
use crate::json::{contains_zero_byte, has_zero_byte, push_text};
use crate::text::{bounded_prefix, decode_text, truncate_chars};
use html_to_markdown_rs::{ConversionError, HtmlExtraction};
use vstd::prelude::*;
use vstd::utf8::{decode_utf8, encode_utf8, valid_utf8};

verus! {

/// The text a call converts: the input decoded and cut at the character
/// bound `len`, or why there is none.
pub open spec fn input_text(input: Option<&[u8]>, len: usize) -> Result<Seq<char>, BridgeError> {
    match input {
        None => Err(BridgeError::InvalidArgument),
        Some(b) => if valid_utf8(b@) {
            Ok(bounded_prefix(decode_utf8(b@), len as nat))
        } else {
            Err(BridgeError::InvalidEncoding)
        },
    }
}

/// What the checks before a conversion decide, in the order they are made:
/// the input, then the conversion options, then the family's own payload.
pub open spec fn prepared(
    input: Option<&[u8]>,
    len: usize,
    options: Option<&[u8]>,
    family: Option<&[u8]>,
    family_accepted: spec_fn(Seq<char>) -> bool,
) -> Result<Seq<char>, BridgeError> {
    match input_text(input, len) {
        Err(e) => Err(e),
        Ok(t) => match payload_outcome(options, |j: Seq<char>| options_json_accepted(j)) {
            Err(e) => Err(e),
            Ok(_) => match payload_outcome(family, family_accepted) {
                Err(e) => Err(e),
                Ok(_) => Ok(t),
            },
        },
    }
}

/// The converted text, where the input is present and well formed.
pub open spec fn bounded_text(input: Option<&[u8]>, len: usize) -> Seq<char> {
    match input_text(input, len) {
        Ok(t) => t,
        Err(_) => Seq::empty(),
    }
}

/// The owned output for the bytes `b`. It travels as a terminated string,
/// so a zero byte among them is an encoding failure.
pub open spec fn owned_output(b: Seq<u8>) -> Result<Seq<u8>, BridgeError> {
    if has_zero_byte(b) {
        Err(BridgeError::EncodingFailure)
    } else {
        Ok(b)
    }
}

/// The bytes of an output, or its error.
pub open spec fn output_view(r: Result<Vec<u8>, BridgeError>) -> Result<Seq<u8>, BridgeError> {
    match r {
        Ok(v) => Ok(v@),
        Err(e) => Err(e),
    }
}

/// The image configuration a payload gives, as plain fields: the defaults
/// (`DEFAULT_IMAGE_LIMIT`, no prefix, SVG captured, no inference) when it is
/// absent.
pub open spec fn image_settings(payload: Option<&[u8]>) -> (u64, Option<Seq<char>>, bool, bool) {
    match payload_json(payload) {
        Some(j) => image_config_of(j),
        None => (DEFAULT_IMAGE_LIMIT, None::<Seq<char>>, true, false),
    }
}

/// Decodes the input and cuts it at the character bound `len` (zero: no
/// bound).
pub fn bounded_input(input: Option<&[u8]>, len: usize) -> (r: Result<&str, BridgeError>)
    ensures
        match (r, input_text(input, len)) {
            (Ok(s), Ok(t)) => s@ == t,
            (Err(e), Err(f)) => e == f,
            _ => false,
        },
{
    match input {
        None => Err(BridgeError::InvalidArgument),
        Some(bytes) => match decode_text(bytes) {
            None => Err(BridgeError::InvalidEncoding),
            Some(text) => Ok(truncate_chars(text, len)),
        },
    }
}

/// Hands `bytes` out as the owned output, unless a zero byte among them
/// would cut the terminated string short.
pub fn owned(bytes: Vec<u8>) -> (r: Result<Vec<u8>, BridgeError>)
    ensures
        output_view(r) == owned_output(bytes@),
{
    if contains_zero_byte(bytes.as_slice()) {
        Err(BridgeError::EncodingFailure)
    } else {
        Ok(bytes)
    }
}

/// Turns the converter's Markdown outcome into the output: the Markdown's
/// own bytes, unwrapped.
pub fn finish_markdown(result: Result<String, ConversionError>) -> (r: Result<Vec<u8>, BridgeError>)
    ensures
        output_view(r) == match result {
            Ok(m) => owned_output(encode_utf8(m@)),
            Err(_) => Err(BridgeError::ConversionFailure),
        },
{
    match result {
        Ok(markdown) => {
            let mut out: Vec<u8> = Vec::new();
            push_text(&mut out, markdown.as_str());
            owned(out)
        },
        Err(_) => Err(BridgeError::ConversionFailure),
    }
}

/// Turns the converter's metadata outcome (the Markdown and the metadata's
/// JSON text) into the output.
pub fn finish_metadata(result: Result<(String, String), ConversionError>) -> (r: Result<Vec<u8>, BridgeError>)
    ensures
        output_view(r) == match result {
            Ok(p) => owned_output(metadata_document(p.0@, p.1@)),
            Err(_) => Err(BridgeError::ConversionFailure),
        },
        result matches Ok(p) ==> ((forall|i: int| 0 <= i < p.1@.len() ==> p.1@[i] != '\0') ==> r is Ok),
{
    let ghost g = result;
    proof {
        if let Ok(p) = g {
            if forall|i: int| 0 <= i < p.1@.len() ==> p.1@[i] != '\0' {
                lemma_metadata_document_no_zero(p.0@, p.1@);
            }
        }
    }
    match result {
        Ok((markdown, metadata)) => owned(encode_metadata_document(markdown.as_str(), metadata.as_str())),
        Err(_) => Err(BridgeError::ConversionFailure),
    }
}

/// Turns the converter's image extraction outcome into the output.
pub fn finish_extraction(result: Result<HtmlExtraction, ConversionError>) -> (r: Result<Vec<u8>, BridgeError>)
    ensures
        output_view(r) == match result {
            Ok(x) => owned_output(extraction_json(x)),
            Err(_) => Err(BridgeError::ConversionFailure),
        },
        r is Ok <==> result is Ok,
{
    let ghost g = result;
    proof {
        if let Ok(x) = g {
            lemma_extraction_json_no_zero(x);
        }
    }
    match result {
        Ok(extraction) => owned(encode_extraction(&extraction)),
        Err(_) => Err(BridgeError::ConversionFailure),
    }
}

/// Converts the input, cut at `len` characters, with the default options;
/// the output is the Markdown itself.
pub fn htm_convert(input: Option<&[u8]>, len: usize) -> (r: Result<Vec<u8>, BridgeError>)
    ensures
        output_view(r) == match input_text(input, len) {
            Err(e) => Err(e),
            Ok(t) => match default_markdown(t) {
                Some(m) => owned_output(encode_utf8(m)),
                None => Err(BridgeError::ConversionFailure),
            },
        },
        input matches Some(b) && b@.len() == 0 ==> (r matches Ok(v) && v@.len() == 0),
{
    let html = match bounded_input(input, len) {
        Ok(h) => h,
        Err(e) => return Err(e),
    };
    let converted = convert_markdown(html, None);
    let ghost result = converted;
    proof {
        if let Some(b) = input {
            if b@.len() == 0 {
                assert(b@ =~= encode_utf8(Seq::<char>::empty()));
                assert(html@.len() == 0);
            }
        }
        if let Ok(m) = result {
            if m@.len() == 0 {
                assert(encode_utf8(m@) =~= Seq::<u8>::empty());
            }
        }
    }
    finish_markdown(converted)
}

/// Without an input every entry point fails with `InvalidArgument`, whatever
/// the other arguments are: no payload is looked at and nothing converted.
pub proof fn lemma_absent_input_fails(
    len: usize,
    options: Option<&[u8]>,
    family: Option<&[u8]>,
    family_accepted: spec_fn(Seq<char>) -> bool,
)
    ensures
        input_text(None, len) == Err::<Seq<char>, BridgeError>(BridgeError::InvalidArgument),
        prepared(None, len, options, family, family_accepted) == Err::<Seq<char>, BridgeError>(
            BridgeError::InvalidArgument,
        ),
{
}

/// With a character bound of zero the whole input is converted: the text
/// handed on is the entire decoded input.
pub proof fn lemma_zero_bound_keeps_input(input: &[u8])
    requires
        valid_utf8(input@),
    ensures
        input_text(Some(input), 0) == Ok::<Seq<char>, BridgeError>(decode_utf8(input@)),
{
}

/// With a bound `n` between one and the character count, the text handed on
/// is exactly the first `n` characters of the input: counted again it has
/// `n` characters, each the input's own at that place.
pub proof fn lemma_bound_keeps_first_chars(input: &[u8], n: usize)
    requires
        valid_utf8(input@),
        1 <= n <= decode_utf8(input@).len(),
    ensures
        input_text(Some(input), n) matches Ok(t) && t.len() == n && forall|i: int|
            0 <= i < n ==> t[i] == decode_utf8(input@)[i],
{
}

/// Converts the input, cut at `len` characters, with the options that the
/// optional JSON payload `options` gives; the output is the Markdown itself.
/// A bad payload fails the call before any conversion.
pub fn htm_convert_with_options(input: Option<&[u8]>, len: usize, options: Option<&[u8]>) -> (r: Result<Vec<u8>, BridgeError>)
    ensures
        match prepared(input, len, options, None, |j: Seq<char>| true) {
            Err(e) => output_view(r) == Err::<Seq<u8>, BridgeError>(e),
            Ok(t) => output_view(r) == match match payload_json(options) {
                Some(j) => options_markdown(t, j),
                None => default_markdown(t),
            } {
                Some(m) => owned_output(encode_utf8(m)),
                None => Err(BridgeError::ConversionFailure),
            },
        },
{
    let html = match bounded_input(input, len) {
        Ok(h) => h,
        Err(e) => return Err(e),
    };
    let opts = match parse_conversion_options(options) {
        Ok(o) => o,
        Err(e) => return Err(e),
    };
    finish_markdown(convert_markdown(html, opts))
}

/// Converts the input, cut at `len` characters, and extracts its metadata,
/// as the optional JSON payloads `options` and `metadata_config` ask; the
/// output is a JSON document with the Markdown and the metadata. Bad
/// payloads fail the call before any conversion.
pub fn htm_convert_with_metadata(
    input: Option<&[u8]>,
    len: usize,
    options: Option<&[u8]>,
    metadata_config: Option<&[u8]>,
) -> (r: Result<Vec<u8>, BridgeError>)
    ensures
        match prepared(input, len, options, metadata_config, |j: Seq<char>| metadata_json_accepted(j)) {
            Err(e) => output_view(r) == Err::<Seq<u8>, BridgeError>(e),
            Ok(t) => output_view(r) == match metadata_conversion(t, payload_json(options), payload_json(metadata_config)) {
                Some(p) => owned_output(metadata_document(p.0, p.1)),
                None => Err(BridgeError::ConversionFailure),
            },
        },
        prepared(input, len, options, metadata_config, |j: Seq<char>| metadata_json_accepted(j)) is Ok
            ==> (r is Ok <==> metadata_conversion(
            bounded_text(input, len),
            payload_json(options),
            payload_json(metadata_config),
        ) is Some),
{
    let html = match bounded_input(input, len) {
        Ok(h) => h,
        Err(e) => return Err(e),
    };
    let opts = match parse_conversion_options(options) {
        Ok(o) => o,
        Err(e) => return Err(e),
    };
    let config = match parse_metadata_config(metadata_config) {
        Ok(c) => c,
        Err(e) => return Err(e),
    };
    finish_metadata(convert_metadata(html, opts, config))
}

/// Converts the input, cut at `len` characters, and captures its inline
/// images, as the optional JSON payloads `options` and `image_config` ask
/// (without the latter, images up to `DEFAULT_IMAGE_LIMIT` bytes); the
/// output is a JSON document with the images, the Markdown and the
/// warnings. Bad payloads fail the call before any conversion.
pub fn htm_convert_with_inline_images(
    input: Option<&[u8]>,
    len: usize,
    options: Option<&[u8]>,
    image_config: Option<&[u8]>,
) -> (r: Result<Vec<u8>, BridgeError>)
    ensures
        match prepared(input, len, options, image_config, |j: Seq<char>| image_json_accepted(j)) {
            Err(e) => output_view(r) == Err::<Seq<u8>, BridgeError>(e),
            Ok(t) => output_view(r) == match image_extraction_json(
                t,
                payload_json(options),
                image_settings(image_config).0,
                image_settings(image_config).1,
                image_settings(image_config).2,
                image_settings(image_config).3,
            ) {
                Some(d) => owned_output(d),
                None => Err(BridgeError::ConversionFailure),
            },
        },
        prepared(input, len, options, image_config, |j: Seq<char>| image_json_accepted(j)) is Ok ==> (
        r is Ok <==> image_extraction_json(
            bounded_text(input, len),
            payload_json(options),
            image_settings(image_config).0,
            image_settings(image_config).1,
            image_settings(image_config).2,
            image_settings(image_config).3,
        ) is Some),
{
    let html = match bounded_input(input, len) {
        Ok(h) => h,
        Err(e) => return Err(e),
    };
    let opts = match parse_conversion_options(options) {
        Ok(o) => o,
        Err(e) => return Err(e),
    };
    let config = match parse_inline_image_config(image_config) {
        Ok(c) => c,
        Err(e) => return Err(e),
    };
    finish_extraction(convert_images(html, opts, config))
}

} // verus!
