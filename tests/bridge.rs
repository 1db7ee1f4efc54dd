use base64::Engine;
use htm_bridge::bridge::{
    finish_markdown, finish_metadata, htm_convert, htm_convert_with_inline_images,
    htm_convert_with_metadata, htm_convert_with_options, owned,
};
use htm_bridge::config::{parse_inline_image_config, parse_metadata_config, DEFAULT_IMAGE_LIMIT};
use htm_bridge::error::BridgeError;
use htm_bridge::text::{decode_text, truncate_chars};

fn text(out: Vec<u8>) -> String {
    String::from_utf8(out).unwrap()
}

#[test]
fn test_html_to_markdown() {
    let html = "<h1>Hello World</h1><p>This is a test.</p>";
    let result = htm_convert(Some(html.as_bytes()), html.len());
    assert!(result.is_ok());
    let c_result = text(result.unwrap());
    assert!(c_result.contains("# Hello World"));
    assert!(c_result.contains("This is a test."));
}

#[test]
fn test_null_input() {
    let result = htm_convert(None, 0);
    assert!(result.is_err());
}

#[test]
fn test_empty_string() {
    let html = "";
    let result = htm_convert(Some(html.as_bytes()), html.len());
    assert!(result.is_ok());
    let c_result = text(result.unwrap());
    assert_eq!(c_result, "");
}

#[test]
fn test_complex_html() {
    let html = r#"<div class="container">
            <h2>Features</h2>
            <ul>
                <li>Feature 1</li>
                <li>Feature 2</li>
            </ul>
        </div>"#;
    let result = htm_convert(Some(html.as_bytes()), html.len());
    assert!(result.is_ok());
    let c_result = text(result.unwrap());
    assert!(c_result.contains("## Features"));
    assert!(c_result.contains("- Feature 1"));
    assert!(c_result.contains("- Feature 2"));
}

#[test]
fn test_convert_with_options() {
    let html = "<h1>Hello</h1><p>Test</p>";
    let options = r#"{"heading_style": "atx", "bullets": "*"}"#;
    let result = htm_convert_with_options(Some(html.as_bytes()), html.len(), Some(options.as_bytes()));
    assert!(result.is_ok());
    let c_result = text(result.unwrap());
    assert!(c_result.contains("# Hello"));
}

#[test]
fn test_convert_with_metadata() {
    let html = r#"<html><head><title>Test Page</title></head><body><h1>Hello</h1><p>Test</p></body></html>"#;
    let options = r#"{}"#;
    let metadata_config = r#"{"extract_title": true}"#;
    let result = htm_convert_with_metadata(
        Some(html.as_bytes()),
        html.len(),
        Some(options.as_bytes()),
        Some(metadata_config.as_bytes()),
    );
    assert!(result.is_ok());
    let c_result = text(result.unwrap());
    let parsed: serde_json::Value = serde_json::from_str(&c_result).unwrap();
    assert!(parsed["markdown"].as_str().unwrap().contains("# Hello"));
}

#[test]
fn metadata_result_has_markdown_and_populated_metadata() {
    let html = r#"<html><head><title>Test Page</title></head><body><h1>Hello</h1><p>Test</p></body></html>"#;
    let config = r#"{"extract_title": true}"#;
    let out = htm_convert_with_metadata(Some(html.as_bytes()), 0, None, Some(config.as_bytes())).unwrap();
    let parsed: serde_json::Value = serde_json::from_str(&text(out)).unwrap();
    assert!(parsed["markdown"].as_str().unwrap().contains("# Hello"));
    assert!(parsed["metadata"].is_object());
    assert!(parsed["metadata"].to_string().contains("Test Page"));
}

#[test]
fn zero_bound_converts_whole_input() {
    let html = "<p>alpha beta gamma</p>";
    let bounded = text(htm_convert(Some(html.as_bytes()), 0).unwrap());
    let bigger = text(htm_convert(Some(html.as_bytes()), 1000).unwrap());
    assert!(bounded.contains("alpha beta gamma"));
    assert_eq!(bounded, bigger);
}

#[test]
fn bound_counts_characters_not_bytes() {
    let input = "h\u{e9}\u{301}\u{2603}xyz";
    let out = text(htm_convert(Some(input.as_bytes()), 4).unwrap());
    assert_eq!(out.trim_end(), "h\u{e9}\u{301}\u{2603}");
    assert_eq!(out.trim_end().chars().count(), 4);
    let out = text(htm_convert(Some(input.as_bytes()), 3).unwrap());
    assert_eq!(out.trim_end(), "h\u{e9}\u{301}");
}

#[test]
fn bound_at_character_count_keeps_all() {
    let input = "\u{1f600}ab";
    let out = text(htm_convert(Some(input.as_bytes()), 3).unwrap());
    assert_eq!(out.trim_end(), "\u{1f600}ab");
}

#[test]
fn truncate_chars_exact_prefixes() {
    let s = "a\u{e9}\u{20ac}\u{1f600}z";
    assert_eq!(truncate_chars(s, 0), s);
    assert_eq!(truncate_chars(s, 1), "a");
    assert_eq!(truncate_chars(s, 2), "a\u{e9}");
    assert_eq!(truncate_chars(s, 3), "a\u{e9}\u{20ac}");
    assert_eq!(truncate_chars(s, 4), "a\u{e9}\u{20ac}\u{1f600}");
    assert_eq!(truncate_chars(s, 5), s);
    assert_eq!(truncate_chars(s, 9), s);
}

#[test]
fn decode_text_rejects_bad_utf8() {
    assert_eq!(decode_text(b"abc"), Some("abc"));
    assert_eq!(decode_text(&[0x61, 0xff]), None);
    assert_eq!(decode_text(&[0xe2, 0x82]), None);
}

#[test]
fn null_input_fails_every_entry_point() {
    assert_eq!(htm_convert(None, 0), Err(BridgeError::InvalidArgument));
    assert_eq!(htm_convert_with_options(None, 0, Some(b"{")), Err(BridgeError::InvalidArgument));
    assert_eq!(htm_convert_with_metadata(None, 3, None, None), Err(BridgeError::InvalidArgument));
    assert_eq!(htm_convert_with_inline_images(None, 0, None, None), Err(BridgeError::InvalidArgument));
}

#[test]
fn invalid_input_encoding_fails() {
    let bad = [0x3c, 0x70, 0xff, 0x3e];
    assert_eq!(htm_convert(Some(&bad), 0), Err(BridgeError::InvalidEncoding));
    assert_eq!(htm_convert_with_options(Some(&bad), 0, Some(b"{")), Err(BridgeError::InvalidEncoding));
}

#[test]
fn malformed_payload_fails_before_conversion() {
    let html = b"<p>x</p>";
    assert_eq!(
        htm_convert_with_options(Some(html), 0, Some(b"{\"heading_style\": ")),
        Err(BridgeError::InvalidConfiguration)
    );
    assert_eq!(
        htm_convert_with_metadata(Some(html), 0, None, Some(b"{\"extract_title\": tru")),
        Err(BridgeError::InvalidConfiguration)
    );
    assert_eq!(
        htm_convert_with_inline_images(Some(html), 0, Some(b"["), None),
        Err(BridgeError::InvalidConfiguration)
    );
    assert_eq!(
        htm_convert_with_inline_images(Some(html), 0, None, Some(&[0x7b, 0xc3])),
        Err(BridgeError::InvalidPayload)
    );
}

#[test]
fn default_image_limit_is_five_mebibytes() {
    assert_eq!(DEFAULT_IMAGE_LIMIT, 5_242_880);
    let config = parse_inline_image_config(None).unwrap();
    assert_eq!(config.max_decoded_size_bytes, 5_242_880);
    let config = parse_inline_image_config(Some(br#"{"maxDecodedSizeBytes": 10}"#)).unwrap();
    assert_eq!(config.max_decoded_size_bytes, 10);
    assert!(parse_metadata_config(None).is_ok());
}

#[test]
fn inline_images_round_trip_through_base64() {
    let png: Vec<u8> = vec![0x89, 0x50, 0x4e, 0x47, 0x0d, 0x0a, 0x1a, 0x0a, 0, 0, 0, 0x0d, 0x49, 0x48, 0x44, 0x52];
    let encoded = base64::engine::general_purpose::STANDARD.encode(&png);
    let html = format!("<p>before</p><img src=\"data:image/png;base64,{}\" alt=\"dot\"><p>after</p>", encoded);
    let out = htm_convert_with_inline_images(Some(html.as_bytes()), 0, None, None).unwrap();
    let parsed: serde_json::Value = serde_json::from_str(&text(out)).unwrap();
    assert!(parsed["markdown"].is_string());
    assert!(parsed["markdown"].as_str().unwrap().contains("before"));
    assert!(parsed["warnings"].is_array());
    let images = parsed["inline_images"].as_array().unwrap();
    assert_eq!(images.len(), 1);
    let data = images[0]["data"].as_str().unwrap();
    let decoded = base64::engine::general_purpose::STANDARD.decode(data).unwrap();
    assert_eq!(decoded, png);
    assert_eq!(images[0]["format"], "Png");
    assert_eq!(images[0]["source"], "ImgDataUri");
    assert!(images[0]["attributes"].is_object());
}

#[test]
fn oversized_image_is_left_out() {
    let png: Vec<u8> = vec![0x89, 0x50, 0x4e, 0x47, 0x0d, 0x0a, 0x1a, 0x0a, 1, 2, 3, 4, 5, 6, 7, 8];
    let encoded = base64::engine::general_purpose::STANDARD.encode(&png);
    let html = format!("<img src=\"data:image/png;base64,{}\">", encoded);
    let config = br#"{"maxDecodedSizeBytes": 4}"#;
    let out = htm_convert_with_inline_images(Some(html.as_bytes()), 0, None, Some(config)).unwrap();
    let parsed: serde_json::Value = serde_json::from_str(&text(out)).unwrap();
    assert_eq!(parsed["inline_images"].as_array().unwrap().len(), 0);
    assert!(!parsed["warnings"].as_array().unwrap().is_empty());
    assert!(parsed["warnings"][0]["index"].is_u64());
}

#[test]
fn markdown_is_escaped_as_a_json_string() {
    let out = finish_metadata(Ok(("a\"b\\c\nd\u{1}\u{e9}".to_string(), "{}".to_string()))).unwrap();
    assert_eq!(text(out), "{\"markdown\":\"a\\\"b\\\\c\\nd\\u0001\u{e9}\",\"metadata\":{}}");
}

#[test]
fn zero_byte_in_output_is_an_encoding_failure() {
    assert_eq!(finish_markdown(Ok("a\0b".to_string())), Err(BridgeError::EncodingFailure));
    assert_eq!(finish_markdown(Ok("ab".to_string())), Ok(b"ab".to_vec()));
    assert_eq!(owned(vec![1, 0]), Err(BridgeError::EncodingFailure));
    assert_eq!(owned(vec![]), Ok(vec![]));
}

#[test]
fn converter_rejection_is_a_conversion_failure() {
    let err = html_to_markdown_rs::conversion_options_from_json("{").unwrap_err();
    assert_eq!(finish_markdown(Err(err)), Err(BridgeError::ConversionFailure));
}

#[test]
fn image_record_labels_and_attributes() {
    let payload = base64::engine::general_purpose::STANDARD.encode([1u8, 2, 3, 4, 5]);
    let html = format!(
        "<img src=\"data:image/X-Foo;base64,{}\" data-z=\"2\" data-a=\"1\" aria-label=\"q\">",
        payload
    );
    let out = text(htm_convert_with_inline_images(Some(html.as_bytes()), 0, None, None).unwrap());
    assert!(out.starts_with("{\"inline_images\":[{\"attributes\":{\"aria-label\":\"q\",\"data-a\":\"1\",\"data-z\":\"2\"},\"data\":\"AQIDBAU=\","));
    let parsed: serde_json::Value = serde_json::from_str(&out).unwrap();
    let image = &parsed["inline_images"][0];
    assert_eq!(image["format"], "Other(\"x-foo\")");
    assert_eq!(image["source"], "ImgDataUri");
    assert!(image["dimensions"].is_null());
}

#[test]
fn combining_mark_at_bound_is_kept_whole() {
    let cut = htm_convert(Some("e\u{301}x".as_bytes()), 2);
    let whole = htm_convert(Some("e\u{301}".as_bytes()), 0);
    assert_eq!(cut, whole);
    assert_eq!(text(cut.unwrap()).trim_end(), "e\u{301}");
}

#[test]
fn multibyte_symbol_at_bound_is_kept_whole() {
    let cut = htm_convert(Some("a\u{20ac}b".as_bytes()), 2);
    let whole = htm_convert(Some("a\u{20ac}".as_bytes()), 0);
    assert_eq!(cut, whole);
    assert_eq!(text(cut.unwrap()).trim_end(), "a\u{20ac}");
}

#[test]
fn equal_calls_give_equal_outputs() {
    let html = b"<h2>Same</h2><ul><li>x</li></ul>";
    let options = br#"{"bullets": "*"}"#;
    let first = htm_convert_with_options(Some(html), 0, Some(options));
    let second = htm_convert_with_options(Some(html), 0, Some(options));
    assert_eq!(first, second);
    assert!(text(first.unwrap()).contains("## Same"));
}
