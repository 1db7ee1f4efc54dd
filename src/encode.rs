use crate::b64::{base64_decode, base64_of, lemma_base64_round_trip};
use crate::convert::{attribute_entries, base64_text, debug_quoted, debug_text, sorted_entries};
use crate::json::{
    decimal, has_zero_byte, json_optional_text, json_string, json_string_value, json_text,
    lemma_concat_zero, lemma_decimal_no_zero, lemma_json_string_no_zero,
    lemma_json_string_round_trip, lemma_utf8_no_zero, push_decimal, push_json_optional_text, push_json_string,
    push_json_text, push_text,
};
use html_to_markdown_rs::{HtmlExtraction, InlineImage, InlineImageFormat, InlineImageSource, InlineImageWarning};
use vstd::prelude::*;
use vstd::utf8::encode_utf8;

verus! {

/// JSON values written one after another, separated by commas.
pub open spec fn join(items: Seq<Seq<u8>>) -> Seq<u8>
    decreases items.len(),
{
    if items.len() == 0 {
        Seq::empty()
    } else if items.len() == 1 {
        items[0]
    } else {
        join(items.drop_last()) + seq![0x2cu8] + items.last()
    }
}

/// A JSON array of the given values.
pub open spec fn json_array(items: Seq<Seq<u8>>) -> Seq<u8> {
    seq![0x5bu8] + join(items) + seq![0x5du8]
}

/// One member of a JSON object whose values are texts.
pub open spec fn entry_json(key: Seq<char>, value: Seq<char>) -> Seq<u8> {
    json_text(key) + seq![0x3au8] + json_text(value)
}

/// A JSON object mapping texts to texts, with its members in the given order.
pub open spec fn entries_json(e: Seq<(Seq<char>, Seq<char>)>) -> Seq<u8> {
    seq![0x7bu8] + join(Seq::new(e.len(), |i: int| entry_json(e[i].0, e[i].1))) + seq![0x7du8]
}

/// The label of an image format: the name of its variant, and for another
/// format its quoted name in parentheses.
pub open spec fn format_label(f: InlineImageFormat) -> Seq<u8> {
    match f {
        InlineImageFormat::Png => encode_utf8("Png"@),
        InlineImageFormat::Jpeg => encode_utf8("Jpeg"@),
        InlineImageFormat::Gif => encode_utf8("Gif"@),
        InlineImageFormat::Bmp => encode_utf8("Bmp"@),
        InlineImageFormat::Webp => encode_utf8("Webp"@),
        InlineImageFormat::Svg => encode_utf8("Svg"@),
        InlineImageFormat::Other(s) => encode_utf8("Other("@) + encode_utf8(debug_quoted(s@))
            + encode_utf8(")"@),
    }
}

/// The label of where an image came from: the name of its variant.
pub open spec fn source_label(s: InlineImageSource) -> Seq<char> {
    match s {
        InlineImageSource::ImgDataUri => "ImgDataUri"@,
        InlineImageSource::SvgElement => "SvgElement"@,
    }
}

/// The JSON for an optional (width, height) pair: `null` when absent.
pub open spec fn dimensions_json(d: Option<(u32, u32)>) -> Seq<u8> {
    match d {
        None => encode_utf8("null"@),
        Some((w, h)) => encode_utf8("{\"height\":"@) + decimal(h as nat) + encode_utf8(
            ",\"width\":"@,
        ) + decimal(w as nat) + seq![0x7du8],
    }
}

/// The view of an optional text.
pub open spec fn optional_view(t: Option<String>) -> Option<Seq<char>> {
    match t {
        Some(s) => Some(s@),
        None => None,
    }
}

/// The first members of an image's JSON record: its attributes, its base64
/// data and its description.
pub open spec fn image_json_head(img: InlineImage) -> Seq<u8> {
    encode_utf8("{\"attributes\":"@) + entries_json(sorted_entries(img.attributes.deep_view()))
        + encode_utf8(",\"data\":"@) + json_text(base64_of(img.data@))
        + encode_utf8(",\"description\":"@) + json_optional_text(optional_view(img.description))
}

/// The last members of an image's JSON record: its dimensions, file name,
/// format and source, and the closing brace.
pub open spec fn image_json_tail(img: InlineImage) -> Seq<u8> {
    encode_utf8(",\"dimensions\":"@) + dimensions_json(img.dimensions)
        + encode_utf8(",\"filename\":"@) + json_optional_text(optional_view(img.filename))
        + encode_utf8(",\"format\":"@) + json_string(format_label(img.format))
        + encode_utf8(",\"source\":"@) + json_text(source_label(img.source)) + seq![0x7du8]
}

/// The JSON record of one captured image; its keys stand in sorted order.
pub open spec fn image_json(img: InlineImage) -> Seq<u8> {
    image_json_head(img) + image_json_tail(img)
}

/// The JSON record of one warning.
pub open spec fn warning_json(w: InlineImageWarning) -> Seq<u8> {
    encode_utf8("{\"index\":"@) + decimal(w.index as nat) + encode_utf8(",\"message\":"@)
        + json_text(w.message@) + seq![0x7du8]
}

/// The JSON document for an image extraction: the captured images, the
/// Markdown and the warnings, each sequence in the order it came in.
pub open spec fn extraction_json(x: HtmlExtraction) -> Seq<u8> {
    encode_utf8("{\"inline_images\":"@) + json_array(
        Seq::new(x.inline_images@.len(), |i: int| image_json(x.inline_images@[i])),
    ) + encode_utf8(",\"markdown\":"@) + json_text(x.markdown@) + encode_utf8(",\"warnings\":"@)
        + json_array(Seq::new(x.warnings@.len(), |i: int| warning_json(x.warnings@[i])))
        + seq![0x7du8]
}

/// The JSON document for a conversion with metadata: the Markdown as a
/// string, and the metadata's own JSON text as it is.
pub open spec fn metadata_document(markdown: Seq<char>, metadata: Seq<char>) -> Seq<u8> {
    encode_utf8("{\"markdown\":"@) + json_text(markdown) + encode_utf8(",\"metadata\":"@)
        + encode_utf8(metadata) + seq![0x7du8]
}

proof fn lemma_join_last(items: Seq<Seq<u8>>)
    requires
        items.len() > 0,
    ensures
        join(items) == join(items.drop_last()) + (if items.len() > 1 {
            seq![0x2cu8]
        } else {
            Seq::empty()
        }) + items.last(),
{
    if items.len() == 1 {
        assert(join(items.drop_last()) == Seq::<u8>::empty());
        assert(join(items) =~= join(items.drop_last()) + Seq::<u8>::empty() + items.last());
    }
}

/// Appends a JSON object of text members, in the order of `pairs`.
fn push_entries(out: &mut Vec<u8>, pairs: &Vec<(String, String)>)
    ensures
        final(out)@ == old(out)@ + entries_json(pairs.deep_view()),
{
    let ghost e = pairs.deep_view();
    let ghost f = |i: int| entry_json(e[i].0, e[i].1);
    out.push(0x7b);
    let mut i: usize = 0;
    while i < pairs.len()
        invariant
            i <= pairs@.len(),
            e == pairs.deep_view(),
            e.len() == pairs@.len(),
            f == (|i: int| entry_json(e[i].0, e[i].1)),
            out@ == old(out)@ + seq![0x7bu8] + join(Seq::new(i as nat, f)),
        decreases pairs@.len() - i,
    {
        let ghost before = out@;
        if i > 0 {
            out.push(0x2c);
        }
        let (k, v) = &pairs[i];
        assert(e[i as int] == (k@, v@));
        push_json_text(out, k.as_str());
        out.push(0x3a);
        push_json_text(out, v.as_str());
        proof {
            let items = Seq::new((i + 1) as nat, f);
            assert(items.drop_last() =~= Seq::new(i as nat, f));
            lemma_join_last(items);
        }
        i = i + 1;
        assert(out@ =~= old(out)@ + seq![0x7bu8] + join(Seq::new(i as nat, f)));
    }
    out.push(0x7d);
    assert(Seq::new(e.len(), |i: int| entry_json(e[i].0, e[i].1)) =~= Seq::new(i as nat, f));
    assert(out@ =~= old(out)@ + entries_json(e));
}

/// Appends the JSON for an optional (width, height) pair.
fn push_dimensions(out: &mut Vec<u8>, d: Option<(u32, u32)>)
    ensures
        final(out)@ == old(out)@ + dimensions_json(d),
{
    match d {
        None => push_text(out, "null"),
        Some((w, h)) => {
            push_text(out, "{\"height\":");
            push_decimal(out, h as u64);
            push_text(out, ",\"width\":");
            push_decimal(out, w as u64);
            out.push(0x7d);
            assert(final(out)@ =~= old(out)@ + dimensions_json(d));
        },
    }
}

/// The label bytes of an image format.
fn format_label_bytes(f: &InlineImageFormat) -> (r: Vec<u8>)
    ensures
        r@ == format_label(*f),
{
    let mut b: Vec<u8> = Vec::new();
    match f {
        InlineImageFormat::Png => push_text(&mut b, "Png"),
        InlineImageFormat::Jpeg => push_text(&mut b, "Jpeg"),
        InlineImageFormat::Gif => push_text(&mut b, "Gif"),
        InlineImageFormat::Bmp => push_text(&mut b, "Bmp"),
        InlineImageFormat::Webp => push_text(&mut b, "Webp"),
        InlineImageFormat::Svg => push_text(&mut b, "Svg"),
        InlineImageFormat::Other(s) => {
            push_text(&mut b, "Other(");
            let quoted = debug_text(s.as_str());
            push_text(&mut b, quoted.as_str());
            push_text(&mut b, ")");
        },
    }
    assert(b@ =~= format_label(*f));
    b
}

/// The label of where an image came from.
fn source_label_text(s: &InlineImageSource) -> (r: &'static str)
    ensures
        r@ == source_label(*s),
{
    match s {
        InlineImageSource::ImgDataUri => "ImgDataUri",
        InlineImageSource::SvgElement => "SvgElement",
    }
}

fn push_image_head(out: &mut Vec<u8>, img: &InlineImage)
    ensures
        final(out)@ == old(out)@ + image_json_head(*img),
{
    push_text(out, "{\"attributes\":");
    let pairs = attribute_entries(&img.attributes);
    push_entries(out, &pairs);
    push_text(out, ",\"data\":");
    let data = base64_text(img.data.as_slice());
    push_json_text(out, data.as_str());
    push_text(out, ",\"description\":");
    push_json_optional_text(out, &img.description);
    assert(final(out)@ =~= old(out)@ + image_json_head(*img));
}

fn push_image_tail(out: &mut Vec<u8>, img: &InlineImage)
    ensures
        final(out)@ == old(out)@ + image_json_tail(*img),
{
    push_text(out, ",\"dimensions\":");
    push_dimensions(out, img.dimensions);
    push_text(out, ",\"filename\":");
    push_json_optional_text(out, &img.filename);
    push_text(out, ",\"format\":");
    let label = format_label_bytes(&img.format);
    push_json_string(out, label.as_slice());
    push_text(out, ",\"source\":");
    push_json_text(out, source_label_text(&img.source));
    out.push(0x7d);
    assert(final(out)@ =~= old(out)@ + image_json_tail(*img));
}

/// Appends the JSON record of one captured image.
pub fn push_image(out: &mut Vec<u8>, img: &InlineImage)
    ensures
        final(out)@ == old(out)@ + image_json(*img),
{
    push_image_head(out, img);
    push_image_tail(out, img);
    assert(final(out)@ =~= old(out)@ + image_json(*img));
}

/// Appends the JSON record of one warning.
pub fn push_warning(out: &mut Vec<u8>, w: &InlineImageWarning)
    ensures
        final(out)@ == old(out)@ + warning_json(*w),
{
    push_text(out, "{\"index\":");
    push_decimal(out, w.index as u64);
    push_text(out, ",\"message\":");
    push_json_text(out, w.message.as_str());
    out.push(0x7d);
    assert(final(out)@ =~= old(out)@ + warning_json(*w));
}

/// Appends the JSON array of the image records, in order.
fn push_images(out: &mut Vec<u8>, images: &Vec<InlineImage>)
    ensures
        final(out)@ == old(out)@ + json_array(
            Seq::new(images@.len(), |i: int| image_json(images@[i])),
        ),
{
    let ghost f = |i: int| image_json(images@[i]);
    out.push(0x5b);
    let mut i: usize = 0;
    while i < images.len()
        invariant
            i <= images@.len(),
            f == (|i: int| image_json(images@[i])),
            out@ == old(out)@ + seq![0x5bu8] + join(Seq::new(i as nat, f)),
        decreases images@.len() - i,
    {
        if i > 0 {
            out.push(0x2c);
        }
        push_image(out, &images[i]);
        proof {
            let items = Seq::new((i + 1) as nat, f);
            assert(items.drop_last() =~= Seq::new(i as nat, f));
            lemma_join_last(items);
        }
        i = i + 1;
        assert(out@ =~= old(out)@ + seq![0x5bu8] + join(Seq::new(i as nat, f)));
    }
    out.push(0x5d);
    assert(Seq::new(images@.len(), |i: int| image_json(images@[i])) =~= Seq::new(i as nat, f));
}

/// Appends the JSON array of the warning records, in order.
fn push_warnings(out: &mut Vec<u8>, warnings: &Vec<InlineImageWarning>)
    ensures
        final(out)@ == old(out)@ + json_array(
            Seq::new(warnings@.len(), |i: int| warning_json(warnings@[i])),
        ),
{
    let ghost f = |i: int| warning_json(warnings@[i]);
    out.push(0x5b);
    let mut i: usize = 0;
    while i < warnings.len()
        invariant
            i <= warnings@.len(),
            f == (|i: int| warning_json(warnings@[i])),
            out@ == old(out)@ + seq![0x5bu8] + join(Seq::new(i as nat, f)),
        decreases warnings@.len() - i,
    {
        if i > 0 {
            out.push(0x2c);
        }
        push_warning(out, &warnings[i]);
        proof {
            let items = Seq::new((i + 1) as nat, f);
            assert(items.drop_last() =~= Seq::new(i as nat, f));
            lemma_join_last(items);
        }
        i = i + 1;
        assert(out@ =~= old(out)@ + seq![0x5bu8] + join(Seq::new(i as nat, f)));
    }
    out.push(0x5d);
    assert(Seq::new(warnings@.len(), |i: int| warning_json(warnings@[i])) =~= Seq::new(i as nat, f));
}

/// Encodes an image extraction as its JSON document.
pub fn encode_extraction(x: &HtmlExtraction) -> (r: Vec<u8>)
    ensures
        r@ == extraction_json(*x),
{
    let mut out: Vec<u8> = Vec::new();
    push_text(&mut out, "{\"inline_images\":");
    push_images(&mut out, &x.inline_images);
    push_text(&mut out, ",\"markdown\":");
    push_json_text(&mut out, x.markdown.as_str());
    push_text(&mut out, ",\"warnings\":");
    push_warnings(&mut out, &x.warnings);
    out.push(0x7d);
    assert(out@ =~= extraction_json(*x));
    out
}

/// Encodes Markdown and the metadata's JSON text as one JSON document.
pub fn encode_metadata_document(markdown: &str, metadata: &str) -> (r: Vec<u8>)
    ensures
        r@ == metadata_document(markdown@, metadata@),
{
    let mut out: Vec<u8> = Vec::new();
    push_text(&mut out, "{\"markdown\":");
    push_json_text(&mut out, markdown);
    push_text(&mut out, ",\"metadata\":");
    push_text(&mut out, metadata);
    out.push(0x7d);
    assert(out@ =~= metadata_document(markdown@, metadata@));
    out
}


/// In the document of a metadata conversion, the `markdown` member is one
/// JSON string literal that reads back as the Markdown's own bytes.
pub proof fn lemma_metadata_markdown_reads_back(markdown: Seq<char>, metadata: Seq<char>)
    ensures
        exists|lit: Seq<u8>, rest: Seq<u8>|
            metadata_document(markdown, metadata) == encode_utf8("{\"markdown\":"@) + lit + rest
                && json_string_value(lit) == Some(encode_utf8(markdown)),
{
    let lit = json_text(markdown);
    let rest = encode_utf8(",\"metadata\":"@) + encode_utf8(metadata) + seq![0x7du8];
    lemma_json_string_round_trip(encode_utf8(markdown));
    assert(metadata_document(markdown, metadata) =~= encode_utf8("{\"markdown\":"@) + lit + rest);
}

/// In the document of an image extraction, the `markdown` member is one
/// JSON string literal that reads back as the Markdown's own bytes.
pub proof fn lemma_extraction_markdown_reads_back(x: HtmlExtraction)
    ensures
        exists|head: Seq<u8>, lit: Seq<u8>, rest: Seq<u8>|
            extraction_json(x) == head + encode_utf8(",\"markdown\":"@) + lit + rest
                && json_string_value(lit) == Some(encode_utf8(x.markdown@)),
{
    let head = encode_utf8("{\"inline_images\":"@) + json_array(
        Seq::new(x.inline_images@.len(), |i: int| image_json(x.inline_images@[i])),
    );
    let lit = json_text(x.markdown@);
    let rest = encode_utf8(",\"warnings\":"@) + json_array(
        Seq::new(x.warnings@.len(), |i: int| warning_json(x.warnings@[i])),
    ) + seq![0x7du8];
    lemma_json_string_round_trip(encode_utf8(x.markdown@));
    assert(extraction_json(x) =~= head + encode_utf8(",\"markdown\":"@) + lit + rest);
}

/// The fixed pieces of the result documents hold no zero byte.
proof fn lemma_fixed_text_no_zero()
    ensures
        !has_zero_byte(encode_utf8("{\"markdown\":"@)),
        !has_zero_byte(encode_utf8(",\"metadata\":"@)),
        !has_zero_byte(encode_utf8("{\"inline_images\":"@)),
        !has_zero_byte(encode_utf8(",\"markdown\":"@)),
        !has_zero_byte(encode_utf8(",\"warnings\":"@)),
        !has_zero_byte(encode_utf8("{\"attributes\":"@)),
        !has_zero_byte(encode_utf8(",\"data\":"@)),
        !has_zero_byte(encode_utf8(",\"description\":"@)),
        !has_zero_byte(encode_utf8(",\"dimensions\":"@)),
        !has_zero_byte(encode_utf8(",\"filename\":"@)),
        !has_zero_byte(encode_utf8(",\"format\":"@)),
        !has_zero_byte(encode_utf8(",\"source\":"@)),
        !has_zero_byte(encode_utf8("{\"index\":"@)),
        !has_zero_byte(encode_utf8(",\"message\":"@)),
        !has_zero_byte(encode_utf8("null"@)),
        !has_zero_byte(encode_utf8("{\"height\":"@)),
        !has_zero_byte(encode_utf8(",\"width\":"@)),
        !has_zero_byte(encode_utf8("Png"@)),
        !has_zero_byte(encode_utf8("Jpeg"@)),
        !has_zero_byte(encode_utf8("Gif"@)),
        !has_zero_byte(encode_utf8("Bmp"@)),
        !has_zero_byte(encode_utf8("Webp"@)),
        !has_zero_byte(encode_utf8("Svg"@)),
        !has_zero_byte(encode_utf8("Other("@)),
        !has_zero_byte(encode_utf8(")"@)),
{
    reveal_strlit("{\"markdown\":");
    lemma_utf8_no_zero("{\"markdown\":"@);
    reveal_strlit(",\"metadata\":");
    lemma_utf8_no_zero(",\"metadata\":"@);
    reveal_strlit("{\"inline_images\":");
    lemma_utf8_no_zero("{\"inline_images\":"@);
    reveal_strlit(",\"markdown\":");
    lemma_utf8_no_zero(",\"markdown\":"@);
    reveal_strlit(",\"warnings\":");
    lemma_utf8_no_zero(",\"warnings\":"@);
    reveal_strlit("{\"attributes\":");
    lemma_utf8_no_zero("{\"attributes\":"@);
    reveal_strlit(",\"data\":");
    lemma_utf8_no_zero(",\"data\":"@);
    reveal_strlit(",\"description\":");
    lemma_utf8_no_zero(",\"description\":"@);
    reveal_strlit(",\"dimensions\":");
    lemma_utf8_no_zero(",\"dimensions\":"@);
    reveal_strlit(",\"filename\":");
    lemma_utf8_no_zero(",\"filename\":"@);
    reveal_strlit(",\"format\":");
    lemma_utf8_no_zero(",\"format\":"@);
    reveal_strlit(",\"source\":");
    lemma_utf8_no_zero(",\"source\":"@);
    reveal_strlit("{\"index\":");
    lemma_utf8_no_zero("{\"index\":"@);
    reveal_strlit(",\"message\":");
    lemma_utf8_no_zero(",\"message\":"@);
    reveal_strlit("null");
    lemma_utf8_no_zero("null"@);
    reveal_strlit("{\"height\":");
    lemma_utf8_no_zero("{\"height\":"@);
    reveal_strlit(",\"width\":");
    lemma_utf8_no_zero(",\"width\":"@);
    reveal_strlit("Png");
    lemma_utf8_no_zero("Png"@);
    reveal_strlit("Jpeg");
    lemma_utf8_no_zero("Jpeg"@);
    reveal_strlit("Gif");
    lemma_utf8_no_zero("Gif"@);
    reveal_strlit("Bmp");
    lemma_utf8_no_zero("Bmp"@);
    reveal_strlit("Webp");
    lemma_utf8_no_zero("Webp"@);
    reveal_strlit("Svg");
    lemma_utf8_no_zero("Svg"@);
    reveal_strlit("Other(");
    lemma_utf8_no_zero("Other("@);
    reveal_strlit(")");
    lemma_utf8_no_zero(")"@);
}

/// The value of an optional text member holds no zero byte.
proof fn lemma_optional_text_no_zero(t: Option<Seq<char>>)
    ensures
        !has_zero_byte(json_optional_text(t)),
{
    lemma_fixed_text_no_zero();
    if let Some(x) = t {
        lemma_json_string_no_zero(encode_utf8(x));
    }
}

proof fn lemma_join_no_zero(items: Seq<Seq<u8>>)
    requires
        forall|k: int| 0 <= k < items.len() ==> !has_zero_byte(#[trigger] items[k]),
    ensures
        !has_zero_byte(join(items)),
    decreases items.len(),
{
    broadcast use lemma_concat_zero;

    if items.len() > 1 {
        lemma_join_no_zero(items.drop_last());
        assert(!has_zero_byte(items[items.len() - 1]));
        assert(!has_zero_byte(seq![0x2cu8])) by {
            assert(seq![0x2cu8][0] != 0);
        }
    } else if items.len() == 1 {
        assert(!has_zero_byte(items[0]));
    }
}

proof fn lemma_punctuation_no_zero()
    ensures
        !has_zero_byte(seq![0x7bu8]),
        !has_zero_byte(seq![0x7du8]),
        !has_zero_byte(seq![0x5bu8]),
        !has_zero_byte(seq![0x5du8]),
        !has_zero_byte(seq![0x3au8]),
{
    assert(seq![0x7bu8][0] != 0 && seq![0x7du8][0] != 0 && seq![0x5bu8][0] != 0 && seq![0x5du8][0] != 0 && seq![0x3au8][0] != 0);
}

/// The JSON record of an image holds no zero byte.
pub proof fn lemma_image_json_no_zero(img: InlineImage)
    ensures
        !has_zero_byte(image_json(img)),
{
    broadcast use lemma_concat_zero;

    lemma_fixed_text_no_zero();
    lemma_punctuation_no_zero();
    let e = sorted_entries(img.attributes.deep_view());
    let items = Seq::new(e.len(), |i: int| entry_json(e[i].0, e[i].1));
    assert forall|k: int| 0 <= k < items.len() implies !has_zero_byte(#[trigger] items[k]) by {
        lemma_json_string_no_zero(encode_utf8(e[k].0));
        lemma_json_string_no_zero(encode_utf8(e[k].1));
    }
    lemma_join_no_zero(items);
    lemma_json_string_no_zero(encode_utf8(base64_of(img.data@)));
    lemma_optional_text_no_zero(optional_view(img.description));
    lemma_optional_text_no_zero(optional_view(img.filename));
    lemma_json_string_no_zero(format_label(img.format));
    lemma_json_string_no_zero(encode_utf8(source_label(img.source)));
    if let Some((w, h)) = img.dimensions {
        lemma_decimal_no_zero(w as nat);
        lemma_decimal_no_zero(h as nat);
    }
}

/// The JSON document of an image extraction never holds a zero byte, so it
/// can always travel as a terminated string.
pub proof fn lemma_extraction_json_no_zero(x: HtmlExtraction)
    ensures
        !has_zero_byte(extraction_json(x)),
{
    broadcast use lemma_concat_zero;

    lemma_fixed_text_no_zero();
    lemma_punctuation_no_zero();
    let images = Seq::new(x.inline_images@.len(), |i: int| image_json(x.inline_images@[i]));
    assert forall|k: int| 0 <= k < images.len() implies !has_zero_byte(#[trigger] images[k]) by {
        lemma_image_json_no_zero(x.inline_images@[k]);
    }
    lemma_join_no_zero(images);
    let warnings = Seq::new(x.warnings@.len(), |i: int| warning_json(x.warnings@[i]));
    assert forall|k: int| 0 <= k < warnings.len() implies !has_zero_byte(#[trigger] warnings[k]) by {
        lemma_decimal_no_zero(x.warnings@[k].index as nat);
        lemma_json_string_no_zero(encode_utf8(x.warnings@[k].message@));
    }
    lemma_join_no_zero(warnings);
    lemma_json_string_no_zero(encode_utf8(x.markdown@));
}

/// The JSON document of a metadata conversion holds no zero byte when the
/// metadata's text holds no NUL character.
pub proof fn lemma_metadata_document_no_zero(markdown: Seq<char>, metadata: Seq<char>)
    requires
        forall|i: int| 0 <= i < metadata.len() ==> metadata[i] != '\0',
    ensures
        !has_zero_byte(metadata_document(markdown, metadata)),
{
    broadcast use lemma_concat_zero;

    lemma_fixed_text_no_zero();
    lemma_punctuation_no_zero();
    lemma_json_string_no_zero(encode_utf8(markdown));
    lemma_utf8_no_zero(metadata);
}


/// In the JSON record of an image, the `data` member is one JSON string
/// literal that reads back as base64 text, and that text decodes back into
/// exactly the image's bytes.
pub proof fn lemma_image_data_reads_back(img: InlineImage)
    ensures
        exists|head: Seq<u8>, lit: Seq<u8>, rest: Seq<u8>|
            image_json(img) == head + encode_utf8(",\"data\":"@) + lit + rest
                && json_string_value(lit) == Some(encode_utf8(base64_of(img.data@)))
                && base64_decode(base64_of(img.data@)) == Some(img.data@),
{
    let head = encode_utf8("{\"attributes\":"@) + entries_json(sorted_entries(img.attributes.deep_view()));
    let lit = json_text(base64_of(img.data@));
    let rest = encode_utf8(",\"description\":"@) + json_optional_text(optional_view(img.description))
        + image_json_tail(img);
    lemma_json_string_round_trip(encode_utf8(base64_of(img.data@)));
    lemma_base64_round_trip(img.data@);
    assert(image_json(img) =~= head + encode_utf8(",\"data\":"@) + lit + rest);
}

} // verus!
