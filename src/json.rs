use vstd::prelude::*;
use vstd::utf8::{char_u32_cast, encode_scalar, encode_utf8};

verus! {

/// The lower-case hexadecimal digit for `d < 16`, as an ASCII byte.
pub open spec fn hex_digit(d: u8) -> u8 {
    if d < 10 {
        (0x30 + d) as u8
    } else {
        (0x57 + d) as u8
    }
}

/// How one byte of a JSON string's content is written: quote, backslash and
/// the control bytes are escaped, every other byte stands for itself (bytes
/// of multi-byte UTF-8 characters included).
pub open spec fn escape_byte(b: u8) -> Seq<u8> {
    if b == 0x22 {
        seq![0x5cu8, 0x22u8]
    } else if b == 0x5c {
        seq![0x5cu8, 0x5cu8]
    } else if b == 0x08 {
        seq![0x5cu8, 0x62u8]
    } else if b == 0x0c {
        seq![0x5cu8, 0x66u8]
    } else if b == 0x0a {
        seq![0x5cu8, 0x6eu8]
    } else if b == 0x0d {
        seq![0x5cu8, 0x72u8]
    } else if b == 0x09 {
        seq![0x5cu8, 0x74u8]
    } else if b < 0x20 {
        seq![0x5cu8, 0x75u8, 0x30u8, 0x30u8, hex_digit(b / 16), hex_digit(b % 16)]
    } else {
        seq![b]
    }
}

/// The escaped content of a JSON string holding the bytes `s`.
pub open spec fn escape_bytes(s: Seq<u8>) -> Seq<u8>
    decreases s.len(),
{
    if s.len() == 0 {
        Seq::empty()
    } else {
        escape_bytes(s.drop_last()) + escape_byte(s.last())
    }
}

/// The JSON string literal for the UTF-8 bytes `s`, quotes included.
pub open spec fn json_string(s: Seq<u8>) -> Seq<u8> {
    seq![0x22u8] + escape_bytes(s) + seq![0x22u8]
}

/// The JSON string literal for the text `t`.
pub open spec fn json_text(t: Seq<char>) -> Seq<u8> {
    json_string(encode_utf8(t))
}

/// The JSON for an optional text: `null` when absent.
pub open spec fn json_optional_text(t: Option<Seq<char>>) -> Seq<u8> {
    match t {
        Some(t) => json_text(t),
        None => encode_utf8("null"@),
    }
}

/// The decimal digits of `n`, most significant first, without leading zeros.
pub open spec fn decimal(n: nat) -> Seq<u8>
    decreases n,
{
    if n < 10 {
        seq![(0x30 + n) as u8]
    } else {
        decimal(n / 10) + seq![(0x30 + n % 10) as u8]
    }
}

/// Appends the bytes `b` to `out`.
pub fn push_bytes(out: &mut Vec<u8>, b: &[u8])
    ensures
        final(out)@ == old(out)@ + b@,
{
    let mut i: usize = 0;
    while i < b.len()
        invariant
            i <= b@.len(),
            out@ == old(out)@ + b@.take(i as int),
        decreases b@.len() - i,
    {
        out.push(b[i]);
        i = i + 1;
        assert(b@.take(i as int) =~= b@.take(i - 1) + seq![b@[i - 1]]);
    }
    assert(b@.take(i as int) =~= b@);
}

/// Appends the UTF-8 bytes of `s` to `out`.
pub fn push_text(out: &mut Vec<u8>, s: &str)
    ensures
        final(out)@ == old(out)@ + encode_utf8(s@),
{
    push_bytes(out, s.as_bytes());
}

/// Appends how the byte `b` is written inside a JSON string.
fn push_escaped_byte(out: &mut Vec<u8>, b: u8)
    ensures
        final(out)@ == old(out)@ + escape_byte(b),
{
    if b == 0x22 || b == 0x5c {
        out.push(0x5c);
        out.push(b);
    } else if b == 0x08 {
        out.push(0x5c);
        out.push(0x62);
    } else if b == 0x0c {
        out.push(0x5c);
        out.push(0x66);
    } else if b == 0x0a {
        out.push(0x5c);
        out.push(0x6e);
    } else if b == 0x0d {
        out.push(0x5c);
        out.push(0x72);
    } else if b == 0x09 {
        out.push(0x5c);
        out.push(0x74);
    } else if b < 0x20 {
        let hi = b / 16;
        let lo = b % 16;
        out.push(0x5c);
        out.push(0x75);
        out.push(0x30);
        out.push(0x30);
        out.push(if hi < 10 { 0x30 + hi } else { 0x57 + hi });
        out.push(if lo < 10 { 0x30 + lo } else { 0x57 + lo });
    } else {
        out.push(b);
    }
    assert(final(out)@ =~= old(out)@ + escape_byte(b));
}

/// Appends the JSON string literal for the UTF-8 bytes `s`.
pub fn push_json_string(out: &mut Vec<u8>, s: &[u8])
    ensures
        final(out)@ == old(out)@ + json_string(s@),
{
    out.push(0x22);
    let mut i: usize = 0;
    while i < s.len()
        invariant
            i <= s@.len(),
            out@ == old(out)@ + seq![0x22u8] + escape_bytes(s@.take(i as int)),
        decreases s@.len() - i,
    {
        proof {
            assert(s@.take(i + 1).drop_last() =~= s@.take(i as int));
        }
        push_escaped_byte(out, s[i]);
        i = i + 1;
        assert(out@ =~= old(out)@ + seq![0x22u8] + escape_bytes(s@.take(i as int)));
    }
    out.push(0x22);
    assert(s@.take(i as int) =~= s@);
    assert(out@ =~= old(out)@ + json_string(s@));
}

/// Appends the JSON string literal for the text `s`.
pub fn push_json_text(out: &mut Vec<u8>, s: &str)
    ensures
        final(out)@ == old(out)@ + json_text(s@),
{
    push_json_string(out, s.as_bytes());
}

/// Appends the JSON for an optional text, `null` when absent.
pub fn push_json_optional_text(out: &mut Vec<u8>, s: &Option<String>)
    ensures
        final(out)@ == old(out)@ + json_optional_text(
            match s {
                Some(t) => Some(t@),
                None => None,
            },
        ),
{
    match s {
        Some(t) => push_json_text(out, t.as_str()),
        None => push_text(out, "null"),
    }
}

/// Appends the decimal digits of `n`.
pub fn push_decimal(out: &mut Vec<u8>, n: u64)
    ensures
        final(out)@ == old(out)@ + decimal(n as nat),
    decreases n,
{
    if n >= 10 {
        push_decimal(out, n / 10);
    }
    out.push((0x30 + n % 10) as u8);
    assert(final(out)@ =~= old(out)@ + decimal(n as nat));
}

/// Whether the byte sequence `b` holds a zero byte, which a terminated
/// string cannot carry.
pub open spec fn has_zero_byte(b: Seq<u8>) -> bool {
    exists|i: int| 0 <= i < b.len() && b[i] == 0
}

/// Tests whether `b` holds a zero byte.
pub fn contains_zero_byte(b: &[u8]) -> (r: bool)
    ensures
        r == has_zero_byte(b@),
{
    let mut i: usize = 0;
    while i < b.len()
        invariant
            i <= b@.len(),
            forall|j: int| 0 <= j < i ==> b@[j] != 0,
        decreases b@.len() - i,
    {
        if b[i] == 0 {
            return true;
        }
        i = i + 1;
    }
    false
}

/// The byte that a one-letter escape `\x` stands for, if `x` is one.
pub open spec fn short_escape(x: u8) -> Option<u8> {
    if x == 0x22 {
        Some(0x22u8)
    } else if x == 0x5c {
        Some(0x5cu8)
    } else if x == 0x62 {
        Some(0x08u8)
    } else if x == 0x66 {
        Some(0x0cu8)
    } else if x == 0x6e {
        Some(0x0au8)
    } else if x == 0x72 {
        Some(0x0du8)
    } else if x == 0x74 {
        Some(0x09u8)
    } else {
        None
    }
}

/// The value of a lower-case hexadecimal digit, if `x` is one.
pub open spec fn hex_value(x: u8) -> Option<u8> {
    if 0x30 <= x <= 0x39 {
        Some((x - 0x30) as u8)
    } else if 0x61 <= x <= 0x66 {
        Some((x - 0x57) as u8)
    } else {
        None
    }
}

/// Reads the escaped content of a JSON string back into its bytes, front to
/// back; `None` where the content is not well formed (a bare quote or control
/// byte, an unknown escape, or a `\u` escape beyond one byte).
pub open spec fn unescape(b: Seq<u8>) -> Option<Seq<u8>>
    decreases b.len(),
{
    if b.len() == 0 {
        Some(Seq::empty())
    } else if b[0] == 0x5c {
        if b.len() >= 2 && short_escape(b[1]) is Some {
            match unescape(b.skip(2)) {
                Some(r) => Some(seq![short_escape(b[1])->0] + r),
                None => None,
            }
        } else if b.len() >= 6 && b[1] == 0x75 && b[2] == 0x30 && b[3] == 0x30 && hex_value(b[4]) is Some
            && hex_value(b[5]) is Some {
            match unescape(b.skip(6)) {
                Some(r) => Some(seq![(hex_value(b[4])->0 * 16 + hex_value(b[5])->0) as u8] + r),
                None => None,
            }
        } else {
            None
        }
    } else if b[0] == 0x22 || b[0] < 0x20 {
        None
    } else {
        match unescape(b.skip(1)) {
            Some(r) => Some(seq![b[0]] + r),
            None => None,
        }
    }
}

/// The bytes that a JSON string literal holds, if `lit` is exactly one
/// well-formed string literal.
pub open spec fn json_string_value(lit: Seq<u8>) -> Option<Seq<u8>> {
    if lit.len() >= 2 && lit[0] == 0x22 && lit.last() == 0x22 {
        unescape(lit.subrange(1, lit.len() - 1))
    } else {
        None
    }
}

proof fn lemma_escape_bytes_front(c: u8, rest: Seq<u8>)
    ensures
        escape_bytes(seq![c] + rest) == escape_byte(c) + escape_bytes(rest),
    decreases rest.len(),
{
    let s = seq![c] + rest;
    if rest.len() == 0 {
        assert(s.drop_last() =~= Seq::<u8>::empty());
        assert(s.last() == c);
        assert(escape_bytes(s.drop_last()) == Seq::<u8>::empty());
        assert(escape_bytes(rest) == Seq::<u8>::empty());
        assert(escape_bytes(s) == escape_bytes(s.drop_last()) + escape_byte(s.last()));
        assert(escape_bytes(s) =~= escape_byte(c) + escape_bytes(rest));
    } else {
        assert(s.drop_last() =~= seq![c] + rest.drop_last());
        lemma_escape_bytes_front(c, rest.drop_last());
        assert(s.last() == rest.last());
        assert(escape_bytes(s) == escape_bytes(s.drop_last()) + escape_byte(s.last()));
        assert(escape_bytes(rest) == escape_bytes(rest.drop_last()) + escape_byte(rest.last()));
        assert(escape_bytes(s) =~= escape_byte(c) + escape_bytes(rest));
    }
}

proof fn lemma_unescape_one(c: u8, t: Seq<u8>)
    ensures
        unescape(escape_byte(c) + t) == match unescape(t) {
            Some(r) => Some(seq![c] + r),
            None => None::<Seq<u8>>,
        },
{
    let b = escape_byte(c) + t;
    if c == 0x22 || c == 0x5c || c == 0x08 || c == 0x0c || c == 0x0a || c == 0x0d || c == 0x09 {
        assert(b.skip(2) =~= t);
    } else if c < 0x20 {
        assert(b.skip(6) =~= t);
        let hi = (c / 16) as u8;
        let lo = (c % 16) as u8;
        assert(hi < 2 && lo < 16);
        assert(hex_value(hex_digit(hi)) == Some(hi));
        assert(hex_value(hex_digit(lo)) == Some(lo));
        assert(hi * 16 + lo == c);
    } else {
        assert(b.skip(1) =~= t);
    }
}

proof fn lemma_unescape_escape(s: Seq<u8>)
    ensures
        unescape(escape_bytes(s)) == Some(s),
    decreases s.len(),
{
    if s.len() == 0 {
    } else {
        let rest = s.skip(1);
        assert(s =~= seq![s[0]] + rest);
        lemma_escape_bytes_front(s[0], rest);
        lemma_unescape_escape(rest);
        lemma_unescape_one(s[0], escape_bytes(rest));
    }
}

/// Any bytes written as a JSON string read back, unchanged, as exactly one
/// string literal: the text fields of the encoded results always parse back
/// into the text that was written.
pub proof fn lemma_json_string_round_trip(s: Seq<u8>)
    ensures
        json_string_value(json_string(s)) == Some(s),
{
    let lit = json_string(s);
    assert(lit.subrange(1, lit.len() - 1) =~= escape_bytes(s));
    lemma_unescape_escape(s);
}


proof fn lemma_scalar_no_zero(v: u32)
    requires
        v != 0,
    ensures
        forall|i: int| 0 <= i < encode_scalar(v).len() ==> encode_scalar(v)[i] != 0,
{
    assert(forall|x: u8| #![auto] (0xC0u8 | x) != 0 && (0xE0u8 | x) != 0 && (0xF0u8 | x) != 0 && (0x80u8 | x) != 0) by (bit_vector);
    assert(v <= 0x7F ==> (v & 0x7F) as u8 != 0) by (bit_vector)
        requires v != 0;
}

/// The UTF-8 bytes of a text without NUL characters hold no zero byte.
pub proof fn lemma_utf8_no_zero(t: Seq<char>)
    requires
        forall|i: int| 0 <= i < t.len() ==> t[i] != '\0',
    ensures
        !has_zero_byte(encode_utf8(t)),
    decreases t.len(),
{
    if t.len() > 0 {
        assert(t[0] != '\0');
        char_u32_cast(t[0], t[0] as u32);
        assert((0u32 as char) == '\0');
        assert((t[0] as u32) != 0);
        lemma_scalar_no_zero(t[0] as u32);
        lemma_utf8_no_zero(t.drop_first());
        let a = encode_scalar(t[0] as u32);
        let b = encode_utf8(t.drop_first());
        assert(encode_utf8(t) == a + b);
        assert forall|i: int| 0 <= i < (a + b).len() implies (a + b)[i] != 0 by {
            if i >= a.len() {
                assert((a + b)[i] == b[i - a.len()]);
            }
        }
    }
}

/// A concatenation holds a zero byte exactly where one of its parts does.
pub broadcast proof fn lemma_concat_zero(a: Seq<u8>, b: Seq<u8>)
    ensures
        #[trigger] has_zero_byte(a + b) == (has_zero_byte(a) || has_zero_byte(b)),
{
    if has_zero_byte(a) {
        let i = choose|i: int| 0 <= i < a.len() && a[i] == 0;
        assert((a + b)[i] == 0);
    }
    if has_zero_byte(b) {
        let i = choose|i: int| 0 <= i < b.len() && b[i] == 0;
        assert((a + b)[i + a.len()] == 0);
    }
    if has_zero_byte(a + b) {
        let i = choose|i: int| 0 <= i < (a + b).len() && (a + b)[i] == 0;
        if i < a.len() {
            assert(a[i] == 0);
        } else {
            assert(b[i - a.len()] == 0);
        }
    }
}

proof fn lemma_escape_byte_no_zero(b: u8)
    ensures
        !has_zero_byte(escape_byte(b)),
{
    assert(hex_digit(b / 16) != 0 && hex_digit(b % 16) != 0);
}

proof fn lemma_escape_bytes_no_zero(s: Seq<u8>)
    ensures
        !has_zero_byte(escape_bytes(s)),
    decreases s.len(),
{
    broadcast use lemma_concat_zero;

    if s.len() > 0 {
        lemma_escape_bytes_no_zero(s.drop_last());
        lemma_escape_byte_no_zero(s.last());
    }
}

/// A JSON string literal never holds a zero byte: a zero byte of the content
/// is written as an escape.
pub proof fn lemma_json_string_no_zero(s: Seq<u8>)
    ensures
        !has_zero_byte(json_string(s)),
{
    broadcast use lemma_concat_zero;

    lemma_escape_bytes_no_zero(s);
}

/// Decimal digits never hold a zero byte.
pub proof fn lemma_decimal_no_zero(n: nat)
    ensures
        !has_zero_byte(decimal(n)),
    decreases n,
{
    broadcast use lemma_concat_zero;

    if n >= 10 {
        lemma_decimal_no_zero(n / 10);
    }
}

} // verus!
