use vstd::prelude::*;
use vstd::string::{StrSliceExecFns, StringSliceAdditionalSpecFns};
use vstd::utf8::{decode_utf8, encode_utf8_decode_utf8, valid_utf8};

verus! {

/// The part of `s` that a character bound of `n` keeps: the first `n`
/// characters, or all of `s` when `n` is zero or not below its length.
pub open spec fn bounded_prefix(s: Seq<char>, n: nat) -> Seq<char> {
    if n == 0 || n >= s.len() {
        s
    } else {
        s.take(n as int)
    }
}

/// Relies on std::str::from_utf8: it accepts exactly the well-formed UTF-8
/// byte strings, and the text it returns has those very bytes.
#[verifier::external_body]
fn utf8_str(bytes: &[u8]) -> (r: Option<&str>)
    ensures
        r is Some <==> valid_utf8(bytes@),
        r matches Some(s) ==> s.spec_bytes() == bytes@,
{
    std::str::from_utf8(bytes).ok()
}

/// Views `bytes` as text, without copying, if they are well-formed UTF-8.
pub fn decode_text(bytes: &[u8]) -> (r: Option<&str>)
    ensures
        r is Some <==> valid_utf8(bytes@),
        r matches Some(s) ==> s@ == decode_utf8(bytes@) && s.spec_bytes() == bytes@,
{
    let r = utf8_str(bytes);
    if let Some(s) = r {
        proof {
            encode_utf8_decode_utf8(s@);
        }
    }
    r
}

/// Cuts `s` after its first `n` characters (not bytes), so that no
/// multi-byte character is ever split; a bound of zero, or one at or above
/// the character count, keeps the whole text.
pub fn truncate_chars(s: &str, n: usize) -> (r: &str)
    ensures
        r@ == bounded_prefix(s@, n as nat),
        0 < n <= s@.len() ==> r@.len() == n && r@ =~= s@.subrange(0, n as int),
{
    if n == 0 {
        return s;
    }
    let count = s.unicode_len();
    if n >= count {
        s
    } else {
        s.substring_char(0, n)
    }
}

} // verus!
