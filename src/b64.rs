use vstd::prelude::*;

verus! {

/// The character of the standard base64 alphabet for a six-bit value.
pub open spec fn alphabet(v: u8) -> char {
    if v < 26 {
        ((v + 65) as u8) as char
    } else if v < 52 {
        ((v + 71) as u8) as char
    } else if v < 62 {
        ((v - 4) as u8) as char
    } else if v == 62 {
        '+'
    } else {
        '/'
    }
}

/// The six-bit value of a character of the standard base64 alphabet.
pub open spec fn sextet(c: char) -> u8 {
    if 'A' <= c <= 'Z' {
        (c as u32 - 65) as u8
    } else if 'a' <= c <= 'z' {
        (c as u32 - 71) as u8
    } else if '0' <= c <= '9' {
        (c as u32 + 4) as u8
    } else if c == '+' {
        62
    } else {
        63
    }
}

/// The standard, padded base64 text of `d`: each group of three bytes
/// becomes four characters, and a last group of one or two bytes is padded
/// with `=`.
pub open spec fn base64_of(d: Seq<u8>) -> Seq<char>
    decreases d.len(),
{
    if d.len() == 0 {
        Seq::empty()
    } else if d.len() == 1 {
        seq![alphabet(d[0] >> 2), alphabet((d[0] & 3) << 4), '=', '=']
    } else if d.len() == 2 {
        seq![
            alphabet(d[0] >> 2),
            alphabet(((d[0] & 3) << 4) | (d[1] >> 4)),
            alphabet((d[1] & 15) << 2),
            '=',
        ]
    } else {
        seq![
            alphabet(d[0] >> 2),
            alphabet(((d[0] & 3) << 4) | (d[1] >> 4)),
            alphabet(((d[1] & 15) << 2) | (d[2] >> 6)),
            alphabet(d[2] & 63),
        ] + base64_of(d.skip(3))
    }
}

/// Reads padded base64 text back into its bytes; `None` where its length is
/// not a multiple of four.
pub open spec fn base64_decode(t: Seq<char>) -> Option<Seq<u8>>
    decreases t.len(),
{
    if t.len() == 0 {
        Some(Seq::empty())
    } else if t.len() < 4 {
        None
    } else {
        let a = sextet(t[0]);
        let b = sextet(t[1]);
        let c = sextet(t[2]);
        let d = sextet(t[3]);
        if t.len() == 4 && t[2] == '=' && t[3] == '=' {
            Some(seq![((a << 2) | (b >> 4)) as u8])
        } else if t.len() == 4 && t[3] == '=' {
            Some(seq![((a << 2) | (b >> 4)) as u8, ((b << 4) | (c >> 2)) as u8])
        } else {
            match base64_decode(t.skip(4)) {
                Some(r) => Some(seq![
                    ((a << 2) | (b >> 4)) as u8,
                    ((b << 4) | (c >> 2)) as u8,
                    ((c << 6) | d) as u8,
                ] + r),
                None => None,
            }
        }
    }
}

proof fn lemma_alphabet(v: u8)
    requires
        v < 64,
    ensures
        sextet(alphabet(v)) == v,
        alphabet(v) != '=',
{
}

proof fn lemma_group_bits(x: u8, y: u8, z: u8)
    by (bit_vector)
    ensures
        (x >> 2) < 64,
        (((x & 3) << 4) | (y >> 4)) < 64,
        (((y & 15) << 2) | (z >> 6)) < 64,
        (z & 63) < 64,
        ((x & 3) << 4) < 64,
        ((y & 15) << 2) < 64,
        (((x >> 2) << 2) | ((((x & 3) << 4) | (y >> 4)) >> 4)) == x,
        (((((x & 3) << 4) | (y >> 4)) << 4) | ((((y & 15) << 2) | (z >> 6)) >> 2)) == y,
        (((((y & 15) << 2) | (z >> 6)) << 6) | (z & 63)) == z,
        (((x >> 2) << 2) | (((x & 3) << 4) >> 4)) == x,
        (((((x & 3) << 4) | (y >> 4)) << 4) | (((y & 15) << 2) >> 2)) == y,
{
}

/// Base64 text reads back into exactly the bytes it was made of.
pub proof fn lemma_base64_round_trip(d: Seq<u8>)
    ensures
        base64_decode(base64_of(d)) == Some(d),
    decreases d.len(),
{
    let t = base64_of(d);
    if d.len() == 0 {
    } else if d.len() == 1 {
        lemma_group_bits(d[0], 0, 0);
        lemma_alphabet(d[0] >> 2);
        lemma_alphabet((d[0] & 3) << 4);
        assert(base64_decode(t) =~= Some(d)) by {
            assert(seq![d[0]] =~= d);
        }
    } else if d.len() == 2 {
        lemma_group_bits(d[0], d[1], 0);
        lemma_alphabet(d[0] >> 2);
        lemma_alphabet(((d[0] & 3) << 4) | (d[1] >> 4));
        lemma_alphabet((d[1] & 15) << 2);
        assert(seq![d[0], d[1]] =~= d);
    } else {
        lemma_group_bits(d[0], d[1], d[2]);
        lemma_alphabet(d[0] >> 2);
        lemma_alphabet(((d[0] & 3) << 4) | (d[1] >> 4));
        lemma_alphabet(((d[1] & 15) << 2) | (d[2] >> 6));
        lemma_alphabet(d[2] & 63);
        lemma_base64_round_trip(d.skip(3));
        assert(t.skip(4) =~= base64_of(d.skip(3)));
        assert(seq![d[0], d[1], d[2]] + d.skip(3) =~= d);
    }
}

} // verus!
