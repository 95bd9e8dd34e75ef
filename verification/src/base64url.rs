use vstd::prelude::*;
use crate::text::push_char;

verus! {

/// The char of a six-bit value in the URL-safe base64 alphabet
/// (`A`-`Z`, `a`-`z`, `0`-`9`, `-`, `_`).
pub open spec fn b64_char(v: int) -> char
    recommends
        0 <= v < 64,
{
    if v < 26 {
        ((v + 65) as u8) as char
    } else if v < 52 {
        ((v + 71) as u8) as char
    } else if v < 62 {
        ((v - 4) as u8) as char
    } else if v == 62 {
        '-'
    } else {
        '_'
    }
}

/// The six-bit value of a char of the URL-safe base64 alphabet, or -1 for a
/// char outside it.
pub open spec fn b64_value(c: char) -> int {
    let x = c as u32;
    if 65 <= x <= 90 {
        x - 65
    } else if 97 <= x <= 122 {
        x - 71
    } else if 48 <= x <= 57 {
        x + 4
    } else if c == '-' {
        62
    } else if c == '_' {
        63
    } else {
        -1
    }
}

/// Whether `c` belongs to the URL-safe base64 alphabet.
pub open spec fn is_b64_char(c: char) -> bool {
    b64_value(c) >= 0
}

/// The four six-bit groups of the bytes `b0 b1 b2`.
pub open spec fn sextet0(b0: u8) -> int {
    b0 as int / 4
}

pub open spec fn sextet1(b0: u8, b1: u8) -> int {
    (b0 % 4) * 16 + b1 / 16
}

pub open spec fn sextet2(b1: u8, b2: u8) -> int {
    (b1 % 16) * 4 + b2 / 64
}

pub open spec fn sextet3(b2: u8) -> int {
    b2 as int % 64
}

/// Unpadded URL-safe base64 (RFC 4648, section 5, without `=`), as JSON Web
/// Tokens use it: each three bytes become four chars, a trailing one or two
/// bytes become two or three chars.
pub open spec fn b64_encode(bytes: Seq<u8>) -> Seq<char>
    decreases bytes.len(),
{
    if bytes.len() == 0 {
        seq![]
    } else if bytes.len() == 1 {
        seq![b64_char(sextet0(bytes[0])), b64_char(sextet1(bytes[0], 0))]
    } else if bytes.len() == 2 {
        seq![
            b64_char(sextet0(bytes[0])),
            b64_char(sextet1(bytes[0], bytes[1])),
            b64_char(sextet2(bytes[1], 0)),
        ]
    } else {
        seq![
            b64_char(sextet0(bytes[0])),
            b64_char(sextet1(bytes[0], bytes[1])),
            b64_char(sextet2(bytes[1], bytes[2])),
            b64_char(sextet3(bytes[2])),
        ] + b64_encode(bytes.skip(3))
    }
}

/// Decodes unpadded URL-safe base64. Refuses (`None`) a char outside the
/// alphabet, a length of the form 4k + 1, and trailing bits that are not
/// zero, so that every byte sequence has exactly one encoding.
pub open spec fn b64_decode(chars: Seq<char>) -> Option<Seq<u8>>
    decreases chars.len(),
{
    if chars.len() == 0 {
        Some(seq![])
    } else if chars.len() == 1 {
        None
    } else {
        let v0 = b64_value(chars[0]);
        let v1 = b64_value(chars[1]);
        if v0 < 0 || v1 < 0 {
            None
        } else if chars.len() == 2 {
            if v1 % 16 == 0 {
                Some(seq![(v0 * 4 + v1 / 16) as u8])
            } else {
                None
            }
        } else {
            let v2 = b64_value(chars[2]);
            if v2 < 0 {
                None
            } else if chars.len() == 3 {
                if v2 % 4 == 0 {
                    Some(seq![(v0 * 4 + v1 / 16) as u8, ((v1 % 16) * 16 + v2 / 4) as u8])
                } else {
                    None
                }
            } else {
                let v3 = b64_value(chars[3]);
                if v3 < 0 {
                    None
                } else {
                    match b64_decode(chars.skip(4)) {
                        Some(rest) => Some(
                            seq![
                                (v0 * 4 + v1 / 16) as u8,
                                ((v1 % 16) * 16 + v2 / 4) as u8,
                                ((v2 % 4) * 64 + v3) as u8,
                            ] + rest,
                        ),
                        None => None,
                    }
                }
            }
        }
    }
}

/// The number of chars that `n` bytes encode to: ceil(4n / 3).
pub open spec fn b64_encoded_len(n: nat) -> nat {
    (4 * n + 2) / 3
}

proof fn lemma_b64_char_value(v: int)
    requires
        0 <= v < 64,
    ensures
        b64_value(b64_char(v)) == v,
        is_b64_char(b64_char(v)),
{
}

proof fn lemma_group_roundtrip(b0: u8, b1: u8, b2: u8)
    ensures
        0 <= sextet0(b0) < 64,
        0 <= sextet1(b0, b1) < 64,
        0 <= sextet2(b1, b2) < 64,
        0 <= sextet3(b2) < 64,
        (sextet0(b0) * 4 + sextet1(b0, b1) / 16) as u8 == b0,
        ((sextet1(b0, b1) % 16) * 16 + sextet2(b1, b2) / 4) as u8 == b1,
        ((sextet2(b1, b2) % 4) * 64 + sextet3(b2)) as u8 == b2,
        sextet1(b0, 0) % 16 == 0,
        sextet2(b1, 0) % 4 == 0,
{
}

/// Decoding undoes encoding: every byte sequence comes back from its
/// base64url text.
pub proof fn lemma_b64_decode_encode(bytes: Seq<u8>)
    ensures
        b64_decode(b64_encode(bytes)) == Some(bytes),
    decreases bytes.len(),
{
    let enc = b64_encode(bytes);
    if bytes.len() == 0 {
    } else if bytes.len() == 1 {
        lemma_group_roundtrip(bytes[0], 0, 0);
        lemma_b64_char_value(sextet0(bytes[0]));
        lemma_b64_char_value(sextet1(bytes[0], 0));
        assert(b64_decode(enc).unwrap() =~= bytes);
    } else if bytes.len() == 2 {
        lemma_group_roundtrip(bytes[0], bytes[1], 0);
        lemma_b64_char_value(sextet0(bytes[0]));
        lemma_b64_char_value(sextet1(bytes[0], bytes[1]));
        lemma_b64_char_value(sextet2(bytes[1], 0));
        assert(b64_decode(enc).unwrap() =~= bytes);
    } else {
        lemma_group_roundtrip(bytes[0], bytes[1], bytes[2]);
        lemma_b64_char_value(sextet0(bytes[0]));
        lemma_b64_char_value(sextet1(bytes[0], bytes[1]));
        lemma_b64_char_value(sextet2(bytes[1], bytes[2]));
        lemma_b64_char_value(sextet3(bytes[2]));
        lemma_b64_decode_encode(bytes.skip(3));
        assert(enc.skip(4) =~= b64_encode(bytes.skip(3)));
        assert(b64_decode(enc).unwrap() =~= bytes);
    }
}

/// An encoding has ceil(4n / 3) chars for n bytes, all of them in the
/// URL-safe alphabet (so none is `.`, `=`, `+` or `/`).
pub proof fn lemma_b64_encode_shape(bytes: Seq<u8>)
    ensures
        b64_encode(bytes).len() == b64_encoded_len(bytes.len()),
        forall|i: int| 0 <= i < b64_encode(bytes).len() ==> #[trigger] is_b64_char(b64_encode(bytes)[i]),
    decreases bytes.len(),
{
    let enc = b64_encode(bytes);
    if bytes.len() == 0 {
    } else if bytes.len() < 3 {
        lemma_group_roundtrip(bytes[0], if bytes.len() == 2 { bytes[1] } else { 0 }, 0);
        lemma_b64_char_value(sextet0(bytes[0]));
        lemma_b64_char_value(sextet1(bytes[0], 0));
        if bytes.len() == 2 {
            lemma_b64_char_value(sextet1(bytes[0], bytes[1]));
            lemma_b64_char_value(sextet2(bytes[1], 0));
        }
    } else {
        lemma_group_roundtrip(bytes[0], bytes[1], bytes[2]);
        lemma_b64_char_value(sextet0(bytes[0]));
        lemma_b64_char_value(sextet1(bytes[0], bytes[1]));
        lemma_b64_char_value(sextet2(bytes[1], bytes[2]));
        lemma_b64_char_value(sextet3(bytes[2]));
        lemma_b64_encode_shape(bytes.skip(3));
        let rest = b64_encode(bytes.skip(3));
        assert forall|i: int| 0 <= i < enc.len() implies #[trigger] is_b64_char(enc[i]) by {
            if i >= 4 {
                assert(enc[i] == rest[i - 4]);
            }
        }
    }
}

proof fn lemma_value_char(c: char)
    requires
        is_b64_char(c),
    ensures
        b64_char(b64_value(c)) == c,
        0 <= b64_value(c) < 64,
{
    let x = c as u32;
    vstd::utf8::char_u32_cast(c, x);
}

/// Each text has at most one decoding, and it is the encoding of what it
/// decodes to: `b64_decode` accepts only the texts that `b64_encode` writes.
pub proof fn lemma_b64_encode_decode(chars: Seq<char>)
    requires
        b64_decode(chars) is Some,
    ensures
        b64_encode(b64_decode(chars).unwrap()) == chars,
    decreases chars.len(),
{
    let bytes = b64_decode(chars).unwrap();
    if chars.len() == 0 {
        assert(bytes =~= seq![]);
    } else {
        let v0 = b64_value(chars[0]);
        let v1 = b64_value(chars[1]);
        lemma_value_char(chars[0]);
        lemma_value_char(chars[1]);
        if chars.len() == 2 {
            assert(bytes.len() == 1);
            assert(sextet0(bytes[0]) == v0);
            assert(sextet1(bytes[0], 0) == v1);
            assert(b64_encode(bytes) =~= chars);
        } else {
            let v2 = b64_value(chars[2]);
            lemma_value_char(chars[2]);
            if chars.len() == 3 {
                assert(bytes.len() == 2);
                assert(sextet0(bytes[0]) == v0);
                assert(sextet1(bytes[0], bytes[1]) == v1);
                assert(sextet2(bytes[1], 0) == v2);
                assert(b64_encode(bytes) =~= chars);
            } else {
                let v3 = b64_value(chars[3]);
                lemma_value_char(chars[3]);
                let rest = b64_decode(chars.skip(4)).unwrap();
                lemma_b64_encode_decode(chars.skip(4));
                assert(bytes.skip(3) =~= rest);
                assert(sextet0(bytes[0]) == v0);
                assert(sextet1(bytes[0], bytes[1]) == v1);
                assert(sextet2(bytes[1], bytes[2]) == v2);
                assert(sextet3(bytes[2]) == v3);
                assert(b64_encode(bytes) =~= chars);
            }
        }
    }
}

/// The URL-safe alphabet of RFC 4648, section 5: the values 0 to 25 are
/// `A` to `Z`, 26 to 51 are `a` to `z`, 52 to 61 are `0` to `9`, 62 is `-`
/// and 63 is `_`; reading a char gives its value back, and any other char is
/// refused.
pub proof fn lemma_b64_alphabet(v: int, c: char)
    requires
        0 <= v < 64,
    ensures
        v < 26 ==> b64_char(v) as u32 == ('A' as u32) + v,
        26 <= v < 52 ==> b64_char(v) as u32 == ('a' as u32) + (v - 26),
        52 <= v < 62 ==> b64_char(v) as u32 == ('0' as u32) + (v - 52),
        v == 62 ==> b64_char(v) == '-',
        v == 63 ==> b64_char(v) == '_',
        ('A' as u32) <= (c as u32) <= ('Z' as u32) ==> b64_value(c) == (c as u32) - ('A' as u32),
        ('a' as u32) <= (c as u32) <= ('z' as u32) ==> b64_value(c) == (c as u32) - ('a' as u32) + 26,
        ('0' as u32) <= (c as u32) <= ('9' as u32) ==> b64_value(c) == (c as u32) - ('0' as u32) + 52,
        c == '-' ==> b64_value(c) == 62,
        c == '_' ==> b64_value(c) == 63,
        !(('A' as u32) <= (c as u32) <= ('Z' as u32)) && !(('a' as u32) <= (c as u32) <= ('z' as u32))
            && !(('0' as u32) <= (c as u32) <= ('9' as u32)) && c != '-' && c != '_' ==> b64_value(c) == -1,
{
}

proof fn lemma_sextets_as_bits(b0: u8, b1: u8, b2: u8)
    ensures
        sextet0(b0) == (b0 >> 2u8) as int,
        sextet1(b0, b1) == (((b0 & 3u8) << 4u8) | (b1 >> 4u8)) as int,
        sextet2(b1, b2) == (((b1 & 15u8) << 2u8) | (b2 >> 6u8)) as int,
        sextet3(b2) == (b2 & 63u8) as int,
        sextet1(b0, 0) == ((b0 & 3u8) << 4u8) as int,
        sextet2(b1, 0) == ((b1 & 15u8) << 2u8) as int,
{
    assert(b0 / 4 == b0 >> 2u8) by (bit_vector);
    assert((b0 % 4) * 16 + b1 / 16 == (((b0 & 3u8) << 4u8) | (b1 >> 4u8))) by (bit_vector);
    assert((b1 % 16) * 4 + b2 / 64 == (((b1 & 15u8) << 2u8) | (b2 >> 6u8))) by (bit_vector);
    assert(b2 % 64 == (b2 & 63u8)) by (bit_vector);
    assert((b0 % 4) * 16 == ((b0 & 3u8) << 4u8)) by (bit_vector);
    assert((b1 % 16) * 4 == ((b1 & 15u8) << 2u8)) by (bit_vector);
}

/// How bytes become chars: each group of three bytes is cut into four
/// six-bit values, high bits first, and a trailing one or two bytes into two
/// or three values padded with zero bits.
pub proof fn lemma_b64_groups(b0: u8, b1: u8, b2: u8, rest: Seq<u8>)
    ensures
        b64_encode(seq![b0, b1, b2] + rest) == seq![
            b64_char((b0 >> 2u8) as int),
            b64_char((((b0 & 3u8) << 4u8) | (b1 >> 4u8)) as int),
            b64_char((((b1 & 15u8) << 2u8) | (b2 >> 6u8)) as int),
            b64_char((b2 & 63u8) as int),
        ] + b64_encode(rest),
        b64_encode(seq![b0]) == seq![b64_char((b0 >> 2u8) as int), b64_char(((b0 & 3u8) << 4u8) as int)],
        b64_encode(seq![b0, b1]) == seq![
            b64_char((b0 >> 2u8) as int),
            b64_char((((b0 & 3u8) << 4u8) | (b1 >> 4u8)) as int),
            b64_char(((b1 & 15u8) << 2u8) as int),
        ],
{
    lemma_sextets_as_bits(b0, b1, b2);
    let bytes = seq![b0, b1, b2] + rest;
    assert(bytes[0] == b0 && bytes[1] == b1 && bytes[2] == b2);
    assert(bytes.skip(3) =~= rest);
}

fn b64_digit(v: u8) -> (c: char)
    requires
        v < 64,
    ensures
        c == b64_char(v as int),
{
    if v < 26 {
        (v + 65) as char
    } else if v < 52 {
        (v + 71) as char
    } else if v < 62 {
        (v - 4) as char
    } else if v == 62 {
        '-'
    } else {
        '_'
    }
}

/// Encodes `input` as unpadded URL-safe base64.
pub fn b64(input: &[u8]) -> (out: String)
    ensures
        out@ == b64_encode(input@),
{
    let mut out = String::new();
    let len = input.len();
    let mut i: usize = 0;
    assert(input@.skip(0) =~= input@);
    while len - i >= 3
        invariant
            len == input@.len(),
            i <= len,
            out@ + b64_encode(input@.skip(i as int)) =~= b64_encode(input@),
        decreases len - i,
    {
        let b0 = input[i];
        let b1 = input[i + 1];
        let b2 = input[i + 2];
        let ghost rest = input@.skip(i as int);
        assert(rest.skip(3) =~= input@.skip(i + 3));
        push_char(&mut out, b64_digit(b0 / 4));
        push_char(&mut out, b64_digit((b0 % 4) * 16 + b1 / 16));
        push_char(&mut out, b64_digit((b1 % 16) * 4 + b2 / 64));
        push_char(&mut out, b64_digit(b2 % 64));
        i = i + 3;
    }
    let ghost rest = input@.skip(i as int);
    if len - i == 1 {
        let b0 = input[i];
        push_char(&mut out, b64_digit(b0 / 4));
        push_char(&mut out, b64_digit((b0 % 4) * 16));
    } else if len - i == 2 {
        let b0 = input[i];
        let b1 = input[i + 1];
        push_char(&mut out, b64_digit(b0 / 4));
        push_char(&mut out, b64_digit((b0 % 4) * 16 + b1 / 16));
        push_char(&mut out, b64_digit((b1 % 16) * 4));
    }
    assert(out@ =~= b64_encode(input@));
    out
}

/// What `b64_decode` gives with `pre` put in front of the bytes.
pub open spec fn with_bytes_prefix(pre: Seq<u8>, r: Option<Seq<u8>>) -> Option<Seq<u8>> {
    match r {
        Some(rest) => Some(pre + rest),
        None => None,
    }
}

fn b64_value_of(c: char) -> (r: Option<u8>)
    ensures
        match r {
            Some(v) => v == b64_value(c) && v < 64,
            None => b64_value(c) < 0,
        },
{
    let x = c as u32;
    if 65 <= x && x <= 90 {
        Some((x - 65) as u8)
    } else if 97 <= x && x <= 122 {
        Some((x - 71) as u8)
    } else if 48 <= x && x <= 57 {
        Some((x + 4) as u8)
    } else if c == '-' {
        Some(62)
    } else if c == '_' {
        Some(63)
    } else {
        None
    }
}

/// Decodes unpadded URL-safe base64 text; `None` exactly where `b64_decode`
/// refuses it.
pub fn b64_decode_chars(cs: &Vec<char>) -> (r: Option<Vec<u8>>)
    ensures
        match r {
            Some(v) => b64_decode(cs@) == Some(v@),
            None => b64_decode(cs@) is None,
        },
{
    let len = cs.len();
    let mut out: Vec<u8> = Vec::new();
    let mut i: usize = 0;
    assert(cs@.skip(0) =~= cs@);
    assert(with_bytes_prefix(out@, b64_decode(cs@.skip(0))) =~= b64_decode(cs@)) by {
        match b64_decode(cs@) {
            Some(b) => { assert(seq![] + b =~= b); },
            None => {},
        }
    }
    while len - i >= 4
        invariant
            len == cs@.len(),
            i <= len,
            b64_decode(cs@) == with_bytes_prefix(out@, b64_decode(cs@.skip(i as int))),
        decreases len - i,
    {
        let ghost rest = cs@.skip(i as int);
        assert(rest[0] == cs@[i as int] && rest[1] == cs@[i + 1] && rest[2] == cs@[i + 2] && rest[3]
            == cs@[i + 3]);
        assert(rest.skip(4) =~= cs@.skip(i + 4));
        let v0 = b64_value_of(cs[i]);
        let v1 = b64_value_of(cs[i + 1]);
        let v2 = b64_value_of(cs[i + 2]);
        let v3 = b64_value_of(cs[i + 3]);
        match (v0, v1, v2, v3) {
            (Some(a), Some(b), Some(c), Some(d)) => {
                let ghost before = out@;
                out.push(a * 4 + b / 16);
                out.push((b % 16) * 16 + c / 4);
                out.push((c % 4) * 64 + d);
                proof {
                    let group = seq![
                        (a * 4 + b / 16) as u8,
                        ((b % 16) * 16 + c / 4) as u8,
                        ((c % 4) * 64 + d) as u8,
                    ];
                    assert(out@ =~= before + group);
                    match b64_decode(cs@.skip(i + 4)) {
                        Some(t) => { assert(before + (group + t) =~= out@ + t); },
                        None => {},
                    }
                }
                i = i + 4;
            },
            _ => {
                return None;
            },
        }
    }
    let ghost rest = cs@.skip(i as int);
    let ghost before = out@;
    if len - i == 1 {
        return None;
    } else if len - i >= 2 {
        assert(rest[0] == cs@[i as int] && rest[1] == cs@[i + 1]);
        let v0 = b64_value_of(cs[i]);
        let v1 = b64_value_of(cs[i + 1]);
        match (v0, v1) {
            (Some(a), Some(b)) => {
                if len - i == 2 {
                    if b % 16 != 0 {
                        return None;
                    }
                    out.push(a * 4 + b / 16);
                    assert(out@ =~= before + seq![(a * 4 + b / 16) as u8]);
                } else {
                    assert(rest[2] == cs@[i + 2]);
                    match b64_value_of(cs[i + 2]) {
                        Some(c) => {
                            if c % 4 != 0 {
                                return None;
                            }
                            out.push(a * 4 + b / 16);
                            out.push((b % 16) * 16 + c / 4);
                            assert(out@ =~= before + seq![
                                (a * 4 + b / 16) as u8,
                                ((b % 16) * 16 + c / 4) as u8,
                            ]);
                        },
                        None => {
                            return None;
                        },
                    }
                }
            },
            _ => {
                return None;
            },
        }
    } else {
        assert(out@ + seq![] =~= out@);
    }
    Some(out)
}

} // verus!
