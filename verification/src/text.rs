use vstd::prelude::*;

verus! {

/// Appends `c` to the end of `s`.
///
/// Trusted: std's `String::push`, which its documentation says appends the
/// given char to the end of the string.
#[verifier::external_body]
pub(crate) fn push_char(s: &mut String, c: char)
    ensures
        final(s)@ == old(s)@.push(c),
{
    s.push(c);
}

/// The char of a decimal digit.
pub open spec fn digit_char(d: int) -> char
    recommends
        0 <= d < 10,
{
    ((d + 48) as u32) as char
}

/// The decimal numeral of `n`, most significant digit first, without
/// leading zeros ("0" for zero).
pub open spec fn decimal(n: nat) -> Seq<char>
    decreases n,
{
    if n < 10 {
        seq![digit_char(n as int)]
    } else {
        decimal(n / 10).push(digit_char((n % 10) as int))
    }
}

fn digit_to_char(d: u64) -> (c: char)
    requires
        d < 10,
    ensures
        c == digit_char(d as int),
{
    ((d as u8) + 48) as char
}

/// Appends the decimal numeral of `n` to `s`.
pub fn push_decimal(s: &mut String, n: u64)
    ensures
        final(s)@ == old(s)@ + decimal(n as nat),
    decreases n,
{
    if n >= 10 {
        push_decimal(s, n / 10);
    }
    let c = digit_to_char(n % 10);
    push_char(s, c);
    assert(s@ =~= old(s)@ + decimal(n as nat));
}

/// The decimal numeral of `n` as a new string (as `u64::to_string` writes it).
pub fn u64_to_decimal(n: u64) -> (s: String)
    ensures
        s@ == decimal(n as nat),
{
    let mut s = String::new();
    push_decimal(&mut s, n);
    assert(s@ =~= decimal(n as nat));
    s
}

/// The chars of `s`, one by one.
pub fn chars_of(s: &str) -> (cs: Vec<char>)
    ensures
        cs@ == s@,
{
    let n = s.unicode_len();
    let mut cs: Vec<char> = Vec::new();
    let mut i: usize = 0;
    while i < n
        invariant
            n == s@.len(),
            i <= n,
            cs@ == s@.take(i as int),
        decreases n - i,
    {
        cs.push(s.get_char(i));
        i = i + 1;
        assert(cs@ =~= s@.take(i as int));
    }
    assert(s@.take(n as int) =~= s@);
    cs
}

/// The string of the chars `cs[start..end]`.
pub fn string_of(cs: &Vec<char>, start: usize, end: usize) -> (s: String)
    requires
        start <= end <= cs@.len(),
    ensures
        s@ == cs@.subrange(start as int, end as int),
{
    let mut s = String::new();
    let mut i = start;
    while i < end
        invariant
            start <= i <= end <= cs@.len(),
            s@ == cs@.subrange(start as int, i as int),
        decreases end - i,
    {
        push_char(&mut s, cs[i]);
        i = i + 1;
        assert(s@ =~= cs@.subrange(start as int, i as int));
    }
    s
}

/// The string whose UTF-8 encoding is `bytes`, or `None` where `bytes` is not
/// valid UTF-8.
///
/// Trusted: std's `String::from_utf8`, which its documentation says returns
/// an error exactly when the bytes are not valid UTF-8 and otherwise the
/// string they encode.
#[verifier::external_body]
pub(crate) fn string_from_utf8(bytes: Vec<u8>) -> (r: Option<String>)
    ensures
        r is Some <==> vstd::utf8::valid_utf8(bytes@),
        r matches Some(s) ==> s@ == vstd::utf8::decode_utf8(bytes@),
{
    String::from_utf8(bytes).ok()
}

/// Whether `cs[pos..]` begins with the chars of `pat`.
pub fn has_at(cs: &Vec<char>, pos: usize, pat: &str) -> (b: bool)
    requires
        pos <= cs@.len(),
    ensures
        b == (pat@.len() <= cs@.len() - pos && cs@.skip(pos as int).take(pat@.len() as int) == pat@),
{
    let n = pat.unicode_len();
    let len = cs.len();
    if n > len - pos {
        return false;
    }
    let mut k: usize = 0;
    while k < n
        invariant
            n == pat@.len(),
            len == cs@.len(),
            pos <= len,
            n <= len - pos,
            k <= n,
            forall|x: int| 0 <= x < k ==> cs@[pos + x] == pat@[x],
        decreases n - k,
    {
        if cs[pos + k] != pat.get_char(k) {
            assert(cs@.skip(pos as int).take(n as int)[k as int] != pat@[k as int]);
            return false;
        }
        k = k + 1;
    }
    assert(cs@.skip(pos as int).take(n as int) =~= pat@);
    true
}

/// The chars `cs[start..end]` as a new vector.
pub fn chars_between(cs: &Vec<char>, start: usize, end: usize) -> (out: Vec<char>)
    requires
        start <= end <= cs@.len(),
    ensures
        out@ == cs@.subrange(start as int, end as int),
{
    let mut out: Vec<char> = Vec::new();
    let mut i = start;
    while i < end
        invariant
            start <= i <= end <= cs@.len(),
            out@ == cs@.subrange(start as int, i as int),
        decreases end - i,
    {
        out.push(cs[i]);
        i = i + 1;
        assert(out@ =~= cs@.subrange(start as int, i as int));
    }
    out
}

} // verus!
