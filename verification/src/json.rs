use vstd::prelude::*;
use crate::text::{decimal, digit_char, push_char};

verus! {

/// A lowercase hexadecimal digit.
pub open spec fn hex_char(v: int) -> char
    recommends
        0 <= v < 16,
{
    if v < 10 {
        ((v + 48) as u8) as char
    } else {
        ((v + 87) as u8) as char
    }
}

/// How a JSON string writes one char: `"` and `\` and the control chars
/// below U+0020 are escaped (with the short forms `\b \t \n \f \r` where
/// they exist and `\u00XX` in lowercase hex otherwise); every other char
/// stands for itself.
pub open spec fn json_escape_char(c: char) -> Seq<char> {
    if c == '"' {
        seq!['\\', '"']
    } else if c == '\\' {
        seq!['\\', '\\']
    } else if c == '\u{8}' {
        seq!['\\', 'b']
    } else if c == '\t' {
        seq!['\\', 't']
    } else if c == '\n' {
        seq!['\\', 'n']
    } else if c == '\u{c}' {
        seq!['\\', 'f']
    } else if c == '\r' {
        seq!['\\', 'r']
    } else if (c as u32) < 0x20 {
        seq!['\\', 'u', '0', '0', hex_char((c as u32 / 16) as int), hex_char((c as u32 % 16) as int)]
    } else {
        seq![c]
    }
}

/// The escaped body of a JSON string.
pub open spec fn json_escape(s: Seq<char>) -> Seq<char>
    decreases s.len(),
{
    if s.len() == 0 {
        seq![]
    } else {
        json_escape_char(s[0]) + json_escape(s.skip(1))
    }
}

/// A JSON string literal holding `s`.
pub open spec fn json_string(s: Seq<char>) -> Seq<char> {
    seq!['"'] + json_escape(s) + seq!['"']
}

fn hex_digit(v: u32) -> (c: char)
    requires
        v < 16,
    ensures
        c == hex_char(v as int),
{
    if v < 10 {
        ((v as u8) + 48) as char
    } else {
        ((v as u8) + 87) as char
    }
}

fn push_escaped_char(out: &mut String, c: char)
    ensures
        final(out)@ == old(out)@ + json_escape_char(c),
{
    if c == '"' {
        push_char(out, '\\');
        push_char(out, '"');
    } else if c == '\\' {
        push_char(out, '\\');
        push_char(out, '\\');
    } else if c == '\u{8}' {
        push_char(out, '\\');
        push_char(out, 'b');
    } else if c == '\t' {
        push_char(out, '\\');
        push_char(out, 't');
    } else if c == '\n' {
        push_char(out, '\\');
        push_char(out, 'n');
    } else if c == '\u{c}' {
        push_char(out, '\\');
        push_char(out, 'f');
    } else if c == '\r' {
        push_char(out, '\\');
        push_char(out, 'r');
    } else if (c as u32) < 0x20 {
        push_char(out, '\\');
        push_char(out, 'u');
        push_char(out, '0');
        push_char(out, '0');
        push_char(out, hex_digit((c as u32) / 16));
        push_char(out, hex_digit((c as u32) % 16));
    } else {
        push_char(out, c);
    }
    assert(out@ =~= old(out)@ + json_escape_char(c));
}

/// Appends `s` as a JSON string literal to `out`.
pub fn push_json_string(out: &mut String, s: &str)
    ensures
        final(out)@ == old(out)@ + json_string(s@),
{
    push_char(out, '"');
    let n = s.unicode_len();
    let mut i: usize = 0;
    assert(s@.skip(0) =~= s@);
    while i < n
        invariant
            n == s@.len(),
            i <= n,
            out@ + json_escape(s@.skip(i as int)) + seq!['"'] =~= old(out)@ + json_string(s@),
        decreases n - i,
    {
        let c = s.get_char(i);
        assert(s@.skip(i as int).skip(1) =~= s@.skip(i + 1));
        push_escaped_char(out, c);
        i = i + 1;
    }
    push_char(out, '"');
    assert(out@ =~= old(out)@ + json_string(s@));
}

/// The char that a two-char escape `\\x` stands for, for the escapes that
/// `json_escape_char` writes.
pub open spec fn json_short_escape(x: char) -> Option<char> {
    if x == '"' {
        Some('"')
    } else if x == '\\' {
        Some('\\')
    } else if x == 'b' {
        Some('\u{8}')
    } else if x == 't' {
        Some('\t')
    } else if x == 'n' {
        Some('\n')
    } else if x == 'f' {
        Some('\u{c}')
    } else if x == 'r' {
        Some('\r')
    } else {
        None
    }
}

/// The value of a lowercase hexadecimal digit, or -1.
pub open spec fn hex_value(c: char) -> int {
    if 48 <= c as u32 <= 57 {
        c as u32 - 48
    } else if 97 <= c as u32 <= 102 {
        c as u32 - 87
    } else {
        -1
    }
}

/// Reads the rest of a JSON string literal whose opening quote has been
/// read: the chars up to the closing quote, with the escapes that
/// `json_escape_char` writes undone. Gives the content and what follows the
/// closing quote, or `None` where the text is no such string.
pub open spec fn json_read_string(cs: Seq<char>) -> Option<(Seq<char>, Seq<char>)>
    decreases cs.len(),
{
    if cs.len() == 0 {
        None
    } else if cs[0] == '"' {
        Some((seq![], cs.skip(1)))
    } else if cs[0] == '\\' {
        if cs.len() >= 2 && json_short_escape(cs[1]) is Some {
            match json_read_string(cs.skip(2)) {
                Some((s, rest)) => Some((seq![json_short_escape(cs[1]).unwrap()] + s, rest)),
                None => None,
            }
        } else if cs.len() >= 6 && 0 <= hex_value(cs[4]) < 2 && 0 <= hex_value(cs[5]) {
            let c = ((hex_value(cs[4]) * 16 + hex_value(cs[5])) as u8) as char;
            if json_escape_char(c) == cs.take(6) {
                match json_read_string(cs.skip(6)) {
                    Some((s, rest)) => Some((seq![c] + s, rest)),
                    None => None,
                }
            } else {
                None
            }
        } else {
            None
        }
    } else if (cs[0] as u32) < 0x20 {
        None
    } else {
        match json_read_string(cs.skip(1)) {
            Some((s, rest)) => Some((seq![cs[0]] + s, rest)),
            None => None,
        }
    }
}

/// Whether `c` is a decimal digit.
pub open spec fn is_digit(c: char) -> bool {
    48 <= c as u32 <= 57
}

/// The number of decimal digits at the start of `cs`.
pub open spec fn leading_digits(cs: Seq<char>) -> nat
    decreases cs.len(),
{
    if cs.len() > 0 && is_digit(cs[0]) {
        1 + leading_digits(cs.skip(1))
    } else {
        0
    }
}

/// The number that a sequence of decimal digits writes.
pub open spec fn digits_value(ds: Seq<char>) -> nat
    decreases ds.len(),
{
    if ds.len() == 0 {
        0
    } else {
        digits_value(ds.drop_last()) * 10 + (ds.last() as u32 - 48) as nat
    }
}

/// Reads a JSON number that is a `u64` written as `decimal` writes it (no
/// sign, no leading zero, no fraction or exponent) at the start of `cs`;
/// gives the number and what follows it.
pub open spec fn json_read_u64(cs: Seq<char>) -> Option<(u64, Seq<char>)> {
    let k = leading_digits(cs);
    let v = digits_value(cs.take(k as int));
    if k > 0 && v <= u64::MAX && decimal(v) == cs.take(k as int) {
        Some((v as u64, cs.skip(k as int)))
    } else {
        None
    }
}

/// Whether `cs` begins with `prefix`.
pub open spec fn starts_with(cs: Seq<char>, prefix: Seq<char>) -> bool {
    prefix.len() <= cs.len() && cs.take(prefix.len() as int) == prefix
}

proof fn lemma_hex_roundtrip(v: int)
    requires
        0 <= v < 16,
    ensures
        hex_value(hex_char(v)) == v,
{
}

proof fn lemma_char_from_code(c: char)
    requires
        (c as u32) < 0x20,
    ensures
        (((c as u32 / 16) * 16 + c as u32 % 16) as u8) as char == c,
{
    let u = c as u32;
    vstd::utf8::char_u32_cast(c, u);
    assert((((c as u32 / 16) * 16 + c as u32 % 16) as u8) as u32 == u);
    assert((((c as u32 / 16) * 16 + c as u32 % 16) as u8) as char == u as char);
}

/// Reading a JSON string undoes writing it: the escaped body of `s` followed
/// by a closing quote reads back as `s`, leaving what came after.
pub proof fn lemma_json_read_string(s: Seq<char>, rest: Seq<char>)
    ensures
        json_read_string(json_escape(s) + seq!['"'] + rest) == Some((s, rest)),
    decreases s.len(),
{
    let input = json_escape(s) + seq!['"'] + rest;
    if s.len() == 0 {
        assert(input =~= seq!['"'] + rest);
        assert(input.skip(1) =~= rest);
    } else {
        let c = s[0];
        let e = json_escape_char(c);
        let tail = json_escape(s.skip(1)) + seq!['"'] + rest;
        lemma_json_read_string(s.skip(1), rest);
        assert(input =~= e + tail);
        assert(input.skip(e.len() as int) =~= tail);
        assert(input.take(e.len() as int) =~= e);
        if (c as u32) < 0x20 && c != '\u{8}' && c != '\t' && c != '\n' && c != '\u{c}' && c != '\r' {
            lemma_hex_roundtrip((c as u32 / 16) as int);
            lemma_hex_roundtrip((c as u32 % 16) as int);
            lemma_char_from_code(c);
        }
        assert(seq![c] + s.skip(1) =~= s);
    }
}

proof fn lemma_digit_char(d: int)
    requires
        0 <= d < 10,
    ensures
        digit_char(d) as u32 == d + 48,
        is_digit(digit_char(d)),
{
}

proof fn lemma_decimal_digits(n: nat)
    ensures
        decimal(n).len() > 0,
        n < 10 <==> decimal(n).len() == 1,
        forall|i: int| 0 <= i < decimal(n).len() ==> #[trigger] is_digit(decimal(n)[i]),
        digits_value(decimal(n)) == n,
        decimal(n).len() > 1 ==> decimal(n)[0] != '0',
    decreases n,
{
    if n < 10 {
        lemma_digit_char(n as int);
        assert(decimal(n).drop_last() =~= seq![]);
        assert(digits_value(seq![]) == 0);
        assert(digits_value(decimal(n)) == digits_value(decimal(n).drop_last()) * 10 + (
        decimal(n).last() as u32 - 48) as nat);
    } else {
        lemma_decimal_digits(n / 10);
        lemma_digit_char((n % 10) as int);
        assert(decimal(n).drop_last() =~= decimal(n / 10));
        assert(decimal(n).last() == digit_char((n % 10) as int));
        assert(digits_value(decimal(n)) == digits_value(decimal(n / 10)) * 10 + (n % 10));
        assert((n / 10) * 10 + n % 10 == n);
        assert(decimal(n)[0] == decimal(n / 10)[0]);
        if n / 10 < 10 {
            lemma_digit_char((n / 10) as int);
        }
        assert forall|i: int| 0 <= i < decimal(n).len() implies #[trigger] is_digit(decimal(n)[i]) by {
            if i < decimal(n / 10).len() {
                assert(decimal(n)[i] == decimal(n / 10)[i]);
            }
        }
    }
}

proof fn lemma_leading_digits(ds: Seq<char>, rest: Seq<char>)
    requires
        forall|i: int| 0 <= i < ds.len() ==> #[trigger] is_digit(ds[i]),
        rest.len() == 0 || !is_digit(rest[0]),
    ensures
        leading_digits(ds + rest) == ds.len(),
    decreases ds.len(),
{
    if ds.len() == 0 {
        assert(ds + rest =~= rest);
    } else {
        lemma_leading_digits(ds.skip(1), rest);
        assert((ds + rest).skip(1) =~= ds.skip(1) + rest);
    }
}

/// Reading a number undoes writing it, when what follows is not a digit.
pub proof fn lemma_json_read_u64(n: u64, rest: Seq<char>)
    requires
        rest.len() == 0 || !is_digit(rest[0]),
    ensures
        json_read_u64(decimal(n as nat) + rest) == Some((n, rest)),
{
    let d = decimal(n as nat);
    lemma_decimal_digits(n as nat);
    lemma_leading_digits(d, rest);
    assert((d + rest).take(d.len() as int) =~= d);
    assert((d + rest).skip(d.len() as int) =~= rest);
}

/// What `json_read_string` gives with `pre` put in front of the content.
pub open spec fn with_prefix(pre: Seq<char>, r: Option<(Seq<char>, Seq<char>)>) -> Option<(Seq<char>, Seq<char>)> {
    match r {
        Some((s, rest)) => Some((pre + s, rest)),
        None => None,
    }
}

fn hex_value_of(c: char) -> (r: Option<u32>)
    ensures
        match r {
            Some(v) => hex_value(c) == v && v < 16 && hex_char(v as int) == c,
            None => hex_value(c) < 0,
        },
{
    let x = c as u32;
    if 48 <= x && x <= 57 {
        Some(x - 48)
    } else if 97 <= x && x <= 102 {
        Some(x - 87)
    } else {
        None
    }
}

fn short_escape_of(x: char) -> (r: Option<char>)
    ensures
        r == json_short_escape(x),
{
    if x == '"' {
        Some('"')
    } else if x == '\\' {
        Some('\\')
    } else if x == 'b' {
        Some('\u{8}')
    } else if x == 't' {
        Some('\t')
    } else if x == 'n' {
        Some('\n')
    } else if x == 'f' {
        Some('\u{c}')
    } else if x == 'r' {
        Some('\r')
    } else {
        None
    }
}

/// Reads the JSON string literal whose opening quote stands just before
/// `cs[pos]`; gives its content and the position after its closing quote.
pub fn json_read_string_at(cs: &Vec<char>, pos: usize) -> (r: Option<(String, usize)>)
    requires
        pos <= cs@.len(),
    ensures
        match r {
            Some((s, p)) => pos <= p <= cs@.len() && json_read_string(cs@.skip(pos as int)) == Some(
                (s@, cs@.skip(p as int)),
            ),
            None => json_read_string(cs@.skip(pos as int)) is None,
        },
{
    let len = cs.len();
    let mut out = String::new();
    let mut i = pos;
    assert(with_prefix(out@, json_read_string(cs@.skip(i as int))) =~= json_read_string(cs@.skip(pos as int))) by {
        match json_read_string(cs@.skip(pos as int)) {
            Some((s, rest)) => { assert(seq![] + s =~= s); },
            None => {},
        }
    }
    while i < len
        invariant
            len == cs@.len(),
            pos <= i <= len,
            json_read_string(cs@.skip(pos as int)) == with_prefix(out@, json_read_string(cs@.skip(i as int))),
        decreases len - i,
    {
        let ghost rest = cs@.skip(i as int);
        let c = cs[i];
        assert(rest[0] == c);
        if c == '"' {
            assert(rest.skip(1) =~= cs@.skip(i + 1));
            assert(out@ + seq![] =~= out@);
            return Some((out, i + 1));
        } else if c == '\\' {
            if len - i >= 2 {
                let x = cs[i + 1];
                assert(rest[1] == x);
                match short_escape_of(x) {
                    Some(e) => {
                        assert(rest.skip(2) =~= cs@.skip(i + 2));
                        let ghost before = out@;
                        push_char(&mut out, e);
                        proof {
                            match json_read_string(cs@.skip(i + 2)) {
                                Some((t, r2)) => { assert(before + (seq![e] + t) =~= out@ + t); },
                                None => {},
                            }
                        }
                        i = i + 2;
                        continue;
                    },
                    None => {},
                }
            }
            if len - i >= 6 {
                let h4 = hex_value_of(cs[i + 4]);
                let h5 = hex_value_of(cs[i + 5]);
                assert(rest[4] == cs@[i + 4]);
                assert(rest[5] == cs@[i + 5]);
                match (h4, h5) {
                    (Some(a), Some(b)) => {
                        if a < 2 {
                            let code = a * 16 + b;
                            let e = ((code as u8) as char);
                            let ghost want = json_escape_char(e);
                            let canonical = cs[i + 1] == 'u' && cs[i + 2] == '0' && cs[i + 3] == '0'
                                && code != 8 && code != 9 && code != 10 && code != 12 && code != 13;
                            proof {
                                assert(e as u32 == code);
                                assert(e as u32 / 16 == a);
                                assert(e as u32 % 16 == b);
                                if canonical {
                                    assert(want =~= rest.take(6));
                                } else {
                                    assert(want != rest.take(6)) by {
                                        if want.len() == 6 {
                                            assert(want[1] == 'u' && want[2] == '0' && want[3] == '0');
                                            assert(rest.take(6)[1] == cs@[i + 1]);
                                            assert(rest.take(6)[2] == cs@[i + 2]);
                                            assert(rest.take(6)[3] == cs@[i + 3]);
                                        }
                                    }
                                }
                            }
                            if canonical {
                                assert(rest.skip(6) =~= cs@.skip(i + 6));
                                let ghost before = out@;
                                push_char(&mut out, e);
                                proof {
                                    match json_read_string(cs@.skip(i + 6)) {
                                        Some((t, r2)) => { assert(before + (seq![e] + t) =~= out@ + t); },
                                        None => {},
                                    }
                                }
                                i = i + 6;
                                continue;
                            }
                        }
                    },
                    _ => {},
                }
            }
            return None;
        } else if (c as u32) < 0x20 {
            return None;
        } else {
            assert(rest.skip(1) =~= cs@.skip(i + 1));
            let ghost before = out@;
            push_char(&mut out, c);
            proof {
                match json_read_string(cs@.skip(i + 1)) {
                    Some((t, r2)) => { assert(before + (seq![c] + t) =~= out@ + t); },
                    None => {},
                }
            }
            i = i + 1;
        }
    }
    assert(cs@.skip(i as int).len() == 0);
    None
}

proof fn lemma_digits_value_prefix(ds: Seq<char>, m: int)
    requires
        0 <= m <= ds.len(),
    ensures
        digits_value(ds.take(m)) <= digits_value(ds),
    decreases ds.len() - m,
{
    if m < ds.len() {
        lemma_digits_value_prefix(ds, m + 1);
        assert(ds.take(m + 1).drop_last() =~= ds.take(m));
    } else {
        assert(ds.take(m) =~= ds);
    }
}

/// Reads a `u64` written as `decimal` writes it at `cs[pos..]`; gives the
/// number and the position after its last digit.
pub fn json_read_u64_at(cs: &Vec<char>, pos: usize) -> (r: Option<(u64, usize)>)
    requires
        pos <= cs@.len(),
    ensures
        match r {
            Some((v, p)) => pos <= p <= cs@.len() && json_read_u64(cs@.skip(pos as int)) == Some(
                (v, cs@.skip(p as int)),
            ),
            None => json_read_u64(cs@.skip(pos as int)) is None,
        },
{
    let len = cs.len();
    let ghost rest = cs@.skip(pos as int);
    let mut j = pos;
    while j < len && (cs[j] as u32) >= 48 && (cs[j] as u32) <= 57
        invariant
            len == cs@.len(),
            pos <= j <= len,
            rest == cs@.skip(pos as int),
            leading_digits(rest) == (j - pos) + leading_digits(cs@.skip(j as int)),
            forall|x: int| pos <= x < j ==> #[trigger] is_digit(cs@[x]),
        decreases len - j,
    {
        assert(cs@.skip(j as int).skip(1) =~= cs@.skip(j + 1));
        j = j + 1;
    }
    proof {
        if j < len {
            assert(cs@.skip(j as int)[0] == cs@[j as int]);
        }
        assert(leading_digits(cs@.skip(j as int)) == 0);
    }
    let k = j - pos;
    let ghost ds = rest.take(k as int);
    if k == 0 {
        return None;
    }
    let mut acc: u64 = 0;
    let mut t = pos;
    while t < j
        invariant
            len == cs@.len(),
            pos <= t <= j <= len,
            k == j - pos,
            ds == rest.take(k as int),
            rest == cs@.skip(pos as int),
            acc as nat == digits_value(ds.take(t - pos)),
            forall|x: int| pos <= x < j ==> #[trigger] is_digit(cs@[x]),
            leading_digits(rest) == k,
        decreases j - t,
    {
        assert(is_digit(cs@[t as int]));
        let d = (cs[t] as u32) - 48;
        assert(ds.take(t - pos + 1).drop_last() =~= ds.take(t - pos));
        assert(ds.take(t - pos + 1).last() == cs@[t as int]);
        if acc > u64::MAX / 10 || (acc == u64::MAX / 10 && (d as u64) > u64::MAX % 10) {
            proof {
                lemma_digits_value_prefix(ds, t - pos + 1);
                assert(digits_value(ds.take(t - pos + 1)) == acc * 10 + d);
                assert(acc * 10 + d > u64::MAX) by (nonlinear_arith)
                    requires
                        acc > u64::MAX / 10 || (acc == u64::MAX / 10 && d > u64::MAX % 10),
                        d <= 9,
                ;
            }
            return None;
        }
        acc = acc * 10 + (d as u64);
        t = t + 1;
    }
    assert(ds.take(k as int) =~= ds);
    let shown = crate::text::u64_to_decimal(acc);
    let n = shown.unicode_len();
    if n != k {
        return None;
    }
    let mut q: usize = 0;
    while q < n
        invariant
            n == k,
            k == j - pos,
            j <= len,
            len == cs@.len(),
            ds == rest.take(k as int),
            rest == cs@.skip(pos as int),
            shown@ == decimal(acc as nat),
            shown@.len() == n,
            acc as nat == digits_value(ds),
            leading_digits(rest) == k,
            k > 0,
            q <= n,
            forall|x: int| 0 <= x < q ==> shown@[x] == ds[x],
        decreases n - q,
    {
        if shown.get_char(q) != cs[pos + q] {
            assert(ds[q as int] == cs@[pos + q]);
            assert(shown@[q as int] != ds[q as int]);
            return None;
        }
        q = q + 1;
    }
    assert(shown@ =~= ds);
    assert(rest.skip(k as int) =~= cs@.skip(j as int));
    Some((acc, j))
}

} // verus!
