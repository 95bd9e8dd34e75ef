use mugunghwa::base64url::{b64, b64_decode_chars};
use mugunghwa::json::{json_read_string_at, json_read_u64_at, push_json_string};

fn chars(s: &str) -> Vec<char> {
    s.chars().collect()
}

#[test]
fn b64_rfc4648_vectors_unpadded() {
    assert_eq!(b64(b""), "");
    assert_eq!(b64(b"f"), "Zg");
    assert_eq!(b64(b"fo"), "Zm8");
    assert_eq!(b64(b"foo"), "Zm9v");
    assert_eq!(b64(b"foob"), "Zm9vYg");
    assert_eq!(b64(b"fooba"), "Zm9vYmE");
    assert_eq!(b64(b"foobar"), "Zm9vYmFy");
}

#[test]
fn b64_uses_url_safe_alphabet() {
    assert_eq!(b64(&[0xfb, 0xef, 0xbe]), "----");
    assert_eq!(b64(&[0xff, 0xff, 0xff]), "____");
    assert_eq!(b64(&[0xfb, 0xff]), "-_8");
    assert_eq!(b64(br#"{"alg":"HS256","typ":"JWT"}"#), "eyJhbGciOiJIUzI1NiIsInR5cCI6IkpXVCJ9");
}

#[test]
fn b64_decode_round_trip() {
    for input in [&b""[..], b"f", b"fo", b"foo", b"foobar", &[0u8, 255, 128, 7, 64][..]] {
        let text = b64(input);
        assert_eq!(b64_decode_chars(&chars(&text)), Some(input.to_vec()));
    }
    assert_eq!(b64_decode_chars(&chars("Zm9vYmFy")), Some(b"foobar".to_vec()));
    assert_eq!(b64_decode_chars(&chars("-_8")), Some(vec![0xfb, 0xff]));
}

#[test]
fn b64_decode_refuses_non_canonical_text() {
    // a lone char cannot hold a byte
    assert_eq!(b64_decode_chars(&chars("Z")), None);
    assert_eq!(b64_decode_chars(&chars("Zm9vY")), None);
    // trailing bits must be zero: "Zh" would leave bits set
    assert_eq!(b64_decode_chars(&chars("Zh")), None);
    // padding and the standard alphabet are not url-safe base64
    assert_eq!(b64_decode_chars(&chars("Zg==")), None);
    assert_eq!(b64_decode_chars(&chars("+/8")), None);
    assert_eq!(b64_decode_chars(&chars("a.b")), None);
}

fn json(s: &str) -> String {
    let mut out = String::new();
    push_json_string(&mut out, s);
    out
}

#[test]
fn json_strings_match_serde_json() {
    for s in ["", "plain", "quote \" and \\ backslash", "tab\tnew\nline\r", "\u{0}\u{1}\u{8}\u{c}\u{1f}", "ünïcødé ✓", "\u{7f}"] {
        assert_eq!(json(s), serde_json::to_string(s).unwrap());
    }
    assert_eq!(json("a\u{1}"), "\"a\\u0001\"");
}

#[test]
fn json_strings_read_back() {
    for s in ["", "x", "quote \" and \\", "ctl \u{1}\u{8}\u{1b} end", "ü✓"] {
        let mut text = json(s);
        text.push_str(",rest");
        let cs = chars(&text);
        let (read, next) = json_read_string_at(&cs, 1).unwrap();
        assert_eq!(read, s);
        assert_eq!(cs[next..].iter().collect::<String>(), ",rest");
    }
    // an unterminated string, an unknown escape, a raw control char
    assert_eq!(json_read_string_at(&chars("\"abc"), 1), None);
    assert_eq!(json_read_string_at(&chars("\"a\\x\""), 1), None);
    assert_eq!(json_read_string_at(&chars("\"a\nb\""), 1), None);
    // `\u000a` is not how a newline is written here (`\n` is)
    assert_eq!(json_read_string_at(&chars("\"\\u000a\""), 1), None);
}

#[test]
fn json_numbers_read_back() {
    assert_eq!(json_read_u64_at(&chars("123,"), 0), Some((123, 3)));
    assert_eq!(json_read_u64_at(&chars("0}"), 0), Some((0, 1)));
    assert_eq!(json_read_u64_at(&chars("18446744073709551615"), 0), Some((u64::MAX, 20)));
    assert_eq!(json_read_u64_at(&chars("18446744073709551616"), 0), None);
    assert_eq!(json_read_u64_at(&chars("007"), 0), None);
    assert_eq!(json_read_u64_at(&chars("x1"), 0), None);
    assert_eq!(json_read_u64_at(&chars("x12"), 1), Some((12, 3)));
}
