use vstd::prelude::*;
use vstd::utf8::{decode_utf8, encode_utf8, valid_utf8};
use hmac::{Hmac, Mac};
use sha2::Sha256;
use crate::base64url::{b64, b64_decode, b64_decode_chars, b64_encode, lemma_b64_decode_encode, lemma_b64_encode_shape, is_b64_char};
use crate::json::{
    json_read_string, json_read_string_at, json_read_u64, json_read_u64_at,
    json_string, lemma_json_read_string, lemma_json_read_u64, push_json_string, starts_with,
};
use crate::text::{chars_between, chars_of, decimal, has_at, push_char, push_decimal, string_from_utf8, string_of};

verus! {

broadcast use vstd::utf8::group_utf8_lib;

/// The HMAC-SHA256 tag of `message` under `key`.
pub uninterp spec fn hmac_sha256_tag(key: Seq<u8>, message: Seq<u8>) -> Seq<u8>;

/// HMAC-SHA256 of `message` under `key`.
///
/// Trusted: the hmac crate's `Hmac::<Sha256>` (`new_from_slice`, `update`,
/// `finalize`). Its source accepts a key of any length (`new_from_slice`
/// always returns `Ok`); the tag itself is only named (`hmac_sha256_tag`), a
/// function of the key and the message.
#[verifier::external_body]
fn hmac_sha256(key: &[u8], message: &[u8]) -> (tag: Option<Vec<u8>>)
    ensures
        tag is Some,
        tag matches Some(t) ==> t@ == hmac_sha256_tag(key@, message@),
{
    match <Hmac<Sha256> as Mac>::new_from_slice(key) {
        Ok(mut mac) => {
            mac.update(message);
            Some(mac.finalize().into_bytes().to_vec())
        },
        Err(_) => None,
    }
}

/// Seconds for which a session token is valid after it is issued.
pub const TOKEN_LIFETIME_SECS: u64 = 900;

/// The secret that session tokens are signed with.
pub open spec fn signing_secret() -> Seq<char> {
    seq!['U', 'S', 'E', '_', 'E', 'N', 'V', '_', 'O', 'N', '_', 'L', 'I', 'V', 'E', '_', 'P', 'L', 'S']
}

/// The bytes of the signing secret.
pub open spec fn signing_key() -> Seq<u8> {
    encode_utf8(signing_secret())
}

/// The JOSE header of every session token: `{"alg":"HS256","typ":"JWT"}`.
pub open spec fn jwt_header() -> Seq<char> {
    seq![
        '{', '"', 'a', 'l', 'g', '"', ':', '"', 'H', 'S', '2', '5', '6', '"', ',', '"', 't', 'y',
        'p', '"', ':', '"', 'J', 'W', 'T', '"', '}',
    ]
}

/// The claims of a session token as JSON: `{"sub":..,"iat":..,"exp":..}`.
pub open spec fn claims_json(sub: Seq<char>, iat: u64, exp: u64) -> Seq<char> {
    seq!['{', '"', 's', 'u', 'b', '"', ':'] + json_string(sub) + seq![',', '"', 'i', 'a', 't', '"', ':']
        + decimal(iat as nat) + seq![',', '"', 'e', 'x', 'p', '"', ':'] + decimal(exp as nat) + seq![
        '}',
    ]
}

/// The encoded header and claims, joined by a dot: what the signature covers.
pub open spec fn signing_input(sub: Seq<char>, iat: u64) -> Seq<char> {
    b64_encode(encode_utf8(jwt_header())) + seq!['.'] + b64_encode(
        encode_utf8(claims_json(sub, iat, (iat + TOKEN_LIFETIME_SECS) as u64)),
    )
}

/// The session token (an HS256 JSON Web Token) issued at `iat` (seconds) for
/// the user `sub`: it expires `TOKEN_LIFETIME_SECS` later.
pub open spec fn jwt_for(sub: Seq<char>, iat: u64) -> Seq<char> {
    signing_input(sub, iat) + seq!['.'] + b64_encode(
        hmac_sha256_tag(signing_key(), encode_utf8(signing_input(sub, iat))),
    )
}

/// Builds the JSON claims of a token.
fn claims_string(sub: &str, iat: u64, exp: u64) -> (s: String)
    ensures
        s@ == claims_json(sub@, iat, exp),
{
    let open = "{\"sub\":";
    let iat_key = ",\"iat\":";
    let exp_key = ",\"exp\":";
    proof {
        reveal_strlit("{\"sub\":");
        reveal_strlit(",\"iat\":");
        reveal_strlit(",\"exp\":");
    }
    let mut s = String::new();
    s.append(open);
    push_json_string(&mut s, sub);
    s.append(iat_key);
    push_decimal(&mut s, iat);
    s.append(exp_key);
    push_decimal(&mut s, exp);
    push_char(&mut s, '}');
    assert(s@ =~= claims_json(sub@, iat, exp));
    s
}

/// Issues the session token of `user_id` at `now_secs` (seconds since the
/// Unix epoch): the base64url header, the base64url claims (`sub`, `iat`,
/// `exp` = `iat` + 900) and the base64url HMAC-SHA256 signature of the first
/// two, joined by dots.
pub fn sign(user_id: &str, now_secs: u64) -> (token: String)
    requires
        now_secs <= u64::MAX - TOKEN_LIFETIME_SECS,
    ensures
        token@ == jwt_for(user_id@, now_secs),
{
    let header = "{\"alg\":\"HS256\",\"typ\":\"JWT\"}";
    let secret = "USE_ENV_ON_LIVE_PLS";
    proof {
        reveal_strlit("{\"alg\":\"HS256\",\"typ\":\"JWT\"}");
        reveal_strlit("USE_ENV_ON_LIVE_PLS");
        assert(header@ =~= jwt_header());
        assert(secret@ =~= signing_secret());
    }
    let header_b64 = b64(header.as_bytes());
    let payload = claims_string(user_id, now_secs, now_secs + TOKEN_LIFETIME_SECS);
    let payload_b64 = b64(payload.as_str().as_bytes());
    let mut sign_payload = String::new();
    sign_payload.append(header_b64.as_str());
    push_char(&mut sign_payload, '.');
    sign_payload.append(payload_b64.as_str());
    assert(sign_payload@ =~= signing_input(user_id@, now_secs));
    let signature = hmac_sha256(secret.as_bytes(), sign_payload.as_str().as_bytes()).unwrap();
    let signature_b64 = b64(signature.as_slice());
    let mut jwt = String::new();
    jwt.append(sign_payload.as_str());
    push_char(&mut jwt, '.');
    jwt.append(signature_b64.as_str());
    assert(jwt@ =~= jwt_for(user_id@, now_secs));
    jwt
}

/// Reads the claims of a token back from their JSON, as `claims_json`
/// writes them.
pub open spec fn read_claims(cs: Seq<char>) -> Option<(Seq<char>, u64, u64)> {
    let sub_key = seq!['{', '"', 's', 'u', 'b', '"', ':', '"'];
    let iat_key = seq![',', '"', 'i', 'a', 't', '"', ':'];
    let exp_key = seq![',', '"', 'e', 'x', 'p', '"', ':'];
    if !starts_with(cs, sub_key) {
        None
    } else {
        match json_read_string(cs.skip(8)) {
            None => None,
            Some((sub, r1)) => if !starts_with(r1, iat_key) {
                None
            } else {
                match json_read_u64(r1.skip(7)) {
                    None => None,
                    Some((iat, r2)) => if !starts_with(r2, exp_key) {
                        None
                    } else {
                        match json_read_u64(r2.skip(7)) {
                            None => None,
                            Some((exp, r3)) => if r3 == seq!['}'] {
                                Some((sub, iat, exp))
                            } else {
                                None
                            },
                        }
                    },
                }
            },
        }
    }
}

/// Reading the claims back gives what was written.
pub proof fn lemma_read_claims(sub: Seq<char>, iat: u64, exp: u64)
    ensures
        read_claims(claims_json(sub, iat, exp)) == Some((sub, iat, exp)),
{
    let sub_key = seq!['{', '"', 's', 'u', 'b', '"', ':', '"'];
    let iat_key = seq![',', '"', 'i', 'a', 't', '"', ':'];
    let exp_key = seq![',', '"', 'e', 'x', 'p', '"', ':'];
    let close = seq!['}'];
    let r2 = exp_key + decimal(exp as nat) + close;
    let r1 = iat_key + decimal(iat as nat) + r2;
    let cs = claims_json(sub, iat, exp);
    assert(cs =~= sub_key + (crate::json::json_escape(sub) + seq!['"'] + r1));
    assert(cs.take(8) =~= sub_key);
    assert(cs.skip(8) =~= crate::json::json_escape(sub) + seq!['"'] + r1);
    lemma_json_read_string(sub, r1);
    assert(r1.take(7) =~= iat_key);
    assert(r1.skip(7) =~= decimal(iat as nat) + r2);
    lemma_json_read_u64(iat, r2);
    assert(r2.take(7) =~= exp_key);
    assert(r2.skip(7) =~= decimal(exp as nat) + close);
    lemma_json_read_u64(exp, close);
}

/// Whether `s` holds no `.`.
pub open spec fn no_dot(s: Seq<char>) -> bool {
    forall|k: int| 0 <= k < s.len() ==> s[k] != '.'
}

/// Whether `t` has dots exactly at `i` and `j` and nowhere else.
pub open spec fn dots_at(t: Seq<char>, i: int, j: int) -> bool {
    &&& 0 <= i < j < t.len()
    &&& t[i] == '.'
    &&& t[j] == '.'
    &&& no_dot(t.take(i))
    &&& no_dot(t.subrange(i + 1, j))
    &&& no_dot(t.skip(j + 1))
}

/// The three dot-separated parts of a token, where it has exactly two dots.
pub open spec fn token_parts(t: Seq<char>) -> Option<(Seq<char>, Seq<char>, Seq<char>)> {
    if exists|i: int, j: int| dots_at(t, i, j) {
        let (i, j) = choose|i: int, j: int| dots_at(t, i, j);
        Some((t.take(i), t.subrange(i + 1, j), t.skip(j + 1)))
    } else {
        None
    }
}

proof fn lemma_dots_unique(t: Seq<char>, i: int, j: int, i2: int, j2: int)
    requires
        dots_at(t, i, j),
        dots_at(t, i2, j2),
    ensures
        i == i2 && j == j2,
{
    if i < i2 {
        assert(t.take(i2)[i] == '.');
    }
    if i2 < i {
        assert(t.take(i)[i2] == '.');
    }
    if j < j2 {
        assert(t.subrange(i2 + 1, j2)[j - i2 - 1] == '.');
    }
    if j2 < j {
        assert(t.subrange(i + 1, j)[j2 - i - 1] == '.');
    }
}

/// The claims of a token that this service signed, where the signature
/// checks out: the header must be the one `sign` writes, the signature the
/// HMAC-SHA256 of the first two parts under the signing key, and the second
/// part the base64url of the UTF-8 of the claims JSON.
pub open spec fn token_claims(t: Seq<char>) -> Option<(Seq<char>, u64, u64)> {
    match token_parts(t) {
        None => None,
        Some((h, p, sig)) => if h == b64_encode(encode_utf8(jwt_header())) && sig == b64_encode(
            hmac_sha256_tag(signing_key(), encode_utf8(h + seq!['.'] + p)),
        ) {
            match b64_decode(p) {
                Some(bytes) => if valid_utf8(bytes) {
                    read_claims(decode_utf8(bytes))
                } else {
                    None
                },
                None => None,
            }
        } else {
            None
        },
    }
}

/// The user that a token names, if the token is genuine and has not expired
/// at `now_secs`.
pub open spec fn token_subject(t: Seq<char>, now_secs: u64) -> Option<Seq<char>> {
    match token_claims(t) {
        Some((sub, iat, exp)) => if now_secs < exp {
            Some(sub)
        } else {
            None
        },
        None => None,
    }
}

/// The encoding of any bytes holds no dot.
proof fn lemma_b64_no_dot(bytes: Seq<u8>)
    ensures
        no_dot(b64_encode(bytes)),
{
    lemma_b64_encode_shape(bytes);
    let e = b64_encode(bytes);
    assert forall|k: int| 0 <= k < e.len() implies e[k] != '.' by {
        assert(is_b64_char(e[k]));
    }
}

/// Three dot-free parts joined by dots split back into the same parts.
proof fn lemma_token_parts(h: Seq<char>, p: Seq<char>, sig: Seq<char>)
    requires
        no_dot(h),
        no_dot(p),
        no_dot(sig),
    ensures
        token_parts(h + seq!['.'] + p + seq!['.'] + sig) == Some((h, p, sig)),
{
    let t = h + seq!['.'] + p + seq!['.'] + sig;
    let i = h.len() as int;
    let j = i + 1 + p.len();
    assert(t.take(i) =~= h);
    assert(t.subrange(i + 1, j) =~= p);
    assert(t.skip(j + 1) =~= sig);
    assert(dots_at(t, i, j));
    let (i2, j2) = choose|i2: int, j2: int| dots_at(t, i2, j2);
    lemma_dots_unique(t, i, j, i2, j2);
}

/// The encoded claims decode back to the claims.
proof fn lemma_payload_reads(sub: Seq<char>, iat: u64, exp: u64)
    ensures
        b64_decode(b64_encode(encode_utf8(claims_json(sub, iat, exp)))) == Some(
            encode_utf8(claims_json(sub, iat, exp)),
        ),
        valid_utf8(encode_utf8(claims_json(sub, iat, exp))),
        decode_utf8(encode_utf8(claims_json(sub, iat, exp))) == claims_json(sub, iat, exp),
        read_claims(claims_json(sub, iat, exp)) == Some((sub, iat, exp)),
{
    lemma_b64_decode_encode(encode_utf8(claims_json(sub, iat, exp)));
    lemma_read_claims(sub, iat, exp);
}

/// What a token issued at `iat` carries: its user, `iat` and the expiry
/// `TOKEN_LIFETIME_SECS` later.
proof fn lemma_issued_token_claims(sub: Seq<char>, iat: u64)
    requires
        iat <= u64::MAX - TOKEN_LIFETIME_SECS,
    ensures
        token_claims(jwt_for(sub, iat)) == Some((sub, iat, (iat + TOKEN_LIFETIME_SECS) as u64)),
{
    let exp = (iat + TOKEN_LIFETIME_SECS) as u64;
    let h = b64_encode(encode_utf8(jwt_header()));
    let p = b64_encode(encode_utf8(claims_json(sub, iat, exp)));
    let sig = b64_encode(hmac_sha256_tag(signing_key(), encode_utf8(signing_input(sub, iat))));
    assert(signing_input(sub, iat) == h + seq!['.'] + p);
    assert(jwt_for(sub, iat) == h + seq!['.'] + p + seq!['.'] + sig);
    lemma_b64_no_dot(encode_utf8(jwt_header()));
    lemma_b64_no_dot(encode_utf8(claims_json(sub, iat, exp)));
    lemma_b64_no_dot(hmac_sha256_tag(signing_key(), encode_utf8(signing_input(sub, iat))));
    lemma_token_parts(h, p, sig);
    lemma_payload_reads(sub, iat, exp);
}

/// A token that was issued at `iat` names its user until it expires,
/// `TOKEN_LIFETIME_SECS` later: what `verify_token` reads of a token is what
/// `sign` wrote into it.
pub proof fn lemma_issued_token_names_user(sub: Seq<char>, iat: u64, now_secs: u64)
    requires
        iat <= u64::MAX - TOKEN_LIFETIME_SECS,
        now_secs < iat + TOKEN_LIFETIME_SECS,
    ensures
        token_subject(jwt_for(sub, iat), now_secs) == Some(sub),
{
    lemma_issued_token_claims(sub, iat);
}

/// A token is refused from the moment it expires, `TOKEN_LIFETIME_SECS`
/// after it was issued.
pub proof fn lemma_issued_token_expires(sub: Seq<char>, iat: u64, now_secs: u64)
    requires
        iat <= u64::MAX - TOKEN_LIFETIME_SECS,
        now_secs >= iat + TOKEN_LIFETIME_SECS,
    ensures
        token_subject(jwt_for(sub, iat), now_secs) is None,
{
    lemma_issued_token_claims(sub, iat);
}

/// Where a token has dots exactly at `a` and `b`, `a` is its first dot, `b`
/// the next one, and no dot follows.
proof fn lemma_dots_at_shape(t: Seq<char>, a: int, b: int)
    requires
        dots_at(t, a, b),
    ensures
        forall|x: int| 0 <= x < a ==> t[x] != '.',
        forall|x: int| a < x < b ==> t[x] != '.',
        forall|x: int| b < x < t.len() ==> t[x] != '.',
{
    assert forall|x: int| 0 <= x < a implies t[x] != '.' by {
        assert(t.take(a)[x] == t[x]);
    }
    assert forall|x: int| a < x < b implies t[x] != '.' by {
        assert(t.subrange(a + 1, b)[x - a - 1] == t[x]);
    }
    assert forall|x: int| b < x < t.len() implies t[x] != '.' by {
        assert(t.skip(b + 1)[x - b - 1] == t[x]);
    }
}

/// Where a scan for dots finds fewer than two, or a third one, the token has
/// no split into three parts.
proof fn lemma_no_split(t: Seq<char>, i: int, j: int, rest: int)
    requires
        0 <= i <= t.len(),
        forall|x: int| 0 <= x < i ==> t[x] != '.',
        i < t.len() ==> t[i] == '.' && i < j <= t.len(),
        i < t.len() ==> forall|x: int| i < x < j ==> t[x] != '.',
        i < t.len() && j < t.len() ==> t[j] == '.' && j < rest <= t.len(),
        rest < t.len() ==> t[rest] == '.',
        i == t.len() || j == t.len() || rest < t.len(),
    ensures
        !exists|a: int, b: int| dots_at(t, a, b),
{
    if exists|a: int, b: int| dots_at(t, a, b) {
        let (a, b) = choose|a: int, b: int| dots_at(t, a, b);
        lemma_dots_at_shape(t, a, b);
    }
}

/// Reads the claims JSON of a token.
fn read_claims_chars(cs: &Vec<char>) -> (r: Option<(String, u64, u64)>)
    ensures
        match r {
            Some((sub, iat, exp)) => read_claims(cs@) == Some((sub@, iat, exp)),
            None => read_claims(cs@) is None,
        },
{
    let sub_key = "{\"sub\":\"";
    let iat_key = ",\"iat\":";
    let exp_key = ",\"exp\":";
    proof {
        reveal_strlit("{\"sub\":\"");
        reveal_strlit(",\"iat\":");
        reveal_strlit(",\"exp\":");
        assert(sub_key@ =~= seq!['{', '"', 's', 'u', 'b', '"', ':', '"']);
        assert(iat_key@ =~= seq![',', '"', 'i', 'a', 't', '"', ':']);
        assert(exp_key@ =~= seq![',', '"', 'e', 'x', 'p', '"', ':']);
        assert(cs@.skip(0) =~= cs@);
    }
    if !has_at(cs, 0, sub_key) {
        return None;
    }
    let (sub, p1) = match json_read_string_at(cs, 8) {
        Some(found) => found,
        None => {
            return None;
        },
    };
    if !has_at(cs, p1, iat_key) {
        return None;
    }
    assert(iat_key@.len() == 7);
    let len = cs.len();
    assert(p1 + 7 <= len);
    assert(cs@.skip(p1 as int).skip(7) =~= cs@.skip(p1 + 7));
    let (iat, p2) = match json_read_u64_at(cs, p1 + 7) {
        Some(found) => found,
        None => {
            return None;
        },
    };
    if !has_at(cs, p2, exp_key) {
        return None;
    }
    assert(exp_key@.len() == 7);
    assert(p2 + 7 <= len);
    assert(cs@.skip(p2 as int).skip(7) =~= cs@.skip(p2 + 7));
    let (exp, p3) = match json_read_u64_at(cs, p2 + 7) {
        Some(found) => found,
        None => {
            return None;
        },
    };
    if p3 < len && len - p3 == 1 && cs[p3] == '}' {
        assert(cs@.skip(p3 as int) =~= seq!['}']);
        Some((sub, iat, exp))
    } else {
        assert(cs@.skip(p3 as int) != seq!['}']) by {
            if cs@.skip(p3 as int) == seq!['}'] {
                assert(cs@.skip(p3 as int).len() == 1);
                assert(cs@.skip(p3 as int)[0] == cs@[p3 as int]);
            }
        }
        None
    }
}

/// The position of the first `.` in `cs[from..]`, or `cs.len()`.
fn find_dot(cs: &Vec<char>, from: usize) -> (k: usize)
    requires
        from <= cs@.len(),
    ensures
        from <= k <= cs@.len(),
        k < cs@.len() ==> cs@[k as int] == '.',
        forall|x: int| from <= x < k ==> cs@[x] != '.',
{
    let mut k = from;
    while k < cs.len() && cs[k] != '.'
        invariant
            from <= k <= cs@.len(),
            forall|x: int| from <= x < k ==> cs@[x] != '.',
        decreases cs@.len() - k,
    {
        k = k + 1;
    }
    k
}

/// Checks a session token at `now_secs` and gives the user it names: `None`
/// for a token that is malformed, not signed with the signing key, or
/// expired.
pub fn verify_token(token: &str, now_secs: u64) -> (r: Option<String>)
    ensures
        match r {
            Some(sub) => token_subject(token@, now_secs) == Some(sub@),
            None => token_subject(token@, now_secs) is None,
        },
{
    let cs = chars_of(token);
    let ghost t = token@;
    let len = cs.len();
    let i = find_dot(&cs, 0);
    let j = if i < len {
        find_dot(&cs, i + 1)
    } else {
        len
    };
    let rest = if j < len {
        find_dot(&cs, j + 1)
    } else {
        len
    };
    if i == len || j == len || rest < len {
        proof {
            lemma_no_split(t, i as int, j as int, rest as int);
        }
        return None;
    }
    proof {
        assert(dots_at(t, i as int, j as int)) by {
            assert forall|k: int| 0 <= k < t.take(i as int).len() implies #[trigger] t.take(i as int)[k] != '.' by {
                assert(t.take(i as int)[k] == t[k]);
            }
            assert forall|k: int| 0 <= k < t.subrange(i + 1, j as int).len() implies #[trigger] t.subrange(i + 1, j as int)[k] != '.' by {
                assert(t.subrange(i + 1, j as int)[k] == t[i + 1 + k]);
            }
            assert forall|k: int| 0 <= k < t.skip(j + 1).len() implies #[trigger] t.skip(j + 1)[k] != '.' by {
                assert(t.skip(j + 1)[k] == t[j + 1 + k]);
            }
        }
        let (a, b) = choose|a: int, b: int| dots_at(t, a, b);
        lemma_dots_unique(t, i as int, j as int, a, b);
    }
    let ghost h = t.take(i as int);
    let ghost p = t.subrange(i + 1, j as int);
    let ghost sig = t.skip(j + 1);
    let header_part = string_of(&cs, 0, i);
    let payload_part = chars_between(&cs, i + 1, j);
    let signature_part = string_of(&cs, j + 1, len);
    let signed_part = string_of(&cs, 0, j);
    assert(header_part@ =~= h);
    assert(signature_part@ =~= sig);
    assert(signed_part@ =~= h + seq!['.'] + p);
    let header = "{\"alg\":\"HS256\",\"typ\":\"JWT\"}";
    let secret = "USE_ENV_ON_LIVE_PLS";
    proof {
        reveal_strlit("{\"alg\":\"HS256\",\"typ\":\"JWT\"}");
        reveal_strlit("USE_ENV_ON_LIVE_PLS");
        assert(header@ =~= jwt_header());
        assert(secret@ =~= signing_secret());
    }
    let expected_header = b64(header.as_bytes());
    if header_part != expected_header {
        return None;
    }
    let tag = hmac_sha256(secret.as_bytes(), signed_part.as_str().as_bytes()).unwrap();
    let expected_signature = b64(tag.as_slice());
    if signature_part != expected_signature {
        return None;
    }
    let bytes = match b64_decode_chars(&payload_part) {
        Some(bytes) => bytes,
        None => {
            return None;
        },
    };
    let json = match string_from_utf8(bytes) {
        Some(json) => json,
        None => {
            return None;
        },
    };
    let json_chars = chars_of(json.as_str());
    match read_claims_chars(&json_chars) {
        Some((sub, _iat, exp)) => {
            if now_secs < exp {
                Some(sub)
            } else {
                None
            }
        },
        None => None,
    }
}

} // verus!
