//! The Token Minter and Token Verifier: exchanging a stored authorization
//! code for a signed bearer token, and validating presented tokens.
//!
//! A token is the standard compact form `header.payload.signature`: two
//! base64url-encoded JSON segments and an HMAC-SHA256 signature over them,
//! keyed by the server's shared secret. The framing — assembling the three
//! segments, splitting a presented token, and comparing the signature — is
//! done and verified here; the base64 alphabet, the JSON rendering of the
//! claims and the HMAC itself come from outside crates behind named results.

use vstd::prelude::*;

use crate::AuthError;
use crate::store::{CodeItem, cache_capacity, cache_contents, get};
use crate::strings::{find_dot, str_eq};
use base64::Engine;
use lru_time_cache::LruCache;
use vstd::string::StrSliceExecFns;
use vstd::string::StringExecFns;

verus! {

/// The parameters of a token-exchange request.
pub struct CodeAuth {
    pub code: String,
    pub redirect_uri: String,
    pub client_id: String,
}

/// The body of a successful token exchange.
#[derive(Debug, PartialEq, Eq)]
pub struct TokenResponse {
    pub access_token: String,
    pub scope: String,
    pub me: String,
}

/// The signed payload of a bearer token: subject identity, audience, granted
/// scope, and absolute expiry time (seconds since the Unix epoch).
#[derive(Debug, PartialEq, Eq)]
pub struct Claims {
    pub aud: String,
    pub exp: i64,
    pub scope: String,
    pub sub: String,
}

/// Lifetime of a minted token, in seconds.
pub const TOKEN_LIFETIME_SECS: i64 = 10000;

/// What base64url (no padding) makes of the UTF-8 bytes of `s`.
pub uninterp spec fn b64_of(s: Seq<char>) -> Seq<char>;

/// What HMAC-SHA256 under `secret`, base64url-encoded, makes of the UTF-8
/// bytes of `message`.
pub uninterp spec fn sig_of(message: Seq<char>, secret: Seq<char>) -> Seq<char>;

/// What `serde_json` makes of the claims: the object
/// `{"aud":...,"exp":...,"scope":...,"sub":...}` with the fields in that
/// order.
pub uninterp spec fn claims_json_of(aud: Seq<char>, exp: i64, scope: Seq<char>, sub: Seq<char>) -> Seq<char>;

/// The fixed JSON header naming the signing algorithm.
pub open spec fn header_json() -> Seq<char> {
    "{\"alg\":\"HS256\",\"typ\":\"JWT\"}"@
}

/// No `'.'` occurs in `s`; the segments of a well-formed token are such.
pub open spec fn dot_free(s: Seq<char>) -> bool {
    forall|i: int| 0 <= i < s.len() ==> s[i] != '.'
}

/// The signed part of a token: header and payload segment joined by a dot.
pub open spec fn signing_input(x: Seq<char>, y: Seq<char>) -> Seq<char> {
    x + seq!['.'] + y
}

/// Three segments joined by dots: the compact token form.
pub open spec fn three_segments(x: Seq<char>, y: Seq<char>, z: Seq<char>) -> Seq<char> {
    x + seq!['.'] + y + seq!['.'] + z
}

/// The token minted for the given claims under `secret`.
pub open spec fn token_of(
    aud: Seq<char>,
    exp: i64,
    scope: Seq<char>,
    sub: Seq<char>,
    secret: Seq<char>,
) -> Seq<char> {
    three_segments(
        b64_of(header_json()),
        b64_of(claims_json_of(aud, exp, scope, sub)),
        sig_of(
            signing_input(b64_of(header_json()), b64_of(claims_json_of(aud, exp, scope, sub))),
            secret,
        ),
    )
}

/// The segments of the token for these claims contain no dots. This holds of
/// every token the minter produces (base64url and the encoded signature use
/// a dot-free alphabet) and is what lets a verifier cut the token at its dots
/// unambiguously.
pub open spec fn token_wf(
    aud: Seq<char>,
    exp: i64,
    scope: Seq<char>,
    sub: Seq<char>,
    secret: Seq<char>,
) -> bool {
    dot_free(b64_of(header_json())) && dot_free(b64_of(claims_json_of(aud, exp, scope, sub)))
        && dot_free(
        sig_of(
            signing_input(b64_of(header_json()), b64_of(claims_json_of(aud, exp, scope, sub))),
            secret,
        ),
    )
}

/// Relies on `base64::engine::general_purpose::URL_SAFE_NO_PAD.encode`: the
/// encoding is a function of the input bytes alone, over an alphabet
/// (`A–Z a–z 0–9 - _`) that contains no dot.
#[verifier::external_body]
fn b64_encode_str(s: &str) -> (r: String)
    ensures
        r@ == b64_of(s@),
        dot_free(r@),
{
    base64::engine::general_purpose::URL_SAFE_NO_PAD.encode(s.as_bytes())
}

/// Relies on `base64::engine::general_purpose::URL_SAFE_NO_PAD.decode` and
/// `String::from_utf8`: decoding inverts encoding, so an input that is the
/// encoding of some string decodes to exactly that string.
#[verifier::external_body]
fn b64_decode_str(s: &str) -> (r: Option<String>)
    ensures
        match r {
            Some(u) => forall|t: Seq<char>| s@ == #[trigger] b64_of(t) ==> u@ == t,
            None => forall|t: Seq<char>| s@ != #[trigger] b64_of(t),
        },
{
    match base64::engine::general_purpose::URL_SAFE_NO_PAD.decode(s.as_bytes()) {
        Ok(bytes) => match String::from_utf8(bytes) {
            Ok(t) => Some(t),
            Err(_) => None,
        },
        Err(_) => None,
    }
}

/// Relies on `jsonwebtoken::crypto::sign` with `Algorithm::HS256` and a key
/// from `EncodingKey::from_secret`: the signature is HMAC-SHA256 over the
/// message, base64url-encoded (hence dot-free), a function of message and
/// secret alone. Signing with an HMAC key cannot fail. This determinism
/// holds for the crate's feature-selected RustCrypto provider; a host that
/// installed a custom `CryptoProvider` would change what the call computes.
#[verifier::external_body]
fn hs256_sign(message: &str, secret: &str) -> (r: String)
    ensures
        r@ == sig_of(message@, secret@),
        dot_free(r@),
{
    let key = jsonwebtoken::EncodingKey::from_secret(secret.as_bytes());
    match jsonwebtoken::crypto::sign(message.as_bytes(), &key, jsonwebtoken::Algorithm::HS256) {
        Ok(s) => s,
        Err(_) => String::new(),
    }
}

/// Relies on `serde_json::to_string` on an object of the four named claims:
/// the rendering is a function of the four values alone; rendering strings
/// and an integer cannot fail.
#[verifier::external_body]
fn claims_to_json(claims: &Claims) -> (r: String)
    ensures
        r@ == claims_json_of(claims.aud@, claims.exp, claims.scope@, claims.sub@),
{
    let mut m = serde_json::Map::new();
    m.insert("aud".to_string(), serde_json::Value::String(claims.aud.clone()));
    m.insert("exp".to_string(), serde_json::Value::from(claims.exp));
    m.insert("scope".to_string(), serde_json::Value::String(claims.scope.clone()));
    m.insert("sub".to_string(), serde_json::Value::String(claims.sub.clone()));
    match serde_json::to_string(&serde_json::Value::Object(m)) {
        Ok(s) => s,
        Err(_) => String::new(),
    }
}

/// Relies on `serde_json::from_str` and the `Value` field accessors:
/// deserialization inverts serialization, so the rendering of a claims
/// object parses back to exactly those four values. (The caller re-renders
/// and compares, so nothing is assumed of other parseable inputs.)
#[verifier::external_body]
fn claims_from_json(s: &str) -> (r: Option<Claims>)
    ensures
        match r {
            Some(c) => forall|a: Seq<char>, e: i64, sc: Seq<char>, su: Seq<char>|
                s@ == #[trigger] claims_json_of(a, e, sc, su) ==> c.aud@ == a && c.exp == e
                    && c.scope@ == sc && c.sub@ == su,
            None => forall|a: Seq<char>, e: i64, sc: Seq<char>, su: Seq<char>|
                s@ != #[trigger] claims_json_of(a, e, sc, su),
        },
{
    let v: serde_json::Value = serde_json::from_str(s).ok()?;
    Some(Claims {
        aud: v.get("aud")?.as_str()?.to_string(),
        exp: v.get("exp")?.as_i64()?,
        scope: v.get("scope")?.as_str()?.to_string(),
        sub: v.get("sub")?.as_str()?.to_string(),
    })
}

/// Mints the compact signed token for the given claims. The payload segment
/// carries the claims as a JSON object with the fields `aud`, `exp`, `scope`
/// and `sub`, in that order; the verifier accepts exactly this rendering.
pub fn mint_token(claims: &Claims, secret: &str) -> (r: String)
    ensures
        r@ == token_of(claims.aud@, claims.exp, claims.scope@, claims.sub@, secret@),
        token_wf(claims.aud@, claims.exp, claims.scope@, claims.sub@, secret@),
{
    let header = "{\"alg\":\"HS256\",\"typ\":\"JWT\"}";
    let hb = b64_encode_str(header);
    let pj = claims_to_json(claims);
    let pb = b64_encode_str(pj.as_str());
    let mut msg = hb;
    msg.append(".");
    msg.append(pb.as_str());
    let sig = hs256_sign(msg.as_str(), secret);
    let mut tok = msg;
    tok.append(".");
    tok.append(sig.as_str());
    proof {
        reveal_strlit(".");
        assert("."@ =~= seq!['.']);
        assert(tok@ =~= token_of(claims.aud@, claims.exp, claims.scope@, claims.sub@, secret@));
    }
    tok
}

/// Builds the claims a code record stands for — subject `me`, audience
/// `client_id`, the granted scope, expiry `now + TOKEN_LIFETIME_SECS` — and
/// mints their token.
pub fn create_token(item: &CodeItem, now: i64, secret: &str) -> (r: String)
    requires
        now <= i64::MAX - TOKEN_LIFETIME_SECS,
    ensures
        r@ == token_of(
            item.client_id@,
            (now + TOKEN_LIFETIME_SECS) as i64,
            item.scope_or_empty(),
            item.me@,
            secret@,
        ),
        token_wf(
            item.client_id@,
            (now + TOKEN_LIFETIME_SECS) as i64,
            item.scope_or_empty(),
            item.me@,
            secret@,
        ),
{
    let claims = Claims {
        aud: item.client_id.clone(),
        exp: now + TOKEN_LIFETIME_SECS,
        scope: match &item.scope {
            Some(s) => s.clone(),
            None => String::new(),
        },
        sub: item.me.clone(),
    };
    mint_token(&claims, secret)
}

proof fn lemma_first_dot(a: Seq<char>, b: Seq<char>, c: Seq<char>, d: Seq<char>)
    requires
        a + seq!['.'] + b == c + seq!['.'] + d,
        dot_free(a),
        dot_free(c),
    ensures
        a == c,
        b == d,
{
    let lhs = a + seq!['.'] + b;
    let rhs = c + seq!['.'] + d;
    assert(lhs.len() == a.len() + 1 + b.len());
    assert(rhs.len() == c.len() + 1 + d.len());
    if a.len() < c.len() {
        assert(lhs[a.len() as int] == '.');
        assert(rhs[a.len() as int] == c[a.len() as int]);
        assert(false);
    }
    if c.len() < a.len() {
        assert(rhs[c.len() as int] == '.');
        assert(lhs[c.len() as int] == a[c.len() as int]);
        assert(false);
    }
    assert(a =~= c) by {
        assert forall|i: int| 0 <= i < a.len() implies a[i] == c[i] by {
            assert(lhs[i] == a[i]);
            assert(rhs[i] == c[i]);
        }
    }
    assert(b =~= d) by {
        assert forall|i: int| 0 <= i < b.len() implies b[i] == d[i] by {
            assert(lhs[a.len() + 1 + i] == b[i]);
            assert(rhs[c.len() + 1 + i] == d[i]);
        }
    }
}

proof fn lemma_three_segments_unique(
    x: Seq<char>,
    y: Seq<char>,
    z: Seq<char>,
    x2: Seq<char>,
    y2: Seq<char>,
    z2: Seq<char>,
)
    requires
        three_segments(x, y, z) == three_segments(x2, y2, z2),
        dot_free(x),
        dot_free(y),
        dot_free(x2),
        dot_free(y2),
    ensures
        x == x2,
        y == y2,
        z == z2,
{
    assert(three_segments(x, y, z) =~= x + seq!['.'] + (y + seq!['.'] + z));
    assert(three_segments(x2, y2, z2) =~= x2 + seq!['.'] + (y2 + seq!['.'] + z2));
    lemma_first_dot(x, y + seq!['.'] + z, x2, y2 + seq!['.'] + z2);
    lemma_first_dot(y, z, y2, z2);
}

proof fn lemma_split_parts(t: Seq<char>, d1: int, d2: int)
    requires
        0 <= d1 < d2 < t.len(),
        t[d1] == '.',
        t[d2] == '.',
    ensures
        t == three_segments(
            t.subrange(0, d1),
            t.subrange(d1 + 1, d2),
            t.subrange(d2 + 1, t.len() as int),
        ),
{
    assert(t =~= three_segments(
        t.subrange(0, d1),
        t.subrange(d1 + 1, d2),
        t.subrange(d2 + 1, t.len() as int),
    ));
}

proof fn lemma_locate(t: Seq<char>, a: Seq<char>, e: i64, sc: Seq<char>, su: Seq<char>, secret: Seq<char>)
    requires
        t == token_of(a, e, sc, su, secret),
        token_wf(a, e, sc, su, secret),
    ensures
        ({
            let h0 = b64_of(header_json());
            let p0 = b64_of(claims_json_of(a, e, sc, su));
            let s0 = sig_of(signing_input(h0, p0), secret);
            let hl = h0.len() as int;
            let pl = p0.len() as int;
            t.len() == hl + 1 + pl + 1 + s0.len() && t[hl] == '.' && t[hl + 1 + pl] == '.'
                && t.subrange(0, hl) == h0 && t.subrange(hl + 1, hl + 1 + pl) == p0 && t.subrange(
                hl + 1 + pl + 1,
                t.len() as int,
            ) == s0 && (forall|j: int| 0 <= j < hl ==> t[j] != '.') && (forall|j: int|
                hl + 1 <= j < hl + 1 + pl ==> t[j] != '.')
        }),
{
    let h0 = b64_of(header_json());
    let p0 = b64_of(claims_json_of(a, e, sc, su));
    let s0 = sig_of(signing_input(h0, p0), secret);
    let hl = h0.len() as int;
    let pl = p0.len() as int;
    assert(t == h0 + seq!['.'] + p0 + seq!['.'] + s0);
    assert(t.subrange(0, hl) =~= h0);
    assert(t.subrange(hl + 1, hl + 1 + pl) =~= p0);
    assert(t.subrange(hl + 1 + pl + 1, t.len() as int) =~= s0);
    assert forall|j: int| 0 <= j < hl implies t[j] != '.' by {
        assert(t[j] == h0[j]);
    }
    assert forall|j: int| hl + 1 <= j < hl + 1 + pl implies t[j] != '.' by {
        assert(t[j] == p0[j - (hl + 1)]);
    }
}

proof fn lemma_align(
    t: Seq<char>,
    d1: int,
    d2: int,
    a: Seq<char>,
    e: i64,
    sc: Seq<char>,
    su: Seq<char>,
    secret: Seq<char>,
)
    requires
        t == token_of(a, e, sc, su, secret),
        token_wf(a, e, sc, su, secret),
        0 <= d1 < d2 < t.len(),
        t[d1] == '.',
        t[d2] == '.',
        forall|j: int| 0 <= j < d1 ==> t[j] != '.',
        forall|j: int| d1 + 1 <= j < d2 ==> t[j] != '.',
    ensures
        d1 == b64_of(header_json()).len(),
        d2 == d1 + 1 + b64_of(claims_json_of(a, e, sc, su)).len(),
        t.subrange(0, d1) == b64_of(header_json()),
        t.subrange(d1 + 1, d2) == b64_of(claims_json_of(a, e, sc, su)),
        t.subrange(d2 + 1, t.len() as int) == sig_of(
            signing_input(b64_of(header_json()), b64_of(claims_json_of(a, e, sc, su))),
            secret,
        ),
{
    lemma_locate(t, a, e, sc, su, secret);
    let h0 = b64_of(header_json());
    let p0 = b64_of(claims_json_of(a, e, sc, su));
    let hl = h0.len() as int;
    let pl = p0.len() as int;
    assert(t[hl] == '.');
    assert(d1 == hl);
    assert(t[hl + 1 + pl] == '.');
    assert(d2 == hl + 1 + pl);
}


/// Splits a presented token at its dots, recomputes the header segment and
/// the signature, and decodes the claims, accepting exactly the tokens this
/// server mints: the header segment must be the canonical encoded header, the
/// payload must be the canonical encoding of some claims quadruple, and the
/// signature segment must equal the recomputed signature character for
/// character.
#[verifier::rlimit(50)]
fn parse_and_check(token: &str, secret: &str) -> (r: Option<Claims>)
    ensures
        r matches Some(c) ==> token@ == token_of(c.aud@, c.exp, c.scope@, c.sub@, secret@)
            && token_wf(c.aud@, c.exp, c.scope@, c.sub@, secret@),
        forall|a: Seq<char>, e: i64, sc: Seq<char>, su: Seq<char>|
            (token@ == #[trigger] token_of(a, e, sc, su, secret@) && token_wf(
                a,
                e,
                sc,
                su,
                secret@,
            )) ==> (r matches Some(c) && c.aud@ == a && c.exp == e && c.scope@ == sc && c.sub@
                == su),
        forall|x0: Seq<char>, y0: Seq<char>, z0: Seq<char>|
            (token@ == #[trigger] three_segments(x0, y0, z0) && dot_free(x0) && dot_free(y0)
                && z0 != sig_of(signing_input(x0, y0), secret@)) ==> r is None,
{
    proof {
        reveal_strlit(".");
        assert("."@ =~= seq!['.']);
    }
    let n = token.unicode_len();
    let d1 = match find_dot(token, 0) {
        Some(i) => i,
        None => {
            proof {
                assert forall|a: Seq<char>, e: i64, sc: Seq<char>, su: Seq<char>|
                    token@ == #[trigger] token_of(a, e, sc, su, secret@) && token_wf(
                        a,
                        e,
                        sc,
                        su,
                        secret@,
                    ) implies false by {
                    lemma_locate(token@, a, e, sc, su, secret@);
                    assert(token@[b64_of(header_json()).len() as int] == '.');
                }
            }
            return None;
        },
    };
    let d2 = match find_dot(token, d1 + 1) {
        Some(i) => i,
        None => {
            proof {
                assert forall|a: Seq<char>, e: i64, sc: Seq<char>, su: Seq<char>|
                    token@ == #[trigger] token_of(a, e, sc, su, secret@) && token_wf(
                        a,
                        e,
                        sc,
                        su,
                        secret@,
                    ) implies false by {
                    lemma_locate(token@, a, e, sc, su, secret@);
                    let hl = b64_of(header_json()).len() as int;
                    let pl = b64_of(claims_json_of(a, e, sc, su)).len() as int;
                    assert(token@[hl] == '.');
                    assert(d1 == hl);
                    assert(token@[hl + 1 + pl] == '.');
                }
            }
            return None;
        },
    };
    let x = token.substring_char(0, d1);
    let y = token.substring_char(d1 + 1, d2);
    let z = token.substring_char(d2 + 1, n);
    let hb = b64_encode_str("{\"alg\":\"HS256\",\"typ\":\"JWT\"}");
    if !str_eq(x, hb.as_str()) {
        proof {
            assert forall|a: Seq<char>, e: i64, sc: Seq<char>, su: Seq<char>|
                token@ == #[trigger] token_of(a, e, sc, su, secret@) && token_wf(
                    a,
                    e,
                    sc,
                    su,
                    secret@,
                ) implies false by {
                lemma_align(token@, d1 as int, d2 as int, a, e, sc, su, secret@);
            }
        }
        return None;
    }
    let mut msg = x.to_owned();
    msg.append(".");
    msg.append(y);
    let expected = hs256_sign(msg.as_str(), secret);
    if !str_eq(z, expected.as_str()) {
        proof {
            assert forall|a: Seq<char>, e: i64, sc: Seq<char>, su: Seq<char>|
                token@ == #[trigger] token_of(a, e, sc, su, secret@) && token_wf(
                    a,
                    e,
                    sc,
                    su,
                    secret@,
                ) implies false by {
                lemma_align(token@, d1 as int, d2 as int, a, e, sc, su, secret@);
                assert(msg@ == signing_input(
                    b64_of(header_json()),
                    b64_of(claims_json_of(a, e, sc, su)),
                ));
            }
        }
        return None;
    }
    let pj = match b64_decode_str(y) {
        Some(p) => p,
        None => {
            proof {
                assert forall|a: Seq<char>, e: i64, sc: Seq<char>, su: Seq<char>|
                    token@ == #[trigger] token_of(a, e, sc, su, secret@) && token_wf(
                        a,
                        e,
                        sc,
                        su,
                        secret@,
                    ) implies false by {
                    lemma_align(token@, d1 as int, d2 as int, a, e, sc, su, secret@);
                    assert(y@ == b64_of(claims_json_of(a, e, sc, su)));
                }
            }
            return None;
        },
    };
    let yb = b64_encode_str(pj.as_str());
    if !str_eq(yb.as_str(), y) {
        proof {
            assert forall|a: Seq<char>, e: i64, sc: Seq<char>, su: Seq<char>|
                token@ == #[trigger] token_of(a, e, sc, su, secret@) && token_wf(
                    a,
                    e,
                    sc,
                    su,
                    secret@,
                ) implies false by {
                lemma_align(token@, d1 as int, d2 as int, a, e, sc, su, secret@);
                assert(y@ == b64_of(claims_json_of(a, e, sc, su)));
                assert(pj@ == claims_json_of(a, e, sc, su));
            }
        }
        return None;
    }
    let claims = match claims_from_json(pj.as_str()) {
        Some(c) => c,
        None => {
            proof {
                assert forall|a: Seq<char>, e: i64, sc: Seq<char>, su: Seq<char>|
                    token@ == #[trigger] token_of(a, e, sc, su, secret@) && token_wf(
                        a,
                        e,
                        sc,
                        su,
                        secret@,
                    ) implies false by {
                    lemma_align(token@, d1 as int, d2 as int, a, e, sc, su, secret@);
                    assert(y@ == b64_of(claims_json_of(a, e, sc, su)));
                    assert(pj@ == claims_json_of(a, e, sc, su));
                }
            }
            return None;
        },
    };
    let cj2 = claims_to_json(&claims);
    if !str_eq(cj2.as_str(), pj.as_str()) {
        proof {
            assert forall|a: Seq<char>, e: i64, sc: Seq<char>, su: Seq<char>|
                token@ == #[trigger] token_of(a, e, sc, su, secret@) && token_wf(
                    a,
                    e,
                    sc,
                    su,
                    secret@,
                ) implies false by {
                lemma_align(token@, d1 as int, d2 as int, a, e, sc, su, secret@);
                assert(y@ == b64_of(claims_json_of(a, e, sc, su)));
                assert(pj@ == claims_json_of(a, e, sc, su));
                assert(claims.aud@ == a && claims.exp == e && claims.scope@ == sc && claims.sub@
                    == su);
            }
        }
        return None;
    }
    proof {
        lemma_split_parts(token@, d1 as int, d2 as int);
        assert(token@ == three_segments(x@, y@, z@));
        assert(y@ == b64_of(pj@));
        assert(pj@ == claims_json_of(claims.aud@, claims.exp, claims.scope@, claims.sub@));
        assert(msg@ == signing_input(x@, y@));
        assert(z@ == sig_of(signing_input(x@, y@), secret@));
        assert(token@ == token_of(claims.aud@, claims.exp, claims.scope@, claims.sub@, secret@));
        assert(token_wf(claims.aud@, claims.exp, claims.scope@, claims.sub@, secret@));
        assert forall|a: Seq<char>, e: i64, sc: Seq<char>, su: Seq<char>|
            token@ == #[trigger] token_of(a, e, sc, su, secret@) && token_wf(
                a,
                e,
                sc,
                su,
                secret@,
            ) implies claims.aud@ == a && claims.exp == e && claims.scope@ == sc && claims.sub@
            == su by {
            lemma_align(token@, d1 as int, d2 as int, a, e, sc, su, secret@);
            assert(y@ == b64_of(claims_json_of(a, e, sc, su)));
            assert(pj@ == claims_json_of(a, e, sc, su));
        }
        assert forall|x0: Seq<char>, y0: Seq<char>, z0: Seq<char>|
            token@ == #[trigger] three_segments(x0, y0, z0) && dot_free(x0) && dot_free(y0)
                && z0 != sig_of(signing_input(x0, y0), secret@) implies false by {
            lemma_three_segments_unique(x@, y@, z@, x0, y0, z0);
        }
    }
    Some(claims)
}

/// `Bearer ` followed by a token.
pub open spec fn is_bearer(h: Seq<char>) -> bool {
    h.len() >= 8 && h.subrange(0, 7) == "Bearer "@
}

/// Extracts the token from an `Authorization` header value, which must be of
/// the form `Bearer <token>` with a nonempty token.
pub fn parse_auth(header: &str) -> (r: Result<String, AuthError>)
    ensures
        r matches Ok(t) ==> is_bearer(header@) && t@ == header@.skip(7),
        r matches Err(e) ==> e == AuthError::MalformedRequest && !is_bearer(header@),
{
    let n = header.unicode_len();
    if n < 8 {
        return Err(AuthError::MalformedRequest);
    }
    let prefix = header.substring_char(0, 7);
    if str_eq(prefix, "Bearer ") {
        let t = header.substring_char(7, n);
        proof {
            assert(t@ =~= header@.skip(7));
        }
        Ok(t.to_owned())
    } else {
        Err(AuthError::MalformedRequest)
    }
}

/// Checks a presented bearer token: it must be one this server minted under
/// `secret`, and its expiry must not have passed. The expiry check is exact
/// (`exp >= now`, no clock-skew leeway). All failures are indistinguishable
/// `InvalidToken`.
pub fn verify_token(token: &str, secret: &str, now: i64) -> (r: Result<Claims, AuthError>)
    ensures
        r matches Err(e) ==> e == AuthError::InvalidToken,
        r matches Ok(c) ==> token@ == token_of(c.aud@, c.exp, c.scope@, c.sub@, secret@) && c.exp
            >= now,
        forall|a: Seq<char>, e: i64, sc: Seq<char>, su: Seq<char>|
            (token@ == #[trigger] token_of(a, e, sc, su, secret@) && token_wf(a, e, sc, su, secret@)
                && e >= now) ==> (r matches Ok(c) && c.aud@ == a && c.exp == e && c.scope@ == sc
                && c.sub@ == su),
        forall|a: Seq<char>, e: i64, sc: Seq<char>, su: Seq<char>|
            (token@ == #[trigger] token_of(a, e, sc, su, secret@) && token_wf(a, e, sc, su, secret@)
                && e < now) ==> (r matches Err(er) && er == AuthError::InvalidToken),
        forall|x0: Seq<char>, y0: Seq<char>, z0: Seq<char>|
            (token@ == #[trigger] three_segments(x0, y0, z0) && dot_free(x0) && dot_free(y0)
                && z0 != sig_of(signing_input(x0, y0), secret@)) ==> (r matches Err(
            er,
            ) && er == AuthError::InvalidToken),
{
    match parse_and_check(token, secret) {
        None => Err(AuthError::InvalidToken),
        Some(c) => {
            if c.exp >= now {
                Ok(c)
            } else {
                Err(AuthError::InvalidToken)
            }
        },
    }
}

/// The Token Verifier endpoint: reads the `Authorization` header, if any, and
/// checks the bearer token it carries. A missing or malformed header is
/// `MalformedRequest`; a bad or expired token is `InvalidToken`.
pub fn verify(header: Option<&str>, secret: &str, now: i64) -> (r: Result<Claims, AuthError>)
    ensures
        (header matches None) ==> (r matches Err(e) && e == AuthError::MalformedRequest),
        (header matches Some(h) && !is_bearer(h@)) ==> (r matches Err(e) && e
            == AuthError::MalformedRequest),
        r matches Ok(c) ==> header matches Some(h) && is_bearer(h@) && h@.skip(7) == token_of(
            c.aud@,
            c.exp,
            c.scope@,
            c.sub@,
            secret@,
        ) && c.exp >= now,
        forall|a: Seq<char>, e: i64, sc: Seq<char>, su: Seq<char>|
            (header matches Some(h) && is_bearer(h@) && h@.skip(7) == #[trigger] token_of(
                a,
                e,
                sc,
                su,
                secret@,
            ) && token_wf(a, e, sc, su, secret@) && e >= now) ==> (r matches Ok(c) && c.aud@ == a
                && c.exp == e && c.scope@ == sc && c.sub@ == su),
        forall|a: Seq<char>, e: i64, sc: Seq<char>, su: Seq<char>|
            (header matches Some(h) && is_bearer(h@) && h@.skip(7) == #[trigger] token_of(
                a,
                e,
                sc,
                su,
                secret@,
            ) && token_wf(a, e, sc, su, secret@) && e < now) ==> (r matches Err(er) && er
                == AuthError::InvalidToken),
        forall|x0: Seq<char>, y0: Seq<char>, z0: Seq<char>|
            (header matches Some(h) && is_bearer(h@) && h@.skip(7) == #[trigger] three_segments(
                x0,
                y0,
                z0,
            ) && dot_free(x0) && dot_free(y0) && z0 != sig_of(signing_input(x0, y0), secret@))
                ==> (r matches Err(er) && er == AuthError::InvalidToken),
        (header matches Some(h) && is_bearer(h@)) ==> (r matches Ok(_) || (r matches Err(e) && e
            == AuthError::InvalidToken)),
{
    match header {
        None => Err(AuthError::MalformedRequest),
        Some(h) => {
            let token = match parse_auth(h) {
                Ok(t) => t,
                Err(e) => {
                    return Err(e);
                },
            };
            verify_token(token.as_str(), secret, now)
        },
    }
}

/// Checks a looked-up code record against the parameters of an exchange
/// request: the record must exist and its stored `client_id` and
/// `redirect_uri` must equal the presented ones exactly. The failure causes
/// are deliberately indistinguishable `InvalidGrant`.
pub fn verify_code(lookup: Option<CodeItem>, params: &CodeAuth) -> (r: Result<CodeItem, AuthError>)
    ensures
        r matches Ok(item) ==> (lookup matches Some(it) && item == it && it.client_id@
            == params.client_id@ && it.redirect_uri@ == params.redirect_uri@),
        forall|it: CodeItem|
            (lookup == Some(it) && it.client_id@ == params.client_id@ && it.redirect_uri@
                == params.redirect_uri@) ==> r == Ok::<CodeItem, AuthError>(it),
        r matches Err(e) ==> e == AuthError::InvalidGrant,
{
    match lookup {
        None => Err(AuthError::InvalidGrant),
        Some(it) => {
            let cid_ok = str_eq(it.client_id.as_str(), params.client_id.as_str());
            let ruri_ok = str_eq(it.redirect_uri.as_str(), params.redirect_uri.as_str());
            if cid_ok && ruri_ok {
                Ok(it)
            } else {
                Err(AuthError::InvalidGrant)
            }
        },
    }
}

/// The Token Minter's validation step: looks the presented code up in the
/// store and checks the binding. `Ok` returns exactly the stored record, and
/// only when its `client_id` and `redirect_uri` match the request.
pub fn exchange(cache: &mut LruCache<String, CodeItem>, params: &CodeAuth) -> (r: Result<
    CodeItem,
    AuthError,
>)
    ensures
        cache_capacity(*final(cache)) == cache_capacity(*old(cache)),
        r matches Ok(item) ==> cache_contents(*old(cache)).contains_key(params.code@)
            && cache_contents(*old(cache))[params.code@] == item && item.client_id@
            == params.client_id@ && item.redirect_uri@ == params.redirect_uri@,
        r matches Err(e) ==> e == AuthError::InvalidGrant,
        (cache_contents(*old(cache)).contains_key(params.code@) && cache_contents(
            *old(cache),
        )[params.code@].client_id@ == params.client_id@ && cache_contents(*old(cache))[params.code@].redirect_uri@
            == params.redirect_uri@) ==> (r matches Ok(_) || !cache_contents(
            *final(cache),
        ).contains_key(params.code@)),
        forall|k: Seq<char>|
            #[trigger] cache_contents(*final(cache)).contains_key(k) ==> cache_contents(
                *old(cache),
            ).contains_key(k) && cache_contents(*final(cache))[k] == cache_contents(*old(cache))[k],
{
    let lookup = get(cache, &params.code);
    verify_code(lookup, params)
}

/// The token endpoint: validates the exchange request against the store and
/// answers with the signed token, the granted scope, and the `me` identity of
/// the record the code was bound to. A request whose code is held with
/// matching bindings succeeds unless the store drops the entry (age or
/// capacity) at the moment of the lookup. The store is not mutated by an
/// exchange: a code may be exchanged again until it expires or is evicted.
pub fn token_post(
    cache: &mut LruCache<String, CodeItem>,
    params: &CodeAuth,
    now: i64,
    secret: &str,
) -> (r: Result<TokenResponse, AuthError>)
    requires
        now <= i64::MAX - TOKEN_LIFETIME_SECS,
    ensures
        cache_capacity(*final(cache)) == cache_capacity(*old(cache)),
        r matches Ok(resp) ==> cache_contents(*old(cache)).contains_key(params.code@) && ({
            let item = cache_contents(*old(cache))[params.code@];
            item.client_id@ == params.client_id@ && item.redirect_uri@ == params.redirect_uri@
                && resp.me@ == item.me@ && resp.scope@ == item.scope_or_empty()
                && resp.access_token@ == token_of(
                item.client_id@,
                (now + TOKEN_LIFETIME_SECS) as i64,
                item.scope_or_empty(),
                item.me@,
                secret@,
            ) && token_wf(
                item.client_id@,
                (now + TOKEN_LIFETIME_SECS) as i64,
                item.scope_or_empty(),
                item.me@,
                secret@,
            )
        }),
        r matches Err(e) ==> e == AuthError::InvalidGrant,
        (cache_contents(*old(cache)).contains_key(params.code@) && cache_contents(
            *old(cache),
        )[params.code@].client_id@ == params.client_id@ && cache_contents(*old(cache))[params.code@].redirect_uri@
            == params.redirect_uri@) ==> (r matches Ok(_) || !cache_contents(
            *final(cache),
        ).contains_key(params.code@)),
        forall|k: Seq<char>|
            #[trigger] cache_contents(*final(cache)).contains_key(k) ==> cache_contents(
                *old(cache),
            ).contains_key(k) && cache_contents(*final(cache))[k] == cache_contents(*old(cache))[k],
{
    let item = match exchange(cache, params) {
        Ok(item) => item,
        Err(e) => {
            return Err(e);
        },
    };
    let access_token = create_token(&item, now, secret);
    let scope = match &item.scope {
        Some(s) => s.clone(),
        None => String::new(),
    };
    Ok(TokenResponse { access_token, scope, me: item.me })
}

} // verus!
