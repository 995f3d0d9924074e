//! The Authorization Issuer: turning an approved authorization request into
//! an opaque, unguessable code bound to the requesting client and redirect
//! target, and building the redirect URIs the front end answers with.

use vstd::prelude::*;

use crate::AuthError;
use crate::store::{CodeItem, cache_capacity, cache_contents, put};
use crate::strings::str_eq;
use lru_time_cache::LruCache;
use vstd::string::StringExecFns;

verus! {

/// The kind of authorization response the client asked for. Unknown or absent
/// values are read as `Id`.
#[derive(Clone, Copy, Debug, PartialEq, Eq, Structural)]
pub enum ResponseType {
    Id,
    Code,
}

/// The parameters of an authorization request, parsed from the query string
/// or form body by the front end.
pub struct Auth {
    pub me: String,
    pub client_id: String,
    pub redirect_uri: String,
    pub state: String,
    pub response_type: Option<ResponseType>,
    pub scope: Option<String>,
}

/// What a successful authorization produces: the fresh opaque code and the
/// caller's `state` value, echoed byte for byte for its CSRF protection.
pub struct IssuedCode {
    pub code: String,
    pub state: String,
}

/// What `serde_urlencoded` makes of a list of key/value pairs:
/// `k1=v1&k2=v2&...` with percent-encoding applied to each key and value.
pub uninterp spec fn form_encoded_of(pairs: Seq<(Seq<char>, Seq<char>)>) -> Seq<char>;

/// The views of a list of key/value string pairs.
pub open spec fn pair_views(pairs: Seq<(String, String)>) -> Seq<(Seq<char>, Seq<char>)> {
    pairs.map_values(|p: (String, String)| (p.0@, p.1@))
}

/// Relies on `serde_urlencoded::to_string`: the encoding of a pair list is a
/// function of the pairs alone; encoding string pairs cannot fail.
#[verifier::external_body]
fn form_encode_pairs(pairs: &Vec<(String, String)>) -> (r: String)
    ensures
        r@ == form_encoded_of(pair_views(pairs@)),
{
    match serde_urlencoded::to_string(pairs) {
        Ok(s) => s,
        Err(_) => String::new(),
    }
}

/// Relies on `uuid::Uuid::new_v4` and its string rendering: a fresh random
/// UUID in the 36-character hyphenated form. Randomness admits no further
/// contract; distinctness of successive codes is only overwhelmingly likely.
#[verifier::external_body]
fn new_code() -> (r: String)
    ensures
        r@.len() == 36,
{
    uuid::Uuid::new_v4().to_string()
}

/// Reads the `response_type` values the protocol knows: `id` and `code`.
pub fn response_type_of(s: &str) -> (r: Option<ResponseType>)
    ensures
        s@ == "id"@ ==> r == Some(ResponseType::Id),
        s@ == "code"@ ==> r == Some(ResponseType::Code),
        s@ != "id"@ && s@ != "code"@ ==> r is None,
{
    proof {
        reveal_strlit("id");
        reveal_strlit("code");
        assert("id"@.len() == 2);
        assert("code"@.len() == 4);
    }
    if str_eq(s, "id") {
        Some(ResponseType::Id)
    } else if str_eq(s, "code") {
        Some(ResponseType::Code)
    } else {
        None
    }
}

/// The response type an authorization request asks for, with absent or
/// unrecognized values read as `Id`.
pub fn effective_response_type(auth: &Auth) -> (r: ResponseType)
    ensures
        auth.response_type == Some(ResponseType::Code) ==> r == ResponseType::Code,
        auth.response_type != Some(ResponseType::Code) ==> r == ResponseType::Id,
{
    match auth.response_type {
        Some(ResponseType::Code) => ResponseType::Code,
        _ => ResponseType::Id,
    }
}

/// Issues a fresh authorization code for an authenticated request: stores a
/// record binding the code to the request's client, redirect target, identity
/// and scope, and echoes the caller's `state`.
///
/// The caller must have established a session first; an unauthenticated
/// request is redirected to the login flow instead of reaching this function.
pub fn issue(
    cache: &mut LruCache<String, CodeItem>,
    session_identity: &Option<String>,
    auth: &Auth,
) -> (r: Result<IssuedCode, AuthError>)
    requires
        session_identity matches Some(_),
        cache_capacity(*old(cache)) >= 1,
    ensures
        cache_capacity(*final(cache)) == cache_capacity(*old(cache)),
        r matches Ok(ic) && ic.state@ == auth.state@ && ic.code@.len() == 36
            && cache_contents(*final(cache)).contains_key(ic.code@) && cache_contents(
            *final(cache),
        )[ic.code@].client_id@ == auth.client_id@ && cache_contents(*final(cache))[ic.code@].redirect_uri@
            == auth.redirect_uri@ && cache_contents(*final(cache))[ic.code@].me@ == auth.me@
            && cache_contents(*final(cache))[ic.code@].scope == auth.scope,
        forall|k: Seq<char>|
            (r matches Ok(ic) && k != ic.code@ && #[trigger] cache_contents(
                *final(cache),
            ).contains_key(k)) ==> cache_contents(*old(cache)).contains_key(k) && cache_contents(
                *final(cache),
            )[k] == cache_contents(*old(cache))[k],
{
    let code = new_code();
    let item = CodeItem {
        client_id: auth.client_id.clone(),
        me: auth.me.clone(),
        redirect_uri: auth.redirect_uri.clone(),
        scope: match &auth.scope {
            Some(s) => Some(s.clone()),
            None => None,
        },
    };
    put(cache, code.clone(), item);
    Ok(IssuedCode { code, state: auth.state.clone() })
}

/// The redirect that answers an approved authorization request: the client's
/// `redirect_uri` with the echoed `state` and the fresh `code` appended as a
/// query string.
pub fn authorize_redirect_uri(redirect_uri: &str, state: &str, code: &str) -> (r: String)
    ensures
        r@ == redirect_uri@ + seq!['?'] + form_encoded_of(
            seq![("state"@, state@), ("code"@, code@)],
        ),
{
    let mut pairs: Vec<(String, String)> = Vec::new();
    pairs.push(("state".to_owned(), state.to_owned()));
    pairs.push(("code".to_owned(), code.to_owned()));
    let encoded = form_encode_pairs(&pairs);
    proof {
        reveal_strlit("?");
        assert(pair_views(pairs@) =~= seq![("state"@, state@), ("code"@, code@)]);
        assert("?"@ =~= seq!['?']);
    }
    let mut out = redirect_uri.to_owned();
    out.append("?");
    out.append(encoded.as_str());
    out
}

/// The redirect that sends an unauthenticated request to the login endpoint,
/// carrying the original request URI in the `redirect` parameter.
pub fn login_redirect_uri(request_uri: &str) -> (r: String)
    ensures
        r@ == "/login?"@ + form_encoded_of(seq![("redirect"@, request_uri@)]),
{
    let mut pairs: Vec<(String, String)> = Vec::new();
    pairs.push(("redirect".to_owned(), request_uri.to_owned()));
    let encoded = form_encode_pairs(&pairs);
    proof {
        assert(pair_views(pairs@) =~= seq![("redirect"@, request_uri@)]);
    }
    let mut out = "/login?".to_owned();
    out.append(encoded.as_str());
    out
}

/// No `' '` occurs in `s`.
pub open spec fn space_free(s: Seq<char>) -> bool {
    forall|i: int| 0 <= i < s.len() ==> s[i] != ' '
}

/// The parts joined back with single spaces.
pub open spec fn space_joined(parts: Seq<Seq<char>>) -> Seq<char>
    decreases parts.len(),
{
    if parts.len() == 0 {
        Seq::<char>::empty()
    } else if parts.len() == 1 {
        parts[0]
    } else {
        parts[0] + seq![' '] + space_joined(parts.skip(1))
    }
}

proof fn lemma_space_joined_push_split(ps: Seq<Seq<char>>, a: Seq<char>, b: Seq<char>)
    ensures
        space_joined(ps.push(a + seq![' '] + b)) == space_joined(ps.push(a).push(b)),
    decreases ps.len(),
{
    if ps.len() == 0 {
        assert(ps.push(a).push(b).skip(1) =~= seq![b]);
        assert(ps.push(a).push(b)[0] == a);
        assert(space_joined(seq![b]) == b);
        assert(space_joined(ps.push(a).push(b)) == a + seq![' '] + b);
        assert(ps.push(a + seq![' '] + b) =~= seq![a + seq![' '] + b]);
        assert(space_joined(seq![a + seq![' '] + b]) == a + seq![' '] + b);
    } else {
        let tail = ps.skip(1);
        lemma_space_joined_push_split(tail, a, b);
        assert(ps.push(a + seq![' '] + b).skip(1) =~= tail.push(a + seq![' '] + b));
        assert(ps.push(a).push(b).skip(1) =~= tail.push(a).push(b));
        assert(ps.push(a + seq![' '] + b)[0] == ps[0]);
        assert(ps.push(a).push(b)[0] == ps[0]);
    }
}

/// The views of the parts.
pub open spec fn part_views(parts: Seq<String>) -> Seq<Seq<char>> {
    parts.map_values(|p: String| p@)
}

/// Splits a space-delimited scope value into its capability identifiers, as
/// the consent page lists them: cutting at every single space, so that the
/// parts contain no spaces and joining them back with single spaces restores
/// the input exactly.
pub fn scope_list(scope: &str) -> (r: Vec<String>)
    ensures
        r@.len() >= 1,
        space_joined(part_views(r@)) == scope@,
        forall|i: int| 0 <= i < r@.len() ==> space_free(#[trigger] part_views(r@)[i]),
{
    let n = scope.unicode_len();
    let mut parts: Vec<String> = Vec::new();
    let mut start: usize = 0;
    let mut i: usize = 0;
    while i < n
        invariant
            start <= i <= n == scope@.len(),
            forall|j: int| start <= j < i ==> scope@[j] != ' ',
            forall|k: int| 0 <= k < parts@.len() ==> space_free(#[trigger] part_views(parts@)[k]),
            space_joined(part_views(parts@).push(scope@.subrange(start as int, n as int)))
                == scope@,
        decreases n - i,
    {
        if scope.get_char(i) == ' ' {
            let piece = scope.substring_char(start, i).to_owned();
            proof {
                let ps = part_views(parts@);
                let a = scope@.subrange(start as int, i as int);
                let b = scope@.subrange(i + 1, n as int);
                assert(scope@.subrange(start as int, n as int) =~= a + seq![' '] + b);
                lemma_space_joined_push_split(ps, a, b);
                assert(space_free(a));
                assert(part_views(parts@.push(piece)) =~= ps.push(a));
            }
            parts.push(piece);
            start = i + 1;
        }
        i = i + 1;
    }
    let last = scope.substring_char(start, n).to_owned();
    proof {
        assert(part_views(parts@.push(last)) =~= part_views(parts@).push(
            scope@.subrange(start as int, n as int),
        ));
        assert(space_free(scope@.subrange(start as int, n as int)));
    }
    parts.push(last);
    parts
}

} // verus!
