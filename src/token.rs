//! Signed, compact tokens that carry a claim's bytes from a search to the
//! feedback that refers to it.
//!
//! A token is `H.B.S`: `H` the URL-safe base64 of a fixed HS256 header, `B`
//! the URL-safe base64 of the payload, and `S` the HMAC-SHA256 signature of
//! `H.B` under a shared secret. Decoding accepts exactly the tokens that
//! encoding produces, so no server-side state is needed between the steps.
use vstd::prelude::*;
use vstd::utf8::encode_utf8;
use vstd::utf8::is_ascii_chars;
use base64::Engine;

verus! {

/// The unpadded URL-safe base64 text of a byte string.
pub uninterp spec fn b64url_of(b: Seq<u8>) -> Seq<char>;

/// The unpadded URL-safe base64 text of the HMAC-SHA256 digest of `message`
/// under `secret`.
pub uninterp spec fn hs256_of(secret: Seq<u8>, message: Seq<u8>) -> Seq<char>;

/// A character of the URL-safe base64 alphabet.
pub open spec fn is_b64url_char(c: char) -> bool {
    ('A' <= c <= 'Z') || ('a' <= c <= 'z') || ('0' <= c <= '9') || c == '-' || c == '_'
}

/// Text made of the URL-safe base64 alphabet only.
pub open spec fn is_b64url_text(s: Seq<char>) -> bool {
    forall|i: int| 0 <= i < s.len() ==> is_b64url_char(#[trigger] s[i])
}

/// Relies on base64's `URL_SAFE_NO_PAD` engine `encode`: URL-safe alphabet,
/// no padding.
#[verifier::external_body]
fn b64url_encode(b: &[u8]) -> (r: String)
    ensures
        r@ == b64url_of(b@),
        is_b64url_text(r@),
{
    base64::engine::general_purpose::URL_SAFE_NO_PAD.encode(b)
}

/// Relies on base64's `URL_SAFE_NO_PAD` engine `decode`, which accepts only
/// canonical text (no padding, no stray trailing bits): it returns the bytes
/// whose encoding is exactly `s`, and fails where there are none.
#[verifier::external_body]
fn b64url_decode(s: &str) -> (r: Option<Vec<u8>>)
    ensures
        forall|b: Seq<u8>| (b64url_of(b) == s@) <==> (r is Some && r->0@ == b),
{
    base64::engine::general_purpose::URL_SAFE_NO_PAD.decode(s).ok()
}

/// Relies on jsonwebtoken's `crypto::sign` with `Algorithm::HS256` and
/// `EncodingKey::from_secret`: the unpadded URL-safe base64 of the
/// HMAC-SHA256 digest. For HS256 it does not fail.
#[verifier::external_body]
fn hs256_sign(secret: &[u8], message: &[u8]) -> (r: String)
    ensures
        r@ == hs256_of(secret@, message@),
        is_b64url_text(r@),
{
    let key = jsonwebtoken::EncodingKey::from_secret(secret);
    match jsonwebtoken::crypto::sign(message, &key, jsonwebtoken::Algorithm::HS256) {
        Ok(s) => s,
        Err(_) => String::new(),
    }
}

/// Relies on jsonwebtoken's `crypto::verify` with `Algorithm::HS256` and
/// `DecodingKey::from_secret`: it signs `message` again and compares the
/// result with `signature`.
#[verifier::external_body]
fn hs256_verify(signature: &str, secret: &[u8], message: &[u8]) -> (r: bool)
    ensures
        r == (signature@ == hs256_of(secret@, message@)),
{
    let key = jsonwebtoken::DecodingKey::from_secret(secret);
    jsonwebtoken::crypto::verify(signature, message, &key, jsonwebtoken::Algorithm::HS256).unwrap_or(false)
}

/// The header of every token: an HS256-signed JWT.
pub const HEADER_JSON: &'static str = "{\"typ\":\"JWT\",\"alg\":\"HS256\"}";

/// The first segment of every token.
pub open spec fn header_segment() -> Seq<char> {
    b64url_of(encode_utf8(HEADER_JSON@))
}

/// The text that the signature covers: header and payload segments.
pub open spec fn signing_input(payload: Seq<u8>) -> Seq<char> {
    header_segment() + seq!['.'] + b64url_of(payload)
}

/// The signature segment of the token for `payload`.
pub open spec fn signature_of(secret: Seq<u8>, payload: Seq<u8>) -> Seq<char> {
    hs256_of(secret, encode_utf8(signing_input(payload)))
}

/// The token for `payload` under `secret`.
pub open spec fn token_of(secret: Seq<u8>, payload: Seq<u8>) -> Seq<char> {
    signing_input(payload) + seq!['.'] + signature_of(secret, payload)
}

/// The payload and signature segments are in the URL-safe alphabet, so
/// the two dots of the token are its only ones.
pub open spec fn framed(secret: Seq<u8>, payload: Seq<u8>) -> bool {
    is_b64url_text(b64url_of(payload)) && is_b64url_text(signature_of(secret, payload))
}

/// No dot in `s` between `from` (included) and `to` (excluded).
pub open spec fn no_dot(s: Seq<char>, from: int, to: int) -> bool {
    forall|k: int| from <= k < to ==> #[trigger] s[k] != '.'
}

/// Neither the payload segment nor the signature segment holds a dot.
pub open spec fn dotless(secret: Seq<u8>, payload: Seq<u8>) -> bool {
    no_dot(b64url_of(payload), 0, b64url_of(payload).len() as int)
        && no_dot(signature_of(secret, payload), 0, signature_of(secret, payload).len() as int)
}

/// Signs `payload` under `secret`.
pub fn encode_token(secret: &[u8], payload: &[u8]) -> (r: String)
    ensures
        r@ == token_of(secret@, payload@),
        framed(secret@, payload@),
        is_b64url_text(header_segment()),
{
    proof {
        reveal_strlit(".");
    }
    let mut t = b64url_encode(HEADER_JSON.as_bytes());
    t.append(".");
    let body = b64url_encode(payload);
    t.append(body.as_str());
    assert(t@ == signing_input(payload@));
    let sig = hs256_sign(secret, t.as_str().as_bytes());
    t.append(".");
    t.append(sig.as_str());
    t
}

/// The first dot of `s` at or after `from`, or `s`'s length if none.
fn find_dot(s: &str, from: usize, len: usize) -> (r: usize)
    requires
        s.is_ascii(),
        len == s@.len(),
        from <= len,
    ensures
        from <= r <= len,
        r < len ==> s@[r as int] == '.',
        no_dot(s@, from as int, r as int),
{
    let mut i: usize = from;
    while i < len
        invariant
            from <= i <= len,
            len == s@.len(),
            s.is_ascii(),
            no_dot(s@, from as int, i as int),
        decreases len - i,
    {
        let b = s.get_ascii(i);
        assert('\0' <= s@[i as int] <= '\u{7f}');
        if b == 46u8 {
            assert(s@[i as int] == '.');
            return i;
        }
        assert(s@[i as int] != '.');
        i = i + 1;
    }
    i
}

proof fn b64url_text_is_ascii_without_dot(s: Seq<char>)
    requires
        is_b64url_text(s),
    ensures
        is_ascii_chars(s),
        no_dot(s, 0, s.len() as int),
{
    assert forall|i: int| 0 <= i < s.len() implies '\0' <= #[trigger] s[i] <= '\u{7f}' by {
        assert(is_b64url_char(s[i]));
    }
    assert forall|i: int| 0 <= i < s.len() implies #[trigger] s[i] != '.' by {
        assert(is_b64url_char(s[i]));
    }
}

/// Where the segments of a well-framed token lie.
proof fn token_layout(secret: Seq<u8>, p: Seq<u8>)
    requires
        is_b64url_text(header_segment()),
        framed(secret, p),
    ensures
        ({
            let t = token_of(secret, p);
            let d1 = header_segment().len() as int;
            let d2 = d1 + 1 + b64url_of(p).len();
            &&& is_ascii_chars(t)
            &&& d2 < t.len()
            &&& t[d1] == '.'
            &&& t[d2] == '.'
            &&& no_dot(t, 0, d1)
            &&& no_dot(t, d1 + 1, d2)
            &&& no_dot(t, d2 + 1, t.len() as int)
            &&& t.subrange(0, d1) == header_segment()
            &&& t.subrange(d1 + 1, d2) == b64url_of(p)
            &&& t.subrange(0, d2) == signing_input(p)
            &&& t.subrange(d2 + 1, t.len() as int) == signature_of(secret, p)
        }),
{
    let h = header_segment();
    let b = b64url_of(p);
    let g = signature_of(secret, p);
    let t = token_of(secret, p);
    let d1 = h.len() as int;
    let d2 = d1 + 1 + b.len();
    b64url_text_is_ascii_without_dot(h);
    b64url_text_is_ascii_without_dot(b);
    b64url_text_is_ascii_without_dot(g);
    assert(t =~= h + seq!['.'] + b + seq!['.'] + g);
    assert(t.subrange(0, d1) =~= h);
    assert(t.subrange(d1 + 1, d2) =~= b);
    assert(t.subrange(0, d2) =~= signing_input(p));
    assert(t.subrange(d2 + 1, t.len() as int) =~= g);
    assert forall|k: int| 0 <= k < t.len() implies '\0' <= #[trigger] t[k] <= '\u{7f}' by {
        if k < d1 {
            assert(t[k] == h[k]);
        } else if k == d1 {
        } else if k < d2 {
            assert(t[k] == b[k - d1 - 1]);
        } else if k == d2 {
        } else {
            assert(t[k] == g[k - d2 - 1]);
        }
    }
    assert forall|k: int| 0 <= k < d1 implies #[trigger] t[k] != '.' by {
        assert(t[k] == h[k]);
    }
    assert forall|k: int| d1 + 1 <= k < d2 implies #[trigger] t[k] != '.' by {
        assert(t[k] == b[k - d1 - 1]);
    }
    assert forall|k: int| d2 + 1 <= k < t.len() implies #[trigger] t[k] != '.' by {
        assert(t[k] == g[k - d2 - 1]);
    }
}

/// Checks `token` against `secret` and returns its payload.
///
/// It returns the payload exactly when the token is the one that
/// [`encode_token`] makes of it; any other text (a bad signature, a foreign
/// header, a malformed token) yields `None`, with no reason given.
pub fn decode_token(secret: &[u8], token: &str) -> (r: Option<Vec<u8>>)
    ensures
        r is Some ==> token@ == token_of(secret@, r->0@) && dotless(secret@, r->0@),
        forall|p: Seq<u8>|
            #[trigger] token_of(secret@, p) == token@ && framed(secret@, p) ==> r is Some && r->0@ == p,
{
    let header = b64url_encode(HEADER_JSON.as_bytes());
    assert(header@ == header_segment());
    if !token.is_ascii() {
        assert forall|p: Seq<u8>| !(token@ == token_of(secret@, p) && framed(secret@, p)) by {
            if token@ == token_of(secret@, p) && framed(secret@, p) {
                token_layout(secret@, p);
            }
        }
        return None;
    }
    let len = token.unicode_len();
    let d1 = find_dot(token, 0, len);
    let d2 = if d1 < len { find_dot(token, d1 + 1, len) } else { len };
    let d3 = if d2 < len { find_dot(token, d2 + 1, len) } else { len };
    assert forall|p: Seq<u8>| token@ == token_of(secret@, p) && framed(secret@, p) implies
        d1 == header_segment().len() && d2 == header_segment().len() + 1 + b64url_of(p).len() && d3 == len by {
        token_layout(secret@, p);
    }
    if d1 >= len || d2 >= len || d3 < len {
        return None;
    }
    let h = token.substring_ascii(0, d1).to_owned();
    assert forall|p: Seq<u8>| token@ == token_of(secret@, p) && framed(secret@, p) implies h@ == header@ by {
        token_layout(secret@, p);
    }
    if !(h == header) {
        return None;
    }
    let body = token.substring_ascii(d1 + 1, d2);
    let sig = token.substring_ascii(d2 + 1, len);
    let signed = token.substring_ascii(0, d2);
    assert(signed@ =~= h@ + seq!['.'] + body@);
    assert forall|p: Seq<u8>| token@ == token_of(secret@, p) && framed(secret@, p) implies
        body@ == b64url_of(p) && sig@ == signature_of(secret@, p) by {
        token_layout(secret@, p);
    }
    if !hs256_verify(sig, secret, signed.as_bytes()) {
        return None;
    }
    let r = b64url_decode(body);
    assert(token@ =~= signed@ + seq!['.'] + sig@);
    assert forall|k: int| 0 <= k < body@.len() implies #[trigger] body@[k] != '.' by {
        assert(body@[k] == token@[d1 + 1 + k]);
    }
    assert forall|k: int| 0 <= k < sig@.len() implies #[trigger] sig@[k] != '.' by {
        assert(sig@[k] == token@[d2 + 1 + k]);
    }
    r
}

/// Where the dots of a token lie when its segments hold none.
proof fn dot_layout(secret: Seq<u8>, q: Seq<u8>)
    requires
        no_dot(header_segment(), 0, header_segment().len() as int),
        dotless(secret, q),
    ensures
        ({
            let t = token_of(secret, q);
            let d1 = header_segment().len() as int;
            let d2 = d1 + 1 + b64url_of(q).len();
            &&& d2 < t.len()
            &&& t[d1] == '.'
            &&& t[d2] == '.'
            &&& no_dot(t, 0, d1)
            &&& no_dot(t, d1 + 1, d2)
            &&& no_dot(t, d2 + 1, t.len() as int)
            &&& t.subrange(0, d2) == signing_input(q)
        }),
{
    let h = header_segment();
    let b = b64url_of(q);
    let g = signature_of(secret, q);
    let t = token_of(secret, q);
    let d1 = h.len() as int;
    let d2 = d1 + 1 + b.len();
    assert(t =~= h + seq!['.'] + b + seq!['.'] + g);
    assert(t.subrange(0, d2) =~= signing_input(q));
    assert forall|k: int| 0 <= k < d1 implies #[trigger] t[k] != '.' by {
        assert(t[k] == h[k]);
    }
    assert forall|k: int| d1 + 1 <= k < d2 implies #[trigger] t[k] != '.' by {
        assert(t[k] == b[k - d1 - 1]);
    }
    assert forall|k: int| d2 + 1 <= k < t.len() implies #[trigger] t[k] != '.' by {
        assert(t[k] == g[k - d2 - 1]);
    }
}

/// Changing any character of a token's signature segment yields a text that
/// is the token of no payload, so [`decode_token`] refuses it.
pub proof fn altered_signature_is_refused(secret: Seq<u8>, p: Seq<u8>, i: int, c: char)
    requires
        is_b64url_text(header_segment()),
        framed(secret, p),
        signing_input(p).len() < i < token_of(secret, p).len(),
        c != token_of(secret, p)[i],
    ensures
        forall|q: Seq<u8>|
            dotless(secret, q) ==> token_of(secret, p).update(i, c) != #[trigger] token_of(secret, q),
{
    let t = token_of(secret, p);
    let t2 = t.update(i, c);
    let d1 = header_segment().len() as int;
    let d2 = d1 + 1 + b64url_of(p).len();
    b64url_text_is_ascii_without_dot(header_segment());
    b64url_text_is_ascii_without_dot(b64url_of(p));
    b64url_text_is_ascii_without_dot(signature_of(secret, p));
    dot_layout(secret, p);
    assert forall|q: Seq<u8>| dotless(secret, q) implies t2 != #[trigger] token_of(secret, q) by {
        if t2 == token_of(secret, q) {
            dot_layout(secret, q);
            let e2 = d1 + 1 + b64url_of(q).len();
            if e2 < d2 {
                assert(t2[e2] == t[e2]);
            } else if e2 > d2 {
                assert(t2[d2] == t[d2]);
            }
            assert(e2 == d2);
            assert(t2.subrange(0, d2) =~= t.subrange(0, d2));
            assert(signing_input(q) == signing_input(p));
            assert(token_of(secret, q) == t);
            assert(t2[i] == c);
        }
    }
}

} // verus!
