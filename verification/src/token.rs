//! The token codec: minting and verifying the two classes of signed tokens.
//!
//! A token is `base64url(header) "." base64url(payload) "." signature`, with
//! the fixed HS256 header, a payload from [`crate::payload`], and the
//! signature the HMAC-SHA-256 tag of the first two segments under the signing
//! secret, itself base64url-encoded by the signing library. Session tokens
//! and pre-auth tokens differ in their payload shape and are signed under two
//! distinct secrets.
//!
//! Verification recomputes the tag in verified code and compares; expiry is
//! enforced strictly against the caller's clock: a token is alive only while
//! `exp` lies strictly in the future.

use vstd::prelude::*;
use vstd::slice::slice_subrange;
use vstd::utf8::{encode_utf8, valid_utf8, encode_utf8_valid_utf8, pop_first_scalar};

use crate::b64::{b64_encode, b64_decode, base64url_encode, base64url_decode, is_b64_byte,
    lemma_b64_encode_alphabet, lemma_b64_round_trip};
use crate::payload::{session_payload, preauth_payload, parse_session, parse_preauth,
    parse_session_payload, parse_preauth_payload, render_session_payload,
    render_preauth_payload, lemma_parse_session_round_trip, lemma_parse_preauth_round_trip,
    max_field_value};

verus! {

/// The claims carried by a session token: the subject is the user id in its
/// canonical string form.
#[derive(Debug, Clone, PartialEq)]
pub struct TokenClaims {
    pub sub: String,
    pub iat: i64,
    pub exp: i64,
}

/// The claims carried by a pre-auth token: the subject is the email the
/// login was initiated for, and `hash` the salted hash of the one-time code.
#[derive(Debug, Clone, PartialEq)]
pub struct LoginToken {
    pub sub: String,
    pub iat: i64,
    pub exp: i64,
    pub hash: String,
}

/// The fixed token header object, `{"typ":"JWT","alg":"HS256"}`.
pub open spec fn header_bytes() -> Seq<u8> {
    seq![
        123u8, 34u8, 116u8, 121u8, 112u8, 34u8, 58u8, 34u8, 74u8, 87u8, 84u8, 34u8, 44u8, 34u8,
        97u8, 108u8, 103u8, 34u8, 58u8, 34u8, 72u8, 83u8, 50u8, 53u8, 54u8, 34u8, 125u8,
    ]
}

/// The header as a runtime value.
fn header_vec() -> (v: Vec<u8>)
    ensures
        v@ == header_bytes(),
{
    let mut v: Vec<u8> = Vec::new();
    v.push(123);
    v.push(34);
    v.push(116);
    v.push(121);
    v.push(112);
    v.push(34);
    v.push(58);
    v.push(34);
    v.push(74);
    v.push(87);
    v.push(84);
    v.push(34);
    v.push(44);
    v.push(34);
    v.push(97);
    v.push(108);
    v.push(103);
    v.push(34);
    v.push(58);
    v.push(34);
    v.push(72);
    v.push(83);
    v.push(50);
    v.push(53);
    v.push(54);
    v.push(34);
    v.push(125);
    proof {
        assert(v@ =~= header_bytes());
    }
    v
}

/// The base64url-encoded HMAC-SHA-256 tag of `msg` under `key`, as the
/// signing library renders it. A function of its arguments alone.
pub uninterp spec fn hs256_tag(key: Seq<u8>, msg: Seq<u8>) -> Seq<u8>;

/// Relies on `jsonwebtoken::crypto::sign` with `Algorithm::HS256` over a key
/// from `EncodingKey::from_secret`: the returned signature string depends on
/// the key and message alone (signing is an HMAC plus a fixed encoding, and
/// cannot fail for HMAC algorithms); its bytes are what [`hs256_tag`] names.
#[verifier::external_body]
fn sign_hs256(key: &[u8], msg: &[u8]) -> (r: String)
    ensures
        encode_utf8(r@) == hs256_tag(key@, msg@),
{
    let encoding_key = jsonwebtoken::EncodingKey::from_secret(key);
    match jsonwebtoken::crypto::sign(msg, &encoding_key, jsonwebtoken::Algorithm::HS256) {
        Ok(sig) => sig,
        Err(_) => String::new(),
    }
}

/// Relies on String::from_utf8: it succeeds exactly on well-formed UTF-8 and
/// returns a string whose bytes are the input.
#[verifier::external_body]
pub(crate) fn string_from_utf8(v: Vec<u8>) -> (r: Option<String>)
    ensures
        r is Some <==> valid_utf8(v@),
        r is Some ==> encode_utf8(r->Some_0@) == v@,
{
    match String::from_utf8(v) {
        Ok(s) => Some(s),
        Err(_) => None,
    }
}

/// A sequence of ASCII bytes is valid UTF-8.
pub proof fn lemma_ascii_valid_utf8(bytes: Seq<u8>)
    requires
        forall|i: int| 0 <= i < bytes.len() ==> bytes[i] < 128,
    ensures
        valid_utf8(bytes),
    decreases bytes.len(),
{
    if bytes.len() > 0 {
        let b0 = bytes[0];
        assert(b0 < 128);
        assert((b0 & 0x7f) == b0) by (bit_vector)
            requires
                b0 < 128,
        ;
        assert(pop_first_scalar(bytes) =~= bytes.skip(1));
        lemma_ascii_valid_utf8(bytes.skip(1));
    }
}

/// The two signed segments: encoded header, dot, encoded payload.
pub open spec fn signing_input(payload: Seq<u8>) -> Seq<u8> {
    b64_encode(header_bytes()) + seq![46u8] + b64_encode(payload)
}

/// A complete token over `payload`, signed under `key`.
pub open spec fn token_bytes(payload: Seq<u8>, key: Seq<u8>) -> Seq<u8> {
    signing_input(payload) + seq![46u8] + hs256_tag(key, signing_input(payload))
}

/// The session token for subject bytes `sub` and the two timestamps, signed
/// under `key`.
pub open spec fn session_token_bytes(sub: Seq<u8>, iat: int, exp: int, key: Seq<u8>) -> Seq<u8> {
    token_bytes(session_payload(sub, iat, exp), key)
}

/// The pre-auth token for subject bytes `sub`, the two timestamps and the
/// code-hash bytes, signed under `key`.
pub open spec fn preauth_token_bytes(
    sub: Seq<u8>,
    iat: int,
    exp: int,
    hash: Seq<u8>,
    key: Seq<u8>,
) -> Seq<u8> {
    token_bytes(preauth_payload(sub, iat, exp, hash), key)
}

/// The session token as a function of the string-typed inputs.
pub open spec fn session_token_of(sub: Seq<char>, iat: int, exp: int, key: Seq<char>) -> Seq<u8> {
    session_token_bytes(encode_utf8(sub), iat, exp, encode_utf8(key))
}

/// The pre-auth token as a function of the string-typed inputs.
pub open spec fn preauth_token_of(
    sub: Seq<char>,
    iat: int,
    exp: int,
    hash: Seq<char>,
    key: Seq<char>,
) -> Seq<u8> {
    preauth_token_bytes(encode_utf8(sub), iat, exp, encode_utf8(hash), encode_utf8(key))
}

/// Assemble `payload` into a signed token under `key`.
fn assemble_token(payload: Vec<u8>, key: &[u8]) -> (r: String)
    ensures
        encode_utf8(r@) == token_bytes(payload@, key@),
{
    let header = header_vec();
    let hb = base64url_encode(header.as_slice());
    let pb = base64url_encode(payload.as_slice());
    let mut si: Vec<u8> = Vec::new();
    si.extend_from_slice(hb.as_slice());
    si.push(46);
    si.extend_from_slice(pb.as_slice());
    proof {
        assert(si@ =~= signing_input(payload@));
    }
    let sig = sign_hs256(key, si.as_slice());
    let sig_bytes = sig.as_str().as_bytes();
    let mut t: Vec<u8> = si;
    t.push(46);
    t.extend_from_slice(sig_bytes);
    proof {
        assert(t@ =~= token_bytes(payload@, key@));
        lemma_b64_encode_alphabet(header_bytes());
        lemma_b64_encode_alphabet(payload@);
        assert forall|i: int| 0 <= i < signing_input(payload@).len() + 1 implies #[trigger] t@[i]
            < 128 by {
            let sil = signing_input(payload@).len() as int;
            if i < b64_encode(header_bytes()).len() {
                assert(is_b64_byte(b64_encode(header_bytes())[i]));
            } else if i == b64_encode(header_bytes()).len() {
                assert(t@[i] == 46);
            } else if i < sil {
                assert(t@[i] == b64_encode(payload@)[i - b64_encode(header_bytes()).len() - 1]);
                assert(is_b64_byte(b64_encode(payload@)[i - b64_encode(header_bytes()).len() - 1]));
            } else {
                assert(t@[i] == 46);
            }
        }
        assert(t@.skip(signing_input(payload@).len() as int + 1) =~= encode_utf8(sig@));
        lemma_ascii_prefix_plus_string_valid(t@, signing_input(payload@).len() as int + 1, sig@);
    }
    match string_from_utf8(t) {
        Some(s) => s,
        None => {
            proof {
                assert(false);
            }
            String::new()
        },
    }
}

/// A byte sequence that is an ASCII prefix followed by the UTF-8 encoding of
/// a string is valid UTF-8.
proof fn lemma_ascii_prefix_plus_string_valid(t: Seq<u8>, n: int, tail: Seq<char>)
    requires
        0 <= n <= t.len(),
        forall|i: int| 0 <= i < n ==> t[i] < 128,
        t.skip(n) == encode_utf8(tail),
    ensures
        valid_utf8(t),
{
    lemma_ascii_valid_utf8(t.take(n));
    encode_utf8_valid_utf8(tail);
    assert(t =~= t.take(n) + t.skip(n));
    vstd::utf8::valid_utf8_concat(t.take(n), t.skip(n));
}

/// Mint a session token: subject, issue and expiry instants, signed under
/// the session secret.
pub fn mint_session_token(sub: &str, iat: i64, exp: i64, key: &str) -> (r: String)
    requires
        0 <= iat,
        0 <= exp,
    ensures
        encode_utf8(r@) == session_token_of(sub@, iat as int, exp as int, key@),
{
    let payload = render_session_payload(sub.as_bytes(), iat, exp);
    assemble_token(payload, key.as_bytes())
}

/// Mint a pre-auth token: subject email, issue and expiry instants, and the
/// one-time code hash, signed under the pre-auth secret.
pub fn mint_preauth_token(sub: &str, iat: i64, exp: i64, hash: &str, key: &str) -> (r: String)
    requires
        0 <= iat,
        0 <= exp,
    ensures
        encode_utf8(r@) == preauth_token_of(sub@, iat as int, exp as int, hash@, key@),
{
    let payload = render_preauth_payload(sub.as_bytes(), iat, exp, hash.as_bytes());
    assemble_token(payload, key.as_bytes())
}

/// The first `.` at or after `from`, if any.
pub open spec fn find_dot(t: Seq<u8>, from: int) -> Option<int>
    recommends
        0 <= from <= t.len(),
    decreases t.len() - from,
{
    if from < 0 || from >= t.len() {
        Option::None
    } else if t[from] == 46 {
        Option::Some(from)
    } else {
        find_dot(t, from + 1)
    }
}

/// Split a token into its three segments at the first two dots; the third
/// segment keeps any further bytes uninspected.
pub open spec fn split_token(t: Seq<u8>) -> Option<(Seq<u8>, Seq<u8>, Seq<u8>)> {
    match find_dot(t, 0) {
        Option::None => Option::None,
        Option::Some(i) => match find_dot(t, i + 1) {
            Option::None => Option::None,
            Option::Some(j) => Option::Some(
                (t.subrange(0, i), t.subrange(i + 1, j), t.skip(j + 1)),
            ),
        },
    }
}

/// What session-token verification yields on raw bytes: the claims exactly
/// when the token splits into our header, a payload whose object parses, and
/// a signature that equals the tag under `key`; the subject must be
/// well-formed UTF-8 and the expiry strictly in the future.
pub open spec fn decode_session_bytes(t: Seq<u8>, key: Seq<u8>, now: int) -> Option<
    (Seq<u8>, int, int),
> {
    match split_token(t) {
        Option::None => Option::None,
        Option::Some(hps) => if hps.0 == b64_encode(header_bytes()) && hps.2 == hs256_tag(
            key,
            hps.0 + seq![46u8] + hps.1,
        ) {
            match b64_decode(hps.1) {
                Option::None => Option::None,
                Option::Some(pl) => match parse_session(pl) {
                    Option::None => Option::None,
                    Option::Some(c) => if c.1 >= 0 && c.2 > now && valid_utf8(c.0) {
                        Option::Some(c)
                    } else {
                        Option::None
                    },
                },
            }
        } else {
            Option::None
        },
    }
}

/// What pre-auth-token verification yields on raw bytes; as the session
/// form, with the code hash also required to be well-formed UTF-8.
pub open spec fn decode_preauth_bytes(t: Seq<u8>, key: Seq<u8>, now: int) -> Option<
    (Seq<u8>, int, int, Seq<u8>),
> {
    match split_token(t) {
        Option::None => Option::None,
        Option::Some(hps) => if hps.0 == b64_encode(header_bytes()) && hps.2 == hs256_tag(
            key,
            hps.0 + seq![46u8] + hps.1,
        ) {
            match b64_decode(hps.1) {
                Option::None => Option::None,
                Option::Some(pl) => match parse_preauth(pl) {
                    Option::None => Option::None,
                    Option::Some(c) => if c.1 >= 0 && c.2 > now && valid_utf8(c.0) && valid_utf8(
                        c.3,
                    ) {
                        Option::Some(c)
                    } else {
                        Option::None
                    },
                },
            }
        } else {
            Option::None
        },
    }
}

/// `find_dot` lands on `pos` when nothing before it is a dot.
proof fn lemma_find_dot_lands(t: Seq<u8>, from: int, pos: int)
    requires
        0 <= from <= pos < t.len(),
        t[pos] == 46,
        forall|k: int| from <= k < pos ==> t[k] != 46,
    ensures
        find_dot(t, from) == Option::Some(pos),
    decreases pos - from,
{
    if from < pos {
        lemma_find_dot_lands(t, from + 1, pos);
    }
}

/// A minted token splits back into its three segments.
proof fn lemma_split_minted(payload: Seq<u8>, key: Seq<u8>)
    ensures
        split_token(token_bytes(payload, key)) == Option::Some(
            (
                b64_encode(header_bytes()),
                b64_encode(payload),
                hs256_tag(key, signing_input(payload)),
            ),
        ),
{
    let hb = b64_encode(header_bytes());
    let pb = b64_encode(payload);
    let tag = hs256_tag(key, signing_input(payload));
    let t = token_bytes(payload, key);
    let hl = hb.len() as int;
    let pl = pb.len() as int;
    lemma_b64_encode_alphabet(header_bytes());
    lemma_b64_encode_alphabet(payload);
    assert(t.len() == hl + 1 + pl + 1 + tag.len());
    assert forall|k: int| 0 <= k < hl implies t[k] != 46 by {
        assert(t[k] == hb[k]);
        assert(is_b64_byte(hb[k]));
    }
    assert(t[hl] == 46);
    lemma_find_dot_lands(t, 0, hl);
    assert forall|k: int| hl + 1 <= k < hl + 1 + pl implies t[k] != 46 by {
        assert(t[k] == pb[k - hl - 1]);
        assert(is_b64_byte(pb[k - hl - 1]));
    }
    assert(t[hl + 1 + pl] == 46);
    lemma_find_dot_lands(t, hl + 1, hl + 1 + pl);
    assert(t.subrange(0, hl) =~= hb);
    assert(t.subrange(hl + 1, hl + 1 + pl) =~= pb);
    assert(t.skip(hl + 1 + pl + 1) =~= tag);
}

/// Law: a session token minted for `(sub, iat, exp)` under `key` verifies
/// under the same key exactly while `exp` lies strictly in the future, and
/// then yields exactly the claims it was minted with.
pub proof fn lemma_session_token_round_trip(
    sub: Seq<u8>,
    iat: int,
    exp: int,
    key: Seq<u8>,
    now: int,
)
    requires
        0 <= iat <= max_field_value(),
        0 <= exp <= max_field_value(),
        valid_utf8(sub),
    ensures
        decode_session_bytes(session_token_bytes(sub, iat, exp, key), key, now) == if exp > now {
            Option::Some((sub, iat, exp))
        } else {
            Option::None::<(Seq<u8>, int, int)>
        },
{
    let payload = session_payload(sub, iat, exp);
    lemma_split_minted(payload, key);
    let hb = b64_encode(header_bytes());
    let pb = b64_encode(payload);
    assert(hb + seq![46u8] + pb =~= signing_input(payload));
    lemma_b64_round_trip(payload);
    lemma_parse_session_round_trip(sub, iat, exp);
}

/// Law: a pre-auth token minted for `(sub, iat, exp, hash)` under `key`
/// verifies under the same key exactly while `exp` lies strictly in the
/// future, and then yields exactly the claims it was minted with.
pub proof fn lemma_preauth_token_round_trip(
    sub: Seq<u8>,
    iat: int,
    exp: int,
    hash: Seq<u8>,
    key: Seq<u8>,
    now: int,
)
    requires
        0 <= iat <= max_field_value(),
        0 <= exp <= max_field_value(),
        valid_utf8(sub),
        valid_utf8(hash),
    ensures
        decode_preauth_bytes(preauth_token_bytes(sub, iat, exp, hash, key), key, now) == if exp
            > now {
            Option::Some((sub, iat, exp, hash))
        } else {
            Option::None::<(Seq<u8>, int, int, Seq<u8>)>
        },
{
    let payload = preauth_payload(sub, iat, exp, hash);
    lemma_split_minted(payload, key);
    let hb = b64_encode(header_bytes());
    let pb = b64_encode(payload);
    assert(hb + seq![46u8] + pb =~= signing_input(payload));
    lemma_b64_round_trip(payload);
    lemma_parse_preauth_round_trip(sub, iat, exp, hash);
}

/// Law: a token whose signature was made under one key is rejected under
/// another, whenever the two keys tag the token's signing input differently
/// (HMAC key separation; a collision between distinct secrets is beyond
/// reach of the model).
pub proof fn lemma_cross_key_rejected(payload: Seq<u8>, key_signed: Seq<u8>, key_checked: Seq<u8>, now: int)
    requires
        hs256_tag(key_signed, signing_input(payload)) != hs256_tag(
            key_checked,
            signing_input(payload),
        ),
    ensures
        decode_session_bytes(token_bytes(payload, key_signed), key_checked, now) is None,
        decode_preauth_bytes(token_bytes(payload, key_signed), key_checked, now) is None,
{
    lemma_split_minted(payload, key_signed);
    let hb = b64_encode(header_bytes());
    let pb = b64_encode(payload);
    assert(hb + seq![46u8] + pb =~= signing_input(payload));
}

/// Law: the two claim shapes are disjoint. Even under the signing key
/// itself, a pre-auth token never verifies as a session token, and a session
/// token never verifies as a pre-auth token: the payload objects cannot be
/// confused.
pub proof fn lemma_shape_disjoint(
    sub: Seq<u8>,
    iat: int,
    exp: int,
    hash: Seq<u8>,
    key: Seq<u8>,
    now: int,
)
    requires
        0 <= iat <= max_field_value(),
        0 <= exp <= max_field_value(),
    ensures
        decode_session_bytes(preauth_token_bytes(sub, iat, exp, hash, key), key, now) is None,
        decode_preauth_bytes(session_token_bytes(sub, iat, exp, key), key, now) is None,
{
    let ppay = preauth_payload(sub, iat, exp, hash);
    let spay = session_payload(sub, iat, exp);
    lemma_split_minted(ppay, key);
    lemma_split_minted(spay, key);
    assert(b64_encode(header_bytes()) + seq![46u8] + b64_encode(ppay) =~= signing_input(ppay));
    assert(b64_encode(header_bytes()) + seq![46u8] + b64_encode(spay) =~= signing_input(spay));
    lemma_b64_round_trip(ppay);
    lemma_b64_round_trip(spay);
    lemma_parse_preauth_round_trip(sub, iat, exp, hash);
    lemma_parse_session_round_trip(sub, iat, exp);
    assert(parse_session(ppay) is None) by {
        lemma_parse_session_of_preauth_none(sub, iat, exp, hash);
    }
    assert(parse_preauth(spay) is None) by {
        lemma_parse_preauth_of_session_none(sub, iat, exp);
    }
}

/// A pre-auth payload never parses as a session payload: after the expiry
/// field it continues with the hash key instead of closing.
proof fn lemma_parse_session_of_preauth_none(sub: Seq<u8>, iat: int, exp: int, hash: Seq<u8>)
    requires
        0 <= iat <= max_field_value(),
        0 <= exp <= max_field_value(),
    ensures
        parse_session(preauth_payload(sub, iat, exp, hash)) is None,
{
    let p = preauth_payload(sub, iat, exp, hash);
    let tail_hash = crate::payload::esc_bytes(hash) + seq![34u8] + seq![125u8];
    let after_exp = crate::payload::lit_hash() + tail_hash;
    let after_iat = crate::payload::lit_exp() + crate::payload::dec_digits(exp) + after_exp;
    let after_sub = crate::payload::lit_iat() + crate::payload::dec_digits(iat) + after_iat;
    assert(p.subrange(0, 8) =~= crate::payload::lit_sub_open());
    assert(p.skip(8) =~= crate::payload::esc_bytes(sub) + seq![34u8] + after_sub);
    crate::payload::lemma_scan_string_round_trip(sub, after_sub);
    assert(after_sub.subrange(0, 7) =~= crate::payload::lit_iat());
    assert(after_sub.skip(7) =~= crate::payload::dec_digits(iat) + after_iat);
    crate::payload::lemma_scan_number_round_trip(iat, after_iat);
    assert(after_iat.subrange(0, 7) =~= crate::payload::lit_exp());
    assert(after_iat.skip(7) =~= crate::payload::dec_digits(exp) + after_exp);
    crate::payload::lemma_scan_number_round_trip(exp, after_exp);
    assert(after_exp[0] == 44);
    assert(after_exp != seq![125u8]);
}

/// A session payload never parses as a pre-auth payload: it closes right
/// after the expiry field, where the hash key is required.
proof fn lemma_parse_preauth_of_session_none(sub: Seq<u8>, iat: int, exp: int)
    requires
        0 <= iat <= max_field_value(),
        0 <= exp <= max_field_value(),
    ensures
        parse_preauth(session_payload(sub, iat, exp)) is None,
{
    let p = session_payload(sub, iat, exp);
    let after_iat = crate::payload::lit_exp() + crate::payload::dec_digits(exp) + seq![125u8];
    let after_sub = crate::payload::lit_iat() + crate::payload::dec_digits(iat) + after_iat;
    assert(p.subrange(0, 8) =~= crate::payload::lit_sub_open());
    assert(p.skip(8) =~= crate::payload::esc_bytes(sub) + seq![34u8] + after_sub);
    crate::payload::lemma_scan_string_round_trip(sub, after_sub);
    assert(after_sub.subrange(0, 7) =~= crate::payload::lit_iat());
    assert(after_sub.skip(7) =~= crate::payload::dec_digits(iat) + after_iat);
    crate::payload::lemma_scan_number_round_trip(iat, after_iat);
    assert(after_iat.subrange(0, 7) =~= crate::payload::lit_exp());
    assert(after_iat.skip(7) =~= crate::payload::dec_digits(exp) + seq![125u8]);
    crate::payload::lemma_scan_number_round_trip(exp, seq![125u8]);
    assert(seq![125u8].len() < 9);
}

/// Find the first `.` at or after `from`, executably.
fn find_dot_at(t: &[u8], from: usize) -> (r: Option<usize>)
    requires
        from <= t@.len(),
    ensures
        r is Some <==> find_dot(t@, from as int) is Some,
        r is Some ==> find_dot(t@, from as int) == Option::Some(r->Some_0 as int) && from
            <= r->Some_0 < t@.len() && t@[r->Some_0 as int] == 46,
{
    let mut k: usize = from;
    while k < t.len()
        invariant
            from <= k <= t@.len(),
            find_dot(t@, from as int) == find_dot(t@, k as int),
        decreases t@.len() - k,
    {
        if t[k] == 46 {
            return Some(k);
        }
        k = k + 1;
    }
    None
}

/// Compare two byte slices.
fn bytes_eq(a: &[u8], b: &[u8]) -> (r: bool)
    ensures
        r == (a@ == b@),
{
    if a.len() != b.len() {
        proof {
            assert(a@ != b@);
        }
        return false;
    }
    let mut k: usize = 0;
    while k < a.len()
        invariant
            k <= a@.len(),
            a@.len() == b@.len(),
            forall|j: int| 0 <= j < k ==> a@[j] == b@[j],
        decreases a@.len() - k,
    {
        if a[k] != b[k] {
            return false;
        }
        k = k + 1;
    }
    proof {
        assert(a@ =~= b@);
    }
    true
}

/// Verify a session token under `key` at instant `now`; exactly
/// [`decode_session_bytes`] of the token's bytes.
pub fn decode_session_token(token: &str, key: &str, now: i64) -> (r: Option<TokenClaims>)
    ensures
        r is Some <==> decode_session_bytes(
            encode_utf8(token@),
            encode_utf8(key@),
            now as int,
        ) is Some,
        r is Some ==> {
            let c = decode_session_bytes(encode_utf8(token@), encode_utf8(key@), now as int)->Some_0;
            &&& encode_utf8(r->Some_0.sub@) == c.0
            &&& r->Some_0.iat as int == c.1
            &&& r->Some_0.exp as int == c.2
        },
{
    let t = token.as_bytes();
    let tlen: usize = t.len();
    let kb = key.as_bytes();
    let i = match find_dot_at(t, 0) {
        Some(i) => i,
        None => {
            return None;
        },
    };
    let j = match find_dot_at(t, i + 1) {
        Some(j) => j,
        None => {
            return None;
        },
    };
    let header = header_vec();
    let hb = base64url_encode(header.as_slice());
    let h_part = slice_subrange(t, 0, i);
    if !bytes_eq(h_part, hb.as_slice()) {
        return None;
    }
    let p_part = slice_subrange(t, i + 1, j);
    let si = slice_subrange(t, 0, j);
    let sig = sign_hs256(kb, si);
    let s_part = slice_subrange(t, j + 1, t.len());
    if !bytes_eq(s_part, sig.as_str().as_bytes()) {
        proof {
            assert(si@ =~= t@.subrange(0, i as int) + seq![46u8] + t@.subrange(i as int + 1, j as int));
        }
        return None;
    }
    proof {
        assert(si@ =~= t@.subrange(0, i as int) + seq![46u8] + t@.subrange(i as int + 1, j as int));
    }
    let pl = match base64url_decode(p_part) {
        Some(pl) => pl,
        None => {
            return None;
        },
    };
    let (sub_bytes, iat, exp) = match parse_session_payload(pl.as_slice()) {
        Some(c) => c,
        None => {
            return None;
        },
    };
    if iat < 0 || exp <= now {
        return None;
    }
    let sub = match string_from_utf8(sub_bytes) {
        Some(s) => s,
        None => {
            return None;
        },
    };
    Some(TokenClaims { sub, iat, exp })
}

/// Verify a pre-auth token under `key` at instant `now`; exactly
/// [`decode_preauth_bytes`] of the token's bytes.
pub fn decode_preauth_token(token: &str, key: &str, now: i64) -> (r: Option<LoginToken>)
    ensures
        r is Some <==> decode_preauth_bytes(
            encode_utf8(token@),
            encode_utf8(key@),
            now as int,
        ) is Some,
        r is Some ==> {
            let c = decode_preauth_bytes(encode_utf8(token@), encode_utf8(key@), now as int)->Some_0;
            &&& encode_utf8(r->Some_0.sub@) == c.0
            &&& r->Some_0.iat as int == c.1
            &&& r->Some_0.exp as int == c.2
            &&& encode_utf8(r->Some_0.hash@) == c.3
        },
{
    let t = token.as_bytes();
    let tlen: usize = t.len();
    let kb = key.as_bytes();
    let i = match find_dot_at(t, 0) {
        Some(i) => i,
        None => {
            return None;
        },
    };
    let j = match find_dot_at(t, i + 1) {
        Some(j) => j,
        None => {
            return None;
        },
    };
    let header = header_vec();
    let hb = base64url_encode(header.as_slice());
    let h_part = slice_subrange(t, 0, i);
    if !bytes_eq(h_part, hb.as_slice()) {
        return None;
    }
    let p_part = slice_subrange(t, i + 1, j);
    let si = slice_subrange(t, 0, j);
    let sig = sign_hs256(kb, si);
    let s_part = slice_subrange(t, j + 1, t.len());
    if !bytes_eq(s_part, sig.as_str().as_bytes()) {
        proof {
            assert(si@ =~= t@.subrange(0, i as int) + seq![46u8] + t@.subrange(i as int + 1, j as int));
        }
        return None;
    }
    proof {
        assert(si@ =~= t@.subrange(0, i as int) + seq![46u8] + t@.subrange(i as int + 1, j as int));
    }
    let pl = match base64url_decode(p_part) {
        Some(pl) => pl,
        None => {
            return None;
        },
    };
    let (sub_bytes, iat, exp, hash_bytes) = match parse_preauth_payload(pl.as_slice()) {
        Some(c) => c,
        None => {
            return None;
        },
    };
    if iat < 0 || exp <= now {
        return None;
    }
    let sub = match string_from_utf8(sub_bytes) {
        Some(s) => s,
        None => {
            return None;
        },
    };
    let hash = match string_from_utf8(hash_bytes) {
        Some(s) => s,
        None => {
            return None;
        },
    };
    Some(LoginToken { sub, iat, exp, hash })
}

} // verus!
