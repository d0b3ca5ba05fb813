//! Salted, memory-hard hashing of secrets (login passwords and one-time
//! codes), and generation of the short one-time code itself.
//!
//! The hash of a secret carries its own salt and parameters, so whether a
//! candidate matches a stored hash is a function of the two strings alone;
//! [`hash_matches`] names that function. Hashing draws a fresh random salt,
//! so the hash string itself is never pinned — only that the hashed secret
//! verifies against it.

use vstd::prelude::*;

use crate::token::string_from_utf8;

verus! {

/// Whether candidate secret `candidate` matches the salted hash string
/// `hash` (both as UTF-8 bytes): the hash parses as a hash string and
/// re-hashing the candidate under its salt and parameters reproduces it. A
/// function of the two arguments alone; `false` whenever `hash` does not
/// parse.
pub uninterp spec fn hash_matches(candidate: Seq<u8>, hash: Seq<u8>) -> bool;

/// Relies on argon2's `PasswordHash::new` and
/// `PasswordVerifier::verify_password`, which re-hashes the candidate under
/// the algorithm, parameters and salt carried inside the hash string: the
/// outcome depends on the candidate and the hash string alone, and a hash
/// string that does not parse matches nothing.
#[verifier::external_body]
pub(crate) fn verify_secret(candidate: &str, hash: &str) -> (r: bool)
    ensures
        r == hash_matches(
            vstd::utf8::encode_utf8(candidate@),
            vstd::utf8::encode_utf8(hash@),
        ),
{
    match argon2::PasswordHash::new(hash) {
        Ok(parsed) => <argon2::Argon2 as argon2::PasswordVerifier>::verify_password(
            &argon2::Argon2::default(),
            candidate.as_bytes(),
            &parsed,
        ).is_ok(),
        Err(_) => false,
    }
}

/// Relies on argon2's `PasswordHasher::hash_password` with a
/// `SaltString::generate`d salt: the returned hash string embeds the salt and
/// parameters it was computed with, so verification recomputes exactly it and
/// the hashed secret matches. The salt is random, so nothing else is promised
/// of the hash string itself.
#[verifier::external_body]
pub(crate) fn hash_secret(secret: &str) -> (r: Option<String>)
    ensures
        r is Some ==> hash_matches(
            vstd::utf8::encode_utf8(secret@),
            vstd::utf8::encode_utf8(r->Some_0@),
        ),
{
    let salt = argon2::password_hash::SaltString::generate(&mut rand_core::OsRng);
    match <argon2::Argon2 as argon2::PasswordHasher>::hash_password(
        &argon2::Argon2::default(),
        secret.as_bytes(),
        &salt,
    ) {
        Ok(hash) => Some(hash.to_string()),
        Err(_) => None,
    }
}

/// Relies on rand_core's `OsRng::fill_bytes`: three bytes of
/// operating-system randomness. Nothing is promised of their values.
#[verifier::external_body]
fn random_bytes3() -> (r: Vec<u8>)
    ensures
        r@.len() == 3,
{
    let mut buffer = [0u8; 3];
    rand_core::RngCore::fill_bytes(&mut rand_core::OsRng, &mut buffer);
    buffer.to_vec()
}

/// One uppercase hexadecimal digit.
pub open spec fn hex_digit_of(v: int) -> u8
    recommends
        0 <= v < 16,
{
    if v < 10 {
        (48 + v) as u8
    } else {
        (55 + v) as u8
    }
}

/// The uppercase hexadecimal rendering of a byte string, two digits a byte.
pub open spec fn hex_upper(bytes: Seq<u8>) -> Seq<u8>
    decreases bytes.len(),
{
    if bytes.len() == 0 {
        Seq::<u8>::empty()
    } else {
        seq![hex_digit_of(bytes[0] as int / 16), hex_digit_of(bytes[0] as int % 16)] + hex_upper(
            bytes.skip(1),
        )
    }
}

/// Whether `s` has the shape of a one-time code: six uppercase hexadecimal
/// digits (stated over the string's UTF-8 bytes).
pub open spec fn is_otp_code(s: Seq<char>) -> bool {
    let b = vstd::utf8::encode_utf8(s);
    b.len() == 6 && forall|i: int|
        0 <= i < b.len() ==> (48 <= #[trigger] b[i] <= 57 || 65 <= b[i] <= 70)
}

/// Every hex byte is an ASCII digit or uppercase letter.
proof fn lemma_hex_upper_ascii(bytes: Seq<u8>)
    ensures
        hex_upper(bytes).len() == 2 * bytes.len(),
        forall|i: int|
            0 <= i < hex_upper(bytes).len() ==> (48 <= #[trigger] hex_upper(bytes)[i] <= 57 || 65
                <= hex_upper(bytes)[i] <= 70),
    decreases bytes.len(),
{
    if bytes.len() > 0 {
        lemma_hex_upper_ascii(bytes.skip(1));
        assert forall|i: int| 0 <= i < hex_upper(bytes).len() implies (48 <= #[trigger] hex_upper(
            bytes,
        )[i] <= 57 || 65 <= hex_upper(bytes)[i] <= 70) by {
            if i >= 2 {
                assert(hex_upper(bytes)[i] == hex_upper(bytes.skip(1))[i - 2]);
            }
        }
    }
}

/// Render `bytes` as uppercase hexadecimal.
fn hex_upper_bytes(bytes: &[u8]) -> (out: Vec<u8>)
    ensures
        out@ == hex_upper(bytes@),
{
    let mut out: Vec<u8> = Vec::new();
    let mut i: usize = 0;
    proof {
        assert(bytes@.skip(0) =~= bytes@);
    }
    while i < bytes.len()
        invariant
            i <= bytes@.len(),
            hex_upper(bytes@) == out@ + hex_upper(bytes@.skip(i as int)),
        decreases bytes@.len() - i,
    {
        let ghost out0 = out@;
        let b = bytes[i];
        proof {
            assert(bytes@.skip(i as int)[0] == b);
            assert(bytes@.skip(i as int).skip(1) =~= bytes@.skip(i as int + 1));
        }
        let hi = b / 16;
        let lo = b % 16;
        out.push(if hi < 10 {
            48 + hi
        } else {
            55 + hi
        });
        out.push(if lo < 10 {
            48 + lo
        } else {
            55 + lo
        });
        proof {
            assert(out@ =~= out0 + seq![
                hex_digit_of(b as int / 16),
                hex_digit_of(b as int % 16),
            ]);
            assert(out0 + (seq![hex_digit_of(b as int / 16), hex_digit_of(b as int % 16)]
                + hex_upper(bytes@.skip(i as int + 1))) =~= out@ + hex_upper(
                bytes@.skip(i as int + 1),
            ));
        }
        i = i + 1;
    }
    proof {
        assert(hex_upper(bytes@.skip(bytes@.len() as int)) =~= Seq::<u8>::empty());
        assert(out@ =~= out@ + hex_upper(bytes@.skip(bytes@.len() as int)));
    }
    out
}

/// Draw a fresh one-time code: the uppercase hexadecimal rendering of three
/// random bytes. The code's value is random; its shape is fixed.
pub fn generate_otp_code() -> (r: String)
    ensures
        is_otp_code(r@),
{
    let bytes = random_bytes3();
    let hex = hex_upper_bytes(bytes.as_slice());
    proof {
        lemma_hex_upper_ascii(bytes@);
        crate::token::lemma_ascii_valid_utf8(hex@);
    }
    match string_from_utf8(hex) {
        Some(s) => s,
        None => {
            proof {
                assert(false);
            }
            String::new()
        },
    }
}

} // verus!
