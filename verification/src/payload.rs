//! The claim payloads of the two token classes, as byte strings.
//!
//! A session payload is the object `{"sub":S,"iat":N,"exp":N}` and a pre-auth
//! payload the object `{"sub":S,"iat":N,"exp":N,"hash":S}`, with the fields in
//! exactly that order, `S` a quoted string whose `"` and `\` bytes are
//! backslash-escaped, and `N` a decimal integer. Rendering is specified as a
//! function of the claim values; parsing is specified as a partial inverse
//! and proved to invert rendering exactly.

use vstd::prelude::*;
use vstd::arithmetic::div_mod::lemma_fundamental_div_mod;

verus! {

/// The largest value a parsed integer field may take (`i64::MAX`).
pub open spec fn max_field_value() -> int {
    0x7fff_ffff_ffff_ffff
}

/// Escape a raw byte string for inclusion between quotes: `"` and `\` gain a
/// leading backslash, everything else passes through.
pub open spec fn esc_bytes(s: Seq<u8>) -> Seq<u8>
    decreases s.len(),
{
    if s.len() == 0 {
        Seq::<u8>::empty()
    } else {
        (if s[0] == 34 || s[0] == 92 {
            seq![92u8, s[0]]
        } else {
            seq![s[0]]
        }) + esc_bytes(s.skip(1))
    }
}

/// The decimal digits of a nonnegative integer, most significant first.
pub open spec fn dec_digits(n: int) -> Seq<u8>
    recommends
        n >= 0,
    decreases n,
{
    if n < 10 {
        seq![(48 + n) as u8]
    } else {
        dec_digits(n / 10) + seq![(48 + n % 10) as u8]
    }
}

/// Whether `b` is an ASCII decimal digit.
pub open spec fn is_digit(b: u8) -> bool {
    48 <= b <= 57
}

/// Consume a quoted-string body up to its closing quote: the unescaped
/// content and what follows the quote, or `None` if the input ends first or
/// holds a stray backslash.
pub open spec fn scan_string(p: Seq<u8>) -> Option<(Seq<u8>, Seq<u8>)>
    decreases p.len(),
{
    if p.len() == 0 {
        Option::None
    } else if p[0] == 34 {
        Option::Some((Seq::<u8>::empty(), p.skip(1)))
    } else if p[0] == 92 {
        if p.len() >= 2 && (p[1] == 34 || p[1] == 92) {
            match scan_string(p.skip(2)) {
                Option::Some(sr) => Option::Some((seq![p[1]] + sr.0, sr.1)),
                Option::None => Option::None,
            }
        } else {
            Option::None
        }
    } else {
        match scan_string(p.skip(1)) {
            Option::Some(sr) => Option::Some((seq![p[0]] + sr.0, sr.1)),
            Option::None => Option::None,
        }
    }
}

/// Consume leading digits, folding them onto `acc`; returns the folded value
/// and the first non-digit suffix.
pub open spec fn scan_digits(p: Seq<u8>, acc: int) -> (int, Seq<u8>)
    decreases p.len(),
{
    if p.len() > 0 && is_digit(p[0]) {
        scan_digits(p.skip(1), acc * 10 + (p[0] - 48))
    } else {
        (acc, p)
    }
}

/// Consume a decimal integer field: at least one digit, value within
/// [`max_field_value`].
pub open spec fn scan_number(p: Seq<u8>) -> Option<(int, Seq<u8>)> {
    if p.len() > 0 && is_digit(p[0]) {
        let vr = scan_digits(p, 0);
        if vr.0 <= max_field_value() {
            Option::Some(vr)
        } else {
            Option::None
        }
    } else {
        Option::None
    }
}

/// `{"sub":"` — the opening of both payload objects.
pub open spec fn lit_sub_open() -> Seq<u8> {
    seq![123u8, 34u8, 115u8, 117u8, 98u8, 34u8, 58u8, 34u8]
}

/// `,"iat":` — between the subject string and the issued-at field.
pub open spec fn lit_iat() -> Seq<u8> {
    seq![44u8, 34u8, 105u8, 97u8, 116u8, 34u8, 58u8]
}

/// `,"exp":` — between the issued-at and expiry fields.
pub open spec fn lit_exp() -> Seq<u8> {
    seq![44u8, 34u8, 101u8, 120u8, 112u8, 34u8, 58u8]
}

/// `,"hash":"` — between the expiry field and the code-hash string.
pub open spec fn lit_hash() -> Seq<u8> {
    seq![44u8, 34u8, 104u8, 97u8, 115u8, 104u8, 34u8, 58u8, 34u8]
}

/// The session payload object for subject bytes `sub` and the two timestamps.
pub open spec fn session_payload(sub: Seq<u8>, iat: int, exp: int) -> Seq<u8> {
    lit_sub_open() + esc_bytes(sub) + seq![34u8] + lit_iat() + dec_digits(iat) + lit_exp()
        + dec_digits(exp) + seq![125u8]
}

/// The pre-auth payload object: the session fields plus the code hash.
pub open spec fn preauth_payload(sub: Seq<u8>, iat: int, exp: int, hash: Seq<u8>) -> Seq<u8> {
    lit_sub_open() + esc_bytes(sub) + seq![34u8] + lit_iat() + dec_digits(iat) + lit_exp()
        + dec_digits(exp) + lit_hash() + esc_bytes(hash) + seq![34u8, 125u8]
}

/// Parse a session payload: the subject bytes and the two timestamps, or
/// `None` when the input is not such an object.
pub open spec fn parse_session(p: Seq<u8>) -> Option<(Seq<u8>, int, int)> {
    if p.len() >= 8 && p.subrange(0, 8) == lit_sub_open() {
        match scan_string(p.skip(8)) {
            Option::None => Option::None,
            Option::Some(sub_r) => if sub_r.1.len() >= 7 && sub_r.1.subrange(0, 7) == lit_iat() {
                match scan_number(sub_r.1.skip(7)) {
                    Option::None => Option::None,
                    Option::Some(iat_r) => if iat_r.1.len() >= 7 && iat_r.1.subrange(0, 7)
                        == lit_exp() {
                        match scan_number(iat_r.1.skip(7)) {
                            Option::None => Option::None,
                            Option::Some(exp_r) => if exp_r.1 == seq![125u8] {
                                Option::Some((sub_r.0, iat_r.0, exp_r.0))
                            } else {
                                Option::None
                            },
                        }
                    } else {
                        Option::None
                    },
                }
            } else {
                Option::None
            },
        }
    } else {
        Option::None
    }
}

/// Parse a pre-auth payload: the subject bytes, the two timestamps, and the
/// code-hash bytes.
pub open spec fn parse_preauth(p: Seq<u8>) -> Option<(Seq<u8>, int, int, Seq<u8>)> {
    if p.len() >= 8 && p.subrange(0, 8) == lit_sub_open() {
        match scan_string(p.skip(8)) {
            Option::None => Option::None,
            Option::Some(sub_r) => if sub_r.1.len() >= 7 && sub_r.1.subrange(0, 7) == lit_iat() {
                match scan_number(sub_r.1.skip(7)) {
                    Option::None => Option::None,
                    Option::Some(iat_r) => if iat_r.1.len() >= 7 && iat_r.1.subrange(0, 7)
                        == lit_exp() {
                        match scan_number(iat_r.1.skip(7)) {
                            Option::None => Option::None,
                            Option::Some(exp_r) => if exp_r.1.len() >= 9 && exp_r.1.subrange(0, 9)
                                == lit_hash() {
                                match scan_string(exp_r.1.skip(9)) {
                                    Option::None => Option::None,
                                    Option::Some(hash_r) => if hash_r.1 == seq![125u8] {
                                        Option::Some((sub_r.0, iat_r.0, exp_r.0, hash_r.0))
                                    } else {
                                        Option::None
                                    },
                                }
                            } else {
                                Option::None
                            },
                        }
                    } else {
                        Option::None
                    },
                }
            } else {
                Option::None
            },
        }
    } else {
        Option::None
    }
}

/// Scanning a string finds exactly the escaped content and the suffix after
/// the closing quote.
pub proof fn lemma_scan_string_round_trip(s: Seq<u8>, rest: Seq<u8>)
    ensures
        scan_string(esc_bytes(s) + seq![34u8] + rest) == Option::Some((s, rest)),
    decreases s.len(),
{
    let p = esc_bytes(s) + seq![34u8] + rest;
    if s.len() == 0 {
        assert(p[0] == 34);
        assert(p.skip(1) =~= rest);
    } else if s[0] == 34 || s[0] == 92 {
        assert(p[0] == 92);
        assert(p[1] == s[0]);
        lemma_scan_string_round_trip(s.skip(1), rest);
        assert(p.skip(2) =~= esc_bytes(s.skip(1)) + seq![34u8] + rest);
        assert(seq![s[0]] + s.skip(1) =~= s);
    } else {
        assert(p[0] == s[0]);
        lemma_scan_string_round_trip(s.skip(1), rest);
        assert(p.skip(1) =~= esc_bytes(s.skip(1)) + seq![34u8] + rest);
        assert(seq![s[0]] + s.skip(1) =~= s);
    }
}

/// Horner accumulation of a digit sequence onto `acc`.
pub open spec fn val_digits(ds: Seq<u8>, acc: int) -> int
    decreases ds.len(),
{
    if ds.len() == 0 {
        acc
    } else {
        val_digits(ds.skip(1), acc * 10 + (ds[0] - 48))
    }
}

/// Appending one digit multiplies the accumulated value by ten.
proof fn lemma_val_digits_append(ds: Seq<u8>, d: u8, acc: int)
    ensures
        val_digits(ds + seq![d], acc) == val_digits(ds, acc) * 10 + (d - 48),
    decreases ds.len(),
{
    let e = ds + seq![d];
    assert(e.len() == ds.len() + 1);
    if ds.len() == 0 {
        assert(e[0] == d);
        assert(e.skip(1) =~= Seq::<u8>::empty());
        assert(val_digits(e, acc) == val_digits(e.skip(1), acc * 10 + (e[0] - 48)));
        assert(val_digits(e.skip(1), acc * 10 + (d - 48)) == acc * 10 + (d - 48));
        assert(val_digits(ds, acc) == acc);
    } else {
        assert(e[0] == ds[0]);
        assert(e.skip(1) =~= ds.skip(1) + seq![d]);
        assert(val_digits(e, acc) == val_digits(e.skip(1), acc * 10 + (e[0] - 48)));
        lemma_val_digits_append(ds.skip(1), d, acc * 10 + (ds[0] - 48));
        assert(val_digits(ds, acc) == val_digits(ds.skip(1), acc * 10 + (ds[0] - 48)));
    }
}

/// The decimal digits of `n` accumulate back to `n`.
proof fn lemma_val_dec_digits(n: int)
    requires
        n >= 0,
    ensures
        val_digits(dec_digits(n), 0) == n,
    decreases n,
{
    if n < 10 {
        assert(dec_digits(n) == seq![(48 + n) as u8]);
        assert((48 + n) as u8 - 48 == n);
        assert(dec_digits(n).skip(1) =~= Seq::<u8>::empty());
        assert(val_digits(dec_digits(n), 0) == val_digits(
            dec_digits(n).skip(1),
            0 * 10 + (dec_digits(n)[0] - 48),
        ));
    } else {
        lemma_val_dec_digits(n / 10);
        lemma_val_digits_append(dec_digits(n / 10), (48 + n % 10) as u8, 0);
        assert((48 + n % 10) as u8 - 48 == n % 10);
        lemma_fundamental_div_mod(n, 10);
    }
}

/// Every rendered digit byte is a digit, and at least one is rendered.
proof fn lemma_dec_digits_are_digits(n: int)
    requires
        n >= 0,
    ensures
        dec_digits(n).len() >= 1,
        forall|i: int| 0 <= i < dec_digits(n).len() ==> is_digit(#[trigger] dec_digits(n)[i]),
    decreases n,
{
    if n < 10 {
    } else {
        lemma_dec_digits_are_digits(n / 10);
    }
}

/// Scanning digits walks exactly over an all-digit prefix.
proof fn lemma_scan_digits_over(ds: Seq<u8>, rest: Seq<u8>, acc: int)
    requires
        forall|i: int| 0 <= i < ds.len() ==> is_digit(#[trigger] ds[i]),
        rest.len() == 0 || !is_digit(rest[0]),
    ensures
        scan_digits(ds + rest, acc) == (val_digits(ds, acc), rest),
    decreases ds.len(),
{
    let p = ds + rest;
    if ds.len() == 0 {
        assert(p =~= rest);
    } else {
        assert(p[0] == ds[0]);
        assert(p.skip(1) =~= ds.skip(1) + rest);
        lemma_scan_digits_over(ds.skip(1), rest, acc * 10 + (ds[0] - 48));
    }
}

/// Scanning never decreases the accumulator.
proof fn lemma_scan_digits_lower(p: Seq<u8>, acc: int)
    requires
        acc >= 0,
    ensures
        scan_digits(p, acc).0 >= acc,
    decreases p.len(),
{
    if p.len() > 0 && is_digit(p[0]) {
        lemma_scan_digits_lower(p.skip(1), acc * 10 + (p[0] - 48));
    }
}

/// Scanning a number finds exactly the rendered value and the suffix.
pub proof fn lemma_scan_number_round_trip(n: int, rest: Seq<u8>)
    requires
        0 <= n <= max_field_value(),
        rest.len() == 0 || !is_digit(rest[0]),
    ensures
        scan_number(dec_digits(n) + rest) == Option::Some((n, rest)),
{
    lemma_dec_digits_are_digits(n);
    lemma_scan_digits_over(dec_digits(n), rest, 0);
    lemma_val_dec_digits(n);
    assert((dec_digits(n) + rest)[0] == dec_digits(n)[0]);
}

/// Law: parsing a rendered session payload gives back exactly its fields.
pub proof fn lemma_parse_session_round_trip(sub: Seq<u8>, iat: int, exp: int)
    requires
        0 <= iat <= max_field_value(),
        0 <= exp <= max_field_value(),
    ensures
        parse_session(session_payload(sub, iat, exp)) == Option::Some((sub, iat, exp)),
{
    let p = session_payload(sub, iat, exp);
    let after_sub = lit_iat() + dec_digits(iat) + lit_exp() + dec_digits(exp) + seq![125u8];
    assert(p.subrange(0, 8) =~= lit_sub_open());
    assert(p.skip(8) =~= esc_bytes(sub) + seq![34u8] + after_sub);
    lemma_scan_string_round_trip(sub, after_sub);
    assert(after_sub.subrange(0, 7) =~= lit_iat());
    let after_iat_lit = dec_digits(iat) + (lit_exp() + dec_digits(exp) + seq![125u8]);
    assert(after_sub.skip(7) =~= after_iat_lit);
    lemma_dec_digits_are_digits(iat);
    lemma_dec_digits_are_digits(exp);
    lemma_scan_number_round_trip(iat, lit_exp() + dec_digits(exp) + seq![125u8]);
    let after_iat = lit_exp() + dec_digits(exp) + seq![125u8];
    assert(after_iat.subrange(0, 7) =~= lit_exp());
    assert(after_iat.skip(7) =~= dec_digits(exp) + seq![125u8]);
    lemma_scan_number_round_trip(exp, seq![125u8]);
}

/// Law: parsing a rendered pre-auth payload gives back exactly its fields.
pub proof fn lemma_parse_preauth_round_trip(sub: Seq<u8>, iat: int, exp: int, hash: Seq<u8>)
    requires
        0 <= iat <= max_field_value(),
        0 <= exp <= max_field_value(),
    ensures
        parse_preauth(preauth_payload(sub, iat, exp, hash)) == Option::Some((sub, iat, exp, hash)),
{
    let p = preauth_payload(sub, iat, exp, hash);
    let tail_hash = esc_bytes(hash) + seq![34u8] + seq![125u8];
    let after_exp = lit_hash() + tail_hash;
    let after_iat = lit_exp() + dec_digits(exp) + after_exp;
    let after_sub = lit_iat() + dec_digits(iat) + after_iat;
    assert(p.subrange(0, 8) =~= lit_sub_open());
    assert(p.skip(8) =~= esc_bytes(sub) + seq![34u8] + after_sub);
    lemma_scan_string_round_trip(sub, after_sub);
    assert(after_sub.subrange(0, 7) =~= lit_iat());
    assert(after_sub.skip(7) =~= dec_digits(iat) + after_iat);
    lemma_dec_digits_are_digits(iat);
    lemma_dec_digits_are_digits(exp);
    lemma_scan_number_round_trip(iat, after_iat);
    assert(after_iat.subrange(0, 7) =~= lit_exp());
    assert(after_iat.skip(7) =~= dec_digits(exp) + after_exp);
    lemma_scan_number_round_trip(exp, after_exp);
    assert(after_exp.subrange(0, 9) =~= lit_hash());
    assert(after_exp.skip(9) =~= esc_bytes(hash) + seq![34u8] + seq![125u8]);
    lemma_scan_string_round_trip(hash, seq![125u8]);
}

/// Append the escaped form of `s` to `out`.
fn push_escaped(out: &mut Vec<u8>, s: &[u8])
    ensures
        final(out)@ == old(out)@ + esc_bytes(s@),
{
    let ghost base = out@;
    let mut i: usize = 0;
    proof {
        assert(s@.skip(0) =~= s@);
        assert(base + esc_bytes(s@) =~= out@ + esc_bytes(s@.skip(0)));
    }
    while i < s.len()
        invariant
            i <= s.len(),
            base + esc_bytes(s@) == out@ + esc_bytes(s@.skip(i as int)),
        decreases s.len() - i,
    {
        let ghost out0 = out@;
        let b = s[i];
        proof {
            assert(s@.skip(i as int)[0] == b);
            assert(s@.skip(i as int).skip(1) =~= s@.skip(i as int + 1));
        }
        if b == 34 || b == 92 {
            out.push(92);
            out.push(b);
            proof {
                assert(out@ =~= out0 + seq![92u8, b]);
                assert(out0 + (seq![92u8, b] + esc_bytes(s@.skip(i as int + 1))) =~= out@
                    + esc_bytes(s@.skip(i as int + 1)));
            }
        } else {
            out.push(b);
            proof {
                assert(out@ =~= out0 + seq![b]);
                assert(out0 + (seq![b] + esc_bytes(s@.skip(i as int + 1))) =~= out@ + esc_bytes(
                    s@.skip(i as int + 1),
                ));
            }
        }
        i = i + 1;
    }
    proof {
        assert(esc_bytes(s@.skip(s@.len() as int)) =~= Seq::<u8>::empty());
        assert(out@ =~= out@ + esc_bytes(s@.skip(s@.len() as int)));
    }
}

/// Append the decimal digits of `n` to `out`.
fn push_dec_digits(out: &mut Vec<u8>, n: i64)
    requires
        n >= 0,
    ensures
        final(out)@ == old(out)@ + dec_digits(n as int),
{
    let ghost base = out@;
    let mut tmp: Vec<u8> = Vec::new();
    let mut cur: i64 = n;
    if cur == 0 {
        tmp.push(48);
        proof {
            assert(tmp@.reverse() =~= dec_digits(n as int));
        }
    } else {
        while cur > 0
            invariant
                0 <= cur,
                cur > 0 ==> dec_digits(n as int) == dec_digits(cur as int) + tmp@.reverse(),
                cur == 0 ==> dec_digits(n as int) == tmp@.reverse(),
            decreases cur,
        {
            let ghost tmp0 = tmp@;
            let d: u8 = 48 + (cur % 10) as u8;
            tmp.push(d);
            proof {
                assert(tmp@.reverse() =~= seq![d] + tmp0.reverse());
            }
            let ghost c0 = cur as int;
            cur = cur / 10;
            proof {
                if cur > 0 {
                    assert(dec_digits(c0) == dec_digits(c0 / 10) + seq![(48 + c0 % 10) as u8]);
                    assert(dec_digits(c0 / 10) + (seq![d] + tmp0.reverse()) =~= (dec_digits(
                        c0 / 10,
                    ) + seq![d]) + tmp0.reverse());
                    assert(seq![(48 + c0 % 10) as u8] =~= seq![d]);
                    assert(dec_digits(c0) + tmp0.reverse() =~= dec_digits(c0 / 10) + tmp@.reverse());
                } else {
                    assert(c0 < 10);
                    assert(dec_digits(c0) =~= seq![d]);
                    assert(dec_digits(c0) + tmp0.reverse() =~= tmp@.reverse());
                }
            }
        }
    }
    let mut k: usize = 0;
    while k < tmp.len()
        invariant
            k <= tmp@.len(),
            dec_digits(n as int) == tmp@.reverse(),
            out@ == base + tmp@.reverse().take(k as int),
        decreases tmp@.len() - k,
    {
        let ghost out0 = out@;
        out.push(tmp[tmp.len() - 1 - k]);
        proof {
            assert(tmp@.reverse()[k as int] == tmp@[tmp@.len() - 1 - k as int]);
            assert(out@ =~= base + tmp@.reverse().take(k as int + 1));
        }
        k = k + 1;
    }
    proof {
        assert(tmp@.reverse().take(tmp@.len() as int) =~= tmp@.reverse());
    }
}

/// Render the session payload for `sub` and the two timestamps.
pub fn render_session_payload(sub: &[u8], iat: i64, exp: i64) -> (out: Vec<u8>)
    requires
        iat >= 0,
        exp >= 0,
    ensures
        out@ == session_payload(sub@, iat as int, exp as int),
{
    let mut out: Vec<u8> = Vec::new();
    out.push(123);
    out.push(34);
    out.push(115);
    out.push(117);
    out.push(98);
    out.push(34);
    out.push(58);
    out.push(34);
    proof {
        assert(out@ =~= lit_sub_open());
    }
    push_escaped(&mut out, sub);
    out.push(34);
    out.push(44);
    out.push(34);
    out.push(105);
    out.push(97);
    out.push(116);
    out.push(34);
    out.push(58);
    proof {
        assert(out@ =~= lit_sub_open() + esc_bytes(sub@) + seq![34u8] + lit_iat());
    }
    push_dec_digits(&mut out, iat);
    out.push(44);
    out.push(34);
    out.push(101);
    out.push(120);
    out.push(112);
    out.push(34);
    out.push(58);
    push_dec_digits(&mut out, exp);
    out.push(125);
    proof {
        assert(out@ =~= session_payload(sub@, iat as int, exp as int));
    }
    out
}

/// Render the pre-auth payload for `sub`, the two timestamps, and `hash`.
pub fn render_preauth_payload(sub: &[u8], iat: i64, exp: i64, hash: &[u8]) -> (out: Vec<u8>)
    requires
        iat >= 0,
        exp >= 0,
    ensures
        out@ == preauth_payload(sub@, iat as int, exp as int, hash@),
{
    let mut out: Vec<u8> = Vec::new();
    out.push(123);
    out.push(34);
    out.push(115);
    out.push(117);
    out.push(98);
    out.push(34);
    out.push(58);
    out.push(34);
    proof {
        assert(out@ =~= lit_sub_open());
    }
    push_escaped(&mut out, sub);
    out.push(34);
    out.push(44);
    out.push(34);
    out.push(105);
    out.push(97);
    out.push(116);
    out.push(34);
    out.push(58);
    proof {
        assert(out@ =~= lit_sub_open() + esc_bytes(sub@) + seq![34u8] + lit_iat());
    }
    push_dec_digits(&mut out, iat);
    out.push(44);
    out.push(34);
    out.push(101);
    out.push(120);
    out.push(112);
    out.push(34);
    out.push(58);
    push_dec_digits(&mut out, exp);
    out.push(44);
    out.push(34);
    out.push(104);
    out.push(97);
    out.push(115);
    out.push(104);
    out.push(34);
    out.push(58);
    out.push(34);
    proof {
        assert(out@ =~= lit_sub_open() + esc_bytes(sub@) + seq![34u8] + lit_iat() + dec_digits(
            iat as int,
        ) + lit_exp() + dec_digits(exp as int) + lit_hash());
    }
    push_escaped(&mut out, hash);
    out.push(34);
    out.push(125);
    proof {
        assert(out@ =~= preauth_payload(sub@, iat as int, exp as int, hash@));
    }
    out
}

/// Scan a quoted-string body starting at `start`; on success the unescaped
/// content and the index just past the closing quote.
fn scan_string_at(p: &[u8], start: usize) -> (r: Option<(Vec<u8>, usize)>)
    requires
        start <= p@.len(),
    ensures
        r is Some <==> scan_string(p@.skip(start as int)) is Some,
        r is Some ==> {
            let sr = scan_string(p@.skip(start as int))->Some_0;
            &&& r->Some_0.0@ == sr.0
            &&& start <= r->Some_0.1 <= p@.len()
            &&& sr.1 == p@.skip(r->Some_0.1 as int)
        },
{
    let mut out: Vec<u8> = Vec::new();
    let mut i: usize = start;
    proof {
        if scan_string(p@.skip(start as int)) is Some {
            assert(Seq::<u8>::empty() + scan_string(p@.skip(start as int))->Some_0.0
                =~= scan_string(p@.skip(start as int))->Some_0.0);
        }
    }
    while i < p.len()
        invariant
            start <= i <= p@.len(),
            scan_string(p@.skip(start as int)) is Some <==> scan_string(p@.skip(i as int)) is Some,
            scan_string(p@.skip(start as int)) is Some ==> {
                let whole = scan_string(p@.skip(start as int))->Some_0;
                let cur = scan_string(p@.skip(i as int))->Some_0;
                whole.0 == out@ + cur.0 && whole.1 == cur.1
            },
        decreases p@.len() - i,
    {
        let ghost out0 = out@;
        let b = p[i];
        proof {
            assert(p@.skip(i as int)[0] == b);
            assert(p@.skip(i as int).skip(1) =~= p@.skip(i as int + 1));
        }
        if b == 34 {
            proof {
                if scan_string(p@.skip(start as int)) is Some {
                    assert(out@ + Seq::<u8>::empty() =~= out@);
                }
            }
            return Some((out, i + 1));
        } else if b == 92 {
            if i + 1 >= p.len() {
                return None;
            }
            let b2 = p[i + 1];
            proof {
                assert(p@.skip(i as int)[1] == b2);
                assert(p@.skip(i as int).skip(2) =~= p@.skip(i as int + 2));
            }
            if b2 != 34 && b2 != 92 {
                return None;
            }
            out.push(b2);
            proof {
                if scan_string(p@.skip(i as int + 2)) is Some {
                    let nxt = scan_string(p@.skip(i as int + 2))->Some_0;
                    assert(out0 + (seq![b2] + nxt.0) =~= out@ + nxt.0);
                }
            }
            i = i + 2;
        } else {
            out.push(b);
            proof {
                if scan_string(p@.skip(i as int + 1)) is Some {
                    let nxt = scan_string(p@.skip(i as int + 1))->Some_0;
                    assert(out0 + (seq![b] + nxt.0) =~= out@ + nxt.0);
                }
            }
            i = i + 1;
        }
    }
    proof {
        assert(p@.skip(i as int).len() == 0);
    }
    None
}

/// Scan a decimal integer field starting at `start`; on success its value
/// and the index of the first byte after the digits.
fn scan_number_at(p: &[u8], start: usize) -> (r: Option<(i64, usize)>)
    requires
        start <= p@.len(),
    ensures
        r is Some <==> scan_number(p@.skip(start as int)) is Some,
        r is Some ==> {
            let vr = scan_number(p@.skip(start as int))->Some_0;
            &&& r->Some_0.0 as int == vr.0
            &&& start <= r->Some_0.1 <= p@.len()
            &&& vr.1 == p@.skip(r->Some_0.1 as int)
        },
{
    if start >= p.len() {
        return None;
    }
    let b0 = p[start];
    proof {
        assert(p@.skip(start as int)[0] == b0);
    }
    if !(48 <= b0 && b0 <= 57) {
        return None;
    }
    let mut acc: i64 = 0;
    let mut i: usize = start;
    while i < p.len() && 48 <= p[i] && p[i] <= 57
        invariant
            start <= i <= p@.len(),
            0 <= acc,
            scan_digits(p@.skip(start as int), 0) == scan_digits(p@.skip(i as int), acc as int),
        decreases p@.len() - i,
    {
        let d = p[i] - 48;
        proof {
            assert(p@.skip(i as int)[0] == p@[i as int]);
            assert(p@.skip(i as int).skip(1) =~= p@.skip(i as int + 1));
        }
        if acc > (9_223_372_036_854_775_807 - d as i64) / 10 {
            proof {
                lemma_fundamental_div_mod(max_field_value() - d, 10);
                assert(acc as int * 10 + d > max_field_value());
                lemma_scan_digits_lower(p@.skip(i as int + 1), acc as int * 10 + d);
                assert(scan_digits(p@.skip(start as int), 0).0 > max_field_value());
            }
            return None;
        }
        proof {
            lemma_fundamental_div_mod(max_field_value() - d, 10);
            assert(acc as int * 10 + d <= max_field_value());
        }
        acc = acc * 10 + d as i64;
        i = i + 1;
    }
    proof {
        assert(p@.skip(i as int).len() == 0 || !is_digit(p@.skip(i as int)[0]));
        assert(scan_digits(p@.skip(i as int), acc as int) == (acc as int, p@.skip(i as int)));
    }
    Some((acc, i))
}

/// Whether `lit` stands at the front of `p`.
pub open spec fn starts_with(p: Seq<u8>, lit: Seq<u8>) -> bool {
    p.len() >= lit.len() && p.subrange(0, lit.len() as int) == lit
}

/// Compare the bytes of `lit` against `p` at `start`.
fn has_prefix_at(p: &[u8], start: usize, lit: &[u8]) -> (r: bool)
    requires
        start <= p@.len(),
    ensures
        r == starts_with(p@.skip(start as int), lit@),
{
    if p.len() - start < lit.len() {
        return false;
    }
    let mut k: usize = 0;
    while k < lit.len()
        invariant
            k <= lit@.len(),
            start + lit@.len() <= p@.len(),
            p@.len() <= usize::MAX,
            forall|j: int| 0 <= j < k ==> p@[start + j] == lit@[j],
        decreases lit@.len() - k,
    {
        if p[start + k] != lit[k] {
            proof {
                assert(p@.skip(start as int).subrange(0, lit@.len() as int)[k as int] == p@[start
                    + k]);
            }
            return false;
        }
        k = k + 1;
    }
    proof {
        assert(p@.skip(start as int).subrange(0, lit@.len() as int) =~= lit@);
    }
    true
}

/// The object-opening literal as a runtime value.
fn lit_sub_open_vec() -> (v: Vec<u8>)
    ensures
        v@ == lit_sub_open(),
{
    let mut v: Vec<u8> = Vec::new();
    v.push(123);
    v.push(34);
    v.push(115);
    v.push(117);
    v.push(98);
    v.push(34);
    v.push(58);
    v.push(34);
    proof {
        assert(v@ =~= lit_sub_open());
    }
    v
}

/// The issued-at key literal as a runtime value.
fn lit_iat_vec() -> (v: Vec<u8>)
    ensures
        v@ == lit_iat(),
{
    let mut v: Vec<u8> = Vec::new();
    v.push(44);
    v.push(34);
    v.push(105);
    v.push(97);
    v.push(116);
    v.push(34);
    v.push(58);
    proof {
        assert(v@ =~= lit_iat());
    }
    v
}

/// The expiry key literal as a runtime value.
fn lit_exp_vec() -> (v: Vec<u8>)
    ensures
        v@ == lit_exp(),
{
    let mut v: Vec<u8> = Vec::new();
    v.push(44);
    v.push(34);
    v.push(101);
    v.push(120);
    v.push(112);
    v.push(34);
    v.push(58);
    proof {
        assert(v@ =~= lit_exp());
    }
    v
}

/// The hash key literal as a runtime value.
fn lit_hash_vec() -> (v: Vec<u8>)
    ensures
        v@ == lit_hash(),
{
    let mut v: Vec<u8> = Vec::new();
    v.push(44);
    v.push(34);
    v.push(104);
    v.push(97);
    v.push(115);
    v.push(104);
    v.push(34);
    v.push(58);
    v.push(34);
    proof {
        assert(v@ =~= lit_hash());
    }
    v
}

/// Parse a session payload; exactly [`parse_session`] of the input.
pub fn parse_session_payload(p: &[u8]) -> (r: Option<(Vec<u8>, i64, i64)>)
    ensures
        r is Some <==> parse_session(p@) is Some,
        r is Some ==> {
            let c = parse_session(p@)->Some_0;
            &&& r->Some_0.0@ == c.0
            &&& r->Some_0.1 as int == c.1
            &&& r->Some_0.2 as int == c.2
        },
{
    let plen: usize = p.len();
    proof {
        assert(p@.skip(0) =~= p@);
        assert(p@.len() == plen);
    }
    let open_lit = lit_sub_open_vec();
    let iat_lit = lit_iat_vec();
    let exp_lit = lit_exp_vec();
    if !has_prefix_at(p, 0, open_lit.as_slice()) {
        return None;
    }
    proof {
        assert(p@.subrange(0, 8) == p@.skip(0).subrange(0, 8));
    }
    let (sub, i1) = match scan_string_at(p, 8) {
        Some(x) => x,
        None => {
            return None;
        },
    };
    if !has_prefix_at(p, i1, iat_lit.as_slice()) {
        return None;
    }
    proof {
        assert(p@.skip(i1 as int).skip(7) =~= p@.skip(i1 as int + 7));
    }
    let (iat, i2) = match scan_number_at(p, i1 + 7) {
        Some(x) => x,
        None => {
            return None;
        },
    };
    if !has_prefix_at(p, i2, exp_lit.as_slice()) {
        return None;
    }
    proof {
        assert(p@.skip(i2 as int).skip(7) =~= p@.skip(i2 as int + 7));
    }
    let (exp, i3) = match scan_number_at(p, i2 + 7) {
        Some(x) => x,
        None => {
            return None;
        },
    };
    if p.len() - i3 != 1 || p[i3] != 125 {
        proof {
            if p@.skip(i3 as int).len() == 1 {
                assert(p@.skip(i3 as int)[0] == p@[i3 as int]);
            }
            assert(p@.skip(i3 as int) != seq![125u8]);
        }
        return None;
    }
    proof {
        assert(p@.skip(i3 as int) =~= seq![125u8]);
    }
    Some((sub, iat, exp))
}

/// Parse a pre-auth payload; exactly [`parse_preauth`] of the input.
pub fn parse_preauth_payload(p: &[u8]) -> (r: Option<(Vec<u8>, i64, i64, Vec<u8>)>)
    ensures
        r is Some <==> parse_preauth(p@) is Some,
        r is Some ==> {
            let c = parse_preauth(p@)->Some_0;
            &&& r->Some_0.0@ == c.0
            &&& r->Some_0.1 as int == c.1
            &&& r->Some_0.2 as int == c.2
            &&& r->Some_0.3@ == c.3
        },
{
    let plen: usize = p.len();
    proof {
        assert(p@.skip(0) =~= p@);
        assert(p@.len() == plen);
    }
    let open_lit = lit_sub_open_vec();
    let iat_lit = lit_iat_vec();
    let exp_lit = lit_exp_vec();
    if !has_prefix_at(p, 0, open_lit.as_slice()) {
        return None;
    }
    proof {
        assert(p@.subrange(0, 8) == p@.skip(0).subrange(0, 8));
    }
    let (sub, i1) = match scan_string_at(p, 8) {
        Some(x) => x,
        None => {
            return None;
        },
    };
    if !has_prefix_at(p, i1, iat_lit.as_slice()) {
        return None;
    }
    proof {
        assert(p@.skip(i1 as int).skip(7) =~= p@.skip(i1 as int + 7));
    }
    let (iat, i2) = match scan_number_at(p, i1 + 7) {
        Some(x) => x,
        None => {
            return None;
        },
    };
    if !has_prefix_at(p, i2, exp_lit.as_slice()) {
        return None;
    }
    proof {
        assert(p@.skip(i2 as int).skip(7) =~= p@.skip(i2 as int + 7));
    }
    let (exp, i3) = match scan_number_at(p, i2 + 7) {
        Some(x) => x,
        None => {
            return None;
        },
    };
    let hash_lit = lit_hash_vec();
    if !has_prefix_at(p, i3, hash_lit.as_slice()) {
        return None;
    }
    proof {
        assert(p@.skip(i3 as int).skip(9) =~= p@.skip(i3 as int + 9));
    }
    let (hash, i4) = match scan_string_at(p, i3 + 9) {
        Some(x) => x,
        None => {
            return None;
        },
    };
    if p.len() - i4 != 1 || p[i4] != 125 {
        proof {
            if p@.skip(i4 as int).len() == 1 {
                assert(p@.skip(i4 as int)[0] == p@[i4 as int]);
            }
            assert(p@.skip(i4 as int) != seq![125u8]);
        }
        return None;
    }
    proof {
        assert(p@.skip(i4 as int) =~= seq![125u8]);
    }
    Some((sub, iat, exp, hash))
}

} // verus!
