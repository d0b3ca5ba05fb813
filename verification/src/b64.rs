//! Unpadded base64url, the byte-to-text encoding both token classes use for
//! their header, payload and signature segments.
//!
//! Encoding and decoding are specified as recursive functions over byte
//! sequences; the executable functions are proved to implement them, and
//! decoding is proved to invert encoding. Decoding is strict: it accepts only
//! canonical encodings (trailing bits zero, no padding characters).

use vstd::prelude::*;
use vstd::arithmetic::div_mod::lemma_fundamental_div_mod_converse;

verus! {

/// The alphabet: `A`-`Z`, `a`-`z`, `0`-`9`, `-`, `_`.
pub open spec fn b64_digit_of(v: int) -> u8
    recommends
        0 <= v < 64,
{
    if v < 26 {
        (65 + v) as u8
    } else if v < 52 {
        (97 + (v - 26)) as u8
    } else if v < 62 {
        (48 + (v - 52)) as u8
    } else if v == 62 {
        45u8
    } else {
        95u8
    }
}

/// Whether `c` is an alphabet byte.
pub open spec fn is_b64_byte(c: u8) -> bool {
    ||| 65 <= c < 91
    ||| 97 <= c < 123
    ||| 48 <= c < 58
    ||| c == 45
    ||| c == 95
}

/// The six-bit value an alphabet byte stands for.
pub open spec fn b64_val_of(c: u8) -> int
    recommends
        is_b64_byte(c),
{
    if 65 <= c < 91 {
        c - 65
    } else if 97 <= c < 123 {
        c - 97 + 26
    } else if 48 <= c < 58 {
        c - 48 + 52
    } else if c == 45 {
        62
    } else {
        63
    }
}

/// A full three-byte group becomes four digits.
pub open spec fn enc3(b0: u8, b1: u8, b2: u8) -> Seq<u8> {
    seq![
        b64_digit_of(b0 as int / 4),
        b64_digit_of((b0 as int % 4) * 16 + b1 as int / 16),
        b64_digit_of((b1 as int % 16) * 4 + b2 as int / 64),
        b64_digit_of(b2 as int % 64),
    ]
}

/// A trailing two-byte group becomes three digits, low bits zero.
pub open spec fn enc2(b0: u8, b1: u8) -> Seq<u8> {
    seq![
        b64_digit_of(b0 as int / 4),
        b64_digit_of((b0 as int % 4) * 16 + b1 as int / 16),
        b64_digit_of((b1 as int % 16) * 4),
    ]
}

/// A trailing one-byte group becomes two digits, low bits zero.
pub open spec fn enc1(b0: u8) -> Seq<u8> {
    seq![b64_digit_of(b0 as int / 4), b64_digit_of((b0 as int % 4) * 16)]
}

/// Unpadded base64url of an arbitrary byte sequence.
pub open spec fn b64_encode(bytes: Seq<u8>) -> Seq<u8>
    decreases bytes.len(),
{
    if bytes.len() == 0 {
        Seq::<u8>::empty()
    } else if bytes.len() == 1 {
        enc1(bytes[0])
    } else if bytes.len() == 2 {
        enc2(bytes[0], bytes[1])
    } else {
        enc3(bytes[0], bytes[1], bytes[2]) + b64_encode(bytes.skip(3))
    }
}

/// Strict inverse: `None` on any non-canonical or non-alphabet input.
pub open spec fn b64_decode(s: Seq<u8>) -> Option<Seq<u8>>
    decreases s.len(),
{
    if s.len() == 0 {
        Option::Some(Seq::<u8>::empty())
    } else if s.len() == 1 {
        Option::None
    } else if s.len() == 2 {
        if is_b64_byte(s[0]) && is_b64_byte(s[1]) && b64_val_of(s[1]) % 16 == 0 {
            Option::Some(seq![(b64_val_of(s[0]) * 4 + b64_val_of(s[1]) / 16) as u8])
        } else {
            Option::None
        }
    } else if s.len() == 3 {
        if is_b64_byte(s[0]) && is_b64_byte(s[1]) && is_b64_byte(s[2]) && b64_val_of(s[2]) % 4
            == 0 {
            Option::Some(
                seq![
                    (b64_val_of(s[0]) * 4 + b64_val_of(s[1]) / 16) as u8,
                    ((b64_val_of(s[1]) % 16) * 16 + b64_val_of(s[2]) / 4) as u8,
                ],
            )
        } else {
            Option::None
        }
    } else {
        if is_b64_byte(s[0]) && is_b64_byte(s[1]) && is_b64_byte(s[2]) && is_b64_byte(s[3]) {
            match b64_decode(s.skip(4)) {
                Option::Some(rest) => Option::Some(
                    seq![
                        (b64_val_of(s[0]) * 4 + b64_val_of(s[1]) / 16) as u8,
                        ((b64_val_of(s[1]) % 16) * 16 + b64_val_of(s[2]) / 4) as u8,
                        ((b64_val_of(s[2]) % 4) * 64 + b64_val_of(s[3])) as u8,
                    ] + rest,
                ),
                Option::None => Option::None,
            }
        } else {
            Option::None
        }
    }
}

/// Every encoded byte is an alphabet byte; in particular printable ASCII.
pub proof fn lemma_b64_encode_alphabet(bytes: Seq<u8>)
    ensures
        forall|i: int|
            0 <= i < b64_encode(bytes).len() ==> #[trigger] is_b64_byte(b64_encode(bytes)[i]),
    decreases bytes.len(),
{
    if bytes.len() == 0 {
    } else if bytes.len() == 1 {
        lemma_digit_round_trip(bytes[0] as int / 4);
        lemma_digit_round_trip((bytes[0] as int % 4) * 16);
    } else if bytes.len() == 2 {
        lemma_digit_round_trip(bytes[0] as int / 4);
        lemma_digit_round_trip((bytes[0] as int % 4) * 16 + bytes[1] as int / 16);
        lemma_digit_round_trip((bytes[1] as int % 16) * 4);
    } else {
        lemma_digit_round_trip(bytes[0] as int / 4);
        lemma_digit_round_trip((bytes[0] as int % 4) * 16 + bytes[1] as int / 16);
        lemma_digit_round_trip((bytes[1] as int % 16) * 4 + bytes[2] as int / 64);
        lemma_digit_round_trip(bytes[2] as int % 64);
        lemma_b64_encode_alphabet(bytes.skip(3));
        assert forall|i: int| 0 <= i < b64_encode(bytes).len() implies #[trigger] is_b64_byte(
            b64_encode(bytes)[i],
        ) by {
            if i >= 4 {
                assert(b64_encode(bytes)[i] == b64_encode(bytes.skip(3))[i - 4]);
            }
        }
    }
}

/// Digit values survive the alphabet round trip.
proof fn lemma_digit_round_trip(v: int)
    requires
        0 <= v < 64,
    ensures
        is_b64_byte(b64_digit_of(v)),
        b64_val_of(b64_digit_of(v)) == v,
{
}

/// The three reassembly identities behind one decoded group.
proof fn lemma_group_round_trip(b0: u8, b1: u8, b2: u8)
    ensures
        (b0 / 4) * 4 + ((b0 % 4) * 16 + b1 / 16) / 16 == b0,
        (((b0 % 4) * 16 + b1 / 16) % 16) * 16 + ((b1 % 16) * 4 + b2 / 64) / 4 == b1,
        (((b1 % 16) * 4 + b2 / 64) % 4) * 64 + b2 % 64 == b2,
{
    lemma_fundamental_div_mod_converse((b0 % 4) * 16 + b1 / 16, 16, b0 as int % 4, b1 as int / 16);
    lemma_fundamental_div_mod_converse((b1 % 16) * 4 + b2 / 64, 4, b1 as int % 16, b2 as int / 64);
}

/// Law: decoding inverts encoding on every byte sequence.
pub proof fn lemma_b64_round_trip(bytes: Seq<u8>)
    ensures
        b64_decode(b64_encode(bytes)) == Option::Some(bytes),
    decreases bytes.len(),
{
    let s = b64_encode(bytes);
    if bytes.len() == 0 {
        assert(b64_decode(s) == Option::Some(bytes));
    } else if bytes.len() == 1 {
        let b0 = bytes[0];
        lemma_digit_round_trip(b0 as int / 4);
        lemma_digit_round_trip((b0 % 4) * 16);
        lemma_fundamental_div_mod_converse((b0 % 4) * 16, 16, b0 as int % 4, 0);
        assert(b64_decode(s)->Some_0 =~= bytes);
    } else if bytes.len() == 2 {
        let b0 = bytes[0];
        let b1 = bytes[1];
        lemma_digit_round_trip(b0 as int / 4);
        lemma_digit_round_trip((b0 % 4) * 16 + b1 / 16);
        lemma_digit_round_trip((b1 % 16) * 4);
        lemma_group_round_trip(b0, b1, 0);
        lemma_fundamental_div_mod_converse((b1 % 16) * 4, 4, b1 as int % 16, 0);
        assert(b64_decode(s)->Some_0 =~= bytes);
    } else {
        let b0 = bytes[0];
        let b1 = bytes[1];
        let b2 = bytes[2];
        lemma_digit_round_trip(b0 as int / 4);
        lemma_digit_round_trip((b0 % 4) * 16 + b1 / 16);
        lemma_digit_round_trip((b1 % 16) * 4 + b2 / 64);
        lemma_digit_round_trip(b2 as int % 64);
        lemma_group_round_trip(b0, b1, b2);
        lemma_b64_round_trip(bytes.skip(3));
        assert(s.len() >= 4);
        assert(s.skip(4) =~= b64_encode(bytes.skip(3)));
        assert(b64_decode(s)->Some_0 =~= bytes);
    }
}

/// One executable digit.
fn b64_digit(v: u8) -> (r: u8)
    requires
        v < 64,
    ensures
        r == b64_digit_of(v as int),
{
    if v < 26 {
        65 + v
    } else if v < 52 {
        97 + (v - 26)
    } else if v < 62 {
        48 + (v - 52)
    } else if v == 62 {
        45
    } else {
        95
    }
}

/// One executable digit value.
fn b64_val(c: u8) -> (r: Option<u8>)
    ensures
        r is Some <==> is_b64_byte(c),
        r is Some ==> r->Some_0 as int == b64_val_of(c),
{
    if 65 <= c && c < 91 {
        Some(c - 65)
    } else if 97 <= c && c < 123 {
        Some(c - 97 + 26)
    } else if 48 <= c && c < 58 {
        Some(c - 48 + 52)
    } else if c == 45 {
        Some(62)
    } else if c == 95 {
        Some(63)
    } else {
        None
    }
}

/// Encode `bytes` as unpadded base64url.
pub fn base64url_encode(bytes: &[u8]) -> (out: Vec<u8>)
    ensures
        out@ == b64_encode(bytes@),
{
    let mut out: Vec<u8> = Vec::new();
    let mut i: usize = 0;
    proof {
        assert(bytes@.skip(0) =~= bytes@);
    }
    while bytes.len() - i >= 3
        invariant
            i <= bytes.len(),
            b64_encode(bytes@) == out@ + b64_encode(bytes@.skip(i as int)),
        decreases bytes.len() - i,
    {
        let ghost out0 = out@;
        let b0 = bytes[i];
        let b1 = bytes[i + 1];
        let b2 = bytes[i + 2];
        proof {
            assert(bytes@.skip(i as int).len() >= 3);
            assert(bytes@.skip(i as int)[0] == b0);
            assert(bytes@.skip(i as int)[1] == b1);
            assert(bytes@.skip(i as int)[2] == b2);
            assert(bytes@.skip(i as int).skip(3) =~= bytes@.skip(i as int + 3));
        }
        out.push(b64_digit(b0 / 4));
        out.push(b64_digit((b0 % 4) * 16 + b1 / 16));
        out.push(b64_digit((b1 % 16) * 4 + b2 / 64));
        out.push(b64_digit(b2 % 64));
        proof {
            assert(out@ =~= out0 + enc3(b0, b1, b2));
            assert(b64_encode(bytes@.skip(i as int)) == enc3(b0, b1, b2) + b64_encode(
                bytes@.skip(i as int + 3),
            ));
            assert(out0 + enc3(b0, b1, b2) + b64_encode(bytes@.skip(i as int + 3)) =~= out0
                + b64_encode(bytes@.skip(i as int)));
        }
        i = i + 3;
    }
    let ghost out0 = out@;
    if bytes.len() - i == 1 {
        let b0 = bytes[i];
        proof {
            assert(bytes@.skip(i as int).len() == 1);
            assert(bytes@.skip(i as int)[0] == b0);
        }
        out.push(b64_digit(b0 / 4));
        out.push(b64_digit((b0 % 4) * 16));
        proof {
            assert(out@ =~= out0 + enc1(b0));
        }
    } else if bytes.len() - i == 2 {
        let b0 = bytes[i];
        let b1 = bytes[i + 1];
        proof {
            assert(bytes@.skip(i as int).len() == 2);
            assert(bytes@.skip(i as int)[0] == b0);
            assert(bytes@.skip(i as int)[1] == b1);
        }
        out.push(b64_digit(b0 / 4));
        out.push(b64_digit((b0 % 4) * 16 + b1 / 16));
        out.push(b64_digit((b1 % 16) * 4));
        proof {
            assert(out@ =~= out0 + enc2(b0, b1));
        }
    } else {
        proof {
            assert(bytes@.skip(i as int).len() == 0);
            assert(out@ =~= out0 + b64_encode(bytes@.skip(i as int)));
        }
    }
    out
}

/// Decode strict unpadded base64url; `None` on any malformed input.
pub fn base64url_decode(s: &[u8]) -> (out: Option<Vec<u8>>)
    ensures
        out is Some <==> b64_decode(s@) is Some,
        out is Some ==> out->Some_0@ == b64_decode(s@)->Some_0,
{
    let mut out: Vec<u8> = Vec::new();
    let mut i: usize = 0;
    proof {
        assert(s@.skip(0) =~= s@);
    }
    while s.len() - i >= 4
        invariant
            i <= s.len(),
            b64_decode(s@) is Some <==> b64_decode(s@.skip(i as int)) is Some,
            b64_decode(s@) is Some ==> b64_decode(s@)->Some_0 == out@ + b64_decode(
                s@.skip(i as int),
            )->Some_0,
        decreases s.len() - i,
    {
        let ghost out0 = out@;
        proof {
            assert(s@.skip(i as int).len() >= 4);
            assert(s@.skip(i as int)[0] == s@[i as int]);
            assert(s@.skip(i as int)[1] == s@[i as int + 1]);
            assert(s@.skip(i as int)[2] == s@[i as int + 2]);
            assert(s@.skip(i as int)[3] == s@[i as int + 3]);
            assert(s@.skip(i as int).skip(4) =~= s@.skip(i as int + 4));
        }
        let v0 = match b64_val(s[i]) {
            Some(v) => v,
            None => {
                return None;
            },
        };
        let v1 = match b64_val(s[i + 1]) {
            Some(v) => v,
            None => {
                return None;
            },
        };
        let v2 = match b64_val(s[i + 2]) {
            Some(v) => v,
            None => {
                return None;
            },
        };
        let v3 = match b64_val(s[i + 3]) {
            Some(v) => v,
            None => {
                return None;
            },
        };
        out.push(v0 * 4 + v1 / 16);
        out.push((v1 % 16) * 16 + v2 / 4);
        out.push((v2 % 4) * 64 + v3);
        proof {
            let tail = s@.skip(i as int);
            let group = seq![
                (b64_val_of(tail[0]) * 4 + b64_val_of(tail[1]) / 16) as u8,
                ((b64_val_of(tail[1]) % 16) * 16 + b64_val_of(tail[2]) / 4) as u8,
                ((b64_val_of(tail[2]) % 4) * 64 + b64_val_of(tail[3])) as u8,
            ];
            assert(out@ =~= out0 + group);
            if b64_decode(tail.skip(4)) is Some {
                assert(b64_decode(tail)->Some_0 == group + b64_decode(tail.skip(4))->Some_0);
                assert(out0 + (group + b64_decode(tail.skip(4))->Some_0) =~= (out0 + group)
                    + b64_decode(tail.skip(4))->Some_0);
            }
        }
        i = i + 4;
    }
    let rem = s.len() - i;
    if rem == 0 {
        proof {
            assert(s@.skip(i as int).len() == 0);
            if b64_decode(s@) is Some {
                assert(out@ + b64_decode(s@.skip(i as int))->Some_0 =~= out@);
            }
        }
        Some(out)
    } else if rem == 1 {
        proof {
            assert(s@.skip(i as int).len() == 1);
        }
        None
    } else if rem == 2 {
        proof {
            assert(s@.skip(i as int).len() == 2);
            assert(s@.skip(i as int)[0] == s@[i as int]);
            assert(s@.skip(i as int)[1] == s@[i as int + 1]);
        }
        let v0 = match b64_val(s[i]) {
            Some(v) => v,
            None => {
                return None;
            },
        };
        let v1 = match b64_val(s[i + 1]) {
            Some(v) => v,
            None => {
                return None;
            },
        };
        if v1 % 16 != 0 {
            return None;
        }
        let ghost out0 = out@;
        out.push(v0 * 4 + v1 / 16);
        proof {
            let tail = s@.skip(i as int);
            assert(out@ =~= out0 + seq![(b64_val_of(tail[0]) * 4 + b64_val_of(tail[1]) / 16) as u8]);
            assert(out@ =~= out0 + b64_decode(tail)->Some_0);
        }
        Some(out)
    } else {
        proof {
            assert(s@.skip(i as int).len() == 3);
            assert(s@.skip(i as int)[0] == s@[i as int]);
            assert(s@.skip(i as int)[1] == s@[i as int + 1]);
            assert(s@.skip(i as int)[2] == s@[i as int + 2]);
        }
        let v0 = match b64_val(s[i]) {
            Some(v) => v,
            None => {
                return None;
            },
        };
        let v1 = match b64_val(s[i + 1]) {
            Some(v) => v,
            None => {
                return None;
            },
        };
        let v2 = match b64_val(s[i + 2]) {
            Some(v) => v,
            None => {
                return None;
            },
        };
        if v2 % 4 != 0 {
            return None;
        }
        let ghost out0 = out@;
        out.push(v0 * 4 + v1 / 16);
        out.push((v1 % 16) * 16 + v2 / 4);
        proof {
            let tail = s@.skip(i as int);
            assert(out@ =~= out0 + seq![
                (b64_val_of(tail[0]) * 4 + b64_val_of(tail[1]) / 16) as u8,
                ((b64_val_of(tail[1]) % 16) * 16 + b64_val_of(tail[2]) / 4) as u8,
            ]);
            assert(out@ =~= out0 + b64_decode(tail)->Some_0);
        }
        Some(out)
    }
}

} // verus!
