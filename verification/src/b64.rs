//! Standard-alphabet base64 without padding: a verified decoder, a
//! specification-level encoder, and the round-trip law connecting them.
//!
//! Manifests carry each variant's initialization block as an unpadded
//! standard-base64 string. The decoder rejects inputs whose final partial
//! group has stray low bits set, so every accepted string is the canonical
//! encoding of its decoded bytes.

use vstd::prelude::*;

verus! {

/// The value of one standard-alphabet base64 digit, or `None` for any other
/// byte.
pub open spec fn b64_val(c: u8) -> Option<u8> {
    if 65 <= c && c <= 90 {
        Some((c - 65) as u8)  // 'A'..='Z' -> 0..=25
    } else if 97 <= c && c <= 122 {
        Some((c - 97 + 26) as u8)  // 'a'..='z' -> 26..=51
    } else if 48 <= c && c <= 57 {
        Some((c - 48 + 52) as u8)  // '0'..='9' -> 52..=61
    } else if c == 43 {
        Some(62u8)  // '+'
    } else if c == 47 {
        Some(63u8)  // '/'
    } else {
        None
    }
}

/// The standard-alphabet digit for a 6-bit value.
pub open spec fn b64_digit(v: int) -> u8 {
    if 0 <= v && v < 26 {
        (65 + v) as u8
    } else if 26 <= v && v < 52 {
        (97 + (v - 26)) as u8
    } else if 52 <= v && v < 62 {
        (48 + (v - 52)) as u8
    } else if v == 62 {
        43u8
    } else {
        47u8
    }
}

/// Unpadded standard base64 decoding. `None` on any byte outside the
/// alphabet, on a length congruent to 1 modulo 4, and on a non-canonical
/// final group (stray low bits).
pub open spec fn spec_b64_decode(s: Seq<u8>) -> Option<Seq<u8>>
    decreases s.len(),
{
    if s.len() == 0 {
        Some(Seq::empty())
    } else if s.len() == 1 {
        None
    } else if s.len() == 2 {
        match (b64_val(s[0]), b64_val(s[1])) {
            (Some(a), Some(b)) => if b % 16 == 0 {
                Some(seq![((a as int) * 4 + (b as int) / 16) as u8])
            } else {
                None
            },
            _ => None,
        }
    } else if s.len() == 3 {
        match (b64_val(s[0]), b64_val(s[1]), b64_val(s[2])) {
            (Some(a), Some(b), Some(c)) => if c % 4 == 0 {
                Some(
                    seq![
                        ((a as int) * 4 + (b as int) / 16) as u8,
                        ((b as int) % 16 * 16 + (c as int) / 4) as u8,
                    ],
                )
            } else {
                None
            },
            _ => None,
        }
    } else {
        match (b64_val(s[0]), b64_val(s[1]), b64_val(s[2]), b64_val(s[3])) {
            (Some(a), Some(b), Some(c), Some(d)) => match spec_b64_decode(s.skip(4)) {
                Some(rest) => Some(
                    seq![
                        ((a as int) * 4 + (b as int) / 16) as u8,
                        ((b as int) % 16 * 16 + (c as int) / 4) as u8,
                        ((c as int) % 4 * 64 + (d as int)) as u8,
                    ] + rest,
                ),
                None => None,
            },
            _ => None,
        }
    }
}

/// Unpadded standard base64 encoding of a byte sequence.
pub open spec fn spec_b64_encode(b: Seq<u8>) -> Seq<u8>
    decreases b.len(),
{
    if b.len() == 0 {
        Seq::empty()
    } else if b.len() == 1 {
        seq![b64_digit(b[0] as int / 4), b64_digit(b[0] as int % 4 * 16)]
    } else if b.len() == 2 {
        seq![
            b64_digit(b[0] as int / 4),
            b64_digit(b[0] as int % 4 * 16 + b[1] as int / 16),
            b64_digit(b[1] as int % 16 * 4),
        ]
    } else {
        seq![
            b64_digit(b[0] as int / 4),
            b64_digit(b[0] as int % 4 * 16 + b[1] as int / 16),
            b64_digit(b[1] as int % 16 * 4 + b[2] as int / 64),
            b64_digit(b[2] as int % 64),
        ] + spec_b64_encode(b.skip(3))
    }
}

/// Decoding is left-inverted by encoding: any string the decoder accepts is
/// the canonical unpadded base64 encoding of its decoded bytes.
pub proof fn lemma_b64_round_trip(s: Seq<u8>, b: Seq<u8>)
    requires
        spec_b64_decode(s) == Some(b),
    ensures
        spec_b64_encode(b) == s,
    decreases s.len(),
{
    lemma_b64_digit_val(s);
    if s.len() == 0 {
        assert(spec_b64_encode(b) =~= s);
    } else if s.len() == 2 {
        let a = b64_val(s[0])->0;
        let v1 = b64_val(s[1])->0;
        let x = ((a as int) * 4 + (v1 as int) / 16) as u8;
        assert(b =~= seq![x]);
        assert(x / 4 == a as int) by {
            assert((v1 as int) / 16 < 4);
        }
        assert(x % 4 * 16 == v1 as int) by {
            assert(v1 % 16 == 0);
            assert(x % 4 == (v1 as int) / 16);
        }
        assert(spec_b64_encode(b) =~= s);
    } else if s.len() == 3 {
        let a = b64_val(s[0])->0;
        let v1 = b64_val(s[1])->0;
        let c = b64_val(s[2])->0;
        let x = ((a as int) * 4 + (v1 as int) / 16) as u8;
        let y = ((v1 as int) % 16 * 16 + (c as int) / 4) as u8;
        assert(b =~= seq![x, y]);
        assert(x / 4 == a as int);
        assert(x % 4 == (v1 as int) / 16);
        assert(y / 16 == (v1 as int) % 16);
        assert(y % 16 * 4 == c as int) by {
            assert(c % 4 == 0);
            assert(y % 16 == (c as int) / 4);
        }
        assert(spec_b64_encode(b) =~= s);
    } else {
        let a = b64_val(s[0])->0;
        let v1 = b64_val(s[1])->0;
        let c = b64_val(s[2])->0;
        let d = b64_val(s[3])->0;
        let rest = spec_b64_decode(s.skip(4))->0;
        lemma_b64_round_trip(s.skip(4), rest);
        let x = ((a as int) * 4 + (v1 as int) / 16) as u8;
        let y = ((v1 as int) % 16 * 16 + (c as int) / 4) as u8;
        let z = ((c as int) % 4 * 64 + (d as int)) as u8;
        assert(b =~= seq![x, y, z] + rest);
        assert(x / 4 == a as int);
        assert(x % 4 == (v1 as int) / 16);
        assert(y / 16 == (v1 as int) % 16);
        assert(y % 16 == (c as int) / 4);
        assert(z / 64 == (c as int) % 4);
        assert(z % 64 == d as int);
        assert(b.len() >= 3);
        assert(b.skip(3) =~= rest);
        assert(spec_b64_encode(b) =~= s);
    }
}

/// Every alphabet byte round-trips through its 6-bit value.
proof fn lemma_b64_digit_val(s: Seq<u8>)
    ensures
        forall|i: int|
            0 <= i < s.len() && b64_val(s[i]) is Some ==> b64_digit(
                b64_val(s[i])->0 as int,
            ) == s[i],
{
}

/// Executable form of [`b64_val`].
fn b64_val_exec(c: u8) -> (r: Option<u8>)
    ensures
        r == b64_val(c),
        r is Some ==> r->0 < 64,
{
    if 65 <= c && c <= 90 {
        Some(c - 65)
    } else if 97 <= c && c <= 122 {
        Some(c - 97 + 26)
    } else if 48 <= c && c <= 57 {
        Some(c - 48 + 52)
    } else if c == 43 {
        Some(62)
    } else if c == 47 {
        Some(63)
    } else {
        None
    }
}

/// Decodes an unpadded standard-base64 byte string, exactly as
/// [`spec_b64_decode`] describes.
pub fn b64_decode(s: &[u8]) -> (r: Option<Vec<u8>>)
    ensures
        match r {
            Some(v) => spec_b64_decode(s@) == Some(v@),
            None => spec_b64_decode(s@) is None,
        },
{
    let len: usize = s.len();
    let mut out: Vec<u8> = Vec::new();
    let mut i: usize = 0;
    proof {
        assert(s@.skip(0) =~= s@);
    }
    while len - i >= 4
        invariant
            i <= len,
            len == s@.len(),
            match spec_b64_decode(s@.skip(i as int)) {
                Some(t) => spec_b64_decode(s@) == Some(out@ + t),
                None => spec_b64_decode(s@) is None,
            },
        decreases len - i,
    {
        let v0 = b64_val_exec(s[i]);
        let v1 = b64_val_exec(s[i + 1]);
        let v2 = b64_val_exec(s[i + 2]);
        let v3 = b64_val_exec(s[i + 3]);
        proof {
            assert(s@.skip(i as int).len() >= 4);
            assert(s@.skip(i as int)[0] == s@[i as int]);
            assert(s@.skip(i as int)[1] == s@[i + 1]);
            assert(s@.skip(i as int)[2] == s@[i + 2]);
            assert(s@.skip(i as int)[3] == s@[i + 3]);
            assert(s@.skip(i as int).skip(4) =~= s@.skip(i + 4));
        }
        match (v0, v1, v2, v3) {
            (Some(a), Some(b), Some(c), Some(d)) => {
                let ghost old_out = out@;
                out.push(a * 4 + b / 16);
                out.push(b % 16 * 16 + c / 4);
                out.push(c % 4 * 64 + d);
                proof {
                    assert(out@ =~= old_out + seq![
                        ((a as int) * 4 + (b as int) / 16) as u8,
                        ((b as int) % 16 * 16 + (c as int) / 4) as u8,
                        ((c as int) % 4 * 64 + (d as int)) as u8,
                    ]);
                    if spec_b64_decode(s@.skip(i + 4)) is Some {
                        let t = spec_b64_decode(s@.skip(i + 4))->0;
                        assert(old_out + (seq![
                            ((a as int) * 4 + (b as int) / 16) as u8,
                            ((b as int) % 16 * 16 + (c as int) / 4) as u8,
                            ((c as int) % 4 * 64 + (d as int)) as u8,
                        ] + t) =~= out@ + t);
                    }
                }
                i = i + 4;
            },
            _ => {
                return None;
            },
        }
    }
    let rem: usize = len - i;
    proof {
        assert(s@.skip(i as int).len() == rem);
        if rem >= 1 {
            assert(s@.skip(i as int)[0] == s@[i as int]);
        }
        if rem >= 2 {
            assert(s@.skip(i as int)[1] == s@[i + 1]);
        }
        if rem >= 3 {
            assert(s@.skip(i as int)[2] == s@[i + 2]);
        }
    }
    if rem == 0 {
        proof {
            assert(out@ + Seq::<u8>::empty() =~= out@);
        }
        Some(out)
    } else if rem == 1 {
        None
    } else if rem == 2 {
        match (b64_val_exec(s[i]), b64_val_exec(s[i + 1])) {
            (Some(a), Some(b)) => {
                if b % 16 == 0 {
                    let ghost old_out = out@;
                    out.push(a * 4 + b / 16);
                    proof {
                        assert(out@ =~= old_out + seq![((a as int) * 4 + (b as int) / 16) as u8]);
                    }
                    Some(out)
                } else {
                    None
                }
            },
            _ => None,
        }
    } else {
        match (b64_val_exec(s[i]), b64_val_exec(s[i + 1]), b64_val_exec(s[i + 2])) {
            (Some(a), Some(b), Some(c)) => {
                if c % 4 == 0 {
                    let ghost old_out = out@;
                    out.push(a * 4 + b / 16);
                    out.push(b % 16 * 16 + c / 4);
                    proof {
                        assert(out@ =~= old_out + seq![
                            ((a as int) * 4 + (b as int) / 16) as u8,
                            ((b as int) % 16 * 16 + (c as int) / 4) as u8,
                        ]);
                    }
                    Some(out)
                } else {
                    None
                }
            },
            _ => None,
        }
    }
}

} // verus!
