//! A verified JSON scanner over raw bytes.
//!
//! The configuration and manifest documents are JSON; this module gives the
//! grammar its own verified reading: whitespace, strings with escapes
//! (including `\uXXXX` and surrogate pairs), numbers, and the recursive
//! object/array structure. Instead of building a tree, the scanner exposes,
//! for an object, the decoded member keys with the byte offset at which each
//! member's value starts, and for an array the offsets of its elements;
//! typed readers then decode a value at an offset. Nesting is bounded by a
//! fixed depth budget, and documents that nest deeper are rejected.

use vstd::prelude::*;

verus! {

/// Nesting levels a document may use below the top-level object.
pub const DEPTH_BUDGET: u32 = 127;

pub const QUOTE: u8 = 34;

pub const BACKSLASH: u8 = 92;

pub const LBRACE: u8 = 123;

pub const RBRACE: u8 = 125;

pub const LBRACK: u8 = 91;

pub const RBRACK: u8 = 93;

pub const COLON: u8 = 58;

pub const COMMA: u8 = 44;

pub const MINUS: u8 = 45;

/// JSON insignificant whitespace.
pub open spec fn is_ws(c: u8) -> bool {
    c == 32 || c == 9 || c == 10 || c == 13
}

pub open spec fn is_digit(c: u8) -> bool {
    48 <= c && c <= 57
}

/// The first index at or after `i` holding a non-whitespace byte (or the end
/// of the input).
pub open spec fn spec_skip_ws(s: Seq<u8>, i: int) -> int
    decreases s.len() - i,
{
    if 0 <= i && i < s.len() && is_ws(s[i]) {
        spec_skip_ws(s, i + 1)
    } else {
        i
    }
}

/// Executable whitespace skip, equal to [`spec_skip_ws`].
pub fn ws_end(s: &[u8], i: usize) -> (r: usize)
    requires
        i <= s@.len(),
    ensures
        r == spec_skip_ws(s@, i as int),
        i <= r <= s@.len(),
{
    let mut j = i;
    while j < s.len() && (s[j] == 32 || s[j] == 9 || s[j] == 10 || s[j] == 13)
        invariant
            i <= j <= s@.len(),
            spec_skip_ws(s@, i as int) == spec_skip_ws(s@, j as int),
        decreases s@.len() - j,
    {
        j = j + 1;
    }
    j
}

/// The value of a hexadecimal digit.
pub open spec fn hex_val(c: u8) -> Option<int> {
    if 48 <= c && c <= 57 {
        Some(c - 48)
    } else if 97 <= c && c <= 102 {
        Some(c - 97 + 10)
    } else if 65 <= c && c <= 70 {
        Some(c - 65 + 10)
    } else {
        None
    }
}

/// Four hexadecimal digits at `i`, as a value below 0x10000.
pub open spec fn spec_hex4(s: Seq<u8>, i: int) -> Option<int> {
    if i < 0 || i + 4 > s.len() {
        None
    } else {
        match (hex_val(s[i]), hex_val(s[i + 1]), hex_val(s[i + 2]), hex_val(s[i + 3])) {
            (Some(a), Some(b), Some(c), Some(d)) => Some(a * 4096 + b * 256 + c * 16 + d),
            _ => None,
        }
    }
}

/// The UTF-8 encoding of a Unicode scalar value.
pub open spec fn spec_utf8_of(cp: int) -> Seq<u8> {
    if cp < 0x80 {
        seq![cp as u8]
    } else if cp < 0x800 {
        seq![(0xC0 + cp / 64) as u8, (0x80 + cp % 64) as u8]
    } else if cp < 0x10000 {
        seq![(0xE0 + cp / 4096) as u8, (0x80 + (cp / 64) % 64) as u8, (0x80 + cp % 64) as u8]
    } else {
        seq![
            (0xF0 + cp / 262144) as u8,
            (0x80 + (cp / 4096) % 64) as u8,
            (0x80 + (cp / 64) % 64) as u8,
            (0x80 + cp % 64) as u8,
        ]
    }
}

/// Prepends decoded bytes to the rest of a string body.
pub open spec fn cat_str(pre: Seq<u8>, r: Option<(Seq<u8>, int)>) -> Option<(Seq<u8>, int)> {
    match r {
        Some((t, j)) => Some((pre + t, j)),
        None => None,
    }
}

/// The body of a JSON string starting just after the opening quote:
/// the decoded contents and the index just past the closing quote.
pub open spec fn spec_string_body(s: Seq<u8>, i: int) -> Option<(Seq<u8>, int)>
    decreases s.len() - i,
{
    if i < 0 || i >= s.len() {
        None
    } else {
        let c = s[i];
        if c == QUOTE {
            Some((Seq::empty(), i + 1))
        } else if c == BACKSLASH {
            if i + 2 > s.len() {
                None
            } else {
                let e = s[i + 1];
                if e == QUOTE || e == BACKSLASH || e == 47 {
                    cat_str(seq![e], spec_string_body(s, i + 2))
                } else if e == 98 {
                    cat_str(seq![8u8], spec_string_body(s, i + 2))
                } else if e == 102 {
                    cat_str(seq![12u8], spec_string_body(s, i + 2))
                } else if e == 110 {
                    cat_str(seq![10u8], spec_string_body(s, i + 2))
                } else if e == 114 {
                    cat_str(seq![13u8], spec_string_body(s, i + 2))
                } else if e == 116 {
                    cat_str(seq![9u8], spec_string_body(s, i + 2))
                } else if e == 117 {
                    if i + 6 > s.len() {
                        None
                    } else {
                        match spec_hex4(s, i + 2) {
                            None => None,
                            Some(cp) => {
                                if 0xD800 <= cp && cp < 0xDC00 {
                                    if i + 12 <= s.len() && s[i + 6] == BACKSLASH && s[i + 7]
                                        == 117 {
                                        match spec_hex4(s, i + 8) {
                                            None => None,
                                            Some(cp2) => {
                                                if 0xDC00 <= cp2 && cp2 < 0xE000 {
                                                    cat_str(
                                                        spec_utf8_of(
                                                            0x10000 + (cp - 0xD800) * 0x400 + (cp2
                                                                - 0xDC00),
                                                        ),
                                                        spec_string_body(s, i + 12),
                                                    )
                                                } else {
                                                    None
                                                }
                                            },
                                        }
                                    } else {
                                        None
                                    }
                                } else if 0xDC00 <= cp && cp < 0xE000 {
                                    None
                                } else {
                                    cat_str(spec_utf8_of(cp), spec_string_body(s, i + 6))
                                }
                            },
                        }
                    }
                } else {
                    None
                }
            }
        } else if c < 32 {
            None
        } else {
            cat_str(seq![c], spec_string_body(s, i + 1))
        }
    }
}

/// A whole JSON string at `i` (opening quote included): decoded contents and
/// the index just past the closing quote.
pub open spec fn spec_parse_string(s: Seq<u8>, i: int) -> Option<(Seq<u8>, int)> {
    if 0 <= i && i < s.len() && s[i] == QUOTE {
        spec_string_body(s, i + 1)
    } else {
        None
    }
}

/// Four executable hexadecimal digits, equal to [`spec_hex4`].
fn hex4_at(s: &[u8], i: usize) -> (r: Option<u32>)
    requires
        i <= s@.len(),
    ensures
        match r {
            Some(v) => spec_hex4(s@, i as int) == Some(v as int) && v < 0x10000,
            None => spec_hex4(s@, i as int) is None,
        },
{
    if s.len() < 4 || i > s.len() - 4 {
        return None;
    }
    let d0 = hex_val_exec(s[i]);
    let d1 = hex_val_exec(s[i + 1]);
    let d2 = hex_val_exec(s[i + 2]);
    let d3 = hex_val_exec(s[i + 3]);
    match (d0, d1, d2, d3) {
        (Some(a), Some(b), Some(c), Some(d)) => Some(
            (a as u32) * 4096 + (b as u32) * 256 + (c as u32) * 16 + (d as u32),
        ),
        _ => None,
    }
}

/// Executable form of [`hex_val`].
fn hex_val_exec(c: u8) -> (r: Option<u8>)
    ensures
        match r {
            Some(v) => hex_val(c) == Some(v as int) && v < 16,
            None => hex_val(c) is None,
        },
{
    if 48 <= c && c <= 57 {
        Some(c - 48)
    } else if 97 <= c && c <= 102 {
        Some(c - 97 + 10)
    } else if 65 <= c && c <= 70 {
        Some(c - 65 + 10)
    } else {
        None
    }
}

/// Appends the UTF-8 encoding of a scalar value, as [`spec_utf8_of`] gives
/// it.
fn push_utf8(out: &mut Vec<u8>, cp: u32)
    requires
        cp < 0x110000,
    ensures
        final(out)@ == old(out)@ + spec_utf8_of(cp as int),
{
    let ghost pre = out@;
    if cp < 0x80 {
        out.push(cp as u8);
        proof {
            assert(out@ =~= pre + spec_utf8_of(cp as int));
        }
    } else if cp < 0x800 {
        out.push((0xC0 + cp / 64) as u8);
        out.push((0x80 + cp % 64) as u8);
        proof {
            assert(out@ =~= pre + spec_utf8_of(cp as int));
        }
    } else if cp < 0x10000 {
        out.push((0xE0 + cp / 4096) as u8);
        out.push((0x80 + (cp / 64) % 64) as u8);
        out.push((0x80 + cp % 64) as u8);
        proof {
            assert(out@ =~= pre + spec_utf8_of(cp as int));
        }
    } else {
        out.push((0xF0 + cp / 262144) as u8);
        out.push((0x80 + (cp / 4096) % 64) as u8);
        out.push((0x80 + (cp / 64) % 64) as u8);
        out.push((0x80 + cp % 64) as u8);
        proof {
            assert(out@ =~= pre + spec_utf8_of(cp as int));
        }
    }
}

/// Reads a whole JSON string at `i`, exactly as [`spec_parse_string`]
/// describes.
#[verifier::rlimit(60)]
pub fn string_at(s: &[u8], i: usize) -> (r: Option<(Vec<u8>, usize)>)
    requires
        i <= s@.len(),
    ensures
        match r {
            Some((c, j)) => spec_parse_string(s@, i as int) == Some((c@, j as int)) && i < j
                <= s@.len(),
            None => spec_parse_string(s@, i as int) is None,
        },
{
    if i >= s.len() || s[i] != QUOTE {
        return None;
    }
    let start = i + 1;
    let mut cur = start;
    let mut out: Vec<u8> = Vec::new();
    proof {
        if let Some((t, j)) = spec_string_body(s@, start as int) {
            assert(out@ + t =~= t);
        }
    }
    loop
        invariant
            start <= cur <= s@.len(),
            i < s@.len(),
            s@[i as int] == QUOTE,
            start == i + 1,
            match spec_string_body(s@, cur as int) {
                Some((t, j)) => spec_string_body(s@, start as int) == Some((out@ + t, j)),
                None => spec_string_body(s@, start as int) is None,
            },
        decreases s@.len() - cur,
    {
        if cur >= s.len() {
            return None;
        }
        let c = s[cur];
        if c == QUOTE {
            proof {
                assert(spec_string_body(s@, cur as int) == Some(
                    (Seq::<u8>::empty(), cur + 1 as int),
                ));
                assert(out@ + Seq::<u8>::empty() =~= out@);
            }
            return Some((out, cur + 1));
        } else if c == BACKSLASH {
            if s.len() - cur < 2 {
                return None;
            }
            let e = s[cur + 1];
            if e == QUOTE || e == BACKSLASH || e == 47 || e == 98 || e == 102 || e == 110 || e
                == 114 || e == 116 {
                let decoded: u8 = if e == 98 {
                    8
                } else if e == 102 {
                    12
                } else if e == 110 {
                    10
                } else if e == 114 {
                    13
                } else if e == 116 {
                    9
                } else {
                    e
                };
                let ghost pre = out@;
                out.push(decoded);
                proof {
                    lemma_cat_shift(pre, seq![decoded], s@, start as int, (cur + 2) as int);
                    assert(out@ =~= pre + seq![decoded]);
                }
                cur = cur + 2;
            } else if e == 117 {
                if s.len() - cur < 6 {
                    return None;
                }
                match hex4_at(s, cur + 2) {
                    None => {
                        return None;
                    },
                    Some(cp) => {
                        if 0xD800 <= cp && cp < 0xDC00 {
                            if s.len() - cur >= 12 && s[cur + 6] == BACKSLASH && s[cur + 7]
                                == 117 {
                                match hex4_at(s, cur + 8) {
                                    None => {
                                        return None;
                                    },
                                    Some(cp2) => {
                                        if 0xDC00 <= cp2 && cp2 < 0xE000 {
                                            let full: u32 = 0x10000 + (cp - 0xD800) * 0x400 + (
                                            cp2 - 0xDC00);
                                            let ghost pre = out@;
                                            push_utf8(&mut out, full);
                                            proof {
                                                lemma_cat_shift(
                                                    pre,
                                                    spec_utf8_of(full as int),
                                                    s@,
                                                    start as int,
                                                    (cur + 12) as int,
                                                );
                                            }
                                            cur = cur + 12;
                                        } else {
                                            return None;
                                        }
                                    },
                                }
                            } else {
                                return None;
                            }
                        } else if 0xDC00 <= cp && cp < 0xE000 {
                            return None;
                        } else {
                            let ghost pre = out@;
                            push_utf8(&mut out, cp);
                            proof {
                                lemma_cat_shift(
                                    pre,
                                    spec_utf8_of(cp as int),
                                    s@,
                                    start as int,
                                    (cur + 6) as int,
                                );
                            }
                            cur = cur + 6;
                        }
                    },
                }
            } else {
                return None;
            }
        } else if c < 32 {
            return None;
        } else {
            let ghost pre = out@;
            out.push(c);
            proof {
                lemma_cat_shift(pre, seq![c], s@, start as int, (cur + 1) as int);
                assert(out@ =~= pre + seq![c]);
            }
            cur = cur + 1;
        }
    }
}

/// If the body at `next` continues with `piece` prepended, accumulating
/// `piece` onto `acc` keeps the loop relation of [`string_at`].
proof fn lemma_cat_shift(acc: Seq<u8>, piece: Seq<u8>, s: Seq<u8>, start: int, next: int)
    ensures
        match spec_string_body(s, next) {
            Some((t, j)) => acc + (piece + t) =~= (acc + piece) + t,
            None => true,
        },
{
}


/// The first index at or after `a` holding a non-digit byte (or the end of
/// the input).
pub open spec fn spec_digits_end(s: Seq<u8>, a: int) -> int
    decreases s.len() - a,
{
    if 0 <= a && a < s.len() && is_digit(s[a]) {
        spec_digits_end(s, a + 1)
    } else {
        a
    }
}

proof fn lemma_digits_end(s: Seq<u8>, a: int)
    requires
        0 <= a <= s.len(),
    ensures
        a <= spec_digits_end(s, a) <= s.len(),
        forall|k: int| a <= k < spec_digits_end(s, a) ==> is_digit(s[k]),
    decreases s.len() - a,
{
    if a < s.len() && is_digit(s[a]) {
        lemma_digits_end(s, a + 1);
    }
}

/// Executable digit-run end, equal to [`spec_digits_end`].
fn digits_end(s: &[u8], a: usize) -> (r: usize)
    requires
        a <= s@.len(),
    ensures
        r == spec_digits_end(s@, a as int),
        a <= r <= s@.len(),
        a < s@.len() && is_digit(s@[a as int]) ==> r >= a + 1,
{
    proof {
        if a < s@.len() && is_digit(s@[a as int]) {
            lemma_digits_end(s@, a + 1 as int);
            assert(spec_digits_end(s@, a as int) == spec_digits_end(s@, a + 1 as int));
        }
    }
    let mut j = a;
    while j < s.len() && 48 <= s[j] && s[j] <= 57
        invariant
            a <= j <= s@.len(),
            spec_digits_end(s@, a as int) == spec_digits_end(s@, j as int),
        decreases s@.len() - j,
    {
        j = j + 1;
    }
    j
}

/// The numeric value of the digit run `s[a..b]`.
pub open spec fn spec_digits_val(s: Seq<u8>, a: int, b: int) -> int
    decreases b - a,
{
    if a >= b {
        0
    } else {
        spec_digits_val(s, a, b - 1) * 10 + (s[b - 1] - 48)
    }
}

proof fn lemma_digits_val_nonneg(s: Seq<u8>, a: int, b: int)
    requires
        forall|k: int| a <= k < b ==> is_digit(s[k]),
    ensures
        spec_digits_val(s, a, b) >= 0,
    decreases b - a,
{
    if a < b {
        lemma_digits_val_nonneg(s, a, b - 1);
    }
}

/// The end of the optional fraction part starting at `k`.
pub open spec fn spec_frac_end(s: Seq<u8>, k: int) -> Option<int> {
    if 0 <= k && k < s.len() && s[k] == 46 {
        if k + 1 < s.len() && is_digit(s[k + 1]) {
            Some(spec_digits_end(s, k + 1))
        } else {
            None
        }
    } else {
        Some(k)
    }
}

/// The end of the optional exponent part starting at `k`.
pub open spec fn spec_exp_end(s: Seq<u8>, k: int) -> Option<int> {
    if 0 <= k && k < s.len() && (s[k] == 101 || s[k] == 69) {
        let m = if k + 1 < s.len() && (s[k + 1] == 43 || s[k + 1] == 45) {
            k + 2
        } else {
            k + 1
        };
        if m < s.len() && is_digit(s[m]) {
            Some(spec_digits_end(s, m))
        } else {
            None
        }
    } else {
        Some(k)
    }
}

/// The index just past a JSON number starting at `i`, or `None` if no valid
/// number starts there.
pub open spec fn spec_number_end(s: Seq<u8>, i: int) -> Option<int> {
    if i < 0 || i >= s.len() {
        None
    } else {
        let j = if s[i] == MINUS {
            i + 1
        } else {
            i
        };
        if j >= s.len() || !is_digit(s[j]) {
            None
        } else {
            let k = if s[j] == 48 {
                j + 1
            } else {
                spec_digits_end(s, j)
            };
            match spec_frac_end(s, k) {
                None => None,
                Some(k2) => spec_exp_end(s, k2),
            }
        }
    }
}

/// The `u64` a number denotes, if it is a plain non-negative integer that
/// fits; `None` for negative numbers, fractions, exponents and overflow.
pub open spec fn spec_number_u64(s: Seq<u8>, i: int, end: int) -> Option<u64> {
    if 0 <= i && i < s.len() && s[i] != MINUS && spec_digits_end(s, i) == end
        && spec_digits_val(s, i, end) <= u64::MAX {
        Some(spec_digits_val(s, i, end) as u64)
    } else {
        None
    }
}

/// A whole JSON number at `i`: its raw text, its `u64` value when it has
/// one, and the index just past it.
pub open spec fn spec_number(s: Seq<u8>, i: int) -> Option<(Seq<u8>, Option<u64>, int)> {
    match spec_number_end(s, i) {
        None => None,
        Some(end) => Some((s.subrange(i, end), spec_number_u64(s, i, end), end)),
    }
}

/// Reads a whole JSON number at `i`, exactly as [`spec_number`] describes.
#[verifier::rlimit(60)]
pub fn number_at(s: &[u8], i: usize) -> (r: Option<(Vec<u8>, Option<u64>, usize)>)
    requires
        i <= s@.len(),
    ensures
        match r {
            Some((raw, iv, end)) => spec_number(s@, i as int) == Some((raw@, iv, end as int)) && i
                < end <= s@.len(),
            None => spec_number(s@, i as int) is None,
        },
{
    if i >= s.len() {
        return None;
    }
    let j = if s[i] == MINUS {
        i + 1
    } else {
        i
    };
    if j >= s.len() || !(48 <= s[j] && s[j] <= 57) {
        return None;
    }
    let k = if s[j] == 48 {
        j + 1
    } else {
        digits_end(s, j)
    };
    let k2: usize;
    if k < s.len() && s[k] == 46 {
        if k + 1 < s.len() && 48 <= s[k + 1] && s[k + 1] <= 57 {
            k2 = digits_end(s, k + 1);
        } else {
            return None;
        }
    } else {
        k2 = k;
    }
    let end: usize;
    if k2 < s.len() && (s[k2] == 101 || s[k2] == 69) {
        let m = if k2 + 1 < s.len() && (s[k2 + 1] == 43 || s[k2 + 1] == 45) {
            k2 + 2
        } else {
            k2 + 1
        };
        if m < s.len() && 48 <= s[m] && s[m] <= 57 {
            end = digits_end(s, m);
        } else {
            return None;
        }
    } else {
        end = k2;
    }
    let raw = vstd::slice::slice_to_vec(vstd::slice::slice_subrange(s, i, end));
    let de = digits_end(s, i);
    let iv: Option<u64>;
    if s[i] != MINUS && de == end {
        proof {
            lemma_digits_end(s@, i as int);
        }
        let mut acc: u64 = 0;
        let mut ov: bool = false;
        let mut a = i;
        while a < end
            invariant
                i <= a <= end <= s@.len(),
                end == spec_digits_end(s@, i as int),
                forall|q: int| i <= q < end ==> is_digit(s@[q]),
                !ov ==> acc == spec_digits_val(s@, i as int, a as int),
                ov ==> spec_digits_val(s@, i as int, a as int) > u64::MAX,
            decreases end - a,
        {
            let d = s[a] - 48;
            proof {
                if ov {
                    lemma_digits_val_nonneg(s@, i as int, a as int);
                }
            }
            if !ov {
                if acc > (u64::MAX - d as u64) / 10 {
                    proof {
                        let q = (u64::MAX - d) as int / 10;
                        assert(q * 10 + (u64::MAX - d) as int % 10 == (u64::MAX - d) as int);
                        assert(acc * 10 >= q * 10 + 10);
                    }
                    ov = true;
                } else {
                    proof {
                        let q = (u64::MAX - d) as int / 10;
                        assert(q * 10 + (u64::MAX - d) as int % 10 == (u64::MAX - d) as int);
                        assert(acc * 10 <= q * 10);
                    }
                    acc = acc * 10 + d as u64;
                }
            }
            a = a + 1;
        }
        if ov {
            iv = None;
        } else {
            iv = Some(acc);
        }
    } else {
        iv = None;
    }
    Some((raw, iv, end))
}


/// The index just past the JSON value starting at `i`, with at most `depth`
/// further nesting levels allowed.
pub open spec fn spec_value_end(s: Seq<u8>, i: int, depth: nat) -> Option<int>
    decreases depth, s.len() - i, 0int,
{
    if i < 0 || i >= s.len() {
        None
    } else {
        let c = s[i];
        if c == QUOTE {
            match spec_string_body(s, i + 1) {
                Some((t, j)) => Some(j),
                None => None,
            }
        } else if c == LBRACE {
            if depth == 0 {
                None
            } else {
                match spec_obj_members(s, i + 1, (depth - 1) as nat, true) {
                    Some((m, j)) => Some(j),
                    None => None,
                }
            }
        } else if c == LBRACK {
            if depth == 0 {
                None
            } else {
                match spec_arr_elems(s, i + 1, (depth - 1) as nat, true) {
                    Some((m, j)) => Some(j),
                    None => None,
                }
            }
        } else if c == 116 {
            if i + 4 <= s.len() && s[i + 1] == 114 && s[i + 2] == 117 && s[i + 3] == 101 {
                Some(i + 4)
            } else {
                None
            }
        } else if c == 102 {
            if i + 5 <= s.len() && s[i + 1] == 97 && s[i + 2] == 108 && s[i + 3] == 115 && s[i + 4]
                == 101 {
                Some(i + 5)
            } else {
                None
            }
        } else if c == 110 {
            if i + 4 <= s.len() && s[i + 1] == 117 && s[i + 2] == 108 && s[i + 3] == 108 {
                Some(i + 4)
            } else {
                None
            }
        } else {
            spec_number_end(s, i)
        }
    }
}

/// The members of a JSON object: each decoded key with the offset at which
/// its value starts, and the index just past the closing brace. `i` is just
/// past the opening brace when `first` holds, else just past a comma.
pub open spec fn spec_obj_members(s: Seq<u8>, i: int, depth: nat, first: bool) -> Option<
    (Seq<(Seq<u8>, int)>, int),
>
    decreases depth, s.len() - i, 1int,
{
    let j = spec_skip_ws(s, i);
    if j < i || j >= s.len() {
        None
    } else if first && s[j] == RBRACE {
        Some((Seq::empty(), j + 1))
    } else if s[j] == QUOTE {
        match spec_string_body(s, j + 1) {
            None => None,
            Some((key, after_key)) => {
                if after_key <= j {
                    None
                } else {
                    let k = spec_skip_ws(s, after_key);
                    if k < after_key || k >= s.len() || s[k] != COLON {
                        None
                    } else {
                        let m = spec_skip_ws(s, k + 1);
                        if m <= k || m > s.len() {
                            None
                        } else {
                            match spec_value_end(s, m, depth) {
                                None => None,
                                Some(v_end) => {
                                    if v_end <= m {
                                        None
                                    } else {
                                        let t = spec_skip_ws(s, v_end);
                                        if t < v_end {
                                            None
                                        } else if t < s.len() && s[t] == COMMA {
                                            match spec_obj_members(s, t + 1, depth, false) {
                                                None => None,
                                                Some((rest, end)) => Some(
                                                    (seq![(key, m)] + rest, end),
                                                ),
                                            }
                                        } else if t < s.len() && s[t] == RBRACE {
                                            Some((seq![(key, m)], t + 1))
                                        } else {
                                            None
                                        }
                                    }
                                },
                            }
                        }
                    }
                }
            },
        }
    } else {
        None
    }
}

/// The elements of a JSON array: the offset at which each element starts,
/// and the index just past the closing bracket. `i` is just past the opening
/// bracket when `first` holds, else just past a comma.
pub open spec fn spec_arr_elems(s: Seq<u8>, i: int, depth: nat, first: bool) -> Option<
    (Seq<int>, int),
>
    decreases depth, s.len() - i, 1int,
{
    let j = spec_skip_ws(s, i);
    if j < i || j >= s.len() {
        None
    } else if first && s[j] == RBRACK {
        Some((Seq::empty(), j + 1))
    } else {
        match spec_value_end(s, j, depth) {
            None => None,
            Some(v_end) => {
                if v_end <= j {
                    None
                } else {
                    let t = spec_skip_ws(s, v_end);
                    if t < v_end {
                        None
                    } else if t < s.len() && s[t] == COMMA {
                        match spec_arr_elems(s, t + 1, depth, false) {
                            None => None,
                            Some((rest, end)) => Some((seq![j] + rest, end)),
                        }
                    } else if t < s.len() && s[t] == RBRACK {
                        Some((seq![j], t + 1))
                    } else {
                        None
                    }
                }
            },
        }
    }
}

/// The members of a `Vec`-held object listing, as the specification sees
/// them.
pub open spec fn members_view(m: Seq<(Vec<u8>, usize)>) -> Seq<(Seq<u8>, int)> {
    m.map_values(|p: (Vec<u8>, usize)| (p.0@, p.1 as int))
}

/// Array element offsets, as the specification sees them.
pub open spec fn elems_view(m: Seq<usize>) -> Seq<int> {
    m.map_values(|p: usize| p as int)
}

/// Skips the JSON value starting at `i`, exactly as [`spec_value_end`]
/// describes.
pub fn skip_value_at(s: &[u8], i: usize, depth: u32) -> (r: Option<usize>)
    requires
        i <= s@.len(),
    ensures
        match r {
            Some(j) => spec_value_end(s@, i as int, depth as nat) == Some(j as int) && i < j
                <= s@.len(),
            None => spec_value_end(s@, i as int, depth as nat) is None,
        },
    decreases depth, s@.len() - i, 0int,
{
    if i >= s.len() {
        return None;
    }
    let c = s[i];
    if c == QUOTE {
        match string_at(s, i) {
            Some((_, j)) => Some(j),
            None => None,
        }
    } else if c == LBRACE {
        if depth == 0 {
            None
        } else {
            match obj_members_at(s, i + 1, depth - 1, true) {
                Some((_, j)) => Some(j),
                None => None,
            }
        }
    } else if c == LBRACK {
        if depth == 0 {
            None
        } else {
            match arr_elems_at(s, i + 1, depth - 1, true) {
                Some((_, j)) => Some(j),
                None => None,
            }
        }
    } else if c == 116 {
        if s.len() - i >= 4 && s[i + 1] == 114 && s[i + 2] == 117 && s[i + 3] == 101 {
            Some(i + 4)
        } else {
            None
        }
    } else if c == 102 {
        if s.len() - i >= 5 && s[i + 1] == 97 && s[i + 2] == 108 && s[i + 3] == 115 && s[i + 4]
            == 101 {
            Some(i + 5)
        } else {
            None
        }
    } else if c == 110 {
        if s.len() - i >= 4 && s[i + 1] == 117 && s[i + 2] == 108 && s[i + 3] == 108 {
            Some(i + 4)
        } else {
            None
        }
    } else {
        match number_at(s, i) {
            Some((_, _, end)) => Some(end),
            None => None,
        }
    }
}

/// Reads an object's members starting at `i`, exactly as
/// [`spec_obj_members`] describes.
#[verifier::rlimit(60)]
pub fn obj_members_at(s: &[u8], i: usize, depth: u32, first: bool) -> (r: Option<
    (Vec<(Vec<u8>, usize)>, usize),
>)
    requires
        i <= s@.len(),
    ensures
        match r {
            Some((m, end)) => spec_obj_members(s@, i as int, depth as nat, first) == Some(
                (members_view(m@), end as int),
            ) && i < end <= s@.len() && forall|k: int|
                0 <= k < m@.len() ==> (#[trigger] m@[k]).1 < s@.len(),
            None => spec_obj_members(s@, i as int, depth as nat, first) is None,
        },
    decreases depth, s@.len() - i, 1int,
{
    let j = ws_end(s, i);
    if j >= s.len() {
        return None;
    }
    if first && s[j] == RBRACE {
        let empty: Vec<(Vec<u8>, usize)> = Vec::new();
        proof {
            assert(members_view(empty@) =~= Seq::<(Seq<u8>, int)>::empty());
        }
        return Some((empty, j + 1));
    }
    if s[j] != QUOTE {
        return None;
    }
    match string_at(s, j) {
        None => None,
        Some((key, after_key)) => {
            let k = ws_end(s, after_key);
            if k >= s.len() || s[k] != COLON {
                return None;
            }
            let m = ws_end(s, k + 1);
            match skip_value_at(s, m, depth) {
                None => None,
                Some(v_end) => {
                    let t = ws_end(s, v_end);
                    if t < s.len() && s[t] == COMMA {
                        match obj_members_at(s, t + 1, depth, false) {
                            None => None,
                            Some((rest, end)) => {
                                let ghost rest0 = rest@;
                                let mut out = rest;
                                out.insert(0, (key, m));
                                proof {
                                    assert(members_view(out@) =~= seq![(key@, m as int)]
                                        + members_view(rest0));
                                }
                                Some((out, end))
                            },
                        }
                    } else if t < s.len() && s[t] == RBRACE {
                        let mut one: Vec<(Vec<u8>, usize)> = Vec::new();
                        one.push((key, m));
                        proof {
                            assert(members_view(one@) =~= seq![(key@, m as int)]);
                        }
                        Some((one, t + 1))
                    } else {
                        None
                    }
                },
            }
        },
    }
}

/// Reads an array's element offsets starting at `i`, exactly as
/// [`spec_arr_elems`] describes.
#[verifier::rlimit(60)]
pub fn arr_elems_at(s: &[u8], i: usize, depth: u32, first: bool) -> (r: Option<
    (Vec<usize>, usize),
>)
    requires
        i <= s@.len(),
    ensures
        match r {
            Some((m, end)) => spec_arr_elems(s@, i as int, depth as nat, first) == Some(
                (elems_view(m@), end as int),
            ) && i < end <= s@.len() && forall|k: int|
                0 <= k < m@.len() ==> #[trigger] m@[k] < s@.len(),
            None => spec_arr_elems(s@, i as int, depth as nat, first) is None,
        },
    decreases depth, s@.len() - i, 1int,
{
    let j = ws_end(s, i);
    if j >= s.len() {
        return None;
    }
    if first && s[j] == RBRACK {
        let empty: Vec<usize> = Vec::new();
        proof {
            assert(elems_view(empty@) =~= Seq::<int>::empty());
        }
        return Some((empty, j + 1));
    }
    match skip_value_at(s, j, depth) {
        None => None,
        Some(v_end) => {
            let t = ws_end(s, v_end);
            if t < s.len() && s[t] == COMMA {
                match arr_elems_at(s, t + 1, depth, false) {
                    None => None,
                    Some((rest, end)) => {
                        let ghost rest0 = rest@;
                        let mut out = rest;
                        out.insert(0, j);
                        proof {
                            assert(elems_view(out@) =~= seq![j as int] + elems_view(rest0));
                        }
                        Some((out, end))
                    },
                }
            } else if t < s.len() && s[t] == RBRACK {
                let mut one: Vec<usize> = Vec::new();
                one.push(j);
                proof {
                    assert(elems_view(one@) =~= seq![j as int]);
                }
                Some((one, t + 1))
            } else {
                None
            }
        },
    }
}


/// The decoded contents of a string value starting at `i`.
pub open spec fn spec_string_value(s: Seq<u8>, i: int) -> Option<Seq<u8>> {
    match spec_parse_string(s, i) {
        Some((c, j)) => Some(c),
        None => None,
    }
}

/// Reads a string value at `i`, exactly as [`spec_string_value`] describes.
pub fn string_value_at(s: &[u8], i: usize) -> (r: Option<Vec<u8>>)
    requires
        i <= s@.len(),
    ensures
        match r {
            Some(v) => spec_string_value(s@, i as int) == Some(v@),
            None => spec_string_value(s@, i as int) is None,
        },
{
    match string_at(s, i) {
        Some((c, _)) => Some(c),
        None => None,
    }
}

/// The `u64` denoted by a number value starting at `i`; `None` when the
/// value is not a plain non-negative integer fitting `u64`.
pub open spec fn spec_u64_value(s: Seq<u8>, i: int) -> Option<u64> {
    match spec_number(s, i) {
        Some((raw, iv, j)) => iv,
        None => None,
    }
}

/// Reads a `u64` value at `i`, exactly as [`spec_u64_value`] describes.
pub fn u64_value_at(s: &[u8], i: usize) -> (r: Option<u64>)
    requires
        i <= s@.len(),
    ensures
        r == spec_u64_value(s@, i as int),
{
    match number_at(s, i) {
        Some((_, iv, _)) => iv,
        None => None,
    }
}

/// The raw text of a number value starting at `i`.
pub open spec fn spec_number_text(s: Seq<u8>, i: int) -> Option<Seq<u8>> {
    match spec_number(s, i) {
        Some((raw, iv, j)) => Some(raw),
        None => None,
    }
}

/// Reads a number's raw text at `i`, exactly as [`spec_number_text`]
/// describes.
pub fn number_text_at(s: &[u8], i: usize) -> (r: Option<Vec<u8>>)
    requires
        i <= s@.len(),
    ensures
        match r {
            Some(v) => spec_number_text(s@, i as int) == Some(v@),
            None => spec_number_text(s@, i as int) is None,
        },
{
    match number_at(s, i) {
        Some((raw, _, _)) => Some(raw),
        None => None,
    }
}

/// The raw text of a scalar value (string, number, `true`, `false`,
/// `null`) starting at `i`; `None` for objects, arrays and malformed input.
pub open spec fn spec_scalar_text(s: Seq<u8>, i: int) -> Option<Seq<u8>> {
    if 0 <= i && i < s.len() && s[i] != LBRACE && s[i] != LBRACK {
        match spec_value_end(s, i, 0) {
            Some(j) => Some(s.subrange(i, j)),
            None => None,
        }
    } else {
        None
    }
}

/// Reads a scalar value's raw text at `i`, exactly as [`spec_scalar_text`]
/// describes.
pub fn scalar_text_at(s: &[u8], i: usize) -> (r: Option<Vec<u8>>)
    requires
        i <= s@.len(),
    ensures
        match r {
            Some(v) => spec_scalar_text(s@, i as int) == Some(v@),
            None => spec_scalar_text(s@, i as int) is None,
        },
{
    if i >= s.len() || s[i] == LBRACE || s[i] == LBRACK {
        return None;
    }
    match skip_value_at(s, i, 0) {
        Some(j) => Some(vstd::slice::slice_to_vec(vstd::slice::slice_subrange(s, i, j))),
        None => None,
    }
}

/// The members of an object value starting at `i`.
pub open spec fn spec_obj_value_members(s: Seq<u8>, i: int) -> Option<Seq<(Seq<u8>, int)>> {
    if 0 <= i && i < s.len() && s[i] == LBRACE {
        match spec_obj_members(s, i + 1, DEPTH_BUDGET as nat, true) {
            Some((m, end)) => Some(m),
            None => None,
        }
    } else {
        None
    }
}

/// Reads the members of an object value at `i`, exactly as
/// [`spec_obj_value_members`] describes.
pub fn obj_value_members_at(s: &[u8], i: usize) -> (r: Option<Vec<(Vec<u8>, usize)>>)
    requires
        i <= s@.len(),
    ensures
        match r {
            Some(m) => spec_obj_value_members(s@, i as int) == Some(members_view(m@)) && forall|
                k: int,
            |
                0 <= k < m@.len() ==> (#[trigger] m@[k]).1 < s@.len(),
            None => spec_obj_value_members(s@, i as int) is None,
        },
{
    if i >= s.len() || s[i] != LBRACE {
        return None;
    }
    match obj_members_at(s, i + 1, DEPTH_BUDGET, true) {
        Some((m, _)) => Some(m),
        None => None,
    }
}

/// The element offsets of an array value starting at `i`.
pub open spec fn spec_arr_value_elems(s: Seq<u8>, i: int) -> Option<Seq<int>> {
    if 0 <= i && i < s.len() && s[i] == LBRACK {
        match spec_arr_elems(s, i + 1, DEPTH_BUDGET as nat, true) {
            Some((m, end)) => Some(m),
            None => None,
        }
    } else {
        None
    }
}

/// Reads the element offsets of an array value at `i`, exactly as
/// [`spec_arr_value_elems`] describes.
pub fn arr_value_elems_at(s: &[u8], i: usize) -> (r: Option<Vec<usize>>)
    requires
        i <= s@.len(),
    ensures
        match r {
            Some(m) => spec_arr_value_elems(s@, i as int) == Some(elems_view(m@)) && forall|k: int|
                0 <= k < m@.len() ==> #[trigger] m@[k] < s@.len(),
            None => spec_arr_value_elems(s@, i as int) is None,
        },
{
    if i >= s.len() || s[i] != LBRACK {
        return None;
    }
    match arr_elems_at(s, i + 1, DEPTH_BUDGET, true) {
        Some((m, _)) => Some(m),
        None => None,
    }
}

/// The members of a whole document: leading whitespace, one top-level
/// object, trailing whitespace, nothing else.
pub open spec fn spec_doc_members(s: Seq<u8>) -> Option<Seq<(Seq<u8>, int)>> {
    let j = spec_skip_ws(s, 0);
    if 0 <= j && j < s.len() && s[j] == LBRACE {
        match spec_obj_members(s, j + 1, DEPTH_BUDGET as nat, true) {
            Some((m, end)) => if spec_skip_ws(s, end) == s.len() {
                Some(m)
            } else {
                None
            },
            None => None,
        }
    } else {
        None
    }
}

/// Reads a whole document's top-level members, exactly as
/// [`spec_doc_members`] describes.
pub fn doc_members(s: &[u8]) -> (r: Option<Vec<(Vec<u8>, usize)>>)
    ensures
        match r {
            Some(m) => spec_doc_members(s@) == Some(members_view(m@)) && forall|k: int|
                0 <= k < m@.len() ==> (#[trigger] m@[k]).1 < s@.len(),
            None => spec_doc_members(s@) is None,
        },
{
    let j = ws_end(s, 0);
    if j >= s.len() || s[j] != LBRACE {
        return None;
    }
    match obj_members_at(s, j + 1, DEPTH_BUDGET, true) {
        None => None,
        Some((m, end)) => {
            let tail = ws_end(s, end);
            if tail == s.len() {
                Some(m)
            } else {
                None
            }
        },
    }
}

/// The value offset of the first member whose key equals `key`.
pub open spec fn spec_find_key(m: Seq<(Seq<u8>, int)>, key: Seq<u8>) -> Option<int>
    decreases m.len(),
{
    if m.len() == 0 {
        None
    } else if m[0].0 == key {
        Some(m[0].1)
    } else {
        spec_find_key(m.drop_first(), key)
    }
}

/// Byte-for-byte equality of two slices.
pub fn bytes_eq(a: &[u8], b: &[u8]) -> (r: bool)
    ensures
        r <==> a@ == b@,
{
    if a.len() != b.len() {
        return false;
    }
    let mut q: usize = 0;
    while q < a.len()
        invariant
            q <= a@.len(),
            a@.len() == b@.len(),
            forall|w: int| 0 <= w < q ==> a@[w] == b@[w],
        decreases a@.len() - q,
    {
        if a[q] != b[q] {
            return false;
        }
        q = q + 1;
    }
    proof {
        assert(a@ =~= b@);
    }
    true
}

/// Finds the first member with the given key, exactly as [`spec_find_key`]
/// describes.
pub fn find_key(m: &Vec<(Vec<u8>, usize)>, key: &[u8]) -> (r: Option<usize>)
    ensures
        match r {
            Some(p) => spec_find_key(members_view(m@), key@) == Some(p as int) && exists|k: int|
                0 <= k < m@.len() && (#[trigger] m@[k]).1 == p,
            None => spec_find_key(members_view(m@), key@) is None,
        },
{
    let mut q: usize = 0;
    proof {
        assert(members_view(m@).skip(0) =~= members_view(m@));
    }
    while q < m.len()
        invariant
            q <= m@.len(),
            spec_find_key(members_view(m@), key@) == spec_find_key(
                members_view(m@).skip(q as int),
                key@,
            ),
        decreases m@.len() - q,
    {
        let p = &m[q];
        proof {
            assert(members_view(m@).skip(q as int)[0] == (m@[q as int].0@, m@[q as int].1 as int));
        }
        if bytes_eq(p.0.as_slice(), key) {
            return Some(p.1);
        }
        proof {
            assert(members_view(m@).skip(q as int).drop_first() =~= members_view(m@).skip(
                q + 1 as int,
            ));
        }
        q = q + 1;
    }
    proof {
        assert(members_view(m@).skip(m@.len() as int) =~= Seq::<(Seq<u8>, int)>::empty());
    }
    None
}

} // verus!
