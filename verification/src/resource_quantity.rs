//! Parsing of resource quantity strings for comparison: CPU to
//! millicores, memory to bytes. Plain decimal forms only — a quantity
//! with an exponent or other exotic float syntax is rejected.

use vstd::prelude::*;

use crate::text::{spec_trim_ws, to_chars, trim_ws};

verus! {

pub open spec fn spec_is_digit(c: char) -> bool {
    '0' <= c && c <= '9'
}

pub open spec fn spec_digit(c: char) -> int {
    c as int - '0' as int
}

pub open spec fn spec_all_digits(s: Seq<char>) -> bool {
    forall|j: int| 0 <= j < s.len() ==> spec_is_digit(#[trigger] s[j])
}

/// Value of a digit string.
pub open spec fn spec_digits_val(s: Seq<char>) -> int
    decreases s.len(),
{
    if s.len() == 0 {
        0
    } else {
        spec_digits_val(s.drop_last()) * 10 + spec_digit(s.last())
    }
}

/// The sign factor and digit part of a signed number string.
pub open spec fn spec_sign_of(s: Seq<char>) -> int {
    if s.len() > 0 && s[0] == '-' {
        -1
    } else {
        1
    }
}

pub open spec fn spec_digits_of(s: Seq<char>) -> Seq<char> {
    if s.len() > 0 && (s[0] == '-' || s[0] == '+') {
        s.skip(1)
    } else {
        s
    }
}

/// Whether `s` is a plain signed integer: an optional sign and at least
/// one digit.
pub open spec fn spec_is_int_str(s: Seq<char>) -> bool {
    &&& spec_digits_of(s).len() > 0
    &&& spec_all_digits(spec_digits_of(s))
}

/// The integer a plain signed number string denotes.
pub open spec fn spec_int_val(s: Seq<char>) -> int {
    spec_sign_of(s) * spec_digits_val(spec_digits_of(s))
}

pub open spec fn spec_fits_i64(v: int) -> bool {
    i64::MIN <= v <= i64::MAX
}

/// Ten to the `k`.
pub open spec fn spec_pow10(k: nat) -> int
    decreases k,
{
    if k == 0 {
        1
    } else {
        10 * spec_pow10((k - 1) as nat)
    }
}

/// The value of the digit string `S` scaled by ten to the `shift`:
/// trailing zeros appended for a positive shift, the last `-shift` digits
/// cut off for a negative one (truncation toward zero of the magnitude).
pub open spec fn spec_shift_val(s: Seq<char>, shift: int) -> int {
    if shift >= 0 {
        spec_digits_val(s) * spec_pow10(shift as nat)
    } else if s.len() + shift <= 0 {
        0
    } else {
        spec_digits_val(s.take(s.len() + shift))
    }
}

/// `v` clamped to the `i64` range, the way an `as` conversion clamps.
pub open spec fn spec_sat_i64(v: int) -> i64 {
    if v > i64::MAX {
        i64::MAX
    } else if v < i64::MIN {
        i64::MIN
    } else {
        v as i64
    }
}

/// The exponent of a float string: an optional sign and at least one
/// digit, as for the mantissa sign.
pub open spec fn spec_is_exp_str(x: Seq<char>) -> bool {
    spec_digits_of(x).len() > 0 && spec_all_digits(spec_digits_of(x))
}

pub open spec fn spec_exp_val(x: Seq<char>) -> int {
    spec_sign_of(x) * spec_digits_val(spec_digits_of(x))
}

/// Whether the mantissa is well formed: digits with at most one point
/// and at least one digit in all.
pub open spec fn spec_mantissa_ok(m: Seq<char>) -> bool {
    let dot = crate::text::spec_find_char(m, '.');
    let ip = if dot < 0 {
        m
    } else {
        m.take(dot)
    };
    let fp = if dot < 0 {
        Seq::<char>::empty()
    } else {
        m.skip(dot + 1)
    };
    spec_all_digits(ip) && spec_all_digits(fp) && ip.len() + fp.len() > 0
}

/// The mantissa's digits, the point dropped.
pub open spec fn spec_mantissa_digits(m: Seq<char>) -> Seq<char> {
    let dot = crate::text::spec_find_char(m, '.');
    if dot < 0 {
        m
    } else {
        m.take(dot) + m.skip(dot + 1)
    }
}

/// How many of the mantissa's digits stand after the point.
pub open spec fn spec_frac_len(m: Seq<char>) -> int {
    let dot = crate::text::spec_find_char(m, '.');
    if dot < 0 {
        0
    } else {
        m.len() - dot - 1
    }
}

/// The thousandth-units a float-form quantity denotes, clamped to `i64`
/// the way a float-to-integer conversion clamps: None when the text is
/// not a float at all. The grammar is the plain float one — an optional
/// sign, then `inf`, `infinity` or `nan` (any case), or digits with at
/// most one point and an optional `e`/`E` exponent — with the value
/// computed in exact decimal arithmetic, truncated toward zero.
pub open spec fn spec_float_milli(t: Seq<char>) -> Option<i64> {
    let neg = spec_sign_of(t) < 0;
    let l = crate::text::spec_to_lower(spec_digits_of(t));
    if l == "inf"@ || l == "infinity"@ {
        Some(
            if neg {
                i64::MIN
            } else {
                i64::MAX
            },
        )
    } else if l == "nan"@ {
        Some(0)
    } else {
        let e = crate::text::spec_find_char(l, 'e');
        let m = if e < 0 {
            l
        } else {
            l.take(e)
        };
        let exp = if e < 0 {
            0int
        } else {
            spec_exp_val(l.skip(e + 1))
        };
        if spec_mantissa_ok(m) && (e < 0 || spec_is_exp_str(l.skip(e + 1))) {
            let magnitude = spec_shift_val(
                spec_mantissa_digits(m),
                exp + 3 - spec_frac_len(m),
            );
            Some(
                spec_sat_i64(
                    if neg {
                        -magnitude
                    } else {
                        magnitude
                    },
                ),
            )
        } else {
            None
        }
    }
}

/// The millicores a CPU quantity string denotes: a trailing `m` marks
/// whole millicores; anything else is read as cores in float form (plain
/// decimal, exponent, `inf` or `nan`), scaled by a thousand, truncated
/// toward zero and clamped to the `i64` range; None for a malformed
/// quantity.
pub open spec fn spec_parse_cpu(s: Seq<char>) -> Option<i64> {
    let t = spec_trim_ws(s);
    if t.len() == 0 {
        None
    } else if t.last() == 'm' && spec_is_int_str(t.drop_last()) && spec_fits_i64(
        spec_int_val(t.drop_last()),
    ) {
        Some(spec_int_val(t.drop_last()) as i64)
    } else {
        spec_float_milli(t)
    }
}

/// The bytes a memory quantity string denotes: every `i` dropped, then a
/// binary suffix K, M, G, T or P scales a whole number; no suffix reads
/// the whole number as bytes; out of range or malformed gives None.
pub open spec fn spec_parse_memory(s: Seq<char>) -> Option<i64> {
    let t = spec_trim_ws(s);
    if t.len() == 0 {
        None
    } else {
        let u = t.filter(|c: char| c != 'i');
        let unit = spec_memory_unit(u);
        if unit > 1 {
            let num = u.drop_last();
            if spec_is_int_str(num) && spec_fits_i64(spec_int_val(num) * unit) {
                Some((spec_int_val(num) * unit) as i64)
            } else {
                None
            }
        } else if spec_is_int_str(u) && spec_fits_i64(spec_int_val(u)) {
            Some(spec_int_val(u) as i64)
        } else {
            None
        }
    }
}

/// The scale of a trailing binary suffix, 1 when there is none.
pub open spec fn spec_memory_unit(u: Seq<char>) -> int {
    if u.len() == 0 {
        1
    } else if u.last() == 'K' {
        0x400
    } else if u.last() == 'M' {
        0x100000
    } else if u.last() == 'G' {
        0x40000000
    } else if u.last() == 'T' {
        0x10000000000
    } else if u.last() == 'P' {
        0x4000000000000
    } else {
        1
    }
}

proof fn lemma_digits_val_nonneg(s: Seq<char>)
    requires
        spec_all_digits(s),
    ensures
        spec_digits_val(s) >= 0,
    decreases s.len(),
{
    if s.len() > 0 {
        assert(spec_all_digits(s.drop_last())) by {
            assert(forall|j: int| 0 <= j < s.len() - 1 ==> spec_is_digit(#[trigger] s[j]));
        }
        lemma_digits_val_nonneg(s.drop_last());
        assert(spec_digits_val(s.drop_last()) * 10 >= 0) by (nonlinear_arith)
            requires
                spec_digits_val(s.drop_last()) >= 0,
        ;
    }
}

/// Appending digits never shrinks the value.
proof fn lemma_digits_val_prefix(s: Seq<char>, k: int)
    requires
        spec_all_digits(s),
        0 <= k <= s.len(),
    ensures
        spec_digits_val(s) >= spec_digits_val(s.take(k)),
    decreases s.len() - k,
{
    if k < s.len() {
        lemma_digits_val_prefix(s, k + 1);
        assert(s.take(k + 1).drop_last() == s.take(k));
        assert(s.take(k + 1).last() == s[k]);
        assert(spec_all_digits(s.take(k))) by {
            assert(forall|j: int| 0 <= j < k ==> #[trigger] s.take(k)[j] == s[j]);
        }
        lemma_digits_val_nonneg(s.take(k));
        assert(spec_digits_val(s.take(k)) * 10 >= spec_digits_val(s.take(k))) by (nonlinear_arith)
            requires
                spec_digits_val(s.take(k)) >= 0,
        ;
    } else {
        assert(s.take(k) == s);
    }
}

/// Value of an all-digit segment, or None as soon as it leaves the `u64`
/// range or holds a non-digit.
fn digits_value(v: &Vec<char>, from: usize, to: usize) -> (r: Option<u64>)
    requires
        from <= to <= v@.len(),
    ensures
        (match r {
            Some(n) => spec_all_digits(v@.subrange(from as int, to as int)) && n
                == spec_digits_val(v@.subrange(from as int, to as int)) && to > from,
            None => to == from || !spec_all_digits(v@.subrange(from as int, to as int))
                || spec_digits_val(v@.subrange(from as int, to as int)) > u64::MAX,
        }),
{
    if to == from {
        return None;
    }
    let ghost whole = v@.subrange(from as int, to as int);
    let mut acc: u64 = 0;
    let mut i: usize = from;
    while i < to
        invariant
            from <= i <= to <= v@.len(),
            whole == v@.subrange(from as int, to as int),
            spec_all_digits(whole.take(i - from)),
            acc == spec_digits_val(whole.take(i - from)),
        decreases to - i,
    {
        let c = v[i];
        if !('0' <= c && c <= '9') {
            proof {
                assert(whole[i - from] == c);
                assert(!spec_all_digits(whole));
            }
            return None;
        }
        let d: u64 = (c as u32 as u64) - 0x30;
        proof {
            assert(whole.take(i - from + 1).drop_last() == whole.take(i - from));
            assert(whole.take(i - from + 1).last() == whole[i - from]);
            lemma_digits_val_nonneg(whole.take(i - from));
        }
        if acc > 0x1999_9999_9999_9999 || (acc == 0x1999_9999_9999_9999 && d > 5) {
            // the value can only grow from here on
            proof {
                assert(spec_digits_val(whole.take(i - from + 1)) == acc * 10 + d);
                assert(acc * 10 + d > u64::MAX) by (nonlinear_arith)
                    requires
                        acc > 0x1999_9999_9999_9999 || (acc == 0x1999_9999_9999_9999 && d > 5),
                        d >= 0,
                ;
                if spec_all_digits(whole) {
                    lemma_digits_val_prefix(whole, i - from + 1);
                    assert(spec_digits_val(whole) > u64::MAX);
                }
            }
            return None;
        }
        proof {
            assert(acc * 10 + d <= u64::MAX) by (nonlinear_arith)
                requires
                    0 <= acc,
                    0 <= d <= 9,
                    acc < 0x1999_9999_9999_9999 || (acc == 0x1999_9999_9999_9999 && d <= 5),
            ;
        }
        acc = acc * 10 + d;
        i = i + 1;
    }
    proof {
        assert(whole.take(to - from) == whole);
    }
    Some(acc)
}

/// A parsed sign: its factor and where the digits start.
fn split_sign(v: &Vec<char>) -> (r: (bool, usize))
    ensures
        r.1 <= v@.len(),
        r.1 == if v@.len() > 0 && (v@[0] == '-' || v@[0] == '+') {
            1int
        } else {
            0int
        },
        r.0 == (spec_sign_of(v@) < 0),
        v@.skip(r.1 as int) == spec_digits_of(v@),
{
    if v.len() > 0 && (v[0] == '-' || v[0] == '+') {
        proof {
            assert(v@.skip(1int) == spec_digits_of(v@));
        }
        (v[0] == '-', 1)
    } else {
        proof {
            assert(v@.skip(0int) == v@);
        }
        (false, 0)
    }
}

/// Signed-integer parse of a character vector, `i64` range checked.
fn parse_int_chars(v: &Vec<char>) -> (r: Option<i64>)
    ensures
        (match r {
            Some(n) => spec_is_int_str(v@) && spec_fits_i64(spec_int_val(v@)) && n == spec_int_val(
                v@,
            ),
            None => !spec_is_int_str(v@) || !spec_fits_i64(spec_int_val(v@)),
        }),
{
    let (neg, start) = split_sign(v);
    let ghost digits = spec_digits_of(v@);
    proof {
        assert(spec_sign_of(v@) == if neg {
            -1int
        } else {
            1int
        });
    }
    match digits_value(v, start, v.len()) {
        Some(mag) => {
            proof {
                assert(v@.subrange(start as int, v@.len() as int) =~= digits);
                lemma_digits_val_nonneg(digits);
            }
            if neg {
                if mag > 0x8000_0000_0000_0000 {
                    proof {
                        assert(spec_int_val(v@) == -1 * (mag as int));
                        assert(!spec_fits_i64(spec_int_val(v@)));
                    }
                    None
                } else if mag == 0x8000_0000_0000_0000 {
                    proof {
                        assert(spec_int_val(v@) == -1 * (mag as int));
                    }
                    Some(i64::MIN)
                } else {
                    proof {
                        assert(spec_int_val(v@) == -1 * (mag as int));
                    }
                    Some(-(mag as i64))
                }
            } else {
                if mag > 0x7FFF_FFFF_FFFF_FFFF {
                    proof {
                        assert(spec_int_val(v@) == 1 * (mag as int));
                        assert(!spec_fits_i64(spec_int_val(v@)));
                    }
                    None
                } else {
                    proof {
                        assert(spec_int_val(v@) == 1 * (mag as int));
                    }
                    Some(mag as i64)
                }
            }
        },
        None => {
            proof {
                assert(v@.subrange(start as int, v@.len() as int) =~= digits);
                if spec_is_int_str(v@) {
                    lemma_digits_val_nonneg(digits);
                    if spec_digits_val(digits) > u64::MAX {
                        assert(!spec_fits_i64(spec_int_val(v@))) by {
                            if spec_sign_of(v@) >= 0 {
                                assert(spec_int_val(v@) == 1 * spec_digits_val(digits));
                            } else {
                                assert(spec_int_val(v@) == -1 * spec_digits_val(digits));
                            }
                        }
                    }
                }
            }
            None
        },
    }
}

/// Parses a CPU quantity (for example "500m", "1.5" or "2e3") to
/// millicores.
pub fn parse_cpu_str(s: &str) -> (r: Option<i64>)
    ensures
        r == spec_parse_cpu(s@),
{
    let chars = to_chars(s);
    let t = trim_ws(&chars);
    if t.len() == 0 {
        return None;
    }
    let last = t[t.len() - 1];
    if last == 'm' {
        let head = crate::text::slice_range(&t, 0, t.len() - 1);
        proof {
            assert(head@ =~= t@.drop_last());
        }
        match parse_int_chars(&head) {
            Some(n) => {
                return Some(n);
            },
            None => {},
        }
    }
    // whole quantity in float form, in cores
    parse_float_milli(&t)
}

proof fn lemma_pow10_pos(k: nat)
    ensures
        spec_pow10(k) >= 1,
    decreases k,
{
    if k > 0 {
        lemma_pow10_pos((k - 1) as nat);
    }
}

proof fn lemma_pow10_mono(a: nat, b: nat)
    requires
        a <= b,
    ensures
        spec_pow10(a) <= spec_pow10(b),
    decreases b,
{
    if a < b {
        lemma_pow10_mono(a, (b - 1) as nat);
        lemma_pow10_pos((b - 1) as nat);
    }
}

/// The value of an all-digit string is below ten to its length.
proof fn lemma_digits_val_upper(s: Seq<char>)
    requires
        spec_all_digits(s),
    ensures
        spec_digits_val(s) < spec_pow10(s.len()),
    decreases s.len(),
{
    if s.len() == 0 {
    } else {
        assert(spec_all_digits(s.drop_last())) by {
            assert(forall|j: int| 0 <= j < s.len() - 1 ==> spec_is_digit(#[trigger] s[j]));
        }
        lemma_digits_val_upper(s.drop_last());
        assert(spec_digits_val(s.drop_last()) * 10 + 9 < spec_pow10(s.len())) by (nonlinear_arith)
            requires
                spec_digits_val(s.drop_last()) < spec_pow10((s.len() - 1) as nat),
                spec_pow10(s.len() as nat) == 10 * spec_pow10((s.len() - 1) as nat),
        ;
    }
}

/// Leading zeros carry no value.
proof fn lemma_digits_val_leading_zero(s: Seq<char>)
    requires
        s.len() > 0,
        s[0] == '0',
    ensures
        spec_digits_val(s) == spec_digits_val(s.skip(1)),
    decreases s.len(),
{
    if s.len() == 1 {
        assert(s.skip(1) =~= Seq::<char>::empty());
        assert(s.drop_last() =~= Seq::<char>::empty());
        assert(s.last() == s[0]);
        assert(spec_digit('0') == 0);
        assert(spec_digits_val(s) == spec_digits_val(s.drop_last()) * 10 + spec_digit(s.last()));
    } else {
        assert(s.drop_last()[0] == s[0]);
        lemma_digits_val_leading_zero(s.drop_last());
        assert(s.drop_last().skip(1) =~= s.skip(1).drop_last());
        assert(s.skip(1).last() == s.last());
        assert(spec_digits_val(s) == spec_digits_val(s.drop_last()) * 10 + spec_digit(s.last()));
        assert(s.skip(1).len() > 0);
        assert(spec_digits_val(s.skip(1)) == spec_digits_val(s.skip(1).drop_last()) * 10
            + spec_digit(s.skip(1).last()));
    }
}

proof fn lemma_digits_val_skip_zeros(s: Seq<char>, z: int)
    requires
        0 <= z <= s.len(),
        forall|j: int| 0 <= j < z ==> s[j] == '0',
    ensures
        spec_digits_val(s) == spec_digits_val(s.skip(z)),
    decreases z,
{
    if z > 0 {
        lemma_digits_val_leading_zero(s);
        assert(forall|j: int| 0 <= j < z - 1 ==> #[trigger] s.skip(1)[j] == '0');
        lemma_digits_val_skip_zeros(s.skip(1), z - 1);
        assert(s.skip(1).skip(z - 1) =~= s.skip(z));
    } else {
        assert(s.skip(0) =~= s);
    }
}

/// A digit string with a nonzero first digit is at least ten to one less
/// than its length.
proof fn lemma_digits_val_lower(s: Seq<char>)
    requires
        spec_all_digits(s),
        s.len() > 0,
        s[0] != '0',
    ensures
        spec_digits_val(s) >= spec_pow10((s.len() - 1) as nat),
    decreases s.len(),
{
    if s.len() == 1 {
        assert(spec_digits_val(s) == spec_digit(s[0]));
    } else {
        assert(spec_all_digits(s.drop_last())) by {
            assert(forall|j: int| 0 <= j < s.len() - 1 ==> spec_is_digit(#[trigger] s[j]));
        }
        lemma_digits_val_lower(s.drop_last());
        assert(spec_digits_val(s.drop_last()) * 10 >= spec_pow10((s.len() - 1) as nat))
            by (nonlinear_arith)
            requires
                spec_digits_val(s.drop_last()) >= spec_pow10((s.len() - 2) as nat),
                spec_pow10((s.len() - 1) as nat) == 10 * spec_pow10((s.len() - 2) as nat),
        ;
        assert(spec_digit(s.last()) >= 0);
    }
}

proof fn lemma_pow10_add(a: nat, b: nat)
    ensures
        spec_pow10(a + b) == spec_pow10(a) * spec_pow10(b),
    decreases b,
{
    if b == 0 {
        assert(spec_pow10(a + 0) == spec_pow10(a) * 1) by (nonlinear_arith)
            requires
                spec_pow10((a + 0) as nat) == spec_pow10(a),
        ;
    } else {
        lemma_pow10_add(a, (b - 1) as nat);
        assert(spec_pow10(a + b) == 10 * spec_pow10((a + b - 1) as nat));
        assert(10 * (spec_pow10(a) * spec_pow10((b - 1) as nat)) == spec_pow10(a) * (10
            * spec_pow10((b - 1) as nat))) by (nonlinear_arith);
    }
}

/// A positive shifted value with at least twenty significant digits is
/// out of the `i64` range.
proof fn lemma_shift_val_huge(s: Seq<char>, z: int, shift: int)
    requires
        spec_all_digits(s),
        0 <= z < s.len(),
        forall|j: int| 0 <= j < z ==> s[j] == '0',
        s[z] != '0',
        shift >= 0,
        s.len() - z + shift > 19,
    ensures
        spec_shift_val(s, shift) > i64::MAX,
{
    lemma_digits_val_skip_zeros(s, z);
    assert(spec_all_digits(s.skip(z))) by {
        assert(forall|j: int| 0 <= j < s.len() - z ==> spec_is_digit(#[trigger] s.skip(z)[j]));
    }
    assert(s.skip(z)[0] == s[z]);
    lemma_digits_val_lower(s.skip(z));
    let sig = s.len() - z;
    lemma_pow10_pos(shift as nat);
    lemma_pow10_add((sig - 1) as nat, shift as nat);
    assert(spec_digits_val(s) * spec_pow10(shift as nat) >= spec_pow10((sig - 1) as nat)
        * spec_pow10(shift as nat)) by (nonlinear_arith)
        requires
            spec_digits_val(s) >= spec_pow10((sig - 1) as nat),
            spec_pow10(shift as nat) >= 1,
    ;
    lemma_pow10_mono(19, (sig - 1 + shift) as nat);
    lemma_pow10_at_20();
}

/// Ten to the twentieth is beyond the `i64` range.
proof fn lemma_pow10_at_20()
    ensures
        spec_pow10(20) == 0x56BC75E2D63100000,
        spec_pow10(19) == 0x8AC7230489E80000,
{
    reveal_with_fuel(spec_pow10, 21);
}

/// Float-form parse to thousandth units, clamped to `i64`.
/// Exponent magnitudes beyond this cap only saturate or vanish; the cap
/// leaves room above every possible digit-string length.
pub const EXP_CAP: u128 = 0x33B2_E3C9_FD04_03B2_79D6_0000;

/// Parses an exponent part: an optional sign and at least one digit; the
/// magnitude is reported exactly up to `EXP_CAP`, and as None beyond it.
fn parse_exponent(x: &Vec<char>) -> (r: Option<(bool, Option<u128>)>)
    ensures
        (match r {
            None => !spec_is_exp_str(x@),
            Some(p) => spec_is_exp_str(x@) && (match p.1 {
                Some(v) => v <= EXP_CAP && spec_exp_val(x@) == if p.0 {
                    -(v as int)
                } else {
                    v as int
                },
                None => if p.0 {
                    spec_exp_val(x@) < -(EXP_CAP as int)
                } else {
                    spec_exp_val(x@) > EXP_CAP as int
                },
            }),
        }),
{
    let (xneg, xstart) = split_sign(x);
    let ghost d = spec_digits_of(x@);
    let n = x.len();
    if xstart >= n {
        proof {
            assert(d.len() == 0);
        }
        return None;
    }
    let mut k: usize = xstart;
    while k < n
        invariant
            xstart <= k <= n,
            n == x@.len(),
            d == spec_digits_of(x@),
            d =~= x@.subrange(xstart as int, n as int),
            xneg == (spec_sign_of(x@) < 0),
            forall|j: int| xstart <= j < k ==> spec_is_digit(#[trigger] x@[j]),
        decreases n - k,
    {
        let c = x[k];
        if !('0' <= c && c <= '9') {
            proof {
                assert(d[k - xstart] == x@[k as int]);
                assert(!spec_all_digits(d));
            }
            return None;
        }
        k = k + 1;
    }
    proof {
        assert(spec_all_digits(d)) by {
            assert(forall|j: int| 0 <= j < d.len() ==> #[trigger] d[j] == x@[j + xstart]);
        }
        assert(spec_is_exp_str(x@));
        lemma_digits_val_nonneg(d);
    }
    // accumulate the magnitude, capped
    let mut acc: u128 = 0;
    let mut i: usize = xstart;
    while i < n
        invariant
            xstart <= i <= n,
            n == x@.len(),
            d == spec_digits_of(x@),
            d =~= x@.subrange(xstart as int, n as int),
            xneg == (spec_sign_of(x@) < 0),
            spec_all_digits(d),
            spec_is_exp_str(x@),
            acc == spec_digits_val(d.take(i - xstart)),
            acc <= EXP_CAP,
        decreases n - i,
    {
        proof {
            assert(d.take(i - xstart + 1).drop_last() == d.take(i - xstart));
            assert(d.take(i - xstart + 1).last() == d[i - xstart]);
            assert(d[i - xstart] == x@[i as int]);
            lemma_digits_val_nonneg(d.take(i - xstart));
        }
        let c = x[i];
        let dv: u128 = (c as u32 as u128) - 0x30;
        if acc > EXP_CAP / 10 || (acc == EXP_CAP / 10 && dv > EXP_CAP % 10) {
            proof {
                assert(acc * 10 + dv > EXP_CAP) by (nonlinear_arith)
                    requires
                        acc > EXP_CAP / 10 || (acc == EXP_CAP / 10 && dv > EXP_CAP % 10),
                        dv >= 0,
                        EXP_CAP == (EXP_CAP / 10) * 10 + EXP_CAP % 10,
                ;
                lemma_digits_val_prefix(d, i - xstart + 1);
                assert(spec_digits_val(d) > EXP_CAP);
                if xneg {
                    assert(spec_exp_val(x@) == -1 * spec_digits_val(d));
                } else {
                    assert(spec_exp_val(x@) == 1 * spec_digits_val(d));
                }
            }
            return Some((xneg, None));
        }
        proof {
            assert(acc * 10 + dv <= EXP_CAP) by (nonlinear_arith)
                requires
                    0 <= acc,
                    0 <= dv <= 9,
                    acc < EXP_CAP / 10 || (acc == EXP_CAP / 10 && dv <= EXP_CAP % 10),
                    EXP_CAP == (EXP_CAP / 10) * 10 + EXP_CAP % 10,
            ;
        }
        acc = acc * 10 + dv;
        i = i + 1;
    }
    proof {
        assert(d.take(n - xstart) == d);
        if xneg {
            assert(spec_exp_val(x@) == -1 * spec_digits_val(d));
        } else {
            assert(spec_exp_val(x@) == 1 * spec_digits_val(d));
        }
    }
    Some((xneg, Some(acc)))
}

/// Splits and validates a mantissa: its digits with the point dropped,
/// and how many of them stand after the point.
fn mantissa_value(m: &Vec<char>) -> (r: Option<(Vec<char>, usize)>)
    ensures
        (match r {
            None => !spec_mantissa_ok(m@),
            Some(p) => spec_mantissa_ok(m@) && p.0@ == spec_mantissa_digits(m@) && p.1
                == spec_frac_len(m@),
        }),
{
    proof {
        assert(m@.skip(0int) == m@);
    }
    let n0 = m.len();
    let dot = crate::text::find_char_from(m, '.', 0);
    let ip_end: usize;
    let fstart: usize;
    match dot {
        None => {
            ip_end = n0;
            fstart = n0;
        },
        Some(d) => {
            proof {
                assert(d < n0);
            }
            ip_end = d;
            fstart = d + 1;
        },
    }
    let ghost gdot = crate::text::spec_find_char(m@, '.');
    let ghost ip = if gdot < 0 {
        m@
    } else {
        m@.take(gdot)
    };
    let ghost fp = if gdot < 0 {
        Seq::<char>::empty()
    } else {
        m@.skip(gdot + 1)
    };
    let n = m.len();
    let mut k: usize = 0;
    while k < ip_end
        invariant
            ip_end <= m@.len(),
            k <= ip_end,
            ip_end == if crate::text::spec_find_char(m@, '.') < 0 {
                m@.len() as int
            } else {
                crate::text::spec_find_char(m@, '.')
            },
            ip =~= m@.subrange(0, ip_end as int),
            gdot == crate::text::spec_find_char(m@, '.'),
            ip == if gdot < 0 {
                m@
            } else {
                m@.take(gdot)
            },
            forall|j: int| 0 <= j < k ==> spec_is_digit(#[trigger] m@[j]),
        decreases ip_end - k,
    {
        let c = m[k];
        if !('0' <= c && c <= '9') {
            proof {
                assert(ip[k as int] == m@[k as int]);
                assert(!spec_all_digits(ip));
            }
            return None;
        }
        k = k + 1;
    }
    proof {
        assert(spec_all_digits(ip)) by {
            assert(forall|j: int| 0 <= j < ip.len() ==> #[trigger] ip[j] == m@[j]);
        }
    }
    let mut k2: usize = fstart;
    while k2 < n
        invariant
            fstart <= n,
            n == m@.len(),
            fstart <= k2 <= n,
            gdot == crate::text::spec_find_char(m@, '.'),
            fstart == if gdot < 0 {
                m@.len() as int
            } else {
                gdot + 1
            },
            ip_end == if gdot < 0 {
                m@.len() as int
            } else {
                gdot
            },
            ip == if gdot < 0 {
                m@
            } else {
                m@.take(gdot)
            },
            spec_all_digits(ip),
            fp == if gdot < 0 {
                Seq::<char>::empty()
            } else {
                m@.skip(gdot + 1)
            },
            fp =~= m@.subrange(fstart as int, n as int),
            forall|j: int| fstart <= j < k2 ==> spec_is_digit(#[trigger] m@[j]),
        decreases n - k2,
    {
        let c = m[k2];
        if !('0' <= c && c <= '9') {
            proof {
                assert(fp[k2 - fstart] == m@[k2 as int]);
                assert(!spec_all_digits(fp));
            }
            return None;
        }
        k2 = k2 + 1;
    }
    proof {
        assert(spec_all_digits(fp)) by {
            assert(forall|j: int| 0 <= j < fp.len() ==> #[trigger] fp[j] == m@[j + fstart]);
        }
    }
    let frac_len = n - fstart;
    if ip_end == 0 && frac_len == 0 {
        proof {
            assert(ip.len() + fp.len() == 0);
        }
        return None;
    }
    let mut sdigits = crate::text::slice_range(m, 0, ip_end);
    let mut frac = crate::text::slice_range(m, fstart, n);
    sdigits.append(&mut frac);
    proof {
        assert(sdigits@ =~= spec_mantissa_digits(m@));
        assert(frac_len == spec_frac_len(m@));
        assert(spec_mantissa_ok(m@));
    }
    Some((sdigits, frac_len))
}

/// The saturated value of a sign alone: the far end of the range.
fn sat_signed(neg: bool) -> (r: i64)
    ensures
        r == if neg {
            i64::MIN
        } else {
            i64::MAX
        },
{
    if neg {
        i64::MIN
    } else {
        i64::MAX
    }
}

/// Clamps a signed magnitude to the `i64` range.
fn clamp_signed(mag: u128, neg: bool) -> (r: i64)
    ensures
        r == spec_sat_i64(
            if neg {
                -(mag as int)
            } else {
                mag as int
            },
        ),
{
    if neg {
        if mag >= 0x8000_0000_0000_0000 {
            i64::MIN
        } else {
            -(mag as i64)
        }
    } else {
        if mag > 0x7FFF_FFFF_FFFF_FFFF {
            i64::MAX
        } else {
            mag as i64
        }
    }
}

/// Ten to the `k`, for shifts a clamped value can need.
fn pow10_u128(k: u64) -> (r: u128)
    requires
        k <= 19,
    ensures
        r == spec_pow10(k as nat),
    decreases k,
{
    if k == 0 {
        1
    } else {
        let rest = pow10_u128(k - 1);
        proof {
            lemma_pow10_pos((k - 1) as nat);
            lemma_pow10_mono((k - 1) as nat, 19);
            lemma_pow10_at_20();
        }
        10 * rest
    }
}

/// A prefix of an all-digit string reaching more than nineteen places
/// past its leading zeros is out of the `i64` range.
proof fn lemma_digits_prefix_huge(s: Seq<char>, z: int, len: int)
    requires
        spec_all_digits(s),
        0 <= z < len <= s.len(),
        forall|j: int| 0 <= j < z ==> s[j] == '0',
        s[z] != '0',
        len - z > 19,
    ensures
        spec_digits_val(s.take(len)) > i64::MAX,
{
    let p = s.take(len);
    assert(spec_all_digits(p)) by {
        assert(forall|j: int| 0 <= j < len ==> #[trigger] p[j] == s[j]);
    }
    assert(forall|j: int| 0 <= j < z ==> #[trigger] p[j] == '0');
    lemma_digits_val_skip_zeros(p, z);
    assert(spec_all_digits(p.skip(z))) by {
        assert(forall|j: int| 0 <= j < len - z ==> spec_is_digit(#[trigger] p.skip(z)[j]));
    }
    assert(p.skip(z)[0] == s[z]);
    lemma_digits_val_lower(p.skip(z));
    lemma_pow10_mono(19, (len - z - 1) as nat);
    lemma_pow10_at_20();
}

/// The shifted value of a digit string, clamped to `i64` with the sign
/// applied.
fn shifted_clamped(s: &Vec<char>, shift: i128, neg: bool) -> (r: i64)
    requires
        spec_all_digits(s@),
        -0x1_0000_0000_0000_0000_0000_0000_0000 <= shift
            <= 0x1_0000_0000_0000_0000_0000_0000_0000,
    ensures
        r == spec_sat_i64(
            if neg {
                -spec_shift_val(s@, shift as int)
            } else {
                spec_shift_val(s@, shift as int)
            },
        ),
{
    let len = s.len();
    // the first significant digit
    let mut z: usize = 0;
    while z < len && s[z] == '0'
        invariant
            len == s@.len(),
            z <= len,
            spec_all_digits(s@),
            forall|j: int| 0 <= j < z ==> s@[j] == '0',
        decreases len - z,
    {
        z = z + 1;
    }
    if z == len {
        // a zero mantissa shifts to zero
        proof {
            lemma_zero_mantissa(s@, shift as int);
        }
        return clamp_signed(0, neg);
    }
    let sig = len - z;
    proof {
        assert(s@[z as int] != '0');
        lemma_digits_val_nonneg(s@);
    }
    if shift >= 0 {
        if (sig as i128) + shift > 19 {
            proof {
                lemma_shift_val_huge(s@, z as int, shift as int);
            }
            sat_signed(neg)
        } else {
            let mag = match digits_value(s, 0, len) {
                Some(v) => v,
                None => {
                    proof {
                        assert(s@.subrange(0, len as int) =~= s@);
                        lemma_small_digits_fit(s@, z as int, len as int);
                        assert(false);
                    }
                    0
                },
            };
            proof {
                assert(s@.subrange(0, len as int) =~= s@);
                lemma_small_digits_fit(s@, z as int, len as int);
            }
            let p = pow10_u128(shift as u64);
            proof {
                lemma_pow10_pos(shift as nat);
                lemma_pow10_mono(shift as nat, 19);
                lemma_pow10_at_20();
                assert((mag as int) * (p as int) < spec_pow10(19) * spec_pow10(19))
                    by (nonlinear_arith)
                    requires
                        0 <= (mag as int) < spec_pow10(19),
                        1 <= (p as int) <= spec_pow10(19),
                ;
                lemma_pow10_add(19, 19);
                lemma_pow10_at_38();
                assert(0 <= (mag as int) * (p as int)) by (nonlinear_arith)
                    requires
                        0 <= mag,
                        0 <= p,
                ;
            }
            let total = (mag as u128) * p;
            clamp_signed(total, neg)
        }
    } else {
        let kneg = -shift;
        if kneg >= len as i128 {
            proof {
                assert(spec_shift_val(s@, shift as int) == 0);
            }
            clamp_signed(0, neg)
        } else {
            let kept_len = len - (kneg as usize);
            if z >= kept_len {
                proof {
                    let p = s@.take(kept_len as int);
                    assert(forall|j: int| 0 <= j < kept_len ==> #[trigger] p[j] == '0');
                    lemma_digits_val_skip_zeros(p, kept_len as int);
                    assert(p.skip(kept_len as int) =~= Seq::<char>::empty());
                    assert(spec_shift_val(s@, shift as int) == 0);
                }
                clamp_signed(0, neg)
            } else if kept_len - z > 19 {
                proof {
                    lemma_digits_prefix_huge(s@, z as int, kept_len as int);
                    assert(spec_shift_val(s@, shift as int) > i64::MAX);
                }
                sat_signed(neg)
            } else {
                let ghost pk = s@.take(kept_len as int);
                let mag = match digits_value(s, 0, kept_len) {
                    Some(v) => v,
                    None => {
                        proof {
                            assert(s@.subrange(0, kept_len as int) =~= pk);
                            assert(spec_all_digits(pk)) by {
                                assert(forall|j: int|
                                    0 <= j < kept_len ==> #[trigger] pk[j] == s@[j]);
                            }
                            lemma_small_digits_fit(pk, z as int, kept_len as int);
                            assert(false);
                        }
                        0
                    },
                };
                proof {
                    assert(s@.subrange(0, kept_len as int) =~= pk);
                    assert(spec_shift_val(s@, shift as int) == spec_digits_val(pk));
                }
                clamp_signed(mag as u128, neg)
            }
        }
    }
}

/// An all-digit string with at most nineteen places past its leading
/// zeros stays below ten to the nineteenth.
proof fn lemma_small_digits_fit(s: Seq<char>, z: int, len: int)
    requires
        spec_all_digits(s),
        s.len() == len,
        0 <= z <= len,
        forall|j: int| 0 <= j < z ==> s[j] == '0',
        len - z <= 19,
    ensures
        spec_digits_val(s) < spec_pow10(19),
        spec_digits_val(s) <= u64::MAX,
{
    lemma_digits_val_skip_zeros(s, z);
    assert(spec_all_digits(s.skip(z))) by {
        assert(forall|j: int| 0 <= j < len - z ==> spec_is_digit(#[trigger] s.skip(z)[j]));
    }
    lemma_digits_val_upper(s.skip(z));
    lemma_pow10_mono((len - z) as nat, 19);
    lemma_pow10_at_20();
}

/// Ten to the thirty-eighth still fits the unsigned 128-bit range.
proof fn lemma_pow10_at_38()
    ensures
        spec_pow10(38) == 0x4B3B4CA85A86C47A098A224000000000,
{
    reveal_with_fuel(spec_pow10, 39);
}

/// A zero digit string shifts to zero, whatever the shift.
proof fn lemma_zero_mantissa(s: Seq<char>, shift: int)
    requires
        forall|j: int| 0 <= j < s.len() ==> s[j] == '0',
    ensures
        spec_shift_val(s, shift) == 0,
{
    lemma_digits_val_skip_zeros(s, s.len() as int);
    assert(s.skip(s.len() as int) =~= Seq::<char>::empty());
    if shift >= 0 {
        assert(spec_digits_val(s) * spec_pow10(shift as nat) == 0) by (nonlinear_arith)
            requires
                spec_digits_val(s) == 0,
        ;
    } else if s.len() + shift > 0 {
        let p = s.take(s.len() + shift);
        assert(forall|j: int| 0 <= j < p.len() ==> #[trigger] p[j] == '0');
        lemma_digits_val_skip_zeros(p, p.len() as int);
        assert(p.skip(p.len() as int) =~= Seq::<char>::empty());
    }
}

/// Float-form parse to thousandth units, clamped to `i64`.
fn parse_float_milli(t: &Vec<char>) -> (r: Option<i64>)
    requires
        t@.len() > 0,
    ensures
        r == spec_float_milli(t@),
{
    let (neg, start) = split_sign(t);
    let rest = crate::text::slice_range(t, start, t.len());
    proof {
        assert(rest@ =~= spec_digits_of(t@));
    }
    let low = crate::text::to_lower(&rest);
    let ghost l = crate::text::spec_to_lower(spec_digits_of(t@));
    proof {
        assert(low@ == l);
    }
    if crate::text::chars_eq_lit(&low, "inf") || crate::text::chars_eq_lit(&low, "infinity") {
        return Some(sat_signed(neg));
    }
    if crate::text::chars_eq_lit(&low, "nan") {
        return Some(0);
    }
    proof {
        assert(low@.skip(0int) == low@);
    }
    let epos = crate::text::find_char_from(&low, 'e', 0);
    let m: Vec<char>;
    let exp_sign: bool;
    let exp_mag: Option<u128>;
    match epos {
        None => {
            m = crate::text::slice_range(&low, 0, low.len());
            proof {
                assert(m@ =~= l);
            }
            exp_sign = false;
            exp_mag = Some(0);
        },
        Some(e) => {
            m = crate::text::slice_range(&low, 0, e);
            let x = crate::text::slice_range(&low, e + 1, low.len());
            proof {
                assert(m@ =~= l.take(e as int));
                assert(x@ =~= l.skip(e + 1int));
            }
            match parse_exponent(&x) {
                None => {
                    return None;
                },
                Some(p) => {
                    exp_sign = p.0;
                    exp_mag = p.1;
                },
            }
        },
    }
    let ghost true_exp: int = if crate::text::spec_find_char(l, 'e') < 0 {
        0int
    } else {
        spec_exp_val(l.skip(crate::text::spec_find_char(l, 'e') + 1))
    };
    let parts = match mantissa_value(&m) {
        None => {
            return None;
        },
        Some(p) => p,
    };
    let sdigits = parts.0;
    let frac_len = parts.1;
    match exp_mag {
        Some(v) => {
            let shift: i128 = if exp_sign {
                -(v as i128) + 3 - (frac_len as i128)
            } else {
                (v as i128) + 3 - (frac_len as i128)
            };
            proof {
                assert(shift == true_exp + 3 - spec_frac_len(m@));
            }
            let r = shifted_clamped(&sdigits, shift, neg);
            proof {
                assert(Some(r) == spec_float_milli(t@));
            }
            Some(r)
        },
        None => {
            if exp_sign {
                // the exponent is below every digit count: nothing is left
                proof {
                    let sh = true_exp + 3 - spec_frac_len(m@);
                    assert(sh < -(sdigits@.len() as int)) by {
                        assert(sdigits@.len() < EXP_CAP as int - 3);
                    }
                    assert(spec_shift_val(sdigits@, sh) == 0);
                    assert(spec_sat_i64(if neg { -0int } else { 0int }) == 0i64);
                }
                Some(0)
            } else {
                // the exponent is beyond every digit count
                let r = huge_positive_result(&sdigits, neg, Ghost(true_exp + 3 - spec_frac_len(m@)));
                proof {
                    assert(Some(r) == spec_float_milli(t@));
                }
                Some(r)
            }
        },
    }
}

/// The clamped result of a shift far beyond the digit count: the far end
/// of the range for a nonzero digit string, zero for a zero one.
fn huge_positive_result(s: &Vec<char>, neg: bool, Ghost(shift): Ghost<int>) -> (r: i64)
    requires
        spec_all_digits(s@),
        shift > 19 + s@.len(),
    ensures
        r == spec_sat_i64(
            if neg {
                -spec_shift_val(s@, shift)
            } else {
                spec_shift_val(s@, shift)
            },
        ),
{
    let len = s.len();
    let mut z: usize = 0;
    while z < len && s[z] == '0'
        invariant
            len == s@.len(),
            z <= len,
            spec_all_digits(s@),
            shift > 19 + s@.len(),
            forall|j: int| 0 <= j < z ==> s@[j] == '0',
        decreases len - z,
    {
        z = z + 1;
    }
    if z == len {
        proof {
            lemma_zero_mantissa(s@, shift);
        }
        clamp_signed(0, neg)
    } else {
        proof {
            assert(s@[z as int] != '0');
            lemma_shift_val_huge(s@, z as int, shift);
        }
        sat_signed(neg)
    }
}

/// Parses a memory quantity (for example "256Mi" or "1Gi") to bytes.
pub fn parse_memory_str(s: &str) -> (r: Option<i64>)
    ensures
        r == spec_parse_memory(s@),
{
    let chars = to_chars(s);
    let t = trim_ws(&chars);
    if t.len() == 0 {
        return None;
    }
    // drop every 'i', as in "256Mi" -> "256M"
    let mut u: Vec<char> = Vec::new();
    let mut i: usize = 0;
    proof {
        reveal(Seq::filter);
        assert(t@.take(0int).filter(|c: char| c != 'i') =~= Seq::<char>::empty());
        assert(u@ =~= Seq::<char>::empty());
    }
    while i < t.len()
        invariant
            i <= t@.len(),
            u@ == t@.take(i as int).filter(|c: char| c != 'i'),
        decreases t@.len() - i,
    {
        proof {
            reveal(Seq::filter);
            let f = |c: char| c != 'i';
            assert(t@.take(i + 1int).drop_last() == t@.take(i as int));
            assert(t@.take(i + 1int).last() == t@[i as int]);
            assert(t@.take(i + 1int).filter(f) == if f(t@[i as int]) {
                t@.take(i as int).filter(f).push(t@[i as int])
            } else {
                t@.take(i as int).filter(f)
            });
        }
        let c = t[i];
        if c != 'i' {
            u.push(c);
        }
        i = i + 1;
    }
    proof {
        assert(t@.take(t@.len() as int) == t@);
    }
    let n = u.len();
    let (unit, has_suffix): (i64, bool) = if n == 0 {
        (1, false)
    } else {
        let lastc = u[n - 1];
        if lastc == 'K' {
            (0x400, true)
        } else if lastc == 'M' {
            (0x100000, true)
        } else if lastc == 'G' {
            (0x40000000, true)
        } else if lastc == 'T' {
            (0x10000000000, true)
        } else if lastc == 'P' {
            (0x4000000000000, true)
        } else {
            (1, false)
        }
    };
    proof {
        assert(unit == spec_memory_unit(u@));
        assert(has_suffix == (spec_memory_unit(u@) > 1));
    }
    if has_suffix {
        let num = crate::text::slice_range(&u, 0, n - 1);
        proof {
            assert(num@ =~= u@.drop_last());
        }
        match parse_int_chars(&num) {
            Some(v) => {
                proof {
                    assert(-0x8000_0000_0000_0000i128 * 0x4000000000000i128 <= (v as i128) * (
                    unit as i128) <= 0x8000_0000_0000_0000i128 * 0x4000000000000i128)
                        by (nonlinear_arith)
                        requires
                            -0x8000_0000_0000_0000 <= v <= 0x7FFF_FFFF_FFFF_FFFF,
                            1 <= unit <= 0x4000000000000,
                    ;
                }
                let wide: i128 = (v as i128) * (unit as i128);
                proof {
                    assert((v as int) * (unit as int) == wide as int);
                }
                if wide >= i64::MIN as i128 && wide <= i64::MAX as i128 {
                    Some(wide as i64)
                } else {
                    None
                }
            },
            None => {
                proof {
                    if spec_is_int_str(u@.drop_last()) {
                        // the plain value is already out of range, so the
                        // scaled one is too
                        lemma_scaled_out_of_range(u@.drop_last(), unit as int);
                    }
                }
                None
            },
        }
    } else {
        match parse_int_chars(&u) {
            Some(v) => Some(v),
            None => None,
        }
    }
}

/// A number out of `i64` range stays out when scaled by a positive unit.
proof fn lemma_scaled_out_of_range(num: Seq<char>, unit: int)
    requires
        spec_is_int_str(num),
        !spec_fits_i64(spec_int_val(num)),
        unit >= 1,
    ensures
        !spec_fits_i64(spec_int_val(num) * unit),
{
    let v = spec_int_val(num);
    if v > i64::MAX {
        assert(v * unit >= v) by (nonlinear_arith)
            requires
                v > 0,
                unit >= 1,
        ;
    } else {
        assert(v * unit <= v) by (nonlinear_arith)
            requires
                v < 0,
                unit >= 1,
        ;
    }
}

} // verus!
