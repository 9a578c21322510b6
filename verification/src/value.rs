//! The numeric value model of the table: not-a-number, a signed infinity, or
//! a signed decimal `(-1)^neg * mant * 10^exp`. Tokens captured from a line
//! are turned into values by a verified parser for the usual float-literal
//! grammar (optional sign; `inf`, `infinity` or `nan`, case-insensitively; or
//! digits with at most one dot and an optional `e`/`E` exponent).

use vstd::prelude::*;

verus! {

/// One cell of a data table.
#[derive(Clone, Copy, Debug, PartialEq, Eq, Structural)]
pub enum Value {
    /// The sentinel for a missing or unparseable field.
    Nan,
    /// A signed infinity, as the tokens `inf` and `infinity` denote.
    Inf { neg: bool },
    /// The decimal `(-1)^neg * mant * 10^exp`.
    Num { neg: bool, mant: u64, exp: i64 },
}

/// The value `k` as a table cell; the auto-generated base column holds
/// `int_value(0), int_value(1), ...`.
pub open spec fn int_value(k: int) -> Value {
    Value::Num { neg: false, mant: k as u64, exp: 0 }
}

pub open spec fn is_digit(c: char) -> bool {
    '0' <= c && c <= '9'
}

pub open spec fn digit_val(c: char) -> u64 {
    (c as int - '0' as int) as u64
}

/// Case-insensitive comparison of `c` against a lowercase letter `l`.
pub open spec fn ci_eq(c: char, l: char) -> bool {
    c == l || c as u32 == l as u32 - 32
}

/// Whether the (sign-stripped) token spells `inf` or `infinity`, in any case.
pub open spec fn is_inf_kw(s: Seq<char>) -> bool {
    ||| (s.len() == 3 && ci_eq(s[0], 'i') && ci_eq(s[1], 'n') && ci_eq(s[2], 'f'))
    ||| (s.len() == 8 && ci_eq(s[0], 'i') && ci_eq(s[1], 'n') && ci_eq(s[2], 'f') && ci_eq(
        s[3],
        'i',
    ) && ci_eq(s[4], 'n') && ci_eq(s[5], 'i') && ci_eq(s[6], 't') && ci_eq(s[7], 'y'))
}

/// Whether the (sign-stripped) token spells `nan`, in any case.
pub open spec fn is_nan_kw(s: Seq<char>) -> bool {
    s.len() == 3 && ci_eq(s[0], 'n') && ci_eq(s[1], 'a') && ci_eq(s[2], 'n')
}

/// While the mantissa is at most this, another digit still fits in a `u64`.
pub const MANT_LIMIT: u64 = 1844674407370955160;

/// Exponent digits saturate once the magnitude reaches this.
pub const EXP_LIMIT: u64 = 1000000000;

/// Dropped-digit counters saturate here.
pub const COUNT_LIMIT: u64 = 2000000000;

/// The state of the literal scanner: validity so far, where in the grammar
/// the scan stands, and the decimal accumulators. `stage` is 0 in the
/// mantissa, 1 right after `e`, 2 after the exponent's sign, 3 in the
/// exponent's digits.
pub struct Scan {
    pub valid: bool,
    pub seen_digit: bool,
    pub seen_dot: bool,
    pub stage: u8,
    pub mant: u64,
    pub dropped: u64,
    pub frac: u64,
    pub exp_neg: bool,
    pub exp_mag: u64,
}

/// The scanner before any character.
pub open spec fn scan_init() -> Scan {
    Scan {
        valid: true,
        seen_digit: false,
        seen_dot: false,
        stage: 0,
        mant: 0,
        dropped: 0,
        frac: 0,
        exp_neg: false,
        exp_mag: 0,
    }
}

/// A counter increment that saturates at `COUNT_LIMIT`.
pub open spec fn sat_inc(x: u64) -> u64 {
    if x < COUNT_LIMIT {
        (x + 1) as u64
    } else {
        x
    }
}

/// Folds one exponent digit in, saturating at ten digits of magnitude.
pub open spec fn exp_acc(m: u64, c: char) -> u64 {
    if m < EXP_LIMIT {
        (m * 10 + digit_val(c)) as u64
    } else {
        m
    }
}

/// One scanner step. Mantissa digits beyond the `u64` range are truncated:
/// dropped integer digits scale the value up, dropped fraction digits are
/// lost; each fraction digit that is kept scales the value down.
pub open spec fn scan_step(st: Scan, c: char) -> Scan {
    if !st.valid {
        st
    } else if st.stage == 0 {
        if is_digit(c) {
            if st.mant <= MANT_LIMIT {
                if st.seen_dot {
                    Scan {
                        seen_digit: true,
                        mant: (st.mant * 10 + digit_val(c)) as u64,
                        frac: sat_inc(st.frac),
                        ..st
                    }
                } else {
                    Scan { seen_digit: true, mant: (st.mant * 10 + digit_val(c)) as u64, ..st }
                }
            } else {
                if st.seen_dot {
                    Scan { seen_digit: true, ..st }
                } else {
                    Scan { seen_digit: true, dropped: sat_inc(st.dropped), ..st }
                }
            }
        } else if c == '.' {
            if st.seen_dot {
                Scan { valid: false, ..st }
            } else {
                Scan { seen_dot: true, ..st }
            }
        } else if c == 'e' || c == 'E' {
            if st.seen_digit {
                Scan { stage: 1, ..st }
            } else {
                Scan { valid: false, ..st }
            }
        } else {
            Scan { valid: false, ..st }
        }
    } else if st.stage == 1 {
        if is_digit(c) {
            Scan { stage: 3, exp_mag: exp_acc(st.exp_mag, c), ..st }
        } else if c == '+' {
            Scan { stage: 2, ..st }
        } else if c == '-' {
            Scan { stage: 2, exp_neg: true, ..st }
        } else {
            Scan { valid: false, ..st }
        }
    } else if st.stage == 2 || st.stage == 3 {
        if is_digit(c) {
            Scan { stage: 3, exp_mag: exp_acc(st.exp_mag, c), ..st }
        } else {
            Scan { valid: false, ..st }
        }
    } else {
        Scan { valid: false, ..st }
    }
}

/// The scanner after the first `i` characters of `s`.
pub open spec fn scan_upto(s: Seq<char>, i: int) -> Scan
    decreases i,
{
    if i <= 0 {
        scan_init()
    } else {
        scan_step(scan_upto(s, i - 1), s[i - 1])
    }
}

/// The accumulators stay within the ranges the saturation enforces.
pub open spec fn scan_inv(st: Scan) -> bool {
    &&& st.dropped <= COUNT_LIMIT
    &&& st.frac <= COUNT_LIMIT
    &&& st.exp_mag <= 9999999999
    &&& st.stage <= 3
}

/// The decimal exponent a finished scan denotes.
pub open spec fn final_exp(st: Scan) -> int {
    (if st.exp_neg {
        -(st.exp_mag as int)
    } else {
        st.exp_mag as int
    }) + st.dropped - st.frac
}

/// The value of a finished scan: a number exactly when the whole token was a
/// well-formed literal, with a mantissa digit and no dangling exponent.
pub open spec fn scan_value(st: Scan, neg: bool) -> Option<Value> {
    if st.valid && st.seen_digit && (st.stage == 0 || st.stage == 3) {
        Some(Value::Num { neg, mant: st.mant, exp: final_exp(st) as i64 })
    } else {
        None
    }
}

/// What a token denotes: `nan`, a signed infinity, a decimal number, or
/// nothing when the token is not a float literal.
pub open spec fn spec_parse(s: Seq<char>) -> Option<Value> {
    let neg = s.len() > 0 && s[0] == '-';
    let body = if s.len() > 0 && (s[0] == '+' || s[0] == '-') {
        s.skip(1)
    } else {
        s
    };
    if is_nan_kw(body) {
        Some(Value::Nan)
    } else if is_inf_kw(body) {
        Some(Value::Inf { neg })
    } else {
        scan_value(scan_upto(body, body.len() as int), neg)
    }
}

fn ci_eq_exec(c: char, l: char) -> (r: bool)
    requires
        l as u32 >= 32,
    ensures
        r == ci_eq(c, l),
{
    c == l || c as u32 == l as u32 - 32
}

fn is_digit_exec(c: char) -> (r: bool)
    ensures
        r == is_digit(c),
{
    '0' <= c && c <= '9'
}

fn body_is_nan(s: &str, start: usize) -> (r: bool)
    requires
        start <= s@.len(),
    ensures
        r == is_nan_kw(s@.skip(start as int)),
{
    let n = s.unicode_len();
    if n - start != 3 {
        return false;
    }
    ci_eq_exec(s.get_char(start), 'n') && ci_eq_exec(s.get_char(start + 1), 'a') && ci_eq_exec(
        s.get_char(start + 2),
        'n',
    )
}

fn body_is_inf(s: &str, start: usize) -> (r: bool)
    requires
        start <= s@.len(),
    ensures
        r == is_inf_kw(s@.skip(start as int)),
{
    let n = s.unicode_len();
    if n - start == 3 {
        ci_eq_exec(s.get_char(start), 'i') && ci_eq_exec(s.get_char(start + 1), 'n')
            && ci_eq_exec(s.get_char(start + 2), 'f')
    } else if n - start == 8 {
        ci_eq_exec(s.get_char(start), 'i') && ci_eq_exec(s.get_char(start + 1), 'n') && ci_eq_exec(
            s.get_char(start + 2),
            'f',
        ) && ci_eq_exec(s.get_char(start + 3), 'i') && ci_eq_exec(s.get_char(start + 4), 'n')
            && ci_eq_exec(s.get_char(start + 5), 'i') && ci_eq_exec(s.get_char(start + 6), 't')
            && ci_eq_exec(s.get_char(start + 7), 'y')
    } else {
        false
    }
}

fn scan_step_exec(st: Scan, c: char) -> (r: Scan)
    requires
        scan_inv(st),
    ensures
        r == scan_step(st, c),
        scan_inv(r),
{
    if !st.valid {
        st
    } else if st.stage == 0 {
        if is_digit_exec(c) {
            let d = (c as u32 - 48) as u64;
            assert(d == digit_val(c));
            if st.mant <= MANT_LIMIT {
                if st.seen_dot {
                    let frac = if st.frac < COUNT_LIMIT {
                        st.frac + 1
                    } else {
                        st.frac
                    };
                    Scan { seen_digit: true, mant: st.mant * 10 + d, frac, ..st }
                } else {
                    Scan { seen_digit: true, mant: st.mant * 10 + d, ..st }
                }
            } else {
                if st.seen_dot {
                    Scan { seen_digit: true, ..st }
                } else {
                    let dropped = if st.dropped < COUNT_LIMIT {
                        st.dropped + 1
                    } else {
                        st.dropped
                    };
                    Scan { seen_digit: true, dropped, ..st }
                }
            }
        } else if c == '.' {
            if st.seen_dot {
                Scan { valid: false, ..st }
            } else {
                Scan { seen_dot: true, ..st }
            }
        } else if c == 'e' || c == 'E' {
            if st.seen_digit {
                Scan { stage: 1, ..st }
            } else {
                Scan { valid: false, ..st }
            }
        } else {
            Scan { valid: false, ..st }
        }
    } else if st.stage == 1 {
        if is_digit_exec(c) {
            let d = (c as u32 - 48) as u64;
            assert(d == digit_val(c));
            let exp_mag = if st.exp_mag < EXP_LIMIT {
                st.exp_mag * 10 + d
            } else {
                st.exp_mag
            };
            Scan { stage: 3, exp_mag, ..st }
        } else if c == '+' {
            Scan { stage: 2, ..st }
        } else if c == '-' {
            Scan { stage: 2, exp_neg: true, ..st }
        } else {
            Scan { valid: false, ..st }
        }
    } else if st.stage == 2 || st.stage == 3 {
        if is_digit_exec(c) {
            let d = (c as u32 - 48) as u64;
            assert(d == digit_val(c));
            let exp_mag = if st.exp_mag < EXP_LIMIT {
                st.exp_mag * 10 + d
            } else {
                st.exp_mag
            };
            Scan { stage: 3, exp_mag, ..st }
        } else {
            Scan { valid: false, ..st }
        }
    } else {
        Scan { valid: false, ..st }
    }
}

/// Parses a token as the float-literal grammar defines it: `None` exactly
/// when the token is not a literal.
pub fn parse_value(s: &str) -> (r: Option<Value>)
    ensures
        r == spec_parse(s@),
{
    let n = s.unicode_len();
    let mut start: usize = 0;
    let mut neg = false;
    if n > 0 {
        let c0 = s.get_char(0);
        if c0 == '-' {
            neg = true;
            start = 1;
        } else if c0 == '+' {
            start = 1;
        }
    }
    let ghost body = s@.skip(start as int);
    proof {
        if start == 0 {
            assert(s@.skip(0) =~= s@);
        }
    }
    if body_is_nan(s, start) {
        return Some(Value::Nan);
    }
    if body_is_inf(s, start) {
        return Some(Value::Inf { neg });
    }
    let mut st = Scan {
        valid: true,
        seen_digit: false,
        seen_dot: false,
        stage: 0,
        mant: 0,
        dropped: 0,
        frac: 0,
        exp_neg: false,
        exp_mag: 0,
    };
    assert(st == scan_init());
    let mut i: usize = start;
    while i < n
        invariant
            start <= i <= n,
            n == s@.len(),
            body == s@.skip(start as int),
            st == scan_upto(body, i - start),
            scan_inv(st),
        decreases n - i,
    {
        let c = s.get_char(i);
        assert(c == body[i - start]);
        st = scan_step_exec(st, c);
        i += 1;
        assert(st == scan_upto(body, i - start));
    }
    assert(st == scan_upto(body, body.len() as int));
    if st.valid && st.seen_digit && (st.stage == 0 || st.stage == 3) {
        let mag: i64 = st.exp_mag as i64;
        let signed_mag: i64 = if st.exp_neg {
            -mag
        } else {
            mag
        };
        let exp: i64 = signed_mag + st.dropped as i64 - st.frac as i64;
        assert(exp == final_exp(st));
        Some(Value::Num { neg, mant: st.mant, exp })
    } else {
        None
    }
}

} // verus!
