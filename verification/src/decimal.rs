//! Fixed-point decimal readings.
//!
//! Sensor telemetry carries its numeric readings as decimal strings.  The
//! pipeline represents such a reading exactly as a signed count of
//! ten-thousandths (`units`), so `"12.5"` is `Reading { units: 125000 }`.
//! This module defines the value of a decimal string as a mathematical
//! integer and the fallible coercions from strings into `Reading` and `i64`.

use vstd::prelude::*;
use vstd::string::StrSliceExecFns;

verus! {

/// Number of `units` per whole 1.0 of a reading.
pub const DECIMAL_SCALE: i64 = 10000;

/// Largest integer part a decimal string may carry and still be held in
/// `i64` ten-thousandths together with four fractional digits.
pub const DECIMAL_INT_MAX: i64 = 922_337_203_685_476;

/// A decimal number held exactly as a signed count of ten-thousandths.
#[derive(Clone, Copy, PartialEq, Eq, Structural, Debug)]
pub struct Reading {
    pub units: i64,
}

/// A decimal digit `'0'..='9'`.
pub open spec fn is_digit_char(c: char) -> bool {
    '0' as u32 <= c as u32 && c as u32 <= '9' as u32
}

/// Numeric value of one decimal digit character.
pub open spec fn digit_of(c: char) -> int {
    c as u32 - '0' as u32
}

/// Value of a digit string read in base ten; empty reads as zero.
pub open spec fn digits_value(s: Seq<char>) -> int
    decreases s.len(),
{
    if s.len() == 0 {
        0
    } else {
        10 * digits_value(s.drop_last()) + digit_of(s.last())
    }
}

pub open spec fn all_digits(s: Seq<char>) -> bool {
    forall|i: int| 0 <= i < s.len() ==> is_digit_char(s[i])
}

pub open spec fn pow10(n: nat) -> int
    decreases n,
{
    if n == 0 {
        1
    } else {
        10 * pow10((n - 1) as nat)
    }
}

/// Index of the first `'.'` in `s`, or `s.len()` if there is none.
pub open spec fn first_dot(s: Seq<char>) -> int
    decreases s.len(),
{
    if s.len() == 0 {
        0
    } else if s[0] == '.' {
        0
    } else {
        1 + first_dot(s.subrange(1, s.len() as int))
    }
}

/// The characters before the first dot.
pub open spec fn int_part(s: Seq<char>) -> Seq<char> {
    s.take(first_dot(s))
}

/// The characters after the first dot; empty when there is no dot.
pub open spec fn frac_part(s: Seq<char>) -> Seq<char> {
    if first_dot(s) == s.len() {
        Seq::<char>::empty()
    } else {
        s.subrange(first_dot(s) + 1, s.len() as int)
    }
}

/// Fractional digits beyond the fourth carry no weight the model can hold,
/// so they must all be zero.
pub open spec fn frac_tail_zero(f: Seq<char>) -> bool {
    forall|i: int| 4 <= i < f.len() ==> f[i] == '0'
}

/// Value of a fractional digit string in ten-thousandths.
pub open spec fn frac_scaled(f: Seq<char>) -> int {
    if f.len() >= 4 {
        digits_value(f.take(4))
    } else {
        digits_value(f) * pow10((4 - f.len()) as nat)
    }
}

/// An unsigned decimal string: digits around at most one dot, at least one
/// digit in all, and nothing but zeros past the fourth fractional place.
pub open spec fn unsigned_valid(s: Seq<char>) -> bool {
    &&& all_digits(int_part(s))
    &&& all_digits(frac_part(s))
    &&& int_part(s).len() + frac_part(s).len() >= 1
    &&& frac_tail_zero(frac_part(s))
}

/// Value of an unsigned decimal string in ten-thousandths.
pub open spec fn unsigned_units(s: Seq<char>) -> int {
    digits_value(int_part(s)) * (DECIMAL_SCALE as int) + frac_scaled(frac_part(s))
}

pub open spec fn strip_sign(s: Seq<char>) -> Seq<char> {
    if s.len() > 0 && (s[0] == '-' || s[0] == '+') {
        s.drop_first()
    } else {
        s
    }
}

pub open spec fn is_negative(s: Seq<char>) -> bool {
    s.len() > 0 && s[0] == '-'
}

/// A well-formed signed decimal string.
pub open spec fn dec_str_valid(s: Seq<char>) -> bool {
    unsigned_valid(strip_sign(s))
}

/// The magnitude stays within what `i64` ten-thousandths can hold.
pub open spec fn dec_in_range(s: Seq<char>) -> bool {
    digits_value(int_part(strip_sign(s))) <= DECIMAL_INT_MAX as int
}

/// Exactly the strings [`parse_decimal`] accepts.
pub open spec fn dec_parses(s: Seq<char>) -> bool {
    dec_str_valid(s) && dec_in_range(s)
}

/// Value of a signed decimal string in ten-thousandths.
pub open spec fn dec_units(s: Seq<char>) -> int {
    if is_negative(s) {
        -unsigned_units(strip_sign(s))
    } else {
        unsigned_units(strip_sign(s))
    }
}

/// A well-formed signed integer string.
pub open spec fn int_str_valid(s: Seq<char>) -> bool {
    strip_sign(s).len() >= 1 && all_digits(strip_sign(s))
}

/// Value of a signed integer string.
pub open spec fn int_str_value(s: Seq<char>) -> int {
    if is_negative(s) {
        -digits_value(strip_sign(s))
    } else {
        digits_value(strip_sign(s))
    }
}

/// Exactly the strings [`parse_i64`] accepts.
pub open spec fn int_str_parses_i64(s: Seq<char>) -> bool {
    int_str_valid(s) && i64::MIN <= int_str_value(s) <= i64::MAX
}

pub proof fn lemma_pow10_pos(n: nat)
    ensures
        pow10(n) >= 1,
    decreases n,
{
    if n > 0 {
        lemma_pow10_pos((n - 1) as nat);
    }
}

pub proof fn lemma_digits_value_nonneg(s: Seq<char>)
    requires
        all_digits(s),
    ensures
        digits_value(s) >= 0,
    decreases s.len(),
{
    if s.len() > 0 {
        assert(is_digit_char(s.last()));
        lemma_digits_value_nonneg(s.drop_last());
    }
}

pub proof fn lemma_digits_value_bound(s: Seq<char>)
    requires
        all_digits(s),
    ensures
        digits_value(s) < pow10(s.len()),
    decreases s.len(),
{
    if s.len() > 0 {
        assert(is_digit_char(s.last()));
        lemma_digits_value_bound(s.drop_last());
    }
}

pub proof fn lemma_digits_value_append(a: Seq<char>, b: Seq<char>)
    ensures
        digits_value(a + b) == digits_value(a) * pow10(b.len()) + digits_value(b),
    decreases b.len(),
{
    if b.len() == 0 {
        assert(a + b =~= a);
    } else {
        lemma_digits_value_append(a, b.drop_last());
        assert((a + b).drop_last() =~= a + b.drop_last());
        assert((a + b).last() == b.last());
        assert(10 * (digits_value(a) * pow10(b.drop_last().len()))
            == digits_value(a) * (10 * pow10(b.drop_last().len()))) by (nonlinear_arith);
    }
}

/// The value of an all-digit string is no less than the value of any prefix.
pub proof fn lemma_digits_value_prefix(w: Seq<char>, m: int)
    requires
        0 <= m <= w.len(),
        all_digits(w),
    ensures
        digits_value(w) >= digits_value(w.take(m)),
{
    let a = w.take(m);
    let b = w.subrange(m, w.len() as int);
    assert(w =~= a + b);
    lemma_digits_value_append(a, b);
    assert(forall|i: int| 0 <= i < b.len() ==> b[i] == w[m + i]);
    lemma_digits_value_nonneg(b);
    assert(forall|i: int| 0 <= i < a.len() ==> a[i] == w[i]);
    lemma_digits_value_nonneg(a);
    lemma_pow10_pos(b.len());
    assert(digits_value(a) * pow10(b.len()) >= digits_value(a) * 1) by (nonlinear_arith)
        requires
            digits_value(a) >= 0,
            pow10(b.len()) >= 1,
    ;
}

pub proof fn lemma_first_dot_props(s: Seq<char>)
    ensures
        0 <= first_dot(s) <= s.len(),
        first_dot(s) < s.len() ==> s[first_dot(s)] == '.',
        forall|i: int| 0 <= i < first_dot(s) ==> s[i] != '.',
    decreases s.len(),
{
    if s.len() == 0 {
    } else if s[0] == '.' {
    } else {
        let sub = s.subrange(1, s.len() as int);
        lemma_first_dot_props(sub);
        assert forall|i: int| 0 <= i < first_dot(s) implies s[i] != '.' by {
            if i >= 1 {
                assert(sub[i - 1] == s[i]);
            }
        }
    }
}

/// The character for one decimal digit value.
pub open spec fn digit_char(d: int) -> char {
    if d == 0 {
        '0'
    } else if d == 1 {
        '1'
    } else if d == 2 {
        '2'
    } else if d == 3 {
        '3'
    } else if d == 4 {
        '4'
    } else if d == 5 {
        '5'
    } else if d == 6 {
        '6'
    } else if d == 7 {
        '7'
    } else if d == 8 {
        '8'
    } else {
        '9'
    }
}

/// The base-ten rendering of a natural number, most significant digit
/// first, with no leading zeros (zero itself reads `"0"`).
pub open spec fn dec_digits(n: nat) -> Seq<char>
    decreases n,
{
    if n < 10 {
        seq![digit_char(n as int)]
    } else {
        dec_digits(n / 10) + seq![digit_char((n % 10) as int)]
    }
}

/// The base-ten rendering of a signed integer, as `Display` writes it.
pub open spec fn i64_dec_str(v: int) -> Seq<char> {
    if v < 0 {
        seq!['-'] + dec_digits((-v) as nat)
    } else {
        dec_digits(v as nat)
    }
}

/// The one-character string for a digit value.
fn digit_str(d: u64) -> (s: &'static str)
    requires
        d < 10,
    ensures
        s@ == seq![digit_char(d as int)],
{
    proof {
        reveal_strlit("0");
        reveal_strlit("1");
        reveal_strlit("2");
        reveal_strlit("3");
        reveal_strlit("4");
        reveal_strlit("5");
        reveal_strlit("6");
        reveal_strlit("7");
        reveal_strlit("8");
        reveal_strlit("9");
    }
    let s: &'static str = if d == 0 {
        "0"
    } else if d == 1 {
        "1"
    } else if d == 2 {
        "2"
    } else if d == 3 {
        "3"
    } else if d == 4 {
        "4"
    } else if d == 5 {
        "5"
    } else if d == 6 {
        "6"
    } else if d == 7 {
        "7"
    } else if d == 8 {
        "8"
    } else {
        "9"
    };
    proof {
        assert(s@ =~= seq![digit_char(d as int)]);
    }
    s
}

fn u64_dec_string(n: u64) -> (s: String)
    ensures
        s@ == dec_digits(n as nat),
    decreases n,
{
    let d: u64 = n % 10;
    let q: u64 = n / 10;
    let ds = digit_str(d);
    if n < 10 {
        proof {
            vstd::arithmetic::div_mod::lemma_small_mod(n as nat, 10);
        }
        let s = String::from_str(ds);
        proof {
            assert(s@ =~= dec_digits(n as nat));
        }
        s
    } else {
        let mut s = u64_dec_string(q);
        s.append(ds);
        proof {
            assert(s@ =~= dec_digits(n as nat));
        }
        s
    }
}

/// Render a signed integer in base ten, exactly as the metric label for a
/// sensor id is written.
pub fn i64_dec_string(v: i64) -> (s: String)
    ensures
        s@ == i64_dec_str(v as int),
{
    if v < 0 {
        let mag: u64 = (-(v as i128)) as u64;
        proof {
            reveal_strlit("-");
        }
        let mut s = String::from_str("-");
        let digits = u64_dec_string(mag);
        s.append(digits.as_str());
        proof {
            assert(s@ =~= i64_dec_str(v as int));
        }
        s
    } else {
        u64_dec_string(v as u64)
    }
}

/// Parse a decimal string (optional sign, digits, at most one dot) into
/// ten-thousandths.  Accepts exactly the strings that [`dec_parses`] admits
/// and returns exactly their value.
///
/// A fractional digit past the fourth place is accepted only when it is
/// zero: the model holds values exactly, so a digit it cannot hold is
/// rejected — and the record fails to decode — rather than silently
/// rounded or dropped.  Exponent forms and non-finite spellings are
/// rejected for the same reason.
#[verifier::loop_isolation(false)]
#[verifier::rlimit(80)]
pub fn parse_decimal(s: &str) -> (r: Option<Reading>)
    ensures
        r is Some <==> dec_parses(s@),
        r matches Some(d) ==> d.units as int == dec_units(s@),
{
    let n: usize = s.unicode_len();
    let mut i: usize = 0;
    let mut neg: bool = false;
    if n > 0 {
        let c0 = s.get_char(0);
        if c0 == '-' {
            neg = true;
            i = 1;
        } else if c0 == '+' {
            i = 1;
        }
    }
    let ghost start = i as int;
    let ghost t = s@.subrange(start, n as int);
    proof {
        assert(t =~= strip_sign(s@));
        assert(neg == is_negative(s@));
        lemma_first_dot_props(t);
    }
    // Integer part: a run of digits, accumulated with an exact range bound.
    let mut acc: i64 = 0;
    let mut j: usize = i;
    let mut stopped: bool = false;
    while j < n && !stopped
        invariant
            start <= j as int <= n as int,
            forall|k: int| start <= k < j as int ==> is_digit_char(s@[k]),
            acc as int == digits_value(s@.subrange(start, j as int)),
            0 <= acc <= DECIMAL_INT_MAX,
            stopped ==> (j < n && !is_digit_char(s@[j as int])),
        decreases n - j + (if stopped { 0int } else { 1int }),
    {
        let c = s.get_char(j);
        let cu: u32 = c as u32;
        if 48 <= cu && cu <= 57 {
            let d: i64 = (cu - 48) as i64;
            let next: i64 = acc * 10 + d;
            proof {
                assert(s@.subrange(start, j as int + 1).drop_last() =~= s@.subrange(
                    start,
                    j as int,
                ));
                assert(s@.subrange(start, j as int + 1).last() == s@[j as int]);
            }
            if next > DECIMAL_INT_MAX {
                proof {
                    let m = j as int + 1 - start;
                    assert(t.take(m) =~= s@.subrange(start, j as int + 1));
                    assert(digits_value(t.take(m)) == next);
                    if dec_parses(s@) {
                        let fd = first_dot(t);
                        assert(fd >= m) by {
                            if fd < m {
                                assert(t[fd] == '.');
                                assert(t[fd] == s@[start + fd]);
                                assert(is_digit_char(s@[start + fd]));
                            }
                        }
                        assert(int_part(t).take(m) =~= t.take(m));
                        lemma_digits_value_prefix(int_part(t), m);
                        assert(false);
                    }
                }
                return None;
            }
            acc = next;
            j = j + 1;
        } else {
            stopped = true;
        }
    }
    let ghost jj = j as int - start;
    if j == n {
        // No dot: the whole suffix is the integer part.
        proof {
            assert(first_dot(t) == t.len()) by {
                if first_dot(t) < t.len() {
                    assert(t[first_dot(t)] == '.');
                    assert(t[first_dot(t)] == s@[start + first_dot(t)]);
                    assert(is_digit_char(s@[start + first_dot(t)]));
                }
            }
            assert(int_part(t) =~= t);
            assert(t =~= s@.subrange(start, n as int));
        }
        if i == n {
            // Nothing after the sign.
            return None;
        }
        proof {
            assert(frac_part(t) =~= Seq::<char>::empty());
            assert(frac_scaled(frac_part(t)) == 0);
        }
        let units_mag: i64 = acc * 10000;
        let units: i64 = if neg {
            -units_mag
        } else {
            units_mag
        };
        return Some(Reading { units });
    }
    // A non-digit stopped the scan: it must be the first dot.
    let c = s.get_char(j);
    if c != '.' {
        proof {
            if dec_parses(s@) {
                let fd = first_dot(t);
                assert(t[jj] == s@[j as int]);
                if jj < fd {
                    assert(int_part(t)[jj] == t[jj]);
                    assert(is_digit_char(t[jj]));
                } else if jj > fd {
                    assert(t[fd] == '.');
                    assert(t[fd] == s@[start + fd]);
                    assert(is_digit_char(s@[start + fd]));
                } else {
                    assert(t[fd] == '.');
                }
                assert(false);
            }
        }
        return None;
    }
    proof {
        assert(t[jj] == s@[j as int]);
        assert(first_dot(t) == jj) by {
            let fd = first_dot(t);
            if fd < jj {
                assert(t[fd] == '.');
                assert(t[fd] == s@[start + fd]);
                assert(is_digit_char(s@[start + fd]));
            }
            if fd > jj {
                assert(t[jj] != '.');
            }
        }
        assert(int_part(t) =~= s@.subrange(start, j as int));
    }
    let ghost f = frac_part(t);
    proof {
        assert(f =~= s@.subrange(j as int + 1, n as int));
        assert(pow10(0) == 1);
        assert(pow10(1) == 10);
        assert(pow10(2) == 100);
        assert(pow10(3) == 1000);
        assert(pow10(4) == 10000);
    }
    // Fractional part: digits only; the first four carry weight, the rest
    // must be zero.
    let mut facc: i64 = 0;
    let mut cnt: usize = 0;
    let mut k: usize = j + 1;
    while k < n
        invariant
            j as int + 1 <= k as int <= n as int,
            forall|q: int| j as int + 1 <= q < k as int ==> is_digit_char(s@[q]),
            cnt as int == if k as int - (j as int + 1) <= 4 {
                k as int - (j as int + 1)
            } else {
                4int
            },
            facc as int == digits_value(f.take(cnt as int)),
            (facc as int) < pow10(cnt as nat),
            0 <= facc <= 9999,
            forall|q: int| j as int + 5 <= q < k as int ==> s@[q] == '0',
        decreases n - k,
    {
        let c2 = s.get_char(k);
        let cu2: u32 = c2 as u32;
        if 48 <= cu2 && cu2 <= 57 {
            proof {
                assert(f[k as int - (j as int + 1)] == s@[k as int]);
            }
            if cnt < 4 {
                let d2: i64 = (cu2 - 48) as i64;
                proof {
                    assert(f.take(cnt as int + 1).drop_last() =~= f.take(cnt as int));
                    assert(f.take(cnt as int + 1).last() == f[cnt as int]);
                    assert(f[cnt as int] == s@[k as int]);
                }
                facc = facc * 10 + d2;
                cnt = cnt + 1;
            } else if cu2 != 48 {
                // A non-zero digit past the fourth fractional place.
                proof {
                    if dec_parses(s@) {
                        assert(frac_tail_zero(f));
                        assert(f[k as int - (j as int + 1)] == '0');
                        assert(s@[k as int] as u32 == 48);
                        assert(false);
                    }
                }
                return None;
            }
            k = k + 1;
        } else {
            // A second dot or other stray character inside the fraction.
            proof {
                if dec_parses(s@) {
                    assert(is_digit_char(f[k as int - (j as int + 1)]));
                    assert(f[k as int - (j as int + 1)] == s@[k as int]);
                    assert(false);
                }
            }
            return None;
        }
    }
    if i == j && j + 1 == n {
        // A bare dot (possibly signed): no digits at all.
        proof {
            assert(int_part(t).len() == 0);
            assert(f.len() == 0);
        }
        return None;
    }
    let mult: i64 = if cnt == 0 {
        10000
    } else if cnt == 1 {
        1000
    } else if cnt == 2 {
        100
    } else if cnt == 3 {
        10
    } else {
        1
    };
    proof {
        if f.len() >= 4 {
            assert(cnt == 4);
            assert(f.take(4) =~= f.take(cnt as int));
        } else {
            assert(cnt as int == f.len());
            assert(f.take(cnt as int) =~= f);
        }
        assert(facc * mult <= 9999 * 10000 && 0 <= facc * mult) by (nonlinear_arith)
            requires
                0 <= facc <= 9999,
                1 <= mult <= 10000,
        ;
    }
    let fracu: i64 = facc * mult;
    proof {
        assert(fracu as int == frac_scaled(f)) by {
            if f.len() >= 4 {
                assert(mult == 1);
                assert(frac_scaled(f) == digits_value(f.take(4)));
            } else {
                assert(mult as int == pow10((4 - f.len()) as nat));
                assert(frac_scaled(f) == digits_value(f) * pow10((4 - f.len()) as nat));
            }
        }
        assert(0 <= fracu <= 9999) by {
            if f.len() >= 4 {
            } else {
                lemma_digits_value_nonneg(f);
                lemma_digits_value_bound(f);
                assert(digits_value(f) * pow10((4 - f.len()) as nat) < pow10(
                    f.len(),
                ) * pow10((4 - f.len()) as nat)) by (nonlinear_arith)
                    requires
                        digits_value(f) < pow10(f.len()),
                        digits_value(f) >= 0,
                        pow10((4 - f.len()) as nat) >= 1,
                ;
                assert(pow10(f.len()) * pow10((4 - f.len()) as nat) == pow10(4)) by {
                    if f.len() == 0 {
                    } else if f.len() == 1 {
                    } else if f.len() == 2 {
                    } else {
                        assert(f.len() == 3);
                    }
                }
                assert(digits_value(f) * pow10((4 - f.len()) as nat) >= 0) by (
                nonlinear_arith)
                    requires
                        digits_value(f) >= 0,
                        pow10((4 - f.len()) as nat) >= 1,
                ;
            }
        }
    }
    let units_mag: i64 = acc * 10000 + fracu;
    let units: i64 = if neg {
        -units_mag
    } else {
        units_mag
    };
    proof {
        assert(all_digits(int_part(t))) by {
            assert(forall|q: int|
                0 <= q < jj ==> int_part(t)[q] == s@[start + q] && is_digit_char(s@[start + q]));
        }
        assert(all_digits(f)) by {
            assert(forall|q: int|
                0 <= q < f.len() ==> f[q] == s@[j as int + 1 + q] && is_digit_char(
                    s@[j as int + 1 + q],
                ));
        }
        assert(frac_tail_zero(f)) by {
            assert(forall|q: int|
                4 <= q < f.len() ==> f[q] == s@[j as int + 1 + q] && s@[j as int + 1 + q] == '0');
        }
        assert(unsigned_valid(t));
        assert(digits_value(int_part(t)) == acc as int);
        assert(units_mag as int == unsigned_units(t));
    }
    Some(Reading { units })
}

/// Parse a signed integer string.  Accepts exactly the strings that
/// [`int_str_parses_i64`] admits and returns exactly their value.
#[verifier::loop_isolation(false)]
pub fn parse_i64(s: &str) -> (r: Option<i64>)
    ensures
        r is Some <==> int_str_parses_i64(s@),
        r matches Some(v) ==> v as int == int_str_value(s@),
{
    let n: usize = s.unicode_len();
    let mut i: usize = 0;
    let mut neg: bool = false;
    if n > 0 {
        let c0 = s.get_char(0);
        if c0 == '-' {
            neg = true;
            i = 1;
        } else if c0 == '+' {
            i = 1;
        }
    }
    let ghost start = i as int;
    let ghost t = s@.subrange(start, n as int);
    proof {
        assert(t =~= strip_sign(s@));
        assert(neg == is_negative(s@));
    }
    if i == n {
        return None;
    }
    // 2^63: one past the largest positive `i64` magnitude.
    let bound: u128 = 9_223_372_036_854_775_808;
    let mut acc: u128 = 0;
    let mut j: usize = i;
    while j < n
        invariant
            start <= j as int <= n as int,
            forall|k: int| start <= k < j as int ==> is_digit_char(s@[k]),
            acc as int == digits_value(s@.subrange(start, j as int)),
            0 <= acc as int <= bound as int,
        decreases n - j,
    {
        let c = s.get_char(j);
        let cu: u32 = c as u32;
        if 48 <= cu && cu <= 57 {
            let d: u128 = (cu - 48) as u128;
            let next: u128 = acc * 10 + d;
            proof {
                assert(s@.subrange(start, j as int + 1).drop_last() =~= s@.subrange(
                    start,
                    j as int,
                ));
                assert(s@.subrange(start, j as int + 1).last() == s@[j as int]);
            }
            if next > bound {
                proof {
                    let m = j as int + 1 - start;
                    assert(t.take(m) =~= s@.subrange(start, j as int + 1));
                    assert(digits_value(t.take(m)) == next as int);
                    if int_str_parses_i64(s@) {
                        lemma_digits_value_prefix(t, m);
                        assert(digits_value(t) >= next as int);
                        assert(false);
                    }
                }
                return None;
            }
            acc = next;
            j = j + 1;
        } else {
            proof {
                if int_str_parses_i64(s@) {
                    assert(is_digit_char(t[j as int - start]));
                    assert(t[j as int - start] == s@[j as int]);
                    assert(false);
                }
            }
            return None;
        }
    }
    proof {
        assert(t =~= s@.subrange(start, n as int));
        assert(all_digits(t)) by {
            assert(forall|q: int|
                0 <= q < t.len() ==> t[q] == s@[start + q] && is_digit_char(s@[start + q]));
        }
        assert(digits_value(t) == acc as int);
    }
    if neg {
        if acc == bound {
            return Some(i64::MIN);
        }
        Some(-(acc as i64))
    } else {
        if acc == bound {
            return None;
        }
        Some(acc as i64)
    }
}

} // verus!
