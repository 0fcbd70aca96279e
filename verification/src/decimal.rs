//! Decimal numerals: parsing a signed decimal text into a [`Rational`]
//! and rendering a rational with exactly two digits after the point.

use vstd::prelude::*;

use crate::rational::MAX_INPUT_MAG;
use crate::rational::Rat;
use crate::rational::Rational;

verus! {

/// Digits a numeral may carry (integer and fraction part together):
/// enough for any reading of interest while keeping every conversion
/// within an `i128`.
pub const MAX_NUMERAL_DIGITS: usize = 30;

/// Is `c` a decimal digit?
pub open spec fn is_dec_digit(c: char) -> bool {
    48 <= c as int <= 57
}

/// The numeric value of a decimal digit.
pub open spec fn digit_val(c: char) -> int {
    c as int - 48
}

/// The character of a decimal digit value.
pub open spec fn digit_char(d: int) -> char {
    if d == 0 {
        '0'
    } else if d == 1 {
        '1'
    } else if d == 2 {
        '2'
    } else if d == 3 {
        '3'
    } else if d == 4 {
        '4'
    } else if d == 5 {
        '5'
    } else if d == 6 {
        '6'
    } else if d == 7 {
        '7'
    } else if d == 8 {
        '8'
    } else {
        '9'
    }
}

/// Every character of `s` is a decimal digit.
pub open spec fn all_digits(s: Seq<char>) -> bool {
    forall|i: int| 0 <= i < s.len() ==> is_dec_digit(s[i])
}

/// The value of a digit string read in base ten.
pub open spec fn digits_val(s: Seq<char>) -> int
    decreases s.len(),
{
    if s.len() == 0 {
        0
    } else {
        digits_val(s.drop_last()) * 10 + digit_val(s.last())
    }
}

/// Ten to the `k`.
pub open spec fn pow10(k: nat) -> int
    decreases k,
{
    if k == 0 {
        1
    } else {
        10 * pow10((k - 1) as nat)
    }
}

proof fn lemma_pow10_pos(k: nat)
    ensures
        pow10(k) >= 1,
    decreases k,
{
    if k > 0 {
        lemma_pow10_pos((k - 1) as nat);
    }
}

proof fn lemma_pow10_mono(a: nat, b: nat)
    requires
        a <= b,
    ensures
        pow10(a) <= pow10(b),
    decreases b,
{
    if a < b {
        lemma_pow10_mono(a, (b - 1) as nat);
        lemma_pow10_pos((b - 1) as nat);
    }
}

proof fn lemma_pow10_max_numeral()
    ensures
        pow10(MAX_NUMERAL_DIGITS as nat) == MAX_INPUT_MAG as int,
{
    reveal_with_fuel(pow10, 31);
}

proof fn lemma_digits_val_bound(s: Seq<char>)
    requires
        all_digits(s),
    ensures
        0 <= digits_val(s) < pow10(s.len()),
    decreases s.len(),
{
    if s.len() > 0 {
        assert(all_digits(s.drop_last()));
        lemma_digits_val_bound(s.drop_last());
    }
}

proof fn lemma_digits_val_push(s: Seq<char>, c: char)
    ensures
        digits_val(s.push(c)) == digits_val(s) * 10 + digit_val(c),
{
    assert(s.push(c).drop_last() =~= s);
}

/// The index of the first `'.'` in `s`, or `s.len()` if there is none.
pub open spec fn dot_index(s: Seq<char>) -> int
    decreases s.len(),
{
    if s.len() == 0 {
        0
    } else if s[0] == '.' {
        0
    } else {
        1 + dot_index(s.drop_first())
    }
}

proof fn lemma_dot_index_no_dot(s: Seq<char>)
    requires
        forall|i: int| 0 <= i < s.len() ==> s[i] != '.',
    ensures
        dot_index(s) == s.len(),
    decreases s.len(),
{
    if s.len() > 0 {
        assert(forall|i: int| 0 <= i < s.drop_first().len() ==> s.drop_first()[i] != '.');
        lemma_dot_index_no_dot(s.drop_first());
    }
}

proof fn lemma_dot_index_at(s: Seq<char>, k: int)
    requires
        0 <= k < s.len(),
        s[k] == '.',
        forall|i: int| 0 <= i < k ==> s[i] != '.',
    ensures
        dot_index(s) == k,
    decreases s.len(),
{
    if k > 0 {
        assert(s.drop_first()[k - 1] == '.');
        assert(forall|i: int| 0 <= i < k - 1 ==> s.drop_first()[i] != '.');
        lemma_dot_index_at(s.drop_first(), k - 1);
    }
}

/// Does the numeral open with an explicit sign?
pub open spec fn has_sign(s: Seq<char>) -> bool {
    s.len() > 0 && (s[0] == '+' || s[0] == '-')
}

/// The numeral with a leading sign removed.
pub open spec fn body_of(s: Seq<char>) -> Seq<char> {
    if has_sign(s) {
        s.drop_first()
    } else {
        s
    }
}

/// Does the numeral denote a negative number?
pub open spec fn is_negative(s: Seq<char>) -> bool {
    s.len() > 0 && s[0] == '-'
}

/// The digits before the point of an unsigned numeral body.
pub open spec fn int_part(b: Seq<char>) -> Seq<char> {
    b.take(dot_index(b))
}

/// The digits after the point of an unsigned numeral body.
pub open spec fn frac_part(b: Seq<char>) -> Seq<char> {
    if dot_index(b) < b.len() {
        b.skip(dot_index(b) + 1)
    } else {
        Seq::<char>::empty()
    }
}

/// A valid numeral: an optional sign, then digits with at most one
/// point among them, and at least one digit.
pub open spec fn valid_numeral(s: Seq<char>) -> bool {
    let b = body_of(s);
    &&& all_digits(int_part(b))
    &&& all_digits(frac_part(b))
    &&& int_part(b).len() + frac_part(b).len() >= 1
}

/// How many digits the numeral carries.
pub open spec fn numeral_digit_count(s: Seq<char>) -> int {
    int_part(body_of(s)).len() + frac_part(body_of(s)).len() as int
}

/// The numerator a valid numeral denotes: its digits read as one
/// integer, negated under a leading minus sign.
pub open spec fn numeral_num(s: Seq<char>) -> int {
    let b = body_of(s);
    let mag = digits_val(int_part(b) + frac_part(b));
    if is_negative(s) {
        -mag
    } else {
        mag
    }
}

/// The denominator a valid numeral denotes: ten to the number of
/// digits after the point.
pub open spec fn numeral_den(s: Seq<char>) -> int {
    pow10(frac_part(body_of(s)).len() as nat)
}

proof fn lemma_dot_index_ge(s: Seq<char>, m: int)
    requires
        0 <= m <= s.len(),
        forall|i: int| 0 <= i < m ==> s[i] != '.',
    ensures
        dot_index(s) >= m,
    decreases s.len(),
{
    lemma_dot_index_le(s);
    if m > 0 && s.len() > 0 {
        assert(s[0] != '.');
        assert(forall|i: int| 0 <= i < m - 1 ==> s.drop_first()[i] != '.');
        lemma_dot_index_ge(s.drop_first(), m - 1);
    }
}

proof fn lemma_dot_index_le(s: Seq<char>)
    ensures
        0 <= dot_index(s) <= s.len(),
    decreases s.len(),
{
    if s.len() > 0 && s[0] != '.' {
        lemma_dot_index_le(s.drop_first());
    }
}

/// Ten to the `k` as a machine integer.
fn pow10_i128(k: usize) -> (r: i128)
    requires
        k <= MAX_NUMERAL_DIGITS,
    ensures
        r as int == pow10(k as nat),
        1 <= r <= MAX_INPUT_MAG,
{
    let mut r: i128 = 1;
    let mut i: usize = 0;
    while i < k
        invariant
            i <= k <= MAX_NUMERAL_DIGITS,
            r as int == pow10(i as nat),
        decreases k - i,
    {
        proof {
            lemma_pow10_pos(i as nat);
            lemma_pow10_mono(i as nat + 1, MAX_NUMERAL_DIGITS as nat);
            lemma_pow10_max_numeral();
        }
        r = r * 10;
        i = i + 1;
    }
    proof {
        lemma_pow10_pos(k as nat);
        lemma_pow10_mono(k as nat, MAX_NUMERAL_DIGITS as nat);
        lemma_pow10_max_numeral();
    }
    r
}

/// Parses a signed decimal numeral — an optional `+` or `-`, digits, and
/// at most one `.` — into the exact rational it denotes. Returns `None`
/// for any other shape, and for numerals of more than
/// [`MAX_NUMERAL_DIGITS`] digits.
pub fn parse_numeral(s: &str) -> (r: Option<Rational>)
    ensures
        r is Some <==> valid_numeral(s@) && numeral_digit_count(s@) <= MAX_NUMERAL_DIGITS as int,
        r matches Some(q) ==> q.num as int == numeral_num(s@) && q.den as int == numeral_den(s@)
            && q.in_range(),
{
    let n = s.unicode_len();
    let mut start: usize = 0;
    let mut neg = false;
    if n > 0 {
        let c0 = s.get_char(0);
        if c0 == '-' {
            neg = true;
            start = 1;
        } else if c0 == '+' {
            start = 1;
        }
    }
    let ghost b = s@.subrange(start as int, n as int);
    proof {
        assert(body_of(s@) =~= b);
    }
    let mut mag: u128 = 0;
    let mut count: usize = 0;
    let mut fracs: usize = 0;
    let mut seen_dot = false;
    let ghost mut dotpos: int = 0;
    let mut j: usize = start;
    while j < n
        invariant
            n == s@.len(),
            start <= j <= n,
            b == s@.subrange(start as int, n as int),
            body_of(s@) == b,
            neg == is_negative(s@),
            !seen_dot ==> {
                &&& forall|l: int| 0 <= l < j - start ==> is_dec_digit(b[l])
                &&& fracs == 0
                &&& count as int == if j - start <= 31 { j - start } else { 31 }
                &&& count <= 30 ==> mag as int == digits_val(b.take(j - start))
            },
            seen_dot ==> {
                &&& 0 <= dotpos < j - start
                &&& b[dotpos] == '.'
                &&& forall|l: int| 0 <= l < j - start && l != dotpos ==> is_dec_digit(b[l])
                &&& fracs as int == j - start - 1 - dotpos
                &&& count as int == if j - start - 1 <= 31 { j - start - 1 } else { 31 }
                &&& count <= 30 ==> mag as int == digits_val(
                    b.take(dotpos) + b.subrange(dotpos + 1, j - start),
                )
            },
        decreases n - j,
    {
        let c = s.get_char(j);
        let cu = c as u32;
        let ghost p = j - start;
        proof {
            assert(b[p] == c);
        }
        if c == '.' {
            if seen_dot {
                proof {
                    lemma_dot_index_at(b, dotpos);
                    assert(frac_part(b)[p - dotpos - 1] == '.');
                    assert(!all_digits(frac_part(b)));
                }
                return None;
            }
            seen_dot = true;
            proof {
                dotpos = p;
                assert(b.take(dotpos) + b.subrange(dotpos + 1, p + 1) =~= b.take(p));
            }
        } else if 48 <= cu && cu <= 57 {
            proof {
                assert(is_dec_digit(c));
            }
            if count >= 31 {
                // Already past the digit budget: keep scanning for shape only.
            } else if count == 30 {
                count = 31;
            } else {
                proof {
                    if seen_dot {
                        let d = b.take(dotpos) + b.subrange(dotpos + 1, p);
                        assert(all_digits(d));
                        lemma_digits_val_bound(d);
                        lemma_pow10_mono(d.len(), 29);
                        lemma_pow10_max_numeral();
                        lemma_pow10_mono(29, MAX_NUMERAL_DIGITS as nat);
                        lemma_digits_val_push(d, c);
                        assert(b.take(dotpos) + b.subrange(dotpos + 1, p + 1) =~= d.push(c));
                    } else {
                        let d = b.take(p);
                        assert(all_digits(d));
                        lemma_digits_val_bound(d);
                        lemma_pow10_mono(d.len(), 29);
                        lemma_pow10_max_numeral();
                        lemma_pow10_mono(29, MAX_NUMERAL_DIGITS as nat);
                        lemma_digits_val_push(d, c);
                        assert(b.take(p + 1) =~= d.push(c));
                    }
                }
                mag = mag * 10 + ((cu - 48) as u128);
                count = count + 1;
            }
            if seen_dot {
                fracs = fracs + 1;
            }
        } else {
            proof {
                if seen_dot {
                    lemma_dot_index_at(b, dotpos);
                    assert(frac_part(b)[p - dotpos - 1] == c);
                    assert(!all_digits(frac_part(b)));
                } else {
                    lemma_dot_index_ge(b, p + 1);
                    lemma_dot_index_le(b);
                    assert(int_part(b)[p] == c);
                    assert(!all_digits(int_part(b)));
                }
            }
            return None;
        }
        j = j + 1;
    }
    proof {
        if seen_dot {
            lemma_dot_index_at(b, dotpos);
            assert(int_part(b) =~= b.take(dotpos));
            assert(frac_part(b) =~= b.subrange(dotpos + 1, n - start));
        } else {
            assert(forall|l: int| 0 <= l < b.len() ==> b[l] != '.');
            lemma_dot_index_no_dot(b);
            assert(int_part(b) =~= b);
            assert(frac_part(b) =~= Seq::<char>::empty());
        }
    }
    if count == 0 {
        return None;
    }
    if count >= 31 {
        return None;
    }
    let den = pow10_i128(fracs);
    proof {
        let dseq = int_part(b) + frac_part(b);
        assert(all_digits(dseq));
        lemma_digits_val_bound(dseq);
        lemma_pow10_mono(dseq.len(), MAX_NUMERAL_DIGITS as nat);
        lemma_pow10_max_numeral();
        if seen_dot {
            assert(dseq =~= b.take(dotpos) + b.subrange(dotpos + 1, n - start));
        } else {
            assert(dseq =~= b.take(n - start));
        }
        assert(mag as int == digits_val(dseq));
    }
    let num: i128 = if neg {
        -(mag as i128)
    } else {
        mag as i128
    };
    Some(Rational { num, den })
}

/// The decimal digit string of `n`, most significant digit first.
pub open spec fn dec_digits(n: nat) -> Seq<char>
    decreases n,
{
    if n < 10 {
        seq![digit_char(n as int)]
    } else {
        dec_digits(n / 10).push(digit_char((n % 10) as int))
    }
}

fn digit_str(d: u8) -> (r: &'static str)
    requires
        d < 10,
    ensures
        r@ == seq![digit_char(d as int)],
{
    match d {
        0 => {
            proof {
                reveal_strlit("0");
                assert("0"@ =~= seq![digit_char(0)]);
            }
            "0"
        },
        1 => {
            proof {
                reveal_strlit("1");
                assert("1"@ =~= seq![digit_char(1)]);
            }
            "1"
        },
        2 => {
            proof {
                reveal_strlit("2");
                assert("2"@ =~= seq![digit_char(2)]);
            }
            "2"
        },
        3 => {
            proof {
                reveal_strlit("3");
                assert("3"@ =~= seq![digit_char(3)]);
            }
            "3"
        },
        4 => {
            proof {
                reveal_strlit("4");
                assert("4"@ =~= seq![digit_char(4)]);
            }
            "4"
        },
        5 => {
            proof {
                reveal_strlit("5");
                assert("5"@ =~= seq![digit_char(5)]);
            }
            "5"
        },
        6 => {
            proof {
                reveal_strlit("6");
                assert("6"@ =~= seq![digit_char(6)]);
            }
            "6"
        },
        7 => {
            proof {
                reveal_strlit("7");
                assert("7"@ =~= seq![digit_char(7)]);
            }
            "7"
        },
        8 => {
            proof {
                reveal_strlit("8");
                assert("8"@ =~= seq![digit_char(8)]);
            }
            "8"
        },
        _ => {
            proof {
                reveal_strlit("9");
                assert("9"@ =~= seq![digit_char(9)]);
            }
            "9"
        },
    }
}

/// The decimal text of `n`.
pub fn unsigned_to_string(n: u128) -> (s: String)
    ensures
        s@ == dec_digits(n as nat),
    decreases n,
{
    if n < 10 {
        String::from_str(digit_str(n as u8))
    } else {
        let mut s = unsigned_to_string(n / 10);
        s.append(digit_str((n % 10) as u8));
        proof {
            assert(dec_digits(n as nat) =~= dec_digits(n as nat / 10) + seq![
                digit_char((n as nat % 10) as int),
            ]);
        }
        s
    }
}

/// The magnitude of an integer.
pub open spec fn int_abs(n: int) -> int {
    if n < 0 {
        -n
    } else {
        n
    }
}

/// The magnitude of `v` in hundredths, rounded half away from zero.
pub open spec fn abs_hundredths(v: Rat) -> int
    recommends
        v.wf(),
{
    (200 * int_abs(v.num) + v.den) / (2 * v.den)
}

/// The two-decimal text of the value of `v`: a minus sign for a negative
/// numerator, the whole part, a point, and exactly two fraction digits.
pub open spec fn value_text(v: Rat) -> Seq<char>
    recommends
        v.wf(),
{
    let h = abs_hundredths(v);
    let whole = dec_digits((h / 100) as nat);
    let frac = (h % 100) as nat;
    let frac_text = if frac < 10 {
        seq!['0'] + dec_digits(frac)
    } else {
        dec_digits(frac)
    };
    let unsigned_text = whole + seq!['.'] + frac_text;
    if v.num < 0 {
        seq!['-'] + unsigned_text
    } else {
        unsigned_text
    }
}

/// Renders the value of `v` with exactly two digits after the point,
/// rounding half away from zero.
pub fn format_value(v: &Rational) -> (s: String)
    requires
        v.displayable(),
    ensures
        s@ == value_text(v@),
{
    let au: u128 = if v.num < 0 {
        (-(v.num)) as u128
    } else {
        v.num as u128
    };
    let du: u128 = v.den as u128;
    let h: u128 = (200 * au + du) / (2 * du);
    proof {
        assert(au as int == int_abs(v@.num));
        assert(h as int == abs_hundredths(v@));
    }
    let whole: u128 = h / 100;
    let frac: u128 = h % 100;
    let mut out = String::new();
    if v.num < 0 {
        out.append("-");
    }
    let whole_text = unsigned_to_string(whole);
    out.append(whole_text.as_str());
    out.append(".");
    if frac < 10 {
        out.append("0");
    }
    let frac_text = unsigned_to_string(frac);
    out.append(frac_text.as_str());
    proof {
        reveal_strlit("-");
        reveal_strlit(".");
        reveal_strlit("0");
        assert(out@ =~= value_text(v@));
    }
    out
}

} // verus!
