//! Decimal money strings to and from integer minor units (cents).
//!
//! A money string is a run of decimal digits with at most one decimal
//! point: `"23"`, `"23.4"`, `"23.45"`, `"23.456"`.  A fractional group of
//! one digit is implicitly zero-padded to two digits; fractional digits
//! beyond the first two are dropped (truncated, not rounded).  Formatting
//! always renders exactly two fractional digits, so parsing a formatted
//! value returns the original number.

use vstd::prelude::*;
use vstd::string::{StrSliceExecFns, StringExecFns};

verus! {

/// Numeric value of a digit character; 10 marks a non-digit.
pub open spec fn digit_value(c: char) -> nat {
    if c == '0' {
        0
    } else if c == '1' {
        1
    } else if c == '2' {
        2
    } else if c == '3' {
        3
    } else if c == '4' {
        4
    } else if c == '5' {
        5
    } else if c == '6' {
        6
    } else if c == '7' {
        7
    } else if c == '8' {
        8
    } else if c == '9' {
        9
    } else {
        10
    }
}

pub open spec fn is_digit_char(c: char) -> bool {
    digit_value(c) < 10
}

/// The digit character for a value below ten.
pub open spec fn char_of_digit(d: nat) -> char {
    if d == 0 {
        '0'
    } else if d == 1 {
        '1'
    } else if d == 2 {
        '2'
    } else if d == 3 {
        '3'
    } else if d == 4 {
        '4'
    } else if d == 5 {
        '5'
    } else if d == 6 {
        '6'
    } else if d == 7 {
        '7'
    } else if d == 8 {
        '8'
    } else {
        '9'
    }
}

pub open spec fn all_digits(s: Seq<char>) -> bool {
    forall|i: int| 0 <= i < s.len() ==> is_digit_char(#[trigger] s[i])
}

/// Value of a run of digit characters, most significant first.
pub open spec fn dec_value(s: Seq<char>) -> nat
    decreases s.len(),
{
    if s.len() == 0 {
        0
    } else {
        dec_value(s.drop_last()) * 10 + digit_value(s.last())
    }
}

/// Shortest decimal rendering of a number (a single `'0'` for zero).
pub open spec fn dec_digits(n: nat) -> Seq<char>
    decreases n,
{
    if n < 10 {
        seq![char_of_digit(n)]
    } else {
        dec_digits(n / 10).push(char_of_digit(n % 10))
    }
}

/// `k` is the position of the one and only decimal point of `s`.
pub open spec fn is_dot_split(s: Seq<char>, k: int) -> bool {
    &&& 0 <= k < s.len()
    &&& s[k] == '.'
    &&& forall|j: int| 0 <= j < s.len() && j != k ==> s[j] != '.'
}

pub open spec fn dot_index(s: Seq<char>) -> int {
    choose|k: int| is_dot_split(s, k)
}

/// Cents denoted by a fractional group: implicit zero-padding to two
/// digits, truncation beyond two digits.
pub open spec fn frac_cents(f: Seq<char>) -> nat {
    if f.len() == 0 {
        0
    } else if f.len() == 1 {
        digit_value(f[0]) * 10
    } else {
        digit_value(f[0]) * 10 + digit_value(f[1])
    }
}

/// The strings [`convert_money_from_string`] accepts: digits with at most
/// one decimal point, a non-empty integer group, any number (including
/// zero) of fractional digits.
pub open spec fn valid_money_chars(s: Seq<char>) -> bool {
    if exists|k: int| is_dot_split(s, k) {
        let k = dot_index(s);
        &&& k >= 1
        &&& all_digits(s.take(k))
        &&& all_digits(s.skip(k + 1))
    } else {
        s.len() > 0 && all_digits(s)
    }
}

/// Minor units denoted by a valid money string.
pub open spec fn money_cents(s: Seq<char>) -> nat {
    if exists|k: int| is_dot_split(s, k) {
        let k = dot_index(s);
        dec_value(s.take(k)) * 100 + frac_cents(s.skip(k + 1))
    } else {
        dec_value(s) * 100
    }
}

/// The rendering produced by [`format_money_amount`]: the integer part,
/// a point, and exactly two fractional digits.
pub open spec fn money_string(n: nat) -> Seq<char> {
    dec_digits(n / 100) + seq!['.', char_of_digit((n / 10) % 10), char_of_digit(n % 10)]
}

/// Digit runs grow when extended on the right.
proof fn lemma_dec_value_take_le(s: Seq<char>, i: int)
    requires
        0 <= i <= s.len(),
    ensures
        dec_value(s.take(i)) <= dec_value(s),
    decreases s.len(),
{
    if i < s.len() {
        lemma_dec_value_take_le(s.drop_last(), i);
        assert(s.drop_last().take(i) =~= s.take(i));
    } else {
        assert(s.take(i) =~= s);
    }
}

proof fn lemma_dec_digits_all_digits(n: nat)
    ensures
        all_digits(dec_digits(n)),
        dec_digits(n).len() >= 1,
    decreases n,
{
    if n >= 10 {
        lemma_dec_digits_all_digits(n / 10);
    }
}

proof fn lemma_dec_value_of_digits(n: nat)
    ensures
        dec_value(dec_digits(n)) == n,
    decreases n,
{
    if n < 10 {
        let s1 = dec_digits(n);
        assert(s1.drop_last() =~= Seq::<char>::empty());
        assert(dec_value(Seq::<char>::empty()) == 0);
        assert(s1.last() == char_of_digit(n));
        assert(digit_value(char_of_digit(n)) == n);
    } else {
        lemma_dec_value_of_digits(n / 10);
        assert(dec_digits(n).drop_last() =~= dec_digits(n / 10));
        assert(dec_digits(n).last() == char_of_digit(n % 10));
        assert(digit_value(char_of_digit(n % 10)) == n % 10);
    }
}

/// A single-character string for a digit value.
fn digit_str(d: u128) -> (r: &'static str)
    requires
        d < 10,
    ensures
        r@ =~= seq![char_of_digit(d as nat)],
{
    proof {
        reveal_strlit("0");
        reveal_strlit("1");
        reveal_strlit("2");
        reveal_strlit("3");
        reveal_strlit("4");
        reveal_strlit("5");
        reveal_strlit("6");
        reveal_strlit("7");
        reveal_strlit("8");
        reveal_strlit("9");
    }
    if d == 0 {
        "0"
    } else if d == 1 {
        "1"
    } else if d == 2 {
        "2"
    } else if d == 3 {
        "3"
    } else if d == 4 {
        "4"
    } else if d == 5 {
        "5"
    } else if d == 6 {
        "6"
    } else if d == 7 {
        "7"
    } else if d == 8 {
        "8"
    } else {
        "9"
    }
}

/// Digit value of a character, or an error for a non-digit.
fn digit_of_char(c: char) -> (r: Result<u128, ()>)
    ensures
        r matches Ok(v) ==> v < 10 && v as nat == digit_value(c),
        r is Err <==> !is_digit_char(c),
{
    match c {
        '0' => Ok(0),
        '1' => Ok(1),
        '2' => Ok(2),
        '3' => Ok(3),
        '4' => Ok(4),
        '5' => Ok(5),
        '6' => Ok(6),
        '7' => Ok(7),
        '8' => Ok(8),
        '9' => Ok(9),
        _ => Err(()),
    }
}

/// Parses the character range `[from, to)` of `s` as a run of decimal
/// digits.  Errors on an empty range, on a non-digit, and on a value
/// beyond `u128`.
fn parse_digit_range(s: &str, from: usize, to: usize) -> (r: Result<u128, ()>)
    requires
        from <= to <= s@.len(),
    ensures
        r is Ok <==> from < to && all_digits(s@.subrange(from as int, to as int)) && dec_value(
            s@.subrange(from as int, to as int),
        ) <= u128::MAX,
        r matches Ok(v) ==> v as nat == dec_value(s@.subrange(from as int, to as int)),
{
    if from == to {
        return Err(());
    }
    let mut acc: u128 = 0;
    let mut i: usize = from;
    while i < to
        invariant
            from <= i <= to <= s@.len(),
            acc as nat == dec_value(s@.subrange(from as int, i as int)),
            all_digits(s@.subrange(from as int, i as int)),
        decreases to - i,
    {
        let c = s.get_char(i);
        let d = match digit_of_char(c) {
            Ok(d) => d,
            Err(()) => {
                proof {
                    let whole = s@.subrange(from as int, to as int);
                    assert(whole[i - from] == c);
                    assert(!all_digits(whole));
                }
                return Err(());
            },
        };
        proof {
            let prev = s@.subrange(from as int, i as int);
            let next = s@.subrange(from as int, i + 1);
            assert(next.drop_last() =~= prev);
            assert(next.last() == c);
        }
        if acc > (u128::MAX - d) / 10 {
            proof {
                let next = s@.subrange(from as int, i + 1);
                let cap = (u128::MAX - d) as nat;
                assert(cap == (cap / 10) * 10 + cap % 10);
                assert(dec_value(next) > u128::MAX);
                let whole = s@.subrange(from as int, to as int);
                assert(whole.take(i + 1 - from) =~= next);
                lemma_dec_value_take_le(whole, i + 1 - from);
            }
            return Err(());
        }
        proof {
            let cap = (u128::MAX - d) as nat;
            assert(cap == (cap / 10) * 10 + cap % 10);
        }
        acc = acc * 10 + d;
        i = i + 1;
    }
    proof {
        assert(s@.subrange(from as int, to as int) =~= s@.subrange(from as int, i as int));
    }
    Ok(acc)
}

/// Parses a whole string as a non-negative decimal integer, with no sign
/// and no decimal point.
pub fn parse_unsigned(s: &str) -> (r: Result<u128, ()>)
    ensures
        r is Ok <==> s@.len() > 0 && all_digits(s@) && dec_value(s@) <= u128::MAX,
        r matches Ok(v) ==> v as nat == dec_value(s@),
{
    let n = s.unicode_len();
    let r = parse_digit_range(s, 0, n);
    proof {
        assert(s@.subrange(0, n as int) =~= s@);
    }
    r
}

/// Parses a decimal money string to minor units: `"23.45"` to 2345,
/// `"7"` to 700, `"1.005"` to 100 (truncation, not rounding).  Errors on
/// anything but digits around at most one decimal point, and on a value
/// beyond `u128`.
pub fn convert_money_from_string(amount: String) -> (r: Result<u128, ()>)
    ensures
        r is Ok <==> valid_money_chars(amount@) && money_cents(amount@) <= u128::MAX,
        r matches Ok(v) ==> v as nat == money_cents(amount@),
{
    let s = amount.as_str();
    let n = s.unicode_len();
    let mut dot: Option<usize> = None;
    let mut i: usize = 0;
    while i < n
        invariant
            s@ == amount@,
            i <= n == s@.len(),
            dot matches Some(k) ==> k < i && s@[k as int] == '.' && forall|j: int|
                0 <= j < i && j != k ==> s@[j] != '.',
            dot is None ==> forall|j: int| 0 <= j < i ==> s@[j] != '.',
        decreases n - i,
    {
        let c = s.get_char(i);
        if c == '.' {
            match dot {
                Some(k) => {
                    proof {
                        assert(forall|k2: int| !is_dot_split(s@, k2)) by {
                            assert forall|k2: int| !is_dot_split(s@, k2) by {
                                if is_dot_split(s@, k2) {
                                    assert(s@[k as int] == '.');
                                    assert(s@[i as int] == '.');
                                }
                            }
                        }
                        assert(!is_digit_char('.'));
                        assert(!all_digits(s@));
                    }
                    return Err(());
                },
                None => {
                    dot = Some(i);
                },
            }
        }
        i = i + 1;
    }
    match dot {
        None => {
            proof {
                assert forall|k: int| !is_dot_split(s@, k) by {
                    if is_dot_split(s@, k) {
                        assert(s@[k] == '.');
                    }
                }
            }
            let dollars = match parse_digit_range(s, 0, n) {
                Ok(v) => v,
                Err(()) => {
                    proof {
                        assert(s@.subrange(0, n as int) =~= s@);
                        if all_digits(s@) && n > 0 && money_cents(s@) <= u128::MAX {
                            assert(dec_value(s@) <= dec_value(s@) * 100);
                        }
                    }
                    return Err(());
                },
            };
            proof {
                assert(s@.subrange(0, n as int) =~= s@);
            }
            if dollars > u128::MAX / 100 {
                proof {
                    assert(u128::MAX as nat == (u128::MAX as nat / 100) * 100 + u128::MAX as nat
                        % 100);
                }
                return Err(());
            }
            proof {
                assert(u128::MAX as nat == (u128::MAX as nat / 100) * 100 + u128::MAX as nat
                    % 100);
            }
            Ok(dollars * 100)
        },
        Some(k) => {
            proof {
                assert(is_dot_split(s@, k as int));
                assert(dot_index(s@) == k as int) by {
                    let k2 = dot_index(s@);
                    assert(is_dot_split(s@, k2));
                }
            }
            if k == 0 {
                return Err(());
            }
            // Validate the fractional group and read its first two digits.
            let ghost frac = s@.skip(k + 1);
            let mut j: usize = k + 1;
            let mut cents: u128 = 0;
            while j < n
                invariant
                    s@ == amount@,
                    k < j <= n == s@.len(),
                    is_dot_split(s@, k as int),
                    dot_index(s@) == k as int,
                    frac == s@.skip(k + 1),
                    forall|t: int| k + 1 <= t < j ==> is_digit_char(#[trigger] s@[t]),
                    j == k + 2 ==> cents as nat == digit_value(frac[0]) * 10,
                    j >= k + 3 ==> cents as nat == digit_value(frac[0]) * 10 + digit_value(
                        frac[1],
                    ),
                    j == k + 1 ==> cents == 0,
                decreases n - j,
            {
                let c = s.get_char(j);
                let d = match digit_of_char(c) {
                    Ok(d) => d,
                    Err(()) => {
                        proof {
                            assert(frac[j - k - 1] == c);
                            assert(!all_digits(frac));
                        }
                        return Err(());
                    },
                };
                if j == k + 1 {
                    proof {
                        assert(frac[0] == s@[k + 1]);
                    }
                    cents = d * 10;
                } else if j == k + 2 {
                    proof {
                        assert(frac[1] == s@[k + 2]);
                    }
                    cents = cents + d;
                }
                j = j + 1;
            }
            proof {
                assert(all_digits(frac)) by {
                    assert forall|t: int| 0 <= t < frac.len() implies is_digit_char(
                        #[trigger] frac[t],
                    ) by {
                        assert(frac[t] == s@[k + 1 + t]);
                    }
                }
                assert(cents as nat == frac_cents(frac));
                assert(cents < 100);
            }
            let dollars = match parse_digit_range(s, 0, k) {
                Ok(v) => v,
                Err(()) => {
                    proof {
                        if all_digits(s@.take(k as int)) && money_cents(s@) <= u128::MAX {
                            let dv = dec_value(s@.take(k as int));
                            assert(s@.subrange(0, k as int) =~= s@.take(k as int));
                            assert(dv <= dv * 100);
                        }
                    }
                    return Err(());
                },
            };
            proof {
                assert(s@.subrange(0, k as int) =~= s@.take(k as int));
            }
            if dollars > (u128::MAX - cents) / 100 {
                proof {
                    let cap = (u128::MAX - cents) as nat;
                    assert(cap == (cap / 100) * 100 + cap % 100);
                }
                return Err(());
            }
            proof {
                let cap = (u128::MAX - cents) as nat;
                assert(cap == (cap / 100) * 100 + cap % 100);
            }
            Ok(dollars * 100 + cents)
        },
    }
}

/// Shortest decimal rendering of an unsigned integer.
pub fn format_unsigned(n: u128) -> (r: String)
    ensures
        r@ == dec_digits(n as nat),
    decreases n,
{
    if n < 10 {
        String::from_str(digit_str(n))
    } else {
        let mut prefix = format_unsigned(n / 10);
        prefix.append(digit_str(n % 10));
        proof {
            assert(dec_digits((n / 10) as nat) + seq![char_of_digit((n % 10) as nat)] =~= dec_digits(
                (n / 10) as nat,
            ).push(char_of_digit((n % 10) as nat)));
        }
        prefix
    }
}

/// Renders minor units as a money string with exactly two fractional
/// digits: 2345 to `"23.45"`, 4 to `"0.04"`, 100 to `"1.00"`.
pub fn format_money_amount(amount: u128) -> (r: String)
    ensures
        r@ == money_string(amount as nat),
{
    let mut out = format_unsigned(amount / 100);
    proof {
        reveal_strlit(".");
    }
    out.append(".");
    out.append(digit_str((amount / 10) % 10));
    out.append(digit_str(amount % 10));
    proof {
        assert(out@ =~= money_string(amount as nat));
    }
    out
}

/// Round trip: parsing a formatted amount returns the amount.  Together
/// with the postconditions of [`format_money_amount`] and
/// [`convert_money_from_string`], this pins
/// `convert_money_from_string(format_money_amount(n)) == Ok(n)` for every
/// `n`.
pub proof fn lemma_money_round_trip(n: u128)
    ensures
        valid_money_chars(money_string(n as nat)),
        money_cents(money_string(n as nat)) == n as nat,
{
    let m = n as nat;
    let s = money_string(m);
    let digits = dec_digits(m / 100);
    let k = digits.len() as int;
    lemma_dec_digits_all_digits(m / 100);
    assert(is_dot_split(s, k)) by {
        assert forall|j: int| 0 <= j < s.len() && j != k implies s[j] != '.' by {
            if j < k {
                assert(s[j] == digits[j]);
                assert(is_digit_char(digits[j]));
            }
        }
    }
    assert(dot_index(s) == k) by {
        let k2 = dot_index(s);
        assert(is_dot_split(s, k2));
    }
    assert(s.take(k) =~= digits);
    let frac = s.skip(k + 1);
    assert(frac =~= seq![char_of_digit((m / 10) % 10), char_of_digit(m % 10)]);
    lemma_dec_value_of_digits(m / 100);
    assert(frac_cents(frac) == ((m / 10) % 10) * 10 + m % 10);
    assert(m == (m / 100) * 100 + ((m / 10) % 10) * 10 + m % 10) by {
        assert(m == (m / 10) * 10 + m % 10);
        assert(m / 10 == ((m / 10) / 10) * 10 + (m / 10) % 10);
        assert((m / 10) / 10 == m / 100) by (nonlinear_arith);
        assert(((m / 100) * 10 + (m / 10) % 10) * 10 == (m / 100) * 100 + ((m / 10) % 10) * 10)
            by (nonlinear_arith);
    }
}

} // verus!
