//! Decimal numbers as typed by a user, and amounts of money in whole cents.

use vstd::arithmetic::div_mod::lemma_fundamental_div_mod;
use vstd::arithmetic::div_mod::lemma_fundamental_div_mod_converse;
use vstd::arithmetic::power::lemma_pow0;
use vstd::arithmetic::power::lemma_pow1;
use vstd::arithmetic::power::lemma_pow_adds;
use vstd::arithmetic::power::lemma_pow_increases;
use vstd::arithmetic::power::lemma_pow_positive;
use vstd::arithmetic::power::pow;
use vstd::prelude::*;
use vstd::string::StringExecFns;

verus! {

/// A decimal number `mantissa / 10^scale`.
#[derive(Clone, Copy, Debug, PartialEq, Eq)]
pub struct Decimal {
    pub mantissa: i64,
    pub scale: u32,
}

/// An amount of money in whole cents.
#[derive(Clone, Copy, Debug, PartialEq, Eq)]
pub struct Money {
    pub cents: i128,
}

/// `10^n`.
pub open spec fn pow10(n: nat) -> int {
    pow(10, n)
}

impl Decimal {
    /// The largest whole number of hundredths that is not above the value:
    /// `floor(value * 100)`.
    pub open spec fn floor_hundredths(self) -> int {
        (self.mantissa * 100) / pow10(self.scale as nat)
    }
}

/// Dividing by `c` and then by `d`, rounding down each time, is dividing by
/// `c * d` and rounding down once. Holds for negative `x` too.
pub proof fn lemma_floor_div_twice(x: int, c: int, d: int)
    requires
        0 < c,
        0 < d,
    ensures
        0 < c * d,
        (x / c) / d == x / (c * d),
{
    let q1 = x / c;
    let r1 = x % c;
    let q2 = q1 / d;
    let r2 = q1 % d;
    lemma_fundamental_div_mod(x, c);
    lemma_fundamental_div_mod(q1, d);
    assert(0 < c * d) by (nonlinear_arith)
        requires
            0 < c,
            0 < d,
    ;
    assert(x == q2 * (c * d) + (c * r2 + r1)) by (nonlinear_arith)
        requires
            x == c * q1 + r1,
            q1 == d * q2 + r2,
    ;
    assert(0 <= c * r2 + r1 < c * d) by (nonlinear_arith)
        requires
            0 < c,
            0 <= r1 < c,
            0 <= r2 < d,
    ;
    lemma_fundamental_div_mod_converse(x, c * d, q2, c * r2 + r1);
}

/// Once rounding down has reached `0` or `-1`, dividing further changes nothing.
pub proof fn lemma_floor_div_settled(x: int, k: nat, n: nat)
    requires
        k <= n,
        x / pow10(k) == 0 || x / pow10(k) == -1,
    ensures
        x / pow10(n) == x / pow10(k),
{
    let rest = (n - k) as nat;
    lemma_pow_positive(10, k);
    lemma_pow_positive(10, rest);
    lemma_pow_adds(10, k, rest);
    lemma_floor_div_twice(x, pow10(k), pow10(rest));
    let p = pow10(rest);
    let q = x / pow10(k);
    if q == 0 {
        lemma_fundamental_div_mod_converse(0, p, 0, 0);
    } else {
        lemma_fundamental_div_mod_converse(-1, p, -1, p - 1);
    }
}

/// Whether a character is one of `0` to `9`.
pub open spec fn is_digit(c: char) -> bool {
    '0' <= c && c <= '9'
}

/// The number that a digit stands for.
pub open spec fn digit_value(c: char) -> int {
    c as int - '0' as int
}

/// Whether every character is a digit.
pub open spec fn all_digits(text: Seq<char>) -> bool {
    forall|i: int| 0 <= i < text.len() ==> is_digit(#[trigger] text[i])
}

/// The number that a run of digits stands for, read in base ten.
pub open spec fn digits_value(digits: Seq<char>) -> int
    decreases digits.len(),
{
    if digits.len() == 0 {
        0
    } else {
        digits_value(digits.drop_last()) * 10 + digit_value(digits.last())
    }
}

/// The position of the first `.` at or after `from`, or the length of the
/// text where there is none.
pub open spec fn point_from(text: Seq<char>, from: int) -> int
    decreases text.len() - from,
{
    if from >= text.len() {
        text.len() as int
    } else if text[from] == '.' {
        from
    } else {
        point_from(text, from + 1)
    }
}

/// The number of characters that the sign takes: one for `-` or `+` at the
/// start, none otherwise.
pub open spec fn sign_length(text: Seq<char>) -> int {
    if text.len() > 0 && (text[0] == '-' || text[0] == '+') {
        1
    } else {
        0
    }
}

/// The digits before the point.
pub open spec fn whole_digits(text: Seq<char>) -> Seq<char> {
    let body = text.skip(sign_length(text));
    body.take(point_from(body, 0))
}

/// The digits after the point; none where there is no point.
pub open spec fn fraction_digits(text: Seq<char>) -> Seq<char> {
    let body = text.skip(sign_length(text));
    let point = point_from(body, 0);
    if point < body.len() {
        body.skip(point + 1)
    } else {
        Seq::empty()
    }
}

/// Whether a text is a decimal number: an optional sign, then digits with at
/// most one point among them, and at least one digit in all.
pub open spec fn is_decimal_text(text: Seq<char>) -> bool {
    &&& all_digits(whole_digits(text))
    &&& all_digits(fraction_digits(text))
    &&& whole_digits(text).len() + fraction_digits(text).len() > 0
}

/// The number that a text stands for: its digits without the point are the
/// mantissa, and the number of digits after the point is the scale. `None`
/// where the text is no decimal number, or where the mantissa or the scale
/// does not fit.
pub open spec fn decimal_of_text(text: Seq<char>) -> Option<Decimal> {
    let magnitude = digits_value(whole_digits(text) + fraction_digits(text));
    let scale = fraction_digits(text).len();
    if is_decimal_text(text) && magnitude <= i64::MAX && scale <= u32::MAX {
        Some(
            Decimal {
                mantissa: if text[0] == '-' {
                    (-magnitude) as i64
                } else {
                    magnitude as i64
                },
                scale: scale as u32,
            },
        )
    } else {
        None
    }
}

/// The digits of a decimal text: whether a `-` stands before them, the
/// number that they stand for without the point, and how many of them stand
/// after the point.
#[derive(Clone, Copy, Debug, PartialEq, Eq)]
pub struct Digits {
    pub negative: bool,
    pub magnitude: u64,
    pub fraction_len: usize,
}

/// The digits of a text. `None` where the text is no decimal number, or
/// where the number that its digits stand for does not fit.
pub open spec fn digits_of_text(text: Seq<char>) -> Option<Digits> {
    let magnitude = digits_value(whole_digits(text) + fraction_digits(text));
    let after = fraction_digits(text).len();
    if is_decimal_text(text) && magnitude <= u64::MAX && after <= usize::MAX {
        Some(Digits { negative: text[0] == '-', magnitude: magnitude as u64, fraction_len: after as usize })
    } else {
        None
    }
}

/// The position of the first `e` or `E` at or after `from`, or the length
/// of the text where there is none.
pub open spec fn mark_from(text: Seq<char>, from: int) -> int
    decreases text.len() - from,
{
    if from >= text.len() {
        text.len() as int
    } else if text[from] == 'e' || text[from] == 'E' {
        from
    } else {
        mark_from(text, from + 1)
    }
}

/// Whether a text is a whole number: an optional sign, then one digit or more.
pub open spec fn is_integer_text(text: Seq<char>) -> bool {
    text.len() > sign_length(text) && all_digits(text.skip(sign_length(text)))
}

/// The whole number that a text stands for.
pub open spec fn integer_of_text(text: Seq<char>) -> int {
    let size = digits_value(text.skip(sign_length(text)));
    if text[0] == '-' {
        -size
    } else {
        size
    }
}

/// The part of a number in scientific notation before its `e` or `E`; the
/// whole text where there is none.
pub open spec fn significand(text: Seq<char>) -> Seq<char> {
    text.take(mark_from(text, 0))
}

/// The part of a number in scientific notation after its `e` or `E`, if it
/// has one.
pub open spec fn exponent_text(text: Seq<char>) -> Option<Seq<char>> {
    if mark_from(text, 0) < text.len() {
        Some(text.skip(mark_from(text, 0) + 1))
    } else {
        None
    }
}

/// Whether a text is a number in scientific notation: a decimal number,
/// and after it, if anything, `e` or `E` and a whole number. `0.92`, `1e-7`
/// and `1.5E+16` are such texts.
pub open spec fn is_scientific_text(text: Seq<char>) -> bool {
    &&& is_decimal_text(significand(text))
    &&& exponent_text(text) matches Some(exponent) ==> is_integer_text(exponent)
}

/// The power of ten that the digits of a number in scientific notation,
/// read without their point, are to be multiplied by: the exponent, less
/// the number of digits after the point.
pub open spec fn power_of_text(text: Seq<char>) -> int {
    let exponent = match exponent_text(text) {
        Some(exponent) => integer_of_text(exponent),
        None => 0,
    };
    exponent - fraction_digits(significand(text)).len()
}

/// Beyond this size an exponent is not told from a larger one: no power of
/// ten that far out fits.
pub const EXPONENT_LIMIT: i128 = 10000000000000000000000000;

/// A whole number, held within the limit for exponents.
pub open spec fn within_limit(value: int) -> int {
    if value > EXPONENT_LIMIT {
        EXPONENT_LIMIT as int
    } else if value < -EXPONENT_LIMIT {
        -EXPONENT_LIMIT
    } else {
        value
    }
}

/// Where there is no point from `from` up to `at`, the first point at or
/// after `from` is the first point at or after `at`.
proof fn lemma_point_from_skips(text: Seq<char>, from: int, at: int)
    requires
        0 <= from <= at <= text.len(),
        forall|k: int| from <= k < at ==> text[k] != '.',
    ensures
        point_from(text, from) == point_from(text, at),
    decreases at - from,
{
    if from < at {
        lemma_point_from_skips(text, from + 1, at);
    }
}

/// A run of digits stands for a number that is not negative, and a longer
/// run stands for a number that is not smaller.
proof fn lemma_digits_value_grows(digits: Seq<char>, n: int)
    requires
        all_digits(digits),
        0 <= n <= digits.len(),
    ensures
        0 <= digits_value(digits.take(n)) <= digits_value(digits),
    decreases digits.len() - n,
{
    if n == digits.len() {
        assert(digits.take(n) =~= digits);
        lemma_digits_value_nonnegative(digits);
    } else {
        lemma_digits_value_grows(digits, n + 1);
        let longer = digits.take(n + 1);
        assert(longer.drop_last() =~= digits.take(n));
        assert(is_digit(digits[n]));
        assert(longer.last() == digits[n]);
        lemma_digits_value_nonnegative(digits.take(n));
    }
}

proof fn lemma_digits_value_nonnegative(digits: Seq<char>)
    requires
        all_digits(digits),
    ensures
        0 <= digits_value(digits),
    decreases digits.len(),
{
    if digits.len() > 0 {
        assert(is_digit(digits.last()));
        assert forall|i: int| 0 <= i < digits.drop_last().len() implies is_digit(
            #[trigger] digits.drop_last()[i],
        ) by {
            assert(digits.drop_last()[i] == digits[i]);
        }
        lemma_digits_value_nonnegative(digits.drop_last());
    }
}

/// Reads a decimal number: an optional `-` or `+`, then digits with at most
/// one `.` among them, such as `12.34`, `-0.005`, `7`, `.5` or `5.`. Nothing
/// else is accepted: no spaces, no exponent, no text without a digit.
pub fn parse_decimal(text: &str) -> (res: Option<Decimal>)
    ensures
        res == decimal_of_text(text@),
{
    match read_digits(text) {
        None => None,
        Some(digits) => {
            if digits.magnitude > 9223372036854775807 || digits.fraction_len > 4294967295 {
                None
            } else {
                let size = digits.magnitude as i64;
                let mantissa = if digits.negative {
                    -size
                } else {
                    size
                };
                Some(Decimal { mantissa, scale: digits.fraction_len as u32 })
            }
        },
    }
}

/// Reads the digits of a decimal number: an optional `-` or `+`, then
/// digits with at most one `.` among them.
pub fn read_digits(text: &str) -> (res: Option<Digits>)
    ensures
        res == digits_of_text(text@),
        fraction_digits(text@).len() <= usize::MAX,
        res matches Some(digits) ==> digits.magnitude == digits_value(
            whole_digits(text@) + fraction_digits(text@),
        ),
{
    let n = text.unicode_len();
    proof {
        lemma_fraction_is_short(text@);
    }
    let ghost body = text@.skip(sign_length(text@));
    let mut negative = false;
    let mut i: usize = 0;
    if n > 0 {
        let first = text.get_char(0);
        if first == '-' {
            negative = true;
            i = 1;
        } else if first == '+' {
            i = 1;
        }
    }
    let start = i;
    let mut magnitude: u64 = 0;
    let mut scale: usize = 0;
    let mut seen = false;
    let mut count: usize = 0;
    let ghost mut point: int = 0;
    proof {
        assert(body.take(0) =~= Seq::<char>::empty());
    }
    while i < n
        invariant
            start == sign_length(text@),
            start <= i <= n,
            n == text@.len(),
            body == text@.skip(start as int),
            fraction_digits(text@).len() <= usize::MAX,
            !seen ==> {
                &&& forall|k: int| 0 <= k < i - start ==> is_digit(#[trigger] body[k])
                &&& magnitude == digits_value(body.take(i - start))
                &&& scale == 0
                &&& count == i - start
            },
            seen ==> {
                &&& 0 <= point < i - start
                &&& body[point] == '.'
                &&& forall|k: int| 0 <= k < point ==> is_digit(#[trigger] body[k])
                &&& forall|k: int| point < k < i - start ==> is_digit(#[trigger] body[k])
                &&& magnitude == digits_value(body.take(point) + body.subrange(point + 1, i - start))
                &&& scale == i - start - point - 1
                &&& count == i - start - 1
            },
        decreases n - i,
    {
        let c = text.get_char(i);
        let ghost j = i - start;
        assert(body[j] == c);
        let ghost sofar = if seen {
            body.take(point) + body.subrange(point + 1, j)
        } else {
            body.take(j)
        };
        if c == '.' && !seen {
            proof {
                point = j;
                lemma_point_from_skips(body, 0, j);
                assert(body.subrange(j + 1, j + 1) =~= Seq::<char>::empty());
                assert(body.take(j) + Seq::<char>::empty() =~= body.take(j));
            }
            seen = true;
        } else if '0' <= c && c <= '9' {
            let digit = (c as u32 - '0' as u32) as u64;
            let ghost next = sofar.push(c);
            proof {
                assert(next.drop_last() =~= sofar);
                if seen {
                    assert(next =~= body.take(point) + body.subrange(point + 1, j + 1));
                } else {
                    assert(next =~= body.take(j + 1));
                }
            }
            let grown = match magnitude.checked_mul(10) {
                Some(tens) => tens.checked_add(digit),
                None => None,
            };
            match grown {
                Some(m) => {
                    magnitude = m;
                },
                None => {
                    proof {
                        lemma_prefix_too_large(text@, body, seen, point, j, next);
                    }
                    return None;
                },
            }
            if seen {
                scale = scale + 1;
            }
            count = count + 1;
        } else {
            proof {
                lemma_bad_character(text@, body, seen, point, j);
            }
            return None;
        }
        i = i + 1;
    }
    proof {
        let j = n - start;
        if seen {
            lemma_fraction_holds(text@, body, point);
            assert(body.subrange(point + 1, j) =~= body.skip(point + 1));
        } else {
            lemma_point_from_skips(body, 0, j);
            assert(body.take(j) =~= body);
            assert(whole_digits(text@) =~= body);
            assert(fraction_digits(text@) =~= Seq::<char>::empty());
            assert(body + Seq::<char>::empty() =~= body);
        }
    }
    if count == 0 {
        return None;
    }
    Some(Digits { negative, magnitude, fraction_len: scale })
}

/// The digits after the point are fewer than the characters of the text.
proof fn lemma_fraction_is_short(text: Seq<char>)
    ensures
        fraction_digits(text).len() <= text.len(),
{
    let body = text.skip(sign_length(text));
    lemma_point_at_or_after(body, 0);
}

/// With the first point of `body` at `point`, the digits before the point
/// are the characters before it, and the digits after it are the rest.
proof fn lemma_fraction_holds(text: Seq<char>, body: Seq<char>, point: int)
    requires
        body == text.skip(sign_length(text)),
        0 <= point < body.len(),
        body[point] == '.',
        forall|k: int| 0 <= k < point ==> is_digit(#[trigger] body[k]),
    ensures
        point_from(body, 0) == point,
        whole_digits(text) == body.take(point),
        fraction_digits(text) == body.skip(point + 1),
{
    assert forall|k: int| 0 <= k < point implies body[k] != '.' by {
        assert(is_digit(body[k]));
    }
    lemma_point_from_skips(body, 0, point);
}

/// A character that is neither a digit nor the first point makes the text
/// no decimal number.
proof fn lemma_bad_character(text: Seq<char>, body: Seq<char>, seen: bool, point: int, j: int)
    requires
        body == text.skip(sign_length(text)),
        0 <= j < body.len(),
        !is_digit(body[j]),
        !seen ==> body[j] != '.' && forall|k: int| 0 <= k < j ==> is_digit(#[trigger] body[k]),
        seen ==> 0 <= point < j && body[point] == '.' && forall|k: int|
            0 <= k < point ==> is_digit(#[trigger] body[k]),
    ensures
        !is_decimal_text(text),
{
    if seen {
        lemma_fraction_holds(text, body, point);
        assert(fraction_digits(text)[j - point - 1] == body[j]);
    } else {
        assert forall|k: int| 0 <= k < j + 1 implies body[k] != '.' by {
            if k < j {
                assert(is_digit(body[k]));
            }
        }
        lemma_point_from_skips(body, 0, j + 1);
        lemma_point_at_or_after(body, j + 1);
        assert(whole_digits(text)[j] == body[j]);
    }
}

/// The first point at or after `from` is at or after `from`, and within the text.
proof fn lemma_point_at_or_after(text: Seq<char>, from: int)
    requires
        0 <= from <= text.len(),
    ensures
        from <= point_from(text, from) <= text.len(),
    decreases text.len() - from,
{
    if from < text.len() && text[from] != '.' {
        lemma_point_at_or_after(text, from + 1);
    }
}

/// Digits read so far that already stand for more than fits make the whole
/// text stand for more than fits, or for nothing.
proof fn lemma_prefix_too_large(
    text: Seq<char>,
    body: Seq<char>,
    seen: bool,
    point: int,
    j: int,
    next: Seq<char>,
)
    requires
        body == text.skip(sign_length(text)),
        0 <= j < body.len(),
        is_digit(body[j]),
        !seen ==> next == body.take(j + 1) && forall|k: int|
            0 <= k < j ==> is_digit(#[trigger] body[k]),
        seen ==> 0 <= point < j && body[point] == '.' && next == body.take(point) + body.subrange(
            point + 1,
            j + 1,
        ) && forall|k: int| 0 <= k < point ==> is_digit(#[trigger] body[k]),
        digits_value(next) > u64::MAX,
    ensures
        digits_of_text(text) is None,
{
    let digits = whole_digits(text) + fraction_digits(text);
    if is_decimal_text(text) {
        assert(all_digits(digits));
        if seen {
            lemma_fraction_holds(text, body, point);
            assert(digits.take(j) =~= next);
            lemma_digits_value_grows(digits, j);
        } else {
            assert forall|k: int| 0 <= k < j + 1 implies body[k] != '.' by {
                assert(is_digit(body[k]));
            }
            lemma_point_from_skips(body, 0, j + 1);
            lemma_point_at_or_after(body, j + 1);
            assert(digits.take(j + 1) =~= next);
            lemma_digits_value_grows(digits, j + 1);
        }
    }
}

/// The character that stands for a number from 0 to 9.
pub open spec fn digit_char(d: int) -> char {
    ('0' as int + d) as char
}

/// A natural number written in base ten, without leading zeros.
pub open spec fn natural_text(n: nat) -> Seq<char>
    decreases n,
{
    if n < 10 {
        seq![digit_char(n as int)]
    } else {
        natural_text(n / 10).push(digit_char((n % 10) as int))
    }
}

/// The size of an amount, whatever its sign.
pub open spec fn magnitude(cents: int) -> nat {
    if cents < 0 {
        (-cents) as nat
    } else {
        cents as nat
    }
}

/// An amount written with two digits after the point: `-` where it is below
/// zero, the whole units, `.`, and the cents.
pub open spec fn amount_text(cents: int) -> Seq<char> {
    let size = magnitude(cents);
    let sign = if cents < 0 {
        seq!['-']
    } else {
        Seq::<char>::empty()
    };
    sign + natural_text(size / 100) + seq![
        '.',
        digit_char(((size / 10) % 10) as int),
        digit_char((size % 10) as int),
    ]
}

/// The text of a digit: the character for a number below ten.
fn digit_text(d: u8) -> (text: &'static str)
    requires
        d < 10,
    ensures
        text@ == seq![digit_char(d as int)],
{
    proof {
        reveal_strlit("0");
        reveal_strlit("1");
        reveal_strlit("2");
        reveal_strlit("3");
        reveal_strlit("4");
        reveal_strlit("5");
        reveal_strlit("6");
        reveal_strlit("7");
        reveal_strlit("8");
        reveal_strlit("9");
    }
    let text = match d {
        0 => "0",
        1 => "1",
        2 => "2",
        3 => "3",
        4 => "4",
        5 => "5",
        6 => "6",
        7 => "7",
        8 => "8",
        _ => "9",
    };
    assert(text@ =~= seq![digit_char(d as int)]);
    text
}

/// Appends a natural number in base ten.
fn push_natural(out: &mut String, n: u128)
    ensures
        final(out)@ == old(out)@ + natural_text(n as nat),
    decreases n,
{
    if n >= 10 {
        push_natural(out, n / 10);
    }
    let ghost before = out@;
    out.append(digit_text((n % 10) as u8));
    assert(out@ =~= before.push(digit_char((n % 10) as int)));
}

impl Money {
    /// The amount as text with two digits after the point, such as `105.00`
    /// or `-0.01`.
    pub fn to_text(&self) -> (text: String)
        ensures
            text@ == amount_text(self.cents as int),
    {
        let mut text = String::new();
        proof {
            reveal_strlit("-");
            reveal_strlit(".");
        }
        let size: u128 = if self.cents >= 0 {
            self.cents as u128
        } else {
            text.append("-");
            (-(self.cents + 1)) as u128 + 1
        };
        let ghost sign = text@;
        assert(sign =~= if self.cents < 0 {
            seq!['-']
        } else {
            Seq::<char>::empty()
        });
        push_natural(&mut text, size / 100);
        text.append(".");
        text.append(digit_text(((size / 10) % 10) as u8));
        text.append(digit_text((size % 10) as u8));
        assert(text@ =~= amount_text(self.cents as int));
        text
    }

    /// The amount as it is shown: the currency's symbol, then the amount
    /// with two digits after the point.
    pub fn display(&self, symbol: &str) -> (text: String)
        ensures
            text@ == symbol@ + amount_text(self.cents as int),
    {
        let mut text = String::from_str(symbol);
        let amount = self.to_text();
        text.append(amount.as_str());
        text
    }
}

/// `10^scale`, where it fits.
pub fn power_of_ten(scale: u32) -> (res: Option<u64>)
    ensures
        pow10(scale as nat) <= u64::MAX ==> res == Some(pow10(scale as nat) as u64),
        pow10(scale as nat) > u64::MAX ==> res is None,
{
    let mut power: u64 = 1;
    let mut k: u32 = 0;
    proof {
        lemma_pow0(10);
    }
    while k < scale
        invariant
            k <= scale,
            power == pow10(k as nat),
        decreases scale - k,
    {
        proof {
            lemma_pow1(10);
            lemma_pow_adds(10, k as nat, 1);
        }
        match power.checked_mul(10) {
            Some(next) => {
                power = next;
            },
            None => {
                proof {
                    lemma_pow_increases(10, (k + 1) as nat, scale as nat);
                }
                return None;
            },
        }
        k = k + 1;
    }
    Some(power)
}

/// Where there is no `e` or `E` from `from` up to `at`, the first one at or
/// after `from` is the first one at or after `at`.
proof fn lemma_mark_from_skips(text: Seq<char>, from: int, at: int)
    requires
        0 <= from <= at <= text.len(),
        forall|k: int| from <= k < at ==> text[k] != 'e' && text[k] != 'E',
    ensures
        mark_from(text, from) == mark_from(text, at),
    decreases at - from,
{
    if from < at {
        lemma_mark_from_skips(text, from + 1, at);
    }
}

/// The position of the first `e` or `E` of a text, or its length where it
/// has none.
pub fn find_mark(text: &str) -> (mark: usize)
    ensures
        mark == mark_from(text@, 0),
        mark <= text@.len(),
{
    let n = text.unicode_len();
    let mut i: usize = 0;
    while i < n
        invariant
            i <= n,
            n == text@.len(),
            forall|k: int| 0 <= k < i ==> text@[k] != 'e' && text@[k] != 'E',
        decreases n - i,
    {
        let c = text.get_char(i);
        if c == 'e' || c == 'E' {
            proof {
                lemma_mark_from_skips(text@, 0, i as int);
            }
            return i;
        }
        i = i + 1;
    }
    proof {
        lemma_mark_from_skips(text@, 0, n as int);
    }
    n
}

/// Reads a whole number: an optional `-` or `+`, then one digit or more. A
/// number beyond the limit for exponents comes back as the limit.
pub fn read_exponent(text: &str) -> (res: Option<i128>)
    ensures
        res is Some <==> is_integer_text(text@),
        res matches Some(value) ==> value == within_limit(integer_of_text(text@)),
{
    let n = text.unicode_len();
    let mut negative = false;
    let mut i: usize = 0;
    if n > 0 {
        let first = text.get_char(0);
        if first == '-' {
            negative = true;
            i = 1;
        } else if first == '+' {
            i = 1;
        }
    }
    let start = i;
    let ghost body = text@.skip(start as int);
    let mut size: i128 = 0;
    proof {
        assert(body.take(0) =~= Seq::<char>::empty());
    }
    while i < n
        invariant
            start == sign_length(text@),
            start <= i <= n,
            n == text@.len(),
            body == text@.skip(start as int),
            forall|k: int| 0 <= k < i - start ==> is_digit(#[trigger] body[k]),
            0 <= digits_value(body.take(i - start)),
            size == within_limit(digits_value(body.take(i - start))),
        decreases n - i,
    {
        let c = text.get_char(i);
        let ghost j = i - start;
        assert(body[j] == c);
        if !('0' <= c && c <= '9') {
            return None;
        }
        let digit = (c as u32 - '0' as u32) as i128;
        proof {
            assert(body.take(j + 1).drop_last() =~= body.take(j));
            assert(body.take(j + 1).last() == c);
        }
        let next = size * 10 + digit;
        size = if next > EXPONENT_LIMIT {
            EXPONENT_LIMIT
        } else {
            next
        };
        i = i + 1;
    }
    proof {
        assert(body.take(n - start) =~= body);
    }
    if n == start {
        return None;
    }
    if negative {
        Some(-size)
    } else {
        Some(size)
    }
}

/// Each power of ten is ten times the one before.
proof fn lemma_pow10_step(n: nat)
    ensures
        pow10(n + 1) == 10 * pow10(n),
{
    lemma_pow1(10);
    lemma_pow_adds(10, n, 1);
    assert(pow10(n) * pow10(1) == 10 * pow10(n)) by (nonlinear_arith)
        requires
            pow10(1) == 10,
    ;
}

/// The largest power of ten that fits is the nineteenth.
pub proof fn lemma_pow10_limits(n: nat)
    ensures
        pow10(19) == 10000000000000000000,
        n <= 19 ==> 1 <= pow10(n) <= 10000000000000000000,
        n >= 20 ==> pow10(n) > u64::MAX,
{
    lemma_pow0(10);
    lemma_pow10_step(0);
    lemma_pow10_step(1);
    lemma_pow10_step(2);
    lemma_pow10_step(3);
    lemma_pow10_step(4);
    lemma_pow10_step(5);
    lemma_pow10_step(6);
    lemma_pow10_step(7);
    lemma_pow10_step(8);
    lemma_pow10_step(9);
    assert(pow10(10) == 10000000000);
    lemma_pow10_step(10);
    lemma_pow10_step(11);
    lemma_pow10_step(12);
    lemma_pow10_step(13);
    lemma_pow10_step(14);
    lemma_pow10_step(15);
    lemma_pow10_step(16);
    lemma_pow10_step(17);
    lemma_pow10_step(18);
    lemma_pow10_step(19);
    assert(pow10(19) == 10000000000000000000);
    assert(pow10(20) == 100000000000000000000);
    lemma_pow_positive(10, n);
    if n <= 19 {
        lemma_pow_increases(10, n, 19);
    } else {
        lemma_pow_increases(10, 20, n);
    }
}

} // verus!
