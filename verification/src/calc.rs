//! The balance accumulator and the report in two currencies.

use crate::config::Config;
use crate::config::ConfigView;
use crate::config::currency_by_code;
use crate::config::currency_by_name;
use crate::config::find_by_code;
use crate::config::find_by_name;
use crate::failure::Failure;
use crate::json::json_number_at;
use crate::json::number_at;
use crate::money::Decimal;
use crate::money::Money;
use crate::money::amount_text;
use crate::money::decimal_of_text;
use crate::money::digits_value;
use crate::money::find_mark;
use crate::money::fraction_digits;
use crate::money::is_decimal_text;
use crate::money::is_scientific_text;
use crate::money::lemma_pow10_limits;
use crate::money::power_of_text;
use crate::money::read_digits;
use crate::money::read_exponent;
use crate::money::significand;
use crate::money::whole_digits;
use crate::money::within_limit;
use crate::money::lemma_floor_div_settled;
use crate::money::lemma_floor_div_twice;
use crate::money::parse_decimal;
use crate::money::pow10;
use crate::money::power_of_ten;
use vstd::arithmetic::div_mod::lemma_fundamental_div_mod;
use vstd::arithmetic::div_mod::lemma_mod_bound;
use vstd::arithmetic::power::lemma_pow0;
use vstd::arithmetic::power::lemma_pow1;
use vstd::arithmetic::power::lemma_pow_adds;
use vstd::arithmetic::power::lemma_pow_positive;
use vstd::prelude::*;
use vstd::string::StringExecFns;

verus! {

/// Cuts a decimal down to whole cents, towards negative infinity:
/// `12.345` becomes `12.34`, and `-0.005` becomes `-0.01`.
pub fn truncate_to_two(before: Decimal) -> (after: Money)
    ensures
        after.cents == before.floor_hundredths(),
{
    let ghost x: int = before.mantissa * 100;
    let mut q: i128 = (before.mantissa as i128) * 100;
    let mut k: u32 = 0;
    proof {
        lemma_pow0(10);
    }
    while k < before.scale && q != 0 && q != -1
        invariant
            k <= before.scale,
            x == before.mantissa * 100,
            q == x / pow10(k as nat),
            -922337203685477580800 <= q <= 922337203685477580700,
        decreases before.scale - k,
    {
        proof {
            lemma_pow_positive(10, k as nat);
            lemma_pow1(10);
            lemma_pow_adds(10, k as nat, 1);
            lemma_floor_div_twice(x, pow10(k as nat), 10);
        }
        q = q.checked_div_euclid(10).unwrap();
        k = k + 1;
    }
    proof {
        if k < before.scale {
            lemma_floor_div_settled(x, k as nat, before.scale as nat);
        }
    }
    Money { cents: q }
}

/// The sum of a sequence of amounts.
pub open spec fn sum(amounts: Seq<int>) -> int
    decreases amounts.len(),
{
    if amounts.len() == 0 {
        0
    } else {
        sum(amounts.drop_last()) + amounts.last()
    }
}

/// The balance after the first `n` of `deltas` have been added to `start`.
pub open spec fn balance_after(start: int, deltas: Seq<int>, n: int) -> int {
    start + sum(deltas.take(n))
}

/// The highest balance that the account held: the largest of `start`,
/// `start + d1`, `start + d1 + d2`, and so on to the end of `deltas`.
pub open spec fn highest_balance(start: int, deltas: Seq<int>) -> int
    decreases deltas.len(),
{
    if deltas.len() == 0 {
        start
    } else {
        let before = highest_balance(start, deltas.drop_last());
        let last = start + sum(deltas);
        if last > before {
            last
        } else {
            before
        }
    }
}

/// Every balance from the start to the end of `deltas` fits the machine's integers.
pub open spec fn balances_fit(start: int, deltas: Seq<int>) -> bool {
    forall|n: int|
        0 <= n <= deltas.len() ==> i128::MIN <= #[trigger] balance_after(start, deltas, n)
            <= i128::MAX
}

/// The amounts in whole cents that a sequence of decimals is cut down to.
pub open spec fn truncated(values: Seq<Decimal>) -> Seq<int> {
    values.map_values(|v: Decimal| v.floor_hundredths())
}

/// The highest balance is one of the balances, and no balance is above it.
pub proof fn lemma_highest_balance_is_maximum(start: int, deltas: Seq<int>)
    ensures
        exists|n: int|
            0 <= n <= deltas.len() && highest_balance(start, deltas) == #[trigger] balance_after(
                start,
                deltas,
                n,
            ),
        forall|n: int|
            0 <= n <= deltas.len() ==> #[trigger] balance_after(start, deltas, n)
                <= highest_balance(start, deltas),
    decreases deltas.len(),
{
    if deltas.len() == 0 {
        assert(deltas.take(0) =~= deltas);
        assert(highest_balance(start, deltas) == balance_after(start, deltas, 0));
    } else {
        let shorter = deltas.drop_last();
        let full = deltas.len() as int;
        lemma_highest_balance_is_maximum(start, shorter);
        assert(deltas.take(full) =~= deltas);
        assert forall|n: int| 0 <= n <= shorter.len() implies balance_after(start, shorter, n)
            == balance_after(start, deltas, n) by {
            assert(shorter.take(n) =~= deltas.take(n));
        }
        let w = choose|n: int|
            0 <= n <= shorter.len() && highest_balance(start, shorter) == #[trigger] balance_after(
                start,
                shorter,
                n,
            );
        if start + sum(deltas) > highest_balance(start, shorter) {
            assert(highest_balance(start, deltas) == balance_after(start, deltas, full));
        } else {
            assert(highest_balance(start, deltas) == balance_after(start, deltas, w));
        }
        assert forall|n: int| 0 <= n <= deltas.len() implies #[trigger] balance_after(
            start,
            deltas,
            n,
        ) <= highest_balance(start, deltas) by {
            if n < full {
                assert(balance_after(start, shorter, n) <= highest_balance(start, shorter));
            }
        }
    }
}

/// What the accumulator answers to an entry.
#[derive(Clone, Copy, Debug, PartialEq, Eq)]
pub enum Step {
    /// The entry was recorded; more may follow.
    Collecting,
    /// The stream has ended: the highest balance that was recorded.
    Done(Money),
}

/// Takes a starting balance and then transactions one by one, and keeps the
/// current balance and the highest balance seen. It starts out collecting and
/// is done once the end of the stream has been fed to it.
pub struct Accumulator {
    total: i128,
    highest: i128,
    done: bool,
    start: Ghost<int>,
    deltas: Ghost<Seq<int>>,
}

impl Accumulator {
    #[verifier::type_invariant]
    spec fn well_formed(self) -> bool {
        &&& self.total == self.start@ + sum(self.deltas@)
        &&& self.highest == highest_balance(self.start@, self.deltas@)
    }

    /// The starting balance in cents.
    pub closed spec fn start_value(self) -> int {
        self.start@
    }

    /// The transactions recorded so far, in cents, oldest first.
    pub closed spec fn recorded(self) -> Seq<int> {
        self.deltas@
    }

    /// Whether the end of the stream has been fed.
    pub closed spec fn finished(self) -> bool {
        self.done
    }

    /// A collecting accumulator whose only balance so far is `start`, cut down
    /// to whole cents.
    pub fn new(start: Decimal) -> (acc: Accumulator)
        ensures
            acc.start_value() == start.floor_hundredths(),
            acc.recorded() == Seq::<int>::empty(),
            !acc.finished(),
            i128::MIN <= start.floor_hundredths() <= i128::MAX,
    {
        let first = truncate_to_two(start);
        Accumulator {
            total: first.cents,
            highest: first.cents,
            done: false,
            start: Ghost(first.cents as int),
            deltas: Ghost(Seq::empty()),
        }
    }

    /// The highest balance recorded so far.
    pub open spec fn best(self) -> int {
        highest_balance(self.start_value(), self.recorded())
    }

    /// The balance that recording `value` would lead to.
    pub open spec fn balance_with(self, value: Decimal) -> int {
        self.start_value() + sum(self.recorded()) + value.floor_hundredths()
    }

    /// Feeds one entry. A value is cut down to whole cents, added to the
    /// balance and recorded; no value ends the stream. A value that would take
    /// the balance out of the machine's range is refused and changes nothing.
    /// Once done, the accumulator ignores what it is fed and answers with its
    /// result.
    pub fn feed(&mut self, entry: Option<Decimal>) -> (res: Result<Step, Failure>)
        ensures
            final(self).start_value() == old(self).start_value(),
            old(self).finished() ==> {
                &&& *final(self) == *old(self)
                &&& res matches Ok(Step::Done(max))
                &&& max.cents == old(self).best()
            },
            !old(self).finished() && entry is None ==> {
                &&& final(self).finished()
                &&& final(self).recorded() == old(self).recorded()
                &&& res matches Ok(Step::Done(max))
                &&& max.cents == old(self).best()
            },
            !old(self).finished() && entry is Some && i128::MIN <= old(self).balance_with(entry->0)
                <= i128::MAX ==> {
                &&& !final(self).finished()
                &&& final(self).recorded() == old(self).recorded().push(
                    entry->0.floor_hundredths(),
                )
                &&& res matches Ok(Step::Collecting)
            },
            !old(self).finished() && entry is Some && !(i128::MIN <= old(self).balance_with(
                entry->0,
            ) <= i128::MAX) ==> {
                &&& *final(self) == *old(self)
                &&& res matches Err(Failure::AmountOutOfRange)
            },
    {
        proof {
            use_type_invariant(&*self);
        }
        if self.done {
            return Ok(Step::Done(Money { cents: self.highest }));
        }
        match entry {
            None => {
                *self = Accumulator {
                    total: self.total,
                    highest: self.highest,
                    done: true,
                    start: self.start,
                    deltas: self.deltas,
                };
                Ok(Step::Done(Money { cents: self.highest }))
            },
            Some(value) => {
                let delta = truncate_to_two(value);
                let ghost longer = self.deltas@.push(delta.cents as int);
                proof {
                    assert(longer.drop_last() =~= self.deltas@);
                }
                match self.total.checked_add(delta.cents) {
                    None => Err(Failure::AmountOutOfRange),
                    Some(next) => {
                        let highest = if next > self.highest {
                            next
                        } else {
                            self.highest
                        };
                        *self = Accumulator {
                            total: next,
                            highest,
                            done: false,
                            start: self.start,
                            deltas: Ghost(longer),
                        };
                        Ok(Step::Collecting)
                    },
                }
            },
        }
    }

    /// The highest balance recorded so far, the starting balance included.
    pub fn maximum(&self) -> (max: Money)
        ensures
            max.cents == highest_balance(self.start_value(), self.recorded()),
    {
        proof {
            use_type_invariant(self);
        }
        Money { cents: self.highest }
    }

    /// The current balance.
    pub fn total(&self) -> (total: Money)
        ensures
            total.cents == self.start_value() + sum(self.recorded()),
    {
        proof {
            use_type_invariant(self);
        }
        Money { cents: self.total }
    }

    /// Whether the end of the stream has been fed.
    pub fn is_done(&self) -> (done: bool)
        ensures
            done == self.finished(),
    {
        self.done
    }
}

/// The balances over a shorter run of the same transactions are the same.
proof fn lemma_balance_of_prefix(start: int, deltas: Seq<int>, len: int, n: int)
    requires
        0 <= n <= len <= deltas.len(),
    ensures
        balance_after(start, deltas.take(len), n) == balance_after(start, deltas, n),
{
    assert(deltas.take(len).take(n) =~= deltas.take(n));
}

/// The highest balance of an account that starts at `start` and then takes
/// `deltas` in order, each value cut down to whole cents before it is added.
/// Fails when a balance on the way leaves the machine's range.
pub fn maximum_value(start: Decimal, deltas: &Vec<Decimal>) -> (res: Result<Money, Failure>)
    ensures
        balances_fit(start.floor_hundredths(), truncated(deltas@)) ==> {
            &&& res matches Ok(max)
            &&& max.cents == highest_balance(start.floor_hundredths(), truncated(deltas@))
        },
        !balances_fit(start.floor_hundredths(), truncated(deltas@)) ==> res matches Err(
            Failure::AmountOutOfRange,
        ),
{
    let ghost first = start.floor_hundredths();
    let ghost all = truncated(deltas@);
    let mut acc = Accumulator::new(start);
    let mut i: usize = 0;
    proof {
        assert(all.take(0) =~= Seq::<int>::empty());
        assert forall|n: int| 0 <= n <= 0 implies #[trigger] balance_after(
            first,
            Seq::<int>::empty(),
            n,
        ) == first by {
            assert(Seq::<int>::empty().take(n) =~= Seq::<int>::empty());
        }
    }
    while i < deltas.len()
        invariant
            i <= deltas.len(),
            first == start.floor_hundredths(),
            all == truncated(deltas@),
            acc.start_value() == first,
            acc.recorded() == all.take(i as int),
            !acc.finished(),
            balances_fit(first, all.take(i as int)),
        decreases deltas.len() - i,
    {
        let ghost before = all.take(i as int);
        let ghost after = all.take(i + 1);
        proof {
            assert(after =~= before.push(deltas@[i as int].floor_hundredths()));
            assert(after.drop_last() =~= before);
            assert(after.take(i + 1) =~= after);
            lemma_balance_of_prefix(first, all, i + 1, i + 1);
            assert(acc.balance_with(deltas@[i as int]) == balance_after(first, all, i + 1));
        }
        match acc.feed(Some(deltas[i])) {
            Err(_) => {
                return Err(Failure::AmountOutOfRange);
            },
            Ok(_) => {
                proof {
                    assert forall|n: int| 0 <= n <= after.len() implies i128::MIN
                        <= #[trigger] balance_after(first, after, n) <= i128::MAX by {
                        if n <= i {
                            lemma_balance_of_prefix(first, after, i as int, n);
                            assert(after.take(i as int) =~= before);
                            assert(balance_after(first, before, n) == balance_after(
                                first,
                                after,
                                n,
                            ));
                        } else {
                            lemma_balance_of_prefix(first, all, i + 1, n);
                        }
                    }
                }
            },
        }
        i = i + 1;
    }
    proof {
        assert(all.take(deltas.len() as int) =~= all);
    }
    Ok(acc.maximum())
}

/// `x / d` rounded to the nearest whole number; a half goes away from zero.
pub open spec fn round_div(x: int, d: int) -> int {
    let q = x / d;
    let r = x % d;
    if 2 * r > d || (2 * r == d && x >= 0) {
        q + 1
    } else {
        q
    }
}

/// Rounding to the nearest whole number is off by half at most, and never
/// further from zero than what was rounded.
pub proof fn lemma_round_div_is_nearest(x: int, d: int)
    requires
        0 < d,
    ensures
        -d <= 2 * (round_div(x, d) * d - x) <= d,
        x >= 0 ==> 0 <= round_div(x, d) <= x,
        x <= 0 ==> x <= round_div(x, d) <= 0,
{
    let q = x / d;
    let r = x % d;
    lemma_fundamental_div_mod(x, d);
    lemma_mod_bound(x, d);
    assert((q + 1) * d == q * d + d) by (nonlinear_arith);
    assert(d * q == q * d) by (nonlinear_arith);
    if x >= 0 {
        assert(0 <= q && (r > 0 ==> q < x) && q <= x) by (nonlinear_arith)
            requires
                x == d * q + r,
                0 <= r < d,
                0 <= x,
        ;
    } else {
        assert(x <= q && q < 0) by (nonlinear_arith)
            requires
                x == d * q + r,
                0 <= r < d,
                x < 0,
        ;
    }
}

/// The mathematical value of a [`Rate`]: the fraction `upper / lower`.
pub struct RateView {
    pub upper: int,
    pub lower: int,
}

/// An exchange rate: one unit of a currency is worth
/// `numerator / denominator` US dollars. Both are above zero.
#[derive(Clone, Copy, Debug, PartialEq, Eq)]
pub struct Rate {
    numerator: u64,
    denominator: u64,
}

impl Rate {
    #[verifier::type_invariant]
    spec fn positive(self) -> bool {
        self.numerator > 0 && self.denominator > 0
    }

    /// The rate's numerator.
    pub closed spec fn upper(self) -> int {
        self.numerator as int
    }

    /// The rate's denominator.
    pub closed spec fn lower(self) -> int {
        self.denominator as int
    }

    /// The rate as a fraction.
    pub open spec fn view(self) -> RateView {
        RateView { upper: self.upper(), lower: self.lower() }
    }

    /// The rate `numerator / denominator`, where both are above zero.
    pub fn new(numerator: u64, denominator: u64) -> (res: Option<Rate>)
        ensures
            res is Some <==> numerator > 0 && denominator > 0,
            res matches Some(rate) ==> rate.upper() == numerator && rate.lower() == denominator,
    {
        if numerator > 0 && denominator > 0 {
            Some(Rate { numerator, denominator })
        } else {
            None
        }
    }

    /// The rate that a decimal above zero stands for:
    /// `mantissa / 10^scale`. `None` for a decimal that is not above zero,
    /// and for one with more digits after the point than fit.
    pub fn from_decimal(value: Decimal) -> (res: Option<Rate>)
        ensures
            res is Some <==> value.mantissa > 0 && pow10(value.scale as nat) <= u64::MAX,
            res matches Some(rate) ==> rate.upper() == value.mantissa && rate.lower() == pow10(
                value.scale as nat,
            ),
    {
        if value.mantissa <= 0 {
            return None;
        }
        proof {
            lemma_pow_positive(10, value.scale as nat);
        }
        match power_of_ten(value.scale) {
            Some(power) => Some(Rate { numerator: value.mantissa as u64, denominator: power }),
            None => None,
        }
    }

    /// The rate in the other direction from a quoted one: where one dollar
    /// buys `quoted` units of a currency, one unit of it is worth
    /// `10^scale / mantissa` dollars. `None` for a quote that is not above
    /// zero, and for one with more digits after the point than fit.
    pub fn reciprocal_of(quoted: Decimal) -> (res: Option<Rate>)
        ensures
            res is Some <==> quoted.mantissa > 0 && pow10(quoted.scale as nat) <= u64::MAX,
            res matches Some(rate) ==> rate.upper() == pow10(quoted.scale as nat) && rate.lower()
                == quoted.mantissa,
    {
        if quoted.mantissa <= 0 {
            return None;
        }
        proof {
            lemma_pow_positive(10, quoted.scale as nat);
        }
        match power_of_ten(quoted.scale) {
            Some(power) => Some(Rate { numerator: power, denominator: quoted.mantissa as u64 }),
            None => None,
        }
    }
}

/// The highest value of an account in its own currency and in US dollars.
#[derive(Clone, Debug, PartialEq, Eq)]
pub struct Report {
    pub native_amount: Money,
    pub native_code: String,
    pub usd_amount: Money,
}

/// Puts the report together: the amount in the account's currency, and the
/// same amount in US dollars, `max_native * rate` rounded to the nearest
/// cent. Fails where `max_native` times the rate's numerator leaves the
/// machine's range.
pub fn assemble(max_native: Money, native_code: &str, rate: Rate) -> (res: Result<Report, Failure>)
    ensures
        i128::MIN <= max_native.cents * rate.upper() <= i128::MAX ==> {
            &&& res matches Ok(report)
            &&& report.native_amount == max_native
            &&& report.native_code@ == native_code@
            &&& report.usd_amount.cents == round_div(max_native.cents * rate.upper(), rate.lower())
        },
        !(i128::MIN <= max_native.cents * rate.upper() <= i128::MAX) ==> res matches Err(
            Failure::AmountOutOfRange,
        ),
{
    proof {
        use_type_invariant(&rate);
    }
    let scaled = match max_native.cents.checked_mul(rate.numerator as i128) {
        Some(scaled) => scaled,
        None => {
            return Err(Failure::AmountOutOfRange);
        },
    };
    let divisor = rate.denominator as i128;
    proof {
        lemma_round_div_is_nearest(scaled as int, divisor as int);
        lemma_fundamental_div_mod(scaled as int, divisor as int);
        lemma_mod_bound(scaled as int, divisor as int);
        let q = scaled as int / divisor as int;
        let r = scaled as int % divisor as int;
        if scaled >= 0 {
            assert(0 <= q && q <= scaled) by (nonlinear_arith)
                requires
                    scaled == divisor * q + r,
                    0 <= r < divisor,
                    0 <= scaled,
            ;
        } else {
            assert(scaled <= q && q < 0) by (nonlinear_arith)
                requires
                    scaled == divisor * q + r,
                    0 <= r < divisor,
                    scaled < 0,
            ;
        }
    }
    let quotient = scaled.checked_div_euclid(divisor).unwrap();
    let rest = scaled.checked_rem_euclid(divisor).unwrap();
    let other = divisor - rest;
    let up = rest > other || (rest == other && scaled >= 0);
    let cents = if up {
        quotient + 1
    } else {
        quotient
    };
    Ok(
        Report {
            native_amount: max_native,
            native_code: String::from_str(native_code),
            usd_amount: Money { cents },
        },
    )
}

/// The rate that a quoted number stands for, the number being written in
/// scientific notation: the reciprocal of the quote. Where the digits of
/// the quote, read without their point, stand for `m`, and the quote is
/// `m * 10^k`, the rate is `1 / (m * 10^k)` for `k` above zero and
/// `10^(-k) / m` otherwise. `None` where the text is no such number, where
/// the quote is not above zero, and where one of the rate's two parts does
/// not fit.
pub open spec fn rate_of_text(text: Seq<char>) -> Option<RateView> {
    let head = significand(text);
    let size = digits_value(whole_digits(head) + fraction_digits(head));
    let power = power_of_text(text);
    let upper = if power < 0 {
        pow10((-power) as nat)
    } else {
        1
    };
    let lower = if power > 0 {
        size * pow10(power as nat)
    } else {
        size
    };
    if is_scientific_text(text) && head[0] != '-' && size > 0 && upper <= u64::MAX && lower
        <= u64::MAX {
        Some(RateView { upper, lower })
    } else {
        None
    }
}

/// The rate that a quote stands for, if there is a quote.
pub open spec fn rate_of_quote(quote: Option<Seq<char>>) -> Option<RateView> {
    match quote {
        None => None,
        Some(text) => rate_of_text(text),
    }
}

/// Whether a result holds the rate that `expected` names, or the failure to
/// get one where it names none.
pub open spec fn rate_agrees(res: Result<Rate, Failure>, expected: Option<RateView>) -> bool {
    match res {
        Ok(rate) => expected == Some(rate@),
        Err(e) => e == Failure::RateUnavailable && expected is None,
    }
}

/// The characters of an optional string slice.
pub open spec fn slice_view(text: Option<&str>) -> Option<Seq<char>> {
    match text {
        Some(s) => Some(s@),
        None => None,
    }
}

/// An exponent that is held within its limit is the exponent itself
/// wherever the power of ten that it leads to is small, and it leads to a
/// large power of ten wherever the exponent itself does.
proof fn lemma_power_within_limit(exponent: int, after: int)
    requires
        0 <= after <= usize::MAX,
    ensures
        -19 <= within_limit(exponent) - after <= 19 ==> within_limit(exponent) == exponent,
        within_limit(exponent) - after > 19 ==> exponent - after > 19,
        within_limit(exponent) - after < -19 ==> exponent - after < -19,
{
}

/// The rate to US dollars from the provider's quote of how much of the
/// currency one dollar buys: the reciprocal of the quote, which may be
/// written with an exponent. Without a usable quote no rate is available.
pub fn rate_from_quote(quote: Option<&str>) -> (res: Result<Rate, Failure>)
    ensures
        rate_agrees(res, rate_of_quote(slice_view(quote))),
{
    let text = match quote {
        Some(text) => text,
        None => {
            return Err(Failure::RateUnavailable);
        },
    };
    let n = text.unicode_len();
    let mark = find_mark(text);
    let head = text.substring_char(0, mark);
    let ghost size = digits_value(whole_digits(head@) + fraction_digits(head@));
    let ghost after = fraction_digits(head@).len() as int;
    let ghost true_power = power_of_text(text@);
    proof {
        assert(head@ =~= significand(text@));
    }
    let digits = match read_digits(head) {
        Some(digits) => digits,
        None => {
            proof {
                if is_decimal_text(head@) {
                    if true_power > 0 {
                        lemma_pow_positive(10, true_power as nat);
                        assert(size * pow10(true_power as nat) >= size) by (nonlinear_arith)
                            requires
                                size > 0,
                                pow10(true_power as nat) >= 1,
                        ;
                    }
                }
            }
            return Err(Failure::RateUnavailable);
        },
    };
    let exponent: i128 = if mark < n {
        let tail = text.substring_char(mark + 1, n);
        proof {
            assert(tail@ =~= text@.skip(mark + 1));
        }
        match read_exponent(tail) {
            Some(exponent) => exponent,
            None => {
                return Err(Failure::RateUnavailable);
            },
        }
    } else {
        0
    };
    if digits.negative || digits.magnitude == 0 {
        return Err(Failure::RateUnavailable);
    }
    let power = exponent - digits.fraction_len as i128;
    proof {
        lemma_power_within_limit(true_power + after, after);
    }
    if power > 19 {
        proof {
            lemma_pow10_limits(true_power as nat);
            assert(size * pow10(true_power as nat) >= pow10(true_power as nat)) by (nonlinear_arith)
                requires
                    size >= 1,
                    pow10(true_power as nat) >= 0,
            ;
        }
        return Err(Failure::RateUnavailable);
    }
    if power < -19 {
        proof {
            lemma_pow10_limits((-true_power) as nat);
        }
        return Err(Failure::RateUnavailable);
    }
    if power > 0 {
        proof {
            lemma_pow10_limits(power as nat);
        }
        let scale = match power_of_ten(power as u32) {
            Some(scale) => scale,
            None => {
                return Err(Failure::RateUnavailable);
            },
        };
        match digits.magnitude.checked_mul(scale) {
            Some(lower) => {
                assert(lower >= 1) by (nonlinear_arith)
                    requires
                        lower == digits.magnitude * scale,
                        digits.magnitude >= 1,
                        scale >= 1,
                ;
                Ok(Rate { numerator: 1, denominator: lower })
            },
            None => Err(Failure::RateUnavailable),
        }
    } else {
        proof {
            lemma_pow0(10);
            lemma_pow10_limits((-power) as nat);
        }
        match power_of_ten((-power) as u32) {
            Some(upper) => Ok(Rate { numerator: upper, denominator: digits.magnitude }),
            None => Err(Failure::RateUnavailable),
        }
    }
}

/// The quote for a currency in the provider's answer: the number that the
/// answer holds for the currency under `data`. No answer holds no quote.
pub open spec fn quote_in(response: Option<Seq<char>>, currency: Seq<char>) -> Option<Seq<char>> {
    match response {
        Some(body) => json_number_at(body, "data"@, currency),
        None => None,
    }
}

/// The rate to US dollars from the provider's answer, or from the lack of
/// one: the reciprocal of the number that the answer holds for the currency
/// under `data`.
pub fn get_exchange_rate(response: Option<&str>, currency: &str) -> (res: Result<Rate, Failure>)
    ensures
        rate_agrees(res, rate_of_quote(quote_in(slice_view(response), currency@))),
{
    let quote = match response {
        Some(body) => number_at(body, "data", currency),
        None => None,
    };
    match &quote {
        Some(number) => rate_from_quote(Some(number.as_str())),
        None => rate_from_quote(None),
    }
}

/// A request to the exchange-rate provider.
#[derive(Clone, Debug, PartialEq, Eq)]
pub struct RateRequest {
    /// The address to get.
    pub url: String,
    /// How the program names itself to the provider.
    pub user_agent: String,
    /// The query parameters, as names and values.
    pub query: Vec<(String, String)>,
}

/// The request for the rate of one currency: the credential, US dollars as
/// the base, and the currency asked for. Without a stored credential there
/// is nothing to ask with, and no rate is available.
pub fn rate_request(config: &Config, currency: &str) -> (res: Result<RateRequest, Failure>)
    ensures
        config.fca_api_key is None ==> res matches Err(Failure::RateUnavailable),
        config.fca_api_key is Some ==> {
            &&& res matches Ok(request)
            &&& request.url@ == "https://api.freecurrencyapi.com/v1/latest"@
            &&& request.user_agent@ == "fbarcalc/0.1.0 https://github.com/mfinelli/fbarcalc"@
            &&& request.query@.len() == 3
            &&& request.query@[0].0@ == "apikey"@
            &&& request.query@[0].1@ == config.fca_api_key->0@
            &&& request.query@[1].0@ == "base_currency"@
            &&& request.query@[1].1@ == "USD"@
            &&& request.query@[2].0@ == "currencies"@
            &&& request.query@[2].1@ == currency@
        },
{
    match &config.fca_api_key {
        None => Err(Failure::RateUnavailable),
        Some(key) => {
            let mut query: Vec<(String, String)> = Vec::new();
            query.push((String::from_str("apikey"), key.clone()));
            query.push((String::from_str("base_currency"), String::from_str("USD")));
            query.push((String::from_str("currencies"), String::from_str(currency)));
            Ok(
                RateRequest {
                    url: String::from_str("https://api.freecurrencyapi.com/v1/latest"),
                    user_agent: String::from_str(
                        "fbarcalc/0.1.0 https://github.com/mfinelli/fbarcalc",
                    ),
                    query,
                },
            )
        },
    }
}

/// The mathematical value of a [`Report`], with its amounts in cents.
pub struct ReportView {
    pub native_amount: int,
    pub native_code: Seq<char>,
    pub usd_amount: int,
}

impl View for Report {
    type V = ReportView;

    open spec fn view(&self) -> ReportView {
        ReportView {
            native_amount: self.native_amount.cents as int,
            native_code: self.native_code@,
            usd_amount: self.usd_amount.cents as int,
        }
    }
}

/// The report of a run, or why there is none: `config` is the stored
/// configuration, `choice` the name of the currency that was chosen, `start`
/// and `deltas` the amounts in cents, and `quote` the number that the
/// provider quoted for the currency.
///
/// A stored default currency that the registry does not hold, or a chosen
/// name that it does not hold, ends the run first. Then the balances must
/// fit. Then a credential and a usable quote are needed. The report holds
/// the highest balance, the chosen currency's code, and the highest balance
/// times the rate, rounded to the nearest cent.
pub open spec fn report_of(
    config: ConfigView,
    choice: Seq<char>,
    start: int,
    deltas: Seq<int>,
    quote: Option<Seq<char>>,
) -> Result<ReportView, Failure> {
    let stored_code_known = config.default_input_currency is None || currency_by_code(
        config.default_input_currency->0,
    ) is Some;
    let highest = highest_balance(start, deltas);
    if !stored_code_known || currency_by_name(choice) is None {
        Err(Failure::InvalidCurrencyCode)
    } else if !balances_fit(start, deltas) {
        Err(Failure::AmountOutOfRange)
    } else if config.fca_api_key is None || rate_of_quote(quote) is None {
        Err(Failure::RateUnavailable)
    } else if !(i128::MIN <= highest * rate_of_quote(quote)->0.upper <= i128::MAX) {
        Err(Failure::AmountOutOfRange)
    } else {
        Ok(
            ReportView {
                native_amount: highest,
                native_code: currency_by_name(choice)->0.code@,
                usd_amount: round_div(
                    highest * rate_of_quote(quote)->0.upper,
                    rate_of_quote(quote)->0.lower,
                ),
            },
        )
    }
}

/// Whether a result holds the report or the failure that `expected` names.
pub open spec fn report_agrees(res: Result<Report, Failure>, expected: Result<
    ReportView,
    Failure,
>) -> bool {
    match res {
        Ok(report) => expected == Ok::<ReportView, Failure>(report@),
        Err(e) => expected == Err::<ReportView, Failure>(e),
    }
}

/// The quote that belongs to a chosen currency in the provider's answer.
pub open spec fn quote_for(choice: Seq<char>, response: Option<Seq<char>>) -> Option<Seq<char>> {
    match currency_by_name(choice) {
        Some(currency) => quote_in(response, currency.code@),
        None => None,
    }
}

/// The report of a run whose inputs are all known, given the number that
/// the provider quoted for the chosen currency.
pub fn calculate_with_quote(
    config: &Config,
    choice: &str,
    start: Decimal,
    deltas: &Vec<Decimal>,
    quote: Option<&str>,
) -> (res: Result<Report, Failure>)
    ensures
        report_agrees(
            res,
            report_of(
                config@,
                choice@,
                start.floor_hundredths(),
                truncated(deltas@),
                slice_view(quote),
            ),
        ),
{
    match &config.default_input_currency {
        Some(code) => {
            if find_by_code(code.as_str()).is_none() {
                return Err(Failure::InvalidCurrencyCode);
            }
        },
        None => {},
    }
    let currency = match find_by_name(choice) {
        Some(currency) => currency,
        None => {
            return Err(Failure::InvalidCurrencyCode);
        },
    };
    let highest = match maximum_value(start, deltas) {
        Ok(highest) => highest,
        Err(e) => {
            return Err(e);
        },
    };
    if config.fca_api_key.is_none() {
        return Err(Failure::RateUnavailable);
    }
    let rate = match rate_from_quote(quote) {
        Ok(rate) => rate,
        Err(e) => {
            return Err(e);
        },
    };
    assemble(highest, currency.code, rate)
}

/// The report of a run whose inputs are all known: the stored
/// configuration, the name of the chosen currency, the starting balance,
/// the transactions, and the provider's answer, if there was one.
pub fn calculate(
    config: &Config,
    choice: &str,
    start: Decimal,
    deltas: &Vec<Decimal>,
    response: Option<&str>,
) -> (res: Result<Report, Failure>)
    ensures
        report_agrees(
            res,
            report_of(
                config@,
                choice@,
                start.floor_hundredths(),
                truncated(deltas@),
                quote_for(choice@, slice_view(response)),
            ),
        ),
{
    let quote = match find_by_name(choice) {
        Some(currency) => match response {
            Some(body) => number_at(body, "data", currency.code),
            None => None,
        },
        None => None,
    };
    match &quote {
        Some(number) => calculate_with_quote(config, choice, start, deltas, Some(number.as_str())),
        None => calculate_with_quote(config, choice, start, deltas, None),
    }
}

/// The lines of a report as they are shown: an empty line, the line in the
/// account's currency and the line in US dollars.
pub open spec fn report_text(report: ReportView, symbol: Seq<char>) -> Seq<Seq<char>> {
    seq![
        Seq::<char>::empty(),
        "Maximum value in "@ + report.native_code + ": "@ + symbol + amount_text(
            report.native_amount,
        ),
        "Maximum value in USD: $"@ + amount_text(report.usd_amount),
    ]
}

impl Report {
    /// The lines to show for this report. The symbol is that of the
    /// report's currency; a report in a currency that the registry does not
    /// hold has no lines.
    pub fn lines(&self) -> (res: Result<Vec<String>, Failure>)
        ensures
            currency_by_code(self.native_code@) is None ==> res matches Err(
                Failure::InvalidCurrencyCode,
            ),
            currency_by_code(self.native_code@) matches Some(currency) ==> {
                &&& res matches Ok(lines)
                &&& lines@.len() == 3
                &&& forall|i: int|
                    0 <= i < 3 ==> (#[trigger] lines@[i])@ == report_text(
                        self@,
                        currency.symbol@,
                    )[i]
            },
    {
        let currency = match find_by_code(self.native_code.as_str()) {
            Some(currency) => currency,
            None => {
                return Err(Failure::InvalidCurrencyCode);
            },
        };
        let mut native = String::from_str("Maximum value in ");
        native.append(self.native_code.as_str());
        native.append(": ");
        let shown = self.native_amount.display(currency.symbol);
        native.append(shown.as_str());
        let mut dollars = String::from_str("Maximum value in USD: ");
        let converted = self.usd_amount.display("$");
        dollars.append(converted.as_str());
        let mut lines: Vec<String> = Vec::new();
        lines.push(String::new());
        lines.push(native);
        lines.push(dollars);
        proof {
            reveal_strlit("$");
            reveal_strlit("Maximum value in USD: ");
            reveal_strlit("Maximum value in USD: $");
            assert("Maximum value in USD: "@ + "$"@ =~= "Maximum value in USD: $"@);
            assert(lines@[2]@ =~= report_text(self@, currency.symbol@)[2]);
            assert(lines@[1]@ =~= report_text(self@, currency.symbol@)[1]);
            assert(lines@[0]@ =~= report_text(self@, currency.symbol@)[0]);
        }
        Ok(lines)
    }
}

/// Reads an amount from what was typed.
pub fn parse_amount(text: &str) -> (res: Result<Decimal, Failure>)
    ensures
        decimal_of_text(text@) is None ==> res matches Err(Failure::InvalidAmount),
        decimal_of_text(text@) is Some ==> (res matches Ok(value) && Some(value)
            == decimal_of_text(text@)),
{
    match parse_decimal(text) {
        Some(value) => Ok(value),
        None => Err(Failure::InvalidAmount),
    }
}

/// Reads one entry of the transaction stream from what was typed: nothing
/// typed ends the stream, anything else has to be an amount.
pub fn parse_entry(text: &str) -> (res: Result<Option<Decimal>, Failure>)
    ensures
        text@.len() == 0 ==> res matches Ok(None),
        text@.len() > 0 && decimal_of_text(text@) is None ==> res matches Err(
            Failure::InvalidAmount,
        ),
        text@.len() > 0 && decimal_of_text(text@) is Some ==> (res matches Ok(entry) && entry
            == decimal_of_text(text@)),
{
    if text.unicode_len() == 0 {
        Ok(None)
    } else {
        match parse_decimal(text) {
            Some(value) => Ok(Some(value)),
            None => Err(Failure::InvalidAmount),
        }
    }
}

/// The starting balance from the answer to its prompt; no answer means that
/// the prompt was aborted, which ends the run.
pub fn starting_balance(answer: Option<Decimal>) -> (res: Result<Decimal, Failure>)
    ensures
        answer is None ==> res matches Err(Failure::UserCancelled),
        answer is Some ==> (res matches Ok(value) && value == answer->0),
{
    match answer {
        Some(value) => Ok(value),
        None => Err(Failure::UserCancelled),
    }
}

/// An entry as it is echoed after it was typed: the currency's symbol and
/// the amount cut down to whole cents, or nothing for the end of the stream.
pub fn shown_entry(symbol: &str, entry: Option<Decimal>) -> (text: String)
    ensures
        entry is None ==> text@ == Seq::<char>::empty(),
        entry is Some ==> text@ == symbol@ + amount_text(entry->0.floor_hundredths()),
{
    match entry {
        Some(value) => truncate_to_two(value).display(symbol),
        None => String::new(),
    }
}

/// The texts of a prompt for an amount.
#[derive(Clone, Copy, Debug, PartialEq, Eq)]
pub struct AmountPrompt {
    pub message: &'static str,
    pub placeholder: &'static str,
    pub error_message: &'static str,
    pub help_message: &'static str,
}

/// The prompt for the starting balance.
pub fn starting_prompt() -> (prompt: AmountPrompt)
    ensures
        prompt.message@ == "Starting value:"@,
        prompt.placeholder@ == "12.34"@,
        prompt.error_message@ == "Please enter a valid amount."@,
        prompt.help_message@
            == "Do not use the currency symbol and the number should use dots as the decimal separator."@,
{
    AmountPrompt {
        message: "Starting value:",
        placeholder: "12.34",
        error_message: "Please enter a valid amount.",
        help_message: "Do not use the currency symbol and the number should use dots as the decimal separator.",
    }
}

/// The prompt for the next transaction.
pub fn transaction_prompt() -> (prompt: AmountPrompt)
    ensures
        prompt.message@ == "Next Transaction:"@,
        prompt.placeholder@ == "12.34"@,
        prompt.error_message@ == "Please enter a valid amount or empty to finish."@,
        prompt.help_message@
            == "Do not use the currency symbol and the number should use dots as the decimal separator. Enter an empty value to finish."@,
{
    AmountPrompt {
        message: "Next Transaction:",
        placeholder: "12.34",
        error_message: "Please enter a valid amount or empty to finish.",
        help_message: "Do not use the currency symbol and the number should use dots as the decimal separator. Enter an empty value to finish.",
    }
}

} // verus!
