//! Prices are exact decimals with `PRICE_DECIMALS` fractional digits, held as
//! integer units of `10^-PRICE_DECIMALS`.
use vstd::prelude::*;
use vstd::string::*;

verus! {

/// Number of fractional digits a price level may carry.
pub const PRICE_DECIMALS: usize = 8;

pub open spec fn is_digit(c: char) -> bool {
    '0' <= c && c <= '9'
}

pub open spec fn digit_value(c: char) -> nat {
    (c as int - '0' as int) as nat
}

/// The digits of `s` read as one integer, a decimal point skipped.
pub open spec fn digits_value(s: Seq<char>) -> nat
    decreases s.len(),
{
    if s.len() == 0 {
        0
    } else if s.last() == '.' {
        digits_value(s.drop_last())
    } else {
        digits_value(s.drop_last()) * 10 + digit_value(s.last())
    }
}

/// How many decimal points `s` holds.
pub open spec fn point_count(s: Seq<char>) -> nat
    decreases s.len(),
{
    if s.len() == 0 {
        0
    } else {
        point_count(s.drop_last()) + if s.last() == '.' {
            1nat
        } else {
            0nat
        }
    }
}

/// How many characters follow the last decimal point (none without a point).
pub open spec fn fraction_len(s: Seq<char>) -> nat
    decreases s.len(),
{
    if s.len() == 0 || s.last() == '.' {
        0
    } else if point_count(s.drop_last()) > 0 {
        fraction_len(s.drop_last()) + 1
    } else {
        0
    }
}

pub open spec fn pow10(n: nat) -> nat
    decreases n,
{
    if n == 0 {
        1
    } else {
        10 * pow10((n - 1) as nat)
    }
}

/// Price text: digits with at most one decimal point, which neither starts nor
/// ends it, and at most `PRICE_DECIMALS` digits after it.
pub open spec fn is_price_text(s: Seq<char>) -> bool {
    &&& s.len() > 0
    &&& forall|i: int| 0 <= i < s.len() ==> is_digit(#[trigger] s[i]) || s[i] == '.'
    &&& point_count(s) <= 1
    &&& s[0] != '.'
    &&& s.last() != '.'
    &&& fraction_len(s) <= PRICE_DECIMALS
}

/// The value of price text in units of `10^-PRICE_DECIMALS`.
pub open spec fn price_units(s: Seq<char>) -> nat {
    digits_value(s) * pow10((PRICE_DECIMALS - fraction_len(s)) as nat)
}

/// The price that text denotes, where it is price text and fits in `u64` units.
pub open spec fn price_of(s: Seq<char>) -> Option<u64> {
    if is_price_text(s) && price_units(s) <= u64::MAX {
        Some(price_units(s) as u64)
    } else {
        None
    }
}

proof fn lemma_pow10_positive(n: nat)
    ensures
        pow10(n) >= 1,
    decreases n,
{
    if n > 0 {
        lemma_pow10_positive((n - 1) as nat);
    }
}

proof fn lemma_prefix_monotone(s: Seq<char>, i: int)
    requires
        0 <= i <= s.len(),
    ensures
        point_count(s.subrange(0, i)) <= point_count(s),
        digits_value(s.subrange(0, i)) <= digits_value(s),
    decreases s.len(),
{
    if i < s.len() {
        assert(s.drop_last().subrange(0, i) =~= s.subrange(0, i));
        lemma_prefix_monotone(s.drop_last(), i);
    } else {
        assert(s.subrange(0, i) =~= s);
    }
}

proof fn lemma_fraction_grows(s: Seq<char>, i: int)
    requires
        0 <= i <= s.len(),
        point_count(s.subrange(0, i)) >= 1,
        point_count(s) <= 1,
    ensures
        fraction_len(s) == fraction_len(s.subrange(0, i)) + (s.len() - i),
    decreases s.len(),
{
    if i < s.len() {
        assert(s.drop_last().subrange(0, i) =~= s.subrange(0, i));
        lemma_prefix_monotone(s.drop_last(), i);
        lemma_fraction_grows(s.drop_last(), i);
    } else {
        assert(s.subrange(0, i) =~= s);
    }
}

/// Reads decimal price text (`"27123.45"`) as units of `10^-PRICE_DECIMALS`.
pub fn parse_price(text: &str) -> (r: Option<u64>)
    ensures
        r == price_of(text@),
{
    let n = text.unicode_len();
    if n == 0 {
        return None;
    }
    let ghost s = text@;
    let mut value: u64 = 0;
    let mut points: usize = 0;
    let mut frac: usize = 0;
    let mut i: usize = 0;
    while i < n
        invariant
            n == s.len(),
            s == text@,
            n > 0,
            i <= n,
            value == digits_value(s.subrange(0, i as int)),
            points == point_count(s.subrange(0, i as int)),
            frac == fraction_len(s.subrange(0, i as int)),
            points <= 1,
            frac <= PRICE_DECIMALS,
            forall|j: int| 0 <= j < i ==> is_digit(#[trigger] s[j]) || s[j] == '.',
            i > 0 ==> s[0] != '.',
            i == n ==> s[n - 1] != '.',
        decreases n - i,
    {
        let c = text.get_char(i);
        let ghost next = s.subrange(0, i + 1);
        assert(next.drop_last() =~= s.subrange(0, i as int));
        if c == '.' {
            if i == 0 || i == n - 1 || points > 0 {
                proof {
                    lemma_prefix_monotone(s, i + 1);
                }
                return None;
            }
            points = 1;
            frac = 0;
        } else if '0' <= c && c <= '9' {
            let d = (c as u32 - '0' as u32) as u64;
            if points == 1 {
                if frac == PRICE_DECIMALS {
                    proof {
                        lemma_prefix_monotone(s, i + 1);
                        if point_count(s) <= 1 {
                            lemma_fraction_grows(s, i + 1);
                        }
                    }
                    return None;
                }
                frac = frac + 1;
            }
            if value > (u64::MAX - d) / 10 {
                proof {
                    lemma_prefix_monotone(s, i + 1);
                    lemma_pow10_positive((PRICE_DECIMALS - fraction_len(s)) as nat);
                    assert(digits_value(s) <= price_units(s)) by (nonlinear_arith)
                        requires
                            pow10((PRICE_DECIMALS - fraction_len(s)) as nat) >= 1,
                    ;
                }
                return None;
            }
            value = value * 10 + d;
        } else {
            return None;
        }
        i = i + 1;
    }
    assert(s.subrange(0, n as int) =~= s);
    let ghost scale = (PRICE_DECIMALS - frac) as nat;
    let mut k: usize = frac;
    assert(pow10(0) == 1);
    assert(value == digits_value(s));
    assert(value == digits_value(s) * pow10(0));
    assert(pow10(0) == 1);
    assert(pow10(0) == 1);
    assert(value == digits_value(s));
    assert(value == digits_value(s) * pow10(0));
    while k < PRICE_DECIMALS
        invariant
            frac <= k <= PRICE_DECIMALS,
            s == text@,
            is_price_text(s),
            frac == fraction_len(s),
            value == digits_value(s) * pow10((k - frac) as nat),
            scale == (PRICE_DECIMALS - frac) as nat,
        decreases PRICE_DECIMALS - k,
    {
        proof {
            reveal_with_fuel(pow10, 2);
        }
        if value > u64::MAX / 10 {
            proof {
                let m = (PRICE_DECIMALS - k) as nat;
                assert(pow10(scale) == pow10((k - frac) as nat) * pow10(m)) by {
                    lemma_pow10_add((k - frac) as nat, m);
                }
                lemma_pow10_positive((m - 1) as nat);
                assert(pow10(m) == 10 * pow10((m - 1) as nat));
                assert(price_units(s) == value * pow10(m)) by (nonlinear_arith)
                    requires
                        value == digits_value(s) * pow10((k - frac) as nat),
                        pow10(scale) == pow10((k - frac) as nat) * pow10(m),
                        price_units(s) == digits_value(s) * pow10(scale),
                ;
                assert(value * pow10(m) >= value * 10) by (nonlinear_arith)
                    requires
                        pow10(m) == 10 * pow10((m - 1) as nat),
                        pow10((m - 1) as nat) >= 1,
                ;
            }
            return None;
        }
        proof {
            lemma_pow10_add((k - frac) as nat, 1);
            assert(digits_value(s) * (pow10((k - frac) as nat) * 10) == digits_value(s) * pow10(
                (k - frac) as nat,
            ) * 10) by (nonlinear_arith);
        }
        value = value * 10;
        k = k + 1;
    }
    Some(value)
}

proof fn lemma_pow10_add(a: nat, b: nat)
    ensures
        pow10(a + b) == pow10(a) * pow10(b),
    decreases a,
{
    if a > 0 {
        lemma_pow10_add((a - 1) as nat, b);
        assert(pow10(a) == 10 * pow10((a - 1) as nat));
        assert(pow10(a + b) == 10 * pow10((a - 1 + b) as nat));
        assert(10 * (pow10((a - 1) as nat) * pow10(b)) == (10 * pow10((a - 1) as nat)) * pow10(
            b,
        )) by (nonlinear_arith);
    } else {
        assert(pow10(0) == 1);
    }
}

/// The sum of a sequence of price units.
pub open spec fn sum(s: Seq<u64>) -> nat
    decreases s.len(),
{
    if s.len() == 0 {
        0
    } else {
        sum(s.drop_last()) + s.last() as nat
    }
}

/// The exact mean of an order book: `total_units / levels` price units.
#[derive(Clone, Copy, Debug, PartialEq, Eq, Structural)]
pub struct AveragePrice {
    pub total_units: u128,
    pub levels: usize,
}

/// Failures that end one query and no other.
#[derive(Clone, Copy, Debug, PartialEq, Eq, Structural)]
pub enum QueryError {
    /// The matching update held neither asks nor bids.
    EmptyOrderBook,
    /// The shared stream closed before a matching update arrived.
    StreamClosed,
}

/// The average over both sides of a book, or `EmptyOrderBook` when both are empty.
pub open spec fn average_of(asks: Seq<u64>, bids: Seq<u64>) -> Result<AveragePrice, QueryError> {
    if asks.len() + bids.len() == 0 {
        Err(QueryError::EmptyOrderBook)
    } else {
        Ok(
            AveragePrice {
                total_units: (sum(asks) + sum(bids)) as u128,
                levels: (asks.len() + bids.len()) as usize,
            },
        )
    }
}

impl AveragePrice {
    /// The average as a rational number of price units.
    pub open spec fn wf(self) -> bool {
        self.levels > 0
    }

    /// The average in price units, rounded down.
    pub fn mean_units(&self) -> (r: u128)
        requires
            self.wf(),
        ensures
            r == self.total_units / (self.levels as u128),
    {
        self.total_units / (self.levels as u128)
    }

    /// The average rounded down to whole units, split into its integer part
    /// and its `PRICE_DECIMALS` fractional digits read as an integer.
    pub fn whole_and_fraction(&self) -> (r: (u128, u128))
        requires
            self.wf(),
        ensures
            r.0 == (self.total_units / (self.levels as u128)) as nat / pow10(PRICE_DECIMALS as nat),
            r.1 == (self.total_units / (self.levels as u128)) as nat % pow10(PRICE_DECIMALS as nat),
    {
        let scale: u128 = 100_000_000;
        proof {
            reveal_with_fuel(pow10, 9);
        }
        let units = self.mean_units();
        (units / scale, units % scale)
    }
}

proof fn lemma_sum_bound(s: Seq<u64>)
    ensures
        sum(s) <= s.len() * (u64::MAX as nat),
    decreases s.len(),
{
    if s.len() > 0 {
        lemma_sum_bound(s.drop_last());
    }
}

fn sum_of(values: &Vec<u64>) -> (r: u128)
    ensures
        r == sum(values@),
{
    let mut total: u128 = 0;
    let mut i: usize = 0;
    while i < values.len()
        invariant
            i <= values.len(),
            total == sum(values@.subrange(0, i as int)),
        decreases values.len() - i,
    {
        proof {
            let next = values@.subrange(0, i + 1);
            assert(next.drop_last() =~= values@.subrange(0, i as int));
            lemma_sum_bound(next);
            assert(next.len() * (u64::MAX as nat) <= usize::MAX as nat * (u64::MAX as nat))
                by (nonlinear_arith)
                requires
                    next.len() <= usize::MAX,
            ;
        }
        total = total + values[i] as u128;
        i = i + 1;
    }
    assert(values@.subrange(0, values.len() as int) =~= values@);
    total
}

/// Average price of an order book: `(sum(asks) + sum(bids)) / (len(asks) + len(bids))`.
pub fn average_price_of_order_book(asks: Vec<u64>, bids: Vec<u64>) -> (r: Result<
    AveragePrice,
    QueryError,
>)
    requires
        asks@.len() + bids@.len() <= usize::MAX,
    ensures
        r == average_of(asks@, bids@),
        r is Err <==> asks@.len() + bids@.len() == 0,
        asks@.len() + bids@.len() == 0 ==> r == Err::<AveragePrice, QueryError>(
            QueryError::EmptyOrderBook,
        ),
        r matches Ok(a) ==> a.wf() && a.total_units == sum(asks@) + sum(bids@) && a.levels
            == asks@.len() + bids@.len(),
{
    if asks.len() == 0 && bids.len() == 0 {
        return Err(QueryError::EmptyOrderBook);
    }
    let asks_sum = sum_of(&asks);
    let bids_sum = sum_of(&bids);
    proof {
        lemma_sum_bound(asks@);
        lemma_sum_bound(bids@);
        assert((asks@.len() + bids@.len()) * (u64::MAX as nat) <= usize::MAX as nat * (
        u64::MAX as nat)) by (nonlinear_arith)
            requires
                asks@.len() + bids@.len() <= usize::MAX,
        ;
        assert(sum(asks@) + sum(bids@) <= (asks@.len() + bids@.len()) * (u64::MAX as nat))
            by (nonlinear_arith)
            requires
                sum(asks@) <= asks@.len() * (u64::MAX as nat),
                sum(bids@) <= bids@.len() * (u64::MAX as nat),
        ;
    }
    Ok(AveragePrice { total_units: asks_sum + bids_sum, levels: asks.len() + bids.len() })
}

} // verus!
