//! What holds of the time-weighted average price.

use vstd::prelude::*;
use crate::arith;
use crate::sums;
use super::laws;
use super::model::PoolState;
use super::twap;
use super::twap::TwapSample;

verus! {

/// Whether every sample has a price from `lo` to `hi`.
pub open spec fn prices_within(samples: Seq<TwapSample>, lo: int, hi: int) -> bool {
    forall|i: int| 0 <= i < samples.len() ==> lo <= (#[trigger] samples[i]).price <= hi
}

/// The price at any ledger is that of a sample.
proof fn lemma_price_within(samples: Seq<TwapSample>, ledger: int, lo: int, hi: int)
    requires
        samples.len() > 0,
        prices_within(samples, lo, hi),
    ensures
        lo <= twap::price_at(samples, ledger) <= hi,
    decreases samples.len(),
{
    assert(samples.last() == samples[samples.len() - 1]);
    if samples.len() > 1 && samples.last().ledger > ledger {
        let rest = samples.drop_last();
        assert forall|i: int| 0 <= i < rest.len() implies lo <= (#[trigger] rest[i]).price
            <= hi by {
            assert(rest[i] == samples[i]);
        }
        lemma_price_within(rest, ledger, lo, hi);
    }
}

/// A sum of prices is between the lowest and the highest price times the ledgers.
proof fn lemma_sum_within(samples: Seq<TwapSample>, from: int, to: int, lo: int, hi: int)
    requires
        samples.len() > 0,
        prices_within(samples, lo, hi),
        from <= to,
    ensures
        lo * (to - from) <= twap::price_sum(samples, from, to) <= hi * (to - from),
    decreases to - from,
{
    if from < to {
        lemma_sum_within(samples, from, to - 1, lo, hi);
        lemma_price_within(samples, to - 1, lo, hi);
        let n = to - from;
        assert(lo * n == lo * (n - 1) + lo) by (nonlinear_arith);
        assert(hi * n == hi * (n - 1) + hi) by (nonlinear_arith);
    } else {
        assert(lo * 0 == 0 && hi * 0 == 0) by (nonlinear_arith);
    }
}

/// A quotient, rounded toward zero, is between the whole numbers that bound the exact one.
proof fn lemma_quot_within(n: int, w: int, lo: int, hi: int)
    requires
        w > 0,
        lo * w <= n <= hi * w,
    ensures
        lo <= arith::quot(n, w) <= hi,
{
    if n >= 0 {
        let q = n / w;
        assert(lo <= q <= hi) by (nonlinear_arith)
            requires
                w > 0,
                0 <= n,
                lo * w <= n <= hi * w,
                q == n / w,
        ;
    } else {
        let q = (-n) / w;
        assert(-hi <= q <= -lo) by (nonlinear_arith)
            requires
                w > 0,
                0 < -n,
                lo * w <= n <= hi * w,
                q == (-n) / w,
        ;
    }
}

/// The sum of a window that can be added up fits.
proof fn lemma_summable_fits(samples: Seq<TwapSample>, from: int, to: int, sum: int)
    requires
        samples.len() > 0,
        from <= to,
        twap::summable(samples, from, to, sum),
    ensures
        arith::fits(sum + twap::price_sum(samples, from, to)),
    decreases samples.len(),
{
    twap::lemma_price_sum(samples, from, to);
    let start = twap::stretch_start(samples, from, to);
    let part = samples.last().price * (to - start);
    if samples.len() > 1 {
        lemma_summable_fits(samples.drop_last(), from, start, sum + part);
    }
}

/// The average over a window is between the lowest and the highest price. A price that never
/// changed is its own average.
pub proof fn law_average_between_prices(
    samples: Seq<TwapSample>,
    cutoff: u32,
    ledger: u32,
    lo: int,
    hi: int,
)
    requires
        samples.len() > 0,
        prices_within(samples, lo, hi),
        twap::average(samples, cutoff, ledger) is Some,
    ensures
        lo <= twap::average(samples, cutoff, ledger)->Some_0 <= hi,
{
    assert(samples.last() == samples[samples.len() - 1]);
    if cutoff < ledger {
        let w = ledger - cutoff;
        let n = twap::price_sum(samples, cutoff as int, ledger as int);
        lemma_sum_within(samples, cutoff as int, ledger as int, lo, hi);
        lemma_quot_within(n, w, lo, hi);
        lemma_summable_fits(samples, cutoff as int, ledger as int, 0);
        let q = n / w;
        assert(n >= 0 ==> 0 <= q <= n) by (nonlinear_arith)
            requires
                w > 0,
                q == n / w,
        ;
        let m = (-n) / w;
        assert(n < 0 ==> 0 <= m <= -n) by (nonlinear_arith)
            requires
                w > 0,
                m == (-n) / w,
        ;
    }
}

/// Parts that are not negative can be added up if their sum fits.
proof fn lemma_fits_summable(samples: Seq<TwapSample>, from: int, to: int, sum: int)
    requires
        prices_within(samples, 0, i128::MAX as int),
        from <= to,
        0 <= sum,
        arith::fits(sum + twap::price_sum(samples, from, to)),
    ensures
        twap::summable(samples, from, to, sum),
    decreases samples.len(),
{
    if samples.len() > 0 {
        twap::lemma_price_sum(samples, from, to);
        let rest = samples.drop_last();
        let start = twap::stretch_start(samples, from, to);
        let p = samples.last().price as int;
        let part = p * (to - start);
        assert(samples.last() == samples[samples.len() - 1]);
        assert(part >= 0) by (nonlinear_arith)
            requires
                p >= 0,
                to >= start,
                part == p * (to - start),
        ;
        assert forall|i: int| 0 <= i < rest.len() implies 0 <= (#[trigger] rest[i]).price
            <= i128::MAX by {
            assert(rest[i] == samples[i]);
        }
        if rest.len() > 0 {
            lemma_sum_within(rest, from, start, 0, i128::MAX as int);
        } else {
            assert(start == from);
        }
        lemma_fits_summable(rest, from, start, sum + part);
    }
}

/// With prices that are not negative, there is an average exactly if the sum of the prices at
/// the ledgers of the window fits.
pub proof fn law_average_exists(samples: Seq<TwapSample>, cutoff: u32, ledger: u32)
    requires
        samples.len() > 0,
        prices_within(samples, 0, i128::MAX as int),
        cutoff < ledger,
    ensures
        twap::average(samples, cutoff, ledger) is Some <==> arith::fits(
            twap::price_sum(samples, cutoff as int, ledger as int),
        ),
{
    if twap::average(samples, cutoff, ledger) is Some {
        lemma_summable_fits(samples, cutoff as int, ledger as int, 0);
    } else if arith::fits(twap::price_sum(samples, cutoff as int, ledger as int)) {
        lemma_fits_summable(samples, cutoff as int, ledger as int, 0);
    }
}

/// Samples before the window count only by the price at which the window begins: two buffers
/// that agree on the prices of its ledgers have the same sum of prices.
pub proof fn law_only_the_window_counts(
    samples: Seq<TwapSample>,
    others: Seq<TwapSample>,
    from: int,
    to: int,
)
    requires
        forall|l: int|
            from <= l < to ==> #[trigger] twap::price_at(samples, l) == twap::price_at(others, l),
    ensures
        twap::price_sum(samples, from, to) == twap::price_sum(others, from, to),
    decreases to - from,
{
    if from < to {
        law_only_the_window_counts(samples, others, from, to - 1);
        assert(twap::price_at(samples, to - 1) == twap::price_at(others, to - 1));
    }
}

/// Adding a sample in the order of ledgers keeps the buffer in order and within its size, and
/// the new sample is the last.
pub proof fn law_buffer_in_order(samples: Seq<TwapSample>, now: u32, sample: TwapSample)
    requires
        laws::samples_in_order(samples, now),
        now <= sample.ledger,
    ensures
        laws::samples_in_order(twap::with_sample(samples, sample), sample.ledger),
        twap::with_sample(samples, sample).last() == sample,
{
}

/// With fewer than two samples in the window, the average is the spot price.
pub proof fn law_spot_without_history(s: PoolState, ledger: u32, period: u32)
    requires
        twap::window_count(s.samples, twap::window_start(ledger, period)) < 2,
    ensures
        s.twap(ledger, period) == s.price(),
{
}

/// Whether the price of the sample `i` is in force at `ledger`: the sample was taken by then and
/// no later one was. Before every sample, the price of the first one is in force.
pub open spec fn in_force(samples: Seq<TwapSample>, i: int, ledger: int) -> bool {
    &&& 0 <= i < samples.len()
    &&& i == 0 || samples[i].ledger <= ledger
    &&& i + 1 == samples.len() || samples[i + 1].ledger > ledger
}

/// Whether `price` is in force at `ledger`.
pub open spec fn price_in_force(samples: Seq<TwapSample>, ledger: int, price: int) -> bool {
    exists|i: int| #[trigger] in_force(samples, i, ledger) && samples[i].price == price
}

/// Whether `prices` are those in force at as many ledgers, one after the other, the first of them
/// `from`.
pub open spec fn prices_in_force(samples: Seq<TwapSample>, from: int, prices: Seq<int>) -> bool {
    forall|k: int|
        0 <= k < prices.len() ==> price_in_force(samples, from + k, #[trigger] prices[k])
}

/// The ledger `period` ledgers before `ledger`, and the first one where that many did not pass.
pub open spec fn look_back(ledger: u32, period: u32) -> int {
    if period <= ledger {
        ledger - period
    } else {
        0
    }
}

/// Whether at least two samples were taken at or after the ledger `from`.
pub open spec fn two_since(samples: Seq<TwapSample>, from: int) -> bool {
    exists|i: int, j: int|
        0 <= i < j < samples.len() && (#[trigger] samples[i]).ledger >= from && (
        #[trigger] samples[j]).ledger >= from
}

/// The price that is in force at a ledger is the price at it.
proof fn lemma_in_force(samples: Seq<TwapSample>, i: int, ledger: int)
    requires
        forall|a: int, b: int|
            0 <= a < b < samples.len() ==> (#[trigger] samples[a]).ledger < (
            #[trigger] samples[b]).ledger,
        in_force(samples, i, ledger),
    ensures
        twap::price_at(samples, ledger) == samples[i].price,
    decreases samples.len(),
{
    let n = samples.len() as int;
    if n == 1 || samples[n - 1].ledger <= ledger {
        assert(i == n - 1);
    } else {
        let rest = samples.drop_last();
        assert(in_force(rest, i, ledger));
        lemma_in_force(rest, i, ledger);
    }
}

/// The prices in force add up to the sum of the prices at their ledgers.
proof fn lemma_prices_in_force(samples: Seq<TwapSample>, from: int, prices: Seq<int>)
    requires
        forall|a: int, b: int|
            0 <= a < b < samples.len() ==> (#[trigger] samples[a]).ledger < (
            #[trigger] samples[b]).ledger,
        prices_in_force(samples, from, prices),
    ensures
        twap::price_sum(samples, from, from + prices.len()) == sums::sum(prices),
    decreases prices.len(),
{
    if prices.len() > 0 {
        let rest = prices.drop_last();
        let k = prices.len() - 1;
        assert forall|m: int| 0 <= m < rest.len() implies price_in_force(
            samples,
            from + m,
            #[trigger] rest[m],
        ) by {
            assert(rest[m] == prices[m]);
        }
        lemma_prices_in_force(samples, from, rest);
        assert(price_in_force(samples, from + k, prices[k]));
        let i = choose|i: int| #[trigger]
            in_force(samples, i, from + k) && samples[i].price == prices[k];
        lemma_in_force(samples, i, from + k);
    }
}

/// A sample in the window is counted.
proof fn lemma_one_counted(samples: Seq<TwapSample>, cutoff: u32, i: int)
    requires
        0 <= i < samples.len(),
        samples[i].ledger >= cutoff,
    ensures
        twap::window_count(samples, cutoff) >= 1,
    decreases samples.len(),
{
    if i < samples.len() - 1 {
        lemma_one_counted(samples.drop_last(), cutoff, i);
    }
}

/// Two samples in the window are counted.
proof fn lemma_two_counted(samples: Seq<TwapSample>, cutoff: u32, i: int, j: int)
    requires
        0 <= i < j < samples.len(),
        samples[i].ledger >= cutoff,
        samples[j].ledger >= cutoff,
    ensures
        twap::window_count(samples, cutoff) >= 2,
    decreases samples.len(),
{
    if j < samples.len() - 1 {
        lemma_two_counted(samples.drop_last(), cutoff, i, j);
    } else {
        lemma_one_counted(samples.drop_last(), cutoff, i);
    }
}

/// Where no two samples are in the window, no two are counted.
proof fn lemma_none_counted(samples: Seq<TwapSample>, cutoff: u32)
    requires
        !two_since(samples, cutoff as int),
    ensures
        twap::window_count(samples, cutoff) <= 1,
        (forall|i: int| 0 <= i < samples.len() ==> (#[trigger] samples[i]).ledger < cutoff)
            ==> twap::window_count(samples, cutoff) == 0,
    decreases samples.len(),
{
    if samples.len() > 0 {
        let rest = samples.drop_last();
        let n = samples.len() - 1;
        assert(!two_since(rest, cutoff as int)) by {
            if two_since(rest, cutoff as int) {
                let (i, j) = choose|i: int, j: int|
                    0 <= i < j < rest.len() && (#[trigger] rest[i]).ledger >= cutoff && (
                    #[trigger] rest[j]).ledger >= cutoff;
                assert(samples[i].ledger >= cutoff && samples[j].ledger >= cutoff);
            }
        }
        lemma_none_counted(rest, cutoff);
        if samples[n].ledger >= cutoff {
            assert forall|i: int| 0 <= i < rest.len() implies (#[trigger] rest[i]).ledger
                < cutoff by {
                assert(rest[i] == samples[i]);
                assert(samples[n].ledger >= cutoff);
            }
        } else {
            assert((forall|i: int| 0 <= i < samples.len() ==> (#[trigger] samples[i]).ledger < cutoff)
                ==> forall|i: int| 0 <= i < rest.len() ==> (#[trigger] rest[i]).ledger < cutoff) by {
                if forall|i: int| 0 <= i < samples.len() ==> (#[trigger] samples[i]).ledger < cutoff {
                    assert forall|i: int| 0 <= i < rest.len() implies (#[trigger] rest[i]).ledger
                        < cutoff by {
                        assert(rest[i] == samples[i]);
                    }
                }
            }
        }
    }
}

/// With two samples or more in the window, the time-weighted average price at `ledger` over a
/// look-back of `period` ledgers is the mean, rounded down, of the prices in force at each of the
/// ledgers looked back on, from `ledger - period` up to and without `ledger`. There is none
/// exactly if the sum of those prices does not fit.
pub proof fn law_twap_is_the_mean_over_the_period(
    s: PoolState,
    ledger: u32,
    period: u32,
    prices: Seq<int>,
)
    requires
        laws::samples_sound(s.samples, ledger),
        prices.len() == ledger - look_back(ledger, period),
        prices_in_force(s.samples, look_back(ledger, period), prices),
        two_since(s.samples, look_back(ledger, period)),
    ensures
        prices.len() > 0,
        match s.twap(ledger, period) {
            Some(average) => {
                &&& average * prices.len() <= sums::sum(prices)
                &&& sums::sum(prices) < (average + 1) * prices.len()
            },
            None => sums::sum(prices) > i128::MAX,
        },
        period <= ledger ==> prices.len() == period,
{
    let from = look_back(ledger, period);
    let cutoff = from as u32;
    let samples = s.samples;
    let (i, j) = choose|i: int, j: int|
        0 <= i < j < samples.len() && (#[trigger] samples[i]).ledger >= from && (
        #[trigger] samples[j]).ledger >= from;
    assert(samples[i].ledger < samples[j].ledger <= ledger);
    lemma_two_counted(samples, cutoff, i, j);
    lemma_prices_in_force(samples, from, prices);
    let n = sums::sum(prices);
    let w = prices.len() as int;
    assert(n == twap::price_sum(samples, cutoff as int, ledger as int));
    lemma_sum_within(samples, from, ledger as int, 0, i128::MAX as int);
    assert(n >= 0) by {
        assert(0 * w == 0);
    }
    law_average_exists(samples, cutoff, ledger);
    let q = n / w;
    assert(q * w <= n < (q + 1) * w && 0 <= q <= n) by (nonlinear_arith)
        requires
            n >= 0,
            w > 0,
            q == n / w,
    ;
}

/// With fewer than two samples in the window, the average is the price of the reserves: XLM per
/// sXLM, scaled by `10^7` and rounded down, and one without sXLM.
pub proof fn law_short_history_gives_the_reserve_price(s: PoolState, ledger: u32, period: u32)
    requires
        s.reserve_xlm >= 0,
        s.reserve_sxlm >= 0,
        !two_since(s.samples, look_back(ledger, period)),
    ensures
        match s.twap(ledger, period) {
            Some(price) => if s.reserve_sxlm == 0 {
                price == 10_000_000
            } else {
                &&& price * s.reserve_sxlm <= s.reserve_xlm * 10_000_000
                &&& s.reserve_xlm * 10_000_000 < (price + 1) * s.reserve_sxlm
            },
            None => s.reserve_sxlm > 0 && s.reserve_xlm * 10_000_000 > i128::MAX,
        },
{
    lemma_none_counted(s.samples, look_back(ledger, period) as u32);
    law_price_is_of_the_reserves(s);
}

/// The spot price is XLM per sXLM of the reserves, scaled by `10^7` and rounded down; without
/// sXLM it is one. There is none exactly if the scaled XLM does not fit.
pub proof fn law_price_is_of_the_reserves(s: PoolState)
    requires
        s.reserve_xlm >= 0,
        s.reserve_sxlm >= 0,
    ensures
        match s.price() {
            Some(price) => if s.reserve_sxlm == 0 {
                price == 10_000_000
            } else {
                &&& price * s.reserve_sxlm <= s.reserve_xlm * 10_000_000
                &&& s.reserve_xlm * 10_000_000 < (price + 1) * s.reserve_sxlm
            },
            None => s.reserve_sxlm > 0 && s.reserve_xlm * 10_000_000 > i128::MAX,
        },
{
    if s.reserve_sxlm > 0 {
        let p = s.reserve_xlm * 10_000_000;
        let d = s.reserve_sxlm as int;
        let q = p / d;
        assert(q * d <= p < (q + 1) * d && 0 <= q <= p) by (nonlinear_arith)
            requires
                p >= 0,
                d > 0,
                q == p / d,
        ;
    }
}

} // verus!
