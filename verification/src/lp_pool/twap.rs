//! The time-weighted average price and the buffer of samples behind it.

use vstd::prelude::*;
use crate::arith;
use crate::arith::{mul_div, RATE_PRECISION};
use crate::sdk;
use crate::sdk::{pairs_get, pairs_len, pairs_new, pairs_push_back};

verus! {

/// Maximum TWAP samples stored in the circular buffer.
pub const TWAP_MAX_SAMPLES: u32 = 100;

/// The pool price after the swaps of one ledger.
#[derive(Clone, Copy, PartialEq, Eq, Structural, Debug)]
pub struct TwapSample {
    pub ledger: u32,
    /// `reserve_xlm * RATE_PRECISION / reserve_sxlm`.
    pub price: i128,
}

/// The samples that a host vector of `(ledger, price)` pairs holds.
pub open spec fn samples_of(v: soroban_sdk::Vec<(u32, i128)>) -> Seq<TwapSample> {
    sdk::pair_items(v).map_values(|p: (u32, i128)| TwapSample { ledger: p.0, price: p.1 })
}

/// The buffer after `sample` joined it: it replaces a last sample of the same ledger,
/// and pushes out the oldest one when the buffer is full.
pub open spec fn with_sample(samples: Seq<TwapSample>, sample: TwapSample) -> Seq<TwapSample> {
    if samples.len() > 0 && samples.last().ledger == sample.ledger {
        samples.drop_last().push(sample)
    } else if samples.len() >= TWAP_MAX_SAMPLES {
        samples.drop_first().push(sample)
    } else {
        samples.push(sample)
    }
}

/// The buffer after the price of the given reserves was recorded at `ledger`. Without
/// sXLM there is no price and nothing is recorded.
pub open spec fn recorded(
    samples: Seq<TwapSample>,
    ledger: u32,
    reserve_xlm: i128,
    reserve_sxlm: i128,
) -> Option<Seq<TwapSample>> {
    if reserve_sxlm == 0 {
        Some(samples)
    } else {
        match mul_div(reserve_xlm, RATE_PRECISION, reserve_sxlm) {
            Some(price) => Some(with_sample(samples, TwapSample { ledger, price })),
            None => None,
        }
    }
}

/// Copies the items of `v` from position `from` up to position `to`.
fn copy_range(env: &soroban_sdk::Env, v: &soroban_sdk::Vec<(u32, i128)>, from: u32, to: u32) -> (r:
    soroban_sdk::Vec<(u32, i128)>)
    requires
        sdk::pairs_typed(*v),
        from <= to <= sdk::pair_items(*v).len(),
    ensures
        sdk::pairs_typed(r),
        sdk::pair_items(r) == sdk::pair_items(*v).subrange(from as int, to as int),
{
    let mut r = pairs_new(env);
    let mut i: u32 = from;
    while i < to
        invariant
            sdk::pairs_typed(*v),
            from <= i <= to <= sdk::pair_items(*v).len(),
            sdk::pairs_typed(r),
            sdk::pair_items(r) == sdk::pair_items(*v).subrange(from as int, i as int),
        decreases to - i,
    {
        match pairs_get(v, i) {
            Some(item) => {
                proof {
                    assert(sdk::pair_items(*v).subrange(from as int, i as int).push(item)
                        =~= sdk::pair_items(*v).subrange(from as int, i + 1));
                }
                pairs_push_back(&mut r, item);
            },
            None => {},
        }
        i = i + 1;
    }
    r
}

/// Push a new price sample into the circular buffer.
/// Called after every swap so the buffer tracks price history.
pub fn record_twap_sample(
    env: &soroban_sdk::Env,
    samples: &soroban_sdk::Vec<(u32, i128)>,
    ledger: u32,
    price: i128,
) -> (r: soroban_sdk::Vec<(u32, i128)>)
    requires
        sdk::pairs_typed(*samples),
    ensures
        sdk::pairs_typed(r),
        samples_of(r) == with_sample(samples_of(*samples), TwapSample { ledger, price }),
{
    let ghost items = sdk::pair_items(*samples);
    let ghost before = samples_of(*samples);
    let len: u32 = pairs_len(samples);
    let mut from: u32 = 0;
    let mut to: u32 = len;
    let mut same_ledger: bool = false;
    if len > 0 {
        match pairs_get(samples, len - 1) {
            Some(last) => {
                same_ledger = last.0 == ledger;
            },
            None => {},
        }
    }
    if same_ledger {
        to = len - 1;
    } else if len >= TWAP_MAX_SAMPLES {
        from = 1;
    }
    let mut r = copy_range(env, samples, from, to);
    proof {
        assert(len > 0 ==> before.last() == (TwapSample {
            ledger: items[len - 1].0,
            price: items[len - 1].1,
        }));
        assert(sdk::pair_items(r).len() < u32::MAX);
    }
    pairs_push_back(&mut r, (ledger, price));
    proof {
        assert(samples_of(r) =~= with_sample(before, TwapSample { ledger, price }));
    }
    r
}

// ---------------------------------------------------------------------------
// The average
// ---------------------------------------------------------------------------

/// The price at `ledger`: that of the last sample at or before it, or of the first sample where
/// none is that old.
pub open spec fn price_at(samples: Seq<TwapSample>, ledger: int) -> int
    decreases samples.len(),
{
    if samples.len() == 0 {
        0
    } else if samples.len() == 1 || samples.last().ledger <= ledger {
        samples.last().price as int
    } else {
        price_at(samples.drop_last(), ledger)
    }
}

/// The sum of the prices at the ledgers from `from` up to and without `to`.
pub open spec fn price_sum(samples: Seq<TwapSample>, from: int, to: int) -> int
    decreases to - from,
{
    if to <= from {
        0
    } else {
        price_sum(samples, from, to - 1) + price_at(samples, to - 1)
    }
}

/// Where, among the ledgers from `from` to `to`, the last sample becomes the price.
pub open spec fn stretch_start(samples: Seq<TwapSample>, from: int, to: int) -> int {
    if samples.len() <= 1 || samples.last().ledger <= from {
        from
    } else if samples.last().ledger >= to {
        to
    } else {
        samples.last().ledger as int
    }
}

/// Whether the sum of the prices at the ledgers from `from` to `to` can be added to `sum`: each
/// price times the ledgers for which it held, and the sum after each of them, fits.
pub open spec fn summable(samples: Seq<TwapSample>, from: int, to: int, sum: int) -> bool
    decreases samples.len(),
{
    samples.len() > 0 ==> {
        let start = stretch_start(samples, from, to);
        let part = samples.last().price * (to - start);
        &&& arith::fits(part)
        &&& arith::fits(sum + part)
        &&& summable(samples.drop_last(), from, start, sum + part)
    }
}

/// The number of samples in the window that begins at `cutoff`.
pub open spec fn window_count(samples: Seq<TwapSample>, cutoff: u32) -> nat
    decreases samples.len(),
{
    if samples.len() == 0 {
        0
    } else {
        window_count(samples.drop_last(), cutoff) + (if samples.last().ledger >= cutoff {
            1nat
        } else {
            0nat
        })
    }
}

/// The ledger at which a window of `period` ledgers that ends at `ledger` begins.
pub open spec fn window_start(ledger: u32, period: u32) -> u32 {
    if ledger >= period {
        (ledger - period) as u32
    } else {
        0
    }
}

/// The average price over the ledgers from `cutoff` up to `ledger`. Over a window of no length
/// it is the last price.
pub open spec fn average(samples: Seq<TwapSample>, cutoff: u32, ledger: u32) -> Option<i128> {
    if cutoff >= ledger {
        Some(samples.last().price)
    } else if summable(samples, cutoff as int, ledger as int, 0) {
        Some(
            arith::quot(
                price_sum(samples, cutoff as int, ledger as int),
                ledger - cutoff,
            ) as i128,
        )
    } else {
        None
    }
}

/// A sum of prices is the sum over its two parts.
proof fn lemma_sum_splits(samples: Seq<TwapSample>, from: int, mid: int, to: int)
    requires
        from <= mid <= to,
    ensures
        price_sum(samples, from, to) == price_sum(samples, from, mid) + price_sum(
            samples,
            mid,
            to,
        ),
    decreases to - mid,
{
    if mid < to {
        lemma_sum_splits(samples, from, mid, to - 1);
    }
}

/// From a ledger on at which the last sample is the price, the sum is that price times the
/// ledgers.
proof fn lemma_last_stretch(samples: Seq<TwapSample>, start: int, to: int)
    requires
        samples.len() > 0,
        start <= to,
        samples.len() == 1 || samples.last().ledger <= start,
    ensures
        price_sum(samples, start, to) == samples.last().price * (to - start),
    decreases to - start,
{
    let p = samples.last().price as int;
    if start < to {
        lemma_last_stretch(samples, start, to - 1);
        assert(p * (to - start) == p * (to - 1 - start) + p) by (nonlinear_arith);
    } else {
        assert(p * (to - start) == 0) by (nonlinear_arith)
            requires
                to == start,
        ;
    }
}

/// Before the last sample, the prices are those of the other samples.
proof fn lemma_earlier_stretches(samples: Seq<TwapSample>, from: int, to: int)
    requires
        samples.len() > 1,
        samples.last().ledger >= to,
    ensures
        price_sum(samples, from, to) == price_sum(samples.drop_last(), from, to),
    decreases to - from,
{
    if from < to {
        lemma_earlier_stretches(samples, from, to - 1);
    }
}

/// The sum over a window is the part of the last sample and the sum over what is before it.
pub proof fn lemma_price_sum(samples: Seq<TwapSample>, from: int, to: int)
    requires
        samples.len() > 0,
        from <= to,
    ensures
        ({
            let start = stretch_start(samples, from, to);
            &&& from <= start <= to
            &&& price_sum(samples, from, to) == price_sum(samples.drop_last(), from, start)
                + samples.last().price * (to - start)
        }),
{
    let start = stretch_start(samples, from, to);
    lemma_sum_splits(samples, from, start, to);
    if start < to {
        lemma_last_stretch(samples, start, to);
    } else {
        assert(samples.last().price * (to - start) == 0) by (nonlinear_arith)
            requires
                to == start,
        ;
    }
    if start > from {
        lemma_earlier_stretches(samples, from, start);
    }
}

/// Counts the samples in the window that begins at `cutoff`.
pub fn count_in_window(samples: &soroban_sdk::Vec<(u32, i128)>, cutoff: u32) -> (n: u32)
    requires
        sdk::pairs_typed(*samples),
    ensures
        n == window_count(samples_of(*samples), cutoff),
{
    let len: u32 = pairs_len(samples);
    let ghost all = samples_of(*samples);
    let mut n: u32 = 0;
    let mut i: u32 = 0;
    proof {
        assert(all.take(0) =~= Seq::empty());
    }
    while i < len
        invariant
            sdk::pairs_typed(*samples),
            len == sdk::pair_items(*samples).len(),
            all == samples_of(*samples),
            n <= i <= len,
            n == window_count(all.take(i as int), cutoff),
        decreases len - i,
    {
        match pairs_get(samples, i) {
            Some(p) => {
                proof {
                    assert(all.take(i + 1).drop_last() =~= all.take(i as int));
                    assert(all.take(i + 1).last() == (TwapSample { ledger: p.0, price: p.1 }));
                }
                if p.0 >= cutoff {
                    n = n + 1;
                }
            },
            None => {},
        }
        i = i + 1;
    }
    proof {
        assert(all.take(len as int) =~= all);
    }
    n
}

/// Averages `samples` over the ledgers from `cutoff` up to `ledger`.
pub fn average_price(samples: &soroban_sdk::Vec<(u32, i128)>, cutoff: u32, ledger: u32) -> (r:
    Option<i128>)
    requires
        sdk::pairs_typed(*samples),
        sdk::pair_items(*samples).len() > 0,
    ensures
        r == average(samples_of(*samples), cutoff, ledger),
{
    let len: u32 = pairs_len(samples);
    let ghost all = samples_of(*samples);
    if cutoff >= ledger {
        return match pairs_get(samples, len - 1) {
            Some(last) => Some(last.1),
            None => None,
        };
    }
    let mut sum: i128 = 0;
    let mut end: u32 = ledger;
    let mut n: u32 = len;
    proof {
        assert(all.take(len as int) =~= all);
    }
    while n > 0
        invariant
            sdk::pairs_typed(*samples),
            len == sdk::pair_items(*samples).len(),
            all == samples_of(*samples),
            n <= len,
            cutoff <= end <= ledger,
            n == 0 ==> end == cutoff,
            price_sum(all, cutoff as int, ledger as int) == price_sum(
                all.take(n as int),
                cutoff as int,
                end as int,
            ) + sum,
            summable(all, cutoff as int, ledger as int, 0) == summable(
                all.take(n as int),
                cutoff as int,
                end as int,
                sum as int,
            ),
        decreases n,
    {
        let sample: (u32, i128) = match pairs_get(samples, n - 1) {
            Some(p) => p,
            None => (0, 0),
        };
        let start: u32 = if n == 1 || sample.0 <= cutoff {
            cutoff
        } else if sample.0 >= end {
            end
        } else {
            sample.0
        };
        proof {
            let held = all.take(n as int);
            assert(held.drop_last() =~= all.take(n - 1));
            assert(held.last() == (TwapSample { ledger: sample.0, price: sample.1 }));
            lemma_price_sum(held, cutoff as int, end as int);
        }
        let part: i128 = match sample.1.checked_mul((end - start) as i128) {
            None => return None,
            Some(part) => part,
        };
        sum = match sum.checked_add(part) {
            None => return None,
            Some(sum) => sum,
        };
        end = start;
        n = n - 1;
    }
    let width: i128 = (ledger - cutoff) as i128;
    sum.checked_div(width)
}

} // verus!
