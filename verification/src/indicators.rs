//! Trailing simple moving average and Wilder-smoothed RSI over a
//! fixed-point integer price series.

use vstd::prelude::*;
use vstd::arithmetic::div_mod::{lemma_div_is_ordered, lemma_div_multiples_vanish};
use vstd::arithmetic::mul::lemma_mul_inequality;

verus! {

/// Sum of `prices[lo..hi]`.
pub open spec fn sum_range(prices: Seq<u64>, lo: int, hi: int) -> int
    decreases hi - lo,
{
    if lo >= hi {
        0
    } else {
        prices[lo] + sum_range(prices, lo + 1, hi)
    }
}

/// Extending the summed range by one element on the right adds that element.
pub proof fn lemma_sum_range_snoc(prices: Seq<u64>, lo: int, hi: int)
    requires
        lo <= hi,
    ensures
        sum_range(prices, lo, hi + 1) == sum_range(prices, lo, hi) + prices[hi],
    decreases hi - lo,
{
    if lo == hi {
        assert(sum_range(prices, lo, hi) == 0);
        assert(sum_range(prices, lo + 1, hi + 1) == 0);
    } else {
        lemma_sum_range_snoc(prices, lo + 1, hi);
    }
}

/// The trailing simple moving average at index `i`: the mean of the
/// `window` prices immediately preceding `i` (excluding `i` itself),
/// and the placeholder 0 while the window is not yet warm.
pub open spec fn ma_at(prices: Seq<u64>, window: int, i: int) -> int {
    if i < window {
        0
    } else {
        sum_range(prices, i - window, i) / window
    }
}

/// A total accumulated over `count` summands, each at most `bound`,
/// averages out to at most `bound`.
proof fn lemma_avg_fits(total: int, count: int, bound: int)
    requires
        1 <= count,
        0 <= bound,
        0 <= total <= count * bound,
    ensures
        0 <= total / count <= bound,
{
    lemma_div_is_ordered(total, count * bound, count);
    lemma_div_multiples_vanish(bound, count);
    assert(total / count >= 0) by (nonlinear_arith)
        requires
            total >= 0,
            count >= 1,
    ;
}

/// Trailing simple moving average of `prices` with the given window.
///
/// The result is index-aligned with `prices`: entry `i` is the mean of the
/// `window` prices preceding `i` (integer division), and entries in
/// `[0, window)` hold the placeholder 0. A window longer than the series
/// yields an all-placeholder result.
pub fn moving_average(prices: &Vec<u64>, window: usize) -> (ma: Vec<u64>)
    requires
        1 <= window,
    ensures
        ma@.len() == prices@.len(),
        forall|i: int| 0 <= i < ma@.len() ==> ma@[i] as int == ma_at(prices@, window as int, i),
{
    let n = prices.len();
    let mut ma: Vec<u64> = Vec::new();
    let mut i: usize = 0;
    while i < n
        invariant
            i <= n,
            n == prices@.len(),
            1 <= window,
            ma@.len() == i,
            forall|m: int| 0 <= m < i ==> ma@[m] as int == ma_at(prices@, window as int, m),
        decreases n - i,
    {
        if i < window {
            ma.push(0);
        } else {
            let lo = i - window;
            let mut sum: u128 = 0;
            let mut j: usize = lo;
            while j < i
                invariant
                    lo <= j <= i,
                    i <= n,
                    n == prices@.len(),
                    lo == i - window,
                    1 <= window,
                    sum as int == sum_range(prices@, lo as int, j as int),
                    sum as int <= (j - lo) * (u64::MAX as int),
                decreases i - j,
            {
                proof {
                    lemma_sum_range_snoc(prices@, lo as int, j as int);
                }
                sum = sum + (prices[j] as u128);
                j = j + 1;
            }
            proof {
                lemma_avg_fits(sum as int, window as int, u64::MAX as int);
            }
            ma.push((sum / (window as u128)) as u64);
        }
        i = i + 1;
    }
    ma
}

/// Wilder's smoothed average gain and average loss at one index.
///
/// The pair stands in for the RSI value `100 * gain / (gain + loss)`:
/// keeping both components exact lets the overbought/oversold gates be
/// decided without dividing, so a zero average loss needs no special case.
#[derive(Clone, Copy, PartialEq, Eq, Structural, Debug)]
pub struct RsiPoint {
    pub avg_gain: u64,
    pub avg_loss: u64,
}

/// The day-over-day change entering index `i`.
pub open spec fn change_at(prices: Seq<u64>, i: int) -> int {
    prices[i] - prices[i - 1]
}

/// Total positive change over indices `1..=j`.
pub open spec fn seed_gain(prices: Seq<u64>, j: int) -> int
    decreases j,
{
    if j < 1 {
        0
    } else {
        seed_gain(prices, j - 1) + if change_at(prices, j) > 0 {
            change_at(prices, j)
        } else {
            0
        }
    }
}

/// Total magnitude of non-positive change over indices `1..=j`.
pub open spec fn seed_loss(prices: Seq<u64>, j: int) -> int
    decreases j,
{
    if j < 1 {
        0
    } else {
        seed_loss(prices, j - 1) + if change_at(prices, j) > 0 {
            0
        } else {
            -change_at(prices, j)
        }
    }
}

/// Wilder's smoothed average gain at index `i >= period`.
pub open spec fn avg_gain_at(prices: Seq<u64>, period: int, i: int) -> int
    decreases i - period,
{
    if i <= period {
        seed_gain(prices, period) / period
    } else if change_at(prices, i) > 0 {
        (avg_gain_at(prices, period, i - 1) * (period - 1) + change_at(prices, i)) / period
    } else {
        avg_gain_at(prices, period, i - 1) * (period - 1) / period
    }
}

/// Wilder's smoothed average loss at index `i >= period`.
pub open spec fn avg_loss_at(prices: Seq<u64>, period: int, i: int) -> int
    decreases i - period,
{
    if i <= period {
        seed_loss(prices, period) / period
    } else if change_at(prices, i) > 0 {
        avg_loss_at(prices, period, i - 1) * (period - 1) / period
    } else {
        (avg_loss_at(prices, period, i - 1) * (period - 1) - change_at(prices, i)) / period
    }
}

/// The RSI value carried by an average gain/loss pair, on the scale 0..=100:
/// `100 * gain / (gain + loss)`, meaningful only when `gain + loss > 0`.
pub open spec fn spec_rsi_value(gain: int, loss: int) -> int {
    100 * gain / (gain + loss)
}

/// The RSI value of a smoothed gain/loss pair, or `None` when both
/// averages are zero (the case where the classical formula divides
/// zero by zero and yields no number).
pub fn rsi_value(point: &RsiPoint) -> (r: Option<u64>)
    ensures
        point.avg_gain + point.avg_loss == 0 <==> r is None,
        r matches Some(v) ==> v as int == spec_rsi_value(
            point.avg_gain as int,
            point.avg_loss as int,
        ) && v <= 100,
{
    let g = point.avg_gain as u128;
    let l = point.avg_loss as u128;
    if g + l == 0 {
        None
    } else {
        let v = (100 * g) / (g + l);
        proof {
            lemma_div_is_ordered(100 * g as int, 100 * (g + l) as int, g as int + l as int);
            lemma_div_multiples_vanish(100, g as int + l as int);
        }
        Some(v as u64)
    }
}

/// One Wilder smoothing step keeps the average within the common bound of
/// the previous average and the incoming change.
proof fn lemma_wilder_step_bound(avg: int, c: int, bound: int, period: int)
    requires
        1 <= period,
        0 <= avg <= bound,
        0 <= c <= bound,
    ensures
        0 <= (avg * (period - 1) + c) / period <= bound,
{
    lemma_mul_inequality(avg, bound, period - 1);
    assert(bound * (period - 1) + bound == period * bound) by (nonlinear_arith);
    assert(avg * (period - 1) + c <= period * bound);
    lemma_div_is_ordered(avg * (period - 1) + c, period * bound, period);
    lemma_div_multiples_vanish(bound, period);
    assert((avg * (period - 1) + c) / period >= 0) by (nonlinear_arith)
        requires
            avg >= 0,
            c >= 0,
            period >= 1,
    ;
}

/// Wilder-smoothed RSI state of `prices` with the given period.
///
/// The result is index-aligned with `prices`: entries in `[0, period)` hold
/// the placeholder pair `(0, 0)`; entry `period` holds the seeded averages
/// (total gain and loss over the first `period` changes, each divided by
/// `period`); every later entry applies one step of Wilder smoothing.
pub fn calculate_rsi(prices: &Vec<u64>, period: usize) -> (out: Vec<RsiPoint>)
    requires
        1 <= period,
        prices@.len() > period,
    ensures
        out@.len() == prices@.len(),
        forall|i: int| 0 <= i < period ==> out@[i] == (RsiPoint { avg_gain: 0, avg_loss: 0 }),
        forall|i: int| period <= i < out@.len() ==> out@[i].avg_gain as int == avg_gain_at(
            prices@,
            period as int,
            i,
        ) && out@[i].avg_loss as int == avg_loss_at(prices@, period as int, i),
{
    let n = prices.len();
    let mut out: Vec<RsiPoint> = Vec::new();
    let mut k: usize = 0;
    while k < period
        invariant
            k <= period,
            out@.len() == k,
            forall|i: int| 0 <= i < k ==> out@[i] == (RsiPoint { avg_gain: 0, avg_loss: 0 }),
        decreases period - k,
    {
        out.push(RsiPoint { avg_gain: 0, avg_loss: 0 });
        k = k + 1;
    }

    let mut gain: u128 = 0;
    let mut loss: u128 = 0;
    let mut j: usize = 1;
    while j <= period
        invariant
            1 <= j && j <= period + 1,
            period < n,
            n == prices@.len(),
            gain as int == seed_gain(prices@, j - 1),
            loss as int == seed_loss(prices@, j - 1),
            gain as int <= (j - 1) * (u64::MAX as int),
            loss as int <= (j - 1) * (u64::MAX as int),
        decreases period + 1 - j,
    {
        if prices[j] > prices[j - 1] {
            gain = gain + ((prices[j] - prices[j - 1]) as u128);
        } else {
            loss = loss + ((prices[j - 1] - prices[j]) as u128);
        }
        j = j + 1;
    }

    let p = period as u128;
    proof {
        lemma_avg_fits(gain as int, period as int, u64::MAX as int);
        lemma_avg_fits(loss as int, period as int, u64::MAX as int);
    }
    let mut avg_gain: u64 = (gain / p) as u64;
    let mut avg_loss: u64 = (loss / p) as u64;
    out.push(RsiPoint { avg_gain, avg_loss });

    let mut i: usize = period + 1;
    while i < n
        invariant
            period + 1 <= i <= n,
            n == prices@.len(),
            period >= 1,
            p == period as u128,
            out@.len() == i,
            avg_gain as int == avg_gain_at(prices@, period as int, i - 1),
            avg_loss as int == avg_loss_at(prices@, period as int, i - 1),
            forall|m: int| 0 <= m < period ==> out@[m] == (RsiPoint { avg_gain: 0, avg_loss: 0 }),
            forall|m: int| period <= m < i ==> out@[m].avg_gain as int == avg_gain_at(
                prices@,
                period as int,
                m,
            ) && out@[m].avg_loss as int == avg_loss_at(prices@, period as int, m),
        decreases n - i,
    {
        let pm1 = p - 1;
        proof {
            lemma_mul_inequality(avg_gain as int, u64::MAX as int, pm1 as int);
            lemma_mul_inequality(avg_loss as int, u64::MAX as int, pm1 as int);
        }
        if prices[i] > prices[i - 1] {
            let c = prices[i] - prices[i - 1];
            proof {
                lemma_wilder_step_bound(avg_gain as int, c as int, u64::MAX as int, period as int);
                lemma_wilder_step_bound(avg_loss as int, 0, u64::MAX as int, period as int);
            }
            avg_gain = (((avg_gain as u128) * pm1 + (c as u128)) / p) as u64;
            avg_loss = (((avg_loss as u128) * pm1) / p) as u64;
        } else {
            let c = prices[i - 1] - prices[i];
            proof {
                lemma_wilder_step_bound(avg_gain as int, 0, u64::MAX as int, period as int);
                lemma_wilder_step_bound(avg_loss as int, c as int, u64::MAX as int, period as int);
            }
            avg_gain = (((avg_gain as u128) * pm1) / p) as u64;
            avg_loss = (((avg_loss as u128) * pm1 + (c as u128)) / p) as u64;
        }
        out.push(RsiPoint { avg_gain, avg_loss });
        i = i + 1;
    }
    out
}

} // verus!
