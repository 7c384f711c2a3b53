//! General properties of the engine, stated and proved once and for all:
//! what a strictly rising series does to the RSI state, the range of the
//! RSI value, determinism of every pass, and the boundary behaviour of a
//! series exactly as long as the long moving-average window.

use vstd::prelude::*;
use vstd::arithmetic::div_mod::{
    lemma_div_by_self, lemma_div_is_ordered, lemma_div_multiples_vanish, lemma_div_of0,
    lemma_div_pos_is_pos,
};
use vstd::arithmetic::mul::lemma_mul_inequality;
use crate::indicators::{
    avg_gain_at, avg_loss_at, change_at, ma_at, seed_gain, seed_loss, spec_rsi_value, RsiPoint,
};
use crate::signals::{analyze_signal_at, signal_at, Signal, LONG_WINDOW};

verus! {

/// The prices rise strictly at every step.
pub open spec fn strictly_rising(prices: Seq<u64>) -> bool {
    forall|k: int| 1 <= k < prices.len() ==> prices[k - 1] < #[trigger] prices[k]
}

/// Over a strictly rising series, the seed phase accumulates no loss at
/// all, and at least one unit of gain per step.
proof fn lemma_seed_of_rising_series(prices: Seq<u64>, j: int)
    requires
        0 <= j < prices.len(),
        strictly_rising(prices),
    ensures
        seed_loss(prices, j) == 0,
        seed_gain(prices, j) >= j,
    decreases j,
{
    if j >= 1 {
        lemma_seed_of_rising_series(prices, j - 1);
        assert(prices[j - 1] < prices[j]);
    }
}

/// Law: a strictly rising price series keeps the smoothed average loss at
/// exactly zero from the seeded index onward, while the smoothed average
/// gain stays positive — so the RSI value is pinned to 100, and a Buy gate
/// at such an index always reads as overbought.
pub proof fn lemma_rsi_of_rising_series(prices: Seq<u64>, period: int, i: int)
    requires
        1 <= period < prices.len(),
        period <= i < prices.len(),
        strictly_rising(prices),
    ensures
        avg_loss_at(prices, period, i) == 0,
        avg_gain_at(prices, period, i) >= 1,
        spec_rsi_value(avg_gain_at(prices, period, i), avg_loss_at(prices, period, i)) == 100,
    decreases i - period,
{
    lemma_rsi_of_rising_series_state(prices, period, i);
    let g = avg_gain_at(prices, period, i);
    lemma_div_multiples_vanish(100, g);
    assert(g * 100 == 100 * g) by (nonlinear_arith);
}

/// The gain/loss part of `lemma_rsi_of_rising_series`, proved by induction
/// over the smoothing steps.
proof fn lemma_rsi_of_rising_series_state(prices: Seq<u64>, period: int, i: int)
    requires
        1 <= period < prices.len(),
        period <= i < prices.len(),
        strictly_rising(prices),
    ensures
        avg_loss_at(prices, period, i) == 0,
        avg_gain_at(prices, period, i) >= 1,
    decreases i - period,
{
    if i == period {
        lemma_seed_of_rising_series(prices, period);
        lemma_div_of0(period);
        lemma_div_is_ordered(period, seed_gain(prices, period), period);
        lemma_div_by_self(period);
    } else {
        lemma_rsi_of_rising_series_state(prices, period, i - 1);
        assert(prices[i - 1] < prices[i]);
        let g = avg_gain_at(prices, period, i - 1);
        let c = change_at(prices, i);
        assert(avg_loss_at(prices, period, i - 1) * (period - 1) == 0);
        lemma_div_of0(period);
        lemma_mul_inequality(1, g, period - 1);
        assert(g * (period - 1) + c >= period);
        lemma_div_is_ordered(period, g * (period - 1) + c, period);
        lemma_div_by_self(period);
    }
}

/// Law: wherever the RSI value is defined (the gain/loss pair is not zero
/// on both sides), it lies between 0 and 100.
pub proof fn lemma_rsi_value_in_range(gain: int, loss: int)
    requires
        0 <= gain,
        0 <= loss,
        0 < gain + loss,
    ensures
        0 <= spec_rsi_value(gain, loss) <= 100,
{
    lemma_div_pos_is_pos(100 * gain, gain + loss);
    lemma_div_is_ordered(100 * gain, 100 * (gain + loss), gain + loss);
    lemma_div_multiples_vanish(100, gain + loss);
}

/// Law: the moving average is a function of the price series and window
/// alone — any two outputs meeting its contract are identical.
pub proof fn lemma_moving_average_deterministic(
    prices: Seq<u64>,
    window: int,
    first: Seq<u64>,
    second: Seq<u64>,
)
    requires
        first.len() == prices.len(),
        forall|i: int| 0 <= i < first.len() ==> first[i] as int == ma_at(prices, window, i),
        second.len() == prices.len(),
        forall|i: int| 0 <= i < second.len() ==> second[i] as int == ma_at(prices, window, i),
    ensures
        first == second,
{
    assert(first =~= second);
}

/// Law: the RSI pass is a function of the price series and period alone —
/// any two outputs meeting its contract are identical.
pub proof fn lemma_rsi_deterministic(
    prices: Seq<u64>,
    period: int,
    first: Seq<RsiPoint>,
    second: Seq<RsiPoint>,
)
    requires
        first.len() == prices.len(),
        forall|i: int| 0 <= i < period && i < first.len() ==> first[i] == (RsiPoint {
            avg_gain: 0,
            avg_loss: 0,
        }),
        forall|i: int| period <= i < first.len() ==> first[i].avg_gain as int == avg_gain_at(
            prices,
            period,
            i,
        ) && first[i].avg_loss as int == avg_loss_at(prices, period, i),
        second.len() == prices.len(),
        forall|i: int| 0 <= i < period && i < second.len() ==> second[i] == (RsiPoint {
            avg_gain: 0,
            avg_loss: 0,
        }),
        forall|i: int| period <= i < second.len() ==> second[i].avg_gain as int == avg_gain_at(
            prices,
            period,
            i,
        ) && second[i].avg_loss as int == avg_loss_at(prices, period, i),
    ensures
        first == second,
{
    assert forall|i: int| 0 <= i < first.len() implies first[i] == second[i] by {
        if period <= i {
            assert(first[i].avg_gain as int == avg_gain_at(prices, period, i));
            assert(first[i].avg_loss as int == avg_loss_at(prices, period, i));
            assert(second[i].avg_gain as int == avg_gain_at(prices, period, i));
            assert(second[i].avg_loss as int == avg_loss_at(prices, period, i));
        }
        assert(first[i] == (RsiPoint { avg_gain: first[i].avg_gain, avg_loss: first[i].avg_loss }));
        assert(second[i] == (RsiPoint {
            avg_gain: second[i].avg_gain,
            avg_loss: second[i].avg_loss,
        }));
    }
    assert(first =~= second);
}

/// Law: signal classification is a function of the three indicator series
/// and the start index alone — any two outputs meeting its contract are
/// identical.
pub proof fn lemma_generate_signals_deterministic(
    ma_short: Seq<u64>,
    ma_long: Seq<u64>,
    rsi: Seq<RsiPoint>,
    start: int,
    first: Seq<Signal>,
    second: Seq<Signal>,
)
    requires
        first.len() == ma_short.len(),
        forall|i: int| 0 <= i < first.len() ==> first[i] == signal_at(
            ma_short,
            ma_long,
            rsi,
            start,
            i,
        ),
        second.len() == ma_short.len(),
        forall|i: int| 0 <= i < second.len() ==> second[i] == signal_at(
            ma_short,
            ma_long,
            rsi,
            start,
            i,
        ),
    ensures
        first == second,
{
    assert(first =~= second);
}

/// Law: the whole analysis pass is a function of the price series alone —
/// any two signal series meeting its contract are identical.
pub proof fn lemma_analyze_deterministic(
    prices: Seq<u64>,
    first: Seq<Signal>,
    second: Seq<Signal>,
)
    requires
        first.len() == prices.len(),
        forall|i: int| 0 <= i < first.len() ==> first[i] == analyze_signal_at(prices, i),
        second.len() == prices.len(),
        forall|i: int| 0 <= i < second.len() ==> second[i] == analyze_signal_at(prices, i),
    ensures
        first == second,
{
    assert(first =~= second);
}

/// Law: over a price series exactly as long as the long moving-average
/// window — which `analyze`'s own contract says is just long enough to
/// succeed — only the last index could ever carry a signal other than Hold.
pub proof fn lemma_boundary_window_length(prices: Seq<u64>, signals: Seq<Signal>)
    requires
        prices.len() == LONG_WINDOW,
        signals.len() == prices.len(),
        forall|i: int| 0 <= i < signals.len() ==> signals[i] == analyze_signal_at(prices, i),
    ensures
        forall|i: int|
            0 <= i < signals.len() && i != LONG_WINDOW - 1 ==> signals[i] == Signal::Hold,
{
}

} // verus!
