//! Crossover-based trading signals: a Golden Cross gated by the RSI
//! overbought threshold yields Buy, a Death Cross gated by the oversold
//! threshold yields Sell, and everything else is Hold.

use vstd::prelude::*;
use crate::indicators::{
    RsiPoint, avg_gain_at, avg_loss_at, calculate_rsi, ma_at, moving_average,
};

verus! {

/// Window of the short moving average used by `analyze`.
pub const SHORT_WINDOW: usize = 50;

/// Window of the long moving average used by `analyze`; also the first
/// index at which crossovers are evaluated.
pub const LONG_WINDOW: usize = 200;

/// Period of the RSI used by `analyze`.
pub const RSI_PERIOD: usize = 14;

/// The per-index trading signal.
#[derive(Clone, Copy, PartialEq, Eq, Structural, Debug)]
pub enum Signal {
    Hold,
    Buy,
    Sell,
}

/// The RSI of the pair `(gain, loss)` is strictly below the overbought
/// threshold: cross-multiplying `100 * gain / (gain + loss) < 70` gives
/// `30 * gain < 70 * loss`, which also settles the degenerate cases the
/// way the classical formula does: a zero loss (RSI pinned at 100, or no
/// value at all when the gain is zero too) never passes.
pub open spec fn spec_not_overbought(gain: int, loss: int) -> bool {
    30 * gain < 70 * loss
}

/// The RSI of the pair `(gain, loss)` is strictly above the oversold
/// threshold: `100 * gain / (gain + loss) > 30` cross-multiplies to
/// `70 * gain > 30 * loss`. A zero loss with a positive gain passes; a
/// pair that is zero on both sides never does.
pub open spec fn spec_not_oversold(gain: int, loss: int) -> bool {
    70 * gain > 30 * loss
}

/// Whether the RSI state admits a Buy (not overbought).
pub fn not_overbought(point: &RsiPoint) -> (b: bool)
    ensures
        b == spec_not_overbought(point.avg_gain as int, point.avg_loss as int),
{
    30 * (point.avg_gain as u128) < 70 * (point.avg_loss as u128)
}

/// Whether the RSI state admits a Sell (not oversold).
pub fn not_oversold(point: &RsiPoint) -> (b: bool)
    ensures
        b == spec_not_oversold(point.avg_gain as int, point.avg_loss as int),
{
    70 * (point.avg_gain as u128) > 30 * (point.avg_loss as u128)
}

/// The signal at index `i`, given the two moving-average series, the RSI
/// series and the first index eligible for evaluation. Indices before
/// `start` (and index 0, which has no predecessor) are always Hold; a
/// Golden Cross gated by the overbought check is Buy; otherwise a Death
/// Cross gated by the oversold check is Sell; otherwise Hold.
pub open spec fn signal_at(
    ma_short: Seq<u64>,
    ma_long: Seq<u64>,
    rsi: Seq<RsiPoint>,
    start: int,
    i: int,
) -> Signal {
    if i < start || i < 1 || i >= ma_short.len() {
        Signal::Hold
    } else if ma_short[i] > ma_long[i] && ma_short[i - 1] <= ma_long[i - 1]
        && spec_not_overbought(rsi[i].avg_gain as int, rsi[i].avg_loss as int) {
        Signal::Buy
    } else if ma_short[i] < ma_long[i] && ma_short[i - 1] >= ma_long[i - 1]
        && spec_not_oversold(rsi[i].avg_gain as int, rsi[i].avg_loss as int) {
        Signal::Sell
    } else {
        Signal::Hold
    }
}

/// Classifies every index of the three index-aligned indicator series.
///
/// Every entry is Hold except where, at an index at or past `start_index`,
/// the short average crosses strictly above the long average (Buy, unless
/// overbought) or strictly below it (Sell, unless oversold).
pub fn generate_signals(
    ma_short: &Vec<u64>,
    ma_long: &Vec<u64>,
    rsi: &Vec<RsiPoint>,
    start_index: usize,
) -> (signals: Vec<Signal>)
    requires
        ma_short@.len() == ma_long@.len(),
        ma_long@.len() == rsi@.len(),
    ensures
        signals@.len() == ma_short@.len(),
        forall|i: int| 0 <= i < signals@.len() ==> signals@[i] == signal_at(
            ma_short@,
            ma_long@,
            rsi@,
            start_index as int,
            i,
        ),
{
    let n = ma_short.len();
    let mut signals: Vec<Signal> = Vec::new();
    let mut i: usize = 0;
    while i < n
        invariant
            i <= n,
            n == ma_short@.len(),
            ma_short@.len() == ma_long@.len(),
            ma_long@.len() == rsi@.len(),
            signals@.len() == i,
            forall|m: int| 0 <= m < i ==> signals@[m] == signal_at(
                ma_short@,
                ma_long@,
                rsi@,
                start_index as int,
                m,
            ),
        decreases n - i,
    {
        let s = if i >= start_index && i >= 1 {
            if ma_short[i] > ma_long[i] && ma_short[i - 1] <= ma_long[i - 1]
                && not_overbought(&rsi[i]) {
                Signal::Buy
            } else if ma_short[i] < ma_long[i] && ma_short[i - 1] >= ma_long[i - 1]
                && not_oversold(&rsi[i]) {
                Signal::Sell
            } else {
                Signal::Hold
            }
        } else {
            Signal::Hold
        };
        signals.push(s);
        i = i + 1;
    }
    signals
}

/// The one recoverable failure of an analysis pass.
#[derive(Clone, Copy, PartialEq, Eq, Structural, Debug)]
pub enum AnalysisError {
    /// Fewer price points than the long moving-average window needs.
    InsufficientData,
}

/// The signal `analyze` assigns at index `i` of a price series: the
/// crossover classification of the 50- and 200-day moving averages, gated
/// by the 14-period RSI, first evaluated at index 200.
pub open spec fn analyze_signal_at(prices: Seq<u64>, i: int) -> Signal {
    if i < LONG_WINDOW || i >= prices.len() {
        Signal::Hold
    } else if ma_at(prices, SHORT_WINDOW as int, i) > ma_at(prices, LONG_WINDOW as int, i)
        && ma_at(prices, SHORT_WINDOW as int, i - 1) <= ma_at(prices, LONG_WINDOW as int, i - 1)
        && spec_not_overbought(
        avg_gain_at(prices, RSI_PERIOD as int, i),
        avg_loss_at(prices, RSI_PERIOD as int, i),
    ) {
        Signal::Buy
    } else if ma_at(prices, SHORT_WINDOW as int, i) < ma_at(prices, LONG_WINDOW as int, i)
        && ma_at(prices, SHORT_WINDOW as int, i - 1) >= ma_at(prices, LONG_WINDOW as int, i - 1)
        && spec_not_oversold(
        avg_gain_at(prices, RSI_PERIOD as int, i),
        avg_loss_at(prices, RSI_PERIOD as int, i),
    ) {
        Signal::Sell
    } else {
        Signal::Hold
    }
}

/// Runs the whole analysis pass over a price series: the 50- and 200-day
/// moving averages, the 14-period RSI, and the crossover classification.
///
/// Succeeds exactly on series of at least 200 points; a shorter series is
/// reported as `InsufficientData` and nothing is computed.
pub fn analyze(prices: &Vec<u64>) -> (r: Result<Vec<Signal>, AnalysisError>)
    ensures
        r is Ok <==> prices@.len() >= LONG_WINDOW,
        r matches Err(e) ==> e == AnalysisError::InsufficientData,
        r matches Ok(signals) ==> signals@.len() == prices@.len() && forall|i: int|
            0 <= i < signals@.len() ==> signals@[i] == analyze_signal_at(prices@, i),
{
    if prices.len() < LONG_WINDOW {
        return Err(AnalysisError::InsufficientData);
    }
    let ma_short = moving_average(prices, SHORT_WINDOW);
    let ma_long = moving_average(prices, LONG_WINDOW);
    let rsi = calculate_rsi(prices, RSI_PERIOD);
    let signals = generate_signals(&ma_short, &ma_long, &rsi, LONG_WINDOW);
    proof {
        assert forall|i: int| 0 <= i < signals@.len() implies signals@[i] == analyze_signal_at(
            prices@,
            i,
        ) by {
            assert(signals@[i] == signal_at(ma_short@, ma_long@, rsi@, LONG_WINDOW as int, i));
            if i >= LONG_WINDOW {
                assert(ma_short@[i] as int == ma_at(prices@, SHORT_WINDOW as int, i));
                assert(ma_long@[i] as int == ma_at(prices@, LONG_WINDOW as int, i));
                assert(ma_short@[i - 1] as int == ma_at(prices@, SHORT_WINDOW as int, i - 1));
                assert(ma_long@[i - 1] as int == ma_at(prices@, LONG_WINDOW as int, i - 1));
                assert(rsi@[i].avg_gain as int == avg_gain_at(prices@, RSI_PERIOD as int, i));
                assert(rsi@[i].avg_loss as int == avg_loss_at(prices@, RSI_PERIOD as int, i));
            }
        }
    }
    Ok(signals)
}

} // verus!
