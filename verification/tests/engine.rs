use ta_signals::indicators::{calculate_rsi, moving_average, rsi_value, RsiPoint};
use ta_signals::signals::{analyze, generate_signals, AnalysisError, Signal};

fn naive_moving_average(prices: &[u64], window: usize) -> Vec<u64> {
    let n: usize = prices.len();
    let mut out: Vec<u64> = vec![0u64; n];
    for i in 0..n {
        if i >= window {
            let mut sum: u64 = 0;
            for j in (i - window)..i {
                sum += prices[j];
            }
            out[i] = sum / window as u64;
        }
    }
    out
}

fn naive_rsi(prices: &[u64], period: usize) -> Vec<(u64, u64)> {
    let n: usize = prices.len();
    let mut out: Vec<(u64, u64)> = vec![(0u64, 0u64); n];
    let mut gain: u64 = 0;
    let mut loss: u64 = 0;
    for j in 1..=period {
        if prices[j] > prices[j - 1] {
            gain += prices[j] - prices[j - 1];
        } else {
            loss += prices[j - 1] - prices[j];
        }
    }
    let p: u64 = period as u64;
    let mut avg_gain: u64 = gain / p;
    let mut avg_loss: u64 = loss / p;
    out[period] = (avg_gain, avg_loss);
    for i in (period + 1)..n {
        if prices[i] > prices[i - 1] {
            let c: u64 = prices[i] - prices[i - 1];
            avg_gain = (avg_gain * (p - 1) + c) / p;
            avg_loss = avg_loss * (p - 1) / p;
        } else {
            let c: u64 = prices[i - 1] - prices[i];
            avg_gain = avg_gain * (p - 1) / p;
            avg_loss = (avg_loss * (p - 1) + c) / p;
        }
        out[i] = (avg_gain, avg_loss);
    }
    out
}

fn naive_signals(
    ma_short: &[u64],
    ma_long: &[u64],
    rsi: &[(u64, u64)],
    start_index: usize,
) -> Vec<Signal> {
    let n: usize = ma_short.len();
    let mut out: Vec<Signal> = vec![Signal::Hold; n];
    for i in 0..n {
        if i < start_index || i < 1 {
            continue;
        }
        let (g, l) = rsi[i];
        if ma_short[i] > ma_long[i]
            && ma_short[i - 1] <= ma_long[i - 1]
            && 3u128 * (g as u128) < 7u128 * (l as u128)
        {
            out[i] = Signal::Buy;
        } else if ma_short[i] < ma_long[i]
            && ma_short[i - 1] >= ma_long[i - 1]
            && 7u128 * (g as u128) > 3u128 * (l as u128)
        {
            out[i] = Signal::Sell;
        }
    }
    out
}

fn point(g: u64, l: u64) -> RsiPoint {
    RsiPoint {
        avg_gain: g,
        avg_loss: l,
    }
}

#[test]
fn ma_known_sequence() {
    let prices: Vec<u64> = vec![1, 2, 3, 4, 5, 6, 7, 8, 9, 10];
    let ma = moving_average(&prices, 3);
    assert_eq!(ma.len(), 10);
    assert_eq!(&ma[0..3], &[0, 0, 0]);
    assert_eq!(ma[3], 2);
    assert_eq!(ma[9], 8);
    assert_eq!(ma, naive_moving_average(&prices, 3));
}

#[test]
fn ma_matches_naive_recomputation() {
    let prices: Vec<u64> = (0..60u64).map(|i| (i * 37 + 11) % 97).collect();
    for window in [1usize, 2, 7, 25, 59, 60] {
        assert_eq!(moving_average(&prices, window), naive_moving_average(&prices, window));
    }
}

#[test]
fn ma_window_longer_than_series() {
    let prices: Vec<u64> = vec![5, 6, 7, 8, 9];
    let ma = moving_average(&prices, 20);
    assert_eq!(ma, vec![0u64; 5]);
    let empty: Vec<u64> = Vec::new();
    assert_eq!(moving_average(&empty, 3), Vec::<u64>::new());
}

#[test]
fn rsi_strictly_rising_series() {
    let prices: Vec<u64> = (1..=10u64).collect();
    let out = calculate_rsi(&prices, 3);
    assert_eq!(out.len(), 10);
    for i in 0..3 {
        assert_eq!(out[i], point(0, 0));
    }
    for i in 3..10 {
        assert_eq!(out[i].avg_loss, 0);
        assert!(out[i].avg_gain >= 1);
        assert_eq!(rsi_value(&out[i]), Some(100));
    }
}

#[test]
fn rsi_mixed_series_exact_values() {
    let prices: Vec<u64> = vec![10, 20, 10, 20, 10];
    let out = calculate_rsi(&prices, 2);
    assert_eq!(out[0], point(0, 0));
    assert_eq!(out[1], point(0, 0));
    // seed over the first two changes: +10 and -10
    assert_eq!(out[2], point(5, 5));
    assert_eq!(rsi_value(&out[2]), Some(50));
    // +10: gain (5*1 + 10)/2 = 7, loss 5*1/2 = 2
    assert_eq!(out[3], point(7, 2));
    assert_eq!(rsi_value(&out[3]), Some(77));
    // -10: gain 7*1/2 = 3, loss (2*1 + 10)/2 = 6
    assert_eq!(out[4], point(3, 6));
    assert_eq!(rsi_value(&out[4]), Some(33));
    for i in 2..5 {
        let v = rsi_value(&out[i]).unwrap();
        assert!(v <= 100);
    }
}

#[test]
fn rsi_value_undefined_on_flat_state() {
    assert_eq!(rsi_value(&point(0, 0)), None);
    assert_eq!(rsi_value(&point(3, 0)), Some(100));
    assert_eq!(rsi_value(&point(0, 4)), Some(0));
}

#[test]
fn golden_cross_fires_buy() {
    let n: usize = 202;
    let ma_long: Vec<u64> = vec![100u64; n];
    let ma_short: Vec<u64> = (0..n).map(|i| if i < 200 { 90u64 } else { 110u64 }).collect();
    let rsi: Vec<RsiPoint> = vec![point(1, 1); n];
    let signals = generate_signals(&ma_short, &ma_long, &rsi, 200);
    assert_eq!(signals.len(), n);
    for i in 0..n {
        if i == 200 {
            assert_eq!(signals[i], Signal::Buy);
        } else {
            assert_eq!(signals[i], Signal::Hold);
        }
    }
}

#[test]
fn death_cross_fires_sell() {
    let n: usize = 202;
    let ma_long: Vec<u64> = vec![100u64; n];
    let ma_short: Vec<u64> = (0..n).map(|i| if i < 200 { 110u64 } else { 90u64 }).collect();
    let rsi: Vec<RsiPoint> = vec![point(1, 1); n];
    let signals = generate_signals(&ma_short, &ma_long, &rsi, 200);
    for i in 0..n {
        if i == 200 {
            assert_eq!(signals[i], Signal::Sell);
        } else {
            assert_eq!(signals[i], Signal::Hold);
        }
    }
}

#[test]
fn overbought_gate_suppresses_buy() {
    let n: usize = 202;
    let ma_long: Vec<u64> = vec![100u64; n];
    let ma_short: Vec<u64> = (0..n).map(|i| if i < 200 { 90u64 } else { 110u64 }).collect();
    // RSI value 100 * 4 / (4 + 1) = 80 at the crossover index
    let mut rsi: Vec<RsiPoint> = vec![point(1, 1); n];
    rsi[200] = point(4, 1);
    assert_eq!(rsi_value(&rsi[200]), Some(80));
    let signals = generate_signals(&ma_short, &ma_long, &rsi, 200);
    for i in 0..n {
        assert_eq!(signals[i], Signal::Hold);
    }
}

#[test]
fn oversold_gate_suppresses_sell() {
    let n: usize = 202;
    let ma_long: Vec<u64> = vec![100u64; n];
    let ma_short: Vec<u64> = (0..n).map(|i| if i < 200 { 110u64 } else { 90u64 }).collect();
    // RSI value 100 * 1 / (1 + 4) = 20 at the crossover index
    let mut rsi: Vec<RsiPoint> = vec![point(1, 1); n];
    rsi[200] = point(1, 4);
    assert_eq!(rsi_value(&rsi[200]), Some(20));
    let signals = generate_signals(&ma_short, &ma_long, &rsi, 200);
    for i in 0..n {
        assert_eq!(signals[i], Signal::Hold);
    }
}

#[test]
fn overbought_boundary_not_strict() {
    // The Buy gate is strictly-below-70, so a crossover at an RSI of
    // exactly 70 is already overbought and stays Hold.
    let n: usize = 202;
    let ma_long: Vec<u64> = vec![100u64; n];
    let ma_short: Vec<u64> = (0..n).map(|i| if i < 200 { 90u64 } else { 110u64 }).collect();
    let mut rsi: Vec<RsiPoint> = vec![point(1, 1); n];
    rsi[200] = point(7, 3);
    assert_eq!(rsi_value(&rsi[200]), Some(70));
    let signals = generate_signals(&ma_short, &ma_long, &rsi, 200);
    assert_eq!(signals[200], Signal::Hold);
}

#[test]
fn zero_loss_rsi_passes_only_the_sell_gate() {
    // A pinned RSI of 100 (zero loss, positive gain) suppresses Buy but
    // lets a Sell through; a state with no value at all passes neither.
    let n: usize = 202;
    let ma_long: Vec<u64> = vec![100u64; n];
    let up: Vec<u64> = (0..n).map(|i| if i < 200 { 90u64 } else { 110u64 }).collect();
    let down: Vec<u64> = (0..n).map(|i| if i < 200 { 110u64 } else { 90u64 }).collect();

    let pinned: Vec<RsiPoint> = vec![point(5, 0); n];
    let buy = generate_signals(&up, &ma_long, &pinned, 200);
    assert_eq!(buy[200], Signal::Hold);
    let sell = generate_signals(&down, &ma_long, &pinned, 200);
    assert_eq!(sell[200], Signal::Sell);

    let undefined: Vec<RsiPoint> = vec![point(0, 0); n];
    let buy2 = generate_signals(&up, &ma_long, &undefined, 200);
    assert_eq!(buy2[200], Signal::Hold);
    let sell2 = generate_signals(&down, &ma_long, &undefined, 200);
    assert_eq!(sell2[200], Signal::Hold);
}

#[test]
fn idempotent_passes() {
    let prices: Vec<u64> = (0..300u64).map(|i| 100 + (i * 13) % 41).collect();
    assert_eq!(moving_average(&prices, 50), moving_average(&prices, 50));
    assert_eq!(calculate_rsi(&prices, 14), calculate_rsi(&prices, 14));
    let ms = moving_average(&prices, 50);
    let ml = moving_average(&prices, 200);
    let rs = calculate_rsi(&prices, 14);
    assert_eq!(
        generate_signals(&ms, &ml, &rs, 200),
        generate_signals(&ms, &ml, &rs, 200)
    );
    assert_eq!(analyze(&prices), analyze(&prices));
}

#[test]
fn boundary_series_of_exactly_window_length() {
    let prices: Vec<u64> = (0..200u64).map(|i| 100 + (i * 7) % 23).collect();
    let signals = analyze(&prices).unwrap();
    assert_eq!(signals.len(), 200);
    for i in 0..200 {
        if i != 199 {
            assert_eq!(signals[i], Signal::Hold);
        }
    }
}

#[test]
fn insufficient_data_below_window_length() {
    let prices: Vec<u64> = vec![100u64; 199];
    assert_eq!(analyze(&prices), Err(AnalysisError::InsufficientData));
    let empty: Vec<u64> = Vec::new();
    assert_eq!(analyze(&empty), Err(AnalysisError::InsufficientData));
}

#[test]
fn constant_series_holds_everywhere() {
    let prices: Vec<u64> = vec![100u64; 250];
    let signals = analyze(&prices).unwrap();
    for i in 0..250 {
        assert_eq!(signals[i], Signal::Hold);
    }
}

#[test]
fn analyze_matches_naive_pipeline() {
    // A long decline followed by a zigzag recovery (+2000, -1000, ...):
    // the short average crosses back above the long one while the RSI sits
    // near 65, low enough for the overbought gate to allow a Buy.
    let mut prices: Vec<u64> = Vec::new();
    let mut last: u64 = 100_000;
    for _ in 0..260usize {
        prices.push(last);
        last -= 50;
    }
    for i in 0..400usize {
        if i % 2 == 0 {
            last += 2000;
        } else {
            last -= 1000;
        }
        prices.push(last);
    }
    let signals = analyze(&prices).unwrap();

    let ms = naive_moving_average(&prices, 50);
    let ml = naive_moving_average(&prices, 200);
    let rs = naive_rsi(&prices, 14);
    let expected = naive_signals(&ms, &ml, &rs, 200);
    assert_eq!(signals, expected);

    let buys: usize = signals.iter().filter(|s| **s == Signal::Buy).count();
    assert!(buys >= 1);
}
