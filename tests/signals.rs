#![allow(non_snake_case)]
use quote_pipeline::signals::{
    MaxPrice, Mean, MinPrice, PriceDifference, Ratio, WindowedSMA, PRICE_SCALE,
};

fn prices(values: &[f64]) -> Vec<u64> {
    values.iter().map(|v| (v * PRICE_SCALE as f64).round() as u64).collect()
}

fn units(v: f64) -> u64 {
    (v * PRICE_SCALE as f64).round() as u64
}

fn ratio_value(r: &Ratio) -> f64 {
    r.num as f64 / r.den as f64
}

fn mean_value(m: &Mean) -> f64 {
    m.sum as f64 / m.count as f64 / PRICE_SCALE as f64
}

fn difference(values: &[f64]) -> Option<(f64, f64)> {
    PriceDifference {}
        .calculate(&prices(values))
        .map(|(abs, rel)| (abs as f64 / PRICE_SCALE as f64, ratio_value(&rel)))
}

#[test]
fn test_PriceDifference_calculate() {
    assert_eq!(difference(&[]), None);
    assert_eq!(difference(&[1.0]), Some((0.0, 0.0)));
    assert_eq!(difference(&[1.0, 0.0]), Some((-1.0, -1.0)));
    assert_eq!(difference(&[2.0, 3.0, 5.0, 6.0, 1.0, 2.0, 10.0]), Some((8.0, 4.0)));
    assert_eq!(difference(&[0.0, 3.0, 5.0, 6.0, 1.0, 2.0, 1.0]), Some((1.0, 1.0)));
}

#[test]
fn test_MinPrice_calculate() {
    let signal = MinPrice {};
    assert_eq!(signal.calculate(&prices(&[])), None);
    assert_eq!(signal.calculate(&prices(&[1.0])), Some(units(1.0)));
    assert_eq!(signal.calculate(&prices(&[1.0, 0.0])), Some(units(0.0)));
    assert_eq!(
        signal.calculate(&prices(&[2.0, 3.0, 5.0, 6.0, 1.0, 2.0, 10.0])),
        Some(units(1.0))
    );
    assert_eq!(
        signal.calculate(&prices(&[0.0, 3.0, 5.0, 6.0, 1.0, 2.0, 1.0])),
        Some(units(0.0))
    );
}

#[test]
fn test_MaxPrice_calculate() {
    let signal = MaxPrice {};
    assert_eq!(signal.calculate(&prices(&[])), None);
    assert_eq!(signal.calculate(&prices(&[1.0])), Some(units(1.0)));
    assert_eq!(signal.calculate(&prices(&[1.0, 0.0])), Some(units(1.0)));
    assert_eq!(
        signal.calculate(&prices(&[2.0, 3.0, 5.0, 6.0, 1.0, 2.0, 10.0])),
        Some(units(10.0))
    );
    assert_eq!(
        signal.calculate(&prices(&[0.0, 3.0, 5.0, 6.0, 1.0, 2.0, 1.0])),
        Some(units(6.0))
    );
}

#[test]
fn test_WindowedSMA_calculate() {
    let series = prices(&[2.0, 4.5, 5.3, 6.5, 4.7]);

    let signal = WindowedSMA { window_size: 3 };
    let sma = signal.calculate(&series).unwrap();
    assert_eq!(
        sma,
        vec![
            Mean { sum: 11_800_000, count: 3 },
            Mean { sum: 16_300_000, count: 3 },
            Mean { sum: 16_500_000, count: 3 },
        ]
    );
    let expected = [3.9333333333333336, 5.433333333333334, 5.5];
    for (m, e) in sma.iter().zip(expected.iter()) {
        assert!((mean_value(m) - e).abs() < 1e-12);
    }

    let signal = WindowedSMA { window_size: 5 };
    let sma = signal.calculate(&series).unwrap();
    assert_eq!(sma, vec![Mean { sum: 23_000_000, count: 5 }]);
    assert!((mean_value(&sma[0]) - 4.6).abs() < 1e-12);

    let signal = WindowedSMA { window_size: 10 };
    assert_eq!(signal.calculate(&series), Some(vec![]));
}

#[test]
fn sma_rejects_short_windows_and_empty_series() {
    let series = prices(&[2.0, 4.5, 5.3]);
    assert_eq!(WindowedSMA { window_size: 1 }.calculate(&series), None);
    assert_eq!(WindowedSMA { window_size: 0 }.calculate(&series), None);
    assert_eq!(WindowedSMA { window_size: 3 }.calculate(&[]), None);
}

#[test]
fn sma_has_one_mean_per_full_window() {
    let series: Vec<u64> = (1..=10).collect();
    let sma = WindowedSMA { window_size: 4 }.calculate(&series).unwrap();
    assert_eq!(sma.len(), 10 - 4 + 1);
    for (i, m) in sma.iter().enumerate() {
        let window: u64 = series[i..i + 4].iter().sum();
        assert_eq!(*m, Mean { sum: window as u128, count: 4 });
    }
}

#[test]
fn sma_handles_the_largest_prices() {
    let series = vec![u64::MAX; 4];
    let sma = WindowedSMA { window_size: 3 }.calculate(&series).unwrap();
    assert_eq!(sma, vec![Mean { sum: 3 * u64::MAX as u128, count: 3 }; 2]);
}

#[test]
fn min_and_max_bound_every_price() {
    let series = vec![7, 3, 9, 3, 12, 0, 5];
    let lo = MinPrice {}.calculate(&series).unwrap();
    let hi = MaxPrice {}.calculate(&series).unwrap();
    assert_eq!((lo, hi), (0, 12));
    assert!(series.iter().all(|p| lo <= *p && *p <= hi));
}

#[test]
fn relative_change_uses_one_unit_for_a_zero_start() {
    let (abs, rel) = PriceDifference {}.calculate(&[0, 2 * PRICE_SCALE]).unwrap();
    assert_eq!(abs, 2 * PRICE_SCALE as i128);
    assert_eq!(rel, Ratio { num: 2 * PRICE_SCALE as i128, den: PRICE_SCALE });
    let (abs, rel) = PriceDifference {}.calculate(&[400, 100]).unwrap();
    assert_eq!(abs, -300);
    assert_eq!(rel, Ratio { num: -300, den: 400 });
}
