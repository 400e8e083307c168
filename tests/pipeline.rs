use quote_pipeline::aggregate::{sort_quotes, QuoteProcessor};
use quote_pipeline::common::{FileFormat, QuotePoint, QuoteRequest, Quotes};
use quote_pipeline::fetch::QuoteRequester;
use quote_pipeline::persist::{
    header_line, row_is_wf, row_line, DataPersistor, SinkAction, SinkState,
};
use quote_pipeline::schedule::QuoteMaker;
use quote_pipeline::signals::{Mean, Ratio, PRICE_SCALE};

const DAY: i64 = 86_400;

fn point(timestamp: u64, price: u64) -> QuotePoint {
    QuotePoint { timestamp, adjclose: price * PRICE_SCALE }
}

fn history(days: usize, quotes: Vec<QuotePoint>) -> Quotes {
    Quotes { days, symbol: "AAPL".to_string(), timestamp: 0, quotes }
}

fn row(price: u64, num: i128, den: u64, min: u64, max: u64, sma: Mean) -> FileFormat {
    FileFormat {
        symbol: "AAPL".to_string(),
        timestamp: 0,
        price,
        pct_change: Ratio { num, den },
        period_min: min,
        period_max: max,
        last_sma: sma,
    }
}

#[test]
fn two_quotes_give_a_ten_percent_change() {
    let q = history(4, vec![point(200, 110), point(100, 100)]);
    let r = QuoteProcessor {}.handle(q).unwrap();
    assert_eq!(r.symbol, "AAPL");
    assert_eq!(r.price, 110 * PRICE_SCALE);
    assert_eq!(r.period_min, 100 * PRICE_SCALE);
    assert_eq!(r.period_max, 110 * PRICE_SCALE);
    assert_eq!(r.pct_change.num as f64 / r.pct_change.den as f64, 0.10);
    assert_eq!(r.last_sma, Mean { sum: 210 * PRICE_SCALE as u128, count: 2 });
}

#[test]
fn empty_history_gives_no_row() {
    assert!(QuoteProcessor {}.handle(history(10, vec![])).is_none());
}

#[test]
fn short_window_gives_no_row() {
    let quotes = vec![point(1, 1), point(2, 2), point(3, 3)];
    assert!(QuoteProcessor {}.handle(history(3, quotes.clone())).is_none());
    assert!(QuoteProcessor {}.handle(history(8, quotes.clone())).is_none());
    assert!(QuoteProcessor {}.handle(history(6, quotes)).is_some());
}

#[test]
fn rows_use_the_last_window_of_the_time_ordered_prices() {
    let prices = [(5, 4.7), (1, 2.0), (3, 5.3), (2, 4.5), (4, 6.5)];
    let quotes = prices
        .iter()
        .map(|(t, p)| QuotePoint { timestamp: *t, adjclose: (p * PRICE_SCALE as f64).round() as u64 })
        .collect();
    let r = QuoteProcessor {}.handle(history(6, quotes)).unwrap();
    assert_eq!(r.last_sma, Mean { sum: 16_500_000, count: 3 });
    assert_eq!(r.price, 4_700_000);
    assert_eq!(r.pct_change, Ratio { num: 2_700_000, den: 2_000_000 });
}

#[test]
fn aggregation_is_repeatable() {
    let quotes = vec![point(3, 7), point(1, 9), point(2, 8), point(4, 6)];
    let a = QuoteProcessor {}.handle(history(4, quotes.clone())).unwrap();
    let b = QuoteProcessor {}.handle(history(4, sort_quotes(&quotes))).unwrap();
    assert_eq!(row_line(&a), row_line(&b));
}

#[test]
fn sorting_is_stable_for_equal_timestamps() {
    let quotes = vec![point(2, 1), point(1, 2), point(2, 3), point(1, 4)];
    let sorted = sort_quotes(&quotes);
    assert_eq!(sorted, vec![point(1, 2), point(1, 4), point(2, 1), point(2, 3)]);
}

#[test]
fn bounded_replay_emits_ceiling_many_ticks() {
    let mut s = QuoteMaker::new(vec!["A".to_string(), "B".to_string()], 0, Some(11 * DAY), 5);
    let mut ticks = 0;
    let mut last_end = 0;
    loop {
        let requests = s.tick();
        if requests.is_empty() {
            break;
        }
        assert_eq!(requests.len(), 2);
        assert_eq!(requests[0].symbol, "A");
        assert_eq!(requests[1].symbol, "B");
        assert_eq!(requests[0].to - requests[0].from, 5 * DAY);
        last_end = requests[0].to;
        ticks += 1;
    }
    assert_eq!(ticks, 3);
    assert!(last_end <= 11 * DAY + 5 * DAY);
    assert!(s.stopped);
}

#[test]
fn bounded_replay_passes_an_end_on_a_step_boundary() {
    let mut s = QuoteMaker::new(vec!["A".to_string()], 0, Some(10 * DAY), 5);
    let windows: Vec<(i64, i64)> = (0..5)
        .flat_map(|_| s.tick())
        .map(|r| (r.from, r.to))
        .collect();
    assert_eq!(windows, vec![(0, 5 * DAY), (5 * DAY, 10 * DAY), (10 * DAY, 15 * DAY)]);
}

#[test]
fn continuous_mode_advances_until_a_send_fails() {
    let mut s = QuoteMaker::new(vec!["A".to_string()], 100, None, 1);
    for k in 0..50 {
        let r = s.tick();
        assert_eq!(r.len(), 1);
        assert_eq!(r[0].from, 100 + k * DAY);
    }
    s.send_failed();
    assert!(s.tick().is_empty());
    assert_eq!(s.from, 100 + 50 * DAY);
}

#[test]
fn fetch_failure_forwards_an_empty_history() {
    let req = QuoteRequest { symbol: "MSFT".to_string(), from: 0, to: 10 * DAY + 5 };
    let q = QuoteRequester {}.handle(req.clone(), None);
    assert_eq!(q.days, 10);
    assert_eq!(q.symbol, "MSFT");
    assert_eq!(q.timestamp, 0);
    assert!(q.quotes.is_empty());
    let q = QuoteRequester {}.handle(req, Some(vec![point(1, 2)]));
    assert_eq!(q.quotes, vec![point(1, 2)]);
}

#[test]
fn header_names_the_average_window() {
    assert_eq!(header_line(5), "period start,symbol,price,change %,min,max,5d avg");
    assert_eq!(header_line(120), "period start,symbol,price,change %,min,max,120d avg");
}

#[test]
fn rows_render_with_two_decimals() {
    let r = row(
        110 * PRICE_SCALE,
        10 * PRICE_SCALE as i128,
        100 * PRICE_SCALE,
        100 * PRICE_SCALE,
        110 * PRICE_SCALE,
        Mean { sum: 210 * PRICE_SCALE as u128, count: 2 },
    );
    assert_eq!(
        row_line(&r),
        "1970-01-01T00:00:00+00:00,AAPL,$110.00,10.00%,$100.00,$110.00,$105.00"
    );
    let mut r = row(1_234_567, -1, 3, 5_000, 4_999, Mean { sum: 11_800_000, count: 3 });
    r.timestamp = 1_577_836_800;
    assert_eq!(
        row_line(&r),
        "2020-01-01T00:00:00+00:00,AAPL,$1.23,-33.33%,$0.01,$0.00,$3.93"
    );
    let r = row(0, -1, 1_000_000_000, 0, 0, Mean { sum: 0, count: 2 });
    assert_eq!(
        row_line(&r),
        "1970-01-01T00:00:00+00:00,AAPL,$0.00,0.00%,$0.00,$0.00,$0.00"
    );
}

fn sample_row() -> FileFormat {
    row(1, 0, 1, 1, 1, Mean { sum: 2, count: 2 })
}

#[test]
fn sink_flushes_on_every_cycle_of_writes() {
    let mut sink = DataPersistor::new("out.csv".to_string(), 4);
    assert!(matches!(sink.handle(&sample_row()), SinkAction::Ignore));
    assert_eq!(
        sink.started().unwrap(),
        "period start,symbol,price,change %,min,max,4d avg"
    );
    assert!(sink.started().is_none());
    let mut flushes = vec![];
    for k in 0..50 {
        match sink.handle(&sample_row()) {
            SinkAction::Write { line, flush } => {
                assert!(line.ends_with(",$0.00"));
                if flush {
                    flushes.push(k);
                }
            }
            SinkAction::Ignore => panic!("an open sink ignored a row"),
        }
    }
    assert_eq!(flushes, vec![0, 23, 46]);
}

#[test]
fn sink_flushes_once_and_rejects_rows_after_shutdown() {
    let mut sink = DataPersistor::new("out.csv".to_string(), 4);
    sink.started();
    assert!(matches!(sink.handle(&sample_row()), SinkAction::Write { .. }));
    assert!(sink.stopped());
    assert_eq!(sink.state, SinkState::Closed);
    assert!(!sink.stopped());
    assert!(matches!(sink.handle(&sample_row()), SinkAction::Ignore));
    assert!(sink.started().is_none());
    assert!(!sink.stopped());
}

#[test]
fn rendering_rounds_halves_away_from_zero() {
    let r = row(1_005_000, -1, 20_000, 1_004_999, 0, Mean { sum: 15_000, count: 3 });
    assert_eq!(
        row_line(&r),
        "1970-01-01T00:00:00+00:00,AAPL,$1.01,-0.01%,$1.00,$0.00,$0.01"
    );
}

#[test]
fn malformed_rows_are_recognised() {
    assert!(row_is_wf(&sample_row()));
    let mut r = sample_row();
    r.pct_change.den = 0;
    assert!(!row_is_wf(&r));
    let mut r = sample_row();
    r.last_sma.count = 0;
    assert!(!row_is_wf(&r));
    let mut r = sample_row();
    r.timestamp = i64::MAX;
    assert!(!row_is_wf(&r));
    let mut r = sample_row();
    r.pct_change.num = i128::MIN;
    assert!(!row_is_wf(&r));
}
