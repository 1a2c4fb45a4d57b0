use std::io::Write;

use flate2::write::GzEncoder;
use flate2::Compression;

use market_feed::app::App;
use market_feed::data_source::{Action, Context, DataSource, StockData};
use market_feed::data_source::{Tick, TickInner};
use market_feed::stock::{minute_of, StockState, CLOCK_LIMIT_MS};

fn gzip(text: &str) -> Vec<u8> {
    let mut enc = GzEncoder::new(Vec::new(), Compression::default());
    enc.write_all(text.as_bytes()).unwrap();
    enc.finish().unwrap()
}

fn tick_frame(close: u64, ts: u64) -> Vec<u8> {
    gzip(&format!(
        "{{\"ch\":\"market.ethusdt.kline.1min\",\"ts\":{},\"tick\":{{\"id\":1,\"open\":{c},\"close\":{c},\"low\":{c},\"high\":{c},\"amount\":1.0,\"vol\":2.0,\"count\":3}}}}",
        ts,
        c = close
    ))
}

#[test]
fn same_minute_coalesces() {
    let mut s = StockState::new();
    for c in [100u64, 200, 300, 400] {
        s.add_tick_at(7, c);
    }
    assert_eq!(s.buckets(), &[(7, 400)]);
    s.add_tick_at(8, 500);
    s.add_tick_at(8, 600);
    assert_eq!(s.buckets(), &[(7, 400), (8, 600)]);
}

#[test]
fn window_keeps_sixty_buckets() {
    let mut s = StockState::new();
    for i in 0..200u64 {
        s.add_tick_at((i % 60) as u32, 10_000 + i);
    }
    let b = s.buckets();
    assert_eq!(b.len(), 60);
    assert_eq!(b[0], (20, 10_140));
    assert_eq!(b[59], (19, 10_199));
}

#[test]
fn bounds_follow_the_rule() {
    let mut s = StockState::new();
    s.calc_close(10_000);
    let (_, b) = s.snapshot();
    assert_eq!((b.y_min, b.y_max), (0, 12_000));
    assert_eq!(b.labels, vec!["0.00", "100.00", "120.00"]);
    s.calc_close(10_000);
    let (_, b) = s.snapshot();
    assert_eq!((b.y_min, b.y_max), (8_000, 12_000));
    s.calc_close(5_000);
    let (_, b) = s.snapshot();
    assert_eq!((b.y_min, b.y_max), (3_000, 12_000));
    assert_eq!(b.labels, vec!["30.00", "50.00", "120.00"]);
    s.calc_close(9_000);
    let (_, b) = s.snapshot();
    assert_eq!((b.y_min, b.y_max), (3_000, 12_000));
    assert_eq!(b.labels, vec!["30.00", "90.00", "120.00"]);
}

#[test]
fn small_close_sets_bottom_to_itself() {
    let mut s = StockState::new();
    s.calc_close(1_500);
    let (_, b) = s.snapshot();
    assert_eq!((b.y_min, b.y_max), (0, 3_500));
    s.calc_close(1_500);
    let (_, b) = s.snapshot();
    assert_eq!((b.y_min, b.y_max), (1_500, 3_500));
    assert_eq!(b.labels, vec!["15.00", "15.00", "35.00"]);
}

#[test]
fn top_never_falls_and_bottom_never_rises_once_set() {
    let mut s = StockState::new();
    let closes = [10_000u64, 9_000, 12_000, 3_000, 15_000, 100, 7_000, 50_000];
    let mut prev = (0u64, 0u64);
    for (i, c) in closes.iter().enumerate() {
        s.add_tick_at(i as u32, *c);
        let (_, b) = s.snapshot();
        assert!(b.y_max >= prev.1);
        assert!(b.y_min <= prev.0 || prev.0 == 0);
        prev = (b.y_min, b.y_max);
    }
}

#[test]
fn snapshot_indexes_closes() {
    let mut s = StockState::new();
    s.add_tick_at(1, 100);
    s.add_tick_at(2, 200);
    s.add_tick_at(2, 250);
    s.add_tick_at(3, 300);
    let (points, _) = s.snapshot();
    assert_eq!(points, vec![(0, 100), (1, 250), (2, 300)]);
}

#[test]
fn minute_of_epoch_times() {
    assert!(minute_of(1_700_000_040_000).unwrap() < 60);
    assert!(minute_of(0).unwrap() < 60);
    assert!(minute_of(CLOCK_LIMIT_MS).unwrap() < 60);
    assert_eq!(minute_of(u64::MAX), None);
    assert_eq!(minute_of(i64::MAX as u64 + 1), None);
}

#[test]
fn ping_then_three_ticks_end_to_end() {
    let t: u64 = 1_700_000_040_000;
    let mut ds = DataSource::new(String::from("wss://x/ws"));
    let mut ctx = ds.connected();
    let mut app = App::new();
    let frames = vec![
        gzip("{\"ping\":1}"),
        tick_frame(100, t),
        tick_frame(105, t + 30_000),
        tick_frame(110, t + 90_000),
    ];
    for f in frames {
        for a in ds.on_frame(&mut ctx, &f).unwrap() {
            if let Action::Deliver(StockData::Tick(tick)) = a {
                app.stock_state.add_tick(tick);
            }
        }
    }
    let m = minute_of(t).unwrap();
    let m2 = minute_of(t + 90_000).unwrap();
    assert_ne!(m, m2);
    assert_eq!(app.stock_state.buckets(), &[(m, 10_500), (m2, 11_000)]);
    let (_, b) = app.stock_state.snapshot();
    assert!(b.y_max >= 13_000);
}

#[test]
fn app_starts_empty() {
    let app = App::new();
    let (points, b) = app.stock_state.snapshot();
    assert!(points.is_empty());
    assert_eq!((b.y_min, b.y_max), (0, 0));
    assert!(b.labels.is_empty());
    let _ = Context::new();
}

#[test]
fn close_of_exactly_twenty_sets_bottom_to_zero() {
    let mut s = StockState::new();
    s.calc_close(10_000);
    s.calc_close(2_000);
    let (_, b) = s.snapshot();
    assert_eq!((b.y_min, b.y_max), (0, 12_000));
    assert_eq!(b.labels, vec!["0.00", "20.00", "120.00"]);
    s.calc_close(2_000);
    let (_, b) = s.snapshot();
    assert_eq!((b.y_min, b.y_max), (0, 12_000));
}

#[test]
fn top_is_held_at_the_largest_value() {
    let mut s = StockState::new();
    s.calc_close(u64::MAX - 5);
    let (_, b) = s.snapshot();
    assert_eq!(b.y_max, u64::MAX);
}

#[test]
fn tick_without_time_or_close_changes_nothing() {
    let mut s = StockState::new();
    let no_close = Tick {
        ch: None,
        ts: Some(1_700_000_040_000),
        tick: TickInner { amount: None, close: None, high: None, low: None, open: None },
    };
    s.add_tick(no_close);
    let no_time = Tick {
        ch: None,
        ts: None,
        tick: TickInner { amount: None, close: Some(5), high: None, low: None, open: None },
    };
    s.add_tick(no_time);
    let far = Tick {
        ch: None,
        ts: Some(u64::MAX),
        tick: TickInner { amount: None, close: Some(5), high: None, low: None, open: None },
    };
    s.add_tick(far);
    assert!(s.buckets().is_empty());
    let (_, b) = s.snapshot();
    assert!(b.labels.is_empty());
}
