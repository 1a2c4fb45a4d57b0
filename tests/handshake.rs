use std::io::Write;

use flate2::write::GzEncoder;
use flate2::Compression;

use market_feed::data_source::{
    Action, Context, DataSource, Reconnect, RetryPolicy, StockData, SubStatus, Tick, TickInner,
    KLINE_TOPIC,
};
use market_feed::wire::{DecodeError, Inbound};

fn gzip(text: &str) -> Vec<u8> {
    let mut enc = GzEncoder::new(Vec::new(), Compression::default());
    enc.write_all(text.as_bytes()).unwrap();
    enc.finish().unwrap()
}

fn sample_tick(close: u64) -> Tick {
    Tick {
        ch: Some(KLINE_TOPIC.to_string()),
        ts: Some(1_700_000_040_000),
        tick: TickInner {
            amount: Some(1),
            close: Some(close),
            high: Some(close),
            low: Some(close),
            open: Some(close),
        },
    }
}

fn ping(n: u64) -> Inbound {
    Inbound::Ping { number: n.to_string(), stamp: Some(n) }
}

fn texts(actions: &[Action]) -> Vec<String> {
    actions
        .iter()
        .map(|a| match a {
            Action::Pong(t) => format!("pong {}", t),
            Action::Subscribe(t) => format!("sub {}", t),
            Action::Deliver(StockData::Tick(t)) => format!("tick {:?}", t.tick.close),
        })
        .collect()
}

#[test]
fn new_data_source_starts_unset() {
    let ds = DataSource::new(String::from("wss://api.huobi.pro/ws"));
    assert_eq!(ds.source(), "wss://api.huobi.pro/ws");
    assert_eq!(ds.topic(), "market.ethusdt.kline.1min");
    assert!(!ds.is_pong());
    assert_eq!(ds.pong_time(), None);
}

#[test]
fn id_counter_starts_at_two() {
    let mut ds = DataSource::new(String::from("wss://x/ws"));
    assert_eq!(ds.next_id_seq(), 2);
    assert_eq!(ds.next_id_seq(), 3);
}

#[test]
fn register_ch_adds_once() {
    let mut ds = DataSource::new(String::from("wss://x/ws"));
    let mut ctx = Context::new();
    assert!(!ctx.is_pub("a"));
    assert_eq!(ds.register_ch(&mut ctx, "a"), 0);
    assert!(ctx.is_pub("a"));
    assert_eq!(ctx.id("a"), Some(String::from("id2")));
    assert_eq!(ctx.status("a"), Some(SubStatus::Uninited));
    assert_eq!(ds.register_ch(&mut ctx, "a"), 0);
    assert_eq!(ctx.len(), 1);
    assert_eq!(ctx.id("a"), Some(String::from("id2")));
    assert_eq!(ds.register_ch(&mut ctx, "b"), 1);
    assert_eq!(ctx.id("b"), Some(String::from("id4")));
}

#[test]
fn ping_42_is_answered_once_then_ping_7_updates_liveness() {
    let mut ds = DataSource::new(String::from("wss://x/ws"));
    let mut ctx = Context::new();
    let first = ds.dispatch(&mut ctx, ping(42));
    let pongs: Vec<&Action> = first.iter().filter(|a| matches!(a, Action::Pong(_))).collect();
    assert_eq!(pongs.len(), 1);
    match pongs[0] {
        Action::Pong(t) => assert_eq!(t, "{\"pong\":42}"),
        _ => unreachable!(),
    }
    assert_eq!(ds.pong_time(), Some(42));
    let second = ds.dispatch(&mut ctx, ping(7));
    assert_eq!(texts(&second), vec!["pong {\"pong\":7}".to_string()]);
    assert_eq!(ds.pong_time(), Some(7));
}

#[test]
fn subscribe_after_first_ping_only() {
    let mut ds = DataSource::new(String::from("wss://x/ws"));
    let mut ctx = Context::new();
    let a = ds.dispatch(&mut ctx, Inbound::Tick(sample_tick(100)));
    assert_eq!(texts(&a), vec!["tick Some(100)".to_string()]);
    let b = ds.dispatch(&mut ctx, Inbound::Other);
    assert!(b.is_empty());
    assert!(!ctx.is_pub(KLINE_TOPIC));
    let c = ds.dispatch(&mut ctx, ping(1));
    assert_eq!(
        texts(&c),
        vec![
            "pong {\"pong\":1}".to_string(),
            "sub {\"sub\":\"market.ethusdt.kline.1min\",\"id\":\"id2\"}".to_string()
        ]
    );
    assert_eq!(ctx.status(KLINE_TOPIC), Some(SubStatus::Requested));
    let d = ds.dispatch(&mut ctx, ping(2));
    assert_eq!(texts(&d), vec!["pong {\"pong\":2}".to_string()]);
    let e = ds.dispatch(&mut ctx, Inbound::Tick(sample_tick(101)));
    assert_eq!(texts(&e), vec!["tick Some(101)".to_string()]);
}

#[test]
fn acknowledgment_updates_status() {
    let mut ds = DataSource::new(String::from("wss://x/ws"));
    let mut ctx = Context::new();
    ds.dispatch(&mut ctx, ping(1));
    let r = ds.dispatch(
        &mut ctx,
        Inbound::Subbed { topic: String::from(KLINE_TOPIC), status: String::from("ok") },
    );
    assert!(r.is_empty());
    assert_eq!(ctx.status(KLINE_TOPIC), Some(SubStatus::Subbed));
    ds.dispatch(
        &mut ctx,
        Inbound::Subbed { topic: String::from("market.btcusdt.kline.1min"), status: String::from("ok") },
    );
    assert_eq!(ctx.len(), 1);
    ds.process_sub(&mut ctx, KLINE_TOPIC, "error");
    assert_eq!(ctx.status(KLINE_TOPIC), Some(SubStatus::Uninited));
}

#[test]
fn undecodable_frames_change_nothing() {
    let mut ds = DataSource::new(String::from("wss://x/ws"));
    let mut ctx = Context::new();
    ds.on_frame(&mut ctx, &gzip("{\"ping\":9}")).unwrap();
    assert_eq!(ds.pong_time(), Some(9));
    let r = ds.on_frame(&mut ctx, b"plain bytes");
    assert_eq!(r.err(), Some(DecodeError::Compression));
    let r = ds.on_frame(&mut ctx, &gzip("{not json"));
    assert_eq!(r.err(), Some(DecodeError::Malformed));
    assert_eq!(ds.pong_time(), Some(9));
    assert_eq!(ctx.len(), 1);
    assert_eq!(ctx.status(KLINE_TOPIC), Some(SubStatus::Requested));
}

#[test]
fn failure_then_success_retries_once_and_resets() {
    let mut ds = DataSource::new(String::from("wss://x/ws"));
    let mut stale = ds.connected();
    ds.on_frame(&mut stale, &gzip("{\"ping\":5}")).unwrap();
    assert!(stale.is_pub(KLINE_TOPIC));
    assert!(ds.is_pong());
    assert_eq!(ds.connect_failed(), Reconnect::After(2000));
    let mut fresh = ds.connected();
    assert!(!ds.is_pong());
    assert_eq!(fresh.len(), 0);
    assert!(!fresh.is_pub(KLINE_TOPIC));
    let a = ds.on_frame(&mut fresh, &gzip("{\"ping\":6}")).unwrap();
    assert_eq!(
        texts(&a),
        vec![
            "pong {\"pong\":6}".to_string(),
            "sub {\"sub\":\"market.ethusdt.kline.1min\",\"id\":\"id3\"}".to_string()
        ]
    );
}

#[test]
fn bounded_policy_gives_up() {
    let policy = RetryPolicy { delay_ms: 0, max_attempts: Some(2) };
    let mut ds = DataSource::with_policy(String::from("wss://x/ws"), policy);
    assert_eq!(ds.connect_failed(), Reconnect::After(0));
    assert_eq!(ds.connect_failed(), Reconnect::GiveUp);
    ds.connected();
    assert_eq!(ds.connect_failed(), Reconnect::After(0));
}

#[test]
fn fixed_policy_waits_two_seconds() {
    let p = RetryPolicy::fixed();
    assert_eq!(p.delay_ms, 2000);
    assert_eq!(p.max_attempts, None);
}

#[test]
fn ping_that_is_no_integer_is_echoed_without_liveness() {
    let mut ds = DataSource::new(String::from("wss://x/ws"));
    let mut ctx = ds.connected();
    let a = ds
        .on_frame(&mut ctx, &gzip("{\"ping\":1.5,\"ch\":\"c\",\"tick\":{\"close\":1}}"))
        .unwrap();
    assert_eq!(texts(&a), vec!["pong {\"pong\":1.5}".to_string()]);
    assert_eq!(ds.pong_time(), None);
    assert!(!ctx.is_pub(KLINE_TOPIC));
    let b = ds.on_frame(&mut ctx, &gzip("{\"ping\":12}")).unwrap();
    assert_eq!(
        texts(&b),
        vec![
            "pong {\"pong\":12}".to_string(),
            "sub {\"sub\":\"market.ethusdt.kline.1min\",\"id\":\"id2\"}".to_string()
        ]
    );
}

#[test]
fn sub_request_writes_topic_and_id() {
    let ds = DataSource::new(String::from("wss://x/ws"));
    assert_eq!(ds.sub("t.1", "id9"), "{\"sub\":\"t.1\",\"id\":\"id9\"}");
}
