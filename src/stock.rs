//! The rolling window of closing prices, one bucket per minute, with
//! display bounds that only widen.
use chrono::{Local, TimeZone, Timelike};

use vstd::prelude::*;

use crate::data_source::Tick;
use crate::price::{price_string, price_text};

verus! {

/// The number of minute buckets the window holds.
pub const WINDOW: usize = 60;

/// The margin kept between a close and the display bounds, in hundredths.
pub const BOUND_MARGIN: u64 = 2000;

/// The latest tick time, in milliseconds since the epoch, that the clock
/// can place: shortly before the year 255,000.
pub const CLOCK_LIMIT_MS: u64 = 8_000_000_000_000_000;

/// Relies on chrono's Local::timestamp_millis_opt and Timelike::minute: the
/// minute of the hour, 0 to 59, in the machine's time zone, of a time in
/// milliseconds since the epoch; `None` only where chrono cannot represent
/// the time, which is never the case from the epoch to `CLOCK_LIMIT_MS`.
#[verifier::external_body]
fn local_minute(ms: i64) -> (r: Option<u32>)
    ensures
        r matches Some(m) ==> m < 60,
        0 <= ms <= CLOCK_LIMIT_MS ==> r is Some,
{
    Local.timestamp_millis_opt(ms).single().map(|dt| dt.minute())
}

/// The minute of the hour, in the machine's time zone, of a tick time in
/// milliseconds since the epoch.
pub fn minute_of(ts: u64) -> (r: Option<u32>)
    ensures
        r matches Some(m) ==> m < 60,
        ts <= CLOCK_LIMIT_MS ==> r is Some,
        ts > i64::MAX ==> r is None,
{
    if ts > i64::MAX as u64 {
        None
    } else {
        local_minute(ts as i64)
    }
}

/// The top of the display for a close: `close + 20`, held at the largest
/// `u64`.
pub open spec fn top_for(close: u64) -> u64 {
    if close + BOUND_MARGIN > u64::MAX {
        u64::MAX
    } else {
        (close + BOUND_MARGIN) as u64
    }
}

/// The display bounds after a close: the top rises to `close + 20` when
/// that is above it; otherwise the bottom drops to `max(0, close - 20)`
/// when the close is more than 20 under it; otherwise a bottom still at
/// zero is set to `max(0, close - 20)`, or to the close itself where
/// `close - 20` would be negative.
pub open spec fn bounds_after(y_min: u64, y_max: u64, close: u64) -> (u64, u64) {
    if top_for(close) > y_max {
        (y_min, top_for(close))
    } else if close + BOUND_MARGIN < y_min {
        (if close >= BOUND_MARGIN { (close - BOUND_MARGIN) as u64 } else { 0 }, y_max)
    } else if y_min == 0 {
        (if close >= BOUND_MARGIN { (close - BOUND_MARGIN) as u64 } else { close }, y_max)
    } else {
        (y_min, y_max)
    }
}

/// The buckets after a close in a minute: the last bucket takes the close
/// when it is of the same minute, else a bucket is appended, and the oldest
/// is dropped when there are more than `WINDOW`.
pub open spec fn buckets_after(b: Seq<(u32, u64)>, minute: u32, close: u64) -> Seq<(u32, u64)> {
    let grown = if b.len() > 0 && b.last().0 == minute {
        b.update(b.len() - 1, (minute, close))
    } else {
        b.push((minute, close))
    };
    if grown.len() > WINDOW {
        grown.drop_first()
    } else {
        grown
    }
}

pub struct StockView {
    pub y_min: u64,
    pub y_max: u64,
    pub labels: Seq<Seq<char>>,
    pub buckets: Seq<(u32, u64)>,
}

/// The labels of the display: the bottom, the latest close, the top.
pub open spec fn labels_of(y_min: u64, close: u64, y_max: u64) -> Seq<Seq<char>> {
    seq![price_text(y_min as nat), price_text(close as nat), price_text(y_max as nat)]
}

/// The window after a close in a minute.
pub open spec fn tick_spec(s: StockView, minute: u32, close: u64) -> StockView {
    let (y_min, y_max) = bounds_after(s.y_min, s.y_max, close);
    StockView {
        y_min,
        y_max,
        labels: labels_of(y_min, close, y_max),
        buckets: buckets_after(s.buckets, minute, close),
    }
}

/// At most `WINDOW` buckets, and no two neighbours of the same minute.
pub open spec fn window_wf(b: Seq<(u32, u64)>) -> bool {
    &&& b.len() <= WINDOW
    &&& forall|i: int| 0 < i < b.len() ==> (#[trigger] b[i]).0 != b[i - 1].0
}

/// The rolling window: one bucket `(minute, close)` per minute seen, in
/// arrival order, and the display bounds and labels.
#[derive(Debug)]
pub struct StockState {
    y_bounds: (u64, u64),
    y_labels: Vec<String>,
    datas: Vec<(u32, u64)>,
}

impl View for StockState {
    type V = StockView;

    closed spec fn view(&self) -> StockView {
        StockView {
            y_min: self.y_bounds.0,
            y_max: self.y_bounds.1,
            labels: self.y_labels@.map_values(|l: String| l@),
            buckets: self.datas@,
        }
    }
}

/// The display range and its labels, as handed to a renderer.
#[derive(Debug)]
pub struct DisplayBounds {
    pub y_min: u64,
    pub y_max: u64,
    pub labels: Vec<String>,
}

/// The points of a window: each bucket's close under its position.
pub open spec fn points_of(b: Seq<(u32, u64)>) -> Seq<(usize, u64)> {
    Seq::new(b.len(), |i: int| (i as usize, b[i].1))
}

/// A copy of a list of texts.
fn copy_texts(v: &Vec<String>) -> (r: Vec<String>)
    ensures
        r@.map_values(|l: String| l@) == v@.map_values(|l: String| l@),
{
    let mut r: Vec<String> = Vec::new();
    let mut i: usize = 0;
    while i < v.len()
        invariant
            0 <= i <= v@.len(),
            r@.len() == i,
            forall|j: int| 0 <= j < i ==> (#[trigger] r@[j])@ == v@[j]@,
        decreases v.len() - i,
    {
        r.push(v[i].clone());
        i = i + 1;
    }
    assert(r@.map_values(|l: String| l@) =~= v@.map_values(|l: String| l@));
    r
}

impl StockState {
    /// The window holds at most `WINDOW` buckets, no two neighbours of the
    /// same minute.
    pub open spec fn wf(&self) -> bool {
        window_wf(self@.buckets)
    }

    /// An empty window with both bounds at zero and no labels.
    pub fn new() -> (r: StockState)
        ensures
            r@.y_min == 0,
            r@.y_max == 0,
            r@.labels == Seq::<Seq<char>>::empty(),
            r@.buckets == Seq::<(u32, u64)>::empty(),
            r.wf(),
    {
        let r = StockState { y_bounds: (0, 0), y_labels: Vec::new(), datas: Vec::new() };
        assert(r@.labels =~= Seq::<Seq<char>>::empty());
        r
    }

    /// Widens the display bounds for a close and sets the labels to the
    /// bottom, the close and the top.
    pub fn calc_close(&mut self, close: u64)
        ensures
            (final(self)@.y_min, final(self)@.y_max) == bounds_after(
                old(self)@.y_min,
                old(self)@.y_max,
                close,
            ),
            final(self)@.labels == labels_of(final(self)@.y_min, close, final(self)@.y_max),
            final(self)@.buckets == old(self)@.buckets,
    {
        let (y_min, y_max) = self.y_bounds;
        let top = if close > u64::MAX - BOUND_MARGIN {
            u64::MAX
        } else {
            close + BOUND_MARGIN
        };
        if top > y_max {
            self.y_bounds.1 = top;
        } else if y_min > BOUND_MARGIN && close < y_min - BOUND_MARGIN {
            self.y_bounds.0 = if close >= BOUND_MARGIN {
                close - BOUND_MARGIN
            } else {
                0
            };
        } else if y_min == 0 {
            self.y_bounds.0 = if close >= BOUND_MARGIN {
                close - BOUND_MARGIN
            } else {
                close
            };
        }
        let mut labels: Vec<String> = Vec::new();
        labels.push(price_string(self.y_bounds.0));
        labels.push(price_string(close));
        labels.push(price_string(self.y_bounds.1));
        self.y_labels = labels;
        assert(self@.labels =~= labels_of(self.y_bounds.0, close, self.y_bounds.1));
    }

    /// Takes the close of a tick in the given minute of the hour: widens
    /// the bounds, then updates the last bucket when it is of the same
    /// minute or appends one, dropping the oldest beyond `WINDOW`.
    pub fn add_tick_at(&mut self, minute: u32, close: u64)
        requires
            old(self).wf(),
        ensures
            final(self).wf(),
            final(self)@ == tick_spec(old(self)@, minute, close),
    {
        self.calc_close(close);
        let n = self.datas.len();
        if n > 0 && self.datas[n - 1].0 == minute {
            self.datas.set(n - 1, (minute, close));
        } else {
            self.datas.push((minute, close));
        }
        if self.datas.len() > WINDOW {
            self.datas.remove(0);
        }
        assert(self@.buckets =~= buckets_after(old(self)@.buckets, minute, close));
        assert(self@.labels =~= tick_spec(old(self)@, minute, close).labels);
    }

    /// Takes a tick: its minute of the hour in the machine's time zone
    /// decides its bucket, as in `add_tick_at`. A tick without a readable
    /// time or close, or with a time the clock cannot place (any time after
    /// `i64::MAX` milliseconds), changes nothing.
    pub fn add_tick(&mut self, tick: Tick)
        requires
            old(self).wf(),
        ensures
            final(self).wf(),
            match (tick.ts, tick.tick.close) {
                (Some(ts), Some(close)) => {
                    &&& ts <= CLOCK_LIMIT_MS ==> exists|m: u32|
                        m < 60 && final(self)@ == tick_spec(old(self)@, m, close)
                    &&& ts > i64::MAX ==> final(self)@ == old(self)@
                    &&& final(self)@ == old(self)@ || exists|m: u32|
                        m < 60 && final(self)@ == tick_spec(old(self)@, m, close)
                },
                _ => final(self)@ == old(self)@,
            },
    {
        match (tick.ts, tick.tick.close) {
            (Some(ts), Some(close)) => match minute_of(ts) {
                Some(m) => self.add_tick_at(m, close),
                None => {},
            },
            _ => {},
        }
    }

    /// The buckets, oldest first.
    pub fn buckets(&self) -> (r: &[(u32, u64)])
        ensures
            r@ == self@.buckets,
    {
        self.datas.as_slice()
    }

    /// The window as points to plot, `(0, close0), (1, close1), ...`, and
    /// the display bounds.
    pub fn snapshot(&self) -> (r: (Vec<(usize, u64)>, DisplayBounds))
        ensures
            r.0@ == points_of(self@.buckets),
            r.1.y_min == self@.y_min,
            r.1.y_max == self@.y_max,
            r.1.labels@.map_values(|l: String| l@) == self@.labels,
    {
        let mut points: Vec<(usize, u64)> = Vec::new();
        let mut i: usize = 0;
        while i < self.datas.len()
            invariant
                0 <= i <= self@.buckets.len(),
                self@.buckets == self.datas@,
                points@ == points_of(self@.buckets).take(i as int),
            decreases self.datas.len() - i,
        {
            points.push((i, self.datas[i].1));
            assert(points@ =~= points_of(self@.buckets).take(i + 1));
            i = i + 1;
        }
        assert(points@ =~= points_of(self@.buckets));
        let bounds = DisplayBounds {
            y_min: self.y_bounds.0,
            y_max: self.y_bounds.1,
            labels: copy_texts(&self.y_labels),
        };
        (points, bounds)
    }
}

/// The window after a run of ticks, each a `(minute, close)`, in order.
pub open spec fn ticks_spec(s: StockView, ticks: Seq<(u32, u64)>) -> StockView
    decreases ticks.len(),
{
    if ticks.len() == 0 {
        s
    } else {
        ticks_spec(tick_spec(s, ticks[0].0, ticks[0].1), ticks.drop_first())
    }
}

/// A tick keeps the window within `WINDOW` buckets with no two neighbours
/// of the same minute, and leaves its own minute in the last bucket.
pub proof fn lemma_tick_keeps_window(s: StockView, minute: u32, close: u64)
    requires
        window_wf(s.buckets),
    ensures
        window_wf(tick_spec(s, minute, close).buckets),
        tick_spec(s, minute, close).buckets.len() > 0,
        tick_spec(s, minute, close).buckets.last() == (minute, close),
{
    let b = s.buckets;
    let r = tick_spec(s, minute, close).buckets;
    if b.len() > 0 && b.last().0 == minute {
        assert(r =~= b.update(b.len() - 1, (minute, close)));
    } else {
        let grown = b.push((minute, close));
        if grown.len() > WINDOW {
            assert(r =~= grown.drop_first());
            assert forall|i: int| 0 < i < r.len() implies (#[trigger] r[i]).0 != r[i - 1].0 by {
                assert(r[i] == grown[i + 1] && r[i - 1] == grown[i]);
            }
        }
    }
}

/// However long the run of ticks, the window never holds more than
/// `WINDOW` buckets, and no two neighbouring buckets share a minute.
pub proof fn lemma_window_bounded(s: StockView, ticks: Seq<(u32, u64)>)
    requires
        window_wf(s.buckets),
    ensures
        window_wf(ticks_spec(s, ticks).buckets),
        ticks_spec(s, ticks).buckets.len() <= WINDOW,
    decreases ticks.len(),
{
    if ticks.len() > 0 {
        lemma_tick_keeps_window(s, ticks[0].0, ticks[0].1);
        lemma_window_bounded(tick_spec(s, ticks[0].0, ticks[0].1), ticks.drop_first());
    }
}

/// Ticks of the minute of the last bucket only replace its close.
proof fn lemma_same_minute_keeps_length(s: StockView, minute: u32, closes: Seq<u64>)
    requires
        window_wf(s.buckets),
        s.buckets.len() > 0,
        s.buckets.last().0 == minute,
    ensures
        ticks_spec(s, closes.map_values(|c: u64| (minute, c))).buckets.len() == s.buckets.len(),
    decreases closes.len(),
{
    let ticks = closes.map_values(|c: u64| (minute, c));
    if closes.len() > 0 {
        let next = tick_spec(s, minute, closes[0]);
        lemma_tick_keeps_window(s, minute, closes[0]);
        assert(ticks.drop_first() =~= closes.drop_first().map_values(|c: u64| (minute, c)));
        lemma_same_minute_keeps_length(next, minute, closes.drop_first());
    }
}

/// A run of ticks that all fall in one minute adds at most one bucket to
/// the window.
pub proof fn lemma_same_minute_adds_at_most_one(s: StockView, minute: u32, closes: Seq<u64>)
    requires
        window_wf(s.buckets),
    ensures
        ticks_spec(s, closes.map_values(|c: u64| (minute, c))).buckets.len() <= s.buckets.len()
            + 1,
{
    let ticks = closes.map_values(|c: u64| (minute, c));
    if closes.len() > 0 {
        let next = tick_spec(s, minute, closes[0]);
        lemma_tick_keeps_window(s, minute, closes[0]);
        assert(next.buckets.len() <= s.buckets.len() + 1);
        assert(ticks.drop_first() =~= closes.drop_first().map_values(|c: u64| (minute, c)));
        lemma_same_minute_keeps_length(next, minute, closes.drop_first());
    }
}

/// The display bounds only widen: the top never falls, and the bottom
/// never rises, except when it is still zero and is first set from a close.
pub proof fn lemma_bounds_widen(s: StockView, minute: u32, close: u64)
    ensures
        tick_spec(s, minute, close).y_max >= s.y_max,
        tick_spec(s, minute, close).y_min <= s.y_min || s.y_min == 0,
{
}

/// Over any run of ticks the top of the display never falls.
pub proof fn lemma_top_never_falls(s: StockView, ticks: Seq<(u32, u64)>)
    ensures
        ticks_spec(s, ticks).y_max >= s.y_max,
    decreases ticks.len(),
{
    if ticks.len() > 0 {
        lemma_top_never_falls(tick_spec(s, ticks[0].0, ticks[0].1), ticks.drop_first());
    }
}

} // verus!
