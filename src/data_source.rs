//! The feed's connection-scoped state: liveness, the subscription table, and
//! what to send or hand on for each inbound message.
use vstd::prelude::*;

use crate::text::{decimal, lemma_decimal_digits, write_decimal};
use crate::wire::{decode, gunzip_text, inbound_of, json_parses, DecodeError, Inbound, InboundView};

verus! {

/// The prices of one market tick, each in hundredths; a price the message
/// does not carry in a readable form is `None`.
#[derive(Debug, Clone, Copy, PartialEq, Eq, Structural)]
pub struct TickInner {
    pub amount: Option<u64>,
    pub close: Option<u64>,
    pub high: Option<u64>,
    pub low: Option<u64>,
    pub open: Option<u64>,
}

/// A market tick: the channel it came on, its time in milliseconds since the
/// epoch, and its prices. A field the message does not carry in a readable
/// form is `None`.
#[derive(Debug)]
pub struct Tick {
    pub ch: Option<String>,
    pub ts: Option<u64>,
    pub tick: TickInner,
}

pub struct TickView {
    pub ch: Option<Seq<char>>,
    pub ts: Option<u64>,
    pub tick: TickInner,
}

impl View for Tick {
    type V = TickView;

    open spec fn view(&self) -> TickView {
        TickView {
            ch: match self.ch {
                Some(c) => Some(c@),
                None => None,
            },
            ts: self.ts,
            tick: self.tick,
        }
    }
}

/// The status of a channel subscription.
#[derive(Debug, Clone, Copy, PartialEq, Eq, Structural)]
pub enum SubStatus {
    /// Registered, request not yet sent.
    Uninited,
    /// Request sent, not yet acknowledged.
    Requested,
    /// Acknowledged by the exchange.
    Subbed,
}

/// A tracked subscription: its request id, its topic and its status.
#[derive(Debug)]
pub struct StockChannel {
    pub id: String,
    pub ch: String,
    pub status: SubStatus,
}

pub struct ChannelView {
    pub id: Seq<char>,
    pub ch: Seq<char>,
    pub status: SubStatus,
}

impl View for StockChannel {
    type V = ChannelView;

    open spec fn view(&self) -> ChannelView {
        ChannelView { id: self.id@, ch: self.ch@, status: self.status }
    }
}

/// Whether the table tracks the topic.
pub open spec fn has_topic(table: Seq<ChannelView>, topic: Seq<char>) -> bool {
    exists|i: int| 0 <= i < table.len() && (#[trigger] table[i]).ch == topic
}

/// No two entries of the table share a topic.
pub open spec fn topics_unique(table: Seq<ChannelView>) -> bool {
    forall|i: int, j: int|
        0 <= i < table.len() && 0 <= j < table.len() && i != j ==> (#[trigger] table[i]).ch
            != (#[trigger] table[j]).ch
}

/// The status that an acknowledgment's status string stands for: `ok` is a
/// completed subscription, anything else leaves it to be made again.
pub open spec fn ack_status(status: Seq<char>) -> SubStatus {
    if status == "ok"@ {
        SubStatus::Subbed
    } else {
        SubStatus::Uninited
    }
}

/// The table after an acknowledgment of `topic` with `status`: the entry of
/// that topic takes the status, every other entry stays.
pub open spec fn acked(table: Seq<ChannelView>, topic: Seq<char>, status: Seq<char>) -> Seq<
    ChannelView,
> {
    Seq::new(
        table.len(),
        |i: int|
            if table[i].ch == topic {
                ChannelView { id: table[i].id, ch: table[i].ch, status: ack_status(status) }
            } else {
                table[i]
            },
    )
}

/// Whether two texts are the same.
fn same_text(a: &str, b: &str) -> (r: bool)
    ensures
        r == (a@ == b@),
{
    let n = a.unicode_len();
    if n != b.unicode_len() {
        return false;
    }
    let mut i: usize = 0;
    while i < n
        invariant
            n == a@.len() == b@.len(),
            0 <= i <= n,
            a@.take(i as int) == b@.take(i as int),
        decreases n - i,
    {
        if a.get_char(i) != b.get_char(i) {
            return false;
        }
        assert(a@.take(i + 1) =~= a@.take(i as int).push(a@[i as int]));
        assert(b@.take(i + 1) =~= b@.take(i as int).push(b@[i as int]));
        i = i + 1;
    }
    assert(a@ =~= a@.take(n as int));
    assert(b@ =~= b@.take(n as int));
    true
}

/// The status that an acknowledgment's status string stands for.
pub fn status_of_ack(status: &str) -> (r: SubStatus)
    ensures
        r == ack_status(status@),
{
    if same_text(status, "ok") {
        SubStatus::Subbed
    } else {
        SubStatus::Uninited
    }
}

/// The subscriptions of one connection, keyed by topic.
pub struct Context {
    ch: Vec<StockChannel>,
}

impl View for Context {
    type V = Seq<ChannelView>;

    closed spec fn view(&self) -> Seq<ChannelView> {
        self.ch@.map_values(|c: StockChannel| c@)
    }
}

impl Context {
    /// Each topic is tracked once.
    pub open spec fn wf(&self) -> bool {
        topics_unique(self@)
    }

    /// An empty table.
    pub fn new() -> (r: Context)
        ensures
            r@ == Seq::<ChannelView>::empty(),
            r.wf(),
    {
        let r = Context { ch: Vec::new() };
        assert(r@ =~= Seq::<ChannelView>::empty());
        r
    }

    /// The number of tracked topics.
    pub fn len(&self) -> (r: usize)
        ensures
            r == self@.len(),
    {
        self.ch.len()
    }

    /// The position of the topic in the table.
    fn position(&self, topic: &str) -> (r: Option<usize>)
        ensures
            match r {
                Some(i) => i < self@.len() && self@[i as int].ch == topic@,
                None => !has_topic(self@, topic@),
            },
    {
        let mut i: usize = 0;
        while i < self.ch.len()
            invariant
                0 <= i <= self@.len(),
                self@.len() == self.ch@.len(),
                forall|j: int| 0 <= j < i ==> (#[trigger] self@[j]).ch != topic@,
            decreases self.ch.len() - i,
        {
            if same_text(self.ch[i].ch.as_str(), topic) {
                return Some(i);
            }
            i = i + 1;
        }
        None
    }

    /// Whether the topic is tracked.
    pub fn is_pub(&self, ch: &str) -> (r: bool)
        ensures
            r == has_topic(self@, ch@),
    {
        self.position(ch).is_some()
    }

    /// The status of the topic's subscription, if the topic is tracked.
    pub fn status(&self, ch: &str) -> (r: Option<SubStatus>)
        ensures
            match r {
                Some(st) => exists|i: int|
                    0 <= i < self@.len() && (#[trigger] self@[i]).ch == ch@ && self@[i].status
                        == st,
                None => !has_topic(self@, ch@),
            },
    {
        match self.position(ch) {
            Some(i) => Some(self.ch[i].status),
            None => None,
        }
    }

    /// The request id of the topic's subscription, if the topic is tracked.
    pub fn id(&self, ch: &str) -> (r: Option<String>)
        ensures
            match r {
                Some(id) => exists|i: int|
                    0 <= i < self@.len() && (#[trigger] self@[i]).ch == ch@ && self@[i].id
                        == id@,
                None => !has_topic(self@, ch@),
            },
    {
        match self.position(ch) {
            Some(i) => Some(self.ch[i].id.clone()),
            None => None,
        }
    }

    /// Records an acknowledgment: the entry of `topic`, if any, takes the
    /// status that `status` stands for.
    pub fn acknowledge(&mut self, topic: &str, status: &str)
        requires
            old(self).wf(),
        ensures
            final(self).wf(),
            final(self)@ == acked(old(self)@, topic@, status@),
    {
        let st = status_of_ack(status);
        let ghost before = self@;
        let mut i: usize = 0;
        while i < self.ch.len()
            invariant
                0 <= i <= self@.len(),
                self@.len() == before.len() == self.ch@.len(),
                st == ack_status(status@),
                forall|j: int|
                    0 <= j < i ==> (#[trigger] self@[j]) == acked(before, topic@, status@)[j],
                forall|j: int| i <= j < self@.len() ==> (#[trigger] self@[j]) == before[j],
            decreases self.ch.len() - i,
        {
            let ghost prev = self@;
            if same_text(self.ch[i].ch.as_str(), topic) {
                self.ch[i].status = st;
                assert(self@ =~= prev.update(
                    i as int,
                    ChannelView { id: prev[i as int].id, ch: prev[i as int].ch, status: st },
                ));
            } else {
                assert(prev[i as int] == acked(before, topic@, status@)[i as int]);
            }
            i = i + 1;
        }
        assert(self@ =~= acked(before, topic@, status@));
    }
}

impl Context {
    /// Marks the entry at `i` as requested.
    fn mark_requested(&mut self, i: usize)
        requires
            old(self).wf(),
            i < old(self)@.len(),
        ensures
            final(self).wf(),
            final(self)@ == old(self)@.update(
                i as int,
                ChannelView {
                    id: old(self)@[i as int].id,
                    ch: old(self)@[i as int].ch,
                    status: SubStatus::Requested,
                },
            ),
    {
        let ghost prev = self@;
        self.ch[i].status = SubStatus::Requested;
        assert(self@ =~= prev.update(
            i as int,
            ChannelView { id: prev[i as int].id, ch: prev[i as int].ch, status: SubStatus::Requested },
        ));
    }
}

/// The one topic the feed subscribes to: the 1-minute kline of ETH/USDT.
pub const KLINE_TOPIC: &'static str = "market.ethusdt.kline.1min";

/// The wait before a new connection attempt, in milliseconds.
pub const RETRY_DELAY_MS: u64 = 2000;

/// How the feed retries a connection that could not be made.
#[derive(Debug, Clone, Copy, PartialEq, Eq, Structural)]
pub struct RetryPolicy {
    /// The wait before each new attempt, in milliseconds.
    pub delay_ms: u64,
    /// The number of failed attempts in a row after which the feed gives
    /// up; `None` retries for ever.
    pub max_attempts: Option<u64>,
}

impl RetryPolicy {
    /// Retries for ever, `RETRY_DELAY_MS` apart.
    pub fn fixed() -> (r: RetryPolicy)
        ensures
            r == (RetryPolicy { delay_ms: RETRY_DELAY_MS, max_attempts: None }),
    {
        RetryPolicy { delay_ms: RETRY_DELAY_MS, max_attempts: None }
    }
}

/// What to do after a connection attempt failed.
#[derive(Debug, Clone, Copy, PartialEq, Eq, Structural)]
pub enum Reconnect {
    /// Wait this many milliseconds, then try again.
    After(u64),
    /// Stop trying.
    GiveUp,
}

/// What the consumer of the feed receives.
#[derive(Debug)]
pub enum StockData {
    Tick(Tick),
}

/// What the connection does in answer to a message.
#[derive(Debug)]
pub enum Action {
    /// Send this pong reply as a text frame.
    Pong(String),
    /// Send this subscription request as a text frame.
    Subscribe(String),
    /// Hand this on to the consumer.
    Deliver(StockData),
}

pub enum ActionView {
    Pong(Seq<char>),
    Subscribe(Seq<char>),
    Deliver(TickView),
}

impl View for Action {
    type V = ActionView;

    open spec fn view(&self) -> ActionView {
        match self {
            Action::Pong(t) => ActionView::Pong(t@),
            Action::Subscribe(t) => ActionView::Subscribe(t@),
            Action::Deliver(StockData::Tick(t)) => ActionView::Deliver(t@),
        }
    }
}

pub open spec fn actions_view(a: Seq<Action>) -> Seq<ActionView> {
    a.map_values(|x: Action| x@)
}

/// The pong reply to a ping whose number serde_json writes as `number`:
/// `{"pong":<number>}`.
pub open spec fn pong_text(number: Seq<char>) -> Seq<char> {
    "{\"pong\":"@ + number + "}"@
}

/// Text that a JSON string holds as it is: no quote, backslash or control
/// character.
pub open spec fn plain_text(s: Seq<char>) -> bool {
    forall|i: int|
        0 <= i < s.len() ==> (#[trigger] s[i]) != '"' && s[i] != '\\' && (s[i] as u32) >= 32
}

/// Request ids hold letters and digits only.
pub proof fn lemma_id_plain(n: u64)
    ensures
        plain_text(id_text(n)),
{
    reveal_strlit("id");
    lemma_decimal_digits(n as nat);
    let d = decimal(n as nat);
    assert forall|i: int| 0 <= i < id_text(n).len() implies (#[trigger] id_text(n)[i]) != '"'
        && id_text(n)[i] != '\\' && (id_text(n)[i] as u32) >= 32 by {
        if i >= 2 {
            assert(id_text(n)[i] == d[i - 2]);
        }
    }
}

/// The id of the `n`th subscription request: `id<n>`.
pub open spec fn id_text(n: u64) -> Seq<char> {
    "id"@ + decimal(n as nat)
}

/// The subscription request: `{"sub":"<topic>","id":"<id>"}`.
pub open spec fn sub_text(topic: Seq<char>, id: Seq<char>) -> Seq<char> {
    "{\"sub\":\""@ + topic + "\",\"id\":\""@ + id + "\"}"@
}

/// The request counter after one step; it stops at its largest value.
pub open spec fn next_seq(n: u64) -> u64 {
    if n < u64::MAX {
        (n + 1) as u64
    } else {
        n
    }
}

/// Writes the pong reply to a ping, echoing its number.
pub fn pong_request(number: &str) -> (r: String)
    ensures
        r@ == pong_text(number@),
{
    let mut s = String::from_str("{\"pong\":");
    s.append(number);
    s.append("}");
    assert(s@ =~= pong_text(number@));
    s
}

/// Writes a subscription request for `topic` under request id `id`. Both are
/// written between quotes as they are, so neither may hold a quote, a
/// backslash or a control character.
pub fn sub_request(topic: &str, id: &str) -> (r: String)
    requires
        plain_text(topic@),
        plain_text(id@),
    ensures
        r@ == sub_text(topic@, id@),
{
    let mut s = String::from_str("{\"sub\":\"");
    s.append(topic);
    s.append("\",\"id\":\"");
    s.append(id);
    s.append("\"}");
    assert(s@ =~= sub_text(topic@, id@));
    s
}

/// The feed: its endpoint, the topic it subscribes to, the liveness of the
/// current connection, the request counter, and the retry policy with the
/// number of connection attempts that failed in a row.
pub struct DataSource {
    source: String,
    topic: String,
    pong_time: Option<u64>,
    id_seq: u64,
    policy: RetryPolicy,
    failures: u64,
}

pub struct DataSourceView {
    pub source: Seq<char>,
    pub topic: Seq<char>,
    /// The timestamp of the last ping answered on this connection.
    pub pong_time: Option<u64>,
    /// The last request number handed out.
    pub id_seq: u64,
    pub policy: RetryPolicy,
    /// Connection attempts that failed in a row.
    pub failures: u64,
}

impl View for DataSource {
    type V = DataSourceView;

    closed spec fn view(&self) -> DataSourceView {
        DataSourceView {
            source: self.source@,
            topic: self.topic@,
            pong_time: self.pong_time,
            id_seq: self.id_seq,
            policy: self.policy,
            failures: self.failures,
        }
    }
}

/// The state after the message's own branch of the dispatch rule, and what
/// it sends or hands on: a ping is answered and recorded; an acknowledgment
/// updates the table; a tick is handed on; anything else is ignored.
pub open spec fn answer(ds: DataSourceView, table: Seq<ChannelView>, msg: InboundView) -> (
    DataSourceView,
    Seq<ChannelView>,
    Seq<ActionView>,
) {
    match msg {
        InboundView::Ping { number, stamp } => (
            DataSourceView {
                pong_time: match stamp {
                    Some(n) => Some(n),
                    None => ds.pong_time,
                },
                ..ds
            },
            table,
            seq![ActionView::Pong(pong_text(number))],
        ),
        InboundView::Subbed { topic, status } => (ds, acked(table, topic, status), seq![]),
        InboundView::Tick(t) => (ds, table, seq![ActionView::Deliver(t)]),
        InboundView::Other => (ds, table, seq![]),
    }
}

/// The subscription trigger: once a ping has been answered and while the
/// topic is not tracked, the topic is registered under the next request id,
/// a request is sent, and the entry is marked requested.
pub open spec fn subscribe_step(ds: DataSourceView, table: Seq<ChannelView>) -> (
    DataSourceView,
    Seq<ChannelView>,
    Seq<ActionView>,
) {
    if ds.pong_time is Some && !has_topic(table, ds.topic) {
        let n = next_seq(ds.id_seq);
        (
            DataSourceView { id_seq: n, ..ds },
            table.push(ChannelView { id: id_text(n), ch: ds.topic, status: SubStatus::Requested }),
            seq![ActionView::Subscribe(sub_text(ds.topic, id_text(n)))],
        )
    } else {
        (ds, table, seq![])
    }
}

/// One message through the dispatch rule and then the subscription trigger.
pub open spec fn dispatch_spec(ds: DataSourceView, table: Seq<ChannelView>, msg: InboundView) -> (
    DataSourceView,
    Seq<ChannelView>,
    Seq<ActionView>,
) {
    let (ds1, table1, sent1) = answer(ds, table, msg);
    let (ds2, table2, sent2) = subscribe_step(ds1, table1);
    (ds2, table2, sent1 + sent2)
}

/// The feed's topic can be written into a request as it is.
pub proof fn lemma_kline_topic_plain()
    ensures
        plain_text(KLINE_TOPIC@),
{
    reveal_strlit("market.ethusdt.kline.1min");
    assert(KLINE_TOPIC@ == "market.ethusdt.kline.1min"@);
}

impl DataSource {
    /// The topic can be written into a request as it is.
    pub open spec fn wf(&self) -> bool {
        plain_text(self@.topic)
    }

    /// A feed on the endpoint `source` that subscribes to `KLINE_TOPIC` and
    /// retries for ever, `RETRY_DELAY_MS` apart.
    pub fn new(source: String) -> (r: DataSource)
        ensures
            r@ == (DataSourceView {
                source: source@,
                topic: KLINE_TOPIC@,
                pong_time: None,
                id_seq: 1,
                policy: RetryPolicy { delay_ms: RETRY_DELAY_MS, max_attempts: None },
                failures: 0,
            }),
            r.wf(),
    {
        DataSource::with_policy(source, RetryPolicy::fixed())
    }

    /// A feed on the endpoint `source` that subscribes to `KLINE_TOPIC` and
    /// retries as `policy` says.
    pub fn with_policy(source: String, policy: RetryPolicy) -> (r: DataSource)
        ensures
            r@ == (DataSourceView {
                source: source@,
                topic: KLINE_TOPIC@,
                pong_time: None,
                id_seq: 1,
                policy,
                failures: 0,
            }),
            r.wf(),
    {
        proof {
            lemma_kline_topic_plain();
        }
        DataSource {
            source,
            topic: String::from_str(KLINE_TOPIC),
            pong_time: None,
            id_seq: 1,
            policy,
            failures: 0,
        }
    }

    /// The endpoint.
    pub fn source(&self) -> (r: &str)
        ensures
            r@ == self@.source,
    {
        self.source.as_str()
    }

    /// The topic the feed subscribes to.
    pub fn topic(&self) -> (r: &str)
        ensures
            r@ == self@.topic,
    {
        self.topic.as_str()
    }

    /// The timestamp of the last ping answered on this connection.
    pub fn pong_time(&self) -> (r: Option<u64>)
        ensures
            r == self@.pong_time,
    {
        self.pong_time
    }

    /// Whether a ping has been answered on this connection.
    #[inline]
    pub fn is_pong(&self) -> (r: bool)
        ensures
            r == self@.pong_time is Some,
    {
        self.pong_time.is_some()
    }

    /// Advances the request counter and returns its new value.
    pub fn next_id_seq(&mut self) -> (r: u64)
        ensures
            r == next_seq(old(self)@.id_seq),
            final(self)@ == (DataSourceView { id_seq: r, ..old(self)@ }),
    {
        if self.id_seq < u64::MAX {
            self.id_seq = self.id_seq + 1;
        }
        self.id_seq
    }

    /// Registers `ch` in the table, unless it is there, under the id made
    /// from the next request number (which is taken either way); returns its
    /// position.
    pub fn register_ch(&mut self, ctx: &mut Context, ch: &str) -> (r: usize)
        requires
            old(ctx).wf(),
        ensures
            final(self)@ == (DataSourceView { id_seq: next_seq(old(self)@.id_seq), ..old(self)@ }),
            final(ctx).wf(),
            r < final(ctx)@.len(),
            final(ctx)@[r as int].ch == ch@,
            has_topic(old(ctx)@, ch@) ==> final(ctx)@ == old(ctx)@,
            !has_topic(old(ctx)@, ch@) ==> final(ctx)@ == old(ctx)@.push(
                ChannelView {
                    id: id_text(final(self)@.id_seq),
                    ch: ch@,
                    status: SubStatus::Uninited,
                },
            ),
    {
        let n = self.next_id_seq();
        match ctx.position(ch) {
            Some(i) => i,
            None => {
                let mut id = String::from_str("id");
                write_decimal(&mut id, n);
                let c = StockChannel { id, ch: String::from_str(ch), status: SubStatus::Uninited };
                let ghost prev = ctx@;
                let i = ctx.ch.len();
                ctx.ch.push(c);
                assert(ctx@ =~= prev.push(ChannelView { id: id_text(n), ch: ch@, status: SubStatus::Uninited }));
                i
            },
        }
    }

    /// Answers a ping: records its timestamp, where it has one, as this
    /// connection's liveness, and returns the pong reply echoing its number.
    pub fn process_ping(&mut self, number: &str, stamp: Option<u64>) -> (r: String)
        ensures
            r@ == pong_text(number@),
            final(self)@ == (DataSourceView {
                pong_time: match stamp {
                    Some(n) => Some(n),
                    None => old(self)@.pong_time,
                },
                ..old(self)@
            }),
    {
        if let Some(n) = stamp {
            self.pong_time = Some(n);
        }
        pong_request(number)
    }

    /// Records a subscription acknowledgment of `topic` with `status`.
    pub fn process_sub(&self, ctx: &mut Context, topic: &str, status: &str)
        requires
            old(ctx).wf(),
        ensures
            final(ctx).wf(),
            final(ctx)@ == acked(old(ctx)@, topic@, status@),
    {
        ctx.acknowledge(topic, status);
    }

    /// Hands a tick on to the consumer.
    pub fn process_tick(&self, tick: Tick) -> (r: Action)
        ensures
            r@ == ActionView::Deliver(tick@),
    {
        Action::Deliver(StockData::Tick(tick))
    }

    /// The subscription request for `topic` under request id `id`.
    pub fn sub(&self, topic: &str, id: &str) -> (r: String)
        requires
            plain_text(topic@),
            plain_text(id@),
        ensures
            r@ == sub_text(topic@, id@),
    {
        sub_request(topic, id)
    }
}

impl DataSource {
    /// Applies the dispatch rule to one message, then the subscription
    /// trigger; returns what to send and hand on, in order.
    pub fn dispatch(&mut self, ctx: &mut Context, msg: Inbound) -> (r: Vec<Action>)
        requires
            old(self).wf(),
            old(ctx).wf(),
        ensures
            final(self).wf(),
            final(ctx).wf(),
            (final(self)@, final(ctx)@, actions_view(r@)) == dispatch_spec(
                old(self)@,
                old(ctx)@,
                msg@,
            ),
    {
        let ghost msg_view = msg@;
        let mut out: Vec<Action> = Vec::new();
        match msg {
            Inbound::Ping { number, stamp } => {
                let pong = self.process_ping(number.as_str(), stamp);
                out.push(Action::Pong(pong));
            },
            Inbound::Subbed { topic, status } => {
                self.process_sub(ctx, topic.as_str(), status.as_str());
            },
            Inbound::Tick(t) => {
                let a = self.process_tick(t);
                out.push(a);
            },
            Inbound::Other => {},
        }
        let ghost (ds1, table1, sent1) = answer(old(self)@, old(ctx)@, msg_view);
        assert(actions_view(out@) =~= sent1);
        if self.is_pong() && !ctx.is_pub(self.topic.as_str()) {
            let topic = self.topic.clone();
            let i = self.register_ch(ctx, topic.as_str());
            proof {
                lemma_id_plain(self@.id_seq);
            }
            let req = sub_request(topic.as_str(), ctx.ch[i].id.as_str());
            ctx.mark_requested(i);
            out.push(Action::Subscribe(req));
        }
        let ghost (ds2, table2, sent2) = subscribe_step(ds1, table1);
        assert(ctx@ =~= table2);
        assert(actions_view(out@) =~= sent1 + sent2);
        out
    }
}

/// The feed after a failed connection attempt, and what to do next: wait the
/// policy's delay and try again, unless the policy's number of attempts has
/// been used up.
pub open spec fn failed_spec(ds: DataSourceView) -> (DataSourceView, Reconnect) {
    let failures = next_seq(ds.failures);
    (
        DataSourceView { failures, ..ds },
        match ds.policy.max_attempts {
            Some(m) => if failures >= m {
                Reconnect::GiveUp
            } else {
                Reconnect::After(ds.policy.delay_ms)
            },
            None => Reconnect::After(ds.policy.delay_ms),
        },
    )
}

/// The feed once a connection is made: no liveness yet, no failures.
pub open spec fn connected_spec(ds: DataSourceView) -> DataSourceView {
    DataSourceView { pong_time: None, failures: 0, ..ds }
}

impl DataSource {
    /// Handles one inbound frame: decodes it and applies `dispatch`. A frame
    /// that cannot be decoded ends the connection; it changes nothing.
    pub fn on_frame(&mut self, ctx: &mut Context, raw: &[u8]) -> (r: Result<Vec<Action>, DecodeError>)
        requires
            old(self).wf(),
            old(ctx).wf(),
        ensures
            final(self).wf(),
            final(ctx).wf(),
            match gunzip_text(raw@) {
                None => r == Err::<Vec<Action>, DecodeError>(DecodeError::Compression)
                    && final(self)@ == old(self)@ && final(ctx)@ == old(ctx)@,
                Some(t) => if json_parses(t) {
                    r matches Ok(a) && (final(self)@, final(ctx)@, actions_view(a@))
                        == dispatch_spec(old(self)@, old(ctx)@, inbound_of(t))
                } else {
                    r == Err::<Vec<Action>, DecodeError>(DecodeError::Malformed) && final(self)@
                        == old(self)@ && final(ctx)@ == old(ctx)@
                },
            },
    {
        match decode(raw) {
            Ok(m) => {
                let msg = m.classify();
                Ok(self.dispatch(ctx, msg))
            },
            Err(e) => Err(e),
        }
    }

    /// Records a failed connection attempt and says what to do next.
    pub fn connect_failed(&mut self) -> (r: Reconnect)
        ensures
            (final(self)@, r) == failed_spec(old(self)@),
    {
        if self.failures < u64::MAX {
            self.failures = self.failures + 1;
        }
        match self.policy.max_attempts {
            Some(m) => if self.failures >= m {
                Reconnect::GiveUp
            } else {
                Reconnect::After(self.policy.delay_ms)
            },
            None => Reconnect::After(self.policy.delay_ms),
        }
    }

    /// Starts a new connection: liveness and the failure count are reset,
    /// and the connection gets an empty subscription table.
    pub fn connected(&mut self) -> (r: Context)
        ensures
            final(self)@ == connected_spec(old(self)@),
            r@ == Seq::<ChannelView>::empty(),
            r.wf(),
    {
        self.pong_time = None;
        self.failures = 0;
        Context::new()
    }
}

/// The connection after a run of messages, and everything it sent or handed
/// on, in order.
pub open spec fn run_spec(ds: DataSourceView, table: Seq<ChannelView>, msgs: Seq<InboundView>) -> (
    DataSourceView,
    Seq<ChannelView>,
    Seq<ActionView>,
)
    decreases msgs.len(),
{
    if msgs.len() == 0 {
        (ds, table, seq![])
    } else {
        let (ds1, table1, sent1) = dispatch_spec(ds, table, msgs[0]);
        let (ds2, table2, sent2) = run_spec(ds1, table1, msgs.drop_first());
        (ds2, table2, sent1 + sent2)
    }
}

/// The number of subscription requests among the actions.
pub open spec fn subscribe_count(a: Seq<ActionView>) -> nat
    decreases a.len(),
{
    if a.len() == 0 {
        0
    } else {
        (if a[0] is Subscribe {
            1nat
        } else {
            0nat
        }) + subscribe_count(a.drop_first())
    }
}

/// Whether the message is a ping with a timestamp, which records liveness.
pub open spec fn is_live_ping(msg: InboundView) -> bool {
    match msg {
        InboundView::Ping { stamp, .. } => stamp is Some,
        _ => false,
    }
}

/// Whether a ping with a timestamp is among the messages.
pub open spec fn has_ping(msgs: Seq<InboundView>) -> bool {
    exists|i: int| 0 <= i < msgs.len() && is_live_ping(#[trigger] msgs[i])
}

/// Between messages, a connection that has answered a ping tracks its
/// topic.
pub open spec fn handshake_inv(ds: DataSourceView, table: Seq<ChannelView>) -> bool {
    ds.pong_time is Some ==> has_topic(table, ds.topic)
}

proof fn lemma_count_add(a: Seq<ActionView>, b: Seq<ActionView>)
    ensures
        subscribe_count(a + b) == subscribe_count(a) + subscribe_count(b),
    decreases a.len(),
{
    if a.len() == 0 {
        assert(a + b =~= b);
    } else {
        assert((a + b).drop_first() =~= a.drop_first() + b);
        lemma_count_add(a.drop_first(), b);
    }
}

proof fn lemma_acked_keeps_topics(table: Seq<ChannelView>, topic: Seq<char>, status: Seq<char>, t: Seq<char>)
    ensures
        has_topic(acked(table, topic, status), t) == has_topic(table, t),
{
    let r = acked(table, topic, status);
    if has_topic(table, t) {
        let i = choose|i: int| 0 <= i < table.len() && (#[trigger] table[i]).ch == t;
        assert(r[i].ch == t);
    }
    if has_topic(r, t) {
        let i = choose|i: int| 0 <= i < r.len() && (#[trigger] r[i]).ch == t;
        assert(table[i].ch == t);
    }
}

/// One message keeps the invariant, keeps the topic tracked once it is, and
/// sends one request exactly when the topic was not tracked and the message
/// is a ping.
proof fn lemma_dispatch_subscribes(ds: DataSourceView, table: Seq<ChannelView>, msg: InboundView)
    requires
        handshake_inv(ds, table),
    ensures
        ({
            let (ds1, table1, sent) = dispatch_spec(ds, table, msg);
            &&& handshake_inv(ds1, table1)
            &&& ds1.topic == ds.topic
            &&& has_topic(table, ds.topic) ==> has_topic(table1, ds.topic)
            &&& (!has_topic(table, ds.topic) && is_live_ping(msg)) ==> has_topic(table1, ds.topic)
            &&& (!has_topic(table, ds.topic) && !(is_live_ping(msg))) ==> !has_topic(table1, ds.topic)
                && ds1.pong_time is None
            &&& subscribe_count(sent) == if !has_topic(table, ds.topic) && is_live_ping(msg) {
                1nat
            } else {
                0nat
            }
        }),
{
    let (ds1, table1, sent1) = answer(ds, table, msg);
    let (ds2, table2, sent2) = subscribe_step(ds1, table1);
    if let InboundView::Subbed { topic, status } = msg {
        lemma_acked_keeps_topics(table, topic, status, ds.topic);
    }
    assert(has_topic(table1, ds.topic) == has_topic(table, ds.topic));
    if ds1.pong_time is Some && !has_topic(table1, ds1.topic) {
        let n = next_seq(ds1.id_seq);
        let entry = ChannelView { id: id_text(n), ch: ds1.topic, status: SubStatus::Requested };
        assert(table2[table1.len() as int] == entry);
    } else {
        assert(table2 == table1);
    }
    if has_topic(table, ds.topic) {
        let i = choose|i: int| 0 <= i < table1.len() && (#[trigger] table1[i]).ch == ds.topic;
        if ds1.pong_time is Some && !has_topic(table1, ds1.topic) {
        } else {
            assert(table2[i].ch == ds.topic);
        }
    }
    if !has_topic(table, ds.topic) && !(is_live_ping(msg)) {
        assert(ds1.pong_time == ds.pong_time);
    }
    lemma_count_add(sent1, sent2);
    assert(subscribe_count(sent1) == 0) by {
        if sent1.len() > 0 {
            assert(sent1.len() == 1);
            assert(sent1.drop_first() =~= Seq::<ActionView>::empty());
            assert(subscribe_count(sent1.drop_first()) == 0);
            assert(!(sent1[0] is Subscribe));
        }
    }
    if sent2.len() > 0 {
        assert(sent2.len() == 1);
        assert(sent2.drop_first() =~= Seq::<ActionView>::empty());
        assert(subscribe_count(sent2.drop_first()) == 0);
        assert(sent2[0] is Subscribe);
    }
}

/// On a connection that has answered a ping only with its topic tracked (a
/// fresh connection among them), a run of messages sends one subscription
/// request if the topic is not yet tracked and a ping with a timestamp
/// comes, and none otherwise: never twice.
pub proof fn lemma_subscribe_once_after_ping(
    ds: DataSourceView,
    table: Seq<ChannelView>,
    msgs: Seq<InboundView>,
)
    requires
        handshake_inv(ds, table),
    ensures
        subscribe_count(run_spec(ds, table, msgs).2) == if !has_topic(table, ds.topic) && has_ping(
            msgs,
        ) {
            1nat
        } else {
            0nat
        },
    decreases msgs.len(),
{
    if msgs.len() > 0 {
        let (ds1, table1, sent1) = dispatch_spec(ds, table, msgs[0]);
        lemma_dispatch_subscribes(ds, table, msgs[0]);
        lemma_subscribe_once_after_ping(ds1, table1, msgs.drop_first());
        let (ds2, table2, sent2) = run_spec(ds1, table1, msgs.drop_first());
        lemma_count_add(sent1, sent2);
        if has_ping(msgs.drop_first()) {
            let i = choose|i: int|
                0 <= i < msgs.drop_first().len() && is_live_ping(#[trigger] msgs.drop_first()[i]);
            assert(is_live_ping(msgs[i + 1]));
        }
        if has_ping(msgs) && !is_live_ping(msgs[0]) {
            let i = choose|i: int| 0 <= i < msgs.len() && is_live_ping(#[trigger] msgs[i]);
            assert(is_live_ping(msgs.drop_first()[i - 1]));
        }
    } else {
        assert(!has_ping(msgs));
    }
}

/// A run of messages is its first `k` messages followed by the rest.
pub proof fn lemma_run_split(
    ds: DataSourceView,
    table: Seq<ChannelView>,
    msgs: Seq<InboundView>,
    k: int,
)
    requires
        0 <= k <= msgs.len(),
    ensures
        ({
            let (ds1, table1, sent1) = run_spec(ds, table, msgs.take(k));
            let (ds2, table2, sent2) = run_spec(ds1, table1, msgs.skip(k));
            run_spec(ds, table, msgs) == (ds2, table2, sent1 + sent2)
        }),
    decreases k,
{
    if k == 0 {
        assert(msgs.skip(0) =~= msgs);
        assert(msgs.take(0) =~= Seq::<InboundView>::empty());
        let (ds2, table2, sent2) = run_spec(ds, table, msgs);
        assert(seq![] + sent2 =~= sent2);
    } else {
        let (ds0, table0, sent0) = dispatch_spec(ds, table, msgs[0]);
        let rest = msgs.drop_first();
        lemma_run_split(ds0, table0, rest, k - 1);
        assert(msgs.take(k).drop_first() =~= rest.take(k - 1));
        assert(msgs.take(k)[0] == msgs[0]);
        assert(msgs.skip(k) =~= rest.skip(k - 1));
        let (ds1, table1, sent1) = run_spec(ds0, table0, rest.take(k - 1));
        let (ds2, table2, sent2) = run_spec(ds1, table1, rest.skip(k - 1));
        assert(sent0 + (sent1 + sent2) =~= (sent0 + sent1) + sent2);
    }
}

/// Before the first ping with a timestamp, nothing that a connection in the
/// invariant sends is a subscription request: whatever arrives before it
/// (ticks, acknowledgments, anything else), the actions taken for those
/// messages hold no request.
pub proof fn lemma_no_subscribe_before_first_ping(
    ds: DataSourceView,
    table: Seq<ChannelView>,
    msgs: Seq<InboundView>,
    k: int,
)
    requires
        handshake_inv(ds, table),
        0 <= k <= msgs.len(),
        forall|i: int| 0 <= i < k ==> !is_live_ping(#[trigger] msgs[i]),
    ensures
        subscribe_count(run_spec(ds, table, msgs.take(k)).2) == 0,
{
    assert(!has_ping(msgs.take(k))) by {
        if has_ping(msgs.take(k)) {
            let i = choose|i: int| 0 <= i < msgs.take(k).len() && is_live_ping(
                #[trigger] msgs.take(k)[i],
            );
            assert(msgs.take(k)[i] == msgs[i]);
        }
    }
    lemma_subscribe_once_after_ping(ds, table, msgs.take(k));
}

/// On a connection that tracks no topic yet, a ping with a timestamp is
/// answered by its pong and, right after it, the subscription request.
pub proof fn lemma_first_ping_answer(ds: DataSourceView, table: Seq<ChannelView>, msg: InboundView)
    requires
        !has_topic(table, ds.topic),
        is_live_ping(msg),
    ensures
        dispatch_spec(ds, table, msg).2 == seq![
            ActionView::Pong(pong_text(msg->number)),
            ActionView::Subscribe(sub_text(ds.topic, id_text(next_seq(ds.id_seq)))),
        ],
{
    let (ds1, table1, sent1) = answer(ds, table, msg);
    let (ds2, table2, sent2) = subscribe_step(ds1, table1);
    assert(sent1 + sent2 =~= seq![
        ActionView::Pong(pong_text(msg->number)),
        ActionView::Subscribe(sub_text(ds.topic, id_text(next_seq(ds.id_seq)))),
    ]);
}

/// The number of ticks handed on among the actions.
pub open spec fn deliver_count(a: Seq<ActionView>) -> nat
    decreases a.len(),
{
    if a.len() == 0 {
        0
    } else {
        (if a[0] is Deliver {
            1nat
        } else {
            0nat
        }) + deliver_count(a.drop_first())
    }
}

/// The number of ticks among the messages.
pub open spec fn tick_count(msgs: Seq<InboundView>) -> nat
    decreases msgs.len(),
{
    if msgs.len() == 0 {
        0
    } else {
        (if msgs[0] is Tick {
            1nat
        } else {
            0nat
        }) + tick_count(msgs.drop_first())
    }
}

proof fn lemma_deliver_count_add(a: Seq<ActionView>, b: Seq<ActionView>)
    ensures
        deliver_count(a + b) == deliver_count(a) + deliver_count(b),
    decreases a.len(),
{
    if a.len() == 0 {
        assert(a + b =~= b);
    } else {
        assert((a + b).drop_first() =~= a.drop_first() + b);
        lemma_deliver_count_add(a.drop_first(), b);
    }
}

/// Every tick of a run of messages is handed on, before or after the
/// handshake alike, and nothing else is.
pub proof fn lemma_every_tick_handed_on(
    ds: DataSourceView,
    table: Seq<ChannelView>,
    msgs: Seq<InboundView>,
)
    ensures
        deliver_count(run_spec(ds, table, msgs).2) == tick_count(msgs),
    decreases msgs.len(),
{
    if msgs.len() > 0 {
        let (ds1, table1, sent1) = answer(ds, table, msgs[0]);
        let (ds2, table2, sent2) = subscribe_step(ds1, table1);
        let (ds3, table3, sent3) = run_spec(ds2, table2, msgs.drop_first());
        lemma_every_tick_handed_on(ds2, table2, msgs.drop_first());
        lemma_deliver_count_add(sent1, sent2);
        lemma_deliver_count_add(sent1 + sent2, sent3);
        if sent1.len() > 0 {
            assert(sent1.drop_first() =~= Seq::<ActionView>::empty());
            assert(deliver_count(sent1.drop_first()) == 0);
        }
        if sent2.len() > 0 {
            assert(sent2.drop_first() =~= Seq::<ActionView>::empty());
            assert(deliver_count(sent2.drop_first()) == 0);
        }
    }
}

/// A failed attempt followed by a successful one: with a policy that does
/// not give up, the feed waits the policy's delay once and tries again, and
/// the new connection starts with no liveness and no subscriptions.
pub proof fn lemma_reconnect_resets(ds: DataSourceView)
    requires
        ds.policy.max_attempts is None,
    ensures
        failed_spec(ds).1 == Reconnect::After(ds.policy.delay_ms),
        connected_spec(failed_spec(ds).0).pong_time is None,
        connected_spec(failed_spec(ds).0).failures == 0,
        handshake_inv(connected_spec(failed_spec(ds).0), Seq::<ChannelView>::empty()),
        !has_topic(Seq::<ChannelView>::empty(), ds.topic),
{
}

} // verus!
