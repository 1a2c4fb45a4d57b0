//! Decoding of inbound frames: gzip-compressed JSON text, read into the
//! messages that the handshake and the tick consumer act on.
use std::io::Read;

use vstd::prelude::*;

use crate::data_source::{Tick, TickInner, TickView};
use crate::price::{parse_price, price_of};

verus! {

#[verifier::external_type_specification]
#[verifier::external_body]
pub struct ExValue(serde_json::Value);

/// The text that a gzip frame inflates to, or `None` when the bytes are no
/// gzip stream or the inflated bytes are no UTF-8 text.
pub uninterp spec fn gunzip_text(raw: Seq<u8>) -> Option<Seq<char>>;

/// Whether the text is one JSON document.
pub uninterp spec fn json_parses(text: Seq<char>) -> bool;

/// Whether the JSON document has a value at the JSON pointer.
pub uninterp spec fn json_has(text: Seq<char>, pointer: Seq<char>) -> bool;

/// The string at the JSON pointer of the document, if a string is there.
pub uninterp spec fn json_str_at(text: Seq<char>, pointer: Seq<char>) -> Option<Seq<char>>;

/// The integer at the JSON pointer of the document, if a number that fits
/// in `u64` is there.
pub uninterp spec fn json_u64_at(text: Seq<char>, pointer: Seq<char>) -> Option<u64>;

/// The text of the number at the JSON pointer of the document, as
/// serde_json writes it, if a number is there.
pub uninterp spec fn json_number_at(text: Seq<char>, pointer: Seq<char>) -> Option<Seq<char>>;

/// Relies on flate2::read::GzDecoder read through std::io::Read::read_to_string:
/// the inflated text, or an error for bytes that are no gzip stream or text
/// that is no UTF-8. The outcome depends on the bytes alone.
#[verifier::external_body]
fn gunzip(raw: &[u8]) -> (r: Option<String>)
    ensures
        match r {
            Some(t) => gunzip_text(raw@) == Some(t@),
            None => gunzip_text(raw@) is None,
        },
{
    let mut text = String::new();
    match flate2::read::GzDecoder::new(raw).read_to_string(&mut text) {
        Ok(_) => Some(text),
        Err(_) => None,
    }
}

/// Why a frame could not be read.
#[derive(Debug, Clone, Copy, PartialEq, Eq, Structural)]
pub enum DecodeError {
    /// The frame is no gzip stream of UTF-8 text.
    Compression,
    /// The inflated text is no JSON document.
    Malformed,
}

/// A JSON document and the text it was read from. `value` is always
/// serde_json's reading of `text`: `parse_json` is the only place that
/// builds one.
pub struct JsonMessage {
    text: String,
    value: serde_json::Value,
}

/// Relies on serde_json::from_str::<serde_json::Value>: a document for
/// exactly the texts that are one JSON document.
#[verifier::external_body]
fn parse_json(text: String) -> (r: Option<JsonMessage>)
    ensures
        r is Some <==> json_parses(text@),
        r matches Some(m) ==> m@ == text@,
{
    match serde_json::from_str::<serde_json::Value>(&text) {
        Ok(value) => Some(JsonMessage { text, value }),
        Err(_) => None,
    }
}

/// Inflates a frame and reads it as a JSON document. A frame that does not
/// inflate gives `Compression`; inflated text that is no JSON gives
/// `Malformed`.
pub fn decode(raw: &[u8]) -> (r: Result<JsonMessage, DecodeError>)
    ensures
        match gunzip_text(raw@) {
            None => r == Err::<JsonMessage, DecodeError>(DecodeError::Compression),
            Some(t) => if json_parses(t) {
                r matches Ok(m) && m@ == t
            } else {
                r == Err::<JsonMessage, DecodeError>(DecodeError::Malformed)
            },
        },
{
    match gunzip(raw) {
        None => Err(DecodeError::Compression),
        Some(text) => match parse_json(text) {
            Some(m) => Ok(m),
            None => Err(DecodeError::Malformed),
        },
    }
}

impl View for JsonMessage {
    type V = Seq<char>;

    /// The text the document was read from.
    closed spec fn view(&self) -> Seq<char> {
        self.text@
    }
}

impl JsonMessage {
    /// The text the document was read from.
    pub fn text(&self) -> (r: &str)
        ensures
            r@ == self@,
    {
        self.text.as_str()
    }

    /// Relies on serde_json::Value::pointer: whether a value is at the
    /// pointer.
    #[verifier::external_body]
    fn has(&self, pointer: &str) -> (r: bool)
        ensures
            r == json_has(self@, pointer@),
    {
        self.value.pointer(pointer).is_some()
    }

    /// Relies on serde_json::Value::pointer: the string at the pointer.
    #[verifier::external_body]
    fn str_at(&self, pointer: &str) -> (r: Option<String>)
        ensures
            match r {
                Some(v) => json_str_at(self@, pointer@) == Some(v@),
                None => json_str_at(self@, pointer@) is None,
            },
    {
        match self.value.pointer(pointer) {
            Some(serde_json::Value::String(v)) => Some(v.clone()),
            _ => None,
        }
    }

    /// Relies on serde_json::Value::pointer and Value::as_u64: the integer at
    /// the pointer.
    #[verifier::external_body]
    fn u64_at(&self, pointer: &str) -> (r: Option<u64>)
        ensures
            r == json_u64_at(self@, pointer@),
    {
        match self.value.pointer(pointer) {
            Some(v) => v.as_u64(),
            None => None,
        }
    }

    /// Relies on serde_json::Value::pointer and serde_json::Number's Display:
    /// the text of the number at the pointer.
    #[verifier::external_body]
    fn number_at(&self, pointer: &str) -> (r: Option<String>)
        ensures
            match r {
                Some(v) => json_number_at(self@, pointer@) == Some(v@),
                None => json_number_at(self@, pointer@) is None,
            },
    {
        match self.value.pointer(pointer) {
            Some(serde_json::Value::Number(n)) => Some(n.to_string()),
            _ => None,
        }
    }
}

/// An inbound message, by the top-level fields it carries.
#[derive(Debug)]
pub enum Inbound {
    /// A liveness probe: its number as serde_json writes it, and the number
    /// as a timestamp where it is an integer that fits in `u64`.
    Ping { number: String, stamp: Option<u64> },
    /// A subscription acknowledgment: the topic and its status.
    Subbed { topic: String, status: String },
    /// A market tick.
    Tick(Tick),
    /// Anything else.
    Other,
}

pub enum InboundView {
    Ping { number: Seq<char>, stamp: Option<u64> },
    Subbed { topic: Seq<char>, status: Seq<char> },
    Tick(TickView),
    Other,
}

impl View for Inbound {
    type V = InboundView;

    open spec fn view(&self) -> InboundView {
        match self {
            Inbound::Ping { number, stamp } => InboundView::Ping { number: number@, stamp: *stamp },
            Inbound::Subbed { topic, status } => InboundView::Subbed {
                topic: topic@,
                status: status@,
            },
            Inbound::Tick(t) => InboundView::Tick(t@),
            Inbound::Other => InboundView::Other,
        }
    }
}

/// The price written at the pointer of the document.
pub open spec fn price_at(text: Seq<char>, pointer: Seq<char>) -> Option<u64> {
    match json_number_at(text, pointer) {
        Some(n) => price_of(n),
        None => None,
    }
}

/// The tick that a document carries: its channel `ch`, its time `ts`, and
/// the five prices under `tick`, each left out where it is absent or cannot
/// be read.
pub open spec fn tick_of(text: Seq<char>) -> TickView {
    TickView {
        ch: json_str_at(text, "/ch"@),
        ts: json_u64_at(text, "/ts"@),
        tick: TickInner {
            amount: price_at(text, "/tick/amount"@),
            close: price_at(text, "/tick/close"@),
            high: price_at(text, "/tick/high"@),
            low: price_at(text, "/tick/low"@),
            open: price_at(text, "/tick/open"@),
        },
    }
}

/// What a document says, tested in this order: a `ping` that is a number;
/// a `subbed` field, acknowledging the topic it names with the `status`
/// string (`Other` where either is not a string); a `tick` field, with
/// whichever of its fields can be read. A document with none of these
/// fields is `Other`.
pub open spec fn inbound_of(text: Seq<char>) -> InboundView {
    if json_number_at(text, "/ping"@) is Some {
        InboundView::Ping {
            number: json_number_at(text, "/ping"@)->0,
            stamp: json_u64_at(text, "/ping"@),
        }
    } else if json_has(text, "/subbed"@) {
        if json_str_at(text, "/subbed"@) is Some && json_str_at(text, "/status"@) is Some {
            InboundView::Subbed {
                topic: json_str_at(text, "/subbed"@)->0,
                status: json_str_at(text, "/status"@)->0,
            }
        } else {
            InboundView::Other
        }
    } else if json_has(text, "/tick"@) {
        InboundView::Tick(tick_of(text))
    } else {
        InboundView::Other
    }
}

impl JsonMessage {
    /// The price at the pointer.
    fn price_at(&self, pointer: &str) -> (r: Option<u64>)
        ensures
            r == price_at(self@, pointer@),
    {
        match self.number_at(pointer) {
            Some(n) => parse_price(n.as_str()),
            None => None,
        }
    }

    /// The tick the document carries.
    fn tick(&self) -> (r: Tick)
        ensures
            r@ == tick_of(self@),
    {
        let ch = self.str_at("/ch");
        let ts = self.u64_at("/ts");
        let amount = self.price_at("/tick/amount");
        let close = self.price_at("/tick/close");
        let high = self.price_at("/tick/high");
        let low = self.price_at("/tick/low");
        let open = self.price_at("/tick/open");
        Tick { ch, ts, tick: TickInner { amount, close, high, low, open } }
    }

    /// What the document says: a ping, a subscription acknowledgment, a
    /// tick, or something else.
    pub fn classify(&self) -> (r: Inbound)
        ensures
            r@ == inbound_of(self@),
    {
        if let Some(number) = self.number_at("/ping") {
            return Inbound::Ping { number, stamp: self.u64_at("/ping") };
        }
        if self.has("/subbed") {
            return match (self.str_at("/subbed"), self.str_at("/status")) {
                (Some(topic), Some(status)) => Inbound::Subbed { topic, status },
                _ => Inbound::Other,
            };
        }
        if self.has("/tick") {
            return Inbound::Tick(self.tick());
        }
        Inbound::Other
    }
}

} // verus!
