use vstd::prelude::*;
use crate::codec::status_wire_name;
use crate::engine::Inbound;
use crate::message::{is_json_number, Aggregate, Message, Number, Quote, StatusCode, Trade};

verus! {

/// A value of one field of an upstream JSON object, as the decoder needs it:
/// a string, a number literal as written, or anything else.
#[derive(Clone, Debug)]
pub enum JsonField {
    Text(String),
    Number(String),
    Other,
}

/// The fields of one upstream JSON object, name and value, in order.
pub type Fields = Vec<(String, JsonField)>;

/// The value of the first field named `key`.
pub open spec fn lookup(rec: Seq<(String, JsonField)>, key: Seq<char>) -> Option<JsonField>
    decreases rec.len(),
{
    if rec.len() == 0 {
        None
    } else if rec[0].0@ == key {
        Some(rec[0].1)
    } else {
        lookup(rec.drop_first(), key)
    }
}

/// The string held by field `key`, if it is a string.
pub open spec fn text_at(rec: Seq<(String, JsonField)>, key: Seq<char>) -> Option<Seq<char>> {
    match lookup(rec, key) {
        Some(JsonField::Text(s)) => Some(s@),
        _ => None,
    }
}

/// The literal held by field `key`, if it is a JSON number.
pub open spec fn number_at(rec: Seq<(String, JsonField)>, key: Seq<char>) -> Option<Seq<char>> {
    match lookup(rec, key) {
        Some(JsonField::Number(s)) => if is_json_number(s@) {
            Some(s@)
        } else {
            None
        },
        _ => None,
    }
}

/// The status code that the provider writes as `s`.
pub open spec fn status_from_wire(s: Seq<char>) -> Option<StatusCode> {
    if s == status_wire_name(StatusCode::Connected) {
        Some(StatusCode::Connected)
    } else if s == status_wire_name(StatusCode::AuthSuccess) {
        Some(StatusCode::AuthSuccess)
    } else if s == status_wire_name(StatusCode::AuthFailed) {
        Some(StatusCode::AuthFailed)
    } else if s == status_wire_name(StatusCode::AuthTimeout) {
        Some(StatusCode::AuthTimeout)
    } else if s == status_wire_name(StatusCode::Success) {
        Some(StatusCode::Success)
    } else if s == status_wire_name(StatusCode::MaxConnections) {
        Some(StatusCode::MaxConnections)
    } else if s == status_wire_name(StatusCode::ForceDisconnect) {
        Some(StatusCode::ForceDisconnect)
    } else {
        None
    }
}

pub open spec fn symbol_ok(rec: Seq<(String, JsonField)>) -> bool {
    text_at(rec, "sym"@) matches Some(s) && s.len() > 0
}

pub open spec fn numbers_ok(rec: Seq<(String, JsonField)>, keys: Seq<Seq<char>>) -> bool {
    forall|i: int| 0 <= i < keys.len() ==> (#[trigger] number_at(rec, keys[i])) is Some
}

pub open spec fn trade_keys() -> Seq<Seq<char>> {
    seq!["p"@, "s"@, "t"@]
}

pub open spec fn quote_keys() -> Seq<Seq<char>> {
    seq!["bp"@, "bs"@, "ap"@, "as"@, "t"@]
}

pub open spec fn aggregate_keys() -> Seq<Seq<char>> {
    seq!["v"@, "o"@, "h"@, "l"@, "c"@, "s"@, "e"@]
}

/// The record describes a message: its `ev` names the kind, and every field
/// that the kind needs is present and well formed.
pub open spec fn decodable(rec: Seq<(String, JsonField)>) -> bool {
    match text_at(rec, "ev"@) {
        Some(ev) => if ev == "T"@ {
            symbol_ok(rec) && numbers_ok(rec, trade_keys())
        } else if ev == "Q"@ {
            symbol_ok(rec) && numbers_ok(rec, quote_keys())
        } else if ev == "A"@ || ev == "AM"@ {
            symbol_ok(rec) && numbers_ok(rec, aggregate_keys())
        } else if ev == "status"@ {
            (text_at(rec, "status"@) matches Some(s) && status_from_wire(s) is Some) && text_at(
                rec,
                "message"@,
            ) is Some
        } else {
            false
        },
        None => false,
    }
}

pub open spec fn number_field(rec: Seq<(String, JsonField)>, key: Seq<char>, n: Number) -> bool {
    number_at(rec, key) == Some(n.spec_text())
}

pub open spec fn aggregate_from(rec: Seq<(String, JsonField)>, a: Aggregate) -> bool {
    &&& text_at(rec, "sym"@) == Some(a.symbol@)
    &&& number_field(rec, "v"@, a.volume)
    &&& number_field(rec, "o"@, a.open)
    &&& number_field(rec, "h"@, a.high)
    &&& number_field(rec, "l"@, a.low)
    &&& number_field(rec, "c"@, a.close)
    &&& number_field(rec, "s"@, a.start)
    &&& number_field(rec, "e"@, a.end)
}

/// `m` is the message that the record describes, field for field.
pub open spec fn decoded_from(rec: Seq<(String, JsonField)>, m: Message) -> bool {
    match m {
        Message::Trade(t) => {
            &&& text_at(rec, "ev"@) == Some("T"@)
            &&& text_at(rec, "sym"@) == Some(t.symbol@)
            &&& number_field(rec, "p"@, t.price)
            &&& number_field(rec, "s"@, t.size)
            &&& number_field(rec, "t"@, t.timestamp)
        },
        Message::Quote(q) => {
            &&& text_at(rec, "ev"@) == Some("Q"@)
            &&& text_at(rec, "sym"@) == Some(q.symbol@)
            &&& number_field(rec, "bp"@, q.bid_price)
            &&& number_field(rec, "bs"@, q.bid_size)
            &&& number_field(rec, "ap"@, q.ask_price)
            &&& number_field(rec, "as"@, q.ask_size)
            &&& number_field(rec, "t"@, q.timestamp)
        },
        Message::SecondAggregate(a) => text_at(rec, "ev"@) == Some("A"@) && aggregate_from(rec, a),
        Message::MinuteAggregate(a) => text_at(rec, "ev"@) == Some("AM"@) && aggregate_from(
            rec,
            a,
        ),
        Message::Status { status, message } => {
            &&& text_at(rec, "ev"@) == Some("status"@)
            &&& text_at(rec, "status"@) matches Some(s) && status_from_wire(s) == Some(status)
            &&& text_at(rec, "message"@) == Some(message@)
        },
    }
}

/// A field was missing, of the wrong type, or held a value the provider
/// does not send.
#[derive(Clone, Copy, Debug, PartialEq, Eq)]
pub enum DecodeError {
    Malformed,
}

fn find<'a>(rec: &'a Fields, key: &str) -> (r: Option<&'a JsonField>)
    ensures
        r matches Some(f) ==> lookup(rec@, key@) == Some(*f),
        r is None ==> lookup(rec@, key@) is None,
{
    let k = String::from_str(key);
    let mut i: usize = 0;
    assert(rec@.subrange(0, rec@.len() as int) =~= rec@);
    while i < rec.len()
        invariant
            i <= rec.len(),
            k@ == key@,
            lookup(rec@, key@) == lookup(rec@.subrange(i as int, rec@.len() as int), key@),
        decreases rec.len() - i,
    {
        let ghost rest = rec@.subrange(i as int, rec@.len() as int);
        assert(rest.drop_first() =~= rec@.subrange(i + 1, rec@.len() as int));
        if rec[i].0 == k {
            return Some(&rec[i].1);
        }
        i = i + 1;
    }
    None
}

fn text(rec: &Fields, key: &str) -> (r: Option<String>)
    ensures
        r matches Some(s) ==> text_at(rec@, key@) == Some(s@),
        r is None ==> text_at(rec@, key@) is None,
{
    match find(rec, key) {
        Some(JsonField::Text(s)) => Some(s.clone()),
        _ => None,
    }
}

fn number(rec: &Fields, key: &str) -> (r: Option<Number>)
    ensures
        r matches Some(n) ==> number_at(rec@, key@) == Some(n.spec_text()) && n.wf(),
        r is None ==> number_at(rec@, key@) is None,
{
    match find(rec, key) {
        Some(JsonField::Number(s)) => Number::new(s.as_str()),
        _ => None,
    }
}

fn same(s: &String, lit: &str) -> (r: bool)
    ensures
        r == (s@ == lit@),
{
    let l = String::from_str(lit);
    *s == l
}

fn status_code(s: &String) -> (r: Option<StatusCode>)
    ensures
        r == status_from_wire(s@),
{
    if same(s, StatusCode::Connected.wire_name()) {
        Some(StatusCode::Connected)
    } else if same(s, StatusCode::AuthSuccess.wire_name()) {
        Some(StatusCode::AuthSuccess)
    } else if same(s, StatusCode::AuthFailed.wire_name()) {
        Some(StatusCode::AuthFailed)
    } else if same(s, StatusCode::AuthTimeout.wire_name()) {
        Some(StatusCode::AuthTimeout)
    } else if same(s, StatusCode::Success.wire_name()) {
        Some(StatusCode::Success)
    } else if same(s, StatusCode::MaxConnections.wire_name()) {
        Some(StatusCode::MaxConnections)
    } else if same(s, StatusCode::ForceDisconnect.wire_name()) {
        Some(StatusCode::ForceDisconnect)
    } else {
        None
    }
}

fn symbol(rec: &Fields) -> (r: Option<String>)
    ensures
        r is Some <==> symbol_ok(rec@),
        r matches Some(s) ==> text_at(rec@, "sym"@) == Some(s@),
{
    match text(rec, "sym") {
        Some(s) => if s.as_str().is_empty() {
            None
        } else {
            Some(s)
        },
        None => None,
    }
}

fn aggregate(rec: &Fields) -> (r: Option<Aggregate>)
    ensures
        r is Some <==> symbol_ok(rec@) && numbers_ok(rec@, aggregate_keys()),
        r matches Some(a) ==> aggregate_from(rec@, a) && a.symbol@.len() > 0
            && crate::message::aggregate_wf(&a),
{
    let sym = symbol(rec);
    let v = number(rec, "v");
    let o = number(rec, "o");
    let h = number(rec, "h");
    let l = number(rec, "l");
    let c = number(rec, "c");
    let s = number(rec, "s");
    let e = number(rec, "e");
    proof {
        let ks = aggregate_keys();
        assert(ks[0] == "v"@ && ks[1] == "o"@ && ks[2] == "h"@ && ks[3] == "l"@);
        assert(ks[4] == "c"@ && ks[5] == "s"@ && ks[6] == "e"@);
    }
    match (sym, v, o, h, l, c, s, e) {
        (Some(symbol), Some(volume), Some(open), Some(high), Some(low), Some(close), Some(start), Some(end)) => {
            Some(Aggregate { symbol, volume, open, high, low, close, start, end })
        },
        _ => None,
    }
}

/// Builds the message that one upstream JSON object describes.
pub fn decode_event(rec: &Fields) -> (r: Result<Message, DecodeError>)
    ensures
        r is Ok <==> decodable(rec@),
        r matches Ok(m) ==> decoded_from(rec@, m) && m.wf(),
{
    proof {
        reveal_strlit("T");
        reveal_strlit("Q");
        reveal_strlit("A");
        reveal_strlit("AM");
        reveal_strlit("status");
    }
    let ev = match text(rec, "ev") {
        Some(ev) => ev,
        None => return Err(DecodeError::Malformed),
    };
    if same(&ev, "T") {
        let sym = symbol(rec);
        let p = number(rec, "p");
        let s = number(rec, "s");
        let t = number(rec, "t");
        assert(trade_keys()[0] == "p"@ && trade_keys()[1] == "s"@ && trade_keys()[2] == "t"@);
        match (sym, p, s, t) {
            (Some(symbol), Some(price), Some(size), Some(timestamp)) => Ok(
                Message::Trade(Trade { symbol, price, size, timestamp }),
            ),
            _ => Err(DecodeError::Malformed),
        }
    } else if same(&ev, "Q") {
        let sym = symbol(rec);
        let bp = number(rec, "bp");
        let bs = number(rec, "bs");
        let ap = number(rec, "ap");
        let as_ = number(rec, "as");
        let t = number(rec, "t");
        assert(quote_keys()[0] == "bp"@ && quote_keys()[1] == "bs"@ && quote_keys()[2] == "ap"@);
        assert(quote_keys()[3] == "as"@ && quote_keys()[4] == "t"@);
        match (sym, bp, bs, ap, as_, t) {
            (Some(symbol), Some(bid_price), Some(bid_size), Some(ask_price), Some(ask_size), Some(timestamp)) => {
                Ok(Message::Quote(Quote { symbol, bid_price, bid_size, ask_price, ask_size, timestamp }))
            },
            _ => Err(DecodeError::Malformed),
        }
    } else if same(&ev, "A") {
        match aggregate(rec) {
            Some(a) => Ok(Message::SecondAggregate(a)),
            None => Err(DecodeError::Malformed),
        }
    } else if same(&ev, "AM") {
        match aggregate(rec) {
            Some(a) => Ok(Message::MinuteAggregate(a)),
            None => Err(DecodeError::Malformed),
        }
    } else if same(&ev, "status") {
        let code = match text(rec, "status") {
            Some(s) => status_code(&s),
            None => None,
        };
        let message = text(rec, "message");
        match (code, message) {
            (Some(status), Some(message)) => Ok(Message::Status { status, message }),
            _ => Err(DecodeError::Malformed),
        }
    } else {
        Err(DecodeError::Malformed)
    }
}

/// `item` is what the engine receives for the JSON object `rec`: the message
/// it describes, or a malformed frame.
pub open spec fn inbound_for(rec: Seq<(String, JsonField)>, item: Inbound) -> bool {
    &&& item is Malformed <==> !decodable(rec)
    &&& item matches Inbound::Message(m) ==> decoded_from(rec, m) && m.wf()
    &&& !(item is NoData) && !(item is Broken)
}

/// What the engine receives for one upstream JSON object: the message it
/// describes, or a malformed frame.
pub fn inbound_of(rec: &Fields) -> (r: Inbound)
    ensures
        inbound_for(rec@, r),
{
    match decode_event(rec) {
        Ok(m) => Inbound::Message(m),
        Err(_) => Inbound::Malformed,
    }
}

/// The shape of one upstream text frame once read as JSON.
#[derive(Debug)]
pub enum FrameShape {
    /// An array: a batch of events, each given by its object's fields (no
    /// fields for an element that is not an object).
    Batch(Vec<Fields>),
    /// A single value: one event, given by its fields.
    Single(Fields),
    /// Text that is not JSON.
    Unreadable,
}

/// The inbound items of one text frame, in order: one per event of a batch,
/// one for a single event, and one malformed item for text that is not JSON.
pub fn decode_frame(shape: &FrameShape) -> (r: Vec<Inbound>)
    ensures
        shape matches FrameShape::Batch(items) ==> r@.len() == items@.len() && forall|i: int|
            0 <= i < r@.len() ==> inbound_for(#[trigger] items@[i]@, r@[i]),
        shape matches FrameShape::Single(rec) ==> r@.len() == 1 && inbound_for(rec@, r@[0]),
        shape is Unreadable ==> r@.len() == 1 && r@[0] is Malformed,
{
    match shape {
        FrameShape::Batch(items) => {
            let mut out: Vec<Inbound> = Vec::new();
            let mut i: usize = 0;
            while i < items.len()
                invariant
                    i <= items@.len(),
                    out@.len() == i,
                    forall|k: int| 0 <= k < i ==> inbound_for(#[trigger] items@[k]@, out@[k]),
                decreases items.len() - i,
            {
                out.push(inbound_of(&items[i]));
                i = i + 1;
            }
            out
        },
        FrameShape::Single(rec) => {
            let mut out: Vec<Inbound> = Vec::new();
            out.push(inbound_of(rec));
            out
        },
        FrameShape::Unreadable => {
            let mut out: Vec<Inbound> = Vec::new();
            out.push(Inbound::Malformed);
            out
        },
    }
}

} // verus!
