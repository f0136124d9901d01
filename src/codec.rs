use vstd::prelude::*;
use crate::message::{Aggregate, Message, Quote, StatusCode, Trade};

verus! {

/// A lowercase hexadecimal digit.
pub open spec fn hex_digit(n: u32) -> char {
    seq!['0', '1', '2', '3', '4', '5', '6', '7', '8', '9', 'a', 'b', 'c', 'd', 'e', 'f'][n as int]
}

/// How one character is written inside a JSON string: a quote and a
/// backslash are escaped by a backslash; backspace, tab, line feed, form
/// feed and carriage return by `\b \t \n \f \r`; any other character below
/// U+0020 by `\u00` and two lowercase hex digits; all else as it is.
pub open spec fn json_escape(c: char) -> Seq<char> {
    if c == '"' {
        seq!['\\', '"']
    } else if c == '\\' {
        seq!['\\', '\\']
    } else if c == '\u{8}' {
        seq!['\\', 'b']
    } else if c == '\t' {
        seq!['\\', 't']
    } else if c == '\n' {
        seq!['\\', 'n']
    } else if c == '\u{c}' {
        seq!['\\', 'f']
    } else if c == '\r' {
        seq!['\\', 'r']
    } else if (c as u32) < 0x20 {
        seq!['\\', 'u', '0', '0', hex_digit((c as u32) / 16), hex_digit((c as u32) % 16)]
    } else {
        seq![c]
    }
}

/// The characters of `s`, each written as inside a JSON string.
pub open spec fn json_escaped(s: Seq<char>) -> Seq<char>
    decreases s.len(),
{
    if s.len() == 0 {
        Seq::empty()
    } else {
        json_escaped(s.drop_last()) + json_escape(s.last())
    }
}

/// The JSON string literal of `s`: its escaped characters between quotes.
pub open spec fn json_quoted(s: Seq<char>) -> Seq<char> {
    seq!['"'] + json_escaped(s) + seq!['"']
}

/// serde_json's error type, carried through unopened.
#[verifier::external_type_specification]
#[verifier::external_body]
pub struct ExJsonError(serde_json::Error);

/// Relies on serde_json::to_string applied to a string slice: it writes the
/// string's escaped characters between quotes into a `Vec`, which cannot
/// fail, so the result is always `Ok` and holds the JSON string literal of
/// `s`.
#[verifier::external_body]
fn quote(s: &str) -> (r: Result<String, serde_json::Error>)
    ensures
        r is Ok,
        r matches Ok(q) ==> q@ == json_quoted(s@),
{
    serde_json::to_string(s)
}

/// A message or an action could not be written as JSON.
#[derive(Clone, Copy, Debug, PartialEq, Eq)]
pub enum EncodeError {
    Serialize,
}

/// The provider's name of a status code on the wire.
pub open spec fn status_wire_name(c: StatusCode) -> Seq<char> {
    match c {
        StatusCode::Connected => "connected"@,
        StatusCode::AuthSuccess => "auth_success"@,
        StatusCode::AuthFailed => "auth_failed"@,
        StatusCode::AuthTimeout => "auth_timeout"@,
        StatusCode::Success => "success"@,
        StatusCode::MaxConnections => "max_connections"@,
        StatusCode::ForceDisconnect => "force_disconnect"@,
    }
}

impl StatusCode {
    /// The provider's name of this status code.
    pub fn wire_name(&self) -> (r: &'static str)
        ensures
            r@ == status_wire_name(*self),
    {
        match self {
            StatusCode::Connected => "connected",
            StatusCode::AuthSuccess => "auth_success",
            StatusCode::AuthFailed => "auth_failed",
            StatusCode::AuthTimeout => "auth_timeout",
            StatusCode::Success => "success",
            StatusCode::MaxConnections => "max_connections",
            StatusCode::ForceDisconnect => "force_disconnect",
        }
    }
}

pub open spec fn trade_payload(t: &Trade) -> Seq<char> {
    "{\"ev\":\"T\",\"sym\":"@ + json_quoted(t.symbol@) + ",\"p\":"@ + t.price.spec_text()
        + ",\"s\":"@ + t.size.spec_text() + ",\"t\":"@ + t.timestamp.spec_text() + "}"@
}

pub open spec fn quote_payload(q: &Quote) -> Seq<char> {
    "{\"ev\":\"Q\",\"sym\":"@ + json_quoted(q.symbol@) + ",\"bp\":"@ + q.bid_price.spec_text()
        + ",\"bs\":"@ + q.bid_size.spec_text() + ",\"ap\":"@ + q.ask_price.spec_text()
        + ",\"as\":"@ + q.ask_size.spec_text() + ",\"t\":"@ + q.timestamp.spec_text() + "}"@
}

/// `ev` is the event class: `A` for second and `AM` for minute aggregates.
pub open spec fn aggregate_payload(ev: Seq<char>, a: &Aggregate) -> Seq<char> {
    "{\"ev\":\""@ + ev + "\",\"sym\":"@ + json_quoted(a.symbol@) + ",\"v\":"@
        + a.volume.spec_text() + ",\"o\":"@ + a.open.spec_text() + ",\"h\":"@
        + a.high.spec_text() + ",\"l\":"@ + a.low.spec_text() + ",\"c\":"@
        + a.close.spec_text() + ",\"s\":"@ + a.start.spec_text() + ",\"e\":"@
        + a.end.spec_text() + "}"@
}

pub open spec fn status_payload(status: StatusCode, message: Seq<char>) -> Seq<char> {
    "{\"ev\":\"status\",\"status\":\""@ + status_wire_name(status) + "\",\"message\":"@
        + json_quoted(message) + "}"@
}

/// The canonical JSON text of a message, in the provider's own field names.
pub open spec fn payload_of(m: &Message) -> Seq<char> {
    match m {
        Message::Trade(t) => trade_payload(t),
        Message::Quote(q) => quote_payload(q),
        Message::SecondAggregate(a) => aggregate_payload("A"@, a),
        Message::MinuteAggregate(a) => aggregate_payload("AM"@, a),
        Message::Status { status, message } => status_payload(*status, message@),
    }
}

/// An upstream action frame: `{"action": <action>, "params": <params>}`.
pub open spec fn action_frame(action: Seq<char>, params: Seq<char>) -> Seq<char> {
    "{\"action\":"@ + json_quoted(action) + ",\"params\":"@ + json_quoted(params) + "}"@
}

fn quoted(s: &str) -> (r: Result<String, EncodeError>)
    ensures
        r is Ok,
        r matches Ok(q) ==> q@ == json_quoted(s@),
{
    match quote(s) {
        Ok(q) => Ok(q),
        Err(_) => Err(EncodeError::Serialize),
    }
}

fn encode_trade(t: &Trade) -> (r: Result<String, EncodeError>)
    ensures
        r is Ok,
        r matches Ok(p) ==> p@ == trade_payload(t),
{
    let sym = match quoted(t.symbol.as_str()) {
        Ok(q) => q,
        Err(e) => return Err(e),
    };
    let mut out = String::from_str("{\"ev\":\"T\",\"sym\":");
    out.append(sym.as_str());
    out.append(",\"p\":");
    out.append(t.price.as_str());
    out.append(",\"s\":");
    out.append(t.size.as_str());
    out.append(",\"t\":");
    out.append(t.timestamp.as_str());
    out.append("}");
    Ok(out)
}

fn encode_quote(q: &Quote) -> (r: Result<String, EncodeError>)
    ensures
        r is Ok,
        r matches Ok(p) ==> p@ == quote_payload(q),
{
    let sym = match quoted(q.symbol.as_str()) {
        Ok(s) => s,
        Err(e) => return Err(e),
    };
    let mut out = String::from_str("{\"ev\":\"Q\",\"sym\":");
    out.append(sym.as_str());
    out.append(",\"bp\":");
    out.append(q.bid_price.as_str());
    out.append(",\"bs\":");
    out.append(q.bid_size.as_str());
    out.append(",\"ap\":");
    out.append(q.ask_price.as_str());
    out.append(",\"as\":");
    out.append(q.ask_size.as_str());
    out.append(",\"t\":");
    out.append(q.timestamp.as_str());
    out.append("}");
    Ok(out)
}

fn encode_aggregate(ev: &str, a: &Aggregate) -> (r: Result<String, EncodeError>)
    ensures
        r is Ok,
        r matches Ok(p) ==> p@ == aggregate_payload(ev@, a),
{
    let sym = match quoted(a.symbol.as_str()) {
        Ok(s) => s,
        Err(e) => return Err(e),
    };
    let mut out = String::from_str("{\"ev\":\"");
    out.append(ev);
    out.append("\",\"sym\":");
    out.append(sym.as_str());
    out.append(",\"v\":");
    out.append(a.volume.as_str());
    out.append(",\"o\":");
    out.append(a.open.as_str());
    out.append(",\"h\":");
    out.append(a.high.as_str());
    out.append(",\"l\":");
    out.append(a.low.as_str());
    out.append(",\"c\":");
    out.append(a.close.as_str());
    out.append(",\"s\":");
    out.append(a.start.as_str());
    out.append(",\"e\":");
    out.append(a.end.as_str());
    out.append("}");
    Ok(out)
}

/// Writes `m` as canonical JSON. Should writing fail, that would concern
/// the one message only; writing strings into memory never fails.
pub fn encode_message(m: &Message) -> (r: Result<String, EncodeError>)
    ensures
        r is Ok,
        r matches Ok(p) ==> p@ == payload_of(m),
{
    match m {
        Message::Trade(t) => encode_trade(t),
        Message::Quote(q) => encode_quote(q),
        Message::SecondAggregate(a) => encode_aggregate("A", a),
        Message::MinuteAggregate(a) => encode_aggregate("AM", a),
        Message::Status { status, message } => {
            let text = match quoted(message.as_str()) {
                Ok(s) => s,
                Err(e) => return Err(e),
            };
            let mut out = String::from_str("{\"ev\":\"status\",\"status\":\"");
            out.append(status.wire_name());
            out.append("\",\"message\":");
            out.append(text.as_str());
            out.append("}");
            Ok(out)
        },
    }
}

/// Writes an upstream action frame.
pub fn encode_action(action: &str, params: &str) -> (r: Result<String, EncodeError>)
    ensures
        r is Ok,
        r matches Ok(f) ==> f@ == action_frame(action@, params@),
{
    let a = match quoted(action) {
        Ok(s) => s,
        Err(e) => return Err(e),
    };
    let p = match quoted(params) {
        Ok(s) => s,
        Err(e) => return Err(e),
    };
    let mut out = String::from_str("{\"action\":");
    out.append(a.as_str());
    out.append(",\"params\":");
    out.append(p.as_str());
    out.append("}");
    Ok(out)
}

} // verus!
