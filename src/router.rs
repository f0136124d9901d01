use vstd::prelude::*;
use crate::codec::{encode_message, payload_of, EncodeError};
use crate::engine::Record;
use crate::message::Message;

verus! {

/// The broker topic of each kind of message.
pub open spec fn topic_of(m: &Message) -> Seq<char> {
    match m {
        Message::Trade(_) => "trades"@,
        Message::Quote(_) => "quotes"@,
        Message::SecondAggregate(_) => "second-aggregates"@,
        Message::MinuteAggregate(_) => "minute-aggregates"@,
        Message::Status { .. } => "meta"@,
    }
}

/// The partition key: a data message's own symbol, and one shared key for
/// all status messages so that they keep their relative order.
pub open spec fn key_of(m: &Message) -> Seq<char> {
    match m {
        Message::Status { .. } => "status"@,
        _ => m.spec_symbol(),
    }
}

/// The broker topic that `s` is sent to.
pub fn get_topic(s: &Message) -> (r: &'static str)
    ensures
        r@ == topic_of(s),
{
    match s {
        Message::Trade(_) => "trades",
        Message::Quote(_) => "quotes",
        Message::SecondAggregate(_) => "second-aggregates",
        Message::MinuteAggregate(_) => "minute-aggregates",
        Message::Status { .. } => "meta",
    }
}

/// The partition key that `s` is sent under.
pub fn get_key(s: &Message) -> (r: &str)
    ensures
        r@ == key_of(s),
{
    match s {
        Message::Trade(t) => t.symbol.as_str(),
        Message::Quote(q) => q.symbol.as_str(),
        Message::SecondAggregate(a) => a.symbol.as_str(),
        Message::MinuteAggregate(a) => a.symbol.as_str(),
        Message::Status { .. } => "status",
    }
}

/// What is submitted for a message: its topic, its key and its payload.
pub open spec fn submission_of(m: Message) -> (Seq<char>, Seq<char>, Seq<char>) {
    (topic_of(&m), key_of(&m), payload_of(&m))
}

/// The broker submission for `m`.
pub fn route(m: &Message) -> (r: Result<Record, EncodeError>)
    ensures
        r is Ok,
        r matches Ok(rec) ==> rec@ == submission_of(*m),
{
    match encode_message(m) {
        Ok(payload) => Ok(
            Record {
                topic: String::from_str(get_topic(m)),
                key: String::from_str(get_key(m)),
                payload,
            },
        ),
        Err(e) => Err(e),
    }
}

/// Routing is total: every message has a non-empty topic and a non-empty
/// key; every status message has the key `status`, and every data message
/// its own symbol.
pub proof fn lemma_routing_total(m: Message)
    requires
        m.wf(),
    ensures
        topic_of(&m).len() > 0,
        key_of(&m).len() > 0,
        m is Status ==> key_of(&m) == "status"@,
        !(m is Status) ==> key_of(&m) == m.spec_symbol(),
{
    reveal_strlit("trades");
    reveal_strlit("quotes");
    reveal_strlit("second-aggregates");
    reveal_strlit("minute-aggregates");
    reveal_strlit("meta");
    reveal_strlit("status");
}

} // verus!
