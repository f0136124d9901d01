use polygon_data_relay::{inbound_of, route, Engine, Fields, Inbound, JsonField, Message, Step};
use serde_json::Value;

fn fields_of(text: &str) -> Fields {
    match serde_json::from_str::<Value>(text).unwrap() {
        Value::Object(map) => map
            .into_iter()
            .map(|(k, v)| {
                let f = match v {
                    Value::String(s) => JsonField::Text(s),
                    Value::Number(n) => JsonField::Number(n.to_string()),
                    _ => JsonField::Other,
                };
                (k, f)
            })
            .collect(),
        _ => Vec::new(),
    }
}

#[test]
fn trade_frame_to_broker_and_back() {
    let frame = r#"{"ev":"T","sym":"AAPL","p":150.25,"s":100,"t":1690000000000}"#;
    let m = match inbound_of(&fields_of(frame)) {
        Inbound::Message(m) => m,
        other => panic!("not decoded: {:?}", other),
    };
    let rec = route(&m).unwrap();
    assert_eq!(rec.topic, "trades");
    assert_eq!(rec.key, "AAPL");
    let again = match inbound_of(&fields_of(&rec.payload)) {
        Inbound::Message(Message::Trade(t)) => t,
        other => panic!("payload does not decode to a trade: {:?}", other),
    };
    match m {
        Message::Trade(t) => {
            assert_eq!(again.symbol, t.symbol);
            assert_eq!(again.price.as_str(), t.price.as_str());
            assert_eq!(again.size.as_str(), t.size.as_str());
            assert_eq!(again.timestamp.as_str(), t.timestamp.as_str());
        }
        _ => unreachable!(),
    }
}

#[test]
fn max_connections_frame_halts_engine() {
    let mut e = Engine::new(8);
    let trade = r#"{"ev":"T","sym":"AAPL","p":1,"s":1,"t":1}"#;
    assert!(matches!(e.on_frame(inbound_of(&fields_of(trade))), Step::Submit(_)));
    let status = r#"{"ev":"status","status":"max_connections","message":"..."}"#;
    assert!(matches!(e.on_frame(inbound_of(&fields_of(status))), Step::Halt(_)));
    assert!(e.is_halted());
    assert!(matches!(e.on_frame(inbound_of(&fields_of(trade))), Step::Halt(_)));
    assert_eq!(e.in_flight(), 1);
}

#[test]
fn malformed_text_between_frames() {
    let mut e = Engine::new(8);
    let a = r#"{"ev":"Q","sym":"MSFT","bp":1,"bs":2,"ap":3,"as":4,"t":5}"#;
    let bad = r#"{"ev":"Q","sym":"MSFT","bp":"oops"}"#;
    assert!(matches!(e.on_frame(inbound_of(&fields_of(a))), Step::Submit(_)));
    assert!(matches!(e.on_frame(inbound_of(&fields_of(bad))), Step::Report(_)));
    match e.on_frame(inbound_of(&fields_of(a))) {
        Step::Submit(r) => assert_eq!(r.topic, "quotes"),
        other => panic!("unexpected {:?}", other),
    }
}
