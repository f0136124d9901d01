use polygon_data_relay::{
    encode_action, encode_message, get_key, get_topic, route, Aggregate, Message, Number, Quote,
    StatusCode, Trade,
};

fn num(text: &str) -> Number {
    Number::new(text).unwrap()
}

fn trade(symbol: &str) -> Message {
    Message::Trade(Trade {
        symbol: symbol.to_string(),
        price: num("150.25"),
        size: num("100"),
        timestamp: num("1690000000000"),
    })
}

fn aggregate(symbol: &str) -> Aggregate {
    Aggregate {
        symbol: symbol.to_string(),
        volume: num("1200"),
        open: num("10.5"),
        high: num("11"),
        low: num("10.25"),
        close: num("10.75"),
        start: num("1690000000000"),
        end: num("1690000001000"),
    }
}

fn quote(symbol: &str) -> Message {
    Message::Quote(Quote {
        symbol: symbol.to_string(),
        bid_price: num("99.5"),
        bid_size: num("3"),
        ask_price: num("99.75"),
        ask_size: num("4"),
        timestamp: num("1690000000001"),
    })
}

#[test]
fn trade_frame_routes_to_trades_under_its_symbol() {
    let m = trade("AAPL");
    let rec = route(&m).unwrap();
    assert_eq!(rec.topic, "trades");
    assert_eq!(rec.key, "AAPL");
    assert_eq!(
        rec.payload,
        r#"{"ev":"T","sym":"AAPL","p":150.25,"s":100,"t":1690000000000}"#
    );
    let back: serde_json::Value = serde_json::from_str(&rec.payload).unwrap();
    assert_eq!(back["ev"], "T");
    assert_eq!(back["sym"], "AAPL");
    assert_eq!(back["p"].as_f64(), Some(150.25));
    assert_eq!(back["s"].as_u64(), Some(100));
    assert_eq!(back["t"].as_u64(), Some(1690000000000));
}

#[test]
fn every_kind_has_its_topic_and_key() {
    let cases = vec![
        (trade("AAPL"), "trades", "AAPL"),
        (quote("MSFT"), "quotes", "MSFT"),
        (Message::SecondAggregate(aggregate("TSLA")), "second-aggregates", "TSLA"),
        (Message::MinuteAggregate(aggregate("NVDA")), "minute-aggregates", "NVDA"),
        (
            Message::Status { status: StatusCode::Connected, message: "Connected Successfully".to_string() },
            "meta",
            "status",
        ),
    ];
    for (m, topic, key) in cases {
        assert_eq!(get_topic(&m), topic);
        assert_eq!(get_key(&m), key);
        assert!(!get_topic(&m).is_empty());
        assert!(!get_key(&m).is_empty());
    }
}

#[test]
fn all_status_messages_share_one_key() {
    for code in [StatusCode::AuthSuccess, StatusCode::Success, StatusCode::MaxConnections] {
        let m = Message::Status { status: code, message: "x".to_string() };
        assert_eq!(get_key(&m), "status");
    }
}

#[test]
fn quote_and_aggregate_payloads() {
    assert_eq!(
        encode_message(&quote("MSFT")).unwrap(),
        r#"{"ev":"Q","sym":"MSFT","bp":99.5,"bs":3,"ap":99.75,"as":4,"t":1690000000001}"#
    );
    assert_eq!(
        encode_message(&Message::SecondAggregate(aggregate("TSLA"))).unwrap(),
        r#"{"ev":"A","sym":"TSLA","v":1200,"o":10.5,"h":11,"l":10.25,"c":10.75,"s":1690000000000,"e":1690000001000}"#
    );
    assert_eq!(
        encode_message(&Message::MinuteAggregate(aggregate("TSLA"))).unwrap(),
        r#"{"ev":"AM","sym":"TSLA","v":1200,"o":10.5,"h":11,"l":10.25,"c":10.75,"s":1690000000000,"e":1690000001000}"#
    );
}

#[test]
fn status_payload_escapes_its_text() {
    let m = Message::Status {
        status: StatusCode::MaxConnections,
        message: "say \"bye\"\n".to_string(),
    };
    assert_eq!(
        encode_message(&m).unwrap(),
        r#"{"ev":"status","status":"max_connections","message":"say \"bye\"\n"}"#
    );
}

#[test]
fn symbol_is_quoted_in_payload() {
    let rec = route(&trade("BRK\"B")).unwrap();
    assert_eq!(rec.key, "BRK\"B");
    assert!(rec.payload.contains(r#""sym":"BRK\"B""#));
}

#[test]
fn action_frame_is_json() {
    assert_eq!(
        encode_action("subscribe", "T.AAPL,Q.AAPL").unwrap(),
        r#"{"action":"subscribe","params":"T.AAPL,Q.AAPL"}"#
    );
}

#[test]
fn number_literals_are_checked() {
    for ok in ["0", "-0", "150.25", "100", "1e5", "-1.5E-3", "2.0e+10"] {
        let n = Number::new(ok).unwrap();
        assert_eq!(n.as_str(), ok);
    }
    for bad in ["", "-", "01", "1.", ".5", "1e", "1e+", "abc", "1.2.3", "+1", "NaN"] {
        assert!(Number::new(bad).is_none(), "{bad}");
    }
}

#[test]
fn fatal_statuses() {
    assert!(StatusCode::MaxConnections.is_fatal());
    assert!(StatusCode::ForceDisconnect.is_fatal());
    assert!(!StatusCode::Connected.is_fatal());
    assert!(!StatusCode::AuthSuccess.is_fatal());
    assert_eq!(StatusCode::ForceDisconnect.wire_name(), "force_disconnect");
}

#[test]
fn control_characters_are_escaped_in_hex() {
    let m = Message::Status {
        status: StatusCode::Success,
        message: "a\u{1}b\u{1f}\t\\".to_string(),
    };
    assert_eq!(
        encode_message(&m).unwrap(),
        r#"{"ev":"status","status":"success","message":"a\u0001b\u001f\t\\"}"#
    );
}
