use polygon_data_relay::{
    Engine, Fault, HaltCause, Inbound, Message, Number, StatusCode, Step, Trade,
};

fn trade(symbol: &str, price: &str) -> Inbound {
    Inbound::Message(Message::Trade(Trade {
        symbol: symbol.to_string(),
        price: Number::new(price).unwrap(),
        size: Number::new("100").unwrap(),
        timestamp: Number::new("1690000000000").unwrap(),
    }))
}

fn status(code: StatusCode) -> Inbound {
    Inbound::Message(Message::Status { status: code, message: "...".to_string() })
}

fn submitted(step: Step) -> (String, String, String) {
    match step {
        Step::Submit(r) => (r.topic, r.key, r.payload),
        other => panic!("expected a submission, got {:?}", other),
    }
}

#[test]
fn same_key_submissions_keep_arrival_order() {
    let mut e = Engine::new(10);
    let a = submitted(e.on_frame(trade("AAPL", "1")));
    let b = submitted(e.on_frame(trade("MSFT", "2")));
    let c = submitted(e.on_frame(trade("AAPL", "3")));
    assert_eq!(a.1, "AAPL");
    assert!(a.2.contains("\"p\":1,"));
    assert_eq!(b.1, "MSFT");
    assert_eq!(c.1, "AAPL");
    assert!(c.2.contains("\"p\":3,"));
    assert_eq!(e.in_flight(), 3);
}

#[test]
fn at_most_limit_submissions_outstanding() {
    let mut e = Engine::new(2);
    assert!(e.has_capacity());
    submitted(e.on_frame(trade("AAPL", "1")));
    submitted(e.on_frame(trade("AAPL", "2")));
    assert_eq!(e.in_flight(), 2);
    assert!(!e.has_capacity());
    assert!(matches!(e.on_delivery(true), Step::Continue));
    assert_eq!(e.in_flight(), 1);
    assert!(e.has_capacity());
    submitted(e.on_frame(trade("AAPL", "3")));
    assert!(!e.has_capacity());
    assert_eq!(e.limit(), 2);
}

#[test]
fn failed_delivery_is_reported_and_pipeline_goes_on() {
    let mut e = Engine::new(1);
    submitted(e.on_frame(trade("AAPL", "1")));
    assert!(matches!(e.on_delivery(false), Step::Report(Fault::Delivery)));
    assert!(!e.is_halted());
    submitted(e.on_frame(trade("AAPL", "2")));
}

#[test]
fn max_connections_status_halts_without_submission() {
    let mut e = Engine::new(4);
    assert!(matches!(
        e.on_frame(status(StatusCode::MaxConnections)),
        Step::Halt(HaltCause::FatalStatus)
    ));
    assert!(e.is_halted());
    assert_eq!(e.in_flight(), 0);
    assert!(matches!(e.on_frame(trade("AAPL", "1")), Step::Halt(HaltCause::Stopped)));
    assert_eq!(e.in_flight(), 0);
}

#[test]
fn force_disconnect_status_halts() {
    let mut e = Engine::new(4);
    submitted(e.on_frame(trade("AAPL", "1")));
    assert!(matches!(
        e.on_frame(status(StatusCode::ForceDisconnect)),
        Step::Halt(HaltCause::FatalStatus)
    ));
    assert!(matches!(e.on_frame(status(StatusCode::Connected)), Step::Halt(_)));
    assert_eq!(e.in_flight(), 1);
}

#[test]
fn informational_status_is_forwarded_to_meta() {
    let mut e = Engine::new(4);
    let (topic, key, payload) = submitted(e.on_frame(status(StatusCode::Connected)));
    assert_eq!(topic, "meta");
    assert_eq!(key, "status");
    assert_eq!(payload, r#"{"ev":"status","status":"connected","message":"..."}"#);
}

#[test]
fn malformed_frame_between_good_ones_is_skipped() {
    let mut e = Engine::new(4);
    let a = submitted(e.on_frame(trade("AAPL", "1")));
    assert!(matches!(e.on_frame(Inbound::Malformed), Step::Report(Fault::Decode)));
    let b = submitted(e.on_frame(trade("AAPL", "2")));
    assert_eq!(a.0, "trades");
    assert_eq!(b.0, "trades");
    assert_eq!(e.in_flight(), 2);
    assert!(!e.is_halted());
}

#[test]
fn lost_connection_asks_for_reconnect() {
    let mut e = Engine::new(4);
    assert!(matches!(e.on_frame(Inbound::NoData), Step::Reconnect));
    assert!(!e.is_halted());
    submitted(e.on_frame(trade("AAPL", "1")));
}

#[test]
fn other_transport_error_halts() {
    let mut e = Engine::new(4);
    assert!(matches!(e.on_frame(Inbound::Broken), Step::Halt(HaltCause::Transport)));
    assert!(e.is_halted());
}
