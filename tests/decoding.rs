use polygon_data_relay::{
    decode_event, decode_frame, inbound_of, producer_config, DecodeError, FrameShape, Inbound,
    JsonField, Message, StatusCode,
};

fn text(k: &str, v: &str) -> (String, JsonField) {
    (k.to_string(), JsonField::Text(v.to_string()))
}

fn num(k: &str, v: &str) -> (String, JsonField) {
    (k.to_string(), JsonField::Number(v.to_string()))
}

#[test]
fn trade_record_decodes() {
    let rec = vec![
        text("ev", "T"),
        text("sym", "AAPL"),
        num("p", "150.25"),
        num("s", "100"),
        num("t", "1690000000000"),
    ];
    match decode_event(&rec).unwrap() {
        Message::Trade(t) => {
            assert_eq!(t.symbol, "AAPL");
            assert_eq!(t.price.as_str(), "150.25");
            assert_eq!(t.size.as_str(), "100");
            assert_eq!(t.timestamp.as_str(), "1690000000000");
        }
        other => panic!("unexpected {:?}", other),
    }
}

#[test]
fn max_connections_status_decodes_as_fatal() {
    let rec = vec![
        text("ev", "status"),
        text("status", "max_connections"),
        text("message", "..."),
    ];
    let m = decode_event(&rec).unwrap();
    assert!(matches!(m, Message::Status { status: StatusCode::MaxConnections, .. }));
    assert!(m.is_fatal());
}

#[test]
fn aggregates_decode_by_class() {
    let fields = |ev: &str| {
        vec![
            text("ev", ev),
            text("sym", "TSLA"),
            num("v", "1"),
            num("o", "2"),
            num("h", "3"),
            num("l", "1.5"),
            num("c", "2.5"),
            num("s", "10"),
            num("e", "20"),
        ]
    };
    assert!(matches!(decode_event(&fields("A")), Ok(Message::SecondAggregate(_))));
    assert!(matches!(decode_event(&fields("AM")), Ok(Message::MinuteAggregate(_))));
}

#[test]
fn quote_record_decodes() {
    let rec = vec![
        text("ev", "Q"),
        text("sym", "MSFT"),
        num("bp", "1"),
        num("bs", "2"),
        num("ap", "3"),
        num("as", "4"),
        num("t", "5"),
    ];
    match decode_event(&rec).unwrap() {
        Message::Quote(q) => assert_eq!(q.ask_size.as_str(), "4"),
        other => panic!("unexpected {:?}", other),
    }
}

#[test]
fn malformed_records_are_rejected() {
    let missing_price = vec![text("ev", "T"), text("sym", "AAPL"), num("s", "1"), num("t", "2")];
    assert_eq!(decode_event(&missing_price).unwrap_err(), DecodeError::Malformed);
    let empty_symbol =
        vec![text("ev", "T"), text("sym", ""), num("p", "1"), num("s", "1"), num("t", "2")];
    assert!(decode_event(&empty_symbol).is_err());
    let bad_number =
        vec![text("ev", "T"), text("sym", "A"), num("p", "1."), num("s", "1"), num("t", "2")];
    assert!(decode_event(&bad_number).is_err());
    let unknown_kind = vec![text("ev", "X"), text("sym", "A")];
    assert!(decode_event(&unknown_kind).is_err());
    let unknown_status =
        vec![text("ev", "status"), text("status", "sleepy"), text("message", "")];
    assert!(decode_event(&unknown_status).is_err());
    let no_kind = vec![(String::from("ev"), JsonField::Other)];
    assert!(matches!(inbound_of(&no_kind), Inbound::Malformed));
}

#[test]
fn first_field_of_a_name_counts() {
    let rec = vec![
        text("ev", "status"),
        text("status", "connected"),
        text("status", "max_connections"),
        text("message", "hi"),
    ];
    assert!(!decode_event(&rec).unwrap().is_fatal());
}

#[test]
fn producer_settings_in_order() {
    let c = producer_config("broker:9092", "user", "pw");
    let expected = vec![
        ("bootstrap.servers", "broker:9092"),
        ("security.protocol", "SASL_SSL"),
        ("sasl.mechanisms", "PLAIN"),
        ("sasl.username", "user"),
        ("sasl.password", "pw"),
        ("enable.ssl.certificate.verification", "false"),
        ("message.timeout.ms", "5000"),
    ];
    assert_eq!(c.len(), expected.len());
    for ((k, v), (ek, ev)) in c.iter().zip(expected) {
        assert_eq!(k, ek);
        assert_eq!(v, ev);
    }
}

#[test]
fn frame_shapes_decode_in_order() {
    let good = vec![text("ev", "T"), text("sym", "A"), num("p", "1"), num("s", "2"), num("t", "3")];
    let batch = FrameShape::Batch(vec![good.clone(), Vec::new(), good.clone()]);
    let items = decode_frame(&batch);
    assert_eq!(items.len(), 3);
    assert!(matches!(items[0], Inbound::Message(Message::Trade(_))));
    assert!(matches!(items[1], Inbound::Malformed));
    assert!(matches!(items[2], Inbound::Message(Message::Trade(_))));
    let single = decode_frame(&FrameShape::Single(good));
    assert_eq!(single.len(), 1);
    assert!(matches!(single[0], Inbound::Message(_)));
    let bad = decode_frame(&FrameShape::Unreadable);
    assert_eq!(bad.len(), 1);
    assert!(matches!(bad[0], Inbound::Malformed));
}
