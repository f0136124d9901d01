use polygon_data_relay::{
    backoff, subscribe, subscription_list, unsubscribe, Command, ControlStep, Directive, Phase,
    PolygonSettings, Session, SessionEvent, Subscribe, Unsubscribe,
};

fn settings() -> PolygonSettings {
    PolygonSettings {
        base_url: "wss://socket.example".to_string(),
        key_id: "SECRET-REDACTED".to_string(),
        tickers: vec!["AAPL".to_string(), "MSFT".to_string()],
        trades: true,
        quotes: true,
        minute_aggregates: false,
        second_aggregates: false,
    }
}

#[test]
fn connect_authenticates_then_subscribes_once() {
    let mut s = settings().session(3);
    assert_eq!(s.phase(), Phase::Disconnected);
    assert_eq!(s.on_event(SessionEvent::Start), Directive::Open { delay_ms: 0 });
    assert_eq!(s.url(), "wss://socket.example");
    assert_eq!(s.on_event(SessionEvent::Opened), Directive::Authenticate);
    let auth = s.auth_action();
    assert_eq!(auth.action, "auth");
    assert_eq!(auth.params, "SECRET-REDACTED");
    assert_eq!(s.on_event(SessionEvent::Sent), Directive::Subscribe);
    let sub = s.subscribe_action();
    assert_eq!(sub.action, "subscribe");
    assert_eq!(sub.params, "Q.AAPL,Q.MSFT,T.AAPL,T.MSFT");
    assert_eq!(s.on_event(SessionEvent::Sent), Directive::Stream);
    assert_eq!(s.phase(), Phase::Streaming);
}

#[test]
fn reconnect_resends_the_same_subscription() {
    let mut s = settings().session(3);
    s.on_event(SessionEvent::Start);
    s.on_event(SessionEvent::Opened);
    s.on_event(SessionEvent::Sent);
    let first = s.subscribe_action().params;
    s.on_event(SessionEvent::Sent);
    assert_eq!(s.on_event(SessionEvent::Lost), Directive::Open { delay_ms: 0 });
    assert_eq!(s.phase(), Phase::Reconnecting);
    assert_eq!(s.on_event(SessionEvent::Opened), Directive::Authenticate);
    assert_eq!(s.on_event(SessionEvent::Sent), Directive::Subscribe);
    let again = s.subscribe_action().params;
    assert_eq!(again, first);
    assert_eq!(again, "Q.AAPL,Q.MSFT,T.AAPL,T.MSFT");
    assert_eq!(s.on_event(SessionEvent::Sent), Directive::Stream);
}

#[test]
fn failed_reconnects_back_off_then_give_up() {
    let mut s = settings().session(3);
    s.on_event(SessionEvent::Start);
    s.on_event(SessionEvent::Opened);
    s.on_event(SessionEvent::Sent);
    s.on_event(SessionEvent::Sent);
    assert_eq!(s.on_event(SessionEvent::Lost), Directive::Open { delay_ms: 0 });
    assert_eq!(s.on_event(SessionEvent::OpenFailed), Directive::Open { delay_ms: 100 });
    assert_eq!(s.on_event(SessionEvent::OpenFailed), Directive::Open { delay_ms: 200 });
    assert_eq!(s.on_event(SessionEvent::OpenFailed), Directive::Stop);
    assert_eq!(s.phase(), Phase::Failed);
    assert_eq!(s.attempts(), 3);
    assert_eq!(s.on_event(SessionEvent::Opened), Directive::Stop);
}

#[test]
fn failure_to_connect_at_startup_is_fatal() {
    let mut s = settings().session(5);
    s.on_event(SessionEvent::Start);
    assert_eq!(s.on_event(SessionEvent::OpenFailed), Directive::Stop);
    assert_eq!(s.phase(), Phase::Failed);
}

#[test]
fn fatal_status_and_transport_error_end_the_session() {
    let mut s = settings().session(5);
    s.on_event(SessionEvent::Start);
    s.on_event(SessionEvent::Opened);
    s.on_event(SessionEvent::Sent);
    s.on_event(SessionEvent::Sent);
    assert_eq!(s.on_event(SessionEvent::FatalStatus), Directive::Stop);
    assert_eq!(s.phase(), Phase::Failed);
    let mut t = Session::new(
        "u".to_string(),
        "k".to_string(),
        vec!["T".to_string()],
        vec!["AAPL".to_string()],
        5,
    );
    t.on_event(SessionEvent::Start);
    assert_eq!(t.on_event(SessionEvent::Broken), Directive::Stop);
}

#[test]
fn events_out_of_turn_change_nothing() {
    let mut s = settings().session(5);
    assert_eq!(s.on_event(SessionEvent::Sent), Directive::Wait);
    assert_eq!(s.on_event(SessionEvent::Lost), Directive::Wait);
    assert_eq!(s.phase(), Phase::Disconnected);
}

#[test]
fn backoff_doubles_up_to_cap() {
    assert_eq!(backoff(0), 100);
    assert_eq!(backoff(1), 200);
    assert_eq!(backoff(3), 800);
    assert_eq!(backoff(9), 30000);
    assert_eq!(backoff(4000), 30000);
}

#[test]
fn subscription_list_covers_every_pair() {
    let classes = vec!["T".to_string(), "AM".to_string()];
    let tickers = vec!["AAPL".to_string(), "MSFT".to_string(), "TSLA".to_string()];
    assert_eq!(
        subscription_list(&classes, &tickers),
        "T.AAPL,T.MSFT,T.TSLA,AM.AAPL,AM.MSFT,AM.TSLA"
    );
    assert_eq!(subscription_list(&vec![], &tickers), "");
    assert_eq!(subscription_list(&classes, &vec![]), "");
}

#[test]
fn subscribe_command_is_restored_after_reconnect() {
    let mut s = settings().session(3);
    s.on_event(SessionEvent::Start);
    s.on_event(SessionEvent::Opened);
    s.on_event(SessionEvent::Sent);
    s.on_event(SessionEvent::Sent);
    let cmd = subscribe(&Subscribe { stream: "A".to_string(), ticker: "TSLA".to_string() });
    match s.on_command(&cmd) {
        ControlStep::Write(f) => assert_eq!(f, r#"{"action":"subscribe","params":"A.TSLA"}"#),
        other => panic!("unexpected {:?}", other),
    }
    let cmd = unsubscribe(&Unsubscribe { stream: "Q".to_string(), ticker: "MSFT".to_string() });
    assert!(matches!(s.on_command(&cmd), ControlStep::Write(_)));
    assert_eq!(s.phase(), Phase::Streaming);
    assert_eq!(s.on_event(SessionEvent::Lost), Directive::Open { delay_ms: 0 });
    s.on_event(SessionEvent::Opened);
    assert_eq!(s.on_event(SessionEvent::Sent), Directive::Subscribe);
    assert_eq!(s.subscribe_action().params, "Q.AAPL,T.AAPL,T.MSFT,A.TSLA");
}

#[test]
fn repeated_subscription_is_kept_once() {
    let mut s = Session::new(
        "u".to_string(),
        "k".to_string(),
        vec!["T".to_string()],
        vec!["AAPL".to_string(), "AAPL".to_string()],
        2,
    );
    assert_eq!(s.subscribe_action().params, "T.AAPL");
    let cmd = subscribe(&Subscribe { stream: "T".to_string(), ticker: "AAPL".to_string() });
    assert!(matches!(s.on_command(&cmd), ControlStep::Write(_)));
    assert_eq!(s.subscribe_action().params, "T.AAPL");
    assert!(matches!(s.on_command(&Command::Start), ControlStep::Skip));
    assert!(matches!(s.on_command(&Command::Stop), ControlStep::Finish));
    assert_eq!(s.subscribe_action().params, "T.AAPL");
}
