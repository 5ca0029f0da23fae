use amalgam::{Event, History, Host, SshdLineParser};

fn event(parser: &SshdLineParser, micros: u64, message: &str) -> Event {
    let mut object = serde_json::Map::new();
    object.insert(
        "__REALTIME_TIMESTAMP".to_string(),
        serde_json::Value::String(micros.to_string()),
    );
    object.insert("SYSLOG_IDENTIFIER".to_string(), serde_json::Value::String("sshd".to_string()));
    object.insert("MESSAGE".to_string(), serde_json::Value::String(message.to_string()));
    Event::try_from(parser, serde_json::Value::Object(object)).unwrap()
}

#[test]
fn new_history_knows_no_host() {
    let history = History::new();
    assert!(history.events_for(Host::v4(10, 0, 0, 5)).is_empty());
    assert!(history.events_for(Host::V6(1)).is_empty());
}

#[test]
fn events_of_one_host_keep_their_order() {
    let parser = SshdLineParser::new().unwrap();
    let messages = [
        "Failed password for root from 10.0.0.5 port 1001",
        "Failed password for invalid user admin from 10.0.0.5 port 1002",
        "Accepted publickey for root from 10.0.0.5 port 1003",
        "Failed none for guest from 10.0.0.5 port 1004",
    ];
    let mut history = History::new();
    for (i, message) in messages.iter().enumerate() {
        history.record(event(&parser, 10 - i as u64, message));
    }
    let expected: Vec<Event> = messages
        .iter()
        .enumerate()
        .map(|(i, message)| event(&parser, 10 - i as u64, message))
        .collect();
    assert_eq!(history.events_for(Host::v4(10, 0, 0, 5)), expected.as_slice());
}

#[test]
fn events_are_kept_by_host_whatever_the_port() {
    let parser = SshdLineParser::new().unwrap();
    let mut history = History::new();
    history.record(event(&parser, 1, "Failed password for a from 10.0.0.5 port 1"));
    history.record(event(&parser, 2, "Failed password for b from 10.0.0.6 port 1"));
    history.record(event(&parser, 3, "Failed password for c from 10.0.0.5 port 2"));
    history.record(event(&parser, 4, "Failed password for d from ::a00:5 port 2"));
    let users = |host: Host| -> Vec<String> {
        history
            .events_for(host)
            .iter()
            .map(|e| e.login().unwrap().user().to_string())
            .collect()
    };
    assert_eq!(users(Host::v4(10, 0, 0, 5)), ["a", "c"]);
    assert_eq!(users(Host::v4(10, 0, 0, 6)), ["b"]);
    assert_eq!(users(Host::V6(0x0a00_0005)), ["d"]);
    assert!(users(Host::v4(10, 0, 0, 7)).is_empty());
    for host in [Host::v4(10, 0, 0, 5), Host::v4(10, 0, 0, 6), Host::V6(0x0a00_0005)] {
        for e in history.events_for(host) {
            assert_eq!(e.host(), Some(host));
        }
    }
}

#[test]
fn event_without_login_is_not_recorded() {
    let parser = SshdLineParser::new().unwrap();
    let mut history = History::new();
    history.record(event(&parser, 1, "Failed password for a from 10.0.0.5 port 1"));
    history.record(event(&parser, 2, "Connection closed by 10.0.0.5"));
    history.record(event(&parser, 3, "Failed password for a from 300.0.0.5 port 1"));
    assert_eq!(
        history.events_for(Host::v4(10, 0, 0, 5)),
        [event(&parser, 1, "Failed password for a from 10.0.0.5 port 1")].as_slice()
    );
}

#[test]
fn recording_is_not_idempotent() {
    let parser = SshdLineParser::new().unwrap();
    let message = "Failed password for root from 10.0.0.5 port 22";
    let mut history = History::new();
    history.record(event(&parser, 7, message));
    assert_eq!(history.events_for(Host::v4(10, 0, 0, 5)).len(), 1);
    history.record(event(&parser, 7, message));
    assert_eq!(
        history.events_for(Host::v4(10, 0, 0, 5)),
        [event(&parser, 7, message), event(&parser, 7, message)].as_slice()
    );
}
