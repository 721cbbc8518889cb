use device_gateway::command::{parse_command, ClientCommand};
use device_gateway::info::ClientInfo;
use device_gateway::log::log_entry_now;
use device_gateway::registry::OnlineRegistry;
use device_gateway::session::{Action, Event, Session};

fn identity(imei: &str) -> ClientInfo {
    ClientInfo::new(imei.to_string(), "X".to_string(), "1.0".to_string(), None)
}

/// Takes a session through registration the way the connection loop does,
/// entering the identity into `registry`.
fn register(s: &mut Session, registry: &mut OnlineRegistry, imei: &str, now: u64) {
    let doc = format!("{{\"imei\":\"{}\",\"iccid\":\"X\",\"fver\":\"1.0\"}}", imei);
    match s.on_event(Event::Received(doc.clone()), now) {
        Action::Decode(text) => assert_eq!(text, doc),
        other => panic!("expected Decode, got {:?}", other),
    }
    match s.on_event(Event::Decoded(Some(identity(imei))), now) {
        Action::OpenLog(id) => assert_eq!(id, imei),
        other => panic!("expected OpenLog, got {:?}", other),
    }
    let admitted = match s.on_event(Event::LogOpened(true), now) {
        Action::Enroll(info) => registry.insert(info),
        other => panic!("expected Enroll, got {:?}", other),
    };
    assert!(matches!(s.on_event(Event::Enrolled(admitted), now), Action::Idle));
}

fn sent(a: Action) -> Option<String> {
    match a {
        Action::Send(t) => Some(t),
        _ => None,
    }
}

#[test]
fn registration_flow_enters_registry() {
    let mut reg = OnlineRegistry::new();
    let mut s = Session::new(0, 5_000, 10_000);
    register(&mut s, &mut reg, "123", 10);
    assert!(s.is_registered());
    assert_eq!(s.identifier(), Some("123".to_string()));
    assert!(reg.contains("123"));
}

#[test]
fn heartbeat_before_registration_is_skipped() {
    let mut s = Session::new(0, 5_000, 10_000);
    assert!(matches!(s.on_event(Event::Received("HEARTBEAT".to_string()), 1), Action::Idle));
    assert!(!s.is_registered());
    assert!(!s.is_terminated());
    assert!(matches!(s.on_event(Event::Received("{}".to_string()), 2), Action::Decode(_)));
}

#[test]
fn bad_document_ends_without_registry_entry() {
    let reg = OnlineRegistry::new();
    let mut s = Session::new(0, 5_000, 10_000);
    s.on_event(Event::Received("garbage".to_string()), 1);
    match s.on_event(Event::Decoded(None), 1) {
        Action::Close(None) => {}
        other => panic!("expected Close(None), got {:?}", other),
    }
    assert!(s.is_terminated());
    assert!(reg.list().is_empty());
}

#[test]
fn registration_deadline_ends_session() {
    let mut s = Session::new(100, 5_000, 10_000);
    assert_eq!(s.deadline(), Some(5_100));
    assert!(matches!(s.on_event(Event::Alarm, 5_099), Action::Idle));
    assert!(!s.is_terminated());
    assert!(matches!(s.on_event(Event::Alarm, 5_100), Action::Close(None)));
    assert!(s.is_terminated());
    assert_eq!(s.deadline(), None);
}

#[test]
fn slow_handshake_never_listed() {
    let mut reg = OnlineRegistry::new();
    let mut s = Session::new(0, 1_000, 0);
    s.on_event(Event::Received("{\"imei\":\"9\"".to_string()), 500);
    assert!(matches!(s.on_event(Event::Alarm, 1_000), Action::Close(None)));
    // A late answer is ignored once the session has ended.
    assert!(matches!(s.on_event(Event::Decoded(Some(identity("9"))), 1_200), Action::Idle));
    assert!(matches!(s.on_event(Event::LogOpened(true), 1_200), Action::Idle));
    assert!(reg.list().is_empty());
    assert!(!reg.remove("9"));
}

#[test]
fn log_that_cannot_open_ends_session() {
    let mut s = Session::new(0, 5_000, 0);
    s.on_event(Event::Received("doc".to_string()), 1);
    s.on_event(Event::Decoded(Some(identity("1"))), 1);
    assert!(matches!(s.on_event(Event::LogOpened(false), 1), Action::Close(None)));
}

#[test]
fn duplicate_device_is_refused_and_leaves_first_entry() {
    let mut reg = OnlineRegistry::new();
    let mut first = Session::new(0, 5_000, 0);
    register(&mut first, &mut reg, "123", 1);
    let mut second = Session::new(2, 5_000, 0);
    second.on_event(Event::Received("doc".to_string()), 3);
    second.on_event(Event::Decoded(Some(identity("123"))), 3);
    let admitted = match second.on_event(Event::LogOpened(true), 3) {
        Action::Enroll(info) => reg.insert(info),
        other => panic!("expected Enroll, got {:?}", other),
    };
    assert!(!admitted);
    assert!(matches!(second.on_event(Event::Enrolled(admitted), 3), Action::Close(None)));
    assert!(reg.contains("123"));
    assert_eq!(reg.len(), 1);
}

#[test]
fn device_data_is_logged_and_heartbeat_is_not() {
    let mut reg = OnlineRegistry::new();
    let mut s = Session::new(0, 5_000, 10_000);
    register(&mut s, &mut reg, "123", 1);
    match s.on_event(Event::Received("temp=20".to_string()), 2) {
        Action::AppendLog(p) => assert_eq!(p, "temp=20"),
        other => panic!("expected AppendLog, got {:?}", other),
    }
    assert!(matches!(s.on_event(Event::Received("HEARTBEAT".to_string()), 3), Action::Idle));
}

#[test]
fn command_for_a_reaches_a_only() {
    let mut reg = OnlineRegistry::new();
    let mut a = Session::new(0, 5_000, 0);
    let mut b = Session::new(0, 5_000, 0);
    register(&mut a, &mut reg, "A", 1);
    register(&mut b, &mut reg, "B", 1);
    let cmd = ClientCommand::new(Some("A".to_string()), "x".to_string());
    assert_eq!(sent(a.on_event(Event::Command(cmd.duplicate()), 2)), Some("x\n".to_string()));
    assert_eq!(sent(b.on_event(Event::Command(cmd), 2)), None);
}

#[test]
fn broadcast_reaches_every_registered_session() {
    let mut reg = OnlineRegistry::new();
    let mut a = Session::new(0, 5_000, 0);
    let mut b = Session::new(0, 5_000, 0);
    let mut pending = Session::new(0, 5_000, 0);
    register(&mut a, &mut reg, "A", 1);
    register(&mut b, &mut reg, "B", 1);
    let cmd = parse_command("status");
    assert_eq!(sent(a.on_event(Event::Command(cmd.duplicate()), 2)), Some("status\n".to_string()));
    assert_eq!(sent(b.on_event(Event::Command(cmd.duplicate()), 2)), Some("status\n".to_string()));
    assert_eq!(sent(pending.on_event(Event::Command(cmd), 2)), None);
}

#[test]
fn lag_is_ignored_and_bus_close_ends_session() {
    let mut reg = OnlineRegistry::new();
    let mut s = Session::new(0, 5_000, 0);
    register(&mut s, &mut reg, "123", 1);
    assert!(matches!(s.on_event(Event::Lagged(3), 2), Action::Idle));
    assert!(s.is_registered());
    match s.on_event(Event::BusClosed, 3) {
        Action::Close(Some(id)) => assert_eq!(id, "123"),
        other => panic!("expected Close(Some), got {:?}", other),
    }
}

#[test]
fn heartbeats_every_half_interval_never_time_out() {
    let mut reg = OnlineRegistry::new();
    let h: u64 = 10_000;
    let mut s = Session::new(0, 5_000, h);
    register(&mut s, &mut reg, "123", 0);
    let mut now = 0;
    for _ in 0..20 {
        now += h / 2;
        assert!(matches!(s.on_event(Event::Received("HEARTBEAT".to_string()), now), Action::Idle));
        assert_eq!(s.deadline(), Some(now + h));
        assert!(matches!(s.on_event(Event::Alarm, now + h / 2), Action::Idle));
    }
    assert!(s.is_registered());
}

#[test]
fn silence_for_an_interval_times_out_and_leaves_registry() {
    let mut reg = OnlineRegistry::new();
    let h: u64 = 10_000;
    let mut s = Session::new(0, 5_000, h);
    register(&mut s, &mut reg, "123", 1_000);
    assert_eq!(s.deadline(), Some(11_000));
    match s.on_event(Event::Alarm, 11_000) {
        Action::Close(Some(id)) => assert!(reg.remove(&id)),
        other => panic!("expected Close(Some), got {:?}", other),
    }
    assert!(reg.list().is_empty());
}

#[test]
fn zero_interval_disables_timeout() {
    let mut reg = OnlineRegistry::new();
    let mut s = Session::new(0, 5_000, 0);
    register(&mut s, &mut reg, "123", 1);
    assert_eq!(s.deadline(), None);
    assert!(matches!(s.on_event(Event::Alarm, u64::MAX), Action::Idle));
    assert!(s.is_registered());
}

#[test]
fn peer_close_and_errors_end_session() {
    let mut reg = OnlineRegistry::new();
    let mut s = Session::new(0, 5_000, 0);
    register(&mut s, &mut reg, "7", 1);
    assert!(matches!(s.on_event(Event::PeerClosed, 2), Action::Close(Some(_))));
    assert!(matches!(s.on_event(Event::ReadFailed, 3), Action::Idle));
    let mut t = Session::new(0, 5_000, 0);
    assert!(matches!(t.on_event(Event::ReadFailed, 1), Action::Close(None)));
    let mut u = Session::new(0, 5_000, 0);
    register(&mut u, &mut reg, "8", 1);
    assert!(matches!(u.on_event(Event::WriteFailed, 2), Action::Close(Some(_))));
}

#[test]
fn end_to_end_log_and_command() {
    let mut reg = OnlineRegistry::new();
    let mut d123 = Session::new(0, 5_000, 10_000);
    register(&mut d123, &mut reg, "123", 1);
    let mut log = String::new();
    match d123.on_event(Event::Received("temp=20".to_string()), 2) {
        Action::AppendLog(p) => log.push_str(&log_entry_now(&p)),
        other => panic!("expected AppendLog, got {:?}", other),
    }
    let lines: Vec<&str> = log.lines().collect();
    assert_eq!(lines.len(), 1);
    assert!(lines[0].contains("temp=20"));
    let (stamp, rest) = lines[0].split_once(' ').unwrap();
    assert_eq!(rest, "temp=20");
    assert!(chrono::DateTime::parse_from_rfc3339(stamp).is_ok());

    let mut d456 = Session::new(0, 5_000, 10_000);
    register(&mut d456, &mut reg, "456", 3);
    let cmd = parse_command("123:reboot");
    assert_eq!(sent(d123.on_event(Event::Command(cmd.duplicate()), 4)), Some("reboot\n".to_string()));
    assert_eq!(sent(d456.on_event(Event::Command(cmd), 4)), None);
}
