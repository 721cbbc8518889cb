use device_gateway::directory::{find_entry, upsert_entry, RegisteredClientInfo};
use device_gateway::info::ClientInfo;

fn record(imei: &str) -> RegisteredClientInfo {
    RegisteredClientInfo::create(ClientInfo::new(imei.to_string(), "X".to_string(), "1.0".to_string(), None))
}

#[test]
fn create_sets_both_times() {
    let r = record("1");
    assert_eq!(r.base_info.imei, "1");
    assert!(r.name.is_none());
    assert!(r.tags.is_empty());
    assert_eq!(r.first_seen, r.last_seen);
    assert!(chrono::DateTime::parse_from_rfc3339(&r.first_seen).is_ok());
}

#[test]
fn update_last_seen_keeps_first_seen() {
    let mut r = record("1");
    let first = r.first_seen.clone();
    r.update_last_seen();
    assert_eq!(r.first_seen, first);
    assert!(chrono::DateTime::parse_from_rfc3339(&r.last_seen).is_ok());
}

#[test]
fn empty_name_clears_it() {
    let mut r = record("1");
    r.set_name("pump".to_string());
    assert_eq!(r.name.as_deref(), Some("pump"));
    r.set_name(String::new());
    assert!(r.name.is_none());
}

#[test]
fn entries_are_equal_by_imei() {
    let mut a = record("1");
    a.set_name("a".to_string());
    let b = record("1");
    let c = record("2");
    assert!(a == b);
    assert!(a != c);
}

#[test]
fn upsert_replaces_same_device_and_appends_new() {
    let mut entries = Vec::new();
    upsert_entry(&mut entries, record("1"));
    upsert_entry(&mut entries, record("2"));
    let mut again = record("1");
    again.set_tags(vec!["roof".to_string()]);
    upsert_entry(&mut entries, again);
    assert_eq!(entries.len(), 2);
    assert_eq!(entries[0].base_info.imei, "1");
    assert_eq!(entries[0].tags, vec!["roof".to_string()]);
    assert_eq!(entries[1].base_info.imei, "2");
}

#[test]
fn find_entry_by_imei() {
    let mut entries = Vec::new();
    upsert_entry(&mut entries, record("1"));
    let mut two = record("2");
    two.set_name("two".to_string());
    upsert_entry(&mut entries, two);
    let found = find_entry(&entries, "2").unwrap();
    assert_eq!(found.name.as_deref(), Some("two"));
    assert!(find_entry(&entries, "3").is_none());
    assert!(find_entry(&Vec::new(), "1").is_none());
}
