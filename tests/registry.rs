use device_gateway::info::ClientInfo;
use device_gateway::registry::OnlineRegistry;

fn device(imei: &str, csq: Option<i32>) -> ClientInfo {
    ClientInfo::new(imei.to_string(), "X".to_string(), "1.0".to_string(), csq)
}

fn imeis(r: &OnlineRegistry) -> Vec<String> {
    r.list().into_iter().map(|c| c.imei).collect()
}

#[test]
fn new_registry_is_empty() {
    let r = OnlineRegistry::new();
    assert_eq!(r.len(), 0);
    assert!(r.list().is_empty());
}

#[test]
fn insert_then_list_in_order() {
    let mut r = OnlineRegistry::new();
    assert!(r.insert(device("123", None)));
    assert!(r.insert(device("456", Some(20))));
    assert_eq!(imeis(&r), vec!["123", "456"]);
    assert!(r.contains("456"));
    assert!(!r.contains("789"));
}

#[test]
fn second_entry_for_same_imei_is_refused() {
    let mut r = OnlineRegistry::new();
    assert!(r.insert(device("123", Some(1))));
    assert!(!r.insert(device("123", Some(2))));
    assert_eq!(r.len(), 1);
    assert_eq!(r.find("123").unwrap().csq, Some(1));
}

#[test]
fn remove_by_imei() {
    let mut r = OnlineRegistry::new();
    r.insert(device("1", None));
    r.insert(device("2", None));
    r.insert(device("3", None));
    assert!(r.remove("2"));
    assert_eq!(imeis(&r), vec!["1", "3"]);
    assert!(r.find("2").is_none());
}

#[test]
fn removing_absent_entry_is_a_no_op() {
    let mut r = OnlineRegistry::new();
    r.insert(device("1", None));
    assert!(!r.remove("9"));
    assert_eq!(imeis(&r), vec!["1"]);
    let mut empty = OnlineRegistry::new();
    assert!(!empty.remove("1"));
}

#[test]
fn reinsert_after_remove() {
    let mut r = OnlineRegistry::new();
    r.insert(device("1", None));
    r.remove("1");
    assert!(r.insert(device("1", Some(5))));
    assert_eq!(r.find("1").unwrap().csq, Some(5));
}

#[test]
fn list_is_a_snapshot() {
    let mut r = OnlineRegistry::new();
    r.insert(device("1", None));
    let snap = r.list();
    r.remove("1");
    assert_eq!(snap.len(), 1);
    assert_eq!(snap[0].imei, "1");
    assert_eq!(r.len(), 0);
}

#[test]
fn at_most_one_entry_per_imei_under_churn() {
    let mut r = OnlineRegistry::new();
    for round in 0..50u32 {
        let id = format!("{}", round % 7);
        if round % 3 == 0 {
            r.remove(&id);
        } else {
            r.insert(device(&id, None));
        }
        let mut ids = imeis(&r);
        let n = ids.len();
        ids.sort();
        ids.dedup();
        assert_eq!(ids.len(), n);
    }
}

#[test]
fn identity_identifier_and_copy() {
    let d = device("123", Some(7));
    assert_eq!(d.identifier(), "123");
    let e = d.clone();
    assert_eq!(e.imei, "123");
    assert_eq!(e.iccid, "X");
    assert_eq!(e.fver, "1.0");
    assert_eq!(e.csq, Some(7));
}
