use tcp_lb::connection::{NodeConnection, TargetConnection};
use tcp_lb::table::{get_target_conn_count_by_target_id, Tunnel, TunnelTable};

fn tunnel(id: &str, target_id: &str) -> Tunnel {
    Tunnel {
        tunnel_id: id.to_string(),
        node: NodeConnection::new("127.0.0.1:7000".to_string(), "127.0.0.1:55000".to_string()),
        target: TargetConnection::new(
            "127.0.0.1:41000".to_string(),
            "127.0.0.1:9001".to_string(),
            target_id.to_string(),
        ),
    }
}

#[test]
fn insert_get_remove_roundtrip() {
    let mut table = TunnelTable::new();
    assert_eq!(table.len(), 0);
    table.insert(tunnel("t1", "a"));
    table.insert(tunnel("t2", "b"));
    assert_eq!(table.len(), 2);
    assert!(table.get(&"t1".to_string()).is_some());
    assert!(table.get(&"t3".to_string()).is_none());
    assert!(table.remove(&"t1".to_string()));
    assert_eq!(table.len(), 1);
    assert!(table.get(&"t1".to_string()).is_none());
}

#[test]
fn tunnel_id_appears_at_most_once() {
    let mut table = TunnelTable::new();
    table.insert(tunnel("t1", "a"));
    table.insert(tunnel("t1", "b"));
    assert_eq!(table.len(), 1);
    let entry = table.get(&"t1".to_string()).unwrap();
    assert_eq!(entry.target.target_id, "b");
}

#[test]
fn removal_happens_at_most_once() {
    let mut table = TunnelTable::new();
    table.insert(tunnel("t1", "a"));
    assert!(table.remove(&"t1".to_string()));
    assert!(!table.remove(&"t1".to_string()));
    assert!(table.get(&"t1".to_string()).is_none());
    assert_eq!(table.len(), 0);
}

#[test]
fn conn_count_is_derived_per_target() {
    let mut table = TunnelTable::new();
    table.insert(tunnel("t1", "a"));
    table.insert(tunnel("t2", "b"));
    table.insert(tunnel("t3", "a"));
    assert_eq!(get_target_conn_count_by_target_id(&table, &"a".to_string()), 2);
    assert_eq!(get_target_conn_count_by_target_id(&table, &"b".to_string()), 1);
    assert_eq!(get_target_conn_count_by_target_id(&table, &"c".to_string()), 0);
    table.remove(&"t1".to_string());
    assert_eq!(get_target_conn_count_by_target_id(&table, &"a".to_string()), 1);
}

#[test]
fn snapshot_copies_every_entry() {
    let mut table = TunnelTable::new();
    table.insert(tunnel("t1", "a"));
    table.insert(tunnel("t2", "b"));
    let snap = table.snapshot();
    assert_eq!(snap.len(), 2);
    assert_eq!(snap[0].tunnel_id, "t1");
    assert_eq!(snap[1].tunnel_id, "t2");
}
