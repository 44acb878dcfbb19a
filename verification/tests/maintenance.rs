use tcp_lb::connection::{NodeConnection, TargetConnection};
use tcp_lb::table::{Tunnel, TunnelTable};

fn loaded_table() -> TunnelTable {
    let mut table = TunnelTable::new();
    let mut node = NodeConnection::new("127.0.0.1:7000".to_string(), "127.0.0.1:55000".to_string());
    let mut target = TargetConnection::new(
        "127.0.0.1:41000".to_string(),
        "127.0.0.1:9001".to_string(),
        "a".to_string(),
    );
    node.add_read_n(10);
    node.add_write_n(20);
    target.add_read_n(30);
    target.add_write_n(40);
    table.insert(Tunnel { tunnel_id: "t1".to_string(), node, target });
    table
}

#[test]
fn every_tick_resets_the_one_minute_window() {
    let mut table = loaded_table();
    table.maintain_tick(1, 777);
    let entry = table.get(&"t1".to_string()).unwrap();
    assert_eq!(entry.node.connection.read_bytes_1m, 0);
    assert_eq!(entry.node.connection.write_bytes_1m, 0);
    assert_eq!(entry.node.connection.start_time_1m, 777);
    assert_eq!(entry.target.connection.read_bytes_1m, 0);
    assert_eq!(entry.target.connection.start_time_1m, 777);
    // the longer windows keep accumulating
    assert_eq!(entry.node.connection.read_bytes_5m, 10);
    assert_eq!(entry.node.connection.write_bytes_5m, 20);
    assert_eq!(entry.target.connection.read_bytes_30m, 30);
    assert_eq!(entry.target.connection.write_bytes_30m, 40);
}

#[test]
fn every_fifth_tick_also_resets_the_five_minute_window() {
    let mut table = loaded_table();
    table.maintain_tick(5, 888);
    let entry = table.get(&"t1".to_string()).unwrap();
    assert_eq!(entry.node.connection.read_bytes_1m, 0);
    assert_eq!(entry.node.connection.read_bytes_5m, 0);
    assert_eq!(entry.node.connection.start_time_5m, 888);
    assert_eq!(entry.node.connection.read_bytes_30m, 10);
    assert_eq!(entry.target.connection.write_bytes_5m, 0);
    assert_eq!(entry.target.connection.write_bytes_30m, 40);
}

#[test]
fn every_thirtieth_tick_resets_all_three_windows() {
    let mut table = loaded_table();
    table.maintain_tick(30, 999);
    let entry = table.get(&"t1".to_string()).unwrap();
    assert_eq!(entry.node.connection.read_bytes_1m, 0);
    assert_eq!(entry.node.connection.read_bytes_5m, 0);
    assert_eq!(entry.node.connection.read_bytes_30m, 0);
    assert_eq!(entry.node.connection.start_time_30m, 999);
    assert_eq!(entry.target.connection.write_bytes_30m, 0);
}

#[test]
fn maintenance_keeps_identities_and_endpoints() {
    let mut table = loaded_table();
    table.maintain_tick(0, 1);
    let entry = table.get(&"t1".to_string()).unwrap();
    assert_eq!(entry.tunnel_id, "t1");
    assert_eq!(entry.target.target_id, "a");
    assert_eq!(entry.node.connection.local_endpoint, "127.0.0.1:7000");
    assert_eq!(table.len(), 1);
}
