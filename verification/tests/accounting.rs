use tcp_lb::connection::{Connection, NodeConnection, TargetConnection};

fn fresh_connection() -> Connection {
    Connection::from_parts(
        "cid".to_string(),
        "127.0.0.1:7000".to_string(),
        "127.0.0.1:55000".to_string(),
        1_700_000_000_000,
        1_000_000_000,
    )
}

#[test]
fn from_parts_starts_at_zero() {
    let c = fresh_connection();
    assert_eq!(c.connect_id, "cid");
    assert_eq!(c.local_endpoint, "127.0.0.1:7000");
    assert_eq!(c.remote_endpoint, "127.0.0.1:55000");
    assert_eq!(c.create_time, 1_700_000_000_000);
    assert_eq!(c.start_time_1m, 1_000_000_000);
    assert_eq!(c.start_time_5m, 1_000_000_000);
    assert_eq!(c.start_time_30m, 1_000_000_000);
    assert_eq!(c.read_bytes_1m, 0);
    assert_eq!(c.read_bytes_5m, 0);
    assert_eq!(c.read_bytes_30m, 0);
    assert_eq!(c.write_bytes_1m, 0);
    assert_eq!(c.write_bytes_5m, 0);
    assert_eq!(c.write_bytes_30m, 0);
}

#[test]
fn new_connection_has_zero_counters_and_fresh_id() {
    let c = Connection::new("127.0.0.1:7000".to_string(), "127.0.0.1:55000".to_string());
    assert_eq!(c.read_bytes_1m, 0);
    assert_eq!(c.write_bytes_30m, 0);
    assert_eq!(c.connect_id.chars().count(), 36);
}

#[test]
fn add_read_n_credits_every_window() {
    let mut c = fresh_connection();
    c.add_read_n(5);
    c.add_read_n(7);
    assert_eq!(c.read_bytes_1m, 12);
    assert_eq!(c.read_bytes_5m, 12);
    assert_eq!(c.read_bytes_30m, 12);
    assert_eq!(c.write_bytes_1m, 0);
}

#[test]
fn add_write_n_credits_every_window() {
    let mut c = fresh_connection();
    c.add_write_n(1024);
    assert_eq!(c.write_bytes_1m, 1024);
    assert_eq!(c.write_bytes_5m, 1024);
    assert_eq!(c.write_bytes_30m, 1024);
    assert_eq!(c.read_bytes_1m, 0);
}

#[test]
fn resets_touch_only_their_window() {
    let mut c = fresh_connection();
    c.add_read_n(10);
    c.add_write_n(20);
    c.reset_read_write_bytes_1m(2_000_000_000);
    assert_eq!(c.read_bytes_1m, 0);
    assert_eq!(c.write_bytes_1m, 0);
    assert_eq!(c.start_time_1m, 2_000_000_000);
    assert_eq!(c.read_bytes_5m, 10);
    assert_eq!(c.write_bytes_30m, 20);
    c.reset_read_write_bytes_5m(3_000_000_000);
    assert_eq!(c.read_bytes_5m, 0);
    assert_eq!(c.start_time_5m, 3_000_000_000);
    assert_eq!(c.read_bytes_30m, 10);
    c.reset_read_write_bytes_30m(4_000_000_000);
    assert_eq!(c.read_bytes_30m, 0);
    assert_eq!(c.write_bytes_30m, 0);
    assert_eq!(c.start_time_30m, 4_000_000_000);
}

#[test]
fn side_records_delegate_to_connection() {
    let mut n = NodeConnection::new("l".to_string(), "r".to_string());
    n.add_read_n(3);
    n.add_write_n(4);
    assert_eq!(n.connection.read_bytes_1m, 3);
    assert_eq!(n.connection.write_bytes_5m, 4);

    let mut t = TargetConnection::new("l".to_string(), "r".to_string(), "tid".to_string());
    t.add_read_n(8);
    t.add_write_n(9);
    assert_eq!(t.target_id, "tid");
    assert_eq!(t.connection.read_bytes_30m, 8);
    assert_eq!(t.connection.write_bytes_1m, 9);
}
