use tcp_lb::proxy::{admit_connection, local_bind_index, CONNECT_TIMEOUT_SECS};

#[test]
fn admission_is_inclusive_at_the_cap() {
    // the acceptor rejects exactly when the table already holds more
    // than max_conn tunnels
    assert!(admit_connection(0, 2));
    assert!(admit_connection(1, 2));
    assert!(admit_connection(2, 2));
    assert!(!admit_connection(3, 2));
    assert!(!admit_connection(4, 2));
    assert!(admit_connection(0, 0));
    assert!(!admit_connection(1, 0));
}

#[test]
fn nine_dials_bind_each_of_three_endpoints_three_times() {
    let mut hits = [0usize; 3];
    for counter in 0u64..9 {
        hits[local_bind_index(counter, 3)] += 1;
    }
    assert_eq!(hits, [3, 3, 3]);
    // and in round-robin order
    let order: Vec<usize> = (0u64..9).map(|c| local_bind_index(c, 3)).collect();
    assert_eq!(order, vec![0, 1, 2, 0, 1, 2, 0, 1, 2]);
}

#[test]
fn rotation_continues_from_the_running_counter() {
    assert_eq!(local_bind_index(7, 3), 1);
    assert_eq!(local_bind_index(8, 3), 2);
    assert_eq!(local_bind_index(9, 3), 0);
    assert_eq!(local_bind_index(5, 1), 0);
}

#[test]
fn connect_deadline_is_five_seconds() {
    assert_eq!(CONNECT_TIMEOUT_SECS, 5);
}
