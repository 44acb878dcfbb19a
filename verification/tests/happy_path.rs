use tcp_lb::api::{handle_request, ApiMethod, ApiResponse};
use tcp_lb::config::{ApiConfig, Config, LogConfig, NodeConfig, TargetConfig};
use tcp_lb::connection::{new_tunnel_id, NodeConnection, TargetConnection};
use tcp_lb::proxy::{admit_connection, next_candidate, ProxyServer};
use tcp_lb::relay::{ReadEvent, ReadStep, RelayDirection, WriteEvent, WriteStep};
use tcp_lb::table::{Side, Tunnel};
use tcp_lb::target::{calc_target_id_by_endpoint, dump_targets, init_targets_from_config, TargetDumpOrder};

/// One client sends "PING\n" through the proxy and the backend answers
/// "PONG\n": both directions deliver the bytes verbatim and account
/// them, and the admin surface sees one tunnel.
#[test]
fn ping_pong_through_one_tunnel() {
    let config = Config {
        lb_log: LogConfig { log_set_level: 2 },
        lb_node: NodeConfig {
            listen: "127.0.0.1:7000".to_string(),
            max_conn: 100,
            timeout: 30,
            enable_local_endpoints: false,
            local_endpoints: vec![],
        },
        lb_targets: vec![TargetConfig {
            target_endpoint: "127.0.0.1:9001".to_string(),
            target_max_conn: 100,
            target_timeout: 30,
            target_active: true,
        }],
        lb_api: ApiConfig { listen: "127.0.0.1:8000".to_string() },
    };
    assert!(config.check().is_ok());
    let mut server = ProxyServer::new(config);
    init_targets_from_config(&mut server.targets_info, &server.server_config);

    // a client connects: admission, selection, dial, install
    assert!(admit_connection(server.tunnel_info.len(), server.server_config.lb_node.max_conn));
    let dumps = dump_targets(&server.targets_info, &server.tunnel_info, TargetDumpOrder::AscOrder);
    let chosen = next_candidate(&dumps, 0).expect("a viable target");
    let endpoint = dumps[chosen].target.target_endpoint.clone();
    assert_eq!(endpoint, "127.0.0.1:9001");
    let target_id = calc_target_id_by_endpoint(endpoint.clone());

    let tunnel_id = new_tunnel_id();
    server.tunnel_info.insert(Tunnel {
        tunnel_id: tunnel_id.clone(),
        node: NodeConnection::new("127.0.0.1:7000".to_string(), "127.0.0.1:55001".to_string()),
        target: TargetConnection::new("127.0.0.1:41000".to_string(), endpoint, target_id),
    });

    // node-to-target: the client's "PING\n" reaches the backend
    let mut forward = RelayDirection::start(tunnel_id.clone(), Side::Node);
    match forward.on_read(&mut server.tunnel_info, ReadEvent::Data(b"PING\n".to_vec())) {
        ReadStep::Forward(bytes) => assert_eq!(bytes, b"PING\n".to_vec()),
        ReadStep::Stop => panic!("expected a forward"),
    }
    assert_eq!(forward.on_write(&mut server.tunnel_info, WriteEvent::Wrote), WriteStep::Continue);

    // target-to-node: the backend's "PONG\n" reaches the client
    let mut back = RelayDirection::start(tunnel_id.clone(), Side::Target);
    match back.on_read(&mut server.tunnel_info, ReadEvent::Data(b"PONG\n".to_vec())) {
        ReadStep::Forward(bytes) => assert_eq!(bytes, b"PONG\n".to_vec()),
        ReadStep::Stop => panic!("expected a forward"),
    }
    assert_eq!(back.on_write(&mut server.tunnel_info, WriteEvent::Wrote), WriteStep::Continue);

    // the accounting: five bytes on each counter the spec names
    let entry = server.tunnel_info.get(&tunnel_id).unwrap();
    assert_eq!(entry.node.connection.read_bytes_1m, 5);
    assert_eq!(entry.target.connection.write_bytes_1m, 5);
    assert_eq!(entry.target.connection.read_bytes_1m, 5);
    assert_eq!(entry.node.connection.write_bytes_1m, 5);

    // the admin surface sees one live tunnel
    match handle_request(&server, ApiMethod::Get, "/api/get_node_info", None, &[], 0) {
        ApiResponse::NodeInfo(n) => assert_eq!(n.conn_count, 1),
        _ => panic!("expected node info"),
    }
    match handle_request(&server, ApiMethod::Get, "/api/get_tunnel_info", None, &[], 0) {
        ApiResponse::TunnelInfo(v) => {
            assert_eq!(v.len(), 1);
            assert_eq!(v[0].tunnel_id, tunnel_id);
        }
        _ => panic!("expected tunnel info"),
    }
}

/// An idle client's tunnel goes away on the read deadline and the count
/// returns to its previous value.
#[test]
fn idle_timeout_removes_the_tunnel() {
    let before = 0usize;
    let mut server = ProxyServer::new(Config {
        lb_log: LogConfig { log_set_level: 2 },
        lb_node: NodeConfig {
            listen: "127.0.0.1:7000".to_string(),
            max_conn: 100,
            timeout: 2,
            enable_local_endpoints: false,
            local_endpoints: vec![],
        },
        lb_targets: vec![],
        lb_api: ApiConfig { listen: "127.0.0.1:8000".to_string() },
    });
    assert_eq!(server.tunnel_info.len(), before);
    server.tunnel_info.insert(Tunnel {
        tunnel_id: "t1".to_string(),
        node: NodeConnection::new("127.0.0.1:7000".to_string(), "127.0.0.1:55001".to_string()),
        target: TargetConnection::new(
            "127.0.0.1:41000".to_string(),
            "127.0.0.1:9001".to_string(),
            "a".to_string(),
        ),
    });
    assert_eq!(server.tunnel_info.len(), before + 1);
    let mut dir = RelayDirection::start("t1".to_string(), Side::Node);
    let step = dir.on_read(&mut server.tunnel_info, ReadEvent::TimedOut);
    assert!(matches!(step, ReadStep::Stop));
    assert_eq!(server.tunnel_info.len(), before);
    match handle_request(&server, ApiMethod::Get, "/api/get_node_info", None, &[], 0) {
        ApiResponse::NodeInfo(n) => assert_eq!(n.conn_count, 0),
        _ => panic!("expected node info"),
    }
}
