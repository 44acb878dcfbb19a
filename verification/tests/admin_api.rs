use tcp_lb::api::{handle_request, speed_bps, ApiMethod, ApiResponse};
use tcp_lb::config::{ApiConfig, Config, LogConfig, NodeConfig, TargetConfig};
use tcp_lb::connection::{NodeConnection, TargetConnection};
use tcp_lb::proxy::ProxyServer;
use tcp_lb::table::Tunnel;
use tcp_lb::target::{calc_target_id_by_endpoint, init_targets_from_config};

fn server_with_two_targets() -> ProxyServer {
    let config = Config {
        lb_log: LogConfig { log_set_level: 2 },
        lb_node: NodeConfig {
            listen: "127.0.0.1:7000".to_string(),
            max_conn: 100,
            timeout: 30,
            enable_local_endpoints: false,
            local_endpoints: vec![],
        },
        lb_targets: vec![
            TargetConfig {
                target_endpoint: "10.0.0.1:80".to_string(),
                target_max_conn: 10,
                target_timeout: 30,
                target_active: true,
            },
            TargetConfig {
                target_endpoint: "10.0.0.2:80".to_string(),
                target_max_conn: 20,
                target_timeout: 40,
                target_active: false,
            },
        ],
        lb_api: ApiConfig { listen: "127.0.0.1:8000".to_string() },
    };
    let mut server = ProxyServer::new(config);
    init_targets_from_config(&mut server.targets_info, &server.server_config);
    server
}

fn install(server: &mut ProxyServer, tunnel_id: &str, target_id: String) {
    server.tunnel_info.insert(Tunnel {
        tunnel_id: tunnel_id.to_string(),
        node: NodeConnection::new("127.0.0.1:7000".to_string(), "127.0.0.1:55000".to_string()),
        target: TargetConnection::new(
            "127.0.0.1:41000".to_string(),
            "10.0.0.1:80".to_string(),
            target_id,
        ),
    });
}

#[test]
fn speed_formula_is_exact() {
    // 5 bytes over one second: 40 bits per second
    assert_eq!(speed_bps(5, 2_000_000_000, 1_000_000_000), 40);
    // 1024 bytes over half a second
    assert_eq!(speed_bps(1024, 1_500_000_000, 1_000_000_000), 16384);
    // rounding is toward zero
    assert_eq!(speed_bps(1, 4_000_000_000, 1_000_000_000), 2);
}

#[test]
fn speed_is_zero_without_elapsed_time() {
    assert_eq!(speed_bps(1000, 5, 5), 0);
    assert_eq!(speed_bps(1000, 4, 5), 0);
}

#[test]
fn root_route_greets_and_unknown_routes_are_not_found() {
    let server = server_with_two_targets();
    assert!(matches!(
        handle_request(&server, ApiMethod::Get, "/", None, &[], 0),
        ApiResponse::Hello
    ));
    assert!(matches!(
        handle_request(&server, ApiMethod::Post, "/", None, &[], 0),
        ApiResponse::Hello
    ));
    assert!(matches!(
        handle_request(&server, ApiMethod::Get, "/api/unknown", None, &[], 0),
        ApiResponse::NotFound
    ));
    assert!(matches!(
        handle_request(&server, ApiMethod::Other, "/", None, &[], 0),
        ApiResponse::NotFound
    ));
}

#[test]
fn node_info_reports_config_and_live_count() {
    let mut server = server_with_two_targets();
    install(&mut server, "t1", "whatever".to_string());
    let resp = handle_request(&server, ApiMethod::Get, "/api/get_node_info", None, &[], 0);
    match resp {
        ApiResponse::NodeInfo(n) => {
            assert_eq!(n.listen, "127.0.0.1:7000");
            assert_eq!(n.max_conn, 100);
            assert_eq!(n.timeout, 30);
            assert_eq!(n.conn_count, 1);
        }
        _ => panic!("expected node info"),
    }
}

#[test]
fn targets_info_reports_every_target_with_derived_counts() {
    let mut server = server_with_two_targets();
    let a_id = calc_target_id_by_endpoint("10.0.0.1:80".to_string());
    install(&mut server, "t1", a_id.clone());
    install(&mut server, "t2", a_id.clone());
    let resp = handle_request(&server, ApiMethod::Get, "/api/get_targets_info", None, &[], 0);
    match resp {
        ApiResponse::TargetsInfo(v) => {
            assert_eq!(v.len(), 2);
            assert_eq!(v[0].target_id, a_id);
            assert_eq!(v[0].endpoint, "10.0.0.1:80");
            assert_eq!(v[0].max_conn, 10);
            assert_eq!(v[0].timeout, 30);
            assert_eq!(v[0].conn_count, 2);
            assert!(v[0].active);
            assert_eq!(v[1].endpoint, "10.0.0.2:80");
            assert_eq!(v[1].conn_count, 0);
            assert!(!v[1].active);
        }
        _ => panic!("expected targets info"),
    }
}

#[test]
fn tunnel_info_lists_every_tunnel() {
    let mut server = server_with_two_targets();
    install(&mut server, "t1", "a".to_string());
    install(&mut server, "t2", "b".to_string());
    let resp = handle_request(&server, ApiMethod::Post, "/api/get_tunnel_info", None, &[], 0);
    match resp {
        ApiResponse::TunnelInfo(v) => {
            assert_eq!(v.len(), 2);
            assert_eq!(v[0].tunnel_id, "t1");
            assert_eq!(v[1].tunnel_id, "t2");
            assert_eq!(v[0].node_connection.local_endpoint, "127.0.0.1:7000");
            assert_eq!(v[0].target_connection.target_id, "a");
        }
        _ => panic!("expected tunnel info"),
    }
}

#[test]
fn target_tunnel_info_filters_by_query_parameter() {
    let mut server = server_with_two_targets();
    let a_id = calc_target_id_by_endpoint("10.0.0.1:80".to_string());
    let b_id = calc_target_id_by_endpoint("10.0.0.2:80".to_string());
    install(&mut server, "t1", a_id.clone());
    install(&mut server, "t2", b_id.clone());
    let query = format!("target_id={}", a_id);
    let resp = handle_request(
        &server,
        ApiMethod::Get,
        "/api/get_target_tunnel_info",
        Some(query.as_str()),
        &[],
        0,
    );
    match resp {
        ApiResponse::TunnelInfo(v) => {
            assert_eq!(v.len(), 1);
            assert_eq!(v[0].tunnel_id, "t1");
            assert_eq!(v[0].target_connection.target_id, a_id);
        }
        _ => panic!("expected tunnel info"),
    }
}

#[test]
fn target_tunnel_info_reads_the_body_when_the_query_is_empty() {
    let mut server = server_with_two_targets();
    install(&mut server, "t1", "abc".to_string());
    let body = b"target_id=abc".to_vec();
    let resp = handle_request(
        &server,
        ApiMethod::Post,
        "/api/get_target_tunnel_info",
        None,
        &body,
        0,
    );
    match resp {
        ApiResponse::TunnelInfo(v) => assert_eq!(v.len(), 1),
        _ => panic!("expected tunnel info"),
    }
}

#[test]
fn target_tunnel_info_decodes_percent_escapes() {
    let mut server = server_with_two_targets();
    install(&mut server, "t1", "abc".to_string());
    let resp = handle_request(
        &server,
        ApiMethod::Get,
        "/api/get_target_tunnel_info",
        Some("target_id=%61bc"),
        &[],
        0,
    );
    match resp {
        ApiResponse::TunnelInfo(v) => assert_eq!(v.len(), 1),
        _ => panic!("expected tunnel info"),
    }
}

#[test]
fn repeated_parameter_keeps_the_last_value() {
    let mut server = server_with_two_targets();
    install(&mut server, "t1", "abc".to_string());
    install(&mut server, "t2", "xyz".to_string());
    let resp = handle_request(
        &server,
        ApiMethod::Get,
        "/api/get_target_tunnel_info",
        Some("target_id=abc&target_id=xyz"),
        &[],
        0,
    );
    match resp {
        ApiResponse::TunnelInfo(v) => {
            assert_eq!(v.len(), 1);
            assert_eq!(v[0].tunnel_id, "t2");
        }
        _ => panic!("expected tunnel info"),
    }
}

#[test]
fn missing_target_id_is_rejected() {
    let server = server_with_two_targets();
    let resp = handle_request(
        &server,
        ApiMethod::Get,
        "/api/get_target_tunnel_info",
        None,
        &[],
        0,
    );
    assert!(matches!(resp, ApiResponse::MissingField));
    let resp = handle_request(
        &server,
        ApiMethod::Get,
        "/api/get_target_tunnel_info",
        Some("other=1"),
        &[],
        0,
    );
    assert!(matches!(resp, ApiResponse::MissingField));
}

#[test]
fn tunnel_info_rates_follow_the_formula() {
    let mut server = server_with_two_targets();
    install(&mut server, "t1", "a".to_string());
    // credit 5 bytes read on the node side, then ask one second after
    // the windows started
    let start = {
        let entry = server.tunnel_info.get(&"t1".to_string()).unwrap();
        entry.node.connection.start_time_1m
    };
    server.tunnel_info.credit_read(&"t1".to_string(), tcp_lb::table::Side::Node, 5);
    let now = start + 1_000_000_000;
    let resp = handle_request(&server, ApiMethod::Get, "/api/get_tunnel_info", None, &[], now);
    match resp {
        ApiResponse::TunnelInfo(v) => {
            assert_eq!(v[0].node_connection.read_speed_1m, speed_bps(5, now, start));
        }
        _ => panic!("expected tunnel info"),
    }
}
