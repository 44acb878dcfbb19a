use tcp_lb::config::{ApiConfig, Config, ConfigError, LogConfig, NodeConfig, TargetConfig};
use tcp_lb::endpoint::check_endpoint;

#[test]
fn well_formed_endpoints_pass() {
    assert!(check_endpoint("127.0.0.1:7000"));
    assert!(check_endpoint("0.0.0.0:0"));
    assert!(check_endpoint("255.255.255.255:65535"));
    assert!(check_endpoint("10.0.0.1:80"));
}

#[test]
fn malformed_endpoints_fail() {
    assert!(!check_endpoint(""));
    assert!(!check_endpoint("127.0.0.1"));
    assert!(!check_endpoint("127.0.0.1:"));
    assert!(!check_endpoint(":7000"));
    assert!(!check_endpoint("127.0.0:7000"));
    assert!(!check_endpoint("127.0.0.0.1:7000"));
    assert!(!check_endpoint("256.0.0.1:7000"));
    assert!(!check_endpoint("127.0.0.1:65536"));
    assert!(!check_endpoint("01.2.3.4:80"));
    assert!(!check_endpoint("1.2.3.4:007"));
    assert!(!check_endpoint("a.b.c.d:80"));
    assert!(!check_endpoint("1.2.3.4:x"));
    assert!(!check_endpoint("1.2.3.4:80:90"));
    assert!(!check_endpoint("1.2.3.4 :80"));
    assert!(!check_endpoint("localhost:80"));
}

fn config(node: &str, target: &str, api: &str) -> Config {
    Config {
        lb_log: LogConfig { log_set_level: 2 },
        lb_node: NodeConfig {
            listen: node.to_string(),
            max_conn: 100,
            timeout: 30,
            enable_local_endpoints: false,
            local_endpoints: vec![],
        },
        lb_targets: vec![TargetConfig {
            target_endpoint: target.to_string(),
            target_max_conn: 10,
            target_timeout: 30,
            target_active: true,
        }],
        lb_api: ApiConfig { listen: api.to_string() },
    }
}

#[test]
fn config_check_accepts_valid_endpoints() {
    let c = config("127.0.0.1:7000", "127.0.0.1:9001", "127.0.0.1:8000");
    assert!(c.check().is_ok());
}

#[test]
fn config_check_names_the_failing_field() {
    let c = config("nonsense", "127.0.0.1:9001", "127.0.0.1:8000");
    assert_eq!(c.check(), Err(ConfigError::InvalidNodeEndpoint));
    let c = config("127.0.0.1:7000", "127.0.0.1:99999", "127.0.0.1:8000");
    assert_eq!(c.check(), Err(ConfigError::InvalidTargetEndpoint));
    let c = config("127.0.0.1:7000", "127.0.0.1:9001", "not-an-endpoint");
    assert_eq!(c.check(), Err(ConfigError::InvalidApiEndpoint));
}
