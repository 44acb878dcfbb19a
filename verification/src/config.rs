//! The immutable configuration handed to the core at startup, and its
//! validation: every configured endpoint must be a well-formed
//! IPv4 socket address.

use vstd::prelude::*;

use crate::endpoint::{check_endpoint, valid_endpoint};

verus! {

/// Verbosity threshold of the logging sink.
#[derive(Debug)]
pub struct LogConfig {
    pub log_set_level: u32,
}

/// The inbound side: where to accept, the global tunnel cap, the
/// node-side I/O deadline, and the optional local-bind rotation set.
#[derive(Debug)]
pub struct NodeConfig {
    pub listen: String,
    pub max_conn: u32,
    pub timeout: u32,
    pub enable_local_endpoints: bool,
    pub local_endpoints: Vec<String>,
}

/// One configured backend.
#[derive(Debug)]
pub struct TargetConfig {
    pub target_endpoint: String,
    pub target_max_conn: u32,
    pub target_timeout: u32,
    pub target_active: bool,
}

/// Where the admin HTTP surface listens.
#[derive(Debug)]
pub struct ApiConfig {
    pub listen: String,
}

/// The whole configuration document.
#[derive(Debug)]
pub struct Config {
    pub lb_log: LogConfig,
    pub lb_node: NodeConfig,
    pub lb_targets: Vec<TargetConfig>,
    pub lb_api: ApiConfig,
}

/// Which configured endpoint failed validation.
#[derive(Debug, PartialEq, Eq, Structural)]
pub enum ConfigError {
    InvalidNodeEndpoint,
    InvalidTargetEndpoint,
    InvalidApiEndpoint,
}

/// Every endpoint of `c` parses as an IPv4 socket address.
pub open spec fn spec_config_valid(c: Config) -> bool {
    &&& valid_endpoint(c.lb_node.listen@)
    &&& forall|i: int|
        0 <= i < c.lb_targets@.len() ==> valid_endpoint(#[trigger] c.lb_targets@[i].target_endpoint@)
    &&& valid_endpoint(c.lb_api.listen@)
}

impl Config {
    /// Validates every configured endpoint. Returns `Ok` exactly when the
    /// node listen endpoint, every target endpoint and the api listen
    /// endpoint are well-formed; the error names the first field that is
    /// not, checked in that order.
    pub fn check(&self) -> (r: Result<(), ConfigError>)
        ensures
            r is Ok <==> spec_config_valid(*self),
            r == Err::<(), ConfigError>(ConfigError::InvalidNodeEndpoint) <==> !valid_endpoint(
                self.lb_node.listen@,
            ),
            r == Err::<(), ConfigError>(ConfigError::InvalidTargetEndpoint) <==> (valid_endpoint(
                self.lb_node.listen@,
            ) && exists|i: int|
                0 <= i < self.lb_targets@.len() && !valid_endpoint(
                    #[trigger] self.lb_targets@[i].target_endpoint@,
                )),
            r == Err::<(), ConfigError>(ConfigError::InvalidApiEndpoint) <==> (valid_endpoint(
                self.lb_node.listen@,
            ) && (forall|i: int|
                0 <= i < self.lb_targets@.len() ==> valid_endpoint(
                    #[trigger] self.lb_targets@[i].target_endpoint@,
                )) && !valid_endpoint(self.lb_api.listen@)),
    {
        if !check_endpoint(self.lb_node.listen.as_str()) {
            return Err(ConfigError::InvalidNodeEndpoint);
        }
        let n = self.lb_targets.len();
        for i in 0..n
            invariant
                n == self.lb_targets@.len(),
                valid_endpoint(self.lb_node.listen@),
                forall|j: int|
                    0 <= j < i ==> valid_endpoint(#[trigger] self.lb_targets@[j].target_endpoint@),
        {
            if !check_endpoint(self.lb_targets[i].target_endpoint.as_str()) {
                return Err(ConfigError::InvalidTargetEndpoint);
            }
        }
        if !check_endpoint(self.lb_api.listen.as_str()) {
            return Err(ConfigError::InvalidApiEndpoint);
        }
        Ok(())
    }
}

} // verus!
