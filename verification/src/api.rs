//! The read-only admin surface: routing, query-parameter handling, the
//! rate formula, and the assembly of every response payload from one
//! snapshot of the server state. The HTTP transport delivers requests
//! to `handle_request` and serializes what it returns.

use vstd::prelude::*;
use vstd::string::StringSliceAdditionalSpecFns;

use crate::connection::Connection;
use crate::proxy::ProxyServer;
use crate::table::{count_for_target, get_target_conn_count_by_target_id, Tunnel, TunnelTable};
use crate::target::RegisteredTargetSpec;

verus! {

/// The envelope of every admin response.
#[derive(Debug)]
pub struct JsonResp<T> {
    pub id: u64,
    pub result: T,
    pub error: Option<String>,
}

impl<T> JsonResp<T> {
    /// An envelope with the given fields.
    pub fn new(id: u64, result: T, error: Option<String>) -> (r: JsonResp<T>)
        ensures
            r.id == id,
            r.result == result,
            r.error == error,
    {
        JsonResp { id, result, error }
    }
}

/// The node's own figures.
#[derive(Debug)]
pub struct NodeInfoResp {
    pub listen: String,
    pub max_conn: u32,
    pub timeout: u32,
    pub conn_count: u32,
}

impl NodeInfoResp {
    /// A payload with the given fields.
    pub fn new(listen: String, max_conn: u32, timeout: u32, conn_count: u32) -> (r: NodeInfoResp)
        ensures
            r == (NodeInfoResp { listen, max_conn, timeout, conn_count }),
    {
        NodeInfoResp { listen, max_conn, timeout, conn_count }
    }
}

/// One target's figures.
#[derive(Debug)]
pub struct TargetInfoResp {
    pub target_id: String,
    pub endpoint: String,
    pub max_conn: u32,
    pub timeout: u32,
    pub conn_count: u32,
    pub active: bool,
}

impl TargetInfoResp {
    /// A payload with the given fields.
    pub fn new(
        target_id: String,
        endpoint: String,
        max_conn: u32,
        timeout: u32,
        conn_count: u32,
        active: bool,
    ) -> (r: TargetInfoResp)
        ensures
            r == (TargetInfoResp { target_id, endpoint, max_conn, timeout, conn_count, active }),
    {
        TargetInfoResp { target_id, endpoint, max_conn, timeout, conn_count, active }
    }
}

/// The node side of one tunnel, with its rates.
#[derive(Debug)]
pub struct NodeConnectionInfoResp {
    pub connect_id: String,
    pub local_endpoint: String,
    pub remote_endpoint: String,
    pub create_time: i64,
    pub read_speed_1m: u64,
    pub read_speed_5m: u64,
    pub read_speed_30m: u64,
    pub write_speed_1m: u64,
    pub write_speed_5m: u64,
    pub write_speed_30m: u64,
}

impl NodeConnectionInfoResp {
    /// A payload with the given fields.
    pub fn new(
        connect_id: String,
        local_endpoint: String,
        remote_endpoint: String,
        create_time: i64,
        read_speed_1m: u64,
        read_speed_5m: u64,
        read_speed_30m: u64,
        write_speed_1m: u64,
        write_speed_5m: u64,
        write_speed_30m: u64,
    ) -> (r: NodeConnectionInfoResp)
        ensures
            r == (NodeConnectionInfoResp {
                connect_id,
                local_endpoint,
                remote_endpoint,
                create_time,
                read_speed_1m,
                read_speed_5m,
                read_speed_30m,
                write_speed_1m,
                write_speed_5m,
                write_speed_30m,
            }),
    {
        NodeConnectionInfoResp {
            connect_id,
            local_endpoint,
            remote_endpoint,
            create_time,
            read_speed_1m,
            read_speed_5m,
            read_speed_30m,
            write_speed_1m,
            write_speed_5m,
            write_speed_30m,
        }
    }
}

/// The target side of one tunnel, with its rates and the routed
/// target's identity.
#[derive(Debug)]
pub struct TargetConnectionInfoResp {
    pub connect_id: String,
    pub local_endpoint: String,
    pub remote_endpoint: String,
    pub create_time: i64,
    pub read_speed_1m: u64,
    pub read_speed_5m: u64,
    pub read_speed_30m: u64,
    pub write_speed_1m: u64,
    pub write_speed_5m: u64,
    pub write_speed_30m: u64,
    pub target_id: String,
}

impl TargetConnectionInfoResp {
    /// A payload with the given fields.
    pub fn new(
        connect_id: String,
        local_endpoint: String,
        remote_endpoint: String,
        create_time: i64,
        read_speed_1m: u64,
        read_speed_5m: u64,
        read_speed_30m: u64,
        write_speed_1m: u64,
        write_speed_5m: u64,
        write_speed_30m: u64,
        target_id: String,
    ) -> (r: TargetConnectionInfoResp)
        ensures
            r == (TargetConnectionInfoResp {
                connect_id,
                local_endpoint,
                remote_endpoint,
                create_time,
                read_speed_1m,
                read_speed_5m,
                read_speed_30m,
                write_speed_1m,
                write_speed_5m,
                write_speed_30m,
                target_id,
            }),
    {
        TargetConnectionInfoResp {
            connect_id,
            local_endpoint,
            remote_endpoint,
            create_time,
            read_speed_1m,
            read_speed_5m,
            read_speed_30m,
            write_speed_1m,
            write_speed_5m,
            write_speed_30m,
            target_id,
        }
    }
}

/// One tunnel: its identifier and both sides.
#[derive(Debug)]
pub struct TunnelInfoResp {
    pub tunnel_id: String,
    pub node_connection: NodeConnectionInfoResp,
    pub target_connection: TargetConnectionInfoResp,
}

impl TunnelInfoResp {
    /// A payload with the given fields.
    pub fn new(
        tunnel_id: String,
        node_connection: NodeConnectionInfoResp,
        target_connection: TargetConnectionInfoResp,
    ) -> (r: TunnelInfoResp)
        ensures
            r == (TunnelInfoResp { tunnel_id, node_connection, target_connection }),
    {
        TunnelInfoResp { tunnel_id, node_connection, target_connection }
    }
}

/// The rate over one window: `bytes * 8 * 1e9 / elapsed_ns`, in bits
/// per second; 0 when no time has elapsed (or the clock ran backwards),
/// and capped at the 64-bit maximum.
pub open spec fn spec_speed_bps(bytes: u64, now_ns: i64, start_ns: i64) -> u64 {
    if now_ns <= start_ns {
        0
    } else {
        let v = (bytes * 8 * 1000000000) / (now_ns - start_ns);
        if v > u64::MAX {
            u64::MAX
        } else {
            v as u64
        }
    }
}

/// The rate over one window, per the admin formula.
pub fn speed_bps(bytes: u64, now_ns: i64, start_ns: i64) -> (r: u64)
    ensures
        r == spec_speed_bps(bytes, now_ns, start_ns),
{
    if now_ns <= start_ns {
        return 0;
    }
    let elapsed = (now_ns as i128 - start_ns as i128) as u128;
    let total = (bytes as u128) * 8 * 1000000000;
    let v = total / elapsed;
    if v > u64::MAX as u128 {
        u64::MAX
    } else {
        v as u64
    }
}

/// `r` reports the node side `c` at instant `now_ns`: identifiers and
/// endpoints copied, each window's rates from the admin formula.
pub open spec fn node_conn_info_matches(r: NodeConnectionInfoResp, c: Connection, now_ns: i64) -> bool {
    &&& r.connect_id == c.connect_id
    &&& r.local_endpoint == c.local_endpoint
    &&& r.remote_endpoint == c.remote_endpoint
    &&& r.create_time == c.create_time
    &&& r.read_speed_1m == spec_speed_bps(c.read_bytes_1m, now_ns, c.start_time_1m)
    &&& r.read_speed_5m == spec_speed_bps(c.read_bytes_5m, now_ns, c.start_time_5m)
    &&& r.read_speed_30m == spec_speed_bps(c.read_bytes_30m, now_ns, c.start_time_30m)
    &&& r.write_speed_1m == spec_speed_bps(c.write_bytes_1m, now_ns, c.start_time_1m)
    &&& r.write_speed_5m == spec_speed_bps(c.write_bytes_5m, now_ns, c.start_time_5m)
    &&& r.write_speed_30m == spec_speed_bps(c.write_bytes_30m, now_ns, c.start_time_30m)
}

/// `r` reports the target side of `t` at instant `now_ns`, including
/// the routed target's identity.
pub open spec fn target_conn_info_matches(r: TargetConnectionInfoResp, t: Tunnel, now_ns: i64) -> bool {
    let c = t.target.connection;
    &&& r.connect_id == c.connect_id
    &&& r.local_endpoint == c.local_endpoint
    &&& r.remote_endpoint == c.remote_endpoint
    &&& r.create_time == c.create_time
    &&& r.read_speed_1m == spec_speed_bps(c.read_bytes_1m, now_ns, c.start_time_1m)
    &&& r.read_speed_5m == spec_speed_bps(c.read_bytes_5m, now_ns, c.start_time_5m)
    &&& r.read_speed_30m == spec_speed_bps(c.read_bytes_30m, now_ns, c.start_time_30m)
    &&& r.write_speed_1m == spec_speed_bps(c.write_bytes_1m, now_ns, c.start_time_1m)
    &&& r.write_speed_5m == spec_speed_bps(c.write_bytes_5m, now_ns, c.start_time_5m)
    &&& r.write_speed_30m == spec_speed_bps(c.write_bytes_30m, now_ns, c.start_time_30m)
    &&& r.target_id == t.target.target_id
}

/// `r` reports the tunnel `t` at instant `now_ns`.
pub open spec fn tunnel_info_matches(r: TunnelInfoResp, t: Tunnel, now_ns: i64) -> bool {
    &&& r.tunnel_id == t.tunnel_id
    &&& node_conn_info_matches(r.node_connection, t.node.connection, now_ns)
    &&& target_conn_info_matches(r.target_connection, t, now_ns)
}

/// `r` reports the registered target `e` under the tunnel table `tbl`.
pub open spec fn target_info_matches(
    r: TargetInfoResp,
    e: RegisteredTargetSpec,
    tbl: Seq<Tunnel>,
) -> bool {
    &&& r.target_id@ == e.target_id
    &&& r.endpoint@ == e.target.target_endpoint
    &&& r.max_conn == e.target.target_max_conn
    &&& r.timeout == e.target.target_timeout
    &&& r.conn_count == count_for_target(tbl, e.target_id) as u32
    &&& r.active == e.target.target_active
}

/// The report of one tunnel at instant `now_ns`.
fn build_tunnel_info(t: &Tunnel, now_ns: i64) -> (r: TunnelInfoResp)
    ensures
        tunnel_info_matches(r, *t, now_ns),
{
    let c = &t.node.connection;
    let node_connection = NodeConnectionInfoResp::new(
        c.connect_id.clone(),
        c.local_endpoint.clone(),
        c.remote_endpoint.clone(),
        c.create_time,
        speed_bps(c.read_bytes_1m, now_ns, c.start_time_1m),
        speed_bps(c.read_bytes_5m, now_ns, c.start_time_5m),
        speed_bps(c.read_bytes_30m, now_ns, c.start_time_30m),
        speed_bps(c.write_bytes_1m, now_ns, c.start_time_1m),
        speed_bps(c.write_bytes_5m, now_ns, c.start_time_5m),
        speed_bps(c.write_bytes_30m, now_ns, c.start_time_30m),
    );
    let tc = &t.target.connection;
    let target_connection = TargetConnectionInfoResp::new(
        tc.connect_id.clone(),
        tc.local_endpoint.clone(),
        tc.remote_endpoint.clone(),
        tc.create_time,
        speed_bps(tc.read_bytes_1m, now_ns, tc.start_time_1m),
        speed_bps(tc.read_bytes_5m, now_ns, tc.start_time_5m),
        speed_bps(tc.read_bytes_30m, now_ns, tc.start_time_30m),
        speed_bps(tc.write_bytes_1m, now_ns, tc.start_time_1m),
        speed_bps(tc.write_bytes_5m, now_ns, tc.start_time_5m),
        speed_bps(tc.write_bytes_30m, now_ns, tc.start_time_30m),
        t.target.target_id.clone(),
    );
    TunnelInfoResp::new(t.tunnel_id.clone(), node_connection, target_connection)
}

/// The live tunnels of `s` that are routed to `target_id`, in table
/// order.
pub open spec fn filter_tunnels_by_target(s: Seq<Tunnel>, target_id: Seq<char>) -> Seq<Tunnel>
    decreases s.len(),
{
    if s.len() == 0 {
        Seq::empty()
    } else {
        let rest = filter_tunnels_by_target(s.drop_last(), target_id);
        if s.last().target.target_id@ == target_id {
            rest.push(s.last())
        } else {
            rest
        }
    }
}

/// The filter grows by at most the one entry considered.
proof fn lemma_filter_tunnels_take_step(s: Seq<Tunnel>, target_id: Seq<char>, i: int)
    requires
        0 <= i < s.len(),
    ensures
        filter_tunnels_by_target(s.take(i + 1), target_id) == if s[i].target.target_id@
            == target_id {
            filter_tunnels_by_target(s.take(i), target_id).push(s[i])
        } else {
            filter_tunnels_by_target(s.take(i), target_id)
        },
{
    assert(s.take(i + 1).drop_last() =~= s.take(i));
    assert(s.take(i + 1).last() == s[i]);
}

/// The request methods the admin surface distinguishes; everything but
/// GET and POST is turned away.
#[derive(Debug, Clone, Copy, PartialEq, Eq, Structural)]
pub enum ApiMethod {
    Get,
    Post,
    Other,
}

/// The admin response: a payload, the static greeting, or an error
/// status (a missing required parameter, or an unknown route).
#[derive(Debug)]
pub enum ApiResponse {
    Hello,
    NodeInfo(NodeInfoResp),
    TargetsInfo(Vec<TargetInfoResp>),
    TunnelInfo(Vec<TunnelInfoResp>),
    MissingField,
    NotFound,
}

/// Relies on `str`'s `PartialEq`: true exactly when the two strings
/// hold the same characters.
#[verifier::external_body]
fn str_eq(a: &str, b: &str) -> (r: bool)
    ensures
        r == (a@ == b@),
{
    a == b
}

/// The percent-decoded name/value pairs of a form-urlencoded byte
/// string; a function of the bytes alone.
pub uninterp spec fn form_pairs_of(bytes: Seq<u8>) -> Seq<(Seq<char>, Seq<char>)>;

/// Relies on `url::form_urlencoded::parse`: yields the percent-decoded
/// name/value pairs in order, and nothing on empty input.
#[verifier::external_body]
fn parse_form_pairs(bytes: &[u8]) -> (r: Vec<(String, String)>)
    ensures
        r.deep_view() == form_pairs_of(bytes@),
        bytes@.len() == 0 ==> r@.len() == 0,
{
    url::form_urlencoded::parse(bytes).into_owned().collect()
}

/// The value of the last pair named `key`, if any: parameters collect
/// into a map where a repeated name keeps its last value.
pub open spec fn spec_lookup_param(
    pairs: Seq<(Seq<char>, Seq<char>)>,
    key: Seq<char>,
) -> Option<Seq<char>>
    decreases pairs.len(),
{
    if pairs.len() == 0 {
        None
    } else if pairs.last().0 == key {
        Some(pairs.last().1)
    } else {
        spec_lookup_param(pairs.drop_last(), key)
    }
}

/// Finds the last pair named `key`.
fn lookup_param(pairs: &Vec<(String, String)>, key: &str) -> (r: Option<String>)
    ensures
        match r {
            Some(v) => spec_lookup_param(pairs.deep_view(), key@) == Some(v@),
            None => spec_lookup_param(pairs.deep_view(), key@) is None,
        },
{
    let ghost pv = pairs.deep_view();
    proof {
        assert(pv.take(pairs@.len() as int) =~= pv);
    }
    let mut i = pairs.len();
    while i > 0
        invariant
            i <= pairs@.len(),
            pv == pairs.deep_view(),
            spec_lookup_param(pv, key@) == spec_lookup_param(pv.take(i as int), key@),
        decreases i,
    {
        i = i - 1;
        proof {
            assert(pv.take(i + 1).drop_last() =~= pv.take(i as int));
            assert(pv.take(i + 1).last() == pv[i as int]);
            assert(pv[i as int] == (pairs@[i as int].0@, pairs@[i as int].1@));
        }
        if str_eq(pairs[i].0.as_str(), key) {
            return Some(pairs[i].1.clone());
        }
    }
    proof {
        assert(pv.take(0) =~= Seq::<(Seq<char>, Seq<char>)>::empty());
    }
    None
}

/// The parameters of a request: those of the query string, or, when it
/// yields none, those of the body.
pub open spec fn spec_request_params(
    query: Option<Seq<u8>>,
    body: Seq<u8>,
) -> Seq<(Seq<char>, Seq<char>)> {
    let from_query = match query {
        Some(q) => form_pairs_of(q),
        None => Seq::empty(),
    };
    if from_query.len() == 0 {
        form_pairs_of(body)
    } else {
        from_query
    }
}

/// The node's figures under the current state.
fn build_node_info(server: &ProxyServer) -> (r: NodeInfoResp)
    ensures
        r.listen == server.server_config.lb_node.listen,
        r.max_conn == server.server_config.lb_node.max_conn,
        r.timeout == server.server_config.lb_node.timeout,
        r.conn_count == server.tunnel_info@.len() as u32,
{
    NodeInfoResp::new(
        server.server_config.lb_node.listen.clone(),
        server.server_config.lb_node.max_conn,
        server.server_config.lb_node.timeout,
        #[verifier::truncate] (server.tunnel_info.len() as u32),
    )
}

/// Every registered target's figures, in registry order, with counts
/// derived from one view of the tunnel table.
fn build_targets_info(server: &ProxyServer) -> (r: Vec<TargetInfoResp>)
    ensures
        r@.len() == server.targets_info@.len(),
        forall|i: int|
            0 <= i < r@.len() ==> target_info_matches(
                #[trigger] r@[i],
                server.targets_info@[i],
                server.tunnel_info@,
            ),
{
    let n = server.targets_info.len();
    let mut out: Vec<TargetInfoResp> = Vec::new();
    for i in 0..n
        invariant
            n == server.targets_info@.len(),
            out@.len() == i,
            forall|j: int|
                0 <= j < i ==> target_info_matches(
                    #[trigger] out@[j],
                    server.targets_info@[j],
                    server.tunnel_info@,
                ),
    {
        let entry = server.targets_info.get_at(i);
        let conn_count = get_target_conn_count_by_target_id(&server.tunnel_info, &entry.target_id);
        let info = TargetInfoResp::new(
            entry.target_id.clone(),
            entry.target.target_endpoint.clone(),
            entry.target.target_max_conn,
            entry.target.target_timeout,
            conn_count,
            entry.target.target_active,
        );
        out.push(info);
    }
    out
}

/// Every live tunnel's report, in table order, at instant `now_ns`.
fn build_tunnel_infos(table: &TunnelTable, now_ns: i64) -> (r: Vec<TunnelInfoResp>)
    ensures
        r@.len() == table@.len(),
        forall|i: int|
            0 <= i < r@.len() ==> tunnel_info_matches(#[trigger] r@[i], table@[i], now_ns),
{
    let tunnels = table.snapshot();
    let n = tunnels.len();
    let mut out: Vec<TunnelInfoResp> = Vec::new();
    for i in 0..n
        invariant
            n == tunnels@.len(),
            tunnels@ == table@,
            out@.len() == i,
            forall|j: int|
                0 <= j < i ==> tunnel_info_matches(#[trigger] out@[j], table@[j], now_ns),
    {
        let info = build_tunnel_info(&tunnels[i], now_ns);
        out.push(info);
    }
    out
}

/// The reports of the tunnels routed to `target_id`, in table order, at
/// instant `now_ns`.
fn build_target_tunnel_infos(table: &TunnelTable, target_id: &String, now_ns: i64) -> (r: Vec<
    TunnelInfoResp,
>)
    ensures
        ({
            let sel = filter_tunnels_by_target(table@, target_id@);
            r@.len() == sel.len() && forall|i: int|
                0 <= i < r@.len() ==> tunnel_info_matches(#[trigger] r@[i], sel[i], now_ns)
        }),
{
    let tunnels = table.snapshot();
    let n = tunnels.len();
    let mut out: Vec<TunnelInfoResp> = Vec::new();
    for i in 0..n
        invariant
            n == tunnels@.len(),
            tunnels@ == table@,
            ({
                let sel = filter_tunnels_by_target(table@.take(i as int), target_id@);
                out@.len() == sel.len() && forall|j: int|
                    0 <= j < out@.len() ==> tunnel_info_matches(#[trigger] out@[j], sel[j], now_ns)
            }),
    {
        proof {
            lemma_filter_tunnels_take_step(table@, target_id@, i as int);
        }
        if str_eq(tunnels[i].target.target_id.as_str(), target_id.as_str()) {
            let info = build_tunnel_info(&tunnels[i], now_ns);
            out.push(info);
        }
    }
    proof {
        assert(table@.take(n as int) =~= table@);
    }
    out
}

/// Handles one admin request against the given state, as of instant
/// `now_ns`: GET and POST share every route; `/` greets;
/// `/api/get_node_info`, `/api/get_targets_info` and
/// `/api/get_tunnel_info` report the state;
/// `/api/get_target_tunnel_info` filters tunnels by the `target_id`
/// parameter (from the query string, else the body) and wants it
/// present; anything else is not found.
pub fn handle_request(
    server: &ProxyServer,
    method: ApiMethod,
    path: &str,
    query: Option<&str>,
    body: &[u8],
    now_ns: i64,
) -> (r: ApiResponse)
    ensures
        method == ApiMethod::Other ==> r is NotFound,
        method != ApiMethod::Other ==> {
            &&& path@ == "/"@ ==> r is Hello
            &&& path@ == "/api/get_node_info"@ ==> (r matches ApiResponse::NodeInfo(n) && {
                &&& n.listen == server.server_config.lb_node.listen
                &&& n.max_conn == server.server_config.lb_node.max_conn
                &&& n.timeout == server.server_config.lb_node.timeout
                &&& n.conn_count == server.tunnel_info@.len() as u32
            })
            &&& path@ == "/api/get_targets_info"@ ==> (r matches ApiResponse::TargetsInfo(v) && {
                &&& v@.len() == server.targets_info@.len()
                &&& forall|i: int|
                    0 <= i < v@.len() ==> target_info_matches(
                        #[trigger] v@[i],
                        server.targets_info@[i],
                        server.tunnel_info@,
                    )
            })
            &&& path@ == "/api/get_tunnel_info"@ ==> (r matches ApiResponse::TunnelInfo(v) && {
                &&& v@.len() == server.tunnel_info@.len()
                &&& forall|i: int|
                    0 <= i < v@.len() ==> tunnel_info_matches(
                        #[trigger] v@[i],
                        server.tunnel_info@[i],
                        now_ns,
                    )
            })
            &&& path@ == "/api/get_target_tunnel_info"@ ==> {
                let params = spec_request_params(
                    match query {
                        Some(q) => Some(q.spec_bytes()),
                        None => None,
                    },
                    body@,
                );
                match spec_lookup_param(params, "target_id"@) {
                    None => r is MissingField,
                    Some(tid) => (r matches ApiResponse::TunnelInfo(v) && {
                        let sel = filter_tunnels_by_target(server.tunnel_info@, tid);
                        &&& v@.len() == sel.len()
                        &&& forall|i: int|
                            0 <= i < v@.len() ==> tunnel_info_matches(
                                #[trigger] v@[i],
                                sel[i],
                                now_ns,
                            )
                    }),
                }
            }
            &&& (path@ != "/"@ && path@ != "/api/get_node_info"@ && path@
                != "/api/get_targets_info"@ && path@ != "/api/get_tunnel_info"@ && path@
                != "/api/get_target_tunnel_info"@) ==> r is NotFound
        },
{
    proof {
        reveal_strlit("/");
        reveal_strlit("/api/get_node_info");
        reveal_strlit("/api/get_targets_info");
        reveal_strlit("/api/get_tunnel_info");
        reveal_strlit("/api/get_target_tunnel_info");
        assert("/"@.len() == 1);
        assert("/api/get_node_info"@.len() == 18);
        assert("/api/get_targets_info"@.len() == 21);
        assert("/api/get_tunnel_info"@.len() == 20);
        assert("/api/get_target_tunnel_info"@.len() == 27);
    }
    if let ApiMethod::Other = method {
        return ApiResponse::NotFound;
    }
    if str_eq(path, "/") {
        ApiResponse::Hello
    } else if str_eq(path, "/api/get_node_info") {
        ApiResponse::NodeInfo(build_node_info(server))
    } else if str_eq(path, "/api/get_targets_info") {
        ApiResponse::TargetsInfo(build_targets_info(server))
    } else if str_eq(path, "/api/get_tunnel_info") {
        ApiResponse::TunnelInfo(build_tunnel_infos(&server.tunnel_info, now_ns))
    } else if str_eq(path, "/api/get_target_tunnel_info") {
        let mut params: Vec<(String, String)> = match query {
            Some(q) => parse_form_pairs(q.as_bytes()),
            None => Vec::new(),
        };
        if params.len() == 0 {
            params = parse_form_pairs(body);
        }
        proof {
            assert(params.deep_view() == spec_request_params(
                match query {
                    Some(q) => Some(q.spec_bytes()),
                    None => None,
                },
                body@,
            ));
        }
        match lookup_param(&params, "target_id") {
            None => ApiResponse::MissingField,
            Some(tid) => ApiResponse::TunnelInfo(
                build_target_tunnel_infos(&server.tunnel_info, &tid, now_ns),
            ),
        }
    } else {
        ApiResponse::NotFound
    }
}

} // verus!
