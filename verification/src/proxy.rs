//! The proxy core: the shared server state, the admission check, the
//! dialer's candidate walk with local-bind rotation, and the constants
//! that bound its I/O.

use vstd::prelude::*;

use crate::config::Config;
use crate::table::TunnelTable;
use crate::target::{TargetDump, TargetRegistry};

verus! {

/// The outbound connect deadline, in seconds: a stalled attempt is
/// abandoned after this long and the next candidate tried.
pub const CONNECT_TIMEOUT_SECS: u64 = 5;

/// The process-wide state: the immutable configuration, the target
/// registry, and the tunnel table.
#[derive(Debug)]
pub struct ProxyServer {
    pub server_config: Config,
    pub targets_info: TargetRegistry,
    pub tunnel_info: TunnelTable,
}

impl ProxyServer {
    /// Both keyed collections are well-formed.
    pub open spec fn wf(self) -> bool {
        self.targets_info.wf() && self.tunnel_info.wf()
    }

    /// The core state for a configuration, with no targets registered
    /// and no tunnels yet.
    pub fn new(server_config: Config) -> (s: ProxyServer)
        ensures
            s.wf(),
            s.server_config == server_config,
            s.targets_info@.len() == 0,
            s.tunnel_info@.len() == 0,
    {
        ProxyServer {
            server_config,
            targets_info: TargetRegistry::new(),
            tunnel_info: TunnelTable::new(),
        }
    }
}

/// The admission check for a new inbound connection: it is refused
/// exactly when the table already holds more than `max_conn` tunnels
/// (the cap is inclusive, so the table can reach `max_conn + 1`
/// entries).
pub fn admit_connection(tunnel_count: usize, max_conn: u32) -> (r: bool)
    ensures
        r == (tunnel_count <= max_conn as usize),
{
    !(tunnel_count > max_conn as usize)
}

/// A dial candidate is viable when its admin flag is on and its observed
/// connection count does not exceed its cap (inclusive at the cap).
pub open spec fn spec_target_viable(d: TargetDump) -> bool {
    d.target.target_active && d.target_conn_count <= d.target.target_max_conn
}

/// Whether the dialer may try this candidate.
pub fn target_viable(d: &TargetDump) -> (r: bool)
    ensures
        r == spec_target_viable(*d),
{
    d.target.target_active && d.target_conn_count <= d.target.target_max_conn
}

/// The next candidate the dialer must try: the first viable entry at or
/// after `start` in the ordered snapshot, skipping inactive and
/// over-cap targets. `None` when no viable candidate remains.
pub fn next_candidate(dumps: &Vec<TargetDump>, start: usize) -> (r: Option<usize>)
    ensures
        match r {
            Some(i) => start <= i < dumps@.len() && spec_target_viable(dumps@[i as int])
                && forall|j: int| start <= j < i ==> !spec_target_viable(#[trigger] dumps@[j]),
            None => forall|j: int|
                start <= j < dumps@.len() ==> !spec_target_viable(#[trigger] dumps@[j]),
        },
{
    let n = dumps.len();
    let mut i = start;
    while i < n
        invariant
            n == dumps@.len(),
            start <= i,
            forall|j: int| start <= j < i ==> !spec_target_viable(#[trigger] dumps@[j]),
        decreases n - i,
    {
        if target_viable(&dumps[i]) {
            return Some(i);
        }
        i = i + 1;
    }
    None
}

/// Which local endpoint the `counter`-th dial binds to: the counter
/// taken round-robin over the configured endpoints.
pub fn local_bind_index(counter: u64, endpoint_count: usize) -> (i: usize)
    requires
        endpoint_count > 0,
    ensures
        i == counter as int % endpoint_count as int,
        i < endpoint_count,
{
    (counter % (endpoint_count as u64)) as usize
}

/// Round-robin rotation: two distinct dials within one window of
/// `endpoint_count` successive counter values bind to distinct local
/// endpoints.
pub proof fn lemma_rotation_distinct_in_window(endpoint_count: usize, a: u64, b: u64)
    requires
        endpoint_count > 0,
        a < b,
        b - a < endpoint_count,
    ensures
        a as int % endpoint_count as int != b as int % endpoint_count as int,
{
    lemma_distinct_residues(endpoint_count as int, a as int, b as int);
}

/// Round-robin rotation: after `endpoint_count` further dials the same
/// local endpoint is bound again.
pub proof fn lemma_rotation_period(endpoint_count: usize, a: u64)
    requires
        endpoint_count > 0,
        a + endpoint_count <= u64::MAX,
    ensures
        a as int % endpoint_count as int == (a + endpoint_count) as int % endpoint_count as int,
{
    let n = endpoint_count as int;
    let x = a as int;
    vstd::arithmetic::div_mod::lemma_mod_add_multiples_vanish(x, n);
}

/// How many counters in `[start, start + len)` bind to endpoint index
/// `r` when `n` endpoints rotate.
pub open spec fn bind_hits(start: int, len: nat, n: int, r: int) -> nat
    decreases len,
{
    if len == 0 {
        0
    } else {
        bind_hits(start, (len - 1) as nat, n, r) + if (start + len - 1) % n == r {
            1nat
        } else {
            0nat
        }
    }
}

/// In `[start, start + m)` the only counter congruent to `r` is `h`, so
/// the hit count is 1 once the window has passed `h` and 0 before.
proof fn lemma_bind_hits_single(start: int, m: nat, n: int, r: int, h: int)
    requires
        n > 0,
        0 <= r < n,
        start <= h < start + n,
        h % n == r,
        m <= n,
        forall|c: int| start <= c < start + n && #[trigger] (c % n) == r ==> c == h,
    ensures
        bind_hits(start, m, n, r) == if h < start + m {
            1nat
        } else {
            0nat
        },
    decreases m,
{
    if m > 0 {
        lemma_bind_hits_single(start, (m - 1) as nat, n, r, h);
    }
}

/// One full window of `n` successive counters binds every endpoint
/// exactly once.
proof fn lemma_bind_hits_window(start: int, n: int, r: int)
    requires
        n > 0,
        0 <= r < n,
        0 <= start,
    ensures
        bind_hits(start, n as nat, n, r) == 1,
{
    let offset = (r - start % n + n) % n;
    let h = start + offset;
    vstd::arithmetic::div_mod::lemma_mod_bound(r - start % n + n, n);
    vstd::arithmetic::div_mod::lemma_mod_bound(start, n);
    assert(0 <= offset < n);
    assert(h % n == r) by {
        let sm = start % n;
        let t = r - sm + n;
        vstd::arithmetic::div_mod::lemma_add_mod_noop(start, offset, n);
        vstd::arithmetic::div_mod::lemma_small_mod(offset as nat, n as nat);
        vstd::arithmetic::div_mod::lemma_mod_twice(start, n);
        vstd::arithmetic::div_mod::lemma_add_mod_noop(sm, t, n);
        assert(sm + t == r + n);
        vstd::arithmetic::div_mod::lemma_mod_add_multiples_vanish(r, n);
        vstd::arithmetic::div_mod::lemma_small_mod(r as nat, n as nat);
    }
    assert forall|c: int| start <= c < start + n && #[trigger] (c % n) == r implies c == h by {
        if c < h {
            lemma_distinct_residues(n, c, h);
        }
        if c > h {
            lemma_distinct_residues(n, h, c);
        }
    }
    lemma_bind_hits_single(start, n as nat, n, r, h);
}

/// Two integers less than `n` apart have distinct residues.
proof fn lemma_distinct_residues(n: int, x: int, y: int)
    requires
        n > 0,
        x < y,
        y - x < n,
    ensures
        x % n != y % n,
{
    vstd::arithmetic::div_mod::lemma_fundamental_div_mod(x, n);
    vstd::arithmetic::div_mod::lemma_fundamental_div_mod(y, n);
    if x % n == y % n {
        let d = y / n - x / n;
        assert(y - x == n * d) by (nonlinear_arith)
            requires
                d == y / n - x / n && x == n * (x / n) + x % n && y == n * (y / n) + y % n && x % n
                    == y % n,
        ;
        assert(d > 0) by {
            if d <= 0 {
                assert(n * d <= 0) by (nonlinear_arith)
                    requires
                        n > 0 && d <= 0,
                ;
            }
        }
        assert(n * d >= n) by (nonlinear_arith)
            requires
                d >= 1 && n > 0,
        ;
    }
}

/// Splitting a window splits its hit count.
proof fn lemma_bind_hits_add(start: int, len1: nat, len2: nat, n: int, r: int)
    ensures
        bind_hits(start, (len1 + len2) as nat, n, r) == bind_hits(start, len1, n, r) + bind_hits(
            start + len1,
            len2,
            n,
            r,
        ),
    decreases len2,
{
    if len2 > 0 {
        lemma_bind_hits_add(start, len1, (len2 - 1) as nat, n, r);
    }
}

/// Fair rotation: over `k` full windows of `endpoint_count` successive
/// dials, every local endpoint is bound exactly `k` times.
pub proof fn lemma_rotation_fair_share(endpoint_count: usize, start: u64, k: nat, r: int)
    requires
        endpoint_count > 0,
        0 <= r < endpoint_count,
    ensures
        bind_hits(start as int, (k * endpoint_count) as nat, endpoint_count as int, r) == k,
    decreases k,
{
    let n = endpoint_count as int;
    if k == 0 {
        assert((k * endpoint_count) as nat == 0) by (nonlinear_arith)
            requires
                k == 0,
        ;
    } else {
        lemma_rotation_fair_share(endpoint_count, start, (k - 1) as nat, r);
        assert(k * endpoint_count == (k - 1) * endpoint_count + endpoint_count) by (nonlinear_arith);
        lemma_bind_hits_add(start as int, ((k - 1) * endpoint_count) as nat, endpoint_count as nat, n, r);
        lemma_bind_hits_window(start as int + ((k - 1) * endpoint_count) as nat, n, r);
        assert(0 <= (k - 1) * endpoint_count) by (nonlinear_arith)
            requires
                k >= 1 && endpoint_count > 0,
        ;
    }
}

} // verus!
