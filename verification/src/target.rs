//! Configured backends ("targets"), the registry keyed by `target_id`
//! (the md5 of the target endpoint), and the snapshot-with-live-counts
//! query that the selector orders.

use vstd::prelude::*;

use crate::config::{Config, TargetConfig};
use crate::table::{count_for_target, TunnelTable};

verus! {

/// How a dump of the registry is ordered: not at all, ascending by live
/// connection count, or descending.
#[derive(Debug, Clone, Copy)]
pub enum TargetDumpOrder {
    NoOrder,
    AscOrder,
    DescOrder,
}

/// One configured backend: endpoint, admin flags, capacity and deadline.
#[derive(Debug)]
pub struct Target {
    pub target_endpoint: String,
    pub target_active: bool,
    pub target_status: bool,
    pub target_max_conn: u32,
    pub target_timeout: u32,
}

/// Ghost image of a `Target`.
pub struct TargetSpec {
    pub target_endpoint: Seq<char>,
    pub target_active: bool,
    pub target_status: bool,
    pub target_max_conn: u32,
    pub target_timeout: u32,
}

impl View for Target {
    type V = TargetSpec;

    open spec fn view(&self) -> TargetSpec {
        TargetSpec {
            target_endpoint: self.target_endpoint@,
            target_active: self.target_active,
            target_status: self.target_status,
            target_max_conn: self.target_max_conn,
            target_timeout: self.target_timeout,
        }
    }
}

impl Clone for Target {
    /// An exact copy.
    fn clone(&self) -> (r: Self)
        ensures
            r == *self,
    {
        Target {
            target_endpoint: self.target_endpoint.clone(),
            target_active: self.target_active,
            target_status: self.target_status,
            target_max_conn: self.target_max_conn,
            target_timeout: self.target_timeout,
        }
    }
}

impl Target {
    /// A target with the given fields.
    pub fn new(
        target_endpoint: String,
        target_max_conn: u32,
        target_timeout: u32,
        target_active: bool,
        target_status: bool,
    ) -> (t: Target)
        ensures
            t == (Target { target_endpoint, target_active, target_status, target_max_conn, target_timeout }),
    {
        Target { target_endpoint, target_active, target_status, target_max_conn, target_timeout }
    }
}

/// The stable identity of the target with this endpoint: the lowercase
/// hex md5 digest of the endpoint string.
pub uninterp spec fn md5_hex_of(s: Seq<char>) -> Seq<char>;

/// Relies on `md5::compute` and md5's `LowerHex` rendering of the
/// 16-byte digest (two lowercase hex digits per byte, 32 characters in
/// all); the digest is a function of the input alone.
#[verifier::external_body]
pub fn calc_target_id_by_endpoint(endpoint: String) -> (r: String)
    ensures
        r@ == md5_hex_of(endpoint@),
        r@.len() == 32,
{
    let digest = md5::compute(endpoint.as_str());
    format!("{:x}", digest)
}

/// The identity is deterministic: equal endpoint strings always yield
/// the same `target_id`, so the registry, the tunnel records and the
/// admin api all name a target alike.
pub proof fn lemma_target_id_deterministic(a: Seq<char>, b: Seq<char>)
    requires
        a == b,
    ensures
        md5_hex_of(a) == md5_hex_of(b),
{
}

/// A registry entry: a target and its stable identity.
#[derive(Debug)]
pub struct RegisteredTarget {
    pub target_id: String,
    pub target: Target,
}

/// Ghost image of a registry entry.
pub struct RegisteredTargetSpec {
    pub target_id: Seq<char>,
    pub target: TargetSpec,
}

impl View for RegisteredTarget {
    type V = RegisteredTargetSpec;

    open spec fn view(&self) -> RegisteredTargetSpec {
        RegisteredTargetSpec { target_id: self.target_id@, target: self.target@ }
    }
}

/// The registry image that one configured target contributes: identity
/// derived from the endpoint, `target_status` true at startup.
pub open spec fn spec_registered_of(tc: TargetConfig) -> RegisteredTargetSpec {
    RegisteredTargetSpec {
        target_id: md5_hex_of(tc.target_endpoint@),
        target: TargetSpec {
            target_endpoint: tc.target_endpoint@,
            target_active: tc.target_active,
            target_status: true,
            target_max_conn: tc.target_max_conn,
            target_timeout: tc.target_timeout,
        },
    }
}

/// The first index whose entry carries `id`, or -1.
pub open spec fn first_index_of_target_id(s: Seq<RegisteredTargetSpec>, id: Seq<char>) -> int
    decreases s.len(),
{
    if s.len() == 0 {
        -1
    } else if s[0].target_id == id {
        0
    } else {
        let r = first_index_of_target_id(s.drop_first(), id);
        if r == -1 {
            -1
        } else {
            r + 1
        }
    }
}

/// `s` after registering `e`: the entry already carrying the identity is
/// overwritten, otherwise `e` is appended.
pub open spec fn spec_register(
    s: Seq<RegisteredTargetSpec>,
    e: RegisteredTargetSpec,
) -> Seq<RegisteredTargetSpec> {
    let i = first_index_of_target_id(s, e.target_id);
    if i == -1 {
        s.push(e)
    } else {
        s.update(i, e)
    }
}

/// `s` after registering every configured target, in order.
pub open spec fn spec_init_targets(
    s: Seq<RegisteredTargetSpec>,
    cfgs: Seq<TargetConfig>,
) -> Seq<RegisteredTargetSpec>
    decreases cfgs.len(),
{
    if cfgs.len() == 0 {
        s
    } else {
        spec_register(spec_init_targets(s, cfgs.drop_last()), spec_registered_of(cfgs.last()))
    }
}

/// No two registry entries carry the same identity.
pub open spec fn distinct_target_ids(s: Seq<RegisteredTargetSpec>) -> bool {
    forall|i: int, j: int| 0 <= i < j < s.len() ==> s[i].target_id != s[j].target_id
}

/// When no entry matches, `first_index_of_target_id` finds -1.
proof fn lemma_first_index_absent(s: Seq<RegisteredTargetSpec>, id: Seq<char>)
    requires
        forall|j: int| 0 <= j < s.len() ==> s[j].target_id != id,
    ensures
        first_index_of_target_id(s, id) == -1,
    decreases s.len(),
{
    if s.len() > 0 {
        assert(forall|j: int| 0 <= j < s.len() - 1 ==> s.drop_first()[j] == s[j + 1]);
        lemma_first_index_absent(s.drop_first(), id);
    }
}

/// `first_index_of_target_id` finds the first matching index.
proof fn lemma_first_index_found(s: Seq<RegisteredTargetSpec>, id: Seq<char>, k: int)
    requires
        0 <= k < s.len(),
        s[k].target_id == id,
        forall|j: int| 0 <= j < k ==> s[j].target_id != id,
    ensures
        first_index_of_target_id(s, id) == k,
    decreases s.len(),
{
    if s[0].target_id == id {
        assert(k == 0);
    } else {
        assert(forall|j: int| 0 <= j < s.len() - 1 ==> s.drop_first()[j] == s[j + 1]);
        lemma_first_index_found(s.drop_first(), id, k - 1);
    }
}

/// The set of configured backends, keyed by identity.
#[derive(Debug)]
pub struct TargetRegistry {
    entries: Vec<RegisteredTarget>,
}

impl View for TargetRegistry {
    type V = Seq<RegisteredTargetSpec>;

    closed spec fn view(&self) -> Seq<RegisteredTargetSpec> {
        Seq::new(self.entries@.len(), |i: int| self.entries@[i]@)
    }
}

impl TargetRegistry {
    /// Identities are pairwise distinct.
    pub open spec fn wf(self) -> bool {
        distinct_target_ids(self@)
    }

    /// An empty registry.
    pub fn new() -> (r: TargetRegistry)
        ensures
            r@ == Seq::<RegisteredTargetSpec>::empty(),
            r.wf(),
    {
        let r = TargetRegistry { entries: Vec::new() };
        proof {
            assert(r@ =~= Seq::<RegisteredTargetSpec>::empty());
        }
        r
    }

    /// The number of registered targets.
    pub fn len(&self) -> (n: usize)
        ensures
            n == self@.len(),
    {
        self.entries.len()
    }

    /// The entry at index `i`.
    pub fn get_at(&self, i: usize) -> (r: &RegisteredTarget)
        requires
            i < self@.len(),
        ensures
            r@ == self@[i as int],
    {
        &self.entries[i]
    }

    /// The index of the entry carrying `target_id`, if any; earlier
    /// entries do not carry it.
    fn find_index(&self, target_id: &String) -> (r: Option<usize>)
        ensures
            match r {
                Some(i) => i < self@.len() && self@[i as int].target_id == target_id@ && forall|
                    j: int,
                |
                    0 <= j < i ==> self@[j].target_id != target_id@,
                None => forall|j: int| 0 <= j < self@.len() ==> self@[j].target_id != target_id@,
            },
    {
        let n = self.entries.len();
        for i in 0..n
            invariant
                n == self@.len(),
                forall|j: int| 0 <= j < i ==> self@[j].target_id != target_id@,
        {
            if self.entries[i].target_id == *target_id {
                proof {
                    assert(self@[i as int].target_id == target_id@);
                }
                return Some(i);
            }
        }
        None
    }

    /// Registers `target` under `target_id`: overwrites the entry already
    /// carrying that identity, or appends a new one.
    pub fn insert(&mut self, target_id: String, target: Target)
        requires
            old(self).wf(),
        ensures
            final(self).wf(),
            final(self)@ == spec_register(
                old(self)@,
                RegisteredTargetSpec { target_id: target_id@, target: target@ },
            ),
    {
        let ghost entry_spec = RegisteredTargetSpec { target_id: target_id@, target: target@ };
        match self.find_index(&target_id) {
            Some(i) => {
                proof {
                    lemma_first_index_found(self@, target_id@, i as int);
                }
                let entry = RegisteredTarget { target_id, target };
                let ghost entry_val = entry;
                self.entries[i] = entry;
                proof {
                    assert(self.entries@[i as int] == entry_val);
                    assert(entry_val@ == entry_spec);
                    assert forall|m: int| 0 <= m < self@.len() implies self@[m] == old(
                        self,
                    )@.update(i as int, entry_spec)[m] by {
                        if m != i {
                            assert(self.entries@[m] == old(self).entries@[m]);
                        }
                    }
                    assert(self@ =~= old(self)@.update(i as int, entry_spec));
                    assert(forall|m: int|
                        0 <= m < self@.len() && m != i ==> self@[m] == old(self)@[m]);
                    assert(self.wf());
                }
            },
            None => {
                proof {
                    lemma_first_index_absent(self@, target_id@);
                }
                let entry = RegisteredTarget { target_id, target };
                let ghost entry_val = entry;
                self.entries.push(entry);
                proof {
                    assert(self.entries@.last() == entry_val);
                    assert(entry_val@ == entry_spec);
                    assert forall|m: int| 0 <= m < self@.len() implies self@[m] == old(
                        self,
                    )@.push(entry_spec)[m] by {
                        if m < self@.len() - 1 {
                            assert(self.entries@[m] == old(self).entries@[m]);
                        }
                    }
                    assert(self@ =~= old(self)@.push(entry_spec));
                    assert(forall|m: int|
                        0 <= m < self@.len() - 1 ==> self@[m] == old(self)@[m]);
                    assert(self.wf());
                }
            },
        }
    }
}

/// Fills the registry from the configured targets, in order: each gets
/// the identity derived from its endpoint and starts with
/// `target_status` true.
pub fn init_targets_from_config(registry: &mut TargetRegistry, config: &Config)
    requires
        old(registry).wf(),
    ensures
        final(registry).wf(),
        final(registry)@ == spec_init_targets(old(registry)@, config.lb_targets@),
{
    let n = config.lb_targets.len();
    for idx in 0..n
        invariant
            n == config.lb_targets@.len(),
            registry.wf(),
            registry@ == spec_init_targets(old(registry)@, config.lb_targets@.take(idx as int)),
    {
        let tc = &config.lb_targets[idx];
        let target = Target::new(
            tc.target_endpoint.clone(),
            tc.target_max_conn,
            tc.target_timeout,
            tc.target_active,
            true,
        );
        let target_id = calc_target_id_by_endpoint(target.target_endpoint.clone());
        registry.insert(target_id, target);
        proof {
            let cfgs = config.lb_targets@;
            assert(cfgs.take(idx + 1).drop_last() =~= cfgs.take(idx as int));
            assert(cfgs.take(idx + 1).last() == cfgs[idx as int]);
        }
    }
    proof {
        assert(config.lb_targets@.take(n as int) =~= config.lb_targets@);
    }
}

/// A target together with its live connection count at snapshot time.
#[derive(Debug)]
pub struct TargetDump {
    pub target: Target,
    pub target_conn_count: u32,
}

impl Clone for TargetDump {
    /// An exact copy.
    fn clone(&self) -> (r: Self)
        ensures
            r == *self,
    {
        TargetDump { target: self.target.clone(), target_conn_count: self.target_conn_count }
    }
}

impl TargetDump {
    /// A snapshot entry with the given fields.
    pub fn new(
        target_endpoint: String,
        target_max_conn: u32,
        target_conn_count: u32,
        target_timeout: u32,
        target_active: bool,
        target_status: bool,
    ) -> (d: TargetDump)
        ensures
            d.target == (Target {
                target_endpoint,
                target_active,
                target_status,
                target_max_conn,
                target_timeout,
            }),
            d.target_conn_count == target_conn_count,
    {
        TargetDump {
            target: Target::new(
                target_endpoint,
                target_max_conn,
                target_timeout,
                target_active,
                target_status,
            ),
            target_conn_count,
        }
    }
}

/// The snapshot entry at index `i` reflects registry entry `e` under the
/// tunnel table `tbl`: same target, and the connection count derived
/// from the table for that identity.
pub open spec fn dump_matches(d: TargetDump, e: RegisteredTargetSpec, tbl: Seq<crate::table::Tunnel>) -> bool {
    &&& d.target@ == e.target
    &&& d.target_conn_count == count_for_target(tbl, e.target_id) as u32
}

/// `base` is the unordered snapshot of the whole registry under `tbl`.
pub open spec fn base_dump_matches(
    base: Seq<TargetDump>,
    reg: Seq<RegisteredTargetSpec>,
    tbl: Seq<crate::table::Tunnel>,
) -> bool {
    &&& base.len() == reg.len()
    &&& forall|i: int| 0 <= i < reg.len() ==> dump_matches(#[trigger] base[i], reg[i], tbl)
}

/// Snapshot entries ordered by live connection count, ascending when
/// `asc`, else descending.
pub open spec fn sorted_by_count(s: Seq<TargetDump>, asc: bool) -> bool {
    forall|i: int, j: int|
        0 <= i < j < s.len() ==> if asc {
            (#[trigger] s[i]).target_conn_count <= (#[trigger] s[j]).target_conn_count
        } else {
            s[i].target_conn_count >= s[j].target_conn_count
        }
}

/// Sorts snapshot entries by connection count; the result is a
/// rearrangement of the input.
fn sort_dumps(v: Vec<TargetDump>, asc: bool) -> (r: Vec<TargetDump>)
    ensures
        r@.to_multiset() == v@.to_multiset(),
        r@.len() == v@.len(),
        sorted_by_count(r@, asc),
{
    broadcast use vstd::seq_lib::group_to_multiset_ensures;

    let mut rest = v;
    let mut out: Vec<TargetDump> = Vec::new();
    proof {
        assert(out@.to_multiset().add(rest@.to_multiset()) =~= rest@.to_multiset());
    }
    while rest.len() > 0
        invariant
            out@.to_multiset().add(rest@.to_multiset()) == v@.to_multiset(),
            out@.len() + rest@.len() == v@.len(),
            sorted_by_count(out@, asc),
            forall|i: int, j: int|
                0 <= i < out@.len() && 0 <= j < rest@.len() ==> if asc {
                    (#[trigger] out@[i]).target_conn_count <= (#[trigger] rest@[j]).target_conn_count
                } else {
                    out@[i].target_conn_count >= rest@[j].target_conn_count
                },
        decreases rest.len(),
    {
        let mut k: usize = 0;
        let mut i: usize = 1;
        while i < rest.len()
            invariant
                rest@.len() > 0,
                k < i <= rest@.len(),
                forall|j: int|
                    0 <= j < i ==> if asc {
                        (#[trigger] rest@[j]).target_conn_count >= rest@[k as int].target_conn_count
                    } else {
                        rest@[j].target_conn_count <= rest@[k as int].target_conn_count
                    },
            decreases rest.len() - i,
        {
            let better = if asc {
                rest[i].target_conn_count < rest[k].target_conn_count
            } else {
                rest[i].target_conn_count > rest[k].target_conn_count
            };
            if better {
                k = i;
            }
            i = i + 1;
        }
        let ghost old_out = out@;
        let ghost old_rest = rest@;
        let x = rest.remove(k);
        out.push(x);
        proof {
            broadcast use vstd::multiset::group_multiset_axioms;

            old_out.to_multiset_ensures();
            old_rest.to_multiset_ensures();
            assert(old_rest[k as int] == x);
            assert(old_rest.contains(x));
            assert(old_rest.to_multiset().count(x) > 0);
            assert(out@ == old_out.push(x));
            assert(old_out.push(x).to_multiset() =~= old_out.to_multiset().insert(x));
            assert(rest@ == old_rest.remove(k as int));
            assert(old_rest.remove(k as int).to_multiset() == old_rest.to_multiset().remove(
                old_rest[k as int],
            ));
            assert(out@.to_multiset().add(rest@.to_multiset()) =~= old_out.to_multiset().add(
                old_rest.to_multiset(),
            ));
        }
    }
    proof {
        broadcast use vstd::multiset::group_multiset_axioms;

        rest@.to_multiset_ensures();
        assert(rest@ =~= Seq::<TargetDump>::empty());
        assert(rest@.to_multiset().len() == 0);
        assert(out@.to_multiset().add(rest@.to_multiset()) =~= out@.to_multiset());
    }
    out
}

/// The snapshot-with-live-counts query: one entry per registered target,
/// its count derived from the tunnel table, ordered as asked. All counts
/// derive from the same table value, so the ordering reflects one
/// coherent moment.
pub fn dump_targets(registry: &TargetRegistry, table: &TunnelTable, order: TargetDumpOrder) -> (r:
    Vec<TargetDump>)
    ensures
        r@.len() == registry@.len(),
        match order {
            TargetDumpOrder::NoOrder => base_dump_matches(r@, registry@, table@),
            TargetDumpOrder::AscOrder => sorted_by_count(r@, true) && exists|base: Seq<TargetDump>|
                base_dump_matches(base, registry@, table@) && r@.to_multiset()
                    == base.to_multiset(),
            TargetDumpOrder::DescOrder => sorted_by_count(r@, false) && exists|
                base: Seq<TargetDump>,
            |
                base_dump_matches(base, registry@, table@) && r@.to_multiset()
                    == base.to_multiset(),
        },
{
    let n = registry.len();
    let mut base: Vec<TargetDump> = Vec::new();
    for i in 0..n
        invariant
            n == registry@.len(),
            base@.len() == i,
            forall|j: int| 0 <= j < i ==> dump_matches(#[trigger] base@[j], registry@[j], table@),
    {
        let entry = registry.get_at(i);
        let target_conn_count = crate::table::get_target_conn_count_by_target_id(
            table,
            &entry.target_id,
        );
        let dump = TargetDump { target: entry.target.clone(), target_conn_count };
        base.push(dump);
    }
    let ghost base_view = base@;
    match order {
        TargetDumpOrder::NoOrder => base,
        TargetDumpOrder::AscOrder => {
            let r = sort_dumps(base, true);
            proof {
                assert(base_dump_matches(base_view, registry@, table@) && r@.to_multiset()
                    == base_view.to_multiset());
            }
            r
        },
        TargetDumpOrder::DescOrder => {
            let r = sort_dumps(base, false);
            proof {
                assert(base_dump_matches(base_view, registry@, table@) && r@.to_multiset()
                    == base_view.to_multiset());
            }
            r
        },
    }
}

/// In an ascending snapshot, every entry with a strictly lower live
/// count stands before every entry with a higher one: the dialer tries
/// the least-loaded targets first.
pub proof fn lemma_least_connections_first(s: Seq<TargetDump>)
    requires
        sorted_by_count(s, true),
    ensures
        forall|i: int, j: int|
            0 <= i < s.len() && 0 <= j < s.len() && (#[trigger] s[i]).target_conn_count < (
            #[trigger] s[j]).target_conn_count ==> i < j,
{
}

} // verus!
