//! The tunnel table: the process-wide mapping from tunnel identifier to
//! the tunnel's two endpoint records. It is the single source of truth
//! for live tunnels and their byte counters.

use vstd::prelude::*;

use crate::connection::{
    spec_add_read, spec_add_write, spec_reset_1m, spec_reset_30m, spec_reset_5m, read_fits,
    write_fits, Connection, NodeConnection, TargetConnection,
};

verus! {

/// Which side of a tunnel an I/O event belongs to.
#[derive(Debug, Clone, Copy, PartialEq, Eq, Structural)]
pub enum Side {
    Node,
    Target,
}

/// One live tunnel: its identifier and the two endpoint records.
#[derive(Debug)]
pub struct Tunnel {
    pub tunnel_id: String,
    pub node: NodeConnection,
    pub target: TargetConnection,
}

impl Clone for Tunnel {
    /// An exact copy.
    fn clone(&self) -> (r: Self)
        ensures
            r == *self,
    {
        Tunnel {
            tunnel_id: self.tunnel_id.clone(),
            node: self.node.clone(),
            target: self.target.clone(),
        }
    }
}

/// No two entries carry the same tunnel identifier.
pub open spec fn distinct_tunnel_ids(s: Seq<Tunnel>) -> bool {
    forall|i: int, j: int|
        0 <= i < j < s.len() ==> s[i].tunnel_id@ != s[j].tunnel_id@
}

/// Some entry carries the identifier `id`.
pub open spec fn contains_tunnel_id(s: Seq<Tunnel>, id: Seq<char>) -> bool {
    exists|i: int| 0 <= i < s.len() && #[trigger] s[i].tunnel_id@ == id
}

/// How many entries are routed to the target identified by `target_id`.
pub open spec fn count_for_target(s: Seq<Tunnel>, target_id: Seq<char>) -> nat
    decreases s.len(),
{
    if s.len() == 0 {
        0
    } else {
        count_for_target(s.drop_last(), target_id) + if s.last().target.target_id@
            == target_id {
            1nat
        } else {
            0nat
        }
    }
}

/// A tunnel routed to `target_id` counts toward that target, no others do.
proof fn lemma_count_for_target_take_step(s: Seq<Tunnel>, target_id: Seq<char>, i: int)
    requires
        0 <= i < s.len(),
    ensures
        count_for_target(s.take(i + 1), target_id) == count_for_target(s.take(i), target_id) + if s[
            i
        ].target.target_id@ == target_id {
            1nat
        } else {
            0nat
        },
{
    assert(s.take(i + 1).drop_last() =~= s.take(i));
    assert(s.take(i + 1).last() == s[i]);
}

/// The count for a target never exceeds the number of entries.
pub proof fn lemma_count_for_target_le_len(s: Seq<Tunnel>, target_id: Seq<char>)
    ensures
        count_for_target(s, target_id) <= s.len(),
    decreases s.len(),
{
    if s.len() > 0 {
        lemma_count_for_target_le_len(s.drop_last(), target_id);
    }
}

/// A tunnel identifier keys at most one live tunnel.
pub proof fn lemma_tunnel_id_at_most_once(s: Seq<Tunnel>, id: Seq<char>)
    requires
        distinct_tunnel_ids(s),
    ensures
        forall|i: int, j: int|
            0 <= i < s.len() && 0 <= j < s.len() && s[i].tunnel_id@ == id && s[j].tunnel_id@ == id
                ==> i == j,
{
}

/// The process-wide table of live tunnels, keyed by `tunnel_id`.
///
/// The view is the sequence of entries; well-formedness says the
/// identifiers are pairwise distinct, so the sequence denotes a map.
#[derive(Debug)]
pub struct TunnelTable {
    entries: Vec<Tunnel>,
}

impl View for TunnelTable {
    type V = Seq<Tunnel>;

    closed spec fn view(&self) -> Seq<Tunnel> {
        self.entries@
    }
}

impl TunnelTable {
    /// Identifiers are pairwise distinct.
    pub open spec fn wf(self) -> bool {
        distinct_tunnel_ids(self@)
    }

    /// An empty table.
    pub fn new() -> (r: TunnelTable)
        ensures
            r@ == Seq::<Tunnel>::empty(),
            r.wf(),
    {
        TunnelTable { entries: Vec::new() }
    }

    /// The number of live tunnels.
    pub fn len(&self) -> (n: usize)
        ensures
            n == self@.len(),
    {
        self.entries.len()
    }

    /// The index of the entry carrying `tunnel_id`, if any.
    fn find_index(&self, tunnel_id: &String) -> (r: Option<usize>)
        ensures
            match r {
                Some(i) => i < self@.len() && self@[i as int].tunnel_id@ == tunnel_id@,
                None => !contains_tunnel_id(self@, tunnel_id@),
            },
    {
        let n = self.entries.len();
        for i in 0..n
            invariant
                n == self@.len(),
                forall|j: int| 0 <= j < i ==> self@[j].tunnel_id@ != tunnel_id@,
        {
            if self.entries[i].tunnel_id == *tunnel_id {
                return Some(i);
            }
        }
        None
    }

    /// Installs `t` under its identifier: overwrites the entry already
    /// carrying that identifier, or appends a new one.
    pub fn insert(&mut self, t: Tunnel)
        requires
            old(self).wf(),
        ensures
            final(self).wf(),
            contains_tunnel_id(old(self)@, t.tunnel_id@) ==> exists|i: int|
                0 <= i < old(self)@.len() && old(self)@[i].tunnel_id@ == t.tunnel_id@ && final(self)@ == old(self)@.update(i, t),
            !contains_tunnel_id(old(self)@, t.tunnel_id@) ==> final(self)@ == old(self)@.push(t),
    {
        match self.find_index(&t.tunnel_id) {
            Some(i) => {
                self.entries[i] = t;
            },
            None => {
                self.entries.push(t);
            },
        }
    }

    /// Removes the entry carrying `tunnel_id` if it is present; the
    /// identifier is not found afterwards either way.
    pub fn remove(&mut self, tunnel_id: &String) -> (removed: bool)
        requires
            old(self).wf(),
        ensures
            final(self).wf(),
            removed == contains_tunnel_id(old(self)@, tunnel_id@),
            removed ==> exists|i: int|
                0 <= i < old(self)@.len() && old(self)@[i].tunnel_id@ == tunnel_id@ && final(self)@ == old(self)@.remove(i),
            !removed ==> final(self)@ == old(self)@,
            !contains_tunnel_id(final(self)@, tunnel_id@),
            final(self)@.len() == old(self)@.len() - if removed {
                1int
            } else {
                0int
            },
    {
        match self.find_index(tunnel_id) {
            Some(i) => {
                self.entries.remove(i);
                true
            },
            None => false,
        }
    }

    /// The entry carrying `tunnel_id`, if any.
    pub fn get(&self, tunnel_id: &String) -> (r: Option<&Tunnel>)
        ensures
            match r {
                Some(t) => exists|i: int|
                    0 <= i < self@.len() && self@[i] == *t && #[trigger] self@[i].tunnel_id@
                        == tunnel_id@,
                None => !contains_tunnel_id(self@, tunnel_id@),
            },
    {
        match self.find_index(tunnel_id) {
            Some(i) => Some(&self.entries[i]),
            None => None,
        }
    }

    /// A point-in-time copy of every entry, in table order.
    pub fn snapshot(&self) -> (r: Vec<Tunnel>)
        ensures
            r@ == self@,
    {
        let n = self.entries.len();
        let mut out: Vec<Tunnel> = Vec::new();
        for i in 0..n
            invariant
                n == self@.len(),
                out@ =~= self@.take(i as int),
        {
            out.push(self.entries[i].clone());
        }
        proof {
            assert(self@.take(n as int) =~= self@);
        }
        out
    }

    /// Adds `n` to the read counters (all windows) of the given side of
    /// the tunnel carrying `tunnel_id`; no other entry changes. Reports
    /// whether the tunnel was found.
    pub fn credit_read(&mut self, tunnel_id: &String, side: Side, n: u64) -> (found: bool)
        requires
            old(self).wf(),
            forall|i: int|
                0 <= i < old(self)@.len() && #[trigger] old(self)@[i].tunnel_id@ == tunnel_id@
                    ==> read_fits(side_connection(old(self)@[i], side), n),
        ensures
            final(self).wf(),
            found == contains_tunnel_id(old(self)@, tunnel_id@),
            found ==> exists|i: int|
                0 <= i < old(self)@.len() && #[trigger] old(self)@[i].tunnel_id@ == tunnel_id@
                    && final(self)@ == old(self)@.update(i, spec_credit_read(old(self)@[i], side, n)),
            !found ==> final(self)@ == old(self)@,
    {
        match self.find_index(tunnel_id) {
            Some(i) => {
                let e = &mut self.entries[i];
                match side {
                    Side::Node => e.node.add_read_n(n),
                    Side::Target => e.target.add_read_n(n),
                }
                true
            },
            None => false,
        }
    }

    /// Adds `n` to the write counters (all windows) of the given side of
    /// the tunnel carrying `tunnel_id`; no other entry changes. Reports
    /// whether the tunnel was found.
    pub fn credit_write(&mut self, tunnel_id: &String, side: Side, n: u64) -> (found: bool)
        requires
            old(self).wf(),
            forall|i: int|
                0 <= i < old(self)@.len() && #[trigger] old(self)@[i].tunnel_id@ == tunnel_id@
                    ==> write_fits(side_connection(old(self)@[i], side), n),
        ensures
            final(self).wf(),
            found == contains_tunnel_id(old(self)@, tunnel_id@),
            found ==> exists|i: int|
                0 <= i < old(self)@.len() && #[trigger] old(self)@[i].tunnel_id@ == tunnel_id@
                    && final(self)@ == old(self)@.update(i, spec_credit_write(old(self)@[i], side, n)),
            !found ==> final(self)@ == old(self)@,
    {
        match self.find_index(tunnel_id) {
            Some(i) => {
                let e = &mut self.entries[i];
                match side {
                    Side::Node => e.node.add_write_n(n),
                    Side::Target => e.target.add_write_n(n),
                }
                true
            },
            None => false,
        }
    }
}

/// The accounting record of the chosen side of a tunnel.
pub open spec fn side_connection(t: Tunnel, side: Side) -> Connection {
    match side {
        Side::Node => t.node.connection,
        Side::Target => t.target.connection,
    }
}

/// `t` with `n` read bytes credited to every window of the chosen side.
pub open spec fn spec_credit_read(t: Tunnel, side: Side, n: u64) -> Tunnel {
    match side {
        Side::Node => Tunnel {
            node: NodeConnection { connection: spec_add_read(t.node.connection, n) },
            ..t
        },
        Side::Target => Tunnel {
            target: TargetConnection {
                connection: spec_add_read(t.target.connection, n),
                ..t.target
            },
            ..t
        },
    }
}

/// `t` with `n` written bytes credited to every window of the chosen side.
pub open spec fn spec_credit_write(t: Tunnel, side: Side, n: u64) -> Tunnel {
    match side {
        Side::Node => Tunnel {
            node: NodeConnection { connection: spec_add_write(t.node.connection, n) },
            ..t
        },
        Side::Target => Tunnel {
            target: TargetConnection {
                connection: spec_add_write(t.target.connection, n),
                ..t.target
            },
            ..t
        },
    }
}

/// How many live tunnels are routed to the target identified by
/// `target_id`; derived from the table, never stored.
pub fn get_target_conn_count_by_target_id(table: &TunnelTable, target_id: &String) -> (r: u32)
    ensures
        r == count_for_target(table@, target_id@) as u32,
        count_for_target(table@, target_id@) <= u32::MAX ==> r == count_for_target(
            table@,
            target_id@,
        ),
{
    let entries = table.len();
    let mut count: usize = 0;
    let mut i: usize = 0;
    while i < entries
        invariant
            entries == table@.len(),
            i <= entries,
            count == count_for_target(table@.take(i as int), target_id@),
            count <= i,
        decreases entries - i,
    {
        proof {
            lemma_count_for_target_take_step(table@, target_id@, i as int);
        }
        if table.entry_has_target(i, target_id) {
            count = count + 1;
        }
        i = i + 1;
    }
    proof {
        assert(table@.take(entries as int) =~= table@);
        lemma_count_for_target_le_len(table@, target_id@);
    }
    #[verifier::truncate] (count as u32)
}

impl TunnelTable {
    /// Whether the entry at `i` is routed to `target_id`.
    fn entry_has_target(&self, i: usize, target_id: &String) -> (r: bool)
        requires
            i < self@.len(),
        ensures
            r == (self@[i as int].target.target_id@ == target_id@),
    {
        self.entries[i].target.target_id == *target_id
    }
}

/// `c` after maintenance tick `k`: the 1-minute window restarts every
/// tick, the 5-minute window on every fifth tick and the 30-minute
/// window on every thirtieth, each independently of the others.
pub open spec fn spec_maintain_connection(c: Connection, k: u64, now_ns: i64) -> Connection {
    let c1 = spec_reset_1m(c, now_ns);
    let c5 = if k % 5 == 0 {
        spec_reset_5m(c1, now_ns)
    } else {
        c1
    };
    if k % 30 == 0 {
        spec_reset_30m(c5, now_ns)
    } else {
        c5
    }
}

/// `t` after maintenance tick `k`, applied to both sides.
pub open spec fn spec_maintain_tunnel(t: Tunnel, k: u64, now_ns: i64) -> Tunnel {
    Tunnel {
        node: NodeConnection {
            connection: spec_maintain_connection(t.node.connection, k, now_ns),
        },
        target: TargetConnection {
            connection: spec_maintain_connection(t.target.connection, k, now_ns),
            ..t.target
        },
        ..t
    }
}

impl TunnelTable {
    /// One pass of the maintenance ticker over every live tunnel: on
    /// tick `k` it restarts, at `now_ns`, the windows whose period has
    /// elapsed, on both sides of every entry; nothing else changes.
    pub fn maintain_tick(&mut self, maintain_index: u64, now_ns: i64)
        requires
            old(self).wf(),
        ensures
            final(self).wf(),
            final(self)@.len() == old(self)@.len(),
            forall|i: int|
                0 <= i < old(self)@.len() ==> final(self)@[i] == spec_maintain_tunnel(
                    old(self)@[i],
                    maintain_index,
                    now_ns,
                ),
    {
        let n = self.entries.len();
        let reset5 = maintain_index % 5 == 0;
        let reset30 = maintain_index % 30 == 0;
        for i in 0..n
            invariant
                n == self@.len(),
                reset5 == (maintain_index % 5 == 0),
                reset30 == (maintain_index % 30 == 0),
                forall|j: int|
                    0 <= j < i ==> self@[j] == spec_maintain_tunnel(
                        old(self)@[j],
                        maintain_index,
                        now_ns,
                    ),
                forall|j: int| i <= j < n ==> self@[j] == old(self)@[j],
        {
            let e = &mut self.entries[i];
            e.node.connection.reset_read_write_bytes_1m(now_ns);
            if reset5 {
                e.node.connection.reset_read_write_bytes_5m(now_ns);
            }
            if reset30 {
                e.node.connection.reset_read_write_bytes_30m(now_ns);
            }
            e.target.connection.reset_read_write_bytes_1m(now_ns);
            if reset5 {
                e.target.connection.reset_read_write_bytes_5m(now_ns);
            }
            if reset30 {
                e.target.connection.reset_read_write_bytes_30m(now_ns);
            }
        }
        proof {
            assert forall|i: int, j: int|
                0 <= i < j < self@.len() implies self@[i].tunnel_id@ != self@[
                j
            ].tunnel_id@ by {
                assert(self@[i].tunnel_id@ == old(self)@[i].tunnel_id@);
                assert(self@[j].tunnel_id@ == old(self)@[j].tunnel_id@);
            }
        }
    }
}

} // verus!
