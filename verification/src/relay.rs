//! The relay engine: per-tunnel, per-direction processing of read and
//! write outcomes. The surrounding runtime performs the socket I/O under
//! its deadlines and feeds every outcome to these step functions, which
//! decide what to do next, keep the tunnel table's byte accounting, and
//! tear the tunnel down on EOF, error or timeout.

use vstd::prelude::*;

use crate::connection::{read_fits, write_fits};
use crate::table::{
    contains_tunnel_id, side_connection, spec_credit_read, spec_credit_write, Side, TunnelTable,
};

verus! {

/// Bytes handed over by one read: the relay reads at most this many at a
/// time.
pub const RELAY_BUF_SIZE: usize = 1024;

/// What a deadline-bounded read produced: some bytes, an orderly close
/// by the peer, an I/O error, or deadline expiry.
#[derive(Debug)]
pub enum ReadEvent {
    Data(Vec<u8>),
    Closed,
    Failed,
    TimedOut,
}

/// What a deadline-bounded write produced.
#[derive(Debug, Clone, Copy, PartialEq, Eq, Structural)]
pub enum WriteEvent {
    Wrote,
    Failed,
    TimedOut,
}

/// What the relay must do after a read event: write these bytes to the
/// peer, or stop this direction.
#[derive(Debug)]
pub enum ReadStep {
    Forward(Vec<u8>),
    Stop,
}

/// What the relay must do after a write event.
#[derive(Debug, Clone, Copy, PartialEq, Eq, Structural)]
pub enum WriteStep {
    Continue,
    Stop,
}

/// The side a direction writes to.
pub open spec fn spec_opposite(side: Side) -> Side {
    match side {
        Side::Node => Side::Target,
        Side::Target => Side::Node,
    }
}

/// The side a direction writes to.
pub fn opposite(side: Side) -> (r: Side)
    ensures
        r == spec_opposite(side),
{
    match side {
        Side::Node => Side::Target,
        Side::Target => Side::Node,
    }
}

/// One direction of a tunnel's relay (node-to-target or target-to-node):
/// which tunnel it belongs to, which side it reads from, and the byte
/// streams seen so far. `taken_in` holds every byte read through a live
/// tunnel, `put_out` every byte whose write was confirmed, and `pending`
/// the bytes of the one write that is in flight.
pub struct RelayDirection {
    pub tunnel_id: String,
    pub from_side: Side,
    pub done: bool,
    pub pending_len: usize,
    pub taken_in: Ghost<Seq<u8>>,
    pub put_out: Ghost<Seq<u8>>,
    pub pending: Ghost<Seq<u8>>,
}

impl RelayDirection {
    /// Every byte read was either confirmed written or belongs to the one
    /// write in flight, which covers at most one buffer.
    pub open spec fn wf(self) -> bool {
        &&& self.put_out@ + self.pending@ == self.taken_in@
        &&& self.pending@.len() <= RELAY_BUF_SIZE
        &&& self.pending_len == self.pending@.len()
    }

    /// A fresh direction for the tunnel `tunnel_id`, reading from
    /// `from_side`; nothing has flowed yet.
    pub fn start(tunnel_id: String, from_side: Side) -> (d: RelayDirection)
        ensures
            d.wf(),
            !d.done,
            d.tunnel_id == tunnel_id,
            d.from_side == from_side,
            d.taken_in@ == Seq::<u8>::empty(),
            d.put_out@ == Seq::<u8>::empty(),
            d.pending@ == Seq::<u8>::empty(),
    {
        let d = RelayDirection {
            tunnel_id,
            from_side,
            done: false,
            pending_len: 0,
            taken_in: Ghost(Seq::empty()),
            put_out: Ghost(Seq::empty()),
            pending: Ghost(Seq::empty()),
        };
        proof {
            assert(d.put_out@ + d.pending@ =~= d.taken_in@);
        }
        d
    }

    /// Processes one read outcome. Data read through a live tunnel is
    /// credited to the read counters of the source side and handed back,
    /// whole and unchanged, to be written to the peer. EOF, error or
    /// timeout removes the tunnel and stops this direction; data for a
    /// tunnel that is no longer in the table also stops it, crediting
    /// nothing.
    pub fn on_read(&mut self, table: &mut TunnelTable, event: ReadEvent) -> (step: ReadStep)
        requires
            old(table).wf(),
            old(self).wf(),
            !old(self).done,
            old(self).pending@.len() == 0,
            event matches ReadEvent::Data(v) ==> 1 <= v@.len() <= RELAY_BUF_SIZE,
            event matches ReadEvent::Data(v) ==> forall|i: int|
                0 <= i < old(table)@.len() && #[trigger] old(table)@[i].tunnel_id@ == old(
                    self,
                ).tunnel_id@ ==> read_fits(
                    side_connection(old(table)@[i], old(self).from_side),
                    v@.len() as u64,
                ),
        ensures
            final(table).wf(),
            final(self).wf(),
            final(self).tunnel_id == old(self).tunnel_id,
            final(self).from_side == old(self).from_side,
            // data through a live tunnel is credited to the reader and
            // forwarded; data for a tunnel that is gone stops the
            // direction, crediting nothing
            event matches ReadEvent::Data(v) ==> {
                &&& (contains_tunnel_id(old(table)@, old(self).tunnel_id@) ==> {
                    &&& exists|i: int|
                        0 <= i < old(table)@.len() && #[trigger] old(table)@[i].tunnel_id@ == old(
                            self,
                        ).tunnel_id@ && final(table)@ == old(table)@.update(
                            i,
                            spec_credit_read(old(table)@[i], old(self).from_side, v@.len() as u64),
                        )
                    &&& !final(self).done
                    &&& final(self).taken_in@ == old(self).taken_in@ + v@
                    &&& final(self).pending@ == v@
                    &&& final(self).put_out@ == old(self).put_out@
                    &&& step matches ReadStep::Forward(w) && w@ == v@
                })
                &&& (!contains_tunnel_id(old(table)@, old(self).tunnel_id@) ==> {
                    &&& final(table)@ == old(table)@
                    &&& final(self).done
                    &&& final(self).taken_in@ == old(self).taken_in@
                    &&& final(self).put_out@ == old(self).put_out@
                    &&& final(self).pending@ == old(self).pending@
                    &&& step == ReadStep::Stop
                })
            },
            // EOF, error or timeout: remove the tunnel and stop
            (event is Closed || event is Failed || event is TimedOut) ==> {
                &&& step == ReadStep::Stop
                &&& final(self).done
                &&& final(self).taken_in@ == old(self).taken_in@
                &&& final(self).put_out@ == old(self).put_out@
                &&& final(self).pending@ == old(self).pending@
                &&& !contains_tunnel_id(final(table)@, old(self).tunnel_id@)
                &&& (contains_tunnel_id(old(table)@, old(self).tunnel_id@) ==> exists|i: int|
                    0 <= i < old(table)@.len() && #[trigger] old(table)@[i].tunnel_id@ == old(
                        self,
                    ).tunnel_id@ && final(table)@ == old(table)@.remove(i))
                &&& (!contains_tunnel_id(old(table)@, old(self).tunnel_id@) ==> final(table)@
                    == old(table)@)
            },
    {
        match event {
            ReadEvent::Data(v) => {
                let n = v.len();
                let found = table.credit_read(&self.tunnel_id, self.from_side, n as u64);
                if found {
                    proof {
                        // nothing was pending, so the streams agreed
                        assert(self.put_out@ + self.pending@ =~= self.put_out@);
                    }
                    self.taken_in = Ghost(self.taken_in@ + v@);
                    self.pending = Ghost(v@);
                    self.pending_len = n;
                    proof {
                        assert(self.put_out@ + self.pending@ =~= self.taken_in@);
                    }
                    ReadStep::Forward(v)
                } else {
                    self.done = true;
                    ReadStep::Stop
                }
            },
            ReadEvent::Closed => {
                table.remove(&self.tunnel_id);
                self.done = true;
                ReadStep::Stop
            },
            ReadEvent::Failed => {
                table.remove(&self.tunnel_id);
                self.done = true;
                ReadStep::Stop
            },
            ReadEvent::TimedOut => {
                table.remove(&self.tunnel_id);
                self.done = true;
                ReadStep::Stop
            },
        }
    }

    /// Processes the outcome of writing the pending bytes to the peer. A
    /// confirmed write is credited to the write counters of the
    /// destination side; error or timeout removes the tunnel and stops
    /// this direction, leaving the failed write uncredited.
    pub fn on_write(&mut self, table: &mut TunnelTable, event: WriteEvent) -> (step: WriteStep)
        requires
            old(table).wf(),
            old(self).wf(),
            !old(self).done,
            event == WriteEvent::Wrote ==> forall|i: int|
                0 <= i < old(table)@.len() && #[trigger] old(table)@[i].tunnel_id@ == old(
                    self,
                ).tunnel_id@ ==> write_fits(
                    side_connection(old(table)@[i], spec_opposite(old(self).from_side)),
                    old(self).pending@.len() as u64,
                ),
        ensures
            final(table).wf(),
            final(self).wf(),
            final(self).tunnel_id == old(self).tunnel_id,
            final(self).from_side == old(self).from_side,
            final(self).taken_in@ == old(self).taken_in@,
            // a confirmed write through a live tunnel: credit the peer side
            (event == WriteEvent::Wrote && contains_tunnel_id(
                old(table)@,
                old(self).tunnel_id@,
            )) ==> {
                &&& step == WriteStep::Continue
                &&& !final(self).done
                &&& final(self).put_out@ == old(self).put_out@ + old(self).pending@
                &&& final(self).pending@.len() == 0
                &&& exists|i: int|
                    0 <= i < old(table)@.len() && #[trigger] old(table)@[i].tunnel_id@ == old(
                        self,
                    ).tunnel_id@ && final(table)@ == old(table)@.update(
                        i,
                        spec_credit_write(
                            old(table)@[i],
                            spec_opposite(old(self).from_side),
                            old(self).pending@.len() as u64,
                        ),
                    )
            },
            // a confirmed write, but the tunnel is gone: stop
            (event == WriteEvent::Wrote && !contains_tunnel_id(
                old(table)@,
                old(self).tunnel_id@,
            )) ==> {
                &&& step == WriteStep::Stop
                &&& final(self).done
                &&& final(self).put_out@ == old(self).put_out@ + old(self).pending@
                &&& final(self).pending@.len() == 0
                &&& final(table)@ == old(table)@
            },
            // error or timeout: remove the tunnel, credit nothing
            (event == WriteEvent::Failed || event == WriteEvent::TimedOut) ==> {
                &&& step == WriteStep::Stop
                &&& final(self).done
                &&& final(self).put_out@ == old(self).put_out@
                &&& final(self).pending@ == old(self).pending@
                &&& !contains_tunnel_id(final(table)@, old(self).tunnel_id@)
                &&& (contains_tunnel_id(old(table)@, old(self).tunnel_id@) ==> exists|i: int|
                    0 <= i < old(table)@.len() && #[trigger] old(table)@[i].tunnel_id@ == old(
                        self,
                    ).tunnel_id@ && final(table)@ == old(table)@.remove(i))
                &&& (!contains_tunnel_id(old(table)@, old(self).tunnel_id@) ==> final(table)@
                    == old(table)@)
            },
    {
        match event {
            WriteEvent::Wrote => {
                let n = self.pending_len;
                let dst = opposite(self.from_side);
                let found = table.credit_write(&self.tunnel_id, dst, n as u64);
                self.put_out = Ghost(self.put_out@ + self.pending@);
                self.pending = Ghost(Seq::empty());
                self.pending_len = 0;
                proof {
                    assert(self.put_out@ + self.pending@ =~= self.put_out@);
                }
                if found {
                    WriteStep::Continue
                } else {
                    self.done = true;
                    WriteStep::Stop
                }
            },
            WriteEvent::Failed => {
                table.remove(&self.tunnel_id);
                self.done = true;
                WriteStep::Stop
            },
            WriteEvent::TimedOut => {
                table.remove(&self.tunnel_id);
                self.done = true;
                WriteStep::Stop
            },
        }
    }
}

/// Conservation for one direction: the peer never receives more than was
/// read; what it has received is exactly the bytes read so far, in
/// order; and the shortfall is the one write in flight, at most one
/// buffer's worth.
pub proof fn lemma_direction_conservation(d: RelayDirection)
    requires
        d.wf(),
    ensures
        d.put_out@.len() <= d.taken_in@.len(),
        d.taken_in@.len() - d.put_out@.len() == d.pending@.len(),
        d.taken_in@.len() - d.put_out@.len() <= RELAY_BUF_SIZE,
        d.put_out@ == d.taken_in@.take(d.put_out@.len() as int),
{
    assert(d.put_out@ =~= d.taken_in@.take(d.put_out@.len() as int));
}

/// Verbatim, in-order delivery: whenever no write is in flight, the peer
/// has received exactly the bytes that were read.
pub proof fn lemma_verbatim_delivery(d: RelayDirection)
    requires
        d.wf(),
        d.pending@.len() == 0,
    ensures
        d.put_out@ == d.taken_in@,
{
    assert(d.put_out@ =~= d.put_out@ + d.pending@);
}

} // verus!
