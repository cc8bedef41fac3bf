//! Grouping database operations into transactions: the writer that drains a
//! channel of operations, and the ledger that collects the operations of a
//! deduplication or restore run.

use vstd::prelude::*;
use crate::state::DbOp;

verus! {

/// Most operations the channel writer puts in one transaction.
pub const BATCH_SIZE: usize = 1000;

/// Pending operations reach this many before a run's ledger flushes them.
pub const FLUSH_THRESHOLD: usize = 1000;

/// Where the channel writer stands.
#[derive(Debug, Clone, Copy, PartialEq, Eq, Structural)]
pub enum ChannelStage {
    /// Taking what the channel holds without waiting; the count is how many
    /// operations this round has taken.
    Draining(usize),
    /// Nothing was ready: waiting for the next operation.
    Waiting,
    /// After a wait: taking what else is ready without waiting.
    Topping,
    /// The buffered operations are to be written in one transaction.
    Flush,
    /// The channel is closed and everything received is written.
    Closed,
}

/// The channel writer: receives operations and hands them out in batches
/// of at most `BATCH_SIZE`, in the order received.
pub struct ChannelBatcher {
    buffer: Vec<DbOp>,
    stage: ChannelStage,
    received: Ghost<Seq<DbOp>>,
    written: Ghost<Seq<DbOp>>,
}

impl ChannelBatcher {
    /// Operations received so far.
    pub closed spec fn received(&self) -> Seq<DbOp> {
        self.received@
    }

    /// Operations handed out for writing so far, batches concatenated.
    pub closed spec fn written(&self) -> Seq<DbOp> {
        self.written@
    }

    /// Operations received but not yet handed out.
    pub closed spec fn pending(&self) -> Seq<DbOp> {
        self.buffer@
    }

    /// The writer's stage.
    pub closed spec fn stage_spec(&self) -> ChannelStage {
        self.stage
    }

    /// The writer's invariant: what it received is what it handed out
    /// followed by what it holds, and it never holds more than a batch.
    pub closed spec fn wf(&self) -> bool {
        &&& self.received@ == self.written@ + self.buffer@
        &&& self.buffer@.len() <= BATCH_SIZE
        &&& match self.stage {
            ChannelStage::Draining(n) => self.buffer@.len() == n && n < BATCH_SIZE,
            ChannelStage::Waiting => self.buffer@.len() == 0,
            ChannelStage::Topping => 1 <= self.buffer@.len() < BATCH_SIZE,
            ChannelStage::Flush => 1 <= self.buffer@.len() <= BATCH_SIZE,
            ChannelStage::Closed => self.buffer@.len() == 0,
        }
    }

    /// A writer that has received nothing; it starts by draining.
    pub fn new() -> (b: Self)
        ensures
            b.wf(),
            b.received() == Seq::<DbOp>::empty(),
            b.written() == Seq::<DbOp>::empty(),
            b.stage_spec() == ChannelStage::Draining(0),
    {
        ChannelBatcher {
            buffer: Vec::new(),
            stage: ChannelStage::Draining(0),
            received: Ghost(Seq::empty()),
            written: Ghost(Seq::empty()),
        }
    }

    /// The writer's stage: `Draining` and `Topping` want a receive that
    /// does not wait, `Waiting` one that waits, `Flush` a call of
    /// `take_batch`, `Closed` nothing more.
    pub fn stage(&self) -> (s: ChannelStage)
        ensures
            s == self.stage_spec(),
    {
        self.stage
    }

    /// Records what a receive gave: an operation, or nothing (for a receive
    /// that does not wait: nothing ready; for one that waits: the channel
    /// closed).
    pub fn receive(&mut self, got: Option<DbOp>)
        requires
            old(self).wf(),
            old(self).stage_spec() is Draining || old(self).stage_spec() is Waiting || old(
                self,
            ).stage_spec() is Topping,
        ensures
            final(self).wf(),
            final(self).written() == old(self).written(),
            final(self).received() == (match got {
                Some(op) => old(self).received().push(op),
                None => old(self).received(),
            }),
            final(self).stage_spec() == (match (old(self).stage_spec(), got) {
                (ChannelStage::Draining(n), Some(_)) => if n + 1 == BATCH_SIZE {
                    ChannelStage::Flush
                } else {
                    ChannelStage::Draining((n + 1) as usize)
                },
                (ChannelStage::Draining(n), None) => if n == 0 {
                    ChannelStage::Waiting
                } else {
                    ChannelStage::Flush
                },
                (ChannelStage::Waiting, Some(_)) => ChannelStage::Topping,
                (ChannelStage::Waiting, None) => ChannelStage::Closed,
                (ChannelStage::Topping, Some(_)) => if old(self).pending().len() + 1
                    >= BATCH_SIZE {
                    ChannelStage::Flush
                } else {
                    ChannelStage::Topping
                },
                (_, _) => ChannelStage::Flush,
            }),
    {
        match got {
            Some(op) => {
                proof {
                    self.received@ = self.received@.push(op);
                }
                self.buffer.push(op);
                assert(self.received@ =~= self.written@ + self.buffer@);
                self.stage = match self.stage {
                    ChannelStage::Draining(n) => if n + 1 == BATCH_SIZE {
                        ChannelStage::Flush
                    } else {
                        ChannelStage::Draining(n + 1)
                    },
                    ChannelStage::Waiting => ChannelStage::Topping,
                    _ => if self.buffer.len() >= BATCH_SIZE {
                        ChannelStage::Flush
                    } else {
                        ChannelStage::Topping
                    },
                };
            },
            None => {
                self.stage = match self.stage {
                    ChannelStage::Draining(n) => if n == 0 {
                        ChannelStage::Waiting
                    } else {
                        ChannelStage::Flush
                    },
                    ChannelStage::Waiting => ChannelStage::Closed,
                    _ => ChannelStage::Flush,
                };
            },
        }
    }

    /// Hands out the buffered operations for one transaction and starts a
    /// new round of draining.
    pub fn take_batch(&mut self) -> (batch: Vec<DbOp>)
        requires
            old(self).wf(),
            old(self).stage_spec() == ChannelStage::Flush,
        ensures
            final(self).wf(),
            batch@ == old(self).pending(),
            1 <= batch@.len() <= BATCH_SIZE,
            final(self).written() == old(self).written() + batch@,
            final(self).received() == old(self).received(),
            final(self).pending().len() == 0,
            final(self).stage_spec() == ChannelStage::Draining(0),
    {
        let mut batch: Vec<DbOp> = Vec::new();
        std::mem::swap(&mut batch, &mut self.buffer);
        proof {
            self.written@ = self.written@ + batch@;
        }
        assert(self.received@ =~= self.written@ + self.buffer@);
        self.stage = ChannelStage::Draining(0);
        batch
    }
}

/// Nothing is lost or repeated: once the channel writer has closed, the
/// batches it handed out, concatenated, are exactly the operations it
/// received, in order.
pub proof fn law_channel_writes_everything_received(b: &ChannelBatcher)
    requires
        b.wf(),
        b.stage_spec() == ChannelStage::Closed,
    ensures
        b.written() == b.received(),
{
    assert(b.written@ + b.buffer@ =~= b.written@);
}

/// The operations of a deduplication or restore run, flushed to the
/// database in transactions of at least `FLUSH_THRESHOLD` operations, and a
/// last one for what remains.
pub struct OpLedger {
    pending: Vec<DbOp>,
    committed: Ghost<Seq<DbOp>>,
    flushed: Ghost<Seq<DbOp>>,
}

impl OpLedger {
    /// Operations committed to the ledger so far.
    pub closed spec fn committed(&self) -> Seq<DbOp> {
        self.committed@
    }

    /// Operations handed out for writing so far, batches concatenated.
    pub closed spec fn flushed(&self) -> Seq<DbOp> {
        self.flushed@
    }

    /// Operations committed but not yet handed out.
    pub closed spec fn pending(&self) -> Seq<DbOp> {
        self.pending@
    }

    /// The ledger's invariant: what was committed is what was flushed
    /// followed by what is pending, and pending stays below the threshold.
    pub closed spec fn wf(&self) -> bool {
        &&& self.committed@ == self.flushed@ + self.pending@
        &&& self.pending@.len() < FLUSH_THRESHOLD
    }

    /// An empty ledger.
    pub fn new() -> (l: Self)
        ensures
            l.wf(),
            l.committed() == Seq::<DbOp>::empty(),
            l.flushed() == Seq::<DbOp>::empty(),
            l.pending() == Seq::<DbOp>::empty(),
    {
        OpLedger { pending: Vec::new(), committed: Ghost(Seq::empty()), flushed: Ghost(Seq::empty()) }
    }

    /// Commits `ops`; when the pending operations reach the threshold they
    /// are all handed out, to be written in one transaction.
    pub fn commit(&mut self, ops: Vec<DbOp>) -> (batch: Option<Vec<DbOp>>)
        requires
            old(self).wf(),
        ensures
            final(self).wf(),
            final(self).committed() == old(self).committed() + ops@,
            match batch {
                Some(b) => {
                    &&& b@ == old(self).pending() + ops@
                    &&& b@.len() >= FLUSH_THRESHOLD
                    &&& final(self).flushed() == old(self).flushed() + b@
                    &&& final(self).pending().len() == 0
                },
                None => {
                    &&& old(self).pending().len() + ops@.len() < FLUSH_THRESHOLD
                    &&& final(self).flushed() == old(self).flushed()
                    &&& final(self).pending() == old(self).pending() + ops@
                },
            },
    {
        let mut ops = ops;
        let ghost added = ops@;
        proof {
            self.committed@ = self.committed@ + added;
        }
        self.pending.append(&mut ops);
        assert(self.committed@ =~= self.flushed@ + self.pending@);
        if self.pending.len() >= FLUSH_THRESHOLD {
            let mut batch: Vec<DbOp> = Vec::new();
            std::mem::swap(&mut batch, &mut self.pending);
            proof {
                self.flushed@ = self.flushed@ + batch@;
            }
            assert(self.committed@ =~= self.flushed@ + self.pending@);
            Some(batch)
        } else {
            None
        }
    }

    /// Ends the run: hands out what remains pending, if anything.
    pub fn finish(self) -> (batch: Option<Vec<DbOp>>)
        requires
            self.wf(),
        ensures
            match batch {
                Some(b) => b@ == self.pending() && b@.len() > 0,
                None => self.pending().len() == 0,
            },
            // with it, everything committed has been handed out
            self.flushed() + (match batch {
                Some(b) => b@,
                None => Seq::<DbOp>::empty(),
            }) == self.committed(),
    {
        if self.pending.len() == 0 {
            assert(self.flushed@ + Seq::<DbOp>::empty() =~= self.committed@);
            None
        } else {
            Some(self.pending)
        }
    }
}

} // verus!
