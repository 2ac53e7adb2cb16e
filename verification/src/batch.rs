//! The sequential removal batch and its shared progress.
//!
//! A batch walks a user-selected list of identifiers strictly in order, one
//! removal in flight at a time. The counter is stepped *before* each removal
//! is issued, so an observer reads "processing item N of total" while the
//! call is under way. Per-item failures are recorded and never stop the
//! batch; the summary reports them at the end. Progress is a pair (completed,
//! total) that packs into one word, so a writer can publish a whole snapshot
//! in a single atomic store and no reader ever sees a half-updated pair.

use vstd::prelude::*;

verus! {

/// A progress snapshot: how many items have been taken up, out of how many.
/// The counter never exceeds the total.
#[derive(Clone, Copy, Debug, PartialEq, Eq, Structural)]
pub struct BatchProgress {
    pub completed: u32,
    pub total: u32,
}

/// The snapshot's invariant: the counter never exceeds the total.
pub open spec fn progress_wf(p: BatchProgress) -> bool {
    p.completed <= p.total
}

/// A snapshot as one word: the total in the high half, the counter in the
/// low half.
pub open spec fn spec_pack(p: BatchProgress) -> u64 {
    (p.total as u64 * 0x1_0000_0000 + p.completed as u64) as u64
}

/// The snapshot a word denotes.
pub open spec fn spec_unpack(w: u64) -> BatchProgress {
    BatchProgress {
        completed: (w % 0x1_0000_0000) as u32,
        total: (w / 0x1_0000_0000) as u32,
    }
}

/// Unpacking a packed snapshot gives the snapshot back: publishing the
/// packed word in one atomic store publishes both fields at once.
pub proof fn lemma_pack_round_trip(p: BatchProgress)
    ensures
        spec_unpack(spec_pack(p)) == p,
{
    let t = p.total as u64;
    let c = p.completed as u64;
    assert((t * 0x1_0000_0000 + c) % 0x1_0000_0000 == c && (t * 0x1_0000_0000 + c)
        / 0x1_0000_0000 == t) by (nonlinear_arith)
        requires
            c < 0x1_0000_0000,
            t < 0x1_0000_0000,
    ;
}

impl BatchProgress {
    /// The snapshot at the start of a batch over `total` items: nothing
    /// completed yet.
    pub fn begin(total: u32) -> (r: BatchProgress)
        ensures
            r == (BatchProgress { completed: 0, total: total }),
            progress_wf(r),
    {
        BatchProgress { completed: 0, total: total }
    }

    /// This snapshot as one word, for a single atomic store.
    pub fn pack(&self) -> (r: u64)
        ensures
            r == spec_pack(*self),
    {
        proof {
            let t = self.total as u64;
            let c = self.completed as u64;
            assert(t * 0x1_0000_0000 + c <= u64::MAX) by (nonlinear_arith)
                requires
                    t < 0x1_0000_0000,
                    c < 0x1_0000_0000,
            ;
        }
        self.total as u64 * 0x1_0000_0000 + self.completed as u64
    }

    /// The snapshot a word read from the shared cell denotes.
    pub fn unpack(w: u64) -> (r: BatchProgress)
        ensures
            r == spec_unpack(w),
    {
        BatchProgress { completed: (w % 0x1_0000_0000) as u32, total: (w / 0x1_0000_0000) as u32 }
    }
}

/// The failures of a finished batch: the identifiers whose removal the
/// service did not confirm, in batch order.
#[derive(Debug)]
pub struct BatchError {
    pub failed: Vec<u64>,
}

/// One removal batch: the selected identifiers, how far it has come, which
/// removals failed, and the progress pair it publishes.
#[derive(Debug)]
pub struct BatchRun {
    ids: Vec<u64>,
    next: usize,
    in_flight: bool,
    failed: Vec<u64>,
    progress: BatchProgress,
}

impl BatchRun {
    /// The identifiers this batch removes, in order.
    pub closed spec fn sel_ids(&self) -> Seq<u64> {
        self.ids@
    }

    /// How many items have been fully dealt with.
    pub closed spec fn pos(&self) -> int {
        self.next as int
    }

    /// Whether a removal is currently in flight.
    pub closed spec fn inflight(&self) -> bool {
        self.in_flight
    }

    /// The identifiers whose removal failed so far, in order.
    pub closed spec fn failed_ids(&self) -> Seq<u64> {
        self.failed@
    }

    /// The published counter.
    pub closed spec fn completed(&self) -> int {
        self.progress.completed as int
    }

    /// The published total.
    pub closed spec fn total(&self) -> int {
        self.progress.total as int
    }

    /// The batch invariant: the counter counts the items taken up, one
    /// ahead of the finished ones while a removal is in flight, and never
    /// exceeds the total, which is the selection's size.
    pub closed spec fn wf(&self) -> bool {
        &&& self.ids@.len() <= u32::MAX
        &&& self.next <= self.ids@.len()
        &&& self.progress.total == self.ids@.len()
        &&& self.progress.completed == self.next + (if self.in_flight {
            1int
        } else {
            0int
        })
        &&& self.failed@.len() <= self.next
        &&& self.in_flight ==> self.next < self.ids@.len()
    }

    /// Start a batch over the selected identifiers: the total is set to the
    /// selection's size and the counter to zero, as one fresh snapshot.
    pub fn start(selected: Vec<u64>) -> (r: BatchRun)
        requires
            selected@.len() <= u32::MAX,
        ensures
            r.wf(),
            r.sel_ids() == selected@,
            r.pos() == 0,
            !r.inflight(),
            r.failed_ids() == Seq::<u64>::empty(),
            r.completed() == 0,
            r.total() == selected@.len(),
    {
        let total = selected.len() as u32;
        let r = BatchRun {
            ids: selected,
            next: 0,
            in_flight: false,
            failed: Vec::new(),
            progress: BatchProgress::begin(total),
        };
        proof {
            assert(r.failed@ =~= Seq::<u64>::empty());
        }
        r
    }

    /// The progress pair as currently published.
    pub fn progress(&self) -> (r: BatchProgress)
        requires
            self.wf(),
        ensures
            r.completed == self.completed(),
            r.total == self.total(),
            progress_wf(r),
    {
        self.progress
    }

    /// Take up the next identifier: the counter steps *before* the removal
    /// is issued, and the identifier comes back for the caller to remove.
    /// With nothing left, nothing changes.
    pub fn take_next(&mut self) -> (r: Option<u64>)
        requires
            old(self).wf(),
            !old(self).inflight(),
        ensures
            final(self).wf(),
            final(self).sel_ids() == old(self).sel_ids(),
            final(self).failed_ids() == old(self).failed_ids(),
            final(self).total() == old(self).total(),
            final(self).pos() == old(self).pos(),
            if old(self).pos() < old(self).sel_ids().len() {
                &&& r == Some(old(self).sel_ids()[old(self).pos()])
                &&& final(self).inflight()
                &&& final(self).completed() == old(self).completed() + 1
            } else {
                &&& r is None
                &&& !final(self).inflight()
                &&& final(self).completed() == old(self).completed()
            },
    {
        if self.next < self.ids.len() {
            let id = self.ids[self.next];
            self.in_flight = true;
            self.progress.completed = self.progress.completed + 1;
            Some(id)
        } else {
            None
        }
    }

    /// Record the outcome of the removal in flight: the batch moves on
    /// whatever the outcome was, and a failure is noted, never fatal.
    pub fn record_outcome(&mut self, ok: bool)
        requires
            old(self).wf(),
            old(self).inflight(),
        ensures
            final(self).wf(),
            final(self).sel_ids() == old(self).sel_ids(),
            final(self).total() == old(self).total(),
            final(self).completed() == old(self).completed(),
            !final(self).inflight(),
            final(self).pos() == old(self).pos() + 1,
            final(self).failed_ids() == if ok {
                old(self).failed_ids()
            } else {
                old(self).failed_ids().push(old(self).sel_ids()[old(self).pos()])
            },
    {
        if !ok {
            let id = self.ids[self.next];
            self.failed.push(id);
        }
        self.in_flight = false;
        self.next = self.next + 1;
    }

    /// Whether every selected identifier has been dealt with.
    pub fn is_done(&self) -> (r: bool)
        requires
            self.wf(),
        ensures
            r == (self.pos() == self.sel_ids().len() && !self.inflight()),
    {
        !self.in_flight && self.next == self.ids.len()
    }

    /// The batch summary: success when every removal was confirmed, else
    /// exactly the identifiers whose removal failed, in batch order.
    pub fn summary(&self) -> (r: Result<(), BatchError>)
        requires
            self.wf(),
            self.pos() == self.sel_ids().len(),
            !self.inflight(),
        ensures
            match r {
                Ok(_) => self.failed_ids().len() == 0,
                Err(e) => e.failed@ == self.failed_ids() && self.failed_ids().len() > 0,
            },
    {
        if self.failed.len() == 0 {
            return Ok(());
        }
        let mut failed: Vec<u64> = Vec::new();
        let mut i: usize = 0;
        while i < self.failed.len()
            invariant
                i <= self.failed.len(),
                failed@ == self.failed@.take(i as int),
            decreases self.failed.len() - i,
        {
            failed.push(self.failed[i]);
            proof {
                assert(failed@ =~= self.failed@.take(i as int + 1));
            }
            i += 1;
        }
        proof {
            assert(failed@ =~= self.failed@);
        }
        Err(BatchError { failed: failed })
    }
}

} // verus!
