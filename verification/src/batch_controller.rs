//! Batch-level state of a smart folder ingestion: the queue of pending
//! files, the files in flight, and the completed and failed counts.
//!
//! The queue holds items of any type `P` (the caller's pending-file record,
//! with its path and estimated cost); the controller only moves them.

use crate::text::str_eq;
use vstd::prelude::*;

verus! {

/// Status of a batch ingestion run.
#[derive(Clone, Copy, Debug, PartialEq, Eq, Structural)]
pub enum BatchStatus {
    Running,
    Paused,
    Completed,
    Cancelled,
    Failed,
}

/// The display name of a status.
pub open spec fn status_name(s: BatchStatus) -> Seq<char> {
    match s {
        BatchStatus::Running => "Running"@,
        BatchStatus::Paused => "Paused"@,
        BatchStatus::Completed => "Completed"@,
        BatchStatus::Cancelled => "Cancelled"@,
        BatchStatus::Failed => "Failed"@,
    }
}

impl BatchStatus {
    /// The display name of this status (`Running`, `Paused`, ...).
    pub fn name(&self) -> (s: &'static str)
        ensures
            s@ == status_name(*self),
    {
        match self {
            BatchStatus::Running => "Running",
            BatchStatus::Paused => "Paused",
            BatchStatus::Completed => "Completed",
            BatchStatus::Cancelled => "Cancelled",
            BatchStatus::Failed => "Failed",
        }
    }
}

/// A file currently being processed (in flight).
#[derive(Clone, Debug)]
pub struct InFlightFile {
    pub name: String,
    pub progress_id: String,
}

/// A file that failed during batch processing.
#[derive(Clone, Debug)]
pub struct FailedFile {
    pub name: String,
    pub error: String,
}

/// The in-flight files of `s` other than those with progress id `pid`, in
/// their order.
pub open spec fn without_progress_id(s: Seq<InFlightFile>, pid: Seq<char>) -> Seq<InFlightFile>
    decreases s.len(),
{
    if s.len() == 0 {
        seq![]
    } else if s.last().progress_id@ == pid {
        without_progress_id(s.drop_last(), pid)
    } else {
        without_progress_id(s.drop_last(), pid).push(s.last())
    }
}

/// Queue, in-flight list and counters of one batch ingestion.
pub struct BatchController<P> {
    pub batch_id: String,
    pub status: BatchStatus,
    pub files_total: usize,
    pub files_completed: usize,
    pub files_failed: usize,
    pub failed_files: Vec<FailedFile>,
    pub pending_files: Vec<P>,
    /// Files currently being processed concurrently.
    pub in_flight_files: Vec<InFlightFile>,
    /// Whether the AI provider is local (e.g. Ollama) and therefore free.
    pub is_local_provider: bool,
}

impl<P> BatchController<P> {
    /// The failure count matches the list of failed files.
    pub open spec fn wf(&self) -> bool {
        self.files_failed == self.failed_files@.len()
    }

    /// A running batch over `pending_files`, nothing processed yet.
    pub fn new(batch_id: String, pending_files: Vec<P>, is_local_provider: bool) -> (c: Self)
        ensures
            c.wf(),
            c.batch_id == batch_id,
            c.status == BatchStatus::Running,
            c.files_total == pending_files@.len(),
            c.files_completed == 0,
            c.files_failed == 0,
            c.failed_files@ == Seq::<FailedFile>::empty(),
            c.pending_files@ == pending_files@,
            c.in_flight_files@ == Seq::<InFlightFile>::empty(),
            c.is_local_provider == is_local_provider,
    {
        let files_total = pending_files.len();
        BatchController {
            batch_id,
            status: BatchStatus::Running,
            files_total,
            files_completed: 0,
            files_failed: 0,
            failed_files: Vec::new(),
            pending_files,
            in_flight_files: Vec::new(),
            is_local_provider,
        }
    }

    /// Transition to Paused.
    pub fn pause(&mut self)
        ensures
            final(self).status == BatchStatus::Paused,
            final(self).files_completed == old(self).files_completed,
            final(self).files_failed == old(self).files_failed,
            final(self).failed_files@ == old(self).failed_files@,
            final(self).pending_files@ == old(self).pending_files@,
            final(self).in_flight_files@ == old(self).in_flight_files@,
    {
        self.status = BatchStatus::Paused;
    }

    /// Transition to Running.
    pub fn resume(&mut self)
        ensures
            final(self).status == BatchStatus::Running,
            final(self).files_completed == old(self).files_completed,
            final(self).files_failed == old(self).files_failed,
            final(self).failed_files@ == old(self).failed_files@,
            final(self).pending_files@ == old(self).pending_files@,
            final(self).in_flight_files@ == old(self).in_flight_files@,
    {
        self.status = BatchStatus::Running;
    }

    /// Cancel the batch; the coordinator stops picking up new files.
    pub fn cancel(&mut self)
        ensures
            final(self).status == BatchStatus::Cancelled,
            final(self).files_completed == old(self).files_completed,
            final(self).files_failed == old(self).files_failed,
            final(self).failed_files@ == old(self).failed_files@,
            final(self).pending_files@ == old(self).pending_files@,
            final(self).in_flight_files@ == old(self).in_flight_files@,
    {
        self.status = BatchStatus::Cancelled;
    }

    /// Track a file that has started processing.
    pub fn add_in_flight(&mut self, name: String, progress_id: String)
        ensures
            final(self).in_flight_files@ == old(self).in_flight_files@.push(
                InFlightFile { name, progress_id },
            ),
            final(self).status == old(self).status,
            final(self).files_completed == old(self).files_completed,
            final(self).files_failed == old(self).files_failed,
            final(self).failed_files@ == old(self).failed_files@,
            final(self).pending_files@ == old(self).pending_files@,
    {
        self.in_flight_files.push(InFlightFile { name, progress_id });
    }

    /// Drop every in-flight entry with progress id `progress_id`.
    fn remove_in_flight(&mut self, progress_id: &str)
        ensures
            final(self).in_flight_files@ == without_progress_id(
                old(self).in_flight_files@,
                progress_id@,
            ),
            final(self).status == old(self).status,
            final(self).files_completed == old(self).files_completed,
            final(self).files_failed == old(self).files_failed,
            final(self).failed_files@ == old(self).failed_files@,
            final(self).pending_files@ == old(self).pending_files@,
    {
        let mut kept: Vec<InFlightFile> = Vec::new();
        let mut rest: Vec<InFlightFile> = Vec::new();
        std::mem::swap(&mut rest, &mut self.in_flight_files);
        let ghost all = rest@;
        let ghost mut i: int = 0;
        while rest.len() > 0
            invariant
                0 <= i <= all.len(),
                rest@ == all.skip(i),
                kept@ == without_progress_id(all.take(i), progress_id@),
            decreases rest.len(),
        {
            let f = rest.remove(0);
            proof {
                assert(all.take(i + 1).drop_last() =~= all.take(i));
                assert(f == all[i]);
                assert(all.skip(i).remove(0) =~= all.skip(i + 1));
            }
            if !str_eq(f.progress_id.as_str(), progress_id) {
                kept.push(f);
            }
            proof {
                i = i + 1;
            }
        }
        proof {
            assert(all.take(i) =~= all);
        }
        self.in_flight_files = kept;
    }

    /// Number of files currently being processed.
    pub fn in_flight_count(&self) -> (n: usize)
        ensures
            n == self.in_flight_files@.len(),
    {
        self.in_flight_files.len()
    }

    /// Record that the file with progress id `progress_id` finished.
    pub fn record_completed(&mut self, progress_id: &str)
        requires
            old(self).files_completed < usize::MAX,
        ensures
            final(self).files_completed == old(self).files_completed + 1,
            final(self).files_failed == old(self).files_failed,
            final(self).failed_files@ == old(self).failed_files@,
            final(self).in_flight_files@ == without_progress_id(
                old(self).in_flight_files@,
                progress_id@,
            ),
            final(self).pending_files@ == old(self).pending_files@,
            final(self).status == old(self).status,
            old(self).wf() ==> final(self).wf(),
    {
        self.files_completed = self.files_completed + 1;
        self.remove_in_flight(progress_id);
    }

    /// Record that the file with progress id `progress_id` failed.
    pub fn record_failed(&mut self, progress_id: &str, name: String, error: String)
        requires
            old(self).files_failed < usize::MAX,
        ensures
            final(self).files_failed == old(self).files_failed + 1,
            final(self).failed_files@ == old(self).failed_files@.push(FailedFile { name, error }),
            final(self).files_completed == old(self).files_completed,
            final(self).in_flight_files@ == without_progress_id(
                old(self).in_flight_files@,
                progress_id@,
            ),
            final(self).pending_files@ == old(self).pending_files@,
            final(self).status == old(self).status,
            old(self).wf() ==> final(self).wf(),
    {
        self.files_failed = self.files_failed + 1;
        self.failed_files.push(FailedFile { name, error });
        self.remove_in_flight(progress_id);
    }

    /// Pop the next pending file from the front of the queue.
    pub fn pop_next_file(&mut self) -> (r: Option<P>)
        ensures
            (r, final(self).pending_files@) == popped(old(self).pending_files@),
            final(self).status == old(self).status,
            final(self).files_completed == old(self).files_completed,
            final(self).files_failed == old(self).files_failed,
            final(self).failed_files@ == old(self).failed_files@,
            final(self).in_flight_files@ == old(self).in_flight_files@,
    {
        if self.pending_files.len() == 0 {
            None
        } else {
            let f = self.pending_files.remove(0);
            proof {
                assert(old(self).pending_files@.remove(0) =~= old(self).pending_files@.drop_first());
            }
            Some(f)
        }
    }

    /// Number of files still pending.
    pub fn files_remaining(&self) -> (n: usize)
        ensures
            n == self.pending_files@.len(),
    {
        self.pending_files.len()
    }

    /// The name of the first file in flight, if any.
    pub fn current_file_name(&self) -> (r: Option<String>)
        ensures
            self.in_flight_files@.len() == 0 ==> r is None,
            self.in_flight_files@.len() > 0 ==> (r matches Some(n) && n@
                == self.in_flight_files@[0].name@),
    {
        if self.in_flight_files.len() == 0 {
            None
        } else {
            Some(crate::text::owned(self.in_flight_files[0].name.as_str()))
        }
    }
}

/// Removing a progress id leaves no in-flight entry with that id, keeps
/// every other entry, and never grows the list.
pub proof fn law_removed_id_is_gone(s: Seq<InFlightFile>, pid: Seq<char>)
    ensures
        forall|i: int|
            0 <= i < without_progress_id(s, pid).len() ==> (#[trigger] without_progress_id(
                s,
                pid,
            )[i]).progress_id@ != pid,
        forall|i: int|
            0 <= i < s.len() && (#[trigger] s[i]).progress_id@ != pid ==> without_progress_id(
                s,
                pid,
            ).contains(s[i]),
        without_progress_id(s, pid).len() <= s.len(),
    decreases s.len(),
{
    if s.len() > 0 {
        law_removed_id_is_gone(s.drop_last(), pid);
        let prev = without_progress_id(s.drop_last(), pid);
        assert forall|i: int|
            0 <= i < s.len() && (#[trigger] s[i]).progress_id@ != pid implies without_progress_id(
            s,
            pid,
        ).contains(s[i]) by {
            if i < s.len() - 1 {
                assert(s[i] == s.drop_last()[i]);
                let j = choose|j: int| 0 <= j < prev.len() && prev[j] == s[i];
                if s.last().progress_id@ != pid {
                    assert(without_progress_id(s, pid)[j] == s[i]);
                }
            } else {
                assert(without_progress_id(s, pid)[prev.len() as int] == s[i]);
            }
        }
    }
}

/// The outcome of one pop from the queue `q`: its front entry and the
/// rest, or nothing and the queue unchanged when it is empty.
pub open spec fn popped<P>(q: Seq<P>) -> (Option<P>, Seq<P>) {
    if q.len() == 0 {
        (None, q)
    } else {
        (Some(q[0]), q.drop_first())
    }
}

/// What `n` pops in a row from the queue `q` return, in order.
pub open spec fn pops<P>(q: Seq<P>, n: nat) -> Seq<Option<P>>
    decreases n,
{
    if n == 0 {
        seq![]
    } else {
        seq![popped(q).0] + pops(popped(q).1, (n - 1) as nat)
    }
}

/// Popping serves the queue first in, first out: the `k`-th of `n` pops in
/// a row returns the queue's `k`-th entry, or nothing once it is empty.
pub proof fn law_pop_is_fifo<P>(q: Seq<P>, n: nat, k: int)
    requires
        0 <= k < n,
    ensures
        pops(q, n).len() == n,
        k < q.len() ==> pops(q, n)[k] == Some(q[k]),
        k >= q.len() ==> pops(q, n)[k] is None,
    decreases n,
{
    lemma_pops_len(q, n);
    if k > 0 {
        law_pop_is_fifo(popped(q).1, (n - 1) as nat, k - 1);
        lemma_pops_len(popped(q).1, (n - 1) as nat);
        assert(pops(q, n)[k] == pops(popped(q).1, (n - 1) as nat)[k - 1]);
        if k < q.len() {
            assert(popped(q).1[k - 1] == q[k]);
        }
    }
}

/// `n` pops give `n` outcomes.
pub proof fn lemma_pops_len<P>(q: Seq<P>, n: nat)
    ensures
        pops(q, n).len() == n,
    decreases n,
{
    if n > 0 {
        lemma_pops_len(popped(q).1, (n - 1) as nat);
    }
}

} // verus!
