//! The progress an Apple import job reports: what it records after the
//! export, after each ingested batch and when it ends, and how a
//! background sync sums up the batches that failed.

use crate::apple::records::{join_strings, join_with};
use crate::text::{decimal, decimal_string, owned, push_str};
use vstd::arithmetic::div_mod::{lemma_div_is_ordered, lemma_div_multiples_vanish};
use vstd::prelude::*;

verus! {

/// The Apple source an import job exports.
#[derive(Clone, Copy, Debug, PartialEq, Eq, Structural)]
pub enum ImportKind {
    Notes,
    Reminders,
    Photos,
}

/// The state a job report gives.
#[derive(Clone, Copy, Debug, PartialEq, Eq, Structural)]
pub enum JobState {
    Running,
    Completed,
    Failed,
}

/// The counts a finished job reports.
#[derive(Clone, Copy, Debug, PartialEq, Eq, Structural)]
pub struct ImportTotals {
    pub total: usize,
    pub ingested: usize,
}

/// One report of a job's progress.
#[derive(Debug)]
pub struct JobReport {
    pub state: JobState,
    pub percentage: u8,
    pub message: String,
    pub totals: Option<ImportTotals>,
}

/// What the export step of a job came back with.
#[derive(Debug)]
pub enum ExportOutcome {
    /// The export failed with this message.
    Failed(String),
    /// The blocking task that ran the export panicked with this message.
    Panicked(String),
    /// The export produced this many items.
    Exported(usize),
}

/// The percentage a job reports when it starts.
pub const START_PERCENT: u8 = 5;

/// The word for the items of a job.
pub open spec fn noun(kind: ImportKind) -> Seq<char> {
    match kind {
        ImportKind::Notes => "notes"@,
        ImportKind::Reminders => "reminders"@,
        ImportKind::Photos => "photos"@,
    }
}

fn noun_exec(kind: ImportKind) -> (s: &'static str)
    ensures
        s@ == noun(kind),
{
    match kind {
        ImportKind::Notes => "notes",
        ImportKind::Reminders => "reminders",
        ImportKind::Photos => "photos",
    }
}

/// The message of a job that has just started.
pub open spec fn start_text(kind: ImportKind) -> Seq<char> {
    match kind {
        ImportKind::Notes => "Extracting notes from Apple Notes..."@,
        ImportKind::Reminders => "Extracting reminders..."@,
        ImportKind::Photos => "Exporting photos from Apple Photos..."@,
    }
}

/// The message of a job that has just started.
pub fn start_message(kind: ImportKind) -> (s: &'static str)
    ensures
        s@ == start_text(kind),
{
    match kind {
        ImportKind::Notes => "Extracting notes from Apple Notes...",
        ImportKind::Reminders => "Extracting reminders...",
        ImportKind::Photos => "Exporting photos from Apple Photos...",
    }
}

/// What stands before the error of a failed export.
pub open spec fn failed_prefix(kind: ImportKind) -> Seq<char> {
    match kind {
        ImportKind::Notes => "Failed to extract notes: "@,
        ImportKind::Reminders => "Failed to extract reminders: "@,
        ImportKind::Photos => "Failed to export photos: "@,
    }
}

/// What stands before the message of a panicked export task.
pub open spec fn panicked_prefix(kind: ImportKind) -> Seq<char> {
    match kind {
        ImportKind::Photos => "Export task panicked: "@,
        _ => "Extraction task panicked: "@,
    }
}

/// The message of a job whose export produced `n > 0` items.
pub open spec fn exported_text(kind: ImportKind, n: nat) -> Seq<char> {
    match kind {
        ImportKind::Photos => "Exported "@ + decimal(n) + " photos, uploading..."@,
        _ => "Extracted "@ + decimal(n) + " "@ + noun(kind) + ", ingesting..."@,
    }
}

/// The percentage of a job whose export produced items.
pub open spec fn exported_percentage(kind: ImportKind) -> u8 {
    match kind {
        ImportKind::Reminders => 40,
        _ => 30,
    }
}

/// The message of a job that has ended with `ingested` items ingested.
pub open spec fn done_text(kind: ImportKind, ingested: nat) -> Seq<char> {
    "Imported "@ + decimal(ingested) + " "@ + noun(kind)
}

/// The message of a job on a machine without Apple's applications.
pub open spec fn unavailable_text() -> Seq<char> {
    "Apple import is only available on macOS"@
}

fn prefixed(prefix: &str, rest: &str) -> (s: String)
    ensures
        s@ == prefix@ + rest@,
{
    let mut s = owned(prefix);
    push_str(&mut s, rest);
    s
}

/// The report a job makes once its export has come back.
pub fn after_export(kind: ImportKind, outcome: &ExportOutcome) -> (r: JobReport)
    ensures
        match outcome {
            ExportOutcome::Failed(e) => r.state == JobState::Failed && r.message@ == failed_prefix(
                kind,
            ) + e@ && r.totals.is_none(),
            ExportOutcome::Panicked(e) => r.state == JobState::Failed && r.message@
                == panicked_prefix(kind) + e@ && r.totals.is_none(),
            ExportOutcome::Exported(n) => if *n == 0 {
                &&& r.state == JobState::Completed
                &&& r.percentage == 100
                &&& r.message@ == "No "@ + noun(kind) + " found"@
                &&& r.totals == Some(ImportTotals { total: 0, ingested: 0 })
            } else {
                &&& r.state == JobState::Running
                &&& r.percentage == exported_percentage(kind)
                &&& r.message@ == exported_text(kind, *n as nat)
                &&& r.totals.is_none()
            },
        },
{
    match outcome {
        ExportOutcome::Failed(e) => {
            let prefix = match kind {
                ImportKind::Notes => "Failed to extract notes: ",
                ImportKind::Reminders => "Failed to extract reminders: ",
                ImportKind::Photos => "Failed to export photos: ",
            };
            JobReport {
                state: JobState::Failed,
                percentage: 0,
                message: prefixed(prefix, e.as_str()),
                totals: None,
            }
        },
        ExportOutcome::Panicked(e) => {
            let prefix = match kind {
                ImportKind::Photos => "Export task panicked: ",
                _ => "Extraction task panicked: ",
            };
            JobReport {
                state: JobState::Failed,
                percentage: 0,
                message: prefixed(prefix, e.as_str()),
                totals: None,
            }
        },
        ExportOutcome::Exported(n) => {
            if *n == 0 {
                let mut m = owned("No ");
                push_str(&mut m, noun_exec(kind));
                push_str(&mut m, " found");
                JobReport {
                    state: JobState::Completed,
                    percentage: 100,
                    message: m,
                    totals: Some(ImportTotals { total: 0, ingested: 0 }),
                }
            } else {
                let count = decimal_string(*n as u64);
                let mut m = String::new();
                let pct: u8;
                match kind {
                    ImportKind::Photos => {
                        push_str(&mut m, "Exported ");
                        push_str(&mut m, count.as_str());
                        push_str(&mut m, " photos, uploading...");
                        pct = 30;
                    },
                    _ => {
                        push_str(&mut m, "Extracted ");
                        push_str(&mut m, count.as_str());
                        push_str(&mut m, " ");
                        push_str(&mut m, noun_exec(kind));
                        push_str(&mut m, ", ingesting...");
                        pct = if kind == ImportKind::Reminders {
                            40
                        } else {
                            30
                        };
                    },
                }
                JobReport { state: JobState::Running, percentage: pct, message: m, totals: None }
            }
        },
    }
}

/// The report of a job on a machine without Apple's applications.
pub fn unavailable_report() -> (r: JobReport)
    ensures
        r.state == JobState::Failed,
        r.message@ == unavailable_text(),
        r.totals.is_none(),
{
    JobReport {
        state: JobState::Failed,
        percentage: 0,
        message: owned("Apple import is only available on macOS"),
        totals: None,
    }
}

/// `a / b` rounded up (`usize::div_ceil`), for `b > 0`.
pub open spec fn div_ceil(a: int, b: int) -> int {
    if a % b == 0 {
        a / b
    } else {
        a / b + 1
    }
}

/// How many items a job ingests in one batch: notes go in batches of ten,
/// photos one at a time, reminders all at once.
pub open spec fn batch_size(kind: ImportKind, total: nat) -> nat {
    match kind {
        ImportKind::Notes => 10,
        ImportKind::Photos => 1,
        ImportKind::Reminders => total,
    }
}

/// How many batches a job of `total > 0` items ingests.
pub open spec fn step_count(kind: ImportKind, total: nat) -> nat {
    div_ceil(total as int, batch_size(kind, total) as int) as nat
}

/// How many of the items the first `steps` batches hold.
pub open spec fn covered(kind: ImportKind, total: nat, steps: nat) -> nat {
    if steps * batch_size(kind, total) >= total {
        total
    } else {
        steps * batch_size(kind, total)
    }
}

/// The percentage a job reports after `steps` of its `n` batches: thirty
/// for the export, and the share of the batches done of seventy more.
pub open spec fn step_percentage(steps: nat, n: nat) -> int {
    let share: int = (steps * 70) as int / n as int;
    30 + if share >= 70 {
        70
    } else {
        share
    }
}

/// The message a job reports after a batch: notes count the items
/// ingested, photos the photos tried.
pub open spec fn step_text(kind: ImportKind, steps: nat, ingested: nat, total: nat) -> Seq<char> {
    match kind {
        ImportKind::Photos => "Ingesting "@ + decimal(steps) + "/"@ + decimal(total)
            + " photos..."@,
        _ => "Ingested "@ + decimal(ingested) + "/"@ + decimal(total) + " "@ + noun(kind)
            + "..."@,
    }
}

proof fn lemma_step_count_within_total(kind: ImportKind, total: nat)
    requires
        total > 0,
    ensures
        step_count(kind, total) <= total,
{
    if kind == ImportKind::Reminders {
        assert(total as int % total as int == 0 && total as int / total as int == 1)
            by (nonlinear_arith)
            requires
                total > 0,
        ;
    }
}

/// A job that ingests the items its export produced, batch by batch.
pub struct ImportRun {
    kind: ImportKind,
    total: usize,
    ingested: usize,
    steps: usize,
}

impl ImportRun {
    /// The kind of the job.
    pub closed spec fn kind_of(self) -> ImportKind {
        self.kind
    }

    /// How many items the export produced.
    pub closed spec fn total_of(self) -> nat {
        self.total as nat
    }

    /// How many items have been ingested.
    pub closed spec fn ingested_of(self) -> nat {
        self.ingested as nat
    }

    /// How many batches have been sent.
    pub closed spec fn steps_of(self) -> nat {
        self.steps as nat
    }

    /// The job has items, has sent no more batches than there are, and has
    /// ingested no more items than those batches held.
    pub closed spec fn wf(self) -> bool {
        &&& self.total > 0
        &&& self.steps <= step_count(self.kind, self.total as nat)
        &&& self.ingested <= covered(self.kind, self.total as nat, self.steps as nat)
    }

    /// A job over the `total > 0` items an export produced.
    pub fn begin(kind: ImportKind, total: usize) -> (r: ImportRun)
        requires
            total > 0,
        ensures
            r.wf(),
            r.kind_of() == kind,
            r.total_of() == total,
            r.ingested_of() == 0,
            r.steps_of() == 0,
    {
        ImportRun { kind, total, ingested: 0, steps: 0 }
    }

    /// How many items have been ingested.
    pub fn ingested(&self) -> (n: usize)
        ensures
            n == self.ingested_of(),
    {
        self.ingested
    }

    /// Whether every batch has been sent.
    pub fn is_done(&self) -> (b: bool)
        requires
            self.wf(),
        ensures
            b <==> self.steps_of() == step_count(self.kind_of(), self.total_of()),
    {
        let n = self.batch_count();
        self.steps == n
    }

    fn batch_count(&self) -> (n: usize)
        requires
            self.total > 0,
        ensures
            n == step_count(self.kind, self.total as nat),
    {
        match self.kind {
            ImportKind::Notes => {
                let q = self.total / 10;
                if self.total % 10 == 0 {
                    q
                } else {
                    q + 1
                }
            },
            ImportKind::Photos => self.total,
            ImportKind::Reminders => {
                assert(self.total as int % self.total as int == 0 && self.total as int
                    / self.total as int == 1) by (nonlinear_arith)
                    requires
                        self.total > 0,
                ;
                1
            },
        }
    }

    fn batch(&self) -> (b: usize)
        ensures
            b == batch_size(self.kind, self.total as nat),
    {
        match self.kind {
            ImportKind::Notes => 10,
            ImportKind::Photos => 1,
            ImportKind::Reminders => self.total,
        }
    }

    fn covered_exec(&self, steps: usize) -> (c: usize)
        ensures
            c == covered(self.kind, self.total as nat, steps as nat),
    {
        let b = self.batch();
        assert((steps as int) * (b as int) <= 0xffff_ffff_ffff_ffff * 0xffff_ffff_ffff_ffff)
            by (nonlinear_arith)
            requires
                steps <= 0xffff_ffff_ffff_ffff,
                b <= 0xffff_ffff_ffff_ffff,
        ;
        let prod: u128 = (steps as u128) * (b as u128);
        if prod >= self.total as u128 {
            self.total
        } else {
            prod as usize
        }
    }

    /// Records the outcome of the next batch: its items count as ingested
    /// when it succeeded. Notes and photos report their progress after
    /// each batch; reminders, sent in one batch, report only at the end.
    pub fn record_batch(&mut self, succeeded: bool) -> (r: Option<JobReport>)
        requires
            old(self).wf(),
            old(self).steps_of() < step_count(old(self).kind_of(), old(self).total_of()),
        ensures
            final(self).wf(),
            final(self).kind_of() == old(self).kind_of(),
            final(self).total_of() == old(self).total_of(),
            final(self).steps_of() == old(self).steps_of() + 1,
            final(self).ingested_of() == old(self).ingested_of() + if succeeded {
                covered(old(self).kind_of(), old(self).total_of(), old(self).steps_of() + 1)
                    - covered(old(self).kind_of(), old(self).total_of(), old(self).steps_of())
            } else {
                0
            },
            old(self).kind_of() == ImportKind::Reminders ==> r.is_none(),
            old(self).kind_of() != ImportKind::Reminders ==> r.is_some() && ({
                let rep = r.unwrap();
                &&& rep.state == JobState::Running
                &&& rep.percentage == step_percentage(
                    final(self).steps_of(),
                    step_count(old(self).kind_of(), old(self).total_of()),
                )
                &&& rep.message@ == step_text(
                    old(self).kind_of(),
                    final(self).steps_of(),
                    final(self).ingested_of(),
                    old(self).total_of(),
                )
                &&& rep.totals.is_none()
            }),
    {
        proof {
            lemma_step_count_within_total(self.kind, self.total as nat);
        }
        let before = self.covered_exec(self.steps);
        let after = self.covered_exec(self.steps + 1);
        proof {
            let b = batch_size(self.kind, self.total as nat);
            assert(b > 0);
            assert((self.steps + 1) * b == self.steps * b + b) by (nonlinear_arith);
            assert(before <= after);
        }
        if succeeded {
            self.ingested = self.ingested + (after - before);
        }
        self.steps = self.steps + 1;
        let n = self.batch_count();
        proof {
            assert(self.ingested <= covered(self.kind, self.total as nat, self.steps as nat));
        }
        if self.kind == ImportKind::Reminders {
            return None;
        }
        let share: u128 = (self.steps as u128) * 70 / (n as u128);
        let pct: u8 = if share >= 70 {
            100
        } else {
            30 + share as u8
        };
        let mut m = String::new();
        if self.kind == ImportKind::Photos {
            push_str(&mut m, "Ingesting ");
            let s = decimal_string(self.steps as u64);
            push_str(&mut m, s.as_str());
        } else {
            push_str(&mut m, "Ingested ");
            let s = decimal_string(self.ingested as u64);
            push_str(&mut m, s.as_str());
        }
        push_str(&mut m, "/");
        let t = decimal_string(self.total as u64);
        push_str(&mut m, t.as_str());
        if self.kind == ImportKind::Photos {
            push_str(&mut m, " photos...");
        } else {
            push_str(&mut m, " ");
            push_str(&mut m, noun_exec(self.kind));
            push_str(&mut m, "...");
        }
        Some(JobReport { state: JobState::Running, percentage: pct, message: m, totals: None })
    }

    /// The report of the ended job: completed, with how many of the items
    /// were ingested.
    pub fn finish(&self) -> (r: JobReport)
        ensures
            r.state == JobState::Completed,
            r.percentage == 100,
            r.message@ == done_text(self.kind_of(), self.ingested_of()),
            r.totals matches Some(t) && t.total == self.total_of() && t.ingested
                == self.ingested_of(),
    {
        let mut m = owned("Imported ");
        let d = decimal_string(self.ingested as u64);
        push_str(&mut m, d.as_str());
        push_str(&mut m, " ");
        push_str(&mut m, noun_exec(self.kind));
        JobReport {
            state: JobState::Completed,
            percentage: 100,
            message: m,
            totals: Some(ImportTotals { total: self.total, ingested: self.ingested }),
        }
    }
}

/// A job's progress never goes back and never passes a hundred: after
/// `a <= b` of its `n` batches it reports no more than after `b`, and at
/// least thirty.
pub proof fn law_progress_is_monotone(a: nat, b: nat, n: nat)
    requires
        a <= b,
        n > 0,
    ensures
        30 <= step_percentage(a, n) <= step_percentage(b, n) <= 100,
{
    assert(a * 70 <= b * 70) by (nonlinear_arith)
        requires
            a <= b,
    ;
    lemma_div_is_ordered((a * 70) as int, (b * 70) as int, n as int);
}

/// After its last batch a job reports a hundred percent.
pub proof fn law_last_batch_reaches_hundred(n: nat)
    requires
        n > 0,
    ensures
        step_percentage(n, n) == 100,
{
    lemma_div_multiples_vanish(70, n as int);
    assert(n * 70 == n as int * 70);
}

/// A job ingests no more items than its export produced.
pub proof fn law_ingested_within_total(run: ImportRun)
    requires
        run.wf(),
    ensures
        run.ingested_of() <= run.total_of(),
{
}

/// How many batches of ten a background sync sends for `n` records.
pub fn sync_batch_count(n: usize) -> (c: usize)
    ensures
        c == div_ceil(n as int, 10),
{
    let q = n / 10;
    if n % 10 == 0 {
        q
    } else {
        q + 1
    }
}

/// The outcome a background sync of one source records: success when no
/// batch failed, and otherwise how many of the `total` batches (or photos,
/// as `unit` says) failed, and their errors joined by `"; "`.
pub fn failure_summary(failures: &Vec<String>, total: usize, unit: &str) -> (r: Result<
    (),
    String,
>)
    ensures
        r is Ok <==> failures.len() == 0,
        r matches Err(m) ==> m@ == decimal(failures.len() as nat) + "/"@ + decimal(total as nat)
            + " "@ + unit@ + " failed: "@ + join_with(
            failures@.map_values(|x: String| x@),
            "; "@,
        ),
{
    if failures.len() == 0 {
        return Ok(());
    }
    let n = decimal_string(failures.len() as u64);
    let mut m = n;
    push_str(&mut m, "/");
    let t = decimal_string(total as u64);
    push_str(&mut m, t.as_str());
    push_str(&mut m, " ");
    push_str(&mut m, unit);
    push_str(&mut m, " failed: ");
    let joined = join_strings(failures, "; ");
    push_str(&mut m, joined.as_str());
    Err(m)
}

} // verus!
