//! Dispatch and aggregation for one synchronization run.
//!
//! The planner hands a row of walk items to a [`Scheduler`], which holds
//! the uploads still to start, those in flight, and the results so far.
//! The caller drives it: `start_next` hands out an upload while fewer
//! than the configured bound are in flight, `complete` records the
//! outcome the backend gave.  One file's failure only ever adds one
//! failure result — it never touches the queue or its siblings — and a
//! run can be cancelled as a whole, which drops all unfinished uploads
//! at once.  [`aggregate`] then folds the results into one report:
//! the run failed if and only if some upload failed or the run was
//! cancelled.

use vstd::prelude::*;

use crate::walker::FaultKind;
use crate::walker::ItemModel;
use crate::walker::TargetModel;
use crate::walker::UploadTarget;
use crate::walker::WalkItem;
use crate::walker::items_model;
use crate::walker::path_model;

verus! {

/// What the backend (or the local read beforehand) said about one
/// dispatched upload.
#[derive(Debug)]
pub enum UploadOutcome {
    Accepted,
    RejectedStorage(String),
    FailedIo(String),
}

/// Mathematical image of an upload outcome.
pub enum OutcomeModel {
    Accepted,
    RejectedStorage { why: Seq<char> },
    FailedIo { why: Seq<char> },
}

impl View for UploadOutcome {
    type V = OutcomeModel;

    open spec fn view(&self) -> OutcomeModel {
        match self {
            UploadOutcome::Accepted => OutcomeModel::Accepted,
            UploadOutcome::RejectedStorage(d) => OutcomeModel::RejectedStorage { why: d@ },
            UploadOutcome::FailedIo(d) => OutcomeModel::FailedIo { why: d@ },
        }
    }
}

/// The recorded outcome of one walk item: the key that was uploaded,
/// or the fault that one node suffered.
#[derive(Debug)]
pub enum UploadResult {
    Success { key: String },
    Failure { kind: FaultKind, path: Vec<String>, detail: String },
}

/// Mathematical image of an upload result.
pub enum ResultModel {
    Success { key: Seq<char> },
    Failure { kind: FaultKind, at: Seq<Seq<char>>, why: Seq<char> },
}

impl View for UploadResult {
    type V = ResultModel;

    open spec fn view(&self) -> ResultModel {
        match self {
            UploadResult::Success { key } => ResultModel::Success { key: key@ },
            UploadResult::Failure { kind, path, detail } => ResultModel::Failure {
                kind: *kind,
                at: path_model(path@),
                why: detail@,
            },
        }
    }
}

/// The mathematical image of a vector of results.
pub open spec fn results_model(s: Seq<UploadResult>) -> Seq<ResultModel> {
    s.map_values(|r: UploadResult| r@)
}

/// The mathematical image of a vector of targets.
pub open spec fn targets_model(s: Seq<UploadTarget>) -> Seq<TargetModel> {
    s.map_values(|t: UploadTarget| t@)
}

/// The result that completing target `t` with outcome `o` records:
/// acceptance yields a success carrying the derived key; a rejection
/// or a local read fault yields a failure carrying the file's path,
/// the matching fault domain, and the backend- or OS-given detail.
pub open spec fn outcome_result(t: TargetModel, o: OutcomeModel) -> ResultModel {
    match o {
        OutcomeModel::Accepted => ResultModel::Success { key: t.key },
        OutcomeModel::RejectedStorage { why } => ResultModel::Failure {
            kind: FaultKind::Storage,
            at: t.path,
            why,
        },
        OutcomeModel::FailedIo { why } => ResultModel::Failure {
            kind: FaultKind::Io,
            at: t.path,
            why,
        },
    }
}

/// The upload targets among a row of walk items, in order.
pub open spec fn plan_targets(items: Seq<ItemModel>) -> Seq<TargetModel>
    decreases items.len(),
{
    if items.len() == 0 {
        Seq::empty()
    } else {
        match items.last() {
            ItemModel::Target { t } => plan_targets(items.drop_last()).push(t),
            ItemModel::Fault { .. } => plan_targets(items.drop_last()),
        }
    }
}

/// The local faults among a row of walk items, already shaped as
/// results, in order.
pub open spec fn plan_faults(items: Seq<ItemModel>) -> Seq<ResultModel>
    decreases items.len(),
{
    if items.len() == 0 {
        Seq::empty()
    } else {
        match items.last() {
            ItemModel::Target { .. } => plan_faults(items.drop_last()),
            ItemModel::Fault { at } => plan_faults(items.drop_last()).push(
                ResultModel::Failure { kind: FaultKind::Io, at, why: Seq::empty() },
            ),
        }
    }
}

/// Every walk item becomes either a queued target or an immediate
/// fault result: the two plans partition the items.
pub proof fn lemma_plan_partition(items: Seq<ItemModel>)
    ensures
        plan_targets(items).len() + plan_faults(items).len() == items.len(),
    decreases items.len(),
{
    if items.len() != 0 {
        lemma_plan_partition(items.drop_last());
    }
}

/// Drives the uploads of one run under a fixed concurrency bound.
pub struct Scheduler {
    pub queue: Vec<UploadTarget>,
    pub in_flight: Vec<UploadTarget>,
    pub results: Vec<UploadResult>,
    pub limit: usize,
    pub cancelled: bool,
    pub total: Ghost<nat>,
}

impl Scheduler {
    /// Uploads not yet started, in order; the next to start is the last.
    pub open spec fn pending(self) -> Seq<TargetModel> {
        targets_model(self.queue@)
    }

    /// Uploads handed out and not yet completed, in dispatch order.
    pub open spec fn flying(self) -> Seq<TargetModel> {
        targets_model(self.in_flight@)
    }

    /// Results recorded so far, in completion order.
    pub open spec fn recorded(self) -> Seq<ResultModel> {
        results_model(self.results@)
    }

    /// The configured bound on simultaneously in-flight uploads.
    pub open spec fn bound(self) -> nat {
        self.limit as nat
    }

    /// Whether the run was aborted as a whole.
    pub open spec fn is_cancelled(self) -> bool {
        self.cancelled
    }

    /// How many items the run set out to account for.
    pub open spec fn total(self) -> nat {
        self.total@
    }

    /// The scheduler's invariant: the bound is positive and never
    /// exceeded, and, unless the run was cancelled, queued, in-flight
    /// and recorded items together account for every planned item.
    pub open spec fn wf(self) -> bool {
        &&& self.limit >= 1
        &&& self.in_flight@.len() <= self.limit
        &&& (!self.cancelled ==> self.queue@.len() + self.in_flight@.len() + self.results@.len()
            == self.total@)
        &&& (self.cancelled ==> self.queue@.len() == 0 && self.in_flight@.len() == 0)
    }

    /// Seeds a run from the planner's items: targets are queued, and
    /// each unreadable node is recorded at once as an isolated local
    /// fault, leaving its siblings' uploads untouched.
    pub fn seed(items: Vec<WalkItem>, limit: usize) -> (s: Scheduler)
        requires
            limit >= 1,
        ensures
            s.wf(),
            !s.is_cancelled(),
            s.bound() == limit,
            s.pending() == plan_targets(items_model(items@)),
            s.flying() == Seq::<TargetModel>::empty(),
            s.recorded() == plan_faults(items_model(items@)),
            s.total() == items@.len(),
    {
        let ghost orig = items@;
        let mut items = items;
        let mut queue: Vec<UploadTarget> = Vec::new();
        let mut results: Vec<UploadResult> = Vec::new();
        let ghost mut k: int = 0;
        while items.len() > 0
            invariant
                0 <= k <= orig.len(),
                items@ =~= orig.skip(k),
                targets_model(queue@) == plan_targets(items_model(orig.take(k))),
                results_model(results@) == plan_faults(items_model(orig.take(k))),
            decreases items@.len(),
        {
            let it = items.remove(0);
            proof {
                assert(it == orig[k]);
                let tk = orig.take(k + 1);
                assert(tk.drop_last() =~= orig.take(k));
                assert(tk.last() == orig[k]);
                assert(items_model(tk).drop_last() =~= items_model(tk.drop_last()));
                assert(items_model(tk).last() == orig[k]@);
                assert(items_model(tk) =~= items_model(orig.take(k)).push(orig[k]@));
            }
            match it {
                WalkItem::Target(t) => {
                    queue.push(t);
                },
                WalkItem::Fault(p) => {
                    results.push(
                        UploadResult::Failure {
                            kind: FaultKind::Io,
                            path: p,
                            detail: String::new(),
                        },
                    );
                },
            }
            proof {
                let tk = orig.take(k + 1);
                assert(targets_model(queue@) =~= plan_targets(items_model(tk)));
                assert(results_model(results@) =~= plan_faults(items_model(tk)));
                k = k + 1;
                assert(items@ =~= orig.skip(k));
            }
        }
        proof {
            assert(orig.take(orig.len() as int) =~= orig);
            lemma_plan_partition(items_model(orig));
            assert(items_model(orig).len() == orig.len());
        }
        Scheduler {
            queue,
            in_flight: Vec::new(),
            results,
            limit,
            cancelled: false,
            total: Ghost(orig.len() as nat),
        }
    }

    /// Hands out the next upload if one is pending and fewer than the
    /// bound are in flight; otherwise changes nothing.  The dispatched
    /// target is tracked as in flight until `complete` records it.
    pub fn start_next(&mut self) -> (r: Option<UploadTarget>)
        requires
            old(self).wf(),
        ensures
            final(self).wf(),
            final(self).bound() == old(self).bound(),
            final(self).total() == old(self).total(),
            final(self).is_cancelled() == old(self).is_cancelled(),
            final(self).recorded() == old(self).recorded(),
            match r {
                Some(t) => {
                    &&& old(self).pending().len() > 0
                    &&& old(self).flying().len() < old(self).bound()
                    &&& t@ == old(self).pending().last()
                    &&& final(self).pending() == old(self).pending().drop_last()
                    &&& final(self).flying() == old(self).flying().push(t@)
                },
                None => {
                    &&& *final(self) == *old(self)
                    &&& (old(self).pending().len() == 0 || old(self).flying().len() >= old(
                        self,
                    ).bound())
                },
            },
    {
        if self.in_flight.len() < self.limit && self.queue.len() > 0 {
            let t = self.queue.pop().unwrap();
            let copy = clone_target(&t);
            self.in_flight.push(t);
            proof {
                assert(targets_model(old(self).queue@.drop_last()) =~= targets_model(
                    old(self).queue@,
                ).drop_last());
                assert(targets_model(self.in_flight@) =~= targets_model(
                    old(self).in_flight@,
                ).push(copy@));
            }
            Some(copy)
        } else {
            None
        }
    }

    /// Records the outcome of the in-flight upload at position `i`.
    /// Exactly one result is appended — success with the derived key,
    /// or a failure in the matching fault domain — and no other upload
    /// is disturbed.
    pub fn complete(&mut self, i: usize, outcome: UploadOutcome)
        requires
            old(self).wf(),
            i < old(self).flying().len(),
        ensures
            final(self).wf(),
            final(self).bound() == old(self).bound(),
            final(self).total() == old(self).total(),
            final(self).is_cancelled() == old(self).is_cancelled(),
            final(self).pending() == old(self).pending(),
            final(self).flying() == old(self).flying().remove(i as int),
            final(self).recorded() == old(self).recorded().push(
                outcome_result(old(self).flying()[i as int], outcome@),
            ),
    {
        let t = self.in_flight.remove(i);
        let result = match outcome {
            UploadOutcome::Accepted => UploadResult::Success { key: t.key },
            UploadOutcome::RejectedStorage(detail) => UploadResult::Failure {
                kind: FaultKind::Storage,
                path: t.path,
                detail,
            },
            UploadOutcome::FailedIo(detail) => UploadResult::Failure {
                kind: FaultKind::Io,
                path: t.path,
                detail,
            },
        };
        self.results.push(result);
        proof {
            assert(targets_model(self.in_flight@) =~= targets_model(old(self).in_flight@).remove(
                i as int,
            ));
            assert(results_model(self.results@) =~= results_model(old(self).results@).push(
                outcome_result(targets_model(old(self).in_flight@)[i as int], outcome@),
            ));
        }
    }

    /// How many uploads are in flight right now.
    pub fn flying_count(&self) -> (n: usize)
        ensures
            n == self.flying().len(),
    {
        self.in_flight.len()
    }

    /// Whether every planned upload has started and completed.
    pub fn is_done(&self) -> (r: bool)
        ensures
            r == (self.pending().len() == 0 && self.flying().len() == 0),
    {
        self.queue.len() == 0 && self.in_flight.len() == 0
    }

    /// Aborts the run as a whole: every not-yet-started and in-flight
    /// upload is dropped at once and nothing more will be recorded.
    /// This is the one event that discards work — per-file faults never
    /// trigger it.
    pub fn cancel(&mut self)
        requires
            old(self).wf(),
        ensures
            final(self).wf(),
            final(self).is_cancelled(),
            final(self).bound() == old(self).bound(),
            final(self).total() == old(self).total(),
            final(self).pending() == Seq::<TargetModel>::empty(),
            final(self).flying() == Seq::<TargetModel>::empty(),
            final(self).recorded() == old(self).recorded(),
    {
        self.queue.clear();
        self.in_flight.clear();
        self.cancelled = true;
        proof {
            assert(targets_model(self.queue@) =~= Seq::<TargetModel>::empty());
            assert(targets_model(self.in_flight@) =~= Seq::<TargetModel>::empty());
        }
    }

    /// Surrenders the recorded results of a finished run.
    pub fn into_results(self) -> (r: Vec<UploadResult>)
        ensures
            results_model(r@) == self.recorded(),
    {
        let Scheduler { results, .. } = self;
        results
    }
}

/// The concurrency bound holds in every reachable scheduler state: at
/// most the configured maximum of uploads is in flight at any moment.
pub proof fn lemma_concurrency_bound(s: Scheduler)
    requires
        s.wf(),
    ensures
        s.flying().len() <= s.bound(),
{
}

/// Coverage at completion: when nothing is pending or in flight and the
/// run was not cancelled, exactly one result stands per planned item.
pub proof fn lemma_done_coverage(s: Scheduler)
    requires
        s.wf(),
        !s.is_cancelled(),
        s.pending().len() == 0,
        s.flying().len() == 0,
    ensures
        s.recorded().len() == s.total(),
{
}

/// Coverage, end to end: a finished, uncancelled run that was seeded
/// from the walk of a fully readable tree records exactly one result
/// per regular file, however the tree nests and in whatever order the
/// uploads ran.
pub proof fn lemma_run_coverage(t: crate::walker::FsTree, s: Scheduler)
    requires
        crate::walker::all_readable(t),
        s.wf(),
        !s.is_cancelled(),
        s.pending().len() == 0,
        s.flying().len() == 0,
        s.total() == crate::walker::walk_model(t, Seq::<Seq<char>>::empty()).len(),
    ensures
        s.recorded().len() == crate::walker::file_count(t),
{
    crate::walker::lemma_readable_walk_all_targets(t, Seq::<Seq<char>>::empty());
}

/// How many of a run's results report success.
pub open spec fn count_successes(s: Seq<ResultModel>) -> nat
    decreases s.len(),
{
    if s.len() == 0 {
        0
    } else {
        count_successes(s.drop_last()) + if s.last() is Success {
            1nat
        } else {
            0
        }
    }
}

/// The failures among a run's results, in order.
pub open spec fn failures_only(s: Seq<ResultModel>) -> Seq<ResultModel>
    decreases s.len(),
{
    if s.len() == 0 {
        Seq::empty()
    } else if s.last() is Failure {
        failures_only(s.drop_last()).push(s.last())
    } else {
        failures_only(s.drop_last())
    }
}

/// Every result is a success or a failure: the two tallies partition
/// the results of a run.
pub proof fn lemma_result_partition(s: Seq<ResultModel>)
    ensures
        count_successes(s) + failures_only(s).len() == s.len(),
    decreases s.len(),
{
    if s.len() != 0 {
        lemma_result_partition(s.drop_last());
    }
}

/// Isolation: among any F recorded results of which exactly one is a
/// failure, the other F − 1 are successes — one file's fault never
/// costs a sibling its upload.
pub proof fn lemma_failure_isolation(s: Seq<ResultModel>)
    requires
        failures_only(s).len() == 1,
    ensures
        count_successes(s) == s.len() - 1,
{
    lemma_result_partition(s);
}

/// One run's results, folded for the caller: how many objects were
/// uploaded, which nodes failed and why, and whether the run was
/// aborted as a whole.
#[derive(Debug)]
pub struct RunReport {
    pub uploaded: usize,
    pub failures: Vec<UploadResult>,
    pub cancelled: bool,
}

/// A run failed exactly when some node's upload or enumeration failed,
/// or the run as a whole was cancelled.
pub open spec fn run_failed(rep: RunReport) -> bool {
    rep.failures@.len() > 0 || rep.cancelled
}

impl RunReport {
    /// Whether the run is to be reported as failed.
    pub fn is_failed(&self) -> (r: bool)
        ensures
            r == run_failed(*self),
    {
        self.failures.len() > 0 || self.cancelled
    }
}

/// Folds a finished run's results into one report: the success count,
/// and every failure, kept in order with its path, fault domain and
/// detail, so the caller can see exactly which files did not transfer.
pub fn aggregate(results: &Vec<UploadResult>, cancelled: bool) -> (rep: RunReport)
    ensures
        rep.cancelled == cancelled,
        rep.uploaded as nat == count_successes(results_model(results@)),
        results_model(rep.failures@) == failures_only(results_model(results@)),
        rep.uploaded + rep.failures@.len() == results@.len(),
{
    let mut uploaded: usize = 0;
    let mut failures: Vec<UploadResult> = Vec::new();
    let mut i: usize = 0;
    while i < results.len()
        invariant
            i <= results@.len(),
            uploaded as nat == count_successes(results_model(results@.take(i as int))),
            results_model(failures@) == failures_only(results_model(results@.take(i as int))),
            uploaded + failures@.len() == i,
        decreases results@.len() - i,
    {
        proof {
            let tk = results@.take(i as int + 1);
            assert(results_model(tk).drop_last() =~= results_model(results@.take(i as int)));
            assert(results_model(tk).last() == results@[i as int]@);
        }
        match &results[i] {
            UploadResult::Success { .. } => {
                uploaded = uploaded + 1;
            },
            UploadResult::Failure { .. } => {
                failures.push(clone_result(&results[i]));
                proof {
                    assert(results_model(failures@) =~= failures_only(
                        results_model(results@.take(i as int + 1)),
                    ));
                }
            },
        }
        i += 1;
    }
    proof {
        assert(results@.take(results@.len() as int) =~= results@);
        lemma_result_partition(results_model(results@));
    }
    RunReport { uploaded, failures, cancelled }
}

/// Clones one recorded result.
fn clone_result(r: &UploadResult) -> (c: UploadResult)
    ensures
        c@ == r@,
{
    match r {
        UploadResult::Success { key } => UploadResult::Success { key: key.clone() },
        UploadResult::Failure { kind, path, detail } => {
            let p = path.clone();
            proof {
                assert forall|i: int| 0 <= i < path@.len() implies p@[i] == path@[i] by {
                    assert(cloned::<String>(path@[i], p@[i]));
                }
                assert(p@ =~= path@);
            }
            UploadResult::Failure { kind: *kind, path: p, detail: detail.clone() }
        },
    }
}

/// Clones one upload target, path, key and contents alike.
fn clone_target(t: &UploadTarget) -> (r: UploadTarget)
    ensures
        r@ == t@,
{
    let path = t.path.clone();
    let content = t.content.clone();
    proof {
        assert forall|i: int| 0 <= i < t.path@.len() implies path@[i] == t.path@[i] by {
            assert(cloned::<String>(t.path@[i], path@[i]));
        }
        assert(path@ =~= t.path@);
        assert forall|i: int| 0 <= i < t.content@.len() implies content@[i] == t.content@[i] by {
            assert(cloned::<u8>(t.content@[i], content@[i]));
        }
        assert(content@ =~= t.content@);
    }
    UploadTarget { path, key: t.key.clone(), content }
}

} // verus!
