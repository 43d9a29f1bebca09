//! One fetch-and-save unit per snapshot timestamp, and the bounded
//! admission gate that schedules them: at most `max_concurrency` units
//! run at once, a finishing unit always releases its slot whether it
//! succeeded or failed, and per-item failures never touch sibling
//! tasks.

use crate::digits::{dec_of, u64_to_string};
use crate::time::{compact_utc_of, format_compact_utc, TimePoint};
use vstd::prelude::*;

verus! {

/// One unit of work: fetch the snapshot taken at `timestamp` and save
/// it under `dest_dir`. Created once per element of the timestamp
/// sequence and consumed by exactly one unit of execution.
#[derive(Debug)]
pub struct FetchTask {
    pub timestamp: TimePoint,
    pub dest_dir: String,
}

/// The result of one fetch-and-save unit, labeled by its task's
/// timestamp so outcomes can be reconciled whatever the completion
/// order.
#[derive(PartialEq, Eq, Debug)]
pub enum FetchOutcome {
    /// The snapshot was fetched and written to `path`.
    Saved { path: String },
    /// The task for `timestamp` failed for `reason`; siblings are
    /// unaffected.
    Failed { timestamp: TimePoint, reason: String },
}

/// What happened when a unit ran its task, as reported by the
/// transport and filesystem collaborators.
#[derive(Debug)]
pub enum FetchEvent {
    /// The provider URL could not be constructed.
    UrlInvalid { cause: String },
    /// The network transport failed outright.
    Transport { cause: String },
    /// The server answered with a non-success status.
    BadStatus { status: u16 },
    /// The response arrived but could not be written to disk.
    WriteFailed { cause: String },
    /// The snapshot was fetched and written.
    Written,
}

/// The local file path for a snapshot: the destination directory, a
/// separator, the compact UTC timestamp, and the image extension.
pub open spec fn image_file_path_spec(dest: Seq<char>, t: int) -> Seq<char> {
    dest + "/"@ + compact_utc_of(t) + ".jpg"@
}

/// Computes the local file path a snapshot is saved under.
pub fn image_file_path(dest: &str, t: &TimePoint) -> (r: String)
    requires
        t.wf(),
    ensures
        r@ == image_file_path_spec(dest@, t.secs as int),
{
    let mut s = dest.to_owned();
    s.append("/");
    s.append(format_compact_utc(t).as_str());
    s.append(".jpg");
    proof {
        assert(s@ =~= image_file_path_spec(dest@, t.secs as int));
    }
    s
}

/// A response status on which the snapshot is saved: any success
/// (2xx) status.
pub fn should_save(status: u16) -> (r: bool)
    ensures
        r <==> 200 <= status < 300,
{
    200 <= status && status < 300
}

/// The reason string recorded for a failing event.
pub open spec fn failure_reason(ev: FetchEvent) -> Seq<char> {
    match ev {
        FetchEvent::UrlInvalid { cause } => "url construction failed: "@ + cause@,
        FetchEvent::Transport { cause } => "fetch failed: "@ + cause@,
        FetchEvent::BadStatus { status } => "fetch failed: HTTP status "@ + dec_of(status as nat),
        FetchEvent::WriteFailed { cause } => "write failed: "@ + cause@,
        FetchEvent::Written => Seq::<char>::empty(),
    }
}

/// Concludes one unit: a `Written` event becomes `Saved` with the
/// snapshot's file path, every other event becomes `Failed` for this
/// task's timestamp with the event's reason.
pub fn outcome_of(task: &FetchTask, ev: FetchEvent) -> (r: FetchOutcome)
    requires
        task.timestamp.wf(),
    ensures
        ev is Written ==> (r matches FetchOutcome::Saved { path } && path@
            == image_file_path_spec(task.dest_dir@, task.timestamp.secs as int)),
        !(ev is Written) ==> (r matches FetchOutcome::Failed { timestamp, reason } && timestamp
            == task.timestamp && reason@ == failure_reason(ev)),
{
    match ev {
        FetchEvent::Written => FetchOutcome::Saved {
            path: image_file_path(task.dest_dir.as_str(), &task.timestamp),
        },
        FetchEvent::UrlInvalid { cause } => {
            let mut s = String::from_str("url construction failed: ");
            s.append(cause.as_str());
            FetchOutcome::Failed { timestamp: task.timestamp, reason: s }
        },
        FetchEvent::Transport { cause } => {
            let mut s = String::from_str("fetch failed: ");
            s.append(cause.as_str());
            FetchOutcome::Failed { timestamp: task.timestamp, reason: s }
        },
        FetchEvent::BadStatus { status } => {
            let mut s = String::from_str("fetch failed: HTTP status ");
            s.append(u64_to_string(status as u64).as_str());
            FetchOutcome::Failed { timestamp: task.timestamp, reason: s }
        },
        FetchEvent::WriteFailed { cause } => {
            let mut s = String::from_str("write failed: ");
            s.append(cause.as_str());
            FetchOutcome::Failed { timestamp: task.timestamp, reason: s }
        },
    }
}

/// Builds one task per timestamp, all sharing the destination
/// directory path as a read-only string value.
pub fn build_tasks(times: &Vec<TimePoint>, dest: &str) -> (r: Vec<FetchTask>)
    ensures
        r@.len() == times@.len(),
        forall|i: int|
            0 <= i < r@.len() ==> (#[trigger] r@[i]).timestamp == times@[i] && r@[i].dest_dir@
                == dest@,
{
    let mut out: Vec<FetchTask> = Vec::new();
    let mut i: usize = 0;
    while i < times.len()
        invariant
            0 <= i <= times@.len(),
            out@.len() == i,
            forall|j: int|
                0 <= j < out@.len() ==> (#[trigger] out@[j]).timestamp == times@[j]
                    && out@[j].dest_dir@ == dest@,
        decreases times@.len() - i,
    {
        out.push(FetchTask { timestamp: times[i], dest_dir: dest.to_owned() });
        i = i + 1;
    }
    out
}

/// The admission gate and aggregation state of one run: tasks are
/// dispatched in sequence order, at most `cap` are in flight at once,
/// and every completion (success or failure alike) releases its slot
/// and records its outcome.
pub struct Scheduler {
    /// The tasks of this run, in dispatch order.
    pub tasks: Vec<FetchTask>,
    /// How many tasks have been dispatched so far.
    pub next: usize,
    /// How many dispatched tasks have not completed yet.
    pub in_flight: usize,
    /// The concurrency cap: slots in the admission gate.
    pub cap: usize,
    /// The outcomes recorded so far, in completion order.
    pub outcomes: Vec<FetchOutcome>,
}

impl Scheduler {
    /// The admission gate never over-admits, dispatch never runs ahead of the
    /// task list, and every dispatched task is either in flight or
    /// accounted for by an outcome.
    pub open spec fn wf(self) -> bool {
        &&& self.cap >= 1
        &&& self.next <= self.tasks@.len()
        &&& self.in_flight <= self.cap
        &&& self.outcomes@.len() + self.in_flight == self.next
    }

    /// A fresh run over `tasks` with `cap` admission slots.
    pub fn new(tasks: Vec<FetchTask>, cap: usize) -> (r: Scheduler)
        requires
            cap >= 1,
        ensures
            r.wf(),
            r.tasks@ == tasks@,
            r.next == 0,
            r.in_flight == 0,
            r.cap == cap,
            r.outcomes@.len() == 0,
    {
        Scheduler { tasks, next: 0, in_flight: 0, cap, outcomes: Vec::new() }
    }

    /// Admits the next task when a slot is free and tasks remain:
    /// hands out a copy of the task and takes one slot. Returns
    /// `None`, changing nothing, when every slot is taken or every task
    /// has been dispatched.
    pub fn try_dispatch(&mut self) -> (r: Option<FetchTask>)
        requires
            old(self).wf(),
        ensures
            final(self).wf(),
            final(self).tasks@ == old(self).tasks@,
            final(self).cap == old(self).cap,
            final(self).outcomes@ == old(self).outcomes@,
            if old(self).next < old(self).tasks@.len() && old(self).in_flight < old(self).cap {
                &&& r matches Some(t) && t.timestamp == old(self).tasks@[old(self).next as int].timestamp
                    && t.dest_dir@ == old(self).tasks@[old(self).next as int].dest_dir@
                &&& final(self).next == old(self).next + 1
                &&& final(self).in_flight == old(self).in_flight + 1
            } else {
                &&& r is None
                &&& final(self).next == old(self).next
                &&& final(self).in_flight == old(self).in_flight
            },
    {
        if self.next < self.tasks.len() && self.in_flight < self.cap {
            let t = &self.tasks[self.next];
            let task = FetchTask { timestamp: t.timestamp, dest_dir: t.dest_dir.clone() };
            self.next = self.next + 1;
            self.in_flight = self.in_flight + 1;
            Some(task)
        } else {
            None
        }
    }

    /// Records the outcome of one finished unit and releases its
    /// admission slot. The release is unconditional: a `Failed`
    /// outcome frees the slot exactly as a `Saved` one does, so one
    /// failing task never starves or prevents the others.
    pub fn complete(&mut self, outcome: FetchOutcome)
        requires
            old(self).wf(),
            old(self).in_flight >= 1,
        ensures
            final(self).wf(),
            final(self).tasks@ == old(self).tasks@,
            final(self).cap == old(self).cap,
            final(self).next == old(self).next,
            final(self).in_flight == old(self).in_flight - 1,
            final(self).outcomes@ == old(self).outcomes@.push(outcome),
    {
        self.in_flight = self.in_flight - 1;
        self.outcomes.push(outcome);
    }

    /// Whether every task has been dispatched and has completed.
    pub fn is_done(&self) -> (r: bool)
        ensures
            r == (self.next == self.tasks@.len() && self.in_flight == 0),
    {
        self.next == self.tasks.len() && self.in_flight == 0
    }

    /// When a run is done, there is exactly one recorded outcome per
    /// task.
    pub proof fn lemma_done_accounts_for_all(self)
        requires
            self.wf(),
            self.next == self.tasks@.len(),
            self.in_flight == 0,
        ensures
            self.outcomes@.len() == self.tasks@.len(),
    {
    }

    /// Hands the aggregated outcomes over, in completion order.
    pub fn into_outcomes(self) -> (r: Vec<FetchOutcome>)
        ensures
            r@ == self.outcomes@,
    {
        self.outcomes
    }
}

/// The task indices `0, 1, ..., n - 1` in dispatch order.
pub open spec fn identity_indices(n: int) -> Seq<int> {
    Seq::new(n as nat, |i: int| i)
}

/// `order` is a completion order of `n` tasks: each task index
/// appears in it exactly once.
pub open spec fn is_index_permutation(order: Seq<int>, n: int) -> bool {
    order.to_multiset() == identity_indices(n).to_multiset()
}

proof fn lemma_perm_map_multiset(f: spec_fn(int) -> FetchOutcome, order: Seq<int>, n: int)
    requires
        n >= 0,
        is_index_permutation(order, n),
    ensures
        order.map_values(f).to_multiset() == identity_indices(n).map_values(f).to_multiset(),
    decreases n,
{
    broadcast use vstd::seq_lib::group_to_multiset_ensures;
    broadcast use vstd::multiset::group_multiset_axioms;

    if n == 0 {
        assert(identity_indices(0) =~= Seq::<int>::empty());
        assert(order.to_multiset().len() == 0);
        assert(order.len() == 0);
        assert(order =~= identity_indices(0));
    } else {
        let id = identity_indices(n);
        let id1 = identity_indices(n - 1);
        assert(id[n - 1] == n - 1);
        assert(id.contains(n - 1));
        assert(id.to_multiset().count(n - 1) > 0);
        assert(order.to_multiset().count(n - 1) > 0);
        assert(order.contains(n - 1));
        let k = choose|i: int| 0 <= i < order.len() && order[i] == n - 1;
        assert(0 <= k < order.len() && order[k] == n - 1);
        let rest = order.remove(k);
        assert(rest.to_multiset() =~= order.to_multiset().remove(n - 1));
        assert(id =~= id1.push(n - 1));
        assert(id.to_multiset() =~= id1.to_multiset().insert(n - 1));
        assert(rest.to_multiset() =~= id1.to_multiset()) by {
            assert(id1.to_multiset().insert(n - 1).remove(n - 1) =~= id1.to_multiset());
        }
        lemma_perm_map_multiset(f, rest, n - 1);
        let om = order.map_values(f);
        assert(rest.map_values(f) =~= om.remove(k));
        assert(om[k] == f(n - 1));
        assert(om.remove(k).to_multiset() =~= om.to_multiset().remove(f(n - 1)));
        assert(om.to_multiset().count(f(n - 1)) > 0) by {
            assert(om.contains(f(n - 1)));
        }
        assert(om.to_multiset() =~= om.to_multiset().remove(f(n - 1)).insert(f(n - 1)));
        assert(id.map_values(f) =~= id1.map_values(f).push(f(n - 1)));
        assert(id.map_values(f).to_multiset() =~= id1.map_values(f).to_multiset().insert(f(n - 1)));
        assert(om.to_multiset() =~= id.map_values(f).to_multiset());
    }
}

/// Law: when each task's outcome is a function of the task alone, two
/// runs over the same task list aggregate the same multiset of
/// outcomes whatever order the tasks complete in. The concurrency cap
/// only changes completion order, so any two caps yield the same
/// multiset of outcomes.
pub proof fn lemma_outcomes_order_independent(
    f: spec_fn(int) -> FetchOutcome,
    order1: Seq<int>,
    order2: Seq<int>,
    n: int,
)
    requires
        n >= 0,
        is_index_permutation(order1, n),
        is_index_permutation(order2, n),
    ensures
        order1.map_values(f).to_multiset() == order2.map_values(f).to_multiset(),
{
    lemma_perm_map_multiset(f, order1, n);
    lemma_perm_map_multiset(f, order2, n);
}

} // verus!
