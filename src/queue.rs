use vstd::prelude::*;
use vstd::string::*;

use crate::shell::{decimal, decimal_text};

verus! {

/// A moment read from the monotonic clock.
#[verifier::external_type_specification]
#[verifier::external_body]
pub struct ExInstant(std::time::Instant);

/// Relies on std::time::Instant::now: the current moment; nothing more is known of it.
#[verifier::external_body]
fn now() -> (r: std::time::Instant) {
    std::time::Instant::now()
}

/// Which way a transfer goes.
#[derive(Debug, Clone, Copy, PartialEq, Eq, Structural)]
pub enum Direction {
    Upload,
    Download,
}

/// A fraction `done / total` of a transfer, with `0 <= done <= total` and `total > 0`.
#[derive(Debug, Clone, Copy, PartialEq, Eq, Structural)]
pub struct Fraction {
    pub done: u64,
    pub total: u64,
}

impl Fraction {
    pub open spec fn wf(self) -> bool {
        self.total > 0 && self.done <= self.total
    }

    /// Whether the fraction is exactly one.
    pub open spec fn is_whole(self) -> bool {
        self.done == self.total
    }

    /// `self <= other` as rational numbers.
    pub open spec fn le(self, other: Fraction) -> bool {
        (self.done as int) * (other.total as int) <= (other.done as int) * (self.total as int)
    }

    pub open spec fn zero_spec() -> Fraction {
        Fraction { done: 0, total: 1 }
    }

    /// Nothing done.
    pub fn zero() -> (r: Fraction)
        ensures
            r.wf(),
            r.done == 0,
            r.total == 1,
    {
        Fraction { done: 0, total: 1 }
    }

    /// All done.
    pub fn one() -> (r: Fraction)
        ensures
            r.wf(),
            r.done == 1,
            r.total == 1,
    {
        Fraction { done: 1, total: 1 }
    }

    /// `done / total`.
    pub fn new(done: u64, total: u64) -> (r: Fraction)
        requires
            0 < total,
            done <= total,
        ensures
            r.wf(),
            r.done == done,
            r.total == total,
    {
        Fraction { done, total }
    }
}

/// Where a task stands.
#[derive(Debug, Clone)]
pub enum TransferStatus {
    Pending,
    InProgress,
    Completed,
    Failed(String),
}

impl TransferStatus {
    /// A copy of this status.
    pub fn duplicate(&self) -> (r: TransferStatus)
        ensures
            r == *self,
    {
        match self {
            TransferStatus::Pending => TransferStatus::Pending,
            TransferStatus::InProgress => TransferStatus::InProgress,
            TransferStatus::Completed => TransferStatus::Completed,
            TransferStatus::Failed(e) => TransferStatus::Failed(e.clone()),
        }
    }
}

impl PartialEq for TransferStatus {
    fn eq(&self, o: &TransferStatus) -> (r: bool) {
        match (self, o) {
            (TransferStatus::Pending, TransferStatus::Pending) => true,
            (TransferStatus::InProgress, TransferStatus::InProgress) => true,
            (TransferStatus::Completed, TransferStatus::Completed) => true,
            (TransferStatus::Failed(a), TransferStatus::Failed(b)) => crate::text::same_text(a.as_str(), b.as_str()),
            _ => false,
        }
    }
}

impl vstd::std_specs::cmp::PartialEqSpecImpl for TransferStatus {
    open spec fn obeys_eq_spec() -> bool {
        true
    }

    open spec fn eq_spec(&self, o: &TransferStatus) -> bool {
        match (self, o) {
            (TransferStatus::Pending, TransferStatus::Pending) => true,
            (TransferStatus::InProgress, TransferStatus::InProgress) => true,
            (TransferStatus::Completed, TransferStatus::Completed) => true,
            (TransferStatus::Failed(a), TransferStatus::Failed(b)) => a@ == b@,
            _ => false,
        }
    }
}

/// One queued upload or download.
#[derive(Debug, Clone)]
pub struct TransferTask {
    pub id: usize,
    pub direction: Direction,
    pub local_path: String,
    pub remote_path: String,
    pub file_name: String,
    /// Size in bytes; 0 when unknown.
    pub size: u64,
    pub progress: Fraction,
    pub status: TransferStatus,
    /// When the first progress report came.
    pub started_at: Option<std::time::Instant>,
}

impl TransferTask {
    /// A duplicate of the task.
    pub fn duplicate(&self) -> (r: TransferTask)
        ensures
            r == *self,
    {
        TransferTask {
            id: self.id,
            direction: self.direction,
            local_path: self.local_path.clone(),
            remote_path: self.remote_path.clone(),
            file_name: self.file_name.clone(),
            size: self.size,
            progress: self.progress,
            status: self.status.duplicate(),
            started_at: match self.started_at {
                Some(t) => Some(t),
                None => None,
            },
        }
    }
}

/// The registry of transfers, in the order they were enqueued.
pub struct TransferQueue {
    tasks: Vec<TransferTask>,
    next_id: usize,
}

/// Ids increase along the queue and stay below the next id to hand out.
pub open spec fn ids_ordered(tasks: Seq<TransferTask>, next_id: int) -> bool {
    &&& forall|i: int, j: int| 0 <= i < j < tasks.len() ==> #[trigger] tasks[i].id < #[trigger] tasks[j].id
    &&& forall|i: int| 0 <= i < tasks.len() ==> #[trigger] tasks[i].id < next_id
}

/// The tasks of `tasks` that are not completed, in order.
pub open spec fn without_completed(tasks: Seq<TransferTask>) -> Seq<TransferTask>
    decreases tasks.len(),
{
    if tasks.len() == 0 {
        Seq::empty()
    } else {
        let rest = without_completed(tasks.drop_last());
        if tasks.last().status is Completed {
            rest
        } else {
            rest.push(tasks.last())
        }
    }
}

impl TransferQueue {
    pub closed spec fn tasks(&self) -> Seq<TransferTask> {
        self.tasks@
    }

    pub closed spec fn next_id_spec(&self) -> nat {
        self.next_id as nat
    }

    pub open spec fn wf(&self) -> bool {
        ids_ordered(self.tasks(), self.next_id_spec() as int)
    }

    /// An empty queue.
    pub fn new() -> (r: TransferQueue)
        ensures
            r.wf(),
            r.tasks().len() == 0,
            r.next_id_spec() == 0,
    {
        TransferQueue { tasks: Vec::new(), next_id: 0 }
    }

    /// The id that the next `enqueue` hands out.
    pub fn next_id(&self) -> (r: usize)
        ensures
            r == self.next_id_spec(),
    {
        self.next_id
    }

    /// Adds a pending task with no progress and returns its id.
    pub fn enqueue(
        &mut self,
        direction: Direction,
        local_path: String,
        remote_path: String,
        file_name: String,
        size: u64,
    ) -> (r: usize)
        requires
            old(self).wf(),
            old(self).next_id_spec() < usize::MAX,
        ensures
            final(self).wf(),
            r == old(self).next_id_spec(),
            final(self).next_id_spec() == r + 1,
            final(self).tasks() == old(self).tasks().push(
                TransferTask {
                    id: r,
                    direction,
                    local_path,
                    remote_path,
                    file_name,
                    size,
                    progress: Fraction { done: 0, total: 1 },
                    status: TransferStatus::Pending,
                    started_at: None,
                },
            ),
    {
        let id = self.next_id;
        self.next_id = self.next_id + 1;
        self.tasks.push(
            TransferTask {
                id,
                direction,
                local_path,
                remote_path,
                file_name,
                size,
                progress: Fraction::zero(),
                status: TransferStatus::Pending,
                started_at: None,
            },
        );
        id
    }

    /// The position of the task with id `id`, if there is one.
    fn position(&self, id: usize) -> (r: Option<usize>)
        requires
            self.wf(),
        ensures
            r is Some ==> r->0 < self.tasks().len() && self.tasks()[r->0 as int].id == id,
            r is None ==> forall|i: int| 0 <= i < self.tasks().len() ==> #[trigger] self.tasks()[i].id != id,
    {
        let mut i: usize = 0;
        while i < self.tasks.len()
            invariant
                i <= self.tasks@.len(),
                forall|j: int| 0 <= j < i ==> #[trigger] self.tasks@[j].id != id,
            decreases self.tasks@.len() - i,
        {
            if self.tasks[i].id == id {
                return Some(i);
            }
            i = i + 1;
        }
        None
    }

    /// A copy of the first pending task, if any.
    pub fn next_pending(&self) -> (r: Option<TransferTask>)
        ensures
            r is Some ==> exists|i: int|
                0 <= i < self.tasks().len() && self.tasks()[i] == r->0 && r->0.status is Pending
                    && forall|j: int| 0 <= j < i ==> !(#[trigger] self.tasks()[j].status is Pending),
            r is None ==> forall|i: int| 0 <= i < self.tasks().len() ==> !(#[trigger] self.tasks()[i].status is Pending),
    {
        let mut i: usize = 0;
        while i < self.tasks.len()
            invariant
                i <= self.tasks@.len(),
                forall|j: int| 0 <= j < i ==> !(#[trigger] self.tasks@[j].status is Pending),
            decreases self.tasks@.len() - i,
        {
            if let TransferStatus::Pending = self.tasks[i].status {
                return Some(self.tasks[i].duplicate());
            }
            i = i + 1;
        }
        None
    }

    /// Records a progress report for task `id`: the task is in progress, its
    /// fraction is `progress`, and its start time is set on the first report.
    /// An unknown id changes nothing.
    pub fn update_progress(&mut self, id: usize, progress: Fraction)
        requires
            old(self).wf(),
            progress.wf(),
        ensures
            final(self).wf(),
            final(self).next_id_spec() == old(self).next_id_spec(),
            final(self).tasks().len() == old(self).tasks().len(),
            forall|i: int|
                0 <= i < old(self).tasks().len() ==> {
                    let t = old(self).tasks()[i];
                    let u = #[trigger] final(self).tasks()[i];
                    if t.id == id {
                        &&& u.progress == progress
                        &&& u.status is InProgress
                        &&& u.started_at is Some
                        &&& (t.started_at is Some ==> u.started_at == t.started_at)
                        &&& u == TransferTask {
                            progress,
                            status: TransferStatus::InProgress,
                            started_at: u.started_at,
                            ..t
                        }
                    } else {
                        u == t
                    }
                },
    {
        if let Some(i) = self.position(id) {
            if self.tasks[i].started_at.is_none() {
                self.tasks[i].started_at = Some(now());
            }
            self.tasks[i].progress = progress;
            self.tasks[i].status = TransferStatus::InProgress;
        }
    }

    /// Marks task `id` completed, with its fraction at one.
    pub fn mark_completed(&mut self, id: usize)
        requires
            old(self).wf(),
        ensures
            final(self).wf(),
            final(self).next_id_spec() == old(self).next_id_spec(),
            final(self).tasks().len() == old(self).tasks().len(),
            forall|i: int|
                0 <= i < old(self).tasks().len() ==> {
                    let t = old(self).tasks()[i];
                    #[trigger] final(self).tasks()[i] == if t.id == id {
                        TransferTask {
                            progress: Fraction { done: 1, total: 1 },
                            status: TransferStatus::Completed,
                            ..t
                        }
                    } else {
                        t
                    }
                },
    {
        if let Some(i) = self.position(id) {
            self.tasks[i].progress = Fraction::one();
            self.tasks[i].status = TransferStatus::Completed;
        }
    }

    /// Marks task `id` failed with `error`; its fraction stays as it was.
    pub fn mark_failed(&mut self, id: usize, error: String)
        requires
            old(self).wf(),
        ensures
            final(self).wf(),
            final(self).next_id_spec() == old(self).next_id_spec(),
            final(self).tasks().len() == old(self).tasks().len(),
            forall|i: int|
                0 <= i < old(self).tasks().len() ==> {
                    let t = old(self).tasks()[i];
                    #[trigger] final(self).tasks()[i] == if t.id == id {
                        TransferTask { status: TransferStatus::Failed(error), ..t }
                    } else {
                        t
                    }
                },
    {
        if let Some(i) = self.position(id) {
            self.tasks[i].status = TransferStatus::Failed(error);
        }
    }

    /// Puts a failed task `id` back to pending, with no progress and no start
    /// time, and returns `true`; for any other id or status changes nothing
    /// and returns `false`.
    pub fn retry(&mut self, id: usize) -> (r: bool)
        requires
            old(self).wf(),
        ensures
            final(self).wf(),
            final(self).next_id_spec() == old(self).next_id_spec(),
            r == exists|i: int|
                0 <= i < old(self).tasks().len() && #[trigger] old(self).tasks()[i].id == id
                    && old(self).tasks()[i].status is Failed,
            !r ==> final(self).tasks() == old(self).tasks(),
            r ==> final(self).tasks().len() == old(self).tasks().len(),
            r ==> forall|i: int|
                0 <= i < old(self).tasks().len() ==> {
                    let t = old(self).tasks()[i];
                    #[trigger] final(self).tasks()[i] == if t.id == id {
                        TransferTask {
                            progress: Fraction { done: 0, total: 1 },
                            status: TransferStatus::Pending,
                            started_at: None,
                            ..t
                        }
                    } else {
                        t
                    }
                },
    {
        match self.position(id) {
            Some(i) => {
                if let TransferStatus::Failed(_) = self.tasks[i].status {
                    self.tasks[i].status = TransferStatus::Pending;
                    self.tasks[i].progress = Fraction::zero();
                    self.tasks[i].started_at = None;
                    proof {
                        assert forall|j: int| 0 <= j < old(self).tasks().len() && j != i implies old(
                            self,
                        ).tasks()[j].id != id by {
                            if j < i {
                                assert(old(self).tasks()[j].id < old(self).tasks()[i as int].id);
                            } else {
                                assert(old(self).tasks()[i as int].id < old(self).tasks()[j].id);
                            }
                        }
                    }
                    true
                } else {
                    proof {
                        assert forall|j: int| 0 <= j < old(self).tasks().len() && #[trigger] old(self).tasks()[j].id == id
                            implies j == i by {
                            if j < i {
                                assert(old(self).tasks()[j].id < old(self).tasks()[i as int].id);
                            } else if j > i {
                                assert(old(self).tasks()[i as int].id < old(self).tasks()[j].id);
                            }
                        }
                    }
                    false
                }
            },
            None => false,
        }
    }

    /// Removes every completed task; the others keep their order.
    pub fn clear_completed(&mut self)
        requires
            old(self).wf(),
        ensures
            final(self).wf(),
            final(self).next_id_spec() == old(self).next_id_spec(),
            final(self).tasks() == without_completed(old(self).tasks()),
    {
        let ghost before = self.tasks@;
        let mut kept: Vec<TransferTask> = Vec::new();
        let mut i: usize = 0;
        while i < self.tasks.len()
            invariant
                self.tasks@ == before,
                i <= before.len(),
                ids_ordered(before, self.next_id as int),
                kept@ == without_completed(before.take(i as int)),
                forall|a: int, b: int| 0 <= a < kept@.len() && 0 <= b < before.len() && b >= i
                    ==> #[trigger] kept@[a].id < #[trigger] before[b].id,
                forall|a: int| 0 <= a < kept@.len() ==> #[trigger] kept@[a].id < self.next_id,
                ids_ordered(kept@, self.next_id as int),
            decreases before.len() - i,
        {
            proof {
                assert(before.take(i as int + 1).drop_last() == before.take(i as int));
                assert(before.take(i as int + 1).last() == before[i as int]);
            }
            if let TransferStatus::Completed = self.tasks[i].status {
            } else {
                kept.push(self.tasks[i].duplicate());
            }
            i = i + 1;
        }
        proof {
            assert(before.take(before.len() as int) == before);
        }
        self.tasks = kept;
    }

    /// An independent copy of every task, in queue order.
    pub fn snapshot(&self) -> (r: Vec<TransferTask>)
        ensures
            r@ == self.tasks(),
    {
        let mut out: Vec<TransferTask> = Vec::new();
        let mut i: usize = 0;
        while i < self.tasks.len()
            invariant
                i <= self.tasks@.len(),
                out@ == self.tasks@.take(i as int),
            decreases self.tasks@.len() - i,
        {
            out.push(self.tasks[i].duplicate());
            proof {
                assert(out@ =~= self.tasks@.take(i as int + 1));
            }
            i = i + 1;
        }
        proof {
            assert(self.tasks@.take(self.tasks@.len() as int) == self.tasks@);
        }
        out
    }

    /// A copy of task `id`, or `None` when there is no such task.
    pub fn get_task(&self, id: usize) -> (r: Option<TransferTask>)
        requires
            self.wf(),
        ensures
            r is Some ==> exists|i: int|
                0 <= i < self.tasks().len() && #[trigger] self.tasks()[i] == r->0 && r->0.id == id,
            r is Some ==> forall|i: int|
                0 <= i < self.tasks().len() && #[trigger] self.tasks()[i].id == id ==> self.tasks()[i] == r->0,
            r is None ==> forall|i: int| 0 <= i < self.tasks().len() ==> #[trigger] self.tasks()[i].id != id,
    {
        match self.position(id) {
            Some(i) => Some(self.tasks[i].duplicate()),
            None => None,
        }
    }
}

/// A status as the display shows it: a short tag, and the error text of a failure.
pub fn status_to_text(status: &TransferStatus) -> (r: (&'static str, String))
    ensures
        status is Pending ==> r.0@ == "pending"@ && r.1@.len() == 0,
        status is InProgress ==> r.0@ == "progress"@ && r.1@.len() == 0,
        status is Completed ==> r.0@ == "done"@ && r.1@.len() == 0,
        status is Failed ==> r.0@ == "failed"@ && r.1@ == status->Failed_0@,
{
    match status {
        TransferStatus::Pending => ("pending", String::new()),
        TransferStatus::InProgress => ("progress", String::new()),
        TransferStatus::Completed => ("done", String::new()),
        TransferStatus::Failed(e) => ("failed", e.clone()),
    }
}

/// `n` in two digits, for `n < 60`.
pub open spec fn two_digits(n: nat) -> Seq<char> {
    if n < 10 {
        seq!['0'] + decimal(n)
    } else {
        decimal(n)
    }
}

/// A remaining time: `Ns` under a minute, `M:SS` under an hour, else `H:MM:SS`.
pub open spec fn eta_text(secs: nat) -> Seq<char> {
    if secs < 60 {
        decimal(secs) + seq!['s']
    } else if secs < 3600 {
        decimal(secs / 60) + seq![':'] + two_digits(secs % 60)
    } else {
        decimal(secs / 3600) + seq![':'] + two_digits((secs % 3600) / 60) + seq![':'] + two_digits(
            secs % 60,
        )
    }
}

fn two_digit_text(n: u64) -> (r: String)
    requires
        n < 60,
    ensures
        r@ == two_digits(n as nat),
{
    if n < 10 {
        let mut r = String::from_str("0");
        let d = decimal_text(n);
        r.append(d.as_str());
        proof {
            reveal_strlit("0");
        }
        r
    } else {
        decimal_text(n)
    }
}

/// A remaining time of `secs` seconds, for display.
pub fn format_eta(secs: u64) -> (r: String)
    ensures
        r@ == eta_text(secs as nat),
{
    proof {
        reveal_strlit("s");
        reveal_strlit(":");
    }
    if secs < 60 {
        let mut r = decimal_text(secs);
        r.append("s");
        r
    } else if secs < 3600 {
        let mut r = decimal_text(secs / 60);
        r.append(":");
        let t = two_digit_text(secs % 60);
        r.append(t.as_str());
        r
    } else {
        let mut r = decimal_text(secs / 3600);
        r.append(":");
        let m = two_digit_text((secs % 3600) / 60);
        r.append(m.as_str());
        r.append(":");
        let t = two_digit_text(secs % 60);
        r.append(t.as_str());
        r
    }
}

/// Of two queued tasks, the first marked completed: clearing completed tasks
/// leaves exactly the second, unchanged.
pub proof fn lemma_clear_leaves_the_unfinished(a: TransferTask, b: TransferTask)
    requires
        !(b.status is Completed),
    ensures
        without_completed(
            seq![
                TransferTask {
                    progress: Fraction { done: 1, total: 1 },
                    status: TransferStatus::Completed,
                    ..a
                },
                b,
            ],
        ) == seq![b],
{
    let a2 = TransferTask { progress: Fraction { done: 1, total: 1 }, status: TransferStatus::Completed, ..a };
    let s = seq![a2, b];
    assert(s.drop_last() == seq![a2]);
    assert(seq![a2].drop_last() == Seq::<TransferTask>::empty());
    assert(seq![a2].last() == a2);
    assert(s.last() == b);
    assert(without_completed(Seq::<TransferTask>::empty()) == Seq::<TransferTask>::empty());
    assert(without_completed(seq![a2]) == Seq::<TransferTask>::empty());
    assert(Seq::<TransferTask>::empty().push(b) == seq![b]);
}

} // verus!
