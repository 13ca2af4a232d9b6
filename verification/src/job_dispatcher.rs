//! Which jobs are running.
use vstd::prelude::*;

use crate::constants::return_code;

verus! {

/// A job that is running. Job ids are UUIDs, as 128-bit numbers.
#[derive(Debug, Clone, Copy, PartialEq, Eq, Structural)]
pub struct WorkerDispatchInfo {
    pub job_id: u128,
    pub request_id: u64,
    /// Whether the job was told to stop.
    pub cancelled: bool,
    /// Whether somebody waits for the job already.
    pub awaited: bool,
}

/// What the dispatcher does with a job request.
#[derive(Debug, Clone, Copy, PartialEq, Eq, Structural)]
pub enum Dispatch {
    /// The job is running already: ignore the request.
    Duplicate,
    /// Start a worker.
    Start,
}

/// The job is among the workers.
pub open spec fn running(workers: Seq<WorkerDispatchInfo>, job_id: u128) -> bool {
    exists|i: int| 0 <= i < workers.len() && (#[trigger] workers[i]).job_id == job_id
}

/// No job has two workers.
pub open spec fn distinct(workers: Seq<WorkerDispatchInfo>) -> bool {
    forall|i: int, j: int|
        0 <= i < j < workers.len() ==> (#[trigger] workers[i]).job_id != (
        #[trigger] workers[j]).job_id
}

/// The workers without that of the job.
pub open spec fn without(workers: Seq<WorkerDispatchInfo>, job_id: u128) -> Seq<
    WorkerDispatchInfo,
>
    decreases workers.len(),
{
    if workers.len() == 0 {
        workers
    } else if workers.last().job_id == job_id {
        without(workers.drop_last(), job_id)
    } else {
        without(workers.drop_last(), job_id).push(workers.last())
    }
}

/// The workers, those of the job marked as told to stop.
pub open spec fn stopped(workers: Seq<WorkerDispatchInfo>, job_id: u128) -> Seq<
    WorkerDispatchInfo,
> {
    workers.map_values(
        |w: WorkerDispatchInfo|
            if w.job_id == job_id {
                WorkerDispatchInfo { cancelled: true, ..w }
            } else {
                w
            },
    )
}

/// The workers, each marked as told to stop.
pub open spec fn all_stopped(workers: Seq<WorkerDispatchInfo>) -> Seq<WorkerDispatchInfo> {
    workers.map_values(|w: WorkerDispatchInfo| WorkerDispatchInfo { cancelled: true, ..w })
}

/// The workers, those of the job marked as waited for.
pub open spec fn waited(workers: Seq<WorkerDispatchInfo>, job_id: u128) -> Seq<
    WorkerDispatchInfo,
> {
    workers.map_values(
        |w: WorkerDispatchInfo|
            if w.job_id == job_id {
                WorkerDispatchInfo { awaited: true, ..w }
            } else {
                w
            },
    )
}

/// Somebody can wait for the job: it is running, and nobody waits for it yet.
pub open spec fn can_wait(workers: Seq<WorkerDispatchInfo>, job_id: u128) -> bool {
    exists|i: int|
        0 <= i < workers.len() && (#[trigger] workers[i]).job_id == job_id && !workers[i].awaited
}

proof fn lemma_without(workers: Seq<WorkerDispatchInfo>, job_id: u128)
    requires
        distinct(workers),
    ensures
        distinct(without(workers, job_id)),
        forall|other: u128|
            #[trigger] running(without(workers, job_id), other) <==> other != job_id && running(
                workers,
                other,
            ),
    decreases workers.len(),
{
    let all = without(workers, job_id);
    if workers.len() > 0 {
        let front = workers.drop_last();
        assert forall|i: int, j: int| 0 <= i < j < front.len() implies (#[trigger] front[i]).job_id
            != (#[trigger] front[j]).job_id by {
            assert(workers[i].job_id != workers[j].job_id);
        }
        lemma_without(front, job_id);
        let kept = without(front, job_id);
        assert forall|other: u128| #[trigger] running(all, other) implies other != job_id
            && running(workers, other) by {
            let p = choose|p: int| 0 <= p < all.len() && (#[trigger] all[p]).job_id == other;
            if p < kept.len() {
                assert(kept[p].job_id == other);
                assert(running(kept, other));
                let q = choose|q: int| 0 <= q < front.len() && (#[trigger] front[q]).job_id == other;
                assert(workers[q].job_id == other);
            } else {
                assert(workers[workers.len() - 1].job_id == other);
            }
        }
        assert forall|other: u128| other != job_id && running(workers, other) implies
            #[trigger] running(all, other) by {
            let p = choose|p: int|
                0 <= p < workers.len() && (#[trigger] workers[p]).job_id == other;
            if p < front.len() {
                assert(front[p].job_id == other);
                assert(running(kept, other));
                let q = choose|q: int| 0 <= q < kept.len() && (#[trigger] kept[q]).job_id == other;
                assert(all[q].job_id == other);
            } else {
                assert(all[all.len() - 1].job_id == other);
            }
        }
        assert forall|i: int, j: int| 0 <= i < j < all.len() implies (#[trigger] all[i]).job_id != (
        #[trigger] all[j]).job_id by {
            if j < kept.len() {
                assert(kept[i].job_id != kept[j].job_id);
            } else {
                assert(kept[i].job_id == all[i].job_id);
                assert(running(kept, all[i].job_id));
                let q = choose|q: int|
                    0 <= q < front.len() && (#[trigger] front[q]).job_id == all[i].job_id;
                assert(workers[q].job_id != workers[workers.len() - 1].job_id);
            }
        }
    } else {
        assert forall|other: u128| #[trigger] running(all, other) <==> other != job_id && running(
            workers,
            other,
        ) by {}
    }
}

/// Keeps track of the workers. Every job has at most one.
#[derive(Debug)]
pub struct JobDispatcher {
    workers: Vec<WorkerDispatchInfo>,
}

impl JobDispatcher {
    #[verifier::type_invariant]
    spec fn inv(self) -> bool {
        distinct(self.workers@)
    }

    /// The running jobs, in the order in which they were started.
    pub closed spec fn workers(self) -> Seq<WorkerDispatchInfo> {
        self.workers@
    }

    /// No job is running.
    pub fn new() -> (r: Self)
        ensures
            r.workers() == Seq::<WorkerDispatchInfo>::empty(),
    {
        JobDispatcher { workers: Vec::new() }
    }

    /// Whether any job is running.
    pub fn is_busy(&self) -> (r: bool)
        ensures
            r == (self.workers().len() > 0),
            distinct(self.workers()),
    {
        proof {
            use_type_invariant(self);
        }
        self.workers.len() > 0
    }

    fn position(&self, job_id: u128) -> (r: Option<usize>)
        ensures
            match r {
                Some(i) => i < self.workers().len() && self.workers()[i as int].job_id == job_id,
                None => !running(self.workers(), job_id),
            },
    {
        let mut i: usize = 0;
        while i < self.workers.len()
            invariant
                i <= self.workers@.len(),
                forall|j: int| 0 <= j < i ==> (#[trigger] self.workers@[j]).job_id != job_id,
            decreases self.workers@.len() - i,
        {
            if self.workers[i].job_id == job_id {
                return Some(i);
            }
            i = i + 1;
        }
        None
    }

    /// Whether the job is running.
    pub fn is_running(&self, job_id: u128) -> (r: bool)
        ensures
            r == running(self.workers(), job_id),
    {
        match self.position(job_id) {
            Some(i) => {
                assert(self.workers()[i as int].job_id == job_id);
                true
            },
            None => false,
        }
    }

    /// Decides what to do with a job request: a job that is running already is not started
    /// again.
    pub fn run(&self, job_id: u128) -> (r: Dispatch)
        ensures
            r == if running(self.workers(), job_id) {
                Dispatch::Duplicate
            } else {
                Dispatch::Start
            },
    {
        if self.is_running(job_id) {
            Dispatch::Duplicate
        } else {
            Dispatch::Start
        }
    }

    /// Takes note of a worker that was started. It takes the place of one that the job may
    /// have had before.
    pub fn worker_started(&mut self, job_id: u128, request_id: u64)
        ensures
            final(self).workers() == without(old(self).workers(), job_id).push(
                WorkerDispatchInfo { job_id, request_id, cancelled: false, awaited: false },
            ),
    {
        proof {
            use_type_invariant(&*self);
        }
        let ghost before = self.workers@;
        let mut next = self.remaining(job_id);
        proof {
            lemma_without(before, job_id);
            let rest = without(before, job_id);
            let all = rest.push(
                WorkerDispatchInfo { job_id, request_id, cancelled: false, awaited: false },
            );
            assert(!running(rest, job_id));
            assert forall|i: int, j: int| 0 <= i < j < all.len() implies (
            #[trigger] all[i]).job_id != (#[trigger] all[j]).job_id by {
                if j < rest.len() {
                    assert(rest[i].job_id != rest[j].job_id);
                } else {
                    assert(rest[i].job_id != job_id);
                }
            }
        }
        next.push(WorkerDispatchInfo { job_id, request_id, cancelled: false, awaited: false });
        *self = JobDispatcher { workers: next };
    }

    fn remaining(&self, job_id: u128) -> (r: Vec<WorkerDispatchInfo>)
        ensures
            r@ == without(self.workers(), job_id),
    {
        let mut out: Vec<WorkerDispatchInfo> = Vec::new();
        let mut i: usize = 0;
        while i < self.workers.len()
            invariant
                i <= self.workers@.len(),
                out@ == without(self.workers@.take(i as int), job_id),
            decreases self.workers@.len() - i,
        {
            assert(self.workers@.take(i + 1).drop_last() == self.workers@.take(i as int));
            if self.workers[i].job_id != job_id {
                out.push(self.workers[i]);
            }
            i = i + 1;
        }
        assert(self.workers@.take(self.workers@.len() as int) == self.workers@);
        out
    }

    /// Takes note that the worker of a job is gone.
    pub fn worker_finished(&mut self, job_id: u128)
        ensures
            final(self).workers() == without(old(self).workers(), job_id),
    {
        proof {
            use_type_invariant(&*self);
            lemma_without(self.workers@, job_id);
        }
        let next = self.remaining(job_id);
        *self = JobDispatcher { workers: next };
    }

    /// Marks a job as told to stop. Tells whether it is running; the worker of such a job is
    /// the one to stop.
    pub fn cancel(&mut self, job_id: u128) -> (r: bool)
        ensures
            r == running(old(self).workers(), job_id),
            final(self).workers() == stopped(old(self).workers(), job_id),
    {
        proof {
            use_type_invariant(&*self);
        }
        let ghost before = self.workers@;
        let found = self.is_running(job_id);
        let mut out: Vec<WorkerDispatchInfo> = Vec::new();
        let mut i: usize = 0;
        while i < self.workers.len()
            invariant
                i <= self.workers@.len(),
                before == self.workers@,
                out@ == stopped(before, job_id).take(i as int),
            decreases self.workers@.len() - i,
        {
            let w = self.workers[i];
            if w.job_id == job_id {
                out.push(
                    WorkerDispatchInfo {
                        job_id: w.job_id,
                        request_id: w.request_id,
                        cancelled: true,
                        awaited: w.awaited,
                    },
                );
            } else {
                out.push(w);
            }
            i = i + 1;
            assert(out@ == stopped(before, job_id).take(i as int));
        }
        proof {
            assert(stopped(before, job_id).take(before.len() as int) == stopped(before, job_id));
            assert forall|a: int, b: int| 0 <= a < b < out@.len() implies (
            #[trigger] out@[a]).job_id != (#[trigger] out@[b]).job_id by {
                assert(before[a].job_id != before[b].job_id);
            }
        }
        *self = JobDispatcher { workers: out };
        found
    }

    /// Marks every job as told to stop, and gives their ids.
    pub fn shutdown(&mut self) -> (r: Vec<u128>)
        ensures
            final(self).workers() == all_stopped(old(self).workers()),
            r@ == old(self).workers().map_values(|w: WorkerDispatchInfo| w.job_id),
    {
        proof {
            use_type_invariant(&*self);
        }
        let ghost before = self.workers@;
        let ids = self.running_job_ids();
        let mut out: Vec<WorkerDispatchInfo> = Vec::new();
        let mut i: usize = 0;
        while i < self.workers.len()
            invariant
                i <= self.workers@.len(),
                before == self.workers@,
                out@ == all_stopped(before).take(i as int),
            decreases self.workers@.len() - i,
        {
            let w = self.workers[i];
            out.push(
                WorkerDispatchInfo {
                    job_id: w.job_id,
                    request_id: w.request_id,
                    cancelled: true,
                    awaited: w.awaited,
                },
            );
            i = i + 1;
            assert(out@ == all_stopped(before).take(i as int));
        }
        proof {
            assert(all_stopped(before).take(before.len() as int) == all_stopped(before));
            assert forall|a: int, b: int| 0 <= a < b < out@.len() implies (
            #[trigger] out@[a]).job_id != (#[trigger] out@[b]).job_id by {
                assert(before[a].job_id != before[b].job_id);
            }
        }
        *self = JobDispatcher { workers: out };
        ids
    }

    /// Claims the wait for a job. Tells whether it can be waited for: it is running, and
    /// nobody waits for it yet.
    pub fn wait(&mut self, job_id: u128) -> (r: bool)
        ensures
            r == can_wait(old(self).workers(), job_id),
            final(self).workers() == waited(old(self).workers(), job_id),
    {
        proof {
            use_type_invariant(&*self);
        }
        let ghost before = self.workers@;
        let mut free = false;
        let mut out: Vec<WorkerDispatchInfo> = Vec::new();
        let mut i: usize = 0;
        while i < self.workers.len()
            invariant
                i <= self.workers@.len(),
                before == self.workers@,
                out@ == waited(before, job_id).take(i as int),
                free == can_wait(before.take(i as int), job_id),
            decreases self.workers@.len() - i,
        {
            let w = self.workers[i];
            let ghost upto = before.take(i as int);
            let ghost next = before.take(i + 1);
            proof {
                assert(next == upto.push(w));
                if can_wait(upto, job_id) {
                    let k = choose|k: int|
                        0 <= k < upto.len() && (#[trigger] upto[k]).job_id == job_id
                            && !upto[k].awaited;
                    assert(next[k] == upto[k]);
                }
                assert(next[i as int] == w);
                if can_wait(next, job_id) && !(w.job_id == job_id && !w.awaited) {
                    let k = choose|k: int|
                        0 <= k < next.len() && (#[trigger] next[k]).job_id == job_id
                            && !next[k].awaited;
                    assert(upto[k] == next[k]);
                }
            }
            if w.job_id == job_id {
                if !w.awaited {
                    free = true;
                }
                out.push(
                    WorkerDispatchInfo {
                        job_id: w.job_id,
                        request_id: w.request_id,
                        cancelled: w.cancelled,
                        awaited: true,
                    },
                );
            } else {
                out.push(w);
            }
            i = i + 1;
            assert(out@ == waited(before, job_id).take(i as int));
        }
        proof {
            assert(before.take(before.len() as int) == before);
            assert(waited(before, job_id).take(before.len() as int) == waited(before, job_id));
            assert forall|a: int, b: int| 0 <= a < b < out@.len() implies (
            #[trigger] out@[a]).job_id != (#[trigger] out@[b]).job_id by {
                assert(before[a].job_id != before[b].job_id);
            }
        }
        *self = JobDispatcher { workers: out };
        free
    }

    /// The ids of the running jobs.
    pub fn running_job_ids(&self) -> (r: Vec<u128>)
        ensures
            r@ == self.workers().map_values(|w: WorkerDispatchInfo| w.job_id),
    {
        let mut out: Vec<u128> = Vec::new();
        let mut i: usize = 0;
        let ghost ids = self.workers().map_values(|w: WorkerDispatchInfo| w.job_id);
        while i < self.workers.len()
            invariant
                i <= self.workers@.len(),
                ids == self.workers@.map_values(|w: WorkerDispatchInfo| w.job_id),
                out@ == ids.take(i as int),
            decreases self.workers@.len() - i,
        {
            out.push(self.workers[i].job_id);
            i = i + 1;
            assert(out@ == ids.take(i as int));
        }
        assert(ids.take(ids.len() as int) == ids);
        out
    }
}

/// The exit code of a worker: its own; or, if a signal ended it, 128 and the signal's
/// number; or 1 if neither is known. A worker that was told to stop counts as ended by an
/// error.
pub open spec fn worker_exit_code(
    cancelled: bool,
    code: Option<i32>,
    signal: Option<i32>,
) -> int {
    if cancelled {
        return_code::TERMINATED_ERROR as int
    } else {
        match code {
            Some(code) => code as int,
            None => match signal {
                Some(signal) => 128 + signal,
                None => 1,
            },
        }
    }
}

/// The exit code of a worker.
pub fn exit_code_of(cancelled: bool, code: Option<i32>, signal: Option<i32>) -> (r: i32)
    requires
        signal matches Some(s) ==> s <= i32::MAX - 128,
    ensures
        r == worker_exit_code(cancelled, code, signal),
{
    if cancelled {
        return return_code::TERMINATED_ERROR;
    }
    match code {
        Some(code) => code,
        None => match signal {
            Some(signal) => 128 + signal,
            None => 1,
        },
    }
}

/// Stopping a job changes neither which jobs are running nor the other jobs.
pub proof fn law_cancel_keeps_jobs(workers: Seq<WorkerDispatchInfo>, job_id: u128, other: u128)
    ensures
        running(stopped(workers, job_id), other) == running(workers, other),
        forall|i: int|
            0 <= i < workers.len() && workers[i].job_id != job_id ==> #[trigger] stopped(
                workers,
                job_id,
            )[i] == workers[i],
{
    let after = stopped(workers, job_id);
    if running(workers, other) {
        let i = choose|i: int| 0 <= i < workers.len() && (#[trigger] workers[i]).job_id == other;
        assert(after[i].job_id == other);
    }
    if running(after, other) {
        let i = choose|i: int| 0 <= i < after.len() && (#[trigger] after[i]).job_id == other;
        assert(workers[i].job_id == other);
    }
}

/// A job is waited for only once.
pub proof fn law_wait_once(workers: Seq<WorkerDispatchInfo>, job_id: u128)
    ensures
        !can_wait(waited(workers, job_id), job_id),
{
    let after = waited(workers, job_id);
    if can_wait(after, job_id) {
        let i = choose|i: int|
            0 <= i < after.len() && (#[trigger] after[i]).job_id == job_id && !after[i].awaited;
        assert(workers[i].job_id == job_id);
    }
}

/// When a job's worker is gone, exactly that job is no longer running.
pub proof fn law_finish_removes_job(workers: Seq<WorkerDispatchInfo>, job_id: u128, other: u128)
    requires
        distinct(workers),
    ensures
        running(without(workers, job_id), other) <==> other != job_id && running(workers, other),
{
    lemma_without(workers, job_id);
}

/// Stopping a job marks its worker and changes nothing else of it.
pub proof fn law_cancel_marks_job(workers: Seq<WorkerDispatchInfo>, job_id: u128, i: int)
    requires
        0 <= i < workers.len(),
        workers[i].job_id == job_id,
    ensures
        stopped(workers, job_id).len() == workers.len(),
        stopped(workers, job_id)[i].cancelled,
        stopped(workers, job_id)[i].job_id == job_id,
        stopped(workers, job_id)[i].request_id == workers[i].request_id,
        stopped(workers, job_id)[i].awaited == workers[i].awaited,
{
}

/// A shutdown stops every job, each as if it alone were stopped.
pub proof fn law_shutdown_stops_all(workers: Seq<WorkerDispatchInfo>, i: int)
    requires
        0 <= i < workers.len(),
    ensures
        all_stopped(workers).len() == workers.len(),
        all_stopped(workers)[i] == stopped(workers, workers[i].job_id)[i],
        all_stopped(workers)[i].cancelled,
{
}

/// A job that was started is running, and neither stopped nor waited for; the other jobs
/// are what they were.
pub proof fn law_started_is_running(
    workers: Seq<WorkerDispatchInfo>,
    job_id: u128,
    request_id: u64,
    other: u128,
)
    requires
        distinct(workers),
    ensures
        ({
            let new = WorkerDispatchInfo { job_id, request_id, cancelled: false, awaited: false };
            let after = without(workers, job_id).push(new);
            &&& running(after, job_id)
            &&& can_wait(after, job_id)
            &&& other != job_id ==> running(after, other) == running(workers, other)
            &&& distinct(after)
        }),
{
    let new = WorkerDispatchInfo { job_id, request_id, cancelled: false, awaited: false };
    let before = without(workers, job_id);
    let after = before.push(new);
    lemma_without(workers, job_id);
    assert(after[before.len() as int] == new);
    if running(before, other) {
        let i = choose|i: int| 0 <= i < before.len() && (#[trigger] before[i]).job_id == other;
        assert(after[i].job_id == other);
    }
    if running(after, other) && other != job_id {
        let i = choose|i: int| 0 <= i < after.len() && (#[trigger] after[i]).job_id == other;
        assert(before[i].job_id == other);
    }
    assert(!running(before, job_id));
    assert forall|i: int, j: int| 0 <= i < j < after.len() implies (#[trigger] after[i]).job_id != (
    #[trigger] after[j]).job_id by {
        if j < before.len() {
            assert(before[i].job_id != before[j].job_id);
        } else {
            assert(before[i].job_id != job_id);
        }
    }
}

/// When a worker is gone the others stay as they are and in their order.
pub proof fn law_finish_keeps_others(
    before: Seq<WorkerDispatchInfo>,
    worker: WorkerDispatchInfo,
    after: Seq<WorkerDispatchInfo>,
    job_id: u128,
)
    ensures
        without(before + seq![worker] + after, job_id) == without(before, job_id) + (
        if worker.job_id == job_id {
            Seq::empty()
        } else {
            seq![worker]
        }) + without(after, job_id),
    decreases after.len(),
{
    let all = before + seq![worker] + after;
    if after.len() > 0 {
        assert(all.drop_last() == before + seq![worker] + after.drop_last());
        assert(all.last() == after.last());
        law_finish_keeps_others(before, worker, after.drop_last(), job_id);
    } else {
        assert(after == Seq::<WorkerDispatchInfo>::empty());
        assert(all.drop_last() == before);
        assert(all.last() == worker);
    }
}

/// A running job can be waited for until somebody does; claiming the wait for one job changes
/// nothing for the others.
pub proof fn law_wait_is_for_one_job(workers: Seq<WorkerDispatchInfo>, job_id: u128, i: int)
    requires
        0 <= i < workers.len(),
    ensures
        workers[i].job_id == job_id && !workers[i].awaited ==> can_wait(workers, job_id),
        !running(workers, job_id) ==> !can_wait(workers, job_id),
        waited(workers, job_id).len() == workers.len(),
        workers[i].job_id != job_id ==> waited(workers, job_id)[i] == workers[i],
        workers[i].job_id == job_id ==> waited(workers, job_id)[i] == (WorkerDispatchInfo {
            awaited: true,
            ..workers[i]
        }),
{
}

/// A worker that was told to stop counts as ended by an error, whatever it says; another has
/// its own code, or 128 and its signal's number, or 1.
pub proof fn law_exit_code(code: Option<i32>, signal: Option<i32>, c: i32, s: i32)
    ensures
        worker_exit_code(true, code, signal) == 1,
        worker_exit_code(false, Some(c), signal) == c,
        worker_exit_code(false, None, Some(s)) == 128 + s,
        worker_exit_code(false, None, None) == 1,
{
}

} // verus!
