//! MiningScheduler: owns per-device search tasks, enforces at most one
//! active task per device id, and routes discovered shares.
//!
//! The scheduler is a state machine over a device table and a task table.
//! `start_mining` and `stop_mining` are its transitions; `poll_device` runs
//! one search batch for a device's task, which is where a driving loop
//! checks for cancellation (a removed task) between batches.

use vstd::prelude::*;
use crate::types::{Device, DeviceView, DeviceStatus, StatusView, MiningJob, JobView, Share, ShareView};
use crate::error::{JxError, MinerError};
use crate::encoding::str_eq;
use crate::algorithms::{attempt_accepted, attempt_hash, nth_nonce, spec_batch_size, batch_size, search_batch};

verus! {

/// Bookkeeping for one running search task: the job it searches, the next
/// nonce it will try, and its share-delivery queue.
pub struct MiningTask {
    pub device_id: String,
    pub job: MiningJob,
    pub next_nonce: u64,
    pub pending_shares: Vec<Share>,
}

/// Ghost image of a task.
#[verifier::ext_equal]
pub struct TaskView {
    pub device_id: Seq<char>,
    pub job: JobView,
    pub next_nonce: u64,
    pub pending_shares: Seq<ShareView>,
}

impl View for MiningTask {
    type V = TaskView;

    open spec fn view(&self) -> TaskView {
        TaskView {
            device_id: self.device_id@,
            job: self.job@,
            next_nonce: self.next_nonce,
            pending_shares: Seq::new(self.pending_shares@.len(), |i: int| self.pending_shares@[i]@),
        }
    }
}

/// Ghost image of the whole scheduler state.
#[verifier::ext_equal]
pub struct EngineView {
    pub devices: Seq<DeviceView>,
    pub tasks: Seq<TaskView>,
}

pub open spec fn has_device(devices: Seq<DeviceView>, id: Seq<char>) -> bool {
    exists|i: int| 0 <= i < devices.len() && devices[i].id == id
}

pub open spec fn has_task(tasks: Seq<TaskView>, id: Seq<char>) -> bool {
    exists|i: int| 0 <= i < tasks.len() && tasks[i].device_id == id
}

/// The index of the task for `id`; meaningful when `has_task` holds and the
/// task table has unique ids.
pub open spec fn task_index(tasks: Seq<TaskView>, id: Seq<char>) -> int {
    choose|i: int| 0 <= i < tasks.len() && tasks[i].device_id == id
}

/// The task table with any entry for `id` removed.
pub open spec fn drop_task(tasks: Seq<TaskView>, id: Seq<char>) -> Seq<TaskView> {
    if has_task(tasks, id) {
        tasks.remove(task_index(tasks, id))
    } else {
        tasks
    }
}

/// The device table with the status of the device with `id` replaced.
pub open spec fn with_status(devices: Seq<DeviceView>, id: Seq<char>, status: StatusView) -> Seq<DeviceView> {
    devices.map(|i: int, d: DeviceView| if d.id == id { DeviceView { status, ..d } } else { d })
}

/// The task `start_mining` creates: the given job, nonce search from zero,
/// no shares yet.
pub open spec fn fresh_task(id: Seq<char>, job: JobView) -> TaskView {
    TaskView { device_id: id, job, next_nonce: 0, pending_shares: Seq::empty() }
}

/// The state after `start_mining` on a known device: any prior task for the
/// id is gone, exactly one fresh task for it exists, and the device is
/// marked Mining.
pub open spec fn spec_start(m: EngineView, id: Seq<char>, job: JobView) -> EngineView {
    EngineView {
        devices: with_status(m.devices, id, StatusView::Mining),
        tasks: drop_task(m.tasks, id).push(fresh_task(id, job)),
    }
}

/// The state after `stop_mining` on a known device: its task (if any) is
/// gone and the device is marked Idle.
pub open spec fn spec_stop(m: EngineView, id: Seq<char>) -> EngineView {
    EngineView {
        devices: with_status(m.devices, id, StatusView::Idle),
        tasks: drop_task(m.tasks, id),
    }
}

/// Well-formedness of the scheduler state: device ids are unique keys, at
/// most one task exists per device id, and every task belongs to a known
/// device.
pub open spec fn wf(m: EngineView) -> bool {
    &&& (forall|i: int, j: int| 0 <= i < j < m.devices.len() ==> m.devices[i].id != m.devices[j].id)
    &&& (forall|i: int, j: int| 0 <= i < j < m.tasks.len() ==> m.tasks[i].device_id != m.tasks[j].device_id)
    &&& (forall|i: int| 0 <= i < m.tasks.len() ==> has_device(m.devices, #[trigger] m.tasks[i].device_id))
}

/// With unique task ids, dropping the task for `id` leaves no task for `id`
/// and every other task in place, in order.
proof fn lemma_drop_task(tasks: Seq<TaskView>, id: Seq<char>)
    requires
        forall|i: int, j: int| 0 <= i < j < tasks.len() ==> tasks[i].device_id != tasks[j].device_id,
    ensures
        !has_task(drop_task(tasks, id), id),
        forall|i: int, j: int| 0 <= i < j < drop_task(tasks, id).len()
            ==> drop_task(tasks, id)[i].device_id != drop_task(tasks, id)[j].device_id,
        forall|i: int| 0 <= i < drop_task(tasks, id).len() ==> tasks.contains(#[trigger] drop_task(tasks, id)[i]),
{
    let out = drop_task(tasks, id);
    if has_task(tasks, id) {
        let t = task_index(tasks, id);
        assert(0 <= t < tasks.len() && tasks[t].device_id == id);
        assert(forall|i: int| 0 <= i < out.len()
            ==> out[i] == (if i < t { tasks[i] } else { tasks[i + 1] }));
        assert forall|i: int| 0 <= i < out.len() implies (#[trigger] out[i]).device_id != id by {
            if i < t {
                assert(tasks[i].device_id != tasks[t].device_id);
            } else {
                assert(tasks[t].device_id != tasks[i + 1].device_id);
            }
        }
        assert forall|i: int| 0 <= i < out.len() implies tasks.contains(#[trigger] out[i]) by {
            if i < t {
                assert(out[i] == tasks[i]);
            } else {
                assert(out[i] == tasks[i + 1]);
            }
        }
    }
}

/// Stopping a device twice in a row is the same as stopping it once.
pub proof fn lemma_stop_idempotent(m: EngineView, id: Seq<char>)
    requires
        wf(m),
    ensures
        spec_stop(spec_stop(m, id), id) == spec_stop(m, id),
{
    let m1 = spec_stop(m, id);
    lemma_drop_task(m.tasks, id);
    assert(drop_task(m1.tasks, id) == m1.tasks);
    assert(with_status(m1.devices, id, StatusView::Idle) =~= m1.devices);
    assert(spec_stop(m1, id) =~= m1);
}

/// A second `start` for the same device supersedes the first entirely: the
/// state is as if only the second had happened.
pub proof fn lemma_start_supersedes(m: EngineView, id: Seq<char>, job1: JobView, job2: JobView)
    requires
        wf(m),
    ensures
        spec_start(spec_start(m, id, job1), id, job2) == spec_start(m, id, job2),
{
    let m1 = spec_start(m, id, job1);
    lemma_drop_task(m.tasks, id);
    let base = drop_task(m.tasks, id);
    // In m1 the only task for `id` is the freshly pushed last one.
    assert(m1.tasks[m1.tasks.len() - 1].device_id == id);
    assert(has_task(m1.tasks, id));
    let t = task_index(m1.tasks, id);
    assert(0 <= t < m1.tasks.len() && m1.tasks[t].device_id == id);
    assert forall|i: int| 0 <= i < m1.tasks.len() && m1.tasks[i].device_id == id
        implies i == m1.tasks.len() - 1 by {
        if i < m1.tasks.len() - 1 {
            assert(m1.tasks[i] == base[i]);
        }
    }
    assert(t == m1.tasks.len() - 1);
    assert(drop_task(m1.tasks, id) =~= base);
    assert(with_status(m1.devices, id, StatusView::Mining) =~= with_status(m.devices, id, StatusView::Mining));
    assert(spec_start(m1, id, job2) =~= spec_start(m, id, job2));
}

/// After a `start` for `id`, exactly one task is active for `id`, and it
/// operates on the given job.
pub proof fn lemma_start_single_task(m: EngineView, id: Seq<char>, job: JobView)
    requires
        wf(m),
    ensures
        has_task(spec_start(m, id, job).tasks, id),
        forall|i: int| 0 <= i < spec_start(m, id, job).tasks.len()
            && (#[trigger] spec_start(m, id, job).tasks[i]).device_id == id
            ==> spec_start(m, id, job).tasks[i] == fresh_task(id, job),
        forall|i: int, j: int| 0 <= i < j < spec_start(m, id, job).tasks.len()
            ==> spec_start(m, id, job).tasks[i].device_id != spec_start(m, id, job).tasks[j].device_id,
{
    lemma_drop_task(m.tasks, id);
    let out = spec_start(m, id, job).tasks;
    let base = drop_task(m.tasks, id);
    assert(out[out.len() - 1] == fresh_task(id, job));
    assert forall|i: int| 0 <= i < out.len() && (#[trigger] out[i]).device_id == id
        implies out[i] == fresh_task(id, job) by {
        if i < out.len() - 1 {
            assert(out[i] == base[i]);
        }
    }
}

/// How a task changes when one of its batches finds a share: the `k`-th
/// attempt of the batch is the first accepted one, the share it produced
/// (with some timestamp) is queued last, and the nonce advances past it.
pub open spec fn found_step(t_old: TaskView, t_new: TaskView, k: u64) -> bool {
    let nonce = nth_nonce(t_old.next_nonce, k);
    &&& 0 <= k < spec_batch_size(t_old.job.algorithm)
    &&& attempt_accepted(t_old.job.algorithm, t_old.job.header, t_old.job.target, nonce)
    &&& forall|j: u64| 0 <= j < k ==> !attempt_accepted(t_old.job.algorithm, t_old.job.header, t_old.job.target, #[trigger] nth_nonce(t_old.next_nonce, j))
    &&& t_new.device_id == t_old.device_id
    &&& t_new.job == t_old.job
    &&& t_new.next_nonce == nth_nonce(nonce, 1)
    &&& t_new.pending_shares.len() == t_old.pending_shares.len() + 1
    &&& (forall|j: int| 0 <= j < t_old.pending_shares.len() ==> #[trigger] t_new.pending_shares[j] == t_old.pending_shares[j])
    &&& ({
        let s = t_new.pending_shares.last();
        &&& s.job_id == t_old.job.id
        &&& s.nonce == nonce
        &&& s.hash == attempt_hash(t_old.job.algorithm, t_old.job.header, nonce)
        &&& s.device_id == t_old.device_id
    })
}

/// The scheduler: a device table and the running tasks, one per device at
/// most.
pub struct Engine {
    devices: Vec<Device>,
    active_tasks: Vec<MiningTask>,
}

/// The outcome of running one search batch for a device.
pub enum PollOutcome {
    /// No task is tracked for the device; a driving loop exits quietly.
    NoTask,
    /// The batch found a share; it was queued for delivery.
    Found,
    /// The batch finished without a share; the task's nonce advanced.
    Exhausted,
}

impl View for Engine {
    type V = EngineView;

    closed spec fn view(&self) -> EngineView {
        EngineView {
            devices: Seq::new(self.devices@.len(), |i: int| self.devices@[i]@),
            tasks: Seq::new(self.active_tasks@.len(), |i: int| self.active_tasks@[i]@),
        }
    }
}

impl Engine {
    /// A scheduler over the given devices, with no tasks running.
    pub fn new(devices: Vec<Device>) -> (r: Result<Engine, JxError>)
        requires
            forall|i: int, j: int| 0 <= i < j < devices@.len() ==> devices@[i].id@ != devices@[j].id@,
        ensures
            r is Ok,
            ({
                let e = r->Ok_0;
                &&& e@.devices.len() == devices@.len()
                &&& forall|i: int| 0 <= i < devices@.len() ==> e@.devices[i] == devices@[i]@
                &&& e@.tasks.len() == 0
                &&& wf(e@)
            }),
    {
        let engine = Engine { devices, active_tasks: Vec::new() };
        Ok(engine)
    }

    /// The index of the device with the given id, if one exists.
    fn find_device(&self, device_id: &str) -> (r: Option<usize>)
        ensures
            match r {
                Some(i) => i < self@.devices.len() && self@.devices[i as int].id == device_id@,
                None => !has_device(self@.devices, device_id@),
            },
    {
        let n = self.devices.len();
        let mut i: usize = 0;
        while i < n
            invariant
                0 <= i <= n,
                n == self@.devices.len(),
                forall|j: int| 0 <= j < i ==> self@.devices[j].id != device_id@,
            decreases n - i,
        {
            if str_eq(self.devices[i].id.as_str(), device_id) {
                return Some(i);
            }
            i += 1;
        }
        None
    }

    /// The index of the task for the given device id, if one is tracked.
    fn find_task(&self, device_id: &str) -> (r: Option<usize>)
        ensures
            match r {
                Some(i) => i < self@.tasks.len() && self@.tasks[i as int].device_id == device_id@,
                None => !has_task(self@.tasks, device_id@),
            },
    {
        let n = self.active_tasks.len();
        let mut i: usize = 0;
        while i < n
            invariant
                0 <= i <= n,
                n == self@.tasks.len(),
                forall|j: int| 0 <= j < i ==> self@.tasks[j].device_id != device_id@,
            decreases n - i,
        {
            if str_eq(self.active_tasks[i].device_id.as_str(), device_id) {
                return Some(i);
            }
            i += 1;
        }
        None
    }

    /// Removes the tracked task for the device id, if any, leaving the task
    /// table equal to `drop_task` of the old one.
    fn remove_task(&mut self, device_id: &str)
        requires
            forall|i: int, j: int| 0 <= i < j < old(self)@.tasks.len()
                ==> old(self)@.tasks[i].device_id != old(self)@.tasks[j].device_id,
        ensures
            final(self)@.devices == old(self)@.devices,
            final(self)@.tasks == drop_task(old(self)@.tasks, device_id@),
    {
        let ghost m0 = self@;
        match self.find_task(device_id) {
            None => {
                assert(final(self)@.tasks =~= drop_task(m0.tasks, device_id@));
            },
            Some(i) => {
                assert(has_task(m0.tasks, device_id@));
                proof {
                    let c = task_index(m0.tasks, device_id@);
                    assert(0 <= c < m0.tasks.len() && m0.tasks[c].device_id == device_id@);
                    if c != i {
                        assert(m0.tasks[c].device_id != m0.tasks[i as int].device_id);
                    }
                }
                self.active_tasks.remove(i);
                assert(self@.tasks =~= m0.tasks.remove(i as int));
                assert(self@.devices =~= m0.devices);
            },
        }
    }

    /// Replaces the status of the device at a known index, leaving the
    /// device table equal to `with_status` of the old one.
    fn set_status(&mut self, idx: usize, status: DeviceStatus)
        requires
            idx < old(self)@.devices.len(),
            forall|i: int, j: int| 0 <= i < j < old(self)@.devices.len()
                ==> old(self)@.devices[i].id != old(self)@.devices[j].id,
        ensures
            final(self)@.tasks == old(self)@.tasks,
            final(self)@.devices == with_status(old(self)@.devices, old(self)@.devices[idx as int].id, status@),
    {
        let ghost m0 = self@;
        let ghost id = m0.devices[idx as int].id;
        let mut d = self.devices.remove(idx);
        d.status = status;
        self.devices.insert(idx, d);
        proof {
            assert forall|i: int| 0 <= i < m0.devices.len()
                implies self@.devices[i] == with_status(m0.devices, id, d@.status)[i] by {
                if i != idx {
                    assert(self.devices@[i] == old(self).devices@[i]);
                    assert(m0.devices[i].id != id);
                }
            }
            assert(self@.devices =~= with_status(m0.devices, id, d@.status));
            assert(self@.tasks =~= m0.tasks);
        }
    }

    /// Starts a search task for the device: fails with `DeviceNotFound` on
    /// an unknown id and changes nothing; otherwise any prior task for the
    /// id is stopped first, a fresh task on the given job is created, and
    /// the device is marked Mining.
    pub fn start_mining(&mut self, device_id: &str, job: MiningJob) -> (r: Result<(), MinerError>)
        requires
            wf(old(self)@),
        ensures
            wf(final(self)@),
            match r {
                Ok(()) => has_device(old(self)@.devices, device_id@)
                    && final(self)@ == spec_start(old(self)@, device_id@, job@),
                Err(e) => e is DeviceNotFound
                    && !has_device(old(self)@.devices, device_id@)
                    && final(self)@ == old(self)@,
            },
    {
        let ghost m0 = self@;
        let idx = match self.find_device(device_id) {
            None => {
                return Err(MinerError::DeviceNotFound);
            },
            Some(i) => i,
        };
        self.remove_task(device_id);
        let task = MiningTask {
            device_id: device_id.to_owned(),
            job,
            next_nonce: 0,
            pending_shares: Vec::new(),
        };
        let ghost m1 = self@;
        self.active_tasks.push(task);
        proof {
            assert(self@.tasks =~~= m1.tasks.push(fresh_task(device_id@, job@)));
            assert(self@.devices == m1.devices);
        }
        self.set_status(idx, DeviceStatus::Mining);
        proof {
            assert(self@ =~~= spec_start(m0, device_id@, job@));
            lemma_drop_task(m0.tasks, device_id@);
            lemma_start_single_task(m0, device_id@, job@);
            assert forall|i: int| 0 <= i < self@.tasks.len()
                implies has_device(self@.devices, #[trigger] self@.tasks[i].device_id) by {
                let tid = self@.tasks[i].device_id;
                if i < self@.tasks.len() - 1 {
                    assert(m0.tasks.contains(drop_task(m0.tasks, device_id@)[i]));
                    let w = choose|w: int| 0 <= w < m0.tasks.len() && m0.tasks[w] == drop_task(m0.tasks, device_id@)[i];
                    assert(has_device(m0.devices, tid));
                    let dw = choose|dw: int| 0 <= dw < m0.devices.len() && m0.devices[dw].id == tid;
                    assert(self@.devices[dw].id == tid);
                } else {
                    assert(self@.devices[idx as int].id == tid);
                }
            }
        }
        Ok(())
    }

    /// Stops the device's search: fails with `DeviceNotFound` on an unknown
    /// id and changes nothing; otherwise the task (if any) is removed and
    /// the device is marked Idle.
    pub fn stop_mining(&mut self, device_id: &str) -> (r: Result<(), MinerError>)
        requires
            wf(old(self)@),
        ensures
            wf(final(self)@),
            match r {
                Ok(()) => has_device(old(self)@.devices, device_id@)
                    && final(self)@ == spec_stop(old(self)@, device_id@),
                Err(e) => e is DeviceNotFound
                    && !has_device(old(self)@.devices, device_id@)
                    && final(self)@ == old(self)@,
            },
    {
        let ghost m0 = self@;
        let idx = match self.find_device(device_id) {
            None => {
                return Err(MinerError::DeviceNotFound);
            },
            Some(i) => i,
        };
        self.remove_task(device_id);
        self.set_status(idx, DeviceStatus::Idle);
        proof {
            assert(self@ =~= spec_stop(m0, device_id@));
            lemma_drop_task(m0.tasks, device_id@);
            assert forall|i: int| 0 <= i < self@.tasks.len()
                implies has_device(self@.devices, #[trigger] self@.tasks[i].device_id) by {
                let tid = self@.tasks[i].device_id;
                assert(m0.tasks.contains(drop_task(m0.tasks, device_id@)[i]));
                assert(has_device(m0.devices, tid));
                let dw = choose|dw: int| 0 <= dw < m0.devices.len() && m0.devices[dw].id == tid;
                assert(self@.devices[dw].id == tid);
            }
        }
        Ok(())
    }

    /// Dequeues one discovered share for the device, if any is waiting.
    /// Non-blocking; `None` when no task is tracked or its queue is empty.
    pub fn get_share(&mut self, device_id: &str) -> (r: Option<Share>)
        requires
            wf(old(self)@),
        ensures
            wf(final(self)@),
            final(self)@.devices == old(self)@.devices,
            match r {
                Some(share) => ({
                    let i = task_index(old(self)@.tasks, device_id@);
                    let t = old(self)@.tasks[i];
                    &&& has_task(old(self)@.tasks, device_id@)
                    &&& t.pending_shares.len() > 0
                    &&& share@ == t.pending_shares[0]
                    &&& final(self)@.tasks == old(self)@.tasks.update(i, TaskView {
                        pending_shares: t.pending_shares.drop_first(),
                        ..t
                    })
                }),
                None => final(self)@ == old(self)@
                    && (!has_task(old(self)@.tasks, device_id@)
                        || old(self)@.tasks[task_index(old(self)@.tasks, device_id@)].pending_shares.len() == 0),
            },
    {
        let ghost m0 = self@;
        let ti = match self.find_task(device_id) {
            None => {
                return None;
            },
            Some(i) => i,
        };
        proof {
            let c = task_index(m0.tasks, device_id@);
            assert(0 <= c < m0.tasks.len() && m0.tasks[c].device_id == device_id@);
            if c != ti {
                assert(m0.tasks[c].device_id != m0.tasks[ti as int].device_id);
            }
            assert(task_index(m0.tasks, device_id@) == ti as int);
        }
        let mut task = self.active_tasks.remove(ti);
        if task.pending_shares.len() == 0 {
            self.active_tasks.insert(ti, task);
            proof {
                assert(self@.tasks =~= m0.tasks);
                assert(self@.devices =~= m0.devices);
                assert(self@ =~= m0);
            }
            return None;
        }
        let share = task.pending_shares.remove(0);
        let ghost updated = TaskView {
            pending_shares: m0.tasks[ti as int].pending_shares.drop_first(),
            ..m0.tasks[ti as int]
        };
        self.active_tasks.insert(ti, task);
        proof {
            assert(task@ =~~= updated);
            assert(self@.tasks =~~= m0.tasks.update(ti as int, updated));
            assert(self@.devices =~= m0.devices);
            assert forall|i: int, j: int| 0 <= i < j < self@.tasks.len()
                implies self@.tasks[i].device_id != self@.tasks[j].device_id by {
                assert(self@.tasks[i].device_id == m0.tasks[i].device_id);
                assert(self@.tasks[j].device_id == m0.tasks[j].device_id);
            }
            assert forall|i: int| 0 <= i < self@.tasks.len()
                implies has_device(self@.devices, #[trigger] self@.tasks[i].device_id) by {
                assert(self@.tasks[i].device_id == m0.tasks[i].device_id);
            }
        }
        Some(share)
    }

    /// A snapshot of the device table.
    pub fn devices(&self) -> (r: Vec<Device>)
        ensures
            r@.len() == self@.devices.len(),
            forall|i: int| 0 <= i < r@.len() ==> (#[trigger] r@[i])@ == self@.devices[i],
    {
        let n = self.devices.len();
        let mut out: Vec<Device> = Vec::new();
        let mut i: usize = 0;
        while i < n
            invariant
                0 <= i <= n,
                n == self@.devices.len(),
                out@.len() == i,
                forall|j: int| 0 <= j < i ==> (#[trigger] out@[j])@ == self@.devices[j],
            decreases n - i,
        {
            out.push(self.devices[i].duplicate());
            i += 1;
        }
        out
    }

    /// Replaces the status of the device with the given id; a no-op for an
    /// unknown id.
    pub fn update_device_status(&mut self, device_id: &str, status: DeviceStatus)
        requires
            wf(old(self)@),
        ensures
            wf(final(self)@),
            final(self)@.tasks == old(self)@.tasks,
            final(self)@.devices == with_status(old(self)@.devices, device_id@, status@),
    {
        let ghost m0 = self@;
        match self.find_device(device_id) {
            None => {
                assert(final(self)@.devices =~= with_status(m0.devices, device_id@, status@));
            },
            Some(idx) => {
                self.set_status(idx, status);
                proof {
                    assert forall|i: int| 0 <= i < m0.tasks.len()
                        implies has_device(self@.devices, #[trigger] self@.tasks[i].device_id) by {
                        let tid = m0.tasks[i].device_id;
                        let dw = choose|dw: int| 0 <= dw < m0.devices.len() && m0.devices[dw].id == tid;
                        assert(self@.devices[dw].id == tid);
                    }
                }
            },
        }
    }

    /// Runs one search batch for the device's task against its job and the
    /// task's current nonce position. A found share is queued on the task's
    /// delivery queue and the nonce advances past it; an exhausted batch
    /// advances the nonce by the whole batch. With no tracked task nothing
    /// changes, which is how a cancelled task's driving loop learns to
    /// exit. The worst-case stop latency is therefore one batch.
    pub fn poll_device(&mut self, device_id: &str) -> (r: PollOutcome)
        requires
            wf(old(self)@),
        ensures
            wf(final(self)@),
            final(self)@.devices == old(self)@.devices,
            match r {
                PollOutcome::NoTask => !has_task(old(self)@.tasks, device_id@)
                    && final(self)@ == old(self)@,
                PollOutcome::Found => ({
                    let i = task_index(old(self)@.tasks, device_id@);
                    let t = old(self)@.tasks[i];
                    &&& has_task(old(self)@.tasks, device_id@)
                    &&& final(self)@.tasks.len() == old(self)@.tasks.len()
                    &&& (forall|j: int| 0 <= j < old(self)@.tasks.len() && j != i
                        ==> final(self)@.tasks[j] == old(self)@.tasks[j])
                    &&& exists|k: u64| #[trigger] found_step(t, final(self)@.tasks[i], k)
                }),
                PollOutcome::Exhausted => ({
                    let i = task_index(old(self)@.tasks, device_id@);
                    let t = old(self)@.tasks[i];
                    &&& has_task(old(self)@.tasks, device_id@)
                    &&& forall|k: u64| 0 <= k < spec_batch_size(t.job.algorithm)
                        ==> !attempt_accepted(t.job.algorithm, t.job.header, t.job.target, nth_nonce(t.next_nonce, k))
                    &&& final(self)@.tasks == old(self)@.tasks.update(i, TaskView {
                        next_nonce: nth_nonce(t.next_nonce, spec_batch_size(t.job.algorithm)),
                        ..t
                    })
                }),
            },
    {
        let ghost m0 = self@;
        let ti = match self.find_task(device_id) {
            None => {
                return PollOutcome::NoTask;
            },
            Some(i) => i,
        };
        proof {
            let c = task_index(m0.tasks, device_id@);
            assert(0 <= c < m0.tasks.len() && m0.tasks[c].device_id == device_id@);
            if c != ti {
                assert(m0.tasks[c].device_id != m0.tasks[ti as int].device_id);
            }
            assert(task_index(m0.tasks, device_id@) == ti as int);
        }
        let mut task = self.active_tasks.remove(ti);
        let count = batch_size(task.job.algorithm);
        let found = search_batch(task.job.algorithm, &task.job.header, &task.job.target, task.next_nonce, count);
        let outcome: PollOutcome;
        let ghost t0 = m0.tasks[ti as int];
        match found {
            Some((nonce, hash)) => {
                let share = Share::new(
                    task.job.id.clone(),
                    nonce,
                    hash,
                    task.device_id.clone(),
                );
                task.pending_shares.push(share);
                task.next_nonce = nonce.wrapping_add(1);
                proof {
                    let k = choose|k: u64| 0 <= k < count && nonce == nth_nonce(t0.next_nonce, k)
                        && (forall|j: u64| 0 <= j < k ==> !attempt_accepted(t0.job.algorithm, t0.job.header, t0.job.target, nth_nonce(t0.next_nonce, j)));
                    assert(found_step(t0, task@, k));
                }
                outcome = PollOutcome::Found;
            },
            None => {
                task.next_nonce = task.next_nonce.wrapping_add(count);
                proof {
                    assert(task@ =~= TaskView {
                        next_nonce: nth_nonce(t0.next_nonce, spec_batch_size(t0.job.algorithm)),
                        ..t0
                    });
                }
                outcome = PollOutcome::Exhausted;
            },
        }
        let ghost tv = task@;
        self.active_tasks.insert(ti, task);
        proof {
            assert(self@.tasks =~~= m0.tasks.update(ti as int, tv));
            assert(self@.devices =~= m0.devices);
            assert forall|i: int, j: int| 0 <= i < j < self@.tasks.len()
                implies self@.tasks[i].device_id != self@.tasks[j].device_id by {
                assert(self@.tasks[i].device_id == m0.tasks[i].device_id);
                assert(self@.tasks[j].device_id == m0.tasks[j].device_id);
            }
            assert forall|i: int| 0 <= i < self@.tasks.len()
                implies has_device(self@.devices, #[trigger] self@.tasks[i].device_id) by {
                assert(self@.tasks[i].device_id == m0.tasks[i].device_id);
            }
            assert(wf(self@));
            assert(self@.devices == m0.devices);
            let i = task_index(m0.tasks, device_id@);
            assert(i == ti as int);
            assert(self@.tasks[i] == tv);
            assert(self@.tasks.len() == m0.tasks.len());
            assert(forall|j: int| 0 <= j < m0.tasks.len() && j != i ==> self@.tasks[j] == m0.tasks[j]);
            match outcome {
                PollOutcome::Found => {
                    assert(exists|k: u64| #[trigger] found_step(m0.tasks[i], self@.tasks[i], k));
                },
                PollOutcome::Exhausted => {
                    let t = m0.tasks[i];
                    assert(forall|k: u64| 0 <= k < spec_batch_size(t.job.algorithm)
                        ==> !attempt_accepted(t.job.algorithm, t.job.header, t.job.target, nth_nonce(t.next_nonce, k)));
                    assert(self@.tasks == m0.tasks.update(i, TaskView {
                        next_nonce: nth_nonce(t.next_nonce, spec_batch_size(t.job.algorithm)),
                        ..t
                    }));
                },
                PollOutcome::NoTask => {},
            }
        }
        outcome
    }
}

} // verus!
