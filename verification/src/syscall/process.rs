//! Process management syscalls

use vstd::prelude::*;
use crate::config::{MAX_APP_NUM, MAX_SYSCALL_NUM};
use crate::task::{
    exit_current_and_run_next, exit_step, get_current_task_nr, get_current_task_status,
    get_current_task_time, suspend_current_and_run_next, suspend_step, time_step, Schedule,
    TaskManager, TaskStatus,
};

verus! {

/// A time split into seconds and microseconds.
#[derive(Clone, Copy, PartialEq, Eq, Structural, Debug)]
pub struct TimeVal {
    pub sec: usize,
    pub usec: usize,
}

/// How many times each task has made each system call: one row per task,
/// one count per system-call number.
pub struct SyscallTimes {
    counts: Vec<Vec<u32>>,
}

impl View for SyscallTimes {
    type V = Seq<Seq<u32>>;

    closed spec fn view(&self) -> Seq<Seq<u32>> {
        self.counts@.map_values(|row: Vec<u32>| row@)
    }
}

/// One count for every task and every system-call number.
pub open spec fn counts_wf(counts: Seq<Seq<u32>>) -> bool {
    &&& counts.len() == MAX_APP_NUM
    &&& forall|t: int| 0 <= t < MAX_APP_NUM ==> #[trigger] counts[t].len() == MAX_SYSCALL_NUM
}

/// Counting one call of system call `id` by task `t` takes the counts from
/// `pre` to `post`: that one count grows by one, and no other changes.
pub open spec fn add_step(pre: Seq<Seq<u32>>, post: Seq<Seq<u32>>, t: int, id: int) -> bool {
    &&& 0 <= t < pre.len()
    &&& 0 <= id < pre[t].len()
    &&& pre[t][id] < u32::MAX
    &&& post == pre.update(t, pre[t].update(id, (pre[t][id] + 1) as u32))
}

/// How many of the calls `calls`, each a pair of a task and a system-call
/// number, task `t` made to system call `id`.
pub open spec fn count_calls(calls: Seq<(int, int)>, t: int, id: int) -> nat
    decreases calls.len(),
{
    if calls.len() == 0 {
        0
    } else {
        count_calls(calls.drop_last(), t, id) + if calls.last() == (t, id) { 1nat } else { 0nat }
    }
}

/// Counting is exact: after a run of counted calls, each count has grown by
/// the number of calls of that system call made by that task, and by
/// nothing else. Two `task_info` calls of one task therefore differ, for each
/// system call, by what that task made in between.
pub proof fn lemma_counts_accumulate(states: Seq<Seq<Seq<u32>>>, calls: Seq<(int, int)>)
    requires
        states.len() == calls.len() + 1,
        forall|k: int|
            0 <= k < calls.len() ==> #[trigger] add_step(states[k], states[k + 1], calls[k].0, calls[k].1),
    ensures
        states.last().len() == states[0].len(),
        forall|t: int| 0 <= t < states[0].len() ==> #[trigger] states.last()[t].len() == states[0][t].len(),
        forall|t: int, id: int|
            0 <= t < states[0].len() && 0 <= id < states[0][t].len()
                ==> #[trigger] states.last()[t][id] == states[0][t][id] + count_calls(calls, t, id),
    decreases calls.len(),
{
    if calls.len() > 0 {
        let s2 = states.drop_last();
        let c2 = calls.drop_last();
        assert forall|k: int|
            0 <= k < c2.len() implies #[trigger] add_step(s2[k], s2[k + 1], c2[k].0, c2[k].1) by {
            assert(add_step(states[k], states[k + 1], calls[k].0, calls[k].1));
        }
        lemma_counts_accumulate(s2, c2);
        let last = calls.len() - 1;
        assert(add_step(states[last], states[last + 1], calls[last].0, calls[last].1));
        assert(s2.last() == states[last]);
        assert(states.last() == states[last + 1]);
    }
}

/// Counting one call of system call `id` by task `t` raises that task's
/// count of that call by one; every other count, of that task or of any
/// other task, stays as it was.
pub proof fn law_add_syscall(pre: Seq<Seq<u32>>, post: Seq<Seq<u32>>, t: int, id: int)
    requires
        counts_wf(pre),
        add_step(pre, post, t, id),
    ensures
        counts_wf(post),
        post[t][id] == pre[t][id] + 1,
        forall|u: int, j: int|
            0 <= u < MAX_APP_NUM && 0 <= j < MAX_SYSCALL_NUM && (u != t || j != id)
                ==> #[trigger] post[u][j] == pre[u][j],
{
    assert forall|u: int| 0 <= u < MAX_APP_NUM implies #[trigger] post[u].len() == MAX_SYSCALL_NUM by {
        assert(pre[u].len() == MAX_SYSCALL_NUM);
    }
}

impl SyscallTimes {
    /// One count for every task and every system-call number.
    pub open spec fn wf(&self) -> bool {
        counts_wf(self@)
    }

    /// No system call made yet.
    pub fn new() -> (st: Self)
        ensures
            st.wf(),
            forall|t: int, i: int|
                0 <= t < MAX_APP_NUM && 0 <= i < MAX_SYSCALL_NUM ==> #[trigger] st@[t][i] == 0,
    {
        let mut counts: Vec<Vec<u32>> = Vec::new();
        let mut t: usize = 0;
        while t < MAX_APP_NUM
            invariant
                t <= MAX_APP_NUM,
                counts@.len() == t,
                forall|u: int| 0 <= u < t ==> #[trigger] counts@[u]@.len() == MAX_SYSCALL_NUM,
                forall|u: int, i: int|
                    0 <= u < t && 0 <= i < MAX_SYSCALL_NUM ==> #[trigger] counts@[u]@[i] == 0,
            decreases MAX_APP_NUM - t,
        {
            let mut row: Vec<u32> = Vec::new();
            let mut i: usize = 0;
            while i < MAX_SYSCALL_NUM
                invariant
                    i <= MAX_SYSCALL_NUM,
                    row@.len() == i,
                    forall|j: int| 0 <= j < i ==> #[trigger] row@[j] == 0,
                decreases MAX_SYSCALL_NUM - i,
            {
                row.push(0);
                i = i + 1;
            }
            counts.push(row);
            t = t + 1;
        }
        let st = SyscallTimes { counts };
        assert forall|u: int| 0 <= u < MAX_APP_NUM implies #[trigger] st@[u].len() == MAX_SYSCALL_NUM by {
            assert(st@[u] == st.counts@[u]@);
        }
        assert forall|u: int, i: int|
            0 <= u < MAX_APP_NUM && 0 <= i < MAX_SYSCALL_NUM implies #[trigger] st@[u][i] == 0 by {
            assert(st@[u] == st.counts@[u]@);
        }
        st
    }

    /// How many times task `task` has made system call `syscall_id`.
    pub fn count(&self, task: usize, syscall_id: usize) -> (c: u32)
        requires
            self.wf(),
            task < MAX_APP_NUM,
            syscall_id < MAX_SYSCALL_NUM,
        ensures
            c == self@[task as int][syscall_id as int],
    {
        assert(self@[task as int] == self.counts@[task as int]@);
        self.counts[task][syscall_id]
    }

    /// A copy of the counts of task `task`.
    fn row(&self, task: usize) -> (row: Vec<u32>)
        requires
            self.wf(),
            task < MAX_APP_NUM,
        ensures
            row@ == self@[task as int],
    {
        assert(self@[task as int] == self.counts@[task as int]@);
        let r = self.counts[task].clone();
        assert(r@ =~= self@[task as int]);
        r
    }
}

/// Counts one more call of system call `syscall_id` by task `current_task`.
pub fn add_syscall_times(times: &mut SyscallTimes, syscall_id: usize, current_task: usize)
    requires
        old(times).wf(),
        syscall_id < MAX_SYSCALL_NUM,
        current_task < MAX_APP_NUM,
        old(times)@[current_task as int][syscall_id as int] < u32::MAX,
    ensures
        final(times).wf(),
        add_step(old(times)@, final(times)@, current_task as int, syscall_id as int),
{
    assert(old(times)@[current_task as int] == old(times).counts@[current_task as int]@);
    let mut row: Vec<u32> = Vec::new();
    times.counts.set_and_swap(current_task, &mut row);
    let c = row[syscall_id];
    row.set(syscall_id, c + 1);
    times.counts.set_and_swap(current_task, &mut row);
    proof {
        let want = old(times)@.update(
            current_task as int,
            old(times)@[current_task as int].update(syscall_id as int, (c + 1) as u32),
        );
        assert forall|t: int| 0 <= t < MAX_APP_NUM implies #[trigger] times@[t] == want[t] by {
            assert(times@[t] == times.counts@[t]@);
            if t != current_task {
                assert(old(times)@[t] == old(times).counts@[t]@);
            }
        }
        assert(times@ =~= want);
    }
}

/// What the `task_info` system call hands back.
pub struct TaskInfo {
    pub status: TaskStatus,
    pub syscall_times: Vec<u32>,
    pub time: usize,
}

/// Task exits and submits an exit code: the current task is marked exited
/// and the next ready task is chosen to run at time `now`.
pub fn sys_exit(exit_code: i32, tm: &mut TaskManager, now: isize) -> (r: Schedule)
    requires
        old(tm).wf(),
    ensures
        exit_step(*old(tm), *final(tm), now, r),
{
    exit_current_and_run_next(tm, now)
}

/// Current task gives up resources for other tasks: it becomes ready and the
/// next ready task is chosen to run at time `now`. The call returns 0 to the
/// task once it runs again.
pub fn sys_yield(tm: &mut TaskManager, now: isize) -> (r: (Schedule, isize))
    requires
        old(tm).wf(),
        old(tm).status(old(tm).current()) == TaskStatus::Running,
    ensures
        suspend_step(*old(tm), *final(tm), now, r.0),
        r.1 == 0,
{
    let s = suspend_current_and_run_next(tm, now);
    (s, 0)
}

/// Get time with second and microsecond: writes the time `us`, given in
/// microseconds, into `ts`.
pub fn sys_get_time(ts: &mut TimeVal, _tz: usize, us: usize) -> (r: isize)
    ensures
        r == 0,
        final(ts).sec == us / 1_000_000,
        final(ts).usec == us % 1_000_000,
        final(ts).usec < 1_000_000,
        final(ts).sec * 1_000_000 + final(ts).usec == us,
{
    *ts = TimeVal { sec: us / 1_000_000, usec: us % 1_000_000 };
    0
}

/// Writes into `ti` the status of the current task, how many times it has
/// made each system call, and its running time at time `now`, which is also
/// recorded in the task.
pub fn sys_task_info(ti: &mut TaskInfo, tm: &mut TaskManager, times: &SyscallTimes, now: isize) -> (r: isize)
    requires
        old(tm).wf(),
        times.wf(),
        isize::MIN <= now - old(tm).tasks()[old(tm).current()].task_start_time <= isize::MAX,
    ensures
        r == 0,
        final(ti).status == old(tm).status(old(tm).current()),
        final(ti).syscall_times@ == times@[old(tm).current()],
        final(ti).time == ((now - old(tm).tasks()[old(tm).current()].task_start_time) as isize) as usize,
        time_step(*old(tm), *final(tm), now as int, now - old(tm).tasks()[old(tm).current()].task_start_time),
{
    let status = get_current_task_status(tm);
    let current = get_current_task_nr(tm);
    let counts = times.row(current);
    let time = get_current_task_time(tm, now);
    *ti = TaskInfo { status, syscall_times: counts, time: time as usize };
    0
}

} // verus!
