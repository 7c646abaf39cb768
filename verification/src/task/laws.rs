//! Laws of yielding and exiting, stated directly over the task table before
//! and after the call: which task runs next, when every application has
//! completed, and what happens to the start time of the task switched to.

use vstd::prelude::*;
use crate::config::MAX_APP_NUM;
use crate::task::{
    cyclic, cyclic_distance, exit_step, first_ready_in, lemma_cyclic_distance, lemma_cyclic_value,
    ready_in, suspend_step, time_step, Schedule, TaskControlBlock, TaskManager, TaskStatus,
};

verus! {

/// The first ready task `k` steps after `cur` is exactly `k` steps away, and
/// no ready task lies fewer steps away.
proof fn lemma_pick_nearest(tasks: Seq<TaskControlBlock>, cur: int, n: nat, k: int, i: int)
    requires
        0 <= cur < n,
        first_ready_in(tasks, cur, n, k),
        0 <= i < n,
        ready_in(tasks, i),
    ensures
        0 <= cyclic(cur, n, k) < n,
        cyclic_distance(cur, cyclic(cur, n, k), n) == k,
        k <= cyclic_distance(cur, i, n),
{
    lemma_cyclic_value(cur, n as int, k);
    lemma_cyclic_distance(cur, i, n);
    let ki = cyclic_distance(cur, i, n);
    if ki < k {
        assert(!ready_in(tasks, cyclic(cur, n, ki)));
    }
}

/// Yield always switches when there is an application: from the current
/// task to a task that was ready, or back to the current task itself; the
/// task switched to runs and becomes current; its start time is kept when it
/// has run before and is `now` on its first run; the yielding task, when
/// another runs, is left ready; and no other task changes.
pub proof fn law_yield_switch(pre: TaskManager, post: TaskManager, now: isize, r: Schedule)
    requires
        pre.wf(),
        pre.app_count() > 0,
        pre.status(pre.current()) == TaskStatus::Running,
        suspend_step(pre, post, now, r),
    ensures
        r matches Schedule::Switch { from, to } && {
            let cur = pre.current();
            let old_to = pre.tasks()[to as int];
            &&& from == cur
            &&& to < pre.app_count()
            &&& (to == cur || old_to.task_status == TaskStatus::Ready)
            &&& post.current() == to
            &&& post.tasks()[to as int].task_status == TaskStatus::Running
            &&& post.tasks()[to as int].task_started
            &&& post.tasks()[to as int].task_time == old_to.task_time
            &&& post.tasks()[to as int].task_start_time == if old_to.task_started {
                old_to.task_start_time
            } else {
                now
            }
            &&& to != cur ==> post.tasks()[cur] == (TaskControlBlock {
                task_status: TaskStatus::Ready,
                ..pre.tasks()[cur]
            })
            &&& forall|j: int|
                0 <= j < MAX_APP_NUM && j != cur && j != to ==> #[trigger] post.tasks()[j]
                    == pre.tasks()[j]
        },
{
    let n = pre.app_count();
    let cur = pre.current();
    let mid = pre.suspended_tasks();
    assert(ready_in(mid, cur));
    if let Schedule::Switch { from, to } = r {
        let k = choose|k: int| first_ready_in(mid, cur, n, k) && to == cyclic(cur, n, k);
        lemma_cyclic_value(cur, n as int, k);
        assert(ready_in(mid, to as int));
    }
}

/// Yield never passes over a ready task: where a task `i` other than the
/// current one is ready, yield switches away from the current task, to a
/// ready task no more steps away than `i`, going round the applications from
/// the task after the current one.
pub proof fn law_yield_nearest_ready(
    pre: TaskManager,
    post: TaskManager,
    now: isize,
    r: Schedule,
    i: int,
)
    requires
        pre.wf(),
        pre.status(pre.current()) == TaskStatus::Running,
        suspend_step(pre, post, now, r),
        0 <= i < pre.app_count(),
        i != pre.current(),
        pre.status(i) == TaskStatus::Ready,
    ensures
        r matches Schedule::Switch { from, to } && {
            let n = pre.app_count() as int;
            let cur = pre.current();
            &&& from == cur
            &&& to != cur
            &&& to < n
            &&& pre.status(to as int) == TaskStatus::Ready
            &&& (if to > cur { to - cur } else { to - cur + n }) <= (if i > cur {
                i - cur
            } else {
                i - cur + n
            })
        },
{
    let n = pre.app_count();
    let cur = pre.current();
    let mid = pre.suspended_tasks();
    assert(ready_in(mid, i));
    assert(ready_in(mid, cur));
    if let Schedule::Switch { from, to } = r {
        let k = choose|k: int| first_ready_in(mid, cur, n, k) && to == cyclic(cur, n, k);
        lemma_pick_nearest(mid, cur, n, k, i);
        lemma_cyclic_distance(cur, i, n);
        if to == cur {
            assert(!ready_in(pre.tasks(), i));
        }
        assert(ready_in(mid, to as int));
    }
}

/// Exit reports that every application has completed exactly when no
/// application but the exiting one is ready; the exiting task is left
/// exited whatever happens.
pub proof fn law_exit_completes(pre: TaskManager, post: TaskManager, now: isize, r: Schedule)
    requires
        pre.wf(),
        exit_step(pre, post, now, r),
    ensures
        r is AllCompleted <==> forall|j: int|
            0 <= j < pre.app_count() && j != pre.current() ==> #[trigger] pre.status(j)
                != TaskStatus::Ready,
        post.status(pre.current()) == TaskStatus::Exited,
        r is AllCompleted ==> post.current() == pre.current() && forall|j: int|
            0 <= j < MAX_APP_NUM && j != pre.current() ==> #[trigger] post.tasks()[j]
                == pre.tasks()[j],
{
    let cur = pre.current();
    let n = pre.app_count();
    if r is AllCompleted {
        assert forall|j: int| 0 <= j < n && j != cur implies #[trigger] pre.status(j)
            != TaskStatus::Ready by {
            assert(!ready_in(pre.tasks(), j));
        }
    } else {
        let j = choose|j: int| 0 <= j < n && j != cur && #[trigger] ready_in(pre.tasks(), j);
        assert(pre.status(j) == TaskStatus::Ready);
    }
}

/// Exit switches, where it does not complete, from the exiting task to a
/// ready task no more steps away than any other ready task `i`, going round
/// the applications from the task after the exiting one; that task runs and
/// becomes current, its start time kept when it has run before and `now` on
/// its first run; no other task but the exiting one changes.
pub proof fn law_exit_nearest_ready(
    pre: TaskManager,
    post: TaskManager,
    now: isize,
    r: Schedule,
    i: int,
)
    requires
        pre.wf(),
        exit_step(pre, post, now, r),
        0 <= i < pre.app_count(),
        i != pre.current(),
        pre.status(i) == TaskStatus::Ready,
    ensures
        r matches Schedule::Switch { from, to } && {
            let n = pre.app_count() as int;
            let cur = pre.current();
            let old_to = pre.tasks()[to as int];
            &&& from == cur
            &&& to != cur
            &&& to < n
            &&& old_to.task_status == TaskStatus::Ready
            &&& (if to > cur { to - cur } else { to - cur + n }) <= (if i > cur {
                i - cur
            } else {
                i - cur + n
            })
            &&& post.current() == to
            &&& post.tasks()[to as int].task_status == TaskStatus::Running
            &&& post.tasks()[to as int].task_started
            &&& post.tasks()[to as int].task_time == old_to.task_time
            &&& post.tasks()[to as int].task_start_time == if old_to.task_started {
                old_to.task_start_time
            } else {
                now
            }
            &&& post.tasks()[cur] == (TaskControlBlock {
                task_status: TaskStatus::Exited,
                ..pre.tasks()[cur]
            })
            &&& forall|j: int|
                0 <= j < MAX_APP_NUM && j != cur && j != to ==> #[trigger] post.tasks()[j]
                    == pre.tasks()[j]
        },
{
    let n = pre.app_count();
    let cur = pre.current();
    let mid = pre.exited_tasks();
    assert(ready_in(pre.tasks(), i));
    if let Schedule::Switch { from, to } = r {
        let k = choose|k: int| first_ready_in(mid, cur, n, k) && to == cyclic(cur, n, k);
        assert(ready_in(mid, i));
        lemma_pick_nearest(mid, cur, n, k, i);
        lemma_cyclic_distance(cur, i, n);
        assert(ready_in(mid, to as int));
    }
}

/// Measuring the running time of the current task at time `now` returns
/// `now` minus the task's start time, records it as the task's time, and
/// changes nothing else: not the current task, not its status, not its start
/// time, not any other task.
pub proof fn law_task_time(pre: TaskManager, post: TaskManager, now: int, t: int)
    requires
        pre.wf(),
        time_step(pre, post, now, t),
    ensures
        t == now - pre.tasks()[pre.current()].task_start_time,
        post.current() == pre.current(),
        post.app_count() == pre.app_count(),
        post.tasks()[pre.current()].task_time == t,
        post.tasks()[pre.current()].task_start_time == pre.tasks()[pre.current()].task_start_time,
        post.tasks()[pre.current()].task_status == pre.tasks()[pre.current()].task_status,
        post.tasks()[pre.current()].task_started == pre.tasks()[pre.current()].task_started,
        forall|j: int|
            0 <= j < MAX_APP_NUM && j != pre.current() ==> #[trigger] post.tasks()[j]
                == pre.tasks()[j],
{
}

} // verus!
