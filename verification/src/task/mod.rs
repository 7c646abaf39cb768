//! Task management: the task table, its state transitions and the choice of
//! the task to run next.
//!
//! One [`TaskManager`] holds every task of the system. The functions on it
//! decide; the caller carries out what they decide (saving and restoring
//! register contexts) and passes in the current time where one is needed.

use vstd::prelude::*;
use vstd::arithmetic::div_mod::{lemma_small_mod, lemma_mod_add_multiples_vanish};
use crate::config::MAX_APP_NUM;

#[allow(clippy::module_inception)]
pub mod task;
pub mod laws;

pub use task::{TaskControlBlock, TaskStatus};

verus! {

/// What the caller has to do once the scheduler has chosen.
#[derive(Clone, Copy, PartialEq, Eq, Structural, Debug)]
pub enum Schedule {
    /// Save the context of task `from` and restore the context of task `to`.
    Switch { from: usize, to: usize },
    /// No task is ready: every application has completed.
    AllCompleted,
}

/// The task manager, where all the tasks are managed.
pub struct TaskManager {
    /// total number of tasks
    num_app: usize,
    /// task list
    tasks: Vec<TaskControlBlock>,
    /// id of the current task
    current_task: usize,
}

// ---------------------------------------------------------------------------
// The model of the table
// ---------------------------------------------------------------------------

/// `tcb` with its status replaced by `status`.
pub open spec fn with_status(tcb: TaskControlBlock, status: TaskStatus) -> TaskControlBlock {
    TaskControlBlock {
        task_status: status,
        task_time: tcb.task_time,
        task_start_time: tcb.task_start_time,
        task_started: tcb.task_started,
    }
}

/// `tcb` once it is switched to at time `now`: it runs, and where it had
/// never run before its start time becomes `now`.
pub open spec fn dispatched(tcb: TaskControlBlock, now: isize) -> TaskControlBlock {
    TaskControlBlock {
        task_status: TaskStatus::Running,
        task_time: tcb.task_time,
        task_start_time: if tcb.task_started { tcb.task_start_time } else { now },
        task_started: true,
    }
}

/// Task `i` of the table `tasks` is ready to run.
pub open spec fn ready_in(tasks: Seq<TaskControlBlock>, i: int) -> bool {
    tasks[i].task_status == TaskStatus::Ready
}

/// The task reached `k` steps after task `cur`, going round `n` applications
/// in order.
pub open spec fn cyclic(cur: int, n: nat, k: int) -> int {
    (cur + k) % (n as int)
}

/// How many steps lead from task `from` round to task `to`, among `n`
/// applications: between 1 and `n`, and `n` from a task to itself.
pub open spec fn cyclic_distance(from: int, to: int, n: nat) -> int {
    if to > from { to - from } else { to - from + n }
}

/// One of the first `n` tasks of `tasks` is ready.
pub open spec fn has_ready_in(tasks: Seq<TaskControlBlock>, n: nat) -> bool {
    exists|i: int| 0 <= i < n && #[trigger] ready_in(tasks, i)
}

/// Searching the first `n` tasks of `tasks` from the one after `cur` round to
/// `cur` itself, the first ready task is `k` steps away.
pub open spec fn first_ready_in(tasks: Seq<TaskControlBlock>, cur: int, n: nat, k: int) -> bool {
    &&& 1 <= k <= n
    &&& ready_in(tasks, cyclic(cur, n, k))
    &&& forall|j: int| 1 <= j < k ==> !ready_in(tasks, #[trigger] cyclic(cur, n, j))
}

/// No task of `tasks` but task `cur` is running.
pub open spec fn running_only_in(tasks: Seq<TaskControlBlock>, cur: int) -> bool {
    forall|i: int|
        0 <= i < tasks.len() && #[trigger] tasks[i].task_status == TaskStatus::Running ==> i == cur
}

/// Every task that has exited in `pre` has still exited in `post`.
pub open spec fn exited_kept(pre: Seq<TaskControlBlock>, post: Seq<TaskControlBlock>) -> bool {
    forall|i: int|
        0 <= i < pre.len() && pre[i].task_status == TaskStatus::Exited
            ==> #[trigger] post[i].task_status == TaskStatus::Exited
}

// ---------------------------------------------------------------------------
// Laws of the round-robin search and of the table
// ---------------------------------------------------------------------------

/// The search for the next task has one answer: at most one distance `k`
/// leads to the first ready task.
pub proof fn lemma_first_ready_unique(tasks: Seq<TaskControlBlock>, cur: int, n: nat, k1: int, k2: int)
    requires
        first_ready_in(tasks, cur, n, k1),
        first_ready_in(tasks, cur, n, k2),
    ensures
        k1 == k2,
{
    if k1 < k2 {
        assert(!ready_in(tasks, cyclic(cur, n, k1)));
    } else if k2 < k1 {
        assert(!ready_in(tasks, cyclic(cur, n, k2)));
    }
}

/// Round robin: when the task right after the current one is ready, it is
/// the one that runs next.
pub proof fn lemma_next_in_order(tasks: Seq<TaskControlBlock>, cur: int, n: nat)
    requires
        n > 0,
        ready_in(tasks, cyclic(cur, n, 1)),
    ensures
        first_ready_in(tasks, cur, n, 1),
{
}

/// The distance from task `from` to task `to` leads there.
pub proof fn lemma_cyclic_distance(from: int, to: int, n: nat)
    requires
        0 <= from < n,
        0 <= to < n,
    ensures
        1 <= cyclic_distance(from, to, n) <= n,
        cyclic(from, n, cyclic_distance(from, to, n)) == to,
        cyclic_distance(from, to, n) == n <==> from == to,
{
    lemma_cyclic_value(from, n as int, cyclic_distance(from, to, n));
}

/// Fairness of the round robin: a switch from task `cur` to the first ready
/// task after it never passes over a ready task `i`; when it does not pick
/// `i`, it moves strictly closer to `i` in cyclic order, so a ready task
/// runs after at most `n - 1` switches that do not pick it.
pub proof fn lemma_switch_approaches(tasks: Seq<TaskControlBlock>, cur: int, n: nat, k: int, i: int)
    requires
        0 <= cur < n,
        0 <= i < n,
        first_ready_in(tasks, cur, n, k),
        ready_in(tasks, i),
        cyclic(cur, n, k) != i,
    ensures
        cyclic_distance(cyclic(cur, n, k), i, n) < cyclic_distance(cur, i, n),
{
    let to = cyclic(cur, n, k);
    let di = cyclic_distance(cur, i, n);
    lemma_cyclic_distance(cur, i, n);
    lemma_cyclic_value(cur, n as int, k);
    lemma_cyclic_value(cur, n as int, di);
    if di < k {
        assert(!ready_in(tasks, cyclic(cur, n, di)));
    }
    assert(k != di);
}

/// Every state keeps its exited tasks exited over a run of steps that each
/// keep them.
pub proof fn lemma_exited_kept_trans(
    a: Seq<TaskControlBlock>,
    b: Seq<TaskControlBlock>,
    c: Seq<TaskControlBlock>,
)
    requires
        a.len() == b.len(),
        exited_kept(a, b),
        exited_kept(b, c),
    ensures
        exited_kept(a, c),
{
    assert forall|i: int|
        0 <= i < a.len() && a[i].task_status == TaskStatus::Exited
            implies #[trigger] c[i].task_status == TaskStatus::Exited by {
        assert(b[i].task_status == TaskStatus::Exited);
    }
}

/// The value `c + k` takes modulo `n`, for `c` below `n` and `k` in `1..=n`.
pub(crate) proof fn lemma_cyclic_value(c: int, n: int, k: int)
    requires
        0 <= c < n,
        1 <= k <= n,
    ensures
        (c + k) % n == if c + k < n { c + k } else { c + k - n },
{
    if c + k < n {
        lemma_small_mod((c + k) as nat, n as nat);
    } else {
        lemma_small_mod((c + k - n) as nat, n as nat);
        lemma_mod_add_multiples_vanish(c + k - n, n);
    }
}

/// Changing one entry keeps "no task but the current one runs", where the new
/// entry runs only as the new current task and the old current task is the
/// changed one, stays current or does not run.
proof fn lemma_running_only_update(
    t: Seq<TaskControlBlock>,
    c: int,
    i: int,
    x: TaskControlBlock,
    c2: int,
)
    requires
        running_only_in(t, c),
        0 <= i < t.len(),
        x.task_status == TaskStatus::Running ==> i == c2,
        c == c2 || c == i || !(0 <= c < t.len()) || t[c].task_status != TaskStatus::Running,
    ensures
        running_only_in(t.update(i, x), c2),
{
    let u = t.update(i, x);
    assert forall|j: int|
        0 <= j < u.len() && #[trigger] u[j].task_status == TaskStatus::Running implies j == c2 by {
        if j != i {
            assert(t[j].task_status == TaskStatus::Running);
        }
    }
}

impl TaskManager {
    /// Number of applications.
    pub closed spec fn app_count(self) -> nat {
        self.num_app as nat
    }

    /// Index of the current task.
    pub closed spec fn current(self) -> int {
        self.current_task as int
    }

    /// The task table.
    pub closed spec fn tasks(self) -> Seq<TaskControlBlock> {
        self.tasks@
    }

    /// Status of task `i`.
    pub open spec fn status(self, i: int) -> TaskStatus {
        self.tasks()[i].task_status
    }

    /// Task `i` is ready to run.
    pub open spec fn is_ready(self, i: int) -> bool {
        ready_in(self.tasks(), i)
    }

    /// Well-formedness of the table.
    pub open spec fn wf(self) -> bool {
        &&& self.tasks().len() == MAX_APP_NUM
        &&& self.app_count() <= MAX_APP_NUM
        &&& 0 <= self.current() < MAX_APP_NUM
        &&& self.app_count() > 0 ==> self.current() < self.app_count()
    }

    /// The task reached `k` steps after the current one, going round the
    /// applications in order.
    pub open spec fn cyclic_id(self, k: int) -> int {
        cyclic(self.current(), self.app_count(), k)
    }

    /// Some application is ready.
    pub open spec fn has_ready(self) -> bool {
        has_ready_in(self.tasks(), self.app_count())
    }

    /// The first ready task, searching from the one after the current task
    /// round to the current task itself, is `k` steps away.
    pub open spec fn first_ready_at(self, k: int) -> bool {
        first_ready_in(self.tasks(), self.current(), self.app_count(), k)
    }

    /// The task table once the current task is marked `Ready`.
    pub open spec fn suspended_tasks(self) -> Seq<TaskControlBlock> {
        self.tasks().update(self.current(), with_status(self.tasks()[self.current()], TaskStatus::Ready))
    }

    /// The task table once the current task is marked `Exited`.
    pub open spec fn exited_tasks(self) -> Seq<TaskControlBlock> {
        self.tasks().update(self.current(), with_status(self.tasks()[self.current()], TaskStatus::Exited))
    }

    /// No task but the current one is running.
    pub open spec fn running_only_current(self) -> bool {
        running_only_in(self.tasks(), self.current())
    }

    /// Creates the table for `num_app` applications, all ready and not yet
    /// started, at time `now`.
    pub fn new(num_app: usize, now: isize) -> (tm: Self)
        requires
            num_app <= MAX_APP_NUM,
        ensures
            tm.wf(),
            tm.app_count() == num_app,
            tm.current() == 0,
            tm.running_only_current(),
            forall|i: int|
                0 <= i < MAX_APP_NUM ==> #[trigger] tm.tasks()[i] == (TaskControlBlock {
                    task_status: if i < num_app { TaskStatus::Ready } else { TaskStatus::UnInit },
                    task_time: 0,
                    task_start_time: now,
                    task_started: false,
                }),
    {
        let mut tasks: Vec<TaskControlBlock> = Vec::new();
        let mut i: usize = 0;
        while i < MAX_APP_NUM
            invariant
                i <= MAX_APP_NUM,
                tasks@.len() == i,
                forall|j: int|
                    0 <= j < i ==> #[trigger] tasks@[j] == (TaskControlBlock {
                        task_status: if j < num_app { TaskStatus::Ready } else { TaskStatus::UnInit },
                        task_time: 0,
                        task_start_time: now,
                        task_started: false,
                    }),
            decreases MAX_APP_NUM - i,
        {
            let status = if i < num_app { TaskStatus::Ready } else { TaskStatus::UnInit };
            tasks.push(
                TaskControlBlock {
                    task_status: status,
                    task_time: 0,
                    task_start_time: now,
                    task_started: false,
                },
            );
            i = i + 1;
        }
        TaskManager { num_app, tasks, current_task: 0 }
    }

    /// Runs the first task in the task list: it becomes running, with its
    /// start time set to `now`. Returns the index of the task to switch to.
    pub fn run_first_task(&mut self, now: isize) -> (first: usize)
        requires
            old(self).wf(),
        ensures
            first == 0,
            final(self).wf(),
            final(self).app_count() == old(self).app_count(),
            final(self).current() == old(self).current(),
            final(self).tasks() == old(self).tasks().update(
                0,
                TaskControlBlock {
                    task_status: TaskStatus::Running,
                    task_time: old(self).tasks()[0].task_time,
                    task_start_time: now,
                    task_started: true,
                },
            ),
            old(self).status(0) != TaskStatus::Exited ==> exited_kept(old(self).tasks(), final(self).tasks()),
            old(self).current() == 0 && old(self).running_only_current()
                ==> final(self).running_only_current(),
    {
        let task0 = self.tasks[0];
        let first = TaskControlBlock {
            task_status: TaskStatus::Running,
            task_time: task0.task_time,
            task_start_time: now,
            task_started: true,
        };
        self.tasks.set(0, first);
        proof {
            if old(self).current() == 0 && old(self).running_only_current() {
                lemma_running_only_update(old(self).tasks(), 0, 0, first, 0);
            }
        }
        0
    }

    /// Changes the status of the current task into `Ready`.
    pub fn mark_current_suspended(&mut self)
        requires
            old(self).wf(),
        ensures
            final(self).wf(),
            final(self).app_count() == old(self).app_count(),
            final(self).current() == old(self).current(),
            final(self).tasks() == old(self).suspended_tasks(),
    {
        let current = self.current_task;
        let tcb = self.tasks[current];
        self.tasks.set(
            current,
            TaskControlBlock {
                task_status: TaskStatus::Ready,
                task_time: tcb.task_time,
                task_start_time: tcb.task_start_time,
                task_started: tcb.task_started,
            },
        );
    }

    /// Changes the status of the current task into `Exited`.
    pub fn mark_current_exited(&mut self)
        requires
            old(self).wf(),
        ensures
            final(self).wf(),
            final(self).app_count() == old(self).app_count(),
            final(self).current() == old(self).current(),
            final(self).tasks() == old(self).exited_tasks(),
    {
        let current = self.current_task;
        let tcb = self.tasks[current];
        self.tasks.set(
            current,
            TaskControlBlock {
                task_status: TaskStatus::Exited,
                task_time: tcb.task_time,
                task_start_time: tcb.task_start_time,
                task_started: tcb.task_started,
            },
        );
    }

    /// Finds the next task to run: the first ready task after the current
    /// one, going round the applications in order and ending with the
    /// current task itself. With no application there is none.
    pub fn find_next_task(&self) -> (r: Option<usize>)
        requires
            self.wf(),
        ensures
            r is Some <==> self.has_ready(),
            r matches Some(id) ==> id < self.app_count() && self.is_ready(id as int) && exists|k: int|
                self.first_ready_at(k) && id == self.cyclic_id(k),
            r matches Some(id) && id == self.current() ==> forall|j: int|
                0 <= j < self.app_count() && j != self.current() ==> !#[trigger] ready_in(self.tasks(), j),
    {
        let n = self.num_app;
        let cur = self.current_task;
        let mut k: usize = 1;
        while k <= n
            invariant
                self.wf(),
                n == self.app_count(),
                cur == self.current(),
                1 <= k <= n + 1,
                forall|j: int| 1 <= j < k ==> !ready_in(self.tasks(), #[trigger] cyclic(cur as int, n as nat, j)),
            decreases n + 1 - k,
        {
            let id = (cur + k) % n;
            if self.tasks[id].task_status == TaskStatus::Ready {
                assert(self.first_ready_at(k as int));
                proof {
                    if id == cur {
                        lemma_cyclic_value(cur as int, n as int, k as int);
                        assert forall|j: int|
                            0 <= j < n && j != cur implies !#[trigger] ready_in(self.tasks(), j) by {
                            lemma_cyclic_distance(cur as int, j, n as nat);
                        }
                    }
                }
                return Some(id);
            }
            k = k + 1;
        }
        proof {
            assert forall|i: int| 0 <= i < n implies !#[trigger] ready_in(self.tasks(), i) by {
                lemma_cyclic_distance(cur as int, i, n as nat);
            }
        }
        None
    }

    /// Switches to the task found by [`TaskManager::find_next_task`] at time
    /// `now`: it becomes the running, current task, and where it runs for the
    /// first time its start time becomes `now`. Where no task is ready,
    /// nothing changes and every application has completed.
    pub fn run_next_task(&mut self, now: isize) -> (r: Schedule)
        requires
            old(self).wf(),
        ensures
            final(self).wf(),
            final(self).app_count() == old(self).app_count(),
            r is AllCompleted <==> !old(self).has_ready(),
            r is AllCompleted ==> final(self).tasks() == old(self).tasks()
                && final(self).current() == old(self).current(),
            r matches Schedule::Switch { from, to } ==> {
                &&& from == old(self).current()
                &&& to < old(self).app_count()
                &&& exists|k: int| old(self).first_ready_at(k) && to == old(self).cyclic_id(k)
                &&& final(self).current() == to
                &&& final(self).tasks() == old(self).tasks().update(
                    to as int,
                    dispatched(old(self).tasks()[to as int], now),
                )
            },
            exited_kept(old(self).tasks(), final(self).tasks()),
            old(self).status(old(self).current()) != TaskStatus::Running
                && old(self).running_only_current() ==> final(self).running_only_current(),
    {
        match self.find_next_task() {
            Some(next) => {
                let current = self.current_task;
                let tcb = self.tasks[next];
                let start = if tcb.task_started { tcb.task_start_time } else { now };
                let running = TaskControlBlock {
                    task_status: TaskStatus::Running,
                    task_time: tcb.task_time,
                    task_start_time: start,
                    task_started: true,
                };
                self.tasks.set(next, running);
                self.current_task = next;
                proof {
                    if old(self).status(old(self).current()) != TaskStatus::Running
                        && old(self).running_only_current() {
                        lemma_running_only_update(
                            old(self).tasks(),
                            old(self).current(),
                            next as int,
                            running,
                            next as int,
                        );
                    }
                }
                Schedule::Switch { from: current, to: next }
            },
            None => Schedule::AllCompleted,
        }
    }

    /// Status of the current task.
    pub fn get_current_task_status(&self) -> (s: TaskStatus)
        requires
            self.wf(),
        ensures
            s == self.status(self.current()),
    {
        self.tasks[self.current_task].task_status
    }

    /// Start time of the current task.
    pub fn get_current_task_start_time(&self) -> (t: isize)
        requires
            self.wf(),
        ensures
            t == self.tasks()[self.current()].task_start_time,
    {
        self.get_current_task_control_block().task_start_time
    }

    /// A copy of the control block of the current task.
    pub fn get_current_task_control_block(&self) -> (tcb: TaskControlBlock)
        requires
            self.wf(),
        ensures
            tcb == self.tasks()[self.current()],
    {
        self.tasks[self.current_task]
    }

    /// Index of the current task.
    pub fn get_current_task_nr(&self) -> (nr: usize)
        requires
            self.wf(),
        ensures
            nr == self.current(),
            self.app_count() > 0 ==> nr < self.app_count(),
    {
        self.current_task
    }

    /// Measures the running time of the current task at time `now`, as `now`
    /// minus its start time, records it in the task and returns it.
    pub fn get_current_task_time(&mut self, now: isize) -> (t: isize)
        requires
            old(self).wf(),
            isize::MIN <= now - old(self).tasks()[old(self).current()].task_start_time <= isize::MAX,
        ensures
            time_step(*old(self), *final(self), now as int, t as int),
    {
        let current = self.current_task;
        let tcb = self.tasks[current];
        self.tasks.set(
            current,
            TaskControlBlock {
                task_status: tcb.task_status,
                task_time: now - tcb.task_start_time,
                task_start_time: tcb.task_start_time,
                task_started: tcb.task_started,
            },
        );
        self.get_current_task_control_block().task_time
    }
}

/// What measuring the running time of the current task at time `now` does,
/// from table `pre` to table `post`, returning `t`: `t` is `now` minus the
/// task's start time and is recorded as its task time; nothing else changes.
pub open spec fn time_step(pre: TaskManager, post: TaskManager, now: int, t: int) -> bool {
    let cur = pre.current();
    let tcb = pre.tasks()[cur];
    &&& t == now - tcb.task_start_time
    &&& isize::MIN <= t <= isize::MAX
    &&& post.wf()
    &&& post.app_count() == pre.app_count()
    &&& post.current() == cur
    &&& post.tasks() == pre.tasks().update(
        cur,
        TaskControlBlock {
            task_status: tcb.task_status,
            task_time: t as isize,
            task_start_time: tcb.task_start_time,
            task_started: tcb.task_started,
        },
    )
}

/// Two measurements of the running time of the same task, with no switch in
/// between, differ by the time that passed between them: measuring never
/// moves the task's start time.
pub proof fn lemma_task_time_two_reads(
    s0: TaskManager,
    s1: TaskManager,
    s2: TaskManager,
    now1: int,
    now2: int,
    t1: int,
    t2: int,
)
    requires
        s0.wf(),
        time_step(s0, s1, now1, t1),
        time_step(s1, s2, now2, t2),
    ensures
        t2 - t1 == now2 - now1,
        now1 <= now2 ==> t1 <= t2,
        s2.current() == s0.current(),
        s2.tasks()[s2.current()].task_start_time == s0.tasks()[s0.current()].task_start_time,
{
}

/// What suspending the current task and running the next one at time `now`
/// does, from table `pre` to table `post`, deciding `r`: the current task
/// becomes ready, and the first ready task after it, going round the
/// applications, becomes the running, current task (its start time set to
/// `now` where it runs for the first time); it is the current task itself
/// only when no other task is ready. Some task always runs next unless there
/// is no application. Exited tasks stay exited, and no task but the current
/// one runs, where that held before.
pub open spec fn suspend_step(pre: TaskManager, post: TaskManager, now: isize, r: Schedule) -> bool {
    let n = pre.app_count();
    let cur = pre.current();
    let mid = pre.suspended_tasks();
    &&& post.wf()
    &&& post.app_count() == n
    &&& (r is AllCompleted <==> n == 0)
    &&& r is AllCompleted ==> post.tasks() == mid && post.current() == cur
    &&& r matches Schedule::Switch { from, to } ==> {
        &&& from == cur
        &&& to < n
        &&& exists|k: int| first_ready_in(mid, cur, n, k) && to == cyclic(cur, n, k)
        &&& post.current() == to
        &&& post.tasks() == mid.update(to as int, dispatched(mid[to as int], now))
        &&& to == from ==> forall|j: int|
            0 <= j < n && j != from ==> !#[trigger] ready_in(pre.tasks(), j)
    }
    &&& exited_kept(pre.tasks(), post.tasks())
    &&& pre.running_only_current() ==> post.running_only_current()
}

/// What exiting the current task and running the next one at time `now`
/// does, from table `pre` to table `post`, deciding `r`: the current task is
/// marked exited, and the first ready task after it, going round the
/// applications, becomes the running, current task (its start time set to
/// `now` where it runs for the first time); where no other task is ready,
/// every application has completed. Exited tasks stay exited, and no task
/// but the current one runs, where that held before.
pub open spec fn exit_step(pre: TaskManager, post: TaskManager, now: isize, r: Schedule) -> bool {
    let n = pre.app_count();
    let cur = pre.current();
    let mid = pre.exited_tasks();
    &&& post.wf()
    &&& post.app_count() == n
    &&& (r is AllCompleted <==> !has_ready_in(mid, n))
    &&& (r is AllCompleted <==> forall|j: int|
        0 <= j < n && j != cur ==> !#[trigger] ready_in(pre.tasks(), j))
    &&& r is AllCompleted ==> post.tasks() == mid && post.current() == cur
    &&& r matches Schedule::Switch { from, to } ==> {
        &&& from == cur
        &&& to < n
        &&& to != from
        &&& exists|k: int| first_ready_in(mid, cur, n, k) && to == cyclic(cur, n, k)
        &&& post.current() == to
        &&& post.tasks() == mid.update(to as int, dispatched(mid[to as int], now))
    }
    &&& post.status(cur) == TaskStatus::Exited
    &&& exited_kept(pre.tasks(), post.tasks())
    &&& pre.running_only_current() ==> post.running_only_current()
}

/// Exiting decides one outcome: two exits from the same table at the same
/// time lead to the same decision and the same table, whatever else differs
/// between the calls (such as the exit code).
pub proof fn lemma_exit_step_deterministic(
    pre: TaskManager,
    post1: TaskManager,
    post2: TaskManager,
    now: isize,
    r1: Schedule,
    r2: Schedule,
)
    requires
        exit_step(pre, post1, now, r1),
        exit_step(pre, post2, now, r2),
    ensures
        r1 == r2,
        post1.current() == post2.current(),
        post1.tasks() == post2.tasks(),
{
    let n = pre.app_count();
    let cur = pre.current();
    let mid = pre.exited_tasks();
    if let Schedule::Switch { from: f1, to: t1 } = r1 {
        if let Schedule::Switch { from: f2, to: t2 } = r2 {
            let k1 = choose|k: int| first_ready_in(mid, cur, n, k) && t1 == cyclic(cur, n, k);
            let k2 = choose|k: int| first_ready_in(mid, cur, n, k) && t2 == cyclic(cur, n, k);
            lemma_first_ready_unique(mid, cur, n, k1, k2);
        }
    }
}

/// Yielding decides one outcome: two yields from the same table at the same
/// time lead to the same decision and the same table.
pub proof fn lemma_suspend_step_deterministic(
    pre: TaskManager,
    post1: TaskManager,
    post2: TaskManager,
    now: isize,
    r1: Schedule,
    r2: Schedule,
)
    requires
        suspend_step(pre, post1, now, r1),
        suspend_step(pre, post2, now, r2),
    ensures
        r1 == r2,
        post1.current() == post2.current(),
        post1.tasks() == post2.tasks(),
{
    let n = pre.app_count();
    let cur = pre.current();
    let mid = pre.suspended_tasks();
    if let Schedule::Switch { from: f1, to: t1 } = r1 {
        if let Schedule::Switch { from: f2, to: t2 } = r2 {
            let k1 = choose|k: int| first_ready_in(mid, cur, n, k) && t1 == cyclic(cur, n, k);
            let k2 = choose|k: int| first_ready_in(mid, cur, n, k) && t2 == cyclic(cur, n, k);
            lemma_first_ready_unique(mid, cur, n, k1, k2);
        }
    }
}

/// Runs the first task in the task list. Returns the index of the task to
/// switch to.
pub fn run_first_task(tm: &mut TaskManager, now: isize) -> (first: usize)
    requires
        old(tm).wf(),
    ensures
        first == 0,
        final(tm).wf(),
        final(tm).app_count() == old(tm).app_count(),
        final(tm).current() == old(tm).current(),
        final(tm).tasks() == old(tm).tasks().update(
            0,
            TaskControlBlock {
                task_status: TaskStatus::Running,
                task_time: old(tm).tasks()[0].task_time,
                task_start_time: now,
                task_started: true,
            },
        ),
        old(tm).status(0) != TaskStatus::Exited ==> exited_kept(old(tm).tasks(), final(tm).tasks()),
        old(tm).current() == 0 && old(tm).running_only_current()
            ==> final(tm).running_only_current(),
{
    tm.run_first_task(now)
}

/// Switches from the current task to the next ready one at time `now`, or
/// reports that every application has completed.
fn run_next_task(tm: &mut TaskManager, now: isize) -> (r: Schedule)
    requires
        old(tm).wf(),
    ensures
        final(tm).wf(),
        final(tm).app_count() == old(tm).app_count(),
        r is AllCompleted <==> !old(tm).has_ready(),
        r is AllCompleted ==> final(tm).tasks() == old(tm).tasks() && final(tm).current()
            == old(tm).current(),
        r matches Schedule::Switch { from, to } ==> {
            &&& from == old(tm).current()
            &&& to < old(tm).app_count()
            &&& exists|k: int| old(tm).first_ready_at(k) && to == old(tm).cyclic_id(k)
            &&& final(tm).current() == to
            &&& final(tm).tasks() == old(tm).tasks().update(
                to as int,
                dispatched(old(tm).tasks()[to as int], now),
            )
        },
        exited_kept(old(tm).tasks(), final(tm).tasks()),
        old(tm).status(old(tm).current()) != TaskStatus::Running && old(tm).running_only_current()
            ==> final(tm).running_only_current(),
{
    tm.run_next_task(now)
}

/// Changes the status of the current task into `Ready`.
fn mark_current_suspended(tm: &mut TaskManager)
    requires
        old(tm).wf(),
    ensures
        final(tm).wf(),
        final(tm).app_count() == old(tm).app_count(),
        final(tm).current() == old(tm).current(),
        final(tm).tasks() == old(tm).suspended_tasks(),
{
    tm.mark_current_suspended()
}

/// Changes the status of the current task into `Exited`.
fn mark_current_exited(tm: &mut TaskManager)
    requires
        old(tm).wf(),
    ensures
        final(tm).wf(),
        final(tm).app_count() == old(tm).app_count(),
        final(tm).current() == old(tm).current(),
        final(tm).tasks() == old(tm).exited_tasks(),
{
    tm.mark_current_exited()
}

/// Suspends the current, running task and runs the next one at time `now`;
/// see [`suspend_step`].
pub fn suspend_current_and_run_next(tm: &mut TaskManager, now: isize) -> (r: Schedule)
    requires
        old(tm).wf(),
        old(tm).status(old(tm).current()) == TaskStatus::Running,
    ensures
        suspend_step(*old(tm), *final(tm), now, r),
{
    let ghost cur = old(tm).current();
    let ghost n = old(tm).app_count();
    mark_current_suspended(tm);
    proof {
        if n > 0 {
            assert(ready_in(tm.tasks(), cur));
        }
        if old(tm).running_only_current() {
            lemma_running_only_update(
                old(tm).tasks(),
                cur,
                cur,
                with_status(old(tm).tasks()[cur], TaskStatus::Ready),
                cur,
            );
        }
    }
    let r = run_next_task(tm, now);
    proof {
        if let Schedule::Switch { from, to } = r {
            if to == from {
                assert forall|j: int|
                    0 <= j < n && j != from implies !#[trigger] ready_in(old(tm).tasks(), j) by {
                    let mid = old(tm).suspended_tasks();
                    let k = choose|k: int| first_ready_in(mid, cur, n, k) && to == cyclic(cur, n, k);
                    lemma_cyclic_value(cur, n as int, k);
                    lemma_cyclic_distance(cur, j, n);
                    let kj = cyclic_distance(cur, j, n);
                    assert(!ready_in(mid, cyclic(cur, n, kj)));
                }
            }
        }
    }
    r
}

/// Exits the current task and runs the next one at time `now`; see
/// [`exit_step`].
pub fn exit_current_and_run_next(tm: &mut TaskManager, now: isize) -> (r: Schedule)
    requires
        old(tm).wf(),
    ensures
        exit_step(*old(tm), *final(tm), now, r),
{
    let ghost cur = old(tm).current();
    mark_current_exited(tm);
    proof {
        if old(tm).running_only_current() {
            lemma_running_only_update(
                old(tm).tasks(),
                cur,
                cur,
                with_status(old(tm).tasks()[cur], TaskStatus::Exited),
                cur,
            );
        }
        assert(has_ready_in(tm.tasks(), tm.app_count()) <==> exists|j: int|
            0 <= j < old(tm).app_count() && j != cur && #[trigger] ready_in(old(tm).tasks(), j)) by {
            if has_ready_in(tm.tasks(), tm.app_count()) {
                let j = choose|j: int| 0 <= j < tm.app_count() && #[trigger] ready_in(tm.tasks(), j);
                assert(ready_in(old(tm).tasks(), j));
            }
            if exists|j: int|
                0 <= j < old(tm).app_count() && j != cur && #[trigger] ready_in(old(tm).tasks(), j) {
                let j = choose|j: int|
                    0 <= j < old(tm).app_count() && j != cur && #[trigger] ready_in(old(tm).tasks(), j);
                assert(ready_in(tm.tasks(), j));
            }
        }
    }
    run_next_task(tm, now)
}

/// Status of the current task.
pub fn get_current_task_status(tm: &TaskManager) -> (s: TaskStatus)
    requires
        tm.wf(),
    ensures
        s == tm.status(tm.current()),
{
    tm.get_current_task_status()
}

/// A copy of the control block of the current task.
pub fn get_current_task_control_block(tm: &TaskManager) -> (tcb: TaskControlBlock)
    requires
        tm.wf(),
    ensures
        tcb == tm.tasks()[tm.current()],
{
    tm.get_current_task_control_block()
}

/// Index of the current task.
pub fn get_current_task_nr(tm: &TaskManager) -> (nr: usize)
    requires
        tm.wf(),
    ensures
        nr == tm.current(),
        tm.app_count() > 0 ==> nr < tm.app_count(),
{
    tm.get_current_task_nr()
}

/// Start time of the current task.
pub fn get_current_task_start_time(tm: &TaskManager) -> (t: isize)
    requires
        tm.wf(),
    ensures
        t == tm.tasks()[tm.current()].task_start_time,
{
    tm.get_current_task_start_time()
}

/// Measures, records and returns the running time of the current task at
/// time `now`; see [`time_step`].
pub fn get_current_task_time(tm: &mut TaskManager, now: isize) -> (t: isize)
    requires
        old(tm).wf(),
        isize::MIN <= now - old(tm).tasks()[old(tm).current()].task_start_time <= isize::MAX,
    ensures
        time_step(*old(tm), *final(tm), now as int, t as int),
{
    tm.get_current_task_time(now)
}

} // verus!
