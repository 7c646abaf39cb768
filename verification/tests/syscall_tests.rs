use os3::config::{MAX_APP_NUM, MAX_SYSCALL_NUM};
use os3::syscall::process::{
    add_syscall_times, sys_exit, sys_get_time, sys_task_info, sys_yield, SyscallTimes, TaskInfo,
    TimeVal,
};
use os3::syscall::{SYSCALL_EXIT, SYSCALL_GET_TIME, SYSCALL_TASK_INFO, SYSCALL_WRITE, SYSCALL_YIELD};
use os3::task::{run_first_task, Schedule, TaskManager, TaskStatus};

fn empty_info() -> TaskInfo {
    TaskInfo { status: TaskStatus::UnInit, syscall_times: Vec::new(), time: 0 }
}

#[test]
fn get_time_splits_microseconds() {
    let mut ts = TimeVal { sec: 7, usec: 7 };
    assert_eq!(sys_get_time(&mut ts, 0, 3_500_000), 0);
    assert_eq!(ts, TimeVal { sec: 3, usec: 500_000 });
    assert_eq!(sys_get_time(&mut ts, 0, 999_999), 0);
    assert_eq!(ts, TimeVal { sec: 0, usec: 999_999 });
    assert_eq!(sys_get_time(&mut ts, 0, 1_000_000), 0);
    assert_eq!(ts, TimeVal { sec: 1, usec: 0 });
}

#[test]
fn counts_start_at_zero_and_increase() {
    let mut st = SyscallTimes::new();
    for t in 0..MAX_APP_NUM {
        for i in 0..MAX_SYSCALL_NUM {
            assert_eq!(st.count(t, i), 0);
        }
    }
    add_syscall_times(&mut st, SYSCALL_WRITE, 0);
    add_syscall_times(&mut st, SYSCALL_WRITE, 1);
    add_syscall_times(&mut st, SYSCALL_WRITE, 1);
    add_syscall_times(&mut st, MAX_SYSCALL_NUM - 1, MAX_APP_NUM - 1);
    assert_eq!(st.count(0, SYSCALL_WRITE), 1);
    assert_eq!(st.count(1, SYSCALL_WRITE), 2);
    assert_eq!(st.count(2, SYSCALL_WRITE), 0);
    assert_eq!(st.count(MAX_APP_NUM - 1, MAX_SYSCALL_NUM - 1), 1);
    assert_eq!(st.count(0, SYSCALL_EXIT), 0);
}

#[test]
fn task_info_reports_status_counts_and_time() {
    // A program that calls get_time three times, sleeps by yielding, then
    // asks for its own task information.
    let mut tm = TaskManager::new(1, 1_000);
    let mut st = SyscallTimes::new();
    run_first_task(&mut tm, 1_000);
    for _ in 0..3 {
        add_syscall_times(&mut st, SYSCALL_GET_TIME, 0);
    }
    add_syscall_times(&mut st, SYSCALL_YIELD, 0);
    let (sched, ret) = sys_yield(&mut tm, 1_200);
    assert_eq!(sched, Schedule::Switch { from: 0, to: 0 });
    assert_eq!(ret, 0);
    add_syscall_times(&mut st, SYSCALL_TASK_INFO, 0);
    let mut info = empty_info();
    assert_eq!(sys_task_info(&mut info, &mut tm, &st, 1_500), 0);
    assert!(3 <= info.syscall_times[SYSCALL_GET_TIME]);
    assert_eq!(1, info.syscall_times[SYSCALL_TASK_INFO]);
    assert_eq!(0, info.syscall_times[SYSCALL_WRITE]);
    assert!(0 < info.syscall_times[SYSCALL_YIELD]);
    assert_eq!(0, info.syscall_times[SYSCALL_EXIT]);
    assert_eq!(info.syscall_times.len(), MAX_SYSCALL_NUM);
    assert_eq!(info.time, 500);
    assert!(info.status == TaskStatus::Running);

    add_syscall_times(&mut st, SYSCALL_WRITE, 0);
    add_syscall_times(&mut st, SYSCALL_WRITE, 0);
    add_syscall_times(&mut st, SYSCALL_GET_TIME, 0);
    add_syscall_times(&mut st, SYSCALL_GET_TIME, 0);
    add_syscall_times(&mut st, SYSCALL_TASK_INFO, 0);
    assert_eq!(sys_task_info(&mut info, &mut tm, &st, 1_600), 0);
    assert!(5 <= info.syscall_times[SYSCALL_GET_TIME]);
    assert_eq!(2, info.syscall_times[SYSCALL_TASK_INFO]);
    assert_eq!(2, info.syscall_times[SYSCALL_WRITE]);
    assert_eq!(0, info.syscall_times[SYSCALL_EXIT]);
    assert_eq!(info.time, 600);
    assert!(info.status == TaskStatus::Running);
}

#[test]
fn task_info_reports_only_the_callers_counts() {
    let mut tm = TaskManager::new(2, 0);
    let mut st = SyscallTimes::new();
    run_first_task(&mut tm, 0);
    add_syscall_times(&mut st, SYSCALL_YIELD, 0);
    assert_eq!(sys_yield(&mut tm, 10).0, Schedule::Switch { from: 0, to: 1 });
    add_syscall_times(&mut st, SYSCALL_WRITE, 1);
    add_syscall_times(&mut st, SYSCALL_YIELD, 1);
    assert_eq!(sys_yield(&mut tm, 20).0, Schedule::Switch { from: 1, to: 0 });
    add_syscall_times(&mut st, SYSCALL_TASK_INFO, 0);
    let mut info = empty_info();
    assert_eq!(sys_task_info(&mut info, &mut tm, &st, 50), 0);
    assert_eq!(info.syscall_times[SYSCALL_WRITE], 0);
    assert_eq!(info.syscall_times[SYSCALL_YIELD], 1);
    assert_eq!(info.syscall_times[SYSCALL_TASK_INFO], 1);
    assert_eq!(info.time, 50);
    // Task 1 first ran at 10.
    assert_eq!(sys_yield(&mut tm, 60).0, Schedule::Switch { from: 0, to: 1 });
    add_syscall_times(&mut st, SYSCALL_TASK_INFO, 1);
    assert_eq!(sys_task_info(&mut info, &mut tm, &st, 70), 0);
    assert_eq!(info.syscall_times[SYSCALL_WRITE], 1);
    assert_eq!(info.syscall_times[SYSCALL_YIELD], 1);
    assert_eq!(info.syscall_times[SYSCALL_TASK_INFO], 1);
    assert_eq!(info.time, 60);
}

#[test]
fn exit_switches_to_next_app() {
    let mut tm = TaskManager::new(2, 0);
    run_first_task(&mut tm, 0);
    assert_eq!(sys_exit(0, &mut tm, 10), Schedule::Switch { from: 0, to: 1 });
    assert_eq!(sys_exit(-1, &mut tm, 20), Schedule::AllCompleted);
}

#[test]
fn yield_between_two_apps() {
    let mut tm = TaskManager::new(2, 0);
    run_first_task(&mut tm, 0);
    assert_eq!(sys_yield(&mut tm, 1), (Schedule::Switch { from: 0, to: 1 }, 0));
    assert_eq!(sys_yield(&mut tm, 2), (Schedule::Switch { from: 1, to: 0 }, 0));
}
