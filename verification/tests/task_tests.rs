use os3::config::MAX_APP_NUM;
use os3::task::{
    exit_current_and_run_next, get_current_task_control_block, get_current_task_nr,
    get_current_task_start_time, get_current_task_status, get_current_task_time, run_first_task,
    suspend_current_and_run_next, Schedule, TaskManager, TaskStatus,
};

#[test]
fn new_table_starts_at_task_zero() {
    let tm = TaskManager::new(3, 100);
    assert_eq!(get_current_task_nr(&tm), 0);
    assert!(get_current_task_status(&tm) == TaskStatus::Ready);
    let tcb = get_current_task_control_block(&tm);
    assert_eq!(tcb.task_time, 0);
    assert_eq!(tcb.task_start_time, 100);
    assert!(!tcb.task_started);
}

#[test]
fn run_first_task_starts_task_zero() {
    let mut tm = TaskManager::new(3, 100);
    assert_eq!(run_first_task(&mut tm, 105), 0);
    assert!(get_current_task_status(&tm) == TaskStatus::Running);
    assert_eq!(get_current_task_start_time(&tm), 105);
}

#[test]
fn yield_goes_round_robin() {
    let mut tm = TaskManager::new(3, 0);
    run_first_task(&mut tm, 0);
    assert_eq!(suspend_current_and_run_next(&mut tm, 1), Schedule::Switch { from: 0, to: 1 });
    assert!(get_current_task_status(&tm) == TaskStatus::Running);
    assert_eq!(suspend_current_and_run_next(&mut tm, 2), Schedule::Switch { from: 1, to: 2 });
    assert_eq!(suspend_current_and_run_next(&mut tm, 3), Schedule::Switch { from: 2, to: 0 });
    assert_eq!(get_current_task_nr(&tm), 0);
}

#[test]
fn yield_with_one_task_runs_it_again() {
    let mut tm = TaskManager::new(1, 0);
    run_first_task(&mut tm, 0);
    assert_eq!(suspend_current_and_run_next(&mut tm, 5), Schedule::Switch { from: 0, to: 0 });
    assert!(get_current_task_status(&tm) == TaskStatus::Running);
}

#[test]
fn exited_tasks_are_skipped() {
    let mut tm = TaskManager::new(3, 0);
    run_first_task(&mut tm, 0);
    assert_eq!(exit_current_and_run_next(&mut tm, 1), Schedule::Switch { from: 0, to: 1 });
    assert_eq!(suspend_current_and_run_next(&mut tm, 2), Schedule::Switch { from: 1, to: 2 });
    assert_eq!(suspend_current_and_run_next(&mut tm, 3), Schedule::Switch { from: 2, to: 1 });
    assert_eq!(exit_current_and_run_next(&mut tm, 4), Schedule::Switch { from: 1, to: 2 });
    assert_eq!(suspend_current_and_run_next(&mut tm, 5), Schedule::Switch { from: 2, to: 2 });
}

#[test]
fn last_exit_completes_all() {
    let mut tm = TaskManager::new(2, 0);
    run_first_task(&mut tm, 0);
    assert_eq!(exit_current_and_run_next(&mut tm, 1), Schedule::Switch { from: 0, to: 1 });
    assert_eq!(exit_current_and_run_next(&mut tm, 2), Schedule::AllCompleted);
    assert_eq!(get_current_task_nr(&tm), 1);
    assert!(get_current_task_status(&tm) == TaskStatus::Exited);
}

#[test]
fn task_time_is_now_minus_start() {
    let mut tm = TaskManager::new(2, 100);
    run_first_task(&mut tm, 120);
    assert_eq!(get_current_task_time(&mut tm, 170), 50);
    assert_eq!(get_current_task_control_block(&tm).task_time, 50);
    assert_eq!(get_current_task_start_time(&tm), 120);
}

#[test]
fn later_task_starts_at_its_first_run() {
    let mut tm = TaskManager::new(2, 100);
    run_first_task(&mut tm, 120);
    suspend_current_and_run_next(&mut tm, 130);
    assert_eq!(get_current_task_nr(&tm), 1);
    assert_eq!(get_current_task_start_time(&tm), 130);
    assert_eq!(get_current_task_time(&mut tm, 160), 30);
    // Running again later keeps the first start time.
    suspend_current_and_run_next(&mut tm, 170);
    assert_eq!(get_current_task_nr(&tm), 0);
    assert_eq!(get_current_task_start_time(&tm), 120);
    suspend_current_and_run_next(&mut tm, 180);
    assert_eq!(get_current_task_start_time(&tm), 130);
    assert!(get_current_task_control_block(&tm).task_started);
}

#[test]
fn no_application() {
    let mut tm = TaskManager::new(0, 0);
    assert_eq!(tm.find_next_task(), None);
    assert_eq!(tm.run_next_task(1), Schedule::AllCompleted);
    run_first_task(&mut tm, 2);
    assert_eq!(suspend_current_and_run_next(&mut tm, 3), Schedule::AllCompleted);
    assert!(get_current_task_status(&tm) == TaskStatus::Ready);
    assert_eq!(exit_current_and_run_next(&mut tm, 4), Schedule::AllCompleted);
}

#[test]
fn repeated_time_reads_differ_by_elapsed_time() {
    let mut tm = TaskManager::new(1, 10);
    run_first_task(&mut tm, 10);
    let t1 = get_current_task_time(&mut tm, 25);
    let t2 = get_current_task_time(&mut tm, 40);
    assert_eq!(t2 - t1, 15);
    assert_eq!(get_current_task_start_time(&tm), 10);
}

#[test]
fn methods_find_next_task() {
    let mut tm = TaskManager::new(3, 0);
    tm.run_first_task(0);
    assert_eq!(tm.find_next_task(), Some(1));
    tm.mark_current_suspended();
    assert_eq!(tm.find_next_task(), Some(1));
    assert_eq!(tm.run_next_task(1), Schedule::Switch { from: 0, to: 1 });
    tm.mark_current_exited();
    assert_eq!(tm.find_next_task(), Some(2));
    assert_eq!(tm.get_current_task_nr(), 1);
    assert!(tm.get_current_task_status() == TaskStatus::Exited);
}

#[test]
fn no_ready_task_found() {
    let mut tm = TaskManager::new(1, 0);
    tm.run_first_task(0);
    assert_eq!(tm.find_next_task(), None);
    assert_eq!(tm.run_next_task(3), Schedule::AllCompleted);
    assert!(tm.get_current_task_status() == TaskStatus::Running);
}

#[test]
fn full_table() {
    let mut tm = TaskManager::new(MAX_APP_NUM, 0);
    run_first_task(&mut tm, 0);
    for i in 1..MAX_APP_NUM {
        assert_eq!(suspend_current_and_run_next(&mut tm, 0), Schedule::Switch { from: i - 1, to: i });
    }
    assert_eq!(
        suspend_current_and_run_next(&mut tm, 0),
        Schedule::Switch { from: MAX_APP_NUM - 1, to: 0 }
    );
}

#[test]
fn status_names() {
    assert_eq!(TaskStatus::UnInit.name(), "UnInit");
    assert_eq!(TaskStatus::Ready.name(), "Ready");
    assert_eq!(TaskStatus::Running.name(), "Running");
    assert_eq!(TaskStatus::Exited.name(), "Exited");
}
