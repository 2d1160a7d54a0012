use jingos::task::{
    self, parse_task_kind, task_kind_name, task_state_name, TaskInfo, TaskKind, TaskRun, TaskState, TaskTable, MAX_TASKS,
};

fn listed(table: &TaskTable) -> Vec<TaskInfo> {
    let mut output = [None; MAX_TASKS];
    let count = table.list(&mut output);
    output[..count].iter().map(|t| t.unwrap()).collect()
}

#[test]
fn bootstrap_task_is_monitor_with_id_one() {
    let mut table = TaskTable::new();
    task::init(&mut table);
    task::init(&mut table);
    let tasks = listed(&table);
    assert_eq!(tasks.len(), 1);
    assert_eq!(tasks[0].id, 1);
    assert_eq!(tasks[0].kind, TaskKind::KernelMonitor);
    assert_eq!(tasks[0].state, TaskState::Ready);
    let snap = task::snapshot(&table);
    assert_eq!(snap.total, 1);
    assert_eq!(snap.next_id, 2);
    assert_eq!(snap.capacity, MAX_TASKS);
    assert_eq!(snap.finished, 0);
}

#[test]
fn spawn_hands_out_fresh_ids_until_full() {
    let mut table = TaskTable::new();
    task::init(&mut table);
    for expected in 2..=8u64 {
        assert_eq!(task::spawn(&mut table, TaskKind::UserDemo), Ok(expected));
    }
    assert_eq!(task::spawn(&mut table, TaskKind::UserDemo), Err("task table full"));
    assert_eq!(task::snapshot(&table).total, MAX_TASKS);
}

#[test]
fn step_is_round_robin() {
    let mut table = TaskTable::new();
    task::init(&mut table);
    assert_eq!(table.spawn(TaskKind::FastSyscallSuccess), Ok(2));
    let first = task::step(&mut table, 0).unwrap();
    assert_eq!((first.id, first.kind, first.run_count), (1, TaskKind::KernelMonitor, 1));
    let second = task::step(&mut table, 0).unwrap();
    assert_eq!((second.id, second.kind, second.run_count), (2, TaskKind::FastSyscallSuccess, 1));
    let third = task::step(&mut table, 0).unwrap();
    assert_eq!((third.id, third.run_count), (1, 2));
    let snap = task::snapshot(&table);
    assert_eq!((snap.ready, snap.running, snap.sleeping), (2, 0, 0));
}

#[test]
fn empty_table_has_nothing_to_step() {
    let mut table = TaskTable::new();
    assert!(task::step(&mut table, 5).is_none());
    assert_eq!(task::snapshot(&table).next_id, 1);
}

#[test]
fn sleeping_task_is_skipped_until_due() {
    let mut table = TaskTable::new();
    task::init(&mut table);
    table.spawn(TaskKind::UserDemo).unwrap();
    assert_eq!(task::sleep(&mut table, 1, 10, 100), Ok(110));
    let snap = task::snapshot(&table);
    assert_eq!((snap.ready, snap.sleeping), (1, 1));
    let tasks = listed(&table);
    assert_eq!(tasks[0].state, TaskState::Sleeping);
    assert_eq!(tasks[0].sleep_until_tick, Some(110));
    assert_eq!(task::step(&mut table, 105).unwrap().id, 2);
    assert_eq!(task::step(&mut table, 109).unwrap().id, 2);
    assert_eq!(task::step(&mut table, 110).unwrap().id, 1);
    let tasks = listed(&table);
    assert_eq!(tasks[0].sleep_until_tick, None);
    assert_eq!(tasks[0].state, TaskState::Ready);
}

#[test]
fn sleep_reports_errors() {
    let mut table = TaskTable::new();
    task::init(&mut table);
    assert_eq!(task::sleep(&mut table, 1, 0, 0), Err("sleep ticks must be > 0"));
    assert_eq!(task::sleep(&mut table, 9, 5, 0), Err("task not found"));
    assert_eq!(task::sleep(&mut table, 1, u64::MAX, 10), Ok(u64::MAX));
}

#[test]
fn names_of_kinds_and_states() {
    assert_eq!(task_kind_name(TaskKind::KernelMonitor), "kernel_monitor");
    assert_eq!(task_kind_name(TaskKind::UserDemo), "user_demo");
    assert_eq!(task_kind_name(TaskKind::FastSyscallSuccess), "fast_syscall_success");
    assert_eq!(task_kind_name(TaskKind::FastSyscallError), "fast_syscall_error");
    assert_eq!(task_state_name(TaskState::Ready), "ready");
    assert_eq!(task_state_name(TaskState::Running), "running");
    assert_eq!(task_state_name(TaskState::Sleeping), "sleeping");
}

#[test]
fn task_kinds_parse_from_aliases() {
    for name in ["monitor", "kernel", "kernel_monitor"] {
        assert_eq!(parse_task_kind(name), Some(TaskKind::KernelMonitor));
    }
    for name in ["userdemo", "user", "user_demo"] {
        assert_eq!(parse_task_kind(name), Some(TaskKind::UserDemo));
    }
    for name in ["fastsyscall", "fast", "fast_ok", "fastsyscall_ok", "fast_syscall_success"] {
        assert_eq!(parse_task_kind(name), Some(TaskKind::FastSyscallSuccess));
    }
    for name in ["fastfail", "fastsyscall_fail", "fast_syscall_error", "fast_error"] {
        assert_eq!(parse_task_kind(name), Some(TaskKind::FastSyscallError));
    }
    assert_eq!(parse_task_kind("Monitor"), None);
    assert_eq!(parse_task_kind(""), None);
}

fn run_steps(table: &mut TaskTable, requested: u64, now: u64) -> TaskRun {
    let mut run = TaskRun::new(requested);
    while run.wants_step() {
        let ran = task::step(table, now).is_some();
        run.record(ran);
    }
    run
}

#[test]
fn taskrun_runs_every_requested_step_while_a_task_is_ready() {
    let mut table = TaskTable::new();
    task::init(&mut table);
    let run = run_steps(&mut table, 4, 0);
    assert_eq!((run.requested(), run.executed()), (4, 4));
    assert_eq!(listed(&table)[0].run_count, 4);
}

#[test]
fn taskrun_stops_at_the_first_idle_step() {
    let mut table = TaskTable::new();
    let run = run_steps(&mut table, 4, 0);
    assert_eq!((run.requested(), run.executed()), (4, 0));
    assert!(!run.wants_step());

    task::init(&mut table);
    assert_eq!(task::sleep(&mut table, 1, 10, 0), Ok(10));
    let run = run_steps(&mut table, 3, 5);
    assert_eq!(run.executed(), 0);
    let run = run_steps(&mut table, 3, 10);
    assert_eq!(run.executed(), 3);
}

#[test]
fn table_invariant_holds_after_every_operation() {
    let mut table = TaskTable::new();
    task::init(&mut table);
    table.spawn(TaskKind::UserDemo).unwrap();
    task::sleep(&mut table, 2, 5, 0).unwrap();
    task::step(&mut table, 1);
    let snap = task::snapshot(&table);
    assert_eq!(snap.running, 0);
    assert_eq!(snap.total, snap.ready + snap.sleeping);
    assert!(snap.total <= snap.capacity);
    assert!(snap.next_id <= snap.total as u64 + 2);
    for t in listed(&table) {
        assert!(t.id < snap.next_id);
        assert_eq!(t.state == TaskState::Sleeping, t.sleep_until_tick.is_some());
        assert_ne!(t.state, TaskState::Running);
    }
}

#[test]
fn ids_stay_below_next_id_in_a_full_table() {
    let mut table = TaskTable::new();
    for _ in 0..MAX_TASKS + 2 {
        let _ = task::spawn(&mut table, TaskKind::UserDemo);
    }
    task::init(&mut table);
    let snap = task::snapshot(&table);
    assert_eq!(snap.total, MAX_TASKS);
    assert_eq!(snap.next_id, 9);
    for t in listed(&table) {
        assert!(t.id < snap.next_id);
    }
}
