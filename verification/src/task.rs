//! A fixed-size task table with round-robin stepping and tick-based sleeping.

use vstd::prelude::*;
use crate::text::str_eq;

verus! {

/// How many tasks the table holds.
pub const MAX_TASKS: usize = 8;

#[derive(Debug, Clone, Copy, PartialEq, Eq, Structural)]
pub enum TaskState {
    Ready,
    Running,
    Sleeping,
}

#[derive(Debug, Clone, Copy, PartialEq, Eq, Structural)]
pub enum TaskKind {
    KernelMonitor,
    UserDemo,
    FastSyscallSuccess,
    FastSyscallError,
}

#[derive(Debug, Clone, Copy, PartialEq, Eq, Structural)]
pub struct TaskInfo {
    pub id: u64,
    pub kind: TaskKind,
    pub state: TaskState,
    pub run_count: u64,
    pub sleep_until_tick: Option<u64>,
}

#[derive(Debug, Clone, Copy, PartialEq, Eq, Structural)]
pub struct SchedulerSnapshot {
    pub total: usize,
    pub ready: usize,
    pub running: usize,
    pub sleeping: usize,
    pub finished: usize,
    pub capacity: usize,
    pub next_id: u64,
}

#[derive(Debug, Clone, Copy, PartialEq, Eq, Structural)]
pub struct TaskStepReport {
    pub id: u64,
    pub kind: TaskKind,
    pub run_count: u64,
}

/// What the table holds: its slots, the next id to hand out and where the
/// round-robin search starts.
pub ghost struct TableView {
    pub slots: Seq<Option<TaskInfo>>,
    pub next_id: u64,
    pub next_rr_index: nat,
}

/// The tasks of the occupied slots, in slot order.
pub open spec fn occupied(s: Seq<Option<TaskInfo>>) -> Seq<TaskInfo>
    decreases s.len(),
{
    if s.len() == 0 {
        Seq::empty()
    } else {
        let rest = occupied(s.drop_last());
        match s.last() {
            Some(t) => rest.push(t),
            None => rest,
        }
    }
}

/// How many occupied slots hold a task in state `st`.
pub open spec fn count_state(s: Seq<Option<TaskInfo>>, st: TaskState) -> nat
    decreases s.len(),
{
    if s.len() == 0 {
        0
    } else {
        count_state(s.drop_last(), st) + match s.last() {
            Some(t) => if t.state == st { 1nat } else { 0nat },
            None => 0nat,
        }
    }
}

/// A sleeping task whose wake-up tick has come.
pub open spec fn is_due(slot: Option<TaskInfo>, now: u64) -> bool {
    slot matches Some(t) && t.state == TaskState::Sleeping && t.sleep_until_tick is Some
        && now >= t.sleep_until_tick.unwrap()
}

/// A slot after waking: a due task becomes ready with no wake-up tick.
pub open spec fn woken(slot: Option<TaskInfo>, now: u64) -> Option<TaskInfo> {
    if is_due(slot, now) {
        Some(TaskInfo { state: TaskState::Ready, sleep_until_tick: None, ..slot.unwrap() })
    } else {
        slot
    }
}

/// All slots after waking the due tasks.
pub open spec fn wake_all(s: Seq<Option<TaskInfo>>, now: u64) -> Seq<Option<TaskInfo>> {
    Seq::new(s.len(), |i: int| woken(s[i], now))
}

/// How many of the slots hold a due task.
pub open spec fn count_due(s: Seq<Option<TaskInfo>>, now: u64) -> nat
    decreases s.len(),
{
    if s.len() == 0 {
        0
    } else {
        count_due(s.drop_last(), now) + if is_due(s.last(), now) { 1nat } else { 0nat }
    }
}

pub open spec fn is_ready(slot: Option<TaskInfo>) -> bool {
    slot matches Some(t) && t.state == TaskState::Ready
}

/// The first slot, going round from `start + offset`, that holds a ready task.
pub open spec fn pick_ready(s: Seq<Option<TaskInfo>>, start: int, offset: int) -> Option<int>
    decreases MAX_TASKS - offset,
{
    if offset >= MAX_TASKS {
        None
    } else if is_ready(s[(start + offset) % (MAX_TASKS as int)]) {
        Some((start + offset) % (MAX_TASKS as int))
    } else {
        pick_ready(s, start, offset + 1)
    }
}

/// The first slot that holds the task with the given id.
pub open spec fn find_id(s: Seq<Option<TaskInfo>>, id: u64, from: int) -> Option<int>
    decreases s.len() - from,
{
    if from >= s.len() || from < 0 {
        None
    } else if s[from] matches Some(t) && t.id == id {
        Some(from)
    } else {
        find_id(s, id, from + 1)
    }
}

/// The first empty slot.
pub open spec fn find_free(s: Seq<Option<TaskInfo>>, from: int) -> Option<int>
    decreases s.len() - from,
{
    if from >= s.len() || from < 0 {
        None
    } else if s[from] is None {
        Some(from)
    } else {
        find_free(s, from + 1)
    }
}

/// A freshly created task.
pub open spec fn new_task(id: u64, kind: TaskKind) -> TaskInfo {
    TaskInfo { id, kind, state: TaskState::Ready, run_count: 0, sleep_until_tick: None }
}

pub open spec fn saturating_inc(x: u64) -> u64 {
    if x == u64::MAX { x } else { (x + 1) as u64 }
}

pub open spec fn saturating_sum(a: u64, b: u64) -> u64 {
    if a + b > u64::MAX { u64::MAX } else { (a + b) as u64 }
}

/// The task table.
pub struct TaskTable {
    slots: [Option<TaskInfo>; MAX_TASKS],
    next_id: u64,
    next_rr_index: usize,
}

impl View for TaskTable {
    type V = TableView;

    closed spec fn view(&self) -> TableView {
        TableView {
            slots: self.slots@,
            next_id: self.next_id,
            next_rr_index: self.next_rr_index as nat,
        }
    }
}

/// What holds of a table between operations: no task is left running, a task
/// sleeps exactly when it has a wake-up tick, every id is below the next one, and
/// the next id exceeds the number of tasks by at most two (so it never runs out).
pub open spec fn table_wf(v: TableView) -> bool {
    &&& v.slots.len() == MAX_TASKS
    &&& v.next_rr_index < MAX_TASKS
    &&& v.next_id <= occupied(v.slots).len() + 2
    &&& forall|i: int| 0 <= i < MAX_TASKS ==> (#[trigger] v.slots[i] matches Some(t) ==> {
        &&& t.state != TaskState::Running
        &&& (t.state == TaskState::Sleeping <==> t.sleep_until_tick is Some)
        &&& t.id < v.next_id
    })
}

/// Replacing one slot changes the number of tasks by what left and what came.
proof fn lemma_occupied_update(s: Seq<Option<TaskInfo>>, i: int, x: Option<TaskInfo>)
    requires
        0 <= i < s.len(),
    ensures
        occupied(s.update(i, x)).len() + (if s[i] is Some { 1int } else { 0int })
            == occupied(s).len() + (if x is Some { 1int } else { 0int }),
    decreases s.len(),
{
    let u = s.update(i, x);
    if i == s.len() - 1 {
        assert(u.drop_last() =~= s.drop_last());
    } else {
        assert(u.drop_last() =~= s.drop_last().update(i, x));
        lemma_occupied_update(s.drop_last(), i, x);
    }
}

/// Waking tasks keeps the number of tasks.
proof fn lemma_occupied_wake(s: Seq<Option<TaskInfo>>, now: u64)
    ensures
        occupied(wake_all(s, now)).len() == occupied(s).len(),
    decreases s.len(),
{
    if s.len() > 0 {
        assert(wake_all(s, now).drop_last() =~= wake_all(s.drop_last(), now));
        lemma_occupied_wake(s.drop_last(), now);
    }
}

proof fn lemma_occupied_len(s: Seq<Option<TaskInfo>>)
    ensures
        occupied(s).len() <= s.len(),
        occupied(s).len() == count_state(s, TaskState::Ready) + count_state(s, TaskState::Running)
            + count_state(s, TaskState::Sleeping),
    decreases s.len(),
{
    if s.len() > 0 {
        lemma_occupied_len(s.drop_last());
    }
}

proof fn lemma_no_running(s: Seq<Option<TaskInfo>>)
    requires
        forall|i: int| 0 <= i < s.len() ==> (#[trigger] s[i] matches Some(t) ==> t.state != TaskState::Running),
    ensures
        count_state(s, TaskState::Running) == 0,
    decreases s.len(),
{
    if s.len() > 0 {
        let d = s.drop_last();
        assert forall|i: int| 0 <= i < d.len() implies (#[trigger] d[i] matches Some(t) ==> t.state != TaskState::Running) by {
            assert(d[i] == s[i]);
        }
        lemma_no_running(d);
    }
}

proof fn lemma_pick_ready_found(s: Seq<Option<TaskInfo>>, start: int, offset: int)
    requires
        0 <= offset,
        0 <= start,
    ensures
        pick_ready(s, start, offset) is Some ==> {
            let i = pick_ready(s, start, offset).unwrap();
            0 <= i < MAX_TASKS && is_ready(s[i])
        },
    decreases MAX_TASKS - offset,
{
    if offset < MAX_TASKS && !is_ready(s[(start + offset) % (MAX_TASKS as int)]) {
        lemma_pick_ready_found(s, start, offset + 1);
    }
}

proof fn lemma_find_id_found(s: Seq<Option<TaskInfo>>, id: u64, from: int)
    ensures
        find_id(s, id, from) is Some ==> {
            let i = find_id(s, id, from).unwrap();
            0 <= from <= i < s.len() && s[i] is Some && s[i].unwrap().id == id
        },
    decreases s.len() - from,
{
    if 0 <= from < s.len() && !(s[from] matches Some(t) && t.id == id) {
        lemma_find_id_found(s, id, from + 1);
    }
}

proof fn lemma_find_free_found(s: Seq<Option<TaskInfo>>, from: int)
    ensures
        find_free(s, from) is Some ==> {
            let i = find_free(s, from).unwrap();
            0 <= from <= i < s.len() && s[i] is None
        },
    decreases s.len() - from,
{
    if 0 <= from < s.len() && s[from] is Some {
        lemma_find_free_found(s, from + 1);
    }
}

impl TaskTable {
    #[verifier::type_invariant]
    spec fn inv(self) -> bool {
        table_wf(self@)
    }

    /// An empty table; ids start at 1.
    pub fn new() -> (r: Self)
        ensures
            table_wf(r@),
            r@.slots == Seq::new(MAX_TASKS as nat, |i: int| None::<TaskInfo>),
            r@.next_id == 1,
            r@.next_rr_index == 0,
    {
        let r = Self { slots: [None; MAX_TASKS], next_id: 1, next_rr_index: 0 };
        assert(r@.slots =~= Seq::new(MAX_TASKS as nat, |i: int| None::<TaskInfo>));
        r
    }

    /// Puts the kernel monitor task (id 1) in slot 0 unless a task with id 1 exists.
    pub fn ensure_bootstrap_task(&mut self)
        ensures
            table_wf(final(self)@),
            find_id(old(self)@.slots, 1, 0) is Some ==> final(self)@ == old(self)@,
            find_id(old(self)@.slots, 1, 0) is None ==> {
                &&& final(self)@.slots == old(self)@.slots.update(0, Some(new_task(1, TaskKind::KernelMonitor)))
                &&& final(self)@.next_id == if old(self)@.next_id < 2 { 2 } else { old(self)@.next_id }
                &&& final(self)@.next_rr_index == old(self)@.next_rr_index
            },
    {
        proof { use_type_invariant(&*self); }
        let mut i: usize = 0;
        while i < MAX_TASKS
            invariant
                i <= MAX_TASKS,
                self.slots@.len() == MAX_TASKS,
                table_wf(self@),
                find_id(self.slots@, 1, 0) == find_id(self.slots@, 1, i as int),
            decreases MAX_TASKS - i,
        {
            if let Some(task) = self.slots[i] {
                if task.id == 1 {
                    return;
                }
            }
            i += 1;
        }
        let next_id = if self.next_id < 2 { 2 } else { self.next_id };
        let mut slots = self.slots;
        slots[0] = Some(TaskInfo {
            id: 1,
            kind: TaskKind::KernelMonitor,
            state: TaskState::Ready,
            run_count: 0,
            sleep_until_tick: None,
        });
        proof { lemma_occupied_update(self.slots@, 0, slots@[0]); }
        *self = Self { slots, next_id, next_rr_index: self.next_rr_index };
        proof { use_type_invariant(&*self); }
    }

    /// Puts a new ready task in the first empty slot and gives it the next id.
    pub fn spawn(&mut self, kind: TaskKind) -> (r: Result<u64, &'static str>)
        ensures
            table_wf(final(self)@),
            find_free(old(self)@.slots, 0) is None ==> r == Err::<u64, &'static str>("task table full")
                && final(self)@ == old(self)@,
            find_free(old(self)@.slots, 0) is Some ==> {
                let i = find_free(old(self)@.slots, 0).unwrap();
                &&& r == Ok::<u64, &'static str>(old(self)@.next_id)
                &&& final(self)@.slots == old(self)@.slots.update(i, Some(new_task(old(self)@.next_id, kind)))
                &&& final(self)@.next_id == saturating_inc(old(self)@.next_id)
                &&& final(self)@.next_rr_index == old(self)@.next_rr_index
            },
            r is Ok ==> final(self)@.next_id == old(self)@.next_id + 1,
            r is Ok ==> forall|j: int|
                0 <= j < MAX_TASKS && #[trigger] old(self)@.slots[j] is Some
                    ==> old(self)@.slots[j].unwrap().id != r.unwrap(),
    {
        proof { use_type_invariant(&*self); }
        let i = match self.first_free_slot() {
            Some(i) => i,
            None => return Err("task table full"),
        };
        proof {
            lemma_find_free_found(self.slots@, 0);
            lemma_occupied_update(self.slots@, i as int, Some(new_task(self.next_id, kind)));
            lemma_occupied_len(self.slots@.update(i as int, Some(new_task(self.next_id, kind))));
        }
        let id = self.next_id;
        let next_id = self.next_id.saturating_add(1);
        let mut slots = self.slots;
        slots[i] = Some(TaskInfo {
            id,
            kind,
            state: TaskState::Ready,
            run_count: 0,
            sleep_until_tick: None,
        });
        *self = Self { slots, next_id, next_rr_index: self.next_rr_index };
        proof { use_type_invariant(&*self); }
        Ok(id)
    }

    /// Makes every sleeping task whose tick has come ready again; returns how many woke.
    fn wake_due(&mut self, now_ticks: u64) -> (r: usize)
        ensures
            final(self)@.slots == wake_all(old(self)@.slots, now_ticks),
            final(self)@.next_id == old(self)@.next_id,
            final(self)@.next_rr_index == old(self)@.next_rr_index,
            r == count_due(old(self)@.slots, now_ticks),
    {
        proof { use_type_invariant(&*self); }
        let ghost old_slots = self.slots@;
        let mut slots = self.slots;
        let mut woke: usize = 0;
        let mut i: usize = 0;
        while i < MAX_TASKS
            invariant
                i <= MAX_TASKS,
                slots@.len() == MAX_TASKS,
                old_slots.len() == MAX_TASKS,
                forall|j: int| 0 <= j < i ==> slots@[j] == woken(old_slots[j], now_ticks),
                forall|j: int| i <= j < MAX_TASKS ==> slots@[j] == old_slots[j],
                woke == count_due(old_slots.take(i as int), now_ticks),
                woke <= i,
            decreases MAX_TASKS - i,
        {
            assert(old_slots.take(i as int + 1).drop_last() =~= old_slots.take(i as int));
            if let Some(task) = slots[i] {
                if task.state == TaskState::Sleeping {
                    match task.sleep_until_tick {
                        Some(until_tick) => {
                            if now_ticks >= until_tick {
                                slots[i] = Some(TaskInfo {
                                    state: TaskState::Ready,
                                    sleep_until_tick: None,
                                    ..task
                                });
                                woke = woke + 1;
                            }
                        },
                        None => {},
                    }
                }
            }
            i += 1;
        }
        assert(old_slots.take(MAX_TASKS as int) =~= old_slots);
        assert(slots@ =~= wake_all(old_slots, now_ticks));
        proof { lemma_occupied_wake(old_slots, now_ticks); }
        *self = Self { slots, next_id: self.next_id, next_rr_index: self.next_rr_index };
        proof { use_type_invariant(&*self); }
        woke
    }

    /// Wakes due tasks, then runs the next ready task in round-robin order: its run
    /// count goes up and it is ready again afterwards.
    pub fn step(&mut self, now_ticks: u64) -> (r: Option<TaskStepReport>)
        ensures
            table_wf(final(self)@),
            ({
                let woke = wake_all(old(self)@.slots, now_ticks);
                match pick_ready(woke, old(self)@.next_rr_index as int, 0) {
                    None => r is None && final(self)@.slots == woke
                        && final(self)@.next_id == old(self)@.next_id
                        && final(self)@.next_rr_index == old(self)@.next_rr_index,
                    Some(i) => {
                        let t = woke[i].unwrap();
                        let ran = TaskInfo {
                            run_count: saturating_inc(t.run_count),
                            state: TaskState::Ready,
                            sleep_until_tick: None,
                            ..t
                        };
                        &&& r == Some(TaskStepReport { id: t.id, kind: t.kind, run_count: ran.run_count })
                        &&& final(self)@.slots == woke.update(i, Some(ran))
                        &&& final(self)@.next_id == old(self)@.next_id
                        &&& final(self)@.next_rr_index == (i + 1) % (MAX_TASKS as int)
                    },
                }
            }),
    {
        self.wake_due(now_ticks);
        proof { use_type_invariant(&*self); }
        let start = self.next_rr_index;
        let index = match self.pick_ready_slot(start) {
            Some(index) => index,
            None => return None,
        };
        proof { lemma_pick_ready_found(self.slots@, start as int, 0); }
        let task = match self.slots[index] {
            Some(task) => task,
            None => return None,
        };
        let run_count = task.run_count.saturating_add(1);
        let report = TaskStepReport { id: task.id, kind: task.kind, run_count };
        let mut slots = self.slots;
        slots[index] = Some(TaskInfo {
            run_count,
            state: TaskState::Ready,
            sleep_until_tick: None,
            ..task
        });
        proof { lemma_occupied_update(self.slots@, index as int, slots@[index as int]); }
        *self = Self { slots, next_id: self.next_id, next_rr_index: (index + 1) % MAX_TASKS };
        proof { use_type_invariant(&*self); }
        Some(report)
    }

    /// Wakes due tasks, then puts the task with the given id to sleep for
    /// `sleep_ticks` ticks; returns the tick at which it wakes.
    pub fn sleep(&mut self, id: u64, sleep_ticks: u64, now_ticks: u64) -> (r: Result<u64, &'static str>)
        ensures
            table_wf(final(self)@),
            sleep_ticks == 0 ==> r == Err::<u64, &'static str>("sleep ticks must be > 0")
                && final(self)@ == old(self)@,
            sleep_ticks != 0 ==> ({
                let woke = wake_all(old(self)@.slots, now_ticks);
                &&& final(self)@.next_id == old(self)@.next_id
                &&& final(self)@.next_rr_index == old(self)@.next_rr_index
                &&& match find_id(woke, id, 0) {
                    None => r == Err::<u64, &'static str>("task not found") && final(self)@.slots == woke,
                    Some(i) => if woke[i].unwrap().state == TaskState::Running {
                        r == Err::<u64, &'static str>("task is running") && final(self)@.slots == woke
                    } else {
                        let until = saturating_sum(now_ticks, sleep_ticks);
                        &&& r == Ok::<u64, &'static str>(until)
                        &&& final(self)@.slots == woke.update(i, Some(TaskInfo {
                            state: TaskState::Sleeping,
                            sleep_until_tick: Some(until),
                            ..woke[i].unwrap()
                        }))
                    },
                }
            }),
            r != Err::<u64, &'static str>("task is running"),
    {
        proof { use_type_invariant(&*self); }
        if sleep_ticks == 0 {
            return Err("sleep ticks must be > 0");
        }
        self.wake_due(now_ticks);
        proof { use_type_invariant(&*self); }
        let i = match self.find_task(id) {
            Some(i) => i,
            None => return Err("task not found"),
        };
        proof { lemma_find_id_found(self.slots@, id, 0); }
        let task = match self.slots[i] {
            Some(task) => task,
            None => return Err("task not found"),
        };
        assert(self.slots@[i as int] is Some);
        if task.state == TaskState::Running {
            return Err("task is running");
        }
        let until_tick = now_ticks.saturating_add(sleep_ticks);
        let mut slots = self.slots;
        slots[i] = Some(TaskInfo {
            state: TaskState::Sleeping,
            sleep_until_tick: Some(until_tick),
            ..task
        });
        proof { lemma_occupied_update(self.slots@, i as int, slots@[i as int]); }
        *self = Self { slots, next_id: self.next_id, next_rr_index: self.next_rr_index };
        proof { use_type_invariant(&*self); }
        Ok(until_tick)
    }

    fn first_free_slot(&self) -> (r: Option<usize>)
        ensures
            r == match find_free(self@.slots, 0) { Some(i) => Some(i as usize), None => None::<usize> },
    {
        proof { use_type_invariant(self); }
        let mut i: usize = 0;
        while i < MAX_TASKS
            invariant
                i <= MAX_TASKS,
                self.slots@.len() == MAX_TASKS,
                find_free(self.slots@, 0) == find_free(self.slots@, i as int),
            decreases MAX_TASKS - i,
        {
            if self.slots[i].is_none() {
                return Some(i);
            }
            i += 1;
        }
        None
    }

    fn find_task(&self, id: u64) -> (r: Option<usize>)
        ensures
            r == match find_id(self@.slots, id, 0) { Some(i) => Some(i as usize), None => None::<usize> },
    {
        proof { use_type_invariant(self); }
        let mut i: usize = 0;
        while i < MAX_TASKS
            invariant
                i <= MAX_TASKS,
                self.slots@.len() == MAX_TASKS,
                find_id(self.slots@, id, 0) == find_id(self.slots@, id, i as int),
            decreases MAX_TASKS - i,
        {
            if let Some(task) = self.slots[i] {
                if task.id == id {
                    return Some(i);
                }
            }
            i += 1;
        }
        None
    }

    fn pick_ready_slot(&self, start: usize) -> (r: Option<usize>)
        requires
            start < MAX_TASKS,
        ensures
            r == match pick_ready(self@.slots, start as int, 0) { Some(i) => Some(i as usize), None => None::<usize> },
    {
        proof { use_type_invariant(self); }
        let mut offset: usize = 0;
        while offset < MAX_TASKS
            invariant
                offset <= MAX_TASKS,
                start < MAX_TASKS,
                self.slots@.len() == MAX_TASKS,
                pick_ready(self.slots@, start as int, 0) == pick_ready(self.slots@, start as int, offset as int),
            decreases MAX_TASKS - offset,
        {
            let index = (start + offset) % MAX_TASKS;
            if let Some(task) = self.slots[index] {
                if task.state == TaskState::Ready {
                    return Some(index);
                }
            }
            offset += 1;
        }
        None
    }

    /// Counts the tasks by state.
    pub fn snapshot(&self) -> (r: SchedulerSnapshot)
        ensures
            table_wf(self@),
            r.total == occupied(self@.slots).len(),
            r.ready == count_state(self@.slots, TaskState::Ready),
            r.running == count_state(self@.slots, TaskState::Running),
            r.sleeping == count_state(self@.slots, TaskState::Sleeping),
            r.finished == 0,
            r.capacity == MAX_TASKS,
            r.next_id == self@.next_id,
            forall|i: int| 0 <= i < MAX_TASKS && #[trigger] self@.slots[i] is Some
                ==> self@.slots[i].unwrap().id < r.next_id,
            r.next_id <= r.total + 2,
            r.running == 0,
            r.total == r.ready + r.sleeping,
            r.total <= MAX_TASKS,
    {
        proof {
            use_type_invariant(self);
            lemma_no_running(self.slots@);
            lemma_occupied_len(self.slots@);
        }
        let ghost s = self.slots@;
        let mut total: usize = 0;
        let mut ready: usize = 0;
        let mut running: usize = 0;
        let mut sleeping: usize = 0;
        let mut i: usize = 0;
        while i < MAX_TASKS
            invariant
                i <= MAX_TASKS,
                s == self.slots@,
                s.len() == MAX_TASKS,
                total == occupied(s.take(i as int)).len(),
                ready == count_state(s.take(i as int), TaskState::Ready),
                running == count_state(s.take(i as int), TaskState::Running),
                sleeping == count_state(s.take(i as int), TaskState::Sleeping),
                total <= i,
                ready <= i,
                running <= i,
                sleeping <= i,
            decreases MAX_TASKS - i,
        {
            proof {
                assert(s.take(i as int + 1).drop_last() =~= s.take(i as int));
                lemma_occupied_len(s.take(i as int));
            }
            if let Some(task) = self.slots[i] {
                total += 1;
                match task.state {
                    TaskState::Ready => ready += 1,
                    TaskState::Running => running += 1,
                    TaskState::Sleeping => sleeping += 1,
                }
            }
            i += 1;
        }
        assert(s.take(MAX_TASKS as int) =~= s);
        SchedulerSnapshot {
            total,
            ready,
            running,
            sleeping,
            finished: 0,
            capacity: MAX_TASKS,
            next_id: self.next_id,
        }
    }

    /// Copies the tasks, in slot order, to the front of `output`; returns how many.
    /// The entries of `output` past that count are left as they were.
    pub fn list(&self, output: &mut [Option<TaskInfo>; MAX_TASKS]) -> (r: usize)
        ensures
            table_wf(self@),
            r == occupied(self@.slots).len(),
            forall|i: int| 0 <= i < r ==> final(output)@[i] == Some(occupied(self@.slots)[i]),
            forall|i: int| r <= i < MAX_TASKS ==> final(output)@[i] == old(output)@[i],
    {
        proof { use_type_invariant(self); }
        let ghost s = self.slots@;
        let mut count: usize = 0;
        let mut i: usize = 0;
        while i < MAX_TASKS
            invariant
                i <= MAX_TASKS,
                s == self.slots@,
                s.len() == MAX_TASKS,
                count == occupied(s.take(i as int)).len(),
                count <= i,
                output@.len() == MAX_TASKS,
                forall|j: int| 0 <= j < count ==> output@[j] == Some(occupied(s.take(i as int))[j]),
                forall|j: int| count <= j < MAX_TASKS ==> output@[j] == old(output)@[j],
            decreases MAX_TASKS - i,
        {
            proof {
                assert(s.take(i as int + 1).drop_last() =~= s.take(i as int));
                lemma_occupied_len(s.take(i as int));
            }
            if let Some(task) = self.slots[i] {
                output[count] = Some(task);
                count += 1;
            }
            i += 1;
        }
        assert(s.take(MAX_TASKS as int) =~= s);
        count
    }
}

/// A task that sleeps until a tick that has not come is neither woken nor picked to
/// run: stepping the table at `now` leaves it sleeping.
pub proof fn lemma_sleeper_not_run(s: Seq<Option<TaskInfo>>, now: u64, i: int, start: int)
    requires
        s.len() == MAX_TASKS,
        0 <= i < MAX_TASKS,
        0 <= start,
        s[i] is Some,
        s[i].unwrap().state == TaskState::Sleeping,
        s[i].unwrap().sleep_until_tick is Some,
        now < s[i].unwrap().sleep_until_tick.unwrap(),
    ensures
        wake_all(s, now)[i] == s[i],
        pick_ready(wake_all(s, now), start, 0) != Some(i),
{
    lemma_pick_ready_found(wake_all(s, now), start, 0);
}

/// Adds a task of the given kind to the table.
pub fn spawn(table: &mut TaskTable, kind: TaskKind) -> (r: Result<u64, &'static str>)
    ensures
        table_wf(final(table)@),
        find_free(old(table)@.slots, 0) is None ==> r == Err::<u64, &'static str>("task table full")
            && final(table)@ == old(table)@,
        find_free(old(table)@.slots, 0) is Some ==> {
            let i = find_free(old(table)@.slots, 0).unwrap();
            &&& r == Ok::<u64, &'static str>(old(table)@.next_id)
            &&& final(table)@.slots == old(table)@.slots.update(i, Some(new_task(old(table)@.next_id, kind)))
            &&& final(table)@.next_id == saturating_inc(old(table)@.next_id)
            &&& final(table)@.next_rr_index == old(table)@.next_rr_index
        },
        r is Ok ==> final(table)@.next_id == old(table)@.next_id + 1,
        r is Ok ==> forall|j: int|
            0 <= j < MAX_TASKS && #[trigger] old(table)@.slots[j] is Some
                ==> old(table)@.slots[j].unwrap().id != r.unwrap(),
{
    table.spawn(kind)
}

/// Runs one round-robin step of the table (see [`TaskTable::step`]).
pub fn step(table: &mut TaskTable, now_ticks: u64) -> (r: Option<TaskStepReport>)
    ensures
        table_wf(final(table)@),
        ({
            let woke = wake_all(old(table)@.slots, now_ticks);
            match pick_ready(woke, old(table)@.next_rr_index as int, 0) {
                None => r is None && final(table)@.slots == woke
                    && final(table)@.next_id == old(table)@.next_id
                    && final(table)@.next_rr_index == old(table)@.next_rr_index,
                Some(i) => {
                    let t = woke[i].unwrap();
                    let ran = TaskInfo {
                        run_count: saturating_inc(t.run_count),
                        state: TaskState::Ready,
                        sleep_until_tick: None,
                        ..t
                    };
                    &&& r == Some(TaskStepReport { id: t.id, kind: t.kind, run_count: ran.run_count })
                    &&& final(table)@.slots == woke.update(i, Some(ran))
                    &&& final(table)@.next_id == old(table)@.next_id
                    &&& final(table)@.next_rr_index == (i + 1) % (MAX_TASKS as int)
                },
            }
        }),
{
    table.step(now_ticks)
}

/// Puts a task to sleep (see [`TaskTable::sleep`]).
pub fn sleep(table: &mut TaskTable, id: u64, sleep_ticks: u64, now_ticks: u64) -> (r: Result<u64, &'static str>)
    ensures
        table_wf(final(table)@),
        sleep_ticks == 0 ==> r == Err::<u64, &'static str>("sleep ticks must be > 0")
            && final(table)@ == old(table)@,
        sleep_ticks != 0 ==> ({
            let woke = wake_all(old(table)@.slots, now_ticks);
            &&& final(table)@.next_id == old(table)@.next_id
            &&& final(table)@.next_rr_index == old(table)@.next_rr_index
            &&& match find_id(woke, id, 0) {
                None => r == Err::<u64, &'static str>("task not found") && final(table)@.slots == woke,
                Some(i) => {
                    let until = saturating_sum(now_ticks, sleep_ticks);
                    &&& r == Ok::<u64, &'static str>(until)
                    &&& final(table)@.slots == woke.update(i, Some(TaskInfo {
                        state: TaskState::Sleeping,
                        sleep_until_tick: Some(until),
                        ..woke[i].unwrap()
                    }))
                },
            }
        }),
{
    table.sleep(id, sleep_ticks, now_ticks)
}

/// Counts the tasks by state (see [`TaskTable::snapshot`]).
pub fn snapshot(table: &TaskTable) -> (r: SchedulerSnapshot)
    ensures
        table_wf(table@),
        r.total == occupied(table@.slots).len(),
        r.ready == count_state(table@.slots, TaskState::Ready),
        r.running == 0,
        r.sleeping == count_state(table@.slots, TaskState::Sleeping),
        r.finished == 0,
        r.capacity == MAX_TASKS,
        r.next_id == table@.next_id,
        forall|i: int| 0 <= i < MAX_TASKS && #[trigger] table@.slots[i] is Some
            ==> table@.slots[i].unwrap().id < r.next_id,
        r.next_id <= r.total + 2,
        r.total == r.ready + r.sleeping,
        r.total <= MAX_TASKS,
{
    table.snapshot()
}

/// Copies the tasks, in slot order, to the front of `output` (see [`TaskTable::list`]).
pub fn list(table: &TaskTable, output: &mut [Option<TaskInfo>; MAX_TASKS]) -> (r: usize)
    ensures
        table_wf(table@),
        r == occupied(table@.slots).len(),
        forall|i: int| 0 <= i < r ==> final(output)@[i] == Some(occupied(table@.slots)[i]),
        forall|i: int| r <= i < MAX_TASKS ==> final(output)@[i] == old(output)@[i],
{
    table.list(output)
}

/// Where a run of several scheduler steps stands.
pub ghost struct TaskRunView {
    pub requested: nat,
    pub executed: nat,
    pub stopped: bool,
}

/// A run of up to `requested` scheduler steps that stops at the first step that
/// finds no ready task; it counts the steps that ran.
pub struct TaskRun {
    requested: u64,
    executed: u64,
    stopped: bool,
}

impl View for TaskRun {
    type V = TaskRunView;

    closed spec fn view(&self) -> TaskRunView {
        TaskRunView { requested: self.requested as nat, executed: self.executed as nat, stopped: self.stopped }
    }
}

/// Whether a run still asks for a step.
pub open spec fn run_wants_step(v: TaskRunView) -> bool {
    !v.stopped && v.executed < v.requested
}

impl TaskRun {
    #[verifier::type_invariant]
    spec fn inv(self) -> bool {
        self.executed <= self.requested
    }

    /// A run of `requested` steps, none taken yet.
    pub fn new(requested: u64) -> (r: Self)
        ensures
            r@ == (TaskRunView { requested: requested as nat, executed: 0, stopped: false }),
    {
        TaskRun { requested, executed: 0, stopped: false }
    }

    /// Whether the next step is to be taken.
    pub fn wants_step(&self) -> (r: bool)
        ensures
            r == run_wants_step(self@),
            self@.executed <= self@.requested,
    {
        proof { use_type_invariant(self); }
        !self.stopped && self.executed < self.requested
    }

    /// Records a step: one that ran a task counts, one that found none ends the run.
    pub fn record(&mut self, ran: bool)
        requires
            run_wants_step(old(self)@),
        ensures
            ran ==> final(self)@ == (TaskRunView { executed: old(self)@.executed + 1, ..old(self)@ }),
            !ran ==> final(self)@ == (TaskRunView { stopped: true, ..old(self)@ }),
            final(self)@.executed <= final(self)@.requested,
    {
        if ran {
            self.executed = self.executed + 1;
        } else {
            self.stopped = true;
        }
        proof { use_type_invariant(&*self); }
    }

    /// The number of steps asked for.
    pub fn requested(&self) -> (r: u64)
        ensures
            r == self@.requested,
    {
        self.requested
    }

    /// The number of steps that ran a task.
    pub fn executed(&self) -> (r: u64)
        ensures
            r == self@.executed,
            r <= self@.requested,
    {
        proof { use_type_invariant(self); }
        self.executed
    }
}

/// The name shown for a task kind.
pub fn task_kind_name(kind: TaskKind) -> (r: &'static str)
    ensures
        r == match kind {
            TaskKind::KernelMonitor => "kernel_monitor",
            TaskKind::UserDemo => "user_demo",
            TaskKind::FastSyscallSuccess => "fast_syscall_success",
            TaskKind::FastSyscallError => "fast_syscall_error",
        },
{
    match kind {
        TaskKind::KernelMonitor => "kernel_monitor",
        TaskKind::UserDemo => "user_demo",
        TaskKind::FastSyscallSuccess => "fast_syscall_success",
        TaskKind::FastSyscallError => "fast_syscall_error",
    }
}

/// The name shown for a task state.
pub fn task_state_name(state: TaskState) -> (r: &'static str)
    ensures
        r == match state {
            TaskState::Ready => "ready",
            TaskState::Running => "running",
            TaskState::Sleeping => "sleeping",
        },
{
    match state {
        TaskState::Ready => "ready",
        TaskState::Running => "running",
        TaskState::Sleeping => "sleeping",
    }
}

/// The task kind that a name stands for.
pub open spec fn task_kind_named(t: Seq<char>) -> Option<TaskKind> {
    if t == "monitor"@ || t == "kernel"@ || t == "kernel_monitor"@ {
        Some(TaskKind::KernelMonitor)
    } else if t == "userdemo"@ || t == "user"@ || t == "user_demo"@ {
        Some(TaskKind::UserDemo)
    } else if t == "fastsyscall"@ || t == "fast"@ || t == "fast_ok"@ || t == "fastsyscall_ok"@
        || t == "fast_syscall_success"@ {
        Some(TaskKind::FastSyscallSuccess)
    } else if t == "fastfail"@ || t == "fastsyscall_fail"@ || t == "fast_syscall_error"@
        || t == "fast_error"@ {
        Some(TaskKind::FastSyscallError)
    } else {
        None
    }
}

/// Reads a task kind from one of its accepted names.
pub fn parse_task_kind(text: &str) -> (r: Option<TaskKind>)
    ensures
        r == task_kind_named(text@),
{
    if str_eq(text, "monitor") || str_eq(text, "kernel") || str_eq(text, "kernel_monitor") {
        Some(TaskKind::KernelMonitor)
    } else if str_eq(text, "userdemo") || str_eq(text, "user") || str_eq(text, "user_demo") {
        Some(TaskKind::UserDemo)
    } else if str_eq(text, "fastsyscall") || str_eq(text, "fast") || str_eq(text, "fast_ok")
        || str_eq(text, "fastsyscall_ok") || str_eq(text, "fast_syscall_success") {
        Some(TaskKind::FastSyscallSuccess)
    } else if str_eq(text, "fastfail") || str_eq(text, "fastsyscall_fail")
        || str_eq(text, "fast_syscall_error") || str_eq(text, "fast_error") {
        Some(TaskKind::FastSyscallError)
    } else {
        None
    }
}

/// Ensures the kernel monitor task exists.
pub fn init(table: &mut TaskTable)
    ensures
        table_wf(final(table)@),
        find_id(old(table)@.slots, 1, 0) is Some ==> final(table)@ == old(table)@,
        find_id(old(table)@.slots, 1, 0) is None ==> {
            &&& final(table)@.slots == old(table)@.slots.update(0, Some(new_task(1, TaskKind::KernelMonitor)))
            &&& final(table)@.next_id == if old(table)@.next_id < 2 { 2 } else { old(table)@.next_id }
            &&& final(table)@.next_rr_index == old(table)@.next_rr_index
        },
{
    table.ensure_bootstrap_task();
}

} // verus!
