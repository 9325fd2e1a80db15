//! Notification events emitted by the task execution tracker.
//!
//! Every aggregate count in an event is computed from the live task
//! snapshot at emission time, never cached.

use vstd::prelude::*;

use crate::message::clone_opt_string;
use crate::task::{
    spec_duration_ms, spec_task_metadata, spec_task_name, format_task_metadata, get_task_name,
    TaskInfo, TaskStatus,
};

verus! {

/// Aggregate counts reported in a dashboard snapshot.
#[derive(Clone, Copy, Debug, PartialEq, Eq, Structural)]
pub struct TaskExecutionStats {
    pub total: usize,
    pub pending: usize,
    pub running: usize,
    pub completed: usize,
    pub failed: usize,
}

/// Aggregate counts reported when all tasks are done.
#[derive(Clone, Copy, Debug, PartialEq, Eq, Structural)]
pub struct TaskCompletionStats {
    pub total: usize,
    pub completed: usize,
    pub failed: usize,
}

/// Summary of one failed task in the completion event.
#[derive(Clone, Debug)]
pub struct FailedTaskInfo {
    pub id: String,
    pub name: String,
    pub error: Option<String>,
}

/// Per-task snapshot carried by a dashboard update.
#[derive(Clone, Debug)]
pub struct EventTaskInfo {
    pub id: String,
    pub status: TaskStatus,
    /// Elapsed execution time; absent for tasks that never started.
    pub duration_ms: Option<u64>,
    pub current_output: String,
    pub task_type: String,
    pub task_name: String,
    pub task_metadata: String,
    pub error: Option<String>,
    pub result_data: Option<String>,
}

/// The sole output of the core to the outside world during a turn.
#[derive(Clone, Debug)]
pub enum TaskExecutionNotificationEvent {
    /// One formatted output line of one task (single-task mode).
    LineOutput { task_id: String, line: String },
    /// Full dashboard snapshot of every task (multi-task mode).
    TasksUpdate { stats: TaskExecutionStats, tasks: Vec<EventTaskInfo> },
    /// Terminal summary with the list of failed tasks.
    TasksComplete { stats: TaskCompletionStats, failed_tasks: Vec<FailedTaskInfo> },
}

/// How many tasks of a sequence are in the given status.
pub open spec fn spec_count_status(tasks: Seq<TaskInfo>, status: TaskStatus) -> int
    decreases tasks.len(),
{
    if tasks.len() == 0 {
        0
    } else {
        spec_count_status(tasks.drop_last(), status) + if tasks.last().status == status {
            1int
        } else {
            0int
        }
    }
}

pub proof fn lemma_count_status_bounds(tasks: Seq<TaskInfo>, status: TaskStatus)
    ensures
        0 <= spec_count_status(tasks, status) <= tasks.len(),
    decreases tasks.len(),
{
    if tasks.len() > 0 {
        lemma_count_status_bounds(tasks.drop_last(), status);
    }
}

/// The four status counts of a task set partition it: they sum to its
/// size.
pub proof fn lemma_count_status_partition(tasks: Seq<TaskInfo>)
    ensures
        spec_count_status(tasks, TaskStatus::Pending) + spec_count_status(
            tasks,
            TaskStatus::Running,
        ) + spec_count_status(tasks, TaskStatus::Completed) + spec_count_status(
            tasks,
            TaskStatus::Failed,
        ) == tasks.len(),
    decreases tasks.len(),
{
    if tasks.len() > 0 {
        lemma_count_status_partition(tasks.drop_last());
    }
}

/// Error payload of a task, meaningful once the task has failed.
pub open spec fn spec_task_error(t: TaskInfo) -> Option<String> {
    match t.result {
        Option::None => Option::None,
        Option::Some(r) => r.error,
    }
}

/// Structured result payload of a task, set at completion.
pub open spec fn spec_task_data(t: TaskInfo) -> Option<String> {
    match t.result {
        Option::None => Option::None,
        Option::Some(r) => r.data,
    }
}

/// What one per-task snapshot entry reports of a task at instant
/// `now_ms`.
pub open spec fn spec_event_task_info(t: TaskInfo, now_ms: u64, e: EventTaskInfo) -> bool {
    &&& e.id == t.task.id
    &&& e.status == t.status
    &&& e.duration_ms == spec_duration_ms(t, now_ms)
    &&& e.current_output == t.current_output
    &&& e.task_type == t.task.task_type
    &&& e.task_name@ == spec_task_name(t.task)
    &&& e.task_metadata@ == spec_task_metadata(t.task)
    &&& e.error == spec_task_error(t)
    &&& e.result_data == spec_task_data(t)
}

/// The aggregate counts of a dashboard snapshot, computed from the task
/// sequence.
pub open spec fn spec_execution_stats(tasks: Seq<TaskInfo>, stats: TaskExecutionStats) -> bool {
    &&& stats.total == tasks.len()
    &&& stats.pending == spec_count_status(tasks, TaskStatus::Pending)
    &&& stats.running == spec_count_status(tasks, TaskStatus::Running)
    &&& stats.completed == spec_count_status(tasks, TaskStatus::Completed)
    &&& stats.failed == spec_count_status(tasks, TaskStatus::Failed)
}

/// A full dashboard snapshot of `tasks` taken at `now_ms`.
pub open spec fn spec_tasks_update_event(
    tasks: Seq<TaskInfo>,
    now_ms: u64,
    ev: TaskExecutionNotificationEvent,
) -> bool {
    &&& ev is TasksUpdate
    &&& spec_execution_stats(tasks, ev->TasksUpdate_stats)
    &&& ev->TasksUpdate_tasks@.len() == tasks.len()
    &&& forall|i: int|
        0 <= i < tasks.len() ==> spec_event_task_info(tasks[i], now_ms, ev->TasksUpdate_tasks@[i])
}

/// The indices of the failed tasks, in task order.
pub open spec fn spec_failed_indices(tasks: Seq<TaskInfo>) -> Seq<int>
    decreases tasks.len(),
{
    if tasks.len() == 0 {
        Seq::empty()
    } else {
        let prefix = spec_failed_indices(tasks.drop_last());
        if tasks.last().status == TaskStatus::Failed {
            prefix.push(tasks.len() - 1)
        } else {
            prefix
        }
    }
}

/// There are exactly as many failed indices as failed tasks.
pub proof fn lemma_failed_indices_count(tasks: Seq<TaskInfo>)
    ensures
        spec_failed_indices(tasks).len() == spec_count_status(tasks, TaskStatus::Failed),
        forall|k: int|
            0 <= k < spec_failed_indices(tasks).len() ==> {
                let idx = #[trigger] spec_failed_indices(tasks)[k];
                0 <= idx < tasks.len() && tasks[idx].status == TaskStatus::Failed
            },
    decreases tasks.len(),
{
    if tasks.len() > 0 {
        lemma_failed_indices_count(tasks.drop_last());
    }
}

/// One failed-task summary reports the task's id, display name and error.
pub open spec fn spec_failed_task_info(t: TaskInfo, f: FailedTaskInfo) -> bool {
    &&& f.id == t.task.id
    &&& f.name@ == spec_task_name(t.task)
    &&& f.error == spec_task_error(t)
}

/// The failed-task list of a completion event: one summary per failed
/// task, in task order.
pub open spec fn spec_failed_task_list(tasks: Seq<TaskInfo>, fl: Seq<FailedTaskInfo>) -> bool {
    &&& fl.len() == spec_failed_indices(tasks).len()
    &&& forall|k: int|
        0 <= k < fl.len() ==> spec_failed_task_info(tasks[spec_failed_indices(tasks)[k]], fl[k])
}

/// The terminal completion event for `tasks`: aggregate counts plus one
/// entry per failed task.
pub open spec fn spec_tasks_complete_event(
    tasks: Seq<TaskInfo>,
    ev: TaskExecutionNotificationEvent,
) -> bool {
    &&& ev is TasksComplete
    &&& ev->TasksComplete_stats.total == tasks.len()
    &&& ev->TasksComplete_stats.completed == spec_count_status(tasks, TaskStatus::Completed)
    &&& ev->TasksComplete_stats.failed == spec_count_status(tasks, TaskStatus::Failed)
    &&& spec_failed_task_list(tasks, ev->TasksComplete_failed_tasks@)
}

/// Takes the per-task snapshot entry of one task at instant `now_ms`.
pub fn build_event_task_info(t: &TaskInfo, now_ms: u64) -> (e: EventTaskInfo)
    ensures
        spec_event_task_info(*t, now_ms, e),
{
    let duration_ms: Option<u64> = match t.start_ms {
        None => None,
        Some(s) => match t.end_ms {
            Some(e) => Some(e.saturating_sub(s)),
            None => Some(now_ms.saturating_sub(s)),
        },
    };
    let error: Option<String> = match &t.result {
        None => None,
        Some(r) => clone_opt_string(&r.error),
    };
    let result_data: Option<String> = match &t.result {
        None => None,
        Some(r) => clone_opt_string(&r.data),
    };
    EventTaskInfo {
        id: t.task.id.clone(),
        status: t.status,
        duration_ms,
        current_output: t.current_output.clone(),
        task_type: t.task.task_type.clone(),
        task_name: get_task_name(t),
        task_metadata: format_task_metadata(t),
        error,
        result_data,
    }
}

/// Counts the tasks in each status. Counts are taken from the live
/// sequence, not cached anywhere.
#[verifier::loop_isolation(false)]
pub fn count_by_status(tasks: &Vec<TaskInfo>) -> (stats: TaskExecutionStats)
    ensures
        spec_execution_stats(tasks@, stats),
{
    let n = tasks.len();
    let mut pending: usize = 0;
    let mut running: usize = 0;
    let mut completed: usize = 0;
    let mut failed: usize = 0;
    let mut i: usize = 0;
    proof {
        assert(tasks@.subrange(0, 0) =~= Seq::<TaskInfo>::empty());
    }
    while i < n
        invariant
            i <= n,
            pending == spec_count_status(tasks@.subrange(0, i as int), TaskStatus::Pending),
            running == spec_count_status(tasks@.subrange(0, i as int), TaskStatus::Running),
            completed == spec_count_status(tasks@.subrange(0, i as int), TaskStatus::Completed),
            failed == spec_count_status(tasks@.subrange(0, i as int), TaskStatus::Failed),
        decreases n - i,
    {
        let ghost prefix = tasks@.subrange(0, i as int);
        let ghost next_prefix = tasks@.subrange(0, i as int + 1);
        proof {
            assert(next_prefix.drop_last() =~= prefix);
            assert(next_prefix.last() == tasks@[i as int]);
            lemma_count_status_bounds(prefix, TaskStatus::Pending);
            lemma_count_status_bounds(prefix, TaskStatus::Running);
            lemma_count_status_bounds(prefix, TaskStatus::Completed);
            lemma_count_status_bounds(prefix, TaskStatus::Failed);
        }
        match tasks[i].status {
            TaskStatus::Pending => pending += 1,
            TaskStatus::Running => running += 1,
            TaskStatus::Completed => completed += 1,
            TaskStatus::Failed => failed += 1,
        }
        i += 1;
    }
    proof {
        assert(tasks@.subrange(0, n as int) =~= tasks@);
    }
    TaskExecutionStats { total: n, pending, running, completed, failed }
}

/// Builds the full dashboard snapshot event of all tasks at instant
/// `now_ms`.
#[verifier::loop_isolation(false)]
pub fn build_tasks_update(tasks: &Vec<TaskInfo>, now_ms: u64) -> (ev:
    TaskExecutionNotificationEvent)
    ensures
        spec_tasks_update_event(tasks@, now_ms, ev),
{
    let stats = count_by_status(tasks);
    let n = tasks.len();
    let mut entries: Vec<EventTaskInfo> = Vec::new();
    let mut i: usize = 0;
    while i < n
        invariant
            i <= n,
            entries@.len() == i,
            forall|j: int| 0 <= j < i ==> spec_event_task_info(tasks@[j], now_ms, entries@[j]),
        decreases n - i,
    {
        let e = build_event_task_info(&tasks[i], now_ms);
        entries.push(e);
        i += 1;
    }
    TaskExecutionNotificationEvent::TasksUpdate { stats, tasks: entries }
}

/// Builds the terminal completion event: totals plus the failed-task
/// list. The failed list's length always equals the count of tasks whose
/// terminal status is `Failed`.
#[verifier::loop_isolation(false)]
pub fn build_tasks_complete(tasks: &Vec<TaskInfo>) -> (ev: TaskExecutionNotificationEvent)
    ensures
        spec_tasks_complete_event(tasks@, ev),
        ev->TasksComplete_failed_tasks@.len() == spec_count_status(tasks@, TaskStatus::Failed),
{
    let stats_all = count_by_status(tasks);
    let stats = TaskCompletionStats {
        total: stats_all.total,
        completed: stats_all.completed,
        failed: stats_all.failed,
    };
    let n = tasks.len();
    let mut failed_tasks: Vec<FailedTaskInfo> = Vec::new();
    let mut i: usize = 0;
    proof {
        assert(spec_failed_indices(tasks@.subrange(0, 0)) =~= Seq::<int>::empty());
    }
    while i < n
        invariant
            i <= n,
            spec_failed_task_list(tasks@.subrange(0, i as int), failed_tasks@),
            forall|k: int|
                0 <= k < spec_failed_indices(tasks@.subrange(0, i as int)).len() ==> {
                    let idx = #[trigger] spec_failed_indices(tasks@.subrange(0, i as int))[k];
                    0 <= idx < i && spec_failed_task_info(tasks@[idx], failed_tasks@[k])
                },
        decreases n - i,
    {
        let ghost prefix = tasks@.subrange(0, i as int);
        let ghost next_prefix = tasks@.subrange(0, i as int + 1);
        proof {
            assert(next_prefix.drop_last() =~= prefix);
            assert(next_prefix.last() == tasks@[i as int]);
            lemma_failed_indices_count(prefix);
        }
        if matches!(tasks[i].status, TaskStatus::Failed) {
            let error = match &tasks[i].result {
                None => None,
                Some(r) => clone_opt_string(&r.error),
            };
            let f = FailedTaskInfo { id: tasks[i].task.id.clone(), name: get_task_name(&tasks[i]), error };
            failed_tasks.push(f);
        }
        proof {
            assert(forall|j: int|
                0 <= j < prefix.len() ==> next_prefix[j] == prefix[j]);
        }
        i += 1;
    }
    proof {
        assert(tasks@.subrange(0, n as int) =~= tasks@);
        lemma_failed_indices_count(tasks@);
    }
    TaskExecutionNotificationEvent::TasksComplete { stats, failed_tasks }
}

} // verus!
