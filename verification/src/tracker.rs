//! Concurrent task execution tracker.
//!
//! The tracker owns the lifecycle state of a fixed set of tasks for one
//! turn and multiplexes their progress into notification events. Status
//! changes force an immediate dashboard snapshot; high-frequency output
//! lines are rate-limited to one snapshot per throttle interval. Events
//! are handed to a bounded channel without ever blocking: a full or
//! closed channel drops the event, and once cancellation is observed the
//! tracker suppresses new aggregate notifications entirely.
//!
//! All methods take the current instant in milliseconds as an argument;
//! the host reads the clock. Each method that can emit an event returns
//! a ghost record of what it handed to the channel, so the emission
//! behaviour is part of the contract.

use vstd::prelude::*;

use tokio::sync::mpsc::Sender;
use tokio_util::sync::CancellationToken;

use crate::events::{
    build_tasks_complete, build_tasks_update, spec_tasks_complete_event, spec_tasks_update_event,
    TaskExecutionNotificationEvent,
};
use crate::strutil::str_eq;
use crate::task::{
    spec_format_line_text, spec_initial_info, spec_is_terminal, format_line, DisplayMode, Task,
    TaskInfo, TaskResult, TaskStatus,
};

verus! {

/// Minimum spacing of two throttled dashboard snapshots, in milliseconds.
pub const THROTTLE_INTERVAL_MS: u64 = 250;

/// Pause after the terminal completion event, giving the client time to
/// render it before the tracker is torn down. The host performs the wait.
pub const COMPLETION_NOTIFICATION_DELAY_MS: u64 = 500;

#[verifier::external_type_specification]
#[verifier::external_body]
#[verifier::reject_recursive_types(T)]
pub struct ExSender<T>(Sender<T>);

#[verifier::external_type_specification]
#[verifier::external_body]
pub struct ExCancellationToken(CancellationToken);

/// Relies on tokio_util's CancellationToken::is_cancelled: whether the
/// token was cancelled. The answer depends on outside events, so nothing
/// is promised of it.
pub assume_specification[ CancellationToken::is_cancelled ](
    token: &CancellationToken,
) -> bool;

/// Relies on tokio's mpsc::Sender::try_send: hands the event to the
/// channel without blocking. Whether the channel accepts it depends on
/// its capacity and its receiver, so nothing is promised of the outcome.
#[verifier::external_body]
fn try_send_event(
    notifier: &Sender<TaskExecutionNotificationEvent>,
    event: TaskExecutionNotificationEvent,
) -> bool {
    notifier.try_send(event).is_ok()
}

/// A task entered the running state at instant `now_ms`.
pub open spec fn spec_start_step(t: TaskInfo, now_ms: u64) -> TaskInfo {
    TaskInfo {
        status: TaskStatus::Running,
        start_ms: Option::Some(now_ms),
        ..t
    }
}

/// A task took `result` as its outcome at instant `now_ms`. The end
/// instant is set only once, and only for a task that has started; a
/// repeated completion overwrites the retained result but keeps the
/// first end instant.
pub open spec fn spec_complete_step(t: TaskInfo, result: TaskResult, now_ms: u64) -> TaskInfo {
    TaskInfo {
        status: result.status,
        end_ms: if t.start_ms is Some && t.end_ms is None {
            Option::Some(now_ms)
        } else {
            t.end_ms
        },
        result: Option::Some(result),
        ..t
    }
}

/// A raw output line (plus the newline the reader expects) was appended
/// to a task's buffer; everything else is untouched.
pub open spec fn spec_output_appended(pre: TaskInfo, post: TaskInfo, line: Seq<char>) -> bool {
    &&& post.task == pre.task
    &&& post.status == pre.status
    &&& post.start_ms == pre.start_ms
    &&& post.end_ms == pre.end_ms
    &&& post.result == pre.result
    &&& post.current_output@ == pre.current_output@ + line + "\n"@
}

/// Whether an output-driven refresh at `now_ms` is held back: the last
/// snapshot is not yet a full throttle interval in the past.
pub open spec fn spec_throttled(last_refresh_ms: u64, now_ms: u64) -> bool {
    now_ms.saturating_sub(last_refresh_ms) <= THROTTLE_INTERVAL_MS
}

/// Tracks the execution of a fixed set of concurrent tasks and reports
/// progress through a non-blocking notification channel.
pub struct TaskExecutionTracker {
    pub tasks: Vec<TaskInfo>,
    /// Instant of the last dashboard snapshot, for throttling.
    pub last_refresh_ms: u64,
    pub display_mode: DisplayMode,
    pub notifier: Sender<TaskExecutionNotificationEvent>,
    pub cancellation_token: Option<CancellationToken>,
}

impl TaskExecutionTracker {
    /// Task identifiers are unique and every per-task state is
    /// internally consistent.
    pub open spec fn wf(self) -> bool {
        &&& forall|i: int, j: int|
            0 <= i < j < self.tasks@.len() ==> self.tasks@[i].task.id@ != self.tasks@[j].task.id@
        &&& forall|i: int| 0 <= i < self.tasks@.len() ==> #[trigger] self.tasks@[i].wf()
    }

    /// The parts of the tracker that no operation changes.
    pub open spec fn spec_same_config(self, other: TaskExecutionTracker) -> bool {
        &&& self.display_mode == other.display_mode
        &&& self.notifier == other.notifier
        &&& self.cancellation_token == other.cancellation_token
    }

    /// Builds a tracker over the full, fixed task set of one turn. Every
    /// task starts `Pending`, with no instants, no result and an empty
    /// output buffer.
    #[verifier::loop_isolation(false)]
    pub fn new(
        tasks: Vec<Task>,
        display_mode: DisplayMode,
        notifier: Sender<TaskExecutionNotificationEvent>,
        cancellation_token: Option<CancellationToken>,
        now_ms: u64,
    ) -> (tracker: TaskExecutionTracker)
        requires
            forall|i: int, j: int|
                0 <= i < j < tasks@.len() ==> tasks@[i].id@ != tasks@[j].id@,
        ensures
            tracker.wf(),
            tracker.tasks@.len() == tasks@.len(),
            forall|i: int|
                0 <= i < tasks@.len() ==> spec_initial_info(tasks@[i], #[trigger] tracker.tasks@[i]),
            tracker.last_refresh_ms == now_ms,
            tracker.display_mode == display_mode,
            tracker.notifier == notifier,
            tracker.cancellation_token == cancellation_token,
    {
        let ghost all = tasks@;
        let mut remaining = tasks;
        let mut infos: Vec<TaskInfo> = Vec::new();
        let n = remaining.len();
        let mut i: usize = 0;
        while i < n
            invariant
                i <= n,
                infos@.len() == i,
                remaining@ == all.subrange(i as int, n as int),
                forall|j: int| 0 <= j < i ==> spec_initial_info(all[j], #[trigger] infos@[j]),
            decreases n - i,
        {
            let task = remaining.remove(0);
            assert(task == all[i as int]);
            let info = TaskInfo {
                task,
                status: TaskStatus::Pending,
                start_ms: None,
                end_ms: None,
                result: None,
                current_output: String::new(),
            };
            infos.push(info);
            proof {
                assert(remaining@ =~= all.subrange(i as int + 1, n as int));
            }
            i += 1;
        }
        TaskExecutionTracker {
            tasks: infos,
            last_refresh_ms: now_ms,
            display_mode,
            notifier,
            cancellation_token,
        }
    }

    /// Whether the shared cancellation signal was observed. A tracker
    /// without a token is never cancelled; with one, the answer comes
    /// from the outside world.
    fn is_cancelled(&self) -> (r: bool)
        ensures
            self.cancellation_token is None ==> !r,
    {
        match &self.cancellation_token {
            None => false,
            Some(token) => token.is_cancelled(),
        }
    }

    /// Index of the task with the given id, if the id is known.
    #[verifier::loop_isolation(false)]
    fn find_task_index(&self, task_id: &str) -> (r: Option<usize>)
        ensures
            match r {
                Option::Some(i) => i < self.tasks@.len() && self.tasks@[i as int].task.id@
                    == task_id@,
                Option::None => forall|j: int|
                    0 <= j < self.tasks@.len() ==> self.tasks@[j].task.id@ != task_id@,
            },
    {
        let n = self.tasks.len();
        let mut i: usize = 0;
        while i < n
            invariant
                i <= n,
                forall|j: int| 0 <= j < i ==> self.tasks@[j].task.id@ != task_id@,
            decreases n - i,
        {
            if str_eq(self.tasks[i].task.id.as_str(), task_id) {
                return Some(i);
            }
            i += 1;
        }
        None
    }

    /// Sends one event without blocking. A full or closed channel drops
    /// the event; that failure never reaches the caller. Once the
    /// tracker is cancelled the drop is silent by design.
    fn dispatch(&self, event: TaskExecutionNotificationEvent) {
        let _delivered = try_send_event(&self.notifier, event);
    }

    /// Forces an immediate dashboard snapshot after a status change: the
    /// throttle timestamp is moved back far enough that the next
    /// output-driven refresh also passes.
    fn force_refresh_display(&mut self, now_ms: u64) -> (emitted: Ghost<
        Option<TaskExecutionNotificationEvent>,
    >)
        ensures
            final(self).tasks == old(self).tasks,
            final(self).spec_same_config(*old(self)),
            final(self).last_refresh_ms == if old(self).display_mode
                == DisplayMode::MultipleTasksOutput {
                now_ms.saturating_sub((THROTTLE_INTERVAL_MS + 1) as u64)
            } else {
                old(self).last_refresh_ms
            },
            old(self).display_mode == DisplayMode::SingleTaskOutput ==> emitted@ is None,
            old(self).display_mode == DisplayMode::MultipleTasksOutput && old(
                self,
            ).cancellation_token is None ==> emitted@ is Some,
            emitted@ matches Option::Some(ev) ==> old(self).display_mode
                == DisplayMode::MultipleTasksOutput && spec_tasks_update_event(
                final(self).tasks@,
                now_ms,
                ev,
            ),
    {
        match self.display_mode {
            DisplayMode::MultipleTasksOutput => {
                self.last_refresh_ms = now_ms.saturating_sub(THROTTLE_INTERVAL_MS + 1);
                if self.is_cancelled() {
                    Ghost(None)
                } else {
                    let event = build_tasks_update(&self.tasks, now_ms);
                    let ghost record = Some(event);
                    self.dispatch(event);
                    Ghost(record)
                }
            },
            DisplayMode::SingleTaskOutput => Ghost(None),
        }
    }

    /// Marks a pending task as running at instant `now_ms` and forces an
    /// immediate snapshot. An unknown id is a no-op; a task that is not
    /// pending keeps its state.
    pub fn start_task(&mut self, task_id: &str, now_ms: u64) -> (emitted: Ghost<
        Option<TaskExecutionNotificationEvent>,
    >)
        requires
            old(self).wf(),
        ensures
            final(self).wf(),
            final(self).spec_same_config(*old(self)),
            final(self).tasks@.len() == old(self).tasks@.len(),
            forall|i: int|
                0 <= i < old(self).tasks@.len() ==> final(self).tasks@[i] == (
                if old(self).tasks@[i].task.id@ == task_id@ && old(self).tasks@[i].status
                    == TaskStatus::Pending {
                    spec_start_step(old(self).tasks@[i], now_ms)
                } else {
                    old(self).tasks@[i]
                }),
            final(self).last_refresh_ms == if old(self).display_mode
                == DisplayMode::MultipleTasksOutput {
                now_ms.saturating_sub((THROTTLE_INTERVAL_MS + 1) as u64)
            } else {
                old(self).last_refresh_ms
            },
            old(self).display_mode == DisplayMode::SingleTaskOutput ==> emitted@ is None,
            old(self).display_mode == DisplayMode::MultipleTasksOutput && old(
                self,
            ).cancellation_token is None ==> emitted@ is Some,
            emitted@ matches Option::Some(ev) ==> old(self).display_mode
                == DisplayMode::MultipleTasksOutput && spec_tasks_update_event(
                final(self).tasks@,
                now_ms,
                ev,
            ),
    {
        let found = self.find_task_index(task_id);
        if let Some(i) = found {
            if matches!(self.tasks[i].status, TaskStatus::Pending) {
                let ghost pre = self.tasks@;
                let mut info = self.tasks.remove(i);
                info.status = TaskStatus::Running;
                info.start_ms = Some(now_ms);
                self.tasks.insert(i, info);
                proof {
                    assert(self.tasks@ =~= pre.update(
                        i as int,
                        spec_start_step(pre[i as int], now_ms),
                    ));
                    assert(forall|j: int|
                        0 <= j < pre.len() ==> (#[trigger] self.tasks@[j]).task == pre[j].task);
                    assert(pre[i as int].wf());
                    assert(self.tasks@[i as int].wf());
                    assert(self.wf());
                }
            }
        }
        self.force_refresh_display(now_ms)
    }

    /// Records a task's outcome at instant `now_ms` and forces an
    /// immediate snapshot. An unknown id is a no-op. The end instant is
    /// set only the first time a started task completes; a repeated
    /// completion overwrites the retained result.
    pub fn complete_task(&mut self, task_id: &str, result: TaskResult, now_ms: u64) -> (emitted:
        Ghost<Option<TaskExecutionNotificationEvent>>)
        requires
            old(self).wf(),
            result.wf(),
        ensures
            final(self).wf(),
            final(self).spec_same_config(*old(self)),
            final(self).tasks@.len() == old(self).tasks@.len(),
            forall|i: int|
                0 <= i < old(self).tasks@.len() ==> final(self).tasks@[i] == (
                if old(self).tasks@[i].task.id@ == task_id@ {
                    spec_complete_step(old(self).tasks@[i], result, now_ms)
                } else {
                    old(self).tasks@[i]
                }),
            final(self).last_refresh_ms == if old(self).display_mode
                == DisplayMode::MultipleTasksOutput {
                now_ms.saturating_sub((THROTTLE_INTERVAL_MS + 1) as u64)
            } else {
                old(self).last_refresh_ms
            },
            old(self).display_mode == DisplayMode::SingleTaskOutput ==> emitted@ is None,
            old(self).display_mode == DisplayMode::MultipleTasksOutput && old(
                self,
            ).cancellation_token is None ==> emitted@ is Some,
            emitted@ matches Option::Some(ev) ==> old(self).display_mode
                == DisplayMode::MultipleTasksOutput && spec_tasks_update_event(
                final(self).tasks@,
                now_ms,
                ev,
            ),
    {
        let found = self.find_task_index(task_id);
        if let Some(i) = found {
            let ghost pre = self.tasks@;
            let mut info = self.tasks.remove(i);
            info.status = result.status;
            if info.start_ms.is_some() && info.end_ms.is_none() {
                info.end_ms = Some(now_ms);
            }
            info.result = Some(result);
            self.tasks.insert(i, info);
            proof {
                assert(self.tasks@ =~= pre.update(
                    i as int,
                    spec_complete_step(pre[i as int], result, now_ms),
                ));
                assert(forall|j: int|
                    0 <= j < pre.len() ==> (#[trigger] self.tasks@[j]).task == pre[j].task);
                assert(pre[i as int].wf());
                assert(self.tasks@[i as int].wf());
                assert(self.wf());
            }
        }
        self.force_refresh_display(now_ms)
    }

    /// The output buffered so far for one task, if the id is known.
    pub fn get_current_output(&self, task_id: &str) -> (r: Option<String>)
        requires
            self.wf(),
        ensures
            match r {
                Option::Some(out) => exists|i: int|
                    0 <= i < self.tasks@.len() && #[trigger] self.tasks@[i].task.id@ == task_id@
                        && out == self.tasks@[i].current_output,
                Option::None => forall|j: int|
                    0 <= j < self.tasks@.len() ==> self.tasks@[j].task.id@ != task_id@,
            },
    {
        let found = self.find_task_index(task_id);
        match found {
            Some(i) => Some(self.tasks[i].current_output.clone()),
            None => None,
        }
    }

    /// Whether an output-driven refresh at `now_ms` must be held back.
    /// When the throttle interval has passed, the timestamp is advanced
    /// to `now_ms` and the refresh may go ahead.
    fn should_throttle_refresh(&mut self, now_ms: u64) -> (throttled: bool)
        ensures
            final(self).tasks == old(self).tasks,
            final(self).spec_same_config(*old(self)),
            throttled == spec_throttled(old(self).last_refresh_ms, now_ms),
            final(self).last_refresh_ms == if throttled {
                old(self).last_refresh_ms
            } else {
                now_ms
            },
    {
        if now_ms.saturating_sub(self.last_refresh_ms) > THROTTLE_INTERVAL_MS {
            self.last_refresh_ms = now_ms;
            false
        } else {
            true
        }
    }

    /// Emits a dashboard snapshot of all tasks, bypassing the throttle.
    /// In single-task mode there is no dashboard and nothing is emitted;
    /// under cancellation the snapshot is suppressed.
    pub fn refresh_display(&self, now_ms: u64) -> (emitted: Ghost<
        Option<TaskExecutionNotificationEvent>,
    >)
        ensures
            self.display_mode == DisplayMode::SingleTaskOutput ==> emitted@ is None,
            self.display_mode == DisplayMode::MultipleTasksOutput && self.cancellation_token
                is None ==> emitted@ is Some,
            emitted@ matches Option::Some(ev) ==> self.display_mode
                == DisplayMode::MultipleTasksOutput && spec_tasks_update_event(
                self.tasks@,
                now_ms,
                ev,
            ),
    {
        match self.display_mode {
            DisplayMode::MultipleTasksOutput => {
                if self.is_cancelled() {
                    Ghost(None)
                } else {
                    let event = build_tasks_update(&self.tasks, now_ms);
                    let ghost record = Some(event);
                    self.dispatch(event);
                    Ghost(record)
                }
            },
            DisplayMode::SingleTaskOutput => Ghost(None),
        }
    }

    /// Reports one raw output line of one task at instant `now_ms`.
    ///
    /// In single-task mode the line is formatted with the task's display
    /// prefix and emitted immediately as exactly one line-output event,
    /// unthrottled, and no buffer is kept. In multi-task mode the raw
    /// line is appended to the task's buffer and a dashboard snapshot is
    /// emitted unless one was emitted within the throttle interval.
    pub fn send_live_output(&mut self, task_id: &str, line: &str, now_ms: u64) -> (emitted: Ghost<
        Option<TaskExecutionNotificationEvent>,
    >)
        requires
            old(self).wf(),
        ensures
            final(self).wf(),
            final(self).spec_same_config(*old(self)),
            final(self).tasks@.len() == old(self).tasks@.len(),
            // Single-task mode: no state changes, exactly one line-output
            // event carrying the formatted line.
            old(self).display_mode == DisplayMode::SingleTaskOutput ==> {
                &&& final(self).tasks == old(self).tasks
                &&& final(self).last_refresh_ms == old(self).last_refresh_ms
                &&& emitted@ matches Option::Some(ev)
                &&& ev is LineOutput
                &&& ev->LineOutput_task_id@ == task_id@
                &&& ev->LineOutput_line@ == spec_line_output_text(old(self).tasks@, task_id@, line@)
            },
            // Multi-task mode: the raw line is appended to the task's
            // buffer; other tasks are untouched.
            old(self).display_mode == DisplayMode::MultipleTasksOutput ==> {
                &&& forall|i: int|
                    0 <= i < old(self).tasks@.len() ==> (
                    if old(self).tasks@[i].task.id@ == task_id@ {
                        spec_output_appended(old(self).tasks@[i], final(self).tasks@[i], line@)
                    } else {
                        final(self).tasks@[i] == old(self).tasks@[i]
                    })
                &&& (spec_throttled(old(self).last_refresh_ms, now_ms) ==> emitted@ is None
                    && final(self).last_refresh_ms == old(self).last_refresh_ms)
                &&& (!spec_throttled(old(self).last_refresh_ms, now_ms)
                    ==> final(self).last_refresh_ms == now_ms)
                &&& (!spec_throttled(old(self).last_refresh_ms, now_ms) && old(
                    self,
                ).cancellation_token is None ==> emitted@ is Some)
            },
            emitted@ matches Option::Some(ev) ==> (ev is TasksUpdate ==> spec_tasks_update_event(
                final(self).tasks@,
                now_ms,
                ev,
            )),
    {
        match self.display_mode {
            DisplayMode::SingleTaskOutput => {
                let found = self.find_task_index(task_id);
                let formatted = match found {
                    Some(i) => format_line(Some(&self.tasks[i]), line),
                    None => format_line(None, line),
                };
                let event = TaskExecutionNotificationEvent::LineOutput {
                    task_id: task_id.to_owned(),
                    line: formatted,
                };
                let ghost record = Some(event);
                self.dispatch(event);
                Ghost(record)
            },
            DisplayMode::MultipleTasksOutput => {
                let found = self.find_task_index(task_id);
                if let Some(i) = found {
                    let ghost pre = self.tasks@;
                    let mut info = self.tasks.remove(i);
                    info.current_output.append(line);
                    info.current_output.append("\n");
                    self.tasks.insert(i, info);
                    proof {
                        assert(self.tasks@.len() == pre.len());
                        assert(forall|j: int|
                            0 <= j < pre.len() && j != i ==> #[trigger] self.tasks@[j] == pre[j]);
                        assert(spec_output_appended(pre[i as int], self.tasks@[i as int], line@));
                        assert(forall|j: int|
                            0 <= j < pre.len() ==> (#[trigger] self.tasks@[j]).task == pre[j].task);
                        assert(pre[i as int].wf());
                        assert(self.tasks@[i as int].wf());
                        assert(self.wf());
                    }
                }
                if !self.should_throttle_refresh(now_ms) {
                    self.refresh_display(now_ms)
                } else {
                    Ghost(None)
                }
            },
        }
    }

    /// Emits the terminal completion event: totals plus one entry per
    /// failed task. Suppressed entirely under cancellation. The host
    /// pauses for [`COMPLETION_NOTIFICATION_DELAY_MS`] afterwards so the
    /// client can render the event before the tracker is dropped.
    pub fn send_tasks_complete(&self) -> (emitted: Ghost<
        Option<TaskExecutionNotificationEvent>,
    >)
        ensures
            self.cancellation_token is None ==> emitted@ is Some,
            emitted@ matches Option::Some(ev) ==> spec_tasks_complete_event(self.tasks@, ev),
    {
        if self.is_cancelled() {
            return Ghost(None);
        }
        let event = build_tasks_complete(&self.tasks);
        let ghost record = Some(event);
        self.dispatch(event);
        Ghost(record)
    }
}

/// A task that was never started stays `Pending`, and any snapshot
/// reports it without a duration. (The ensures of `start_task`,
/// `complete_task` and `send_live_output` leave every task whose id was
/// not targeted unchanged, so "never started" is preserved step by
/// step.)
pub proof fn lemma_pending_task_reported_without_duration(
    t: TaskInfo,
    now_ms: u64,
    e: crate::events::EventTaskInfo,
)
    requires
        t.wf(),
        t.status == TaskStatus::Pending,
        crate::events::spec_event_task_info(t, now_ms, e),
    ensures
        e.status == TaskStatus::Pending,
        e.duration_ms is None,
{
}

/// One `start` followed by `complete` yields exactly one running period
/// and one terminal status: the start instant is set by `start` and then
/// kept, the end instant is set by the first `complete` and then kept,
/// and a second `complete` only overwrites the retained result.
pub proof fn lemma_start_complete_lifecycle(
    t0: TaskInfo,
    r1: TaskResult,
    r2: TaskResult,
    start_ms: u64,
    end1_ms: u64,
    end2_ms: u64,
)
    requires
        t0.wf(),
        t0.status == TaskStatus::Pending,
        r1.wf(),
        r2.wf(),
    ensures
        ({
            let running = spec_start_step(t0, start_ms);
            let done = spec_complete_step(running, r1, end1_ms);
            let done_again = spec_complete_step(done, r2, end2_ms);
            &&& running.wf() && done.wf() && done_again.wf()
            &&& running.status == TaskStatus::Running
            &&& running.start_ms == Option::Some(start_ms)
            &&& running.end_ms is None
            &&& done.status == r1.status && spec_is_terminal(done.status)
            &&& done.start_ms == Option::Some(start_ms)
            &&& done.end_ms == Option::Some(end1_ms)
            &&& done.result == Option::Some(r1)
            &&& done_again.status == r2.status
            &&& done_again.result == Option::Some(r2)
            &&& done_again.start_ms == Option::Some(start_ms)
            &&& done_again.end_ms == Option::Some(end1_ms)
        }),
{
}

/// Output lines within one throttle window coalesce: once a snapshot has
/// been emitted at `refresh_ms`, any further output-driven refresh up to
/// a full interval later is held back, so at most one snapshot is
/// emitted per window.
pub proof fn lemma_refresh_throttled_within_window(refresh_ms: u64, now_ms: u64)
    requires
        now_ms <= refresh_ms + THROTTLE_INTERVAL_MS,
    ensures
        spec_throttled(refresh_ms, now_ms),
{
}

/// Buffered output accumulates in call order: recording two lines one
/// after the other retains both, each with its newline, first line
/// first.
pub proof fn lemma_output_lines_accumulate(
    t0: TaskInfo,
    t1: TaskInfo,
    t2: TaskInfo,
    line1: Seq<char>,
    line2: Seq<char>,
)
    requires
        spec_output_appended(t0, t1, line1),
        spec_output_appended(t1, t2, line2),
    ensures
        t2.current_output@ == t0.current_output@ + line1 + "\n"@ + line2 + "\n"@,
{
}

/// The line text emitted for one output line in single-task mode: the
/// line carries the task's display prefix when the id is known and is
/// forwarded bare otherwise.
pub open spec fn spec_line_output_text(
    tasks: Seq<TaskInfo>,
    task_id: Seq<char>,
    line: Seq<char>,
) -> Seq<char> {
    if exists|i: int| 0 <= i < tasks.len() && #[trigger] tasks[i].task.id@ == task_id {
        let i = choose|i: int| 0 <= i < tasks.len() && #[trigger] tasks[i].task.id@ == task_id;
        spec_format_line_text(Option::Some(tasks[i]), line)
    } else {
        spec_format_line_text(Option::None, line)
    }
}

} // verus!
