use agent_core::events::TaskExecutionNotificationEvent;
use agent_core::task::{DisplayMode, ParamValue, Task, TaskResult, TaskStatus};
use agent_core::tracker::TaskExecutionTracker;
use tokio::sync::mpsc;

fn task(id: &str, task_type: &str) -> Task {
    Task {
        id: id.to_string(),
        task_type: task_type.to_string(),
        command_parameters: None,
    }
}

fn task_with_params(id: &str, task_type: &str, params: Vec<(&str, ParamValue)>) -> Task {
    Task {
        id: id.to_string(),
        task_type: task_type.to_string(),
        command_parameters: Some(
            params.into_iter().map(|(k, v)| (k.to_string(), v)).collect(),
        ),
    }
}

fn completed(data: Option<&str>) -> TaskResult {
    TaskResult {
        status: TaskStatus::Completed,
        error: None,
        data: data.map(|s| s.to_string()),
    }
}

fn failed(error: &str) -> TaskResult {
    TaskResult {
        status: TaskStatus::Failed,
        error: Some(error.to_string()),
        data: None,
    }
}

fn drain(
    rx: &mut mpsc::Receiver<TaskExecutionNotificationEvent>,
) -> Vec<TaskExecutionNotificationEvent> {
    let mut events = Vec::new();
    while let Ok(ev) = rx.try_recv() {
        events.push(ev);
    }
    events
}

#[test]
fn never_started_task_reports_pending_without_duration() {
    let (tx, mut rx) = mpsc::channel(64);
    let tracker = TaskExecutionTracker::new(
        vec![task("a", "shell")],
        DisplayMode::MultipleTasksOutput,
        tx,
        None,
        1_000,
    );
    tracker.refresh_display(5_000);
    let events = drain(&mut rx);
    assert_eq!(events.len(), 1);
    match &events[0] {
        TaskExecutionNotificationEvent::TasksUpdate { stats, tasks } => {
            assert_eq!(stats.total, 1);
            assert_eq!(stats.pending, 1);
            assert_eq!(tasks.len(), 1);
            assert_eq!(tasks[0].id, "a");
            assert!(matches!(tasks[0].status, TaskStatus::Pending));
            assert_eq!(tasks[0].duration_ms, None);
        }
        other => panic!("expected a tasks-update event, got {:?}", other),
    }
}

#[test]
fn start_then_complete_gives_one_running_period_and_final_result_wins() {
    let (tx, mut rx) = mpsc::channel(64);
    let mut tracker = TaskExecutionTracker::new(
        vec![task("a", "shell")],
        DisplayMode::MultipleTasksOutput,
        tx,
        None,
        0,
    );
    tracker.start_task("a", 1_000);
    tracker.complete_task("a", completed(Some("done")), 3_000);
    // A second completion overwrites the retained result but keeps the
    // first end instant.
    tracker.complete_task("a", failed("late failure"), 9_000);
    tracker.refresh_display(10_000);

    let events = drain(&mut rx);
    let last = events.last().expect("expected a snapshot");
    match last {
        TaskExecutionNotificationEvent::TasksUpdate { stats, tasks } => {
            assert_eq!(stats.total, 1);
            assert_eq!(stats.failed, 1);
            assert_eq!(stats.completed, 0);
            assert!(matches!(tasks[0].status, TaskStatus::Failed));
            // Running period: started at 1000, first completed at 3000.
            assert_eq!(tasks[0].duration_ms, Some(2_000));
            assert_eq!(tasks[0].error.as_deref(), Some("late failure"));
        }
        other => panic!("expected a tasks-update event, got {:?}", other),
    }
}

#[test]
fn start_on_running_task_keeps_first_start_instant() {
    let (tx, mut rx) = mpsc::channel(64);
    let mut tracker = TaskExecutionTracker::new(
        vec![task("a", "shell")],
        DisplayMode::MultipleTasksOutput,
        tx,
        None,
        0,
    );
    tracker.start_task("a", 1_000);
    tracker.start_task("a", 2_000);
    tracker.complete_task("a", completed(None), 5_000);
    let events = drain(&mut rx);
    let last = events.last().expect("expected a snapshot");
    match last {
        TaskExecutionNotificationEvent::TasksUpdate { tasks, .. } => {
            assert_eq!(tasks[0].duration_ms, Some(4_000));
        }
        other => panic!("expected a tasks-update event, got {:?}", other),
    }
}

#[test]
fn unknown_task_id_is_a_no_op() {
    let (tx, mut rx) = mpsc::channel(64);
    let mut tracker = TaskExecutionTracker::new(
        vec![task("a", "shell")],
        DisplayMode::MultipleTasksOutput,
        tx,
        None,
        0,
    );
    tracker.start_task("missing", 1_000);
    tracker.complete_task("missing", failed("boom"), 2_000);
    tracker.refresh_display(3_000);
    let events = drain(&mut rx);
    for ev in &events {
        match ev {
            TaskExecutionNotificationEvent::TasksUpdate { stats, tasks } => {
                assert_eq!(stats.pending, 1);
                assert_eq!(stats.running, 0);
                assert_eq!(stats.failed, 0);
                assert!(matches!(tasks[0].status, TaskStatus::Pending));
            }
            other => panic!("expected tasks-update events only, got {:?}", other),
        }
    }
}

#[test]
fn output_lines_in_one_throttle_window_coalesce() {
    let (tx, mut rx) = mpsc::channel(64);
    let mut tracker = TaskExecutionTracker::new(
        vec![task("a", "shell"), task("b", "shell")],
        DisplayMode::MultipleTasksOutput,
        tx,
        None,
        1_000,
    );
    // First record: a full interval has passed, so one snapshot goes out.
    tracker.send_live_output("a", "one", 2_000);
    // Two more records inside the 250 ms window: buffered, no snapshot.
    tracker.send_live_output("a", "two", 2_100);
    tracker.send_live_output("a", "three", 2_250);
    let events = drain(&mut rx);
    assert_eq!(events.len(), 1, "at most one snapshot per throttle window");

    // The buffer still holds all three lines, in call order.
    let output = tracker.get_current_output("a").expect("task is known");
    assert_eq!(output, "one\ntwo\nthree\n");
    assert_eq!(tracker.get_current_output("b").as_deref(), Some(""));
    assert_eq!(tracker.get_current_output("missing"), None);

    // Once the window has passed, the next record emits again.
    tracker.send_live_output("a", "four", 2_251);
    let events = drain(&mut rx);
    assert_eq!(events.len(), 1);
}

#[test]
fn single_task_mode_emits_one_prefixed_line_per_record() {
    let (tx, mut rx) = mpsc::channel(64);
    let mut tracker = TaskExecutionTracker::new(
        vec![task_with_params(
            "t1",
            "shell",
            vec![("name", ParamValue::Text("lint".to_string()))],
        )],
        DisplayMode::SingleTaskOutput,
        tx,
        None,
        0,
    );
    tracker.send_live_output("t1", "checking", 10);
    tracker.send_live_output("t1", "done", 20);
    let events = drain(&mut rx);
    assert_eq!(events.len(), 2, "exactly one line-output event per record");
    match &events[0] {
        TaskExecutionNotificationEvent::LineOutput { task_id, line } => {
            assert_eq!(task_id, "t1");
            assert_eq!(line, "[lint (shell) name=lint] checking");
        }
        other => panic!("expected a line-output event, got {:?}", other),
    }
    // Single-task mode keeps no buffer.
    assert_eq!(tracker.get_current_output("t1").as_deref(), Some(""));
}

#[test]
fn single_task_mode_omits_empty_metadata_brackets() {
    let (tx, mut rx) = mpsc::channel(64);
    let mut tracker = TaskExecutionTracker::new(
        vec![task("t2", "shell")],
        DisplayMode::SingleTaskOutput,
        tx,
        None,
        0,
    );
    tracker.send_live_output("t2", "hello", 10);
    let events = drain(&mut rx);
    assert_eq!(events.len(), 1);
    match &events[0] {
        TaskExecutionNotificationEvent::LineOutput { task_id, line } => {
            assert_eq!(task_id, "t2");
            // No name parameter: the display name falls back to the id,
            // and the empty metadata suffix is omitted.
            assert_eq!(line, "[t2 (shell)] hello");
        }
        other => panic!("expected a line-output event, got {:?}", other),
    }
}

#[test]
fn tasks_complete_reports_failed_task_count() {
    let (tx, mut rx) = mpsc::channel(64);
    let mut tracker = TaskExecutionTracker::new(
        vec![task("a", "shell"), task("b", "shell"), task("c", "shell")],
        DisplayMode::MultipleTasksOutput,
        tx,
        None,
        0,
    );
    tracker.start_task("a", 10);
    tracker.complete_task("a", failed("first"), 20);
    tracker.start_task("b", 10);
    tracker.complete_task("b", failed("second"), 30);
    drain(&mut rx);

    tracker.send_tasks_complete();
    let events = drain(&mut rx);
    assert_eq!(events.len(), 1, "exactly one tasks-complete event");
    match &events[0] {
        TaskExecutionNotificationEvent::TasksComplete { stats, failed_tasks } => {
            assert_eq!(stats.total, 3);
            assert_eq!(stats.completed, 0);
            assert_eq!(stats.failed, 2);
            assert_eq!(failed_tasks.len(), 2);
            assert_eq!(failed_tasks[0].id, "a");
            assert_eq!(failed_tasks[0].error.as_deref(), Some("first"));
            assert_eq!(failed_tasks[1].id, "b");
            assert_eq!(failed_tasks[1].error.as_deref(), Some("second"));
        }
        other => panic!("expected a tasks-complete event, got {:?}", other),
    }
}

#[test]
fn three_task_scenario_reports_totals_and_failed_list() {
    let (tx, mut rx) = mpsc::channel(64);
    let mut tracker = TaskExecutionTracker::new(
        vec![task("A", "shell"), task("B", "shell"), task("C", "shell")],
        DisplayMode::MultipleTasksOutput,
        tx,
        None,
        0,
    );
    tracker.start_task("A", 100);
    tracker.send_live_output("A", "x", 150);
    tracker.complete_task("A", completed(None), 200);
    tracker.start_task("B", 100);
    tracker.complete_task("B", failed("boom"), 300);
    // C stays pending.
    drain(&mut rx);

    tracker.send_tasks_complete();
    let events = drain(&mut rx);
    assert_eq!(events.len(), 1);
    match &events[0] {
        TaskExecutionNotificationEvent::TasksComplete { stats, failed_tasks } => {
            assert_eq!(stats.total, 3);
            assert_eq!(stats.completed, 1);
            assert_eq!(stats.failed, 1);
            assert_eq!(failed_tasks.len(), 1);
            assert_eq!(failed_tasks[0].id, "B");
            assert_eq!(failed_tasks[0].error.as_deref(), Some("boom"));
        }
        other => panic!("expected a tasks-complete event, got {:?}", other),
    }
    assert_eq!(tracker.get_current_output("A").as_deref(), Some("x\n"));
}

#[test]
fn status_changes_force_unthrottled_snapshots() {
    let (tx, mut rx) = mpsc::channel(64);
    let mut tracker = TaskExecutionTracker::new(
        vec![task("a", "shell")],
        DisplayMode::MultipleTasksOutput,
        tx,
        None,
        1_000,
    );
    // All within what would be one throttle window for output lines.
    tracker.start_task("a", 1_010);
    tracker.complete_task("a", completed(None), 1_020);
    let events = drain(&mut rx);
    assert_eq!(events.len(), 2, "status changes bypass the throttle");
    // And the forced refresh resets the window: the next output line
    // refreshes immediately too.
    tracker.send_live_output("a", "tail", 1_030);
    let events = drain(&mut rx);
    assert_eq!(events.len(), 1);
}

#[test]
fn cancellation_suppresses_aggregate_events() {
    let token = tokio_util::sync::CancellationToken::new();
    token.cancel();
    let (tx, mut rx) = mpsc::channel(64);
    let mut tracker = TaskExecutionTracker::new(
        vec![task("a", "shell")],
        DisplayMode::MultipleTasksOutput,
        tx,
        Some(token),
        0,
    );
    tracker.start_task("a", 1_000);
    tracker.refresh_display(2_000);
    tracker.send_tasks_complete();
    let events = drain(&mut rx);
    assert!(events.is_empty(), "a cancelled tracker emits no aggregates");
}

#[test]
fn metadata_joins_parameters_in_order() {
    let (tx, mut rx) = mpsc::channel(64);
    let mut tracker = TaskExecutionTracker::new(
        vec![task_with_params(
            "t",
            "sub_recipe",
            vec![
                ("name", ParamValue::Text("fetch".to_string())),
                ("retries", ParamValue::Rendered("3".to_string())),
            ],
        )],
        DisplayMode::SingleTaskOutput,
        tx,
        None,
        0,
    );
    tracker.send_live_output("t", "go", 10);
    let events = drain(&mut rx);
    match &events[0] {
        TaskExecutionNotificationEvent::LineOutput { line, .. } => {
            assert_eq!(line, "[fetch (sub_recipe) name=fetch,retries=3] go");
        }
        other => panic!("expected a line-output event, got {:?}", other),
    }
}

#[test]
fn full_channel_drops_events_without_failing() {
    let (tx, _rx) = mpsc::channel(1);
    let mut tracker = TaskExecutionTracker::new(
        vec![task("a", "shell")],
        DisplayMode::MultipleTasksOutput,
        tx,
        None,
        0,
    );
    // The first event fills the channel; the rest are dropped silently.
    tracker.start_task("a", 1_000);
    tracker.complete_task("a", completed(None), 2_000);
    tracker.send_tasks_complete();
    // State is still consistent.
    assert_eq!(tracker.get_current_output("a").as_deref(), Some(""));
}
