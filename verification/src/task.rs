//! Data model for one unit of concurrent subagent work.
//!
//! A task is described once, up front; its execution state (status, start
//! and end instants, result, buffered output) lives in a [`TaskInfo`] and
//! changes only through the tracker.

use vstd::prelude::*;

verus! {

/// A display value attached to a task's command parameters.
///
/// JSON parameter values reach this crate already rendered to text: a
/// JSON string is carried verbatim in `Text`, any other JSON value is
/// carried in `Rendered` as its generic textual representation. The
/// conversion happens at the host boundary; this crate only reads the
/// text.
#[derive(Clone, Debug)]
pub enum ParamValue {
    Text(String),
    Rendered(String),
}

/// External description of one unit of concurrent work.
#[derive(Clone, Debug)]
pub struct Task {
    /// Identifier, unique within one tracker.
    pub id: String,
    /// Task-type label, used only for display.
    pub task_type: String,
    /// Optional bag of named command parameters, used only for display.
    pub command_parameters: Option<Vec<(String, ParamValue)>>,
}

/// Lifecycle states of a task. `Completed` and `Failed` are terminal.
#[derive(Clone, Copy, Debug, PartialEq, Eq, Structural)]
pub enum TaskStatus {
    Pending,
    Running,
    Completed,
    Failed,
}

/// Whether a status is one of the two terminal states.
pub open spec fn spec_is_terminal(status: TaskStatus) -> bool {
    status == TaskStatus::Completed || status == TaskStatus::Failed
}

/// Outcome reported when a task finishes.
#[derive(Clone, Debug)]
pub struct TaskResult {
    /// Terminal status: `Completed` or `Failed`.
    pub status: TaskStatus,
    /// Error payload, meaningful when the task failed.
    pub error: Option<String>,
    /// Structured result payload (rendered to text at the host boundary),
    /// meaningful when the task completed.
    pub data: Option<String>,
}

impl TaskResult {
    /// A result is well formed when its status is terminal.
    pub open spec fn wf(self) -> bool {
        spec_is_terminal(self.status)
    }
}

/// One task plus its mutable execution state.
#[derive(Clone, Debug)]
pub struct TaskInfo {
    pub task: Task,
    pub status: TaskStatus,
    /// Instant the task started, in milliseconds; set exactly once, by `start`.
    pub start_ms: Option<u64>,
    /// Instant the task finished, in milliseconds; set at most once, only
    /// after `start_ms` and only when the status becomes terminal.
    pub end_ms: Option<u64>,
    /// Outcome, set only at completion (a second completion overwrites it).
    pub result: Option<TaskResult>,
    /// Buffer of raw output lines, appended to only in multi-task mode.
    pub current_output: String,
}

impl TaskInfo {
    /// Internal consistency of one task's execution state.
    pub open spec fn wf(self) -> bool {
        &&& self.status == TaskStatus::Pending ==> self.start_ms is None && self.result is None
        &&& self.status == TaskStatus::Running ==> self.start_ms is Some && self.result is None
        &&& self.end_ms is Some ==> self.start_ms is Some && spec_is_terminal(self.status)
        &&& self.result is Some <==> spec_is_terminal(self.status)
        &&& self.result is Some ==> self.result->0.status == self.status
    }
}

/// Reported duration of a task at instant `now_ms`: elapsed from start
/// to end once finished, from start to `now_ms` while still running,
/// absent for a task that never started.
pub open spec fn spec_duration_ms(t: TaskInfo, now_ms: u64) -> Option<u64> {
    match t.start_ms {
        Option::None => Option::None,
        Option::Some(s) => match t.end_ms {
            Option::Some(e) => Option::Some(e.saturating_sub(s)),
            Option::None => Option::Some(now_ms.saturating_sub(s)),
        },
    }
}

/// Fresh execution state for a task: `Pending`, no instants, no result,
/// empty output buffer.
pub open spec fn spec_initial_info(task: Task, info: TaskInfo) -> bool {
    &&& info.task == task
    &&& info.status == TaskStatus::Pending
    &&& info.start_ms is None
    &&& info.end_ms is None
    &&& info.result is None
    &&& info.current_output@ == Seq::<char>::empty()
}

/// How one task is displayed: its output streamed line by line (single
/// task in flight) or aggregated into periodic dashboard snapshots
/// (several tasks in flight).
#[derive(Clone, Debug, PartialEq, Eq, Structural)]
pub enum DisplayMode {
    MultipleTasksOutput,
    SingleTaskOutput,
}

/// Text of one `key=value` metadata entry.
pub open spec fn spec_param_text(p: (String, ParamValue)) -> Seq<char> {
    p.0@ + "="@ + spec_param_value_text(p.1)
}

/// The display text a parameter value carries.
pub open spec fn spec_param_value_text(v: ParamValue) -> Seq<char> {
    match v {
        ParamValue::Text(s) => s@,
        ParamValue::Rendered(s) => s@,
    }
}

/// Comma-joined `key=value` list of a parameter sequence.
pub open spec fn spec_metadata_text(params: Seq<(String, ParamValue)>) -> Seq<char>
    decreases params.len(),
{
    if params.len() == 0 {
        Seq::empty()
    } else if params.len() == 1 {
        spec_param_text(params[0])
    } else {
        spec_metadata_text(params.drop_last()) + ","@ + spec_param_text(params.last())
    }
}

/// Metadata string of a task: empty when the task has no parameters (or
/// an empty bag), the comma-joined `key=value` list otherwise.
pub open spec fn spec_task_metadata(task: Task) -> Seq<char> {
    match task.command_parameters {
        Option::None => Seq::empty(),
        Option::Some(ps) => spec_metadata_text(ps@),
    }
}

/// First `name` parameter carrying a plain string, if any.
pub open spec fn spec_find_name_param(params: Seq<(String, ParamValue)>) -> Option<Seq<char>>
    decreases params.len(),
{
    if params.len() == 0 {
        Option::None
    } else if params[0].0@ == "name"@ && params[0].1 is Text {
        Option::Some(params[0].1->Text_0@)
    } else {
        spec_find_name_param(params.drop_first())
    }
}

/// Display name of a task: the string value of a command parameter named
/// `name` when one is given, otherwise the task id.
pub open spec fn spec_task_name(task: Task) -> Seq<char> {
    match task.command_parameters {
        Option::None => task.id@,
        Option::Some(ps) => match spec_find_name_param(ps@) {
            Option::Some(n) => n,
            Option::None => task.id@,
        },
    }
}

/// Prefix-formatted output line for single-task streaming:
/// `[name (type)] line` when the task's metadata string is empty,
/// `[name (type) metadata] line` otherwise. A line of an unknown task is
/// forwarded unchanged.
pub open spec fn spec_format_line_text(info: Option<TaskInfo>, line: Seq<char>) -> Seq<char> {
    match info {
        Option::None => line,
        Option::Some(t) => {
            let name = spec_task_name(t.task);
            let ty = t.task.task_type@;
            let md = spec_task_metadata(t.task);
            if md.len() == 0 {
                "["@ + name + " ("@ + ty + ")] "@ + line
            } else {
                "["@ + name + " ("@ + ty + ") "@ + md + "] "@ + line
            }
        },
    }
}

/// Formats one output line with a task's display prefix.
pub fn format_line(task_info: Option<&TaskInfo>, line: &str) -> (r: String)
    ensures
        r@ == match task_info {
            Option::Some(t) => spec_format_line_text(Option::Some(*t), line@),
            Option::None => spec_format_line_text(Option::None, line@),
        },
{
    match task_info {
        None => line.to_owned(),
        Some(t) => {
            let task_name = get_task_name(t);
            let metadata = format_task_metadata(t);
            let mut out = String::from_str("[");
            out.append(task_name.as_str());
            out.append(" (");
            out.append(t.task.task_type.as_str());
            if metadata.as_str().is_empty() {
                out.append(")] ");
            } else {
                out.append(") ");
                out.append(metadata.as_str());
                out.append("] ");
            }
            out.append(line);
            proof {
                assert(out@ =~= spec_format_line_text(Option::Some(*t), line@));
            }
            out
        },
    }
}

fn is_name_key(k: &String) -> (r: bool)
    ensures
        r == (k@ == "name"@),
{
    let name_key = String::from_str("name");
    *k == name_key
}

/// Renders a task's metadata string: the comma-joined `key=value` list of
/// its command parameters, or the empty string when there are none.
#[verifier::loop_isolation(false)]
pub fn format_task_metadata(task_info: &TaskInfo) -> (r: String)
    ensures
        r@ == spec_task_metadata(task_info.task),
{
    match &task_info.task.command_parameters {
        None => String::new(),
        Some(params) => {
            let mut out = String::new();
            let n = params.len();
            let mut i: usize = 0;
            while i < n
                invariant
                    n == params@.len(),
                    i <= n,
                    out@ == spec_metadata_text(params@.subrange(0, i as int)),
                decreases n - i,
            {
                let ghost prefix = params@.subrange(0, i as int);
                let ghost next_prefix = params@.subrange(0, i as int + 1);
                if i > 0 {
                    out.append(",");
                }
                out.append(params[i].0.as_str());
                out.append("=");
                match &params[i].1 {
                    ParamValue::Text(s) => out.append(s.as_str()),
                    ParamValue::Rendered(s) => out.append(s.as_str()),
                }
                proof {
                    assert(next_prefix.drop_last() =~= prefix);
                    assert(next_prefix.last() == params@[i as int]);
                    assert(out@ =~= spec_metadata_text(next_prefix));
                }
                i += 1;
            }
            proof {
                assert(params@.subrange(0, params@.len() as int) =~= params@);
            }
            out
        },
    }
}

/// Display name of a task, falling back from an explicit `name` command
/// parameter to the task id.
#[verifier::loop_isolation(false)]
pub fn get_task_name(task_info: &TaskInfo) -> (r: String)
    ensures
        r@ == spec_task_name(task_info.task),
{
    match &task_info.task.command_parameters {
        None => task_info.task.id.clone(),
        Some(params) => {
            let n = params.len();
            proof {
                assert(params@.subrange(0, n as int) =~= params@);
            }
            let mut i: usize = 0;
            while i < n
                invariant
                    n == params@.len(),
                    i <= n,
                    spec_find_name_param(params@) == spec_find_name_param(
                        params@.subrange(i as int, n as int),
                    ),
                decreases n - i,
            {
                let ghost rest = params@.subrange(i as int, n as int);
                let key_matches = is_name_key(&params[i].0);
                if key_matches {
                    if let ParamValue::Text(s) = &params[i].1 {
                        proof {
                            assert(rest[0] == params@[i as int]);
                            assert(spec_find_name_param(rest) == Option::Some(
                                params@[i as int].1->Text_0@,
                            ));
                        }
                        return s.clone();
                    }
                }
                proof {
                    assert(rest[0] == params@[i as int]);
                    assert(rest.drop_first() =~= params@.subrange(i as int + 1, n as int));
                }
                i += 1;
            }
            proof {
                assert(params@.subrange(n as int, n as int) =~= Seq::<(
                    String,
                    ParamValue,
                )>::empty());
            }
            task_info.task.id.clone()
        },
    }
}

} // verus!
