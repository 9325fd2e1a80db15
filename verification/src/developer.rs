//! Interface types and decision rules of the developer tool surface:
//! parameter shapes of the callable tools, command dispatch for the text
//! editor, shell output limits and truncation, and prompt-template
//! bookkeeping.
//!
//! The file system, the shell process and the screen belong to the host;
//! what is validated, dispatched and formatted is decided here.

use vstd::prelude::*;

use crate::strutil::{
    spec_contains_sub, spec_replace_all, spec_split_lines, spec_u64_text, contains_sub,
    replace_all, split_lines, str_eq, u64_to_string,
};

verus! {

/// Parameters for the screen-capture tool.
#[derive(Debug)]
pub struct ScreenCaptureParams {
    /// The display number to capture (0 is the main display).
    pub display: Option<u64>,
    /// Exact title of the window to capture instead of a display.
    pub window_title: Option<String>,
}

/// Parameters for the text-editor tool.
#[derive(Debug)]
pub struct TextEditorParams {
    /// Absolute path to the file or directory.
    pub path: String,
    /// The operation to perform: `view`, `write`, `str_replace`,
    /// `insert` or `undo_edit`.
    pub command: String,
    /// Two 1-indexed line numbers bounding a view; -1 as the end means
    /// to the end of the file.
    pub view_range: Option<Vec<i64>>,
    /// Content for the `write` command.
    pub file_text: Option<String>,
    /// String to replace, for `str_replace`.
    pub old_str: Option<String>,
    /// Replacement, for `str_replace` and `insert`.
    pub new_str: Option<String>,
    /// Line after which to insert (0 for the beginning), for `insert`.
    pub insert_line: Option<i64>,
}

/// Parameters for the shell tool.
#[derive(Clone, Debug)]
pub struct ShellParams {
    /// The command string to execute in the shell.
    pub command: String,
}

/// Parameters for the image-processor tool.
#[derive(Clone, Debug)]
pub struct ImageProcessorParams {
    /// Absolute path to the image file to process.
    pub path: String,
}

/// Template structure for prompt definitions.
#[derive(Debug)]
pub struct PromptTemplate {
    pub id: String,
    pub template: String,
    pub arguments: Vec<PromptArgumentTemplate>,
}

/// Template structure for prompt arguments.
#[derive(Debug)]
pub struct PromptArgumentTemplate {
    pub name: String,
    pub description: Option<String>,
    pub required: Option<bool>,
}

/// The validated operation a text-editor call asks for.
#[derive(Debug)]
pub enum TextEditorAction {
    View { view_range: Option<(i64, i64)> },
    Write { file_text: String },
    StrReplace { old_str: String, new_str: String },
    Insert { insert_line: i64, new_str: String },
    UndoEdit,
}

/// Why a text-editor call is rejected before touching any file.
#[derive(Clone, Copy, Debug, PartialEq, Eq, Structural)]
pub enum TextEditorError {
    MissingFileText,
    MissingOldStr,
    MissingNewStr,
    MissingInsertLine,
    UnknownCommand,
}

impl TextEditorError {
    /// The diagnostic text reported for this rejection.
    pub fn message(&self) -> (r: String)
        ensures
            r@ == match *self {
                TextEditorError::MissingFileText
                    => "Missing 'file_text' parameter for write command"@,
                TextEditorError::MissingOldStr
                    => "Missing 'old_str' parameter for str_replace command"@,
                TextEditorError::MissingNewStr => "Missing 'new_str' parameter"@,
                TextEditorError::MissingInsertLine => "Missing 'insert_line' parameter"@,
                TextEditorError::UnknownCommand => "Unknown command"@,
            },
    {
        match self {
            TextEditorError::MissingFileText => String::from_str(
                "Missing 'file_text' parameter for write command",
            ),
            TextEditorError::MissingOldStr => String::from_str(
                "Missing 'old_str' parameter for str_replace command",
            ),
            TextEditorError::MissingNewStr => String::from_str("Missing 'new_str' parameter"),
            TextEditorError::MissingInsertLine => String::from_str(
                "Missing 'insert_line' parameter",
            ),
            TextEditorError::UnknownCommand => String::from_str("Unknown command"),
        }
    }
}

/// What a text-editor call resolves to: the validated action, or the
/// first missing or unknown piece of the request. A `view` range is
/// passed on only when it has exactly two entries.
pub open spec fn spec_text_editor_plan(p: TextEditorParams) -> Result<
    TextEditorAction,
    TextEditorError,
> {
    if p.command@ == "view"@ {
        Result::Ok(
            TextEditorAction::View {
                view_range: match p.view_range {
                    Option::Some(vr) => if vr@.len() == 2 {
                        Option::Some((vr@[0], vr@[1]))
                    } else {
                        Option::None
                    },
                    Option::None => Option::None,
                },
            },
        )
    } else if p.command@ == "write"@ {
        match p.file_text {
            Option::Some(t) => Result::Ok(TextEditorAction::Write { file_text: t }),
            Option::None => Result::Err(TextEditorError::MissingFileText),
        }
    } else if p.command@ == "str_replace"@ {
        match p.old_str {
            Option::None => Result::Err(TextEditorError::MissingOldStr),
            Option::Some(o) => match p.new_str {
                Option::None => Result::Err(TextEditorError::MissingNewStr),
                Option::Some(n) => Result::Ok(
                    TextEditorAction::StrReplace { old_str: o, new_str: n },
                ),
            },
        }
    } else if p.command@ == "insert"@ {
        match p.insert_line {
            Option::None => Result::Err(TextEditorError::MissingInsertLine),
            Option::Some(l) => match p.new_str {
                Option::None => Result::Err(TextEditorError::MissingNewStr),
                Option::Some(n) => Result::Ok(
                    TextEditorAction::Insert { insert_line: l, new_str: n },
                ),
            },
        }
    } else if p.command@ == "undo_edit"@ {
        Result::Ok(TextEditorAction::UndoEdit)
    } else {
        Result::Err(TextEditorError::UnknownCommand)
    }
}

/// Validates a text-editor call and resolves which operation it asks
/// for, with exactly the parameters that operation needs.
pub fn plan_text_editor(params: TextEditorParams) -> (r: Result<TextEditorAction, TextEditorError>)
    ensures
        r == spec_text_editor_plan(params),
{
    if str_eq(params.command.as_str(), "view") {
        let view_range = match &params.view_range {
            Some(vr) => if vr.len() == 2 {
                Some((vr[0], vr[1]))
            } else {
                None
            },
            None => None,
        };
        Ok(TextEditorAction::View { view_range })
    } else if str_eq(params.command.as_str(), "write") {
        match params.file_text {
            Some(t) => Ok(TextEditorAction::Write { file_text: t }),
            None => Err(TextEditorError::MissingFileText),
        }
    } else if str_eq(params.command.as_str(), "str_replace") {
        match params.old_str {
            None => Err(TextEditorError::MissingOldStr),
            Some(o) => match params.new_str {
                None => Err(TextEditorError::MissingNewStr),
                Some(n) => Ok(TextEditorAction::StrReplace { old_str: o, new_str: n }),
            },
        }
    } else if str_eq(params.command.as_str(), "insert") {
        match params.insert_line {
            None => Err(TextEditorError::MissingInsertLine),
            Some(l) => match params.new_str {
                None => Err(TextEditorError::MissingNewStr),
                Some(n) => Ok(TextEditorAction::Insert { insert_line: l, new_str: n }),
            },
        }
    } else if str_eq(params.command.as_str(), "undo_edit") {
        Ok(TextEditorAction::UndoEdit)
    } else {
        Err(TextEditorError::UnknownCommand)
    }
}

/// Most characters a shell command's output may have.
pub const MAX_SHELL_OUTPUT_CHARS: usize = 400000;

/// The diagnostic for an oversized shell output.
pub open spec fn spec_output_size_error(command: Seq<char>, char_count: int) -> Seq<char> {
    "Shell output from command '"@ + command + "' has too many characters ("@ + spec_u64_text(
        char_count,
    ) + "). Maximum character count is "@ + spec_u64_text(MAX_SHELL_OUTPUT_CHARS as int) + "."@
}

/// Validates that a shell output stays under the size limit; an
/// oversized output is rejected with a diagnostic naming the command and
/// the counts.
pub fn validate_shell_output_size(command: &str, output: &str) -> (r: Result<(), String>)
    ensures
        match r {
            Result::Ok(()) => output@.len() <= MAX_SHELL_OUTPUT_CHARS,
            Result::Err(msg) => output@.len() > MAX_SHELL_OUTPUT_CHARS && msg@
                == spec_output_size_error(command@, output@.len() as int),
        },
{
    let char_count = output.unicode_len();
    if char_count <= MAX_SHELL_OUTPUT_CHARS {
        Ok(())
    } else {
        let mut msg = String::from_str("Shell output from command '");
        msg.append(command);
        msg.append("' has too many characters (");
        let count_text = u64_to_string(char_count as u64);
        msg.append(count_text.as_str());
        msg.append("). Maximum character count is ");
        let max_text = u64_to_string(MAX_SHELL_OUTPUT_CHARS as u64);
        msg.append(max_text.as_str());
        msg.append(".");
        proof {
            assert(msg@ =~= spec_output_size_error(command@, output@.len() as int));
        }
        Err(msg)
    }
}

/// How many trailing lines of an oversized shell output are kept.
pub const SHELL_OUTPUT_KEPT_LINES: usize = 100;

/// Lines joined with a newline between each pair.
pub open spec fn spec_join_lines(lines: Seq<Seq<char>>) -> Seq<char>
    decreases lines.len(),
{
    if lines.len() == 0 {
        Seq::empty()
    } else if lines.len() == 1 {
        lines[0]
    } else {
        spec_join_lines(lines.drop_last()) + "\n"@ + lines.last()
    }
}

/// Joins the lines from `start` on with newlines.
#[verifier::loop_isolation(false)]
fn join_lines_from(lines: &Vec<String>, start: usize) -> (r: String)
    requires
        start <= lines@.len(),
    ensures
        r@ == spec_join_lines(
            crate::strutil::spec_line_views(lines@).subrange(start as int, lines@.len() as int),
        ),
{
    let n = lines.len();
    let ghost views = crate::strutil::spec_line_views(lines@);
    let mut out = String::new();
    let mut i: usize = start;
    proof {
        assert(views.subrange(start as int, start as int).len() == 0);
        assert(out@ =~= spec_join_lines(views.subrange(start as int, start as int)));
    }
    while i < n
        invariant
            start <= i <= n,
            out@ == spec_join_lines(views.subrange(start as int, i as int)),
        decreases n - i,
    {
        let ghost prefix = views.subrange(start as int, i as int);
        let ghost next_prefix = views.subrange(start as int, i as int + 1);
        proof {
            assert(next_prefix.drop_last() =~= prefix);
            assert(next_prefix.last() == views[i as int]);
            assert(views[i as int] == lines@[i as int]@);
        }
        if i > start {
            out.append("\n");
        }
        out.append(lines[i].as_str());
        proof {
            assert(out@ =~= spec_join_lines(next_prefix));
        }
        i += 1;
    }
    out
}

/// The trailing lines an oversized output is cut down to: the last
/// [`SHELL_OUTPUT_KEPT_LINES`] lines, joined with newlines.
pub open spec fn spec_kept_tail(output: Seq<char>) -> Seq<char> {
    let lines = spec_split_lines(output);
    let start = if lines.len() <= SHELL_OUTPUT_KEPT_LINES {
        0int
    } else {
        lines.len() - SHELL_OUTPUT_KEPT_LINES
    };
    spec_join_lines(lines.subrange(start, lines.len() as int))
}

/// The private note shown to the assistant for a truncated output.
pub open spec fn spec_truncated_assistant_note(
    output: Seq<char>,
    line_count: int,
    tmp_path: Seq<char>,
) -> Seq<char> {
    "private note: output was "@ + spec_u64_text(line_count)
        + " lines and we are only showing the most recent lines, remainder of lines in "@
        + tmp_path
        + " do not show tmp file to user, that file can be searched if extra context needed to fulfill request. truncated output: \n"@
        + spec_kept_tail(output)
}

/// The note shown to the user for a truncated output.
pub open spec fn spec_truncated_user_note(output: Seq<char>, line_count: int) -> Seq<char> {
    "NOTE: Output was "@ + spec_u64_text(line_count)
        + " lines, showing only the last 100 lines.\n\n"@ + spec_kept_tail(output)
}

/// Cuts an oversized shell output down for display: an output of more
/// than [`SHELL_OUTPUT_KEPT_LINES`] lines keeps only its trailing lines,
/// under a note for the assistant naming the file the host saved the
/// full output to and a note for the user; a short output passes through
/// unchanged on both sides.
#[verifier::loop_isolation(false)]
pub fn process_shell_output(output: &str, tmp_path: &str) -> (r: (String, String))
    ensures
        ({
            let lines = spec_split_lines(output@);
            if lines.len() > SHELL_OUTPUT_KEPT_LINES {
                &&& r.0@ == spec_truncated_assistant_note(output@, lines.len() as int, tmp_path@)
                &&& r.1@ == spec_truncated_user_note(output@, lines.len() as int)
            } else {
                &&& r.0@ == output@
                &&& r.1@ == output@
            }
        }),
{
    let lines = split_lines(output);
    let line_count = lines.len();
    proof {
        assert(crate::strutil::spec_line_views(lines@).len() == lines@.len());
    }
    if line_count > SHELL_OUTPUT_KEPT_LINES {
        let tail = join_lines_from(&lines, line_count - SHELL_OUTPUT_KEPT_LINES);
        let count_text = u64_to_string(line_count as u64);

        let mut assistant_note = String::from_str("private note: output was ");
        assistant_note.append(count_text.as_str());
        assistant_note.append(
            " lines and we are only showing the most recent lines, remainder of lines in ",
        );
        assistant_note.append(tmp_path);
        assistant_note.append(
            " do not show tmp file to user, that file can be searched if extra context needed to fulfill request. truncated output: \n",
        );
        assistant_note.append(tail.as_str());

        let mut user_note = String::from_str("NOTE: Output was ");
        user_note.append(count_text.as_str());
        user_note.append(" lines, showing only the last 100 lines.\n\n");
        user_note.append(tail.as_str());

        proof {
            assert(assistant_note@ =~= spec_truncated_assistant_note(
                output@,
                spec_split_lines(output@).len() as int,
                tmp_path@,
            ));
            assert(user_note@ =~= spec_truncated_user_note(
                output@,
                spec_split_lines(output@).len() as int,
            ));
        }
        (assistant_note, user_note)
    } else {
        (output.to_owned(), output.to_owned())
    }
}

/// Longest accepted prompt template.
pub const MAX_PROMPT_TEMPLATE_LENGTH: usize = 10000;

/// Longest accepted prompt argument key or value.
pub const MAX_PROMPT_ARGUMENT_LENGTH: usize = 1000;

/// Why a prompt request is rejected before the template is filled.
#[derive(Clone, Copy, Debug, PartialEq, Eq, Structural)]
pub enum PromptError {
    TemplateTooLong,
    InvalidArgumentKey,
    ArgumentValueTooLong,
    UnsafePattern,
    MissingRequiredArgument,
}

impl PromptError {
    /// The diagnostic text reported for this rejection.
    pub fn message(&self) -> (r: String)
        ensures
            r@ == match *self {
                PromptError::TemplateTooLong
                    => "Prompt template exceeds maximum allowed length"@,
                PromptError::InvalidArgumentKey
                    => "Argument keys must be between 1-1000 characters"@,
                PromptError::ArgumentValueTooLong
                    => "Argument values must not exceed 1000 characters"@,
                PromptError::UnsafePattern
                    => "Arguments contain potentially unsafe pattern"@,
                PromptError::MissingRequiredArgument => "Missing required argument"@,
            },
    {
        match self {
            PromptError::TemplateTooLong => String::from_str(
                "Prompt template exceeds maximum allowed length",
            ),
            PromptError::InvalidArgumentKey => String::from_str(
                "Argument keys must be between 1-1000 characters",
            ),
            PromptError::ArgumentValueTooLong => String::from_str(
                "Argument values must not exceed 1000 characters",
            ),
            PromptError::UnsafePattern => String::from_str(
                "Arguments contain potentially unsafe pattern",
            ),
            PromptError::MissingRequiredArgument => String::from_str("Missing required argument"),
        }
    }
}

/// Whether a piece of text holds one of the patterns that are refused in
/// prompt arguments: path escapes, double slashes or backslashes, script
/// tags, and brace pairs that could nest into the template syntax.
pub open spec fn spec_has_unsafe_pattern(s: Seq<char>) -> bool {
    ||| spec_contains_sub(s, "../"@)
    ||| spec_contains_sub(s, "//"@)
    ||| spec_contains_sub(s, "\\\\"@)
    ||| spec_contains_sub(s, "<script>"@)
    ||| spec_contains_sub(s, "{{"@)
    ||| spec_contains_sub(s, "}}"@)
}

/// Whether a piece of text holds a refused pattern.
fn has_unsafe_pattern(s: &str) -> (r: bool)
    ensures
        r == spec_has_unsafe_pattern(s@),
{
    contains_sub(s, "../") || contains_sub(s, "//") || contains_sub(s, "\\\\") || contains_sub(
        s,
        "<script>",
    ) || contains_sub(s, "{{") || contains_sub(s, "}}")
}

/// What is wrong with one prompt argument, if anything: an empty or
/// overlong key, an overlong value, or a refused pattern in either.
pub open spec fn spec_arg_error(key: Seq<char>, value: Seq<char>) -> Option<PromptError> {
    if key.len() < 1 || key.len() > MAX_PROMPT_ARGUMENT_LENGTH {
        Option::Some(PromptError::InvalidArgumentKey)
    } else if value.len() > MAX_PROMPT_ARGUMENT_LENGTH {
        Option::Some(PromptError::ArgumentValueTooLong)
    } else if spec_has_unsafe_pattern(key) || spec_has_unsafe_pattern(value) {
        Option::Some(PromptError::UnsafePattern)
    } else {
        Option::None
    }
}

/// The first rejected argument's error, in argument order.
pub open spec fn spec_first_arg_error(args: Seq<(String, String)>) -> Option<PromptError>
    decreases args.len(),
{
    if args.len() == 0 {
        Option::None
    } else {
        match spec_arg_error(args[0].0@, args[0].1@) {
            Option::Some(e) => Option::Some(e),
            Option::None => spec_first_arg_error(args.drop_first()),
        }
    }
}

/// Whether an argument of this name was supplied with a non-empty value.
pub open spec fn spec_arg_provided(args: Seq<(String, String)>, name: Seq<char>) -> bool {
    exists|i: int|
        0 <= i < args.len() && (#[trigger] args[i]).0@ == name && args[i].1@.len() > 0
}

/// Whether an argument of this name was supplied with a non-empty value.
#[verifier::loop_isolation(false)]
fn arg_provided(args: &Vec<(String, String)>, name: &str) -> (r: bool)
    ensures
        r == spec_arg_provided(args@, name@),
{
    let n = args.len();
    let mut i: usize = 0;
    while i < n
        invariant
            i <= n,
            forall|j: int|
                0 <= j < i ==> !((#[trigger] args@[j]).0@ == name@ && args@[j].1@.len() > 0),
        decreases n - i,
    {
        if str_eq(args[i].0.as_str(), name) && !args[i].1.as_str().is_empty() {
            return true;
        }
        i += 1;
    }
    false
}

/// Whether some required argument of the prompt is missing or empty.
pub open spec fn spec_missing_required(
    prompt_args: Seq<PromptArgumentTemplate>,
    args: Seq<(String, String)>,
) -> bool {
    exists|i: int|
        0 <= i < prompt_args.len() && (#[trigger] prompt_args[i]).required == Option::Some(true)
            && !spec_arg_provided(args, prompt_args[i].name@)
}

/// The template with every `{key}` placeholder replaced by its
/// argument's value, arguments applied in order.
pub open spec fn spec_fill_template(template: Seq<char>, args: Seq<(String, String)>) -> Seq<char>
    decreases args.len(),
{
    if args.len() == 0 {
        template
    } else {
        spec_fill_template(
            spec_replace_all(template, "{"@ + args[0].0@ + "}"@, args[0].1@),
            args.drop_first(),
        )
    }
}

/// What rendering a prompt yields: the filled template, or the first
/// reason the request is rejected — an oversized template, a bad
/// argument, or a missing required argument.
pub open spec fn spec_render_prompt(
    template: Seq<char>,
    args: Seq<(String, String)>,
    prompt_args: Seq<PromptArgumentTemplate>,
) -> Result<Seq<char>, PromptError> {
    if template.len() > MAX_PROMPT_TEMPLATE_LENGTH {
        Result::Err(PromptError::TemplateTooLong)
    } else {
        match spec_first_arg_error(args) {
            Option::Some(e) => Result::Err(e),
            Option::None => if spec_missing_required(prompt_args, args) {
                Result::Err(PromptError::MissingRequiredArgument)
            } else {
                Result::Ok(spec_fill_template(template, args))
            },
        }
    }
}

/// Validates a prompt request and fills the template: the template must
/// stay under the length limit, every argument key and value must be
/// within bounds and free of refused patterns, every required argument
/// must be supplied non-empty, and then each `{key}` placeholder is
/// replaced by its argument's value.
#[verifier::loop_isolation(false)]
pub fn render_prompt(
    template: &str,
    arguments: &Vec<(String, String)>,
    prompt_args: &Vec<PromptArgumentTemplate>,
) -> (r: Result<String, PromptError>)
    ensures
        match r {
            Result::Ok(filled) => spec_render_prompt(template@, arguments@, prompt_args@)
                matches Result::Ok(t) && filled@ == t,
            Result::Err(e) => spec_render_prompt(template@, arguments@, prompt_args@)
                == Result::<Seq<char>, PromptError>::Err(e),
        },
{
    if template.unicode_len() > MAX_PROMPT_TEMPLATE_LENGTH {
        return Err(PromptError::TemplateTooLong);
    }

    // Reject the first bad argument, in order.
    let n = arguments.len();
    let mut i: usize = 0;
    proof {
        assert(arguments@.subrange(0, n as int) =~= arguments@);
    }
    while i < n
        invariant
            i <= n,
            spec_first_arg_error(arguments@) == spec_first_arg_error(
                arguments@.subrange(i as int, n as int),
            ),
        decreases n - i,
    {
        let ghost rest = arguments@.subrange(i as int, n as int);
        proof {
            assert(rest[0] == arguments@[i as int]);
            assert(rest.drop_first() =~= arguments@.subrange(i as int + 1, n as int));
        }
        let key = &arguments[i].0;
        let value = &arguments[i].1;
        let key_len = key.as_str().unicode_len();
        if key_len < 1 || key_len > MAX_PROMPT_ARGUMENT_LENGTH {
            return Err(PromptError::InvalidArgumentKey);
        }
        if value.as_str().unicode_len() > MAX_PROMPT_ARGUMENT_LENGTH {
            return Err(PromptError::ArgumentValueTooLong);
        }
        if has_unsafe_pattern(key.as_str()) || has_unsafe_pattern(value.as_str()) {
            return Err(PromptError::UnsafePattern);
        }
        i += 1;
    }
    proof {
        assert(arguments@.subrange(n as int, n as int).len() == 0);
    }

    // Every required argument must be supplied with a non-empty value.
    let k = prompt_args.len();
    let mut j: usize = 0;
    while j < k
        invariant
            j <= k,
            forall|l: int|
                0 <= l < j ==> !((#[trigger] prompt_args@[l]).required == Option::Some(true)
                    && !spec_arg_provided(arguments@, prompt_args@[l].name@)),
        decreases k - j,
    {
        let required = match prompt_args[j].required {
            Some(flag) => flag,
            None => false,
        };
        if required {
            if !arg_provided(arguments, prompt_args[j].name.as_str()) {
                return Err(PromptError::MissingRequiredArgument);
            }
        }
        j += 1;
    }

    // Fill the placeholders, one argument after the other.
    let mut filled = template.to_owned();
    let mut i: usize = 0;
    proof {
        assert(arguments@.subrange(0, n as int) =~= arguments@);
    }
    while i < n
        invariant
            i <= n,
            spec_fill_template(template@, arguments@) == spec_fill_template(
                filled@,
                arguments@.subrange(i as int, n as int),
            ),
        decreases n - i,
    {
        let ghost rest = arguments@.subrange(i as int, n as int);
        proof {
            assert(rest[0] == arguments@[i as int]);
            assert(rest.drop_first() =~= arguments@.subrange(i as int + 1, n as int));
        }
        let mut placeholder = String::from_str("{");
        placeholder.append(arguments[i].0.as_str());
        placeholder.append("}");
        proof {
            assert(placeholder@ =~= "{"@ + arguments@[i as int].0@ + "}"@);
        }
        filled = replace_all(filled.as_str(), placeholder.as_str(), arguments[i].1.as_str());
        i += 1;
    }
    proof {
        assert(arguments@.subrange(n as int, n as int).len() == 0);
    }
    Ok(filled)
}

/// Whether a character separates shell-command words.
pub open spec fn spec_is_shell_space(c: char) -> bool {
    c == ' ' || c == '\t' || c == '\n' || c == '\r'
}

/// The whitespace-separated words of a command string, in order; runs of
/// whitespace count as one separator and produce no empty words.
pub open spec fn spec_split_words(s: Seq<char>) -> Seq<Seq<char>>
    decreases s.len(),
{
    if s.len() == 0 {
        Seq::empty()
    } else if spec_is_shell_space(s[0]) {
        spec_split_words(s.drop_first())
    } else {
        let rest = spec_split_words(s.drop_first());
        if s.len() == 1 {
            seq![seq![s[0]]]
        } else if spec_is_shell_space(s[1]) {
            seq![seq![s[0]]] + rest
        } else {
            seq![seq![s[0]] + rest[0]] + rest.drop_first()
        }
    }
}

/// An unfinished word prepended to the words of the rest of the string:
/// it extends the first word when the rest continues it, stands alone
/// when the rest starts with whitespace or ends, and adds nothing when
/// empty.
pub open spec fn spec_join_word(partial: Seq<char>, suffix: Seq<char>) -> Seq<Seq<char>> {
    if partial.len() == 0 {
        spec_split_words(suffix)
    } else if suffix.len() == 0 || spec_is_shell_space(suffix[0]) {
        seq![partial] + spec_split_words(suffix)
    } else {
        seq![partial + spec_split_words(suffix)[0]] + spec_split_words(suffix).drop_first()
    }
}

/// Splits a command string into its whitespace-separated words. An empty
/// or all-whitespace command yields no words.
#[verifier::loop_isolation(false)]
#[verifier::rlimit(30)]
pub fn split_shell_words(s: &str) -> (words: Vec<String>)
    ensures
        crate::strutil::spec_line_views(words@) == spec_split_words(s@),
{
    let len = s.unicode_len();
    let mut done: Vec<String> = Vec::new();
    let mut word_start: usize = 0;
    let mut i: usize = 0;
    proof {
        assert(s@.subrange(0, len as int) =~= s@);
        assert(s@.subrange(0, 0).len() == 0);
        assert(crate::strutil::spec_line_views(done@) =~= Seq::<Seq<char>>::empty());
    }
    while i < len
        invariant
            word_start <= i <= len,
            forall|j: int| word_start <= j < i ==> !spec_is_shell_space(s@[j]),
            spec_split_words(s@) == crate::strutil::spec_line_views(done@) + spec_join_word(
                s@.subrange(word_start as int, i as int),
                s@.subrange(i as int, len as int),
            ),
        decreases len - i,
    {
        let ghost partial = s@.subrange(word_start as int, i as int);
        let ghost suffix = s@.subrange(i as int, len as int);
        let ghost next_suffix = s@.subrange(i as int + 1, len as int);
        proof {
            assert(suffix.len() > 0);
            assert(suffix[0] == s@[i as int]);
            assert(suffix.drop_first() =~= next_suffix);
            if suffix.len() > 1 {
                assert(suffix[1] == s@[i as int + 1]);
            }
        }
        let c = s.get_char(i);
        if c == ' ' || c == '\t' || c == '\n' || c == '\r' {
            if word_start < i {
                let piece = s.substring_char(word_start, i).to_owned();
                let ghost done_pre = done@;
                done.push(piece);
                proof {
                    assert(crate::strutil::spec_line_views(done@)
                        =~= crate::strutil::spec_line_views(done_pre).push(partial));
                    assert(spec_split_words(suffix) =~= spec_split_words(next_suffix));
                    assert(spec_join_word(partial, suffix) =~= seq![partial] + spec_split_words(
                        next_suffix,
                    ));
                    let empty_partial = s@.subrange(i as int + 1, i as int + 1);
                    assert(empty_partial.len() == 0);
                    assert(crate::strutil::spec_line_views(done@) + spec_join_word(
                        empty_partial,
                        next_suffix,
                    ) =~= crate::strutil::spec_line_views(done_pre) + spec_join_word(
                        partial,
                        suffix,
                    ));
                }
            } else {
                proof {
                    assert(partial.len() == 0);
                    assert(spec_split_words(suffix) =~= spec_split_words(next_suffix));
                    let empty_partial = s@.subrange(i as int + 1, i as int + 1);
                    assert(empty_partial.len() == 0);
                }
            }
            word_start = i + 1;
        } else {
            proof {
                let next_partial = s@.subrange(word_start as int, i as int + 1);
                assert(next_partial =~= partial.push(s@[i as int]));
                assert(partial + seq![suffix[0]] =~= next_partial);
                if suffix.len() == 1 {
                    assert(next_suffix.len() == 0);
                    assert(spec_split_words(suffix) =~= seq![seq![suffix[0]]]);
                    assert(spec_join_word(partial, suffix) =~= seq![next_partial]);
                    assert(spec_join_word(next_partial, next_suffix) =~= seq![next_partial]);
                } else if spec_is_shell_space(suffix[1]) {
                    assert(spec_split_words(suffix) =~= seq![seq![suffix[0]]] + spec_split_words(
                        next_suffix,
                    ));
                    assert(spec_join_word(partial, suffix) =~= seq![next_partial]
                        + spec_split_words(next_suffix));
                    assert(spec_join_word(next_partial, next_suffix) =~= seq![next_partial]
                        + spec_split_words(next_suffix));
                } else {
                    let rest = spec_split_words(next_suffix);
                    assert(spec_split_words(suffix) =~= seq![seq![suffix[0]] + rest[0]]
                        + rest.drop_first());
                    assert(partial + (seq![suffix[0]] + rest[0]) =~= next_partial + rest[0]);
                    assert(spec_join_word(partial, suffix) =~= seq![next_partial + rest[0]]
                        + rest.drop_first());
                    assert(spec_join_word(next_partial, next_suffix) =~= seq![next_partial
                        + rest[0]] + rest.drop_first());
                }
            }
        }
        i += 1;
    }
    proof {
        assert(s@.subrange(len as int, len as int).len() == 0);
        assert(spec_split_words(s@.subrange(len as int, len as int)) =~= Seq::<Seq<char>>::empty());
    }
    if word_start < len {
        let piece = s.substring_char(word_start, len).to_owned();
        let ghost done_pre = done@;
        let ghost partial = s@.subrange(word_start as int, len as int);
        done.push(piece);
        proof {
            assert(crate::strutil::spec_line_views(done@) =~= crate::strutil::spec_line_views(
                done_pre,
            ).push(partial));
            assert(spec_join_word(partial, s@.subrange(len as int, len as int)) =~= seq![partial]);
            assert(crate::strutil::spec_line_views(done@) =~= crate::strutil::spec_line_views(
                done_pre,
            ) + seq![partial]);
        }
    } else {
        proof {
            let partial = s@.subrange(word_start as int, len as int);
            assert(partial.len() == 0);
        }
    }
    done
}

/// The words of a word list that do not start with a flag dash.
pub open spec fn spec_nonflag_words(words: Seq<Seq<char>>) -> Seq<Seq<char>>
    decreases words.len(),
{
    if words.len() == 0 {
        Seq::empty()
    } else {
        let prefix = spec_nonflag_words(words.drop_last());
        let last = words.last();
        if last.len() > 0 && last[0] != '-' {
            prefix.push(last)
        } else {
            prefix
        }
    }
}

/// The arguments of a shell command that may name files: every word
/// after the command word that is not a `-` flag. The host then holds
/// each candidate against the file system and the ignore patterns; a
/// command with no words has no candidates and passes as is.
pub open spec fn spec_shell_path_candidates(command: Seq<char>) -> Seq<Seq<char>> {
    let words = spec_split_words(command);
    if words.len() == 0 {
        Seq::empty()
    } else {
        spec_nonflag_words(words.drop_first())
    }
}

/// Extracts the arguments of a shell command that may name files, for
/// the host to hold against the ignore patterns.
#[verifier::loop_isolation(false)]
pub fn shell_path_candidates(command: &str) -> (candidates: Vec<String>)
    ensures
        crate::strutil::spec_line_views(candidates@) == spec_shell_path_candidates(command@),
{
    let words = split_shell_words(command);
    let ghost views = crate::strutil::spec_line_views(words@);
    let n = words.len();
    let mut candidates: Vec<String> = Vec::new();
    if n == 0 {
        proof {
            assert(crate::strutil::spec_line_views(candidates@) =~= Seq::<Seq<char>>::empty());
        }
        return candidates;
    }
    let mut i: usize = 1;
    proof {
        assert(views.drop_first().subrange(0, 0).len() == 0);
        assert(crate::strutil::spec_line_views(candidates@) =~= spec_nonflag_words(
            views.drop_first().subrange(0, 0),
        ));
    }
    while i < n
        invariant
            1 <= i <= n,
            n == words@.len(),
            views == crate::strutil::spec_line_views(words@),
            crate::strutil::spec_line_views(candidates@) == spec_nonflag_words(
                views.drop_first().subrange(0, i as int - 1),
            ),
        decreases n - i,
    {
        let ghost tail = views.drop_first();
        let ghost prefix = tail.subrange(0, i as int - 1);
        let ghost next_prefix = tail.subrange(0, i as int);
        proof {
            assert(next_prefix.drop_last() =~= prefix);
            assert(next_prefix.last() == tail[i as int - 1]);
            assert(tail[i as int - 1] == views[i as int]);
            assert(views[i as int] == words@[i as int]@);
        }
        let word = &words[i];
        let word_len = word.as_str().unicode_len();
        let keep = word_len > 0 && word.as_str().get_char(0) != '-';
        if keep {
            let ghost pre = candidates@;
            candidates.push(word.clone());
            proof {
                assert(crate::strutil::spec_line_views(candidates@)
                    =~= crate::strutil::spec_line_views(pre).push(words@[i as int]@));
            }
        }
        i += 1;
    }
    proof {
        assert(views.drop_first().subrange(0, n as int - 1) =~= views.drop_first());
    }
    candidates
}

/// Whether a character is a decimal digit.
pub open spec fn spec_is_digit(c: char) -> bool {
    '0' <= c && c <= '9'
}

/// Whether every character of the sequence is a decimal digit.
pub open spec fn spec_all_digits(s: Seq<char>) -> bool {
    forall|i: int| 0 <= i < s.len() ==> spec_is_digit(#[trigger] s[i])
}

/// Whether `s` holds only digits between `from` and `to`.
#[verifier::loop_isolation(false)]
fn all_digits_between(s: &str, from: usize, to: usize) -> (r: bool)
    requires
        from <= to <= s@.len(),
    ensures
        r == spec_all_digits(s@.subrange(from as int, to as int)),
{
    let ghost range = s@.subrange(from as int, to as int);
    let mut i: usize = from;
    while i < to
        invariant
            from <= i <= to,
            forall|j: int| 0 <= j < i - from ==> spec_is_digit(#[trigger] range[j]),
        decreases to - i,
    {
        let c = s.get_char(i);
        if !('0' <= c && c <= '9') {
            proof {
                assert(range[i - from] == s@[i as int]);
            }
            return false;
        }
        i += 1;
    }
    true
}

/// Whether the two characters at `at` spell one of the four meridian
/// markers.
pub open spec fn spec_meridian_at(name: Seq<char>, at: int) -> bool {
    let m = name.subrange(at, at + 2);
    m == "AM"@ || m == "PM"@ || m == "am"@ || m == "pm"@
}

/// Whether `name` is a Mac screenshot filename with an `hl`-digit hour:
/// `Screenshot YYYY-MM-DD at H.MM.SS <meridian>.png`, optionally with a
/// ` (n)` counter before the extension. The space before the meridian
/// sits at index `31 + hl`.
pub open spec fn spec_mac_screenshot_with_hour(name: Seq<char>, hl: int) -> bool {
    let sp = 31 + hl;  // the space before the meridian
    let rest = name.subrange(sp + 3, name.len() as int);  // after the meridian
    &&& (hl == 1 || hl == 2)
    &&& name.len() >= sp + 3 + 4
    &&& name.subrange(0, 11) == "Screenshot "@
    &&& spec_all_digits(name.subrange(11, 15))
    &&& name[15] == '-'
    &&& spec_all_digits(name.subrange(16, 18))
    &&& name[18] == '-'
    &&& spec_all_digits(name.subrange(19, 21))
    &&& name.subrange(21, 25) == " at "@
    &&& spec_all_digits(name.subrange(25, 25 + hl))
    &&& name[25 + hl] == '.'
    &&& spec_all_digits(name.subrange(26 + hl, 28 + hl))
    &&& name[28 + hl] == '.'
    &&& spec_all_digits(name.subrange(29 + hl, 31 + hl))
    &&& name[sp] == ' '
    &&& spec_meridian_at(name, sp + 1)
    &&& (rest == ".png"@ || (rest.len() >= 8 && rest[0] == ' ' && rest[1] == '(' && rest[rest.len()
        - 5] == ')' && spec_all_digits(rest.subrange(2, rest.len() - 5)) && rest.subrange(
        rest.len() - 4,
        rest.len() as int,
    ) == ".png"@))
}

/// The filename with the breaking space before the meridian replaced by
/// the narrow no-break space Mac screenshots actually carry.
pub open spec fn spec_mac_screenshot_normalized(name: Seq<char>, hl: int) -> Seq<char> {
    name.update(31 + hl, '\u{202F}')
}

/// Checks the screenshot shape for one hour width.
#[verifier::loop_isolation(false)]
#[verifier::rlimit(30)]
fn matches_mac_screenshot(name: &str, len: usize, hl: usize) -> (r: bool)
    requires
        len == name@.len(),
        hl == 1 || hl == 2,
    ensures
        r == spec_mac_screenshot_with_hour(name@, hl as int),
{
    let sp = 31 + hl;
    if len < sp + 7 {
        return false;
    }
    if !str_eq(name.substring_char(0, 11), "Screenshot ") {
        return false;
    }
    if !all_digits_between(name, 11, 15) || name.get_char(15) != '-' || !all_digits_between(
        name,
        16,
        18,
    ) || name.get_char(18) != '-' || !all_digits_between(name, 19, 21) {
        return false;
    }
    if !str_eq(name.substring_char(21, 25), " at ") {
        return false;
    }
    if !all_digits_between(name, 25, 25 + hl) || name.get_char(25 + hl) != '.'
        || !all_digits_between(name, 26 + hl, 28 + hl) || name.get_char(28 + hl) != '.'
        || !all_digits_between(name, 29 + hl, 31 + hl) {
        return false;
    }
    if name.get_char(sp) != ' ' {
        return false;
    }
    let meridian = name.substring_char(sp + 1, sp + 3);
    if !(str_eq(meridian, "AM") || str_eq(meridian, "PM") || str_eq(meridian, "am") || str_eq(
        meridian,
        "pm",
    )) {
        return false;
    }
    let rest = name.substring_char(sp + 3, len);
    let rest_len = rest.unicode_len();
    if str_eq(rest, ".png") {
        return true;
    }
    if rest_len >= 8 && rest.get_char(0) == ' ' && rest.get_char(1) == '(' && rest.get_char(
        rest_len - 5,
    ) == ')' && all_digits_between(rest, 2, rest_len - 5) && str_eq(
        rest.substring_char(rest_len - 4, rest_len),
        ".png",
    ) {
        return true;
    }
    false
}

/// Normalizes a Mac screenshot filename: on disk the space before the
/// meridian is the narrow no-break space, while tool calls usually spell
/// it as a plain space. A filename of the screenshot shape gets that
/// space replaced; any other filename is left as it is (`None`).
#[verifier::loop_isolation(false)]
pub fn normalize_mac_screenshot_filename(name: &str) -> (r: Option<String>)
    ensures
        match r {
            Option::Some(out) => exists|hl: int|
                #![trigger spec_mac_screenshot_with_hour(name@, hl)]
                spec_mac_screenshot_with_hour(name@, hl) && out@ == spec_mac_screenshot_normalized(
                    name@,
                    hl,
                ),
            Option::None => !spec_mac_screenshot_with_hour(name@, 1)
                && !spec_mac_screenshot_with_hour(name@, 2),
        },
{
    let len = name.unicode_len();
    let hl = if matches_mac_screenshot(name, len, 1) {
        1usize
    } else if matches_mac_screenshot(name, len, 2) {
        2usize
    } else {
        return None;
    };
    let sp = 31 + hl;
    let mut out = name.substring_char(0, sp).to_owned();
    out.append("\u{202F}");
    out.append(name.substring_char(sp + 1, len));
    proof {
        assert(out@ =~= spec_mac_screenshot_normalized(name@, hl as int)) by {
            assert(spec_mac_screenshot_normalized(name@, hl as int).len() == name@.len());
            reveal_strlit("\u{202F}");
        }
    }
    Some(out)
}

/// Which prompt templates are kept when names collide: the first
/// template of each id, in order.
pub open spec fn spec_unique_prompts(templates: Seq<PromptTemplate>) -> Seq<PromptTemplate>
    decreases templates.len(),
{
    if templates.len() == 0 {
        Seq::empty()
    } else {
        let prefix = spec_unique_prompts(templates.drop_last());
        if spec_prompt_id_listed(prefix, templates.last().id@) {
            prefix
        } else {
            prefix.push(templates.last())
        }
    }
}

/// Whether a template of this id is already listed.
pub open spec fn spec_prompt_id_listed(templates: Seq<PromptTemplate>, id: Seq<char>) -> bool {
    exists|i: int| 0 <= i < templates.len() && (#[trigger] templates[i]).id@ == id
}

/// Whether a template of this id is already listed.
#[verifier::loop_isolation(false)]
fn prompt_id_listed(templates: &Vec<PromptTemplate>, id: &str) -> (r: bool)
    ensures
        r == spec_prompt_id_listed(templates@, id@),
{
    let n = templates.len();
    let mut i: usize = 0;
    while i < n
        invariant
            i <= n,
            forall|j: int| 0 <= j < i ==> (#[trigger] templates@[j]).id@ != id@,
        decreases n - i,
    {
        if str_eq(templates[i].id.as_str(), id) {
            return true;
        }
        i += 1;
    }
    false
}

/// Keeps the first template of each id and drops later duplicates, so
/// that every prompt name is unique.
#[verifier::loop_isolation(false)]
pub fn collect_unique_prompts(templates: Vec<PromptTemplate>) -> (r: Vec<PromptTemplate>)
    ensures
        r@ == spec_unique_prompts(templates@),
{
    let ghost all = templates@;
    let mut remaining = templates;
    let n = remaining.len();
    let mut out: Vec<PromptTemplate> = Vec::new();
    let mut i: usize = 0;
    proof {
        assert(all.subrange(0, 0).len() == 0);
        assert(out@ =~= spec_unique_prompts(all.subrange(0, 0)));
    }
    while i < n
        invariant
            i <= n,
            n == all.len(),
            remaining@ == all.subrange(i as int, n as int),
            out@ == spec_unique_prompts(all.subrange(0, i as int)),
        decreases n - i,
    {
        let ghost prefix = all.subrange(0, i as int);
        let ghost next_prefix = all.subrange(0, i as int + 1);
        proof {
            assert(next_prefix.drop_last() =~= prefix);
            assert(next_prefix.last() == all[i as int]);
        }
        let template = remaining.remove(0);
        proof {
            assert(template == all[i as int]);
            assert(remaining@ =~= all.subrange(i as int + 1, n as int));
        }
        let listed = prompt_id_listed(&out, template.id.as_str());
        if !listed {
            out.push(template);
        }
        i += 1;
    }
    proof {
        assert(all.subrange(0, n as int) =~= all);
    }
    out
}

} // verus!
