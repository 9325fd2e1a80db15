use agent_core::developer::{
    collect_unique_prompts, normalize_mac_screenshot_filename, plan_text_editor,
    process_shell_output, render_prompt, shell_path_candidates, split_shell_words,
    validate_shell_output_size, PromptArgumentTemplate, PromptError, PromptTemplate,
    TextEditorAction, TextEditorError, TextEditorParams, MAX_PROMPT_ARGUMENT_LENGTH,
    MAX_PROMPT_TEMPLATE_LENGTH, MAX_SHELL_OUTPUT_CHARS,
};

fn editor_params(command: &str) -> TextEditorParams {
    TextEditorParams {
        path: "/repo/test.txt".to_string(),
        command: command.to_string(),
        view_range: None,
        file_text: None,
        old_str: None,
        new_str: None,
        insert_line: None,
    }
}

#[test]
fn text_editor_view_passes_two_entry_ranges() {
    let mut params = editor_params("view");
    params.view_range = Some(vec![3, 6]);
    match plan_text_editor(params) {
        Ok(TextEditorAction::View { view_range }) => assert_eq!(view_range, Some((3, 6))),
        other => panic!("expected a view action, got {:?}", other),
    }

    let mut params = editor_params("view");
    params.view_range = Some(vec![3]);
    match plan_text_editor(params) {
        Ok(TextEditorAction::View { view_range }) => assert_eq!(view_range, None),
        other => panic!("expected a view action, got {:?}", other),
    }
}

#[test]
fn text_editor_write_requires_file_text() {
    let mut params = editor_params("write");
    params.file_text = Some("Hello, world!".to_string());
    match plan_text_editor(params) {
        Ok(TextEditorAction::Write { file_text }) => assert_eq!(file_text, "Hello, world!"),
        other => panic!("expected a write action, got {:?}", other),
    }

    let params = editor_params("write");
    match plan_text_editor(params) {
        Err(e) => {
            assert_eq!(e, TextEditorError::MissingFileText);
            assert_eq!(e.message(), "Missing 'file_text' parameter for write command");
        }
        other => panic!("expected a rejection, got {:?}", other),
    }
}

#[test]
fn text_editor_str_replace_requires_both_strings() {
    let mut params = editor_params("str_replace");
    params.old_str = Some("world".to_string());
    params.new_str = Some("Rust".to_string());
    match plan_text_editor(params) {
        Ok(TextEditorAction::StrReplace { old_str, new_str }) => {
            assert_eq!(old_str, "world");
            assert_eq!(new_str, "Rust");
        }
        other => panic!("expected a replace action, got {:?}", other),
    }

    let mut params = editor_params("str_replace");
    params.new_str = Some("Rust".to_string());
    assert_eq!(plan_text_editor(params).unwrap_err(), TextEditorError::MissingOldStr);

    let mut params = editor_params("str_replace");
    params.old_str = Some("world".to_string());
    assert_eq!(plan_text_editor(params).unwrap_err(), TextEditorError::MissingNewStr);
}

#[test]
fn text_editor_insert_requires_line_then_text() {
    let mut params = editor_params("insert");
    params.insert_line = Some(0);
    params.new_str = Some("Line 1".to_string());
    match plan_text_editor(params) {
        Ok(TextEditorAction::Insert { insert_line, new_str }) => {
            assert_eq!(insert_line, 0);
            assert_eq!(new_str, "Line 1");
        }
        other => panic!("expected an insert action, got {:?}", other),
    }

    let mut params = editor_params("insert");
    params.new_str = Some("New text".to_string());
    let err = plan_text_editor(params).unwrap_err();
    assert_eq!(err, TextEditorError::MissingInsertLine);
    assert_eq!(err.message(), "Missing 'insert_line' parameter");

    let mut params = editor_params("insert");
    params.insert_line = Some(2);
    let err = plan_text_editor(params).unwrap_err();
    assert_eq!(err, TextEditorError::MissingNewStr);
    assert_eq!(err.message(), "Missing 'new_str' parameter");
}

#[test]
fn text_editor_rejects_unknown_commands() {
    assert_eq!(plan_text_editor(editor_params("move")).unwrap_err(), TextEditorError::UnknownCommand);
    assert!(matches!(plan_text_editor(editor_params("undo_edit")), Ok(TextEditorAction::UndoEdit)));
}

#[test]
fn shell_output_size_is_limited() {
    assert!(validate_shell_output_size("ls", "short output").is_ok());

    let oversized = "a".repeat(MAX_SHELL_OUTPUT_CHARS + 1);
    let err = validate_shell_output_size("cat big", &oversized).unwrap_err();
    assert_eq!(
        err,
        "Shell output from command 'cat big' has too many characters (400001). \
         Maximum character count is 400000."
    );
}

#[test]
fn test_process_shell_output_short() {
    // Test with short output (< 100 lines)
    let short_output = "Line 1\nLine 2\nLine 3\nLine 4\nLine 5";
    let result = process_shell_output(short_output, "/tmp/full-output");

    // Both outputs should be the same for short outputs
    assert_eq!(result.0, short_output);
    assert_eq!(result.1, short_output);
}

#[test]
fn test_process_shell_output_empty() {
    // Test with empty output
    let empty_output = "";
    let result = process_shell_output(empty_output, "/tmp/full-output");

    // Both outputs should be empty
    assert_eq!(result.0, "");
    assert_eq!(result.1, "");
}

#[test]
fn test_shell_output_truncation() {
    // Generate output with many lines to test truncation
    let mut long_lines = Vec::new();
    for i in 1..=150 {
        long_lines.push(format!("Line {}", i));
    }
    let long_output = long_lines.join("\n");

    let result = process_shell_output(&long_output, "/tmp/full-output");

    // Check that final output contains truncation info
    assert!(result.0.contains("private note: output was 150 lines"));
    assert!(result.0.contains("truncated output:"));
    assert!(result.0.contains("/tmp/full-output"));

    // Check that user output shows truncation notice
    assert!(result.1.contains("NOTE: Output was 150 lines, showing only the last 100 lines"));

    // Verify it shows the last 100 lines (use exact line matching to avoid substring matches)
    assert!(result.1.contains("Line 51\n"));
    assert!(result.1.contains("Line 150"));
    assert!(!result.1.contains("Line 1\n"));
    assert!(!result.1.contains("Line 50\n"));
}

#[test]
fn shell_words_split_on_whitespace_runs() {
    // Empty command should result in empty parts.
    assert_eq!(split_shell_words(""), Vec::<String>::new());
    assert_eq!(split_shell_words("   \t "), Vec::<String>::new());
    assert_eq!(split_shell_words("cat secret.txt"), vec!["cat", "secret.txt"]);
    assert_eq!(split_shell_words("  ls  -la \t /tmp "), vec!["ls", "-la", "/tmp"]);
}

#[test]
fn shell_path_candidates_skip_command_word_and_flags() {
    assert_eq!(shell_path_candidates(""), Vec::<String>::new());
    assert_eq!(shell_path_candidates("ls"), Vec::<String>::new());
    assert_eq!(
        shell_path_candidates("grep -r pattern src/main.rs"),
        vec!["pattern", "src/main.rs"]
    );
    assert_eq!(shell_path_candidates("cat secret.txt"), vec!["secret.txt"]);
}

#[test]
fn mac_screenshot_filenames_get_a_narrow_space() {
    assert_eq!(
        normalize_mac_screenshot_filename("Screenshot 2024-03-09 at 9.15.30 AM.png"),
        Some("Screenshot 2024-03-09 at 9.15.30\u{202F}AM.png".to_string())
    );
    assert_eq!(
        normalize_mac_screenshot_filename("Screenshot 2024-03-09 at 11.05.00 pm (2).png"),
        Some("Screenshot 2024-03-09 at 11.05.00\u{202F}pm (2).png".to_string())
    );
    // Anything else is left for the host to use unchanged.
    assert_eq!(normalize_mac_screenshot_filename("holiday.png"), None);
    assert_eq!(
        normalize_mac_screenshot_filename("Screenshot 2024-03-09 at 9.15.30 XM.png"),
        None
    );
    assert_eq!(
        normalize_mac_screenshot_filename("Screenshot 2024-03-09 at 9.15.30 AM.jpg"),
        None
    );
}

fn args(pairs: Vec<(&str, &str)>) -> Vec<(String, String)> {
    pairs.into_iter().map(|(k, v)| (k.to_string(), v.to_string())).collect()
}

fn required_arg(name: &str) -> PromptArgumentTemplate {
    PromptArgumentTemplate { name: name.to_string(), description: None, required: Some(true) }
}

#[test]
fn prompt_rendering_fills_placeholders() {
    let filled = render_prompt(
        "Review {file} for {goal}.",
        &args(vec![("file", "main.rs"), ("goal", "bugs")]),
        &vec![required_arg("file")],
    )
    .expect("a valid request renders");
    assert_eq!(filled, "Review main.rs for bugs.");
}

#[test]
fn prompt_rendering_rejects_bad_requests() {
    let long_template = "a".repeat(MAX_PROMPT_TEMPLATE_LENGTH + 1);
    assert_eq!(
        render_prompt(&long_template, &args(vec![]), &vec![]).unwrap_err(),
        PromptError::TemplateTooLong
    );

    assert_eq!(
        render_prompt("t", &args(vec![("", "v")]), &vec![]).unwrap_err(),
        PromptError::InvalidArgumentKey
    );

    let long_value = "v".repeat(MAX_PROMPT_ARGUMENT_LENGTH + 1);
    assert_eq!(
        render_prompt("t", &args(vec![("k", &long_value)]), &vec![]).unwrap_err(),
        PromptError::ArgumentValueTooLong
    );

    assert_eq!(
        render_prompt("t", &args(vec![("k", "../etc/passwd")]), &vec![]).unwrap_err(),
        PromptError::UnsafePattern
    );
    assert_eq!(
        render_prompt("t", &args(vec![("k", "<script>alert(1)</script>")]), &vec![]).unwrap_err(),
        PromptError::UnsafePattern
    );

    // A required argument that is absent or empty rejects the request.
    assert_eq!(
        render_prompt("t", &args(vec![]), &vec![required_arg("file")]).unwrap_err(),
        PromptError::MissingRequiredArgument
    );
    assert_eq!(
        render_prompt("t", &args(vec![("file", "")]), &vec![required_arg("file")]).unwrap_err(),
        PromptError::MissingRequiredArgument
    );
}

#[test]
fn duplicate_prompt_templates_are_dropped() {
    let templates = vec![
        PromptTemplate { id: "demo".to_string(), template: "first".to_string(), arguments: vec![] },
        PromptTemplate { id: "other".to_string(), template: "second".to_string(), arguments: vec![] },
        PromptTemplate { id: "demo".to_string(), template: "third".to_string(), arguments: vec![] },
    ];
    let unique = collect_unique_prompts(templates);
    assert_eq!(unique.len(), 2);
    assert_eq!(unique[0].id, "demo");
    assert_eq!(unique[0].template, "first", "the first template of an id wins");
    assert_eq!(unique[1].id, "other");
}
