use agent_core::session::{
    apply_description_update, total_positive_tokens, update_session_metrics, SessionInfo,
    SessionMetadata, UpdateSessionMetadataRequest, MAX_DESCRIPTION_LENGTH,
};
use agent_core::usage::{accumulate_tokens, ProviderUsage, Usage};

fn metadata() -> SessionMetadata {
    SessionMetadata {
        description: "work".to_string(),
        working_dir: "/repo".to_string(),
        schedule_id: None,
        message_count: 0,
        total_tokens: None,
        input_tokens: None,
        output_tokens: None,
        accumulated_total_tokens: None,
        accumulated_input_tokens: None,
        accumulated_output_tokens: None,
    }
}

fn provider_usage(input: Option<i32>, output: Option<i32>, total: Option<i32>) -> ProviderUsage {
    ProviderUsage {
        model: "m".to_string(),
        usage: Usage { input_tokens: input, output_tokens: output, total_tokens: total },
    }
}

#[test]
fn test_update_session_metadata_request_validation() {
    // Test empty description
    let empty_request = UpdateSessionMetadataRequest { description: "".to_string() };
    assert_eq!(empty_request.description, "");

    // Test normal description
    let normal_request =
        UpdateSessionMetadataRequest { description: "My Session Name".to_string() };
    assert_eq!(normal_request.description, "My Session Name");

    // Test description at max length (should be valid)
    let max_length_description = "A".repeat(MAX_DESCRIPTION_LENGTH);
    let max_request =
        UpdateSessionMetadataRequest { description: max_length_description.clone() };
    assert_eq!(max_request.description, max_length_description);
    assert_eq!(max_request.description.len(), MAX_DESCRIPTION_LENGTH);

    // Test description over max length
    let over_max_description = "A".repeat(MAX_DESCRIPTION_LENGTH + 1);
    let over_max_request =
        UpdateSessionMetadataRequest { description: over_max_description.clone() };
    assert_eq!(over_max_request.description, over_max_description);
    assert!(over_max_request.description.len() > MAX_DESCRIPTION_LENGTH);
}

#[test]
fn test_description_length_validation() {
    // Test the validation logic used in the endpoint
    let valid_description = "A".repeat(MAX_DESCRIPTION_LENGTH);
    assert!(valid_description.len() <= MAX_DESCRIPTION_LENGTH);

    let invalid_description = "A".repeat(MAX_DESCRIPTION_LENGTH + 1);
    assert!(invalid_description.len() > MAX_DESCRIPTION_LENGTH);

    // Test edge cases
    assert!(String::new().len() <= MAX_DESCRIPTION_LENGTH); // Empty string
    assert!("Short".len() <= MAX_DESCRIPTION_LENGTH); // Short string
}

#[test]
fn description_update_is_applied_only_when_accepted() {
    let mut meta = metadata();
    let accepted = apply_description_update(
        &mut meta,
        UpdateSessionMetadataRequest { description: "renamed".to_string() },
    );
    assert!(accepted);
    assert_eq!(meta.description, "renamed");

    let too_long = "A".repeat(MAX_DESCRIPTION_LENGTH + 1);
    let accepted =
        apply_description_update(&mut meta, UpdateSessionMetadataRequest { description: too_long });
    assert!(!accepted);
    assert_eq!(meta.description, "renamed", "a rejected rename changes nothing");
}

#[test]
fn token_accumulation_ignores_negative_turns() {
    // Prior total 5, pathological turn of -3: the total stays 5.
    assert_eq!(accumulate_tokens(Some(5), Some(-3)), Some(5));
    // Prior total 5, turn of 3: the total becomes 8.
    assert_eq!(accumulate_tokens(Some(5), Some(3)), Some(8));
    // A missing prior total counts as zero.
    assert_eq!(accumulate_tokens(None, Some(3)), Some(3));
    // A missing turn count leaves the total alone.
    assert_eq!(accumulate_tokens(Some(5), None), Some(5));
    assert_eq!(accumulate_tokens(None, None), None);
    // Accumulation clips instead of overflowing.
    assert_eq!(accumulate_tokens(Some(i32::MAX - 1), Some(10)), Some(i32::MAX));
}

#[test]
fn session_metrics_overwrite_last_turn_and_accumulate_totals() {
    let mut meta = metadata();
    meta.accumulated_total_tokens = Some(5);

    update_session_metrics(
        &mut meta,
        &provider_usage(Some(30), Some(12), Some(-3)),
        Some("nightly".to_string()),
        4,
    );

    assert_eq!(meta.total_tokens, Some(-3));
    assert_eq!(meta.input_tokens, Some(30));
    assert_eq!(meta.output_tokens, Some(12));
    assert_eq!(meta.message_count, 5);
    assert_eq!(meta.schedule_id.as_deref(), Some("nightly"));
    // The negative turn total did not lower the accumulated total.
    assert_eq!(meta.accumulated_total_tokens, Some(5));
    assert_eq!(meta.accumulated_input_tokens, Some(30));
    assert_eq!(meta.accumulated_output_tokens, Some(12));

    update_session_metrics(&mut meta, &provider_usage(Some(10), Some(2), Some(3)), None, 6);
    assert_eq!(meta.accumulated_total_tokens, Some(8));
    assert_eq!(meta.accumulated_input_tokens, Some(40));
    assert_eq!(meta.description, "work");
}

#[test]
fn insights_token_total_counts_only_positive_sessions() {
    let mut a = SessionInfo { id: "a".to_string(), modified: "t".to_string(), metadata: metadata() };
    a.metadata.accumulated_total_tokens = Some(100);
    let mut b = SessionInfo { id: "b".to_string(), modified: "t".to_string(), metadata: metadata() };
    b.metadata.accumulated_total_tokens = Some(-40);
    let c = SessionInfo { id: "c".to_string(), modified: "t".to_string(), metadata: metadata() };
    let mut d = SessionInfo { id: "d".to_string(), modified: "t".to_string(), metadata: metadata() };
    d.metadata.accumulated_total_tokens = Some(1);

    let sessions = vec![a, b, c, d];
    assert_eq!(total_positive_tokens(&sessions), 101);
}
