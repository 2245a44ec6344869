use rewind_core::checkpoints::{CodexGitRecords, CodexPromptGitRecord, truncate_codex_git_records};
use rewind_core::errors::CoreError;
use rewind_core::prompts::extract_codex_prompts;
use rewind_core::rewind::{
    RewindMode, check_codex_rewind_capabilities, get_codex_prompt_text, plan_revert_to_prompt,
    truncate_codex_session_to_prompt,
};

fn meta_line() -> String {
    "{\"type\":\"session_meta\",\"payload\":{\"id\":\"sess-1\",\"timestamp\":\"2024-01-15T10:30:00Z\",\"cwd\":\"/tmp/proj\"}}".to_string()
}

fn user_line(text: &str) -> String {
    format!(
        "{{\"type\":\"response_item\",\"timestamp\":\"2024-01-15T10:31:00Z\",\"payload\":{{\"role\":\"user\",\"content\":[{{\"type\":\"input_text\",\"text\":\"{}\"}}]}}}}",
        text
    )
}

fn synthetic_line() -> String {
    user_line("<environment_context> injected stuff")
}

fn assistant_line() -> String {
    "{\"type\":\"response_item\",\"payload\":{\"role\":\"assistant\",\"content\":[{\"type\":\"output_text\",\"text\":\"reply\"}]}}".to_string()
}

fn sample_log() -> Vec<String> {
    vec![
        meta_line(),
        synthetic_line(),
        user_line("first prompt"),
        assistant_line(),
        "this line is not json".to_string(),
        user_line("second prompt"),
        synthetic_line(),
        user_line("third prompt"),
    ]
}

fn records_for_two() -> CodexGitRecords {
    CodexGitRecords {
        session_id: "sess-1".to_string(),
        project_path: "/tmp/proj".to_string(),
        records: vec![
            CodexPromptGitRecord {
                prompt_index: 0,
                commit_before: "abc123".to_string(),
                commit_after: Some("def456".to_string()),
                timestamp: "2024-01-15T10:30:00Z".to_string(),
            },
            CodexPromptGitRecord {
                prompt_index: 1,
                commit_before: "def456".to_string(),
                commit_after: None,
                timestamp: "2024-01-15T10:32:00Z".to_string(),
            },
        ],
    }
}

#[test]
fn extraction_is_idempotent() {
    let lines = sample_log();
    let records = records_for_two();
    let a = extract_codex_prompts(&lines, &records, 99);
    let b = extract_codex_prompts(&lines, &records, 99);
    assert_eq!(a.len(), b.len());
    for (x, y) in a.iter().zip(b.iter()) {
        assert_eq!(x.index, y.index);
        assert_eq!(x.text, y.text);
        assert_eq!(x.git_commit_before, y.git_commit_before);
        assert_eq!(x.git_commit_after, y.git_commit_after);
        assert_eq!(x.timestamp, y.timestamp);
        assert_eq!(x.source, y.source);
    }
}

#[test]
fn indices_are_sequential_despite_synthetic_turns() {
    let lines = sample_log();
    let records = records_for_two();
    let prompts = extract_codex_prompts(&lines, &records, 0);
    assert_eq!(prompts.len(), 3);
    for (i, p) in prompts.iter().enumerate() {
        assert_eq!(p.index, i);
    }
    assert_eq!(prompts[0].text, "first prompt");
    assert_eq!(prompts[1].text, "second prompt");
    assert_eq!(prompts[2].text, "third prompt");
}

#[test]
fn checkpoint_join_sets_source_and_commits() {
    let lines = sample_log();
    let records = records_for_two();
    let prompts = extract_codex_prompts(&lines, &records, 0);
    assert_eq!(prompts[0].source, "project");
    assert_eq!(prompts[0].git_commit_before, "abc123");
    assert_eq!(prompts[0].git_commit_after.as_deref(), Some("def456"));
    assert_eq!(prompts[1].source, "project");
    assert_eq!(prompts[1].git_commit_after, None);
    assert_eq!(prompts[2].source, "cli");
    assert_eq!(prompts[2].git_commit_before, "");
}

#[test]
fn extraction_takes_timestamp_from_line() {
    let lines = sample_log();
    let records = records_for_two();
    let prompts = extract_codex_prompts(&lines, &records, 7);
    // 2024-01-15T10:31:00Z
    assert_eq!(prompts[0].timestamp, 1705314660);
}

#[test]
fn truncate_then_extract_yields_first_k_prompts() {
    let lines = sample_log();
    let records = records_for_two();
    let kept = truncate_codex_session_to_prompt(&lines, 2).unwrap();
    let reprompts = extract_codex_prompts(&kept, &truncate_codex_git_records(&records, 2), 0);
    assert_eq!(reprompts.len(), 2);
    assert_eq!(reprompts[0].index, 0);
    assert_eq!(reprompts[0].text, "first prompt");
    assert_eq!(reprompts[1].index, 1);
    assert_eq!(reprompts[1].text, "second prompt");
}

#[test]
fn truncate_to_first_prompt_keeps_only_earlier_lines() {
    let lines = sample_log();
    let kept = truncate_codex_session_to_prompt(&lines, 0).unwrap();
    // everything before the first qualifying user turn stays, including the
    // synthetic turn on an earlier line
    assert_eq!(kept.len(), 2);
    assert_eq!(kept[0], meta_line());
    assert_eq!(kept[1], synthetic_line());
}

#[test]
fn truncate_out_of_range_is_not_found() {
    let lines = sample_log();
    match truncate_codex_session_to_prompt(&lines, 3) {
        Err(CoreError::NotFound(m)) => {
            assert_eq!(m, "Prompt #3 not found in session");
        }
        other => panic!("expected NotFound, got {:?}", other),
    }
}

#[test]
fn prompt_text_lookup_matches_extraction() {
    let lines = sample_log();
    assert_eq!(get_codex_prompt_text(&lines, 1).unwrap(), "second prompt");
    assert!(get_codex_prompt_text(&lines, 9).is_err());
}

#[test]
fn capabilities_code_false_when_git_disabled() {
    let lines = sample_log();
    let records = records_for_two();
    let prompts = extract_codex_prompts(&lines, &records, 0);
    let caps = check_codex_rewind_capabilities(true, &prompts, &records, 0).unwrap();
    assert!(caps.conversation);
    assert!(!caps.code);
    assert!(!caps.both);
    assert!(caps.warning.is_some());
}

#[test]
fn capabilities_code_false_without_checkpoint() {
    let lines = sample_log();
    let records = records_for_two();
    let prompts = extract_codex_prompts(&lines, &records, 0);
    let caps = check_codex_rewind_capabilities(false, &prompts, &records, 2).unwrap();
    assert!(caps.conversation);
    assert!(!caps.code);
    assert!(!caps.both);
    assert_eq!(caps.source, "cli");
    assert_eq!(
        caps.warning.as_deref(),
        Some("this prompt has no associated git record; only conversation history can be rewound")
    );
}

#[test]
fn capabilities_code_false_with_empty_commit() {
    let lines = sample_log();
    let mut records = records_for_two();
    records.records[1].commit_before = String::new();
    let prompts = extract_codex_prompts(&lines, &records, 0);
    let caps = check_codex_rewind_capabilities(false, &prompts, &records, 1).unwrap();
    assert!(!caps.code);
    assert_eq!(
        caps.warning.as_deref(),
        Some("this prompt has no recorded git state; only conversation history can be rewound")
    );
}

#[test]
fn capabilities_code_true_with_recorded_commit() {
    let lines = sample_log();
    let records = records_for_two();
    let prompts = extract_codex_prompts(&lines, &records, 0);
    let caps = check_codex_rewind_capabilities(false, &prompts, &records, 0).unwrap();
    assert!(caps.conversation);
    assert!(caps.code);
    assert!(caps.both);
    assert!(caps.warning.is_none());
    assert_eq!(caps.source, "project");
}

#[test]
fn capabilities_unknown_prompt_is_not_found() {
    let lines = sample_log();
    let records = records_for_two();
    let prompts = extract_codex_prompts(&lines, &records, 0);
    match check_codex_rewind_capabilities(false, &prompts, &records, 5) {
        Err(CoreError::NotFound(m)) => assert_eq!(m, "Prompt #5 not found in session"),
        other => panic!("expected NotFound, got {:?}", other),
    }
}

#[test]
fn revert_conversation_only_succeeds_without_checkpoint() {
    // three prompts (0,1,2); checkpoints recorded for 0 and 1 only
    let lines = sample_log();
    let records = records_for_two();
    let plan = plan_revert_to_prompt(&lines, &records, false, 2, RewindMode::ConversationOnly)
        .unwrap();
    assert_eq!(plan.prompt_text, "third prompt");
    assert!(plan.reset_to.is_none());
    let new_log = plan.new_log.unwrap();
    let left = extract_codex_prompts(&new_log, &plan.new_records.unwrap(), 0);
    assert_eq!(left.len(), 2);
}

#[test]
fn revert_code_only_without_checkpoint_names_the_gap() {
    let lines = sample_log();
    let records = records_for_two();
    match plan_revert_to_prompt(&lines, &records, false, 2, RewindMode::CodeOnly) {
        Err(CoreError::InvalidState(m)) => {
            assert_eq!(m, "cannot rewind code: no git record for prompt #2");
        }
        other => panic!("expected InvalidState, got {:?}", other),
    }
}

#[test]
fn revert_code_modes_refused_when_git_disabled() {
    let lines = sample_log();
    let records = records_for_two();
    match plan_revert_to_prompt(&lines, &records, true, 0, RewindMode::Both) {
        Err(CoreError::InvalidState(m)) => {
            assert_eq!(m, "cannot rewind code: git operations are disabled in the configuration");
        }
        other => panic!("expected InvalidState, got {:?}", other),
    }
}

#[test]
fn revert_both_plans_reset_and_truncation() {
    let lines = sample_log();
    let records = records_for_two();
    let plan = plan_revert_to_prompt(&lines, &records, false, 1, RewindMode::Both).unwrap();
    assert_eq!(plan.reset_to.as_deref(), Some("def456"));
    assert_eq!(plan.prompt_text, "second prompt");
    let new_records = plan.new_records.unwrap();
    assert_eq!(new_records.records.len(), 1);
    assert_eq!(new_records.records[0].prompt_index, 0);
    let left = extract_codex_prompts(&plan.new_log.unwrap(), &new_records, 0);
    assert_eq!(left.len(), 1);
}

#[test]
fn revert_code_only_leaves_log_alone() {
    let lines = sample_log();
    let records = records_for_two();
    let plan = plan_revert_to_prompt(&lines, &records, false, 0, RewindMode::CodeOnly).unwrap();
    assert_eq!(plan.reset_to.as_deref(), Some("abc123"));
    assert!(plan.new_log.is_none());
    assert!(plan.new_records.is_none());
}

#[test]
fn checkpoint_truncation_keeps_strictly_earlier_records() {
    let records = records_for_two();
    let t1 = truncate_codex_git_records(&records, 1);
    assert_eq!(t1.records.len(), 1);
    assert_eq!(t1.records[0].prompt_index, 0);
    let t0 = truncate_codex_git_records(&records, 0);
    assert_eq!(t0.records.len(), 0);
    assert_eq!(t0.session_id, "sess-1");
    assert_eq!(t0.project_path, "/tmp/proj");
}

#[test]
fn checkpoint_append_and_complete() {
    let mut records = CodexGitRecords::empty("sess-9".to_string());
    let idx = records.append_checkpoint(
        "/tmp/proj",
        "abc".to_string(),
        "2024-01-15T10:30:00Z".to_string(),
    );
    assert_eq!(idx, 0);
    assert_eq!(records.project_path, "/tmp/proj");
    let updated = records.complete_checkpoint(0, "def".to_string());
    assert!(updated);
    assert_eq!(records.records[0].commit_after.as_deref(), Some("def"));
    // completing a prompt never sent through the store is a no-op
    let missing = records.complete_checkpoint(7, "zzz".to_string());
    assert!(!missing);
    assert_eq!(records.records.len(), 1);
}

#[test]
fn empty_commit_record_still_joins_as_project() {
    let lines = sample_log();
    let records = CodexGitRecords {
        session_id: "sess-1".to_string(),
        project_path: "/tmp/proj".to_string(),
        records: vec![CodexPromptGitRecord {
            prompt_index: 0,
            commit_before: String::new(),
            commit_after: None,
            timestamp: "2024-01-15T10:30:00Z".to_string(),
        }],
    };
    let prompts = extract_codex_prompts(&lines, &records, 0);
    assert_eq!(prompts[0].source, "project");
    assert_eq!(prompts[0].git_commit_before, "");
}
