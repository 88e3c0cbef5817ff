use wakey::skills::detector::{
    activity_verdict, phase_stuck, LoopDetectionResult, StuckReason, SlidingWindow, StuckDetector, ToolCallRecord,
};
use wakey::skills::evolution::{
    check_evolution, content_frontmatter, fix_diff, lineage_record, new_skill_id, EvolutionType,
    SkillOrigin,
};
use wakey::skills::fixer::{
    extract_crate_name, extract_env_var, plan_fix, AutoFixer, FixAction, FixCommand, FixPlan,
};
use wakey::skills::learning::{
    LearningTracker, SkillReviewPrompt, TriggerReason, DEFAULT_NUDGE_INTERVAL,
};
use wakey::skills::quality::{usage_records, SkillMetrics, UsageRecord};
use wakey::skills::reporter::{fix_failed_notice, summarize_issue};
use wakey::skills::supervisor::{AgentType, SupervisorConfig};
use wakey::skills::wasm::{WasmConfig, WasmSandbox};
use wakey::skills::watcher::{
    classify_error, classify_lowered, infer_session_id, parse_gsd_state, parse_log_content, should_debounce,
    WatcherEvent,
};

fn make_config() -> SupervisorConfig {
    SupervisorConfig {
        loop_warning_threshold: 2,
        loop_block_threshold: 4,
        loop_break_threshold: 6,
        activity_timeout_secs: 300,
        ..Default::default()
    }
}

#[test]
fn test_sliding_window_push() {
    let mut window = SlidingWindow::new(5);

    window.push(ToolCallRecord {
        tool: "read".into(),
        args_hash: 1,
    });
    window.push(ToolCallRecord {
        tool: "read".into(),
        args_hash: 1,
    });
    window.push(ToolCallRecord {
        tool: "write".into(),
        args_hash: 2,
    });

    assert_eq!(window.calls.len(), 3);
    assert_eq!(window.consecutive_count(), 1); // Last is different
}

#[test]
fn test_sliding_window_consecutive() {
    let mut window = SlidingWindow::new(10);

    for _ in 0..5 {
        window.push(ToolCallRecord {
            tool: "read".into(),
            args_hash: 1,
        });
    }

    assert_eq!(window.consecutive_count(), 5);
}

#[test]
fn test_loop_detection_warning() {
    let config = make_config();
    let mut detector = StuckDetector::new(&config);

    detector.register_session("test");

    let result = detector.record("test", "read", 1);
    assert_eq!(result, LoopDetectionResult::NoLoop);

    let result = detector.record("test", "read", 1);
    assert!(matches!(result, LoopDetectionResult::Warning(_)));
}

#[test]
fn test_loop_detection_block() {
    let config = make_config();
    let mut detector = StuckDetector::new(&config);

    detector.register_session("test");

    for _ in 0..4 {
        detector.record("test", "read", 1);
    }

    let result = detector.record("test", "read", 1);
    assert!(matches!(result, LoopDetectionResult::Block(_)));
}

#[test]
fn test_loop_detection_break() {
    let config = make_config();
    let mut detector = StuckDetector::new(&config);

    detector.register_session("test");

    for _ in 0..6 {
        detector.record("test", "read", 1);
    }

    let result = detector.record("test", "read", 1);
    assert!(matches!(result, LoopDetectionResult::Break(_)));
}

#[test]
fn test_different_tools_no_loop() {
    let config = make_config();
    let mut detector = StuckDetector::new(&config);

    detector.register_session("test");

    detector.record("test", "read", 1);
    detector.record("test", "write", 2);
    detector.record("test", "read", 1);
    detector.record("test", "write", 2);

    let result = detector.record("test", "read", 1);
    assert_eq!(result, LoopDetectionResult::NoLoop);
}

#[test]
fn test_ping_pong_detection() {
    let mut window = SlidingWindow::new(10);

    for _ in 0..3 {
        window.push(ToolCallRecord {
            tool: "read".into(),
            args_hash: 1,
        });
        window.push(ToolCallRecord {
            tool: "write".into(),
            args_hash: 2,
        });
    }

    let result = window.check_ping_pong();
    assert!(result.is_some());

    let (tool_a, tool_b, cycles) = result.unwrap();
    assert_eq!(tool_a, "read");
    assert_eq!(tool_b, "write");
    assert!(cycles >= 2);
}

#[test]
fn window_drops_oldest_beyond_its_size() {
    let mut window = SlidingWindow::new(2);
    for h in 0..4u64 {
        window.push(ToolCallRecord { tool: "t".into(), args_hash: h });
    }
    assert_eq!(window.calls.len(), 2);
    assert_eq!(window.calls[0].args_hash, 2);
    window.clear();
    assert_eq!(window.calls.len(), 0);
    assert_eq!(window.consecutive_count(), 0);
}

#[test]
fn reset_session_quiets_the_detector() {
    let config = make_config();
    let mut detector = StuckDetector::new(&config);
    detector.register_session("s");
    for _ in 0..5 {
        detector.record("s", "read", 1);
    }
    detector.reset_session("s");
    assert_eq!(detector.record("s", "read", 1), LoopDetectionResult::NoLoop);
    assert_eq!(detector.record_error("s"), 1);
    assert_eq!(detector.error_count("s"), Some(1));
    detector.remove_session("s");
    assert_eq!(detector.error_count("s"), None);
}

#[test]
fn test_is_auto_fixable() {
    let fixer = AutoFixer::new(3);

    assert!(fixer.is_auto_fixable("missing_crate"));
    assert!(fixer.is_auto_fixable("format_error"));
    assert!(fixer.is_auto_fixable("rate_limit"));
    assert!(!fixer.is_auto_fixable("unknown_pattern"));
}

#[test]
fn test_get_risk_level() {
    let fixer = AutoFixer::new(3);

    assert_eq!(fixer.get_risk_level("format_error"), "low");
    assert_eq!(fixer.get_risk_level("auth_failure"), "high");
    assert_eq!(fixer.get_risk_level("unknown"), "high");
}

#[test]
fn test_extract_crate_name() {
    assert_eq!(
        extract_crate_name("cannot find crate `serde_json`"),
        Some("serde_json".to_string())
    );

    assert_eq!(
        extract_crate_name("unresolved import `tokio::runtime`"),
        Some("tokio".to_string())
    );

    assert_eq!(extract_crate_name("some other error"), None);
}

#[test]
fn test_extract_env_var() {
    assert_eq!(
        extract_env_var("OPENAI_API_KEY is not set"),
        Some("OPENAI_API_KEY".to_string())
    );

    assert_eq!(
        extract_env_var("Missing required environment variable: ANTHROPIC_API_KEY"),
        Some("ANTHROPIC_API_KEY".to_string())
    );

    assert_eq!(extract_env_var("some other error"), None);
}

#[test]
fn test_retry_tracking() {
    let mut fixer = AutoFixer::new(3);

    assert!(fixer.record_retry("session-1"));
    assert!(fixer.record_retry("session-1"));
    assert!(fixer.record_retry("session-1"));
    assert!(!fixer.record_retry("session-1")); // Should fail on 4th try

    assert_eq!(fixer.get_retry_count("session-1"), 4);

    fixer.reset_retries("session-1");
    assert_eq!(fixer.get_retry_count("session-1"), 0);
}

#[test]
fn fix_actions_and_plans() {
    let fixer = AutoFixer::new(3);
    match fixer.get_fix_action("missing_crate") {
        Some(FixAction::InstallCrate { .. }) => {}
        other => panic!("unexpected {:?}", other),
    }
    assert!(fixer.get_fix_action("nope").is_none());
    match plan_fix(&FixAction::FormatCode) {
        FixPlan::Run { kind, program, args, .. } => {
            assert_eq!(kind, FixCommand::Format);
            assert_eq!(program, "cargo");
            assert_eq!(args, vec!["fmt", "--all"]);
        }
        other => panic!("unexpected {:?}", other),
    }
    match plan_fix(&FixAction::WaitAndRetry { delay_secs: 7 }) {
        FixPlan::Wait { delay_secs } => assert_eq!(delay_secs, 7),
        other => panic!("unexpected {:?}", other),
    }
}

#[test]
fn test_agent_type_display() {
    assert_eq!(AgentType::Gsd.to_string(), "GSD");
    assert_eq!(AgentType::ClaudeCode.to_string(), "ClaudeCode");
}

#[test]
fn test_default_config() {
    let config = SupervisorConfig::default();
    assert_eq!(config.activity_timeout_secs, 300);
    assert_eq!(config.loop_warning_threshold, 2);
    assert_eq!(config.max_auto_retries, 3);
}

#[test]
fn test_summarize_issue() {
    let short = "Error: something went wrong";
    assert_eq!(summarize_issue(short), short);

    let long = "x".repeat(300);
    let summarized = summarize_issue(&long);
    assert!(summarized.len() <= 200);
    assert!(summarized.ends_with("..."));
}

#[test]
fn summary_cuts_at_197_characters() {
    let long = "y".repeat(201);
    assert_eq!(summarize_issue(&long), format!("{}...", "y".repeat(197)));
    let exact = "z".repeat(200);
    assert_eq!(summarize_issue(&exact), exact);
    let notice = fix_failed_notice("boom");
    assert!(notice.text.contains("boom"));
}

#[test]
fn test_parse_gsd_state() {
    let content = r#"# GSD State

Status: running
Phase: executing
Milestone: M001
Slice: S01
Task: T01
Updated: 2024-01-15T10:30:00Z
"#;

    let state = parse_gsd_state(content).unwrap();
    assert_eq!(state.status, "running");
    assert_eq!(state.phase, "executing");
    assert_eq!(state.milestone, "M001");
}

#[test]
fn test_classify_error() {
    assert_eq!(classify_error("cannot find crate `serde`"), "missing_crate");
    assert_eq!(classify_error("error[E0277]: trait bound"), "compile_error");
    assert_eq!(classify_error("rate limit exceeded"), "rate_limit");
    assert_eq!(classify_error("401 Unauthorized"), "auth_failure");
}

#[test]
fn classify_error_ignores_case_and_falls_back() {
    assert_eq!(classify_error("CANNOT FIND CRATE x"), "missing_crate");
    assert_eq!(classify_error("Clippy says no"), "lint_error");
    assert_eq!(classify_error("cargo fmt failed"), "format_error");
    assert_eq!(classify_error("strange"), "unknown");
}

#[test]
fn session_ids_and_debounce() {
    assert_eq!(infer_session_id(".gsd/worktrees/M001-abc/log.jsonl"), "M001-abc");
    assert_eq!(infer_session_id(".gsd/logs/run.jsonl"), "default");
    assert!(should_debounce(Some(100), 500));
    assert!(!should_debounce(Some(600), 500));
    assert!(!should_debounce(None, 500));
}

#[test]
fn log_lines_give_errors_and_tool_calls() {
    let content = "not json\n{\"error\":\"rate limit exceeded\"}\n{\"tool\":\"read\",\"args\":{\"p\":1}}\n{\"tool\":\"read\",\"args\":{\"p\":1}}";
    let events = parse_log_content("x/M9-1/log", content);
    assert_eq!(events.len(), 3);
    match &events[0] {
        WatcherEvent::ErrorDetected { session_id, error, pattern } => {
            assert_eq!(session_id, "M9-1");
            assert_eq!(error, "rate limit exceeded");
            assert_eq!(pattern, "rate_limit");
        }
        other => panic!("unexpected {:?}", other),
    }
    let hash_of = |e: &WatcherEvent| match e {
        WatcherEvent::ToolCall { tool, args_hash, .. } => {
            assert_eq!(tool, "read");
            *args_hash
        }
        other => panic!("unexpected {:?}", other),
    };
    assert_eq!(hash_of(&events[1]), hash_of(&events[2]));
    let other = parse_log_content("p", "{\"tool\":\"read\",\"args\":{\"p\":2}}");
    assert_ne!(hash_of(&other[0]), hash_of(&events[1]));
}

#[test]
fn test_new_tracker() {
    let tracker = LearningTracker::new();
    let stats = tracker.stats();

    assert_eq!(stats.iters_since_skill, 0);
    assert_eq!(stats.nudge_interval, DEFAULT_NUDGE_INTERVAL);
}

#[test]
fn test_on_tool_call() {
    let mut tracker = LearningTracker::new();

    tracker.on_tool_call();
    tracker.on_tool_call();

    let stats = tracker.stats();
    assert_eq!(stats.iters_since_skill, 2);
    assert_eq!(stats.total_iterations, 2);
}

#[test]
fn test_on_skill_use() {
    let mut tracker = LearningTracker::new();

    tracker.on_tool_call();
    tracker.on_tool_call();
    tracker.on_skill_use();

    let stats = tracker.stats();
    assert_eq!(stats.iters_since_skill, 0);
    assert_eq!(stats.total_iterations, 2);
}

#[test]
fn test_should_nudge_iteration() {
    let mut tracker = LearningTracker::with_interval(5);

    for _ in 0..4 {
        tracker.on_tool_call();
    }
    assert!(!tracker.should_nudge());

    tracker.on_tool_call();
    assert!(tracker.should_nudge());
}

#[test]
fn test_should_nudge_errors() {
    let mut tracker = LearningTracker::new();

    tracker.on_error();
    tracker.on_error();
    tracker.on_tool_call();
    tracker.on_tool_call();
    assert!(!tracker.should_nudge());

    tracker.on_tool_call();
    assert!(tracker.should_nudge());
}

#[test]
fn test_should_nudge_correction() {
    let mut tracker = LearningTracker::new();

    tracker.on_user_correction();
    tracker.on_tool_call();
    tracker.on_tool_call();
    assert!(!tracker.should_nudge());

    tracker.on_tool_call();
    assert!(tracker.should_nudge());
}

#[test]
fn test_consume_nudge() {
    let mut tracker = LearningTracker::with_interval(3);

    for _ in 0..3 {
        tracker.on_tool_call();
    }

    assert!(tracker.consume_nudge());

    let stats = tracker.stats();
    assert_eq!(stats.iters_since_skill, 0);
}

#[test]
fn test_trigger_reason() {
    let mut tracker = LearningTracker::with_interval(5);

    assert_eq!(tracker.trigger_reason(), None);

    for _ in 0..5 {
        tracker.on_tool_call();
    }
    assert_eq!(
        tracker.trigger_reason(),
        Some(TriggerReason::IterationCount)
    );

    tracker.reset();

    tracker.on_error();
    tracker.on_error();
    tracker.on_tool_call();
    tracker.on_tool_call();
    tracker.on_tool_call();
    assert_eq!(
        tracker.trigger_reason(),
        Some(TriggerReason::ErrorsOvercome)
    );

    tracker.reset();

    tracker.on_user_correction();
    tracker.on_tool_call();
    tracker.on_tool_call();
    tracker.on_tool_call();
    assert_eq!(
        tracker.trigger_reason(),
        Some(TriggerReason::UserCorrection)
    );
}

#[test]
fn test_is_complex_task() {
    let mut tracker = LearningTracker::new();

    for _ in 0..4 {
        tracker.on_tool_call();
    }
    assert!(!tracker.is_complex_task());

    tracker.on_tool_call();
    assert!(tracker.is_complex_task());
}

#[test]
fn test_learning_tracker() {
    let mut tracker = LearningTracker::new();
    tracker.on_tool_call();
    tracker.on_tool_call();
    let stats = tracker.stats();
    assert_eq!(stats.total_iterations, 2);
}

#[test]
fn test_skill_review_prompt() {
    let prompt =
        SkillReviewPrompt::build(TriggerReason::IterationCount, "Deployed app to production");

    assert!(prompt.contains("complex task was completed"));
    assert!(prompt.contains("Deployed app"));
    assert!(prompt.contains("SKILL_ACTION"));
}

#[test]
fn consuming_a_nudge_clears_it() {
    let mut tracker = LearningTracker::with_interval(2);
    assert!(!tracker.consume_nudge());
    tracker.on_tool_call();
    tracker.on_tool_call();
    assert!(tracker.consume_nudge());
    assert!(!tracker.should_nudge());
    assert_eq!(tracker.trigger_reason(), None);
}

#[test]
fn test_evolution_type_display() {
    assert_eq!(EvolutionType::Fix.to_string(), "fix");
    assert_eq!(EvolutionType::Derived.to_string(), "derived");
    assert_eq!(EvolutionType::Captured.to_string(), "captured");
}

#[test]
fn test_skill_origin_display() {
    assert_eq!(SkillOrigin::Imported.to_string(), "imported");
    assert_eq!(SkillOrigin::Captured.to_string(), "captured");
    assert_eq!(SkillOrigin::Derived.to_string(), "derived");
    assert_eq!(SkillOrigin::Fixed.to_string(), "fixed");
}

#[test]
fn origins_round_trip_and_ids() {
    for o in [SkillOrigin::Imported, SkillOrigin::Captured, SkillOrigin::Derived, SkillOrigin::Fixed] {
        assert_eq!(SkillOrigin::from_stored(&o.to_string()), o);
    }
    assert_eq!(SkillOrigin::from_stored("other"), SkillOrigin::Imported);
    let id = new_skill_id("new-skill", EvolutionType::Captured, "1a2b3c4d-0000-1111");
    assert_eq!(id, "new-skill__cap_1a2b3c4d");
    assert!(id.starts_with("new-skill__cap_"));
    assert_eq!(fix_diff("typo"), "FIX: typo");
    assert_eq!(
        check_evolution(EvolutionType::Fix, None).as_deref(),
        Some("FIX evolution requires skill_id")
    );
    assert_eq!(check_evolution(EvolutionType::Captured, None), None);
    assert_eq!(check_evolution(EvolutionType::Derived, Some("s")), None);
}

#[test]
fn content_frontmatter_cases() {
    assert_eq!(
        content_frontmatter("---\nname: a\n---\nbody"),
        Ok("\nname: a\n".to_string())
    );
    assert_eq!(
        content_frontmatter("no dashes"),
        Err("Missing YAML frontmatter".to_string())
    );
    assert_eq!(
        content_frontmatter("---\nname: a"),
        Err("Malformed YAML frontmatter".to_string())
    );
}

#[test]
fn test_wasm_config_default() {
    let config = WasmConfig::default();
    assert_eq!(config.max_fuel, 1_000_000_000);
    assert_eq!(config.max_memory, 16 * 1024 * 1024);
}

#[test]
fn test_wasm_sandbox_unavailable() {
    let sandbox = WasmSandbox::new(WasmConfig::default()).expect("Create");
    assert!(!sandbox.is_available());
}

#[test]
fn wasm_execution_is_refused() {
    let sandbox = WasmSandbox::new(WasmConfig::default()).expect("Create");
    assert!(sandbox.execute(&[0, 1], &[]).is_err());
}

#[test]
fn lineage_records_by_evolution() {
    let fix = lineage_record(
        EvolutionType::Fix,
        "deploy__fix_1".into(),
        "deploy".into(),
        Some(("deploy__cap_0".into(), 2)),
        Some("task-1".into()),
        "typo",
        "gpt-4",
        100,
    );
    assert_eq!(fix.origin, SkillOrigin::Fixed);
    assert_eq!(fix.generation, 3);
    assert_eq!(fix.parent_ids, vec!["deploy__cap_0"]);
    assert_eq!(fix.content_diff, "FIX: typo");
    let derived = lineage_record(
        EvolutionType::Derived,
        "d__drv_1".into(),
        "d".into(),
        Some(("p".into(), 5)),
        None,
        "x",
        "human",
        1,
    );
    assert_eq!(derived.generation, 0);
    assert_eq!(derived.parent_ids, vec!["p"]);
    assert_eq!(derived.content_diff, "");
    let captured = lineage_record(
        EvolutionType::Captured, "c__cap_1".into(), "c".into(), None, None, "s", "m", 0,
    );
    assert_eq!(captured.origin, SkillOrigin::Captured);
    assert!(captured.parent_ids.is_empty());
    assert_eq!(captured.generation, 0);
}

#[test]
fn test_is_degraded() {
    // Not degraded: good completion rate
    let good = SkillMetrics {
        total_selections: 10,
        total_applied: 5,
        total_completions: 4,
        total_fallbacks: 1,
        last_updated: 0,
    };
    assert!(!good.is_degraded());

    // Degraded: low completion rate
    let bad = SkillMetrics {
        total_selections: 10,
        total_applied: 5,
        total_completions: 1,
        total_fallbacks: 4,
        last_updated: 0,
    };
    assert!(bad.is_degraded());

    // Not degraded: not enough applications
    let insufficient = SkillMetrics {
        total_selections: 10,
        total_applied: 2,
        total_completions: 0,
        total_fallbacks: 2,
        last_updated: 0,
    };
    assert!(!insufficient.is_degraded());
}

#[test]
fn exactly_half_completed_is_not_degraded() {
    let half = SkillMetrics {
        total_selections: 4,
        total_applied: 4,
        total_completions: 2,
        total_fallbacks: 2,
        last_updated: 0,
    };
    assert!(!half.is_degraded());
}

#[test]
fn a_use_raises_its_counters() {
    assert_eq!(
        usage_records(true, true, false),
        vec![UsageRecord::Selection, UsageRecord::Applied, UsageRecord::Completion]
    );
    assert_eq!(usage_records(false, true, true), vec![UsageRecord::Selection]);
    let mut m = SkillMetrics::new();
    for r in usage_records(true, true, false) {
        m.record(r, 42);
    }
    assert_eq!(m.total_selections, 1);
    assert_eq!(m.total_applied, 1);
    assert_eq!(m.total_completions, 1);
    assert_eq!(m.total_fallbacks, 0);
    assert_eq!(m.last_updated, 42);
}

#[test]
fn inactivity_beyond_the_timeout_is_stuck() {
    assert!(matches!(activity_verdict(301, 300), Some(StuckReason::NoActivity)));
    assert!(activity_verdict(300, 300).is_none());
    assert!(activity_verdict(0, 300).is_none());
}

#[test]
fn the_window_counts_each_call() {
    let rec = |tool: &str, h: u64| ToolCallRecord { tool: tool.into(), args_hash: h };
    let mut window = SlidingWindow::new(3);
    window.push(rec("read", 1));
    window.push(rec("read", 1));
    window.push(rec("write", 2));
    assert_eq!(window.count(&rec("read", 1)), Some(2));
    assert_eq!(window.count(&rec("write", 2)), Some(1));
    assert_eq!(window.count(&rec("read", 2)), None);
    assert_eq!(window.unique_count(), 2);
    window.push(rec("grep", 3));
    assert_eq!(window.count(&rec("read", 1)), Some(1));
    assert_eq!(window.unique_count(), 3);
    window.clear();
    assert_eq!(window.count(&rec("grep", 3)), None);
    assert_eq!(window.unique_count(), 0);
}

fn recorded(records: &[UsageRecord]) -> SkillMetrics {
    let mut m = SkillMetrics::new();
    for r in records {
        m.record(*r, 1);
    }
    m
}

#[test]
fn test_record_selection() {
    let metrics = recorded(&[UsageRecord::Selection]);
    assert_eq!(metrics.total_selections, 1);
}

#[test]
fn test_record_applied() {
    let metrics = recorded(&[UsageRecord::Applied]);
    assert_eq!(metrics.total_applied, 1);
}

#[test]
fn test_record_completion() {
    let metrics = recorded(&[UsageRecord::Completion]);
    assert_eq!(metrics.total_completions, 1);
}

#[test]
fn test_record_fallback() {
    let metrics = recorded(&[UsageRecord::Fallback]);
    assert_eq!(metrics.total_fallbacks, 1);
}

#[test]
fn test_get_degraded() {
    // Degraded skill (low completion rate)
    let bad = recorded(&[
        UsageRecord::Selection,
        UsageRecord::Applied,
        UsageRecord::Applied,
        UsageRecord::Applied,
        UsageRecord::Fallback,
        UsageRecord::Fallback,
    ]);
    // Good skill
    let good = recorded(&[
        UsageRecord::Selection,
        UsageRecord::Applied,
        UsageRecord::Applied,
        UsageRecord::Applied,
        UsageRecord::Completion,
        UsageRecord::Completion,
        UsageRecord::Completion,
    ]);
    let skills = [("bad-skill", bad), ("good-skill", good)];
    let degraded: Vec<&str> = skills
        .iter()
        .filter(|(_, m)| m.is_degraded())
        .map(|(name, _)| *name)
        .collect();
    assert!(degraded.contains(&"bad-skill"));
    assert!(!degraded.contains(&"good-skill"));
}

#[test]
fn test_record_usage() {
    let metrics = recorded(&usage_records(true, true, false));
    assert_eq!(metrics.total_selections, 1);
    assert_eq!(metrics.total_applied, 1);
    assert_eq!(metrics.total_completions, 1);
    assert_eq!(metrics.total_fallbacks, 0);
}

#[test]
fn a_removed_session_is_simply_absent() {
    let config = SupervisorConfig::default();
    let mut detector = StuckDetector::new(&config);
    detector.register_session("s1");
    assert_eq!(detector.record_error("s1"), 1);
    assert_eq!(detector.record_error("s1"), 2);
    detector.reset_session("s1");
    assert_eq!(detector.record_error("s1"), 1);
    detector.remove_session("s1");
    assert_eq!(detector.record_error("s1"), 0);
    assert!(detector.update_phase("s1", "planning").is_none());
    assert!(detector.check_activity("s1").is_none());
}

#[test]
fn lowered_errors_are_classified() {
    assert_eq!(classify_lowered("error[e0425]: cannot find value"), "compile_error");
    assert_eq!(classify_lowered("http 429"), "rate_limit");
    assert_eq!(classify_lowered("something else"), "unknown");
    assert_eq!(classify_error("Rate Limit exceeded"), "rate_limit");
}

#[test]
fn long_phases_get_three_timeouts() {
    assert!(!phase_stuck("planning", 30, 10));
    assert!(phase_stuck("planning", 31, 10));
    assert!(phase_stuck("idle", 11, 10));
    assert!(!phase_stuck("idle", 10, 10));
    assert!(!phase_stuck("testing", 0, 0));
    assert!(phase_stuck("testing", 1, 0));
    assert!(!phase_stuck("compiling", u64::MAX, u64::MAX / 3 + 1));
    assert!(phase_stuck("compiling", u64::MAX, u64::MAX / 3 - 1));
}

#[test]
fn an_unchanged_phase_with_the_longest_timeout_is_not_stuck() {
    let mut config = SupervisorConfig::default();
    config.activity_timeout_secs = u64::MAX;
    let mut detector = StuckDetector::new(&config);
    detector.register_session("s1");
    assert!(detector.update_phase("s1", "planning").is_none());
    assert!(detector.update_phase("s1", "planning").is_none());
    assert!(detector.update_phase("s1", "idle").is_none());
    assert!(detector.update_phase("s1", "idle").is_none());
}
