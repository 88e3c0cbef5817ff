use wakey::context::memory::MemoryCategory;
use wakey::context::retrieval::{reindex_plan, select_by_category, select_by_prefix};
use wakey::skills::detector::{LoopDetectionResult, StuckReason};
use wakey::skills::fixer::{FixAction, FixResult};
use wakey::skills::sessions::{
    fix_report, idle_sessions, loop_response, new_session, new_session_id, on_agent_error,
    update_session_phase, ErrorStep, FixReport, LoopResponse,
};
use wakey::skills::supervisor::AgentType;

#[test]
fn session_ids_from_type_and_uuid() {
    assert_eq!(
        new_session_id(AgentType::Gsd, "1a2b3c4d-aaaa-bbbb"),
        "gsd-1a2b3c4d"
    );
    assert_eq!(new_session_id(AgentType::Generic, "zz"), "agent-zz");
}

#[test]
fn session_phase_errors_and_idleness() {
    let mut sessions = vec![
        new_session("s1".into(), AgentType::Gsd, "task".into(), None, 1_000),
        new_session("s2".into(), AgentType::Codex, "task".into(), Some("/w".into()), 1_000),
    ];
    assert_eq!(sessions[0].phase, "starting");
    assert_eq!(
        update_session_phase(&mut sessions, "s2", "executing", 5_000),
        Some(AgentType::Codex)
    );
    assert_eq!(sessions[1].phase, "executing");
    assert_eq!(sessions[1].last_activity_ms, 5_000);
    assert_eq!(update_session_phase(&mut sessions, "nope", "x", 0), None);

    assert_eq!(
        on_agent_error(&mut sessions, "s1", true, 3),
        Some((AgentType::Gsd, ErrorStep::AttemptFix))
    );
    assert_eq!(sessions[0].error_count, 1);
    assert_eq!(
        on_agent_error(&mut sessions, "s1", false, 3),
        Some((AgentType::Gsd, ErrorStep::Escalate))
    );
    assert_eq!(on_agent_error(&mut sessions, "s1", true, 0).unwrap().1, ErrorStep::Escalate);
    assert_eq!(on_agent_error(&mut sessions, "zz", true, 3), None);

    let idle = idle_sessions(&sessions, 1_000 + 300_001, 300);
    assert_eq!(idle, vec![(0, 300)]);
    assert!(idle_sessions(&sessions, 1_000 + 300_000, 300).is_empty());
    update_session_phase(&mut sessions, "s1", "completed", 1_000);
    assert!(idle_sessions(&sessions, 10_000_000, 300).iter().all(|e| e.0 != 0));
}

#[test]
fn loop_and_fix_responses() {
    match loop_response(LoopDetectionResult::Break("read x7".into())) {
        LoopResponse::Stuck(StuckReason::LoopDetected(m)) => assert_eq!(m, "read x7"),
        other => panic!("unexpected {:?}", other),
    }
    assert!(matches!(loop_response(LoopDetectionResult::NoLoop), LoopResponse::Nothing));
    match fix_report(FixResult::Failed("boom".into()), &FixAction::FormatCode) {
        FixReport::Tell(n) => assert_eq!(
            n.text,
            "I tried to fix the issue but it didn't work: boom. Want me to try something else?"
        ),
        other => panic!("unexpected {:?}", other),
    }
    match fix_report(FixResult::Success("formatted".into()), &FixAction::FormatCode) {
        FixReport::Fixed(m) => assert_eq!(m, "formatted"),
        other => panic!("unexpected {:?}", other),
    }
}

#[test]
fn retrieval_selection() {
    let keys: Vec<String> = vec![
        "wakey://user/memories/a.md".into(),
        "wakey://user/memories/b.md".into(),
        "wakey://agent/skills/c.md".into(),
        "wakey://user/memories/d.md".into(),
    ];
    assert_eq!(select_by_prefix(&keys, "wakey://user/memories", 2), vec![0, 1]);
    assert_eq!(select_by_prefix(&keys, "wakey://user/memories", 10), vec![0, 1, 3]);
    assert_eq!(select_by_prefix(&keys, "none", 10), Vec::<usize>::new());
    let cats: Vec<String> = vec!["core".into(), "skill".into(), "core".into()];
    assert_eq!(select_by_category(&cats, Some("core")), vec![0, 2]);
    assert_eq!(select_by_category(&cats, None), vec![0, 1, 2]);
    let plan = reindex_plan();
    assert_eq!(plan.len(), 3);
    assert_eq!(plan[0].0.uri(), "wakey://user/memories");
    assert_eq!(plan[2].1, MemoryCategory::Skill);
}
