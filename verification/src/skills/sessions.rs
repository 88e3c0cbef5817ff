//! The supervisor's decisions about the agent sessions it tracks: naming a
//! new session, following its phase, answering its errors and loops, and
//! finding the ones idle for too long.
use vstd::prelude::*;
use crate::skills::detector::{index_of, lemma_index_of, LoopDetectionResult, StuckReason};
use crate::skills::fixer::{FixAction, FixResult};
use crate::skills::reporter::{approval_notice, approval_text, fix_failed_notice, summarize_spec, Notice};
use crate::skills::supervisor::{agent_type_name, AgentType};
use crate::text::{
    append_chars, before_first, before_first_exec, chars_of, lowercase, lowercase_exec, replace,
    replace_exec, str_eq, string_of,
};
use crate::types::Urgency;

verus! {

/// Agent session being supervised; times are milliseconds since the epoch.
#[derive(Debug, Clone)]
pub struct AgentSession {
    /// Unique session identifier
    pub id: String,
    /// Type of agent
    pub agent_type: AgentType,
    /// Task being worked on
    pub task: String,
    /// Worktree path if applicable
    pub worktree: Option<String>,
    /// Process ID if known
    pub pid: Option<u32>,
    /// Current phase
    pub phase: String,
    /// Last activity, in milliseconds since the epoch
    pub last_activity_ms: u64,
    /// Number of consecutive errors
    pub error_count: usize,
    /// Number of fix retries attempted
    pub retry_count: usize,
}

/// The id of a new session: the agent type's name in lower case with spaces
/// as dashes, a dash, and the first group of a fresh UUID.
pub open spec fn session_id_spec(t: AgentType, uuid: Seq<char>) -> Seq<char> {
    replace(lowercase(agent_type_name(t)), seq![' '], seq!['-']) + seq!['-'] + before_first(
        uuid,
        seq!['-'],
    )
}

/// The id of a new session of an agent type, from a fresh UUID.
pub fn new_session_id(agent_type: AgentType, uuid: &str) -> (r: String)
    ensures
        r@ == session_id_spec(agent_type, uuid@),
{
    let name = agent_type.to_string();
    let low = lowercase_exec(&chars_of(name.as_str()));
    let sp = vec![' '];
    let dash = vec!['-'];
    assert(sp@ == seq![' ']);
    assert(dash@ == seq!['-']);
    let mut out = replace_exec(&low, &sp, &dash);
    out.push('-');
    let head = before_first_exec(&chars_of(uuid), &dash);
    append_chars(&mut out, &head);
    string_of(&out)
}

/// A session just spawned: in phase `starting`, active now, with no errors
/// or retries and no known process.
pub fn new_session(id: String, agent_type: AgentType, task: String, worktree: Option<String>, now_ms: u64) -> (r: AgentSession)
    ensures
        r.id == id,
        r.agent_type == agent_type,
        r.task == task,
        r.worktree == worktree,
        r.pid is None,
        r.phase@ == "starting"@,
        r.last_activity_ms == now_ms,
        r.error_count == 0,
        r.retry_count == 0,
{
    AgentSession {
        id,
        agent_type,
        task,
        worktree,
        pid: None,
        phase: String::from_str("starting"),
        last_activity_ms: now_ms,
        error_count: 0,
        retry_count: 0,
    }
}

/// The ids of the sessions.
pub open spec fn session_ids(s: Seq<AgentSession>) -> Seq<Seq<char>> {
    s.map_values(|x: AgentSession| x.id@)
}

fn find_session(sessions: &Vec<AgentSession>, id: &str) -> (r: Option<usize>)
    ensures
        match r {
            Some(i) => index_of(session_ids(sessions@), id@) == Some(i as int),
            None => index_of(session_ids(sessions@), id@) is None,
        },
{
    let ghost ids = session_ids(sessions@);
    proof {
        lemma_index_of(ids, id@);
    }
    let mut i: usize = 0;
    while i < sessions.len()
        invariant
            i <= sessions@.len(),
            ids == session_ids(sessions@),
            forall|k: int| 0 <= k < i ==> ids[k] != id@,
        decreases sessions.len() - i,
    {
        if str_eq(sessions[i].id.as_str(), id) {
            proof {
                assert(ids[i as int] == id@);
                lemma_index_of(ids, id@);
            }
            return Some(i);
        }
        i = i + 1;
    }
    None
}

/// Records a new phase of a session, active now; returns the session's agent
/// type, or none for an unknown session.
pub fn update_session_phase(sessions: &mut Vec<AgentSession>, session_id: &str, phase: &str, now_ms: u64) -> (r: Option<AgentType>)
    ensures
        match index_of(session_ids(old(sessions)@), session_id@) {
            None => r is None && final(sessions)@ == old(sessions)@,
            Some(i) => r == Some(old(sessions)@[i].agent_type) && final(sessions)@.len() == old(
                sessions,
            )@.len() && (forall|k: int|
                0 <= k < old(sessions)@.len() && k != i ==> final(sessions)@[k] == old(
                    sessions,
                )@[k]) && final(sessions)@[i].phase@ == phase@ && final(sessions)@[i].last_activity_ms
                == now_ms && final(sessions)@[i].id == old(sessions)@[i].id && final(sessions)@[i].error_count
                == old(sessions)@[i].error_count && final(sessions)@[i].retry_count == old(
                sessions,
            )@[i].retry_count,
        },
{
    match find_session(sessions, session_id) {
        None => None,
        Some(i) => {
            proof {
                lemma_index_of(session_ids(sessions@), session_id@);
            }
            let mut s = sessions.remove(i);
            s.phase = String::from_str(phase);
            s.last_activity_ms = now_ms;
            let t = s.agent_type;
            sessions.insert(i, s);
            Some(t)
        },
    }
}

/// What the supervisor does about an agent's error.
#[derive(Debug, Clone, Copy, PartialEq, Eq)]
pub enum ErrorStep {
    /// Try the known fix.
    AttemptFix,
    /// Ask the human.
    Escalate,
}

/// The answer to an error: a fix while one is known and retries remain,
/// else the human is asked.
pub open spec fn error_step_spec(auto_fixable: bool, retry_count: usize, max_retries: usize) -> ErrorStep {
    if auto_fixable && retry_count < max_retries {
        ErrorStep::AttemptFix
    } else {
        ErrorStep::Escalate
    }
}

/// Counts an error of a session and decides what to do; none for an unknown
/// session, which is left alone.
pub fn on_agent_error(sessions: &mut Vec<AgentSession>, session_id: &str, auto_fixable: bool, max_retries: usize) -> (r: Option<(AgentType, ErrorStep)>)
    requires
        index_of(session_ids(old(sessions)@), session_id@) matches Some(i) ==> old(sessions)@[i].error_count
            < usize::MAX,
    ensures
        match index_of(session_ids(old(sessions)@), session_id@) {
            None => r is None && final(sessions)@ == old(sessions)@,
            Some(i) => r == Some(
                (
                    old(sessions)@[i].agent_type,
                    error_step_spec(auto_fixable, old(sessions)@[i].retry_count, max_retries),
                ),
            ) && final(sessions)@.len() == old(sessions)@.len() && (forall|k: int|
                0 <= k < old(sessions)@.len() && k != i ==> final(sessions)@[k] == old(
                    sessions,
                )@[k]) && final(sessions)@[i].error_count == old(sessions)@[i].error_count + 1
                && final(sessions)@[i].retry_count == old(sessions)@[i].retry_count
                && final(sessions)@[i].id == old(sessions)@[i].id && final(sessions)@[i].phase
                == old(sessions)@[i].phase && final(sessions)@[i].last_activity_ms == old(
                sessions,
            )@[i].last_activity_ms,
        },
{
    match find_session(sessions, session_id) {
        None => None,
        Some(i) => {
            proof {
                lemma_index_of(session_ids(sessions@), session_id@);
            }
            let mut s = sessions.remove(i);
            s.error_count = s.error_count + 1;
            let t = s.agent_type;
            let step = if auto_fixable && s.retry_count < max_retries {
                ErrorStep::AttemptFix
            } else {
                ErrorStep::Escalate
            };
            sessions.insert(i, s);
            Some((t, step))
        },
    }
}

/// A session is idle when more than the timeout passed since its last
/// activity and it has not completed or failed.
pub open spec fn is_idle(s: AgentSession, now_ms: u64, timeout_secs: u64) -> bool {
    &&& now_ms >= s.last_activity_ms
    &&& now_ms - s.last_activity_ms > timeout_secs * 1000
    &&& s.phase@ != "completed"@
    &&& s.phase@ != "failed"@
}

/// The idle sessions among the first `k`, each with its whole idle seconds,
/// in order.
pub open spec fn idle_entries(s: Seq<AgentSession>, now_ms: u64, timeout_secs: u64, k: int) -> Seq<(nat, nat)>
    decreases k,
{
    if k <= 0 {
        Seq::empty()
    } else {
        let prev = idle_entries(s, now_ms, timeout_secs, k - 1);
        if is_idle(s[k - 1], now_ms, timeout_secs) {
            prev.push(((k - 1) as nat, ((now_ms - s[k - 1].last_activity_ms) / 1000) as nat))
        } else {
            prev
        }
    }
}

/// The sessions idle for too long, with how many whole seconds each has been
/// idle.
pub fn idle_sessions(sessions: &Vec<AgentSession>, now_ms: u64, timeout_secs: u64) -> (r: Vec<(usize, u64)>)
    ensures
        r@.map_values(|e: (usize, u64)| (e.0 as nat, e.1 as nat)) == idle_entries(
            sessions@,
            now_ms,
            timeout_secs,
            sessions@.len() as int,
        ),
{
    let mut out: Vec<(usize, u64)> = Vec::new();
    let mut i: usize = 0;
    while i < sessions.len()
        invariant
            i <= sessions@.len(),
            out@.map_values(|e: (usize, u64)| (e.0 as nat, e.1 as nat)) == idle_entries(
                sessions@,
                now_ms,
                timeout_secs,
                i as int,
            ),
        decreases sessions.len() - i,
    {
        let s = &sessions[i];
        let ghost before = out@;
        proof {
            reveal_strlit("completed");
            reveal_strlit("failed");
        }
        if now_ms >= s.last_activity_ms {
            let idle = now_ms - s.last_activity_ms;
            if (idle as u128) > (timeout_secs as u128) * 1000 && !str_eq(s.phase.as_str(), "completed")
                && !str_eq(s.phase.as_str(), "failed") {
                out.push((i, idle / 1000));
                assert(out@.map_values(|e: (usize, u64)| (e.0 as nat, e.1 as nat)) =~= before.map_values(
                    |e: (usize, u64)| (e.0 as nat, e.1 as nat),
                ).push((i as nat, (idle / 1000) as nat)));
            }
        }
        i = i + 1;
    }
    out
}

/// What the supervisor does about a loop check.
#[derive(Debug, Clone)]
pub enum LoopResponse {
    /// Nothing to do.
    Nothing,
    /// Log the warning only.
    Log(String),
    /// Report the agent as blocked, with the message.
    Blocked(String),
    /// Treat the agent as stuck.
    Stuck(StuckReason),
}

/// The response to a loop check: a warning is only logged, a block is
/// reported as progress, a break makes the agent stuck in a loop.
pub fn loop_response(result: LoopDetectionResult) -> (r: LoopResponse)
    ensures
        match result {
            LoopDetectionResult::NoLoop => r is Nothing,
            LoopDetectionResult::Warning(m) => r matches LoopResponse::Log(x) && x == m,
            LoopDetectionResult::Block(m) => r matches LoopResponse::Blocked(x) && x == m,
            LoopDetectionResult::Break(m) => r matches LoopResponse::Stuck(StuckReason::LoopDetected(x))
                && x == m,
        },
{
    match result {
        LoopDetectionResult::NoLoop => LoopResponse::Nothing,
        LoopDetectionResult::Warning(m) => LoopResponse::Log(m),
        LoopDetectionResult::Block(m) => LoopResponse::Blocked(m),
        LoopDetectionResult::Break(m) => LoopResponse::Stuck(StuckReason::LoopDetected(m)),
    }
}

/// What follows a fix attempt.
#[derive(Debug, Clone)]
pub enum FixReport {
    /// The fix worked; the message says how.
    Fixed(String),
    /// Tell the human.
    Tell(Notice),
}

/// The report of a fix: a success is announced as a fix, a failure and a
/// fix awaiting approval are told to the human.
pub fn fix_report(result: FixResult, action: &FixAction) -> (r: FixReport)
    ensures
        match result {
            FixResult::Success(m) => r matches FixReport::Fixed(x) && x == m,
            FixResult::Failed(m) => r matches FixReport::Tell(n) && n.text@
                == "I tried to fix the issue but it didn't work: "@ + summarize_spec(m@)
                + ". Want me to try something else?"@ && n.urgency == Urgency::Medium,
            FixResult::NeedsApproval => r matches FixReport::Tell(n) && n.text@ == approval_text(
                *action,
            ) && n.urgency == Urgency::Medium,
        },
{
    match result {
        FixResult::Success(m) => FixReport::Fixed(m),
        FixResult::Failed(m) => FixReport::Tell(fix_failed_notice(m.as_str())),
        FixResult::NeedsApproval => FixReport::Tell(approval_notice(action)),
    }
}

} // verus!
