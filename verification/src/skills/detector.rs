//! Stuck detection: a sliding window of tool calls with loop detection, and
//! per-session phase and activity tracking.
//!
//! Loops escalate Warning → Block → Break as identical calls repeat; an
//! alternation of two tools (A→B→A→B…) raises a warning.
use vstd::prelude::*;
use std::collections::VecDeque;
use std::time::Instant;
use crate::skills::clock::{elapsed_secs, instant_now};
use crate::skills::supervisor::SupervisorConfig;
use crate::text::{append_chars, chars_of, decimal, decimal_exec, push_str, str_eq, string_of};

verus! {

/// Result of loop detection analysis
#[derive(Debug, Clone, PartialEq, Eq)]
pub enum LoopDetectionResult {
    /// No loop detected
    NoLoop,
    /// Warning: loop forming, inject nudge
    Warning(String),
    /// Block: significant loop, replace output
    Block(String),
    /// Break: severe loop, terminate turn
    Break(String),
}

/// Reason why an agent is stuck
#[derive(Debug, Clone)]
pub enum StuckReason {
    /// No activity for too long
    NoActivity,
    /// Tool call loop detected
    LoopDetected(String),
    /// State regression (phase not progressing)
    StateRegression,
    /// Error threshold exceeded
    ErrorThreshold,
    /// External trigger (CI failure, etc.)
    External(String),
}

/// How a stuck reason reads.
pub open spec fn stuck_reason_text(r: StuckReason) -> Seq<char> {
    match r {
        StuckReason::NoActivity => "No activity timeout"@,
        StuckReason::LoopDetected(m) => "Loop detected: "@ + m@,
        StuckReason::StateRegression => "State not progressing"@,
        StuckReason::ErrorThreshold => "Too many errors"@,
        StuckReason::External(m) => "External: "@ + m@,
    }
}

impl StuckReason {
    /// How the reason reads.
    pub fn to_string(&self) -> (r: String)
        ensures
            r@ == stuck_reason_text(*self),
    {
        let mut v: Vec<char> = Vec::new();
        match self {
            StuckReason::NoActivity => push_str(&mut v, "No activity timeout"),
            StuckReason::LoopDetected(m) => {
                push_str(&mut v, "Loop detected: ");
                push_str(&mut v, m.as_str());
            },
            StuckReason::StateRegression => push_str(&mut v, "State not progressing"),
            StuckReason::ErrorThreshold => push_str(&mut v, "Too many errors"),
            StuckReason::External(m) => {
                push_str(&mut v, "External: ");
                push_str(&mut v, m.as_str());
            },
        }
        string_of(&v)
    }
}

/// Record of a tool call for loop detection
#[derive(Debug, Clone, PartialEq, Eq, Hash)]
pub struct ToolCallRecord {
    pub tool: String,
    pub args_hash: u64,
}

/// A record as (tool, argument hash).
pub open spec fn rec_view(r: ToolCallRecord) -> (Seq<char>, u64) {
    (r.tool@, r.args_hash)
}

/// The views of a list of records.
pub open spec fn recs_view(s: Seq<ToolCallRecord>) -> Seq<(Seq<char>, u64)> {
    s.map_values(|r: ToolCallRecord| rec_view(r))
}

/// The window after a call: the oldest call leaves once `max` calls are held.
pub open spec fn window_push(calls: Seq<(Seq<char>, u64)>, max: nat, r: (Seq<char>, u64)) -> Seq<
    (Seq<char>, u64),
> {
    (if calls.len() >= max && calls.len() > 0 {
        calls.drop_first()
    } else {
        calls
    }).push(r)
}

/// The number of calls equal to `x` at index `j` and going back, stopping at the first other.
pub open spec fn run_from(s: Seq<(Seq<char>, u64)>, j: int, x: (Seq<char>, u64)) -> nat
    decreases j + 1,
{
    if j < 0 || j >= s.len() {
        0
    } else if s[j] == x {
        1 + run_from(s, j - 1, x)
    } else {
        0
    }
}

/// The number of identical calls at the end of the window.
pub open spec fn run_len(s: Seq<(Seq<char>, u64)>) -> nat {
    if s.len() == 0 {
        0
    } else {
        run_from(s, s.len() - 1, s.last())
    }
}

/// The number of repeats of the opening pair found from index `i` on, two calls at a time.
pub open spec fn pp_cycles(s: Seq<(Seq<char>, u64)>, i: int) -> nat
    decreases s.len() - i,
{
    if i < 2 || i + 1 >= s.len() {
        0
    } else if s[i] == s[0] && s[i + 1] == s[1] {
        1 + pp_cycles(s, i + 2)
    } else {
        0
    }
}

/// An alternation of two different tools from the start of the window,
/// repeated at least twice: (first tool, second tool, number of rounds).
pub open spec fn ping_pong_spec(s: Seq<(Seq<char>, u64)>) -> Option<(Seq<char>, Seq<char>, nat)> {
    if s.len() < 4 {
        None
    } else if s[0].0 == s[1].0 {
        None
    } else if pp_cycles(s, 2) >= 2 {
        Some((s[0].0, s[1].0, pp_cycles(s, 2) + 1))
    } else {
        None
    }
}

fn rec_eq(a: &ToolCallRecord, b: &ToolCallRecord) -> (r: bool)
    ensures
        r == (rec_view(*a) == rec_view(*b)),
{
    a.args_hash == b.args_hash && a.tool == b.tool
}

/// How many times call `r` occurs in `s`.
pub open spec fn occurrences(s: Seq<(Seq<char>, u64)>, r: (Seq<char>, u64)) -> nat
    decreases s.len(),
{
    if s.len() == 0 {
        0
    } else {
        occurrences(s.drop_last(), r) + if s.last() == r {
            1nat
        } else {
            0nat
        }
    }
}

/// The count the window keeps for call `r`: how often it occurs, or none when
/// it does not.
pub open spec fn call_count_spec(s: Seq<(Seq<char>, u64)>, r: (Seq<char>, u64)) -> Option<nat> {
    if occurrences(s, r) > 0 {
        Some(occurrences(s, r))
    } else {
        None
    }
}

/// How many different calls `s` holds.
pub open spec fn unique_len(s: Seq<(Seq<char>, u64)>) -> nat
    decreases s.len(),
{
    if s.len() == 0 {
        0
    } else {
        unique_len(s.drop_last()) + if occurrences(s.drop_last(), s.last()) == 0 {
            1nat
        } else {
            0nat
        }
    }
}

/// Sliding window of recent tool calls
#[derive(Debug, Clone)]
pub struct SlidingWindow {
    /// Maximum window size
    pub max_size: usize,
    /// Recent tool calls (oldest first)
    pub calls: VecDeque<ToolCallRecord>,
}

impl SlidingWindow {
    pub open spec fn view_calls(&self) -> Seq<(Seq<char>, u64)> {
        recs_view(self.calls@)
    }

    pub fn new(max_size: usize) -> (r: Self)
        ensures
            r.max_size == max_size,
            r.view_calls() == Seq::<(Seq<char>, u64)>::empty(),
    {
        let r = SlidingWindow { max_size, calls: VecDeque::new() };
        assert(r.view_calls() =~= Seq::<(Seq<char>, u64)>::empty());
        r
    }

    /// Add a tool call to the window
    pub fn push(&mut self, record: ToolCallRecord)
        ensures
            final(self).max_size == old(self).max_size,
            final(self).view_calls() == window_push(
                old(self).view_calls(),
                old(self).max_size as nat,
                rec_view(record),
            ),
    {
        let ghost before = self.view_calls();
        if self.calls.len() >= self.max_size && self.calls.len() > 0 {
            let _ = self.calls.pop_front();
            assert(self.view_calls() =~= before.drop_first());
        }
        let ghost mid = self.view_calls();
        self.calls.push_back(record);
        assert(self.view_calls() =~= mid.push(rec_view(record)));
    }

    /// Count consecutive identical calls at the end
    pub fn consecutive_count(&self) -> (r: usize)
        ensures
            r == run_len(self.view_calls()),
    {
        let n = self.calls.len();
        if n == 0 {
            return 0;
        }
        let ghost s = self.view_calls();
        let last = &self.calls[n - 1];
        let mut count: usize = 0;
        let mut j: usize = n;
        while j > 0
            invariant
                0 <= j <= n == self.calls@.len(),
                s == self.view_calls(),
                *last == self.calls@[n - 1],
                count == n - j,
                run_len(s) == count + run_from(s, j - 1, s[n - 1]),
            decreases j,
        {
            if rec_eq(&self.calls[j - 1], last) {
                count = count + 1;
                j = j - 1;
            } else {
                assert(run_from(s, j - 1, s[n - 1]) == 0);
                return count;
            }
        }
        count
    }

    /// Check for ping-pong pattern (A→B→A→B)
    pub fn check_ping_pong(&self) -> (r: Option<(String, String, usize)>)
        ensures
            r matches Some((a, b, c)) ==> ping_pong_spec(self.view_calls()) == Some(
                (a@, b@, c as nat),
            ),
            r is None ==> ping_pong_spec(self.view_calls()) is None,
    {
        let n = self.calls.len();
        if n < 4 {
            return None;
        }
        let ghost s = self.view_calls();
        let first = &self.calls[0];
        let second = &self.calls[1];
        if first.tool == second.tool {
            return None;
        }
        let mut cycle_count: usize = 0;
        let mut i: usize = 2;
        while i + 1 < n && rec_eq(&self.calls[i], first) && rec_eq(&self.calls[i + 1], second)
            invariant
                n == self.calls@.len(),
                n >= 4,
                s == self.view_calls(),
                *first == self.calls@[0],
                *second == self.calls@[1],
                2 <= i <= n + 1,
                i == 2 + 2 * cycle_count,
                pp_cycles(s, 2) == cycle_count + pp_cycles(s, i as int),
            decreases n + 1 - i,
        {
            cycle_count = cycle_count + 1;
            i = i + 2;
        }
        if cycle_count >= 2 {
            Some((first.tool.clone(), second.tool.clone(), cycle_count + 1))
        } else {
            None
        }
    }

    fn count_in_prefix(&self, k: usize, record: &ToolCallRecord) -> (r: usize)
        requires
            k <= self.calls@.len(),
        ensures
            r == occurrences(self.view_calls().take(k as int), rec_view(*record)),
    {
        let ghost s = self.view_calls();
        let mut c: usize = 0;
        let mut i: usize = 0;
        assert(s.take(0) =~= Seq::<(Seq<char>, u64)>::empty());
        while i < k
            invariant
                i <= k <= self.calls@.len(),
                s == self.view_calls(),
                c <= i,
                c == occurrences(s.take(i as int), rec_view(*record)),
            decreases k - i,
        {
            assert(s.take(i + 1).drop_last() =~= s.take(i as int));
            assert(s.take(i + 1).last() == rec_view(self.calls@[i as int]));
            if rec_eq(&self.calls[i], record) {
                c = c + 1;
            }
            i = i + 1;
        }
        c
    }

    /// The count kept for a call: how often it occurs in the window, or
    /// none when it does not.
    pub fn count(&self, record: &ToolCallRecord) -> (r: Option<usize>)
        ensures
            match call_count_spec(self.view_calls(), rec_view(*record)) {
                Some(k) => r == Some(k as usize),
                None => r is None,
            },
    {
        let c = self.count_in_prefix(self.calls.len(), record);
        assert(self.view_calls().take(self.calls@.len() as int) =~= self.view_calls());
        if c > 0 {
            Some(c)
        } else {
            None
        }
    }

    /// Get unique call count
    pub fn unique_count(&self) -> (r: usize)
        ensures
            r == unique_len(self.view_calls()),
    {
        let ghost s = self.view_calls();
        let mut u: usize = 0;
        let mut i: usize = 0;
        assert(s.take(0) =~= Seq::<(Seq<char>, u64)>::empty());
        while i < self.calls.len()
            invariant
                i <= self.calls@.len(),
                s == self.view_calls(),
                u <= i,
                u == unique_len(s.take(i as int)),
            decreases self.calls@.len() - i,
        {
            assert(s.take(i + 1).drop_last() =~= s.take(i as int));
            assert(s.take(i + 1).last() == rec_view(self.calls@[i as int]));
            if self.count_in_prefix(i, &self.calls[i]) == 0 {
                u = u + 1;
            }
            i = i + 1;
        }
        assert(s.take(self.calls@.len() as int) =~= s);
        u
    }

    /// Clear the window
    pub fn clear(&mut self)
        ensures
            final(self).max_size == old(self).max_size,
            final(self).view_calls() == Seq::<(Seq<char>, u64)>::empty(),
    {
        self.calls.clear();
        assert(self.view_calls() =~= Seq::<(Seq<char>, u64)>::empty());
    }
}

/// The calls on a session that start or stop tracking it or change its error
/// count.
#[derive(Debug, Clone, Copy, PartialEq, Eq)]
pub enum SessionCall {
    /// `register_session`
    Register,
    /// `record`, which registers an untracked session
    Record,
    /// `record_error`
    RecordError,
    /// `reset_session`
    Reset,
    /// `remove_session`
    Remove,
}

/// A session's error count, when it is tracked.
pub open spec fn session_errors(v: Option<SessionView>) -> Option<nat> {
    match v {
        Some(t) => Some(t.2 as nat),
        None => None,
    }
}

/// A session's error count after a call: registering starts at zero;
/// recording a call registers an untracked session and keeps the count;
/// an error counts one more on a tracked session; a reset clears a tracked
/// one; removing stops tracking.
pub open spec fn errors_after_call(c: Option<nat>, call: SessionCall) -> Option<nat> {
    match call {
        SessionCall::Register => Some(0),
        SessionCall::Record => match c {
            Some(k) => Some(k),
            None => Some(0),
        },
        SessionCall::RecordError => match c {
            Some(k) => Some(k + 1),
            None => None,
        },
        SessionCall::Reset => match c {
            Some(_) => Some(0),
            None => None,
        },
        SessionCall::Remove => None,
    }
}

/// A session's error count after a run of calls.
pub open spec fn errors_after_calls(c: Option<nat>, calls: Seq<SessionCall>) -> Option<nat>
    decreases calls.len(),
{
    if calls.len() == 0 {
        c
    } else {
        errors_after_call(errors_after_calls(c, calls.drop_last()), calls.last())
    }
}

/// How many of the calls record an error.
pub open spec fn error_calls(calls: Seq<SessionCall>) -> nat
    decreases calls.len(),
{
    if calls.len() == 0 {
        0
    } else {
        error_calls(calls.drop_last()) + if calls.last() is RecordError {
            1nat
        } else {
            0nat
        }
    }
}

/// Law: after a session is registered, or a tracked one is reset, its error
/// count is the number of errors recorded since, as long as it is neither
/// registered, reset nor removed again.
pub proof fn law_error_count(c: Option<nat>, start: SessionCall, calls: Seq<SessionCall>)
    requires
        start is Register || (start is Reset && c is Some),
        forall|i: int| 0 <= i < calls.len() ==> (#[trigger] calls[i] is Record || calls[i] is RecordError),
    ensures
        errors_after_calls(errors_after_call(c, start), calls) == Some(error_calls(calls)),
    decreases calls.len(),
{
    if calls.len() > 0 {
        let pre = calls.drop_last();
        assert forall|i: int| 0 <= i < pre.len() implies (#[trigger] pre[i] is Record || pre[i] is RecordError) by {
            assert(pre[i] == calls[i]);
        }
        law_error_count(c, start, pre);
        assert(calls[calls.len() - 1] is Record || calls[calls.len() - 1] is RecordError);
    }
}

/// Law: errors on a session that is not tracked count nothing: until it is
/// registered or a call is recorded on it, it stays untracked.
pub proof fn law_untracked_counts_nothing(calls: Seq<SessionCall>)
    requires
        forall|i: int| 0 <= i < calls.len() ==> (#[trigger] calls[i] is RecordError || calls[i] is Reset
            || calls[i] is Remove),
    ensures
        errors_after_calls(None, calls) is None,
    decreases calls.len(),
{
    if calls.len() > 0 {
        let pre = calls.drop_last();
        assert forall|i: int| 0 <= i < pre.len() implies (#[trigger] pre[i] is RecordError || pre[i] is Reset
            || pre[i] is Remove) by {
            assert(pre[i] == calls[i]);
        }
        law_untracked_counts_nothing(pre);
        assert(calls[calls.len() - 1] is RecordError || calls[calls.len() - 1] is Reset
            || calls[calls.len() - 1] is Remove);
    }
}

proof fn lemma_occurrences_drop_first(s: Seq<(Seq<char>, u64)>, x: (Seq<char>, u64))
    requires
        s.len() > 0,
    ensures
        occurrences(s, x) == occurrences(s.drop_first(), x) + if s[0] == x {
            1nat
        } else {
            0nat
        },
    decreases s.len(),
{
    if s.len() > 1 {
        lemma_occurrences_drop_first(s.drop_last(), x);
        assert(s.drop_last().drop_first() =~= s.drop_first().drop_last());
        assert(s.drop_first().last() == s.last());
    } else {
        assert(s.drop_first() =~= Seq::<(Seq<char>, u64)>::empty());
        assert(s.drop_last() =~= Seq::<(Seq<char>, u64)>::empty());
    }
}

/// Law: the count the window keeps for each call follows its pushes: the
/// pushed call counts once more, and the call that left a full window once
/// less.
pub proof fn law_window_counts(
    calls: Seq<(Seq<char>, u64)>,
    max: nat,
    r: (Seq<char>, u64),
    x: (Seq<char>, u64),
)
    ensures
        occurrences(window_push(calls, max, r), x) + (if calls.len() >= max && calls.len() > 0
            && calls[0] == x {
            1int
        } else {
            0int
        }) == occurrences(calls, x) + if r == x {
            1int
        } else {
            0int
        },
{
    let kept = if calls.len() >= max && calls.len() > 0 {
        calls.drop_first()
    } else {
        calls
    };
    assert(kept.push(r).drop_last() =~= kept);
    if calls.len() >= max && calls.len() > 0 {
        lemma_occurrences_drop_first(calls, x);
    }
}

/// Law: a window never holds more calls than its size, or one call when its size is zero.
pub proof fn law_window_bounded(calls: Seq<(Seq<char>, u64)>, max: nat, r: (Seq<char>, u64))
    requires
        calls.len() <= if max == 0 {
            1
        } else {
            max
        },
    ensures
        window_push(calls, max, r).len() <= if max == 0 {
            1
        } else {
            max
        },
        window_push(calls, max, r).last() == r,
{
}

/// Size of each session's window.
pub const WINDOW_SIZE: usize = 20;

/// Phases that are expected to take three times as long.
pub open spec fn is_long_phase(phase: Seq<char>) -> bool {
    phase == "evaluating-gates"@ || phase == "planning"@ || phase == "compiling"@ || phase
        == "testing"@
}

/// Whether a phase unchanged for `elapsed_secs` has overstayed: beyond the
/// timeout, or three timeouts for a long phase.
pub open spec fn phase_overstayed(phase: Seq<char>, elapsed_secs: u64, timeout_secs: u64) -> bool {
    elapsed_secs > if is_long_phase(phase) {
        timeout_secs * 3
    } else {
        timeout_secs as int
    }
}

/// The answer to an unchanged phase that has lasted `elapsed_secs`.
pub open spec fn phase_verdict(phase: Seq<char>, elapsed_secs: u64, timeout_secs: u64) -> Option<
    StuckReason,
> {
    if phase_overstayed(phase, elapsed_secs, timeout_secs) {
        Some(StuckReason::StateRegression)
    } else {
        None
    }
}

/// The verdict on a session whose last call was `elapsed_secs` ago: stuck
/// for lack of activity when that is longer than the timeout.
pub open spec fn activity_verdict_spec(elapsed_secs: u64, timeout_secs: u64) -> Option<StuckReason> {
    if elapsed_secs > timeout_secs {
        Some(StuckReason::NoActivity)
    } else {
        None
    }
}

/// The verdict on a session whose last call was `elapsed_secs` ago.
pub fn activity_verdict(elapsed_secs: u64, timeout_secs: u64) -> (r: Option<StuckReason>)
    ensures
        r == activity_verdict_spec(elapsed_secs, timeout_secs),
{
    if elapsed_secs > timeout_secs {
        Some(StuckReason::NoActivity)
    } else {
        None
    }
}

/// Whether a phase unchanged for `elapsed_secs` has overstayed. The tripled
/// timeout of a long phase is compared without being computed, so no timeout
/// overflows.
pub fn phase_stuck(phase: &str, elapsed_secs: u64, timeout_secs: u64) -> (r: bool)
    ensures
        r == phase_overstayed(phase@, elapsed_secs, timeout_secs),
{
    let long = str_eq(phase, "evaluating-gates") || str_eq(phase, "planning") || str_eq(
        phase,
        "compiling",
    ) || str_eq(phase, "testing");
    if !long {
        return elapsed_secs > timeout_secs;
    }
    if elapsed_secs == 0 {
        return false;
    }
    let r = (elapsed_secs - 1) / 3 >= timeout_secs;
    proof {
        let e = elapsed_secs as int;
        let t = timeout_secs as int;
        assert(((e - 1) / 3 >= t) == (e > t * 3)) by (nonlinear_arith)
            requires
                e >= 1,
                t >= 0,
        {
            assert(3 * ((e - 1) / 3) <= e - 1);
            assert(e - 1 < 3 * ((e - 1) / 3) + 3);
        }
    }
    r
}

/// The result of a call leaving `calls` in the window: the escalation of
/// repeats first (break, block, warning), then an alternation, else no loop.
pub open spec fn loop_result_holds(
    r: LoopDetectionResult,
    tool: Seq<char>,
    calls: Seq<(Seq<char>, u64)>,
    warn: usize,
    block: usize,
    brk: usize,
) -> bool {
    let n = run_len(calls);
    if n >= brk {
        r matches LoopDetectionResult::Break(m) && m@ == "Tool '"@ + tool + "' called "@ + decimal(
            n,
        ) + " times in a row"@
    } else if n >= block {
        r matches LoopDetectionResult::Block(m) && m@ == "Tool '"@ + tool + "' called "@ + decimal(
            n,
        ) + " times consecutively"@
    } else if n >= warn {
        r matches LoopDetectionResult::Warning(m) && m@ == "Tool '"@ + tool + "' repeating ("@
            + decimal(n) + " times)"@
    } else {
        match ping_pong_spec(calls) {
            Some((a, b, c)) => r matches LoopDetectionResult::Warning(m) && m@
                == "Ping-pong pattern: "@ + a + " ↔ "@ + b + " ("@ + decimal(c) + " cycles)"@,
            None => r == LoopDetectionResult::NoLoop,
        }
    }
}

/// Per-session state for stuck detection
pub struct SessionState {
    window: SlidingWindow,
    last_phase: String,
    last_phase_change: Instant,
    error_count: usize,
    last_activity: Instant,
}

/// A tracked session.
pub struct SessionEntry {
    id: String,
    state: SessionState,
}

/// What is known of a session: its window, its last phase and its error count.
pub type SessionView = (Seq<(Seq<char>, u64)>, Seq<char>, usize);

/// Stuck detector — analyzes agent state over time
pub struct StuckDetector {
    sessions: Vec<SessionEntry>,
    warning_threshold: usize,
    block_threshold: usize,
    break_threshold: usize,
    phase_timeout_secs: u64,
}

/// The first index of a session id among the entries.
pub open spec fn index_of(ids: Seq<Seq<char>>, id: Seq<char>) -> Option<int>
    decreases ids.len(),
{
    if ids.len() == 0 {
        None
    } else if ids.last() == id {
        match index_of(ids.drop_last(), id) {
            Some(i) => Some(i),
            None => Some(ids.len() - 1),
        }
    } else {
        index_of(ids.drop_last(), id)
    }
}

/// No id occurs twice.
pub open spec fn unique(ids: Seq<Seq<char>>) -> bool {
    forall|i: int, j: int| 0 <= i < j < ids.len() ==> ids[i] != ids[j]
}

pub proof fn lemma_index_unique(ids: Seq<Seq<char>>, x: Seq<char>, k: int)
    requires
        unique(ids),
        0 <= k < ids.len(),
        ids[k] == x,
    ensures
        index_of(ids, x) == Some(k),
{
    lemma_index_of(ids, x);
    match index_of(ids, x) {
        Some(j) => {
            if j < k {
                assert(ids[j] != ids[k]);
            } else if j > k {
                assert(ids[k] != ids[j]);
            }
        },
        None => {},
    }
}

pub proof fn lemma_index_of(ids: Seq<Seq<char>>, id: Seq<char>)
    ensures
        index_of(ids, id) matches Some(i) ==> 0 <= i < ids.len() && ids[i] == id && (forall|k: int|
            0 <= k < i ==> ids[k] != id),
        index_of(ids, id) is None ==> (forall|k: int| 0 <= k < ids.len() ==> ids[k] != id),
    decreases ids.len(),
{
    if ids.len() > 0 {
        let d = ids.drop_last();
        lemma_index_of(d, id);
        assert(forall|k: int| 0 <= k < d.len() ==> d[k] == ids[k]);
    }
}

impl StuckDetector {
    pub closed spec fn ids(&self) -> Seq<Seq<char>> {
        self.sessions@.map_values(|e: SessionEntry| e.id@)
    }

    pub closed spec fn entry_view(e: SessionEntry) -> SessionView {
        (e.state.window.view_calls(), e.state.last_phase@, e.state.error_count)
    }

    /// What is known of the session with the given id, if it is tracked.
    pub closed spec fn session(&self, id: Seq<char>) -> Option<SessionView> {
        match index_of(self.ids(), id) {
            Some(i) => Some(Self::entry_view(self.sessions@[i])),
            None => None,
        }
    }

    /// The thresholds and timeout: (warning, block, break, phase timeout).
    pub closed spec fn limits(&self) -> (usize, usize, usize, u64) {
        (self.warning_threshold, self.block_threshold, self.break_threshold, self.phase_timeout_secs)
    }

    /// Every session's window has the standard size, and no session is tracked twice.
    pub closed spec fn wf(&self) -> bool {
        &&& forall|i: int|
            0 <= i < self.sessions@.len() ==> #[trigger] self.sessions@[i].state.window.max_size
                == WINDOW_SIZE
        &&& unique(self.ids())
    }

    /// Create a new stuck detector
    pub fn new(config: &SupervisorConfig) -> (r: Self)
        ensures
            r.wf(),
            forall|id: Seq<char>| r.session(id) is None,
            r.limits() == (
                config.loop_warning_threshold,
                config.loop_block_threshold,
                config.loop_break_threshold,
                config.activity_timeout_secs,
            ),
    {
        let r = StuckDetector {
            sessions: Vec::new(),
            warning_threshold: config.loop_warning_threshold,
            block_threshold: config.loop_block_threshold,
            break_threshold: config.loop_break_threshold,
            phase_timeout_secs: config.activity_timeout_secs,
        };
        assert(r.ids() =~= Seq::<Seq<char>>::empty());
        r
    }

    fn find(&self, id: &str) -> (r: Option<usize>)
        ensures
            r matches Some(i) ==> index_of(self.ids(), id@) == Some(i as int) && i
                < self.sessions@.len(),
            r is None ==> index_of(self.ids(), id@) is None,
    {
        proof {
            lemma_index_of(self.ids(), id@);
        }
        let mut i: usize = 0;
        while i < self.sessions.len()
            invariant
                i <= self.sessions@.len(),
                forall|k: int| 0 <= k < i ==> self.ids()[k] != id@,
            decreases self.sessions.len() - i,
        {
            if str_eq(self.sessions[i].id.as_str(), id) {
                proof {
                    lemma_index_of(self.ids(), id@);
                    assert(self.ids()[i as int] == id@);
                }
                return Some(i);
            }
            i = i + 1;
        }
        None
    }

    fn fresh_state() -> (r: SessionState)
        ensures
            r.window.max_size == WINDOW_SIZE,
            r.window.view_calls() == Seq::<(Seq<char>, u64)>::empty(),
            r.last_phase@ == Seq::<char>::empty(),
            r.error_count == 0,
    {
        SessionState {
            window: SlidingWindow::new(WINDOW_SIZE),
            last_phase: String::new(),
            last_phase_change: instant_now(),
            error_count: 0,
            last_activity: instant_now(),
        }
    }

    /// Register a new session, replacing any state it had.
    pub fn register_session(&mut self, session_id: &str)
        requires
            old(self).wf(),
        ensures
            session_errors(final(self).session(session_id@)) == errors_after_call(
                session_errors(old(self).session(session_id@)),
                SessionCall::Register,
            ),
            final(self).wf(),
            final(self).limits() == old(self).limits(),
            final(self).session(session_id@) == Some(
                (Seq::<(Seq<char>, u64)>::empty(), Seq::<char>::empty(), 0usize),
            ),
            forall|other: Seq<char>|
                other != session_id@ ==> final(self).session(other) == old(self).session(other),
    {
        let st = Self::fresh_state();
        let ghost ids0 = self.ids();
        let ghost s0 = self.sessions@;
        match self.find(session_id) {
            Some(i) => {
                let id = self.sessions[i].id.clone();
                self.sessions.set(i, SessionEntry { id, state: st });
                proof {
                    assert(self.ids() =~= ids0);
                    lemma_index_of(ids0, session_id@);
                    assert forall|other: Seq<char>| other != session_id@ implies #[trigger] self.session(
                        other,
                    ) == old(self).session(other) by {
                        lemma_index_of(ids0, other);
                    }
                }
            },
            None => {
                let e = SessionEntry { id: String::from_str(session_id), state: st };
                self.sessions.push(e);
                proof {
                    assert(self.ids() =~= ids0.push(session_id@));
                    assert(self.ids().drop_last() =~= ids0);
                    lemma_index_of(ids0, session_id@);
                    assert(unique(self.ids()));
                    assert forall|other: Seq<char>| other != session_id@ implies #[trigger] self.session(
                        other,
                    ) == old(self).session(other) by {
                        lemma_index_of(ids0, other);
                    }
                }
            },
        }
    }

    /// The index of a session, registering it first when it is unknown.
    fn ensure_session(&mut self, session_id: &str) -> (i: usize)
        requires
            old(self).wf(),
        ensures
            final(self).wf(),
            final(self).limits() == old(self).limits(),
            index_of(final(self).ids(), session_id@) == Some(i as int),
            i < final(self).sessions@.len(),
            final(self).session(session_id@) == Some(
                match old(self).session(session_id@) {
                    Some(v) => v,
                    None => (Seq::<(Seq<char>, u64)>::empty(), Seq::<char>::empty(), 0usize),
                },
            ),
            forall|other: Seq<char>|
                other != session_id@ ==> final(self).session(other) == old(self).session(other),
    {
        match self.find(session_id) {
            Some(i) => {
                proof {
                    lemma_index_of(self.ids(), session_id@);
                }
                i
            },
            None => {
                let ghost ids0 = self.ids();
                let st = Self::fresh_state();
                let e = SessionEntry { id: String::from_str(session_id), state: st };
                self.sessions.push(e);
                proof {
                    assert(self.ids() =~= ids0.push(session_id@));
                    assert(self.ids().drop_last() =~= ids0);
                    lemma_index_of(ids0, session_id@);
                    assert(unique(self.ids()));
                    assert forall|other: Seq<char>| other != session_id@ implies #[trigger] self.session(
                        other,
                    ) == old(self).session(other) by {
                        lemma_index_of(ids0, other);
                    }
                }
                self.sessions.len() - 1
            },
        }
    }

    /// Record a tool call and check for loops; an unknown session is registered first.
    pub fn record(&mut self, session_id: &str, tool: &str, args_hash: u64) -> (r:
        LoopDetectionResult)
        requires
            old(self).wf(),
        ensures
            session_errors(final(self).session(session_id@)) == errors_after_call(
                session_errors(old(self).session(session_id@)),
                SessionCall::Record,
            ),
            final(self).wf(),
            final(self).limits() == old(self).limits(),
            ({
                let before = match old(self).session(session_id@) {
                    Some(v) => v,
                    None => (Seq::<(Seq<char>, u64)>::empty(), Seq::<char>::empty(), 0usize),
                };
                let calls = window_push(before.0, WINDOW_SIZE as nat, (tool@, args_hash));
                &&& final(self).session(session_id@) == Some((calls, before.1, before.2))
                &&& loop_result_holds(
                    r,
                    tool@,
                    calls,
                    old(self).limits().0,
                    old(self).limits().1,
                    old(self).limits().2,
                )
            }),
            forall|other: Seq<char>|
                other != session_id@ ==> final(self).session(other) == old(self).session(other),
    {
        let i = self.ensure_session(session_id);
        let ghost mid = *self;
        let ghost ids1 = self.ids();
        let record = ToolCallRecord { tool: String::from_str(tool), args_hash };
        let mut e = self.sessions.remove(i);
        e.state.window.push(record);
        e.state.last_activity = instant_now();
        self.sessions.insert(i, e);
        proof {
            assert(self.sessions@ =~= mid.sessions@.update(i as int, e));
            assert(self.ids() =~= ids1);
            assert forall|k: int| 0 <= k < self.sessions@.len() implies #[trigger] self.sessions@[
                k
            ].state.window.max_size == WINDOW_SIZE by {
                if k != i {
                    assert(self.sessions@[k] == mid.sessions@[k]);
                }
            }
            assert forall|other: Seq<char>| other != session_id@ implies #[trigger] self.session(
                other,
            ) == mid.session(other) by {
                lemma_index_of(ids1, other);
                lemma_index_of(ids1, session_id@);
            }
        }
        let consecutive = self.sessions[i].state.window.consecutive_count();
        if consecutive >= self.break_threshold {
            return LoopDetectionResult::Break(
                repeat_message(tool, consecutive, " times in a row"),
            );
        }
        if consecutive >= self.block_threshold {
            return LoopDetectionResult::Block(
                repeat_message(tool, consecutive, " times consecutively"),
            );
        }
        if consecutive >= self.warning_threshold {
            let mut v: Vec<char> = Vec::new();
            push_str(&mut v, "Tool '");
            push_str(&mut v, tool);
            push_str(&mut v, "' repeating (");
            let d = decimal_exec(consecutive as u64);
            append_chars(&mut v, &d);
            push_str(&mut v, " times)");
            return LoopDetectionResult::Warning(string_of(&v));
        }
        match self.sessions[i].state.window.check_ping_pong() {
            Some((a, b, c)) => {
                let mut v: Vec<char> = Vec::new();
                push_str(&mut v, "Ping-pong pattern: ");
                push_str(&mut v, a.as_str());
                push_str(&mut v, " ↔ ");
                push_str(&mut v, b.as_str());
                push_str(&mut v, " (");
                let d = decimal_exec(c as u64);
                append_chars(&mut v, &d);
                push_str(&mut v, " cycles)");
                LoopDetectionResult::Warning(string_of(&v))
            },
            None => LoopDetectionResult::NoLoop,
        }
    }

    /// Record an error; returns the session's error count, zero for an unknown session.
    pub fn record_error(&mut self, session_id: &str) -> (r: usize)
        requires
            old(self).wf(),
            old(self).session(session_id@) matches Some(v) ==> v.2 < usize::MAX,
        ensures
            session_errors(final(self).session(session_id@)) == errors_after_call(
                session_errors(old(self).session(session_id@)),
                SessionCall::RecordError,
            ),
            final(self).wf(),
            final(self).limits() == old(self).limits(),
            old(self).session(session_id@) is None ==> r == 0 && final(self).session(session_id@)
                is None,
            old(self).session(session_id@) matches Some(v) ==> r == v.2 + 1 && final(self).session(
                session_id@,
            ) == Some((v.0, v.1, r)),
            forall|other: Seq<char>|
                other != session_id@ ==> final(self).session(other) == old(self).session(other),
    {
        match self.find(session_id) {
            None => 0,
            Some(i) => {
                let ghost mid = *self;
                let ghost ids1 = self.ids();
                let mut e = self.sessions.remove(i);
                e.state.error_count = e.state.error_count + 1;
                let n = e.state.error_count;
                self.sessions.insert(i, e);
                proof {
                    assert(self.sessions@ =~= mid.sessions@.update(i as int, e));
                    assert(self.ids() =~= ids1);
                    assert forall|k: int| 0 <= k < self.sessions@.len() implies #[trigger] self.sessions@[
                        k
                    ].state.window.max_size == WINDOW_SIZE by {
                        if k != i {
                            assert(self.sessions@[k] == mid.sessions@[k]);
                        }
                    }
                    lemma_index_of(ids1, session_id@);
                    assert forall|other: Seq<char>| other != session_id@ implies #[trigger] self.session(
                        other,
                    ) == mid.session(other) by {
                        lemma_index_of(ids1, other);
                    }
                }
                n
            },
        }
    }
}

impl StuckDetector {
    /// Update the phase of a session and check whether it has overstayed: a
    /// changed phase restarts its clock; an unchanged one is stuck when it has
    /// lasted longer than the timeout (three for a long phase).
    pub fn update_phase(&mut self, session_id: &str, phase: &str) -> (r: Option<StuckReason>)
        requires
            old(self).wf(),
        ensures
            final(self).wf(),
            final(self).limits() == old(self).limits(),
            old(self).session(session_id@) is None ==> r is None && final(self).session(session_id@)
                is None,
            old(self).session(session_id@) matches Some(v) ==> (v.1 != phase@ ==> r is None
                && final(self).session(session_id@) == Some((v.0, phase@, v.2))),
            old(self).session(session_id@) matches Some(v) ==> (v.1 == phase@ ==> final(self).session(session_id@)
                == Some(v) && exists|elapsed: u64|
                r == #[trigger] phase_verdict(phase@, elapsed, old(self).limits().3)),
            forall|other: Seq<char>|
                other != session_id@ ==> final(self).session(other) == old(self).session(other),
    {
        match self.find(session_id) {
            None => None,
            Some(i) => {
                if !str_eq(self.sessions[i].state.last_phase.as_str(), phase) {
                    let ghost mid = *self;
                    let ghost ids1 = self.ids();
                    let mut e = self.sessions.remove(i);
                    e.state.last_phase = String::from_str(phase);
                    e.state.last_phase_change = instant_now();
                    self.sessions.insert(i, e);
                    proof {
                        assert(self.sessions@ =~= mid.sessions@.update(i as int, e));
                        assert(self.ids() =~= ids1);
                        assert forall|k: int| 0 <= k < self.sessions@.len() implies #[trigger] self.sessions@[
                            k
                        ].state.window.max_size == WINDOW_SIZE by {
                            if k != i {
                                assert(self.sessions@[k] == mid.sessions@[k]);
                            }
                        }
                        lemma_index_of(ids1, session_id@);
                        assert forall|other: Seq<char>| other != session_id@ implies #[trigger] self.session(
                            other,
                        ) == mid.session(other) by {
                            lemma_index_of(ids1, other);
                        }
                    }
                    return None;
                }
                let elapsed = elapsed_secs(&self.sessions[i].state.last_phase_change);
                let r = if phase_stuck(phase, elapsed, self.phase_timeout_secs) {
                    Some(StuckReason::StateRegression)
                } else {
                    None
                };
                assert(r == phase_verdict(phase@, elapsed, self.limits().3));
                r
            },
        }
    }

    /// Check for no activity timeout: a tracked session whose last call is
    /// longer ago than the timeout is stuck. The seconds since the last call
    /// are read from the monotonic clock; the verdict on them is
    /// `activity_verdict`.
    pub fn check_activity(&mut self, session_id: &str) -> (r: Option<StuckReason>)
        requires
            old(self).wf(),
        ensures
            *final(self) == *old(self),
            old(self).session(session_id@) is None ==> r is None,
            old(self).session(session_id@) is Some ==> exists|elapsed: u64|
                r == #[trigger] activity_verdict_spec(elapsed, old(self).limits().3),
    {
        match self.find(session_id) {
            None => None,
            Some(i) => {
                let elapsed = elapsed_secs(&self.sessions[i].state.last_activity);
                let r = activity_verdict(elapsed, self.phase_timeout_secs);
                assert(r == activity_verdict_spec(elapsed, self.limits().3));
                r
            },
        }
    }

    /// Reset a session's state (after fix applied): its window is emptied and
    /// its errors forgotten; its phase is kept.
    pub fn reset_session(&mut self, session_id: &str)
        requires
            old(self).wf(),
        ensures
            session_errors(final(self).session(session_id@)) == errors_after_call(
                session_errors(old(self).session(session_id@)),
                SessionCall::Reset,
            ),
            final(self).wf(),
            final(self).limits() == old(self).limits(),
            old(self).session(session_id@) is None ==> final(self).session(session_id@) is None,
            old(self).session(session_id@) matches Some(v) ==> final(self).session(session_id@)
                == Some((Seq::<(Seq<char>, u64)>::empty(), v.1, 0usize)),
            forall|other: Seq<char>|
                other != session_id@ ==> final(self).session(other) == old(self).session(other),
    {
        match self.find(session_id) {
            None => {},
            Some(i) => {
                let ghost mid = *self;
                let ghost ids1 = self.ids();
                let mut e = self.sessions.remove(i);
                e.state.window.clear();
                e.state.error_count = 0;
                e.state.last_activity = instant_now();
                self.sessions.insert(i, e);
                proof {
                    assert(self.sessions@ =~= mid.sessions@.update(i as int, e));
                    assert(self.ids() =~= ids1);
                    assert forall|k: int| 0 <= k < self.sessions@.len() implies #[trigger] self.sessions@[
                        k
                    ].state.window.max_size == WINDOW_SIZE by {
                        if k != i {
                            assert(self.sessions@[k] == mid.sessions@[k]);
                        }
                    }
                    lemma_index_of(ids1, session_id@);
                    assert forall|other: Seq<char>| other != session_id@ implies #[trigger] self.session(
                        other,
                    ) == mid.session(other) by {
                        lemma_index_of(ids1, other);
                    }
                }
            },
        }
    }

    /// Remove a session
    pub fn remove_session(&mut self, session_id: &str)
        requires
            old(self).wf(),
        ensures
            session_errors(final(self).session(session_id@)) == errors_after_call(
                session_errors(old(self).session(session_id@)),
                SessionCall::Remove,
            ),
            final(self).wf(),
            final(self).limits() == old(self).limits(),
            final(self).session(session_id@) is None,
            forall|other: Seq<char>|
                other != session_id@ ==> final(self).session(other) == old(self).session(other),
    {
        match self.find(session_id) {
            None => {},
            Some(i) => {
                let ghost ids1 = self.ids();
                let ghost s1 = self.sessions@;
                self.sessions.remove(i);
                proof {
                    assert(self.ids() =~= ids1.remove(i as int));
                    lemma_index_of(ids1, session_id@);
                    assert forall|k: int| 0 <= k < self.sessions@.len() implies #[trigger] self.sessions@[
                        k
                    ].state.window.max_size == WINDOW_SIZE by {
                        if k < i {
                            assert(self.sessions@[k] == s1[k]);
                        } else {
                            assert(self.sessions@[k] == s1[k + 1]);
                        }
                    }
                    assert forall|a: int, b: int| 0 <= a < b < self.ids().len() implies self.ids()[a]
                        != self.ids()[b] by {
                        let a1 = if a < i { a } else { a + 1 };
                        let b1 = if b < i { b } else { b + 1 };
                        assert(self.ids()[a] == ids1[a1]);
                        assert(self.ids()[b] == ids1[b1]);
                    }
                    lemma_index_of(self.ids(), session_id@);
                    if index_of(self.ids(), session_id@) is Some {
                        let k = index_of(self.ids(), session_id@)->0;
                        let k1 = if k < i { k } else { k + 1 };
                        assert(self.ids()[k] == ids1[k1]);
                    }
                    assert forall|other: Seq<char>| other != session_id@ implies #[trigger] self.session(
                        other,
                    ) == old(self).session(other) by {
                        lemma_index_of(ids1, other);
                        lemma_index_of(self.ids(), other);
                        match index_of(self.ids(), other) {
                            Some(k) => {
                                let k1 = if k < i { k } else { k + 1 };
                                assert(self.ids()[k] == ids1[k1]);
                                assert(self.sessions@[k] == s1[k1]);
                                lemma_index_unique(ids1, other, k1);
                            },
                            None => {
                                match index_of(ids1, other) {
                                    Some(j) => {
                                        assert(j != i);
                                        let j1 = if j < i { j } else { j - 1 };
                                        assert(self.ids()[j1] == ids1[j]);
                                    },
                                    None => {},
                                }
                            },
                        }
                    }
                }
            },
        }
    }

    /// The error count of a tracked session.
    pub fn error_count(&self, session_id: &str) -> (r: Option<usize>)
        ensures
            r matches Some(n) ==> self.session(session_id@) matches Some(v) && v.2 == n,
            r is None ==> self.session(session_id@) is None,
    {
        match self.find(session_id) {
            None => None,
            Some(i) => Some(self.sessions[i].state.error_count),
        }
    }
}

/// Law: the escalation is ordered — a break is never reported below its
/// threshold, a block never below its own, a warning for repeats never below
/// its own, and with ordered thresholds more repeats never give a milder result.
pub proof fn law_escalation(
    r: LoopDetectionResult,
    tool: Seq<char>,
    calls: Seq<(Seq<char>, u64)>,
    warn: usize,
    block: usize,
    brk: usize,
)
    requires
        loop_result_holds(r, tool, calls, warn, block, brk),
        warn <= block <= brk,
    ensures
        r is Break <==> run_len(calls) >= brk,
        r is Block <==> block <= run_len(calls) < brk,
        run_len(calls) >= warn ==> !(r is NoLoop),
{
}

/// The calls from index `j` back that equal `x`, counted by `run_from`, are
/// exactly the ones that share its tool and its argument hash.
proof fn lemma_run_from(s: Seq<(Seq<char>, u64)>, j: int, x: (Seq<char>, u64))
    requires
        -1 <= j < s.len(),
    ensures
        run_from(s, j, x) <= j + 1,
        forall|k: int|
            j - run_from(s, j, x) < k <= j ==> (#[trigger] s[k]).0 == x.0 && s[k].1 == x.1,
        run_from(s, j, x) < j + 1 ==> !(s[j - run_from(s, j, x)].0 == x.0 && s[j - run_from(
            s,
            j,
            x,
        )].1 == x.1),
    decreases j + 1,
{
    if j >= 0 && s[j] == x {
        lemma_run_from(s, j - 1, x);
    }
}

/// Law: the repeat count at the end of a window is the length of its
/// longest tail of calls identical to the last one in both tool and argument
/// hash: every counted call matches the last in both, and the call just
/// before them differs from it in one of the two. So a last call whose
/// predecessor has the same tool but other arguments is a run of one.
pub proof fn law_repeats_match_tool_and_arguments(s: Seq<(Seq<char>, u64)>)
    requires
        s.len() > 0,
    ensures
        1 <= run_len(s) <= s.len(),
        forall|k: int|
            s.len() - run_len(s) <= k < s.len() ==> (#[trigger] s[k]).0 == s.last().0 && s[k].1
                == s.last().1,
        run_len(s) < s.len() ==> !(s[s.len() - 1 - run_len(s)].0 == s.last().0 && s[s.len() - 1
            - run_len(s)].1 == s.last().1),
        s.len() >= 2 && s[s.len() - 2].0 == s.last().0 && s[s.len() - 2].1 != s.last().1
            ==> run_len(s) == 1,
{
    lemma_run_from(s, s.len() - 1, s.last());
    if s.len() >= 2 && s[s.len() - 2].0 == s.last().0 && s[s.len() - 2].1 != s.last().1 {
        assert(s[s.len() - 1] == s.last());
        if run_len(s) >= 2 {
            assert(s[s.len() - 2].1 == s.last().1);
        }
    }
}

/// Law: a call that repeats the previous one's tool with other arguments,
/// on a window that held only that call, is no loop whenever warnings need
/// at least two repeats.
pub proof fn law_new_arguments_are_no_loop(
    tool: Seq<char>,
    first_hash: u64,
    second_hash: u64,
    warn: usize,
    block: usize,
    brk: usize,
    r: LoopDetectionResult,
)
    requires
        first_hash != second_hash,
        warn > 1,
        block > 1,
        brk > 1,
        loop_result_holds(
            r,
            tool,
            window_push(seq![(tool, first_hash)], WINDOW_SIZE as nat, (tool, second_hash)),
            warn,
            block,
            brk,
        ),
    ensures
        r == LoopDetectionResult::NoLoop,
{
    let calls = window_push(seq![(tool, first_hash)], WINDOW_SIZE as nat, (tool, second_hash));
    assert(calls =~= seq![(tool, first_hash), (tool, second_hash)]);
    law_repeats_match_tool_and_arguments(calls);
}

/// Law: after a reset, a session's next call raises no alarm when warnings
/// need more than one repeat.
pub proof fn law_reset_then_quiet(tool: Seq<char>, args_hash: u64, warn: usize, block: usize, brk: usize, r: LoopDetectionResult)
    requires
        warn > 1,
        block > 1,
        brk > 1,
        loop_result_holds(
            r,
            tool,
            window_push(Seq::empty(), WINDOW_SIZE as nat, (tool, args_hash)),
            warn,
            block,
            brk,
        ),
    ensures
        r == LoopDetectionResult::NoLoop,
{
    let calls = window_push(Seq::empty(), WINDOW_SIZE as nat, (tool, args_hash));
    assert(calls =~= seq![(tool, args_hash)]);
    assert(run_from(calls, -1, calls.last()) == 0);
    assert(run_len(calls) == 1);
}

fn repeat_message(tool: &str, n: usize, tail: &str) -> (r: String)
    ensures
        r@ == "Tool '"@ + tool@ + "' called "@ + decimal(n as nat) + tail@,
{
    let mut v: Vec<char> = Vec::new();
    push_str(&mut v, "Tool '");
    push_str(&mut v, tool);
    push_str(&mut v, "' called ");
    let d = decimal_exec(n as u64);
    append_chars(&mut v, &d);
    push_str(&mut v, tail);
    string_of(&v)
}

} // verus!
