//! The agent loop's guards: the iteration limit and the thinking budget, and
//! what each heartbeat rhythm asks of the loop.
use vstd::prelude::*;
use crate::cortex::decision::messages_view;
use crate::skills::learning::{trigger_spec, LearningStats, LearningTracker, TriggerReason};
use crate::text::{push_str, string_of};
use crate::types::{message_view, ChatMessage};

verus! {

/// Maximum agent loop iterations (prevent infinite loops)
pub const MAX_ITERATIONS: u32 = 20;

/// Budget for model calls.
pub const DEFAULT_BUDGET: u64 = 100_000;

/// Whether an iteration may run.
#[derive(Debug, Clone, Copy, PartialEq, Eq)]
pub enum IterationGate {
    /// Run the iteration.
    Proceed,
    /// The iteration limit is reached.
    MaxIterations,
    /// The budget is used up.
    BudgetExhausted,
}

/// Iterations made and budget left.
#[derive(Debug, Clone, Copy)]
pub struct IterationBudget {
    pub iterations: u32,
    pub budget: u32,
}

impl IterationBudget {
    /// No iterations yet and the default budget.
    pub fn new() -> (r: Self)
        ensures
            r.iterations == 0,
            r.budget == DEFAULT_BUDGET,
    {
        IterationBudget { iterations: 0, budget: 100_000 }
    }

    /// Checks the limit, then the budget; counts the iteration when it may run.
    pub fn begin(&mut self) -> (r: IterationGate)
        ensures
            (*final(self), r) == begin_step(*old(self)),
    {
        if self.iterations >= MAX_ITERATIONS {
            IterationGate::MaxIterations
        } else if self.budget == 0 {
            IterationGate::BudgetExhausted
        } else {
            self.iterations = self.iterations + 1;
            IterationGate::Proceed
        }
    }

    /// Spends one unit of budget after an iteration (wrapping, as an atomic subtraction does).
    pub fn finish(&mut self)
        ensures
            *final(self) == finish_step(*old(self)),
    {
        self.budget = self.budget.wrapping_sub(1);
    }

    /// Reset iteration counter
    pub fn reset_iterations(&mut self)
        ensures
            final(self).iterations == 0,
            final(self).budget == old(self).budget,
    {
        self.iterations = 0;
    }
}

/// The reply given instead of an iteration that may not run.
pub open spec fn stop_message_spec(g: IterationGate) -> Option<Seq<char>> {
    match g {
        IterationGate::Proceed => None,
        IterationGate::MaxIterations => Some(
            "I've been thinking for a while. Let me take a break."@,
        ),
        IterationGate::BudgetExhausted => Some("I've used up my thinking budget for now."@),
    }
}

/// The reply given instead of an iteration that may not run.
pub fn stop_message(gate: IterationGate) -> (r: Option<String>)
    ensures
        r matches Some(s) ==> stop_message_spec(gate) == Some(s@),
        r is None ==> stop_message_spec(gate) is None,
{
    match gate {
        IterationGate::Proceed => None,
        IterationGate::MaxIterations => Some(
            String::from_str("I've been thinking for a while. Let me take a break."),
        ),
        IterationGate::BudgetExhausted => Some(
            String::from_str("I've used up my thinking budget for now."),
        ),
    }
}

/// The start of an iteration: none past the limit, none without budget,
/// else one more counted.
pub open spec fn begin_step(b: IterationBudget) -> (IterationBudget, IterationGate) {
    if b.iterations >= MAX_ITERATIONS {
        (b, IterationGate::MaxIterations)
    } else if b.budget == 0 {
        (b, IterationGate::BudgetExhausted)
    } else {
        (IterationBudget { iterations: (b.iterations + 1) as u32, ..b }, IterationGate::Proceed)
    }
}

/// The end of an iteration: one unit of budget spent.
pub open spec fn finish_step(b: IterationBudget) -> IterationBudget {
    IterationBudget { budget: b.budget.wrapping_sub(1), ..b }
}

/// One turn of the agent loop: an iteration begins, and ends when it ran.
pub open spec fn turn(b: IterationBudget) -> IterationBudget {
    let (b1, g) = begin_step(b);
    if g == IterationGate::Proceed {
        finish_step(b1)
    } else {
        b1
    }
}

/// The budget after `k` turns.
pub open spec fn turns(b: IterationBudget, k: nat) -> IterationBudget
    decreases k,
{
    if k == 0 {
        b
    } else {
        turn(turns(b, (k - 1) as nat))
    }
}

/// The smallest of three numbers.
pub open spec fn min3(a: int, b: int, c: int) -> int {
    if a <= b && a <= c {
        a
    } else if b <= c {
        b
    } else {
        c
    }
}

/// Law: from within the limit, `k` turns run exactly as many iterations as
/// the turns, the room under the limit and the budget all allow; each spends
/// one unit of budget, and the count never passes the limit.
pub proof fn law_iterations_bounded(b: IterationBudget, k: nat)
    requires
        b.iterations <= MAX_ITERATIONS,
    ensures
        turns(b, k).iterations == b.iterations + min3(k as int, MAX_ITERATIONS - b.iterations, b.budget as int),
        turns(b, k).budget == b.budget - min3(k as int, MAX_ITERATIONS - b.iterations, b.budget as int),
        turns(b, k).iterations <= MAX_ITERATIONS,
    decreases k,
{
    if k > 0 {
        law_iterations_bounded(b, (k - 1) as nat);
        let p = turns(b, (k - 1) as nat);
        if p.iterations < MAX_ITERATIONS && p.budget > 0 {
            let b1 = begin_step(p).0;
            assert(b1.budget > 0);
            assert(b1.budget.wrapping_sub(1) == b1.budget - 1);
        }
    }
}

/// The heartbeat events the agent loop reacts to.
#[derive(Debug, Clone, Copy, PartialEq, Eq)]
pub enum HeartbeatKind {
    Tick,
    Breath,
    Reflect,
    Dream,
    WindowFocusChanged,
    Other,
}

/// What a heartbeat asks of the agent loop.
#[derive(Debug, Clone, Copy, PartialEq, Eq)]
pub enum HeartbeatAction {
    /// Nothing to do.
    Nothing,
    /// Reflect on the recent conversation.
    Reflect,
    /// Run an iteration about the newly focused window.
    Respond,
}

/// Decides on a heartbeat: a breath reflects when a reflection is due, a
/// reflect always does, and a focus change is answered by a proactive persona.
pub fn heartbeat_action(kind: HeartbeatKind, proactive: bool, reflect_due: bool) -> (r:
    HeartbeatAction)
    ensures
        r == (match kind {
            HeartbeatKind::Breath => if reflect_due {
                HeartbeatAction::Reflect
            } else {
                HeartbeatAction::Nothing
            },
            HeartbeatKind::Reflect => HeartbeatAction::Reflect,
            HeartbeatKind::WindowFocusChanged => if proactive {
                HeartbeatAction::Respond
            } else {
                HeartbeatAction::Nothing
            },
            _ => HeartbeatAction::Nothing,
        }),
{
    match kind {
        HeartbeatKind::Breath => {
            if reflect_due {
                HeartbeatAction::Reflect
            } else {
                HeartbeatAction::Nothing
            }
        },
        HeartbeatKind::Reflect => HeartbeatAction::Reflect,
        HeartbeatKind::WindowFocusChanged => {
            if proactive {
                HeartbeatAction::Respond
            } else {
                HeartbeatAction::Nothing
            }
        },
        _ => HeartbeatAction::Nothing,
    }
}

/// The messages of one iteration: the system prompt, the history, then the
/// current turn from the user.
pub fn iteration_messages(system_prompt: &str, history: &Vec<ChatMessage>, current_turn: &str) -> (r: Vec<ChatMessage>)
    ensures
        messages_view(r@) == seq![("system"@, system_prompt@)] + messages_view(history@) + seq![
            ("user"@, current_turn@),
        ],
{
    let mut out: Vec<ChatMessage> = Vec::new();
    out.push(ChatMessage::system(system_prompt));
    let mut i: usize = 0;
    while i < history.len()
        invariant
            i <= history@.len(),
            messages_view(out@) == seq![("system"@, system_prompt@)] + messages_view(history@).take(
                i as int,
            ),
        decreases history.len() - i,
    {
        let ghost before = messages_view(out@);
        out.push(history[i].duplicate());
        assert(messages_view(out@) =~= before.push(message_view(history@[i as int])));
        assert(messages_view(history@).take(i + 1) =~= messages_view(history@).take(i as int).push(
            message_view(history@[i as int]),
        ));
        i = i + 1;
    }
    let ghost before = messages_view(out@);
    out.push(ChatMessage::user(current_turn));
    assert(messages_view(history@).take(history@.len() as int) =~= messages_view(history@));
    assert(messages_view(out@) =~= before.push(("user"@, current_turn@)));
    out
}

/// How a trigger reason is written.
pub open spec fn trigger_name(t: TriggerReason) -> Seq<char> {
    match t {
        TriggerReason::IterationCount => "IterationCount"@,
        TriggerReason::ErrorsOvercome => "ErrorsOvercome"@,
        TriggerReason::UserCorrection => "UserCorrection"@,
    }
}

/// After a reply, whether a skill should be captured: when a review is due,
/// the nudge is consumed and the pending skill's (name, description) is
/// returned; otherwise nothing changes.
pub fn skill_creation(tracker: &mut LearningTracker) -> (r: Option<(String, String)>)
    ensures
        match trigger_spec(old(tracker).state()) {
            Some(t) => r matches Some((n, d)) && n@ == "pending"@ && d@ == "Skill from "@
                + trigger_name(t) + " trigger"@ && final(tracker).state() == (LearningStats {
                iters_since_skill: 0,
                errors_encountered: 0,
                user_corrections: 0,
                ..old(tracker).state()
            }),
            None => r is None && final(tracker).state() == old(tracker).state(),
        },
{
    match tracker.trigger_reason() {
        Some(t) => {
            tracker.consume_nudge();
            let mut d: Vec<char> = Vec::new();
            push_str(&mut d, "Skill from ");
            match t {
                TriggerReason::IterationCount => push_str(&mut d, "IterationCount"),
                TriggerReason::ErrorsOvercome => push_str(&mut d, "ErrorsOvercome"),
                TriggerReason::UserCorrection => push_str(&mut d, "UserCorrection"),
            }
            push_str(&mut d, " trigger");
            Some((String::from_str("pending"), string_of(&d)))
        },
        None => None,
    }
}

} // verus!
