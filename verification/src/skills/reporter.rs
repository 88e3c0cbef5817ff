//! Tier 2 notifications: what the companion says to the human about an agent,
//! and how urgently.
use vstd::prelude::*;
use vstd::utf8::encode_utf8;
use crate::skills::detector::StuckReason;
use crate::skills::fixer::FixAction;
use crate::text::{chars_of, push_str, string_of, take_chars, slice_chars};
use crate::types::Urgency;

verus! {

/// A message for the human and its urgency.
#[derive(Debug, Clone)]
pub struct Notice {
    pub text: String,
    pub urgency: Urgency,
}

/// An issue as it is told: cut to 197 characters and an ellipsis when it is
/// longer than 200 bytes.
pub open spec fn summarize_spec(issue: Seq<char>) -> Seq<char> {
    if encode_utf8(issue).len() as usize > 200 {
        take_chars(issue, 197) + "..."@
    } else {
        issue
    }
}

/// Summarize an issue for human consumption
pub fn summarize_issue(issue: &str) -> (r: String)
    ensures
        r@ == summarize_spec(issue@),
{
    if issue.len() > 200 {
        let c = chars_of(issue);
        let mut head = if c.len() <= 197 {
            c
        } else {
            slice_chars(&c, 0, 197)
        };
        assert(head@ =~= take_chars(issue@, 197));
        push_str(&mut head, "...");
        string_of(&head)
    } else {
        String::from_str(issue)
    }
}

/// Law: a summary never holds more than 200 characters, and is the issue
/// itself when that fits in 200 bytes.
pub proof fn law_summary_bounded(issue: Seq<char>)
    ensures
        summarize_spec(issue).len() <= 200 || summarize_spec(issue) == issue,
        encode_utf8(issue).len() as usize <= 200 ==> summarize_spec(issue) == issue,
{
    reveal_strlit("...");
}

fn notice(parts: Vec<char>, urgency: Urgency) -> (r: Notice)
    ensures
        r.text@ == parts@,
        r.urgency == urgency,
{
    Notice { text: string_of(&parts), urgency }
}

/// What is said of a stuck agent.
pub open spec fn stuck_text(agent_type: Seq<char>, reason: StuckReason) -> Seq<char> {
    match reason {
        StuckReason::NoActivity => "Your "@ + agent_type
            + " worker hasn't made progress in a while. Want me to check on it?"@,
        StuckReason::LoopDetected(tool) => "Your "@ + agent_type
            + " worker seems stuck doing the same thing over and over ("@ + tool@
            + "). Should I restart it?"@,
        StuckReason::StateRegression => "Your "@ + agent_type
            + " worker hasn't moved forward in a while. Want me to investigate?"@,
        StuckReason::ErrorThreshold => "Your "@ + agent_type
            + " worker keeps hitting errors. I've tried fixing it a few times. Your call."@,
        StuckReason::External(what) => "Something went wrong with your "@ + agent_type
            + " worker: "@ + what@ + ". Want me to restart it?"@,
    }
}

/// Agent is stuck — what to tell the human, at medium urgency.
pub fn stuck_notice(agent_type: &str, reason: &StuckReason) -> (r: Notice)
    ensures
        r.text@ == stuck_text(agent_type@, *reason),
        r.urgency == Urgency::Medium,
{
    let mut v: Vec<char> = Vec::new();
    match reason {
        StuckReason::NoActivity => {
            push_str(&mut v, "Your ");
            push_str(&mut v, agent_type);
            push_str(&mut v, " worker hasn't made progress in a while. Want me to check on it?");
        },
        StuckReason::LoopDetected(tool) => {
            push_str(&mut v, "Your ");
            push_str(&mut v, agent_type);
            push_str(&mut v, " worker seems stuck doing the same thing over and over (");
            push_str(&mut v, tool.as_str());
            push_str(&mut v, "). Should I restart it?");
        },
        StuckReason::StateRegression => {
            push_str(&mut v, "Your ");
            push_str(&mut v, agent_type);
            push_str(&mut v, " worker hasn't moved forward in a while. Want me to investigate?");
        },
        StuckReason::ErrorThreshold => {
            push_str(&mut v, "Your ");
            push_str(&mut v, agent_type);
            push_str(
                &mut v,
                " worker keeps hitting errors. I've tried fixing it a few times. Your call.",
            );
        },
        StuckReason::External(what) => {
            push_str(&mut v, "Something went wrong with your ");
            push_str(&mut v, agent_type);
            push_str(&mut v, " worker: ");
            push_str(&mut v, what.as_str());
            push_str(&mut v, ". Want me to restart it?");
        },
    }
    notice(v, Urgency::Medium)
}

/// Agent needs user input — at high urgency.
pub fn needs_input_notice(agent_type: &str, issue: &str) -> (r: Notice)
    ensures
        r.text@ == "Your "@ + agent_type@ + " worker needs your input: "@ + summarize_spec(issue@),
        r.urgency == Urgency::High,
{
    let mut v: Vec<char> = Vec::new();
    push_str(&mut v, "Your ");
    push_str(&mut v, agent_type);
    push_str(&mut v, " worker needs your input: ");
    let s = summarize_issue(issue);
    push_str(&mut v, s.as_str());
    notice(v, Urgency::High)
}

/// A fix was attempted but failed — at medium urgency.
pub fn fix_failed_notice(error: &str) -> (r: Notice)
    ensures
        r.text@ == "I tried to fix the issue but it didn't work: "@ + summarize_spec(error@)
            + ". Want me to try something else?"@,
        r.urgency == Urgency::Medium,
{
    let mut v: Vec<char> = Vec::new();
    push_str(&mut v, "I tried to fix the issue but it didn't work: ");
    let s = summarize_issue(error);
    push_str(&mut v, s.as_str());
    push_str(&mut v, ". Want me to try something else?");
    notice(v, Urgency::Medium)
}

/// What is asked before a fix that needs approval.
pub open spec fn approval_text(action: FixAction) -> Seq<char> {
    match action {
        FixAction::InstallCrate { crate_name, .. } => "Your worker needs a new dependency: "@
            + crate_name@ + ". Should I add it?"@,
        FixAction::RunCommand { command, .. } => "I want to run this command to fix the issue: "@
            + command@ + ". Is that okay?"@,
        FixAction::RestartWithContext { .. } =>
            "I think restarting with some extra context might help. Mind if I do that?"@,
        FixAction::CheckEnvVar { var_name } => "Your worker is missing an environment variable: "@
            + var_name@ + ". Can you set it?"@,
        _ => "I have a potential fix but want to check with you first. Should I proceed?"@,
    }
}

/// A fix needs user approval — at medium urgency.
pub fn approval_notice(action: &FixAction) -> (r: Notice)
    ensures
        r.text@ == approval_text(*action),
        r.urgency == Urgency::Medium,
{
    let mut v: Vec<char> = Vec::new();
    match action {
        FixAction::InstallCrate { crate_name, .. } => {
            push_str(&mut v, "Your worker needs a new dependency: ");
            push_str(&mut v, crate_name.as_str());
            push_str(&mut v, ". Should I add it?");
        },
        FixAction::RunCommand { command, .. } => {
            push_str(&mut v, "I want to run this command to fix the issue: ");
            push_str(&mut v, command.as_str());
            push_str(&mut v, ". Is that okay?");
        },
        FixAction::RestartWithContext { .. } => {
            push_str(
                &mut v,
                "I think restarting with some extra context might help. Mind if I do that?",
            );
        },
        FixAction::CheckEnvVar { var_name } => {
            push_str(&mut v, "Your worker is missing an environment variable: ");
            push_str(&mut v, var_name.as_str());
            push_str(&mut v, ". Can you set it?");
        },
        _ => {
            push_str(
                &mut v,
                "I have a potential fix but want to check with you first. Should I proceed?",
            );
        },
    }
    notice(v, Urgency::Medium)
}

/// Agent completed successfully — at low urgency.
pub fn completed_notice(agent_type: &str, summary: &str) -> (r: Notice)
    ensures
        r.text@ == "Your "@ + agent_type@ + " worker finished! "@ + summary@,
        r.urgency == Urgency::Low,
{
    let mut v: Vec<char> = Vec::new();
    push_str(&mut v, "Your ");
    push_str(&mut v, agent_type);
    push_str(&mut v, " worker finished! ");
    push_str(&mut v, summary);
    notice(v, Urgency::Low)
}

/// Agent failed after retries — at high urgency.
pub fn failed_notice(agent_type: &str, reason: &str) -> (r: Notice)
    ensures
        r.text@ == "Your "@ + agent_type@ + " worker couldn't finish the task: "@ + summarize_spec(
            reason@,
        ) + ". Want me to try a different approach?"@,
        r.urgency == Urgency::High,
{
    let mut v: Vec<char> = Vec::new();
    push_str(&mut v, "Your ");
    push_str(&mut v, agent_type);
    push_str(&mut v, " worker couldn't finish the task: ");
    let s = summarize_issue(reason);
    push_str(&mut v, s.as_str());
    push_str(&mut v, ". Want me to try a different approach?");
    notice(v, Urgency::High)
}

} // verus!
