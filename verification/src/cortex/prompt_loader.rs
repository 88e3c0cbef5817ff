//! Prompt files: the persona, user and memory texts and their size limit.
use vstd::prelude::*;
use crate::text::{chars_of, string_of, take_chars};

verus! {

/// Maximum characters allowed per prompt file.
pub const MAX_PROMPT_CHARS: usize = 4000;

/// Default content for SOUL.md — Wakey's core personality and voice.
pub const DEFAULT_SOUL: &'static str = r#"# Soul

You are Wakey, a friendly AI companion that lives on the user's desktop.

## Personality
- Warm, curious, a little playful
- Casual, not robotic or formal
- Concise — this is conversation, not an essay
- You notice what the user is doing and comment naturally
- You know when to be quiet (deep focus = silence)

## Voice
- Short sentences. Natural rhythm.
- Use humor sparingly but genuinely
- Never announce you're an AI. Just be Wakey.
- Match the user's energy — if they're tired, be gentle

## Boundaries
- Don't nag about productivity
- Don't give unsolicited life advice
- Don't be a manager — be a friend
- If unsure, ask. Don't assume.

## Expression
- End every response with MOOD:<mood> on a new line
- Available moods: neutral, happy, excited, concerned, thinking, empathetic, sleepy, surprised, playful, focused
- Match the mood to your response's emotional tone
"#;

/// Default content for USER.md — placeholder for user-specific context.
pub const DEFAULT_USER: &'static str = r#"# User

No user profile yet. This file will be updated as Wakey learns about you.
"#;

/// Default content for MEMORY.md — placeholder for injected memories.
pub const DEFAULT_MEMORY: &'static str = r#"# Memory

No persistent memory context loaded yet.
"#;

/// Loaded prompt files — content from SOUL.md, USER.md, and MEMORY.md.
///
/// Each field contains the (possibly truncated) text of the corresponding file.
#[derive(Debug, Clone)]
pub struct PromptFiles {
    /// Content of SOUL.md — persona, voice, and behavioral rules.
    pub soul: String,
    /// Content of USER.md — user-specific context and preferences.
    pub user: String,
    /// Content of MEMORY.md — injected memory summaries.
    pub memory: String,
}

/// Truncate `s` to at most `max_chars` Unicode scalar values.
pub fn truncate_chars(s: &str, max_chars: usize) -> (r: String)
    ensures
        r@ == take_chars(s@, max_chars as nat),
{
    let v = chars_of(s);
    if v.len() <= max_chars {
        return string_of(&v);
    }
    let mut out: Vec<char> = Vec::new();
    let mut i: usize = 0;
    while i < max_chars
        invariant
            max_chars < v@.len(),
            i <= max_chars,
            out@ == v@.take(i as int),
        decreases max_chars - i,
    {
        out.push(v[i]);
        i = i + 1;
    }
    string_of(&out)
}

/// The text a prompt file contributes: what was read from disk, or the
/// default when the file did not exist, cut to [`MAX_PROMPT_CHARS`].
pub fn prompt_content(read: Option<&str>, default_content: &str) -> (r: String)
    ensures
        r@ == take_chars(
            match read {
                Some(t) => t@,
                None => default_content@,
            },
            MAX_PROMPT_CHARS as nat,
        ),
{
    match read {
        Some(t) => truncate_chars(t, MAX_PROMPT_CHARS),
        None => truncate_chars(default_content, MAX_PROMPT_CHARS),
    }
}

/// Law: a truncated text is a prefix of the text it was cut from, no longer than the limit,
/// and the whole text when it already fits.
pub proof fn law_truncate_prefix(s: Seq<char>, n: nat)
    ensures
        take_chars(s, n).len() <= n,
        take_chars(s, n).len() <= s.len(),
        take_chars(s, n) == s.take(take_chars(s, n).len() as int),
        s.len() <= n ==> take_chars(s, n) == s,
        s.len() > n ==> take_chars(s, n).len() == n,
{
    if s.len() <= n {
        assert(s.take(s.len() as int) =~= s);
    }
}

/// Law: truncating twice to the same limit changes nothing more.
pub proof fn law_truncate_idempotent(s: Seq<char>, n: nat)
    ensures
        take_chars(take_chars(s, n), n) == take_chars(s, n),
{
}

} // verus!
