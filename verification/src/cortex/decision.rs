//! Conversation state and the prompts built from it.
use vstd::prelude::*;
use crate::context::memory::{category_name, MemoryCategory};
use crate::text::{chars_of, push_str, string_of, take_chars, decimal, decimal_exec, append_chars};
use crate::types::{message_view, ChatMessage, Importance, PersonaConfig};
use crate::skills::clock::{elapsed_secs, instant_now};
use std::time::Instant;

verus! {

/// Maximum messages in conversation history
pub const MAX_HISTORY_MESSAGES: usize = 10;

/// Seconds between periodic reflections.
pub const REFLECT_INTERVAL_SECS: u64 = 900;

/// The views of a list of messages.
pub open spec fn messages_view(v: Seq<ChatMessage>) -> Seq<(Seq<char>, Seq<char>)> {
    v.map_values(|m: ChatMessage| message_view(m))
}

/// The history after adding `m`: the oldest message leaves once the bound is reached.
pub open spec fn history_after(h: Seq<(Seq<char>, Seq<char>)>, m: (Seq<char>, Seq<char>)) -> Seq<
    (Seq<char>, Seq<char>),
> {
    if h.len() >= MAX_HISTORY_MESSAGES {
        h.drop_first().push(m)
    } else {
        h.push(m)
    }
}

/// The conversation state a decision is made from: recent history and persona.
pub struct DecisionContext {
    history: Vec<ChatMessage>,
    persona: PersonaConfig,
    last_reflect: Instant,
}

impl DecisionContext {
    pub closed spec fn history_view(&self) -> Seq<(Seq<char>, Seq<char>)> {
        messages_view(self.history@)
    }

    pub closed spec fn persona_spec(&self) -> PersonaConfig {
        self.persona
    }

    /// Create a new decision context with an empty history.
    pub fn new(persona: PersonaConfig) -> (r: Self)
        ensures
            r.history_view() == Seq::<(Seq<char>, Seq<char>)>::empty(),
            r.persona_spec() == persona,
    {
        let r = DecisionContext { history: Vec::new(), persona, last_reflect: instant_now() };
        assert(r.history_view() =~= Seq::<(Seq<char>, Seq<char>)>::empty());
        r
    }

    /// Add a message to history, maintaining max size
    pub fn add_to_history(&mut self, message: ChatMessage)
        ensures
            final(self).history_view() == history_after(old(self).history_view(), message_view(message)),
            final(self).persona_spec() == old(self).persona_spec(),
    {
        let ghost h = self.history_view();
        if self.history.len() >= MAX_HISTORY_MESSAGES {
            self.history.remove(0);
            assert(messages_view(self.history@) =~= h.drop_first());
        }
        self.history.push(message);
        assert(self.history_view() =~= history_after(h, message_view(message)));
    }

    /// Get conversation history as a vector
    pub fn get_history(&self) -> (r: Vec<ChatMessage>)
        ensures
            messages_view(r@) == self.history_view(),
    {
        let mut out: Vec<ChatMessage> = Vec::new();
        let mut i: usize = 0;
        while i < self.history.len()
            invariant
                i <= self.history@.len(),
                out@.len() == i,
                messages_view(out@) == messages_view(self.history@).take(i as int),
            decreases self.history.len() - i,
        {
            let m = self.history[i].duplicate();
            assert(message_view(m) == message_view(self.history@[i as int]));
            let ghost before = out@;
            out.push(m);
            assert(out@ == before.push(m));
            assert forall|k: int| 0 <= k < i + 1 implies #[trigger] messages_view(out@)[k]
                == messages_view(self.history@).take(i + 1)[k] by {
                if k < i {
                    assert(out@[k] == before[k]);
                    assert(messages_view(before)[k] == messages_view(self.history@).take(
                        i as int,
                    )[k]);
                }
            }
            assert(messages_view(out@) =~= messages_view(self.history@).take(i + 1));
            i = i + 1;
        }
        assert(messages_view(self.history@).take(self.history@.len() as int) =~= messages_view(
            self.history@,
        ));
        out
    }

    /// Whether a reflection is due: `should_reflect_after` of the whole
    /// seconds since the last one (or since the context was made). The
    /// seconds are read from the monotonic clock.
    pub fn should_reflect(&self) -> bool {
        should_reflect_after(elapsed_secs(&self.last_reflect))
    }

    /// Mark reflection as done, now.
    pub fn mark_reflect_done(&mut self)
        ensures
            final(self).history_view() == old(self).history_view(),
            final(self).persona_spec() == old(self).persona_spec(),
    {
        self.last_reflect = instant_now();
    }

    /// The persona the companion speaks as.
    pub fn persona(&self) -> (r: &PersonaConfig)
        ensures
            *r == self.persona_spec(),
    {
        &self.persona
    }
}

/// Law: the history never holds more than the bound, and every add keeps the
/// newest message last.
pub proof fn law_history_bounded(h: Seq<(Seq<char>, Seq<char>)>, m: (Seq<char>, Seq<char>))
    requires
        h.len() <= MAX_HISTORY_MESSAGES,
    ensures
        history_after(h, m).len() <= MAX_HISTORY_MESSAGES,
        history_after(h, m).last() == m,
        h.len() < MAX_HISTORY_MESSAGES ==> history_after(h, m).len() == h.len() + 1,
        h.len() == MAX_HISTORY_MESSAGES ==> history_after(h, m).len() == MAX_HISTORY_MESSAGES,
{
}

/// Whether a reflection is due, `elapsed_secs` after the last one.
pub fn should_reflect_after(elapsed_secs: u64) -> (r: bool)
    ensures
        r == (elapsed_secs >= REFLECT_INTERVAL_SECS),
{
    elapsed_secs >= REFLECT_INTERVAL_SECS
}

/// One bullet line per memory abstract.
pub open spec fn memory_lines(l0s: Seq<Seq<char>>) -> Seq<char>
    decreases l0s.len(),
{
    if l0s.len() == 0 {
        Seq::empty()
    } else {
        memory_lines(l0s.drop_last()) + "- "@ + l0s.last() + "\n"@
    }
}

/// The views of a list of strings.
pub open spec fn strings_view(v: Seq<String>) -> Seq<Seq<char>> {
    v.map_values(|s: String| s@)
}

fn push_memory_lines(out: &mut Vec<char>, l0s: &Vec<String>)
    ensures
        final(out)@ == old(out)@ + memory_lines(strings_view(l0s@)),
{
    let ghost start = out@;
    let mut i: usize = 0;
    while i < l0s.len()
        invariant
            i <= l0s@.len(),
            out@ == start + memory_lines(strings_view(l0s@).take(i as int)),
        decreases l0s.len() - i,
    {
        push_str(out, "- ");
        push_str(out, l0s[i].as_str());
        push_str(out, "\n");
        assert(strings_view(l0s@).take(i + 1).drop_last() =~= strings_view(l0s@).take(i as int));
        assert(out@ =~= start + memory_lines(strings_view(l0s@).take(i + 1)));
        i = i + 1;
    }
    assert(strings_view(l0s@).take(l0s@.len() as int) =~= strings_view(l0s@));
}

/// The section naming a matched skill.
pub open spec fn skill_section(skill: Option<(Seq<char>, Seq<char>)>) -> Seq<char> {
    match skill {
        Some((name, overview)) => "## Active Skill: "@ + name + "\n"@ + overview + "\n\n"@,
        None => Seq::empty(),
    }
}

fn push_skill_section(out: &mut Vec<char>, skill: Option<(&str, &str)>)
    ensures
        final(out)@ == old(out)@ + skill_section(
            match skill {
                Some((n, o)) => Some((n@, o@)),
                None => None,
            },
        ),
{
    match skill {
        Some((name, overview)) => {
            let ghost start = out@;
            push_str(out, "## Active Skill: ");
            push_str(out, name);
            push_str(out, "\n");
            push_str(out, overview);
            push_str(out, "\n\n");
            assert(out@ =~= start + ("## Active Skill: "@ + name@ + "\n"@ + overview@ + "\n\n"@));
        },
        None => {
            assert(out@ =~= old(out)@ + Seq::<char>::empty());
        },
    }
}

/// The system prompt of a chat turn: persona, recalled memories, the matched
/// skill and the fixed guidance, with the session's start time.
pub open spec fn system_prompt_spec(
    name: Seq<char>,
    style: Seq<char>,
    l0s: Seq<Seq<char>>,
    skill: Option<(Seq<char>, Seq<char>)>,
    session_start: Seq<char>,
) -> Seq<char> {
    "You are "@ + name + ", a friendly AI companion that lives on the user's desktop.\nYour style is "@
        + style + " and you aim to be helpful, supportive, and natural.\n\n"@ + (if l0s.len() > 0 {
        "## Relevant Memories\n"@ + memory_lines(l0s) + "\n"@
    } else {
        Seq::empty()
    }) + skill_section(skill) + "## Current Context\n"@ + "Session started: "@ + session_start
        + "\n"@ + "You see what the user is doing through window focus events.\n"@
        + "Be proactive and helpful, but don't be annoying.\n\n"@
        + "Remember: Be brief, natural, and friendly. 1-2 sentences max unless asked for more."@
}

/// Build the system prompt from the persona, the recalled memory abstracts,
/// the matched skill (name, overview) and the session's start time.
pub fn build_system_prompt(
    persona: &PersonaConfig,
    memories: &Vec<String>,
    skill: Option<(&str, &str)>,
    session_start: &str,
) -> (r: String)
    ensures
        r@ == system_prompt_spec(
            persona.name@,
            persona.style@,
            strings_view(memories@),
            match skill {
                Some((n, o)) => Some((n@, o@)),
                None => None,
            },
            session_start@,
        ),
{
    let mut out: Vec<char> = Vec::new();
    push_str(&mut out, "You are ");
    push_str(&mut out, persona.name.as_str());
    push_str(&mut out, ", a friendly AI companion that lives on the user's desktop.\nYour style is ");
    push_str(&mut out, persona.style.as_str());
    push_str(&mut out, " and you aim to be helpful, supportive, and natural.\n\n");
    let ghost head = out@;
    if memories.len() > 0 {
        push_str(&mut out, "## Relevant Memories\n");
        push_memory_lines(&mut out, memories);
        push_str(&mut out, "\n");
    }
    let ghost mid = out@;
    push_skill_section(&mut out, skill);
    push_str(&mut out, "## Current Context\n");
    push_str(&mut out, "Session started: ");
    push_str(&mut out, session_start);
    push_str(&mut out, "\n");
    push_str(&mut out, "You see what the user is doing through window focus events.\n");
    push_str(&mut out, "Be proactive and helpful, but don't be annoying.\n\n");
    push_str(
        &mut out,
        "Remember: Be brief, natural, and friendly. 1-2 sentences max unless asked for more.",
    );
    proof {
        if memories@.len() > 0 {
            assert(mid =~= head + ("## Relevant Memories\n"@ + memory_lines(strings_view(memories@))
                + "\n"@));
        } else {
            assert(mid =~= head + Seq::<char>::empty());
        }
    }
    assert(out@ =~= system_prompt_spec(
        persona.name@,
        persona.style@,
        strings_view(memories@),
        match skill {
            Some((n, o)) => Some((n@, o@)),
            None => None,
        },
        session_start@,
    ));
    string_of(&out)
}

/// The system prompt of an assembled context.
pub open spec fn assembled_prompt_spec(
    name: Seq<char>,
    style: Seq<char>,
    l0s: Seq<Seq<char>>,
    skill: Option<(Seq<char>, Seq<char>)>,
    current_context: Seq<char>,
) -> Seq<char> {
    "You are "@ + name + ", a friendly AI companion that lives on the user's desktop.\nYour style is "@
        + style + ".\n\n"@ + (if l0s.len() > 0 {
        "## What You Remember\n"@ + memory_lines(l0s) + "\n"@
    } else {
        Seq::empty()
    }) + skill_section(skill) + "## Right Now\n"@ + current_context + "\n\nBe brief and natural. "@
}

/// The system prompt that context assembly builds from the persona, the
/// recalled memory abstracts, the matched skill and the current context.
pub fn assemble_system_prompt(
    persona: &PersonaConfig,
    memories: &Vec<String>,
    skill: Option<(&str, &str)>,
    current_context: &str,
) -> (r: String)
    ensures
        r@ == assembled_prompt_spec(
            persona.name@,
            persona.style@,
            strings_view(memories@),
            match skill {
                Some((n, o)) => Some((n@, o@)),
                None => None,
            },
            current_context@,
        ),
{
    let mut out: Vec<char> = Vec::new();
    push_str(&mut out, "You are ");
    push_str(&mut out, persona.name.as_str());
    push_str(&mut out, ", a friendly AI companion that lives on the user's desktop.\nYour style is ");
    push_str(&mut out, persona.style.as_str());
    push_str(&mut out, ".\n\n");
    let ghost head = out@;
    if memories.len() > 0 {
        push_str(&mut out, "## What You Remember\n");
        push_memory_lines(&mut out, memories);
        push_str(&mut out, "\n");
    }
    let ghost mid = out@;
    push_skill_section(&mut out, skill);
    push_str(&mut out, "## Right Now\n");
    push_str(&mut out, current_context);
    push_str(&mut out, "\n\nBe brief and natural. ");
    proof {
        if memories@.len() > 0 {
            assert(mid =~= head + ("## What You Remember\n"@ + memory_lines(strings_view(memories@))
                + "\n"@));
        } else {
            assert(mid =~= head + Seq::<char>::empty());
        }
    }
    assert(out@ =~= assembled_prompt_spec(
        persona.name@,
        persona.style@,
        strings_view(memories@),
        match skill {
            Some((n, o)) => Some((n@, o@)),
            None => None,
        },
        current_context@,
    ));
    string_of(&out)
}

/// The turn sent to the model: the user's words, or a question about the context.
pub open spec fn current_turn_spec(current_context: Seq<char>, user_query: Option<Seq<char>>) -> Seq<
    char,
> {
    match user_query {
        Some(q) => q,
        None => "What do you think about: "@ + current_context + "?"@,
    }
}

/// The current turn of an assembled context.
pub fn current_turn(current_context: &str, user_query: Option<&str>) -> (r: String)
    ensures
        r@ == current_turn_spec(
            current_context@,
            match user_query {
                Some(q) => Some(q@),
                None => None,
            },
        ),
{
    match user_query {
        Some(q) => String::from_str(q),
        None => {
            let mut out: Vec<char> = Vec::new();
            push_str(&mut out, "What do you think about: ");
            push_str(&mut out, current_context);
            push_str(&mut out, "?");
            string_of(&out)
        },
    }
}

/// The category a fact of the given importance is stored under.
pub open spec fn importance_category_spec(i: Importance) -> MemoryCategory {
    match i {
        Importance::Core => MemoryCategory::Core,
        Importance::LongTerm => MemoryCategory::Core,
        Importance::ShortTerm => MemoryCategory::Daily,
        Importance::Fleeting => MemoryCategory::Conversation,
    }
}

/// The memory category for a conversation fact of the given importance.
pub fn importance_category(importance: Importance) -> (r: MemoryCategory)
    ensures
        r == importance_category_spec(importance),
{
    match importance {
        Importance::Core => MemoryCategory::Core,
        Importance::LongTerm => MemoryCategory::Core,
        Importance::ShortTerm => MemoryCategory::Daily,
        Importance::Fleeting => MemoryCategory::Conversation,
    }
}

/// The key a conversation fact is stored under: its category, then the time stamp.
pub fn fact_key(category: &MemoryCategory, stamp: &str) -> (r: String)
    ensures
        r@ == category_name(*category) + "/"@ + stamp@ + ".md"@,
{
    let mut out: Vec<char> = Vec::new();
    push_str(&mut out, category.as_str());
    push_str(&mut out, "/");
    push_str(&mut out, stamp);
    push_str(&mut out, ".md");
    string_of(&out)
}

/// The topics of a reflection: the first fifty characters of each user
/// message, separated by commas.
pub open spec fn topics(h: Seq<(Seq<char>, Seq<char>)>) -> Seq<char>
    decreases h.len(),
{
    if h.len() == 0 {
        Seq::empty()
    } else {
        let prev = topics(h.drop_last());
        if h.last().0 == "user"@ {
            if prev.len() == 0 && no_user_message(h.drop_last()) {
                take_chars(h.last().1, 50)
            } else {
                prev + ", "@ + take_chars(h.last().1, 50)
            }
        } else {
            prev
        }
    }
}

/// No message of the history is the user's.
pub open spec fn no_user_message(h: Seq<(Seq<char>, Seq<char>)>) -> bool {
    forall|i: int| 0 <= i < h.len() ==> h[i].0 != "user"@
}

/// The summary a reflection stores: the time, the number of messages and their topics.
pub open spec fn reflect_summary_spec(time: Seq<char>, h: Seq<(Seq<char>, Seq<char>)>) -> Seq<char> {
    "Session summary at "@ + time + ": "@ + decimal(h.len()) + " messages exchanged. Topics: "@
        + topics(h)
}

/// The summary of a reflection over the history, stamped with the time of day.
pub fn reflect_summary(time: &str, history: &Vec<ChatMessage>) -> (r: String)
    requires
        history@.len() <= u64::MAX,
    ensures
        r@ == reflect_summary_spec(time@, messages_view(history@)),
{
    let mut out: Vec<char> = Vec::new();
    push_str(&mut out, "Session summary at ");
    push_str(&mut out, time);
    push_str(&mut out, ": ");
    let n = decimal_exec(history.len() as u64);
    append_chars(&mut out, &n);
    push_str(&mut out, " messages exchanged. Topics: ");
    let ghost head = out@;
    let mut t: Vec<char> = Vec::new();
    let mut any_user = false;
    let mut i: usize = 0;
    while i < history.len()
        invariant
            i <= history@.len(),
            t@ == topics(messages_view(history@).take(i as int)),
            any_user == !no_user_message(messages_view(history@).take(i as int)),
            !any_user ==> t@.len() == 0,
        decreases history.len() - i,
    {
        let ghost hv = messages_view(history@).take(i + 1);
        assert(hv.drop_last() =~= messages_view(history@).take(i as int));
        let is_user = crate::text::str_eq(history[i].role.as_str(), "user");
        if is_user {
            let c = chars_of(history[i].content.as_str());
            let piece = if c.len() <= 50 {
                c
            } else {
                crate::text::slice_chars(&c, 0, 50)
            };
            assert(piece@ =~= take_chars(history@[i as int].content@, 50));
            if any_user {
                push_str(&mut t, ", ");
            }
            append_chars(&mut t, &piece);
            any_user = true;
        }
        proof {
            if !is_user {
                assert(no_user_message(hv) == no_user_message(hv.drop_last())) by {
                    if no_user_message(hv.drop_last()) {
                        assert forall|k: int| 0 <= k < hv.len() implies hv[k].0 != "user"@ by {
                            if k < hv.len() - 1 {
                                assert(hv[k] == hv.drop_last()[k]);
                            }
                        }
                    }
                }
            } else {
                assert(hv[hv.len() - 1].0 == "user"@);
            }
        }
        assert(t@ =~= topics(hv));
        i = i + 1;
    }
    assert(messages_view(history@).take(history@.len() as int) =~= messages_view(history@));
    append_chars(&mut out, &t);
    string_of(&out)
}

/// The context line for a focused window.
pub fn focus_context(app: &str, title: &str) -> (r: String)
    ensures
        r@ == "User is looking at "@ + app@ + " - "@ + title@,
{
    let mut out: Vec<char> = Vec::new();
    push_str(&mut out, "User is looking at ");
    push_str(&mut out, app);
    push_str(&mut out, " - ");
    push_str(&mut out, title);
    string_of(&out)
}

} // verus!
