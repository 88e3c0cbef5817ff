//! The companion's own decisions: which language-model provider to use, when
//! a change of window is worth a remark, and what the model is asked.
use vstd::prelude::*;
use crate::skills::format::strs;
use crate::text::{chars_of, join, join_exec, push_str, str_eq, string_of, views};
use crate::types::LlmProviderConfig;

verus! {

/// The first position of a provider named `name`.
pub open spec fn provider_index(names: Seq<Seq<char>>, name: Seq<char>) -> Option<nat>
    decreases names.len(),
{
    if names.len() == 0 {
        None
    } else if names[0] == name {
        Some(0)
    } else {
        match provider_index(names.drop_first(), name) {
            Some(i) => Some(i + 1),
            None => None,
        }
    }
}

/// The names of the configured providers.
pub open spec fn provider_names(ps: Seq<LlmProviderConfig>) -> Seq<Seq<char>> {
    ps.map_values(|p: LlmProviderConfig| p.name@)
}

/// The error of a default provider that is not configured.
pub open spec fn missing_provider_message(name: Seq<char>, names: Seq<Seq<char>>) -> Seq<char> {
    "LLM provider '"@ + name + "' not found in config. Available providers: "@ + join(
        names,
        ", "@,
    )
}

/// The provider to use: the first one named as the default, or an error
/// listing the configured names.
pub fn find_provider(providers: &Vec<LlmProviderConfig>, default_name: &str) -> (r: Result<
    usize,
    String,
>)
    ensures
        match provider_index(provider_names(providers@), default_name@) {
            Some(i) => r == Ok::<usize, String>(i as usize),
            None => r matches Err(m) && m@ == missing_provider_message(
                default_name@,
                provider_names(providers@),
            ),
        },
{
    let ghost names = provider_names(providers@);
    let mut i: usize = 0;
    assert(names.skip(0) =~= names);
    while i < providers.len()
        invariant
            i <= providers@.len(),
            names == provider_names(providers@),
            provider_index(names, default_name@) == match provider_index(
                names.skip(i as int),
                default_name@,
            ) {
                Some(k) => Some((k + i) as nat),
                None => None::<nat>,
            },
        decreases providers.len() - i,
    {
        assert(names.skip(i as int)[0] == providers@[i as int].name@);
        assert(names.skip(i as int).drop_first() =~= names.skip(i + 1));
        if str_eq(providers[i].name.as_str(), default_name) {
            return Ok(i);
        }
        i = i + 1;
    }
    assert(names.skip(i as int) =~= Seq::<Seq<char>>::empty());
    let mut parts: Vec<Vec<char>> = Vec::new();
    let mut k: usize = 0;
    while k < providers.len()
        invariant
            k <= providers@.len(),
            parts@.len() == k,
            forall|j: int| 0 <= j < k ==> (#[trigger] parts@[j])@ == providers@[j].name@,
        decreases providers.len() - k,
    {
        parts.push(chars_of(providers[k].name.as_str()));
        k = k + 1;
    }
    assert(views(parts@) =~= names);
    let sep = chars_of(", ");
    let listed = join_exec(&parts, &sep);
    let mut msg: Vec<char> = Vec::new();
    push_str(&mut msg, "LLM provider '");
    push_str(&mut msg, default_name);
    push_str(&mut msg, "' not found in config. Available providers: ");
    crate::text::append_chars(&mut msg, &listed);
    Err(string_of(&msg))
}

/// How often a change of window earns a remark: every fifth change.
pub const REMARK_EVERY: u32 = 5;

/// The window focus the companion has seen: the last window, as
/// `app - title`, and how many times it changed.
pub struct FocusWatch {
    last_window: String,
    focus_count: u32,
}

/// How a window is named: `app - title`.
pub open spec fn window_label(app: Seq<char>, title: Seq<char>) -> Seq<char> {
    app + " - "@ + title
}

impl FocusWatch {
    pub closed spec fn last(&self) -> Seq<char> {
        self.last_window@
    }

    pub closed spec fn count(&self) -> u32 {
        self.focus_count
    }

    /// No window seen yet.
    pub fn new() -> (r: Self)
        ensures
            r.last() == Seq::<char>::empty(),
            r.count() == 0,
    {
        FocusWatch { last_window: String::new(), focus_count: 0 }
    }

    /// The last window seen.
    pub fn last_window(&self) -> (r: &str)
        ensures
            r@ == self.last(),
    {
        self.last_window.as_str()
    }

    /// How many times the window changed.
    pub fn focus_count(&self) -> (r: u32)
        ensures
            r == self.count(),
    {
        self.focus_count
    }

    /// Takes a focus change to `app`/`title`; a window other than the last
    /// one counts as a change, and every fifth change asks for a remark.
    pub fn on_focus_changed(&mut self, app: &str, title: &str) -> (remark: bool)
        requires
            old(self).count() < u32::MAX,
        ensures
            window_label(app@, title@) == old(self).last() ==> *final(self) == *old(self) && !remark,
            window_label(app@, title@) != old(self).last() ==> final(self).last() == window_label(
                app@,
                title@,
            ) && final(self).count() == old(self).count() + 1 && remark == (final(self).count()
                % REMARK_EVERY == 0),
    {
        let mut w: Vec<char> = Vec::new();
        push_str(&mut w, app);
        push_str(&mut w, " - ");
        push_str(&mut w, title);
        let window = string_of(&w);
        if str_eq(window.as_str(), self.last_window.as_str()) {
            return false;
        }
        self.last_window = window;
        self.focus_count = self.focus_count + 1;
        self.focus_count % REMARK_EVERY == 0
    }
}

/// What the model is asked for a remark about the current window.
pub open spec fn remark_prompt_spec(persona_name: Seq<char>, window: Seq<char>) -> Seq<char> {
    "You are "@ + persona_name
        + ", a friendly AI companion that lives on the user's desktop. The user is currently looking at: "@
        + window
        + ". Say something brief, helpful, or encouraging (1-2 sentences max). Be casual and friendly, like a supportive friend. Don't be robotic or overly formal. If they're in a coding/working context, be encouraging. If they're in entertainment, maybe joke about it. Keep it short and natural."@
}

/// The request for a remark about the current window.
pub fn remark_prompt(persona_name: &str, current_window: &str) -> (r: String)
    ensures
        r@ == remark_prompt_spec(persona_name@, current_window@),
{
    let mut v: Vec<char> = Vec::new();
    push_str(&mut v, "You are ");
    push_str(&mut v, persona_name);
    push_str(
        &mut v,
        ", a friendly AI companion that lives on the user's desktop. The user is currently looking at: ",
    );
    push_str(&mut v, current_window);
    push_str(
        &mut v,
        ". Say something brief, helpful, or encouraging (1-2 sentences max). Be casual and friendly, like a supportive friend. Don't be robotic or overly formal. If they're in a coding/working context, be encouraging. If they're in entertainment, maybe joke about it. Keep it short and natural.",
    );
    string_of(&v)
}

/// The system message of a remark request.
pub fn remark_system_prompt(persona_name: &str) -> (r: String)
    ensures
        r@ == "You are "@ + persona_name@ + ", a friendly desktop AI companion."@,
{
    let mut v: Vec<char> = Vec::new();
    push_str(&mut v, "You are ");
    push_str(&mut v, persona_name);
    push_str(&mut v, ", a friendly desktop AI companion.");
    string_of(&v)
}

/// Why the companion speaks after a remark about a window.
pub fn remark_reason(current_window: &str) -> (r: String)
    ensures
        r@ == "Window context: "@ + current_window@,
{
    let mut v: Vec<char> = Vec::new();
    push_str(&mut v, "Window context: ");
    push_str(&mut v, current_window);
    string_of(&v)
}

} // verus!
