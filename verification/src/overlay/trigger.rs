//! Which expression an event calls for.
use vstd::prelude::*;
use crate::overlay::expressions::{
    is_preset, kind_for_mood, kind_for_mood_spec, same_expression, Expression, ExpressionKind,
};
use crate::types::Mood;

verus! {

/// What an event tells the face: the facts of the events it reacts to.
#[derive(Debug, Clone, Copy, PartialEq, Eq)]
pub enum FaceSignal {
    /// The mood changed to the given one.
    MoodChanged(Mood),
    AgentCompleted,
    AgentFailed,
    AgentError,
    /// The user has been idle for the given number of whole seconds.
    UserIdle { idle_secs: u64 },
    UserReturned,
    /// Vitals arrived, with the battery charge when known.
    SystemVitals { battery_percent: Option<u8> },
    NotificationReceived,
    /// The user spoke; `is_final` when the transcript is final.
    VoiceUserSpeaking { is_final: bool },
    VoiceWakeySpeaking,
    SkillExtracted,
    /// Any other event.
    Other,
}

/// Whether an event triggers an expression change at all.
pub open spec fn is_trigger_spec(s: FaceSignal) -> bool {
    !(s is Other)
}

/// Whether an event triggers an expression change at all.
pub fn event_is_trigger(signal: FaceSignal) -> (r: bool)
    ensures
        r == is_trigger_spec(signal),
{
    match signal {
        FaceSignal::Other => false,
        _ => true,
    }
}

/// The expression an event calls for, if any.
pub open spec fn map_signal_spec(s: FaceSignal) -> Option<ExpressionKind> {
    match s {
        FaceSignal::MoodChanged(m) => Some(kind_for_mood_spec(m)),
        FaceSignal::AgentCompleted => Some(ExpressionKind::Celebrate),
        FaceSignal::AgentFailed => Some(ExpressionKind::Worried),
        FaceSignal::AgentError => Some(ExpressionKind::Angry),
        FaceSignal::UserIdle { idle_secs } => if idle_secs > 300 {
            Some(ExpressionKind::Sleepy)
        } else if idle_secs > 60 {
            Some(ExpressionKind::Thinking)
        } else {
            None
        },
        FaceSignal::UserReturned => Some(ExpressionKind::Happy),
        FaceSignal::SystemVitals { battery_percent } => match battery_percent {
            Some(b) => if b < 10 {
                Some(ExpressionKind::Worried)
            } else if b == 100 {
                Some(ExpressionKind::Happy)
            } else {
                None
            },
            None => None,
        },
        FaceSignal::NotificationReceived => Some(ExpressionKind::Surprised),
        FaceSignal::VoiceUserSpeaking { is_final } => if is_final {
            Some(ExpressionKind::Thinking)
        } else {
            None
        },
        FaceSignal::VoiceWakeySpeaking => Some(ExpressionKind::Happy),
        FaceSignal::SkillExtracted => Some(ExpressionKind::Idea),
        FaceSignal::Other => None,
    }
}

/// Map an event to the expression it calls for.
pub fn map_signal(signal: FaceSignal) -> (r: Option<ExpressionKind>)
    ensures
        r == map_signal_spec(signal),
{
    match signal {
        FaceSignal::MoodChanged(m) => Some(kind_for_mood(m)),
        FaceSignal::AgentCompleted => Some(ExpressionKind::Celebrate),
        FaceSignal::AgentFailed => Some(ExpressionKind::Worried),
        FaceSignal::AgentError => Some(ExpressionKind::Angry),
        FaceSignal::UserIdle { idle_secs } => {
            if idle_secs > 300 {
                Some(ExpressionKind::Sleepy)
            } else if idle_secs > 60 {
                Some(ExpressionKind::Thinking)
            } else {
                None
            }
        },
        FaceSignal::UserReturned => Some(ExpressionKind::Happy),
        FaceSignal::SystemVitals { battery_percent } => match battery_percent {
            Some(b) => {
                if b < 10 {
                    Some(ExpressionKind::Worried)
                } else if b == 100 {
                    Some(ExpressionKind::Happy)
                } else {
                    None
                }
            },
            None => None,
        },
        FaceSignal::NotificationReceived => Some(ExpressionKind::Surprised),
        FaceSignal::VoiceUserSpeaking { is_final } => {
            if is_final {
                Some(ExpressionKind::Thinking)
            } else {
                None
            }
        },
        FaceSignal::VoiceWakeySpeaking => Some(ExpressionKind::Happy),
        FaceSignal::SkillExtracted => Some(ExpressionKind::Idea),
        FaceSignal::Other => None,
    }
}

/// What asks for an expression change.
#[derive(Debug, Clone)]
pub enum ExpressionTrigger {
    /// Triggered by a mood change
    Mood(Mood),
    /// Triggered by an event
    Event(FaceSignal),
    /// Custom trigger by name
    Custom(String),
}

/// The trigger an event gives, if any: a mood change gives a mood trigger;
/// the events the face reacts to give an event trigger.
pub open spec fn trigger_of(s: FaceSignal) -> Option<ExpressionTrigger> {
    match s {
        FaceSignal::MoodChanged(m) => Some(ExpressionTrigger::Mood(m)),
        FaceSignal::Other => None,
        _ => Some(ExpressionTrigger::Event(s)),
    }
}

/// Convert an event to an expression trigger.
pub fn event_to_trigger(signal: FaceSignal) -> (r: Option<ExpressionTrigger>)
    ensures
        r == trigger_of(signal),
{
    match signal {
        FaceSignal::MoodChanged(m) => Some(ExpressionTrigger::Mood(m)),
        FaceSignal::Other => None,
        _ => Some(ExpressionTrigger::Event(signal)),
    }
}

/// The expression of the last entry registered under a name.
pub open spec fn find_last(s: Seq<(String, Expression)>, name: Seq<char>) -> Option<Expression>
    decreases s.len(),
{
    if s.len() == 0 {
        None
    } else if s.last().0@ == name {
        Some(s.last().1)
    } else {
        find_last(s.drop_last(), name)
    }
}

/// No name is registered twice.
pub open spec fn distinct_names(s: Seq<(String, Expression)>) -> bool {
    forall|i: int, j: int| 0 <= i < j < s.len() ==> #[trigger] s[i].0@ != #[trigger] s[j].0@
}

proof fn lemma_find_last_update(
    s: Seq<(String, Expression)>,
    i: int,
    entry: (String, Expression),
    name: Seq<char>,
)
    requires
        distinct_names(s),
        0 <= i < s.len(),
        s[i].0@ == entry.0@,
    ensures
        find_last(s.update(i, entry), name) == (if name == entry.0@ {
            Some(entry.1)
        } else {
            find_last(s, name)
        }),
    decreases s.len(),
{
    let u = s.update(i, entry);
    if i == s.len() - 1 {
        assert(u.drop_last() =~= s.drop_last());
    } else {
        assert(u.drop_last() =~= s.drop_last().update(i, entry));
        assert(u.last() == s.last());
        if s.last().0@ == name {
            assert(s[i].0@ != s[s.len() - 1].0@);
        } else {
            lemma_find_last_update(s.drop_last(), i, entry, name);
        }
    }
}

/// Maps triggers to expressions; custom triggers are registered by name,
/// and a name registered again replaces what it mapped to.
pub struct ExpressionMapper {
    custom_mappings: Vec<(String, Expression)>,
}

/// The expression a trigger maps to, given the custom registrations.
pub open spec fn maps_to(
    custom: Seq<(String, Expression)>,
    t: ExpressionTrigger,
    r: Option<Expression>,
) -> bool {
    match t {
        ExpressionTrigger::Mood(m) => r matches Some(e) && is_preset(e, kind_for_mood_spec(m)),
        ExpressionTrigger::Event(s) => match map_signal_spec(s) {
            Some(k) => r matches Some(e) && is_preset(e, k),
            None => r is None,
        },
        ExpressionTrigger::Custom(n) => match find_last(custom, n@) {
            Some(x) => r matches Some(e) && same_expression(e, x),
            None => r is None,
        },
    }
}

impl ExpressionMapper {
    /// The registered custom triggers.
    pub closed spec fn registrations(&self) -> Seq<(String, Expression)> {
        self.custom_mappings@
    }

    /// The expression registered under a name.
    pub open spec fn custom(&self, name: Seq<char>) -> Option<Expression> {
        find_last(self.registrations(), name)
    }

    /// No name is registered twice.
    pub open spec fn well_formed(&self) -> bool {
        distinct_names(self.registrations())
    }

    /// A mapper with no custom trigger.
    pub fn new() -> (r: Self)
        ensures
            r.well_formed(),
            forall|n: Seq<char>| #[trigger] r.custom(n) is None,
    {
        ExpressionMapper { custom_mappings: Vec::new() }
    }

    /// Where a name is registered, if it is.
    fn position(&self, name: &String) -> (r: Option<usize>)
        ensures
            match r {
                Some(i) => i < self.registrations().len() && self.registrations()[i as int].0@ == name@,
                None => forall|j: int|
                    0 <= j < self.registrations().len() ==> #[trigger] self.registrations()[j].0@ != name@,
            },
    {
        let mut i: usize = 0;
        while i < self.custom_mappings.len()
            invariant
                i <= self.custom_mappings@.len(),
                forall|j: int| 0 <= j < i ==> #[trigger] self.custom_mappings@[j].0@ != name@,
            decreases self.custom_mappings@.len() - i,
        {
            if self.custom_mappings[i].0 == *name {
                return Some(i);
            }
            i = i + 1;
        }
        None
    }

    /// Register a custom trigger mapping.
    pub fn register_custom(&mut self, name: String, expression: Expression)
        requires
            old(self).well_formed(),
        ensures
            final(self).well_formed(),
            forall|n: Seq<char>|
                #[trigger] final(self).custom(n) == (if n == name@ {
                    Some(expression)
                } else {
                    old(self).custom(n)
                }),
    {
        let ghost s = self.custom_mappings@;
        let ghost key = name@;
        let at = self.position(&name);
        let entry = (name, expression);
        match at {
            Some(i) => {
                self.custom_mappings.set(i, entry);
                proof {
                    assert forall|n: Seq<char>| #[trigger] self.custom(n) == (if n == key {
                            Some(entry.1)
                        } else {
                            find_last(s, n)
                        }) by {
                        lemma_find_last_update(s, i as int, entry, n);
                    }
                    assert forall|a: int, b: int| 0 <= a < b < s.len() implies
                        #[trigger] s.update(i as int, entry)[a].0@ != #[trigger] s.update(i as int, entry)[b].0@ by {
                        assert(s[a].0@ != s[b].0@);
                    }
                }
            },
            None => {
                self.custom_mappings.push(entry);
                proof {
                    assert forall|n: Seq<char>| #[trigger] self.custom(n) == (if n == key {
                        Some(entry.1)
                    } else {
                        find_last(s, n)
                    }) by {
                        assert(s.push(entry).drop_last() =~= s);
                    }
                }
            },
        }
    }

    /// The expression registered under a name, copied.
    fn lookup(&self, name: &String) -> (r: Option<Expression>)
        ensures
            match find_last(self.registrations(), name@) {
                Some(x) => r matches Some(e) && same_expression(e, x),
                None => r is None,
            },
    {
        let ghost s = self.custom_mappings@;
        let mut i: usize = self.custom_mappings.len();
        assert(s.subrange(0, i as int) =~= s);
        while i > 0
            invariant
                self.custom_mappings@ == s,
                i <= s.len(),
                find_last(s, name@) == find_last(s.subrange(0, i as int), name@),
            decreases i,
        {
            assert(s.subrange(0, i as int).drop_last() =~= s.subrange(0, i - 1));
            if self.custom_mappings[i - 1].0 == *name {
                assert(s.subrange(0, i as int).last() == s[i - 1]);
                return Some(self.custom_mappings[i - 1].1.duplicate());
            }
            i = i - 1;
        }
        assert(s.subrange(0, 0) =~= Seq::<(String, Expression)>::empty());
        None
    }

    /// Map a trigger to an expression.
    pub fn map(&self, trigger: &ExpressionTrigger) -> (r: Option<Expression>)
        ensures
            maps_to(self.registrations(), *trigger, r),
    {
        match trigger {
            ExpressionTrigger::Mood(mood) => Some(Expression::from_mood(*mood)),
            ExpressionTrigger::Event(signal) => match map_signal(*signal) {
                Some(k) => Some(Expression::preset(k)),
                None => None,
            },
            ExpressionTrigger::Custom(name) => self.lookup(name),
        }
    }

    /// The expression shown when nothing else is.
    pub fn default_expression(&self) -> (r: Expression)
        ensures
            is_preset(r, ExpressionKind::Neutral),
    {
        Expression::neutral()
    }
}

/// Law: a custom trigger maps to what was last registered under its name,
/// and a name never registered maps to nothing.
pub proof fn law_custom_trigger_maps_back(
    regs: Seq<(String, Expression)>,
    name: String,
    r: Option<Expression>,
)
    requires
        maps_to(regs, ExpressionTrigger::Custom(name), r),
    ensures
        find_last(regs, name@) matches Some(e) ==> (r matches Some(x) && same_expression(x, e)),
        find_last(regs, name@) is None ==> r is None,
{
}

/// Law: an event that is no trigger calls for no expression.
pub proof fn law_non_trigger_maps_to_nothing(s: FaceSignal)
    requires
        !is_trigger_spec(s),
    ensures
        map_signal_spec(s) is None,
{
}

} // verus!
