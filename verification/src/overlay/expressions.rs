//! Facial features, expression kinds and the mood a reply carries.
use vstd::prelude::*;
use crate::text::{
    chars_of, contains, contains_exec, has_prefix, join, join_exec, lines, lines_exec, lowercase,
    lowercase_exec, starts_with, string_of, trim, trim_exec, views,
};
use crate::types::Mood;

verus! {

/// Eye shape variants (Tabbie-style simple geometry)
#[derive(Debug, Clone, Copy, PartialEq, Eq)]
pub enum EyeShape {
    /// Default rectangular eyes
    Rectangle,
    /// Circular eyes
    Circle,
    /// Upward curve (happy/closed)
    CurveUp,
    /// Downward curve (sad/droopy)
    CurveDown,
    /// Small dot eyes
    Dot,
    /// Large wide eyes
    Wide,
    /// One eye open, one closed
    Wink,
}

/// Mouth shape variants
#[derive(Debug, Clone, Copy, PartialEq, Eq)]
pub enum MouthShape {
    /// No mouth (neutral)
    Blank,
    /// Upward smile
    Smile,
    /// Flat line (serious)
    Flat,
    /// Open circle (surprised)
    Open,
    /// Wavy line (stressed)
    Wavy,
    /// Smile with tongue out
    Tongue,
}

/// Eyebrow shape variants
#[derive(Debug, Clone, Copy, PartialEq, Eq)]
pub enum EyebrowShape {
    /// No eyebrows
    Blank,
    /// Angled inward (angry)
    Angry,
    /// Angled outward (worried)
    Worried,
}

/// Accessory items (props around the face)
#[derive(Debug, Clone, Copy, PartialEq, Eq)]
pub enum Accessory {
    /// Lightbulb (idea moment)
    Lightbulb,
    /// Hand pointing left
    PointingLeft,
    /// Hand pointing right
    PointingRight,
    /// Hand on chin (thinking)
    ThinkingHand,
    /// Coffee cup
    CoffeeCup,
    /// Zzz (sleepy)
    Zzz,
    /// Heart (love/appreciation)
    Heart,
    /// Sparkles (celebration)
    Sparkle,
}

/// Animation priority for interruption logic, lowest first.
#[derive(Debug, Clone, Copy, PartialEq, Eq, PartialOrd, Ord, Default)]
pub enum Priority {
    #[default]
    Low,
    Normal,
    High,
    Critical,
}

/// The rank of a priority, lowest first.
pub open spec fn priority_rank(p: Priority) -> int {
    match p {
        Priority::Low => 0,
        Priority::Normal => 1,
        Priority::High => 2,
        Priority::Critical => 3,
    }
}

/// Whether priority `a` is above priority `b`.
pub fn priority_above(a: Priority, b: Priority) -> (r: bool)
    ensures
        r == (priority_rank(a) > priority_rank(b)),
{
    let ra: u8 = match a {
        Priority::Low => 0,
        Priority::Normal => 1,
        Priority::High => 2,
        Priority::Critical => 3,
    };
    let rb: u8 = match b {
        Priority::Low => 0,
        Priority::Normal => 1,
        Priority::High => 2,
        Priority::Critical => 3,
    };
    ra > rb
}

/// The preset expressions of the companion's face.
#[derive(Debug, Clone, Copy, PartialEq, Eq)]
pub enum ExpressionKind {
    Neutral,
    Happy,
    Celebrate,
    Idea,
    Angry,
    Worried,
    Meeting,
    Sleepy,
    Focused,
    Love,
    Surprised,
    Thinking,
}

/// The preset shown for a mood.
pub open spec fn kind_for_mood_spec(m: Mood) -> ExpressionKind {
    match m {
        Mood::Neutral => ExpressionKind::Neutral,
        Mood::Happy => ExpressionKind::Happy,
        Mood::Empathetic => ExpressionKind::Love,
        Mood::Focused => ExpressionKind::Focused,
        Mood::Playful => ExpressionKind::Celebrate,
        Mood::Concerned => ExpressionKind::Worried,
        Mood::Sleepy => ExpressionKind::Sleepy,
    }
}

/// The preset shown for a mood.
pub fn kind_for_mood(mood: Mood) -> (r: ExpressionKind)
    ensures
        r == kind_for_mood_spec(mood),
{
    match mood {
        Mood::Neutral => ExpressionKind::Neutral,
        Mood::Happy => ExpressionKind::Happy,
        Mood::Empathetic => ExpressionKind::Love,
        Mood::Focused => ExpressionKind::Focused,
        Mood::Playful => ExpressionKind::Celebrate,
        Mood::Concerned => ExpressionKind::Worried,
        Mood::Sleepy => ExpressionKind::Sleepy,
    }
}

/// A complete facial expression: the face it shows and how it is scheduled.
/// Its glow colour belongs to drawing and is kept with the renderer.
#[derive(Debug, Clone)]
pub struct Expression {
    /// Expression name (for config files)
    pub name: String,
    /// Eye shape
    pub eyes: EyeShape,
    /// Mouth shape
    pub mouth: MouthShape,
    /// Eyebrow shape
    pub eyebrows: EyebrowShape,
    /// Accessories (up to 3 recommended)
    pub accessories: Vec<Accessory>,
    /// How long to show this expression (0 = indefinite)
    pub duration_ms: u64,
    /// Whether to loop the animation
    pub loops: bool,
    /// Priority level for interruption
    pub priority: Priority,
    /// Transition duration from the previous expression
    pub transition_ms: u64,
}

/// The name of a preset.
pub open spec fn preset_name(k: ExpressionKind) -> Seq<char> {
    match k {
        ExpressionKind::Neutral => "neutral"@,
        ExpressionKind::Happy => "happy"@,
        ExpressionKind::Celebrate => "celebrate"@,
        ExpressionKind::Idea => "idea"@,
        ExpressionKind::Angry => "angry"@,
        ExpressionKind::Worried => "worried"@,
        ExpressionKind::Meeting => "meeting"@,
        ExpressionKind::Sleepy => "sleepy"@,
        ExpressionKind::Focused => "focused"@,
        ExpressionKind::Love => "love"@,
        ExpressionKind::Surprised => "surprised"@,
        ExpressionKind::Thinking => "thinking"@,
    }
}

/// The eyes, mouth and eyebrows of a preset.
pub open spec fn preset_face(k: ExpressionKind) -> (EyeShape, MouthShape, EyebrowShape) {
    match k {
        ExpressionKind::Neutral => (EyeShape::Rectangle, MouthShape::Blank, EyebrowShape::Blank),
        ExpressionKind::Happy => (EyeShape::Rectangle, MouthShape::Smile, EyebrowShape::Blank),
        ExpressionKind::Celebrate => (EyeShape::CurveUp, MouthShape::Tongue, EyebrowShape::Blank),
        ExpressionKind::Idea => (EyeShape::Wide, MouthShape::Smile, EyebrowShape::Blank),
        ExpressionKind::Angry => (EyeShape::Rectangle, MouthShape::Wavy, EyebrowShape::Angry),
        ExpressionKind::Worried => (EyeShape::Circle, MouthShape::Wavy, EyebrowShape::Worried),
        ExpressionKind::Meeting => (EyeShape::Wink, MouthShape::Flat, EyebrowShape::Blank),
        ExpressionKind::Sleepy => (EyeShape::CurveDown, MouthShape::Blank, EyebrowShape::Blank),
        ExpressionKind::Focused => (EyeShape::Dot, MouthShape::Flat, EyebrowShape::Blank),
        ExpressionKind::Love => (EyeShape::CurveUp, MouthShape::Smile, EyebrowShape::Blank),
        ExpressionKind::Surprised => (EyeShape::Wide, MouthShape::Open, EyebrowShape::Worried),
        ExpressionKind::Thinking => (EyeShape::Dot, MouthShape::Flat, EyebrowShape::Blank),
    }
}

/// The accessories of a preset.
pub open spec fn preset_accessories(k: ExpressionKind) -> Seq<Accessory> {
    match k {
        ExpressionKind::Celebrate => seq![Accessory::Sparkle],
        ExpressionKind::Idea => seq![Accessory::Lightbulb, Accessory::PointingRight],
        ExpressionKind::Meeting => seq![Accessory::PointingRight],
        ExpressionKind::Sleepy => seq![Accessory::Zzz],
        ExpressionKind::Love => seq![Accessory::Heart],
        ExpressionKind::Thinking => seq![Accessory::ThinkingHand],
        _ => Seq::empty(),
    }
}

/// The timing of a preset: how long it shows (0 = indefinitely), its
/// priority and its transition time.
pub open spec fn preset_timing(k: ExpressionKind) -> (u64, Priority, u64) {
    match k {
        ExpressionKind::Neutral => (0, Priority::Low, 150),
        ExpressionKind::Happy => (2000, Priority::Normal, 150),
        ExpressionKind::Celebrate => (3000, Priority::High, 100),
        ExpressionKind::Idea => (2500, Priority::High, 120),
        ExpressionKind::Angry => (2000, Priority::High, 80),
        ExpressionKind::Worried => (2000, Priority::Normal, 100),
        ExpressionKind::Meeting => (0, Priority::Normal, 150),
        ExpressionKind::Sleepy => (0, Priority::Low, 200),
        ExpressionKind::Focused => (0, Priority::Low, 200),
        ExpressionKind::Love => (2000, Priority::Normal, 150),
        ExpressionKind::Surprised => (1500, Priority::High, 80),
        ExpressionKind::Thinking => (0, Priority::Low, 150),
    }
}

/// Whether an expression is the given preset, field by field.
pub open spec fn is_preset(e: Expression, k: ExpressionKind) -> bool {
    &&& e.name@ == preset_name(k)
    &&& (e.eyes, e.mouth, e.eyebrows) == preset_face(k)
    &&& e.accessories@ =~= preset_accessories(k)
    &&& (e.duration_ms, e.priority, e.transition_ms) == preset_timing(k)
    &&& !e.loops
}

/// Whether two expressions are alike in every field.
pub open spec fn same_expression(a: Expression, b: Expression) -> bool {
    &&& a.name@ == b.name@
    &&& a.eyes == b.eyes
    &&& a.mouth == b.mouth
    &&& a.eyebrows == b.eyebrows
    &&& a.accessories@ == b.accessories@
    &&& a.duration_ms == b.duration_ms
    &&& a.loops == b.loops
    &&& a.priority == b.priority
    &&& a.transition_ms == b.transition_ms
}

fn copy_accessories(v: &Vec<Accessory>) -> (r: Vec<Accessory>)
    ensures
        r@ == v@,
{
    let mut r: Vec<Accessory> = Vec::new();
    let mut i: usize = 0;
    while i < v.len()
        invariant
            i <= v.len(),
            r@ == v@.subrange(0, i as int),
        decreases v.len() - i,
    {
        r.push(v[i]);
        i = i + 1;
    }
    assert(r@ =~= v@);
    r
}

impl Expression {
    fn make(
        name: &str,
        face: (EyeShape, MouthShape, EyebrowShape),
        accessories: Vec<Accessory>,
        timing: (u64, Priority, u64),
    ) -> (r: Expression)
        ensures
            r.name@ == name@,
            (r.eyes, r.mouth, r.eyebrows) == face,
            r.accessories@ == accessories@,
            (r.duration_ms, r.priority, r.transition_ms) == timing,
            !r.loops,
    {
        Expression {
            name: String::from_str(name),
            eyes: face.0,
            mouth: face.1,
            eyebrows: face.2,
            accessories,
            duration_ms: timing.0,
            loops: false,
            priority: timing.1,
            transition_ms: timing.2,
        }
    }

    /// The preset expression of a kind.
    pub fn preset(kind: ExpressionKind) -> (r: Expression)
        ensures
            is_preset(r, kind),
    {
        match kind {
            ExpressionKind::Neutral => Self::make(
                "neutral",
                (EyeShape::Rectangle, MouthShape::Blank, EyebrowShape::Blank),
                Vec::new(),
                (0, Priority::Low, 150),
            ),
            ExpressionKind::Happy => Self::make(
                "happy",
                (EyeShape::Rectangle, MouthShape::Smile, EyebrowShape::Blank),
                Vec::new(),
                (2000, Priority::Normal, 150),
            ),
            ExpressionKind::Celebrate => Self::make(
                "celebrate",
                (EyeShape::CurveUp, MouthShape::Tongue, EyebrowShape::Blank),
                vec![Accessory::Sparkle],
                (3000, Priority::High, 100),
            ),
            ExpressionKind::Idea => Self::make(
                "idea",
                (EyeShape::Wide, MouthShape::Smile, EyebrowShape::Blank),
                vec![Accessory::Lightbulb, Accessory::PointingRight],
                (2500, Priority::High, 120),
            ),
            ExpressionKind::Angry => Self::make(
                "angry",
                (EyeShape::Rectangle, MouthShape::Wavy, EyebrowShape::Angry),
                Vec::new(),
                (2000, Priority::High, 80),
            ),
            ExpressionKind::Worried => Self::make(
                "worried",
                (EyeShape::Circle, MouthShape::Wavy, EyebrowShape::Worried),
                Vec::new(),
                (2000, Priority::Normal, 100),
            ),
            ExpressionKind::Meeting => Self::make(
                "meeting",
                (EyeShape::Wink, MouthShape::Flat, EyebrowShape::Blank),
                vec![Accessory::PointingRight],
                (0, Priority::Normal, 150),
            ),
            ExpressionKind::Sleepy => Self::make(
                "sleepy",
                (EyeShape::CurveDown, MouthShape::Blank, EyebrowShape::Blank),
                vec![Accessory::Zzz],
                (0, Priority::Low, 200),
            ),
            ExpressionKind::Focused => Self::make(
                "focused",
                (EyeShape::Dot, MouthShape::Flat, EyebrowShape::Blank),
                Vec::new(),
                (0, Priority::Low, 200),
            ),
            ExpressionKind::Love => Self::make(
                "love",
                (EyeShape::CurveUp, MouthShape::Smile, EyebrowShape::Blank),
                vec![Accessory::Heart],
                (2000, Priority::Normal, 150),
            ),
            ExpressionKind::Surprised => Self::make(
                "surprised",
                (EyeShape::Wide, MouthShape::Open, EyebrowShape::Worried),
                Vec::new(),
                (1500, Priority::High, 80),
            ),
            ExpressionKind::Thinking => Self::make(
                "thinking",
                (EyeShape::Dot, MouthShape::Flat, EyebrowShape::Blank),
                vec![Accessory::ThinkingHand],
                (0, Priority::Low, 150),
            ),
        }
    }

    /// Neutral/default expression
    pub fn neutral() -> (r: Self)
        ensures
            is_preset(r, ExpressionKind::Neutral),
    {
        Self::preset(ExpressionKind::Neutral)
    }

    /// Happy expression
    pub fn happy() -> (r: Self)
        ensures
            is_preset(r, ExpressionKind::Happy),
    {
        Self::preset(ExpressionKind::Happy)
    }

    /// Celebration expression (task completed)
    pub fn celebrate() -> (r: Self)
        ensures
            is_preset(r, ExpressionKind::Celebrate),
    {
        Self::preset(ExpressionKind::Celebrate)
    }

    /// Idea moment (lightbulb)
    pub fn idea() -> (r: Self)
        ensures
            is_preset(r, ExpressionKind::Idea),
    {
        Self::preset(ExpressionKind::Idea)
    }

    /// Angry/frustrated expression
    pub fn angry() -> (r: Self)
        ensures
            is_preset(r, ExpressionKind::Angry),
    {
        Self::preset(ExpressionKind::Angry)
    }

    /// Worried/concerned expression
    pub fn worried() -> (r: Self)
        ensures
            is_preset(r, ExpressionKind::Worried),
    {
        Self::preset(ExpressionKind::Worried)
    }

    /// Meeting mode (do not disturb)
    pub fn meeting() -> (r: Self)
        ensures
            is_preset(r, ExpressionKind::Meeting),
    {
        Self::preset(ExpressionKind::Meeting)
    }

    /// Sleepy expression (long idle)
    pub fn sleepy() -> (r: Self)
        ensures
            is_preset(r, ExpressionKind::Sleepy),
    {
        Self::preset(ExpressionKind::Sleepy)
    }

    /// Focused/deep work expression
    pub fn focused() -> (r: Self)
        ensures
            is_preset(r, ExpressionKind::Focused),
    {
        Self::preset(ExpressionKind::Focused)
    }

    /// Love/appreciation expression
    pub fn love() -> (r: Self)
        ensures
            is_preset(r, ExpressionKind::Love),
    {
        Self::preset(ExpressionKind::Love)
    }

    /// Surprised/shocked expression
    pub fn surprised() -> (r: Self)
        ensures
            is_preset(r, ExpressionKind::Surprised),
    {
        Self::preset(ExpressionKind::Surprised)
    }

    /// Thinking/contemplating expression
    pub fn thinking() -> (r: Self)
        ensures
            is_preset(r, ExpressionKind::Thinking),
    {
        Self::preset(ExpressionKind::Thinking)
    }

    /// The expression of a mood.
    pub fn from_mood(mood: Mood) -> (r: Self)
        ensures
            is_preset(r, kind_for_mood_spec(mood)),
    {
        Self::preset(kind_for_mood(mood))
    }

    /// A copy alike in every field.
    pub fn duplicate(&self) -> (r: Self)
        ensures
            same_expression(r, *self),
    {
        Expression {
            name: self.name.clone(),
            eyes: self.eyes,
            mouth: self.mouth,
            eyebrows: self.eyebrows,
            accessories: copy_accessories(&self.accessories),
            duration_ms: self.duration_ms,
            loops: self.loops,
            priority: self.priority,
            transition_ms: self.transition_ms,
        }
    }
}

impl Default for Expression {
    fn default() -> (r: Self)
        ensures
            is_preset(r, ExpressionKind::Neutral),
    {
        Self::neutral()
    }
}

/// The tag that marks a reply's mood.
pub open spec fn mood_prefix() -> Seq<char> {
    "MOOD:"@
}

/// The line, among the last three, that carries a mood tag: the last such line.
pub open spec fn mood_line(ls: Seq<Seq<char>>) -> Option<int> {
    let n = ls.len() as int;
    if n >= 1 && has_prefix(trim(ls[n - 1]), mood_prefix()) {
        Some(n - 1)
    } else if n >= 2 && has_prefix(trim(ls[n - 2]), mood_prefix()) {
        Some(n - 2)
    } else if n >= 3 && has_prefix(trim(ls[n - 3]), mood_prefix()) {
        Some(n - 3)
    } else {
        None
    }
}

/// The reply without its mood line, and the mood in lower case; the reply
/// unchanged and no mood when none of its last three lines is tagged.
pub open spec fn parse_mood_spec(text: Seq<char>) -> (Seq<char>, Option<Seq<char>>) {
    let ls = lines(text);
    match mood_line(ls) {
        Some(i) => (
            trim(join(ls.remove(i), "\n"@)),
            Some(lowercase(trim(trim(ls[i]).skip(mood_prefix().len() as int)))),
        ),
        None => (text, None),
    }
}

/// Parse MOOD: tag from LLM response. Returns (clean_text, mood_string).
pub fn parse_mood_tag(text: &str) -> (r: (String, Option<String>))
    ensures
        r.0@ == parse_mood_spec(text@).0,
        r.1 matches Some(m) ==> parse_mood_spec(text@).1 == Some(m@),
        r.1 is None ==> parse_mood_spec(text@).1 is None,
{
    let t = chars_of(text);
    let mut ls = lines_exec(&t);
    let ghost lv = views(ls@);
    let pre = chars_of("MOOD:");
    proof {
        reveal_strlit("MOOD:");
    }
    let n = ls.len();
    let mut k: usize = 0;
    while k < 3 && k < n
        invariant
            n == ls@.len(),
            views(ls@) == lv,
            lv == lines(text@),
            pre@ == mood_prefix(),
            mood_prefix().len() == 5,
            k <= 3,
            forall|i: int| n - k <= i < n && 0 <= i ==> !has_prefix(#[trigger] trim(lv[i]), mood_prefix()),
        decreases 3 - k,
    {
        let i = n - 1 - k;
        let line = trim_exec(&ls[i]);
        assert(line@ == trim(lv[i as int]));
        if starts_with(&line, &pre) {
            let rest = crate::text::slice_chars(&line, 5, line.len());
            let mood_t = trim_exec(&rest);
            let mood = lowercase_exec(&mood_t);
            ls.remove(i);
            assert(views(ls@) =~= lv.remove(i as int));
            let nl = vec!['\n'];
            proof {
                reveal_strlit("\n");
                assert(nl@ =~= "\n"@);
            }
            let joined = join_exec(&ls, &nl);
            let clean = trim_exec(&joined);
            proof {
                assert(rest@ =~= trim(lv[i as int]).skip(5));
                assert(mood_line(lv) == Some(i as int));
            }
            return (string_of(&clean), Some(string_of(&mood)));
        }
        k = k + 1;
    }
    assert(mood_line(lv) is None);
    (String::from_str(text), None)
}

/// The mood that keywords of a reply already in lower case suggest, tested
/// in order.
pub open spec fn keyword_mood_lowered_spec(l: Seq<char>) -> Option<Seq<char>> {
    if contains(l, "error"@) || contains(l, "failed"@) || contains(l, "wrong"@) {
        Some("concerned"@)
    } else if contains(l, "great"@) || contains(l, "awesome"@) || contains(l, "nice work"@) {
        Some("happy"@)
    } else if contains(l, "wow"@) || contains(l, "amazing"@) {
        Some("excited"@)
    } else if contains(l, "hmm"@) || contains(l, "let me think"@) {
        Some("thinking"@)
    } else if contains(l, "sorry"@) || contains(l, "unfortunately"@) {
        Some("empathetic"@)
    } else {
        None
    }
}

/// A reply in lower case names none of the keywords of the moods tested
/// before the empathetic one.
pub open spec fn lacks_earlier_mood_keywords(l: Seq<char>) -> bool {
    !contains(l, "error"@) && !contains(l, "failed"@) && !contains(l, "wrong"@) && !contains(
        l,
        "great"@,
    ) && !contains(l, "awesome"@) && !contains(l, "nice work"@) && !contains(l, "wow"@)
        && !contains(l, "amazing"@) && !contains(l, "hmm"@) && !contains(l, "let me think"@)
}

/// Law: each keyword mood is chosen exactly when the reply names one of its
/// keywords and none of the moods tested before it: concerned (error,
/// failed, wrong), happy (great, awesome, nice work), excited (wow,
/// amazing), thinking (hmm, let me think).
pub proof fn law_keyword_moods(l: Seq<char>)
    ensures
        keyword_mood_lowered_spec(l) == Some("concerned"@) <==> (contains(l, "error"@) || contains(
            l,
            "failed"@,
        ) || contains(l, "wrong"@)),
        keyword_mood_lowered_spec(l) == Some("happy"@) <==> (!contains(l, "error"@) && !contains(
            l,
            "failed"@,
        ) && !contains(l, "wrong"@) && (contains(l, "great"@) || contains(l, "awesome"@)
            || contains(l, "nice work"@))),
        keyword_mood_lowered_spec(l) == Some("excited"@) <==> (!contains(l, "error"@) && !contains(
            l,
            "failed"@,
        ) && !contains(l, "wrong"@) && !contains(l, "great"@) && !contains(l, "awesome"@)
            && !contains(l, "nice work"@) && (contains(l, "wow"@) || contains(l, "amazing"@))),
        keyword_mood_lowered_spec(l) == Some("thinking"@) <==> (!contains(l, "error"@)
            && !contains(l, "failed"@) && !contains(l, "wrong"@) && !contains(l, "great"@)
            && !contains(l, "awesome"@) && !contains(l, "nice work"@) && !contains(l, "wow"@)
            && !contains(l, "amazing"@) && (contains(l, "hmm"@) || contains(l, "let me think"@))),
{
    law_apologies_are_empathetic(l);
    reveal_strlit("concerned");
    reveal_strlit("happy");
    reveal_strlit("excited");
    reveal_strlit("thinking");
    assert("concerned"@[0] == 'c');
    assert("happy"@[0] == 'h');
    assert("excited"@[0] == 'e' && "excited"@[1] == 'x');
    assert("thinking"@[0] == 't');
    reveal_strlit("empathetic");
    assert("empathetic"@[1] == 'm');
    let c = "concerned"@;
    assert(c != "happy"@ && c != "excited"@ && c != "thinking"@ && c != "empathetic"@);
    let h = "happy"@;
    assert(h != "excited"@ && h != "thinking"@ && h != "empathetic"@);
}

/// Law: a reply in lower case gets the empathetic mood exactly when it
/// apologises ("sorry" or "unfortunately") and names none of the keywords of
/// the moods tested before; and it gets no keyword mood at all exactly when
/// it names none of the keywords.
pub proof fn law_apologies_are_empathetic(l: Seq<char>)
    ensures
        keyword_mood_lowered_spec(l) == Some("empathetic"@) <==> (lacks_earlier_mood_keywords(l)
            && (contains(l, "sorry"@) || contains(l, "unfortunately"@))),
        keyword_mood_lowered_spec(l) is None <==> (lacks_earlier_mood_keywords(l) && !contains(
            l,
            "sorry"@,
        ) && !contains(l, "unfortunately"@)),
{
    reveal_strlit("empathetic");
    reveal_strlit("concerned");
    reveal_strlit("happy");
    reveal_strlit("excited");
    reveal_strlit("thinking");
    let e = "empathetic"@;
    assert(e[0] == 'e' && e[1] == 'm');
    assert(e != "concerned"@) by { assert("concerned"@[0] == 'c'); }
    assert(e != "happy"@) by { assert("happy"@[0] == 'h'); }
    assert(e != "excited"@) by { assert("excited"@[1] == 'x'); }
    assert(e != "thinking"@) by { assert("thinking"@[0] == 't'); }
}

/// The mood that keywords of a reply suggest, tested in order on its lower-case form.
pub open spec fn keyword_mood_spec(text: Seq<char>) -> Option<Seq<char>> {
    keyword_mood_lowered_spec(lowercase(text))
}

fn has(l: &Vec<char>, word: &str) -> (r: bool)
    ensures
        r == contains(l@, word@),
{
    let w = chars_of(word);
    contains_exec(l, &w)
}

/// The mood that keywords of a reply already in lower case suggest.
pub fn mood_from_lowered(lowered: &str) -> (r: Option<String>)
    ensures
        r matches Some(m) ==> keyword_mood_lowered_spec(lowered@) == Some(m@),
        r is None ==> keyword_mood_lowered_spec(lowered@) is None,
{
    let l = chars_of(lowered);
    if has(&l, "error") || has(&l, "failed") || has(&l, "wrong") {
        Some(String::from_str("concerned"))
    } else if has(&l, "great") || has(&l, "awesome") || has(&l, "nice work") {
        Some(String::from_str("happy"))
    } else if has(&l, "wow") || has(&l, "amazing") {
        Some(String::from_str("excited"))
    } else if has(&l, "hmm") || has(&l, "let me think") {
        Some(String::from_str("thinking"))
    } else if has(&l, "sorry") || has(&l, "unfortunately") {
        Some(String::from_str("empathetic"))
    } else {
        None
    }
}

/// Detect mood from keywords when no MOOD: tag present.
pub fn detect_mood_from_keywords(text: &str) -> (r: Option<String>)
    ensures
        r matches Some(m) ==> keyword_mood_spec(text@) == Some(m@),
        r is None ==> keyword_mood_spec(text@) is None,
{
    let t = chars_of(text);
    let l = lowercase_exec(&t);
    mood_from_lowered(string_of(&l).as_str())
}

/// The mood of a reply: its tag, else its keywords, else neutral.
pub open spec fn extract_mood_spec(text: Seq<char>) -> (Seq<char>, Seq<char>) {
    let (clean, tag) = parse_mood_spec(text);
    match tag {
        Some(m) => (clean, m),
        None => match keyword_mood_spec(clean) {
            Some(m) => (clean, m),
            None => (clean, "neutral"@),
        },
    }
}

/// Law: a reply without a mood tag whose lower-case form apologises and
/// names none of the keywords tested before gets the empathetic mood.
pub proof fn law_untagged_apology_is_empathetic(text: Seq<char>)
    requires
        parse_mood_spec(text).1 is None,
        lacks_earlier_mood_keywords(lowercase(parse_mood_spec(text).0)),
        contains(lowercase(parse_mood_spec(text).0), "sorry"@) || contains(
            lowercase(parse_mood_spec(text).0),
            "unfortunately"@,
        ),
    ensures
        extract_mood_spec(text).1 == "empathetic"@,
{
    law_apologies_are_empathetic(lowercase(parse_mood_spec(text).0));
}

/// Get mood from text — tries MOOD: tag first, then keywords.
pub fn extract_mood(text: &str) -> (r: (String, String))
    ensures
        (r.0@, r.1@) == extract_mood_spec(text@),
{
    let (clean, tag_mood) = parse_mood_tag(text);
    if let Some(mood) = tag_mood {
        return (clean, mood);
    }
    if let Some(mood) = detect_mood_from_keywords(clean.as_str()) {
        return (clean, mood);
    }
    (clean, String::from_str("neutral"))
}

} // verus!
