//! Skill evolution: how a skill came to be, the ids of new versions, and the
//! frontmatter of skill content.
use vstd::prelude::*;
use crate::text::{
    before_first, before_first_exec, chars_of, find, find_exec, has_prefix, push_str,
    slice_chars, starts_with, str_eq, string_of, trim, trim_exec, lemma_find_from_bounds,
    append_chars,
};

verus! {

/// Evolution type — how a skill was created/modified
#[derive(Debug, Clone, Copy, PartialEq, Eq)]
pub enum EvolutionType {
    /// In-place repair of broken skill
    Fix,
    /// New skill enhanced from existing
    Derived,
    /// Brand new skill captured from execution pattern
    Captured,
}

/// How an evolution type reads.
pub open spec fn evolution_name(t: EvolutionType) -> Seq<char> {
    match t {
        EvolutionType::Fix => "fix"@,
        EvolutionType::Derived => "derived"@,
        EvolutionType::Captured => "captured"@,
    }
}

impl EvolutionType {
    /// How the evolution type reads.
    pub fn to_string(&self) -> (r: String)
        ensures
            r@ == evolution_name(*self),
    {
        match self {
            EvolutionType::Fix => String::from_str("fix"),
            EvolutionType::Derived => String::from_str("derived"),
            EvolutionType::Captured => String::from_str("captured"),
        }
    }
}

/// Skill origin — where the skill came from
#[derive(Debug, Clone, Copy, PartialEq, Eq)]
pub enum SkillOrigin {
    /// Initially imported (no parent)
    Imported,
    /// Captured from execution
    Captured,
    /// Derived from existing skill
    Derived,
    /// Fixed version of existing skill
    Fixed,
}

/// How an origin reads.
pub open spec fn origin_name(o: SkillOrigin) -> Seq<char> {
    match o {
        SkillOrigin::Imported => "imported"@,
        SkillOrigin::Captured => "captured"@,
        SkillOrigin::Derived => "derived"@,
        SkillOrigin::Fixed => "fixed"@,
    }
}

/// The origin a stored name stands for; an unknown name counts as imported.
pub open spec fn origin_of_name(s: Seq<char>) -> SkillOrigin {
    if s == "captured"@ {
        SkillOrigin::Captured
    } else if s == "derived"@ {
        SkillOrigin::Derived
    } else if s == "fixed"@ {
        SkillOrigin::Fixed
    } else {
        SkillOrigin::Imported
    }
}

impl SkillOrigin {
    /// How the origin reads.
    pub fn to_string(&self) -> (r: String)
        ensures
            r@ == origin_name(*self),
    {
        match self {
            SkillOrigin::Imported => String::from_str("imported"),
            SkillOrigin::Captured => String::from_str("captured"),
            SkillOrigin::Derived => String::from_str("derived"),
            SkillOrigin::Fixed => String::from_str("fixed"),
        }
    }

    /// The origin a stored name stands for.
    pub fn from_stored(s: &str) -> (r: Self)
        ensures
            r == origin_of_name(s@),
    {
        if str_eq(s, "captured") {
            SkillOrigin::Captured
        } else if str_eq(s, "derived") {
            SkillOrigin::Derived
        } else if str_eq(s, "fixed") {
            SkillOrigin::Fixed
        } else {
            SkillOrigin::Imported
        }
    }
}

/// Law: every origin reads back as itself.
pub proof fn law_origin_round_trip(o: SkillOrigin)
    ensures
        origin_of_name(origin_name(o)) == o,
{
    reveal_strlit("imported");
    reveal_strlit("captured");
    reveal_strlit("derived");
    reveal_strlit("fixed");
    assert("imported"@[0] != "captured"@[0]);
    assert("imported"@[0] != "derived"@[0]);
    assert("imported"@[0] != "fixed"@[0]);
    assert("derived"@[0] != "captured"@[0]);
    assert("fixed"@[0] != "captured"@[0]);
    assert("fixed"@[0] != "derived"@[0]);
}

/// The infix of a new version's id for each evolution.
pub open spec fn id_infix(t: EvolutionType) -> Seq<char> {
    match t {
        EvolutionType::Fix => "__fix_"@,
        EvolutionType::Derived => "__drv_"@,
        EvolutionType::Captured => "__cap_"@,
    }
}

/// The id of a new version: the skill's name, the evolution's infix and the
/// first group of a fresh UUID.
pub fn new_skill_id(name: &str, t: EvolutionType, uuid: &str) -> (r: String)
    ensures
        r@ == name@ + id_infix(t) + before_first(uuid@, "-"@),
{
    let mut v: Vec<char> = Vec::new();
    push_str(&mut v, name);
    match t {
        EvolutionType::Fix => push_str(&mut v, "__fix_"),
        EvolutionType::Derived => push_str(&mut v, "__drv_"),
        EvolutionType::Captured => push_str(&mut v, "__cap_"),
    }
    let u = chars_of(uuid);
    let d = chars_of("-");
    let head = before_first_exec(&u, &d);
    append_chars(&mut v, &head);
    string_of(&v)
}

/// The recorded change of a fix.
pub fn fix_diff(change_summary: &str) -> (r: String)
    ensures
        r@ == "FIX: "@ + change_summary@,
{
    let mut v: Vec<char> = Vec::new();
    push_str(&mut v, "FIX: ");
    push_str(&mut v, change_summary);
    string_of(&v)
}

/// Why an evolution cannot start: fixes and derivations need an existing skill.
pub open spec fn evolution_refusal(t: EvolutionType, has_skill: bool) -> Option<Seq<char>> {
    if has_skill {
        None
    } else {
        match t {
            EvolutionType::Fix => Some("FIX evolution requires skill_id"@),
            EvolutionType::Derived => Some("DERIVED evolution requires skill_id"@),
            EvolutionType::Captured => None,
        }
    }
}

/// Why an evolution cannot start, if it cannot.
pub fn check_evolution(t: EvolutionType, skill_id: Option<&str>) -> (r: Option<String>)
    ensures
        r matches Some(m) ==> evolution_refusal(t, skill_id is Some) == Some(m@),
        r is None ==> evolution_refusal(t, skill_id is Some) is None,
{
    if skill_id.is_some() {
        return None;
    }
    match t {
        EvolutionType::Fix => Some(String::from_str("FIX evolution requires skill_id")),
        EvolutionType::Derived => Some(String::from_str("DERIVED evolution requires skill_id")),
        EvolutionType::Captured => None,
    }
}

/// The YAML frontmatter of skill content: after trimming, the content must
/// open with `---`; the YAML runs from there to the next `---`.
pub open spec fn frontmatter_spec(content: Seq<char>) -> Result<Seq<char>, Seq<char>> {
    let c = trim(content);
    if !has_prefix(c, "---"@) {
        Err("Missing YAML frontmatter"@)
    } else {
        match find(c.skip(3), "---"@) {
            Some(end) => Ok(c.subrange(3, end + 3)),
            None => Err("Malformed YAML frontmatter"@),
        }
    }
}

/// Extract the YAML frontmatter of skill content.
pub fn content_frontmatter(content: &str) -> (r: Result<String, String>)
    ensures
        r matches Ok(y) ==> frontmatter_spec(content@) == Ok::<Seq<char>, Seq<char>>(y@),
        r matches Err(m) ==> frontmatter_spec(content@) == Err::<Seq<char>, Seq<char>>(m@),
{
    let raw = chars_of(content);
    let c = trim_exec(&raw);
    let dashes = chars_of("---");
    proof {
        reveal_strlit("---");
    }
    if !starts_with(&c, &dashes) {
        return Err(String::from_str("Missing YAML frontmatter"));
    }
    let rest = slice_chars(&c, 3, c.len());
    assert(rest@ =~= c@.skip(3));
    proof {
        lemma_find_from_bounds(rest@, dashes@, 0);
    }
    match find_exec(&rest, &dashes) {
        Some(end) => {
            let y = slice_chars(&c, 3, end + 3);
            Ok(string_of(&y))
        },
        None => Err(String::from_str("Malformed YAML frontmatter")),
    }
}

/// Skill lineage record; the creation time is in seconds since the epoch.
#[derive(Debug, Clone)]
pub struct SkillLineage {
    /// Unique skill ID
    pub skill_id: String,
    /// Skill name
    pub name: String,
    /// Origin type
    pub origin: SkillOrigin,
    /// Generation number (0 = original, 1 = first evolution, etc.)
    pub generation: u32,
    /// Parent skill IDs
    pub parent_ids: Vec<String>,
    /// Task that triggered this evolution
    pub source_task_id: Option<String>,
    /// Change summary
    pub change_summary: String,
    /// Content diff
    pub content_diff: String,
    /// Who created this (model name or "human")
    pub created_by: String,
    /// Creation time, in seconds since the epoch
    pub created_at: i64,
}

/// The origin a new version records for each evolution.
pub open spec fn origin_for(t: EvolutionType) -> SkillOrigin {
    match t {
        EvolutionType::Fix => SkillOrigin::Fixed,
        EvolutionType::Derived => SkillOrigin::Derived,
        EvolutionType::Captured => SkillOrigin::Captured,
    }
}

/// The lineage record of a new version `skill_id` named `name`: a fix is the
/// next generation of its parent and records its change as the diff; a
/// derived skill starts at generation zero below its parent; a captured
/// skill has no parent. `parent` is the parent's id and generation, which
/// fixes and derivations have.
pub fn lineage_record(
    t: EvolutionType,
    skill_id: String,
    name: String,
    parent: Option<(String, u32)>,
    source_task_id: Option<String>,
    change_summary: &str,
    created_by: &str,
    created_at: i64,
) -> (r: SkillLineage)
    requires
        t != EvolutionType::Captured ==> parent is Some,
        t == EvolutionType::Fix ==> parent.unwrap().1 < u32::MAX,
    ensures
        r.skill_id == skill_id,
        r.name == name,
        r.origin == origin_for(t),
        r.generation == if t == EvolutionType::Fix {
            parent.unwrap().1 + 1
        } else {
            0
        },
        t == EvolutionType::Captured ==> r.parent_ids@.len() == 0,
        t != EvolutionType::Captured ==> r.parent_ids@.len() == 1 && r.parent_ids@[0]
            == parent.unwrap().0,
        r.source_task_id == source_task_id,
        r.change_summary@ == change_summary@,
        r.content_diff@ == if t == EvolutionType::Fix {
            "FIX: "@ + change_summary@
        } else {
            Seq::<char>::empty()
        },
        r.created_by@ == created_by@,
        r.created_at == created_at,
{
    let mut parents: Vec<String> = Vec::new();
    let mut generation: u32 = 0;
    let mut diff = String::new();
    let origin = match t {
        EvolutionType::Fix => SkillOrigin::Fixed,
        EvolutionType::Derived => SkillOrigin::Derived,
        EvolutionType::Captured => SkillOrigin::Captured,
    };
    match t {
        EvolutionType::Captured => {},
        _ => {
            match parent {
                Some((id, g)) => {
                    parents.push(id);
                    match t {
                        EvolutionType::Fix => {
                            generation = g + 1;
                            diff = fix_diff(change_summary);
                        },
                        _ => {},
                    }
                },
                None => {},
            }
        },
    }
    SkillLineage {
        skill_id,
        name,
        origin,
        generation,
        parent_ids: parents,
        source_task_id,
        change_summary: String::from_str(change_summary),
        content_diff: diff,
        created_by: String::from_str(created_by),
        created_at,
    }
}

} // verus!
