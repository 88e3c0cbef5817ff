//! Retrieval: which stored entries a search keeps, and what a full reindex
//! covers.
use vstd::prelude::*;
use crate::context::filesystem::ContextPath;
use crate::context::memory::MemoryCategory;
use crate::text::{chars_of, has_prefix, starts_with, str_eq};

verus! {

/// The first `limit` positions, in order, of the keys that start with
/// `prefix`, among the first `k` keys.
pub open spec fn prefix_positions(keys: Seq<Seq<char>>, prefix: Seq<char>, limit: nat, k: int) -> Seq<nat>
    decreases k,
{
    if k <= 0 {
        Seq::empty()
    } else {
        let prev = prefix_positions(keys, prefix, limit, k - 1);
        if has_prefix(keys[k - 1], prefix) && prev.len() < limit {
            prev.push((k - 1) as nat)
        } else {
            prev
        }
    }
}

/// The entries a prefix retrieval keeps: the first `limit` whose keys start
/// with `prefix`, in the order they are listed.
pub fn select_by_prefix(keys: &Vec<String>, prefix: &str, limit: usize) -> (r: Vec<usize>)
    ensures
        r@.map_values(|i: usize| i as nat) == prefix_positions(
            keys@.map_values(|s: String| s@),
            prefix@,
            limit as nat,
            keys@.len() as int,
        ),
{
    let ghost kv = keys@.map_values(|s: String| s@);
    let p = chars_of(prefix);
    let mut out: Vec<usize> = Vec::new();
    let mut i: usize = 0;
    while i < keys.len()
        invariant
            i <= keys@.len(),
            kv == keys@.map_values(|s: String| s@),
            p@ == prefix@,
            out@.map_values(|x: usize| x as nat) == prefix_positions(kv, prefix@, limit as nat, i as int),
        decreases keys.len() - i,
    {
        let ghost before = out@;
        let key = chars_of(keys[i].as_str());
        assert(kv[i as int] == keys@[i as int]@);
        if starts_with(&key, &p) && out.len() < limit {
            out.push(i);
            assert(out@.map_values(|x: usize| x as nat) =~= before.map_values(|x: usize| x as nat).push(
                i as nat,
            ));
        }
        i = i + 1;
    }
    out
}

/// The positions, in order, of the entries of category `wanted` among the
/// first `k`; every position when no category is wanted.
pub open spec fn category_positions(cats: Seq<Seq<char>>, wanted: Option<Seq<char>>, k: int) -> Seq<nat>
    decreases k,
{
    if k <= 0 {
        Seq::empty()
    } else {
        let prev = category_positions(cats, wanted, k - 1);
        if wanted is None || wanted == Some(cats[k - 1]) {
            prev.push((k - 1) as nat)
        } else {
            prev
        }
    }
}

/// The search results a category filter keeps, in order.
pub fn select_by_category(categories: &Vec<String>, wanted: Option<&str>) -> (r: Vec<usize>)
    ensures
        r@.map_values(|i: usize| i as nat) == category_positions(
            categories@.map_values(|s: String| s@),
            match wanted {
                Some(w) => Some(w@),
                None => None,
            },
            categories@.len() as int,
        ),
{
    let ghost cv = categories@.map_values(|s: String| s@);
    let ghost w = match wanted {
        Some(x) => Some(x@),
        None => None,
    };
    let mut out: Vec<usize> = Vec::new();
    let mut i: usize = 0;
    while i < categories.len()
        invariant
            i <= categories@.len(),
            cv == categories@.map_values(|s: String| s@),
            w == match wanted {
                Some(x) => Some(x@),
                None => None::<Seq<char>>,
            },
            out@.map_values(|x: usize| x as nat) == category_positions(cv, w, i as int),
        decreases categories.len() - i,
    {
        let ghost before = out@;
        assert(cv[i as int] == categories@[i as int]@);
        let keep = match wanted {
            Some(x) => str_eq(x, categories[i].as_str()),
            None => true,
        };
        if keep {
            out.push(i);
            assert(out@.map_values(|x: usize| x as nat) =~= before.map_values(|x: usize| x as nat).push(
                i as nat,
            ));
        }
        i = i + 1;
    }
    out
}

/// What a full reindex covers: each directory with the category its
/// entries are stored under.
pub fn reindex_plan() -> (r: Vec<(ContextPath, MemoryCategory)>)
    ensures
        r@.len() == 3,
        r@[0].0@ == ("user"@, "memories"@) && r@[0].1 == MemoryCategory::Core,
        r@[1].0@ == ("agent"@, "memories"@) && r@[1].1 == MemoryCategory::Core,
        r@[2].0@ == ("agent"@, "skills"@) && r@[2].1 == MemoryCategory::Skill,
{
    let mut v: Vec<(ContextPath, MemoryCategory)> = Vec::new();
    let a = ContextPath::new("user/memories");
    let b = ContextPath::new("agent/memories");
    let c = ContextPath::new("agent/skills");
    proof {
        reveal_strlit("user/memories");
        reveal_strlit("agent/memories");
        reveal_strlit("agent/skills");
        reveal_strlit("user");
        reveal_strlit("agent");
        reveal_strlit("memories");
        reveal_strlit("skills");
        assert("user/memories"@ =~= "user"@ + seq!['/'] + "memories"@);
        assert("agent/memories"@ =~= "agent"@ + seq!['/'] + "memories"@);
        assert("agent/skills"@ =~= "agent"@ + seq!['/'] + "skills"@);
        assert(crate::text::lacks("user"@, '/'));
        assert(crate::text::lacks("agent"@, '/'));
        crate::text::lemma_find_after_prefix("user"@, '/', "memories"@);
        crate::text::lemma_find_after_prefix("agent"@, '/', "memories"@);
        crate::text::lemma_find_after_prefix("agent"@, '/', "skills"@);
    }
    v.push((a, MemoryCategory::Core));
    v.push((b, MemoryCategory::Core));
    v.push((c, MemoryCategory::Skill));
    v
}

} // verus!
