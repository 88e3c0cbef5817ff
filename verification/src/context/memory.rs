//! Memory categories and the text escaping of the full-text index.
use vstd::prelude::*;
use vstd::utf8::{decode_utf8, encode_utf8, is_char_boundary};
use crate::text::{
    append_chars, chars_of, join, lines, lines_exec, push_str, replace, replace_exec, rfind,
    rfind_exec, slice_chars, str_eq, string_of, trim, trim_exec, views,
};

verus! {

/// The characters that the full-text query syntax treats as operators.
pub open spec fn fts5_special(c: char) -> bool {
    c == '-' || c == '+' || c == '|' || c == '&' || c == '!' || c == '(' || c == ')' || c == '"'
        || c == '~' || c == '*' || c == '\\'
}

/// `s` with a backslash before every operator character.
pub open spec fn escape_fts5_spec(s: Seq<char>) -> Seq<char>
    decreases s.len(),
{
    if s.len() == 0 {
        Seq::empty()
    } else {
        escape_fts5_spec(s.drop_last()) + if fts5_special(s.last()) {
            seq!['\\', s.last()]
        } else {
            seq![s.last()]
        }
    }
}

/// Escape special characters for a full-text search, so that they are taken
/// as literal text.
pub fn escape_fts5(text: &str) -> (r: String)
    ensures
        r@ == escape_fts5_spec(text@),
{
    let v = chars_of(text);
    let mut out: Vec<char> = Vec::new();
    let mut i: usize = 0;
    while i < v.len()
        invariant
            i <= v@.len(),
            out@ == escape_fts5_spec(v@.take(i as int)),
        decreases v.len() - i,
    {
        let c = v[i];
        assert(v@.take(i + 1).drop_last() =~= v@.take(i as int));
        if c == '-' || c == '+' || c == '|' || c == '&' || c == '!' || c == '(' || c == ')' || c
            == '"' || c == '~' || c == '*' || c == '\\' {
            out.push('\\');
            out.push(c);
            assert(out@ =~= escape_fts5_spec(v@.take(i as int)) + seq!['\\', c]);
        } else {
            out.push(c);
            assert(out@ =~= escape_fts5_spec(v@.take(i as int)) + seq![c]);
        }
        i = i + 1;
    }
    assert(v@.take(v@.len() as int) =~= v@);
    string_of(&out)
}

/// Memory category for classification.
#[derive(Debug, Clone, PartialEq, Eq)]
pub enum MemoryCategory {
    Core,
    Daily,
    Conversation,
    Skill,
    Custom(String),
}

pub open spec fn core_name() -> Seq<char> {
    seq!['c', 'o', 'r', 'e']
}

pub open spec fn daily_name() -> Seq<char> {
    seq!['d', 'a', 'i', 'l', 'y']
}

pub open spec fn conversation_name() -> Seq<char> {
    seq!['c', 'o', 'n', 'v', 'e', 'r', 's', 'a', 't', 'i', 'o', 'n']
}

pub open spec fn skill_name() -> Seq<char> {
    seq!['s', 'k', 'i', 'l', 'l']
}

/// One of the four names that denote a built-in category.
pub open spec fn is_reserved_name(s: Seq<char>) -> bool {
    s == core_name() || s == daily_name() || s == conversation_name() || s == skill_name()
}

/// The stored name of a category.
pub open spec fn category_name(c: MemoryCategory) -> Seq<char> {
    match c {
        MemoryCategory::Core => core_name(),
        MemoryCategory::Daily => daily_name(),
        MemoryCategory::Conversation => conversation_name(),
        MemoryCategory::Skill => skill_name(),
        MemoryCategory::Custom(s) => s@,
    }
}

/// `c` is the category that the stored name `s` denotes.
pub open spec fn parses_to(s: Seq<char>, c: MemoryCategory) -> bool {
    match c {
        MemoryCategory::Core => s == core_name(),
        MemoryCategory::Daily => s == daily_name(),
        MemoryCategory::Conversation => s == conversation_name(),
        MemoryCategory::Skill => s == skill_name(),
        MemoryCategory::Custom(x) => x@ == s && !is_reserved_name(s),
    }
}

impl MemoryCategory {
    pub fn as_str(&self) -> (r: &str)
        ensures
            r@ == category_name(*self),
    {
        match self {
            MemoryCategory::Core => {
                proof {
                    reveal_strlit("core");
                }
                "core"
            },
            MemoryCategory::Daily => {
                proof {
                    reveal_strlit("daily");
                }
                "daily"
            },
            MemoryCategory::Conversation => {
                proof {
                    reveal_strlit("conversation");
                }
                "conversation"
            },
            MemoryCategory::Skill => {
                proof {
                    reveal_strlit("skill");
                }
                "skill"
            },
            MemoryCategory::Custom(s) => s.as_str(),
        }
    }

    pub fn parse(s: &str) -> (r: Self)
        ensures
            parses_to(s@, r),
    {
        proof {
            reveal_strlit("core");
            reveal_strlit("daily");
            reveal_strlit("conversation");
            reveal_strlit("skill");
        }
        assert("core"@ =~= core_name());
        assert("daily"@ =~= daily_name());
        assert("conversation"@ =~= conversation_name());
        assert("skill"@ =~= skill_name());
        if str_eq(s, "core") {
            MemoryCategory::Core
        } else if str_eq(s, "daily") {
            MemoryCategory::Daily
        } else if str_eq(s, "conversation") {
            MemoryCategory::Conversation
        } else if str_eq(s, "skill") {
            MemoryCategory::Skill
        } else {
            let v = chars_of(s);
            MemoryCategory::Custom(string_of(&v))
        }
    }
}

/// Law: the stored name of a parsed category is the text it was parsed from.
pub proof fn law_parse_then_name(s: Seq<char>, c: MemoryCategory)
    requires
        parses_to(s, c),
    ensures
        category_name(c) == s,
{
}

/// Law: a category parses back from its stored name, unless it is a custom
/// category carrying one of the built-in names.
pub proof fn law_name_then_parse(c: MemoryCategory)
    requires
        !(c is Custom && is_reserved_name(category_name(c))),
    ensures
        parses_to(category_name(c), c),
{
}

/// The lines that hold more than white space, in order.
pub open spec fn nonblank_lines(ls: Seq<Seq<char>>) -> Seq<Seq<char>>
    decreases ls.len(),
{
    if ls.len() == 0 {
        Seq::empty()
    } else {
        let prev = nonblank_lines(ls.drop_last());
        if trim(ls.last()).len() > 0 {
            prev.push(ls.last())
        } else {
            prev
        }
    }
}

/// The text whose UTF-8 encoding is the first `n` bytes of `t`'s.
pub open spec fn byte_prefix(t: Seq<char>, n: nat) -> Seq<char> {
    decode_utf8(encode_utf8(t).take(n as int))
}

/// `t` cut to its first `n` bytes when it is longer.
pub open spec fn cut_bytes(t: Seq<char>, n: nat) -> Seq<char> {
    if encode_utf8(t).len() as usize > n {
        byte_prefix(t, n)
    } else {
        t
    }
}

/// `t` is no longer than `n` bytes, or a character starts at byte `n`; a cut
/// anywhere else would split a character, and is refused.
pub open spec fn cuts_cleanly(t: Seq<char>, n: nat) -> bool {
    encode_utf8(t).len() as usize <= n || is_char_boundary(encode_utf8(t), n as int)
}

/// The first line of a text that holds more than white space, trimmed.
pub open spec fn abstract_line(content: Seq<char>) -> Seq<char> {
    let nb = nonblank_lines(lines(content));
    if nb.len() > 0 {
        trim(nb[0])
    } else {
        Seq::empty()
    }
}

/// The first five lines of a text that hold more than white space, joined
/// by newlines.
pub open spec fn overview_text(content: Seq<char>) -> Seq<char> {
    let nb = nonblank_lines(lines(content));
    join(if nb.len() <= 5 { nb } else { nb.take(5) }, "\n"@)
}

/// Cuts a text to its first `n` bytes when it is longer.
pub fn cut_to_bytes(t: &str, n: usize) -> (r: String)
    requires
        cuts_cleanly(t@, n as nat),
    ensures
        r@ == cut_bytes(t@, n as nat),
{
    if t.len() > n {
        let (head, _) = t.split_at(n);
        proof {
            vstd::utf8::encode_utf8_decode_utf8(head@);
            assert(encode_utf8(head@) =~= encode_utf8(t@).take(n as int));
        }
        String::from_str(head)
    } else {
        String::from_str(t)
    }
}

fn nonblank_exec(ls: &Vec<Vec<char>>) -> (r: Vec<Vec<char>>)
    ensures
        views(r@) == nonblank_lines(views(ls@)),
{
    let ghost lv = views(ls@);
    let mut out: Vec<Vec<char>> = Vec::new();
    let mut i: usize = 0;
    assert(lv.take(0) =~= Seq::<Seq<char>>::empty());
    while i < ls.len()
        invariant
            i <= ls@.len(),
            lv == views(ls@),
            views(out@) == nonblank_lines(lv.take(i as int)),
        decreases ls.len() - i,
    {
        assert(lv.take(i + 1).drop_last() =~= lv.take(i as int));
        assert(lv.take(i + 1).last() == ls@[i as int]@);
        let t = trim_exec(&ls[i]);
        if t.len() > 0 {
            let ghost before = views(out@);
            let mut copy: Vec<char> = Vec::new();
            append_chars(&mut copy, &ls[i]);
            out.push(copy);
            assert(views(out@) =~= before.push(ls@[i as int]@));
        }
        i = i + 1;
    }
    assert(lv.take(ls.len() as int) =~= lv);
    out
}

/// The first line of a text that holds more than white space, trimmed,
/// before any cut.
pub fn abstract_line_of(content: &str) -> (r: String)
    ensures
        r@ == abstract_line(content@),
{
    let c = chars_of(content);
    let ls = lines_exec(&c);
    let nb = nonblank_exec(&ls);
    if nb.len() > 0 {
        string_of(&trim_exec(&nb[0]))
    } else {
        String::new()
    }
}

/// The first five lines of a text that hold more than white space, joined
/// by newlines, before any cut.
pub fn overview_text_of(content: &str) -> (r: String)
    ensures
        r@ == overview_text(content@),
{
    let c = chars_of(content);
    let ls = lines_exec(&c);
    let mut nb = nonblank_exec(&ls);
    let ghost all = views(nb@);
    if nb.len() > 5 {
        nb.truncate(5);
        assert(views(nb@) =~= all.take(5));
    }
    let sep = chars_of("\n");
    proof {
        reveal_strlit("\n");
    }
    string_of(&crate::text::join_exec(&nb, &sep))
}

/// Generate the L0 abstract of a memory: its first non-blank line, trimmed,
/// cut to 100 bytes.
pub fn generate_l0(content: &str) -> (r: String)
    requires
        cuts_cleanly(abstract_line(content@), 100),
    ensures
        r@ == cut_bytes(abstract_line(content@), 100),
{
    let line = abstract_line_of(content);
    cut_to_bytes(line.as_str(), 100)
}

/// Generate the L1 overview of a memory: its first five non-blank lines,
/// cut to 500 bytes.
pub fn generate_l1(content: &str) -> (r: String)
    requires
        cuts_cleanly(overview_text(content@), 500),
    ensures
        r@ == cut_bytes(overview_text(content@), 500),
{
    let text = overview_text_of(content);
    cut_to_bytes(text.as_str(), 500)
}

/// The title of a memory: the last `/`-separated part of its key, without
/// `.md`.
pub open spec fn title_spec(key: Seq<char>) -> Seq<char> {
    let last = match rfind(key, seq!['/']) {
        Some(i) => key.skip(i + 1),
        None => key,
    };
    replace(last, ".md"@, Seq::empty())
}

/// The title of a memory from its key.
pub fn extract_title(key: &str) -> (r: String)
    ensures
        r@ == title_spec(key@),
{
    let k = chars_of(key);
    let slash = vec!['/'];
    assert(slash@ == seq!['/']);
    let last = match rfind_exec(&k, &slash) {
        Some(i) => {
            proof {
                crate::text::lemma_rfind_from_bounds(k@, slash@, k@.len() - slash@.len());
                assert(rfind(k@, slash@) == crate::text::rfind_from(k@, slash@, k@.len() - 1));
                assert(i <= k@.len() - 1);
            }
            assert(i < k.len());
            let t = slice_chars(&k, i + 1, k.len());
            assert(t@ =~= k@.skip(i + 1));
            t
        },
        None => k,
    };
    let md = chars_of(".md");
    proof {
        reveal_strlit(".md");
    }
    let none: Vec<char> = Vec::new();
    assert(none@ =~= Seq::<char>::empty());
    string_of(&replace_exec(&last, &md, &none))
}

} // verus!
