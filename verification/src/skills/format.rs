//! The SKILL.md format: YAML frontmatter with the manifest, then a markdown
//! body; and the short texts drawn from a body.
use vstd::prelude::*;
use vstd::utf8::encode_utf8;
use crate::skills::fixer::{copy_strings, regex_capture, regex_capture_spec};
use crate::skills::reporter::{summarize_issue, summarize_spec};
use crate::text::{
    chars_of, decimal, has_prefix, join, join_exec, push_str, slice_chars, starts_with, string_of,
    take_chars, trim, trim_exec, views,
};

verus! {

/// Skill manifest extracted from YAML frontmatter
#[derive(Debug, Clone)]
pub struct SkillManifest {
    /// Unique skill name (required, max 64 bytes)
    pub name: String,
    /// Brief description for skill selection (required, max 1024 bytes)
    pub description: String,
    /// Semantic version
    pub version: String,
    /// Other skills this skill depends on
    pub dependencies: Vec<String>,
    /// Tags for categorization and search
    pub tags: Vec<String>,
    /// Platform restrictions (empty = all platforms)
    pub platforms: Vec<String>,
}

/// Full parsed skill content
#[derive(Debug, Clone)]
pub struct SkillContent {
    /// Manifest from frontmatter
    pub manifest: SkillManifest,
    /// Markdown content (body after frontmatter)
    pub body: String,
    /// Source file path
    pub source_path: String,
    /// File modification time for cache invalidation
    pub mtime: u64,
}

/// Why a skill could not be read: the skill (or file) and the reason.
#[derive(Debug, Clone)]
pub struct SkillError {
    pub skill: String,
    pub message: String,
}

impl SkillError {
    /// The error as text: `Skill error (<skill>): <message>`.
    pub fn to_string(&self) -> (r: String)
        ensures
            r@ == "Skill error ("@ + self.skill@ + "): "@ + self.message@,
    {
        let mut out: Vec<char> = Vec::new();
        push_str(&mut out, "Skill error (");
        push_str(&mut out, self.skill.as_str());
        push_str(&mut out, "): ");
        push_str(&mut out, self.message.as_str());
        string_of(&out)
    }
}

/// Default skill version
pub const DEFAULT_VERSION: &'static str = "1.0.0";

/// Maximum allowed name length, in bytes
pub const MAX_NAME_LEN: usize = 64;

/// Maximum allowed description length, in bytes
pub const MAX_DESC_LEN: usize = 1024;

fn skill_error(skill: &str, message: &str) -> (r: SkillError)
    ensures
        r.skill@ == skill@,
        r.message@ == message@,
{
    SkillError { skill: String::from_str(skill), message: String::from_str(message) }
}

/// The frontmatter pattern: `---`, the YAML, a line `---`, the body.
pub open spec fn frontmatter_pattern() -> Seq<char> {
    "(?s)^---\\s*\\n(.*?)\\n---\\s*\\n(.*)$"@
}

/// The (frontmatter, body) of a skill file.
pub open spec fn split_spec(content: Seq<char>) -> Result<(Seq<char>, Seq<char>), Seq<char>> {
    match (
        regex_capture_spec(frontmatter_pattern(), content, 1),
        regex_capture_spec(frontmatter_pattern(), content, 2),
    ) {
        (Some(f), Some(b)) => Ok((f, b)),
        _ => Err("Missing or malformed YAML frontmatter"@),
    }
}

/// Split content into frontmatter and body
pub fn split_frontmatter(content: &str) -> (r: Result<(String, String), SkillError>)
    ensures
        r matches Ok((f, b)) ==> split_spec(content@) == Ok::<(Seq<char>, Seq<char>), Seq<char>>(
            (f@, b@),
        ),
        r matches Err(e) ==> e.skill@ == "unknown"@ && split_spec(content@) == Err::<
            (Seq<char>, Seq<char>),
            Seq<char>,
        >(e.message@),
{
    let f = regex_capture("(?s)^---\\s*\\n(.*?)\\n---\\s*\\n(.*)$", content, 1);
    let b = regex_capture("(?s)^---\\s*\\n(.*?)\\n---\\s*\\n(.*)$", content, 2);
    match (f, b) {
        (Some(f), Some(b)) => Ok((f, b)),
        _ => Err(skill_error("unknown", "Missing or malformed YAML frontmatter")),
    }
}

/// The text the YAML parser reports for a document, when it does not parse.
pub uninterp spec fn yaml_error_spec(yaml: Seq<char>) -> Option<Seq<char>>;

/// The parse error of a YAML document, if it has one.
/// Trusted: parses with `serde_yaml::from_str` into a `Value` and writes the
/// error with its `Display`. The result depends on the document alone and is
/// named by `yaml_error_spec`.
#[verifier::external_body]
fn yaml_error(yaml: &str) -> (r: Option<String>)
    ensures
        r matches Some(t) ==> yaml_error_spec(yaml@) == Some(t@),
        r is None ==> yaml_error_spec(yaml@) is None,
{
    match serde_yaml::from_str::<serde_yaml::Value>(yaml) {
        Ok(_) => None,
        Err(e) => Some(e.to_string()),
    }
}

/// The string a YAML document holds at `key`.
pub uninterp spec fn yaml_str_spec(yaml: Seq<char>, key: Seq<char>) -> Option<Seq<char>>;

/// The string field `key` of a YAML document; none when it does not parse or
/// the field is absent or not a string.
/// Trusted: parses with `serde_yaml::from_str`, reads with `Value::get` and
/// `Value::as_str`; named by `yaml_str_spec`.
#[verifier::external_body]
fn yaml_str_field(yaml: &str, key: &str) -> (r: Option<String>)
    ensures
        r matches Some(t) ==> yaml_str_spec(yaml@, key@) == Some(t@),
        r is None ==> yaml_str_spec(yaml@, key@) is None,
{
    match serde_yaml::from_str::<serde_yaml::Value>(yaml) {
        Ok(v) => match v.get(key) {
            Some(f) => match f.as_str() {
                Some(t) => Some(t.to_string()),
                None => None,
            },
            None => None,
        },
        Err(_) => None,
    }
}

/// The items of the list a YAML document holds at `key`: each one's string,
/// or none for an item that is not a string.
pub uninterp spec fn yaml_list_spec(yaml: Seq<char>, key: Seq<char>) -> Option<Seq<Option<Seq<char>>>>;

/// The items of the list field `key` of a YAML document, each as its string
/// if it is one; none when the document does not parse or the field is
/// absent or not a list.
/// Trusted: parses with `serde_yaml::from_str`, reads with `Value::get`,
/// `Value::as_sequence` and `Value::as_str`; named by `yaml_list_spec`.
#[verifier::external_body]
fn yaml_list_items(yaml: &str, key: &str) -> (r: Option<Vec<Option<String>>>)
    ensures
        r matches Some(v) ==> yaml_list_spec(yaml@, key@) == Some(
            v@.map_values(|o: Option<String>| opt_view(o)),
        ),
        r is None ==> yaml_list_spec(yaml@, key@) is None,
{
    let v = serde_yaml::from_str::<serde_yaml::Value>(yaml).ok()?;
    let mut out = Vec::new();
    for i in v.get(key)?.as_sequence()? {
        out.push(i.as_str().map(String::from));
    }
    Some(out)
}

/// An optional string's view.
pub open spec fn opt_view(o: Option<String>) -> Option<Seq<char>> {
    match o {
        Some(s) => Some(s@),
        None => None,
    }
}

/// The strings among list items, in order.
pub open spec fn string_items(items: Seq<Option<Seq<char>>>) -> Seq<Seq<char>>
    decreases items.len(),
{
    if items.len() == 0 {
        Seq::empty()
    } else {
        string_items(items.drop_last()) + match items.last() {
            Some(s) => seq![s],
            None => Seq::empty(),
        }
    }
}

/// The views of a list of strings.
pub open spec fn strs(v: Seq<String>) -> Seq<Seq<char>> {
    v.map_values(|s: String| s@)
}

/// A manifest as (name, description, version, dependencies, tags, platforms).
pub open spec fn manifest_view(m: SkillManifest) -> (
    Seq<char>,
    Seq<char>,
    Seq<char>,
    Seq<Seq<char>>,
    Seq<Seq<char>>,
    Seq<Seq<char>>,
) {
    (m.name@, m.description@, m.version@, strs(m.dependencies@), strs(m.tags@), strs(m.platforms@))
}

impl SkillManifest {
    /// A copy of this manifest.
    pub fn duplicate(&self) -> (r: Self)
        ensures
            manifest_view(r) == manifest_view(*self),
    {
        SkillManifest {
            name: self.name.clone(),
            description: self.description.clone(),
            version: self.version.clone(),
            dependencies: copy_strings(&self.dependencies),
            tags: copy_strings(&self.tags),
            platforms: copy_strings(&self.platforms),
        }
    }
}

/// The byte length of a text, as `str::len` counts it.
pub open spec fn bytes(s: Seq<char>) -> int {
    encode_utf8(s).len() as usize as int
}

/// The strings of the list at `key`, or none.
pub open spec fn list_or_empty(l: Option<Seq<Option<Seq<char>>>>) -> Seq<Seq<char>> {
    match l {
        Some(v) => string_items(v),
        None => Seq::empty(),
    }
}

/// The manifest a frontmatter describes, or the reason it describes none.
pub open spec fn manifest_spec(yaml: Seq<char>) -> Result<
    (Seq<char>, Seq<char>, Seq<char>, Seq<Seq<char>>, Seq<Seq<char>>, Seq<Seq<char>>),
    Seq<char>,
> {
    match yaml_error_spec(yaml) {
        Some(e) => Err("Invalid YAML frontmatter: "@ + e),
        None => match yaml_str_spec(yaml, "name"@) {
            None => Err("Missing required field: name"@),
            Some(n) => match yaml_str_spec(yaml, "description"@) {
                None => Err("Missing required field: description"@),
                Some(d) => if bytes(trim(n)) > MAX_NAME_LEN {
                    Err("Name exceeds 64 characters"@)
                } else if bytes(trim(d)) > MAX_DESC_LEN {
                    Err("Description exceeds 1024 characters"@)
                } else {
                    Ok(
                        (
                            trim(n),
                            trim(d),
                            match yaml_str_spec(yaml, "version"@) {
                                Some(v) => v,
                                None => "1.0.0"@,
                            },
                            list_or_empty(yaml_list_spec(yaml, "dependencies"@)),
                            list_or_empty(yaml_list_spec(yaml, "tags"@)),
                            list_or_empty(yaml_list_spec(yaml, "platforms"@)),
                        ),
                    )
                },
            },
        },
    }
}

/// A string is among the strings of some list items exactly when one of the
/// items is that string.
proof fn lemma_string_items_contains(items: Seq<Option<Seq<char>>>, p: Seq<char>)
    ensures
        string_items(items).contains(p) <==> items.contains(Some(p)),
    decreases items.len(),
{
    if items.len() > 0 {
        let init = items.drop_last();
        lemma_string_items_contains(init, p);
        let tail: Seq<Seq<char>> = match items.last() {
            Some(x) => seq![x],
            None => Seq::empty(),
        };
        let all = string_items(init) + tail;
        assert(string_items(items) == all);
        if all.contains(p) {
            let k = choose|k: int| 0 <= k < all.len() && all[k] == p;
            if k < string_items(init).len() {
                assert(string_items(init)[k] == p);
                let i = choose|i: int| 0 <= i < init.len() && init[i] == Some(p);
                assert(items[i] == Some(p));
            } else {
                assert(items[items.len() - 1] == Some(p));
            }
        }
        if items.contains(Some(p)) {
            let i = choose|i: int| 0 <= i < items.len() && items[i] == Some(p);
            if i < items.len() - 1 {
                assert(init[i] == Some(p));
                let k = choose|k: int| 0 <= k < string_items(init).len() && string_items(init)[k] == p;
                assert(all[k] == p);
            } else {
                assert(all[all.len() - 1] == p);
            }
        }
    }
}

/// The strings among list items are the items that are strings, in order.
proof fn lemma_string_items_filter(items: Seq<Option<Seq<char>>>)
    ensures
        string_items(items) == items.filter_map(|o: Option<Seq<char>>| o),
    decreases items.len(),
{
    if items.len() > 0 {
        lemma_string_items_filter(items.drop_last());
    }
}

/// The strings a manifest lists under `key` are those of the frontmatter's
/// list at `key`: the items that are strings, in their order, and a string
/// is listed exactly when it is an item of that list.
pub open spec fn lists_key(yaml: Seq<char>, key: Seq<char>, listed: Seq<Seq<char>>) -> bool {
    &&& listed == match yaml_list_spec(yaml, key) {
        Some(items) => items.filter_map(|o: Option<Seq<char>>| o),
        None => Seq::empty(),
    }
    &&& forall|p: Seq<char>|
        #[trigger] listed.contains(p) <==> (yaml_list_spec(yaml, key) matches Some(items)
            && items.contains(Some(p)))
}

/// Law: a manifest's dependencies, tags and platforms are the string items
/// of the frontmatter's `dependencies`, `tags` and `platforms` lists; an
/// absent list gives none.
pub proof fn law_manifest_lists(yaml: Seq<char>)
    requires
        manifest_spec(yaml) is Ok,
    ensures
        lists_key(yaml, "dependencies"@, manifest_spec(yaml)->Ok_0.3),
        lists_key(yaml, "tags"@, manifest_spec(yaml)->Ok_0.4),
        lists_key(yaml, "platforms"@, manifest_spec(yaml)->Ok_0.5),
{
    let m = manifest_spec(yaml)->Ok_0;
    assert forall|p: Seq<char>|
        #[trigger] m.3.contains(p) <==> (yaml_list_spec(yaml, "dependencies"@) matches Some(items)
            && items.contains(Some(p))) by {
        if let Some(items) = yaml_list_spec(yaml, "dependencies"@) {
            lemma_string_items_contains(items, p);
        }
    }
    if let Some(items) = yaml_list_spec(yaml, "dependencies"@) {
        lemma_string_items_filter(items);
    }
    assert forall|p: Seq<char>|
        #[trigger] m.4.contains(p) <==> (yaml_list_spec(yaml, "tags"@) matches Some(items)
            && items.contains(Some(p))) by {
        if let Some(items) = yaml_list_spec(yaml, "tags"@) {
            lemma_string_items_contains(items, p);
        }
    }
    if let Some(items) = yaml_list_spec(yaml, "tags"@) {
        lemma_string_items_filter(items);
    }
    assert forall|p: Seq<char>|
        #[trigger] m.5.contains(p) <==> (yaml_list_spec(yaml, "platforms"@) matches Some(items)
            && items.contains(Some(p))) by {
        if let Some(items) = yaml_list_spec(yaml, "platforms"@) {
            lemma_string_items_contains(items, p);
        }
    }
    if let Some(items) = yaml_list_spec(yaml, "platforms"@) {
        lemma_string_items_filter(items);
    }
}

fn trimmed(s: &str) -> (r: String)
    ensures
        r@ == trim(s@),
{
    let c = chars_of(s);
    let t = trim_exec(&c);
    string_of(&t)
}

fn list_field(yaml: &str, key: &str) -> (r: Vec<String>)
    ensures
        strs(r@) == list_or_empty(yaml_list_spec(yaml@, key@)),
{
    let mut out: Vec<String> = Vec::new();
    match yaml_list_items(yaml, key) {
        Some(items) => {
            let ghost iv = items@.map_values(|o: Option<String>| opt_view(o));
            let mut i: usize = 0;
            while i < items.len()
                invariant
                    i <= items@.len(),
                    iv == items@.map_values(|o: Option<String>| opt_view(o)),
                    strs(out@) == string_items(iv.take(i as int)),
                decreases items.len() - i,
            {
                assert(iv.take(i + 1).drop_last() =~= iv.take(i as int));
                assert(iv.take(i + 1).last() == opt_view(items@[i as int]));
                match &items[i] {
                    Some(t) => {
                        out.push(t.clone());
                        assert(strs(out@) =~= strs(out@.drop_last()).push(t@));
                    },
                    None => {},
                }
                i = i + 1;
            }
            assert(iv.take(items@.len() as int) =~= iv);
        },
        None => {
            assert(strs(out@) =~= Seq::<Seq<char>>::empty());
        },
    }
    out
}

/// Parse YAML frontmatter into a manifest, with validation; errors name the file.
pub fn parse_frontmatter(yaml: &str, path: &str) -> (r: Result<SkillManifest, SkillError>)
    ensures
        r matches Ok(m) ==> manifest_spec(yaml@) == Ok::<
            (Seq<char>, Seq<char>, Seq<char>, Seq<Seq<char>>, Seq<Seq<char>>, Seq<Seq<char>>),
            Seq<char>,
        >(manifest_view(m)),
        r matches Err(e) ==> e.skill@ == path@ && manifest_spec(yaml@) == Err::<
            (Seq<char>, Seq<char>, Seq<char>, Seq<Seq<char>>, Seq<Seq<char>>, Seq<Seq<char>>),
            Seq<char>,
        >(e.message@),
{
    if let Some(e) = yaml_error(yaml) {
        let mut v: Vec<char> = Vec::new();
        push_str(&mut v, "Invalid YAML frontmatter: ");
        push_str(&mut v, e.as_str());
        return Err(SkillError { skill: String::from_str(path), message: string_of(&v) });
    }
    let name = match yaml_str_field(yaml, "name") {
        Some(n) => trimmed(n.as_str()),
        None => {
            return Err(skill_error(path, "Missing required field: name"));
        },
    };
    let description = match yaml_str_field(yaml, "description") {
        Some(d) => trimmed(d.as_str()),
        None => {
            return Err(skill_error(path, "Missing required field: description"));
        },
    };
    if name.as_str().len() > MAX_NAME_LEN {
        return Err(skill_error(path, "Name exceeds 64 characters"));
    }
    if description.as_str().len() > MAX_DESC_LEN {
        return Err(skill_error(path, "Description exceeds 1024 characters"));
    }
    let version = match yaml_str_field(yaml, "version") {
        Some(v) => v,
        None => String::from_str("1.0.0"),
    };
    Ok(
        SkillManifest {
            name,
            description,
            version,
            dependencies: list_field(yaml, "dependencies"),
            tags: list_field(yaml, "tags"),
            platforms: list_field(yaml, "platforms"),
        },
    )
}

/// The parsed skill of a file's content, path and modification time: its
/// manifest, and its body trimmed.
pub fn skill_content_from(content: &str, path: &str, mtime: u64) -> (r: Result<
    SkillContent,
    SkillError,
>)
    ensures
        r matches Ok(s) ==> split_spec(content@) matches Ok((f, b)) && manifest_spec(f)
            == Ok::<
            (Seq<char>, Seq<char>, Seq<char>, Seq<Seq<char>>, Seq<Seq<char>>, Seq<Seq<char>>),
            Seq<char>,
        >(manifest_view(s.manifest)) && s.body@ == trim(b) && s.source_path@ == path@ && s.mtime
            == mtime,
        r is Err ==> split_spec(content@) is Err || (split_spec(content@) matches Ok((f, b))
            && manifest_spec(f) is Err),
{
    let (front, body) = match split_frontmatter(content) {
        Ok(p) => p,
        Err(e) => {
            return Err(e);
        },
    };
    let manifest = match parse_frontmatter(front.as_str(), path) {
        Ok(m) => m,
        Err(e) => {
            return Err(e);
        },
    };
    Ok(
        SkillContent {
            manifest,
            body: trimmed(body.as_str()),
            source_path: String::from_str(path),
            mtime,
        },
    )
}

/// The pattern of an abstract: the first line of text after an overview heading.
pub open spec fn abstract_pattern() -> Seq<char> {
    "(?:##\\s*(?:Overview|When to Use|Description)\\s*\\n+)([^\\n#]+)"@
}

/// The L0 abstract of a body: the text under its overview heading, else the
/// body, either cut to 197 characters and an ellipsis when over 200 bytes.
pub open spec fn abstract_spec(body: Seq<char>) -> Seq<char> {
    match regex_capture_spec(abstract_pattern(), body, 1) {
        Some(x) => summarize_spec(trim(x)),
        None => summarize_spec(body),
    }
}

/// Generate L0 abstract (short summary) from skill content.
pub fn generate_abstract(content: &SkillContent) -> (r: String)
    ensures
        r@ == abstract_spec(content.body@),
{
    match regex_capture(
        "(?:##\\s*(?:Overview|When to Use|Description)\\s*\\n+)([^\\n#]+)",
        content.body.as_str(),
        1,
    ) {
        Some(x) => {
            let t = trimmed(x.as_str());
            summarize_issue(t.as_str())
        },
        None => summarize_issue(content.body.as_str()),
    }
}

/// Every match of `pattern` in `haystack`, in order.
pub uninterp spec fn regex_matches_spec(pattern: Seq<char>, haystack: Seq<char>) -> Seq<Seq<char>>;

/// The text of every non-overlapping match of `pattern` in `haystack`.
/// Trusted: compiles with `regex::Regex::new` and walks `Regex::captures_iter`,
/// taking group 0 of each; the result depends on the pattern and haystack alone
/// and is named by `regex_matches_spec`; a pattern that does not compile gives
/// no match, which the library's constant patterns never do.
#[verifier::external_body]
fn regex_matches(pattern: &str, haystack: &str) -> (r: Vec<String>)
    ensures
        strs(r@) == regex_matches_spec(pattern@, haystack@),
{
    let mut out = Vec::new();
    if let Ok(re) = regex::Regex::new(pattern) {
        for c in re.captures_iter(haystack) {
            out.push(c[0].to_string());
        }
    }
    out
}

/// The pattern of a section: a heading and the lines of text under it.
pub open spec fn section_pattern() -> Seq<char> {
    "(##\\s*[^\\n]+\\n+[^\\n#]+(?:\\n+[^\\n#]+)*)"@
}

/// A section kept in an overview.
pub open spec fn key_section(s: Seq<char>) -> bool {
    has_prefix(s, "## When to Use"@) || has_prefix(s, "## Procedure"@) || has_prefix(
        s,
        "## Pitfalls"@,
    ) || has_prefix(s, "## Verification"@)
}

/// The key sections among matches, trimmed, in order.
pub open spec fn key_sections(ms: Seq<Seq<char>>) -> Seq<Seq<char>>
    decreases ms.len(),
{
    if ms.len() == 0 {
        Seq::empty()
    } else if key_section(ms.last()) {
        key_sections(ms.drop_last()).push(trim(ms.last()))
    } else {
        key_sections(ms.drop_last())
    }
}

/// The L1 overview of a body: its key sections separated by blank lines, else
/// the body cut to 497 characters and an ellipsis when over 500 bytes.
pub open spec fn overview_spec(body: Seq<char>) -> Seq<char> {
    let ks = key_sections(regex_matches_spec(section_pattern(), body));
    if ks.len() == 0 {
        if bytes(body) > 500 {
            take_chars(body, 497) + "..."@
        } else {
            body
        }
    } else {
        join(ks, "\n\n"@)
    }
}

/// Generate L1 overview (medium-length summary) from skill content.
pub fn generate_overview(content: &SkillContent) -> (r: String)
    ensures
        r@ == overview_spec(content.body@),
{
    let ms = regex_matches("(##\\s*[^\\n]+\\n+[^\\n#]+(?:\\n+[^\\n#]+)*)", content.body.as_str());
    let ghost mv = strs(ms@);
    let mut sections: Vec<Vec<char>> = Vec::new();
    let p1 = chars_of("## When to Use");
    let p2 = chars_of("## Procedure");
    let p3 = chars_of("## Pitfalls");
    let p4 = chars_of("## Verification");
    let mut i: usize = 0;
    while i < ms.len()
        invariant
            i <= ms@.len(),
            mv == strs(ms@),
            p1@ == "## When to Use"@,
            p2@ == "## Procedure"@,
            p3@ == "## Pitfalls"@,
            p4@ == "## Verification"@,
            views(sections@) == key_sections(mv.take(i as int)),
        decreases ms.len() - i,
    {
        assert(mv.take(i + 1).drop_last() =~= mv.take(i as int));
        assert(mv.take(i + 1).last() == ms@[i as int]@);
        let m = chars_of(ms[i].as_str());
        if starts_with(&m, &p1) || starts_with(&m, &p2) || starts_with(&m, &p3) || starts_with(
            &m,
            &p4,
        ) {
            let t = trim_exec(&m);
            sections.push(t);
            assert(views(sections@) =~= views(sections@.drop_last()).push(t@));
        }
        i = i + 1;
    }
    assert(mv.take(ms@.len() as int) =~= mv);
    if sections.len() == 0 {
        let body = content.body.as_str();
        if body.len() > 500 {
            let c = chars_of(body);
            let mut head = if c.len() <= 497 {
                c
            } else {
                slice_chars(&c, 0, 497)
            };
            assert(head@ =~= take_chars(body@, 497));
            push_str(&mut head, "...");
            string_of(&head)
        } else {
            String::from_str(body)
        }
    } else {
        let sep = chars_of("\n\n");
        let j = join_exec(&sections, &sep);
        string_of(&j)
    }
}

} // verus!
