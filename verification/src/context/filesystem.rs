//! `wakey://` context paths and directory entries.
use vstd::prelude::*;
use crate::text::{
    after_first, after_first_exec, before_first, before_first_exec, chars_of, contains,
    contains_exec, ends_with, has_suffix, lacks, lemma_find_after_prefix, lemma_find_none,
    lemma_find_single, rfind, rfind_exec, lemma_rfind_from_bounds, append_chars, string_of,
    strip_prefix, strip_prefix_exec, lemma_occurs_single,
};

verus! {

/// URI scheme for Wakey context resources.
pub const URI_SCHEME: &'static str = "wakey://";

/// The directories every context store starts with.
pub const PRESET_DIRS: [&'static str; 5] = [
    "user/memories",
    "agent/skills",
    "agent/memories",
    "session",
    "resources",
];

/// The characters of [`URI_SCHEME`].
pub open spec fn scheme() -> Seq<char> {
    seq!['w', 'a', 'k', 'e', 'y', ':', '/', '/']
}

fn scheme_chars() -> (v: Vec<char>)
    ensures
        v@ == scheme(),
{
    vec!['w', 'a', 'k', 'e', 'y', ':', '/', '/']
}

/// The scope and the in-scope path of a scope-relative path: the text before
/// the first `/`, and the text after it (empty when there is no `/`).
pub open spec fn split_scope(s: Seq<char>) -> (Seq<char>, Seq<char>) {
    (
        before_first(s, seq!['/']),
        match after_first(s, seq!['/']) {
            Some(r) => r,
            None => Seq::empty(),
        },
    )
}

/// The scope-relative path of a scope and an in-scope path.
pub open spec fn join_scope(scope: Seq<char>, path: Seq<char>) -> Seq<char> {
    if path.len() == 0 {
        scope
    } else {
        scope + seq!['/'] + path
    }
}

/// The (scope, path) that a URI names; text without the scheme is taken as
/// scope-relative.
pub open spec fn from_uri_view(u: Seq<char>) -> (Seq<char>, Seq<char>) {
    split_scope(
        match strip_prefix(u, scheme()) {
            Some(r) => r,
            None => u,
        },
    )
}

/// The parent of an in-scope path: everything before its last `/`.
pub open spec fn parent_view(v: (Seq<char>, Seq<char>)) -> Option<(Seq<char>, Seq<char>)> {
    match rfind(v.1, seq!['/']) {
        Some(j) => Some((v.0, v.1.take(j))),
        None => None,
    }
}

/// The last component of an in-scope path: everything after its last `/`.
pub open spec fn file_name_view(path: Seq<char>) -> Seq<char> {
    match rfind(path, seq!['/']) {
        Some(j) => path.skip(j + 1),
        None => path,
    }
}

/// A context path represented as a Wakey URI.
#[derive(Debug, Clone, PartialEq, Eq, Hash)]
pub struct ContextPath {
    scope: String,
    path: String,
}

impl View for ContextPath {
    type V = (Seq<char>, Seq<char>);

    closed spec fn view(&self) -> (Seq<char>, Seq<char>) {
        (self.scope@, self.path@)
    }
}

/// Every context path this module builds has a scope without `/`.
pub open spec fn well_formed(v: (Seq<char>, Seq<char>)) -> bool {
    lacks(v.0, '/')
}

impl ContextPath {
    fn from_chars(s: &[char]) -> (r: Self)
        ensures
            r@ == split_scope(s@),
            well_formed(r@),
    {
        let sep = vec!['/'];
        let scope = before_first_exec(s, &sep);
        let path = match after_first_exec(s, &sep) {
            Some(p) => p,
            None => Vec::new(),
        };
        proof {
            lemma_find_single(s@, '/');
        }
        assert(sep@ == seq!['/']);
        assert(scope@ == before_first(s@, sep@));
        let sc = string_of(&scope);
        assert(sc@ == scope@);
        let pa = string_of(&path);
        assert(sc@ == before_first(s@, seq!['/']));
        let r = ContextPath { scope: sc, path: pa };
        assert(r.scope@ == sc@);
        assert(r@.0 == sc@);
        r
    }

    /// Create a new context path from a scope-relative path.
    pub fn new(scope_path: &str) -> (r: Self)
        ensures
            r@ == split_scope(scope_path@),
            well_formed(r@),
    {
        let v = chars_of(scope_path);
        Self::from_chars(&v)
    }

    /// Create a context path from a full URI.
    pub fn from_uri(uri: &str) -> (r: Self)
        ensures
            r@ == from_uri_view(uri@),
            well_formed(r@),
    {
        let v = chars_of(uri);
        let sch = scheme_chars();
        match strip_prefix_exec(&v, &sch) {
            Some(rest) => Self::from_chars(&rest),
            None => Self::from_chars(&v),
        }
    }

    fn scope_path_chars(&self) -> (v: Vec<char>)
        ensures
            v@ == join_scope(self@.0, self@.1),
    {
        let mut v = chars_of(self.scope.as_str());
        let p = chars_of(self.path.as_str());
        if p.len() > 0 {
            v.push('/');
            append_chars(&mut v, &p);
        }
        v
    }

    /// Get the URI representation.
    pub fn uri(&self) -> (r: String)
        ensures
            r@ == scheme() + join_scope(self@.0, self@.1),
    {
        let mut v = scheme_chars();
        let sp = self.scope_path_chars();
        append_chars(&mut v, &sp);
        string_of(&v)
    }

    /// Get the scope (user, agent, session, resources).
    pub fn scope(&self) -> (r: &str)
        ensures
            r@ == self@.0,
    {
        self.scope.as_str()
    }

    /// Get the path within the scope.
    pub fn path(&self) -> (r: &str)
        ensures
            r@ == self@.1,
    {
        self.path.as_str()
    }

    /// Get the full scope-relative path.
    pub fn scope_path(&self) -> (r: String)
        ensures
            r@ == join_scope(self@.0, self@.1),
    {
        let v = self.scope_path_chars();
        string_of(&v)
    }

    /// Get the parent directory path.
    pub fn parent(&self) -> (r: Option<Self>)
        ensures
            r matches Some(p) ==> parent_view(self@) == Some(p@),
            r is None ==> parent_view(self@) is None,
            r matches Some(p) ==> p@.0 == self@.0,
    {
        let p = chars_of(self.path.as_str());
        let sep = vec!['/'];
        assert(sep@ == seq!['/']);
        match rfind_exec(&p, &sep) {
            Some(j) => {
                proof {
                    lemma_rfind_from_bounds(p@, seq!['/'], p@.len() - 1);
                }
                let mut head: Vec<char> = Vec::new();
                let mut i: usize = 0;
                while i < j
                    invariant
                        j < p@.len(),
                        i <= j,
                        head@ == p@.take(i as int),
                    decreases j - i,
                {
                    head.push(p[i]);
                    i = i + 1;
                }
                Some(ContextPath { scope: self.scope.clone(), path: string_of(&head) })
            },
            None => None,
        }
    }

    /// Check if this path points to a directory (no extension).
    pub fn is_dir(&self) -> (r: bool)
        ensures
            r == (has_suffix(self@.1, seq!['/']) || !contains(self@.1, seq!['.'])),
    {
        let p = chars_of(self.path.as_str());
        let slash = vec!['/'];
        let dot = vec!['.'];
        assert(slash@ == seq!['/']);
        assert(dot@ == seq!['.']);
        ends_with(&p, &slash) || !contains_exec(&p, &dot)
    }

    /// Get the file name (last component).
    pub fn file_name(&self) -> (r: Option<&str>)
        ensures
            r matches Some(f) && f@ == file_name_view(self@.1),
    {
        let p = chars_of(self.path.as_str());
        let n = p.len();
        let ghost pv = self.path@;
        assert(p@ == pv);
        let sep = vec!['/'];
        assert(sep@ == seq!['/']);
        match rfind_exec(&p, &sep) {
            Some(j) => {
                proof {
                    lemma_rfind_from_bounds(p@, seq!['/'], p@.len() - 1);
                }
                Some(self.path.as_str().substring_char(j + 1, n))
            },
            None => {
                assert(self.path@.subrange(0, n as int) =~= self.path@);
                Some(self.path.as_str().substring_char(0, n))
            },
        }
    }

    /// The path of the entry `name` inside this directory.
    pub fn child(&self, name: &str) -> (r: Self)
        ensures
            r@ == split_scope(join_scope(self@.0, self@.1) + seq!['/'] + name@),
            well_formed(r@),
    {
        let mut v = self.scope_path_chars();
        v.push('/');
        let nm = chars_of(name);
        append_chars(&mut v, &nm);
        assert(v@ =~= join_scope(self@.0, self@.1) + seq!['/'] + name@);
        Self::from_chars(&v)
    }
}

/// A scope without `/` and its in-scope path are recovered from their joined form.
pub proof fn lemma_split_join(scope: Seq<char>, path: Seq<char>)
    requires
        lacks(scope, '/'),
    ensures
        split_scope(join_scope(scope, path)) == (scope, path),
{
    if path.len() == 0 {
        lemma_find_none(scope, '/');
    } else {
        lemma_find_after_prefix(scope, '/', path);
    }
}

/// Law: parsing the URI of a context path gives the same path back.
pub proof fn law_uri_round_trip(p: ContextPath)
    requires
        well_formed(p@),
    ensures
        from_uri_view(scheme() + join_scope(p@.0, p@.1)) == p@,
{
    let x = join_scope(p@.0, p@.1);
    let u = scheme() + x;
    assert(u.subrange(0, scheme().len() as int) =~= scheme());
    assert(u.subrange(scheme().len() as int, u.len() as int) =~= x);
    assert(strip_prefix(u, scheme()) == Some(x));
    lemma_split_join(p@.0, p@.1);
}

/// Law: a context path built from its own scope-relative path is the same path.
pub proof fn law_scope_path_round_trip(p: ContextPath)
    requires
        well_formed(p@),
    ensures
        split_scope(join_scope(p@.0, p@.1)) == p@,
{
    lemma_split_join(p@.0, p@.1);
}

/// Law: the parent of a child entry, named without `/`, inside a non-root
/// directory is that directory.
pub proof fn law_child_parent(p: ContextPath, name: Seq<char>)
    requires
        well_formed(p@),
        p@.1.len() > 0,
        lacks(name, '/'),
    ensures
        parent_view(split_scope(join_scope(p@.0, p@.1) + seq!['/'] + name)) == Some(p@),
{
    let path2 = p@.1 + seq!['/'] + name;
    assert(join_scope(p@.0, p@.1) + seq!['/'] + name =~= p@.0 + seq!['/'] + path2);
    lemma_find_after_prefix(p@.0, '/', path2);
    let k = p@.1.len() as int;
    lemma_occurs_single(path2, '/', k);
    assert(rfind(path2, seq!['/']) == Some(k)) by {
        lemma_rfind_single_last(path2, '/', k);
    }
    assert(path2.take(k) =~= p@.1);
}

/// The last occurrence of a character is at `k` when none follows it.
proof fn lemma_rfind_single_last(s: Seq<char>, c: char, k: int)
    requires
        0 <= k < s.len(),
        s[k] == c,
        forall|i: int| k < i < s.len() ==> s[i] != c,
    ensures
        rfind(s, seq![c]) == Some(k),
    decreases s.len() - k,
{
    lemma_rfind_down(s, c, k, s.len() - 1);
}

proof fn lemma_rfind_down(s: Seq<char>, c: char, k: int, i: int)
    requires
        0 <= k <= i < s.len(),
        s[k] == c,
        forall|m: int| k < m < s.len() ==> s[m] != c,
    ensures
        crate::text::rfind_from(s, seq![c], i) == Some(k),
    decreases i - k,
{
    lemma_occurs_single(s, c, i);
    if i > k {
        lemma_rfind_down(s, c, k, i - 1);
    }
}

/// Metadata for a context entry (file or directory).
#[derive(Debug, Clone)]
pub struct ContextEntry {
    path: ContextPath,
    is_dir: bool,
    size: u64,
    mtime: i64,
}

impl ContextEntry {
    /// An entry with the given path and metadata.
    pub fn new(path: ContextPath, is_dir: bool, size: u64, mtime: i64) -> (r: Self)
        ensures
            r.path_spec() == path,
            r.is_dir_spec() == is_dir,
            r.size_spec() == size,
            r.mtime_spec() == mtime,
    {
        ContextEntry { path, is_dir, size, mtime }
    }

    pub closed spec fn path_spec(&self) -> ContextPath {
        self.path
    }

    pub closed spec fn is_dir_spec(&self) -> bool {
        self.is_dir
    }

    pub closed spec fn size_spec(&self) -> u64 {
        self.size
    }

    pub closed spec fn mtime_spec(&self) -> i64 {
        self.mtime
    }

    pub fn path(&self) -> (r: &ContextPath)
        ensures
            *r == self.path_spec(),
    {
        &self.path
    }

    pub fn is_dir(&self) -> (r: bool)
        ensures
            r == self.is_dir_spec(),
    {
        self.is_dir
    }

    pub fn size(&self) -> (r: u64)
        ensures
            r == self.size_spec(),
    {
        self.size
    }

    pub fn mtime(&self) -> (r: i64)
        ensures
            r == self.mtime_spec(),
    {
        self.mtime
    }
}

/// The preset directories, as paths: (scope, path) pairs.
pub fn preset_paths() -> (r: Vec<ContextPath>)
    ensures
        r@.len() == 5,
        r@[0]@ == ("user"@, "memories"@),
        r@[1]@ == ("agent"@, "skills"@),
        r@[2]@ == ("agent"@, "memories"@),
        r@[3]@ == ("session"@, Seq::<char>::empty()),
        r@[4]@ == ("resources"@, Seq::<char>::empty()),
{
    proof {
        reveal_strlit("user/memories");
        reveal_strlit("agent/skills");
        reveal_strlit("agent/memories");
        reveal_strlit("session");
        reveal_strlit("resources");
        reveal_strlit("user");
        reveal_strlit("agent");
        reveal_strlit("memories");
        reveal_strlit("skills");
        assert("user/memories"@ =~= "user"@ + seq!['/'] + "memories"@);
        assert("agent/skills"@ =~= "agent"@ + seq!['/'] + "skills"@);
        assert("agent/memories"@ =~= "agent"@ + seq!['/'] + "memories"@);
        assert(lacks("user"@, '/'));
        assert(lacks("agent"@, '/'));
        assert(lacks("session"@, '/'));
        assert(lacks("resources"@, '/'));
        lemma_find_after_prefix("user"@, '/', "memories"@);
        lemma_find_after_prefix("agent"@, '/', "skills"@);
        lemma_find_after_prefix("agent"@, '/', "memories"@);
        lemma_find_none("session"@, '/');
        lemma_find_none("resources"@, '/');
    }
    let mut v: Vec<ContextPath> = Vec::new();
    v.push(ContextPath::new("user/memories"));
    v.push(ContextPath::new("agent/skills"));
    v.push(ContextPath::new("agent/memories"));
    v.push(ContextPath::new("session"));
    v.push(ContextPath::new("resources"));
    v
}

} // verus!
