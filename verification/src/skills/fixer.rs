//! Tier 1 auto-fixes: the known error patterns, their risk, what each fix
//! runs and how its outcome reads, and the retry bookkeeping per session.
use vstd::prelude::*;
use crate::skills::detector::{index_of, unique};
use crate::text::{
    before_first, before_first_exec, chars_of, contains, contains_exec, join, join_exec, push_str,
    str_eq, string_of, trim, trim_exec, views, decimal, decimal_exec, append_chars,
};

verus! {

/// Action to take to fix an issue
#[derive(Debug, Clone)]
pub enum FixAction {
    /// Install a missing crate
    InstallCrate { crate_name: String, features: Vec<String> },
    /// Run cargo fmt
    FormatCode,
    /// Run cargo clippy --fix
    FixLints,
    /// Wait and retry (for rate limits)
    WaitAndRetry { delay_secs: u64 },
    /// Check environment variable
    CheckEnvVar { var_name: String },
    /// Restart agent with context injection
    RestartWithContext { context: String },
    /// Run a shell command
    RunCommand { command: String, working_dir: Option<String> },
    /// Send message to agent
    SendMessage { message: String },
}

/// Result of a fix attempt
#[derive(Debug, Clone)]
pub enum FixResult {
    /// Fix succeeded
    Success(String),
    /// Fix failed
    Failed(String),
    /// Fix needs user approval
    NeedsApproval,
}

/// The known error patterns, in table order.
pub open spec fn pattern_names() -> Seq<Seq<char>> {
    seq![
        "missing_crate"@,
        "format_error"@,
        "lint_error"@,
        "rate_limit"@,
        "auth_failure"@,
        "compile_error"@,
    ]
}

/// Whether a pattern has a known fix.
pub open spec fn known_pattern(p: Seq<char>) -> bool {
    pattern_names().contains(p)
}

/// The risk of a pattern's fix; unknown patterns are high risk.
pub open spec fn risk_of(p: Seq<char>) -> Seq<char> {
    if p == "missing_crate"@ || p == "compile_error"@ {
        "medium"@
    } else if p == "format_error"@ || p == "lint_error"@ || p == "rate_limit"@ {
        "low"@
    } else {
        "high"@
    }
}

/// Whether `a` is the fix of the known pattern `p`.
pub open spec fn is_pattern_action(p: Seq<char>, a: FixAction) -> bool {
    if p == "missing_crate"@ {
        a matches FixAction::InstallCrate { crate_name, features } && crate_name@.len() == 0
            && features@.len() == 0
    } else if p == "format_error"@ {
        a is FormatCode
    } else if p == "lint_error"@ {
        a is FixLints
    } else if p == "rate_limit"@ {
        a matches FixAction::WaitAndRetry { delay_secs } && delay_secs == 60
    } else if p == "auth_failure"@ {
        a matches FixAction::CheckEnvVar { var_name } && var_name@.len() == 0
    } else if p == "compile_error"@ {
        a matches FixAction::RestartWithContext { context } && context@ == "Fix the compile error"@
    } else {
        false
    }
}

/// One row of the pattern table is right.
pub open spec fn row_ok(row: (String, FixAction, String)) -> bool {
    is_pattern_action(row.0@, row.1) && row.2@ == risk_of(row.0@)
}

/// Known error patterns, their fixes and risk levels.
pub fn get_fix_patterns() -> (r: Vec<(String, FixAction, String)>)
    ensures
        r@.len() == 6,
        forall|i: int| 0 <= i < 6 ==> #[trigger] r@[i].0@ == pattern_names()[i] && row_ok(r@[i]),
{
    let mut v: Vec<(String, FixAction, String)> = Vec::new();
    v.push(
        (
            String::from_str("missing_crate"),
            FixAction::InstallCrate { crate_name: String::new(), features: Vec::new() },
            String::from_str("medium"),
        ),
    );
    v.push((String::from_str("format_error"), FixAction::FormatCode, String::from_str("low")));
    v.push((String::from_str("lint_error"), FixAction::FixLints, String::from_str("low")));
    v.push(
        (
            String::from_str("rate_limit"),
            FixAction::WaitAndRetry { delay_secs: 60 },
            String::from_str("low"),
        ),
    );
    v.push(
        (
            String::from_str("auth_failure"),
            FixAction::CheckEnvVar { var_name: String::new() },
            String::from_str("high"),
        ),
    );
    v.push(
        (
            String::from_str("compile_error"),
            FixAction::RestartWithContext { context: String::from_str("Fix the compile error") },
            String::from_str("medium"),
        ),
    );
    proof {
        reveal_strlit("missing_crate");
        reveal_strlit("format_error");
        reveal_strlit("lint_error");
        reveal_strlit("rate_limit");
        reveal_strlit("auth_failure");
        reveal_strlit("compile_error");
        reveal_strlit("medium");
        reveal_strlit("low");
        reveal_strlit("high");
        reveal_strlit("Fix the compile error");
        assert(row_ok(v@[0])) by {
            assert(v@[0].0@ == "missing_crate"@);
            assert("missing_crate"@ != "format_error"@) by {
                assert("missing_crate"@.len() != "format_error"@.len());
            }
            assert("missing_crate"@ != "lint_error"@) by {
                assert("missing_crate"@.len() != "lint_error"@.len());
            }
            assert("missing_crate"@ != "rate_limit"@) by {
                assert("missing_crate"@.len() != "rate_limit"@.len());
            }
            assert("missing_crate"@ != "auth_failure"@) by {
                assert("missing_crate"@.len() != "auth_failure"@.len());
            }
            assert("missing_crate"@ != "compile_error"@) by {
                assert("missing_crate"@[0] != "compile_error"@[0]);
            }
        }
        assert(row_ok(v@[1])) by {
            assert(v@[1].0@ == "format_error"@);
            assert("format_error"@ != "missing_crate"@) by {
                assert("format_error"@.len() != "missing_crate"@.len());
            }
            assert("format_error"@ != "lint_error"@) by {
                assert("format_error"@.len() != "lint_error"@.len());
            }
            assert("format_error"@ != "rate_limit"@) by {
                assert("format_error"@.len() != "rate_limit"@.len());
            }
            assert("format_error"@ != "auth_failure"@) by {
                assert("format_error"@[0] != "auth_failure"@[0]);
            }
            assert("format_error"@ != "compile_error"@) by {
                assert("format_error"@.len() != "compile_error"@.len());
            }
        }
        assert(row_ok(v@[2])) by {
            assert(v@[2].0@ == "lint_error"@);
            assert("lint_error"@ != "missing_crate"@) by {
                assert("lint_error"@.len() != "missing_crate"@.len());
            }
            assert("lint_error"@ != "format_error"@) by {
                assert("lint_error"@.len() != "format_error"@.len());
            }
            assert("lint_error"@ != "rate_limit"@) by {
                assert("lint_error"@[0] != "rate_limit"@[0]);
            }
            assert("lint_error"@ != "auth_failure"@) by {
                assert("lint_error"@.len() != "auth_failure"@.len());
            }
            assert("lint_error"@ != "compile_error"@) by {
                assert("lint_error"@.len() != "compile_error"@.len());
            }
        }
        assert(row_ok(v@[3])) by {
            assert(v@[3].0@ == "rate_limit"@);
            assert("rate_limit"@ != "missing_crate"@) by {
                assert("rate_limit"@.len() != "missing_crate"@.len());
            }
            assert("rate_limit"@ != "format_error"@) by {
                assert("rate_limit"@.len() != "format_error"@.len());
            }
            assert("rate_limit"@ != "lint_error"@) by {
                assert("rate_limit"@[0] != "lint_error"@[0]);
            }
            assert("rate_limit"@ != "auth_failure"@) by {
                assert("rate_limit"@.len() != "auth_failure"@.len());
            }
            assert("rate_limit"@ != "compile_error"@) by {
                assert("rate_limit"@.len() != "compile_error"@.len());
            }
        }
        assert(row_ok(v@[4])) by {
            assert(v@[4].0@ == "auth_failure"@);
            assert("auth_failure"@ != "missing_crate"@) by {
                assert("auth_failure"@.len() != "missing_crate"@.len());
            }
            assert("auth_failure"@ != "format_error"@) by {
                assert("auth_failure"@[0] != "format_error"@[0]);
            }
            assert("auth_failure"@ != "lint_error"@) by {
                assert("auth_failure"@.len() != "lint_error"@.len());
            }
            assert("auth_failure"@ != "rate_limit"@) by {
                assert("auth_failure"@.len() != "rate_limit"@.len());
            }
            assert("auth_failure"@ != "compile_error"@) by {
                assert("auth_failure"@.len() != "compile_error"@.len());
            }
        }
        assert(row_ok(v@[5])) by {
            assert(v@[5].0@ == "compile_error"@);
            assert("compile_error"@ != "missing_crate"@) by {
                assert("compile_error"@[0] != "missing_crate"@[0]);
            }
            assert("compile_error"@ != "format_error"@) by {
                assert("compile_error"@.len() != "format_error"@.len());
            }
            assert("compile_error"@ != "lint_error"@) by {
                assert("compile_error"@.len() != "lint_error"@.len());
            }
            assert("compile_error"@ != "rate_limit"@) by {
                assert("compile_error"@.len() != "rate_limit"@.len());
            }
            assert("compile_error"@ != "auth_failure"@) by {
                assert("compile_error"@.len() != "auth_failure"@.len());
            }
        }
    }
    v
}

proof fn lemma_same_action_pattern(p: Seq<char>, a: FixAction, b: FixAction)
    requires
        same_action(a, b),
        is_pattern_action(p, a),
    ensures
        is_pattern_action(p, b),
{
    match (a, b) {
        (
            FixAction::InstallCrate { crate_name: n1, features: f1 },
            FixAction::InstallCrate { crate_name: n2, features: f2 },
        ) => {
            assert(f1@.map_values(|s: String| s@).len() == f1@.len());
            assert(f2@.map_values(|s: String| s@).len() == f2@.len());
        },
        _ => {},
    }
}

pub(crate) fn copy_strings(v: &Vec<String>) -> (r: Vec<String>)
    ensures
        r@.map_values(|s: String| s@) == v@.map_values(|s: String| s@),
{
    let mut out: Vec<String> = Vec::new();
    let mut i: usize = 0;
    while i < v.len()
        invariant
            i <= v@.len(),
            out@.len() == i,
            forall|k: int| 0 <= k < i ==> #[trigger] out@[k]@ == v@[k]@,
        decreases v.len() - i,
    {
        out.push(v[i].clone());
        i = i + 1;
    }
    assert(out@.map_values(|s: String| s@) =~= v@.map_values(|s: String| s@));
    out
}

/// The strings of an action, by variant.
pub open spec fn same_action(a: FixAction, b: FixAction) -> bool {
    match (a, b) {
        (
            FixAction::InstallCrate { crate_name: n1, features: f1 },
            FixAction::InstallCrate { crate_name: n2, features: f2 },
        ) => n1@ == n2@ && f1@.map_values(|s: String| s@) == f2@.map_values(|s: String| s@),
        (FixAction::FormatCode, FixAction::FormatCode) => true,
        (FixAction::FixLints, FixAction::FixLints) => true,
        (FixAction::WaitAndRetry { delay_secs: d1 }, FixAction::WaitAndRetry { delay_secs: d2 }) => d1
            == d2,
        (FixAction::CheckEnvVar { var_name: a1 }, FixAction::CheckEnvVar { var_name: a2 }) => a1@
            == a2@,
        (
            FixAction::RestartWithContext { context: c1 },
            FixAction::RestartWithContext { context: c2 },
        ) => c1@ == c2@,
        (
            FixAction::RunCommand { command: c1, working_dir: w1 },
            FixAction::RunCommand { command: c2, working_dir: w2 },
        ) => c1@ == c2@ && match (w1, w2) {
            (Some(x), Some(y)) => x@ == y@,
            (None, None) => true,
            _ => false,
        },
        (FixAction::SendMessage { message: m1 }, FixAction::SendMessage { message: m2 }) => m1@
            == m2@,
        _ => false,
    }
}

fn copy_action(a: &FixAction) -> (r: FixAction)
    ensures
        same_action(*a, r),
{
    match a {
        FixAction::InstallCrate { crate_name, features } => FixAction::InstallCrate {
            crate_name: crate_name.clone(),
            features: copy_strings(features),
        },
        FixAction::FormatCode => FixAction::FormatCode,
        FixAction::FixLints => FixAction::FixLints,
        FixAction::WaitAndRetry { delay_secs } => FixAction::WaitAndRetry { delay_secs: *delay_secs },
        FixAction::CheckEnvVar { var_name } => FixAction::CheckEnvVar { var_name: var_name.clone() },
        FixAction::RestartWithContext { context } => FixAction::RestartWithContext {
            context: context.clone(),
        },
        FixAction::RunCommand { command, working_dir } => FixAction::RunCommand {
            command: command.clone(),
            working_dir: match working_dir {
                Some(w) => Some(w.clone()),
                None => None,
            },
        },
        FixAction::SendMessage { message } => FixAction::SendMessage { message: message.clone() },
    }
}

/// Auto-fixer for known error patterns
pub struct AutoFixer {
    patterns: Vec<(String, FixAction, String)>,
    max_retries: usize,
    retries: Vec<(String, usize)>,
}

impl AutoFixer {
    pub closed spec fn retry_ids(&self) -> Seq<Seq<char>> {
        self.retries@.map_values(|e: (String, usize)| e.0@)
    }

    /// The retry count recorded for a session; zero when none is.
    pub closed spec fn retry_count(&self, id: Seq<char>) -> usize {
        match index_of(self.retry_ids(), id) {
            Some(i) => self.retries@[i].1,
            None => 0,
        }
    }

    pub closed spec fn max_retries_spec(&self) -> usize {
        self.max_retries
    }

    /// The pattern table is the known one and retries are kept once per session.
    pub closed spec fn wf(&self) -> bool {
        &&& self.patterns@.len() == 6
        &&& forall|i: int|
            0 <= i < 6 ==> #[trigger] self.patterns@[i].0@ == pattern_names()[i] && row_ok(
                self.patterns@[i],
            )
        &&& unique(self.retry_ids())
    }

    /// Create a new auto-fixer
    pub fn new(max_retries: usize) -> (r: Self)
        ensures
            r.wf(),
            r.max_retries_spec() == max_retries,
            forall|id: Seq<char>| r.retry_count(id) == 0,
    {
        let r = AutoFixer { patterns: get_fix_patterns(), max_retries, retries: Vec::new() };
        assert(r.retry_ids() =~= Seq::<Seq<char>>::empty());
        r
    }

    fn find_pattern(&self, pattern: &str) -> (r: Option<usize>)
        requires
            self.wf(),
        ensures
            r matches Some(i) ==> i < 6 && pattern_names()[i as int] == pattern@,
            r is None ==> !known_pattern(pattern@),
    {
        let mut i: usize = 0;
        while i < self.patterns.len()
            invariant
                self.wf(),
                i <= 6,
                forall|k: int| 0 <= k < i ==> pattern_names()[k] != pattern@,
            decreases 6 - i,
        {
            if str_eq(self.patterns[i].0.as_str(), pattern) {
                return Some(i);
            }
            i = i + 1;
        }
        assert forall|k: int| 0 <= k < pattern_names().len() implies pattern_names()[k]
            != pattern@ by {}
        None
    }

    /// Check if an error pattern is auto-fixable
    pub fn is_auto_fixable(&self, pattern: &str) -> (r: bool)
        requires
            self.wf(),
        ensures
            r == known_pattern(pattern@),
    {
        self.find_pattern(pattern).is_some()
    }

    /// Get the fix action for a pattern
    pub fn get_fix_action(&self, pattern: &str) -> (r: Option<FixAction>)
        requires
            self.wf(),
        ensures
            r matches Some(a) ==> known_pattern(pattern@) && is_pattern_action(pattern@, a),
            r is None ==> !known_pattern(pattern@),
    {
        match self.find_pattern(pattern) {
            Some(i) => {
                let a = copy_action(&self.patterns[i].1);
                proof {
                    assert(row_ok(self.patterns@[i as int]));
                    lemma_same_action_pattern(pattern@, self.patterns@[i as int].1, a);
                    assert(pattern_names().contains(pattern@)) by {
                        assert(pattern_names()[i as int] == pattern@);
                    }
                }
                Some(a)
            },
            None => None,
        }
    }

    /// Get the risk level for a pattern
    pub fn get_risk_level(&self, pattern: &str) -> (r: &str)
        requires
            self.wf(),
        ensures
            r@ == risk_of(pattern@),
    {
        match self.find_pattern(pattern) {
            Some(i) => {
                proof {
                    assert(row_ok(self.patterns@[i as int]));
                }
                self.patterns[i].2.as_str()
            },
            None => {
                proof {
                    reveal_strlit("high");
                    assert(!pattern_names().contains(pattern@));
                    assert(pattern_names()[0] != pattern@);
                    assert(pattern_names()[1] != pattern@);
                    assert(pattern_names()[2] != pattern@);
                    assert(pattern_names()[3] != pattern@);
                    assert(pattern_names()[4] != pattern@);
                    assert(pattern_names()[5] != pattern@);
                }
                "high"
            },
        }
    }

    fn find_retry(&self, session_id: &str) -> (r: Option<usize>)
        ensures
            r matches Some(i) ==> index_of(self.retry_ids(), session_id@) == Some(i as int) && i
                < self.retries@.len(),
            r is None ==> index_of(self.retry_ids(), session_id@) is None,
    {
        proof {
            crate::skills::detector::lemma_index_of(self.retry_ids(), session_id@);
        }
        let mut i: usize = 0;
        while i < self.retries.len()
            invariant
                i <= self.retries@.len(),
                forall|k: int| 0 <= k < i ==> self.retry_ids()[k] != session_id@,
            decreases self.retries.len() - i,
        {
            if str_eq(self.retries[i].0.as_str(), session_id) {
                proof {
                    crate::skills::detector::lemma_index_of(self.retry_ids(), session_id@);
                    assert(self.retry_ids()[i as int] == session_id@);
                }
                return Some(i);
            }
            i = i + 1;
        }
        None
    }

    /// Record a retry attempt for a session; false once the attempts exceed the maximum.
    pub fn record_retry(&mut self, session_id: &str) -> (r: bool)
        requires
            old(self).wf(),
            old(self).retry_count(session_id@) < usize::MAX,
        ensures
            final(self).wf(),
            final(self).max_retries_spec() == old(self).max_retries_spec(),
            (final(self).retry_count(session_id@) as int, r) == retry_step(
                old(self).retry_count(session_id@) as int,
                old(self).max_retries_spec() as int,
            ),
            forall|other: Seq<char>|
                other != session_id@ ==> final(self).retry_count(other) == old(self).retry_count(
                    other,
                ),
    {
        let ghost ids0 = self.retry_ids();
        proof {
            crate::skills::detector::lemma_index_of(ids0, session_id@);
        }
        let count = match self.find_retry(session_id) {
            Some(i) => {
                let c = self.retries[i].1 + 1;
                let id = self.retries[i].0.clone();
                self.retries.set(i, (id, c));
                proof {
                    assert(self.retry_ids() =~= ids0);
                    assert forall|other: Seq<char>| other != session_id@ implies #[trigger] self.retry_count(
                        other,
                    ) == old(self).retry_count(other) by {
                        crate::skills::detector::lemma_index_of(ids0, other);
                    }
                }
                c
            },
            None => {
                self.retries.push((String::from_str(session_id), 1));
                proof {
                    assert(self.retry_ids() =~= ids0.push(session_id@));
                    assert(self.retry_ids().drop_last() =~= ids0);
                    assert forall|other: Seq<char>| other != session_id@ implies #[trigger] self.retry_count(
                        other,
                    ) == old(self).retry_count(other) by {
                        crate::skills::detector::lemma_index_of(ids0, other);
                    }
                }
                1
            },
        };
        count <= self.max_retries
    }

    /// Get retry count for a session
    pub fn get_retry_count(&self, session_id: &str) -> (r: usize)
        ensures
            r == self.retry_count(session_id@),
    {
        match self.find_retry(session_id) {
            Some(i) => self.retries[i].1,
            None => 0,
        }
    }

    /// Reset retry count for a session
    pub fn reset_retries(&mut self, session_id: &str)
        requires
            old(self).wf(),
        ensures
            final(self).wf(),
            final(self).max_retries_spec() == old(self).max_retries_spec(),
            final(self).retry_count(session_id@) == 0,
            forall|other: Seq<char>|
                other != session_id@ ==> final(self).retry_count(other) == old(self).retry_count(
                    other,
                ),
    {
        match self.find_retry(session_id) {
            None => {},
            Some(i) => {
                let ghost ids1 = self.retry_ids();
                let ghost s1 = self.retries@;
                self.retries.remove(i);
                proof {
                    assert(self.retry_ids() =~= ids1.remove(i as int));
                    crate::skills::detector::lemma_index_of(ids1, session_id@);
                    assert forall|a: int, b: int| 0 <= a < b < self.retry_ids().len() implies self.retry_ids()[a]
                        != self.retry_ids()[b] by {
                        let a1 = if a < i { a } else { a + 1 };
                        let b1 = if b < i { b } else { b + 1 };
                        assert(self.retry_ids()[a] == ids1[a1]);
                        assert(self.retry_ids()[b] == ids1[b1]);
                    }
                    crate::skills::detector::lemma_index_of(self.retry_ids(), session_id@);
                    if index_of(self.retry_ids(), session_id@) is Some {
                        let k = index_of(self.retry_ids(), session_id@)->0;
                        let k1 = if k < i { k } else { k + 1 };
                        assert(self.retry_ids()[k] == ids1[k1]);
                    }
                    assert forall|other: Seq<char>| other != session_id@ implies #[trigger] self.retry_count(
                        other,
                    ) == old(self).retry_count(other) by {
                        crate::skills::detector::lemma_index_of(ids1, other);
                        crate::skills::detector::lemma_index_of(self.retry_ids(), other);
                        match index_of(self.retry_ids(), other) {
                            Some(k) => {
                                let k1 = if k < i { k } else { k + 1 };
                                assert(self.retry_ids()[k] == ids1[k1]);
                                assert(self.retries@[k] == s1[k1]);
                                crate::skills::detector::lemma_index_unique(ids1, other, k1);
                            },
                            None => {
                                match index_of(ids1, other) {
                                    Some(j) => {
                                        let j1 = if j < i { j } else { j - 1 };
                                        assert(self.retry_ids()[j1] == ids1[j]);
                                    },
                                    None => {},
                                }
                            },
                        }
                    }
                }
            },
        }
    }
}


/// What the regular-expression engine captures as group `group` of the first
/// match of `pattern` in `haystack`.
pub uninterp spec fn regex_capture_spec(pattern: Seq<char>, haystack: Seq<char>, group: nat) -> Option<
    Seq<char>,
>;

/// The text of capture group `group` in the first match of `pattern` in `haystack`.
/// Trusted: compiles the pattern with `regex::Regex::new` and reads the group
/// with `Regex::captures`, `Captures::get` and `Match::as_str`. The result
/// depends on the pattern, the haystack and the group alone, and is named by
/// `regex_capture_spec`; a pattern that does not compile gives none, which
/// the library's constant patterns never do.
#[verifier::external_body]
pub(crate) fn regex_capture(pattern: &str, haystack: &str, group: usize) -> (r: Option<String>)
    ensures
        r matches Some(t) ==> regex_capture_spec(pattern@, haystack@, group as nat) == Some(t@),
        r is None ==> regex_capture_spec(pattern@, haystack@, group as nat) is None,
{
    match regex::Regex::new(pattern) {
        Ok(re) => match re.captures(haystack) {
            Some(caps) => match caps.get(group) {
                Some(m) => Some(m.as_str().to_string()),
                None => None,
            },
            None => None,
        },
        Err(_) => None,
    }
}

/// The pattern of a missing crate.
pub open spec fn missing_crate_pattern() -> Seq<char> {
    "cannot find crate [`'](\\w+)[`']"@
}

/// The pattern of an unresolved import.
pub open spec fn unresolved_import_pattern() -> Seq<char> {
    "unresolved import [`']([\\w:]+)[`']"@
}

/// The pattern of an unset variable.
pub open spec fn unset_var_pattern() -> Seq<char> {
    "([A-Z_]{3,})\\s+is not set"@
}

/// The pattern of a missing variable.
pub open spec fn missing_var_pattern() -> Seq<char> {
    "environment variable[:\\s]+([A-Z_]{3,})"@
}

/// The crate an error names: the crate that was not found, else the first
/// segment of the unresolved import path.
pub open spec fn crate_name_spec(found: Option<Seq<char>>, import_path: Option<Seq<char>>) -> Option<
    Seq<char>,
> {
    match found {
        Some(c) => Some(c),
        None => match import_path {
            Some(p) => Some(before_first(p, "::"@)),
            None => None,
        },
    }
}

/// The crate an error names, from the captures of the two patterns.
pub fn crate_name_from(found: Option<&str>, import_path: Option<&str>) -> (r: Option<String>)
    ensures
        r matches Some(c) ==> crate_name_spec(
            match found {
                Some(f) => Some(f@),
                None => None,
            },
            match import_path {
                Some(p) => Some(p@),
                None => None,
            },
        ) == Some(c@),
        r is None ==> crate_name_spec(
            match found {
                Some(f) => Some(f@),
                None => None,
            },
            match import_path {
                Some(p) => Some(p@),
                None => None,
            },
        ) is None,
{
    match found {
        Some(c) => Some(String::from_str(c)),
        None => match import_path {
            Some(p) => {
                let pc = chars_of(p);
                let sep = chars_of("::");
                let head = before_first_exec(&pc, &sep);
                Some(string_of(&head))
            },
            None => None,
        },
    }
}

/// Extract crate name from error message
pub fn extract_crate_name(error: &str) -> (r: Option<String>)
    ensures
        r matches Some(c) ==> crate_name_spec(
            regex_capture_spec(missing_crate_pattern(), error@, 1),
            regex_capture_spec(unresolved_import_pattern(), error@, 1),
        ) == Some(c@),
        r is None ==> crate_name_spec(
            regex_capture_spec(missing_crate_pattern(), error@, 1),
            regex_capture_spec(unresolved_import_pattern(), error@, 1),
        ) is None,
{
    let found = regex_capture("cannot find crate [`'](\\w+)[`']", error, 1);
    let import_path = regex_capture("unresolved import [`']([\\w:]+)[`']", error, 1);
    let f = match &found {
        Some(x) => Some(x.as_str()),
        None => None,
    };
    let p = match &import_path {
        Some(x) => Some(x.as_str()),
        None => None,
    };
    crate_name_from(f, p)
}

/// The variable an error names: the unset one, else the missing one.
pub open spec fn env_var_spec(unset: Option<Seq<char>>, missing: Option<Seq<char>>) -> Option<Seq<char>> {
    match unset {
        Some(v) => Some(v),
        None => missing,
    }
}

/// Extract environment variable name from error message
pub fn extract_env_var(error: &str) -> (r: Option<String>)
    ensures
        r matches Some(v) ==> env_var_spec(
            regex_capture_spec(unset_var_pattern(), error@, 1),
            regex_capture_spec(missing_var_pattern(), error@, 1),
        ) == Some(v@),
        r is None ==> env_var_spec(
            regex_capture_spec(unset_var_pattern(), error@, 1),
            regex_capture_spec(missing_var_pattern(), error@, 1),
        ) is None,
{
    match regex_capture("([A-Z_]{3,})\\s+is not set", error, 1) {
        Some(v) => Some(v),
        None => regex_capture("environment variable[:\\s]+([A-Z_]{3,})", error, 1),
    }
}

/// The program a fix runs.
#[derive(Debug, Clone, Copy, PartialEq, Eq)]
pub enum FixCommand {
    InstallCrate,
    Format,
    Clippy,
    Shell,
}

/// How a fix is carried out.
#[derive(Debug, Clone)]
pub enum FixPlan {
    /// The fix needs no work: this is its result.
    Done(FixResult),
    /// Run a program and read its outcome.
    Run { kind: FixCommand, program: String, args: Vec<String>, working_dir: Option<String> },
    /// Wait, then report readiness.
    Wait { delay_secs: u64 },
}

/// `r` succeeded with the message `m`.
pub open spec fn succeeded_with(r: FixResult, m: Seq<char>) -> bool {
    r matches FixResult::Success(x) && x@ == m
}

/// `r` failed with the message `m`.
pub open spec fn failed_with(r: FixResult, m: Seq<char>) -> bool {
    r matches FixResult::Failed(x) && x@ == m
}

/// The views of a list of strings.
pub open spec fn strs(v: Seq<String>) -> Seq<Seq<char>> {
    v.map_values(|s: String| s@)
}

/// The arguments that install a crate with its features.
pub open spec fn install_args(name: Seq<char>, features: Seq<Seq<char>>) -> Seq<Seq<char>> {
    seq!["add"@, name] + if features.len() > 0 {
        seq!["--features"@, join(features, ","@)]
    } else {
        Seq::empty()
    }
}

/// How each fix is carried out.
pub open spec fn plan_ok(a: FixAction, p: FixPlan) -> bool {
    match a {
        FixAction::InstallCrate { crate_name, features } => if crate_name@.len() == 0 {
            p matches FixPlan::Done(r) && failed_with(r, "No crate name specified"@)
        } else {
            p matches FixPlan::Run { kind, program, args, working_dir } && kind
                == FixCommand::InstallCrate && program@ == "cargo"@ && strs(args@) == install_args(
                crate_name@,
                strs(features@),
            ) && working_dir is None
        },
        FixAction::FormatCode => p matches FixPlan::Run { kind, program, args, working_dir } && kind
            == FixCommand::Format && program@ == "cargo"@ && strs(args@) == seq![
            "fmt"@,
            "--all"@,
        ] && working_dir is None,
        FixAction::FixLints => p matches FixPlan::Run { kind, program, args, working_dir } && kind
            == FixCommand::Clippy && program@ == "cargo"@ && strs(args@) == seq![
            "clippy"@,
            "--fix"@,
            "--allow-dirty"@,
            "--allow-staged"@,
        ] && working_dir is None,
        FixAction::WaitAndRetry { delay_secs } => p matches FixPlan::Wait { delay_secs: d } && d
            == delay_secs,
        FixAction::CheckEnvVar { var_name } => p matches FixPlan::Done(r) && failed_with(
            r,
            "Missing environment variable: "@ + var_name@ + ". Please set it and restart."@,
        ),
        FixAction::RestartWithContext { .. } => p matches FixPlan::Done(r) && succeeded_with(
            r,
            "Agent restart requested"@,
        ),
        FixAction::RunCommand { command, working_dir } => p matches FixPlan::Run {
            kind,
            program,
            args,
            working_dir: w,
        } && kind == FixCommand::Shell && program@ == "sh"@ && strs(args@) == seq![
            "-c"@,
            command@,
        ] && match (working_dir, w) {
            (Some(x), Some(y)) => x@ == y@,
            (None, None) => true,
            _ => false,
        },
        FixAction::SendMessage { .. } => p matches FixPlan::Done(r) && succeeded_with(
            r,
            "Message sent"@,
        ),
    }
}

fn strings2(a: &str, b: &str) -> (r: Vec<String>)
    ensures
        strs(r@) == seq![a@, b@],
{
    let mut v: Vec<String> = Vec::new();
    v.push(String::from_str(a));
    v.push(String::from_str(b));
    assert(strs(v@) =~= seq![a@, b@]);
    v
}

/// How a fix is carried out.
pub fn plan_fix(action: &FixAction) -> (r: FixPlan)
    ensures
        plan_ok(*action, r),
{
    match action {
        FixAction::InstallCrate { crate_name, features } => {
            if crate_name.as_str().unicode_len() == 0 {
                return FixPlan::Done(FixResult::Failed(String::from_str("No crate name specified")));
            }
            let mut args = strings2("add", crate_name.as_str());
            if features.len() > 0 {
                let mut fv: Vec<Vec<char>> = Vec::new();
                let mut i: usize = 0;
                while i < features.len()
                    invariant
                        i <= features@.len(),
                        fv@.len() == i,
                        views(fv@) == strs(features@).take(i as int),
                    decreases features.len() - i,
                {
                    let c = chars_of(features[i].as_str());
                    let ghost before = fv@;
                    fv.push(c);
                    assert forall|k: int| 0 <= k < i + 1 implies #[trigger] views(fv@)[k]
                        == strs(features@).take(i + 1)[k] by {
                        if k < i {
                            assert(fv@[k] == before[k]);
                            assert(views(before)[k] == strs(features@).take(i as int)[k]);
                        }
                    }
                    assert(views(fv@) =~= strs(features@).take(i + 1));
                    i = i + 1;
                }
                assert(strs(features@).take(features@.len() as int) =~= strs(features@));
                let comma = chars_of(",");
                let joined = join_exec(&fv, &comma);
                let ghost before = strs(args@);
                args.push(String::from_str("--features"));
                args.push(string_of(&joined));
                assert(strs(args@) =~= before + seq!["--features"@, join(strs(features@), ","@)]);
            } else {
                assert(strs(args@) =~= strs(args@) + Seq::<Seq<char>>::empty());
            }
            FixPlan::Run {
                kind: FixCommand::InstallCrate,
                program: String::from_str("cargo"),
                args,
                working_dir: None,
            }
        },
        FixAction::FormatCode => FixPlan::Run {
            kind: FixCommand::Format,
            program: String::from_str("cargo"),
            args: strings2("fmt", "--all"),
            working_dir: None,
        },
        FixAction::FixLints => {
            let mut args = strings2("clippy", "--fix");
            let ghost before = strs(args@);
            args.push(String::from_str("--allow-dirty"));
            args.push(String::from_str("--allow-staged"));
            assert(strs(args@) =~= before.push("--allow-dirty"@).push("--allow-staged"@));
            assert(before =~= seq!["clippy"@, "--fix"@]);
            assert(strs(args@) =~= seq!["clippy"@, "--fix"@, "--allow-dirty"@, "--allow-staged"@]);
            FixPlan::Run {
                kind: FixCommand::Clippy,
                program: String::from_str("cargo"),
                args,
                working_dir: None,
            }
        },
        FixAction::WaitAndRetry { delay_secs } => FixPlan::Wait { delay_secs: *delay_secs },
        FixAction::CheckEnvVar { var_name } => {
            let mut v: Vec<char> = Vec::new();
            push_str(&mut v, "Missing environment variable: ");
            push_str(&mut v, var_name.as_str());
            push_str(&mut v, ". Please set it and restart.");
            FixPlan::Done(FixResult::Failed(string_of(&v)))
        },
        FixAction::RestartWithContext { .. } => FixPlan::Done(
            FixResult::Success(String::from_str("Agent restart requested")),
        ),
        FixAction::RunCommand { command, working_dir } => FixPlan::Run {
            kind: FixCommand::Shell,
            program: String::from_str("sh"),
            args: strings2("-c", command.as_str()),
            working_dir: match working_dir {
                Some(w) => Some(w.clone()),
                None => None,
            },
        },
        FixAction::SendMessage { .. } => FixPlan::Done(
            FixResult::Success(String::from_str("Message sent")),
        ),
    }
}

/// How a fix's program ended.
#[derive(Debug, Clone)]
pub enum CommandOutcome {
    /// The program could not be started; the error as text.
    SpawnFailed(String),
    /// The program ran: whether it succeeded, and its output as text.
    Exited { success: bool, stdout: String, stderr: String },
}

/// The result of a fix's program.
pub open spec fn outcome_ok(kind: FixCommand, crate_name: Seq<char>, o: CommandOutcome, r: FixResult) -> bool {
    match o {
        CommandOutcome::SpawnFailed(e) => failed_with(
            r,
            match kind {
                FixCommand::InstallCrate => "Failed to run cargo: "@,
                FixCommand::Format => "Failed to run cargo fmt: "@,
                FixCommand::Clippy => "Failed to run clippy: "@,
                FixCommand::Shell => "Failed to run command: "@,
            } + e@,
        ),
        CommandOutcome::Exited { success, stdout, stderr } => if success {
            succeeded_with(
                r,
                match kind {
                    FixCommand::InstallCrate => "Installed crate: "@ + crate_name,
                    FixCommand::Format => "Code formatted"@,
                    FixCommand::Clippy => "Lints fixed"@,
                    FixCommand::Shell => "Command succeeded: "@ + trim(stdout@),
                },
            )
        } else {
            match kind {
                FixCommand::InstallCrate => failed_with(
                    r,
                    "Failed to install "@ + crate_name + ": "@ + stderr@,
                ),
                FixCommand::Format => failed_with(r, "Format failed: "@ + stderr@),
                FixCommand::Clippy => if contains(stderr@, "warning:"@) {
                    succeeded_with(r, "Some lints fixed"@)
                } else {
                    failed_with(r, "Clippy fix failed: "@ + stderr@)
                },
                FixCommand::Shell => failed_with(r, "Command failed: "@ + stderr@),
            }
        },
    }
}

fn concat2(a: &str, b: &str) -> (r: String)
    ensures
        r@ == a@ + b@,
{
    let mut v: Vec<char> = Vec::new();
    push_str(&mut v, a);
    push_str(&mut v, b);
    string_of(&v)
}

/// The result of a fix's program, from how it ended.
pub fn fix_outcome(kind: FixCommand, crate_name: &str, outcome: CommandOutcome) -> (r: FixResult)
    ensures
        outcome_ok(kind, crate_name@, outcome, r),
{
    match outcome {
        CommandOutcome::SpawnFailed(e) => {
            let prefix = match kind {
                FixCommand::InstallCrate => "Failed to run cargo: ",
                FixCommand::Format => "Failed to run cargo fmt: ",
                FixCommand::Clippy => "Failed to run clippy: ",
                FixCommand::Shell => "Failed to run command: ",
            };
            FixResult::Failed(concat2(prefix, e.as_str()))
        },
        CommandOutcome::Exited { success, stdout, stderr } => {
            if success {
                match kind {
                    FixCommand::InstallCrate => FixResult::Success(
                        concat2("Installed crate: ", crate_name),
                    ),
                    FixCommand::Format => FixResult::Success(String::from_str("Code formatted")),
                    FixCommand::Clippy => FixResult::Success(String::from_str("Lints fixed")),
                    FixCommand::Shell => {
                        let c = chars_of(stdout.as_str());
                        let t = trim_exec(&c);
                        let ts = string_of(&t);
                        FixResult::Success(concat2("Command succeeded: ", ts.as_str()))
                    },
                }
            } else {
                match kind {
                    FixCommand::InstallCrate => {
                        let mut v: Vec<char> = Vec::new();
                        push_str(&mut v, "Failed to install ");
                        push_str(&mut v, crate_name);
                        push_str(&mut v, ": ");
                        push_str(&mut v, stderr.as_str());
                        FixResult::Failed(string_of(&v))
                    },
                    FixCommand::Format => FixResult::Failed(
                        concat2("Format failed: ", stderr.as_str()),
                    ),
                    FixCommand::Clippy => {
                        let c = chars_of(stderr.as_str());
                        let w = chars_of("warning:");
                        if contains_exec(&c, &w) {
                            FixResult::Success(String::from_str("Some lints fixed"))
                        } else {
                            FixResult::Failed(concat2("Clippy fix failed: ", stderr.as_str()))
                        }
                    },
                    FixCommand::Shell => FixResult::Failed(
                        concat2("Command failed: ", stderr.as_str()),
                    ),
                }
            }
        },
    }
}

/// The result of waiting before a retry.
pub fn wait_outcome(delay_secs: u64) -> (r: FixResult)
    ensures
        succeeded_with(r, "Waited "@ + decimal(delay_secs as nat) + " seconds, ready to retry"@),
{
    let mut v: Vec<char> = Vec::new();
    push_str(&mut v, "Waited ");
    let d = decimal_exec(delay_secs);
    append_chars(&mut v, &d);
    push_str(&mut v, " seconds, ready to retry");
    FixResult::Success(string_of(&v))
}

/// One recorded retry: the count grows by one, and the retry is allowed
/// while the count stays within the maximum.
pub open spec fn retry_step(count: int, max: int) -> (int, bool) {
    (count + 1, count + 1 <= max)
}

/// The retry count after `k` more retries.
pub open spec fn retry_run(count: int, max: int, k: nat) -> int
    decreases k,
{
    if k == 0 {
        count
    } else {
        retry_step(retry_run(count, max, (k - 1) as nat), max).0
    }
}

/// Law: after a reset the count is the number of retries since, and exactly
/// the first `max` of them are allowed.
pub proof fn law_retry_counting(max: int, k: nat)
    ensures
        retry_run(0, max, k) == k,
        retry_step(retry_run(0, max, k), max).1 <==> k < max,
    decreases k,
{
    if k > 0 {
        law_retry_counting(max, (k - 1) as nat);
    }
}

} // verus!
