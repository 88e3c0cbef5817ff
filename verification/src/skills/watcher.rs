//! What the agent watcher reads from the files it watches: the state file of
//! a session, and error and tool-call lines of its logs.
use vstd::prelude::*;
use std::hash::{Hash, Hasher};
use crate::text::{
    chars_of, contains, contains_exec, has_prefix, lines, lines_exec, lowercase, lowercase_exec,
    split, split_exec, starts_with, string_of, trim, trim_exec, views, ends_with, has_suffix,
    push_str,
};

verus! {

/// Events emitted by the watcher
#[derive(Debug, Clone)]
pub enum WatcherEvent {
    /// Agent state changed
    StateChanged { session_id: String, phase: String, detail: String },
    /// Error detected in logs
    ErrorDetected { session_id: String, error: String, pattern: String },
    /// Tool call recorded
    ToolCall { session_id: String, tool: String, args_hash: u64 },
    /// No activity timeout
    Timeout { session_id: String },
}

/// File path patterns for different agent types
#[derive(Debug, Clone)]
pub struct AgentPaths {
    /// State file (e.g., .gsd/STATE.md)
    pub state_file: String,
    /// Runtime log directory (e.g., .gsd/runtime/)
    pub runtime_dir: String,
    /// Activity log files (JSONL)
    pub activity_logs: Vec<String>,
}

/// GSD state parsed from STATE.md
#[derive(Debug, Clone, Default)]
pub struct GsdState {
    pub status: String,
    pub phase: String,
    pub milestone: String,
    pub slice: String,
    pub task: String,
    pub updated: String,
}

/// The line prefixes of the state file's fields, in the order they are tested.
pub open spec fn gsd_prefix(k: int) -> Seq<char> {
    if k == 0 {
        "Status:"@
    } else if k == 1 {
        "Phase:"@
    } else if k == 2 {
        "Milestone:"@
    } else if k == 3 {
        "Slice:"@
    } else if k == 4 {
        "Task:"@
    } else {
        "Updated:"@
    }
}

/// The field a trimmed line sets: the first prefix it starts with; 6 for none.
pub open spec fn line_key(t: Seq<char>) -> int {
    if has_prefix(t, gsd_prefix(0)) {
        0
    } else if has_prefix(t, gsd_prefix(1)) {
        1
    } else if has_prefix(t, gsd_prefix(2)) {
        2
    } else if has_prefix(t, gsd_prefix(3)) {
        3
    } else if has_prefix(t, gsd_prefix(4)) {
        4
    } else if has_prefix(t, gsd_prefix(5)) {
        5
    } else {
        6
    }
}

/// The value a line gives its field: the text between its first and second colon, trimmed.
pub open spec fn field_value(t: Seq<char>) -> Seq<char> {
    let ps = split(t, seq![':']);
    if ps.len() >= 2 {
        trim(ps[1])
    } else {
        Seq::empty()
    }
}

/// The value of field `k`: given by the last line that sets it, empty if none does.
pub open spec fn last_field(ls: Seq<Seq<char>>, k: int) -> Seq<char>
    decreases ls.len(),
{
    if ls.len() == 0 {
        Seq::empty()
    } else if line_key(trim(ls.last())) == k {
        field_value(trim(ls.last()))
    } else {
        last_field(ls.drop_last(), k)
    }
}

fn prefix_chars(k: u8) -> (r: Vec<char>)
    requires
        k < 6,
    ensures
        r@ == gsd_prefix(k as int),
{
    if k == 0 {
        chars_of("Status:")
    } else if k == 1 {
        chars_of("Phase:")
    } else if k == 2 {
        chars_of("Milestone:")
    } else if k == 3 {
        chars_of("Slice:")
    } else if k == 4 {
        chars_of("Task:")
    } else {
        chars_of("Updated:")
    }
}

fn key_of(t: &Vec<char>) -> (r: u8)
    ensures
        r as int == line_key(t@),
{
    let mut k: u8 = 0;
    while k < 6
        invariant
            k <= 6,
            forall|j: int| 0 <= j < k ==> !has_prefix(t@, #[trigger] gsd_prefix(j)),
        decreases 6 - k,
    {
        let p = prefix_chars(k);
        if starts_with(t, &p) {
            return k;
        }
        k = k + 1;
    }
    assert(!has_prefix(t@, gsd_prefix(0)));
    assert(!has_prefix(t@, gsd_prefix(5)));
    6
}

fn value_of(t: &Vec<char>) -> (r: Vec<char>)
    ensures
        r@ == field_value(t@),
{
    let colon = vec![':'];
    assert(colon@ == seq![':']);
    let ps = split_exec(t, &colon);
    if ps.len() >= 2 {
        assert(views(ps@)[1] == ps@[1]@);
        trim_exec(&ps[1])
    } else {
        Vec::new()
    }
}

/// Parse a GSD STATE.md file: `Status:`, `Phase:`, `Milestone:`, `Slice:`,
/// `Task:` and `Updated:` lines set their fields; a later line wins.
pub fn parse_gsd_state(content: &str) -> (r: Option<GsdState>)
    ensures
        r matches Some(s) && s.status@ == last_field(lines(content@), 0) && s.phase@ == last_field(
            lines(content@),
            1,
        ) && s.milestone@ == last_field(lines(content@), 2) && s.slice@ == last_field(
            lines(content@),
            3,
        ) && s.task@ == last_field(lines(content@), 4) && s.updated@ == last_field(
            lines(content@),
            5,
        ),
{
    let c = chars_of(content);
    let ls = lines_exec(&c);
    let ghost lv = views(ls@);
    let mut f0: Vec<char> = Vec::new();
    let mut f1: Vec<char> = Vec::new();
    let mut f2: Vec<char> = Vec::new();
    let mut f3: Vec<char> = Vec::new();
    let mut f4: Vec<char> = Vec::new();
    let mut f5: Vec<char> = Vec::new();
    let mut i: usize = 0;
    while i < ls.len()
        invariant
            i <= ls@.len(),
            lv == views(ls@),
            f0@ == last_field(lv.take(i as int), 0),
            f1@ == last_field(lv.take(i as int), 1),
            f2@ == last_field(lv.take(i as int), 2),
            f3@ == last_field(lv.take(i as int), 3),
            f4@ == last_field(lv.take(i as int), 4),
            f5@ == last_field(lv.take(i as int), 5),
        decreases ls.len() - i,
    {
        let t = trim_exec(&ls[i]);
        let ghost pre = lv.take(i as int);
        assert(lv.take(i + 1).drop_last() =~= pre);
        assert(lv.take(i + 1).last() == ls@[i as int]@);
        let k = key_of(&t);
        if k == 0 {
            f0 = value_of(&t);
        } else if k == 1 {
            f1 = value_of(&t);
        } else if k == 2 {
            f2 = value_of(&t);
        } else if k == 3 {
            f3 = value_of(&t);
        } else if k == 4 {
            f4 = value_of(&t);
        } else if k == 5 {
            f5 = value_of(&t);
        }
        i = i + 1;
    }
    assert(lv.take(ls@.len() as int) =~= lv);
    Some(
        GsdState {
            status: string_of(&f0),
            phase: string_of(&f1),
            milestone: string_of(&f2),
            slice: string_of(&f3),
            task: string_of(&f4),
            updated: string_of(&f5),
        },
    )
}

/// The pattern name of an error already in lower case, tested in order.
pub open spec fn classify_lowered_spec(l: Seq<char>) -> Seq<char> {
    if contains(l, "cannot find crate"@) || contains(l, "unresolved import"@) {
        "missing_crate"@
    } else if contains(l, "error[e0"@) {
        "compile_error"@
    } else if contains(l, "rate limit"@) || contains(l, "429"@) {
        "rate_limit"@
    } else if contains(l, "unauthorized"@) || contains(l, "401"@) {
        "auth_failure"@
    } else if contains(l, "fmt"@) || contains(l, "format"@) {
        "format_error"@
    } else if contains(l, "clippy"@) {
        "lint_error"@
    } else {
        "unknown"@
    }
}

/// Law: an error is classified as a missing crate exactly when its
/// lower-case text mentions a crate that cannot be found or an unresolved
/// import; those two phrases win over every other pattern.
pub proof fn law_missing_crate(l: Seq<char>)
    ensures
        classify_lowered_spec(l) == "missing_crate"@ <==> (contains(l, "cannot find crate"@)
            || contains(l, "unresolved import"@)),
        contains(l, "unresolved import"@) ==> classify_lowered_spec(l) == "missing_crate"@,
        contains(l, "cannot find crate"@) ==> classify_lowered_spec(l) == "missing_crate"@,
{
    reveal_strlit("missing_crate");
    reveal_strlit("compile_error");
    reveal_strlit("rate_limit");
    reveal_strlit("auth_failure");
    reveal_strlit("format_error");
    reveal_strlit("lint_error");
    reveal_strlit("unknown");
    let m = "missing_crate"@;
    assert(m[0] == 'm');
    assert(m != "compile_error"@) by { assert("compile_error"@[0] == 'c'); }
    assert(m != "rate_limit"@) by { assert("rate_limit"@[0] == 'r'); }
    assert(m != "auth_failure"@) by { assert("auth_failure"@[0] == 'a'); }
    assert(m != "format_error"@) by { assert("format_error"@[0] == 'f'); }
    assert(m != "lint_error"@) by { assert("lint_error"@[0] == 'l'); }
    assert(m != "unknown"@) by { assert("unknown"@[0] == 'u'); }
}

/// A lower-case error names a missing crate.
pub open spec fn names_missing_crate(l: Seq<char>) -> bool {
    contains(l, "cannot find crate"@) || contains(l, "unresolved import"@)
}

/// A lower-case error carries a compiler error code.
pub open spec fn names_compile_error(l: Seq<char>) -> bool {
    contains(l, "error[e0"@)
}

/// A lower-case error reports a rate limit.
pub open spec fn names_rate_limit(l: Seq<char>) -> bool {
    contains(l, "rate limit"@) || contains(l, "429"@)
}

/// A lower-case error reports refused credentials.
pub open spec fn names_auth_failure(l: Seq<char>) -> bool {
    contains(l, "unauthorized"@) || contains(l, "401"@)
}

/// A lower-case error concerns formatting.
pub open spec fn names_format_error(l: Seq<char>) -> bool {
    contains(l, "fmt"@) || contains(l, "format"@)
}

/// Law: each pattern is chosen exactly when the error names it and none of
/// the patterns that take precedence (missing crate, compile error, rate
/// limit, authentication, formatting, lint); an error naming none of them is
/// unknown.
pub proof fn law_error_classes(l: Seq<char>)
    ensures
        classify_lowered_spec(l) == "compile_error"@ <==> (!names_missing_crate(l)
            && names_compile_error(l)),
        classify_lowered_spec(l) == "rate_limit"@ <==> (!names_missing_crate(l)
            && !names_compile_error(l) && names_rate_limit(l)),
        classify_lowered_spec(l) == "auth_failure"@ <==> (!names_missing_crate(l)
            && !names_compile_error(l) && !names_rate_limit(l) && names_auth_failure(l)),
        classify_lowered_spec(l) == "format_error"@ <==> (!names_missing_crate(l)
            && !names_compile_error(l) && !names_rate_limit(l) && !names_auth_failure(l)
            && names_format_error(l)),
        classify_lowered_spec(l) == "lint_error"@ <==> (!names_missing_crate(l)
            && !names_compile_error(l) && !names_rate_limit(l) && !names_auth_failure(l)
            && !names_format_error(l) && contains(l, "clippy"@)),
        classify_lowered_spec(l) == "unknown"@ <==> (!names_missing_crate(l)
            && !names_compile_error(l) && !names_rate_limit(l) && !names_auth_failure(l)
            && !names_format_error(l) && !contains(l, "clippy"@)),
{
    law_missing_crate(l);
    reveal_strlit("missing_crate");
    reveal_strlit("compile_error");
    reveal_strlit("rate_limit");
    reveal_strlit("auth_failure");
    reveal_strlit("format_error");
    reveal_strlit("lint_error");
    reveal_strlit("unknown");
    assert("compile_error"@[0] == 'c');
    assert("rate_limit"@[0] == 'r');
    assert("auth_failure"@[0] == 'a');
    assert("format_error"@[0] == 'f');
    assert("lint_error"@[0] == 'l');
    assert("unknown"@[0] == 'u');
}

/// The pattern name of an error, tested in order on its lower-case form.
pub open spec fn classify_spec(error: Seq<char>) -> Seq<char> {
    classify_lowered_spec(lowercase(error))
}

/// Law: an error message whose lower-case form mentions an unresolved
/// import or a crate that cannot be found is classified as a missing crate.
pub proof fn law_error_names_missing_crate(error: Seq<char>)
    requires
        contains(lowercase(error), "unresolved import"@) || contains(
            lowercase(error),
            "cannot find crate"@,
        ),
    ensures
        classify_spec(error) == "missing_crate"@,
{
    law_missing_crate(lowercase(error));
}

fn has(l: &Vec<char>, word: &str) -> (r: bool)
    ensures
        r == contains(l@, word@),
{
    let w = chars_of(word);
    contains_exec(l, &w)
}

/// The pattern name of an error message already in lower case.
pub fn classify_lowered(lowered: &str) -> (r: String)
    ensures
        r@ == classify_lowered_spec(lowered@),
{
    let l = chars_of(lowered);
    if has(&l, "cannot find crate") || has(&l, "unresolved import") {
        String::from_str("missing_crate")
    } else if has(&l, "error[e0") {
        String::from_str("compile_error")
    } else if has(&l, "rate limit") || has(&l, "429") {
        String::from_str("rate_limit")
    } else if has(&l, "unauthorized") || has(&l, "401") {
        String::from_str("auth_failure")
    } else if has(&l, "fmt") || has(&l, "format") {
        String::from_str("format_error")
    } else if has(&l, "clippy") {
        String::from_str("lint_error")
    } else {
        String::from_str("unknown")
    }
}

/// Classify an error message to determine fix pattern
pub fn classify_error(error: &str) -> (r: String)
    ensures
        r@ == classify_spec(error@),
{
    let e = chars_of(error);
    let l = lowercase_exec(&e);
    classify_lowered(string_of(&l).as_str())
}

/// A path component that names a session: it starts with `M` and holds a `-`.
pub open spec fn is_session_component(c: Seq<char>) -> bool {
    c.len() > 0 && c[0] == 'M' && contains(c, seq!['-'])
}

/// The first component that names a session, if any.
pub open spec fn first_session_component(cs: Seq<Seq<char>>) -> Option<Seq<char>>
    decreases cs.len(),
{
    if cs.len() == 0 {
        None
    } else if is_session_component(cs[0]) {
        Some(cs[0])
    } else {
        first_session_component(cs.drop_first())
    }
}

/// The session a path belongs to: its first `/`-separated component that
/// names a session, else `default`.
pub open spec fn session_id_spec(path: Seq<char>) -> Seq<char> {
    match first_session_component(split(path, seq!['/'])) {
        Some(c) => c,
        None => "default"@,
    }
}

/// Infer session ID from path
pub fn infer_session_id(path: &str) -> (r: String)
    ensures
        r@ == session_id_spec(path@),
{
    let p = chars_of(path);
    let slash = vec!['/'];
    assert(slash@ == seq!['/']);
    let dash = vec!['-'];
    assert(dash@ == seq!['-']);
    let cs = split_exec(&p, &slash);
    let ghost cv = views(cs@);
    let mut i: usize = 0;
    assert(cv.skip(0) =~= cv);
    while i < cs.len()
        invariant
            i <= cs@.len(),
            cv == views(cs@),
            cv == split(path@, seq!['/']),
            dash@ == seq!['-'],
            first_session_component(cv) == first_session_component(cv.skip(i as int)),
        decreases cs.len() - i,
    {
        assert(cv.skip(i as int)[0] == cs@[i as int]@);
        assert(cv.skip(i as int).drop_first() =~= cv.skip(i + 1));
        let c = &cs[i];
        if c.len() > 0 && c[0] == 'M' && contains_exec(c, &dash) {
            return string_of(c);
        }
        i = i + 1;
    }
    String::from_str("default")
}

/// The kinds of watched files.
#[derive(Debug, Clone, Copy, PartialEq, Eq)]
pub enum WatchedFile {
    /// A session's state file.
    State,
    /// A log to scan for errors and tool calls.
    Log,
    /// Anything else.
    Other,
}

/// What a watched file is, by its name.
pub fn watched_file_kind(file_name: &str) -> (r: WatchedFile)
    ensures
        r == (if file_name@ == "STATE.md"@ {
            WatchedFile::State
        } else if has_suffix(file_name@, ".jsonl"@) || has_suffix(file_name@, ".log"@) {
            WatchedFile::Log
        } else {
            WatchedFile::Other
        }),
{
    let n = chars_of(file_name);
    if crate::text::str_eq(file_name, "STATE.md") {
        WatchedFile::State
    } else {
        let j = chars_of(".jsonl");
        let l = chars_of(".log");
        if ends_with(&n, &j) || ends_with(&n, &l) {
            WatchedFile::Log
        } else {
            WatchedFile::Other
        }
    }
}

/// The event a changed state file raises.
pub fn state_event(path: &str, state: &GsdState) -> (r: WatcherEvent)
    ensures
        r matches WatcherEvent::StateChanged { session_id, phase, detail } && session_id@
            == session_id_spec(path@) && phase@ == state.phase@ && detail@ == "Milestone: "@
            + state.milestone@ + ", Slice: "@ + state.slice@,
{
    let mut d: Vec<char> = Vec::new();
    push_str(&mut d, "Milestone: ");
    push_str(&mut d, state.milestone.as_str());
    push_str(&mut d, ", Slice: ");
    push_str(&mut d, state.slice.as_str());
    WatcherEvent::StateChanged {
        session_id: infer_session_id(path),
        phase: state.phase.clone(),
        detail: string_of(&d),
    }
}

/// Whether an event for a path is dropped: one came less than the debounce
/// time before it.
pub fn should_debounce(since_last_ms: Option<u64>, debounce_ms: u64) -> (r: bool)
    ensures
        r == (match since_last_ms {
            Some(e) => e < debounce_ms,
            None => false,
        }),
{
    match since_last_ms {
        Some(e) => e < debounce_ms,
        None => false,
    }
}


/// The string that the JSON object in `line` holds at `key`.
pub uninterp spec fn json_str_field(line: Seq<char>, key: Seq<char>) -> Option<Seq<char>>;

/// The string field `key` of the JSON object a line holds; none when the line
/// is not JSON or the field is absent or not a string.
/// Trusted: parses with `serde_json::from_str` into a `Value`, then reads it
/// with `Value::get` and `Value::as_str`. The result depends on the line and
/// the key alone and is named by `json_str_field`.
#[verifier::external_body]
pub(crate) fn json_string_field(line: &str, key: &str) -> (r: Option<String>)
    ensures
        r matches Some(t) ==> json_str_field(line@, key@) == Some(t@),
        r is None ==> json_str_field(line@, key@) is None,
{
    match serde_json::from_str::<serde_json::Value>(line) {
        Ok(v) => match v.get(key) {
            Some(f) => match f.as_str() {
                Some(t) => Some(t.to_string()),
                None => None,
            },
            None => None,
        },
        Err(_) => None,
    }
}

/// The JSON text of the value at `key` of the JSON object in `line`.
pub uninterp spec fn json_field_text(line: Seq<char>, key: Seq<char>) -> Option<Seq<char>>;

/// The field `key` of the JSON line, written back as JSON text (`null` when
/// the field is absent); none when the line is not JSON.
/// Trusted: parses with `serde_json::from_str`, reads with `Value::get` and
/// writes with the `Display` of `Value`. The result depends on the line and
/// the key alone and is named by `json_field_text`.
#[verifier::external_body]
fn json_field_as_text(line: &str, key: &str) -> (r: Option<String>)
    ensures
        r matches Some(t) ==> json_field_text(line@, key@) == Some(t@),
        r is None ==> json_field_text(line@, key@) is None,
{
    match serde_json::from_str::<serde_json::Value>(line) {
        Ok(v) => Some(v.get(key).unwrap_or(&serde_json::Value::Null).to_string()),
        Err(_) => None,
    }
}

/// The hash of a text under the standard library's default hasher.
pub uninterp spec fn text_hash_spec(s: Seq<char>) -> u64;

/// The hash of a text.
/// Trusted: feeds the text to `std::hash::Hash::hash` with a fresh
/// `DefaultHasher` (whose keys are fixed, not seeded per process) and returns
/// `Hasher::finish`; named by `text_hash_spec`.
#[verifier::external_body]
fn text_hash(s: &str) -> (r: u64)
    ensures
        r == text_hash_spec(s@),
{
    let mut hasher = std::collections::hash_map::DefaultHasher::new();
    s.hash(&mut hasher);
    hasher.finish()
}

/// A watcher event as (tag, session, text, detail, hash): tag 0 for a state
/// change, 1 for an error, 2 for a tool call, 3 for a timeout.
pub open spec fn event_view(e: WatcherEvent) -> (int, Seq<char>, Seq<char>, Seq<char>, u64) {
    match e {
        WatcherEvent::StateChanged { session_id, phase, detail } => (
            0,
            session_id@,
            phase@,
            detail@,
            0,
        ),
        WatcherEvent::ErrorDetected { session_id, error, pattern } => (
            1,
            session_id@,
            error@,
            pattern@,
            0,
        ),
        WatcherEvent::ToolCall { session_id, tool, args_hash } => (
            2,
            session_id@,
            tool@,
            Seq::empty(),
            args_hash,
        ),
        WatcherEvent::Timeout { session_id } => (3, session_id@, Seq::empty(), Seq::empty(), 0),
    }
}

/// The events of one log line: an error it reports, then a tool call it records.
pub open spec fn line_events(session: Seq<char>, line: Seq<char>) -> Seq<
    (int, Seq<char>, Seq<char>, Seq<char>, u64),
> {
    (match json_str_field(line, "error"@) {
        Some(e) => seq![(1, session, e, classify_spec(e), 0u64)],
        None => Seq::empty(),
    }) + match json_str_field(line, "tool"@) {
        Some(t) => seq![
            (
                2,
                session,
                t,
                Seq::<char>::empty(),
                text_hash_spec(
                    match json_field_text(line, "args"@) {
                        Some(a) => a,
                        None => "null"@,
                    },
                ),
            ),
        ],
        None => Seq::empty(),
    }
}

/// The events of a run of log lines, in order.
pub open spec fn lines_events(session: Seq<char>, ls: Seq<Seq<char>>) -> Seq<
    (int, Seq<char>, Seq<char>, Seq<char>, u64),
>
    decreases ls.len(),
{
    if ls.len() == 0 {
        Seq::empty()
    } else {
        lines_events(session, ls.drop_last()) + line_events(session, ls.last())
    }
}

/// The last `n` lines of a text, in order.
pub open spec fn last_lines(ls: Seq<Seq<char>>, n: nat) -> Seq<Seq<char>> {
    if ls.len() <= n {
        ls
    } else {
        ls.skip(ls.len() - n)
    }
}

/// Parse log content for errors and tool calls: the last hundred lines, each
/// read as a JSON object that may report an `error` and record a `tool` call
/// with its `args`.
pub fn parse_log_content(path: &str, content: &str) -> (r: Vec<WatcherEvent>)
    ensures
        r@.map_values(|e: WatcherEvent| event_view(e)) == lines_events(
            session_id_spec(path@),
            last_lines(lines(content@), 100),
        ),
{
    let c = chars_of(content);
    let ls = lines_exec(&c);
    let ghost lv = views(ls@);
    let start: usize = if ls.len() <= 100 {
        0
    } else {
        ls.len() - 100
    };
    let ghost tail = last_lines(lv, 100);
    assert(tail =~= lv.subrange(start as int, lv.len() as int));
    let session = infer_session_id(path);
    let mut out: Vec<WatcherEvent> = Vec::new();
    let mut i: usize = start;
    while i < ls.len()
        invariant
            start <= i <= ls@.len(),
            lv == views(ls@),
            tail == lv.subrange(start as int, lv.len() as int),
            out@.map_values(|e: WatcherEvent| event_view(e)) == lines_events(
                session@,
                lv.subrange(start as int, i as int),
            ),
        decreases ls.len() - i,
    {
        let line = string_of(&ls[i]);
        assert(line@ == lv[i as int]);
        assert(lv.subrange(start as int, i + 1).drop_last() =~= lv.subrange(start as int, i as int));
        let ghost before = out@.map_values(|e: WatcherEvent| event_view(e));
        match json_string_field(line.as_str(), "error") {
            Some(e) => {
                let pattern = classify_error(e.as_str());
                out.push(
                    WatcherEvent::ErrorDetected { session_id: session.clone(), error: e, pattern },
                );
            },
            None => {},
        }
        let ghost mid = out@.map_values(|e: WatcherEvent| event_view(e));
        match json_string_field(line.as_str(), "tool") {
            Some(t) => {
                let args = match json_field_as_text(line.as_str(), "args") {
                    Some(a) => a,
                    None => String::from_str("null"),
                };
                let h = text_hash(args.as_str());
                out.push(WatcherEvent::ToolCall { session_id: session.clone(), tool: t, args_hash: h });
            },
            None => {},
        }
        proof {
            reveal_strlit("null");
            assert(out@.map_values(|e: WatcherEvent| event_view(e)) =~= before + line_events(
                session@,
                lv[i as int],
            ));
        }
        i = i + 1;
    }
    assert(lv.subrange(start as int, ls@.len() as int) =~= tail);
    out
}

} // verus!
