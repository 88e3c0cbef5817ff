//! Verified string operations over `Seq<char>`.
use vstd::prelude::*;

verus! {

/// Appends one character to a string.
/// Trusted: `String::push` appends the character at the end (std documentation).
#[verifier::external_body]
fn push_char(s: &mut String, c: char)
    ensures
        final(s)@ == old(s)@.push(c),
{
    s.push(c);
}

/// The characters of a string slice, in order.
pub fn chars_of(s: &str) -> (v: Vec<char>)
    ensures
        v@ == s@,
{
    let n = s.unicode_len();
    let mut v: Vec<char> = Vec::new();
    let mut i: usize = 0;
    while i < n
        invariant
            n == s@.len(),
            i <= n,
            v@ == s@.subrange(0, i as int),
        decreases n - i,
    {
        let c = s.get_char(i);
        v.push(c);
        i = i + 1;
    }
    v
}

/// Builds a string from a slice of characters.
pub fn string_of(v: &[char]) -> (s: String)
    ensures
        s@ == v@,
{
    let mut s = String::new();
    let mut i: usize = 0;
    while i < v.len()
        invariant
            i <= v.len(),
            s@ == v@.subrange(0, i as int),
        decreases v.len() - i,
    {
        push_char(&mut s, v[i]);
        i = i + 1;
    }
    s
}


/// Unicode `White_Space`: the characters `char::is_whitespace` accepts.
pub open spec fn is_ws(c: char) -> bool {
    let u = c as u32;
    ||| 9 <= u <= 13
    ||| u == 32
    ||| u == 0x85
    ||| u == 0xA0
    ||| u == 0x1680
    ||| 0x2000 <= u <= 0x200A
    ||| u == 0x2028
    ||| u == 0x2029
    ||| u == 0x202F
    ||| u == 0x205F
    ||| u == 0x3000
}

/// Whether a character is Unicode white space.
pub fn is_whitespace(c: char) -> (b: bool)
    ensures
        b == is_ws(c),
{
    let u = c as u32;
    (9 <= u && u <= 13) || u == 32 || u == 0x85 || u == 0xA0 || u == 0x1680 || (0x2000 <= u
        && u <= 0x200A) || u == 0x2028 || u == 0x2029 || u == 0x202F || u == 0x205F || u == 0x3000
}

/// `s` with leading white space removed.
pub open spec fn trim_start(s: Seq<char>) -> Seq<char>
    decreases s.len(),
{
    if s.len() > 0 && is_ws(s[0]) {
        trim_start(s.drop_first())
    } else {
        s
    }
}

/// `s` with trailing white space removed.
pub open spec fn trim_end(s: Seq<char>) -> Seq<char>
    decreases s.len(),
{
    if s.len() > 0 && is_ws(s.last()) {
        trim_end(s.drop_last())
    } else {
        s
    }
}

/// `s` with white space removed at both ends.
pub open spec fn trim(s: Seq<char>) -> Seq<char> {
    trim_end(trim_start(s))
}

/// `pat` occurs in `s` starting at index `i`.
pub open spec fn occurs_at(s: Seq<char>, pat: Seq<char>, i: int) -> bool {
    0 <= i && i + pat.len() <= s.len() && s.subrange(i, i + pat.len()) == pat
}

/// The first index at or after `i` where `pat` occurs in `s`.
pub open spec fn find_from(s: Seq<char>, pat: Seq<char>, i: int) -> Option<int>
    decreases s.len() + 1 - i,
{
    if i < 0 || i + pat.len() > s.len() {
        None
    } else if occurs_at(s, pat, i) {
        Some(i)
    } else {
        find_from(s, pat, i + 1)
    }
}

/// The first index where `pat` occurs in `s`.
pub open spec fn find(s: Seq<char>, pat: Seq<char>) -> Option<int> {
    find_from(s, pat, 0)
}

/// `pat` occurs somewhere in `s`.
pub open spec fn contains(s: Seq<char>, pat: Seq<char>) -> bool {
    find(s, pat) is Some
}

/// `p` is a prefix of `s`.
pub open spec fn has_prefix(s: Seq<char>, p: Seq<char>) -> bool {
    p.len() <= s.len() && s.subrange(0, p.len() as int) == p
}

/// `p` is a suffix of `s`.
pub open spec fn has_suffix(s: Seq<char>, p: Seq<char>) -> bool {
    p.len() <= s.len() && s.subrange(s.len() - p.len(), s.len() as int) == p
}

pub proof fn lemma_find_from_bounds(s: Seq<char>, pat: Seq<char>, i: int)
    requires
        0 <= i,
    ensures
        find_from(s, pat, i) matches Some(j) ==> i <= j && occurs_at(s, pat, j) && (forall|k: int|
            i <= k < j ==> !occurs_at(s, pat, k)),
        find_from(s, pat, i) is None ==> (forall|k: int| i <= k ==> !occurs_at(s, pat, k)),
    decreases s.len() + 1 - i,
{
    if i < 0 || i + pat.len() > s.len() {
    } else if occurs_at(s, pat, i) {
    } else {
        lemma_find_from_bounds(s, pat, i + 1);
    }
}

/// Whether `pat` occurs in `s` at index `i`.
fn matches_at(s: &[char], pat: &[char], i: usize) -> (b: bool)
    requires
        i + pat@.len() <= s@.len(),
    ensures
        b == occurs_at(s@, pat@, i as int),
{
    let mut k: usize = 0;
    while k < pat.len()
        invariant
            i + pat@.len() <= s@.len(),
            s@.len() == s.len(),
            k <= pat@.len(),
            forall|j: int| 0 <= j < k ==> s@[i + j] == pat@[j],
        decreases pat.len() - k,
    {
        if s[i + k] != pat[k] {
            assert(s@.subrange(i as int, i + pat@.len())[k as int] != pat@[k as int]);
            return false;
        }
        k = k + 1;
    }
    assert(s@.subrange(i as int, i + pat@.len()) =~= pat@);
    true
}

/// The first index at or after `from` where `pat` occurs in `s`.
pub fn find_from_exec(s: &[char], pat: &[char], from: usize) -> (r: Option<usize>)
    ensures
        r matches Some(j) ==> find_from(s@, pat@, from as int) == Some(j as int),
        r is None ==> find_from(s@, pat@, from as int) is None,
{
    if pat.len() > s.len() || from > s.len() - pat.len() {
        assert(from + pat@.len() > s@.len());
        assert(find_from(s@, pat@, from as int) is None);
        return None;
    }
    let last = s.len() - pat.len();
    let mut i = from;
    loop
        invariant
            last + pat@.len() == s@.len(),
            from <= i <= last,
            find_from(s@, pat@, from as int) == find_from(s@, pat@, i as int),
        decreases last - i,
    {
        if matches_at(s, pat, i) {
            return Some(i);
        }
        if i == last {
            assert(find_from(s@, pat@, i + 1) is None);
            return None;
        }
        i = i + 1;
    }
}

/// The first index where `pat` occurs in `s`.
pub fn find_exec(s: &[char], pat: &[char]) -> (r: Option<usize>)
    ensures
        r matches Some(j) ==> find(s@, pat@) == Some(j as int),
        r is None ==> find(s@, pat@) is None,
{
    find_from_exec(s, pat, 0)
}

/// Whether `pat` occurs in `s`.
pub fn contains_exec(s: &[char], pat: &[char]) -> (b: bool)
    ensures
        b == contains(s@, pat@),
{
    find_exec(s, pat).is_some()
}

/// Whether `p` is a prefix of `s`.
pub fn starts_with(s: &[char], p: &[char]) -> (b: bool)
    ensures
        b == has_prefix(s@, p@),
{
    if p.len() > s.len() {
        return false;
    }
    let b = matches_at(s, p, 0);
    assert(b == has_prefix(s@, p@));
    b
}

/// Whether `p` is a suffix of `s`.
pub fn ends_with(s: &[char], p: &[char]) -> (b: bool)
    ensures
        b == has_suffix(s@, p@),
{
    if p.len() > s.len() {
        return false;
    }
    matches_at(s, p, s.len() - p.len())
}

/// The characters `s[from..to]`.
pub fn slice_chars(s: &[char], from: usize, to: usize) -> (r: Vec<char>)
    requires
        from <= to <= s@.len(),
    ensures
        r@ == s@.subrange(from as int, to as int),
{
    let mut r: Vec<char> = Vec::new();
    let mut i = from;
    while i < to
        invariant
            from <= i <= to <= s@.len(),
            r@ == s@.subrange(from as int, i as int),
        decreases to - i,
    {
        r.push(s[i]);
        i = i + 1;
    }
    r
}

/// `s` with white space removed at both ends.
pub fn trim_exec(s: &[char]) -> (r: Vec<char>)
    ensures
        r@ == trim(s@),
{
    let n = s.len();
    let mut a: usize = 0;
    assert(s@.subrange(0, n as int) =~= s@);
    while a < n && is_whitespace(s[a])
        invariant
            a <= n == s@.len(),
            trim_start(s@) == trim_start(s@.subrange(a as int, n as int)),
        decreases n - a,
    {
        assert(s@.subrange(a as int, n as int).drop_first() =~= s@.subrange(a + 1, n as int));
        a = a + 1;
    }
    assert(trim_start(s@) == s@.subrange(a as int, n as int));
    let mut b: usize = n;
    while b > a && is_whitespace(s[b - 1])
        invariant
            a <= b <= n == s@.len(),
            trim(s@) == trim_end(s@.subrange(a as int, b as int)),
        decreases b - a,
    {
        assert(s@.subrange(a as int, b as int).drop_last() =~= s@.subrange(a as int, b - 1));
        b = b - 1;
    }
    slice_chars(s, a, b)
}


/// The views of a sequence of character vectors.
pub open spec fn views(v: Seq<Vec<char>>) -> Seq<Seq<char>> {
    v.map_values(|l: Vec<char>| l@)
}

/// Searching in `s` from `start + i` is searching in `s[start..]` from `i`, shifted.
pub proof fn lemma_find_from_shift(s: Seq<char>, pat: Seq<char>, start: int, i: int)
    requires
        0 <= start <= s.len(),
        0 <= i,
    ensures
        find_from(s, pat, start + i) == (match find_from(s.subrange(start, s.len() as int), pat, i) {
            Some(j) => Some(j + start),
            None => None::<int>,
        }),
    decreases s.len() + 1 - i,
{
    let t = s.subrange(start, s.len() as int);
    if start + i + pat.len() > s.len() {
    } else {
        assert(t.subrange(i, i + pat.len()) =~= s.subrange(start + i, start + i + pat.len()));
        if occurs_at(s, pat, start + i) {
        } else {
            lemma_find_from_shift(s, pat, start, i + 1);
        }
    }
}

/// A line as `str::lines` yields it: a `\r` before the `\n` is dropped.
pub open spec fn line_piece(l: Seq<char>) -> Seq<char> {
    if l.len() > 0 && l.last() == '\r' {
        l.drop_last()
    } else {
        l
    }
}

/// The lines of `s`, as `str::lines` splits them.
pub open spec fn lines(s: Seq<char>) -> Seq<Seq<char>>
    decreases s.len(),
{
    if s.len() == 0 {
        Seq::empty()
    } else {
        match find(s, seq!['\n']) {
            Some(i) => {
                proof {
                    lemma_find_from_bounds(s, seq!['\n'], 0);
                }
                seq![line_piece(s.subrange(0, i))] + lines(s.subrange(i + 1, s.len() as int))
            },
            None => seq![s],
        }
    }
}

/// The lines of `s`, as `str::lines` splits them.
pub fn lines_exec(s: &[char]) -> (r: Vec<Vec<char>>)
    ensures
        views(r@) == lines(s@),
{
    let n = s.len();
    let nl: Vec<char> = vec!['\n'];
    let mut out: Vec<Vec<char>> = Vec::new();
    let mut start: usize = 0;
    assert(s@.subrange(0, n as int) =~= s@);
    while start < n
        invariant
            n == s@.len(),
            start <= n,
            nl@ == seq!['\n'],
            lines(s@) == views(out@) + lines(s@.subrange(start as int, n as int)),
        decreases n - start,
    {
        let ghost rest = s@.subrange(start as int, n as int);
        proof {
            lemma_find_from_shift(s@, nl@, start as int, 0);
            lemma_find_from_bounds(rest, nl@, 0);
        }
        match find_from_exec(s, &nl, start) {
            Some(j) => {
                let ghost k = j - start;
                assert(find(rest, seq!['\n']) == Some(k));
                let mut line = slice_chars(s, start, j);
                assert(line@ =~= rest.subrange(0, k));
                if line.len() > 0 && line[line.len() - 1] == '\r' {
                    line.pop();
                }
                assert(line@ == line_piece(rest.subrange(0, k)));
                assert(rest.subrange(k + 1, rest.len() as int) =~= s@.subrange(j + 1, n as int));
                out.push(line);
                proof {
                    assert(views(out@) =~= views(out@.drop_last()).push(line@));
                }
                start = j + 1;
            },
            None => {
                assert(find(rest, seq!['\n']) is None);
                let line = slice_chars(s, start, n);
                out.push(line);
                assert(views(out@) =~= views(out@.drop_last()).push(line@));
                assert(s@.subrange(n as int, n as int) =~= Seq::<char>::empty());
                start = n;
            },
        }
    }
    assert(s@.subrange(n as int, n as int) =~= Seq::<char>::empty());
    assert(lines(s@.subrange(n as int, n as int)) =~= Seq::<Seq<char>>::empty());
    assert(views(out@) + Seq::<Seq<char>>::empty() =~= views(out@));
    out
}

/// The pieces of `s` between occurrences of the non-empty separator `sep`.
pub open spec fn split(s: Seq<char>, sep: Seq<char>) -> Seq<Seq<char>>
    decreases s.len(),
{
    if sep.len() == 0 {
        seq![s]
    } else {
        match find(s, sep) {
            Some(i) => {
                proof {
                    lemma_find_from_bounds(s, sep, 0);
                }
                seq![s.subrange(0, i)] + split(s.subrange(i + sep.len(), s.len() as int), sep)
            },
            None => seq![s],
        }
    }
}

/// The part of `s` before the first `sep`, or all of `s`.
pub open spec fn before_first(s: Seq<char>, sep: Seq<char>) -> Seq<char> {
    match find(s, sep) {
        Some(i) => s.subrange(0, i),
        None => s,
    }
}

/// The part of `s` after the first `sep`, if `sep` occurs.
pub open spec fn after_first(s: Seq<char>, sep: Seq<char>) -> Option<Seq<char>> {
    match find(s, sep) {
        Some(i) => Some(s.subrange(i + sep.len(), s.len() as int)),
        None => None,
    }
}

/// The part of `s` before the first `sep`, or all of `s`.
pub fn before_first_exec(s: &[char], sep: &[char]) -> (r: Vec<char>)
    ensures
        r@ == before_first(s@, sep@),
{
    proof {
        lemma_find_from_bounds(s@, sep@, 0);
    }
    match find_exec(s, sep) {
        Some(i) => slice_chars(s, 0, i),
        None => slice_chars(s, 0, s.len()),
    }
}

/// The part of `s` after the first `sep`, if `sep` occurs.
pub fn after_first_exec(s: &[char], sep: &[char]) -> (r: Option<Vec<char>>)
    ensures
        r matches Some(v) ==> after_first(s@, sep@) == Some(v@),
        r is None ==> after_first(s@, sep@) is None,
{
    proof {
        lemma_find_from_bounds(s@, sep@, 0);
    }
    match find_exec(s, sep) {
        Some(i) => {
            assert(occurs_at(s@, sep@, i as int));
            assert(s@.len() == s.len() && sep@.len() == sep.len());
            Some(slice_chars(s, i + sep.len(), s.len()))
        },
        None => None,
    }
}

/// The last index at or before `i` where `pat` occurs in `s`.
pub open spec fn rfind_from(s: Seq<char>, pat: Seq<char>, i: int) -> Option<int>
    decreases i + 1,
{
    if i < 0 {
        None
    } else if occurs_at(s, pat, i) {
        Some(i)
    } else {
        rfind_from(s, pat, i - 1)
    }
}

/// The last index where `pat` occurs in `s`.
pub open spec fn rfind(s: Seq<char>, pat: Seq<char>) -> Option<int> {
    rfind_from(s, pat, s.len() - pat.len())
}

pub proof fn lemma_rfind_from_bounds(s: Seq<char>, pat: Seq<char>, i: int)
    ensures
        rfind_from(s, pat, i) matches Some(j) ==> 0 <= j <= i && occurs_at(s, pat, j) && (forall|k: int|
            j < k <= i ==> !occurs_at(s, pat, k)),
        rfind_from(s, pat, i) is None ==> (forall|k: int| k <= i ==> !occurs_at(s, pat, k)),
    decreases i + 1,
{
    if i >= 0 && !occurs_at(s, pat, i) {
        lemma_rfind_from_bounds(s, pat, i - 1);
    }
}

/// The last index where `pat` occurs in `s`.
pub fn rfind_exec(s: &[char], pat: &[char]) -> (r: Option<usize>)
    ensures
        r matches Some(j) ==> rfind(s@, pat@) == Some(j as int),
        r is None ==> rfind(s@, pat@) is None,
{
    if pat.len() > s.len() {
        return None;
    }
    let mut i: usize = s.len() - pat.len();
    loop
        invariant
            i + pat@.len() <= s@.len(),
            rfind(s@, pat@) == rfind_from(s@, pat@, i as int),
        decreases i,
    {
        if matches_at(s, pat, i) {
            return Some(i);
        }
        if i == 0 {
            assert(rfind_from(s@, pat@, -1) is None);
            return None;
        }
        i = i - 1;
    }
}

/// `s` without the prefix `p`, when `s` starts with `p`.
pub open spec fn strip_prefix(s: Seq<char>, p: Seq<char>) -> Option<Seq<char>> {
    if has_prefix(s, p) {
        Some(s.subrange(p.len() as int, s.len() as int))
    } else {
        None
    }
}

/// `s` without the prefix `p`, when `s` starts with `p`.
pub fn strip_prefix_exec(s: &[char], p: &[char]) -> (r: Option<Vec<char>>)
    ensures
        r matches Some(v) ==> strip_prefix(s@, p@) == Some(v@),
        r is None ==> strip_prefix(s@, p@) is None,
{
    if starts_with(s, p) {
        Some(slice_chars(s, p.len(), s.len()))
    } else {
        None
    }
}

/// The pieces of `parts` joined with `sep` between them.
pub open spec fn join(parts: Seq<Seq<char>>, sep: Seq<char>) -> Seq<char>
    decreases parts.len(),
{
    if parts.len() == 0 {
        Seq::empty()
    } else if parts.len() == 1 {
        parts[0]
    } else {
        join(parts.drop_last(), sep) + sep + parts.last()
    }
}

/// The pieces of `parts` joined with `sep` between them.
pub fn join_exec(parts: &Vec<Vec<char>>, sep: &[char]) -> (r: Vec<char>)
    ensures
        r@ == join(views(parts@), sep@),
{
    let mut out: Vec<char> = Vec::new();
    let mut i: usize = 0;
    while i < parts.len()
        invariant
            i <= parts@.len(),
            out@ == join(views(parts@).take(i as int), sep@),
        decreases parts.len() - i,
    {
        let ghost before = out@;
        if i > 0 {
            append_chars(&mut out, sep);
        }
        append_chars(&mut out, &parts[i]);
        proof {
            let t = views(parts@).take(i + 1);
            assert(t.drop_last() =~= views(parts@).take(i as int));
            assert(t.last() == parts@[i as int]@);
            if i == 0 {
                assert(out@ =~= parts@[0]@);
            } else {
                assert(out@ =~= before + sep@ + parts@[i as int]@);
            }
        }
        i = i + 1;
    }
    assert(views(parts@).take(parts@.len() as int) =~= views(parts@));
    out
}

/// Appends the characters of `t` to `out`.
pub fn append_chars(out: &mut Vec<char>, t: &[char])
    ensures
        final(out)@ == old(out)@ + t@,
{
    let mut i: usize = 0;
    while i < t.len()
        invariant
            i <= t@.len(),
            out@ == old(out)@ + t@.subrange(0, i as int),
        decreases t.len() - i,
    {
        out.push(t[i]);
        i = i + 1;
    }
    assert(t@.subrange(0, t@.len() as int) =~= t@);
}


/// The length of the run of non-white-space characters that starts `t`.
pub open spec fn word_len(t: Seq<char>) -> nat
    decreases t.len(),
{
    if t.len() > 0 && !is_ws(t[0]) {
        1 + word_len(t.drop_first())
    } else {
        0
    }
}

pub proof fn lemma_trim_start_len(s: Seq<char>)
    ensures
        trim_start(s).len() <= s.len(),
        trim_start(s).len() > 0 ==> !is_ws(trim_start(s)[0]),
    decreases s.len(),
{
    if s.len() > 0 && is_ws(s[0]) {
        lemma_trim_start_len(s.drop_first());
    }
}

pub proof fn lemma_word_len(t: Seq<char>)
    ensures
        word_len(t) <= t.len(),
        t.len() > 0 && !is_ws(t[0]) ==> word_len(t) >= 1,
    decreases t.len(),
{
    if t.len() > 0 && !is_ws(t[0]) {
        lemma_word_len(t.drop_first());
    }
}

/// The white-space separated words of `s`, as `str::split_whitespace` yields them.
pub open spec fn words(s: Seq<char>) -> Seq<Seq<char>>
    decreases s.len(),
{
    let t = trim_start(s);
    if t.len() == 0 {
        Seq::empty()
    } else {
        proof {
            lemma_trim_start_len(s);
            lemma_word_len(t);
        }
        seq![t.take(word_len(t) as int)] + words(t.skip(word_len(t) as int))
    }
}

/// The white-space separated words of `s`.
pub fn words_exec(s: &[char]) -> (r: Vec<Vec<char>>)
    ensures
        views(r@) == words(s@),
{
    let n = s.len();
    let mut out: Vec<Vec<char>> = Vec::new();
    let mut i: usize = 0;
    assert(s@.subrange(0, n as int) =~= s@);
    loop
        invariant
            n == s@.len(),
            i <= n,
            words(s@) == views(out@) + words(s@.subrange(i as int, n as int)),
        decreases n - i,
    {
        let ghost start_i = i;
        while i < n && is_whitespace(s[i])
            invariant
                n == s@.len(),
                start_i <= i <= n,
                trim_start(s@.subrange(start_i as int, n as int)) == trim_start(
                    s@.subrange(i as int, n as int),
                ),
            decreases n - i,
        {
            assert(s@.subrange(i as int, n as int).drop_first() =~= s@.subrange(i + 1, n as int));
            i = i + 1;
        }
        let ghost t = s@.subrange(i as int, n as int);
        assert(trim_start(t) == t);
        if i == n {
            assert(t =~= Seq::<char>::empty());
            assert(words(s@.subrange(start_i as int, n as int)) =~= Seq::<Seq<char>>::empty());
            assert(views(out@) + Seq::<Seq<char>>::empty() =~= views(out@));
            return out;
        }
        let j0 = i;
        while i < n && !is_whitespace(s[i])
            invariant
                n == s@.len(),
                j0 <= i <= n,
                word_len(s@.subrange(j0 as int, n as int)) == (i - j0) + word_len(
                    s@.subrange(i as int, n as int),
                ),
            decreases n - i,
        {
            assert(s@.subrange(i as int, n as int).drop_first() =~= s@.subrange(i + 1, n as int));
            i = i + 1;
        }
        assert(word_len(s@.subrange(i as int, n as int)) == 0);
        let w = slice_chars(s, j0, i);
        assert(w@ =~= t.take((i - j0) as int));
        assert(t.skip((i - j0) as int) =~= s@.subrange(i as int, n as int));
        out.push(w);
        assert(views(out@) =~= views(out@.drop_last()).push(w@));
    }
}

/// `c` is an ASCII decimal digit.
pub open spec fn is_digit(c: char) -> bool {
    '0' <= c <= '9'
}

/// The value of a string of decimal digits.
pub open spec fn digits_value(d: Seq<char>) -> nat
    decreases d.len(),
{
    if d.len() == 0 {
        0
    } else {
        digits_value(d.drop_last()) * 10 + ((d.last() as u32) - ('0' as u32)) as nat
    }
}

/// Every character of `d` is a decimal digit.
pub open spec fn all_digits(d: Seq<char>) -> bool {
    forall|i: int| 0 <= i < d.len() ==> is_digit(#[trigger] d[i])
}

/// What `<u64 as FromStr>::from_str` yields: an optional `+`, then one or more
/// decimal digits whose value fits in 64 bits.
pub open spec fn parse_u64(s: Seq<char>) -> Option<u64> {
    let d = if s.len() > 0 && s[0] == '+' {
        s.drop_first()
    } else {
        s
    };
    if d.len() > 0 && all_digits(d) && digits_value(d) <= u64::MAX {
        Some(digits_value(d) as u64)
    } else {
        None
    }
}

proof fn lemma_digits_value_prefix(d: Seq<char>, k: int)
    requires
        0 <= k <= d.len(),
    ensures
        digits_value(d.take(k)) <= digits_value(d),
    decreases d.len(),
{
    if k < d.len() {
        assert(d.drop_last().take(k) =~= d.take(k));
        lemma_digits_value_prefix(d.drop_last(), k);
    } else {
        assert(d.take(k) =~= d);
    }
}

/// Parses an unsigned 64-bit decimal number as `str::parse::<u64>` does.
pub fn parse_u64_exec(s: &[char]) -> (r: Option<u64>)
    ensures
        r == parse_u64(s@),
{
    let start: usize = if s.len() > 0 && s[0] == '+' {
        1
    } else {
        0
    };
    let ghost d = if s@.len() > 0 && s@[0] == '+' {
        s@.drop_first()
    } else {
        s@
    };
    assert(d =~= s@.subrange(start as int, s@.len() as int));
    if start == s.len() {
        return None;
    }
    let mut value: u64 = 0;
    let mut i: usize = start;
    while i < s.len()
        invariant
            start <= i <= s@.len(),
            d == s@.subrange(start as int, s@.len() as int),
            parse_u64(s@) == (if d.len() > 0 && all_digits(d) && digits_value(d) <= u64::MAX {
                Some(digits_value(d) as u64)
            } else {
                None
            }),
            d.len() > 0,
            all_digits(d.take(i - start)),
            value as nat == digits_value(d.take(i - start)),
        decreases s.len() - i,
    {
        let c = s[i];
        let k = i - start;
        assert(d.take(k + 1).drop_last() =~= d.take(k as int));
        assert(d.take(k + 1).last() == c);
        assert(d[k as int] == c);
        if !('0' <= c && c <= '9') {
            assert(!is_digit(d[k as int]));
            assert(!all_digits(d));
            return None;
        }
        let digit = (c as u32 - '0' as u32) as u64;
        assert(digits_value(d.take(k + 1)) == value * 10 + digit);
        match value.checked_mul(10) {
            Some(m) => match m.checked_add(digit) {
                Some(v) => {
                    value = v;
                },
                None => {
                    proof {
                        lemma_digits_value_prefix(d, k + 1);
                    }
                    assert(digits_value(d) > u64::MAX);
                    return None;
                },
            },
            None => {
                proof {
                    lemma_digits_value_prefix(d, k + 1);
                }
                assert(digits_value(d) > u64::MAX);
                return None;
            },
        }
        i = i + 1;
        assert forall|j: int| 0 <= j < d.take(i - start).len() implies is_digit(
            #[trigger] d.take(i - start)[j],
        ) by {
            if j < k {
                assert(d.take(i - start)[j] == d.take(k as int)[j]);
            }
        }
    }
    assert(d.take(s@.len() - start) =~= d);
    Some(value)
}

/// What `str::to_lowercase` returns for a string: its lowercase mapping under
/// the Unicode `Lowercase` property.
pub uninterp spec fn lowercase(s: Seq<char>) -> Seq<char>;

/// The lowercase form of an ASCII character: `A`..`Z` become `a`..`z`, every
/// other character stays.
pub open spec fn ascii_lower(c: char) -> char {
    if 'A' <= c && c <= 'Z' {
        ((c as u32) + 32) as char
    } else {
        c
    }
}

/// Every character is ASCII.
pub open spec fn is_ascii_text(s: Seq<char>) -> bool {
    forall|i: int| 0 <= i < s.len() ==> (s[i] as u32) < 128
}

/// The lowercase form of a string.
/// Trusted: `str::to_lowercase` returns a function of its argument alone,
/// named by `lowercase`. Of ASCII text, whose Unicode lowercase mapping is
/// that of ASCII (`A`..`Z` to `a`..`z`, the rest unchanged), it returns that
/// mapping character by character; nothing more is claimed of other text.
#[verifier::external_body]
pub(crate) fn to_lowercase(s: &str) -> (r: String)
    ensures
        r@ == lowercase(s@),
        is_ascii_text(s@) ==> r@ == s@.map_values(|c: char| ascii_lower(c)),
{
    s.to_lowercase()
}

/// The lowercase form of a sequence of characters.
pub fn lowercase_exec(s: &[char]) -> (r: Vec<char>)
    ensures
        r@ == lowercase(s@),
        is_ascii_text(s@) ==> r@ == s@.map_values(|c: char| ascii_lower(c)),
{
    let st = string_of(s);
    let low = to_lowercase(st.as_str());
    chars_of(low.as_str())
}


/// Whether two string slices hold the same characters.
pub fn str_eq(a: &str, b: &str) -> (r: bool)
    ensures
        r == (a@ == b@),
{
    let x = String::from_str(a);
    let y = String::from_str(b);
    x == y
}

/// Whether two character slices are equal.
pub fn chars_eq(a: &[char], b: &[char]) -> (r: bool)
    ensures
        r == (a@ == b@),
{
    if a.len() != b.len() {
        return false;
    }
    let r = matches_at(a, b, 0);
    assert(a@.subrange(0, b@.len() as int) =~= a@);
    r
}

/// A one-character pattern occurs exactly where that character stands.
pub proof fn lemma_occurs_single(s: Seq<char>, c: char, k: int)
    ensures
        occurs_at(s, seq![c], k) <==> (0 <= k < s.len() && s[k] == c),
{
    if 0 <= k < s.len() {
        assert(s.subrange(k, k + 1) =~= seq![s[k]]);
        if s.subrange(k, k + 1) == seq![c] {
            assert(s.subrange(k, k + 1)[0] == c);
        }
    }
}

/// The first occurrence at or after `i` is the `j` before which none occurs.
pub proof fn lemma_find_from_first(s: Seq<char>, pat: Seq<char>, i: int, j: int)
    requires
        0 <= i <= j,
        occurs_at(s, pat, j),
        forall|k: int| i <= k < j ==> !occurs_at(s, pat, k),
    ensures
        find_from(s, pat, i) == Some(j),
    decreases j - i,
{
    if i < j {
        assert(!occurs_at(s, pat, i));
        lemma_find_from_first(s, pat, i + 1, j);
    }
}

/// `c` does not occur in `s`.
pub open spec fn lacks(s: Seq<char>, c: char) -> bool {
    forall|k: int| 0 <= k < s.len() ==> s[k] != c
}

/// A single character is found exactly when it occurs.
pub proof fn lemma_find_single(s: Seq<char>, c: char)
    ensures
        find(s, seq![c]) is None <==> lacks(s, c),
        find(s, seq![c]) matches Some(j) ==> 0 <= j < s.len() && s[j] == c && lacks(
            s.take(j),
            c,
        ),
{
    lemma_find_from_bounds(s, seq![c], 0);
    match find(s, seq![c]) {
        Some(j) => {
            lemma_occurs_single(s, c, j);
            assert forall|k: int| 0 <= k < s.take(j).len() implies s.take(j)[k] != c by {
                lemma_occurs_single(s, c, k);
            }
        },
        None => {
            assert forall|k: int| 0 <= k < s.len() implies s[k] != c by {
                lemma_occurs_single(s, c, k);
            }
        },
    }
}

/// In `a + [c] + b` with no `c` in `a`, the first `c` is the one after `a`.
pub proof fn lemma_find_after_prefix(a: Seq<char>, c: char, b: Seq<char>)
    requires
        lacks(a, c),
    ensures
        find(a + seq![c] + b, seq![c]) == Some(a.len() as int),
        before_first(a + seq![c] + b, seq![c]) == a,
        after_first(a + seq![c] + b, seq![c]) == Some(b),
{
    let s = a + seq![c] + b;
    lemma_occurs_single(s, c, a.len() as int);
    assert forall|k: int| 0 <= k < a.len() implies !occurs_at(s, seq![c], k) by {
        lemma_occurs_single(s, c, k);
    }
    lemma_find_from_first(s, seq![c], 0, a.len() as int);
    assert(s.subrange(0, a.len() as int) =~= a);
    assert(s.subrange(a.len() as int + 1, s.len() as int) =~= b);
}

/// With no `c` in `a`, `a` has no first `c`.
pub proof fn lemma_find_none(a: Seq<char>, c: char)
    requires
        lacks(a, c),
    ensures
        find(a, seq![c]) is None,
        before_first(a, seq![c]) == a,
        after_first(a, seq![c]) is None,
{
    lemma_find_single(a, c);
}


/// `s` with every non-overlapping occurrence of the non-empty `pat`, taken
/// from the left, replaced by `with`.
pub open spec fn replace(s: Seq<char>, pat: Seq<char>, with: Seq<char>) -> Seq<char>
    decreases s.len(),
{
    if pat.len() == 0 {
        s
    } else {
        match find(s, pat) {
            Some(i) => {
                proof {
                    lemma_find_from_bounds(s, pat, 0);
                }
                s.take(i) + with + replace(s.skip(i + pat.len()), pat, with)
            },
            None => s,
        }
    }
}

/// `s` with every occurrence of the non-empty `pat` replaced by `with`.
pub fn replace_exec(s: &[char], pat: &[char], with: &[char]) -> (r: Vec<char>)
    requires
        pat@.len() > 0,
    ensures
        r@ == replace(s@, pat@, with@),
{
    let n = s.len();
    let mut out: Vec<char> = Vec::new();
    let mut start: usize = 0;
    assert(s@.skip(0) =~= s@);
    loop
        invariant
            n == s@.len(),
            pat@.len() > 0,
            start <= n,
            replace(s@, pat@, with@) == out@ + replace(s@.skip(start as int), pat@, with@),
        decreases n - start,
    {
        let ghost rest = s@.skip(start as int);
        proof {
            assert(rest =~= s@.subrange(start as int, n as int));
            lemma_find_from_shift(s@, pat@, start as int, 0);
            lemma_find_from_bounds(rest, pat@, 0);
        }
        match find_from_exec(s, pat, start) {
            Some(j) => {
                let ghost k = j - start;
                assert(find(rest, pat@) == Some(k));
                let piece = slice_chars(s, start, j);
                assert(piece@ =~= rest.take(k));
                assert(rest.skip(k + pat@.len()) =~= s@.skip(j + pat@.len()));
                append_chars(&mut out, &piece);
                append_chars(&mut out, with);
                start = j + pat.len();
            },
            None => {
                assert(find(rest, pat@) is None);
                let piece = slice_chars(s, start, n);
                assert(piece@ =~= rest);
                append_chars(&mut out, &piece);
                return out;
            },
        }
    }
}

/// Replacing in a string slice.
pub fn replace_str(s: &str, pat: &str, with: &str) -> (r: String)
    requires
        pat@.len() > 0,
    ensures
        r@ == replace(s@, pat@, with@),
{
    let a = chars_of(s);
    let b = chars_of(pat);
    let c = chars_of(with);
    let r = replace_exec(&a, &b, &c);
    string_of(&r)
}

/// The decimal digit character of `d < 10`.
pub open spec fn digit_char(d: nat) -> char {
    (('0' as u32) + d) as char
}

/// The decimal representation of `n`, without leading zeros.
pub open spec fn decimal(n: nat) -> Seq<char>
    decreases n,
{
    if n < 10 {
        seq![digit_char(n)]
    } else {
        decimal(n / 10).push(digit_char(n % 10))
    }
}

/// The decimal representation of a number, as `format!("{}", n)` writes it.
pub fn decimal_exec(n: u64) -> (r: Vec<char>)
    ensures
        r@ == decimal(n as nat),
    decreases n,
{
    let d = (n % 10) as u32;
    let c = char_of_digit(d);
    if n < 10 {
        vec![c]
    } else {
        let mut v = decimal_exec(n / 10);
        v.push(c);
        v
    }
}

fn char_of_digit(d: u32) -> (c: char)
    requires
        d < 10,
    ensures
        c == digit_char(d as nat),
{
    if d == 0 { '0' }
    else if d == 1 { '1' }
    else if d == 2 { '2' }
    else if d == 3 { '3' }
    else if d == 4 { '4' }
    else if d == 5 { '5' }
    else if d == 6 { '6' }
    else if d == 7 { '7' }
    else if d == 8 { '8' }
    else { '9' }
}

/// The first `n` characters of `s`, or all of `s` when it is shorter.
pub open spec fn take_chars(s: Seq<char>, n: nat) -> Seq<char> {
    if s.len() <= n {
        s
    } else {
        s.take(n as int)
    }
}


/// Appends the characters of a string slice to `out`.
pub fn push_str(out: &mut Vec<char>, s: &str)
    ensures
        final(out)@ == old(out)@ + s@,
{
    let v = chars_of(s);
    append_chars(out, &v);
}


/// `s` without its trailing run of `c`.
pub open spec fn trim_end_char(s: Seq<char>, c: char) -> Seq<char>
    decreases s.len(),
{
    if s.len() > 0 && s.last() == c {
        trim_end_char(s.drop_last(), c)
    } else {
        s
    }
}

/// `s` without its leading run of `c`.
pub open spec fn trim_start_char(s: Seq<char>, c: char) -> Seq<char>
    decreases s.len(),
{
    if s.len() > 0 && s[0] == c {
        trim_start_char(s.drop_first(), c)
    } else {
        s
    }
}

/// `s` without `c` at either end, as `str::trim_matches` with a character does.
pub open spec fn trim_matches_char(s: Seq<char>, c: char) -> Seq<char> {
    trim_end_char(trim_start_char(s, c), c)
}

/// `s` without `c` at either end.
pub fn trim_matches_exec(s: &[char], c: char) -> (r: Vec<char>)
    ensures
        r@ == trim_matches_char(s@, c),
{
    let n = s.len();
    let mut a: usize = 0;
    assert(s@.subrange(0, n as int) =~= s@);
    while a < n && s[a] == c
        invariant
            a <= n == s@.len(),
            trim_start_char(s@, c) == trim_start_char(s@.subrange(a as int, n as int), c),
        decreases n - a,
    {
        assert(s@.subrange(a as int, n as int).drop_first() =~= s@.subrange(a + 1, n as int));
        a = a + 1;
    }
    let mut b: usize = n;
    while b > a && s[b - 1] == c
        invariant
            a <= b <= n == s@.len(),
            trim_matches_char(s@, c) == trim_end_char(s@.subrange(a as int, b as int), c),
        decreases b - a,
    {
        assert(s@.subrange(a as int, b as int).drop_last() =~= s@.subrange(a as int, b - 1));
        b = b - 1;
    }
    slice_chars(s, a, b)
}

/// The numbers among `ws`: each word that parses as a `u64`, in order.
pub open spec fn numbers(ws: Seq<Seq<char>>) -> Seq<u64>
    decreases ws.len(),
{
    if ws.len() == 0 {
        Seq::empty()
    } else {
        numbers(ws.drop_last()) + match parse_u64(ws.last()) {
            Some(v) => seq![v],
            None => Seq::empty(),
        }
    }
}

/// The numbers among a list of words.
pub fn numbers_exec(ws: &Vec<Vec<char>>) -> (r: Vec<u64>)
    ensures
        r@ == numbers(views(ws@)),
{
    let mut out: Vec<u64> = Vec::new();
    let mut i: usize = 0;
    while i < ws.len()
        invariant
            i <= ws@.len(),
            out@ == numbers(views(ws@).take(i as int)),
        decreases ws.len() - i,
    {
        assert(views(ws@).take(i + 1).drop_last() =~= views(ws@).take(i as int));
        match parse_u64_exec(&ws[i]) {
            Some(v) => {
                out.push(v);
            },
            None => {},
        }
        assert(out@ =~= numbers(views(ws@).take(i + 1)));
        i = i + 1;
    }
    assert(views(ws@).take(ws@.len() as int) =~= views(ws@));
    out
}

/// What `<u8 as FromStr>::from_str` yields: a decimal number that fits in eight bits.
pub open spec fn parse_u8(s: Seq<char>) -> Option<u8> {
    match parse_u64(s) {
        Some(v) => if v <= 255 {
            Some(v as u8)
        } else {
            None
        },
        None => None,
    }
}

/// Parses an unsigned 8-bit decimal number as `str::parse::<u8>` does.
pub fn parse_u8_exec(s: &[char]) -> (r: Option<u8>)
    ensures
        r == parse_u8(s@),
{
    match parse_u64_exec(s) {
        Some(v) => if v <= 255 {
            Some(v as u8)
        } else {
            None
        },
        None => None,
    }
}


/// The pieces of `s` between occurrences of the non-empty separator `sep`.
pub fn split_exec(s: &[char], sep: &[char]) -> (r: Vec<Vec<char>>)
    requires
        sep@.len() > 0,
    ensures
        views(r@) == split(s@, sep@),
{
    let n = s.len();
    let mut out: Vec<Vec<char>> = Vec::new();
    let mut start: usize = 0;
    assert(s@.subrange(0, n as int) =~= s@);
    loop
        invariant
            n == s@.len(),
            sep@.len() > 0,
            start <= n,
            split(s@, sep@) == views(out@) + split(s@.subrange(start as int, n as int), sep@),
        decreases n - start,
    {
        let ghost rest = s@.subrange(start as int, n as int);
        proof {
            lemma_find_from_shift(s@, sep@, start as int, 0);
            lemma_find_from_bounds(rest, sep@, 0);
        }
        match find_from_exec(s, sep, start) {
            Some(j) => {
                let ghost k = j - start;
                assert(find(rest, sep@) == Some(k));
                let piece = slice_chars(s, start, j);
                assert(piece@ =~= rest.subrange(0, k));
                assert(rest.subrange(k + sep@.len(), rest.len() as int) =~= s@.subrange(
                    j + sep@.len(),
                    n as int,
                ));
                out.push(piece);
                assert(views(out@) =~= views(out@.drop_last()).push(piece@));
                start = j + sep.len();
            },
            None => {
                assert(find(rest, sep@) is None);
                let piece = slice_chars(s, start, n);
                out.push(piece);
                assert(views(out@) =~= views(out@.drop_last()).push(piece@));
                return out;
            },
        }
    }
}

} // verus!
