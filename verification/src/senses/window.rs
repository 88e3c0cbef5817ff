//! The focused window: reading the window-class property.
use vstd::prelude::*;
use crate::text::{
    after_first, after_first_exec, before_first, before_first_exec, chars_of, find, find_exec,
    rfind, rfind_exec, slice_chars, string_of, trim, trim_exec, trim_matches_char,
    trim_matches_exec, lemma_find_from_bounds, lemma_rfind_from_bounds, str_eq,
};

verus! {

/// The first class name of a window-class property, as in
/// `WM_CLASS(STRING) = "firefox", "Firefox"`: the text after the first `=`
/// (up to a next `=`), trimmed; from its first `"` to its first `,` (or, with
/// no comma, its last `"`), without quotes and trimmed. Empty when the
/// property does not have that shape.
pub open spec fn wm_class_spec(output: Seq<char>) -> Seq<char> {
    match after_first(output, seq!['=']) {
        None => Seq::empty(),
        Some(rest) => {
            let classes = trim(before_first(rest, seq!['=']));
            let start = find(classes, seq!['"']);
            let end = match find(classes, seq![',']) {
                Some(e) => Some(e),
                None => rfind(classes, seq!['"']),
            };
            match start {
                Some(s) => match end {
                    Some(e) => if e > s {
                        trim(trim_matches_char(classes.subrange(s + 1, e), '"'))
                    } else {
                        Seq::empty()
                    },
                    None => Seq::empty(),
                },
                None => Seq::empty(),
            }
        },
    }
}

/// Parse the window-class property and return its first class name.
pub fn parse_wm_class(output: &str) -> (r: String)
    ensures
        r@ == wm_class_spec(output@),
{
    let o = chars_of(output);
    let eq = vec!['='];
    let quote = vec!['"'];
    let comma = vec![','];
    assert(eq@ == seq!['=']);
    assert(quote@ == seq!['"']);
    assert(comma@ == seq![',']);
    let rest = match after_first_exec(&o, &eq) {
        Some(r) => r,
        None => {
            return String::new();
        },
    };
    let part = before_first_exec(&rest, &eq);
    let classes = trim_exec(&part);
    proof {
        lemma_find_from_bounds(classes@, seq!['"'], 0);
        lemma_find_from_bounds(classes@, seq![','], 0);
        lemma_rfind_from_bounds(classes@, seq!['"'], classes@.len() - 1);
    }
    let start = find_exec(&classes, &quote);
    let end = match find_exec(&classes, &comma) {
        Some(e) => Some(e),
        None => rfind_exec(&classes, &quote),
    };
    match start {
        Some(s) => match end {
            Some(e) => {
                if e > s {
                    let inner = slice_chars(&classes, s + 1, e);
                    let unquoted = trim_matches_exec(&inner, '"');
                    let t = trim_exec(&unquoted);
                    string_of(&t)
                } else {
                    String::new()
                }
            },
            None => String::new(),
        },
        None => String::new(),
    }
}

/// The focused window's (application, title), from its title and its
/// window-class property; none when either comes out empty.
pub open spec fn window_spec(title: Seq<char>, class_output: Seq<char>) -> Option<
    (Seq<char>, Seq<char>),
> {
    let app = wm_class_spec(class_output);
    if app.len() == 0 || title.len() == 0 {
        None
    } else {
        Some((app, title))
    }
}

/// A window answer as plain values.
pub open spec fn window_view(r: Option<(String, String)>) -> Option<(Seq<char>, Seq<char>)> {
    match r {
        Some((a, t)) => Some((a@, t@)),
        None => None,
    }
}

/// The focused window's (application, title), from what the window tools
/// printed: its title and its window-class property, each absent where the
/// command failed. None when either is absent or comes out empty; both
/// outputs are read without surrounding whitespace.
pub fn get_active_window(title_output: Option<&str>, class_output: Option<&str>) -> (r: Option<
    (String, String),
>)
    ensures
        match (title_output, class_output) {
            (Some(t), Some(c)) => window_view(r) == window_spec(trim(t@), trim(c@)),
            _ => r is None,
        },
{
    match (title_output, class_output) {
        (Some(t), Some(c)) => {
            let title = string_of(&trim_exec(&chars_of(t)));
            let class = string_of(&trim_exec(&chars_of(c)));
            let app = parse_wm_class(class.as_str());
            if app.as_str().unicode_len() == 0 || title.as_str().unicode_len() == 0 {
                None
            } else {
                Some((app, title))
            }
        },
        _ => None,
    }
}

} // verus!
