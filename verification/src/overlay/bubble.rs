//! The speech bubble's typewriter and auto-hide timing. Times are milliseconds
//! on a monotonic clock.
use vstd::prelude::*;
use vstd::utf8::encode_utf8;

verus! {

/// Characters revealed per second by the typewriter.
pub const CHARS_PER_SEC: u64 = 30;

/// How long a bubble stays up, in milliseconds.
pub const AUTO_HIDE_DELAY_MS: u64 = 10_000;

/// Chat bubble state.
#[derive(Debug)]
pub struct Bubble {
    /// Text to display
    text: String,
    /// How many bytes of the text are currently visible (typewriter effect)
    visible_chars: usize,
    /// When the typewriter started
    typewriter_start: Option<u64>,
    /// When the bubble should auto-hide
    hide_after: Option<u64>,
    /// Whether the bubble is currently visible
    visible: bool,
}

/// The length of a text in UTF-8 bytes, as `str::len` counts it.
pub open spec fn byte_len(s: Seq<char>) -> int {
    encode_utf8(s).len() as usize as int
}

/// The visible prefix after `elapsed_ms`: thirty characters per second, no more than the text.
pub open spec fn typewriter_target(elapsed_ms: u64, len: int) -> int {
    let t = (elapsed_ms as int) * CHARS_PER_SEC / 1000;
    if t < len {
        t
    } else {
        len
    }
}

/// Whether the hide time has come.
pub open spec fn hides_at(hide_after: Option<u64>, now: u64) -> bool {
    match hide_after {
        Some(h) => now >= h,
        None => false,
    }
}

impl Bubble {
    pub closed spec fn text_spec(&self) -> Seq<char> {
        self.text@
    }

    pub closed spec fn visible_spec(&self) -> bool {
        self.visible
    }

    pub closed spec fn visible_chars_spec(&self) -> usize {
        self.visible_chars
    }

    pub closed spec fn typewriter_start_spec(&self) -> Option<u64> {
        self.typewriter_start
    }

    pub closed spec fn hide_after_spec(&self) -> Option<u64> {
        self.hide_after
    }

    /// Create a new hidden bubble.
    pub fn new() -> (r: Self)
        ensures
            !r.visible_spec(),
            r.text_spec() == Seq::<char>::empty(),
            r.visible_chars_spec() == 0,
            r.typewriter_start_spec() is None,
            r.hide_after_spec() is None,
    {
        Bubble {
            text: String::new(),
            visible_chars: 0,
            typewriter_start: None,
            hide_after: None,
            visible: false,
        }
    }

    /// Show a new message in the bubble, at time `now`; the typewriter starts
    /// from the beginning and the bubble hides ten seconds later.
    pub fn show(&mut self, text: &str, now: u64)
        requires
            now + AUTO_HIDE_DELAY_MS <= u64::MAX,
        ensures
            final(self).visible_spec(),
            final(self).text_spec() == text@,
            final(self).visible_chars_spec() == 0,
            final(self).typewriter_start_spec() == Some(now),
            final(self).hide_after_spec() == Some((now + AUTO_HIDE_DELAY_MS) as u64),
    {
        self.text = String::from_str(text);
        self.visible_chars = 0;
        self.typewriter_start = Some(now);
        self.hide_after = Some(now + AUTO_HIDE_DELAY_MS);
        self.visible = true;
    }

    /// Hide the bubble immediately.
    pub fn hide_now(&mut self)
        ensures
            !final(self).visible_spec(),
            final(self).text_spec() == Seq::<char>::empty(),
            final(self).visible_chars_spec() == 0,
            final(self).typewriter_start_spec() is None,
            final(self).hide_after_spec() is None,
    {
        self.visible = false;
        self.text = String::new();
        self.visible_chars = 0;
        self.typewriter_start = None;
        self.hide_after = None;
    }

    /// Update bubble state (typewriter progress, auto-hide) at time `now`.
    /// Returns true if a redraw is needed.
    pub fn update(&mut self, now: u64) -> (r: bool)
        ensures
            !old(self).visible_spec() ==> !r && *final(self) == *old(self),
            old(self).visible_spec() && hides_at(old(self).hide_after_spec(), now) ==> r && !final(self).visible_spec() && final(self).text_spec() == Seq::<
                char,
            >::empty() && final(self).visible_chars_spec() == 0,
            old(self).visible_spec() && !hides_at(old(self).hide_after_spec(), now) ==> final(self).visible_spec() && final(self).text_spec() == old(self).text_spec()
                && final(self).hide_after_spec() == old(self).hide_after_spec() && ({
                let len = byte_len(old(self).text_spec());
                if old(self).visible_chars_spec() < len && old(self).typewriter_start_spec() is Some {
                    let start = old(self).typewriter_start_spec()->0;
                    let elapsed = if now >= start {
                        (now - start) as u64
                    } else {
                        0u64
                    };
                    let target = typewriter_target(elapsed, len);
                    &&& final(self).visible_chars_spec() == target
                    &&& r == (target != old(self).visible_chars_spec())
                    &&& final(self).typewriter_start_spec() == if target >= len {
                        None
                    } else {
                        Some(start)
                    }
                } else {
                    &&& final(self).visible_chars_spec() == old(self).visible_chars_spec()
                    &&& final(self).typewriter_start_spec() == old(self).typewriter_start_spec()
                    &&& !r
                }
            }),
    {
        if !self.visible {
            return false;
        }
        let mut needs_redraw = false;
        let len = self.text.as_str().len();
        if self.visible_chars < len {
            if let Some(start) = self.typewriter_start {
                let elapsed: u64 = if now >= start {
                    now - start
                } else {
                    0
                };
                let t: u128 = (elapsed as u128) * (CHARS_PER_SEC as u128) / 1000;
                let new_chars: usize = if t < len as u128 {
                    t as usize
                } else {
                    len
                };
                if new_chars != self.visible_chars {
                    self.visible_chars = new_chars;
                    needs_redraw = true;
                }
                if self.visible_chars >= len {
                    self.typewriter_start = None;
                }
            }
        }
        if let Some(hide_time) = self.hide_after {
            if now >= hide_time {
                self.hide_now();
                needs_redraw = true;
            }
        }
        needs_redraw
    }

    /// Check if the bubble is currently visible.
    pub fn is_visible(&self) -> (r: bool)
        ensures
            r == self.visible_spec(),
    {
        self.visible
    }

    /// The text shown.
    pub fn text(&self) -> (r: &str)
        ensures
            r@ == self.text_spec(),
    {
        self.text.as_str()
    }

    /// How many bytes of the text the typewriter has revealed.
    pub fn visible_chars(&self) -> (r: usize)
        ensures
            r == self.visible_chars_spec(),
    {
        self.visible_chars
    }
}

} // verus!
