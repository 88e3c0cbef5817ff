//! Tiered content: abstract, overview and full detail of a context entry.
use vstd::prelude::*;
use vstd::utf8::encode_utf8;
use crate::context::filesystem::ContextPath;

verus! {

/// Context level for tiered loading.
#[derive(Debug, Clone, Copy, PartialEq, Eq, PartialOrd, Ord)]
pub enum ContextLevel {
    /// L0: Abstract summary (~100 chars)
    Abstract,
    /// L1: Overview (~500 chars)
    Overview,
    /// L2: Full detail (complete content)
    Detail,
}

/// The short name of a level.
pub open spec fn level_name(l: ContextLevel) -> Seq<char> {
    match l {
        ContextLevel::Abstract => seq!['L', '0'],
        ContextLevel::Overview => seq!['L', '1'],
        ContextLevel::Detail => seq!['L', '2'],
    }
}

impl ContextLevel {
    /// Get human-readable name.
    pub fn name(&self) -> (r: &'static str)
        ensures
            r@ == level_name(*self),
    {
        match self {
            ContextLevel::Abstract => {
                proof {
                    reveal_strlit("L0");
                }
                "L0"
            },
            ContextLevel::Overview => {
                proof {
                    reveal_strlit("L1");
                }
                "L1"
            },
            ContextLevel::Detail => {
                proof {
                    reveal_strlit("L2");
                }
                "L2"
            },
        }
    }
}

/// Tiered content container.
#[derive(Debug, Clone)]
pub struct TieredContent {
    /// Context path (URI)
    pub path: ContextPath,
    /// L0 abstract summary (~100 chars)
    pub l0_abstract: String,
    /// L1 overview (~500 chars)
    pub l1_overview: String,
    /// L2 full content (loaded on demand)
    pub l2_detail: Option<String>,
    /// Whether L2 has been loaded
    l2_loaded: bool,
}

impl TieredContent {
    pub closed spec fn path_spec(&self) -> ContextPath {
        self.path
    }

    pub closed spec fn l0_spec(&self) -> Seq<char> {
        self.l0_abstract@
    }

    pub closed spec fn l1_spec(&self) -> Seq<char> {
        self.l1_overview@
    }

    pub closed spec fn l2_spec(&self) -> Option<Seq<char>> {
        match self.l2_detail {
            Some(d) => Some(d@),
            None => None,
        }
    }

    pub closed spec fn loaded_spec(&self) -> bool {
        self.l2_loaded
    }

    /// The text at a level: the detail falls back to the overview until it is loaded.
    pub open spec fn text_at(&self, level: ContextLevel) -> Seq<char> {
        match level {
            ContextLevel::Abstract => self.l0_spec(),
            ContextLevel::Overview => self.l1_spec(),
            ContextLevel::Detail => match self.l2_spec() {
                Some(d) => d,
                None => self.l1_spec(),
            },
        }
    }

    /// Create new tiered content with L0/L1 summaries.
    pub fn new(path: ContextPath, l0_abstract: String, l1_overview: String) -> (r: Self)
        ensures
            r.path_spec() == path,
            r.l0_spec() == l0_abstract@,
            r.l1_spec() == l1_overview@,
            r.l2_spec() is None,
            !r.loaded_spec(),
    {
        TieredContent { path, l0_abstract, l1_overview, l2_detail: None, l2_loaded: false }
    }

    /// Get content at a specific level.
    pub fn get(&self, level: ContextLevel) -> (r: &str)
        ensures
            r@ == self.text_at(level),
    {
        match level {
            ContextLevel::Abstract => self.l0_abstract.as_str(),
            ContextLevel::Overview => self.l1_overview.as_str(),
            ContextLevel::Detail => match &self.l2_detail {
                Some(d) => d.as_str(),
                None => self.l1_overview.as_str(),
            },
        }
    }

    /// Check if L2 is loaded.
    pub fn is_l2_loaded(&self) -> (r: bool)
        ensures
            r == self.loaded_spec(),
    {
        self.l2_loaded
    }

    /// Records the full content read for L2; content that is already loaded is kept.
    pub fn fill_l2(&mut self, content: String)
        ensures
            old(self).loaded_spec() ==> *final(self) == *old(self),
            !old(self).loaded_spec() ==> final(self).l2_spec() == Some(content@)
                && final(self).loaded_spec() && final(self).l0_spec() == old(self).l0_spec()
                && final(self).l1_spec() == old(self).l1_spec() && final(self).path_spec() == old(self).path_spec(),
    {
        if self.l2_loaded {
            return;
        }
        self.l2_detail = Some(content);
        self.l2_loaded = true;
    }

    /// Estimate token count for the content: a quarter of its length in UTF-8 bytes.
    pub fn estimate_tokens(&self, level: ContextLevel) -> (r: usize)
        ensures
            r == (encode_utf8(self.text_at(level)).len() as usize) / 4,
    {
        let content = self.get(level);
        content.len() / 4
    }
}

} // verus!
