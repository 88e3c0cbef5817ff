use wakey::context::filesystem::{ContextEntry, ContextPath, URI_SCHEME};
use wakey::context::memory::{
    abstract_line_of, escape_fts5, extract_title, generate_l0, generate_l1, MemoryCategory,
};
use wakey::context::tiers::{ContextLevel, TieredContent};

#[test]
fn test_context_path_new() {
    let path = ContextPath::new("user/memories/preferences.md");
    assert_eq!(path.scope(), "user");
    assert_eq!(path.path(), "memories/preferences.md");
    assert_eq!(path.uri(), "wakey://user/memories/preferences.md");
}

#[test]
fn test_context_path_from_uri() {
    let path = ContextPath::from_uri("wakey://agent/skills/test-skill/SKILL.md");
    assert_eq!(path.scope(), "agent");
    assert_eq!(path.path(), "skills/test-skill/SKILL.md");
}

#[test]
fn test_context_path_parent() {
    let path = ContextPath::new("user/memories/preferences.md");
    let parent = path.parent().unwrap();
    assert_eq!(parent.scope(), "user");
    assert_eq!(parent.path(), "memories");
}

#[test]
fn test_context_level_ordering() {
    assert!(ContextLevel::Abstract < ContextLevel::Overview);
    assert!(ContextLevel::Overview < ContextLevel::Detail);
    assert_eq!(ContextLevel::Abstract.name(), "L0");
    assert_eq!(ContextLevel::Overview.name(), "L1");
    assert_eq!(ContextLevel::Detail.name(), "L2");
}

#[test]
fn test_tiered_content_estimate_tokens() {
    let tiered = TieredContent::new(
        ContextPath::new("test.md"),
        "Short abstract".to_string(),
        "This is a longer overview that contains more information about the content."
            .to_string(),
    );

    let l0_tokens = tiered.estimate_tokens(ContextLevel::Abstract);
    let l1_tokens = tiered.estimate_tokens(ContextLevel::Overview);

    assert!(l0_tokens < l1_tokens);
}

#[test]
fn uri_round_trip_on_a_path() {
    let path = ContextPath::new("agent/skills/deploy/SKILL.md");
    let back = ContextPath::from_uri(&path.uri());
    assert_eq!(back.scope(), path.scope());
    assert_eq!(back.path(), path.path());
    assert!(path.uri().starts_with(URI_SCHEME));
}

#[test]
fn scope_only_path_and_its_parent() {
    let path = ContextPath::new("user");
    assert_eq!(path.scope(), "user");
    assert_eq!(path.path(), "");
    assert!(path.parent().is_none());
    assert_eq!(path.uri(), "wakey://user");
}

#[test]
fn top_level_entry_has_no_parent() {
    let path = ContextPath::new("user/notes.md");
    assert!(path.parent().is_none());
    assert_eq!(path.file_name(), Some("notes.md"));
}

#[test]
fn child_then_parent_gives_back_path() {
    let dir = ContextPath::new("user/memories");
    let child = dir.child("today.md");
    assert_eq!(child.path(), "memories/today.md");
    let parent = child.parent().unwrap();
    assert_eq!(parent.path(), "memories");
    assert_eq!(child.file_name(), Some("today.md"));
}

#[test]
fn directory_paths_end_with_slash() {
    assert!(ContextPath::new("user/memories/").is_dir());
    assert!(!ContextPath::new("user/memories/a.md").is_dir());
}

#[test]
fn context_entry_keeps_its_fields() {
    let entry = ContextEntry::new(ContextPath::new("user/a.md"), false, 42, 7);
    assert_eq!(entry.path().path(), "a.md");
    assert!(!entry.is_dir());
    assert_eq!(entry.size(), 42);
    assert_eq!(entry.mtime(), 7);
}

#[test]
fn fts5_specials_are_escaped() {
    assert_eq!(escape_fts5("a-b"), "a\\-b");
    assert_eq!(escape_fts5("(x|y)*"), "\\(x\\|y\\)\\*");
    assert_eq!(escape_fts5("plain words"), "plain words");
}

#[test]
fn memory_category_names_round_trip() {
    for name in ["core", "daily", "conversation", "skill", "project-x"] {
        let cat = MemoryCategory::parse(name);
        assert_eq!(cat.as_str(), name);
    }
    assert_eq!(MemoryCategory::parse("core"), MemoryCategory::Core);
    assert_eq!(
        MemoryCategory::parse("notes"),
        MemoryCategory::Custom("notes".to_string())
    );
}

#[test]
fn tiered_detail_falls_back_to_overview() {
    let mut tiered = TieredContent::new(
        ContextPath::new("user/a.md"),
        "abs".to_string(),
        "overview text".to_string(),
    );
    assert!(!tiered.is_l2_loaded());
    assert_eq!(tiered.get(ContextLevel::Detail), "overview text");
    tiered.fill_l2("the full detail".to_string());
    assert!(tiered.is_l2_loaded());
    assert_eq!(tiered.get(ContextLevel::Detail), "the full detail");
    tiered.fill_l2("ignored".to_string());
    assert_eq!(tiered.get(ContextLevel::Detail), "the full detail");
    assert_eq!(tiered.estimate_tokens(ContextLevel::Abstract), 0);
    assert_eq!(tiered.estimate_tokens(ContextLevel::Detail), 3);
}

#[test]
fn abstracts_and_overviews_of_memories() {
    let content = "\n   \n# Test Memory  \n\nThis is the full content.\nline3\nline4\nline5\nline6";
    assert_eq!(generate_l0(content), "# Test Memory");
    assert_eq!(
        generate_l1(content),
        "# Test Memory  \nThis is the full content.\nline3\nline4\nline5"
    );
    let long = "a".repeat(150);
    assert_eq!(generate_l0(&long), "a".repeat(100));
    assert_eq!(generate_l0("   "), "");
    assert_eq!(abstract_line_of("x\ny"), "x");
    let wide = format!("{}\n{}", "b".repeat(300), "c".repeat(300));
    assert_eq!(generate_l1(&wide).len(), 500);
    assert_eq!(extract_title("user/memories/preferences.md"), "preferences");
    assert_eq!(extract_title("notes"), "notes");
    assert_eq!(extract_title("a/b.md.md"), "b");
}
