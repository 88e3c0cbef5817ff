use wakey::companion::{
    find_provider, remark_prompt, remark_reason, remark_system_prompt, FocusWatch,
};
use wakey::types::LlmProviderConfig;

fn provider(name: &str) -> LlmProviderConfig {
    LlmProviderConfig {
        name: name.to_string(),
        api_base: "https://example.test/v1".to_string(),
        model: "m".to_string(),
        api_key_env: "KEY".to_string(),
    }
}

#[test]
fn default_provider_is_found_by_name() {
    let ps = vec![provider("a"), provider("b"), provider("b")];
    assert_eq!(find_provider(&ps, "b"), Ok(1));
    assert_eq!(
        find_provider(&ps, "c"),
        Err("LLM provider 'c' not found in config. Available providers: a, b, b".to_string())
    );
    assert_eq!(
        find_provider(&vec![], "x"),
        Err("LLM provider 'x' not found in config. Available providers: ".to_string())
    );
}

#[test]
fn every_fifth_new_window_asks_for_a_remark() {
    let mut watch = FocusWatch::new();
    let mut remarks = Vec::new();
    for i in 0..10 {
        remarks.push(watch.on_focus_changed("code", &format!("file{}.rs", i)));
    }
    assert_eq!(
        remarks,
        vec![false, false, false, false, true, false, false, false, false, true]
    );
    assert_eq!(watch.focus_count(), 10);
    assert_eq!(watch.last_window(), "code - file9.rs");
    assert!(!watch.on_focus_changed("code", "file9.rs"));
    assert_eq!(watch.focus_count(), 10);
}

#[test]
fn remark_texts() {
    let p = remark_prompt("Buddy", "code - main.rs");
    assert!(p.starts_with("You are Buddy, a friendly"));
    assert!(p.contains("The user is currently looking at: code - main.rs."));
    assert!(p.ends_with("Keep it short and natural."));
    assert_eq!(
        remark_system_prompt("Buddy"),
        "You are Buddy, a friendly desktop AI companion."
    );
    assert_eq!(remark_reason("x - y"), "Window context: x - y");
}
