use wakey::skills::dag::{SkillDag, MAX_SCC_NODES};
use wakey::skills::format::{
    generate_abstract, generate_overview, parse_frontmatter, skill_content_from,
    split_frontmatter, SkillContent, SkillManifest, DEFAULT_VERSION, MAX_NAME_LEN,
};

fn make_skill_content(frontmatter: &str, body: &str) -> String {
    format!("---\n{}\n---\n{}", frontmatter, body)
}

fn make_manifest(name: &str, deps: Vec<&str>) -> SkillManifest {
    SkillManifest {
        name: name.into(),
        description: format!("{} skill", name),
        version: "1.0.0".into(),
        dependencies: deps.into_iter().map(String::from).collect(),
        tags: vec![],
        platforms: vec![],
    }
}

#[test]
fn test_split_frontmatter() {
    let content = make_skill_content(
        "name: test-skill\ndescription: A test",
        "# Test Skill\n\nSome content",
    );

    let (fm, b) = split_frontmatter(&content).unwrap();
    assert_eq!(fm, "name: test-skill\ndescription: A test");
    assert_eq!(b, "# Test Skill\n\nSome content");
}

#[test]
fn test_split_frontmatter_missing() {
    let content = "No frontmatter here";
    let result = split_frontmatter(content);
    assert!(result.is_err());
}

#[test]
fn test_parse_frontmatter_valid() {
    let yaml = "name: deploy-app\ndescription: Deploy to production\nversion: 1.0.0\ndependencies:\n  - fix-lint\ntags:\n  - devops";
    let path = "test/SKILL.md";

    let manifest = parse_frontmatter(yaml, path).unwrap();
    assert_eq!(manifest.name, "deploy-app");
    assert_eq!(manifest.description, "Deploy to production");
    assert_eq!(manifest.version, "1.0.0");
    assert_eq!(manifest.dependencies, vec!["fix-lint"]);
    assert_eq!(manifest.tags, vec!["devops"]);
}

#[test]
fn test_parse_frontmatter_missing_name() {
    let yaml = "description: Missing name";
    let path = "test/SKILL.md";

    let result = parse_frontmatter(yaml, path);
    assert!(result.is_err());
    assert!(result
        .unwrap_err()
        .to_string()
        .contains("Missing required field: name"));
}

#[test]
fn test_parse_frontmatter_name_too_long() {
    let yaml = format!("name: {}\ndescription: Test", "x".repeat(MAX_NAME_LEN + 1));
    let path = "test/SKILL.md";

    let result = parse_frontmatter(&yaml, path);
    assert!(result.is_err());
    assert!(result.unwrap_err().to_string().contains("exceeds"));
}

#[test]
fn test_generate_abstract() {
    let content = SkillContent {
        manifest: SkillManifest {
            name: "test".into(),
            description: "test".into(),
            version: "1.0.0".into(),
            dependencies: vec![],
            tags: vec![],
            platforms: vec![],
        },
        body: "## Overview\n\nThis skill does things.\n\n## Procedure\n\nStep 1.".into(),
        source_path: "test".into(),
        mtime: 0,
    };

    let skill_abstract = generate_abstract(&content);
    assert_eq!(skill_abstract, "This skill does things.");
}

#[test]
fn test_generate_overview() {
    let content = SkillContent {
        manifest: SkillManifest {
            name: "test".into(),
            description: "test".into(),
            version: "1.0.0".into(),
            dependencies: vec![],
            tags: vec![],
            platforms: vec![],
        },
        body: "## When to Use\nWhen asked to test.\n\n## Procedure\n1. Do it.\n\n## Pitfalls\nDon't fail.".into(),
        source_path: "test".into(),
        mtime: 0,
    };

    let overview = generate_overview(&content);
    assert!(overview.contains("## When to Use"));
    assert!(overview.contains("## Procedure"));
    assert!(overview.contains("## Pitfalls"));
}

#[test]
fn frontmatter_defaults_and_errors() {
    let m = parse_frontmatter("name: a\ndescription: b", "p").unwrap();
    assert_eq!(m.version, DEFAULT_VERSION);
    assert!(m.dependencies.is_empty());
    let err = parse_frontmatter("name: a", "p").unwrap_err();
    assert_eq!(err.skill, "p");
    assert!(err.message.contains("description"));
    let err = parse_frontmatter("name: [unclosed", "p").unwrap_err();
    assert!(err.message.starts_with("Invalid YAML frontmatter: "));
    let err = parse_frontmatter("name: a\ndescription: b", "p");
    assert!(err.is_ok());
    let e = split_frontmatter("plain").unwrap_err();
    assert_eq!(e.to_string(), format!("Skill error ({}): {}", e.skill, e.message));
}

#[test]
fn skill_content_reads_whole_file() {
    let text = make_skill_content("name: s\ndescription: d", "\n# Body\n");
    let content = skill_content_from(&text, "skills/s/SKILL.md", 9).unwrap();
    assert_eq!(content.manifest.name, "s");
    assert_eq!(content.body, "# Body");
    assert_eq!(content.source_path, "skills/s/SKILL.md");
    assert_eq!(content.mtime, 9);
    assert!(skill_content_from("nothing", "p", 0).is_err());
}

#[test]
fn test_dag_build() {
    let skills = vec![
        make_manifest("app", vec!["db", "config"]),
        make_manifest("db", vec!["config"]),
        make_manifest("config", vec![]),
    ];

    let dag = SkillDag::build(&skills);

    assert_eq!(dag.skill_names().len(), 3);
    assert!(dag.contains("app"));
    assert!(dag.contains("db"));
    assert!(dag.contains("config"));
}

#[test]
fn test_resolve_order() {
    let skills = vec![
        make_manifest("app", vec!["db", "config"]),
        make_manifest("db", vec!["config"]),
        make_manifest("config", vec![]),
    ];

    let dag = SkillDag::build(&skills);
    let order = dag.resolve_order("app").expect("Resolve order");

    let config_pos = order
        .iter()
        .position(|n| n == "config")
        .expect("config in order");
    let db_pos = order.iter().position(|n| n == "db").expect("db in order");
    let app_pos = order.iter().position(|n| n == "app").expect("app in order");

    assert!(config_pos < db_pos, "config before db");
    assert!(config_pos < app_pos, "config before app");
    assert!(db_pos < app_pos, "db before app");
}

#[test]
fn test_detect_cycles() {
    let skills = vec![
        make_manifest("a", vec!["b"]),
        make_manifest("b", vec!["c"]),
        make_manifest("c", vec!["a"]),
    ];

    let dag = SkillDag::build(&skills);
    let cycles = dag.detect_cycles();

    assert_eq!(cycles.len(), 1);
    assert_eq!(cycles[0].len(), 3);
}

#[test]
fn test_find_orphans() {
    let skills = vec![make_manifest("app", vec!["missing-dep"])];

    let dag = SkillDag::build(&skills);
    let orphans = dag.find_orphans();

    assert_eq!(orphans.len(), 1);
    assert_eq!(orphans[0], ("app".into(), "missing-dep".into()));
}

#[test]
fn test_get_dependencies() {
    let skills = vec![
        make_manifest("app", vec!["db", "config"]),
        make_manifest("db", vec![]),
        make_manifest("config", vec![]),
    ];

    let dag = SkillDag::build(&skills);
    let deps = dag.get_dependencies("app").expect("Get deps");

    assert_eq!(deps.len(), 2);
    assert!(deps.contains(&"db".into()));
    assert!(deps.contains(&"config".into()));
}

#[test]
fn test_get_dependents() {
    let skills = vec![
        make_manifest("app", vec!["config"]),
        make_manifest("db", vec!["config"]),
        make_manifest("config", vec![]),
    ];

    let dag = SkillDag::build(&skills);
    let dependents = dag.get_dependents("config").expect("Get dependents");

    assert_eq!(dependents.len(), 2);
    assert!(dependents.contains(&"app".into()));
    assert!(dependents.contains(&"db".into()));
}

#[test]
fn resolve_order_takes_only_what_is_needed() {
    let skills = vec![
        make_manifest("app", vec!["db"]),
        make_manifest("db", vec![]),
        make_manifest("other", vec!["db"]),
    ];
    let dag = SkillDag::build(&skills);
    assert_eq!(dag.resolve_order("app").unwrap(), vec!["db", "app"]);
    assert_eq!(dag.resolve_order("db").unwrap(), vec!["db"]);
    let err = dag.resolve_order("ghost").unwrap_err();
    assert_eq!(err.skill, "ghost");
    assert_eq!(err.message, "Skill not found in DAG");
}

#[test]
fn resolve_order_reports_a_cycle() {
    let skills = vec![
        make_manifest("a", vec!["b"]),
        make_manifest("b", vec!["a"]),
        make_manifest("c", vec![]),
    ];
    let dag = SkillDag::build(&skills);
    let err = dag.resolve_order("a").unwrap_err();
    assert_eq!(err.skill, "a");
    assert!(err.message.starts_with("Dependency cycle detected at node NodeIndex("));
    assert_eq!(dag.resolve_order("c").unwrap(), vec!["c"]);
}

#[test]
fn order_from_a_given_sort() {
    let skills = vec![
        make_manifest("app", vec!["db"]),
        make_manifest("db", vec![]),
    ];
    let dag = SkillDag::build(&skills);
    assert_eq!(dag.order_from_sort("app", Ok(vec![1, 0])).unwrap(), vec!["db", "app"]);
    let err = dag.order_from_sort("app", Err(4)).unwrap_err();
    assert_eq!(err.message, "Dependency cycle detected at node NodeIndex(4)");
    let cycles = dag.cycles_from_components(&vec![vec![0], vec![1, 0]]);
    assert_eq!(cycles, vec![vec!["db".to_string(), "app".to_string()]]);
}

#[test]
fn later_skill_of_a_name_wins() {
    let mut second = make_manifest("db", vec![]);
    second.description = "second".into();
    let skills = vec![make_manifest("db", vec![]), second, make_manifest("app", vec!["db"])];
    let dag = SkillDag::build(&skills);
    assert_eq!(dag.get("db").unwrap().manifest.description, "second");
    assert_eq!(dag.skill_names(), vec!["db", "app"]);
    let stats = dag.stats();
    assert_eq!(stats.node_count, 3);
    assert_eq!(stats.edge_count, 1);
    assert_eq!(stats.cycle_count, 0);
    assert_eq!(stats.orphan_count, 0);
    assert!(dag.get("nope").is_none());
    assert!(dag.get_dependents("nope").is_none());
}

#[test]
fn newest_dependency_edge_listed_first() {
    let skills = vec![
        make_manifest("app", vec!["db", "config"]),
        make_manifest("db", vec![]),
        make_manifest("config", vec![]),
    ];
    let dag = SkillDag::build(&skills);
    assert_eq!(dag.get_dependencies("app").unwrap(), vec!["config", "db"]);
}

#[test]
fn cycles_elsewhere_do_not_block_resolution() {
    let skills = vec![
        make_manifest("app", vec!["db", "config"]),
        make_manifest("db", vec!["config"]),
        make_manifest("config", vec![]),
        make_manifest("x", vec!["y"]),
        make_manifest("y", vec!["x"]),
    ];
    let dag = SkillDag::build(&skills);
    assert_eq!(
        dag.resolve_order("app").expect("Resolve order"),
        vec!["config".to_string(), "db".to_string(), "app".to_string()]
    );
    assert!(dag.resolve_order("x").is_err());
    assert_eq!(dag.detect_cycles().len(), 1);
}

#[test]
fn a_cycle_among_dependencies_blocks_resolution() {
    let skills = vec![
        make_manifest("app", vec!["a"]),
        make_manifest("a", vec!["b"]),
        make_manifest("b", vec!["a"]),
        make_manifest("solo", vec!["solo"]),
    ];
    let dag = SkillDag::build(&skills);
    let err = dag.resolve_order("app").unwrap_err();
    assert_eq!(err.skill, "app");
    assert!(err.message.starts_with("Dependency cycle detected at node NodeIndex("));
    assert!(dag.resolve_order("solo").is_err());
    assert!(dag.resolve_order("missing").is_err());
}

#[test]
fn the_largest_searchable_chain_is_searched() {
    let skills: Vec<SkillManifest> = (0..MAX_SCC_NODES)
        .map(|i| {
            let name = format!("s{}", i);
            if i == 0 {
                make_manifest(&name, vec![])
            } else {
                let dep = format!("s{}", i - 1);
                make_manifest(&name, vec![dep.as_str()])
            }
        })
        .collect();
    let dag = SkillDag::build(&skills);
    assert!(dag.detect_cycles().is_empty());
    let last = format!("s{}", MAX_SCC_NODES - 1);
    let order = dag.resolve_order(&last).expect("Resolve order");
    assert_eq!(order.len(), MAX_SCC_NODES);
    assert_eq!(order[0], "s0");
}
