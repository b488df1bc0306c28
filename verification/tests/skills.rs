use canon_agent::capability::skills::{
    compose_skill, split_frontmatter, DevelopmentObjectiveKind, DevelopmentStrategyKind, Skill,
};

#[test]
fn skill_supports_empty_lists_matches_all() {
    let skill = Skill {
        name: "any".to_string(),
        description: String::new(),
        effort: None,
        objectives: Vec::new(),
        strategies: Vec::new(),
        tools: Vec::new(),
        preconditions: Vec::new(),
        prompt: String::new(),
    };
    assert!(skill.supports(
        Some(DevelopmentObjectiveKind::ReduceCompilerFailures),
        Some(DevelopmentStrategyKind::FixConfigLintPolicy)
    ));
    assert!(skill.supports(None, None));
}

#[test]
fn skill_supports_filtered_objective_rejects_mismatch() {
    let skill = Skill {
        name: "targeted".to_string(),
        description: String::new(),
        effort: None,
        objectives: vec![DevelopmentObjectiveKind::ReduceCompilerFailures],
        strategies: Vec::new(),
        tools: Vec::new(),
        preconditions: Vec::new(),
        prompt: String::new(),
    };
    assert!(skill.supports(Some(DevelopmentObjectiveKind::ReduceCompilerFailures), None));
    assert!(!skill.supports(Some(DevelopmentObjectiveKind::IncreaseTestCoverage), None));
}

#[test]
fn split_frontmatter_parses_correct_sections() {
    let content = "---\nname: foo\n---\nBody here.\n";
    let (fm, body) = split_frontmatter(content);
    // The `\n` before `---` is the delimiter, not part of the FM slice.
    assert_eq!(fm.as_deref(), Some("\nname: foo"));
    assert!(body.contains("Body here."));
}

#[test]
fn split_frontmatter_returns_none_when_no_markers() {
    let content = "Just a body.\n";
    let (fm, body) = split_frontmatter(content);
    assert!(fm.is_none());
    assert!(body.contains("Just a body."));
}

#[test]
fn split_frontmatter_edges() {
    let (fm, body) = split_frontmatter("  ---a\n---");
    assert_eq!(fm.as_deref(), Some("a"));
    assert_eq!(body, "");
    let (fm, body) = split_frontmatter("---\nno end marker");
    assert!(fm.is_none());
    assert_eq!(body, "---\nno end marker");
}

#[test]
fn composed_skill_defaults_and_joins_prompts() {
    let skill = compose_skill(
        "fix-lint",
        None,
        None,
        None,
        Some(vec![DevelopmentObjectiveKind::ReduceCompilerFailures]),
        None,
        None,
        None,
        &vec!["Shared part.".to_string()],
        "\n Apply the lint fix here.\n",
    );
    assert_eq!(skill.name, "fix-lint");
    assert_eq!(skill.description, "");
    assert_eq!(skill.prompt, "Shared part.\n\nApply the lint fix here.");
    assert!(skill.supports(
        Some(DevelopmentObjectiveKind::ReduceCompilerFailures),
        Some(DevelopmentStrategyKind::AddRegressionTest)
    ));
    assert_eq!(DevelopmentObjectiveKind::ImproveModuleCohesion.as_str(), "improve_module_cohesion");
    assert_eq!(DevelopmentStrategyKind::SimplifyPlanBatch.as_str(), "simplify_plan_batch");
}
