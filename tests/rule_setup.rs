use prompt_kit::engine::{Rule, ValidationEngine};
use prompt_kit::priority::Priority;
use prompt_kit::setup::{create_validator, ChoiceOptions, RuleConfig, RuleKind};

fn config(kind: RuleKind) -> RuleConfig {
    RuleConfig { kind, priority: None, custom_message: None, choice: None }
}

#[test]
fn builds_rules_with_overrides() {
    let mut cfg = config(RuleKind::MinLength(4));
    cfg.priority = Some(Priority::Low);
    cfg.custom_message = Some("short".to_string());
    let rule = create_validator(cfg).unwrap();
    assert_eq!(rule.priority(), Priority::Low);
    let r = rule.validate("abc");
    assert_eq!(r.message.unwrap(), "short");
    assert_eq!(r.priority, Priority::Low);
    assert!(matches!(create_validator(config(RuleKind::Email)).unwrap(), Rule::Email(_)));
}

#[test]
fn invalid_pattern_is_refused() {
    assert!(create_validator(config(RuleKind::Pattern("(".to_string()))).is_err());
    let rule = create_validator(config(RuleKind::Pattern("^a+$".to_string()))).unwrap();
    assert!(rule.validate("aaa").passed);
    assert_eq!(rule.name(), "pattern");
}

#[test]
fn choice_settings_are_applied() {
    let mut cfg = config(RuleKind::Choices(vec!["x".to_string(), "y".to_string()]));
    cfg.choice = Some(ChoiceOptions { case_sensitive: true, min_choices: 2, max_choices: 2 });
    let rule = create_validator(cfg).unwrap();
    assert!(rule.validate("x,y").passed);
    assert!(!rule.validate("X,y").passed);
    let mut engine = ValidationEngine::new();
    engine.add_validator(rule);
    assert_eq!(engine.validate("x").error.as_deref(), Some("At least 2 choice(s) required"));
}

#[test]
fn date_rule_uses_default_format() {
    let rule = create_validator(config(RuleKind::Date(None))).unwrap();
    assert!(rule.validate("2024-02-29").passed);
    assert!(!rule.validate("2023-02-29").passed);
}
