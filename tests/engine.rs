use prompt_kit::basic::{MaxLengthValidator, MinLengthValidator, RequiredValidator};
use prompt_kit::engine::{Rule, ValidationEngine};
use prompt_kit::priority::Priority;
use prompt_kit::result::ValidationResult;
use prompt_kit::summary::ValidationSummary;

#[test]
fn test_empty_validation_engine() {
    let mut engine = ValidationEngine::new();
    let summary = engine.validate("test");

    assert!(summary.valid);
    assert!(summary.validation_results.is_empty());
    assert!(summary.error.is_none());
}

#[test]
fn test_single_validator() {
    let mut engine = ValidationEngine::new();
    engine.add_validator(Rule::Required(RequiredValidator::new()));

    let summary = engine.validate("hello");
    assert!(summary.valid);
    assert_eq!(summary.validation_results.len(), 1);
    assert!(summary.validation_results[0].passed);

    let summary = engine.validate("");
    assert!(!summary.valid);
    assert_eq!(summary.validation_results.len(), 1);
    assert!(!summary.validation_results[0].passed);
    assert!(summary.error.is_some());
}

#[test]
fn engine_test_multiple_validators() {
    let mut engine = ValidationEngine::new();
    engine.add_validator(Rule::Required(RequiredValidator::new()));
    engine.add_validator(Rule::MinLength(MinLengthValidator::new(5)));
    engine.add_validator(Rule::MaxLength(MaxLengthValidator::new(10)));

    let summary = engine.validate("hello");
    assert!(summary.valid);
    assert_eq!(summary.validation_results.len(), 3);
    assert!(summary.validation_results.iter().all(|r| r.passed));

    let summary = engine.validate("hi");
    assert!(!summary.valid);
    assert_eq!(summary.validation_results.len(), 3);

    assert!(summary.validation_results[0].passed);
    assert!(summary.validation_results[1].passed);
    assert!(!summary.validation_results[2].passed);
}

#[test]
fn test_priority_sorting() {
    let mut engine = ValidationEngine::new();

    engine.add_validator(Rule::MinLength(MinLengthValidator::new(10)));
    engine.add_validator(Rule::Required(RequiredValidator::new()));

    let summary = engine.validate("");
    assert!(!summary.valid);

    assert_eq!(summary.validation_results[0].rule_name, "required");
    assert_eq!(summary.validation_results[1].rule_name, "min_length");
}

#[test]
fn test_error_display_filtering() {
    let mut engine = ValidationEngine::new();
    engine.add_validator(Rule::Required(RequiredValidator::new()));
    engine.add_validator(Rule::MinLength(MinLengthValidator::new(5)));

    let errors = engine.get_display_errors("", Some(1));

    assert_eq!(errors.len(), 1);
    assert_eq!(errors[0].rule_name, "required");
    assert_eq!(errors[0].priority, Priority::Critical);
}

#[test]
fn engine_test_partial_validation() {
    let mut engine = ValidationEngine::new();
    engine.add_validator(Rule::MaxLength(MaxLengthValidator::new(5)));

    let result = engine.partial_validate("hello", 5);
    assert!(result.first_error_pos.is_none());
    assert!(result.can_continue);

    let result = engine.partial_validate("hello world", 8);
    assert!(result.first_error_pos.is_some());
    assert_eq!(result.first_error_pos.unwrap(), 5);
}

#[test]
fn test_validation_performance_timing() {
    let mut engine = ValidationEngine::new();
    engine.add_validator(Rule::Required(RequiredValidator::new()));

    let summary = engine.validate("test");

    assert!(summary.metadata.validation_time_ms < 1000);
}

#[test]
fn test_get_potential_error_messages() {
    let mut engine = ValidationEngine::new();
    engine.add_validator(Rule::Required(RequiredValidator::new()));
    engine.add_validator(Rule::MinLength(MinLengthValidator::new(5)));

    let messages = engine.get_potential_error_messages();

    assert!(!messages.is_empty());
    assert!(messages.iter().any(|msg| msg.contains("required")));
    assert!(messages.iter().any(|msg| msg.contains("Minimum length")));
}

#[test]
fn test_validation_engine_without_cache() {
    let mut engine = ValidationEngine::without_cache();

    let summary = engine.validate("test");
    assert!(summary.valid);
}

#[test]
fn test_validation_caching() {
    let mut engine = ValidationEngine::new();
    engine.add_validator(Rule::Required(RequiredValidator::new()));

    let summary1 = engine.validate("test");
    let time1 = summary1.metadata.validation_time_ms;

    let summary2 = engine.validate("test");
    let time2 = summary2.metadata.validation_time_ms;

    assert_eq!(summary1.valid, summary2.valid);
    assert_eq!(
        summary1.validation_results.len(),
        summary2.validation_results.len()
    );

    assert!(time2 <= time1 + 1);
}

#[test]
fn test_cache_invalidation() {
    let mut engine = ValidationEngine::new();
    engine.add_validator(Rule::Required(RequiredValidator::new()));

    let _summary1 = engine.validate("test");

    engine.add_validator(Rule::MinLength(MinLengthValidator::new(5)));

    let summary2 = engine.validate("testing");
    assert!(summary2.valid);
    assert_eq!(summary2.validation_results.len(), 2);
}

#[test]
fn test_clear_cache() {
    let mut engine = ValidationEngine::new();
    engine.add_validator(Rule::Required(RequiredValidator::new()));

    let _summary = engine.validate("test");

    engine.clear_cache();

    let summary = engine.validate("test");
    assert!(summary.valid);
}

#[test]
fn test_validator_count() {
    let mut engine = ValidationEngine::new();
    assert_eq!(engine.validator_count(), 0);

    engine.add_validator(Rule::Required(RequiredValidator::new()));
    assert_eq!(engine.validator_count(), 1);

    engine.add_validator(Rule::MinLength(MinLengthValidator::new(5)));
    assert_eq!(engine.validator_count(), 2);
}

#[test]
fn potential_messages_are_distinct_with_one_slack_line() {
    let mut engine = ValidationEngine::new();
    engine.add_validator(Rule::Required(RequiredValidator::new()));
    engine.add_validator(Rule::MaxLength(MaxLengthValidator::new(200)));
    let messages = engine.get_potential_error_messages();
    assert_eq!(
        messages,
        vec![
            "This field is required".to_string(),
            "Additional validation context may appear here".to_string()
        ]
    );
    assert!(ValidationEngine::new().get_potential_error_messages().is_empty());
}

#[test]
fn partial_hints_are_joined_in_registration_order() {
    let mut engine = ValidationEngine::new();
    engine.add_validator(Rule::MinLength(MinLengthValidator::new(10)));
    engine.add_validator(Rule::Required(RequiredValidator::new()));
    engine.add_validator(Rule::MinLength(MinLengthValidator::new(4)));
    let result = engine.partial_validate("  ", 2);
    assert_eq!(result.first_error_pos, Some(0));
    assert!(result.can_continue);
    assert_eq!(
        result.suggestion.unwrap(),
        "Need 8 more characters; Need 2 more characters"
    );
}

#[test]
fn summary_sorts_by_priority_then_name() {
    let results = vec![
        ValidationResult::failure("zeta", Priority::Low, "z"),
        ValidationResult::failure("beta", Priority::Medium, "b"),
        ValidationResult::success_with_priority("alpha", Priority::Medium),
        ValidationResult::failure("omega", Priority::Critical, "o"),
    ];
    let summary = ValidationSummary::new("v".to_string(), results);
    let names: Vec<&str> = summary
        .validation_results
        .iter()
        .map(|r| r.rule_name.as_str())
        .collect();
    assert_eq!(names, vec!["omega", "alpha", "beta", "zeta"]);
    assert!(!summary.valid);
    assert_eq!(summary.error.as_deref(), Some("o"));
    assert_eq!(summary.metadata.rules_checked, 4);
    assert_eq!(summary.metadata.rules_passed, 1);
    assert_eq!(summary.metadata.input_length, 1);
}
