use prompt_kit::basic::{MaxLengthValidator, MinLengthValidator, RequiredValidator};
use prompt_kit::choice::ChoiceValidator;
use prompt_kit::editor::{ChoiceMenu, InputAction, Key, LineEditor, MenuAction, SubmitOutcome};
use prompt_kit::engine::{Rule, ValidationEngine};
use prompt_kit::priority::Priority;

#[test]
fn repeated_validation_gives_identical_results() {
    let mut engine = ValidationEngine::new();
    engine.add_validator(Rule::Required(RequiredValidator::new()));
    engine.add_validator(Rule::MinLength(MinLengthValidator::new(5)));
    let first = engine.validate("abc");
    let second = engine.validate("abc");
    let a: Vec<_> = first
        .validation_results
        .iter()
        .map(|r| (r.rule_name.clone(), r.passed, r.priority, r.message.clone()))
        .collect();
    let b: Vec<_> = second
        .validation_results
        .iter()
        .map(|r| (r.rule_name.clone(), r.passed, r.priority, r.message.clone()))
        .collect();
    assert_eq!(a, b);
    assert_eq!(first.error, second.error);
}

#[test]
fn summary_results_are_sorted() {
    let mut engine = ValidationEngine::new();
    engine.add_validator(Rule::MaxLength(MaxLengthValidator::new(1).with_priority(Priority::Low)));
    engine.add_validator(Rule::MinLength(MinLengthValidator::new(9)));
    engine.add_validator(Rule::Required(RequiredValidator::new()));
    engine.add_validator(Rule::MaxLength(MaxLengthValidator::new(2)));
    let summary = engine.validate("abc");
    for pair in summary.validation_results.windows(2) {
        let (a, b) = (&pair[0], &pair[1]);
        assert!(a.priority < b.priority || (a.priority == b.priority && a.rule_name <= b.rule_name));
    }
}

#[test]
fn valid_iff_all_passed_and_error_iff_invalid() {
    let mut engine = ValidationEngine::new();
    engine.add_validator(Rule::Required(RequiredValidator::new()));
    engine.add_validator(Rule::MaxLength(MaxLengthValidator::new(3)));
    for input in ["", "ab", "abcd", "   "] {
        let s = engine.validate(input);
        assert_eq!(s.valid, s.validation_results.iter().all(|r| r.passed));
        assert_eq!(s.error.is_none(), s.valid);
    }
}

fn failing_engine() -> ValidationEngine {
    let mut engine = ValidationEngine::new();
    engine.add_validator(Rule::Required(RequiredValidator::new()));
    for n in 0..5 {
        engine.add_validator(Rule::MinLength(MinLengthValidator::new(5 + n)));
    }
    for n in 0..5 {
        engine.add_validator(Rule::MinLength(
            MinLengthValidator::new(20 + n).with_priority(Priority::Low),
        ));
    }
    engine
}

#[test]
fn display_budget_with_critical_failure() {
    let mut engine = failing_engine();
    let shown = engine.get_display_errors("", None);
    assert_eq!(shown.len(), 4);
    assert_eq!(shown[0].priority, Priority::Critical);
    assert!(shown[1..].iter().all(|r| r.priority == Priority::Medium));
    assert_eq!(engine.get_display_errors("", Some(10)).len(), 4);
    assert_eq!(engine.get_display_errors("", Some(4)).len(), 4);
    assert_eq!(engine.get_display_errors("", Some(3)).len(), 3);
    assert!(engine.get_display_errors("", Some(0)).is_empty());
    let one = engine.get_display_errors("", Some(1));
    assert_eq!(one.len(), 1);
    assert_eq!(one[0].priority, Priority::Critical);
}

#[test]
fn display_budget_without_severe_failure_shows_two_low() {
    let mut engine = ValidationEngine::new();
    for n in 0..5 {
        engine.add_validator(Rule::MinLength(
            MinLengthValidator::new(20 + n).with_priority(Priority::Low),
        ));
    }
    assert_eq!(engine.get_display_errors("x", None).len(), 2);
}

#[test]
fn added_rule_revalidates_cached_input() {
    let mut engine = ValidationEngine::new();
    engine.add_validator(Rule::Required(RequiredValidator::new()));
    assert!(engine.validate("abc").valid);
    engine.add_validator(Rule::MinLength(MinLengthValidator::new(5)));
    let s = engine.validate("abc");
    assert!(!s.valid);
    assert_eq!(s.validation_results.len(), 2);
}

#[test]
fn required_and_min_length_scenario() {
    let mut engine = ValidationEngine::new();
    engine.add_validator(Rule::Required(RequiredValidator::new()));
    engine.add_validator(Rule::MinLength(MinLengthValidator::new(5)));
    let s = engine.validate("");
    assert!(!s.valid);
    assert_eq!(s.error.as_deref(), Some("This field is required"));
    let s = engine.validate("hi");
    assert!(!s.valid);
    assert_eq!(
        s.error.as_deref(),
        Some("Minimum length is 5 characters (currently 2)")
    );
    assert!(engine.validate("hello").valid);
}

#[test]
fn choice_scenario() {
    let choices = vec!["red".to_string(), "green".to_string(), "blue".to_string()];
    let v = ChoiceValidator::new(choices.clone()).min_choices(1).max_choices(1);
    assert!(v.validate("red").passed);
    let insensitive = ChoiceValidator::new(choices.clone())
        .case_sensitive(false)
        .min_choices(1)
        .max_choices(1);
    assert!(insensitive.validate("RED").passed);
    let r = v.validate("red,green");
    assert!(!r.passed);
    assert_eq!(r.message.unwrap(), "At most 1 choice(s) allowed");
}

#[test]
fn choice_too_many_message() {
    let v = ChoiceValidator::new(vec!["red".to_string(), "green".to_string(), "blue".to_string()])
        .min_choices(1)
        .max_choices(1);
    let engine_like = v.validate("red,green");
    assert!(!engine_like.passed);
    let multi = ChoiceValidator::new(vec!["red".to_string(), "green".to_string(), "blue".to_string()])
        .min_choices(1)
        .max_choices(2);
    let r = multi.validate("red,green,blue");
    assert_eq!(r.message.unwrap(), "At most 2 choice(s) allowed");
}

#[test]
fn line_editor_scenario() {
    let mut editor = LineEditor::new(None, None, false);
    for c in ['h', 'e', 'l', 'p'] {
        assert_eq!(editor.handle_key(Key::Char(c)), InputAction::Continue);
    }
    editor.handle_key(Key::Backspace);
    assert_eq!(editor.value(), "hel");
    assert_eq!(editor.handle_key(Key::Enter), InputAction::Submit);
    let mut engine = ValidationEngine::new();
    engine.add_validator(Rule::MaxLength(MaxLengthValidator::new(3)));
    let summary = engine.validate(&editor.value());
    assert!(summary.valid);
    assert_eq!(editor.record_submission(summary.valid), SubmitOutcome::Accepted);
}

#[test]
fn choice_menu_scenario() {
    let choices: Vec<String> = ["a", "b", "c", "d"].iter().map(|s| s.to_string()).collect();
    let mut menu = ChoiceMenu::new(choices, true, 2, 3);
    assert_eq!(menu.handle_key(Key::Char(' ')), MenuAction::Continue);
    assert_eq!(menu.handle_key(Key::Enter), MenuAction::Submit);
    assert!(!menu.try_submit());
    assert_eq!(
        menu.validation_error().as_deref(),
        Some("At least 2 choice(s) required")
    );
    menu.handle_key(Key::Down);
    menu.handle_key(Key::Char(' '));
    assert_eq!(menu.handle_key(Key::Enter), MenuAction::Submit);
    assert!(menu.try_submit());
    assert_eq!(menu.validation_error(), None);
    assert_eq!(menu.selected_choices(), vec!["a".to_string(), "b".to_string()]);
}
