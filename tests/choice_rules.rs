use prompt_kit::choice::ChoiceValidator;
use prompt_kit::editor::{InputAction, Key, LineEditor, SubmitOutcome, ChoiceMenu, MenuAction};

fn colors() -> Vec<String> {
    vec!["Red".to_string(), "green".to_string(), "blue".to_string()]
}

#[test]
fn choice_duplicates_are_reported_canonically() {
    let v = ChoiceValidator::new(colors()).max_choices(3);
    let r = v.validate("red, RED");
    assert!(!r.passed);
    assert_eq!(r.message.unwrap(), "Duplicate choices not allowed: Red");
    assert_eq!(r.rule_name, "choice");
}

#[test]
fn choice_invalid_entries_list_the_options() {
    let v = ChoiceValidator::new(colors()).max_choices(2).case_sensitive(true);
    let r = v.validate("red,blue");
    assert_eq!(
        r.message.unwrap(),
        "Invalid choice(s): red. Valid options: Red, green, blue"
    );
    assert!(v.validate("Red, blue").passed);
}

#[test]
fn choice_too_few_and_custom_message() {
    let v = ChoiceValidator::new(colors()).min_choices(2).max_choices(3);
    assert_eq!(v.validate("blue").message.unwrap(), "At least 2 choice(s) required");
    assert_eq!(v.validate(" , ").message.unwrap(), "At least 2 choice(s) required");
    let custom = ChoiceValidator::new(colors()).with_message("Pick a color");
    assert_eq!(custom.validate("pink").message.unwrap(), "Pick a color");
}

#[test]
fn choice_partial_flags_dead_ends() {
    let v = ChoiceValidator::new(colors());
    assert_eq!(v.partial_validate("", 0).first_error_pos, None);
    assert_eq!(v.partial_validate("gr", 2).first_error_pos, None);
    assert_eq!(v.partial_validate("grx", 3).first_error_pos, Some(2));
    assert_eq!(v.partial_validate("x", 1).first_error_pos, Some(0));
    let multi = ChoiceValidator::new(colors()).max_choices(3);
    assert_eq!(multi.partial_validate("red,bl", 6).first_error_pos, None);
    assert_eq!(multi.partial_validate("red,bx", 6).first_error_pos, Some(5));
}

#[test]
fn line_editor_editing_keys() {
    let mut e = LineEditor::new(None, Some(2), false);
    for c in "hello world".chars() {
        e.handle_key(Key::Char(c));
    }
    e.handle_key(Key::Ctrl('w'));
    assert_eq!(e.value(), "hello ");
    e.handle_key(Key::Home);
    e.handle_key(Key::Right);
    e.handle_key(Key::Delete);
    assert_eq!(e.value(), "hllo ");
    e.handle_key(Key::Ctrl('k'));
    assert_eq!(e.value(), "h");
    e.handle_key(Key::End);
    e.handle_key(Key::Char('i'));
    e.handle_key(Key::Left);
    e.handle_key(Key::Ctrl('u'));
    assert_eq!(e.value(), "i");
    assert_eq!(e.cursor(), 0);
    assert_eq!(e.handle_key(Key::Ctrl('d')), InputAction::Continue);
    assert_eq!(e.handle_key(Key::Ctrl('x')), InputAction::Continue);
    assert_eq!(e.handle_key(Key::Ctrl('c')), InputAction::Cancel);
    assert_eq!(e.record_submission(false), SubmitOutcome::Retry);
    assert_eq!(e.record_submission(false), SubmitOutcome::MaxAttemptsExceeded);
}

#[test]
fn line_editor_default_and_mask() {
    let mut e = LineEditor::new(Some("guest".to_string()), None, true);
    assert_eq!(e.handle_key(Key::Ctrl('d')), InputAction::Cancel);
    assert_eq!(e.handle_key(Key::Enter), InputAction::Submit);
    assert_eq!(e.value(), "guest");
    assert_eq!(e.cursor(), 5);
    assert_eq!(e.display_text(), "*****");
}

#[test]
fn choice_menu_single_selection() {
    let mut m = ChoiceMenu::new(vec!["x".to_string(), "y".to_string()], false, 1, 1);
    m.handle_key(Key::Down);
    m.handle_key(Key::Down);
    assert_eq!(m.highlighted_index(), 1);
    m.handle_key(Key::Char(' '));
    assert!(!m.is_selected(1));
    assert_eq!(m.handle_key(Key::Enter), MenuAction::Submit);
    assert!(m.try_submit());
    assert_eq!(m.selected_choices(), vec!["y".to_string()]);
    m.handle_key(Key::Up);
    m.handle_key(Key::Up);
    assert_eq!(m.highlighted_index(), 0);
    assert_eq!(m.content_line_count(), 3);
    assert_eq!(m.handle_key(Key::Ctrl('c')), MenuAction::Cancel);
}

#[test]
fn choice_menu_texts() {
    let mut m = ChoiceMenu::new(vec!["a".to_string(), "b".to_string()], true, 1, 2);
    assert_eq!(
        m.instruction(),
        "Select 1-2 choice(s). Use ↑↓ to navigate, SPACE to toggle, ENTER to submit:"
    );
    m.handle_key(Key::Char(' '));
    assert_eq!(m.choice_line(0), "[✓] a");
    assert_eq!(m.choice_line(1), "[ ] b");
    let exact = ChoiceMenu::new(vec!["a".to_string(), "b".to_string()], true, 2, 2);
    assert_eq!(
        exact.instruction(),
        "Select exactly 2 choice(s). Use ↑↓ to navigate, SPACE to toggle, ENTER to submit:"
    );
    let single = ChoiceMenu::new(vec!["a".to_string()], false, 1, 1);
    assert_eq!(single.instruction(), "Use ↑↓ to navigate, ENTER to select:");
    assert_eq!(single.choice_line(0), "> a");
    let two = ChoiceMenu::new(vec!["a".to_string(), "b".to_string()], false, 1, 1);
    assert_eq!(two.choice_line(1), "  b");
}
