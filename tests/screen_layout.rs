use prompt_kit::config::{choice_bounds, parse_choices, PriorityArg};
use prompt_kit::layout::{calculate_reserved_lines, calculate_wrapped_lines, input_cursor_column, LayoutManager};
use prompt_kit::output::{DefaultFormatter, RawFormatter};
use prompt_kit::priority::Priority;
use prompt_kit::summary::ValidationSummary;
use prompt_kit::result::ValidationResult;
use prompt_kit::terminal::{TerminalCapabilities, UIMode, Terminal};

#[test]
fn layout_positions() {
    let mut l = LayoutManager::new(80, 24);
    assert_eq!(l.prompt_position(), (0, 0));
    assert_eq!(l.input_position(7), (7, 0));
    assert_eq!(l.help_position(), None);
    l.calculate_layout(true);
    assert_eq!(l.help_position(), Some((0, 23)));
    l.update_error_area_height(25);
    assert_eq!(l.error_area_bounds(), (1, 10, 80));
    l.update_error_area_height(3);
    assert_eq!(l.error_area_bounds(), (1, 3, 80));
}

#[test]
fn wrapping_text() {
    let l = LayoutManager::new(80, 24);
    assert_eq!(l.wrap_text("the quick brown fox", 10), vec!["the quick", "brown fox"]);
    assert_eq!(l.wrap_text("   ", 10), vec![""]);
    assert_eq!(l.wrap_text("abcdefghijkl x", 5), vec!["abcdefghijkl", "x"]);
    assert_eq!(l.wrap_text("日本 語", 5), vec!["日本", "語"]);
}

#[test]
fn ui_modes() {
    assert!(matches!(TerminalCapabilities::not_a_terminal().fallback_ui(), UIMode::Simple));
    assert!(matches!(TerminalCapabilities::interactive(80, 24).fallback_ui(), UIMode::Full));
    let mut caps = TerminalCapabilities::interactive(100, 30);
    caps.colors_supported = false;
    assert!(matches!(caps.fallback_ui(), UIMode::NoColor));
    let mut t = Terminal::new(caps);
    assert_eq!(t.capabilities().width, 100);
    t.set_raw_mode(true);
    assert!(t.raw_mode());
}

#[test]
fn formatters_and_priority_args() {
    let ok = ValidationSummary::new("hi".to_string(), vec![ValidationResult::success("required")]);
    let bad = ValidationSummary::new(
        "".to_string(),
        vec![ValidationResult::failure("required", Priority::Critical, "x")],
    );
    assert_eq!(DefaultFormatter.format(&ok), "hi");
    assert_eq!(DefaultFormatter.format(&bad), "");
    assert_eq!(RawFormatter.format(&ok), "hi");
    assert_eq!(Priority::from(PriorityArg::Low), Priority::Low);
    assert_eq!(Priority::from(PriorityArg::Critical), Priority::Critical);
}

#[test]
fn wrapped_line_counts_and_reservation() {
    assert_eq!(calculate_wrapped_lines("", 10), 0);
    assert_eq!(calculate_wrapped_lines("abc", 0), 0);
    assert_eq!(calculate_wrapped_lines("   ", 10), 1);
    assert_eq!(calculate_wrapped_lines("aaaa bbbb cccc", 10), 2);
    assert_eq!(calculate_wrapped_lines("ééé x", 7), 2);
    let messages = vec!["This field is required".to_string(), "short".to_string()];
    assert_eq!(calculate_reserved_lines(&messages, &None, 80, 24), 6);
    assert_eq!(calculate_reserved_lines(&messages, &Some("help me".to_string()), 80, 24), 7);
    assert_eq!(calculate_reserved_lines(&messages, &None, 80, 5), 3);
    assert_eq!(calculate_reserved_lines(&messages, &None, 80, 1), 0);
    assert_eq!(input_cursor_column(3, "日本"), 7);
    assert_eq!(input_cursor_column(65535, "a"), 65535);
}

#[test]
fn choices_from_the_command_line() {
    let parse = parse_choices;
    assert_eq!(parse("red, green ,blue", None), vec!["red", "green", "blue"]);
    assert_eq!(parse("a,b\nc\r\n\n d ", None), vec!["a,b", "c", "d"]);
    assert_eq!(parse("x::y:: ::z", Some("::")), vec!["x", "y", "z"]);
    assert_eq!(parse("a;b;;c;", Some(";")), vec!["a", "b", "c"]);
    assert_eq!(parse("ab c", Some("")), vec!["a", "b", "c"]);
    assert_eq!(parse("aaa", Some("aa")), vec!["a"]);
    assert!(parse("", None).is_empty());
}

#[test]
fn default_choice_bounds() {
    assert_eq!(choice_bounds(None, None, 5), (1, 1));
    assert_eq!(choice_bounds(Some(2), None, 5), (2, 5));
    assert_eq!(choice_bounds(None, Some(3), 5), (1, 3));
    assert_eq!(choice_bounds(Some(0), Some(4), 5), (0, 4));
}
