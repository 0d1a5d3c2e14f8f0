use prompt_kit::datetime::{DateTimeValidator, DateValidator, TimeValidator};
use prompt_kit::filesystem::{
    DirExistsValidator, ExecutableValidator, FileExistsValidator, PathExistsValidator, PathFacts,
    ReadableValidator, WritableValidator,
};
use prompt_kit::numeric::{
    parses_as_i64, FloatValidator, IntegerValidator, NegativeValidator, NumberReading,
    PositiveValidator,
};
use prompt_kit::priority::Priority;

#[test]
fn integer_syntax_and_range() {
    assert!(parses_as_i64("42"));
    assert!(parses_as_i64("-9223372036854775808"));
    assert!(parses_as_i64("+9223372036854775807"));
    assert!(!parses_as_i64("9223372036854775808"));
    assert!(!parses_as_i64("-"));
    assert!(!parses_as_i64(""));
    assert!(!parses_as_i64("1.5"));
    let v = IntegerValidator::new();
    assert!(v.validate("-17").passed);
    assert_eq!(v.validate("abc").message.unwrap(), "Must be a valid integer");
    assert_eq!(v.partial_validate("-12a", 4).first_error_pos, Some(3));
    assert_eq!(v.partial_validate("1-", 2).first_error_pos, Some(1));
    assert_eq!(v.priority(), Priority::High);
}

#[test]
fn real_number_rules() {
    let f = FloatValidator::new();
    assert!(f.validate_reading(NumberReading::Neutral).passed);
    assert_eq!(f.validate_reading(NumberReading::Unreadable).message.unwrap(), "Must be a valid number");
    assert_eq!(f.partial_validate("1.5e-3", 6).first_error_pos, None);
    assert_eq!(f.partial_validate("1.5.2", 5).first_error_pos, Some(3));
    assert_eq!(f.partial_validate("1e2e", 4).first_error_pos, Some(3));
    assert_eq!(f.partial_validate("1-2", 3).first_error_pos, Some(1));
    let p = PositiveValidator::new();
    assert!(p.validate_reading(NumberReading::Above).passed);
    assert_eq!(p.validate_reading(NumberReading::Neutral).message.unwrap(), "Must be a positive number");
    assert_eq!(p.partial_validate("-1", 2).first_error_pos, Some(0));
    let n = NegativeValidator::new();
    assert!(n.validate_reading(NumberReading::Below).passed);
    assert_eq!(n.validate_reading(NumberReading::Above).message.unwrap(), "Must be a negative number");
    assert_eq!(n.partial_validate("12.5", 4).first_error_pos, None);
    assert_eq!(n.partial_validate("12x", 3).first_error_pos, Some(2));
    assert_eq!(n.priority(), Priority::Medium);
}

#[test]
fn date_and_time_rules() {
    let d = DateValidator::new(None);
    assert!(d.validate("2025-01-15").passed);
    assert_eq!(
        d.validate("not-a-date").message.unwrap(),
        "Must be a valid date in format: %Y-%m-%d"
    );
    assert_eq!(d.partial_validate("2025-0", 6).first_error_pos, None);
    assert_eq!(d.partial_validate("2025/", 5).first_error_pos, Some(4));
    let t = TimeValidator::new(Some("%H:%M".to_string()));
    assert!(t.validate("13:45").passed);
    assert!(!t.validate("25:00").passed);
    assert_eq!(t.partial_validate("1a", 2).first_error_pos, Some(1));
    let dt = DateTimeValidator::new(None);
    assert!(dt.validate("2025-01-15 10:30:00").passed);
    assert!(!dt.validate("2025-01-15").passed);
    assert_eq!(dt.partial_validate("2025-01-15T", 11).first_error_pos, Some(10));
    let zoned = DateTimeValidator::new(Some("%Y-%m-%d %H:%M:%S %z".to_string()));
    assert!(zoned.validate("2025-01-15 10:30:00 +0200").passed);
    assert_eq!(dt.name(), "datetime");
}

fn facts(exists: bool, is_file: bool, is_dir: bool) -> PathFacts {
    PathFacts { exists, is_file, is_dir, readable: true, writable: false, executable: false }
}

#[test]
fn path_rules() {
    let missing = facts(false, false, false);
    let file = facts(true, true, false);
    let dir = facts(true, false, true);
    assert_eq!(FileExistsValidator::new().validate_facts(missing).message.unwrap(), "File does not exist");
    assert_eq!(FileExistsValidator::new().validate_facts(dir).message.unwrap(), "Path exists but is not a file");
    assert!(FileExistsValidator::new().validate_facts(file).passed);
    assert_eq!(DirExistsValidator::new().validate_facts(file).message.unwrap(), "Path exists but is not a directory");
    assert!(PathExistsValidator::new().validate_facts(dir).passed);
    assert!(ReadableValidator::new().validate_facts(file).passed);
    assert_eq!(WritableValidator::new().validate_facts(file).message.unwrap(), "Path is not writable (permission denied)");
    assert_eq!(ExecutableValidator::new().validate_facts(dir).message.unwrap(), "Path is not a file");
    assert_eq!(ExecutableValidator::new().validate_facts(file).message.unwrap(), "File is not executable");
    assert_eq!(PathExistsValidator::new().partial_validate("a\0b", 3).first_error_pos, Some(1));
    assert_eq!(ReadableValidator::new().priority(), Priority::Medium);
    assert_eq!(FileExistsValidator::new().with_message("nope").validate_facts(missing).message.unwrap(), "nope");
}
