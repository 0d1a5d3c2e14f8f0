use prompt_kit::priority::Priority;

#[test]
fn priority_names_round_trip() {
    for p in [Priority::Critical, Priority::High, Priority::Medium, Priority::Low] {
        assert_eq!(Priority::from_str(p.as_str()), Some(p));
    }
    assert_eq!(Priority::from_str("HIGH"), Some(Priority::High));
    assert_eq!(Priority::from_str("Critical"), Some(Priority::Critical));
    assert_eq!(Priority::from_str("urgent"), None);
    assert_eq!(Priority::from_str(""), None);
}

#[test]
fn priority_order_and_icons() {
    assert!(Priority::Critical < Priority::High);
    assert!(Priority::High < Priority::Medium);
    assert!(Priority::Medium < Priority::Low);
    assert!(Priority::Critical.at_least_as_severe(&Priority::Low));
    assert!(!Priority::Low.at_least_as_severe(&Priority::Medium));
    assert_eq!(Priority::Critical.icon(), "❌");
    assert_eq!(Priority::High.icon(), "❌");
    assert_eq!(Priority::Medium.icon(), "⚠️");
    assert_eq!(Priority::Low.icon(), "💡");
    assert_eq!(Priority::default(), Priority::Medium);
}

#[test]
fn whitespace_matches_std_for_every_char() {
    for v in 0u32..=0x10FFFF {
        if let Some(c) = char::from_u32(v) {
            assert_eq!(prompt_kit::text::char_is_whitespace(c), c.is_whitespace(), "U+{:04X}", v);
        }
    }
}
