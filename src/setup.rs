//! Builds the engine's rules from their configuration.
use vstd::prelude::*;
use crate::priority::Priority;
use crate::result::opt_text;
use crate::engine::Rule;
use crate::basic::{RequiredValidator, MinLengthValidator, MaxLengthValidator, PatternValidator};
use crate::choice::ChoiceValidator;
use crate::format::{EmailValidator, HostnameValidator, UrlValidator, Ipv4Validator};
use crate::numeric::IntegerValidator;
use crate::datetime::{DateValidator, TimeValidator, DateTimeValidator};
use crate::matching::regex_accepts;

verus! {

/// The kind of a rule, with its own parameters.
#[derive(Debug, Clone)]
pub enum RuleKind {
    Required,
    MinLength(usize),
    MaxLength(usize),
    Pattern(String),
    Email,
    Hostname,
    Url,
    Ipv4,
    Integer,
    Date(Option<String>),
    Time(Option<String>),
    DateTime(Option<String>),
    Choices(Vec<String>),
}

/// Selection settings of a choice rule.
#[derive(Debug, Clone, Copy, PartialEq, Eq, Structural)]
pub struct ChoiceOptions {
    pub case_sensitive: bool,
    pub min_choices: usize,
    pub max_choices: usize,
}

/// One configured rule: its kind, and the priority and message that override the
/// kind's defaults.
#[derive(Debug, Clone)]
pub struct RuleConfig {
    pub kind: RuleKind,
    pub priority: Option<Priority>,
    pub custom_message: Option<String>,
    pub choice: Option<ChoiceOptions>,
}

pub open spec fn priority_or(p: Option<Priority>, default: Priority) -> Priority {
    match p {
        Some(q) => q,
        None => default,
    }
}

pub open spec fn format_or(f: Option<String>, default: Seq<char>) -> Seq<char> {
    match f {
        Some(s) => s@,
        None => default,
    }
}

/// The rule that a configuration describes (for a pattern, once it compiles).
pub open spec fn built_as(rule: Rule, cfg: RuleConfig) -> bool {
    let msg = opt_text(cfg.custom_message);
    match cfg.kind {
        RuleKind::Required => rule matches Rule::Required(v) && v.custom() == msg,
        RuleKind::MinLength(n) => rule matches Rule::MinLength(v) && v.bound() == n
            && v.spec_priority() == priority_or(cfg.priority, Priority::Medium) && v.custom() == msg,
        RuleKind::MaxLength(n) => rule matches Rule::MaxLength(v) && v.bound() == n
            && v.spec_priority() == priority_or(cfg.priority, Priority::Medium) && v.custom() == msg,
        RuleKind::Pattern(p) => rule matches Rule::Pattern(v) && v.pattern() == p@
            && v.spec_priority() == priority_or(cfg.priority, Priority::High) && v.custom() == msg,
        RuleKind::Email => rule matches Rule::Email(v)
            && v.spec_priority() == priority_or(cfg.priority, Priority::High) && v.custom() == msg,
        RuleKind::Hostname => rule matches Rule::Hostname(v)
            && v.spec_priority() == priority_or(cfg.priority, Priority::High) && v.custom() == msg,
        RuleKind::Url => rule matches Rule::Url(v)
            && v.spec_priority() == priority_or(cfg.priority, Priority::High) && v.custom() == msg,
        RuleKind::Ipv4 => rule matches Rule::Ipv4(v)
            && v.spec_priority() == priority_or(cfg.priority, Priority::High) && v.custom() == msg,
        RuleKind::Integer => rule matches Rule::Integer(v)
            && v.spec_priority() == priority_or(cfg.priority, Priority::High) && v.custom() == msg,
        RuleKind::Date(f) => rule matches Rule::Date(v) && v.format_spec() == format_or(f, "%Y-%m-%d"@)
            && v.spec_priority() == priority_or(cfg.priority, Priority::High) && v.custom() == msg,
        RuleKind::Time(f) => rule matches Rule::Time(v) && v.format_spec() == format_or(f, "%H:%M:%S"@)
            && v.spec_priority() == priority_or(cfg.priority, Priority::High) && v.custom() == msg,
        RuleKind::DateTime(f) => rule matches Rule::DateTime(v)
            && v.format_spec() == format_or(f, "%Y-%m-%d %H:%M:%S"@)
            && v.spec_priority() == priority_or(cfg.priority, Priority::High) && v.custom() == msg,
        RuleKind::Choices(cs) => rule matches Rule::Choice(v)
            && v.options() == cs@.map_values(|c: String| c@)
            && v.sensitive() == match cfg.choice { Some(o) => o.case_sensitive, None => false }
            && v.min() == match cfg.choice { Some(o) => o.min_choices as nat, None => 1 }
            && v.max() == match cfg.choice { Some(o) => o.max_choices as nat, None => 1 }
            && v.spec_priority() == priority_or(cfg.priority, Priority::High) && v.custom() == msg,
    }
}

/// Whether a configuration can be built: every one can, but a pattern only when it compiles.
pub open spec fn buildable(cfg: RuleConfig) -> bool {
    match cfg.kind {
        RuleKind::Pattern(p) => regex_accepts(p@),
        _ => true,
    }
}

/// Builds the rule that a configuration describes; an invalid pattern is refused.
pub fn create_validator(cfg: RuleConfig) -> (r: Result<Rule, regex::Error>)
    ensures
        r is Ok <==> buildable(cfg),
        r matches Ok(rule) ==> built_as(rule, cfg),
{
    let RuleConfig { kind, priority, custom_message, choice } = cfg;
    let rule = match kind {
        RuleKind::Required => Rule::Required(match custom_message {
            Some(m) => RequiredValidator::with_message(m.as_str()),
            None => RequiredValidator::new(),
        }),
        RuleKind::MinLength(n) => {
            let mut v = MinLengthValidator::new(n);
            if let Some(p) = priority { v = v.with_priority(p); }
            if let Some(m) = custom_message { v = v.with_message(m.as_str()); }
            Rule::MinLength(v)
        },
        RuleKind::MaxLength(n) => {
            let mut v = MaxLengthValidator::new(n);
            if let Some(p) = priority { v = v.with_priority(p); }
            if let Some(m) = custom_message { v = v.with_message(m.as_str()); }
            Rule::MaxLength(v)
        },
        RuleKind::Pattern(pattern) => {
            let mut v = match PatternValidator::new(pattern.as_str()) {
                Ok(v) => v,
                Err(e) => return Err(e),
            };
            if let Some(p) = priority { v = v.with_priority(p); }
            if let Some(m) = custom_message { v = v.with_message(m.as_str()); }
            Rule::Pattern(v)
        },
        RuleKind::Email => {
            let mut v = EmailValidator::new();
            if let Some(p) = priority { v = v.with_priority(p); }
            if let Some(m) = custom_message { v = v.with_message(m.as_str()); }
            Rule::Email(v)
        },
        RuleKind::Hostname => {
            let mut v = HostnameValidator::new();
            if let Some(p) = priority { v = v.with_priority(p); }
            if let Some(m) = custom_message { v = v.with_message(m.as_str()); }
            Rule::Hostname(v)
        },
        RuleKind::Url => {
            let mut v = UrlValidator::new();
            if let Some(p) = priority { v = v.with_priority(p); }
            if let Some(m) = custom_message { v = v.with_message(m.as_str()); }
            Rule::Url(v)
        },
        RuleKind::Ipv4 => {
            let mut v = Ipv4Validator::new();
            if let Some(p) = priority { v = v.with_priority(p); }
            if let Some(m) = custom_message { v = v.with_message(m.as_str()); }
            Rule::Ipv4(v)
        },
        RuleKind::Integer => {
            let mut v = IntegerValidator::new();
            if let Some(p) = priority { v = v.with_priority(p); }
            if let Some(m) = custom_message { v = v.with_message(m.as_str()); }
            Rule::Integer(v)
        },
        RuleKind::Date(f) => {
            let mut v = DateValidator::new(f);
            if let Some(p) = priority { v = v.with_priority(p); }
            if let Some(m) = custom_message { v = v.with_message(m.as_str()); }
            Rule::Date(v)
        },
        RuleKind::Time(f) => {
            let mut v = TimeValidator::new(f);
            if let Some(p) = priority { v = v.with_priority(p); }
            if let Some(m) = custom_message { v = v.with_message(m.as_str()); }
            Rule::Time(v)
        },
        RuleKind::DateTime(f) => {
            let mut v = DateTimeValidator::new(f);
            if let Some(p) = priority { v = v.with_priority(p); }
            if let Some(m) = custom_message { v = v.with_message(m.as_str()); }
            Rule::DateTime(v)
        },
        RuleKind::Choices(cs) => {
            let mut v = ChoiceValidator::new(cs);
            if let Some(o) = choice {
                v = v.case_sensitive(o.case_sensitive).min_choices(o.min_choices).max_choices(o.max_choices);
            }
            if let Some(p) = priority { v = v.with_priority(p); }
            if let Some(m) = custom_message { v = v.with_message(m.as_str()); }
            Rule::Choice(v)
        },
    };
    Ok(rule)
}

} // verus!
