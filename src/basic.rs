//! Presence, length and pattern rules.
use vstd::prelude::*;
use crate::priority::Priority;
use crate::result::{ValidationResult, PartialValidationResult, ResultView, MetaValue, MetaView, pass_view, fail_view, with_meta, opt_text_ref};
use crate::text::{is_space, all_space, decimal, decimal_text, chars_of, string_of, char_is_whitespace};
use crate::matching::{pattern_matches, regex_matches, compile_regex};

verus! {

/// Mathematical content of a `PartialValidationResult`.
pub struct PartialView {
    pub pos: Option<usize>,
    pub can_continue: bool,
    pub suggestion: Option<Seq<char>>,
}

impl View for PartialValidationResult {
    type V = PartialView;

    open spec fn view(&self) -> PartialView {
        PartialView {
            pos: self.first_error_pos,
            can_continue: self.can_continue,
            suggestion: opt_text_ref(&self.suggestion),
        }
    }
}

pub open spec fn partial_ok() -> PartialView {
    PartialView { pos: None, can_continue: true, suggestion: None }
}

pub open spec fn partial_error(pos: usize) -> PartialView {
    PartialView { pos: Some(pos), can_continue: true, suggestion: None }
}

pub open spec fn partial_hint(pos: usize, hint: Seq<char>) -> PartialView {
    PartialView { pos: Some(pos), can_continue: true, suggestion: Some(hint) }
}

/// The custom message if there is one, else the default.
pub open spec fn message_or(custom: Option<Seq<char>>, default: Seq<char>) -> Seq<char> {
    match custom {
        Some(m) => m,
        None => default,
    }
}

/// Whether the text is blank, testing each character with `char::is_whitespace`.
pub fn is_blank(input: &str) -> (r: bool)
    ensures
        r == all_space(input@),
{
    let cs = chars_of(input);
    let mut i: usize = 0;
    while i < cs.len()
        invariant
            i <= cs.len(),
            cs@ == input@,
            forall|j: int| 0 <= j < i ==> is_space(#[trigger] cs@[j]),
        decreases cs.len() - i,
    {
        if !char_is_whitespace(cs[i]) {
            return false;
        }
        i = i + 1;
    }
    true
}

/// Number of characters of a text.
pub fn char_count(input: &str) -> (r: usize)
    ensures
        r == input@.len(),
{
    chars_of(input).len()
}

/// Rejects blank input.
#[derive(Debug)]
pub struct RequiredValidator {
    custom_message: Option<String>,
}

pub open spec fn required_default_message() -> Seq<char> {
    "This field is required"@
}

impl RequiredValidator {
    pub closed spec fn custom(&self) -> Option<Seq<char>> {
        opt_text_ref(&self.custom_message)
    }

    pub fn new() -> (r: Self)
        ensures
            r.custom() is None,
    {
        RequiredValidator { custom_message: None }
    }

    pub fn with_message(message: &str) -> (r: Self)
        ensures
            r.custom() == Some(message@),
    {
        RequiredValidator { custom_message: Some(String::from_str(message)) }
    }

    pub open spec fn spec_validate(&self, input: Seq<char>) -> ResultView {
        if all_space(input) {
            fail_view("required"@, Priority::Critical, message_or(self.custom(), required_default_message()))
        } else {
            pass_view("required"@, Priority::Critical)
        }
    }

    pub open spec fn spec_partial(&self, input: Seq<char>) -> PartialView {
        if all_space(input) { partial_error(0) } else { partial_ok() }
    }

    pub fn validate(&self, input: &str) -> (r: ValidationResult)
        ensures
            r@ == self.spec_validate(input@),
    {
        if is_blank(input) {
            match &self.custom_message {
                Some(m) => ValidationResult::failure("required", Priority::Critical, m.as_str()),
                None => ValidationResult::failure("required", Priority::Critical, "This field is required"),
            }
        } else {
            ValidationResult::success_with_priority("required", Priority::Critical)
        }
    }

    pub fn partial_validate(&self, input: &str, cursor_pos: usize) -> (r: PartialValidationResult)
        ensures
            r@ == self.spec_partial(input@),
    {
        if is_blank(input) {
            PartialValidationResult::error_at(0)
        } else {
            PartialValidationResult::valid()
        }
    }

    pub fn priority(&self) -> (r: Priority)
        ensures
            r == Priority::Critical,
    {
        Priority::Critical
    }

    pub fn name(&self) -> (r: &'static str)
        ensures
            r@ == "required"@,
    {
        "required"
    }
}

/// `before`, then `n` in decimal, then `after`.
pub open spec fn with_number(before: Seq<char>, n: nat, after: Seq<char>) -> Seq<char> {
    before + decimal(n) + after
}

pub open spec fn with_two_numbers(a: Seq<char>, n: nat, b: Seq<char>, m: nat, c: Seq<char>) -> Seq<char> {
    a + decimal(n) + b + decimal(m) + c
}

/// Builds `before`, then `n` in decimal, then `after`.
pub fn number_message(before: &str, n: usize, after: &str) -> (r: String)
    ensures
        r@ == with_number(before@, n as nat, after@),
{
    let mut s = String::from_str(before);
    let d = decimal_text(n);
    s.append(d.as_str());
    s.append(after);
    s
}

/// Builds `a`, `n`, `b`, `m`, `c` with the numbers in decimal.
pub fn two_number_message(a: &str, n: usize, b: &str, m: usize, c: &str) -> (r: String)
    ensures
        r@ == with_two_numbers(a@, n as nat, b@, m as nat, c@),
{
    let mut s = number_message(a, n, b);
    let d = decimal_text(m);
    s.append(d.as_str());
    s.append(c);
    s
}

/// Rejects input with fewer characters than a bound.
#[derive(Debug)]
pub struct MinLengthValidator {
    min_length: usize,
    priority: Priority,
    custom_message: Option<String>,
}

impl MinLengthValidator {
    pub closed spec fn bound(&self) -> nat {
        self.min_length as nat
    }

    pub closed spec fn spec_priority(&self) -> Priority {
        self.priority
    }

    pub closed spec fn custom(&self) -> Option<Seq<char>> {
        opt_text_ref(&self.custom_message)
    }

    pub fn new(min_length: usize) -> (r: Self)
        ensures
            r.bound() == min_length,
            r.spec_priority() == Priority::Medium,
            r.custom() is None,
    {
        MinLengthValidator { min_length, priority: Priority::Medium, custom_message: None }
    }

    pub fn with_priority(self, priority: Priority) -> (r: Self)
        ensures
            r.bound() == self.bound(),
            r.spec_priority() == priority,
            r.custom() == self.custom(),
    {
        MinLengthValidator { priority, ..self }
    }

    pub fn with_message(self, message: &str) -> (r: Self)
        ensures
            r.bound() == self.bound(),
            r.spec_priority() == self.spec_priority(),
            r.custom() == Some(message@),
    {
        MinLengthValidator { custom_message: Some(String::from_str(message)), ..self }
    }

    pub open spec fn spec_validate(&self, input: Seq<char>) -> ResultView {
        if input.len() < self.bound() {
            with_meta(
                with_meta(
                    fail_view(
                        "min_length"@,
                        self.spec_priority(),
                        message_or(
                            self.custom(),
                            with_two_numbers("Minimum length is "@, self.bound(), " characters (currently "@, input.len(), ")"@),
                        ),
                    ),
                    "min_length"@,
                    MetaView::Number(self.bound()),
                ),
                "actual_length"@,
                MetaView::Number(input.len()),
            )
        } else {
            pass_view("min_length"@, Priority::Medium)
        }
    }

    pub open spec fn spec_partial(&self, input: Seq<char>) -> PartialView {
        if input.len() < self.bound() {
            partial_hint(0, with_number("Need "@, (self.bound() - input.len()) as nat, " more characters"@))
        } else {
            partial_ok()
        }
    }

    pub fn validate(&self, input: &str) -> (r: ValidationResult)
        ensures
            r@ == self.spec_validate(input@),
    {
        let length = char_count(input);
        if length < self.min_length {
            let failed = match &self.custom_message {
                Some(m) => ValidationResult::failure("min_length", self.priority, m.as_str()),
                None => {
                    let m = two_number_message("Minimum length is ", self.min_length, " characters (currently ", length, ")");
                    ValidationResult::failure("min_length", self.priority, m.as_str())
                },
            };
            failed
                .with_metadata("min_length", MetaValue::Number(self.min_length as u64))
                .with_metadata("actual_length", MetaValue::Number(length as u64))
        } else {
            ValidationResult::success("min_length")
        }
    }

    pub fn partial_validate(&self, input: &str, cursor_pos: usize) -> (r: PartialValidationResult)
        ensures
            r@ == self.spec_partial(input@),
    {
        let length = char_count(input);
        if length < self.min_length {
            let hint = number_message("Need ", self.min_length - length, " more characters");
            PartialValidationResult::error_at(0).with_suggestion(hint)
        } else {
            PartialValidationResult::valid()
        }
    }

    pub fn priority(&self) -> (r: Priority)
        ensures
            r == self.spec_priority(),
    {
        self.priority
    }

    pub fn name(&self) -> (r: &'static str)
        ensures
            r@ == "min_length"@,
    {
        "min_length"
    }
}

/// Rejects input with more characters than a bound.
#[derive(Debug)]
pub struct MaxLengthValidator {
    max_length: usize,
    priority: Priority,
    custom_message: Option<String>,
}

impl MaxLengthValidator {
    pub closed spec fn bound(&self) -> nat {
        self.max_length as nat
    }

    pub closed spec fn spec_priority(&self) -> Priority {
        self.priority
    }

    pub closed spec fn custom(&self) -> Option<Seq<char>> {
        opt_text_ref(&self.custom_message)
    }

    pub fn new(max_length: usize) -> (r: Self)
        ensures
            r.bound() == max_length,
            r.spec_priority() == Priority::Medium,
            r.custom() is None,
    {
        MaxLengthValidator { max_length, priority: Priority::Medium, custom_message: None }
    }

    pub fn with_priority(self, priority: Priority) -> (r: Self)
        ensures
            r.bound() == self.bound(),
            r.spec_priority() == priority,
            r.custom() == self.custom(),
    {
        MaxLengthValidator { priority, ..self }
    }

    pub fn with_message(self, message: &str) -> (r: Self)
        ensures
            r.bound() == self.bound(),
            r.spec_priority() == self.spec_priority(),
            r.custom() == Some(message@),
    {
        MaxLengthValidator { custom_message: Some(String::from_str(message)), ..self }
    }

    pub open spec fn spec_validate(&self, input: Seq<char>) -> ResultView {
        if input.len() > self.bound() {
            with_meta(
                with_meta(
                    fail_view(
                        "max_length"@,
                        self.spec_priority(),
                        message_or(
                            self.custom(),
                            with_two_numbers("Maximum length is "@, self.bound(), " characters (currently "@, input.len(), ")"@),
                        ),
                    ),
                    "max_length"@,
                    MetaView::Number(self.bound()),
                ),
                "actual_length"@,
                MetaView::Number(input.len()),
            )
        } else {
            pass_view("max_length"@, Priority::Medium)
        }
    }

    /// Past the bound, the error sits at the first character beyond it.
    pub open spec fn spec_partial(&self, input: Seq<char>) -> PartialView {
        if input.len() > self.bound() {
            partial_hint(self.bound() as usize, with_number("Too long by "@, (input.len() - self.bound()) as nat, " characters"@))
        } else {
            partial_ok()
        }
    }

    pub fn validate(&self, input: &str) -> (r: ValidationResult)
        ensures
            r@ == self.spec_validate(input@),
    {
        let length = char_count(input);
        if length > self.max_length {
            let failed = match &self.custom_message {
                Some(m) => ValidationResult::failure("max_length", self.priority, m.as_str()),
                None => {
                    let m = two_number_message("Maximum length is ", self.max_length, " characters (currently ", length, ")");
                    ValidationResult::failure("max_length", self.priority, m.as_str())
                },
            };
            failed
                .with_metadata("max_length", MetaValue::Number(self.max_length as u64))
                .with_metadata("actual_length", MetaValue::Number(length as u64))
        } else {
            ValidationResult::success("max_length")
        }
    }

    pub fn partial_validate(&self, input: &str, cursor_pos: usize) -> (r: PartialValidationResult)
        ensures
            r@ == self.spec_partial(input@),
    {
        let length = char_count(input);
        if length > self.max_length {
            let hint = number_message("Too long by ", length - self.max_length, " characters");
            PartialValidationResult::error_at(self.max_length).with_suggestion(hint)
        } else {
            PartialValidationResult::valid()
        }
    }

    pub fn priority(&self) -> (r: Priority)
        ensures
            r == self.spec_priority(),
    {
        self.priority
    }

    pub fn name(&self) -> (r: &'static str)
        ensures
            r@ == "max_length"@,
    {
        "max_length"
    }
}

/// First `k` at or after `from` where the first `k + 1` characters no longer match.
pub open spec fn first_unmatched_prefix(pattern: Seq<char>, s: Seq<char>, from: nat) -> Option<nat>
    decreases s.len() - from,
{
    if from >= s.len() {
        None
    } else if !pattern_matches(pattern, s.subrange(0, from as int + 1)) {
        Some(from)
    } else {
        first_unmatched_prefix(pattern, s, from + 1)
    }
}

/// Requires the input to match a regular expression.
#[derive(Debug)]
pub struct PatternValidator {
    pattern_str: String,
    priority: Priority,
    custom_message: Option<String>,
}

impl PatternValidator {
    pub closed spec fn pattern(&self) -> Seq<char> {
        self.pattern_str@
    }

    pub closed spec fn spec_priority(&self) -> Priority {
        self.priority
    }

    pub closed spec fn custom(&self) -> Option<Seq<char>> {
        opt_text_ref(&self.custom_message)
    }

    /// Compiles the pattern; an invalid one is refused here, before any input is seen.
    pub fn new(pattern: &str) -> (r: Result<Self, regex::Error>)
        ensures
            r is Ok <==> crate::matching::regex_accepts(pattern@),
            r matches Ok(v) ==> v.pattern() == pattern@ && v.spec_priority() == Priority::High && v.custom() is None,
    {
        match compile_regex(pattern) {
            Ok(_) => Ok(PatternValidator {
                pattern_str: String::from_str(pattern),
                priority: Priority::High,
                custom_message: None,
            }),
            Err(e) => Err(e),
        }
    }

    pub fn with_priority(self, priority: Priority) -> (r: Self)
        ensures
            r.pattern() == self.pattern(),
            r.spec_priority() == priority,
            r.custom() == self.custom(),
    {
        PatternValidator { priority, ..self }
    }

    pub fn with_message(self, message: &str) -> (r: Self)
        ensures
            r.pattern() == self.pattern(),
            r.spec_priority() == self.spec_priority(),
            r.custom() == Some(message@),
    {
        PatternValidator { custom_message: Some(String::from_str(message)), ..self }
    }

    pub open spec fn spec_validate(&self, input: Seq<char>) -> ResultView {
        if pattern_matches(self.pattern(), input) {
            pass_view("pattern"@, Priority::Medium)
        } else {
            with_meta(
                fail_view(
                    "pattern"@,
                    self.spec_priority(),
                    message_or(self.custom(), "Must match pattern: "@ + self.pattern()),
                ),
                "pattern"@,
                MetaView::Text(self.pattern()),
            )
        }
    }

    /// Empty or matching input is fine; otherwise the error is at the end of the
    /// shortest prefix that does not match, or at 0.
    pub open spec fn spec_partial(&self, input: Seq<char>) -> PartialView {
        if input.len() == 0 || pattern_matches(self.pattern(), input) {
            partial_ok()
        } else {
            match first_unmatched_prefix(self.pattern(), input, 0) {
                Some(k) => partial_error(k as usize),
                None => partial_error(0),
            }
        }
    }

    pub fn validate(&self, input: &str) -> (r: ValidationResult)
        ensures
            r@ == self.spec_validate(input@),
    {
        if regex_matches(self.pattern_str.as_str(), input) {
            ValidationResult::success("pattern")
        } else {
            let failed = match &self.custom_message {
                Some(m) => ValidationResult::failure("pattern", self.priority, m.as_str()),
                None => {
                    let mut m = String::from_str("Must match pattern: ");
                    m.append(self.pattern_str.as_str());
                    ValidationResult::failure("pattern", self.priority, m.as_str())
                },
            };
            failed.with_metadata("pattern", MetaValue::Text(self.pattern_str.clone()))
        }
    }

    pub fn partial_validate(&self, input: &str, cursor_pos: usize) -> (r: PartialValidationResult)
        ensures
            r@ == self.spec_partial(input@),
    {
        let cs = chars_of(input);
        if cs.len() == 0 || regex_matches(self.pattern_str.as_str(), input) {
            return PartialValidationResult::valid();
        }
        let mut k: usize = 0;
        let mut grown: Vec<char> = Vec::new();
        while k < cs.len()
            invariant
                k <= cs.len(),
                cs@ == input@,
                grown@ == cs@.subrange(0, k as int),
                input@.len() > 0,
                !pattern_matches(self.pattern(), input@),
                first_unmatched_prefix(self.pattern(), input@, 0) == first_unmatched_prefix(self.pattern(), input@, k as nat),
            decreases cs.len() - k,
        {
            grown.push(cs[k]);
            proof {
                assert(grown@ =~= cs@.subrange(0, k + 1));
            }
            let prefix = string_of(grown.as_slice());
            if !regex_matches(self.pattern_str.as_str(), prefix.as_str()) {
                return PartialValidationResult::error_at(k);
            }
            k = k + 1;
        }
        PartialValidationResult::error_at(0)
    }

    pub fn priority(&self) -> (r: Priority)
        ensures
            r == self.spec_priority(),
    {
        self.priority
    }

    pub fn name(&self) -> (r: &'static str)
        ensures
            r@ == "pattern"@,
    {
        "pattern"
    }

    /// The pattern's source text.
    pub fn description(&self) -> (r: &str)
        ensures
            r@ == self.pattern(),
    {
        self.pattern_str.as_str()
    }
}

} // verus!
