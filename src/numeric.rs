//! Integer and real-number rules.
use vstd::prelude::*;
use crate::priority::Priority;
use crate::result::{ValidationResult, PartialValidationResult, ResultView, pass_view, fail_view, opt_text_ref};
use crate::basic::{PartialView, partial_ok, partial_error, message_or};
use crate::text::chars_of;
use crate::format::{is_digit, digit_value, decimal_value};

verus! {

/// Largest magnitude an `i64` can hold, for the given sign.
pub open spec fn i64_limit(negative: bool) -> nat {
    if negative { 9223372036854775808 } else { 9223372036854775807 }
}

/// The digits after an optional leading sign.
pub open spec fn unsigned_part(s: Seq<char>) -> Seq<char> {
    if s.len() > 0 && (s[0] == '+' || s[0] == '-') { s.drop_first() } else { s }
}

/// The syntax that `str::parse::<i64>` accepts: an optional sign, then at least one
/// decimal digit, with a value that fits.
pub open spec fn i64_text(s: Seq<char>) -> bool {
    let body = unsigned_part(s);
    let negative = s.len() > 0 && s[0] == '-';
    &&& body.len() >= 1
    &&& forall|i: int| 0 <= i < body.len() ==> is_digit(#[trigger] body[i])
    &&& decimal_value(body) <= i64_limit(negative)
}

pub open spec fn capped(v: nat, cap: nat) -> nat {
    if v < cap { v } else { cap }
}

/// Whether the text reads as an `i64`.
pub fn parses_as_i64(input: &str) -> (r: bool)
    ensures
        r == i64_text(input@),
{
    let cs = chars_of(input);
    let negative = cs.len() > 0 && cs[0] == '-';
    let start: usize = if cs.len() > 0 && (cs[0] == '+' || cs[0] == '-') { 1 } else { 0 };
    let ghost body = unsigned_part(input@);
    proof {
        assert(body =~= cs@.subrange(start as int, cs.len() as int));
    }
    if cs.len() <= start {
        return false;
    }
    let limit: u128 = if negative { 9223372036854775808 } else { 9223372036854775807 };
    let mut v: u128 = 0;
    let mut i: usize = start;
    proof {
        assert(body.subrange(0, 0) =~= Seq::<char>::empty());
    }
    while i < cs.len()
        invariant
            start <= i <= cs.len(),
            cs@ == input@,
            body == unsigned_part(input@),
            negative == (input@.len() > 0 && input@[0] == '-'),
            body == cs@.subrange(start as int, cs.len() as int),
            limit == i64_limit(negative),
            v as nat == capped(decimal_value(body.subrange(0, i - start)), limit as nat + 1),
            forall|j: int| 0 <= j < i - start ==> is_digit(#[trigger] body[j]),
        decreases cs.len() - i,
    {
        let c = cs[i] as u32;
        if c < 48 || c > 57 {
            assert(body[i - start] == cs@[i as int]);
            assert(!is_digit(body[i - start]));
            return false;
        }
        let ghost pre = body.subrange(0, i - start);
        proof {
            assert(body[i - start] == cs@[i as int]);
            assert(body.subrange(0, i - start + 1).drop_last() =~= pre);
            assert(decimal_value(body.subrange(0, i - start + 1)) == decimal_value(pre) * 10 + digit_value(cs@[i as int]));
        }
        if v > limit {
            proof {
                assert(decimal_value(pre) * 10 + digit_value(cs@[i as int]) >= decimal_value(pre)) by (nonlinear_arith);
            }
        } else {
            v = v * 10 + (c - 48) as u128;
            if v > limit {
                v = limit + 1;
            }
        }
        i = i + 1;
    }
    proof {
        assert(body.subrange(0, i - start) =~= body);
    }
    v <= limit
}

/// Accepts whole numbers that fit in 64 bits.
#[derive(Debug)]
pub struct IntegerValidator {
    priority: Priority,
    custom_message: Option<String>,
}

impl IntegerValidator {
    pub closed spec fn spec_priority(&self) -> Priority {
        self.priority
    }

    pub closed spec fn custom(&self) -> Option<Seq<char>> {
        opt_text_ref(&self.custom_message)
    }

    pub fn new() -> (r: Self)
        ensures
            r.spec_priority() == Priority::High,
            r.custom() is None,
    {
        IntegerValidator { priority: Priority::High, custom_message: None }
    }

    pub fn with_priority(self, priority: Priority) -> (r: Self)
        ensures
            r.spec_priority() == priority,
            r.custom() == self.custom(),
    {
        IntegerValidator { priority, ..self }
    }

    pub fn with_message(self, message: &str) -> (r: Self)
        ensures
            r.spec_priority() == self.spec_priority(),
            r.custom() == Some(message@),
    {
        IntegerValidator { custom_message: Some(String::from_str(message)), ..self }
    }

    pub fn priority(&self) -> (r: Priority)
        ensures
            r == self.spec_priority(),
    {
        self.priority
    }

    pub fn name(&self) -> (r: &'static str)
        ensures
            r@ == "integer"@,
    {
        "integer"
    }

    fn fail(&self, default: &str) -> (r: ValidationResult)
        ensures
            r@ == fail_view("integer"@, self.spec_priority(), message_or(self.custom(), default@)),
    {
        match &self.custom_message {
            Some(m) => ValidationResult::failure("integer", self.priority, m.as_str()),
            None => ValidationResult::failure("integer", self.priority, default),
        }
    }
}

impl IntegerValidator {
    pub open spec fn spec_validate(&self, input: Seq<char>) -> ResultView {
        if i64_text(input) {
            pass_view("integer"@, Priority::Medium)
        } else {
            fail_view("integer"@, self.spec_priority(), message_or(self.custom(), "Must be a valid integer"@))
        }
    }

    /// Flags the first character that is neither a digit nor a leading sign.
    pub open spec fn spec_partial(&self, input: Seq<char>) -> PartialView {
        match first_non_integer(input, 0) {
            Some(k) => partial_error(k as usize),
            None => partial_ok(),
        }
    }

    pub fn validate(&self, input: &str) -> (r: ValidationResult)
        ensures
            r@ == self.spec_validate(input@),
    {
        if parses_as_i64(input) {
            ValidationResult::success("integer")
        } else {
            self.fail("Must be a valid integer")
        }
    }

    pub fn partial_validate(&self, input: &str, cursor_pos: usize) -> (r: PartialValidationResult)
        ensures
            r@ == self.spec_partial(input@),
    {
        let cs = chars_of(input);
        let mut i: usize = 0;
        while i < cs.len()
            invariant
                i <= cs.len(),
                cs@ == input@,
                first_non_integer(cs@, 0) == first_non_integer(cs@, i as nat),
            decreases cs.len() - i,
        {
            let c = cs[i];
            let v = c as u32;
            if !(i == 0 && (c == '+' || c == '-')) && !(48 <= v && v <= 57) {
                assert(!is_digit(cs@[i as int]));
                return PartialValidationResult::error_at(i);
            }
            i = i + 1;
        }
        PartialValidationResult::valid()
    }
}

pub open spec fn first_non_integer(s: Seq<char>, from: nat) -> Option<nat>
    decreases s.len() - from,
{
    if from >= s.len() {
        None
    } else if !(from == 0 && (s[0] == '+' || s[0] == '-')) && !is_digit(s[from as int]) {
        Some(from)
    } else {
        first_non_integer(s, from + 1)
    }
}

/// How a text reads as a real number; the parsing itself happens at the caller.
#[derive(Debug, Clone, Copy, PartialEq, Eq, Structural)]
pub enum NumberReading {
    /// Not a number.
    Unreadable,
    /// Less than zero.
    Below,
    /// Zero, or a value that compares neither above nor below it.
    Neutral,
    /// Greater than zero.
    Above,
}

/// Where a number still being typed first goes wrong: a sign that neither starts the
/// text nor follows an exponent mark, a second point or a point in the exponent, a
/// second exponent mark, or any other character than a digit.
pub open spec fn float_scan(s: Seq<char>, from: nat, has_dot: bool, has_e: bool) -> Option<nat>
    decreases s.len() - from,
{
    if from >= s.len() {
        None
    } else {
        let c = s[from as int];
        if c == '+' || c == '-' {
            if from != 0 && s[from - 1] != 'e' && s[from - 1] != 'E' {
                Some(from)
            } else {
                float_scan(s, from + 1, has_dot, has_e)
            }
        } else if c == '.' {
            if has_dot || has_e { Some(from) } else { float_scan(s, from + 1, true, has_e) }
        } else if c == 'e' || c == 'E' {
            if has_e { Some(from) } else { float_scan(s, from + 1, has_dot, true) }
        } else if is_digit(c) {
            float_scan(s, from + 1, has_dot, has_e)
        } else {
            Some(from)
        }
    }
}

pub open spec fn float_partial(s: Seq<char>) -> PartialView {
    match float_scan(s, 0, false, false) {
        Some(k) => partial_error(k as usize),
        None => partial_ok(),
    }
}

/// Partial check of a real number being typed.
pub fn float_partial_check(cs: &Vec<char>) -> (r: PartialValidationResult)
    ensures
        r@ == float_partial(cs@),
{
    let mut has_dot = false;
    let mut has_e = false;
    let mut i: usize = 0;
    while i < cs.len()
        invariant
            i <= cs.len(),
            float_scan(cs@, 0, false, false) == float_scan(cs@, i as nat, has_dot, has_e),
        decreases cs.len() - i,
    {
        let c = cs[i];
        if c == '+' || c == '-' {
            if i != 0 && cs[i - 1] != 'e' && cs[i - 1] != 'E' {
                return PartialValidationResult::error_at(i);
            }
        } else if c == '.' {
            if has_dot || has_e {
                return PartialValidationResult::error_at(i);
            }
            has_dot = true;
        } else if c == 'e' || c == 'E' {
            if has_e {
                return PartialValidationResult::error_at(i);
            }
            has_e = true;
        } else {
            let v = c as u32;
            if !(48 <= v && v <= 57) {
                return PartialValidationResult::error_at(i);
            }
        }
        i = i + 1;
    }
    PartialValidationResult::valid()
}

/// Accepts real numbers.
#[derive(Debug)]
pub struct FloatValidator {
    priority: Priority,
    custom_message: Option<String>,
}

impl FloatValidator {
    pub closed spec fn spec_priority(&self) -> Priority {
        self.priority
    }

    pub closed spec fn custom(&self) -> Option<Seq<char>> {
        opt_text_ref(&self.custom_message)
    }

    pub fn new() -> (r: Self)
        ensures
            r.spec_priority() == Priority::High,
            r.custom() is None,
    {
        FloatValidator { priority: Priority::High, custom_message: None }
    }

    pub fn with_priority(self, priority: Priority) -> (r: Self)
        ensures
            r.spec_priority() == priority,
            r.custom() == self.custom(),
    {
        FloatValidator { priority, ..self }
    }

    pub fn with_message(self, message: &str) -> (r: Self)
        ensures
            r.spec_priority() == self.spec_priority(),
            r.custom() == Some(message@),
    {
        FloatValidator { custom_message: Some(String::from_str(message)), ..self }
    }

    pub fn priority(&self) -> (r: Priority)
        ensures
            r == self.spec_priority(),
    {
        self.priority
    }

    pub fn name(&self) -> (r: &'static str)
        ensures
            r@ == "float"@,
    {
        "float"
    }

    fn fail(&self, default: &str) -> (r: ValidationResult)
        ensures
            r@ == fail_view("float"@, self.spec_priority(), message_or(self.custom(), default@)),
    {
        match &self.custom_message {
            Some(m) => ValidationResult::failure("float", self.priority, m.as_str()),
            None => ValidationResult::failure("float", self.priority, default),
        }
    }
}

impl FloatValidator {
    pub open spec fn spec_validate_reading(&self, reading: NumberReading) -> ResultView {
        if reading != NumberReading::Unreadable {
            pass_view("float"@, Priority::Medium)
        } else {
            fail_view("float"@, self.spec_priority(), message_or(self.custom(), "Must be a valid number"@))
        }
    }

    pub fn validate_reading(&self, reading: NumberReading) -> (r: ValidationResult)
        ensures
            r@ == self.spec_validate_reading(reading),
    {
        if reading != NumberReading::Unreadable {
            ValidationResult::success("float")
        } else {
            self.fail("Must be a valid number")
        }
    }

    pub fn partial_validate(&self, input: &str, cursor_pos: usize) -> (r: PartialValidationResult)
        ensures
            r@ == float_partial(input@),
    {
        let cs = chars_of(input);
        float_partial_check(&cs)
    }
}

/// Accepts numbers greater than zero.
#[derive(Debug)]
pub struct PositiveValidator {
    priority: Priority,
    custom_message: Option<String>,
}

impl PositiveValidator {
    pub closed spec fn spec_priority(&self) -> Priority {
        self.priority
    }

    pub closed spec fn custom(&self) -> Option<Seq<char>> {
        opt_text_ref(&self.custom_message)
    }

    pub fn new() -> (r: Self)
        ensures
            r.spec_priority() == Priority::Medium,
            r.custom() is None,
    {
        PositiveValidator { priority: Priority::Medium, custom_message: None }
    }

    pub fn with_priority(self, priority: Priority) -> (r: Self)
        ensures
            r.spec_priority() == priority,
            r.custom() == self.custom(),
    {
        PositiveValidator { priority, ..self }
    }

    pub fn with_message(self, message: &str) -> (r: Self)
        ensures
            r.spec_priority() == self.spec_priority(),
            r.custom() == Some(message@),
    {
        PositiveValidator { custom_message: Some(String::from_str(message)), ..self }
    }

    pub fn priority(&self) -> (r: Priority)
        ensures
            r == self.spec_priority(),
    {
        self.priority
    }

    pub fn name(&self) -> (r: &'static str)
        ensures
            r@ == "positive"@,
    {
        "positive"
    }

    fn fail(&self, default: &str) -> (r: ValidationResult)
        ensures
            r@ == fail_view("positive"@, self.spec_priority(), message_or(self.custom(), default@)),
    {
        match &self.custom_message {
            Some(m) => ValidationResult::failure("positive", self.priority, m.as_str()),
            None => ValidationResult::failure("positive", self.priority, default),
        }
    }
}

impl PositiveValidator {
    pub open spec fn spec_validate_reading(&self, reading: NumberReading) -> ResultView {
        if reading == NumberReading::Unreadable {
            fail_view("positive"@, self.spec_priority(), message_or(self.custom(), "Must be a valid number"@))
        } else if reading == NumberReading::Above {
            pass_view("positive"@, Priority::Medium)
        } else {
            fail_view("positive"@, self.spec_priority(), message_or(self.custom(), "Must be a positive number"@))
        }
    }

    /// A leading minus sign is flagged; otherwise the text is checked as a number.
    pub open spec fn spec_partial(&self, input: Seq<char>) -> PartialView {
        if input.len() == 0 {
            partial_ok()
        } else if input[0] == '-' {
            partial_error(0)
        } else {
            float_partial(input)
        }
    }

    pub fn validate_reading(&self, reading: NumberReading) -> (r: ValidationResult)
        ensures
            r@ == self.spec_validate_reading(reading),
    {
        if reading == NumberReading::Unreadable {
            self.fail("Must be a valid number")
        } else if reading == NumberReading::Above {
            ValidationResult::success("positive")
        } else {
            self.fail("Must be a positive number")
        }
    }

    pub fn partial_validate(&self, input: &str, cursor_pos: usize) -> (r: PartialValidationResult)
        ensures
            r@ == self.spec_partial(input@),
    {
        let cs = chars_of(input);
        if cs.len() == 0 {
            return PartialValidationResult::valid();
        }
        if cs[0] == '-' {
            return PartialValidationResult::error_at(0);
        }
        float_partial_check(&cs)
    }
}

/// Every character is a digit or `.`.
pub open spec fn digits_and_points(s: Seq<char>) -> bool {
    forall|i: int| 0 <= i < s.len() ==> (is_digit(#[trigger] s[i]) || s[i] == '.')
}

/// Accepts numbers less than zero.
#[derive(Debug)]
pub struct NegativeValidator {
    priority: Priority,
    custom_message: Option<String>,
}

impl NegativeValidator {
    pub closed spec fn spec_priority(&self) -> Priority {
        self.priority
    }

    pub closed spec fn custom(&self) -> Option<Seq<char>> {
        opt_text_ref(&self.custom_message)
    }

    pub fn new() -> (r: Self)
        ensures
            r.spec_priority() == Priority::Medium,
            r.custom() is None,
    {
        NegativeValidator { priority: Priority::Medium, custom_message: None }
    }

    pub fn with_priority(self, priority: Priority) -> (r: Self)
        ensures
            r.spec_priority() == priority,
            r.custom() == self.custom(),
    {
        NegativeValidator { priority, ..self }
    }

    pub fn with_message(self, message: &str) -> (r: Self)
        ensures
            r.spec_priority() == self.spec_priority(),
            r.custom() == Some(message@),
    {
        NegativeValidator { custom_message: Some(String::from_str(message)), ..self }
    }

    pub fn priority(&self) -> (r: Priority)
        ensures
            r == self.spec_priority(),
    {
        self.priority
    }

    pub fn name(&self) -> (r: &'static str)
        ensures
            r@ == "negative"@,
    {
        "negative"
    }

    fn fail(&self, default: &str) -> (r: ValidationResult)
        ensures
            r@ == fail_view("negative"@, self.spec_priority(), message_or(self.custom(), default@)),
    {
        match &self.custom_message {
            Some(m) => ValidationResult::failure("negative", self.priority, m.as_str()),
            None => ValidationResult::failure("negative", self.priority, default),
        }
    }
}

impl NegativeValidator {
    pub open spec fn spec_validate_reading(&self, reading: NumberReading) -> ResultView {
        if reading == NumberReading::Unreadable {
            fail_view("negative"@, self.spec_priority(), message_or(self.custom(), "Must be a valid number"@))
        } else if reading == NumberReading::Below {
            pass_view("negative"@, Priority::Medium)
        } else {
            fail_view("negative"@, self.spec_priority(), message_or(self.custom(), "Must be a negative number"@))
        }
    }

    /// Digits and points without a sign yet are accepted, since the minus may come
    /// later; otherwise the text is checked as a number.
    pub open spec fn spec_partial(&self, input: Seq<char>) -> PartialView {
        if input.len() == 0 {
            partial_ok()
        } else if input[0] != '-' && digits_and_points(input) {
            partial_ok()
        } else {
            float_partial(input)
        }
    }

    pub fn validate_reading(&self, reading: NumberReading) -> (r: ValidationResult)
        ensures
            r@ == self.spec_validate_reading(reading),
    {
        if reading == NumberReading::Unreadable {
            self.fail("Must be a valid number")
        } else if reading == NumberReading::Below {
            ValidationResult::success("negative")
        } else {
            self.fail("Must be a negative number")
        }
    }

    pub fn partial_validate(&self, input: &str, cursor_pos: usize) -> (r: PartialValidationResult)
        ensures
            r@ == self.spec_partial(input@),
    {
        let cs = chars_of(input);
        if cs.len() == 0 {
            return PartialValidationResult::valid();
        }
        if cs[0] != '-' {
            let mut all = true;
            let mut i: usize = 0;
            while i < cs.len()
                invariant
                    i <= cs.len(),
                    all == (forall|j: int| 0 <= j < i ==> (is_digit(#[trigger] cs@[j]) || cs@[j] == '.')),
                decreases cs.len() - i,
            {
                let c = cs[i];
                let v = c as u32;
                if !((48 <= v && v <= 57) || c == '.') {
                    all = false;
                }
                i = i + 1;
            }
            if all {
                return PartialValidationResult::valid();
            }
        }
        float_partial_check(&cs)
    }
}

} // verus!
