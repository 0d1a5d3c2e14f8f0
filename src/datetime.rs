//! Dates and times in a configurable format, read by `chrono`.
use vstd::prelude::*;
use crate::priority::Priority;
use crate::result::{ValidationResult, PartialValidationResult, ResultView, pass_view, fail_view, opt_text_ref};
use crate::basic::{PartialView, partial_ok, partial_error, message_or};
use crate::text::chars_of;
use crate::format::is_digit;

verus! {

/// Whether `chrono::NaiveDate::parse_from_str` reads the text in the format.
pub uninterp spec fn chrono_reads_date(input: Seq<char>, format: Seq<char>) -> bool;

/// Whether `chrono::NaiveTime::parse_from_str` reads the text in the format.
pub uninterp spec fn chrono_reads_time(input: Seq<char>, format: Seq<char>) -> bool;

/// Whether `chrono::NaiveDateTime::parse_from_str` reads the text in the format.
pub uninterp spec fn chrono_reads_naive_datetime(input: Seq<char>, format: Seq<char>) -> bool;

/// Whether `chrono::DateTime::parse_from_str` reads the text, with its offset, in the format.
pub uninterp spec fn chrono_reads_zoned_datetime(input: Seq<char>, format: Seq<char>) -> bool;

/// Relies on `chrono::NaiveDate::parse_from_str`: success depends on the text and format alone.
#[verifier::external_body]
fn reads_date(input: &str, format: &str) -> (r: bool)
    ensures
        r == chrono_reads_date(input@, format@),
{
    chrono::NaiveDate::parse_from_str(input, format).is_ok()
}

/// Relies on `chrono::NaiveTime::parse_from_str`: success depends on the text and format alone.
#[verifier::external_body]
fn reads_time(input: &str, format: &str) -> (r: bool)
    ensures
        r == chrono_reads_time(input@, format@),
{
    chrono::NaiveTime::parse_from_str(input, format).is_ok()
}

/// Relies on `chrono::NaiveDateTime::parse_from_str`: success depends on the text and format alone.
#[verifier::external_body]
fn reads_naive_datetime(input: &str, format: &str) -> (r: bool)
    ensures
        r == chrono_reads_naive_datetime(input@, format@),
{
    chrono::NaiveDateTime::parse_from_str(input, format).is_ok()
}

/// Relies on `chrono::DateTime::parse_from_str`: success depends on the text and format alone.
#[verifier::external_body]
fn reads_zoned_datetime(input: &str, format: &str) -> (r: bool)
    ensures
        r == chrono_reads_zoned_datetime(input@, format@),
{
    chrono::DateTime::parse_from_str(input, format).is_ok()
}

/// Whether `needle` occurs in `hay`.
pub open spec fn occurs_in(needle: Seq<char>, hay: Seq<char>) -> bool {
    exists|i: int| 0 <= i && i + needle.len() <= hay.len() && #[trigger] hay.subrange(i, i + needle.len()) == needle
}

fn occurs(needle: &str, hay: &String) -> (r: bool)
    ensures
        r == occurs_in(needle@, hay@),
{
    let n = chars_of(needle);
    let h = chars_of(hay.as_str());
    if n.len() > h.len() {
        proof {
            assert forall|i: int| 0 <= i && i + n@.len() <= h@.len() implies #[trigger] h@.subrange(i, i + n@.len()) != n@ by {}
        }
        return false;
    }
    let mut i: usize = 0;
    while i <= h.len() - n.len()
        invariant
            n@ == needle@,
            h@ == hay@,
            n.len() <= h.len(),
            i <= h.len() - n.len() + 1,
            forall|k: int| 0 <= k < i ==> #[trigger] h@.subrange(k, k + n@.len()) != n@,
        decreases h.len() - i,
    {
        let mut j: usize = 0;
        let mut same = true;
        while j < n.len()
            invariant
                i + n.len() <= h.len(),
                j <= n.len(),
                same == (forall|m: int| 0 <= m < j ==> h@[i + m] == n@[m]),
            decreases n.len() - j,
        {
            if h[i + j] != n[j] {
                same = false;
            }
            j = j + 1;
        }
        if same {
            assert(h@.subrange(i as int, i + n@.len()) =~= n@);
            return true;
        }
        proof {
            let w = choose|m: int| 0 <= m < n.len() && h@[i + m] != n@[m];
            assert(h@.subrange(i as int, i + n@.len())[w] != n@[w]);
        }
        i = i + 1;
    }
    false
}

/// A mask for a well-known format: `#` stands for a digit, other characters for themselves.
/// The first position, within the mask, where the text breaks it.
pub open spec fn mask_break(s: Seq<char>, mask: Seq<char>, from: nat) -> Option<nat>
    decreases s.len() - from,
{
    if from >= s.len() || from >= mask.len() {
        None
    } else if (mask[from as int] == '#' && !is_digit(s[from as int])) || (mask[from as int] != '#' && s[from as int] != mask[from as int]) {
        Some(from)
    } else {
        mask_break(s, mask, from + 1)
    }
}

/// Partial check against a mask, applied only while the text is no longer than it.
pub open spec fn mask_partial(s: Seq<char>, mask: Seq<char>) -> PartialView {
    if s.len() > mask.len() {
        partial_ok()
    } else {
        match mask_break(s, mask, 0) {
            Some(k) => partial_error(k as usize),
            None => partial_ok(),
        }
    }
}

fn mask_check(input: &str, mask: &str) -> (r: PartialValidationResult)
    ensures
        r@ == mask_partial(input@, mask@),
{
    let s = chars_of(input);
    let m = chars_of(mask);
    if s.len() > m.len() {
        return PartialValidationResult::valid();
    }
    let mut i: usize = 0;
    while i < s.len()
        invariant
            s@ == input@,
            m@ == mask@,
            s.len() <= m.len(),
            i <= s.len(),
            mask_break(s@, m@, 0) == mask_break(s@, m@, i as nat),
        decreases s.len() - i,
    {
        let c = s[i];
        let v = c as u32;
        let digit = 48 <= v && v <= 57;
        if (m[i] == '#' && !digit) || (m[i] != '#' && c != m[i]) {
            return PartialValidationResult::error_at(i);
        }
        i = i + 1;
    }
    PartialValidationResult::valid()
}

fn same_text(a: &String, b: &str) -> (r: bool)
    ensures
        r == (a@ == b@),
{
    *a == String::from_str(b)
}

fn format_or(format: Option<String>, default: &str) -> (r: String)
    ensures
        r@ == match format { Some(f) => f@, None => default@ },
{
    match format {
        Some(f) => f,
        None => String::from_str(default),
    }
}

fn format_message(lead: &str, format: &String) -> (r: String)
    ensures
        r@ == lead@ + format@,
{
    let mut m = String::from_str(lead);
    m.append(format.as_str());
    m
}

/// Accepts dates in a `chrono` format.
#[derive(Debug)]
pub struct DateValidator {
    format: String,
    priority: Priority,
    custom_message: Option<String>,
}

impl DateValidator {
    pub closed spec fn format_spec(&self) -> Seq<char> {
        self.format@
    }

    pub closed spec fn spec_priority(&self) -> Priority {
        self.priority
    }

    pub closed spec fn custom(&self) -> Option<Seq<char>> {
        opt_text_ref(&self.custom_message)
    }

    /// A rule for the given `chrono` format, `%Y-%m-%d` when none is given.
    pub fn new(format: Option<String>) -> (r: Self)
        ensures
            r.format_spec() == match format { Some(f) => f@, None => "%Y-%m-%d"@ },
            r.spec_priority() == Priority::High,
            r.custom() is None,
    {
        DateValidator { format: format_or(format, "%Y-%m-%d"), priority: Priority::High, custom_message: None }
    }

    pub fn with_priority(self, priority: Priority) -> (r: Self)
        ensures
            r.format_spec() == self.format_spec(),
            r.spec_priority() == priority,
            r.custom() == self.custom(),
    {
        DateValidator { priority, ..self }
    }

    pub fn with_message(self, message: &str) -> (r: Self)
        ensures
            r.format_spec() == self.format_spec(),
            r.spec_priority() == self.spec_priority(),
            r.custom() == Some(message@),
    {
        DateValidator { custom_message: Some(String::from_str(message)), ..self }
    }

    pub fn priority(&self) -> (r: Priority)
        ensures
            r == self.spec_priority(),
    {
        self.priority
    }

    pub fn name(&self) -> (r: &'static str)
        ensures
            r@ == "date"@,
    {
        "date"
    }

    pub open spec fn spec_validate(&self, input: Seq<char>) -> ResultView {
        if chrono_reads_date(input, self.format_spec()) {
            pass_view("date"@, Priority::Medium)
        } else {
            fail_view("date"@, self.spec_priority(), message_or(self.custom(),
                "Must be a valid date in format: "@ + self.format_spec()))
        }
    }

    pub fn validate(&self, input: &str) -> (r: ValidationResult)
        ensures
            r@ == self.spec_validate(input@),
    {
        if reads_date(input, self.format.as_str()) {
            return ValidationResult::success("date");
        }
        match &self.custom_message {
            Some(m) => ValidationResult::failure("date", self.priority, m.as_str()),
            None => {
                let m = format_message("Must be a valid date in format: ", &self.format);
                ValidationResult::failure("date", self.priority, m.as_str())
            },
        }
    }

    /// Well-known formats are checked character by character while typing.
    pub open spec fn spec_partial(&self, input: Seq<char>) -> PartialView {
        if input.len() > 0 && self.format_spec() == "%Y-%m-%d"@ {
            mask_partial(input, "####-##-##"@)
        } else {
            partial_ok()
        }
    }

    pub fn partial_validate(&self, input: &str, cursor_pos: usize) -> (r: PartialValidationResult)
        ensures
            r@ == self.spec_partial(input@),
    {
        if input.is_empty() {
            return PartialValidationResult::valid();
        }
        if same_text(&self.format, "%Y-%m-%d") {
            mask_check(input, "####-##-##")
        } else {
            PartialValidationResult::valid()
        }
    }
}

/// Accepts times of day in a `chrono` format.
#[derive(Debug)]
pub struct TimeValidator {
    format: String,
    priority: Priority,
    custom_message: Option<String>,
}

impl TimeValidator {
    pub closed spec fn format_spec(&self) -> Seq<char> {
        self.format@
    }

    pub closed spec fn spec_priority(&self) -> Priority {
        self.priority
    }

    pub closed spec fn custom(&self) -> Option<Seq<char>> {
        opt_text_ref(&self.custom_message)
    }

    /// A rule for the given `chrono` format, `%H:%M:%S` when none is given.
    pub fn new(format: Option<String>) -> (r: Self)
        ensures
            r.format_spec() == match format { Some(f) => f@, None => "%H:%M:%S"@ },
            r.spec_priority() == Priority::High,
            r.custom() is None,
    {
        TimeValidator { format: format_or(format, "%H:%M:%S"), priority: Priority::High, custom_message: None }
    }

    pub fn with_priority(self, priority: Priority) -> (r: Self)
        ensures
            r.format_spec() == self.format_spec(),
            r.spec_priority() == priority,
            r.custom() == self.custom(),
    {
        TimeValidator { priority, ..self }
    }

    pub fn with_message(self, message: &str) -> (r: Self)
        ensures
            r.format_spec() == self.format_spec(),
            r.spec_priority() == self.spec_priority(),
            r.custom() == Some(message@),
    {
        TimeValidator { custom_message: Some(String::from_str(message)), ..self }
    }

    pub fn priority(&self) -> (r: Priority)
        ensures
            r == self.spec_priority(),
    {
        self.priority
    }

    pub fn name(&self) -> (r: &'static str)
        ensures
            r@ == "time"@,
    {
        "time"
    }

    pub open spec fn spec_validate(&self, input: Seq<char>) -> ResultView {
        if chrono_reads_time(input, self.format_spec()) {
            pass_view("time"@, Priority::Medium)
        } else {
            fail_view("time"@, self.spec_priority(), message_or(self.custom(),
                "Must be a valid time in format: "@ + self.format_spec()))
        }
    }

    pub fn validate(&self, input: &str) -> (r: ValidationResult)
        ensures
            r@ == self.spec_validate(input@),
    {
        if reads_time(input, self.format.as_str()) {
            return ValidationResult::success("time");
        }
        match &self.custom_message {
            Some(m) => ValidationResult::failure("time", self.priority, m.as_str()),
            None => {
                let m = format_message("Must be a valid time in format: ", &self.format);
                ValidationResult::failure("time", self.priority, m.as_str())
            },
        }
    }

    /// Well-known formats are checked character by character while typing.
    pub open spec fn spec_partial(&self, input: Seq<char>) -> PartialView {
        if input.len() > 0 && self.format_spec() == "%H:%M:%S"@ {
            mask_partial(input, "##:##:##"@)
        } else if input.len() > 0 && self.format_spec() == "%H:%M"@ {
            mask_partial(input, "##:##"@)
        } else {
            partial_ok()
        }
    }

    pub fn partial_validate(&self, input: &str, cursor_pos: usize) -> (r: PartialValidationResult)
        ensures
            r@ == self.spec_partial(input@),
    {
        if input.is_empty() {
            return PartialValidationResult::valid();
        }
        if same_text(&self.format, "%H:%M:%S") {
            mask_check(input, "##:##:##")
        } else if same_text(&self.format, "%H:%M") {
            mask_check(input, "##:##")
        } else {
            PartialValidationResult::valid()
        }
    }
}

/// Accepts dates with times in a `chrono` format; a format with an offset
/// (`%z`, `%Z`, `%:z`) also accepts zoned values.
#[derive(Debug)]
pub struct DateTimeValidator {
    format: String,
    priority: Priority,
    custom_message: Option<String>,
}

impl DateTimeValidator {
    pub closed spec fn format_spec(&self) -> Seq<char> {
        self.format@
    }

    pub closed spec fn spec_priority(&self) -> Priority {
        self.priority
    }

    pub closed spec fn custom(&self) -> Option<Seq<char>> {
        opt_text_ref(&self.custom_message)
    }

    /// A rule for the given `chrono` format, `%Y-%m-%d %H:%M:%S` when none is given.
    pub fn new(format: Option<String>) -> (r: Self)
        ensures
            r.format_spec() == match format { Some(f) => f@, None => "%Y-%m-%d %H:%M:%S"@ },
            r.spec_priority() == Priority::High,
            r.custom() is None,
    {
        DateTimeValidator { format: format_or(format, "%Y-%m-%d %H:%M:%S"), priority: Priority::High, custom_message: None }
    }

    pub fn with_priority(self, priority: Priority) -> (r: Self)
        ensures
            r.format_spec() == self.format_spec(),
            r.spec_priority() == priority,
            r.custom() == self.custom(),
    {
        DateTimeValidator { priority, ..self }
    }

    pub fn with_message(self, message: &str) -> (r: Self)
        ensures
            r.format_spec() == self.format_spec(),
            r.spec_priority() == self.spec_priority(),
            r.custom() == Some(message@),
    {
        DateTimeValidator { custom_message: Some(String::from_str(message)), ..self }
    }

    pub fn priority(&self) -> (r: Priority)
        ensures
            r == self.spec_priority(),
    {
        self.priority
    }

    pub fn name(&self) -> (r: &'static str)
        ensures
            r@ == "datetime"@,
    {
        "datetime"
    }

    pub open spec fn spec_validate(&self, input: Seq<char>) -> ResultView {
        if chrono_reads_naive_datetime(input, self.format_spec()) || ((occurs_in("%z"@, self.format_spec())
            || occurs_in("%Z"@, self.format_spec()) || occurs_in("%:z"@, self.format_spec()))
            && chrono_reads_zoned_datetime(input, self.format_spec())) {
            pass_view("datetime"@, Priority::Medium)
        } else {
            fail_view("datetime"@, self.spec_priority(), message_or(self.custom(),
                "Must be a valid datetime in format: "@ + self.format_spec()))
        }
    }

    pub fn validate(&self, input: &str) -> (r: ValidationResult)
        ensures
            r@ == self.spec_validate(input@),
    {
        if reads_naive_datetime(input, self.format.as_str()) || ((occurs("%z", &self.format)
            || occurs("%Z", &self.format) || occurs("%:z", &self.format))
            && reads_zoned_datetime(input, self.format.as_str())) {
            return ValidationResult::success("datetime");
        }
        match &self.custom_message {
            Some(m) => ValidationResult::failure("datetime", self.priority, m.as_str()),
            None => {
                let m = format_message("Must be a valid datetime in format: ", &self.format);
                ValidationResult::failure("datetime", self.priority, m.as_str())
            },
        }
    }

    /// Well-known formats are checked character by character while typing.
    pub open spec fn spec_partial(&self, input: Seq<char>) -> PartialView {
        if input.len() > 0 && self.format_spec() == "%Y-%m-%d %H:%M:%S"@ {
            mask_partial(input, "####-##-## ##:##:##"@)
        } else {
            partial_ok()
        }
    }

    pub fn partial_validate(&self, input: &str, cursor_pos: usize) -> (r: PartialValidationResult)
        ensures
            r@ == self.spec_partial(input@),
    {
        if input.is_empty() {
            return PartialValidationResult::valid();
        }
        if same_text(&self.format, "%Y-%m-%d %H:%M:%S") {
            mask_check(input, "####-##-## ##:##:##")
        } else {
            PartialValidationResult::valid()
        }
    }
}

} // verus!
