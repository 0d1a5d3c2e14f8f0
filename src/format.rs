//! Recognizers for e-mail addresses, host names, URLs and IP addresses.
use vstd::prelude::*;
use crate::priority::Priority;
use crate::result::{ValidationResult, PartialValidationResult, ResultView, pass_view, fail_view, opt_text_ref};
use crate::basic::{PartialView, partial_ok, partial_error, message_or, char_count};
use crate::text::{chars_of, is_prefix, starts_with_chars};
use crate::matching::{pattern_matches, regex_matches};

verus! {

pub const EMAIL_PATTERN: &'static str = r"^[a-zA-Z0-9.!#$%&'*+/=?^_`{|}~-]+@[a-zA-Z0-9](?:[a-zA-Z0-9-]{0,61}[a-zA-Z0-9])?(?:\.[a-zA-Z0-9](?:[a-zA-Z0-9-]{0,61}[a-zA-Z0-9])?)*$";

pub const HOSTNAME_PATTERN: &'static str = r"^[a-zA-Z0-9]([a-zA-Z0-9-]{0,61}[a-zA-Z0-9])?(\.[a-zA-Z0-9]([a-zA-Z0-9-]{0,61}[a-zA-Z0-9])?)*$";

pub const URL_PATTERN: &'static str = r"^https?://[a-zA-Z0-9]([a-zA-Z0-9-]{0,61}[a-zA-Z0-9])?(\.[a-zA-Z0-9]([a-zA-Z0-9-]{0,61}[a-zA-Z0-9])?)*(/[^\s]*)?$";

pub open spec fn in_range(c: char, lo: u32, hi: u32) -> bool {
    lo <= (c as u32) && (c as u32) <= hi
}

pub open spec fn is_digit(c: char) -> bool {
    in_range(c, 48, 57)
}

pub open spec fn is_alnum(c: char) -> bool {
    is_digit(c) || in_range(c, 65, 90) || in_range(c, 97, 122)
}

pub open spec fn is_hex(c: char) -> bool {
    is_digit(c) || in_range(c, 65, 70) || in_range(c, 97, 102)
}

/// Characters that partial checks accept.
#[derive(Debug, Clone, Copy, PartialEq, Eq, Structural)]
pub enum CharClass {
    /// ASCII letters, digits, `.` and `-`.
    Host,
    /// ASCII digits and `.`.
    DottedDecimal,
    /// Hexadecimal digits and `:`.
    Colonned,
    /// Anything but the NUL character.
    PathChar,
}

impl CharClass {
    pub open spec fn member(self, c: char) -> bool {
        match self {
            CharClass::Host => is_alnum(c) || c == '.' || c == '-',
            CharClass::DottedDecimal => is_digit(c) || c == '.',
            CharClass::Colonned => is_hex(c) || c == ':',
            CharClass::PathChar => c != '\0',
        }
    }

    pub fn contains(&self, c: char) -> (r: bool)
        ensures
            r == self.member(c),
    {
        let v = c as u32;
        let digit = 48 <= v && v <= 57;
        let upper = 65 <= v && v <= 90;
        let lower = 97 <= v && v <= 122;
        match self {
            CharClass::Host => digit || upper || lower || c == '.' || c == '-',
            CharClass::DottedDecimal => digit || c == '.',
            CharClass::Colonned => digit || (65 <= v && v <= 70) || (97 <= v && v <= 102) || c == ':',
            CharClass::PathChar => c != '\0',
        }
    }
}

/// First index at or after `from` whose character is outside the class.
pub open spec fn first_outside(s: Seq<char>, class: CharClass, from: nat) -> Option<nat>
    decreases s.len() - from,
{
    if from >= s.len() {
        None
    } else if !class.member(s[from as int]) {
        Some(from)
    } else {
        first_outside(s, class, from + 1)
    }
}

pub fn find_outside(cs: &Vec<char>, class: CharClass) -> (r: Option<usize>)
    ensures
        r matches Some(k) ==> first_outside(cs@, class, 0) == Some(k as nat),
        r is None ==> first_outside(cs@, class, 0) is None,
{
    let mut i: usize = 0;
    while i < cs.len()
        invariant
            i <= cs.len(),
            first_outside(cs@, class, 0) == first_outside(cs@, class, i as nat),
        decreases cs.len() - i,
    {
        if !class.contains(cs[i]) {
            return Some(i);
        }
        i = i + 1;
    }
    None
}

/// Number of occurrences of `c`.
pub open spec fn count_of(s: Seq<char>, c: char) -> nat
    decreases s.len(),
{
    if s.len() == 0 {
        0
    } else {
        count_of(s.drop_last(), c) + if s.last() == c { 1nat } else { 0nat }
    }
}

/// Index of the last occurrence of `c`, if any.
pub open spec fn last_index(s: Seq<char>, c: char) -> Option<nat>
    decreases s.len(),
{
    if s.len() == 0 {
        None
    } else if s.last() == c {
        Some((s.len() - 1) as nat)
    } else {
        last_index(s.drop_last(), c)
    }
}

pub fn count_and_last(cs: &Vec<char>, c: char) -> (r: (usize, Option<usize>))
    ensures
        r.0 == count_of(cs@, c),
        r.1 matches Some(k) ==> last_index(cs@, c) == Some(k as nat),
        r.1 is None ==> last_index(cs@, c) is None,
{
    let mut n: usize = 0;
    let mut last: Option<usize> = None;
    let mut i: usize = 0;
    proof {
        assert(cs@.subrange(0, 0) =~= Seq::<char>::empty());
    }
    while i < cs.len()
        invariant
            i <= cs.len(),
            n <= i,
            n == count_of(cs@.subrange(0, i as int), c),
            last matches Some(k) ==> last_index(cs@.subrange(0, i as int), c) == Some(k as nat),
            last is None ==> last_index(cs@.subrange(0, i as int), c) is None,
        decreases cs.len() - i,
    {
        proof {
            assert(cs@.subrange(0, i + 1).drop_last() =~= cs@.subrange(0, i as int));
        }
        if cs[i] == c {
            n = n + 1;
            last = Some(i);
        }
        i = i + 1;
    }
    proof {
        assert(cs@.subrange(0, i as int) =~= cs@);
    }
    (n, last)
}

/// First index where two consecutive `.` begin.
pub open spec fn first_double_dot(s: Seq<char>, from: nat) -> Option<nat>
    decreases s.len() - from,
{
    if from + 1 >= s.len() {
        None
    } else if s[from as int] == '.' && s[from as int + 1] == '.' {
        Some(from)
    } else {
        first_double_dot(s, from + 1)
    }
}

pub fn find_double_dot(cs: &Vec<char>) -> (r: Option<usize>)
    ensures
        r matches Some(k) ==> first_double_dot(cs@, 0) == Some(k as nat),
        r is None ==> first_double_dot(cs@, 0) is None,
{
    let mut i: usize = 0;
    while i < cs.len()
        invariant
            i <= cs.len(),
            first_double_dot(cs@, 0) == first_double_dot(cs@, i as nat),
        decreases cs.len() - i,
    {
        if i + 1 < cs.len() && cs[i] == '.' && cs[i + 1] == '.' {
            return Some(i);
        }
        i = i + 1;
    }
    None
}

fn literal_prefix(cs: &Vec<char>, p: &str) -> (r: bool)
    ensures
        r == is_prefix(p@, cs@),
{
    let pc = chars_of(p);
    starts_with_chars(cs, &pc)
}

/// Accepts e-mail addresses.
#[derive(Debug)]
pub struct EmailValidator {
    priority: Priority,
    custom_message: Option<String>,
}

impl EmailValidator {
    pub closed spec fn spec_priority(&self) -> Priority {
        self.priority
    }

    pub closed spec fn custom(&self) -> Option<Seq<char>> {
        opt_text_ref(&self.custom_message)
    }

    pub fn new() -> (r: Self)
        ensures
            r.spec_priority() == Priority::High,
            r.custom() is None,
    {
        EmailValidator { priority: Priority::High, custom_message: None }
    }

    pub fn with_priority(self, priority: Priority) -> (r: Self)
        ensures
            r.spec_priority() == priority,
            r.custom() == self.custom(),
    {
        EmailValidator { priority, ..self }
    }

    pub fn with_message(self, message: &str) -> (r: Self)
        ensures
            r.spec_priority() == self.spec_priority(),
            r.custom() == Some(message@),
    {
        EmailValidator { custom_message: Some(String::from_str(message)), ..self }
    }

    pub fn priority(&self) -> (r: Priority)
        ensures
            r == self.spec_priority(),
    {
        self.priority
    }

    pub fn name(&self) -> (r: &'static str)
        ensures
            r@ == "email"@,
    {
        "email"
    }

    fn fail(&self, default: &str) -> (r: ValidationResult)
        ensures
            r@ == fail_view("email"@, self.spec_priority(), message_or(self.custom(), default@)),
    {
        match &self.custom_message {
            Some(m) => ValidationResult::failure("email", self.priority, m.as_str()),
            None => ValidationResult::failure("email", self.priority, default),
        }
    }
}

impl EmailValidator {
    pub open spec fn spec_validate(&self, input: Seq<char>) -> ResultView {
        if pattern_matches(EMAIL_PATTERN@, input) && input.len() <= 254 {
            pass_view("email"@, Priority::Medium)
        } else {
            fail_view("email"@, self.spec_priority(), message_or(self.custom(), "Must be a valid email address"@))
        }
    }

    /// A second `@` is flagged where the last one stands.
    pub open spec fn spec_partial(&self, input: Seq<char>) -> PartialView {
        if input.len() > 0 && count_of(input, '@') > 1 {
            match last_index(input, '@') {
                Some(k) => partial_error(k as usize),
                None => partial_ok(),
            }
        } else {
            partial_ok()
        }
    }

    pub fn validate(&self, input: &str) -> (r: ValidationResult)
        ensures
            r@ == self.spec_validate(input@),
    {
        if regex_matches(EMAIL_PATTERN, input) && char_count(input) <= 254 {
            ValidationResult::success("email")
        } else {
            self.fail("Must be a valid email address")
        }
    }

    pub fn partial_validate(&self, input: &str, cursor_pos: usize) -> (r: PartialValidationResult)
        ensures
            r@ == self.spec_partial(input@),
    {
        let cs = chars_of(input);
        if cs.len() == 0 {
            return PartialValidationResult::valid();
        }
        let (n, last) = count_and_last(&cs, '@');
        if n > 1 {
            match last {
                Some(k) => PartialValidationResult::error_at(k),
                None => PartialValidationResult::valid(),
            }
        } else {
            PartialValidationResult::valid()
        }
    }
}

/// Accepts host names made of dot-separated labels.
#[derive(Debug)]
pub struct HostnameValidator {
    priority: Priority,
    custom_message: Option<String>,
}

impl HostnameValidator {
    pub closed spec fn spec_priority(&self) -> Priority {
        self.priority
    }

    pub closed spec fn custom(&self) -> Option<Seq<char>> {
        opt_text_ref(&self.custom_message)
    }

    pub fn new() -> (r: Self)
        ensures
            r.spec_priority() == Priority::High,
            r.custom() is None,
    {
        HostnameValidator { priority: Priority::High, custom_message: None }
    }

    pub fn with_priority(self, priority: Priority) -> (r: Self)
        ensures
            r.spec_priority() == priority,
            r.custom() == self.custom(),
    {
        HostnameValidator { priority, ..self }
    }

    pub fn with_message(self, message: &str) -> (r: Self)
        ensures
            r.spec_priority() == self.spec_priority(),
            r.custom() == Some(message@),
    {
        HostnameValidator { custom_message: Some(String::from_str(message)), ..self }
    }

    pub fn priority(&self) -> (r: Priority)
        ensures
            r == self.spec_priority(),
    {
        self.priority
    }

    pub fn name(&self) -> (r: &'static str)
        ensures
            r@ == "hostname"@,
    {
        "hostname"
    }

    fn fail(&self, default: &str) -> (r: ValidationResult)
        ensures
            r@ == fail_view("hostname"@, self.spec_priority(), message_or(self.custom(), default@)),
    {
        match &self.custom_message {
            Some(m) => ValidationResult::failure("hostname", self.priority, m.as_str()),
            None => ValidationResult::failure("hostname", self.priority, default),
        }
    }
}

impl HostnameValidator {
    pub open spec fn spec_validate(&self, input: Seq<char>) -> ResultView {
        if input.len() > 253 {
            fail_view("hostname"@, self.spec_priority(), message_or(self.custom(), "Hostname too long (max 253 characters)"@))
        } else if pattern_matches(HOSTNAME_PATTERN@, input) {
            pass_view("hostname"@, Priority::Medium)
        } else {
            fail_view("hostname"@, self.spec_priority(), message_or(self.custom(), "Must be a valid hostname"@))
        }
    }

    /// Flags the first character that no host name holds, else the first `..`.
    pub open spec fn spec_partial(&self, input: Seq<char>) -> PartialView {
        if input.len() == 0 {
            partial_ok()
        } else {
            match first_outside(input, CharClass::Host, 0) {
                Some(k) => partial_error(k as usize),
                None => match first_double_dot(input, 0) {
                    Some(k) => partial_error(k as usize),
                    None => partial_ok(),
                },
            }
        }
    }

    pub fn validate(&self, input: &str) -> (r: ValidationResult)
        ensures
            r@ == self.spec_validate(input@),
    {
        if char_count(input) > 253 {
            return self.fail("Hostname too long (max 253 characters)");
        }
        if regex_matches(HOSTNAME_PATTERN, input) {
            ValidationResult::success("hostname")
        } else {
            self.fail("Must be a valid hostname")
        }
    }

    pub fn partial_validate(&self, input: &str, cursor_pos: usize) -> (r: PartialValidationResult)
        ensures
            r@ == self.spec_partial(input@),
    {
        let cs = chars_of(input);
        if cs.len() == 0 {
            return PartialValidationResult::valid();
        }
        match find_outside(&cs, CharClass::Host) {
            Some(k) => PartialValidationResult::error_at(k),
            None => match find_double_dot(&cs) {
                Some(k) => PartialValidationResult::error_at(k),
                None => PartialValidationResult::valid(),
            },
        }
    }
}

/// Accepts `http` and `https` URLs.
#[derive(Debug)]
pub struct UrlValidator {
    priority: Priority,
    custom_message: Option<String>,
}

impl UrlValidator {
    pub closed spec fn spec_priority(&self) -> Priority {
        self.priority
    }

    pub closed spec fn custom(&self) -> Option<Seq<char>> {
        opt_text_ref(&self.custom_message)
    }

    pub fn new() -> (r: Self)
        ensures
            r.spec_priority() == Priority::High,
            r.custom() is None,
    {
        UrlValidator { priority: Priority::High, custom_message: None }
    }

    pub fn with_priority(self, priority: Priority) -> (r: Self)
        ensures
            r.spec_priority() == priority,
            r.custom() == self.custom(),
    {
        UrlValidator { priority, ..self }
    }

    pub fn with_message(self, message: &str) -> (r: Self)
        ensures
            r.spec_priority() == self.spec_priority(),
            r.custom() == Some(message@),
    {
        UrlValidator { custom_message: Some(String::from_str(message)), ..self }
    }

    pub fn priority(&self) -> (r: Priority)
        ensures
            r == self.spec_priority(),
    {
        self.priority
    }

    pub fn name(&self) -> (r: &'static str)
        ensures
            r@ == "url"@,
    {
        "url"
    }

    fn fail(&self, default: &str) -> (r: ValidationResult)
        ensures
            r@ == fail_view("url"@, self.spec_priority(), message_or(self.custom(), default@)),
    {
        match &self.custom_message {
            Some(m) => ValidationResult::failure("url", self.priority, m.as_str()),
            None => ValidationResult::failure("url", self.priority, default),
        }
    }
}

impl UrlValidator {
    pub open spec fn spec_validate(&self, input: Seq<char>) -> ResultView {
        if pattern_matches(URL_PATTERN@, input) {
            pass_view("url"@, Priority::Medium)
        } else {
            fail_view("url"@, self.spec_priority(), message_or(self.custom(), "Must be a valid URL (http:// or https://)"@))
        }
    }

    /// Flags position 0 once the text can no longer start with `http://` or `https://`,
    /// or starts with another known scheme.
    pub open spec fn spec_partial(&self, input: Seq<char>) -> PartialView {
        if input.len() == 0 || is_prefix("http://"@, input) || is_prefix("https://"@, input) {
            partial_ok()
        } else if input.len() >= 7 && !is_prefix("http"@, input) {
            partial_error(0)
        } else if is_prefix("ftp://"@, input) || is_prefix("ssh://"@, input) || is_prefix("file://"@, input) {
            partial_error(0)
        } else {
            partial_ok()
        }
    }

    pub fn validate(&self, input: &str) -> (r: ValidationResult)
        ensures
            r@ == self.spec_validate(input@),
    {
        if regex_matches(URL_PATTERN, input) {
            ValidationResult::success("url")
        } else {
            self.fail("Must be a valid URL (http:// or https://)")
        }
    }

    pub fn partial_validate(&self, input: &str, cursor_pos: usize) -> (r: PartialValidationResult)
        ensures
            r@ == self.spec_partial(input@),
    {
        let cs = chars_of(input);
        if cs.len() == 0 || literal_prefix(&cs, "http://") || literal_prefix(&cs, "https://") {
            return PartialValidationResult::valid();
        }
        if cs.len() >= 7 && !literal_prefix(&cs, "http") {
            return PartialValidationResult::error_at(0);
        }
        if literal_prefix(&cs, "ftp://") || literal_prefix(&cs, "ssh://") || literal_prefix(&cs, "file://") {
            return PartialValidationResult::error_at(0);
        }
        PartialValidationResult::valid()
    }
}

/// Pieces of a text between dots.
pub open spec fn split_dots(s: Seq<char>) -> Seq<Seq<char>>
    decreases s.len(),
{
    if s.len() == 0 {
        seq![seq![]]
    } else if s.last() == '.' {
        split_dots(s.drop_last()).push(seq![])
    } else {
        let p = split_dots(s.drop_last());
        p.update(p.len() - 1, p.last().push(s.last()))
    }
}

proof fn lemma_split_dots_nonempty(s: Seq<char>)
    ensures
        split_dots(s).len() >= 1,
    decreases s.len(),
{
    if s.len() > 0 {
        lemma_split_dots_nonempty(s.drop_last());
    }
}

pub open spec fn digit_value(c: char) -> nat {
    ((c as u32) - 48) as nat
}

/// Value of a string of decimal digits.
pub open spec fn decimal_value(s: Seq<char>) -> nat
    decreases s.len(),
{
    if s.len() == 0 {
        0
    } else {
        decimal_value(s.drop_last()) * 10 + digit_value(s.last())
    }
}

/// One to three digits, no leading zero, at most 255.
pub open spec fn octet_ok(p: Seq<char>) -> bool {
    &&& 1 <= p.len() <= 3
    &&& forall|i: int| 0 <= i < p.len() ==> is_digit(#[trigger] p[i])
    &&& (p.len() == 1 || p[0] != '0')
    &&& decimal_value(p) <= 255
}

/// Dotted-quad notation, the syntax `std::net::Ipv4Addr` reads.
pub open spec fn ipv4_ok(s: Seq<char>) -> bool {
    let parts = split_dots(s);
    parts.len() == 4 && forall|i: int| 0 <= i < 4 ==> octet_ok(#[trigger] parts[i])
}

fn octet_valid(p: &Vec<char>) -> (r: bool)
    ensures
        r == octet_ok(p@),
{
    if p.len() < 1 || p.len() > 3 {
        return false;
    }
    let mut v: u32 = 0;
    let mut i: usize = 0;
    proof {
        assert(p@.subrange(0, 0) =~= Seq::<char>::empty());
    }
    while i < p.len()
        invariant
            i <= p.len() <= 3,
            forall|j: int| 0 <= j < i ==> is_digit(#[trigger] p@[j]),
            v as nat == decimal_value(p@.subrange(0, i as int)),
            v < 1000,
            i == 0 ==> v == 0,
            i == 1 ==> v < 10,
            i == 2 ==> v < 100,
        decreases p.len() - i,
    {
        let c = p[i] as u32;
        if c < 48 || c > 57 {
            return false;
        }
        proof {
            assert(p@.subrange(0, i + 1).drop_last() =~= p@.subrange(0, i as int));
        }
        v = v * 10 + (c - 48);
        i = i + 1;
    }
    proof {
        assert(p@.subrange(0, i as int) =~= p@);
    }
    (p.len() == 1 || p[0] != '0') && v <= 255
}

/// Whether the text is an IPv4 address in dotted-quad notation.
pub fn ipv4_valid(input: &str) -> (r: bool)
    ensures
        r == ipv4_ok(input@),
{
    let cs = chars_of(input);
    let mut parts: Vec<Vec<char>> = Vec::new();
    let mut cur: Vec<char> = Vec::new();
    let mut i: usize = 0;
    proof {
        assert(cs@.subrange(0, 0) =~= Seq::<char>::empty());
    }
    while i < cs.len()
        invariant
            i <= cs.len(),
            parts@.map_values(|x: Vec<char>| x@).push(cur@) == split_dots(cs@.subrange(0, i as int)),
        decreases cs.len() - i,
    {
        let c = cs[i];
        let ghost pre = cs@.subrange(0, i as int);
        proof {
            assert(cs@.subrange(0, i + 1).drop_last() =~= pre);
            assert(cs@.subrange(0, i + 1).last() == c);
            lemma_split_dots_nonempty(pre);
        }
        if c == '.' {
            let done = cur;
            parts.push(done);
            cur = Vec::new();
            proof {
                assert(parts@.map_values(|x: Vec<char>| x@).push(cur@) =~= split_dots(pre).push(seq![]));
            }
        } else {
            cur.push(c);
            proof {
                let p = split_dots(pre);
                assert(parts@.map_values(|x: Vec<char>| x@).push(cur@) =~= p.update(p.len() - 1, p.last().push(c)));
            }
        }
        i = i + 1;
    }
    parts.push(cur);
    let ghost ps = parts@.map_values(|x: Vec<char>| x@);
    proof {
        assert(cs@.subrange(0, cs.len() as int) =~= cs@);
        assert(ps == split_dots(input@));
    }
    assert(ps.len() == parts.len());
    if parts.len() != 4 {
        return false;
    }
    let mut k: usize = 0;
    while k < 4
        invariant
            k <= 4,
            parts.len() == 4,
            ps == parts@.map_values(|x: Vec<char>| x@),
            ps == split_dots(input@),
            forall|j: int| 0 <= j < k ==> octet_ok(#[trigger] ps[j]),
        decreases 4 - k,
    {
        if !octet_valid(&parts[k]) {
            assert(ps[k as int] == parts@[k as int]@);
            return false;
        }
        assert(ps[k as int] == parts@[k as int]@);
        k = k + 1;
    }
    true
}

/// Accepts IPv4 addresses in dotted-quad notation.
#[derive(Debug)]
pub struct Ipv4Validator {
    priority: Priority,
    custom_message: Option<String>,
}

impl Ipv4Validator {
    pub closed spec fn spec_priority(&self) -> Priority {
        self.priority
    }

    pub closed spec fn custom(&self) -> Option<Seq<char>> {
        opt_text_ref(&self.custom_message)
    }

    pub fn new() -> (r: Self)
        ensures
            r.spec_priority() == Priority::High,
            r.custom() is None,
    {
        Ipv4Validator { priority: Priority::High, custom_message: None }
    }

    pub fn with_priority(self, priority: Priority) -> (r: Self)
        ensures
            r.spec_priority() == priority,
            r.custom() == self.custom(),
    {
        Ipv4Validator { priority, ..self }
    }

    pub fn with_message(self, message: &str) -> (r: Self)
        ensures
            r.spec_priority() == self.spec_priority(),
            r.custom() == Some(message@),
    {
        Ipv4Validator { custom_message: Some(String::from_str(message)), ..self }
    }

    pub fn priority(&self) -> (r: Priority)
        ensures
            r == self.spec_priority(),
    {
        self.priority
    }

    pub fn name(&self) -> (r: &'static str)
        ensures
            r@ == "ipv4"@,
    {
        "ipv4"
    }

    fn fail(&self, default: &str) -> (r: ValidationResult)
        ensures
            r@ == fail_view("ipv4"@, self.spec_priority(), message_or(self.custom(), default@)),
    {
        match &self.custom_message {
            Some(m) => ValidationResult::failure("ipv4", self.priority, m.as_str()),
            None => ValidationResult::failure("ipv4", self.priority, default),
        }
    }
}

impl Ipv4Validator {
    pub open spec fn spec_validate(&self, input: Seq<char>) -> ResultView {
        if ipv4_ok(input) {
            pass_view("ipv4"@, Priority::Medium)
        } else {
            fail_view("ipv4"@, self.spec_priority(), message_or(self.custom(), "Must be a valid IPv4 address"@))
        }
    }

    /// Flags the first character other than a digit or `.`, else a fourth dot.
    pub open spec fn spec_partial(&self, input: Seq<char>) -> PartialView {
        if input.len() == 0 {
            partial_ok()
        } else {
            match first_outside(input, CharClass::DottedDecimal, 0) {
                Some(k) => partial_error(k as usize),
                None => if count_of(input, '.') > 3 {
                    match last_index(input, '.') {
                        Some(k) => partial_error(k as usize),
                        None => partial_ok(),
                    }
                } else {
                    partial_ok()
                },
            }
        }
    }

    pub fn validate(&self, input: &str) -> (r: ValidationResult)
        ensures
            r@ == self.spec_validate(input@),
    {
        if ipv4_valid(input) {
            ValidationResult::success("ipv4")
        } else {
            self.fail("Must be a valid IPv4 address")
        }
    }

    pub fn partial_validate(&self, input: &str, cursor_pos: usize) -> (r: PartialValidationResult)
        ensures
            r@ == self.spec_partial(input@),
    {
        let cs = chars_of(input);
        if cs.len() == 0 {
            return PartialValidationResult::valid();
        }
        match find_outside(&cs, CharClass::DottedDecimal) {
            Some(k) => PartialValidationResult::error_at(k),
            None => {
                let (n, last) = count_and_last(&cs, '.');
                if n > 3 {
                    match last {
                        Some(k) => PartialValidationResult::error_at(k),
                        None => PartialValidationResult::valid(),
                    }
                } else {
                    PartialValidationResult::valid()
                }
            },
        }
    }
}

/// Accepts IPv6 addresses. Parsing the address is left to the caller, which
/// hands over whether `std::net::Ipv6Addr` read it.
#[derive(Debug)]
pub struct Ipv6Validator {
    priority: Priority,
    custom_message: Option<String>,
}

impl Ipv6Validator {
    pub closed spec fn spec_priority(&self) -> Priority {
        self.priority
    }

    pub closed spec fn custom(&self) -> Option<Seq<char>> {
        opt_text_ref(&self.custom_message)
    }

    pub fn new() -> (r: Self)
        ensures
            r.spec_priority() == Priority::High,
            r.custom() is None,
    {
        Ipv6Validator { priority: Priority::High, custom_message: None }
    }

    pub fn with_priority(self, priority: Priority) -> (r: Self)
        ensures
            r.spec_priority() == priority,
            r.custom() == self.custom(),
    {
        Ipv6Validator { priority, ..self }
    }

    pub fn with_message(self, message: &str) -> (r: Self)
        ensures
            r.spec_priority() == self.spec_priority(),
            r.custom() == Some(message@),
    {
        Ipv6Validator { custom_message: Some(String::from_str(message)), ..self }
    }

    pub fn priority(&self) -> (r: Priority)
        ensures
            r == self.spec_priority(),
    {
        self.priority
    }

    pub fn name(&self) -> (r: &'static str)
        ensures
            r@ == "ipv6"@,
    {
        "ipv6"
    }

    fn fail(&self, default: &str) -> (r: ValidationResult)
        ensures
            r@ == fail_view("ipv6"@, self.spec_priority(), message_or(self.custom(), default@)),
    {
        match &self.custom_message {
            Some(m) => ValidationResult::failure("ipv6", self.priority, m.as_str()),
            None => ValidationResult::failure("ipv6", self.priority, default),
        }
    }
}

impl Ipv6Validator {
    /// The verdict, given whether the input parses as an IPv6 address.
    pub open spec fn spec_validate_parsed(&self, parses: bool) -> ResultView {
        if parses {
            pass_view("ipv6"@, Priority::Medium)
        } else {
            fail_view("ipv6"@, self.spec_priority(), message_or(self.custom(), "Must be a valid IPv6 address"@))
        }
    }

    /// Flags the first character other than a hexadecimal digit or `:`.
    pub open spec fn spec_partial(&self, input: Seq<char>) -> PartialView {
        if input.len() == 0 {
            partial_ok()
        } else {
            match first_outside(input, CharClass::Colonned, 0) {
                Some(k) => partial_error(k as usize),
                None => partial_ok(),
            }
        }
    }

    pub fn validate_parsed(&self, parses: bool) -> (r: ValidationResult)
        ensures
            r@ == self.spec_validate_parsed(parses),
    {
        if parses {
            ValidationResult::success("ipv6")
        } else {
            self.fail("Must be a valid IPv6 address")
        }
    }

    pub fn partial_validate(&self, input: &str, cursor_pos: usize) -> (r: PartialValidationResult)
        ensures
            r@ == self.spec_partial(input@),
    {
        let cs = chars_of(input);
        if cs.len() == 0 {
            return PartialValidationResult::valid();
        }
        match find_outside(&cs, CharClass::Colonned) {
            Some(k) => PartialValidationResult::error_at(k),
            None => PartialValidationResult::valid(),
        }
    }
}

} // verus!
