//! Runs an ordered list of rules over an input, with a cache of full results.
use vstd::prelude::*;
use crate::priority::Priority;
use crate::result::{ValidationResult, PartialValidationResult, ResultView, views, duplicate_all, opt_text};
use crate::summary::{ValidationSummary, sort_results, all_passed, first_failure_message};
use crate::choice::ChoiceValidator;
use crate::format::{EmailValidator, HostnameValidator, UrlValidator, Ipv4Validator};
use crate::numeric::IntegerValidator;
use crate::datetime::{DateValidator, TimeValidator, DateTimeValidator};
use crate::basic::{PartialView, RequiredValidator, MinLengthValidator, MaxLengthValidator, PatternValidator};

verus! {

#[verifier::external_type_specification]
#[verifier::external_body]
pub struct ExInstant(std::time::Instant);

/// Relies on `std::time::Instant::now`: the current moment of a monotonic clock.
#[verifier::external_body]
fn clock_now() -> std::time::Instant {
    std::time::Instant::now()
}

/// Relies on `std::time::Instant::elapsed`: whole milliseconds since `start`.
#[verifier::external_body]
fn millis_since(start: &std::time::Instant) -> u64 {
    start.elapsed().as_millis() as u64
}

/// One configured rule.
#[derive(Debug)]
pub enum Rule {
    Required(RequiredValidator),
    MinLength(MinLengthValidator),
    MaxLength(MaxLengthValidator),
    Pattern(PatternValidator),
    Choice(ChoiceValidator),
    Email(EmailValidator),
    Hostname(HostnameValidator),
    Url(UrlValidator),
    Ipv4(Ipv4Validator),
    Integer(IntegerValidator),
    Date(DateValidator),
    Time(TimeValidator),
    DateTime(DateTimeValidator),
}

impl Rule {
    pub open spec fn spec_validate(&self, input: Seq<char>) -> ResultView {
        match self {
            Rule::Required(v) => v.spec_validate(input),
            Rule::MinLength(v) => v.spec_validate(input),
            Rule::MaxLength(v) => v.spec_validate(input),
            Rule::Pattern(v) => v.spec_validate(input),
            Rule::Choice(v) => v.spec_validate(input),
            Rule::Email(v) => v.spec_validate(input),
            Rule::Hostname(v) => v.spec_validate(input),
            Rule::Url(v) => v.spec_validate(input),
            Rule::Ipv4(v) => v.spec_validate(input),
            Rule::Integer(v) => v.spec_validate(input),
            Rule::Date(v) => v.spec_validate(input),
            Rule::Time(v) => v.spec_validate(input),
            Rule::DateTime(v) => v.spec_validate(input),
        }
    }

    pub open spec fn spec_partial(&self, input: Seq<char>, cursor: usize) -> PartialView {
        match self {
            Rule::Required(v) => v.spec_partial(input),
            Rule::MinLength(v) => v.spec_partial(input),
            Rule::MaxLength(v) => v.spec_partial(input),
            Rule::Pattern(v) => v.spec_partial(input),
            Rule::Choice(v) => v.spec_partial(input),
            Rule::Email(v) => v.spec_partial(input),
            Rule::Hostname(v) => v.spec_partial(input),
            Rule::Url(v) => v.spec_partial(input),
            Rule::Ipv4(v) => v.spec_partial(input),
            Rule::Integer(v) => v.spec_partial(input),
            Rule::Date(v) => v.spec_partial(input),
            Rule::Time(v) => v.spec_partial(input),
            Rule::DateTime(v) => v.spec_partial(input),
        }
    }

    pub fn validate(&self, input: &str) -> (r: ValidationResult)
        ensures
            r@ == self.spec_validate(input@),
    {
        match self {
            Rule::Required(v) => v.validate(input),
            Rule::MinLength(v) => v.validate(input),
            Rule::MaxLength(v) => v.validate(input),
            Rule::Pattern(v) => v.validate(input),
            Rule::Choice(v) => v.validate(input),
            Rule::Email(v) => v.validate(input),
            Rule::Hostname(v) => v.validate(input),
            Rule::Url(v) => v.validate(input),
            Rule::Ipv4(v) => v.validate(input),
            Rule::Integer(v) => v.validate(input),
            Rule::Date(v) => v.validate(input),
            Rule::Time(v) => v.validate(input),
            Rule::DateTime(v) => v.validate(input),
        }
    }

    pub fn partial_validate(&self, input: &str, cursor_pos: usize) -> (r: PartialValidationResult)
        ensures
            r@ == self.spec_partial(input@, cursor_pos),
    {
        match self {
            Rule::Required(v) => v.partial_validate(input, cursor_pos),
            Rule::MinLength(v) => v.partial_validate(input, cursor_pos),
            Rule::MaxLength(v) => v.partial_validate(input, cursor_pos),
            Rule::Pattern(v) => v.partial_validate(input, cursor_pos),
            Rule::Choice(v) => v.partial_validate(input, cursor_pos),
            Rule::Email(v) => v.partial_validate(input, cursor_pos),
            Rule::Hostname(v) => v.partial_validate(input, cursor_pos),
            Rule::Url(v) => v.partial_validate(input, cursor_pos),
            Rule::Ipv4(v) => v.partial_validate(input, cursor_pos),
            Rule::Integer(v) => v.partial_validate(input, cursor_pos),
            Rule::Date(v) => v.partial_validate(input, cursor_pos),
            Rule::Time(v) => v.partial_validate(input, cursor_pos),
            Rule::DateTime(v) => v.partial_validate(input, cursor_pos),
        }
    }

    pub open spec fn spec_priority(&self) -> Priority {
        match self {
            Rule::Required(_) => Priority::Critical,
            Rule::MinLength(r) => r.spec_priority(),
            Rule::MaxLength(r) => r.spec_priority(),
            Rule::Pattern(r) => r.spec_priority(),
            Rule::Choice(r) => r.spec_priority(),
            Rule::Email(r) => r.spec_priority(),
            Rule::Hostname(r) => r.spec_priority(),
            Rule::Url(r) => r.spec_priority(),
            Rule::Ipv4(r) => r.spec_priority(),
            Rule::Integer(r) => r.spec_priority(),
            Rule::Date(r) => r.spec_priority(),
            Rule::Time(r) => r.spec_priority(),
            Rule::DateTime(r) => r.spec_priority(),
        }
    }

    pub open spec fn spec_name(&self) -> Seq<char> {
        match self {
            Rule::Required(_) => "required"@,
            Rule::MinLength(_) => "min_length"@,
            Rule::MaxLength(_) => "max_length"@,
            Rule::Pattern(_) => "pattern"@,
            Rule::Choice(_) => "choice"@,
            Rule::Email(_) => "email"@,
            Rule::Hostname(_) => "hostname"@,
            Rule::Url(_) => "url"@,
            Rule::Ipv4(_) => "ipv4"@,
            Rule::Integer(_) => "integer"@,
            Rule::Date(_) => "date"@,
            Rule::Time(_) => "time"@,
            Rule::DateTime(_) => "datetime"@,
        }
    }

    pub fn priority(&self) -> (r: Priority)
        ensures
            r == self.spec_priority(),
    {
        match self {
            Rule::Required(v) => v.priority(),
            Rule::MinLength(v) => v.priority(),
            Rule::MaxLength(v) => v.priority(),
            Rule::Pattern(v) => v.priority(),
            Rule::Choice(v) => v.priority(),
            Rule::Email(v) => v.priority(),
            Rule::Hostname(v) => v.priority(),
            Rule::Url(v) => v.priority(),
            Rule::Ipv4(v) => v.priority(),
            Rule::Integer(v) => v.priority(),
            Rule::Date(v) => v.priority(),
            Rule::Time(v) => v.priority(),
            Rule::DateTime(v) => v.priority(),
        }
    }

    pub fn name(&self) -> (r: &'static str)
        ensures
            r@ == self.spec_name(),
    {
        match self {
            Rule::Required(v) => v.name(),
            Rule::MinLength(v) => v.name(),
            Rule::MaxLength(v) => v.name(),
            Rule::Pattern(v) => v.name(),
            Rule::Choice(v) => v.name(),
            Rule::Email(v) => v.name(),
            Rule::Hostname(v) => v.name(),
            Rule::Url(v) => v.name(),
            Rule::Ipv4(v) => v.name(),
            Rule::Integer(v) => v.name(),
            Rule::Date(v) => v.name(),
            Rule::Time(v) => v.name(),
            Rule::DateTime(v) => v.name(),
        }
    }
}

/// Every rule's verdict on `input`, in registration order.
pub open spec fn run_all(rules: Seq<Rule>, input: Seq<char>) -> Seq<ResultView> {
    rules.map_values(|r: Rule| r.spec_validate(input))
}

/// The results that a summary of `input` lists.
pub open spec fn expected_results(rules: Seq<Rule>, input: Seq<char>) -> Seq<ResultView> {
    sort_results(run_all(rules, input))
}

/// Earliest error position among the partial verdicts.
pub open spec fn min_position(ps: Seq<PartialView>) -> Option<usize>
    decreases ps.len(),
{
    if ps.len() == 0 {
        None
    } else {
        match (min_position(ps.drop_last()), ps.last().pos) {
            (Some(a), Some(b)) => Some(if b < a { b } else { a }),
            (Some(a), None) => Some(a),
            (None, p) => p,
        }
    }
}

pub open spec fn all_continue(ps: Seq<PartialView>) -> bool {
    forall|i: int| 0 <= i < ps.len() ==> (#[trigger] ps[i]).can_continue
}

/// The hints of the partial verdicts that have one, in order.
pub open spec fn hints(ps: Seq<PartialView>) -> Seq<Seq<char>>
    decreases ps.len(),
{
    if ps.len() == 0 {
        seq![]
    } else {
        match ps.last().suggestion {
            Some(h) => hints(ps.drop_last()).push(h),
            None => hints(ps.drop_last()),
        }
    }
}

/// Texts joined with `"; "`.
pub open spec fn join_hints(hs: Seq<Seq<char>>) -> Seq<char>
    decreases hs.len(),
{
    if hs.len() == 0 {
        seq![]
    } else if hs.len() == 1 {
        hs[0]
    } else {
        join_hints(hs.drop_last()) + "; "@ + hs.last()
    }
}

/// The combined partial verdict of all rules.
pub open spec fn merge_partials(ps: Seq<PartialView>) -> PartialView {
    PartialView {
        pos: min_position(ps),
        can_continue: all_continue(ps),
        suggestion: if hints(ps).len() == 0 { None } else { Some(join_hints(hints(ps))) },
    }
}

pub open spec fn run_partial(rules: Seq<Rule>, input: Seq<char>, cursor: usize) -> Seq<PartialView> {
    rules.map_values(|r: Rule| r.spec_partial(input, cursor))
}

/// Counters of the display filter while it walks the results.
pub struct DisplayState {
    pub shown: Seq<ResultView>,
    pub severe: nat,
    pub medium: nat,
    pub low: nat,
    pub full: bool,
}

/// Walks the results in order: failures of `Critical` or `High` priority are always shown,
/// at most three `Medium` ones, and at most two `Low` ones while no severe failure came
/// before; nothing is added once `max` entries are shown, so a cap of zero shows nothing.
pub open spec fn display_state(s: Seq<ResultView>, max: Option<usize>) -> DisplayState
    decreases s.len(),
{
    if s.len() == 0 {
        DisplayState { shown: seq![], severe: 0, medium: 0, low: 0, full: false }
    } else {
        let st = display_state(s.drop_last(), max);
        let e = s.last();
        if st.full || e.passed {
            st
        } else {
            let severe = if e.priority == Priority::Critical || e.priority == Priority::High { st.severe + 1 } else { st.severe };
            let medium = if e.priority == Priority::Medium { st.medium + 1 } else { st.medium };
            let low = if e.priority == Priority::Low { st.low + 1 } else { st.low };
            let room = match max {
                Some(m) => st.shown.len() < m,
                None => true,
            };
            let keep = room && match e.priority {
                Priority::Critical | Priority::High => true,
                Priority::Medium => medium <= 3,
                Priority::Low => st.severe == 0 && low <= 2,
            };
            let shown = if keep { st.shown.push(e) } else { st.shown };
            let full = keep && match max {
                Some(m) => shown.len() >= m,
                None => false,
            };
            DisplayState { shown, severe, medium, low, full }
        }
    }
}

pub open spec fn display_errors(s: Seq<ResultView>, max: Option<usize>) -> Seq<ResultView> {
    display_state(s, max).shown
}

/// The message of a failing verdict, as a sequence of zero or one texts.
pub open spec fn failure_text(r: ResultView) -> Seq<Seq<char>> {
    if !r.passed && r.message is Some { seq![r.message->Some_0] } else { seq![] }
}

pub open spec fn probe_empty() -> Seq<char> { ""@ }

pub open spec fn probe_short() -> Seq<char> { "x"@ }

pub open spec fn probe_long() -> Seq<char> {
    "this is a very long input string that will likely fail most validators and show their error messages"@
}

pub open spec fn probe_odd() -> Seq<char> { "invalid-format-123!@#"@ }

/// Messages that a rule gives on the probe inputs, in probe order.
pub open spec fn probe_messages(r: Rule) -> Seq<Seq<char>> {
    failure_text(r.spec_validate(probe_empty())) + failure_text(r.spec_validate(probe_short()))
        + failure_text(r.spec_validate(probe_long())) + failure_text(r.spec_validate(probe_odd()))
}

pub open spec fn all_probe_messages(rules: Seq<Rule>) -> Seq<Seq<char>>
    decreases rules.len(),
{
    if rules.len() == 0 {
        seq![]
    } else {
        all_probe_messages(rules.drop_last()) + probe_messages(rules.last())
    }
}

/// The texts with later repeats removed.
pub open spec fn dedup(s: Seq<Seq<char>>) -> Seq<Seq<char>>
    decreases s.len(),
{
    if s.len() == 0 {
        seq![]
    } else {
        let d = dedup(s.drop_last());
        if d.contains(s.last()) { d } else { d.push(s.last()) }
    }
}

pub open spec fn buffer_message() -> Seq<char> {
    "Additional validation context may appear here"@
}

/// Messages that might be shown, used to reserve screen space.
pub open spec fn potential_messages(rules: Seq<Rule>) -> Seq<Seq<char>> {
    let d = dedup(all_probe_messages(rules));
    if d.len() > 0 { d.push(buffer_message()) } else { d }
}

pub open spec fn texts(v: Seq<String>) -> Seq<Seq<char>> {
    v.map_values(|s: String| s@)
}

fn push_failure(out: &mut Vec<String>, rule: &Rule, input: &str)
    ensures
        texts(final(out)@) == texts(old(out)@) + failure_text(rule.spec_validate(input@)),
{
    let r = rule.validate(input);
    if !r.passed {
        match r.message {
            Some(m) => {
                out.push(m);
                assert(texts(out@) =~= texts(old(out)@) + failure_text(rule.spec_validate(input@)));
            },
            None => {
                assert(texts(out@) =~= texts(old(out)@) + failure_text(rule.spec_validate(input@)));
            },
        }
    } else {
        assert(texts(out@) =~= texts(old(out)@) + failure_text(rule.spec_validate(input@)));
    }
}

fn contains_text(list: &Vec<String>, x: &String) -> (r: bool)
    ensures
        r == texts(list@).contains(x@),
{
    let mut i: usize = 0;
    while i < list.len()
        invariant
            i <= list.len(),
            forall|j: int| 0 <= j < i ==> list@[j]@ != x@,
        decreases list.len() - i,
    {
        if list[i] == *x {
            assert(texts(list@)[i as int] == x@);
            return true;
        }
        i = i + 1;
    }
    proof {
        if texts(list@).contains(x@) {
            let w = choose|j: int| 0 <= j < list.len() && texts(list@)[j] == x@;
            assert(list@[w]@ == x@);
        }
    }
    false
}

/// Combines two partial checks: the earlier error position, continuation only if both
/// allow it, and the hints joined with `"; "`.
pub fn merge_partial(a: PartialValidationResult, b: PartialValidationResult) -> (r: PartialValidationResult)
    ensures
        r@ == merge_partials(seq![a@, b@]),
{
    let ghost ps = seq![a@, b@];
    let ghost one = seq![a@];
    proof {
        assert(ps.drop_last() =~= one);
        assert(ps.last() == b@);
        assert(one.drop_last() =~= Seq::<PartialView>::empty());
        assert(one.last() == a@);
        assert(min_position(Seq::<PartialView>::empty()) is None);
        assert(hints(Seq::<PartialView>::empty()) =~= Seq::<Seq<char>>::empty());
        assert(min_position(one) == a@.pos);
        assert(hints(one) =~= match a@.suggestion { Some(h) => seq![h], None => Seq::<Seq<char>>::empty() });
    }
    let pos = match (a.first_error_pos, b.first_error_pos) {
        (Some(x), Some(y)) => Some(if y < x { y } else { x }),
        (Some(x), None) => Some(x),
        (None, p) => p,
    };
    let can_continue = a.can_continue && b.can_continue;
    proof {
        if can_continue {
            assert forall|i: int| 0 <= i < ps.len() implies (#[trigger] ps[i]).can_continue by {
                if i == 0 {
                    assert(ps[i] == a@);
                } else {
                    assert(ps[i] == b@);
                }
            }
        } else if !a.can_continue {
            assert(ps[0] == a@);
            assert(!ps[0].can_continue);
        } else {
            assert(ps[1] == b@);
            assert(!ps[1].can_continue);
        }
        assert(all_continue(ps) == can_continue);
    }
    let suggestion = match (a.suggestion, b.suggestion) {
        (Some(x), Some(y)) => {
            proof {
                assert(hints(ps) =~= seq![x@, y@]);
                assert(seq![x@, y@].drop_last() =~= seq![x@]);
                assert(join_hints(seq![x@]) == x@);
                assert(join_hints(seq![x@, y@]) == x@ + "; "@ + y@);
            }
            let mut j = x;
            j.append("; ");
            j.append(y.as_str());
            Some(j)
        },
        (Some(x), None) => {
            proof {
                assert(hints(ps) =~= seq![x@]);
                assert(join_hints(seq![x@]) == x@);
            }
            Some(x)
        },
        (None, Some(y)) => {
            proof {
                assert(hints(ps) =~= seq![y@]);
                assert(join_hints(seq![y@]) == y@);
            }
            Some(y)
        },
        (None, None) => {
            proof {
                assert(hints(ps) =~= Seq::<Seq<char>>::empty());
            }
            None
        },
    };
    PartialValidationResult { first_error_pos: pos, can_continue, suggestion }
}

struct CacheEntry {
    input: String,
    results: Vec<ValidationResult>,
}

/// Runs rules over inputs, keeping each input's results until the rule set changes.
pub struct ValidationEngine {
    validators: Vec<Rule>,
    cache: Vec<CacheEntry>,
    cache_enabled: bool,
}

impl ValidationEngine {
    pub closed spec fn rules(&self) -> Seq<Rule> {
        self.validators@
    }

    pub closed spec fn caching(&self) -> bool {
        self.cache_enabled
    }

    /// Number of inputs whose results are held.
    pub closed spec fn cached_count(&self) -> nat {
        self.cache@.len()
    }

    /// Every held entry is what the current rules give for its input.
    pub closed spec fn wf(&self) -> bool {
        &&& forall|i: int| 0 <= i < self.cache@.len() ==> views(#[trigger] self.cache@[i].results@) == run_all(self.validators@, self.cache@[i].input@)
        &&& forall|i: int, j: int| 0 <= i < j < self.cache@.len() ==> (#[trigger] self.cache@[i]).input@ != (#[trigger] self.cache@[j]).input@
        &&& !self.cache_enabled ==> self.cache@.len() == 0
    }

    pub fn new() -> (r: Self)
        ensures
            r.wf(),
            r.rules() == Seq::<Rule>::empty(),
            r.caching(),
            r.cached_count() == 0,
    {
        ValidationEngine { validators: Vec::new(), cache: Vec::new(), cache_enabled: true }
    }

    pub fn without_cache() -> (r: Self)
        ensures
            r.wf(),
            r.rules() == Seq::<Rule>::empty(),
            !r.caching(),
            r.cached_count() == 0,
    {
        ValidationEngine { validators: Vec::new(), cache: Vec::new(), cache_enabled: false }
    }

    /// Appends a rule and drops every cached result.
    pub fn add_validator(&mut self, validator: Rule)
        requires
            old(self).wf(),
        ensures
            final(self).wf(),
            final(self).rules() == old(self).rules().push(validator),
            final(self).caching() == old(self).caching(),
            final(self).cached_count() == 0,
    {
        self.validators.push(validator);
        self.cache.clear();
    }

    pub fn clear_cache(&mut self)
        requires
            old(self).wf(),
        ensures
            final(self).wf(),
            final(self).rules() == old(self).rules(),
            final(self).caching() == old(self).caching(),
            final(self).cached_count() == 0,
    {
        self.cache.clear();
    }

    pub fn validator_count(&self) -> (r: usize)
        ensures
            r == self.rules().len(),
    {
        self.validators.len()
    }

    fn run_validators(&self, input: &str) -> (r: Vec<ValidationResult>)
        ensures
            views(r@) == run_all(self.rules(), input@),
    {
        let mut out: Vec<ValidationResult> = Vec::new();
        let mut i: usize = 0;
        while i < self.validators.len()
            invariant
                i <= self.validators.len(),
                out.len() == i,
                forall|j: int| 0 <= j < i ==> (#[trigger] out@[j])@ == self.validators@[j].spec_validate(input@),
            decreases self.validators.len() - i,
        {
            let r = self.validators[i].validate(input);
            out.push(r);
            i = i + 1;
        }
        assert(views(out@) =~= run_all(self.rules(), input@));
        out
    }

    fn cached_results(&self, key: &String) -> (r: Option<Vec<ValidationResult>>)
        requires
            self.wf(),
        ensures
            r matches Some(v) ==> views(v@) == run_all(self.rules(), key@),
            r is None ==> forall|i: int| 0 <= i < self.cache@.len() ==> (#[trigger] self.cache@[i]).input@ != key@,
    {
        if !self.cache_enabled {
            return None;
        }
        let mut i: usize = 0;
        while i < self.cache.len()
            invariant
                i <= self.cache.len(),
                self.wf(),
                forall|j: int| 0 <= j < i ==> (#[trigger] self.cache@[j]).input@ != key@,
            decreases self.cache.len() - i,
        {
            if self.cache[i].input == *key {
                return Some(duplicate_all(&self.cache[i].results));
            }
            i = i + 1;
        }
        None
    }

    /// Runs every rule over `input` (or reuses the held results of the same input) and
    /// sums up the verdict.
    pub fn validate(&mut self, input: &str) -> (r: ValidationSummary)
        requires
            old(self).wf(),
        ensures
            final(self).wf(),
            final(self).rules() == old(self).rules(),
            final(self).caching() == old(self).caching(),
            r.value@ == input@,
            views(r.validation_results@) == expected_results(old(self).rules(), input@),
            r.valid == all_passed(expected_results(old(self).rules(), input@)),
            opt_text(r.error) == first_failure_message(expected_results(old(self).rules(), input@)),
            r.metadata.rules_checked == old(self).rules().len(),
    {
        let start = clock_now();
        let key = String::from_str(input);
        match self.cached_results(&key) {
            Some(results) => {
                let mut summary = ValidationSummary::new(key, results);
                summary.metadata.validation_time_ms = millis_since(&start);
                return summary;
            },
            None => {},
        }
        let results = self.run_validators(input);
        if self.cache_enabled {
            let stored = duplicate_all(&results);
            self.cache.push(CacheEntry { input: key.clone(), results: stored });
            proof {
                assert forall|i: int| 0 <= i < self.cache@.len() implies views(#[trigger] self.cache@[i].results@) == run_all(self.validators@, self.cache@[i].input@) by {
                    if i < self.cache@.len() - 1 {
                        assert(self.cache@[i] == old(self).cache@[i]);
                    }
                }
                assert forall|i: int, j: int| 0 <= i < j < self.cache@.len() implies (#[trigger] self.cache@[i]).input@ != (#[trigger] self.cache@[j]).input@ by {
                    assert(self.cache@[i] == old(self).cache@[i]);
                    if j < self.cache@.len() - 1 {
                        assert(self.cache@[j] == old(self).cache@[j]);
                    }
                }
            }
        }
        let mut summary = ValidationSummary::new(key, results);
        summary.metadata.validation_time_ms = millis_since(&start);
        summary
    }

    /// Combines the partial checks of all rules into the earliest error position, whether every rule
    /// lets typing continue, and the hints joined with `"; "` in registration order.
    pub fn partial_validate(&self, input: &str, cursor_pos: usize) -> (r: PartialValidationResult)
        ensures
            r@ == merge_partials(run_partial(self.rules(), input@, cursor_pos)),
    {
        let ghost ps = run_partial(self.rules(), input@, cursor_pos);
        let mut first_error_pos: Option<usize> = None;
        let mut can_continue = true;
        let mut joined = String::new();
        let mut count: usize = 0;
        let mut i: usize = 0;
        while i < self.validators.len()
            invariant
                i <= self.validators.len(),
                ps == run_partial(self.rules(), input@, cursor_pos),
                ps.len() == self.validators.len(),
                first_error_pos == min_position(ps.subrange(0, i as int)),
                can_continue == all_continue(ps.subrange(0, i as int)),
                count == hints(ps.subrange(0, i as int)).len(),
                count <= i,
                joined@ == join_hints(hints(ps.subrange(0, i as int))),
            decreases self.validators.len() - i,
        {
            let res = self.validators[i].partial_validate(input, cursor_pos);
            let ghost pre = ps.subrange(0, i as int);
            proof {
                assert(ps.subrange(0, i + 1).drop_last() =~= pre);
                assert(ps[i as int] == res@);
                assert(ps.subrange(0, i + 1).last() == res@);
            }
            match res.first_error_pos {
                Some(p) => {
                    first_error_pos = match first_error_pos {
                        Some(e) => Some(if p < e { p } else { e }),
                        None => Some(p),
                    };
                },
                None => {},
            }
            proof {
                if can_continue && res.can_continue {
                    assert forall|j: int| 0 <= j < i + 1 implies (#[trigger] ps.subrange(0, i + 1)[j]).can_continue by {
                        if j < i {
                            assert(ps.subrange(0, i + 1)[j] == pre[j]);
                        }
                    }
                } else if !can_continue {
                    let w = choose|j: int| 0 <= j < i && !(#[trigger] pre[j]).can_continue;
                    assert(ps.subrange(0, i + 1)[w] == pre[w]);
                } else {
                    assert(ps.subrange(0, i + 1)[i as int] == res@);
                }
            }
            if !res.can_continue {
                can_continue = false;
            }
            match res.suggestion {
                Some(h) => {
                    proof {
                        assert(hints(ps.subrange(0, i + 1)) == hints(pre).push(h@));
                        assert(hints(pre).push(h@).drop_last() =~= hints(pre));
                        if count == 0 {
                            assert(hints(pre).push(h@) =~= seq![h@]);
                        }
                    }
                    if count > 0 {
                        joined.append("; ");
                    }
                    joined.append(h.as_str());
                    count = count + 1;
                },
                None => {
                    proof {
                        assert(hints(ps.subrange(0, i + 1)) == hints(pre));
                    }
                },
            }
            i = i + 1;
        }
        proof {
            assert(ps.subrange(0, ps.len() as int) =~= ps);
        }
        PartialValidationResult {
            first_error_pos,
            can_continue,
            suggestion: if count == 0 { None } else { Some(joined) },
        }
    }

    /// Distinct failure messages of every rule on a few probe inputs, plus one line of
    /// slack when there are any.
    pub fn get_potential_error_messages(&self) -> (r: Vec<String>)
        ensures
            texts(r@) == potential_messages(self.rules()),
    {
        let mut all: Vec<String> = Vec::new();
        let mut i: usize = 0;
        proof {
            assert(self.validators@.subrange(0, 0) =~= Seq::<Rule>::empty());
        }
        while i < self.validators.len()
            invariant
                i <= self.validators.len(),
                texts(all@) == all_probe_messages(self.validators@.subrange(0, i as int)),
            decreases self.validators.len() - i,
        {
            let rule = &self.validators[i];
            proof {
                assert(self.validators@.subrange(0, i + 1).drop_last() =~= self.validators@.subrange(0, i as int));
            }
            push_failure(&mut all, rule, "");
            push_failure(&mut all, rule, "x");
            push_failure(&mut all, rule, "this is a very long input string that will likely fail most validators and show their error messages");
            push_failure(&mut all, rule, "invalid-format-123!@#");
            proof {
                assert(texts(all@) =~= all_probe_messages(self.validators@.subrange(0, i as int)) + probe_messages(*rule));
            }
            i = i + 1;
        }
        proof {
            assert(self.validators@.subrange(0, i as int) =~= self.validators@);
        }
        let ghost flat = texts(all@);
        let mut messages: Vec<String> = Vec::new();
        let mut k: usize = 0;
        proof {
            assert(flat.subrange(0, 0) =~= Seq::<Seq<char>>::empty());
        }
        while k < all.len()
            invariant
                k <= all.len(),
                flat == texts(all@),
                texts(messages@) == dedup(flat.subrange(0, k as int)),
            decreases all.len() - k,
        {
            proof {
                assert(flat.subrange(0, k + 1).drop_last() =~= flat.subrange(0, k as int));
                assert(flat.subrange(0, k + 1).last() == all@[k as int]@);
            }
            if !contains_text(&messages, &all[k]) {
                messages.push(all[k].clone());
                proof {
                    assert(texts(messages@) =~= dedup(flat.subrange(0, k as int)).push(all@[k as int]@));
                }
            }
            k = k + 1;
        }
        proof {
            assert(flat.subrange(0, k as int) =~= flat);
        }
        if messages.len() > 0 {
            messages.push(String::from_str("Additional validation context may appear here"));
            proof {
                assert(texts(messages@) =~= dedup(flat).push(buffer_message()));
            }
        }
        messages
    }

    /// The failures to show for `input`, chosen by the priority budget of `display_errors`.
    pub fn get_display_errors(&mut self, input: &str, max_errors: Option<usize>) -> (r: Vec<ValidationResult>)
        requires
            old(self).wf(),
        ensures
            final(self).wf(),
            final(self).rules() == old(self).rules(),
            final(self).caching() == old(self).caching(),
            views(r@) == display_errors(expected_results(old(self).rules(), input@), max_errors),
            max_errors matches Some(m) ==> r.len() <= m,
    {
        let summary = self.validate(input);
        filter_display_errors(summary.validation_results, max_errors)
    }
}

impl Default for ValidationEngine {
    fn default() -> (r: Self)
        ensures
            r.wf(),
            r.rules() == Seq::<Rule>::empty(),
            r.caching(),
            r.cached_count() == 0,
    {
        ValidationEngine::new()
    }
}

/// Picks the failures to show from results in summary order.
pub fn filter_display_errors(results: Vec<ValidationResult>, max_errors: Option<usize>) -> (r: Vec<ValidationResult>)
    ensures
        views(r@) == display_errors(views(results@), max_errors),
        max_errors matches Some(m) ==> r.len() <= m,
{
    proof {
        lemma_display_capped(views(results@), max_errors);
    }
    let ghost s = views(results@);
    assert(s.len() == results.len());
    let mut rest = results;
    let mut shown: Vec<ValidationResult> = Vec::new();
    let mut severe: usize = 0;
    let mut medium: usize = 0;
    let mut low: usize = 0;
    let ghost mut k: int = 0;
    proof {
        assert(s.subrange(0, 0) =~= Seq::<ResultView>::empty());
        assert(s.subrange(0, s.len() as int) =~= s);
    }
    while rest.len() > 0
        invariant
            0 <= k <= s.len(),
            views(rest@) == s.subrange(k, s.len() as int),
            views(shown@) == display_state(s.subrange(0, k), max_errors).shown,
            !display_state(s.subrange(0, k), max_errors).full,
            severe == display_state(s.subrange(0, k), max_errors).severe,
            medium == display_state(s.subrange(0, k), max_errors).medium,
            low == display_state(s.subrange(0, k), max_errors).low,
            severe <= k,
            medium <= k,
            low <= k,
            s.len() <= usize::MAX,
            s == views(results@),
        decreases rest.len(),
    {
        let ghost before = rest@;
        assert(views(before).len() == before.len());
        let e = rest.remove(0);
        proof {
            assert(views(before)[0] == before[0]@);
            assert(views(before)[0] == s.subrange(k, s.len() as int)[0]);
            assert(e@ == s[k]);
            assert forall|j: int| 0 <= j < rest.len() implies #[trigger] views(rest@)[j] == s.subrange(k + 1, s.len() as int)[j] by {
                assert(rest@[j] == before[j + 1]);
                assert(views(before)[j + 1] == s.subrange(k, s.len() as int)[j + 1]);
            }
            assert(views(rest@) =~= s.subrange(k + 1, s.len() as int));
            assert(s.subrange(0, k + 1).drop_last() =~= s.subrange(0, k));
            assert(s.subrange(0, k + 1).last() == s[k]);
        }
        if !e.passed {
            let room = match max_errors {
                Some(m) => shown.len() < m,
                None => true,
            };
            proof {
                assert(views(shown@).len() == shown.len());
            }
            let keep = match e.priority {
                Priority::Critical | Priority::High => {
                    severe = severe + 1;
                    true
                },
                Priority::Medium => {
                    medium = medium + 1;
                    medium <= 3
                },
                Priority::Low => {
                    low = low + 1;
                    severe == 0 && low <= 2
                },
            };
            if keep && room {
                shown.push(e);
                proof {
                    assert(views(shown@) =~= display_state(s.subrange(0, k + 1), max_errors).shown);
                }
                match max_errors {
                    Some(m) => {
                        if shown.len() >= m {
                            proof {
                                assert(views(shown@).len() == shown.len());
                                assert(display_state(s.subrange(0, k + 1), max_errors).shown.len() >= m);
                                assert(display_state(s.subrange(0, k + 1), max_errors).full);
                                lemma_display_full_stays(s, max_errors, k + 1, s.len() as int);
                                assert(s.subrange(0, s.len() as int) =~= s);
                            }
                            return shown;
                        }
                    },
                    None => {},
                }
            }
        }
        proof {
            k = k + 1;
        }
    }
    proof {
        assert(views(rest@).len() == rest@.len());
        assert(k == s.len());
        assert(s.subrange(0, k) =~= s);
    }
    shown
}

/// The filter never shows more than the cap.
pub proof fn lemma_display_capped(s: Seq<ResultView>, max: Option<usize>)
    ensures
        max matches Some(m) ==> display_errors(s, max).len() <= m,
    decreases s.len(),
{
    if s.len() > 0 {
        lemma_display_capped(s.drop_last(), max);
    }
}

/// Once the display budget is used up, later results change nothing.
proof fn lemma_display_full_stays(s: Seq<ResultView>, max: Option<usize>, k: int, n: int)
    requires
        0 <= k <= n <= s.len(),
        display_state(s.subrange(0, k), max).full,
    ensures
        display_state(s.subrange(0, n), max) == display_state(s.subrange(0, k), max),
    decreases n - k,
{
    if n > k {
        lemma_display_full_stays(s, max, k, n - 1);
        assert(s.subrange(0, n).drop_last() =~= s.subrange(0, n - 1));
    }
}

} // verus!
