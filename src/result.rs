//! What a validation run produces.
use vstd::prelude::*;
use crate::priority::Priority;

verus! {

/// A value attached to a result under a key.
#[derive(Debug, Clone, PartialEq, Eq)]
pub enum MetaValue {
    Number(u64),
    Text(String),
}

/// Mathematical content of a `MetaValue`.
pub enum MetaView {
    Number(nat),
    Text(Seq<char>),
}

impl View for MetaValue {
    type V = MetaView;

    open spec fn view(&self) -> MetaView {
        match self {
            MetaValue::Number(n) => MetaView::Number(*n as nat),
            MetaValue::Text(t) => MetaView::Text(t@),
        }
    }
}

impl MetaValue {
    /// A copy with the same content.
    pub fn duplicate(&self) -> (r: Self)
        ensures
            r@ == self@,
    {
        match self {
            MetaValue::Number(n) => MetaValue::Number(*n),
            MetaValue::Text(t) => MetaValue::Text(t.clone()),
        }
    }
}

/// Views of metadata entries, in order.
pub open spec fn meta_views(m: Seq<(String, MetaValue)>) -> Seq<(Seq<char>, MetaView)> {
    m.map_values(|e: (String, MetaValue)| (e.0@, e.1@))
}

fn no_metadata() -> (v: Vec<(String, MetaValue)>)
    ensures
        meta_views(v@) == Seq::<(Seq<char>, MetaView)>::empty(),
{
    let v: Vec<(String, MetaValue)> = Vec::new();
    assert(meta_views(v@) =~= Seq::<(Seq<char>, MetaView)>::empty());
    v
}

/// The verdict of one rule on one input, with details under named keys.
#[derive(Debug, Clone)]
pub struct ValidationResult {
    pub rule_name: String,
    pub passed: bool,
    pub priority: Priority,
    pub message: Option<String>,
    /// Key and value pairs in the order they were attached.
    pub metadata: Vec<(String, MetaValue)>,
}

/// Mathematical content of a `ValidationResult`.
pub struct ResultView {
    pub rule: Seq<char>,
    pub passed: bool,
    pub priority: Priority,
    pub message: Option<Seq<char>>,
    pub metadata: Seq<(Seq<char>, MetaView)>,
}

/// `r` with one more metadata entry.
pub open spec fn with_meta(r: ResultView, key: Seq<char>, value: MetaView) -> ResultView {
    ResultView { metadata: r.metadata.push((key, value)), ..r }
}

pub open spec fn opt_text(o: Option<String>) -> Option<Seq<char>> {
    match o {
        Some(s) => Some(s@),
        None => None,
    }
}

pub open spec fn opt_text_ref(o: &Option<String>) -> Option<Seq<char>> {
    match o {
        Some(s) => Some(s@),
        None => None,
    }
}

/// A passing verdict.
pub open spec fn pass_view(rule: Seq<char>, priority: Priority) -> ResultView {
    ResultView { rule, passed: true, priority, message: None, metadata: seq![] }
}

/// A failing verdict with its message.
pub open spec fn fail_view(rule: Seq<char>, priority: Priority, message: Seq<char>) -> ResultView {
    ResultView { rule, passed: false, priority, message: Some(message), metadata: seq![] }
}

impl View for ValidationResult {
    type V = ResultView;

    open spec fn view(&self) -> ResultView {
        ResultView {
            rule: self.rule_name@,
            passed: self.passed,
            priority: self.priority,
            message: opt_text_ref(&self.message),
            metadata: meta_views(self.metadata@),
        }
    }
}

pub(crate) fn copy_text(o: &Option<String>) -> (r: Option<String>)
    ensures
        opt_text(r) == opt_text_ref(o),
{
    match o {
        Some(s) => Some(s.clone()),
        None => None,
    }
}

impl ValidationResult {
    /// A passing verdict at `Medium` priority.
    pub fn success(rule_name: &str) -> (r: Self)
        ensures
            r@ == pass_view(rule_name@, Priority::Medium),
    {
        ValidationResult {
            rule_name: String::from_str(rule_name),
            passed: true,
            priority: Priority::Medium,
            message: None,
            metadata: no_metadata(),
        }
    }

    pub fn success_with_priority(rule_name: &str, priority: Priority) -> (r: Self)
        ensures
            r@ == pass_view(rule_name@, priority),
    {
        ValidationResult {
            rule_name: String::from_str(rule_name),
            passed: true,
            priority,
            message: None,
            metadata: no_metadata(),
        }
    }

    pub fn failure(rule_name: &str, priority: Priority, message: &str) -> (r: Self)
        ensures
            r@ == fail_view(rule_name@, priority, message@),
    {
        ValidationResult {
            rule_name: String::from_str(rule_name),
            passed: false,
            priority,
            message: Some(String::from_str(message)),
            metadata: no_metadata(),
        }
    }

    /// Attaches a value under a key.
    pub fn with_metadata(self, key: &str, value: MetaValue) -> (r: Self)
        ensures
            r@ == with_meta(self@, key@, value@),
    {
        let mut r = self;
        let ghost before = r.metadata@;
        r.metadata.push((String::from_str(key), value));
        proof {
            assert(meta_views(r.metadata@) =~= meta_views(before).push((key@, value@)));
        }
        r
    }

    /// The value under `key`, if any; the first one when a key was attached twice.
    pub fn metadata_value(&self, key: &str) -> (r: Option<&MetaValue>)
        ensures
            r matches Some(v) ==> exists|i: int| 0 <= i < self.metadata@.len()
                && self.metadata@[i].0@ == key@ && self.metadata@[i].1 == *v,
            r is None ==> forall|i: int| 0 <= i < self.metadata@.len() ==> self.metadata@[i].0@ != key@,
    {
        let k = String::from_str(key);
        let mut i: usize = 0;
        while i < self.metadata.len()
            invariant
                i <= self.metadata.len(),
                k@ == key@,
                forall|j: int| 0 <= j < i ==> self.metadata@[j].0@ != key@,
            decreases self.metadata.len() - i,
        {
            if self.metadata[i].0 == k {
                return Some(&self.metadata[i].1);
            }
            i = i + 1;
        }
        None
    }

    /// A copy with the same content.
    pub fn duplicate(&self) -> (r: Self)
        ensures
            r@ == self@,
    {
        let mut metadata: Vec<(String, MetaValue)> = Vec::new();
        let mut i: usize = 0;
        while i < self.metadata.len()
            invariant
                i <= self.metadata.len(),
                metadata.len() == i,
                forall|j: int| 0 <= j < i ==> (#[trigger] metadata@[j]).0@ == self.metadata@[j].0@
                    && metadata@[j].1@ == self.metadata@[j].1@,
            decreases self.metadata.len() - i,
        {
            let entry = &self.metadata[i];
            metadata.push((entry.0.clone(), entry.1.duplicate()));
            i = i + 1;
        }
        assert(meta_views(metadata@) =~= meta_views(self.metadata@));
        ValidationResult {
            rule_name: self.rule_name.clone(),
            passed: self.passed,
            priority: self.priority,
            message: copy_text(&self.message),
            metadata,
        }
    }
}

/// Views of a sequence of results.
pub open spec fn views(s: Seq<ValidationResult>) -> Seq<ResultView> {
    s.map_values(|x: ValidationResult| x@)
}

/// Copies every result, keeping the order.
pub fn duplicate_all(v: &Vec<ValidationResult>) -> (r: Vec<ValidationResult>)
    ensures
        views(r@) == views(v@),
{
    let mut out: Vec<ValidationResult> = Vec::new();
    let mut i: usize = 0;
    while i < v.len()
        invariant
            i <= v.len(),
            out.len() == i,
            forall|j: int| 0 <= j < i ==> (#[trigger] out@[j])@ == v@[j]@,
        decreases v.len() - i,
    {
        out.push(v[i].duplicate());
        i = i + 1;
    }
    assert(views(out@) =~= views(v@));
    out
}

/// How an input typed so far fares: where it first goes wrong, whether it can
/// still become valid, and a hint.
#[derive(Debug, Clone)]
pub struct PartialValidationResult {
    pub first_error_pos: Option<usize>,
    pub can_continue: bool,
    pub suggestion: Option<String>,
}

impl PartialValidationResult {
    pub fn valid() -> (r: Self)
        ensures
            r.first_error_pos is None,
            r.can_continue,
            r.suggestion is None,
    {
        PartialValidationResult { first_error_pos: None, can_continue: true, suggestion: None }
    }

    pub fn error_at(pos: usize) -> (r: Self)
        ensures
            r.first_error_pos == Some(pos),
            r.can_continue,
            r.suggestion is None,
    {
        PartialValidationResult { first_error_pos: Some(pos), can_continue: true, suggestion: None }
    }

    pub fn with_suggestion(self, suggestion: String) -> (r: Self)
        ensures
            r.first_error_pos == self.first_error_pos,
            r.can_continue == self.can_continue,
            opt_text(r.suggestion) == Some(suggestion@),
    {
        PartialValidationResult { suggestion: Some(suggestion), ..self }
    }

    pub fn blocking(self) -> (r: Self)
        ensures
            r.first_error_pos == self.first_error_pos,
            !r.can_continue,
            opt_text(r.suggestion) == opt_text(self.suggestion),
    {
        PartialValidationResult { can_continue: false, ..self }
    }
}

/// Counts and timing that accompany a summary.
#[derive(Debug, Clone)]
pub struct ValidationMetadata {
    pub validation_time_ms: u64,
    pub rules_checked: usize,
    pub rules_passed: usize,
    pub input_length: usize,
    pub attempts: Option<u32>,
}

} // verus!
