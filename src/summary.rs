//! The sorted verdict of all rules on one input.
use vstd::prelude::*;
use vstd::string::StringSliceAdditionalSpecFns;
use crate::result::{ValidationResult, ResultView, ValidationMetadata, views, copy_text, opt_text};
use crate::text::{lex_le, lemma_lex_total, lemma_lex_trans, text_le};

verus! {

broadcast use vstd::seq_lib::group_to_multiset_ensures;

/// Order of results in a summary: by priority, then by rule name.
pub open spec fn key_le(a: ResultView, b: ResultView) -> bool {
    a.priority.rank() < b.priority.rank() || (a.priority.rank() == b.priority.rank() && lex_le(
        a.rule,
        b.rule,
    ))
}

/// Inserts `x` after every element that does not sort after it.
pub open spec fn insert_sorted(s: Seq<ResultView>, x: ResultView) -> Seq<ResultView>
    decreases s.len(),
{
    if s.len() == 0 {
        seq![x]
    } else if key_le(s.last(), x) {
        s.push(x)
    } else {
        insert_sorted(s.drop_last(), x).push(s.last())
    }
}

/// Stable sort of results by `key_le`.
pub open spec fn sort_results(s: Seq<ResultView>) -> Seq<ResultView>
    decreases s.len(),
{
    if s.len() == 0 {
        s
    } else {
        insert_sorted(sort_results(s.drop_last()), s.last())
    }
}

pub open spec fn is_sorted(s: Seq<ResultView>) -> bool {
    forall|i: int, j: int| 0 <= i < j < s.len() ==> key_le(#[trigger] s[i], #[trigger] s[j])
}

pub open spec fn all_passed(s: Seq<ResultView>) -> bool {
    forall|i: int| 0 <= i < s.len() ==> (#[trigger] s[i]).passed
}

/// Message of the first failing result.
pub open spec fn first_failure_message(s: Seq<ResultView>) -> Option<Seq<char>>
    decreases s.len(),
{
    if s.len() == 0 {
        None
    } else if !s[0].passed {
        s[0].message
    } else {
        first_failure_message(s.drop_first())
    }
}

pub open spec fn count_passed(s: Seq<ResultView>) -> nat
    decreases s.len(),
{
    if s.len() == 0 {
        0
    } else {
        count_passed(s.drop_last()) + if s.last().passed { 1nat } else { 0nat }
    }
}

/// A failing result carries a message.
pub open spec fn well_formed_results(s: Seq<ResultView>) -> bool {
    forall|i: int| 0 <= i < s.len() && !(#[trigger] s[i]).passed ==> s[i].message is Some
}

pub proof fn lemma_key_total(a: ResultView, b: ResultView)
    ensures
        key_le(a, b) || key_le(b, a),
{
    lemma_lex_total(a.rule, b.rule);
}

pub proof fn lemma_key_trans(a: ResultView, b: ResultView, c: ResultView)
    requires
        key_le(a, b),
        key_le(b, c),
    ensures
        key_le(a, c),
{
    if a.priority.rank() == b.priority.rank() && b.priority.rank() == c.priority.rank() {
        lemma_lex_trans(a.rule, b.rule, c.rule);
    }
}

pub proof fn lemma_insert_sorted_multiset(s: Seq<ResultView>, x: ResultView)
    ensures
        insert_sorted(s, x).to_multiset() == s.to_multiset().insert(x),
    decreases s.len(),
{
    if s.len() == 0 {
        assert(s.push(x) =~= seq![x]);
    } else if key_le(s.last(), x) {
    } else {
        lemma_insert_sorted_multiset(s.drop_last(), x);
        assert(s.drop_last().push(s.last()) =~= s);
        assert(s.to_multiset() == s.drop_last().to_multiset().insert(s.last()));
        assert(insert_sorted(s, x).to_multiset() =~= s.to_multiset().insert(x));
    }
}

/// The sort keeps every result: it only reorders.
pub proof fn lemma_sort_multiset(s: Seq<ResultView>)
    ensures
        sort_results(s).to_multiset() == s.to_multiset(),
    decreases s.len(),
{
    if s.len() > 0 {
        lemma_sort_multiset(s.drop_last());
        lemma_insert_sorted_multiset(sort_results(s.drop_last()), s.last());
        assert(s.drop_last().push(s.last()) =~= s);
    }
}

proof fn lemma_insert_sorted_sorted(s: Seq<ResultView>, x: ResultView)
    requires
        is_sorted(s),
    ensures
        is_sorted(insert_sorted(s, x)),
    decreases s.len(),
{
    if s.len() == 0 {
    } else if key_le(s.last(), x) {
        let r = s.push(x);
        assert forall|i: int, j: int| 0 <= i < j < r.len() implies key_le(r[i], r[j]) by {
            if j == s.len() && i < s.len() - 1 {
                lemma_key_trans(s[i], s.last(), x);
            }
        }
    } else {
        let t = s.drop_last();
        lemma_insert_sorted_sorted(t, x);
        lemma_insert_sorted_multiset(t, x);
        let u = insert_sorted(t, x);
        let r = u.push(s.last());
        assert forall|i: int, j: int| 0 <= i < j < r.len() implies key_le(r[i], r[j]) by {
            if j == u.len() {
                let e = u[i];
                assert(u.contains(e));
                assert(u.to_multiset().count(e) > 0);
                if e == x {
                    lemma_key_total(s.last(), x);
                } else {
                    assert(t.to_multiset().count(e) > 0);
                    assert(t.contains(e));
                    let k = choose|k: int| 0 <= k < t.len() && t[k] == e;
                    assert(s[k] == e);
                }
            }
        }
    }
}

/// The sort's output is in key order.
pub proof fn lemma_sort_sorted(s: Seq<ResultView>)
    ensures
        is_sorted(sort_results(s)),
    decreases s.len(),
{
    if s.len() > 0 {
        lemma_sort_sorted(s.drop_last());
        lemma_insert_sorted_sorted(sort_results(s.drop_last()), s.last());
    }
}

/// Whether `a` sorts no later than `b`.
pub fn result_le(a: &ValidationResult, b: &ValidationResult) -> (r: bool)
    ensures
        r == key_le(a@, b@),
{
    let pa = a.priority.level();
    let pb = b.priority.level();
    if pa != pb {
        pa < pb
    } else {
        text_le(a.rule_name.as_str(), b.rule_name.as_str())
    }
}

fn insert_in_order(out: &mut Vec<ValidationResult>, x: ValidationResult)
    ensures
        views(final(out)@) == insert_sorted(views(old(out)@), x@),
{
    let ghost s = views(out@);
    let mut j: usize = out.len();
    proof {
        assert(s.subrange(0, s.len() as int) =~= s);
        assert(s.subrange(s.len() as int, s.len() as int) =~= Seq::<ResultView>::empty());
        assert(insert_sorted(s, x@) =~= insert_sorted(s.subrange(0, s.len() as int), x@) + s.subrange(s.len() as int, s.len() as int));
    }
    loop
        invariant
            j <= out.len(),
            s == views(out@),
            insert_sorted(s, x@) == insert_sorted(s.subrange(0, j as int), x@) + s.subrange(
                j as int,
                s.len() as int,
            ),
        ensures
            j <= out.len(),
            s == views(out@),
            insert_sorted(s, x@) == insert_sorted(s.subrange(0, j as int), x@) + s.subrange(
                j as int,
                s.len() as int,
            ),
            j == 0 || key_le(s[j - 1], x@),
        decreases j,
    {
        if j == 0 {
            proof {
                assert(s.subrange(0, 0) =~= Seq::<ResultView>::empty());
            }
            break;
        }
        if result_le(&out[j - 1], &x) {
            break;
        }
        proof {
            let p = s.subrange(0, j as int);
            assert(p.drop_last() =~= s.subrange(0, j - 1));
            assert(p.last() == s[j - 1]);
            assert(insert_sorted(s.subrange(0, j - 1), x@).push(s[j - 1]) + s.subrange(
                j as int,
                s.len() as int,
            ) =~= insert_sorted(s.subrange(0, j - 1), x@) + s.subrange(j - 1, s.len() as int));
        }
        j = j - 1;
    }
    proof {
        if j > 0 {
            let p = s.subrange(0, j as int);
            assert(p.last() == s[j - 1]);
        }
    }
    out.insert(j, x);
    proof {
        assert(views(out@) =~= s.subrange(0, j as int).push(x@) + s.subrange(j as int, s.len() as int));
    }
}

/// Sorts results stably by priority, then by rule name.
pub fn sort_by_priority(results: Vec<ValidationResult>) -> (r: Vec<ValidationResult>)
    ensures
        views(r@) == sort_results(views(results@)),
{
    let ghost all = views(results@);
    let mut rest = results;
    let mut out: Vec<ValidationResult> = Vec::new();
    let ghost mut k: int = 0;
    proof {
        assert(all.subrange(0, all.len() as int) =~= all);
        assert(all.subrange(0, 0) =~= Seq::<ResultView>::empty());
    }
    while rest.len() > 0
        invariant
            0 <= k <= all.len(),
            views(rest@) == all.subrange(k, all.len() as int),
            views(out@) == sort_results(all.subrange(0, k)),
        decreases rest.len(),
    {
        let ghost before = rest@;
        assert(views(before).len() == before.len());
        let x = rest.remove(0);
        proof {
            assert(x == before[0]);
            assert(views(before)[0] == before[0]@);
            assert(views(before)[0] == all.subrange(k, all.len() as int)[0]);
            assert(k < all.len());
            assert(x@ == all[k]);
            assert forall|j: int| 0 <= j < rest.len() implies #[trigger] views(rest@)[j] == all.subrange(k + 1, all.len() as int)[j] by {
                assert(rest@[j] == before[j + 1]);
                assert(views(before)[j + 1] == all.subrange(k, all.len() as int)[j + 1]);
            }
            assert(views(rest@) =~= all.subrange(k + 1, all.len() as int));
            assert(all.subrange(0, k + 1).drop_last() =~= all.subrange(0, k));
        }
        insert_in_order(&mut out, x);
        proof {
            k = k + 1;
        }
    }
    proof {
        assert(all.subrange(0, all.len() as int) =~= all);
    }
    out
}

/// The verdict of all rules on one input, most severe first.
#[derive(Debug, Clone)]
pub struct ValidationSummary {
    pub value: String,
    pub valid: bool,
    pub error: Option<String>,
    pub metadata: ValidationMetadata,
    pub validation_results: Vec<ValidationResult>,
}

impl ValidationSummary {
    /// Sorts the results and derives the verdict, the primary error and the counts.
    pub fn new(value: String, results: Vec<ValidationResult>) -> (r: Self)
        ensures
            r.value@ == value@,
            views(r.validation_results@) == sort_results(views(results@)),
            r.valid == all_passed(views(r.validation_results@)),
            opt_text(r.error) == first_failure_message(views(r.validation_results@)),
            r.metadata.rules_checked == results.len(),
            r.metadata.rules_passed == count_passed(views(r.validation_results@)),
            r.metadata.input_length == vstd::utf8::encode_utf8(value@).len() as usize,
            r.metadata.validation_time_ms == 0,
            r.metadata.attempts is None,
    {
        let sorted = sort_by_priority(results);
        let ghost s = views(sorted@);
        proof {
            lemma_sort_multiset(views(results@));
            assert(s.len() == s.to_multiset().len());
        }
        let mut valid = true;
        let mut error: Option<String> = None;
        let mut passed: usize = 0;
        let mut i: usize = 0;
        proof {
            assert(s.subrange(0, s.len() as int) =~= s);
            assert(s.subrange(0, 0) =~= Seq::<ResultView>::empty());
        }
        while i < sorted.len()
            invariant
                i <= sorted.len(),
                s == views(sorted@),
                valid == all_passed(s.subrange(0, i as int)),
                passed == count_passed(s.subrange(0, i as int)),
                passed <= i,
                valid ==> error is None,
                !valid ==> opt_text(error) == first_failure_message(s),
                valid ==> first_failure_message(s) == first_failure_message(s.subrange(i as int, s.len() as int)),
            decreases sorted.len() - i,
        {
            let ghost t = s.subrange(i as int, s.len() as int);
            proof {
                assert(s.subrange(0, i + 1).drop_last() =~= s.subrange(0, i as int));
                assert(t.drop_first() =~= s.subrange(i + 1, s.len() as int));
                assert(t[0] == s[i as int]);
            }
            if sorted[i].passed {
                passed = passed + 1;
            } else if valid {
                valid = false;
                error = copy_text(&sorted[i].message);
            }
            proof {
                if !valid {
                    assert(!all_passed(s.subrange(0, i + 1)) || !s[i as int].passed) by {
                        if !s[i as int].passed {
                            assert(s.subrange(0, i + 1)[i as int] == s[i as int]);
                        }
                    }
                }
                if all_passed(s.subrange(0, i as int)) && s[i as int].passed {
                    assert forall|j: int| 0 <= j < i + 1 implies (#[trigger] s.subrange(0, i + 1)[j]).passed by {
                        if j < i {
                            assert(s.subrange(0, i + 1)[j] == s.subrange(0, i as int)[j]);
                        }
                    }
                }
                if !all_passed(s.subrange(0, i as int)) {
                    let w = choose|j: int| 0 <= j < i && !(#[trigger] s.subrange(0, i as int)[j]).passed;
                    assert(s.subrange(0, i + 1)[w] == s.subrange(0, i as int)[w]);
                }
            }
            i = i + 1;
        }
        proof {
            assert(s.subrange(0, s.len() as int) =~= s);
        }
        let text = value.as_str();
        let input_length = text.len();
        proof {
            assert(text@ == value@);
            assert(input_length == text.spec_bytes().len() as usize);
            assert(text.spec_bytes() == vstd::utf8::encode_utf8(text@));
        }
        ValidationSummary {
            value,
            valid,
            error,
            metadata: ValidationMetadata {
                validation_time_ms: 0,
                rules_checked: sorted.len(),
                rules_passed: passed,
                input_length,
                attempts: None,
            },
            validation_results: sorted,
        }
    }
}

} // verus!
