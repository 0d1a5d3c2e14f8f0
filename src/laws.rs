//! Properties that hold of every validation run.
use vstd::prelude::*;
use crate::result::ResultView;
use crate::summary::{is_sorted, all_passed, first_failure_message, well_formed_results, lemma_sort_sorted, lemma_sort_multiset};
use crate::engine::{Rule, run_all, expected_results};

verus! {

broadcast use vstd::seq_lib::group_to_multiset_ensures;

/// Validating the same input against the same rules lists the same results, whether
/// they were computed afresh or taken from the cache: `validate` promises
/// `expected_results(rules, input)` on every call and leaves the rules unchanged.
pub proof fn law_validation_repeatable(rules_a: Seq<Rule>, rules_b: Seq<Rule>, input: Seq<char>)
    requires
        rules_a == rules_b,
    ensures
        expected_results(rules_a, input) == expected_results(rules_b, input),
{
}

/// A summary lists its results by priority, then by rule name, and holds exactly the
/// verdicts of the rules.
pub proof fn law_summary_sorted(rules: Seq<Rule>, input: Seq<char>)
    ensures
        is_sorted(expected_results(rules, input)),
        expected_results(rules, input).to_multiset() == run_all(rules, input).to_multiset(),
{
    lemma_sort_sorted(run_all(rules, input));
    lemma_sort_multiset(run_all(rules, input));
}

/// Every rule's failing verdict carries a message.
pub proof fn lemma_rules_well_formed(rules: Seq<Rule>, input: Seq<char>)
    ensures
        well_formed_results(expected_results(rules, input)),
{
    let s = run_all(rules, input);
    let t = expected_results(rules, input);
    lemma_sort_multiset(s);
    assert forall|i: int| 0 <= i < t.len() && !(#[trigger] t[i]).passed implies t[i].message is Some by {
        assert(t.contains(t[i]));
        assert(t.to_multiset().count(t[i]) > 0);
        assert(s.contains(t[i]));
        let j = choose|j: int| 0 <= j < s.len() && s[j] == t[i];
        assert(s[j] == rules[j].spec_validate(input));
    }
}

proof fn lemma_first_failure(s: Seq<ResultView>)
    requires
        well_formed_results(s),
    ensures
        (first_failure_message(s) is None) == all_passed(s),
    decreases s.len(),
{
    if s.len() > 0 {
        let t = s.drop_first();
        assert forall|i: int| 0 <= i < t.len() && !(#[trigger] t[i]).passed implies t[i].message is Some by {
            assert(t[i] == s[i + 1]);
        }
        lemma_first_failure(t);
        if s[0].passed {
            if all_passed(t) {
                assert forall|i: int| 0 <= i < s.len() implies (#[trigger] s[i]).passed by {
                    if i > 0 {
                        assert(s[i] == t[i - 1]);
                    }
                }
            } else {
                let w = choose|i: int| 0 <= i < t.len() && !(#[trigger] t[i]).passed;
                assert(s[w + 1] == t[w]);
            }
        }
    }
}

/// A summary is valid exactly when every result passed, and it names a primary error
/// exactly when it is not valid.
pub proof fn law_verdict_and_error(rules: Seq<Rule>, input: Seq<char>)
    ensures
        all_passed(expected_results(rules, input)) == (forall|i: int|
            0 <= i < expected_results(rules, input).len() ==> (#[trigger] expected_results(rules, input)[i]).passed),
        (first_failure_message(expected_results(rules, input)) is None) == all_passed(expected_results(rules, input)),
{
    lemma_rules_well_formed(rules, input);
    lemma_first_failure(expected_results(rules, input));
}

/// After a rule is added, validating an input yields the verdicts of every earlier rule
/// together with the new rule's result, so nothing computed under the old rule set remains.
pub proof fn law_added_rule_is_applied(rules: Seq<Rule>, added: Rule, input: Seq<char>)
    ensures
        expected_results(rules.push(added), input).to_multiset()
            == expected_results(rules, input).to_multiset().insert(added.spec_validate(input)),
{
    lemma_sort_multiset(run_all(rules.push(added), input));
    lemma_sort_multiset(run_all(rules, input));
    assert(run_all(rules.push(added), input) =~= run_all(rules, input).push(added.spec_validate(input)));
}

} // verus!
