//! Selection of one or more entries from a fixed list of options.
use vstd::prelude::*;
use crate::priority::Priority;
use crate::result::{ValidationResult, PartialValidationResult, ResultView, pass_view, fail_view, opt_text_ref};
use crate::basic::{PartialView, partial_ok, partial_error, message_or, with_number, number_message};
use crate::text::{
    lower_of, to_lower, chars_of, string_of, trim, trim_chars, split_commas, split_at_commas,
    char_views, is_prefix, join_with, join_chars, same_chars, starts_with_chars, take_chars,
    lemma_split_last_len,
};

verus! {

/// Trimmed pieces that are not empty, in order.
pub open spec fn nonempty_trimmed(ps: Seq<Seq<char>>) -> Seq<Seq<char>>
    decreases ps.len(),
{
    if ps.len() == 0 {
        seq![]
    } else {
        let r = nonempty_trimmed(ps.drop_last());
        if trim(ps.last()).len() == 0 { r } else { r.push(trim(ps.last())) }
    }
}

/// Accepts a selection of options, comma-separated when more than one is allowed.
#[derive(Debug)]
pub struct ChoiceValidator {
    choices: Vec<String>,
    case_sensitive: bool,
    min_choices: usize,
    max_choices: usize,
    priority: Priority,
    custom_message: Option<String>,
}

impl ChoiceValidator {
    pub closed spec fn options(&self) -> Seq<Seq<char>> {
        self.choices@.map_values(|c: String| c@)
    }

    pub closed spec fn sensitive(&self) -> bool {
        self.case_sensitive
    }

    pub closed spec fn min(&self) -> nat {
        self.min_choices as nat
    }

    pub closed spec fn max(&self) -> nat {
        self.max_choices as nat
    }

    pub closed spec fn spec_priority(&self) -> Priority {
        self.priority
    }

    pub closed spec fn custom(&self) -> Option<Seq<char>> {
        opt_text_ref(&self.custom_message)
    }

    /// The form in which texts are compared.
    pub open spec fn fold(&self, t: Seq<char>) -> Seq<char> {
        if self.sensitive() { t } else { lower_of(t) }
    }

    /// The entries that an input names: its comma-separated pieces, trimmed, empty
    /// ones dropped.
    pub open spec fn parse(&self, input: Seq<char>) -> Seq<Seq<char>> {
        nonempty_trimmed(split_commas(input))
    }

    /// Index of the first option equal to `x` after folding, searching from `from`.
    pub open spec fn find_option(&self, x: Seq<char>, from: nat) -> Option<nat>
        decreases self.options().len() - from,
    {
        if from >= self.options().len() {
            None
        } else if self.fold(self.options()[from as int]) == self.fold(x) {
            Some(from)
        } else {
            self.find_option(x, from + 1)
        }
    }

    /// The option, in its configured spelling, that `x` names.
    pub open spec fn canonical(&self, x: Seq<char>) -> Option<Seq<char>> {
        match self.find_option(x, 0) {
            Some(i) => Some(self.options()[i as int]),
            None => None,
        }
    }

    /// Canonical forms of the entries that name an option.
    pub open spec fn canonicals(&self, ps: Seq<Seq<char>>) -> Seq<Seq<char>>
        decreases ps.len(),
    {
        if ps.len() == 0 {
            seq![]
        } else {
            match self.canonical(ps.last()) {
                Some(c) => self.canonicals(ps.drop_last()).push(c),
                None => self.canonicals(ps.drop_last()),
            }
        }
    }

    /// Each entry whose option was already named earlier.
    pub open spec fn duplicates(&self, ps: Seq<Seq<char>>) -> Seq<Seq<char>>
        decreases ps.len(),
    {
        if ps.len() == 0 {
            seq![]
        } else {
            let d = self.duplicates(ps.drop_last());
            match self.canonical(ps.last()) {
                Some(c) => if self.canonicals(ps.drop_last()).contains(c) { d.push(c) } else { d },
                None => d,
            }
        }
    }

    /// Entries that name no option.
    pub open spec fn invalid(&self, ps: Seq<Seq<char>>) -> Seq<Seq<char>>
        decreases ps.len(),
    {
        if ps.len() == 0 {
            seq![]
        } else {
            let r = self.invalid(ps.drop_last());
            if self.find_option(ps.last(), 0) is Some { r } else { r.push(ps.last()) }
        }
    }

    pub open spec fn spec_validate(&self, input: Seq<char>) -> ResultView {
        let ps = self.parse(input);
        if ps.len() < self.min() {
            fail_view("choice"@, self.spec_priority(), message_or(self.custom(),
                with_number("At least "@, self.min(), " choice(s) required"@)))
        } else if ps.len() > self.max() {
            fail_view("choice"@, self.spec_priority(), message_or(self.custom(),
                with_number("At most "@, self.max(), " choice(s) allowed"@)))
        } else if self.duplicates(ps).len() > 0 {
            fail_view("choice"@, self.spec_priority(), message_or(self.custom(),
                "Duplicate choices not allowed: "@ + join_with(self.duplicates(ps), ", "@)))
        } else if self.invalid(ps).len() > 0 {
            fail_view("choice"@, self.spec_priority(), message_or(self.custom(),
                "Invalid choice(s): "@ + join_with(self.invalid(ps), ", "@) + ". Valid options: "@
                    + join_with(self.options(), ", "@)))
        } else {
            pass_view("choice"@, Priority::Medium)
        }
    }

    /// Some option begins with `t`, after folding both.
    pub open spec fn extendable(&self, t: Seq<char>) -> bool {
        exists|i: int| 0 <= i < self.options().len() && is_prefix(self.fold(t), self.fold(#[trigger] self.options()[i]))
    }

    /// The first `k >= from` where the first `k + 1` characters (trimmed if asked) can no
    /// longer become an option.
    pub open spec fn dead_end(&self, s: Seq<char>, from: nat, trimmed: bool) -> Option<nat>
        decreases s.len() - from,
    {
        if from >= s.len() {
            None
        } else if !self.extendable(if trimmed { trim(s.subrange(0, from as int + 1)) } else { s.subrange(0, from as int + 1) }) {
            Some(from)
        } else {
            self.dead_end(s, from + 1, trimmed)
        }
    }

    /// Flags the first character that leads away from every option.
    pub open spec fn spec_partial(&self, input: Seq<char>) -> PartialView {
        if input.len() == 0 {
            partial_ok()
        } else if self.max() == 1 {
            if self.extendable(input) {
                partial_ok()
            } else {
                match self.dead_end(input, 0, false) {
                    Some(k) => partial_error(k as usize),
                    None => partial_ok(),
                }
            }
        } else {
            let parts = split_commas(input);
            let current = trim(parts.last());
            if current.len() == 0 || self.extendable(current) {
                partial_ok()
            } else {
                match self.dead_end(current, 0, true) {
                    Some(k) => partial_error((input.len() - parts.last().len() + k) as usize),
                    None => partial_ok(),
                }
            }
        }
    }

    pub fn new(choices: Vec<String>) -> (r: Self)
        ensures
            r.options() == choices@.map_values(|c: String| c@),
            !r.sensitive(),
            r.min() == 1,
            r.max() == 1,
            r.spec_priority() == Priority::High,
            r.custom() is None,
    {
        ChoiceValidator {
            choices,
            case_sensitive: false,
            min_choices: 1,
            max_choices: 1,
            priority: Priority::High,
            custom_message: None,
        }
    }

    pub fn case_sensitive(self, case_sensitive: bool) -> (r: Self)
        ensures
            r.options() == self.options(),
            r.sensitive() == case_sensitive,
            r.min() == self.min(),
            r.max() == self.max(),
            r.spec_priority() == self.spec_priority(),
            r.custom() == self.custom(),
    {
        ChoiceValidator { case_sensitive, ..self }
    }

    pub fn min_choices(self, min: usize) -> (r: Self)
        ensures
            r.options() == self.options(),
            r.sensitive() == self.sensitive(),
            r.min() == min,
            r.max() == self.max(),
            r.spec_priority() == self.spec_priority(),
            r.custom() == self.custom(),
    {
        ChoiceValidator { min_choices: min, ..self }
    }

    pub fn max_choices(self, max: usize) -> (r: Self)
        ensures
            r.options() == self.options(),
            r.sensitive() == self.sensitive(),
            r.min() == self.min(),
            r.max() == max,
            r.spec_priority() == self.spec_priority(),
            r.custom() == self.custom(),
    {
        ChoiceValidator { max_choices: max, ..self }
    }

    pub fn with_priority(self, priority: Priority) -> (r: Self)
        ensures
            r.options() == self.options(),
            r.sensitive() == self.sensitive(),
            r.min() == self.min(),
            r.max() == self.max(),
            r.spec_priority() == priority,
            r.custom() == self.custom(),
    {
        ChoiceValidator { priority, ..self }
    }

    pub fn with_message(self, message: &str) -> (r: Self)
        ensures
            r.options() == self.options(),
            r.sensitive() == self.sensitive(),
            r.min() == self.min(),
            r.max() == self.max(),
            r.spec_priority() == self.spec_priority(),
            r.custom() == Some(message@),
    {
        ChoiceValidator { custom_message: Some(String::from_str(message)), ..self }
    }

    fn fold_chars(&self, t: &Vec<char>) -> (r: Vec<char>)
        ensures
            r@ == self.fold(t@),
    {
        if self.case_sensitive {
            take_chars(t, t.len())
        } else {
            let s = string_of(t.as_slice());
            let l = to_lower(s.as_str());
            chars_of(l.as_str())
        }
    }

    /// Characters of every option, folded.
    fn folded_options(&self) -> (r: Vec<Vec<char>>)
        ensures
            r.len() == self.options().len(),
            forall|i: int| 0 <= i < r.len() ==> (#[trigger] r@[i])@ == self.fold(self.options()[i]),
    {
        let mut out: Vec<Vec<char>> = Vec::new();
        let mut i: usize = 0;
        while i < self.choices.len()
            invariant
                i <= self.choices.len(),
                out.len() == i,
                forall|j: int| 0 <= j < i ==> (#[trigger] out@[j])@ == self.fold(self.options()[j]),
            decreases self.choices.len() - i,
        {
            let c = chars_of(self.choices[i].as_str());
            out.push(self.fold_chars(&c));
            i = i + 1;
        }
        out
    }

    fn find_index(&self, folded: &Vec<Vec<char>>, x: &Vec<char>) -> (r: Option<usize>)
        requires
            folded.len() == self.options().len(),
            forall|i: int| 0 <= i < folded.len() ==> (#[trigger] folded@[i])@ == self.fold(self.options()[i]),
        ensures
            r matches Some(i) ==> self.find_option(x@, 0) == Some(i as nat) && i < folded.len(),
            r is None ==> self.find_option(x@, 0) is None,
    {
        let fx = self.fold_chars(x);
        let mut i: usize = 0;
        while i < folded.len()
            invariant
                i <= folded.len(),
                folded.len() == self.options().len(),
                forall|j: int| 0 <= j < folded.len() ==> (#[trigger] folded@[j])@ == self.fold(self.options()[j]),
                fx@ == self.fold(x@),
                self.find_option(x@, 0) == self.find_option(x@, i as nat),
            decreases folded.len() - i,
        {
            if same_chars(&folded[i], &fx) {
                return Some(i);
            }
            i = i + 1;
        }
        None
    }

    fn parse_input(&self, input: &str) -> (r: Vec<Vec<char>>)
        ensures
            char_views(r@) == self.parse(input@),
    {
        let cs = chars_of(input);
        let parts = split_at_commas(&cs);
        let ghost ps = char_views(parts@);
        let mut out: Vec<Vec<char>> = Vec::new();
        let mut i: usize = 0;
        proof {
            assert(ps.subrange(0, 0) =~= Seq::<Seq<char>>::empty());
        }
        while i < parts.len()
            invariant
                i <= parts.len(),
                ps == char_views(parts@),
                char_views(out@) == nonempty_trimmed(ps.subrange(0, i as int)),
            decreases parts.len() - i,
        {
            let t = trim_chars(&parts[i]);
            proof {
                assert(ps.subrange(0, i + 1).drop_last() =~= ps.subrange(0, i as int));
                assert(ps.subrange(0, i + 1).last() == parts@[i as int]@);
            }
            if t.len() > 0 {
                out.push(t);
                proof {
                    assert(char_views(out@) =~= nonempty_trimmed(ps.subrange(0, i as int)).push(t@));
                }
            }
            i = i + 1;
        }
        proof {
            assert(ps.subrange(0, ps.len() as int) =~= ps);
        }
        out
    }

    fn contains_chars(list: &Vec<Vec<char>>, x: &Vec<char>) -> (r: bool)
        ensures
            r == char_views(list@).contains(x@),
    {
        let mut i: usize = 0;
        while i < list.len()
            invariant
                i <= list.len(),
                forall|j: int| 0 <= j < i ==> list@[j]@ != x@,
            decreases list.len() - i,
        {
            if same_chars(&list[i], x) {
                assert(char_views(list@)[i as int] == x@);
                return true;
            }
            i = i + 1;
        }
        proof {
            if char_views(list@).contains(x@) {
                let w = choose|j: int| 0 <= j < list.len() && char_views(list@)[j] == x@;
                assert(list@[w]@ == x@);
            }
        }
        false
    }

    fn failure_with(&self, default: String) -> (r: ValidationResult)
        ensures
            r@ == fail_view("choice"@, self.spec_priority(), message_or(self.custom(), default@)),
    {
        match &self.custom_message {
            Some(m) => ValidationResult::failure("choice", self.priority, m.as_str()),
            None => ValidationResult::failure("choice", self.priority, default.as_str()),
        }
    }

    pub fn validate(&self, input: &str) -> (r: ValidationResult)
        ensures
            r@ == self.spec_validate(input@),
    {
        let parsed = self.parse_input(input);
        let ghost ps = char_views(parsed@);
        if parsed.len() < self.min_choices {
            return self.failure_with(number_message("At least ", self.min_choices, " choice(s) required"));
        }
        if parsed.len() > self.max_choices {
            return self.failure_with(number_message("At most ", self.max_choices, " choice(s) allowed"));
        }
        let folded = self.folded_options();
        let mut option_chars: Vec<Vec<char>> = Vec::new();
        let mut k: usize = 0;
        while k < self.choices.len()
            invariant
                k <= self.choices.len(),
                option_chars.len() == k,
                forall|j: int| 0 <= j < k ==> (#[trigger] option_chars@[j])@ == self.options()[j],
            decreases self.choices.len() - k,
        {
            option_chars.push(chars_of(self.choices[k].as_str()));
            k = k + 1;
        }
        let mut seen: Vec<Vec<char>> = Vec::new();
        let mut dups: Vec<Vec<char>> = Vec::new();
        let mut bad: Vec<Vec<char>> = Vec::new();
        let mut i: usize = 0;
        proof {
            assert(ps.subrange(0, 0) =~= Seq::<Seq<char>>::empty());
        }
        while i < parsed.len()
            invariant
                i <= parsed.len(),
                ps == char_views(parsed@),
                folded.len() == self.options().len(),
                forall|j: int| 0 <= j < folded.len() ==> (#[trigger] folded@[j])@ == self.fold(self.options()[j]),
                option_chars.len() == self.options().len(),
                forall|j: int| 0 <= j < option_chars.len() ==> (#[trigger] option_chars@[j])@ == self.options()[j],
                char_views(seen@) == self.canonicals(ps.subrange(0, i as int)),
                char_views(dups@) == self.duplicates(ps.subrange(0, i as int)),
                char_views(bad@) == self.invalid(ps.subrange(0, i as int)),
            decreases parsed.len() - i,
        {
            let ghost pre = ps.subrange(0, i as int);
            proof {
                assert(ps.subrange(0, i + 1).drop_last() =~= pre);
                assert(ps.subrange(0, i + 1).last() == parsed@[i as int]@);
            }
            match self.find_index(&folded, &parsed[i]) {
                Some(j) => {
                    let c = take_chars(&option_chars[j], option_chars[j].len());
                    proof {
                        assert(c@ =~= self.options()[j as int]);
                    }
                    if Self::contains_chars(&seen, &c) {
                        let d = take_chars(&c, c.len());
                        proof {
                            assert(d@ =~= c@);
                        }
                        dups.push(d);
                        proof {
                            assert(char_views(dups@) =~= self.duplicates(pre).push(c@));
                        }
                    }
                    seen.push(c);
                    proof {
                        assert(char_views(seen@) =~= self.canonicals(pre).push(self.options()[j as int]));
                    }
                },
                None => {
                    let b = take_chars(&parsed[i], parsed[i].len());
                    proof {
                        assert(b@ =~= parsed@[i as int]@);
                    }
                    bad.push(b);
                    proof {
                        assert(char_views(bad@) =~= self.invalid(pre).push(parsed@[i as int]@));
                    }
                },
            }
            i = i + 1;
        }
        proof {
            assert(ps.subrange(0, ps.len() as int) =~= ps);
        }
        if dups.len() > 0 {
            let mut m = String::from_str("Duplicate choices not allowed: ");
            let listed = join_chars(&dups, ", ");
            m.append(listed.as_str());
            return self.failure_with(m);
        }
        if bad.len() > 0 {
            let mut m = String::from_str("Invalid choice(s): ");
            let listed = join_chars(&bad, ", ");
            m.append(listed.as_str());
            m.append(". Valid options: ");
            proof {
                assert(char_views(option_chars@) =~= self.options());
            }
            let all = join_chars(&option_chars, ", ");
            m.append(all.as_str());
            return self.failure_with(m);
        }
        ValidationResult::success("choice")
    }

    fn is_extendable(&self, folded: &Vec<Vec<char>>, t: &Vec<char>) -> (r: bool)
        requires
            folded.len() == self.options().len(),
            forall|i: int| 0 <= i < folded.len() ==> (#[trigger] folded@[i])@ == self.fold(self.options()[i]),
        ensures
            r == self.extendable(t@),
    {
        let ft = self.fold_chars(t);
        let mut i: usize = 0;
        while i < folded.len()
            invariant
                i <= folded.len(),
                folded.len() == self.options().len(),
                forall|j: int| 0 <= j < folded.len() ==> (#[trigger] folded@[j])@ == self.fold(self.options()[j]),
                ft@ == self.fold(t@),
                forall|j: int| 0 <= j < i ==> !is_prefix(self.fold(t@), self.fold(#[trigger] self.options()[j])),
            decreases folded.len() - i,
        {
            if starts_with_chars(&folded[i], &ft) {
                assert(is_prefix(self.fold(t@), self.fold(self.options()[i as int])));
                return true;
            }
            i = i + 1;
        }
        false
    }

    fn find_dead_end(&self, folded: &Vec<Vec<char>>, s: &Vec<char>, trimmed: bool) -> (r: Option<usize>)
        requires
            folded.len() == self.options().len(),
            forall|i: int| 0 <= i < folded.len() ==> (#[trigger] folded@[i])@ == self.fold(self.options()[i]),
        ensures
            r matches Some(k) ==> self.dead_end(s@, 0, trimmed) == Some(k as nat) && k < s.len(),
            r is None ==> self.dead_end(s@, 0, trimmed) is None,
    {
        let mut k: usize = 0;
        while k < s.len()
            invariant
                k <= s.len(),
                folded.len() == self.options().len(),
                forall|j: int| 0 <= j < folded.len() ==> (#[trigger] folded@[j])@ == self.fold(self.options()[j]),
                self.dead_end(s@, 0, trimmed) == self.dead_end(s@, k as nat, trimmed),
            decreases s.len() - k,
        {
            let prefix = take_chars(s, k + 1);
            let probe = if trimmed { trim_chars(&prefix) } else { prefix };
            if !self.is_extendable(folded, &probe) {
                return Some(k);
            }
            k = k + 1;
        }
        None
    }

    pub fn partial_validate(&self, input: &str, cursor_pos: usize) -> (r: PartialValidationResult)
        ensures
            r@ == self.spec_partial(input@),
    {
        let cs = chars_of(input);
        if cs.len() == 0 {
            return PartialValidationResult::valid();
        }
        let folded = self.folded_options();
        if self.max_choices == 1 {
            if self.is_extendable(&folded, &cs) {
                return PartialValidationResult::valid();
            }
            match self.find_dead_end(&folded, &cs, false) {
                Some(k) => PartialValidationResult::error_at(k),
                None => PartialValidationResult::valid(),
            }
        } else {
            let parts = split_at_commas(&cs);
            proof {
                lemma_split_last_len(input@);
                assert(char_views(parts@).last() == parts@[parts.len() - 1]@);
            }
            let last_len = parts[parts.len() - 1].len();
            let current = trim_chars(&parts[parts.len() - 1]);
            if current.len() == 0 || self.is_extendable(&folded, &current) {
                return PartialValidationResult::valid();
            }
            match self.find_dead_end(&folded, &current, true) {
                Some(k) => {
                    proof {
                        assert(trim(parts@[parts.len() - 1]@).len() <= last_len) by {
                            crate::text::lemma_trim_len(parts@[parts.len() - 1]@);
                        }
                    }
                    PartialValidationResult::error_at(cs.len() - last_len + k)
                },
                None => PartialValidationResult::valid(),
            }
        }
    }

    pub fn priority(&self) -> (r: Priority)
        ensures
            r == self.spec_priority(),
    {
        self.priority
    }

    pub fn name(&self) -> (r: &'static str)
        ensures
            r@ == "choice"@,
    {
        "choice"
    }

    /// The configured options, in order.
    pub fn choices(&self) -> (r: &Vec<String>)
        ensures
            r@.map_values(|c: String| c@) == self.options(),
    {
        &self.choices
    }
}

} // verus!
