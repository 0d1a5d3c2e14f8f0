//! Decisions of the interactive line editor and of the choice menu, one key at a time.
//! The terminal loop that reads keys and draws lives with the caller.
use vstd::prelude::*;
use crate::text::{is_space, char_is_whitespace, chars_of, string_of, take_chars};
use crate::basic::{with_number, with_two_numbers, number_message, two_number_message};
use crate::result::{opt_text, opt_text_ref};

verus! {

/// A key press, as the editor sees it.
#[derive(Debug, Clone, Copy, PartialEq, Eq, Structural)]
pub enum Key {
    /// A printable character typed without the control modifier.
    Char(char),
    /// A character typed with the control modifier.
    Ctrl(char),
    Enter,
    Left,
    Right,
    Up,
    Down,
    Home,
    End,
    Backspace,
    Delete,
    /// Any other key; it is ignored.
    Other,
}

/// What the loop does after a key.
#[derive(Debug, Clone, Copy, PartialEq, Eq, Structural)]
pub enum InputAction {
    Continue,
    Submit,
    Cancel,
}

/// What happens to a submitted value.
#[derive(Debug, Clone, Copy, PartialEq, Eq, Structural)]
pub enum SubmitOutcome {
    Accepted,
    Retry,
    MaxAttemptsExceeded,
}

/// Start of the word before `cur`: whitespace is skipped first, then the word itself.
pub open spec fn word_start(b: Seq<char>, cur: int) -> int
    decreases cur,
{
    word_start_skip(b, cur)
}

pub open spec fn word_start_skip(b: Seq<char>, cur: int) -> int
    decreases cur,
{
    if cur <= 0 || cur > b.len() {
        if cur < 0 { 0 } else if cur > b.len() { b.len() as int } else { 0 }
    } else if is_space(b[cur - 1]) {
        word_start_skip(b, cur - 1)
    } else {
        word_start_word(b, cur)
    }
}

pub open spec fn word_start_word(b: Seq<char>, cur: int) -> int
    decreases cur,
{
    if cur <= 0 || cur > b.len() {
        if cur < 0 { 0 } else if cur > b.len() { b.len() as int } else { 0 }
    } else if !is_space(b[cur - 1]) {
        word_start_word(b, cur - 1)
    } else {
        cur
    }
}

/// Buffer, cursor and action after one key, from buffer `b` and cursor `c`.
pub open spec fn key_effect(b: Seq<char>, c: nat, key: Key, default: Option<Seq<char>>) -> (Seq<char>, nat, InputAction) {
    match key {
        Key::Enter => {
            match default {
                Some(d) => if b.len() == 0 { (d, d.len(), InputAction::Submit) } else { (b, c, InputAction::Submit) },
                None => (b, c, InputAction::Submit),
            }
        },
        Key::Ctrl(k) => {
            if k == 'c' {
                (b, c, InputAction::Cancel)
            } else if k == 'd' {
                (b, c, if b.len() == 0 { InputAction::Cancel } else { InputAction::Continue })
            } else if k == 'a' {
                (b, 0, InputAction::Continue)
            } else if k == 'e' {
                (b, b.len(), InputAction::Continue)
            } else if k == 'k' {
                (if c < b.len() { b.subrange(0, c as int) } else { b }, c, InputAction::Continue)
            } else if k == 'u' {
                if c > 0 { (b.subrange(c as int, b.len() as int), 0, InputAction::Continue) } else { (b, c, InputAction::Continue) }
            } else if k == 'w' {
                if c > 0 {
                    let w = word_start(b, c as int);
                    (b.subrange(0, w) + b.subrange(c as int, b.len() as int), w as nat, InputAction::Continue)
                } else {
                    (b, c, InputAction::Continue)
                }
            } else {
                (b, c, InputAction::Continue)
            }
        },
        Key::Left => (b, if c > 0 { (c - 1) as nat } else { c }, InputAction::Continue),
        Key::Right => (b, if c < b.len() { c + 1 } else { c }, InputAction::Continue),
        Key::Home => (b, 0, InputAction::Continue),
        Key::End => (b, b.len(), InputAction::Continue),
        Key::Backspace => {
            if c > 0 { (b.remove(c - 1), (c - 1) as nat, InputAction::Continue) } else { (b, c, InputAction::Continue) }
        },
        Key::Delete => {
            if c < b.len() { (b.remove(c as int), c, InputAction::Continue) } else { (b, c, InputAction::Continue) }
        },
        Key::Char(ch) => (b.insert(c as int, ch), c + 1, InputAction::Continue),
        _ => (b, c, InputAction::Continue),
    }
}

/// The editable line of an interactive prompt.
pub struct LineEditor {
    buffer: Vec<char>,
    cursor: usize,
    attempts: u32,
    max_attempts: u32,
    default_value: Option<String>,
    masked: bool,
}

impl LineEditor {
    pub closed spec fn text(&self) -> Seq<char> {
        self.buffer@
    }

    /// Characters before the cursor.
    pub closed spec fn cursor_spec(&self) -> nat {
        self.cursor as nat
    }

    pub closed spec fn attempts_spec(&self) -> nat {
        self.attempts as nat
    }

    pub closed spec fn max_attempts_spec(&self) -> nat {
        self.max_attempts as nat
    }

    pub closed spec fn default_spec(&self) -> Option<Seq<char>> {
        opt_text_ref(&self.default_value)
    }

    pub closed spec fn masked_spec(&self) -> bool {
        self.masked
    }

    pub closed spec fn wf(&self) -> bool {
        &&& self.cursor <= self.buffer.len()
        &&& self.attempts <= self.max_attempts
    }

    /// An empty line; `max_attempts` of `None` allows any number of failed submissions.
    pub fn new(default_value: Option<String>, max_attempts: Option<u32>, masked: bool) -> (r: Self)
        ensures
            r.wf(),
            r.text() == Seq::<char>::empty(),
            r.cursor_spec() == 0,
            r.attempts_spec() == 0,
            r.max_attempts_spec() == match max_attempts { Some(m) => m, None => u32::MAX },
            r.default_spec() == opt_text(default_value),
            r.masked_spec() == masked,
    {
        let max = match max_attempts {
            Some(m) => m,
            None => u32::MAX,
        };
        LineEditor { buffer: Vec::new(), cursor: 0, attempts: 0, max_attempts: max, default_value, masked }
    }

    pub fn cursor(&self) -> (r: usize)
        ensures
            r == self.cursor_spec(),
    {
        self.cursor
    }

    pub fn attempts(&self) -> (r: u32)
        ensures
            r == self.attempts_spec(),
    {
        self.attempts
    }

    /// The text typed so far.
    pub fn value(&self) -> (r: String)
        ensures
            r@ == self.text(),
    {
        string_of(self.buffer.as_slice())
    }

    /// What the line shows: the text, or one `*` per character when masked.
    pub fn display_text(&self) -> (r: String)
        ensures
            self.masked_spec() ==> r@ == Seq::new(self.text().len(), |i: int| '*'),
            !self.masked_spec() ==> r@ == self.text(),
    {
        if self.masked {
            let mut stars: Vec<char> = Vec::new();
            let mut i: usize = 0;
            while i < self.buffer.len()
                invariant
                    i <= self.buffer.len(),
                    stars@ == Seq::new(i as nat, |j: int| '*'),
                decreases self.buffer.len() - i,
            {
                stars.push('*');
                proof {
                    assert(stars@ =~= Seq::new((i + 1) as nat, |j: int| '*'));
                }
                i = i + 1;
            }
            string_of(stars.as_slice())
        } else {
            string_of(self.buffer.as_slice())
        }
    }

    fn word_start_exec(&self) -> (r: usize)
        requires
            self.wf(),
        ensures
            r as int == word_start(self.buffer@, self.cursor as int),
            r <= self.cursor,
    {
        let mut w: usize = self.cursor;
        while w > 0 && char_is_whitespace(self.buffer[w - 1])
            invariant
                w <= self.cursor <= self.buffer.len(),
                word_start(self.buffer@, self.cursor as int) == word_start_skip(self.buffer@, w as int),
            decreases w,
        {
            w = w - 1;
        }
        proof {
            if w > 0 {
                assert(word_start_skip(self.buffer@, w as int) == word_start_word(self.buffer@, w as int));
            }
        }
        while w > 0 && !char_is_whitespace(self.buffer[w - 1])
            invariant
                w <= self.cursor <= self.buffer.len(),
                word_start(self.buffer@, self.cursor as int) == word_start_word(self.buffer@, w as int),
            decreases w,
        {
            w = w - 1;
        }
        w
    }

    /// Applies one key to the line.
    pub fn handle_key(&mut self, key: Key) -> (r: InputAction)
        requires
            old(self).wf(),
        ensures
            final(self).wf(),
            (final(self).text(), final(self).cursor_spec(), r) == key_effect(old(self).text(), old(self).cursor_spec(), key, old(self).default_spec()),
            final(self).attempts_spec() == old(self).attempts_spec(),
            final(self).max_attempts_spec() == old(self).max_attempts_spec(),
            final(self).default_spec() == old(self).default_spec(),
            final(self).masked_spec() == old(self).masked_spec(),
    {
        match key {
            Key::Enter => {
                if self.buffer.len() == 0 {
                    match &self.default_value {
                        Some(d) => {
                            self.buffer = chars_of(d.as_str());
                            self.cursor = self.buffer.len();
                        },
                        None => {},
                    }
                }
                InputAction::Submit
            },
            Key::Ctrl(k) => {
                if k == 'c' {
                    InputAction::Cancel
                } else if k == 'd' {
                    if self.buffer.len() == 0 { InputAction::Cancel } else { InputAction::Continue }
                } else if k == 'a' {
                    self.cursor = 0;
                    InputAction::Continue
                } else if k == 'e' {
                    self.cursor = self.buffer.len();
                    InputAction::Continue
                } else if k == 'k' {
                    if self.cursor < self.buffer.len() {
                        self.buffer = take_chars(&self.buffer, self.cursor);
                    }
                    InputAction::Continue
                } else if k == 'u' {
                    if self.cursor > 0 {
                        let mut rest: Vec<char> = Vec::new();
                        let mut i: usize = self.cursor;
                        while i < self.buffer.len()
                            invariant
                                self.cursor <= i <= self.buffer.len(),
                                rest@ == self.buffer@.subrange(self.cursor as int, i as int),
                            decreases self.buffer.len() - i,
                        {
                            rest.push(self.buffer[i]);
                            proof {
                                assert(rest@ =~= self.buffer@.subrange(self.cursor as int, i + 1));
                            }
                            i = i + 1;
                        }
                        self.buffer = rest;
                        self.cursor = 0;
                    }
                    InputAction::Continue
                } else if k == 'w' {
                    if self.cursor > 0 {
                        let w = self.word_start_exec();
                        let mut out = take_chars(&self.buffer, w);
                        let mut i: usize = self.cursor;
                        while i < self.buffer.len()
                            invariant
                                w <= self.cursor <= i <= self.buffer.len(),
                                out@ == self.buffer@.subrange(0, w as int) + self.buffer@.subrange(self.cursor as int, i as int),
                            decreases self.buffer.len() - i,
                        {
                            out.push(self.buffer[i]);
                            proof {
                                assert(out@ =~= self.buffer@.subrange(0, w as int) + self.buffer@.subrange(self.cursor as int, i + 1));
                            }
                            i = i + 1;
                        }
                        self.buffer = out;
                        self.cursor = w;
                    }
                    InputAction::Continue
                } else {
                    InputAction::Continue
                }
            },
            Key::Left => {
                if self.cursor > 0 {
                    self.cursor = self.cursor - 1;
                }
                InputAction::Continue
            },
            Key::Right => {
                if self.cursor < self.buffer.len() {
                    self.cursor = self.cursor + 1;
                }
                InputAction::Continue
            },
            Key::Home => {
                self.cursor = 0;
                InputAction::Continue
            },
            Key::End => {
                self.cursor = self.buffer.len();
                InputAction::Continue
            },
            Key::Backspace => {
                if self.cursor > 0 {
                    self.buffer.remove(self.cursor - 1);
                    self.cursor = self.cursor - 1;
                }
                InputAction::Continue
            },
            Key::Delete => {
                if self.cursor < self.buffer.len() {
                    self.buffer.remove(self.cursor);
                }
                InputAction::Continue
            },
            Key::Char(ch) => {
                self.buffer.insert(self.cursor, ch);
                assert(self.cursor < self.buffer.len());
                self.cursor = self.cursor + 1;
                InputAction::Continue
            },
            _ => InputAction::Continue,
        }
    }

    /// Records the verdict on a submitted value: a valid one is accepted; an invalid one
    /// counts as a failed attempt, and the session ends once the ceiling is reached.
    pub fn record_submission(&mut self, valid: bool) -> (r: SubmitOutcome)
        requires
            old(self).wf(),
        ensures
            final(self).wf(),
            final(self).text() == old(self).text(),
            final(self).cursor_spec() == old(self).cursor_spec(),
            final(self).max_attempts_spec() == old(self).max_attempts_spec(),
            final(self).default_spec() == old(self).default_spec(),
            final(self).masked_spec() == old(self).masked_spec(),
            valid ==> r == SubmitOutcome::Accepted && final(self).attempts_spec() == old(self).attempts_spec(),
            !valid && old(self).attempts_spec() < old(self).max_attempts_spec() ==> final(self).attempts_spec() == old(self).attempts_spec() + 1,
            !valid && old(self).attempts_spec() == old(self).max_attempts_spec() ==> final(self).attempts_spec() == old(self).attempts_spec(),
            !valid ==> (r == SubmitOutcome::MaxAttemptsExceeded <==> final(self).attempts_spec() >= final(self).max_attempts_spec()),
            !valid ==> (r == SubmitOutcome::Retry <==> final(self).attempts_spec() < final(self).max_attempts_spec()),
    {
        if valid {
            return SubmitOutcome::Accepted;
        }
        if self.attempts < self.max_attempts {
            self.attempts = self.attempts + 1;
        }
        if self.attempts >= self.max_attempts {
            SubmitOutcome::MaxAttemptsExceeded
        } else {
            SubmitOutcome::Retry
        }
    }
}

/// Number of `true` entries.
pub open spec fn count_true(s: Seq<bool>) -> nat
    decreases s.len(),
{
    if s.len() == 0 {
        0
    } else {
        count_true(s.drop_last()) + if s.last() { 1nat } else { 0nat }
    }
}

/// What the menu loop does after a key.
#[derive(Debug, Clone, Copy, PartialEq, Eq, Structural)]
pub enum MenuAction {
    Continue,
    Submit,
    Cancel,
}

/// The message for a selection count outside `[min, max]`.
pub open spec fn selection_error(count: nat, min: nat, max: nat) -> Option<Seq<char>> {
    if count < min {
        Some(with_number("At least "@, min, " choice(s) required"@))
    } else if count > max {
        Some(with_number("At most "@, max, " choice(s) allowed"@))
    } else {
        None
    }
}

/// State of a menu that selects entries from a fixed list.
pub struct ChoiceMenu {
    choices: Vec<String>,
    allow_multiple: bool,
    min_choices: usize,
    max_choices: usize,
    selected_choices: Vec<bool>,
    current_index: usize,
    validation_error: Option<String>,
}

impl ChoiceMenu {
    pub closed spec fn len_spec(&self) -> nat {
        self.choices.len() as nat
    }

    pub closed spec fn selected(&self) -> Seq<bool> {
        self.selected_choices@
    }

    pub closed spec fn highlighted(&self) -> nat {
        self.current_index as nat
    }

    pub closed spec fn multiple(&self) -> bool {
        self.allow_multiple
    }

    pub closed spec fn min(&self) -> nat {
        self.min_choices as nat
    }

    pub closed spec fn max(&self) -> nat {
        self.max_choices as nat
    }

    pub closed spec fn error_spec(&self) -> Option<Seq<char>> {
        opt_text_ref(&self.validation_error)
    }

    pub closed spec fn wf(&self) -> bool {
        &&& self.selected_choices.len() == self.choices.len()
        &&& (self.choices.len() == 0 || self.current_index < self.choices.len())
        &&& (self.choices.len() == 0 ==> self.current_index == 0)
    }

    /// A menu with nothing selected and the first entry highlighted.
    pub fn new(choices: Vec<String>, allow_multiple: bool, min_choices: usize, max_choices: usize) -> (r: Self)
        ensures
            r.wf(),
            r.len_spec() == choices.len(),
            r.selected() == Seq::new(choices.len() as nat, |i: int| false),
            r.highlighted() == 0,
            r.multiple() == allow_multiple,
            r.min() == min_choices,
            r.max() == max_choices,
            r.error_spec() is None,
    {
        let mut selected: Vec<bool> = Vec::new();
        let mut i: usize = 0;
        while i < choices.len()
            invariant
                i <= choices.len(),
                selected@ == Seq::new(i as nat, |j: int| false),
            decreases choices.len() - i,
        {
            selected.push(false);
            proof {
                assert(selected@ =~= Seq::new((i + 1) as nat, |j: int| false));
            }
            i = i + 1;
        }
        ChoiceMenu {
            choices,
            allow_multiple,
            min_choices,
            max_choices,
            selected_choices: selected,
            current_index: 0,
            validation_error: None,
        }
    }

    pub fn highlighted_index(&self) -> (r: usize)
        ensures
            r == self.highlighted(),
    {
        self.current_index
    }

    pub fn is_selected(&self, i: usize) -> (r: bool)
        requires
            self.wf(),
            i < self.len_spec(),
        ensures
            r == self.selected()[i as int],
    {
        self.selected_choices[i]
    }

    pub fn validation_error(&self) -> (r: Option<String>)
        ensures
            opt_text(r) == self.error_spec(),
    {
        crate::result::copy_text(&self.validation_error)
    }

    /// Applies one key: arrows move the highlight, space toggles it when several entries
    /// may be chosen, Enter submits (selecting only the highlighted entry when one is
    /// chosen), Ctrl+C and Ctrl+D cancel.
    pub fn handle_key(&mut self, key: Key) -> (r: MenuAction)
        requires
            old(self).wf(),
        ensures
            final(self).wf(),
            final(self).len_spec() == old(self).len_spec(),
            final(self).multiple() == old(self).multiple(),
            final(self).min() == old(self).min(),
            final(self).max() == old(self).max(),
            final(self).error_spec() == old(self).error_spec(),
            key == Key::Up ==> r == MenuAction::Continue && final(self).selected() == old(self).selected()
                && final(self).highlighted() == if old(self).highlighted() > 0 { (old(self).highlighted() - 1) as nat } else { 0 },
            key == Key::Down ==> r == MenuAction::Continue && final(self).selected() == old(self).selected()
                && final(self).highlighted() == if old(self).highlighted() + 1 < old(self).len_spec() { old(self).highlighted() + 1 } else { old(self).highlighted() },
            key == Key::Enter ==> r == MenuAction::Submit && final(self).highlighted() == old(self).highlighted()
                && (old(self).multiple() ==> final(self).selected() == old(self).selected())
                && (!old(self).multiple() && old(self).len_spec() > 0 ==> final(self).selected() == Seq::new(old(self).len_spec(), |i: int| i == old(self).highlighted())),
            key == Key::Char(' ') ==> r == MenuAction::Continue && final(self).highlighted() == old(self).highlighted()
                && (old(self).multiple() && old(self).len_spec() > 0 ==> final(self).selected() == old(self).selected().update(old(self).highlighted() as int, !old(self).selected()[old(self).highlighted() as int]))
                && (!old(self).multiple() ==> final(self).selected() == old(self).selected()),
            (key == Key::Ctrl('c') || key == Key::Ctrl('d')) ==> r == MenuAction::Cancel && final(self).selected() == old(self).selected() && final(self).highlighted() == old(self).highlighted(),
            !(key == Key::Up || key == Key::Down || key == Key::Enter || key == Key::Char(' ') || key == Key::Ctrl('c') || key == Key::Ctrl('d'))
                ==> r == MenuAction::Continue && final(self).selected() == old(self).selected() && final(self).highlighted() == old(self).highlighted(),
    {
        match key {
            Key::Up => {
                if self.current_index > 0 {
                    self.current_index = self.current_index - 1;
                }
                MenuAction::Continue
            },
            Key::Down => {
                if self.current_index + 1 < self.choices.len() {
                    self.current_index = self.current_index + 1;
                }
                MenuAction::Continue
            },
            Key::Enter => {
                if !self.allow_multiple && self.choices.len() > 0 {
                    let n = self.choices.len();
                    let current = self.current_index;
                    let mut fresh: Vec<bool> = Vec::new();
                    let mut i: usize = 0;
                    while i < n
                        invariant
                            i <= n,
                            fresh@ == Seq::new(i as nat, |j: int| j == current),
                        decreases n - i,
                    {
                        fresh.push(i == current);
                        proof {
                            assert(fresh@ =~= Seq::new((i + 1) as nat, |j: int| j == current));
                        }
                        i = i + 1;
                    }
                    self.selected_choices = fresh;
                }
                MenuAction::Submit
            },
            Key::Char(' ') => {
                if self.allow_multiple && self.choices.len() > 0 {
                    let v = self.selected_choices[self.current_index];
                    self.selected_choices.set(self.current_index, !v);
                }
                MenuAction::Continue
            },
            Key::Ctrl('c') | Key::Ctrl('d') => MenuAction::Cancel,
            _ => MenuAction::Continue,
        }
    }

    /// Number of selected entries.
    pub fn selected_count(&self) -> (r: usize)
        requires
            self.wf(),
        ensures
            r == count_true(self.selected()),
    {
        let mut n: usize = 0;
        let mut i: usize = 0;
        proof {
            assert(self.selected_choices@.subrange(0, 0) =~= Seq::<bool>::empty());
        }
        while i < self.selected_choices.len()
            invariant
                i <= self.selected_choices.len(),
                n == count_true(self.selected_choices@.subrange(0, i as int)),
                n <= i,
            decreases self.selected_choices.len() - i,
        {
            proof {
                assert(self.selected_choices@.subrange(0, i + 1).drop_last() =~= self.selected_choices@.subrange(0, i as int));
            }
            if self.selected_choices[i] {
                n = n + 1;
            }
            i = i + 1;
        }
        proof {
            assert(self.selected_choices@.subrange(0, i as int) =~= self.selected_choices@);
        }
        n
    }

    /// Whether the selection count lies within `[min, max]`.
    pub fn can_submit(&self) -> (r: bool)
        requires
            self.wf(),
        ensures
            r == (self.min() <= count_true(self.selected()) <= self.max()),
    {
        let n = self.selected_count();
        n >= self.min_choices && n <= self.max_choices
    }

    /// Sets the message for a selection count outside the bounds, or clears it.
    pub fn validate_selections(&mut self)
        requires
            old(self).wf(),
        ensures
            final(self).wf(),
            final(self).len_spec() == old(self).len_spec(),
            final(self).selected() == old(self).selected(),
            final(self).highlighted() == old(self).highlighted(),
            final(self).multiple() == old(self).multiple(),
            final(self).min() == old(self).min(),
            final(self).max() == old(self).max(),
            final(self).error_spec() == selection_error(count_true(old(self).selected()), old(self).min(), old(self).max()),
    {
        let n = self.selected_count();
        if n < self.min_choices {
            self.validation_error = Some(number_message("At least ", self.min_choices, " choice(s) required"));
        } else if n > self.max_choices {
            self.validation_error = Some(number_message("At most ", self.max_choices, " choice(s) allowed"));
        } else {
            self.validation_error = None;
        }
    }

    /// Attempts to submit: succeeds when the count is within bounds; otherwise the
    /// constraint message is set and the menu stays open.
    pub fn try_submit(&mut self) -> (r: bool)
        requires
            old(self).wf(),
        ensures
            final(self).wf(),
            r == (old(self).min() <= count_true(old(self).selected()) <= old(self).max()),
            final(self).selected() == old(self).selected(),
            final(self).highlighted() == old(self).highlighted(),
            final(self).len_spec() == old(self).len_spec(),
            final(self).multiple() == old(self).multiple(),
            final(self).min() == old(self).min(),
            final(self).max() == old(self).max(),
            final(self).error_spec() == selection_error(count_true(old(self).selected()), old(self).min(), old(self).max()),
    {
        self.validate_selections();
        self.can_submit()
    }

    /// The selected entries, in list order.
    pub fn selected_choices(&self) -> (r: Vec<String>)
        requires
            self.wf(),
        ensures
            r@.map_values(|c: String| c@) == self.chosen(),
    {
        let mut out: Vec<String> = Vec::new();
        let mut i: usize = 0;
        proof {
            assert(self.selected_choices@.subrange(0, 0) =~= Seq::<bool>::empty());
        }
        while i < self.choices.len()
            invariant
                self.wf(),
                i <= self.choices.len(),
                out@.map_values(|c: String| c@) == chosen_of(self.choices@.map_values(|c: String| c@).subrange(0, i as int), self.selected_choices@.subrange(0, i as int)),
            decreases self.choices.len() - i,
        {
            proof {
                let names = self.choices@.map_values(|c: String| c@);
                assert(names.subrange(0, i + 1).drop_last() =~= names.subrange(0, i as int));
                assert(self.selected_choices@.subrange(0, i + 1).drop_last() =~= self.selected_choices@.subrange(0, i as int));
                assert(names.subrange(0, i + 1).last() == self.choices@[i as int]@);
            }
            if self.selected_choices[i] {
                out.push(self.choices[i].clone());
                proof {
                    assert(out@.map_values(|c: String| c@) =~= chosen_of(self.choices@.map_values(|c: String| c@).subrange(0, i as int), self.selected_choices@.subrange(0, i as int)).push(self.choices@[i as int]@));
                }
            }
            i = i + 1;
        }
        proof {
            assert(self.choices@.map_values(|c: String| c@).subrange(0, i as int) =~= self.choices@.map_values(|c: String| c@));
            assert(self.selected_choices@.subrange(0, i as int) =~= self.selected_choices@);
        }
        out
    }

    /// The entries, in order.
    pub closed spec fn names(&self) -> Seq<Seq<char>> {
        self.choices@.map_values(|c: String| c@)
    }

    pub closed spec fn chosen(&self) -> Seq<Seq<char>> {
        chosen_of(self.choices@.map_values(|c: String| c@), self.selected_choices@)
    }

    pub open spec fn instruction_spec(&self) -> Seq<char> {
        if self.multiple() {
            if self.min() == self.max() {
                with_number("Select exactly "@, self.min(), " choice(s). Use ↑↓ to navigate, SPACE to toggle, ENTER to submit:"@)
            } else {
                with_two_numbers("Select "@, self.min(), "-"@, self.max(), " choice(s). Use ↑↓ to navigate, SPACE to toggle, ENTER to submit:"@)
            }
        } else {
            "Use ↑↓ to navigate, ENTER to select:"@
        }
    }

    /// The line that tells how to use the menu.
    pub fn instruction(&self) -> (r: String)
        ensures
            r@ == self.instruction_spec(),
    {
        if self.allow_multiple {
            if self.min_choices == self.max_choices {
                number_message("Select exactly ", self.min_choices, " choice(s). Use ↑↓ to navigate, SPACE to toggle, ENTER to submit:")
            } else {
                two_number_message("Select ", self.min_choices, "-", self.max_choices, " choice(s). Use ↑↓ to navigate, SPACE to toggle, ENTER to submit:")
            }
        } else {
            String::from_str("Use ↑↓ to navigate, ENTER to select:")
        }
    }

    pub open spec fn line_spec(&self, i: int) -> Seq<char> {
        let marker = if self.multiple() {
            if self.selected()[i] { "[✓]"@ } else { "[ ]"@ }
        } else if i == self.highlighted() {
            ">"@
        } else {
            " "@
        };
        marker + " "@ + self.names()[i]
    }

    /// The text of entry `i`: a check box when several entries may be chosen, else a
    /// pointer on the highlighted entry; then a space and the entry.
    pub fn choice_line(&self, i: usize) -> (r: String)
        requires
            self.wf(),
            i < self.len_spec(),
        ensures
            r@ == self.line_spec(i as int),
    {
        let mut line = if self.allow_multiple {
            if self.selected_choices[i] { String::from_str("[✓]") } else { String::from_str("[ ]") }
        } else if i == self.current_index {
            String::from_str(">")
        } else {
            String::from_str(" ")
        };
        line.append(" ");
        line.append(self.choices[i].as_str());
        assert(self.names()[i as int] == self.choices@[i as int]@);
        line
    }

    /// Lines that one drawing of the menu takes below the prompt: the instruction, one
    /// per entry, and the constraint message if any.
    pub fn content_line_count(&self) -> (r: usize)
        requires
            self.len_spec() + 2 <= usize::MAX,
        ensures
            r == 1 + self.len_spec() + if self.error_spec() is Some { 1nat } else { 0nat },
    {
        let mut lines: usize = 1 + self.choices.len();
        if self.validation_error.is_some() {
            lines = lines + 1;
        }
        lines
    }
}

/// Names whose flag is set, in order.
pub open spec fn chosen_of(names: Seq<Seq<char>>, flags: Seq<bool>) -> Seq<Seq<char>>
    decreases names.len(),
{
    if names.len() == 0 || flags.len() == 0 {
        seq![]
    } else {
        let r = chosen_of(names.drop_last(), flags.drop_last());
        if flags.last() { r.push(names.last()) } else { r }
    }
}

} // verus!
