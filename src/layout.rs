//! Where the prompt, the input, the error block and the help line go on screen, and how
//! text wraps to a width.
use vstd::prelude::*;
use crate::text::{is_space, char_is_whitespace, chars_of, string_of, char_views};

verus! {

/// Columns that `unicode_width::UnicodeWidthStr::width` gives a text.
pub uninterp spec fn display_width(s: Seq<char>) -> nat;

/// Relies on `unicode_width::UnicodeWidthStr::width`: the width depends on the text alone.
#[verifier::external_body]
pub(crate) fn text_width(s: &str) -> (r: usize)
    ensures
        r == display_width(s@),
{
    unicode_width::UnicodeWidthStr::width(s)
}

/// Column of the cursor on the input line: the prompt's width plus the width of what
/// stands before the cursor, kept within the range of a column number.
pub fn input_cursor_column(prompt_width: u16, before_cursor: &str) -> (r: u16)
    ensures
        r == if prompt_width + display_width(before_cursor@) <= u16::MAX {
            (prompt_width + display_width(before_cursor@)) as u16
        } else {
            u16::MAX
        },
{
    let w = text_width(before_cursor);
    if w <= (u16::MAX - prompt_width) as usize {
        prompt_width + w as u16
    } else {
        u16::MAX
    }
}

/// Positions of the screen areas, in lines and columns.
#[derive(Debug)]
pub struct LayoutManager {
    width: u16,
    height: u16,
    prompt_line: u16,
    input_line: u16,
    error_area_start: u16,
    error_area_height: u16,
    help_line: Option<u16>,
}

/// Maximal runs of non-whitespace characters, in order.
pub open spec fn words(s: Seq<char>) -> Seq<Seq<char>>
    decreases s.len(),
{
    words_from(s, seq![], seq![])
}

/// Words of `rest`, given the words already closed and the word being read.
pub open spec fn words_from(rest: Seq<char>, done: Seq<Seq<char>>, cur: Seq<char>) -> Seq<Seq<char>>
    decreases rest.len(),
{
    if rest.len() == 0 {
        if cur.len() > 0 { done.push(cur) } else { done }
    } else if is_space(rest[0]) {
        words_from(rest.drop_first(), if cur.len() > 0 { done.push(cur) } else { done }, seq![])
    } else {
        words_from(rest.drop_first(), done, cur.push(rest[0]))
    }
}

/// Lines built so far and the line being filled.
pub struct WrapState {
    pub lines: Seq<Seq<char>>,
    pub current: Seq<char>,
}

/// Adds one word: it joins the current line while the line stays narrower than the
/// width (or the line is empty), else it starts a new line.
pub open spec fn wrap_step(st: WrapState, w: Seq<char>, max: nat) -> WrapState {
    if display_width(st.current) + display_width(w) < max || st.current.len() == 0 {
        WrapState {
            lines: st.lines,
            current: if st.current.len() == 0 { w } else { st.current + seq![' '] + w },
        }
    } else {
        WrapState {
            lines: if st.current.len() > 0 { st.lines.push(st.current) } else { st.lines },
            current: w,
        }
    }
}

pub open spec fn wrap_words(ws: Seq<Seq<char>>, max: nat) -> WrapState
    decreases ws.len(),
{
    if ws.len() == 0 {
        WrapState { lines: seq![], current: seq![] }
    } else {
        wrap_step(wrap_words(ws.drop_last(), max), ws.last(), max)
    }
}

/// The lines that a text wraps into; an empty text gives one empty line.
pub open spec fn wrapped(s: Seq<char>, max: nat) -> Seq<Seq<char>> {
    let st = wrap_words(words(s), max);
    let lines = if st.current.len() > 0 { st.lines.push(st.current) } else { st.lines };
    if lines.len() == 0 { seq![seq![]] } else { lines }
}

fn split_words(cs: &Vec<char>) -> (r: Vec<Vec<char>>)
    ensures
        char_views(r@) == words(cs@),
{
    let mut done: Vec<Vec<char>> = Vec::new();
    let mut cur: Vec<char> = Vec::new();
    let mut i: usize = 0;
    proof {
        assert(cs@.subrange(0, cs.len() as int) =~= cs@);
        assert(char_views(done@) =~= Seq::<Seq<char>>::empty());
    }
    while i < cs.len()
        invariant
            i <= cs.len(),
            words(cs@) == words_from(cs@.subrange(i as int, cs.len() as int), char_views(done@), cur@),
        decreases cs.len() - i,
    {
        let ghost rest = cs@.subrange(i as int, cs.len() as int);
        let ghost dv = char_views(done@);
        let ghost cv = cur@;
        proof {
            assert(rest[0] == cs@[i as int]);
            assert(rest.drop_first() =~= cs@.subrange(i + 1, cs.len() as int));
        }
        if char_is_whitespace(cs[i]) {
            if cur.len() > 0 {
                let w = cur;
                done.push(w);
                proof {
                    assert(char_views(done@) =~= dv.push(cv));
                }
            }
            cur = Vec::new();
            proof {
                assert(cur@ =~= Seq::<char>::empty());
            }
        } else {
            cur.push(cs[i]);
        }
        proof {
            assert(words_from(rest, dv, cv) == words_from(rest.drop_first(), char_views(done@), cur@));
        }
        i = i + 1;
    }
    proof {
        assert(cs@.subrange(cs.len() as int, cs.len() as int) =~= Seq::<char>::empty());
    }
    if cur.len() > 0 {
        let ghost dv = char_views(done@);
        let ghost cv = cur@;
        done.push(cur);
        proof {
            assert(char_views(done@) =~= dv.push(cv));
        }
    }
    done
}

/// Bytes that UTF-8 takes for a character.
pub open spec fn utf8_width(c: char) -> nat {
    if (c as u32) < 0x80 {
        1
    } else if (c as u32) < 0x800 {
        2
    } else if (c as u32) < 0x10000 {
        3
    } else {
        4
    }
}

/// Length of a text in UTF-8 bytes.
pub open spec fn byte_len(s: Seq<char>) -> nat
    decreases s.len(),
{
    if s.len() == 0 {
        0
    } else {
        byte_len(s.drop_last()) + utf8_width(s.last())
    }
}

/// Lines counted so far and the width of the line being filled.
pub struct LineCount {
    pub lines: nat,
    pub width: nat,
}

/// Adds a word of `w` bytes: it joins the current line (after a space) while the line
/// stays narrower than `max` or is empty, else it starts a new line.
pub open spec fn count_step(st: LineCount, w: nat, max: nat) -> LineCount {
    if st.width + w < max || st.width == 0 {
        LineCount { lines: st.lines, width: if st.width > 0 { st.width + 1 + w } else { w } }
    } else {
        LineCount { lines: st.lines + 1, width: w }
    }
}

pub open spec fn count_words(ws: Seq<Seq<char>>, max: nat) -> LineCount
    decreases ws.len(),
{
    if ws.len() == 0 {
        LineCount { lines: 0, width: 0 }
    } else {
        count_step(count_words(ws.drop_last(), max), byte_len(ws.last()), max)
    }
}

/// Lines a text takes when wrapped at `width` bytes: none for an empty text or a zero
/// width, else at least one.
pub open spec fn wrapped_line_count(s: Seq<char>, width: nat) -> nat {
    if s.len() == 0 || width == 0 {
        0
    } else {
        let st = count_words(words(s), width);
        let n = st.lines + if st.width > 0 { 1nat } else { 0nat };
        if n < 1 { 1 } else { n }
    }
}

pub open spec fn cap(v: nat, m: nat) -> nat {
    if v < m { v } else { m }
}

fn capped_byte_len(w: &Vec<char>, max: u64) -> (r: u64)
    requires
        1 <= max <= 65535,
    ensures
        r == cap(byte_len(w@), max as nat),
{
    let mut n: u64 = 0;
    let mut i: usize = 0;
    proof {
        assert(w@.subrange(0, 0) =~= Seq::<char>::empty());
    }
    while i < w.len()
        invariant
            i <= w.len(),
            1 <= max <= 65535,
            n == cap(byte_len(w@.subrange(0, i as int)), max as nat),
        decreases w.len() - i,
    {
        proof {
            assert(w@.subrange(0, i + 1).drop_last() =~= w@.subrange(0, i as int));
        }
        let v = w[i] as u32;
        let b: u64 = if v < 0x80 { 1 } else if v < 0x800 { 2 } else if v < 0x10000 { 3 } else { 4 };
        n = if n + b < max { n + b } else { max };
        i = i + 1;
    }
    proof {
        assert(w@.subrange(0, i as int) =~= w@);
    }
    n
}

/// Lines a text takes when wrapped at `width` bytes per line, at most `u16::MAX`.
pub fn calculate_wrapped_lines(text: &str, width: u16) -> (r: u16)
    ensures
        r == cap(wrapped_line_count(text@, width as nat), u16::MAX as nat),
{
    let cs = chars_of(text);
    if cs.len() == 0 || width == 0 {
        return 0;
    }
    let max = width as u64;
    let ws = split_words(&cs);
    let ghost wv = char_views(ws@);
    let mut lines: u64 = 0;
    let mut cur: u64 = 0;
    let mut i: usize = 0;
    proof {
        assert(wv.subrange(0, 0) =~= Seq::<Seq<char>>::empty());
    }
    while i < ws.len()
        invariant
            i <= ws.len(),
            wv == char_views(ws@),
            max == width as u64,
            1 <= max <= 65535,
            lines == cap(count_words(wv.subrange(0, i as int), max as nat).lines, u16::MAX as nat),
            cur == cap(count_words(wv.subrange(0, i as int), max as nat).width, max as nat),
        decreases ws.len() - i,
    {
        proof {
            assert(wv.subrange(0, i + 1).drop_last() =~= wv.subrange(0, i as int));
            assert(wv.subrange(0, i + 1).last() == ws@[i as int]@);
        }
        let w = capped_byte_len(&ws[i], max);
        if cur + w < max || cur == 0 {
            let grown = if cur > 0 { cur + 1 + w } else { w };
            cur = if grown < max { grown } else { max };
        } else {
            lines = if lines < 65535 { lines + 1 } else { 65535 };
            cur = w;
        }
        i = i + 1;
    }
    proof {
        assert(wv.subrange(0, ws.len() as int) =~= wv);
    }
    if cur > 0 {
        lines = if lines < 65535 { lines + 1 } else { 65535 };
    }
    if lines < 1 {
        lines = 1;
    }
    lines as u16
}

/// Sum of the wrapped line counts of the messages.
pub open spec fn messages_lines(ms: Seq<Seq<char>>, width: nat) -> nat
    decreases ms.len(),
{
    if ms.len() == 0 {
        0
    } else {
        messages_lines(ms.drop_last(), width) + cap(wrapped_line_count(ms.last(), width), u16::MAX as nat)
    }
}

/// Lines wanted below the prompt: the prompt line, the wrapped help text, every potential
/// message wrapped, and three spare lines.
pub open spec fn wanted_lines(ms: Seq<Seq<char>>, help: Option<Seq<char>>, width: nat) -> nat {
    1 + match help {
        Some(h) => cap(wrapped_line_count(h, width), u16::MAX as nat),
        None => 0,
    } + messages_lines(ms, width) + 3
}

/// Lines to reserve on a screen of `width` columns and `height` lines: what is wanted, but
/// at most the height less two.
pub fn calculate_reserved_lines(messages: &Vec<String>, help_text: &Option<String>, width: u16, height: u16) -> (r: u16)
    ensures
        r == cap(
            wanted_lines(messages@.map_values(|m: String| m@), crate::result::opt_text_ref(help_text), width as nat),
            if height >= 2 { (height - 2) as nat } else { 0 },
        ),
{
    let limit: u16 = if height >= 2 { height - 2 } else { 0 };
    let ghost ms = messages@.map_values(|m: String| m@);
    let mut total: u64 = 1;
    match help_text {
        Some(h) => {
            total = total + calculate_wrapped_lines(h.as_str(), width) as u64;
        },
        None => {},
    }
    let ghost base = total as nat;
    let mut i: usize = 0;
    proof {
        assert(ms.subrange(0, 0) =~= Seq::<Seq<char>>::empty());
    }
    while i < messages.len()
        invariant
            i <= messages.len(),
            ms == messages@.map_values(|m: String| m@),
            base <= 65536,
            total == cap(base + messages_lines(ms.subrange(0, i as int), width as nat), 200000),
        decreases messages.len() - i,
    {
        proof {
            assert(ms.subrange(0, i + 1).drop_last() =~= ms.subrange(0, i as int));
            assert(ms.subrange(0, i + 1).last() == messages@[i as int]@);
        }
        let add = calculate_wrapped_lines(messages[i].as_str(), width) as u64;
        total = if total + add < 200000 { total + add } else { 200000 };
        i = i + 1;
    }
    proof {
        assert(ms.subrange(0, messages.len() as int) =~= ms);
    }
    total = total + 3;
    if total < limit as u64 { total as u16 } else { limit }
}

impl LayoutManager {
    pub closed spec fn width_spec(&self) -> u16 {
        self.width
    }

    pub closed spec fn height_spec(&self) -> u16 {
        self.height
    }

    pub closed spec fn prompt_line_spec(&self) -> u16 {
        self.prompt_line
    }

    pub closed spec fn input_line_spec(&self) -> u16 {
        self.input_line
    }

    pub closed spec fn error_start_spec(&self) -> u16 {
        self.error_area_start
    }

    pub closed spec fn error_height_spec(&self) -> u16 {
        self.error_area_height
    }

    pub closed spec fn help_line_spec(&self) -> Option<u16> {
        self.help_line
    }

    /// A layout for a screen of the given size: prompt and input on line 0, errors from
    /// line 1, no help line.
    pub fn new(width: u16, height: u16) -> (r: Self)
        ensures
            r.width_spec() == width,
            r.height_spec() == height,
            r.prompt_line_spec() == 0,
            r.input_line_spec() == 0,
            r.error_start_spec() == 1,
            r.error_height_spec() == 0,
            r.help_line_spec() is None,
    {
        LayoutManager {
            width,
            height,
            prompt_line: 0,
            input_line: 0,
            error_area_start: 1,
            error_area_height: 0,
            help_line: None,
        }
    }

    /// Places prompt and input on line 0 and errors from line 1; with help, the help line
    /// is the last line of the screen.
    pub fn calculate_layout(&mut self, has_help: bool)
        ensures
            final(self).width_spec() == old(self).width_spec(),
            final(self).height_spec() == old(self).height_spec(),
            final(self).prompt_line_spec() == 0,
            final(self).input_line_spec() == 0,
            final(self).error_start_spec() == 1,
            final(self).error_height_spec() == old(self).error_height_spec(),
            has_help ==> final(self).help_line_spec() == Some(
                if old(self).height_spec() > 0 { (old(self).height_spec() - 1) as u16 } else { 0u16 },
            ),
            !has_help ==> final(self).help_line_spec() == old(self).help_line_spec(),
    {
        self.prompt_line = 0;
        self.input_line = 0;
        self.error_area_start = 1;
        if has_help {
            self.help_line = Some(self.height.saturating_sub(1));
        }
    }

    /// Reserves one line per error, at most ten.
    pub fn update_error_area_height(&mut self, error_count: usize)
        ensures
            final(self).error_height_spec() == if error_count < 10 { error_count as u16 } else { 10u16 },
            final(self).width_spec() == old(self).width_spec(),
            final(self).height_spec() == old(self).height_spec(),
            final(self).prompt_line_spec() == old(self).prompt_line_spec(),
            final(self).input_line_spec() == old(self).input_line_spec(),
            final(self).error_start_spec() == old(self).error_start_spec(),
            final(self).help_line_spec() == old(self).help_line_spec(),
    {
        self.error_area_height = if error_count < 10 { error_count as u16 } else { 10 };
    }

    pub fn prompt_position(&self) -> (r: (u16, u16))
        ensures
            r == (0u16, self.prompt_line_spec()),
    {
        (0, self.prompt_line)
    }

    pub fn input_position(&self, prompt_width: u16) -> (r: (u16, u16))
        ensures
            r == (prompt_width, self.input_line_spec()),
    {
        (prompt_width, self.input_line)
    }

    /// First line, height and width of the error block.
    pub fn error_area_bounds(&self) -> (r: (u16, u16, u16))
        ensures
            r == (self.error_start_spec(), self.error_height_spec(), self.width_spec()),
    {
        (self.error_area_start, self.error_area_height, self.width)
    }

    pub fn help_position(&self) -> (r: Option<(u16, u16)>)
        ensures
            r == match self.help_line_spec() {
                Some(line) => Some((0u16, line)),
                None => None,
            },
    {
        match self.help_line {
            Some(line) => Some((0, line)),
            None => None,
        }
    }

    /// Splits a text into lines at whitespace so that each line stays narrower than
    /// `max_width` columns; a word wider than that stands on a line of its own.
    pub fn wrap_text(&self, text: &str, max_width: u16) -> (r: Vec<String>)
        ensures
            r@.map_values(|s: String| s@) == wrapped(text@, max_width as nat),
    {
        let max = max_width as usize;
        let cs = chars_of(text);
        let ws = split_words(&cs);
        let ghost wv = char_views(ws@);
        let mut lines: Vec<String> = Vec::new();
        let mut current: Vec<char> = Vec::new();
        let mut i: usize = 0;
        proof {
            assert(wv.subrange(0, 0) =~= Seq::<Seq<char>>::empty());
        }
        while i < ws.len()
            invariant
                i <= ws.len(),
                wv == char_views(ws@),
                wv == words(text@),
                cs@ == text@,
                max == max_width as nat,
                lines@.map_values(|s: String| s@) == wrap_words(wv.subrange(0, i as int), max as nat).lines,
                current@ == wrap_words(wv.subrange(0, i as int), max as nat).current,
            decreases ws.len() - i,
        {
            let ghost pre = wv.subrange(0, i as int);
            proof {
                assert(wv.subrange(0, i + 1).drop_last() =~= pre);
                assert(wv.subrange(0, i + 1).last() == ws@[i as int]@);
            }
            let w = &ws[i];
            let cur_text = string_of(current.as_slice());
            let word_text = string_of(w.as_slice());
            let cw = text_width(cur_text.as_str());
            let ww = text_width(word_text.as_str());
            let fits = cw < max && ww < max - cw;
            if fits || current.len() == 0 {
                if current.len() == 0 {
                    current = crate::text::take_chars(w, w.len());
                    proof {
                        assert(current@ =~= w@);
                    }
                } else {
                    current.push(' ');
                    let mut j: usize = 0;
                    let ghost base = current@;
                    while j < w.len()
                        invariant
                            j <= w.len(),
                            current@ == base + w@.subrange(0, j as int),
                        decreases w.len() - j,
                    {
                        current.push(w[j]);
                        proof {
                            assert(current@ =~= base + w@.subrange(0, j + 1));
                        }
                        j = j + 1;
                    }
                    proof {
                        assert(w@.subrange(0, w.len() as int) =~= w@);
                    }
                }
            } else {
                lines.push(cur_text);
                proof {
                    assert(lines@.map_values(|s: String| s@) =~= wrap_words(pre, max as nat).lines.push(wrap_words(pre, max as nat).current));
                }
                current = crate::text::take_chars(w, w.len());
                proof {
                    assert(current@ =~= w@);
                }
            }
            i = i + 1;
        }
        proof {
            assert(wv.subrange(0, wv.len() as int) =~= wv);
        }
        if current.len() > 0 {
            lines.push(string_of(current.as_slice()));
            proof {
                assert(lines@.map_values(|s: String| s@) =~= wrap_words(wv, max as nat).lines.push(wrap_words(wv, max as nat).current));
            }
        }
        if lines.len() == 0 {
            lines.push(String::new());
            proof {
                assert(lines@.map_values(|s: String| s@) =~= seq![Seq::<char>::empty()]);
            }
        }
        lines
    }
}

} // verus!
