//! Settings that reach the core once the command line has been read.
use vstd::prelude::*;
use crate::priority::Priority;
use crate::text::{chars_of, string_of, trim_chars, char_views};
use crate::choice::nonempty_trimmed;

verus! {

/// How a finished summary is printed.
#[derive(Debug, Clone, Copy, PartialEq, Eq, Structural)]
pub enum OutputFormat {
    Default,
    Json,
    Raw,
}

/// Shells for which completion scripts are written.
#[derive(Debug, Clone, Copy, PartialEq, Eq, Structural)]
pub enum Shell {
    Bash,
    Zsh,
    Fish,
    PowerShell,
}

/// A priority as named on the command line.
#[derive(Debug, Clone, Copy, PartialEq, Eq, Structural)]
pub enum PriorityArg {
    Critical,
    High,
    Medium,
    Low,
}

pub open spec fn priority_of_arg(a: PriorityArg) -> Priority {
    match a {
        PriorityArg::Critical => Priority::Critical,
        PriorityArg::High => Priority::High,
        PriorityArg::Medium => Priority::Medium,
        PriorityArg::Low => Priority::Low,
    }
}

impl From<PriorityArg> for Priority {
    fn from(arg: PriorityArg) -> (r: Priority)
        ensures
            r == priority_of_arg(arg),
    {
        match arg {
            PriorityArg::Critical => Priority::Critical,
            PriorityArg::High => Priority::High,
            PriorityArg::Medium => Priority::Medium,
            PriorityArg::Low => Priority::Low,
        }
    }
}

impl vstd::std_specs::convert::FromSpecImpl<PriorityArg> for Priority {
    open spec fn obeys_from_spec() -> bool {
        true
    }

    open spec fn from_spec(arg: PriorityArg) -> Priority {
        priority_of_arg(arg)
    }
}

/// Display settings.
#[derive(Debug, Clone)]
pub struct UiConfig {
    pub no_color: bool,
    pub width: Option<u16>,
    pub help_text: Option<String>,
}

/// Settings of one interactive session.
#[derive(Debug, Clone)]
pub struct InteractionConfig {
    /// Longest wait for a key, in milliseconds.
    pub timeout_ms: Option<u64>,
    pub max_attempts: Option<u32>,
    pub default_value: Option<String>,
    pub mask_input: bool,
    pub require_confirmation: bool,
}

/// Bounds on how many choices a selection takes, from the options given: at least one by
/// default; at most the given maximum, else every choice when only a minimum was given,
/// else one.
pub fn choice_bounds(min_choices: Option<usize>, max_choices: Option<usize>, available: usize) -> (r: (usize, usize))
    ensures
        r.0 == match min_choices { Some(m) => m, None => 1 },
        r.1 == match max_choices {
            Some(m) => m,
            None => if min_choices is Some { available } else { 1 },
        },
{
    let min = match min_choices {
        Some(m) => m,
        None => 1,
    };
    let max = match max_choices {
        Some(m) => m,
        None => if min_choices.is_some() { available } else { 1 },
    };
    (min, max)
}

/// Pieces of `s` between the leftmost non-overlapping occurrences of a non-empty `sep`,
/// the current piece starting at `start` and the search resuming at `i`.
pub open spec fn pieces_from(s: Seq<char>, sep: Seq<char>, start: int, i: int) -> Seq<Seq<char>>
    decreases s.len() - i,
{
    if sep.len() == 0 || i < start || start < 0 || i + sep.len() > s.len() {
        seq![s.subrange(start, s.len() as int)]
    } else if s.subrange(i, i + sep.len()) == sep {
        seq![s.subrange(start, i)] + pieces_from(s, sep, i + sep.len(), i + sep.len())
    } else {
        pieces_from(s, sep, start, i + 1)
    }
}

/// What `str::split` gives for a separator: with an empty one, an empty piece, each
/// character, and another empty piece.
pub open spec fn split_text(s: Seq<char>, sep: Seq<char>) -> Seq<Seq<char>> {
    if sep.len() == 0 {
        seq![Seq::<char>::empty()] + Seq::new(s.len(), |i: int| seq![s[i]]) + seq![Seq::<char>::empty()]
    } else {
        pieces_from(s, sep, 0, 0)
    }
}

/// The choices that an option lists: split at the given separator, else at line breaks
/// when there are any, else at commas; trimmed, empty ones dropped.
pub open spec fn listed_choices(s: Seq<char>, sep: Option<Seq<char>>) -> Seq<Seq<char>> {
    nonempty_trimmed(split_text(s, match sep {
        Some(p) => p,
        None => if s.contains('\n') { seq!['\n'] } else { seq![','] },
    }))
}

fn split_chars(s: &Vec<char>, sep: &Vec<char>) -> (r: Vec<Vec<char>>)
    ensures
        char_views(r@) == split_text(s@, sep@),
{
    let mut out: Vec<Vec<char>> = Vec::new();
    if sep.len() == 0 {
        out.push(Vec::new());
        let mut k: usize = 0;
        while k < s.len()
            invariant
                k <= s.len(),
                char_views(out@) == seq![Seq::<char>::empty()] + Seq::new(k as nat, |j: int| seq![s@[j]]),
            decreases s.len() - k,
        {
            let mut one: Vec<char> = Vec::new();
            one.push(s[k]);
            assert(one@ =~= seq![s@[k as int]]);
            let ghost before = char_views(out@);
            out.push(one);
            proof {
                assert(char_views(out@) =~= before.push(seq![s@[k as int]]));
                assert(char_views(out@) =~= seq![Seq::<char>::empty()] + Seq::new((k + 1) as nat, |j: int| seq![s@[j]]));
            }
            k = k + 1;
        }
        out.push(Vec::new());
        proof {
            assert(char_views(out@) =~= split_text(s@, sep@));
        }
        return out;
    }
    let mut start: usize = 0;
    let mut i: usize = 0;
    let mut cur: Vec<char> = Vec::new();
    proof {
        assert(char_views(out@) + pieces_from(s@, sep@, 0, 0) =~= split_text(s@, sep@));
    }
    while sep.len() <= s.len() - i
        invariant
            sep.len() > 0,
            start <= i <= s.len(),
            cur@ == s@.subrange(start as int, i as int),
            char_views(out@) + pieces_from(s@, sep@, start as int, i as int) == split_text(s@, sep@),
        decreases s.len() - i,
    {
        let mut matched = true;
        let mut j: usize = 0;
        while j < sep.len()
            invariant
                i + sep.len() <= s.len(),
                j <= sep.len(),
                matched == (forall|m: int| 0 <= m < j ==> s@[i + m] == sep@[m]),
            decreases sep.len() - j,
        {
            if s[i + j] != sep[j] {
                matched = false;
            }
            j = j + 1;
        }
        proof {
            if matched {
                assert(s@.subrange(i as int, i + sep.len()) =~= sep@);
            } else {
                let w = choose|m: int| 0 <= m < sep.len() && s@[i + m] != sep@[m];
                assert(s@.subrange(i as int, i + sep.len())[w] != sep@[w]);
            }
        }
        if matched {
            let ghost before = char_views(out@);
            let piece = cur;
            out.push(piece);
            proof {
                assert(char_views(out@) =~= before.push(s@.subrange(start as int, i as int)));
                assert(before + pieces_from(s@, sep@, start as int, i as int)
                    =~= char_views(out@) + pieces_from(s@, sep@, i + sep.len(), i + sep.len()));
            }
            i = i + sep.len();
            start = i;
            cur = Vec::new();
            proof {
                assert(cur@ =~= s@.subrange(start as int, i as int));
            }
        } else {
            cur.push(s[i]);
            proof {
                assert(cur@ =~= s@.subrange(start as int, i + 1));
            }
            i = i + 1;
        }
    }
    let ghost before = char_views(out@);
    let mut k: usize = i;
    while k < s.len()
        invariant
            start <= i <= k <= s.len(),
            cur@ == s@.subrange(start as int, k as int),
        decreases s.len() - k,
    {
        cur.push(s[k]);
        proof {
            assert(cur@ =~= s@.subrange(start as int, k + 1));
        }
        k = k + 1;
    }
    out.push(cur);
    proof {
        assert(char_views(out@) =~= before.push(s@.subrange(start as int, s.len() as int)));
        assert(pieces_from(s@, sep@, start as int, i as int) == seq![s@.subrange(start as int, s.len() as int)]);
        assert(char_views(out@) =~= before + pieces_from(s@, sep@, start as int, i as int));
    }
    out
}

fn has_line_break(s: &Vec<char>) -> (r: bool)
    ensures
        r == s@.contains('\n'),
{
    let mut i: usize = 0;
    while i < s.len()
        invariant
            i <= s.len(),
            forall|j: int| 0 <= j < i ==> s@[j] != '\n',
        decreases s.len() - i,
    {
        if s[i] == '\n' {
            return true;
        }
        i = i + 1;
    }
    false
}

/// Reads the list of choices given on the command line.
pub fn parse_choices(choices: &str, separator: Option<&str>) -> (r: Vec<String>)
    ensures
        r@.map_values(|c: String| c@) == listed_choices(choices@, match separator {
            Some(p) => Some(p@),
            None => None,
        }),
{
    let cs = chars_of(choices);
    let sep: Vec<char> = match separator {
        Some(p) => chars_of(p),
        None => {
            let mut v: Vec<char> = Vec::new();
            if has_line_break(&cs) {
                v.push('\n');
            } else {
                v.push(',');
            }
            proof {
                if cs@.contains('\n') {
                    assert(v@ =~= seq!['\n']);
                } else {
                    assert(v@ =~= seq![',']);
                }
            }
            v
        },
    };
    let pieces = split_chars(&cs, &sep);
    let ghost ps = char_views(pieces@);
    let mut out: Vec<String> = Vec::new();
    let mut i: usize = 0;
    proof {
        assert(ps.subrange(0, 0) =~= Seq::<Seq<char>>::empty());
        assert(out@.map_values(|c: String| c@) =~= Seq::<Seq<char>>::empty());
    }
    while i < pieces.len()
        invariant
            i <= pieces.len(),
            ps == char_views(pieces@),
            out@.map_values(|c: String| c@) == nonempty_trimmed(ps.subrange(0, i as int)),
        decreases pieces.len() - i,
    {
        let t = trim_chars(&pieces[i]);
        proof {
            assert(ps.subrange(0, i + 1).drop_last() =~= ps.subrange(0, i as int));
            assert(ps.subrange(0, i + 1).last() == pieces@[i as int]@);
        }
        if t.len() > 0 {
            let ghost before = out@.map_values(|c: String| c@);
            out.push(string_of(t.as_slice()));
            proof {
                assert(out@.map_values(|c: String| c@) =~= before.push(t@));
            }
        }
        i = i + 1;
    }
    proof {
        assert(ps.subrange(0, ps.len() as int) =~= ps);
    }
    out
}

} // verus!
