use vstd::prelude::*;
use crate::text::{lower_of, to_lower};

verus! {

/// Severity of a validation rule; `Critical` is the most severe and sorts first.
#[derive(Debug, Clone, Copy, PartialEq, Eq, Structural, PartialOrd, Ord, Hash)]
pub enum Priority {
    Critical,
    High,
    Medium,
    Low,
}

/// The priority that a lower-case name denotes, if any.
pub open spec fn priority_named(s: Seq<char>) -> Option<Priority> {
    if s == "critical"@ {
        Some(Priority::Critical)
    } else if s == "high"@ {
        Some(Priority::High)
    } else if s == "medium"@ {
        Some(Priority::Medium)
    } else if s == "low"@ {
        Some(Priority::Low)
    } else {
        None
    }
}

impl Priority {
    /// Position in the severity order: 0 for `Critical` up to 3 for `Low`.
    pub open spec fn rank(self) -> nat {
        match self {
            Priority::Critical => 0,
            Priority::High => 1,
            Priority::Medium => 2,
            Priority::Low => 3,
        }
    }

    pub open spec fn name_spec(self) -> Seq<char> {
        match self {
            Priority::Critical => "critical"@,
            Priority::High => "high"@,
            Priority::Medium => "medium"@,
            Priority::Low => "low"@,
        }
    }

    /// Executable form of `rank`.
    pub fn level(&self) -> (r: u8)
        ensures
            r as nat == self.rank(),
    {
        match self {
            Priority::Critical => 0,
            Priority::High => 1,
            Priority::Medium => 2,
            Priority::Low => 3,
        }
    }

    /// Reads a priority name, ignoring case.
    pub fn from_str(s: &str) -> (r: Option<Priority>)
        ensures
            r == priority_named(lower_of(s@)),
    {
        let lowered = to_lower(s);
        if lowered == String::from_str("critical") {
            Some(Priority::Critical)
        } else if lowered == String::from_str("high") {
            Some(Priority::High)
        } else if lowered == String::from_str("medium") {
            Some(Priority::Medium)
        } else if lowered == String::from_str("low") {
            Some(Priority::Low)
        } else {
            None
        }
    }

    pub fn as_str(&self) -> (r: &'static str)
        ensures
            r@ == self.name_spec(),
    {
        match self {
            Priority::Critical => "critical",
            Priority::High => "high",
            Priority::Medium => "medium",
            Priority::Low => "low",
        }
    }

    pub open spec fn icon_spec(self) -> Seq<char> {
        match self {
            Priority::Critical | Priority::High => "❌"@,
            Priority::Medium => "⚠️"@,
            Priority::Low => "💡"@,
        }
    }

    /// Marker shown beside a message of this priority.
    pub fn icon(&self) -> (r: &'static str)
        ensures
            r@ == self.icon_spec(),
    {
        match self {
            Priority::Critical | Priority::High => "❌",
            Priority::Medium => "⚠️",
            Priority::Low => "💡",
        }
    }

    /// `self` is at least as severe as `other`.
    pub fn at_least_as_severe(&self, other: &Priority) -> (r: bool)
        ensures
            r == (self.rank() <= other.rank()),
    {
        self.level() <= other.level()
    }
}

impl Default for Priority {
    fn default() -> (r: Priority)
        ensures
            r == Priority::Medium,
    {
        Priority::Medium
    }
}

} // verus!
