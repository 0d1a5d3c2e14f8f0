//! Plain renderings of a finished summary.
use vstd::prelude::*;
use crate::summary::ValidationSummary;

verus! {

/// Prints the value when it is valid, and nothing otherwise.
#[derive(Debug, Clone, Copy)]
pub struct DefaultFormatter;

/// Prints the value whatever the verdict.
#[derive(Debug, Clone, Copy)]
pub struct RawFormatter;

impl DefaultFormatter {
    pub fn format(&self, summary: &ValidationSummary) -> (r: String)
        ensures
            summary.valid ==> r@ == summary.value@,
            !summary.valid ==> r@ == Seq::<char>::empty(),
    {
        if summary.valid {
            summary.value.clone()
        } else {
            String::new()
        }
    }
}

impl RawFormatter {
    pub fn format(&self, summary: &ValidationSummary) -> (r: String)
        ensures
            r@ == summary.value@,
    {
        summary.value.clone()
    }
}

} // verus!
