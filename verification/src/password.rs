//! A typed credential and the rule for accepting typed input.

use vstd::prelude::*;

use crate::text::{is_blank, spec_trim};

verus! {

pub struct Password(pub String);

impl Password {
    /// The prompt loop's acceptance rule: input that trims to nothing is
    /// refused and the prompt repeats.
    pub fn is_acceptable(text: &str) -> (b: bool)
        ensures
            b == (spec_trim(text@).len() > 0),
    {
        !is_blank(text)
    }
}

} // verus!
