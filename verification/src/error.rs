//! Errors surfaced by rendering and by the surrounding pipeline.

use vstd::prelude::*;

verus! {

use crate::text::{push_str, string_of};

/// Errors surfaced by this crate.
#[derive(Debug)]
pub enum RipdocError {
    /// The configured path filter matched no item anywhere in the traversal.
    /// Carries the offending filter.
    FilterNotMatched(Vec<char>),
    /// A failure reported while acquiring or processing input, with its
    /// message.
    Generate(String),
}

impl RipdocError {
    /// A user-facing message for the error.
    pub fn message(&self) -> (r: String)
        ensures
            match self {
                RipdocError::FilterNotMatched(f) => r@ == "filter path '"@ + f@
                    + "' did not match any items"@,
                RipdocError::Generate(m) => r@ == m@,
            },
    {
        match self {
            RipdocError::FilterNotMatched(f) => {
                let mut out = crate::syntax::lit("filter path '");
                push_str(&mut out, string_of(f).as_str());
                push_str(&mut out, "' did not match any items");
                proof {
                    assert(out@ =~= "filter path '"@ + f@ + "' did not match any items"@);
                }
                out
            },
            RipdocError::Generate(m) => {
                let mut out = String::new();
                push_str(&mut out, m.as_str());
                proof {
                    assert(out@ =~= m@);
                }
                out
            },
        }
    }
}

} // verus!
