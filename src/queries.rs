//! Query sources of a language.
use vstd::prelude::*;

verus! {

/// The query sources of one language; an absent source means that the
/// language has no such query.
#[derive(Debug)]
pub struct Queries {
    pub highlights: Option<String>,
    pub injections: Option<String>,
    pub locals: Option<String>,
    pub text_objects: Option<String>,
}

} // verus!
