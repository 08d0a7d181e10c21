use vstd::prelude::*;

verus! {

/// The languages that pages are shown in.
#[derive(Debug, PartialEq, Eq, Clone, Copy, Structural)]
pub enum Language {
    Swedish,
    English,
}

} // verus!
