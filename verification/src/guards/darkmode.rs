use vstd::prelude::*;

verus! {

/// Whether the darkmode is on.
pub struct Darkmode(pub bool);

impl Darkmode {
    pub fn on(&self) -> (r: bool)
        ensures
            r == self.0,
    {
        self.0
    }
}

/// Where the darkmode setting comes from.
#[derive(Debug, PartialEq, Eq, Clone, Copy, Structural)]
pub enum DarkmodeSource {
    /// The configuration fixes it.
    Fixed(bool),
    /// The configured URL answers whether it is on.
    Ask,
}

/// The source that the configured darkmode URL names: `yes` and `no` fix the answer, any
/// other value is a URL to ask.
pub fn darkmode_source(darkmode_url: &str) -> (r: DarkmodeSource)
    ensures
        r == (if darkmode_url@ == "yes"@ {
            DarkmodeSource::Fixed(true)
        } else if darkmode_url@ == "no"@ {
            DarkmodeSource::Fixed(false)
        } else {
            DarkmodeSource::Ask
        }),
{
    let s = String::from_str(darkmode_url);
    if s.eq(&String::from_str("yes")) {
        DarkmodeSource::Fixed(true)
    } else if s.eq(&String::from_str("no")) {
        DarkmodeSource::Fixed(false)
    } else {
        DarkmodeSource::Ask
    }
}

} // verus!
