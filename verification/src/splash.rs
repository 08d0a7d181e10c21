use vstd::prelude::*;

verus! {

/// The splash texts, one per line of the splash file.
#[derive(Clone, Debug)]
pub struct Splashes(pub Vec<String>);

/// `rand::seq::IndexedRandom::choose` with the thread-local generator: one of the lines,
/// picked at random; never `None` on a slice that is not empty.
#[verifier::external_body]
fn pick_line(lines: &[String]) -> (r: &String)
    requires
        lines@.len() > 0,
    ensures
        lines@.contains(*r),
{
    rand::seq::IndexedRandom::choose(lines, &mut rand::rng()).unwrap()
}

impl Splashes {
    /// The splash texts of the given lines.
    pub fn from_lines(lines: Vec<String>) -> (r: Splashes)
        ensures
            r.0@ == lines@,
    {
        Splashes(lines)
    }

    /// One of the splash texts, picked at random.
    pub fn choose_splash(&self) -> (r: &String)
        requires
            self.0@.len() > 0,
        ensures
            exists|i: int| 0 <= i < self.0@.len() && self.0@[i] == *r,
    {
        let lines = self.0.as_slice();
        let r = pick_line(lines);
        assert(lines@ == self.0@);
        r
    }
}

} // verus!
