use vstd::prelude::*;

verus! {

/// What to do on a failure to sniff one file's format.
#[derive(Clone, Copy, Debug, PartialEq, Eq)]
pub enum SniffPolicy {
    /// Abort the whole run.
    Strict,
    /// Warn, skip that file and go on with the next.
    Lenient,
}

impl SniffPolicy {
    /// Whether a sniffing failure only skips the file at hand.
    pub fn skips_failures(&self) -> (r: bool)
        ensures
            r == (*self is Lenient),
    {
        match self {
            SniffPolicy::Strict => false,
            SniffPolicy::Lenient => true,
        }
    }
}

/// The images to check, and whether to rename those that are misnamed.
#[derive(Clone, Debug)]
pub struct Args {
    pub images: Vec<String>,
    pub force: bool,
}

impl Args {
    /// The image paths, in the order given.
    pub fn paths(&self) -> (r: Vec<&str>)
        ensures
            r@.len() == self.images@.len(),
            forall|i: int| 0 <= i < r@.len() ==> (#[trigger] r@[i])@ == self.images@[i]@,
    {
        let mut r: Vec<&str> = Vec::new();
        let mut i: usize = 0;
        while i < self.images.len()
            invariant
                i <= self.images@.len(),
                r@.len() == i,
                forall|k: int| 0 <= k < i ==> (#[trigger] r@[k])@ == self.images@[k]@,
            decreases self.images@.len() - i,
        {
            r.push(self.images[i].as_str());
            i = i + 1;
        }
        r
    }
}

} // verus!
