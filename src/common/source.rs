use vstd::prelude::*;

verus! {

/// A program text and the name it came from.
#[derive(Debug)]
pub struct Source {
    pub code: String,
    pub path: String,
}

impl Clone for Source {
    fn clone(&self) -> (r: Self)
        ensures
            r == *self,
    {
        Source { code: self.code.clone(), path: self.path.clone() }
    }
}

} // verus!
