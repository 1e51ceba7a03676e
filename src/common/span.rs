use vstd::prelude::*;
use vstd::string::*;

verus! {

/// A half-open range of character (Unicode scalar value) offsets into a source text.
#[derive(Clone, Copy, Debug, PartialEq, Eq, Structural)]
pub struct Span {
    pub start: usize,
    pub end: usize,
}

impl Span {
    pub fn new(start: usize, end: usize) -> (r: Span)
        ensures
            r.start == start,
            r.end == end,
    {
        Span { start, end }
    }

    /// The characters of `string` that this span covers.
    pub fn slice(self, string: &str) -> (r: &str)
        requires
            self.start <= self.end <= string@.len(),
        ensures
            r@ == string@.subrange(self.start as int, self.end as int),
    {
        string.substring_char(self.start, self.end)
    }
}

} // verus!
