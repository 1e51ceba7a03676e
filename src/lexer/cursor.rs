use vstd::prelude::*;
use vstd::string::*;

use crate::common::source::Source;
use crate::common::span::Span;

verus! {

/// A piece of source text together with the span it was cut from.
#[derive(Debug)]
pub struct Chunk {
    pub data: String,
    pub span: Span,
}

impl Clone for Chunk {
    fn clone(&self) -> (r: Self)
        ensures
            r == *self,
    {
        Chunk { data: self.data.clone(), span: self.span }
    }
}

impl Chunk {
    pub fn new(data: String, span: Span) -> (r: Chunk)
        ensures
            r.data == data,
            r.span == span,
    {
        Chunk { data, span }
    }
}

/// The characters of `s` from offset `start` up to offset `end`, counted in
/// characters rather than bytes.
pub fn utf8_slice(s: &str, start: usize, end: usize) -> (r: &str)
    requires
        start <= end <= s@.len(),
    ensures
        r@ == s@.subrange(start as int, end as int),
{
    s.substring_char(start, end)
}

/// Walks a source text one character at a time, remembering where the run
/// that is being grown began.
#[derive(Debug)]
pub struct Cursor {
    pub start: usize,
    pub current: usize,
    pub length: usize,
    pub input: Source,
}

impl Cursor {
    /// The characters being walked.
    pub open spec fn text(&self) -> Seq<char> {
        self.input.code@
    }

    /// Where the run that is being grown began.
    pub open spec fn anchor(&self) -> int {
        self.start as int
    }

    /// The offset of the next character.
    pub open spec fn position(&self) -> int {
        self.current as int
    }

    pub open spec fn wf(&self) -> bool {
        &&& self.start <= self.current <= self.length
        &&& self.length == self.input.code@.len()
    }

    pub fn new(input: Source) -> (r: Cursor)
        ensures
            r.wf(),
            r.input == input,
            r.anchor() == 0,
            r.position() == 0,
    {
        let length = input.code.as_str().unicode_len();
        Cursor { start: 0, current: 0, length, input }
    }

    /// Steps over the next character.
    pub fn next(&mut self)
        requires
            old(self).wf(),
            old(self).position() < old(self).text().len(),
        ensures
            final(self).wf(),
            final(self).input == old(self).input,
            final(self).anchor() == old(self).anchor(),
            final(self).position() == old(self).position() + 1,
    {
        self.current = self.current + 1;
    }

    /// The next character.
    pub fn peek(&self) -> (c: char)
        requires
            self.wf(),
            self.position() < self.text().len(),
        ensures
            c == self.text()[self.position()],
    {
        self.input.code.as_str().get_char(self.current)
    }

    /// The span of the run grown so far.
    pub fn span(&self) -> (r: Span)
        requires
            self.wf(),
        ensures
            r.start == self.anchor(),
            r.end == self.position(),
    {
        Span { start: self.start, end: self.current }
    }

    /// Cuts the run grown so far and starts a new, empty one.
    pub fn chunk(&mut self) -> (r: Chunk)
        requires
            old(self).wf(),
        ensures
            final(self).wf(),
            final(self).input == old(self).input,
            final(self).position() == old(self).position(),
            final(self).anchor() == old(self).position(),
            r.span.start == old(self).anchor(),
            r.span.end == old(self).position(),
            r.data@ == old(self).text().subrange(old(self).anchor(), old(self).position()),
    {
        let span = self.span();
        let data = utf8_slice(self.input.code.as_str(), span.start, span.end).to_owned();
        self.clear();
        Chunk::new(data, span)
    }

    /// The character `lookup_amount` places after the next one, if the text
    /// reaches that far.
    pub fn lookup(&self, lookup_amount: usize) -> (r: Option<char>)
        requires
            self.wf(),
        ensures
            self.position() + lookup_amount < self.text().len() ==> r == Some(
                self.text()[self.position() + lookup_amount],
            ),
            self.position() + lookup_amount >= self.text().len() ==> r is None,
    {
        if lookup_amount < self.length - self.current {
            Some(self.input.code.as_str().get_char(self.current + lookup_amount))
        } else {
            None
        }
    }

    /// Starts a new, empty run at the current position.
    pub fn clear(&mut self)
        requires
            old(self).wf(),
        ensures
            final(self).wf(),
            final(self).input == old(self).input,
            final(self).position() == old(self).position(),
            final(self).anchor() == old(self).position(),
    {
        self.start = self.current;
    }

    /// Whether every character has been stepped over.
    pub fn eof(&self) -> (r: bool)
        requires
            self.wf(),
        ensures
            r == (self.position() >= self.text().len()),
    {
        self.current >= self.length
    }
}

} // verus!
