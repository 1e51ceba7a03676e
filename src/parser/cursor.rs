use vstd::prelude::*;

use crate::common::error::{Diagnostic, Error, ErrorKind};
use crate::common::source::Source;
use crate::common::span::Span;
use crate::lexer::{items, lexemes};
use crate::lexer::token::{Lexeme, Token, TokenKind};
use crate::lexer::Lexer;
use crate::parser::grammar::{
    advance, check, expect, lookahead, skip_if, take, At, Parsed, Stream,
};

verus! {

/// Whether `r` is the outcome `expected` predicts, given that the parser
/// then stands at `after`.
pub open spec fn agrees<T, V>(
    r: Result<T, Box<Error>>,
    expected: Parsed<V>,
    view: spec_fn(T) -> V,
    after: At,
) -> bool {
    match (r, expected) {
        (Ok(x), Ok((v, at))) => view(x) == v && after == at,
        (Err(e), Err(d)) => e@ == d,
        _ => false,
    }
}

/// The mathematical form of one item read from a source.
pub open spec fn item_view(x: Result<Token, Box<Error>>) -> Result<Lexeme, Diagnostic> {
    match x {
        Ok(t) => Ok(t@),
        Err(e) => Err(e@),
    }
}

fn copy_item(x: &Result<Token, Box<Error>>) -> (r: Result<Token, Box<Error>>)
    ensures
        item_view(r) == item_view(*x),
        r matches Ok(t) ==> x matches Ok(u) && t == u,
        r matches Err(e) ==> x matches Err(f) && e.source == f.source,
{
    match x {
        Ok(token) => Ok(token.clone()),
        Err(error) => Err(Box::new((**error).clone())),
    }
}

/// The tokens of a source, read ahead, with one-token lookahead and the span
/// covered by the tokens taken since the last reset.
#[derive(Debug)]
pub struct Cursor {
    pub tokens: Vec<Token>,
    pub failure: Option<Box<Error>>,
    pub later: Vec<Result<Token, Box<Error>>>,
    pub position: usize,
    pub source: Source,
    pub current_span: Option<Span>,
}

impl Cursor {
    pub open spec fn stream(&self) -> Stream {
        Stream {
            text: self.source.code@,
            lexemes: self.tokens@.map_values(|t: Token| t@),
            failure: match self.failure {
                Some(e) => Some(e@),
                None => None,
            },
        }
    }

    /// Every item read from the source: the tokens up to the first failure,
    /// that failure, and the items read after it.
    pub open spec fn items(&self) -> Seq<Result<Lexeme, Diagnostic>> {
        self.tokens@.map_values(|t: Token| Ok::<Lexeme, Diagnostic>(t@)) + match self.failure {
            Some(e) => seq![Err::<Lexeme, Diagnostic>(e@)] + self.later@.map_values(
                |x: Result<Token, Box<Error>>| item_view(x),
            ),
            None => seq![],
        }
    }

    pub open spec fn at(&self) -> At {
        At { index: self.position as int, span: self.current_span }
    }

    pub open spec fn wf(&self) -> bool {
        &&& self.position <= self.tokens.len()
        &&& forall|k: int|
            0 <= k < self.tokens.len() ==> (#[trigger] self.tokens@[k]).lies_in(self.source.code@)
        &&& self.failure matches Some(e) ==> e.source == self.source
        &&& forall|k: int|
            0 <= k < self.later.len() ==> match #[trigger] self.later@[k] {
                Ok(t) => t.lies_in(self.source.code@),
                Err(e) => e.source == self.source,
            }
        &&& self.position > 0 ==> (self.current_span matches Some(sp) && sp.end
            == self.tokens@[self.position - 1].chunk.span.end)
    }

    /// Where the last token taken ends.
    pub fn last_end(&self) -> (r: usize)
        requires
            self.wf(),
            self.position > 0,
        ensures
            r == self.tokens@[self.position - 1].chunk.span.end,
            r == crate::parser::grammar::last_end(self.stream(), self.at()),
    {
        match self.current_span {
            Some(span) => span.end,
            None => 0,
        }
    }

    /// Reads every item `lexer` has left; `source` is the text it reads.
    /// The parser reads the tokens up to the first failure; looking ahead
    /// sees the items after it too.
    pub fn new(lexer: Lexer, source: Source) -> (r: Cursor)
        requires
            lexer.wf(),
            lexer.source() == source,
        ensures
            r.wf(),
            r.source == source,
            r.stream().text == source.code@,
            r.stream().lexemes == lexemes(lexer.text(), lexer.position()).0,
            r.stream().failure == lexemes(lexer.text(), lexer.position()).1,
            r.items() == items(lexer.text(), lexer.position()),
            r.position == 0,
            r.current_span is None,
    {
        let mut lexer = lexer;
        proof {
            lexer.lemma_wf();
        }
        let ghost s = lexer.text();
        let ghost from = lexer.position();
        let mut tokens: Vec<Token> = Vec::new();
        let mut failure: Option<Box<Error>> = None;
        let mut later: Vec<Result<Token, Box<Error>>> = Vec::new();
        loop
            invariant_except_break
                ({
                    let c = Cursor {
                        tokens: tokens,
                        failure: failure,
                        later: later,
                        position: 0,
                        source: source,
                        current_span: None,
                    };
                    c.items() + items(s, lexer.position()) == items(s, from)
                }),
                failure is None ==> tokens@.map_values(|t: Token| t@) + lexemes(
                    s,
                    lexer.position(),
                ).0 == lexemes(s, from).0 && lexemes(s, lexer.position()).1 == lexemes(s, from).1,
            invariant
                lexer.wf(),
                lexer.source() == source,
                s == lexer.text(),
                s == source.code@,
                0 <= lexer.position() <= s.len(),
                failure is None ==> later@.len() == 0,
                failure matches Some(e) ==> tokens@.map_values(|t: Token| t@) == lexemes(s, from).0
                    && lexemes(s, from).1 == Some(e@),
                forall|k: int| 0 <= k < tokens@.len() ==> (#[trigger] tokens@[k]).lies_in(s),
                failure matches Some(e) ==> e.source == source,
                forall|k: int|
                    0 <= k < later.len() ==> match #[trigger] later@[k] {
                        Ok(t) => t.lies_in(s),
                        Err(e) => e.source == source,
                    },
            ensures
                ({
                    let c = Cursor {
                        tokens: tokens,
                        failure: failure,
                        later: later,
                        position: 0,
                        source: source,
                        current_span: None,
                    };
                    c.items() == items(s, from)
                }),
                failure is None ==> tokens@.map_values(|t: Token| t@) == lexemes(s, from).0
                    && lexemes(s, from).1 is None,
            decreases s.len() - lexer.position(),
        {
            let ghost before = lexer.position();
            let ghost c0 = Cursor {
                tokens: tokens,
                failure: failure,
                later: later,
                position: 0,
                source: source,
                current_span: None,
            };
            proof {
                crate::lexer::lemma_next_lexeme_progress(s, before);
                crate::lexer::lemma_failure_moves(s, before);
            }
            let item = lexer.next();
            proof {
                lexer.lemma_wf();
            }
            match item {
                None => {
                    assert(tokens@.map_values(|t: Token| t@) =~= lexemes(s, from).0);
                    assert(c0.items() =~= items(s, from));
                    break;
                },
                Some(Ok(t)) => {
                    let ghost old_tokens = tokens@;
                    let ghost old_later = later@;
                    if failure.is_none() {
                        tokens.push(t);
                        assert(tokens@.map_values(|t: Token| t@) =~= old_tokens.map_values(
                            |t: Token| t@,
                        ).push(t@));
                        assert(lexemes(s, before).0 =~= seq![t@] + lexemes(s, lexer.position()).0);
                        assert(tokens@.map_values(|t: Token| t@) + lexemes(s, lexer.position()).0
                            =~= old_tokens.map_values(|t: Token| t@) + lexemes(s, before).0);
                    } else {
                        later.push(Ok(t));
                        assert(later@.map_values(|x: Result<Token, Box<Error>>| item_view(x))
                            =~= old_later.map_values(|x: Result<Token, Box<Error>>| item_view(x)).push(
                            Ok(t@),
                        ));
                    }
                    let ghost c1 = Cursor {
                        tokens: tokens,
                        failure: failure,
                        later: later,
                        position: 0,
                        source: source,
                        current_span: None,
                    };
                    assert(items(s, before) =~= seq![Ok(t@)] + items(s, lexer.position()));
                    assert(c1.items() =~= c0.items().push(Ok(t@)));
                    assert(c1.items() + items(s, lexer.position()) =~= c0.items() + items(s, before));
                },
                Some(Err(x)) => {
                    let moving = match x.kind {
                        ErrorKind::UnexpectedCharacter => true,
                        _ => false,
                    };
                    let ghost old_later = later@;
                    let ghost d = x@;
                    if failure.is_none() {
                        assert(tokens@.map_values(|t: Token| t@) =~= lexemes(s, from).0);
                        failure = Some(x);
                    } else {
                        later.push(Err(x));
                        assert(later@.map_values(|x: Result<Token, Box<Error>>| item_view(x))
                            =~= old_later.map_values(|x: Result<Token, Box<Error>>| item_view(x)).push(
                            Err(d),
                        ));
                    }
                    let ghost c1 = Cursor {
                        tokens: tokens,
                        failure: failure,
                        later: later,
                        position: 0,
                        source: source,
                        current_span: None,
                    };
                    assert(c1.items() =~= c0.items().push(Err(d)));
                    if !moving {
                        assert(items(s, before) =~= seq![Err(d)]);
                        assert(c1.items() =~= items(s, from));
                        break;
                    }
                    assert(items(s, before) =~= seq![Err(d)] + items(s, lexer.position()));
                    assert(c1.items() + items(s, lexer.position()) =~= c0.items() + items(s, before));
                },
            }
        }
        Cursor { tokens, failure, later, position: 0, source, current_span: None }
    }

    fn end_of_input(&self) -> (r: Box<Error>)
        ensures
            r@.fault == crate::common::error::Fault::UnexpectedEndOfInput,
            r@.span == match self.current_span {
                Some(sp) => sp,
                None => Span { start: 0, end: 0 },
            },
            r.source == self.source,
    {
        let span = match self.current_span {
            Some(span) => span,
            None => Span::new(0, 0),
        };
        Box::new(Error::new(ErrorKind::UnexpectedEndOfInput, span, self.source.clone()))
    }

    /// The next token, or why there is none.
    pub fn peek(&self) -> (r: Result<&Token, Box<Error>>)
        requires
            self.wf(),
        ensures
            match (r, lookahead(self.stream(), self.at())) {
                (Ok(t), Ok(l)) => t@ == l && t.lies_in(self.source.code@),
                (Err(e), Err(d)) => e@ == d && e.source == self.source,
                _ => false,
            },
    {
        if self.position < self.tokens.len() {
            Ok(&self.tokens[self.position])
        } else {
            match &self.failure {
                Some(error) => Err(Box::new((**error).clone())),
                None => Err(self.end_of_input()),
            }
        }
    }

    fn update_span(&mut self, new_span: Span)
        ensures
            final(self).current_span == match old(self).current_span {
                Some(span) => Some(Span { start: span.start, end: new_span.end }),
                None => Some(new_span),
            },
            final(self).tokens == old(self).tokens,
            final(self).failure == old(self).failure,
            final(self).later == old(self).later,
            final(self).position == old(self).position,
            final(self).source == old(self).source,
    {
        match self.current_span {
            Some(span) => self.current_span = Some(Span::new(span.start, new_span.end)),
            None => self.current_span = Some(new_span),
        }
    }

    /// Takes the next token.
    pub fn next_token(&mut self) -> (r: Result<Token, Box<Error>>)
        requires
            old(self).wf(),
        ensures
            final(self).wf(),
            final(self).stream() == old(self).stream(),
            final(self).source == old(self).source,
            final(self).tokens == old(self).tokens,
            agrees(r, take(old(self).stream(), old(self).at()), |t: Token| t@, final(self).at()),
            r matches Ok(t) ==> t.lies_in(old(self).source.code@),
            r matches Err(e) ==> e.source == old(self).source,
            r is Err ==> final(self).at() == old(self).at(),
    {
        if self.position < self.tokens.len() {
            let token = self.tokens[self.position].clone();
            self.position = self.position + 1;
            self.update_span(token.chunk.span);
            proof {
                assert(self.tokens@.map_values(|t: Token| t@)[self.position - 1] == token@);
            }
            Ok(token)
        } else {
            match &self.failure {
                Some(error) => Err(Box::new((**error).clone())),
                None => Err(self.end_of_input()),
            }
        }
    }

    /// Whether the next token is of class `kind`; a failure counts as no.
    pub fn test(&self, kind: TokenKind) -> (r: bool)
        requires
            self.wf(),
        ensures
            r == check(self.stream(), self.at(), kind),
    {
        match self.peek() {
            Ok(token) => token.kind == kind,
            Err(_) => false,
        }
    }

    /// Takes the next token, and says whether it was of class `kind`.
    pub fn test_and_next(&mut self, kind: TokenKind) -> (r: Result<bool, Box<Error>>)
        requires
            old(self).wf(),
        ensures
            final(self).wf(),
            final(self).stream() == old(self).stream(),
            final(self).source == old(self).source,
            final(self).tokens == old(self).tokens,
            match take(old(self).stream(), old(self).at()) {
                Ok((_, a)) => r == Ok::<bool, Box<Error>>(
                    check(old(self).stream(), old(self).at(), kind),
                ) && final(self).at() == a,
                Err(d) => r matches Err(e) && e@ == d,
            },
    {
        if self.test(kind) {
            self.next_token()?;
            Ok(true)
        } else {
            self.next_token()?;
            Ok(false)
        }
    }

    /// Takes the next token if it is of class `kind`, and says whether it did.
    pub fn optional(&mut self, kind: TokenKind) -> (r: Result<bool, Box<Error>>)
        requires
            old(self).wf(),
        ensures
            final(self).wf(),
            final(self).stream() == old(self).stream(),
            final(self).source == old(self).source,
            final(self).tokens == old(self).tokens,
            r == Ok::<bool, Box<Error>>(skip_if(old(self).stream(), old(self).at(), kind).0),
            final(self).at() == skip_if(old(self).stream(), old(self).at(), kind).1,
    {
        if self.test(kind) {
            self.next_token()?;
            Ok(true)
        } else {
            Ok(false)
        }
    }

    /// The item `lookup_amount` places after the next one: a token or a
    /// failure. Past the last item there is nothing, unless the reading
    /// ended on a failure that moves nothing, which then comes again and again.
    pub fn lookup(&self, lookup_amount: usize) -> (r: Option<Result<Token, Box<Error>>>)
        requires
            self.wf(),
        ensures
            ({
                let all = self.items();
                let k = self.position + lookup_amount;
                if k < all.len() {
                    r matches Some(x) && item_view(x) == all[k]
                } else if all.len() > 0 && (all.last() matches Err(d)
                    && d.fault is UnexpectedEndOfInput) {
                    r matches Some(x) && item_view(x) == all.last()
                } else {
                    r is None
                }
            }),
            r matches Some(Ok(t)) ==> t.lies_in(self.source.code@),
            r matches Some(Err(e)) ==> e.source == self.source,
    {
        let ghost all = self.items();
        let ghost oks = self.tokens@.map_values(|t: Token| Ok::<Lexeme, Diagnostic>(t@));
        let ghost rest = self.later@.map_values(|x: Result<Token, Box<Error>>| item_view(x));
        let remaining = self.tokens.len() - self.position;
        if lookup_amount < remaining {
            assert(all[self.position + lookup_amount] == oks[self.position + lookup_amount]);
            return Some(Ok(self.tokens[self.position + lookup_amount].clone()));
        }
        match &self.failure {
            None => {
                assert(all =~= oks);
                None
            },
            Some(error) => {
                let m = lookup_amount - remaining;
                if m == 0 {
                    assert(all[self.tokens.len() as int] == Err::<Lexeme, Diagnostic>(error@));
                    Some(Err(Box::new((**error).clone())))
                } else if m - 1 < self.later.len() {
                    assert(all[self.tokens.len() + m] == rest[m - 1]);
                    Some(copy_item(&self.later[m - 1]))
                } else if self.later.len() == 0 {
                    assert(all.last() == Err::<Lexeme, Diagnostic>(error@));
                    match error.kind {
                        ErrorKind::UnexpectedEndOfInput => Some(Err(Box::new((**error).clone()))),
                        _ => None,
                    }
                } else {
                    let last = self.later.len() - 1;
                    assert(all.last() == rest[last as int]);
                    match &self.later[last] {
                        Err(e) => match e.kind {
                            ErrorKind::UnexpectedEndOfInput => Some(Err(Box::new((**e).clone()))),
                            _ => None,
                        },
                        Ok(_) => None,
                    }
                }
            },
        }
    }

    /// Resets the running span to an empty one at its end.
    pub fn clear(&mut self)
        requires
            old(self).wf(),
        ensures
            final(self).wf(),
            final(self).stream() == old(self).stream(),
            final(self).source == old(self).source,
            final(self).tokens == old(self).tokens,
            final(self).position == old(self).position,
            final(self).current_span == match old(self).current_span {
                Some(span) => Some(Span { start: span.end, end: span.end }),
                None => Some(Span { start: 0, end: 0 }),
            },
    {
        match self.current_span {
            Some(span) => self.current_span = Some(Span::new(span.end, span.end)),
            None => self.current_span = Some(Span::new(0, 0)),
        }
    }

    /// Takes the next token, which must be of class `kind`.
    pub fn consume(&mut self, kind: TokenKind) -> (r: Result<Token, Box<Error>>)
        requires
            old(self).wf(),
        ensures
            final(self).wf(),
            final(self).stream() == old(self).stream(),
            final(self).source == old(self).source,
            final(self).tokens == old(self).tokens,
            agrees(r, expect(old(self).stream(), old(self).at(), kind), |t: Token| t@, final(self).at()),
            r matches Ok(t) ==> t.lies_in(old(self).source.code@),
            r matches Err(e) ==> e.source == old(self).source,
            r is Err ==> final(self).at() == old(self).at(),
    {
        let current_token = self.peek()?;
        if current_token.kind == kind {
            self.next_token()
        } else {
            let mut expected: Vec<TokenKind> = Vec::new();
            expected.push(kind);
            proof {
                assert(expected@ =~= seq![kind]);
            }
            Err(
                Box::new(
                    Error::new(
                        ErrorKind::UnexpectedToken { expected, received: current_token.kind },
                        current_token.chunk.span,
                        self.source.clone(),
                    ),
                ),
            )
        }
    }
}

} // verus!
