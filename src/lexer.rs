pub mod cursor;
pub mod token;

use unicode_xid::UnicodeXID;
use vstd::prelude::*;
use vstd::string::*;

use crate::common::error::{Diagnostic, Error, ErrorKind, Fault};
use crate::common::source::Source;
use crate::common::span::Span;
use crate::lexer::cursor::{Chunk, Cursor};
use crate::lexer::token::{Lexeme, Token, TokenKind};

verus! {

/// Whether a character has the Unicode property XID_Start.
pub uninterp spec fn xid_start(c: char) -> bool;

/// Whether a character has the Unicode property XID_Continue.
pub uninterp spec fn xid_continue(c: char) -> bool;

pub open spec fn is_ascii_letter(c: char) -> bool {
    ('a' <= c && c <= 'z') || ('A' <= c && c <= 'Z')
}

pub open spec fn is_digit(c: char) -> bool {
    '0' <= c && c <= '9'
}

/// Whether a character may start an identifier: for ASCII, a letter; else
/// the XID_Start property.
pub open spec fn starts_identifier(c: char) -> bool {
    if (c as u32) < 128 {
        is_ascii_letter(c)
    } else {
        xid_start(c)
    }
}

/// Whether a character may continue an identifier: for ASCII, a letter, a
/// digit or `_`; else the XID_Continue property.
pub open spec fn continues_identifier(c: char) -> bool {
    if (c as u32) < 128 {
        is_ascii_letter(c) || is_digit(c) || c == '_'
    } else {
        xid_continue(c)
    }
}

/// Relies on unicode_xid's `UnicodeXID::is_xid_start` for `char`: the
/// XID_Start property, which for ASCII holds of the letters alone.
#[verifier::external_body]
fn has_xid_start(c: char) -> (r: bool)
    ensures
        r == xid_start(c),
        r == starts_identifier(c),
{
    UnicodeXID::is_xid_start(c)
}

/// Relies on unicode_xid's `UnicodeXID::is_xid_continue` for `char`: the
/// XID_Continue property, which for ASCII holds of letters, digits and `_`.
#[verifier::external_body]
fn has_xid_continue(c: char) -> (r: bool)
    ensures
        r == xid_continue(c),
        r == continues_identifier(c),
{
    UnicodeXID::is_xid_continue(c)
}

pub open spec fn is_blank(c: char) -> bool {
    c == ' ' || c == '\t' || c == '\n'
}

pub open spec fn is_numeric(c: char) -> bool {
    is_digit(c) || c == '.'
}

/// The first offset at or after `i` that does not hold a blank.
pub open spec fn skip_blanks(s: Seq<char>, i: int) -> int
    decreases s.len() - i,
{
    if 0 <= i < s.len() && is_blank(s[i]) {
        skip_blanks(s, i + 1)
    } else {
        i
    }
}

/// The first offset at or after `i` that holds neither a digit nor a `.`.
pub open spec fn numeric_end(s: Seq<char>, i: int) -> int
    decreases s.len() - i,
{
    if 0 <= i < s.len() && is_numeric(s[i]) {
        numeric_end(s, i + 1)
    } else {
        i
    }
}

/// The first offset at or after `i` that holds no character that may continue an identifier.
pub open spec fn identifier_end(s: Seq<char>, i: int) -> int
    decreases s.len() - i,
{
    if 0 <= i < s.len() && continues_identifier(s[i]) {
        identifier_end(s, i + 1)
    } else {
        i
    }
}

/// How many `.` stand in `s` between offsets `i` and `j`.
pub open spec fn dots(s: Seq<char>, i: int, j: int) -> nat
    decreases j - i,
{
    if j <= i {
        0
    } else {
        dots(s, i, j - 1) + if s[j - 1] == '.' {
            1nat
        } else {
            0nat
        }
    }
}

/// The class of a word: one of the keywords, or an identifier.
pub open spec fn keyword_kind(w: Seq<char>) -> TokenKind {
    if w == seq!['i', 'f'] {
        TokenKind::If
    } else if w == seq!['e', 'l', 's', 'e'] {
        TokenKind::Else
    } else if w == seq!['w', 'h', 'i', 'l', 'e'] {
        TokenKind::While
    } else if w == seq!['l', 'e', 't'] {
        TokenKind::Let
    } else if w == seq!['m', 'u', 't'] {
        TokenKind::Mut
    } else if w == seq!['f', 'u', 'n', 'c', 't', 'i', 'o', 'n'] {
        TokenKind::Function
    } else if w == seq!['r', 'e', 't', 'u', 'r', 'n'] {
        TokenKind::Return
    } else {
        TokenKind::Identifier
    }
}

/// The class of a one-character operator or punctuation mark.
pub open spec fn single_kind(c: char) -> Option<TokenKind> {
    if c == '+' {
        Some(TokenKind::Plus)
    } else if c == '*' {
        Some(TokenKind::Multiply)
    } else if c == '/' {
        Some(TokenKind::Divide)
    } else if c == ':' {
        Some(TokenKind::Colon)
    } else if c == ';' {
        Some(TokenKind::Semicolon)
    } else if c == '(' {
        Some(TokenKind::LeftParenthesis)
    } else if c == ')' {
        Some(TokenKind::RightParenthesis)
    } else if c == '{' {
        Some(TokenKind::LeftCurlyBrace)
    } else if c == '}' {
        Some(TokenKind::RightCurlyBrace)
    } else if c == ',' {
        Some(TokenKind::Comma)
    } else {
        None
    }
}

/// For a character that may start a two-character operator: the second
/// character, the class of the pair, and the class of the first alone.
pub open spec fn pair_kinds(c: char) -> Option<(char, TokenKind, TokenKind)> {
    if c == '-' {
        Some(('>', TokenKind::Arrow, TokenKind::Minus))
    } else if c == '=' {
        Some(('=', TokenKind::Equal, TokenKind::Assignment))
    } else if c == '>' {
        Some(('=', TokenKind::GreaterThenEqual, TokenKind::GreaterThen))
    } else if c == '<' {
        Some(('=', TokenKind::LessThenEqual, TokenKind::LessThen))
    } else {
        None
    }
}

/// The operator or punctuation mark at offset `i`, with the offset just past it.
pub open spec fn punctuation(s: Seq<char>, i: int) -> Option<(TokenKind, int)> {
    match pair_kinds(s[i]) {
        Some((second, pair, alone)) => if i + 1 < s.len() && s[i + 1] == second {
            Some((pair, i + 2))
        } else {
            Some((alone, i + 1))
        },
        None => match single_kind(s[i]) {
            Some(k) => Some((k, i + 1)),
            None => None,
        },
    }
}

pub open spec fn span_of(i: int, j: int) -> Span {
    Span { start: i as usize, end: j as usize }
}

/// The lexeme whose first character is at offset `i`, in a run that began at
/// offset `a`: its class and the offset just past it; or the failure, with
/// the offset where reading stopped.
pub open spec fn lex_at(s: Seq<char>, a: int, i: int) -> Result<(TokenKind, int), (Diagnostic, int)> {
    if is_digit(s[i]) {
        let e = numeric_end(s, i);
        if dots(s, i, e) >= 2 {
            Err((Diagnostic { fault: Fault::UnexpectedCharacter, span: span_of(a, e) }, e))
        } else if dots(s, i, e) == 1 {
            Ok((TokenKind::Float, e))
        } else {
            Ok((TokenKind::Integer, e))
        }
    } else if starts_identifier(s[i]) {
        let e = identifier_end(s, i + 1);
        Ok((keyword_kind(s.subrange(a, e)), e))
    } else {
        match punctuation(s, i) {
            Some((k, e)) => Ok((k, e)),
            None => Err((Diagnostic { fault: Fault::UnexpectedEndOfInput, span: span_of(a, i) }, i)),
        }
    }
}

/// What reading one item from offset `i` gives: nothing once only blanks are
/// left; else a lexeme and the offset past it, or a failure and the offset
/// where reading stopped.
pub open spec fn next_lexeme(s: Seq<char>, i: int) -> Option<Result<(Lexeme, int), (Diagnostic, int)>> {
    let j = skip_blanks(s, i);
    if j >= s.len() {
        None
    } else {
        match lex_at(s, j, j) {
            Ok((k, e)) => Some(Ok((Lexeme { kind: k, span: span_of(j, e) }, e))),
            Err(f) => Some(Err(f)),
        }
    }
}

/// The lexemes read from offset `i` on, up to the end of the text or up to
/// the first failure, which comes second.
pub open spec fn lexemes(s: Seq<char>, i: int) -> (Seq<Lexeme>, Option<Diagnostic>)
    decreases s.len() - i,
{
    match next_lexeme(s, i) {
        None => (seq![], None),
        Some(Err((d, _))) => (seq![], Some(d)),
        Some(Ok((t, e))) => if i < e <= s.len() {
            let rest = lexemes(s, e);
            (seq![t] + rest.0, rest.1)
        } else {
            (seq![], None)
        },
    }
}

/// Every item read from offset `i` on: tokens and failures, in order. A
/// failure over a run of digits and dots moves past the run, and reading
/// goes on after it; a failure on a character no token starts with moves
/// nothing, and reading it again gives the same failure forever, so the
/// items end with it.
pub open spec fn items(s: Seq<char>, i: int) -> Seq<Result<Lexeme, Diagnostic>>
    decreases s.len() - i,
{
    match next_lexeme(s, i) {
        None => seq![],
        Some(Ok((t, e))) => if i < e <= s.len() {
            seq![Ok(t)] + items(s, e)
        } else {
            seq![]
        },
        Some(Err((d, e))) => if i < e <= s.len() && d.fault is UnexpectedCharacter {
            seq![Err(d)] + items(s, e)
        } else {
            seq![Err(d)]
        },
    }
}

/// A failure while reading is an UnexpectedCharacter over a run that it
/// moves past, or an UnexpectedEndOfInput that moves nothing.
pub proof fn lemma_failure_moves(s: Seq<char>, i: int)
    requires
        0 <= i <= s.len(),
    ensures
        next_lexeme(s, i) matches Some(Err((d, e))) ==> (d.fault is UnexpectedCharacter && i < e
            <= s.len()) || (d.fault is UnexpectedEndOfInput && e == skip_blanks(s, i)),
{
    lemma_scan_bounds(s, i);
    let j = skip_blanks(s, i);
    if j < s.len() {
        lemma_scan_bounds(s, j);
        lemma_scan_bounds(s, j + 1);
    }
}

/// Whether `s` spells out `w`.
fn is_word(s: &String, w: &str) -> (r: bool)
    ensures
        r == (s@ == w@),
{
    let owned = String::from_str(w);
    s.eq(&owned)
}

pub proof fn lemma_scan_bounds(s: Seq<char>, i: int)
    requires
        0 <= i <= s.len(),
    ensures
        i <= skip_blanks(s, i) <= s.len(),
        i <= numeric_end(s, i) <= s.len(),
        i <= identifier_end(s, i) <= s.len(),
    decreases s.len() - i,
{
    if i < s.len() {
        lemma_scan_bounds(s, i + 1);
    }
}

/// Reading an item that is a lexeme moves strictly forward and stays in the text.
pub proof fn lemma_next_lexeme_progress(s: Seq<char>, i: int)
    requires
        0 <= i <= s.len(),
    ensures
        next_lexeme(s, i) matches Some(Ok((t, e))) ==> i < e <= s.len() && t.span == span_of(
            skip_blanks(s, i),
            e,
        ) && i <= skip_blanks(s, i) < e,
{
    lemma_scan_bounds(s, i);
    let j = skip_blanks(s, i);
    if j < s.len() {
        lemma_scan_bounds(s, j);
        lemma_scan_bounds(s, j + 1);
    }
}

proof fn lemma_all_blank(s: Seq<char>, i: int)
    requires
        0 <= i <= s.len(),
        forall|k: int| i <= k < s.len() ==> is_blank(#[trigger] s[k]),
    ensures
        skip_blanks(s, i) == s.len(),
    decreases s.len() - i,
{
    if i < s.len() {
        lemma_all_blank(s, i + 1);
    }
}

proof fn lemma_all_numeric(s: Seq<char>, i: int)
    requires
        0 <= i <= s.len(),
        forall|k: int| i <= k < s.len() ==> is_numeric(#[trigger] s[k]),
    ensures
        numeric_end(s, i) == s.len(),
    decreases s.len() - i,
{
    if i < s.len() {
        lemma_all_numeric(s, i + 1);
    }
}

/// A text made of spaces, tabs and newlines alone holds no token and no failure.
pub proof fn lemma_blank_text_has_no_tokens(s: Seq<char>)
    requires
        forall|k: int| 0 <= k < s.len() ==> is_blank(#[trigger] s[k]),
    ensures
        lexemes(s, 0).0.len() == 0,
        lexemes(s, 0).1 is None,
{
    lemma_all_blank(s, 0);
}

/// A text that is one run of digits and dots, starting with a digit, reads
/// as one Integer token over the whole text if it holds no dot, as one Float
/// token if it holds one, and as an UnexpectedCharacter failure over the
/// whole run if it holds two or more.
pub proof fn lemma_number_literal(s: Seq<char>)
    requires
        s.len() > 0,
        is_digit(s[0]),
        forall|k: int| 0 <= k < s.len() ==> is_numeric(#[trigger] s[k]),
    ensures
        dots(s, 0, s.len() as int) == 0 ==> lexemes(s, 0) == (
            seq![Lexeme { kind: TokenKind::Integer, span: span_of(0, s.len() as int) }],
            None::<Diagnostic>,
        ),
        dots(s, 0, s.len() as int) == 1 ==> lexemes(s, 0) == (
            seq![Lexeme { kind: TokenKind::Float, span: span_of(0, s.len() as int) }],
            None::<Diagnostic>,
        ),
        dots(s, 0, s.len() as int) >= 2 ==> lexemes(s, 0) == (
            Seq::<Lexeme>::empty(),
            Some(
                Diagnostic { fault: Fault::UnexpectedCharacter, span: span_of(0, s.len() as int) },
            ),
        ),
{
    lemma_all_numeric(s, 0);
    assert(skip_blanks(s, 0) == 0);
    assert(skip_blanks(s, s.len() as int) == s.len());
    let e = s.len() as int;
    assert(next_lexeme(s, e) is None);
    if dots(s, 0, e) < 2 {
        assert(lexemes(s, e) == (Seq::<Lexeme>::empty(), None::<Diagnostic>));
        let k = if dots(s, 0, e) == 1 {
            TokenKind::Float
        } else {
            TokenKind::Integer
        };
        assert(next_lexeme(s, 0) == Some(
            Ok::<(Lexeme, int), (Diagnostic, int)>((Lexeme { kind: k, span: span_of(0, e) }, e)),
        ));
        assert(lexemes(s, 0).0 =~= seq![Lexeme { kind: k, span: span_of(0, e) }]);
    }
}

/// Operators that may take a second character: `-` followed by `>` reads as
/// one Arrow, and `=`, `<`, `>` followed by `=` read as one Equal,
/// LessThenEqual or GreaterThenEqual over both characters; otherwise the
/// first character reads alone, as Minus, Assignment, LessThen or GreaterThen.
pub proof fn lemma_operator_pairs(s: Seq<char>, i: int)
    requires
        0 <= i < s.len(),
        pair_kinds(s[i]) is Some,
    ensures
        ({
            let (second, pair, alone) = pair_kinds(s[i])->Some_0;
            lex_at(s, i, i) == if i + 1 < s.len() && s[i + 1] == second {
                Ok::<(TokenKind, int), (Diagnostic, int)>((pair, i + 2))
            } else {
                Ok::<(TokenKind, int), (Diagnostic, int)>((alone, i + 1))
            }
        }),
{
    assert(!is_digit(s[i]));
    assert(!starts_identifier(s[i]));
}

/// Splits a source text into tokens, one at a time.
#[derive(Debug)]
pub struct Lexer {
    cursor: Cursor,
}

impl Lexer {
    /// The text being read.
    pub closed spec fn text(&self) -> Seq<char> {
        self.cursor.text()
    }

    /// The offset of the next character to read.
    pub closed spec fn position(&self) -> int {
        self.cursor.position()
    }

    /// Where the run being grown began.
    pub closed spec fn anchor(&self) -> int {
        self.cursor.anchor()
    }

    /// The source being read.
    pub closed spec fn source(&self) -> Source {
        self.cursor.input
    }

    pub closed spec fn wf(&self) -> bool {
        self.cursor.wf()
    }

    pub proof fn lemma_wf(&self)
        requires
            self.wf(),
        ensures
            0 <= self.anchor() <= self.position() <= self.text().len() <= usize::MAX,
            self.text() == self.source().code@,
    {
    }

    pub fn new(input: Source) -> (r: Lexer)
        ensures
            r.wf(),
            r.source() == input,
            r.text() == input.code@,
            r.position() == 0,
            r.anchor() == 0,
    {
        Lexer { cursor: Cursor::new(input) }
    }

    pub fn is_number_start(&self) -> (r: bool)
        requires
            self.wf(),
            self.position() < self.text().len(),
        ensures
            r == is_digit(self.text()[self.position()]),
    {
        let c = self.cursor.peek();
        '0' <= c && c <= '9'
    }

    pub fn is_number_continue(&self) -> (r: bool)
        requires
            self.wf(),
            self.position() < self.text().len(),
        ensures
            r == is_numeric(self.text()[self.position()]),
    {
        let c = self.cursor.peek();
        self.is_number_start() || c == '.'
    }

    pub fn is_identifier_start(&self) -> (r: bool)
        requires
            self.wf(),
            self.position() < self.text().len(),
        ensures
            r == starts_identifier(self.text()[self.position()]),
    {
        has_xid_start(self.cursor.peek())
    }

    pub fn is_identifier_continue(&self) -> (r: bool)
        requires
            self.wf(),
            self.position() < self.text().len(),
        ensures
            r == continues_identifier(self.text()[self.position()]),
    {
        has_xid_continue(self.cursor.peek())
    }

    /// Steps over blanks, and starts a new run after them.
    pub fn skip(&mut self)
        requires
            old(self).wf(),
        ensures
            final(self).wf(),
            final(self).source() == old(self).source(),
            final(self).position() == skip_blanks(old(self).text(), old(self).position()),
            final(self).anchor() == final(self).position(),
    {
        let ghost s = self.text();
        let ghost from = self.position();
        while !self.cursor.eof() && (self.cursor.peek() == ' ' || self.cursor.peek() == '\t'
            || self.cursor.peek() == '\n')
            invariant
                self.wf(),
                self.source() == old(self).source(),
                s == self.text(),
                from <= self.position() <= s.len(),
                skip_blanks(s, self.position()) == skip_blanks(s, from),
            decreases s.len() - self.position(),
        {
            self.cursor.next();
        }
        self.cursor.clear();
    }

    /// Grows the run over XID_Continue characters and cuts it.
    pub fn lex_identifier(&mut self) -> (r: Result<Chunk, Box<Error>>)
        requires
            old(self).wf(),
        ensures
            final(self).wf(),
            final(self).source() == old(self).source(),
            final(self).position() == identifier_end(old(self).text(), old(self).position()),
            old(self).position() <= final(self).position(),
            final(self).anchor() == final(self).position(),
            r is Ok,
            r matches Ok(c) ==> c.span == span_of(old(self).anchor(), final(self).position())
                && c.data@ == old(self).text().subrange(old(self).anchor(), final(self).position()),
    {
        let ghost s = self.text();
        let ghost from = self.position();
        while !self.cursor.eof() && self.is_identifier_continue()
            invariant
                self.wf(),
                self.source() == old(self).source(),
                self.anchor() == old(self).anchor(),
                s == self.text(),
                from <= self.position() <= s.len(),
                identifier_end(s, self.position()) == identifier_end(s, from),
            decreases s.len() - self.position(),
        {
            self.cursor.next();
        }
        Ok(self.cursor.chunk())
    }

    /// Reads a word whose first character is at the current position, and
    /// classifies it as a keyword or an identifier.
    pub fn lex_keyword_or_identifier(&mut self) -> (r: Result<Token, Box<Error>>)
        requires
            old(self).wf(),
            old(self).position() < old(self).text().len(),
        ensures
            final(self).wf(),
            final(self).source() == old(self).source(),
            final(self).position() == identifier_end(old(self).text(), old(self).position() + 1),
            final(self).anchor() == final(self).position(),
            r is Ok,
            r matches Ok(t) ==> t.chunk.span == span_of(old(self).anchor(), final(self).position()),
            r matches Ok(t) ==> t.lies_in(old(self).text()),
            r matches Ok(t) ==> t.kind == keyword_kind(
                old(self).text().subrange(old(self).anchor(), final(self).position()),
            ),
    {
        self.cursor.next();
        let identifier = self.lex_identifier()?;
        let kind = if is_word(&identifier.data, "if") {
            TokenKind::If
        } else if is_word(&identifier.data, "else") {
            TokenKind::Else
        } else if is_word(&identifier.data, "while") {
            TokenKind::While
        } else if is_word(&identifier.data, "let") {
            TokenKind::Let
        } else if is_word(&identifier.data, "mut") {
            TokenKind::Mut
        } else if is_word(&identifier.data, "function") {
            TokenKind::Function
        } else if is_word(&identifier.data, "return") {
            TokenKind::Return
        } else {
            TokenKind::Identifier
        };
        proof {
            reveal_strlit("if");
            reveal_strlit("else");
            reveal_strlit("while");
            reveal_strlit("let");
            reveal_strlit("mut");
            reveal_strlit("function");
            reveal_strlit("return");
            assert("if"@ =~= seq!['i', 'f']);
            assert("else"@ =~= seq!['e', 'l', 's', 'e']);
            assert("while"@ =~= seq!['w', 'h', 'i', 'l', 'e']);
            assert("let"@ =~= seq!['l', 'e', 't']);
            assert("mut"@ =~= seq!['m', 'u', 't']);
            assert("function"@ =~= seq!['f', 'u', 'n', 'c', 't', 'i', 'o', 'n']);
            assert("return"@ =~= seq!['r', 'e', 't', 'u', 'r', 'n']);
        }
        Ok(Token::new(identifier, kind))
    }

    /// Reads a run of digits and dots: a Float if it holds one dot, an
    /// Integer if none, and a failure over the whole run if more.
    pub fn lex_integer(&mut self) -> (r: Result<Token, Box<Error>>)
        requires
            old(self).wf(),
        ensures
            final(self).wf(),
            final(self).source() == old(self).source(),
            final(self).position() == numeric_end(old(self).text(), old(self).position()),
            old(self).position() <= final(self).position(),
            ({
                let s = old(self).text();
                let p = old(self).position();
                let e = numeric_end(s, p);
                match r {
                    Ok(t) => {
                        &&& dots(s, p, e) < 2
                        &&& t.kind == if dots(s, p, e) == 1 {
                            TokenKind::Float
                        } else {
                            TokenKind::Integer
                        }
                        &&& t.chunk.span == span_of(old(self).anchor(), e)
                        &&& t.lies_in(s)
                        &&& final(self).anchor() == e
                    },
                    Err(x) => {
                        &&& dots(s, p, e) >= 2
                        &&& x@ == Diagnostic {
                            fault: Fault::UnexpectedCharacter,
                            span: span_of(old(self).anchor(), e),
                        }
                        &&& x.source == old(self).source()
                        &&& final(self).anchor() == old(self).anchor()
                    },
                }
            }),
    {
        let ghost s = self.text();
        let ghost from = self.position();
        let mut is_float = false;
        let mut has_error = false;
        while !self.cursor.eof() && self.is_number_continue()
            invariant
                self.wf(),
                self.source() == old(self).source(),
                self.anchor() == old(self).anchor(),
                s == self.text(),
                from <= self.position() <= s.len(),
                numeric_end(s, self.position()) == numeric_end(s, from),
                is_float == (dots(s, from, self.position()) >= 1),
                has_error == (dots(s, from, self.position()) >= 2),
            decreases s.len() - self.position(),
        {
            if self.cursor.peek() == '.' {
                if is_float {
                    has_error = true;
                }
                is_float = true;
            }
            self.cursor.next();
        }
        if has_error {
            return Err(
                Box::new(
                    Error::new(
                        ErrorKind::UnexpectedCharacter,
                        self.cursor.span(),
                        self.cursor.input.clone(),
                    ),
                ),
            );
        }
        let kind = if is_float {
            TokenKind::Float
        } else {
            TokenKind::Integer
        };
        Ok(Token::new(self.cursor.chunk(), kind))
    }

    fn single(&mut self, kind: TokenKind) -> (r: Token)
        requires
            old(self).wf(),
            old(self).position() < old(self).text().len(),
        ensures
            final(self).wf(),
            final(self).source() == old(self).source(),
            final(self).position() == old(self).position() + 1,
            final(self).anchor() == final(self).position(),
            r.kind == kind,
            r.chunk.span == span_of(old(self).anchor(), final(self).position()),
            r.lies_in(old(self).text()),
    {
        self.cursor.next();
        Token::new(self.cursor.chunk(), kind)
    }

    fn pair(&mut self, second: char, pair: TokenKind, alone: TokenKind) -> (r: Token)
        requires
            old(self).wf(),
            old(self).position() < old(self).text().len(),
        ensures
            ({
                let s = old(self).text();
                let p = old(self).position();
                let (k, e) = if p + 1 < s.len() && s[p + 1] == second {
                    (pair, p + 2)
                } else {
                    (alone, p + 1)
                };
                &&& final(self).position() == e
                &&& r.kind == k
            }),
            final(self).wf(),
            final(self).source() == old(self).source(),
            final(self).anchor() == final(self).position(),
            r.chunk.span == span_of(old(self).anchor(), final(self).position()),
            r.lies_in(old(self).text()),
    {
        if self.cursor.lookup(1) == Some(second) {
            self.cursor.next();
            self.cursor.next();
            Token::new(self.cursor.chunk(), pair)
        } else {
            self.cursor.next();
            Token::new(self.cursor.chunk(), alone)
        }
    }

    /// Reads an operator or a punctuation mark; any other character is a
    /// failure at the current position.
    pub fn lex_char(&mut self) -> (r: Result<Token, Box<Error>>)
        requires
            old(self).wf(),
            old(self).position() < old(self).text().len(),
        ensures
            final(self).wf(),
            final(self).source() == old(self).source(),
            match punctuation(old(self).text(), old(self).position()) {
                Some((k, e)) => r matches Ok(t) && t.kind == k && t.chunk.span == span_of(
                    old(self).anchor(),
                    e,
                ) && t.lies_in(old(self).text()) && final(self).position() == e
                    && final(self).anchor() == e,
                None => r matches Err(x) && x@ == Diagnostic {
                    fault: Fault::UnexpectedEndOfInput,
                    span: span_of(old(self).anchor(), old(self).position()),
                } && x.source == old(self).source() && *final(self) == *old(self),
            },
    {
        let c = self.cursor.peek();
        if c == '+' {
            Ok(self.single(TokenKind::Plus))
        } else if c == '-' {
            Ok(self.pair('>', TokenKind::Arrow, TokenKind::Minus))
        } else if c == '*' {
            Ok(self.single(TokenKind::Multiply))
        } else if c == '/' {
            Ok(self.single(TokenKind::Divide))
        } else if c == ':' {
            Ok(self.single(TokenKind::Colon))
        } else if c == ';' {
            Ok(self.single(TokenKind::Semicolon))
        } else if c == '(' {
            Ok(self.single(TokenKind::LeftParenthesis))
        } else if c == ')' {
            Ok(self.single(TokenKind::RightParenthesis))
        } else if c == '{' {
            Ok(self.single(TokenKind::LeftCurlyBrace))
        } else if c == '}' {
            Ok(self.single(TokenKind::RightCurlyBrace))
        } else if c == ',' {
            Ok(self.single(TokenKind::Comma))
        } else if c == '=' {
            Ok(self.pair('=', TokenKind::Equal, TokenKind::Assignment))
        } else if c == '>' {
            Ok(self.pair('=', TokenKind::GreaterThenEqual, TokenKind::GreaterThen))
        } else if c == '<' {
            Ok(self.pair('=', TokenKind::LessThenEqual, TokenKind::LessThen))
        } else {
            Err(
                Box::new(
                    Error::new(
                        ErrorKind::UnexpectedEndOfInput,
                        self.cursor.span(),
                        self.cursor.input.clone(),
                    ),
                ),
            )
        }
    }

    /// Reads the lexeme whose first character is at the current position.
    pub fn next_token(&mut self) -> (r: Result<Token, Box<Error>>)
        requires
            old(self).wf(),
            old(self).position() < old(self).text().len(),
        ensures
            final(self).wf(),
            final(self).source() == old(self).source(),
            match lex_at(old(self).text(), old(self).anchor(), old(self).position()) {
                Ok((k, e)) => r matches Ok(t) && t.kind == k && t.chunk.span == span_of(
                    old(self).anchor(),
                    e,
                ) && t.lies_in(old(self).text()) && final(self).position() == e
                    && final(self).anchor() == e,
                Err((d, e)) => r matches Err(x) && x@ == d && x.source == old(self).source()
                    && final(self).position() == e,
            },
    {
        if self.is_number_start() {
            return self.lex_integer();
        }
        if self.is_identifier_start() {
            return self.lex_keyword_or_identifier();
        }
        self.lex_char()
    }

    /// Reads the next item, after skipping blanks: nothing once only blanks
    /// are left, else a token or a failure.
    pub fn next(&mut self) -> (r: Option<Result<Token, Box<Error>>>)
        requires
            old(self).wf(),
        ensures
            final(self).wf(),
            final(self).source() == old(self).source(),
            match next_lexeme(old(self).text(), old(self).position()) {
                None => r is None,
                Some(Ok((t, e))) => r matches Some(Ok(x)) && x@ == t && x.lies_in(old(self).text())
                    && final(self).position() == e && final(self).anchor() == e,
                Some(Err((d, e))) => r matches Some(Err(x)) && x@ == d && x.source == old(
                    self,
                ).source() && final(self).position() == e,
            },
    {
        self.skip();
        if self.cursor.eof() {
            None
        } else {
            Some(self.next_token())
        }
    }

    /// Reads every remaining item, up to the end of the text or up to the
    /// first failure, which comes second.
    pub fn tokenize(&mut self) -> (r: (Vec<Token>, Option<Box<Error>>))
        requires
            old(self).wf(),
        ensures
            final(self).wf(),
            final(self).source() == old(self).source(),
            r.0@.map_values(|t: Token| t@) == lexemes(old(self).text(), old(self).position()).0,
            forall|k: int| 0 <= k < r.0@.len() ==> (#[trigger] r.0@[k]).lies_in(old(self).text()),
            match (r.1, lexemes(old(self).text(), old(self).position()).1) {
                (Some(x), Some(d)) => x@ == d && x.source == old(self).source(),
                (None, None) => true,
                _ => false,
            },
    {
        let ghost s = self.text();
        let ghost from = self.position();
        let mut tokens: Vec<Token> = Vec::new();
        let mut failure: Option<Box<Error>> = None;
        loop
            invariant_except_break
                failure is None,
                tokens@.map_values(|t: Token| t@) + lexemes(s, self.position()).0 == lexemes(s, from).0,
                lexemes(s, self.position()).1 == lexemes(s, from).1,
            invariant
                self.wf(),
                self.source() == old(self).source(),
                s == self.text(),
                0 <= self.position() <= s.len(),
                forall|k: int| 0 <= k < tokens@.len() ==> (#[trigger] tokens@[k]).lies_in(s),
            ensures
                tokens@.map_values(|t: Token| t@) == lexemes(s, from).0,
                match (failure, lexemes(s, from).1) {
                    (Some(x), Some(d)) => x@ == d && x.source == old(self).source(),
                    (None, None) => true,
                    _ => false,
                },
            decreases s.len() - self.position(),
        {
            let ghost before = self.position();
            proof {
                lemma_next_lexeme_progress(s, before);
            }
            match self.next() {
                None => {
                    assert(tokens@.map_values(|t: Token| t@) =~= lexemes(s, from).0);
                    break;
                },
                Some(Err(x)) => {
                    failure = Some(x);
                    assert(tokens@.map_values(|t: Token| t@) =~= lexemes(s, from).0);
                    break;
                },
                Some(Ok(t)) => {
                    let ghost old_tokens = tokens@;
                    tokens.push(t);
                    assert(tokens@.map_values(|t: Token| t@) =~= old_tokens.map_values(
                        |t: Token| t@,
                    ).push(t@));
                    assert(lexemes(s, before).0 =~= seq![t@] + lexemes(s, self.position()).0);
                    assert(tokens@.map_values(|t: Token| t@) + lexemes(s, self.position()).0
                        =~= old_tokens.map_values(|t: Token| t@) + lexemes(s, before).0);
                },
            }
        }
        (tokens, failure)
    }
}

} // verus!
