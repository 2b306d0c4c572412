pub mod laws;
pub mod lexeme;
pub mod spelling;
pub mod token;

use crate::error::{Error, ErrorView};
use crate::scanner::lexeme::{
    is_alpha, is_alphanumeric, is_digit, lemma_lexeme_width, lemma_newlines_split, lexeme,
    newlines, number_width, run, scan, word, CharClass, Piece,
};
use crate::scanner::token::{token_views, Token, TokenKind, TokenKindView, TokenView};
use crate::text::{chars_of, text_of};
use vstd::prelude::*;

verus! {

/// Reads a source text into tokens.
pub struct Scanner {
    pub source: Vec<char>,
    pub tokens: Vec<Token>,
    pub start: usize,
    pub current: usize,
    pub line: u32,
}

impl Scanner {
    /// The place in the source up to which it has been read.
    pub open spec fn position(&self) -> int {
        self.current as int
    }

    /// The line at that place.
    pub open spec fn line(&self) -> nat {
        self.line as nat
    }

    /// The place read up to lies within the source.
    pub open spec fn wf(&self) -> bool {
        self.current <= self.source.len()
    }

    /// The number of the last line of the source fits the type of a line number.
    pub open spec fn lines_fit(&self) -> bool {
        self.line() + newlines(self.source@, self.position(), self.source@.len() as int)
            <= u32::MAX
    }

    /// A scanner at the start of `source`, which begins on line `start_line`.
    pub fn new(source: String, start_line: u32) -> (scanner: Self)
        ensures
            scanner.wf(),
            scanner.source@ == source@,
            scanner.tokens@ == Seq::<Token>::empty(),
            scanner.position() == 0,
            scanner.line() == start_line,
    {
        Self {
            source: chars_of(source.as_str()),
            tokens: Vec::new(),
            start: 0,
            current: 0,
            line: start_line,
        }
    }

    /// Tells whether the line numbers of what is still to be read fit.
    pub fn has_room(&self) -> (fits: bool)
        requires
            self.wf(),
        ensures
            fits == self.lines_fit(),
    {
        let mut left: u32 = u32::MAX - self.line;
        let mut i: usize = self.current;
        while i < self.source.len()
            invariant
                self.current <= i <= self.source.len(),
                self.line + newlines(self.source@, self.current as int, i as int) + left
                    == u32::MAX,
            decreases self.source.len() - i,
        {
            proof {
                lemma_newlines_split(self.source@, self.current as int, i as int, i + 1);
                assert(newlines(self.source@, i + 1, i + 1) == 0);
            }
            if self.source[i] == '\n' {
                if left == 0 {
                    proof {
                        lemma_newlines_split(
                            self.source@,
                            self.current as int,
                            i + 1,
                            self.source@.len() as int,
                        );
                    }
                    return false;
                }
                left -= 1;
            }
            i += 1;
        }
        true
    }

    /// Reads the source on from where the scanner stands, lexeme by lexeme, and adds the
    /// tokens it finds to `tokens`. At the end of the source it adds `Eof` and returns
    /// `Ok`. At a lexeme that is no token it stops behind that lexeme and returns the
    /// complaint; a further call reads on from there.
    pub fn scan_all_tokens(&mut self) -> (result: Result<(), Error>)
        requires
            old(self).wf(),
            old(self).lines_fit(),
        ensures
            final(self).wf(),
            final(self).lines_fit(),
            final(self).source@ == old(self).source@,
            ({
                let found = scan(old(self).source@, old(self).position(), old(self).line());
                &&& token_views(final(self).tokens@) == token_views(old(self).tokens@)
                    + found.tokens
                &&& final(self).position() == found.end
                &&& final(self).line() == found.line
                &&& match result {
                    Ok(_) => found.error is None,
                    Err(e) => found.error == Some(e@),
                }
            }),
    {
        let ghost whole = scan(self.source@, self.position(), self.line());
        let ghost before = token_views(self.tokens@);
        let ghost mut read: Seq<TokenView> = Seq::empty();
        assert(before + read =~= before);
        assert(read + whole.tokens =~= whole.tokens);
        while !self.is_eof()
            invariant
                self.wf(),
                self.lines_fit(),
                self.source@ == old(self).source@,
                whole == scan(old(self).source@, old(self).position(), old(self).line()),
                before == token_views(old(self).tokens@),
                token_views(self.tokens@) == before + read,
                ({
                    let rest = scan(self.source@, self.position(), self.line());
                    &&& whole.tokens == read + rest.tokens
                    &&& whole.end == rest.end
                    &&& whole.line == rest.line
                    &&& whole.error == rest.error
                }),
            decreases self.source.len() - self.current,
        {
            self.start = self.current;
            let ghost at = self.position();
            let ghost next = lexeme(self.source@, at);
            let ghost rest = scan(self.source@, at, self.line());
            proof {
                lemma_lexeme_width(self.source@, at);
            }
            match self.scan_token() {
                Err(e) => {
                    assert(read + rest.tokens =~= read);
                    return Err(e);
                },
                Ok(_) => {
                    proof {
                        let after = scan(self.source@, self.position(), self.line());
                        match next.piece {
                            Piece::Token(kind) => {
                                let token = TokenView { kind, line: self.line };
                                assert(rest.tokens == seq![token] + after.tokens);
                                assert(read.push(token) + after.tokens =~= read + rest.tokens);
                                assert(before + read.push(token) =~= (before + read).push(token));
                                read = read.push(token);
                            },
                            _ => {},
                        }
                    }
                },
            }
        }
        let ghost last = TokenView { kind: TokenKindView::Eof, line: self.line };
        self.add_token(TokenKind::Eof);
        proof {
            assert(whole.tokens =~= read.push(last));
            assert(before + read.push(last) =~= (before + read).push(last));
        }
        Ok(())
    }

    /// Reads the one lexeme that starts where the scanner stands.
    fn scan_token(&mut self) -> (result: Result<(), Error>)
        requires
            old(self).wf(),
            old(self).lines_fit(),
            old(self).current < old(self).source.len(),
            old(self).start == old(self).current,
        ensures
            final(self).wf(),
            final(self).lines_fit(),
            final(self).source == old(self).source,
            ({
                let next = lexeme(old(self).source@, old(self).position());
                &&& final(self).position() == old(self).position() + next.width
                &&& final(self).line() == old(self).line() + next.lines
                &&& match next.piece {
                    Piece::Token(kind) => {
                        &&& result is Ok
                        &&& token_views(final(self).tokens@) == token_views(
                            old(self).tokens@,
                        ).push(TokenView { kind, line: final(self).line() as u32 })
                    },
                    Piece::Skip => result is Ok && final(self).tokens == old(self).tokens,
                    Piece::Error(msg) => {
                        &&& final(self).tokens == old(self).tokens
                        &&& result matches Err(e)
                        &&& e@ == ErrorView { line: final(self).line() as u32, msg }
                    },
                }
            }),
    {
        let c = self.advance();
        match c {
            '(' => self.add_token(TokenKind::LeftParen),
            ')' => self.add_token(TokenKind::RightParen),
            '{' => self.add_token(TokenKind::LeftBrace),
            '}' => self.add_token(TokenKind::RightBrace),
            ',' => self.add_token(TokenKind::Comma),
            '.' => self.add_token(TokenKind::Dot),
            '-' => self.add_token(TokenKind::Minus),
            '+' => self.add_token(TokenKind::Plus),
            ';' => self.add_token(TokenKind::Semicolon),
            '*' => self.add_token(TokenKind::Star),
            '!' => {
                let kind = if self.match_char('=') {
                    TokenKind::BangEqual
                } else {
                    TokenKind::Bang
                };
                self.add_token(kind);
            },
            '=' => {
                let kind = if self.match_char('=') {
                    TokenKind::EqualEqual
                } else {
                    TokenKind::Equal
                };
                self.add_token(kind);
            },
            '<' => {
                let kind = if self.match_char('=') {
                    TokenKind::LessEqual
                } else {
                    TokenKind::Less
                };
                self.add_token(kind);
            },
            '>' => {
                let kind = if self.match_char('=') {
                    TokenKind::GreaterEqual
                } else {
                    TokenKind::Greater
                };
                self.add_token(kind);
            },
            '/' => {
                if self.match_char('/') {
                    let ghost from = self.position();
                    while self.peek() != '\n' && !self.is_eof()
                        invariant
                            self.wf(),
                            self.lines_fit(),
                            self.source == old(self).source,
                            self.tokens == old(self).tokens,
                            self.line == old(self).line,
                            from <= self.position(),
                            run(self.source@, from, CharClass::Comment) == self.position() - from
                                + run(self.source@, self.position(), CharClass::Comment),
                        decreases self.source.len() - self.current,
                    {
                        self.advance();
                    }
                } else {
                    self.add_token(TokenKind::Slash);
                }
            },
            ' ' => {},
            '\r' => {},
            '\t' => {},
            '\n' => {
                self.line += 1;
            },
            '"' => {
                return self.add_string_literal();
            },
            _ => {
                if Self::is_digit(c) {
                    self.add_number_literal();
                } else if Self::is_alpha(c) {
                    self.add_identifier();
                } else {
                    let mut msg = String::from_str("Unknown character '");
                    msg.push(c);
                    msg.push('\'');
                    return self.error(msg);
                }
            },
        }
        Ok(())
    }

    /// Reads a string up to its closing quote; the opening quote has been read.
    fn add_string_literal(&mut self) -> (result: Result<(), Error>)
        requires
            old(self).wf(),
            old(self).lines_fit(),
            old(self).start + 1 == old(self).current,
        ensures
            final(self).wf(),
            final(self).lines_fit(),
            final(self).source == old(self).source,
            ({
                let source = old(self).source@;
                let from = old(self).position();
                let inside = run(source, from, CharClass::Quoted);
                &&& final(self).line() == old(self).line() + newlines(source, from, from + inside)
                &&& if from + inside >= source.len() {
                    &&& final(self).position() == from + inside
                    &&& final(self).tokens == old(self).tokens
                    &&& result matches Err(e)
                    &&& e@ == ErrorView {
                        line: final(self).line() as u32,
                        msg: "Unterminated string."@,
                    }
                } else {
                    &&& final(self).position() == from + inside + 1
                    &&& result is Ok
                    &&& token_views(final(self).tokens@) == token_views(old(self).tokens@).push(
                        TokenView {
                            kind: TokenKindView::StringLiteral(source.subrange(from, from + inside)),
                            line: final(self).line() as u32,
                        },
                    )
                }
            }),
    {
        let ghost from = self.position();
        assert(newlines(self.source@, from, from) == 0);
        while self.peek() != '"' && !self.is_eof()
            invariant
                self.wf(),
                self.lines_fit(),
                self.source == old(self).source,
                self.tokens == old(self).tokens,
                self.start == old(self).start,
                from <= self.position(),
                self.line() == old(self).line() + newlines(self.source@, from, self.position()),
                run(self.source@, from, CharClass::Quoted) == self.position() - from + run(
                    self.source@,
                    self.position(),
                    CharClass::Quoted,
                ),
            decreases self.source.len() - self.current,
        {
            proof {
                lemma_newlines_split(self.source@, from, self.position(), self.position() + 1);
                assert(newlines(self.source@, self.position() + 1, self.position() + 1) == 0);
            }
            if self.peek() == '\n' {
                self.line += 1;
            }
            self.advance();
        }

        if self.is_eof() {
            return self.error(String::from_str("Unterminated string."));
        }
        // The closing quote.

        self.advance();

        // The text between the quotes.
        let text = text_of(&self.source, self.start + 1, self.current - 1);
        self.add_token(TokenKind::StringLiteral(text));
        Ok(())
    }

    /// Reads a number to its end; its first digit has been read.
    fn add_number_literal(&mut self)
        requires
            old(self).wf(),
            old(self).lines_fit(),
            old(self).start + 1 == old(self).current,
        ensures
            final(self).wf(),
            final(self).lines_fit(),
            final(self).source == old(self).source,
            final(self).line == old(self).line,
            ({
                let source = old(self).source@;
                let at = old(self).start as int;
                let width = number_width(source, at);
                &&& final(self).position() == at + width
                &&& token_views(final(self).tokens@) == token_views(old(self).tokens@).push(
                    TokenView {
                        kind: TokenKindView::NumberLiteral(source.subrange(at, at + width)),
                        line: old(self).line,
                    },
                )
            }),
    {
        let ghost from = self.position();
        while Self::is_digit(self.peek())
            invariant
                self.wf(),
                self.lines_fit(),
                self.source == old(self).source,
                self.tokens == old(self).tokens,
                self.start == old(self).start,
                self.line == old(self).line,
                from <= self.position(),
                run(self.source@, from, CharClass::Digit) == self.position() - from + run(
                    self.source@,
                    self.position(),
                    CharClass::Digit,
                ),
            decreases self.source.len() - self.current,
        {
            self.advance();
        }

        // A fraction needs a digit behind the dot.
        if self.peek() == '.' && Self::is_digit(self.peek_next()) {
            self.advance();
            let ghost from = self.position();
            while Self::is_digit(self.peek())
                invariant
                    self.wf(),
                    self.lines_fit(),
                    self.source == old(self).source,
                    self.tokens == old(self).tokens,
                    self.start == old(self).start,
                    self.line == old(self).line,
                    from <= self.position(),
                    run(self.source@, from, CharClass::Digit) == self.position() - from + run(
                        self.source@,
                        self.position(),
                        CharClass::Digit,
                    ),
                decreases self.source.len() - self.current,
            {
                self.advance();
            }
        }
        let text = text_of(&self.source, self.start, self.current);
        self.add_token(TokenKind::NumberLiteral(text));
    }

    /// Reads a name or a reserved word to its end; its first character has been read.
    fn add_identifier(&mut self)
        requires
            old(self).wf(),
            old(self).lines_fit(),
            old(self).start + 1 == old(self).current,
        ensures
            final(self).wf(),
            final(self).lines_fit(),
            final(self).source == old(self).source,
            final(self).line == old(self).line,
            ({
                let source = old(self).source@;
                let at = old(self).start as int;
                let width = 1 + run(source, at + 1, CharClass::Alphanumeric);
                &&& final(self).position() == at + width
                &&& token_views(final(self).tokens@) == token_views(old(self).tokens@).push(
                    TokenView { kind: word(source.subrange(at, at + width)), line: old(self).line },
                )
            }),
    {
        let ghost from = self.position();
        while Self::is_alphanumeric(self.peek())
            invariant
                self.wf(),
                self.lines_fit(),
                self.source == old(self).source,
                self.tokens == old(self).tokens,
                self.start == old(self).start,
                self.line == old(self).line,
                from <= self.position(),
                run(self.source@, from, CharClass::Alphanumeric) == self.position() - from + run(
                    self.source@,
                    self.position(),
                    CharClass::Alphanumeric,
                ),
            decreases self.source.len() - self.current,
        {
            self.advance();
        }
        let text = text_of(&self.source, self.start, self.current);
        let kind = if Self::spells(&text, "and") {
            TokenKind::And
        } else if Self::spells(&text, "class") {
            TokenKind::Class
        } else if Self::spells(&text, "else") {
            TokenKind::Else
        } else if Self::spells(&text, "false") {
            TokenKind::False
        } else if Self::spells(&text, "for") {
            TokenKind::For
        } else if Self::spells(&text, "fun") {
            TokenKind::Fun
        } else if Self::spells(&text, "if") {
            TokenKind::If
        } else if Self::spells(&text, "nil") {
            TokenKind::Nil
        } else if Self::spells(&text, "or") {
            TokenKind::Or
        } else if Self::spells(&text, "print") {
            TokenKind::Print
        } else if Self::spells(&text, "return") {
            TokenKind::Return
        } else if Self::spells(&text, "super") {
            TokenKind::Super
        } else if Self::spells(&text, "this") {
            TokenKind::This
        } else if Self::spells(&text, "true") {
            TokenKind::True
        } else if Self::spells(&text, "var") {
            TokenKind::Var
        } else if Self::spells(&text, "while") {
            TokenKind::While
        } else {
            TokenKind::Identifier(text)
        };
        self.add_token(kind);
    }

    fn spells(text: &String, word: &str) -> (same: bool)
        ensures
            same == (text@ == word@),
    {
        let word = String::from_str(word);
        *text == word
    }

    fn is_eof(&self) -> (at_end: bool)
        requires
            self.wf(),
        ensures
            at_end == (self.current == self.source.len()),
    {
        self.current >= self.source.len()
    }

    /// Steps over the character at which the scanner stands and returns it.
    fn advance(&mut self) -> (c: char)
        requires
            old(self).current < old(self).source.len(),
        ensures
            c == old(self).source@[old(self).current as int],
            final(self).current == old(self).current + 1,
            final(self).source == old(self).source,
            final(self).tokens == old(self).tokens,
            final(self).start == old(self).start,
            final(self).line == old(self).line,
            newlines(old(self).source@, old(self).position(), old(self).source@.len() as int)
                == newlines(
                final(self).source@,
                final(self).position(),
                final(self).source@.len() as int,
            ) + if c == '\n' {
                1nat
            } else {
                0nat
            },
    {
        let c = self.source[self.current];
        self.current += 1;
        c
    }

    /// Steps over the character at which the scanner stands if it is `c`.
    fn match_char(&mut self, c: char) -> (matched: bool)
        requires
            old(self).wf(),
            old(self).lines_fit(),
            c != '\n',
        ensures
            matched == lexeme::stands(old(self).source@, old(self).position(), c),
            final(self).current == old(self).current + if matched { 1int } else { 0 },
            final(self).source == old(self).source,
            final(self).tokens == old(self).tokens,
            final(self).start == old(self).start,
            final(self).line == old(self).line,
            final(self).wf(),
            final(self).lines_fit(),
    {
        if self.is_eof() {
            return false;
        }
        if self.source[self.current] != c {
            return false;
        }
        self.current += 1;
        true
    }

    /// The character at which the scanner stands; the null character at the end.
    fn peek(&self) -> (c: char)
        requires
            self.wf(),
        ensures
            c == if self.current < self.source.len() {
                self.source@[self.current as int]
            } else {
                '\0'
            },
    {
        if self.is_eof() {
            return '\0';
        }
        self.source[self.current]
    }

    /// The character behind the one at which the scanner stands; the null character
    /// where there is none.
    fn peek_next(&self) -> (c: char)
        requires
            self.wf(),
        ensures
            c == if self.current + 1 < self.source.len() {
                self.source@[self.current + 1]
            } else {
                '\0'
            },
    {
        if self.current >= self.source.len() || self.current + 1 >= self.source.len() {
            return '\0';
        }
        self.source[self.current + 1]
    }

    /// Adds a token of `kind` on the line at which the scanner stands.
    fn add_token(&mut self, kind: TokenKind)
        ensures
            final(self).tokens@ == old(self).tokens@.push(Token { kind, line: old(self).line }),
            token_views(final(self).tokens@) == token_views(old(self).tokens@).push(
                TokenView { kind: kind@, line: old(self).line },
            ),
            final(self).source == old(self).source,
            final(self).start == old(self).start,
            final(self).current == old(self).current,
            final(self).line == old(self).line,
    {
        self.tokens.push(Token::new(kind, self.line));
        assert(token_views(self.tokens@) =~= token_views(old(self).tokens@).push(
            TokenView { kind: kind@, line: old(self).line },
        ));
    }

    /// The complaint `msg` about the line at which the scanner stands.
    fn error(&self, msg: String) -> (result: Result<(), Error>)
        ensures
            result matches Err(e) && e@ == (ErrorView { line: self.line, msg: msg@ }),
    {
        Err(Error { line: self.line, msg })
    }

    fn is_digit(c: char) -> (yes: bool)
        ensures
            yes == is_digit(c),
    {
        ('0' <= c && c <= '9') || c == '$'
    }

    fn is_alpha(c: char) -> (yes: bool)
        ensures
            yes == is_alpha(c),
    {
        ('a' <= c && c <= 'z') || ('A' <= c && c <= 'Z') || c == '_'
    }

    fn is_alphanumeric(c: char) -> (yes: bool)
        ensures
            yes == is_alphanumeric(c),
    {
        Self::is_digit(c) || Self::is_alpha(c)
    }
}

} // verus!
