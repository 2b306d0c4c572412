use crate::text::{decimal, decimal_text, quoted, quoted_text};
use vstd::prelude::*;

verus! {

/// What a token is. The three literal kinds carry the text they were read from.
#[derive(Debug, PartialEq, Eq)]
pub enum TokenKind {
    // Single-character tokens
    LeftParen,
    RightParen,
    LeftBrace,
    RightBrace,
    Comma,
    Dot,
    Minus,
    Plus,
    Semicolon,
    Slash,
    Star,
    // One or two character tokens
    Bang,
    BangEqual,
    Equal,
    EqualEqual,
    Greater,
    GreaterEqual,
    Less,
    LessEqual,
    // Literals
    Identifier(String),
    StringLiteral(String),
    NumberLiteral(String),
    // Keywords
    And,
    Class,
    Else,
    False,
    Fun,
    For,
    If,
    Nil,
    Or,
    Print,
    Return,
    Super,
    This,
    True,
    Var,
    While,
    // End of input
    Eof,
}

/// The mathematical value of a [`TokenKind`]: the same tags, with the text as a sequence.
pub enum TokenKindView {
    // Single-character tokens
    LeftParen,
    RightParen,
    LeftBrace,
    RightBrace,
    Comma,
    Dot,
    Minus,
    Plus,
    Semicolon,
    Slash,
    Star,
    // One or two character tokens
    Bang,
    BangEqual,
    Equal,
    EqualEqual,
    Greater,
    GreaterEqual,
    Less,
    LessEqual,
    // Literals
    Identifier(Seq<char>),
    StringLiteral(Seq<char>),
    NumberLiteral(Seq<char>),
    // Keywords
    And,
    Class,
    Else,
    False,
    Fun,
    For,
    If,
    Nil,
    Or,
    Print,
    Return,
    Super,
    This,
    True,
    Var,
    While,
    // End of input
    Eof,
}

impl View for TokenKind {
    type V = TokenKindView;

    open spec fn view(&self) -> TokenKindView {
        match self {
            TokenKind::LeftParen => TokenKindView::LeftParen,
            TokenKind::RightParen => TokenKindView::RightParen,
            TokenKind::LeftBrace => TokenKindView::LeftBrace,
            TokenKind::RightBrace => TokenKindView::RightBrace,
            TokenKind::Comma => TokenKindView::Comma,
            TokenKind::Dot => TokenKindView::Dot,
            TokenKind::Minus => TokenKindView::Minus,
            TokenKind::Plus => TokenKindView::Plus,
            TokenKind::Semicolon => TokenKindView::Semicolon,
            TokenKind::Slash => TokenKindView::Slash,
            TokenKind::Star => TokenKindView::Star,
            TokenKind::Bang => TokenKindView::Bang,
            TokenKind::BangEqual => TokenKindView::BangEqual,
            TokenKind::Equal => TokenKindView::Equal,
            TokenKind::EqualEqual => TokenKindView::EqualEqual,
            TokenKind::Greater => TokenKindView::Greater,
            TokenKind::GreaterEqual => TokenKindView::GreaterEqual,
            TokenKind::Less => TokenKindView::Less,
            TokenKind::LessEqual => TokenKindView::LessEqual,
            TokenKind::Identifier(text) => TokenKindView::Identifier(text@),
            TokenKind::StringLiteral(text) => TokenKindView::StringLiteral(text@),
            TokenKind::NumberLiteral(text) => TokenKindView::NumberLiteral(text@),
            TokenKind::And => TokenKindView::And,
            TokenKind::Class => TokenKindView::Class,
            TokenKind::Else => TokenKindView::Else,
            TokenKind::False => TokenKindView::False,
            TokenKind::Fun => TokenKindView::Fun,
            TokenKind::For => TokenKindView::For,
            TokenKind::If => TokenKindView::If,
            TokenKind::Nil => TokenKindView::Nil,
            TokenKind::Or => TokenKindView::Or,
            TokenKind::Print => TokenKindView::Print,
            TokenKind::Return => TokenKindView::Return,
            TokenKind::Super => TokenKindView::Super,
            TokenKind::This => TokenKindView::This,
            TokenKind::True => TokenKindView::True,
            TokenKind::Var => TokenKindView::Var,
            TokenKind::While => TokenKindView::While,
            TokenKind::Eof => TokenKindView::Eof,
        }
    }
}

impl TokenKindView {
    /// The position of the tag in the declaration, which tells tags apart.
    pub closed spec fn tag(self) -> nat {
        match self {
            TokenKindView::LeftParen => 0,
            TokenKindView::RightParen => 1,
            TokenKindView::LeftBrace => 2,
            TokenKindView::RightBrace => 3,
            TokenKindView::Comma => 4,
            TokenKindView::Dot => 5,
            TokenKindView::Minus => 6,
            TokenKindView::Plus => 7,
            TokenKindView::Semicolon => 8,
            TokenKindView::Slash => 9,
            TokenKindView::Star => 10,
            TokenKindView::Bang => 11,
            TokenKindView::BangEqual => 12,
            TokenKindView::Equal => 13,
            TokenKindView::EqualEqual => 14,
            TokenKindView::Greater => 15,
            TokenKindView::GreaterEqual => 16,
            TokenKindView::Less => 17,
            TokenKindView::LessEqual => 18,
            TokenKindView::Identifier(_) => 19,
            TokenKindView::StringLiteral(_) => 20,
            TokenKindView::NumberLiteral(_) => 21,
            TokenKindView::And => 22,
            TokenKindView::Class => 23,
            TokenKindView::Else => 24,
            TokenKindView::False => 25,
            TokenKindView::Fun => 26,
            TokenKindView::For => 27,
            TokenKindView::If => 28,
            TokenKindView::Nil => 29,
            TokenKindView::Or => 30,
            TokenKindView::Print => 31,
            TokenKindView::Return => 32,
            TokenKindView::Super => 33,
            TokenKindView::This => 34,
            TokenKindView::True => 35,
            TokenKindView::Var => 36,
            TokenKindView::While => 37,
            TokenKindView::Eof => 38,
        }
    }

    /// Two kinds match when they carry the same tag, whatever text a literal holds.
    pub open spec fn match_kind(self, other: TokenKindView) -> bool {
        match (self, other) {
            (TokenKindView::Identifier(_), TokenKindView::Identifier(_)) => true,
            (TokenKindView::StringLiteral(_), TokenKindView::StringLiteral(_)) => true,
            (TokenKindView::NumberLiteral(_), TokenKindView::NumberLiteral(_)) => true,
            (a, b) => a == b,
        }
    }

    /// The tag's name as it is written in the declaration.
    pub open spec fn name(self) -> Seq<char> {
        match self {
            TokenKindView::LeftParen => "LeftParen"@,
            TokenKindView::RightParen => "RightParen"@,
            TokenKindView::LeftBrace => "LeftBrace"@,
            TokenKindView::RightBrace => "RightBrace"@,
            TokenKindView::Comma => "Comma"@,
            TokenKindView::Dot => "Dot"@,
            TokenKindView::Minus => "Minus"@,
            TokenKindView::Plus => "Plus"@,
            TokenKindView::Semicolon => "Semicolon"@,
            TokenKindView::Slash => "Slash"@,
            TokenKindView::Star => "Star"@,
            TokenKindView::Bang => "Bang"@,
            TokenKindView::BangEqual => "BangEqual"@,
            TokenKindView::Equal => "Equal"@,
            TokenKindView::EqualEqual => "EqualEqual"@,
            TokenKindView::Greater => "Greater"@,
            TokenKindView::GreaterEqual => "GreaterEqual"@,
            TokenKindView::Less => "Less"@,
            TokenKindView::LessEqual => "LessEqual"@,
            TokenKindView::Identifier(_) => "Identifier"@,
            TokenKindView::StringLiteral(_) => "StringLiteral"@,
            TokenKindView::NumberLiteral(_) => "NumberLiteral"@,
            TokenKindView::And => "And"@,
            TokenKindView::Class => "Class"@,
            TokenKindView::Else => "Else"@,
            TokenKindView::False => "False"@,
            TokenKindView::Fun => "Fun"@,
            TokenKindView::For => "For"@,
            TokenKindView::If => "If"@,
            TokenKindView::Nil => "Nil"@,
            TokenKindView::Or => "Or"@,
            TokenKindView::Print => "Print"@,
            TokenKindView::Return => "Return"@,
            TokenKindView::Super => "Super"@,
            TokenKindView::This => "This"@,
            TokenKindView::True => "True"@,
            TokenKindView::Var => "Var"@,
            TokenKindView::While => "While"@,
            TokenKindView::Eof => "Eof"@,
        }
    }

    /// The text a literal kind carries; empty for every other kind.
    pub open spec fn text(self) -> Seq<char> {
        match self {
            TokenKindView::Identifier(text) => text,
            TokenKindView::StringLiteral(text) => text,
            TokenKindView::NumberLiteral(text) => text,
            _ => Seq::empty(),
        }
    }

    /// Whether the kind is one of the three that carry text.
    pub open spec fn is_literal(self) -> bool {
        self is Identifier || self is StringLiteral || self is NumberLiteral
    }

    /// The kind shown for diagnostics: the tag's name, followed for a literal by its
    /// quoted text in parentheses.
    pub open spec fn debug(self) -> Seq<char> {
        if self.is_literal() {
            self.name() + seq!['('] + quoted_text(self.text()) + seq![')']
        } else {
            self.name()
        }
    }

    /// Tags are told apart by their position.
    pub proof fn lemma_match_kind_is_same_tag(self, other: TokenKindView)
        ensures
            self.match_kind(other) == (self.tag() == other.tag()),
    {
    }
}

impl Clone for TokenKind {
    fn clone(&self) -> (copy: Self)
        ensures
            copy@ == self@,
    {
        match self {
            TokenKind::LeftParen => TokenKind::LeftParen,
            TokenKind::RightParen => TokenKind::RightParen,
            TokenKind::LeftBrace => TokenKind::LeftBrace,
            TokenKind::RightBrace => TokenKind::RightBrace,
            TokenKind::Comma => TokenKind::Comma,
            TokenKind::Dot => TokenKind::Dot,
            TokenKind::Minus => TokenKind::Minus,
            TokenKind::Plus => TokenKind::Plus,
            TokenKind::Semicolon => TokenKind::Semicolon,
            TokenKind::Slash => TokenKind::Slash,
            TokenKind::Star => TokenKind::Star,
            TokenKind::Bang => TokenKind::Bang,
            TokenKind::BangEqual => TokenKind::BangEqual,
            TokenKind::Equal => TokenKind::Equal,
            TokenKind::EqualEqual => TokenKind::EqualEqual,
            TokenKind::Greater => TokenKind::Greater,
            TokenKind::GreaterEqual => TokenKind::GreaterEqual,
            TokenKind::Less => TokenKind::Less,
            TokenKind::LessEqual => TokenKind::LessEqual,
            TokenKind::Identifier(text) => TokenKind::Identifier(text.clone()),
            TokenKind::StringLiteral(text) => TokenKind::StringLiteral(text.clone()),
            TokenKind::NumberLiteral(text) => TokenKind::NumberLiteral(text.clone()),
            TokenKind::And => TokenKind::And,
            TokenKind::Class => TokenKind::Class,
            TokenKind::Else => TokenKind::Else,
            TokenKind::False => TokenKind::False,
            TokenKind::Fun => TokenKind::Fun,
            TokenKind::For => TokenKind::For,
            TokenKind::If => TokenKind::If,
            TokenKind::Nil => TokenKind::Nil,
            TokenKind::Or => TokenKind::Or,
            TokenKind::Print => TokenKind::Print,
            TokenKind::Return => TokenKind::Return,
            TokenKind::Super => TokenKind::Super,
            TokenKind::This => TokenKind::This,
            TokenKind::True => TokenKind::True,
            TokenKind::Var => TokenKind::Var,
            TokenKind::While => TokenKind::While,
            TokenKind::Eof => TokenKind::Eof,
        }
    }
}

impl TokenKind {
    fn tag(&self) -> (tag: u8)
        ensures
            tag == self@.tag(),
    {
        match self {
            TokenKind::LeftParen => 0,
            TokenKind::RightParen => 1,
            TokenKind::LeftBrace => 2,
            TokenKind::RightBrace => 3,
            TokenKind::Comma => 4,
            TokenKind::Dot => 5,
            TokenKind::Minus => 6,
            TokenKind::Plus => 7,
            TokenKind::Semicolon => 8,
            TokenKind::Slash => 9,
            TokenKind::Star => 10,
            TokenKind::Bang => 11,
            TokenKind::BangEqual => 12,
            TokenKind::Equal => 13,
            TokenKind::EqualEqual => 14,
            TokenKind::Greater => 15,
            TokenKind::GreaterEqual => 16,
            TokenKind::Less => 17,
            TokenKind::LessEqual => 18,
            TokenKind::Identifier(_) => 19,
            TokenKind::StringLiteral(_) => 20,
            TokenKind::NumberLiteral(_) => 21,
            TokenKind::And => 22,
            TokenKind::Class => 23,
            TokenKind::Else => 24,
            TokenKind::False => 25,
            TokenKind::Fun => 26,
            TokenKind::For => 27,
            TokenKind::If => 28,
            TokenKind::Nil => 29,
            TokenKind::Or => 30,
            TokenKind::Print => 31,
            TokenKind::Return => 32,
            TokenKind::Super => 33,
            TokenKind::This => 34,
            TokenKind::True => 35,
            TokenKind::Var => 36,
            TokenKind::While => 37,
            TokenKind::Eof => 38,
        }
    }

    fn name(&self) -> (name: &'static str)
        ensures
            name@ == self@.name(),
    {
        match self {
            TokenKind::LeftParen => "LeftParen",
            TokenKind::RightParen => "RightParen",
            TokenKind::LeftBrace => "LeftBrace",
            TokenKind::RightBrace => "RightBrace",
            TokenKind::Comma => "Comma",
            TokenKind::Dot => "Dot",
            TokenKind::Minus => "Minus",
            TokenKind::Plus => "Plus",
            TokenKind::Semicolon => "Semicolon",
            TokenKind::Slash => "Slash",
            TokenKind::Star => "Star",
            TokenKind::Bang => "Bang",
            TokenKind::BangEqual => "BangEqual",
            TokenKind::Equal => "Equal",
            TokenKind::EqualEqual => "EqualEqual",
            TokenKind::Greater => "Greater",
            TokenKind::GreaterEqual => "GreaterEqual",
            TokenKind::Less => "Less",
            TokenKind::LessEqual => "LessEqual",
            TokenKind::Identifier(_) => "Identifier",
            TokenKind::StringLiteral(_) => "StringLiteral",
            TokenKind::NumberLiteral(_) => "NumberLiteral",
            TokenKind::And => "And",
            TokenKind::Class => "Class",
            TokenKind::Else => "Else",
            TokenKind::False => "False",
            TokenKind::Fun => "Fun",
            TokenKind::For => "For",
            TokenKind::If => "If",
            TokenKind::Nil => "Nil",
            TokenKind::Or => "Or",
            TokenKind::Print => "Print",
            TokenKind::Return => "Return",
            TokenKind::Super => "Super",
            TokenKind::This => "This",
            TokenKind::True => "True",
            TokenKind::Var => "Var",
            TokenKind::While => "While",
            TokenKind::Eof => "Eof",
        }
    }

    /// Tells whether `other` carries the same tag as `self`; the text of a literal is not
    /// compared.
    pub fn match_kind(&self, other: &TokenKind) -> (same: bool)
        ensures
            same == self@.match_kind(other@),
    {
        proof {
            self@.lemma_match_kind_is_same_tag(other@);
        }
        self.tag() == other.tag()
    }

    /// Renders the kind for diagnostics.
    pub fn debug(&self) -> (shown: String)
        ensures
            shown@ == self@.debug(),
    {
        let mut shown = String::from_str(self.name());
        match self {
            TokenKind::Identifier(text) | TokenKind::StringLiteral(text) | TokenKind::NumberLiteral(text) => {
                shown.push('(');
                let inner = quoted(text.as_str());
                shown.append(inner.as_str());
                shown.push(')');
                assert(shown@ =~= self@.debug());
            },
            _ => {},
        }
        shown
    }
}

/// A token and the line on which it ends.
#[derive(Debug, PartialEq, Eq)]
pub struct Token {
    pub kind: TokenKind,
    pub line: u32,
}

/// The mathematical value of a [`Token`].
pub struct TokenView {
    pub kind: TokenKindView,
    pub line: u32,
}

impl View for Token {
    type V = TokenView;

    open spec fn view(&self) -> TokenView {
        TokenView { kind: self.kind@, line: self.line }
    }
}

impl TokenView {
    /// The token shown for diagnostics, with its kind and its line.
    pub open spec fn debug(self) -> Seq<char> {
        "Token { kind: "@ + self.kind.debug() + ", line: "@ + decimal_text(self.line as nat) + " }"@
    }
}

impl Clone for Token {
    fn clone(&self) -> (copy: Self)
        ensures
            copy@ == self@,
    {
        Token { kind: self.kind.clone(), line: self.line }
    }
}

impl Token {
    pub fn new(kind: TokenKind, line: u32) -> (token: Self)
        ensures
            token.kind == kind,
            token.line == line,
    {
        Self { kind, line }
    }

    /// The token as it is shown to a user: its kind, rendered for diagnostics.
    pub fn to_string(&self) -> (shown: String)
        ensures
            shown@ == self@.kind.debug(),
    {
        self.kind.debug()
    }

    /// The token rendered for diagnostics, with its kind and its line.
    pub fn debug(&self) -> (shown: String)
        ensures
            shown@ == self@.debug(),
    {
        let mut shown = String::from_str("Token { kind: ");
        let kind = self.kind.debug();
        shown.append(kind.as_str());
        shown.append(", line: ");
        let line = decimal(self.line);
        shown.append(line.as_str());
        shown.append(" }");
        shown
    }
}

/// The views of a sequence of tokens, in order.
pub open spec fn token_views(tokens: Seq<Token>) -> Seq<TokenView> {
    tokens.map_values(|token: Token| token@)
}

} // verus!
