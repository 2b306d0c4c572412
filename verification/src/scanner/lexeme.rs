use crate::error::ErrorView;
use crate::scanner::token::{TokenKindView, TokenView};
use vstd::prelude::*;

verus! {

/// A digit of a number: an ASCII digit, or `$`, which is read as one. So `$1` is
/// scanned as a number, which the host then refuses to read, and `x$` as a name.
pub open spec fn is_digit(c: char) -> bool {
    ('0' <= c && c <= '9') || c == '$'
}

/// A character that may start a name: an ASCII letter or `_`.
pub open spec fn is_alpha(c: char) -> bool {
    ('a' <= c && c <= 'z') || ('A' <= c && c <= 'Z') || c == '_'
}

/// A character that may continue a name.
pub open spec fn is_alphanumeric(c: char) -> bool {
    is_digit(c) || is_alpha(c)
}

/// The classes of characters that a lexeme keeps consuming.
pub enum CharClass {
    /// The digits of a number.
    Digit,
    /// The characters of a name.
    Alphanumeric,
    /// What a comment holds: anything but the end of the line.
    Comment,
    /// What a string holds: anything but the closing quote.
    Quoted,
}

impl CharClass {
    pub open spec fn holds(self, c: char) -> bool {
        match self {
            CharClass::Digit => is_digit(c),
            CharClass::Alphanumeric => is_alphanumeric(c),
            CharClass::Comment => c != '\n',
            CharClass::Quoted => c != '"',
        }
    }
}

/// How many characters of `class` stand in `source` from `at` on, without a gap.
pub open spec fn run(source: Seq<char>, at: int, class: CharClass) -> nat
    decreases source.len() - at,
{
    if 0 <= at < source.len() && class.holds(source[at]) {
        1 + run(source, at + 1, class)
    } else {
        0
    }
}

/// How many line ends `source` holds from `from` up to, not including, `to`.
pub open spec fn newlines(source: Seq<char>, from: int, to: int) -> nat
    decreases to - from,
{
    if 0 <= from < to <= source.len() {
        (if source[from] == '\n' { 1nat } else { 0nat }) + newlines(source, from + 1, to)
    } else {
        0
    }
}

/// Whether the character `c` stands at `at`.
pub open spec fn stands(source: Seq<char>, at: int, c: char) -> bool {
    0 <= at < source.len() && source[at] == c
}

/// The reserved word that `text` spells, or the name it is.
pub open spec fn word(text: Seq<char>) -> TokenKindView {
    if text == "and"@ {
        TokenKindView::And
    } else if text == "class"@ {
        TokenKindView::Class
    } else if text == "else"@ {
        TokenKindView::Else
    } else if text == "false"@ {
        TokenKindView::False
    } else if text == "for"@ {
        TokenKindView::For
    } else if text == "fun"@ {
        TokenKindView::Fun
    } else if text == "if"@ {
        TokenKindView::If
    } else if text == "nil"@ {
        TokenKindView::Nil
    } else if text == "or"@ {
        TokenKindView::Or
    } else if text == "print"@ {
        TokenKindView::Print
    } else if text == "return"@ {
        TokenKindView::Return
    } else if text == "super"@ {
        TokenKindView::Super
    } else if text == "this"@ {
        TokenKindView::This
    } else if text == "true"@ {
        TokenKindView::True
    } else if text == "var"@ {
        TokenKindView::Var
    } else if text == "while"@ {
        TokenKindView::While
    } else {
        TokenKindView::Identifier(text)
    }
}

/// What a stretch of the source amounts to.
pub enum Piece {
    /// A token of this kind.
    Token(TokenKindView),
    /// Blank space or a comment.
    Skip,
    /// Something that is no token, with the complaint about it.
    Error(Seq<char>),
}

/// One stretch of the source, as the scanner reads it in one go.
pub struct Lexeme {
    /// How many characters it takes up; at least one.
    pub width: nat,
    /// How many line ends lie within it.
    pub lines: nat,
    pub piece: Piece,
}

/// A lexeme of one character that holds no line end.
pub open spec fn single(piece: Piece) -> Lexeme {
    Lexeme { width: 1, lines: 0, piece }
}

/// An operator that is `long` when `=` follows it and `short` when not.
pub open spec fn operator(source: Seq<char>, at: int, long: TokenKindView, short: TokenKindView) -> Lexeme {
    if stands(source, at + 1, '=') {
        Lexeme { width: 2, lines: 0, piece: Piece::Token(long) }
    } else {
        single(Piece::Token(short))
    }
}

/// The width of the number that starts at `at`: its digits and, where a dot and a
/// digit follow them, the dot and the digits of the fraction.
pub open spec fn number_width(source: Seq<char>, at: int) -> nat {
    let whole = 1 + run(source, at + 1, CharClass::Digit);
    if stands(source, at + whole, '.') && at + whole + 1 < source.len() && is_digit(
        source[at + whole + 1],
    ) {
        whole + 1 + run(source, at + whole + 1, CharClass::Digit)
    } else {
        whole
    }
}

/// The complaint about a character that starts no lexeme.
pub open spec fn unknown_character(c: char) -> Seq<char> {
    "Unknown character '"@.push(c).push('\'')
}

/// The lexeme that starts at `at`, for `0 <= at < source.len()`.
pub open spec fn lexeme(source: Seq<char>, at: int) -> Lexeme {
    let c = source[at];
    if c == '(' {
        single(Piece::Token(TokenKindView::LeftParen))
    } else if c == ')' {
        single(Piece::Token(TokenKindView::RightParen))
    } else if c == '{' {
        single(Piece::Token(TokenKindView::LeftBrace))
    } else if c == '}' {
        single(Piece::Token(TokenKindView::RightBrace))
    } else if c == ',' {
        single(Piece::Token(TokenKindView::Comma))
    } else if c == '.' {
        single(Piece::Token(TokenKindView::Dot))
    } else if c == '-' {
        single(Piece::Token(TokenKindView::Minus))
    } else if c == '+' {
        single(Piece::Token(TokenKindView::Plus))
    } else if c == ';' {
        single(Piece::Token(TokenKindView::Semicolon))
    } else if c == '*' {
        single(Piece::Token(TokenKindView::Star))
    } else if c == '!' {
        operator(source, at, TokenKindView::BangEqual, TokenKindView::Bang)
    } else if c == '=' {
        operator(source, at, TokenKindView::EqualEqual, TokenKindView::Equal)
    } else if c == '<' {
        operator(source, at, TokenKindView::LessEqual, TokenKindView::Less)
    } else if c == '>' {
        operator(source, at, TokenKindView::GreaterEqual, TokenKindView::Greater)
    } else if c == '/' {
        if stands(source, at + 1, '/') {
            Lexeme { width: 2 + run(source, at + 2, CharClass::Comment), lines: 0, piece: Piece::Skip }
        } else {
            single(Piece::Token(TokenKindView::Slash))
        }
    } else if c == ' ' || c == '\r' || c == '\t' {
        single(Piece::Skip)
    } else if c == '\n' {
        Lexeme { width: 1, lines: 1, piece: Piece::Skip }
    } else if c == '"' {
        let inside = run(source, at + 1, CharClass::Quoted);
        let lines = newlines(source, at + 1, at + 1 + inside);
        if at + 1 + inside >= source.len() {
            Lexeme { width: 1 + inside, lines, piece: Piece::Error("Unterminated string."@) }
        } else {
            Lexeme {
                width: inside + 2,
                lines,
                piece: Piece::Token(
                    TokenKindView::StringLiteral(source.subrange(at + 1, at + 1 + inside)),
                ),
            }
        }
    } else if is_digit(c) {
        let width = number_width(source, at);
        Lexeme {
            width,
            lines: 0,
            piece: Piece::Token(TokenKindView::NumberLiteral(source.subrange(at, at + width))),
        }
    } else if is_alpha(c) {
        let width = 1 + run(source, at + 1, CharClass::Alphanumeric);
        Lexeme { width, lines: 0, piece: Piece::Token(word(source.subrange(at, at + width))) }
    } else {
        single(Piece::Error(unknown_character(c)))
    }
}

/// What scanning yields from some place in the source on.
pub struct Scan {
    /// The tokens read, in order; closed by `Eof` where the end was reached.
    pub tokens: Seq<TokenView>,
    /// Where scanning stopped: at the end, or behind the lexeme that is no token.
    pub end: int,
    /// The line at that place.
    pub line: nat,
    /// The complaint that stopped it short of the end, if one did.
    pub error: Option<ErrorView>,
}

/// Scanning `source` from `at` on, where `line` is the line at `at`: lexeme by lexeme
/// up to the end of the source, or up to the first lexeme that is no token.
/// Every lexeme takes at least one character and ends within the source
/// (`lemma_lexeme_width`).
pub open spec fn scan(source: Seq<char>, at: int, line: nat) -> Scan
    decreases source.len() - at,
{
    if !(0 <= at < source.len()) {
        Scan {
            tokens: seq![TokenView { kind: TokenKindView::Eof, line: line as u32 }],
            end: at,
            line,
            error: None,
        }
    } else {
        let next = lexeme(source, at);
        let line = line + next.lines;
        if next.width == 0 || at + next.width > source.len() {
            Scan { tokens: Seq::empty(), end: at, line, error: None }
        } else {
            match next.piece {
                Piece::Error(msg) => Scan {
                    tokens: Seq::empty(),
                    end: at + next.width,
                    line,
                    error: Some(ErrorView { line: line as u32, msg }),
                },
                Piece::Skip => scan(source, at + next.width, line),
                Piece::Token(kind) => {
                    let rest = scan(source, at + next.width, line);
                    Scan {
                        tokens: seq![TokenView { kind, line: line as u32 }] + rest.tokens,
                        end: rest.end,
                        line: rest.line,
                        error: rest.error,
                    }
                },
            }
        }
    }
}

/// A lexeme takes up at least one character and never reaches past the end.
pub proof fn lemma_lexeme_width(source: Seq<char>, at: int)
    requires
        0 <= at < source.len(),
    ensures
        1 <= lexeme(source, at).width <= source.len() - at,
{
    lemma_run_bound(source, at + 1, CharClass::Digit);
    lemma_run_bound(source, at + 1, CharClass::Alphanumeric);
    lemma_run_bound(source, at + 1, CharClass::Quoted);
    lemma_run_bound(source, at + 2, CharClass::Comment);
    let whole = 1 + run(source, at + 1, CharClass::Digit);
    lemma_run_bound(source, at + whole + 1, CharClass::Digit);
}

/// A run ends within the source.
pub proof fn lemma_run_bound(source: Seq<char>, at: int, class: CharClass)
    requires
        0 <= at,
    ensures
        at <= source.len() ==> at + run(source, at, class) <= source.len(),
        at > source.len() ==> run(source, at, class) == 0,
    decreases source.len() - at,
{
    if at < source.len() && class.holds(source[at]) {
        lemma_run_bound(source, at + 1, class);
    }
}

/// Line ends are counted piece by piece.
pub proof fn lemma_newlines_split(source: Seq<char>, from: int, mid: int, to: int)
    requires
        0 <= from <= mid <= to <= source.len(),
    ensures
        newlines(source, from, to) == newlines(source, from, mid) + newlines(source, mid, to),
    decreases mid - from,
{
    if from < mid {
        lemma_newlines_split(source, from + 1, mid, to);
    }
}

/// A stretch that holds no line end counts none.
pub proof fn lemma_newlines_none(source: Seq<char>, from: int, to: int)
    requires
        0 <= from <= to <= source.len(),
        forall|i: int| from <= i < to ==> source[i] != '\n',
    ensures
        newlines(source, from, to) == 0,
    decreases to - from,
{
    if from < to {
        lemma_newlines_none(source, from + 1, to);
    }
}

/// Every character of a run belongs to the run's class.
pub proof fn lemma_run_holds(source: Seq<char>, at: int, class: CharClass, i: int)
    requires
        0 <= at <= i < at + run(source, at, class),
    ensures
        i < source.len(),
        class.holds(source[i]),
    decreases i - at,
{
    if i > at {
        lemma_run_holds(source, at + 1, class, i);
    }
}

/// The lines that a lexeme counts are the line ends that lie within it.
pub proof fn lemma_lexeme_lines(source: Seq<char>, at: int)
    requires
        0 <= at < source.len(),
    ensures
        lexeme(source, at).lines == newlines(source, at, at + lexeme(source, at).width),
{
    let next = lexeme(source, at);
    let c = source[at];
    lemma_lexeme_width(source, at);
    if c == '"' {
        let inside = run(source, at + 1, CharClass::Quoted);
        lemma_newlines_split(source, at, at + 1, at + next.width);
        lemma_newlines_none(source, at, at + 1);
        if at + 1 + inside < source.len() {
            lemma_newlines_split(source, at + 1, at + 1 + inside, at + next.width);
            assert(source[at + 1 + inside] != '\n') by {
                if source[at + 1 + inside] != '"' {
                    assert(run(source, at + 1 + inside, CharClass::Quoted) >= 1);
                    lemma_run_split(source, at + 1, CharClass::Quoted, inside as int);
                }
            }
            lemma_newlines_none(source, at + 1 + inside, at + next.width);
        }
    } else if c == '\n' {
        assert(newlines(source, at + 1, at + 1) == 0);
    } else {
        assert forall|i: int| at <= i < at + next.width implies source[i] != '\n' by {
            if i > at {
                if c == '/' {
                    if i > at + 1 {
                        lemma_run_holds(source, at + 2, CharClass::Comment, i);
                    }
                } else if is_digit(c) {
                    let whole = 1 + run(source, at + 1, CharClass::Digit);
                    if i < at + whole {
                        lemma_run_holds(source, at + 1, CharClass::Digit, i);
                    } else if i > at + whole {
                        lemma_run_holds(source, at + whole + 1, CharClass::Digit, i);
                    }
                } else if is_alpha(c) {
                    lemma_run_holds(source, at + 1, CharClass::Alphanumeric, i);
                }
            }
        }
        lemma_newlines_none(source, at, at + next.width);
    }
}

/// A run counted from its start is what was passed plus what is counted from there.
pub proof fn lemma_run_split(source: Seq<char>, at: int, class: CharClass, passed: int)
    requires
        0 <= at,
        0 <= passed <= run(source, at, class),
    ensures
        run(source, at, class) == passed + run(source, at + passed, class),
    decreases passed,
{
    if passed > 0 {
        lemma_run_split(source, at + 1, class, passed - 1);
    }
}

/// What scanning a source yields when it takes up again behind every lexeme that is
/// no token: the tokens read, and the complaints in the order in which they came up.
/// Behind a complaint scanning has moved on (`lemma_scan_error_goes_on`).
pub open spec fn scanned(source: Seq<char>, at: int, line: nat) -> (Seq<TokenView>, Seq<ErrorView>)
    decreases source.len() - at,
{
    let found = scan(source, at, line);
    match found.error {
        None => (found.tokens, Seq::empty()),
        Some(e) => {
            if at < found.end <= source.len() {
                let rest = scanned(source, found.end, found.line);
                (found.tokens + rest.0, seq![e] + rest.1)
            } else {
                (found.tokens, seq![e])
            }
        },
    }
}

/// Scanning that stops at a lexeme that is no token stops behind it, within the
/// source.
pub proof fn lemma_scan_error_goes_on(source: Seq<char>, at: int, line: nat)
    requires
        0 <= at,
    ensures
        scan(source, at, line).error is Some ==> at < scan(source, at, line).end
            <= source.len(),
    decreases source.len() - at,
{
    if at < source.len() {
        lemma_lexeme_width(source, at);
        let next = lexeme(source, at);
        if !(next.piece is Error) {
            lemma_scan_error_goes_on(source, at + next.width, line + next.lines);
        }
    }
}

} // verus!
