use crate::scanner::laws::lemma_run_all;
use crate::scanner::lexeme::{
    is_alpha, is_alphanumeric, is_digit, lemma_lexeme_width, lemma_run_bound, lexeme, newlines,
    number_width, run, scan, stands, word, CharClass, Piece, Scan,
};
use crate::scanner::token::{TokenKindView, TokenView};
use vstd::prelude::*;

verus! {

/// The text that spells a token of the kind `kind`.
pub open spec fn spelling(kind: TokenKindView) -> Seq<char> {
    match kind {
        TokenKindView::LeftParen => seq!['('],
        TokenKindView::RightParen => seq![')'],
        TokenKindView::LeftBrace => seq!['{'],
        TokenKindView::RightBrace => seq!['}'],
        TokenKindView::Comma => seq![','],
        TokenKindView::Dot => seq!['.'],
        TokenKindView::Minus => seq!['-'],
        TokenKindView::Plus => seq!['+'],
        TokenKindView::Semicolon => seq![';'],
        TokenKindView::Slash => seq!['/'],
        TokenKindView::Star => seq!['*'],
        TokenKindView::Bang => seq!['!'],
        TokenKindView::BangEqual => seq!['!', '='],
        TokenKindView::Equal => seq!['='],
        TokenKindView::EqualEqual => seq!['=', '='],
        TokenKindView::Greater => seq!['>'],
        TokenKindView::GreaterEqual => seq!['>', '='],
        TokenKindView::Less => seq!['<'],
        TokenKindView::LessEqual => seq!['<', '='],
        TokenKindView::Identifier(text) => text,
        TokenKindView::StringLiteral(text) => seq!['"'] + text + seq!['"'],
        TokenKindView::NumberLiteral(text) => text,
        TokenKindView::And => "and"@,
        TokenKindView::Class => "class"@,
        TokenKindView::Else => "else"@,
        TokenKindView::False => "false"@,
        TokenKindView::Fun => "fun"@,
        TokenKindView::For => "for"@,
        TokenKindView::If => "if"@,
        TokenKindView::Nil => "nil"@,
        TokenKindView::Or => "or"@,
        TokenKindView::Print => "print"@,
        TokenKindView::Return => "return"@,
        TokenKindView::Super => "super"@,
        TokenKindView::This => "this"@,
        TokenKindView::True => "true"@,
        TokenKindView::Var => "var"@,
        TokenKindView::While => "while"@,
        TokenKindView::Eof => Seq::empty(),
    }
}

/// Whether `text` has the form of a name: a letter or `_`, then letters, digits and
/// `_`.
pub open spec fn is_name(text: Seq<char>) -> bool {
    &&& text.len() > 0
    &&& is_alpha(text[0])
    &&& forall|i: int| 0 <= i < text.len() ==> is_alphanumeric(#[trigger] text[i])
}

/// Whether a token of the kind `kind` can come out of scanning: a name has the form
/// of one and is no reserved word, a number is digits with at most one fraction, and
/// a string holds no quote. `Eof` is no token of the source.
pub open spec fn spellable(kind: TokenKindView) -> bool {
    match kind {
        TokenKindView::Identifier(text) => is_name(text) && word(text) == kind,
        TokenKindView::NumberLiteral(text) => text.len() > 0 && is_digit(text[0]) && number_width(
            text,
            0,
        ) == text.len(),
        TokenKindView::StringLiteral(text) => forall|i: int|
            0 <= i < text.len() ==> #[trigger] text[i] != '"',
        TokenKindView::Eof => false,
        _ => true,
    }
}

/// The source that spells the tokens of `kinds`, each followed by a blank.
pub open spec fn spelled(kinds: Seq<TokenKindView>) -> Seq<char>
    decreases kinds.len(),
{
    if kinds.len() == 0 {
        Seq::empty()
    } else {
        spelling(kinds[0]) + seq![' '] + spelled(kinds.drop_first())
    }
}

/// The kinds of a sequence of tokens, in order.
pub open spec fn kinds_of(tokens: Seq<TokenView>) -> Seq<TokenKindView> {
    tokens.map_values(|token: TokenView| token.kind)
}

/// A run does not depend on what stands before it.
pub proof fn lemma_run_shift(prefix: Seq<char>, rest: Seq<char>, i: int, class: CharClass)
    requires
        0 <= i,
    ensures
        run(prefix + rest, prefix.len() + i, class) == run(rest, i, class),
    decreases rest.len() - i,
{
    if i < rest.len() {
        assert((prefix + rest)[prefix.len() + i] == rest[i]);
        if class.holds(rest[i]) {
            lemma_run_shift(prefix, rest, i + 1, class);
        }
    }
}

/// The count of line ends does not depend on what stands before the stretch.
pub proof fn lemma_newlines_shift(prefix: Seq<char>, rest: Seq<char>, from: int, to: int)
    requires
        0 <= from <= to <= rest.len(),
    ensures
        newlines(prefix + rest, prefix.len() + from, prefix.len() + to) == newlines(
            rest,
            from,
            to,
        ),
    decreases to - from,
{
    if from < to {
        assert((prefix + rest)[prefix.len() + from] == rest[from]);
        lemma_newlines_shift(prefix, rest, from + 1, to);
    }
}

/// A lexeme does not depend on what stands before it.
pub proof fn lemma_lexeme_shift(prefix: Seq<char>, rest: Seq<char>, i: int)
    requires
        0 <= i < rest.len(),
    ensures
        lexeme(prefix + rest, prefix.len() + i) == lexeme(rest, i),
{
    let source = prefix + rest;
    let p = prefix.len() as int;
    let c = rest[i];
    assert(source[p + i] == c);
    if i + 1 < rest.len() {
        assert(source[p + i + 1] == rest[i + 1]);
    }
    assert(stands(source, p + i + 1, '=') == stands(rest, i + 1, '='));
    assert(stands(source, p + i + 1, '/') == stands(rest, i + 1, '/'));
    lemma_lexeme_width(rest, i);
    if c == '/' {
        lemma_run_shift(prefix, rest, i + 2, CharClass::Comment);
    } else if c == '"' {
        lemma_run_shift(prefix, rest, i + 1, CharClass::Quoted);
        lemma_run_bound(rest, i + 1, CharClass::Quoted);
        let inside = run(rest, i + 1, CharClass::Quoted);
        lemma_newlines_shift(prefix, rest, i + 1, i + 1 + inside);
        assert(source.subrange(p + i + 1, p + i + 1 + inside) =~= rest.subrange(
            i + 1,
            i + 1 + inside,
        ));
    } else if is_digit(c) {
        lemma_run_shift(prefix, rest, i + 1, CharClass::Digit);
        lemma_run_bound(rest, i + 1, CharClass::Digit);
        let whole = 1 + run(rest, i + 1, CharClass::Digit);
        lemma_run_shift(prefix, rest, i + whole + 1, CharClass::Digit);
        lemma_run_bound(rest, i + whole + 1, CharClass::Digit);
        if i + whole < rest.len() {
            assert(source[p + i + whole] == rest[i + whole]);
        }
        if i + whole + 1 < rest.len() {
            assert(source[p + i + whole + 1] == rest[i + whole + 1]);
        }
        assert(number_width(source, p + i) == number_width(rest, i));
        let width = number_width(rest, i);
        assert(source.subrange(p + i, p + i + width) =~= rest.subrange(i, i + width));
    } else if is_alpha(c) {
        lemma_run_shift(prefix, rest, i + 1, CharClass::Alphanumeric);
        lemma_run_bound(rest, i + 1, CharClass::Alphanumeric);
        let width = 1 + run(rest, i + 1, CharClass::Alphanumeric);
        assert(source.subrange(p + i, p + i + width) =~= rest.subrange(i, i + width));
    }
}

/// What scanning finds does not depend on what stands before the place where it
/// starts.
pub proof fn lemma_scan_shift(prefix: Seq<char>, rest: Seq<char>, i: int, line: nat)
    requires
        0 <= i <= rest.len(),
    ensures
        scan(prefix + rest, prefix.len() + i, line) == (Scan {
            tokens: scan(rest, i, line).tokens,
            end: scan(rest, i, line).end + prefix.len(),
            line: scan(rest, i, line).line,
            error: scan(rest, i, line).error,
        }),
    decreases rest.len() - i,
{
    if i < rest.len() {
        lemma_lexeme_shift(prefix, rest, i);
        lemma_lexeme_width(rest, i);
        let next = lexeme(rest, i);
        if !(next.piece is Error) {
            lemma_scan_shift(prefix, rest, i + next.width, line + next.lines);
        }
    }
}

/// A run within a text that a blank follows ends with the text at the latest.
pub proof fn lemma_run_before_blank(text: Seq<char>, tail: Seq<char>, at: int, class: CharClass)
    requires
        0 <= at <= text.len(),
        class is Digit || class is Alphanumeric,
    ensures
        run(text + seq![' '] + tail, at, class) == run(text, at, class),
    decreases text.len() - at,
{
    let source = text + seq![' '] + tail;
    if at < text.len() {
        assert(source[at] == text[at]);
        if class.holds(text[at]) {
            lemma_run_before_blank(text, tail, at + 1, class);
        }
    } else {
        assert(source[at] == ' ');
    }
}

/// The reserved words are names in form, and each is read as its own kind.
pub proof fn lemma_reserved_words()
    ensures
        is_name("and"@) && word("and"@) == TokenKindView::And,
        is_name("class"@) && word("class"@) == TokenKindView::Class,
        is_name("else"@) && word("else"@) == TokenKindView::Else,
        is_name("false"@) && word("false"@) == TokenKindView::False,
        is_name("for"@) && word("for"@) == TokenKindView::For,
        is_name("fun"@) && word("fun"@) == TokenKindView::Fun,
        is_name("if"@) && word("if"@) == TokenKindView::If,
        is_name("nil"@) && word("nil"@) == TokenKindView::Nil,
        is_name("or"@) && word("or"@) == TokenKindView::Or,
        is_name("print"@) && word("print"@) == TokenKindView::Print,
        is_name("return"@) && word("return"@) == TokenKindView::Return,
        is_name("super"@) && word("super"@) == TokenKindView::Super,
        is_name("this"@) && word("this"@) == TokenKindView::This,
        is_name("true"@) && word("true"@) == TokenKindView::True,
        is_name("var"@) && word("var"@) == TokenKindView::Var,
        is_name("while"@) && word("while"@) == TokenKindView::While,
{
    reveal_strlit("and");
    reveal_strlit("class");
    reveal_strlit("else");
    reveal_strlit("false");
    reveal_strlit("for");
    reveal_strlit("fun");
    reveal_strlit("if");
    reveal_strlit("nil");
    reveal_strlit("or");
    reveal_strlit("print");
    reveal_strlit("return");
    reveal_strlit("super");
    reveal_strlit("this");
    reveal_strlit("true");
    reveal_strlit("var");
    reveal_strlit("while");
    assert("and"@[0] == 'a' && "and"@[1] == 'n');
    assert("class"@[0] == 'c' && "class"@[1] == 'l');
    assert("else"@[0] == 'e' && "else"@[1] == 'l');
    assert("false"@[0] == 'f' && "false"@[1] == 'a');
    assert("for"@[0] == 'f' && "for"@[1] == 'o');
    assert("fun"@[0] == 'f' && "fun"@[1] == 'u');
    assert("if"@[0] == 'i' && "if"@[1] == 'f');
    assert("nil"@[0] == 'n' && "nil"@[1] == 'i');
    assert("or"@[0] == 'o' && "or"@[1] == 'r');
    assert("print"@[0] == 'p' && "print"@[1] == 'r');
    assert("return"@[0] == 'r' && "return"@[1] == 'e');
    assert("super"@[0] == 's' && "super"@[1] == 'u');
    assert("this"@[0] == 't' && "this"@[1] == 'h');
    assert("true"@[0] == 't' && "true"@[1] == 'r');
    assert("var"@[0] == 'v' && "var"@[1] == 'a');
    assert("while"@[0] == 'w' && "while"@[1] == 'h');
}

/// A text in the form of a name, followed by a blank, is read as one word.
pub proof fn lemma_name_is_read(text: Seq<char>, tail: Seq<char>)
    requires
        is_name(text),
    ensures
        lexeme(text + seq![' '] + tail, 0).width == text.len(),
        lexeme(text + seq![' '] + tail, 0).piece == Piece::Token(word(text)),
{
    let source = text + seq![' '] + tail;
    assert(source[0] == text[0]);
    lemma_run_before_blank(text, tail, 1, CharClass::Alphanumeric);
    lemma_run_all(text, 1, text.len() as int, CharClass::Alphanumeric);
    assert(source.subrange(0, text.len() as int) =~= text);
}

/// The text that spells a token, followed by a blank, is read as that token.
pub proof fn lemma_spelling_is_read(kind: TokenKindView, tail: Seq<char>)
    requires
        spellable(kind),
    ensures
        lexeme(spelling(kind) + seq![' '] + tail, 0).width == spelling(kind).len(),
        lexeme(spelling(kind) + seq![' '] + tail, 0).piece == Piece::Token(kind),
        spelling(kind).len() > 0,
{
    let text = spelling(kind);
    let source = text + seq![' '] + tail;
    match kind {
        TokenKindView::Identifier(_) => {
            lemma_name_is_read(text, tail);
        },
        TokenKindView::NumberLiteral(_) => {
            assert(source[0] == text[0]);
            lemma_run_before_blank(text, tail, 1, CharClass::Digit);
            lemma_run_bound(text, 1, CharClass::Digit);
            let whole: int = (1 + run(text, 1, CharClass::Digit)) as int;
            if whole + 1 <= text.len() {
                lemma_run_before_blank(text, tail, whole + 1, CharClass::Digit);
            }
            lemma_run_bound(text, whole + 1, CharClass::Digit);
            if whole < text.len() {
                assert(source[whole] == text[whole]);
            } else {
                assert(source[whole] == ' ');
            }
            if whole + 1 < text.len() {
                assert(source[whole + 1] == text[whole + 1]);
            } else if whole + 1 == text.len() {
                assert(source[whole + 1] == ' ');
            }
            assert(number_width(source, 0) == number_width(text, 0));
            assert(source.subrange(0, text.len() as int) =~= text);
        },
        TokenKindView::StringLiteral(inner) => {
            let close: int = (inner.len() + 1) as int;
            assert(source[0] == '"');
            assert(source[close] == '"');
            assert forall|i: int| 1 <= i < close implies CharClass::Quoted.holds(
                #[trigger] source[i],
            ) by {
                assert(source[i] == inner[i - 1]);
            }
            lemma_run_all(source, 1, close, CharClass::Quoted);
            assert(source.subrange(1, close) =~= inner);
        },
        TokenKindView::And
        | TokenKindView::Class
        | TokenKindView::Else
        | TokenKindView::False
        | TokenKindView::Fun
        | TokenKindView::For
        | TokenKindView::If
        | TokenKindView::Nil
        | TokenKindView::Or
        | TokenKindView::Print
        | TokenKindView::Return
        | TokenKindView::Super
        | TokenKindView::This
        | TokenKindView::True
        | TokenKindView::Var
        | TokenKindView::While => {
            lemma_reserved_words();
            lemma_name_is_read(text, tail);
        },
        _ => {
            assert(source[0] == text[0]);
            assert(source[text.len() as int] == ' ');
            if text.len() == 2 {
                assert(source[1] == text[1]);
            }
        },
    }
}

/// Scanning the text that spells tokens, with a blank behind each, gives tokens of
/// the same kinds in the same order, closed by `Eof`, and no complaint.
pub proof fn lemma_spelled_tokens_are_read_back(kinds: Seq<TokenKindView>, line: nat)
    requires
        forall|i: int| 0 <= i < kinds.len() ==> spellable(#[trigger] kinds[i]),
    ensures
        scan(spelled(kinds), 0, line).error is None,
        kinds_of(scan(spelled(kinds), 0, line).tokens) == kinds.push(TokenKindView::Eof),
    decreases kinds.len(),
{
    if kinds.len() == 0 {
        assert(kinds_of(scan(spelled(kinds), 0, line).tokens) =~= kinds.push(
            TokenKindView::Eof,
        ));
    } else {
        let first = kinds[0];
        let others = kinds.drop_first();
        let tail = spelled(others);
        let source = spelled(kinds);
        let text = spelling(first);
        let width = text.len() as int;
        lemma_spelling_is_read(first, tail);
        let next = lexeme(source, 0);
        assert(source[width] == ' ');
        let prefix = text + seq![' '];
        assert(source =~= prefix + tail);
        let line_behind = line + next.lines;
        lemma_scan_shift(prefix, tail, 0, line_behind);
        lemma_spelled_tokens_are_read_back(others, line_behind);
        let rest = scan(tail, 0, line_behind);
        assert(scan(source, width, line_behind) == scan(source, width + 1, line_behind));
        let found = scan(source, 0, line);
        assert(found.tokens == seq![TokenView { kind: first, line: line_behind as u32 }]
            + rest.tokens);
        assert(kinds_of(found.tokens) =~= seq![first] + kinds_of(rest.tokens));
        assert(seq![first] + others.push(TokenKindView::Eof) =~= kinds.push(
            TokenKindView::Eof,
        ));
    }
}

/// A run within a stretch of the source is the run in the source, cut at the end of
/// the stretch.
pub proof fn lemma_run_within(source: Seq<char>, from: int, to: int, i: int, class: CharClass)
    requires
        0 <= from <= to <= source.len(),
        0 <= i <= to - from,
    ensures
        run(source.subrange(from, to), i, class) == if from + i + run(source, from + i, class)
            <= to {
            run(source, from + i, class)
        } else {
            (to - from - i) as nat
        },
    decreases to - from - i,
{
    let text = source.subrange(from, to);
    lemma_run_bound(source, from + i, class);
    if i < to - from {
        assert(text[i] == source[from + i]);
        if class.holds(text[i]) {
            lemma_run_within(source, from, to, i + 1, class);
        }
    }
}

/// The token that a lexeme amounts to can come out of scanning, and its spelling is
/// the stretch of the source that the lexeme takes up.
pub proof fn lemma_lexeme_is_spelled(source: Seq<char>, at: int)
    requires
        0 <= at < source.len(),
        lexeme(source, at).piece is Token,
    ensures
        spellable(lexeme(source, at).piece->Token_0),
        spelling(lexeme(source, at).piece->Token_0) == source.subrange(
            at,
            at + lexeme(source, at).width,
        ),
{
    let next = lexeme(source, at);
    let kind = next.piece->Token_0;
    let c = source[at];
    let text = source.subrange(at, at + next.width);
    lemma_lexeme_width(source, at);
    lemma_reserved_words();
    if c == '"' {
        let inside = run(source, at + 1, CharClass::Quoted);
        let inner = source.subrange(at + 1, at + 1 + inside);
        assert forall|i: int| 0 <= i < inner.len() implies #[trigger] inner[i] != '"' by {
            crate::scanner::lexeme::lemma_run_holds(source, at + 1, CharClass::Quoted, at + 1 + i);
        }
        if source[at + 1 + inside] != '"' {
            crate::scanner::lexeme::lemma_run_split(
                source,
                at + 1,
                CharClass::Quoted,
                inside as int,
            );
        }
        assert(seq!['"'] + inner + seq!['"'] =~= text);
    } else if is_digit(c) {
        let whole: int = (1 + run(source, at + 1, CharClass::Digit)) as int;
        lemma_run_bound(source, at + 1, CharClass::Digit);
        lemma_run_bound(source, at + whole + 1, CharClass::Digit);
        lemma_run_within(source, at, at + next.width, 1, CharClass::Digit);
        if whole < next.width {
            lemma_run_within(source, at, at + next.width, whole + 1, CharClass::Digit);
        }
        assert(text[0] == c);
        if whole < next.width {
            assert(text[whole] == source[at + whole]);
            assert(text[whole + 1] == source[at + whole + 1]);
        }
        assert(number_width(text, 0) == text.len());
    } else if is_alpha(c) {
        assert(text[0] == c);
        assert forall|i: int| 0 <= i < text.len() implies is_alphanumeric(
            #[trigger] text[i],
        ) by {
            if i > 0 {
                crate::scanner::lexeme::lemma_run_holds(
                    source,
                    at + 1,
                    CharClass::Alphanumeric,
                    at + i,
                );
            }
        }
        assert(is_name(text));
    } else {
        assert(text[0] == c);
        if next.width == 2 {
            assert(text[1] == source[at + 1]);
        }
        assert(spelling(kind) =~= text);
    }
}

/// Every token that scanning reads, but for the closing `Eof`, can come out of
/// scanning again: put together with `lemma_spelled_tokens_are_read_back`, the
/// spellings of the tokens of a source, each followed by a blank, are scanned into
/// tokens of the same kinds.
pub proof fn lemma_scanned_tokens_are_spellable(source: Seq<char>, at: int, line: nat)
    requires
        0 <= at,
    ensures
        forall|i: int|
            0 <= i < scan(source, at, line).tokens.len() - 1 ==> spellable(
                (#[trigger] scan(source, at, line).tokens[i]).kind,
            ),
        scan(source, at, line).error is Some ==> forall|i: int|
            0 <= i < scan(source, at, line).tokens.len() ==> spellable(
                (#[trigger] scan(source, at, line).tokens[i]).kind,
            ),
    decreases source.len() - at,
{
    if at < source.len() {
        lemma_lexeme_width(source, at);
        let next = lexeme(source, at);
        if !(next.piece is Error) {
            let rest = scan(source, at + next.width, line + next.lines);
            lemma_scanned_tokens_are_spellable(source, at + next.width, line + next.lines);
            let found = scan(source, at, line);
            if next.piece is Token {
                lemma_lexeme_is_spelled(source, at);
                assert forall|i: int| 0 <= i < found.tokens.len() - 1 implies spellable(
                    (#[trigger] found.tokens[i]).kind,
                ) by {
                    if i > 0 {
                        assert(found.tokens[i] == rest.tokens[i - 1]);
                    }
                }
                if found.error is Some {
                    assert forall|i: int| 0 <= i < found.tokens.len() implies spellable(
                        (#[trigger] found.tokens[i]).kind,
                    ) by {
                        if i > 0 {
                            assert(found.tokens[i] == rest.tokens[i - 1]);
                        }
                    }
                }
            }
        }
    }
}

/// Scanning the lexemes again gives the same kinds: where a source is scanned without
/// complaint, the spellings of its tokens, each followed by a blank, are scanned into
/// tokens of the same kinds in the same order.
pub proof fn lemma_relexing_gives_the_same_kinds(source: Seq<char>, line: nat, again: nat)
    requires
        scan(source, 0, line).error is None,
    ensures
        kinds_of(scan(source, 0, line).tokens).len() > 0,
        scan(spelled(kinds_of(scan(source, 0, line).tokens).drop_last()), 0, again).error is None,
        kinds_of(
            scan(spelled(kinds_of(scan(source, 0, line).tokens).drop_last()), 0, again).tokens,
        ) == kinds_of(scan(source, 0, line).tokens),
{
    let tokens = scan(source, 0, line).tokens;
    let kinds = kinds_of(tokens).drop_last();
    crate::scanner::laws::lemma_scan_ends_with_eof(source, 0, line);
    lemma_scanned_tokens_are_spellable(source, 0, line);
    assert forall|i: int| 0 <= i < kinds.len() implies spellable(#[trigger] kinds[i]) by {
        assert(kinds[i] == tokens[i].kind);
    }
    lemma_spelled_tokens_are_read_back(kinds, again);
    assert(kinds.push(TokenKindView::Eof) =~= kinds_of(tokens));
}

} // verus!
