use wendell::error::Error;
use wendell::scanner::token::{Token, TokenKind};
use wendell::scanner::Scanner;

fn scan(source: &str, start_line: u32) -> Result<Vec<Token>, Error> {
    let mut scanner = Scanner::new(source.to_string(), start_line);
    assert!(scanner.has_room());
    match scanner.scan_all_tokens() {
        Ok(()) => Ok(scanner.tokens),
        Err(e) => Err(e),
    }
}

fn kinds(source: &str) -> Vec<TokenKind> {
    scan(source, 1).unwrap().iter().map(|token: &Token| token.kind.clone()).collect()
}

fn lines(source: &str, start_line: u32) -> Vec<u32> {
    scan(source, start_line).unwrap().iter().map(|token: &Token| token.line).collect()
}

fn name(text: &str) -> TokenKind {
    TokenKind::Identifier(text.to_string())
}

fn number(text: &str) -> TokenKind {
    TokenKind::NumberLiteral(text.to_string())
}

fn string(text: &str) -> TokenKind {
    TokenKind::StringLiteral(text.to_string())
}

#[test]
fn main() {
}

#[test]
fn empty_source_is_eof_alone() {
    assert_eq!(scan("", 7).unwrap(), vec![Token::new(TokenKind::Eof, 7)]);
}

#[test]
fn scans_punctuation() {
    assert_eq!(
        kinds("(){},.-+;*"),
        vec![
            TokenKind::LeftParen,
            TokenKind::RightParen,
            TokenKind::LeftBrace,
            TokenKind::RightBrace,
            TokenKind::Comma,
            TokenKind::Dot,
            TokenKind::Minus,
            TokenKind::Plus,
            TokenKind::Semicolon,
            TokenKind::Star,
            TokenKind::Eof,
        ]
    );
}

#[test]
fn scans_operators_of_one_and_two_characters() {
    assert_eq!(
        kinds("! != = == < <= > >= / // rest\n*"),
        vec![
            TokenKind::Bang,
            TokenKind::BangEqual,
            TokenKind::Equal,
            TokenKind::EqualEqual,
            TokenKind::Less,
            TokenKind::LessEqual,
            TokenKind::Greater,
            TokenKind::GreaterEqual,
            TokenKind::Slash,
            TokenKind::Star,
            TokenKind::Eof,
        ]
    );
}

#[test]
fn two_character_operator_needs_the_equal_sign_next() {
    assert_eq!(
        kinds("! ="),
        vec![TokenKind::Bang, TokenKind::Equal, TokenKind::Eof]
    );
    assert_eq!(kinds("==="), vec![TokenKind::EqualEqual, TokenKind::Equal, TokenKind::Eof]);
}

#[test]
fn scans_every_keyword() {
    assert_eq!(
        kinds("and class else false for fun if nil or print return super this true var while"),
        vec![
            TokenKind::And,
            TokenKind::Class,
            TokenKind::Else,
            TokenKind::False,
            TokenKind::For,
            TokenKind::Fun,
            TokenKind::If,
            TokenKind::Nil,
            TokenKind::Or,
            TokenKind::Print,
            TokenKind::Return,
            TokenKind::Super,
            TokenKind::This,
            TokenKind::True,
            TokenKind::Var,
            TokenKind::While,
            TokenKind::Eof,
        ]
    );
}

#[test]
fn a_keyword_inside_a_name_is_a_name() {
    assert_eq!(
        kinds("andy _if whiles For x$y a1"),
        vec![name("andy"), name("_if"), name("whiles"), name("For"), name("x$y"), name("a1"), TokenKind::Eof]
    );
}

#[test]
fn scans_numbers_with_and_without_fraction() {
    assert_eq!(
        kinds("12 3.25 7. .5 1.2.3"),
        vec![
            number("12"),
            number("3.25"),
            number("7"),
            TokenKind::Dot,
            TokenKind::Dot,
            number("5"),
            number("1.2"),
            TokenKind::Dot,
            number("3"),
            TokenKind::Eof,
        ]
    );
}

#[test]
fn dollar_counts_as_a_digit() {
    assert_eq!(kinds("$123 1$.$"), vec![number("$123"), number("1$.$"), TokenKind::Eof]);
}

#[test]
fn a_number_ends_before_a_letter() {
    assert_eq!(kinds("12ab"), vec![number("12"), name("ab"), TokenKind::Eof]);
}

#[test]
fn scans_strings_without_their_quotes() {
    assert_eq!(
        kinds("\"hi\" \"\" \"a b\""),
        vec![string("hi"), string(""), string("a b"), TokenKind::Eof]
    );
}

#[test]
fn a_string_may_span_lines_and_ends_on_its_last() {
    let tokens = scan("\"a\nb\nc\" x", 1).unwrap();
    assert_eq!(
        tokens,
        vec![
            Token::new(string("a\nb\nc"), 3),
            Token::new(name("x"), 3),
            Token::new(TokenKind::Eof, 3),
        ]
    );
}

#[test]
fn lines_are_counted_from_the_start_line() {
    assert_eq!(lines("a\nb\n\nc", 5), vec![5, 6, 8, 8]);
    assert_eq!(lines("a // note\nb", 1), vec![1, 2, 2]);
}

#[test]
fn lines_never_go_back() {
    let found = lines("var a = 1;\n{ print \"x\ny\"; }\n// c\nfun f(a,\nb) {}", 3);
    for pair in found.windows(2) {
        assert!(pair[0] <= pair[1]);
    }
    assert_eq!(found.last(), Some(&8));
}

#[test]
fn a_comment_runs_to_the_end_of_its_line() {
    assert_eq!(kinds("1 // 2 \"\n3"), vec![number("1"), number("3"), TokenKind::Eof]);
    assert_eq!(kinds("// only"), vec![TokenKind::Eof]);
}

#[test]
fn blank_space_is_skipped() {
    assert_eq!(kinds(" \t\r\n a \r\n"), vec![name("a"), TokenKind::Eof]);
}

#[test]
fn unknown_character_is_reported_with_its_line() {
    assert_eq!(
        scan("a\n@", 1),
        Err(Error { line: 2, msg: "Unknown character '@'".to_string() })
    );
    assert_eq!(
        scan("é", 4),
        Err(Error { line: 4, msg: "Unknown character 'é'".to_string() })
    );
}

#[test]
fn unterminated_string_is_reported_on_the_opening_line() {
    assert_eq!(
        scan("var a = \"abc", 1),
        Err(Error { line: 1, msg: "Unterminated string.".to_string() })
    );
    assert_eq!(
        scan("x\ny \"", 1),
        Err(Error { line: 2, msg: "Unterminated string.".to_string() })
    );
}

#[test]
fn unterminated_string_over_lines_is_reported_on_the_last_line() {
    assert_eq!(
        scan("\"a\nb\n", 1),
        Err(Error { line: 3, msg: "Unterminated string.".to_string() })
    );
}

#[test]
fn scanning_goes_on_behind_a_complaint() {
    let mut scanner = Scanner::new("a @ b # c".to_string(), 1);
    assert!(scanner.has_room());
    assert_eq!(
        scanner.scan_all_tokens(),
        Err(Error { line: 1, msg: "Unknown character '@'".to_string() })
    );
    assert_eq!(scanner.tokens, vec![Token::new(name("a"), 1)]);
    assert_eq!(
        scanner.scan_all_tokens(),
        Err(Error { line: 1, msg: "Unknown character '#'".to_string() })
    );
    assert_eq!(scanner.scan_all_tokens(), Ok(()));
    assert_eq!(
        scanner.tokens,
        vec![
            Token::new(name("a"), 1),
            Token::new(name("b"), 1),
            Token::new(name("c"), 1),
            Token::new(TokenKind::Eof, 1),
        ]
    );
}

#[test]
fn room_for_lines_is_told_before_scanning() {
    let scanner = Scanner::new("a\nb".to_string(), u32::MAX);
    assert!(!scanner.has_room());
    let scanner = Scanner::new("a\nb".to_string(), u32::MAX - 1);
    assert!(scanner.has_room());
    let scanner = Scanner::new("ab".to_string(), u32::MAX);
    assert!(scanner.has_room());
}

#[test]
fn match_kind_compares_tags_only() {
    assert!(name("a").match_kind(&name("b")));
    assert!(number("1").match_kind(&number("2")));
    assert!(string("x").match_kind(&string("")));
    assert!(!name("a").match_kind(&string("a")));
    assert!(!number("1").match_kind(&name("1")));
    assert!(TokenKind::Plus.match_kind(&TokenKind::Plus));
    assert!(!TokenKind::Plus.match_kind(&TokenKind::Minus));
    assert!(!TokenKind::Eof.match_kind(&name("Eof")));
}

#[test]
fn tokens_are_shown_for_diagnostics() {
    assert_eq!(Token::new(TokenKind::Plus, 3).to_string(), "Plus");
    assert_eq!(Token::new(name("abc"), 3).to_string(), "Identifier(\"abc\")");
    assert_eq!(Token::new(number("1.5"), 3).to_string(), "NumberLiteral(\"1.5\")");
    assert_eq!(
        Token::new(string("a\"b\n"), 3).to_string(),
        "StringLiteral(\"a\\\"b\\n\")"
    );
    assert_eq!(Token::new(TokenKind::Eof, 12).debug(), "Token { kind: Eof, line: 12 }");
    assert_eq!(
        Token::new(name("x"), 4294967295).debug(),
        "Token { kind: Identifier(\"x\"), line: 4294967295 }"
    );
    assert_eq!(Token::new(TokenKind::Nil, 0).debug(), "Token { kind: Nil, line: 0 }");
}

#[test]
fn scanning_the_lexemes_again_gives_the_same_kinds() {
    let source = "var x$1 = (12.5 + $3) * \"a b\"; // c\nif (x >= 1 and !y) { print -x / 2; } else f(a, b.c) != nil == true < 1 <= 2 > 3";
    let first = kinds(source);
    let mut again = String::new();
    for kind in &first {
        let lexeme = match kind {
            TokenKind::Identifier(text) | TokenKind::NumberLiteral(text) => text.clone(),
            TokenKind::StringLiteral(text) => format!("\"{}\"", text),
            TokenKind::LeftParen => "(".to_string(),
            TokenKind::RightParen => ")".to_string(),
            TokenKind::LeftBrace => "{".to_string(),
            TokenKind::RightBrace => "}".to_string(),
            TokenKind::Comma => ",".to_string(),
            TokenKind::Dot => ".".to_string(),
            TokenKind::Minus => "-".to_string(),
            TokenKind::Plus => "+".to_string(),
            TokenKind::Semicolon => ";".to_string(),
            TokenKind::Slash => "/".to_string(),
            TokenKind::Star => "*".to_string(),
            TokenKind::Bang => "!".to_string(),
            TokenKind::BangEqual => "!=".to_string(),
            TokenKind::Equal => "=".to_string(),
            TokenKind::EqualEqual => "==".to_string(),
            TokenKind::Greater => ">".to_string(),
            TokenKind::GreaterEqual => ">=".to_string(),
            TokenKind::Less => "<".to_string(),
            TokenKind::LessEqual => "<=".to_string(),
            TokenKind::Eof => String::new(),
            keyword => format!("{:?}", keyword).to_lowercase(),
        };
        again.push_str(&lexeme);
        again.push(' ');
    }
    assert_eq!(kinds(&again), first);
}
