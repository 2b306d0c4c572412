use wendell::ast::expr::Expr;
use wendell::ast::stmt::Stmt;
use wendell::error::Error;
use wendell::interpreter::Interpreter;
use wendell::parser::Parser;
use wendell::scanner::token::{Token, TokenKind};

fn tokens(source: &str) -> Vec<Token> {
    Interpreter::scan(source.to_string(), 1).unwrap()
}

fn parse(source: &str) -> Result<Vec<Stmt>, Error> {
    let mut parser = Parser::new(tokens(source));
    match parser.parse() {
        Ok(()) => {
            assert!(parser.is_eof());
            Ok(parser.stmts)
        },
        Err(e) => Err(e),
    }
}

fn expression(source: &str) -> Expr {
    let mut stmts = parse(&format!("{};", source)).unwrap();
    assert_eq!(stmts.len(), 1);
    match stmts.remove(0) {
        Stmt::Expression { expression } => expression,
        other => panic!("no expression statement: {:?}", other),
    }
}

fn complaint(source: &str) -> Error {
    parse(source).unwrap_err()
}

fn tok(kind: TokenKind) -> Token {
    Token::new(kind, 1)
}

fn num(text: &str) -> Expr {
    Expr::new_literal(tok(TokenKind::NumberLiteral(text.to_string())))
}

fn var(text: &str) -> Expr {
    Expr::new_variable(name(text))
}

fn name(text: &str) -> Token {
    tok(TokenKind::Identifier(text.to_string()))
}

fn binary(left: Expr, kind: TokenKind, right: Expr) -> Expr {
    Expr::new_binary(Box::new(left), tok(kind), Box::new(right))
}

#[test]
fn multiplication_binds_tighter_than_addition() {
    assert_eq!(
        expression("1 + 2 * 3"),
        binary(num("1"), TokenKind::Plus, binary(num("2"), TokenKind::Star, num("3")))
    );
    assert_eq!(
        expression("1 * 2 + 3"),
        binary(binary(num("1"), TokenKind::Star, num("2")), TokenKind::Plus, num("3"))
    );
}

#[test]
fn operators_of_one_level_nest_to_the_left() {
    assert_eq!(
        expression("1 - 2 - 3"),
        binary(binary(num("1"), TokenKind::Minus, num("2")), TokenKind::Minus, num("3"))
    );
    assert_eq!(
        expression("8 / 4 / 2"),
        binary(binary(num("8"), TokenKind::Slash, num("4")), TokenKind::Slash, num("2"))
    );
}

#[test]
fn comparison_binds_tighter_than_equality() {
    assert_eq!(
        expression("1 < 2 == 3 >= 4"),
        binary(
            binary(num("1"), TokenKind::Less, num("2")),
            TokenKind::EqualEqual,
            binary(num("3"), TokenKind::GreaterEqual, num("4")),
        )
    );
}

#[test]
fn and_is_read_before_or() {
    let t = || Expr::new_literal(tok(TokenKind::True));
    let f = || Expr::new_literal(tok(TokenKind::False));
    assert_eq!(
        expression("true and false or true"),
        binary(binary(t(), TokenKind::And, f()), TokenKind::Or, t())
    );
}

#[test]
fn the_right_side_of_a_logic_operator_is_a_comparison() {
    assert_eq!(
        expression("a or b < c"),
        binary(var("a"), TokenKind::Or, binary(var("b"), TokenKind::Less, var("c")))
    );
    assert_eq!(
        expression("a == b == c"),
        binary(binary(var("a"), TokenKind::EqualEqual, var("b")), TokenKind::EqualEqual, var("c"))
    );
    assert_eq!(
        complaint("a or b == c;"),
        Error {
            line: 1,
            msg: "Expect ';' after expression. Found 'Token { kind: EqualEqual, line: 1 }'"
                .to_string()
        }
    );
}

#[test]
fn unary_operators_nest_to_the_right() {
    assert_eq!(
        expression("!-x"),
        Expr::new_unary(
            tok(TokenKind::Bang),
            Box::new(Expr::new_unary(tok(TokenKind::Minus), Box::new(var("x")))),
        )
    );
    assert_eq!(
        expression("-1 * 2"),
        binary(
            Expr::new_unary(tok(TokenKind::Minus), Box::new(num("1"))),
            TokenKind::Star,
            num("2"),
        )
    );
}

#[test]
fn parentheses_group() {
    assert_eq!(
        expression("(1 + 2) * 3"),
        binary(
            Expr::new_grouping(Box::new(binary(num("1"), TokenKind::Plus, num("2")))),
            TokenKind::Star,
            num("3"),
        )
    );
}

#[test]
fn literals_and_names_are_primary() {
    assert_eq!(expression("nil"), Expr::new_literal(tok(TokenKind::Nil)));
    assert_eq!(
        expression("\"s\""),
        Expr::new_literal(tok(TokenKind::StringLiteral("s".to_string())))
    );
    assert_eq!(expression("x"), var("x"));
}

#[test]
fn assignment_nests_to_the_right_and_wants_a_name() {
    assert_eq!(
        expression("a = b = 1"),
        Expr::new_assign(name("a"), Box::new(Expr::new_assign(name("b"), Box::new(num("1")))))
    );
    assert_eq!(
        complaint("1 = 2;"),
        Error { line: 1, msg: "Invalid assignment target.".to_string() }
    );
    assert_eq!(
        complaint("(a) = 2;"),
        Error { line: 1, msg: "Invalid assignment target.".to_string() }
    );
}

#[test]
fn calls_hold_the_opening_parenthesis_and_chain() {
    let source = tokens("f(1,\nx)\n(\n);");
    let open_first = source[1].clone();
    let open_second = source[6].clone();
    assert_eq!(open_first, Token::new(TokenKind::LeftParen, 1));
    assert_eq!(open_second, Token::new(TokenKind::LeftParen, 3));
    let mut parser = Parser::new(source);
    assert_eq!(parser.parse(), Ok(()));
    let x = Expr::new_variable(Token::new(TokenKind::Identifier("x".to_string()), 2));
    assert_eq!(
        parser.stmts,
        vec![Stmt::new_expression(Expr::new_call(
            Box::new(Expr::new_call(Box::new(var("f")), open_first, vec![num("1"), x])),
            open_second,
            vec![],
        ))]
    );
}

#[test]
fn a_call_wants_its_closing_parenthesis() {
    assert_eq!(
        complaint("f(1;"),
        Error {
            line: 1,
            msg: "Expect ')' after arguments. Found 'Token { kind: Semicolon, line: 1 }'"
                .to_string()
        }
    );
}

#[test]
fn var_declaration_with_and_without_value() {
    assert_eq!(
        parse("var a = 1; var b;"),
        Ok(vec![
            Stmt::new_var(name("a"), num("1")),
            Stmt::new_var(name("b"), Expr::new_literal(tok(TokenKind::Nil))),
        ])
    );
    assert_eq!(
        complaint("var 1;"),
        Error {
            line: 1,
            msg: "Expect variable name. Found 'Token { kind: NumberLiteral(\"1\"), line: 1 }'"
                .to_string()
        }
    );
    assert_eq!(
        complaint("var a = 1"),
        Error {
            line: 1,
            msg: "Expect ';' after var statement. Found 'Token { kind: Eof, line: 1 }'"
                .to_string()
        }
    );
}

#[test]
fn function_declaration() {
    assert_eq!(
        parse("fun f(a, b) { print a; }"),
        Ok(vec![Stmt::new_function(
            name("f"),
            vec![name("a"), name("b")],
            Box::new(Stmt::new_block(vec![Stmt::new_print(var("a"))])),
        )])
    );
    assert_eq!(
        parse("fun g() {}"),
        Ok(vec![Stmt::new_function(name("g"), vec![], Box::new(Stmt::new_block(vec![])))])
    );
}

#[test]
fn function_declaration_complaints() {
    assert_eq!(
        complaint("fun (a) {}"),
        Error {
            line: 1,
            msg: "Expect function name. Found 'Token { kind: LeftParen, line: 1 }'".to_string()
        }
    );
    assert_eq!(
        complaint("fun f a) {}"),
        Error {
            line: 1,
            msg: "Expect '(' after function name. Found 'Token { kind: Identifier(\"a\"), line: 1 }'"
                .to_string()
        }
    );
    assert_eq!(
        complaint("fun f(a, 1) {}"),
        Error {
            line: 1,
            msg: "Expect parameter name. Found 'Token { kind: NumberLiteral(\"1\"), line: 1 }'"
                .to_string()
        }
    );
    assert_eq!(
        complaint("fun f(a b) {}"),
        Error {
            line: 1,
            msg: "Expect ')' after parameters. Found 'Token { kind: Identifier(\"b\"), line: 1 }'"
                .to_string()
        }
    );
    assert_eq!(
        complaint("fun f(a)\nprint a;"),
        Error { line: 2, msg: "Expect '{' before function body.".to_string() }
    );
}

#[test]
fn if_with_and_without_else() {
    assert_eq!(
        parse("if (a) print 1; else print 2;"),
        Ok(vec![Stmt::new_if(
            1,
            var("a"),
            Box::new(Stmt::new_print(num("1"))),
            Box::new(Stmt::new_print(num("2"))),
        )])
    );
    assert_eq!(
        parse("if (a) print 1;"),
        Ok(vec![Stmt::new_if(
            1,
            var("a"),
            Box::new(Stmt::new_print(num("1"))),
            Box::new(Stmt::Empty),
        )])
    );
}

#[test]
fn else_belongs_to_the_nearest_if() {
    assert_eq!(
        parse("if (a) if (b) print 1; else print 2;"),
        Ok(vec![Stmt::new_if(
            1,
            var("a"),
            Box::new(Stmt::new_if(
                1,
                var("b"),
                Box::new(Stmt::new_print(num("1"))),
                Box::new(Stmt::new_print(num("2"))),
            )),
            Box::new(Stmt::Empty),
        )])
    );
}

#[test]
fn while_statement_keeps_the_line_of_its_keyword() {
    let stmts = parse("\nwhile (a)\n  a = b;").unwrap();
    match &stmts[0] {
        Stmt::While { line_number, .. } => assert_eq!(*line_number, 2),
        other => panic!("no while: {:?}", other),
    }
    assert_eq!(
        complaint("while a) b;"),
        Error {
            line: 1,
            msg: "Expect '(' after 'if'. Found 'Token { kind: Identifier(\"a\"), line: 1 }'"
                .to_string()
        }
    );
    assert_eq!(
        complaint("while (a b;"),
        Error {
            line: 1,
            msg: "Expect ')' after while condition. Found 'Token { kind: Identifier(\"b\"), line: 1 }'"
                .to_string()
        }
    );
}

#[test]
fn for_stands_for_a_while_in_a_block() {
    let by_hand = parse("{ var i = 0; while (i < 3) { print i; i = i + 1; } }").unwrap();
    let with_for = parse("for (var i = 0; i < 3; i = i + 1) print i;").unwrap();
    assert_eq!(with_for, by_hand);
    let increment = Stmt::new_expression(Expr::new_assign(
        name("i"),
        Box::new(binary(var("i"), TokenKind::Plus, num("1"))),
    ));
    assert_eq!(
        with_for,
        vec![Stmt::new_block(vec![
            Stmt::new_var(name("i"), num("0")),
            Stmt::new_while(
                1,
                binary(var("i"), TokenKind::Less, num("3")),
                Box::new(Stmt::new_block(vec![Stmt::new_print(var("i")), increment])),
            ),
        ])]
    );
}

#[test]
fn for_without_clauses_loops_on_true() {
    assert_eq!(
        parse("\n\nfor (;;) f();"),
        Ok(vec![Stmt::new_block(vec![
            Stmt::Empty,
            Stmt::new_while(
                3,
                Expr::new_literal(Token::new(TokenKind::True, 3)),
                Box::new(Stmt::new_block(vec![
                    Stmt::new_expression(Expr::new_call(
                        Box::new(Expr::new_variable(Token::new(
                            TokenKind::Identifier("f".to_string()),
                            3
                        ))),
                        Token::new(TokenKind::LeftParen, 3),
                        vec![],
                    )),
                    Stmt::Empty,
                ])),
            ),
        ])])
    );
}

#[test]
fn for_with_an_expression_to_start() {
    assert_eq!(
        parse("for (i = 0; ; ) x;"),
        Ok(vec![Stmt::new_block(vec![
            Stmt::new_expression(Expr::new_assign(name("i"), Box::new(num("0")))),
            Stmt::new_while(
                1,
                Expr::new_literal(tok(TokenKind::True)),
                Box::new(Stmt::new_block(vec![Stmt::new_expression(var("x")), Stmt::Empty])),
            ),
        ])])
    );
    assert_eq!(
        complaint("for (;i < 1) x;"),
        Error {
            line: 1,
            msg: "Expect ';' after loop condition. Found 'Token { kind: RightParen, line: 1 }'"
                .to_string()
        }
    );
    assert_eq!(
        complaint("for (;;i = 1 x;"),
        Error {
            line: 1,
            msg: "Expect ')' after for clauses. Found 'Token { kind: Identifier(\"x\"), line: 1 }'"
                .to_string()
        }
    );
}

#[test]
fn blocks_nest() {
    assert_eq!(
        parse("{ { } var a; }"),
        Ok(vec![Stmt::new_block(vec![
            Stmt::new_block(vec![]),
            Stmt::new_var(name("a"), Expr::new_literal(tok(TokenKind::Nil))),
        ])])
    );
}

#[test]
fn an_open_block_is_a_complaint_and_recovery_goes_on() {
    let mut parser = Parser::new(tokens("{ print 1;\nprint 2;"));
    assert_eq!(
        parser.parse(),
        Err(Error {
            line: 2,
            msg: "Expect '}' after print statement. Found 'Token { kind: Eof, line: 2 }'"
                .to_string()
        })
    );
    assert!(parser.stmts.is_empty());
    let stood = parser.current;
    parser.synchronize();
    assert_eq!(parser.current, stood);
    assert!(parser.is_eof());
    assert_eq!(parser.parse(), Ok(()));
}

#[test]
fn recovery_takes_up_behind_a_semicolon_or_before_a_statement() {
    let mut parser = Parser::new(tokens("print 1 2 3; print 4; + var a;"));
    assert!(parser.parse().is_err());
    assert_eq!(parser.current, 2);
    parser.synchronize();
    assert_eq!(parser.current, 5);
    let complaint = parser.parse().unwrap_err();
    assert_eq!(complaint.msg, "Unexpected token 'Plus'");
    assert_eq!(parser.stmts, vec![Stmt::new_print(num("4"))]);
    assert_eq!(parser.current, 9);
    parser.synchronize();
    assert_eq!(parser.current, 12);
    assert_eq!(parser.parse(), Ok(()));
    assert_eq!(parser.stmts.len(), 1);
    assert!(parser.is_eof());
}

#[test]
fn recovery_stops_before_a_word_that_starts_a_statement() {
    let mut parser = Parser::new(tokens("a b c var d;"));
    assert!(parser.parse().is_err());
    assert_eq!(parser.current, 1);
    parser.synchronize();
    assert_eq!(parser.current, 3);
    assert_eq!(parser.parse(), Ok(()));
    assert_eq!(
        parser.stmts,
        vec![Stmt::new_var(name("d"), Expr::new_literal(tok(TokenKind::Nil)))]
    );
}

#[test]
fn an_expression_cannot_start_with_an_operator_or_at_the_end() {
    assert_eq!(complaint("* 1;").msg, "Unexpected token 'Star'");
    assert_eq!(
        complaint("print"),
        Error { line: 1, msg: "Unexpected token 'Eof'".to_string() }
    );
    assert_eq!(
        complaint("print (\n"),
        Error { line: 2, msg: "Unexpected token 'Eof'".to_string() }
    );
    assert_eq!(
        complaint("(1 + 2;"),
        Error {
            line: 1,
            msg: "Expect ')' after expression. Found 'Token { kind: Semicolon, line: 1 }'"
                .to_string()
        }
    );
}

#[test]
fn a_complaint_carries_the_line_of_the_token_read_next() {
    assert_eq!(
        complaint("print 1\n\nprint 2;"),
        Error {
            line: 3,
            msg: "Expect ';' after print statement. Found 'Token { kind: Print, line: 3 }'"
                .to_string()
        }
    );
    assert_eq!(complaint("1 +\n;\n").line, 3);
}

#[test]
fn every_declaration_becomes_one_statement() {
    let mut parser = Parser::new(tokens("var a; fun f() {} { a; } print a; a; if (a) a; while (a) a;"));
    assert_eq!(parser.parse(), Ok(()));
    assert_eq!(parser.stmts.len(), 7);
    assert!(parser.is_eof());
    assert_eq!(parser.current + 1, parser.tokens.len());
}

#[test]
fn an_empty_program_has_no_statements() {
    assert_eq!(parse(""), Ok(vec![]));
    assert_eq!(parse("// nothing\n"), Ok(vec![]));
}

#[test]
fn all_complaints_of_a_program_are_collected() {
    let errors = Interpreter::parse(tokens("print 1 2; var; print 3;\n{")).unwrap_err();
    let messages: Vec<&str> = errors.iter().map(|e: &Error| e.msg.as_str()).collect();
    assert_eq!(
        messages,
        vec![
            "Expect ';' after print statement. Found 'Token { kind: NumberLiteral(\"2\"), line: 1 }'",
            "Expect variable name. Found 'Token { kind: Semicolon, line: 1 }'",
            "Expect '}' after print statement. Found 'Token { kind: Eof, line: 2 }'",
        ]
    );
    assert_eq!(errors[2].line, 2);
    assert_eq!(
        Interpreter::parse(tokens("var a = 1; print a;")),
        Ok(vec![Stmt::new_var(name("a"), num("1")), Stmt::new_print(var("a"))])
    );
}

#[test]
fn all_complaints_of_a_source_are_collected() {
    let errors = Interpreter::scan("a @ b\n# \"open".to_string(), 3).unwrap_err();
    assert_eq!(
        errors,
        vec![
            Error { line: 3, msg: "Unknown character '@'".to_string() },
            Error { line: 4, msg: "Unknown character '#'".to_string() },
            Error { line: 4, msg: "Unterminated string.".to_string() },
        ]
    );
    assert_eq!(
        Interpreter::scan("\n".to_string(), u32::MAX),
        Err(vec![Error { line: u32::MAX, msg: "Too many lines.".to_string() }])
    );
}

#[test]
fn if_and_for_want_their_parentheses() {
    assert_eq!(
        complaint("if a) b;"),
        Error {
            line: 1,
            msg: "Expect '(' after 'if'. Found 'Token { kind: Identifier(\"a\"), line: 1 }'"
                .to_string()
        }
    );
    assert_eq!(
        complaint("if (a b;"),
        Error {
            line: 1,
            msg: "Expect ')' after if condition. Found 'Token { kind: Identifier(\"b\"), line: 1 }'"
                .to_string()
        }
    );
    assert_eq!(
        complaint("for x;"),
        Error {
            line: 1,
            msg: "Expect '(' after 'if'. Found 'Token { kind: Identifier(\"x\"), line: 1 }'"
                .to_string()
        }
    );
}

#[test]
fn reserved_words_without_a_use_are_refused() {
    assert_eq!(complaint("return 1;").msg, "Unexpected token 'Return'");
    assert_eq!(complaint("class A {}").msg, "Unexpected token 'Class'");
    assert_eq!(complaint("print this;").msg, "Unexpected token 'This'");
    assert_eq!(complaint("super;").msg, "Unexpected token 'Super'");
}
