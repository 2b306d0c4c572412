use crate::ast::expr::ExprView;
use crate::ast::stmt::StmtView;
use crate::error::ErrorView;
use crate::scanner::token::{TokenKindView, TokenView};
use vstd::prelude::*;

verus! {

/// What reading a phrase from some place in the tokens comes to.
pub struct Parsed<T> {
    /// How many tokens were taken, up to the complaint where there is one.
    pub used: nat,
    /// What was read, or the complaint about the token behind those taken.
    pub result: Result<T, Seq<char>>,
}

/// A phrase read in full.
pub open spec fn done<T>(used: nat, value: T) -> Parsed<T> {
    Parsed { used, result: Ok(value) }
}

/// A phrase given up after `used` tokens.
pub open spec fn fail<T>(used: nat, msg: Seq<char>) -> Parsed<T> {
    Parsed { used, result: Err(msg) }
}

/// The kind of the token at `at`; behind the last token there is only the end.
pub open spec fn kind_at(tokens: Seq<TokenView>, at: nat) -> TokenKindView {
    if at < tokens.len() {
        tokens[at as int].kind
    } else {
        TokenKindView::Eof
    }
}

/// How many tokens stand from `at` on.
pub open spec fn left(tokens: Seq<TokenView>, at: nat) -> nat {
    if at < tokens.len() {
        (tokens.len() - at) as nat
    } else {
        0
    }
}

/// Whether the token at `at` is of the kind `kind`; the end is of no kind.
pub open spec fn check(tokens: Seq<TokenView>, at: nat, kind: TokenKindView) -> bool {
    !(kind_at(tokens, at) is Eof) && kind_at(tokens, at).match_kind(kind)
}

/// The complaint `msg`, naming the token that was found instead.
pub open spec fn found(msg: Seq<char>, token: TokenView) -> Seq<char> {
    msg + " Found '"@ + token.debug() + "'"@
}

/// The complaint about a token with which no expression starts.
pub open spec fn unexpected(token: TokenView) -> Seq<char> {
    "Unexpected token '"@ + token.kind.debug() + "'"@
}

/// Takes the token at `at` if it is of the kind `kind`, and complains with `msg` if not.
pub open spec fn consume(tokens: Seq<TokenView>, at: nat, kind: TokenKindView, msg: Seq<char>) -> Parsed<TokenView> {
    if check(tokens, at, kind) {
        done(1, tokens[at as int])
    } else {
        fail(0, found(msg, tokens[at as int]))
    }
}

/// The levels of the operators with two operands, from the one that binds tightest:
/// 1 `* /`, 2 `+ -`, 3 `> >= < <=`, 4 `!= ==`, 5 `and`, 6 `or`.
pub open spec fn is_operator(level: nat, kind: TokenKindView) -> bool {
    if level == 1 {
        kind is Star || kind is Slash
    } else if level == 2 {
        kind is Plus || kind is Minus
    } else if level == 3 {
        kind is Greater || kind is GreaterEqual || kind is Less || kind is LessEqual
    } else if level == 4 {
        kind is BangEqual || kind is EqualEqual
    } else if level == 5 {
        kind is And
    } else if level == 6 {
        kind is Or
    } else {
        false
    }
}

/// The level of what may stand to the right of an operator of `level`: one level
/// tighter, and a comparison behind `!=`, `==`, `and` and `or`.
pub open spec fn right_level(level: nat) -> nat {
    if level >= 4 {
        3
    } else {
        (level - 1) as nat
    }
}

/// primary := 'false' | 'true' | 'nil' | NUMBER | STRING | IDENT | '(' expression ')'
/// Every other token is refused as unexpected, the reserved words `class`, `return`,
/// `super` and `this` among them: no phrase of the language starts with one of these.
#[verifier::opaque]
pub open spec fn primary(tokens: Seq<TokenView>, at: nat) -> Parsed<ExprView>
    decreases left(tokens, at), 0nat,
{
    let token = tokens[at as int];
    match kind_at(tokens, at) {
        TokenKindView::False
        | TokenKindView::True
        | TokenKindView::Nil
        | TokenKindView::NumberLiteral(_)
        | TokenKindView::StringLiteral(_) => done(1, ExprView::Literal { value: token }),
        TokenKindView::Identifier(_) => done(1, ExprView::Variable { name: token }),
        TokenKindView::LeftParen => {
            let inner = expression(tokens, at + 1);
            match inner.result {
                Err(msg) => fail(1 + inner.used, msg),
                Ok(expression) => {
                    let close = consume(
                        tokens,
                        at + 1 + inner.used,
                        TokenKindView::RightParen,
                        "Expect ')' after expression."@,
                    );
                    match close.result {
                        Err(msg) => fail(1 + inner.used, msg),
                        Ok(_) => done(
                            2 + inner.used,
                            ExprView::Grouping { expression: Box::new(expression) },
                        ),
                    }
                },
            }
        },
        TokenKindView::Eof => fail(0, unexpected(token)),
        _ => fail(1, unexpected(token)),
    }
}

/// The arguments of a call, up to the closing parenthesis: expression (',' expression)*
#[verifier::opaque]
pub open spec fn arguments(tokens: Seq<TokenView>, at: nat) -> Parsed<Seq<ExprView>>
    decreases left(tokens, at), 22nat,
{
    let first = expression(tokens, at);
    match first.result {
        Err(msg) => fail(first.used, msg),
        Ok(argument) => {
            if check(tokens, at + first.used, TokenKindView::Comma) {
                let rest = arguments(tokens, at + first.used + 1);
                match rest.result {
                    Err(msg) => fail(first.used + 1 + rest.used, msg),
                    Ok(others) => done(first.used + 1 + rest.used, seq![argument] + others),
                }
            } else {
                done(first.used, seq![argument])
            }
        },
    }
}

/// The calls made of `callee`: ( '(' arguments? ')' )*
#[verifier::opaque]
pub open spec fn call_tail(tokens: Seq<TokenView>, at: nat, callee: ExprView) -> Parsed<ExprView>
    decreases left(tokens, at), 1nat,
{
    if check(tokens, at, TokenKindView::LeftParen) {
        let paren = tokens[at as int];
        let inside = if check(tokens, at + 1, TokenKindView::RightParen) {
            done(0, Seq::empty())
        } else {
            arguments(tokens, at + 1)
        };
        match inside.result {
            Err(msg) => fail(1 + inside.used, msg),
            Ok(arguments) => {
                let close = consume(
                    tokens,
                    at + 1 + inside.used,
                    TokenKindView::RightParen,
                    "Expect ')' after arguments."@,
                );
                match close.result {
                    Err(msg) => fail(1 + inside.used, msg),
                    Ok(_) => {
                        let rest = call_tail(
                            tokens,
                            at + 2 + inside.used,
                            ExprView::Call { callee: Box::new(callee), paren, arguments },
                        );
                        Parsed { used: 2 + inside.used + rest.used, result: rest.result }
                    },
                }
            },
        }
    } else {
        done(0, callee)
    }
}

/// call := primary ( '(' arguments? ')' )*
#[verifier::opaque]
pub open spec fn call(tokens: Seq<TokenView>, at: nat) -> Parsed<ExprView>
    decreases left(tokens, at), 2nat,
{
    let callee = primary(tokens, at);
    match callee.result {
        Err(msg) => fail(callee.used, msg),
        Ok(expression) => {
            let rest = call_tail(tokens, at + callee.used, expression);
            Parsed { used: callee.used + rest.used, result: rest.result }
        },
    }
}

/// unary := ('!' | '-') unary | call
#[verifier::opaque]
pub open spec fn unary(tokens: Seq<TokenView>, at: nat) -> Parsed<ExprView>
    decreases left(tokens, at), 3nat,
{
    if check(tokens, at, TokenKindView::Bang) || check(tokens, at, TokenKindView::Minus) {
        let operand = unary(tokens, at + 1);
        match operand.result {
            Err(msg) => fail(1 + operand.used, msg),
            Ok(right) => done(
                1 + operand.used,
                ExprView::Unary { operator: tokens[at as int], right: Box::new(right) },
            ),
        }
    } else {
        call(tokens, at)
    }
}

/// What follows the operand `left_side` at `level`: (operator operand)*, nested to
/// the left.
#[verifier::opaque]
pub open spec fn binary_tail(tokens: Seq<TokenView>, at: nat, level: nat, left_side: ExprView) -> Parsed<ExprView>
    decreases left(tokens, at), 3 + 2 * level,
{
    if !(kind_at(tokens, at) is Eof) && is_operator(level, kind_at(tokens, at)) {
        let operand = binary(tokens, at + 1, right_level(level));
        match operand.result {
            Err(msg) => fail(1 + operand.used, msg),
            Ok(right) => {
                let rest = binary_tail(
                    tokens,
                    at + 1 + operand.used,
                    level,
                    ExprView::Binary {
                        left: Box::new(left_side),
                        operator: tokens[at as int],
                        right: Box::new(right),
                    },
                );
                Parsed { used: 1 + operand.used + rest.used, result: rest.result }
            },
        }
    } else {
        done(0, left_side)
    }
}

/// An expression of operators with two operands up to `level`:
/// an operand one level tighter, then (operator operand)*. At level 0 it is a unary.
#[verifier::opaque]
pub open spec fn binary(tokens: Seq<TokenView>, at: nat, level: nat) -> Parsed<ExprView>
    decreases left(tokens, at), 4 + 2 * level,
{
    if level == 0 {
        unary(tokens, at)
    } else {
        let first = binary(tokens, at, (level - 1) as nat);
        match first.result {
            Err(msg) => fail(first.used, msg),
            Ok(left_side) => {
                let rest = binary_tail(tokens, at + first.used, level, left_side);
                Parsed { used: first.used + rest.used, result: rest.result }
            },
        }
    }
}

/// assignment := logic_or ('=' assignment)?
#[verifier::opaque]
pub open spec fn assignment(tokens: Seq<TokenView>, at: nat) -> Parsed<ExprView>
    decreases left(tokens, at), 20nat,
{
    let target = binary(tokens, at, 6);
    match target.result {
        Err(msg) => fail(target.used, msg),
        Ok(expression) => {
            if check(tokens, at + target.used, TokenKindView::Equal) {
                let source = assignment(tokens, at + target.used + 1);
                let used = target.used + 1 + source.used;
                match source.result {
                    Err(msg) => fail(used, msg),
                    Ok(value) => match expression {
                        ExprView::Variable { name } => done(
                            used,
                            ExprView::Assign { name, value: Box::new(value) },
                        ),
                        _ => fail(used, "Invalid assignment target."@),
                    },
                }
            } else {
                done(target.used, expression)
            }
        },
    }
}

/// expression := assignment
#[verifier::opaque]
pub open spec fn expression(tokens: Seq<TokenView>, at: nat) -> Parsed<ExprView>
    decreases left(tokens, at), 21nat,
{
    assignment(tokens, at)
}

/// expr_stmt := expression ';'
#[verifier::opaque]
pub open spec fn expr_stmt(tokens: Seq<TokenView>, at: nat) -> Parsed<StmtView>
    decreases left(tokens, at), 23nat,
{
    let value = expression(tokens, at);
    match value.result {
        Err(msg) => fail(value.used, msg),
        Ok(expression) => {
            let end = consume(
                tokens,
                at + value.used,
                TokenKindView::Semicolon,
                "Expect ';' after expression."@,
            );
            match end.result {
                Err(msg) => fail(value.used, msg),
                Ok(_) => done(value.used + 1, StmtView::Expression { expression }),
            }
        },
    }
}

/// print_stmt := 'print' expression ';'
#[verifier::opaque]
pub open spec fn print_stmt(tokens: Seq<TokenView>, at: nat) -> Parsed<StmtView>
    decreases left(tokens, at), 23nat,
{
    if kind_at(tokens, at) is Eof {
        fail(0, Seq::empty())
    } else {
        let value = expression(tokens, at + 1);
        match value.result {
            Err(msg) => fail(1 + value.used, msg),
            Ok(expression) => {
                let end = consume(
                    tokens,
                    at + 1 + value.used,
                    TokenKindView::Semicolon,
                    "Expect ';' after print statement."@,
                );
                match end.result {
                    Err(msg) => fail(1 + value.used, msg),
                    Ok(_) => done(2 + value.used, StmtView::Print { expression }),
                }
            },
        }
    }
}

/// var_decl := 'var' IDENT ('=' expression)? ';'
/// A variable without an initial value starts as `nil`.
#[verifier::opaque]
pub open spec fn var_decl(tokens: Seq<TokenView>, at: nat) -> Parsed<StmtView>
    decreases left(tokens, at), 23nat,
{
    if kind_at(tokens, at) is Eof {
        fail(0, Seq::empty())
    } else {
        let named = consume(
            tokens,
            at + 1,
            TokenKindView::Identifier(Seq::empty()),
            "Expect variable name."@,
        );
        match named.result {
            Err(msg) => fail(1, msg),
            Ok(name) => {
                let value = if check(tokens, at + 2, TokenKindView::Equal) {
                    let given = expression(tokens, at + 3);
                    Parsed { used: 1 + given.used, result: given.result }
                } else {
                    done(
                        0,
                        ExprView::Literal {
                            value: TokenView { kind: TokenKindView::Nil, line: name.line },
                        },
                    )
                };
                match value.result {
                    Err(msg) => fail(2 + value.used, msg),
                    Ok(initializer) => {
                        let end = consume(
                            tokens,
                            at + 2 + value.used,
                            TokenKindView::Semicolon,
                            "Expect ';' after var statement."@,
                        );
                        match end.result {
                            Err(msg) => fail(2 + value.used, msg),
                            Ok(_) => done(3 + value.used, StmtView::Var { name, initializer }),
                        }
                    },
                }
            },
        }
    }
}

/// params := IDENT (',' IDENT)*
#[verifier::opaque]
pub open spec fn params(tokens: Seq<TokenView>, at: nat) -> Parsed<Seq<TokenView>>
    decreases left(tokens, at),
{
    let named = consume(
        tokens,
        at,
        TokenKindView::Identifier(Seq::empty()),
        "Expect parameter name."@,
    );
    match named.result {
        Err(msg) => fail(0, msg),
        Ok(name) => {
            if check(tokens, at + 1, TokenKindView::Comma) {
                let rest = params(tokens, at + 2);
                match rest.result {
                    Err(msg) => fail(2 + rest.used, msg),
                    Ok(others) => done(2 + rest.used, seq![name] + others),
                }
            } else {
                done(1, seq![name])
            }
        },
    }
}

/// The complaint that the name of a `what` is missing.
pub open spec fn expect_name(what: Seq<char>) -> Seq<char> {
    "Expect "@ + what + " name."@
}

/// The complaint that no parenthesis follows the name of a `what`.
pub open spec fn expect_paren(what: Seq<char>) -> Seq<char> {
    "Expect '(' after "@ + what + " name."@
}

/// The complaint that no body follows the head of a `what`.
pub open spec fn expect_body(what: Seq<char>) -> Seq<char> {
    "Expect '{' before "@ + what + " body."@
}

/// fun_decl := 'fun' IDENT '(' params? ')' block
/// `what` says in complaints what is being declared.
#[verifier::opaque]
pub open spec fn fun_decl(tokens: Seq<TokenView>, at: nat, what: Seq<char>) -> Parsed<StmtView>
    decreases left(tokens, at), 23nat,
{
    if kind_at(tokens, at) is Eof {
        fail(0, Seq::empty())
    } else {
        let named = consume(
            tokens,
            at + 1,
            TokenKindView::Identifier(Seq::empty()),
            expect_name(what),
        );
        let open = consume(tokens, at + 2, TokenKindView::LeftParen, expect_paren(what));
        let listed = if check(tokens, at + 3, TokenKindView::RightParen) {
            done(0, Seq::empty())
        } else {
            params(tokens, at + 3)
        };
        let close = consume(
            tokens,
            at + 3 + listed.used,
            TokenKindView::RightParen,
            "Expect ')' after parameters."@,
        );
        let body_at = at + 4 + listed.used;
        if named.result is Err {
            fail(1, named.result->Err_0)
        } else if open.result is Err {
            fail(2, open.result->Err_0)
        } else if listed.result is Err {
            fail(3 + listed.used, listed.result->Err_0)
        } else if close.result is Err {
            fail(3 + listed.used, close.result->Err_0)
        } else if !check(tokens, body_at, TokenKindView::LeftBrace) {
            fail(4 + listed.used, expect_body(what))
        } else {
            let body = block(tokens, body_at);
            match body.result {
                Err(msg) => fail(4 + listed.used + body.used, msg),
                Ok(statements) => done(
                    4 + listed.used + body.used,
                    StmtView::Function {
                        name: named.result->Ok_0,
                        params: listed.result->Ok_0,
                        body: Box::new(statements),
                    },
                ),
            }
        }
    }
}

/// The declarations of a block, up to its closing brace or the end.
/// Every declaration takes at least one token (`lemma_declaration_takes_a_token`).
#[verifier::opaque]
pub open spec fn block_items(tokens: Seq<TokenView>, at: nat) -> Parsed<Seq<StmtView>>
    decreases left(tokens, at), 27nat,
{
    if kind_at(tokens, at) is Eof || kind_at(tokens, at) is RightBrace {
        done(0, Seq::empty())
    } else {
        let first = declaration(tokens, at);
        match first.result {
            Err(msg) => fail(first.used, msg),
            Ok(statement) => {
                if first.used == 0 {
                    done(0, seq![statement])
                } else {
                    let rest = block_items(tokens, at + first.used);
                    match rest.result {
                        Err(msg) => fail(first.used + rest.used, msg),
                        Ok(others) => done(first.used + rest.used, seq![statement] + others),
                    }
                }
            },
        }
    }
}

/// block := '{' declaration* '}'
#[verifier::opaque]
pub open spec fn block(tokens: Seq<TokenView>, at: nat) -> Parsed<StmtView>
    decreases left(tokens, at), 23nat,
{
    if kind_at(tokens, at) is Eof {
        fail(0, Seq::empty())
    } else {
        let items = block_items(tokens, at + 1);
        match items.result {
            Err(msg) => fail(1 + items.used, msg),
            Ok(statements) => {
                let close = consume(
                    tokens,
                    at + 1 + items.used,
                    TokenKindView::RightBrace,
                    "Expect '}' after print statement."@,
                );
                match close.result {
                    Err(msg) => fail(1 + items.used, msg),
                    Ok(_) => done(2 + items.used, StmtView::Block { statements }),
                }
            },
        }
    }
}

/// if_stmt := 'if' '(' expression ')' statement ('else' statement)?
/// Without an `else` the other branch is empty.
#[verifier::opaque]
pub open spec fn if_stmt(tokens: Seq<TokenView>, at: nat) -> Parsed<StmtView>
    decreases left(tokens, at), 23nat,
{
    if kind_at(tokens, at) is Eof {
        fail(0, Seq::empty())
    } else {
        let open = consume(tokens, at + 1, TokenKindView::LeftParen, "Expect '(' after 'if'."@);
        let tested = expression(tokens, at + 2);
        let close = consume(
            tokens,
            at + 2 + tested.used,
            TokenKindView::RightParen,
            "Expect ')' after if condition."@,
        );
        if open.result is Err {
            fail(1, open.result->Err_0)
        } else if tested.result is Err {
            fail(2 + tested.used, tested.result->Err_0)
        } else if close.result is Err {
            fail(2 + tested.used, close.result->Err_0)
        } else {
            let then_at = at + 3 + tested.used;
            let then_part = statement(tokens, then_at);
            match then_part.result {
                Err(msg) => fail(3 + tested.used + then_part.used, msg),
                Ok(then_block) => {
                    let else_part = if check(
                        tokens,
                        then_at + then_part.used,
                        TokenKindView::Else,
                    ) {
                        let other = statement(tokens, then_at + then_part.used + 1);
                        Parsed { used: 1 + other.used, result: other.result }
                    } else {
                        done(0, StmtView::Empty)
                    };
                    let used = 3 + tested.used + then_part.used + else_part.used;
                    match else_part.result {
                        Err(msg) => fail(used, msg),
                        Ok(else_block) => done(
                            used,
                            StmtView::If {
                                line_number: tokens[at as int].line,
                                condition: tested.result->Ok_0,
                                then_block: Box::new(then_block),
                                else_block: Box::new(else_block),
                            },
                        ),
                    }
                },
            }
        }
    }
}

/// while_stmt := 'while' '(' expression ')' statement
#[verifier::opaque]
pub open spec fn while_stmt(tokens: Seq<TokenView>, at: nat) -> Parsed<StmtView>
    decreases left(tokens, at), 23nat,
{
    if kind_at(tokens, at) is Eof {
        fail(0, Seq::empty())
    } else {
        let open = consume(tokens, at + 1, TokenKindView::LeftParen, "Expect '(' after 'if'."@);
        let tested = expression(tokens, at + 2);
        let close = consume(
            tokens,
            at + 2 + tested.used,
            TokenKindView::RightParen,
            "Expect ')' after while condition."@,
        );
        if open.result is Err {
            fail(1, open.result->Err_0)
        } else if tested.result is Err {
            fail(2 + tested.used, tested.result->Err_0)
        } else if close.result is Err {
            fail(2 + tested.used, close.result->Err_0)
        } else {
            let repeated = statement(tokens, at + 3 + tested.used);
            let used = 3 + tested.used + repeated.used;
            match repeated.result {
                Err(msg) => fail(used, msg),
                Ok(body) => done(
                    used,
                    StmtView::While {
                        line_number: tokens[at as int].line,
                        condition: tested.result->Ok_0,
                        body: Box::new(body),
                    },
                ),
            }
        }
    }
}

/// The loop that a `for` statement stands for: the initializer, then a `while` on the
/// condition whose body is the statement followed by the increment.
pub open spec fn for_loop(line: u32, initializer: StmtView, condition: ExprView, increment: StmtView, body: StmtView) -> StmtView {
    StmtView::Block {
        statements: seq![
            initializer,
            StmtView::While {
                line_number: line,
                condition,
                body: Box::new(StmtView::Block { statements: seq![body, increment] }),
            },
        ],
    }
}

/// for_stmt := 'for' '(' (var_decl | expr_stmt | ';') expression? ';' expression? ')' statement
/// A missing initializer or increment is the empty statement; a missing condition is
/// `true`, on the line of `for`.
#[verifier::opaque]
pub open spec fn for_stmt(tokens: Seq<TokenView>, at: nat) -> Parsed<StmtView>
    decreases left(tokens, at), 24nat,
{
    if kind_at(tokens, at) is Eof {
        fail(0, Seq::empty())
    } else {
        let line = tokens[at as int].line;
        let open = consume(tokens, at + 1, TokenKindView::LeftParen, "Expect '(' after 'if'."@);
        let first = if check(tokens, at + 2, TokenKindView::Semicolon) {
            done(1, StmtView::Empty)
        } else if check(tokens, at + 2, TokenKindView::Var) {
            var_decl(tokens, at + 2)
        } else {
            expr_stmt(tokens, at + 2)
        };
        let test_at = at + 2 + first.used;
        let tested = if check(tokens, test_at, TokenKindView::Semicolon) {
            done(0, ExprView::Literal { value: TokenView { kind: TokenKindView::True, line } })
        } else {
            expression(tokens, test_at)
        };
        let semicolon = consume(
            tokens,
            test_at + tested.used,
            TokenKindView::Semicolon,
            "Expect ';' after loop condition."@,
        );
        let step_at = test_at + tested.used + 1;
        let stepped = if check(tokens, step_at, TokenKindView::RightParen) {
            done(0, StmtView::Empty)
        } else {
            let value = expression(tokens, step_at);
            match value.result {
                Err(msg) => fail(value.used, msg),
                Ok(expression) => done(value.used, StmtView::Expression { expression }),
            }
        };
        let close = consume(
            tokens,
            step_at + stepped.used,
            TokenKindView::RightParen,
            "Expect ')' after for clauses."@,
        );
        let body_at = step_at + stepped.used + 1;
        if open.result is Err {
            fail(1, open.result->Err_0)
        } else if first.result is Err {
            fail((test_at - at) as nat, first.result->Err_0)
        } else if tested.result is Err {
            fail((test_at + tested.used - at) as nat, tested.result->Err_0)
        } else if semicolon.result is Err {
            fail((test_at + tested.used - at) as nat, semicolon.result->Err_0)
        } else if stepped.result is Err {
            fail((step_at + stepped.used - at) as nat, stepped.result->Err_0)
        } else if close.result is Err {
            fail((step_at + stepped.used - at) as nat, close.result->Err_0)
        } else {
            let repeated = statement(tokens, body_at);
            let used = (body_at + repeated.used - at) as nat;
            match repeated.result {
                Err(msg) => fail(used, msg),
                Ok(body) => done(
                    used,
                    for_loop(
                        line,
                        first.result->Ok_0,
                        tested.result->Ok_0,
                        stepped.result->Ok_0,
                        body,
                    ),
                ),
            }
        }
    }
}

/// statement := block | if_stmt | while_stmt | for_stmt | print_stmt | expr_stmt
#[verifier::opaque]
pub open spec fn statement(tokens: Seq<TokenView>, at: nat) -> Parsed<StmtView>
    decreases left(tokens, at), 25nat,
{
    match kind_at(tokens, at) {
        TokenKindView::LeftBrace => block(tokens, at),
        TokenKindView::If => if_stmt(tokens, at),
        TokenKindView::While => while_stmt(tokens, at),
        TokenKindView::For => for_stmt(tokens, at),
        TokenKindView::Print => print_stmt(tokens, at),
        _ => expr_stmt(tokens, at),
    }
}

/// declaration := var_decl | fun_decl | statement
#[verifier::opaque]
pub open spec fn declaration(tokens: Seq<TokenView>, at: nat) -> Parsed<StmtView>
    decreases left(tokens, at), 26nat,
{
    match kind_at(tokens, at) {
        TokenKindView::Var => var_decl(tokens, at),
        TokenKindView::Fun => fun_decl(tokens, at, "function"@),
        _ => statement(tokens, at),
    }
}

/// What parsing reads from some place in the tokens on.
pub struct Program {
    /// How many tokens were taken.
    pub used: nat,
    /// The declarations read in full, in order.
    pub stmts: Seq<StmtView>,
    /// The complaint about the declaration that could not be read, if there is one.
    pub error: Option<Seq<char>>,
}

/// program := declaration*
/// Reads declarations up to the end, or up to the first that cannot be read.
/// Every declaration takes at least one token (`lemma_declaration_takes_a_token`).
#[verifier::opaque]
pub open spec fn program(tokens: Seq<TokenView>, at: nat) -> Program
    decreases left(tokens, at),
{
    if kind_at(tokens, at) is Eof {
        Program { used: 0, stmts: Seq::empty(), error: None }
    } else {
        let first = declaration(tokens, at);
        match first.result {
            Err(msg) => Program { used: first.used, stmts: Seq::empty(), error: Some(msg) },
            Ok(statement) => {
                if first.used == 0 {
                    Program { used: 0, stmts: seq![statement], error: None }
                } else {
                    let rest = program(tokens, at + first.used);
                    Program {
                        used: first.used + rest.used,
                        stmts: seq![statement] + rest.stmts,
                        error: rest.error,
                    }
                }
            },
        }
    }
}

/// A primary expression takes at least one token, unless it is to be read at the end.
pub proof fn lemma_primary_takes_a_token(tokens: Seq<TokenView>, at: nat)
    requires
        !(kind_at(tokens, at) is Eof),
    ensures
        primary(tokens, at).used >= 1,
{
    reveal(primary);
}

/// A call takes at least one token, unless it is to be read at the end.
pub proof fn lemma_call_takes_a_token(tokens: Seq<TokenView>, at: nat)
    requires
        !(kind_at(tokens, at) is Eof),
    ensures
        call(tokens, at).used >= 1,
{
    reveal(call);
    lemma_primary_takes_a_token(tokens, at);
}

/// A unary expression takes at least one token, unless it is to be read at the end.
pub proof fn lemma_unary_takes_a_token(tokens: Seq<TokenView>, at: nat)
    requires
        !(kind_at(tokens, at) is Eof),
    ensures
        unary(tokens, at).used >= 1,
{
    reveal(unary);
    reveal(call);
    lemma_call_takes_a_token(tokens, at);
}

/// An expression of operators with two operands takes at least one token, unless it
/// is to be read at the end.
pub proof fn lemma_binary_takes_a_token(tokens: Seq<TokenView>, at: nat, level: nat)
    requires
        !(kind_at(tokens, at) is Eof),
    ensures
        binary(tokens, at, level).used >= 1,
    decreases level,
{
    reveal(binary);
    reveal(unary);
    if level > 0 {
        lemma_binary_takes_a_token(tokens, at, (level - 1) as nat);
    } else {
        lemma_unary_takes_a_token(tokens, at);
    }
}

/// An expression statement takes at least one token, unless it is to be read at the
/// end.
pub proof fn lemma_expr_stmt_takes_a_token(tokens: Seq<TokenView>, at: nat)
    requires
        !(kind_at(tokens, at) is Eof),
    ensures
        expr_stmt(tokens, at).used >= 1,
{
    reveal(expr_stmt);
    reveal(expression);
    reveal(assignment);
    reveal(binary);
    lemma_binary_takes_a_token(tokens, at, 6);
}

/// A declaration takes at least one token, unless it is to be read at the end.
pub proof fn lemma_declaration_takes_a_token(tokens: Seq<TokenView>, at: nat)
    requires
        !(kind_at(tokens, at) is Eof),
    ensures
        declaration(tokens, at).used >= 1,
{
    reveal(declaration);
    reveal(statement);
    reveal(var_decl);
    reveal(fun_decl);
    reveal(block);
    reveal(if_stmt);
    reveal(while_stmt);
    reveal(for_stmt);
    reveal(print_stmt);
    lemma_expr_stmt_takes_a_token(tokens, at);
}

/// Where recovery from a complaint takes up reading again, looking from `at` on: behind
/// a `;`, before a word with which a statement starts, or at the end.
#[verifier::opaque]
pub open spec fn resume(tokens: Seq<TokenView>, at: nat) -> nat
    decreases left(tokens, at),
{
    if kind_at(tokens, at) is Eof {
        at
    } else if at > 0 && tokens[at - 1].kind is Semicolon {
        at
    } else if starts_statement(kind_at(tokens, at)) {
        at
    } else {
        resume(tokens, at + 1)
    }
}

/// The words with which a statement starts.
pub open spec fn starts_statement(kind: TokenKindView) -> bool {
    kind is Class || kind is Fun || kind is Var || kind is For || kind is If || kind is While
        || kind is Print || kind is Return
}

/// Where recovery from a complaint at `at` takes up reading again: it passes the
/// token at `at`, and goes on from there as `resume` says.
pub open spec fn synchronized(tokens: Seq<TokenView>, at: nat) -> nat {
    if kind_at(tokens, at) is Eof {
        at
    } else {
        resume(tokens, at + 1)
    }
}

/// Recovery never goes back.
pub proof fn lemma_resume_goes_on(tokens: Seq<TokenView>, at: nat)
    ensures
        resume(tokens, at) >= at,
    decreases left(tokens, at),
{
    reveal(resume);
    if !(kind_at(tokens, at) is Eof) && !(at > 0 && tokens[at - 1].kind is Semicolon)
        && !starts_statement(kind_at(tokens, at)) {
        lemma_resume_goes_on(tokens, at + 1);
    }
}

/// What parsing yields when it recovers behind every declaration that cannot be read:
/// the declarations read, and the complaints in the order in which they came up.
/// Behind a complaint reading has moved on (`lemma_program_error_takes_a_token`,
/// `lemma_resume_goes_on`).
pub open spec fn parsed(tokens: Seq<TokenView>, at: nat) -> (Seq<StmtView>, Seq<ErrorView>)
    decreases left(tokens, at),
{
    let read = program(tokens, at);
    match read.error {
        None => (read.stmts, Seq::empty()),
        Some(msg) => {
            let stop = at + read.used;
            let e = ErrorView { line: tokens[stop as int].line, msg };
            let next = synchronized(tokens, stop);
            if at < tokens.len() && next > at {
                let rest = parsed(tokens, next);
                (read.stmts + rest.0, seq![e] + rest.1)
            } else {
                (read.stmts, seq![e])
            }
        },
    }
}

/// Parsing that stops at a declaration that cannot be read has taken a token.
pub proof fn lemma_program_error_takes_a_token(tokens: Seq<TokenView>, at: nat)
    ensures
        program(tokens, at).error is Some ==> program(tokens, at).used >= 1 && !(kind_at(
            tokens,
            at,
        ) is Eof),
    decreases left(tokens, at),
{
    reveal(program);
    if !(kind_at(tokens, at) is Eof) {
        lemma_declaration_takes_a_token(tokens, at);
        let first = declaration(tokens, at);
        if first.result is Ok && first.used > 0 {
            lemma_program_error_takes_a_token(tokens, at + first.used);
        }
    }
}

} // verus!
