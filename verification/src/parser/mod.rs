pub mod grammar;
pub mod laws;
pub mod shape;

use crate::ast::expr::{expr_views, Expr, ExprView};
use crate::ast::stmt::{stmt_views, Stmt, StmtView};
use crate::error::{Error, ErrorView};
use crate::parser::grammar::{check, consume, is_operator, kind_at, Parsed};
use crate::scanner::token::{token_views, Token, TokenKind, TokenKindView, TokenView};
use vstd::prelude::*;

verus! {

/// Reads tokens into statements.
pub struct Parser {
    pub tokens: Vec<Token>,
    pub stmts: Vec<Stmt>,
    pub current: usize,
}

impl Parser {
    /// The tokens as values.
    pub open spec fn view_tokens(&self) -> Seq<TokenView> {
        token_views(self.tokens@)
    }

    /// The place of the token that is read next.
    pub open spec fn at(&self) -> nat {
        self.current as nat
    }

    /// The tokens end with `Eof`, and the parser stands on one of them.
    pub open spec fn wf(&self) -> bool {
        &&& self.current < self.tokens.len()
        &&& self.view_tokens().last().kind is Eof
    }

    /// `after` is the parser `self` behind the phrase `parsed`, and `result` is what
    /// reading that phrase returns: its value, or the complaint with the line of the
    /// token at which `after` stands.
    pub open spec fn reads<T: View>(
        &self,
        after: &Parser,
        result: Result<T, Error>,
        parsed: Parsed<T::V>,
    ) -> bool {
        &&& after.tokens == self.tokens
        &&& after.stmts == self.stmts
        &&& after.wf()
        &&& after.current == self.current + parsed.used
        &&& match result {
            Ok(value) => parsed.result == Ok::<T::V, Seq<char>>(value@),
            Err(e) => parsed.result is Err && e@ == (ErrorView {
                line: after.view_tokens()[after.current as int].line,
                msg: parsed.result->Err_0,
            }),
        }
    }

    /// A parser at the start of `tokens`.
    pub fn new(tokens: Vec<Token>) -> (parser: Self)
        requires
            tokens.len() > 0,
            tokens@.last()@.kind is Eof,
        ensures
            parser.wf(),
            parser.tokens == tokens,
            parser.current == 0,
            parser.stmts@ == Seq::<Stmt>::empty(),
    {
        Self { tokens, current: 0, stmts: Vec::new() }
    }

    /// Reads the tokens on from where the parser stands, declaration by declaration, and
    /// adds each to `stmts`. At the end of the tokens it returns `Ok`. At a declaration
    /// that cannot be read it stops where reading failed and returns the complaint.
    pub fn parse(&mut self) -> (result: Result<(), Error>)
        requires
            old(self).wf(),
        ensures
            final(self).wf(),
            final(self).tokens == old(self).tokens,
            ({
                let read = grammar::program(old(self).view_tokens(), old(self).at());
                &&& final(self).current == old(self).current + read.used
                &&& stmt_views(final(self).stmts@) == stmt_views(old(self).stmts@) + read.stmts
                &&& match result {
                    Ok(_) => read.error is None,
                    Err(e) => read.error is Some && e@ == (ErrorView {
                        line: final(self).view_tokens()[final(self).current as int].line,
                        msg: read.error->Some_0,
                    }),
                }
            }),
            result is Ok ==> kind_at(final(self).view_tokens(), final(self).at()) is Eof,
    {
        reveal(grammar::program);
        reveal(grammar::declaration);
        let ghost tokens = self.view_tokens();
        let ghost start = self.at();
        let ghost before = stmt_views(self.stmts@);
        let ghost mut read: Seq<StmtView> = Seq::empty();
        assert(before + read =~= before);
        assert(read + grammar::program(tokens, start).stmts =~= grammar::program(
            tokens,
            start,
        ).stmts);
        while !self.is_eof()
            invariant
                self.wf(),
                self.tokens == old(self).tokens,
                tokens == self.view_tokens(),
                start == old(self).at(),
                start <= self.current,
                before == stmt_views(old(self).stmts@),
                stmt_views(self.stmts@) == before + read,
                ({
                    let rest = grammar::program(tokens, self.at());
                    grammar::program(tokens, start) == (grammar::Program {
                        used: (self.current - start + rest.used) as nat,
                        stmts: read + rest.stmts,
                        error: rest.error,
                    })
                }),
            decreases self.tokens.len() - self.current,
        {
            reveal(grammar::program);
            reveal(grammar::declaration);
            let ghost at = self.at();
            proof {
                grammar::lemma_declaration_takes_a_token(tokens, at);
            }
            let decl = match self.declaration() {
                Ok(decl) => decl,
                Err(e) => {
                    assert(read + Seq::<StmtView>::empty() =~= read);
                    return Err(e);
                },
            };
            proof {
                let rest = grammar::program(tokens, self.at());
                assert(read.push(decl@) + rest.stmts =~= read + (seq![decl@] + rest.stmts));
                assert(before + read.push(decl@) =~= (before + read).push(decl@));
                assert(stmt_views(self.stmts@.push(decl)) =~= stmt_views(self.stmts@).push(decl@));
                read = read.push(decl@);
            }
            self.stmts.push(decl);
        }
        proof {
            assert(read + Seq::<StmtView>::empty() =~= read);
        }
        Ok(())
    }

    /// Recovers from a complaint: passes the token on which the parser stands, and
    /// then all tokens up to one that stands behind a `;`, or with which a statement
    /// starts, or up to the end.
    pub fn synchronize(&mut self)
        requires
            old(self).wf(),
        ensures
            final(self).wf(),
            final(self).tokens == old(self).tokens,
            final(self).stmts == old(self).stmts,
            final(self).current == grammar::synchronized(old(self).view_tokens(), old(self).at()),
            final(self).current > old(self).current || kind_at(
                old(self).view_tokens(),
                old(self).at(),
            ) is Eof,
    {
        reveal(grammar::resume);
        let ghost tokens = self.view_tokens();
        proof {
            grammar::lemma_resume_goes_on(tokens, self.at() + 1);
        }
        self.advance();

        while !self.is_eof()
            invariant
                self.wf(),
                self.tokens == old(self).tokens,
                self.stmts == old(self).stmts,
                tokens == self.view_tokens(),
                grammar::synchronized(tokens, old(self).at()) == grammar::resume(
                    tokens,
                    self.at(),
                ),
                self.current > 0 || kind_at(tokens, self.at()) is Eof,
                self.current > old(self).current || kind_at(tokens, old(self).at()) is Eof,
            decreases self.tokens.len() - self.current,
        {
            reveal(grammar::resume);
            match &self.tokens[self.current - 1].kind {
                TokenKind::Semicolon => {
                    return ;
                },
                _ => {},
            }
            match &self.tokens[self.current].kind {
                TokenKind::Class
                | TokenKind::Fun
                | TokenKind::Var
                | TokenKind::For
                | TokenKind::If
                | TokenKind::While
                | TokenKind::Print
                | TokenKind::Return => {
                    return ;
                },
                _ => {},
            }
            self.advance();
        }
    }

    fn declaration(&mut self) -> (result: Result<Stmt, Error>)
        requires
            old(self).wf(),
        ensures
            old(self).reads(
                final(self),
                result,
                grammar::declaration(old(self).view_tokens(), old(self).at()),
            ),
        decreases old(self).tokens.len() - old(self).current, 26nat,
    {
        reveal(grammar::declaration);
        reveal(grammar::var_decl);
        reveal(grammar::fun_decl);
        reveal(grammar::statement);
        match &self.tokens[self.current].kind {
            TokenKind::Var => self.decl_var(),
            TokenKind::Fun => self.decl_fun("function"),
            _ => self.statement(),
        }
    }

    fn statement(&mut self) -> (result: Result<Stmt, Error>)
        requires
            old(self).wf(),
        ensures
            old(self).reads(
                final(self),
                result,
                grammar::statement(old(self).view_tokens(), old(self).at()),
            ),
        decreases old(self).tokens.len() - old(self).current, 25nat,
    {
        reveal(grammar::statement);
        reveal(grammar::block);
        reveal(grammar::if_stmt);
        reveal(grammar::while_stmt);
        reveal(grammar::for_stmt);
        reveal(grammar::print_stmt);
        reveal(grammar::expr_stmt);
        match &self.tokens[self.current].kind {
            TokenKind::LeftBrace => self.stmt_block(),
            TokenKind::If => self.stmt_if(),
            TokenKind::While => self.stmt_while(),
            TokenKind::For => self.stmt_for(),
            TokenKind::Print => self.stmt_print(),
            _ => self.stmt_expression(),
        }
    }

    #[verifier::spinoff_prover]
    fn decl_var(&mut self) -> (result: Result<Stmt, Error>)
        requires
            old(self).wf(),
            !(kind_at(old(self).view_tokens(), old(self).at()) is Eof),
        ensures
            old(self).reads(
                final(self),
                result,
                grammar::var_decl(old(self).view_tokens(), old(self).at()),
            ),
        decreases old(self).tokens.len() - old(self).current, 23nat,
    {
        reveal(grammar::var_decl);
        reveal(grammar::expression);
        self.advance();
        let name = match self.consume(
            &TokenKind::Identifier(String::new()),
            "Expect variable name.",
        ) {
            Ok(name) => name,
            Err(e) => {
                return Err(e);
            },
        };
        let init = if self.match_token(&[TokenKind::Equal]) {
            match self.expression() {
                Ok(init) => init,
                Err(e) => {
                    return Err(e);
                },
            }
        } else {
            Expr::new_literal(Token::new(TokenKind::Nil, name.line))
        };
        match self.consume(&TokenKind::Semicolon, "Expect ';' after var statement.") {
            Ok(_) => Ok(Stmt::new_var(name, init)),
            Err(e) => Err(e),
        }
    }

    /// The complaint "Expect `before``what``after`".
    fn expect(before: &str, what: &str, after: &str) -> (msg: String)
        ensures
            msg@ == before@ + what@ + after@,
    {
        let mut msg = String::from_str(before);
        msg.append(what);
        msg.append(after);
        msg
    }

    fn decl_fun(&mut self, kind: &str) -> (result: Result<Stmt, Error>)
        requires
            old(self).wf(),
            !(kind_at(old(self).view_tokens(), old(self).at()) is Eof),
        ensures
            old(self).reads(
                final(self),
                result,
                grammar::fun_decl(old(self).view_tokens(), old(self).at(), kind@),
            ),
        decreases old(self).tokens.len() - old(self).current, 23nat,
    {
        reveal(grammar::fun_decl);
        reveal(grammar::params);
        reveal(grammar::block);
        let ghost tokens = self.view_tokens();
        self.advance();
        let msg = Self::expect("Expect ", kind, " name.");
        let name = match self.consume(&TokenKind::Identifier(String::new()), msg.as_str()) {
            Ok(name) => name,
            Err(e) => {
                return Err(e);
            },
        };
        let msg = Self::expect("Expect '(' after ", kind, " name.");
        match self.consume(&TokenKind::LeftParen, msg.as_str()) {
            Ok(_) => {},
            Err(e) => {
                return Err(e);
            },
        }

        let mut parameters: Vec<Token> = Vec::new();
        let ghost start = self.at();
        if !self.check(&TokenKind::RightParen) {
            loop
                invariant_except_break
                    ({
                        let rest = grammar::params(tokens, self.at());
                        grammar::params(tokens, start) == (Parsed {
                            used: (self.current - start + rest.used) as nat,
                            result: match rest.result {
                                Ok(others) => Ok(token_views(parameters@) + others),
                                Err(msg) => Err(msg),
                            },
                        })
                    }),
                invariant
                    self.wf(),
                    self.tokens == old(self).tokens,
                    self.stmts == old(self).stmts,
                    tokens == self.view_tokens(),
                    start == old(self).at() + 3,
                    start <= self.current,
                    !(kind_at(tokens, old(self).at()) is Eof),
                    consume(
                        tokens,
                        old(self).at() + 1,
                        TokenKindView::Identifier(Seq::empty()),
                        grammar::expect_name(kind@),
                    ).result is Ok,
                    consume(
                        tokens,
                        old(self).at() + 2,
                        TokenKindView::LeftParen,
                        grammar::expect_paren(kind@),
                    ).result is Ok,
                    !check(tokens, start, TokenKindView::RightParen),
                ensures
                    grammar::params(tokens, start) == (Parsed {
                        used: (self.current - start) as nat,
                        result: Ok(token_views(parameters@)),
                    }),
                decreases self.tokens.len() - self.current,
            {
                reveal(grammar::fun_decl);
                reveal(grammar::params);
                reveal(grammar::block);
                let parameter = match self.consume(
                    &TokenKind::Identifier(String::new()),
                    "Expect parameter name.",
                ) {
                    Ok(parameter) => parameter,
                    Err(e) => {
                        return Err(e);
                    },
                };
                proof {
                    let read = token_views(parameters@);
                    let rest = grammar::params(tokens, (self.at() + 1) as nat);
                    assert(read.push(parameter@) + rest.result->Ok_0 =~= read + (seq![parameter@]
                        + rest.result->Ok_0));
                    assert(read.push(parameter@) =~= read + seq![parameter@]);
                    assert(token_views(parameters@.push(parameter)) =~= read.push(parameter@));
                }
                parameters.push(parameter);
                if !self.match_token(&[TokenKind::Comma]) {
                    break ;
                }
            }
        } else {
            assert(token_views(parameters@) =~= Seq::<TokenView>::empty());
        }
        match self.consume(&TokenKind::RightParen, "Expect ')' after parameters.") {
            Ok(_) => {},
            Err(e) => {
                return Err(e);
            },
        }

        if !self.check(&TokenKind::LeftBrace) {
            let msg = Self::expect("Expect '{' before ", kind, " body.");
            return self.error(msg);
        }
        match self.stmt_block() {
            Ok(body) => Ok(Stmt::new_function(name, parameters, Box::new(body))),
            Err(e) => Err(e),
        }
    }

    #[verifier::loop_isolation(false)]
    fn stmt_block(&mut self) -> (result: Result<Stmt, Error>)
        requires
            old(self).wf(),
            !(kind_at(old(self).view_tokens(), old(self).at()) is Eof),
        ensures
            old(self).reads(
                final(self),
                result,
                grammar::block(old(self).view_tokens(), old(self).at()),
            ),
        decreases old(self).tokens.len() - old(self).current, 23nat,
    {
        reveal(grammar::block);
        reveal(grammar::block_items);
        reveal(grammar::declaration);
        let ghost tokens = self.view_tokens();
        let ghost start = self.at() + 1;
        let mut statements: Vec<Stmt> = Vec::new();
        self.advance();
        assert(stmt_views(statements@) + grammar::block_items(tokens, start).result->Ok_0
            =~= grammar::block_items(tokens, start).result->Ok_0);

        while !self.check(&TokenKind::RightBrace) && !self.is_eof()
            invariant
                self.wf(),
                self.tokens == old(self).tokens,
                self.stmts == old(self).stmts,
                tokens == self.view_tokens(),
                start == old(self).at() + 1,
                start <= self.current,
                ({
                    let rest = grammar::block_items(tokens, self.at());
                    grammar::block_items(tokens, start) == (Parsed {
                        used: (self.current - start + rest.used) as nat,
                        result: match rest.result {
                            Ok(others) => Ok(stmt_views(statements@) + others),
                            Err(msg) => Err(msg),
                        },
                    })
                }),
            decreases self.tokens.len() - self.current,
        {
            reveal(grammar::block);
            reveal(grammar::block_items);
            reveal(grammar::declaration);
            proof {
                grammar::lemma_declaration_takes_a_token(tokens, self.at());
            }
            let statement = match self.declaration() {
                Ok(statement) => statement,
                Err(e) => {
                    return Err(e);
                },
            };
            proof {
                let read = stmt_views(statements@);
                let rest = grammar::block_items(tokens, self.at());
                assert(read.push(statement@) + rest.result->Ok_0 =~= read + (seq![statement@]
                    + rest.result->Ok_0));
                assert(stmt_views(statements@.push(statement)) =~= read.push(statement@));
            }
            statements.push(statement);
        }
        proof {
            assert(stmt_views(statements@) + Seq::<StmtView>::empty() =~= stmt_views(
                statements@,
            ));
        }

        match self.consume(&TokenKind::RightBrace, "Expect '}' after print statement.") {
            Ok(_) => Ok(Stmt::new_block(statements)),
            Err(e) => Err(e),
        }
    }

    #[verifier::spinoff_prover]
    fn stmt_if(&mut self) -> (result: Result<Stmt, Error>)
        requires
            old(self).wf(),
            !(kind_at(old(self).view_tokens(), old(self).at()) is Eof),
        ensures
            old(self).reads(
                final(self),
                result,
                grammar::if_stmt(old(self).view_tokens(), old(self).at()),
            ),
        decreases old(self).tokens.len() - old(self).current, 23nat,
    {
        reveal(grammar::if_stmt);
        reveal(grammar::expression);
        reveal(grammar::statement);
        let token = self.advance();
        match self.consume(&TokenKind::LeftParen, "Expect '(' after 'if'.") {
            Ok(_) => {},
            Err(e) => {
                return Err(e);
            },
        }
        let condition = match self.expression() {
            Ok(condition) => condition,
            Err(e) => {
                return Err(e);
            },
        };
        match self.consume(&TokenKind::RightParen, "Expect ')' after if condition.") {
            Ok(_) => {},
            Err(e) => {
                return Err(e);
            },
        }

        let then_block = match self.statement() {
            Ok(then_block) => then_block,
            Err(e) => {
                return Err(e);
            },
        };
        let else_block = if self.match_token(&[TokenKind::Else]) {
            match self.statement() {
                Ok(else_block) => else_block,
                Err(e) => {
                    return Err(e);
                },
            }
        } else {
            Stmt::Empty
        };

        Ok(Stmt::new_if(token.line, condition, Box::new(then_block), Box::new(else_block)))
    }

    #[verifier::spinoff_prover]
    fn stmt_while(&mut self) -> (result: Result<Stmt, Error>)
        requires
            old(self).wf(),
            !(kind_at(old(self).view_tokens(), old(self).at()) is Eof),
        ensures
            old(self).reads(
                final(self),
                result,
                grammar::while_stmt(old(self).view_tokens(), old(self).at()),
            ),
        decreases old(self).tokens.len() - old(self).current, 23nat,
    {
        reveal(grammar::while_stmt);
        reveal(grammar::expression);
        reveal(grammar::statement);
        let token = self.advance();
        match self.consume(&TokenKind::LeftParen, "Expect '(' after 'if'.") {
            Ok(_) => {},
            Err(e) => {
                return Err(e);
            },
        }
        let condition = match self.expression() {
            Ok(condition) => condition,
            Err(e) => {
                return Err(e);
            },
        };
        match self.consume(&TokenKind::RightParen, "Expect ')' after while condition.") {
            Ok(_) => {},
            Err(e) => {
                return Err(e);
            },
        }

        match self.statement() {
            Ok(body) => Ok(Stmt::new_while(token.line, condition, Box::new(body))),
            Err(e) => Err(e),
        }
    }

    #[verifier::spinoff_prover]
    fn stmt_for(&mut self) -> (result: Result<Stmt, Error>)
        requires
            old(self).wf(),
            !(kind_at(old(self).view_tokens(), old(self).at()) is Eof),
        ensures
            old(self).reads(
                final(self),
                result,
                grammar::for_stmt(old(self).view_tokens(), old(self).at()),
            ),
        decreases old(self).tokens.len() - old(self).current, 24nat,
    {
        reveal(grammar::for_stmt);
        reveal(grammar::var_decl);
        reveal(grammar::expr_stmt);
        reveal(grammar::expression);
        reveal(grammar::statement);
        let token = self.advance();

        match self.consume(&TokenKind::LeftParen, "Expect '(' after 'if'.") {
            Ok(_) => {},
            Err(e) => {
                return Err(e);
            },
        }

        let first = if self.match_token(&[TokenKind::Semicolon]) {
            Ok(Stmt::Empty)
        } else if self.check(&TokenKind::Var) {
            self.decl_var()
        } else {
            self.stmt_expression()
        };
        let initializer = match first {
            Ok(initializer) => initializer,
            Err(e) => {
                return Err(e);
            },
        };

        let condition = if self.check(&TokenKind::Semicolon) {
            Expr::new_literal(Token::new(TokenKind::True, token.line))
        } else {
            match self.expression() {
                Ok(condition) => condition,
                Err(e) => {
                    return Err(e);
                },
            }
        };
        match self.consume(&TokenKind::Semicolon, "Expect ';' after loop condition.") {
            Ok(_) => {},
            Err(e) => {
                return Err(e);
            },
        }

        let increment = if self.check(&TokenKind::RightParen) {
            Stmt::Empty
        } else {
            match self.expression() {
                Ok(increment) => Stmt::new_expression(increment),
                Err(e) => {
                    return Err(e);
                },
            }
        };
        match self.consume(&TokenKind::RightParen, "Expect ')' after for clauses.") {
            Ok(_) => {},
            Err(e) => {
                return Err(e);
            },
        }

        let body = match self.statement() {
            Ok(body) => body,
            Err(e) => {
                return Err(e);
            },
        };
        let ghost parts = (initializer@, condition@, increment@, body@);
        let mut inner: Vec<Stmt> = Vec::new();
        inner.push(body);
        inner.push(increment);
        assert(stmt_views(inner@) =~= seq![parts.3, parts.2]);
        let repeated = Stmt::new_while(token.line, condition, Box::new(Stmt::new_block(inner)));
        let mut outer: Vec<Stmt> = Vec::new();
        outer.push(initializer);
        outer.push(repeated);
        assert(stmt_views(outer@) =~= seq![parts.0, repeated@]);
        Ok(Stmt::new_block(outer))
    }

    fn stmt_expression(&mut self) -> (result: Result<Stmt, Error>)
        requires
            old(self).wf(),
        ensures
            old(self).reads(
                final(self),
                result,
                grammar::expr_stmt(old(self).view_tokens(), old(self).at()),
            ),
        decreases old(self).tokens.len() - old(self).current, 23nat,
    {
        reveal(grammar::expr_stmt);
        reveal(grammar::expression);
        let expr = match self.expression() {
            Ok(expr) => expr,
            Err(e) => {
                return Err(e);
            },
        };
        match self.consume(&TokenKind::Semicolon, "Expect ';' after expression.") {
            Ok(_) => Ok(Stmt::new_expression(expr)),
            Err(e) => Err(e),
        }
    }

    fn stmt_print(&mut self) -> (result: Result<Stmt, Error>)
        requires
            old(self).wf(),
            !(kind_at(old(self).view_tokens(), old(self).at()) is Eof),
        ensures
            old(self).reads(
                final(self),
                result,
                grammar::print_stmt(old(self).view_tokens(), old(self).at()),
            ),
        decreases old(self).tokens.len() - old(self).current, 23nat,
    {
        reveal(grammar::print_stmt);
        reveal(grammar::expression);
        self.advance();
        let expr = match self.expression() {
            Ok(expr) => expr,
            Err(e) => {
                return Err(e);
            },
        };
        match self.consume(&TokenKind::Semicolon, "Expect ';' after print statement.") {
            Ok(_) => Ok(Stmt::new_print(expr)),
            Err(e) => Err(e),
        }
    }

    fn expression(&mut self) -> (result: Result<Expr, Error>)
        requires
            old(self).wf(),
        ensures
            old(self).reads(
                final(self),
                result,
                grammar::expression(old(self).view_tokens(), old(self).at()),
            ),
        decreases old(self).tokens.len() - old(self).current, 21nat,
    {
        reveal(grammar::expression);
        reveal(grammar::assignment);
        self.expr_assignment()
    }

    fn expr_assignment(&mut self) -> (result: Result<Expr, Error>)
        requires
            old(self).wf(),
        ensures
            old(self).reads(
                final(self),
                result,
                grammar::assignment(old(self).view_tokens(), old(self).at()),
            ),
        decreases old(self).tokens.len() - old(self).current, 20nat,
    {
        reveal(grammar::assignment);
        reveal(grammar::binary);
        let expr = match self.expr_or() {
            Ok(expr) => expr,
            Err(e) => {
                return Err(e);
            },
        };
        if self.match_token(&[TokenKind::Equal]) {
            let value = match self.expr_assignment() {
                Ok(value) => value,
                Err(e) => {
                    return Err(e);
                },
            };
            match expr {
                Expr::Variable { name } => Ok(Expr::new_assign(name, Box::new(value))),
                _ => self.error(String::from_str("Invalid assignment target.")),
            }
        } else {
            Ok(expr)
        }
    }

    fn expr_or(&mut self) -> (result: Result<Expr, Error>)
        requires
            old(self).wf(),
        ensures
            old(self).reads(
                final(self),
                result,
                grammar::binary(old(self).view_tokens(), old(self).at(), 6),
            ),
        decreases old(self).tokens.len() - old(self).current, 17nat,
    {
        self.expr_binary(6)
    }

    fn expr_and(&mut self) -> (result: Result<Expr, Error>)
        requires
            old(self).wf(),
        ensures
            old(self).reads(
                final(self),
                result,
                grammar::binary(old(self).view_tokens(), old(self).at(), 5),
            ),
        decreases old(self).tokens.len() - old(self).current, 15nat,
    {
        self.expr_binary(5)
    }

    fn expr_equality(&mut self) -> (result: Result<Expr, Error>)
        requires
            old(self).wf(),
        ensures
            old(self).reads(
                final(self),
                result,
                grammar::binary(old(self).view_tokens(), old(self).at(), 4),
            ),
        decreases old(self).tokens.len() - old(self).current, 13nat,
    {
        self.expr_binary(4)
    }

    fn expr_comparison(&mut self) -> (result: Result<Expr, Error>)
        requires
            old(self).wf(),
        ensures
            old(self).reads(
                final(self),
                result,
                grammar::binary(old(self).view_tokens(), old(self).at(), 3),
            ),
        decreases old(self).tokens.len() - old(self).current, 11nat,
    {
        self.expr_binary(3)
    }

    fn expr_addition(&mut self) -> (result: Result<Expr, Error>)
        requires
            old(self).wf(),
        ensures
            old(self).reads(
                final(self),
                result,
                grammar::binary(old(self).view_tokens(), old(self).at(), 2),
            ),
        decreases old(self).tokens.len() - old(self).current, 9nat,
    {
        self.expr_binary(2)
    }

    fn expr_multiplication(&mut self) -> (result: Result<Expr, Error>)
        requires
            old(self).wf(),
        ensures
            old(self).reads(
                final(self),
                result,
                grammar::binary(old(self).view_tokens(), old(self).at(), 1),
            ),
        decreases old(self).tokens.len() - old(self).current, 7nat,
    {
        self.expr_binary(1)
    }

    /// Reads an operand one level tighter than `level`, then operators of `level` with
    /// their right operands for as long as one follows, nesting to the left.
    fn expr_binary(&mut self, level: u8) -> (result: Result<Expr, Error>)
        requires
            old(self).wf(),
            1 <= level <= 6,
        ensures
            old(self).reads(
                final(self),
                result,
                grammar::binary(old(self).view_tokens(), old(self).at(), level as nat),
            ),
        decreases old(self).tokens.len() - old(self).current, 4 + 2 * level,
    {
        reveal(grammar::binary);
        reveal(grammar::binary_tail);
        reveal(grammar::unary);
        let ghost tokens = self.view_tokens();
        let ghost start = self.at();
        proof {
            assert(grammar::binary(tokens, start, 0) == grammar::unary(tokens, start));
        }
        let first = if level == 1 {
            self.expr_unary()
        } else if level == 2 {
            self.expr_multiplication()
        } else if level == 3 {
            self.expr_addition()
        } else if level == 4 {
            self.expr_comparison()
        } else if level == 5 {
            self.expr_equality()
        } else {
            self.expr_and()
        };
        let mut expr = match first {
            Ok(expr) => expr,
            Err(e) => {
                return Err(e);
            },
        };
        while self.at_operator(level)
            invariant
                self.wf(),
                self.tokens == old(self).tokens,
                self.stmts == old(self).stmts,
                tokens == self.view_tokens(),
                start == old(self).at(),
                start <= self.current,
                1 <= level <= 6,
                ({
                    let rest = grammar::binary_tail(tokens, self.at(), level as nat, expr@);
                    grammar::binary(tokens, start, level as nat) == (Parsed {
                        used: (self.current - start + rest.used) as nat,
                        result: rest.result,
                    })
                }),
            decreases self.tokens.len() - self.current,
        {
            reveal(grammar::binary);
            reveal(grammar::binary_tail);
            reveal(grammar::unary);
            let ghost at = self.at();
            let operator = self.advance();
            proof {
                assert(grammar::binary(tokens, at + 1, 0) == grammar::unary(tokens, at + 1));
                assert(grammar::right_level(level as nat) == if level >= 4 {
                    3nat
                } else {
                    (level - 1) as nat
                });
            }
            let operand = if level >= 4 {
                self.expr_comparison()
            } else if level == 3 {
                self.expr_addition()
            } else if level == 2 {
                self.expr_multiplication()
            } else {
                self.expr_unary()
            };
            let right = match operand {
                Ok(right) => right,
                Err(e) => {
                    return Err(e);
                },
            };
            Self::extend_binary(&mut expr, operator, right);
        }
        Ok(expr)
    }

    fn expr_unary(&mut self) -> (result: Result<Expr, Error>)
        requires
            old(self).wf(),
        ensures
            old(self).reads(
                final(self),
                result,
                grammar::unary(old(self).view_tokens(), old(self).at()),
            ),
        decreases old(self).tokens.len() - old(self).current, 3nat,
    {
        reveal(grammar::unary);
        reveal(grammar::call);
        if self.match_token(&[TokenKind::Bang, TokenKind::Minus]) {
            let operator = self.previous();
            match self.expr_unary() {
                Ok(right) => Ok(Expr::new_unary(operator, Box::new(right))),
                Err(e) => Err(e),
            }
        } else {
            self.expr_call()
        }
    }

    fn expr_call(&mut self) -> (result: Result<Expr, Error>)
        requires
            old(self).wf(),
        ensures
            old(self).reads(
                final(self),
                result,
                grammar::call(old(self).view_tokens(), old(self).at()),
            ),
        decreases old(self).tokens.len() - old(self).current, 2nat,
    {
        reveal(grammar::call);
        reveal(grammar::call_tail);
        reveal(grammar::primary);
        reveal(grammar::arguments);
        let ghost tokens = self.view_tokens();
        let ghost start = self.at();
        let mut expr = match self.expr_primary() {
            Ok(expr) => expr,
            Err(e) => {
                return Err(e);
            },
        };
        while self.check(&TokenKind::LeftParen)
            invariant
                self.wf(),
                self.tokens == old(self).tokens,
                self.stmts == old(self).stmts,
                tokens == self.view_tokens(),
                start == old(self).at(),
                start <= self.current,
                ({
                    let rest = grammar::call_tail(tokens, self.at(), expr@);
                    grammar::call(tokens, start) == (Parsed {
                        used: (self.current - start + rest.used) as nat,
                        result: rest.result,
                    })
                }),
            decreases self.tokens.len() - self.current,
        {
            reveal(grammar::call);
            reveal(grammar::call_tail);
            reveal(grammar::primary);
            reveal(grammar::arguments);
            match self.finish_expr_call(&mut expr) {
                Ok(_) => {},
                Err(e) => {
                    return Err(e);
                },
            }
        }
        Ok(expr)
    }

    /// Reads the arguments of a call and its closing parenthesis, and makes `callee`
    /// the call; the parser stands on the opening parenthesis.
    fn finish_expr_call(&mut self, callee: &mut Expr) -> (result: Result<(), Error>)
        requires
            old(self).wf(),
            check(old(self).view_tokens(), old(self).at(), TokenKindView::LeftParen),
        ensures
            final(self).tokens == old(self).tokens,
            final(self).stmts == old(self).stmts,
            final(self).wf(),
            ({
                let tokens = old(self).view_tokens();
                let at = old(self).at();
                let inside = if check(tokens, at + 1, TokenKindView::RightParen) {
                    grammar::done(0, Seq::empty())
                } else {
                    grammar::arguments(tokens, at + 1)
                };
                let close = consume(
                    tokens,
                    at + 1 + inside.used,
                    TokenKindView::RightParen,
                    "Expect ')' after arguments."@,
                );
                let line = tokens[final(self).current as int].line;
                match result {
                    Ok(_) => {
                        &&& inside.result is Ok
                        &&& close.result is Ok
                        &&& final(self).current == at + 2 + inside.used
                        &&& final(callee)@ == (ExprView::Call {
                            callee: Box::new(old(callee)@),
                            paren: tokens[at as int],
                            arguments: inside.result->Ok_0,
                        })
                    },
                    Err(e) => {
                        &&& final(self).current == at + 1 + inside.used
                        &&& if inside.result is Err {
                            e@ == (ErrorView { line, msg: inside.result->Err_0 })
                        } else {
                            close.result is Err && e@ == (ErrorView {
                                line,
                                msg: close.result->Err_0,
                            })
                        }
                    },
                }
            }),
        decreases old(self).tokens.len() - old(self).current, 0nat,
    {
        reveal(grammar::arguments);
        reveal(grammar::expression);
        let ghost tokens = self.view_tokens();
        let ghost start = self.at() + 1;
        let paren = self.advance();
        let mut arguments: Vec<Expr> = Vec::new();
        if !self.check(&TokenKind::RightParen) {
            let ghost mut read: Seq<ExprView> = Seq::empty();
            loop
                invariant_except_break
                    ({
                        let rest = grammar::arguments(tokens, self.at());
                        grammar::arguments(tokens, start) == (Parsed {
                            used: (self.current - start + rest.used) as nat,
                            result: match rest.result {
                                Ok(others) => Ok(read + others),
                                Err(msg) => Err(msg),
                            },
                        })
                    }),
                invariant
                    self.wf(),
                    self.tokens == old(self).tokens,
                    self.stmts == old(self).stmts,
                    tokens == self.view_tokens(),
                    start == old(self).at() + 1,
                    start <= self.current,
                    read == expr_views(arguments@),
                    *callee == *old(callee),
                    paren@ == tokens[start - 1],
                    !check(tokens, start, TokenKindView::RightParen),
                ensures
                    read == expr_views(arguments@),
                    grammar::arguments(tokens, start) == (Parsed {
                        used: (self.current - start) as nat,
                        result: Ok(read),
                    }),
                decreases self.tokens.len() - self.current,
            {
                reveal(grammar::arguments);
                reveal(grammar::expression);
                let argument = match self.expression() {
                    Ok(argument) => argument,
                    Err(e) => {
                        return Err(e);
                    },
                };
                let ghost rest = grammar::arguments(tokens, (self.at() + 1) as nat);
                proof {
                    assert(read.push(argument@) + rest.result->Ok_0 =~= read + (seq![argument@]
                        + rest.result->Ok_0));
                    assert(read.push(argument@) =~= read + seq![argument@]);
                    assert(expr_views(arguments@.push(argument)) =~= read.push(argument@));
                    read = read.push(argument@);
                }
                arguments.push(argument);
                if !self.match_token(&[TokenKind::Comma]) {
                    break ;
                }
            }
        } else {
            assert(expr_views(arguments@) =~= Seq::<ExprView>::empty());
        }
        match self.consume(&TokenKind::RightParen, "Expect ')' after arguments.") {
            Ok(_) => {},
            Err(e) => {
                return Err(e);
            },
        }
        let mut inner = Expr::Empty;
        core::mem::swap(callee, &mut inner);
        *callee = Expr::new_call(Box::new(inner), paren, arguments);
        Ok(())
    }

    fn expr_primary(&mut self) -> (result: Result<Expr, Error>)
        requires
            old(self).wf(),
        ensures
            old(self).reads(
                final(self),
                result,
                grammar::primary(old(self).view_tokens(), old(self).at()),
            ),
        decreases old(self).tokens.len() - old(self).current, 0nat,
    {
        reveal(grammar::primary);
        reveal(grammar::expression);
        let token = self.advance();
        if token.kind.match_kind(&TokenKind::False) || token.kind.match_kind(&TokenKind::True)
            || token.kind.match_kind(&TokenKind::Nil) || token.kind.match_kind(
            &TokenKind::NumberLiteral(String::new()),
        ) || token.kind.match_kind(&TokenKind::StringLiteral(String::new())) {
            Ok(Expr::new_literal(token))
        } else if token.kind.match_kind(&TokenKind::Identifier(String::new())) {
            Ok(Expr::new_variable(token))
        } else if token.kind.match_kind(&TokenKind::LeftParen) {
            let expr = match self.expression() {
                Ok(expr) => expr,
                Err(e) => {
                    return Err(e);
                },
            };
            match self.consume(&TokenKind::RightParen, "Expect ')' after expression.") {
                Ok(_) => Ok(Expr::new_grouping(Box::new(expr))),
                Err(e) => Err(e),
            }
        } else {
            let mut msg = String::from_str("Unexpected token '");
            let shown = token.to_string();
            msg.append(shown.as_str());
            msg.append("'");
            self.error(msg)
        }
    }

    /// Tells whether the parser stands at the end of the tokens.
    pub fn is_eof(&self) -> (at_end: bool)
        requires
            self.wf(),
        ensures
            at_end == (kind_at(self.view_tokens(), self.at()) is Eof),
    {
        match &self.tokens[self.current].kind {
            TokenKind::Eof => true,
            _ => false,
        }
    }

    /// Steps over the token on which the parser stands and returns it. At the end
    /// there is nothing to step over, and the token returned is `Eof`.
    fn advance(&mut self) -> (token: Token)
        requires
            old(self).wf(),
        ensures
            final(self).wf(),
            final(self).tokens == old(self).tokens,
            final(self).stmts == old(self).stmts,
            token@ == old(self).view_tokens()[old(self).current as int],
            final(self).current == old(self).current + if kind_at(
                old(self).view_tokens(),
                old(self).at(),
            ) is Eof {
                0int
            } else {
                1int
            },
    {
        let token = self.peek();
        if !self.is_eof() {
            self.current += 1;
        }
        token
    }

    /// Steps over the token on which the parser stands if it is of one of `kinds`.
    fn match_token(&mut self, kinds: &[TokenKind]) -> (matched: bool)
        requires
            old(self).wf(),
        ensures
            final(self).wf(),
            final(self).tokens == old(self).tokens,
            final(self).stmts == old(self).stmts,
            matched == (exists|i: int|
                0 <= i < kinds@.len() && check(
                    old(self).view_tokens(),
                    old(self).at(),
                    #[trigger] kinds@[i]@,
                )),
            final(self).current == old(self).current + if matched {
                1int
            } else {
                0int
            },
    {
        let mut i: usize = 0;
        while i < kinds.len()
            invariant
                i <= kinds@.len(),
                self.wf(),
                *self == *old(self),
                forall|j: int|
                    0 <= j < i ==> !check(self.view_tokens(), self.at(), #[trigger] kinds@[j]@),
            decreases kinds.len() - i,
        {
            if self.check(&kinds[i]) {
                self.advance();
                return true;
            }
            i += 1;
        }
        false
    }

    /// Tells whether the token on which the parser stands is of the kind `kind`.
    fn check(&self, kind: &TokenKind) -> (matched: bool)
        requires
            self.wf(),
        ensures
            matched == check(self.view_tokens(), self.at(), kind@),
    {
        if self.is_eof() {
            return false;
        }
        self.tokens[self.current].kind.match_kind(kind)
    }

    /// Tells whether the parser stands on an operator of `level`.
    fn at_operator(&self, level: u8) -> (matched: bool)
        requires
            self.wf(),
        ensures
            matched == (!(kind_at(self.view_tokens(), self.at()) is Eof) && is_operator(
                level as nat,
                kind_at(self.view_tokens(), self.at()),
            )),
    {
        match &self.tokens[self.current].kind {
            TokenKind::Star | TokenKind::Slash => level == 1,
            TokenKind::Plus | TokenKind::Minus => level == 2,
            TokenKind::Greater
            | TokenKind::GreaterEqual
            | TokenKind::Less
            | TokenKind::LessEqual => level == 3,
            TokenKind::BangEqual | TokenKind::EqualEqual => level == 4,
            TokenKind::And => level == 5,
            TokenKind::Or => level == 6,
            _ => false,
        }
    }

    /// The token on which the parser stands.
    fn peek(&self) -> (token: Token)
        requires
            self.wf(),
        ensures
            token@ == self.view_tokens()[self.current as int],
    {
        self.tokens[self.current].clone()
    }

    /// The token before the one on which the parser stands.
    fn previous(&self) -> (token: Token)
        requires
            self.wf(),
            self.current > 0,
        ensures
            token@ == self.view_tokens()[self.current - 1],
    {
        self.tokens[self.current - 1].clone()
    }

    /// Steps over the token on which the parser stands if it is of the kind `kind`, and
    /// complains with `msg` and the token found if it is not.
    fn consume(&mut self, kind: &TokenKind, msg: &str) -> (result: Result<Token, Error>)
        requires
            old(self).wf(),
        ensures
            old(self).reads(
                final(self),
                result,
                consume(old(self).view_tokens(), old(self).at(), kind@, msg@),
            ),
    {
        if self.check(kind) {
            return Ok(self.advance());
        }
        let mut text = String::from_str(msg);
        text.append(" Found '");
        let shown = self.tokens[self.current].debug();
        text.append(shown.as_str());
        text.append("'");
        self.error(text)
    }

    /// Makes `expr` the left operand of `operator`, with `right` as the right one.
    fn extend_binary(expr: &mut Expr, operator: Token, right: Expr)
        ensures
            *final(expr) == (Expr::Binary {
                left: Box::new(*old(expr)),
                operator,
                right: Box::new(right),
            }),
    {
        let mut left = Expr::Empty;
        core::mem::swap(expr, &mut left);
        *expr = Expr::new_binary(Box::new(left), operator, Box::new(right));
    }

    /// The complaint `msg` about the line of the token on which the parser stands.
    fn error<T>(&self, msg: String) -> (result: Result<T, Error>)
        requires
            self.wf(),
        ensures
            result matches Err(e) && e@ == (ErrorView {
                line: self.view_tokens()[self.current as int].line,
                msg: msg@,
            }),
    {
        Err(Error { line: self.tokens[self.current].line, msg })
    }
}

} // verus!
