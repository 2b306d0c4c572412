use crate::ast::expr::ExprView;
use crate::ast::stmt::StmtView;
use crate::parser::grammar::{
    arguments, assignment, binary, binary_tail, block, block_items, call, call_tail, check,
    declaration, expr_stmt, expression, for_stmt, fun_decl, if_stmt, kind_at, left, params,
    primary, print_stmt, program, statement, unary, var_decl, while_stmt,
};
use crate::scanner::token::{TokenKindView, TokenView};
use vstd::prelude::*;

verus! {

/// The kinds of the operators with two operands.
pub open spec fn is_binary_operator(kind: TokenKindView) -> bool {
    kind is Star || kind is Slash || kind is Plus || kind is Minus || kind is Greater
        || kind is GreaterEqual || kind is Less || kind is LessEqual || kind is BangEqual
        || kind is EqualEqual || kind is And || kind is Or
}

/// The kinds of the tokens that spell a value.
pub open spec fn is_value(kind: TokenKindView) -> bool {
    kind is False || kind is True || kind is Nil || kind is NumberLiteral
        || kind is StringLiteral
}

/// Whether an expression is one that a program can spell: names are names, literals
/// spell values, operators are operators of their sort, a call holds a parenthesis,
/// and no part is empty.
pub open spec fn spelt_expr(expr: ExprView) -> bool
    decreases expr,
{
    match expr {
        ExprView::Assign { name, value } => name.kind is Identifier && spelt_expr(*value),
        ExprView::Binary { left, operator, right } => is_binary_operator(operator.kind)
            && spelt_expr(*left) && spelt_expr(*right),
        ExprView::Grouping { expression } => spelt_expr(*expression),
        ExprView::Literal { value } => is_value(value.kind),
        ExprView::Unary { operator, right } => (operator.kind is Bang || operator.kind is Minus)
            && spelt_expr(*right),
        ExprView::Call { callee, paren, arguments } => paren.kind is LeftParen && spelt_expr(
            *callee,
        ) && forall|i: int| 0 <= i < arguments.len() ==> spelt_expr(#[trigger] arguments[i]),
        ExprView::Variable { name } => name.kind is Identifier,
        ExprView::Empty => false,
    }
}

/// Whether a statement is one that a program can spell: its expressions are, the
/// names it declares are names, and the body of a function is a block.
pub open spec fn spelt_stmt(stmt: StmtView) -> bool
    decreases stmt,
{
    match stmt {
        StmtView::Var { name, initializer } => name.kind is Identifier && spelt_expr(initializer),
        StmtView::Block { statements } => forall|i: int|
            0 <= i < statements.len() ==> spelt_stmt(#[trigger] statements[i]),
        StmtView::If { line_number, condition, then_block, else_block } => spelt_expr(condition)
            && spelt_stmt(*then_block) && spelt_stmt(*else_block),
        StmtView::While { line_number, condition, body } => spelt_expr(condition) && spelt_stmt(
            *body,
        ),
        StmtView::Function { name, params, body } => name.kind is Identifier && (forall|i: int|
            0 <= i < params.len() ==> (#[trigger] params[i]).kind is Identifier) && *body is Block
            && spelt_stmt(*body),
        StmtView::Expression { expression } => spelt_expr(expression),
        StmtView::Print { expression } => spelt_expr(expression),
        StmtView::Empty => true,
    }
}

/// A token that is taken for a kind without text is of that kind.
pub proof fn lemma_checked_kind(tokens: Seq<TokenView>, at: nat, kind: TokenKindView)
    requires
        check(tokens, at, kind),
    ensures
        tokens[at as int].kind.match_kind(kind),
        at < tokens.len(),
{
}

pub proof fn lemma_primary_is_spelt(tokens: Seq<TokenView>, at: nat)
    ensures
        primary(tokens, at).result matches Ok(e) ==> spelt_expr(e),
    decreases left(tokens, at), 0nat,
{
    reveal(primary);
    reveal(expression);
    if kind_at(tokens, at) is LeftParen {
        lemma_expression_is_spelt(tokens, at + 1);
    }
}

pub proof fn lemma_arguments_are_spelt(tokens: Seq<TokenView>, at: nat)
    ensures
        arguments(tokens, at).result matches Ok(list) ==> forall|i: int|
            0 <= i < list.len() ==> spelt_expr(#[trigger] list[i]),
    decreases left(tokens, at), 22nat,
{
    reveal(arguments);
    reveal(expression);
    lemma_expression_is_spelt(tokens, at);
    let first = expression(tokens, at);
    if first.result is Ok && check(tokens, at + first.used, TokenKindView::Comma) {
        lemma_checked_kind(tokens, at + first.used, TokenKindView::Comma);
        lemma_arguments_are_spelt(tokens, at + first.used + 1);
    }
}

pub proof fn lemma_call_tail_is_spelt(tokens: Seq<TokenView>, at: nat, callee: ExprView)
    requires
        spelt_expr(callee),
    ensures
        call_tail(tokens, at, callee).result matches Ok(e) ==> spelt_expr(e),
    decreases left(tokens, at), 1nat,
{
    reveal(call_tail);
    reveal(arguments);
    if check(tokens, at, TokenKindView::LeftParen) {
        lemma_checked_kind(tokens, at, TokenKindView::LeftParen);
        let inside = if check(tokens, at + 1, TokenKindView::RightParen) {
            crate::parser::grammar::done(0, Seq::empty())
        } else {
            arguments(tokens, at + 1)
        };
        if !check(tokens, at + 1, TokenKindView::RightParen) {
            lemma_arguments_are_spelt(tokens, at + 1);
        }
        if inside.result is Ok {
            let made = ExprView::Call {
                callee: Box::new(callee),
                paren: tokens[at as int],
                arguments: inside.result->Ok_0,
            };
            assert(spelt_expr(made));
            lemma_call_tail_is_spelt(tokens, at + 2 + inside.used, made);
        }
    }
}

pub proof fn lemma_call_is_spelt(tokens: Seq<TokenView>, at: nat)
    ensures
        call(tokens, at).result matches Ok(e) ==> spelt_expr(e),
    decreases left(tokens, at), 2nat,
{
    reveal(call);
    reveal(primary);
    reveal(call_tail);
    lemma_primary_is_spelt(tokens, at);
    let callee = primary(tokens, at);
    if callee.result is Ok {
        lemma_call_tail_is_spelt(tokens, at + callee.used, callee.result->Ok_0);
    }
}

pub proof fn lemma_unary_is_spelt(tokens: Seq<TokenView>, at: nat)
    ensures
        unary(tokens, at).result matches Ok(e) ==> spelt_expr(e),
    decreases left(tokens, at), 3nat,
{
    reveal(unary);
    reveal(call);
    if check(tokens, at, TokenKindView::Bang) || check(tokens, at, TokenKindView::Minus) {
        lemma_unary_is_spelt(tokens, at + 1);
    } else {
        lemma_call_is_spelt(tokens, at);
    }
}

pub proof fn lemma_binary_tail_is_spelt(
    tokens: Seq<TokenView>,
    at: nat,
    level: nat,
    left_side: ExprView,
)
    requires
        spelt_expr(left_side),
    ensures
        binary_tail(tokens, at, level, left_side).result matches Ok(e) ==> spelt_expr(e),
    decreases left(tokens, at), 3 + 2 * level,
{
    reveal(binary_tail);
    reveal(binary);
    if !(kind_at(tokens, at) is Eof) && crate::parser::grammar::is_operator(
        level,
        kind_at(tokens, at),
    ) {
        let inner = crate::parser::grammar::right_level(level);
        lemma_binary_is_spelt(tokens, at + 1, inner);
        let operand = binary(tokens, at + 1, inner);
        if operand.result is Ok {
            let made = ExprView::Binary {
                left: Box::new(left_side),
                operator: tokens[at as int],
                right: Box::new(operand.result->Ok_0),
            };
            lemma_binary_tail_is_spelt(tokens, at + 1 + operand.used, level, made);
        }
    }
}

pub proof fn lemma_binary_is_spelt(tokens: Seq<TokenView>, at: nat, level: nat)
    ensures
        binary(tokens, at, level).result matches Ok(e) ==> spelt_expr(e),
    decreases left(tokens, at), 4 + 2 * level,
{
    reveal(binary);
    reveal(unary);
    reveal(binary_tail);
    if level == 0 {
        lemma_unary_is_spelt(tokens, at);
    } else {
        lemma_binary_is_spelt(tokens, at, (level - 1) as nat);
        let first = binary(tokens, at, (level - 1) as nat);
        if first.result is Ok {
            lemma_binary_tail_is_spelt(tokens, at + first.used, level, first.result->Ok_0);
        }
    }
}

pub proof fn lemma_assignment_is_spelt(tokens: Seq<TokenView>, at: nat)
    ensures
        assignment(tokens, at).result matches Ok(e) ==> spelt_expr(e),
    decreases left(tokens, at), 20nat,
{
    reveal(assignment);
    reveal(binary);
    lemma_binary_is_spelt(tokens, at, 6);
    let target = binary(tokens, at, 6);
    if target.result is Ok && check(tokens, at + target.used, TokenKindView::Equal) {
        lemma_checked_kind(tokens, at + target.used, TokenKindView::Equal);
        lemma_assignment_is_spelt(tokens, at + target.used + 1);
    }
}

/// Every expression that is read is one that a program can spell.
pub proof fn lemma_expression_is_spelt(tokens: Seq<TokenView>, at: nat)
    ensures
        expression(tokens, at).result matches Ok(e) ==> spelt_expr(e),
    decreases left(tokens, at), 21nat,
{
    reveal(expression);
    reveal(assignment);
    lemma_assignment_is_spelt(tokens, at);
}

pub proof fn lemma_expr_stmt_is_spelt(tokens: Seq<TokenView>, at: nat)
    ensures
        expr_stmt(tokens, at).result matches Ok(s) ==> spelt_stmt(s),
{
    reveal(expr_stmt);
    reveal(expression);
    lemma_expression_is_spelt(tokens, at);
}

pub proof fn lemma_print_stmt_is_spelt(tokens: Seq<TokenView>, at: nat)
    ensures
        print_stmt(tokens, at).result matches Ok(s) ==> spelt_stmt(s),
{
    reveal(print_stmt);
    reveal(expression);
    lemma_expression_is_spelt(tokens, at + 1);
}

pub proof fn lemma_var_decl_is_spelt(tokens: Seq<TokenView>, at: nat)
    ensures
        var_decl(tokens, at).result matches Ok(s) ==> spelt_stmt(s),
{
    reveal(var_decl);
    reveal(expression);
    lemma_expression_is_spelt(tokens, at + 3);
}

pub proof fn lemma_params_are_names(tokens: Seq<TokenView>, at: nat)
    ensures
        params(tokens, at).result matches Ok(list) ==> forall|i: int|
            0 <= i < list.len() ==> (#[trigger] list[i]).kind is Identifier,
    decreases left(tokens, at),
{
    reveal(params);
    if check(tokens, at, TokenKindView::Identifier(Seq::empty())) && check(
        tokens,
        at + 1,
        TokenKindView::Comma,
    ) {
        lemma_params_are_names(tokens, at + 2);
    }
}

pub proof fn lemma_fun_decl_is_spelt(tokens: Seq<TokenView>, at: nat, what: Seq<char>)
    ensures
        fun_decl(tokens, at, what).result matches Ok(s) ==> spelt_stmt(s),
    decreases left(tokens, at), 23nat,
{
    reveal(fun_decl);
    reveal(block);
    lemma_params_are_names(tokens, at + 3);
    let listed = if check(tokens, at + 3, TokenKindView::RightParen) {
        crate::parser::grammar::done(0, Seq::empty())
    } else {
        params(tokens, at + 3)
    };
    if !(kind_at(tokens, at) is Eof) {
        lemma_block_is_spelt(tokens, at + 4 + listed.used);
    }
}

pub proof fn lemma_block_items_are_spelt(tokens: Seq<TokenView>, at: nat)
    ensures
        block_items(tokens, at).result matches Ok(list) ==> forall|i: int|
            0 <= i < list.len() ==> spelt_stmt(#[trigger] list[i]),
    decreases left(tokens, at), 27nat,
{
    reveal(block_items);
    reveal(declaration);
    if !(kind_at(tokens, at) is Eof || kind_at(tokens, at) is RightBrace) {
        lemma_declaration_is_spelt(tokens, at);
        let first = declaration(tokens, at);
        if first.result is Ok && first.used > 0 {
            lemma_block_items_are_spelt(tokens, at + first.used);
        }
    }
}

pub proof fn lemma_block_is_spelt(tokens: Seq<TokenView>, at: nat)
    ensures
        block(tokens, at).result matches Ok(s) ==> spelt_stmt(s) && s is Block,
    decreases left(tokens, at), 23nat,
{
    reveal(block);
    reveal(block_items);
    if !(kind_at(tokens, at) is Eof) {
        lemma_block_items_are_spelt(tokens, at + 1);
    }
}

#[verifier::spinoff_prover]
pub proof fn lemma_if_stmt_is_spelt(tokens: Seq<TokenView>, at: nat)
    ensures
        if_stmt(tokens, at).result matches Ok(s) ==> spelt_stmt(s),
    decreases left(tokens, at), 23nat,
{
    reveal(if_stmt);
    reveal(expression);
    reveal(statement);
    if !(kind_at(tokens, at) is Eof) {
        lemma_expression_is_spelt(tokens, at + 2);
        let tested = expression(tokens, at + 2);
        let then_at = (at + 3 + tested.used) as nat;
        lemma_statement_is_spelt(tokens, then_at);
        let then_part = statement(tokens, then_at);
        let other = statement(tokens, then_at + then_part.used + 1);
        if check(tokens, then_at + then_part.used, TokenKindView::Else) {
            lemma_checked_kind(tokens, then_at + then_part.used, TokenKindView::Else);
            lemma_statement_is_spelt(tokens, then_at + then_part.used + 1);
        }
        if if_stmt(tokens, at).result is Ok {
            let made = if_stmt(tokens, at).result->Ok_0;
            assert(tested.result is Ok);
            assert(then_part.result is Ok);
            assert(spelt_expr(tested.result->Ok_0));
            assert(spelt_stmt(then_part.result->Ok_0));
            assert(made is If);
            assert(made->If_condition == tested.result->Ok_0);
            assert(*made->If_then_block == then_part.result->Ok_0);
            assert(spelt_stmt(*made->If_else_block));
            assert(spelt_stmt(made));
        }
    }
}

pub proof fn lemma_while_stmt_is_spelt(tokens: Seq<TokenView>, at: nat)
    ensures
        while_stmt(tokens, at).result matches Ok(s) ==> spelt_stmt(s),
    decreases left(tokens, at), 23nat,
{
    reveal(while_stmt);
    reveal(expression);
    reveal(statement);
    if !(kind_at(tokens, at) is Eof) {
        lemma_expression_is_spelt(tokens, at + 2);
        let tested = expression(tokens, at + 2);
        lemma_statement_is_spelt(tokens, at + 3 + tested.used);
    }
}

#[verifier::spinoff_prover]
pub proof fn lemma_for_stmt_is_spelt(tokens: Seq<TokenView>, at: nat)
    ensures
        for_stmt(tokens, at).result matches Ok(s) ==> spelt_stmt(s),
    decreases left(tokens, at), 24nat,
{
    reveal(for_stmt);
    reveal(expression);
    reveal(statement);
    reveal(var_decl);
    reveal(expr_stmt);
    if !(kind_at(tokens, at) is Eof) {
        lemma_var_decl_is_spelt(tokens, at + 2);
        lemma_expr_stmt_is_spelt(tokens, at + 2);
        let first = if check(tokens, at + 2, TokenKindView::Semicolon) {
            crate::parser::grammar::done(1, StmtView::Empty)
        } else if check(tokens, at + 2, TokenKindView::Var) {
            var_decl(tokens, at + 2)
        } else {
            expr_stmt(tokens, at + 2)
        };
        let test_at = (at + 2 + first.used) as nat;
        lemma_expression_is_spelt(tokens, test_at);
        let tested = if check(tokens, test_at, TokenKindView::Semicolon) {
            crate::parser::grammar::done(
                0,
                ExprView::Literal {
                    value: TokenView { kind: TokenKindView::True, line: tokens[at as int].line },
                },
            )
        } else {
            expression(tokens, test_at)
        };
        let step_at = (test_at + tested.used + 1) as nat;
        lemma_expression_is_spelt(tokens, step_at);
        let value = expression(tokens, step_at);
        let stepped = if check(tokens, step_at, TokenKindView::RightParen) {
            crate::parser::grammar::done(0, StmtView::Empty)
        } else {
            match value.result {
                Err(msg) => crate::parser::grammar::fail(value.used, msg),
                Ok(expression) => crate::parser::grammar::done(
                    value.used,
                    StmtView::Expression { expression },
                ),
            }
        };
        let body_at = (step_at + stepped.used + 1) as nat;
        lemma_statement_is_spelt(tokens, body_at);
        let repeated = statement(tokens, body_at);
        if for_stmt(tokens, at).result is Ok {
            assert(repeated.result is Ok);
            assert(stepped.result is Ok);
            assert(tested.result is Ok);
            assert(first.result is Ok);
            assert(spelt_stmt(repeated.result->Ok_0));
            assert(spelt_stmt(stepped.result->Ok_0));
            assert(spelt_expr(tested.result->Ok_0)) by {
                assert(is_value(TokenKindView::True));
            }
            assert(spelt_stmt(first.result->Ok_0));
            let parts = seq![repeated.result->Ok_0, stepped.result->Ok_0];
            assert forall|i: int| 0 <= i < parts.len() implies spelt_stmt(
                #[trigger] parts[i],
            ) by {
                if i == 0 {
                } else {
                    assert(parts[i] == stepped.result->Ok_0);
                }
            }
            let inner = StmtView::Block { statements: parts };
            assert(spelt_stmt(inner));
            let looped = StmtView::While {
                line_number: tokens[at as int].line,
                condition: tested.result->Ok_0,
                body: Box::new(inner),
            };
            assert(spelt_stmt(looped));
            let whole = seq![first.result->Ok_0, looped];
            assert forall|i: int| 0 <= i < whole.len() implies spelt_stmt(
                #[trigger] whole[i],
            ) by {
                if i == 0 {
                } else {
                    assert(whole[i] == looped);
                }
            }
            assert(spelt_stmt(StmtView::Block { statements: whole }));
        }
    }
}

pub proof fn lemma_statement_is_spelt(tokens: Seq<TokenView>, at: nat)
    ensures
        statement(tokens, at).result matches Ok(s) ==> spelt_stmt(s),
    decreases left(tokens, at), 25nat,
{
    reveal(statement);
    reveal(block);
    reveal(if_stmt);
    reveal(while_stmt);
    reveal(for_stmt);
    reveal(print_stmt);
    reveal(expr_stmt);
    match kind_at(tokens, at) {
        TokenKindView::LeftBrace => lemma_block_is_spelt(tokens, at),
        TokenKindView::If => lemma_if_stmt_is_spelt(tokens, at),
        TokenKindView::While => lemma_while_stmt_is_spelt(tokens, at),
        TokenKindView::For => lemma_for_stmt_is_spelt(tokens, at),
        TokenKindView::Print => lemma_print_stmt_is_spelt(tokens, at),
        _ => lemma_expr_stmt_is_spelt(tokens, at),
    }
}

pub proof fn lemma_declaration_is_spelt(tokens: Seq<TokenView>, at: nat)
    ensures
        declaration(tokens, at).result matches Ok(s) ==> spelt_stmt(s),
    decreases left(tokens, at), 26nat,
{
    reveal(declaration);
    reveal(var_decl);
    reveal(fun_decl);
    reveal(statement);
    match kind_at(tokens, at) {
        TokenKindView::Var => lemma_var_decl_is_spelt(tokens, at),
        TokenKindView::Fun => lemma_fun_decl_is_spelt(tokens, at, "function"@),
        _ => lemma_statement_is_spelt(tokens, at),
    }
}

/// Every statement that is read is one that a program can spell: the worker never
/// meets in it a name that is none, an operator of the wrong sort, a literal that
/// spells no value, or an empty expression.
pub proof fn lemma_program_is_spelt(tokens: Seq<TokenView>, at: nat)
    ensures
        forall|i: int|
            0 <= i < program(tokens, at).stmts.len() ==> spelt_stmt(
                #[trigger] program(tokens, at).stmts[i],
            ),
    decreases left(tokens, at),
{
    reveal(program);
    reveal(declaration);
    if !(kind_at(tokens, at) is Eof) {
        lemma_declaration_is_spelt(tokens, at);
        let first = declaration(tokens, at);
        if first.result is Ok && first.used > 0 {
            lemma_program_is_spelt(tokens, at + first.used);
        }
    }
}

} // verus!
