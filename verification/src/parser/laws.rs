use crate::ast::expr::ExprView;
use crate::parser::grammar::{
    assignment, binary, binary_tail, block, block_items, call, call_tail, check, declaration,
    done, expression, is_operator, kind_at, left, lemma_declaration_takes_a_token, primary,
    right_level, unary,
};
use crate::scanner::token::TokenView;
use vstd::prelude::*;

verus! {

/// A number that no parenthesis follows is read as a literal, and is a whole unary
/// expression.
pub proof fn lemma_number_is_an_operand(tokens: Seq<TokenView>, at: nat)
    requires
        kind_at(tokens, at) is NumberLiteral,
        !(kind_at(tokens, at + 1) is LeftParen),
    ensures
        unary(tokens, at) == done(1, ExprView::Literal { value: tokens[at as int] }),
{
    reveal(unary);
    reveal(call);
    reveal(call_tail);
    reveal(primary);
    let literal = ExprView::Literal { value: tokens[at as int] };
    assert(primary(tokens, at) == done(1, literal));
    assert(call_tail(tokens, at + 1, literal) == done(0, literal));
    assert(call(tokens, at) == done(1, literal));
}

/// Where no operator of `level` follows an expression of the level below, that
/// expression is the whole expression of `level`.
pub proof fn lemma_no_operator_follows(
    tokens: Seq<TokenView>,
    at: nat,
    level: nat,
    used: nat,
    value: ExprView,
)
    requires
        level >= 1,
        binary(tokens, at, (level - 1) as nat) == done(used, value),
        kind_at(tokens, at + used) is Eof || !is_operator(level, kind_at(tokens, at + used)),
    ensures
        binary(tokens, at, level) == done(used, value),
{
    reveal(binary);
    reveal(binary_tail);
    assert(binary_tail(tokens, at + used, level, value) == done(0, value));
}

/// Where one operator of `level` stands between two operands, and no other follows,
/// the expression of `level` is that operator applied to the two.
pub proof fn lemma_one_operator(
    tokens: Seq<TokenView>,
    at: nat,
    level: nat,
    used: nat,
    left: ExprView,
    more: nat,
    right: ExprView,
)
    requires
        level >= 1,
        binary(tokens, at, (level - 1) as nat) == done(used, left),
        !(kind_at(tokens, at + used) is Eof),
        is_operator(level, kind_at(tokens, at + used)),
        binary(tokens, at + used + 1, right_level(level)) == done(more, right),
        kind_at(tokens, at + used + 1 + more) is Eof || !is_operator(
            level,
            kind_at(tokens, at + used + 1 + more),
        ),
    ensures
        binary(tokens, at, level) == done(
            used + 1 + more,
            ExprView::Binary {
                left: Box::new(left),
                operator: tokens[at + used as int],
                right: Box::new(right),
            },
        ),
{
    reveal(binary);
    reveal(binary_tail);
    let whole = ExprView::Binary {
        left: Box::new(left),
        operator: tokens[at + used as int],
        right: Box::new(right),
    };
    assert(binary_tail(tokens, at + used + 1 + more, level, whole) == done(0, whole));
    assert(binary_tail(tokens, at + used, level, left) == done(1 + more, whole));
}

/// Multiplication binds tighter than addition: `a + b * c` is read as the sum of `a`
/// and the product of `b` and `c`, whatever the three numbers are.
pub proof fn lemma_product_binds_tighter_than_sum(tokens: Seq<TokenView>)
    requires
        tokens.len() >= 6,
        tokens[0].kind is NumberLiteral,
        tokens[1].kind is Plus,
        tokens[2].kind is NumberLiteral,
        tokens[3].kind is Star,
        tokens[4].kind is NumberLiteral,
        tokens[5].kind is Semicolon,
    ensures
        expression(tokens, 0) == done(
            5,
            ExprView::Binary {
                left: Box::new(ExprView::Literal { value: tokens[0] }),
                operator: tokens[1],
                right: Box::new(
                    ExprView::Binary {
                        left: Box::new(ExprView::Literal { value: tokens[2] }),
                        operator: tokens[3],
                        right: Box::new(ExprView::Literal { value: tokens[4] }),
                    },
                ),
            },
        ),
{
    let a = ExprView::Literal { value: tokens[0] };
    let b = ExprView::Literal { value: tokens[2] };
    let c = ExprView::Literal { value: tokens[4] };
    let product = ExprView::Binary {
        left: Box::new(b),
        operator: tokens[3],
        right: Box::new(c),
    };
    let sum = ExprView::Binary { left: Box::new(a), operator: tokens[1], right: Box::new(product) };
    reveal(binary);
    reveal(unary);
    lemma_number_is_an_operand(tokens, 0);
    lemma_number_is_an_operand(tokens, 2);
    lemma_number_is_an_operand(tokens, 4);
    assert(binary(tokens, 0, 0) == done(1, a));
    assert(binary(tokens, 2, 0) == done(1, b));
    assert(binary(tokens, 4, 0) == done(1, c));
    lemma_one_operator(tokens, 2, 1, 1, b, 1, c);
    lemma_no_operator_follows(tokens, 0, 1, 1, a);
    lemma_one_operator(tokens, 0, 2, 1, a, 3, product);
    lemma_no_operator_follows(tokens, 0, 3, 5, sum);
    lemma_no_operator_follows(tokens, 0, 4, 5, sum);
    lemma_no_operator_follows(tokens, 0, 5, 5, sum);
    lemma_no_operator_follows(tokens, 0, 6, 5, sum);
    reveal(assignment);
    reveal(expression);
    assert(assignment(tokens, 0) == done(5, sum));
}

/// The declarations of a block are read up to a closing brace or to the end.
pub proof fn lemma_block_items_end(tokens: Seq<TokenView>, at: nat)
    ensures
        block_items(tokens, at).result is Ok ==> kind_at(
            tokens,
            at + block_items(tokens, at).used,
        ) is Eof || kind_at(tokens, at + block_items(tokens, at).used) is RightBrace,
    decreases left(tokens, at),
{
    reveal(block_items);
    reveal(declaration);
    if !(kind_at(tokens, at) is Eof || kind_at(tokens, at) is RightBrace) {
        lemma_declaration_takes_a_token(tokens, at);
        let first = declaration(tokens, at);
        if first.result is Ok {
            lemma_block_items_end(tokens, at + first.used);
        }
    }
}

/// A block that is opened and not closed is refused: where no closing brace follows
/// an opening one, reading the block ends in a complaint.
pub proof fn lemma_open_block_is_refused(tokens: Seq<TokenView>, at: nat)
    requires
        kind_at(tokens, at) is LeftBrace,
        forall|i: int| at < i < tokens.len() ==> !((#[trigger] tokens[i]).kind is RightBrace),
    ensures
        block(tokens, at).result is Err,
{
    reveal(block);
    reveal(block_items);
    lemma_block_items_end(tokens, at + 1);
    let items = block_items(tokens, at + 1);
    if items.result is Ok {
        let stop = (at + 1 + items.used) as nat;
        assert(!(kind_at(tokens, stop) is RightBrace));
        assert(!check(tokens, stop, crate::scanner::token::TokenKindView::RightBrace));
    }
}

} // verus!
