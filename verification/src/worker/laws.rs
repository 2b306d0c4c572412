use crate::stack::Scope;
use crate::worker::machine::{ActionView, FocusView, FrameView, Operation, ReplyView};
use crate::ast::stmt::StmtView;
use crate::scanner::token::TokenView;
use crate::stack::InstanceView;
use crate::worker::rules::{
    advance, bound, deliver, eval, execute, invoke, no_scope, proceed, started, step, Outcome,
    WorkerView,
};
use vstd::prelude::*;

verus! {

/// Whether a frame holds a scope open, which is closed when the frame goes on.
pub open spec fn holds_scope(frame: FrameView) -> bool {
    frame is Scope || frame is Return
}

/// How many of the frames hold a scope open.
pub open spec fn scopes_held(frames: Seq<FrameView>) -> nat
    decreases frames.len(),
{
    if frames.len() == 0 {
        0
    } else {
        scopes_held(frames.drop_last()) + if holds_scope(frames.last()) {
            1nat
        } else {
            0nat
        }
    }
}

/// The scopes of a worker are those that its run found, and one for each frame that
/// holds one open.
pub open spec fn balanced(state: WorkerView) -> bool {
    state.stack.len() == state.base + 1 + scopes_held(state.frames)
}

/// A frame more holds one scope more where it holds one, and none else.
pub proof fn lemma_scopes_held_with(frames: Seq<FrameView>, frame: FrameView)
    ensures
        scopes_held(frames.push(frame)) == scopes_held(frames) + if holds_scope(frame) {
            1nat
        } else {
            0nat
        },
{
    assert(frames.push(frame).drop_last() =~= frames);
}

/// Binding parameters opens and closes no scope.
pub proof fn lemma_bound_keeps_scopes(
    scopes: Seq<Scope>,
    params: Seq<TokenView>,
    arguments: Seq<InstanceView>,
    from: nat,
)
    requires
        scopes.len() > 0,
    ensures
        bound(scopes, params, arguments, from).0.len() == scopes.len(),
    decreases params.len() - from,
{
    if from < params.len() {
        match params[from as int].kind {
            crate::scanner::token::TokenKindView::Identifier(text) => {
                let value = if from < arguments.len() {
                    arguments[from as int]
                } else {
                    InstanceView::Nil
                };
                lemma_bound_keeps_scopes(
                    crate::stack::defined(scopes, text, value),
                    params,
                    arguments,
                    from + 1,
                );
            },
            _ => {},
        }
    }
}

/// What a piece of work leaves is balanced where it goes on, and holds no fewer
/// scopes than the run found where it gives up.
pub open spec fn keeps_balance(outcome: Outcome) -> bool {
    match outcome.result {
        Ok(_) => balanced(outcome.state),
        Err(_) => outcome.state.stack.len() >= outcome.state.base + 1,
    }
}

/// A call keeps the balance.
pub proof fn lemma_invoke_keeps_balance(
    state: WorkerView,
    callee: crate::function::callable::CallableView,
    arguments: Seq<InstanceView>,
)
    requires
        balanced(state),
    ensures
        keeps_balance(invoke(state, callee, arguments)),
        invoke(state, callee, arguments).state.base == state.base,
{
    match callee {
        crate::function::callable::CallableView::User(function) => {
            lemma_bound_keeps_scopes(
                crate::stack::pushed(state.stack),
                function.params,
                arguments,
                0,
            );
            lemma_scopes_held_with(state.frames, FrameView::Return);
        },
        _ => {},
    }
}

/// A value that goes to the frame on top keeps the balance.
pub proof fn lemma_deliver_keeps_balance(state: WorkerView, value: InstanceView)
    requires
        balanced(state),
    ensures
        keeps_balance(deliver(state, value)),
        deliver(state, value).state.base == state.base,
{
    if state.frames.len() > 0 {
        let rest = state.released();
        let frame = state.frames.last();
        crate::stack::lemma_assigned_reads(
            rest.stack,
            match frame {
                FrameView::Assign { name } => name.kind.text(),
                _ => Seq::empty(),
            },
            value,
        );
        match frame {
            FrameView::Left { operator, right } => {
                lemma_scopes_held_with(rest.frames, FrameView::Second { operator });
                lemma_scopes_held_with(rest.frames, FrameView::Right { operator, left: value });
            },
            FrameView::Callee { paren, arguments } => {
                match value {
                    InstanceView::Function(callee) => {
                        lemma_invoke_keeps_balance(rest, callee, Seq::empty());
                        lemma_scopes_held_with(
                            rest.frames,
                            FrameView::Argument {
                                paren,
                                callee,
                                done: Seq::empty(),
                                rest: arguments.drop_first(),
                            },
                        );
                    },
                    _ => {},
                }
            },
            FrameView::Argument { paren, callee, done, rest: others } => {
                lemma_invoke_keeps_balance(rest, callee, done.push(value));
                lemma_scopes_held_with(
                    rest.frames,
                    FrameView::Argument {
                        paren,
                        callee,
                        done: done.push(value),
                        rest: others.drop_first(),
                    },
                );
            },
            FrameView::Repeat { line_number, condition, body } => {
                lemma_scopes_held_with(
                    rest.frames,
                    FrameView::Again { line_number, condition, body },
                );
            },
            _ => {},
        }
    }
}

/// The end of a statement keeps the balance, and under it no frame has to close the
/// global scope.
pub proof fn lemma_proceed_keeps_balance(state: WorkerView)
    requires
        balanced(state),
    ensures
        keeps_balance(proceed(state)),
        proceed(state).state.base == state.base,
        proceed(state).result != Err::<ActionView, crate::error::ErrorView>(no_scope()) || !(
        state.frames.len() > 0 && holds_scope(state.frames.last())),
{
    if state.frames.len() > 0 {
        let rest = state.released();
        match state.frames.last() {
            FrameView::Again { line_number, condition, body } => {
                lemma_scopes_held_with(
                    rest.frames,
                    FrameView::Repeat { line_number, condition, body },
                );
            },
            FrameView::Sequence { statements, next } => {
                lemma_scopes_held_with(
                    rest.frames,
                    FrameView::Sequence { statements, next: next + 1 },
                );
            },
            _ => {},
        }
    }
}

/// The first step of an expression keeps the balance.
pub proof fn lemma_eval_keeps_balance(state: WorkerView, expr: crate::ast::expr::ExprView)
    requires
        balanced(state),
    ensures
        keeps_balance(eval(state, expr)),
        eval(state, expr).state.base == state.base,
{
    match expr {
        crate::ast::expr::ExprView::Assign { name, value } => {
            lemma_scopes_held_with(state.frames, FrameView::Assign { name });
        },
        crate::ast::expr::ExprView::Binary { left, operator, right } => {
            lemma_scopes_held_with(state.frames, FrameView::Left { operator, right: *right });
        },
        crate::ast::expr::ExprView::Unary { operator, right } => {
            lemma_scopes_held_with(state.frames, FrameView::Operand { operator });
        },
        crate::ast::expr::ExprView::Call { callee, paren, arguments } => {
            lemma_scopes_held_with(state.frames, FrameView::Callee { paren, arguments });
        },
        _ => {},
    }
}

/// The first step of a statement keeps the balance.
pub proof fn lemma_execute_keeps_balance(state: WorkerView, stmt: StmtView)
    requires
        balanced(state),
    ensures
        keeps_balance(execute(state, stmt)),
        execute(state, stmt).state.base == state.base,
{
    match stmt {
        StmtView::Var { name, initializer } => {
            lemma_scopes_held_with(state.frames, FrameView::Define { name });
        },
        StmtView::Block { statements } => {
            lemma_scopes_held_with(state.frames, FrameView::Scope);
            lemma_scopes_held_with(
                state.frames.push(FrameView::Scope),
                FrameView::Sequence { statements, next: 0 },
            );
        },
        StmtView::If { line_number, condition, then_block, else_block } => {
            lemma_scopes_held_with(
                state.frames,
                FrameView::Branch {
                    line_number,
                    then_block: *then_block,
                    else_block: *else_block,
                },
            );
        },
        StmtView::While { line_number, condition, body } => {
            lemma_scopes_held_with(
                state.frames,
                FrameView::Repeat { line_number, condition, body: *body },
            );
        },
        StmtView::Expression { expression } => {
            lemma_scopes_held_with(state.frames, FrameView::Discard);
        },
        StmtView::Print { expression } => {
            lemma_scopes_held_with(state.frames, FrameView::Print);
        },
        _ => {},
    }
}

/// A worker that is set to run statements is balanced.
pub proof fn lemma_started_is_balanced(stack: Seq<Scope>, statements: Seq<StmtView>)
    requires
        stack.len() > 0,
    ensures
        balanced(started(stack, statements)),
{
    let frames = seq![FrameView::Sequence { statements, next: 0 }];
    assert(frames.drop_last() =~= Seq::<FrameView>::empty());
    assert(scopes_held(frames.drop_last()) == 0);
}

/// Every step keeps the balance, whatever the host answers: each scope that a block
/// or a call opens is closed when the block or the call ends, and all of them are
/// closed when the run is given up. So a run that was started over some scopes ends
/// over as many, whether it finishes or fails.
pub proof fn lemma_step_keeps_balance(state: WorkerView, reply: ReplyView)
    requires
        balanced(state),
    ensures
        balanced(step(state, reply).0),
        step(state, reply).0.base == state.base,
        step(state, reply).1 is Failed ==> step(state, reply).0.stack.len() == state.base + 1,
        step(state, reply).1 is Finished && state.focus is Done ==> step(
            state,
            reply,
        ).0.stack.len() == state.base + 1,
{
    let rest = state.at(FocusView::Idle);
    assert(balanced(rest));
    match state.focus {
        FocusView::Expr(expr) => lemma_eval_keeps_balance(rest, expr),
        FocusView::Stmt(stmt) => lemma_execute_keeps_balance(rest, stmt),
        FocusView::Value(value) => lemma_deliver_keeps_balance(rest, value),
        FocusView::Done => lemma_proceed_keeps_balance(rest),
        _ => {},
    }
    assert(scopes_held(Seq::<FrameView>::empty()) == 0);
}

/// The sum of a number and a product, as `a + b * c` is read.
pub open spec fn sum_with_product(
    a: TokenView,
    plus: TokenView,
    b: TokenView,
    star: TokenView,
    c: TokenView,
) -> crate::ast::expr::ExprView {
    crate::ast::expr::ExprView::Binary {
        left: Box::new(crate::ast::expr::ExprView::Literal { value: a }),
        operator: plus,
        right: Box::new(
            crate::ast::expr::ExprView::Binary {
                left: Box::new(crate::ast::expr::ExprView::Literal { value: b }),
                operator: star,
                right: Box::new(crate::ast::expr::ExprView::Literal { value: c }),
            },
        ),
    }
}

/// In `a + b * c` the product is computed before the sum, and the sum is that of `a`
/// and the product: the worker has the three numbers read from left to right, asks
/// for the product of the second and the third, then for the sum of the first and
/// that product, and the answer to that is the value of the whole. This holds
/// whatever numbers the host answers.
pub proof fn lemma_product_is_computed_before_sum(
    state: WorkerView,
    a: TokenView,
    plus: TokenView,
    b: TokenView,
    star: TokenView,
    c: TokenView,
    first: u64,
    second: u64,
    third: u64,
    product: u64,
    sum: u64,
)
    requires
        a.kind is NumberLiteral,
        b.kind is NumberLiteral,
        c.kind is NumberLiteral,
        plus.kind is Plus,
        star.kind is Star,
        state.focus == FocusView::Expr(sum_with_product(a, plus, b, star, c)),
    ensures
        ({
            let (s1, a1) = advance(state, ReplyView::Nothing, 8);
            let (s2, a2) = advance(s1, ReplyView::Number(first), 8);
            let (s3, a3) = advance(s2, ReplyView::Number(second), 8);
            let (s4, a4) = advance(s3, ReplyView::Number(third), 8);
            let (s5, a5) = advance(s4, ReplyView::Number(product), 8);
            let (s6, a6) = step(s5, ReplyView::Number(sum));
            &&& a1 == ActionView::Parse(a.kind.text())
            &&& a2 == ActionView::Parse(b.kind.text())
            &&& a3 == ActionView::Parse(c.kind.text())
            &&& a4 == ActionView::Calculate(Operation::Multiply, second, third)
            &&& a5 == ActionView::Calculate(Operation::Add, first, product)
            &&& a6 == ActionView::Continue
            &&& s6 == state.at(FocusView::Value(InstanceView::Number(sum)))
        }),
{
    reveal_with_fuel(advance, 6);
    let frames = state.frames;
    let product_expr = crate::ast::expr::ExprView::Binary {
        left: Box::new(crate::ast::expr::ExprView::Literal { value: b }),
        operator: star,
        right: Box::new(crate::ast::expr::ExprView::Literal { value: c }),
    };
    let left_sum = FrameView::Left { operator: plus, right: product_expr };
    let right_sum = FrameView::Right { operator: plus, left: InstanceView::Number(first) };
    let left_product = FrameView::Left {
        operator: star,
        right: crate::ast::expr::ExprView::Literal { value: c },
    };
    let right_product = FrameView::Right { operator: star, left: InstanceView::Number(second) };
    assert(frames.push(left_sum).drop_last() =~= frames);
    assert(frames.push(right_sum).drop_last() =~= frames);
    assert(frames.push(right_sum).push(left_product).drop_last() =~= frames.push(right_sum));
    assert(frames.push(right_sum).push(right_product).drop_last() =~= frames.push(right_sum));

    let (t1, _) = step(state, ReplyView::Nothing);
    assert(t1 == state.holding(left_sum).at(
        FocusView::Expr(crate::ast::expr::ExprView::Literal { value: a }),
    ));
    let (s1, a1) = step(t1, ReplyView::Nothing);
    assert(a1 == ActionView::Parse(a.kind.text()));
    assert(advance(state, ReplyView::Nothing, 8) == (s1, a1));

    let (t2, _) = step(s1, ReplyView::Number(first));
    assert(t2 == state.holding(left_sum).at(FocusView::Value(InstanceView::Number(first))));
    let (t3, _) = step(t2, ReplyView::Nothing);
    assert(t3 == state.holding(right_sum).at(FocusView::Expr(product_expr)));
    let (t4, _) = step(t3, ReplyView::Nothing);
    assert(t4 == state.holding(right_sum).holding(left_product).at(
        FocusView::Expr(crate::ast::expr::ExprView::Literal { value: b }),
    ));
    let (s2, a2) = step(t4, ReplyView::Nothing);
    assert(a2 == ActionView::Parse(b.kind.text()));
    assert(advance(s1, ReplyView::Number(first), 8) == (s2, a2));

    let (t5, _) = step(s2, ReplyView::Number(second));
    assert(t5 == state.holding(right_sum).holding(left_product).at(
        FocusView::Value(InstanceView::Number(second)),
    ));
    let (t6, _) = step(t5, ReplyView::Nothing);
    assert(t6 == state.holding(right_sum).holding(right_product).at(
        FocusView::Expr(crate::ast::expr::ExprView::Literal { value: c }),
    ));
    let (s3, a3) = step(t6, ReplyView::Nothing);
    assert(a3 == ActionView::Parse(c.kind.text()));
    assert(advance(s2, ReplyView::Number(second), 8) == (s3, a3));

    let (t7, _) = step(s3, ReplyView::Number(third));
    assert(t7 == state.holding(right_sum).holding(right_product).at(
        FocusView::Value(InstanceView::Number(third)),
    ));
    let (s4, a4) = step(t7, ReplyView::Nothing);
    assert(a4 == ActionView::Calculate(Operation::Multiply, second, third));
    assert(advance(s3, ReplyView::Number(third), 8) == (s4, a4));

    let (t8, _) = step(s4, ReplyView::Number(product));
    assert(t8 == state.holding(right_sum).at(FocusView::Value(InstanceView::Number(product))));
    let (s5, a5) = step(t8, ReplyView::Nothing);
    assert(a5 == ActionView::Calculate(Operation::Add, first, product));
    assert(advance(s4, ReplyView::Number(product), 8) == (s5, a5));
}

/// In `(a + b) * c` the sum is computed before the product: the parentheses decide,
/// not the order of the operators.
pub proof fn lemma_grouped_sum_is_computed_before_product(
    state: WorkerView,
    a: TokenView,
    plus: TokenView,
    b: TokenView,
    star: TokenView,
    c: TokenView,
    first: u64,
    second: u64,
    third: u64,
    sum: u64,
    product: u64,
)
    requires
        a.kind is NumberLiteral,
        b.kind is NumberLiteral,
        c.kind is NumberLiteral,
        plus.kind is Plus,
        star.kind is Star,
        state.focus == FocusView::Expr(
            crate::ast::expr::ExprView::Binary {
                left: Box::new(
                    crate::ast::expr::ExprView::Grouping {
                        expression: Box::new(
                            crate::ast::expr::ExprView::Binary {
                                left: Box::new(crate::ast::expr::ExprView::Literal { value: a }),
                                operator: plus,
                                right: Box::new(crate::ast::expr::ExprView::Literal { value: b }),
                            },
                        ),
                    },
                ),
                operator: star,
                right: Box::new(crate::ast::expr::ExprView::Literal { value: c }),
            },
        ),
    ensures
        ({
            let (s1, a1) = advance(state, ReplyView::Nothing, 8);
            let (s2, a2) = advance(s1, ReplyView::Number(first), 8);
            let (s3, a3) = advance(s2, ReplyView::Number(second), 8);
            let (s4, a4) = advance(s3, ReplyView::Number(sum), 8);
            let (s5, a5) = advance(s4, ReplyView::Number(third), 8);
            let (s6, a6) = step(s5, ReplyView::Number(product));
            &&& a1 == ActionView::Parse(a.kind.text())
            &&& a2 == ActionView::Parse(b.kind.text())
            &&& a3 == ActionView::Calculate(Operation::Add, first, second)
            &&& a4 == ActionView::Parse(c.kind.text())
            &&& a5 == ActionView::Calculate(Operation::Multiply, sum, third)
            &&& a6 == ActionView::Continue
            &&& s6 == state.at(FocusView::Value(InstanceView::Number(product)))
        }),
{
    reveal_with_fuel(advance, 6);
    let frames = state.frames;
    let lit_a = crate::ast::expr::ExprView::Literal { value: a };
    let lit_b = crate::ast::expr::ExprView::Literal { value: b };
    let lit_c = crate::ast::expr::ExprView::Literal { value: c };
    let sum_expr = crate::ast::expr::ExprView::Binary {
        left: Box::new(lit_a),
        operator: plus,
        right: Box::new(lit_b),
    };
    let grouped = crate::ast::expr::ExprView::Grouping { expression: Box::new(sum_expr) };
    let left_product = FrameView::Left { operator: star, right: lit_c };
    let right_product = FrameView::Right { operator: star, left: InstanceView::Number(sum) };
    let left_sum = FrameView::Left { operator: plus, right: lit_b };
    let right_sum = FrameView::Right { operator: plus, left: InstanceView::Number(first) };
    assert(frames.push(left_product).drop_last() =~= frames);
    assert(frames.push(right_product).drop_last() =~= frames);
    assert(frames.push(left_product).push(left_sum).drop_last() =~= frames.push(left_product));
    assert(frames.push(left_product).push(right_sum).drop_last() =~= frames.push(left_product));

    let (t1, _) = step(state, ReplyView::Nothing);
    assert(t1 == state.holding(left_product).at(FocusView::Expr(grouped)));
    let (t2, _) = step(t1, ReplyView::Nothing);
    assert(t2 == state.holding(left_product).at(FocusView::Expr(sum_expr)));
    let (t3, _) = step(t2, ReplyView::Nothing);
    assert(t3 == state.holding(left_product).holding(left_sum).at(FocusView::Expr(lit_a)));
    let (s1, a1) = step(t3, ReplyView::Nothing);
    assert(a1 == ActionView::Parse(a.kind.text()));
    assert(advance(state, ReplyView::Nothing, 8) == (s1, a1));

    let (t4, _) = step(s1, ReplyView::Number(first));
    assert(t4 == state.holding(left_product).holding(left_sum).at(
        FocusView::Value(InstanceView::Number(first)),
    ));
    let (t5, _) = step(t4, ReplyView::Nothing);
    assert(t5 == state.holding(left_product).holding(right_sum).at(FocusView::Expr(lit_b)));
    let (s2, a2) = step(t5, ReplyView::Nothing);
    assert(a2 == ActionView::Parse(b.kind.text()));
    assert(advance(s1, ReplyView::Number(first), 8) == (s2, a2));

    let (t6, _) = step(s2, ReplyView::Number(second));
    assert(t6 == state.holding(left_product).holding(right_sum).at(
        FocusView::Value(InstanceView::Number(second)),
    ));
    let (s3, a3) = step(t6, ReplyView::Nothing);
    assert(a3 == ActionView::Calculate(Operation::Add, first, second));
    assert(advance(s2, ReplyView::Number(second), 8) == (s3, a3));

    let (t7, _) = step(s3, ReplyView::Number(sum));
    assert(t7 == state.holding(left_product).at(FocusView::Value(InstanceView::Number(sum))));
    let (t8, _) = step(t7, ReplyView::Nothing);
    assert(t8 == state.holding(right_product).at(FocusView::Expr(lit_c)));
    let (s4, a4) = step(t8, ReplyView::Nothing);
    assert(a4 == ActionView::Parse(c.kind.text()));
    assert(advance(s3, ReplyView::Number(sum), 8) == (s4, a4));

    let (t9, _) = step(s4, ReplyView::Number(third));
    assert(t9 == state.holding(right_product).at(FocusView::Value(InstanceView::Number(third))));
    let (s5, a5) = step(t9, ReplyView::Nothing);
    assert(a5 == ActionView::Calculate(Operation::Multiply, sum, third));
    assert(advance(s4, ReplyView::Number(third), 8) == (s5, a5));
}

/// Whether a frame waits for a value; if not, it waits for the end of a statement.
pub open spec fn wants_value(frame: FrameView) -> bool {
    !(frame is Again || frame is Sequence || frame is Scope || frame is Return)
}

/// Whether a frame, when it is done, hands a value to the frame below it; if not, it
/// hands it the end of a statement.
pub open spec fn gives_value(frame: FrameView) -> bool {
    frame is Assign || frame is Left || frame is Right || frame is Second || frame is Operand
        || frame is Callee || frame is Argument || frame is Return
}

/// Whether what the worker is at comes to a value; if not, it comes to the end of a
/// statement.
pub open spec fn brings_value(focus: FocusView) -> bool {
    match focus {
        FocusView::Expr(_) => true,
        FocusView::Value(_) => true,
        FocusView::Waiting(pending) => !(pending is Print),
        _ => false,
    }
}

/// Whether a value is what the frames wait for on top. With no frame, the end of a
/// statement is waited for: the end of the run.
pub open spec fn value_awaited(frames: Seq<FrameView>) -> bool {
    frames.len() > 0 && wants_value(frames.last())
}

/// Each frame hands to the frame below it what that frame waits for.
pub open spec fn chained(frames: Seq<FrameView>) -> bool
    decreases frames.len(),
{
    frames.len() == 0 || (chained(frames.drop_last()) && gives_value(frames.last())
        == value_awaited(frames.drop_last()))
}

/// The work of a worker fits together: the frames are chained, and what the worker is
/// at comes to what the frame on top waits for.
pub open spec fn fitting(state: WorkerView) -> bool {
    chained(state.frames) && (state.focus is Idle || brings_value(state.focus)
        == value_awaited(state.frames))
}

/// Whether the worker has lost track of its work: a value is there and nothing waits
/// for one, or a statement has ended and a value is waited for. These are the states
/// in which a step complains that the worker lost track.
pub open spec fn misfit(state: WorkerView) -> bool {
    match state.focus {
        FocusView::Value(_) => !value_awaited(state.frames),
        FocusView::Done => value_awaited(state.frames),
        _ => false,
    }
}

/// A frame more is chained where it hands on what was waited for.
pub proof fn lemma_chained_with(frames: Seq<FrameView>, frame: FrameView)
    ensures
        chained(frames.push(frame)) == (chained(frames) && gives_value(frame) == value_awaited(
            frames,
        )),
        value_awaited(frames.push(frame)) == wants_value(frame),
{
    assert(frames.push(frame).drop_last() =~= frames);
}

/// What a piece of work leaves fits together, where it goes on.
pub open spec fn keeps_fit(outcome: Outcome) -> bool {
    outcome.result is Ok ==> fitting(outcome.state)
}

/// A call fits where a value is waited for.
pub proof fn lemma_invoke_keeps_fit(
    state: WorkerView,
    callee: crate::function::callable::CallableView,
    arguments: Seq<InstanceView>,
)
    requires
        chained(state.frames),
        value_awaited(state.frames),
    ensures
        keeps_fit(invoke(state, callee, arguments)),
{
    lemma_chained_with(state.frames, FrameView::Return);
}

/// A value that goes to the frame on top leaves work that fits together.
pub proof fn lemma_deliver_keeps_fit(state: WorkerView, value: InstanceView)
    requires
        chained(state.frames),
        value_awaited(state.frames),
    ensures
        keeps_fit(deliver(state, value)),
{
    let rest = state.released();
    let frame = state.frames.last();
    match frame {
        FrameView::Left { operator, right } => {
            lemma_chained_with(rest.frames, FrameView::Second { operator });
            lemma_chained_with(rest.frames, FrameView::Right { operator, left: value });
        },
        FrameView::Callee { paren, arguments } => {
            match value {
                InstanceView::Function(callee) => {
                    lemma_invoke_keeps_fit(rest, callee, Seq::empty());
                    lemma_chained_with(
                        rest.frames,
                        FrameView::Argument {
                            paren,
                            callee,
                            done: Seq::empty(),
                            rest: arguments.drop_first(),
                        },
                    );
                },
                _ => {},
            }
        },
        FrameView::Argument { paren, callee, done, rest: others } => {
            lemma_invoke_keeps_fit(rest, callee, done.push(value));
            lemma_chained_with(
                rest.frames,
                FrameView::Argument {
                    paren,
                    callee,
                    done: done.push(value),
                    rest: others.drop_first(),
                },
            );
        },
        FrameView::Repeat { line_number, condition, body } => {
            lemma_chained_with(rest.frames, FrameView::Again { line_number, condition, body });
        },
        _ => {},
    }
}

/// The end of a statement leaves work that fits together.
pub proof fn lemma_proceed_keeps_fit(state: WorkerView)
    requires
        chained(state.frames),
        !value_awaited(state.frames),
        state.focus is Idle,
    ensures
        keeps_fit(proceed(state)),
{
    if state.frames.len() > 0 {
        let rest = state.released();
        match state.frames.last() {
            FrameView::Again { line_number, condition, body } => {
                lemma_chained_with(
                    rest.frames,
                    FrameView::Repeat { line_number, condition, body },
                );
            },
            FrameView::Sequence { statements, next } => {
                lemma_chained_with(
                    rest.frames,
                    FrameView::Sequence { statements, next: next + 1 },
                );
            },
            _ => {},
        }
    }
}

/// The first step of an expression leaves work that fits together.
pub proof fn lemma_eval_keeps_fit(state: WorkerView, expr: crate::ast::expr::ExprView)
    requires
        chained(state.frames),
        value_awaited(state.frames),
    ensures
        keeps_fit(eval(state, expr)),
{
    match expr {
        crate::ast::expr::ExprView::Assign { name, value } => {
            lemma_chained_with(state.frames, FrameView::Assign { name });
        },
        crate::ast::expr::ExprView::Binary { left, operator, right } => {
            lemma_chained_with(state.frames, FrameView::Left { operator, right: *right });
        },
        crate::ast::expr::ExprView::Unary { operator, right } => {
            lemma_chained_with(state.frames, FrameView::Operand { operator });
        },
        crate::ast::expr::ExprView::Call { callee, paren, arguments } => {
            lemma_chained_with(state.frames, FrameView::Callee { paren, arguments });
        },
        _ => {},
    }
}

/// The first step of a statement leaves work that fits together.
pub proof fn lemma_execute_keeps_fit(state: WorkerView, stmt: StmtView)
    requires
        chained(state.frames),
        !value_awaited(state.frames),
    ensures
        keeps_fit(execute(state, stmt)),
{
    match stmt {
        StmtView::Var { name, initializer } => {
            lemma_chained_with(state.frames, FrameView::Define { name });
        },
        StmtView::Block { statements } => {
            lemma_chained_with(state.frames, FrameView::Scope);
            lemma_chained_with(
                state.frames.push(FrameView::Scope),
                FrameView::Sequence { statements, next: 0 },
            );
        },
        StmtView::If { line_number, condition, then_block, else_block } => {
            lemma_chained_with(
                state.frames,
                FrameView::Branch {
                    line_number,
                    then_block: *then_block,
                    else_block: *else_block,
                },
            );
        },
        StmtView::While { line_number, condition, body } => {
            lemma_chained_with(
                state.frames,
                FrameView::Repeat { line_number, condition, body: *body },
            );
        },
        StmtView::Expression { expression } => {
            lemma_chained_with(state.frames, FrameView::Discard);
        },
        StmtView::Print { expression } => {
            lemma_chained_with(state.frames, FrameView::Print);
        },
        _ => {},
    }
}

/// A worker that is set to run statements has work that fits together.
pub proof fn lemma_started_is_fitting(stack: Seq<Scope>, statements: Seq<StmtView>)
    ensures
        fitting(started(stack, statements)),
{
    lemma_chained_with(Seq::empty(), FrameView::Sequence { statements, next: 0 });
    assert(Seq::<FrameView>::empty().push(FrameView::Sequence { statements, next: 0 })
        =~= started(stack, statements).frames);
}

/// The work of a worker stays fitting from step to step, whatever the host answers,
/// and a worker whose work fits has not lost track of it: from a run that was started
/// with `run`, no step complains that the worker lost track of its work.
pub proof fn lemma_step_keeps_fit(state: WorkerView, reply: ReplyView)
    requires
        fitting(state),
    ensures
        !misfit(state),
        fitting(step(state, reply).0),
{
    let rest = state.at(FocusView::Idle);
    match state.focus {
        FocusView::Expr(expr) => lemma_eval_keeps_fit(rest, expr),
        FocusView::Stmt(stmt) => lemma_execute_keeps_fit(rest, stmt),
        FocusView::Value(value) => lemma_deliver_keeps_fit(rest, value),
        FocusView::Done => lemma_proceed_keeps_fit(rest),
        _ => {},
    }
}

/// A worker that has lost track of its work says so at its next step.
pub proof fn lemma_misfit_is_told(state: WorkerView, reply: ReplyView)
    requires
        misfit(state),
    ensures
        step(state, reply).1 == ActionView::Failed(crate::worker::rules::lost()),
{
}

/// Calling what is no function gives the run up, with a complaint about the line of
/// the parenthesis that the call holds; no argument is evaluated before.
pub proof fn lemma_calling_no_function_fails(state: WorkerView, reply: ReplyView)
    requires
        state.focus is Value,
        !(state.focus->Value_0 is Function),
        state.frames.len() > 0,
        state.frames.last() is Callee,
    ensures
        step(state, reply).1 == ActionView::Failed(
            crate::worker::rules::not_callable(
                state.frames.last()->Callee_paren,
                state.focus->Value_0,
            ),
        ),
        step(state, reply).1->Failed_0.line == state.frames.last()->Callee_paren.line,
{
}

} // verus!
