use crate::ast::expr::ExprView;
use crate::ast::stmt::StmtView;
use crate::function::callable::CallableView;
use crate::scanner::token::{TokenKindView, TokenView};
use crate::stack::{assigned, defined, lookup, pushed, InstanceView, Scope};
use crate::worker::laws::{holds_scope, lemma_scopes_held_with, scopes_held};
use crate::worker::machine::{FocusView, FrameView, PendingView, ReplyView};
use crate::worker::rules::{
    bound, deliver, eval, execute, invoke, proceed, receive, step, Outcome, WorkerView,
};
use vstd::prelude::*;

verus! {

/// The scopes `scopes` with the scope at `depth` folded into the one around it: the
/// bindings of both, and those of the inner one where both bind a name.
pub open spec fn folded(scopes: Seq<Scope>, depth: int) -> Seq<Scope> {
    scopes.take(depth) + seq![scopes[depth + 1].union_prefer_right(scopes[depth])] + scopes.skip(
        depth + 2,
    )
}

/// A name reads the same whether or not a scope is folded into the one around it.
pub proof fn lemma_folded_lookup(scopes: Seq<Scope>, depth: int, name: Seq<char>)
    requires
        0 <= depth,
        depth + 2 <= scopes.len(),
    ensures
        lookup(folded(scopes, depth), name) == lookup(scopes, name),
    decreases depth,
{
    let flat = folded(scopes, depth);
    if depth == 0 {
        assert(flat.drop_first() =~= scopes.skip(2));
        assert(scopes.drop_first().drop_first() =~= scopes.skip(2));
        assert(scopes.drop_first()[0] == scopes[1]);
        assert(lookup(scopes.drop_first(), name) == if scopes[1].contains_key(name) {
            Some(scopes[1][name])
        } else {
            lookup(scopes.skip(2), name)
        });
    } else {
        assert(flat[0] == scopes[0]);
        assert(flat.drop_first() =~= folded(scopes.drop_first(), depth - 1));
        lemma_folded_lookup(scopes.drop_first(), depth - 1, name);
    }
}

/// Opening a scope and folding a scope further out can be done in either order.
pub proof fn lemma_folded_pushed(scopes: Seq<Scope>, depth: int)
    requires
        0 <= depth,
        depth + 2 <= scopes.len(),
    ensures
        pushed(folded(scopes, depth)) == folded(pushed(scopes), depth + 1),
{
    assert(pushed(folded(scopes, depth)) =~= folded(pushed(scopes), depth + 1));
}

/// Closing the innermost scope and folding a scope further out can be done in either
/// order.
pub proof fn lemma_folded_popped(scopes: Seq<Scope>, depth: int)
    requires
        1 <= depth,
        depth + 2 <= scopes.len(),
    ensures
        folded(scopes, depth).drop_first() == folded(scopes.drop_first(), depth - 1),
{
    assert(folded(scopes, depth).drop_first() =~= folded(scopes.drop_first(), depth - 1));
}

/// Binding a name in the innermost scope and folding a scope can be done in either
/// order.
pub proof fn lemma_folded_defined(
    scopes: Seq<Scope>,
    depth: int,
    name: Seq<char>,
    value: InstanceView,
)
    requires
        0 <= depth,
        depth + 2 <= scopes.len(),
    ensures
        defined(folded(scopes, depth), name, value) == folded(
            defined(scopes, name, value),
            depth,
        ),
{
    let left = defined(folded(scopes, depth), name, value);
    let right = folded(defined(scopes, name, value), depth);
    if depth == 0 {
        assert(left[0] =~= right[0]);
    }
    assert(left =~= right);
}

/// Assigning to a name and folding a scope can be done in either order.
pub proof fn lemma_folded_assigned(
    scopes: Seq<Scope>,
    depth: int,
    name: Seq<char>,
    value: InstanceView,
)
    requires
        0 <= depth,
        depth + 2 <= scopes.len(),
    ensures
        assigned(folded(scopes, depth), name, value) == folded(
            assigned(scopes, name, value),
            depth,
        ),
    decreases depth,
{
    let flat = folded(scopes, depth);
    crate::stack::lemma_assigned_reads(scopes, name, value);
    if depth == 0 {
        let inner = scopes[0];
        let outer = scopes[1];
        let rest = scopes.skip(2);
        assert(flat.drop_first() =~= rest);
        assert(scopes.drop_first().drop_first() =~= rest);
        assert(scopes.drop_first()[0] == outer);
        if inner.contains_key(name) {
            assert(flat.update(0, flat[0].insert(name, value))[0] =~= outer.union_prefer_right(
                inner.insert(name, value),
            ));
            assert(assigned(flat, name, value) =~= folded(assigned(scopes, name, value), 0));
        } else if outer.contains_key(name) {
            let below = assigned(scopes.drop_first(), name, value);
            assert(below =~= scopes.drop_first().update(0, outer.insert(name, value)));
            assert(assigned(scopes, name, value) =~= seq![inner] + below);
            assert(flat[0].insert(name, value) =~= outer.insert(name, value).union_prefer_right(
                inner,
            ));
            assert(assigned(flat, name, value) =~= folded(assigned(scopes, name, value), 0));
        } else {
            let below = assigned(scopes.drop_first(), name, value);
            let deeper = assigned(rest, name, value);
            crate::stack::lemma_assigned_reads(rest, name, value);
            crate::stack::lemma_assigned_reads(scopes.drop_first(), name, value);
            assert(below =~= seq![outer] + deeper);
            assert(assigned(scopes, name, value) =~= seq![inner] + below);
            assert(assigned(flat, name, value) =~= seq![flat[0]] + deeper);
            assert(assigned(flat, name, value) =~= folded(assigned(scopes, name, value), 0));
        }
    } else {
        assert(flat[0] == scopes[0]);
        assert(flat.drop_first() =~= folded(scopes.drop_first(), depth - 1));
        if scopes[0].contains_key(name) {
            assert(assigned(flat, name, value) =~= folded(assigned(scopes, name, value), depth));
        } else {
            lemma_folded_assigned(scopes.drop_first(), depth - 1, name, value);
            crate::stack::lemma_assigned_reads(scopes.drop_first(), name, value);
            let below = assigned(scopes.drop_first(), name, value);
            assert(assigned(scopes, name, value) =~= seq![scopes[0]] + below);
            assert(assigned(flat, name, value) =~= seq![scopes[0]] + folded(below, depth - 1));
            assert(assigned(flat, name, value) =~= folded(assigned(scopes, name, value), depth));
        }
    }
}

/// Binding parameters and folding a scope can be done in either order.
pub proof fn lemma_folded_bound(
    scopes: Seq<Scope>,
    depth: int,
    params: Seq<TokenView>,
    arguments: Seq<InstanceView>,
    from: nat,
)
    requires
        0 <= depth,
        depth + 2 <= scopes.len(),
    ensures
        bound(folded(scopes, depth), params, arguments, from).0 == folded(
            bound(scopes, params, arguments, from).0,
            depth,
        ),
        bound(folded(scopes, depth), params, arguments, from).1 == bound(
            scopes,
            params,
            arguments,
            from,
        ).1,
        bound(scopes, params, arguments, from).0.len() == scopes.len(),
    decreases params.len() - from,
{
    if from < params.len() {
        match params[from as int].kind {
            TokenKindView::Identifier(text) => {
                let value = if from < arguments.len() {
                    arguments[from as int]
                } else {
                    InstanceView::Nil
                };
                lemma_folded_defined(scopes, depth, text, value);
                lemma_folded_bound(
                    defined(scopes, text, value),
                    depth,
                    params,
                    arguments,
                    from + 1,
                );
            },
            _ => {},
        }
    }
}

/// Whether the worker `deep` does the same work as the worker `flat`, one scope
/// deeper: above `below_deep` frames of the one and `below_flat` frames of the other
/// the same frames wait, both are at the same, and the scopes of `flat` are those of
/// `deep` with one scope folded into the one around it: the scope that lies behind
/// those which the shared frames hold open.
pub open spec fn nested(deep: WorkerView, flat: WorkerView, below_deep: nat, below_flat: nat) -> bool {
    &&& below_deep <= deep.frames.len()
    &&& below_flat <= flat.frames.len()
    &&& deep.frames.skip(below_deep as int) == flat.frames.skip(below_flat as int)
    &&& deep.focus == flat.focus
    &&& deep.stack.len() >= scopes_held(deep.frames.skip(below_deep as int)) + 2
    &&& flat.stack == folded(deep.stack, scopes_held(deep.frames.skip(below_deep as int)) as int)
}

/// Two pieces of work agree: they hand out the same, and where they go on the one
/// worker still does the work of the other, one scope deeper.
pub open spec fn agree(deep: Outcome, flat: Outcome, below_deep: nat, below_flat: nat) -> bool {
    &&& deep.result == flat.result
    &&& deep.result is Ok ==> nested(deep.state, flat.state, below_deep, below_flat)
}

/// The shared frames with one frame more.
pub proof fn lemma_shared_with(
    deep: WorkerView,
    flat: WorkerView,
    below_deep: nat,
    below_flat: nat,
    frame: FrameView,
)
    requires
        below_deep <= deep.frames.len(),
        below_flat <= flat.frames.len(),
        deep.frames.skip(below_deep as int) == flat.frames.skip(below_flat as int),
    ensures
        deep.frames.push(frame).skip(below_deep as int) == deep.frames.skip(
            below_deep as int,
        ).push(frame),
        deep.frames.push(frame).skip(below_deep as int) == flat.frames.push(frame).skip(
            below_flat as int,
        ),
        scopes_held(deep.frames.push(frame).skip(below_deep as int)) == scopes_held(
            deep.frames.skip(below_deep as int),
        ) + if holds_scope(frame) {
            1nat
        } else {
            0nat
        },
{
    let shared = deep.frames.skip(below_deep as int);
    assert(deep.frames.push(frame).skip(below_deep as int) =~= shared.push(frame));
    assert(flat.frames.push(frame).skip(below_flat as int) =~= shared.push(frame));
    lemma_scopes_held_with(shared, frame);
}

/// The shared frames without the one on top.
pub proof fn lemma_shared_without(deep: WorkerView, flat: WorkerView, below_deep: nat, below_flat: nat)
    requires
        below_deep < deep.frames.len(),
        below_flat <= flat.frames.len(),
        deep.frames.skip(below_deep as int) == flat.frames.skip(below_flat as int),
    ensures
        below_flat < flat.frames.len(),
        deep.frames.last() == flat.frames.last(),
        deep.frames.drop_last().skip(below_deep as int) == deep.frames.skip(
            below_deep as int,
        ).drop_last(),
        deep.frames.drop_last().skip(below_deep as int) == flat.frames.drop_last().skip(
            below_flat as int,
        ),
        scopes_held(deep.frames.skip(below_deep as int)) == scopes_held(
            deep.frames.drop_last().skip(below_deep as int),
        ) + if holds_scope(deep.frames.last()) {
            1nat
        } else {
            0nat
        },
{
    let shared = deep.frames.skip(below_deep as int);
    assert(shared.len() == deep.frames.len() - below_deep);
    assert(shared.len() == flat.frames.len() - below_flat);
    assert(shared.last() == deep.frames.last());
    assert(shared.last() == flat.frames.last());
    assert(deep.frames.drop_last().skip(below_deep as int) =~= shared.drop_last());
    assert(flat.frames.drop_last().skip(below_flat as int) =~= shared.drop_last());
}

/// A call agrees.
pub proof fn lemma_invoke_nested(
    deep: WorkerView,
    flat: WorkerView,
    below_deep: nat,
    below_flat: nat,
    callee: CallableView,
    arguments: Seq<InstanceView>,
)
    requires
        nested(deep, flat, below_deep, below_flat),
        deep.stack.len() <= usize::MAX,
    ensures
        agree(
            invoke(deep, callee, arguments),
            invoke(flat, callee, arguments),
            below_deep,
            below_flat,
        ),
{
    let depth = scopes_held(deep.frames.skip(below_deep as int)) as int;
    match callee {
        CallableView::User(function) => {
            lemma_folded_pushed(deep.stack, depth);
            lemma_folded_bound(pushed(deep.stack), depth + 1, function.params, arguments, 0);
            lemma_shared_with(deep, flat, below_deep, below_flat, FrameView::Return);
        },
        _ => {},
    }
}

/// The first step of an expression agrees.
pub proof fn lemma_eval_nested(
    deep: WorkerView,
    flat: WorkerView,
    below_deep: nat,
    below_flat: nat,
    expr: ExprView,
)
    requires
        nested(deep, flat, below_deep, below_flat),
    ensures
        agree(eval(deep, expr), eval(flat, expr), below_deep, below_flat),
{
    let depth = scopes_held(deep.frames.skip(below_deep as int)) as int;
    match expr {
        ExprView::Assign { name, value } => {
            lemma_shared_with(deep, flat, below_deep, below_flat, FrameView::Assign { name });
        },
        ExprView::Binary { left, operator, right } => {
            lemma_shared_with(
                deep,
                flat,
                below_deep,
                below_flat,
                FrameView::Left { operator, right: *right },
            );
        },
        ExprView::Unary { operator, right } => {
            lemma_shared_with(deep, flat, below_deep, below_flat, FrameView::Operand { operator });
        },
        ExprView::Call { callee, paren, arguments } => {
            lemma_shared_with(
                deep,
                flat,
                below_deep,
                below_flat,
                FrameView::Callee { paren, arguments },
            );
        },
        ExprView::Variable { name } => {
            lemma_folded_lookup(deep.stack, depth, name.kind.text());
        },
        _ => {},
    }
}

/// The first step of a statement agrees.
pub proof fn lemma_execute_nested(
    deep: WorkerView,
    flat: WorkerView,
    below_deep: nat,
    below_flat: nat,
    stmt: StmtView,
)
    requires
        nested(deep, flat, below_deep, below_flat),
        deep.stack.len() <= usize::MAX,
    ensures
        agree(execute(deep, stmt), execute(flat, stmt), below_deep, below_flat),
{
    let depth = scopes_held(deep.frames.skip(below_deep as int)) as int;
    match stmt {
        StmtView::Var { name, initializer } => {
            lemma_shared_with(deep, flat, below_deep, below_flat, FrameView::Define { name });
        },
        StmtView::Block { statements } => {
            lemma_folded_pushed(deep.stack, depth);
            lemma_shared_with(deep, flat, below_deep, below_flat, FrameView::Scope);
            lemma_shared_with(
                deep.holding(FrameView::Scope),
                flat.holding(FrameView::Scope),
                below_deep,
                below_flat,
                FrameView::Sequence { statements, next: 0 },
            );
        },
        StmtView::If { line_number, condition, then_block, else_block } => {
            lemma_shared_with(
                deep,
                flat,
                below_deep,
                below_flat,
                FrameView::Branch {
                    line_number,
                    then_block: *then_block,
                    else_block: *else_block,
                },
            );
        },
        StmtView::While { line_number, condition, body } => {
            lemma_shared_with(
                deep,
                flat,
                below_deep,
                below_flat,
                FrameView::Repeat { line_number, condition, body: *body },
            );
        },
        StmtView::Function { name, params, body } => {
            lemma_folded_defined(
                deep.stack,
                depth,
                name.kind.text(),
                InstanceView::Function(
                    CallableView::User(
                        crate::function::AulUserFunctionView { name, params, body: *body },
                    ),
                ),
            );
        },
        StmtView::Expression { expression } => {
            lemma_shared_with(deep, flat, below_deep, below_flat, FrameView::Discard);
        },
        StmtView::Print { expression } => {
            lemma_shared_with(deep, flat, below_deep, below_flat, FrameView::Print);
        },
        _ => {},
    }
}

/// A value that goes to the frame on top agrees, where that frame is a shared one.
pub proof fn lemma_deliver_nested(
    deep: WorkerView,
    flat: WorkerView,
    below_deep: nat,
    below_flat: nat,
    value: InstanceView,
)
    requires
        nested(deep, flat, below_deep, below_flat),
        below_deep < deep.frames.len(),
        deep.stack.len() <= usize::MAX,
    ensures
        agree(deliver(deep, value), deliver(flat, value), below_deep, below_flat),
{
    lemma_shared_without(deep, flat, below_deep, below_flat);
    let frame = deep.frames.last();
    let deep_rest = deep.released();
    let flat_rest = flat.released();
    let depth = scopes_held(deep_rest.frames.skip(below_deep as int)) as int;
    if !holds_scope(frame) {
        assert(nested(deep_rest, flat_rest, below_deep, below_flat));
    }
    match frame {
        FrameView::Assign { name } => {
            lemma_folded_lookup(deep.stack, depth, name.kind.text());
            lemma_folded_assigned(deep.stack, depth, name.kind.text(), value);
            crate::stack::lemma_assigned_reads(deep.stack, name.kind.text(), value);
        },
        FrameView::Left { operator, right } => {
            lemma_shared_with(
                deep_rest,
                flat_rest,
                below_deep,
                below_flat,
                FrameView::Second { operator },
            );
            lemma_shared_with(
                deep_rest,
                flat_rest,
                below_deep,
                below_flat,
                FrameView::Right { operator, left: value },
            );
        },
        FrameView::Callee { paren, arguments } => {
            match value {
                InstanceView::Function(callee) => {
                    lemma_invoke_nested(
                        deep_rest,
                        flat_rest,
                        below_deep,
                        below_flat,
                        callee,
                        Seq::empty(),
                    );
                    lemma_shared_with(
                        deep_rest,
                        flat_rest,
                        below_deep,
                        below_flat,
                        FrameView::Argument {
                            paren,
                            callee,
                            done: Seq::empty(),
                            rest: arguments.drop_first(),
                        },
                    );
                },
                _ => {},
            }
        },
        FrameView::Argument { paren, callee, done, rest: others } => {
            lemma_invoke_nested(
                deep_rest,
                flat_rest,
                below_deep,
                below_flat,
                callee,
                done.push(value),
            );
            lemma_shared_with(
                deep_rest,
                flat_rest,
                below_deep,
                below_flat,
                FrameView::Argument {
                    paren,
                    callee,
                    done: done.push(value),
                    rest: others.drop_first(),
                },
            );
        },
        FrameView::Define { name } => {
            lemma_folded_defined(deep.stack, depth, name.kind.text(), value);
        },
        FrameView::Repeat { line_number, condition, body } => {
            lemma_shared_with(
                deep_rest,
                flat_rest,
                below_deep,
                below_flat,
                FrameView::Again { line_number, condition, body },
            );
        },
        _ => {},
    }
}

/// The end of a statement agrees, where the frame on top is a shared one.
pub proof fn lemma_proceed_nested(deep: WorkerView, flat: WorkerView, below_deep: nat, below_flat: nat)
    requires
        nested(deep, flat, below_deep, below_flat),
        below_deep < deep.frames.len(),
    ensures
        agree(proceed(deep), proceed(flat), below_deep, below_flat),
{
    lemma_shared_without(deep, flat, below_deep, below_flat);
    let frame = deep.frames.last();
    let deep_rest = deep.released();
    let flat_rest = flat.released();
    let depth = scopes_held(deep_rest.frames.skip(below_deep as int)) as int;
    match frame {
        FrameView::Again { line_number, condition, body } => {
            lemma_shared_with(
                deep_rest,
                flat_rest,
                below_deep,
                below_flat,
                FrameView::Repeat { line_number, condition, body },
            );
        },
        FrameView::Sequence { statements, next } => {
            lemma_shared_with(
                deep_rest,
                flat_rest,
                below_deep,
                below_flat,
                FrameView::Sequence { statements, next: next + 1 },
            );
        },
        FrameView::Scope => {
            lemma_folded_popped(deep.stack, depth + 1);
        },
        FrameView::Return => {
            lemma_folded_popped(deep.stack, depth + 1);
        },
        _ => {},
    }
}

/// Inside a scope of its own, a worker does what it does without that scope: two
/// workers of which the one does the work of the other one scope deeper hand out the
/// same at every step, whatever the host answers, and stay so, as long as the work
/// they share is not used up and the deeper one has room for a scope more. So a
/// statement prints the same inside a block as in the scope around the block, which
/// is why a `for` loop, which stands for a block, prints what the `while` loop prints
/// that it is made of.
pub proof fn lemma_step_of_nested(
    deep: WorkerView,
    flat: WorkerView,
    below_deep: nat,
    below_flat: nat,
    reply: ReplyView,
)
    requires
        nested(deep, flat, below_deep, below_flat),
        deep.focus is Value || deep.focus is Done ==> below_deep < deep.frames.len(),
        deep.stack.len() <= usize::MAX,
    ensures
        step(deep, reply).1 == step(flat, reply).1,
        !(step(deep, reply).1 is Failed) ==> nested(
            step(deep, reply).0,
            step(flat, reply).0,
            below_deep,
            below_flat,
        ),
{
    let deep_rest = deep.at(FocusView::Idle);
    let flat_rest = flat.at(FocusView::Idle);
    assert(nested(deep_rest, flat_rest, below_deep, below_flat));
    match deep.focus {
        FocusView::Expr(expr) => lemma_eval_nested(
            deep_rest,
            flat_rest,
            below_deep,
            below_flat,
            expr,
        ),
        FocusView::Stmt(stmt) => lemma_execute_nested(
            deep_rest,
            flat_rest,
            below_deep,
            below_flat,
            stmt,
        ),
        FocusView::Value(value) => lemma_deliver_nested(
            deep_rest,
            flat_rest,
            below_deep,
            below_flat,
            value,
        ),
        FocusView::Done => lemma_proceed_nested(deep_rest, flat_rest, below_deep, below_flat),
        _ => {},
    }
}

/// Whether the shared work of the deeper worker goes on: it is not used up, and there
/// is room for a scope more.
pub open spec fn goes_on(deep: WorkerView, below_deep: nat) -> bool {
    &&& deep.focus is Value || deep.focus is Done ==> below_deep < deep.frames.len()
    &&& deep.stack.len() <= usize::MAX
}

/// Whether two workers hand out the same, step by step, to the answers `replies` from
/// `from` on, for as long as the shared work of the deeper one goes on and the run is
/// not given up.
pub open spec fn agreeing(
    deep: WorkerView,
    flat: WorkerView,
    below_deep: nat,
    replies: Seq<ReplyView>,
    from: nat,
) -> bool
    decreases replies.len() - from,
{
    if from >= replies.len() || !goes_on(deep, below_deep) {
        true
    } else {
        let (deep_next, deep_action) = step(deep, replies[from as int]);
        let (flat_next, flat_action) = step(flat, replies[from as int]);
        deep_action == flat_action && (deep_action is Failed || agreeing(
            deep_next,
            flat_next,
            below_deep,
            replies,
            from + 1,
        ))
    }
}

/// Two workers of which the one does the work of the other one scope deeper hand out
/// the same actions, and so print the same, whatever the host answers and for however
/// many steps, as long as the work they share goes on.
pub proof fn lemma_nested_workers_agree(
    deep: WorkerView,
    flat: WorkerView,
    below_deep: nat,
    below_flat: nat,
    replies: Seq<ReplyView>,
    from: nat,
)
    requires
        nested(deep, flat, below_deep, below_flat),
    ensures
        agreeing(deep, flat, below_deep, replies, from),
    decreases replies.len() - from,
{
    if from < replies.len() && goes_on(deep, below_deep) {
        let reply = replies[from as int];
        lemma_step_of_nested(deep, flat, below_deep, below_flat, reply);
        if !(step(deep, reply).1 is Failed) {
            lemma_nested_workers_agree(
                step(deep, reply).0,
                step(flat, reply).0,
                below_deep,
                below_flat,
                replies,
                from + 1,
            );
        }
    }
}

/// A `for` loop prints what the loop prints that it is made of. The loop is a block
/// of its initializer and a `while`; a worker that has entered that block does the
/// work of a worker that runs the initializer and the `while` in the scope around
/// it, one scope deeper. So the two hand out the same actions for as long as the
/// loop goes on.
pub proof fn lemma_for_loop_agrees_with_its_while(
    deep: WorkerView,
    flat: WorkerView,
    line: u32,
    initializer: StmtView,
    condition: ExprView,
    increment: StmtView,
    body: StmtView,
    replies: Seq<ReplyView>,
)
    requires
        deep.focus == FocusView::Stmt(
            crate::parser::grammar::for_loop(line, initializer, condition, increment, body),
        ),
        0 < deep.stack.len() <= usize::MAX,
        flat.stack == deep.stack,
        flat.focus == FocusView::Done,
        flat.frames.len() > 0,
        flat.frames.last() == (FrameView::Sequence {
            statements: seq![
                initializer,
                StmtView::While {
                    line_number: line,
                    condition,
                    body: Box::new(StmtView::Block { statements: seq![body, increment] }),
                },
            ],
            next: 0,
        }),
    ensures
        step(deep, ReplyView::Nothing).1 == crate::worker::machine::ActionView::Continue,
        nested(
            step(deep, ReplyView::Nothing).0,
            flat,
            (deep.frames.len() + 1) as nat,
            (flat.frames.len() - 1) as nat,
        ),
        agreeing(
            step(deep, ReplyView::Nothing).0,
            flat,
            (deep.frames.len() + 1) as nat,
            replies,
            0,
        ),
{
    let entered = step(deep, ReplyView::Nothing).0;
    let below_deep = (deep.frames.len() + 1) as nat;
    let below_flat = (flat.frames.len() - 1) as nat;
    let shared = seq![flat.frames.last()];
    assert(entered.frames.skip(below_deep as int) =~= shared);
    assert(flat.frames.skip(below_flat as int) =~= shared);
    assert(shared.drop_last() =~= Seq::<FrameView>::empty());
    assert(scopes_held(shared.drop_last()) == 0);
    assert(scopes_held(shared) == 0);
    assert(entered.stack == pushed(deep.stack));
    assert(folded(entered.stack, 0)[0] =~= deep.stack[0]);
    assert(folded(entered.stack, 0) =~= deep.stack);
    lemma_nested_workers_agree(entered, flat, below_deep, below_flat, replies, 0);
}

} // verus!
