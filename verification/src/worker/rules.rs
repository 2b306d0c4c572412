use crate::ast::expr::ExprView;
use crate::ast::stmt::StmtView;
use crate::error::ErrorView;
use crate::function::callable::CallableView;
use crate::function::AulUserFunctionView;
use crate::scanner::token::{TokenKindView, TokenView};
use crate::stack::{assigned, defined, lookup, not_a_name, pushed, undefined, InstanceView, Scope};
use crate::worker::machine::{
    ActionView, FocusView, FrameView, Operation, PendingView, Relation, ReplyView,
};
use vstd::prelude::*;

verus! {

/// The complaint that an operator got one operand of the wrong kind.
pub open spec fn unary_error(operator: TokenView, expected: Seq<char>, value: InstanceView) -> ErrorView {
    ErrorView {
        line: operator.line,
        msg: operator.kind.debug() + " operator expected type '"@ + expected + "', found '"@
            + value.kind_name() + "' instead."@,
    }
}

/// The complaint that an operator got two operands of the wrong kinds.
pub open spec fn binary_error(
    operator: TokenView,
    expected: Seq<char>,
    left: InstanceView,
    right: InstanceView,
) -> ErrorView {
    ErrorView {
        line: operator.line,
        msg: operator.kind.debug() + " operator expected type '"@ + expected + "', found '"@
            + left.kind_name() + "' and '"@ + right.kind_name() + "' instead."@,
    }
}

/// The complaint that a token is no operator of the sort `sort`.
pub open spec fn operator_error(operator: TokenView, sort: Seq<char>) -> ErrorView {
    ErrorView {
        line: operator.line,
        msg: operator.kind.debug() + " operator is not a "@ + sort + " operator."@,
    }
}

/// The complaint that the condition of a `statement` is no truth value.
pub open spec fn condition_error(statement: Seq<char>, line: u32, value: InstanceView) -> ErrorView {
    ErrorView {
        line,
        msg: statement + " statement condition must be 'Bool', found '"@ + value.kind_name()
            + "' instead."@,
    }
}

/// The complaint that what is called is no function.
pub open spec fn not_callable(paren: TokenView, value: InstanceView) -> ErrorView {
    ErrorView {
        line: paren.line,
        msg: "Expected a function, found '"@ + value.kind_name() + "' instead"@,
    }
}

/// The complaint that the text of a number literal is no number, for `reason`.
pub open spec fn cannot_parse(token: TokenView, reason: Seq<char>) -> ErrorView {
    ErrorView {
        line: token.line,
        msg: "Cannot parse '"@ + token.kind.text() + "' into number ("@ + reason + ")."@,
    }
}

/// The complaint that a literal holds a token that spells no value.
pub open spec fn not_a_literal(token: TokenView) -> ErrorView {
    ErrorView { line: token.line, msg: "Found '"@ + token.kind.debug() + "' as a literal."@ }
}

/// The complaint that the host answered something that was not asked.
pub open spec fn wrong_answer() -> ErrorView {
    ErrorView { line: 0, msg: "The host gave an answer of the wrong kind."@ }
}

/// The complaint that what waits does not fit what was done.
pub open spec fn lost() -> ErrorView {
    ErrorView { line: 0, msg: "The worker lost track of its work."@ }
}

/// The complaint that scopes are nested deeper than can be counted.
pub open spec fn too_deep() -> ErrorView {
    ErrorView { line: 0, msg: "Too many nested scopes."@ }
}

/// The complaint that the global scope cannot be closed.
pub open spec fn no_scope() -> ErrorView {
    ErrorView { line: 0, msg: "Cannot pop global scope"@ }
}

/// The complaint that an expression without content was met.
pub open spec fn empty_expr() -> ErrorView {
    ErrorView { line: 0, msg: "Found empty Expr."@ }
}

/// Whether the text `a` comes before the text `b`, comparing from `from` on: at the
/// first place where they differ `a` has the smaller character, or `a` ends there and
/// `b` does not.
pub open spec fn text_less_from(a: Seq<char>, b: Seq<char>, from: int) -> bool
    decreases a.len() - from,
{
    if from >= b.len() {
        false
    } else if from >= a.len() {
        true
    } else if a[from] != b[from] {
        (a[from] as u32) < (b[from] as u32)
    } else {
        text_less_from(a, b, from + 1)
    }
}

/// Whether the text `a` comes before the text `b` in the order of the dictionary, by
/// the numbers of their characters.
pub open spec fn text_less(a: Seq<char>, b: Seq<char>) -> bool {
    text_less_from(a, b, 0)
}

/// `!` on a truth value.
pub open spec fn primitive_not(operator: TokenView, value: InstanceView) -> Result<InstanceView, ErrorView> {
    match value {
        InstanceView::Bool(truth) => Ok(InstanceView::Bool(!truth)),
        _ => Err(unary_error(operator, "Bool"@, value)),
    }
}

/// The number that the host answered.
pub open spec fn answered_number(reply: ReplyView) -> Result<InstanceView, ErrorView> {
    match reply {
        ReplyView::Number(bits) => Ok(InstanceView::Number(bits)),
        _ => Err(wrong_answer()),
    }
}

/// `-` on a number, which the host negates.
pub open spec fn primitive_neg(operator: TokenView, value: InstanceView, reply: ReplyView) -> Result<InstanceView, ErrorView> {
    match value {
        InstanceView::Number(_) => answered_number(reply),
        _ => Err(unary_error(operator, "Number"@, value)),
    }
}

/// `+` on two numbers, which the host adds, or on two texts, which are joined.
pub open spec fn primitive_add(
    operator: TokenView,
    left: InstanceView,
    right: InstanceView,
    reply: ReplyView,
) -> Result<InstanceView, ErrorView> {
    match left {
        InstanceView::Number(_) => match right {
            InstanceView::Number(_) => answered_number(reply),
            _ => Err(binary_error(operator, "Number"@, left, right)),
        },
        InstanceView::String(a) => match right {
            InstanceView::String(b) => Ok(InstanceView::String(a + b)),
            _ => Err(binary_error(operator, "String"@, left, right)),
        },
        _ => Err(binary_error(operator, "Number | String"@, left, right)),
    }
}

/// `-`, `*` or `/` on two numbers, which the host computes.
pub open spec fn primitive_numeric(
    operator: TokenView,
    left: InstanceView,
    right: InstanceView,
    reply: ReplyView,
) -> Result<InstanceView, ErrorView> {
    match (left, right) {
        (InstanceView::Number(_), InstanceView::Number(_)) => answered_number(reply),
        _ => Err(binary_error(operator, "Number"@, left, right)),
    }
}

/// Whether two values are equal. Values of different kinds are not; two numbers are
/// where the host says so; a function equals nothing.
pub open spec fn primitive_eq(left: InstanceView, right: InstanceView, reply: ReplyView) -> Result<InstanceView, ErrorView> {
    match (left, right) {
        (InstanceView::Number(_), InstanceView::Number(_)) => match reply {
            ReplyView::Relation(relation) => Ok(InstanceView::Bool(relation is Equal)),
            _ => Err(wrong_answer()),
        },
        (InstanceView::String(a), InstanceView::String(b)) => Ok(InstanceView::Bool(a == b)),
        (InstanceView::Bool(a), InstanceView::Bool(b)) => Ok(InstanceView::Bool(a == b)),
        (InstanceView::Nil, InstanceView::Nil) => Ok(InstanceView::Bool(true)),
        _ => Ok(InstanceView::Bool(false)),
    }
}

/// Whether the left value is less than the right: of two numbers as the host says, of
/// two texts in the order of the dictionary.
pub open spec fn primitive_less(
    operator: TokenView,
    left: InstanceView,
    right: InstanceView,
    reply: ReplyView,
) -> Result<InstanceView, ErrorView> {
    match left {
        InstanceView::Number(_) => match right {
            InstanceView::Number(_) => match reply {
                ReplyView::Relation(relation) => Ok(InstanceView::Bool(relation is Less)),
                _ => Err(wrong_answer()),
            },
            _ => Err(binary_error(operator, "Number"@, left, right)),
        },
        InstanceView::String(a) => match right {
            InstanceView::String(b) => Ok(InstanceView::Bool(text_less(a, b))),
            _ => Err(binary_error(operator, "String"@, left, right)),
        },
        _ => Err(binary_error(operator, "Number | String"@, left, right)),
    }
}

/// The opposite of a truth value that was computed.
pub open spec fn raw_not(value: Result<InstanceView, ErrorView>) -> Result<InstanceView, ErrorView> {
    match value {
        Ok(InstanceView::Bool(truth)) => Ok(InstanceView::Bool(!truth)),
        Ok(_) => Err(ErrorView { line: 0, msg: "raw_not was called on none Bool"@ }),
        Err(e) => Err(e),
    }
}

/// Whether one of two truth values that were computed holds.
pub open spec fn raw_or(
    first: Result<InstanceView, ErrorView>,
    second: Result<InstanceView, ErrorView>,
) -> Result<InstanceView, ErrorView> {
    match first {
        Ok(InstanceView::Bool(a)) => match second {
            Ok(InstanceView::Bool(b)) => Ok(InstanceView::Bool(a || b)),
            Ok(_) => Err(ErrorView { line: 0, msg: "raw_or was called on none Bool"@ }),
            Err(e) => Err(e),
        },
        Ok(_) => Err(ErrorView { line: 0, msg: "raw_or was called on none Bool"@ }),
        Err(e) => Err(e),
    }
}

/// What an operator with two operands makes of their values; `reply` is the host's
/// answer where `asks_binary` had one asked.
pub open spec fn binary(
    operator: TokenView,
    left: InstanceView,
    right: InstanceView,
    reply: ReplyView,
) -> Result<InstanceView, ErrorView> {
    let less = primitive_less(operator, left, right, reply);
    let equal = primitive_eq(left, right, reply);
    match operator.kind {
        TokenKindView::Plus => primitive_add(operator, left, right, reply),
        TokenKindView::Minus => primitive_numeric(operator, left, right, reply),
        TokenKindView::Star => primitive_numeric(operator, left, right, reply),
        TokenKindView::Slash => primitive_numeric(operator, left, right, reply),
        TokenKindView::EqualEqual => equal,
        TokenKindView::BangEqual => raw_not(equal),
        TokenKindView::Less => less,
        TokenKindView::Greater => raw_not(raw_or(less, equal)),
        TokenKindView::LessEqual => raw_or(less, equal),
        TokenKindView::GreaterEqual => raw_not(less),
        _ => Err(operator_error(operator, "binary"@)),
    }
}

/// What an operator with two operands asks of the host before `binary`: something
/// where both are numbers, nothing else.
pub open spec fn asks_binary(operator: TokenView, left: InstanceView, right: InstanceView) -> Option<ActionView> {
    match (left, right) {
        (InstanceView::Number(a), InstanceView::Number(b)) => match operator.kind {
            TokenKindView::Plus => Some(ActionView::Calculate(Operation::Add, a, b)),
            TokenKindView::Minus => Some(ActionView::Calculate(Operation::Subtract, a, b)),
            TokenKindView::Star => Some(ActionView::Calculate(Operation::Multiply, a, b)),
            TokenKindView::Slash => Some(ActionView::Calculate(Operation::Divide, a, b)),
            TokenKindView::EqualEqual
            | TokenKindView::BangEqual
            | TokenKindView::Less
            | TokenKindView::Greater
            | TokenKindView::LessEqual
            | TokenKindView::GreaterEqual => Some(ActionView::Compare(a, b)),
            _ => None,
        },
        _ => None,
    }
}

/// What an operator with one operand makes of its value; `reply` is the host's answer
/// where `asks_unary` had one asked.
pub open spec fn unary(operator: TokenView, value: InstanceView, reply: ReplyView) -> Result<InstanceView, ErrorView> {
    match operator.kind {
        TokenKindView::Bang => primitive_not(operator, value),
        TokenKindView::Minus => primitive_neg(operator, value, reply),
        _ => Err(operator_error(operator, "unary"@)),
    }
}

/// What an operator with one operand asks of the host before `unary`.
pub open spec fn asks_unary(operator: TokenView, value: InstanceView) -> Option<ActionView> {
    match (operator.kind, value) {
        (TokenKindView::Minus, InstanceView::Number(bits)) => Some(ActionView::Negate(bits)),
        _ => None,
    }
}

/// The line that `print` writes for a value that is no number.
pub open spec fn rendered(value: InstanceView) -> Seq<char> {
    match value {
        InstanceView::String(text) => text,
        InstanceView::Bool(truth) => if truth {
            "true"@
        } else {
            "false"@
        },
        InstanceView::Function(_) => "function"@,
        _ => "nil"@,
    }
}

/// What a worker amounts to: the scopes, innermost first; the work that waits, the
/// latest last; what it is at; and the number of scopes around the innermost when the
/// run started.
pub struct WorkerView {
    pub stack: Seq<Scope>,
    pub frames: Seq<FrameView>,
    pub focus: FocusView,
    pub base: nat,
}

impl WorkerView {
    /// The same worker at `focus`.
    pub open spec fn at(self, focus: FocusView) -> WorkerView {
        WorkerView { stack: self.stack, frames: self.frames, focus, base: self.base }
    }

    /// The same worker with `frame` waiting on top of the rest.
    pub open spec fn holding(self, frame: FrameView) -> WorkerView {
        WorkerView {
            stack: self.stack,
            frames: self.frames.push(frame),
            focus: self.focus,
            base: self.base,
        }
    }

    /// The same worker without the frame that waits on top.
    pub open spec fn released(self) -> WorkerView {
        WorkerView {
            stack: self.stack,
            frames: self.frames.drop_last(),
            focus: self.focus,
            base: self.base,
        }
    }

    /// The same worker over the scopes `stack`.
    pub open spec fn over(self, stack: Seq<Scope>) -> WorkerView {
        WorkerView { stack, frames: self.frames, focus: self.focus, base: self.base }
    }
}

/// Where a piece of work leaves the worker, and what it hands out: an action, or the
/// complaint with which the run is given up.
pub struct Outcome {
    pub state: WorkerView,
    pub result: Result<ActionView, ErrorView>,
}

/// The worker goes on from `state` without asking anything.
pub open spec fn go(state: WorkerView) -> Outcome {
    Outcome { state, result: Ok(ActionView::Continue) }
}

/// The worker asks `action` of the host and waits in `state`.
pub open spec fn ask(state: WorkerView, action: ActionView) -> Outcome {
    Outcome { state, result: Ok(action) }
}

/// The run is given up in `state` with the complaint `e`.
pub open spec fn fail(state: WorkerView, e: ErrorView) -> Outcome {
    Outcome { state, result: Err(e) }
}

/// The worker goes on from `state` with the value computed, or gives up with the
/// complaint.
pub open spec fn give(state: WorkerView, value: Result<InstanceView, ErrorView>) -> Outcome {
    match value {
        Ok(value) => go(state.at(FocusView::Value(value))),
        Err(e) => fail(state, e),
    }
}

/// A literal: a text, a truth value and `nil` are values as they stand; a number is
/// read by the host.
pub open spec fn literal(state: WorkerView, token: TokenView) -> Outcome {
    match token.kind {
        TokenKindView::NumberLiteral(text) => ask(
            state.at(FocusView::Waiting(PendingView::Literal(token))),
            ActionView::Parse(text),
        ),
        TokenKindView::StringLiteral(text) => go(
            state.at(FocusView::Value(InstanceView::String(text))),
        ),
        TokenKindView::True => go(state.at(FocusView::Value(InstanceView::Bool(true)))),
        TokenKindView::False => go(state.at(FocusView::Value(InstanceView::Bool(false)))),
        TokenKindView::Nil => go(state.at(FocusView::Value(InstanceView::Nil))),
        _ => fail(state, not_a_literal(token)),
    }
}

/// A variable: the value that its name has in the scopes.
pub open spec fn variable(state: WorkerView, name: TokenView) -> Outcome {
    match name.kind {
        TokenKindView::Identifier(text) => match lookup(state.stack, text) {
            Some(value) => go(state.at(FocusView::Value(value))),
            None => fail(state, undefined(name)),
        },
        _ => fail(state, not_a_name(name)),
    }
}

/// The first step of the evaluation of `expr`: a part of it comes into focus and the
/// rest waits, or its value is there.
pub open spec fn eval(state: WorkerView, expr: ExprView) -> Outcome {
    match expr {
        ExprView::Assign { name, value } => go(
            state.holding(FrameView::Assign { name }).at(FocusView::Expr(*value)),
        ),
        ExprView::Binary { left, operator, right } => go(
            state.holding(FrameView::Left { operator, right: *right }).at(FocusView::Expr(*left)),
        ),
        ExprView::Grouping { expression } => go(state.at(FocusView::Expr(*expression))),
        ExprView::Literal { value } => literal(state, value),
        ExprView::Unary { operator, right } => go(
            state.holding(FrameView::Operand { operator }).at(FocusView::Expr(*right)),
        ),
        ExprView::Call { callee, paren, arguments } => go(
            state.holding(FrameView::Callee { paren, arguments }).at(FocusView::Expr(*callee)),
        ),
        ExprView::Variable { name } => variable(state, name),
        ExprView::Empty => fail(state, empty_expr()),
    }
}

/// The first step of the execution of a block: a new scope is opened, and the
/// statements wait to be executed in it, one after the other.
pub open spec fn enter_block(state: WorkerView, statements: Seq<StmtView>) -> Outcome {
    if state.stack.len() > usize::MAX {
        fail(state, too_deep())
    } else {
        go(
            state.over(pushed(state.stack)).holding(FrameView::Scope).holding(
                FrameView::Sequence { statements, next: 0 },
            ).at(FocusView::Done),
        )
    }
}

/// The declaration of a function: its name is bound to it in the innermost scope.
pub open spec fn declare(state: WorkerView, name: TokenView, params: Seq<TokenView>, body: StmtView) -> Outcome {
    match name.kind {
        TokenKindView::Identifier(text) => go(
            state.over(
                defined(
                    state.stack,
                    text,
                    InstanceView::Function(
                        CallableView::User(AulUserFunctionView { name, params, body }),
                    ),
                ),
            ).at(FocusView::Done),
        ),
        _ => fail(state, not_a_name(name)),
    }
}

/// The first step of the execution of `stmt`.
pub open spec fn execute(state: WorkerView, stmt: StmtView) -> Outcome {
    match stmt {
        StmtView::Var { name, initializer } => go(
            state.holding(FrameView::Define { name }).at(FocusView::Expr(initializer)),
        ),
        StmtView::Block { statements } => enter_block(state, statements),
        StmtView::If { line_number, condition, then_block, else_block } => go(
            state.holding(
                FrameView::Branch {
                    line_number,
                    then_block: *then_block,
                    else_block: *else_block,
                },
            ).at(FocusView::Expr(condition)),
        ),
        StmtView::While { line_number, condition, body } => go(
            state.holding(FrameView::Repeat { line_number, condition, body: *body }).at(
                FocusView::Expr(condition),
            ),
        ),
        StmtView::Function { name, params, body } => declare(state, name, params, *body),
        StmtView::Expression { expression } => go(
            state.holding(FrameView::Discard).at(FocusView::Expr(expression)),
        ),
        StmtView::Print { expression } => go(
            state.holding(FrameView::Print).at(FocusView::Expr(expression)),
        ),
        StmtView::Empty => go(state.at(FocusView::Done)),
    }
}

/// The scopes with the parameters from `from` on bound in the innermost: each to the
/// argument at its place, or to `nil` where there is none. A parameter that is no
/// name stops it, with the complaint.
pub open spec fn bound(
    scopes: Seq<Scope>,
    params: Seq<TokenView>,
    arguments: Seq<InstanceView>,
    from: nat,
) -> (Seq<Scope>, Option<ErrorView>)
    decreases params.len() - from,
{
    if from >= params.len() {
        (scopes, None)
    } else {
        let value = if from < arguments.len() {
            arguments[from as int]
        } else {
            InstanceView::Nil
        };
        match params[from as int].kind {
            TokenKindView::Identifier(text) => bound(
                defined(scopes, text, value),
                params,
                arguments,
                from + 1,
            ),
            _ => (scopes, Some(not_a_name(params[from as int]))),
        }
    }
}

/// A call. A function of the host is called by the host. For a function of the
/// program a scope is opened and the parameters are bound in it; the body comes into
/// focus, and the end of the call waits for its end.
pub open spec fn invoke(state: WorkerView, callee: CallableView, arguments: Seq<InstanceView>) -> Outcome {
    match callee {
        CallableView::Builtin(name) => ask(
            state.at(FocusView::Waiting(PendingView::Call)),
            ActionView::Call(name, arguments),
        ),
        CallableView::User(function) => {
            if state.stack.len() > usize::MAX {
                fail(state, too_deep())
            } else {
                let (scopes, complaint) = bound(
                    pushed(state.stack),
                    function.params,
                    arguments,
                    0,
                );
                match complaint {
                    Some(e) => fail(state.over(scopes), e),
                    None => go(
                        state.over(scopes).holding(FrameView::Return).at(
                            FocusView::Stmt(function.body),
                        ),
                    ),
                }
            }
        },
    }
}

/// The left operand of an operator with two operands is there. `and` and `or` want a
/// truth value, and are done where it decides; every other operator waits for its
/// right operand.
pub open spec fn left_operand(state: WorkerView, operator: TokenView, right: ExprView, value: InstanceView) -> Outcome {
    if operator.kind is Or || operator.kind is And {
        match value {
            InstanceView::Bool(truth) => {
                if truth == (operator.kind is Or) {
                    go(state.at(FocusView::Value(value)))
                } else {
                    go(state.holding(FrameView::Second { operator }).at(FocusView::Expr(right)))
                }
            },
            _ => fail(state, unary_error(operator, "Bool"@, value)),
        }
    } else {
        go(state.holding(FrameView::Right { operator, left: value }).at(FocusView::Expr(right)))
    }
}

/// Both operands of an operator are there: the host is asked where it is needed, and
/// the value is computed where not.
pub open spec fn right_operand(state: WorkerView, operator: TokenView, left: InstanceView, right: InstanceView) -> Outcome {
    match asks_binary(operator, left, right) {
        Some(action) => ask(
            state.at(FocusView::Waiting(PendingView::Binary(operator, left, right))),
            action,
        ),
        None => give(state, binary(operator, left, right, ReplyView::Nothing)),
    }
}

/// The operand of an operator with one operand is there.
pub open spec fn operand(state: WorkerView, operator: TokenView, value: InstanceView) -> Outcome {
    match asks_unary(operator, value) {
        Some(action) => ask(
            state.at(FocusView::Waiting(PendingView::Unary(operator, value))),
            action,
        ),
        None => give(state, unary(operator, value, ReplyView::Nothing)),
    }
}

/// The arguments of a call from the first of `rest` on are evaluated one by one, and
/// the call is made when none is left.
pub open spec fn next_argument(
    state: WorkerView,
    paren: TokenView,
    callee: CallableView,
    done: Seq<InstanceView>,
    rest: Seq<ExprView>,
) -> Outcome {
    if rest.len() == 0 {
        invoke(state, callee, done)
    } else {
        go(
            state.holding(
                FrameView::Argument { paren, callee, done, rest: rest.drop_first() },
            ).at(FocusView::Expr(rest[0])),
        )
    }
}

/// What is called is there: it has to be a function.
pub open spec fn callee(state: WorkerView, paren: TokenView, arguments: Seq<ExprView>, value: InstanceView) -> Outcome {
    match value {
        InstanceView::Function(callee) => next_argument(
            state,
            paren,
            callee,
            Seq::empty(),
            arguments,
        ),
        _ => fail(state, not_callable(paren, value)),
    }
}

/// The value to assign is there: it takes the place of what the name had, and is the
/// value of the assignment.
pub open spec fn assign(state: WorkerView, name: TokenView, value: InstanceView) -> Outcome {
    match name.kind {
        TokenKindView::Identifier(text) => match lookup(state.stack, text) {
            Some(_) => go(
                state.over(assigned(state.stack, text, value)).at(FocusView::Value(value)),
            ),
            None => fail(state, undefined(name)),
        },
        _ => fail(state, not_a_name(name)),
    }
}

/// The first value of a variable is there: the name is bound to it in the innermost
/// scope.
pub open spec fn define(state: WorkerView, name: TokenView, value: InstanceView) -> Outcome {
    match name.kind {
        TokenKindView::Identifier(text) => go(
            state.over(defined(state.stack, text, value)).at(FocusView::Done),
        ),
        _ => fail(state, not_a_name(name)),
    }
}

/// The value to print is there: the host prints it.
pub open spec fn print(state: WorkerView, value: InstanceView) -> Outcome {
    let waiting = state.at(FocusView::Waiting(PendingView::Print));
    match value {
        InstanceView::Number(bits) => ask(waiting, ActionView::PrintNumber(bits)),
        _ => ask(waiting, ActionView::Print(rendered(value))),
    }
}

/// The condition of an `if` is there: it has to be a truth value, and picks the
/// branch.
pub open spec fn branch(
    state: WorkerView,
    line_number: u32,
    then_block: StmtView,
    else_block: StmtView,
    value: InstanceView,
) -> Outcome {
    match value {
        InstanceView::Bool(truth) => go(
            state.at(
                FocusView::Stmt(
                    if truth {
                        then_block
                    } else {
                        else_block
                    },
                ),
            ),
        ),
        _ => fail(state, condition_error("If"@, line_number, value)),
    }
}

/// The condition of a `while` is there: it has to be a truth value. Where it holds
/// the body is executed and the loop waits for its end; where not the loop is done.
pub open spec fn repeat(
    state: WorkerView,
    line_number: u32,
    condition: ExprView,
    body: StmtView,
    value: InstanceView,
) -> Outcome {
    match value {
        InstanceView::Bool(truth) => {
            if truth {
                go(
                    state.holding(FrameView::Again { line_number, condition, body }).at(
                        FocusView::Stmt(body),
                    ),
                )
            } else {
                go(state.at(FocusView::Done))
            }
        },
        _ => fail(state, condition_error("While"@, line_number, value)),
    }
}

/// A value is there: it goes to the frame that waits on top, which is taken off.
pub open spec fn deliver(state: WorkerView, value: InstanceView) -> Outcome {
    if state.frames.len() == 0 {
        fail(state, lost())
    } else {
        let rest = state.released();
        match state.frames.last() {
            FrameView::Assign { name } => assign(rest, name, value),
            FrameView::Left { operator, right } => left_operand(rest, operator, right, value),
            FrameView::Right { operator, left } => right_operand(rest, operator, left, value),
            FrameView::Second { operator } => match value {
                InstanceView::Bool(_) => go(rest.at(FocusView::Value(value))),
                _ => fail(rest, unary_error(operator, "Bool"@, value)),
            },
            FrameView::Operand { operator } => operand(rest, operator, value),
            FrameView::Callee { paren, arguments } => callee(rest, paren, arguments, value),
            FrameView::Argument { paren, callee, done, rest: others } => next_argument(
                rest,
                paren,
                callee,
                done.push(value),
                others,
            ),
            FrameView::Define { name } => define(rest, name, value),
            FrameView::Discard => go(rest.at(FocusView::Done)),
            FrameView::Print => print(rest, value),
            FrameView::Branch { line_number, then_block, else_block } => branch(
                rest,
                line_number,
                then_block,
                else_block,
                value,
            ),
            FrameView::Repeat { line_number, condition, body } => repeat(
                rest,
                line_number,
                condition,
                body,
                value,
            ),
            _ => fail(rest, lost()),
        }
    }
}

/// A scope is closed at the end of a block or of a call; `focus` is what follows.
pub open spec fn leave(state: WorkerView, focus: FocusView) -> Outcome {
    if state.stack.len() > 1 {
        go(state.over(state.stack.drop_first()).at(focus))
    } else {
        fail(state, no_scope())
    }
}

/// A statement has come to its end: the frame that waits on top goes on, and is
/// taken off unless it has more to do. With nothing waiting the run is finished.
pub open spec fn proceed(state: WorkerView) -> Outcome {
    if state.frames.len() == 0 {
        Outcome { state, result: Ok(ActionView::Finished) }
    } else {
        let rest = state.released();
        match state.frames.last() {
            FrameView::Again { line_number, condition, body } => go(
                rest.holding(FrameView::Repeat { line_number, condition, body }).at(
                    FocusView::Expr(condition),
                ),
            ),
            FrameView::Sequence { statements, next } => {
                if next < statements.len() {
                    go(
                        rest.holding(FrameView::Sequence { statements, next: next + 1 }).at(
                            FocusView::Stmt(statements[next as int]),
                        ),
                    )
                } else {
                    go(rest.at(FocusView::Done))
                }
            },
            FrameView::Scope => leave(rest, FocusView::Done),
            FrameView::Return => leave(rest, FocusView::Value(InstanceView::Nil)),
            _ => fail(rest, lost()),
        }
    }
}

/// The host's answer is there.
pub open spec fn receive(state: WorkerView, pending: PendingView, reply: ReplyView) -> Outcome {
    match pending {
        PendingView::Literal(token) => match reply {
            ReplyView::Number(bits) => go(state.at(FocusView::Value(InstanceView::Number(bits)))),
            ReplyView::Rejected(reason) => fail(state, cannot_parse(token, reason)),
            _ => fail(state, wrong_answer()),
        },
        PendingView::Unary(operator, value) => give(state, unary(operator, value, reply)),
        PendingView::Binary(operator, left, right) => give(
            state,
            binary(operator, left, right, reply),
        ),
        PendingView::Print => go(state.at(FocusView::Done)),
        PendingView::Call => match reply {
            ReplyView::Value(value) => go(state.at(FocusView::Value(value))),
            ReplyView::Failure(e) => fail(state, e),
            _ => fail(state, wrong_answer()),
        },
    }
}

/// The scopes that are left when a run that started with `base` scopes around the
/// innermost is given up: those that were opened since are closed.
pub open spec fn unwound(scopes: Seq<Scope>, base: nat) -> Seq<Scope> {
    if scopes.len() > base + 1 {
        scopes.skip(scopes.len() - base - 1)
    } else {
        scopes
    }
}

/// The worker at rest after a run was given up.
pub open spec fn given_up(state: WorkerView) -> WorkerView {
    WorkerView {
        stack: unwound(state.stack, state.base),
        frames: Seq::empty(),
        focus: FocusView::Idle,
        base: state.base,
    }
}

/// One step of a worker: what it was at is done, as far as it goes without the host,
/// and `reply` is taken for the host's answer where one was waited for. A complaint
/// gives the run up.
pub open spec fn step(state: WorkerView, reply: ReplyView) -> (WorkerView, ActionView) {
    let rest = state.at(FocusView::Idle);
    let outcome = match state.focus {
        FocusView::Idle => Outcome { state, result: Ok(ActionView::Finished) },
        FocusView::Expr(expr) => eval(rest, expr),
        FocusView::Stmt(stmt) => execute(rest, stmt),
        FocusView::Value(value) => deliver(rest, value),
        FocusView::Done => proceed(rest),
        FocusView::Waiting(pending) => receive(rest, pending, reply),
    };
    match outcome.result {
        Ok(action) => (outcome.state, action),
        Err(e) => (given_up(outcome.state), ActionView::Failed(e)),
    }
}

/// The worker set to run `statements` in the innermost scope of `stack`.
pub open spec fn started(stack: Seq<Scope>, statements: Seq<StmtView>) -> WorkerView {
    WorkerView {
        stack,
        frames: seq![FrameView::Sequence { statements, next: 0 }],
        focus: FocusView::Done,
        base: (stack.len() - 1) as nat,
    }
}

/// Steps of a worker up to the first that hands out something else than `Continue`,
/// or up to `limit` steps behind the first: `reply` goes to the first step, and
/// nothing to those that follow.
pub open spec fn advance(state: WorkerView, reply: ReplyView, limit: nat) -> (WorkerView, ActionView)
    decreases limit,
{
    let (next, action) = step(state, reply);
    if action is Continue && limit > 0 {
        advance(next, ReplyView::Nothing, (limit - 1) as nat)
    } else {
        (next, action)
    }
}

} // verus!
