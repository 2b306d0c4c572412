use crate::ast::expr::{expr_views, Expr, ExprView};
use crate::ast::stmt::{stmt_views, Stmt, StmtView};
use crate::error::{Error, ErrorView};
use crate::function::callable::{Callable, CallableView};
use crate::scanner::token::{Token, TokenView};
use crate::stack::{instance_views, Instance, InstanceView};
use vstd::prelude::*;

verus! {

/// How two numbers stand to each other.
#[derive(Debug, Clone, Copy, PartialEq, Eq, Structural)]
pub enum Relation {
    Less,
    Equal,
    Greater,
    /// Neither less, nor equal, nor greater: one of them is no number.
    Unordered,
}

/// The operations on two numbers that give a number.
#[derive(Debug, Clone, Copy, PartialEq, Eq, Structural)]
pub enum Operation {
    Add,
    Subtract,
    Multiply,
    Divide,
}

/// What the worker hands out after a step: how the run stands, or what the host is to
/// do before the next step.
#[derive(Debug, PartialEq, Eq)]
pub enum Action {
    /// There is more to do; nothing is asked of the host.
    Continue,
    /// The run has come to its end.
    Finished,
    /// The run was given up with this complaint.
    Failed(Error),
    /// Print this text as a line.
    Print(String),
    /// Print this number as a line.
    PrintNumber(u64),
    /// Read this text as a number, and reply with the number or with the reason why it
    /// is none.
    Parse(String),
    /// Reply with the number negated.
    Negate(u64),
    /// Reply with the result of the operation on the two numbers.
    Calculate(Operation, u64, u64),
    /// Reply with how the first number stands to the second.
    Compare(u64, u64),
    /// Call the host's function of this name with these arguments, and reply with its
    /// value or with its complaint.
    Call(String, Vec<Instance>),
}

/// The mathematical value of an [`Action`].
pub enum ActionView {
    Continue,
    Finished,
    Failed(ErrorView),
    Print(Seq<char>),
    PrintNumber(u64),
    Parse(Seq<char>),
    Negate(u64),
    Calculate(Operation, u64, u64),
    Compare(u64, u64),
    Call(Seq<char>, Seq<InstanceView>),
}

impl View for Action {
    type V = ActionView;

    open spec fn view(&self) -> ActionView {
        match self {
            Action::Continue => ActionView::Continue,
            Action::Finished => ActionView::Finished,
            Action::Failed(e) => ActionView::Failed(e@),
            Action::Print(text) => ActionView::Print(text@),
            Action::PrintNumber(bits) => ActionView::PrintNumber(*bits),
            Action::Parse(text) => ActionView::Parse(text@),
            Action::Negate(bits) => ActionView::Negate(*bits),
            Action::Calculate(operation, left, right) => ActionView::Calculate(
                *operation,
                *left,
                *right,
            ),
            Action::Compare(left, right) => ActionView::Compare(*left, *right),
            Action::Call(name, arguments) => ActionView::Call(name@, instance_views(arguments@)),
        }
    }
}

/// What the host hands in with a step: its answer to what the step before asked.
#[derive(Debug, PartialEq, Eq)]
pub enum Reply {
    /// Nothing was asked, or what was asked has no answer.
    Nothing,
    Number(u64),
    Relation(Relation),
    /// The text is no number, for this reason.
    Rejected(String),
    /// The value of a call.
    Value(Instance),
    /// The complaint of a call.
    Failure(Error),
}

/// The mathematical value of a [`Reply`].
pub enum ReplyView {
    Nothing,
    Number(u64),
    Relation(Relation),
    Rejected(Seq<char>),
    Value(InstanceView),
    Failure(ErrorView),
}

impl View for Reply {
    type V = ReplyView;

    open spec fn view(&self) -> ReplyView {
        match self {
            Reply::Nothing => ReplyView::Nothing,
            Reply::Number(bits) => ReplyView::Number(*bits),
            Reply::Relation(relation) => ReplyView::Relation(*relation),
            Reply::Rejected(reason) => ReplyView::Rejected(reason@),
            Reply::Value(value) => ReplyView::Value(value@),
            Reply::Failure(e) => ReplyView::Failure(e@),
        }
    }
}

/// What the worker asked of the host and has no answer to yet.
#[derive(Debug, PartialEq, Eq)]
pub enum Pending {
    /// The number that a literal spells.
    Literal(Token),
    /// The result of an operator on one number.
    Unary(Token, Instance),
    /// The result of an operator on two numbers.
    Binary(Token, Instance, Instance),
    /// A line to be printed.
    Print,
    /// A call of a function of the host.
    Call,
}

/// The mathematical value of a [`Pending`].
pub enum PendingView {
    Literal(TokenView),
    Unary(TokenView, InstanceView),
    Binary(TokenView, InstanceView, InstanceView),
    Print,
    Call,
}

impl View for Pending {
    type V = PendingView;

    open spec fn view(&self) -> PendingView {
        match self {
            Pending::Literal(token) => PendingView::Literal(token@),
            Pending::Unary(operator, value) => PendingView::Unary(operator@, value@),
            Pending::Binary(operator, left, right) => PendingView::Binary(
                operator@,
                left@,
                right@,
            ),
            Pending::Print => PendingView::Print,
            Pending::Call => PendingView::Call,
        }
    }
}

/// What the worker is at.
#[derive(Debug, PartialEq, Eq)]
pub enum Focus {
    /// Nothing: no run was started, or the last one has ended.
    Idle,
    /// An expression that is to be evaluated.
    Expr(Expr),
    /// A statement that is to be executed.
    Stmt(Stmt),
    /// The value of an expression, which goes to what waits for it.
    Value(Instance),
    /// The end of a statement, after which what waits for it goes on.
    Done,
    /// An answer of the host.
    Waiting(Pending),
}

/// The mathematical value of a [`Focus`].
pub enum FocusView {
    Idle,
    Expr(ExprView),
    Stmt(StmtView),
    Value(InstanceView),
    Done,
    Waiting(PendingView),
}

impl View for Focus {
    type V = FocusView;

    open spec fn view(&self) -> FocusView {
        match self {
            Focus::Idle => FocusView::Idle,
            Focus::Expr(expr) => FocusView::Expr(expr@),
            Focus::Stmt(stmt) => FocusView::Stmt(stmt@),
            Focus::Value(value) => FocusView::Value(value@),
            Focus::Done => FocusView::Done,
            Focus::Waiting(pending) => FocusView::Waiting(pending@),
        }
    }
}

/// Work that waits: for the value of the expression that is being evaluated, or for
/// the end of the statement that is being executed.
#[allow(inconsistent_fields)]
#[derive(Debug, PartialEq, Eq)]
pub enum Frame {
    /// An assignment waits for the value to assign.
    Assign { name: Token },
    /// An operator with two operands waits for its left operand.
    Left { operator: Token, right: Expr },
    /// An operator with two operands waits for its right operand.
    Right { operator: Token, left: Instance },
    /// `and` or `or` waits for its right operand, which is its value.
    Second { operator: Token },
    /// An operator with one operand waits for it.
    Operand { operator: Token },
    /// A call waits for what is called.
    Callee { paren: Token, arguments: Vec<Expr> },
    /// A call waits for an argument; `done` holds those before it, `rest` those behind.
    Argument { paren: Token, callee: Callable, done: Vec<Instance>, rest: Vec<Expr> },
    /// A variable waits for its first value.
    Define { name: Token },
    /// An expression statement waits for the value, which it drops.
    Discard,
    /// `print` waits for the value to print.
    Print,
    /// `if` waits for its condition.
    Branch { line_number: u32, then_block: Stmt, else_block: Stmt },
    /// `while` waits for its condition.
    Repeat { line_number: u32, condition: Expr, body: Stmt },
    /// `while` waits for the end of its body.
    Again { line_number: u32, condition: Expr, body: Stmt },
    /// A list of statements waits for the end of the one before `next`.
    Sequence { statements: Vec<Stmt>, next: usize },
    /// A block waits for the end of its statements, to close its scope.
    Scope,
    /// A call waits for the end of the function's body, to close the scope of the
    /// parameters.
    Return,
}

/// The mathematical value of a [`Frame`].
#[allow(inconsistent_fields)]
pub enum FrameView {
    Assign { name: TokenView },
    Left { operator: TokenView, right: ExprView },
    Right { operator: TokenView, left: InstanceView },
    Second { operator: TokenView },
    Operand { operator: TokenView },
    Callee { paren: TokenView, arguments: Seq<ExprView> },
    Argument {
        paren: TokenView,
        callee: CallableView,
        done: Seq<InstanceView>,
        rest: Seq<ExprView>,
    },
    Define { name: TokenView },
    Discard,
    Print,
    Branch { line_number: u32, then_block: StmtView, else_block: StmtView },
    Repeat { line_number: u32, condition: ExprView, body: StmtView },
    Again { line_number: u32, condition: ExprView, body: StmtView },
    Sequence { statements: Seq<StmtView>, next: nat },
    Scope,
    Return,
}

impl View for Frame {
    type V = FrameView;

    open spec fn view(&self) -> FrameView {
        match self {
            Frame::Assign { name } => FrameView::Assign { name: name@ },
            Frame::Left { operator, right } => FrameView::Left {
                operator: operator@,
                right: right@,
            },
            Frame::Right { operator, left } => FrameView::Right {
                operator: operator@,
                left: left@,
            },
            Frame::Second { operator } => FrameView::Second { operator: operator@ },
            Frame::Operand { operator } => FrameView::Operand { operator: operator@ },
            Frame::Callee { paren, arguments } => FrameView::Callee {
                paren: paren@,
                arguments: expr_views(arguments@),
            },
            Frame::Argument { paren, callee, done, rest } => FrameView::Argument {
                paren: paren@,
                callee: callee@,
                done: instance_views(done@),
                rest: expr_views(rest@),
            },
            Frame::Define { name } => FrameView::Define { name: name@ },
            Frame::Discard => FrameView::Discard,
            Frame::Print => FrameView::Print,
            Frame::Branch { line_number, then_block, else_block } => FrameView::Branch {
                line_number: *line_number,
                then_block: then_block@,
                else_block: else_block@,
            },
            Frame::Repeat { line_number, condition, body } => FrameView::Repeat {
                line_number: *line_number,
                condition: condition@,
                body: body@,
            },
            Frame::Again { line_number, condition, body } => FrameView::Again {
                line_number: *line_number,
                condition: condition@,
                body: body@,
            },
            Frame::Sequence { statements, next } => FrameView::Sequence {
                statements: stmt_views(statements@),
                next: *next as nat,
            },
            Frame::Scope => FrameView::Scope,
            Frame::Return => FrameView::Return,
        }
    }
}

/// The views of a sequence of frames, in order.
pub open spec fn frame_views(frames: Seq<Frame>) -> Seq<FrameView> {
    frames.map_values(|frame: Frame| frame@)
}

} // verus!
