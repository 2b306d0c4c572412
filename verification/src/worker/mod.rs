pub mod laws;
pub mod machine;
pub mod nesting;
pub mod primitive;
pub mod rules;

use crate::ast::expr::{clone_exprs_from, expr_views, Expr, ExprView, ExprVisitor};
use crate::ast::stmt::{clone_stmts, stmt_views, Stmt, StmtView, StmtVisitor};
use crate::error::Error;
use crate::function::callable::Callable;
use crate::function::AulUserFunction;
use crate::scanner::token::{token_views, Token, TokenKind};
use crate::stack::{instance_views, Instance, InstanceView, Stack};
use crate::worker::machine::{frame_views, Action, Focus, Frame, Pending, Reply};
use crate::worker::rules::{Outcome, WorkerView};
use vstd::prelude::*;

verus! {

/// Runs statements over a chain of scopes, step by step. What a step cannot do by
/// itself it asks of the host: to print, to compute with numbers, and to call the
/// host's own functions.
pub struct Worker {
    pub stack: Stack,
    /// The work that waits, the latest last.
    pub frames: Vec<Frame>,
    /// What the worker is at.
    pub focus: Focus,
    /// How many scopes lay around the innermost when the run started.
    pub base: usize,
}

impl View for Worker {
    type V = WorkerView;

    open spec fn view(&self) -> WorkerView {
        WorkerView {
            stack: self.stack.scopes(),
            frames: frame_views(self.frames@),
            focus: self.focus@,
            base: self.base as nat,
        }
    }
}

/// The view of an action that a piece of work hands out, or of its complaint.
pub open spec fn action_view(result: Result<Action, Error>) -> Result<
    machine::ActionView,
    crate::error::ErrorView,
> {
    match result {
        Ok(action) => Ok(action@),
        Err(e) => Err(e@),
    }
}

impl Worker {
    /// The scopes are counted as they are nested.
    pub open spec fn wf(&self) -> bool {
        self.stack.wf()
    }

    /// `self` is where the piece of work `outcome` leaves the worker, and `result` is
    /// what it hands out. Behind a complaint only the scopes are told: the run is given
    /// up, and the rest is dropped.
    pub open spec fn lands(&self, result: Result<Action, Error>, outcome: Outcome) -> bool {
        &&& self.wf()
        &&& self.base == outcome.state.base
        &&& self.stack.scopes() == outcome.state.stack
        &&& action_view(result) == outcome.result
        &&& result is Ok ==> self@ == outcome.state
    }

    /// A worker at rest over the scopes of `stack`.
    pub fn new(stack: Stack) -> (worker: Self)
        requires
            stack.wf(),
        ensures
            worker.wf(),
            worker.stack == stack,
            worker@ == (WorkerView {
                stack: stack.scopes(),
                frames: Seq::empty(),
                focus: machine::FocusView::Idle,
                base: stack.height as nat,
            }),
    {
        let base = stack.height;
        let worker = Self { stack, frames: Vec::new(), focus: Focus::Idle, base };
        assert(frame_views(worker.frames@) =~= Seq::empty());
        worker
    }

    /// Sets the worker to run `stmts`, one after the other, in the innermost scope.
    /// The steps that follow do the run. What waited before is dropped.
    pub fn run(&mut self, stmts: &[Stmt])
        requires
            old(self).wf(),
        ensures
            final(self).wf(),
            final(self).stack == old(self).stack,
            final(self)@ == rules::started(old(self).stack.scopes(), stmt_views(stmts@)),
    {
        let mut statements: Vec<Stmt> = Vec::new();
        let mut i: usize = 0;
        while i < stmts.len()
            invariant
                i <= stmts@.len(),
                statements.len() == i,
                forall|j: int| 0 <= j < i ==> statements@[j]@ == stmts@[j]@,
            decreases stmts.len() - i,
        {
            statements.push(stmts[i].clone());
            i += 1;
        }
        proof {
            assert(stmt_views(statements@) =~= stmt_views(stmts@));
            self.stack.lemma_height();
        }
        let mut frames: Vec<Frame> = Vec::new();
        frames.push(Frame::Sequence { statements, next: 0 });
        assert(frame_views(frames@) =~= seq![frames@[0]@]);
        self.frames = frames;
        self.focus = Focus::Done;
        self.base = self.stack.height;
    }

    /// Does one step: what the worker was at is done as far as it goes without the
    /// host, and `reply` is taken for the host's answer where the step before asked
    /// for one. The action returned says how the run stands, or what the host is to
    /// do before the next step. A complaint gives the run up: the scopes opened since
    /// its start are closed, and the worker is at rest.
    pub fn step(&mut self, reply: Reply) -> (action: Action)
        requires
            old(self).wf(),
        ensures
            final(self).wf(),
            (final(self)@, action@) == rules::step(old(self)@, reply@),
    {
        let mut focus = Focus::Idle;
        core::mem::swap(&mut self.focus, &mut focus);
        let result = match focus {
            Focus::Idle => Ok(Action::Finished),
            Focus::Expr(expr) => self.evaluate(&expr),
            Focus::Stmt(stmt) => self.execute(&stmt),
            Focus::Value(value) => self.deliver(value),
            Focus::Done => self.proceed(),
            Focus::Waiting(pending) => self.receive(pending, reply),
        };
        match result {
            Ok(action) => action,
            Err(e) => {
                self.give_up();
                Action::Failed(e)
            },
        }
    }

    /// Does steps up to the first that hands out something else than `Continue`, and
    /// at most `limit` steps behind the first. `reply` goes to the first step.
    pub fn advance(&mut self, reply: Reply, limit: u64) -> (action: Action)
        requires
            old(self).wf(),
        ensures
            final(self).wf(),
            (final(self)@, action@) == rules::advance(old(self)@, reply@, limit as nat),
    {
        let mut action = self.step(reply);
        let mut left = limit;
        while left > 0 && Self::goes_on(&action)
            invariant
                self.wf(),
                rules::advance(old(self)@, reply@, limit as nat) == if action@ is Continue
                    && left > 0 {
                    rules::advance(self@, machine::ReplyView::Nothing, (left - 1) as nat)
                } else {
                    (self@, action@)
                },
            decreases left,
        {
            action = self.step(Reply::Nothing);
            left -= 1;
        }
        action
    }

    fn goes_on(action: &Action) -> (yes: bool)
        ensures
            yes == (action@ is Continue),
    {
        match action {
            Action::Continue => true,
            _ => false,
        }
    }

    /// Does the first step of the execution of `stmt`: a part of it comes into focus
    /// and the rest waits, or it is done.
    pub fn execute(&mut self, stmt: &Stmt) -> (result: Result<Action, Error>)
        requires
            old(self).wf(),
        ensures
            final(self).lands(result, rules::execute(old(self)@, stmt@)),
    {
        stmt.accept(self)
    }

    /// Does the first step of the evaluation of `expr`: a part of it comes into focus
    /// and the rest waits, or its value is there.
    pub fn evaluate(&mut self, expr: &Expr) -> (result: Result<Action, Error>)
        requires
            old(self).wf(),
        ensures
            final(self).lands(result, rules::eval(old(self)@, expr@)),
    {
        expr.accept(self)
    }

    /// Gives the run up: drops what waits, and closes the scopes opened since the run
    /// started.
    pub fn give_up(&mut self)
        requires
            old(self).wf(),
        ensures
            final(self).wf(),
            final(self)@ == rules::given_up(old(self)@),
    {
        self.frames = Vec::new();
        self.focus = Focus::Idle;
        let ghost scopes = self.stack.scopes();
        proof {
            self.stack.lemma_height();
            assert(scopes.skip(0) =~= scopes);
            assert(frame_views(self.frames@) =~= Seq::empty());
        }
        while self.stack.height > self.base
            invariant
                self.stack.wf(),
                self.base == old(self).base,
                self.frames@.len() == 0,
                self.focus is Idle,
                scopes == old(self).stack.scopes(),
                self.stack.scopes().len() == self.stack.height + 1,
                self.stack.scopes().len() <= scopes.len(),
                self.stack.scopes() == scopes.skip(scopes.len() - self.stack.scopes().len()),
                self.stack.height >= self.base || self.stack.scopes().len() == scopes.len(),
            decreases self.stack.height,
        {
            let ghost before = self.stack.scopes();
            self.stack.pop();
            proof {
                self.stack.lemma_height();
                assert(before.drop_first() =~= scopes.skip(
                    scopes.len() - before.len() + 1,
                ));
            }
        }
        proof {
            assert(frame_views(self.frames@) =~= Seq::empty());
        }
    }

    /// Lets `frame` wait on top of the rest.
    fn hold(&mut self, frame: Frame)
        ensures
            final(self)@ == old(self)@.holding(frame@),
            final(self).stack == old(self).stack,
            final(self).base == old(self).base,
            final(self).focus == old(self).focus,
    {
        self.frames.push(frame);
        assert(frame_views(self.frames@) =~= frame_views(old(self).frames@).push(frame@));
    }

    /// Turns to `focus`, and goes on.
    fn turn_to(&mut self, focus: Focus) -> (result: Result<Action, Error>)
        requires
            old(self).wf(),
        ensures
            final(self).lands(result, rules::go(old(self)@.at(focus@))),
            final(self).stack == old(self).stack,
    {
        self.focus = focus;
        Ok(Action::Continue)
    }

    /// Waits for the host's answer to `action`.
    fn ask(&mut self, pending: Pending, action: Action) -> (result: Result<Action, Error>)
        requires
            old(self).wf(),
        ensures
            final(self).lands(
                result,
                rules::ask(old(self)@.at(machine::FocusView::Waiting(pending@)), action@),
            ),
    {
        self.focus = Focus::Waiting(pending);
        Ok(action)
    }

    /// Goes on with the value computed, or gives up with the complaint.
    fn give(&mut self, value: Result<Instance, Error>) -> (result: Result<Action, Error>)
        requires
            old(self).wf(),
        ensures
            final(self).lands(result, rules::give(old(self)@, primitive::result_view(value))),
    {
        match value {
            Ok(value) => self.turn_to(Focus::Value(value)),
            Err(e) => Err(e),
        }
    }

    /// A value is there: it goes to the frame that waits on top, which is taken off.
    fn deliver(&mut self, value: Instance) -> (result: Result<Action, Error>)
        requires
            old(self).wf(),
        ensures
            final(self).lands(result, rules::deliver(old(self)@, value@)),
    {
        let frame = match self.frames.pop() {
            Some(frame) => frame,
            None => {
                return Err(Self::lost());
            },
        };
        assert(frame_views(self.frames@) =~= frame_views(old(self).frames@).drop_last());
        assert(frame@ == old(self)@.frames.last());
        match frame {
            Frame::Assign { name } => self.assign(&name, value),
            Frame::Left { operator, right } => self.left_operand(operator, right, value),
            Frame::Right { operator, left } => self.right_operand(operator, left, value),
            Frame::Second { operator } => match &value {
                Instance::Bool(_) => self.turn_to(Focus::Value(value)),
                _ => Err(Self::unary_error(&operator, "Bool", &value)),
            },
            Frame::Operand { operator } => self.operand(operator, value),
            Frame::Callee { paren, arguments } => self.callee(paren, arguments, value),
            Frame::Argument { paren, callee, done, rest } => {
                let mut done = done;
                proof {
                    assert(instance_views(done@.push(value)) =~= instance_views(done@).push(
                        value@,
                    ));
                }
                done.push(value);
                self.next_argument(paren, callee, done, rest)
            },
            Frame::Define { name } => self.define(&name, value),
            Frame::Discard => self.turn_to(Focus::Done),
            Frame::Print => self.print(value),
            Frame::Branch { line_number, then_block, else_block } => match &value {
                Instance::Bool(con) => {
                    if *con {
                        self.turn_to(Focus::Stmt(then_block))
                    } else {
                        self.turn_to(Focus::Stmt(else_block))
                    }
                },
                _ => Err(Self::condition_error("If", line_number, &value)),
            },
            Frame::Repeat { line_number, condition, body } => match &value {
                Instance::Bool(con) => {
                    if *con {
                        let again = body.clone();
                        self.hold(Frame::Again { line_number, condition, body });
                        self.turn_to(Focus::Stmt(again))
                    } else {
                        self.turn_to(Focus::Done)
                    }
                },
                _ => Err(Self::condition_error("While", line_number, &value)),
            },
            _ => Err(Self::lost()),
        }
    }

    /// A statement has come to its end: the frame that waits on top goes on. With
    /// nothing waiting the run is finished.
    fn proceed(&mut self) -> (result: Result<Action, Error>)
        requires
            old(self).wf(),
        ensures
            final(self).lands(result, rules::proceed(old(self)@)),
    {
        let frame = match self.frames.pop() {
            Some(frame) => frame,
            None => {
                assert(frame_views(self.frames@) =~= frame_views(old(self).frames@));
                return Ok(Action::Finished);
            },
        };
        assert(frame_views(self.frames@) =~= frame_views(old(self).frames@).drop_last());
        assert(frame@ == old(self)@.frames.last());
        match frame {
            Frame::Again { line_number, condition, body } => {
                let tested = condition.clone();
                self.hold(Frame::Repeat { line_number, condition, body });
                self.turn_to(Focus::Expr(tested))
            },
            Frame::Sequence { statements, next } => {
                if next < statements.len() {
                    let statement = statements[next].clone();
                    self.hold(Frame::Sequence { statements, next: next + 1 });
                    self.turn_to(Focus::Stmt(statement))
                } else {
                    self.turn_to(Focus::Done)
                }
            },
            Frame::Scope => self.leave(Focus::Done),
            Frame::Return => self.leave(Focus::Value(Instance::Nil)),
            _ => Err(Self::lost()),
        }
    }

    /// Closes the innermost scope at the end of a block or of a call, and turns to
    /// `focus`.
    fn leave(&mut self, focus: Focus) -> (result: Result<Action, Error>)
        requires
            old(self).wf(),
        ensures
            final(self).lands(result, rules::leave(old(self)@, focus@)),
    {
        proof {
            self.stack.lemma_height();
        }
        if self.stack.height > 0 {
            self.stack.pop();
            self.turn_to(focus)
        } else {
            Err(Self::no_scope())
        }
    }

    /// The host's answer is there.
    fn receive(&mut self, pending: Pending, reply: Reply) -> (result: Result<Action, Error>)
        requires
            old(self).wf(),
        ensures
            final(self).lands(result, rules::receive(old(self)@, pending@, reply@)),
    {
        match pending {
            Pending::Literal(token) => match reply {
                Reply::Number(bits) => self.turn_to(Focus::Value(Instance::Number(bits))),
                Reply::Rejected(reason) => match &token.kind {
                    TokenKind::Identifier(text)
                    | TokenKind::StringLiteral(text)
                    | TokenKind::NumberLiteral(text) => Err(
                        Self::cannot_parse(&token, text, &reason),
                    ),
                    _ => Err(Self::cannot_parse(&token, &String::new(), &reason)),
                },
                _ => Err(Self::wrong_answer()),
            },
            Pending::Unary(operator, value) => self.give(
                Self::unary(&operator, &value, &reply),
            ),
            Pending::Binary(operator, left, right) => self.give(
                Self::binary(&operator, &left, &right, &reply),
            ),
            Pending::Print => self.turn_to(Focus::Done),
            Pending::Call => match reply {
                Reply::Value(value) => self.turn_to(Focus::Value(value)),
                Reply::Failure(e) => Err(e),
                _ => Err(Self::wrong_answer()),
            },
        }
    }

    /// The value to assign is there.
    fn assign(&mut self, name: &Token, value: Instance) -> (result: Result<Action, Error>)
        requires
            old(self).wf(),
        ensures
            final(self).lands(result, rules::assign(old(self)@, name@, value@)),
    {
        proof {
            crate::stack::lemma_assigned_reads(
                self.stack.scopes(),
                name@.kind.text(),
                value@,
            );
        }
        match self.stack.assign(name, value) {
            Ok(value) => self.turn_to(Focus::Value(value)),
            Err(e) => Err(e),
        }
    }

    /// The first value of a variable is there.
    fn define(&mut self, name: &Token, value: Instance) -> (result: Result<Action, Error>)
        requires
            old(self).wf(),
        ensures
            final(self).lands(result, rules::define(old(self)@, name@, value@)),
    {
        match self.stack.define(name, value) {
            Ok(_) => self.turn_to(Focus::Done),
            Err(e) => Err(e),
        }
    }

    /// The value to print is there.
    fn print(&mut self, value: Instance) -> (result: Result<Action, Error>)
        requires
            old(self).wf(),
        ensures
            final(self).lands(result, rules::print(old(self)@, value@)),
    {
        match &value {
            Instance::Number(n) => self.ask(Pending::Print, Action::PrintNumber(*n)),
            _ => {
                let line = Self::rendered(&value);
                self.ask(Pending::Print, Action::Print(line))
            },
        }
    }

    /// The left operand of an operator with two operands is there.
    fn left_operand(&mut self, operator: Token, right: Expr, value: Instance) -> (result: Result<
        Action,
        Error,
    >)
        requires
            old(self).wf(),
        ensures
            final(self).lands(
                result,
                rules::left_operand(old(self)@, operator@, right@, value@),
            ),
    {
        match &operator.kind {
            TokenKind::Or => Self::primitive_or(self, operator, right, value),
            TokenKind::And => Self::primitive_and(self, operator, right, value),
            _ => {
                self.hold(Frame::Right { operator, left: value });
                self.turn_to(Focus::Expr(right))
            },
        }
    }

    /// `or` has its left operand: a truth value. Where it holds it is the value of
    /// the whole; where not the right operand is.
    fn primitive_or(&mut self, operator: Token, expr2: Expr, value1: Instance) -> (result: Result<
        Action,
        Error,
    >)
        requires
            old(self).wf(),
            operator@.kind is Or,
        ensures
            final(self).lands(
                result,
                rules::left_operand(old(self)@, operator@, expr2@, value1@),
            ),
    {
        match &value1 {
            Instance::Bool(truth) => {
                if *truth {
                    self.turn_to(Focus::Value(value1))
                } else {
                    self.hold(Frame::Second { operator });
                    self.turn_to(Focus::Expr(expr2))
                }
            },
            _ => Err(Self::unary_error(&operator, "Bool", &value1)),
        }
    }

    /// `and` has its left operand: a truth value. Where it does not hold it is the
    /// value of the whole; where it does the right operand is.
    fn primitive_and(&mut self, operator: Token, expr2: Expr, value1: Instance) -> (result: Result<
        Action,
        Error,
    >)
        requires
            old(self).wf(),
            operator@.kind is And,
        ensures
            final(self).lands(
                result,
                rules::left_operand(old(self)@, operator@, expr2@, value1@),
            ),
    {
        match &value1 {
            Instance::Bool(truth) => {
                if !*truth {
                    self.turn_to(Focus::Value(value1))
                } else {
                    self.hold(Frame::Second { operator });
                    self.turn_to(Focus::Expr(expr2))
                }
            },
            _ => Err(Self::unary_error(&operator, "Bool", &value1)),
        }
    }

    /// Both operands of an operator are there.
    fn right_operand(&mut self, operator: Token, left: Instance, right: Instance) -> (result: Result<
        Action,
        Error,
    >)
        requires
            old(self).wf(),
        ensures
            final(self).lands(
                result,
                rules::right_operand(old(self)@, operator@, left@, right@),
            ),
    {
        match Self::asks_binary(&operator, &left, &right) {
            Some(action) => self.ask(Pending::Binary(operator, left, right), action),
            None => self.give(Self::binary(&operator, &left, &right, &Reply::Nothing)),
        }
    }

    /// The operand of an operator with one operand is there.
    fn operand(&mut self, operator: Token, value: Instance) -> (result: Result<Action, Error>)
        requires
            old(self).wf(),
        ensures
            final(self).lands(result, rules::operand(old(self)@, operator@, value@)),
    {
        match Self::asks_unary(&operator, &value) {
            Some(action) => self.ask(Pending::Unary(operator, value), action),
            None => self.give(Self::unary(&operator, &value, &Reply::Nothing)),
        }
    }

    /// What is called is there: it has to be a function.
    fn callee(&mut self, paren: Token, arguments: Vec<Expr>, value: Instance) -> (result: Result<
        Action,
        Error,
    >)
        requires
            old(self).wf(),
        ensures
            final(self).lands(
                result,
                rules::callee(old(self)@, paren@, expr_views(arguments@), value@),
            ),
    {
        match value {
            Instance::Function(callee) => {
                let done: Vec<Instance> = Vec::new();
                assert(instance_views(done@) =~= Seq::<InstanceView>::empty());
                self.next_argument(paren, callee, done, arguments)
            },
            _ => Err(Self::not_callable(&paren, &value)),
        }
    }

    /// Turns to the first argument of `rest`, or makes the call where none is left.
    fn next_argument(
        &mut self,
        paren: Token,
        callee: Callable,
        done: Vec<Instance>,
        rest: Vec<Expr>,
    ) -> (result: Result<Action, Error>)
        requires
            old(self).wf(),
        ensures
            final(self).lands(
                result,
                rules::next_argument(
                    old(self)@,
                    paren@,
                    callee@,
                    instance_views(done@),
                    expr_views(rest@),
                ),
            ),
    {
        if rest.len() == 0 {
            self.invoke(callee, &paren, done)
        } else {
            let first = rest[0].clone();
            let others = clone_exprs_from(&rest, 1);
            proof {
                assert(expr_views(rest@.subrange(1, rest@.len() as int)) =~= expr_views(
                    rest@,
                ).drop_first());
            }
            self.hold(Frame::Argument { paren, callee, done, rest: others });
            self.turn_to(Focus::Expr(first))
        }
    }

    /// Makes a call.
    fn invoke(&mut self, callee: Callable, paren: &Token, arguments: Vec<Instance>) -> (result:
        Result<Action, Error>)
        requires
            old(self).wf(),
        ensures
            final(self).lands(
                result,
                rules::invoke(old(self)@, callee@, instance_views(arguments@)),
            ),
    {
        match callee {
            Callable::Builtin(name) => self.ask(Pending::Call, Action::Call(name, arguments)),
            Callable::User(function) => function.call(self, paren, arguments.as_slice()),
        }
    }
}

impl AulUserFunction {
    /// Starts a call of the function: opens a scope, binds each parameter in it to the
    /// argument at its place, or to `nil` where there is none, and turns `worker` to
    /// the body. The end of the call waits for the end of the body, and the value of
    /// the call is `nil`. The scope is opened inside the scopes of the caller: a name
    /// that the body uses and that is no parameter is looked up there when the body
    /// runs, not where the function was declared.
    pub fn call(&self, worker: &mut Worker, _paren: &Token, arguments: &[Instance]) -> (result:
        Result<Action, Error>)
        requires
            old(worker).wf(),
        ensures
            final(worker).lands(
                result,
                rules::invoke(
                    old(worker)@,
                    crate::function::callable::CallableView::User(self@),
                    instance_views(arguments@),
                ),
            ),
    {
        proof {
            worker.stack.lemma_height();
        }
        if worker.stack.height == usize::MAX {
            return Err(Worker::too_deep());
        }
        worker.stack.push();
        let ghost opened = worker.stack.scopes();
        let ghost params = token_views(self.params@);
        let ghost given = instance_views(arguments@);
        let mut i: usize = 0;
        while i < self.params.len()
            invariant
                i <= self.params.len(),
                worker.stack.wf(),
                worker.base == old(worker).base,
                worker.frames == old(worker).frames,
                worker.focus == old(worker).focus,
                params == token_views(self.params@),
                given == instance_views(arguments@),
                opened == crate::stack::pushed(old(worker).stack.scopes()),
                old(worker).stack.scopes().len() <= usize::MAX,
                rules::bound(opened, params, given, 0) == rules::bound(
                    worker.stack.scopes(),
                    params,
                    given,
                    i as nat,
                ),
            decreases self.params.len() - i,
        {
            let value = if i < arguments.len() {
                arguments[i].clone()
            } else {
                Instance::Nil
            };
            match worker.stack.define(&self.params[i], value) {
                Ok(_) => {},
                Err(e) => {
                    return Err(e);
                },
            }
            i += 1;
        }
        worker.hold(Frame::Return);
        worker.turn_to(Focus::Stmt(self.body.clone()))
    }
}

impl ExprVisitor<Result<Action, Error>> for Worker {
    open spec fn takes_expr(&self, expr: ExprView) -> bool {
        self.wf()
    }

    open spec fn visits_expr(&self, expr: ExprView, after: &Self, result: Result<Action, Error>) -> bool {
        after.lands(result, rules::eval(self@, expr))
    }

    fn visit_assign(&mut self, name: &Token, value: &Expr) -> (result: Result<Action, Error>) {
        self.hold(Frame::Assign { name: name.clone() });
        self.turn_to(Focus::Expr(value.clone()))
    }

    fn visit_binary(&mut self, left: &Expr, operator: &Token, right: &Expr) -> (result: Result<
        Action,
        Error,
    >) {
        self.hold(Frame::Left { operator: operator.clone(), right: right.clone() });
        self.turn_to(Focus::Expr(left.clone()))
    }

    fn visit_grouping(&mut self, expression: &Expr) -> (result: Result<Action, Error>) {
        self.turn_to(Focus::Expr(expression.clone()))
    }

    fn visit_literal(&mut self, value: &Token) -> (result: Result<Action, Error>) {
        match &value.kind {
            TokenKind::NumberLiteral(value_string) => self.ask(
                Pending::Literal(value.clone()),
                Action::Parse(value_string.clone()),
            ),
            TokenKind::StringLiteral(value_string) => self.turn_to(
                Focus::Value(Instance::String(value_string.clone())),
            ),
            TokenKind::True => self.turn_to(Focus::Value(Instance::Bool(true))),
            TokenKind::False => self.turn_to(Focus::Value(Instance::Bool(false))),
            TokenKind::Nil => self.turn_to(Focus::Value(Instance::Nil)),
            _ => Err(Self::not_a_literal(value)),
        }
    }

    fn visit_unary(&mut self, operator: &Token, right: &Expr) -> (result: Result<Action, Error>) {
        self.hold(Frame::Operand { operator: operator.clone() });
        self.turn_to(Focus::Expr(right.clone()))
    }

    fn visit_call(&mut self, callee: &Expr, paren: &Token, arguments: &Vec<Expr>) -> (result: Result<
        Action,
        Error,
    >) {
        let copies = clone_exprs_from(arguments, 0);
        assert(arguments@.subrange(0, arguments@.len() as int) =~= arguments@);
        self.hold(Frame::Callee { paren: paren.clone(), arguments: copies });
        self.turn_to(Focus::Expr(callee.clone()))
    }

    fn visit_variable(&mut self, name: &Token) -> (result: Result<Action, Error>) {
        match self.stack.get(name) {
            Ok(value) => self.turn_to(Focus::Value(value)),
            Err(e) => Err(e),
        }
    }

    fn visit_empty_expr(&mut self) -> (result: Result<Action, Error>) {
        Err(Self::empty_expr())
    }
}

impl StmtVisitor<Result<Action, Error>> for Worker {
    open spec fn takes_stmt(&self, stmt: StmtView) -> bool {
        self.wf()
    }

    open spec fn visits_stmt(&self, stmt: StmtView, after: &Self, result: Result<Action, Error>) -> bool {
        after.lands(result, rules::execute(self@, stmt))
    }

    fn visit_var(&mut self, name: &Token, initializer: &Expr) -> (result: Result<Action, Error>) {
        self.hold(Frame::Define { name: name.clone() });
        self.turn_to(Focus::Expr(initializer.clone()))
    }

    fn visit_block(&mut self, statements: &Vec<Stmt>) -> (result: Result<Action, Error>) {
        proof {
            self.stack.lemma_height();
        }
        if self.stack.height == usize::MAX {
            return Err(Self::too_deep());
        }
        self.stack.push();
        self.hold(Frame::Scope);
        self.hold(Frame::Sequence { statements: clone_stmts(statements), next: 0 });
        self.turn_to(Focus::Done)
    }

    fn visit_if(
        &mut self,
        line_number: &u32,
        condition: &Expr,
        then_block: &Box<Stmt>,
        else_block: &Box<Stmt>,
    ) -> (result: Result<Action, Error>) {
        self.hold(
            Frame::Branch {
                line_number: *line_number,
                then_block: (**then_block).clone(),
                else_block: (**else_block).clone(),
            },
        );
        self.turn_to(Focus::Expr(condition.clone()))
    }

    fn visit_while(&mut self, line_number: &u32, condition: &Expr, body: &Box<Stmt>) -> (result:
        Result<Action, Error>) {
        self.hold(
            Frame::Repeat {
                line_number: *line_number,
                condition: condition.clone(),
                body: (**body).clone(),
            },
        );
        self.turn_to(Focus::Expr(condition.clone()))
    }

    fn visit_function(&mut self, name: &Token, params: &Vec<Token>, body: &Box<Stmt>) -> (result:
        Result<Action, Error>) {
        let fun = AulUserFunction::new(name, params.as_slice(), &**body);
        match self.stack.define(name, Instance::Function(Callable::User(fun))) {
            Ok(_) => self.turn_to(Focus::Done),
            Err(e) => Err(e),
        }
    }

    fn visit_expression(&mut self, expression: &Expr) -> (result: Result<Action, Error>) {
        self.hold(Frame::Discard);
        self.turn_to(Focus::Expr(expression.clone()))
    }

    fn visit_print(&mut self, expression: &Expr) -> (result: Result<Action, Error>) {
        self.hold(Frame::Print);
        self.turn_to(Focus::Expr(expression.clone()))
    }

    fn visit_empty_stmt(&mut self) -> (result: Result<Action, Error>) {
        self.turn_to(Focus::Done)
    }
}

} // verus!
