use crate::scanner::token::{Token, TokenView};
use vstd::prelude::*;

verus! {

/// An expression of the language.
#[allow(inconsistent_fields)]
#[derive(Debug, PartialEq, Eq)]
pub enum Expr {
    Assign { name: Token, value: Box<Expr> },
    Binary { left: Box<Expr>, operator: Token, right: Box<Expr> },
    Grouping { expression: Box<Expr> },
    Literal { value: Token },
    Unary { operator: Token, right: Box<Expr> },
    Call { callee: Box<Expr>, paren: Token, arguments: Vec<Expr> },
    Variable { name: Token },
    Empty,
}

/// The mathematical value of an [`Expr`].
#[allow(inconsistent_fields)]
pub enum ExprView {
    Assign { name: TokenView, value: Box<ExprView> },
    Binary { left: Box<ExprView>, operator: TokenView, right: Box<ExprView> },
    Grouping { expression: Box<ExprView> },
    Literal { value: TokenView },
    Unary { operator: TokenView, right: Box<ExprView> },
    Call { callee: Box<ExprView>, paren: TokenView, arguments: Seq<ExprView> },
    Variable { name: TokenView },
    Empty,
}

/// The views of a sequence of expressions, in order.
pub open spec fn expr_views(exprs: Seq<Expr>) -> Seq<ExprView> {
    Seq::new(exprs.len(), |i: int| exprs[i]@)
}

impl Expr {
    /// The value of the expression, node by node.
    pub open spec fn model(&self) -> ExprView
        decreases self,
    {
        match self {
            Expr::Assign { name, value } => ExprView::Assign {
                name: name@,
                value: Box::new(value.model()),
            },
            Expr::Binary { left, operator, right } => ExprView::Binary {
                left: Box::new(left.model()),
                operator: operator@,
                right: Box::new(right.model()),
            },
            Expr::Grouping { expression } => ExprView::Grouping {
                expression: Box::new(expression.model()),
            },
            Expr::Literal { value } => ExprView::Literal { value: value@ },
            Expr::Unary { operator, right } => ExprView::Unary {
                operator: operator@,
                right: Box::new(right.model()),
            },
            Expr::Call { callee, paren, arguments } => ExprView::Call {
                callee: Box::new(callee.model()),
                paren: paren@,
                arguments: Seq::new(
                    arguments@.len(),
                    |i: int|
                        if 0 <= i < arguments@.len() {
                            arguments@[i].model()
                        } else {
                            ExprView::Empty
                        },
                ),
            },
            Expr::Variable { name } => ExprView::Variable { name: name@ },
            Expr::Empty => ExprView::Empty,
        }
    }

    /// The arguments of a call are viewed one by one.
    pub proof fn lemma_view_of_call(callee: Box<Expr>, paren: Token, arguments: Vec<Expr>)
        ensures
            (Expr::Call { callee, paren, arguments })@ == (ExprView::Call {
                callee: Box::new(callee@),
                paren: paren@,
                arguments: expr_views(arguments@),
            }),
    {
        let call = Expr::Call { callee, paren, arguments };
        assert(call@->Call_arguments =~= expr_views(arguments@));
    }
}

impl View for Expr {
    type V = ExprView;

    open spec fn view(&self) -> ExprView {
        self.model()
    }
}

/// Copies a list of expressions, one by one.
pub fn clone_exprs(exprs: &Vec<Expr>) -> (copy: Vec<Expr>)
    ensures
        expr_views(copy@) == expr_views(exprs@),
{
    clone_exprs_from(exprs, 0)
}

/// Copies the expressions of a list from `from` on.
pub fn clone_exprs_from(exprs: &Vec<Expr>, from: usize) -> (copy: Vec<Expr>)
    requires
        from <= exprs.len(),
    ensures
        expr_views(copy@) == expr_views(exprs@.subrange(from as int, exprs.len() as int)),
{
    let mut copy: Vec<Expr> = Vec::new();
    let mut i: usize = from;
    while i < exprs.len()
        invariant
            from <= i <= exprs.len(),
            copy.len() == i - from,
            forall|j: int| 0 <= j < copy.len() ==> copy@[j]@ == exprs@[from + j]@,
        decreases exprs.len() - i,
    {
        copy.push(exprs[i].clone());
        i += 1;
    }
    assert(expr_views(copy@) =~= expr_views(exprs@.subrange(from as int, exprs.len() as int)));
    copy
}

impl Clone for Expr {
    #[verifier::loop_isolation(false)]
    fn clone(&self) -> (copy: Self)
        ensures
            copy@ == self@,
        decreases self,
    {
        match self {
            Expr::Assign { name, value } => Expr::Assign {
                name: name.clone(),
                value: Box::new((**value).clone()),
            },
            Expr::Binary { left, operator, right } => Expr::Binary {
                left: Box::new((**left).clone()),
                operator: operator.clone(),
                right: Box::new((**right).clone()),
            },
            Expr::Grouping { expression } => Expr::Grouping {
                expression: Box::new((**expression).clone()),
            },
            Expr::Literal { value } => Expr::Literal { value: value.clone() },
            Expr::Unary { operator, right } => Expr::Unary {
                operator: operator.clone(),
                right: Box::new((**right).clone()),
            },
            Expr::Call { callee, paren, arguments } => {
                let mut copies: Vec<Expr> = Vec::new();
                let mut i: usize = 0;
                while i < arguments.len()
                    invariant
                        i <= arguments.len(),
                        copies.len() == i,
                        forall|j: int| 0 <= j < i ==> copies@[j]@ == arguments@[j]@,
                    decreases arguments.len() - i,
                {
                    copies.push(arguments[i].clone());
                    i += 1;
                }
                let copy = Expr::Call {
                    callee: Box::new((**callee).clone()),
                    paren: paren.clone(),
                    arguments: copies,
                };
                assert(copy@->Call_arguments =~= self@->Call_arguments);
                copy
            },
            Expr::Variable { name } => Expr::Variable { name: name.clone() },
            Expr::Empty => Expr::Empty,
        }
    }
}

/// What is done with an expression, by the kind of its node. `accept` hands a node to
/// the method for its kind.
pub trait ExprVisitor<R>: Sized {
    /// Whether the visitor, as it stands, takes the node `expr`.
    spec fn takes_expr(&self, expr: ExprView) -> bool;

    /// What a visit of the node `expr` may do: `self` is the visitor before the visit,
    /// `after` the visitor behind it, and `result` what the visit returns.
    spec fn visits_expr(&self, expr: ExprView, after: &Self, result: R) -> bool;

    fn visit_assign(&mut self, name: &Token, value: &Expr) -> (result: R)
        requires
            old(self).takes_expr(ExprView::Assign { name: name@, value: Box::new(value@) }),
        ensures
            old(self).visits_expr(
                ExprView::Assign { name: name@, value: Box::new(value@) },
                final(self),
                result,
            ),
    ;

    fn visit_binary(&mut self, left: &Expr, operator: &Token, right: &Expr) -> (result: R)
        requires
            old(self).takes_expr(
                ExprView::Binary {
                    left: Box::new(left@),
                    operator: operator@,
                    right: Box::new(right@),
                },
            ),
        ensures
            old(self).visits_expr(
                ExprView::Binary {
                    left: Box::new(left@),
                    operator: operator@,
                    right: Box::new(right@),
                },
                final(self),
                result,
            ),
    ;

    fn visit_grouping(&mut self, expression: &Expr) -> (result: R)
        requires
            old(self).takes_expr(ExprView::Grouping { expression: Box::new(expression@) }),
        ensures
            old(self).visits_expr(
                ExprView::Grouping { expression: Box::new(expression@) },
                final(self),
                result,
            ),
    ;

    fn visit_literal(&mut self, value: &Token) -> (result: R)
        requires
            old(self).takes_expr(ExprView::Literal { value: value@ }),
        ensures
            old(self).visits_expr(ExprView::Literal { value: value@ }, final(self), result),
    ;

    fn visit_unary(&mut self, operator: &Token, right: &Expr) -> (result: R)
        requires
            old(self).takes_expr(
                ExprView::Unary { operator: operator@, right: Box::new(right@) },
            ),
        ensures
            old(self).visits_expr(
                ExprView::Unary { operator: operator@, right: Box::new(right@) },
                final(self),
                result,
            ),
    ;

    fn visit_call(&mut self, callee: &Expr, paren: &Token, arguments: &Vec<Expr>) -> (result: R)
        requires
            old(self).takes_expr(
                ExprView::Call {
                    callee: Box::new(callee@),
                    paren: paren@,
                    arguments: expr_views(arguments@),
                },
            ),
        ensures
            old(self).visits_expr(
                ExprView::Call {
                    callee: Box::new(callee@),
                    paren: paren@,
                    arguments: expr_views(arguments@),
                },
                final(self),
                result,
            ),
    ;

    fn visit_variable(&mut self, name: &Token) -> (result: R)
        requires
            old(self).takes_expr(ExprView::Variable { name: name@ }),
        ensures
            old(self).visits_expr(ExprView::Variable { name: name@ }, final(self), result),
    ;

    fn visit_empty_expr(&mut self) -> (result: R)
        requires
            old(self).takes_expr(ExprView::Empty),
        ensures
            old(self).visits_expr(ExprView::Empty, final(self), result),
    ;
}

impl Expr {
    /// Hands the expression to the method of `visitor` for the kind of its node, with
    /// the node's parts, and returns what that method returns.
    pub fn accept<R, T: ExprVisitor<R>>(&self, visitor: &mut T) -> (result: R)
        requires
            old(visitor).takes_expr(self@),
        ensures
            old(visitor).visits_expr(self@, final(visitor), result),
    {
        match self {
            Expr::Assign { name, value } => visitor.visit_assign(name, value),
            Expr::Binary { left, operator, right } => visitor.visit_binary(left, operator, right),
            Expr::Grouping { expression } => visitor.visit_grouping(expression),
            Expr::Literal { value } => visitor.visit_literal(value),
            Expr::Unary { operator, right } => visitor.visit_unary(operator, right),
            Expr::Call { callee, paren, arguments } => {
                proof {
                    Expr::lemma_view_of_call(*callee, *paren, *arguments);
                }
                visitor.visit_call(callee, paren, arguments)
            },
            Expr::Variable { name } => visitor.visit_variable(name),
            Expr::Empty => visitor.visit_empty_expr(),
        }
    }

    pub fn new_assign(name: Token, value: Box<Expr>) -> (expr: Self)
        ensures
            expr == (Expr::Assign { name, value }),
    {
        Expr::Assign { name, value }
    }

    pub fn new_binary(left: Box<Expr>, operator: Token, right: Box<Expr>) -> (expr: Self)
        ensures
            expr == (Expr::Binary { left, operator, right }),
    {
        Expr::Binary { left, operator, right }
    }

    pub fn new_grouping(expression: Box<Expr>) -> (expr: Self)
        ensures
            expr == (Expr::Grouping { expression }),
    {
        Expr::Grouping { expression }
    }

    pub fn new_literal(value: Token) -> (expr: Self)
        ensures
            expr == (Expr::Literal { value }),
    {
        Expr::Literal { value }
    }

    pub fn new_unary(operator: Token, right: Box<Expr>) -> (expr: Self)
        ensures
            expr == (Expr::Unary { operator, right }),
    {
        Expr::Unary { operator, right }
    }

    pub fn new_call(callee: Box<Expr>, paren: Token, arguments: Vec<Expr>) -> (expr: Self)
        ensures
            expr == (Expr::Call { callee, paren, arguments }),
            expr@ == (ExprView::Call {
                callee: Box::new(callee@),
                paren: paren@,
                arguments: expr_views(arguments@),
            }),
    {
        proof {
            Expr::lemma_view_of_call(callee, paren, arguments);
        }
        Expr::Call { callee, paren, arguments }
    }

    pub fn new_variable(name: Token) -> (expr: Self)
        ensures
            expr == (Expr::Variable { name }),
    {
        Expr::Variable { name }
    }
}

} // verus!
