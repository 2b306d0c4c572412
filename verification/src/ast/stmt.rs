use crate::ast::expr::{Expr, ExprView};
use crate::scanner::token::{token_views, Token, TokenView};
use vstd::prelude::*;

verus! {

/// A statement of the language.
#[allow(inconsistent_fields)]
#[derive(Debug, PartialEq, Eq)]
pub enum Stmt {
    Var { name: Token, initializer: Expr },
    Block { statements: Vec<Stmt> },
    If { line_number: u32, condition: Expr, then_block: Box<Stmt>, else_block: Box<Stmt> },
    While { line_number: u32, condition: Expr, body: Box<Stmt> },
    Function { name: Token, params: Vec<Token>, body: Box<Stmt> },
    Expression { expression: Expr },
    Print { expression: Expr },
    Empty,
}

/// The mathematical value of a [`Stmt`].
#[allow(inconsistent_fields)]
pub enum StmtView {
    Var { name: TokenView, initializer: ExprView },
    Block { statements: Seq<StmtView> },
    If {
        line_number: u32,
        condition: ExprView,
        then_block: Box<StmtView>,
        else_block: Box<StmtView>,
    },
    While { line_number: u32, condition: ExprView, body: Box<StmtView> },
    Function { name: TokenView, params: Seq<TokenView>, body: Box<StmtView> },
    Expression { expression: ExprView },
    Print { expression: ExprView },
    Empty,
}

/// The views of a sequence of statements, in order.
pub open spec fn stmt_views(stmts: Seq<Stmt>) -> Seq<StmtView> {
    Seq::new(stmts.len(), |i: int| stmts[i]@)
}

impl Stmt {
    /// The value of the statement, node by node.
    pub open spec fn model(&self) -> StmtView
        decreases self,
    {
        match self {
            Stmt::Var { name, initializer } => StmtView::Var {
                name: name@,
                initializer: initializer@,
            },
            Stmt::Block { statements } => StmtView::Block {
                statements: Seq::new(
                    statements@.len(),
                    |i: int|
                        if 0 <= i < statements@.len() {
                            statements@[i].model()
                        } else {
                            StmtView::Empty
                        },
                ),
            },
            Stmt::If { line_number, condition, then_block, else_block } => StmtView::If {
                line_number: *line_number,
                condition: condition@,
                then_block: Box::new(then_block.model()),
                else_block: Box::new(else_block.model()),
            },
            Stmt::While { line_number, condition, body } => StmtView::While {
                line_number: *line_number,
                condition: condition@,
                body: Box::new(body.model()),
            },
            Stmt::Function { name, params, body } => StmtView::Function {
                name: name@,
                params: token_views(params@),
                body: Box::new(body.model()),
            },
            Stmt::Expression { expression } => StmtView::Expression { expression: expression@ },
            Stmt::Print { expression } => StmtView::Print { expression: expression@ },
            Stmt::Empty => StmtView::Empty,
        }
    }

    /// The statements of a block are viewed one by one.
    pub proof fn lemma_view_of_block(statements: Vec<Stmt>)
        ensures
            (Stmt::Block { statements })@ == (StmtView::Block {
                statements: stmt_views(statements@),
            }),
    {
        let block = Stmt::Block { statements };
        assert(block@->Block_statements =~= stmt_views(statements@));
    }
}

impl View for Stmt {
    type V = StmtView;

    open spec fn view(&self) -> StmtView {
        self.model()
    }
}

/// Copies a list of tokens, one by one.
pub fn clone_tokens(tokens: &Vec<Token>) -> (copy: Vec<Token>)
    ensures
        token_views(copy@) == token_views(tokens@),
{
    let mut copy: Vec<Token> = Vec::new();
    let mut i: usize = 0;
    while i < tokens.len()
        invariant
            i <= tokens.len(),
            copy.len() == i,
            forall|j: int| 0 <= j < i ==> copy@[j]@ == tokens@[j]@,
        decreases tokens.len() - i,
    {
        copy.push(tokens[i].clone());
        i += 1;
    }
    assert(token_views(copy@) =~= token_views(tokens@));
    copy
}

/// Copies a list of statements, one by one.
pub fn clone_stmts(stmts: &Vec<Stmt>) -> (copy: Vec<Stmt>)
    ensures
        stmt_views(copy@) == stmt_views(stmts@),
{
    let mut copy: Vec<Stmt> = Vec::new();
    let mut i: usize = 0;
    while i < stmts.len()
        invariant
            i <= stmts.len(),
            copy.len() == i,
            forall|j: int| 0 <= j < i ==> copy@[j]@ == stmts@[j]@,
        decreases stmts.len() - i,
    {
        copy.push(stmts[i].clone());
        i += 1;
    }
    assert(stmt_views(copy@) =~= stmt_views(stmts@));
    copy
}

impl Clone for Stmt {
    #[verifier::loop_isolation(false)]
    fn clone(&self) -> (copy: Self)
        ensures
            copy@ == self@,
        decreases self,
    {
        match self {
            Stmt::Var { name, initializer } => Stmt::Var {
                name: name.clone(),
                initializer: initializer.clone(),
            },
            Stmt::Block { statements } => {
                let mut copies: Vec<Stmt> = Vec::new();
                let mut i: usize = 0;
                while i < statements.len()
                    invariant
                        i <= statements.len(),
                        copies.len() == i,
                        forall|j: int| 0 <= j < i ==> copies@[j]@ == statements@[j]@,
                    decreases statements.len() - i,
                {
                    copies.push(statements[i].clone());
                    i += 1;
                }
                let copy = Stmt::Block { statements: copies };
                assert(copy@->Block_statements =~= self@->Block_statements);
                copy
            },
            Stmt::If { line_number, condition, then_block, else_block } => Stmt::If {
                line_number: *line_number,
                condition: condition.clone(),
                then_block: Box::new((**then_block).clone()),
                else_block: Box::new((**else_block).clone()),
            },
            Stmt::While { line_number, condition, body } => Stmt::While {
                line_number: *line_number,
                condition: condition.clone(),
                body: Box::new((**body).clone()),
            },
            Stmt::Function { name, params, body } => Stmt::Function {
                name: name.clone(),
                params: clone_tokens(params),
                body: Box::new((**body).clone()),
            },
            Stmt::Expression { expression } => Stmt::Expression { expression: expression.clone() },
            Stmt::Print { expression } => Stmt::Print { expression: expression.clone() },
            Stmt::Empty => Stmt::Empty,
        }
    }
}

/// What is done with a statement, by the kind of its node. `accept` hands a node to
/// the method for its kind.
pub trait StmtVisitor<R>: Sized {
    /// Whether the visitor, as it stands, takes the node `stmt`.
    spec fn takes_stmt(&self, stmt: StmtView) -> bool;

    /// What a visit of the node `stmt` may do: `self` is the visitor before the visit,
    /// `after` the visitor behind it, and `result` what the visit returns.
    spec fn visits_stmt(&self, stmt: StmtView, after: &Self, result: R) -> bool;

    fn visit_var(&mut self, name: &Token, initializer: &Expr) -> (result: R)
        requires
            old(self).takes_stmt(StmtView::Var { name: name@, initializer: initializer@ }),
        ensures
            old(self).visits_stmt(
                StmtView::Var { name: name@, initializer: initializer@ },
                final(self),
                result,
            ),
    ;

    fn visit_block(&mut self, statements: &Vec<Stmt>) -> (result: R)
        requires
            old(self).takes_stmt(StmtView::Block { statements: stmt_views(statements@) }),
        ensures
            old(self).visits_stmt(
                StmtView::Block { statements: stmt_views(statements@) },
                final(self),
                result,
            ),
    ;

    fn visit_if(
        &mut self,
        line_number: &u32,
        condition: &Expr,
        then_block: &Box<Stmt>,
        else_block: &Box<Stmt>,
    ) -> (result: R)
        requires
            old(self).takes_stmt(
                StmtView::If {
                    line_number: *line_number,
                    condition: condition@,
                    then_block: Box::new(then_block@),
                    else_block: Box::new(else_block@),
                },
            ),
        ensures
            old(self).visits_stmt(
                StmtView::If {
                    line_number: *line_number,
                    condition: condition@,
                    then_block: Box::new(then_block@),
                    else_block: Box::new(else_block@),
                },
                final(self),
                result,
            ),
    ;

    fn visit_while(&mut self, line_number: &u32, condition: &Expr, body: &Box<Stmt>) -> (result: R)
        requires
            old(self).takes_stmt(
                StmtView::While {
                    line_number: *line_number,
                    condition: condition@,
                    body: Box::new(body@),
                },
            ),
        ensures
            old(self).visits_stmt(
                StmtView::While {
                    line_number: *line_number,
                    condition: condition@,
                    body: Box::new(body@),
                },
                final(self),
                result,
            ),
    ;

    fn visit_function(&mut self, name: &Token, params: &Vec<Token>, body: &Box<Stmt>) -> (result: R)
        requires
            old(self).takes_stmt(
                StmtView::Function {
                    name: name@,
                    params: token_views(params@),
                    body: Box::new(body@),
                },
            ),
        ensures
            old(self).visits_stmt(
                StmtView::Function {
                    name: name@,
                    params: token_views(params@),
                    body: Box::new(body@),
                },
                final(self),
                result,
            ),
    ;

    fn visit_expression(&mut self, expression: &Expr) -> (result: R)
        requires
            old(self).takes_stmt(StmtView::Expression { expression: expression@ }),
        ensures
            old(self).visits_stmt(
                StmtView::Expression { expression: expression@ },
                final(self),
                result,
            ),
    ;

    fn visit_print(&mut self, expression: &Expr) -> (result: R)
        requires
            old(self).takes_stmt(StmtView::Print { expression: expression@ }),
        ensures
            old(self).visits_stmt(StmtView::Print { expression: expression@ }, final(self), result),
    ;

    fn visit_empty_stmt(&mut self) -> (result: R)
        requires
            old(self).takes_stmt(StmtView::Empty),
        ensures
            old(self).visits_stmt(StmtView::Empty, final(self), result),
    ;
}

impl Stmt {
    /// Hands the statement to the method of `visitor` for the kind of its node, with the
    /// node's parts, and returns what that method returns.
    pub fn accept<R, T: StmtVisitor<R>>(&self, visitor: &mut T) -> (result: R)
        requires
            old(visitor).takes_stmt(self@),
        ensures
            old(visitor).visits_stmt(self@, final(visitor), result),
    {
        match self {
            Stmt::Var { name, initializer } => visitor.visit_var(name, initializer),
            Stmt::Block { statements } => {
                proof {
                    Stmt::lemma_view_of_block(*statements);
                }
                visitor.visit_block(statements)
            },
            Stmt::If { line_number, condition, then_block, else_block } => visitor.visit_if(
                line_number,
                condition,
                then_block,
                else_block,
            ),
            Stmt::While { line_number, condition, body } => visitor.visit_while(
                line_number,
                condition,
                body,
            ),
            Stmt::Function { name, params, body } => visitor.visit_function(name, params, body),
            Stmt::Expression { expression } => visitor.visit_expression(expression),
            Stmt::Print { expression } => visitor.visit_print(expression),
            Stmt::Empty => visitor.visit_empty_stmt(),
        }
    }

    pub fn new_var(name: Token, initializer: Expr) -> (stmt: Self)
        ensures
            stmt == (Stmt::Var { name, initializer }),
    {
        Stmt::Var { name, initializer }
    }

    pub fn new_block(statements: Vec<Stmt>) -> (stmt: Self)
        ensures
            stmt == (Stmt::Block { statements }),
            stmt@ == (StmtView::Block { statements: stmt_views(statements@) }),
    {
        proof {
            Stmt::lemma_view_of_block(statements);
        }
        Stmt::Block { statements }
    }

    pub fn new_if(
        line_number: u32,
        condition: Expr,
        then_block: Box<Stmt>,
        else_block: Box<Stmt>,
    ) -> (stmt: Self)
        ensures
            stmt == (Stmt::If { line_number, condition, then_block, else_block }),
    {
        Stmt::If { line_number, condition, then_block, else_block }
    }

    pub fn new_while(line_number: u32, condition: Expr, body: Box<Stmt>) -> (stmt: Self)
        ensures
            stmt == (Stmt::While { line_number, condition, body }),
    {
        Stmt::While { line_number, condition, body }
    }

    pub fn new_function(name: Token, params: Vec<Token>, body: Box<Stmt>) -> (stmt: Self)
        ensures
            stmt == (Stmt::Function { name, params, body }),
    {
        Stmt::Function { name, params, body }
    }

    pub fn new_expression(expression: Expr) -> (stmt: Self)
        ensures
            stmt == (Stmt::Expression { expression }),
    {
        Stmt::Expression { expression }
    }

    pub fn new_print(expression: Expr) -> (stmt: Self)
        ensures
            stmt == (Stmt::Print { expression }),
    {
        Stmt::Print { expression }
    }
}

} // verus!
