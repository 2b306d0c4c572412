pub mod callable;

use crate::ast::stmt::{clone_tokens, Stmt, StmtView};
use crate::scanner::token::{token_views, Token, TokenView};
use vstd::prelude::*;

verus! {

/// A function declared in a program: its name, the names of its parameters and its
/// body.
#[derive(Debug, PartialEq, Eq)]
pub struct AulUserFunction {
    pub name: Token,
    pub params: Vec<Token>,
    pub body: Stmt,
}

/// The mathematical value of an [`AulUserFunction`].
pub struct AulUserFunctionView {
    pub name: TokenView,
    pub params: Seq<TokenView>,
    pub body: StmtView,
}

impl View for AulUserFunction {
    type V = AulUserFunctionView;

    open spec fn view(&self) -> AulUserFunctionView {
        AulUserFunctionView { name: self.name@, params: token_views(self.params@), body: self.body@ }
    }
}

impl Clone for AulUserFunction {
    fn clone(&self) -> (copy: Self)
        ensures
            copy@ == self@,
    {
        AulUserFunction {
            name: self.name.clone(),
            params: clone_tokens(&self.params),
            body: self.body.clone(),
        }
    }
}

impl AulUserFunction {
    /// The function with copies of the name, the parameters and the body given.
    pub fn new(name: &Token, params: &[Token], body: &Stmt) -> (function: Self)
        ensures
            function@ == (AulUserFunctionView {
                name: name@,
                params: token_views(params@),
                body: body@,
            }),
    {
        let mut copies: Vec<Token> = Vec::new();
        let mut i: usize = 0;
        while i < params.len()
            invariant
                i <= params@.len(),
                copies.len() == i,
                forall|j: int| 0 <= j < i ==> copies@[j]@ == params@[j]@,
            decreases params.len() - i,
        {
            copies.push(params[i].clone());
            i += 1;
        }
        assert(token_views(copies@) =~= token_views(params@));
        Self { name: name.clone(), params: copies, body: body.clone() }
    }
}

} // verus!
