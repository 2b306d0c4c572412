use crate::function::callable::{Callable, CallableView};
use crate::scanner::token::{Token, TokenKind};
use crate::stack::{defined, Instance, InstanceView, Stack};
use vstd::prelude::*;

verus! {

/// The scopes with the host's function `name` bound to its name in the innermost.
pub open spec fn with_builtin(scopes: Seq<crate::stack::Scope>, name: Seq<char>) -> Seq<
    crate::stack::Scope,
> {
    defined(scopes, name, InstanceView::Function(CallableView::Builtin(name)))
}

/// Binds `name` in the innermost scope to the function that the host provides under
/// that name.
pub fn define_builtin(stack: &mut Stack, name: &str)
    ensures
        final(stack).scopes() == with_builtin(old(stack).scopes(), name@),
        final(stack).height == old(stack).height,
        old(stack).wf() ==> final(stack).wf(),
{
    let token = Token::new(TokenKind::Identifier(String::from_str(name)), 0);
    let function = Instance::Function(Callable::Builtin(String::from_str(name)));
    let _ = stack.define(&token, function);
}

/// Binds the functions that every host provides: `test`, which prints `test` and
/// then each of its arguments.
pub fn load_std_api(stack: &mut Stack)
    ensures
        final(stack).scopes() == with_builtin(old(stack).scopes(), "test"@),
        final(stack).height == old(stack).height,
        old(stack).wf() ==> final(stack).wf(),
{
    define_builtin(stack, "test")
}

} // verus!
