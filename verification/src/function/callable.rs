use crate::function::{AulUserFunction, AulUserFunctionView};
use vstd::prelude::*;

verus! {

/// What can be called: a function that the host provides under a name, or one that a
/// program declared.
#[derive(Debug, PartialEq, Eq)]
pub enum Callable {
    /// A function of the host, known to it by this name.
    Builtin(String),
    User(AulUserFunction),
}

/// The mathematical value of a [`Callable`].
pub enum CallableView {
    Builtin(Seq<char>),
    User(AulUserFunctionView),
}

impl View for Callable {
    type V = CallableView;

    open spec fn view(&self) -> CallableView {
        match self {
            Callable::Builtin(name) => CallableView::Builtin(name@),
            Callable::User(function) => CallableView::User(function@),
        }
    }
}

impl Clone for Callable {
    fn clone(&self) -> (copy: Self)
        ensures
            copy@ == self@,
    {
        match self {
            Callable::Builtin(name) => Callable::Builtin(name.clone()),
            Callable::User(function) => Callable::User(function.clone()),
        }
    }
}

} // verus!
