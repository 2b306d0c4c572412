use crate::error::{Error, ErrorView};
use crate::function::callable::{Callable, CallableView};
use crate::scanner::token::{Token, TokenKind, TokenKindView, TokenView};
use vstd::hash_map::StringHashMap;
use vstd::prelude::*;

verus! {

/// A value of the language. A number is held as the bits of a double-precision
/// value; the library hands them on and never looks into them.
#[derive(Debug, PartialEq, Eq)]
pub enum Instance {
    Nil,
    Number(u64),
    String(String),
    Bool(bool),
    Function(Callable),
}

/// The mathematical value of an [`Instance`].
pub enum InstanceView {
    Nil,
    Number(u64),
    String(Seq<char>),
    Bool(bool),
    Function(CallableView),
}

impl View for Instance {
    type V = InstanceView;

    open spec fn view(&self) -> InstanceView {
        match self {
            Instance::Nil => InstanceView::Nil,
            Instance::Number(bits) => InstanceView::Number(*bits),
            Instance::String(text) => InstanceView::String(text@),
            Instance::Bool(truth) => InstanceView::Bool(*truth),
            Instance::Function(callable) => InstanceView::Function(callable@),
        }
    }
}

impl Clone for Instance {
    fn clone(&self) -> (copy: Self)
        ensures
            copy@ == self@,
    {
        match self {
            Instance::Nil => Instance::Nil,
            Instance::Number(bits) => Instance::Number(*bits),
            Instance::String(text) => Instance::String(text.clone()),
            Instance::Bool(truth) => Instance::Bool(*truth),
            Instance::Function(callable) => Instance::Function(callable.clone()),
        }
    }
}

/// The views of a sequence of values, in order.
pub open spec fn instance_views(values: Seq<Instance>) -> Seq<InstanceView> {
    values.map_values(|value: Instance| value@)
}

impl InstanceView {
    /// The name of the kind of the value, as complaints give it.
    pub open spec fn kind_name(self) -> Seq<char> {
        match self {
            InstanceView::Nil => "Nil"@,
            InstanceView::Number(_) => "Number"@,
            InstanceView::String(_) => "String"@,
            InstanceView::Bool(_) => "Bool"@,
            InstanceView::Function(_) => "Function"@,
        }
    }
}

impl Instance {
    /// The name of the kind of the value, as complaints give it.
    pub fn kind_name(&self) -> (name: &'static str)
        ensures
            name@ == self@.kind_name(),
    {
        match self {
            Instance::Nil => "Nil",
            Instance::Number(_) => "Number",
            Instance::String(_) => "String",
            Instance::Bool(_) => "Bool",
            Instance::Function(_) => "Function",
        }
    }
}

/// One level of scope: the values bound to names.
pub type Scope = Map<Seq<char>, InstanceView>;

/// The value that `name` has in a chain of scopes, innermost first: the one of the
/// first scope that binds it.
pub open spec fn lookup(scopes: Seq<Scope>, name: Seq<char>) -> Option<InstanceView>
    decreases scopes.len(),
{
    if scopes.len() == 0 {
        None
    } else if scopes[0].contains_key(name) {
        Some(scopes[0][name])
    } else {
        lookup(scopes.drop_first(), name)
    }
}

/// The chain with one more scope, empty, as the innermost.
pub open spec fn pushed(scopes: Seq<Scope>) -> Seq<Scope> {
    seq![Map::<Seq<char>, InstanceView>::empty()] + scopes
}

/// The chain with `name` bound to `value` in the innermost scope.
pub open spec fn defined(scopes: Seq<Scope>, name: Seq<char>, value: InstanceView) -> Seq<Scope> {
    scopes.update(0, scopes[0].insert(name, value))
}

/// The chain with `value` in place of what the first scope that binds `name` held for
/// it; the same chain where none binds it.
pub open spec fn assigned(scopes: Seq<Scope>, name: Seq<char>, value: InstanceView) -> Seq<Scope>
    decreases scopes.len(),
{
    if scopes.len() == 0 {
        scopes
    } else if scopes[0].contains_key(name) {
        scopes.update(0, scopes[0].insert(name, value))
    } else {
        seq![scopes[0]] + assigned(scopes.drop_first(), name, value)
    }
}

/// The complaint that the token `name` is no name.
pub open spec fn not_a_name(name: TokenView) -> ErrorView {
    ErrorView {
        line: name.line,
        msg: "Expecting an identifier, found '"@ + name.kind.debug() + "' instead."@,
    }
}

/// The complaint that nothing is bound to the name that the token `name` spells.
pub open spec fn undefined(name: TokenView) -> ErrorView {
    ErrorView {
        line: name.line,
        msg: "Undefined variable '"@ + name.kind.text() + "'."@,
    }
}

/// A chain of scopes: this scope, the innermost, and behind `next` the scopes around
/// it. The last of the chain is the global scope.
pub struct Stack {
    /// How many scopes lie around this one.
    pub height: usize,
    pub values: StringHashMap<Instance>,
    pub next: Option<Box<Stack>>,
}

impl Stack {
    /// The bindings of the innermost scope.
    pub open spec fn scope(&self) -> Scope {
        self.values@.map_values(|value: Instance| value@)
    }

    /// The scopes of the chain, innermost first.
    pub open spec fn scopes(&self) -> Seq<Scope>
        decreases self,
    {
        match self.next {
            None => seq![self.scope()],
            Some(next) => seq![self.scope()] + next.scopes(),
        }
    }

    /// `height` counts the scopes around each scope of the chain.
    pub open spec fn wf(&self) -> bool
        decreases self,
    {
        match self.next {
            None => self.height == 0,
            Some(next) => self.height == next.height + 1 && next.wf(),
        }
    }

    /// The chain holds one scope more than `height` says.
    pub proof fn lemma_height(&self)
        requires
            self.wf(),
        ensures
            self.scopes().len() == self.height + 1,
        decreases self,
    {
        match self.next {
            None => {},
            Some(next) => {
                next.lemma_height();
            },
        }
    }

    /// A chain of the global scope alone, with nothing bound.
    pub fn new() -> (stack: Self)
        ensures
            stack.wf(),
            stack.height == 0,
            stack.scopes() == seq![Map::<Seq<char>, InstanceView>::empty()],
    {
        let stack = Self::raw_new(0);
        assert(stack.scopes() =~= seq![Map::<Seq<char>, InstanceView>::empty()]);
        stack
    }

    /// Opens a new scope, empty, inside the innermost.
    pub fn push(&mut self)
        requires
            old(self).height < usize::MAX,
        ensures
            final(self).scopes() == pushed(old(self).scopes()),
            final(self).height == old(self).height + 1,
            final(self).next == Some(Box::new(*old(self))),
            old(self).wf() ==> final(self).wf(),
    {
        let mut inner = Self::raw_new(self.height + 1);
        core::mem::swap(self, &mut inner);
        self.next = Some(Box::new(inner));
        assert(self.scopes() =~= pushed(old(self).scopes()));
    }

    /// Closes the innermost scope. The global scope cannot be closed.
    pub fn pop(&mut self)
        requires
            old(self).next is Some,
        ensures
            *final(self) == *old(self).next->Some_0,
            final(self).scopes() == old(self).scopes().drop_first(),
            old(self).wf() ==> final(self).wf() && final(self).height + 1 == old(self).height,
    {
        let next = self.next.take();
        match next {
            Some(outer) => {
                *self = *outer;
            },
            None => {},
        }
        assert(self.scopes() =~= old(self).scopes().drop_first());
    }

    /// Binds the name that `name` spells to `value` in the innermost scope, in place of
    /// what that scope held for it. A token that is no name is refused.
    pub fn define(&mut self, name: &Token, value: Instance) -> (result: Result<(), Error>)
        ensures
            final(self).height == old(self).height,
            final(self).next == old(self).next,
            old(self).wf() ==> final(self).wf(),
            match name@.kind {
                TokenKindView::Identifier(text) => {
                    &&& result is Ok
                    &&& final(self).scopes() == defined(old(self).scopes(), text, value@)
                },
                _ => {
                    &&& result matches Err(e)
                    &&& e@ == not_a_name(name@)
                    &&& final(self).scopes() == old(self).scopes()
                },
            },
    {
        match &name.kind {
            TokenKind::Identifier(text) => {
                self.values.insert(text.clone(), value);
                proof {
                    assert(self.scope() =~= old(self).scope().insert(text@, value@));
                    assert(self.scopes() =~= defined(old(self).scopes(), text@, value@));
                }
                Ok(())
            },
            _ => Err(Self::not_a_name(name)),
        }
    }

    /// The value of the name that `name` spells: a copy of what the first scope that
    /// binds it holds, looking from the innermost outwards.
    pub fn get(&self, name: &Token) -> (result: Result<Instance, Error>)
        ensures
            match name@.kind {
                TokenKindView::Identifier(text) => match lookup(self.scopes(), text) {
                    Some(value) => result matches Ok(found) && found@ == value,
                    None => result matches Err(e) && e@ == undefined(name@),
                },
                _ => result matches Err(e) && e@ == not_a_name(name@),
            },
        decreases self,
    {
        match &name.kind {
            TokenKind::Identifier(text) => {
                proof {
                    reveal_with_fuel(lookup, 2);
                }
                match self.values.get(text.as_str()) {
                    Some(value) => {
                        return Ok(value.clone());
                    },
                    None => {},
                }
                match &self.next {
                    Some(next) => {
                        assert(self.scopes().drop_first() =~= next.scopes());
                        next.get(name)
                    },
                    None => {
                        assert(self.scopes().drop_first().len() == 0);
                        Err(Self::undefined(name, text))
                    },
                }
            },
            _ => Err(Self::not_a_name(name)),
        }
    }

    /// Puts `value` in place of what the first scope that binds the name held for it,
    /// looking from the innermost outwards, and returns the value.
    pub fn assign(&mut self, name: &Token, value: Instance) -> (result: Result<Instance, Error>)
        ensures
            final(self).height == old(self).height,
            old(self).wf() ==> final(self).wf(),
            final(self).scopes().len() == old(self).scopes().len(),
            match name@.kind {
                TokenKindView::Identifier(text) => {
                    &&& final(self).scopes() == assigned(old(self).scopes(), text, value@)
                    &&& match lookup(old(self).scopes(), text) {
                        Some(_) => result matches Ok(given) && given@ == value@,
                        None => result matches Err(e) && e@ == undefined(name@),
                    }
                },
                _ => {
                    &&& result matches Err(e)
                    &&& e@ == not_a_name(name@)
                    &&& final(self).scopes() == old(self).scopes()
                },
            },
        decreases old(self).scopes().len(),
    {
        match &name.kind {
            TokenKind::Identifier(text) => {
                proof {
                    reveal_with_fuel(lookup, 2);
                    reveal_with_fuel(assigned, 2);
                }
                if self.values.contains_key(text.as_str()) {
                    self.values.insert(text.clone(), value.clone());
                    proof {
                        assert(self.scope() =~= old(self).scope().insert(text@, value@));
                        assert(self.scopes() =~= assigned(old(self).scopes(), text@, value@));
                    }
                    return Ok(value);
                }
                let ghost scopes = self.scopes();
                let result = match &mut self.next {
                    Some(next) => {
                        assert(scopes.drop_first() =~= next.scopes());
                        next.assign(name, value)
                    },
                    None => {
                        assert(scopes.drop_first().len() == 0);
                        Err(Self::undefined(name, text))
                    },
                };
                proof {
                    assert(self.scopes() =~= assigned(scopes, text@, value@));
                }
                result
            },
            _ => Err(Self::not_a_name(name)),
        }
    }

    fn raw_new(height: usize) -> (stack: Self)
        ensures
            stack.height == height,
            stack.next is None,
            stack.scope() == Map::<Seq<char>, InstanceView>::empty(),
    {
        let stack = Self { values: StringHashMap::new(), height, next: None };
        assert(stack.scope() =~= Map::<Seq<char>, InstanceView>::empty());
        stack
    }

    fn not_a_name(name: &Token) -> (e: Error)
        ensures
            e@ == not_a_name(name@),
    {
        let mut msg = String::from_str("Expecting an identifier, found '");
        let shown = name.to_string();
        msg.append(shown.as_str());
        msg.append("' instead.");
        Self::error(msg, name.line)
    }

    fn undefined(name: &Token, text: &String) -> (e: Error)
        requires
            name@.kind.text() == text@,
        ensures
            e@ == undefined(name@),
    {
        let mut msg = String::from_str("Undefined variable '");
        msg.append(text.as_str());
        msg.append("'.");
        Self::error(msg, name.line)
    }

    fn error(msg: String, line: u32) -> (e: Error)
        ensures
            e@ == (ErrorView { line, msg: msg@ }),
    {
        Error { line, msg }
    }
}

/// A name bound in a newly opened scope reads as the value bound, and closing the scope
/// leaves the chain as it was before the scope was opened.
pub proof fn lemma_scope_restores(scopes: Seq<Scope>, name: Seq<char>, value: InstanceView)
    ensures
        lookup(defined(pushed(scopes), name, value), name) == Some(value),
        defined(pushed(scopes), name, value).drop_first() == scopes,
{
    assert(defined(pushed(scopes), name, value).drop_first() =~= scopes);
}

/// A name bound in an inner scope hides the binding of an outer scope only as long as
/// the inner scope is open: neither binding the name there nor assigning to it changes
/// what it reads as once the scope is closed.
pub proof fn lemma_shadowing_ends_with_scope(
    scopes: Seq<Scope>,
    name: Seq<char>,
    shadow: InstanceView,
    other: InstanceView,
)
    ensures
        lookup(defined(pushed(scopes), name, shadow).drop_first(), name) == lookup(scopes, name),
        lookup(assigned(defined(pushed(scopes), name, shadow), name, other), name) == Some(other),
        assigned(defined(pushed(scopes), name, shadow), name, other).drop_first() == scopes,
{
    let inner = defined(pushed(scopes), name, shadow);
    assert(inner.drop_first() =~= scopes);
    assert(assigned(inner, name, other).drop_first() =~= scopes);
}

/// An assignment keeps the number of scopes, and a name that is bound reads as the value
/// assigned.
pub proof fn lemma_assigned_reads(scopes: Seq<Scope>, name: Seq<char>, value: InstanceView)
    ensures
        assigned(scopes, name, value).len() == scopes.len(),
        lookup(scopes, name) is Some ==> lookup(assigned(scopes, name, value), name) == Some(
            value,
        ),
        lookup(scopes, name) is None ==> assigned(scopes, name, value) == scopes,
    decreases scopes.len(),
{
    if scopes.len() > 0 && !scopes[0].contains_key(name) {
        lemma_assigned_reads(scopes.drop_first(), name, value);
        let rest = assigned(scopes.drop_first(), name, value);
        assert((seq![scopes[0]] + rest).drop_first() =~= rest);
        if lookup(scopes, name) is None {
            assert(seq![scopes[0]] + scopes.drop_first() =~= scopes);
        }
    }
}

/// An assignment changes the first scope that binds the name and no other: where that
/// is not the innermost scope, the innermost stays as it was, and the value assigned is
/// still read once the innermost scope is closed.
pub proof fn lemma_assignment_outlives_inner_scope(
    scopes: Seq<Scope>,
    name: Seq<char>,
    value: InstanceView,
)
    requires
        scopes.len() > 0,
        !scopes[0].contains_key(name),
        lookup(scopes, name) is Some,
    ensures
        assigned(scopes, name, value)[0] == scopes[0],
        lookup(assigned(scopes, name, value).drop_first(), name) == Some(value),
{
    lemma_assigned_reads(scopes.drop_first(), name, value);
    let rest = assigned(scopes.drop_first(), name, value);
    assert((seq![scopes[0]] + rest).drop_first() =~= rest);
}

/// An assignment to one name leaves what every other name reads as.
pub proof fn lemma_assigned_leaves_others(
    scopes: Seq<Scope>,
    name: Seq<char>,
    value: InstanceView,
    other: Seq<char>,
)
    requires
        other != name,
    ensures
        lookup(assigned(scopes, name, value), other) == lookup(scopes, other),
    decreases scopes.len(),
{
    if scopes.len() > 0 {
        if scopes[0].contains_key(name) {
            assert(assigned(scopes, name, value).drop_first() =~= scopes.drop_first());
        } else {
            lemma_assigned_leaves_others(scopes.drop_first(), name, value, other);
            let rest = assigned(scopes.drop_first(), name, value);
            assert((seq![scopes[0]] + rest).drop_first() =~= rest);
        }
    }
}

} // verus!
