use wendell::api::{define_builtin, load_std_api};
use wendell::error::Error;
use wendell::function::callable::Callable;
use wendell::scanner::token::{Token, TokenKind};
use wendell::stack::{Instance, Stack};

fn name(text: &str, line: u32) -> Token {
    Token::new(TokenKind::Identifier(text.to_string()), line)
}

fn number(value: f64) -> Instance {
    Instance::Number(value.to_bits())
}

fn text(value: &str) -> Instance {
    Instance::String(value.to_string())
}

#[test]
fn a_new_stack_is_the_global_scope() {
    let stack = Stack::new();
    assert_eq!(stack.height, 0);
    assert!(stack.next.is_none());
    assert_eq!(
        stack.get(&name("x", 3)),
        Err(Error { line: 3, msg: "Undefined variable 'x'.".to_string() })
    );
}

#[test]
fn define_then_get_gives_the_value() {
    let mut stack = Stack::new();
    assert_eq!(stack.define(&name("x", 1), number(1.5)), Ok(()));
    assert_eq!(stack.get(&name("x", 2)), Ok(number(1.5)));
    assert_eq!(stack.define(&name("x", 3), text("again")), Ok(()));
    assert_eq!(stack.get(&name("x", 4)), Ok(text("again")));
}

#[test]
fn push_define_get_pop_restores_the_name() {
    let mut stack = Stack::new();
    stack.define(&name("x", 1), number(1.0)).unwrap();
    stack.push();
    assert_eq!(stack.height, 1);
    stack.define(&name("x", 2), number(2.0)).unwrap();
    assert_eq!(stack.get(&name("x", 2)), Ok(number(2.0)));
    stack.pop();
    assert_eq!(stack.height, 0);
    assert_eq!(stack.get(&name("x", 3)), Ok(number(1.0)));
}

#[test]
fn push_define_pop_leaves_a_new_name_unbound() {
    let mut stack = Stack::new();
    stack.push();
    stack.define(&name("y", 1), Instance::Bool(true)).unwrap();
    assert_eq!(stack.get(&name("y", 1)), Ok(Instance::Bool(true)));
    stack.pop();
    assert_eq!(
        stack.get(&name("y", 9)),
        Err(Error { line: 9, msg: "Undefined variable 'y'.".to_string() })
    );
}

#[test]
fn get_looks_outwards_through_the_scopes() {
    let mut stack = Stack::new();
    stack.define(&name("a", 1), number(1.0)).unwrap();
    stack.push();
    stack.define(&name("b", 1), number(2.0)).unwrap();
    stack.push();
    assert_eq!(stack.height, 2);
    assert_eq!(stack.get(&name("a", 1)), Ok(number(1.0)));
    assert_eq!(stack.get(&name("b", 1)), Ok(number(2.0)));
}

#[test]
fn assign_changes_the_nearest_binding_and_returns_the_value() {
    let mut stack = Stack::new();
    stack.define(&name("x", 1), number(1.0)).unwrap();
    stack.push();
    stack.define(&name("x", 2), number(2.0)).unwrap();
    assert_eq!(stack.assign(&name("x", 3), number(3.0)), Ok(number(3.0)));
    assert_eq!(stack.get(&name("x", 3)), Ok(number(3.0)));
    stack.pop();
    assert_eq!(stack.get(&name("x", 4)), Ok(number(1.0)));
}

#[test]
fn assign_to_an_outer_binding_lasts_beyond_the_inner_scope() {
    let mut stack = Stack::new();
    stack.define(&name("x", 1), number(1.0)).unwrap();
    stack.push();
    stack.define(&name("other", 2), Instance::Nil).unwrap();
    assert_eq!(stack.assign(&name("x", 3), text("new")), Ok(text("new")));
    stack.pop();
    assert_eq!(stack.get(&name("x", 4)), Ok(text("new")));
    assert_eq!(
        stack.get(&name("other", 5)),
        Err(Error { line: 5, msg: "Undefined variable 'other'.".to_string() })
    );
}

#[test]
fn assign_to_an_unbound_name_fails_and_binds_nothing() {
    let mut stack = Stack::new();
    stack.push();
    assert_eq!(
        stack.assign(&name("ghost", 6), number(1.0)),
        Err(Error { line: 6, msg: "Undefined variable 'ghost'.".to_string() })
    );
    assert_eq!(
        stack.get(&name("ghost", 7)),
        Err(Error { line: 7, msg: "Undefined variable 'ghost'.".to_string() })
    );
}

#[test]
fn a_token_that_is_no_name_is_refused() {
    let mut stack = Stack::new();
    let plus = Token::new(TokenKind::Plus, 8);
    let complaint =
        Error { line: 8, msg: "Expecting an identifier, found 'Plus' instead.".to_string() };
    assert_eq!(stack.define(&plus, Instance::Nil), Err(complaint.clone()));
    assert_eq!(stack.get(&plus), Err(complaint.clone()));
    assert_eq!(stack.assign(&plus, Instance::Nil), Err(complaint));
    let literal = Token::new(TokenKind::StringLiteral("x".to_string()), 2);
    assert_eq!(
        stack.get(&literal),
        Err(Error {
            line: 2,
            msg: "Expecting an identifier, found 'StringLiteral(\"x\")' instead.".to_string()
        })
    );
}

#[test]
fn the_standard_functions_are_bound_by_name() {
    let mut stack = Stack::new();
    load_std_api(&mut stack);
    assert_eq!(
        stack.get(&name("test", 1)),
        Ok(Instance::Function(Callable::Builtin("test".to_string())))
    );
    define_builtin(&mut stack, "clock");
    assert_eq!(
        stack.get(&name("clock", 1)),
        Ok(Instance::Function(Callable::Builtin("clock".to_string())))
    );
}

#[test]
fn values_name_their_kinds() {
    assert_eq!(Instance::Nil.kind_name(), "Nil");
    assert_eq!(number(0.0).kind_name(), "Number");
    assert_eq!(text("").kind_name(), "String");
    assert_eq!(Instance::Bool(false).kind_name(), "Bool");
    assert_eq!(Instance::Function(Callable::Builtin("f".to_string())).kind_name(), "Function");
}
