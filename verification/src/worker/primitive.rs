use crate::error::{Error, ErrorView};
use crate::scanner::token::{Token, TokenKind};
use crate::stack::Instance;
use crate::text::chars_of;
use crate::worker::machine::{Action, Operation, Relation, Reply};
use crate::worker::rules;
use crate::worker::Worker;
use vstd::prelude::*;

verus! {

/// The view of a value that was computed, or of the complaint.
pub open spec fn result_view(result: Result<Instance, Error>) -> Result<
    crate::stack::InstanceView,
    ErrorView,
> {
    match result {
        Ok(value) => Ok(value@),
        Err(e) => Err(e@),
    }
}

impl Worker {
    /// The complaint `msg` about line `line`.
    pub fn error(msg: String, line: u32) -> (e: Error)
        ensures
            e@ == (ErrorView { line, msg: msg@ }),
    {
        Error { line, msg }
    }

    /// The complaint that an operator got one operand of the wrong kind.
    pub fn unary_error(operator: &Token, expected: &str, value: &Instance) -> (e: Error)
        ensures
            e@ == rules::unary_error(operator@, expected@, value@),
    {
        let mut msg = operator.kind.debug();
        msg.append(" operator expected type '");
        msg.append(expected);
        msg.append("', found '");
        msg.append(value.kind_name());
        msg.append("' instead.");
        Self::error(msg, operator.line)
    }

    /// The complaint that an operator got two operands of the wrong kinds.
    pub fn binary_error(operator: &Token, expected: &str, value1: &Instance, value2: &Instance) -> (e:
        Error)
        ensures
            e@ == rules::binary_error(operator@, expected@, value1@, value2@),
    {
        let mut msg = operator.kind.debug();
        msg.append(" operator expected type '");
        msg.append(expected);
        msg.append("', found '");
        msg.append(value1.kind_name());
        msg.append("' and '");
        msg.append(value2.kind_name());
        msg.append("' instead.");
        Self::error(msg, operator.line)
    }

    /// The complaint that a token is no operator of the sort `operator_kind`.
    pub fn operator_error(operator: &Token, operator_kind: &str) -> (e: Error)
        ensures
            e@ == rules::operator_error(operator@, operator_kind@),
    {
        let mut msg = operator.kind.debug();
        msg.append(" operator is not a ");
        msg.append(operator_kind);
        msg.append(" operator.");
        Self::error(msg, operator.line)
    }

    /// The complaint that the condition of a statement is no truth value.
    pub fn condition_error(statement_kind: &str, line: u32, value: &Instance) -> (e: Error)
        ensures
            e@ == rules::condition_error(statement_kind@, line, value@),
    {
        let mut msg = String::from_str(statement_kind);
        msg.append(" statement condition must be 'Bool', found '");
        msg.append(value.kind_name());
        msg.append("' instead.");
        Self::error(msg, line)
    }

    /// The complaint that what is called is no function.
    pub fn not_callable(paren: &Token, value: &Instance) -> (e: Error)
        ensures
            e@ == rules::not_callable(paren@, value@),
    {
        let mut msg = String::from_str("Expected a function, found '");
        msg.append(value.kind_name());
        msg.append("' instead");
        Self::error(msg, paren.line)
    }

    /// The complaint that the text of a number literal is no number, for `reason`.
    pub fn cannot_parse(token: &Token, text: &String, reason: &String) -> (e: Error)
        requires
            token@.kind.text() == text@,
        ensures
            e@ == rules::cannot_parse(token@, reason@),
    {
        let mut msg = String::from_str("Cannot parse '");
        msg.append(text.as_str());
        msg.append("' into number (");
        msg.append(reason.as_str());
        msg.append(").");
        Self::error(msg, token.line)
    }

    /// The complaint that a literal holds a token that spells no value.
    pub fn not_a_literal(token: &Token) -> (e: Error)
        ensures
            e@ == rules::not_a_literal(token@),
    {
        let mut msg = String::from_str("Found '");
        let shown = token.kind.debug();
        msg.append(shown.as_str());
        msg.append("' as a literal.");
        Self::error(msg, token.line)
    }

    /// The complaint that the host answered something that was not asked.
    pub fn wrong_answer() -> (e: Error)
        ensures
            e@ == rules::wrong_answer(),
    {
        Self::error(String::from_str("The host gave an answer of the wrong kind."), 0)
    }

    /// The complaint that what waits does not fit what was done.
    pub fn lost() -> (e: Error)
        ensures
            e@ == rules::lost(),
    {
        Self::error(String::from_str("The worker lost track of its work."), 0)
    }

    /// The complaint that scopes are nested deeper than can be counted.
    pub fn too_deep() -> (e: Error)
        ensures
            e@ == rules::too_deep(),
    {
        Self::error(String::from_str("Too many nested scopes."), 0)
    }

    /// The complaint that the global scope cannot be closed.
    pub fn no_scope() -> (e: Error)
        ensures
            e@ == rules::no_scope(),
    {
        Self::error(String::from_str("Cannot pop global scope"), 0)
    }

    /// The complaint that an expression without content was met.
    pub fn empty_expr() -> (e: Error)
        ensures
            e@ == rules::empty_expr(),
    {
        Self::error(String::from_str("Found empty Expr."), 0)
    }

    /// Tells whether the text `a` comes before the text `b` in the order of the
    /// dictionary.
    pub fn text_less(a: &String, b: &String) -> (less: bool)
        ensures
            less == rules::text_less(a@, b@),
    {
        let left = chars_of(a.as_str());
        let right = chars_of(b.as_str());
        let mut i: usize = 0;
        while i < left.len() && i < right.len()
            invariant
                i <= left.len(),
                i <= right.len(),
                left@ == a@,
                right@ == b@,
                rules::text_less(a@, b@) == rules::text_less_from(a@, b@, i as int),
            decreases left.len() - i,
        {
            if left[i] != right[i] {
                return (left[i] as u32) < (right[i] as u32);
            }
            i += 1;
        }
        i < right.len()
    }

    /// `!` on a truth value.
    pub fn primitive_not(operator: &Token, value: &Instance) -> (result: Result<Instance, Error>)
        ensures
            result_view(result) == rules::primitive_not(operator@, value@),
    {
        match value {
            Instance::Bool(v) => Ok(Instance::Bool(!*v)),
            _ => Err(Self::unary_error(operator, "Bool", value)),
        }
    }


    fn answered_number(reply: &Reply) -> (result: Result<Instance, Error>)
        ensures
            result_view(result) == rules::answered_number(reply@),
    {
        match reply {
            Reply::Number(bits) => Ok(Instance::Number(*bits)),
            _ => Err(Self::wrong_answer()),
        }
    }

    /// `-` on a number; `reply` is the number negated, as the host answered it.
    pub fn primitive_neg(operator: &Token, value: &Instance, reply: &Reply) -> (result: Result<
        Instance,
        Error,
    >)
        ensures
            result_view(result) == rules::primitive_neg(operator@, value@, reply@),
    {
        match value {
            Instance::Number(_) => Self::answered_number(reply),
            _ => Err(Self::unary_error(operator, "Number", value)),
        }
    }

    /// `+` on two numbers or on two texts; `reply` is the sum of the numbers, as the host
    /// answered it.
    pub fn primitive_add(operator: &Token, value1: &Instance, value2: &Instance, reply: &Reply) -> (result:
        Result<Instance, Error>)
        ensures
            result_view(result) == rules::primitive_add(operator@, value1@, value2@, reply@),
    {
        match value1 {
            Instance::Number(_) => match value2 {
                Instance::Number(_) => Self::answered_number(reply),
                _ => Err(Self::binary_error(operator, "Number", value1, value2)),
            },
            Instance::String(v1) => match value2 {
                Instance::String(v2) => {
                    let mut joined = v1.clone();
                    joined.append(v2.as_str());
                    Ok(Instance::String(joined))
                },
                _ => Err(Self::binary_error(operator, "String", value1, value2)),
            },
            _ => Err(Self::binary_error(operator, "Number | String", value1, value2)),
        }
    }

    fn primitive_numeric(operator: &Token, value1: &Instance, value2: &Instance, reply: &Reply) -> (result:
        Result<Instance, Error>)
        ensures
            result_view(result) == rules::primitive_numeric(operator@, value1@, value2@, reply@),
    {
        match value1 {
            Instance::Number(_) => match value2 {
                Instance::Number(_) => Self::answered_number(reply),
                _ => Err(Self::binary_error(operator, "Number", value1, value2)),
            },
            _ => Err(Self::binary_error(operator, "Number", value1, value2)),
        }
    }

    /// `-` on two numbers; `reply` is their difference, as the host answered it.
    pub fn primitive_sub(operator: &Token, value1: &Instance, value2: &Instance, reply: &Reply) -> (result:
        Result<Instance, Error>)
        ensures
            result_view(result) == rules::primitive_numeric(operator@, value1@, value2@, reply@),
    {
        Self::primitive_numeric(operator, value1, value2, reply)
    }

    /// `*` on two numbers; `reply` is their product, as the host answered it.
    pub fn primitive_mul(operator: &Token, value1: &Instance, value2: &Instance, reply: &Reply) -> (result:
        Result<Instance, Error>)
        ensures
            result_view(result) == rules::primitive_numeric(operator@, value1@, value2@, reply@),
    {
        Self::primitive_numeric(operator, value1, value2, reply)
    }

    /// `/` on two numbers; `reply` is their quotient, as the host answered it.
    pub fn primitive_div(operator: &Token, value1: &Instance, value2: &Instance, reply: &Reply) -> (result:
        Result<Instance, Error>)
        ensures
            result_view(result) == rules::primitive_numeric(operator@, value1@, value2@, reply@),
    {
        Self::primitive_numeric(operator, value1, value2, reply)
    }

    /// Tells whether two values are equal; `reply` is how two numbers stand to each other,
    /// as the host answered it.
    pub fn primitive_eq(value1: &Instance, value2: &Instance, reply: &Reply) -> (result: Result<
        Instance,
        Error,
    >)
        ensures
            result_view(result) == rules::primitive_eq(value1@, value2@, reply@),
    {
        match value1 {
            Instance::Number(_) => match value2 {
                Instance::Number(_) => match reply {
                    Reply::Relation(relation) => Ok(
                        Instance::Bool(
                            match relation {
                                Relation::Equal => true,
                                _ => false,
                            },
                        ),
                    ),
                    _ => Err(Self::wrong_answer()),
                },
                _ => Ok(Instance::Bool(false)),
            },
            Instance::String(v1) => match value2 {
                Instance::String(v2) => Ok(Instance::Bool(*v1 == *v2)),
                _ => Ok(Instance::Bool(false)),
            },
            Instance::Bool(v1) => match value2 {
                Instance::Bool(v2) => Ok(Instance::Bool(*v1 == *v2)),
                _ => Ok(Instance::Bool(false)),
            },
            Instance::Nil => match value2 {
                Instance::Nil => Ok(Instance::Bool(true)),
                _ => Ok(Instance::Bool(false)),
            },
            _ => Ok(Instance::Bool(false)),
        }
    }

    /// Tells whether the first value is less than the second; `reply` is how two numbers
    /// stand to each other, as the host answered it.
    pub fn primitive_less(operator: &Token, value1: &Instance, value2: &Instance, reply: &Reply) -> (result:
        Result<Instance, Error>)
        ensures
            result_view(result) == rules::primitive_less(operator@, value1@, value2@, reply@),
    {
        match value1 {
            Instance::Number(_) => match value2 {
                Instance::Number(_) => match reply {
                    Reply::Relation(relation) => Ok(
                        Instance::Bool(
                            match relation {
                                Relation::Less => true,
                                _ => false,
                            },
                        ),
                    ),
                    _ => Err(Self::wrong_answer()),
                },
                _ => Err(Self::binary_error(operator, "Number", value1, value2)),
            },
            Instance::String(v1) => match value2 {
                Instance::String(v2) => Ok(Instance::Bool(Self::text_less(v1, v2))),
                _ => Err(Self::binary_error(operator, "String", value1, value2)),
            },
            _ => Err(Self::binary_error(operator, "Number | String", value1, value2)),
        }
    }

    /// The opposite of a truth value that was computed.
    pub fn raw_not(value: Result<Instance, Error>) -> (result: Result<Instance, Error>)
        ensures
            result_view(result) == rules::raw_not(result_view(value)),
    {
        match value {
            Ok(Instance::Bool(v)) => Ok(Instance::Bool(!v)),
            Ok(_) => Err(Self::error(String::from_str("raw_not was called on none Bool"), 0)),
            Err(e) => Err(e),
        }
    }

    /// Tells whether one of two truth values that were computed holds.
    pub fn raw_or(value1: Result<Instance, Error>, value2: Result<Instance, Error>) -> (result: Result<
        Instance,
        Error,
    >)
        ensures
            result_view(result) == rules::raw_or(result_view(value1), result_view(value2)),
    {
        match value1 {
            Ok(Instance::Bool(v1)) => match value2 {
                Ok(Instance::Bool(v2)) => Ok(Instance::Bool(v1 || v2)),
                Ok(_) => Err(Self::error(String::from_str("raw_or was called on none Bool"), 0)),
                Err(e) => Err(e),
            },
            Ok(_) => Err(Self::error(String::from_str("raw_or was called on none Bool"), 0)),
            Err(e) => Err(e),
        }
    }

    /// What an operator with two operands makes of their values; `reply` is the host's
    /// answer where `asks_binary` had one asked.
    pub fn binary(operator: &Token, left: &Instance, right: &Instance, reply: &Reply) -> (result: Result<
        Instance,
        Error,
    >)
        ensures
            result_view(result) == rules::binary(operator@, left@, right@, reply@),
    {
        match &operator.kind {
            TokenKind::Plus => Self::primitive_add(operator, left, right, reply),
            TokenKind::Minus => Self::primitive_sub(operator, left, right, reply),
            TokenKind::Star => Self::primitive_mul(operator, left, right, reply),
            TokenKind::Slash => Self::primitive_div(operator, left, right, reply),
            TokenKind::EqualEqual => Self::primitive_eq(left, right, reply),
            TokenKind::BangEqual => Self::raw_not(Self::primitive_eq(left, right, reply)),
            TokenKind::Less => Self::primitive_less(operator, left, right, reply),
            TokenKind::Greater => Self::raw_not(
                Self::raw_or(
                    Self::primitive_less(operator, left, right, reply),
                    Self::primitive_eq(left, right, reply),
                ),
            ),
            TokenKind::LessEqual => Self::raw_or(
                Self::primitive_less(operator, left, right, reply),
                Self::primitive_eq(left, right, reply),
            ),
            TokenKind::GreaterEqual => Self::raw_not(Self::primitive_less(operator, left, right, reply)),
            _ => Err(Self::operator_error(operator, "binary")),
        }
    }

    /// What an operator with two operands asks of the host before `binary`: something
    /// where both are numbers, nothing else.
    pub fn asks_binary(operator: &Token, left: &Instance, right: &Instance) -> (asked: Option<Action>)
        ensures
            match asked {
                Some(action) => rules::asks_binary(operator@, left@, right@) == Some(action@),
                None => rules::asks_binary(operator@, left@, right@) is None,
            },
    {
        match (left, right) {
            (Instance::Number(a), Instance::Number(b)) => match &operator.kind {
                TokenKind::Plus => Some(Action::Calculate(Operation::Add, *a, *b)),
                TokenKind::Minus => Some(Action::Calculate(Operation::Subtract, *a, *b)),
                TokenKind::Star => Some(Action::Calculate(Operation::Multiply, *a, *b)),
                TokenKind::Slash => Some(Action::Calculate(Operation::Divide, *a, *b)),
                TokenKind::EqualEqual
                | TokenKind::BangEqual
                | TokenKind::Less
                | TokenKind::Greater
                | TokenKind::LessEqual
                | TokenKind::GreaterEqual => Some(Action::Compare(*a, *b)),
                _ => None,
            },
            _ => None,
        }
    }

    /// What an operator with one operand makes of its value; `reply` is the host's answer
    /// where `asks_unary` had one asked.
    pub fn unary(operator: &Token, value: &Instance, reply: &Reply) -> (result: Result<Instance, Error>)
        ensures
            result_view(result) == rules::unary(operator@, value@, reply@),
    {
        match &operator.kind {
            TokenKind::Bang => Self::primitive_not(operator, value),
            TokenKind::Minus => Self::primitive_neg(operator, value, reply),
            _ => Err(Self::operator_error(operator, "unary")),
        }
    }

    /// What an operator with one operand asks of the host before `unary`.
    pub fn asks_unary(operator: &Token, value: &Instance) -> (asked: Option<Action>)
        ensures
            match asked {
                Some(action) => rules::asks_unary(operator@, value@) == Some(action@),
                None => rules::asks_unary(operator@, value@) is None,
            },
    {
        match (&operator.kind, value) {
            (TokenKind::Minus, Instance::Number(bits)) => Some(Action::Negate(*bits)),
            _ => None,
        }
    }

    /// The line that `print` writes for a value that is no number.
    pub fn rendered(value: &Instance) -> (line: String)
        ensures
            line@ == rules::rendered(value@),
    {
        match value {
            Instance::String(s) => s.clone(),
            Instance::Bool(b) => if *b {
                String::from_str("true")
            } else {
                String::from_str("false")
            },
            Instance::Function(_) => String::from_str("function"),
            _ => String::from_str("nil"),
        }
    }
}

} // verus!
