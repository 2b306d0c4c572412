use wendell::ast::expr::Expr;
use wendell::ast::stmt::Stmt;
use wendell::error::Error;
use wendell::function::callable::Callable;
use wendell::interpreter::Interpreter;
use wendell::scanner::token::{Token, TokenKind};
use wendell::stack::Instance;
use wendell::worker::machine::{Action, Focus, Frame, Operation, Relation, Reply};
use wendell::worker::Worker;

fn number(bits: u64) -> f64 {
    f64::from_bits(bits)
}

fn shown(value: &Instance) -> String {
    match value {
        Instance::Nil => "Nil".to_string(),
        Instance::Number(bits) => format!("Number({:?})", number(*bits)),
        Instance::String(text) => format!("String({:?})", text),
        Instance::Bool(truth) => format!("Bool({:?})", truth),
        Instance::Function(_) => "Function".to_string(),
    }
}

fn answer(action: Action, out: &mut Vec<String>) -> Reply {
    match action {
        Action::Print(line) => {
            out.push(line);
            Reply::Nothing
        },
        Action::PrintNumber(bits) => {
            out.push(format!("{}", number(bits)));
            Reply::Nothing
        },
        Action::Parse(text) => match text.parse::<f64>() {
            Ok(value) => Reply::Number(value.to_bits()),
            Err(e) => Reply::Rejected(e.to_string()),
        },
        Action::Negate(bits) => Reply::Number((-number(bits)).to_bits()),
        Action::Calculate(operation, left, right) => {
            let (a, b) = (number(left), number(right));
            let value = match operation {
                Operation::Add => a + b,
                Operation::Subtract => a - b,
                Operation::Multiply => a * b,
                Operation::Divide => a / b,
            };
            Reply::Number(value.to_bits())
        },
        Action::Compare(left, right) => {
            let (a, b) = (number(left), number(right));
            Reply::Relation(if a < b {
                Relation::Less
            } else if a == b {
                Relation::Equal
            } else if a > b {
                Relation::Greater
            } else {
                Relation::Unordered
            })
        },
        Action::Call(name, arguments) => {
            if name == "test" {
                out.push("test".to_string());
                for argument in &arguments {
                    out.push(shown(argument));
                }
                Reply::Value(Instance::Nil)
            } else {
                Reply::Failure(Error { line: 0, msg: format!("No function '{}'.", name) })
            }
        },
        Action::Continue | Action::Finished | Action::Failed(_) => Reply::Nothing,
    }
}

fn finish(interpreter: &mut Interpreter, out: &mut Vec<String>) -> Result<(), Error> {
    let mut reply = Reply::Nothing;
    for _ in 0..1_000_000 {
        match interpreter.worker.step(reply) {
            Action::Finished => return Ok(()),
            Action::Failed(e) => return Err(e),
            action => reply = answer(action, out),
        }
    }
    panic!("the program did not end");
}

fn feed(interpreter: &mut Interpreter, source: &str, line: u32, out: &mut Vec<String>) -> Result<(), Vec<Error>> {
    interpreter.run(source.to_string(), line)?;
    finish(interpreter, out).map_err(|e: Error| vec![e])
}

fn run(source: &str) -> (Vec<String>, Result<(), Vec<Error>>) {
    let mut interpreter = Interpreter::new();
    let mut out = Vec::new();
    let result = feed(&mut interpreter, source, 1, &mut out);
    assert_eq!(interpreter.worker.stack.height, 0);
    assert!(interpreter.worker.frames.is_empty());
    assert_eq!(interpreter.worker.focus, Focus::Idle);
    (out, result)
}

fn prints(source: &str) -> Vec<String> {
    let (out, result) = run(source);
    assert_eq!(result, Ok(()));
    out
}

fn fails(source: &str) -> Error {
    let (_, result) = run(source);
    let mut errors = result.unwrap_err();
    assert_eq!(errors.len(), 1);
    errors.remove(0)
}

#[test]
fn arithmetic_follows_precedence() {
    assert_eq!(prints("print 1 + 2 * 3;"), vec!["7"]);
    assert_eq!(prints("print (1 + 2) * 3;"), vec!["9"]);
    assert_eq!(prints("print 2 + 3 * 4; print (2 + 3) * 4;"), vec!["14", "20"]);
    assert_eq!(prints("print 7 - 2 - 1; print 8 / 4 / 2; print 1 / 4;"), vec!["4", "1", "0.25"]);
}

#[test]
fn texts_are_joined() {
    assert_eq!(prints("var a = \"hi\"; var b = \" there\"; print a + b;"), vec!["hi there"]);
}

#[test]
fn a_for_loop_sums() {
    assert_eq!(
        prints("var x = 0;\nfor (var i = 0; i < 3; i = i + 1) x = x + i;\nprint x;"),
        vec!["3"]
    );
}

#[test]
fn a_function_is_called_with_its_arguments() {
    assert_eq!(prints("fun f(a, b) { print a + b; }\nf(2, 5);"), vec!["7"]);
}

#[test]
fn a_block_shadows_and_restores() {
    assert_eq!(prints("var a = 1;\n{ var a = 2; print a; }\nprint a;"), vec!["2", "1"]);
}

#[test]
fn and_comes_before_or() {
    assert_eq!(prints("print true and false or true;"), vec!["true"]);
    assert_eq!(prints("print false and false or false;"), vec!["false"]);
}

#[test]
fn for_prints_as_the_while_it_stands_for() {
    let with_for = prints("for (var i = 0; i < 4; i = i + 1) { print i; print i * i; }");
    let by_hand = prints("var i = 0; while (i < 4) { { print i; print i * i; } i = i + 1; }");
    assert_eq!(with_for, by_hand);
    assert_eq!(with_for, vec!["0", "0", "1", "1", "2", "4", "3", "9"]);
}

#[test]
fn values_print_by_kind() {
    assert_eq!(
        prints("print nil; print true; print false; print \"text\"; print 1.50; print 100; print -0.5;"),
        vec!["nil", "true", "false", "text", "1.5", "100", "-0.5"]
    );
    assert_eq!(prints("fun f() {} print f; print test;"), vec!["function", "function"]);
}

#[test]
fn logic_operators_cut_short() {
    assert_eq!(prints("print true or undefined_name;"), vec!["true"]);
    assert_eq!(prints("print false and undefined_name;"), vec!["false"]);
    assert_eq!(prints("print false or true; print true and false;"), vec!["true", "false"]);
    assert_eq!(
        fails("print false or undefined_name;"),
        Error { line: 1, msg: "Undefined variable 'undefined_name'.".to_string() }
    );
}

#[test]
fn logic_operators_want_truth_values() {
    assert_eq!(
        fails("print 1 or true;"),
        Error { line: 1, msg: "Or operator expected type 'Bool', found 'Number' instead.".to_string() }
    );
    assert_eq!(
        fails("\nprint true and \"x\";"),
        Error { line: 2, msg: "And operator expected type 'Bool', found 'String' instead.".to_string() }
    );
    assert_eq!(
        fails("print nil and true;"),
        Error { line: 1, msg: "And operator expected type 'Bool', found 'Nil' instead.".to_string() }
    );
}

#[test]
fn comparisons_of_numbers() {
    assert_eq!(
        prints("print 1 < 2; print 2 < 1; print 1 <= 1; print 1 >= 2; print 2 > 1; print 1 > 1;"),
        vec!["true", "false", "true", "false", "true", "false"]
    );
    assert_eq!(
        prints("print 1 == 1; print 1 != 1; print 1 == 2; print 1 != 2; print 0 == -0;"),
        vec!["true", "false", "false", "true", "true"]
    );
}

#[test]
fn comparisons_of_texts() {
    assert_eq!(
        prints("print \"a\" < \"b\"; print \"b\" < \"a\"; print \"a\" < \"ab\"; print \"ab\" < \"a\"; print \"\" < \"\"; print \"B\" < \"a\";"),
        vec!["true", "false", "true", "false", "false", "true"]
    );
    assert_eq!(
        prints("print \"a\" <= \"a\"; print \"a\" >= \"b\"; print \"b\" > \"a\"; print \"a\" == \"a\"; print \"a\" != \"a\";"),
        vec!["true", "false", "true", "true", "false"]
    );
}

#[test]
fn values_of_different_kinds_are_unequal() {
    assert_eq!(
        prints("print 1 == \"1\"; print nil == false; print nil == nil; print true == true; print \"a\" != 1;"),
        vec!["false", "false", "true", "true", "true"]
    );
    assert_eq!(prints("fun f() {} print f == f; print f != f;"), vec!["false", "true"]);
}

#[test]
fn operators_want_their_kinds() {
    assert_eq!(
        fails("print 1 + \"a\";"),
        Error {
            line: 1,
            msg: "Plus operator expected type 'Number', found 'Number' and 'String' instead."
                .to_string()
        }
    );
    assert_eq!(
        fails("print \"a\" + 1;").msg,
        "Plus operator expected type 'String', found 'String' and 'Number' instead."
    );
    assert_eq!(
        fails("print nil + 1;").msg,
        "Plus operator expected type 'Number | String', found 'Nil' and 'Number' instead."
    );
    assert_eq!(
        fails("print \"a\" - \"b\";").msg,
        "Minus operator expected type 'Number', found 'String' and 'String' instead."
    );
    assert_eq!(
        fails("print 2 * true;").msg,
        "Star operator expected type 'Number', found 'Number' and 'Bool' instead."
    );
    assert_eq!(
        fails("print nil / 2;").msg,
        "Slash operator expected type 'Number', found 'Nil' and 'Number' instead."
    );
    assert_eq!(
        fails("print 1 < \"a\";").msg,
        "Less operator expected type 'Number', found 'Number' and 'String' instead."
    );
    assert_eq!(
        fails("print \"a\" >= 1;").msg,
        "GreaterEqual operator expected type 'String', found 'String' and 'Number' instead."
    );
    assert_eq!(
        fails("print true > false;").msg,
        "Greater operator expected type 'Number | String', found 'Bool' and 'Bool' instead."
    );
    assert_eq!(
        fails("print true <= 1;").msg,
        "LessEqual operator expected type 'Number | String', found 'Bool' and 'Number' instead."
    );
    assert_eq!(
        fails("\n\nprint -\"a\";"),
        Error { line: 3, msg: "Minus operator expected type 'Number', found 'String' instead.".to_string() }
    );
    assert_eq!(
        fails("print !1;").msg,
        "Bang operator expected type 'Bool', found 'Number' instead."
    );
}

#[test]
fn unary_operators() {
    assert_eq!(prints("print -3; print --3; print !true; print !!true; print -(1 + 2);"), vec!["-3", "3", "false", "true", "-3"]);
}

#[test]
fn a_number_that_cannot_be_read_is_a_complaint() {
    assert_eq!(
        fails("print 1;\nprint $12;"),
        Error { line: 2, msg: "Cannot parse '$12' into number (invalid float literal).".to_string() }
    );
}

#[test]
fn calling_what_is_no_function_fails_on_the_line_of_the_parenthesis() {
    assert_eq!(
        fails("var f = 1;\nf\n(\n2);"),
        Error { line: 3, msg: "Expected a function, found 'Number' instead".to_string() }
    );
    assert_eq!(
        fails("\"text\"();"),
        Error { line: 1, msg: "Expected a function, found 'String' instead".to_string() }
    );
}

#[test]
fn what_is_called_is_checked_before_the_arguments_are_evaluated() {
    let (out, result) = run("fun noisy() { print \"evaluated\"; } nil(noisy());");
    assert_eq!(out, Vec::<String>::new());
    assert_eq!(
        result,
        Err(vec![Error { line: 1, msg: "Expected a function, found 'Nil' instead".to_string() }])
    );
}

#[test]
fn arguments_are_evaluated_from_the_left() {
    assert_eq!(
        prints("fun show(x) { print x; } fun f(a, b, c) { print \"f\"; } f(show(1), show(2), show(3));"),
        vec!["1", "2", "3", "f"]
    );
}

#[test]
fn missing_arguments_are_nil_and_spare_ones_are_dropped() {
    assert_eq!(prints("fun f(a, b) { print a; print b; } f(1);"), vec!["1", "nil"]);
    assert_eq!(prints("fun f(a) { print a; } f(1, 2, 3);"), vec!["1"]);
    assert_eq!(prints("fun f() { print \"none\"; } f();"), vec!["none"]);
}

#[test]
fn the_value_of_a_call_is_nil() {
    assert_eq!(prints("fun f() { 1; } print f();"), vec!["nil"]);
    assert_eq!(prints("fun f() { 1; } print f() == nil;"), vec!["true"]);
}

#[test]
fn functions_call_themselves() {
    assert_eq!(
        prints("fun down(n) { if (n > 0) { print n; down(n - 1); } } down(3);"),
        vec!["3", "2", "1"]
    );
}

#[test]
fn names_are_looked_up_when_the_function_runs() {
    assert_eq!(
        prints("fun show() { print x; } var x = 1; show(); { var x = 2; show(); }"),
        vec!["1", "2"]
    );
}

#[test]
fn parameters_end_with_the_call() {
    assert_eq!(
        fails("fun f(a) { } f(1); print a;"),
        Error { line: 1, msg: "Undefined variable 'a'.".to_string() }
    );
}

#[test]
fn assignment_is_an_expression_and_reaches_outer_scopes() {
    assert_eq!(
        prints("var a = 1; var b; { b = a = 5; var a = 7; a = 8; print a; } print a; print b;"),
        vec!["8", "5", "5"]
    );
    assert_eq!(
        fails("a = 1;"),
        Error { line: 1, msg: "Undefined variable 'a'.".to_string() }
    );
}

#[test]
fn if_picks_a_branch() {
    assert_eq!(
        prints("if (1 < 2) print \"then\"; else print \"else\"; if (1 > 2) print \"then\"; else print \"else\"; if (false) print \"never\";"),
        vec!["then", "else"]
    );
}

#[test]
fn conditions_want_truth_values() {
    assert_eq!(
        fails("\nif (1) print 1;"),
        Error { line: 2, msg: "If statement condition must be 'Bool', found 'Number' instead.".to_string() }
    );
    assert_eq!(
        fails("var n = 0;\n\nwhile (nil) print 1;"),
        Error { line: 3, msg: "While statement condition must be 'Bool', found 'Nil' instead.".to_string() }
    );
    assert_eq!(
        fails("for (;\"x\";) print 1;").msg,
        "While statement condition must be 'Bool', found 'String' instead."
    );
}

#[test]
fn while_repeats_until_its_condition_fails() {
    assert_eq!(
        prints("var n = 3; while (n > 0) { print n; n = n - 1; } print \"done\";"),
        vec!["3", "2", "1", "done"]
    );
    assert_eq!(prints("while (false) print 1;"), Vec::<String>::new());
}

#[test]
fn the_standard_function_prints_its_arguments() {
    assert_eq!(
        prints("test(1, \"two\", nil, true);"),
        vec!["test", "Number(1.0)", "String(\"two\")", "Nil", "Bool(true)"]
    );
    assert_eq!(prints("print test();"), vec!["test", "nil"]);
}

#[test]
fn a_complaint_stops_the_run_and_closes_its_scopes() {
    let mut interpreter = Interpreter::new();
    let mut out = Vec::new();
    let result = feed(
        &mut interpreter,
        "var a = 1; { var b = 2; { print b; fun f(x) { { print x + nil; } } f(3); } } print \"never\";",
        1,
        &mut out,
    );
    assert_eq!(out, vec!["2"]);
    assert_eq!(
        result,
        Err(vec![Error {
            line: 1,
            msg: "Plus operator expected type 'Number', found 'Number' and 'Nil' instead."
                .to_string()
        }])
    );
    assert_eq!(interpreter.worker.stack.height, 0);
    assert!(interpreter.worker.stack.next.is_none());
    assert!(interpreter.worker.frames.is_empty());
    assert_eq!(interpreter.worker.focus, Focus::Idle);
    assert_eq!(feed(&mut interpreter, "print a;", 2, &mut out), Ok(()));
    assert_eq!(out, vec!["2", "1"]);
    assert_eq!(
        feed(&mut interpreter, "print b;", 3, &mut out),
        Err(vec![Error { line: 3, msg: "Undefined variable 'b'.".to_string() }])
    );
}

#[test]
fn scopes_last_from_one_program_to_the_next() {
    let mut interpreter = Interpreter::new();
    let mut out = Vec::new();
    assert_eq!(feed(&mut interpreter, "var a = 1;", 1, &mut out), Ok(()));
    assert!(!interpreter.error_flag);
    assert_eq!(feed(&mut interpreter, "fun twice(x) { print x + x; }", 2, &mut out), Ok(()));
    assert_eq!(feed(&mut interpreter, "twice(a + 1);", 3, &mut out), Ok(()));
    assert_eq!(out, vec!["4"]);
}

#[test]
fn a_program_with_complaints_is_not_run() {
    let mut interpreter = Interpreter::new();
    let mut out = Vec::new();
    let result = feed(&mut interpreter, "print 1; print 2 print 3;", 5, &mut out);
    assert_eq!(out, Vec::<String>::new());
    assert!(interpreter.error_flag);
    assert_eq!(
        result,
        Err(vec![Error {
            line: 5,
            msg: "Expect ';' after print statement. Found 'Token { kind: Print, line: 5 }'"
                .to_string()
        }])
    );
    assert_eq!(interpreter.worker.step(Reply::Nothing), Action::Finished);
    let result = feed(&mut interpreter, "print @;", 6, &mut out);
    assert_eq!(result, Err(vec![Error { line: 6, msg: "Unknown character '@'".to_string() }]));
    assert_eq!(feed(&mut interpreter, "print 1;", 6, &mut out), Ok(()));
    assert!(!interpreter.error_flag);
    assert_eq!(out, vec!["1"]);
}

#[test]
fn the_worker_asks_the_host_for_numbers() {
    let mut interpreter = Interpreter::new();
    interpreter.run("print 2 * 3;".to_string(), 1).unwrap();
    let mut asked = Vec::new();
    let mut reply = Reply::Nothing;
    loop {
        match interpreter.worker.step(reply) {
            Action::Finished => break,
            Action::Continue => reply = Reply::Nothing,
            action => {
                asked.push(format!("{:?}", action));
                reply = answer(action, &mut Vec::new());
            },
        }
    }
    assert_eq!(
        asked,
        vec![
            "Parse(\"2\")".to_string(),
            "Parse(\"3\")".to_string(),
            format!("Calculate(Multiply, {}, {})", 2f64.to_bits(), 3f64.to_bits()),
            format!("PrintNumber({})", 6f64.to_bits()),
        ]
    );
}

#[test]
fn an_answer_of_the_wrong_kind_gives_the_run_up() {
    let mut interpreter = Interpreter::new();
    interpreter.run("{ print 1 + 2; }".to_string(), 1).unwrap();
    let mut reply = Reply::Nothing;
    let failed = loop {
        match interpreter.worker.step(reply) {
            Action::Calculate(_, _, _) => reply = Reply::Relation(Relation::Less),
            Action::Failed(e) => break e,
            action => reply = answer(action, &mut Vec::new()),
        }
    };
    assert_eq!(failed, Error { line: 0, msg: "The host gave an answer of the wrong kind.".to_string() });
    assert_eq!(interpreter.worker.stack.height, 0);
    assert_eq!(interpreter.worker.step(Reply::Nothing), Action::Finished);
}

#[test]
fn a_complaint_of_the_host_gives_the_run_up() {
    let mut interpreter = Interpreter::new();
    wendell::api::define_builtin(&mut interpreter.worker.stack, "other");
    let mut out = Vec::new();
    assert_eq!(
        feed(&mut interpreter, "{ other(1); }", 1, &mut out),
        Err(vec![Error { line: 0, msg: "No function 'other'.".to_string() }])
    );
    assert_eq!(interpreter.worker.stack.height, 0);
}

#[test]
fn unordered_numbers_are_neither_less_nor_equal() {
    assert_eq!(
        prints("var nan = 0 / 0; print nan == nan; print nan != nan; print nan < 1; print nan <= 1; print nan > 1; print nan >= 1;"),
        vec!["false", "true", "false", "false", "true", "true"]
    );
}

#[test]
fn nodes_built_by_hand_that_no_program_spells() {
    let mut interpreter = Interpreter::new();
    let run_one = |interpreter: &mut Interpreter, stmt: Stmt| {
        interpreter.worker.run(&[stmt]);
        finish(interpreter, &mut Vec::new())
    };
    assert_eq!(
        run_one(&mut interpreter, Stmt::new_expression(Expr::Empty)),
        Err(Error { line: 0, msg: "Found empty Expr.".to_string() })
    );
    let plus = Token::new(TokenKind::Plus, 4);
    assert_eq!(
        run_one(&mut interpreter, Stmt::new_expression(Expr::new_literal(plus.clone()))),
        Err(Error { line: 4, msg: "Found 'Plus' as a literal.".to_string() })
    );
    let nil = || Box::new(Expr::new_literal(Token::new(TokenKind::Nil, 4)));
    assert_eq!(
        run_one(&mut interpreter, Stmt::new_expression(Expr::new_unary(plus.clone(), nil()))),
        Err(Error { line: 4, msg: "Plus operator is not a unary operator.".to_string() })
    );
    let comma = Token::new(TokenKind::Comma, 6);
    assert_eq!(
        run_one(&mut interpreter, Stmt::new_expression(Expr::new_binary(nil(), comma, nil()))),
        Err(Error { line: 6, msg: "Comma operator is not a binary operator.".to_string() })
    );
    assert_eq!(
        run_one(&mut interpreter, Stmt::new_var(plus.clone(), *nil())),
        Err(Error { line: 4, msg: "Expecting an identifier, found 'Plus' instead.".to_string() })
    );
    let f = Token::new(TokenKind::Identifier("f".to_string()), 1);
    let declared = Stmt::new_function(f.clone(), vec![plus], Box::new(Stmt::new_block(vec![])));
    let called = Stmt::new_expression(Expr::new_call(
        Box::new(Expr::new_variable(f)),
        Token::new(TokenKind::LeftParen, 2),
        vec![],
    ));
    interpreter.worker.run(&[declared, called]);
    assert_eq!(
        finish(&mut interpreter, &mut Vec::new()),
        Err(Error { line: 4, msg: "Expecting an identifier, found 'Plus' instead.".to_string() })
    );
    assert_eq!(interpreter.worker.stack.height, 0);
}

#[test]
fn a_single_statement_is_started_with_execute() {
    let mut interpreter = Interpreter::new();
    let stmt = Stmt::new_print(Expr::new_literal(Token::new(
        TokenKind::StringLiteral("once".to_string()),
        1,
    )));
    assert_eq!(interpreter.worker.execute(&stmt), Ok(Action::Continue));
    let mut out = Vec::new();
    assert_eq!(finish(&mut interpreter, &mut out), Ok(()));
    assert_eq!(out, vec!["once"]);
    let expr = Expr::new_literal(Token::new(TokenKind::True, 1));
    assert_eq!(interpreter.worker.evaluate(&expr), Ok(Action::Continue));
    assert_eq!(interpreter.worker.focus, Focus::Value(Instance::Bool(true)));
}

#[test]
fn the_standard_function_is_a_function_of_the_host() {
    let interpreter = Interpreter::new();
    assert_eq!(
        interpreter.worker.stack.get(&Token::new(TokenKind::Identifier("test".to_string()), 1)),
        Ok(Instance::Function(Callable::Builtin("test".to_string())))
    );
}

#[test]
fn complaints_and_prompts_are_shown_to_the_user() {
    let e = Error { line: 12, msg: "Unterminated string.".to_string() };
    assert_eq!(Interpreter::report(&e), "[line 12] Error: Unterminated string.");
    assert_eq!(e.report(), "[line 12] Error: Unterminated string.");
    assert_eq!(Interpreter::prompt(1), "   1> ");
    assert_eq!(Interpreter::prompt(42), "  42> ");
    assert_eq!(Interpreter::prompt(999), " 999> ");
    assert_eq!(Interpreter::prompt(1000), "1000> ");
    assert_eq!(Interpreter::prompt(123456), "123456> ");
    assert_eq!(Interpreter::prompt(0), "   0> ");
}

#[test]
fn advance_steps_up_to_the_next_request_or_the_limit() {
    let mut interpreter = Interpreter::new();
    interpreter.run("print 1 + 2 * 3;".to_string(), 1).unwrap();
    let worker = &mut interpreter.worker;
    assert_eq!(worker.advance(Reply::Nothing, 100), Action::Parse("1".to_string()));
    assert_eq!(worker.advance(Reply::Number(1f64.to_bits()), 100), Action::Parse("2".to_string()));
    assert_eq!(worker.advance(Reply::Number(2f64.to_bits()), 100), Action::Parse("3".to_string()));
    assert_eq!(
        worker.advance(Reply::Number(3f64.to_bits()), 100),
        Action::Calculate(Operation::Multiply, 2f64.to_bits(), 3f64.to_bits())
    );
    assert_eq!(
        worker.advance(Reply::Number(6f64.to_bits()), 100),
        Action::Calculate(Operation::Add, 1f64.to_bits(), 6f64.to_bits())
    );
    assert_eq!(worker.advance(Reply::Number(7f64.to_bits()), 100), Action::PrintNumber(7f64.to_bits()));
    assert_eq!(worker.advance(Reply::Nothing, 100), Action::Finished);

    interpreter.run("print (1 + 2) * 3;".to_string(), 1).unwrap();
    let worker = &mut interpreter.worker;
    assert_eq!(worker.advance(Reply::Nothing, 100), Action::Parse("1".to_string()));
    assert_eq!(worker.advance(Reply::Number(1f64.to_bits()), 100), Action::Parse("2".to_string()));
    assert_eq!(
        worker.advance(Reply::Number(2f64.to_bits()), 100),
        Action::Calculate(Operation::Add, 1f64.to_bits(), 2f64.to_bits())
    );

    interpreter.run("while (true) {}".to_string(), 1).unwrap();
    assert_eq!(interpreter.worker.advance(Reply::Nothing, 0), Action::Continue);
    assert_eq!(interpreter.worker.advance(Reply::Nothing, 1000), Action::Continue);
    let mut steps = 0;
    while interpreter.worker.stack.height == 0 {
        assert_eq!(interpreter.worker.step(Reply::Nothing), Action::Continue);
        steps += 1;
        assert!(steps < 10);
    }
    assert_eq!(interpreter.worker.stack.height, 1);
    interpreter.worker.give_up();
    assert_eq!(interpreter.worker.stack.height, 0);
    assert!(interpreter.worker.frames.is_empty());
    assert_eq!(interpreter.worker.focus, Focus::Idle);
    assert_eq!(interpreter.worker.step(Reply::Nothing), Action::Finished);
}

#[test]
fn a_worker_that_was_put_together_wrongly_says_so() {
    let mut interpreter = Interpreter::new();
    interpreter.worker.focus = Focus::Value(Instance::Nil);
    assert_eq!(
        interpreter.worker.step(Reply::Nothing),
        Action::Failed(Error { line: 0, msg: "The worker lost track of its work.".to_string() })
    );
    interpreter.worker.frames.push(Frame::Discard);
    interpreter.worker.focus = Focus::Done;
    assert_eq!(
        interpreter.worker.step(Reply::Nothing),
        Action::Failed(Error { line: 0, msg: "The worker lost track of its work.".to_string() })
    );
    assert!(interpreter.worker.frames.is_empty());
    interpreter.worker.frames.push(Frame::Scope);
    interpreter.worker.focus = Focus::Done;
    assert_eq!(
        interpreter.worker.step(Reply::Nothing),
        Action::Failed(Error { line: 0, msg: "Cannot pop global scope".to_string() })
    );
    assert_eq!(interpreter.worker.stack.height, 0);
    assert_eq!(interpreter.worker.step(Reply::Nothing), Action::Finished);
}

#[test]
fn primitives_compute_with_the_answers_of_the_host() {
    let plus = Token::new(TokenKind::Plus, 3);
    let one = Instance::Number(1f64.to_bits());
    let two = Instance::Number(2f64.to_bits());
    let three = Reply::Number(3f64.to_bits());
    assert_eq!(
        Worker::primitive_add(&plus, &one, &two, &three),
        Ok(Instance::Number(3f64.to_bits()))
    );
    assert_eq!(
        Worker::primitive_add(
            &plus,
            &Instance::String("a".to_string()),
            &Instance::String("b".to_string()),
            &Reply::Nothing
        ),
        Ok(Instance::String("ab".to_string()))
    );
    assert_eq!(
        Worker::primitive_eq(&one, &two, &Reply::Relation(Relation::Equal)),
        Ok(Instance::Bool(true))
    );
    assert_eq!(
        Worker::primitive_less(&plus, &one, &two, &Reply::Relation(Relation::Greater)),
        Ok(Instance::Bool(false))
    );
    assert_eq!(
        Worker::primitive_less(&plus, &one, &two, &Reply::Nothing),
        Err(Error { line: 0, msg: "The host gave an answer of the wrong kind.".to_string() })
    );
    assert_eq!(
        Worker::raw_not(Ok(Instance::Nil)),
        Err(Error { line: 0, msg: "raw_not was called on none Bool".to_string() })
    );
    assert_eq!(
        Worker::raw_or(Ok(Instance::Bool(false)), Ok(Instance::Nil)),
        Err(Error { line: 0, msg: "raw_or was called on none Bool".to_string() })
    );
    assert_eq!(
        Worker::raw_or(Ok(Instance::Bool(false)), Ok(Instance::Bool(true))),
        Ok(Instance::Bool(true))
    );
    assert_eq!(
        Worker::asks_binary(&plus, &one, &two),
        Some(Action::Calculate(Operation::Add, 1f64.to_bits(), 2f64.to_bits()))
    );
    assert_eq!(Worker::asks_binary(&plus, &one, &Instance::Nil), None);
    assert!(Worker::text_less(&"abc".to_string(), &"abd".to_string()));
    assert!(!Worker::text_less(&"abc".to_string(), &"abc".to_string()));
    assert!(Worker::text_less(&"Z".to_string(), &"a".to_string()));
    assert!(Worker::text_less(&"z".to_string(), &"é".to_string()));
}
