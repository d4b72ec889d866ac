use lox::ast::Stmt;
use lox::backend::{
    Action, ArithOp, Event, Interpreter, Number, Request, RuntimeError, RuntimeErrorKind, Value,
};
use lox::frontend::{ParserError, ScannerErrorKind, SyntaxError, TokenType};
use lox::{Lox, LoxError};

fn number(value: f64) -> Number {
    Number::from_bits(value.to_bits())
}

fn float(n: Number) -> f64 {
    f64::from_bits(n.to_bits())
}

/// What the caller of the machine owes it: the answer to a request.
fn answer(request: Request) -> Event {
    match request {
        Request::ParseNumber(lexeme) => Event::Number(number(lexeme.parse::<f64>().unwrap())),
        Request::Arithmetic(op, left, right) => {
            let (l, r) = (float(left), float(right));
            Event::Number(number(match op {
                ArithOp::Add => l + r,
                ArithOp::Subtract => l - r,
                ArithOp::Multiply => l * r,
                ArithOp::Divide => l / r,
            }))
        }
        Request::FormatNumber(n) => Event::Text(format!("{}", float(n))),
    }
}

fn execute(
    interpreter: &mut Interpreter,
    statements: &[Stmt],
    output: &mut Vec<String>,
) -> Result<(), RuntimeError> {
    let mut run = interpreter.interpret(statements);
    let mut event = Event::Resume;
    loop {
        match interpreter.advance(&mut run, event, 64) {
            Action::Continue => event = Event::Resume,
            Action::Print(line) => {
                output.push(line);
                event = Event::Resume;
            }
            Action::Ask(request) => event = answer(request),
            Action::Finished(result) => return result,
        }
    }
}

fn run_in(interpreter: &mut Interpreter, source: &str, output: &mut Vec<String>) -> Result<(), LoxError> {
    let statements = Lox::load(source)?;
    execute(interpreter, &statements, output).map_err(LoxError::Runtime)
}

fn run(source: &str) -> (Vec<String>, Result<(), LoxError>) {
    let mut interpreter = Interpreter::new();
    let mut output = Vec::new();
    let result = run_in(&mut interpreter, source, &mut output);
    (output, result)
}

fn lines(source: &str) -> Vec<String> {
    let (output, result) = run(source);
    assert!(result.is_ok(), "{:?}", result);
    output
}

fn runtime_error(source: &str) -> (Vec<String>, RuntimeErrorKind) {
    match run(source) {
        (output, Err(LoxError::Runtime(e))) => (output, e.kind),
        (_, other) => panic!("{:?}", other),
    }
}

#[test]
fn prints_a_sum() {
    assert_eq!(lines("print 1 + 2;"), vec!["3"]);
}

#[test]
fn inner_variable_shadows_and_outer_is_restored() {
    assert_eq!(lines("var a = 1; { var a = 2; print a; } print a;"), vec!["2", "1"]);
}

#[test]
fn string_plus_number_concatenates() {
    assert_eq!(lines("print \"foo\" + 1;"), vec!["foo1"]);
    assert_eq!(lines("print 1 + \"foo\";"), vec!["1foo"]);
    assert_eq!(lines("print 1.5 + \"\";"), vec!["1.5"]);
}

#[test]
fn number_never_equals_string() {
    assert_eq!(lines("print 1 == \"1\";"), vec!["false"]);
    assert_eq!(lines("print 1 != \"1\";"), vec!["true"]);
}

#[test]
fn for_loop_counts() {
    assert_eq!(lines("for (var i = 0; i < 3; i = i + 1) print i;"), vec!["0", "1", "2"]);
}

#[test]
fn reading_an_undeclared_name_fails_without_output() {
    let (output, kind) = runtime_error("print x;");
    assert!(output.is_empty());
    assert!(matches!(kind, RuntimeErrorKind::UndefinedVariable { name } if name == "x"));
}

#[test]
fn assigning_an_undeclared_name_fails() {
    let (output, kind) = runtime_error("x = 1;");
    assert!(output.is_empty());
    assert!(matches!(kind, RuntimeErrorKind::UndefinedVariable { name } if name == "x"));
    let (_, kind) = runtime_error("var a = 1; { { b = a; } }");
    assert!(matches!(kind, RuntimeErrorKind::UndefinedVariable { name } if name == "b"));
}

#[test]
fn output_before_an_error_stands() {
    let (output, kind) = runtime_error("print 1; print x; print 2;");
    assert_eq!(output, vec!["1"]);
    assert!(matches!(kind, RuntimeErrorKind::UndefinedVariable { .. }));
}

#[test]
fn arithmetic_and_precedence() {
    assert_eq!(lines("print 1 + 2 * 3;"), vec!["7"]);
    assert_eq!(lines("print (1 + 2) * 3;"), vec!["9"]);
    assert_eq!(lines("print 10 - 4 - 3;"), vec!["3"]);
    assert_eq!(lines("print 7 / 2;"), vec!["3.5"]);
    assert_eq!(lines("print -3 + 1;"), vec!["-2"]);
    assert_eq!(lines("print 0.1 + 0.2;"), vec!["0.30000000000000004"]);
}

#[test]
fn division_by_zero_is_no_error() {
    assert_eq!(lines("print 1 / 0;"), vec!["inf"]);
    assert_eq!(lines("print -1 / 0;"), vec!["-inf"]);
    assert_eq!(lines("print 0 / 0;"), vec!["NaN"]);
    assert_eq!(lines("print 0 / 0 == 0 / 0;"), vec!["false"]);
    assert_eq!(lines("print 0 / 0 != 0 / 0;"), vec!["true"]);
}

#[test]
fn comparisons() {
    assert_eq!(lines("print 1 < 2; print 2 < 1; print 2 <= 2;"), vec!["true", "false", "true"]);
    assert_eq!(lines("print 1 > 2; print 2 > 1; print 2 >= 3;"), vec!["false", "true", "false"]);
    assert_eq!(lines("print -1 < 0; print -2 < -1; print -0 == 0;"), vec!["true", "true", "true"]);
    assert_eq!(lines("print 0 / 0 < 1; print 0 / 0 >= 1;"), vec!["false", "false"]);
}

#[test]
fn operators_reject_operands_of_the_wrong_kind() {
    for source in [
        "print -\"a\";",
        "print 1 - \"a\";",
        "print \"a\" * 2;",
        "print nil / 1;",
        "print true + 1;",
        "print nil + nil;",
        "print \"a\" < \"b\";",
        "print 1 < true;",
        "print \"a\" - \"b\";",
    ] {
        let (output, kind) = runtime_error(source);
        assert!(output.is_empty(), "{source}");
        assert!(matches!(kind, RuntimeErrorKind::InvalidOperation), "{source}");
    }
}

#[test]
fn plus_with_a_string_takes_any_operand() {
    assert_eq!(lines("print \"a\" + \"b\";"), vec!["ab"]);
    assert_eq!(lines("print \"a\" + true;"), vec!["atrue"]);
    assert_eq!(lines("print nil + \"b\";"), vec!["nilb"]);
    assert_eq!(lines("print false + \"\";"), vec!["false"]);
}

#[test]
fn equality_of_values() {
    assert_eq!(lines("print nil == nil; print true == true; print \"a\" == \"a\";"), vec!["true"; 3]);
    assert_eq!(lines("print nil == false; print 0 == false; print \"\" == nil;"), vec!["false"; 3]);
    assert_eq!(lines("print 1 == 1; print 1 == 2; print \"a\" != \"b\";"), vec!["true", "false", "true"]);
}

#[test]
fn only_nil_and_false_are_falsy() {
    let source = "if (0) print \"t\"; else print \"f\";
        if (\"\") print \"t\"; else print \"f\";
        if (nil) print \"t\"; else print \"f\";
        if (false) print \"t\"; else print \"f\";
        if (true) print \"t\"; else print \"f\";
        if (-1) print \"t\"; else print \"f\";";
    assert_eq!(lines(source), vec!["t", "t", "f", "f", "t", "t"]);
    assert_eq!(lines("print !nil; print !0; print !\"\"; print !!nil; print !!1;"),
        vec!["true", "false", "false", "false", "true"]);
}

#[test]
fn logical_operators_select_an_operand() {
    assert_eq!(lines("print nil or \"yes\";"), vec!["yes"]);
    assert_eq!(lines("print 1 or 2;"), vec!["1"]);
    assert_eq!(lines("print 1 and 2;"), vec!["2"]);
    assert_eq!(lines("print nil and 2;"), vec!["nil"]);
    assert_eq!(lines("print false or false or 3;"), vec!["3"]);
    assert_eq!(lines("print 1 and nil or \"x\";"), vec!["x"]);
}

#[test]
fn logical_operators_short_circuit() {
    assert_eq!(lines("print false and missing;"), vec!["false"]);
    assert_eq!(lines("print true or missing;"), vec!["true"]);
    assert_eq!(lines("var a = 1; false and (a = 2); print a;"), vec!["1"]);
    let (_, kind) = runtime_error("print true and missing;");
    assert!(matches!(kind, RuntimeErrorKind::UndefinedVariable { .. }));
}

#[test]
fn assignment_gives_the_assigned_value() {
    assert_eq!(lines("var a; var b; a = b = 3; print a; print b;"), vec!["3", "3"]);
    assert_eq!(lines("var a = 1; print a = 2; print a;"), vec!["2", "2"]);
}

#[test]
fn assignment_reaches_the_scope_that_holds_the_name() {
    assert_eq!(lines("var a = 1; { a = 2; } print a;"), vec!["2"]);
    assert_eq!(lines("var a = 1; { var a = 5; a = 6; print a; } print a;"), vec!["6", "1"]);
}

#[test]
fn variable_without_initializer_is_nil() {
    assert_eq!(lines("var a; print a;"), vec!["nil"]);
}

#[test]
fn redeclaration_in_one_scope_overwrites() {
    assert_eq!(lines("var a = 1; var a = 2; print a;"), vec!["2"]);
}

#[test]
fn right_operand_is_evaluated_first() {
    assert_eq!(lines("var a = 0; print (a = 1) + (a = 2); print a;"), vec!["3", "1"]);
}

#[test]
fn while_loop_runs_while_the_condition_is_truthy() {
    assert_eq!(lines("var i = 3; while (i > 0) { print i; i = i - 1; }"), vec!["3", "2", "1"]);
    assert_eq!(lines("while (false) print 1; print 2;"), vec!["2"]);
}

#[test]
fn for_loop_parts_may_be_left_out() {
    assert_eq!(lines("var i = 0; for (; i < 2;) { print i; i = i + 1; }"), vec!["0", "1"]);
    assert_eq!(lines("var i = 0; for (i = 5; i < 7; i = i + 1) print i; print i;"), vec!["5", "6", "7"]);
}

#[test]
fn for_loop_variable_is_gone_after_the_loop() {
    let (output, kind) = runtime_error("for (var i = 0; i < 1; i = i + 1) print i; print i;");
    assert_eq!(output, vec!["0"]);
    assert!(matches!(kind, RuntimeErrorKind::UndefinedVariable { name } if name == "i"));
}

#[test]
fn for_loop_without_condition_ends_with_an_error_only() {
    let (output, kind) = runtime_error("for (var i = 0;; i = i + 1) { print i; if (i >= 2) missing; }");
    assert_eq!(output, vec!["0", "1", "2"]);
    assert!(matches!(kind, RuntimeErrorKind::UndefinedVariable { .. }));
}

#[test]
fn else_belongs_to_the_nearest_if() {
    assert_eq!(lines("if (true) if (false) print 1; else print 2;"), vec!["2"]);
    assert_eq!(lines("if (false) if (true) print 1; else print 2; print 3;"), vec!["3"]);
}

#[test]
fn strings_keep_line_breaks() {
    assert_eq!(lines("print \"a\nb\";"), vec!["a\nb"]);
}

#[test]
fn scopes_are_released_when_a_block_fails() {
    let mut interpreter = Interpreter::new();
    let mut output = Vec::new();
    let result = run_in(&mut interpreter, "var a = 1; { var b = 2; { var c = 3; print c + nil; } }", &mut output);
    assert!(matches!(result, Err(LoxError::Runtime(_))));
    assert_eq!(interpreter.env().depth(), 1);
    // The session goes on: the global scope is as the failed run left it.
    let result = run_in(&mut interpreter, "print a; { var a = 9; } print a;", &mut output);
    assert!(result.is_ok());
    assert_eq!(output, vec!["1", "1"]);
    let result = run_in(&mut interpreter, "print b;", &mut output);
    assert!(matches!(result, Err(LoxError::Runtime(_))));
    let result = run_in(&mut interpreter, "for (var i = 0; i < 3; i = i + 1) { missing; }", &mut output);
    assert!(matches!(result, Err(LoxError::Runtime(_))));
    assert_eq!(interpreter.env().depth(), 1);
}

#[test]
fn a_lexical_error_keeps_the_program_from_running() {
    let (output, result) = run("print 1; @");
    assert!(output.is_empty());
    match result {
        Err(LoxError::Syntax(SyntaxError::Scanner(e))) => {
            assert_eq!(e.kind, ScannerErrorKind::UnknownToken { character: '@' });
            assert_eq!(e.span.line, 1);
        }
        other => panic!("{:?}", other),
    }
}

#[test]
fn a_syntax_error_keeps_the_program_from_running() {
    let (output, result) = run("print 1; print ;");
    assert!(output.is_empty());
    assert!(matches!(result, Err(LoxError::Syntax(SyntaxError::Parser(ParserError::ExpectedExpression)))));
    let (_, result) = run("print 1");
    assert!(matches!(
        result,
        Err(LoxError::Syntax(SyntaxError::Parser(ParserError::ExpectedToken { token_type: TokenType::Semicolon })))
    ));
}

#[test]
fn reading_reports_every_lexical_error_and_the_syntax_error() {
    let reading = Lox::read("print @ 1 #\n\"open");
    assert_eq!(reading.errors.len(), 3);
    assert_eq!(reading.errors[0].kind, ScannerErrorKind::UnknownToken { character: '@' });
    assert_eq!(reading.errors[1].kind, ScannerErrorKind::UnknownToken { character: '#' });
    assert_eq!(reading.errors[2].kind, ScannerErrorKind::UnterminatedString);
    assert_eq!(reading.errors[2].span.line, 2);
    assert!(matches!(reading.program, Err(ParserError::ExpectedToken { token_type: TokenType::Semicolon })));
    // The lexical error comes first.
    assert!(matches!(reading.into_program(), Err(LoxError::Syntax(SyntaxError::Scanner(_)))));
}

#[test]
fn an_event_that_is_no_answer_leaves_the_request_standing() {
    let statements = Lox::load("print 2 * 3;").unwrap();
    let mut interpreter = Interpreter::new();
    let mut run = interpreter.interpret(&statements);
    let mut action = interpreter.advance(&mut run, Event::Resume, 100);
    assert!(matches!(&action, Action::Ask(Request::ParseNumber(lexeme)) if lexeme == "3"));
    action = interpreter.step(&mut run, Event::Resume);
    assert!(matches!(&action, Action::Ask(Request::ParseNumber(lexeme)) if lexeme == "3"));
    action = interpreter.step(&mut run, Event::Text(String::from("3")));
    assert!(matches!(&action, Action::Ask(Request::ParseNumber(lexeme)) if lexeme == "3"));
    action = interpreter.advance(&mut run, Event::Number(number(3.0)), 100);
    assert!(matches!(&action, Action::Ask(Request::ParseNumber(lexeme)) if lexeme == "2"));
    action = interpreter.advance(&mut run, Event::Number(number(2.0)), 100);
    match &action {
        Action::Ask(Request::Arithmetic(ArithOp::Multiply, l, r)) => {
            assert_eq!(float(*l), 2.0);
            assert_eq!(float(*r), 3.0);
        }
        other => panic!("{:?}", other),
    }
    action = interpreter.advance(&mut run, Event::Number(number(6.0)), 100);
    assert!(matches!(&action, Action::Ask(Request::FormatNumber(n)) if float(*n) == 6.0));
    action = interpreter.advance(&mut run, Event::Text(String::from("6")), 100);
    assert!(matches!(&action, Action::Print(line) if line == "6"));
    action = interpreter.advance(&mut run, Event::Resume, 100);
    assert!(matches!(action, Action::Finished(Ok(()))));
    // A finished run stays finished.
    assert!(matches!(interpreter.step(&mut run, Event::Resume), Action::Finished(Ok(()))));
}

#[test]
fn advance_stops_when_its_budget_is_spent() {
    let statements = Lox::load("while (true) {}").unwrap();
    let mut interpreter = Interpreter::new();
    let mut run = interpreter.interpret(&statements);
    for _ in 0..50 {
        assert!(matches!(interpreter.advance(&mut run, Event::Resume, 1000), Action::Continue));
    }
    assert!(interpreter.env().depth() <= 2);
}

#[test]
fn evaluate_gives_the_value_of_an_expression() {
    let statements = Lox::load("1 + 2 == 3;").unwrap();
    let Stmt::Expression(expression) = &statements[0] else { panic!() };
    let mut interpreter = Interpreter::new();
    let mut run = interpreter.evaluate(expression);
    assert!(run.value().is_none());
    let mut event = Event::Resume;
    loop {
        match interpreter.advance(&mut run, event, 10) {
            Action::Continue => event = Event::Resume,
            Action::Ask(request) => event = answer(request),
            Action::Finished(result) => {
                assert!(result.is_ok());
                break;
            }
            Action::Print(_) => unreachable!(),
        }
    }
    assert_eq!(run.value(), Some(&Value::Bool(true)));
}
