use minilang::ast::Expr;
use minilang::ast::Operator;
use minilang::ast::Statement;
use minilang::interpreter::Interpreter;
use minilang::lexer::Lexer;
use minilang::parser::Parser;

fn run_program(input: &str) -> (Interpreter, i64) {
    let mut lexer = Lexer::new(input);
    let tokens = lexer.lex().unwrap();
    let mut parser = Parser::new(tokens);
    let stmts = parser.parse_statements().unwrap();
    let mut interpreter = Interpreter::new();
    let mut last = 0;
    for stmt in &stmts {
        last = interpreter.interpret_statement(stmt);
    }
    (interpreter, last)
}

#[test]
fn unbound_variable_defaults_to_zero() {
    let mut interpreter = Interpreter::new();
    let value = interpreter.interpret_expression(&Expr::Variable(String::from("z")));
    assert_eq!(value, 0);
}

#[test]
fn flat_precedence_evaluates_to_fourteen() {
    // (3 + 4) * 2 under the flat grammar, not 3 + (4 * 2).
    let (_, value) = run_program("let r = 3 + 4 * 2;");
    assert_eq!(value, 14);
}

#[test]
fn if_zero_takes_else_branch() {
    let mut interpreter = Interpreter::new();
    let stmt = Statement::If(
        Box::new(Expr::Integer(0)),
        Box::new(Statement::Expression(Expr::Integer(1))),
        Some(Box::new(Statement::Expression(Expr::Integer(2)))),
    );
    assert_eq!(interpreter.interpret_statement(&stmt), 2);
}

#[test]
fn if_nonzero_takes_then_branch() {
    let mut interpreter = Interpreter::new();
    let stmt = Statement::If(
        Box::new(Expr::Integer(7)),
        Box::new(Statement::Expression(Expr::Integer(1))),
        Some(Box::new(Statement::Expression(Expr::Integer(2)))),
    );
    assert_eq!(interpreter.interpret_statement(&stmt), 1);
}

#[test]
fn if_zero_without_else_yields_zero() {
    let mut interpreter = Interpreter::new();
    let stmt = Statement::If(
        Box::new(Expr::Integer(0)),
        Box::new(Statement::Expression(Expr::Integer(1))),
        None,
    );
    assert_eq!(interpreter.interpret_statement(&stmt), 0);
}

#[test]
fn block_yields_last_statement_value() {
    let mut interpreter = Interpreter::new();
    let block = Statement::Block(vec![
        Statement::Declaration(String::from("x"), Expr::Integer(1)),
        Statement::Declaration(String::from("y"), Expr::Integer(2)),
    ]);
    assert_eq!(interpreter.interpret_statement(&block), 2);
}

#[test]
fn empty_block_yields_zero() {
    let mut interpreter = Interpreter::new();
    assert_eq!(interpreter.interpret_statement(&Statement::Block(vec![])), 0);
}

#[test]
fn arithmetic_exact_values() {
    let (_, diff) = run_program("let d = 10 - 3;");
    assert_eq!(diff, 7);
    let (_, prod) = run_program("let p = 6 * 7;");
    assert_eq!(prod, 42);
}

#[test]
fn comparisons_yield_one_or_zero() {
    assert_eq!(run_program("let a = 2 > 1;").1, 1);
    assert_eq!(run_program("let b = 1 > 2;").1, 0);
    assert_eq!(run_program("let c = 1 < 2;").1, 1);
    assert_eq!(run_program("let d = 3 == 3;").1, 1);
    assert_eq!(run_program("let e = 3 == 4;").1, 0);
}

#[test]
fn addition_wraps_at_the_64_bit_boundary() {
    let mut interpreter = Interpreter::new();
    let expr = Expr::BinaryOp(
        Box::new(Expr::Integer(i64::MAX)),
        Operator::Plus,
        Box::new(Expr::Integer(1)),
    );
    assert_eq!(interpreter.interpret_expression(&expr), i64::MIN);
}

#[test]
fn print_returns_the_value_and_records_it() {
    let (interpreter, value) = run_program("print 5; print 6;");
    assert_eq!(value, 6);
    assert_eq!(interpreter.output(), &vec![5, 6]);
}

#[test]
fn assignment_updates_and_yields_the_value() {
    let (interpreter, value) = run_program("let x = 1; x = 2; print x;");
    assert_eq!(value, 2);
    assert_eq!(interpreter.output(), &vec![2]);
}

#[test]
fn function_definition_yields_zero_and_does_not_run() {
    let (interpreter, value) = run_program("fn foo() -> int { print 9; }");
    assert_eq!(value, 0);
    assert!(interpreter.output().is_empty());
}

#[test]
fn call_is_a_stub_that_yields_zero() {
    let (_, value) = run_program("fn foo() -> int { } let r = foo();");
    assert_eq!(value, 0);
}

#[test]
fn call_arguments_evaluate_for_their_effects() {
    // Arguments are evaluated left to right even though the call itself
    // yields zero.
    let mut interpreter = Interpreter::new();
    let call = Expr::FunctionCall(
        String::from("f"),
        vec![Expr::Assign(String::from("x"), Box::new(Expr::Integer(5)))],
    );
    assert_eq!(interpreter.interpret_expression(&call), 0);
    let x = interpreter.interpret_expression(&Expr::Variable(String::from("x")));
    assert_eq!(x, 5);
}

#[test]
fn conditional_in_expression_position() {
    // The expression form of the conditional evaluates like the statement
    // form: the chosen branch's value is the result.
    let mut interpreter = Interpreter::new();
    let expr = Expr::If(
        Box::new(Expr::Integer(1)),
        Box::new(Statement::Expression(Expr::Integer(5))),
        Some(Box::new(Statement::Expression(Expr::Integer(6)))),
    );
    assert_eq!(interpreter.interpret_expression(&expr), 5);
    let expr_zero = Expr::If(
        Box::new(Expr::Integer(0)),
        Box::new(Statement::Expression(Expr::Integer(5))),
        None,
    );
    assert_eq!(interpreter.interpret_expression(&expr_zero), 0);
}

#[test]
fn conditional_program_end_to_end() {
    let (interpreter, _) = run_program("let x = 0; if x == 0 { print 1; } else { print 2; }");
    assert_eq!(interpreter.output(), &vec![1]);
}
