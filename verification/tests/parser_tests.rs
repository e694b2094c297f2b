use minilang::ast::Expr;
use minilang::ast::Operator;
use minilang::ast::Statement;
use minilang::ast::Token;
use minilang::ast::Type;
use minilang::lexer::Lexer;
use minilang::parser::Parser;
use minilang::parser::ParserError;

fn tokens_of(input: &str) -> Vec<Token> {
    let mut lexer = Lexer::new(input);
    lexer.lex().unwrap()
}

fn parse_program(input: &str) -> Result<Vec<Statement>, ParserError> {
    let mut parser = Parser::new(tokens_of(input));
    parser.parse_statements()
}

#[test]
fn flat_precedence_parse_shape() {
    // One flat, left-associative tier: 3 + 4 * 2 is (3 + 4) * 2.
    let mut parser = Parser::new(tokens_of("3 + 4 * 2"));
    let expr = parser.parse_expression().unwrap();
    match expr {
        Expr::BinaryOp(left, Operator::Multiply, right) => {
            match *right {
                Expr::Integer(2) => {}
                other => panic!("expected the literal 2 on the right, got {:?}", other),
            }
            match *left {
                Expr::BinaryOp(ll, Operator::Plus, lr) => {
                    assert!(matches!(*ll, Expr::Integer(3)));
                    assert!(matches!(*lr, Expr::Integer(4)));
                }
                other => panic!("expected (3 + 4) on the left, got {:?}", other),
            }
        }
        other => panic!("expected a multiply at the top, got {:?}", other),
    }
}

#[test]
fn comparisons_parse_as_operators() {
    for source in ["1 == 2;", "1 > 2;", "1 < 2;"] {
        let stmts = parse_program(source).unwrap();
        assert_eq!(stmts.len(), 1);
        assert!(matches!(
            &stmts[0],
            Statement::Expression(Expr::BinaryOp(_, _, _))
        ));
    }
}

#[test]
fn if_needs_no_semicolon_in_block() {
    let mut parser = Parser::new(tokens_of("{ if (1) { } else { } }"));
    let stmts = parser.parse_block().unwrap();
    assert_eq!(stmts.len(), 1);
    match &stmts[0] {
        Statement::If(_, _, else_branch) => assert!(else_branch.is_some()),
        other => panic!("expected a conditional, got {:?}", other),
    }
}

#[test]
fn missing_semicolon_in_block_fails() {
    let mut parser = Parser::new(tokens_of("{ let x = 1 }"));
    match parser.parse_block() {
        Err(ParserError::UnexpectedToken { .. }) | Err(ParserError::UnexpectedEOF) => {}
        other => panic!("expected a syntax error, got {:?}", other),
    }
}

#[test]
fn declaration_statement() {
    let stmts = parse_program("let x = 1;").unwrap();
    assert_eq!(stmts.len(), 1);
    match &stmts[0] {
        Statement::Declaration(name, Expr::Integer(1)) => assert_eq!(name, "x"),
        other => panic!("expected a declaration, got {:?}", other),
    }
}

#[test]
fn assignment_is_retagged_as_statement() {
    let stmts = parse_program("x = 2;").unwrap();
    assert_eq!(stmts.len(), 1);
    match &stmts[0] {
        Statement::Assignment(name, Expr::Integer(2)) => assert_eq!(name, "x"),
        other => panic!("expected an assignment, got {:?}", other),
    }
}

#[test]
fn assignment_to_non_variable_fails() {
    match parse_program("3 = 4;") {
        Err(ParserError::InvalidSyntax) => {}
        other => panic!("expected an invalid-syntax error, got {:?}", other),
    }
}

#[test]
fn print_statement() {
    let stmts = parse_program("print 7;").unwrap();
    assert!(matches!(&stmts[0], Statement::Print(Expr::Integer(7))));
}

#[test]
fn function_definition() {
    let stmts = parse_program("fn foo() -> int { print 1; }").unwrap();
    assert_eq!(stmts.len(), 1);
    match &stmts[0] {
        Statement::Function(f) => {
            assert_eq!(f.name, "foo");
            assert!(f.params.is_empty());
            assert_eq!(f.return_type, Type::Int);
            assert_eq!(f.body.len(), 1);
        }
        other => panic!("expected a function definition, got {:?}", other),
    }
}

#[test]
fn function_parameters() {
    let stmts = parse_program("fn foo(a: int, b: int) -> int { }").unwrap();
    match &stmts[0] {
        Statement::Function(f) => {
            assert_eq!(f.params.len(), 2);
            assert_eq!(f.params[0], (String::from("a"), Type::Int));
            assert_eq!(f.params[1], (String::from("b"), Type::Int));
        }
        other => panic!("expected a function definition, got {:?}", other),
    }
}

#[test]
fn zero_argument_call() {
    let stmts = parse_program("foo();").unwrap();
    match &stmts[0] {
        Statement::Expression(Expr::FunctionCall(name, args)) => {
            assert_eq!(name, "foo");
            assert!(args.is_empty());
        }
        other => panic!("expected a call expression, got {:?}", other),
    }
}

#[test]
fn call_arguments_are_rejected() {
    // Written call arguments are a syntax error, not silently dropped.
    match parse_program("foo(1);") {
        Err(ParserError::UnexpectedToken { .. }) => {}
        other => panic!("expected a syntax error, got {:?}", other),
    }
}

#[test]
fn parenthesized_expression() {
    let stmts = parse_program("(3);").unwrap();
    assert!(matches!(&stmts[0], Statement::Expression(Expr::Integer(3))));
}

#[test]
fn declaration_without_name_fails() {
    match parse_program("let = 1;") {
        Err(ParserError::UnexpectedToken { expected, .. }) => {
            assert_eq!(expected, "Identifier");
        }
        other => panic!("expected an expected-identifier error, got {:?}", other),
    }
}

#[test]
fn unclosed_paren_reports_eof() {
    // The closing parenthesis is expected but only the end of input is
    // found.
    match parse_program("(1") {
        Err(ParserError::UnexpectedToken { expected, found }) => {
            assert_eq!(expected, "RightParen");
            assert_eq!(found, "EOF");
        }
        other => panic!("expected an expected-versus-found error, got {:?}", other),
    }
}

#[test]
fn bad_type_name_fails() {
    match parse_program("fn foo() -> float { }") {
        Err(ParserError::UnexpectedToken { expected, found }) => {
            assert_eq!(expected, "int (or other type)");
            assert_eq!(found, "float");
        }
        other => panic!("expected a type error, got {:?}", other),
    }
}

#[test]
fn nested_conditionals() {
    let stmts = parse_program("if 1 { if 0 { } } else { print 2; }").unwrap();
    assert_eq!(stmts.len(), 1);
}

#[test]
fn program_of_several_statements() {
    let stmts = parse_program("let x = 1; x = x + 1; print x;").unwrap();
    assert_eq!(stmts.len(), 3);
}
