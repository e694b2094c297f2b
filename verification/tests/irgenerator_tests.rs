use inkwell::context::Context;
use minilang::ast::Expr;
use minilang::ast::Statement;
use minilang::irgenerator::GenError;
use minilang::irgenerator::IRGenerator;
use minilang::lexer::Lexer;
use minilang::parser::Parser;

fn parse(input: &str) -> Vec<Statement> {
    let mut lexer = Lexer::new(input);
    let tokens = lexer.lex().unwrap();
    let mut parser = Parser::new(tokens);
    parser.parse_statements().unwrap()
}

/// Generate a whole program into a fresh module and hand back its text.
fn generate_module_text(input: &str) -> String {
    let context = Context::create();
    let mut generator = IRGenerator::new(&context);
    let function = generator.declare_function("main");
    generator.initialize_entry_block(&function);
    for stmt in &parse(input) {
        generator
            .generate_ir_for_statement(stmt, &function)
            .expect("generation failed");
    }
    let zero = context.i32_type().const_int(0, false);
    generator.build_return(zero).expect("return failed");
    generator.get_module().print_to_string().to_string()
}

#[test]
fn slot_reuse_allocates_once() {
    // Declaring x and then assigning to it must not allocate a second
    // stack slot; the later read loads the stored value.
    let text = generate_module_text("let x = 1; x = 2; print x;");
    let allocas = text.matches("alloca").count();
    assert_eq!(allocas, 1);
}

#[test]
fn redeclaration_allocates_again() {
    let text = generate_module_text("let x = 1; let y = 2;");
    let allocas = text.matches("alloca").count();
    assert_eq!(allocas, 2);
}

#[test]
fn call_before_declare_is_fatal() {
    let context = Context::create();
    let mut generator = IRGenerator::new(&context);
    let function = generator.declare_function("main");
    generator.initialize_entry_block(&function);
    let stmts = parse("nosuch();");
    let result = generator.generate_ir_for_statement(&stmts[0], &function);
    match result {
        Err(GenError::MissingFunction) => {}
        Err(other) => panic!("expected a missing-function failure, got {:?}", other),
        Ok(_) => panic!("a call to an undeclared name must not be emitted"),
    }
}

#[test]
fn assignment_to_missing_slot_is_fatal() {
    let context = Context::create();
    let mut generator = IRGenerator::new(&context);
    let function = generator.declare_function("main");
    generator.initialize_entry_block(&function);
    let stmts = parse("x = 1;");
    match generator.generate_ir_for_statement(&stmts[0], &function) {
        Err(GenError::MissingVariable) => {}
        other => panic!("expected a missing-variable failure, got {:?}", other.map(|_| ())),
    }
}

#[test]
fn reading_a_missing_slot_is_fatal() {
    let context = Context::create();
    let mut generator = IRGenerator::new(&context);
    let function = generator.declare_function("main");
    generator.initialize_entry_block(&function);
    let stmt = Statement::Expression(Expr::Variable(String::from("ghost_var")));
    match generator.generate_ir_for_statement(&stmt, &function) {
        Err(GenError::MissingVariable) => {}
        other => panic!("expected a missing-variable failure, got {:?}", other.map(|_| ())),
    }
}

#[test]
fn conditional_creates_three_blocks_and_branches() {
    let text = generate_module_text("if 1 { print 1; } else { print 2; }");
    assert!(text.contains("then:"));
    assert!(text.contains("else:"));
    assert!(text.contains("ifcont:"));
    assert!(text.contains("br i1") || text.contains("br label"));
}

#[test]
fn conditional_without_else_still_branches_to_continue() {
    let text = generate_module_text("if 1 { print 1; }");
    assert!(text.contains("then:"));
    assert!(text.contains("else:"));
    assert!(text.contains("ifcont:"));
}

#[test]
fn print_declares_the_formatting_routine_once() {
    let text = generate_module_text("print 1; print 2;");
    let declares = text.matches("declare").count();
    assert_eq!(declares, 1);
    assert!(text.contains("printf"));
}

#[test]
fn declared_function_can_be_called() {
    // The definition statement declares the name in the module (its body
    // is generated where the builder stands); a later call names it.
    let text = generate_module_text("fn foo() -> int { 1; } let r = foo();");
    assert!(text.contains("declare i32 @foo"));
    assert!(text.contains("call i32 @foo"));
}

#[test]
fn arithmetic_lowers_to_instructions() {
    // The operands read a slot, so the instructions cannot be folded away.
    let text = generate_module_text("let a = 1; let b = a + 2; let c = b - 1; let d = c * 3;");
    assert!(text.contains("add"));
    assert!(text.contains("sub"));
    assert!(text.contains("mul"));
}

#[test]
fn comparisons_lower_to_signed_predicates() {
    let text = generate_module_text("let a = 1; let e = a == 1; let g = a > 0; let l = a < 2;");
    assert!(text.contains("icmp eq"));
    assert!(text.contains("icmp sgt"));
    assert!(text.contains("icmp slt"));
}

#[test]
fn conditional_in_expression_position_lowers_identically() {
    // The expression form of the conditional produces the same block
    // structure as the statement form.
    let context = Context::create();
    let mut generator = IRGenerator::new(&context);
    let function = generator.declare_function("main");
    generator.initialize_entry_block(&function);
    let stmt = Statement::Expression(Expr::If(
        Box::new(Expr::Integer(1)),
        Box::new(Statement::Block(vec![])),
        None,
    ));
    generator
        .generate_ir_for_statement(&stmt, &function)
        .expect("generation failed");
    let text = generator.get_module().print_to_string().to_string();
    assert!(text.contains("then:"));
    assert!(text.contains("else:"));
    assert!(text.contains("ifcont:"));
}

#[test]
fn module_has_main_and_final_return() {
    let text = generate_module_text("let x = 4;");
    assert!(text.contains("define i32 @main"));
    assert!(text.contains("ret i32 0"));
}
