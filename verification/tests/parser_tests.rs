use ezlang::lexer::{BinaryOperator, Position};
use ezlang::parser::{
    BinaryExpression, Expression, LocalStack, Parser, Program, Statement, SyntaxError,
    SyntaxErrorKind,
};

fn parse(source: &str) -> Result<Program, SyntaxError> {
    let mut parser = Parser::from_file("test.ez", source.as_bytes().to_vec());
    parser.generate_tokens().unwrap();
    parser.generate_program()
}

fn error(source: &str) -> (SyntaxErrorKind, usize, usize) {
    let e = parse(source).unwrap_err();
    assert_eq!(e.file, "test.ez");
    (e.kind, e.position.line, e.position.column)
}

fn num(n: u64) -> Expression {
    Expression::NumberLiteral(n)
}

fn local(index: usize) -> Expression {
    Expression::Local(index)
}

fn binary(operator: BinaryOperator, left: Expression, right: Expression) -> Expression {
    Expression::Binary(BinaryExpression {
        operator,
        left: Box::new(left),
        right: Box::new(right),
    })
}

fn show<T: std::fmt::Debug>(value: &T) -> String {
    format!("{:?}", value)
}

/// The expression of `return <text>;` as the only statement of `main`.
fn expression(text: &str) -> Expression {
    let source = format!("fn main: () {{ return {}; }}", text);
    let mut program = parse(&source).unwrap();
    assert_eq!(program.functions.len(), 1);
    let mut main = program.functions.pop().unwrap();
    assert_eq!(main.body.statements.len(), 1);
    match main.body.statements.pop().unwrap() {
        Statement::Return(e) => e,
        other => panic!("not a return: {:?}", other),
    }
}

fn expression_error(text: &str) -> SyntaxErrorKind {
    let source = format!("fn main: () {{ return {}; }}", text);
    parse(&source).unwrap_err().kind
}

#[test]
fn multiplication_binds_tighter_than_addition() {
    let e = expression("1+2*3");
    let expected = binary(
        BinaryOperator::Add,
        num(1),
        binary(BinaryOperator::Mul, num(2), num(3)),
    );
    assert_eq!(show(&e), show(&expected));
    let wrong = binary(
        BinaryOperator::Mul,
        binary(BinaryOperator::Add, num(1), num(2)),
        num(3),
    );
    assert_ne!(show(&e), show(&wrong));
}

#[test]
fn tighter_operator_on_the_left_is_applied_first() {
    let e = expression("2*3+1");
    let expected = binary(
        BinaryOperator::Add,
        binary(BinaryOperator::Mul, num(2), num(3)),
        num(1),
    );
    assert_eq!(show(&e), show(&expected));
}

#[test]
fn equal_precedence_groups_to_the_right() {
    let e = expression("1-2-3");
    let expected = binary(
        BinaryOperator::Sub,
        num(1),
        binary(BinaryOperator::Sub, num(2), num(3)),
    );
    assert_eq!(show(&e), show(&expected));
    let e = expression("8/4*2");
    let expected = binary(
        BinaryOperator::Div,
        num(8),
        binary(BinaryOperator::Mul, num(4), num(2)),
    );
    assert_eq!(show(&e), show(&expected));
}

#[test]
fn bitwise_operators_bind_looser_than_arithmetic() {
    let e = expression("1|2^3&4+5");
    let expected = binary(
        BinaryOperator::BitwiseOr,
        num(1),
        binary(
            BinaryOperator::BitwiseXor,
            num(2),
            binary(
                BinaryOperator::BitwiseAnd,
                num(3),
                binary(BinaryOperator::Add, num(4), num(5)),
            ),
        ),
    );
    assert_eq!(show(&e), show(&expected));
}

#[test]
fn parentheses_override_precedence() {
    let e = expression("(1+2)*3");
    let expected = binary(
        BinaryOperator::Mul,
        binary(BinaryOperator::Add, num(1), num(2)),
        num(3),
    );
    assert_eq!(show(&e), show(&expected));
    assert_eq!(show(&expression("((7))")), show(&num(7)));
}

#[test]
fn single_operands() {
    assert_eq!(show(&expression("16#ff")), show(&num(255)));
}

#[test]
fn malformed_expressions() {
    assert_eq!(expression_error(""), SyntaxErrorKind::ExpectedExpression);
    assert_eq!(expression_error("1 2"), SyntaxErrorKind::InvalidExpression);
    assert_eq!(expression_error("1 + + 2"), SyntaxErrorKind::InvalidExpression);
    assert_eq!(expression_error("1 +"), SyntaxErrorKind::MissingOperand);
    assert_eq!(expression_error("* 2"), SyntaxErrorKind::MissingOperand);
    assert_eq!(expression_error("(1 + 2"), SyntaxErrorKind::UnmatchedParenthesis);
    assert_eq!(expression_error("1 + 2)"), SyntaxErrorKind::UnmatchedParenthesis);
    assert_eq!(expression_error("1, 2"), SyntaxErrorKind::UnexpectedToken);
    assert_eq!(expression_error("1 = 2"), SyntaxErrorKind::UnexpectedToken);
    assert_eq!(expression_error("x"), SyntaxErrorKind::UndeclaredVariable);
    assert_eq!(expression_error("()"), SyntaxErrorKind::ExpectedExpression);
}

#[test]
fn operands_left_over_are_an_error() {
    let source = "fn main: (a) { return a 1; }";
    assert_eq!(error(source), (SyntaxErrorKind::InvalidExpression, 1, 26));
    let source = "fn main: (a, b) { return a b; }";
    assert_eq!(error(source), (SyntaxErrorKind::InvalidExpression, 1, 28));
}

#[test]
fn arguments_get_consecutive_slots() {
    let program = parse("fn main: (a, b, c) { return b; }").unwrap();
    let main = &program.functions[0];
    assert_eq!(main.name, "main");
    assert_eq!(main.arguments, vec![0, 1, 2]);
    let offsets: Vec<(String, usize, usize)> = main
        .locals
        .locals
        .iter()
        .map(|l| (l.label.clone(), l.offset, l.size))
        .collect();
    assert_eq!(
        offsets,
        vec![
            ("a".to_string(), 0, 8),
            ("b".to_string(), 8, 8),
            ("c".to_string(), 16, 8)
        ]
    );
    assert_eq!(main.locals.get_size(), 24);
    assert_eq!(show(&main.body.statements[0]), show(&Statement::Return(local(1))));
}

#[test]
fn local_stack_offsets_and_size() {
    let mut stack = LocalStack::new();
    assert_eq!(stack.get_size(), 0);
    assert_eq!(stack.insert("a".to_string(), 8), 0);
    assert_eq!(stack.insert("b".to_string(), 8), 1);
    assert_eq!(stack.insert("c".to_string(), 8), 2);
    assert_eq!(stack.get(0).unwrap().offset, 0);
    assert_eq!(stack.get(1).unwrap().offset, 8);
    assert_eq!(stack.get(2).unwrap().offset, 16);
    assert!(stack.get(3).is_none());
    assert_eq!(stack.get_size(), 24);
    assert_eq!(stack.find("b"), Some(1));
    assert_eq!(stack.find("d"), None);
}

#[test]
fn local_stack_mixed_sizes() {
    let mut stack = LocalStack::new();
    assert_eq!(stack.insert("a".to_string(), 1), 0);
    assert_eq!(stack.insert("b".to_string(), 4), 1);
    assert_eq!(stack.insert("c".to_string(), 2), 2);
    assert_eq!(stack.get(1).unwrap().offset, 1);
    assert_eq!(stack.get(2).unwrap().offset, 5);
    assert_eq!(stack.get_size(), 7);
}

#[test]
fn inserting_a_name_twice_keeps_its_slot() {
    let mut stack = LocalStack::new();
    let first = stack.insert("x".to_string(), 8);
    let other = stack.insert("y".to_string(), 8);
    let again = stack.insert("x".to_string(), 4);
    assert_eq!(first, 0);
    assert_eq!(other, 1);
    assert_eq!(again, first);
    assert_eq!(stack.locals.len(), 2);
    assert_eq!(stack.get_size(), 16);
    assert_eq!(stack.get(0).unwrap().size, 8);
}

#[test]
fn repeated_argument_names_share_a_slot() {
    let program = parse("fn main: (a, a) { return a; }").unwrap();
    let main = &program.functions[0];
    assert_eq!(main.arguments, vec![0, 0]);
    assert_eq!(main.locals.locals.len(), 1);
}

#[test]
fn argument_lists() {
    assert!(parse("fn main: () { return 0; }").is_ok());
    assert_eq!(error("fn main: (a,) { return 0; }"), (SyntaxErrorKind::UnexpectedToken, 1, 12));
    assert_eq!(error("fn main: (a b) { return 0; }"), (SyntaxErrorKind::MissingComma, 1, 13));
    assert_eq!(error("fn main: (a 1) { return 0; }"), (SyntaxErrorKind::UnexpectedToken, 1, 13));
    assert_eq!(error("fn main: (1) { return 0; }"), (SyntaxErrorKind::ExpectedRightPar, 1, 11));
    assert_eq!(error("fn main: (a"), (SyntaxErrorKind::ExpectedRightPar, 1, 12));
    assert_eq!(error("fn main: a) { }"), (SyntaxErrorKind::ExpectedLeftPar, 1, 10));
}

#[test]
fn statements() {
    let program = parse("fn main: (a) { var b = a + 1; a = b * 2; return a; }").unwrap();
    let main = &program.functions[0];
    assert_eq!(main.locals.locals.len(), 2);
    assert_eq!(main.locals.get_size(), 16);
    let expected = vec![
        Statement::Assign(1, binary(BinaryOperator::Add, local(0), num(1))),
        Statement::Assign(0, binary(BinaryOperator::Mul, local(1), num(2))),
        Statement::Return(local(0)),
    ];
    assert_eq!(show(&main.body.statements), show(&expected));
}

#[test]
fn a_declaration_may_mention_its_own_name() {
    let program = parse("fn main: () { var x = x + 1; return x; }").unwrap();
    let expected = Statement::Assign(0, binary(BinaryOperator::Add, local(0), num(1)));
    assert_eq!(show(&program.functions[0].body.statements[0]), show(&expected));
}

#[test]
fn statement_errors() {
    assert_eq!(
        error("fn main: () { var a = 1; var a = 2; return a; }"),
        (SyntaxErrorKind::DuplicatedVariable, 1, 30)
    );
    assert_eq!(
        error("fn main: (a) { var a = 2; return a; }"),
        (SyntaxErrorKind::DuplicatedVariable, 1, 20)
    );
    assert_eq!(
        error("fn main: () { a = 1; return a; }"),
        (SyntaxErrorKind::UndeclaredVariable, 1, 15)
    );
    assert_eq!(
        error("fn main: () { return 1 }"),
        (SyntaxErrorKind::UnexpectedToken, 1, 24)
    );
    assert_eq!(
        error("fn main: () { var 1 = 2; }"),
        (SyntaxErrorKind::ExpectedIdentifier, 1, 19)
    );
    assert_eq!(
        error("fn main: () { var a 2; }"),
        (SyntaxErrorKind::ExpectedEquals, 1, 21)
    );
    assert_eq!(
        error("fn main: () { 1 = 2; }"),
        (SyntaxErrorKind::UnexpectedToken, 1, 15)
    );
    assert_eq!(
        error("fn main: () { return 1;"),
        (SyntaxErrorKind::ExpectedStatement, 1, 24)
    );
    assert_eq!(
        error("fn main: () { return 1"),
        (SyntaxErrorKind::ExpectedExpression, 1, 23)
    );
}

#[test]
fn the_equals_sign_is_checked_before_the_name() {
    assert_eq!(
        error("fn main: (a) { var a; }"),
        (SyntaxErrorKind::ExpectedEquals, 1, 21)
    );
    assert_eq!(
        error("fn main: () { a; }"),
        (SyntaxErrorKind::ExpectedEquals, 1, 16)
    );
}

#[test]
fn function_declaration_errors() {
    assert_eq!(error("main: () { }"), (SyntaxErrorKind::UnexpectedToken, 1, 1));
    assert_eq!(error("fn : () { }"), (SyntaxErrorKind::ExpectedFunctionName, 1, 4));
    assert_eq!(error("fn"), (SyntaxErrorKind::ExpectedFunctionName, 1, 3));
    assert_eq!(error("fn main () { }"), (SyntaxErrorKind::ExpectedColon, 1, 9));
    assert_eq!(error("fn main: () return 1; }"), (SyntaxErrorKind::ExpectedLeftBrace, 1, 13));
    assert_eq!(
        error("fn main: () { return 1; } }"),
        (SyntaxErrorKind::UnexpectedToken, 1, 27)
    );
}

#[test]
fn a_call_to_an_earlier_function_succeeds() {
    let program =
        parse("fn add: (a, b) { return a + b; }\nfn main: () { return @add(2, 3); }").unwrap();
    assert_eq!(program.functions.len(), 2);
    assert_eq!(program.functions[0].name, "add");
    assert_eq!(program.functions[1].name, "main");
    let expected = Statement::Return(Expression::Call(0, vec![num(2), num(3)]));
    assert_eq!(show(&program.functions[1].body.statements[0]), show(&expected));
}

#[test]
fn a_call_must_match_the_number_of_arguments() {
    let add = "fn add: (a, b) { return a + b; }\n";
    assert_eq!(
        error(&format!("{}fn main: () {{ return @add(2); }}", add)),
        (SyntaxErrorKind::ArgumentMismatch, 2, 23)
    );
    assert_eq!(
        error(&format!("{}fn main: () {{ return @add(2, 3, 4); }}", add)),
        (SyntaxErrorKind::ArgumentMismatch, 2, 23)
    );
    assert_eq!(
        error(&format!("{}fn main: () {{ return @add(); }}", add)),
        (SyntaxErrorKind::ArgumentMismatch, 2, 23)
    );
    assert!(parse(&format!("{}fn main: () {{ return @add(2, 3); }}", add)).is_ok());
}

#[test]
fn a_call_to_a_later_function_fails() {
    assert_eq!(
        error("fn main: () { return @add(2, 3); }\nfn add: (a, b) { return a + b; }"),
        (SyntaxErrorKind::UndefinedFunction, 1, 23)
    );
}

#[test]
fn a_function_cannot_call_itself() {
    assert_eq!(
        error("fn main: (n) { return @main(n); }"),
        (SyntaxErrorKind::UndefinedFunction, 1, 24)
    );
}

#[test]
fn calls_take_part_in_expressions() {
    let source = "fn one: () { return 1; }\n\
                  fn twice: (x) { return x * 2; }\n\
                  fn main: (a) { return 1 + @twice(a + @one()) * 3; }";
    let program = parse(source).unwrap();
    let expected = Statement::Return(binary(
        BinaryOperator::Add,
        num(1),
        binary(
            BinaryOperator::Mul,
            Expression::Call(
                1,
                vec![binary(BinaryOperator::Add, local(0), Expression::Call(0, vec![]))],
            ),
            num(3),
        ),
    ));
    assert_eq!(show(&program.functions[2].body.statements[0]), show(&expected));
}

#[test]
fn call_statements() {
    let source = "fn f: (x) { return x; }\nfn main: () { @f(1); return 0; }";
    let program = parse(source).unwrap();
    let expected = Statement::Call(Expression::Call(0, vec![num(1)]));
    assert_eq!(show(&program.functions[1].body.statements[0]), show(&expected));
    assert_eq!(
        error("fn f: (x) { return x; }\nfn main: () { @f(1) return 0; }"),
        (SyntaxErrorKind::ExpectedSemicolon, 2, 21)
    );
}

#[test]
fn call_argument_errors() {
    let f = "fn f: (x, y) { return x; }\n";
    let check = |call: &str| error(&format!("{}fn main: () {{ return {}; }}", f, call)).0;
    assert_eq!(check("@f(,1)"), SyntaxErrorKind::ExpectedExpression);
    assert_eq!(check("@f(1,)"), SyntaxErrorKind::ExpectedExpression);
    assert_eq!(check("@f(1,,2)"), SyntaxErrorKind::ExpectedExpression);
    assert_eq!(check("@f(1 2)"), SyntaxErrorKind::InvalidExpression);
    assert_eq!(check("@f(1; 2)"), SyntaxErrorKind::UnexpectedToken);
    assert_eq!(check("@f 1, 2)"), SyntaxErrorKind::ExpectedLeftPar);
    assert_eq!(check("@1(1, 2)"), SyntaxErrorKind::ExpectedFunctionName);
    assert_eq!(check("@g(1, 2)"), SyntaxErrorKind::UndefinedFunction);
    assert_eq!(check("@f((1, 2)"), SyntaxErrorKind::UnmatchedParenthesis);
    assert_eq!(check("@f(1, 2"), SyntaxErrorKind::UnexpectedToken);
}

#[test]
fn parenthesized_call_arguments() {
    let source = "fn f: (x, y) { return x; }\nfn main: () { return @f((1 + 2) * 3, 4 - 5); }";
    let program = parse(source).unwrap();
    let expected = Statement::Return(Expression::Call(
        0,
        vec![
            binary(
                BinaryOperator::Mul,
                binary(BinaryOperator::Add, num(1), num(2)),
                num(3),
            ),
            binary(BinaryOperator::Sub, num(4), num(5)),
        ],
    ));
    assert_eq!(show(&program.functions[1].body.statements[0]), show(&expected));
}

#[test]
fn a_program_needs_a_function() {
    assert_eq!(error(""), (SyntaxErrorKind::EmptyProgram, 1, 1));
    assert_eq!(error("  \n "), (SyntaxErrorKind::EmptyProgram, 2, 2));
}

#[test]
fn a_program_needs_main() {
    assert_eq!(
        error("fn add: (a, b) { return a + b; }"),
        (SyntaxErrorKind::MissingMain, 1, 33)
    );
    assert_eq!(
        error("fn Main: () { return 0; }\nfn main2: () { return 0; }"),
        (SyntaxErrorKind::MissingMain, 2, 27)
    );
    assert!(parse("fn helper: () { return 0; }\nfn main: () { return 1; }").is_ok());
}

#[test]
fn parsing_again_gives_the_same_program() {
    let mut parser = Parser::from_file("test.ez", b"fn main: () { return 1+2; }".to_vec());
    parser.generate_tokens().unwrap();
    let first = parser.generate_program().unwrap();
    parser.generate_tokens().unwrap();
    let second = parser.generate_program().unwrap();
    assert_eq!(show(&first), show(&second));
}

#[test]
fn lexical_errors_surface_from_the_parser() {
    let mut parser = Parser::from_file("test.ez", b"fn main: () { return 9#1; }".to_vec());
    let e = parser.generate_tokens().unwrap_err();
    assert_eq!(e.kind, ezlang::lexer::LexErrorKind::UnknownBase);
    assert_eq!(e.position, Position { line: 1, column: 22 });
}

#[test]
fn a_lexical_error_leaves_the_parser_as_it_was() {
    let mut parser = Parser::from_file("test.ez", b"fn main: () { return 1 $ }".to_vec());
    assert!(parser.generate_tokens().is_err());
    let e = parser.generate_program().unwrap_err();
    assert_eq!(e.kind, SyntaxErrorKind::EmptyProgram);
    assert_eq!(e.position, Position { line: 1, column: 1 });
    assert!(parser.generate_tokens().is_err());
}

#[test]
fn syntax_errors_as_text() {
    let text = |source: &str| parse(source).unwrap_err().to_string();
    assert_eq!(text(""), "test.ez:1:1: Empty source file. Try writing a main function first.");
    assert_eq!(
        text("fn f: () { return 1; }"),
        "test.ez:1:23: No entry point: missing main function."
    );
    assert_eq!(text("fn main: () { return x; }"), "test.ez:1:22: Undeclared variable.");
    assert_eq!(text("fn main: () {\n  return 1 +;\n}"), "test.ez:2:12: Missing operand.");
    assert_eq!(
        text("fn main: (a b) { }"),
        "test.ez:1:13: Unexpected token. Maybe a comma is missing between two arguments."
    );
    assert_eq!(SyntaxErrorKind::ExpectedVar.message(), "Expected var token.");
    assert_eq!(SyntaxErrorKind::TooManyLocals.message(), "Too many local variables.");
}

#[test]
fn trees_can_be_copied() {
    let source = "fn f: (x, y) { return x; }\n\
                  fn main: (a) { var b = @f(a + 1, 2 * (3 - a)) | 4; return b; }";
    let program = parse(source).unwrap();
    let main = &program.functions[1];
    let copy = main.clone();
    assert_eq!(show(&copy), show(main));
    match &main.body.statements[0] {
        Statement::Assign(_, e) => {
            assert_eq!(show(&e.clone()), show(e));
            assert_eq!(show(&ezlang::parser::copy_expression(e)), show(e));
        }
        other => panic!("not an assignment: {:?}", other),
    }
}

#[test]
fn new_program_is_empty() {
    assert_eq!(Program::new().functions.len(), 0);
}
