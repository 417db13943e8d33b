use ezlang::ezlang::generator::{find_slot, register_for};
use ezlang::ezlang::{
    classify_text, find_rule, leading_match, parse_number, rule_length, trim_quote_bytes, Argument,
    BinaryOperator, CompileError, Compiler, Expression, FunctionDeclaration, Parser, Position, Program,
    Rule, Statement, SyntaxError, Token, Tokenizer,
};

fn tokens(source: &str) -> Result<Vec<Token>, SyntaxError> {
    let mut tokenizer = Tokenizer::new("test.ez".to_string(), source.to_string());
    let mut found = Vec::new();
    while let Some(token) = tokenizer.next()? {
        found.push(token);
    }
    Ok(found)
}

fn show<T: std::fmt::Debug>(value: &T) -> String {
    format!("{:?}", value)
}

fn at(line: usize, column: usize) -> Position {
    Position { file: "test.ez".to_string(), line, column }
}

fn parse(source: &str) -> Result<Program, SyntaxError> {
    Parser::new("test.ez".to_string(), source.to_string()).parse()
}

fn parse_error(source: &str) -> (String, usize, usize) {
    let e = parse(source).unwrap_err();
    assert_eq!(e.position.file, "test.ez");
    (e.message, e.position.line, e.position.column)
}

fn number(value: u32) -> Expression {
    Expression::NumberLiteral(value)
}

fn symbol(name: &str) -> Expression {
    Expression::Symbol(name.to_string())
}

fn operation(operator: BinaryOperator, left: Expression, right: Expression) -> Expression {
    Expression::BinaryOperation(operator, Box::new(left), Box::new(right))
}

#[test]
fn rules_measure_the_start_of_the_text() {
    assert_eq!(rule_length(Rule::Whitespace, "  x"), Some(Some(1)));
    assert_eq!(rule_length(Rule::Whitespace, "x  "), Some(None));
    assert_eq!(rule_length(Rule::Number, "1234+5"), Some(Some(4)));
    assert_eq!(rule_length(Rule::Number, "-12 "), Some(Some(3)));
    assert_eq!(rule_length(Rule::Number, "a12"), Some(None));
    assert_eq!(rule_length(Rule::Symbol, "foo_bar1(x)"), Some(Some(8)));
    assert_eq!(rule_length(Rule::Symbol, "1foo"), Some(None));
    assert_eq!(rule_length(Rule::Operator, "%"), Some(Some(1)));
    assert_eq!(rule_length(Rule::Equal, "=="), Some(Some(1)));
    assert_eq!(rule_length(Rule::Semicolon, ";"), Some(Some(1)));
    assert_eq!(rule_length(Rule::Special, "{}"), Some(Some(1)));
    assert_eq!(rule_length(Rule::Text, "\"a\\\"b\" rest"), Some(Some(6)));
    assert_eq!(rule_length(Rule::Text, "\"open"), Some(None));
    assert_eq!(rule_length(Rule::Text, ""), Some(None));
}

#[test]
fn the_first_rule_that_applies_wins() {
    assert_eq!(find_rule("\n1"), Some(Some((Rule::Whitespace, 1))));
    assert_eq!(find_rule("+12 "), Some(Some((Rule::Number, 3))));
    assert_eq!(find_rule("+ 12"), Some(Some((Rule::Operator, 1))));
    assert_eq!(find_rule("=1"), Some(Some((Rule::Equal, 1))));
    assert_eq!(find_rule(";"), Some(Some((Rule::Semicolon, 1))));
    assert_eq!(find_rule("return_value = 1"), Some(Some((Rule::Symbol, 12))));
    assert_eq!(find_rule(":("), Some(Some((Rule::Special, 1))));
    assert_eq!(find_rule("\"text\";"), Some(Some((Rule::Text, 6))));
    assert_eq!(find_rule("$"), Some(None));
    assert_eq!(find_rule("\u{e9}"), Some(None));
}

#[test]
fn a_match_must_begin_at_the_first_byte() {
    assert_eq!(leading_match(None, 5), None);
    assert_eq!(leading_match(Some(None), 5), Some(None));
    assert_eq!(leading_match(Some(Some((0, 3))), 5), Some(Some(3)));
    assert_eq!(leading_match(Some(Some((0, 5))), 5), Some(Some(5)));
    assert_eq!(leading_match(Some(Some((1, 3))), 5), Some(None));
    assert_eq!(leading_match(Some(Some((0, 0))), 5), Some(None));
    assert_eq!(leading_match(Some(Some((0, 6))), 5), Some(None));
}

#[test]
fn number_literals() {
    assert_eq!(parse_number(b"0"), Some(0));
    assert_eq!(parse_number(b"42"), Some(42));
    assert_eq!(parse_number(b"+42"), Some(42));
    assert_eq!(parse_number(b"007"), Some(7));
    assert_eq!(parse_number(b"4294967295"), Some(u32::MAX));
    assert_eq!(parse_number(b"4294967296"), None);
    assert_eq!(parse_number(b"-1"), None);
    assert_eq!(parse_number(b"+"), None);
    assert_eq!(parse_number(b""), None);
    assert_eq!(parse_number(b"1a"), None);
    assert_eq!(parse_number("\u{663}".as_bytes()), None);
}

#[test]
fn quotes_are_trimmed_from_both_ends() {
    assert_eq!(trim_quote_bytes(b"\"abc\""), b"abc".to_vec());
    assert_eq!(trim_quote_bytes(b"\"\""), b"".to_vec());
    assert_eq!(trim_quote_bytes(b"\"a\\\"\""), b"a\\".to_vec());
    assert_eq!(trim_quote_bytes(b"\"a\"b\""), b"a\"b".to_vec());
    assert_eq!(trim_quote_bytes(b"abc"), b"abc".to_vec());
    assert_eq!(trim_quote_bytes(b"\"\"\""), b"".to_vec());
}

#[test]
fn texts_become_tokens() {
    let token = |rule, text: &str| show(&classify_text(rule, text.as_bytes(), at(1, 1)).unwrap());
    let message =
        |rule, text: &str| classify_text(rule, text.as_bytes(), at(1, 1)).unwrap_err().message;
    assert_eq!(token(Rule::Number, "12"), show(&Token::NumberLiteral(at(1, 1), 12)));
    assert_eq!(message(Rule::Number, "-12"), "Invalid number literal");
    assert_eq!(
        token(Rule::Operator, "^"),
        show(&Token::BinaryOperator(at(1, 1), BinaryOperator::Xor))
    );
    assert_eq!(message(Rule::Operator, "%"), "Unknown binary operator");
    assert_eq!(token(Rule::Symbol, "return"), show(&Token::Return(at(1, 1))));
    assert_eq!(token(Rule::Symbol, "asm"), show(&Token::Assembly(at(1, 1))));
    assert_eq!(
        token(Rule::Symbol, "returns"),
        show(&Token::Symbol(at(1, 1), "returns".to_string()))
    );
    assert_eq!(token(Rule::Special, ":"), show(&Token::Colon(at(1, 1))));
    assert_eq!(message(Rule::Special, "["), "Unknown token");
    assert_eq!(
        token(Rule::Text, "\"h\u{e9}\""),
        show(&Token::StringLiteral(at(1, 1), "h\u{e9}".to_string()))
    );
    assert_eq!(message(Rule::Whitespace, " "), "Syntax error");
}

#[test]
fn tokens_of_a_function() {
    let found = tokens("main: (a, b) {\n  x = + a 12;\n  return x;\n}").unwrap();
    let expected = vec![
        Token::Symbol(at(1, 1), "main".to_string()),
        Token::Colon(at(1, 5)),
        Token::OpenParenthesis(at(1, 7)),
        Token::Symbol(at(1, 8), "a".to_string()),
        Token::Comma(at(1, 9)),
        Token::Symbol(at(1, 11), "b".to_string()),
        Token::CloseParenthesis(at(1, 12)),
        Token::OpenBracket(at(1, 14)),
        Token::Symbol(at(2, 3), "x".to_string()),
        Token::Equal(at(2, 5)),
        Token::BinaryOperator(at(2, 7), BinaryOperator::Addition),
        Token::Symbol(at(2, 9), "a".to_string()),
        Token::NumberLiteral(at(2, 11), 12),
        Token::Semicolon(at(2, 13)),
        Token::Return(at(3, 3)),
        Token::Symbol(at(3, 10), "x".to_string()),
        Token::Semicolon(at(3, 11)),
        Token::CloseBracket(at(4, 1)),
        Token::EOF(at(4, 2)),
    ];
    assert_eq!(show(&found), show(&expected));
}

#[test]
fn every_operator_and_string_token() {
    let found = tokens("+ - * / & | ^ \"a b\" asm").unwrap();
    let expected = vec![
        Token::BinaryOperator(at(1, 1), BinaryOperator::Addition),
        Token::BinaryOperator(at(1, 3), BinaryOperator::Subtraction),
        Token::BinaryOperator(at(1, 5), BinaryOperator::Multiplication),
        Token::BinaryOperator(at(1, 7), BinaryOperator::Division),
        Token::BinaryOperator(at(1, 9), BinaryOperator::And),
        Token::BinaryOperator(at(1, 11), BinaryOperator::Or),
        Token::BinaryOperator(at(1, 13), BinaryOperator::Xor),
        Token::StringLiteral(at(1, 15), "a b".to_string()),
        Token::Assembly(at(1, 21)),
        Token::EOF(at(1, 24)),
    ];
    assert_eq!(show(&found), show(&expected));
}

#[test]
fn the_end_is_reported_once() {
    let mut tokenizer = Tokenizer::new("test.ez".to_string(), String::new());
    assert!(!tokenizer.has_next());
    assert_eq!(show(&tokenizer.next().unwrap()), show(&Some(Token::EOF(at(1, 1)))));
    assert!(tokenizer.next().unwrap().is_none());
    assert!(tokenizer.next().unwrap().is_none());
    let mut tokenizer = Tokenizer::new("test.ez".to_string(), " \n ".to_string());
    assert!(tokenizer.has_next());
    assert_eq!(show(&tokenizer.next().unwrap()), show(&Some(Token::EOF(at(2, 2)))));
    assert!(!tokenizer.has_next());
}

#[test]
fn tokenizer_errors() {
    let e = tokens("x = $;").unwrap_err();
    assert_eq!(e.message, "Syntax error");
    assert_eq!((e.position.line, e.position.column), (1, 5));
    let e = tokens("x = -5;").unwrap_err();
    assert_eq!(e.message, "Invalid number literal");
    assert_eq!((e.position.line, e.position.column), (1, 5));
    let e = tokens("\n 99999999999").unwrap_err();
    assert_eq!(e.message, "Invalid number literal");
    assert_eq!((e.position.line, e.position.column), (2, 2));
    let e = tokens("a % b").unwrap_err();
    assert_eq!(e.message, "Unknown binary operator");
    assert_eq!((e.position.line, e.position.column), (1, 3));
    assert_eq!(tokens("\"open").unwrap_err().message, "Syntax error");
}

#[test]
fn token_positions() {
    let token = Token::Symbol(at(3, 4), "x".to_string());
    assert_eq!(show(token.get_position()), show(&at(3, 4)));
    assert_eq!(show(Token::EOF(at(9, 1)).get_position()), show(&at(9, 1)));
    assert_eq!(show(&token.copy()), show(&token));
}

#[test]
fn operators_stand_before_their_operands() {
    let program = parse("main: () { return + 1 * 2 3; }").unwrap();
    assert_eq!(program.functions.len(), 1);
    let main = &program.functions[0];
    assert_eq!(main.function_name, "main");
    let expected = vec![Statement::ReturnStatement {
        return_value: operation(
            BinaryOperator::Addition,
            number(1),
            operation(BinaryOperator::Multiplication, number(2), number(3)),
        ),
    }];
    assert_eq!(show(&main.statements), show(&expected));
}

#[test]
fn statements_of_every_kind() {
    let source = "add: (a, b) { return + a b; }\n\
                  main: () { x = add(1, + 2 3); print(\"hi\", x); return x; }";
    let program = parse(source).unwrap();
    let add = &program.functions[0];
    assert_eq!(show(&add.arguments), show(&vec![
        Argument { name: "a".to_string() },
        Argument { name: "b".to_string() }
    ]));
    let main = &program.functions[1];
    let expected = vec![
        Statement::AssignStatement {
            symbol_name: "x".to_string(),
            expression: Expression::CallStatement(
                "add".to_string(),
                Some(vec![number(1), operation(BinaryOperator::Addition, number(2), number(3))]),
            ),
        },
        Statement::CallStatement {
            function_name: "print".to_string(),
            arguments: Some(vec![
                Expression::StringLiteral("strltr.0".to_string(), "hi".to_string()),
                symbol("x"),
            ]),
        },
        Statement::ReturnStatement { return_value: symbol("x") },
    ];
    assert_eq!(show(&main.statements), show(&expected));
    assert_eq!(
        program.string_literals,
        vec![("strltr.0".to_string(), "hi".to_string())]
    );
}

#[test]
fn string_literals_get_consecutive_labels() {
    let program = parse("main: () { a = \"x\"; b = \"y\"; c = \"x\"; return 0; }").unwrap();
    assert_eq!(
        program.string_literals,
        vec![
            ("strltr.0".to_string(), "x".to_string()),
            ("strltr.1".to_string(), "y".to_string()),
            ("strltr.2".to_string(), "x".to_string()),
        ]
    );
}

#[test]
fn a_call_without_arguments_leaves_its_parenthesis() {
    assert_eq!(parse_error("main: () { f(); }"), ("Syntax error".to_string(), 1, 10));
    assert_eq!(parse_error("main: () { return f(); }"), ("Syntax error".to_string(), 1, 10));
}

#[test]
fn argument_lists_of_declarations() {
    let names = |source: &str| -> Vec<String> {
        parse(source).unwrap().functions[0].arguments.iter().map(|a| a.name.clone()).collect()
    };
    assert_eq!(names("main: () { }"), Vec::<String>::new());
    assert_eq!(names("main: (a) { }"), vec!["a"]);
    assert_eq!(names("main: (a, b, c) { }"), vec!["a", "b", "c"]);
    assert_eq!(names("main: (a, ) { }"), vec!["a"]);
    assert_eq!(
        parse_error("main: (a b) { }"),
        ("Unexpected token in argument list declaration".to_string(), 1, 10)
    );
    assert_eq!(
        parse_error("main: (1) { }"),
        ("Unexpected token at function's close argument list declaration".to_string(), 1, 7)
    );
    assert_eq!(
        parse_error("main: { }"),
        ("Unexpected token at function's argument list declaration".to_string(), 1, 7)
    );
}

#[test]
fn variant_function_declaration_errors() {
    assert_eq!(
        parse_error("main () { }"),
        ("Missing token at function declaration".to_string(), 1, 5)
    );
    assert_eq!(
        parse_error("1: () { }"),
        ("Unexpected token at function declaration".to_string(), 1, 1)
    );
    assert_eq!(parse_error("main: () return 1;"), ("Syntax error".to_string(), 1, 10));
    assert_eq!(parse_error("main: () { return 1 }"), ("Syntax error".to_string(), 1, 10));
    assert_eq!(parse_error("main: () { return ; }"), ("Syntax error".to_string(), 1, 19));
    assert_eq!(parse_error("main: () { return + ; }"), ("Syntax error".to_string(), 1, 21));
    assert_eq!(parse_error("main: () { x 1; }"), ("Syntax error".to_string(), 1, 12));
    assert_eq!(parse_error("main: () { 1 = x; }"), ("Syntax error".to_string(), 1, 12));
    assert_eq!(
        parse_error("main: () { return 1;"),
        ("Syntax error".to_string(), 1, 21)
    );
}

#[test]
fn programs_need_a_main_function() {
    assert_eq!(parse_error(""), ("Program cannot be empty".to_string(), 0, 0));
    assert_eq!(parse_error("  \n"), ("Program cannot be empty".to_string(), 0, 0));
    assert_eq!(
        parse_error("helper: () { return 1; }"),
        ("No entry point: Missing main function".to_string(), 0, 0)
    );
    assert!(parse("helper: () { return 1; } main: () { return 2; }").is_ok());
}

#[test]
fn tokenizer_errors_stop_the_parser() {
    assert_eq!(parse_error("main: () { return $; }"), ("Syntax error".to_string(), 1, 19));
    assert_eq!(parse_error("$"), ("Syntax error".to_string(), 1, 1));
}

#[test]
fn new_variant_program_is_empty() {
    let program = Program::new();
    assert!(program.functions.is_empty());
    assert!(program.string_literals.is_empty());
}

#[test]
fn errors_as_text() {
    assert_eq!(at(3, 14).to_string(), "test.ez:3:14");
    let e = SyntaxError { position: at(0, 120), message: "Program cannot be empty".to_string() };
    assert_eq!(e.to_string(), "Syntax error at test.ez:0:120: Program cannot be empty");
    let e = CompileError { message: "Cannot open x.ez".to_string() };
    assert_eq!(e.to_string(), "Compilation error: Cannot open x.ez");
}

#[test]
fn assembling_a_program() {
    let mut compiler = Compiler::new("test.ez");
    let source = "add: (a, b) { return + a b; }\n\
                  main: () { x = add(2, 3); say(\"hi\"); return x; }";
    let text = compiler.assemble(source.to_string()).unwrap();
    let expected = "; Code generated with ezlang\n\
; filename: test.ez\n\
\n\
section .data\n    strltr.0 db `hi`, 0\n    strltr.0.len equ $-strltr.0\n\
\n\
section .text\n    global _start\n\
\n\
write:\n    ; prologue\n    push rbp\n    mov rbp, rsp\n    mov rax, 0x1\n    syscall\n    ; epilogue\n    mov rsp, rbp\n    pop rbp\n    ret\n\
\n\
add:\n    ; prologue\n    push rbp\n    mov rbp, rsp\n    sub rsp, 16\n    mov dword[rbp - 4], edi ; arg: a\n    mov dword[rbp - 8], esi ; arg: b\n    mov eax, dword[rbp - 8] ; var: b\n    mov edi, dword[rbp - 4] ; var: a\n    add eax, edi\n    jmp .add.ret\n    ; epilogue\n.add.ret:\n    mov rsp, rbp\n    pop rbp\n    ret\n\
\n\
main:\n    ; prologue\n    push rbp\n    mov rbp, rsp\n    sub rsp, 8\n    mov eax, 0x2\n    mov edi, eax\n    mov eax, 0x3\n    mov esi, eax\n    call add\n    mov dword[rbp - 4], eax ; var: x\n    mov eax, strltr.0 ; str: \"hi\"\n    mov edi, eax\n    call say\n    mov eax, dword[rbp - 4] ; var: x\n    jmp .main.ret\n    ; epilogue\n.main.ret:\n    mov rsp, rbp\n    pop rbp\n    ret\n\
\n\
_start:\n    call main ; entry point\n    mov rdi, rax\n    mov rax, 60\n    syscall";
    assert_eq!(text, expected);
    assert_eq!(compiler.filename(), "test.ez");
}

#[test]
fn assembling_reports_errors_as_text() {
    let mut compiler = Compiler::new("test.ez");
    let e = compiler.assemble("main () { }".to_string()).unwrap_err();
    assert_eq!(e.message, "Syntax error at test.ez:1:5: Missing token at function declaration");
    let e = compiler.assemble("main: () { return y; }".to_string()).unwrap_err();
    assert_eq!(e.message, "Runtime error: Unknown symbol \"y\"");
    let e = compiler.assemble(String::new()).unwrap_err();
    assert_eq!(e.message, "Syntax error at test.ez:0:0: Program cannot be empty");
}

#[test]
fn at_most_four_arguments_travel_in_registers() {
    assert_eq!(register_for(0), Some("edi"));
    assert_eq!(register_for(1), Some("esi"));
    assert_eq!(register_for(2), Some("edx"));
    assert_eq!(register_for(3), Some("ecx"));
    assert_eq!(register_for(4), None);
    let mut compiler = Compiler::new("test.ez");
    let e = compiler
        .assemble("main: () { f(1, 2, 3, 4, 5); return 0; }".to_string())
        .unwrap_err();
    assert_eq!(e.message, "Too many arguments");
    let e = compiler.assemble("main: (a, b, c, d, e) { return 0; }".to_string()).unwrap_err();
    assert_eq!(e.message, "Too many arguments");
    assert!(compiler.assemble("main: (a, b, c, d) { f(a, b, c, d); return 0; }".to_string()).is_ok());
}

#[test]
fn a_name_that_is_entered_again_hides_the_earlier_slot() {
    let slots = vec![("a".to_string(), 4), ("b".to_string(), 8), ("a".to_string(), 12)];
    assert_eq!(find_slot(&slots, &"a".to_string()), Some(12));
    assert_eq!(find_slot(&slots, &"b".to_string()), Some(8));
    assert_eq!(find_slot(&slots, &"c".to_string()), None);
    assert_eq!(find_slot(&Vec::new(), &"a".to_string()), None);
}

#[test]
fn assignments_store_at_the_last_slot() {
    let compiler = Compiler::new("unit.ez");
    let function = FunctionDeclaration {
        function_name: "f".to_string(),
        arguments: vec![Argument { name: "a".to_string() }],
        statements: vec![
            Statement::AssignStatement { symbol_name: "b".to_string(), expression: number(1) },
            Statement::AssignStatement { symbol_name: "a".to_string(), expression: number(2) },
        ],
    };
    let text = compiler.function_declaration(&function).unwrap();
    let expected = "\n\nf:\n    ; prologue\n    push rbp\n    mov rbp, rsp\n    sub rsp, 16\
\n    mov dword[rbp - 4], edi ; arg: a\
\n    mov eax, 0x1\n    mov dword[rbp - 8], eax ; var: b\
\n    mov eax, 0x2\n    mov dword[rbp - 8], eax ; var: a\
\n    ; epilogue\n.f.ret:\n    mov rsp, rbp\n    pop rbp\n    ret";
    assert_eq!(text, expected);
}

#[test]
fn expressions_of_every_kind() {
    let compiler = Compiler::new("unit.ez");
    let slots = vec![("a".to_string(), 4)];
    let text = |e: &Expression, register: &str| compiler.expression(e, register, &slots);
    assert_eq!(text(&number(255), "ebx").unwrap(), "\n    mov ebx, 0xff");
    assert_eq!(text(&symbol("a"), "eax").unwrap(), "\n    mov eax, dword[rbp - 4] ; var: a");
    assert_eq!(
        text(&symbol("zz"), "eax").unwrap_err().message,
        "Runtime error: Unknown symbol \"zz\""
    );
    assert_eq!(
        text(&operation(BinaryOperator::Division, symbol("a"), number(2)), "ecx").unwrap(),
        "\n    mov eax, 0x2\n    mov edi, dword[rbp - 4] ; var: a\n    idiv eax, edi"
    );
    assert_eq!(
        text(&Expression::CallStatement("f".to_string(), None), "eax").unwrap(),
        "\n    call f"
    );
    assert_eq!(
        text(&Expression::CallStatement("f".to_string(), Some(vec![symbol("a")])), "eax").unwrap(),
        "\n    mov eax, dword[rbp - 4] ; var: a\n    mov edi, eax\n    call f"
    );
    assert_eq!(
        text(&Expression::StringLiteral("strltr.3".to_string(), "x y".to_string()), "eax").unwrap(),
        "\n    mov eax, strltr.3 ; str: \"x y\""
    );
}

#[test]
fn reserved_space_is_the_next_multiple_of_eight() {
    let compiler = Compiler::new("unit.ez");
    let space = |count: usize| -> String {
        let function = FunctionDeclaration {
            function_name: "f".to_string(),
            arguments: Vec::new(),
            statements: (0..count)
                .map(|i| Statement::AssignStatement {
                    symbol_name: format!("v{}", i),
                    expression: number(0),
                })
                .collect(),
        };
        let text = compiler.function_declaration(&function).unwrap();
        let start = text.find("sub rsp, ").unwrap() + 9;
        text[start..].lines().next().unwrap().to_string()
    };
    assert_eq!(space(0), "8");
    assert_eq!(space(1), "8");
    assert_eq!(space(2), "16");
    assert_eq!(space(3), "16");
    assert_eq!(space(4), "24");
}
