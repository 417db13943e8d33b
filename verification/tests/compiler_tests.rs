use ezlang::compiler::{
    write_load_number, CompileError, Compiler, GenError, Register, TypeSize,
};
use ezlang::lexer::{BinaryOperator, LexErrorKind};
use ezlang::parser::{
    BinaryExpression, Expression, Function, Local, LocalStack, Program, Scope, Statement,
    SyntaxErrorKind,
};
use std::collections::HashMap;

fn compile(source: &str) -> Result<String, CompileError> {
    let mut compiler = Compiler::from_file("test.ez", source.as_bytes().to_vec());
    compiler.compile()?;
    Ok(compiler.output().clone())
}

/// Runs generated assembly text on a small model of the machine and
/// returns the exit code that the `exit` system call receives.
fn run(assembly: &str) -> u64 {
    let lines: Vec<String> = assembly
        .lines()
        .map(|line| {
            let code = match line.find(';') {
                Some(at) => &line[..at],
                None => line,
            };
            code.trim().to_string()
        })
        .collect();
    let mut labels: HashMap<String, usize> = HashMap::new();
    let mut scopes: Vec<String> = Vec::new();
    let mut scope = String::new();
    for (at, line) in lines.iter().enumerate() {
        if let Some(name) = line.strip_suffix(':') {
            if name.starts_with('.') {
                labels.insert(format!("{}{}", scope, name), at);
            } else {
                scope = name.to_string();
                labels.insert(name.to_string(), at);
            }
        }
        scopes.push(scope.clone());
    }
    let mut registers: HashMap<String, u64> = HashMap::new();
    for name in ["rax", "rcx", "rdx", "rbx", "rsp", "rbp", "rsi", "rdi"] {
        registers.insert(name.to_string(), 0);
    }
    registers.insert("rsp".to_string(), 1 << 20);
    let mut memory: HashMap<u64, u64> = HashMap::new();
    let number = |text: &str| -> u64 {
        match text.strip_prefix("0x") {
            Some(hex) => u64::from_str_radix(hex, 16).unwrap(),
            None => text.parse().unwrap(),
        }
    };
    let address = |operand: &str, registers: &HashMap<String, u64>| -> u64 {
        let inner = &operand[operand.find('[').unwrap() + 1..operand.find(']').unwrap()];
        let parts: Vec<&str> = inner.split_whitespace().collect();
        let base = registers[parts[0]];
        match parts[1] {
            "+" => base.wrapping_add(number(parts[2])),
            "-" => base.wrapping_sub(number(parts[2])),
            other => panic!("unknown sign {}", other),
        }
    };
    let mut pc = labels["_start"];
    let mut steps = 0;
    loop {
        steps += 1;
        assert!(steps < 100_000, "the program does not end");
        let line = lines[pc].clone();
        pc += 1;
        if line.is_empty() || line.starts_with("section") || line.starts_with("global") {
            continue;
        }
        if line.ends_with(':') {
            continue;
        }
        let (mnemonic, rest) = match line.find(char::is_whitespace) {
            Some(at) => (&line[..at], line[at..].trim()),
            None => (line.as_str(), ""),
        };
        let operands: Vec<String> = rest.split(',').map(|o| o.trim().to_string()).collect();
        match mnemonic {
            "mov" => {
                let value = if operands[1].contains('[') {
                    assert!(operands[1].starts_with("qword"));
                    *memory.get(&address(&operands[1], &registers)).unwrap_or(&0)
                } else if registers.contains_key(&operands[1]) {
                    registers[&operands[1]]
                } else {
                    number(&operands[1])
                };
                if operands[0].contains('[') {
                    assert!(operands[0].starts_with("qword"));
                    memory.insert(address(&operands[0], &registers), value);
                } else {
                    assert!(registers.contains_key(&operands[0]));
                    registers.insert(operands[0].clone(), value);
                }
            }
            "add" | "sub" | "imul" | "or" | "and" | "xor" => {
                let left = registers[&operands[0]];
                let right = if registers.contains_key(&operands[1]) {
                    registers[&operands[1]]
                } else {
                    number(&operands[1])
                };
                let value = match mnemonic {
                    "add" => left.wrapping_add(right),
                    "sub" => left.wrapping_sub(right),
                    "imul" => left.wrapping_mul(right),
                    "or" => left | right,
                    "and" => left & right,
                    _ => left ^ right,
                };
                registers.insert(operands[0].clone(), value);
            }
            "push" => {
                let rsp = registers["rsp"] - 8;
                registers.insert("rsp".to_string(), rsp);
                memory.insert(rsp, registers[&operands[0]]);
            }
            "pop" => {
                let rsp = registers["rsp"];
                registers.insert(operands[0].clone(), *memory.get(&rsp).unwrap_or(&0));
                registers.insert("rsp".to_string(), rsp + 8);
            }
            "call" => {
                let rsp = registers["rsp"] - 8;
                registers.insert("rsp".to_string(), rsp);
                memory.insert(rsp, pc as u64);
                pc = labels[&operands[0]];
            }
            "ret" => {
                let rsp = registers["rsp"];
                pc = memory[&rsp] as usize;
                registers.insert("rsp".to_string(), rsp + 8);
            }
            "jmp" => {
                pc = labels[&format!("{}{}", scopes[pc - 1], operands[0])];
            }
            "syscall" => {
                assert_eq!(registers["rax"], 60);
                return registers["rdi"];
            }
            other => panic!("unknown instruction {}", other),
        }
    }
}

fn stack_reservations(assembly: &str) -> Vec<u64> {
    assembly
        .lines()
        .filter_map(|line| line.trim().strip_prefix("sub rsp, 0x"))
        .map(|hex| u64::from_str_radix(hex, 16).unwrap())
        .collect()
}

#[test]
fn main_returning_an_expression() {
    let assembly = compile("fn main: () { return 2+3*4; }").unwrap();
    let expected = "; Source File: test.ez\n\
                    section .text\n\
                    \tglobal _start\n\
                    _start:\n\
                    \tcall main\n\
                    \tmov rdi, rax\n\
                    \tmov rax, 0x3c\n\
                    \tsyscall\n\
                    main:\n\
                    \tpush rbp\n\
                    \tmov rbp, rsp\n\
                    \tsub rsp, 0x10\n\
                    \tmov rdx, 0x3\n\
                    \tmov rcx, 0x4\n\
                    \timul rdx, rcx\n\
                    \tmov rcx, 0x2\n\
                    \tadd rcx, rdx\n\
                    \tmov rax, rcx\n\
                    \tjmp .return_main\n\
                    .return_main:\n\
                    \tmov rsp, rbp\n\
                    \tpop rbp\n\
                    \tret\n";
    assert_eq!(assembly, expected);
    assert_eq!(run(&assembly), 14);
}

#[test]
fn calling_a_function_with_two_arguments() {
    let source = "fn add: (a, b) { return a + b; }\nfn main: () { return @add(2, 3); }";
    let assembly = compile(source).unwrap();
    let expected = "; Source File: test.ez\n\
                    section .text\n\
                    \tglobal _start\n\
                    _start:\n\
                    \tcall main\n\
                    \tmov rdi, rax\n\
                    \tmov rax, 0x3c\n\
                    \tsyscall\n\
                    add:\n\
                    \tpush rbp\n\
                    \tmov rbp, rsp\n\
                    \tsub rsp, 0x20\n\
                    \tmov rax, qword [rbp + 0x10]\n\
                    \tmov qword [rbp - 0x8], rax\t; a\n\
                    \tmov rax, qword [rbp + 0x18]\n\
                    \tmov qword [rbp - 0x10], rax\t; b\n\
                    \tmov rcx, qword [rbp - 0x8]\t; a\n\
                    \tmov rdx, qword [rbp - 0x10]\t; b\n\
                    \tadd rcx, rdx\n\
                    \tmov rax, rcx\n\
                    \tjmp .return_add\n\
                    .return_add:\n\
                    \tmov rsp, rbp\n\
                    \tpop rbp\n\
                    \tret\n\
                    main:\n\
                    \tpush rbp\n\
                    \tmov rbp, rsp\n\
                    \tsub rsp, 0x10\n\
                    \tmov rcx, 0x2\n\
                    \tpush rcx;\ta\n\
                    \tmov rcx, 0x3\n\
                    \tpush rcx;\tb\n\
                    \tcall add\n\
                    \tmov rcx, rax\n\
                    \tmov rax, rcx\n\
                    \tjmp .return_main\n\
                    .return_main:\n\
                    \tmov rsp, rbp\n\
                    \tpop rbp\n\
                    \tret\n";
    assert_eq!(assembly, expected);
    let two = assembly.find("mov rcx, 0x2").unwrap();
    let three = assembly.find("mov rcx, 0x3").unwrap();
    let call = assembly.find("call add").unwrap();
    assert!(two < three && three < call);
    assert_eq!(run(&assembly), 5);
}

#[test]
fn locals_and_assignments_run() {
    let source = "fn main: () { var a = 5; var b = a * a; a = b - 4 | 1; return a & 16#1f; }";
    let assembly = compile(source).unwrap();
    assert_eq!(run(&assembly), ((5 * 5 - 4) | 1) & 0x1f);
}

#[test]
fn nested_operations_on_the_left_come_first() {
    let assembly = compile("fn main: () { return (1+2)*3; }").unwrap();
    let body = "\tmov rcx, 0x1\n\tmov rdx, 0x2\n\tadd rcx, rdx\n\tmov rdx, 0x3\n\timul rcx, rdx\n";
    assert!(assembly.contains(body));
    assert_eq!(run(&assembly), 9);
}

#[test]
fn subtraction_keeps_its_operand_order() {
    assert_eq!(run(&compile("fn main: () { return 9-2; }").unwrap()), 7);
    assert_eq!(run(&compile("fn main: () { return 9-2*3; }").unwrap()), 3);
    assert_eq!(run(&compile("fn main: () { return 3*4-2; }").unwrap()), 10);
}

#[test]
fn stack_reservation_is_a_multiple_of_sixteen() {
    let mut source = String::from("fn main: () {");
    for i in 0..9 {
        source.push_str(&format!(" var v{} = {};", i, i));
        let program = format!("{} return 0; }}", source);
        let assembly = compile(&program).unwrap();
        let reserved = stack_reservations(&assembly);
        assert_eq!(reserved.len(), 1);
        assert_eq!(reserved[0] % 16, 0);
        assert!(reserved[0] >= 8 * (i + 1) + 8);
        assert!(reserved[0] < 8 * (i + 1) + 8 + 16);
    }
}

#[test]
fn stack_reservation_values() {
    let reserved = |locals: &str| {
        stack_reservations(&compile(&format!("fn main: ({}) {{ return 0; }}", locals)).unwrap())[0]
    };
    assert_eq!(reserved(""), 0x10);
    assert_eq!(reserved("a"), 0x10);
    assert_eq!(reserved("a, b"), 0x20);
    assert_eq!(reserved("a, b, c"), 0x20);
    assert_eq!(reserved("a, b, c, d"), 0x30);
}

fn function(name: &str, locals: Vec<Local>, arguments: Vec<usize>, body: Vec<Statement>) -> Function {
    Function {
        name: name.to_string(),
        locals: LocalStack { locals },
        arguments,
        body: Scope { statements: body },
    }
}

fn slot(label: &str, offset: usize, size: usize) -> Local {
    Local { size, offset, label: label.to_string() }
}

fn generator() -> Compiler {
    Compiler::from_file("unit.ez", Vec::new())
}

#[test]
fn stack_reservation_rounds_up_for_small_slots() {
    let f = function("f", vec![slot("a", 0, 1)], vec![], vec![]);
    let text = generator().write_function(&f, &vec![]).unwrap();
    assert_eq!(stack_reservations(&text), vec![0x10]);
    let f = function("f", vec![slot("a", 0, 1), slot("b", 1, 8)], vec![], vec![]);
    let text = generator().write_function(&f, &vec![]).unwrap();
    assert_eq!(stack_reservations(&text), vec![0x20]);
}

#[test]
fn storage_classes_follow_the_size_of_the_local() {
    let locals = vec![slot("a", 0, 1), slot("b", 1, 2), slot("c", 3, 4), slot("d", 7, 8)];
    let f = function(
        "f",
        locals,
        vec![0, 1, 2, 3],
        vec![Statement::Assign(2, Expression::Local(1))],
    );
    let text = generator().write_function(&f, &vec![]).unwrap();
    let expected = "\nf:\n\tpush rbp\n\tmov rbp, rsp\n\tsub rsp, 0x20\
                    \n\tmov rax, byte [rbp + 0x10]\n\tmov byte [rbp - 0x1], rax\t; a\
                    \n\tmov rax, word [rbp + 0x11]\n\tmov word [rbp - 0x3], rax\t; b\
                    \n\tmov rax, dword [rbp + 0x13]\n\tmov dword [rbp - 0x7], rax\t; c\
                    \n\tmov rax, qword [rbp + 0x17]\n\tmov qword [rbp - 0xf], rax\t; d\
                    \n\tmov rcx, word [rbp - 0x3]\t; b\
                    \n\tmov dword [rbp - 0x7], rcx\t; c\
                    \n.return_f:\n\tmov rsp, rbp\n\tpop rbp\n\tret";
    assert_eq!(text, expected);
}

#[test]
fn unknown_storage_size_is_an_error() {
    let f = function("f", vec![slot("a", 0, 3)], vec![0], vec![]);
    assert_eq!(generator().write_function(&f, &vec![]), Err(GenError::UnknownSize));
    assert_eq!(slot("a", 0, 3).get_word_type(), Err(GenError::UnknownSize));
    assert_eq!(slot("a", 0, 0).get_word_type(), Err(GenError::UnknownSize));
    assert_eq!(slot("a", 0, 1).get_word_type(), Ok(TypeSize::Byte));
    assert_eq!(slot("a", 0, 2).get_word_type(), Ok(TypeSize::Word));
    assert_eq!(slot("a", 0, 4).get_word_type(), Ok(TypeSize::Double));
    assert_eq!(slot("a", 0, 8).get_word_type(), Ok(TypeSize::Quad));
}

#[test]
fn type_size_names_and_bytes() {
    assert_eq!(TypeSize::Byte.name(), "byte");
    assert_eq!(TypeSize::Word.name(), "word");
    assert_eq!(TypeSize::Double.name(), "dword");
    assert_eq!(TypeSize::Quad.name(), "qword");
    assert_eq!(TypeSize::Byte.bytes(), 1);
    assert_eq!(TypeSize::Word.bytes(), 2);
    assert_eq!(TypeSize::Double.bytes(), 4);
    assert_eq!(TypeSize::Quad.bytes(), 8);
}

#[test]
fn instructions_of_the_operators() {
    assert_eq!(BinaryOperator::Add.get_instruction(), Ok("add"));
    assert_eq!(BinaryOperator::Sub.get_instruction(), Ok("sub"));
    assert_eq!(BinaryOperator::Mul.get_instruction(), Ok("imul"));
    assert_eq!(BinaryOperator::BitwiseOr.get_instruction(), Ok("or"));
    assert_eq!(BinaryOperator::BitwiseAnd.get_instruction(), Ok("and"));
    assert_eq!(BinaryOperator::BitwiseXor.get_instruction(), Ok("xor"));
    assert_eq!(BinaryOperator::Div.get_instruction(), Err(GenError::UnsupportedOperator));
}

#[test]
fn division_fails_loudly() {
    match compile("fn main: () { return 8/2; }") {
        Err(CompileError::Gen(GenError::UnsupportedOperator)) => {}
        other => panic!("unexpected outcome: {:?}", other),
    }
}

#[test]
fn register_names() {
    assert_eq!(Register::R1(64).name(), Ok("rax"));
    assert_eq!(Register::R1(32).name(), Ok("eax"));
    assert_eq!(Register::R1(16).name(), Ok("ax"));
    assert_eq!(Register::R1(8).name(), Ok("al"));
    assert_eq!(Register::R2(64).name(), Ok("rcx"));
    assert_eq!(Register::R3(64).name(), Ok("rdx"));
    assert_eq!(Register::R4(64).name(), Ok("rbx"));
    assert_eq!(Register::R5(64).name(), Ok("rsp"));
    assert_eq!(Register::R6(64).name(), Ok("rbp"));
    assert_eq!(Register::R7(64).name(), Ok("rsi"));
    assert_eq!(Register::R8(64).name(), Ok("rdi"));
    assert_eq!(Register::R8(32).name(), Ok("edi"));
    assert_eq!(Register::R7(16).name(), Ok("si"));
    assert_eq!(Register::R6(8).name(), Ok("ch"));
    assert_eq!(Register::R1(12).name(), Err(GenError::InvalidRegisterSize));
    assert_eq!(Register::R5(0).name(), Err(GenError::InvalidRegisterSize));
}

#[test]
fn numbers_are_written_in_hexadecimal() {
    let text = |n: u64| write_load_number(&Register::R2(64), n).unwrap();
    assert_eq!(text(0), "\n\tmov rcx, 0x0");
    assert_eq!(text(9), "\n\tmov rcx, 0x9");
    assert_eq!(text(10), "\n\tmov rcx, 0xa");
    assert_eq!(text(255), "\n\tmov rcx, 0xff");
    assert_eq!(text(4096), "\n\tmov rcx, 0x1000");
    assert_eq!(text(u64::MAX), "\n\tmov rcx, 0xffffffffffffffff");
    assert_eq!(
        write_load_number(&Register::R2(7), 1),
        Err(GenError::InvalidRegisterSize)
    );
}

#[test]
fn dangling_indices_are_errors() {
    let compiler = generator();
    let stack = LocalStack { locals: vec![slot("a", 0, 8)] };
    let text = |e: &Expression, functions: &Vec<Function>| {
        compiler.write_expression(e, &Register::R2(64), &Register::R3(64), &stack, functions)
    };
    assert_eq!(text(&Expression::Local(1), &vec![]), Err(GenError::UnknownLocal));
    assert_eq!(
        text(&Expression::Local(0), &vec![]).unwrap(),
        "\n\tmov rcx, qword [rbp - 0x8]\t; a"
    );
    assert_eq!(text(&Expression::Call(0, vec![]), &vec![]), Err(GenError::UnknownFunction));
    let callee = function("f", vec![slot("x", 0, 8)], vec![0], vec![]);
    assert_eq!(
        text(&Expression::Call(0, vec![]), &vec![callee]),
        Err(GenError::ArgumentMismatch)
    );
    let broken = function("f", vec![], vec![3], vec![]);
    assert_eq!(
        text(&Expression::Call(0, vec![Expression::NumberLiteral(1)]), &vec![broken]),
        Err(GenError::UnknownLocal)
    );
    let f = function("f", vec![], vec![], vec![Statement::Assign(0, Expression::NumberLiteral(1))]);
    assert_eq!(compiler.write_function(&f, &vec![]), Err(GenError::UnknownLocal));
}

#[test]
fn the_first_error_is_reported() {
    let compiler = generator();
    let stack = LocalStack { locals: vec![] };
    let e = Expression::Binary(BinaryExpression {
        operator: BinaryOperator::Div,
        left: Box::new(Expression::Local(0)),
        right: Box::new(Expression::NumberLiteral(1)),
    });
    assert_eq!(
        compiler.write_expression(&e, &Register::R2(64), &Register::R3(64), &stack, &vec![]),
        Err(GenError::UnknownLocal)
    );
}

#[test]
fn frames_beyond_the_address_range_are_errors() {
    let f = function("f", vec![slot("a", usize::MAX - 8, 8)], vec![], vec![]);
    assert_eq!(generator().write_function(&f, &vec![]), Err(GenError::FrameTooLarge));
    let f = function("f", vec![slot("a", usize::MAX, 8)], vec![], vec![]);
    assert_eq!(generator().write_function(&f, &vec![]), Err(GenError::FrameTooLarge));
}

#[test]
fn programs_written_by_hand() {
    let main = function(
        "main",
        vec![],
        vec![],
        vec![
            Statement::Call(Expression::NumberLiteral(1)),
            Statement::Return(Expression::NumberLiteral(7)),
        ],
    );
    let program = Program { functions: vec![main] };
    let text = generator().write_program(&program).unwrap();
    assert!(text.starts_with("; Source File: unit.ez\nsection .text\n\tglobal _start\n_start:"));
    assert!(text.ends_with("\n\tret\n"));
    assert_eq!(run(&text), 7);
}

#[test]
fn every_function_has_one_epilogue() {
    let source = "fn f: (x) { return x; return 1; }\nfn main: () { return @f(4); }";
    let assembly = compile(source).unwrap();
    assert_eq!(assembly.matches("\n.return_f:").count(), 1);
    assert_eq!(assembly.matches("\n.return_main:").count(), 1);
    assert_eq!(assembly.matches("\tret\n").count(), 2);
    assert_eq!(assembly.matches("jmp .return_f").count(), 2);
    assert_eq!(run(&assembly), 4);
}

#[test]
fn errors_of_every_stage() {
    match compile("fn main: () { return 9#1; }") {
        Err(CompileError::Lex(e)) => assert_eq!(e.kind, LexErrorKind::UnknownBase),
        other => panic!("unexpected outcome: {:?}", other),
    }
    match compile("fn helper: () { return 1; }") {
        Err(CompileError::Syntax(e)) => assert_eq!(e.kind, SyntaxErrorKind::MissingMain),
        other => panic!("unexpected outcome: {:?}", other),
    }
    match compile("") {
        Err(CompileError::Syntax(e)) => assert_eq!(e.kind, SyntaxErrorKind::EmptyProgram),
        other => panic!("unexpected outcome: {:?}", other),
    }
}

#[test]
fn output_is_untouched_after_an_error() {
    let mut compiler = Compiler::from_file("test.ez", b"fn main: () { return 8/2; }".to_vec());
    assert!(compiler.compile().is_err());
    assert_eq!(compiler.output(), "");
}

#[test]
fn compiling_again_does_the_same_again() {
    let mut compiler = Compiler::from_file("test.ez", b"fn main: () { return 7; }".to_vec());
    compiler.compile().unwrap();
    let once = compiler.output().clone();
    compiler.compile().unwrap();
    assert_eq!(compiler.output(), &format!("{}{}", once, once));
    let mut compiler = Compiler::from_file("test.ez", b"fn main: () { return $; }".to_vec());
    let first = compiler.compile().unwrap_err().to_string();
    let second = compiler.compile().unwrap_err().to_string();
    assert_eq!(first, "test.ez:1:22: Unknown token");
    assert_eq!(first, second);
}

#[test]
fn compile_errors_as_text() {
    let text = |source: &str| compile(source).unwrap_err().to_string();
    assert_eq!(text("fn main: () { return 1 }"), "test.ez:1:24: Unexpected token.");
    assert_eq!(text("fn main: () { return 1/2; }"), "Division has no instruction yet");
    assert_eq!(text("fn main: () { return 16#; "), "test.ez:1:27: Expected statement.");
    assert_eq!(GenError::UnknownSize.message(), "Unknown size");
    assert_eq!(GenError::InvalidRegisterSize.message(), "Invalid register size");
    assert_eq!(GenError::UnknownLocal.message(), "No local found");
    assert_eq!(GenError::UnknownFunction.message(), "No function found");
    assert_eq!(GenError::ArgumentMismatch.message(), "Argument mismatch");
    assert_eq!(GenError::FrameTooLarge.message(), "Locals exceed the address range");
}

#[test]
fn call_results_take_part_in_arithmetic() {
    let source = "fn seven: () { return 7; }\n\
                  fn main: () { var a = @seven() + 1; return a * 2; }";
    assert_eq!(run(&compile(source).unwrap()), 16);
}
