//! The generator of the variant: 32-bit values in slots under the frame
//! pointer, found by name in a flat table, and arguments in registers.

use vstd::prelude::*;
use vstd::string::*;
use vstd::utf8::*;
use crate::ezlang::grammar::parse;
use crate::ezlang::{
    BinaryOperator, CompileError, Compiler, Expression, ExpressionView, FunctionDeclaration,
    FunctionDeclarationView, Parser, ParserView, Position, PositionView, Program, ProgramView,
    Statement, StatementView, SyntaxError, SyntaxErrorView, TokenizerView,
};
use crate::text::{decimal_text, hex_text, push_decimal, push_hex};

verus! {

/// Text, or the message that says why there is none.
pub type Text = Result<Seq<char>, Seq<char>>;

/// `first` followed by `second`; the error of the first that has one.
pub open spec fn join(first: Text, second: Text) -> Text {
    match first {
        Err(e) => Err(e),
        Ok(head) => match second {
            Err(e) => Err(e),
            Ok(tail) => Ok(head + tail),
        },
    }
}

/// `result` holds the text that `text` describes, or its message.
pub open spec fn yields(result: Result<String, CompileError>, text: Text) -> bool {
    match text {
        Ok(expected) => result is Ok && result->Ok_0@ == expected,
        Err(message) => result is Err && result->Err_0.message@ == message,
    }
}

/// The compile error with the message `message`.
pub fn failure(message: String) -> (e: CompileError)
    ensures
        e.message@ == message@,
{
    CompileError { message }
}

/// The text of a position: file, line and column with colons between them.
pub open spec fn position_text(position: PositionView) -> Seq<char> {
    position.file + ":"@ + decimal_text(position.line as nat) + ":"@ + decimal_text(
        position.column as nat,
    )
}

/// The text of a syntax error.
pub open spec fn syntax_error_text(e: SyntaxErrorView) -> Seq<char> {
    "Syntax error at "@ + position_text(e.position) + ": "@ + e.message
}

/// The text of a compile error.
pub open spec fn compile_error_text(message: Seq<char>) -> Seq<char> {
    "Compilation error: "@ + message
}

impl Position {
    /// The position as text.
    pub fn to_string(&self) -> (text: String)
        ensures
            text@ == position_text(self@),
    {
        let mut text = self.file.clone();
        text.append(":");
        push_decimal(&mut text, self.line as u64);
        text.append(":");
        push_decimal(&mut text, self.column as u64);
        text
    }
}

impl SyntaxError {
    /// The error as text.
    pub fn to_string(&self) -> (text: String)
        ensures
            text@ == syntax_error_text(self@),
    {
        let mut text = String::from_str("Syntax error at ");
        text.append(self.position.to_string().as_str());
        text.append(": ");
        text.append(self.message.as_str());
        text
    }
}

impl CompileError {
    /// The error as text.
    pub fn to_string(&self) -> (text: String)
        ensures
            text@ == compile_error_text(self.message@),
    {
        let mut text = String::from_str("Compilation error: ");
        text.append(self.message.as_str());
        text
    }
}

/// The register in which the argument at place `k` of a call travels.
pub open spec fn argument_register(k: int) -> Option<Seq<char>> {
    if k == 0 {
        Some("edi"@)
    } else if k == 1 {
        Some("esi"@)
    } else if k == 2 {
        Some("edx"@)
    } else if k == 3 {
        Some("ecx"@)
    } else {
        None
    }
}

/// The register in which the argument at place `k` of a call travels.
pub fn register_for(k: usize) -> (register: Option<&'static str>)
    ensures
        register.deep_view() == argument_register(k as int),
{
    if k == 0 {
        Some("edi")
    } else if k == 1 {
        Some("esi")
    } else if k == 2 {
        Some("edx")
    } else if k == 3 {
        Some("ecx")
    } else {
        None
    }
}

/// The instruction of an operator.
pub open spec fn mnemonic(operator: BinaryOperator) -> Seq<char> {
    match operator {
        BinaryOperator::Addition => "add"@,
        BinaryOperator::Subtraction => "sub"@,
        BinaryOperator::Multiplication => "imul"@,
        BinaryOperator::Division => "idiv"@,
        BinaryOperator::And => "and"@,
        BinaryOperator::Or => "or"@,
        BinaryOperator::Xor => "xor"@,
    }
}

/// The instruction of an operator.
pub fn operator_mnemonic(operator: BinaryOperator) -> (name: &'static str)
    ensures
        name@ == mnemonic(operator),
{
    match operator {
        BinaryOperator::Addition => "add",
        BinaryOperator::Subtraction => "sub",
        BinaryOperator::Multiplication => "imul",
        BinaryOperator::Division => "idiv",
        BinaryOperator::And => "and",
        BinaryOperator::Or => "or",
        BinaryOperator::Xor => "xor",
    }
}

/// The table of the locals of a function: names with the offsets of their
/// slots. A name that is entered again hides its earlier entry.
pub type Slots = Seq<(Seq<char>, usize)>;

/// The offset of the slot of `name`: that of its last entry.
pub open spec fn slot_of(slots: Slots, name: Seq<char>) -> Option<usize>
    decreases slots.len(),
{
    if slots.len() == 0 {
        None
    } else if slots.last().0 == name {
        Some(slots.last().1)
    } else {
        slot_of(slots.drop_last(), name)
    }
}

/// The offset of the slot of `name`.
pub fn find_slot(slots: &Vec<(String, usize)>, name: &String) -> (offset: Option<usize>)
    ensures
        offset == slot_of(slots.deep_view(), name@),
{
    let mut i: usize = slots.len();
    assert(slots.deep_view().take(i as int) =~= slots.deep_view());
    while i > 0
        invariant
            i <= slots.len(),
            slot_of(slots.deep_view().take(i as int), name@) == slot_of(slots.deep_view(), name@),
        decreases i,
    {
        let ghost considered = slots.deep_view().take(i as int);
        if slots[i - 1].0 == *name {
            assert(considered.last() == slots.deep_view()[i - 1]);
            return Some(slots[i - 1].1);
        }
        proof {
            assert(considered.drop_last() =~= slots.deep_view().take(i - 1));
        }
        i -= 1;
    }
    proof {
        assert(slots.deep_view().take(0).len() == 0);
    }
    None
}

/// The code that leaves the value of `e` in the register `register`. A
/// binary operation computes its right side in `eax`, then its left side in
/// `edi`, and leaves the result in `eax`; a call moves each argument through
/// `eax` into its register and leaves what the callee returned in `eax`.
pub open spec fn expression_text(e: ExpressionView, register: Seq<char>, slots: Slots) -> Text
    decreases e, 0int,
{
    match e {
        ExpressionView::NumberLiteral(value) => Ok(
            "\n    mov "@ + register + ", "@ + hex_text(value as nat),
        ),
        ExpressionView::Symbol(name) => match slot_of(slots, name) {
            None => Err("Runtime error: Unknown symbol \""@ + name + "\""@),
            Some(offset) => Ok(
                "\n    mov "@ + register + ", dword[rbp - "@ + decimal_text(offset as nat)
                    + "] ; var: "@ + name,
            ),
        },
        ExpressionView::CallStatement(name, arguments) => join(
            match arguments {
                Some(list) => moves_text(list, list.len() as int, slots),
                None => Ok(Seq::empty()),
            },
            Ok("\n    call "@ + name),
        ),
        ExpressionView::BinaryOperation(operator, left, right) => join(
            join(expression_text(*right, "eax"@, slots), expression_text(*left, "edi"@, slots)),
            Ok("\n    "@ + mnemonic(operator) + " eax, edi"@),
        ),
        ExpressionView::StringLiteral(label, text) => Ok(
            "\n    mov "@ + register + ", "@ + label + " ; str: \""@ + text + "\""@,
        ),
    }
}

/// The move of `eax` into the register of the argument at place `k`.
pub open spec fn move_text(k: int) -> Text {
    match argument_register(k) {
        Some(register) => Ok("\n    mov "@ + register + ", eax"@),
        None => Err("Too many arguments"@),
    }
}

/// The code that computes the first `k` of `arguments` and moves each into
/// its register.
pub open spec fn moves_text(arguments: Seq<ExpressionView>, k: int, slots: Slots) -> Text
    decreases arguments, k,
{
    if k <= 0 || k > arguments.len() {
        Ok(Seq::empty())
    } else {
        join(
            join(
                moves_text(arguments, k - 1, slots),
                expression_text(arguments[k - 1], "eax"@, slots),
            ),
            move_text(k - 1),
        )
    }
}

/// Once an argument has failed, the arguments behind it change nothing.
pub proof fn lemma_moves_error(arguments: Seq<ExpressionView>, k: int, n: int, slots: Slots)
    requires
        0 <= k <= n <= arguments.len(),
        moves_text(arguments, k, slots) is Err,
    ensures
        moves_text(arguments, n, slots) == moves_text(arguments, k, slots),
    decreases n - k,
{
    if k < n {
        lemma_moves_error(arguments, k, n - 1, slots);
    }
}

/// What the generator knows in the middle of a function: the slots, the
/// offset of the slot given out last, and the code written so far.
pub struct Frame {
    pub slots: Slots,
    pub offset: usize,
    pub code: Seq<char>,
}

/// A frame, or the message that says why there is none.
pub type Framed = Result<Frame, Seq<char>>;

/// The frame with `text` added to its code.
pub open spec fn write(frame: Frame, text: Text) -> Framed {
    match text {
        Ok(more) => Ok(Frame { slots: frame.slots, offset: frame.offset, code: frame.code + more }),
        Err(e) => Err(e),
    }
}

/// The frame with a new slot for `name`, four bytes under the last.
pub open spec fn declare(frame: Frame, name: Seq<char>) -> Framed {
    if frame.offset + 4 > usize::MAX {
        Err("Too many locals"@)
    } else {
        Ok(
            Frame {
                slots: frame.slots.push((name, (frame.offset + 4) as usize)),
                offset: (frame.offset + 4) as usize,
                code: frame.code,
            },
        )
    }
}

/// The frame after the first `k` arguments of a function: each gets a slot
/// and is stored there from its register.
pub open spec fn arguments_frame(arguments: Seq<Seq<char>>, k: int) -> Framed
    decreases k,
{
    if k <= 0 || k > arguments.len() {
        Ok(Frame { slots: Seq::empty(), offset: 0, code: Seq::empty() })
    } else {
        match arguments_frame(arguments, k - 1) {
            Err(e) => Err(e),
            Ok(before) => match declare(before, arguments[k - 1]) {
                Err(e) => Err(e),
                Ok(frame) => write(
                    frame,
                    match argument_register(k - 1) {
                        Some(register) => Ok(
                            "\n    mov dword[rbp - "@ + decimal_text(frame.offset as nat) + "], "@
                                + register + " ; arg: "@ + arguments[k - 1],
                        ),
                        None => Err("Too many arguments"@),
                    },
                ),
            },
        }
    }
}

/// The frame after one statement of the function `name`. An assignment
/// to a name without a slot gives it one; the value is stored at the offset
/// of the slot that was given out last.
pub open spec fn statement_frame(frame: Frame, statement: StatementView, name: Seq<char>) -> Framed {
    match statement {
        StatementView::AssignStatement { symbol_name, expression } => {
            let declared = if slot_of(frame.slots, symbol_name) is Some {
                Ok(frame)
            } else {
                declare(frame, symbol_name)
            };
            match declared {
                Err(e) => Err(e),
                Ok(known) => match write(known, expression_text(expression, "eax"@, known.slots)) {
                    Err(e) => Err(e),
                    Ok(computed) => write(
                        computed,
                        Ok(
                            "\n    mov dword[rbp - "@ + decimal_text(computed.offset as nat)
                                + "], eax ; var: "@ + symbol_name,
                        ),
                    ),
                },
            }
        },
        StatementView::ReturnStatement { return_value } => match write(
            frame,
            expression_text(return_value, "eax"@, frame.slots),
        ) {
            Err(e) => Err(e),
            Ok(computed) => write(computed, Ok("\n    jmp ."@ + name + ".ret"@)),
        },
        StatementView::CallStatement { function_name, arguments } => match write(
            frame,
            match arguments {
                Some(list) => moves_text(list, list.len() as int, frame.slots),
                None => Ok(Seq::empty()),
            },
        ) {
            Err(e) => Err(e),
            Ok(moved) => write(moved, Ok("\n    call "@ + function_name)),
        },
    }
}

/// The frame after the first `k` statements of `function`.
pub open spec fn statements_frame(function: FunctionDeclarationView, k: int) -> Framed
    decreases k,
{
    if k <= 0 || k > function.statements.len() {
        arguments_frame(function.arguments, function.arguments.len() as int)
    } else {
        match statements_frame(function, k - 1) {
            Err(e) => Err(e),
            Ok(before) => statement_frame(before, function.statements[k - 1], function.function_name),
        }
    }
}

/// The stack space that a function with slots down to `offset` reserves:
/// the next multiple of 8 above `offset`.
pub open spec fn reserved(offset: int) -> int {
    offset + (8 - offset % 8)
}

/// The code of a function: its label, the prologue, the code of its
/// arguments and statements, and the epilogue with the return label.
pub open spec fn function_text(function: FunctionDeclarationView) -> Text {
    match statements_frame(function, function.statements.len() as int) {
        Err(e) => Err(e),
        Ok(frame) => if reserved(frame.offset as int) > usize::MAX {
            Err("Too many locals"@)
        } else {
            Ok(
                "\n\n"@ + function.function_name + ":"@ + "\n    ; prologue"@ + "\n    push rbp"@
                    + "\n    mov rbp, rsp"@ + "\n    sub rsp, "@ + decimal_text(
                    reserved(frame.offset as int) as nat,
                ) + frame.code + "\n    ; epilogue"@ + "\n."@ + function.function_name + ".ret:"@
                    + "\n    mov rsp, rbp"@ + "\n    pop rbp"@ + "\n    ret"@,
            )
        },
    }
}

/// The code of the first `k` functions of a program.
pub open spec fn functions_text(functions: Seq<FunctionDeclarationView>, k: int) -> Text
    decreases k,
{
    if k <= 0 || k > functions.len() {
        Ok(Seq::empty())
    } else {
        join(functions_text(functions, k - 1), function_text(functions[k - 1]))
    }
}

/// The data of the first `k` string literals: each under its label, ended
/// by a zero byte, with its length under a second label.
pub open spec fn literals_text(literals: Seq<(Seq<char>, Seq<char>)>, k: int) -> Seq<char>
    decreases k,
{
    if k <= 0 || k > literals.len() {
        Seq::empty()
    } else {
        literals_text(literals, k - 1) + ("\n    "@ + literals[k - 1].0 + " db `"@ + literals[k
            - 1].1 + "`, 0"@ + "\n    "@ + literals[k - 1].0 + ".len equ $-"@ + literals[k - 1].0)
    }
}

/// The routine `write`, which every program gets.
pub open spec fn write_routine_text() -> Seq<char> {
    "\n\nwrite:"@ + "\n    ; prologue"@ + "\n    push rbp"@ + "\n    mov rbp, rsp"@
        + "\n    mov rax, 0x1"@ + "\n    syscall"@ + "\n    ; epilogue"@ + "\n    mov rsp, rbp"@
        + "\n    pop rbp"@ + "\n    ret"@
}

/// The entry point: it calls `main` and leaves the process with what
/// `main` returned.
pub open spec fn start_text() -> Seq<char> {
    "\n\n_start:"@ + "\n    call main ; entry point"@ + "\n    mov rdi, rax"@
        + "\n    mov rax, 60"@ + "\n    syscall"@
}

/// The assembly text of a program read from the file `file`.
pub open spec fn program_text(file: Seq<char>, program: ProgramView) -> Text {
    match functions_text(program.functions, program.functions.len() as int) {
        Err(e) => Err(e),
        Ok(code) => Ok(
            "; Code generated with ezlang"@ + "\n; filename: "@ + file + "\n\nsection .data"@
                + literals_text(program.string_literals, program.string_literals.len() as int)
                + "\n\nsection .text"@ + "\n    global _start"@ + write_routine_text() + code
                + start_text(),
        ),
    }
}

/// The assembly text for the source text `source` of the file `file`, or
/// the text of the error.
pub open spec fn assemble_text(file: Seq<char>, source: Seq<char>) -> Text {
    let fresh = ParserView {
        tokenizer: TokenizerView {
            file,
            bytes: encode_utf8(source),
            cursor: 0,
            line: 1,
            column: 1,
            reached_eof: false,
        },
        lookahead: None,
        string_literals: Seq::empty(),
    };
    match parse(fresh).0 {
        Err(e) => Err(syntax_error_text(e)),
        Ok(program) => program_text(file, program),
    }
}

impl Compiler {
    /// A compiler for the file `input_filename`.
    pub fn new(input_filename: &str) -> (compiler: Self)
        ensures
            compiler.file() == input_filename@,
    {
        Compiler { filename: String::from_str(input_filename) }
    }

    /// The name of the source file.
    pub fn filename(&self) -> (name: &String)
        ensures
            name@ == self.file(),
    {
        &self.filename
    }

    /// Compiles `source_code` to assembly text.
    pub fn assemble(&mut self, source_code: String) -> (r: Result<String, CompileError>)
        requires
            encode_utf8(source_code@).len() < usize::MAX,
        ensures
            final(self).file() == old(self).file(),
            yields(r, assemble_text(old(self).file(), source_code@)),
    {
        let mut parser = Parser::new(self.filename.clone(), source_code);
        let program = match parser.parse() {
            Ok(program) => program,
            Err(e) => {
                return Err(failure(e.to_string()));
            },
        };
        self.program(&program)
    }

    /// Writes the assembly text of `program`.
    pub fn program(&self, program: &Program) -> (r: Result<String, CompileError>)
        ensures
            yields(r, program_text(self.file(), program@)),
    {
        let mut code = String::new();
        let mut i: usize = 0;
        while i < program.functions.len()
            invariant
                i <= program.functions.len(),
                functions_text(program@.functions, i as int) == Ok::<Seq<char>, Seq<char>>(code@),
            decreases program.functions.len() - i,
        {
            match self.function_declaration(&program.functions[i]) {
                Ok(text) => {
                    code.append(text.as_str());
                },
                Err(e) => {
                    proof {
                        lemma_functions_error(
                            program@.functions,
                            i as int + 1,
                            program@.functions.len() as int,
                        );
                    }
                    return Err(e);
                },
            }
            i += 1;
        }
        let mut data = String::new();
        let mut k: usize = 0;
        while k < program.string_literals.len()
            invariant
                k <= program.string_literals.len(),
                data@ == literals_text(program@.string_literals, k as int),
            decreases program.string_literals.len() - k,
        {
            let literal = &program.string_literals[k];
            let mut entry = String::from_str("\n    ");
            entry.append(literal.0.as_str());
            entry.append(" db `");
            entry.append(literal.1.as_str());
            entry.append("`, 0");
            entry.append("\n    ");
            entry.append(literal.0.as_str());
            entry.append(".len equ $-");
            entry.append(literal.0.as_str());
            data.append(entry.as_str());
            k += 1;
        }
        let mut buffer = String::from_str("; Code generated with ezlang");
        buffer.append("\n; filename: ");
        buffer.append(self.filename.as_str());
        buffer.append("\n\nsection .data");
        buffer.append(data.as_str());
        buffer.append("\n\nsection .text");
        buffer.append("\n    global _start");
        buffer.append(write_routine().as_str());
        buffer.append(code.as_str());
        buffer.append(start().as_str());
        Ok(buffer)
    }

    /// Writes the code of `function`.
    pub fn function_declaration(&self, function: &FunctionDeclaration) -> (r: Result<
        String,
        CompileError,
    >)
        ensures
            yields(r, function_text(function@)),
    {
        let mut slots: Vec<(String, usize)> = Vec::new();
        let mut offset: usize = 0;
        let mut body = String::new();
        let mut count: usize = 0;
        assert(slots.deep_view() =~= Seq::empty());
        while count < function.arguments.len()
            invariant
                count <= function.arguments.len(),
                arguments_frame(function@.arguments, count as int) == Ok::<Frame, Seq<char>>(
                    Frame { slots: slots.deep_view(), offset, code: body@ },
                ),
            decreases function.arguments.len() - count,
        {
            let ghost known = slots.deep_view();
            let name = &function.arguments[count].name;
            assert(function@.arguments[count as int] == name@);
            if offset > usize::MAX - 4 {
                proof {
                    lemma_arguments_error(
                        function@.arguments,
                        count as int + 1,
                        function@.arguments.len() as int,
                    );
                    lemma_statements_error(function@, 0, function@.statements.len() as int);
                }
                return Err(failure(String::from_str("Too many locals")));
            }
            offset += 4;
            slots.push((name.clone(), offset));
            proof {
                assert(slots.deep_view() =~= known.push((name@, offset)));
            }
            let register = match register_for(count) {
                Some(register) => register,
                None => {
                    proof {
                        lemma_arguments_error(
                            function@.arguments,
                            count as int + 1,
                            function@.arguments.len() as int,
                        );
                        lemma_statements_error(function@, 0, function@.statements.len() as int);
                    }
                    return Err(failure(String::from_str("Too many arguments")));
                },
            };
            let mut line = String::from_str("\n    mov dword[rbp - ");
            push_decimal(&mut line, offset as u64);
            line.append("], ");
            line.append(register);
            line.append(" ; arg: ");
            line.append(name.as_str());
            body.append(line.as_str());
            count += 1;
        }
        let mut i: usize = 0;
        while i < function.statements.len()
            invariant
                i <= function.statements.len(),
                statements_frame(function@, i as int) == Ok::<Frame, Seq<char>>(
                    Frame { slots: slots.deep_view(), offset, code: body@ },
                ),
            decreases function.statements.len() - i,
        {
            match self.statement(
                &function.statements[i],
                &function.function_name,
                &mut slots,
                &mut offset,
                &mut body,
            ) {
                Ok(()) => {},
                Err(e) => {
                    proof {
                        lemma_statements_error(
                            function@,
                            i as int + 1,
                            function@.statements.len() as int,
                        );
                    }
                    return Err(e);
                },
            }
            i += 1;
        }
        let space = match (8 - offset % 8).checked_add(offset) {
            Some(space) => space,
            None => {
                return Err(failure(String::from_str("Too many locals")));
            },
        };
        let mut buffer = String::from_str("\n\n");
        buffer.append(function.function_name.as_str());
        buffer.append(":");
        buffer.append("\n    ; prologue");
        buffer.append("\n    push rbp");
        buffer.append("\n    mov rbp, rsp");
        buffer.append("\n    sub rsp, ");
        push_decimal(&mut buffer, space as u64);
        buffer.append(body.as_str());
        buffer.append("\n    ; epilogue");
        buffer.append("\n.");
        buffer.append(function.function_name.as_str());
        buffer.append(".ret:");
        buffer.append("\n    mov rsp, rbp");
        buffer.append("\n    pop rbp");
        buffer.append("\n    ret");
        Ok(buffer)
    }

    /// Writes the code of one statement of the function `name` and keeps
    /// the table of slots up to date.
    pub fn statement(
        &self,
        statement: &Statement,
        name: &String,
        slots: &mut Vec<(String, usize)>,
        offset: &mut usize,
        code: &mut String,
    ) -> (r: Result<(), CompileError>)
        ensures
            match statement_frame(
                Frame { slots: old(slots).deep_view(), offset: *old(offset), code: old(code)@ },
                statement@,
                name@,
            ) {
                Ok(frame) => r is Ok && frame == (Frame {
                    slots: final(slots).deep_view(),
                    offset: *final(offset),
                    code: final(code)@,
                }),
                Err(message) => r is Err && r->Err_0.message@ == message,
            },
    {
        match statement {
            Statement::AssignStatement { symbol_name, expression } => {
                if find_slot(slots, symbol_name).is_none() {
                    if *offset > usize::MAX - 4 {
                        return Err(failure(String::from_str("Too many locals")));
                    }
                    let ghost known = slots.deep_view();
                    *offset += 4;
                    slots.push((symbol_name.clone(), *offset));
                    proof {
                        assert(slots.deep_view() =~= known.push((symbol_name@, *offset)));
                    }
                }
                let value = self.expression(expression, "eax", slots)?;
                code.append(value.as_str());
                let mut line = String::from_str("\n    mov dword[rbp - ");
                push_decimal(&mut line, *offset as u64);
                line.append("], eax ; var: ");
                line.append(symbol_name.as_str());
                code.append(line.as_str());
                Ok(())
            },
            Statement::ReturnStatement { return_value } => {
                let value = self.expression(return_value, "eax", slots)?;
                code.append(value.as_str());
                let mut line = String::from_str("\n    jmp .");
                line.append(name.as_str());
                line.append(".ret");
                code.append(line.as_str());
                Ok(())
            },
            Statement::CallStatement { function_name, arguments } => {
                let moves = match arguments {
                    Some(list) => self.moves(list, slots)?,
                    None => String::new(),
                };
                code.append(moves.as_str());
                let mut line = String::from_str("\n    call ");
                line.append(function_name.as_str());
                code.append(line.as_str());
                Ok(())
            },
        }
    }

    /// Writes the code that computes `arguments` and moves each into its
    /// register.
    pub fn moves(&self, arguments: &Vec<Expression>, slots: &Vec<(String, usize)>) -> (r: Result<
        String,
        CompileError,
    >)
        ensures
            yields(
                r,
                moves_text(arguments.deep_view(), arguments.len() as int, slots.deep_view()),
            ),
        decreases arguments, 1int,
    {
        let mut buffer = String::new();
        let mut i: usize = 0;
        while i < arguments.len()
            invariant
                i <= arguments.len(),
                moves_text(arguments.deep_view(), i as int, slots.deep_view()) == Ok::<
                    Seq<char>,
                    Seq<char>,
                >(buffer@),
            decreases arguments.len() - i,
        {
            let moved = match self.expression(&arguments[i], "eax", slots) {
                Ok(text) => match register_for(i) {
                    Some(register) => Ok((text, register)),
                    None => Err(failure(String::from_str("Too many arguments"))),
                },
                Err(e) => Err(e),
            };
            match moved {
                Ok((text, register)) => {
                    buffer.append(text.as_str());
                    let mut line = String::from_str("\n    mov ");
                    line.append(register);
                    line.append(", eax");
                    buffer.append(line.as_str());
                },
                Err(e) => {
                    proof {
                        lemma_moves_error(
                            arguments.deep_view(),
                            i as int + 1,
                            arguments.len() as int,
                            slots.deep_view(),
                        );
                    }
                    return Err(e);
                },
            }
            i += 1;
        }
        Ok(buffer)
    }

    /// Writes the code that leaves the value of `expression` in `reg`.
    pub fn expression(&self, expression: &Expression, reg: &str, slots: &Vec<(String, usize)>) -> (r:
        Result<String, CompileError>)
        ensures
            yields(r, expression_text(expression@, reg@, slots.deep_view())),
        decreases expression, 0int,
    {
        match expression {
            Expression::NumberLiteral(value) => {
                let mut text = String::from_str("\n    mov ");
                text.append(reg);
                text.append(", ");
                push_hex(&mut text, *value as u64);
                Ok(text)
            },
            Expression::Symbol(name) => match find_slot(slots, name) {
                None => {
                    let mut message = String::from_str("Runtime error: Unknown symbol \"");
                    message.append(name.as_str());
                    message.append("\"");
                    Err(failure(message))
                },
                Some(offset) => {
                    let mut text = String::from_str("\n    mov ");
                    text.append(reg);
                    text.append(", dword[rbp - ");
                    push_decimal(&mut text, offset as u64);
                    text.append("] ; var: ");
                    text.append(name.as_str());
                    Ok(text)
                },
            },
            Expression::CallStatement(name, arguments) => {
                proof {
                    crate::ezlang::lemma_call_view(*name, *arguments);
                }
                let mut text = match arguments {
                    Some(list) => self.moves(list, slots)?,
                    None => String::new(),
                };
                let mut line = String::from_str("\n    call ");
                line.append(name.as_str());
                text.append(line.as_str());
                Ok(text)
            },
            Expression::BinaryOperation(operator, left, right) => {
                let mut text = self.expression(right, "eax", slots)?;
                let first = self.expression(left, "edi", slots)?;
                text.append(first.as_str());
                let mut line = String::from_str("\n    ");
                line.append(operator_mnemonic(*operator));
                line.append(" eax, edi");
                text.append(line.as_str());
                Ok(text)
            },
            Expression::StringLiteral(label, content) => {
                let mut text = String::from_str("\n    mov ");
                text.append(reg);
                text.append(", ");
                text.append(label.as_str());
                text.append(" ; str: \"");
                text.append(content.as_str());
                text.append("\"");
                Ok(text)
            },
        }
    }
}

/// Writes the routine `write`.
pub fn write_routine() -> (text: String)
    ensures
        text@ == write_routine_text(),
{
    let mut text = String::from_str("\n\nwrite:");
    text.append("\n    ; prologue");
    text.append("\n    push rbp");
    text.append("\n    mov rbp, rsp");
    text.append("\n    mov rax, 0x1");
    text.append("\n    syscall");
    text.append("\n    ; epilogue");
    text.append("\n    mov rsp, rbp");
    text.append("\n    pop rbp");
    text.append("\n    ret");
    text
}

/// Writes the entry point.
pub fn start() -> (text: String)
    ensures
        text@ == start_text(),
{
    let mut text = String::from_str("\n\n_start:");
    text.append("\n    call main ; entry point");
    text.append("\n    mov rdi, rax");
    text.append("\n    mov rax, 60");
    text.append("\n    syscall");
    text
}

/// Once an argument has failed, the arguments behind it change nothing.
pub proof fn lemma_arguments_error(arguments: Seq<Seq<char>>, k: int, n: int)
    requires
        0 <= k <= n <= arguments.len(),
        arguments_frame(arguments, k) is Err,
    ensures
        arguments_frame(arguments, n) == arguments_frame(arguments, k),
    decreases n - k,
{
    if k < n {
        lemma_arguments_error(arguments, k, n - 1);
    }
}

/// Once the arguments or a statement have failed, the statements behind
/// change nothing.
pub proof fn lemma_statements_error(function: FunctionDeclarationView, k: int, n: int)
    requires
        0 <= k <= n <= function.statements.len(),
        statements_frame(function, k) is Err,
    ensures
        statements_frame(function, n) == statements_frame(function, k),
    decreases n - k,
{
    if k < n {
        lemma_statements_error(function, k, n - 1);
    }
}

/// Once a function has failed, the functions behind it change nothing.
pub proof fn lemma_functions_error(functions: Seq<FunctionDeclarationView>, k: int, n: int)
    requires
        0 <= k <= n <= functions.len(),
        functions_text(functions, k) is Err,
    ensures
        functions_text(functions, n) == functions_text(functions, k),
    decreases n - k,
{
    if k < n {
        lemma_functions_error(functions, k, n - 1);
    }
}

} // verus!
