//! The code generator: lowers a program to NASM-style assembly text for a
//! 64-bit ELF target. The generated `_start` calls `main` and leaves the
//! process with what `main` returned.

use vstd::prelude::*;
use vstd::string::*;
use crate::lexer::{position_at, tokens_from, BinaryOperator, LexError, LexErrorKind, Position};
use crate::parser::grammar::{parse_program, Failure, Source};
use crate::parser::{
    footprint, Expression, ExpressionView, Function, FunctionView, Local, LocalStack, LocalView,
    Parser, Program, Scope, Statement, StatementView, SyntaxError,
};
use crate::text::{hex_text, push_hex};

pub mod laws;

verus! {

/// Why no code could be generated.
#[derive(Debug, Clone, Copy, PartialEq, Eq, Structural)]
pub enum GenError {
    /// An operator without an instruction: division.
    UnsupportedOperator,
    /// A local whose size is not 1, 2, 4 or 8 bytes.
    UnknownSize,
    /// A register at a width other than 8, 16, 32 or 64 bits.
    InvalidRegisterSize,
    /// The index of a local that the function does not have.
    UnknownLocal,
    /// The index of a function that the program does not have.
    UnknownFunction,
    /// A call with another number of arguments than its callee declares.
    ArgumentMismatch,
    /// Locals that take more bytes than the address range has.
    FrameTooLarge,
}

impl GenError {
    /// What the error says.
    pub open spec fn message_text(self) -> Seq<char> {
        match self {
            GenError::UnsupportedOperator => "Division has no instruction yet"@,
            GenError::UnknownSize => "Unknown size"@,
            GenError::InvalidRegisterSize => "Invalid register size"@,
            GenError::UnknownLocal => "No local found"@,
            GenError::UnknownFunction => "No function found"@,
            GenError::ArgumentMismatch => "Argument mismatch"@,
            GenError::FrameTooLarge => "Locals exceed the address range"@,
        }
    }

    /// What the error says.
    pub fn message(&self) -> (text: &'static str)
        ensures
            text@ == self.message_text(),
    {
        match self {
            GenError::UnsupportedOperator => "Division has no instruction yet",
            GenError::UnknownSize => "Unknown size",
            GenError::InvalidRegisterSize => "Invalid register size",
            GenError::UnknownLocal => "No local found",
            GenError::UnknownFunction => "No function found",
            GenError::ArgumentMismatch => "Argument mismatch",
            GenError::FrameTooLarge => "Locals exceed the address range",
        }
    }
}

/// A general-purpose register of the bank of eight, with the width in bits
/// at which it is used.
#[derive(Debug, Clone, Copy, PartialEq, Eq, Structural)]
pub enum Register {
    R1(usize),
    R2(usize),
    R3(usize),
    R4(usize),
    R5(usize),
    R6(usize),
    R7(usize),
    R8(usize),
}

/// The four names of a register, from the narrowest to the widest.
pub open spec fn width_name(
    bits: usize,
    byte: Seq<char>,
    word: Seq<char>,
    double: Seq<char>,
    quad: Seq<char>,
) -> Result<Seq<char>, GenError> {
    if bits == 8 {
        Ok(byte)
    } else if bits == 16 {
        Ok(word)
    } else if bits == 32 {
        Ok(double)
    } else if bits == 64 {
        Ok(quad)
    } else {
        Err(GenError::InvalidRegisterSize)
    }
}

/// The name of a register in assembly text.
pub open spec fn register_name(register: Register) -> Result<Seq<char>, GenError> {
    match register {
        Register::R1(bits) => width_name(bits, "al"@, "ax"@, "eax"@, "rax"@),
        Register::R2(bits) => width_name(bits, "cl"@, "cx"@, "ecx"@, "rcx"@),
        Register::R3(bits) => width_name(bits, "dl"@, "dx"@, "edx"@, "rdx"@),
        Register::R4(bits) => width_name(bits, "bl"@, "bx"@, "ebx"@, "rbx"@),
        Register::R5(bits) => width_name(bits, "ah"@, "sp"@, "esp"@, "rsp"@),
        Register::R6(bits) => width_name(bits, "ch"@, "bp"@, "ebp"@, "rbp"@),
        Register::R7(bits) => width_name(bits, "dh"@, "si"@, "esi"@, "rsi"@),
        Register::R8(bits) => width_name(bits, "bh"@, "di"@, "edi"@, "rdi"@),
    }
}

/// Picks among the four names of a register by the width.
fn pick_name(
    bits: usize,
    byte: &'static str,
    word: &'static str,
    double: &'static str,
    quad: &'static str,
) -> (name: Result<&'static str, GenError>)
    ensures
        match width_name(bits, byte@, word@, double@, quad@) {
            Ok(text) => name is Ok && name->Ok_0@ == text,
            Err(e) => name == Err::<&'static str, GenError>(e),
        },
{
    if bits == 8 {
        Ok(byte)
    } else if bits == 16 {
        Ok(word)
    } else if bits == 32 {
        Ok(double)
    } else if bits == 64 {
        Ok(quad)
    } else {
        Err(GenError::InvalidRegisterSize)
    }
}

impl Register {
    /// The name of the register in assembly text.
    pub fn name(&self) -> (name: Result<&'static str, GenError>)
        ensures
            match register_name(*self) {
                Ok(text) => name is Ok && name->Ok_0@ == text,
                Err(e) => name == Err::<&'static str, GenError>(e),
            },
    {
        match self {
            Register::R1(bits) => pick_name(*bits, "al", "ax", "eax", "rax"),
            Register::R2(bits) => pick_name(*bits, "cl", "cx", "ecx", "rcx"),
            Register::R3(bits) => pick_name(*bits, "dl", "dx", "edx", "rdx"),
            Register::R4(bits) => pick_name(*bits, "bl", "bx", "ebx", "rbx"),
            Register::R5(bits) => pick_name(*bits, "ah", "sp", "esp", "rsp"),
            Register::R6(bits) => pick_name(*bits, "ch", "bp", "ebp", "rbp"),
            Register::R7(bits) => pick_name(*bits, "dh", "si", "esi", "rsi"),
            Register::R8(bits) => pick_name(*bits, "bh", "di", "edi", "rdi"),
        }
    }
}

/// The storage classes of the target, by the bytes they take.
#[derive(Debug, Clone, Copy, PartialEq, Eq, Structural)]
pub enum TypeSize {
    Byte,
    Word,
    Double,
    Quad,
}

/// The name of a storage class in assembly text.
pub open spec fn type_size_name(size: TypeSize) -> Seq<char> {
    match size {
        TypeSize::Byte => "byte"@,
        TypeSize::Word => "word"@,
        TypeSize::Double => "dword"@,
        TypeSize::Quad => "qword"@,
    }
}

/// The storage class of a slot of `size` bytes.
pub open spec fn word_type(size: usize) -> Result<TypeSize, GenError> {
    if size == 1 {
        Ok(TypeSize::Byte)
    } else if size == 2 {
        Ok(TypeSize::Word)
    } else if size == 4 {
        Ok(TypeSize::Double)
    } else if size == 8 {
        Ok(TypeSize::Quad)
    } else {
        Err(GenError::UnknownSize)
    }
}

impl TypeSize {
    /// The bytes that a value of the class takes.
    pub fn bytes(&self) -> (n: usize)
        ensures
            word_type(n) == Ok::<TypeSize, GenError>(*self),
    {
        match self {
            TypeSize::Byte => 1,
            TypeSize::Word => 2,
            TypeSize::Double => 4,
            TypeSize::Quad => 8,
        }
    }

    /// The name of the class in assembly text.
    pub fn name(&self) -> (name: &'static str)
        ensures
            name@ == type_size_name(*self),
    {
        match self {
            TypeSize::Byte => "byte",
            TypeSize::Word => "word",
            TypeSize::Double => "dword",
            TypeSize::Quad => "qword",
        }
    }
}

/// The instruction that applies a binary operator to two registers.
/// Division has none.
pub open spec fn instruction(operator: BinaryOperator) -> Result<Seq<char>, GenError> {
    match operator {
        BinaryOperator::Add => Ok("add"@),
        BinaryOperator::Sub => Ok("sub"@),
        BinaryOperator::Mul => Ok("imul"@),
        BinaryOperator::Div => Err(GenError::UnsupportedOperator),
        BinaryOperator::BitwiseOr => Ok("or"@),
        BinaryOperator::BitwiseAnd => Ok("and"@),
        BinaryOperator::BitwiseXor => Ok("xor"@),
    }
}

impl BinaryOperator {
    /// The instruction for the operator.
    pub fn get_instruction(&self) -> (name: Result<&'static str, GenError>)
        ensures
            match instruction(*self) {
                Ok(text) => name is Ok && name->Ok_0@ == text,
                Err(e) => name == Err::<&'static str, GenError>(e),
            },
    {
        match self {
            BinaryOperator::Add => Ok("add"),
            BinaryOperator::Sub => Ok("sub"),
            BinaryOperator::Mul => Ok("imul"),
            BinaryOperator::Div => Err(GenError::UnsupportedOperator),
            BinaryOperator::BitwiseOr => Ok("or"),
            BinaryOperator::BitwiseAnd => Ok("and"),
            BinaryOperator::BitwiseXor => Ok("xor"),
        }
    }
}

impl Local {
    /// The storage class of the local.
    pub fn get_word_type(&self) -> (class: Result<TypeSize, GenError>)
        ensures
            class == word_type(self.size),
    {
        if self.size == 1 {
            Ok(TypeSize::Byte)
        } else if self.size == 2 {
            Ok(TypeSize::Word)
        } else if self.size == 4 {
            Ok(TypeSize::Double)
        } else if self.size == 8 {
            Ok(TypeSize::Quad)
        } else {
            Err(GenError::UnknownSize)
        }
    }
}

/// The stack space that a function with `locals` bytes of locals reserves:
/// eight bytes more, rounded up to a multiple of 16.
pub open spec fn frame_size(locals: int) -> int {
    (locals + 8 + 15) / 16 * 16
}

/// The reserved stack space is a multiple of 16 that has room for the
/// locals and eight bytes more, and is the least such multiple.
pub proof fn lemma_frame_size_aligned(locals: int)
    requires
        0 <= locals,
    ensures
        frame_size(locals) % 16 == 0,
        locals + 8 <= frame_size(locals) < locals + 8 + 16,
{
}

/// Text, or the reason why there is none.
pub type Text = Result<Seq<char>, GenError>;

/// `first` followed by `second`; the error of the first that has one.
pub open spec fn join(first: Text, second: Text) -> Text {
    match first {
        Err(e) => Err(e),
        Ok(head) => match second {
            Err(e) => Err(e),
            Ok(tail) => Ok(head + tail),
        },
    }
}

/// The primary register of statements, at full width.
pub open spec fn primary() -> Register {
    Register::R2(64)
}

/// The alternate register of statements, at full width.
pub open spec fn alternate() -> Register {
    Register::R3(64)
}

/// Where the slot of `local` ends, counted down from the frame pointer.
pub open spec fn slot_end(local: LocalView) -> int {
    local.offset + local.size
}

/// The memory operand for the slot of `local`: its storage class and its
/// place under the frame pointer.
pub open spec fn slot_text(local: LocalView) -> Text {
    match word_type(local.size) {
        Err(e) => Err(e),
        Ok(class) => if slot_end(local) > usize::MAX {
            Err(GenError::FrameTooLarge)
        } else {
            Ok(type_size_name(class) + " [rbp - "@ + hex_text(slot_end(local) as nat) + "]"@)
        },
    }
}

/// Moves the number `n` into `register`.
pub open spec fn load_number_text(register: Register, n: u64) -> Text {
    match register_name(register) {
        Err(e) => Err(e),
        Ok(name) => Ok("\n\tmov "@ + name + ", "@ + hex_text(n as nat)),
    }
}

/// Loads `local` from its slot into `register`.
pub open spec fn load_local_text(register: Register, local: LocalView) -> Text {
    match register_name(register) {
        Err(e) => Err(e),
        Ok(name) => match slot_text(local) {
            Err(e) => Err(e),
            Ok(slot) => Ok("\n\tmov "@ + name + ", "@ + slot + "\t; "@ + local.label),
        },
    }
}

/// Stores `register` in the slot of `local`.
pub open spec fn store_local_text(register: Register, local: LocalView) -> Text {
    match slot_text(local) {
        Err(e) => Err(e),
        Ok(slot) => match register_name(register) {
            Err(e) => Err(e),
            Ok(name) => Ok("\n\tmov "@ + slot + ", "@ + name + "\t; "@ + local.label),
        },
    }
}

/// Applies `operator` to `register` and `alt`; the result is in `register`.
pub open spec fn apply_text(operator: BinaryOperator, register: Register, alt: Register) -> Text {
    match instruction(operator) {
        Err(e) => Err(e),
        Ok(mnemonic) => match register_name(register) {
            Err(e) => Err(e),
            Ok(target) => match register_name(alt) {
                Err(e) => Err(e),
                Ok(source) => Ok("\n\t"@ + mnemonic + " "@ + target + ", "@ + source),
            },
        },
    }
}

/// Pushes the primary register as the argument at place `k` of a call of
/// `callee`; the comment names the argument.
pub open spec fn push_argument_text(callee: FunctionView, k: int) -> Text {
    if 0 <= k < callee.arguments.len() && callee.arguments[k] < callee.locals.len() {
        Ok("\n\tpush rcx;\t"@ + callee.locals[callee.arguments[k] as int].label)
    } else {
        Err(GenError::UnknownLocal)
    }
}

/// Calls the function `name` and moves what it returns into `register`.
pub open spec fn call_text(name: Seq<char>, register: Register) -> Text {
    match register_name(register) {
        Err(e) => Err(e),
        Ok(target) => Ok("\n\tcall "@ + name + "\n\tmov "@ + target + ", rax"@),
    }
}

/// The code that leaves the value of `e` in `register`, with `alt` as
/// scratch register. Of a binary operation the side that is itself a
/// binary operation comes first (the left one if both are), the other side
/// second; the left side is computed in `register`, the right one in `alt`.
/// A call pushes its arguments from left to right.
pub open spec fn expression_text(
    e: ExpressionView,
    register: Register,
    alt: Register,
    locals: Seq<LocalView>,
    functions: Seq<FunctionView>,
) -> Text
    decreases e, 0int,
{
    match e {
        ExpressionView::NumberLiteral(n) => load_number_text(register, n),
        ExpressionView::Local(index) => if index < locals.len() {
            load_local_text(register, locals[index as int])
        } else {
            Err(GenError::UnknownLocal)
        },
        ExpressionView::Binary(operator, left, right) => {
            let left_text = expression_text(*left, register, alt, locals, functions);
            let right_text = expression_text(*right, alt, register, locals, functions);
            let operands = if !(*left is Binary) && *right is Binary {
                join(right_text, left_text)
            } else {
                join(left_text, right_text)
            };
            join(operands, apply_text(operator, register, alt))
        },
        ExpressionView::Call(index, arguments) => if index < functions.len() {
            let callee = functions[index as int];
            if callee.arguments.len() != arguments.len() {
                Err(GenError::ArgumentMismatch)
            } else {
                join(
                    pushes_text(arguments, arguments.len() as int, callee, locals, functions),
                    call_text(callee.name, register),
                )
            }
        } else {
            Err(GenError::UnknownFunction)
        },
    }
}

/// The code that computes and pushes the first `k` of `arguments` for a
/// call of `callee`.
pub open spec fn pushes_text(
    arguments: Seq<ExpressionView>,
    k: int,
    callee: FunctionView,
    locals: Seq<LocalView>,
    functions: Seq<FunctionView>,
) -> Text
    decreases arguments, k,
{
    if k <= 0 || k > arguments.len() {
        Ok(Seq::empty())
    } else {
        join(
            join(
                pushes_text(arguments, k - 1, callee, locals, functions),
                expression_text(arguments[k - 1], primary(), alternate(), locals, functions),
            ),
            push_argument_text(callee, k - 1),
        )
    }
}

/// The code of one statement of the function `name`.
#[verifier::opaque]
pub open spec fn statement_text(
    statement: StatementView,
    name: Seq<char>,
    locals: Seq<LocalView>,
    functions: Seq<FunctionView>,
) -> Text {
    match statement {
        StatementView::Assign(index, e) => if index < locals.len() {
            join(
                expression_text(e, primary(), alternate(), locals, functions),
                store_local_text(primary(), locals[index as int]),
            )
        } else {
            Err(GenError::UnknownLocal)
        },
        StatementView::Return(e) => join(
            expression_text(e, primary(), alternate(), locals, functions),
            Ok("\n\tmov rax, rcx"@ + "\n\tjmp .return_"@ + name),
        ),
        StatementView::Call(e) => expression_text(e, primary(), alternate(), locals, functions),
    }
}

/// The code of the first `k` statements of a body.
pub open spec fn body_text(
    body: Seq<StatementView>,
    k: int,
    name: Seq<char>,
    locals: Seq<LocalView>,
    functions: Seq<FunctionView>,
) -> Text
    decreases k,
{
    if k <= 0 || k > body.len() {
        Ok(Seq::empty())
    } else {
        join(
            body_text(body, k - 1, name, locals, functions),
            statement_text(body[k - 1], name, locals, functions),
        )
    }
}

/// The code that copies one argument from where the caller pushed it,
/// above the frame pointer, down into its slot.
pub open spec fn argument_text(local: LocalView) -> Text {
    match word_type(local.size) {
        Err(e) => Err(e),
        Ok(class) => if 16 + local.offset > usize::MAX {
            Err(GenError::FrameTooLarge)
        } else {
            join(
                Ok(
                    "\n\tmov rax, "@ + type_size_name(class) + " [rbp + "@ + hex_text(
                        (16 + local.offset) as nat,
                    ) + "]"@,
                ),
                store_local_text(Register::R1(64), local),
            )
        },
    }
}

/// The code that copies the first `k` arguments of `function` into their
/// slots.
pub open spec fn arguments_text(function: FunctionView, k: int) -> Text
    decreases k,
{
    if k <= 0 || k > function.arguments.len() {
        Ok(Seq::empty())
    } else {
        join(
            arguments_text(function, k - 1),
            if function.arguments[k - 1] < function.locals.len() {
                argument_text(function.locals[function.arguments[k - 1] as int])
            } else {
                Err(GenError::UnknownLocal)
            },
        )
    }
}

/// The label of a function and the code that sets up its frame.
pub open spec fn prologue_text(function: FunctionView) -> Text {
    if footprint(function.locals) + 23 > usize::MAX {
        Err(GenError::FrameTooLarge)
    } else {
        Ok(
            "\n"@ + function.name + ":"@ + "\n\tpush rbp"@ + "\n\tmov rbp, rsp"@
                + "\n\tsub rsp, "@ + hex_text(frame_size(footprint(function.locals)) as nat),
        )
    }
}

/// The return label of the function `name` and the code that leaves it.
pub open spec fn epilogue_text(name: Seq<char>) -> Seq<char> {
    "\n.return_"@ + name + ":"@ + "\n\tmov rsp, rbp"@ + "\n\tpop rbp"@ + "\n\tret"@
}

/// Every prologue reserves a multiple of 16 bytes: where `function` has a
/// prologue, it is the fixed text around the hexadecimal digits of
/// `frame_size`, and that is a multiple of 16 with room for the locals.
pub proof fn lemma_reservation_aligned(function: FunctionView)
    ensures
        frame_size(footprint(function.locals)) % 16 == 0,
        frame_size(footprint(function.locals)) >= footprint(function.locals) + 8,
        prologue_text(function) matches Ok(text) ==> text == "\n"@ + function.name + ":"@
            + "\n\tpush rbp"@ + "\n\tmov rbp, rsp"@ + "\n\tsub rsp, "@ + hex_text(
            frame_size(footprint(function.locals)) as nat,
        ),
{
    lemma_frame_size_aligned(footprint(function.locals));
}

/// The code of one function: prologue, arguments, body, epilogue.
#[verifier::opaque]
pub open spec fn function_text(function: FunctionView, functions: Seq<FunctionView>) -> Text {
    join(
        join(
            join(prologue_text(function), arguments_text(function, function.arguments.len() as int)),
            body_text(
                function.body,
                function.body.len() as int,
                function.name,
                function.locals,
                functions,
            ),
        ),
        Ok(epilogue_text(function.name)),
    )
}

/// The code of the first `k` functions of a program.
pub open spec fn functions_text(functions: Seq<FunctionView>, k: int) -> Text
    decreases k,
{
    if k <= 0 || k > functions.len() {
        Ok(Seq::empty())
    } else {
        join(functions_text(functions, k - 1), function_text(functions[k - 1], functions))
    }
}

/// The start of the assembly text: the name of the source file and the
/// entry point, which calls `main` and leaves the process with what it
/// returned.
pub open spec fn header_text(file: Seq<char>) -> Seq<char> {
    "; Source File: "@ + file + "\nsection .text"@ + "\n\tglobal _start"@ + "\n_start:"@
        + "\n\tcall main"@ + "\n\tmov rdi, rax"@ + "\n\tmov rax, 0x3c"@ + "\n\tsyscall"@
}

/// The assembly text of a program read from the file `file`.
pub open spec fn program_text(file: Seq<char>, functions: Seq<FunctionView>) -> Text {
    join(
        join(Ok(header_text(file)), functions_text(functions, functions.len() as int)),
        Ok("\n"@),
    )
}

/// `result` holds the text that `text` describes, or is its error.
pub open spec fn yields(result: Result<String, GenError>, text: Text) -> bool {
    match text {
        Ok(expected) => result is Ok && result->Ok_0@ == expected,
        Err(e) => result == Err::<String, GenError>(e),
    }
}

/// Once pushing arguments has failed, pushing more of them fails alike.
pub proof fn lemma_pushes_error(
    arguments: Seq<ExpressionView>,
    k: int,
    n: int,
    callee: FunctionView,
    locals: Seq<LocalView>,
    functions: Seq<FunctionView>,
)
    requires
        0 <= k <= n <= arguments.len(),
        pushes_text(arguments, k, callee, locals, functions) is Err,
    ensures
        pushes_text(arguments, n, callee, locals, functions) == pushes_text(
            arguments,
            k,
            callee,
            locals,
            functions,
        ),
    decreases n - k,
{
    if k < n {
        lemma_pushes_error(arguments, k, n - 1, callee, locals, functions);
    }
}

/// Once a statement has failed, the statements behind it change nothing.
pub proof fn lemma_body_error(
    body: Seq<StatementView>,
    k: int,
    n: int,
    name: Seq<char>,
    locals: Seq<LocalView>,
    functions: Seq<FunctionView>,
)
    requires
        0 <= k <= n <= body.len(),
        body_text(body, k, name, locals, functions) is Err,
    ensures
        body_text(body, n, name, locals, functions) == body_text(body, k, name, locals, functions),
    decreases n - k,
{
    if k < n {
        lemma_body_error(body, k, n - 1, name, locals, functions);
    }
}

/// Once an argument has failed, the arguments behind it change nothing.
pub proof fn lemma_arguments_error(function: FunctionView, k: int, n: int)
    requires
        0 <= k <= n <= function.arguments.len(),
        arguments_text(function, k) is Err,
    ensures
        arguments_text(function, n) == arguments_text(function, k),
    decreases n - k,
{
    if k < n {
        lemma_arguments_error(function, k, n - 1);
    }
}

/// Once a function has failed, the functions behind it change nothing.
pub proof fn lemma_functions_error(functions: Seq<FunctionView>, k: int, n: int)
    requires
        0 <= k <= n <= functions.len(),
        functions_text(functions, k) is Err,
    ensures
        functions_text(functions, n) == functions_text(functions, k),
    decreases n - k,
{
    if k < n {
        lemma_functions_error(functions, k, n - 1);
    }
}

/// Writes the memory operand for the slot of `local`.
pub fn write_slot(local: &Local) -> (r: Result<String, GenError>)
    ensures
        yields(r, slot_text(local@)),
{
    let class = local.get_word_type()?;
    let end = match local.offset.checked_add(local.size) {
        Some(end) => end,
        None => {
            return Err(GenError::FrameTooLarge);
        },
    };
    let mut text = String::from_str(class.name());
    text.append(" [rbp - ");
    push_hex(&mut text, end as u64);
    text.append("]");
    Ok(text)
}

/// Writes the move of the number `n` into `register`.
pub fn write_load_number(register: &Register, n: u64) -> (r: Result<String, GenError>)
    ensures
        yields(r, load_number_text(*register, n)),
{
    let name = register.name()?;
    let mut text = String::from_str("\n\tmov ");
    text.append(name);
    text.append(", ");
    push_hex(&mut text, n);
    Ok(text)
}

/// Writes the load of `local` into `register`.
pub fn write_load_local(register: &Register, local: &Local) -> (r: Result<String, GenError>)
    ensures
        yields(r, load_local_text(*register, local@)),
{
    let name = register.name()?;
    let slot = write_slot(local)?;
    let mut text = String::from_str("\n\tmov ");
    text.append(name);
    text.append(", ");
    text.append(slot.as_str());
    text.append("\t; ");
    text.append(local.label.as_str());
    Ok(text)
}

/// Writes the store of `register` into the slot of `local`.
pub fn write_store_local(register: &Register, local: &Local) -> (r: Result<String, GenError>)
    ensures
        yields(r, store_local_text(*register, local@)),
{
    let slot = write_slot(local)?;
    let name = register.name()?;
    let mut text = String::from_str("\n\tmov ");
    text.append(slot.as_str());
    text.append(", ");
    text.append(name);
    text.append("\t; ");
    text.append(local.label.as_str());
    Ok(text)
}

/// Writes the instruction that applies `operator` to `register` and `alt`.
pub fn write_apply(operator: &BinaryOperator, register: &Register, alt: &Register) -> (r: Result<
    String,
    GenError,
>)
    ensures
        yields(r, apply_text(*operator, *register, *alt)),
{
    let mnemonic = operator.get_instruction()?;
    let target = register.name()?;
    let source = alt.name()?;
    let mut text = String::from_str("\n\t");
    text.append(mnemonic);
    text.append(" ");
    text.append(target);
    text.append(", ");
    text.append(source);
    Ok(text)
}

/// Writes the push of the argument at place `k` of a call of `callee`.
pub fn write_push_argument(callee: &Function, k: usize) -> (r: Result<String, GenError>)
    ensures
        yields(r, push_argument_text(callee@, k as int)),
{
    if k >= callee.arguments.len() {
        return Err(GenError::UnknownLocal);
    }
    let argument = match callee.locals.get(callee.arguments[k]) {
        Some(argument) => argument,
        None => {
            return Err(GenError::UnknownLocal);
        },
    };
    let mut text = String::from_str("\n\tpush rcx;\t");
    text.append(argument.label.as_str());
    Ok(text)
}

/// Writes the call of the function `name` and the move of what it returns
/// into `register`.
pub fn write_call(name: &String, register: &Register) -> (r: Result<String, GenError>)
    ensures
        yields(r, call_text(name@, *register)),
{
    let target = register.name()?;
    let mut text = String::from_str("\n\tcall ");
    text.append(name.as_str());
    text.append("\n\tmov ");
    text.append(target);
    text.append(", rax");
    Ok(text)
}

/// Writes the copy of one argument from above the frame pointer into its
/// slot.
pub fn write_argument(local: &Local) -> (r: Result<String, GenError>)
    ensures
        yields(r, argument_text(local@)),
{
    let class = local.get_word_type()?;
    if local.offset > usize::MAX - 16 {
        return Err(GenError::FrameTooLarge);
    }
    let mut text = String::from_str("\n\tmov rax, ");
    text.append(class.name());
    text.append(" [rbp + ");
    push_hex(&mut text, (16 + local.offset) as u64);
    text.append("]");
    let store = write_store_local(&Register::R1(64), local)?;
    text.append(store.as_str());
    Ok(text)
}

/// Writes the label of `function` and the code that sets up its frame.
pub fn write_prologue(function: &Function) -> (r: Result<String, GenError>)
    ensures
        yields(r, prologue_text(function@)),
{
    let count = function.locals.locals.len();
    let size = if count == 0 {
        Some(0)
    } else {
        let last = &function.locals.locals[count - 1];
        assert(function.locals@.last() == last@);
        last.offset.checked_add(last.size)
    };
    let padded = match size {
        Some(size) => size.checked_add(23),
        None => None,
    };
    let reserved = match padded {
        Some(padded) => padded / 16 * 16,
        None => {
            return Err(GenError::FrameTooLarge);
        },
    };
    let mut text = String::from_str("\n");
    text.append(function.name.as_str());
    text.append(":");
    text.append("\n\tpush rbp");
    text.append("\n\tmov rbp, rsp");
    text.append("\n\tsub rsp, ");
    push_hex(&mut text, reserved as u64);
    Ok(text)
}

/// Writes the return label of the function `name` and the code that
/// leaves it.
pub fn write_epilogue(name: &String) -> (text: String)
    ensures
        text@ == epilogue_text(name@),
{
    let mut text = String::from_str("\n.return_");
    text.append(name.as_str());
    text.append(":");
    text.append("\n\tmov rsp, rbp");
    text.append("\n\tpop rbp");
    text.append("\n\tret");
    text
}

/// Why a source file could not be compiled.
#[derive(Debug, Clone)]
pub enum CompileError {
    Lex(LexError),
    Syntax(SyntaxError),
    Gen(GenError),
}

impl CompileError {
    /// The error as text; errors of lexer and parser begin with the place
    /// they are about.
    pub fn to_string(&self) -> (text: String)
        ensures
            text@ == match *self {
                CompileError::Lex(e) => crate::text::located_text(
                    e.file@,
                    e.position.line as nat,
                    e.position.column as nat,
                    e.kind.message_text(),
                ),
                CompileError::Syntax(e) => crate::text::located_text(
                    e.file@,
                    e.position.line as nat,
                    e.position.column as nat,
                    e.kind.message_text(),
                ),
                CompileError::Gen(e) => e.message_text(),
            },
    {
        match self {
            CompileError::Lex(e) => e.to_string(),
            CompileError::Syntax(e) => e.to_string(),
            CompileError::Gen(e) => String::from_str(e.message()),
        }
    }
}

/// The mathematical value of a [`CompileError`], without the file name.
pub enum CompileFailure {
    Lex(LexErrorKind, Position),
    Syntax(Failure),
    Gen(GenError),
}

/// `error` reports `failure` in the file called `file`.
pub open spec fn compile_reports(error: CompileError, failure: CompileFailure, file: Seq<char>) -> bool {
    match failure {
        CompileFailure::Lex(kind, position) => error matches CompileError::Lex(e) && e.kind == kind
            && e.position == position && e.file@ == file,
        CompileFailure::Syntax(f) => error matches CompileError::Syntax(e) && crate::parser::reports(
            e,
            f,
            file,
        ),
        CompileFailure::Gen(g) => error == CompileError::Gen(g),
    }
}

/// The assembly text for the tokens `read` so far and the bytes of `data`
/// from `cursor` on, or the first error of lexer, parser or generator.
pub open spec fn compile_rest(
    file: Seq<char>,
    data: Seq<u8>,
    cursor: int,
    read: Seq<crate::lexer::TokenView>,
) -> Result<Seq<char>, CompileFailure> {
    match tokens_from(data, cursor) {
        Err((kind, at)) => Err(CompileFailure::Lex(kind, position_at(data, at))),
        Ok(tokens) => match parse_program(
            Source { tokens: read + tokens, end: position_at(data, data.len() as int) },
        ) {
            Err(f) => Err(CompileFailure::Syntax(f)),
            Ok(functions) => match program_text(file, functions) {
                Err(g) => Err(CompileFailure::Gen(g)),
                Ok(text) => Ok(text),
            },
        },
    }
}

/// The assembly text for the source `data` of the file `file`.
pub open spec fn compile_text(file: Seq<char>, data: Seq<u8>) -> Result<Seq<char>, CompileFailure> {
    compile_rest(file, data, 0, Seq::empty())
}

/// The compiler of one source file: parser and generator, and the assembly
/// text written so far.
pub struct Compiler {
    filename: String,
    parser: Parser,
    buffer: String,
}

impl Compiler {
    /// The name of the source file.
    pub closed spec fn file(&self) -> Seq<char> {
        self.filename@
    }

    /// The parser that reads the file.
    pub closed spec fn parser(&self) -> Parser {
        self.parser
    }

    /// The assembly text written so far.
    pub closed spec fn text(&self) -> Seq<char> {
        self.buffer@
    }

    pub closed spec fn wf(&self) -> bool {
        &&& self.parser.wf()
        &&& self.parser.lexer().wf()
        &&& self.parser.file() == self.filename@
    }

    /// What `compile` would write next.
    pub open spec fn pending(&self) -> Result<Seq<char>, CompileFailure> {
        compile_rest(
            self.file(),
            self.parser().lexer().source(),
            self.parser().lexer().cursor(),
            self.parser().tokens(),
        )
    }

    /// A compiler for `data`, the contents of the file `filename`.
    pub fn from_file(filename: &str, data: Vec<u8>) -> (compiler: Self)
        requires
            data.len() < usize::MAX,
        ensures
            compiler.wf(),
            compiler.file() == filename@,
            compiler.text() == Seq::<char>::empty(),
            compiler.pending() == compile_text(filename@, data@),
    {
        Self {
            filename: String::from_str(filename),
            parser: Parser::from_file(filename, data),
            buffer: String::new(),
        }
    }

    /// The assembly text written so far.
    pub fn output(&self) -> (text: &String)
        ensures
            text@ == self.text(),
    {
        &self.buffer
    }

    /// Compiles the file: reads its tokens, parses them and adds the
    /// assembly text of the program to the output. After an error the
    /// output is as before. The generator fails only on a program that
    /// divides or whose locals do not fit the address range. Compiling
    /// again does the same again.
    pub fn compile(&mut self) -> (r: Result<(), CompileError>)
        requires
            old(self).wf(),
        ensures
            final(self).wf(),
            final(self).file() == old(self).file(),
            match old(self).pending() {
                Ok(text) => r is Ok && final(self).text() == old(self).text() + text,
                Err(failure) => r is Err && compile_reports(r->Err_0, failure, old(self).file())
                    && final(self).text() == old(self).text(),
            },
            r matches Err(CompileError::Gen(e)) ==> crate::compiler::laws::beyond_the_generator(e),
            final(self).pending() == old(self).pending(),
    {
        proof {
            let data = self.parser.lexer().source();
            let read = self.parser.tokens();
            self.parser.lexer().lemma_cursor_in_bounds();
            crate::lexer::lemma_skip_whitespace_bounds(data, data.len() as int);
            assert(tokens_from(data, data.len() as int) == Ok::<
                Seq<crate::lexer::TokenView>,
                (LexErrorKind, int),
            >(Seq::empty()));
            match tokens_from(data, self.parser.lexer().cursor()) {
                Ok(tokens) => {
                    assert((read + tokens) + Seq::<crate::lexer::TokenView>::empty() =~= read
                        + tokens);
                },
                Err(_) => {},
            }
        }
        match self.parser.generate_tokens() {
            Ok(()) => {},
            Err(e) => {
                return Err(CompileError::Lex(e));
            },
        }
        let program = match self.parser.generate_program() {
            Ok(program) => program,
            Err(e) => {
                return Err(CompileError::Syntax(e));
            },
        };
        proof {
            crate::compiler::laws::lemma_program_generated(self.file(), program@);
        }
        let text = match self.write_program(&program) {
            Ok(text) => text,
            Err(e) => {
                return Err(CompileError::Gen(e));
            },
        };
        self.buffer.append(text.as_str());
        Ok(())
    }

    /// Writes the start of the assembly text.
    pub fn write_header(&self) -> (text: String)
        ensures
            text@ == header_text(self.file()),
    {
        let mut buffer = String::from_str("; Source File: ");
        buffer.append(self.filename.as_str());
        buffer.append("\nsection .text");
        buffer.append("\n\tglobal _start");
        buffer.append("\n_start:");
        buffer.append("\n\tcall main");
        buffer.append("\n\tmov rdi, rax");
        buffer.append("\n\tmov rax, 0x3c");
        buffer.append("\n\tsyscall");
        buffer
    }

    /// Writes the assembly text of `program`.
    pub fn write_program(&self, program: &Program) -> (r: Result<String, GenError>)
        ensures
            yields(r, program_text(self.file(), program@)),
    {
        let mut buffer = self.write_header();
        let mut code = String::new();
        let mut i: usize = 0;
        while i < program.functions.len()
            invariant
                i <= program.functions.len(),
                buffer@ == header_text(self.file()),
                functions_text(program@, i as int) == Ok::<Seq<char>, GenError>(code@),
            decreases program.functions.len() - i,
        {
            let ghost written = code@;
            match self.write_function(&program.functions[i], &program.functions) {
                Ok(text) => {
                    code.append(text.as_str());
                },
                Err(e) => {
                    proof {
                        lemma_functions_error(program@, i as int + 1, program@.len() as int);
                    }
                    return Err(e);
                },
            }
            i += 1;
        }
        buffer.append(code.as_str());
        buffer.append("\n");
        Ok(buffer)
    }

    /// Writes the code of `function`, one of `functions`.
    pub fn write_function(&self, function: &Function, functions: &Vec<Function>) -> (r: Result<
        String,
        GenError,
    >)
        ensures
            yields(r, function_text(function@, functions.deep_view())),
    {
        proof {
            reveal(function_text);
        }
        let mut buffer = write_prologue(function)?;
        let mut copies = String::new();
        let mut i: usize = 0;
        while i < function.arguments.len()
            invariant
                i <= function.arguments.len(),
                prologue_text(function@) == Ok::<Seq<char>, GenError>(buffer@),
                arguments_text(function@, i as int) == Ok::<Seq<char>, GenError>(copies@),
            decreases function.arguments.len() - i,
        {
            let copy = match function.locals.get(function.arguments[i]) {
                Some(argument) => write_argument(argument),
                None => Err(GenError::UnknownLocal),
            };
            match copy {
                Ok(text) => {
                    copies.append(text.as_str());
                },
                Err(e) => {
                    proof {
                        reveal(function_text);
                        lemma_arguments_error(
                            function@,
                            i as int + 1,
                            function@.arguments.len() as int,
                        );
                    }
                    return Err(e);
                },
            }
            i += 1;
        }
        buffer.append(copies.as_str());
        let body = self.write_body(
            function.name.as_str(),
            &function.body,
            &function.locals,
            functions,
        )?;
        buffer.append(body.as_str());
        buffer.append(write_epilogue(&function.name).as_str());
        Ok(buffer)
    }

    /// Writes the code of one statement of the function `name`.
    pub fn write_statement(
        &self,
        name: &str,
        statement: &Statement,
        locals: &LocalStack,
        functions: &Vec<Function>,
    ) -> (r: Result<String, GenError>)
        ensures
            yields(r, statement_text(statement@, name@, locals@, functions.deep_view())),
    {
        proof {
            reveal(statement_text);
        }
        match statement {
            Statement::Assign(index, expression) => {
                let local = match locals.get(*index) {
                    Some(local) => local,
                    None => {
                        return Err(GenError::UnknownLocal);
                    },
                };
                let mut buffer = self.write_expression(
                    expression,
                    &Register::R2(64),
                    &Register::R3(64),
                    locals,
                    functions,
                )?;
                let store = write_store_local(&Register::R2(64), local)?;
                buffer.append(store.as_str());
                Ok(buffer)
            },
            Statement::Return(expression) => {
                let mut buffer = self.write_expression(
                    expression,
                    &Register::R2(64),
                    &Register::R3(64),
                    locals,
                    functions,
                )?;
                let mut leave = String::from_str("\n\tmov rax, rcx");
                leave.append("\n\tjmp .return_");
                leave.append(name);
                buffer.append(leave.as_str());
                Ok(buffer)
            },
            Statement::Call(expression) => self.write_expression(
                expression,
                &Register::R2(64),
                &Register::R3(64),
                locals,
                functions,
            ),
        }
    }

    /// Writes the code of the statements of `body`, the body of the
    /// function `name`.
    pub fn write_body(
        &self,
        name: &str,
        body: &Scope,
        locals: &LocalStack,
        functions: &Vec<Function>,
    ) -> (r: Result<String, GenError>)
        ensures
            yields(
                r,
                body_text(body@, body@.len() as int, name@, locals@, functions.deep_view()),
            ),
    {
        let mut buffer = String::new();
        let mut i: usize = 0;
        while i < body.statements.len()
            invariant
                i <= body.statements.len(),
                body_text(body@, i as int, name@, locals@, functions.deep_view()) == Ok::<
                    Seq<char>,
                    GenError,
                >(buffer@),
            decreases body.statements.len() - i,
        {
            match self.write_statement(name, &body.statements[i], locals, functions) {
                Ok(text) => {
                    buffer.append(text.as_str());
                },
                Err(e) => {
                    proof {
                        lemma_body_error(
                            body@,
                            i as int + 1,
                            body@.len() as int,
                            name@,
                            locals@,
                            functions.deep_view(),
                        );
                    }
                    return Err(e);
                },
            }
            i += 1;
        }
        Ok(buffer)
    }

    /// Writes the code that leaves the value of `expression` in `register`,
    /// with `alt` as scratch register.
    pub fn write_expression(
        &self,
        expression: &Expression,
        register: &Register,
        alt: &Register,
        locals: &LocalStack,
        functions: &Vec<Function>,
    ) -> (r: Result<String, GenError>)
        ensures
            yields(
                r,
                expression_text(expression@, *register, *alt, locals@, functions.deep_view()),
            ),
        decreases expression,
    {
        match expression {
            Expression::NumberLiteral(number) => write_load_number(register, *number),
            Expression::Local(index) => match locals.get(*index) {
                Some(local) => write_load_local(register, local),
                None => Err(GenError::UnknownLocal),
            },
            Expression::Binary(binary) => {
                let left = &*binary.left;
                let right = &*binary.right;
                let right_first = !matches!(left, Expression::Binary(_)) && matches!(
                    right,
                    Expression::Binary(_)
                );
                proof {
                    assert(expression@ == ExpressionView::Binary(
                        binary.operator,
                        Box::new(left@),
                        Box::new(right@),
                    ));
                    assert(left@ is Binary == left is Binary);
                    assert(right@ is Binary == right is Binary);
                }
                let mut buffer = if right_first {
                    let mut first = self.write_expression(right, alt, register, locals, functions)?;
                    let second = self.write_expression(left, register, alt, locals, functions)?;
                    first.append(second.as_str());
                    first
                } else {
                    let mut first = self.write_expression(left, register, alt, locals, functions)?;
                    let second = self.write_expression(right, alt, register, locals, functions)?;
                    first.append(second.as_str());
                    first
                };
                let apply = write_apply(&binary.operator, register, alt)?;
                buffer.append(apply.as_str());
                Ok(buffer)
            },
            Expression::Call(index, expressions) => {
                if *index >= functions.len() {
                    return Err(GenError::UnknownFunction);
                }
                let callee = &functions[*index];
                if callee.arguments.len() != expressions.len() {
                    return Err(GenError::ArgumentMismatch);
                }
                proof {
                    crate::parser::lemma_call_view(*index, *expressions);
                }
                let mut buffer = String::new();
                let mut i: usize = 0;
                while i < expressions.len()
                    invariant
                        i <= expressions.len(),
                        *expression == Expression::Call(*index, *expressions),
                        expression@ == ExpressionView::Call(*index, expressions.deep_view()),
                        *index < functions.len(),
                        *callee == functions[*index as int],
                        callee.arguments.len() == expressions.len(),
                        pushes_text(
                            expressions.deep_view(),
                            i as int,
                            callee@,
                            locals@,
                            functions.deep_view(),
                        ) == Ok::<Seq<char>, GenError>(buffer@),
                    decreases expressions.len() - i,
                {
                    let pushed = match self.write_expression(
                        &expressions[i],
                        &Register::R2(64),
                        &Register::R3(64),
                        locals,
                        functions,
                    ) {
                        Ok(text) => match write_push_argument(callee, i) {
                            Ok(push) => Ok((text, push)),
                            Err(e) => Err(e),
                        },
                        Err(e) => Err(e),
                    };
                    match pushed {
                        Ok((text, push)) => {
                            buffer.append(text.as_str());
                            buffer.append(push.as_str());
                        },
                        Err(e) => {
                            proof {
                                lemma_pushes_error(
                                    expressions.deep_view(),
                                    i as int + 1,
                                    expressions.len() as int,
                                    callee@,
                                    locals@,
                                    functions.deep_view(),
                                );
                            }
                            return Err(e);
                        },
                    }
                    i += 1;
                }
                let call = write_call(&callee.name, register)?;
                buffer.append(call.as_str());
                Ok(buffer)
            },
        }
    }
}

} // verus!
