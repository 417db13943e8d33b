//! How parser and generator fit together: for a program that the parser
//! accepts, the generator fails only where the language goes beyond what
//! it implements.

use vstd::prelude::*;
use crate::compiler::{
    alternate, arguments_text, body_text, expression_text, function_text, functions_text,
    instruction, primary, program_text, pushes_text, register_name, statement_text,
    GenError, Register, Text,
};
use crate::parser::laws::{
    all_resolved, body_resolved, expression_resolved, program_resolved, quad_slots,
    statement_resolved,
};
use crate::parser::{
    lemma_slot_within, ExpressionView, FunctionView, LocalView, StatementView,
};

verus! {

/// The only errors that are left for a resolved program: an operator
/// without an instruction, and a frame beyond the address range.
pub open spec fn beyond_the_generator(e: GenError) -> bool {
    e == GenError::UnsupportedOperator || e == GenError::FrameTooLarge
}

/// `text` is there, or the language went beyond the generator.
pub open spec fn generated(text: Text) -> bool {
    text matches Err(e) ==> beyond_the_generator(e)
}

/// The register is used at one of the four widths that have a name.
pub open spec fn named(register: Register) -> bool {
    register_name(register) is Ok
}

/// What is resolved against the functions declared so far stays resolved
/// when more functions follow.
pub proof fn lemma_resolved_among_more(
    e: ExpressionView,
    locals: nat,
    functions: Seq<FunctionView>,
    k: int,
)
    requires
        0 <= k <= functions.len(),
        expression_resolved(e, locals, functions.take(k)),
    ensures
        expression_resolved(e, locals, functions),
    decreases e,
{
    match e {
        ExpressionView::Binary(_, left, right) => {
            lemma_resolved_among_more(*left, locals, functions, k);
            lemma_resolved_among_more(*right, locals, functions, k);
        },
        ExpressionView::Call(_, arguments) => {
            assert forall|i: int| 0 <= i < arguments.len() implies expression_resolved(
                #[trigger] arguments[i],
                locals,
                functions,
            ) by {
                lemma_resolved_among_more(arguments[i], locals, functions, k);
            }
        },
        _ => {},
    }
}

/// The code for a resolved expression fails only on an operator without
/// an instruction.
pub proof fn lemma_expression_generated(
    e: ExpressionView,
    register: Register,
    alt: Register,
    locals: Seq<LocalView>,
    functions: Seq<FunctionView>,
)
    requires
        expression_resolved(e, locals.len(), functions),
        quad_slots(locals),
        named(register),
        named(alt),
        program_resolved(functions),
    ensures
        expression_text(e, register, alt, locals, functions) matches Err(error) ==> error
            == GenError::UnsupportedOperator,
    decreases e, 0int,
{
    match e {
        ExpressionView::NumberLiteral(_) => {},
        ExpressionView::Local(index) => {
            lemma_slot_within(locals, index as int);
        },
        ExpressionView::Binary(_, left, right) => {
            lemma_expression_generated(*left, register, alt, locals, functions);
            lemma_expression_generated(*right, alt, register, locals, functions);
        },
        ExpressionView::Call(index, arguments) => {
            lemma_pushes_generated(
                arguments,
                arguments.len() as int,
                functions[index as int],
                locals,
                functions,
            );
        },
    }
}

/// The code that pushes resolved arguments for a resolved callee fails
/// only on an operator without an instruction.
pub proof fn lemma_pushes_generated(
    arguments: Seq<ExpressionView>,
    k: int,
    callee: FunctionView,
    locals: Seq<LocalView>,
    functions: Seq<FunctionView>,
)
    requires
        0 <= k <= arguments.len(),
        arguments.len() == callee.arguments.len(),
        all_resolved(arguments, locals.len(), functions),
        quad_slots(locals),
        program_resolved(functions),
        forall|i: int|
            0 <= i < callee.arguments.len() ==> (#[trigger] callee.arguments[i])
                < callee.locals.len(),
    ensures
        pushes_text(arguments, k, callee, locals, functions) matches Err(error) ==> error
            == GenError::UnsupportedOperator,
    decreases arguments, k,
{
    if k > 0 {
        lemma_pushes_generated(arguments, k - 1, callee, locals, functions);
        lemma_expression_generated(arguments[k - 1], primary(), alternate(), locals, functions);
    }
}

/// The code for a resolved statement fails only on an operator without an
/// instruction.
pub proof fn lemma_statement_generated(
    statement: StatementView,
    name: Seq<char>,
    locals: Seq<LocalView>,
    functions: Seq<FunctionView>,
)
    requires
        statement_resolved(statement, locals.len(), functions),
        quad_slots(locals),
        program_resolved(functions),
    ensures
        statement_text(statement, name, locals, functions) matches Err(error) ==> error
            == GenError::UnsupportedOperator,
{
    reveal(statement_text);
    match statement {
        StatementView::Assign(index, e) => {
            lemma_slot_within(locals, index as int);
            lemma_expression_generated(e, primary(), alternate(), locals, functions);
        },
        StatementView::Return(e) => {
            lemma_expression_generated(e, primary(), alternate(), locals, functions);
        },
        StatementView::Call(e) => {
            lemma_expression_generated(e, primary(), alternate(), locals, functions);
        },
    }
}

/// The code for the first `k` statements of a resolved body fails only on
/// an operator without an instruction.
pub proof fn lemma_body_generated(
    body: Seq<StatementView>,
    k: int,
    name: Seq<char>,
    locals: Seq<LocalView>,
    functions: Seq<FunctionView>,
)
    requires
        0 <= k <= body.len(),
        body_resolved(body, locals.len(), functions),
        quad_slots(locals),
        program_resolved(functions),
    ensures
        body_text(body, k, name, locals, functions) matches Err(error) ==> error
            == GenError::UnsupportedOperator,
    decreases k,
{
    if k > 0 {
        lemma_body_generated(body, k - 1, name, locals, functions);
        lemma_statement_generated(body[k - 1], name, locals, functions);
    }
}

/// The code that copies the first `k` arguments of a resolved function
/// fails only where an argument lies beyond the address range.
pub proof fn lemma_arguments_generated(function: FunctionView, k: int)
    requires
        0 <= k <= function.arguments.len(),
        quad_slots(function.locals),
        forall|i: int|
            0 <= i < function.arguments.len() ==> (#[trigger] function.arguments[i])
                < function.locals.len(),
    ensures
        arguments_text(function, k) matches Err(error) ==> error == GenError::FrameTooLarge,
    decreases k,
{
    if k > 0 {
        lemma_arguments_generated(function, k - 1);
        lemma_slot_within(function.locals, function.arguments[k - 1] as int);
    }
}

/// A body that is resolved against the functions before it is resolved
/// against the whole program.
pub proof fn lemma_body_among_more(
    body: Seq<StatementView>,
    locals: nat,
    functions: Seq<FunctionView>,
    k: int,
)
    requires
        0 <= k <= functions.len(),
        body_resolved(body, locals, functions.take(k)),
    ensures
        body_resolved(body, locals, functions),
{
    assert forall|i: int| 0 <= i < body.len() implies statement_resolved(
        #[trigger] body[i],
        locals,
        functions,
    ) by {
        match body[i] {
            StatementView::Assign(_, e) => lemma_resolved_among_more(e, locals, functions, k),
            StatementView::Return(e) => lemma_resolved_among_more(e, locals, functions, k),
            StatementView::Call(e) => lemma_resolved_among_more(e, locals, functions, k),
        }
    }
}

/// The code for the first `k` functions of a resolved program fails only
/// where the language goes beyond the generator.
pub proof fn lemma_functions_generated(functions: Seq<FunctionView>, k: int)
    requires
        0 <= k <= functions.len(),
        program_resolved(functions),
    ensures
        generated(functions_text(functions, k)),
    decreases k,
{
    if k > 0 {
        lemma_functions_generated(functions, k - 1);
        let function = functions[k - 1];
        reveal(function_text);
        lemma_arguments_generated(function, function.arguments.len() as int);
        lemma_body_among_more(function.body, function.locals.len(), functions, k - 1);
        lemma_body_generated(
            function.body,
            function.body.len() as int,
            function.name,
            function.locals,
            functions,
        );
    }
}

/// For a resolved program, and so for every program that the parser
/// accepts, the generator writes the assembly text unless the program
/// divides or a frame does not fit the address range: no index dangles, no
/// call disagrees with its callee, no slot has an unknown size.
pub proof fn lemma_program_generated(file: Seq<char>, functions: Seq<FunctionView>)
    requires
        program_resolved(functions),
    ensures
        generated(program_text(file, functions)),
{
    lemma_functions_generated(functions, functions.len() as int);
}

} // verus!
