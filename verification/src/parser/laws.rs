//! What holds of everything the parser accepts: every index in a parsed
//! program names something, every call has the number of arguments of its
//! callee and names a function declared before the caller, and every
//! construct ends behind its beginning and within the tokens.

use vstd::prelude::*;
use crate::lexer::{BinaryOperator, Position, TokenKind, TokenView};
use crate::parser::grammar::{
    drain, find_function, find_function_from, finish, lemma_nothing_to_finish, operand_step,
    parse_arg, parse_arg_list, parse_args, parse_assign, parse_call, parse_call_arg,
    parse_call_arg_list, parse_call_args, parse_declared_arg, parse_expression,
    parse_expression_statement, parse_function, parse_functions, parse_operands, parse_program,
    parse_scope, parse_statement, parse_statements, parse_var_declaration, pop_tighter,
    pop_to_left_par, reduce, ItemView, Pending, Source, Step, LOCAL_SIZE,
};
use crate::parser::{
    declare_local, footprint, lemma_declare_keeps_order, lemma_find_local_from, slots_in_order,
    ExpressionView, FunctionView, LocalView, StatementView,
};

verus! {

/// Every index in `e` names something: a local among the first `locals`
/// of its function, or one of `functions`, called with as many arguments
/// as it declares.
pub open spec fn expression_resolved(e: ExpressionView, locals: nat, functions: Seq<FunctionView>) -> bool
    decreases e,
{
    match e {
        ExpressionView::NumberLiteral(_) => true,
        ExpressionView::Local(index) => index < locals,
        ExpressionView::Binary(_, left, right) => expression_resolved(*left, locals, functions)
            && expression_resolved(*right, locals, functions),
        ExpressionView::Call(index, arguments) => index < functions.len() && arguments.len()
            == functions[index as int].arguments.len() && forall|i: int|
            0 <= i < arguments.len() ==> expression_resolved(
                #[trigger] arguments[i],
                locals,
                functions,
            ),
    }
}

/// Every index in `statement` names something.
pub open spec fn statement_resolved(
    statement: StatementView,
    locals: nat,
    functions: Seq<FunctionView>,
) -> bool {
    match statement {
        StatementView::Assign(index, e) => index < locals && expression_resolved(
            e,
            locals,
            functions,
        ),
        StatementView::Return(e) => expression_resolved(e, locals, functions),
        StatementView::Call(e) => expression_resolved(e, locals, functions),
    }
}

/// Every statement of `body` is resolved.
pub open spec fn body_resolved(
    body: Seq<StatementView>,
    locals: nat,
    functions: Seq<FunctionView>,
) -> bool {
    forall|i: int| 0 <= i < body.len() ==> statement_resolved(#[trigger] body[i], locals, functions)
}

/// Every one of `expressions` is resolved.
pub open spec fn all_resolved(
    expressions: Seq<ExpressionView>,
    locals: nat,
    functions: Seq<FunctionView>,
) -> bool {
    forall|i: int|
        0 <= i < expressions.len() ==> expression_resolved(
            #[trigger] expressions[i],
            locals,
            functions,
        )
}

/// Every operand in `queue` is resolved.
pub open spec fn queue_resolved(
    queue: Seq<ItemView>,
    locals: nat,
    functions: Seq<FunctionView>,
) -> bool {
    forall|i: int|
        0 <= i < queue.len() ==> ((#[trigger] queue[i]) matches ItemView::Operand(e)
            ==> expression_resolved(e, locals, functions))
}

/// The table of locals as the parser builds it: the slots lie in order and
/// each takes one quad word.
pub open spec fn quad_slots(locals: Seq<LocalView>) -> bool {
    &&& slots_in_order(locals)
    &&& forall|i: int| 0 <= i < locals.len() ==> (#[trigger] locals[i]).size == LOCAL_SIZE
}

/// Declaring a name with the size of a quad word keeps a table of quad
/// words in order, and the name gets an index in the table.
pub proof fn lemma_declare_quad(locals: Seq<LocalView>, label: Seq<char>)
    requires
        quad_slots(locals),
        footprint(locals) + LOCAL_SIZE <= usize::MAX,
    ensures
        quad_slots(declare_local(locals, label, LOCAL_SIZE).0),
        locals.len() <= declare_local(locals, label, LOCAL_SIZE).0.len(),
        0 <= declare_local(locals, label, LOCAL_SIZE).1 < declare_local(
            locals,
            label,
            LOCAL_SIZE,
        ).0.len(),
{
    lemma_declare_keeps_order(locals, label, LOCAL_SIZE);
}

/// The locals of `function` are quad words in order, its arguments are
/// among them, and its body calls no function but those in `earlier`.
pub open spec fn function_resolved(function: FunctionView, earlier: Seq<FunctionView>) -> bool {
    &&& quad_slots(function.locals)
    &&& forall|i: int|
        0 <= i < function.arguments.len() ==> (#[trigger] function.arguments[i])
            < function.locals.len()
    &&& body_resolved(function.body, function.locals.len(), earlier)
}

/// Each function of the program is resolved against the functions that
/// are declared before it.
pub open spec fn program_resolved(functions: Seq<FunctionView>) -> bool {
    forall|k: int|
        0 <= k < functions.len() ==> function_resolved(#[trigger] functions[k], functions.take(k))
}

/// What is resolved stays so when the function gets more locals.
pub proof fn lemma_expression_stays_resolved(
    e: ExpressionView,
    locals: nat,
    more: nat,
    functions: Seq<FunctionView>,
)
    requires
        expression_resolved(e, locals, functions),
        locals <= more,
    ensures
        expression_resolved(e, more, functions),
    decreases e,
{
    match e {
        ExpressionView::Binary(_, left, right) => {
            lemma_expression_stays_resolved(*left, locals, more, functions);
            lemma_expression_stays_resolved(*right, locals, more, functions);
        },
        ExpressionView::Call(_, arguments) => {
            assert forall|i: int| 0 <= i < arguments.len() implies expression_resolved(
                #[trigger] arguments[i],
                more,
                functions,
            ) by {
                lemma_expression_stays_resolved(arguments[i], locals, more, functions);
            }
        },
        _ => {},
    }
}

/// A body that is resolved stays so when the function gets more locals.
pub proof fn lemma_body_stays_resolved(
    body: Seq<StatementView>,
    locals: nat,
    more: nat,
    functions: Seq<FunctionView>,
)
    requires
        body_resolved(body, locals, functions),
        locals <= more,
    ensures
        body_resolved(body, more, functions),
{
    assert forall|i: int| 0 <= i < body.len() implies statement_resolved(
        #[trigger] body[i],
        more,
        functions,
    ) by {
        match body[i] {
            StatementView::Assign(_, e) => lemma_expression_stays_resolved(
                e,
                locals,
                more,
                functions,
            ),
            StatementView::Return(e) => lemma_expression_stays_resolved(
                e,
                locals,
                more,
                functions,
            ),
            StatementView::Call(e) => lemma_expression_stays_resolved(e, locals, more, functions),
        }
    }
}

/// Moving operators to the queue leaves its operands as they are.
pub proof fn lemma_pop_tighter_resolved(
    queue: Seq<ItemView>,
    stack: Seq<Pending>,
    precedence: nat,
    locals: nat,
    functions: Seq<FunctionView>,
)
    requires
        queue_resolved(queue, locals, functions),
    ensures
        queue_resolved(pop_tighter(queue, stack, precedence).0, locals, functions),
    decreases stack.len(),
{
    if stack.len() > 0 {
        match stack.last() {
            Pending::Operator(op, position) => {
                if op.precedence() > precedence {
                    lemma_pop_tighter_resolved(
                        queue.push(ItemView::Operator(op, position)),
                        stack.drop_last(),
                        precedence,
                        locals,
                        functions,
                    );
                }
            },
            Pending::LeftPar(_) => {},
        }
    }
}

/// Moving operators to the queue leaves its operands as they are.
pub proof fn lemma_pop_to_left_par_resolved(
    queue: Seq<ItemView>,
    stack: Seq<Pending>,
    locals: nat,
    functions: Seq<FunctionView>,
)
    requires
        queue_resolved(queue, locals, functions),
    ensures
        queue_resolved(pop_to_left_par(queue, stack).0, locals, functions),
    decreases stack.len(),
{
    if stack.len() > 0 {
        match stack.last() {
            Pending::Operator(op, position) => {
                lemma_pop_to_left_par_resolved(
                    queue.push(ItemView::Operator(op, position)),
                    stack.drop_last(),
                    locals,
                    functions,
                );
            },
            Pending::LeftPar(_) => {},
        }
    }
}

/// Moving operators to the queue leaves its operands as they are.
pub proof fn lemma_drain_resolved(
    queue: Seq<ItemView>,
    stack: Seq<Pending>,
    locals: nat,
    functions: Seq<FunctionView>,
)
    requires
        queue_resolved(queue, locals, functions),
    ensures
        drain(queue, stack) matches Ok(postfix) ==> queue_resolved(postfix, locals, functions),
    decreases stack.len(),
{
    if stack.len() > 0 {
        match stack.last() {
            Pending::Operator(op, position) => {
                lemma_drain_resolved(
                    queue.push(ItemView::Operator(op, position)),
                    stack.drop_last(),
                    locals,
                    functions,
                );
            },
            Pending::LeftPar(_) => {},
        }
    }
}

/// Combining resolved operands gives resolved operands.
pub proof fn lemma_reduce_resolved(
    queue: Seq<ItemView>,
    operands: Seq<ExpressionView>,
    locals: nat,
    functions: Seq<FunctionView>,
)
    requires
        queue_resolved(queue, locals, functions),
        all_resolved(operands, locals, functions),
    ensures
        reduce(queue, operands) matches Ok(left) ==> all_resolved(left, locals, functions),
    decreases queue.len(),
{
    if queue.len() > 0 {
        let rest = queue.drop_first();
        assert forall|i: int| 0 <= i < rest.len() implies ((#[trigger] rest[i]) matches ItemView::Operand(
            e,
        ) ==> expression_resolved(e, locals, functions)) by {
            assert(rest[i] == queue[i + 1]);
        }
        match queue.first() {
            ItemView::Operand(e) => {
                assert(queue[0] == queue.first());
                lemma_reduce_resolved(rest, operands.push(e), locals, functions);
            },
            ItemView::Operator(op, position) => {
                if operands.len() >= 2 {
                    let combined = ExpressionView::Binary(
                        op,
                        Box::new(operands[operands.len() - 2]),
                        Box::new(operands[operands.len() - 1]),
                    );
                    lemma_reduce_resolved(
                        rest,
                        operands.take(operands.len() - 2).push(combined),
                        locals,
                        functions,
                    );
                }
            },
        }
    }
}

/// The expression that a resolved queue stands for is resolved.
pub proof fn lemma_finish_resolved(
    queue: Seq<ItemView>,
    stack: Seq<Pending>,
    terminator: crate::lexer::Position,
    locals: nat,
    functions: Seq<FunctionView>,
)
    requires
        queue_resolved(queue, locals, functions),
    ensures
        finish(queue, stack, terminator) matches Ok(e) ==> expression_resolved(
            e,
            locals,
            functions,
        ),
{
    lemma_drain_resolved(queue, stack, locals, functions);
    match drain(queue, stack) {
        Ok(postfix) => {
            lemma_reduce_resolved(postfix, Seq::empty(), locals, functions);
        },
        Err(_) => {},
    }
}

/// A token keeps the queue resolved, and an expression that it ends is
/// resolved.
pub proof fn lemma_step_resolved(
    token: TokenView,
    before: Option<TokenView>,
    locals: Seq<LocalView>,
    call_arg: bool,
    queue: Seq<ItemView>,
    stack: Seq<Pending>,
    functions: Seq<FunctionView>,
)
    requires
        queue_resolved(queue, locals.len(), functions),
    ensures
        match operand_step(token, before, locals, call_arg, queue, stack) {
            Step::Continue(queued, _) => queue_resolved(queued, locals.len(), functions),
            Step::Done(Ok(e)) => expression_resolved(e, locals.len(), functions),
            Step::Done(Err(_)) => true,
        },
{
    reveal(operand_step);
    match token.kind {
        TokenKind::Identifier(name) => {
            lemma_find_local_from(locals, name, 0);
        },
        TokenKind::BinaryOperation(op) => {
            lemma_pop_tighter_resolved(queue, stack, op.precedence(), locals.len(), functions);
        },
        TokenKind::RightPar => {
            lemma_pop_to_left_par_resolved(queue, stack, locals.len(), functions);
            let (queued, waiting, _) = pop_to_left_par(queue, stack);
            lemma_finish_resolved(queued, waiting, token.position, locals.len(), functions);
        },
        TokenKind::Semicolon | TokenKind::Comma => {
            lemma_finish_resolved(queue, stack, token.position, locals.len(), functions);
        },
        _ => {},
    }
}

/// The function that `find_function` finds is one of `functions`.
pub proof fn lemma_find_function_from(functions: Seq<FunctionView>, name: Seq<char>, from: int)
    requires
        0 <= from,
    ensures
        find_function_from(functions, name, from) matches Some(index) ==> from <= index
            < functions.len() && functions[index].name == name,
    decreases functions.len() - from,
{
    if from < functions.len() && functions[from].name != name {
        lemma_find_function_from(functions, name, from + 1);
    }
}

/// The rest of an expression is resolved and ends within the tokens, not
/// before `pos`, and behind `pos` if nothing of it was read before.
pub proof fn lemma_operands(
    src: Source,
    pos: int,
    locals: Seq<LocalView>,
    functions: Seq<FunctionView>,
    call_arg: bool,
    queue: Seq<ItemView>,
    stack: Seq<Pending>,
)
    requires
        0 <= pos,
        functions.len() <= usize::MAX,
        queue_resolved(queue, locals.len(), functions),
    ensures
        parse_operands(src, pos, locals, functions, call_arg, queue, stack) matches Ok(
            (e, next),
        ) ==> expression_resolved(e, locals.len(), functions) && pos <= next < src.tokens.len()
            && (queue.len() == 0 && stack.len() == 0 ==> pos < next),
    decreases src.tokens.len() - pos, 2int,
{
    match src.lookahead(pos) {
        None => {},
        Some(token) => {
            if token.kind is Call {
                lemma_call(src, pos, locals, functions);
                match parse_call(src, pos, locals, functions) {
                    Err(_) => {},
                    Ok((call, next)) => {
                        let queued = queue.push(ItemView::Operand(call));
                        lemma_operands(
                            src,
                            src.resume(pos, next),
                            locals,
                            functions,
                            call_arg,
                            queued,
                            stack,
                        );
                    },
                }
            } else {
                lemma_step_resolved(
                    token,
                    src.current(pos),
                    locals,
                    call_arg,
                    queue,
                    stack,
                    functions,
                );
                if queue.len() == 0 && stack.len() == 0 {
                    assert(queue =~= Seq::empty());
                    assert(stack =~= Seq::empty());
                    lemma_nothing_to_finish(token, src.current(pos), locals, call_arg);
                }
                match operand_step(token, src.current(pos), locals, call_arg, queue, stack) {
                    Step::Continue(queued, waiting) => {
                        lemma_operands(
                            src,
                            pos + 1,
                            locals,
                            functions,
                            call_arg,
                            queued,
                            waiting,
                        );
                    },
                    _ => {},
                }
            }
        },
    }
}

/// An expression is resolved and ends behind its beginning, before the end
/// of the tokens.
pub proof fn lemma_expression(
    src: Source,
    pos: int,
    locals: Seq<LocalView>,
    functions: Seq<FunctionView>,
    call_arg: bool,
)
    requires
        0 <= pos,
        functions.len() <= usize::MAX,
    ensures
        parse_expression(src, pos, locals, functions, call_arg) matches Ok((e, next))
            ==> expression_resolved(e, locals.len(), functions) && pos < next < src.tokens.len(),
    decreases src.tokens.len() - pos, 3int,
{
    lemma_operands(src, pos, locals, functions, call_arg, Seq::empty(), Seq::empty());
}

/// A call is resolved: its callee is one of `functions` and gets as many
/// arguments as it declares. It ends behind its beginning and within the
/// tokens.
pub proof fn lemma_call(
    src: Source,
    pos: int,
    locals: Seq<LocalView>,
    functions: Seq<FunctionView>,
)
    requires
        0 <= pos,
        functions.len() <= usize::MAX,
    ensures
        parse_call(src, pos, locals, functions) matches Ok((e, next)) ==> expression_resolved(
            e,
            locals.len(),
            functions,
        ) && pos < next <= src.tokens.len(),
    decreases src.tokens.len() - pos, 1int,
{
    match src.expect(pos, TokenKind::Call, crate::parser::SyntaxErrorKind::ExpectedCall) {
        Err(_) => {},
        Ok(_) => match src.lookahead(pos + 1) {
            None => {},
            Some(token) => match token.kind {
                TokenKind::Identifier(name) => {
                    lemma_find_function_from(functions, name, 0);
                    match find_function(functions, name) {
                        None => {},
                        Some(index) => {
                            lemma_call_args(src, pos + 2, locals, functions);
                        },
                    }
                },
                _ => {},
            },
        },
    }
}

/// The arguments of a call are resolved; the list ends behind its
/// beginning and within the tokens.
pub proof fn lemma_call_args(
    src: Source,
    pos: int,
    locals: Seq<LocalView>,
    functions: Seq<FunctionView>,
)
    requires
        0 <= pos,
        functions.len() <= usize::MAX,
    ensures
        parse_call_args(src, pos, locals, functions) matches Ok((arguments, next)) ==> all_resolved(
            arguments,
            locals.len(),
            functions,
        ) && pos < next <= src.tokens.len(),
    decreases src.tokens.len() - pos, 6int,
{
    match src.expect(pos, TokenKind::LeftPar, crate::parser::SyntaxErrorKind::ExpectedLeftPar) {
        Err(_) => {},
        Ok((_, first)) => {
            lemma_call_arg_list(src, first, locals, functions, Seq::empty());
        },
    }
}

/// The arguments that are added to a resolved list are resolved; the list
/// ends within the tokens, not before `pos`.
pub proof fn lemma_call_arg_list(
    src: Source,
    pos: int,
    locals: Seq<LocalView>,
    functions: Seq<FunctionView>,
    arguments: Seq<ExpressionView>,
)
    requires
        0 <= pos,
        functions.len() <= usize::MAX,
        all_resolved(arguments, locals.len(), functions),
    ensures
        parse_call_arg_list(src, pos, locals, functions, arguments) matches Ok((all, next))
            ==> all_resolved(all, locals.len(), functions) && pos <= next < src.tokens.len(),
    decreases src.tokens.len() - pos, 5int,
{
    if src.lookahead(pos) is Some {
        lemma_call_arg(src, pos, locals, functions);
        match parse_call_arg(src, pos, locals, functions) {
            Ok((Some(argument), next)) => {
                lemma_call_arg_list(
                    src,
                    src.resume(pos, next),
                    locals,
                    functions,
                    arguments.push(argument),
                );
            },
            _ => {},
        }
    }
}

/// An argument of a call is resolved and ends behind its beginning, before
/// the end of the tokens; the closing parenthesis stays where it is.
pub proof fn lemma_call_arg(
    src: Source,
    pos: int,
    locals: Seq<LocalView>,
    functions: Seq<FunctionView>,
)
    requires
        0 <= pos,
        functions.len() <= usize::MAX,
    ensures
        match parse_call_arg(src, pos, locals, functions) {
            Ok((Some(e), next)) => expression_resolved(e, locals.len(), functions) && pos < next
                < src.tokens.len(),
            Ok((None, next)) => next == pos && pos < src.tokens.len(),
            Err(_) => true,
        },
    decreases src.tokens.len() - pos, 4int,
{
    match src.lookahead(pos) {
        None => {},
        Some(token) => match token.kind {
            TokenKind::RightPar => {},
            TokenKind::Comma => {
                lemma_expression(src, pos + 1, locals, functions, true);
            },
            _ => {
                lemma_expression(src, pos, locals, functions, true);
            },
        },
    }
}

/// An expression with its semicolon is resolved and ends behind its
/// beginning and within the tokens.
pub proof fn lemma_expression_statement(
    src: Source,
    pos: int,
    locals: Seq<LocalView>,
    functions: Seq<FunctionView>,
)
    requires
        0 <= pos,
        functions.len() <= usize::MAX,
    ensures
        parse_expression_statement(src, pos, locals, functions) matches Ok((e, next))
            ==> expression_resolved(e, locals.len(), functions) && pos < next <= src.tokens.len(),
{
    reveal(parse_expression_statement);
    lemma_expression(src, pos, locals, functions, false);
}

/// The argument list of a declaration keeps the locals in order, and the
/// indices that it adds are indices of locals.
pub proof fn lemma_arg_list(src: Source, pos: int, locals: Seq<LocalView>, arguments: Seq<usize>)
    requires
        0 <= pos,
        quad_slots(locals),
        forall|i: int| 0 <= i < arguments.len() ==> (#[trigger] arguments[i]) < locals.len(),
    ensures
        parse_arg_list(src, pos, locals, arguments) matches Ok(((declared, all), next))
            ==> quad_slots(declared) && locals.len() <= declared.len() && pos <= next
            < src.tokens.len() && forall|i: int|
            0 <= i < all.len() ==> (#[trigger] all[i]) < declared.len(),
    decreases src.tokens.len() - pos,
{
    reveal(parse_declared_arg);
    reveal(parse_arg);
    match parse_declared_arg(src, pos, locals) {
        Ok((Some((declared, index)), next)) => {
            match parse_arg(src, pos) {
                Ok((Some((name, size)), _)) => {
                    lemma_declare_quad(locals, name);
                },
                _ => {},
            }
            lemma_arg_list(src, next, declared, arguments.push(index));
        },
        _ => {},
    }
}

/// The argument list of a declaration gives locals in order and arguments
/// among them, and ends behind its beginning and within the tokens.
pub proof fn lemma_args(src: Source, pos: int)
    requires
        0 <= pos,
    ensures
        parse_args(src, pos, Seq::empty()) matches Ok(((declared, arguments), next))
            ==> quad_slots(declared) && pos < next <= src.tokens.len() && forall|i: int|
            0 <= i < arguments.len() ==> (#[trigger] arguments[i]) < declared.len(),
{
    reveal(parse_args);
    lemma_arg_list(src, pos + 1, Seq::empty(), Seq::empty());
}

/// A statement is resolved against the locals that the function has after
/// it, which are in order and no fewer than before; it ends behind its
/// beginning and within the tokens. The closing brace stays where it is.
pub proof fn lemma_statement(
    src: Source,
    pos: int,
    locals: Seq<LocalView>,
    functions: Seq<FunctionView>,
)
    requires
        0 <= pos,
        functions.len() <= usize::MAX,
        quad_slots(locals),
    ensures
        match parse_statement(src, pos, locals, functions) {
            Ok((Some((statement, declared)), next)) => statement_resolved(
                statement,
                declared.len(),
                functions,
            ) && quad_slots(declared) && locals.len() <= declared.len() && pos < next
                <= src.tokens.len(),
            Ok((None, next)) => next == pos && pos < src.tokens.len(),
            Err(_) => true,
        },
{
    reveal(parse_statement);
    reveal(parse_var_declaration);
    reveal(parse_assign);
    match src.lookahead(pos) {
        None => {},
        Some(token) => match token.kind {
            TokenKind::Return => {
                lemma_expression_statement(src, pos + 1, locals, functions);
            },
            TokenKind::Var => {
                match src.lookahead(pos + 1) {
                    Some(named) => match named.kind {
                        TokenKind::Identifier(name) => {
                            lemma_find_local_from(locals, name, 0);
                            if footprint(locals) + LOCAL_SIZE <= usize::MAX {
                                lemma_declare_quad(locals, name);
                                let (declared, index) = declare_local(locals, name, LOCAL_SIZE);
                                lemma_expression_statement(src, pos + 3, declared, functions);
                            }
                        },
                        _ => {},
                    },
                    None => {},
                }
            },
            TokenKind::Identifier(name) => {
                lemma_find_local_from(locals, name, 0);
                lemma_expression_statement(src, pos + 2, locals, functions);
            },
            TokenKind::Call => {
                lemma_call(src, pos, locals, functions);
            },
            _ => {},
        },
    }
}

/// The statements that are added to a resolved body are resolved against
/// the locals that the function has in the end.
pub proof fn lemma_statements(
    src: Source,
    pos: int,
    locals: Seq<LocalView>,
    functions: Seq<FunctionView>,
    statements: Seq<StatementView>,
)
    requires
        0 <= pos,
        functions.len() <= usize::MAX,
        quad_slots(locals),
        body_resolved(statements, locals.len(), functions),
    ensures
        parse_statements(src, pos, locals, functions, statements) matches Ok(
            ((body, declared), next),
        ) ==> body_resolved(body, declared.len(), functions) && quad_slots(declared)
            && locals.len() <= declared.len() && pos <= next < src.tokens.len(),
    decreases src.tokens.len() - pos,
{
    lemma_statement(src, pos, locals, functions);
    match parse_statement(src, pos, locals, functions) {
        Ok((Some((statement, declared)), next)) => {
            lemma_body_stays_resolved(statements, locals.len(), declared.len(), functions);
            lemma_statements(src, src.resume(pos, next), declared, functions, statements.push(statement));
        },
        _ => {},
    }
}

/// A function body is resolved against the locals that the function has in
/// the end, and ends behind its beginning and within the tokens.
pub proof fn lemma_scope(
    src: Source,
    pos: int,
    locals: Seq<LocalView>,
    functions: Seq<FunctionView>,
)
    requires
        0 <= pos,
        functions.len() <= usize::MAX,
        quad_slots(locals),
    ensures
        parse_scope(src, pos, locals, functions) matches Ok(((body, declared), next))
            ==> body_resolved(body, declared.len(), functions) && quad_slots(declared)
            && locals.len() <= declared.len() && pos < next <= src.tokens.len(),
{
    reveal(parse_scope);
    lemma_statements(src, pos + 1, locals, functions, Seq::empty());
}

/// A function that the parser accepts is resolved against the functions
/// that were declared before it, and ends behind its beginning and within
/// the tokens.
pub proof fn lemma_function(src: Source, pos: int, functions: Seq<FunctionView>)
    requires
        0 <= pos,
        functions.len() <= usize::MAX,
    ensures
        parse_function(src, pos, functions) matches Ok((function, next)) ==> function_resolved(
            function,
            functions,
        ) && pos < next <= src.tokens.len(),
{
    reveal(parse_function);
    lemma_args(src, pos + 3);
    match parse_args(src, pos + 3, Seq::empty()) {
        Ok(((declared, arguments), brace)) => {
            lemma_scope(src, brace, declared, functions);
        },
        Err(_) => {},
    }
}

/// The functions that are added to a resolved program leave it resolved:
/// each can only call those before it.
pub proof fn lemma_functions(src: Source, pos: int, functions: Seq<FunctionView>)
    requires
        0 <= pos,
        src.tokens.len() <= usize::MAX,
        functions.len() <= pos,
        program_resolved(functions),
    ensures
        parse_functions(src, pos, functions) matches Ok(all) ==> program_resolved(all),
    decreases src.tokens.len() - pos,
{
    match src.lookahead(pos) {
        None => {},
        Some(token) => {
            if token.kind is Function {
                lemma_function(src, pos, functions);
                match parse_function(src, pos, functions) {
                    Ok((function, next)) => {
                        let more = functions.push(function);
                        assert forall|k: int| 0 <= k < more.len() implies function_resolved(
                            #[trigger] more[k],
                            more.take(k),
                        ) by {
                            if k < functions.len() {
                                assert(more.take(k) =~= functions.take(k));
                            } else {
                                assert(more.take(k) =~= functions);
                            }
                        }
                        lemma_functions(src, src.resume(pos, next), more);
                    },
                    Err(_) => {},
                }
            }
        },
    }
}

/// Every program that the parser accepts is resolved: each index of a local
/// names a local of its function, and each call names a function that is
/// declared before its caller and passes as many arguments as that function
/// declares.
pub proof fn lemma_program_resolved(src: Source)
    requires
        src.tokens.len() <= usize::MAX,
    ensures
        parse_program(src) matches Ok(functions) ==> program_resolved(functions),
{
    lemma_functions(src, 0, Seq::empty());
}

/// Where the parser goes on after a nested construct is where that
/// construct ended: `resume` changes nothing for a call, an argument of a
/// call, a statement or a function.
pub proof fn lemma_resume_is_next(
    src: Source,
    pos: int,
    locals: Seq<LocalView>,
    functions: Seq<FunctionView>,
)
    requires
        0 <= pos,
        functions.len() <= usize::MAX,
        quad_slots(locals),
    ensures
        parse_call(src, pos, locals, functions) matches Ok((_, next)) ==> src.resume(pos, next)
            == next,
        parse_call_arg(src, pos, locals, functions) matches Ok((Some(_), next)) ==> src.resume(
            pos,
            next,
        ) == next,
        parse_statement(src, pos, locals, functions) matches Ok((Some(_), next)) ==> src.resume(
            pos,
            next,
        ) == next,
        parse_function(src, pos, functions) matches Ok((_, next)) ==> src.resume(pos, next)
            == next,
{
    lemma_call(src, pos, locals, functions);
    lemma_call_arg(src, pos, locals, functions);
    lemma_statement(src, pos, locals, functions);
    lemma_function(src, pos, functions);
}

/// In a table of quad words in order, the slot at index `i` begins at
/// `8 * i`, and the table takes 8 bytes for each local.
pub proof fn lemma_quad_offsets(locals: Seq<LocalView>, i: int)
    requires
        quad_slots(locals),
        0 <= i < locals.len(),
    ensures
        locals[i].offset == 8 * i,
        footprint(locals) == 8 * locals.len(),
    decreases locals.len(),
{
    let before = locals.drop_last();
    if before.len() > 0 {
        assert(forall|j: int| 0 <= j < before.len() ==> before[j] == locals[j]);
        lemma_quad_offsets(before, before.len() - 1);
        if i < before.len() {
            lemma_quad_offsets(before, i);
        }
    }
}

/// The tokens of `a first b second c ;`, where `a`, `b` and `c` are
/// numbers and `first` and `second` are operators.
pub open spec fn two_operators(
    a: u64,
    first: BinaryOperator,
    b: u64,
    second: BinaryOperator,
    c: u64,
    at: Position,
) -> Seq<TokenView> {
    seq![
        TokenView { kind: TokenKind::NumberLiteral(a), position: at },
        TokenView { kind: TokenKind::BinaryOperation(first), position: at },
        TokenView { kind: TokenKind::NumberLiteral(b), position: at },
        TokenView { kind: TokenKind::BinaryOperation(second), position: at },
        TokenView { kind: TokenKind::NumberLiteral(c), position: at },
        TokenView { kind: TokenKind::Semicolon, position: at },
    ]
}

/// Precedence decides how two operators group: in `a first b second c` the
/// operator that binds tighter is applied first; if `first` binds strictly
/// tighter, the expression is `(a first b) second c`, and else, also where
/// both bind alike, it is `a first (b second c)`.
pub proof fn lemma_precedence(
    a: u64,
    first: BinaryOperator,
    b: u64,
    second: BinaryOperator,
    c: u64,
    at: Position,
    end: Position,
    locals: Seq<LocalView>,
    functions: Seq<FunctionView>,
)
    ensures
        parse_expression(
            Source { tokens: two_operators(a, first, b, second, c, at), end },
            0,
            locals,
            functions,
            false,
        ) == Ok::<(ExpressionView, int), crate::parser::grammar::Failure>(
            (
                if first.precedence() > second.precedence() {
                    ExpressionView::Binary(
                        second,
                        Box::new(
                            ExpressionView::Binary(
                                first,
                                Box::new(ExpressionView::NumberLiteral(a)),
                                Box::new(ExpressionView::NumberLiteral(b)),
                            ),
                        ),
                        Box::new(ExpressionView::NumberLiteral(c)),
                    )
                } else {
                    ExpressionView::Binary(
                        first,
                        Box::new(ExpressionView::NumberLiteral(a)),
                        Box::new(
                            ExpressionView::Binary(
                                second,
                                Box::new(ExpressionView::NumberLiteral(b)),
                                Box::new(ExpressionView::NumberLiteral(c)),
                            ),
                        ),
                    )
                },
                5,
            ),
        ),
{
    reveal(operand_step);
    let src = Source { tokens: two_operators(a, first, b, second, c, at), end };
    let na = ItemView::Operand(ExpressionView::NumberLiteral(a));
    let nb = ItemView::Operand(ExpressionView::NumberLiteral(b));
    let nc = ItemView::Operand(ExpressionView::NumberLiteral(c));
    let one = ItemView::Operator(first, at);
    let two = ItemView::Operator(second, at);
    let idle = Seq::<Pending>::empty();
    let none = Seq::<ItemView>::empty();
    let goal = parse_expression(src, 0, locals, functions, false);
    assert(none.push(na) =~= seq![na]);
    assert(goal == parse_operands(src, 1, locals, functions, false, seq![na], idle));
    assert(pop_tighter(seq![na], idle, first.precedence()) == (seq![na], idle));
    assert(idle.push(Pending::Operator(first, at)) =~= seq![Pending::Operator(first, at)]);
    assert(goal == parse_operands(
        src,
        2,
        locals,
        functions,
        false,
        seq![na],
        seq![Pending::Operator(first, at)],
    ));
    assert(seq![na].push(nb) =~= seq![na, nb]);
    assert(goal == parse_operands(
        src,
        3,
        locals,
        functions,
        false,
        seq![na, nb],
        seq![Pending::Operator(first, at)],
    ));
    let waiting = seq![Pending::Operator(first, at)];
    assert(waiting.last() == Pending::Operator(first, at));
    assert(waiting.drop_last() =~= idle);
    if first.precedence() > second.precedence() {
        assert(seq![na, nb].push(one) =~= seq![na, nb, one]);
        assert(pop_tighter(seq![na, nb, one], idle, second.precedence()) == (
            seq![na, nb, one],
            idle,
        ));
        assert(pop_tighter(seq![na, nb], waiting, second.precedence()) == (
            seq![na, nb, one],
            idle,
        ));
        let pending = seq![Pending::Operator(second, at)];
        assert(idle.push(Pending::Operator(second, at)) =~= pending);
        assert(goal == parse_operands(src, 4, locals, functions, false, seq![na, nb, one], pending));
        assert(seq![na, nb, one].push(nc) =~= seq![na, nb, one, nc]);
        assert(goal == parse_operands(
            src,
            5,
            locals,
            functions,
            false,
            seq![na, nb, one, nc],
            pending,
        ));
        let postfix = seq![na, nb, one, nc, two];
        assert(pending.last() == Pending::Operator(second, at));
        assert(pending.drop_last() =~= idle);
        assert(seq![na, nb, one, nc].push(two) =~= postfix);
        assert(drain(postfix, idle) == Ok::<Seq<ItemView>, crate::parser::grammar::Failure>(
            postfix,
        ));
        assert(drain(seq![na, nb, one, nc], pending) == Ok::<
            Seq<ItemView>,
            crate::parser::grammar::Failure,
        >(postfix));
        lemma_reduce_two(postfix, a, b, c, first, second, at, true);
    } else {
        assert(pop_tighter(seq![na, nb], waiting, second.precedence()) == (seq![na, nb], waiting));
        let pending = seq![Pending::Operator(first, at), Pending::Operator(second, at)];
        assert(waiting.push(Pending::Operator(second, at)) =~= pending);
        assert(goal == parse_operands(src, 4, locals, functions, false, seq![na, nb], pending));
        assert(seq![na, nb].push(nc) =~= seq![na, nb, nc]);
        assert(goal == parse_operands(src, 5, locals, functions, false, seq![na, nb, nc], pending));
        let postfix = seq![na, nb, nc, two, one];
        assert(pending.last() == Pending::Operator(second, at));
        assert(pending.drop_last() =~= waiting);
        assert(seq![na, nb, nc].push(two) =~= seq![na, nb, nc, two]);
        assert(seq![na, nb, nc, two].push(one) =~= postfix);
        assert(drain(postfix, idle) == Ok::<Seq<ItemView>, crate::parser::grammar::Failure>(
            postfix,
        ));
        assert(drain(seq![na, nb, nc, two], waiting) == Ok::<
            Seq<ItemView>,
            crate::parser::grammar::Failure,
        >(postfix));
        assert(drain(seq![na, nb, nc], pending) == Ok::<
            Seq<ItemView>,
            crate::parser::grammar::Failure,
        >(postfix));
        lemma_reduce_two(postfix, a, b, c, first, second, at, false);
    }
}

/// The postfix forms of two operators on three numbers evaluate to the
/// trees that they stand for.
proof fn lemma_reduce_two(
    postfix: Seq<ItemView>,
    a: u64,
    b: u64,
    c: u64,
    first: BinaryOperator,
    second: BinaryOperator,
    at: Position,
    left: bool,
)
    requires
        postfix == if left {
            seq![
                ItemView::Operand(ExpressionView::NumberLiteral(a)),
                ItemView::Operand(ExpressionView::NumberLiteral(b)),
                ItemView::Operator(first, at),
                ItemView::Operand(ExpressionView::NumberLiteral(c)),
                ItemView::Operator(second, at),
            ]
        } else {
            seq![
                ItemView::Operand(ExpressionView::NumberLiteral(a)),
                ItemView::Operand(ExpressionView::NumberLiteral(b)),
                ItemView::Operand(ExpressionView::NumberLiteral(c)),
                ItemView::Operator(second, at),
                ItemView::Operator(first, at),
            ]
        },
    ensures
        reduce(postfix, Seq::empty()) == Ok::<Seq<ExpressionView>, crate::parser::grammar::Failure>(
            seq![
                if left {
                    ExpressionView::Binary(
                        second,
                        Box::new(
                            ExpressionView::Binary(
                                first,
                                Box::new(ExpressionView::NumberLiteral(a)),
                                Box::new(ExpressionView::NumberLiteral(b)),
                            ),
                        ),
                        Box::new(ExpressionView::NumberLiteral(c)),
                    )
                } else {
                    ExpressionView::Binary(
                        first,
                        Box::new(ExpressionView::NumberLiteral(a)),
                        Box::new(
                            ExpressionView::Binary(
                                second,
                                Box::new(ExpressionView::NumberLiteral(b)),
                                Box::new(ExpressionView::NumberLiteral(c)),
                            ),
                        ),
                    )
                },
            ],
        ),
{
    let ea = ExpressionView::NumberLiteral(a);
    let eb = ExpressionView::NumberLiteral(b);
    let ec = ExpressionView::NumberLiteral(c);
    let none = Seq::<ExpressionView>::empty();
    let q1 = postfix.drop_first();
    let q2 = q1.drop_first();
    let q3 = q2.drop_first();
    let q4 = q3.drop_first();
    let q5 = q4.drop_first();
    assert(q5.len() == 0);
    assert(none.push(ea) =~= seq![ea]);
    assert(seq![ea].push(eb) =~= seq![ea, eb]);
    assert(reduce(postfix, none) == reduce(q1, seq![ea]));
    assert(reduce(q1, seq![ea]) == reduce(q2, seq![ea, eb]));
    if left {
        let ab = ExpressionView::Binary(first, Box::new(ea), Box::new(eb));
        let tree = ExpressionView::Binary(second, Box::new(ab), Box::new(ec));
        assert(seq![ea, eb].take(0).push(ab) =~= seq![ab]);
        assert(reduce(q2, seq![ea, eb]) == reduce(q3, seq![ab]));
        assert(seq![ab].push(ec) =~= seq![ab, ec]);
        assert(reduce(q3, seq![ab]) == reduce(q4, seq![ab, ec]));
        assert(seq![ab, ec].take(0).push(tree) =~= seq![tree]);
        assert(reduce(q4, seq![ab, ec]) == reduce(q5, seq![tree]));
    } else {
        let bc = ExpressionView::Binary(second, Box::new(eb), Box::new(ec));
        let tree = ExpressionView::Binary(first, Box::new(ea), Box::new(bc));
        assert(seq![ea, eb].push(ec) =~= seq![ea, eb, ec]);
        assert(reduce(q2, seq![ea, eb]) == reduce(q3, seq![ea, eb, ec]));
        assert(seq![ea, eb, ec].take(1).push(bc) =~= seq![ea, bc]);
        assert(reduce(q3, seq![ea, eb, ec]) == reduce(q4, seq![ea, bc]));
        assert(seq![ea, bc].take(0).push(tree) =~= seq![tree]);
        assert(reduce(q4, seq![ea, bc]) == reduce(q5, seq![tree]));
    }
}

} // verus!
