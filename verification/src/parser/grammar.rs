//! What the parser computes, stated on the views of tokens and trees: one
//! function per construct of the language, from a list of tokens and an
//! index into it to the construct that stands there and the index behind it.

use vstd::prelude::*;
use crate::lexer::{BinaryOperator, Position, TokenKind, TokenView};
use crate::parser::{
    declare_local, find_local, footprint, Expression, ExpressionView, FunctionView, LocalView,
    StatementView, SyntaxErrorKind,
};

verus! {

/// The mathematical value of a [`SyntaxError`], without the file name.
pub struct Failure {
    pub kind: SyntaxErrorKind,
    pub position: Position,
}

/// What the parser reads: the tokens of a file and the position of the end
/// of the file, at which errors about missing tokens are reported.
pub struct Source {
    pub tokens: Seq<TokenView>,
    pub end: Position,
}

/// What parsing a construct gives: its value and the index of the token
/// behind it, or the error.
pub type Parsed<T> = Result<(T, int), Failure>;

pub open spec fn failure<T>(kind: SyntaxErrorKind, position: Position) -> Parsed<T> {
    Err(Failure { kind, position })
}

impl Source {
    /// The token that is read next at `pos`.
    pub open spec fn lookahead(self, pos: int) -> Option<TokenView> {
        if 0 <= pos < self.tokens.len() {
            Some(self.tokens[pos])
        } else {
            None
        }
    }

    /// The token that was read last before `pos`.
    pub open spec fn current(self, pos: int) -> Option<TokenView> {
        if 1 <= pos <= self.tokens.len() {
            Some(self.tokens[pos - 1])
        } else {
            None
        }
    }

    /// Where parsing goes on after a nested construct that began at `pos`
    /// and ended before `next`. Such a construct always ends behind its
    /// beginning and within the input, so this is `next`; it is written out
    /// so that the definitions below are seen to end.
    pub open spec fn resume(self, pos: int, next: int) -> int {
        if pos < next <= self.tokens.len() {
            next
        } else {
            self.tokens.len() as int
        }
    }

    /// The token at `pos` must be of `kind`; else `error` is reported at the
    /// token that stands there, or at the end of the file.
    pub open spec fn expect(self, pos: int, kind: TokenKind, error: SyntaxErrorKind) -> Parsed<()> {
        match self.lookahead(pos) {
            Some(token) => if token.kind == kind {
                Ok(((), pos + 1))
            } else {
                failure(error, token.position)
            },
            None => failure(error, self.end),
        }
    }
}

/// Every local takes one quad word.
pub const LOCAL_SIZE: usize = 8;

/// One name of a parenthesized list of argument names at `pos`, with the
/// comma behind it and the size of its slot, or `None` at the closing
/// parenthesis. A parenthesis
/// right after a comma is an error at the comma.
#[verifier::opaque]
pub open spec fn parse_arg(src: Source, pos: int) -> Parsed<Option<(Seq<char>, usize)>> {
    match src.lookahead(pos) {
        None => failure(SyntaxErrorKind::ExpectedRightPar, src.end),
        Some(token) => match token.kind {
            TokenKind::Identifier(name) => match src.lookahead(pos + 1) {
                None => failure(SyntaxErrorKind::ExpectedRightPar, src.end),
                Some(after) => match after.kind {
                    TokenKind::Comma => Ok((Some((name, LOCAL_SIZE)), pos + 2)),
                    TokenKind::RightPar => Ok((Some((name, LOCAL_SIZE)), pos + 1)),
                    TokenKind::Identifier(_) => failure(
                        SyntaxErrorKind::MissingComma,
                        after.position,
                    ),
                    _ => failure(SyntaxErrorKind::UnexpectedToken, after.position),
                },
            },
            TokenKind::RightPar => match src.current(pos) {
                Some(before) => if before.kind is Identifier || before.kind is LeftPar {
                    Ok((None, pos))
                } else {
                    failure(SyntaxErrorKind::UnexpectedToken, before.position)
                },
                None => failure(SyntaxErrorKind::UnexpectedToken, token.position),
            },
            _ => failure(SyntaxErrorKind::ExpectedRightPar, token.position),
        },
    }
}

/// One name of an argument list at `pos`, declared in `locals`: the table
/// after it and the index of the name, or `None` at the closing
/// parenthesis.
#[verifier::opaque]
pub open spec fn parse_declared_arg(src: Source, pos: int, locals: Seq<LocalView>) -> Parsed<
    Option<(Seq<LocalView>, usize)>,
> {
    match parse_arg(src, pos) {
        Err(e) => Err(e),
        Ok((None, next)) => Ok((None, next)),
        Ok((Some((name, size)), next)) => if footprint(locals) + size > usize::MAX {
            failure(SyntaxErrorKind::TooManyLocals, src.tokens[pos].position)
        } else {
            let (declared, index) = declare_local(locals, name, size);
            Ok((Some((declared, index as usize)), next))
        },
    }
}

/// The names of an argument list from `pos` to its closing parenthesis,
/// each declared in `locals` and its index added to `arguments`.
pub open spec fn parse_arg_list(
    src: Source,
    pos: int,
    locals: Seq<LocalView>,
    arguments: Seq<usize>,
) -> Parsed<(Seq<LocalView>, Seq<usize>)>
    decreases src.tokens.len() - pos,
{
    proof {
        reveal(parse_declared_arg);
        reveal(parse_arg);
    }
    match parse_declared_arg(src, pos, locals) {
        Err(e) => Err(e),
        Ok((None, next)) => Ok(((locals, arguments), next)),
        Ok((Some((declared, index)), next)) => parse_arg_list(
            src,
            next,
            declared,
            arguments.push(index),
        ),
    }
}

/// The argument list of a declaration at `pos`: `(`, names with commas
/// between them, `)`.
#[verifier::opaque]
pub open spec fn parse_args(src: Source, pos: int, locals: Seq<LocalView>) -> Parsed<
    (Seq<LocalView>, Seq<usize>),
> {
    match src.expect(pos, TokenKind::LeftPar, SyntaxErrorKind::ExpectedLeftPar) {
        Err(e) => Err(e),
        Ok((_, first)) => match parse_arg_list(src, first, locals, Seq::empty()) {
            Err(e) => Err(e),
            Ok((declared, close)) => match src.expect(
                close,
                TokenKind::RightPar,
                SyntaxErrorKind::ExpectedRightPar,
            ) {
                Err(e) => Err(e),
                Ok((_, next)) => Ok((declared, next)),
            },
        },
    }
}

/// The index of the first function at or after `from` that is called
/// `name`.
pub open spec fn find_function_from(functions: Seq<FunctionView>, name: Seq<char>, from: int) -> Option<
    int,
>
    decreases functions.len() - from,
{
    if from < 0 || from >= functions.len() {
        None
    } else if functions[from].name == name {
        Some(from)
    } else {
        find_function_from(functions, name, from + 1)
    }
}

/// The index of the first function that is called `name`.
pub open spec fn find_function(functions: Seq<FunctionView>, name: Seq<char>) -> Option<int> {
    find_function_from(functions, name, 0)
}

/// An operator or an opening parenthesis that waits on the operator stack,
/// with the position of its token.
#[derive(Debug, Clone, Copy, PartialEq, Eq, Structural)]
pub enum Pending {
    Operator(BinaryOperator, Position),
    LeftPar(Position),
}

/// An entry of the operand queue: an operand, or an operator that applies
/// to the two operands before it.
#[derive(Debug)]
pub enum Item {
    Operand(Expression),
    Operator(BinaryOperator, Position),
}

/// The mathematical value of an [`Item`].
pub enum ItemView {
    Operand(ExpressionView),
    Operator(BinaryOperator, Position),
}

impl DeepView for Item {
    type V = ItemView;

    open spec fn deep_view(&self) -> ItemView {
        match self {
            Item::Operand(e) => ItemView::Operand(e@),
            Item::Operator(op, position) => ItemView::Operator(*op, *position),
        }
    }
}

impl View for Item {
    type V = ItemView;

    open spec fn view(&self) -> ItemView {
        self.deep_view()
    }
}

/// Moves to the queue every operator on top of the stack that binds
/// strictly tighter than `precedence`; an operator that binds as tightly
/// stays, so operators of one precedence group to the right.
pub open spec fn pop_tighter(queue: Seq<ItemView>, stack: Seq<Pending>, precedence: nat) -> (
    Seq<ItemView>,
    Seq<Pending>,
)
    decreases stack.len(),
{
    if stack.len() == 0 {
        (queue, stack)
    } else {
        match stack.last() {
            Pending::Operator(op, position) => if op.precedence() > precedence {
                pop_tighter(
                    queue.push(ItemView::Operator(op, position)),
                    stack.drop_last(),
                    precedence,
                )
            } else {
                (queue, stack)
            },
            Pending::LeftPar(_) => (queue, stack),
        }
    }
}

/// Moves operators from the stack to the queue down to the nearest opening
/// parenthesis, which is dropped; says whether there was one.
pub open spec fn pop_to_left_par(queue: Seq<ItemView>, stack: Seq<Pending>) -> (
    Seq<ItemView>,
    Seq<Pending>,
    bool,
)
    decreases stack.len(),
{
    if stack.len() == 0 {
        (queue, stack, false)
    } else {
        match stack.last() {
            Pending::Operator(op, position) => pop_to_left_par(
                queue.push(ItemView::Operator(op, position)),
                stack.drop_last(),
            ),
            Pending::LeftPar(_) => (queue, stack.drop_last(), true),
        }
    }
}

/// Moves what is left on the stack to the queue; a parenthesis that was
/// never closed is an error.
pub open spec fn drain(queue: Seq<ItemView>, stack: Seq<Pending>) -> Result<Seq<ItemView>, Failure>
    decreases stack.len(),
{
    if stack.len() == 0 {
        Ok(queue)
    } else {
        match stack.last() {
            Pending::Operator(op, position) => drain(
                queue.push(ItemView::Operator(op, position)),
                stack.drop_last(),
            ),
            Pending::LeftPar(position) => Err(
                Failure { kind: SyntaxErrorKind::UnmatchedParenthesis, position },
            ),
        }
    }
}

/// Evaluates the queue in postfix order on the stack `operands`: an operand
/// is pushed, an operator replaces the two operands on top (the upper one
/// is its right side) by their combination.
pub open spec fn reduce(queue: Seq<ItemView>, operands: Seq<ExpressionView>) -> Result<
    Seq<ExpressionView>,
    Failure,
>
    decreases queue.len(),
{
    if queue.len() == 0 {
        Ok(operands)
    } else {
        match queue.first() {
            ItemView::Operand(e) => reduce(queue.drop_first(), operands.push(e)),
            ItemView::Operator(op, position) => if operands.len() < 2 {
                Err(Failure { kind: SyntaxErrorKind::MissingOperand, position })
            } else {
                reduce(
                    queue.drop_first(),
                    operands.take(operands.len() - 2).push(
                        ExpressionView::Binary(
                            op,
                            Box::new(operands[operands.len() - 2]),
                            Box::new(operands[operands.len() - 1]),
                        ),
                    ),
                )
            },
        }
    }
}

/// The expression that queue and stack stand for when the token at
/// `terminator` ends it.
pub open spec fn finish(queue: Seq<ItemView>, stack: Seq<Pending>, terminator: Position) -> Result<
    ExpressionView,
    Failure,
> {
    match drain(queue, stack) {
        Err(e) => Err(e),
        Ok(postfix) => match reduce(postfix, Seq::empty()) {
            Err(e) => Err(e),
            Ok(operands) => if operands.len() == 0 {
                Err(Failure { kind: SyntaxErrorKind::ExpectedExpression, position: terminator })
            } else if operands.len() > 1 {
                Err(Failure { kind: SyntaxErrorKind::InvalidExpression, position: terminator })
            } else {
                Ok(operands[0])
            },
        },
    }
}

/// What one token does to an expression that is being read.
pub enum Step {
    /// The token belongs to the expression; queue and stack after it.
    Continue(Seq<ItemView>, Seq<Pending>),
    /// The token ends the expression, which is the value, or is an error.
    Done(Result<ExpressionView, Failure>),
}

/// What `token`, which is no call sign, does to the expression held in
/// `queue` and `stack`; `before` is the token read last. An operand goes to
/// the queue, a name as the index of its local; an operator first moves the
/// operators that bind tighter from the stack to the queue and then waits on
/// the stack; a closing parenthesis moves operators down to its partner. In
/// an argument of a call (`call_arg`) a comma or a closing parenthesis
/// without its partner ends the expression; elsewhere a semicolon does.
#[verifier::opaque]
pub open spec fn operand_step(
    token: TokenView,
    before: Option<TokenView>,
    locals: Seq<LocalView>,
    call_arg: bool,
    queue: Seq<ItemView>,
    stack: Seq<Pending>,
) -> Step {
    let unexpected = Step::Done(
        Err(Failure { kind: SyntaxErrorKind::UnexpectedToken, position: token.position }),
    );
    let invalid = Step::Done(
        Err(Failure { kind: SyntaxErrorKind::InvalidExpression, position: token.position }),
    );
    match token.kind {
        TokenKind::Identifier(name) => if before matches Some(last) && last.kind is Identifier {
            invalid
        } else {
            match find_local(locals, name) {
                None => Step::Done(
                    Err(
                        Failure {
                            kind: SyntaxErrorKind::UndeclaredVariable,
                            position: token.position,
                        },
                    ),
                ),
                Some(index) => Step::Continue(
                    queue.push(ItemView::Operand(ExpressionView::Local(index as usize))),
                    stack,
                ),
            }
        },
        TokenKind::NumberLiteral(n) => if before matches Some(last) && last.kind is NumberLiteral {
            invalid
        } else {
            Step::Continue(queue.push(ItemView::Operand(ExpressionView::NumberLiteral(n))), stack)
        },
        TokenKind::BinaryOperation(op) => if before matches Some(last)
            && last.kind is BinaryOperation {
            invalid
        } else {
            let (queued, waiting) = pop_tighter(queue, stack, op.precedence());
            Step::Continue(queued, waiting.push(Pending::Operator(op, token.position)))
        },
        TokenKind::LeftPar => Step::Continue(queue, stack.push(Pending::LeftPar(token.position))),
        TokenKind::RightPar => {
            let (queued, waiting, found) = pop_to_left_par(queue, stack);
            if found {
                Step::Continue(queued, waiting)
            } else if call_arg {
                Step::Done(finish(queued, waiting, token.position))
            } else {
                Step::Done(
                    Err(
                        Failure {
                            kind: SyntaxErrorKind::UnmatchedParenthesis,
                            position: token.position,
                        },
                    ),
                )
            }
        },
        TokenKind::Semicolon => if call_arg {
            unexpected
        } else {
            Step::Done(finish(queue, stack, token.position))
        },
        TokenKind::Comma => if call_arg {
            Step::Done(finish(queue, stack, token.position))
        } else {
            unexpected
        },
        _ => unexpected,
    }
}

/// A token cannot end an expression that has no operand yet.
pub proof fn lemma_nothing_to_finish(
    token: TokenView,
    before: Option<TokenView>,
    locals: Seq<LocalView>,
    call_arg: bool,
)
    ensures
        !(operand_step(token, before, locals, call_arg, Seq::empty(), Seq::empty()) matches Step::Done(
            Ok(_),
        )),
{
    reveal(operand_step);
    let none = Seq::<ItemView>::empty();
    let idle = Seq::<Pending>::empty();
    assert(drain(none, idle) == Ok::<Seq<ItemView>, Failure>(none));
    assert(reduce(none, Seq::empty()) == Ok::<Seq<ExpressionView>, Failure>(Seq::empty()));
    assert(finish(none, idle, token.position) is Err);
    assert(pop_to_left_par(none, idle) == (none, idle, false));
}

/// The rest of an expression from `pos` on, with the operands and operators
/// read so far in `queue` and `stack`: a call is read whole and is an
/// operand; every other token does what `operand_step` says. The token that
/// ends the expression stays.
pub open spec fn parse_operands(
    src: Source,
    pos: int,
    locals: Seq<LocalView>,
    functions: Seq<FunctionView>,
    call_arg: bool,
    queue: Seq<ItemView>,
    stack: Seq<Pending>,
) -> Parsed<ExpressionView>
    decreases src.tokens.len() - pos, 2int,
{
    match src.lookahead(pos) {
        None => failure(SyntaxErrorKind::ExpectedExpression, src.end),
        Some(token) => if token.kind is Call {
            match parse_call(src, pos, locals, functions) {
                Err(e) => Err(e),
                Ok((call, next)) => parse_operands(
                    src,
                    src.resume(pos, next),
                    locals,
                    functions,
                    call_arg,
                    queue.push(ItemView::Operand(call)),
                    stack,
                ),
            }
        } else {
            match operand_step(token, src.current(pos), locals, call_arg, queue, stack) {
                Step::Continue(queued, waiting) => parse_operands(
                    src,
                    pos + 1,
                    locals,
                    functions,
                    call_arg,
                    queued,
                    waiting,
                ),
                Step::Done(Ok(e)) => Ok((e, pos)),
                Step::Done(Err(e)) => Err(e),
            }
        },
    }
}

/// An expression at `pos`.
pub open spec fn parse_expression(
    src: Source,
    pos: int,
    locals: Seq<LocalView>,
    functions: Seq<FunctionView>,
    call_arg: bool,
) -> Parsed<ExpressionView>
    decreases src.tokens.len() - pos, 3int,
{
    parse_operands(src, pos, locals, functions, call_arg, Seq::empty(), Seq::empty())
}

/// A call at `pos`: `@`, the name of a function among `functions`, and as
/// many arguments as that function declares.
pub open spec fn parse_call(
    src: Source,
    pos: int,
    locals: Seq<LocalView>,
    functions: Seq<FunctionView>,
) -> Parsed<ExpressionView>
    decreases src.tokens.len() - pos, 1int,
{
    match src.expect(pos, TokenKind::Call, SyntaxErrorKind::ExpectedCall) {
        Err(e) => Err(e),
        Ok(_) => match src.lookahead(pos + 1) {
            None => failure(SyntaxErrorKind::ExpectedFunctionName, src.end),
            Some(token) => match token.kind {
                TokenKind::Identifier(name) => match find_function(functions, name) {
                    None => failure(SyntaxErrorKind::UndefinedFunction, token.position),
                    Some(index) => match parse_call_args(src, pos + 2, locals, functions) {
                        Err(e) => Err(e),
                        Ok((arguments, next)) => if arguments.len()
                            != functions[index].arguments.len() {
                            failure(SyntaxErrorKind::ArgumentMismatch, token.position)
                        } else {
                            Ok((ExpressionView::Call(index as usize, arguments), next))
                        },
                    },
                },
                _ => failure(SyntaxErrorKind::ExpectedFunctionName, token.position),
            },
        },
    }
}

/// The arguments of a call at `pos`: `(`, expressions with commas between
/// them, `)`.
pub open spec fn parse_call_args(
    src: Source,
    pos: int,
    locals: Seq<LocalView>,
    functions: Seq<FunctionView>,
) -> Parsed<Seq<ExpressionView>>
    decreases src.tokens.len() - pos, 6int,
{
    match src.expect(pos, TokenKind::LeftPar, SyntaxErrorKind::ExpectedLeftPar) {
        Err(e) => Err(e),
        Ok((_, first)) => match parse_call_arg_list(src, first, locals, functions, Seq::empty()) {
            Err(e) => Err(e),
            Ok((arguments, close)) => match src.expect(
                close,
                TokenKind::RightPar,
                SyntaxErrorKind::ExpectedRightPar,
            ) {
                Err(e) => Err(e),
                Ok((_, next)) => Ok((arguments, next)),
            },
        },
    }
}

/// The arguments of a call from `pos` to the closing parenthesis, added to
/// `arguments`.
pub open spec fn parse_call_arg_list(
    src: Source,
    pos: int,
    locals: Seq<LocalView>,
    functions: Seq<FunctionView>,
    arguments: Seq<ExpressionView>,
) -> Parsed<Seq<ExpressionView>>
    decreases src.tokens.len() - pos, 5int,
{
    if src.lookahead(pos) is None {
        failure(SyntaxErrorKind::ExpectedExpression, src.end)
    } else {
        match parse_call_arg(src, pos, locals, functions) {
            Err(e) => Err(e),
            Ok((None, next)) => Ok((arguments, next)),
            Ok((Some(argument), next)) => parse_call_arg_list(
                src,
                src.resume(pos, next),
                locals,
                functions,
                arguments.push(argument),
            ),
        }
    }
}

/// One argument of a call at `pos`, with the comma before it if there is
/// one, or `None` at the closing parenthesis, which stays. A comma right
/// after the opening parenthesis is an error.
pub open spec fn parse_call_arg(
    src: Source,
    pos: int,
    locals: Seq<LocalView>,
    functions: Seq<FunctionView>,
) -> Parsed<Option<ExpressionView>>
    decreases src.tokens.len() - pos, 4int,
{
    match src.lookahead(pos) {
        None => failure(SyntaxErrorKind::ExpectedExpression, src.end),
        Some(token) => match token.kind {
            TokenKind::RightPar => Ok((None, pos)),
            TokenKind::Comma => if src.current(pos) matches Some(before) && before.kind is LeftPar {
                failure(SyntaxErrorKind::ExpectedExpression, token.position)
            } else {
                match parse_expression(src, pos + 1, locals, functions, true) {
                    Err(e) => Err(e),
                    Ok((argument, next)) => Ok((Some(argument), next)),
                }
            },
            _ => match parse_expression(src, pos, locals, functions, true) {
                Err(e) => Err(e),
                Ok((argument, next)) => Ok((Some(argument), next)),
            },
        },
    }
}

/// An expression at `pos` and the semicolon behind it.
#[verifier::opaque]
pub open spec fn parse_expression_statement(
    src: Source,
    pos: int,
    locals: Seq<LocalView>,
    functions: Seq<FunctionView>,
) -> Parsed<ExpressionView> {
    match parse_expression(src, pos, locals, functions, false) {
        Err(e) => Err(e),
        Ok((value, semicolon)) => match src.expect(
            semicolon,
            TokenKind::Semicolon,
            SyntaxErrorKind::ExpectedSemicolon,
        ) {
            Err(e) => Err(e),
            Ok((_, next)) => Ok((value, next)),
        },
    }
}

/// A declaration `var name = expression;` at `pos`. The name must be new;
/// it is declared before the expression is read, so the expression may
/// mention it.
#[verifier::opaque]
pub open spec fn parse_var_declaration(
    src: Source,
    pos: int,
    locals: Seq<LocalView>,
    functions: Seq<FunctionView>,
) -> Parsed<(StatementView, Seq<LocalView>)> {
    match src.expect(pos, TokenKind::Var, SyntaxErrorKind::ExpectedVar) {
        Err(e) => Err(e),
        Ok(_) => match src.lookahead(pos + 1) {
            None => failure(SyntaxErrorKind::ExpectedIdentifier, src.end),
            Some(token) => match token.kind {
                TokenKind::Identifier(name) => match src.expect(
                    pos + 2,
                    TokenKind::Equals,
                    SyntaxErrorKind::ExpectedEquals,
                ) {
                    Err(e) => Err(e),
                    Ok(_) => if find_local(locals, name) is Some {
                        failure(SyntaxErrorKind::DuplicatedVariable, token.position)
                    } else if footprint(locals) + LOCAL_SIZE > usize::MAX {
                        failure(SyntaxErrorKind::TooManyLocals, token.position)
                    } else {
                        let (declared, index) = declare_local(locals, name, LOCAL_SIZE);
                        match parse_expression_statement(src, pos + 3, declared, functions) {
                            Err(e) => Err(e),
                            Ok((value, next)) => Ok(
                                ((StatementView::Assign(index as usize, value), declared), next),
                            ),
                        }
                    },
                },
                _ => failure(SyntaxErrorKind::ExpectedIdentifier, token.position),
            },
        },
    }
}

/// An assignment `name = expression;` at `pos` to a local that exists.
#[verifier::opaque]
pub open spec fn parse_assign(
    src: Source,
    pos: int,
    locals: Seq<LocalView>,
    functions: Seq<FunctionView>,
) -> Parsed<StatementView> {
    match src.lookahead(pos) {
        None => failure(SyntaxErrorKind::ExpectedIdentifier, src.end),
        Some(token) => match token.kind {
            TokenKind::Identifier(name) => match src.expect(
                pos + 1,
                TokenKind::Equals,
                SyntaxErrorKind::ExpectedEquals,
            ) {
                Err(e) => Err(e),
                Ok(_) => match find_local(locals, name) {
                    None => failure(SyntaxErrorKind::UndeclaredVariable, token.position),
                    Some(index) => match parse_expression_statement(
                        src,
                        pos + 2,
                        locals,
                        functions,
                    ) {
                        Err(e) => Err(e),
                        Ok((value, next)) => Ok(
                            (StatementView::Assign(index as usize, value), next),
                        ),
                    },
                },
            },
            _ => failure(SyntaxErrorKind::ExpectedIdentifier, token.position),
        },
    }
}

/// The statement at `pos` and the locals after it, or `None` at the closing
/// brace, which stays.
#[verifier::opaque]
pub open spec fn parse_statement(
    src: Source,
    pos: int,
    locals: Seq<LocalView>,
    functions: Seq<FunctionView>,
) -> Parsed<Option<(StatementView, Seq<LocalView>)>> {
    match src.lookahead(pos) {
        None => failure(SyntaxErrorKind::ExpectedStatement, src.end),
        Some(token) => match token.kind {
            TokenKind::Return => match parse_expression_statement(
                src,
                pos + 1,
                locals,
                functions,
            ) {
                Err(e) => Err(e),
                Ok((value, next)) => Ok((Some((StatementView::Return(value), locals)), next)),
            },
            TokenKind::Var => match parse_var_declaration(src, pos, locals, functions) {
                Err(e) => Err(e),
                Ok((declaration, next)) => Ok((Some(declaration), next)),
            },
            TokenKind::Identifier(_) => match parse_assign(src, pos, locals, functions) {
                Err(e) => Err(e),
                Ok((statement, next)) => Ok((Some((statement, locals)), next)),
            },
            TokenKind::Call => match parse_call(src, pos, locals, functions) {
                Err(e) => Err(e),
                Ok((call, semicolon)) => match src.expect(
                    semicolon,
                    TokenKind::Semicolon,
                    SyntaxErrorKind::ExpectedSemicolon,
                ) {
                    Err(e) => Err(e),
                    Ok((_, next)) => Ok((Some((StatementView::Call(call), locals)), next)),
                },
            },
            TokenKind::RightBrace => Ok((None, pos)),
            _ => failure(SyntaxErrorKind::UnexpectedToken, token.position),
        },
    }
}

/// The statements from `pos` to the closing brace, added to `statements`.
pub open spec fn parse_statements(
    src: Source,
    pos: int,
    locals: Seq<LocalView>,
    functions: Seq<FunctionView>,
    statements: Seq<StatementView>,
) -> Parsed<(Seq<StatementView>, Seq<LocalView>)>
    decreases src.tokens.len() - pos,
{
    proof {
        reveal(parse_statement);
    }
    match parse_statement(src, pos, locals, functions) {
        Err(e) => Err(e),
        Ok((None, next)) => Ok(((statements, locals), next)),
        Ok((Some((statement, declared)), next)) => parse_statements(
            src,
            src.resume(pos, next),
            declared,
            functions,
            statements.push(statement),
        ),
    }
}

/// A function body at `pos`: `{`, statements, `}`.
#[verifier::opaque]
pub open spec fn parse_scope(
    src: Source,
    pos: int,
    locals: Seq<LocalView>,
    functions: Seq<FunctionView>,
) -> Parsed<(Seq<StatementView>, Seq<LocalView>)> {
    match src.expect(pos, TokenKind::LeftBrace, SyntaxErrorKind::ExpectedLeftBrace) {
        Err(e) => Err(e),
        Ok((_, first)) => match parse_statements(src, first, locals, functions, Seq::empty()) {
            Err(e) => Err(e),
            Ok((body, close)) => match src.expect(
                close,
                TokenKind::RightBrace,
                SyntaxErrorKind::ExpectedRightBrace,
            ) {
                Err(e) => Err(e),
                Ok((_, next)) => Ok((body, next)),
            },
        },
    }
}

/// A function declaration at `pos`: `fn`, a name, `:`, the argument list
/// and the body. Calls in the body can name the functions in `functions`.
#[verifier::opaque]
pub open spec fn parse_function(src: Source, pos: int, functions: Seq<FunctionView>) -> Parsed<
    FunctionView,
> {
    match src.expect(pos, TokenKind::Function, SyntaxErrorKind::ExpectedFunction) {
        Err(e) => Err(e),
        Ok(_) => match src.lookahead(pos + 1) {
            None => failure(SyntaxErrorKind::ExpectedFunctionName, src.end),
            Some(token) => match token.kind {
                TokenKind::Identifier(name) => match src.expect(
                    pos + 2,
                    TokenKind::Colon,
                    SyntaxErrorKind::ExpectedColon,
                ) {
                    Err(e) => Err(e),
                    Ok(_) => match parse_args(src, pos + 3, Seq::empty()) {
                        Err(e) => Err(e),
                        Ok(((declared, arguments), brace)) => match parse_scope(
                            src,
                            brace,
                            declared,
                            functions,
                        ) {
                            Err(e) => Err(e),
                            Ok(((body, locals), next)) => Ok(
                                (FunctionView { name, locals, arguments, body }, next),
                            ),
                        },
                    },
                },
                _ => failure(SyntaxErrorKind::ExpectedFunctionName, token.position),
            },
        },
    }
}

/// The function declarations from `pos` to the end of the tokens, added to
/// `functions`. Each can call those before it and no other.
pub open spec fn parse_functions(src: Source, pos: int, functions: Seq<FunctionView>) -> Result<
    Seq<FunctionView>,
    Failure,
>
    decreases src.tokens.len() - pos,
{
    match src.lookahead(pos) {
        None => Ok(functions),
        Some(token) => if token.kind is Function {
            match parse_function(src, pos, functions) {
                Err(e) => Err(e),
                Ok((function, next)) => parse_functions(
                    src,
                    src.resume(pos, next),
                    functions.push(function),
                ),
            }
        } else {
            Err(Failure { kind: SyntaxErrorKind::UnexpectedToken, position: token.position })
        },
    }
}

/// One of `functions` is called `main`.
pub open spec fn has_main(functions: Seq<FunctionView>) -> bool {
    exists|i: int| 0 <= i < functions.len() && (#[trigger] functions[i]).name == "main"@
}

/// The functions that the tokens of `src` spell from `pos` on, after those
/// in `functions`. There must be at least one function in all, and one
/// called `main`; both errors are reported at the end of the file.
pub open spec fn parse_program_from(src: Source, pos: int, functions: Seq<FunctionView>) -> Result<
    Seq<FunctionView>,
    Failure,
> {
    match parse_functions(src, pos, functions) {
        Err(e) => Err(e),
        Ok(all) => if all.len() == 0 {
            Err(Failure { kind: SyntaxErrorKind::EmptyProgram, position: src.end })
        } else if !has_main(all) {
            Err(Failure { kind: SyntaxErrorKind::MissingMain, position: src.end })
        } else {
            Ok(all)
        },
    }
}

/// The program that the tokens of `src` spell.
pub open spec fn parse_program(src: Source) -> Result<Seq<FunctionView>, Failure> {
    parse_program_from(src, 0, Seq::empty())
}

/// A source that parses to a program has at least one function and one
/// called `main`: every other source is rejected.
pub proof fn lemma_program_has_main(src: Source)
    ensures
        parse_program(src) matches Ok(functions) ==> functions.len() > 0 && has_main(functions),
{
}

} // verus!
