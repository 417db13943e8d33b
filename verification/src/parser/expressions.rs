//! Reading expressions and calls: operands go to a queue, operators wait on
//! a stack, and the queue is evaluated in postfix order at the end.

use std::collections::VecDeque;
use vstd::prelude::*;
use vstd::string::*;
use crate::lexer::{Position, Token, TokenKind, TokenType};
use crate::parser::grammar::{
    drain, find_function, find_function_from, finish, lemma_nothing_to_finish, operand_step,
    parse_call, parse_call_arg, parse_call_arg_list, parse_call_args, parse_expression,
    parse_operands, pop_tighter, pop_to_left_par, reduce, Failure, Item, ItemView, Pending, Step,
};
use crate::parser::{
    lemma_call_view, reports, BinaryExpression, Expression, ExpressionView, LocalStack, Parser,
    SyntaxError, SyntaxErrorKind,
};

verus! {

/// Appending an item to the queue appends its view to the view of the
/// queue.
pub proof fn lemma_queue_push(before: VecDeque<Item>, after: VecDeque<Item>, item: Item)
    requires
        after@ == before@.push(item),
    ensures
        after.deep_view() == before.deep_view().push(item@),
{
    assert(after.deep_view() =~= before.deep_view().push(item@));
}

/// Moves the operators that bind tighter than `precedence` from the stack
/// to the queue.
fn move_tighter(queue: &mut VecDeque<Item>, stack: &mut Vec<Pending>, precedence: u8)
    ensures
        (final(queue).deep_view(), final(stack)@) == pop_tighter(
            old(queue).deep_view(),
            old(stack)@,
            precedence as nat,
        ),
{
    loop
        invariant_except_break
            pop_tighter(queue.deep_view(), stack@, precedence as nat) == pop_tighter(
                old(queue).deep_view(),
                old(stack)@,
                precedence as nat,
            ),
        ensures
            (queue.deep_view(), stack@) == pop_tighter(
                old(queue).deep_view(),
                old(stack)@,
                precedence as nat,
            ),
        decreases stack.len(),
    {
        if stack.len() == 0 {
            break ;
        }
        match stack[stack.len() - 1] {
            Pending::Operator(op, position) => {
                if op.get_precedence() > precedence {
                    let ghost before = *queue;
                    let ghost waiting = stack@;
                    stack.pop();
                    queue.push_back(Item::Operator(op, position));
                    proof {
                        lemma_queue_push(before, *queue, Item::Operator(op, position));
                        assert(stack@ =~= waiting.drop_last());
                    }
                } else {
                    break ;
                }
            },
            Pending::LeftPar(_) => {
                break ;
            },
        }
    }
}

/// Moves operators from the stack to the queue down to the nearest opening
/// parenthesis and drops that; says whether there was one.
fn move_to_left_par(queue: &mut VecDeque<Item>, stack: &mut Vec<Pending>) -> (found: bool)
    ensures
        (final(queue).deep_view(), final(stack)@, found) == pop_to_left_par(
            old(queue).deep_view(),
            old(stack)@,
        ),
{
    loop
        invariant
            pop_to_left_par(queue.deep_view(), stack@) == pop_to_left_par(
                old(queue).deep_view(),
                old(stack)@,
            ),
        decreases stack.len(),
    {
        let ghost before = *queue;
        let ghost waiting = stack@;
        match stack.pop() {
            None => {
                return false;
            },
            Some(Pending::LeftPar(_)) => {
                proof {
                    assert(stack@ =~= waiting.drop_last());
                }
                return true;
            },
            Some(Pending::Operator(op, position)) => {
                queue.push_back(Item::Operator(op, position));
                proof {
                    lemma_queue_push(before, *queue, Item::Operator(op, position));
                    assert(stack@ =~= waiting.drop_last());
                }
            },
        }
    }
}

impl Parser {
    /// The index of the first function parsed so far that is called `name`.
    pub(super) fn find_function(&self, name: &String) -> (found: Option<usize>)
        ensures
            match find_function(self.declared(), name@) {
                Some(index) => found == Some(index as usize) && 0 <= index < self.functions.len(),
                None => found is None,
            },
    {
        let mut i: usize = 0;
        while i < self.functions.len()
            invariant
                i <= self.functions.len(),
                find_function(self.declared(), name@) == find_function_from(
                    self.declared(),
                    name@,
                    i as int,
                ),
            decreases self.functions.len() - i,
        {
            if self.functions[i].name == *name {
                return Some(i);
            }
            i += 1;
        }
        None
    }

    /// Moves what is left on the operator stack to the queue.
    pub(super) fn drain(&self, queue: &mut VecDeque<Item>, stack: &mut Vec<Pending>) -> (r: Result<
        (),
        SyntaxError,
    >)
        ensures
            match drain(old(queue).deep_view(), old(stack)@) {
                Ok(postfix) => r is Ok && final(queue).deep_view() == postfix,
                Err(failure) => r is Err && reports(r->Err_0, failure, self.file()),
            },
    {
        loop
            invariant
                drain(queue.deep_view(), stack@) == drain(old(queue).deep_view(), old(stack)@),
            decreases stack.len(),
        {
            let ghost before = *queue;
            let ghost waiting = stack@;
            match stack.pop() {
                None => {
                    return Ok(());
                },
                Some(Pending::LeftPar(position)) => {
                    return Err(self.error(SyntaxErrorKind::UnmatchedParenthesis, position));
                },
                Some(Pending::Operator(op, position)) => {
                    queue.push_back(Item::Operator(op, position));
                    proof {
                        lemma_queue_push(before, *queue, Item::Operator(op, position));
                        assert(stack@ =~= waiting.drop_last());
                    }
                },
            }
        }
    }

    /// Evaluates the queue in postfix order and returns the operands that
    /// are left.
    pub(super) fn reduce(&self, queue: &mut VecDeque<Item>) -> (r: Result<Vec<Expression>, SyntaxError>)
        ensures
            match reduce(old(queue).deep_view(), Seq::empty()) {
                Ok(operands) => r is Ok && r->Ok_0.deep_view() == operands,
                Err(failure) => r is Err && reports(r->Err_0, failure, self.file()),
            },
    {
        let mut operands: Vec<Expression> = Vec::new();
        assert(operands.deep_view() =~= Seq::<ExpressionView>::empty());
        loop
            invariant
                reduce(queue.deep_view(), operands.deep_view()) == reduce(
                    old(queue).deep_view(),
                    Seq::empty(),
                ),
            decreases queue.len(),
        {
            let ghost items = queue.deep_view();
            let ghost stacked = operands.deep_view();
            match queue.pop_front() {
                None => {
                    return Ok(operands);
                },
                Some(Item::Operand(e)) => {
                    operands.push(e);
                    proof {
                        assert(queue.deep_view() =~= items.drop_first());
                        assert(operands.deep_view() =~= stacked.push(e@));
                    }
                },
                Some(Item::Operator(op, position)) => {
                    proof {
                        assert(queue.deep_view() =~= items.drop_first());
                    }
                    if operands.len() < 2 {
                        return Err(self.error(SyntaxErrorKind::MissingOperand, position));
                    }
                    let right = operands.pop().unwrap();
                    let left = operands.pop().unwrap();
                    let combined = Expression::Binary(
                        BinaryExpression {
                            operator: op,
                            left: Box::new(left),
                            right: Box::new(right),
                        },
                    );
                    operands.push(combined);
                    proof {
                        assert(left@ == stacked[stacked.len() - 2]);
                        assert(right@ == stacked[stacked.len() - 1]);
                        assert(combined@ == ExpressionView::Binary(
                            op,
                            Box::new(left@),
                            Box::new(right@),
                        ));
                        assert(operands.deep_view() =~= stacked.take(stacked.len() - 2).push(
                            combined@,
                        ));
                    }
                },
            }
        }
    }

    /// Builds the expression that queue and stack stand for when the token
    /// at `terminator` ends it.
    pub(super) fn finish(
        &self,
        queue: &mut VecDeque<Item>,
        stack: &mut Vec<Pending>,
        terminator: Position,
    ) -> (r: Result<Expression, SyntaxError>)
        ensures
            match finish(old(queue).deep_view(), old(stack)@, terminator) {
                Ok(e) => r is Ok && r->Ok_0@ == e,
                Err(failure) => r is Err && reports(r->Err_0, failure, self.file()),
            },
    {
        self.drain(queue, stack)?;
        let mut operands = self.reduce(queue)?;
        if operands.len() == 0 {
            Err(self.error(SyntaxErrorKind::ExpectedExpression, terminator))
        } else if operands.len() > 1 {
            Err(self.error(SyntaxErrorKind::InvalidExpression, terminator))
        } else {
            Ok(operands.pop().unwrap())
        }
    }

    /// Whether the token read last and `token` are two names, two numbers
    /// or two operators.
    pub(super) fn repeats(&self, token: &Token) -> (r: bool)
        requires
            self.wf(),
        ensures
            r == match self.source().current(self.cursor()) {
                Some(last) => (last.kind is Identifier && token@.kind is Identifier) || (
                last.kind is NumberLiteral && token@.kind is NumberLiteral) || (
                last.kind is BinaryOperation && token@.kind is BinaryOperation),
                None => false,
            },
    {
        match self.current() {
            Some(last) => match (&last.token_type, &token.token_type) {
                (TokenType::Identifier(_), TokenType::Identifier(_)) => true,
                (TokenType::NumberLiteral(_), TokenType::NumberLiteral(_)) => true,
                (TokenType::BinaryOperation(_), TokenType::BinaryOperation(_)) => true,
                _ => false,
            },
            None => false,
        }
    }

    /// Takes `token`, which is no call sign, into the expression held in
    /// `queue` and `stack`. `Ok(None)` says that the expression goes on
    /// behind the token.
    pub(super) fn step(
        &self,
        token: &Token,
        locals: &LocalStack,
        call_arg: bool,
        queue: &mut VecDeque<Item>,
        stack: &mut Vec<Pending>,
    ) -> (r: Result<Option<Expression>, SyntaxError>)
        requires
            self.wf(),
            !(token@.kind is Call),
        ensures
            match operand_step(
                token@,
                self.source().current(self.cursor()),
                locals@,
                call_arg,
                old(queue).deep_view(),
                old(stack)@,
            ) {
                Step::Continue(queued, waiting) => r is Ok && r->Ok_0 is None
                    && final(queue).deep_view() == queued && final(stack)@ == waiting,
                Step::Done(Ok(e)) => r is Ok && r->Ok_0 is Some && r->Ok_0->0@ == e,
                Step::Done(Err(failure)) => r is Err && reports(r->Err_0, failure, self.file()),
            },
    {
        proof {
            reveal(operand_step);
        }
        let position = token.position;
        let ghost before = *queue;
        if self.repeats(token) {
            return Err(self.error(SyntaxErrorKind::InvalidExpression, position));
        }
        match &token.token_type {
            TokenType::Identifier(name) => {
                let index = match locals.find(name.as_str()) {
                    Some(index) => index,
                    None => {
                        return Err(self.error(SyntaxErrorKind::UndeclaredVariable, position));
                    },
                };
                queue.push_back(Item::Operand(Expression::Local(index)));
                proof {
                    lemma_queue_push(before, *queue, Item::Operand(Expression::Local(index)));
                }
                Ok(None)
            },
            TokenType::NumberLiteral(number) => {
                queue.push_back(Item::Operand(Expression::NumberLiteral(*number)));
                proof {
                    lemma_queue_push(
                        before,
                        *queue,
                        Item::Operand(Expression::NumberLiteral(*number)),
                    );
                }
                Ok(None)
            },
            TokenType::BinaryOperation(operator) => {
                move_tighter(queue, stack, operator.get_precedence());
                stack.push(Pending::Operator(*operator, position));
                Ok(None)
            },
            TokenType::LeftPar => {
                stack.push(Pending::LeftPar(position));
                Ok(None)
            },
            TokenType::RightPar => {
                if move_to_left_par(queue, stack) {
                    Ok(None)
                } else if call_arg {
                    let e = self.finish(queue, stack, position)?;
                    Ok(Some(e))
                } else {
                    Err(self.error(SyntaxErrorKind::UnmatchedParenthesis, position))
                }
            },
            TokenType::Semicolon => {
                if call_arg {
                    Err(self.error(SyntaxErrorKind::UnexpectedToken, position))
                } else {
                    let e = self.finish(queue, stack, position)?;
                    Ok(Some(e))
                }
            },
            TokenType::Comma => {
                if call_arg {
                    let e = self.finish(queue, stack, position)?;
                    Ok(Some(e))
                } else {
                    Err(self.error(SyntaxErrorKind::UnexpectedToken, position))
                }
            },
            _ => Err(self.error(SyntaxErrorKind::UnexpectedToken, position)),
        }
    }

    /// Reads an expression up to the token that ends it, which stays.
    pub(super) fn next_expression(&mut self, locals: &LocalStack, call_arg: bool) -> (r: Result<
        Expression,
        SyntaxError,
    >)
        requires
            old(self).wf(),
        ensures
            final(self).parsed(
                old(self),
                r,
                parse_expression(
                    old(self).source(),
                    old(self).cursor(),
                    locals@,
                    old(self).declared(),
                    call_arg,
                ),
            ),
            r is Ok ==> final(self).cursor() > old(self).cursor(),
        decreases old(self).tokens.len() - old(self).position, 3int,
    {
        let mut queue: VecDeque<Item> = VecDeque::new();
        let mut stack: Vec<Pending> = Vec::new();
        let ghost goal = parse_expression(
            old(self).source(),
            old(self).cursor(),
            locals@,
            old(self).declared(),
            call_arg,
        );
        assert(queue.deep_view() =~= Seq::<ItemView>::empty());
        loop
            invariant
                self.same_input(old(self)),
                old(self).cursor() <= self.cursor(),
                self.cursor() == old(self).cursor() ==> queue@.len() == 0 && stack@.len() == 0,
                goal == parse_operands(
                    self.source(),
                    self.cursor(),
                    locals@,
                    self.declared(),
                    call_arg,
                    queue.deep_view(),
                    stack@,
                ),
                goal == parse_expression(
                    old(self).source(),
                    old(self).cursor(),
                    locals@,
                    old(self).declared(),
                    call_arg,
                ),
            decreases self.tokens.len() - self.position,
        {
            let is_call = match self.lookahead() {
                Some(token) => matches!(token.token_type, TokenType::Call),
                None => {
                    return Err(
                        self.error(
                            SyntaxErrorKind::ExpectedExpression,
                            self.lexer.file_position(),
                        ),
                    );
                },
            };
            if is_call {
                let ghost before = queue;
                let call = self.next_call(locals)?;
                queue.push_back(Item::Operand(call));
                proof {
                    lemma_queue_push(before, queue, Item::Operand(call));
                }
            } else {
                proof {
                    if self.cursor() == old(self).cursor() {
                        assert(queue.deep_view() =~= Seq::<ItemView>::empty());
                        assert(stack@ =~= Seq::<Pending>::empty());
                        lemma_nothing_to_finish(
                            self.tokens[self.cursor()]@,
                            self.source().current(self.cursor()),
                            locals@,
                            call_arg,
                        );
                    }
                }
                match self.step(
                    &self.tokens[self.position],
                    locals,
                    call_arg,
                    &mut queue,
                    &mut stack,
                )? {
                    Some(e) => {
                        return Ok(e);
                    },
                    None => {
                        self.next_token();
                    },
                }
            }
        }
    }

    /// Reads a call: `@`, the name of a function that is already parsed,
    /// and its arguments.
    pub(super) fn next_call(&mut self, locals: &LocalStack) -> (r: Result<Expression, SyntaxError>)
        requires
            old(self).wf(),
        ensures
            final(self).parsed(
                old(self),
                r,
                parse_call(old(self).source(), old(self).cursor(), locals@, old(self).declared()),
            ),
            r is Ok ==> final(self).cursor() > old(self).cursor(),
        decreases old(self).tokens.len() - old(self).position, 1int,
    {
        self.next_at()?;
        let token = match self.lookahead() {
            Some(token) => token,
            None => {
                return Err(
                    self.error(
                        SyntaxErrorKind::ExpectedFunctionName,
                        self.lexer.file_position(),
                    ),
                );
            },
        };
        let position = token.position;
        let name = match &token.token_type {
            TokenType::Identifier(name) => name.clone(),
            _ => {
                return Err(self.error(SyntaxErrorKind::ExpectedFunctionName, position));
            },
        };
        self.next_token();
        let index = match self.find_function(&name) {
            Some(index) => index,
            None => {
                return Err(self.error(SyntaxErrorKind::UndefinedFunction, position));
            },
        };
        let arguments = self.next_call_args(locals)?;
        if arguments.len() != self.functions[index].arguments.len() {
            return Err(self.error(SyntaxErrorKind::ArgumentMismatch, position));
        }
        proof {
            lemma_call_view(index, arguments);
        }
        Ok(Expression::Call(index, arguments))
    }

    /// Reads the parenthesized arguments of a call.
    pub(super) fn next_call_args(&mut self, locals: &LocalStack) -> (r: Result<
        Vec<Expression>,
        SyntaxError,
    >)
        requires
            old(self).wf(),
        ensures
            final(self).parsed(
                old(self),
                r,
                parse_call_args(
                    old(self).source(),
                    old(self).cursor(),
                    locals@,
                    old(self).declared(),
                ),
            ),
            r is Ok ==> final(self).cursor() > old(self).cursor(),
        decreases old(self).tokens.len() - old(self).position, 6int,
    {
        self.next_l_par()?;
        let mut expressions: Vec<Expression> = Vec::new();
        let ghost first = self.cursor();
        let ghost goal = parse_call_arg_list(
            old(self).source(),
            first,
            locals@,
            old(self).declared(),
            Seq::empty(),
        );
        assert(expressions.deep_view() =~= Seq::<ExpressionView>::empty());
        loop
            invariant_except_break
                parse_call_arg_list(
                    self.source(),
                    self.cursor(),
                    locals@,
                    self.declared(),
                    expressions.deep_view(),
                ) == goal,
            invariant
                self.same_input(old(self)),
                first == old(self).cursor() + 1,
                first <= self.cursor(),
                old(self).source().lookahead(old(self).cursor()) matches Some(token)
                    && token.kind == TokenKind::LeftPar,
                goal == parse_call_arg_list(
                    old(self).source(),
                    first,
                    locals@,
                    old(self).declared(),
                    Seq::empty(),
                ),
            ensures
                goal == Ok::<(Seq<ExpressionView>, int), Failure>(
                    (expressions.deep_view(), self.cursor()),
                ),
            decreases self.tokens.len() - self.position,
        {
            let ghost collected = expressions.deep_view();
            if self.lookahead().is_none() {
                return Err(
                    self.error(
                        SyntaxErrorKind::ExpectedExpression,
                        self.lexer.file_position(),
                    ),
                );
            }
            match self.next_call_arg(locals)? {
                Some(argument) => {
                    expressions.push(argument);
                    proof {
                        assert(expressions.deep_view() =~= collected.push(argument@));
                    }
                },
                None => {
                    break ;
                },
            }
        }
        self.next_r_par()?;
        Ok(expressions)
    }

    /// Reads one argument of a call, with the comma before it if there is
    /// one.
    pub(super) fn next_call_arg(&mut self, locals: &LocalStack) -> (r: Result<
        Option<Expression>,
        SyntaxError,
    >)
        requires
            old(self).wf(),
        ensures
            final(self).parsed(
                old(self),
                r,
                parse_call_arg(
                    old(self).source(),
                    old(self).cursor(),
                    locals@,
                    old(self).declared(),
                ),
            ),
            r matches Ok(Some(_)) ==> final(self).cursor() > old(self).cursor(),
        decreases old(self).tokens.len() - old(self).position, 4int,
    {
        let token = match self.lookahead() {
            Some(token) => token,
            None => {
                return Err(
                    self.error(
                        SyntaxErrorKind::ExpectedExpression,
                        self.lexer.file_position(),
                    ),
                );
            },
        };
        let position = token.position;
        match token.token_type {
            TokenType::RightPar => Ok(None),
            TokenType::Comma => {
                let first = match self.current() {
                    Some(last) => matches!(last.token_type, TokenType::LeftPar),
                    None => false,
                };
                if first {
                    return Err(self.error(SyntaxErrorKind::ExpectedExpression, position));
                }
                self.next_comma()?;
                let argument = self.next_expression(locals, true)?;
                Ok(Some(argument))
            },
            _ => {
                let argument = self.next_expression(locals, true)?;
                Ok(Some(argument))
            },
        }
    }
}

} // verus!
