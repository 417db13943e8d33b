//! What holds of the parser of the variant whatever it reads: it never has
//! more left to read than before, so the tests of `shrinks` in its
//! definitions always pass where a token was taken; and what it accepts
//! has a function called `main`.

use vstd::prelude::*;
use crate::ezlang::grammar::{
    argument_list_call, argument_list_declaration, body_statements, call_arguments, consume,
    declared_arguments, expression, function, function_body, has_main, parse, program, shrinks,
    statement, weight,
};
use crate::ezlang::parsing::lemma_consume_progress;
use crate::ezlang::{ExpressionView, ParserView, PositionView, StatementView, TokenView};

verus! {

/// An expression leaves the parser in order, with no more to read than
/// before.
pub proof fn lemma_expression_follows(p: ParserView)
    requires
        p.tokenizer.wf(),
    ensures
        expression(p).1.follows(p),
    decreases weight(p), 1int,
{
    lemma_consume_progress(p);
    let (token, q1) = consume(p);
    if token is Ok && shrinks(q1, p) {
        match token->Ok_0 {
            Some(TokenView::BinaryOperator(_, _)) => {
                lemma_consume_progress(q1);
                let (operand, q2) = consume(q1);
                if operand is Ok && shrinks(q2, p) {
                    match operand->Ok_0 {
                        Some(TokenView::NumberLiteral(_, _)) | Some(TokenView::Symbol(_, _)) => {
                            lemma_expression_follows(q2);
                        },
                        _ => {},
                    }
                }
            },
            Some(TokenView::Symbol(_, _)) => {
                if q1.lookahead matches Some(TokenView::OpenParenthesis(_)) {
                    lemma_argument_list_call_follows(q1);
                }
            },
            _ => {},
        }
    }
}

/// The arguments of a call leave the parser in order, with no more to read
/// than before.
pub proof fn lemma_argument_list_call_follows(p: ParserView)
    requires
        p.tokenizer.wf(),
    ensures
        argument_list_call(p).1.follows(p),
    decreases weight(p), 3int,
{
    lemma_consume_progress(p);
    let (token, q1) = consume(p);
    if token is Ok && shrinks(q1, p) {
        match token->Ok_0 {
            Some(TokenView::OpenParenthesis(_)) => {
                lemma_call_arguments_follows(q1, Seq::empty());
            },
            _ => {},
        }
    }
}

/// The rest of the arguments of a call leaves the parser in order, with no
/// more to read than before; and where a comma was taken, the parser has
/// less to read than before the argument.
pub proof fn lemma_call_arguments_follows(p: ParserView, arguments: Seq<ExpressionView>)
    requires
        p.tokenizer.wf(),
    ensures
        call_arguments(p, arguments).1.follows(p),
        !(p.lookahead matches Some(TokenView::CloseParenthesis(_))) && expression(p).0 is Ok
            && (consume(expression(p).1).0 matches Ok(Some(_))) ==> shrinks(
            consume(expression(p).1).1,
            p,
        ),
    decreases weight(p), 2int,
{
    if !(p.lookahead matches Some(TokenView::CloseParenthesis(_))) {
        lemma_expression_follows(p);
        let (argument, q1) = expression(p);
        if argument is Ok {
            lemma_consume_progress(q1);
            let (token, q2) = consume(q1);
            match token {
                Ok(Some(TokenView::Comma(_))) => {
                    lemma_call_arguments_follows(q2, arguments.push(argument->Ok_0));
                },
                _ => {},
            }
        }
    }
}

/// A statement leaves the parser in order, with no more to read than
/// before.
pub proof fn lemma_statement_follows(p: ParserView)
    requires
        p.tokenizer.wf(),
    ensures
        statement(p).1.follows(p),
{
    reveal(statement);
    lemma_consume_progress(p);
    let (token, q1) = consume(p);
    match token {
        Ok(Some(TokenView::Symbol(_, _))) => {
            if q1.lookahead matches Some(TokenView::Equal(_)) {
                lemma_consume_progress(q1);
                let (equal, q2) = consume(q1);
                if equal is Ok {
                    lemma_expression_follows(q2);
                }
            } else if q1.lookahead matches Some(TokenView::OpenParenthesis(_)) {
                lemma_argument_list_call_follows(q1);
            }
        },
        Ok(Some(TokenView::Return(_))) => {
            lemma_expression_follows(q1);
        },
        _ => {},
    }
}

/// The rest of a function body leaves the parser in order, with no more to
/// read than before; and where a semicolon was taken, the parser has less
/// to read than before the statement.
pub proof fn lemma_body_statements_follows(
    p: ParserView,
    open: PositionView,
    statements: Seq<StatementView>,
)
    requires
        p.tokenizer.wf(),
    ensures
        body_statements(p, open, statements).1.follows(p),
        !(p.lookahead matches Some(TokenView::CloseBracket(_))) && statement(p).0 is Ok
            && (consume(statement(p).1).0 matches Ok(Some(_))) ==> shrinks(
            consume(statement(p).1).1,
            p,
        ),
    decreases weight(p),
{
    lemma_consume_progress(p);
    if !(p.lookahead matches Some(TokenView::CloseBracket(_))) {
        lemma_statement_follows(p);
        let (found, q1) = statement(p);
        if found is Ok {
            lemma_consume_progress(q1);
            let (token, q2) = consume(q1);
            match token {
                Ok(Some(TokenView::Semicolon(_))) => {
                    lemma_body_statements_follows(q2, open, statements.push(found->Ok_0));
                },
                _ => {},
            }
        }
    }
}

/// A function body leaves the parser in order, with no more to read than
/// before.
pub proof fn lemma_function_body_follows(p: ParserView)
    requires
        p.tokenizer.wf(),
    ensures
        function_body(p).1.follows(p),
{
    reveal(function_body);
    lemma_consume_progress(p);
    let (token, q1) = consume(p);
    match token {
        Ok(Some(TokenView::OpenBracket(open))) => {
            lemma_body_statements_follows(q1, open, Seq::empty());
        },
        _ => {},
    }
}

/// The rest of the names of an argument list leaves the parser in order,
/// with no more to read than before.
pub proof fn lemma_declared_arguments_follows(p: ParserView, names: Seq<Seq<char>>)
    requires
        p.tokenizer.wf(),
    ensures
        declared_arguments(p, names).1.follows(p),
    decreases weight(p),
{
    lemma_consume_progress(p);
    let (token, q1) = consume(p);
    match token {
        Ok(Some(TokenView::Symbol(_, name))) => {
            lemma_consume_progress(q1);
            let (next, q2) = consume(q1);
            match next {
                Ok(Some(TokenView::Comma(_))) => {
                    lemma_declared_arguments_follows(q2, names.push(name));
                },
                _ => {},
            }
        },
        _ => {},
    }
}

/// The argument list of a declaration leaves the parser in order, with no
/// more to read than before.
pub proof fn lemma_argument_list_declaration_follows(p: ParserView)
    requires
        p.tokenizer.wf(),
    ensures
        argument_list_declaration(p).1.follows(p),
{
    reveal(argument_list_declaration);
    lemma_consume_progress(p);
    let (token, q1) = consume(p);
    match token {
        Ok(Some(TokenView::OpenParenthesis(_))) => {
            if q1.lookahead matches Some(TokenView::CloseParenthesis(_)) {
                lemma_consume_progress(q1);
            } else if q1.lookahead matches Some(TokenView::Symbol(_, _)) {
                lemma_declared_arguments_follows(q1, Seq::empty());
            }
        },
        _ => {},
    }
}

/// A function declaration leaves the parser in order; where it is
/// accepted, the parser has less to read than before.
pub proof fn lemma_function_follows(p: ParserView)
    requires
        p.tokenizer.wf(),
    ensures
        function(p).1.follows(p),
        function(p).0 is Ok ==> shrinks(function(p).1, p),
{
    reveal(function);
    lemma_consume_progress(p);
    let (token, q1) = consume(p);
    match token {
        Ok(Some(TokenView::Symbol(_, _))) => {
            lemma_consume_progress(q1);
            let (colon, q2) = consume(q1);
            match colon {
                Ok(Some(TokenView::Colon(_))) => {
                    lemma_argument_list_declaration_follows(q2);
                    let (arguments, q3) = argument_list_declaration(q2);
                    if arguments is Ok {
                        lemma_function_body_follows(q3);
                    }
                },
                _ => {},
            }
        },
        _ => {},
    }
}

/// A program that the parser accepts has at least one function, and one
/// called `main`: every other source is rejected.
pub proof fn lemma_program_has_main(p: ParserView)
    ensures
        parse(p).0 matches Ok(accepted) ==> accepted.functions.len() >= 1 && has_main(
            accepted.functions,
        ),
        program(p).0 matches Ok(accepted) ==> accepted.functions.len() >= 1 && has_main(
            accepted.functions,
        ),
{
}

} // verus!
