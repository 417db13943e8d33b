//! What the parser of the variant computes, stated on views: each function
//! takes the state of the parser and gives the construct that stands there
//! and the state behind it.

use vstd::prelude::*;
use vstd::utf8::*;
use crate::ezlang::{
    syntax_error, tokenize, BinaryOperator, ExpressionView, FunctionDeclarationView, ParserView,
    PositionView, ProgramView, StatementView, SyntaxErrorView, TokenView,
};
use crate::text::decimal_text;

verus! {

/// A construct, or the error, and the state of the parser behind it.
pub type Parsed<T> = (Result<T, SyntaxErrorView>, ParserView);

/// How much the parser has left to read: what bounds the tokens that it can
/// still take.
pub open spec fn weight(p: ParserView) -> int {
    2 * (p.tokenizer.bytes.len() - p.tokenizer.cursor) + (if p.tokenizer.reached_eof {
        0int
    } else {
        2int
    }) + (if p.lookahead is Some {
        1int
    } else {
        0int
    })
}

/// The parser has less left to read after than before. Every token that
/// is taken makes it so; the definitions below ask for it where they go
/// round, so that they are seen to end.
pub open spec fn shrinks(after: ParserView, before: ParserView) -> bool {
    0 <= weight(after) < weight(before)
}

/// The error for a token that is missing because the file is over.
pub open spec fn end_error(p: ParserView) -> SyntaxErrorView {
    syntax_error(p.tokenizer.position(), "Unexpected end of input"@)
}

/// The error `message` at `token`, or the error for a missing token.
pub open spec fn token_error(
    token: Option<TokenView>,
    p: ParserView,
    message: Seq<char>,
) -> SyntaxErrorView {
    match token {
        Some(found) => syntax_error(found.position(), message),
        None => end_error(p),
    }
}

/// Fills the lookahead from the tokenizer without giving a token out.
pub open spec fn prime(p: ParserView) -> Parsed<()> {
    let (next, tokenizer) = tokenize(p.tokenizer);
    match next {
        Ok(token) => (
            Ok(()),
            ParserView { tokenizer, lookahead: token, string_literals: p.string_literals },
        ),
        Err(e) => (
            Err(e),
            ParserView { tokenizer, lookahead: p.lookahead, string_literals: p.string_literals },
        ),
    }
}

/// Gives out the lookahead and fills it with the next token.
pub open spec fn consume(p: ParserView) -> Parsed<Option<TokenView>> {
    match prime(p) {
        (Ok(_), after) => (Ok(p.lookahead), after),
        (Err(e), after) => (Err(e), after),
    }
}

/// The binary operation of `operator` on `left` and the expression read
/// as `right`.
pub open spec fn binary(
    operator: BinaryOperator,
    left: ExpressionView,
    right: Parsed<ExpressionView>,
) -> Parsed<ExpressionView> {
    match right {
        (Ok(value), after) => (
            Ok(ExpressionView::BinaryOperation(operator, Box::new(left), Box::new(value))),
            after,
        ),
        (Err(e), after) => (Err(e), after),
    }
}

/// The label of the string literal that is met when `count` others have
/// been met.
pub open spec fn literal_label(count: nat) -> Seq<char> {
    "strltr."@ + decimal_text(count)
}

/// An expression: an operator before a number or a name and a further
/// expression; or a number; or a string literal, which gets a label; or a
/// name, which is a call if a parenthesis follows.
pub open spec fn expression(p: ParserView) -> Parsed<ExpressionView>
    decreases weight(p), 1int,
{
    match consume(p) {
        (Err(e), q1) => (Err(e), q1),
        (Ok(token), q1) => if !shrinks(q1, p) {
            (Err(end_error(q1)), q1)
        } else {
            match token {
                Some(TokenView::BinaryOperator(_, operator)) => match consume(q1) {
                    (Err(e), q2) => (Err(e), q2),
                    (Ok(operand), q2) => if !shrinks(q2, p) {
                        (Err(end_error(q2)), q2)
                    } else {
                        match operand {
                            Some(TokenView::NumberLiteral(_, value)) => binary(
                                operator,
                                ExpressionView::NumberLiteral(value),
                                expression(q2),
                            ),
                            Some(TokenView::Symbol(_, name)) => binary(
                                operator,
                                ExpressionView::Symbol(name),
                                expression(q2),
                            ),
                            _ => (Err(token_error(operand, q2, "Syntax error"@)), q2),
                        }
                    },
                },
                Some(TokenView::NumberLiteral(_, value)) => (
                    Ok(ExpressionView::NumberLiteral(value)),
                    q1,
                ),
                Some(TokenView::StringLiteral(_, text)) => {
                    let label = literal_label(q1.string_literals.len());
                    (
                        Ok(ExpressionView::StringLiteral(label, text)),
                        ParserView {
                            tokenizer: q1.tokenizer,
                            lookahead: q1.lookahead,
                            string_literals: q1.string_literals.push((label, text)),
                        },
                    )
                },
                Some(TokenView::Symbol(_, name)) => if q1.lookahead matches Some(
                    TokenView::OpenParenthesis(_),
                ) {
                    match argument_list_call(q1) {
                        (Ok(arguments), q2) => (
                            Ok(ExpressionView::CallStatement(name, Some(arguments))),
                            q2,
                        ),
                        (Err(e), q2) => (Err(e), q2),
                    }
                } else {
                    (Ok(ExpressionView::Symbol(name)), q1)
                },
                _ => (Err(token_error(token, q1, "Syntax error"@)), q1),
            }
        },
    }
}

/// The arguments of a call: a parenthesis and the expressions listed
/// behind it.
pub open spec fn argument_list_call(p: ParserView) -> Parsed<Seq<ExpressionView>>
    decreases weight(p), 3int,
{
    match consume(p) {
        (Err(e), q1) => (Err(e), q1),
        (Ok(token), q1) => if !shrinks(q1, p) {
            (Err(end_error(q1)), q1)
        } else {
            match token {
                Some(TokenView::OpenParenthesis(_)) => call_arguments(q1, Seq::empty()),
                _ => (Err(token_error(token, q1, "Syntax error"@)), q1),
            }
        },
    }
}

/// The rest of the arguments of a call, after those in `arguments`:
/// expressions with commas between them up to the closing parenthesis. A
/// closing parenthesis where an expression could begin ends the list and
/// is not taken.
pub open spec fn call_arguments(p: ParserView, arguments: Seq<ExpressionView>) -> Parsed<
    Seq<ExpressionView>,
>
    decreases weight(p), 2int,
{
    if p.lookahead matches Some(TokenView::CloseParenthesis(_)) {
        (Ok(arguments), p)
    } else {
        match expression(p) {
            (Err(e), q1) => (Err(e), q1),
            (Ok(argument), q1) => match consume(q1) {
                (Err(e), q2) => (Err(e), q2),
                (Ok(Some(TokenView::Comma(_))), q2) => if shrinks(q2, p) {
                    call_arguments(q2, arguments.push(argument))
                } else {
                    (Err(end_error(q2)), q2)
                },
                (Ok(Some(TokenView::CloseParenthesis(_))), q2) => (
                    Ok(arguments.push(argument)),
                    q2,
                ),
                (Ok(token), q2) => (Err(token_error(token, q2, "Syntax error"@)), q2),
            },
        }
    }
}

/// A statement: an assignment, a call, or a return.
#[verifier::opaque]
pub open spec fn statement(p: ParserView) -> Parsed<StatementView> {
    match consume(p) {
        (Err(e), q1) => (Err(e), q1),
        (Ok(Some(TokenView::Symbol(position, name))), q1) => if q1.lookahead matches Some(
            TokenView::Equal(_),
        ) {
            match consume(q1) {
                (Err(e), q2) => (Err(e), q2),
                (Ok(_), q2) => match expression(q2) {
                    (Ok(value), q3) => (
                        Ok(StatementView::AssignStatement { symbol_name: name, expression: value }),
                        q3,
                    ),
                    (Err(e), q3) => (Err(e), q3),
                },
            }
        } else if q1.lookahead matches Some(TokenView::OpenParenthesis(_)) {
            match argument_list_call(q1) {
                (Ok(arguments), q2) => (
                    Ok(
                        StatementView::CallStatement {
                            function_name: name,
                            arguments: Some(arguments),
                        },
                    ),
                    q2,
                ),
                (Err(e), q2) => (Err(e), q2),
            }
        } else {
            (Err(syntax_error(position, "Syntax error"@)), q1)
        },
        (Ok(Some(TokenView::Return(_))), q1) => match expression(q1) {
            (Ok(value), q2) => (Ok(StatementView::ReturnStatement { return_value: value }), q2),
            (Err(e), q2) => (Err(e), q2),
        },
        (Ok(token), q1) => (Err(token_error(token, q1, "Syntax error"@)), q1),
    }
}

/// The rest of a function body, after the statements in `statements`:
/// statements, each with a semicolon behind it, up to the closing bracket.
/// A statement without its semicolon is an error at `open`, the place of
/// the opening bracket.
pub open spec fn body_statements(
    p: ParserView,
    open: PositionView,
    statements: Seq<StatementView>,
) -> Parsed<Seq<StatementView>>
    decreases weight(p),
{
    if p.lookahead matches Some(TokenView::CloseBracket(_)) {
        match consume(p) {
            (Err(e), q1) => (Err(e), q1),
            (Ok(_), q1) => (Ok(statements), q1),
        }
    } else {
        match statement(p) {
            (Err(e), q1) => (Err(e), q1),
            (Ok(found), q1) => match consume(q1) {
                (Err(e), q2) => (Err(e), q2),
                (Ok(Some(TokenView::Semicolon(_))), q2) => if shrinks(q2, p) {
                    body_statements(q2, open, statements.push(found))
                } else {
                    (Err(end_error(q2)), q2)
                },
                (Ok(_), q2) => (Err(syntax_error(open, "Syntax error"@)), q2),
            },
        }
    }
}

/// A function body: a bracket, statements, a bracket.
#[verifier::opaque]
pub open spec fn function_body(p: ParserView) -> Parsed<Seq<StatementView>> {
    match consume(p) {
        (Err(e), q1) => (Err(e), q1),
        (Ok(Some(TokenView::OpenBracket(open))), q1) => body_statements(q1, open, Seq::empty()),
        (Ok(token), q1) => (Err(token_error(token, q1, "Syntax error"@)), q1),
    }
}

/// The rest of the names of an argument list, after those in `names`: each
/// name is followed by a comma, after which the list goes on, or by the
/// closing parenthesis. A token that is no name ends the list and is taken.
pub open spec fn declared_arguments(p: ParserView, names: Seq<Seq<char>>) -> Parsed<
    Seq<Seq<char>>,
>
    decreases weight(p),
{
    match consume(p) {
        (Err(e), q1) => (Err(e), q1),
        (Ok(Some(TokenView::Symbol(_, name))), q1) => match consume(q1) {
            (Err(e), q2) => (Err(e), q2),
            (Ok(Some(TokenView::Comma(_))), q2) => if shrinks(q2, p) {
                declared_arguments(q2, names.push(name))
            } else {
                (Err(end_error(q2)), q2)
            },
            (Ok(Some(TokenView::CloseParenthesis(_))), q2) => (Ok(names.push(name)), q2),
            (Ok(token), q2) => (
                Err(token_error(token, q2, "Unexpected token in argument list declaration"@)),
                q2,
            ),
        },
        (Ok(_), q1) => (Ok(names), q1),
    }
}

/// The argument list of a declaration: a parenthesis, names with commas
/// between them, a parenthesis.
#[verifier::opaque]
pub open spec fn argument_list_declaration(p: ParserView) -> Parsed<Seq<Seq<char>>> {
    match consume(p) {
        (Err(e), q1) => (Err(e), q1),
        (Ok(Some(TokenView::OpenParenthesis(open))), q1) => if q1.lookahead matches Some(
            TokenView::CloseParenthesis(_),
        ) {
            match consume(q1) {
                (Err(e), q2) => (Err(e), q2),
                (Ok(_), q2) => (Ok(Seq::empty()), q2),
            }
        } else if q1.lookahead matches Some(TokenView::Symbol(_, _)) {
            declared_arguments(q1, Seq::empty())
        } else {
            (
                Err(
                    syntax_error(
                        open,
                        "Unexpected token at function's close argument list declaration"@,
                    ),
                ),
                q1,
            )
        },
        (Ok(token), q1) => (
            Err(
                token_error(
                    token,
                    q1,
                    "Unexpected token at function's argument list declaration"@,
                ),
            ),
            q1,
        ),
    }
}

/// The place right behind the name `name` that begins at `position`.
pub open spec fn behind(position: PositionView, name: Seq<char>) -> PositionView {
    PositionView {
        file: position.file,
        line: position.line,
        column: if position.column + encode_utf8(name).len() > usize::MAX {
            usize::MAX
        } else {
            (position.column + encode_utf8(name).len()) as usize
        },
    }
}

/// A function declaration: a name, a colon, the argument list, the body.
#[verifier::opaque]
pub open spec fn function(p: ParserView) -> Parsed<FunctionDeclarationView> {
    match consume(p) {
        (Err(e), q1) => (Err(e), q1),
        (Ok(Some(TokenView::Symbol(position, name))), q1) => match consume(q1) {
            (Err(e), q2) => (Err(e), q2),
            (Ok(Some(TokenView::Colon(_))), q2) => match argument_list_declaration(q2) {
                (Err(e), q3) => (Err(e), q3),
                (Ok(arguments), q3) => match function_body(q3) {
                    (Err(e), q4) => (Err(e), q4),
                    (Ok(statements), q4) => (
                        Ok(FunctionDeclarationView { function_name: name, arguments, statements }),
                        q4,
                    ),
                },
            },
            (Ok(_), q2) => (
                Err(syntax_error(behind(position, name), "Missing token at function declaration"@)),
                q2,
            ),
        },
        (Ok(token), q1) => (
            Err(token_error(token, q1, "Unexpected token at function declaration"@)),
            q1,
        ),
    }
}

/// The function declarations up to the end of the file, after those in
/// `functions`.
pub open spec fn functions_from(p: ParserView, functions: Seq<FunctionDeclarationView>) -> Parsed<
    Seq<FunctionDeclarationView>,
>
    decreases weight(p),
{
    match p.lookahead {
        None => (Ok(functions), p),
        Some(TokenView::EOF(_)) => match consume(p) {
            (Err(e), q1) => (Err(e), q1),
            (Ok(_), q1) => (Ok(functions), q1),
        },
        Some(_) => match function(p) {
            (Err(e), q1) => (Err(e), q1),
            (Ok(found), q1) => if shrinks(q1, p) {
                functions_from(q1, functions.push(found))
            } else {
                (Err(end_error(q1)), q1)
            },
        },
    }
}

/// One of `functions` is called `main`.
pub open spec fn has_main(functions: Seq<FunctionDeclarationView>) -> bool {
    exists|i: int| 0 <= i < functions.len() && (#[trigger] functions[i]).function_name == "main"@
}

/// The place that errors about the whole file are reported at.
pub open spec fn nowhere(file: Seq<char>) -> PositionView {
    PositionView { file, line: 0, column: 0 }
}

/// A program: function declarations up to the end of the file, at least
/// one of them, and one called `main`; with the string literals met.
pub open spec fn program(p: ParserView) -> Parsed<ProgramView> {
    match functions_from(p, Seq::empty()) {
        (Err(e), q1) => (Err(e), q1),
        (Ok(functions), q1) => if functions.len() < 1 {
            (Err(syntax_error(nowhere(q1.tokenizer.file), "Program cannot be empty"@)), q1)
        } else if !has_main(functions) {
            (
                Err(
                    syntax_error(
                        nowhere(q1.tokenizer.file),
                        "No entry point: Missing main function"@,
                    ),
                ),
                q1,
            )
        } else {
            (Ok(ProgramView { functions, string_literals: q1.string_literals }), q1)
        },
    }
}

/// The program that the parser reads from its state on.
pub open spec fn parse(p: ParserView) -> Parsed<ProgramView> {
    match prime(p) {
        (Err(e), q1) => (Err(e), q1),
        (Ok(_), q1) => program(q1),
    }
}

} // verus!
