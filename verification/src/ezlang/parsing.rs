//! The parser of the variant: recursive descent over tokens that are pulled
//! from the tokenizer one at a time.

use vstd::prelude::*;
use vstd::string::*;
use vstd::utf8::*;
use crate::ezlang::grammar::{
    argument_list_call, argument_list_declaration, body_statements, call_arguments, consume,
    declared_arguments, end_error, expression, function, function_body, functions_from, has_main,
    parse, prime, program, shrinks, statement, token_error, weight,
};
use crate::ezlang::{
    error_at, lemma_call_view, outcome, tokenize, Argument, Expression, ExpressionView,
    FunctionDeclaration, FunctionDeclarationView, Parser, ParserView, Position, Program,
    Statement, StatementView, SyntaxError, Token, TokenView, Tokenizer, TokenizerView,
};
use crate::text::push_decimal;

verus! {

/// What a tokenizer has left to read.
pub open spec fn remaining(t: TokenizerView) -> int {
    2 * (t.bytes.len() - t.cursor) + (if t.reached_eof {
        0int
    } else {
        2int
    })
}

/// A token always costs the tokenizer something: it reads on in the same
/// file, never has more left than before, and has less left after it gave
/// a token out.
pub proof fn lemma_tokenize_progress(t: TokenizerView)
    requires
        t.wf(),
    ensures
        tokenize(t).1.wf(),
        tokenize(t).1.bytes == t.bytes,
        tokenize(t).1.file == t.file,
        remaining(tokenize(t).1) <= remaining(t),
        tokenize(t).0 matches Ok(Some(_)) ==> remaining(tokenize(t).1) + 2 <= remaining(t),
    decreases t.bytes.len() - t.cursor,
{
    if !t.reached_eof && 0 <= t.cursor < t.bytes.len() && is_char_boundary(t.bytes, t.cursor) {
        match crate::ezlang::first_rule(t.rest()) {
            Some(Some((rule, length))) => {
                if 0 < length <= t.rest().len() && rule == crate::ezlang::Rule::Whitespace {
                    let text = t.rest().subrange(0, length);
                    lemma_tokenize_progress(t.skip(length, text == seq![10u8]));
                }
            },
            _ => {},
        }
    }
}

/// Taking a token never gives the parser more to read, and gives it less
/// whenever a token came out.
pub proof fn lemma_consume_progress(p: ParserView)
    requires
        p.tokenizer.wf(),
    ensures
        consume(p).1.tokenizer.wf(),
        consume(p).1.tokenizer.file == p.tokenizer.file,
        0 <= weight(consume(p).1) <= weight(p),
        consume(p).0 matches Ok(Some(_)) ==> shrinks(consume(p).1, p),
        prime(p).0 is Ok ==> 0 <= weight(prime(p).1) <= weight(p) + 1,
{
    lemma_tokenize_progress(p.tokenizer);
}

impl ParserView {
    /// The parser is in order and has no more left to read than `before`,
    /// in the same file.
    pub open spec fn follows(self, before: ParserView) -> bool {
        &&& self.tokenizer.wf()
        &&& self.tokenizer.file == before.tokenizer.file
        &&& 0 <= weight(self) <= weight(before)
    }
}

impl Parser {
    /// A parser for `source_code`, the text of the file `filename`.
    pub fn new(filename: String, source_code: String) -> (parser: Self)
        requires
            encode_utf8(source_code@).len() < usize::MAX,
        ensures
            parser@.tokenizer.wf(),
            parser@ == (ParserView {
                tokenizer: TokenizerView {
                    file: filename@,
                    bytes: encode_utf8(source_code@),
                    cursor: 0,
                    line: 1,
                    column: 1,
                    reached_eof: false,
                },
                lookahead: None,
                string_literals: Seq::empty(),
            }),
    {
        let parser = Parser {
            tokenizer: Tokenizer::new(filename, source_code),
            lookahead: None,
            string_literals: Vec::new(),
        };
        assert(parser@.string_literals =~= Seq::empty());
        parser
    }

    /// The error for a token that is missing because the file is over.
    fn end_error(&self) -> (e: SyntaxError)
        ensures
            e@ == end_error(self@),
    {
        error_at(self.tokenizer.position(), "Unexpected end of input")
    }

    /// The error `message` at `token`, or the error for a missing token.
    fn token_error(&self, token: &Option<Token>, message: &str) -> (e: SyntaxError)
        ensures
            e@ == token_error(token.deep_view(), self@, message@),
    {
        match token {
            Some(found) => error_at(found.get_position().copy(), message),
            None => self.end_error(),
        }
    }

    /// Gives out the lookahead and fills it with the next token.
    pub(super) fn consume(&mut self) -> (r: Result<Option<Token>, SyntaxError>)
        requires
            old(self)@.tokenizer.wf(),
        ensures
            (outcome(r), final(self)@) == consume(old(self)@),
            final(self)@.follows(old(self)@),
            r matches Ok(Some(_)) ==> shrinks(final(self)@, old(self)@),
    {
        proof {
            lemma_consume_progress(self@);
        }
        let mut current = self.tokenizer.next()?;
        std::mem::swap(&mut current, &mut self.lookahead);
        Ok(current)
    }

    /// Whether the token that is read next is an opening parenthesis.
    fn at_open_parenthesis(&self) -> (r: bool)
        ensures
            r == (self@.lookahead matches Some(TokenView::OpenParenthesis(_))),
    {
        match &self.lookahead {
            Some(Token::OpenParenthesis(_)) => true,
            _ => false,
        }
    }

    /// Whether the token that is read next is a closing parenthesis.
    fn at_close_parenthesis(&self) -> (r: bool)
        ensures
            r == (self@.lookahead matches Some(TokenView::CloseParenthesis(_))),
    {
        match &self.lookahead {
            Some(Token::CloseParenthesis(_)) => true,
            _ => false,
        }
    }

    /// Reads an expression.
    pub(super) fn expression(&mut self) -> (r: Result<Expression, SyntaxError>)
        requires
            old(self)@.tokenizer.wf(),
        ensures
            (outcome(r), final(self)@) == expression(old(self)@),
            final(self)@.follows(old(self)@),
        decreases weight(old(self)@), 1int,
    {
        let token = self.consume()?;
        match token {
            Some(Token::BinaryOperator(_, operator)) => {
                let operand = self.consume()?;
                let left = match operand {
                    Some(Token::NumberLiteral(_, value)) => Expression::NumberLiteral(value),
                    Some(Token::Symbol(_, name)) => Expression::Symbol(name),
                    other => {
                        return Err(self.token_error(&other, "Syntax error"));
                    },
                };
                let ghost first = left@;
                let right = self.expression()?;
                let combined = Expression::BinaryOperation(
                    operator,
                    Box::new(left),
                    Box::new(right),
                );
                assert(combined@ == ExpressionView::BinaryOperation(
                    operator,
                    Box::new(first),
                    Box::new(right@),
                ));
                Ok(combined)
            },
            Some(Token::NumberLiteral(_, value)) => Ok(Expression::NumberLiteral(value)),
            Some(Token::StringLiteral(_, text)) => {
                let mut label = String::from_str("strltr.");
                push_decimal(&mut label, self.string_literals.len() as u64);
                let ghost known = self@.string_literals;
                self.string_literals.push((label.clone(), text.clone()));
                proof {
                    assert(self@.string_literals =~= known.push((label@, text@)));
                }
                Ok(Expression::StringLiteral(label, text))
            },
            Some(Token::Symbol(_, name)) => {
                if self.at_open_parenthesis() {
                    let arguments = self.argument_list_call()?;
                    proof {
                        lemma_call_view(name, Some(arguments));
                    }
                    Ok(Expression::CallStatement(name, Some(arguments)))
                } else {
                    Ok(Expression::Symbol(name))
                }
            },
            other => Err(self.token_error(&other, "Syntax error")),
        }
    }

    /// Reads the parenthesized arguments of a call.
    pub(super) fn argument_list_call(&mut self) -> (r: Result<Vec<Expression>, SyntaxError>)
        requires
            old(self)@.tokenizer.wf(),
        ensures
            (outcome(r), final(self)@) == argument_list_call(old(self)@),
            final(self)@.follows(old(self)@),
        decreases weight(old(self)@), 3int,
    {
        let token = self.consume()?;
        match token {
            Some(Token::OpenParenthesis(_)) => {},
            other => {
                return Err(self.token_error(&other, "Syntax error"));
            },
        }
        let mut arguments: Vec<Expression> = Vec::new();
        let ghost goal = argument_list_call(old(self)@);
        assert(arguments.deep_view() =~= Seq::<ExpressionView>::empty());
        loop
            invariant
                self@.tokenizer.wf(),
                self@.tokenizer.file == old(self)@.tokenizer.file,
                shrinks(self@, old(self)@),
                call_arguments(self@, arguments.deep_view()) == goal,
                goal == argument_list_call(old(self)@),
            decreases weight(self@),
        {
            if self.at_close_parenthesis() {
                return Ok(arguments);
            }
            let ghost collected = arguments.deep_view();
            let argument = self.expression()?;
            let token = self.consume()?;
            match token {
                Some(Token::Comma(_)) => {
                    arguments.push(argument);
                    proof {
                        assert(arguments.deep_view() =~= collected.push(argument@));
                    }
                },
                Some(Token::CloseParenthesis(_)) => {
                    arguments.push(argument);
                    proof {
                        assert(arguments.deep_view() =~= collected.push(argument@));
                    }
                    return Ok(arguments);
                },
                other => {
                    return Err(self.token_error(&other, "Syntax error"));
                },
            }
        }
    }

    /// Whether the token that is read next is an equals sign.
    fn at_equal(&self) -> (r: bool)
        ensures
            r == (self@.lookahead matches Some(TokenView::Equal(_))),
    {
        match &self.lookahead {
            Some(Token::Equal(_)) => true,
            _ => false,
        }
    }

    /// Whether the token that is read next is a closing bracket.
    fn at_close_bracket(&self) -> (r: bool)
        ensures
            r == (self@.lookahead matches Some(TokenView::CloseBracket(_))),
    {
        match &self.lookahead {
            Some(Token::CloseBracket(_)) => true,
            _ => false,
        }
    }

    /// Whether the token that is read next is a name.
    fn at_symbol(&self) -> (r: bool)
        ensures
            r == (self@.lookahead matches Some(TokenView::Symbol(_, _))),
    {
        match &self.lookahead {
            Some(Token::Symbol(_, _)) => true,
            _ => false,
        }
    }

    /// Reads a statement.
    pub(super) fn statement(&mut self) -> (r: Result<Statement, SyntaxError>)
        requires
            old(self)@.tokenizer.wf(),
        ensures
            (outcome(r), final(self)@) == statement(old(self)@),
            final(self)@.follows(old(self)@),
    {
        proof {
            reveal(statement);
        }
        let token = self.consume()?;
        match token {
            Some(Token::Symbol(position, name)) => {
                if self.at_equal() {
                    self.consume()?;
                    let value = self.expression()?;
                    Ok(Statement::AssignStatement { symbol_name: name, expression: value })
                } else if self.at_open_parenthesis() {
                    let arguments = self.argument_list_call()?;
                    Ok(Statement::CallStatement { function_name: name, arguments: Some(arguments) })
                } else {
                    Err(error_at(position, "Syntax error"))
                }
            },
            Some(Token::Return(_)) => {
                let value = self.expression()?;
                Ok(Statement::ReturnStatement { return_value: value })
            },
            other => Err(self.token_error(&other, "Syntax error")),
        }
    }

    /// Reads a function body.
    pub(super) fn function_body(&mut self) -> (r: Result<Vec<Statement>, SyntaxError>)
        requires
            old(self)@.tokenizer.wf(),
        ensures
            (outcome(r), final(self)@) == function_body(old(self)@),
            final(self)@.follows(old(self)@),
    {
        proof {
            reveal(function_body);
        }
        let token = self.consume()?;
        let open = match token {
            Some(Token::OpenBracket(open)) => open,
            other => {
                return Err(self.token_error(&other, "Syntax error"));
            },
        };
        let mut statements: Vec<Statement> = Vec::new();
        let ghost goal = function_body(old(self)@);
        assert(statements.deep_view() =~= Seq::<StatementView>::empty());
        loop
            invariant
                self@.tokenizer.wf(),
                self@.tokenizer.file == old(self)@.tokenizer.file,
                0 <= weight(self@) <= weight(old(self)@),
                body_statements(self@, open@, statements.deep_view()) == goal,
                goal == function_body(old(self)@),
            decreases weight(self@),
        {
            if self.at_close_bracket() {
                self.consume()?;
                return Ok(statements);
            }
            let ghost collected = statements.deep_view();
            let found = self.statement()?;
            match self.consume()? {
                Some(Token::Semicolon(_)) => {
                    statements.push(found);
                    proof {
                        assert(statements.deep_view() =~= collected.push(found@));
                    }
                },
                _ => {
                    return Err(error_at(open, "Syntax error"));
                },
            }
        }
    }

    /// Reads the argument list of a declaration.
    pub(super) fn argument_list_declaration(&mut self) -> (r: Result<Vec<Argument>, SyntaxError>)
        requires
            old(self)@.tokenizer.wf(),
        ensures
            (outcome(r), final(self)@) == argument_list_declaration(old(self)@),
            final(self)@.follows(old(self)@),
    {
        proof {
            reveal(argument_list_declaration);
        }
        let token = self.consume()?;
        let open = match token {
            Some(Token::OpenParenthesis(open)) => open,
            other => {
                return Err(
                    self.token_error(
                        &other,
                        "Unexpected token at function's argument list declaration",
                    ),
                );
            },
        };
        let mut arguments: Vec<Argument> = Vec::new();
        assert(arguments.deep_view() =~= Seq::<Seq<char>>::empty());
        if self.at_close_parenthesis() {
            self.consume()?;
            return Ok(arguments);
        }
        if !self.at_symbol() {
            return Err(
                error_at(open, "Unexpected token at function's close argument list declaration"),
            );
        }
        let ghost goal = argument_list_declaration(old(self)@);
        loop
            invariant
                self@.tokenizer.wf(),
                self@.tokenizer.file == old(self)@.tokenizer.file,
                0 <= weight(self@) <= weight(old(self)@),
                declared_arguments(self@, arguments.deep_view()) == goal,
                goal == argument_list_declaration(old(self)@),
            decreases weight(self@),
        {
            let ghost collected = arguments.deep_view();
            let name = match self.consume()? {
                Some(Token::Symbol(_, name)) => name,
                _ => {
                    return Ok(arguments);
                },
            };
            let token = self.consume()?;
            match token {
                Some(Token::Comma(_)) => {
                    arguments.push(Argument { name });
                    proof {
                        assert(arguments.deep_view() =~= collected.push(name@));
                    }
                },
                Some(Token::CloseParenthesis(_)) => {
                    arguments.push(Argument { name });
                    proof {
                        assert(arguments.deep_view() =~= collected.push(name@));
                    }
                    return Ok(arguments);
                },
                other => {
                    return Err(
                        self.token_error(&other, "Unexpected token in argument list declaration"),
                    );
                },
            }
        }
    }

    /// Reads a function declaration.
    pub(super) fn function(&mut self) -> (r: Result<FunctionDeclaration, SyntaxError>)
        requires
            old(self)@.tokenizer.wf(),
        ensures
            (outcome(r), final(self)@) == function(old(self)@),
            final(self)@.follows(old(self)@),
            r is Ok ==> shrinks(final(self)@, old(self)@),
    {
        proof {
            reveal(function);
        }
        let token = self.consume()?;
        let (position, name) = match token {
            Some(Token::Symbol(position, name)) => (position, name),
            other => {
                return Err(self.token_error(&other, "Unexpected token at function declaration"));
            },
        };
        match self.consume()? {
            Some(Token::Colon(_)) => {},
            _ => {
                let place = Position {
                    file: position.file,
                    line: position.line,
                    column: position.column.saturating_add(name.as_str().as_bytes().len()),
                };
                return Err(error_at(place, "Missing token at function declaration"));
            },
        }
        let arguments = self.argument_list_declaration()?;
        let statements = self.function_body()?;
        Ok(FunctionDeclaration { function_name: name, arguments, statements })
    }

    /// Whether one of `functions` is called `main`.
    fn has_main(functions: &Vec<FunctionDeclaration>) -> (r: bool)
        ensures
            r == has_main(functions.deep_view()),
    {
        let main = String::from_str("main");
        let mut i: usize = 0;
        while i < functions.len()
            invariant
                i <= functions.len(),
                main@ == "main"@,
                forall|j: int|
                    0 <= j < i ==> (#[trigger] functions.deep_view()[j]).function_name != "main"@,
            decreases functions.len() - i,
        {
            if functions[i].function_name == main {
                assert(functions.deep_view()[i as int].function_name == "main"@);
                return true;
            }
            i += 1;
        }
        false
    }

    /// Reads function declarations up to the end of the file and checks
    /// that there is a `main` among them.
    pub(super) fn program(&mut self) -> (r: Result<Program, SyntaxError>)
        requires
            old(self)@.tokenizer.wf(),
        ensures
            (outcome(r), final(self)@) == program(old(self)@),
            final(self)@.follows(old(self)@),
    {
        let mut functions: Vec<FunctionDeclaration> = Vec::new();
        let ghost goal = functions_from(old(self)@, Seq::empty());
        assert(functions.deep_view() =~= Seq::<FunctionDeclarationView>::empty());
        loop
            invariant_except_break
                functions_from(self@, functions.deep_view()) == goal,
            invariant
                self@.tokenizer.wf(),
                self@.tokenizer.file == old(self)@.tokenizer.file,
                0 <= weight(self@) <= weight(old(self)@),
                goal == functions_from(old(self)@, Seq::empty()),
            ensures
                goal == (Ok::<Seq<FunctionDeclarationView>, crate::ezlang::SyntaxErrorView>(
                    functions.deep_view(),
                ), self@),
            decreases weight(self@),
        {
            match &self.lookahead {
                None => {
                    break ;
                },
                Some(Token::EOF(_)) => {
                    self.consume()?;
                    break ;
                },
                Some(_) => {},
            }
            let ghost collected = functions.deep_view();
            let found = self.function()?;
            functions.push(found);
            proof {
                assert(functions.deep_view() =~= collected.push(found@));
            }
        }
        if functions.len() < 1 {
            let place = Position { file: self.tokenizer.file().clone(), line: 0, column: 0 };
            return Err(error_at(place, "Program cannot be empty"));
        }
        if !Self::has_main(&functions) {
            let place = Position { file: self.tokenizer.file().clone(), line: 0, column: 0 };
            return Err(error_at(place, "No entry point: Missing main function"));
        }
        let mut string_literals: Vec<(String, String)> = Vec::new();
        let mut i: usize = 0;
        while i < self.string_literals.len()
            invariant
                i <= self.string_literals.len(),
                string_literals.deep_view() == self.string_literals.deep_view().take(i as int),
            decreases self.string_literals.len() - i,
        {
            let ghost copied = string_literals.deep_view();
            let pair = &self.string_literals[i];
            string_literals.push((pair.0.clone(), pair.1.clone()));
            proof {
                assert(string_literals.deep_view() =~= copied.push((pair.0@, pair.1@)));
                assert(string_literals.deep_view() =~= self.string_literals.deep_view().take(
                    i as int + 1,
                ));
            }
            i += 1;
        }
        assert(string_literals.deep_view() =~= self.string_literals.deep_view());
        Ok(Program { functions, string_literals })
    }

    /// Parses the source into a program.
    pub fn parse(&mut self) -> (r: Result<Program, SyntaxError>)
        requires
            old(self)@.tokenizer.wf(),
        ensures
            (outcome(r), final(self)@) == parse(old(self)@),
            final(self)@.tokenizer.wf(),
    {
        proof {
            lemma_consume_progress(self@);
        }
        self.lookahead = self.tokenizer.next()?;
        self.program()
    }
}

} // verus!
