//! Reading declarations: argument lists, statements, function bodies and
//! whole programs.

use vstd::prelude::*;
use vstd::string::*;
use crate::lexer::{TokenKind, TokenType};
use crate::parser::grammar::{
    has_main, parse_arg, parse_arg_list, parse_args, parse_assign, parse_declared_arg,
    parse_expression_statement, parse_function, parse_functions, parse_program_from, parse_scope,
    parse_statement, parse_statements, parse_var_declaration, Failure, LOCAL_SIZE,
};
use crate::parser::{
    reports, Expression, Function, FunctionView, LocalStack, LocalView, Parser, Program, Scope,
    Statement, StatementView, SyntaxError, SyntaxErrorKind,
};

verus! {

impl Parser {
    /// Reads one name of an argument list and the comma behind it.
    pub(super) fn next_arg(&mut self) -> (r: Result<Option<(String, usize)>, SyntaxError>)
        requires
            old(self).wf(),
        ensures
            final(self).parsed(old(self), r, parse_arg(old(self).source(), old(self).cursor())),
    {
        proof {
            reveal(parse_arg);
        }
        let token = match self.lookahead() {
            Some(token) => token,
            None => {
                return Err(
                    self.error(SyntaxErrorKind::ExpectedRightPar, self.lexer.file_position()),
                );
            },
        };
        match &token.token_type {
            TokenType::Identifier(name) => {
                let name = name.clone();
                self.next_token();
                let after = match self.lookahead() {
                    Some(after) => after,
                    None => {
                        return Err(
                            self.error(
                                SyntaxErrorKind::ExpectedRightPar,
                                self.lexer.file_position(),
                            ),
                        );
                    },
                };
                match after.token_type {
                    TokenType::Comma => {
                        self.next_token();
                    },
                    TokenType::RightPar => {},
                    TokenType::Identifier(_) => {
                        return Err(self.error(SyntaxErrorKind::MissingComma, after.position));
                    },
                    _ => {
                        return Err(self.error(SyntaxErrorKind::UnexpectedToken, after.position));
                    },
                }
                Ok(Some((name, LOCAL_SIZE)))
            },
            TokenType::RightPar => match self.current() {
                Some(before) => match before.token_type {
                    TokenType::Identifier(_) | TokenType::LeftPar => Ok(None),
                    _ => Err(self.error(SyntaxErrorKind::UnexpectedToken, before.position)),
                },
                None => Err(self.error(SyntaxErrorKind::UnexpectedToken, token.position)),
            },
            _ => Err(self.error(SyntaxErrorKind::ExpectedRightPar, token.position)),
        }
    }

    /// Reads one name of an argument list and declares it in `locals`.
    pub(super) fn next_declared_arg(&mut self, locals: &mut LocalStack) -> (r: Result<
        Option<usize>,
        SyntaxError,
    >)
        requires
            old(self).wf(),
            old(locals).wf(),
        ensures
            final(self).same_input(old(self)),
            final(locals).wf(),
            match parse_declared_arg(old(self).source(), old(self).cursor(), old(locals)@) {
                Ok((None, next)) => r is Ok && r->Ok_0 is None && final(locals)@ == old(locals)@
                    && final(self).cursor() == next && next == old(self).cursor(),
                Ok((Some((declared, index)), next)) => r is Ok && r->Ok_0 == Some(index)
                    && final(locals)@ == declared && final(self).cursor() == next
                    && next > old(self).cursor(),
                Err(failure) => r is Err && reports(r->Err_0, failure, final(self).file()),
            },
    {
        proof {
            reveal(parse_declared_arg);
            reveal(parse_arg);
        }
        let position = self.here();
        match self.next_arg()? {
            Some((label, size)) => {
                if locals.get_size() > usize::MAX - size {
                    return Err(self.error(SyntaxErrorKind::TooManyLocals, position));
                }
                Ok(Some(locals.insert(label, size)))
            },
            None => Ok(None),
        }
    }

    /// Reads the argument list of a declaration and declares its names in
    /// `locals`; returns their indices in the order they stand.
    pub(super) fn next_args(&mut self, locals: &mut LocalStack) -> (r: Result<Vec<usize>, SyntaxError>)
        requires
            old(self).wf(),
            old(locals).wf(),
        ensures
            final(self).same_input(old(self)),
            final(locals).wf(),
            match parse_args(old(self).source(), old(self).cursor(), old(locals)@) {
                Ok(((declared, arguments), next)) => r is Ok && r->Ok_0@ == arguments
                    && final(locals)@ == declared && final(self).cursor() == next,
                Err(failure) => r is Err && reports(r->Err_0, failure, final(self).file()),
            },
            r is Ok ==> final(self).cursor() > old(self).cursor(),
    {
        proof {
            reveal(parse_args);
        }
        self.next_l_par()?;
        let mut arguments: Vec<usize> = Vec::new();
        let ghost first = self.cursor();
        let ghost goal = parse_arg_list(old(self).source(), first, old(locals)@, Seq::empty());
        loop
            invariant_except_break
                parse_arg_list(self.source(), self.cursor(), locals@, arguments@) == goal,
            invariant
                self.same_input(old(self)),
                locals.wf(),
                first == old(self).cursor() + 1,
                first <= self.cursor(),
                old(self).source().lookahead(old(self).cursor()) matches Some(token)
                    && token.kind == TokenKind::LeftPar,
                goal == parse_arg_list(old(self).source(), first, old(locals)@, Seq::empty()),
            ensures
                goal == Ok::<((Seq<LocalView>, Seq<usize>), int), Failure>(
                    ((locals@, arguments@), self.cursor()),
                ),
            decreases self.tokens.len() - self.position,
        {
            proof {
                reveal(parse_args);
            }
            match self.next_declared_arg(locals)? {
                Some(index) => {
                    arguments.push(index);
                },
                None => {
                    break ;
                },
            }
        }
        self.next_r_par()?;
        Ok(arguments)
    }


    /// Reads an expression and the semicolon behind it.
    pub(super) fn next_expression_statement(&mut self, locals: &LocalStack) -> (r: Result<
        Expression,
        SyntaxError,
    >)
        requires
            old(self).wf(),
        ensures
            final(self).parsed(
                old(self),
                r,
                parse_expression_statement(
                    old(self).source(),
                    old(self).cursor(),
                    locals@,
                    old(self).declared(),
                ),
            ),
            r is Ok ==> final(self).cursor() > old(self).cursor(),
    {
        proof {
            reveal(parse_expression_statement);
        }
        let value = self.next_expression(locals, false)?;
        self.next_semicolon()?;
        Ok(value)
    }

    /// Reads the rest of a `return` statement, behind the keyword.
    pub(super) fn next_return(&mut self, locals: &LocalStack) -> (r: Result<
        Statement,
        SyntaxError,
    >)
        requires
            old(self).wf(),
        ensures
            final(self).same_input(old(self)),
            match parse_expression_statement(
                old(self).source(),
                old(self).cursor(),
                locals@,
                old(self).declared(),
            ) {
                Ok((value, next)) => r is Ok && r->Ok_0@ == StatementView::Return(value)
                    && final(self).cursor() == next && next > old(self).cursor(),
                Err(failure) => r is Err && reports(r->Err_0, failure, final(self).file()),
            },
    {
        let value = self.next_expression_statement(locals)?;
        Ok(Statement::Return(value))
    }

    /// Reads `var name = expression;` and declares the name in `locals`.
    pub(super) fn next_var_declaration(&mut self, locals: &mut LocalStack) -> (r: Result<
        Statement,
        SyntaxError,
    >)
        requires
            old(self).wf(),
            old(locals).wf(),
        ensures
            final(self).same_input(old(self)),
            final(locals).wf(),
            match parse_var_declaration(
                old(self).source(),
                old(self).cursor(),
                old(locals)@,
                old(self).declared(),
            ) {
                Ok(((statement, declared), next)) => r is Ok && r->Ok_0@ == statement
                    && final(locals)@ == declared && final(self).cursor() == next
                    && next > old(self).cursor(),
                Err(failure) => r is Err && reports(r->Err_0, failure, final(self).file()),
            },
    {
        proof {
            reveal(parse_var_declaration);
        }
        self.next_var()?;
        let token = match self.lookahead() {
            Some(token) => token,
            None => {
                return Err(
                    self.error(SyntaxErrorKind::ExpectedIdentifier, self.lexer.file_position()),
                );
            },
        };
        let position = token.position;
        let name = match &token.token_type {
            TokenType::Identifier(name) => name.clone(),
            _ => {
                return Err(self.error(SyntaxErrorKind::ExpectedIdentifier, position));
            },
        };
        self.next_token();
        self.next_equals()?;
        if locals.find(name.as_str()).is_some() {
            return Err(self.error(SyntaxErrorKind::DuplicatedVariable, position));
        }
        if locals.get_size() > usize::MAX - LOCAL_SIZE {
            return Err(self.error(SyntaxErrorKind::TooManyLocals, position));
        }
        let index = locals.insert(name, LOCAL_SIZE);
        let value = self.next_expression_statement(locals)?;
        Ok(Statement::Assign(index, value))
    }

    /// Reads `name = expression;` for a local that exists.
    pub(super) fn next_assign(&mut self, locals: &LocalStack) -> (r: Result<
        Statement,
        SyntaxError,
    >)
        requires
            old(self).wf(),
        ensures
            final(self).parsed(
                old(self),
                r,
                parse_assign(
                    old(self).source(),
                    old(self).cursor(),
                    locals@,
                    old(self).declared(),
                ),
            ),
            r is Ok ==> final(self).cursor() > old(self).cursor(),
    {
        proof {
            reveal(parse_assign);
        }
        let token = match self.lookahead() {
            Some(token) => token,
            None => {
                return Err(
                    self.error(SyntaxErrorKind::ExpectedIdentifier, self.lexer.file_position()),
                );
            },
        };
        let position = token.position;
        let name = match &token.token_type {
            TokenType::Identifier(name) => name.clone(),
            _ => {
                return Err(self.error(SyntaxErrorKind::ExpectedIdentifier, position));
            },
        };
        self.next_token();
        self.next_equals()?;
        let index = match locals.find(name.as_str()) {
            Some(index) => index,
            None => {
                return Err(self.error(SyntaxErrorKind::UndeclaredVariable, position));
            },
        };
        let value = self.next_expression_statement(locals)?;
        Ok(Statement::Assign(index, value))
    }

    /// Reads a call that stands as a statement, and its semicolon.
    pub(super) fn next_call_statement(&mut self, locals: &LocalStack) -> (r: Result<
        Statement,
        SyntaxError,
    >)
        requires
            old(self).wf(),
        ensures
            final(self).same_input(old(self)),
            r is Ok ==> final(self).cursor() > old(self).cursor(),
            match parse_statement(
                old(self).source(),
                old(self).cursor(),
                locals@,
                old(self).declared(),
            ) {
                Ok((found, next)) => old(self).source().lookahead(old(self).cursor()) matches Some(
                    token,
                ) && token.kind is Call ==> r is Ok && found == Some((r->Ok_0@, locals@))
                    && final(self).cursor() == next,
                Err(failure) => old(self).source().lookahead(old(self).cursor()) matches Some(
                    token,
                ) && token.kind is Call ==> r is Err && reports(
                    r->Err_0,
                    failure,
                    final(self).file(),
                ),
            },
    {
        proof {
            reveal(parse_statement);
        }
        let call = self.next_call(locals)?;
        self.next_semicolon()?;
        Ok(Statement::Call(call))
    }

    /// Reads the statement that stands next, or nothing at the closing
    /// brace.
    pub(super) fn next_statement(&mut self, locals: &mut LocalStack) -> (r: Result<
        Option<Statement>,
        SyntaxError,
    >)
        requires
            old(self).wf(),
            old(locals).wf(),
        ensures
            final(self).same_input(old(self)),
            final(locals).wf(),
            match parse_statement(
                old(self).source(),
                old(self).cursor(),
                old(locals)@,
                old(self).declared(),
            ) {
                Ok((None, next)) => r is Ok && r->Ok_0 is None && final(locals)@ == old(locals)@
                    && final(self).cursor() == next && next == old(self).cursor(),
                Ok((Some((statement, declared)), next)) => r is Ok && r->Ok_0 is Some
                    && r->Ok_0->0@ == statement && final(locals)@ == declared
                    && final(self).cursor() == next && next > old(self).cursor(),
                Err(failure) => r is Err && reports(r->Err_0, failure, final(self).file()),
            },
    {
        proof {
            reveal(parse_statement);
        }
        let token = match self.lookahead() {
            Some(token) => token,
            None => {
                return Err(
                    self.error(SyntaxErrorKind::ExpectedStatement, self.lexer.file_position()),
                );
            },
        };
        let position = token.position;
        match token.token_type {
            TokenType::Return => {
                self.next_token();
                let statement = self.next_return(locals)?;
                Ok(Some(statement))
            },
            TokenType::Var => {
                let statement = self.next_var_declaration(locals)?;
                Ok(Some(statement))
            },
            TokenType::Identifier(_) => {
                let statement = self.next_assign(locals)?;
                Ok(Some(statement))
            },
            TokenType::Call => {
                let statement = self.next_call_statement(locals)?;
                Ok(Some(statement))
            },
            TokenType::RightBrace => Ok(None),
            _ => Err(self.error(SyntaxErrorKind::UnexpectedToken, position)),
        }
    }

    /// Reads a function body: `{`, statements, `}`.
    pub(super) fn next_scope(&mut self, locals: &mut LocalStack) -> (r: Result<Scope, SyntaxError>)
        requires
            old(self).wf(),
            old(locals).wf(),
        ensures
            final(self).same_input(old(self)),
            final(locals).wf(),
            match parse_scope(
                old(self).source(),
                old(self).cursor(),
                old(locals)@,
                old(self).declared(),
            ) {
                Ok(((body, declared), next)) => r is Ok && r->Ok_0@ == body && final(locals)@
                    == declared && final(self).cursor() == next && next > old(self).cursor(),
                Err(failure) => r is Err && reports(r->Err_0, failure, final(self).file()),
            },
    {
        proof {
            reveal(parse_scope);
        }
        self.next_l_brace()?;
        let mut statements: Vec<Statement> = Vec::new();
        let ghost first = self.cursor();
        let ghost goal = parse_statements(
            old(self).source(),
            first,
            old(locals)@,
            old(self).declared(),
            Seq::empty(),
        );
        assert(statements.deep_view() =~= Seq::<StatementView>::empty());
        loop
            invariant_except_break
                parse_statements(
                    self.source(),
                    self.cursor(),
                    locals@,
                    self.declared(),
                    statements.deep_view(),
                ) == goal,
            invariant
                self.same_input(old(self)),
                locals.wf(),
                first == old(self).cursor() + 1,
                first <= self.cursor(),
                old(self).source().lookahead(old(self).cursor()) matches Some(token)
                    && token.kind == TokenKind::LeftBrace,
                goal == parse_statements(
                    old(self).source(),
                    first,
                    old(locals)@,
                    old(self).declared(),
                    Seq::empty(),
                ),
            ensures
                goal == Ok::<((Seq<StatementView>, Seq<LocalView>), int), Failure>(
                    ((statements.deep_view(), locals@), self.cursor()),
                ),
            decreases self.tokens.len() - self.position,
        {
            proof {
                reveal(parse_scope);
            }
            let ghost collected = statements.deep_view();
            match self.next_statement(locals)? {
                Some(statement) => {
                    statements.push(statement);
                    proof {
                        assert(statements.deep_view() =~= collected.push(statement@));
                    }
                },
                None => {
                    break ;
                },
            }
        }
        self.next_r_brace()?;
        Ok(Scope { statements })
    }

    /// Reads a function declaration.
    pub(super) fn next_function(&mut self) -> (r: Result<Function, SyntaxError>)
        requires
            old(self).wf(),
        ensures
            final(self).parsed(
                old(self),
                r,
                parse_function(old(self).source(), old(self).cursor(), old(self).declared()),
            ),
            r is Ok ==> final(self).cursor() > old(self).cursor(),
    {
        proof {
            reveal(parse_function);
        }
        self.next_fn()?;
        let token = match self.lookahead() {
            Some(token) => token,
            None => {
                return Err(
                    self.error(
                        SyntaxErrorKind::ExpectedFunctionName,
                        self.lexer.file_position(),
                    ),
                );
            },
        };
        let position = token.position;
        let name = match &token.token_type {
            TokenType::Identifier(name) => name.clone(),
            _ => {
                return Err(self.error(SyntaxErrorKind::ExpectedFunctionName, position));
            },
        };
        self.next_token();
        self.next_colon()?;
        let mut locals = LocalStack::new();
        let arguments = self.next_args(&mut locals)?;
        let body = self.next_scope(&mut locals)?;
        Ok(Function { name, locals, arguments, body })
    }

    /// Whether one of the functions parsed so far is called `main`.
    pub(super) fn has_main(&self) -> (r: bool)
        ensures
            r == has_main(self.declared()),
    {
        let main = String::from_str("main");
        let mut i: usize = 0;
        while i < self.functions.len()
            invariant
                i <= self.functions.len(),
                main@ == "main"@,
                forall|j: int| 0 <= j < i ==> (#[trigger] self.declared()[j]).name != "main"@,
            decreases self.functions.len() - i,
        {
            if self.functions[i].name == main {
                assert(self.declared()[i as int].name == "main"@);
                return true;
            }
            i += 1;
        }
        false
    }

    /// Reads function declarations up to the end of the tokens and hands
    /// the program out; the parser then knows no function any more.
    pub(super) fn next_program(&mut self) -> (r: Result<Program, SyntaxError>)
        requires
            old(self).wf(),
        ensures
            final(self).wf(),
            final(self).lexer() == old(self).lexer(),
            final(self).tokens() == old(self).tokens(),
            match parse_program_from(
                old(self).source(),
                old(self).cursor(),
                old(self).declared(),
            ) {
                Ok(functions) => r is Ok && r->Ok_0@ == functions && final(self).cursor()
                    == final(self).tokens().len() && final(self).declared() == Seq::<
                    FunctionView,
                >::empty(),
                Err(failure) => r is Err && reports(r->Err_0, failure, final(self).file()),
            },
    {
        let ghost goal = parse_functions(
            old(self).source(),
            old(self).cursor(),
            old(self).declared(),
        );
        loop
            invariant_except_break
                parse_functions(self.source(), self.cursor(), self.declared()) == goal,
            invariant
                self.wf(),
                self.lexer() == old(self).lexer(),
                self.tokens() == old(self).tokens(),
                goal == parse_functions(
                    old(self).source(),
                    old(self).cursor(),
                    old(self).declared(),
                ),
            ensures
                goal == Ok::<Seq<FunctionView>, Failure>(self.declared()),
                self.cursor() == self.tokens().len(),
            decreases self.tokens.len() - self.position,
        {
            let token = match self.lookahead() {
                Some(token) => token,
                None => {
                    break ;
                },
            };
            let position = token.position;
            match token.token_type {
                TokenType::Function => {
                    let ghost known = self.declared();
                    let function = self.next_function()?;
                    self.functions.push(function);
                    proof {
                        assert(self.declared() =~= known.push(function@));
                    }
                },
                _ => {
                    return Err(self.error(SyntaxErrorKind::UnexpectedToken, position));
                },
            }
        }
        if self.functions.len() == 0 {
            return Err(self.error(SyntaxErrorKind::EmptyProgram, self.lexer.file_position()));
        }
        if !self.has_main() {
            return Err(self.error(SyntaxErrorKind::MissingMain, self.lexer.file_position()));
        }
        let mut functions: Vec<Function> = Vec::new();
        std::mem::swap(&mut functions, &mut self.functions);
        assert(self.declared() =~= Seq::<FunctionView>::empty());
        Ok(Program { functions })
    }
}

} // verus!
