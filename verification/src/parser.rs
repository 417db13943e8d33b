//! The parser: turns tokens into a program whose names are resolved to
//! indices, keeping one table of local variables per function.

use vstd::prelude::*;
use vstd::string::*;
use crate::lexer::{
    position_at, tokens_from, tokens_then, BinaryOperator, LexError, LexErrorKind, Lexer, Position,
    Token, TokenKind, TokenType, TokenView,
};
use crate::parser::grammar::{has_main, parse_program, Failure, Parsed, Source};
use crate::text::{located, located_text};

pub mod declarations;
pub mod expressions;
pub mod grammar;
pub mod laws;

verus! {

/// One local variable: how many bytes it takes, where its slot begins, and
/// its name.
#[derive(Debug, Clone)]
pub struct Local {
    pub size: usize,
    pub offset: usize,
    pub label: String,
}

/// The mathematical value of a [`Local`].
pub struct LocalView {
    pub size: usize,
    pub offset: usize,
    pub label: Seq<char>,
}

impl DeepView for Local {
    type V = LocalView;

    open spec fn deep_view(&self) -> LocalView {
        LocalView { size: self.size, offset: self.offset, label: self.label@ }
    }
}

impl View for Local {
    type V = LocalView;

    open spec fn view(&self) -> LocalView {
        self.deep_view()
    }
}

/// The bytes that a table of locals takes: where its last slot ends.
pub open spec fn footprint(locals: Seq<LocalView>) -> int {
    if locals.len() == 0 {
        0
    } else {
        locals.last().offset + locals.last().size
    }
}

/// The slots lie one behind the other without gaps: each begins where the
/// table before it ends, so the first begins at offset 0.
pub open spec fn slots_adjoin(locals: Seq<LocalView>) -> bool
    decreases locals.len(),
{
    locals.len() > 0 ==> slots_adjoin(locals.drop_last()) && locals.last().offset == footprint(
        locals.drop_last(),
    )
}

/// The invariant of a table of locals: its slots adjoin and the whole table
/// fits the machine's address range.
pub open spec fn slots_in_order(locals: Seq<LocalView>) -> bool {
    slots_adjoin(locals) && footprint(locals) <= usize::MAX
}

/// The index of the first local at or after `from` that is called `label`.
pub open spec fn find_local_from(locals: Seq<LocalView>, label: Seq<char>, from: int) -> Option<
    int,
>
    decreases locals.len() - from,
{
    if from < 0 || from >= locals.len() {
        None
    } else if locals[from].label == label {
        Some(from)
    } else {
        find_local_from(locals, label, from + 1)
    }
}

/// The index of the first local that is called `label`.
pub open spec fn find_local(locals: Seq<LocalView>, label: Seq<char>) -> Option<int> {
    find_local_from(locals, label, 0)
}

/// The table after `label` is declared with `size` bytes, and the index of
/// `label` in it. A name that the table holds already keeps its slot,
/// whatever `size` says, and the table stays as it is.
pub open spec fn declare_local(locals: Seq<LocalView>, label: Seq<char>, size: usize) -> (
    Seq<LocalView>,
    int,
) {
    match find_local(locals, label) {
        Some(index) => (locals, index),
        None => (
            locals.push(LocalView { size, offset: footprint(locals) as usize, label }),
            locals.len() as int,
        ),
    }
}

/// What `find_local_from` finds is the first match, and `None` means that
/// there is none.
pub proof fn lemma_find_local_from(locals: Seq<LocalView>, label: Seq<char>, from: int)
    requires
        0 <= from,
    ensures
        match find_local_from(locals, label, from) {
            Some(index) => from <= index < locals.len() && locals[index].label == label
                && forall|j: int| from <= j < index ==> (#[trigger] locals[j]).label != label,
            None => forall|j: int| from <= j < locals.len() ==> (#[trigger] locals[j]).label != label,
        },
    decreases locals.len() - from,
{
    if from < locals.len() && locals[from].label != label {
        lemma_find_local_from(locals, label, from + 1);
    }
}

/// A local that is called `label` and has no local of that name before it
/// is the one that `find_local` finds.
pub proof fn lemma_find_local_is_first(locals: Seq<LocalView>, label: Seq<char>, index: int)
    requires
        0 <= index < locals.len(),
        locals[index].label == label,
        forall|j: int| 0 <= j < index ==> (#[trigger] locals[j]).label != label,
    ensures
        find_local(locals, label) == Some(index),
{
    lemma_find_local_from(locals, label, 0);
}

/// Declaring a name is idempotent: a second declaration of the same name,
/// with whatever size, returns the index that the first returned and leaves
/// the table as the first left it.
pub proof fn lemma_declare_twice(
    locals: Seq<LocalView>,
    label: Seq<char>,
    size: usize,
    other_size: usize,
)
    ensures
        declare_local(declare_local(locals, label, size).0, label, other_size) == declare_local(
            locals,
            label,
            size,
        ),
{
    let (declared, index) = declare_local(locals, label, size);
    lemma_find_local_from(locals, label, 0);
    if find_local(locals, label) is None {
        lemma_find_local_is_first(declared, label, index);
    }
}

/// Declaring a name keeps the invariant of the table, keeps every slot
/// that was there, and lets the table grow by at most the new slot.
pub proof fn lemma_declare_keeps_order(locals: Seq<LocalView>, label: Seq<char>, size: usize)
    requires
        slots_in_order(locals),
        footprint(locals) + size <= usize::MAX,
    ensures
        slots_in_order(declare_local(locals, label, size).0),
        locals.is_prefix_of(declare_local(locals, label, size).0),
        0 <= declare_local(locals, label, size).1 < declare_local(locals, label, size).0.len(),
        footprint(declare_local(locals, label, size).0) <= footprint(locals) + size,
{
    let (declared, index) = declare_local(locals, label, size);
    lemma_find_local_from(locals, label, 0);
    if find_local(locals, label) is None {
        assert(declared.drop_last() =~= locals);
    }
}

/// Every slot of a table whose slots adjoin ends within the table.
pub proof fn lemma_slot_within(locals: Seq<LocalView>, i: int)
    requires
        slots_adjoin(locals),
        0 <= i < locals.len(),
    ensures
        locals[i].offset + locals[i].size <= footprint(locals),
        locals[i].offset <= footprint(locals),
    decreases locals.len(),
{
    if i < locals.len() - 1 {
        lemma_slot_within(locals.drop_last(), i);
    }
}

/// Offsets grow with the index: a slot ends before every later slot
/// begins, and the first slot begins at offset 0.
pub proof fn lemma_offsets_increase(locals: Seq<LocalView>, i: int, j: int)
    requires
        slots_adjoin(locals),
        0 <= i < j < locals.len(),
    ensures
        locals[i].offset + locals[i].size <= locals[j].offset,
        locals[0].offset == 0,
    decreases locals.len(),
{
    let before = locals.drop_last();
    if j < locals.len() - 1 {
        lemma_offsets_increase(before, i, j);
    } else {
        lemma_slot_within(before, i);
        if before.len() > 1 {
            lemma_offsets_increase(before, 0, before.len() - 1);
        } else {
            assert(before.drop_last().len() == 0);
        }
    }
}

/// The per-function symbol table: locals in the order they were declared.
#[derive(Debug, Clone)]
pub struct LocalStack {
    pub locals: Vec<Local>,
}

impl DeepView for LocalStack {
    type V = Seq<LocalView>;

    open spec fn deep_view(&self) -> Seq<LocalView> {
        self.locals.deep_view()
    }
}

impl View for LocalStack {
    type V = Seq<LocalView>;

    open spec fn view(&self) -> Seq<LocalView> {
        self.deep_view()
    }
}

impl LocalStack {
    /// The invariant of the table: see [`slots_in_order`].
    pub open spec fn wf(&self) -> bool {
        slots_in_order(self@)
    }

    pub fn new() -> (stack: Self)
        ensures
            stack@ == Seq::<LocalView>::empty(),
            stack.wf(),
    {
        let stack = Self { locals: Vec::new() };
        assert(stack@ =~= Seq::<LocalView>::empty());
        stack
    }

    /// Declares `label` with `size` bytes and returns its index. Declaring
    /// a name again returns the index it has and changes nothing.
    pub fn insert(&mut self, label: String, size: usize) -> (index: usize)
        requires
            old(self).wf(),
            footprint(old(self)@) + size <= usize::MAX,
        ensures
            final(self).wf(),
            (final(self)@, index as int) == declare_local(old(self)@, label@, size),
    {
        match self.find(label.as_str()) {
            Some(index) => index,
            None => {
                let offset = self.get_size();
                self.locals.push(Local { size, offset, label });
                proof {
                    let before = old(self)@;
                    let added = LocalView { size, offset: footprint(before) as usize, label: label@ };
                    assert(self@ =~= before.push(added));
                    assert(self@.drop_last() =~= before);
                }
                self.locals.len() - 1
            },
        }
    }

    /// The index of the local called `label`, if there is one.
    pub fn find(&self, label: &str) -> (found: Option<usize>)
        ensures
            match find_local(self@, label@) {
                Some(index) => found == Some(index as usize) && 0 <= index < self.locals.len(),
                None => found is None,
            },
    {
        let wanted = String::from_str(label);
        let mut i: usize = 0;
        while i < self.locals.len()
            invariant
                i <= self.locals.len(),
                wanted@ == label@,
                find_local(self@, label@) == find_local_from(self@, label@, i as int),
            decreases self.locals.len() - i,
        {
            if self.locals[i].label == wanted {
                return Some(i);
            }
            i += 1;
        }
        None
    }

    /// The local at `index`, if the table is that long.
    pub fn get(&self, index: usize) -> (local: Option<&Local>)
        ensures
            index < self.locals.len() ==> local == Some(&self.locals[index as int]),
            index >= self.locals.len() ==> local is None,
    {
        if index < self.locals.len() {
            Some(&self.locals[index])
        } else {
            None
        }
    }

    /// The bytes that the locals take together.
    pub fn get_size(&self) -> (size: usize)
        requires
            self.wf(),
        ensures
            size == footprint(self@),
    {
        if self.locals.len() == 0 {
            0
        } else {
            let last = &self.locals[self.locals.len() - 1];
            assert(self@.last() == last@);
            last.offset + last.size
        }
    }
}

/// A binary operation and its two operands.
#[derive(Debug)]
pub struct BinaryExpression {
    pub operator: BinaryOperator,
    pub left: Box<Expression>,
    pub right: Box<Expression>,
}

/// An expression. Locals and functions are named by their indices: a local
/// by its index in the table of the function around it, a function by its
/// index in the program.
#[derive(Debug)]
pub enum Expression {
    NumberLiteral(u64),
    Binary(BinaryExpression),
    Local(usize),
    Call(usize, Vec<Expression>),
}

/// The mathematical value of an [`Expression`].
pub enum ExpressionView {
    NumberLiteral(u64),
    Binary(BinaryOperator, Box<ExpressionView>, Box<ExpressionView>),
    Local(usize),
    Call(usize, Seq<ExpressionView>),
}

/// The mathematical value of `e`.
pub open spec fn expression_view(e: Expression) -> ExpressionView
    decreases e,
{
    match e {
        Expression::NumberLiteral(n) => ExpressionView::NumberLiteral(n),
        Expression::Binary(b) => ExpressionView::Binary(
            b.operator,
            Box::new(expression_view(*b.left)),
            Box::new(expression_view(*b.right)),
        ),
        Expression::Local(index) => ExpressionView::Local(index),
        Expression::Call(index, arguments) => ExpressionView::Call(
            index,
            Seq::new(
                arguments.len() as nat,
                |i: int|
                    if 0 <= i < arguments.len() {
                        expression_view(arguments[i])
                    } else {
                        ExpressionView::NumberLiteral(0)
                    },
            ),
        ),
    }
}

impl DeepView for Expression {
    type V = ExpressionView;

    open spec fn deep_view(&self) -> ExpressionView {
        expression_view(*self)
    }
}

impl View for Expression {
    type V = ExpressionView;

    open spec fn view(&self) -> ExpressionView {
        self.deep_view()
    }
}

/// The view of a call is the callee and the views of the arguments.
pub proof fn lemma_call_view(index: usize, arguments: Vec<Expression>)
    ensures
        Expression::Call(index, arguments)@ == ExpressionView::Call(
            index,
            arguments.deep_view(),
        ),
{
    let e = Expression::Call(index, arguments);
    assert(e@->Call_1 =~= arguments.deep_view());
}

/// A copy of `e`.
pub fn copy_expression(e: &Expression) -> (copy: Expression)
    ensures
        copy@ == e@,
    decreases e,
{
    match e {
        Expression::NumberLiteral(n) => Expression::NumberLiteral(*n),
        Expression::Local(index) => Expression::Local(*index),
        Expression::Binary(binary) => {
            let left = copy_expression(&binary.left);
            let right = copy_expression(&binary.right);
            Expression::Binary(
                BinaryExpression {
                    operator: binary.operator,
                    left: Box::new(left),
                    right: Box::new(right),
                },
            )
        },
        Expression::Call(index, arguments) => {
            let mut copies: Vec<Expression> = Vec::new();
            let mut i: usize = 0;
            assert(copies.deep_view() =~= arguments.deep_view().take(0));
            while i < arguments.len()
                invariant
                    i <= arguments.len(),
                    *e == Expression::Call(*index, *arguments),
                    copies.deep_view() == arguments.deep_view().take(i as int),
                decreases arguments.len() - i,
            {
                let ghost copied = copies.deep_view();
                proof {
                    assert(decreases_to!(*e => e->Call_1));
                }
                let argument = copy_expression(&arguments[i]);
                copies.push(argument);
                proof {
                    assert(copies.deep_view() =~= copied.push(argument@));
                    assert(copies.deep_view() =~= arguments.deep_view().take(i as int + 1));
                }
                i += 1;
            }
            proof {
                assert(copies.deep_view() =~= arguments.deep_view());
                lemma_call_view(*index, *arguments);
                lemma_call_view(*index, copies);
            }
            Expression::Call(*index, copies)
        },
    }
}

impl Clone for Expression {
    fn clone(&self) -> (copy: Self)
        ensures
            copy@ == self@,
    {
        copy_expression(self)
    }
}

impl Clone for BinaryExpression {
    fn clone(&self) -> (copy: Self)
        ensures
            copy.operator == self.operator,
            copy.left@ == self.left@,
            copy.right@ == self.right@,
    {
        BinaryExpression {
            operator: self.operator,
            left: Box::new(copy_expression(&self.left)),
            right: Box::new(copy_expression(&self.right)),
        }
    }
}

/// A statement of a function body.
#[derive(Debug, Clone)]
pub enum Statement {
    /// Stores the value of the expression in the local with the index.
    Assign(usize, Expression),
    /// Leaves the function with the value of the expression.
    Return(Expression),
    /// Evaluates the call and drops what it returns.
    Call(Expression),
}

/// The mathematical value of a [`Statement`].
pub enum StatementView {
    Assign(usize, ExpressionView),
    Return(ExpressionView),
    Call(ExpressionView),
}

impl DeepView for Statement {
    type V = StatementView;

    open spec fn deep_view(&self) -> StatementView {
        match self {
            Statement::Assign(index, e) => StatementView::Assign(*index, e@),
            Statement::Return(e) => StatementView::Return(e@),
            Statement::Call(e) => StatementView::Call(e@),
        }
    }
}

impl View for Statement {
    type V = StatementView;

    open spec fn view(&self) -> StatementView {
        self.deep_view()
    }
}

/// The statements of a function body, in order.
#[derive(Debug, Clone)]
pub struct Scope {
    pub statements: Vec<Statement>,
}

impl DeepView for Scope {
    type V = Seq<StatementView>;

    open spec fn deep_view(&self) -> Seq<StatementView> {
        self.statements.deep_view()
    }
}

impl View for Scope {
    type V = Seq<StatementView>;

    open spec fn view(&self) -> Seq<StatementView> {
        self.deep_view()
    }
}

/// A function: its name, its locals, which of them are its arguments (in
/// the order they were declared), and its body.
#[derive(Debug, Clone)]
pub struct Function {
    pub name: String,
    pub locals: LocalStack,
    pub arguments: Vec<usize>,
    pub body: Scope,
}

/// The mathematical value of a [`Function`].
pub struct FunctionView {
    pub name: Seq<char>,
    pub locals: Seq<LocalView>,
    pub arguments: Seq<usize>,
    pub body: Seq<StatementView>,
}

impl DeepView for Function {
    type V = FunctionView;

    open spec fn deep_view(&self) -> FunctionView {
        FunctionView {
            name: self.name@,
            locals: self.locals@,
            arguments: self.arguments@,
            body: self.body@,
        }
    }
}

impl View for Function {
    type V = FunctionView;

    open spec fn view(&self) -> FunctionView {
        self.deep_view()
    }
}

/// The functions of a source file, in the order they were declared.
#[derive(Debug)]
pub struct Program {
    pub functions: Vec<Function>,
}

impl DeepView for Program {
    type V = Seq<FunctionView>;

    open spec fn deep_view(&self) -> Seq<FunctionView> {
        self.functions.deep_view()
    }
}

impl View for Program {
    type V = Seq<FunctionView>;

    open spec fn view(&self) -> Seq<FunctionView> {
        self.deep_view()
    }
}

impl Program {
    pub fn new() -> (program: Self)
        ensures
            program@ == Seq::<FunctionView>::empty(),
    {
        let program = Self { functions: Vec::new() };
        assert(program@ =~= Seq::<FunctionView>::empty());
        program
    }
}

/// Why the parser gave up.
#[derive(Debug, Clone, Copy, PartialEq, Eq, Structural)]
pub enum SyntaxErrorKind {
    /// A token that cannot stand where it stands.
    UnexpectedToken,
    /// `fn` was expected at the start of a declaration.
    ExpectedFunction,
    /// The name of a function was expected.
    ExpectedFunctionName,
    /// `:` was expected after the name of a function.
    ExpectedColon,
    ExpectedLeftPar,
    ExpectedRightPar,
    ExpectedLeftBrace,
    ExpectedRightBrace,
    ExpectedComma,
    ExpectedEquals,
    ExpectedSemicolon,
    ExpectedVar,
    /// The call sign `@` was expected.
    ExpectedCall,
    ExpectedIdentifier,
    ExpectedStatement,
    ExpectedExpression,
    /// Two argument names without a comma between them.
    MissingComma,
    /// `var` with a name that the function has already.
    DuplicatedVariable,
    /// A name that the function has not declared.
    UndeclaredVariable,
    /// A call of a function that no declaration above has completed.
    UndefinedFunction,
    /// A call with another number of arguments than the function declares.
    ArgumentMismatch,
    /// Two operands or two operators in a row, or operands left over.
    InvalidExpression,
    UnmatchedParenthesis,
    /// An operator that lacks one of its operands.
    MissingOperand,
    /// More locals than the address range has room for.
    TooManyLocals,
    /// A source without any function.
    EmptyProgram,
    /// A source without a function called `main`.
    MissingMain,
}

impl SyntaxErrorKind {
    /// What the error says.
    pub open spec fn message_text(self) -> Seq<char> {
        match self {
            SyntaxErrorKind::UnexpectedToken => "Unexpected token."@,
            SyntaxErrorKind::ExpectedFunction => "Expected function declaration (fn)."@,
            SyntaxErrorKind::ExpectedFunctionName => "Expected function name."@,
            SyntaxErrorKind::ExpectedColon => "Expected a colon after function name."@,
            SyntaxErrorKind::ExpectedLeftPar => "Expected left parentheses token."@,
            SyntaxErrorKind::ExpectedRightPar => "Expected right parentheses token."@,
            SyntaxErrorKind::ExpectedLeftBrace => "Expected left brace token."@,
            SyntaxErrorKind::ExpectedRightBrace => "Expected right brace token."@,
            SyntaxErrorKind::ExpectedComma => "Expected comma token."@,
            SyntaxErrorKind::ExpectedEquals => "Expected an equals token."@,
            SyntaxErrorKind::ExpectedSemicolon => "Expected a semicolon."@,
            SyntaxErrorKind::ExpectedVar => "Expected var token."@,
            SyntaxErrorKind::ExpectedCall => "Expected a call token."@,
            SyntaxErrorKind::ExpectedIdentifier => "Expected identifier."@,
            SyntaxErrorKind::ExpectedStatement => "Expected statement."@,
            SyntaxErrorKind::ExpectedExpression => "Expected a expression."@,
            SyntaxErrorKind::MissingComma => "Unexpected token. Maybe a comma is missing between two arguments."@,
            SyntaxErrorKind::DuplicatedVariable => "Duplicated variable declaration."@,
            SyntaxErrorKind::UndeclaredVariable => "Undeclared variable."@,
            SyntaxErrorKind::UndefinedFunction => "Call to undefined function."@,
            SyntaxErrorKind::ArgumentMismatch => "Unmatched number of arguments."@,
            SyntaxErrorKind::InvalidExpression => "Invalid expression."@,
            SyntaxErrorKind::UnmatchedParenthesis => "Unmatched parenthesis."@,
            SyntaxErrorKind::MissingOperand => "Missing operand."@,
            SyntaxErrorKind::TooManyLocals => "Too many local variables."@,
            SyntaxErrorKind::EmptyProgram => "Empty source file. Try writing a main function first."@,
            SyntaxErrorKind::MissingMain => "No entry point: missing main function."@,
        }
    }

    /// What the error says.
    pub fn message(&self) -> (text: &'static str)
        ensures
            text@ == self.message_text(),
    {
        match self {
            SyntaxErrorKind::UnexpectedToken => "Unexpected token.",
            SyntaxErrorKind::ExpectedFunction => "Expected function declaration (fn).",
            SyntaxErrorKind::ExpectedFunctionName => "Expected function name.",
            SyntaxErrorKind::ExpectedColon => "Expected a colon after function name.",
            SyntaxErrorKind::ExpectedLeftPar => "Expected left parentheses token.",
            SyntaxErrorKind::ExpectedRightPar => "Expected right parentheses token.",
            SyntaxErrorKind::ExpectedLeftBrace => "Expected left brace token.",
            SyntaxErrorKind::ExpectedRightBrace => "Expected right brace token.",
            SyntaxErrorKind::ExpectedComma => "Expected comma token.",
            SyntaxErrorKind::ExpectedEquals => "Expected an equals token.",
            SyntaxErrorKind::ExpectedSemicolon => "Expected a semicolon.",
            SyntaxErrorKind::ExpectedVar => "Expected var token.",
            SyntaxErrorKind::ExpectedCall => "Expected a call token.",
            SyntaxErrorKind::ExpectedIdentifier => "Expected identifier.",
            SyntaxErrorKind::ExpectedStatement => "Expected statement.",
            SyntaxErrorKind::ExpectedExpression => "Expected a expression.",
            SyntaxErrorKind::MissingComma => "Unexpected token. Maybe a comma is missing between two arguments.",
            SyntaxErrorKind::DuplicatedVariable => "Duplicated variable declaration.",
            SyntaxErrorKind::UndeclaredVariable => "Undeclared variable.",
            SyntaxErrorKind::UndefinedFunction => "Call to undefined function.",
            SyntaxErrorKind::ArgumentMismatch => "Unmatched number of arguments.",
            SyntaxErrorKind::InvalidExpression => "Invalid expression.",
            SyntaxErrorKind::UnmatchedParenthesis => "Unmatched parenthesis.",
            SyntaxErrorKind::MissingOperand => "Missing operand.",
            SyntaxErrorKind::TooManyLocals => "Too many local variables.",
            SyntaxErrorKind::EmptyProgram => "Empty source file. Try writing a main function first.",
            SyntaxErrorKind::MissingMain => "No entry point: missing main function.",
        }
    }
}

/// A fatal syntax error with the place it was found.
#[derive(Debug, Clone)]
pub struct SyntaxError {
    pub kind: SyntaxErrorKind,
    pub file: String,
    pub position: Position,
}

impl SyntaxError {
    /// The error as text: file, line, column and message.
    pub fn to_string(&self) -> (text: String)
        ensures
            text@ == located_text(
                self.file@,
                self.position.line as nat,
                self.position.column as nat,
                self.kind.message_text(),
            ),
    {
        located(&self.file, self.position.line, self.position.column, self.kind.message())
    }
}

/// `error` reports `failure` in the file called `file`.
pub open spec fn reports(error: SyntaxError, failure: Failure, file: Seq<char>) -> bool {
    &&& error.kind == failure.kind
    &&& error.position == failure.position
    &&& error.file@ == file
}

/// `result`, with the parser then at `cursor`, is what `expected` says.
pub open spec fn agrees<T: DeepView>(
    result: Result<T, SyntaxError>,
    cursor: int,
    expected: Parsed<T::V>,
    file: Seq<char>,
) -> bool {
    match expected {
        Ok((value, next)) => result is Ok && result->Ok_0.deep_view() == value && cursor == next,
        Err(failure) => result is Err && reports(result->Err_0, failure, file),
    }
}

/// The parser of one source file: the lexer that read it, its tokens, the
/// index of the token that is read next, and the functions parsed so far.
pub struct Parser {
    lexer: Lexer,
    tokens: Vec<Token>,
    position: usize,
    functions: Vec<Function>,
}

impl Parser {
    /// The lexer that reads the file.
    pub closed spec fn lexer(&self) -> Lexer {
        self.lexer
    }

    /// The name of the file.
    pub open spec fn file(&self) -> Seq<char> {
        self.lexer().file()
    }

    /// The tokens read so far.
    pub closed spec fn tokens(&self) -> Seq<TokenView> {
        self.tokens.deep_view()
    }

    /// The tokens read so far, and where the lexer stands.
    pub open spec fn source(&self) -> Source {
        Source {
            tokens: self.tokens(),
            end: position_at(self.lexer().source(), self.lexer().cursor()),
        }
    }

    /// The index of the token that is read next.
    pub closed spec fn cursor(&self) -> int {
        self.position as int
    }

    /// The functions parsed so far.
    pub closed spec fn declared(&self) -> Seq<FunctionView> {
        self.functions.deep_view()
    }

    pub closed spec fn wf(&self) -> bool {
        &&& self.lexer.wf()
        &&& self.position <= self.tokens.len()
    }

    /// The parser reads the same tokens of the same file as `before` and
    /// knows the same functions.
    pub open spec fn same_input(&self, before: &Parser) -> bool {
        &&& self.wf()
        &&& self.lexer() == before.lexer()
        &&& self.tokens() == before.tokens()
        &&& self.declared() == before.declared()
        &&& self.cursor() <= self.tokens().len()
    }

    /// The parser went from `before` to here on the same input, and
    /// `result` is what `expected` says.
    pub open spec fn parsed<T: DeepView>(
        &self,
        before: &Parser,
        result: Result<T, SyntaxError>,
        expected: Parsed<T::V>,
    ) -> bool {
        &&& self.same_input(before)
        &&& agrees(result, self.cursor(), expected, self.file())
    }

    /// A parser for `data`, the contents of the file `filename`.
    pub fn from_file(filename: &str, data: Vec<u8>) -> (parser: Self)
        requires
            data.len() < usize::MAX,
        ensures
            parser.wf(),
            parser.lexer().wf(),
            parser.lexer().source() == data@,
            parser.lexer().cursor() == 0,
            parser.file() == filename@,
            parser.tokens() == Seq::<TokenView>::empty(),
            parser.cursor() == 0,
            parser.declared() == Seq::<FunctionView>::empty(),
    {
        let parser = Self {
            lexer: Lexer::from_file(filename, data),
            tokens: Vec::new(),
            position: 0,
            functions: Vec::new(),
        };
        assert(parser.tokens() =~= Seq::<TokenView>::empty());
        assert(parser.declared() =~= Seq::<FunctionView>::empty());
        parser
    }

    /// Reads the rest of the file into tokens and adds them to those read
    /// before. After an error the parser is as it was before.
    pub fn generate_tokens(&mut self) -> (r: Result<(), LexError>)
        requires
            old(self).wf(),
        ensures
            final(self).wf(),
            final(self).lexer().wf(),
            final(self).lexer().source() == old(self).lexer().source(),
            final(self).file() == old(self).file(),
            final(self).cursor() == old(self).cursor(),
            final(self).declared() == old(self).declared(),
            match tokens_from(old(self).lexer().source(), old(self).lexer().cursor()) {
                Ok(tokens) => r is Ok && final(self).tokens() == old(self).tokens() + tokens
                    && final(self).lexer().cursor() == final(self).lexer().source().len(),
                Err((kind, at)) => r is Err && old(self).lexer().reports(r->Err_0, kind, at)
                    && final(self).tokens() == old(self).tokens() && final(self).lexer().cursor()
                    == old(self).lexer().cursor(),
            },
    {
        let ghost goal = tokens_from(old(self).lexer().source(), old(self).lexer().cursor());
        let start = self.lexer.offset();
        let mut read: Vec<Token> = Vec::new();
        assert(read.deep_view() =~= Seq::<TokenView>::empty());
        loop
            invariant_except_break
                tokens_then(
                    read.deep_view(),
                    tokens_from(self.lexer.source(), self.lexer.cursor()),
                ) == goal,
            invariant
                self.lexer.wf(),
                self.position == old(self).position,
                self.functions == old(self).functions,
                self.tokens == old(self).tokens,
                self.position <= self.tokens.len(),
                self.lexer.source() == old(self).lexer().source(),
                self.lexer.file() == old(self).lexer().file(),
                start == old(self).lexer().cursor(),
                start <= self.lexer.cursor(),
                goal == tokens_from(old(self).lexer().source(), old(self).lexer().cursor()),
            ensures
                goal == Ok::<Seq<TokenView>, (LexErrorKind, int)>(read.deep_view()),
                self.lexer.cursor() == self.lexer.source().len(),
            decreases self.lexer.source().len() - self.lexer.cursor(),
        {
            proof {
                self.lexer.lemma_cursor_in_bounds();
                crate::lexer::lemma_scan_advances(self.lexer.source(), self.lexer.cursor());
            }
            let ghost earlier = read.deep_view();
            match self.lexer.next() {
                Err(e) => {
                    self.lexer.rewind(start);
                    return Err(e);
                },
                Ok(None) => {
                    proof {
                        assert(earlier + Seq::<TokenView>::empty() =~= earlier);
                    }
                    break ;
                },
                Ok(Some(token)) => {
                    read.push(token);
                    proof {
                        assert(read.deep_view() =~= earlier.push(token@));
                        assert forall|more: Seq<TokenView>|
                            earlier + (seq![token@] + more) == read.deep_view() + more by {
                            assert(earlier + (seq![token@] + more) =~= read.deep_view() + more);
                        }
                    }
                },
            }
        }
        let ghost known = self.tokens();
        let ghost added = read.deep_view();
        self.tokens.append(&mut read);
        assert(self.tokens() =~= known + added);
        Ok(())
    }

    /// Parses the tokens, from the first on, into a program. There must
    /// be at least one function, and one called `main`. In the program
    /// every index names something, and every call names a function that
    /// is declared before its caller, with as many arguments as it
    /// declares. Afterwards the parser stands behind the last token, or,
    /// after an error, at the first.
    pub fn generate_program(&mut self) -> (r: Result<Program, SyntaxError>)
        requires
            old(self).wf(),
        ensures
            final(self).wf(),
            final(self).lexer() == old(self).lexer(),
            final(self).tokens() == old(self).tokens(),
            match parse_program(old(self).source()) {
                Ok(functions) => r is Ok && r->Ok_0@ == functions,
                Err(failure) => r is Err && reports(r->Err_0, failure, final(self).file()),
            },
            r matches Ok(program) ==> program@.len() > 0 && has_main(program@),
            r matches Ok(program) ==> crate::parser::laws::program_resolved(program@),
            final(self).declared() == Seq::<FunctionView>::empty(),
            final(self).cursor() == if r is Ok {
                final(self).tokens().len() as int
            } else {
                0
            },
    {
        proof {
            crate::parser::laws::lemma_program_resolved(self.source());
        }
        self.position = 0;
        self.functions = Vec::new();
        assert(self.declared() =~= Seq::<FunctionView>::empty());
        let program = self.next_program();
        if program.is_err() {
            self.position = 0;
            self.functions = Vec::new();
            assert(self.declared() =~= Seq::<FunctionView>::empty());
        }
        program
    }

    /// An error of `kind` at `position` in this parser's file.
    fn error(&self, kind: SyntaxErrorKind, position: Position) -> (e: SyntaxError)
        ensures
            reports(e, Failure { kind, position }, self.file()),
    {
        SyntaxError { kind, file: self.lexer.filename().clone(), position }
    }

    /// The token that is read next, if one is left.
    fn lookahead(&self) -> (token: Option<&Token>)
        requires
            self.wf(),
        ensures
            token.deep_view() == self.source().lookahead(self.cursor()),
            token matches Some(t) ==> self.cursor() < self.tokens().len() && t
                == &self.tokens[self.cursor()],
    {
        if self.position < self.tokens.len() {
            Some(&self.tokens[self.position])
        } else {
            None
        }
    }

    /// The token that was read last, if any was.
    fn current(&self) -> (token: Option<&Token>)
        requires
            self.wf(),
        ensures
            token.deep_view() == self.source().current(self.cursor()),
    {
        if 1 <= self.position {
            Some(&self.tokens[self.position - 1])
        } else {
            None
        }
    }

    /// The position of the token that is read next, or of the end of the
    /// file if none is left.
    fn here(&self) -> (position: Position)
        requires
            self.wf(),
        ensures
            position == match self.source().lookahead(self.cursor()) {
                Some(token) => token.position,
                None => self.source().end,
            },
    {
        match self.lookahead() {
            Some(token) => token.position,
            None => self.lexer.file_position(),
        }
    }

    /// Moves on by one token; says whether one was left.
    fn next_token(&mut self) -> (moved: bool)
        requires
            old(self).wf(),
        ensures
            final(self).same_input(old(self)),
            moved == (old(self).cursor() < old(self).tokens().len()),
            final(self).cursor() == if moved {
                old(self).cursor() + 1
            } else {
                old(self).cursor()
            },
    {
        if self.position < self.tokens.len() {
            self.position += 1;
            true
        } else {
            false
        }
    }

    /// Reads a token that must be `wanted`; reports `error` if another one
    /// or none stands there.
    fn expect(&mut self, wanted: TokenType, error: SyntaxErrorKind) -> (r: Result<
        (),
        SyntaxError,
    >)
        requires
            old(self).wf(),
        ensures
            final(self).parsed(
                old(self),
                r,
                old(self).source().expect(old(self).cursor(), wanted@, error),
            ),
    {
        let position = self.here();
        let found = match self.lookahead() {
            Some(token) => token.token_type.same(&wanted),
            None => false,
        };
        if found {
            self.next_token();
            Ok(())
        } else {
            Err(self.error(error, position))
        }
    }

    fn next_at(&mut self) -> (r: Result<(), SyntaxError>)
        requires
            old(self).wf(),
        ensures
            final(self).parsed(
                old(self),
                r,
                old(self).source().expect(
                    old(self).cursor(),
                    TokenKind::Call,
                    SyntaxErrorKind::ExpectedCall,
                ),
            ),
    {
        self.expect(TokenType::Call, SyntaxErrorKind::ExpectedCall)
    }

    fn next_equals(&mut self) -> (r: Result<(), SyntaxError>)
        requires
            old(self).wf(),
        ensures
            final(self).parsed(
                old(self),
                r,
                old(self).source().expect(
                    old(self).cursor(),
                    TokenKind::Equals,
                    SyntaxErrorKind::ExpectedEquals,
                ),
            ),
    {
        self.expect(TokenType::Equals, SyntaxErrorKind::ExpectedEquals)
    }

    fn next_semicolon(&mut self) -> (r: Result<(), SyntaxError>)
        requires
            old(self).wf(),
        ensures
            final(self).parsed(
                old(self),
                r,
                old(self).source().expect(
                    old(self).cursor(),
                    TokenKind::Semicolon,
                    SyntaxErrorKind::ExpectedSemicolon,
                ),
            ),
    {
        self.expect(TokenType::Semicolon, SyntaxErrorKind::ExpectedSemicolon)
    }

    fn next_comma(&mut self) -> (r: Result<(), SyntaxError>)
        requires
            old(self).wf(),
        ensures
            final(self).parsed(
                old(self),
                r,
                old(self).source().expect(
                    old(self).cursor(),
                    TokenKind::Comma,
                    SyntaxErrorKind::ExpectedComma,
                ),
            ),
    {
        self.expect(TokenType::Comma, SyntaxErrorKind::ExpectedComma)
    }

    fn next_colon(&mut self) -> (r: Result<(), SyntaxError>)
        requires
            old(self).wf(),
        ensures
            final(self).parsed(
                old(self),
                r,
                old(self).source().expect(
                    old(self).cursor(),
                    TokenKind::Colon,
                    SyntaxErrorKind::ExpectedColon,
                ),
            ),
    {
        self.expect(TokenType::Colon, SyntaxErrorKind::ExpectedColon)
    }

    fn next_r_brace(&mut self) -> (r: Result<(), SyntaxError>)
        requires
            old(self).wf(),
        ensures
            final(self).parsed(
                old(self),
                r,
                old(self).source().expect(
                    old(self).cursor(),
                    TokenKind::RightBrace,
                    SyntaxErrorKind::ExpectedRightBrace,
                ),
            ),
    {
        self.expect(TokenType::RightBrace, SyntaxErrorKind::ExpectedRightBrace)
    }

    fn next_l_brace(&mut self) -> (r: Result<(), SyntaxError>)
        requires
            old(self).wf(),
        ensures
            final(self).parsed(
                old(self),
                r,
                old(self).source().expect(
                    old(self).cursor(),
                    TokenKind::LeftBrace,
                    SyntaxErrorKind::ExpectedLeftBrace,
                ),
            ),
    {
        self.expect(TokenType::LeftBrace, SyntaxErrorKind::ExpectedLeftBrace)
    }

    fn next_r_par(&mut self) -> (r: Result<(), SyntaxError>)
        requires
            old(self).wf(),
        ensures
            final(self).parsed(
                old(self),
                r,
                old(self).source().expect(
                    old(self).cursor(),
                    TokenKind::RightPar,
                    SyntaxErrorKind::ExpectedRightPar,
                ),
            ),
    {
        self.expect(TokenType::RightPar, SyntaxErrorKind::ExpectedRightPar)
    }

    fn next_l_par(&mut self) -> (r: Result<(), SyntaxError>)
        requires
            old(self).wf(),
        ensures
            final(self).parsed(
                old(self),
                r,
                old(self).source().expect(
                    old(self).cursor(),
                    TokenKind::LeftPar,
                    SyntaxErrorKind::ExpectedLeftPar,
                ),
            ),
    {
        self.expect(TokenType::LeftPar, SyntaxErrorKind::ExpectedLeftPar)
    }

    fn next_fn(&mut self) -> (r: Result<(), SyntaxError>)
        requires
            old(self).wf(),
        ensures
            final(self).parsed(
                old(self),
                r,
                old(self).source().expect(
                    old(self).cursor(),
                    TokenKind::Function,
                    SyntaxErrorKind::ExpectedFunction,
                ),
            ),
    {
        self.expect(TokenType::Function, SyntaxErrorKind::ExpectedFunction)
    }

    fn next_var(&mut self) -> (r: Result<(), SyntaxError>)
        requires
            old(self).wf(),
        ensures
            final(self).parsed(
                old(self),
                r,
                old(self).source().expect(
                    old(self).cursor(),
                    TokenKind::Var,
                    SyntaxErrorKind::ExpectedVar,
                ),
            ),
    {
        self.expect(TokenType::Var, SyntaxErrorKind::ExpectedVar)
    }
}

} // verus!
