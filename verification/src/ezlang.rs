//! A second, simpler compiler for the same kind of language: its tokenizer
//! finds tokens with regular expressions, its parser reads operators in
//! prefix position and pulls tokens one at a time, and its generator keeps a
//! flat table from names to stack offsets and passes arguments in registers.

use vstd::prelude::*;
use vstd::slice::*;
use vstd::string::*;
use vstd::utf8::*;
use crate::text::string_from_utf8;

pub mod generator;
pub mod grammar;
pub mod laws;
pub mod parsing;

verus! {

/// A place in a source file.
#[derive(Debug, Clone)]
pub struct Position {
    pub file: String,
    pub line: usize,
    pub column: usize,
}

/// The mathematical value of a [`Position`].
pub struct PositionView {
    pub file: Seq<char>,
    pub line: usize,
    pub column: usize,
}

impl DeepView for Position {
    type V = PositionView;

    open spec fn deep_view(&self) -> PositionView {
        PositionView { file: self.file@, line: self.line, column: self.column }
    }
}

impl View for Position {
    type V = PositionView;

    open spec fn view(&self) -> PositionView {
        self.deep_view()
    }
}

impl Position {
    /// A copy of the position.
    pub fn copy(&self) -> (p: Position)
        ensures
            p@ == self@,
    {
        Position { file: self.file.clone(), line: self.line, column: self.column }
    }
}

/// A syntax error: where it was found and what is wrong.
#[derive(Debug, Clone)]
pub struct SyntaxError {
    pub position: Position,
    pub message: String,
}

/// The mathematical value of a [`SyntaxError`].
pub struct SyntaxErrorView {
    pub position: PositionView,
    pub message: Seq<char>,
}

impl DeepView for SyntaxError {
    type V = SyntaxErrorView;

    open spec fn deep_view(&self) -> SyntaxErrorView {
        SyntaxErrorView { position: self.position@, message: self.message@ }
    }
}

impl View for SyntaxError {
    type V = SyntaxErrorView;

    open spec fn view(&self) -> SyntaxErrorView {
        self.deep_view()
    }
}

/// The error `message` at `position`.
pub open spec fn syntax_error(position: PositionView, message: Seq<char>) -> SyntaxErrorView {
    SyntaxErrorView { position, message }
}

/// The view of a result whose error is a syntax error.
pub open spec fn outcome<T: DeepView>(result: Result<T, SyntaxError>) -> Result<
    T::V,
    SyntaxErrorView,
> {
    match result {
        Ok(value) => Ok(value.deep_view()),
        Err(e) => Err(e@),
    }
}

/// Why a source could not be compiled.
#[derive(Debug, Clone)]
pub struct CompileError {
    pub message: String,
}

/// The binary operators of the language.
#[derive(Debug, Clone, Copy, PartialEq, Eq, Structural)]
pub enum BinaryOperator {
    Addition,
    Subtraction,
    Multiplication,
    Division,
    And,
    Or,
    Xor,
}

/// A token with the position of its first byte.
#[derive(Debug, Clone)]
pub enum Token {
    Symbol(Position, String),
    NumberLiteral(Position, u32),
    StringLiteral(Position, String),
    Equal(Position),
    OpenParenthesis(Position),
    CloseParenthesis(Position),
    OpenBracket(Position),
    CloseBracket(Position),
    Comma(Position),
    Semicolon(Position),
    BinaryOperator(Position, BinaryOperator),
    Colon(Position),
    Return(Position),
    Assembly(Position),
    EOF(Position),
}

/// The mathematical value of a [`Token`].
pub enum TokenView {
    Symbol(PositionView, Seq<char>),
    NumberLiteral(PositionView, u32),
    StringLiteral(PositionView, Seq<char>),
    Equal(PositionView),
    OpenParenthesis(PositionView),
    CloseParenthesis(PositionView),
    OpenBracket(PositionView),
    CloseBracket(PositionView),
    Comma(PositionView),
    Semicolon(PositionView),
    BinaryOperator(PositionView, BinaryOperator),
    Colon(PositionView),
    Return(PositionView),
    Assembly(PositionView),
    EOF(PositionView),
}

impl TokenView {
    /// Where the token stands.
    pub open spec fn position(self) -> PositionView {
        match self {
            TokenView::Symbol(position, _) => position,
            TokenView::NumberLiteral(position, _) => position,
            TokenView::StringLiteral(position, _) => position,
            TokenView::Equal(position) => position,
            TokenView::OpenParenthesis(position) => position,
            TokenView::CloseParenthesis(position) => position,
            TokenView::OpenBracket(position) => position,
            TokenView::CloseBracket(position) => position,
            TokenView::Comma(position) => position,
            TokenView::Semicolon(position) => position,
            TokenView::BinaryOperator(position, _) => position,
            TokenView::Colon(position) => position,
            TokenView::Return(position) => position,
            TokenView::Assembly(position) => position,
            TokenView::EOF(position) => position,
        }
    }
}

impl DeepView for Token {
    type V = TokenView;

    open spec fn deep_view(&self) -> TokenView {
        match self {
            Token::Symbol(position, name) => TokenView::Symbol(position@, name@),
            Token::NumberLiteral(position, value) => TokenView::NumberLiteral(position@, *value),
            Token::StringLiteral(position, text) => TokenView::StringLiteral(position@, text@),
            Token::Equal(position) => TokenView::Equal(position@),
            Token::OpenParenthesis(position) => TokenView::OpenParenthesis(position@),
            Token::CloseParenthesis(position) => TokenView::CloseParenthesis(position@),
            Token::OpenBracket(position) => TokenView::OpenBracket(position@),
            Token::CloseBracket(position) => TokenView::CloseBracket(position@),
            Token::Comma(position) => TokenView::Comma(position@),
            Token::Semicolon(position) => TokenView::Semicolon(position@),
            Token::BinaryOperator(position, operator) => TokenView::BinaryOperator(
                position@,
                *operator,
            ),
            Token::Colon(position) => TokenView::Colon(position@),
            Token::Return(position) => TokenView::Return(position@),
            Token::Assembly(position) => TokenView::Assembly(position@),
            Token::EOF(position) => TokenView::EOF(position@),
        }
    }
}

impl View for Token {
    type V = TokenView;

    open spec fn view(&self) -> TokenView {
        self.deep_view()
    }
}

impl Token {
    /// Where the token stands.
    pub fn get_position(&self) -> (position: &Position)
        ensures
            position@ == self@.position(),
    {
        match self {
            Token::Symbol(position, _) => position,
            Token::NumberLiteral(position, _) => position,
            Token::StringLiteral(position, _) => position,
            Token::Equal(position) => position,
            Token::OpenParenthesis(position) => position,
            Token::CloseParenthesis(position) => position,
            Token::OpenBracket(position) => position,
            Token::CloseBracket(position) => position,
            Token::Comma(position) => position,
            Token::Semicolon(position) => position,
            Token::BinaryOperator(position, _) => position,
            Token::Colon(position) => position,
            Token::Return(position) => position,
            Token::Assembly(position) => position,
            Token::EOF(position) => position,
        }
    }

    /// A copy of the token.
    pub fn copy(&self) -> (token: Token)
        ensures
            token@ == self@,
    {
        match self {
            Token::Symbol(position, name) => Token::Symbol(position.copy(), name.clone()),
            Token::NumberLiteral(position, value) => Token::NumberLiteral(position.copy(), *value),
            Token::StringLiteral(position, text) => Token::StringLiteral(
                position.copy(),
                text.clone(),
            ),
            Token::Equal(position) => Token::Equal(position.copy()),
            Token::OpenParenthesis(position) => Token::OpenParenthesis(position.copy()),
            Token::CloseParenthesis(position) => Token::CloseParenthesis(position.copy()),
            Token::OpenBracket(position) => Token::OpenBracket(position.copy()),
            Token::CloseBracket(position) => Token::CloseBracket(position.copy()),
            Token::Comma(position) => Token::Comma(position.copy()),
            Token::Semicolon(position) => Token::Semicolon(position.copy()),
            Token::BinaryOperator(position, operator) => Token::BinaryOperator(
                position.copy(),
                *operator,
            ),
            Token::Colon(position) => Token::Colon(position.copy()),
            Token::Return(position) => Token::Return(position.copy()),
            Token::Assembly(position) => Token::Assembly(position.copy()),
            Token::EOF(position) => Token::EOF(position.copy()),
        }
    }
}

/// The first match of the regular expression `pattern` in `haystack`, as
/// the `regex` crate finds it: `None` if the pattern does not compile,
/// else the byte offsets at which the leftmost match begins and ends, if
/// there is a match. The crate computes this from the two texts alone.
pub uninterp spec fn regex_search(pattern: Seq<char>, haystack: Seq<char>) -> Option<
    Option<(usize, usize)>,
>;

/// Compiles `pattern` with `regex::Regex::new` and searches `haystack` with
/// `Regex::find`; the offsets are those of `Match::start` and `Match::end`.
/// The contract only gives the outcome its name, `regex_search`: nothing
/// about what the crate finds is proved or assumed here.
#[verifier::external_body]
fn search(pattern: &str, haystack: &str) -> (found: Option<Option<(usize, usize)>>)
    ensures
        found == regex_search(pattern@, haystack@),
{
    match regex::Regex::new(pattern) {
        Ok(compiled) => match compiled.find(haystack) {
            Some(found) => Some(Some((found.start(), found.end()))),
            None => Some(None),
        },
        Err(_) => None,
    }
}

/// The kinds of text that the tokenizer looks for, in the order in which it
/// tries them.
#[derive(Debug, Clone, Copy, PartialEq, Eq, Structural)]
pub enum Rule {
    Whitespace,
    Number,
    Operator,
    Equal,
    Semicolon,
    Symbol,
    Special,
    Text,
}

/// The regular expression of a rule. Each is anchored at the start.
pub open spec fn pattern(rule: Rule) -> Seq<char> {
    match rule {
        Rule::Whitespace => r"^[\s]"@,
        Rule::Number => r"^[-+]?\d+"@,
        Rule::Operator => r"^[+\-*/&|^%]"@,
        Rule::Equal => r"^[=]"@,
        Rule::Semicolon => r"^[;]"@,
        Rule::Symbol => r"^[a-zA-Z_][a-zA-Z0-9_]*"@,
        Rule::Special => r"^[{}():,]"@,
        Rule::Text => r#"^"([^"\\]*(\\.[^"\\]*)*)""#@,
    }
}

/// How many bytes at the start of `rest` a regular expression takes:
/// `None` if it does not compile; `Some(None)` unless its first match
/// begins at the first byte, is not empty and lies within `rest`.
pub open spec fn match_length(pattern: Seq<char>, rest: Seq<u8>) -> Option<Option<int>> {
    match regex_search(pattern, decode_utf8(rest)) {
        None => None,
        Some(None) => Some(None),
        Some(Some((start, end))) => if start == 0 && 0 < end <= rest.len() {
            Some(Some(end as int))
        } else {
            Some(None)
        },
    }
}

/// The rule `rule` and its length if it takes the start of `rest`, else
/// `otherwise`.
pub open spec fn try_rule(rule: Rule, rest: Seq<u8>, otherwise: Option<Option<(Rule, int)>>) -> Option<
    Option<(Rule, int)>,
> {
    match match_length(pattern(rule), rest) {
        None => None,
        Some(Some(length)) => Some(Some((rule, length))),
        Some(None) => otherwise,
    }
}

/// The first rule that takes the start of `rest`, and how many bytes it
/// takes: `None` if a pattern that had to be tried does not compile,
/// `Some(None)` if no rule applies.
pub open spec fn first_rule(rest: Seq<u8>) -> Option<Option<(Rule, int)>> {
    try_rule(
        Rule::Whitespace,
        rest,
        try_rule(
            Rule::Number,
            rest,
            try_rule(
                Rule::Operator,
                rest,
                try_rule(
                    Rule::Equal,
                    rest,
                    try_rule(
                        Rule::Semicolon,
                        rest,
                        try_rule(
                            Rule::Symbol,
                            rest,
                            try_rule(
                                Rule::Special,
                                rest,
                                try_rule(Rule::Text, rest, Some(None)),
                            ),
                        ),
                    ),
                ),
            ),
        ),
    )
}

/// The regular expression of a rule.
pub fn rule_pattern(rule: Rule) -> (text: &'static str)
    ensures
        text@ == pattern(rule),
{
    match rule {
        Rule::Whitespace => r"^[\s]",
        Rule::Number => r"^[-+]?\d+",
        Rule::Operator => r"^[+\-*/&|^%]",
        Rule::Equal => r"^[=]",
        Rule::Semicolon => r"^[;]",
        Rule::Symbol => r"^[a-zA-Z_][a-zA-Z0-9_]*",
        Rule::Special => r"^[{}():,]",
        Rule::Text => r#"^"([^"\\]*(\\.[^"\\]*)*)""#,
    }
}

/// Tests the search result `found` for a match that begins at the first
/// byte of a text of `length` bytes, is not empty and lies within the text.
pub fn leading_match(found: Option<Option<(usize, usize)>>, length: usize) -> (r: Option<
    Option<usize>,
>)
    ensures
        r == match found {
            None => None::<Option<usize>>,
            Some(None) => Some(None),
            Some(Some((start, end))) => if start == 0 && 0 < end <= length {
                Some(Some(end))
            } else {
                Some(None)
            },
        },
{
    match found {
        None => None,
        Some(None) => Some(None),
        Some(Some((start, end))) => if start == 0 && 0 < end && end <= length {
            Some(Some(end))
        } else {
            Some(None)
        },
    }
}

/// How many bytes at the start of `rest` the rule `rule` takes.
pub fn rule_length(rule: Rule, rest: &str) -> (r: Option<Option<usize>>)
    ensures
        match match_length(pattern(rule), rest.spec_bytes()) {
            None => r is None,
            Some(None) => r == Some(None::<usize>),
            Some(Some(length)) => r == Some(Some(length as usize)) && 0 < length
                <= rest.spec_bytes().len(),
        },
{
    proof {
        encode_utf8_decode_utf8(rest@);
    }
    leading_match(search(rule_pattern(rule), rest), rest.as_bytes().len())
}

/// The first rule that takes the start of `rest`, and how many bytes it
/// takes.
pub fn find_rule(rest: &str) -> (r: Option<Option<(Rule, usize)>>)
    ensures
        match first_rule(rest.spec_bytes()) {
            None => r is None,
            Some(None) => r == Some(None::<(Rule, usize)>),
            Some(Some((rule, length))) => r == Some(Some((rule, length as usize))) && 0 < length
                <= rest.spec_bytes().len(),
        },
{
    match rule_length(Rule::Whitespace, rest) {
        None => {
            return None;
        },
        Some(Some(length)) => {
            return Some(Some((Rule::Whitespace, length)));
        },
        Some(None) => {},
    }
    match rule_length(Rule::Number, rest) {
        None => {
            return None;
        },
        Some(Some(length)) => {
            return Some(Some((Rule::Number, length)));
        },
        Some(None) => {},
    }
    match rule_length(Rule::Operator, rest) {
        None => {
            return None;
        },
        Some(Some(length)) => {
            return Some(Some((Rule::Operator, length)));
        },
        Some(None) => {},
    }
    match rule_length(Rule::Equal, rest) {
        None => {
            return None;
        },
        Some(Some(length)) => {
            return Some(Some((Rule::Equal, length)));
        },
        Some(None) => {},
    }
    match rule_length(Rule::Semicolon, rest) {
        None => {
            return None;
        },
        Some(Some(length)) => {
            return Some(Some((Rule::Semicolon, length)));
        },
        Some(None) => {},
    }
    match rule_length(Rule::Symbol, rest) {
        None => {
            return None;
        },
        Some(Some(length)) => {
            return Some(Some((Rule::Symbol, length)));
        },
        Some(None) => {},
    }
    match rule_length(Rule::Special, rest) {
        None => {
            return None;
        },
        Some(Some(length)) => {
            return Some(Some((Rule::Special, length)));
        },
        Some(None) => {},
    }
    match rule_length(Rule::Text, rest) {
        None => None,
        Some(Some(length)) => Some(Some((Rule::Text, length))),
        Some(None) => Some(None),
    }
}

/// The number that the digits of `text` from index `k` on spell, continuing
/// from `acc`; `None` if a byte is no decimal digit or the number does not
/// fit 32 bits.
pub open spec fn number_from(text: Seq<u8>, k: int, acc: u32) -> Option<u32>
    decreases text.len() - k,
{
    if k < 0 || k >= text.len() {
        Some(acc)
    } else if !(48 <= text[k] <= 57) {
        None
    } else if acc * 10 + (text[k] - 48) > u32::MAX {
        None
    } else {
        number_from(text, k + 1, (acc * 10 + (text[k] - 48)) as u32)
    }
}

/// The value of a number literal: decimal digits, at least one, after an
/// optional `+`. A `-` is no part of an unsigned number.
pub open spec fn number_value(text: Seq<u8>) -> Option<u32> {
    let start = if text.len() > 0 && text[0] == 43 {
        1int
    } else {
        0int
    };
    if start >= text.len() {
        None
    } else {
        number_from(text, start, 0)
    }
}

/// The operator that a byte stands for.
pub open spec fn operator_of(b: u8) -> Option<BinaryOperator> {
    if b == 43 {
        Some(BinaryOperator::Addition)
    } else if b == 45 {
        Some(BinaryOperator::Subtraction)
    } else if b == 42 {
        Some(BinaryOperator::Multiplication)
    } else if b == 47 {
        Some(BinaryOperator::Division)
    } else if b == 38 {
        Some(BinaryOperator::And)
    } else if b == 124 {
        Some(BinaryOperator::Or)
    } else if b == 94 {
        Some(BinaryOperator::Xor)
    } else {
        None
    }
}

/// The punctuation token that a byte stands for.
pub open spec fn special_of(b: u8, position: PositionView) -> Option<TokenView> {
    if b == 40 {
        Some(TokenView::OpenParenthesis(position))
    } else if b == 41 {
        Some(TokenView::CloseParenthesis(position))
    } else if b == 123 {
        Some(TokenView::OpenBracket(position))
    } else if b == 125 {
        Some(TokenView::CloseBracket(position))
    } else if b == 58 {
        Some(TokenView::Colon(position))
    } else if b == 44 {
        Some(TokenView::Comma(position))
    } else {
        None
    }
}

/// The index of the first byte at or after `k` that is no double quote.
pub open spec fn leading_quotes(text: Seq<u8>, k: int) -> int
    decreases text.len() - k,
{
    if 0 <= k < text.len() && text[k] == 34 {
        leading_quotes(text, k + 1)
    } else {
        k
    }
}

/// The index behind the last byte before `end`, and not before `start`,
/// that is no double quote.
pub open spec fn trailing_quotes(text: Seq<u8>, start: int, end: int) -> int
    decreases end,
{
    if 0 <= start < end <= text.len() && text[end - 1] == 34 {
        trailing_quotes(text, start, end - 1)
    } else {
        end
    }
}

/// `text` without the double quotes at its start and at its end, however
/// many there are.
pub open spec fn trim_quotes(text: Seq<u8>) -> Seq<u8> {
    let start = leading_quotes(text, 0);
    text.subrange(start, trailing_quotes(text, start, text.len() as int))
}

/// The token that the text `text` is under the rule `rule`.
pub open spec fn classify(rule: Rule, text: Seq<u8>, position: PositionView) -> Result<
    TokenView,
    SyntaxErrorView,
> {
    match rule {
        Rule::Whitespace => Err(syntax_error(position, "Syntax error"@)),
        Rule::Number => match number_value(text) {
            Some(value) => Ok(TokenView::NumberLiteral(position, value)),
            None => Err(syntax_error(position, "Invalid number literal"@)),
        },
        Rule::Operator => if text.len() == 1 && operator_of(text[0]) is Some {
            Ok(TokenView::BinaryOperator(position, operator_of(text[0])->0))
        } else {
            Err(syntax_error(position, "Unknown binary operator"@))
        },
        Rule::Equal => Ok(TokenView::Equal(position)),
        Rule::Semicolon => Ok(TokenView::Semicolon(position)),
        Rule::Symbol => if !valid_utf8(text) {
            Err(syntax_error(position, "Invalid text"@))
        } else if decode_utf8(text) == "return"@ {
            Ok(TokenView::Return(position))
        } else if decode_utf8(text) == "asm"@ {
            Ok(TokenView::Assembly(position))
        } else {
            Ok(TokenView::Symbol(position, decode_utf8(text)))
        },
        Rule::Special => if text.len() == 1 && special_of(text[0], position) is Some {
            Ok(special_of(text[0], position)->0)
        } else {
            Err(syntax_error(position, "Unknown token"@))
        },
        Rule::Text => if !valid_utf8(trim_quotes(text)) {
            Err(syntax_error(position, "Invalid text"@))
        } else {
            Ok(TokenView::StringLiteral(position, decode_utf8(trim_quotes(text))))
        },
    }
}

/// The state of a tokenizer: the name and the bytes of the file, the offset
/// of the next byte to read with its line and column, and whether the end
/// of the file has been reported.
pub struct TokenizerView {
    pub file: Seq<char>,
    pub bytes: Seq<u8>,
    pub cursor: int,
    pub line: int,
    pub column: int,
    pub reached_eof: bool,
}

impl TokenizerView {
    /// The cursor lies within the file, and line and column start at 1 and
    /// are bounded by the bytes read.
    pub open spec fn wf(self) -> bool {
        &&& 0 <= self.cursor <= self.bytes.len() < usize::MAX
        &&& 1 <= self.line <= self.cursor + 1
        &&& 1 <= self.column <= self.cursor + 1
    }

    /// Where the cursor stands.
    pub open spec fn position(self) -> PositionView {
        PositionView { file: self.file, line: self.line as usize, column: self.column as usize }
    }

    /// The bytes that are still to read.
    pub open spec fn rest(self) -> Seq<u8> {
        self.bytes.subrange(self.cursor, self.bytes.len() as int)
    }

    /// The state after the end of the file has been reported.
    pub open spec fn at_end(self) -> TokenizerView {
        TokenizerView {
            file: self.file,
            bytes: self.bytes,
            cursor: self.cursor,
            line: self.line,
            column: self.column,
            reached_eof: true,
        }
    }

    /// The state after a token of `length` bytes.
    pub open spec fn advance(self, length: int) -> TokenizerView {
        TokenizerView {
            file: self.file,
            bytes: self.bytes,
            cursor: self.cursor + length,
            line: self.line,
            column: self.column + length,
            reached_eof: self.reached_eof,
        }
    }

    /// The state after whitespace of `length` bytes: a line feed begins a
    /// new line, anything else takes one column.
    pub open spec fn skip(self, length: int, line_feed: bool) -> TokenizerView {
        TokenizerView {
            file: self.file,
            bytes: self.bytes,
            cursor: self.cursor + length,
            line: if line_feed {
                self.line + 1
            } else {
                self.line
            },
            column: if line_feed {
                1
            } else {
                self.column + 1
            },
            reached_eof: self.reached_eof,
        }
    }
}

/// What the tokenizer gives out of a state.
pub type Scanned = (Result<Option<TokenView>, SyntaxErrorView>, TokenizerView);

/// The next token and the state behind it. After the end of the file has
/// been reported as a token there is no token any more. Whitespace is
/// skipped. Of the other rules the first that takes the start of the rest
/// of the file says what the token is.
pub open spec fn tokenize(t: TokenizerView) -> Scanned
    decreases t.bytes.len() - t.cursor,
{
    if t.reached_eof {
        (Ok(None), t)
    } else if !(0 <= t.cursor < t.bytes.len()) {
        (Ok(Some(TokenView::EOF(t.position()))), t.at_end())
    } else if !is_char_boundary(t.bytes, t.cursor) {
        (Err(syntax_error(t.position(), "Cursor inside a character"@)), t)
    } else {
        match first_rule(t.rest()) {
            None => (Err(syntax_error(t.position(), "Invalid pattern"@)), t),
            Some(None) => (Err(syntax_error(t.position(), "Syntax error"@)), t),
            Some(Some((rule, length))) => {
                let text = t.rest().subrange(0, length);
                if 0 < length <= t.rest().len() {
                    if rule == Rule::Whitespace {
                        tokenize(t.skip(length, text == seq![10u8]))
                    } else {
                        match classify(rule, text, t.position()) {
                            Ok(token) => (Ok(Some(token)), t.advance(length)),
                            Err(e) => (Err(e), t.advance(length)),
                        }
                    }
                } else {
                    (Err(syntax_error(t.position(), "Syntax error"@)), t)
                }
            },
        }
    }
}

/// Parses the digits of a number literal.
pub fn parse_number(text: &[u8]) -> (value: Option<u32>)
    ensures
        value == number_value(text@),
{
    let start: usize = if text.len() > 0 && text[0] == 43 {
        1
    } else {
        0
    };
    if start >= text.len() {
        return None;
    }
    let mut value: u32 = 0;
    let mut k: usize = start;
    while k < text.len()
        invariant
            start <= k <= text.len(),
            number_value(text@) == number_from(text@, start as int, 0),
            number_from(text@, k as int, value) == number_from(text@, start as int, 0),
        decreases text.len() - k,
    {
        let b = text[k];
        if b < 48 || b > 57 {
            return None;
        }
        let next = match value.checked_mul(10) {
            Some(shifted) => shifted.checked_add((b - 48) as u32),
            None => None,
        };
        match next {
            Some(next) => {
                value = next;
            },
            None => {
                return None;
            },
        }
        k += 1;
    }
    Some(value)
}

/// The bytes of `text` without the double quotes at its start and end.
pub fn trim_quote_bytes(text: &[u8]) -> (trimmed: Vec<u8>)
    ensures
        trimmed@ == trim_quotes(text@),
{
    let mut start: usize = 0;
    while start < text.len() && text[start] == 34
        invariant
            start <= text.len(),
            leading_quotes(text@, start as int) == leading_quotes(text@, 0),
        decreases text.len() - start,
    {
        start += 1;
    }
    let mut end: usize = text.len();
    while start < end && text[end - 1] == 34
        invariant
            start <= end <= text.len(),
            trailing_quotes(text@, start as int, end as int) == trailing_quotes(
                text@,
                start as int,
                text@.len() as int,
            ),
        decreases end,
    {
        end -= 1;
    }
    slice_to_vec(slice_subrange(text, start, end))
}

/// The syntax error `message` at `position`.
pub fn error_at(position: Position, message: &str) -> (e: SyntaxError)
    ensures
        e@ == syntax_error(position@, message@),
{
    SyntaxError { position, message: String::from_str(message) }
}

/// The token that `text` is under the rule `rule`.
pub fn classify_text(rule: Rule, text: &[u8], position: Position) -> (r: Result<
    Token,
    SyntaxError,
>)
    ensures
        outcome(r) == classify(rule, text@, position@),
{
    match rule {
        Rule::Whitespace => Err(error_at(position, "Syntax error")),
        Rule::Number => match parse_number(text) {
            Some(value) => Ok(Token::NumberLiteral(position, value)),
            None => Err(error_at(position, "Invalid number literal")),
        },
        Rule::Operator => {
            if text.len() != 1 {
                return Err(error_at(position, "Unknown binary operator"));
            }
            let b = text[0];
            let operator = if b == 43 {
                BinaryOperator::Addition
            } else if b == 45 {
                BinaryOperator::Subtraction
            } else if b == 42 {
                BinaryOperator::Multiplication
            } else if b == 47 {
                BinaryOperator::Division
            } else if b == 38 {
                BinaryOperator::And
            } else if b == 124 {
                BinaryOperator::Or
            } else if b == 94 {
                BinaryOperator::Xor
            } else {
                return Err(error_at(position, "Unknown binary operator"));
            };
            Ok(Token::BinaryOperator(position, operator))
        },
        Rule::Equal => Ok(Token::Equal(position)),
        Rule::Semicolon => Ok(Token::Semicolon(position)),
        Rule::Symbol => match string_from_utf8(slice_to_vec(text)) {
            None => Err(error_at(position, "Invalid text")),
            Some(name) => {
                if name == String::from_str("return") {
                    Ok(Token::Return(position))
                } else if name == String::from_str("asm") {
                    Ok(Token::Assembly(position))
                } else {
                    Ok(Token::Symbol(position, name))
                }
            },
        },
        Rule::Special => {
            if text.len() != 1 {
                return Err(error_at(position, "Unknown token"));
            }
            let b = text[0];
            if b == 40 {
                Ok(Token::OpenParenthesis(position))
            } else if b == 41 {
                Ok(Token::CloseParenthesis(position))
            } else if b == 123 {
                Ok(Token::OpenBracket(position))
            } else if b == 125 {
                Ok(Token::CloseBracket(position))
            } else if b == 58 {
                Ok(Token::Colon(position))
            } else if b == 44 {
                Ok(Token::Comma(position))
            } else {
                Err(error_at(position, "Unknown token"))
            }
        },
        Rule::Text => match string_from_utf8(trim_quote_bytes(text)) {
            None => Err(error_at(position, "Invalid text")),
            Some(content) => Ok(Token::StringLiteral(position, content)),
        },
    }
}

/// A cursor over the text of one source file that gives out its tokens.
pub struct Tokenizer {
    file: String,
    buffer: String,
    cursor: usize,
    line: usize,
    column: usize,
    reached_eof: bool,
}

impl View for Tokenizer {
    type V = TokenizerView;

    closed spec fn view(&self) -> TokenizerView {
        TokenizerView {
            file: self.file@,
            bytes: encode_utf8(self.buffer@),
            cursor: self.cursor as int,
            line: self.line as int,
            column: self.column as int,
            reached_eof: self.reached_eof,
        }
    }
}

impl Tokenizer {
    /// A tokenizer at the start of `source_code`, the text of the file
    /// `filename`.
    pub fn new(filename: String, source_code: String) -> (tokenizer: Self)
        requires
            encode_utf8(source_code@).len() < usize::MAX,
        ensures
            tokenizer@ == (TokenizerView {
                file: filename@,
                bytes: encode_utf8(source_code@),
                cursor: 0,
                line: 1,
                column: 1,
                reached_eof: false,
            }),
            tokenizer@.wf(),
    {
        Tokenizer {
            file: filename,
            buffer: source_code,
            cursor: 0,
            line: 1,
            column: 1,
            reached_eof: false,
        }
    }

    /// Whether bytes are left to read.
    pub fn has_next(&self) -> (r: bool)
        ensures
            r == (self@.cursor < self@.bytes.len()),
    {
        self.cursor < self.buffer.as_str().as_bytes().len()
    }

    /// The name of the file.
    pub fn file(&self) -> (name: &String)
        ensures
            name@ == self@.file,
    {
        &self.file
    }

    /// Where the cursor stands.
    pub fn position(&self) -> (position: Position)
        ensures
            position@ == self@.position(),
    {
        Position { file: self.file.clone(), line: self.line, column: self.column }
    }

    /// Gives out the next token; see [`tokenize`].
    pub fn next(&mut self) -> (r: Result<Option<Token>, SyntaxError>)
        requires
            old(self)@.wf(),
        ensures
            final(self)@.wf(),
            (outcome(r), final(self)@) == tokenize(old(self)@),
    {
        loop
            invariant
                self@.wf(),
                tokenize(self@) == tokenize(old(self)@),
            decreases self@.bytes.len() - self@.cursor,
        {
            if self.reached_eof {
                return Ok(None);
            }
            let position = self.position();
            if !self.has_next() {
                self.reached_eof = true;
                return Ok(Some(Token::EOF(position)));
            }
            if !self.buffer.as_str().is_char_boundary(self.cursor) {
                return Err(error_at(position, "Cursor inside a character"));
            }
            let (_, rest) = self.buffer.as_str().split_at(self.cursor);
            assert(rest.spec_bytes() == self@.rest());
            let (rule, length) = match find_rule(rest) {
                None => {
                    return Err(error_at(position, "Invalid pattern"));
                },
                Some(None) => {
                    return Err(error_at(position, "Syntax error"));
                },
                Some(Some(found)) => found,
            };
            let text = slice_subrange(rest.as_bytes(), 0, length);
            match rule {
                Rule::Whitespace => {
                    let line_feed = length == 1 && text[0] == 10;
                    assert(line_feed == (text@ == seq![10u8])) by {
                        if line_feed {
                            assert(text@ =~= seq![10u8]);
                        }
                    }
                    self.cursor += length;
                    if line_feed {
                        self.line += 1;
                        self.column = 1;
                    } else {
                        self.column += 1;
                    }
                },
                _ => {
                    let token = classify_text(rule, text, position);
                    self.cursor += length;
                    self.column += length;
                    return match token {
                        Ok(token) => Ok(Some(token)),
                        Err(e) => Err(e),
                    };
                },
            }
        }
    }
}

/// An expression. An operator stands before its operands, of which the
/// first is a number or a name.
#[derive(Debug)]
pub enum Expression {
    NumberLiteral(u32),
    /// The label of the literal in the data section, and its text.
    StringLiteral(String, String),
    Symbol(String),
    CallStatement(String, Option<Vec<Expression>>),
    BinaryOperation(BinaryOperator, Box<Expression>, Box<Expression>),
}

/// The mathematical value of an [`Expression`].
pub enum ExpressionView {
    NumberLiteral(u32),
    StringLiteral(Seq<char>, Seq<char>),
    Symbol(Seq<char>),
    CallStatement(Seq<char>, Option<Seq<ExpressionView>>),
    BinaryOperation(BinaryOperator, Box<ExpressionView>, Box<ExpressionView>),
}

/// The mathematical value of `e`.
pub open spec fn expression_view(e: Expression) -> ExpressionView
    decreases e,
{
    match e {
        Expression::NumberLiteral(value) => ExpressionView::NumberLiteral(value),
        Expression::StringLiteral(label, text) => ExpressionView::StringLiteral(label@, text@),
        Expression::Symbol(name) => ExpressionView::Symbol(name@),
        Expression::CallStatement(name, None) => ExpressionView::CallStatement(name@, None),
        Expression::CallStatement(name, Some(arguments)) => ExpressionView::CallStatement(
            name@,
            Some(
                Seq::new(
                    arguments.len() as nat,
                    |i: int|
                        if 0 <= i < arguments.len() {
                            expression_view(arguments[i])
                        } else {
                            ExpressionView::NumberLiteral(0)
                        },
                ),
            ),
        ),
        Expression::BinaryOperation(operator, left, right) => ExpressionView::BinaryOperation(
            operator,
            Box::new(expression_view(*left)),
            Box::new(expression_view(*right)),
        ),
    }
}

impl DeepView for Expression {
    type V = ExpressionView;

    open spec fn deep_view(&self) -> ExpressionView {
        expression_view(*self)
    }
}

impl View for Expression {
    type V = ExpressionView;

    open spec fn view(&self) -> ExpressionView {
        self.deep_view()
    }
}

/// The view of a call is its name and the views of its arguments.
pub proof fn lemma_call_view(name: String, arguments: Option<Vec<Expression>>)
    ensures
        Expression::CallStatement(name, arguments)@ == ExpressionView::CallStatement(
            name@,
            arguments.deep_view(),
        ),
{
    let e = Expression::CallStatement(name, arguments);
    match arguments {
        Some(list) => {
            assert(e@->CallStatement_1->0 =~= list.deep_view());
        },
        None => {},
    }
}

/// The name of one argument of a function.
#[derive(Debug)]
pub struct Argument {
    pub name: String,
}

impl DeepView for Argument {
    type V = Seq<char>;

    open spec fn deep_view(&self) -> Seq<char> {
        self.name@
    }
}

impl View for Argument {
    type V = Seq<char>;

    open spec fn view(&self) -> Seq<char> {
        self.name@
    }
}

/// A statement of a function body.
#[derive(Debug)]
pub enum Statement {
    AssignStatement { symbol_name: String, expression: Expression },
    CallStatement { function_name: String, arguments: Option<Vec<Expression>> },
    ReturnStatement { return_value: Expression },
}

/// The mathematical value of a [`Statement`].
pub enum StatementView {
    AssignStatement { symbol_name: Seq<char>, expression: ExpressionView },
    CallStatement { function_name: Seq<char>, arguments: Option<Seq<ExpressionView>> },
    ReturnStatement { return_value: ExpressionView },
}

impl DeepView for Statement {
    type V = StatementView;

    open spec fn deep_view(&self) -> StatementView {
        match self {
            Statement::AssignStatement { symbol_name, expression } => StatementView::AssignStatement {
                symbol_name: symbol_name@,
                expression: expression@,
            },
            Statement::CallStatement { function_name, arguments } => StatementView::CallStatement {
                function_name: function_name@,
                arguments: arguments.deep_view(),
            },
            Statement::ReturnStatement { return_value } => StatementView::ReturnStatement {
                return_value: return_value@,
            },
        }
    }
}

impl View for Statement {
    type V = StatementView;

    open spec fn view(&self) -> StatementView {
        self.deep_view()
    }
}

/// A function: its name, the names of its arguments, and its statements.
#[derive(Debug)]
pub struct FunctionDeclaration {
    pub function_name: String,
    pub arguments: Vec<Argument>,
    pub statements: Vec<Statement>,
}

/// The mathematical value of a [`FunctionDeclaration`].
pub struct FunctionDeclarationView {
    pub function_name: Seq<char>,
    pub arguments: Seq<Seq<char>>,
    pub statements: Seq<StatementView>,
}

impl DeepView for FunctionDeclaration {
    type V = FunctionDeclarationView;

    open spec fn deep_view(&self) -> FunctionDeclarationView {
        FunctionDeclarationView {
            function_name: self.function_name@,
            arguments: self.arguments.deep_view(),
            statements: self.statements.deep_view(),
        }
    }
}

impl View for FunctionDeclaration {
    type V = FunctionDeclarationView;

    open spec fn view(&self) -> FunctionDeclarationView {
        self.deep_view()
    }
}

/// A program: its functions, and the string literals of its expressions
/// with their labels, in the order in which they were read.
#[derive(Debug)]
pub struct Program {
    pub functions: Vec<FunctionDeclaration>,
    pub string_literals: Vec<(String, String)>,
}

/// The mathematical value of a [`Program`].
pub struct ProgramView {
    pub functions: Seq<FunctionDeclarationView>,
    pub string_literals: Seq<(Seq<char>, Seq<char>)>,
}

impl DeepView for Program {
    type V = ProgramView;

    open spec fn deep_view(&self) -> ProgramView {
        ProgramView {
            functions: self.functions.deep_view(),
            string_literals: self.string_literals.deep_view(),
        }
    }
}

impl View for Program {
    type V = ProgramView;

    open spec fn view(&self) -> ProgramView {
        self.deep_view()
    }
}

impl Program {
    pub fn new() -> (program: Self)
        ensures
            program@ == (ProgramView { functions: Seq::empty(), string_literals: Seq::empty() }),
    {
        let program = Program { functions: Vec::new(), string_literals: Vec::new() };
        assert(program@.functions =~= Seq::empty());
        assert(program@.string_literals =~= Seq::empty());
        program
    }
}

/// The parser of one source file: its tokenizer, the token that is read
/// next, and the string literals met so far with their labels.
pub struct Parser {
    tokenizer: Tokenizer,
    lookahead: Option<Token>,
    string_literals: Vec<(String, String)>,
}

/// The mathematical value of a [`Parser`].
pub struct ParserView {
    pub tokenizer: TokenizerView,
    pub lookahead: Option<TokenView>,
    pub string_literals: Seq<(Seq<char>, Seq<char>)>,
}

impl View for Parser {
    type V = ParserView;

    closed spec fn view(&self) -> ParserView {
        ParserView {
            tokenizer: self.tokenizer@,
            lookahead: self.lookahead.deep_view(),
            string_literals: self.string_literals.deep_view(),
        }
    }
}

/// The compiler of one source file.
pub struct Compiler {
    filename: String,
}

impl Compiler {
    /// The name of the source file.
    pub closed spec fn file(&self) -> Seq<char> {
        self.filename@
    }
}

} // verus!
