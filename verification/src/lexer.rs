//! The lexer: turns the bytes of a source file into position-tagged tokens.

use vstd::prelude::*;
use vstd::string::*;
use vstd::utf8::*;
use crate::text::{ascii_chars, lemma_ascii_decodes, located, located_text, string_from_utf8};

verus! {

/// A place in the source text. Lines and columns count from 1.
#[derive(Debug, Clone, Copy, PartialEq, Eq, Structural)]
pub struct Position {
    pub line: usize,
    pub column: usize,
}

impl Position {
    /// The position of the first byte of a file.
    pub fn start() -> (p: Self)
        ensures
            p == (Position { line: 1, column: 1 }),
    {
        Self { line: 1, column: 1 }
    }

    /// Moves to the first column of the next line.
    pub fn new_line(&mut self)
        requires
            old(self).line < usize::MAX,
        ensures
            final(self).line == old(self).line + 1,
            final(self).column == 1,
    {
        self.line += 1;
        self.column = 1;
    }

    /// Moves one column to the right.
    pub fn next_column(&mut self)
        requires
            old(self).column < usize::MAX,
        ensures
            final(self).line == old(self).line,
            final(self).column == old(self).column + 1,
    {
        self.column += 1;
    }
}

/// The binary operators of the language.
#[derive(Debug, Clone, Copy, PartialEq, Eq, Structural)]
pub enum BinaryOperator {
    Add,
    Sub,
    Mul,
    Div,
    BitwiseOr,
    BitwiseAnd,
    BitwiseXor,
}

impl BinaryOperator {
    /// How tightly the operator binds: multiplication and division bind
    /// tighter than addition and subtraction, which bind tighter than the
    /// bitwise operators `&`, `^` and `|`, in that order.
    pub open spec fn precedence(self) -> nat {
        match self {
            BinaryOperator::Mul | BinaryOperator::Div => 5,
            BinaryOperator::Add | BinaryOperator::Sub => 4,
            BinaryOperator::BitwiseAnd => 3,
            BinaryOperator::BitwiseXor => 2,
            BinaryOperator::BitwiseOr => 1,
        }
    }

    pub fn get_precedence(&self) -> (p: u8)
        ensures
            p == self.precedence(),
    {
        match self {
            BinaryOperator::Mul | BinaryOperator::Div => 5,
            BinaryOperator::Add | BinaryOperator::Sub => 4,
            BinaryOperator::BitwiseAnd => 3,
            BinaryOperator::BitwiseXor => 2,
            BinaryOperator::BitwiseOr => 1,
        }
    }
}

/// What a token is, with the text or value it carries.
#[derive(Debug, Clone)]
pub enum TokenType {
    NumberLiteral(u64),
    StringLiteral(String),
    Character(char),
    Identifier(String),
    Return,
    If,
    While,
    For,
    True,
    False,
    Function,
    Var,
    Colon,
    Semicolon,
    LeftPar,
    RightPar,
    LeftBrace,
    RightBrace,
    Equals,
    Comma,
    BinaryOperation(BinaryOperator),
    Call,
    UnaryNot,
    UnaryInc,
    UnaryDec,
}

/// The mathematical value of a [`TokenType`]: strings are sequences of
/// characters.
pub enum TokenKind {
    NumberLiteral(u64),
    StringLiteral(Seq<char>),
    Character(char),
    Identifier(Seq<char>),
    Return,
    If,
    While,
    For,
    True,
    False,
    Function,
    Var,
    Colon,
    Semicolon,
    LeftPar,
    RightPar,
    LeftBrace,
    RightBrace,
    Equals,
    Comma,
    BinaryOperation(BinaryOperator),
    Call,
    UnaryNot,
    UnaryInc,
    UnaryDec,
}

impl View for TokenType {
    type V = TokenKind;

    open spec fn view(&self) -> TokenKind {
        match self {
            TokenType::NumberLiteral(n) => TokenKind::NumberLiteral(*n),
            TokenType::StringLiteral(s) => TokenKind::StringLiteral(s@),
            TokenType::Character(c) => TokenKind::Character(*c),
            TokenType::Identifier(s) => TokenKind::Identifier(s@),
            TokenType::Return => TokenKind::Return,
            TokenType::If => TokenKind::If,
            TokenType::While => TokenKind::While,
            TokenType::For => TokenKind::For,
            TokenType::True => TokenKind::True,
            TokenType::False => TokenKind::False,
            TokenType::Function => TokenKind::Function,
            TokenType::Var => TokenKind::Var,
            TokenType::Colon => TokenKind::Colon,
            TokenType::Semicolon => TokenKind::Semicolon,
            TokenType::LeftPar => TokenKind::LeftPar,
            TokenType::RightPar => TokenKind::RightPar,
            TokenType::LeftBrace => TokenKind::LeftBrace,
            TokenType::RightBrace => TokenKind::RightBrace,
            TokenType::Equals => TokenKind::Equals,
            TokenType::Comma => TokenKind::Comma,
            TokenType::BinaryOperation(op) => TokenKind::BinaryOperation(*op),
            TokenType::Call => TokenKind::Call,
            TokenType::UnaryNot => TokenKind::UnaryNot,
            TokenType::UnaryInc => TokenKind::UnaryInc,
            TokenType::UnaryDec => TokenKind::UnaryDec,
        }
    }
}

impl DeepView for TokenType {
    type V = TokenKind;

    open spec fn deep_view(&self) -> TokenKind {
        self@
    }
}

impl TokenType {
    /// Whether two token types are the same, payload included.
    pub fn same(&self, other: &TokenType) -> (r: bool)
        ensures
            r == (self@ == other@),
    {
        match (self, other) {
            (TokenType::NumberLiteral(a), TokenType::NumberLiteral(b)) => *a == *b,
            (TokenType::StringLiteral(a), TokenType::StringLiteral(b)) => *a == *b,
            (TokenType::Character(a), TokenType::Character(b)) => *a == *b,
            (TokenType::Identifier(a), TokenType::Identifier(b)) => *a == *b,
            (TokenType::Return, TokenType::Return) => true,
            (TokenType::If, TokenType::If) => true,
            (TokenType::While, TokenType::While) => true,
            (TokenType::For, TokenType::For) => true,
            (TokenType::True, TokenType::True) => true,
            (TokenType::False, TokenType::False) => true,
            (TokenType::Function, TokenType::Function) => true,
            (TokenType::Var, TokenType::Var) => true,
            (TokenType::Colon, TokenType::Colon) => true,
            (TokenType::Semicolon, TokenType::Semicolon) => true,
            (TokenType::LeftPar, TokenType::LeftPar) => true,
            (TokenType::RightPar, TokenType::RightPar) => true,
            (TokenType::LeftBrace, TokenType::LeftBrace) => true,
            (TokenType::RightBrace, TokenType::RightBrace) => true,
            (TokenType::Equals, TokenType::Equals) => true,
            (TokenType::Comma, TokenType::Comma) => true,
            (TokenType::BinaryOperation(a), TokenType::BinaryOperation(b)) => *a == *b,
            (TokenType::Call, TokenType::Call) => true,
            (TokenType::UnaryNot, TokenType::UnaryNot) => true,
            (TokenType::UnaryInc, TokenType::UnaryInc) => true,
            (TokenType::UnaryDec, TokenType::UnaryDec) => true,
            _ => false,
        }
    }
}

/// A token and the position of its first byte.
#[derive(Debug, Clone)]
pub struct Token {
    pub token_type: TokenType,
    pub position: Position,
}

/// The mathematical value of a [`Token`].
pub struct TokenView {
    pub kind: TokenKind,
    pub position: Position,
}

impl View for Token {
    type V = TokenView;

    open spec fn view(&self) -> TokenView {
        TokenView { kind: self.token_type@, position: self.position }
    }
}

impl DeepView for Token {
    type V = TokenView;

    open spec fn deep_view(&self) -> TokenView {
        self@
    }
}

/// Why the lexer gave up.
#[derive(Debug, Clone, Copy, PartialEq, Eq, Structural)]
pub enum LexErrorKind {
    /// A byte that starts no token.
    UnknownToken,
    /// A string literal without its closing quote.
    UnterminatedString,
    /// A character literal that is cut short or lacks its closing quote.
    MalformedCharacter,
    /// A letter or digit that is no digit of the radix, which is carried.
    InvalidDigit(u64),
    /// A radix other than 2, 8, 10 or 16 before `#`.
    UnknownBase,
    /// A number literal above the largest 64-bit value.
    NumberTooLarge,
    /// A string literal whose bytes are not UTF-8.
    InvalidUtf8,
}

impl LexErrorKind {
    /// What the error says.
    pub open spec fn message_text(self) -> Seq<char> {
        match self {
            LexErrorKind::UnknownToken => "Unknown token"@,
            LexErrorKind::UnterminatedString => "Expected closing string sign"@,
            LexErrorKind::MalformedCharacter => "Expected closing character sign"@,
            LexErrorKind::InvalidDigit(radix) => if radix == 2 {
                "Invalid binary number"@
            } else if radix == 8 {
                "Invalid octal number"@
            } else if radix == 16 {
                "Invalid hexadecimal number"@
            } else {
                "Invalid decimal number"@
            },
            LexErrorKind::UnknownBase => "Unknown numerical base"@,
            LexErrorKind::NumberTooLarge => "Number literal out of range"@,
            LexErrorKind::InvalidUtf8 => "String literal is not UTF-8"@,
        }
    }

    /// What the error says.
    pub fn message(&self) -> (text: &'static str)
        ensures
            text@ == self.message_text(),
    {
        match self {
            LexErrorKind::UnknownToken => "Unknown token",
            LexErrorKind::UnterminatedString => "Expected closing string sign",
            LexErrorKind::MalformedCharacter => "Expected closing character sign",
            LexErrorKind::InvalidDigit(radix) => if *radix == 2 {
                "Invalid binary number"
            } else if *radix == 8 {
                "Invalid octal number"
            } else if *radix == 16 {
                "Invalid hexadecimal number"
            } else {
                "Invalid decimal number"
            },
            LexErrorKind::UnknownBase => "Unknown numerical base",
            LexErrorKind::NumberTooLarge => "Number literal out of range",
            LexErrorKind::InvalidUtf8 => "String literal is not UTF-8",
        }
    }
}

/// A fatal lexing error with the place it was found.
#[derive(Debug, Clone)]
pub struct LexError {
    pub kind: LexErrorKind,
    pub file: String,
    pub position: Position,
}

impl LexError {
    /// The error as text: file, line, column and message.
    pub fn to_string(&self) -> (text: String)
        ensures
            text@ == located_text(
                self.file@,
                self.position.line as nat,
                self.position.column as nat,
                self.kind.message_text(),
            ),
    {
        located(&self.file, self.position.line, self.position.column, self.kind.message())
    }
}

// The bytes that the lexer tells apart, by their ASCII names.
pub const TAB: u8 = 9;

pub const LINE_FEED: u8 = 10;

pub const CARRIAGE_RETURN: u8 = 13;

pub const BANG: u8 = 33;

pub const QUOTE: u8 = 34;

pub const HASH: u8 = 35;

pub const AMPERSAND: u8 = 38;

pub const APOSTROPHE: u8 = 39;

pub const LEFT_PAR: u8 = 40;

pub const RIGHT_PAR: u8 = 41;

pub const STAR: u8 = 42;

pub const PLUS: u8 = 43;

pub const COMMA: u8 = 44;

pub const MINUS: u8 = 45;

pub const SLASH: u8 = 47;

pub const DIGIT_0: u8 = 48;

pub const DIGIT_9: u8 = 57;

pub const COLON: u8 = 58;

pub const SEMICOLON: u8 = 59;

pub const EQUALS: u8 = 61;

pub const AT: u8 = 64;

pub const UPPER_A: u8 = 65;

pub const UPPER_F: u8 = 70;

pub const UPPER_Z: u8 = 90;

pub const BACKSLASH: u8 = 92;

pub const CARET: u8 = 94;

pub const UNDERSCORE: u8 = 95;

pub const LOWER_A: u8 = 97;

pub const LOWER_F: u8 = 102;

pub const LOWER_N: u8 = 110;

pub const LOWER_R: u8 = 114;

pub const LOWER_T: u8 = 116;

pub const LOWER_Z: u8 = 122;

pub const LEFT_BRACE: u8 = 123;

pub const PIPE: u8 = 124;

pub const RIGHT_BRACE: u8 = 125;

/// Bytes that separate tokens: the ASCII blanks from tab to carriage return,
/// the space, and the two Latin-1 blanks (next line and no-break space).
pub open spec fn is_whitespace(b: u8) -> bool {
    (9 <= b <= 13) || b == 32 || b == 0x85 || b == 0xA0
}

pub open spec fn is_digit(b: u8) -> bool {
    DIGIT_0 <= b <= DIGIT_9
}

pub open spec fn is_alphabetic(b: u8) -> bool {
    (LOWER_A <= b <= LOWER_Z) || (UPPER_A <= b <= UPPER_Z)
}

pub open spec fn is_alphanumeric(b: u8) -> bool {
    is_alphabetic(b) || is_digit(b)
}

/// Bytes that may continue an identifier.
pub open spec fn is_identifier_byte(b: u8) -> bool {
    is_alphanumeric(b) || b == UNDERSCORE
}

/// The line of the byte at offset `i`: one more than the number of line
/// feeds before it.
pub open spec fn line_at(data: Seq<u8>, i: int) -> int
    decreases i,
{
    if i <= 0 {
        1
    } else if data[i - 1] == LINE_FEED {
        line_at(data, i - 1) + 1
    } else {
        line_at(data, i - 1)
    }
}

/// The column of the byte at offset `i`: one more than the number of bytes
/// between it and the last line feed before it.
pub open spec fn column_at(data: Seq<u8>, i: int) -> int
    decreases i,
{
    if i <= 0 {
        1
    } else if data[i - 1] == LINE_FEED {
        1
    } else {
        column_at(data, i - 1) + 1
    }
}

/// The position of the byte at offset `i` of `data`.
pub open spec fn position_at(data: Seq<u8>, i: int) -> Position {
    Position { line: line_at(data, i) as usize, column: column_at(data, i) as usize }
}

/// Lines and columns start at 1 and never exceed the offset by more than 1.
pub proof fn lemma_position_bounds(data: Seq<u8>, i: int)
    requires
        0 <= i,
    ensures
        1 <= line_at(data, i) <= i + 1,
        1 <= column_at(data, i) <= i + 1,
    decreases i,
{
    if i > 0 {
        lemma_position_bounds(data, i - 1);
    }
}

/// The offset of the first byte at or after `pos` that is no whitespace.
pub open spec fn skip_whitespace(data: Seq<u8>, pos: int) -> int
    decreases data.len() - pos,
{
    if 0 <= pos < data.len() && is_whitespace(data[pos]) {
        skip_whitespace(data, pos + 1)
    } else {
        pos
    }
}

/// The offset of the first byte at or after `pos` that cannot continue an
/// identifier.
pub open spec fn identifier_end(data: Seq<u8>, pos: int) -> int
    decreases data.len() - pos,
{
    if 0 <= pos < data.len() && is_identifier_byte(data[pos]) {
        identifier_end(data, pos + 1)
    } else {
        pos
    }
}

pub proof fn lemma_skip_whitespace_bounds(data: Seq<u8>, pos: int)
    requires
        0 <= pos <= data.len(),
    ensures
        pos <= skip_whitespace(data, pos) <= data.len(),
        skip_whitespace(data, pos) < data.len() ==> !is_whitespace(
            data[skip_whitespace(data, pos)],
        ),
    decreases data.len() - pos,
{
    if pos < data.len() && is_whitespace(data[pos]) {
        lemma_skip_whitespace_bounds(data, pos + 1);
    }
}

pub proof fn lemma_identifier_end_bounds(data: Seq<u8>, pos: int)
    requires
        0 <= pos <= data.len(),
    ensures
        pos <= identifier_end(data, pos) <= data.len(),
        forall|i: int| pos <= i < identifier_end(data, pos) ==> is_identifier_byte(#[trigger] data[i]),
    decreases data.len() - pos,
{
    if pos < data.len() && is_identifier_byte(data[pos]) {
        lemma_identifier_end_bounds(data, pos + 1);
    }
}

/// The keyword that `name` spells, or the identifier token for it.
pub open spec fn word_kind(name: Seq<char>) -> TokenKind {
    if name == "return"@ {
        TokenKind::Return
    } else if name == "if"@ {
        TokenKind::If
    } else if name == "while"@ {
        TokenKind::While
    } else if name == "for"@ {
        TokenKind::For
    } else if name == "true"@ {
        TokenKind::True
    } else if name == "false"@ {
        TokenKind::False
    } else if name == "fn"@ {
        TokenKind::Function
    } else if name == "var"@ {
        TokenKind::Var
    } else {
        TokenKind::Identifier(name)
    }
}

/// The value of `b` as a digit of `radix`, if it is one. Letters count from
/// ten in either case.
pub open spec fn digit_value(b: u8, radix: u64) -> Option<u64> {
    let v: int = if is_digit(b) {
        b - DIGIT_0
    } else if LOWER_A <= b <= LOWER_F {
        b - LOWER_A + 10
    } else if UPPER_A <= b <= UPPER_F {
        b - UPPER_A + 10
    } else {
        16
    };
    if v < radix {
        Some(v as u64)
    } else {
        None
    }
}

/// What scanning a piece of the input gives: a value and the offset behind
/// it, or the kind of error and the offset it is reported at.
pub type Scanned<T> = Result<(T, int), (LexErrorKind, int)>;

/// Reads the run of letters and digits at `pos` as a number in `radix`,
/// continuing from the value `acc` of the digits already read. The first
/// byte that is no digit of the radix, or that takes the value above 64
/// bits, is an error at that byte. An empty run gives `acc`.
pub open spec fn scan_digits(data: Seq<u8>, pos: int, radix: u64, acc: u64) -> Scanned<u64>
    decreases data.len() - pos,
{
    if 0 <= pos < data.len() && is_alphanumeric(data[pos]) {
        match digit_value(data[pos], radix) {
            None => Err((LexErrorKind::InvalidDigit(radix), pos)),
            Some(d) => if acc * radix + d > u64::MAX {
                Err((LexErrorKind::NumberTooLarge, pos))
            } else {
                scan_digits(data, pos + 1, radix, (acc * radix + d) as u64)
            },
        }
    } else {
        Ok((acc, pos))
    }
}

/// The number that the digits of `data` from `start` up to `end` spell in
/// `radix`: each digit counts `radix` times as much as the one behind it.
pub open spec fn digits_value(data: Seq<u8>, start: int, end: int, radix: u64) -> int
    decreases end - start,
{
    if end <= start {
        0
    } else {
        digits_value(data, start, end - 1, radix) * radix + match digit_value(
            data[end - 1],
            radix,
        ) {
            Some(d) => d as int,
            None => 0,
        }
    }
}

/// More digits never spell a smaller number.
pub proof fn lemma_digits_value_grows(data: Seq<u8>, start: int, k: int, end: int, radix: u64)
    requires
        start <= k <= end,
        1 <= radix,
    ensures
        0 <= digits_value(data, start, k, radix) <= digits_value(data, start, end, radix),
    decreases end - start,
{
    if start < end {
        if k < end {
            lemma_digits_value_grows(data, start, k, end - 1, radix);
        } else {
            lemma_digits_value_grows(data, start, end - 1, end - 1, radix);
        }
        let shorter = digits_value(data, start, end - 1, radix);
        assert(shorter * radix >= shorter) by (nonlinear_arith)
            requires
                shorter >= 0,
                radix >= 1,
        ;
    }
}

/// A run of digits of `radix` that ends at `end` and spells a number within
/// 64 bits is read as that number: the literal `16#ff` is 15 * 16 + 15.
pub proof fn lemma_scan_digits_value(data: Seq<u8>, start: int, end: int, radix: u64)
    requires
        0 <= start <= end <= data.len(),
        1 <= radix,
        forall|i: int|
            start <= i < end ==> is_alphanumeric(#[trigger] data[i]) && digit_value(
                data[i],
                radix,
            ) is Some,
        end == data.len() || !is_alphanumeric(data[end]),
        digits_value(data, start, end, radix) <= u64::MAX,
    ensures
        scan_digits(data, start, radix, 0) == Ok::<(u64, int), (LexErrorKind, int)>(
            (digits_value(data, start, end, radix) as u64, end),
        ),
{
    lemma_scan_digits_partial(data, start, end, end, radix);
}

/// Reading the digits from `start` is reading on from `k` with the number
/// that the digits before `k` spell.
proof fn lemma_scan_digits_partial(data: Seq<u8>, start: int, k: int, end: int, radix: u64)
    requires
        0 <= start <= k <= end <= data.len(),
        1 <= radix,
        forall|i: int|
            start <= i < end ==> is_alphanumeric(#[trigger] data[i]) && digit_value(
                data[i],
                radix,
            ) is Some,
        digits_value(data, start, end, radix) <= u64::MAX,
    ensures
        scan_digits(data, start, radix, 0) == scan_digits(
            data,
            k,
            radix,
            digits_value(data, start, k, radix) as u64,
        ),
    decreases k - start,
{
    if k > start {
        lemma_scan_digits_partial(data, start, k - 1, end, radix);
        lemma_digits_value_grows(data, start, k - 1, end, radix);
        lemma_digits_value_grows(data, start, k, end, radix);
        assert(is_alphanumeric(data[k - 1]));
    }
}

pub open spec fn is_known_base(base: u64) -> bool {
    base == 2 || base == 8 || base == 10 || base == 16
}

/// A number literal at `pos`: decimal digits, or a decimal base selector,
/// `#`, and digits in that base.
pub open spec fn scan_number(data: Seq<u8>, pos: int) -> Scanned<u64> {
    match scan_digits(data, pos, 10, 0) {
        Err(e) => Err(e),
        Ok((base, end)) => if 0 <= end < data.len() && data[end] == HASH {
            if is_known_base(base) {
                scan_digits(data, end + 1, base, 0)
            } else {
                Err((LexErrorKind::UnknownBase, pos))
            }
        } else {
            Ok((base, end))
        },
    }
}

/// The byte that an escape letter stands for; `quote` is the quote of the
/// literal, which may be escaped too.
pub open spec fn escape_value(b: u8, quote: u8) -> Option<u8> {
    if b == quote {
        Some(quote)
    } else if b == LOWER_N {
        Some(LINE_FEED)
    } else if b == LOWER_T {
        Some(TAB)
    } else if b == LOWER_R {
        Some(CARRIAGE_RETURN)
    } else if b == DIGIT_0 {
        Some(0u8)
    } else if b == BACKSLASH {
        Some(BACKSLASH)
    } else {
        None
    }
}

/// The bytes of a string literal whose body starts at `pos`, read up to the
/// closing quote. `escape` says that a backslash was just read and `acc`
/// holds the bytes read so far. An unknown escape adds nothing.
pub open spec fn scan_string_body(data: Seq<u8>, pos: int, escape: bool, acc: Seq<u8>) -> Option<
    (Seq<u8>, int),
>
    decreases data.len() - pos,
{
    if 0 <= pos < data.len() {
        let b = data[pos];
        if escape {
            match escape_value(b, QUOTE) {
                Some(v) => scan_string_body(data, pos + 1, false, acc.push(v)),
                None => scan_string_body(data, pos + 1, false, acc),
            }
        } else if b == QUOTE {
            Some((acc, pos + 1))
        } else if b == BACKSLASH {
            scan_string_body(data, pos + 1, true, acc)
        } else {
            scan_string_body(data, pos + 1, false, acc.push(b))
        }
    } else {
        None
    }
}

/// A string literal whose opening quote is at `pos`.
pub open spec fn scan_string(data: Seq<u8>, pos: int) -> Scanned<Seq<char>> {
    match scan_string_body(data, pos + 1, false, Seq::empty()) {
        None => Err((LexErrorKind::UnterminatedString, pos)),
        Some((bytes, end)) => if valid_utf8(bytes) {
            Ok((decode_utf8(bytes), end))
        } else {
            Err((LexErrorKind::InvalidUtf8, pos))
        },
    }
}

/// A character literal whose opening quote is at `pos`: one byte, or a
/// backslash and an escape letter, then the closing quote. An unknown escape
/// stands for the backslash itself.
pub open spec fn scan_character(data: Seq<u8>, pos: int) -> Scanned<char> {
    if pos + 1 < data.len() && data[pos + 1] != BACKSLASH {
        if pos + 2 < data.len() && data[pos + 2] == APOSTROPHE {
            Ok((data[pos + 1] as char, pos + 3))
        } else {
            Err((LexErrorKind::MalformedCharacter, pos))
        }
    } else if pos + 3 < data.len() && data[pos + 3] == APOSTROPHE {
        let c = match escape_value(data[pos + 2], APOSTROPHE) {
            Some(v) => v,
            None => BACKSLASH,
        };
        Ok((c as char, pos + 4))
    } else {
        Err((LexErrorKind::MalformedCharacter, pos))
    }
}

/// The token of a byte that is a token by itself.
pub open spec fn single_byte_kind(b: u8) -> Option<TokenKind> {
    if b == COLON {
        Some(TokenKind::Colon)
    } else if b == LEFT_PAR {
        Some(TokenKind::LeftPar)
    } else if b == RIGHT_PAR {
        Some(TokenKind::RightPar)
    } else if b == LEFT_BRACE {
        Some(TokenKind::LeftBrace)
    } else if b == RIGHT_BRACE {
        Some(TokenKind::RightBrace)
    } else if b == SEMICOLON {
        Some(TokenKind::Semicolon)
    } else if b == EQUALS {
        Some(TokenKind::Equals)
    } else if b == COMMA {
        Some(TokenKind::Comma)
    } else if b == SLASH {
        Some(TokenKind::BinaryOperation(BinaryOperator::Div))
    } else if b == STAR {
        Some(TokenKind::BinaryOperation(BinaryOperator::Mul))
    } else if b == AMPERSAND {
        Some(TokenKind::BinaryOperation(BinaryOperator::BitwiseAnd))
    } else if b == PIPE {
        Some(TokenKind::BinaryOperation(BinaryOperator::BitwiseOr))
    } else if b == CARET {
        Some(TokenKind::BinaryOperation(BinaryOperator::BitwiseXor))
    } else if b == BANG {
        Some(TokenKind::UnaryNot)
    } else if b == AT {
        Some(TokenKind::Call)
    } else {
        None
    }
}

/// The token that starts at `pos`, where a byte that is no whitespace
/// stands, and the offset behind it.
pub open spec fn scan_token(data: Seq<u8>, pos: int) -> Scanned<TokenKind> {
    let b = data[pos];
    if single_byte_kind(b) is Some {
        Ok((single_byte_kind(b)->0, pos + 1))
    } else if b == PLUS {
        if pos + 1 < data.len() && data[pos + 1] == PLUS {
            Ok((TokenKind::UnaryInc, pos + 2))
        } else {
            Ok((TokenKind::BinaryOperation(BinaryOperator::Add), pos + 1))
        }
    } else if b == MINUS {
        if pos + 1 < data.len() && data[pos + 1] == MINUS {
            Ok((TokenKind::UnaryDec, pos + 2))
        } else {
            Ok((TokenKind::BinaryOperation(BinaryOperator::Sub), pos + 1))
        }
    } else if is_digit(b) {
        match scan_number(data, pos) {
            Ok((n, end)) => Ok((TokenKind::NumberLiteral(n), end)),
            Err(e) => Err(e),
        }
    } else if is_alphabetic(b) || b == UNDERSCORE {
        let end = identifier_end(data, pos);
        Ok((word_kind(ascii_chars(data.subrange(pos, end))), end))
    } else if b == QUOTE {
        match scan_string(data, pos) {
            Ok((s, end)) => Ok((TokenKind::StringLiteral(s), end)),
            Err(e) => Err(e),
        }
    } else if b == APOSTROPHE {
        match scan_character(data, pos) {
            Ok((c, end)) => Ok((TokenKind::Character(c), end)),
            Err(e) => Err(e),
        }
    } else {
        Err((LexErrorKind::UnknownToken, pos))
    }
}

/// What the lexer finds at offset `pos`: whitespace is skipped; then either
/// the input is over (`Ok` of `None` and the length), or a token stands
/// there (`Ok` of the token and the offset behind it), or an error.
pub open spec fn scan(data: Seq<u8>, pos: int) -> Scanned<Option<TokenView>> {
    let start = skip_whitespace(data, pos);
    if start >= data.len() {
        Ok((None, start))
    } else {
        match scan_token(data, start) {
            Ok((kind, end)) => Ok(
                (Some(TokenView { kind, position: position_at(data, start) }), end),
            ),
            Err(e) => Err(e),
        }
    }
}

pub proof fn lemma_scan_digits_bounds(data: Seq<u8>, pos: int, radix: u64, acc: u64)
    requires
        0 <= pos <= data.len(),
    ensures
        scan_digits(data, pos, radix, acc) matches Ok((_, end)) ==> pos <= end <= data.len() && (
        pos < data.len() && is_alphanumeric(data[pos]) ==> pos < end),
    decreases data.len() - pos,
{
    if pos < data.len() && is_alphanumeric(data[pos]) {
        match digit_value(data[pos], radix) {
            None => {},
            Some(d) => {
                if acc * radix + d <= u64::MAX {
                    lemma_scan_digits_bounds(data, pos + 1, radix, (acc * radix + d) as u64);
                }
            },
        }
    }
}

pub proof fn lemma_scan_string_body_bounds(data: Seq<u8>, pos: int, escape: bool, acc: Seq<u8>)
    requires
        0 <= pos <= data.len(),
    ensures
        scan_string_body(data, pos, escape, acc) matches Some((_, end)) ==> pos < end
            <= data.len(),
    decreases data.len() - pos,
{
    if pos < data.len() {
        let b = data[pos];
        if escape {
            match escape_value(b, QUOTE) {
                Some(v) => lemma_scan_string_body_bounds(data, pos + 1, false, acc.push(v)),
                None => lemma_scan_string_body_bounds(data, pos + 1, false, acc),
            }
        } else if b == QUOTE {
        } else if b == BACKSLASH {
            lemma_scan_string_body_bounds(data, pos + 1, true, acc);
        } else {
            lemma_scan_string_body_bounds(data, pos + 1, false, acc.push(b));
        }
    }
}

/// A token is never empty and never reaches past the end of the input.
pub proof fn lemma_scan_token_advances(data: Seq<u8>, pos: int)
    requires
        0 <= pos < data.len(),
    ensures
        scan_token(data, pos) matches Ok((_, end)) ==> pos < end <= data.len(),
{
    let b = data[pos];
    if is_digit(b) {
        lemma_scan_digits_bounds(data, pos, 10, 0);
        match scan_digits(data, pos, 10, 0) {
            Ok((base, end)) => {
                if end < data.len() {
                    lemma_scan_digits_bounds(data, end + 1, base, 0);
                }
            },
            Err(_) => {},
        }
    } else if is_alphabetic(b) || b == UNDERSCORE {
        lemma_identifier_end_bounds(data, pos + 1);
    } else if b == QUOTE {
        lemma_scan_string_body_bounds(data, pos + 1, false, Seq::empty());
    }
}

/// Reading a token moves the cursor forward; reading the end leaves it at
/// the end.
pub proof fn lemma_scan_advances(data: Seq<u8>, pos: int)
    requires
        0 <= pos <= data.len(),
    ensures
        scan(data, pos) matches Ok((Some(_), end)) ==> pos < end <= data.len(),
        scan(data, pos) matches Ok((None, end)) ==> end == data.len(),
{
    lemma_skip_whitespace_bounds(data, pos);
    let start = skip_whitespace(data, pos);
    if start < data.len() {
        lemma_scan_token_advances(data, start);
    }
}

/// The tokens of `data` from offset `pos` to the end, or the first error.
pub open spec fn tokens_from(data: Seq<u8>, pos: int) -> Result<
    Seq<TokenView>,
    (LexErrorKind, int),
>
    decreases data.len() - pos,
    when 0 <= pos <= data.len()
    via tokens_from_decreases
{
    match scan(data, pos) {
        Err(e) => Err(e),
        Ok((None, _)) => Ok(Seq::empty()),
        Ok((Some(token), end)) => match tokens_from(data, end) {
            Ok(rest) => Ok(seq![token] + rest),
            Err(e) => Err(e),
        },
    }
}

#[via_fn]
proof fn tokens_from_decreases(data: Seq<u8>, pos: int) {
    lemma_scan_advances(data, pos);
}

/// The tokens `read`, followed by the outcome `rest` of reading on.
pub open spec fn tokens_then(
    read: Seq<TokenView>,
    rest: Result<Seq<TokenView>, (LexErrorKind, int)>,
) -> Result<Seq<TokenView>, (LexErrorKind, int)> {
    match rest {
        Ok(more) => Ok(read + more),
        Err(e) => Err(e),
    }
}

pub fn byte_is_whitespace(b: u8) -> (r: bool)
    ensures
        r == is_whitespace(b),
{
    (9 <= b && b <= 13) || b == 32 || b == 0x85 || b == 0xA0
}

pub fn byte_is_digit(b: u8) -> (r: bool)
    ensures
        r == is_digit(b),
{
    DIGIT_0 <= b && b <= DIGIT_9
}

pub fn byte_is_alphabetic(b: u8) -> (r: bool)
    ensures
        r == is_alphabetic(b),
{
    (LOWER_A <= b && b <= LOWER_Z) || (UPPER_A <= b && b <= UPPER_Z)
}

pub fn byte_is_identifier(b: u8) -> (r: bool)
    ensures
        r == is_identifier_byte(b),
{
    byte_is_alphabetic(b) || byte_is_digit(b) || b == UNDERSCORE
}

pub fn byte_is_alphanumeric(b: u8) -> (r: bool)
    ensures
        r == is_alphanumeric(b),
{
    byte_is_alphabetic(b) || byte_is_digit(b)
}

/// The value of `b` as a digit of `radix`, if it is one.
pub fn byte_digit_value(b: u8, radix: u64) -> (r: Option<u64>)
    ensures
        r == digit_value(b, radix),
{
    let v: u8 = if byte_is_digit(b) {
        b - DIGIT_0
    } else if LOWER_A <= b && b <= LOWER_F {
        b - LOWER_A + 10
    } else if UPPER_A <= b && b <= UPPER_F {
        b - UPPER_A + 10
    } else {
        16
    };
    if (v as u64) < radix {
        Some(v as u64)
    } else {
        None
    }
}

/// The byte that an escape letter stands for, if the letter is known.
pub fn byte_escape_value(b: u8, quote: u8) -> (r: Option<u8>)
    ensures
        r == escape_value(b, quote),
{
    if b == quote {
        Some(quote)
    } else if b == LOWER_N {
        Some(LINE_FEED)
    } else if b == LOWER_T {
        Some(TAB)
    } else if b == LOWER_R {
        Some(CARRIAGE_RETURN)
    } else if b == DIGIT_0 {
        Some(0u8)
    } else if b == BACKSLASH {
        Some(BACKSLASH)
    } else {
        None
    }
}

/// The keyword that `label` spells, or the identifier token that holds it.
pub fn classify_word(label: String) -> (token_type: TokenType)
    ensures
        token_type@ == word_kind(label@),
{
    if label == String::from_str("return") {
        TokenType::Return
    } else if label == String::from_str("if") {
        TokenType::If
    } else if label == String::from_str("while") {
        TokenType::While
    } else if label == String::from_str("for") {
        TokenType::For
    } else if label == String::from_str("true") {
        TokenType::True
    } else if label == String::from_str("false") {
        TokenType::False
    } else if label == String::from_str("fn") {
        TokenType::Function
    } else if label == String::from_str("var") {
        TokenType::Var
    } else {
        TokenType::Identifier(label)
    }
}

/// A cursor over the bytes of one source file.
pub struct Lexer {
    filename: String,
    data: Vec<u8>,
    position: usize,
    file_position: Position,
}

impl Lexer {
    /// The bytes of the file.
    pub closed spec fn source(&self) -> Seq<u8> {
        self.data@
    }

    /// The name of the file, which only errors mention.
    pub closed spec fn file(&self) -> Seq<char> {
        self.filename@
    }

    /// The offset of the next byte to read.
    pub closed spec fn cursor(&self) -> int {
        self.position as int
    }

    /// The cursor lies within the source and the tracked line and column
    /// are those of the cursor.
    pub closed spec fn wf(&self) -> bool {
        &&& self.position <= self.data.len()
        &&& self.data.len() < usize::MAX
        &&& self.file_position == position_at(self.data@, self.position as int)
    }

    /// The lexer reads the same file as `before` and stands `n` bytes
    /// further on.
    pub open spec fn advanced(&self, before: &Lexer, n: int) -> bool {
        &&& self.wf()
        &&& self.source() == before.source()
        &&& self.file() == before.file()
        &&& self.cursor() == before.cursor() + n
    }

    /// The view of a token of `kind` that starts at the cursor.
    pub open spec fn token_here(&self, kind: TokenKind) -> TokenView {
        TokenView { kind, position: position_at(self.source(), self.cursor()) }
    }

    /// The byte at the cursor is followed at once by the byte `b`.
    pub open spec fn followed_by(&self, b: u8) -> bool {
        self.cursor() + 1 < self.source().len() && self.source()[self.cursor() + 1] == b
    }

    /// `error` reports `kind` at offset `at` of this lexer's file.
    pub open spec fn reports(&self, error: LexError, kind: LexErrorKind, at: int) -> bool {
        &&& error.kind == kind
        &&& error.position == position_at(self.source(), at)
        &&& error.file@ == self.file()
    }

    /// The cursor of a well-formed lexer lies within its source.
    pub proof fn lemma_cursor_in_bounds(&self)
        requires
            self.wf(),
        ensures
            0 <= self.cursor() <= self.source().len(),
            self.source().len() < usize::MAX,
    {
    }

    /// A lexer at the start of `data`, the contents of the file `filename`.
    pub fn from_file(filename: &str, data: Vec<u8>) -> (lexer: Self)
        requires
            data.len() < usize::MAX,
        ensures
            lexer.wf(),
            lexer.source() == data@,
            lexer.file() == filename@,
            lexer.cursor() == 0,
    {
        Self {
            filename: String::from_str(filename),
            data,
            position: 0,
            file_position: Position::start(),
        }
    }

    /// The name of the file.
    pub fn filename(&self) -> (name: &String)
        ensures
            name@ == self.file(),
    {
        &self.filename
    }

    /// The position of the cursor in lines and columns.
    pub fn file_position(&self) -> (p: Position)
        requires
            self.wf(),
        ensures
            p == position_at(self.source(), self.cursor()),
    {
        self.file_position
    }

    /// Whether every byte has been read.
    pub fn reached_eof(&self) -> (r: bool)
        requires
            self.wf(),
        ensures
            r == (self.cursor() >= self.source().len()),
    {
        self.position >= self.data.len()
    }

    /// The byte `ahead` places after the cursor, if the file has one there.
    fn peek(&self, ahead: usize) -> (b: Option<u8>)
        requires
            self.wf(),
        ensures
            b == if self.cursor() + ahead < self.source().len() {
                Some(self.source()[self.cursor() + ahead])
            } else {
                None
            },
    {
        if ahead < self.data.len() - self.position {
            Some(self.data[self.position + ahead])
        } else {
            None
        }
    }

    /// An error of `kind` at `position` in this lexer's file.
    fn error(&self, kind: LexErrorKind, position: Position) -> (e: LexError)
        ensures
            e.kind == kind,
            e.position == position,
            e.file@ == self.file(),
    {
        LexError { kind, file: self.filename.clone(), position }
    }

    /// Steps over one byte, keeping line and column in step, and returns the
    /// byte that the cursor then stands on.
    fn next_char(&mut self) -> (b: Option<u8>)
        requires
            old(self).wf(),
            old(self).cursor() < old(self).source().len(),
        ensures
            final(self).advanced(old(self), 1),
            b == if final(self).cursor() < final(self).source().len() {
                Some(final(self).source()[final(self).cursor()])
            } else {
                None
            },
    {
        proof {
            lemma_position_bounds(self.data@, self.position as int);
        }
        if self.data[self.position] == LINE_FEED {
            self.file_position.new_line();
        } else {
            self.file_position.next_column();
        }
        self.position += 1;
        self.peek(0)
    }

    /// Steps over the whitespace at the cursor.
    fn skip_whitespaces(&mut self)
        requires
            old(self).wf(),
        ensures
            final(self).advanced(
                old(self),
                skip_whitespace(old(self).source(), old(self).cursor()) - old(self).cursor(),
            ),
    {
        while self.position < self.data.len() && byte_is_whitespace(self.data[self.position])
            invariant
                self.wf(),
                self.source() == old(self).source(),
                self.file() == old(self).file(),
                skip_whitespace(self.source(), self.cursor()) == skip_whitespace(
                    old(self).source(),
                    old(self).cursor(),
                ),
            decreases self.data.len() - self.position,
        {
            self.next_char();
        }
    }

    /// Reads the one-byte token `token_type` at the cursor.
    fn read_one(&mut self, token_type: TokenType) -> (token: Token)
        requires
            old(self).wf(),
            old(self).cursor() < old(self).source().len(),
        ensures
            final(self).advanced(old(self), 1),
            token@ == old(self).token_here(token_type@),
    {
        let token = Token { token_type, position: self.file_position };
        self.next_char();
        token
    }

    fn read_not(&mut self) -> (token: Token)
        requires
            old(self).wf(),
            old(self).cursor() < old(self).source().len(),
        ensures
            final(self).advanced(old(self), 1),
            token@ == old(self).token_here(TokenKind::UnaryNot),
    {
        self.read_one(TokenType::UnaryNot)
    }

    fn read_at(&mut self) -> (token: Token)
        requires
            old(self).wf(),
            old(self).cursor() < old(self).source().len(),
        ensures
            final(self).advanced(old(self), 1),
            token@ == old(self).token_here(TokenKind::Call),
    {
        self.read_one(TokenType::Call)
    }

    fn read_xor(&mut self) -> (token: Token)
        requires
            old(self).wf(),
            old(self).cursor() < old(self).source().len(),
        ensures
            final(self).advanced(old(self), 1),
            token@ == old(self).token_here(TokenKind::BinaryOperation(BinaryOperator::BitwiseXor)),
    {
        self.read_one(TokenType::BinaryOperation(BinaryOperator::BitwiseXor))
    }

    fn read_or(&mut self) -> (token: Token)
        requires
            old(self).wf(),
            old(self).cursor() < old(self).source().len(),
        ensures
            final(self).advanced(old(self), 1),
            token@ == old(self).token_here(TokenKind::BinaryOperation(BinaryOperator::BitwiseOr)),
    {
        self.read_one(TokenType::BinaryOperation(BinaryOperator::BitwiseOr))
    }

    fn read_and(&mut self) -> (token: Token)
        requires
            old(self).wf(),
            old(self).cursor() < old(self).source().len(),
        ensures
            final(self).advanced(old(self), 1),
            token@ == old(self).token_here(TokenKind::BinaryOperation(BinaryOperator::BitwiseAnd)),
    {
        self.read_one(TokenType::BinaryOperation(BinaryOperator::BitwiseAnd))
    }

    fn read_div(&mut self) -> (token: Token)
        requires
            old(self).wf(),
            old(self).cursor() < old(self).source().len(),
        ensures
            final(self).advanced(old(self), 1),
            token@ == old(self).token_here(TokenKind::BinaryOperation(BinaryOperator::Div)),
    {
        self.read_one(TokenType::BinaryOperation(BinaryOperator::Div))
    }

    fn read_mul(&mut self) -> (token: Token)
        requires
            old(self).wf(),
            old(self).cursor() < old(self).source().len(),
        ensures
            final(self).advanced(old(self), 1),
            token@ == old(self).token_here(TokenKind::BinaryOperation(BinaryOperator::Mul)),
    {
        self.read_one(TokenType::BinaryOperation(BinaryOperator::Mul))
    }

    fn read_comma(&mut self) -> (token: Token)
        requires
            old(self).wf(),
            old(self).cursor() < old(self).source().len(),
        ensures
            final(self).advanced(old(self), 1),
            token@ == old(self).token_here(TokenKind::Comma),
    {
        self.read_one(TokenType::Comma)
    }

    fn read_equals(&mut self) -> (token: Token)
        requires
            old(self).wf(),
            old(self).cursor() < old(self).source().len(),
        ensures
            final(self).advanced(old(self), 1),
            token@ == old(self).token_here(TokenKind::Equals),
    {
        self.read_one(TokenType::Equals)
    }

    /// Reads `-`, or `--` where a second `-` follows at once.
    fn read_sub(&mut self) -> (token: Token)
        requires
            old(self).wf(),
            old(self).cursor() < old(self).source().len(),
        ensures
            old(self).followed_by(MINUS) ==> final(self).advanced(old(self), 2),
            old(self).followed_by(MINUS) ==> token@ == old(self).token_here(TokenKind::UnaryDec),
            !old(self).followed_by(MINUS) ==> final(self).advanced(old(self), 1),
            !old(self).followed_by(MINUS) ==> token@ == old(self).token_here(
                TokenKind::BinaryOperation(BinaryOperator::Sub),
            ),
    {
        let position = self.file_position;
        let b = self.next_char();
        if b == Some(MINUS) {
            self.next_char();
            Token { token_type: TokenType::UnaryDec, position }
        } else {
            Token { token_type: TokenType::BinaryOperation(BinaryOperator::Sub), position }
        }
    }

    /// Reads `+`, or `++` where a second `+` follows at once.
    fn read_add(&mut self) -> (token: Token)
        requires
            old(self).wf(),
            old(self).cursor() < old(self).source().len(),
        ensures
            old(self).followed_by(PLUS) ==> final(self).advanced(old(self), 2),
            old(self).followed_by(PLUS) ==> token@ == old(self).token_here(TokenKind::UnaryInc),
            !old(self).followed_by(PLUS) ==> final(self).advanced(old(self), 1),
            !old(self).followed_by(PLUS) ==> token@ == old(self).token_here(
                TokenKind::BinaryOperation(BinaryOperator::Add),
            ),
    {
        let position = self.file_position;
        let b = self.next_char();
        if b == Some(PLUS) {
            self.next_char();
            Token { token_type: TokenType::UnaryInc, position }
        } else {
            Token { token_type: TokenType::BinaryOperation(BinaryOperator::Add), position }
        }
    }

    fn read_r_brace(&mut self) -> (token: Token)
        requires
            old(self).wf(),
            old(self).cursor() < old(self).source().len(),
        ensures
            final(self).advanced(old(self), 1),
            token@ == old(self).token_here(TokenKind::RightBrace),
    {
        self.read_one(TokenType::RightBrace)
    }

    fn read_l_brace(&mut self) -> (token: Token)
        requires
            old(self).wf(),
            old(self).cursor() < old(self).source().len(),
        ensures
            final(self).advanced(old(self), 1),
            token@ == old(self).token_here(TokenKind::LeftBrace),
    {
        self.read_one(TokenType::LeftBrace)
    }

    fn read_r_par(&mut self) -> (token: Token)
        requires
            old(self).wf(),
            old(self).cursor() < old(self).source().len(),
        ensures
            final(self).advanced(old(self), 1),
            token@ == old(self).token_here(TokenKind::RightPar),
    {
        self.read_one(TokenType::RightPar)
    }

    fn read_l_par(&mut self) -> (token: Token)
        requires
            old(self).wf(),
            old(self).cursor() < old(self).source().len(),
        ensures
            final(self).advanced(old(self), 1),
            token@ == old(self).token_here(TokenKind::LeftPar),
    {
        self.read_one(TokenType::LeftPar)
    }

    fn read_semicolon(&mut self) -> (token: Token)
        requires
            old(self).wf(),
            old(self).cursor() < old(self).source().len(),
        ensures
            final(self).advanced(old(self), 1),
            token@ == old(self).token_here(TokenKind::Semicolon),
    {
        self.read_one(TokenType::Semicolon)
    }

    fn read_colon(&mut self) -> (token: Token)
        requires
            old(self).wf(),
            old(self).cursor() < old(self).source().len(),
        ensures
            final(self).advanced(old(self), 1),
            token@ == old(self).token_here(TokenKind::Colon),
    {
        self.read_one(TokenType::Colon)
    }

    /// Reads the identifier or keyword at the cursor.
    fn read_identifier(&mut self) -> (token: Token)
        requires
            old(self).wf(),
        ensures
            final(self).advanced(
                old(self),
                identifier_end(old(self).source(), old(self).cursor()) - old(self).cursor(),
            ),
            token@ == old(self).token_here(
                word_kind(
                    ascii_chars(
                        old(self).source().subrange(
                            old(self).cursor(),
                            identifier_end(old(self).source(), old(self).cursor()),
                        ),
                    ),
                ),
            ),
    {
        let position = self.file_position;
        let ghost start = self.position as int;
        let mut buffer: Vec<u8> = Vec::new();
        while self.position < self.data.len() && byte_is_identifier(self.data[self.position])
            invariant
                self.wf(),
                self.source() == old(self).source(),
                self.file() == old(self).file(),
                start <= self.cursor(),
                start == old(self).cursor(),
                identifier_end(self.source(), self.cursor()) == identifier_end(
                    self.source(),
                    start,
                ),
                buffer@ == self.source().subrange(start, self.cursor()),
                forall|i: int| 0 <= i < buffer.len() ==> buffer[i] < 128,
            decreases self.data.len() - self.position,
        {
            buffer.push(self.data[self.position]);
            self.next_char();
            assert(buffer@ =~= self.source().subrange(start, self.cursor()));
        }
        proof {
            lemma_ascii_decodes(buffer@);
        }
        match string_from_utf8(buffer) {
            Some(label) => Token { token_type: classify_word(label), position },
            None => Token { token_type: TokenType::Identifier(String::new()), position },
        }
    }

    /// Reads the run of letters and digits at the cursor as a number in
    /// `radix`.
    fn next_digits(&mut self, radix: u64) -> (r: Result<u64, LexError>)
        requires
            old(self).wf(),
            2 <= radix <= 16,
        ensures
            final(self).wf(),
            final(self).source() == old(self).source(),
            final(self).file() == old(self).file(),
            match scan_digits(old(self).source(), old(self).cursor(), radix, 0) {
                Ok((value, end)) => r == Ok::<u64, LexError>(value) && final(self).cursor() == end,
                Err((kind, at)) => r is Err && old(self).reports(r->Err_0, kind, at),
            },
    {
        let mut result: u64 = 0;
        while self.position < self.data.len() && byte_is_alphanumeric(self.data[self.position])
            invariant
                self.wf(),
                self.source() == old(self).source(),
                self.file() == old(self).file(),
                2 <= radix <= 16,
                scan_digits(self.source(), self.cursor(), radix, result) == scan_digits(
                    old(self).source(),
                    old(self).cursor(),
                    radix,
                    0,
                ),
            decreases self.data.len() - self.position,
        {
            let digit = match byte_digit_value(self.data[self.position], radix) {
                Some(d) => d,
                None => {
                    return Err(self.error(LexErrorKind::InvalidDigit(radix), self.file_position));
                },
            };
            let next = match result.checked_mul(radix) {
                Some(shifted) => shifted.checked_add(digit),
                None => None,
            };
            match next {
                Some(value) => {
                    result = value;
                },
                None => {
                    return Err(self.error(LexErrorKind::NumberTooLarge, self.file_position));
                },
            }
            self.next_char();
        }
        Ok(result)
    }

    fn next_binary(&mut self) -> (r: Result<u64, LexError>)
        requires
            old(self).wf(),
        ensures
            final(self).wf(),
            final(self).source() == old(self).source(),
            final(self).file() == old(self).file(),
            match scan_digits(old(self).source(), old(self).cursor(), 2, 0) {
                Ok((value, end)) => r == Ok::<u64, LexError>(value) && final(self).cursor() == end,
                Err((kind, at)) => r is Err && old(self).reports(r->Err_0, kind, at),
            },
    {
        self.next_digits(2)
    }

    fn next_octal(&mut self) -> (r: Result<u64, LexError>)
        requires
            old(self).wf(),
        ensures
            final(self).wf(),
            final(self).source() == old(self).source(),
            final(self).file() == old(self).file(),
            match scan_digits(old(self).source(), old(self).cursor(), 8, 0) {
                Ok((value, end)) => r == Ok::<u64, LexError>(value) && final(self).cursor() == end,
                Err((kind, at)) => r is Err && old(self).reports(r->Err_0, kind, at),
            },
    {
        self.next_digits(8)
    }

    fn next_hexadecimal(&mut self) -> (r: Result<u64, LexError>)
        requires
            old(self).wf(),
        ensures
            final(self).wf(),
            final(self).source() == old(self).source(),
            final(self).file() == old(self).file(),
            match scan_digits(old(self).source(), old(self).cursor(), 16, 0) {
                Ok((value, end)) => r == Ok::<u64, LexError>(value) && final(self).cursor() == end,
                Err((kind, at)) => r is Err && old(self).reports(r->Err_0, kind, at),
            },
    {
        self.next_digits(16)
    }

    fn next_decimal(&mut self) -> (r: Result<u64, LexError>)
        requires
            old(self).wf(),
        ensures
            final(self).wf(),
            final(self).source() == old(self).source(),
            final(self).file() == old(self).file(),
            match scan_digits(old(self).source(), old(self).cursor(), 10, 0) {
                Ok((value, end)) => r == Ok::<u64, LexError>(value) && final(self).cursor() == end,
                Err((kind, at)) => r is Err && old(self).reports(r->Err_0, kind, at),
            },
    {
        self.next_digits(10)
    }

    /// Reads the number literal at the cursor.
    fn read_number_like(&mut self) -> (r: Result<Token, LexError>)
        requires
            old(self).wf(),
        ensures
            final(self).wf(),
            final(self).source() == old(self).source(),
            final(self).file() == old(self).file(),
            match scan_number(old(self).source(), old(self).cursor()) {
                Ok((value, end)) => r is Ok && r->Ok_0@ == old(self).token_here(
                    TokenKind::NumberLiteral(value),
                ) && final(self).cursor() == end,
                Err((kind, at)) => r is Err && old(self).reports(r->Err_0, kind, at),
            },
    {
        let position = self.file_position;
        let base = self.next_decimal()?;
        if self.peek(0) == Some(HASH) {
            self.next_char();
            let number = if base == 2 {
                self.next_binary()?
            } else if base == 8 {
                self.next_octal()?
            } else if base == 10 {
                self.next_decimal()?
            } else if base == 16 {
                self.next_hexadecimal()?
            } else {
                return Err(self.error(LexErrorKind::UnknownBase, position));
            };
            Ok(Token { token_type: TokenType::NumberLiteral(number), position })
        } else {
            Ok(Token { token_type: TokenType::NumberLiteral(base), position })
        }
    }

    /// Reads the string literal whose opening quote is at the cursor.
    fn read_string(&mut self) -> (r: Result<Token, LexError>)
        requires
            old(self).wf(),
            old(self).cursor() < old(self).source().len(),
        ensures
            final(self).wf(),
            final(self).source() == old(self).source(),
            final(self).file() == old(self).file(),
            match scan_string(old(self).source(), old(self).cursor()) {
                Ok((text, end)) => r is Ok && r->Ok_0@ == old(self).token_here(
                    TokenKind::StringLiteral(text),
                ) && final(self).cursor() == end,
                Err((kind, at)) => r is Err && old(self).reports(r->Err_0, kind, at),
            },
    {
        let position = self.file_position;
        let mut buffer: Vec<u8> = Vec::new();
        let mut escape = false;
        self.next_char();
        loop
            invariant_except_break
                scan_string_body(self.source(), self.cursor(), escape, buffer@)
                    == scan_string_body(
                    old(self).source(),
                    old(self).cursor() + 1,
                    false,
                    Seq::empty(),
                ),
            invariant
                self.wf(),
                self.source() == old(self).source(),
                self.file() == old(self).file(),
                position == position_at(old(self).source(), old(self).cursor()),
            ensures
                Some((buffer@, self.cursor())) == scan_string_body(
                    old(self).source(),
                    old(self).cursor() + 1,
                    false,
                    Seq::empty(),
                ),
            decreases self.data.len() - self.position,
        {
            let b = match self.peek(0) {
                Some(b) => b,
                None => {
                    return Err(self.error(LexErrorKind::UnterminatedString, position));
                },
            };
            self.next_char();
            if escape {
                match byte_escape_value(b, QUOTE) {
                    Some(v) => {
                        buffer.push(v);
                    },
                    None => {},
                }
                escape = false;
            } else if b == QUOTE {
                break ;
            } else if b == BACKSLASH {
                escape = true;
            } else {
                buffer.push(b);
            }
        }
        match string_from_utf8(buffer) {
            Some(label) => Ok(Token { token_type: TokenType::StringLiteral(label), position }),
            None => Err(self.error(LexErrorKind::InvalidUtf8, position)),
        }
    }

    /// Reads the character literal whose opening quote is at the cursor.
    fn read_character(&mut self) -> (r: Result<Token, LexError>)
        requires
            old(self).wf(),
            old(self).cursor() < old(self).source().len(),
        ensures
            final(self).wf(),
            final(self).source() == old(self).source(),
            final(self).file() == old(self).file(),
            match scan_character(old(self).source(), old(self).cursor()) {
                Ok((c, end)) => r is Ok && r->Ok_0@ == old(self).token_here(
                    TokenKind::Character(c),
                ) && final(self).cursor() == end,
                Err((kind, at)) => r is Err && old(self).reports(r->Err_0, kind, at),
            },
    {
        let position = self.file_position;
        let mut c = match self.next_char() {
            Some(b) => b,
            None => {
                return Err(self.error(LexErrorKind::MalformedCharacter, position));
            },
        };
        if c == BACKSLASH {
            let letter = match self.next_char() {
                Some(b) => b,
                None => {
                    return Err(self.error(LexErrorKind::MalformedCharacter, position));
                },
            };
            match byte_escape_value(letter, APOSTROPHE) {
                Some(v) => {
                    c = v;
                },
                None => {},
            }
        }
        if self.next_char() != Some(APOSTROPHE) {
            return Err(self.error(LexErrorKind::MalformedCharacter, position));
        }
        self.next_char();
        Ok(Token { token_type: TokenType::Character(c as char), position })
    }

    /// Reads the next token. `Ok(None)` says that only whitespace was left;
    /// the cursor then stands at the end. After an error the lexer stands
    /// where it stood before.
    pub fn next(&mut self) -> (r: Result<Option<Token>, LexError>)
        requires
            old(self).wf(),
        ensures
            final(self).wf(),
            final(self).source() == old(self).source(),
            final(self).file() == old(self).file(),
            match scan(old(self).source(), old(self).cursor()) {
                Ok((None, end)) => r is Ok && r->Ok_0 is None && final(self).cursor() == end,
                Ok((Some(token), end)) => r is Ok && r->Ok_0 is Some && r->Ok_0->0@ == token
                    && final(self).cursor() == end,
                Err((kind, at)) => r is Err && old(self).reports(r->Err_0, kind, at)
                    && final(self).cursor() == old(self).cursor(),
            },
    {
        let position = self.position;
        let file_position = self.file_position;
        let token = self.read_token();
        if token.is_err() {
            self.position = position;
            self.file_position = file_position;
        }
        token
    }

    /// Puts the cursor back to `offset`, where it has stood before.
    pub fn rewind(&mut self, offset: usize)
        requires
            old(self).wf(),
            offset <= old(self).cursor(),
        ensures
            final(self).wf(),
            final(self).source() == old(self).source(),
            final(self).file() == old(self).file(),
            final(self).cursor() == offset,
    {
        let mut line: usize = 1;
        let mut column: usize = 1;
        let mut i: usize = 0;
        while i < offset
            invariant
                i <= offset <= self.data.len() < usize::MAX,
                line == line_at(self.data@, i as int),
                column == column_at(self.data@, i as int),
            decreases offset - i,
        {
            proof {
                lemma_position_bounds(self.data@, i as int);
            }
            if self.data[i] == LINE_FEED {
                line += 1;
                column = 1;
            } else {
                column += 1;
            }
            i += 1;
        }
        self.position = offset;
        self.file_position = Position { line, column };
    }

    /// The offset of the next byte to read.
    pub fn offset(&self) -> (offset: usize)
        ensures
            offset == self.cursor(),
    {
        self.position
    }

    /// Reads the next token, wherever that leaves the cursor on an error.
    fn read_token(&mut self) -> (r: Result<Option<Token>, LexError>)
        requires
            old(self).wf(),
        ensures
            final(self).wf(),
            final(self).source() == old(self).source(),
            final(self).file() == old(self).file(),
            match scan(old(self).source(), old(self).cursor()) {
                Ok((None, end)) => r is Ok && r->Ok_0 is None && final(self).cursor() == end,
                Ok((Some(token), end)) => r is Ok && r->Ok_0 is Some && r->Ok_0->0@ == token
                    && final(self).cursor() == end,
                Err((kind, at)) => r is Err && old(self).reports(r->Err_0, kind, at),
            },
    {
        proof {
            lemma_skip_whitespace_bounds(self.source(), self.cursor());
        }
        self.skip_whitespaces();
        let b = match self.peek(0) {
            Some(b) => b,
            None => {
                return Ok(None);
            },
        };
        if b == COLON {
            Ok(Some(self.read_colon()))
        } else if b == LEFT_PAR {
            Ok(Some(self.read_l_par()))
        } else if b == RIGHT_PAR {
            Ok(Some(self.read_r_par()))
        } else if b == LEFT_BRACE {
            Ok(Some(self.read_l_brace()))
        } else if b == RIGHT_BRACE {
            Ok(Some(self.read_r_brace()))
        } else if b == SEMICOLON {
            Ok(Some(self.read_semicolon()))
        } else if b == PLUS {
            Ok(Some(self.read_add()))
        } else if b == MINUS {
            Ok(Some(self.read_sub()))
        } else if b == EQUALS {
            Ok(Some(self.read_equals()))
        } else if b == SLASH {
            Ok(Some(self.read_div()))
        } else if b == STAR {
            Ok(Some(self.read_mul()))
        } else if b == COMMA {
            Ok(Some(self.read_comma()))
        } else if b == AMPERSAND {
            Ok(Some(self.read_and()))
        } else if b == PIPE {
            Ok(Some(self.read_or()))
        } else if b == CARET {
            Ok(Some(self.read_xor()))
        } else if b == BANG {
            Ok(Some(self.read_not()))
        } else if b == AT {
            Ok(Some(self.read_at()))
        } else if byte_is_digit(b) {
            let token = self.read_number_like()?;
            Ok(Some(token))
        } else if byte_is_alphabetic(b) || b == UNDERSCORE {
            Ok(Some(self.read_identifier()))
        } else if b == QUOTE {
            let token = self.read_string()?;
            Ok(Some(token))
        } else if b == APOSTROPHE {
            let token = self.read_character()?;
            Ok(Some(token))
        } else {
            Err(self.error(LexErrorKind::UnknownToken, self.file_position))
        }
    }
}

} // verus!
