use ezlang::lexer::{
    BinaryOperator, LexError, LexErrorKind, Lexer, Position, Token, TokenType,
};

fn lex(source: &str) -> Result<Vec<Token>, LexError> {
    let mut lexer = Lexer::from_file("test.ez", source.as_bytes().to_vec());
    let mut tokens = Vec::new();
    while let Some(token) = lexer.next()? {
        tokens.push(token);
    }
    Ok(tokens)
}

fn kinds(source: &str) -> Vec<TokenType> {
    lex(source).unwrap().into_iter().map(|t| t.token_type).collect()
}

fn number(source: &str) -> u64 {
    let tokens = lex(source).unwrap();
    assert_eq!(tokens.len(), 1);
    match tokens[0].token_type {
        TokenType::NumberLiteral(n) => n,
        _ => panic!("not a number"),
    }
}

fn error(source: &str) -> LexError {
    lex(source).unwrap_err()
}

fn same(a: &[TokenType], b: &[TokenType]) -> bool {
    a.len() == b.len() && a.iter().zip(b.iter()).all(|(x, y)| x.same(y))
}

#[test]
fn radix_literals() {
    assert_eq!(number("16#ff"), 255);
    assert_eq!(number("2#1010"), 10);
    assert_eq!(number("8#17"), 15);
    assert_eq!(number("42"), 42);
    assert_eq!(number("10#99"), 99);
    assert_eq!(number("16#FF"), 255);
    assert_eq!(number("16#aBc"), 0xabc);
    assert_eq!(number("0"), 0);
}

#[test]
fn digit_outside_radix_is_an_error() {
    let e = error("16#fg");
    assert_eq!(e.kind, LexErrorKind::InvalidDigit(16));
    assert_eq!(e.position, Position { line: 1, column: 5 });
    assert_eq!(e.file, "test.ez");
    assert_eq!(error("2#102").kind, LexErrorKind::InvalidDigit(2));
    assert_eq!(error("8#18").kind, LexErrorKind::InvalidDigit(8));
    assert_eq!(error("12ab").kind, LexErrorKind::InvalidDigit(10));
    assert_eq!(error("10#1f").kind, LexErrorKind::InvalidDigit(10));
}

#[test]
fn unknown_base_is_an_error() {
    let e = error("  9#1");
    assert_eq!(e.kind, LexErrorKind::UnknownBase);
    assert_eq!(e.position, Position { line: 1, column: 3 });
    assert_eq!(error("0#1").kind, LexErrorKind::UnknownBase);
    assert_eq!(error("32#1").kind, LexErrorKind::UnknownBase);
}

#[test]
fn empty_digit_sequence_after_base_is_zero() {
    assert!(same(
        &kinds("16#;"),
        &[TokenType::NumberLiteral(0), TokenType::Semicolon]
    ));
}

#[test]
fn largest_number_and_overflow() {
    assert_eq!(number("18446744073709551615"), u64::MAX);
    assert_eq!(number("16#ffffffffffffffff"), u64::MAX);
    let e = error("18446744073709551616");
    assert_eq!(e.kind, LexErrorKind::NumberTooLarge);
    assert_eq!(e.position, Position { line: 1, column: 20 });
    assert_eq!(error("16#10000000000000000").kind, LexErrorKind::NumberTooLarge);
}

#[test]
fn keywords_and_identifiers() {
    assert!(same(
        &kinds("return if while for true false fn var returns _x Z9 fnx"),
        &[
            TokenType::Return,
            TokenType::If,
            TokenType::While,
            TokenType::For,
            TokenType::True,
            TokenType::False,
            TokenType::Function,
            TokenType::Var,
            TokenType::Identifier("returns".to_string()),
            TokenType::Identifier("_x".to_string()),
            TokenType::Identifier("Z9".to_string()),
            TokenType::Identifier("fnx".to_string()),
        ]
    ));
}

#[test]
fn operators_and_punctuation() {
    assert!(same(
        &kinds("+ - * / & | ^ = ; : , ( ) { } ! @"),
        &[
            TokenType::BinaryOperation(BinaryOperator::Add),
            TokenType::BinaryOperation(BinaryOperator::Sub),
            TokenType::BinaryOperation(BinaryOperator::Mul),
            TokenType::BinaryOperation(BinaryOperator::Div),
            TokenType::BinaryOperation(BinaryOperator::BitwiseAnd),
            TokenType::BinaryOperation(BinaryOperator::BitwiseOr),
            TokenType::BinaryOperation(BinaryOperator::BitwiseXor),
            TokenType::Equals,
            TokenType::Semicolon,
            TokenType::Colon,
            TokenType::Comma,
            TokenType::LeftPar,
            TokenType::RightPar,
            TokenType::LeftBrace,
            TokenType::RightBrace,
            TokenType::UnaryNot,
            TokenType::Call,
        ]
    ));
}

#[test]
fn increment_and_decrement_take_two_bytes() {
    assert!(same(
        &kinds("a++ + b-- - c"),
        &[
            TokenType::Identifier("a".to_string()),
            TokenType::UnaryInc,
            TokenType::BinaryOperation(BinaryOperator::Add),
            TokenType::Identifier("b".to_string()),
            TokenType::UnaryDec,
            TokenType::BinaryOperation(BinaryOperator::Sub),
            TokenType::Identifier("c".to_string()),
        ]
    ));
    assert!(same(
        &kinds("+++"),
        &[TokenType::UnaryInc, TokenType::BinaryOperation(BinaryOperator::Add)]
    ));
}

#[test]
fn single_operator_at_the_end_of_input() {
    assert!(same(&kinds("+"), &[TokenType::BinaryOperation(BinaryOperator::Add)]));
    assert!(same(&kinds("1-"), &[
        TokenType::NumberLiteral(1),
        TokenType::BinaryOperation(BinaryOperator::Sub)
    ]));
}

#[test]
fn tokens_without_whitespace() {
    assert!(same(
        &kinds("1+2*3"),
        &[
            TokenType::NumberLiteral(1),
            TokenType::BinaryOperation(BinaryOperator::Add),
            TokenType::NumberLiteral(2),
            TokenType::BinaryOperation(BinaryOperator::Mul),
            TokenType::NumberLiteral(3),
        ]
    ));
}

#[test]
fn positions_follow_lines_and_columns() {
    let tokens = lex("fn main\n  x = 16#ff;\n\n\t}").unwrap();
    let positions: Vec<(usize, usize)> =
        tokens.iter().map(|t| (t.position.line, t.position.column)).collect();
    assert_eq!(
        positions,
        vec![(1, 1), (1, 4), (2, 3), (2, 5), (2, 7), (2, 12), (4, 2)]
    );
}

#[test]
fn whitespace_only_and_empty_input() {
    assert_eq!(lex("").unwrap().len(), 0);
    assert_eq!(lex(" \t\r\n\x0b\x0c ").unwrap().len(), 0);
    let mut lexer = Lexer::from_file("test.ez", vec![0x85, 0xA0, b'7']);
    let token = lexer.next().unwrap().unwrap();
    assert!(token.token_type.same(&TokenType::NumberLiteral(7)));
    assert_eq!(token.position, Position { line: 1, column: 3 });
    assert!(lexer.next().unwrap().is_none());
    assert!(lexer.next().unwrap().is_none());
}

#[test]
fn string_literals_and_escapes() {
    assert!(same(
        &kinds(r#""hello" "a\nb\tc\rd\0e\\f\"g" """#),
        &[
            TokenType::StringLiteral("hello".to_string()),
            TokenType::StringLiteral("a\nb\tc\rd\0e\\f\"g".to_string()),
            TokenType::StringLiteral(String::new()),
        ]
    ));
}

#[test]
fn unknown_escape_drops_backslash_and_character() {
    assert!(same(
        &kinds(r#""a\qb" "x\'y""#),
        &[
            TokenType::StringLiteral("ab".to_string()),
            TokenType::StringLiteral("xy".to_string()),
        ]
    ));
}

#[test]
fn string_literal_keeps_utf8_text() {
    assert!(same(
        &kinds("\"h\u{e9}llo \u{4e16}\""),
        &[TokenType::StringLiteral("h\u{e9}llo \u{4e16}".to_string())]
    ));
}

#[test]
fn string_literal_with_invalid_utf8() {
    let mut lexer = Lexer::from_file("test.ez", vec![b' ', b'"', 0xff, b'"']);
    let e = lexer.next().unwrap_err();
    assert_eq!(e.kind, LexErrorKind::InvalidUtf8);
    assert_eq!(e.position, Position { line: 1, column: 2 });
}

#[test]
fn unterminated_string_is_an_error() {
    let e = error("x = \"abc");
    assert_eq!(e.kind, LexErrorKind::UnterminatedString);
    assert_eq!(e.position, Position { line: 1, column: 5 });
    assert_eq!(error("\"abc\\\"").kind, LexErrorKind::UnterminatedString);
    assert_eq!(error("\"").kind, LexErrorKind::UnterminatedString);
    assert_eq!(error("\"abc\\").kind, LexErrorKind::UnterminatedString);
}

#[test]
fn character_literals() {
    assert!(same(
        &kinds(r"'a' '\n' '\t' '\r' '\0' '\\' '\'' '\q' '''"),
        &[
            TokenType::Character('a'),
            TokenType::Character('\n'),
            TokenType::Character('\t'),
            TokenType::Character('\r'),
            TokenType::Character('\0'),
            TokenType::Character('\\'),
            TokenType::Character('\''),
            TokenType::Character('\\'),
            TokenType::Character('\''),
        ]
    ));
}

#[test]
fn malformed_character_literals() {
    for source in ["'", "'a", "'ab'", "'\\", "'\\n", "'\\nx", "''"] {
        let e = error(source);
        assert_eq!(e.kind, LexErrorKind::MalformedCharacter, "{}", source);
        assert_eq!(e.position, Position { line: 1, column: 1 });
    }
}

#[test]
fn unknown_byte_is_an_error() {
    let e = error("x = 1;\n  $");
    assert_eq!(e.kind, LexErrorKind::UnknownToken);
    assert_eq!(e.position, Position { line: 2, column: 3 });
    assert_eq!(error("#").kind, LexErrorKind::UnknownToken);
    assert_eq!(error("%").kind, LexErrorKind::UnknownToken);
    assert_eq!(error("\u{e9}").kind, LexErrorKind::UnknownToken);
}

#[test]
fn lexing_stops_at_the_first_error() {
    let mut lexer = Lexer::from_file("test.ez", b"a $ 9#1".to_vec());
    assert!(lexer.next().unwrap().is_some());
    assert_eq!(lexer.next().unwrap_err().kind, LexErrorKind::UnknownToken);
}

#[test]
fn after_an_error_the_lexer_stands_where_it_stood() {
    let mut lexer = Lexer::from_file("test.ez", b"ab\n  16#fg".to_vec());
    assert!(lexer.next().unwrap().is_some());
    assert_eq!(lexer.offset(), 2);
    let first = lexer.next().unwrap_err();
    assert_eq!(lexer.offset(), 2);
    assert_eq!(lexer.file_position(), Position { line: 1, column: 3 });
    let second = lexer.next().unwrap_err();
    assert_eq!(first.kind, second.kind);
    assert_eq!(first.position, second.position);
    assert_eq!(first.position, Position { line: 2, column: 7 });
}

#[test]
fn rewinding_restores_line_and_column() {
    let mut lexer = Lexer::from_file("test.ez", b"a\nbc\n  d".to_vec());
    while lexer.next().unwrap().is_some() {}
    assert!(lexer.reached_eof());
    assert_eq!(lexer.offset(), 8);
    assert_eq!(lexer.file_position(), Position { line: 3, column: 4 });
    lexer.rewind(3);
    assert!(!lexer.reached_eof());
    assert_eq!(lexer.file_position(), Position { line: 2, column: 2 });
    let token = lexer.next().unwrap().unwrap();
    assert!(token.token_type.same(&TokenType::Identifier("c".to_string())));
    assert_eq!(token.position, Position { line: 2, column: 2 });
    lexer.rewind(0);
    assert_eq!(lexer.file_position(), Position::start());
    assert_eq!(lexer.filename(), "test.ez");
}

#[test]
fn lexical_errors_as_text() {
    assert_eq!(error("\n  $").to_string(), "test.ez:2:3: Unknown token");
    assert_eq!(error("\"abc").to_string(), "test.ez:1:1: Expected closing string sign");
    assert_eq!(error("'ab'").to_string(), "test.ez:1:1: Expected closing character sign");
    assert_eq!(error("2#12").to_string(), "test.ez:1:4: Invalid binary number");
    assert_eq!(error("8#9").to_string(), "test.ez:1:3: Invalid octal number");
    assert_eq!(error("1x").to_string(), "test.ez:1:2: Invalid decimal number");
    assert_eq!(error("16#g").to_string(), "test.ez:1:4: Invalid hexadecimal number");
    assert_eq!(error("7#1").to_string(), "test.ez:1:1: Unknown numerical base");
    assert_eq!(
        error("99999999999999999999").to_string(),
        "test.ez:1:20: Number literal out of range"
    );
    assert_eq!(LexErrorKind::InvalidUtf8.message(), "String literal is not UTF-8");
}

#[test]
fn position_steps() {
    let mut p = Position::start();
    assert_eq!(p, Position { line: 1, column: 1 });
    p.next_column();
    p.next_column();
    assert_eq!(p, Position { line: 1, column: 3 });
    p.new_line();
    assert_eq!(p, Position { line: 2, column: 1 });
}

#[test]
fn precedence_levels() {
    assert!(BinaryOperator::Mul.get_precedence() > BinaryOperator::Add.get_precedence());
    assert_eq!(BinaryOperator::Mul.get_precedence(), BinaryOperator::Div.get_precedence());
    assert_eq!(BinaryOperator::Add.get_precedence(), BinaryOperator::Sub.get_precedence());
    assert!(BinaryOperator::Sub.get_precedence() > BinaryOperator::BitwiseAnd.get_precedence());
    assert!(
        BinaryOperator::BitwiseAnd.get_precedence() > BinaryOperator::BitwiseXor.get_precedence()
    );
    assert!(
        BinaryOperator::BitwiseXor.get_precedence() > BinaryOperator::BitwiseOr.get_precedence()
    );
}
