//! Text building blocks shared by the stages: decoding bytes into strings and
//! writing numbers in decimal and hexadecimal.

use vstd::prelude::*;
use vstd::string::*;
use vstd::utf8::*;

verus! {

/// Decodes `bytes` as UTF-8 with `String::from_utf8`. The standard library
/// documents that the conversion succeeds exactly when the bytes are valid
/// UTF-8 and that the string then holds the decoded characters; this contract
/// restates that and is not proved here.
#[verifier::external_body]
pub(crate) fn string_from_utf8(bytes: Vec<u8>) -> (text: Option<String>)
    ensures
        text is Some <==> valid_utf8(bytes@),
        text matches Some(s) ==> s@ == decode_utf8(bytes@),
{
    match String::from_utf8(bytes) {
        Ok(s) => Some(s),
        Err(_) => None,
    }
}

/// The characters that a sequence of ASCII bytes stands for.
pub open spec fn ascii_chars(bytes: Seq<u8>) -> Seq<char> {
    Seq::new(bytes.len(), |i: int| bytes[i] as char)
}

/// Bytes below 128 are always valid UTF-8 and decode to themselves.
pub proof fn lemma_ascii_decodes(bytes: Seq<u8>)
    requires
        forall|i: int| 0 <= i < bytes.len() ==> bytes[i] < 128,
    ensures
        valid_utf8(bytes),
        decode_utf8(bytes) == ascii_chars(bytes),
{
    let chars = ascii_chars(bytes);
    assert(is_ascii_chars(chars));
    is_ascii_chars_encode_utf8(chars);
    assert(encode_utf8(chars) =~= bytes);
    encode_utf8_valid_utf8(chars);
    encode_utf8_decode_utf8(chars);
}

/// The character for one digit below 16, lower case.
pub open spec fn digit_char(d: int) -> char {
    if d == 0 { '0' }
    else if d == 1 { '1' }
    else if d == 2 { '2' }
    else if d == 3 { '3' }
    else if d == 4 { '4' }
    else if d == 5 { '5' }
    else if d == 6 { '6' }
    else if d == 7 { '7' }
    else if d == 8 { '8' }
    else if d == 9 { '9' }
    else if d == 10 { 'a' }
    else if d == 11 { 'b' }
    else if d == 12 { 'c' }
    else if d == 13 { 'd' }
    else if d == 14 { 'e' }
    else { 'f' }
}

/// The decimal digits of `n`, most significant first, without leading zeros;
/// a single `0` for zero.
pub open spec fn decimal_text(n: nat) -> Seq<char>
    decreases n,
{
    if n < 10 {
        seq![digit_char(n as int)]
    } else {
        decimal_text(n / 10).push(digit_char((n % 10) as int))
    }
}

/// The hexadecimal digits of `n`, lower case, most significant first, without
/// leading zeros; a single `0` for zero.
pub open spec fn hex_digits(n: nat) -> Seq<char>
    decreases n,
{
    if n < 16 {
        seq![digit_char(n as int)]
    } else {
        hex_digits(n / 16).push(digit_char((n % 16) as int))
    }
}

/// `n` in hexadecimal with the `0x` prefix, as `{:#x}` prints it.
pub open spec fn hex_text(n: nat) -> Seq<char> {
    seq!['0', 'x'] + hex_digits(n)
}

/// The one-character string for a digit below 16.
pub fn digit_str(d: u8) -> (s: &'static str)
    requires
        d < 16,
    ensures
        s@ == seq![digit_char(d as int)],
{
    proof {
        reveal_strlit("0");
        reveal_strlit("1");
        reveal_strlit("2");
        reveal_strlit("3");
        reveal_strlit("4");
        reveal_strlit("5");
        reveal_strlit("6");
        reveal_strlit("7");
        reveal_strlit("8");
        reveal_strlit("9");
        reveal_strlit("a");
        reveal_strlit("b");
        reveal_strlit("c");
        reveal_strlit("d");
        reveal_strlit("e");
        reveal_strlit("f");
    }
    let s = match d {
        0 => "0",
        1 => "1",
        2 => "2",
        3 => "3",
        4 => "4",
        5 => "5",
        6 => "6",
        7 => "7",
        8 => "8",
        9 => "9",
        10 => "a",
        11 => "b",
        12 => "c",
        13 => "d",
        14 => "e",
        _ => "f",
    };
    assert(s@ =~= seq![digit_char(d as int)]);
    s
}

/// Appends `n` in decimal to `buffer`.
pub fn push_decimal(buffer: &mut String, n: u64)
    ensures
        final(buffer)@ == old(buffer)@ + decimal_text(n as nat),
    decreases n,
{
    if n >= 10 {
        push_decimal(buffer, n / 10);
    }
    let d: u8 = (n % 10) as u8;
    buffer.append(digit_str(d));
    assert(buffer@ =~= old(buffer)@ + decimal_text(n as nat));
}

/// Appends the hexadecimal digits of `n` to `buffer`.
fn push_hex_digits(buffer: &mut String, n: u64)
    ensures
        final(buffer)@ == old(buffer)@ + hex_digits(n as nat),
    decreases n,
{
    if n >= 16 {
        push_hex_digits(buffer, n / 16);
    }
    let d: u8 = (n % 16) as u8;
    buffer.append(digit_str(d));
    assert(buffer@ =~= old(buffer)@ + hex_digits(n as nat));
}

/// Appends `n` in hexadecimal, with the `0x` prefix, to `buffer`.
pub fn push_hex(buffer: &mut String, n: u64)
    ensures
        final(buffer)@ == old(buffer)@ + hex_text(n as nat),
{
    proof {
        reveal_strlit("0x");
    }
    buffer.append("0x");
    push_hex_digits(buffer, n);
    assert(buffer@ =~= old(buffer)@ + hex_text(n as nat));
}

/// A message with the place it is about before it: file, line and column
/// with colons between them, then the message.
pub open spec fn located_text(file: Seq<char>, line: nat, column: nat, message: Seq<char>) -> Seq<
    char,
> {
    file + ":"@ + decimal_text(line) + ":"@ + decimal_text(column) + ": "@ + message
}

/// Writes `message` with the place it is about before it.
pub fn located(file: &String, line: usize, column: usize, message: &str) -> (text: String)
    ensures
        text@ == located_text(file@, line as nat, column as nat, message@),
{
    let mut text = file.clone();
    text.append(":");
    push_decimal(&mut text, line as u64);
    text.append(":");
    push_decimal(&mut text, column as u64);
    text.append(": ");
    text.append(message);
    text
}

} // verus!
