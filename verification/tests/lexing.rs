use minicc::lexer::{Lexer, Token};

fn lex(source: &str) -> Vec<Token> {
    Lexer::new(source).lex().expect("lexing never fails")
}

#[test]
fn lexes_return_statement() {
    assert_eq!(
        lex("return 42;"),
        vec![Token::Return, Token::NumLiteral(42), Token::Semicolon]
    );
}

#[test]
fn lexes_empty_source() {
    assert_eq!(lex(""), vec![]);
}

#[test]
fn lexes_single_char_tokens() {
    assert_eq!(
        lex("{}();-~+*/"),
        vec![
            Token::OpenBrace,
            Token::CloseBrace,
            Token::OpenParens,
            Token::CloseParens,
            Token::Semicolon,
            Token::Minus,
            Token::Tilde,
            Token::Plus,
            Token::Times,
            Token::Divide,
        ]
    );
}

#[test]
fn lexes_whole_program() {
    assert_eq!(
        lex("int main(){return 2;}"),
        vec![
            Token::IntType,
            Token::Identifier("main".to_string()),
            Token::OpenParens,
            Token::CloseParens,
            Token::OpenBrace,
            Token::Return,
            Token::NumLiteral(2),
            Token::Semicolon,
            Token::CloseBrace,
        ]
    );
}

#[test]
fn lexes_multichar_operators() {
    assert_eq!(
        lex("&& || == != <= >= < > !"),
        vec![
            Token::And,
            Token::Or,
            Token::Equal,
            Token::NotEqual,
            Token::LessThanOrEqual,
            Token::GreaterThanOrEqual,
            Token::LessThan,
            Token::GreaterThan,
            Token::Bang,
        ]
    );
}

#[test]
fn drops_unmatched_pair_starter_with_its_follower() {
    // `&` demands a second `&`; on anything else both characters vanish,
    // taking the minus with them here.
    assert_eq!(lex("&-"), vec![]);
    assert_eq!(lex("&"), vec![]);
    assert_eq!(lex("|)"), vec![]);
    assert_eq!(lex("=1"), vec![]);
}

#[test]
fn bang_falls_back_without_consuming() {
    assert_eq!(lex("!1"), vec![Token::Bang, Token::NumLiteral(1)]);
    assert_eq!(lex("<5"), vec![Token::LessThan, Token::NumLiteral(5)]);
}

#[test]
fn skips_whitespace_and_unknown_characters() {
    assert_eq!(
        lex("  return\t\n @# 7 ;"),
        vec![Token::Return, Token::NumLiteral(7), Token::Semicolon]
    );
}

#[test]
fn maximal_munch_numbers_and_words() {
    assert_eq!(
        lex("123 integer int3 _foo9 int return returns"),
        vec![
            Token::NumLiteral(123),
            Token::Identifier("integer".to_string()),
            Token::Identifier("int3".to_string()),
            Token::Identifier("_foo9".to_string()),
            Token::IntType,
            Token::Return,
            Token::Identifier("returns".to_string()),
        ]
    );
}

#[test]
fn largest_literal_is_kept() {
    assert_eq!(
        lex("18446744073709551615"),
        vec![Token::NumLiteral(u64::MAX)]
    );
}

#[test]
fn oversized_literal_is_silently_dropped() {
    // One past the largest sixty-four-bit value: the span yields no token.
    assert_eq!(lex("return 18446744073709551616;"), vec![Token::Return, Token::Semicolon]);
}

#[test]
fn leading_zeros_read_by_value() {
    assert_eq!(lex("007"), vec![Token::NumLiteral(7)]);
}

#[test]
fn alphabetic_classification_is_unicode() {
    // An accented letter starts an identifier; a currency sign is skipped.
    assert_eq!(
        lex("caf\u{e9} \u{20ac}"),
        vec![Token::Identifier("caf\u{e9}".to_string())]
    );
}
