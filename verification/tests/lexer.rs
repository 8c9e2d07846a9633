use tiny_script::error::Error;
use tiny_script::lexer::{Lexer, Token, TT};

fn lex(source: &str) -> Result<Vec<Token>, Error> {
    Lexer::new(source.to_string()).tokenize()
}

fn failure(source: &str) -> Error {
    lex(source).unwrap_err()
}

fn kinds(source: &str) -> Vec<TT> {
    lex(source).unwrap().iter().map(|token| token.kind).collect()
}

fn texts(source: &str) -> Vec<String> {
    lex(source).unwrap().iter().map(|token| token.value.clone()).collect()
}

#[test]
fn tokenizes_an_empty_source() {
    let tokens = lex("").unwrap();
    assert_eq!(tokens.len(), 1);
    assert_eq!(tokens[0].kind, TT::Eof);
    assert_eq!(tokens[0].value, "");
}

#[test]
fn skips_blanks_and_comments() {
    assert_eq!(kinds("  \t\n // nothing here\n"), vec![TT::Eof]);
    assert_eq!(kinds("1 // one\n2"), vec![TT::Integer, TT::Integer, TT::Eof]);
    assert_eq!(texts("1 // one\n2"), vec!["1", "2", ""]);
    assert_eq!(kinds("// no line feed at the end"), vec![TT::Eof]);
}

#[test]
fn a_single_slash_is_an_operator() {
    assert_eq!(kinds("a / b"), vec![TT::Identifier, TT::BinaryOperator, TT::Identifier, TT::Eof]);
    assert_eq!(texts("a / b"), vec!["a", "/", "b", ""]);
    assert_eq!(kinds("/"), vec![TT::BinaryOperator, TT::Eof]);
}

#[test]
fn tokenizes_arithmetic_operators() {
    assert_eq!(
        kinds("+ - * / %"),
        vec![
            TT::BinaryOperator,
            TT::BinaryOperator,
            TT::BinaryOperator,
            TT::BinaryOperator,
            TT::BinaryOperator,
            TT::Eof
        ]
    );
    assert_eq!(texts("+ - * / %"), vec!["+", "-", "*", "/", "%", ""]);
}

#[test]
fn tokenizes_punctuation() {
    assert_eq!(
        kinds("; : , . ( ) { } [ ] & ^ |"),
        vec![
            TT::SemiColon,
            TT::Colon,
            TT::Comma,
            TT::Dot,
            TT::OpeningParenthesis,
            TT::ClosingParenthesis,
            TT::OpeningCurlyBrace,
            TT::ClosingCurlyBrace,
            TT::OpeningSquareBracket,
            TT::ClosingSquareBracket,
            TT::And,
            TT::Xor,
            TT::Or,
            TT::Eof
        ]
    );
}

#[test]
fn tokenizes_relational_operators_with_lookahead() {
    assert_eq!(
        kinds(">= <= == != > < = !"),
        vec![
            TT::GreaterThanOrEqualTo,
            TT::LessThanOrEqualTo,
            TT::EqualityOperator,
            TT::InEqualityOperator,
            TT::GreaterThan,
            TT::LessThan,
            TT::AssignmentOperator,
            TT::Not,
            TT::Eof
        ]
    );
    assert_eq!(texts(">= <= == != > < = !"), vec![">=", "<=", "==", "!=", ">", "<", "=", "!", ""]);
    assert_eq!(kinds("==="), vec![TT::EqualityOperator, TT::AssignmentOperator, TT::Eof]);
    assert_eq!(kinds(">"), vec![TT::GreaterThan, TT::Eof]);
}

#[test]
fn tells_keywords_from_identifiers() {
    for word in ["let", "if", "else", "case", "of", "default", "as", "to", "func"] {
        assert_eq!(kinds(word), vec![TT::KeyWord, TT::Eof], "{word}");
        assert_eq!(texts(word), vec![word, ""]);
    }
    for word in ["lets", "i", "If", "funct", "x1", "a2b", "Of", "defaul", "t"] {
        assert_eq!(kinds(word), vec![TT::Identifier, TT::Eof], "{word}");
        assert_eq!(texts(word), vec![word, ""]);
    }
}

#[test]
fn an_underscore_starts_no_token() {
    assert_eq!(failure("ab_c"), Error::Lex { position: 2, character: '_' });
}

#[test]
fn fails_at_the_first_unrecognized_character() {
    assert_eq!(failure("#"), Error::Lex { position: 0, character: '#' });
    assert_eq!(failure("let x = 1 @ 2;"), Error::Lex { position: 10, character: '@' });
    assert_eq!(failure("a\rb"), Error::Lex { position: 1, character: '\r' });
    assert_eq!(failure("x ~ y $"), Error::Lex { position: 2, character: '~' });
}

#[test]
fn positions_count_characters_not_bytes() {
    assert_eq!(failure("\"é\" ?"), Error::Lex { position: 4, character: '?' });
}

#[test]
fn tokenizes_numbers() {
    assert_eq!(kinds("0 42 007"), vec![TT::Integer, TT::Integer, TT::Integer, TT::Eof]);
    assert_eq!(texts("0 42 007"), vec!["0", "42", "007", ""]);
    assert_eq!(kinds("3.14 1. 0.5"), vec![TT::Real, TT::Real, TT::Real, TT::Eof]);
    assert_eq!(texts("3.14 1. 0.5"), vec!["3.14", "1.", "0.5", ""]);
    assert_eq!(kinds("12abc"), vec![TT::Integer, TT::Identifier, TT::Eof]);
    assert_eq!(kinds(".5"), vec![TT::Dot, TT::Integer, TT::Eof]);
}

#[test]
fn rejects_a_number_with_two_dots() {
    assert_eq!(failure("1.2.3"), Error::Lex { position: 3, character: '.' });
    assert_eq!(failure("x = 1..2"), Error::Lex { position: 6, character: '.' });
}

#[test]
fn tokenizes_strings_without_escapes() {
    assert_eq!(kinds("\"hello world\""), vec![TT::String, TT::Eof]);
    assert_eq!(texts("\"hello world\""), vec!["hello world", ""]);
    assert_eq!(texts("'it is'"), vec!["it is", ""]);
    assert_eq!(texts("\"it's\""), vec!["it's", ""]);
    assert_eq!(texts("'say \"hi\"'"), vec!["say \"hi\"", ""]);
    assert_eq!(texts("\"a\\\" b"), vec!["a\\", "b", ""]);
    assert_eq!(texts("\"\""), vec!["", ""]);
    assert_eq!(texts("\"// no comment\""), vec!["// no comment", ""]);
}

#[test]
fn an_unterminated_string_runs_to_the_end() {
    assert_eq!(kinds("\"abc"), vec![TT::String, TT::Eof]);
    assert_eq!(texts("\"abc"), vec!["abc", ""]);
    assert_eq!(texts("'"), vec!["", ""]);
}

#[test]
fn tokenizes_a_statement() {
    assert_eq!(
        kinds("let total = price * 2;"),
        vec![
            TT::KeyWord,
            TT::Identifier,
            TT::AssignmentOperator,
            TT::Identifier,
            TT::BinaryOperator,
            TT::Integer,
            TT::SemiColon,
            TT::Eof
        ]
    );
    assert_eq!(
        texts("let total = price * 2;"),
        vec!["let", "total", "=", "price", "*", "2", ";", ""]
    );
}

#[test]
fn the_source_is_used_up_by_a_successful_run() {
    let mut lexer = Lexer::new("1 + 2".to_string());
    assert_eq!(lexer.tokenize().unwrap().len(), 4);
    let again = lexer.tokenize().unwrap();
    assert_eq!(again.len(), 1);
    assert_eq!(again[0].kind, TT::Eof);
}

#[test]
fn a_failed_run_can_be_repeated() {
    let mut lexer = Lexer::new("1 ? 2".to_string());
    assert_eq!(lexer.tokenize().unwrap_err(), Error::Lex { position: 2, character: '?' });
    assert_eq!(lexer.tokenize().unwrap_err(), Error::Lex { position: 2, character: '?' });
}

#[test]
fn a_token_can_be_made_and_copied() {
    let token = Token::new(TT::Identifier, "name".to_string());
    let copy = token.clone();
    assert_eq!(copy.kind, TT::Identifier);
    assert_eq!(copy.value, "name");
}
