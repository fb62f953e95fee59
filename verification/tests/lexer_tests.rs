use shuntyard::lexer::{LexError, Lexer, Token};

#[test]
fn get_next_token() {
    let input = "(0 * 1) + true * false || true";
    let mut lexer = Lexer::new(input.into());

    let tokens = vec![
        Token::LPar,
        Token::Zero,
        Token::Mult(2),
        Token::One,
        Token::RPar,
        Token::Add(1),
        Token::True,
        Token::Mult(2),
        Token::False,
        Token::Or(0),
        Token::True,
        Token::Eof,
    ];

    for token in tokens {
        let next_token = lexer.next_token().unwrap();
        println!("expected: {:?}, received {:?}", token, next_token);
        assert_eq!(token, next_token);
    }
}

#[test]
fn eof_is_idempotent() {
    let mut lexer = Lexer::new("1".into());
    assert_eq!(lexer.next_token().unwrap(), Token::One);
    assert_eq!(lexer.next_token().unwrap(), Token::Eof);
    assert_eq!(lexer.next_token().unwrap(), Token::Eof);
    assert_eq!(lexer.next_token().unwrap(), Token::Eof);
}

#[test]
fn whitespace_is_skipped() {
    let mut lexer = Lexer::new("  \t\n 0   \r +".into());
    assert_eq!(lexer.next_token().unwrap(), Token::Zero);
    assert_eq!(lexer.next_token().unwrap(), Token::Add(1));
    assert_eq!(lexer.next_token().unwrap(), Token::Eof);
}

#[test]
fn unrecognized_byte_is_reported() {
    let mut lexer = Lexer::new("0 + 2".into());
    assert_eq!(lexer.next_token().unwrap(), Token::Zero);
    assert_eq!(lexer.next_token().unwrap(), Token::Add(1));
    let err = lexer.next_token().unwrap_err();
    assert_eq!(err, LexError { position: 4, byte: b'2' });
}

#[test]
fn unrecognized_identifier_is_reported() {
    let mut lexer = Lexer::new("tru".into());
    let err = lexer.next_token().unwrap_err();
    assert_eq!(err, LexError { position: 0, byte: b't' });
}

#[test]
fn identifier_run_stops_at_digits() {
    let mut lexer = Lexer::new("true1".into());
    assert_eq!(lexer.next_token().unwrap(), Token::True);
    assert_eq!(lexer.next_token().unwrap(), Token::One);
    assert_eq!(lexer.next_token().unwrap(), Token::Eof);
}
