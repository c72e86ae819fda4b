use kaleido::lexer::Lexer;
use kaleido::token::{CharState, Token};

fn create_lexer(input: &str) -> Lexer {
    Lexer::new(input.as_bytes().to_vec())
}

#[test]
fn test_mock() {
    let mut lexer1 = create_lexer("abc");
    lexer1.get_char();
    assert!(matches!(lexer1.last_char, CharState::Char('a')));
    lexer1.get_char();
    assert!(matches!(lexer1.last_char, CharState::Char('b')));
    lexer1.get_char();
    assert!(matches!(lexer1.last_char, CharState::Char('c')));
    lexer1.get_char();
    assert!(matches!(lexer1.last_char, CharState::Eof));
}

#[test]
fn test_skip_spaces() {
    let mut lexer1 = create_lexer("   a");
    assert!(matches!(lexer1.get_token(), Token::Identifier(_)));
}

#[test]
fn test_eof() {
    let mut lexer1 = create_lexer("");
    assert!(matches!(lexer1.get_token(), Token::Eof));
    let mut lexer2 = create_lexer("    ");
    assert!(matches!(lexer2.get_token(), Token::Eof));
}

#[test]
fn test_def() {
    let mut lexer1 = create_lexer("def");
    assert!(matches!(lexer1.get_token(), Token::Def));
    let mut lexer2 = create_lexer("   def  ");
    assert!(matches!(lexer2.get_token(), Token::Def));
    assert!(matches!(lexer1.get_token(), Token::Eof));
}

#[test]
fn test_extern() {
    let mut lexer1 = create_lexer("extern");
    assert!(matches!(lexer1.get_token(), Token::Extern));
    let mut lexer2 = create_lexer("   extern  ");
    assert!(matches!(lexer2.get_token(), Token::Extern));
    assert!(matches!(lexer1.get_token(), Token::Eof));
}

#[test]
fn test_identifier() {
    let mut lexer1 = create_lexer("abc");
    assert!(matches!(lexer1.get_token(), Token::Identifier(_)));
    assert!(matches!(lexer1.get_token(), Token::Eof));
}

#[test]
fn test_number() {
    let mut lexer1 = create_lexer("1.234");
    match lexer1.get_token() {
        Token::Number(text) => assert_eq!(text.parse::<f64>().unwrap(), 1.234),
        other => panic!("expected a number token, got {:?}", other),
    }
    assert!(matches!(lexer1.get_token(), Token::Eof));
    let mut lexer2 = create_lexer(".234");
    match lexer2.get_token() {
        Token::Number(text) => assert_eq!(text.parse::<f64>().unwrap(), 0.234),
        other => panic!("expected a number token, got {:?}", other),
    }
    let mut lexer2 = create_lexer("       .234");
    match lexer2.get_token() {
        Token::Number(text) => assert_eq!(text.parse::<f64>().unwrap(), 0.234),
        other => panic!("expected a number token, got {:?}", other),
    }
}

#[test]
fn test_char() {
    let mut lexer1 = create_lexer("a+b");
    assert!(matches!(lexer1.get_token(), Token::Identifier(_)));
    assert!(matches!(lexer1.get_token(), Token::Char('+')));
    assert!(matches!(lexer1.get_token(), Token::Identifier(_)));
}

#[test]
fn identifier_text_is_exact() {
    let mut lexer = create_lexer("abc");
    match lexer.get_token() {
        Token::Identifier(text) => assert_eq!(text, "abc"),
        other => panic!("expected an identifier token, got {:?}", other),
    }
    let mut lexer = create_lexer("  foo9bar x");
    match lexer.get_token() {
        Token::Identifier(text) => assert_eq!(text, "foo9bar"),
        other => panic!("expected an identifier token, got {:?}", other),
    }
    match lexer.get_token() {
        Token::Identifier(text) => assert_eq!(text, "x"),
        other => panic!("expected an identifier token, got {:?}", other),
    }
}

#[test]
fn eof_is_idempotent() {
    let mut lexer = create_lexer("     ");
    assert!(matches!(lexer.get_token(), Token::Eof));
    assert!(matches!(lexer.get_token(), Token::Eof));
    assert!(matches!(lexer.get_token(), Token::Eof));
}

#[test]
fn number_text_is_raw() {
    let mut lexer = create_lexer("1.2.3");
    match lexer.get_token() {
        Token::Number(text) => {
            assert_eq!(text, "1.2.3");
            assert!(text.parse::<f64>().is_err());
        },
        other => panic!("expected a number token, got {:?}", other),
    }
}

#[test]
fn comment_runs_to_end_of_line() {
    let mut lexer = create_lexer("# a comment\nfoo");
    assert!(matches!(lexer.get_token(), Token::Comment));
    match lexer.get_token() {
        Token::Identifier(text) => assert_eq!(text, "foo"),
        other => panic!("expected an identifier token, got {:?}", other),
    }
    let mut lexer = create_lexer("# only a comment");
    assert!(matches!(lexer.get_token(), Token::Comment));
    assert!(matches!(lexer.get_token(), Token::Eof));
}

#[test]
fn round_trip_token_kinds() {
    let mut lexer = create_lexer("def foo(x, y) x+y");
    assert!(matches!(lexer.get_token(), Token::Def));
    match lexer.get_token() {
        Token::Identifier(text) => assert_eq!(text, "foo"),
        other => panic!("expected an identifier token, got {:?}", other),
    }
    assert!(matches!(lexer.get_token(), Token::Char('(')));
    match lexer.get_token() {
        Token::Identifier(text) => assert_eq!(text, "x"),
        other => panic!("expected an identifier token, got {:?}", other),
    }
    assert!(matches!(lexer.get_token(), Token::Char(',')));
    match lexer.get_token() {
        Token::Identifier(text) => assert_eq!(text, "y"),
        other => panic!("expected an identifier token, got {:?}", other),
    }
    assert!(matches!(lexer.get_token(), Token::Char(')')));
    match lexer.get_token() {
        Token::Identifier(text) => assert_eq!(text, "x"),
        other => panic!("expected an identifier token, got {:?}", other),
    }
    assert!(matches!(lexer.get_token(), Token::Char('+')));
    match lexer.get_token() {
        Token::Identifier(text) => assert_eq!(text, "y"),
        other => panic!("expected an identifier token, got {:?}", other),
    }
    assert!(matches!(lexer.get_token(), Token::Eof));
}

#[test]
fn update_token_records_current() {
    let mut lexer = create_lexer("def");
    let t = lexer.update_token();
    assert!(matches!(t, Token::Def));
    assert!(matches!(lexer.cur_tok, Some(Token::Def)));
}

#[test]
fn char_state_alphabetic() {
    assert!(CharState::Char('a').is_alphabetic());
    assert!(CharState::Char('Z').is_alphabetic());
    assert!(!CharState::Char('1').is_alphabetic());
    assert!(!CharState::Char(' ').is_alphabetic());
    assert!(!CharState::Uninitialized.is_alphabetic());
    assert!(!CharState::Eof.is_alphabetic());
    // Latin-1 letters, reachable through byte widening, classify as the
    // Unicode Alphabetic property does.
    assert_eq!(CharState::Char('\u{e9}').is_alphabetic(), '\u{e9}'.is_alphabetic());
    assert!(CharState::Char('\u{e9}').is_alphabetic());
    assert_eq!(CharState::Char('\u{d7}').is_alphabetic(), '\u{d7}'.is_alphabetic());
    assert!(!CharState::Char('\u{d7}').is_alphabetic());
    assert_eq!(CharState::Char('\u{aa}').is_alphabetic(), '\u{aa}'.is_alphabetic());
}

#[test]
fn latin1_letters_join_identifiers() {
    // The bytes 0xE9 ('\u{e9}') and 0x78 ('x') widen to an accented letter
    // and an ASCII one: together they scan as a single identifier.
    let mut lexer = Lexer::new(vec![0xE9, 0x78]);
    match lexer.get_token() {
        Token::Identifier(text) => {
            let chars: Vec<char> = text.chars().collect();
            assert_eq!(chars, vec!['\u{e9}', 'x']);
        },
        other => panic!("expected an identifier token, got {:?}", other),
    }
    assert!(matches!(lexer.get_token(), Token::Eof));
}

#[test]
fn unicode_numeric_bytes_join_numbers() {
    // 0xB2 widens to a superscript digit: numeric for the scan, but the
    // scanned text fails strict parsing, so the payload carries no value.
    let mut lexer = Lexer::new(vec![b'1', 0xB2]);
    match lexer.get_token() {
        Token::Number(text) => {
            let chars: Vec<char> = text.chars().collect();
            assert_eq!(chars, vec!['1', '\u{b2}']);
            assert!(text.parse::<f64>().is_err());
        },
        other => panic!("expected a number token, got {:?}", other),
    }
}
