use monkey::lexer::{is_digit, is_letter, is_whitespace, new};
use monkey::token::{Token, TokenType};

#[test]
fn test_next_token() {
    let input = "let five = 5;
let ten = 10;

let add = fn(x, y) {
    x + y;
};

let result = add(five, ten);
";

    let tests = [
        Token { ttype: TokenType::Let, literal: String::from("let") },
        Token { ttype: TokenType::Ident, literal: String::from("five") },
        Token { ttype: TokenType::Assign, literal: String::from("=") },
        Token { ttype: TokenType::Int, literal: String::from("5") },
        Token { ttype: TokenType::Semicolon, literal: String::from(";") },
        Token { ttype: TokenType::Let, literal: String::from("let") },
        Token { ttype: TokenType::Ident, literal: String::from("ten") },
        Token { ttype: TokenType::Assign, literal: String::from("=") },
        Token { ttype: TokenType::Int, literal: String::from("10") },
        Token { ttype: TokenType::Semicolon, literal: String::from(";") },
        Token { ttype: TokenType::Let, literal: String::from("let") },
        Token { ttype: TokenType::Ident, literal: String::from("add") },
        Token { ttype: TokenType::Assign, literal: String::from("=") },
        Token { ttype: TokenType::Function, literal: String::from("fn") },
        Token { ttype: TokenType::LParen, literal: String::from("(") },
        Token { ttype: TokenType::Ident, literal: String::from("x") },
        Token { ttype: TokenType::Comma, literal: String::from(",") },
        Token { ttype: TokenType::Ident, literal: String::from("y") },
        Token { ttype: TokenType::RParen, literal: String::from(")") },
        Token { ttype: TokenType::LBrace, literal: String::from("{") },
        Token { ttype: TokenType::Ident, literal: String::from("x") },
        Token { ttype: TokenType::Plus, literal: String::from("+") },
        Token { ttype: TokenType::Ident, literal: String::from("y") },
        Token { ttype: TokenType::Semicolon, literal: String::from(";") },
        Token { ttype: TokenType::RBrace, literal: String::from("}") },
        Token { ttype: TokenType::Semicolon, literal: String::from(";") },
        Token { ttype: TokenType::Let, literal: String::from("let") },
        Token { ttype: TokenType::Ident, literal: String::from("result") },
        Token { ttype: TokenType::Assign, literal: String::from("=") },
        Token { ttype: TokenType::Ident, literal: String::from("add") },
        Token { ttype: TokenType::LParen, literal: String::from("(") },
        Token { ttype: TokenType::Ident, literal: String::from("five") },
        Token { ttype: TokenType::Comma, literal: String::from(",") },
        Token { ttype: TokenType::Ident, literal: String::from("ten") },
        Token { ttype: TokenType::RParen, literal: String::from(")") },
        Token { ttype: TokenType::Semicolon, literal: String::from(";") },
    ];

    let mut l = new(&input);

    let mut i = 0;
    for test in tests.iter() {
        match l.next_token() {
            Some(tok) => assert_eq!(&tok, test, "tests[{}]", i),
            None => assert!(false),
        }
        i += 1;
    }
}

#[test]
fn lexing_operator_soup_gives_exact_kinds() {
    let mut l = new("=+(){},;");
    let expected = [
        TokenType::Assign,
        TokenType::Plus,
        TokenType::LParen,
        TokenType::RParen,
        TokenType::LBrace,
        TokenType::RBrace,
        TokenType::Comma,
        TokenType::Semicolon,
    ];
    for (i, want) in expected.iter().enumerate() {
        match l.next_token() {
            Some(tok) => assert_eq!(&tok.ttype, want, "tests[{}]", i),
            None => panic!("token stream ended early at {}", i),
        }
    }
    assert!(l.next_token().is_none());
}

#[test]
fn lexing_two_character_operators() {
    let mut l = new("== != = !");
    let expected = [
        (TokenType::Equal, "=="),
        (TokenType::NotEqual, "!="),
        (TokenType::Assign, "="),
        (TokenType::Bang, "!"),
    ];
    for (want_kind, want_lit) in expected.iter() {
        let tok = l.next_token().unwrap();
        assert_eq!(&tok.ttype, want_kind);
        assert_eq!(&tok.literal, want_lit);
    }
    assert!(l.next_token().is_none());
}

#[test]
fn lexing_full_operator_set() {
    let mut l = new("-*/<>");
    let expected = [
        TokenType::Minus,
        TokenType::Asterisk,
        TokenType::Slash,
        TokenType::Lt,
        TokenType::Gt,
    ];
    for want in expected.iter() {
        assert_eq!(&l.next_token().unwrap().ttype, want);
    }
    assert!(l.next_token().is_none());
}

#[test]
fn unrecognized_character_becomes_illegal_token() {
    let mut l = new("@");
    let tok = l.next_token().unwrap();
    assert_eq!(tok.ttype, TokenType::Illegal);
    assert_eq!(tok.literal, "@");
    assert!(l.next_token().is_none());
}

#[test]
fn empty_input_yields_end_of_input_at_once() {
    let mut l = new("");
    assert!(l.next_token().is_none());
    let mut ws = new("  \t\r\n ");
    assert!(ws.next_token().is_none());
}

#[test]
fn character_classes() {
    assert!(is_letter(Some('a')));
    assert!(is_letter(Some('Z')));
    assert!(is_letter(Some('_')));
    assert!(!is_letter(Some('1')));
    assert!(!is_letter(None));
    assert!(is_digit(Some('0')));
    assert!(is_digit(Some('9')));
    assert!(!is_digit(Some('a')));
    assert!(!is_digit(None));
    assert!(is_whitespace(Some(' ')));
    assert!(is_whitespace(Some('\t')));
    assert!(is_whitespace(Some('\n')));
    assert!(is_whitespace(Some('\r')));
    assert!(!is_whitespace(Some('x')));
    assert!(!is_whitespace(None));
}
