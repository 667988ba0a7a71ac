use monkey::token::{Token, TokenType, lookup_ident, ttype_name};

#[test]
fn test_lookup_ident() {
    assert_eq!(lookup_ident(&String::from("fn")), TokenType::Function);
    assert_eq!(lookup_ident(&String::from("let")), TokenType::Let);
    assert_eq!(lookup_ident(&String::from("return")), TokenType::Return);
}

#[test]
fn lookup_ident_plain_names() {
    assert_eq!(lookup_ident(&String::from("foobar")), TokenType::Ident);
    assert_eq!(lookup_ident(&String::from("letx")), TokenType::Ident);
    assert_eq!(lookup_ident(&String::from("fns")), TokenType::Ident);
    assert_eq!(lookup_ident(&String::from("")), TokenType::Ident);
}

#[test]
fn token_new_keeps_kind_and_literal() {
    let t = Token::new(TokenType::Assign, String::from("="));
    assert_eq!(t.ttype, TokenType::Assign);
    assert_eq!(t.literal, "=");
}

#[test]
fn ttype_names_for_messages() {
    assert_eq!(ttype_name(TokenType::Assign), "=");
    assert_eq!(ttype_name(TokenType::Int), "INT");
    assert_eq!(ttype_name(TokenType::Ident), "IDENT");
    assert_eq!(ttype_name(TokenType::Illegal), "ILLEGAL");
    assert_eq!(ttype_name(TokenType::NotEqual), "!=");
    assert_eq!(ttype_name(TokenType::LBrace), "{");
    assert_eq!(ttype_name(TokenType::RBrace), "}");
}
