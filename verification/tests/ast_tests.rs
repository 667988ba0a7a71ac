use monkey::ast::{
    ExpressionStatement, Identifier, IntegerLiteral, LetStatement, Program, ReturnStatement,
    Statement, Expression,
};
use monkey::token::{Token, TokenType};

#[test]
fn test_to_string() {
    let ls = LetStatement::new(
        Token::new(TokenType::Let, String::from("let")),
        Identifier::new(
            Token::new(TokenType::Ident, String::from("myVar")),
            String::from("myVar"),
        ),
        Some(Expression::Ident(Identifier::new(
            Token::new(TokenType::Ident, String::from("anotherVar")),
            String::from("anotherVar"),
        ))),
    );
    assert_eq!(ls.to_string(), "let myVar = anotherVar;");
    let rs = ReturnStatement::new(
        Token::new(TokenType::Return, String::from("return")),
        Some(Expression::Ident(Identifier::new(
            Token::new(TokenType::Ident, String::from("myVar")),
            String::from("myVar"),
        ))),
    );
    assert_eq!(rs.to_string(), "return myVar;");
    let es = ExpressionStatement::new(
        Token::new(TokenType::Plus, String::from("+")),
        Some(Expression::Ident(Identifier::new(
            Token::new(TokenType::Ident, String::from("myVar")),
            String::from("myVar"),
        ))),
    );
    assert_eq!(es.to_string(), "+ myVar;");
    let id = Identifier::new(
        Token::new(TokenType::Ident, String::from("myVar")),
        String::from("myVar"),
    );
    assert_eq!(id.to_string(), "myVar");
    let ilit = IntegerLiteral::new(Token::new(TokenType::Int, String::from("5")), 5);
    assert_eq!(ilit.to_string(), "5");
    let mut program = Program::new();
    program.statements.push(Statement::Let(ls));
    program.statements.push(Statement::Return(rs));
    program.statements.push(Statement::Expr(es));
    assert_eq!(program.to_string(), "let myVar = anotherVar;\nreturn myVar;\n+ myVar;\n");
}

#[test]
fn empty_program_renders_as_nothing() {
    let program = Program::new();
    assert_eq!(program.to_string(), "");
    assert_eq!(program.token_literal(), "");
}

#[test]
fn program_token_literal_is_first_statements() {
    let mut program = Program::new();
    program.statements.push(Statement::Return(ReturnStatement::new(
        Token::new(TokenType::Return, String::from("return")),
        None,
    )));
    assert_eq!(program.token_literal(), "return");
}

#[test]
fn partial_statements_render_with_missing_values() {
    let ls = LetStatement::new(
        Token::new(TokenType::Let, String::from("let")),
        Identifier::new(Token::new(TokenType::Ident, String::from("x")), String::from("x")),
        None,
    );
    assert_eq!(ls.to_string(), "let x = ;");
    let rs = ReturnStatement::new(Token::new(TokenType::Return, String::from("return")), None);
    assert_eq!(rs.to_string(), "return ;");
}
