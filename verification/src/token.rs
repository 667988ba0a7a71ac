//! The token model: the closed set of lexical categories and the literal
//! text each token carries.

use vstd::prelude::*;

verus! {

/// The closed set of lexical categories.
#[derive(Clone, Copy, Debug, PartialEq, Eq, Structural)]
pub enum TokenType {
    /// An unrecognized character.
    Illegal,
    /// End of input.
    Eof,
    /// An identifier such as `add`, `foobar`, `x`, `y`.
    Ident,
    /// An integer literal such as `1343456`.
    Int,
    /// The keyword `fn`.
    Function,
    /// The keyword `let`.
    Let,
    /// The keyword `return`.
    Return,
    /// `=`
    Assign,
    /// `+`
    Plus,
    /// `-`
    Minus,
    /// `!`
    Bang,
    /// `*`
    Asterisk,
    /// `/`
    Slash,
    /// `<`
    Lt,
    /// `>`
    Gt,
    /// `==`
    Equal,
    /// `!=`
    NotEqual,
    /// `,`
    Comma,
    /// `;`
    Semicolon,
    /// `(`
    LParen,
    /// `)`
    RParen,
    /// `{`
    LBrace,
    /// `}`
    RBrace,
}

/// The mathematical model of a token: its category and the matched text.
pub struct TokenV {
    pub ttype: TokenType,
    pub literal: Seq<char>,
}

/// A lexical token: a category plus the exact substring that was matched.
#[derive(Debug, PartialEq)]
pub struct Token {
    pub ttype: TokenType,
    pub literal: String,
}

impl Clone for Token {
    /// An exact copy of the token.
    fn clone(&self) -> (t: Token)
        ensures
            t == *self,
    {
        Token { ttype: self.ttype, literal: self.literal.clone() }
    }
}

impl View for Token {
    type V = TokenV;

    open spec fn view(&self) -> TokenV {
        TokenV { ttype: self.ttype, literal: self.literal@ }
    }
}

impl Token {
    pub fn new(ttype: TokenType, literal: String) -> (t: Token)
        ensures
            t@ == (TokenV { ttype: ttype, literal: literal@ }),
    {
        Token { ttype, literal }
    }
}

/// The display name of a token category, as it appears in error messages.
pub open spec fn spec_ttype_name(t: TokenType) -> Seq<char> {
    match t {
        TokenType::Illegal => "ILLEGAL"@,
        TokenType::Eof => "EOF"@,
        TokenType::Ident => "IDENT"@,
        TokenType::Int => "INT"@,
        TokenType::Function => "fn"@,
        TokenType::Let => "let"@,
        TokenType::Return => "return"@,
        TokenType::Assign => "="@,
        TokenType::Plus => "+"@,
        TokenType::Minus => "-"@,
        TokenType::Bang => "!"@,
        TokenType::Asterisk => "*"@,
        TokenType::Slash => "/"@,
        TokenType::Lt => "<"@,
        TokenType::Gt => ">"@,
        TokenType::Equal => "=="@,
        TokenType::NotEqual => "!="@,
        TokenType::Comma => ","@,
        TokenType::Semicolon => ";"@,
        TokenType::LParen => "("@,
        TokenType::RParen => ")"@,
        TokenType::LBrace => "{"@,
        TokenType::RBrace => "}"@,
    }
}

/// The display name of a token category.
pub fn ttype_name(t: TokenType) -> (r: &'static str)
    ensures
        r@ == spec_ttype_name(t),
{
    match t {
        TokenType::Illegal => "ILLEGAL",
        TokenType::Eof => "EOF",
        TokenType::Ident => "IDENT",
        TokenType::Int => "INT",
        TokenType::Function => "fn",
        TokenType::Let => "let",
        TokenType::Return => "return",
        TokenType::Assign => "=",
        TokenType::Plus => "+",
        TokenType::Minus => "-",
        TokenType::Bang => "!",
        TokenType::Asterisk => "*",
        TokenType::Slash => "/",
        TokenType::Lt => "<",
        TokenType::Gt => ">",
        TokenType::Equal => "==",
        TokenType::NotEqual => "!=",
        TokenType::Comma => ",",
        TokenType::Semicolon => ";",
        TokenType::LParen => "(",
        TokenType::RParen => ")",
        TokenType::LBrace => "{",
        TokenType::RBrace => "}",
    }
}

/// Equality of two string slices, decided character by character.
pub fn str_eq(a: &str, b: &str) -> (r: bool)
    ensures
        r == (a@ == b@),
{
    let n = a.unicode_len();
    let m = b.unicode_len();
    if n != m {
        proof {
            assert(a@ != b@);
        }
        return false;
    }
    let mut i: usize = 0;
    while i < n
        invariant
            n == a@.len(),
            n == b@.len(),
            i <= n,
            forall|j: int| 0 <= j < i ==> a@[j] == b@[j],
        decreases n - i,
    {
        if a.get_char(i) != b.get_char(i) {
            return false;
        }
        i = i + 1;
    }
    proof {
        assert(a@ =~= b@);
    }
    true
}

/// Classification of an identifier's text against the fixed keyword table.
pub open spec fn spec_lookup_ident(s: Seq<char>) -> TokenType {
    if s == "fn"@ {
        TokenType::Function
    } else if s == "let"@ {
        TokenType::Let
    } else if s == "return"@ {
        TokenType::Return
    } else {
        TokenType::Ident
    }
}

/// Classifies accumulated identifier text: the keywords `fn`, `let` and
/// `return` get their own categories; anything else is an identifier.
pub fn lookup_ident(ident: &String) -> (t: TokenType)
    ensures
        t == spec_lookup_ident(ident@),
{
    if str_eq(ident.as_str(), "fn") {
        TokenType::Function
    } else if str_eq(ident.as_str(), "let") {
        TokenType::Let
    } else if str_eq(ident.as_str(), "return") {
        TokenType::Return
    } else {
        TokenType::Ident
    }
}

} // verus!
