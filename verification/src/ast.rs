//! The AST model: a closed family of node variants grouped into
//! statements and expressions. Every node stores the token that
//! introduced it plus its semantic payload, and supports a deterministic
//! to-text projection that reproduces a semantically faithful rendering
//! of the parsed construct (infix and prefix expressions come out fully
//! parenthesized, so precedence grouping is externally visible).

use vstd::prelude::*;
use vstd::string::*;
use crate::token::{Token, TokenType, TokenV};

verus! {

/// Whether a token of this category can begin an expression, that is,
/// whether the parser has a prefix production for it.
pub open spec fn starts_expression(t: TokenType) -> bool {
    t == TokenType::Ident || t == TokenType::Int || t == TokenType::Bang || t == TokenType::Minus
}

// ---------------------------------------------------------------------
// Mathematical models of the nodes.
// ---------------------------------------------------------------------

/// Model of an identifier reference.
pub struct IdentifierV {
    pub token: TokenV,
    pub value: Seq<char>,
}

/// Model of an integer literal.
pub struct IntegerLiteralV {
    pub token: TokenV,
    pub value: i64,
}

/// Model of a prefix operation.
pub struct PrefixExpressionV {
    pub token: TokenV,
    pub operator: Seq<char>,
    pub right: Option<Box<ExprV>>,
}

/// Model of an infix operation.
pub struct InfixExpressionV {
    pub token: TokenV,
    pub left: Option<Box<ExprV>>,
    pub operator: Seq<char>,
    pub right: Option<Box<ExprV>>,
}

/// Model of an expression.
pub enum ExprV {
    Ident(IdentifierV),
    Int(IntegerLiteralV),
    Prefix(PrefixExpressionV),
    Infix(InfixExpressionV),
}

/// Model of a let-binding.
pub struct LetStatementV {
    pub token: TokenV,
    pub name: IdentifierV,
    pub value: Option<ExprV>,
}

/// Model of a return statement.
pub struct ReturnStatementV {
    pub token: TokenV,
    pub return_value: Option<ExprV>,
}

/// Model of an expression evaluated as a statement.
pub struct ExpressionStatementV {
    pub token: TokenV,
    pub expression: Option<ExprV>,
}

/// Model of a statement.
pub enum StmtV {
    Let(LetStatementV),
    Return(ReturnStatementV),
    Expr(ExpressionStatementV),
}

// ---------------------------------------------------------------------
// The executable nodes.
// ---------------------------------------------------------------------

/// An identifier reference: a name.
pub struct Identifier {
    pub token: Token,
    pub value: String,
}

/// An integer literal: a 64-bit signed value parsed from digit text.
pub struct IntegerLiteral {
    pub token: Token,
    pub value: i64,
}

/// A prefix operation: an operator (`!`, `-`) applied to a right operand.
pub struct PrefixExpression {
    pub token: Token,
    pub operator: String,
    pub right: Option<Box<Expression>>,
}

/// An infix operation: a left operand, an operator, a right operand.
pub struct InfixExpression {
    pub token: Token,
    pub left: Option<Box<Expression>>,
    pub operator: String,
    pub right: Option<Box<Expression>>,
}

/// A value-producing construct.
pub enum Expression {
    Ident(Identifier),
    Int(IntegerLiteral),
    Prefix(PrefixExpression),
    Infix(InfixExpression),
}

/// A let-binding: `let <name> = <value>;`. The value may be absent
/// during partial-parse recovery.
pub struct LetStatement {
    pub token: Token,
    pub name: Identifier,
    pub value: Option<Expression>,
}

/// A return statement: `return <value>;`.
pub struct ReturnStatement {
    pub token: Token,
    pub return_value: Option<Expression>,
}

/// An expression evaluated for its side effect or value.
pub struct ExpressionStatement {
    pub token: Token,
    pub expression: Option<Expression>,
}

/// A top-level or block-level construct.
pub enum Statement {
    Let(LetStatement),
    Return(ReturnStatement),
    Expr(ExpressionStatement),
}

/// An ordered sequence of top-level statements; order is significant.
pub struct Program {
    pub statements: Vec<Statement>,
}

// ---------------------------------------------------------------------
// Views.
// ---------------------------------------------------------------------

impl Expression {
    /// The mathematical model of this expression.
    pub open spec fn model(self) -> ExprV
        decreases self,
    {
        match self {
            Expression::Ident(i) => ExprV::Ident(
                IdentifierV { token: i.token@, value: i.value@ },
            ),
            Expression::Int(i) => ExprV::Int(IntegerLiteralV { token: i.token@, value: i.value }),
            Expression::Prefix(p) => ExprV::Prefix(
                PrefixExpressionV {
                    token: p.token@,
                    operator: p.operator@,
                    right: match p.right {
                        None => None,
                        Some(b) => Some(Box::new((*b).model())),
                    },
                },
            ),
            Expression::Infix(x) => ExprV::Infix(
                InfixExpressionV {
                    token: x.token@,
                    left: match x.left {
                        None => None,
                        Some(b) => Some(Box::new((*b).model())),
                    },
                    operator: x.operator@,
                    right: match x.right {
                        None => None,
                        Some(b) => Some(Box::new((*b).model())),
                    },
                },
            ),
        }
    }
}

impl View for Expression {
    type V = ExprV;

    open spec fn view(&self) -> ExprV {
        self.model()
    }
}

/// The model of an optional expression.
pub open spec fn opt_model(e: Option<Expression>) -> Option<ExprV> {
    match e {
        None => None,
        Some(x) => Some(x.model()),
    }
}

/// The model of an optional statement.
pub open spec fn opt_stmt_model(s: Option<Statement>) -> Option<StmtV> {
    match s {
        None => None,
        Some(x) => Some(x@),
    }
}

impl View for Identifier {
    type V = IdentifierV;

    open spec fn view(&self) -> IdentifierV {
        IdentifierV { token: self.token@, value: self.value@ }
    }
}

impl View for IntegerLiteral {
    type V = IntegerLiteralV;

    open spec fn view(&self) -> IntegerLiteralV {
        IntegerLiteralV { token: self.token@, value: self.value }
    }
}

impl View for LetStatement {
    type V = LetStatementV;

    open spec fn view(&self) -> LetStatementV {
        LetStatementV { token: self.token@, name: self.name@, value: opt_model(self.value) }
    }
}

impl View for ReturnStatement {
    type V = ReturnStatementV;

    open spec fn view(&self) -> ReturnStatementV {
        ReturnStatementV { token: self.token@, return_value: opt_model(self.return_value) }
    }
}

impl View for ExpressionStatement {
    type V = ExpressionStatementV;

    open spec fn view(&self) -> ExpressionStatementV {
        ExpressionStatementV { token: self.token@, expression: opt_model(self.expression) }
    }
}

impl View for Statement {
    type V = StmtV;

    open spec fn view(&self) -> StmtV {
        match *self {
            Statement::Let(ref s) => StmtV::Let(s@),
            Statement::Return(ref s) => StmtV::Return(s@),
            Statement::Expr(ref s) => StmtV::Expr(s@),
        }
    }
}

impl View for Program {
    type V = Seq<StmtV>;

    open spec fn view(&self) -> Seq<StmtV> {
        self.statements@.map_values(|s: Statement| s@)
    }
}

// ---------------------------------------------------------------------
// Rendering.
// ---------------------------------------------------------------------

/// The text of an expression: identifiers render as their name, integer
/// literals as their digit text, prefix operations as `(<op><right>)`
/// and infix operations as `(<left> <op> <right>)`.
pub open spec fn expr_text(e: ExprV) -> Seq<char>
    decreases e,
{
    match e {
        ExprV::Ident(i) => i.value,
        ExprV::Int(i) => i.token.literal,
        ExprV::Prefix(p) => seq!['('] + p.operator + opt_text(p.right) + seq![')'],
        ExprV::Infix(x) => seq!['('] + opt_text(x.left) + seq![' '] + x.operator + seq![' ']
            + opt_text(x.right) + seq![')'],
    }
}

/// The text of an optional boxed expression; an absent operand renders
/// as nothing.
pub open spec fn opt_text(e: Option<Box<ExprV>>) -> Seq<char>
    decreases e,
{
    match e {
        None => Seq::empty(),
        Some(b) => expr_text(*b),
    }
}

/// The text of an optional expression.
pub open spec fn opt_expr_text(e: Option<ExprV>) -> Seq<char> {
    match e {
        None => Seq::empty(),
        Some(x) => expr_text(x),
    }
}

/// The text of a statement. An expression statement shows its
/// introducing token only when that token cannot itself begin an
/// expression (which happens only for nodes built by hand, never for
/// nodes the parser produced).
pub open spec fn stmt_text(st: StmtV) -> Seq<char> {
    match st {
        StmtV::Let(ls) => ls.token.literal + seq![' '] + ls.name.value + seq![' ', '=', ' ']
            + opt_expr_text(ls.value) + seq![';'],
        StmtV::Return(rs) => rs.token.literal + seq![' '] + opt_expr_text(rs.return_value)
            + seq![';'],
        StmtV::Expr(es) => if starts_expression(es.token.ttype) {
            opt_expr_text(es.expression) + seq![';']
        } else {
            es.token.literal + seq![' '] + opt_expr_text(es.expression) + seq![';']
        },
    }
}

/// The introducing token's text of a statement.
pub open spec fn stmt_literal(st: StmtV) -> Seq<char> {
    match st {
        StmtV::Let(ls) => ls.token.literal,
        StmtV::Return(rs) => rs.token.literal,
        StmtV::Expr(es) => es.token.literal,
    }
}

/// The text of a whole program: each statement's text followed by a
/// newline.
pub open spec fn program_text(stmts: Seq<StmtV>) -> Seq<char>
    decreases stmts.len(),
{
    if stmts.len() == 0 {
        Seq::empty()
    } else {
        program_text(stmts.drop_last()) + stmt_text(stmts.last()) + seq!['\n']
    }
}

// ---------------------------------------------------------------------
// Constructors.
// ---------------------------------------------------------------------

impl Program {
    /// A program with no statements.
    pub fn new() -> (p: Program)
        ensures
            p@ =~= Seq::<StmtV>::empty(),
    {
        Program { statements: Vec::new() }
    }
}

impl LetStatement {
    pub fn new(tok: Token, name: Identifier, value: Option<Expression>) -> (s: LetStatement)
        ensures
            s.token == tok,
            s.name == name,
            s.value == value,
    {
        LetStatement { token: tok, name, value }
    }
}

impl ReturnStatement {
    pub fn new(tok: Token, ret_value: Option<Expression>) -> (s: ReturnStatement)
        ensures
            s.token == tok,
            s.return_value == ret_value,
    {
        ReturnStatement { token: tok, return_value: ret_value }
    }
}

impl ExpressionStatement {
    pub fn new(tok: Token, exp: Option<Expression>) -> (s: ExpressionStatement)
        ensures
            s.token == tok,
            s.expression == exp,
    {
        ExpressionStatement { token: tok, expression: exp }
    }
}

impl Identifier {
    pub fn new(tok: Token, value: String) -> (i: Identifier)
        ensures
            i.token == tok,
            i.value == value,
    {
        Identifier { token: tok, value }
    }
}

impl IntegerLiteral {
    pub fn new(tok: Token, value: i64) -> (i: IntegerLiteral)
        ensures
            i.token == tok,
            i.value == value,
    {
        IntegerLiteral { token: tok, value }
    }
}

impl PrefixExpression {
    pub fn new(tok: Token, operator: String, right: Option<Box<Expression>>) -> (p:
        PrefixExpression)
        ensures
            p.token == tok,
            p.operator == operator,
            p.right == right,
    {
        PrefixExpression { token: tok, operator, right }
    }
}

impl InfixExpression {
    pub fn new(
        tok: Token,
        left: Option<Box<Expression>>,
        operator: String,
        right: Option<Box<Expression>>,
    ) -> (x: InfixExpression)
        ensures
            x.token == tok,
            x.left == left,
            x.operator == operator,
            x.right == right,
    {
        InfixExpression { token: tok, left, operator, right }
    }
}

// ---------------------------------------------------------------------
// Text projection, executable.
// ---------------------------------------------------------------------

/// What every AST node offers: the exact text of the token that
/// introduced it, and a deterministic to-text projection of the whole
/// construct.
pub trait Node {
    /// The introducing token's text, mathematically.
    spec fn spec_token_literal(&self) -> Seq<char>;

    /// The node's text, mathematically.
    spec fn spec_text(&self) -> Seq<char>;

    /// The introducing token's exact text.
    fn token_literal(&self) -> (r: String)
        ensures
            r@ == self.spec_token_literal(),
    ;

    /// The node's text.
    fn to_string(&self) -> (r: String)
        ensures
            r@ == self.spec_text(),
    ;
}

proof fn lemma_paren_lits()
    ensures
        "("@ =~= seq!['('],
        ")"@ =~= seq![')'],
        " "@ =~= seq![' '],
        " = "@ =~= seq![' ', '=', ' '],
        ";"@ =~= seq![';'],
        "\n"@ =~= seq!['\n'],
{
    reveal_strlit("(");
    reveal_strlit(")");
    reveal_strlit(" ");
    reveal_strlit(" = ");
    reveal_strlit(";");
    reveal_strlit("\n");
}

impl Expression {
    /// The token's exact text.
    pub fn token_literal(&self) -> (r: String)
        ensures
            r@ == match self@ {
                ExprV::Ident(i) => i.token.literal,
                ExprV::Int(i) => i.token.literal,
                ExprV::Prefix(p) => p.token.literal,
                ExprV::Infix(x) => x.token.literal,
            },
    {
        match self {
            Expression::Ident(i) => i.token.literal.clone(),
            Expression::Int(i) => i.token.literal.clone(),
            Expression::Prefix(p) => p.token.literal.clone(),
            Expression::Infix(x) => x.token.literal.clone(),
        }
    }

    /// The expression's text, fully parenthesized.
    pub fn to_string(&self) -> (r: String)
        ensures
            r@ == expr_text(self@),
        decreases *self,
    {
        proof {
            lemma_paren_lits();
        }
        match self {
            Expression::Ident(i) => i.value.clone(),
            Expression::Int(i) => i.token.literal.clone(),
            Expression::Prefix(p) => {
                let mut b = String::new();
                b.append("(");
                b.append(p.operator.as_str());
                match &p.right {
                    Some(r) => {
                        let t = r.to_string();
                        b.append(t.as_str());
                    },
                    None => {},
                }
                b.append(")");
                b
            },
            Expression::Infix(x) => {
                let mut b = String::new();
                b.append("(");
                match &x.left {
                    Some(l) => {
                        let t = l.to_string();
                        b.append(t.as_str());
                    },
                    None => {},
                }
                b.append(" ");
                b.append(x.operator.as_str());
                b.append(" ");
                match &x.right {
                    Some(r) => {
                        let t = r.to_string();
                        b.append(t.as_str());
                    },
                    None => {},
                }
                b.append(")");
                b
            },
        }
    }
}

impl Identifier {
    /// The token's exact text.
    pub fn token_literal(&self) -> (r: String)
        ensures
            r@ == self.token@.literal,
    {
        self.token.literal.clone()
    }

    /// The identifier's text: its name.
    pub fn to_string(&self) -> (r: String)
        ensures
            r@ == expr_text(ExprV::Ident(self@)),
    {
        self.value.clone()
    }
}

impl IntegerLiteral {
    /// The token's exact text.
    pub fn token_literal(&self) -> (r: String)
        ensures
            r@ == self.token@.literal,
    {
        self.token.literal.clone()
    }

    /// The literal's text: its digit text as matched.
    pub fn to_string(&self) -> (r: String)
        ensures
            r@ == expr_text(ExprV::Int(self@)),
    {
        self.token.literal.clone()
    }
}

impl LetStatement {
    /// The `let` token's exact text.
    pub fn token_literal(&self) -> (r: String)
        ensures
            r@ == self.token@.literal,
    {
        self.token.literal.clone()
    }

    /// The statement's text: `<let> <name> = <value>;`.
    pub fn to_string(&self) -> (r: String)
        ensures
            r@ == stmt_text(StmtV::Let(self@)),
    {
        proof {
            lemma_paren_lits();
        }
        let mut b = String::new();
        b.append(self.token.literal.as_str());
        b.append(" ");
        b.append(self.name.value.as_str());
        b.append(" = ");
        match &self.value {
            Some(e) => {
                let t = e.to_string();
                b.append(t.as_str());
            },
            None => {},
        }
        b.append(";");
        b
    }
}

impl ReturnStatement {
    /// The `return` token's exact text.
    pub fn token_literal(&self) -> (r: String)
        ensures
            r@ == self.token@.literal,
    {
        self.token.literal.clone()
    }

    /// The statement's text: `<return> <value>;`.
    pub fn to_string(&self) -> (r: String)
        ensures
            r@ == stmt_text(StmtV::Return(self@)),
    {
        proof {
            lemma_paren_lits();
        }
        let mut b = String::new();
        b.append(self.token.literal.as_str());
        b.append(" ");
        match &self.return_value {
            Some(e) => {
                let t = e.to_string();
                b.append(t.as_str());
            },
            None => {},
        }
        b.append(";");
        b
    }
}

impl ExpressionStatement {
    /// The introducing token's exact text.
    pub fn token_literal(&self) -> (r: String)
        ensures
            r@ == self.token@.literal,
    {
        self.token.literal.clone()
    }

    /// The statement's text: its expression followed by a semicolon. The
    /// introducing token is shown only when it cannot itself begin an
    /// expression, which never happens for parser-built nodes.
    pub fn to_string(&self) -> (r: String)
        ensures
            r@ == stmt_text(StmtV::Expr(self@)),
    {
        proof {
            lemma_paren_lits();
        }
        let mut b = String::new();
        if !starts_expr_exec(self.token.ttype) {
            b.append(self.token.literal.as_str());
            b.append(" ");
        }
        match &self.expression {
            Some(e) => {
                let t = e.to_string();
                b.append(t.as_str());
            },
            None => {},
        }
        b.append(";");
        b
    }
}

impl Statement {
    /// The introducing token's exact text.
    pub fn token_literal(&self) -> (r: String)
        ensures
            r@ == stmt_literal(self@),
    {
        match self {
            Statement::Let(s) => s.token_literal(),
            Statement::Return(s) => s.token_literal(),
            Statement::Expr(s) => s.token_literal(),
        }
    }

    /// The statement's text.
    pub fn to_string(&self) -> (r: String)
        ensures
            r@ == stmt_text(self@),
    {
        match self {
            Statement::Let(s) => s.to_string(),
            Statement::Return(s) => s.to_string(),
            Statement::Expr(s) => s.to_string(),
        }
    }
}

impl Node for Identifier {
    open spec fn spec_token_literal(&self) -> Seq<char> {
        self.token@.literal
    }

    open spec fn spec_text(&self) -> Seq<char> {
        expr_text(ExprV::Ident(self@))
    }

    fn token_literal(&self) -> (r: String) {
        Identifier::token_literal(self)
    }

    fn to_string(&self) -> (r: String) {
        Identifier::to_string(self)
    }
}

impl Node for IntegerLiteral {
    open spec fn spec_token_literal(&self) -> Seq<char> {
        self.token@.literal
    }

    open spec fn spec_text(&self) -> Seq<char> {
        expr_text(ExprV::Int(self@))
    }

    fn token_literal(&self) -> (r: String) {
        IntegerLiteral::token_literal(self)
    }

    fn to_string(&self) -> (r: String) {
        IntegerLiteral::to_string(self)
    }
}

impl Node for LetStatement {
    open spec fn spec_token_literal(&self) -> Seq<char> {
        self.token@.literal
    }

    open spec fn spec_text(&self) -> Seq<char> {
        stmt_text(StmtV::Let(self@))
    }

    fn token_literal(&self) -> (r: String) {
        LetStatement::token_literal(self)
    }

    fn to_string(&self) -> (r: String) {
        LetStatement::to_string(self)
    }
}

impl Node for ReturnStatement {
    open spec fn spec_token_literal(&self) -> Seq<char> {
        self.token@.literal
    }

    open spec fn spec_text(&self) -> Seq<char> {
        stmt_text(StmtV::Return(self@))
    }

    fn token_literal(&self) -> (r: String) {
        ReturnStatement::token_literal(self)
    }

    fn to_string(&self) -> (r: String) {
        ReturnStatement::to_string(self)
    }
}

impl Node for ExpressionStatement {
    open spec fn spec_token_literal(&self) -> Seq<char> {
        self.token@.literal
    }

    open spec fn spec_text(&self) -> Seq<char> {
        stmt_text(StmtV::Expr(self@))
    }

    fn token_literal(&self) -> (r: String) {
        ExpressionStatement::token_literal(self)
    }

    fn to_string(&self) -> (r: String) {
        ExpressionStatement::to_string(self)
    }
}

impl Node for Statement {
    open spec fn spec_token_literal(&self) -> Seq<char> {
        stmt_literal(self@)
    }

    open spec fn spec_text(&self) -> Seq<char> {
        stmt_text(self@)
    }

    fn token_literal(&self) -> (r: String) {
        Statement::token_literal(self)
    }

    fn to_string(&self) -> (r: String) {
        Statement::to_string(self)
    }
}

impl Node for Expression {
    open spec fn spec_token_literal(&self) -> Seq<char> {
        match self@ {
            ExprV::Ident(i) => i.token.literal,
            ExprV::Int(i) => i.token.literal,
            ExprV::Prefix(p) => p.token.literal,
            ExprV::Infix(x) => x.token.literal,
        }
    }

    open spec fn spec_text(&self) -> Seq<char> {
        expr_text(self@)
    }

    fn token_literal(&self) -> (r: String) {
        Expression::token_literal(self)
    }

    fn to_string(&self) -> (r: String) {
        Expression::to_string(self)
    }
}

impl Node for Program {
    open spec fn spec_token_literal(&self) -> Seq<char> {
        if self@.len() > 0 {
            stmt_literal(self@[0])
        } else {
            Seq::empty()
        }
    }

    open spec fn spec_text(&self) -> Seq<char> {
        program_text(self@)
    }

    fn token_literal(&self) -> (r: String) {
        Program::token_literal(self)
    }

    fn to_string(&self) -> (r: String) {
        Program::to_string(self)
    }
}

/// Whether a token of this category can begin an expression.
pub fn starts_expr_exec(t: TokenType) -> (r: bool)
    ensures
        r == starts_expression(t),
{
    match t {
        TokenType::Ident => true,
        TokenType::Int => true,
        TokenType::Bang => true,
        TokenType::Minus => true,
        _ => false,
    }
}

impl Program {
    /// The introducing token's text of the first statement, or the empty
    /// string for an empty program.
    pub fn token_literal(&self) -> (r: String)
        ensures
            r@ == if self@.len() > 0 {
                stmt_literal(self@[0])
            } else {
                Seq::<char>::empty()
            },
    {
        if self.statements.len() > 0 {
            self.statements[0].token_literal()
        } else {
            String::new()
        }
    }

    /// The whole program's text: each statement's text followed by a
    /// newline.
    pub fn to_string(&self) -> (r: String)
        ensures
            r@ == program_text(self@),
    {
        proof {
            lemma_paren_lits();
        }
        let mut b = String::new();
        let mut i: usize = 0;
        let n = self.statements.len();
        while i < n
            invariant
                n == self.statements.len(),
                i <= n,
                b@ == program_text(self@.take(i as int)),
            decreases n - i,
        {
            let t = self.statements[i].to_string();
            b.append(t.as_str());
            b.append("\n");
            proof {
                lemma_paren_lits();
                assert(self@.take(i + 1).drop_last() =~= self@.take(i as int));
                assert(self@.take(i + 1).last() == self@[i as int]);
            }
            i = i + 1;
        }
        proof {
            assert(self@.take(n as int) =~= self@);
        }
        b
    }
}

} // verus!
