//! The parser: consumes tokens from the lexer through one-token
//! lookahead plus one-token lookahead-of-lookahead (`cur_token` and
//! `peek_token`) and builds the AST, using recursive descent for
//! statements and precedence climbing for expressions. Syntax errors
//! are accumulated in order, never thrown: the parse pass always
//! completes and returns a (possibly partial) program.

use vstd::prelude::*;
use vstd::string::*;
use crate::ast::{
    ExprV, Expression, ExpressionStatement, ExpressionStatementV, Identifier, IdentifierV,
    InfixExpression, InfixExpressionV, IntegerLiteral, IntegerLiteralV, LetStatement,
    LetStatementV, PrefixExpression, PrefixExpressionV, Program, ReturnStatement,
    ReturnStatementV, Statement, StmtV, opt_model, opt_stmt_model,
};
use crate::lexer::{Lexer, all_tokens_from, lemma_next_token_bounds, spec_next_token};
use crate::numbers::{all_digits, digits_value, parse_i64_digits};
use crate::token::{Token, TokenType, TokenV, spec_ttype_name, ttype_name};

verus! {

/// The lowest binding strength: the starting precedence of every
/// statement-level expression parse.
pub const LOWEST: i32 = 0;

/// The binding strength of `==` and `!=`.
pub const EQUALS: i32 = 1;

/// The binding strength of `<` and `>`.
pub const LESSGREATER: i32 = 2;

/// The binding strength of `+` and binary `-`.
pub const SUM: i32 = 3;

/// The binding strength of `*` and `/`.
pub const PRODUCT: i32 = 4;

/// The binding strength of unary `!` and `-`.
pub const PREFIX: i32 = 5;

/// The binding strength of a call's `(`.
pub const CALL: i32 = 6;

/// The precedence of a token category when it stands between two
/// operands; categories that are no infix operator bind lowest.
pub open spec fn sp_precedence(t: TokenType) -> int {
    match t {
        TokenType::Equal => 1,
        TokenType::NotEqual => 1,
        TokenType::Lt => 2,
        TokenType::Gt => 2,
        TokenType::Plus => 3,
        TokenType::Minus => 3,
        TokenType::Slash => 4,
        TokenType::Asterisk => 4,
        TokenType::LParen => 6,
        _ => 0,
    }
}

/// Whether a token of this category may continue an expression as a
/// binary operator.
pub open spec fn sp_is_infix(t: TokenType) -> bool {
    match t {
        TokenType::Plus => true,
        TokenType::Minus => true,
        TokenType::Slash => true,
        TokenType::Asterisk => true,
        TokenType::Equal => true,
        TokenType::NotEqual => true,
        TokenType::Lt => true,
        TokenType::Gt => true,
        _ => false,
    }
}

/// The token at offset `i` of the remaining stream, if any.
pub open spec fn tok_at(rem: Seq<TokenV>, i: int) -> Option<TokenV> {
    if 0 <= i < rem.len() {
        Some(rem[i])
    } else {
        None
    }
}

/// The remaining stream after consuming one token; consuming from an
/// exhausted stream changes nothing.
pub open spec fn adv(rem: Seq<TokenV>) -> Seq<TokenV> {
    if rem.len() > 0 {
        rem.drop_first()
    } else {
        rem
    }
}

/// The error reported when the grammar demands a token category that the
/// peeked token does not have.
pub open spec fn peek_error_msg(expected: TokenType, got: Option<TokenV>) -> Seq<char> {
    "expected next token to be "@ + spec_ttype_name(expected) + ", got "@ + (match got {
        Some(t) => spec_ttype_name(t.ttype),
        None => "None"@,
    }) + " instead"@
}

/// The error reported when a token with no prefix production appears in
/// expression position.
pub open spec fn no_prefix_msg(cur: Option<TokenV>) -> Seq<char> {
    "no prefix parse function for "@ + (match cur {
        Some(t) => spec_ttype_name(t.ttype),
        None => "None"@,
    }) + " found"@
}

/// The error reported when integer-literal digit text does not fit a
/// 64-bit signed value (or is no digit text at all).
pub open spec fn int_error_msg(lit: Seq<char>) -> Seq<char> {
    "could not parse "@ + lit + " as integer"@
}

/// Whether the token at offset `i` of the remaining stream has the given
/// category.
pub open spec fn ttype_at_is(rem: Seq<TokenV>, i: int, tt: TokenType) -> bool {
    match tok_at(rem, i) {
        Some(t) => t.ttype == tt,
        None => false,
    }
}

// ---------------------------------------------------------------------
// The specification parser: what each parse function returns and which
// tokens it consumes, over the remaining token stream. Each function
// yields the parsed node (if any), the stream that is left, and the
// errors it records. The `len` guards before recursive calls keep the
// definitions total; the executable parser proves that every parse
// consumes at most what was there, so the guards always hold.
// ---------------------------------------------------------------------

/// An identifier node made from the current token.
pub open spec fn sp_parse_identifier(rem: Seq<TokenV>) -> Option<ExprV> {
    match tok_at(rem, 0) {
        Some(t) => Some(ExprV::Ident(IdentifierV { token: t, value: t.literal })),
        None => None,
    }
}

/// An integer-literal node made from the current token: its digit text
/// converted to a 64-bit value, or a conversion error when the text does
/// not fit.
pub open spec fn sp_parse_integer_literal(rem: Seq<TokenV>) -> (Option<ExprV>, Seq<Seq<char>>) {
    match tok_at(rem, 0) {
        Some(t) => if t.literal.len() > 0 && all_digits(t.literal) && digits_value(t.literal)
            <= i64::MAX {
            (
                Some(
                    ExprV::Int(
                        IntegerLiteralV { token: t, value: digits_value(t.literal) as i64 },
                    ),
                ),
                Seq::<Seq<char>>::empty(),
            )
        } else {
            (None::<ExprV>, seq![int_error_msg(t.literal)])
        },
        None => (None::<ExprV>, Seq::<Seq<char>>::empty()),
    }
}

/// A prefix-operation node: the current token is the operator; the
/// operand is parsed at prefix precedence.
pub open spec fn sp_parse_prefix_expression(rem: Seq<TokenV>) -> (
    Option<ExprV>,
    Seq<TokenV>,
    Seq<Seq<char>>,
)
    decreases rem.len(), 0int,
{
    match tok_at(rem, 0) {
        None => (None::<ExprV>, rem, Seq::<Seq<char>>::empty()),
        Some(t) => {
            let rem1 = adv(rem);
            let (right, rem2, errs) = sp_parse_expression(rem1, 5);
            (
                Some(
                    ExprV::Prefix(
                        PrefixExpressionV {
                            token: t,
                            operator: t.literal,
                            right: match right {
                                None => None,
                                Some(r) => Some(Box::new(r)),
                            },
                        },
                    ),
                ),
                rem2,
                errs,
            )
        },
    }
}

/// An infix-operation node: the current token is the operator; the right
/// operand is parsed at the operator's own precedence, which makes the
/// fold left-associative.
pub open spec fn sp_parse_infix_expression(rem: Seq<TokenV>, left: Option<ExprV>) -> (
    Option<ExprV>,
    Seq<TokenV>,
    Seq<Seq<char>>,
)
    decreases rem.len(), 0int,
{
    match tok_at(rem, 0) {
        None => (None::<ExprV>, rem, Seq::<Seq<char>>::empty()),
        Some(t) => {
            let rem1 = adv(rem);
            let (right, rem2, errs) = sp_parse_expression(rem1, sp_precedence(t.ttype));
            (
                Some(
                    ExprV::Infix(
                        InfixExpressionV {
                            token: t,
                            left: match left {
                                None => None,
                                Some(l) => Some(Box::new(l)),
                            },
                            operator: t.literal,
                            right: match right {
                                None => None,
                                Some(r) => Some(Box::new(r)),
                            },
                        },
                    ),
                ),
                rem2,
                errs,
            )
        },
    }
}

/// The prefix dispatch table: which production a token category selects
/// at the start of an expression.
pub open spec fn sp_prefix_dispatch_arg(ttype: TokenType, rem: Seq<TokenV>) -> (
    Option<ExprV>,
    Seq<TokenV>,
    Seq<Seq<char>>,
)
    decreases rem.len(), 1int,
{
    match ttype {
        TokenType::Ident => (sp_parse_identifier(rem), rem, Seq::<Seq<char>>::empty()),
        TokenType::Int => {
            let (r, e) = sp_parse_integer_literal(rem);
            (r, rem, e)
        },
        TokenType::Bang => sp_parse_prefix_expression(rem),
        TokenType::Minus => sp_parse_prefix_expression(rem),
        _ => (None::<ExprV>, rem, Seq::<Seq<char>>::empty()),
    }
}

/// The precedence-climbing loop: while the peeked token binds tighter
/// than the caller's precedence and is a registered infix operator, fold
/// the accumulated left expression with the next operand.
pub open spec fn sp_expr_loop(rem: Seq<TokenV>, left: Option<ExprV>, prec: int) -> (
    Option<ExprV>,
    Seq<TokenV>,
    Seq<Seq<char>>,
)
    decreases rem.len(), 2int,
{
    let pk = tok_at(rem, 1);
    let is_semi = ttype_at_is(rem, 1, TokenType::Semicolon);
    let pprec = match pk {
        Some(t) => sp_precedence(t.ttype),
        None => 0,
    };
    if !is_semi && prec < pprec {
        let flag = match pk {
            Some(t) => sp_is_infix(t.ttype),
            None => false,
        };
        if !flag {
            (left, rem, Seq::<Seq<char>>::empty())
        } else {
            let rem1 = adv(rem);
            let (newleft, rem2, errs) = sp_parse_infix_expression(rem1, left);
            if rem2.len() < rem.len() {
                let (res, rem3, errs2) = sp_expr_loop(rem2, newleft, prec);
                (res, rem3, errs + errs2)
            } else {
                (newleft, rem2, errs)
            }
        }
    } else {
        (left, rem, Seq::<Seq<char>>::empty())
    }
}

/// One expression parse at the given precedence: one prefix production
/// for the current token, then the precedence-climbing loop. A token
/// with no prefix production is a recorded error, and the expression
/// resolves to none for that position.
pub open spec fn sp_parse_expression(rem: Seq<TokenV>, prec: int) -> (
    Option<ExprV>,
    Seq<TokenV>,
    Seq<Seq<char>>,
)
    decreases rem.len(), 3int,
{
    let dispatched = match tok_at(rem, 0) {
        None => (None::<ExprV>, rem, Seq::<Seq<char>>::empty()),
        Some(t) => sp_prefix_dispatch_arg(t.ttype, rem),
    };
    let (pre, rem1, errs1) = dispatched;
    match pre {
        None => (None::<ExprV>, rem1, errs1 + seq![no_prefix_msg(tok_at(rem1, 0))]),
        Some(left) => if rem1.len() <= rem.len() {
            let (res, rem2, errs2) = sp_expr_loop(rem1, Some(left), prec);
            (res, rem2, errs1 + errs2)
        } else {
            (Some(left), rem1, errs1)
        },
    }
}

/// A let statement: `let`, then a demanded identifier, then a demanded
/// `=`, then the bound expression at lowest precedence, then an optional
/// trailing semicolon. A missing identifier or `=` is a recorded
/// mismatch and no statement.
pub open spec fn sp_parse_let_statement(rem: Seq<TokenV>) -> (
    Option<StmtV>,
    Seq<TokenV>,
    Seq<Seq<char>>,
) {
    match tok_at(rem, 0) {
        None => (None::<StmtV>, rem, Seq::<Seq<char>>::empty()),
        Some(lt) => {
            if ttype_at_is(rem, 1, TokenType::Ident) {
                let rem1 = adv(rem);
                let name = IdentifierV { token: rem[1], value: rem[1].literal };
                if ttype_at_is(rem1, 1, TokenType::Assign) {
                    let rem2 = adv(rem1);
                    let rem3 = adv(rem2);
                    let (value, rem4, errs) = sp_parse_expression(rem3, 0);
                    let rem5 = if ttype_at_is(rem4, 1, TokenType::Semicolon) {
                        adv(rem4)
                    } else {
                        rem4
                    };
                    (
                        Some(StmtV::Let(LetStatementV { token: lt, name: name, value: value })),
                        rem5,
                        errs,
                    )
                } else {
                    (
                        None::<StmtV>,
                        rem1,
                        seq![peek_error_msg(TokenType::Assign, tok_at(rem1, 1))],
                    )
                }
            } else {
                (None::<StmtV>, rem, seq![peek_error_msg(TokenType::Ident, tok_at(rem, 1))])
            }
        },
    }
}

/// A return statement: `return`, then the returned expression at lowest
/// precedence, then an optional trailing semicolon.
pub open spec fn sp_parse_return_statement(rem: Seq<TokenV>) -> (
    Option<StmtV>,
    Seq<TokenV>,
    Seq<Seq<char>>,
) {
    match tok_at(rem, 0) {
        None => (None::<StmtV>, rem, Seq::<Seq<char>>::empty()),
        Some(rt) => {
            let rem1 = adv(rem);
            let (value, rem2, errs) = sp_parse_expression(rem1, 0);
            let rem3 = if ttype_at_is(rem2, 1, TokenType::Semicolon) {
                adv(rem2)
            } else {
                rem2
            };
            (Some(StmtV::Return(ReturnStatementV { token: rt, return_value: value })), rem3, errs)
        },
    }
}

/// An expression statement: one expression at lowest precedence, then an
/// optional trailing semicolon. The statement is built even when the
/// expression resolved to none, so parsing can continue.
pub open spec fn sp_parse_expression_statement(rem: Seq<TokenV>) -> (
    Option<StmtV>,
    Seq<TokenV>,
    Seq<Seq<char>>,
) {
    match tok_at(rem, 0) {
        None => (None::<StmtV>, rem, Seq::<Seq<char>>::empty()),
        Some(t) => {
            let (expr, rem1, errs) = sp_parse_expression(rem, 0);
            let rem2 = if ttype_at_is(rem1, 1, TokenType::Semicolon) {
                adv(rem1)
            } else {
                rem1
            };
            (Some(StmtV::Expr(ExpressionStatementV { token: t, expression: expr })), rem2, errs)
        },
    }
}

/// Statement dispatch, keyed on the current token's category: `let` and
/// `return` get their own productions, anything else is an expression
/// statement.
pub open spec fn sp_parse_statement(rem: Seq<TokenV>) -> (
    Option<StmtV>,
    Seq<TokenV>,
    Seq<Seq<char>>,
) {
    match tok_at(rem, 0) {
        None => (None::<StmtV>, rem, Seq::<Seq<char>>::empty()),
        Some(t) => if t.ttype == TokenType::Let {
            sp_parse_let_statement(rem)
        } else if t.ttype == TokenType::Return {
            sp_parse_return_statement(rem)
        } else {
            sp_parse_expression_statement(rem)
        },
    }
}

/// The whole parse: statements parsed and collected until the stream
/// runs dry, advancing one token between statements; a statement that
/// failed contributes its errors and no node.
pub open spec fn sp_program_loop(rem: Seq<TokenV>) -> (Seq<StmtV>, Seq<Seq<char>>)
    decreases rem.len(),
{
    if rem.len() == 0 {
        (Seq::<StmtV>::empty(), Seq::<Seq<char>>::empty())
    } else {
        let t = rem[0];
        let stepped = if t.ttype != TokenType::Eof {
            sp_parse_statement(rem)
        } else {
            (None::<StmtV>, rem, Seq::<Seq<char>>::empty())
        };
        let (st, rem1, errs1) = stepped;
        let here = match st {
            Some(s) => seq![s],
            None => Seq::<StmtV>::empty(),
        };
        if rem1.len() <= rem.len() {
            let (rest, rerrs) = sp_program_loop(adv(rem1));
            (here + rest, errs1 + rerrs)
        } else {
            (here, errs1)
        }
    }
}

/// What `parse_program` returns on a given token stream: the ordered
/// statements and the ordered errors.
pub open spec fn sp_parse_program(rem: Seq<TokenV>) -> (Seq<StmtV>, Seq<Seq<char>>) {
    sp_program_loop(rem)
}

/// The parser: the lexer it drains, the errors collected so far, and the
/// two tokens of lookahead.
pub struct Parser<'a> {
    pub l: Lexer<'a>,
    pub errors: Vec<String>,
    pub cur_token: Option<Token>,
    pub peek_token: Option<Token>,
}

impl<'a> Parser<'a> {
    /// The tokens the lexer has not yet handed out.
    pub open spec fn stream(self) -> Seq<TokenV> {
        all_tokens_from(self.l.input@, self.l.position as int)
    }

    /// The remaining token stream, lookahead included: `rem()[0]` is the
    /// current token and `rem()[1]` the peeked one.
    pub open spec fn rem(self) -> Seq<TokenV> {
        match self.cur_token {
            None => Seq::empty(),
            Some(c) => seq![c@] + match self.peek_token {
                None => Seq::empty(),
                Some(p) => seq![p@] + self.stream(),
            },
        }
    }

    /// The errors collected so far, in order.
    pub open spec fn errs(self) -> Seq<Seq<char>> {
        self.errors@.map_values(|e: String| e@)
    }

    /// The parser invariant: the lexer cursor is well formed and the
    /// lookahead runs dry only when the stream behind it already has.
    pub open spec fn wf(self) -> bool {
        &&& self.l.wf()
        &&& (self.cur_token is None ==> self.peek_token is None)
        &&& (self.peek_token is None ==> self.stream().len() == 0)
    }

    /// A parser over the given lexer, with both lookahead tokens filled.
    pub fn new(lexer: Lexer<'a>) -> (p: Parser<'a>)
        requires
            lexer.wf(),
        ensures
            p.wf(),
            p.l.input@ == lexer.input@,
            p.rem() == all_tokens_from(lexer.input@, lexer.position as int),
            p.errs() == Seq::<Seq<char>>::empty(),
    {
        let mut l = lexer;
        let ghost s = l.input@;
        let ghost pos0 = l.position as int;
        proof {
            lemma_next_token_bounds(s, pos0);
        }
        let t1 = l.next_token();
        let ghost pos1 = l.position as int;
        proof {
            lemma_next_token_bounds(s, pos1);
        }
        let t2 = l.next_token();
        let p = Parser { l, errors: Vec::new(), cur_token: t1, peek_token: t2 };
        proof {
            assert(p.errs() =~= Seq::<Seq<char>>::empty());
            let (st1, sp1) = spec_next_token(s, pos0);
            let (st2, sp2) = spec_next_token(s, pos1);
            if t1 is Some {
                assert(all_tokens_from(s, pos0) == seq![st1->0] + all_tokens_from(s, sp1));
                if t2 is Some {
                    assert(all_tokens_from(s, pos1) == seq![st2->0] + all_tokens_from(s, sp2));
                    assert(p.rem() =~= all_tokens_from(s, pos0));
                } else {
                    assert(all_tokens_from(s, pos1) =~= Seq::<TokenV>::empty());
                    assert(p.rem() =~= all_tokens_from(s, pos0));
                }
            } else {
                assert(all_tokens_from(s, pos0) =~= Seq::<TokenV>::empty());
                assert(p.rem() =~= all_tokens_from(s, pos0));
            }
        }
        p
    }

    /// Shifts the peeked token into current position and pulls a fresh
    /// token from the lexer: the remaining stream loses its head.
    pub fn next_token(&mut self)
        requires
            old(self).wf(),
        ensures
            final(self).wf(),
            final(self).l.input@ == old(self).l.input@,
            final(self).rem() == adv(old(self).rem()),
            final(self).errs() == old(self).errs(),
    {
        let ghost s = self.l.input@;
        let ghost pos0 = self.l.position as int;
        proof {
            lemma_next_token_bounds(s, pos0);
        }
        self.cur_token = self.peek_token.take();
        let t = self.l.next_token();
        self.peek_token = t;
        proof {
            let ghost pos1 = self.l.position as int;
            if t is None {
                assert(all_tokens_from(s, pos0) =~= Seq::<TokenV>::empty());
                assert(all_tokens_from(s, pos1) =~= Seq::<TokenV>::empty());
            }
            assert(final(self).rem() =~= adv(old(self).rem()));
        }
    }

    /// Whether the peeked token has the given category.
    pub fn peek_token_is(&self, ttype: TokenType) -> (r: bool)
        requires
            self.wf(),
        ensures
            r == match tok_at(self.rem(), 1) {
                Some(t) => t.ttype == ttype,
                None => false,
            },
    {
        match &self.peek_token {
            Some(t) => t.ttype == ttype,
            None => false,
        }
    }

    /// The precedence table, keyed by token category.
    pub fn precedences(&self, ttype: TokenType) -> (r: i32)
        ensures
            r as int == sp_precedence(ttype),
            0 <= r <= 6,
    {
        match ttype {
            TokenType::Equal => EQUALS,
            TokenType::NotEqual => EQUALS,
            TokenType::Lt => LESSGREATER,
            TokenType::Gt => LESSGREATER,
            TokenType::Plus => SUM,
            TokenType::Minus => SUM,
            TokenType::Slash => PRODUCT,
            TokenType::Asterisk => PRODUCT,
            TokenType::LParen => CALL,
            _ => LOWEST,
        }
    }

    /// The precedence of the current token; lowest when input ran out.
    pub fn cur_precedence(&self) -> (r: i32)
        requires
            self.wf(),
        ensures
            r as int == match tok_at(self.rem(), 0) {
                Some(t) => sp_precedence(t.ttype),
                None => 0,
            },
            0 <= r <= 6,
    {
        match &self.cur_token {
            Some(t) => self.precedences(t.ttype),
            None => LOWEST,
        }
    }

    /// The precedence of the peeked token; lowest when input ran out.
    pub fn peek_precedence(&self) -> (r: i32)
        requires
            self.wf(),
        ensures
            r as int == match tok_at(self.rem(), 1) {
                Some(t) => sp_precedence(t.ttype),
                None => 0,
            },
            0 <= r <= 6,
    {
        match &self.peek_token {
            Some(t) => self.precedences(t.ttype),
            None => LOWEST,
        }
    }

    /// Whether a token of this category may continue an expression as a
    /// binary operator.
    pub fn infix_parse_fns(&self, ttype: TokenType) -> (r: bool)
        ensures
            r == sp_is_infix(ttype),
    {
        match ttype {
            TokenType::Plus => true,
            TokenType::Minus => true,
            TokenType::Slash => true,
            TokenType::Asterisk => true,
            TokenType::Equal => true,
            TokenType::NotEqual => true,
            TokenType::Lt => true,
            TokenType::Gt => true,
            _ => false,
        }
    }

    /// Records that the peeked token missed the category the grammar
    /// demanded.
    pub fn peek_error(&mut self, ttype: TokenType)
        requires
            old(self).wf(),
        ensures
            final(self).wf(),
            final(self).l.input@ == old(self).l.input@,
            final(self).rem() == old(self).rem(),
            final(self).errs() =~= old(self).errs() + seq![
                peek_error_msg(ttype, tok_at(old(self).rem(), 1)),
            ],
    {
        let mut msg = String::new();
        msg.append("expected next token to be ");
        msg.append(ttype_name(ttype));
        msg.append(", got ");
        match &self.peek_token {
            Some(t) => {
                msg.append(ttype_name(t.ttype));
            },
            None => {
                msg.append("None");
            },
        }
        msg.append(" instead");
        self.errors.push(msg);
        proof {
            assert(final(self).errs() =~= old(self).errs() + seq![
                peek_error_msg(ttype, tok_at(old(self).rem(), 1)),
            ]);
        }
    }

    /// Records that the current token cannot begin an expression.
    pub fn no_prefix_parse_fn_error(&mut self)
        requires
            old(self).wf(),
        ensures
            final(self).wf(),
            final(self).l.input@ == old(self).l.input@,
            final(self).rem() == old(self).rem(),
            final(self).errs() =~= old(self).errs() + seq![
                no_prefix_msg(tok_at(old(self).rem(), 0)),
            ],
    {
        let mut msg = String::new();
        msg.append("no prefix parse function for ");
        match &self.cur_token {
            Some(t) => {
                msg.append(ttype_name(t.ttype));
            },
            None => {
                msg.append("None");
            },
        }
        msg.append(" found");
        self.errors.push(msg);
        proof {
            assert(final(self).errs() =~= old(self).errs() + seq![
                no_prefix_msg(tok_at(old(self).rem(), 0)),
            ]);
        }
    }

    /// An identifier node from the current token. Consumes nothing: the
    /// shared expression machinery advances the stream.
    pub fn parse_identifier(&mut self) -> (r: Option<Expression>)
        requires
            old(self).wf(),
        ensures
            final(self).wf(),
            final(self).l.input@ == old(self).l.input@,
            opt_model(r) == sp_parse_identifier(old(self).rem()),
            final(self).rem() == old(self).rem(),
            final(self).errs() == old(self).errs(),
    {
        match &self.cur_token {
            Some(t) => Some(
                Expression::Ident(Identifier::new(t.clone(), t.literal.clone())),
            ),
            None => None,
        }
    }

    /// An integer-literal node from the current token's digit text; text
    /// that does not fit a 64-bit signed value records a conversion
    /// error. Consumes nothing.
    pub fn parse_integer_literal(&mut self) -> (r: Option<Expression>)
        requires
            old(self).wf(),
        ensures
            final(self).wf(),
            final(self).l.input@ == old(self).l.input@,
            final(self).rem() == old(self).rem(),
            ({
                let (res, errs2) = sp_parse_integer_literal(old(self).rem());
                &&& opt_model(r) == res
                &&& final(self).errs() =~= old(self).errs() + errs2
            }),
    {
        let tok = match &self.cur_token {
            Some(t) => t.clone(),
            None => {
                return None;
            },
        };
        match parse_i64_digits(tok.literal.as_str()) {
            Some(val) => Some(Expression::Int(IntegerLiteral::new(tok, val))),
            None => {
                let mut msg = String::new();
                msg.append("could not parse ");
                msg.append(tok.literal.as_str());
                msg.append(" as integer");
                self.errors.push(msg);
                proof {
                    assert(final(self).errs() =~= old(self).errs() + seq![
                        int_error_msg(old(self).rem()[0].literal),
                    ]);
                }
                None
            },
        }
    }

    /// The prefix dispatch: hands the current token to the production
    /// its category selects, or reports that there is none.
    pub fn prefix_parse_fns(&mut self, ttype: TokenType) -> (r: Option<Expression>)
        requires
            old(self).wf(),
        ensures
            final(self).wf(),
            final(self).l.input@ == old(self).l.input@,
            ({
                let (res, rem2, errs2) = sp_prefix_dispatch_arg(ttype, old(self).rem());
                &&& opt_model(r) == res
                &&& final(self).rem() == rem2
                &&& final(self).errs() =~= old(self).errs() + errs2
            }),
            final(self).rem().len() <= old(self).rem().len(),
        decreases old(self).rem().len(), 1int,
    {
        match ttype {
            TokenType::Ident => self.parse_identifier(),
            TokenType::Int => self.parse_integer_literal(),
            TokenType::Bang => self.parse_prefix_expression(),
            TokenType::Minus => self.parse_prefix_expression(),
            _ => None,
        }
    }

    /// A prefix operation: the current token is the operator; the
    /// operand that follows is parsed at prefix precedence.
    pub fn parse_prefix_expression(&mut self) -> (r: Option<Expression>)
        requires
            old(self).wf(),
        ensures
            final(self).wf(),
            final(self).l.input@ == old(self).l.input@,
            ({
                let (res, rem2, errs2) = sp_parse_prefix_expression(old(self).rem());
                &&& opt_model(r) == res
                &&& final(self).rem() == rem2
                &&& final(self).errs() =~= old(self).errs() + errs2
            }),
            final(self).rem().len() <= old(self).rem().len(),
        decreases old(self).rem().len(), 0int,
    {
        let token = match &self.cur_token {
            Some(t) => t.clone(),
            None => {
                return None;
            },
        };
        self.next_token();
        let right = self.parse_expression(PREFIX);
        let rb = match right {
            Some(e) => Some(Box::new(e)),
            None => None,
        };
        let lit = token.literal.clone();
        Some(Expression::Prefix(PrefixExpression::new(token, lit, rb)))
    }

    /// An infix operation: the current token is the operator, `left` the
    /// operand already parsed; the right operand is parsed at the
    /// operator's own precedence.
    pub fn parse_infix_expression(&mut self, left: Option<Expression>) -> (r: Option<Expression>)
        requires
            old(self).wf(),
        ensures
            final(self).wf(),
            final(self).l.input@ == old(self).l.input@,
            ({
                let (res, rem2, errs2) = sp_parse_infix_expression(old(self).rem(), opt_model(left));
                &&& opt_model(r) == res
                &&& final(self).rem() == rem2
                &&& final(self).errs() =~= old(self).errs() + errs2
            }),
            final(self).rem().len() <= old(self).rem().len(),
            old(self).rem().len() > 0 ==> final(self).rem().len() < old(self).rem().len(),
        decreases old(self).rem().len(), 0int,
    {
        let token = match &self.cur_token {
            Some(t) => t.clone(),
            None => {
                return None;
            },
        };
        let precedence = self.cur_precedence();
        self.next_token();
        let right = self.parse_expression(precedence);
        let lb = match left {
            Some(e) => Some(Box::new(e)),
            None => None,
        };
        let rb = match right {
            Some(e) => Some(Box::new(e)),
            None => None,
        };
        let lit = token.literal.clone();
        Some(Expression::Infix(InfixExpression::new(token, lb, lit, rb)))
    }

    /// One expression parse at the given precedence: one prefix
    /// production for the current token, then, while the peeked token is
    /// a registered infix operator binding tighter than `precedence`,
    /// fold left and right operands into infix nodes.
    pub fn parse_expression(&mut self, precedence: i32) -> (r: Option<Expression>)
        requires
            old(self).wf(),
        ensures
            final(self).wf(),
            final(self).l.input@ == old(self).l.input@,
            ({
                let (res, rem2, errs2) = sp_parse_expression(old(self).rem(), precedence as int);
                &&& opt_model(r) == res
                &&& final(self).rem() == rem2
                &&& final(self).errs() =~= old(self).errs() + errs2
            }),
            final(self).rem().len() <= old(self).rem().len(),
        decreases old(self).rem().len(), 3int,
    {
        let ghost rem0 = self.rem();
        let ghost errs0 = self.errs();
        let ctt: Option<TokenType> = match &self.cur_token {
            Some(t) => Some(t.ttype),
            None => None,
        };
        let prefix: Option<Expression> = match ctt {
            Some(tt) => self.prefix_parse_fns(tt),
            None => None,
        };
        if prefix.is_none() {
            self.no_prefix_parse_fn_error();
            proof {
                let (res, rem2, errs2) = sp_parse_expression(rem0, precedence as int);
                assert(final(self).errs() =~= errs0 + errs2);
            }
            return None;
        }
        let mut left_exp: Option<Expression> = prefix;
        let ghost rem1 = self.rem();
        let ghost errs1 = self.errs();
        let ghost target = sp_expr_loop(rem1, opt_model(left_exp), precedence as int);
        loop
            invariant
                self.wf(),
                self.l.input@ == old(self).l.input@,
                rem0 == old(self).rem(),
                rem1.len() <= rem0.len(),
                self.rem().len() <= rem1.len(),
                ({
                    let t_now = sp_expr_loop(self.rem(), opt_model(left_exp), precedence as int);
                    &&& t_now.0 == target.0
                    &&& t_now.1 == target.1
                    &&& errs1 + target.2 =~= self.errs() + t_now.2
                }),
            ensures
                self.wf(),
                self.l.input@ == old(self).l.input@,
                self.rem().len() <= rem1.len(),
                opt_model(left_exp) == target.0,
                self.rem() == target.1,
                self.errs() =~= errs1 + target.2,
            decreases self.rem().len(),
        {
            let semi = self.peek_token_is(TokenType::Semicolon);
            let pprec = self.peek_precedence();
            if !(!semi && precedence < pprec) {
                proof {
                    assert(self.errs() + Seq::<Seq<char>>::empty() =~= self.errs());
                }
                break;
            }
            let ptt: Option<TokenType> = match &self.peek_token {
                Some(t) => Some(t.ttype),
                None => None,
            };
            let flag = match ptt {
                Some(tt) => self.infix_parse_fns(tt),
                None => false,
            };
            if !flag {
                proof {
                    assert(self.errs() + Seq::<Seq<char>>::empty() =~= self.errs());
                }
                break;
            }
            let ghost rem_i = self.rem();
            let ghost left_i = opt_model(left_exp);
            self.next_token();
            left_exp = self.parse_infix_expression(left_exp);
            proof {
                let (newleft, rem2, errs_step) = sp_parse_infix_expression(adv(rem_i), left_i);
                let t_old = sp_expr_loop(rem_i, left_i, precedence as int);
                let t_new = sp_expr_loop(self.rem(), opt_model(left_exp), precedence as int);
                assert(t_old.2 =~= errs_step + t_new.2);
                assert(errs1 + target.2 =~= self.errs() + t_new.2);
            }
        }
        proof {
            let (res, rem2, errs2) = sp_parse_expression(rem0, precedence as int);
            assert(final(self).errs() =~= errs0 + errs2);
        }
        left_exp
    }

    /// A let statement: demands an identifier and a `=` after the `let`
    /// keyword, then parses the bound expression at lowest precedence
    /// and an optional trailing semicolon.
    pub fn parse_let_statement(&mut self) -> (r: Option<Statement>)
        requires
            old(self).wf(),
        ensures
            final(self).wf(),
            final(self).l.input@ == old(self).l.input@,
            ({
                let (res, rem2, errs2) = sp_parse_let_statement(old(self).rem());
                &&& opt_stmt_model(r) == res
                &&& final(self).rem() == rem2
                &&& final(self).errs() =~= old(self).errs() + errs2
            }),
            final(self).rem().len() <= old(self).rem().len(),
    {
        let token = match &self.cur_token {
            Some(t) => t.clone(),
            None => {
                return None;
            },
        };
        if !self.expect_peek(TokenType::Ident) {
            return None;
        }
        let cur = self.cur_token.as_ref().unwrap();
        let name = Identifier::new(cur.clone(), cur.literal.clone());
        if !self.expect_peek(TokenType::Assign) {
            return None;
        }
        self.next_token();
        let value = self.parse_expression(LOWEST);
        if self.peek_token_is(TokenType::Semicolon) {
            self.next_token();
        }
        let r = Some(Statement::Let(LetStatement::new(token, name, value)));
        proof {
            let remA = old(self).rem();
            assert(remA.len() >= 2);
            assert(adv(remA)[0] == remA[1]);
            let (res, rem2, errs2) = sp_parse_let_statement(remA);
            assert(opt_stmt_model(r) == res);
            assert(final(self).rem() == rem2);
            assert(final(self).errs() =~= old(self).errs() + errs2);
        }
        r
    }

    /// A return statement: advances past the `return` keyword, parses
    /// the returned expression at lowest precedence and an optional
    /// trailing semicolon.
    pub fn parse_return_statement(&mut self) -> (r: Option<Statement>)
        requires
            old(self).wf(),
        ensures
            final(self).wf(),
            final(self).l.input@ == old(self).l.input@,
            ({
                let (res, rem2, errs2) = sp_parse_return_statement(old(self).rem());
                &&& opt_stmt_model(r) == res
                &&& final(self).rem() == rem2
                &&& final(self).errs() =~= old(self).errs() + errs2
            }),
            final(self).rem().len() <= old(self).rem().len(),
    {
        let token = match &self.cur_token {
            Some(t) => t.clone(),
            None => {
                return None;
            },
        };
        self.next_token();
        let value = self.parse_expression(LOWEST);
        if self.peek_token_is(TokenType::Semicolon) {
            self.next_token();
        }
        Some(Statement::Return(ReturnStatement::new(token, value)))
    }

    /// An expression statement: one expression at lowest precedence and
    /// an optional trailing semicolon; built even when the expression
    /// resolved to none, so parsing can continue.
    pub fn parse_expression_statement(&mut self) -> (r: Option<Statement>)
        requires
            old(self).wf(),
        ensures
            final(self).wf(),
            final(self).l.input@ == old(self).l.input@,
            ({
                let (res, rem2, errs2) = sp_parse_expression_statement(old(self).rem());
                &&& opt_stmt_model(r) == res
                &&& final(self).rem() == rem2
                &&& final(self).errs() =~= old(self).errs() + errs2
            }),
            final(self).rem().len() <= old(self).rem().len(),
    {
        let token = match &self.cur_token {
            Some(t) => t.clone(),
            None => {
                return None;
            },
        };
        let expression = self.parse_expression(LOWEST);
        if self.peek_token_is(TokenType::Semicolon) {
            self.next_token();
        }
        Some(Statement::Expr(ExpressionStatement::new(token, expression)))
    }

    /// Statement dispatch, keyed on the current token's category.
    pub fn parse_statement(&mut self) -> (r: Option<Statement>)
        requires
            old(self).wf(),
        ensures
            final(self).wf(),
            final(self).l.input@ == old(self).l.input@,
            ({
                let (res, rem2, errs2) = sp_parse_statement(old(self).rem());
                &&& opt_stmt_model(r) == res
                &&& final(self).rem() == rem2
                &&& final(self).errs() =~= old(self).errs() + errs2
            }),
            final(self).rem().len() <= old(self).rem().len(),
    {
        let tt = match &self.cur_token {
            Some(t) => t.ttype,
            None => {
                return None;
            },
        };
        if tt == TokenType::Let {
            self.parse_let_statement()
        } else if tt == TokenType::Return {
            self.parse_return_statement()
        } else {
            self.parse_expression_statement()
        }
    }

    /// Consumes the entire token stream and always returns a program:
    /// even a source with zero valid statements yields a program with an
    /// empty statement list, and every syntax violation found along the
    /// way stands in the error list, in order.
    pub fn parse_program(&mut self) -> (r: Option<Program>)
        requires
            old(self).wf(),
        ensures
            final(self).wf(),
            final(self).l.input@ == old(self).l.input@,
            r is Some,
            ({
                let (stmts, errs2) = sp_parse_program(old(self).rem());
                &&& r->0@ == stmts
                &&& final(self).errs() =~= old(self).errs() + errs2
            }),
    {
        let mut program = Program::new();
        let ghost rem0 = self.rem();
        let ghost errs0 = self.errs();
        let ghost target = sp_program_loop(rem0);
        while self.cur_token.is_some()
            invariant
                self.wf(),
                self.l.input@ == old(self).l.input@,
                ({
                    let t_now = sp_program_loop(self.rem());
                    &&& program@ + t_now.0 =~= target.0
                    &&& errs0 + target.1 =~= self.errs() + t_now.1
                }),
            decreases self.rem().len(),
        {
            let ghost rem_i = self.rem();
            let skip = match &self.cur_token {
                Some(t) => t.ttype == TokenType::Eof,
                None => false,
            };
            if !skip {
                let st = self.parse_statement();
                match st {
                    Some(stmt) => {
                        program.statements.push(stmt);
                    },
                    None => {},
                }
            }
            self.next_token();
            proof {
                let stepped = if rem_i[0].ttype != TokenType::Eof {
                    sp_parse_statement(rem_i)
                } else {
                    (None::<StmtV>, rem_i, Seq::<Seq<char>>::empty())
                };
                let (st_s, rem1_s, errs1_s) = stepped;
                let t_old = sp_program_loop(rem_i);
                let t_new = sp_program_loop(self.rem());
                assert(t_old.0 =~= (match st_s {
                    Some(s) => seq![s],
                    None => Seq::<StmtV>::empty(),
                }) + t_new.0);
                assert(t_old.1 =~= errs1_s + t_new.1);
                assert(program@ + t_new.0 =~= target.0);
                assert(errs0 + target.1 =~= self.errs() + t_new.1);
            }
        }
        proof {
            assert(program@ + Seq::<StmtV>::empty() =~= program@);
            assert(self.errs() + Seq::<Seq<char>>::empty() =~= self.errs());
        }
        Some(program)
    }

    /// If the peeked token has the demanded category, consumes it and
    /// reports success; otherwise records the mismatch and stays put.
    pub fn expect_peek(&mut self, ttype: TokenType) -> (r: bool)
        requires
            old(self).wf(),
        ensures
            final(self).wf(),
            final(self).l.input@ == old(self).l.input@,
            r == match tok_at(old(self).rem(), 1) {
                Some(t) => t.ttype == ttype,
                None => false,
            },
            r ==> final(self).rem() == adv(old(self).rem()) && final(self).errs() == old(
                self,
            ).errs(),
            !r ==> final(self).rem() == old(self).rem() && final(self).errs() =~= old(self).errs()
                + seq![peek_error_msg(ttype, tok_at(old(self).rem(), 1))],
    {
        if self.peek_token_is(ttype) {
            self.next_token();
            true
        } else {
            self.peek_error(ttype);
            false
        }
    }
}

} // verus!
