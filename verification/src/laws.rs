//! Laws the front end obeys, stated and proved over the specification
//! lexer and parser. What the executable functions return is tied to
//! those specifications by their own contracts, so these laws carry over
//! to every run of the pipeline.

use vstd::prelude::*;
use crate::ast::{
    ExprV, IdentifierV, IntegerLiteralV, LetStatementV, ReturnStatementV, StmtV, expr_text,
    stmt_text,
};
use crate::lexer::{
    all_tokens_from, delim_ttype, is_digit_char, is_letter_char, is_whitespace_char,
    lemma_next_token_bounds, lemma_scan_digits_bounds, lemma_scan_digits_chars,
    lemma_scan_digits_run, lemma_scan_letters_bounds, lemma_scan_letters_chars,
    lemma_scan_letters_run, lemma_skip_ws_bounds, scan_digits, scan_letters, skip_ws,
    spec_next_token,
};
use crate::numbers::{all_digits, digits_value, lemma_digits_value_nonneg};
use crate::parser::{adv, sp_parse_program};
use crate::token::{TokenType, TokenV, spec_lookup_ident};

verus! {

/// At a whitespace character the lexer behaves as one position further.
pub proof fn lemma_next_token_skips_ws(s: Seq<char>, j: int)
    requires
        0 <= j < s.len(),
        is_whitespace_char(s[j]),
    ensures
        spec_next_token(s, j) == spec_next_token(s, j + 1),
{
}

/// Past the end of the input there is no token.
pub proof fn lemma_next_token_at_end(s: Seq<char>)
    ensures
        spec_next_token(s, s.len() as int) == (None::<TokenV>, s.len() as int),
        all_tokens_from(s, s.len() as int) =~= Seq::<TokenV>::empty(),
{
}

/// A letter run (ended by a non-letter or the end of input) lexes as one
/// identifier-or-keyword token whose literal is exactly the run.
pub proof fn lemma_next_token_word(s: Seq<char>, j: int, e: int)
    requires
        0 <= j < e <= s.len(),
        forall|k: int| j <= k < e ==> is_letter_char(#[trigger] s[k]),
        e == s.len() || !is_letter_char(s[e]),
    ensures
        spec_next_token(s, j) == (
            Some(
                TokenV {
                    ttype: spec_lookup_ident(s.subrange(j, e)),
                    literal: s.subrange(j, e),
                },
            ),
            e,
        ),
{
    assert(is_letter_char(s[j]));
    lemma_scan_letters_run(s, j, e);
}

/// A digit run (ended by a non-digit or the end of input) lexes as one
/// integer token whose literal is exactly the run.
pub proof fn lemma_next_token_number(s: Seq<char>, j: int, e: int)
    requires
        0 <= j < e <= s.len(),
        forall|k: int| j <= k < e ==> is_digit_char(#[trigger] s[k]),
        e == s.len() || !is_digit_char(s[e]),
    ensures
        spec_next_token(s, j) == (
            Some(TokenV { ttype: TokenType::Int, literal: s.subrange(j, e) }),
            e,
        ),
{
    assert(is_digit_char(s[j]));
    lemma_scan_digits_run(s, j, e);
}

/// A one-character delimiter or operator lexes as its own token.
pub proof fn lemma_next_token_single(s: Seq<char>, j: int)
    requires
        0 <= j < s.len(),
        delim_ttype(s[j]) is Some,
    ensures
        spec_next_token(s, j) == (
            Some(TokenV { ttype: delim_ttype(s[j])->0, literal: seq![s[j]] }),
            j + 1,
        ),
{
}

/// A `=` not followed by another `=` lexes as the assignment token.
pub proof fn lemma_next_token_assign(s: Seq<char>, j: int)
    requires
        0 <= j < s.len(),
        s[j] == '=',
        j + 1 == s.len() || s[j + 1] != '=',
    ensures
        spec_next_token(s, j) == (
            Some(TokenV { ttype: TokenType::Assign, literal: seq!['='] }),
            j + 1,
        ),
{
}

/// A name as the lexer itself delivers one: nonempty, letters only, and
/// no keyword.
pub open spec fn wf_name(n: Seq<char>) -> bool {
    &&& n.len() > 0
    &&& (forall|i: int| 0 <= i < n.len() ==> is_letter_char(#[trigger] n[i]))
    &&& spec_lookup_ident(n) == TokenType::Ident
}

/// Integer-literal text as an accepted literal carries it: nonempty
/// digits whose value fits a 64-bit signed integer.
pub open spec fn wf_int_text(d: Seq<char>) -> bool {
    &&& d.len() > 0
    &&& all_digits(d)
    &&& digits_value(d) <= i64::MAX
}

/// An atomic expression exactly as the parser builds it from its token:
/// an identifier whose token carries its name, or an integer literal
/// whose value is its digit text's value.
pub open spec fn atom_expr_wf(e: ExprV) -> bool {
    match e {
        ExprV::Ident(i) => i.token.ttype == TokenType::Ident && i.token.literal == i.value
            && wf_name(i.value),
        ExprV::Int(i) => i.token.ttype == TokenType::Int && wf_int_text(i.token.literal)
            && i.value as int == digits_value(i.token.literal),
        _ => false,
    }
}

/// The token an atomic expression was built from.
pub open spec fn atom_token(e: ExprV) -> TokenV {
    match e {
        ExprV::Ident(i) => i.token,
        ExprV::Int(i) => i.token,
        ExprV::Prefix(p) => p.token,
        ExprV::Infix(x) => x.token,
    }
}

/// A single let or return statement exactly as the parser builds one
/// from a valid source line, with an atomic bound or returned value.
pub open spec fn simple_stmt_wf(st: StmtV) -> bool {
    match st {
        StmtV::Let(ls) => {
            &&& ls.token.ttype == TokenType::Let
            &&& ls.token.literal == "let"@
            &&& ls.name.token.ttype == TokenType::Ident
            &&& ls.name.token.literal == ls.name.value
            &&& wf_name(ls.name.value)
            &&& match ls.value {
                Some(e) => atom_expr_wf(e),
                None => false,
            }
        },
        StmtV::Return(rs) => {
            &&& rs.token.ttype == TokenType::Return
            &&& rs.token.literal == "return"@
            &&& match rs.return_value {
                Some(e) => atom_expr_wf(e),
                None => false,
            }
        },
        StmtV::Expr(_) => false,
    }
}

/// An atomic expression's rendered text, followed by anything that is
/// no letter and no digit, lexes back as exactly its own token.
proof fn lemma_atom_token_at(s: Seq<char>, j: int, e: ExprV)
    requires
        atom_expr_wf(e),
        0 <= j,
        j + expr_text(e).len() < s.len(),
        s.subrange(j, j + expr_text(e).len() as int) == expr_text(e),
        s[j + expr_text(e).len()] == ';',
    ensures
        spec_next_token(s, j) == (Some(atom_token(e)), j + expr_text(e).len()),
{
    let a = expr_text(e);
    let aa = a.len() as int;
    match e {
        ExprV::Ident(i) => {
            assert forall|k: int| j <= k < j + aa implies is_letter_char(#[trigger] s[k]) by {
                assert(a[k - j] == s.subrange(j, j + aa)[k - j]);
                assert(s[k] == a[k - j]);
            }
            assert(is_letter_char(s[j]));
            assert(!is_letter_char(s[j + aa]));
            lemma_next_token_word(s, j, j + aa);
            assert(s.subrange(j, j + aa) =~= i.value);
        },
        ExprV::Int(i) => {
            assert forall|k: int| j <= k < j + aa implies is_digit_char(#[trigger] s[k]) by {
                assert(a[k - j] == s.subrange(j, j + aa)[k - j]);
                assert(s[k] == a[k - j]);
            }
            assert(is_digit_char(s[j]));
            assert(!is_digit_char(s[j + aa]));
            lemma_next_token_number(s, j, j + aa);
            assert(s.subrange(j, j + aa) =~= i.token.literal);
        },
        _ => {},
    }
}

/// The rendered text of a well-formed let statement lexes back as
/// exactly the five tokens it was built from.
proof fn lemma_let_tokens(ls: LetStatementV)
    requires
        simple_stmt_wf(StmtV::Let(ls)),
    ensures
        all_tokens_from(stmt_text(StmtV::Let(ls)), 0) =~= seq![
            ls.token,
            ls.name.token,
            TokenV { ttype: TokenType::Assign, literal: seq!['='] },
            atom_token(ls.value->0),
            TokenV { ttype: TokenType::Semicolon, literal: seq![';'] },
        ],
{
    reveal_strlit("let");
    reveal_strlit("fn");
    reveal_strlit("return");
    assert("let"@ =~= seq!['l', 'e', 't']);
    let s = stmt_text(StmtV::Let(ls));
    let n = ls.name.value;
    let e = ls.value->0;
    let a = expr_text(e);
    let nn = n.len() as int;
    let aa = a.len() as int;
    assert(a.len() > 0) by {
        if e is Int {
            assert(e->Int_0.token.literal.len() > 0);
        }
    }
    assert(s =~= "let"@ + seq![' '] + n + seq![' ', '=', ' '] + a + seq![';']);
    assert(s.len() == 8 + nn + aa);

    // the five tokens, one position at a time
    assert(s[0] == 'l' && s[1] == 'e' && s[2] == 't' && s[3] == ' ');
    assert(forall|k: int| 0 <= k < 3 ==> is_letter_char(#[trigger] s[k]));
    lemma_next_token_word(s, 0, 3);
    assert(s.subrange(0, 3) =~= "let"@);
    assert(spec_lookup_ident("let"@) == TokenType::Let);
    assert(spec_next_token(s, 0) == (Some(ls.token), 3int));

    lemma_next_token_skips_ws(s, 3);
    assert forall|k: int| 4 <= k < 4 + nn implies is_letter_char(#[trigger] s[k]) by {
        assert(s[k] == n[k - 4]);
    }
    assert(s[4 + nn] == ' ');
    lemma_next_token_word(s, 4, 4 + nn);
    assert(s.subrange(4, 4 + nn) =~= n);
    assert(spec_next_token(s, 3) == (Some(ls.name.token), 4 + nn));

    lemma_next_token_skips_ws(s, 4 + nn);
    assert(s[5 + nn] == '=' && s[6 + nn] == ' ');
    lemma_next_token_assign(s, 5 + nn);
    assert(spec_next_token(s, 4 + nn) == (
        Some(TokenV { ttype: TokenType::Assign, literal: seq!['='] }),
        6 + nn,
    ));

    lemma_next_token_skips_ws(s, 6 + nn);
    assert forall|k: int| 0 <= k < aa implies s.subrange(7 + nn, 7 + nn + aa)[k] == a[k] by {
        assert(s[7 + nn + k] == a[k]);
    }
    assert(s.subrange(7 + nn, 7 + nn + aa) =~= a);
    assert(s[7 + nn + aa] == ';');
    lemma_atom_token_at(s, 7 + nn, e);
    assert(spec_next_token(s, 6 + nn) == (Some(atom_token(e)), 7 + nn + aa));

    assert(delim_ttype(';') == Some(TokenType::Semicolon));
    lemma_next_token_single(s, 7 + nn + aa);
    lemma_next_token_at_end(s);

    // compose the stream back to front
    let semi_t = TokenV { ttype: TokenType::Semicolon, literal: seq![';'] };
    assert(all_tokens_from(s, 8 + nn + aa) =~= Seq::<TokenV>::empty());
    assert(all_tokens_from(s, 7 + nn + aa) =~= seq![semi_t]);
    assert(all_tokens_from(s, 6 + nn) =~= seq![atom_token(e), semi_t]);
    assert(all_tokens_from(s, 4 + nn) =~= seq![
        TokenV { ttype: TokenType::Assign, literal: seq!['='] },
        atom_token(e),
        semi_t,
    ]);
    assert(all_tokens_from(s, 3) =~= seq![
        ls.name.token,
        TokenV { ttype: TokenType::Assign, literal: seq!['='] },
        atom_token(e),
        semi_t,
    ]);
    assert(all_tokens_from(s, 0) =~= seq![
        ls.token,
        ls.name.token,
        TokenV { ttype: TokenType::Assign, literal: seq!['='] },
        atom_token(e),
        semi_t,
    ]);
}

/// The rendered text of a well-formed return statement lexes back as
/// exactly the three tokens it was built from.
proof fn lemma_return_tokens(rs: ReturnStatementV)
    requires
        simple_stmt_wf(StmtV::Return(rs)),
    ensures
        all_tokens_from(stmt_text(StmtV::Return(rs)), 0) =~= seq![
            rs.token,
            atom_token(rs.return_value->0),
            TokenV { ttype: TokenType::Semicolon, literal: seq![';'] },
        ],
{
    reveal_strlit("let");
    reveal_strlit("fn");
    reveal_strlit("return");
    assert("return"@ =~= seq!['r', 'e', 't', 'u', 'r', 'n']);
    let s = stmt_text(StmtV::Return(rs));
    let e = rs.return_value->0;
    let a = expr_text(e);
    let aa = a.len() as int;
    assert(a.len() > 0) by {
        if e is Int {
            assert(e->Int_0.token.literal.len() > 0);
        }
    }
    assert(s =~= "return"@ + seq![' '] + a + seq![';']);
    assert(s.len() == 8 + aa);

    assert(s[0] == 'r' && s[1] == 'e' && s[2] == 't' && s[3] == 'u' && s[4] == 'r' && s[5] == 'n'
        && s[6] == ' ');
    assert(forall|k: int| 0 <= k < 6 ==> is_letter_char(#[trigger] s[k]));
    lemma_next_token_word(s, 0, 6);
    assert(s.subrange(0, 6) =~= "return"@);
    assert(spec_lookup_ident("return"@) == TokenType::Return);
    assert(spec_next_token(s, 0) == (Some(rs.token), 6int));

    lemma_next_token_skips_ws(s, 6);
    assert forall|k: int| 0 <= k < aa implies s.subrange(7, 7 + aa)[k] == a[k] by {
        assert(s[7 + k] == a[k]);
    }
    assert(s.subrange(7, 7 + aa) =~= a);
    assert(s[7 + aa] == ';');
    lemma_atom_token_at(s, 7, e);
    assert(spec_next_token(s, 6) == (Some(atom_token(e)), 7 + aa));

    assert(delim_ttype(';') == Some(TokenType::Semicolon));
    lemma_next_token_single(s, 7 + aa);
    lemma_next_token_at_end(s);

    let semi_t = TokenV { ttype: TokenType::Semicolon, literal: seq![';'] };
    assert(all_tokens_from(s, 8 + aa) =~= Seq::<TokenV>::empty());
    assert(all_tokens_from(s, 7 + aa) =~= seq![semi_t]);
    assert(all_tokens_from(s, 6) =~= seq![atom_token(e), semi_t]);
    assert(all_tokens_from(s, 0) =~= seq![rs.token, atom_token(e), semi_t]);
}

/// Parsing the token stream `<atom> <;>` at lowest precedence yields
/// exactly the atomic expression the tokens came from, with no errors.
proof fn lemma_parse_atom(e: ExprV)
    requires
        atom_expr_wf(e),
    ensures
        ({
            let r = seq![
                atom_token(e),
                TokenV { ttype: TokenType::Semicolon, literal: seq![';'] },
            ];
            crate::parser::sp_parse_expression(r, 0) == (
                Some(e),
                r,
                Seq::<Seq<char>>::empty(),
            )
        }),
{
    let semi_t = TokenV { ttype: TokenType::Semicolon, literal: seq![';'] };
    let r = seq![atom_token(e), semi_t];
    match e {
        ExprV::Ident(i) => {
            assert(crate::parser::sp_parse_identifier(r) == Some(
                ExprV::Ident(IdentifierV { token: i.token, value: i.token.literal }),
            ));
            assert(IdentifierV { token: i.token, value: i.token.literal } == i);
        },
        ExprV::Int(i) => {
            lemma_digits_value_nonneg(i.token.literal);
            assert(crate::parser::sp_parse_integer_literal(r).0 == Some(
                ExprV::Int(
                    IntegerLiteralV {
                        token: i.token,
                        value: digits_value(i.token.literal) as i64,
                    },
                ),
            ));
            assert(digits_value(i.token.literal) as i64 == i.value);
        },
        _ => {},
    }
    assert(crate::parser::sp_expr_loop(r, Some(e), 0) == (
        Some(e),
        r,
        Seq::<Seq<char>>::empty(),
    ));
    assert(Seq::<Seq<char>>::empty() + Seq::<Seq<char>>::empty() =~= Seq::<
        Seq<char>,
    >::empty());
}

/// Parsing the five tokens of a rendered let statement yields exactly
/// that statement, with no errors.
proof fn lemma_parse_let_tokens(ls: LetStatementV)
    requires
        simple_stmt_wf(StmtV::Let(ls)),
    ensures
        ({
            let toks = seq![
                ls.token,
                ls.name.token,
                TokenV { ttype: TokenType::Assign, literal: seq!['='] },
                atom_token(ls.value->0),
                TokenV { ttype: TokenType::Semicolon, literal: seq![';'] },
            ];
            &&& sp_parse_program(toks).0 =~= seq![StmtV::Let(ls)]
            &&& sp_parse_program(toks).1 =~= Seq::<Seq<char>>::empty()
        }),
{
    let e = ls.value->0;
    let semi_t = TokenV { ttype: TokenType::Semicolon, literal: seq![';'] };
    let assign_t = TokenV { ttype: TokenType::Assign, literal: seq!['='] };
    let toks = seq![ls.token, ls.name.token, assign_t, atom_token(e), semi_t];
    let r3 = seq![atom_token(e), semi_t];
    assert(adv(toks) =~= seq![ls.name.token, assign_t, atom_token(e), semi_t]);
    assert(adv(adv(toks)) =~= seq![assign_t, atom_token(e), semi_t]);
    assert(adv(adv(adv(toks))) =~= r3);
    lemma_parse_atom(e);
    assert(IdentifierV { token: toks[1], value: toks[1].literal } == ls.name);
    assert(crate::parser::sp_parse_let_statement(toks) == (
        Some(StmtV::Let(ls)),
        adv(r3),
        Seq::<Seq<char>>::empty(),
    ));
    assert(adv(r3) =~= seq![semi_t]);
    assert(adv(seq![semi_t]) =~= Seq::<TokenV>::empty());
    assert(toks[0].ttype == TokenType::Let);
    assert(crate::parser::sp_parse_statement(toks) == (
        Some(StmtV::Let(ls)),
        seq![semi_t],
        Seq::<Seq<char>>::empty(),
    ));
    assert(crate::parser::sp_program_loop(Seq::<TokenV>::empty()) == (
        Seq::<StmtV>::empty(),
        Seq::<Seq<char>>::empty(),
    ));
    assert(crate::parser::sp_program_loop(toks).0 =~= seq![StmtV::Let(ls)]);
    assert(crate::parser::sp_program_loop(toks).1 =~= Seq::<Seq<char>>::empty());
}

/// Parsing the three tokens of a rendered return statement yields
/// exactly that statement, with no errors.
proof fn lemma_parse_return_tokens(rs: ReturnStatementV)
    requires
        simple_stmt_wf(StmtV::Return(rs)),
    ensures
        ({
            let toks = seq![
                rs.token,
                atom_token(rs.return_value->0),
                TokenV { ttype: TokenType::Semicolon, literal: seq![';'] },
            ];
            &&& sp_parse_program(toks).0 =~= seq![StmtV::Return(rs)]
            &&& sp_parse_program(toks).1 =~= Seq::<Seq<char>>::empty()
        }),
{
    let e = rs.return_value->0;
    let semi_t = TokenV { ttype: TokenType::Semicolon, literal: seq![';'] };
    let toks = seq![rs.token, atom_token(e), semi_t];
    let r1 = seq![atom_token(e), semi_t];
    assert(adv(toks) =~= r1);
    lemma_parse_atom(e);
    assert(crate::parser::sp_parse_return_statement(toks) == (
        Some(StmtV::Return(rs)),
        adv(r1),
        Seq::<Seq<char>>::empty(),
    ));
    assert(adv(r1) =~= seq![semi_t]);
    assert(adv(seq![semi_t]) =~= Seq::<TokenV>::empty());
    assert(toks[0].ttype == TokenType::Return);
    assert(crate::parser::sp_parse_statement(toks) == (
        Some(StmtV::Return(rs)),
        seq![semi_t],
        Seq::<Seq<char>>::empty(),
    ));
    assert(crate::parser::sp_program_loop(Seq::<TokenV>::empty()) == (
        Seq::<StmtV>::empty(),
        Seq::<Seq<char>>::empty(),
    ));
    assert(crate::parser::sp_program_loop(toks).0 =~= seq![StmtV::Return(rs)]);
    assert(crate::parser::sp_program_loop(toks).1 =~= Seq::<Seq<char>>::empty());
}

/// The parse-then-render-then-parse round trip is stable: re-tokenizing
/// and re-parsing the reconstructed text of a single let or return
/// statement, with its name and its atomic bound or returned value
/// exactly as the parser builds them from a valid source line, yields
/// that same statement again and records no error. Compound operands are
/// excluded: the renderer parenthesizes them and the parser has no
/// production for parentheses, so their rendered text does not parse
/// back.
pub proof fn theorem_parse_render_parse(st: StmtV)
    requires
        simple_stmt_wf(st),
    ensures
        sp_parse_program(all_tokens_from(stmt_text(st), 0)).0 =~= seq![st],
        sp_parse_program(all_tokens_from(stmt_text(st), 0)).1 =~= Seq::<Seq<char>>::empty(),
{
    match st {
        StmtV::Let(ls) => {
            lemma_let_tokens(ls);
            lemma_parse_let_tokens(ls);
        },
        StmtV::Return(rs) => {
            lemma_return_tokens(rs);
            lemma_parse_return_tokens(rs);
        },
        StmtV::Expr(_) => {},
    }
}

/// What the lexer guarantees of every token it produces: the literal
/// text matches the category.
pub open spec fn token_wf(t: TokenV) -> bool {
    match t.ttype {
        TokenType::Ident => wf_name(t.literal),
        TokenType::Int => t.literal.len() > 0 && all_digits(t.literal),
        TokenType::Let => t.literal == "let"@,
        TokenType::Return => t.literal == "return"@,
        TokenType::Function => t.literal == "fn"@,
        TokenType::Assign => t.literal == seq!['='],
        TokenType::Semicolon => t.literal == seq![';'],
        _ => true,
    }
}

/// Whatever token the lexer produces is well formed.
pub proof fn lemma_next_token_wf(s: Seq<char>, pos: int)
    requires
        0 <= pos <= s.len(),
    ensures
        spec_next_token(s, pos).0 matches Some(t) ==> token_wf(t),
{
    lemma_skip_ws_bounds(s, pos);
    let j = skip_ws(s, pos);
    if j < s.len() {
        let c = s[j];
        if c == '=' || c == '!' {
        } else if is_letter_char(c) {
            lemma_scan_letters_bounds(s, j);
            lemma_scan_letters_chars(s, j);
            let e = scan_letters(s, j);
            let lit = s.subrange(j, e);
            assert forall|k: int| 0 <= k < lit.len() implies is_letter_char(#[trigger] lit[k]) by {
                assert(lit[k] == s[j + k]);
            }
            assert(lit.len() > 0);
        } else if is_digit_char(c) {
            lemma_scan_digits_bounds(s, j);
            lemma_scan_digits_chars(s, j);
            let e = scan_digits(s, j);
            let lit = s.subrange(j, e);
            assert forall|k: int| 0 <= k < lit.len() implies is_digit_char(#[trigger] lit[k]) by {
                assert(lit[k] == s[j + k]);
            }
            assert(lit.len() > 0);
        }
    }
}

/// Every token in a lexed stream is well formed.
pub proof fn lemma_all_tokens_wf(s: Seq<char>, pos: int)
    requires
        0 <= pos <= s.len(),
    ensures
        forall|i: int|
            0 <= i < all_tokens_from(s, pos).len() ==> token_wf(
                #[trigger] all_tokens_from(s, pos)[i],
            ),
    decreases s.len() - pos,
{
    lemma_next_token_bounds(s, pos);
    lemma_next_token_wf(s, pos);
    let (t, p) = spec_next_token(s, pos);
    if t is Some {
        lemma_all_tokens_wf(s, p);
        let toks = all_tokens_from(s, pos);
        let rest = all_tokens_from(s, p);
        assert(toks == seq![t->0] + rest);
        assert forall|i: int| 0 <= i < toks.len() implies token_wf(#[trigger] toks[i]) by {
            if i > 0 {
                assert(toks[i] == rest[i - 1]);
            }
        }
    }
}

/// The token shape of a valid single let statement: `let`, a name, `=`,
/// an atomic value, `;`.
pub open spec fn let_form(toks: Seq<TokenV>) -> bool {
    &&& toks.len() == 5
    &&& toks[0].ttype == TokenType::Let
    &&& toks[1].ttype == TokenType::Ident
    &&& toks[2].ttype == TokenType::Assign
    &&& (toks[3].ttype == TokenType::Ident || toks[3].ttype == TokenType::Int)
    &&& toks[4].ttype == TokenType::Semicolon
}

/// The token shape of a valid single return statement: `return`, an
/// atomic value, `;`.
pub open spec fn return_form(toks: Seq<TokenV>) -> bool {
    &&& toks.len() == 3
    &&& toks[0].ttype == TokenType::Return
    &&& (toks[1].ttype == TokenType::Ident || toks[1].ttype == TokenType::Int)
    &&& toks[2].ttype == TokenType::Semicolon
}

/// The atomic expression the parser builds from one value token.
pub open spec fn atom_of(t: TokenV) -> ExprV {
    if t.ttype == TokenType::Ident {
        ExprV::Ident(IdentifierV { token: t, value: t.literal })
    } else {
        ExprV::Int(IntegerLiteralV { token: t, value: digits_value(t.literal) as i64 })
    }
}

/// The statement the parser builds from a let-form token stream.
pub open spec fn let_stmt_of(toks: Seq<TokenV>) -> LetStatementV {
    LetStatementV {
        token: toks[0],
        name: IdentifierV { token: toks[1], value: toks[1].literal },
        value: Some(atom_of(toks[3])),
    }
}

/// The statement the parser builds from a return-form token stream.
pub open spec fn return_stmt_of(toks: Seq<TokenV>) -> ReturnStatementV {
    ReturnStatementV { token: toks[0], return_value: Some(atom_of(toks[1])) }
}

/// For every source text whose tokens form one `let <name> = <value>;`
/// with an atomic value in 64-bit range, parsing yields exactly the
/// expected statement and no errors, and re-tokenizing and re-parsing
/// that statement's reconstructed text yields the same statement again.
pub proof fn theorem_let_source_round_trip(t: Seq<char>)
    requires
        let_form(all_tokens_from(t, 0)),
        all_tokens_from(t, 0)[3].ttype == TokenType::Int ==> digits_value(
            all_tokens_from(t, 0)[3].literal,
        ) <= i64::MAX,
    ensures
        ({
            let toks = all_tokens_from(t, 0);
            let st = StmtV::Let(let_stmt_of(toks));
            &&& sp_parse_program(toks).0 =~= seq![st]
            &&& sp_parse_program(toks).1 =~= Seq::<Seq<char>>::empty()
            &&& sp_parse_program(all_tokens_from(stmt_text(st), 0)).0 =~= seq![st]
            &&& sp_parse_program(all_tokens_from(stmt_text(st), 0)).1 =~= Seq::<
                Seq<char>,
            >::empty()
        }),
{
    lemma_all_tokens_wf(t, 0);
    let toks = all_tokens_from(t, 0);
    let ls = let_stmt_of(toks);
    let e = atom_of(toks[3]);
    if toks[3].ttype == TokenType::Int {
        lemma_digits_value_nonneg(toks[3].literal);
    }
    assert(atom_expr_wf(e));
    assert(simple_stmt_wf(StmtV::Let(ls)));
    assert(toks =~= seq![
        ls.token,
        ls.name.token,
        TokenV { ttype: TokenType::Assign, literal: seq!['='] },
        atom_token(ls.value->0),
        TokenV { ttype: TokenType::Semicolon, literal: seq![';'] },
    ]);
    lemma_parse_let_tokens(ls);
    theorem_parse_render_parse(StmtV::Let(ls));
}

/// For every source text whose tokens form one `return <value>;` with an
/// atomic value in 64-bit range, parsing yields exactly the expected
/// statement and no errors, and re-tokenizing and re-parsing that
/// statement's reconstructed text yields the same statement again.
pub proof fn theorem_return_source_round_trip(t: Seq<char>)
    requires
        return_form(all_tokens_from(t, 0)),
        all_tokens_from(t, 0)[1].ttype == TokenType::Int ==> digits_value(
            all_tokens_from(t, 0)[1].literal,
        ) <= i64::MAX,
    ensures
        ({
            let toks = all_tokens_from(t, 0);
            let st = StmtV::Return(return_stmt_of(toks));
            &&& sp_parse_program(toks).0 =~= seq![st]
            &&& sp_parse_program(toks).1 =~= Seq::<Seq<char>>::empty()
            &&& sp_parse_program(all_tokens_from(stmt_text(st), 0)).0 =~= seq![st]
            &&& sp_parse_program(all_tokens_from(stmt_text(st), 0)).1 =~= Seq::<
                Seq<char>,
            >::empty()
        }),
{
    lemma_all_tokens_wf(t, 0);
    let toks = all_tokens_from(t, 0);
    let rs = return_stmt_of(toks);
    let e = atom_of(toks[1]);
    if toks[1].ttype == TokenType::Int {
        lemma_digits_value_nonneg(toks[1].literal);
    }
    assert(atom_expr_wf(e));
    assert(simple_stmt_wf(StmtV::Return(rs)));
    assert(toks =~= seq![
        rs.token,
        atom_token(rs.return_value->0),
        TokenV { ttype: TokenType::Semicolon, literal: seq![';'] },
    ]);
    lemma_parse_return_tokens(rs);
    theorem_parse_render_parse(StmtV::Return(rs));
}

/// Parsing an empty source yields a program with zero statements and
/// zero errors.
pub proof fn lemma_parse_program_empty(s: Seq<char>)
    requires
        s.len() == 0,
    ensures
        all_tokens_from(s, 0) =~= Seq::<TokenV>::empty(),
        sp_parse_program(all_tokens_from(s, 0)).0 =~= Seq::<StmtV>::empty(),
        sp_parse_program(all_tokens_from(s, 0)).1 =~= Seq::<Seq<char>>::empty(),
{
    lemma_next_token_at_end(s);
    assert(all_tokens_from(s, 0) =~= Seq::<TokenV>::empty());
}

} // verus!
