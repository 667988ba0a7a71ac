//! The lexer: converts source text into a sequence of tokens, one at a
//! time, on demand. The cursor is strictly forward-only; unrecognized
//! characters become `Illegal` tokens rather than failures.

use vstd::prelude::*;
use vstd::string::*;
use crate::token::{Token, TokenType, TokenV, lookup_ident, spec_lookup_ident};

verus! {

/// Whether `c` may appear in an identifier: a letter or an underscore.
pub open spec fn is_letter_char(c: char) -> bool {
    ||| ('a' as u32) <= (c as u32) && (c as u32) <= ('z' as u32)
    ||| ('A' as u32) <= (c as u32) && (c as u32) <= ('Z' as u32)
    ||| c == '_'
}

/// Whether `c` is a decimal digit.
pub open spec fn is_digit_char(c: char) -> bool {
    ('0' as u32) <= (c as u32) && (c as u32) <= ('9' as u32)
}

/// Whether `c` is insignificant whitespace between tokens.
pub open spec fn is_whitespace_char(c: char) -> bool {
    c == ' ' || c == '\t' || c == '\n' || c == '\r'
}

/// Whether the (possibly absent) current character is a letter.
pub fn is_letter(ch: Option<char>) -> (r: bool)
    ensures
        r == match ch {
            Some(c) => is_letter_char(c),
            None => false,
        },
{
    match ch {
        Some(c) => {
            let o = c as u32;
            (('a' as u32) <= o && o <= ('z' as u32)) || (('A' as u32) <= o && o <= ('Z' as u32))
                || c == '_'
        },
        None => false,
    }
}

/// Whether the (possibly absent) current character is a decimal digit.
pub fn is_digit(ch: Option<char>) -> (r: bool)
    ensures
        r == match ch {
            Some(c) => is_digit_char(c),
            None => false,
        },
{
    match ch {
        Some(c) => {
            let o = c as u32;
            ('0' as u32) <= o && o <= ('9' as u32)
        },
        None => false,
    }
}

/// Whether the (possibly absent) current character is whitespace.
pub fn is_whitespace(ch: Option<char>) -> (r: bool)
    ensures
        r == match ch {
            Some(c) => is_whitespace_char(c),
            None => false,
        },
{
    match ch {
        Some(c) => c == ' ' || c == '\t' || c == '\n' || c == '\r',
        None => false,
    }
}

/// The index of the first non-whitespace character at or after `i`.
pub open spec fn skip_ws(s: Seq<char>, i: int) -> int
    decreases s.len() - i when 0 <= i <= s.len()
{
    if i < s.len() && is_whitespace_char(s[i]) {
        skip_ws(s, i + 1)
    } else {
        i
    }
}

/// The index of the first non-letter character at or after `i`.
pub open spec fn scan_letters(s: Seq<char>, i: int) -> int
    decreases s.len() - i when 0 <= i <= s.len()
{
    if i < s.len() && is_letter_char(s[i]) {
        scan_letters(s, i + 1)
    } else {
        i
    }
}

/// The index of the first non-digit character at or after `i`.
pub open spec fn scan_digits(s: Seq<char>, i: int) -> int
    decreases s.len() - i when 0 <= i <= s.len()
{
    if i < s.len() && is_digit_char(s[i]) {
        scan_digits(s, i + 1)
    } else {
        i
    }
}

pub proof fn lemma_skip_ws_bounds(s: Seq<char>, i: int)
    requires
        0 <= i <= s.len(),
    ensures
        i <= skip_ws(s, i) <= s.len(),
    decreases s.len() - i,
{
    if i < s.len() && is_whitespace_char(s[i]) {
        lemma_skip_ws_bounds(s, i + 1);
    }
}

pub proof fn lemma_scan_letters_bounds(s: Seq<char>, i: int)
    requires
        0 <= i <= s.len(),
    ensures
        i <= scan_letters(s, i) <= s.len(),
        i < s.len() && is_letter_char(s[i]) ==> i + 1 <= scan_letters(s, i),
    decreases s.len() - i,
{
    if i < s.len() && is_letter_char(s[i]) {
        lemma_scan_letters_bounds(s, i + 1);
    }
}

pub proof fn lemma_scan_digits_bounds(s: Seq<char>, i: int)
    requires
        0 <= i <= s.len(),
    ensures
        i <= scan_digits(s, i) <= s.len(),
        i < s.len() && is_digit_char(s[i]) ==> i + 1 <= scan_digits(s, i),
    decreases s.len() - i,
{
    if i < s.len() && is_digit_char(s[i]) {
        lemma_scan_digits_bounds(s, i + 1);
    }
}

/// Everything a letter scan passed over is a letter.
pub proof fn lemma_scan_letters_chars(s: Seq<char>, i: int)
    requires
        0 <= i <= s.len(),
    ensures
        forall|k: int| i <= k < scan_letters(s, i) ==> is_letter_char(#[trigger] s[k]),
    decreases s.len() - i,
{
    if i < s.len() && is_letter_char(s[i]) {
        lemma_scan_letters_chars(s, i + 1);
    }
}

/// Everything a digit scan passed over is a digit.
pub proof fn lemma_scan_digits_chars(s: Seq<char>, i: int)
    requires
        0 <= i <= s.len(),
    ensures
        forall|k: int| i <= k < scan_digits(s, i) ==> is_digit_char(#[trigger] s[k]),
    decreases s.len() - i,
{
    if i < s.len() && is_digit_char(s[i]) {
        lemma_scan_digits_chars(s, i + 1);
    }
}

/// A letter run that ends at `e` scans exactly to `e`.
pub proof fn lemma_scan_letters_run(s: Seq<char>, i: int, e: int)
    requires
        0 <= i <= e <= s.len(),
        forall|k: int| i <= k < e ==> is_letter_char(#[trigger] s[k]),
        e == s.len() || !is_letter_char(s[e]),
    ensures
        scan_letters(s, i) == e,
    decreases e - i,
{
    if i < e {
        lemma_scan_letters_run(s, i + 1, e);
    }
}

/// A digit run that ends at `e` scans exactly to `e`.
pub proof fn lemma_scan_digits_run(s: Seq<char>, i: int, e: int)
    requires
        0 <= i <= e <= s.len(),
        forall|k: int| i <= k < e ==> is_digit_char(#[trigger] s[k]),
        e == s.len() || !is_digit_char(s[e]),
    ensures
        scan_digits(s, i) == e,
    decreases e - i,
{
    if i < e {
        lemma_scan_digits_run(s, i + 1, e);
    }
}

/// The category of a one-character token, for the characters that form
/// tokens on their own. `=` and `!` are handled separately because they
/// may extend to `==` and `!=`.
pub open spec fn delim_ttype(c: char) -> Option<TokenType> {
    if c == '+' {
        Some(TokenType::Plus)
    } else if c == '-' {
        Some(TokenType::Minus)
    } else if c == '*' {
        Some(TokenType::Asterisk)
    } else if c == '/' {
        Some(TokenType::Slash)
    } else if c == '<' {
        Some(TokenType::Lt)
    } else if c == '>' {
        Some(TokenType::Gt)
    } else if c == ',' {
        Some(TokenType::Comma)
    } else if c == ';' {
        Some(TokenType::Semicolon)
    } else if c == '(' {
        Some(TokenType::LParen)
    } else if c == ')' {
        Some(TokenType::RParen)
    } else if c == '{' {
        Some(TokenType::LBrace)
    } else if c == '}' {
        Some(TokenType::RBrace)
    } else {
        None
    }
}

/// The token found at or after position `pos` of `s`, together with the
/// cursor position after it: whitespace is skipped, `==` and `!=` take
/// one character of lookahead, letter runs become identifiers or
/// keywords, digit runs become integer literals, any other character is
/// an `Illegal` token, and end of input yields no token at all.
pub open spec fn spec_next_token(s: Seq<char>, pos: int) -> (Option<TokenV>, int)
    recommends
        0 <= pos <= s.len(),
{
    let j = skip_ws(s, pos);
    if j >= s.len() {
        (None::<TokenV>, s.len() as int)
    } else {
        let c = s[j];
        if c == '=' {
            if j + 1 < s.len() && s[j + 1] == '=' {
                (Some(TokenV { ttype: TokenType::Equal, literal: s.subrange(j, j + 2) }), j + 2)
            } else {
                (Some(TokenV { ttype: TokenType::Assign, literal: seq!['='] }), j + 1)
            }
        } else if c == '!' {
            if j + 1 < s.len() && s[j + 1] == '=' {
                (Some(TokenV { ttype: TokenType::NotEqual, literal: s.subrange(j, j + 2) }), j + 2)
            } else {
                (Some(TokenV { ttype: TokenType::Bang, literal: seq!['!'] }), j + 1)
            }
        } else if is_letter_char(c) {
            let e = scan_letters(s, j);
            let lit = s.subrange(j, e);
            (Some(TokenV { ttype: spec_lookup_ident(lit), literal: lit }), e)
        } else if is_digit_char(c) {
            let e = scan_digits(s, j);
            (Some(TokenV { ttype: TokenType::Int, literal: s.subrange(j, e) }), e)
        } else {
            match delim_ttype(c) {
                Some(tt) => (Some(TokenV { ttype: tt, literal: seq![c] }), j + 1),
                None => (Some(TokenV { ttype: TokenType::Illegal, literal: seq![c] }), j + 1),
            }
        }
    }
}

/// Whatever `spec_next_token` finds, the cursor never moves backwards,
/// never passes the end of the input, and strictly advances whenever a
/// token is produced.
pub proof fn lemma_next_token_bounds(s: Seq<char>, pos: int)
    requires
        0 <= pos <= s.len(),
    ensures
        ({
            let (t, p) = spec_next_token(s, pos);
            &&& pos <= p <= s.len()
            &&& t is Some ==> pos < p
            &&& t is None ==> p == s.len()
        }),
{
    lemma_skip_ws_bounds(s, pos);
    let j = skip_ws(s, pos);
    if j < s.len() {
        let c = s[j];
        if is_letter_char(c) {
            lemma_scan_letters_bounds(s, j);
        } else if is_digit_char(c) {
            lemma_scan_digits_bounds(s, j);
        }
    }
}

/// The whole token stream of `s` from position `pos` on.
pub open spec fn all_tokens_from(s: Seq<char>, pos: int) -> Seq<TokenV>
    decreases s.len() - pos when 0 <= pos <= s.len() via all_tokens_from_decreases
{
    let (t, p) = spec_next_token(s, pos);
    match t {
        None => Seq::empty(),
        Some(tv) => seq![tv] + all_tokens_from(s, p),
    }
}

#[via_fn]
proof fn all_tokens_from_decreases(s: Seq<char>, pos: int) {
    lemma_next_token_bounds(s, pos);
}

/// The lexer's cursor state: the input text, the index of the character
/// under examination, the index after it, and the character itself.
pub struct Lexer<'a> {
    pub input: &'a str,
    pub position: usize,
    pub read_position: usize,
    pub ch: Option<char>,
}

impl<'a> Lexer<'a> {
    /// The cursor invariant: `position` never passes the end, and `ch`
    /// is the character at `position`, absent exactly at end of input.
    pub open spec fn wf(self) -> bool {
        &&& self.position <= self.input@.len()
        &&& (self.position < self.input@.len() ==> self.read_position == self.position + 1)
        &&& (self.position == self.input@.len() ==> self.read_position == self.position)
        &&& self.ch == (if self.position < self.input@.len() {
            Some(self.input@[self.position as int])
        } else {
            None::<char>
        })
    }

    /// Advances the cursor by one character; at end of input it stays put
    /// and the current character stays absent.
    pub fn read_char(&mut self)
        requires
            old(self).wf(),
        ensures
            final(self).wf(),
            final(self).input@ == old(self).input@,
            old(self).position < old(self).input@.len() ==> final(self).position == old(
                self,
            ).position + 1,
            old(self).position == old(self).input@.len() ==> final(self).position == old(
                self,
            ).position,
    {
        let n = self.input.unicode_len();
        if self.read_position >= n {
            self.ch = None;
            self.position = n;
            self.read_position = n;
        } else {
            self.ch = Some(self.input.get_char(self.read_position));
            self.position = self.read_position;
            self.read_position = self.read_position + 1;
        }
    }

    /// The character one past the current one, if any.
    fn peek_char(&self) -> (c: Option<char>)
        requires
            self.wf(),
        ensures
            c == (if self.position + 1 < self.input@.len() {
                Some(self.input@[self.position as int + 1])
            } else {
                None::<char>
            }),
    {
        if self.position < self.input.unicode_len() && self.read_position < self.input.unicode_len() {
            Some(self.input.get_char(self.read_position))
        } else {
            None
        }
    }

    /// Advances the cursor past whitespace.
    pub fn skip_whitespace(&mut self)
        requires
            old(self).wf(),
        ensures
            final(self).wf(),
            final(self).input@ == old(self).input@,
            final(self).position as int == skip_ws(old(self).input@, old(self).position as int),
    {
        while is_whitespace(self.ch)
            invariant
                self.wf(),
                self.input@ == old(self).input@,
                skip_ws(self.input@, self.position as int) == skip_ws(
                    old(self).input@,
                    old(self).position as int,
                ),
            decreases self.input@.len() - self.position,
        {
            self.read_char();
        }
    }

    /// Scans the letter run starting at the cursor and returns its text;
    /// the cursor ends on the first non-letter character.
    pub fn read_identifier(&mut self) -> (r: String)
        requires
            old(self).wf(),
        ensures
            final(self).wf(),
            final(self).input@ == old(self).input@,
            final(self).position as int == scan_letters(
                old(self).input@,
                old(self).position as int,
            ),
            r@ == old(self).input@.subrange(old(self).position as int, final(self).position as int),
            old(self).position <= final(self).position,
    {
        let start = self.position;
        while is_letter(self.ch)
            invariant
                self.wf(),
                self.input@ == old(self).input@,
                start <= self.position,
                scan_letters(self.input@, self.position as int) == scan_letters(
                    old(self).input@,
                    old(self).position as int,
                ),
            decreases self.input@.len() - self.position,
        {
            self.read_char();
        }
        self.input.substring_char(start, self.position).to_owned()
    }

    /// Scans the digit run starting at the cursor and returns its text;
    /// the cursor ends on the first non-digit character.
    pub fn read_number(&mut self) -> (r: String)
        requires
            old(self).wf(),
        ensures
            final(self).wf(),
            final(self).input@ == old(self).input@,
            final(self).position as int == scan_digits(
                old(self).input@,
                old(self).position as int,
            ),
            r@ == old(self).input@.subrange(old(self).position as int, final(self).position as int),
            old(self).position <= final(self).position,
    {
        let start = self.position;
        while is_digit(self.ch)
            invariant
                self.wf(),
                self.input@ == old(self).input@,
                start <= self.position,
                scan_digits(self.input@, self.position as int) == scan_digits(
                    old(self).input@,
                    old(self).position as int,
                ),
            decreases self.input@.len() - self.position,
        {
            self.read_char();
        }
        self.input.substring_char(start, self.position).to_owned()
    }

    /// Returns the next token of the input and advances past it, or
    /// `None` at end of input. Never fails: an unrecognized character
    /// becomes an `Illegal` token.
    pub fn next_token(&mut self) -> (tok: Option<Token>)
        requires
            old(self).wf(),
        ensures
            final(self).wf(),
            final(self).input@ == old(self).input@,
            ({
                let (t, p) = spec_next_token(old(self).input@, old(self).position as int);
                &&& final(self).position as int == p
                &&& (tok is Some <==> t is Some)
                &&& (tok is Some ==> tok->0@ == t->0)
            }),
    {
        proof {
            lemma_skip_ws_bounds(old(self).input@, old(self).position as int);
        }
        self.skip_whitespace();
        let ghost s = self.input@;
        let ghost j = self.position as int;
        let start = self.position;
        match self.ch {
            None => {
                self.read_char();
                None
            },
            Some(c) => {
                if is_letter(self.ch) {
                    proof {
                        lemma_scan_letters_bounds(s, j);
                    }
                    let ident = self.read_identifier();
                    let ttype = lookup_ident(&ident);
                    Some(Token::new(ttype, ident))
                } else if is_digit(self.ch) {
                    proof {
                        lemma_scan_digits_bounds(s, j);
                    }
                    let lit = self.read_number();
                    Some(Token::new(TokenType::Int, lit))
                } else {
                    let ttype: TokenType = match c {
                        '=' => {
                            if self.peek_is('=') {
                                self.read_char();
                                TokenType::Equal
                            } else {
                                TokenType::Assign
                            }
                        },
                        '!' => {
                            if self.peek_is('=') {
                                self.read_char();
                                TokenType::NotEqual
                            } else {
                                TokenType::Bang
                            }
                        },
                        '+' => TokenType::Plus,
                        '-' => TokenType::Minus,
                        '*' => TokenType::Asterisk,
                        '/' => TokenType::Slash,
                        '<' => TokenType::Lt,
                        '>' => TokenType::Gt,
                        ',' => TokenType::Comma,
                        ';' => TokenType::Semicolon,
                        '(' => TokenType::LParen,
                        ')' => TokenType::RParen,
                        '{' => TokenType::LBrace,
                        '}' => TokenType::RBrace,
                        _ => TokenType::Illegal,
                    };
                    self.read_char();
                    let lit = self.input.substring_char(start, self.position).to_owned();
                    proof {
                        assert(lit@ =~= s.subrange(j, self.position as int));
                        if !(s[j] == '=' && j + 1 < s.len() && s[j + 1] == '=') && !(s[j] == '!'
                            && j + 1 < s.len() && s[j + 1] == '=') {
                            assert(s.subrange(j, j + 1) =~= seq![s[j]]);
                        }
                    }
                    Some(Token::new(ttype, lit))
                }
            },
        }
    }

    /// Whether the character one past the cursor is exactly `want`.
    fn peek_is(&self, want: char) -> (r: bool)
        requires
            self.wf(),
        ensures
            r == (self.position + 1 < self.input@.len() && self.input@[self.position as int + 1]
                == want),
    {
        match self.peek_char() {
            Some(c) => c == want,
            None => false,
        }
    }
}

/// A fresh lexer whose cursor sits on the first character of `input`.
pub fn new<'a>(input: &'a str) -> (l: Lexer<'a>)
    ensures
        l.wf(),
        l.input@ == input@,
        l.position == 0,
{
    let n = input.unicode_len();
    if n == 0 {
        Lexer { input, position: 0, read_position: 0, ch: None }
    } else {
        Lexer { input, position: 0, read_position: 1, ch: Some(input.get_char(0)) }
    }
}

} // verus!
