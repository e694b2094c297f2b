//! The lexer: turns source text into a token sequence that always ends with
//! a single end-of-input sentinel, or fails on the first unknown character
//! or malformed (out-of-range) integer literal.
//!
//! The spec-level model is `spec_lex`, a recursive function over the
//! `Seq<char>` view of the input; `Lexer::lex` is proved to return exactly
//! what `spec_lex` says, token views and error included.
use vstd::prelude::*;

use crate::ast::Token;
use crate::ast::TokenV;
use crate::ast::tokens_view;

verus! {

/// A lexical error: an unknown character, or a digit run that does not fit
/// in a 64-bit signed integer.
#[derive(Debug, Clone, PartialEq)]
pub enum LexerError {
    UnknownToken(char),
    InvalidNumber(String),
}

/// The mathematical view of a `LexerError`.
pub enum LexErrV {
    UnknownToken(char),
    InvalidNumber(Seq<char>),
}

impl View for LexerError {
    type V = LexErrV;

    open spec fn view(&self) -> LexErrV {
        match self {
            LexerError::UnknownToken(c) => LexErrV::UnknownToken(*c),
            LexerError::InvalidNumber(s) => LexErrV::InvalidNumber(s@),
        }
    }
}

/// Whitespace is skipped, never tokenized.
pub open spec fn is_space(c: char) -> bool {
    c == ' ' || c == '\n' || c == '\t' || c == '\r'
}

/// An ASCII decimal digit.
pub open spec fn is_digit(c: char) -> bool {
    48 <= c as u32 && c as u32 <= 57
}

/// A character that may start an identifier: a letter or an underscore.
pub open spec fn is_ident_start(c: char) -> bool {
    (97 <= c as u32 && c as u32 <= 122) || (65 <= c as u32 && c as u32 <= 90) || c as u32 == 95
}

/// A character that may continue an identifier.
pub open spec fn is_ident_char(c: char) -> bool {
    is_ident_start(c) || is_digit(c)
}

/// The numeric value of a digit character.
pub open spec fn digit_val(c: char) -> nat {
    (c as u32 - 48) as nat
}

/// The value of a digit string read in base ten.
pub open spec fn dec_val(s: Seq<char>) -> nat
    decreases s.len(),
{
    if s.len() == 0 {
        0
    } else {
        dec_val(s.drop_last()) * 10 + digit_val(s.last())
    }
}

/// Length of the maximal digit run at the front of `s`.
pub open spec fn digit_run(s: Seq<char>) -> nat
    decreases s.len(),
{
    if s.len() == 0 || !is_digit(s[0]) {
        0
    } else {
        1 + digit_run(s.drop_first())
    }
}

/// Length of the maximal identifier-character run at the front of `s`.
pub open spec fn ident_run(s: Seq<char>) -> nat
    decreases s.len(),
{
    if s.len() == 0 || !is_ident_char(s[0]) {
        0
    } else {
        1 + ident_run(s.drop_first())
    }
}

/// An identifier run is mapped to a keyword token if it matches a reserved
/// word, else it becomes an identifier token.
pub open spec fn keyword_or_ident(text: Seq<char>) -> TokenV {
    if text == "let"@ {
        TokenV::Let
    } else if text == "fn"@ {
        TokenV::Fn
    } else if text == "if"@ {
        TokenV::If
    } else if text == "else"@ {
        TokenV::Else
    } else if text == "print"@ {
        TokenV::Print
    } else {
        TokenV::Identifier(text)
    }
}

/// Prepend a token to a lexing result; an error swallows the token.
pub open spec fn lex_cons(t: TokenV, r: Result<Seq<TokenV>, LexErrV>) -> Result<
    Seq<TokenV>,
    LexErrV,
> {
    match r {
        Ok(ts) => Ok(seq![t] + ts),
        Err(e) => Err(e),
    }
}

/// Append a finished token prefix to a lexing result of the remaining input.
pub open spec fn lex_app(ts: Seq<TokenV>, r: Result<Seq<TokenV>, LexErrV>) -> Result<
    Seq<TokenV>,
    LexErrV,
> {
    match r {
        Ok(rest) => Ok(ts + rest),
        Err(e) => Err(e),
    }
}

/// What lexing a character sequence yields: the token sequence, ended by the
/// end-of-input sentinel, or the first lexical error.
pub open spec fn spec_lex(s: Seq<char>) -> Result<Seq<TokenV>, LexErrV>
    decreases s.len(),
    via spec_lex_decreases
{
    if s.len() == 0 {
        Ok(seq![TokenV::EOF])
    } else {
        let c = s[0];
        if is_space(c) {
            spec_lex(s.skip(1))
        } else if c == '+' {
            lex_cons(TokenV::Plus, spec_lex(s.skip(1)))
        } else if c == '-' {
            if s.len() >= 2 && s[1] == '>' {
                lex_cons(TokenV::Arrow, spec_lex(s.skip(2)))
            } else {
                lex_cons(TokenV::Minus, spec_lex(s.skip(1)))
            }
        } else if c == '=' {
            if s.len() >= 2 && s[1] == '=' {
                lex_cons(TokenV::DoubleEquals, spec_lex(s.skip(2)))
            } else {
                lex_cons(TokenV::Equals, spec_lex(s.skip(1)))
            }
        } else if c == '(' {
            lex_cons(TokenV::LeftParen, spec_lex(s.skip(1)))
        } else if c == ')' {
            lex_cons(TokenV::RightParen, spec_lex(s.skip(1)))
        } else if c == '{' {
            lex_cons(TokenV::LeftBrace, spec_lex(s.skip(1)))
        } else if c == '}' {
            lex_cons(TokenV::RightBrace, spec_lex(s.skip(1)))
        } else if c == ';' {
            lex_cons(TokenV::Semicolon, spec_lex(s.skip(1)))
        } else if c == '>' {
            lex_cons(TokenV::MoreThan, spec_lex(s.skip(1)))
        } else if c == '<' {
            lex_cons(TokenV::LessThan, spec_lex(s.skip(1)))
        } else if c == '*' {
            lex_cons(TokenV::Asterisk, spec_lex(s.skip(1)))
        } else if c == ':' {
            lex_cons(TokenV::Colon, spec_lex(s.skip(1)))
        } else if c == ',' {
            lex_cons(TokenV::Comma, spec_lex(s.skip(1)))
        } else if is_digit(c) {
            let n = digit_run(s);
            let text = s.take(n as int);
            if dec_val(text) <= i64::MAX as nat {
                lex_cons(TokenV::Integer(dec_val(text) as i64), spec_lex(s.skip(n as int)))
            } else {
                Err(LexErrV::InvalidNumber(text))
            }
        } else if is_ident_start(c) {
            let n = ident_run(s);
            lex_cons(keyword_or_ident(s.take(n as int)), spec_lex(s.skip(n as int)))
        } else {
            Err(LexErrV::UnknownToken(c))
        }
    }
}

#[via_fn]
proof fn spec_lex_decreases(s: Seq<char>) {
    if s.len() > 0 {
        let c = s[0];
        if is_digit(c) {
            lemma_digit_run_le(s);
        } else if is_ident_start(c) {
            lemma_ident_run_le(s);
        }
    }
}

/// The digit run never reaches past the end of the input.
pub proof fn lemma_digit_run_le(s: Seq<char>)
    ensures
        digit_run(s) <= s.len(),
    decreases s.len(),
{
    if s.len() > 0 && is_digit(s[0]) {
        lemma_digit_run_le(s.drop_first());
    }
}

/// The identifier run never reaches past the end of the input.
pub proof fn lemma_ident_run_le(s: Seq<char>)
    ensures
        ident_run(s) <= s.len(),
    decreases s.len(),
{
    if s.len() > 0 && is_ident_char(s[0]) {
        lemma_ident_run_le(s.drop_first());
    }
}

/// The digit run is exactly `k` when the first `k` characters are digits and
/// the next one, if any, is not.
pub proof fn lemma_digit_run_is(s: Seq<char>, k: nat)
    requires
        k <= s.len(),
        forall|i: int| 0 <= i < k ==> is_digit(#[trigger] s[i]),
        k == s.len() || !is_digit(s[k as int]),
    ensures
        digit_run(s) == k,
    decreases k,
{
    if k == 0 {
    } else {
        assert(is_digit(s[0]));
        lemma_digit_run_is(s.drop_first(), (k - 1) as nat);
    }
}

/// The identifier run is exactly `k` when the first `k` characters are
/// identifier characters and the next one, if any, is not.
pub proof fn lemma_ident_run_is(s: Seq<char>, k: nat)
    requires
        k <= s.len(),
        forall|i: int| 0 <= i < k ==> is_ident_char(#[trigger] s[i]),
        k == s.len() || !is_ident_char(s[k as int]),
    ensures
        ident_run(s) == k,
    decreases k,
{
    if k == 0 {
    } else {
        assert(is_ident_char(s[0]));
        lemma_ident_run_is(s.drop_first(), (k - 1) as nat);
    }
}

/// Appending a token to the finished prefix commutes with consing it onto
/// the rest.
proof fn lemma_lex_app_cons(ts: Seq<TokenV>, t: TokenV, r: Result<Seq<TokenV>, LexErrV>)
    ensures
        lex_app(ts, lex_cons(t, r)) == lex_app(ts.push(t), r),
{
    match r {
        Ok(rest) => {
            assert(ts + (seq![t] + rest) =~= ts.push(t) + rest);
        },
        Err(_) => {},
    }
}

/// An empty finished prefix changes nothing.
proof fn lemma_lex_app_nil(r: Result<Seq<TokenV>, LexErrV>)
    ensures
        lex_app(Seq::empty(), r) == r,
{
    match r {
        Ok(rest) => {
            assert(Seq::<TokenV>::empty() + rest =~= rest);
        },
        Err(_) => {},
    }
}

/// The lexer: a character cursor over the input string.
pub struct Lexer<'a> {
    input: &'a str,
    pos: usize,
}

impl<'a> Lexer<'a> {
    /// The cursor never passes the end of the input.
    pub closed spec fn wf(&self) -> bool {
        self.pos <= self.input@.len()
    }

    /// The whole input text.
    pub closed spec fn text(&self) -> Seq<char> {
        self.input@
    }

    /// The part of the input not yet consumed.
    pub closed spec fn remaining(&self) -> Seq<char> {
        self.input@.skip(self.pos as int)
    }

    /// Create a lexer that stands at the start of `input`.
    pub fn new(input: &'a str) -> (lexer: Lexer<'a>)
        ensures
            lexer.wf(),
            lexer.text() == input@,
            lexer.remaining() == input@,
    {
        let lexer = Lexer { input, pos: 0 };
        proof {
            assert(lexer.remaining() =~= input@);
        }
        lexer
    }

    /// Advance past the current character.
    fn next_char(&mut self)
        requires
            old(self).wf(),
            old(self).input@.len() <= usize::MAX,
            old(self).pos < old(self).input@.len(),
        ensures
            final(self).wf(),
            final(self).input == old(self).input,
            final(self).pos == old(self).pos + 1,
    {
        self.pos = self.pos + 1;
    }

    /// Look at the character after the current one, if any.
    fn peek_next_char(&self, len: usize) -> (r: Option<char>)
        requires
            self.wf(),
            len == self.input@.len(),
        ensures
            r == (if self.pos + 1 < self.input@.len() {
                Some(self.input@[self.pos as int + 1])
            } else {
                None::<char>
            }),
    {
        if len - self.pos > 1 {
            Some(self.input.get_char(self.pos + 1))
        } else {
            None
        }
    }

    /// Record a token whose text is the next `k` characters and step past it.
    fn push_tok(&mut self, tokens: &mut Vec<Token>, t: Token, k: usize)
        requires
            old(self).wf(),
            1 <= k,
            old(self).input@.len() <= usize::MAX,
            old(self).pos + k <= old(self).input@.len(),
        ensures
            final(self).wf(),
            final(self).input == old(self).input,
            final(self).pos == old(self).pos + k,
            lex_app(tokens_view(final(tokens)@), spec_lex(final(self).remaining())) == lex_app(
                tokens_view(old(tokens)@),
                lex_cons(t@, spec_lex(old(self).remaining().skip(k as int))),
            ),
    {
        proof {
            lemma_lex_app_cons(
                tokens_view(old(tokens)@),
                t@,
                spec_lex(old(self).remaining().skip(k as int)),
            );
        }
        let ghost tv = tokens_view(tokens@);
        let ghost tview = t@;
        tokens.push(t);
        self.pos = self.pos + k;
        proof {
            assert(tokens_view(tokens@) =~= tv.push(tview));
            assert(self.remaining() =~= old(self).remaining().skip(k as int));
        }
    }

    /// Lex the whole remaining input. On success the token sequence is
    /// exactly what `spec_lex` says of the remaining characters, ending in
    /// the end-of-input sentinel; on failure the error is exactly the one
    /// `spec_lex` gives.
    pub fn lex(&mut self) -> (r: Result<Vec<Token>, LexerError>)
        requires
            old(self).wf(),
        ensures
            final(self).wf(),
            final(self).text() == old(self).text(),
            match (r, spec_lex(old(self).remaining())) {
                (Ok(toks), Ok(tvs)) => tokens_view(toks@) == tvs,
                (Err(e), Err(ev)) => e@ == ev,
                _ => false,
            },
    {
        let len = self.input.unicode_len();
        let mut tokens: Vec<Token> = Vec::new();
        let ghost target = spec_lex(old(self).remaining());
        proof {
            assert(tokens_view(tokens@) =~= Seq::<TokenV>::empty());
            lemma_lex_app_nil(spec_lex(self.remaining()));
        }
        while self.pos < len
            invariant
                self.wf(),
                self.input == old(self).input,
                len == self.input@.len(),
                target == spec_lex(old(self).remaining()),
                lex_app(tokens_view(tokens@), spec_lex(self.remaining())) == target,
            decreases len - self.pos,
        {
            let ghost rem = self.remaining();
            let c = self.input.get_char(self.pos);
            proof {
                assert(rem[0] == self.input@[self.pos as int]);
            }
            if c == ' ' || c == '\n' || c == '\t' || c == '\r' {
                self.next_char();
                proof {
                    assert(rem.skip(1) =~= self.remaining());
                }
            } else if c == '+' {
                self.push_tok(&mut tokens, Token::Plus, 1);
            } else if c == '-' {
                let next_is_gt = match self.peek_next_char(len) {
                    Some(ch) => ch == '>',
                    None => false,
                };
                proof {
                    if self.pos + 1 < len {
                        assert(rem[1] == self.input@[self.pos as int + 1]);
                    } else {
                        assert(rem.len() < 2);
                    }
                }
                if next_is_gt {
                    self.push_tok(&mut tokens, Token::Arrow, 2);
                } else {
                    self.push_tok(&mut tokens, Token::Minus, 1);
                }
            } else if c == '=' {
                let next_is_eq = match self.peek_next_char(len) {
                    Some(ch) => ch == '=',
                    None => false,
                };
                proof {
                    if self.pos + 1 < len {
                        assert(rem[1] == self.input@[self.pos as int + 1]);
                    } else {
                        assert(rem.len() < 2);
                    }
                }
                if next_is_eq {
                    self.push_tok(&mut tokens, Token::DoubleEquals, 2);
                } else {
                    self.push_tok(&mut tokens, Token::Equals, 1);
                }
            } else if c == '(' {
                self.push_tok(&mut tokens, Token::LeftParen, 1);
            } else if c == ')' {
                self.push_tok(&mut tokens, Token::RightParen, 1);
            } else if c == '{' {
                self.push_tok(&mut tokens, Token::LeftBrace, 1);
            } else if c == '}' {
                self.push_tok(&mut tokens, Token::RightBrace, 1);
            } else if c == ';' {
                self.push_tok(&mut tokens, Token::Semicolon, 1);
            } else if c == '>' {
                self.push_tok(&mut tokens, Token::MoreThan, 1);
            } else if c == '<' {
                self.push_tok(&mut tokens, Token::LessThan, 1);
            } else if c == '*' {
                self.push_tok(&mut tokens, Token::Asterisk, 1);
            } else if c == ':' {
                self.push_tok(&mut tokens, Token::Colon, 1);
            } else if c == ',' {
                self.push_tok(&mut tokens, Token::Comma, 1);
            } else if is_digit_exec(c) {
                let ghost prev_pos = self.pos as int;
                let tok = self.integer(len);
                proof {
                    lemma_digit_run_le(rem);
                    assert(rem.skip(digit_run(rem) as int) =~= self.remaining());
                    assert(rem.take(digit_run(rem) as int) =~= self.input@.subrange(
                        prev_pos,
                        self.pos as int,
                    ));
                }
                match tok {
                    Ok(t) => {
                        proof {
                            lemma_lex_app_cons(
                                tokens_view(tokens@),
                                t@,
                                spec_lex(self.remaining()),
                            );
                        }
                        let ghost tv = tokens_view(tokens@);
                        let ghost tview = t@;
                        tokens.push(t);
                        proof {
                            assert(tokens_view(tokens@) =~= tv.push(tview));
                        }
                    },
                    Err(e) => {
                        return Err(e);
                    },
                }
            } else if is_ident_start_exec(c) {
                let ghost prev_pos = self.pos as int;
                let tok = self.identifier(len);
                proof {
                    lemma_ident_run_le(rem);
                    assert(rem.skip(ident_run(rem) as int) =~= self.remaining());
                    assert(rem.take(ident_run(rem) as int) =~= self.input@.subrange(
                        prev_pos,
                        self.pos as int,
                    ));
                }
                match tok {
                    Ok(t) => {
                        proof {
                            lemma_lex_app_cons(
                                tokens_view(tokens@),
                                t@,
                                spec_lex(self.remaining()),
                            );
                        }
                        let ghost tv = tokens_view(tokens@);
                        let ghost tview = t@;
                        tokens.push(t);
                        proof {
                            assert(tokens_view(tokens@) =~= tv.push(tview));
                        }
                    },
                    Err(e) => {
                        return Err(e);
                    },
                }
            } else {
                return Err(LexerError::UnknownToken(c));
            }
        }
        proof {
            assert(self.remaining().len() == 0);
            lemma_lex_app_cons(tokens_view(tokens@), TokenV::EOF, Ok(Seq::empty()));
            assert(tokens_view(tokens@).push(TokenV::EOF) + Seq::<TokenV>::empty()
                =~= tokens_view(tokens@).push(TokenV::EOF));
            assert(seq![TokenV::EOF] =~= Seq::<TokenV>::empty() + seq![TokenV::EOF]);
        }
        let ghost tv = tokens_view(tokens@);
        tokens.push(Token::EOF);
        proof {
            assert(tokens_view(tokens@) =~= tv.push(TokenV::EOF));
        }
        Ok(tokens)
    }

    /// Lex a maximal digit run as a 64-bit signed integer literal; a run
    /// whose value does not fit fails with the run's text attached.
    fn integer(&mut self, len: usize) -> (r: Result<Token, LexerError>)
        requires
            old(self).wf(),
            len == old(self).input@.len(),
            old(self).pos < len,
            is_digit(old(self).input@[old(self).pos as int]),
        ensures
            final(self).wf(),
            final(self).input == old(self).input,
            final(self).pos == old(self).pos + digit_run(old(self).remaining()),
            ({
                let text = old(self).input@.subrange(old(self).pos as int, final(self).pos as int);
                match r {
                    Ok(t) => dec_val(text) <= i64::MAX as nat && t@ == TokenV::Integer(
                        dec_val(text) as i64,
                    ),
                    Err(e) => dec_val(text) > i64::MAX as nat && e@ == LexErrV::InvalidNumber(text),
                }
            }),
    {
        let start = self.pos;
        let ghost rem = self.remaining();
        let mut acc: u128 = 0;
        let mut overflow = false;
        while self.pos < len && is_digit_exec(self.input.get_char(self.pos))
            invariant
                self.wf(),
                self.input == old(self).input,
                len == self.input@.len(),
                start <= self.pos,
                forall|i: int| start <= i < self.pos ==> is_digit(#[trigger] self.input@[i]),
                !overflow ==> acc == dec_val(
                    self.input@.subrange(start as int, self.pos as int),
                ) && acc <= i64::MAX as u128,
                overflow ==> dec_val(self.input@.subrange(start as int, self.pos as int))
                    > i64::MAX as nat,
            decreases len - self.pos,
        {
            let c = self.input.get_char(self.pos);
            let d = (c as u32) - 48;
            let ghost pre = self.input@.subrange(start as int, self.pos as int);
            let ghost post = self.input@.subrange(start as int, self.pos as int + 1);
            proof {
                assert(post.drop_last() =~= pre);
                assert(post.last() == self.input@[self.pos as int]);
                assert(dec_val(post) == dec_val(pre) * 10 + digit_val(post.last()));
            }
            if !overflow {
                let next = acc * 10 + (d as u128);
                if next > (i64::MAX as u128) {
                    overflow = true;
                } else {
                    acc = next;
                }
            } else {
                proof {
                    assert(dec_val(pre) * 10 >= dec_val(pre));
                }
            }
            self.pos = self.pos + 1;
        }
        proof {
            let k = (self.pos - start) as nat;
            assert forall|i: int| 0 <= i < k implies is_digit(#[trigger] rem[i]) by {
                assert(rem[i] == self.input@[start + i]);
            }
            if (k as int) < rem.len() {
                assert(rem[k as int] == self.input@[self.pos as int]);
            }
            lemma_digit_run_is(rem, k);
        }
        if overflow {
            let text = self.input.substring_char(start, self.pos);
            Err(LexerError::InvalidNumber(String::from_str(text)))
        } else {
            Ok(Token::Integer(acc as i64))
        }
    }

    /// Lex a maximal identifier run and map it to a keyword token if it is a
    /// reserved word, else to an identifier token.
    fn identifier(&mut self, len: usize) -> (r: Result<Token, LexerError>)
        requires
            old(self).wf(),
            len == old(self).input@.len(),
            old(self).pos < len,
            is_ident_start(old(self).input@[old(self).pos as int]),
        ensures
            final(self).wf(),
            final(self).input == old(self).input,
            final(self).pos == old(self).pos + ident_run(old(self).remaining()),
            match r {
                Ok(t) => t@ == keyword_or_ident(
                    old(self).input@.subrange(old(self).pos as int, final(self).pos as int),
                ),
                Err(_) => false,
            },
    {
        let start = self.pos;
        let ghost rem = self.remaining();
        while self.pos < len && is_ident_char_exec(self.input.get_char(self.pos))
            invariant
                self.wf(),
                self.input == old(self).input,
                len == self.input@.len(),
                start <= self.pos,
                forall|i: int| start <= i < self.pos ==> is_ident_char(#[trigger] self.input@[i]),
            decreases len - self.pos,
        {
            self.pos = self.pos + 1;
        }
        proof {
            let k = (self.pos - start) as nat;
            assert forall|i: int| 0 <= i < k implies is_ident_char(#[trigger] rem[i]) by {
                assert(rem[i] == self.input@[start + i]);
            }
            if (k as int) < rem.len() {
                assert(rem[k as int] == self.input@[self.pos as int]);
            }
            lemma_ident_run_is(rem, k);
        }
        let text = String::from_str(self.input.substring_char(start, self.pos));
        if text == String::from_str("let") {
            Ok(Token::Let)
        } else if text == String::from_str("fn") {
            Ok(Token::Fn)
        } else if text == String::from_str("if") {
            Ok(Token::If)
        } else if text == String::from_str("else") {
            Ok(Token::Else)
        } else if text == String::from_str("print") {
            Ok(Token::Print)
        } else {
            Ok(Token::Identifier(text))
        }
    }
}

/// A token shape the renderer can write back to text: identifiers are
/// nonempty identifier-character runs that are not reserved words,
/// integers are the nonnegative ones the lexer can produce, and the
/// end-of-input sentinel is not a written shape.
pub open spec fn wf_token(t: TokenV) -> bool {
    match t {
        TokenV::Identifier(s) => s.len() >= 1 && is_ident_start(s[0]) && (forall|i: int|
            0 <= i < s.len() ==> is_ident_char(#[trigger] s[i])) && s != "let"@ && s != "fn"@
            && s != "if"@ && s != "else"@ && s != "print"@,
        TokenV::Integer(v) => v >= 0,
        TokenV::EOF => false,
        _ => true,
    }
}

/// The digit character of a value below ten.
pub open spec fn digit_char(d: nat) -> char {
    if d == 0 {
        '0'
    } else if d == 1 {
        '1'
    } else if d == 2 {
        '2'
    } else if d == 3 {
        '3'
    } else if d == 4 {
        '4'
    } else if d == 5 {
        '5'
    } else if d == 6 {
        '6'
    } else if d == 7 {
        '7'
    } else if d == 8 {
        '8'
    } else {
        '9'
    }
}

/// The canonical decimal text of a natural number.
pub open spec fn dec_str(n: nat) -> Seq<char>
    decreases n,
{
    if n < 10 {
        seq![digit_char(n)]
    } else {
        dec_str(n / 10).push(digit_char(n % 10))
    }
}

/// The canonical text of one token.
pub open spec fn render1(t: TokenV) -> Seq<char> {
    match t {
        TokenV::Let => "let"@,
        TokenV::Fn => "fn"@,
        TokenV::If => "if"@,
        TokenV::Else => "else"@,
        TokenV::Print => "print"@,
        TokenV::Identifier(s) => s,
        TokenV::Integer(v) => dec_str(v as nat),
        TokenV::Plus => "+"@,
        TokenV::Minus => "-"@,
        TokenV::Equals => "="@,
        TokenV::DoubleEquals => "=="@,
        TokenV::Asterisk => "*"@,
        TokenV::Semicolon => ";"@,
        TokenV::Colon => ":"@,
        TokenV::Comma => ","@,
        TokenV::LeftParen => "("@,
        TokenV::RightParen => ")"@,
        TokenV::Arrow => "->"@,
        TokenV::LeftBrace => "{"@,
        TokenV::RightBrace => "}"@,
        TokenV::MoreThan => ">"@,
        TokenV::LessThan => "<"@,
        TokenV::EOF => Seq::empty(),
    }
}

/// The canonical text of a token sequence: each token followed by one
/// space.
pub open spec fn render(ts: Seq<TokenV>) -> Seq<char>
    decreases ts.len(),
{
    if ts.len() == 0 {
        Seq::empty()
    } else {
        render1(ts[0]) + seq![' '] + render(ts.drop_first())
    }
}

/// Every character of a decimal rendering is a digit, and there is at
/// least one.
proof fn lemma_dec_str_digits(n: nat)
    ensures
        dec_str(n).len() >= 1,
        forall|i: int| 0 <= i < dec_str(n).len() ==> is_digit(#[trigger] dec_str(n)[i]),
    decreases n,
{
    if n >= 10 {
        lemma_dec_str_digits(n / 10);
    }
}

/// Reading the canonical decimal text back gives the number.
proof fn lemma_dec_val_dec_str(n: nat)
    ensures
        dec_val(dec_str(n)) == n,
    decreases n,
{
    if n < 10 {
        assert(dec_str(n).drop_last() =~= Seq::<char>::empty());
        assert(dec_val(Seq::<char>::empty()) == 0);
        assert(dec_str(n).last() == digit_char(n));
        assert(digit_val(digit_char(n)) == n);
    } else {
        lemma_dec_val_dec_str(n / 10);
        assert(dec_str(n).drop_last() =~= dec_str(n / 10));
        assert(digit_val(digit_char(n % 10)) == n % 10);
        assert(dec_val(dec_str(n)) == dec_val(dec_str(n / 10)) * 10 + digit_val(digit_char(n % 10)));
        assert(n == 10 * (n / 10) + n % 10) by {
            vstd::arithmetic::div_mod::lemma_fundamental_div_mod(n as int, 10);
        }
    }
}

/// Lexing the canonical text of one well-formed token followed by a space
/// yields that token and then whatever the rest lexes to.
#[verifier::rlimit(100)]
proof fn lemma_render1_lex(t: TokenV, rest: Seq<char>)
    requires
        wf_token(t),
        rest.len() >= 1,
        rest[0] == ' ',
    ensures
        spec_lex(render1(t) + rest) == lex_cons(t, spec_lex(rest)),
{
    let s = render1(t) + rest;
    reveal_strlit("let");
    reveal_strlit("fn");
    reveal_strlit("if");
    reveal_strlit("else");
    reveal_strlit("print");
    reveal_strlit("+");
    reveal_strlit("-");
    reveal_strlit("=");
    reveal_strlit("==");
    reveal_strlit("*");
    reveal_strlit(";");
    reveal_strlit(":");
    reveal_strlit(",");
    reveal_strlit("(");
    reveal_strlit(")");
    reveal_strlit("->");
    reveal_strlit("{");
    reveal_strlit("}");
    reveal_strlit(">");
    reveal_strlit("<");
    match t {
        TokenV::Identifier(name) => {
            assert(s[0] == name[0]);
            assert forall|i: int| 0 <= i < name.len() implies is_ident_char(#[trigger] s[i]) by {
                assert(s[i] == name[i]);
            }
            assert(s[name.len() as int] == rest[0]);
            lemma_ident_run_is(s, name.len());
            assert(s.take(name.len() as int) =~= name);
            assert(s.skip(name.len() as int) =~= rest);
        },
        TokenV::Integer(v) => {
            let text = dec_str(v as nat);
            lemma_dec_str_digits(v as nat);
            lemma_dec_val_dec_str(v as nat);
            assert(s[0] == text[0]);
            assert forall|i: int| 0 <= i < text.len() implies is_digit(#[trigger] s[i]) by {
                assert(s[i] == text[i]);
            }
            assert(s[text.len() as int] == rest[0]);
            lemma_digit_run_is(s, text.len());
            assert(s.take(text.len() as int) =~= text);
            assert(s.skip(text.len() as int) =~= rest);
        },
        TokenV::Let => {
            let text = "let"@;
            assert(s[0] == text[0]);
            assert forall|i: int| 0 <= i < text.len() implies is_ident_char(#[trigger] s[i]) by {
                assert(s[i] == text[i]);
            }
            assert(s[text.len() as int] == rest[0]);
            lemma_ident_run_is(s, text.len());
            assert(s.take(text.len() as int) =~= text);
            assert(s.skip(text.len() as int) =~= rest);
        },
        TokenV::Fn => {
            let text = "fn"@;
            assert(s[0] == text[0]);
            assert forall|i: int| 0 <= i < text.len() implies is_ident_char(#[trigger] s[i]) by {
                assert(s[i] == text[i]);
            }
            assert(s[text.len() as int] == rest[0]);
            lemma_ident_run_is(s, text.len());
            assert(s.take(text.len() as int) =~= text);
            assert(s.skip(text.len() as int) =~= rest);
        },
        TokenV::If => {
            let text = "if"@;
            assert(s[0] == text[0]);
            assert forall|i: int| 0 <= i < text.len() implies is_ident_char(#[trigger] s[i]) by {
                assert(s[i] == text[i]);
            }
            assert(s[text.len() as int] == rest[0]);
            lemma_ident_run_is(s, text.len());
            assert(s.take(text.len() as int) =~= text);
            assert(s.skip(text.len() as int) =~= rest);
        },
        TokenV::Else => {
            let text = "else"@;
            assert(s[0] == text[0]);
            assert forall|i: int| 0 <= i < text.len() implies is_ident_char(#[trigger] s[i]) by {
                assert(s[i] == text[i]);
            }
            assert(s[text.len() as int] == rest[0]);
            lemma_ident_run_is(s, text.len());
            assert(s.take(text.len() as int) =~= text);
            assert(s.skip(text.len() as int) =~= rest);
        },
        TokenV::Print => {
            let text = "print"@;
            assert(s[0] == text[0]);
            assert forall|i: int| 0 <= i < text.len() implies is_ident_char(#[trigger] s[i]) by {
                assert(s[i] == text[i]);
            }
            assert(s[text.len() as int] == rest[0]);
            lemma_ident_run_is(s, text.len());
            assert(s.take(text.len() as int) =~= text);
            assert(s.skip(text.len() as int) =~= rest);
        },
        TokenV::Minus => {
            assert(s[0] == '-');
            assert(s[1] == rest[0]);
            assert(s.skip(1) =~= rest);
        },
        TokenV::Arrow => {
            assert(s[0] == '-');
            assert(s[1] == '>');
            assert(s.skip(2) =~= rest);
        },
        TokenV::Equals => {
            assert(s[0] == '=');
            assert(s[1] == rest[0]);
            assert(s.skip(1) =~= rest);
        },
        TokenV::DoubleEquals => {
            assert(s[0] == '=');
            assert(s[1] == '=');
            assert(s.skip(2) =~= rest);
        },
        TokenV::EOF => {
            assert(false);
        },
        _ => {
            assert(render1(t).len() == 1);
            assert(s[0] == render1(t)[0]);
            assert(s.skip(1) =~= rest);
        },
    }
}

/// The lexer round-trip law: rendering any sequence of well-formed token
/// shapes back to canonical text and lexing it again yields exactly the
/// original sequence, closed by the end-of-input sentinel.
pub proof fn lemma_lexer_round_trip(ts: Seq<TokenV>)
    requires
        forall|i: int| 0 <= i < ts.len() ==> wf_token(#[trigger] ts[i]),
    ensures
        spec_lex(render(ts)) == Ok::<Seq<TokenV>, LexErrV>(ts.push(TokenV::EOF)),
    decreases ts.len(),
{
    if ts.len() == 0 {
        assert(ts =~= Seq::<TokenV>::empty());
        assert(ts.push(TokenV::EOF) =~= seq![TokenV::EOF]);
    } else {
        let t = ts[0];
        let rest_toks = ts.drop_first();
        lemma_lexer_round_trip(rest_toks);
        let tail = seq![' '] + render(rest_toks);
        assert(tail[0] == ' ');
        lemma_render1_lex(t, tail);
        assert(render(ts) == render1(t) + tail) by {
            assert(render1(t) + (seq![' '] + render(rest_toks)) =~= render1(t) + seq![' ']
                + render(rest_toks));
        }
        assert(is_space(' '));
        assert(tail.skip(1) =~= render(rest_toks));
        assert(spec_lex(tail) == spec_lex(render(rest_toks)));
        assert(seq![t] + rest_toks.push(TokenV::EOF) =~= ts.push(TokenV::EOF));
    }
}

/// Executable form of `is_digit`.
fn is_digit_exec(c: char) -> (b: bool)
    ensures
        b == is_digit(c),
{
    let u = c as u32;
    48 <= u && u <= 57
}

/// Executable form of `is_ident_start`.
fn is_ident_start_exec(c: char) -> (b: bool)
    ensures
        b == is_ident_start(c),
{
    let u = c as u32;
    (97 <= u && u <= 122) || (65 <= u && u <= 90) || u == 95
}

/// Executable form of `is_ident_char`.
fn is_ident_char_exec(c: char) -> (b: bool)
    ensures
        b == is_ident_char(c),
{
    is_ident_start_exec(c) || is_digit_exec(c)
}

} // verus!
