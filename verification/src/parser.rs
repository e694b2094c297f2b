//! The recursive-descent parser: consumes the token sequence with a single
//! forward cursor and produces statements and expressions, or fails with a
//! syntax error naming what was expected and what was found.
//!
//! The grammar has one flat, left-associative operator tier: `a + b * c`
//! parses as `(a + b) * c`. The spec-level model is the family of `sp_*`
//! functions below, one per grammar production; each executable method is
//! proved to return exactly what its model says and to leave the cursor
//! exactly where the model says.
use vstd::prelude::*;

use crate::ast::Expr;
use crate::ast::ExprV;
use crate::ast::Function;
use crate::ast::FunctionV;
use crate::ast::Operator;
use crate::ast::Statement;
use crate::ast::StmtV;
use crate::ast::Token;
use crate::ast::TokenV;
use crate::ast::Type;
use crate::ast::params_view;
use crate::ast::stmt_view;
use crate::ast::stmts_view;
use crate::ast::tokens_view;

verus! {

/// A syntax error. All grammar errors are terminal: the parser does not
/// recover after the first one.
#[derive(Debug, Clone, PartialEq)]
pub enum ParserError {
    UnexpectedToken { expected: String, found: String },
    UnexpectedEOF,
    InvalidSyntax,
}

/// The mathematical view of a `ParserError`.
pub enum PErrV {
    UnexpectedToken { expected: Seq<char>, found: Seq<char> },
    UnexpectedEOF,
    InvalidSyntax,
}

impl View for ParserError {
    type V = PErrV;

    open spec fn view(&self) -> PErrV {
        match self {
            ParserError::UnexpectedToken { expected, found } => PErrV::UnexpectedToken {
                expected: expected@,
                found: found@,
            },
            ParserError::UnexpectedEOF => PErrV::UnexpectedEOF,
            ParserError::InvalidSyntax => PErrV::InvalidSyntax,
        }
    }
}

/// The name of a token's shape, used in error descriptions.
pub open spec fn token_name_v(t: TokenV) -> Seq<char> {
    match t {
        TokenV::Let => "Let"@,
        TokenV::Fn => "Fn"@,
        TokenV::If => "If"@,
        TokenV::Else => "Else"@,
        TokenV::Print => "Print"@,
        TokenV::Identifier(_) => "Identifier"@,
        TokenV::Integer(_) => "Integer"@,
        TokenV::Plus => "Plus"@,
        TokenV::Minus => "Minus"@,
        TokenV::Equals => "Equals"@,
        TokenV::DoubleEquals => "DoubleEquals"@,
        TokenV::Asterisk => "Asterisk"@,
        TokenV::Semicolon => "Semicolon"@,
        TokenV::Colon => "Colon"@,
        TokenV::Comma => "Comma"@,
        TokenV::LeftParen => "LeftParen"@,
        TokenV::RightParen => "RightParen"@,
        TokenV::Arrow => "Arrow"@,
        TokenV::LeftBrace => "LeftBrace"@,
        TokenV::RightBrace => "RightBrace"@,
        TokenV::MoreThan => "MoreThan"@,
        TokenV::LessThan => "LessThan"@,
        TokenV::EOF => "EOF"@,
    }
}

/// The token at position `p`, if `p` is in range.
pub open spec fn tok_at(t: Seq<TokenV>, p: int) -> Option<TokenV> {
    if 0 <= p < t.len() {
        Some(t[p])
    } else {
        None
    }
}

/// `q` lies strictly after `p` and still inside the token sequence. Every
/// recursive call of the grammar model is guarded by this, which makes the
/// model total; the guards always hold of the positions the parser reaches.
pub open spec fn adv(t: Seq<TokenV>, p: int, q: int) -> bool {
    p < q <= t.len()
}

/// The cursor stands at the end-of-input sentinel or past the end.
pub open spec fn at_end(t: Seq<TokenV>, p: int) -> bool {
    match tok_at(t, p) {
        Option::None => true,
        Option::Some(tk) => tk is EOF,
    }
}

/// Consuming one expected token: the next token if it matches, else an
/// expected-versus-found error; consuming past the end is an end-of-input
/// error that does not move the cursor.
pub open spec fn sp_expect(t: Seq<TokenV>, p: int, tk: TokenV) -> (Result<(), PErrV>, int) {
    match tok_at(t, p) {
        Option::None => (Err(PErrV::UnexpectedEOF), p),
        Option::Some(x) => if x == tk {
            (Ok(()), p + 1)
        } else {
            (
                Err(
                    PErrV::UnexpectedToken {
                        expected: token_name_v(tk),
                        found: token_name_v(x),
                    },
                ),
                p + 1,
            )
        },
    }
}

/// The binary operator a token denotes, if any. All six operators stand in
/// one flat precedence tier.
pub open spec fn op_of(t: TokenV) -> Option<Operator> {
    match t {
        TokenV::Plus => Some(Operator::Plus),
        TokenV::Minus => Some(Operator::Minus),
        TokenV::Asterisk => Some(Operator::Multiply),
        TokenV::DoubleEquals => Some(Operator::Equals),
        TokenV::MoreThan => Some(Operator::MoreThan),
        TokenV::LessThan => Some(Operator::LessThan),
        _ => None,
    }
}

/// What a primary expression may start with, for error descriptions.
pub open spec fn exp_primary() -> Seq<char> {
    "Integer, LeftParen, Identifier, or FunctionCall"@
}

pub open spec fn exp_identifier() -> Seq<char> {
    "Identifier"@
}

pub open spec fn exp_rparen_comma() -> Seq<char> {
    "RightParen or Comma"@
}

pub open spec fn exp_type() -> Seq<char> {
    "int (or other type)"@
}

/// A primary expression: an integer literal, a parenthesized expression, a
/// zero-argument call (an identifier directly followed by `(`), or a
/// variable reference.
pub open spec fn sp_primary(t: Seq<TokenV>, p: int) -> (Result<ExprV, PErrV>, int)
    decreases t.len() - p, 0int,
{
    match tok_at(t, p) {
        Option::Some(TokenV::Integer(v)) => (Ok(ExprV::Integer(v)), p + 1),
        Option::Some(TokenV::LeftParen) => {
            let (r, p2) = sp_expression(t, p + 1);
            match r {
                Result::Err(e) => (Err(e), p2),
                Result::Ok(e) => {
                    let (r2, p3) = sp_expect(t, p2, TokenV::RightParen);
                    match r2 {
                        Result::Err(e2) => (Err(e2), p3),
                        Result::Ok(_) => (Ok(e), p3),
                    }
                },
            }
        },
        Option::Some(TokenV::Identifier(name)) => {
            if tok_at(t, p + 1) == Option::Some(TokenV::LeftParen) {
                let (r2, p3) = sp_expect(t, p + 2, TokenV::RightParen);
                match r2 {
                    Result::Err(e2) => (Err(e2), p3),
                    Result::Ok(_) => (Ok(ExprV::FunctionCall(name, Seq::empty())), p3),
                }
            } else {
                (Ok(ExprV::Variable(name)), p + 1)
            }
        },
        Option::Some(x) => (
            Err(PErrV::UnexpectedToken { expected: exp_primary(), found: token_name_v(x) }),
            p,
        ),
        Option::None => (
            Err(
                PErrV::UnexpectedToken {
                    expected: exp_primary(),
                    found: token_name_v(TokenV::EOF),
                },
            ),
            p,
        ),
    }
}

/// The left-to-right fold of `(operator primary)*` onto an already parsed
/// left operand: one flat precedence tier, left-associative.
pub open spec fn sp_expr_tail(t: Seq<TokenV>, p: int, lhs: ExprV) -> (Result<ExprV, PErrV>, int)
    decreases t.len() - p, 1int,
{
    match tok_at(t, p) {
        Option::Some(tk) => match op_of(tk) {
            Option::Some(op) => {
                let (r, p2) = sp_primary(t, p + 1);
                match r {
                    Result::Err(e) => (Err(e), p2),
                    Result::Ok(rhs) => {
                        let combined = ExprV::BinaryOp(Box::new(lhs), op, Box::new(rhs));
                        if adv(t, p, p2) {
                            sp_expr_tail(t, p2, combined)
                        } else {
                            (Err(PErrV::InvalidSyntax), p2)
                        }
                    },
                }
            },
            Option::None => (Ok(lhs), p),
        },
        Option::None => (Ok(lhs), p),
    }
}

/// A full expression: a primary followed by the operator fold.
pub open spec fn sp_expression(t: Seq<TokenV>, p: int) -> (Result<ExprV, PErrV>, int)
    decreases t.len() - p, 2int,
{
    let (r, p1) = sp_primary(t, p);
    match r {
        Result::Err(e) => (Err(e), p1),
        Result::Ok(lhs) => if adv(t, p, p1) {
            sp_expr_tail(t, p1, lhs)
        } else {
            (Err(PErrV::InvalidSyntax), p1)
        },
    }
}

/// Consuming one identifier, as the name of a function.
pub open spec fn sp_identifier(t: Seq<TokenV>, p: int) -> (Result<Seq<char>, PErrV>, int) {
    match tok_at(t, p) {
        Option::Some(TokenV::Identifier(name)) => (Ok(name), p + 1),
        Option::Some(_) => (Err(PErrV::InvalidSyntax), p + 1),
        Option::None => (Err(PErrV::InvalidSyntax), p),
    }
}

/// Consuming one type name. Only `int` exists.
pub open spec fn sp_type(t: Seq<TokenV>, p: int) -> (Result<Type, PErrV>, int) {
    match tok_at(t, p) {
        Option::Some(TokenV::Identifier(name)) => if name == "int"@ {
            (Ok(Type::Int), p + 1)
        } else {
            (Err(PErrV::UnexpectedToken { expected: exp_type(), found: name }), p + 1)
        },
        Option::Some(x) => (
            Err(PErrV::UnexpectedToken { expected: exp_identifier(), found: token_name_v(x) }),
            p + 1,
        ),
        Option::None => (Err(PErrV::UnexpectedEOF), p),
    }
}

/// One or more `name : type` groups separated by commas, gathered onto
/// `acc`, ending before a closing parenthesis.
pub open spec fn sp_params_loop(t: Seq<TokenV>, p: int, acc: Seq<(Seq<char>, Type)>) -> (Result<
    Seq<(Seq<char>, Type)>,
    PErrV,
>, int)
    decreases t.len() - p,
{
    match tok_at(t, p) {
        Option::Some(TokenV::Identifier(name)) => {
            let (rc, p1) = sp_expect(t, p + 1, TokenV::Colon);
            match rc {
                Result::Err(e) => (Err(e), p1),
                Result::Ok(_) => {
                    let (rt, p2) = sp_type(t, p + 2);
                    match rt {
                        Result::Err(e) => (Err(e), p2),
                        Result::Ok(ty) => {
                            let acc2 = acc.push((name, ty));
                            match tok_at(t, p2) {
                                Option::Some(TokenV::RightParen) => (Ok(acc2), p2),
                                Option::Some(TokenV::Comma) => {
                                    if adv(t, p, p2 + 1) {
                                        sp_params_loop(t, p2 + 1, acc2)
                                    } else {
                                        (Err(PErrV::InvalidSyntax), p2 + 1)
                                    }
                                },
                                Option::Some(x) => (
                                    Err(
                                        PErrV::UnexpectedToken {
                                            expected: exp_rparen_comma(),
                                            found: token_name_v(x),
                                        },
                                    ),
                                    p2,
                                ),
                                Option::None => (Err(PErrV::UnexpectedEOF), p2),
                            }
                        },
                    }
                },
            }
        },
        Option::Some(x) => (
            Err(PErrV::UnexpectedToken { expected: exp_identifier(), found: token_name_v(x) }),
            p + 1,
        ),
        Option::None => (Err(PErrV::UnexpectedEOF), p),
    }
}

/// A possibly empty parameter list, ending before a closing parenthesis.
pub open spec fn sp_parameters(t: Seq<TokenV>, p: int) -> (Result<Seq<(Seq<char>, Type)>, PErrV>, int) {
    if tok_at(t, p) == Option::Some(TokenV::RightParen) {
        (Ok(Seq::empty()), p)
    } else {
        sp_params_loop(t, p, Seq::empty())
    }
}

/// A declaration: `let name = expression` (the statement's closing
/// semicolon belongs to `sp_statement`).
pub open spec fn sp_declaration(t: Seq<TokenV>, p: int) -> (Result<StmtV, PErrV>, int) {
    let (r1, p1) = sp_expect(t, p, TokenV::Let);
    match r1 {
        Result::Err(e) => (Err(e), p1),
        Result::Ok(_) => match tok_at(t, p1) {
            Option::Some(TokenV::Identifier(name)) => {
                let (r3, p3) = sp_expect(t, p1 + 1, TokenV::Equals);
                match r3 {
                    Result::Err(e) => (Err(e), p3),
                    Result::Ok(_) => {
                        let (r4, p4) = sp_expression(t, p1 + 2);
                        match r4 {
                            Result::Err(e) => (Err(e), p4),
                            Result::Ok(ev) => (Ok(StmtV::Declaration(name, ev)), p4),
                        }
                    },
                }
            },
            Option::Some(x) => (
                Err(
                    PErrV::UnexpectedToken {
                        expected: exp_identifier(),
                        found: token_name_v(x),
                    },
                ),
                p1 + 1,
            ),
            Option::None => (Err(PErrV::UnexpectedEOF), p1),
        },
    }
}

/// A print statement: `print expression` (the semicolon belongs to
/// `sp_statement`).
pub open spec fn sp_print(t: Seq<TokenV>, p: int) -> (Result<StmtV, PErrV>, int) {
    let (r1, p1) = sp_expect(t, p, TokenV::Print);
    match r1 {
        Result::Err(e) => (Err(e), p1),
        Result::Ok(_) => {
            let (r2, p2) = sp_expression(t, p1);
            match r2 {
                Result::Err(e) => (Err(e), p2),
                Result::Ok(ev) => (Ok(StmtV::Print(ev)), p2),
            }
        },
    }
}

/// An assignment or expression statement, semicolon included. After the
/// left expression, a `=` makes it an assignment, whose left side must be a
/// bare variable reference; anything else is a syntax error.
pub open spec fn sp_assign_or_expr(t: Seq<TokenV>, p: int) -> (Result<StmtV, PErrV>, int) {
    let (r1, p1) = sp_expression(t, p);
    match r1 {
        Result::Err(e) => (Err(e), p1),
        Result::Ok(left) => {
            if tok_at(t, p1) == Option::Some(TokenV::Equals) {
                let (r2, p2) = sp_expression(t, p1 + 1);
                match r2 {
                    Result::Err(e) => (Err(e), p2),
                    Result::Ok(right) => {
                        let (r3, p3) = sp_expect(t, p2, TokenV::Semicolon);
                        match r3 {
                            Result::Err(e) => (Err(e), p3),
                            Result::Ok(_) => match left {
                                ExprV::Variable(name) => (Ok(StmtV::Assignment(name, right)), p3),
                                _ => (Err(PErrV::InvalidSyntax), p3),
                            },
                        }
                    },
                }
            } else {
                let (r3, p3) = sp_expect(t, p1, TokenV::Semicolon);
                match r3 {
                    Result::Err(e) => (Err(e), p3),
                    Result::Ok(_) => (Ok(StmtV::Expression(left)), p3),
                }
            }
        },
    }
}

/// The optional `else { ... }` part of a conditional, given the already
/// parsed condition and then-branch.
pub open spec fn sp_if_tail(t: Seq<TokenV>, p: int, cond: ExprV, thenv: Seq<StmtV>) -> (Result<
    StmtV,
    PErrV,
>, int)
    decreases t.len() - p, 0int,
{
    if tok_at(t, p) == Option::Some(TokenV::Else) {
        let (r6, p6) = sp_expect(t, p + 1, TokenV::LeftBrace);
        match r6 {
            Result::Err(e) => (Err(e), p6),
            Result::Ok(_) => if adv(t, p, p6) {
                let (r7, p7) = sp_block_contents(t, p6);
                match r7 {
                    Result::Err(e) => (Err(e), p7),
                    Result::Ok(elsev) => {
                        let (r8, p8) = sp_expect(t, p7, TokenV::RightBrace);
                        match r8 {
                            Result::Err(e) => (Err(e), p8),
                            Result::Ok(_) => (
                                Ok(
                                    StmtV::If(
                                        Box::new(cond),
                                        Box::new(StmtV::Block(thenv)),
                                        Some(Box::new(StmtV::Block(elsev))),
                                    ),
                                ),
                                p8,
                            ),
                        }
                    },
                }
            } else {
                (Err(PErrV::InvalidSyntax), p6)
            },
        }
    } else {
        (Ok(StmtV::If(Box::new(cond), Box::new(StmtV::Block(thenv)), Option::None)), p)
    }
}

/// A conditional statement: `if expression { ... }` with an optional
/// `else { ... }`; no closing semicolon. Both branches become blocks.
pub open spec fn sp_if_stmt(t: Seq<TokenV>, p: int) -> (Result<StmtV, PErrV>, int)
    decreases t.len() - p, 1int,
{
    let (r1, p1) = sp_expect(t, p, TokenV::If);
    match r1 {
        Result::Err(e) => (Err(e), p1),
        Result::Ok(_) => {
            let (r2, p2) = sp_expression(t, p1);
            match r2 {
                Result::Err(e) => (Err(e), p2),
                Result::Ok(cond) => {
                    let (r3, p3) = sp_expect(t, p2, TokenV::LeftBrace);
                    match r3 {
                        Result::Err(e) => (Err(e), p3),
                        Result::Ok(_) => if adv(t, p, p3) {
                            let (r4, p4) = sp_block_contents(t, p3);
                            match r4 {
                                Result::Err(e) => (Err(e), p4),
                                Result::Ok(thenv) => {
                                    let (r5, p5) = sp_expect(t, p4, TokenV::RightBrace);
                                    match r5 {
                                        Result::Err(e) => (Err(e), p5),
                                        Result::Ok(_) => if adv(t, p, p5) {
                                            sp_if_tail(t, p5, cond, thenv)
                                        } else {
                                            (Err(PErrV::InvalidSyntax), p5)
                                        },
                                    }
                                },
                            }
                        } else {
                            (Err(PErrV::InvalidSyntax), p3)
                        },
                    }
                },
            }
        },
    }
}

/// A function definition: `fn name ( params ) -> type { body }`.
pub open spec fn sp_function(t: Seq<TokenV>, p: int) -> (Result<FunctionV, PErrV>, int)
    decreases t.len() - p, 1int,
{
    let (r1, p1) = sp_expect(t, p, TokenV::Fn);
    match r1 {
        Result::Err(e) => (Err(e), p1),
        Result::Ok(_) => {
            let (r2, p2) = sp_identifier(t, p1);
            match r2 {
                Result::Err(e) => (Err(e), p2),
                Result::Ok(name) => {
                    let (r3, p3) = sp_expect(t, p2, TokenV::LeftParen);
                    match r3 {
                        Result::Err(e) => (Err(e), p3),
                        Result::Ok(_) => {
                            let (r4, p4) = sp_parameters(t, p3);
                            match r4 {
                                Result::Err(e) => (Err(e), p4),
                                Result::Ok(params) => {
                                    let (r5, p5) = sp_expect(t, p4, TokenV::RightParen);
                                    match r5 {
                                        Result::Err(e) => (Err(e), p5),
                                        Result::Ok(_) => {
                                            let (r6, p6) = sp_expect(t, p5, TokenV::Arrow);
                                            match r6 {
                                                Result::Err(e) => (Err(e), p6),
                                                Result::Ok(_) => {
                                                    let (r7, p7) = sp_type(t, p6);
                                                    match r7 {
                                                        Result::Err(e) => (Err(e), p7),
                                                        Result::Ok(ty) => if adv(t, p, p7) {
                                                            let (r8, p8) = sp_block(t, p7);
                                                            match r8 {
                                                                Result::Err(e) => (Err(e), p8),
                                                                Result::Ok(body) => (
                                                                    Ok(
                                                                        FunctionV {
                                                                            name: name,
                                                                            params: params,
                                                                            return_type: ty,
                                                                            body: body,
                                                                        },
                                                                    ),
                                                                    p8,
                                                                ),
                                                            }
                                                        } else {
                                                            (Err(PErrV::InvalidSyntax), p7)
                                                        },
                                                    }
                                                },
                                            }
                                        },
                                    }
                                },
                            }
                        },
                    }
                },
            }
        },
    }
}

/// A braced block: `{ statement* }`.
pub open spec fn sp_block(t: Seq<TokenV>, p: int) -> (Result<Seq<StmtV>, PErrV>, int)
    decreases t.len() - p, 1int,
{
    let (r1, p1) = sp_expect(t, p, TokenV::LeftBrace);
    match r1 {
        Result::Err(e) => (Err(e), p1),
        Result::Ok(_) => if adv(t, p, p1) {
            let (r2, p2) = sp_block_contents(t, p1);
            match r2 {
                Result::Err(e) => (Err(e), p2),
                Result::Ok(ss) => {
                    let (r3, p3) = sp_expect(t, p2, TokenV::RightBrace);
                    match r3 {
                        Result::Err(e) => (Err(e), p3),
                        Result::Ok(_) => (Ok(ss), p3),
                    }
                },
            }
        } else {
            (Err(PErrV::InvalidSyntax), p1)
        },
    }
}

/// The statements of a block, ending before `}`, the end-of-input sentinel,
/// or the end of the tokens.
pub open spec fn sp_block_contents(t: Seq<TokenV>, p: int) -> (Result<Seq<StmtV>, PErrV>, int)
    decreases t.len() - p, 3int,
{
    match tok_at(t, p) {
        Option::None => (Ok(Seq::empty()), p),
        Option::Some(TokenV::RightBrace) => (Ok(Seq::empty()), p),
        Option::Some(TokenV::EOF) => (Ok(Seq::empty()), p),
        Option::Some(_) => {
            let (r1, p1) = sp_statement(t, p);
            match r1 {
                Result::Err(e) => (Err(e), p1),
                Result::Ok(sv) => if adv(t, p, p1) {
                    let (r2, p2) = sp_block_contents(t, p1);
                    match r2 {
                        Result::Err(e) => (Err(e), p2),
                        Result::Ok(rest) => (Ok(seq![sv] + rest), p2),
                    }
                } else {
                    (Err(PErrV::InvalidSyntax), p1)
                },
            }
        },
    }
}

/// One statement. `let`, `print`, assignment and expression statements end
/// with a semicolon; `if` and `fn` statements do not.
pub open spec fn sp_statement(t: Seq<TokenV>, p: int) -> (Result<StmtV, PErrV>, int)
    decreases t.len() - p, 2int,
{
    match tok_at(t, p) {
        Option::Some(TokenV::Let) => {
            let (r1, p1) = sp_declaration(t, p);
            match r1 {
                Result::Err(e) => (Err(e), p1),
                Result::Ok(sv) => {
                    let (r2, p2) = sp_expect(t, p1, TokenV::Semicolon);
                    match r2 {
                        Result::Err(e) => (Err(e), p2),
                        Result::Ok(_) => (Ok(sv), p2),
                    }
                },
            }
        },
        Option::Some(TokenV::Fn) => {
            let (r1, p1) = sp_function(t, p);
            match r1 {
                Result::Err(e) => (Err(e), p1),
                Result::Ok(f) => (Ok(StmtV::Function(f)), p1),
            }
        },
        Option::Some(TokenV::If) => sp_if_stmt(t, p),
        Option::Some(TokenV::Print) => {
            let (r1, p1) = sp_print(t, p);
            match r1 {
                Result::Err(e) => (Err(e), p1),
                Result::Ok(sv) => {
                    let (r2, p2) = sp_expect(t, p1, TokenV::Semicolon);
                    match r2 {
                        Result::Err(e) => (Err(e), p2),
                        Result::Ok(_) => (Ok(sv), p2),
                    }
                },
            }
        },
        _ => sp_assign_or_expr(t, p),
    }
}

/// A whole program: statements up to the end-of-input sentinel.
pub open spec fn sp_statements(t: Seq<TokenV>, p: int) -> (Result<Seq<StmtV>, PErrV>, int)
    decreases t.len() - p, 4int,
{
    if at_end(t, p) {
        (Ok(Seq::empty()), p)
    } else {
        let (r1, p1) = sp_statement(t, p);
        match r1 {
            Result::Err(e) => (Err(e), p1),
            Result::Ok(sv) => if adv(t, p, p1) {
                let (r2, p2) = sp_statements(t, p1);
                match r2 {
                    Result::Err(e) => (Err(e), p2),
                    Result::Ok(rest) => (Ok(seq![sv] + rest), p2),
                }
            } else {
                (Err(PErrV::InvalidSyntax), p1)
            },
        }
    }
}

/// The left-nested fold of a run of operators and right operands onto a
/// first operand: `left_fold(a, [op1, op2], [b, c])` is
/// `BinaryOp(BinaryOp(a, op1, b), op2, c)`.
pub open spec fn left_fold(first: ExprV, ops: Seq<Operator>, rhss: Seq<ExprV>) -> ExprV
    decreases ops.len(),
{
    if ops.len() == 0 {
        first
    } else {
        left_fold(
            ExprV::BinaryOp(Box::new(first), ops[0], Box::new(rhss[0])),
            ops.drop_first(),
            rhss.drop_first(),
        )
    }
}

/// The cursor at `p` stands before a run `op1 prim1 ... opn primn` whose
/// operators are `ops`, whose right operands parse (as primaries) to
/// `rhss`, and after which, at `q`, no operator token follows.
pub open spec fn op_chain(
    t: Seq<TokenV>,
    p: int,
    ops: Seq<Operator>,
    rhss: Seq<ExprV>,
    q: int,
) -> bool
    decreases ops.len(),
{
    if ops.len() == 0 {
        q == p && (match tok_at(t, p) {
            Option::Some(tk) => op_of(tk) is None,
            Option::None => true,
        })
    } else {
        rhss.len() == ops.len() && (match tok_at(t, p) {
            Option::Some(tk) => op_of(tk) == Some(ops[0]),
            Option::None => false,
        }) && ({
            let (r1, p2) = sp_primary(t, p + 1);
            r1 == Ok::<ExprV, PErrV>(rhss[0]) && adv(t, p, p2) && op_chain(
                t,
                p2,
                ops.drop_first(),
                rhss.drop_first(),
                q,
            )
        })
    }
}

/// The flat-precedence law for the operator fold: over a run of operators
/// and primaries, the result is the strictly left-associative fold, with
/// all six operators in the one precedence tier. `a + b * c` is
/// `(a + b) * c`, never `a + (b * c)`.
pub proof fn lemma_flat_precedence(
    t: Seq<TokenV>,
    p: int,
    lhs: ExprV,
    ops: Seq<Operator>,
    rhss: Seq<ExprV>,
    q: int,
)
    requires
        rhss.len() == ops.len(),
        op_chain(t, p, ops, rhss, q),
    ensures
        sp_expr_tail(t, p, lhs) == (Ok::<ExprV, PErrV>(left_fold(lhs, ops, rhss)), q),
    decreases ops.len(),
{
    if ops.len() > 0 {
        let (r1, p2) = sp_primary(t, p + 1);
        lemma_flat_precedence(
            t,
            p2,
            ExprV::BinaryOp(Box::new(lhs), ops[0], Box::new(rhss[0])),
            ops.drop_first(),
            rhss.drop_first(),
            q,
        );
    }
}

/// The flat-precedence law for a whole expression: a primary followed by a
/// run of operators and primaries parses to the left-nested fold. Through
/// `parse_expression`'s contract, which pins its result to
/// `sp_expression`, this holds of the executable parser as well.
pub proof fn lemma_expression_flat_precedence(
    t: Seq<TokenV>,
    p: int,
    first: ExprV,
    ops: Seq<Operator>,
    rhss: Seq<ExprV>,
    q: int,
)
    requires
        rhss.len() == ops.len(),
        sp_primary(t, p).0 == Ok::<ExprV, PErrV>(first),
        adv(t, p, sp_primary(t, p).1),
        op_chain(t, sp_primary(t, p).1, ops, rhss, q),
    ensures
        sp_expression(t, p) == (Ok::<ExprV, PErrV>(left_fold(first, ops, rhss)), q),
{
    lemma_flat_precedence(t, sp_primary(t, p).1, first, ops, rhss, q);
}

/// Prepending a statement distributes over `stmts_view`.
proof fn lemma_stmts_view_cons(x: Statement, rest: Seq<Statement>)
    ensures
        stmts_view(seq![x] + rest) == seq![stmt_view(x)] + stmts_view(rest),
{
    let all = seq![x] + rest;
    assert(all[0] == x);
    assert(all.drop_first() =~= rest);
}

/// Executable comparison of two tokens; equality of tokens is equality of
/// their views.
fn tok_eq(a: &Token, b: &Token) -> (r: bool)
    ensures
        r == (a@ == b@),
{
    match (a, b) {
        (Token::Let, Token::Let) => true,
        (Token::Fn, Token::Fn) => true,
        (Token::If, Token::If) => true,
        (Token::Else, Token::Else) => true,
        (Token::Print, Token::Print) => true,
        (Token::Identifier(x), Token::Identifier(y)) => x.eq(y),
        (Token::Integer(x), Token::Integer(y)) => *x == *y,
        (Token::Plus, Token::Plus) => true,
        (Token::Minus, Token::Minus) => true,
        (Token::Equals, Token::Equals) => true,
        (Token::DoubleEquals, Token::DoubleEquals) => true,
        (Token::Asterisk, Token::Asterisk) => true,
        (Token::Semicolon, Token::Semicolon) => true,
        (Token::Colon, Token::Colon) => true,
        (Token::Comma, Token::Comma) => true,
        (Token::LeftParen, Token::LeftParen) => true,
        (Token::RightParen, Token::RightParen) => true,
        (Token::Arrow, Token::Arrow) => true,
        (Token::LeftBrace, Token::LeftBrace) => true,
        (Token::RightBrace, Token::RightBrace) => true,
        (Token::MoreThan, Token::MoreThan) => true,
        (Token::LessThan, Token::LessThan) => true,
        (Token::EOF, Token::EOF) => true,
        _ => false,
    }
}

/// The executable form of `token_name_v`.
fn token_name(t: &Token) -> (r: String)
    ensures
        r@ == token_name_v(t@),
{
    match t {
        Token::Let => String::from_str("Let"),
        Token::Fn => String::from_str("Fn"),
        Token::If => String::from_str("If"),
        Token::Else => String::from_str("Else"),
        Token::Print => String::from_str("Print"),
        Token::Identifier(_) => String::from_str("Identifier"),
        Token::Integer(_) => String::from_str("Integer"),
        Token::Plus => String::from_str("Plus"),
        Token::Minus => String::from_str("Minus"),
        Token::Equals => String::from_str("Equals"),
        Token::DoubleEquals => String::from_str("DoubleEquals"),
        Token::Asterisk => String::from_str("Asterisk"),
        Token::Semicolon => String::from_str("Semicolon"),
        Token::Colon => String::from_str("Colon"),
        Token::Comma => String::from_str("Comma"),
        Token::LeftParen => String::from_str("LeftParen"),
        Token::RightParen => String::from_str("RightParen"),
        Token::Arrow => String::from_str("Arrow"),
        Token::LeftBrace => String::from_str("LeftBrace"),
        Token::RightBrace => String::from_str("RightBrace"),
        Token::MoreThan => String::from_str("MoreThan"),
        Token::LessThan => String::from_str("LessThan"),
        Token::EOF => String::from_str("EOF"),
    }
}

/// The parser: the token sequence and a single forward cursor into it.
pub struct Parser {
    tokens: Vec<Token>,
    current: usize,
}

impl Parser {
    /// The views of the tokens being parsed.
    pub closed spec fn toks(&self) -> Seq<TokenV> {
        tokens_view(self.tokens@)
    }

    /// The cursor.
    pub closed spec fn cur(&self) -> int {
        self.current as int
    }

    /// The cursor never passes the end of the token sequence.
    pub closed spec fn wf(&self) -> bool {
        self.current <= self.tokens@.len()
    }

    /// Create a parser that stands at the start of the token sequence.
    pub fn new(tokens: Vec<Token>) -> (parser: Parser)
        ensures
            parser.wf(),
            parser.toks() == tokens_view(tokens@),
            parser.cur() == 0,
    {
        Parser { tokens, current: 0 }
    }

    /// The current token, if any, without consuming it.
    fn peek(&self) -> (r: Option<&Token>)
        ensures
            match r {
                Some(tk) => tok_at(self.toks(), self.cur()) == Some(tk@),
                None => tok_at(self.toks(), self.cur()) is None,
            },
    {
        if self.current < self.tokens.len() {
            Some(&self.tokens[self.current])
        } else {
            None
        }
    }

    /// The token after the current one, if any, without consuming anything.
    fn peek_next(&self) -> (r: Option<&Token>)
        ensures
            match r {
                Some(tk) => tok_at(self.toks(), self.cur() + 1) == Some(tk@),
                None => tok_at(self.toks(), self.cur() + 1) is None,
            },
    {
        if self.current < self.tokens.len() && self.tokens.len() - self.current > 1 {
            Some(&self.tokens[self.current + 1])
        } else {
            None
        }
    }

    /// Step the cursor past the current token.
    fn advance(&mut self)
        requires
            old(self).wf(),
            old(self).cur() < old(self).toks().len(),
        ensures
            final(self).wf(),
            final(self).toks() == old(self).toks(),
            final(self).cur() == old(self).cur() + 1,
    {
        // The exec length bounds the view's length, so the increment fits.
        let len = self.tokens.len();
        proof {
            assert(self.toks().len() == len);
        }
        self.current = self.current + 1;
    }

    /// Whether the current token is the given one.
    fn check(&self, token: &Token) -> (r: bool)
        ensures
            r == (tok_at(self.toks(), self.cur()) == Some(token@)),
    {
        match self.peek() {
            Some(cur_t) => tok_eq(cur_t, token),
            None => false,
        }
    }

    /// Whether the cursor stands at the end-of-input sentinel or past the
    /// end of the tokens.
    fn is_at_end(&self) -> (r: bool)
        ensures
            r == at_end(self.toks(), self.cur()),
    {
        match self.peek() {
            Some(t) => match t {
                Token::EOF => true,
                _ => false,
            },
            None => true,
        }
    }

    /// Consume the given token, or fail exactly as `sp_expect` says.
    fn expect_token(&mut self, expected: Token) -> (r: Result<(), ParserError>)
        requires
            old(self).wf(),
        ensures
            final(self).wf(),
            final(self).toks() == old(self).toks(),
            old(self).cur() <= final(self).cur() <= old(self).toks().len(),
            r is Ok ==> final(self).cur() == old(self).cur() + 1,
            ({
                let (sr, sp) = sp_expect(old(self).toks(), old(self).cur(), expected@);
                final(self).cur() == sp && match (r, sr) {
                    (Ok(_), Ok(_)) => true,
                    (Err(a), Err(b)) => a@ == b,
                    _ => false,
                }
            }),
    {
        match self.peek() {
            None => Err(ParserError::UnexpectedEOF),
            Some(t) => {
                let same = tok_eq(t, &expected);
                let fname = token_name(t);
                self.advance();
                if same {
                    Ok(())
                } else {
                    Err(
                        ParserError::UnexpectedToken {
                            expected: token_name(&expected),
                            found: fname,
                        },
                    )
                }
            },
        }
    }

    /// Consume the next token if it denotes a binary operator. Never fails;
    /// the result type matches the other parsing methods.
    fn next_operator(&mut self) -> (r: Result<Option<Operator>, ParserError>)
        requires
            old(self).wf(),
        ensures
            final(self).wf(),
            final(self).toks() == old(self).toks(),
            old(self).cur() <= final(self).cur() <= old(self).toks().len(),
            match r {
                Ok(opt) => ({
                    let o = match tok_at(old(self).toks(), old(self).cur()) {
                        Option::Some(tk) => op_of(tk),
                        Option::None => Option::None,
                    };
                    opt == o && (o is Some ==> final(self).cur() == old(self).cur() + 1) && (
                    o is None ==> final(self).cur() == old(self).cur())
                }),
                Err(_) => false,
            },
    {
        let op = match self.peek() {
            Some(t) => match t {
                Token::Plus => Some(Operator::Plus),
                Token::Minus => Some(Operator::Minus),
                Token::Asterisk => Some(Operator::Multiply),
                Token::DoubleEquals => Some(Operator::Equals),
                Token::MoreThan => Some(Operator::MoreThan),
                Token::LessThan => Some(Operator::LessThan),
                _ => None,
            },
            None => None,
        };
        if op.is_some() {
            self.advance();
        }
        Ok(op)
    }

    /// Parse a primary expression, exactly as `sp_primary` says.
    fn parse_primary(&mut self) -> (r: Result<Expr, ParserError>)
        requires
            old(self).wf(),
        ensures
            final(self).wf(),
            final(self).toks() == old(self).toks(),
            old(self).cur() <= final(self).cur() <= old(self).toks().len(),
            r is Ok ==> old(self).cur() < final(self).cur(),
            ({
                let (sr, sp) = sp_primary(old(self).toks(), old(self).cur());
                final(self).cur() == sp && match (r, sr) {
                    (Ok(e), Ok(ev)) => e@ == ev,
                    (Err(a), Err(b)) => a@ == b,
                    _ => false,
                }
            }),
        decreases self.toks().len() - self.cur(), 0int,
    {
        let next_is_lparen = match self.peek_next() {
            Some(t2) => match t2 {
                Token::LeftParen => true,
                _ => false,
            },
            None => false,
        };
        match self.peek() {
            None => Err(
                ParserError::UnexpectedToken {
                    expected: String::from_str("Integer, LeftParen, Identifier, or FunctionCall"),
                    found: String::from_str("EOF"),
                },
            ),
            Some(t) => match t {
                Token::Integer(v) => {
                    let value = *v;
                    self.advance();
                    Ok(Expr::Integer(value))
                },
                Token::LeftParen => {
                    self.advance();
                    match self.parse_expression() {
                        Err(e) => Err(e),
                        Ok(e) => match self.expect_token(Token::RightParen) {
                            Err(e2) => Err(e2),
                            Ok(_) => Ok(e),
                        },
                    }
                },
                Token::Identifier(name) => {
                    let name = name.clone();
                    if next_is_lparen {
                        self.advance();
                        self.advance();
                        match self.expect_token(Token::RightParen) {
                            Err(e2) => Err(e2),
                            Ok(_) => {
                                let args: Vec<Expr> = Vec::new();
                                proof {
                                    assert(crate::ast::exprs_view(args@) =~= Seq::<ExprV>::empty());
                                }
                                Ok(Expr::FunctionCall(name, args))
                            },
                        }
                    } else {
                        self.advance();
                        Ok(Expr::Variable(name))
                    }
                },
                other => Err(
                    ParserError::UnexpectedToken {
                        expected: String::from_str(
                            "Integer, LeftParen, Identifier, or FunctionCall",
                        ),
                        found: token_name(other),
                    },
                ),
            },
        }
    }

    /// Fold `(operator primary)*` onto `lhs`, exactly as `sp_expr_tail`
    /// says.
    fn parse_expr_tail(&mut self, lhs: Expr) -> (r: Result<Expr, ParserError>)
        requires
            old(self).wf(),
        ensures
            final(self).wf(),
            final(self).toks() == old(self).toks(),
            old(self).cur() <= final(self).cur() <= old(self).toks().len(),
            ({
                let (sr, sp) = sp_expr_tail(old(self).toks(), old(self).cur(), lhs@);
                final(self).cur() == sp && match (r, sr) {
                    (Ok(e), Ok(ev)) => e@ == ev,
                    (Err(a), Err(b)) => a@ == b,
                    _ => false,
                }
            }),
        decreases self.toks().len() - self.cur(), 1int,
    {
        let op_r = self.next_operator();
        match op_r {
            Ok(Some(op)) => {
                match self.parse_primary() {
                    Err(e) => Err(e),
                    Ok(rhs) => {
                        let combined = Expr::BinaryOp(Box::new(lhs), op, Box::new(rhs));
                        self.parse_expr_tail(combined)
                    },
                }
            },
            Ok(None) => Ok(lhs),
            Err(e) => Err(e),
        }
    }

    /// Parse one expression, exactly as `sp_expression` says: a primary
    /// followed by the flat left-associative operator fold.
    pub fn parse_expression(&mut self) -> (r: Result<Expr, ParserError>)
        requires
            old(self).wf(),
        ensures
            final(self).wf(),
            final(self).toks() == old(self).toks(),
            old(self).cur() <= final(self).cur() <= old(self).toks().len(),
            r is Ok ==> old(self).cur() < final(self).cur(),
            ({
                let (sr, sp) = sp_expression(old(self).toks(), old(self).cur());
                final(self).cur() == sp && match (r, sr) {
                    (Ok(e), Ok(ev)) => e@ == ev,
                    (Err(a), Err(b)) => a@ == b,
                    _ => false,
                }
            }),
        decreases self.toks().len() - self.cur(), 2int,
    {
        match self.parse_primary() {
            Err(e) => Err(e),
            Ok(lhs) => self.parse_expr_tail(lhs),
        }
    }

    /// Consume one identifier, as a function name.
    fn parse_identifier(&mut self) -> (r: Result<String, ParserError>)
        requires
            old(self).wf(),
        ensures
            final(self).wf(),
            final(self).toks() == old(self).toks(),
            old(self).cur() <= final(self).cur() <= old(self).toks().len(),
            ({
                let (sr, sp) = sp_identifier(old(self).toks(), old(self).cur());
                final(self).cur() == sp && match (r, sr) {
                    (Ok(s), Ok(n)) => s@ == n,
                    (Err(a), Err(b)) => a@ == b,
                    _ => false,
                }
            }),
    {
        match self.peek() {
            Some(t) => match t {
                Token::Identifier(name) => {
                    let name = name.clone();
                    self.advance();
                    Ok(name)
                },
                _ => {
                    self.advance();
                    Err(ParserError::InvalidSyntax)
                },
            },
            None => Err(ParserError::InvalidSyntax),
        }
    }

    /// Consume one type name; only `int` exists.
    fn parse_type(&mut self) -> (r: Result<Type, ParserError>)
        requires
            old(self).wf(),
        ensures
            final(self).wf(),
            final(self).toks() == old(self).toks(),
            old(self).cur() <= final(self).cur() <= old(self).toks().len(),
            ({
                let (sr, sp) = sp_type(old(self).toks(), old(self).cur());
                final(self).cur() == sp && match (r, sr) {
                    (Ok(ty), Ok(tyv)) => ty == tyv,
                    (Err(a), Err(b)) => a@ == b,
                    _ => false,
                }
            }),
    {
        match self.peek() {
            Some(t) => match t {
                Token::Identifier(name) => {
                    let name = name.clone();
                    self.advance();
                    if name == String::from_str("int") {
                        Ok(Type::Int)
                    } else {
                        Err(
                            ParserError::UnexpectedToken {
                                expected: String::from_str("int (or other type)"),
                                found: name,
                            },
                        )
                    }
                },
                other => {
                    let fname = token_name(other);
                    self.advance();
                    Err(
                        ParserError::UnexpectedToken {
                            expected: String::from_str("Identifier"),
                            found: fname,
                        },
                    )
                },
            },
            None => Err(ParserError::UnexpectedEOF),
        }
    }

    /// Parse `name : type (, name : type)*` onto `acc`, ending before the
    /// closing parenthesis, exactly as `sp_params_loop` says.
    fn parse_params_loop(&mut self, acc: Vec<(String, Type)>) -> (r: Result<
        Vec<(String, Type)>,
        ParserError,
    >)
        requires
            old(self).wf(),
        ensures
            final(self).wf(),
            final(self).toks() == old(self).toks(),
            old(self).cur() <= final(self).cur() <= old(self).toks().len(),
            ({
                let (sr, sp) = sp_params_loop(old(self).toks(), old(self).cur(), params_view(acc@));
                final(self).cur() == sp && match (r, sr) {
                    (Ok(v), Ok(ps)) => params_view(v@) == ps,
                    (Err(a), Err(b)) => a@ == b,
                    _ => false,
                }
            }),
        decreases self.toks().len() - self.cur(),
    {
        match self.peek() {
            Some(t) => match t {
                Token::Identifier(name) => {
                    let name = name.clone();
                    self.advance();
                    match self.expect_token(Token::Colon) {
                        Err(e) => Err(e),
                        Ok(_) => match self.parse_type() {
                            Err(e) => Err(e),
                            Ok(ty) => {
                                let ghost accv = params_view(acc@);
                                let ghost namev = name@;
                                let mut acc2 = acc;
                                acc2.push((name, ty));
                                proof {
                                    assert(params_view(acc2@) =~= accv.push((namev, ty)));
                                }
                                let next_comma = match self.peek() {
                                    Some(t2) => match t2 {
                                        Token::RightParen => 1usize,
                                        Token::Comma => 2usize,
                                        _ => 0usize,
                                    },
                                    None => 3usize,
                                };
                                if next_comma == 1 {
                                    Ok(acc2)
                                } else if next_comma == 2 {
                                    self.advance();
                                    self.parse_params_loop(acc2)
                                } else if next_comma == 3 {
                                    Err(ParserError::UnexpectedEOF)
                                } else {
                                    let fname = match self.peek() {
                                        Some(t2) => token_name(t2),
                                        None => String::from_str("EOF"),
                                    };
                                    Err(
                                        ParserError::UnexpectedToken {
                                            expected: String::from_str("RightParen or Comma"),
                                            found: fname,
                                        },
                                    )
                                }
                            },
                        },
                    }
                },
                other => {
                    let fname = token_name(other);
                    self.advance();
                    Err(
                        ParserError::UnexpectedToken {
                            expected: String::from_str("Identifier"),
                            found: fname,
                        },
                    )
                },
            },
            None => Err(ParserError::UnexpectedEOF),
        }
    }

    /// Parse a possibly empty parameter list, exactly as `sp_parameters`
    /// says.
    fn parse_parameters(&mut self) -> (r: Result<Vec<(String, Type)>, ParserError>)
        requires
            old(self).wf(),
        ensures
            final(self).wf(),
            final(self).toks() == old(self).toks(),
            old(self).cur() <= final(self).cur() <= old(self).toks().len(),
            ({
                let (sr, sp) = sp_parameters(old(self).toks(), old(self).cur());
                final(self).cur() == sp && match (r, sr) {
                    (Ok(v), Ok(ps)) => params_view(v@) == ps,
                    (Err(a), Err(b)) => a@ == b,
                    _ => false,
                }
            }),
    {
        if self.check(&Token::RightParen) {
            let v: Vec<(String, Type)> = Vec::new();
            proof {
                assert(params_view(v@) =~= Seq::<(Seq<char>, Type)>::empty());
            }
            Ok(v)
        } else {
            let acc: Vec<(String, Type)> = Vec::new();
            proof {
                assert(params_view(acc@) =~= Seq::<(Seq<char>, Type)>::empty());
            }
            self.parse_params_loop(acc)
        }
    }

    /// Parse `let name = expression`, exactly as `sp_declaration` says; the
    /// closing semicolon belongs to `parse_statement`.
    fn parse_declaration(&mut self) -> (r: Result<Statement, ParserError>)
        requires
            old(self).wf(),
        ensures
            final(self).wf(),
            final(self).toks() == old(self).toks(),
            old(self).cur() <= final(self).cur() <= old(self).toks().len(),
            r is Ok ==> old(self).cur() < final(self).cur(),
            ({
                let (sr, sp) = sp_declaration(old(self).toks(), old(self).cur());
                final(self).cur() == sp && match (r, sr) {
                    (Ok(st), Ok(sv)) => st@ == sv,
                    (Err(a), Err(b)) => a@ == b,
                    _ => false,
                }
            }),
    {
        match self.expect_token(Token::Let) {
            Err(e) => {
                return Err(e);
            },
            Ok(_) => {},
        }
        match self.peek() {
            Some(t) => match t {
                Token::Identifier(name) => {
                    let name = name.clone();
                    self.advance();
                    match self.expect_token(Token::Equals) {
                        Err(e) => Err(e),
                        Ok(_) => match self.parse_expression() {
                            Err(e) => Err(e),
                            Ok(expr) => Ok(Statement::Declaration(name, expr)),
                        },
                    }
                },
                other => {
                    let fname = token_name(other);
                    self.advance();
                    Err(
                        ParserError::UnexpectedToken {
                            expected: String::from_str("Identifier"),
                            found: fname,
                        },
                    )
                },
            },
            None => Err(ParserError::UnexpectedEOF),
        }
    }

    /// Parse `print expression`, exactly as `sp_print` says; the semicolon
    /// belongs to `parse_statement`.
    fn parse_print_statement(&mut self) -> (r: Result<Statement, ParserError>)
        requires
            old(self).wf(),
        ensures
            final(self).wf(),
            final(self).toks() == old(self).toks(),
            old(self).cur() <= final(self).cur() <= old(self).toks().len(),
            r is Ok ==> old(self).cur() < final(self).cur(),
            ({
                let (sr, sp) = sp_print(old(self).toks(), old(self).cur());
                final(self).cur() == sp && match (r, sr) {
                    (Ok(st), Ok(sv)) => st@ == sv,
                    (Err(a), Err(b)) => a@ == b,
                    _ => false,
                }
            }),
    {
        match self.expect_token(Token::Print) {
            Err(e) => {
                return Err(e);
            },
            Ok(_) => {},
        }
        match self.parse_expression() {
            Err(e) => Err(e),
            Ok(expr) => Ok(Statement::Print(expr)),
        }
    }

    /// Parse an assignment or expression statement, semicolon included,
    /// exactly as `sp_assign_or_expr` says. An assignment's left side must
    /// be a bare variable reference.
    fn parse_assignment_or_expression_statement(&mut self) -> (r: Result<Statement, ParserError>)
        requires
            old(self).wf(),
        ensures
            final(self).wf(),
            final(self).toks() == old(self).toks(),
            old(self).cur() <= final(self).cur() <= old(self).toks().len(),
            r is Ok ==> old(self).cur() < final(self).cur(),
            ({
                let (sr, sp) = sp_assign_or_expr(old(self).toks(), old(self).cur());
                final(self).cur() == sp && match (r, sr) {
                    (Ok(st), Ok(sv)) => st@ == sv,
                    (Err(a), Err(b)) => a@ == b,
                    _ => false,
                }
            }),
    {
        match self.parse_expression() {
            Err(e) => Err(e),
            Ok(left) => {
                if self.check(&Token::Equals) {
                    self.advance();
                    match self.parse_expression() {
                        Err(e) => Err(e),
                        Ok(right) => match self.expect_token(Token::Semicolon) {
                            Err(e) => Err(e),
                            Ok(_) => match left {
                                Expr::Variable(name) => Ok(Statement::Assignment(name, right)),
                                _ => Err(ParserError::InvalidSyntax),
                            },
                        },
                    }
                } else {
                    match self.expect_token(Token::Semicolon) {
                        Err(e) => Err(e),
                        Ok(_) => Ok(Statement::Expression(left)),
                    }
                }
            },
        }
    }

    /// Parse the optional `else { ... }` part of a conditional, given the
    /// parsed condition and then-branch, exactly as `sp_if_tail` says.
    fn parse_if_tail(&mut self, cond: Expr, then_stmts: Vec<Statement>) -> (r: Result<
        Statement,
        ParserError,
    >)
        requires
            old(self).wf(),
        ensures
            final(self).wf(),
            final(self).toks() == old(self).toks(),
            old(self).cur() <= final(self).cur() <= old(self).toks().len(),
            ({
                let (sr, sp) = sp_if_tail(
                    old(self).toks(),
                    old(self).cur(),
                    cond@,
                    stmts_view(then_stmts@),
                );
                final(self).cur() == sp && match (r, sr) {
                    (Ok(st), Ok(sv)) => st@ == sv,
                    (Err(a), Err(b)) => a@ == b,
                    _ => false,
                }
            }),
        decreases self.toks().len() - self.cur(), 0int,
    {
        if self.check(&Token::Else) {
            self.advance();
            match self.expect_token(Token::LeftBrace) {
                Err(e) => {
                    return Err(e);
                },
                Ok(_) => {},
            }
            let else_stmts = match self.parse_block_contents() {
                Err(e) => {
                    return Err(e);
                },
                Ok(v) => v,
            };
            match self.expect_token(Token::RightBrace) {
                Err(e) => {
                    return Err(e);
                },
                Ok(_) => {},
            }
            let ghost condv = cond@;
            let ghost tsv = stmts_view(then_stmts@);
            let ghost esv = stmts_view(else_stmts@);
            let then_block = Statement::Block(then_stmts);
            let else_block = Statement::Block(else_stmts);
            proof {
                assert(then_block@ == StmtV::Block(tsv));
                assert(else_block@ == StmtV::Block(esv));
            }
            let st = Statement::If(
                Box::new(cond),
                Box::new(then_block),
                Some(Box::new(else_block)),
            );
            proof {
                assert(st@ == StmtV::If(
                    Box::new(condv),
                    Box::new(StmtV::Block(tsv)),
                    Some(Box::new(StmtV::Block(esv))),
                ));
            }
            Ok(st)
        } else {
            let ghost condv = cond@;
            let ghost tsv = stmts_view(then_stmts@);
            let then_block = Statement::Block(then_stmts);
            proof {
                assert(then_block@ == StmtV::Block(tsv));
            }
            let st = Statement::If(Box::new(cond), Box::new(then_block), None);
            proof {
                assert(st@ == StmtV::If(
                    Box::new(condv),
                    Box::new(StmtV::Block(tsv)),
                    Option::None,
                ));
            }
            Ok(st)
        }
    }

    /// Parse `if expression { ... }` with an optional `else { ... }`,
    /// exactly as `sp_if_stmt` says; no closing semicolon.
    fn parse_if_statement(&mut self) -> (r: Result<Statement, ParserError>)
        requires
            old(self).wf(),
        ensures
            final(self).wf(),
            final(self).toks() == old(self).toks(),
            old(self).cur() <= final(self).cur() <= old(self).toks().len(),
            r is Ok ==> old(self).cur() < final(self).cur(),
            ({
                let (sr, sp) = sp_if_stmt(old(self).toks(), old(self).cur());
                final(self).cur() == sp && match (r, sr) {
                    (Ok(st), Ok(sv)) => st@ == sv,
                    (Err(a), Err(b)) => a@ == b,
                    _ => false,
                }
            }),
        decreases self.toks().len() - self.cur(), 1int,
    {
        match self.expect_token(Token::If) {
            Err(e) => {
                return Err(e);
            },
            Ok(_) => {},
        }
        let cond = match self.parse_expression() {
            Err(e) => {
                return Err(e);
            },
            Ok(c) => c,
        };
        match self.expect_token(Token::LeftBrace) {
            Err(e) => {
                return Err(e);
            },
            Ok(_) => {},
        }
        let then_stmts = match self.parse_block_contents() {
            Err(e) => {
                return Err(e);
            },
            Ok(v) => v,
        };
        match self.expect_token(Token::RightBrace) {
            Err(e) => {
                return Err(e);
            },
            Ok(_) => {},
        }
        self.parse_if_tail(cond, then_stmts)
    }

    /// Parse `fn name ( params ) -> type { body }`, exactly as
    /// `sp_function` says.
    fn parse_function(&mut self) -> (r: Result<Function, ParserError>)
        requires
            old(self).wf(),
        ensures
            final(self).wf(),
            final(self).toks() == old(self).toks(),
            old(self).cur() <= final(self).cur() <= old(self).toks().len(),
            r is Ok ==> old(self).cur() < final(self).cur(),
            ({
                let (sr, sp) = sp_function(old(self).toks(), old(self).cur());
                final(self).cur() == sp && match (r, sr) {
                    (Ok(f), Ok(fv)) => f@ == fv,
                    (Err(a), Err(b)) => a@ == b,
                    _ => false,
                }
            }),
        decreases self.toks().len() - self.cur(), 1int,
    {
        match self.expect_token(Token::Fn) {
            Err(e) => {
                return Err(e);
            },
            Ok(_) => {},
        }
        let name = match self.parse_identifier() {
            Err(e) => {
                return Err(e);
            },
            Ok(n) => n,
        };
        match self.expect_token(Token::LeftParen) {
            Err(e) => {
                return Err(e);
            },
            Ok(_) => {},
        }
        let params = match self.parse_parameters() {
            Err(e) => {
                return Err(e);
            },
            Ok(ps) => ps,
        };
        match self.expect_token(Token::RightParen) {
            Err(e) => {
                return Err(e);
            },
            Ok(_) => {},
        }
        match self.expect_token(Token::Arrow) {
            Err(e) => {
                return Err(e);
            },
            Ok(_) => {},
        }
        let return_type = match self.parse_type() {
            Err(e) => {
                return Err(e);
            },
            Ok(ty) => ty,
        };
        let body = match self.parse_block() {
            Err(e) => {
                return Err(e);
            },
            Ok(b) => b,
        };
        Ok(Function { name, params, return_type, body })
    }

    /// Parse a braced block `{ statement* }`, exactly as `sp_block` says.
    pub fn parse_block(&mut self) -> (r: Result<Vec<Statement>, ParserError>)
        requires
            old(self).wf(),
        ensures
            final(self).wf(),
            final(self).toks() == old(self).toks(),
            old(self).cur() <= final(self).cur() <= old(self).toks().len(),
            ({
                let (sr, sp) = sp_block(old(self).toks(), old(self).cur());
                final(self).cur() == sp && match (r, sr) {
                    (Ok(v), Ok(ssv)) => stmts_view(v@) == ssv,
                    (Err(a), Err(b)) => a@ == b,
                    _ => false,
                }
            }),
        decreases self.toks().len() - self.cur(), 1int,
    {
        match self.expect_token(Token::LeftBrace) {
            Err(e) => {
                return Err(e);
            },
            Ok(_) => {},
        }
        let stmts = match self.parse_block_contents() {
            Err(e) => {
                return Err(e);
            },
            Ok(v) => v,
        };
        match self.expect_token(Token::RightBrace) {
            Err(e) => Err(e),
            Ok(_) => Ok(stmts),
        }
    }

    /// Parse the statements of a block, ending before `}` or the end of
    /// input, exactly as `sp_block_contents` says.
    fn parse_block_contents(&mut self) -> (r: Result<Vec<Statement>, ParserError>)
        requires
            old(self).wf(),
        ensures
            final(self).wf(),
            final(self).toks() == old(self).toks(),
            old(self).cur() <= final(self).cur() <= old(self).toks().len(),
            ({
                let (sr, sp) = sp_block_contents(old(self).toks(), old(self).cur());
                final(self).cur() == sp && match (r, sr) {
                    (Ok(v), Ok(ssv)) => stmts_view(v@) == ssv,
                    (Err(a), Err(b)) => a@ == b,
                    _ => false,
                }
            }),
        decreases self.toks().len() - self.cur(), 3int,
    {
        let stop = match self.peek() {
            None => true,
            Some(t) => match t {
                Token::RightBrace => true,
                Token::EOF => true,
                _ => false,
            },
        };
        if stop {
            let v: Vec<Statement> = Vec::new();
            proof {
                assert(stmts_view(v@) =~= Seq::<StmtV>::empty());
            }
            return Ok(v);
        }
        let st = match self.parse_statement() {
            Err(e) => {
                return Err(e);
            },
            Ok(s) => s,
        };
        match self.parse_block_contents() {
            Err(e) => Err(e),
            Ok(mut rest) => {
                let ghost stv = st@;
                let ghost restv = rest@;
                proof {
                    lemma_stmts_view_cons(st, restv);
                }
                rest.insert(0, st);
                proof {
                    assert(rest@ =~= seq![st] + restv);
                }
                Ok(rest)
            },
        }
    }

    /// Parse one statement, exactly as `sp_statement` says. `let`, `print`,
    /// assignment and expression statements consume their closing
    /// semicolon; `if` and `fn` statements have none.
    fn parse_statement(&mut self) -> (r: Result<Statement, ParserError>)
        requires
            old(self).wf(),
        ensures
            final(self).wf(),
            final(self).toks() == old(self).toks(),
            old(self).cur() <= final(self).cur() <= old(self).toks().len(),
            r is Ok ==> old(self).cur() < final(self).cur(),
            ({
                let (sr, sp) = sp_statement(old(self).toks(), old(self).cur());
                final(self).cur() == sp && match (r, sr) {
                    (Ok(st), Ok(sv)) => st@ == sv,
                    (Err(a), Err(b)) => a@ == b,
                    _ => false,
                }
            }),
        decreases self.toks().len() - self.cur(), 2int,
    {
        let tag: usize = match self.peek() {
            Some(t) => match t {
                Token::Let => 1,
                Token::Fn => 2,
                Token::If => 3,
                Token::Print => 4,
                _ => 0,
            },
            None => 0,
        };
        if tag == 1 {
            let st = match self.parse_declaration() {
                Err(e) => {
                    return Err(e);
                },
                Ok(s) => s,
            };
            match self.expect_token(Token::Semicolon) {
                Err(e) => Err(e),
                Ok(_) => Ok(st),
            }
        } else if tag == 2 {
            match self.parse_function() {
                Err(e) => Err(e),
                Ok(f) => Ok(Statement::Function(f)),
            }
        } else if tag == 3 {
            self.parse_if_statement()
        } else if tag == 4 {
            let st = match self.parse_print_statement() {
                Err(e) => {
                    return Err(e);
                },
                Ok(s) => s,
            };
            match self.expect_token(Token::Semicolon) {
                Err(e) => Err(e),
                Ok(_) => Ok(st),
            }
        } else {
            self.parse_assignment_or_expression_statement()
        }
    }

    /// Parse a whole program: statements up to the end-of-input sentinel,
    /// exactly as `sp_statements` says.
    pub fn parse_statements(&mut self) -> (r: Result<Vec<Statement>, ParserError>)
        requires
            old(self).wf(),
        ensures
            final(self).wf(),
            final(self).toks() == old(self).toks(),
            old(self).cur() <= final(self).cur() <= old(self).toks().len(),
            ({
                let (sr, sp) = sp_statements(old(self).toks(), old(self).cur());
                final(self).cur() == sp && match (r, sr) {
                    (Ok(v), Ok(ssv)) => stmts_view(v@) == ssv,
                    (Err(a), Err(b)) => a@ == b,
                    _ => false,
                }
            }),
        decreases self.toks().len() - self.cur(), 4int,
    {
        if self.is_at_end() {
            let v: Vec<Statement> = Vec::new();
            proof {
                assert(stmts_view(v@) =~= Seq::<StmtV>::empty());
            }
            return Ok(v);
        }
        let st = match self.parse_statement() {
            Err(e) => {
                return Err(e);
            },
            Ok(s) => s,
        };
        match self.parse_statements() {
            Err(e) => Err(e),
            Ok(mut rest) => {
                let ghost stv = st@;
                let ghost restv = rest@;
                proof {
                    lemma_stmts_view_cons(st, restv);
                }
                rest.insert(0, st);
                proof {
                    assert(rest@ =~= seq![st] + restv);
                }
                Ok(rest)
            },
        }
    }
}

} // verus!
