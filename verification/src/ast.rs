//! The shared data model of the language front end: tokens, expressions,
//! statements, functions, types and operators, together with their
//! mathematical views (`TokenV`, `ExprV`, ...) over `Seq<char>` payloads,
//! which the contracts of the lexer, parser, interpreter and code
//! generator are stated over.
use vstd::prelude::*;

verus! {

/// An atomic lexical unit produced by the lexer.
#[derive(Debug, Clone, PartialEq)]
pub enum Token {
    Let,
    Fn,
    If,
    Else,
    Print,
    Identifier(String),
    Integer(i64),
    Plus,
    Minus,
    Equals,
    DoubleEquals,
    Asterisk,
    Semicolon,
    Colon,
    Comma,
    LeftParen,
    RightParen,
    Arrow,
    LeftBrace,
    RightBrace,
    MoreThan,
    LessThan,
    EOF,
}

/// The mathematical view of a `Token`: identifier names become `Seq<char>`.
pub enum TokenV {
    Let,
    Fn,
    If,
    Else,
    Print,
    Identifier(Seq<char>),
    Integer(i64),
    Plus,
    Minus,
    Equals,
    DoubleEquals,
    Asterisk,
    Semicolon,
    Colon,
    Comma,
    LeftParen,
    RightParen,
    Arrow,
    LeftBrace,
    RightBrace,
    MoreThan,
    LessThan,
    EOF,
}

impl View for Token {
    type V = TokenV;

    open spec fn view(&self) -> TokenV {
        match self {
            Token::Let => TokenV::Let,
            Token::Fn => TokenV::Fn,
            Token::If => TokenV::If,
            Token::Else => TokenV::Else,
            Token::Print => TokenV::Print,
            Token::Identifier(s) => TokenV::Identifier(s@),
            Token::Integer(v) => TokenV::Integer(*v),
            Token::Plus => TokenV::Plus,
            Token::Minus => TokenV::Minus,
            Token::Equals => TokenV::Equals,
            Token::DoubleEquals => TokenV::DoubleEquals,
            Token::Asterisk => TokenV::Asterisk,
            Token::Semicolon => TokenV::Semicolon,
            Token::Colon => TokenV::Colon,
            Token::Comma => TokenV::Comma,
            Token::LeftParen => TokenV::LeftParen,
            Token::RightParen => TokenV::RightParen,
            Token::Arrow => TokenV::Arrow,
            Token::LeftBrace => TokenV::LeftBrace,
            Token::RightBrace => TokenV::RightBrace,
            Token::MoreThan => TokenV::MoreThan,
            Token::LessThan => TokenV::LessThan,
            Token::EOF => TokenV::EOF,
        }
    }
}

/// The views of a sequence of tokens.
pub open spec fn tokens_view(ts: Seq<Token>) -> Seq<TokenV> {
    ts.map_values(|t: Token| t@)
}

/// The single built-in type of the language.
#[derive(Debug, Clone, Copy, PartialEq, Eq, Structural)]
pub enum Type {
    Int,
}

/// A binary operator. `Equals` is the comparison `==`; the assignment `=`
/// never becomes an operator, the grammar turns it into an assignment node.
#[derive(Debug, Clone, Copy, PartialEq, Eq, Structural)]
pub enum Operator {
    Plus,
    Minus,
    Equals,
    Multiply,
    MoreThan,
    LessThan,
}

/// An expression node. Every node owns its children exclusively: the AST is
/// a tree, never shared and never cyclic.
#[derive(Debug)]
pub enum Expr {
    Integer(i64),
    BinaryOp(Box<Expr>, Operator, Box<Expr>),
    Variable(String),
    Assign(String, Box<Expr>),
    If(Box<Expr>, Box<Statement>, Option<Box<Statement>>),
    FunctionCall(String, Vec<Expr>),
}

/// A statement node.
#[derive(Debug)]
pub enum Statement {
    Expression(Expr),
    Declaration(String, Expr),
    Assignment(String, Expr),
    Print(Expr),
    Block(Vec<Statement>),
    If(Box<Expr>, Box<Statement>, Option<Box<Statement>>),
    Function(Function),
}

/// A function definition: name, ordered parameter list, return type, body.
#[derive(Debug)]
pub struct Function {
    pub name: String,
    pub params: Vec<(String, Type)>,
    pub return_type: Type,
    pub body: Vec<Statement>,
}

/// The mathematical view of an `Expr`.
pub enum ExprV {
    Integer(i64),
    BinaryOp(Box<ExprV>, Operator, Box<ExprV>),
    Variable(Seq<char>),
    Assign(Seq<char>, Box<ExprV>),
    If(Box<ExprV>, Box<StmtV>, Option<Box<StmtV>>),
    FunctionCall(Seq<char>, Seq<ExprV>),
}

/// The mathematical view of a `Statement`.
pub enum StmtV {
    Expression(ExprV),
    Declaration(Seq<char>, ExprV),
    Assignment(Seq<char>, ExprV),
    Print(ExprV),
    Block(Seq<StmtV>),
    If(Box<ExprV>, Box<StmtV>, Option<Box<StmtV>>),
    Function(FunctionV),
}

/// The mathematical view of a `Function`.
pub struct FunctionV {
    pub name: Seq<char>,
    pub params: Seq<(Seq<char>, Type)>,
    pub return_type: Type,
    pub body: Seq<StmtV>,
}

pub open spec fn expr_view(e: Expr) -> ExprV
    decreases e,
{
    match e {
        Expr::Integer(v) => ExprV::Integer(v),
        Expr::BinaryOp(l, op, r) => ExprV::BinaryOp(
            Box::new(expr_view(*l)),
            op,
            Box::new(expr_view(*r)),
        ),
        Expr::Variable(name) => ExprV::Variable(name@),
        Expr::Assign(name, v) => ExprV::Assign(name@, Box::new(expr_view(*v))),
        Expr::If(c, t, els) => ExprV::If(
            Box::new(expr_view(*c)),
            Box::new(stmt_view(*t)),
            match els {
                Some(s) => Some(Box::new(stmt_view(*s))),
                None => None,
            },
        ),
        Expr::FunctionCall(name, args) => ExprV::FunctionCall(name@, exprs_view(args@)),
    }
}

pub open spec fn exprs_view(es: Seq<Expr>) -> Seq<ExprV>
    decreases es,
{
    if es.len() == 0 {
        Seq::empty()
    } else {
        seq![expr_view(es[0])] + exprs_view(es.drop_first())
    }
}

pub open spec fn stmt_view(s: Statement) -> StmtV
    decreases s,
{
    match s {
        Statement::Expression(e) => StmtV::Expression(expr_view(e)),
        Statement::Declaration(name, e) => StmtV::Declaration(name@, expr_view(e)),
        Statement::Assignment(name, e) => StmtV::Assignment(name@, expr_view(e)),
        Statement::Print(e) => StmtV::Print(expr_view(e)),
        Statement::Block(stmts) => StmtV::Block(stmts_view(stmts@)),
        Statement::If(c, t, els) => StmtV::If(
            Box::new(expr_view(*c)),
            Box::new(stmt_view(*t)),
            match els {
                Some(s) => Some(Box::new(stmt_view(*s))),
                None => None,
            },
        ),
        Statement::Function(f) => StmtV::Function(func_view(f)),
    }
}

pub open spec fn stmts_view(ss: Seq<Statement>) -> Seq<StmtV>
    decreases ss,
{
    if ss.len() == 0 {
        Seq::empty()
    } else {
        seq![stmt_view(ss[0])] + stmts_view(ss.drop_first())
    }
}

pub open spec fn params_view(ps: Seq<(String, Type)>) -> Seq<(Seq<char>, Type)> {
    ps.map_values(|p: (String, Type)| (p.0@, p.1))
}

pub open spec fn func_view(f: Function) -> FunctionV
    decreases f,
{
    FunctionV {
        name: f.name@,
        params: params_view(f.params@),
        return_type: f.return_type,
        body: stmts_view(f.body@),
    }
}

impl View for Expr {
    type V = ExprV;

    open spec fn view(&self) -> ExprV {
        expr_view(*self)
    }
}

impl View for Statement {
    type V = StmtV;

    open spec fn view(&self) -> StmtV {
        stmt_view(*self)
    }
}

impl View for Function {
    type V = FunctionV;

    open spec fn view(&self) -> FunctionV {
        func_view(*self)
    }
}

/// `stmts_view` indexes pointwise.
pub proof fn lemma_stmts_view_index(ss: Seq<Statement>, i: int)
    requires
        0 <= i < ss.len(),
    ensures
        stmts_view(ss).len() == ss.len(),
        stmts_view(ss)[i] == stmt_view(ss[i]),
    decreases ss.len(),
{
    if i > 0 {
        lemma_stmts_view_index(ss.drop_first(), i - 1);
    } else {
        lemma_stmts_view_len(ss.drop_first());
    }
}

pub proof fn lemma_stmts_view_len(ss: Seq<Statement>)
    ensures
        stmts_view(ss).len() == ss.len(),
    decreases ss.len(),
{
    if ss.len() > 0 {
        lemma_stmts_view_len(ss.drop_first());
    }
}

/// `exprs_view` indexes pointwise.
pub proof fn lemma_exprs_view_index(es: Seq<Expr>, i: int)
    requires
        0 <= i < es.len(),
    ensures
        exprs_view(es).len() == es.len(),
        exprs_view(es)[i] == expr_view(es[i]),
    decreases es.len(),
{
    if i > 0 {
        lemma_exprs_view_index(es.drop_first(), i - 1);
    } else {
        lemma_exprs_view_len(es.drop_first());
    }
}

pub proof fn lemma_exprs_view_len(es: Seq<Expr>)
    ensures
        exprs_view(es).len() == es.len(),
    decreases es.len(),
{
    if es.len() > 0 {
        lemma_exprs_view_len(es.drop_first());
    }
}

/// Two statement sequences with pointwise-equal views have equal views.
pub proof fn lemma_stmts_view_pointwise(a: Seq<Statement>, b: Seq<Statement>)
    requires
        a.len() == b.len(),
        forall|i: int| 0 <= i < a.len() ==> stmt_view(#[trigger] a[i]) == stmt_view(b[i]),
    ensures
        stmts_view(a) == stmts_view(b),
    decreases a.len(),
{
    if a.len() > 0 {
        assert(stmt_view(a[0]) == stmt_view(b[0]));
        lemma_stmts_view_pointwise(a.drop_first(), b.drop_first());
    } else {
        assert(stmts_view(a) =~= stmts_view(b));
    }
}

/// Two expression sequences with pointwise-equal views have equal views.
pub proof fn lemma_exprs_view_pointwise(a: Seq<Expr>, b: Seq<Expr>)
    requires
        a.len() == b.len(),
        forall|i: int| 0 <= i < a.len() ==> expr_view(#[trigger] a[i]) == expr_view(b[i]),
    ensures
        exprs_view(a) == exprs_view(b),
    decreases a.len(),
{
    if a.len() > 0 {
        assert(expr_view(a[0]) == expr_view(b[0]));
        lemma_exprs_view_pointwise(a.drop_first(), b.drop_first());
    } else {
        assert(exprs_view(a) =~= exprs_view(b));
    }
}

/// A deep copy of an expression; the copy has the same view.
pub fn clone_expr(e: &Expr) -> (res: Expr)
    ensures
        res@ == e@,
    decreases e,
{
    match e {
        Expr::Integer(v) => Expr::Integer(*v),
        Expr::BinaryOp(l, op, r) => Expr::BinaryOp(
            Box::new(clone_expr(l)),
            *op,
            Box::new(clone_expr(r)),
        ),
        Expr::Variable(name) => Expr::Variable(name.clone()),
        Expr::Assign(name, v) => Expr::Assign(name.clone(), Box::new(clone_expr(v))),
        Expr::If(c, t, els) => Expr::If(
            Box::new(clone_expr(c)),
            Box::new(clone_stmt(t)),
            match els {
                Some(s) => Some(Box::new(clone_stmt(s))),
                None => None,
            },
        ),
        Expr::FunctionCall(name, args) => Expr::FunctionCall(name.clone(), clone_exprs(args)),
    }
}

/// A deep copy of an expression list; the copy has the same views.
pub fn clone_exprs(es: &Vec<Expr>) -> (res: Vec<Expr>)
    ensures
        exprs_view(res@) == exprs_view(es@),
        res@.len() == es@.len(),
    decreases es,
{
    let mut res: Vec<Expr> = Vec::new();
    let mut i: usize = 0;
    while i < es.len()
        invariant
            i <= es.len(),
            res@.len() == i,
            forall|j: int| 0 <= j < i ==> expr_view(#[trigger] res@[j]) == expr_view(es@[j]),
        decreases es.len() - i,
    {
        res.push(clone_expr(&es[i]));
        i = i + 1;
    }
    proof {
        lemma_exprs_view_pointwise(res@, es@);
    }
    res
}

/// A deep copy of a statement; the copy has the same view.
pub fn clone_stmt(s: &Statement) -> (res: Statement)
    ensures
        res@ == s@,
    decreases s,
{
    match s {
        Statement::Expression(e) => Statement::Expression(clone_expr(e)),
        Statement::Declaration(name, e) => Statement::Declaration(name.clone(), clone_expr(e)),
        Statement::Assignment(name, e) => Statement::Assignment(name.clone(), clone_expr(e)),
        Statement::Print(e) => Statement::Print(clone_expr(e)),
        Statement::Block(stmts) => Statement::Block(clone_stmts(stmts)),
        Statement::If(c, t, els) => Statement::If(
            Box::new(clone_expr(c)),
            Box::new(clone_stmt(t)),
            match els {
                Some(b) => Some(Box::new(clone_stmt(b))),
                None => None,
            },
        ),
        Statement::Function(f) => Statement::Function(clone_func(f)),
    }
}

/// A deep copy of a statement list; the copy has the same views.
pub fn clone_stmts(ss: &Vec<Statement>) -> (res: Vec<Statement>)
    ensures
        stmts_view(res@) == stmts_view(ss@),
        res@.len() == ss@.len(),
    decreases ss,
{
    let mut res: Vec<Statement> = Vec::new();
    let mut i: usize = 0;
    while i < ss.len()
        invariant
            i <= ss.len(),
            res@.len() == i,
            forall|j: int| 0 <= j < i ==> stmt_view(#[trigger] res@[j]) == stmt_view(ss@[j]),
        decreases ss.len() - i,
    {
        res.push(clone_stmt(&ss[i]));
        i = i + 1;
    }
    proof {
        lemma_stmts_view_pointwise(res@, ss@);
    }
    res
}

/// A deep copy of a function definition; the copy has the same view.
pub fn clone_func(f: &Function) -> (res: Function)
    ensures
        res@ == f@,
    decreases f,
{
    let mut params: Vec<(String, Type)> = Vec::new();
    let mut i: usize = 0;
    while i < f.params.len()
        invariant
            i <= f.params.len(),
            params@.len() == i,
            forall|j: int| 0 <= j < i ==> #[trigger] params@[j] == f.params@[j],
        decreases f.params.len() - i,
    {
        let (name, t) = &f.params[i];
        params.push((name.clone(), *t));
        i = i + 1;
    }
    let res = Function {
        name: f.name.clone(),
        params,
        return_type: f.return_type,
        body: clone_stmts(&f.body),
    };
    proof {
        assert(params_view(res.params@) =~= params_view(f.params@));
    }
    res
}

impl Clone for Expr {
    /// A deep copy with the same view.
    fn clone(&self) -> (res: Self)
        ensures
            res@ == self@,
    {
        clone_expr(self)
    }
}

impl Clone for Statement {
    /// A deep copy with the same view.
    fn clone(&self) -> (res: Self)
        ensures
            res@ == self@,
    {
        clone_stmt(self)
    }
}

impl Clone for Function {
    /// A deep copy with the same view.
    fn clone(&self) -> (res: Self)
        ensures
            res@ == self@,
    {
        clone_func(self)
    }
}

} // verus!
