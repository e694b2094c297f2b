//! The tree-walking evaluator: statements and expressions evaluate against
//! mutable state made of a variable table, a function table, and the
//! sequence of values printed so far. There are no runtime errors: reading
//! an unbound variable yields zero, and a function call always yields zero
//! (an explicit stub; bodies are registered, never run).
//!
//! The spec-level model is `eval_stmt` / `eval_expr` over `StateV`; each
//! interpreter method is proved to return exactly the value the model says
//! and to leave the state exactly as the model says.
use vstd::prelude::*;

use crate::ast::Expr;
use crate::ast::ExprV;
use crate::ast::Function;
use crate::ast::FunctionV;
use crate::ast::Operator;
use crate::ast::Statement;
use crate::ast::StmtV;
use crate::ast::clone_func;
use crate::ast::exprs_view;
use crate::ast::func_view;
use crate::ast::lemma_exprs_view_index;
use crate::ast::lemma_stmts_view_index;
use crate::ast::stmts_view;

verus! {

broadcast use {vstd::seq::axiom_seq_index_decreases, vstd::seq::axiom_seq_subrange_decreases};

/// The interpreter's state: variable values, registered functions, and the
/// values printed so far, in order.
pub struct StateV {
    pub vars: Map<Seq<char>, i64>,
    pub funcs: Map<Seq<char>, FunctionV>,
    pub out: Seq<i64>,
}

/// What a binary operator computes: `+`, `-` and `*` are wrapping 64-bit
/// signed arithmetic; the comparisons yield 1 or 0.
pub open spec fn apply_op(op: Operator, a: i64, b: i64) -> i64 {
    match op {
        Operator::Plus => vstd::wrapping::i64_specs::wrapping_add(a, b),
        Operator::Minus => vstd::wrapping::i64_specs::wrapping_sub(a, b),
        Operator::Multiply => vstd::wrapping::i64_specs::wrapping_mul(a, b),
        Operator::Equals => if a == b {
            1
        } else {
            0
        },
        Operator::MoreThan => if a > b {
            1
        } else {
            0
        },
        Operator::LessThan => if a < b {
            1
        } else {
            0
        },
    }
}

/// What evaluating an expression yields: the new state and the value.
/// An unbound variable reads as zero; a call evaluates its arguments for
/// their effects and yields zero.
pub open spec fn eval_expr(st: StateV, e: ExprV) -> (StateV, i64)
    decreases e,
{
    match e {
        ExprV::Integer(v) => (st, v),
        ExprV::BinaryOp(l, op, r) => {
            let (st1, a) = eval_expr(st, *l);
            let (st2, b) = eval_expr(st1, *r);
            (st2, apply_op(op, a, b))
        },
        ExprV::Variable(name) => (
            st,
            if st.vars.dom().contains(name) {
                st.vars[name]
            } else {
                0
            },
        ),
        ExprV::Assign(name, v) => {
            let (st1, x) = eval_expr(st, *v);
            (StateV { vars: st1.vars.insert(name, x), funcs: st1.funcs, out: st1.out }, x)
        },
        ExprV::If(c, tb, eb) => {
            let (st1, cv) = eval_expr(st, *c);
            if cv != 0 {
                eval_stmt(st1, *tb)
            } else {
                match eb {
                    Some(s) => eval_stmt(st1, *s),
                    None => (st1, 0),
                }
            }
        },
        ExprV::FunctionCall(_name, args) => (eval_args(st, args), 0),
    }
}

/// Evaluating a call's arguments left to right, for their effects alone.
pub open spec fn eval_args(st: StateV, es: Seq<ExprV>) -> StateV
    decreases es,
{
    if es.len() == 0 {
        st
    } else {
        let (st1, _v) = eval_expr(st, es[0]);
        eval_args(st1, es.drop_first())
    }
}

/// What evaluating a statement yields: the new state and the statement's
/// value. Declarations and assignments yield the assigned value, prints the
/// printed value, blocks their last statement's value (zero if empty),
/// conditionals the chosen branch's value (zero for a missing else), and a
/// function definition registers the function and yields zero.
pub open spec fn eval_stmt(st: StateV, s: StmtV) -> (StateV, i64)
    decreases s,
{
    match s {
        StmtV::Expression(e) => eval_expr(st, e),
        StmtV::Declaration(name, e) => {
            let (st1, v) = eval_expr(st, e);
            (StateV { vars: st1.vars.insert(name, v), funcs: st1.funcs, out: st1.out }, v)
        },
        StmtV::Assignment(name, e) => {
            let (st1, v) = eval_expr(st, e);
            (StateV { vars: st1.vars.insert(name, v), funcs: st1.funcs, out: st1.out }, v)
        },
        StmtV::Print(e) => {
            let (st1, v) = eval_expr(st, e);
            (StateV { vars: st1.vars, funcs: st1.funcs, out: st1.out.push(v) }, v)
        },
        StmtV::Block(ss) => eval_stmts(st, ss),
        StmtV::If(c, tb, eb) => {
            let (st1, cv) = eval_expr(st, *c);
            if cv != 0 {
                eval_stmt(st1, *tb)
            } else {
                match eb {
                    Some(s2) => eval_stmt(st1, *s2),
                    None => (st1, 0),
                }
            }
        },
        StmtV::Function(f) => (
            StateV { vars: st.vars, funcs: st.funcs.insert(f.name, f), out: st.out },
            0,
        ),
    }
}

/// Evaluating a statement sequence in order; the value is the last
/// statement's value, zero if the sequence is empty.
pub open spec fn eval_stmts(st: StateV, ss: Seq<StmtV>) -> (StateV, i64)
    decreases ss,
{
    if ss.len() == 0 {
        (st, 0)
    } else {
        let (st1, v) = eval_stmt(st, ss[0]);
        if ss.len() == 1 {
            (st1, v)
        } else {
            eval_stmts(st1, ss.drop_first())
        }
    }
}

/// Reading an unbound variable yields zero rather than failing, whatever
/// the state: the interpreter's deliberate permissive policy.
pub proof fn lemma_unbound_variable_default(st: StateV, name: Seq<char>)
    requires
        !st.vars.dom().contains(name),
    ensures
        eval_expr(st, ExprV::Variable(name)) == (st, 0i64),
{
}

/// A conditional runs its then branch exactly when the condition's value
/// is non-zero; a zero condition runs the else branch, or yields zero with
/// the condition's state when there is none. The same holds of the
/// conditional in expression position.
pub proof fn lemma_if_truthiness(st: StateV, c: ExprV, tb: Box<StmtV>, eb: Option<Box<StmtV>>)
    ensures
        ({
            let (st1, cv) = eval_expr(st, c);
            (cv != 0 ==> eval_stmt(st, StmtV::If(Box::new(c), tb, eb)) == eval_stmt(st1, *tb))
                && (cv == 0 && eb is Some ==> eval_stmt(st, StmtV::If(Box::new(c), tb, eb))
                == eval_stmt(st1, *eb->0)) && (cv == 0 && eb is None ==> eval_stmt(
                st,
                StmtV::If(Box::new(c), tb, eb),
            ) == (st1, 0i64)) && eval_expr(st, ExprV::If(Box::new(c), tb, eb)) == eval_stmt(
                st,
                StmtV::If(Box::new(c), tb, eb),
            )
        }),
{
}

/// A block yields its last statement's value, evaluated in the state the
/// earlier statements left behind; an empty block yields zero and leaves
/// the state alone.
pub proof fn lemma_block_value(st: StateV, ss: Seq<StmtV>)
    ensures
        ss.len() == 0 ==> eval_stmts(st, ss) == (st, 0i64),
        ss.len() > 0 ==> eval_stmts(st, ss).1 == eval_stmt(
            eval_stmts(st, ss.take(ss.len() - 1)).0,
            ss.last(),
        ).1,
    decreases ss.len(),
{
    if ss.len() == 1 {
        assert(ss.take(ss.len() - 1) =~= Seq::<StmtV>::empty());
        assert(eval_stmts(st, ss.take(ss.len() - 1)) == (st, 0i64));
    } else if ss.len() > 1 {
        let (st1, v) = eval_stmt(st, ss[0]);
        lemma_block_value(st1, ss.drop_first());
        assert(ss.drop_first().take(ss.len() - 2) =~= ss.take(ss.len() - 1).drop_first());
        assert(ss.drop_first().last() == ss.last());
        let front = ss.take(ss.len() - 1);
        assert(front[0] == ss[0]);
        assert(front.len() > 0);
        if front.len() == 1 {
            assert(ss.drop_first().take(ss.len() - 2) =~= Seq::<StmtV>::empty());
            assert(eval_stmts(st1, ss.drop_first().take(ss.len() - 2)) == (st1, 0i64));
            assert(eval_stmts(st, front) == eval_stmt(st, front[0]));
        } else {
            assert(eval_stmts(st, front) == eval_stmts(st1, front.drop_first()));
        }
    }
}

/// The variable table: name-to-value entries, where a later entry for the
/// same name shadows an earlier one, so its mathematical content is the
/// map folded up by `entries_map`.
struct VarMap {
    entries: Vec<(String, i64)>,
}

/// The map an entry list denotes: later entries win.
spec fn entries_map(s: Seq<(String, i64)>) -> Map<Seq<char>, i64>
    decreases s.len(),
{
    if s.len() == 0 {
        Map::empty()
    } else {
        entries_map(s.drop_last()).insert(s.last().0@, s.last().1)
    }
}

/// Membership and value of `entries_map`: a key is present exactly when
/// some entry carries it, and the value is the last such entry's.
proof fn lemma_entries_map_get(s: Seq<(String, i64)>, k: Seq<char>)
    ensures
        entries_map(s).dom().contains(k) <==> (exists|i: int|
            0 <= i < s.len() && #[trigger] s[i].0@ == k),
        forall|i: int|
            (0 <= i < s.len() && #[trigger] s[i].0@ == k && (forall|j: int|
                i < j < s.len() ==> s[j].0@ != k)) ==> entries_map(s).dom().contains(k)
                && entries_map(s)[k] == s[i].1,
    decreases s.len(),
{
    if s.len() > 0 {
        lemma_entries_map_get(s.drop_last(), k);
        assert forall|i: int| 0 <= i < s.len() - 1 && #[trigger] s.drop_last()[i].0@ == k implies s[i].0@
            == k by {}
        assert forall|i: int| 0 <= i < s.len() - 1 && #[trigger] s[i].0@ == k implies s.drop_last()[i].0@
            == k by {}
    }
}

impl VarMap {
    spec fn view_map(&self) -> Map<Seq<char>, i64> {
        entries_map(self.entries@)
    }

    fn new() -> (r: VarMap)
        ensures
            r.view_map() == Map::<Seq<char>, i64>::empty(),
    {
        let r = VarMap { entries: Vec::new() };
        proof {
            assert(r.entries@.len() == 0);
        }
        r
    }

    /// The value bound to `name`, if any.
    fn get(&self, name: &String) -> (r: Option<i64>)
        ensures
            match r {
                Some(v) => self.view_map().dom().contains(name@) && self.view_map()[name@] == v,
                None => !self.view_map().dom().contains(name@),
            },
    {
        let mut idx = self.entries.len();
        while idx > 0
            invariant
                idx <= self.entries.len(),
                forall|j: int| idx <= j < self.entries@.len() ==> #[trigger] self.entries@[j].0@ != name@,
            decreases idx,
        {
            idx = idx - 1;
            let (ename, v) = &self.entries[idx];
            if ename.eq(name) {
                proof {
                    lemma_entries_map_get(self.entries@, name@);
                }
                return Some(*v);
            }
        }
        proof {
            lemma_entries_map_get(self.entries@, name@);
        }
        None
    }

    /// Bind `name` to `v`, shadowing any earlier binding.
    fn insert(&mut self, name: &String, v: i64)
        ensures
            final(self).view_map() == old(self).view_map().insert(name@, v),
    {
        let ghost pre = self.entries@;
        self.entries.push((name.clone(), v));
        proof {
            assert(self.entries@.drop_last() =~= pre);
        }
    }
}

/// The function table: name-to-definition entries, later entries shadow
/// earlier ones. Definitions are only ever registered; calls do not run
/// them.
struct FnMap {
    entries: Vec<(String, Function)>,
}

/// The map a function entry list denotes: later entries win.
spec fn fn_entries_map(s: Seq<(String, Function)>) -> Map<Seq<char>, FunctionV>
    decreases s.len(),
{
    if s.len() == 0 {
        Map::empty()
    } else {
        fn_entries_map(s.drop_last()).insert(s.last().0@, func_view(s.last().1))
    }
}

impl FnMap {
    spec fn view_map(&self) -> Map<Seq<char>, FunctionV> {
        fn_entries_map(self.entries@)
    }

    fn new() -> (r: FnMap)
        ensures
            r.view_map() == Map::<Seq<char>, FunctionV>::empty(),
    {
        let r = FnMap { entries: Vec::new() };
        proof {
            assert(r.entries@.len() == 0);
        }
        r
    }

    /// Register a definition under `name`, shadowing any earlier one.
    fn insert(&mut self, name: String, f: Function)
        ensures
            final(self).view_map() == old(self).view_map().insert(name@, f@),
    {
        let ghost pre = self.entries@;
        self.entries.push((name, f));
        proof {
            assert(self.entries@.drop_last() =~= pre);
        }
    }
}

/// The interpreter: one variable table, one function table, and the output
/// collected from `print` statements. The caller decides what to do with
/// the output.
pub struct Interpreter {
    variables: VarMap,
    functions: FnMap,
    output: Vec<i64>,
}

impl Interpreter {
    /// The interpreter's state as the model sees it.
    pub closed spec fn st(&self) -> StateV {
        StateV {
            vars: self.variables.view_map(),
            funcs: self.functions.view_map(),
            out: self.output@,
        }
    }

    /// A fresh interpreter: no variables, no functions, no output.
    pub fn new() -> (r: Interpreter)
        ensures
            r.st() == (StateV {
                vars: Map::<Seq<char>, i64>::empty(),
                funcs: Map::<Seq<char>, FunctionV>::empty(),
                out: Seq::<i64>::empty(),
            }),
    {
        let r = Interpreter { variables: VarMap::new(), functions: FnMap::new(), output: Vec::new() };
        proof {
            assert(r.st().out =~= Seq::<i64>::empty());
        }
        r
    }

    /// The values printed so far, in order.
    pub fn output(&self) -> (r: &Vec<i64>)
        ensures
            r@ == self.st().out,
    {
        &self.output
    }

    /// Evaluate a statement: the value returned and the state afterwards
    /// are exactly what `eval_stmt` says.
    pub fn interpret_statement(&mut self, statement: &Statement) -> (r: i64)
        ensures
            ({
                let (st2, v) = eval_stmt(old(self).st(), statement@);
                final(self).st() == st2 && r == v
            }),
        decreases statement, 0int,
    {
        match statement {
            Statement::Expression(expr) => self.interpret_expression(expr),
            Statement::Declaration(name, expr) => {
                let value = self.interpret_expression(expr);
                self.variables.insert(name, value);
                value
            },
            Statement::Assignment(name, expr) => {
                let value = self.interpret_expression(expr);
                self.variables.insert(name, value);
                value
            },
            Statement::Print(expr) => {
                let value = self.interpret_expression(expr);
                self.output.push(value);
                value
            },
            Statement::Block(statements) => {
                proof {
                    assert(stmts_view(statements@).skip(0) =~= stmts_view(statements@));
                }
                self.interpret_block_from(statements, 0)
            },
            Statement::If(condition, then_branch, else_branch) => {
                let condition_val = self.interpret_expression(condition);
                if condition_val != 0 {
                    self.interpret_statement(then_branch)
                } else {
                    match else_branch {
                        Some(else_stmt) => self.interpret_statement(else_stmt),
                        None => 0,
                    }
                }
            },
            Statement::Function(function) => {
                let name = function.name.clone();
                let copy = clone_func(function);
                self.functions.insert(name, copy);
                0
            },
        }
    }

    /// Evaluate the statements of a block from index `i` on; the value is
    /// the last statement's, zero if none remain.
    fn interpret_block_from(&mut self, statements: &Vec<Statement>, i: usize) -> (r: i64)
        requires
            i <= statements@.len(),
        ensures
            ({
                let (st2, v) = eval_stmts(old(self).st(), stmts_view(statements@).skip(i as int));
                final(self).st() == st2 && r == v
            }),
        decreases statements, statements@.len() - i,
    {
        proof {
            crate::ast::lemma_stmts_view_len(statements@);
        }
        if i == statements.len() {
            0
        } else {
            proof {
                lemma_stmts_view_index(statements@, i as int);
                assert(stmts_view(statements@).skip(i as int)[0] == stmts_view(statements@)[
                    i as int
                ]);
                assert(stmts_view(statements@).skip(i as int).drop_first() =~= stmts_view(
                    statements@,
                ).skip(i as int + 1));
            }
            let v = self.interpret_statement(&statements[i]);
            if i + 1 == statements.len() {
                v
            } else {
                self.interpret_block_from(statements, i + 1)
            }
        }
    }

    /// Evaluate a call's arguments from index `i` on, for their effects.
    fn interpret_args_from(&mut self, args: &Vec<Expr>, i: usize)
        requires
            i <= args@.len(),
        ensures
            final(self).st() == eval_args(old(self).st(), exprs_view(args@).skip(i as int)),
        decreases args, args@.len() - i,
    {
        proof {
            crate::ast::lemma_exprs_view_len(args@);
        }
        if i < args.len() {
            proof {
                lemma_exprs_view_index(args@, i as int);
                assert(exprs_view(args@).skip(i as int)[0] == exprs_view(args@)[i as int]);
                assert(exprs_view(args@).skip(i as int).drop_first() =~= exprs_view(args@).skip(
                    i as int + 1,
                ));
            }
            let _v = self.interpret_expression(&args[i]);
            self.interpret_args_from(args, i + 1);
        }
    }

    /// Evaluate an expression: the value returned and the state afterwards
    /// are exactly what `eval_expr` says.
    pub fn interpret_expression(&mut self, expr: &Expr) -> (r: i64)
        ensures
            ({
                let (st2, v) = eval_expr(old(self).st(), expr@);
                final(self).st() == st2 && r == v
            }),
        decreases expr, 0int,
    {
        match expr {
            Expr::Integer(value) => *value,
            Expr::BinaryOp(left, op, right) => {
                let left_val = self.interpret_expression(left);
                let right_val = self.interpret_expression(right);
                apply_op_exec(*op, left_val, right_val)
            },
            Expr::Variable(name) => {
                match self.variables.get(name) {
                    Some(v) => v,
                    None => 0,
                }
            },
            Expr::Assign(name, value) => {
                let val = self.interpret_expression(value);
                self.variables.insert(name, val);
                val
            },
            Expr::If(condition, then_branch, else_branch) => {
                let condition_val = self.interpret_expression(condition);
                if condition_val != 0 {
                    self.interpret_statement(then_branch)
                } else {
                    match else_branch {
                        Some(else_stmt) => self.interpret_statement(else_stmt),
                        None => 0,
                    }
                }
            },
            Expr::FunctionCall(_name, args) => {
                proof {
                    assert(exprs_view(args@).skip(0) =~= exprs_view(args@));
                }
                self.interpret_args_from(args, 0);
                0
            },
        }
    }
}

/// The executable form of `apply_op`.
fn apply_op_exec(op: Operator, a: i64, b: i64) -> (r: i64)
    ensures
        r == apply_op(op, a, b),
{
    match op {
        Operator::Plus => a.wrapping_add(b),
        Operator::Minus => a.wrapping_sub(b),
        Operator::Multiply => a.wrapping_mul(b),
        Operator::Equals => if a == b {
            1
        } else {
            0
        },
        Operator::MoreThan => if a > b {
            1
        } else {
            0
        },
        Operator::LessThan => if a < b {
            1
        } else {
            0
        },
    }
}

} // verus!
