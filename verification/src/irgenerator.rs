//! The code generator: lowers the AST to a control-flow graph of basic
//! blocks in the target IR, through the trusted builder boundary in
//! `llvm_api`. The builder's handles are opaque, so the generator keeps its
//! own model of everything its decisions depend on: the name-to-slot
//! table, the set of declared function names, whether the formatting
//! routine is declared, and counters for slots, temporaries and blocks,
//! together with a ghost trace of every operation it asks the builder for.
//!
//! The spec-level model is `sp_gen_stmt` / `sp_gen_expr` over `GenStateV`.
//! Each generator method is proved to either report that the builder
//! rejected an operation, or to leave the model state and produce the
//! result value exactly as the model says. Whatever the outcome, the
//! ghost trace only grows (`trace_extends`), and on the fragment whose
//! generation asks the builder for nothing it could reject
//! (`infallible_stmt`) success is promised outright.
use vstd::prelude::*;

use inkwell::builder::Builder;
use inkwell::context::Context;
use inkwell::module::Module;
use inkwell::values::FunctionValue;
use inkwell::values::IntValue;
use inkwell::values::PointerValue;

use crate::ast::Expr;
use crate::ast::ExprV;
use crate::ast::Operator;
use crate::ast::Statement;
use crate::ast::StmtV;
use crate::ast::exprs_view;
use crate::ast::lemma_exprs_view_index;
use crate::ast::lemma_stmts_view_index;
use crate::ast::stmts_view;
use crate::llvm_api::append_block;
use crate::llvm_api::build_add;
use crate::llvm_api::build_br;
use crate::llvm_api::build_call_ints;
use crate::llvm_api::build_cmp_eq;
use crate::llvm_api::build_cmp_sgt;
use crate::llvm_api::build_cmp_slt;
use crate::llvm_api::build_cond_br;
use crate::llvm_api::build_global_string;
use crate::llvm_api::build_load_int;
use crate::llvm_api::build_mul;
use crate::llvm_api::build_printf_call;
use crate::llvm_api::build_return_int;
use crate::llvm_api::build_return_void;
use crate::llvm_api::build_store_val;
use crate::llvm_api::build_sub;
use crate::llvm_api::const_i32;
use crate::llvm_api::copy_fn_value;
use crate::llvm_api::copy_ptr_value;
use crate::llvm_api::create_builder;
use crate::llvm_api::create_module;
use crate::llvm_api::declare_i32_function;
use crate::llvm_api::declare_varargs_printf;
use crate::llvm_api::entry_block_alloca;
use crate::llvm_api::position_at_end;

verus! {

broadcast use {vstd::seq::axiom_seq_index_decreases, vstd::seq::axiom_seq_subrange_decreases};

/// A generation failure. A missing variable slot or a call to an
/// undeclared function name marks an ill-formed program and is fatal; the
/// generator reports it instead of emitting anything for the node.
/// `Builder` is a rejection from the IR builder itself, which marks a
/// generator defect, not a user-program error.
#[derive(Debug, Clone, Copy, PartialEq, Eq, Structural)]
pub enum GenError {
    MissingVariable,
    MissingFunction,
    Builder,
}

/// A value in the generated code, as the model sees it: a 32-bit constant
/// produced from a literal, or the numbered result of a value-producing
/// instruction.
pub enum ValueV {
    Const(i64),
    Temp(nat),
}

/// One operation asked of the IR builder, as the model sees it. Slots,
/// temporaries and blocks are numbered in order of creation.
pub enum EmitV {
    /// A parameterless 32-bit function declared under a name.
    DeclareFn(Seq<char>),
    /// The variadic formatting routine declared, at most once per module.
    DeclarePrintf,
    /// A basic block appended.
    NewBlock(nat),
    /// The builder positioned at the end of a block: later instructions go
    /// there.
    Position(nat),
    /// A stack slot allocated in the function's entry block.
    Alloca(nat),
    /// A value stored to a slot.
    Store(nat, ValueV),
    /// A slot read; the result is the next temporary.
    Load(nat),
    /// An arithmetic or comparison instruction; the result is the next
    /// temporary.
    Arith(Operator, ValueV, ValueV),
    /// A conditional branch on the value to the two blocks.
    CondBr(ValueV, nat, nat),
    /// An unconditional branch to a block.
    Br(nat),
    /// The format string interned; its pointer is the next temporary.
    PrintfFmt,
    /// The formatting routine called on a value.
    PrintfCall(ValueV),
    /// A named function called on argument values; the result is the next
    /// temporary.
    Call(Seq<char>, Seq<ValueV>),
    /// A return, with or without a value.
    Ret(Option<ValueV>),
}

/// The generator's model state: the slot table, the counters, the set of
/// function names declared in the module, whether the formatting routine
/// is among them, and the trace of operations asked of the builder.
pub struct GenStateV {
    pub vars: Map<Seq<char>, nat>,
    pub next_slot: nat,
    pub next_temp: nat,
    pub next_block: nat,
    pub funcs: Set<Seq<char>>,
    pub printf: bool,
    pub emits: Seq<EmitV>,
}

/// Record one operation that produces no value.
pub open spec fn emit(g: GenStateV, e: EmitV) -> GenStateV {
    GenStateV {
        vars: g.vars,
        next_slot: g.next_slot,
        next_temp: g.next_temp,
        next_block: g.next_block,
        funcs: g.funcs,
        printf: g.printf,
        emits: g.emits.push(e),
    }
}

/// Record one value-producing operation; its result is `Temp(g.next_temp)`.
pub open spec fn emit_temp(g: GenStateV, e: EmitV) -> GenStateV {
    GenStateV {
        vars: g.vars,
        next_slot: g.next_slot,
        next_temp: g.next_temp + 1,
        next_block: g.next_block,
        funcs: g.funcs,
        printf: g.printf,
        emits: g.emits.push(e),
    }
}

/// The trace only ever grows: `post` is `pre` with zero or more
/// operations appended. Every generator method keeps this, whatever the
/// outcome, so even a reported builder rejection cannot rewrite history.
pub open spec fn trace_extends(pre: Seq<EmitV>, post: Seq<EmitV>) -> bool {
    pre.len() <= post.len() && forall|i: int| 0 <= i < pre.len() ==> pre[i] == #[trigger] post[i]
}

/// An expression whose generation asks the builder for nothing it could
/// reject: an integer literal becomes a constant, not an instruction.
pub open spec fn infallible_expr(e: ExprV) -> bool {
    e is Integer
}

/// A statement whose generation asks the builder for nothing it could
/// reject: an integer-literal expression, or a block of such statements.
/// On this fragment the generator promises success.
pub open spec fn infallible_stmt(s: StmtV) -> bool
    decreases s,
{
    match s {
        StmtV::Expression(e) => infallible_expr(e),
        StmtV::Block(ss) => infallible_stmts(ss),
        _ => false,
    }
}

/// Every statement of the sequence is infallible to generate.
pub open spec fn infallible_stmts(ss: Seq<StmtV>) -> bool
    decreases ss,
{
    ss.len() == 0 || (infallible_stmt(ss[0]) && infallible_stmts(ss.drop_first()))
}

/// What generating an expression does to the model: the operations traced
/// and the value that stands for the expression's result.
pub open spec fn sp_gen_expr(g: GenStateV, e: ExprV) -> (GenStateV, Result<ValueV, GenError>)
    decreases e, 0int,
{
    match e {
        ExprV::Integer(v) => (g, Ok(ValueV::Const(v))),
        ExprV::BinaryOp(l, op, r) => {
            let (g1, r1) = sp_gen_expr(g, *l);
            match r1 {
                Result::Err(e1) => (g1, Err(e1)),
                Result::Ok(a) => {
                    let (g2, r2) = sp_gen_expr(g1, *r);
                    match r2 {
                        Result::Err(e2) => (g2, Err(e2)),
                        Result::Ok(b) => (
                            emit_temp(g2, EmitV::Arith(op, a, b)),
                            Ok(ValueV::Temp(g2.next_temp)),
                        ),
                    }
                },
            }
        },
        ExprV::Variable(name) => {
            if g.vars.dom().contains(name) {
                (emit_temp(g, EmitV::Load(g.vars[name])), Ok(ValueV::Temp(g.next_temp)))
            } else {
                (g, Err(GenError::MissingVariable))
            }
        },
        ExprV::Assign(name, v) => {
            let (g1, r1) = sp_gen_expr(g, *v);
            match r1 {
                Result::Err(e1) => (g1, Err(e1)),
                Result::Ok(val) => {
                    if g1.vars.dom().contains(name) {
                        (emit(g1, EmitV::Store(g1.vars[name], val)), Ok(val))
                    } else {
                        (g1, Err(GenError::MissingVariable))
                    }
                },
            }
        },
        // A conditional lowers identically in its expression and statement
        // forms: three fresh blocks, a conditional branch, each branch closed
        // by a jump to the continue block; the value is a zero placeholder.
        ExprV::If(c, tb, eb) => {
            let (g1, r1) = sp_gen_expr(g, *c);
            match r1 {
                Result::Err(e1) => (g1, Err(e1)),
                Result::Ok(cv) => {
                    let b = g1.next_block;
                    let g2 = GenStateV {
                        vars: g1.vars,
                        next_slot: g1.next_slot,
                        next_temp: g1.next_temp,
                        next_block: b + 3,
                        funcs: g1.funcs,
                        printf: g1.printf,
                        emits: g1.emits + seq![
                            EmitV::NewBlock(b),
                            EmitV::NewBlock(b + 1),
                            EmitV::NewBlock(b + 2),
                            EmitV::CondBr(cv, b, b + 1),
                            EmitV::Position(b),
                        ],
                    };
                    let (g3, r3) = sp_gen_stmt(g2, *tb);
                    match r3 {
                        Result::Err(e3) => (g3, Err(e3)),
                        Result::Ok(_) => {
                            let g4 = emit(emit(g3, EmitV::Br(b + 2)), EmitV::Position(b + 1));
                            match eb {
                                Some(s2) => {
                                    let (g5, r5) = sp_gen_stmt(g4, *s2);
                                    match r5 {
                                        Result::Err(e5) => (g5, Err(e5)),
                                        Result::Ok(_) => (
                                            emit(
                                                emit(g5, EmitV::Br(b + 2)),
                                                EmitV::Position(b + 2),
                                            ),
                                            Ok(ValueV::Const(0)),
                                        ),
                                    }
                                },
                                None => (
                                    emit(emit(g4, EmitV::Br(b + 2)), EmitV::Position(b + 2)),
                                    Ok(ValueV::Const(0)),
                                ),
                            }
                        },
                    }
                },
            }
        },
        ExprV::FunctionCall(name, args) => {
            if g.funcs.contains(name) {
                let (g1, r1) = sp_gen_args(g, args);
                match r1 {
                    Result::Err(e1) => (g1, Err(e1)),
                    Result::Ok(vals) => (
                        emit_temp(g1, EmitV::Call(name, vals)),
                        Ok(ValueV::Temp(g1.next_temp)),
                    ),
                }
            } else {
                (g, Err(GenError::MissingFunction))
            }
        },
    }
}

/// Generating a call's arguments left to right.
pub open spec fn sp_gen_args(g: GenStateV, es: Seq<ExprV>) -> (GenStateV, Result<
    Seq<ValueV>,
    GenError,
>)
    decreases es, 0int,
{
    if es.len() == 0 {
        (g, Ok(Seq::empty()))
    } else {
        let (g1, r1) = sp_gen_expr(g, es[0]);
        match r1 {
            Result::Err(e1) => (g1, Err(e1)),
            Result::Ok(v) => {
                let (g2, r2) = sp_gen_args(g1, es.drop_first());
                match r2 {
                    Result::Err(e2) => (g2, Err(e2)),
                    Result::Ok(rest) => (g2, Ok(seq![v] + rest)),
                }
            },
        }
    }
}

/// What generating a declaration does to the model: one fresh stack slot
/// allocated in the entry block and bound to the name (shadowing any
/// earlier slot of that name), the initializer generated, and its value
/// stored to the slot.
pub open spec fn sp_gen_decl(g: GenStateV, name: Seq<char>, e: ExprV) -> (GenStateV, Result<
    (),
    GenError,
>)
    decreases e, 1int,
{
    let slot = g.next_slot;
    let g1 = GenStateV {
        vars: g.vars.insert(name, slot),
        next_slot: slot + 1,
        next_temp: g.next_temp,
        next_block: g.next_block,
        funcs: g.funcs,
        printf: g.printf,
        emits: g.emits.push(EmitV::Alloca(slot)),
    };
    let (g2, r2) = sp_gen_expr(g1, e);
    match r2 {
        Result::Err(e2) => (g2, Err(e2)),
        Result::Ok(v) => (emit(g2, EmitV::Store(slot, v)), Ok(())),
    }
}

/// What generating a statement does to the model, and the value that
/// stands for it: expressions their own value, assignments the stored
/// value, and every other statement a constant zero placeholder.
pub open spec fn sp_gen_stmt(g: GenStateV, s: StmtV) -> (GenStateV, Result<ValueV, GenError>)
    decreases s, 1int,
{
    match s {
        StmtV::Expression(e) => sp_gen_expr(g, e),
        StmtV::Declaration(name, e) => {
            let (g1, r1) = sp_gen_decl(g, name, e);
            match r1 {
                Result::Err(e1) => (g1, Err(e1)),
                Result::Ok(_) => (g1, Ok(ValueV::Const(0))),
            }
        },
        StmtV::Assignment(name, e) => {
            let (g1, r1) = sp_gen_expr(g, e);
            match r1 {
                Result::Err(e1) => (g1, Err(e1)),
                Result::Ok(v) => {
                    if g1.vars.dom().contains(name) {
                        (emit(g1, EmitV::Store(g1.vars[name], v)), Ok(v))
                    } else {
                        (g1, Err(GenError::MissingVariable))
                    }
                },
            }
        },
        StmtV::Print(e) => {
            let g0 = if g.printf {
                g
            } else {
                GenStateV {
                    vars: g.vars,
                    next_slot: g.next_slot,
                    next_temp: g.next_temp,
                    next_block: g.next_block,
                    funcs: g.funcs.insert("printf"@),
                    printf: true,
                    emits: g.emits.push(EmitV::DeclarePrintf),
                }
            };
            let (g1, r1) = sp_gen_expr(g0, e);
            match r1 {
                Result::Err(e1) => (g1, Err(e1)),
                Result::Ok(v) => {
                    let g2 = emit_temp(g1, EmitV::PrintfFmt);
                    (emit(g2, EmitV::PrintfCall(v)), Ok(ValueV::Const(0)))
                },
            }
        },
        StmtV::Block(ss) => {
            let (g1, r1) = sp_gen_block(g, ss);
            match r1 {
                Result::Err(e1) => (g1, Err(e1)),
                Result::Ok(_) => (g1, Ok(ValueV::Const(0))),
            }
        },
        // Identical to the expression form of the conditional.
        StmtV::If(c, tb, eb) => {
            let (g1, r1) = sp_gen_expr(g, *c);
            match r1 {
                Result::Err(e1) => (g1, Err(e1)),
                Result::Ok(cv) => {
                    let b = g1.next_block;
                    let g2 = GenStateV {
                        vars: g1.vars,
                        next_slot: g1.next_slot,
                        next_temp: g1.next_temp,
                        next_block: b + 3,
                        funcs: g1.funcs,
                        printf: g1.printf,
                        emits: g1.emits + seq![
                            EmitV::NewBlock(b),
                            EmitV::NewBlock(b + 1),
                            EmitV::NewBlock(b + 2),
                            EmitV::CondBr(cv, b, b + 1),
                            EmitV::Position(b),
                        ],
                    };
                    let (g3, r3) = sp_gen_stmt(g2, *tb);
                    match r3 {
                        Result::Err(e3) => (g3, Err(e3)),
                        Result::Ok(_) => {
                            let g4 = emit(emit(g3, EmitV::Br(b + 2)), EmitV::Position(b + 1));
                            match eb {
                                Some(s2) => {
                                    let (g5, r5) = sp_gen_stmt(g4, *s2);
                                    match r5 {
                                        Result::Err(e5) => (g5, Err(e5)),
                                        Result::Ok(_) => (
                                            emit(
                                                emit(g5, EmitV::Br(b + 2)),
                                                EmitV::Position(b + 2),
                                            ),
                                            Ok(ValueV::Const(0)),
                                        ),
                                    }
                                },
                                None => (
                                    emit(emit(g4, EmitV::Br(b + 2)), EmitV::Position(b + 2)),
                                    Ok(ValueV::Const(0)),
                                ),
                            }
                        },
                    }
                },
            }
        },
        StmtV::Function(f) => {
            let g1 = GenStateV {
                vars: g.vars,
                next_slot: g.next_slot,
                next_temp: g.next_temp,
                next_block: g.next_block,
                funcs: g.funcs.insert(f.name),
                printf: g.printf,
                emits: g.emits.push(EmitV::DeclareFn(f.name)),
            };
            let (g2, r2) = sp_gen_body(g1, f.body);
            match r2 {
                Result::Err(e2) => (g2, Err(e2)),
                Result::Ok(last) => (emit(g2, EmitV::Ret(last)), Ok(ValueV::Const(0))),
            }
        },
    }
}

/// Generating a block's statements in order; each statement's value is
/// discarded.
pub open spec fn sp_gen_block(g: GenStateV, ss: Seq<StmtV>) -> (GenStateV, Result<(), GenError>)
    decreases ss, 0int,
{
    if ss.len() == 0 {
        (g, Ok(()))
    } else {
        let (g1, r1) = sp_gen_stmt(g, ss[0]);
        match r1 {
            Result::Err(e1) => (g1, Err(e1)),
            Result::Ok(_) => sp_gen_block(g1, ss.drop_first()),
        }
    }
}

/// Generating a function body's statements in order, keeping the last
/// statement's value for the function's return; `None` when the body is
/// empty.
pub open spec fn sp_gen_body(g: GenStateV, ss: Seq<StmtV>) -> (GenStateV, Result<
    Option<ValueV>,
    GenError,
>)
    decreases ss, 0int,
{
    if ss.len() == 0 {
        (g, Ok(None))
    } else {
        let (g1, r1) = sp_gen_stmt(g, ss[0]);
        match r1 {
            Result::Err(e1) => (g1, Err(e1)),
            Result::Ok(v) => {
                if ss.len() == 1 {
                    (g1, Ok(Some(v)))
                } else {
                    sp_gen_body(g1, ss.drop_first())
                }
            },
        }
    }
}

/// The slot-reuse law: after a declaration allocates a slot for a name, a
/// later assignment to that name allocates no second slot and stores to
/// the declared slot, and a later reference loads that same slot.
pub proof fn lemma_generator_slot_reuse(g: GenStateV, name: Seq<char>, a: i64, b: i64)
    ensures
        ({
            let (g1, r1) = sp_gen_stmt(g, StmtV::Declaration(name, ExprV::Integer(a)));
            let (g2, r2) = sp_gen_stmt(g1, StmtV::Assignment(name, ExprV::Integer(b)));
            let (g3, r3) = sp_gen_expr(g2, ExprV::Variable(name));
            r1 is Ok && r2 is Ok && r3 is Ok && g1.vars[name] == g.next_slot && g2.next_slot
                == g1.next_slot && g2.vars == g1.vars && g2.emits == g1.emits.push(
                EmitV::Store(g.next_slot, ValueV::Const(b)),
            ) && g3.emits == g2.emits.push(EmitV::Load(g.next_slot))
        }),
{
    let slot = g.next_slot;
    let ga = GenStateV {
        vars: g.vars.insert(name, slot),
        next_slot: slot + 1,
        next_temp: g.next_temp,
        next_block: g.next_block,
        funcs: g.funcs,
        printf: g.printf,
        emits: g.emits.push(EmitV::Alloca(slot)),
    };
    assert(sp_gen_expr(ga, ExprV::Integer(a)) == (ga, Ok::<ValueV, GenError>(ValueV::Const(a))));
    assert(sp_gen_decl(g, name, ExprV::Integer(a)) == (
        emit(ga, EmitV::Store(slot, ValueV::Const(a))),
        Ok::<(), GenError>(()),
    ));
    let g1 = emit(ga, EmitV::Store(slot, ValueV::Const(a)));
    assert(g1.vars[name] == slot);
    assert(sp_gen_expr(g1, ExprV::Integer(b)) == (g1, Ok::<ValueV, GenError>(ValueV::Const(b))));
    let g2 = emit(g1, EmitV::Store(slot, ValueV::Const(b)));
    assert(sp_gen_stmt(g1, StmtV::Assignment(name, ExprV::Integer(b))) == (
        g2,
        Ok::<ValueV, GenError>(ValueV::Const(b)),
    ));
    assert(sp_gen_expr(g2, ExprV::Variable(name)) == (
        emit_temp(g2, EmitV::Load(slot)),
        Ok::<ValueV, GenError>(ValueV::Temp(g2.next_temp)),
    ));
}

/// The call-before-declare law: generating a call to a function name not
/// yet declared in the module is fatal, and nothing is emitted for it.
pub proof fn lemma_call_before_declare_fatal(g: GenStateV, name: Seq<char>, args: Seq<ExprV>)
    requires
        !g.funcs.contains(name),
    ensures
        sp_gen_expr(g, ExprV::FunctionCall(name, args)) == (
            g,
            Err::<ValueV, GenError>(GenError::MissingFunction),
        ),
{
}

/// The slot map a slot-entry list denotes: later entries win. Each entry
/// carries the opaque slot pointer and the ghost slot number the model
/// speaks of.
spec fn slots_map(s: Seq<(String, PointerValue, Ghost<nat>)>) -> Map<Seq<char>, nat>
    decreases s.len(),
{
    if s.len() == 0 {
        Map::empty()
    } else {
        slots_map(s.drop_last()).insert(s.last().0@, s.last().2@)
    }
}

/// Membership and value of `slots_map`: a name is present exactly when
/// some entry carries it, and the slot is the last such entry's.
proof fn lemma_slots_map_get(s: Seq<(String, PointerValue, Ghost<nat>)>, k: Seq<char>)
    ensures
        slots_map(s).dom().contains(k) <==> (exists|i: int|
            0 <= i < s.len() && #[trigger] s[i].0@ == k),
        forall|i: int|
            (0 <= i < s.len() && #[trigger] s[i].0@ == k && (forall|j: int|
                i < j < s.len() ==> s[j].0@ != k)) ==> slots_map(s).dom().contains(k)
                && slots_map(s)[k] == s[i].2@,
    decreases s.len(),
{
    if s.len() > 0 {
        lemma_slots_map_get(s.drop_last(), k);
        assert forall|i: int| 0 <= i < s.len() - 1 && #[trigger] s.drop_last()[i].0@ == k implies s[i].0@
            == k by {}
        assert forall|i: int| 0 <= i < s.len() - 1 && #[trigger] s[i].0@ == k implies s.drop_last()[i].0@
            == k by {}
    }
}

/// The set of function names a function-entry list declares.
spec fn fn_names(s: Seq<(String, FunctionValue)>) -> Set<Seq<char>>
    decreases s.len(),
{
    if s.len() == 0 {
        Set::empty()
    } else {
        fn_names(s.drop_last()).insert(s.last().0@)
    }
}

/// Membership of `fn_names`: a name is declared exactly when some entry
/// carries it.
proof fn lemma_fn_names_get(s: Seq<(String, FunctionValue)>, k: Seq<char>)
    ensures
        fn_names(s).contains(k) <==> (exists|i: int| 0 <= i < s.len() && #[trigger] s[i].0@ == k),
    decreases s.len(),
{
    if s.len() > 0 {
        lemma_fn_names_get(s.drop_last(), k);
        assert forall|i: int| 0 <= i < s.len() - 1 && #[trigger] s.drop_last()[i].0@ == k implies s[i].0@
            == k by {}
        assert forall|i: int| 0 <= i < s.len() - 1 && #[trigger] s[i].0@ == k implies s.drop_last()[i].0@
            == k by {}
    }
}

/// The code generator. Besides the opaque module, builder and handle
/// tables, it carries the ghost counters and trace that make up its model
/// state.
pub struct IRGenerator<'ctx> {
    context: &'ctx Context,
    module: Module<'ctx>,
    builder: Builder<'ctx>,
    variables: Vec<(String, PointerValue<'ctx>, Ghost<nat>)>,
    functions: Vec<(String, FunctionValue<'ctx>)>,
    printf_func: Option<FunctionValue<'ctx>>,
    next_slot: Ghost<nat>,
    next_temp: Ghost<nat>,
    next_block: Ghost<nat>,
    emits: Ghost<Seq<EmitV>>,
}

impl<'ctx> IRGenerator<'ctx> {
    /// The generator's state as the model sees it.
    pub closed spec fn st(&self) -> GenStateV {
        GenStateV {
            vars: slots_map(self.variables@),
            next_slot: self.next_slot@,
            next_temp: self.next_temp@,
            next_block: self.next_block@,
            funcs: fn_names(self.functions@),
            printf: self.printf_func is Some,
            emits: self.emits@,
        }
    }

    /// A fresh generator over one module: no slots, no declared functions,
    /// no formatting routine, an empty trace.
    pub fn new(context: &'ctx Context) -> (r: IRGenerator<'ctx>)
        ensures
            r.st() == (GenStateV {
                vars: Map::<Seq<char>, nat>::empty(),
                next_slot: 0,
                next_temp: 0,
                next_block: 0,
                funcs: Set::<Seq<char>>::empty(),
                printf: false,
                emits: Seq::<EmitV>::empty(),
            }),
    {
        let module = create_module(context, "main");
        let builder = create_builder(context);
        IRGenerator {
            context,
            module,
            builder,
            variables: Vec::new(),
            functions: Vec::new(),
            printf_func: None,
            next_slot: Ghost(0),
            next_temp: Ghost(0),
            next_block: Ghost(0),
            emits: Ghost(Seq::empty()),
        }
    }

    /// The module being generated, for the caller to serialize.
    pub fn get_module(&self) -> &Module<'ctx> {
        &self.module
    }

    /// Declare a parameterless 32-bit function under `name` in the module
    /// and hand its handle out; the host's entry function is declared this
    /// way before anything is generated.
    pub fn declare_function(&mut self, name: &str) -> (f: FunctionValue<'ctx>)
        ensures
            final(self).st() == (GenStateV {
                funcs: old(self).st().funcs.insert(name@),
                emits: old(self).st().emits.push(EmitV::DeclareFn(name@)),
                ..old(self).st()
            }),
    {
        let f = declare_i32_function(self.context, &self.module, name);
        let f_out = copy_fn_value(&f);
        let ghost pre = self.functions@;
        self.functions.push((String::from_str(name), f));
        proof {
            assert(self.functions@.drop_last() =~= pre);
            self.emits@ = self.emits@.push(EmitV::DeclareFn(name@));
        }
        f_out
    }

    /// Append the entry block to the function and position the builder
    /// there, so that generation starts in it.
    pub fn initialize_entry_block(&mut self, function: &FunctionValue<'ctx>)
        ensures
            final(self).st() == (GenStateV {
                next_block: old(self).st().next_block + 1,
                emits: old(self).st().emits + seq![
                    EmitV::NewBlock(old(self).st().next_block),
                    EmitV::Position(old(self).st().next_block),
                ],
                ..old(self).st()
            }),
    {
        let entry_block = append_block(self.context, function, "entry");
        position_at_end(&self.builder, &entry_block);
        proof {
            self.emits@ = self.emits@ + seq![
                EmitV::NewBlock(self.next_block@),
                EmitV::Position(self.next_block@),
            ];
            self.next_block@ = self.next_block@ + 1;
        }
    }

    /// Emit the function's return of `value`. The value's model is the
    /// caller's business, so the trace records a return of some value.
    pub fn build_return(&mut self, value: IntValue<'ctx>) -> (r: Result<(), GenError>)
        ensures
            match r {
                Ok(_) => exists|v: ValueV|
                    final(self).st() == emit(old(self).st(), EmitV::Ret(Some(v))),
                Err(e) => e == GenError::Builder && final(self).st() == old(self).st(),
            },
    {
        if build_return_int(&self.builder, &value) {
            proof {
                self.emits@ = self.emits@.push(EmitV::Ret(Some(ValueV::Const(0))));
                assert(self.st() == emit(old(self).st(), EmitV::Ret(Some(ValueV::Const(0)))));
            }
            Ok(())
        } else {
            Err(GenError::Builder)
        }
    }

    /// The slot pointer and ghost slot number bound to `name`, if any.
    fn lookup_slot(&self, name: &String) -> (r: Option<(PointerValue<'ctx>, Ghost<nat>)>)
        ensures
            match r {
                Some(p) => self.st().vars.dom().contains(name@) && self.st().vars[name@] == p.1@,
                None => !self.st().vars.dom().contains(name@),
            },
    {
        let mut idx = self.variables.len();
        while idx > 0
            invariant
                idx <= self.variables.len(),
                forall|j: int|
                    idx <= j < self.variables@.len() ==> #[trigger] self.variables@[j].0@ != name@,
            decreases idx,
        {
            idx = idx - 1;
            let (ename, ptr, id) = &self.variables[idx];
            if ename.eq(name) {
                proof {
                    lemma_slots_map_get(self.variables@, name@);
                }
                return Some((copy_ptr_value(ptr), *id));
            }
        }
        proof {
            lemma_slots_map_get(self.variables@, name@);
        }
        None
    }

    /// The handle of the module function declared under `name`, if any.
    fn lookup_function(&self, name: &String) -> (r: Option<FunctionValue<'ctx>>)
        ensures
            r is Some <==> self.st().funcs.contains(name@),
    {
        let mut idx = self.functions.len();
        while idx > 0
            invariant
                idx <= self.functions.len(),
                forall|j: int|
                    idx <= j < self.functions@.len() ==> #[trigger] self.functions@[j].0@ != name@,
            decreases idx,
        {
            idx = idx - 1;
            let (ename, f) = &self.functions[idx];
            if ename.eq(name) {
                proof {
                    lemma_fn_names_get(self.functions@, name@);
                }
                return Some(copy_fn_value(f));
            }
        }
        proof {
            lemma_fn_names_get(self.functions@, name@);
        }
        None
    }

    /// The formatting routine's handle, declared in the module on first
    /// use and reused afterwards.
    fn get_printf_function(&mut self) -> (f: FunctionValue<'ctx>)
        ensures
            trace_extends(old(self).st().emits, final(self).st().emits),
            final(self).st() == (if old(self).st().printf {
                old(self).st()
            } else {
                GenStateV {
                    funcs: old(self).st().funcs.insert("printf"@),
                    printf: true,
                    emits: old(self).st().emits.push(EmitV::DeclarePrintf),
                    ..old(self).st()
                }
            }),
    {
        match &self.printf_func {
            Some(f) => copy_fn_value(f),
            None => {
                let f = declare_varargs_printf(self.context, &self.module, "printf");
                let f_out = copy_fn_value(&f);
                self.printf_func = Some(copy_fn_value(&f));
                let ghost pre = self.functions@;
                self.functions.push((String::from_str("printf"), f));
                proof {
                    assert(self.functions@.drop_last() =~= pre);
                    self.emits@ = self.emits@.push(EmitV::DeclarePrintf);
                }
                f_out
            },
        }
    }

    /// Lower one binary operation onto already generated operand values;
    /// the result is the next temporary, exactly as the model's `Arith`
    /// step says.
    fn build_binary_op(
        &mut self,
        left_val: &IntValue<'ctx>,
        Ghost(lv): Ghost<ValueV>,
        right_val: &IntValue<'ctx>,
        Ghost(rv): Ghost<ValueV>,
        op: &Operator,
    ) -> (r: Result<(IntValue<'ctx>, Ghost<ValueV>), GenError>)
        ensures
            match r {
                Ok(p) => final(self).st() == emit_temp(
                    old(self).st(),
                    EmitV::Arith(*op, lv, rv),
                ) && p.1@ == ValueV::Temp(old(self).st().next_temp),
                Err(e) => e == GenError::Builder && final(self).st() == old(self).st(),
            },
    {
        let result = match op {
            Operator::Plus => build_add(&self.builder, left_val, right_val),
            Operator::Minus => build_sub(&self.builder, left_val, right_val),
            Operator::Multiply => build_mul(&self.builder, left_val, right_val),
            Operator::Equals => build_cmp_eq(&self.builder, left_val, right_val),
            Operator::MoreThan => build_cmp_sgt(&self.builder, left_val, right_val),
            Operator::LessThan => build_cmp_slt(&self.builder, left_val, right_val),
        };
        match result {
            Some(iv) => {
                let ghost t = self.next_temp@;
                proof {
                    self.emits@ = self.emits@.push(EmitV::Arith(*op, lv, rv));
                    self.next_temp@ = t + 1;
                }
                Ok((iv, Ghost(ValueV::Temp(t))))
            },
            None => Err(GenError::Builder),
        }
    }

    /// Lower a declaration: allocate one fresh stack slot in the
    /// function's entry block, bind the name to it, generate the
    /// initializer and store its value, exactly as `sp_gen_decl` says
    /// unless the builder rejects an operation.
    fn generate_declaration_ir(
        &mut self,
        name: &String,
        expr: &Expr,
        function: &FunctionValue<'ctx>,
    ) -> (r: Result<(), GenError>)
        ensures
            trace_extends(old(self).st().emits, final(self).st().emits),
            (r matches Err(e2) && e2 == GenError::Builder) || ({
                let (g2, rr) = sp_gen_decl(old(self).st(), name@, expr@);
                final(self).st() == g2 && match (r, rr) {
                    (Ok(_), Ok(_)) => true,
                    (Err(a), Err(b)) => a == b,
                    _ => false,
                }
            }),
        decreases expr, 1int,
    {
        let alloca = match entry_block_alloca(self.context, function, name.as_str()) {
            Some(ptr) => ptr,
            None => {
                return Err(GenError::Builder);
            },
        };
        let ghost slot = self.next_slot@;
        let ghost pre = self.variables@;
        let ptr_copy = copy_ptr_value(&alloca);
        self.variables.push((name.clone(), ptr_copy, Ghost(slot)));
        proof {
            assert(self.variables@.drop_last() =~= pre);
            self.next_slot@ = slot + 1;
            self.emits@ = self.emits@.push(EmitV::Alloca(slot));
        }
        let value = match self.generate_ir_inner(expr, function) {
            Err(e) => {
                return Err(e);
            },
            Ok(p) => p,
        };
        if build_store_val(&self.builder, &alloca, &value.0) {
            proof {
                self.emits@ = self.emits@.push(EmitV::Store(slot, value.1@));
            }
            Ok(())
        } else {
            Err(GenError::Builder)
        }
    }

    /// Generate a call's arguments from index `i` on, left to right.
    fn gen_args_from(
        &mut self,
        args: &Vec<Expr>,
        i: usize,
        function: &FunctionValue<'ctx>,
    ) -> (r: Result<(Vec<IntValue<'ctx>>, Ghost<Seq<ValueV>>), GenError>)
        requires
            i <= args@.len(),
        ensures
            trace_extends(old(self).st().emits, final(self).st().emits),
            (r matches Err(e2) && e2 == GenError::Builder) || ({
                let (g2, rr) = sp_gen_args(old(self).st(), exprs_view(args@).skip(i as int));
                final(self).st() == g2 && match (r, rr) {
                    (Ok(p), Ok(vals)) => p.1@ == vals,
                    (Err(a), Err(b)) => a == b,
                    _ => false,
                }
            }),
        decreases args, args@.len() - i,
    {
        proof {
            crate::ast::lemma_exprs_view_len(args@);
        }
        if i == args.len() {
            proof {
                assert(exprs_view(args@).skip(i as int) =~= Seq::<ExprV>::empty());
            }
            Ok((Vec::new(), Ghost(Seq::empty())))
        } else {
            proof {
                lemma_exprs_view_index(args@, i as int);
                assert(exprs_view(args@).skip(i as int)[0] == exprs_view(args@)[i as int]);
                assert(exprs_view(args@).skip(i as int).drop_first() =~= exprs_view(args@).skip(
                    i as int + 1,
                ));
            }
            let v = match self.generate_ir_inner(&args[i], function) {
                Err(e) => {
                    return Err(e);
                },
                Ok(p) => p,
            };
            match self.gen_args_from(args, i + 1, function) {
                Err(e) => Err(e),
                Ok((mut ivs, gvs)) => {
                    let ghost rest = gvs@;
                    ivs.insert(0, v.0);
                    Ok((ivs, Ghost(seq![v.1@] + rest)))
                },
            }
        }
    }

    /// Generate a block's statements from index `i` on, discarding each
    /// statement's value.
    fn gen_block_from(
        &mut self,
        statements: &Vec<Statement>,
        i: usize,
        function: &FunctionValue<'ctx>,
    ) -> (r: Result<(), GenError>)
        requires
            i <= statements@.len(),
        ensures
            infallible_stmts(stmts_view(statements@).skip(i as int)) ==> r is Ok,
            trace_extends(old(self).st().emits, final(self).st().emits),
            (r matches Err(e2) && e2 == GenError::Builder) || ({
                let (g2, rr) = sp_gen_block(old(self).st(), stmts_view(statements@).skip(i as int));
                final(self).st() == g2 && match (r, rr) {
                    (Ok(_), Ok(_)) => true,
                    (Err(a), Err(b)) => a == b,
                    _ => false,
                }
            }),
        decreases statements, statements@.len() - i,
    {
        proof {
            crate::ast::lemma_stmts_view_len(statements@);
        }
        if i == statements.len() {
            Ok(())
        } else {
            proof {
                lemma_stmts_view_index(statements@, i as int);
                assert(stmts_view(statements@).skip(i as int)[0] == stmts_view(statements@)[
                    i as int
                ]);
                assert(stmts_view(statements@).skip(i as int).drop_first() =~= stmts_view(
                    statements@,
                ).skip(i as int + 1));
            }
            match self.generate_ir_for_statement(&statements[i], function) {
                Err(e) => Err(e),
                Ok(_) => self.gen_block_from(statements, i + 1, function),
            }
        }
    }

    /// Generate a function body's statements from index `i` on, keeping
    /// the last statement's value for the function's return.
    fn gen_body_from(
        &mut self,
        statements: &Vec<Statement>,
        i: usize,
        function: &FunctionValue<'ctx>,
    ) -> (r: Result<Option<(IntValue<'ctx>, Ghost<ValueV>)>, GenError>)
        requires
            i <= statements@.len(),
        ensures
            trace_extends(old(self).st().emits, final(self).st().emits),
            (r matches Err(e2) && e2 == GenError::Builder) || ({
                let (g2, rr) = sp_gen_body(old(self).st(), stmts_view(statements@).skip(i as int));
                final(self).st() == g2 && match (r, rr) {
                    (Ok(Some(p)), Ok(Some(v))) => p.1@ == v,
                    (Ok(None), Ok(None)) => true,
                    (Err(a), Err(b)) => a == b,
                    _ => false,
                }
            }),
        decreases statements, statements@.len() - i,
    {
        proof {
            crate::ast::lemma_stmts_view_len(statements@);
        }
        if i == statements.len() {
            Ok(None)
        } else {
            proof {
                lemma_stmts_view_index(statements@, i as int);
                assert(stmts_view(statements@).skip(i as int)[0] == stmts_view(statements@)[
                    i as int
                ]);
                assert(stmts_view(statements@).skip(i as int).drop_first() =~= stmts_view(
                    statements@,
                ).skip(i as int + 1));
            }
            let v = match self.generate_ir_for_statement(&statements[i], function) {
                Err(e) => {
                    return Err(e);
                },
                Ok(p) => p,
            };
            if i + 1 == statements.len() {
                Ok(Some(v))
            } else {
                self.gen_body_from(statements, i + 1, function)
            }
        }
    }

    /// Generate the code for one statement, handing back the value that
    /// stands for it. Unless the IR builder rejects an operation, the
    /// model state afterwards and the value's model are exactly what
    /// `sp_gen_stmt` says; a missing variable slot or a call to an
    /// undeclared function is reported exactly where the model says.
    #[verifier::rlimit(100)]
    pub fn generate_ir_for_statement(
        &mut self,
        statement: &Statement,
        function: &FunctionValue<'ctx>,
    ) -> (r: Result<(IntValue<'ctx>, Ghost<ValueV>), GenError>)
        ensures
            infallible_stmt(statement@) ==> r is Ok,
            trace_extends(old(self).st().emits, final(self).st().emits),
            (r matches Err(e2) && e2 == GenError::Builder) || ({
                let (g2, rr) = sp_gen_stmt(old(self).st(), statement@);
                final(self).st() == g2 && match (r, rr) {
                    (Ok(p), Ok(v)) => p.1@ == v,
                    (Err(a), Err(b)) => a == b,
                    _ => false,
                }
            }),
        decreases statement, 1int,
    {
        match statement {
            Statement::Expression(expr) => self.generate_ir_inner(expr, function),
            Statement::Declaration(name, expr) => {
                match self.generate_declaration_ir(name, expr, function) {
                    Err(e) => Err(e),
                    Ok(_) => {
                        let zero = const_i32(self.context, 0);
                        Ok((zero, Ghost(ValueV::Const(0))))
                    },
                }
            },
            Statement::Assignment(name, expr) => {
                let value = match self.generate_ir_inner(expr, function) {
                    Err(e) => {
                        return Err(e);
                    },
                    Ok(p) => p,
                };
                match self.lookup_slot(name) {
                    None => Err(GenError::MissingVariable),
                    Some((ptr, id)) => {
                        if build_store_val(&self.builder, &ptr, &value.0) {
                            proof {
                                self.emits@ = self.emits@.push(EmitV::Store(id@, value.1@));
                            }
                            Ok(value)
                        } else {
                            Err(GenError::Builder)
                        }
                    },
                }
            },
            Statement::Print(expr) => {
                let printf_func = self.get_printf_function();
                let value = match self.generate_ir_inner(expr, function) {
                    Err(e) => {
                        return Err(e);
                    },
                    Ok(p) => p,
                };
                let format_str = match build_global_string(&self.builder, "%d\n", "fmt") {
                    Some(ptr) => ptr,
                    None => {
                        return Err(GenError::Builder);
                    },
                };
                proof {
                    self.emits@ = self.emits@.push(EmitV::PrintfFmt);
                    self.next_temp@ = self.next_temp@ + 1;
                }
                if !build_printf_call(&self.builder, &printf_func, &format_str, &value.0) {
                    return Err(GenError::Builder);
                }
                proof {
                    self.emits@ = self.emits@.push(EmitV::PrintfCall(value.1@));
                }
                let zero = const_i32(self.context, 0);
                Ok((zero, Ghost(ValueV::Const(0))))
            },
            Statement::Block(statements) => {
                proof {
                    assert(stmts_view(statements@).skip(0) =~= stmts_view(statements@));
                }
                match self.gen_block_from(statements, 0, function) {
                    Err(e) => Err(e),
                    Ok(_) => {
                        let zero = const_i32(self.context, 0);
                        Ok((zero, Ghost(ValueV::Const(0))))
                    },
                }
            },
            Statement::If(condition, then_branch, else_branch) => {
                let cond_val = match self.generate_ir_inner(&**condition, function) {
                    Err(e) => {
                        return Err(e);
                    },
                    Ok(p) => p,
                };
                let ghost b = self.next_block@;
                let then_block = append_block(self.context, function, "then");
                let else_block = append_block(self.context, function, "else");
                let continue_block = append_block(self.context, function, "ifcont");
                if !build_cond_br(&self.builder, &cond_val.0, &then_block, &else_block) {
                    return Err(GenError::Builder);
                }
                position_at_end(&self.builder, &then_block);
                proof {
                    self.next_block@ = b + 3;
                    self.emits@ = self.emits@ + seq![
                        EmitV::NewBlock(b),
                        EmitV::NewBlock(b + 1),
                        EmitV::NewBlock(b + 2),
                        EmitV::CondBr(cond_val.1@, b, b + 1),
                        EmitV::Position(b),
                    ];
                }
                match self.generate_ir_for_statement(&**then_branch, function) {
                    Err(e) => {
                        return Err(e);
                    },
                    Ok(_) => {},
                }
                if !build_br(&self.builder, &continue_block) {
                    return Err(GenError::Builder);
                }
                position_at_end(&self.builder, &else_block);
                proof {
                    self.emits@ = self.emits@.push(EmitV::Br(b + 2)).push(EmitV::Position(b + 1));
                }
                match else_branch {
                    Some(else_stmt) => {
                        match self.generate_ir_for_statement(&**else_stmt, function) {
                            Err(e) => {
                                return Err(e);
                            },
                            Ok(_) => {},
                        }
                    },
                    None => {},
                }
                if !build_br(&self.builder, &continue_block) {
                    return Err(GenError::Builder);
                }
                position_at_end(&self.builder, &continue_block);
                proof {
                    self.emits@ = self.emits@.push(EmitV::Br(b + 2)).push(EmitV::Position(b + 2));
                }
                let zero = const_i32(self.context, 0);
                Ok((zero, Ghost(ValueV::Const(0))))
            },
            Statement::Function(func) => {
                proof {
                    assert(crate::ast::func_view(*func).name == func.name@);
                    assert(crate::ast::func_view(*func).body == stmts_view(func.body@));
                }
                let f_val = declare_i32_function(self.context, &self.module, func.name.as_str());
                let f_copy = copy_fn_value(&f_val);
                let ghost pre = self.functions@;
                self.functions.push((func.name.clone(), f_val));
                proof {
                    assert(self.functions@.drop_last() =~= pre);
                    self.emits@ = self.emits@.push(EmitV::DeclareFn(func.name@));
                    assert(stmts_view(func.body@).skip(0) =~= stmts_view(func.body@));
                }
                let last = match self.gen_body_from(&func.body, 0, &f_copy) {
                    Err(e) => {
                        return Err(e);
                    },
                    Ok(l) => l,
                };
                match last {
                    Some(p) => {
                        if build_return_int(&self.builder, &p.0) {
                            proof {
                                self.emits@ = self.emits@.push(EmitV::Ret(Some(p.1@)));
                            }
                            let zero = const_i32(self.context, 0);
                            Ok((zero, Ghost(ValueV::Const(0))))
                        } else {
                            Err(GenError::Builder)
                        }
                    },
                    None => {
                        if build_return_void(&self.builder) {
                            proof {
                                self.emits@ = self.emits@.push(EmitV::Ret(None));
                            }
                            let zero = const_i32(self.context, 0);
                            Ok((zero, Ghost(ValueV::Const(0))))
                        } else {
                            Err(GenError::Builder)
                        }
                    },
                }
            },
        }
    }

    /// Generate the code for one expression, handing back the value that
    /// stands for its result. Unless the IR builder rejects an operation,
    /// the model state afterwards and the value's model are exactly what
    /// `sp_gen_expr` says.
    #[verifier::rlimit(100)]
    fn generate_ir_inner(
        &mut self,
        expr: &Expr,
        function: &FunctionValue<'ctx>,
    ) -> (r: Result<(IntValue<'ctx>, Ghost<ValueV>), GenError>)
        ensures
            infallible_expr(expr@) ==> r is Ok,
            trace_extends(old(self).st().emits, final(self).st().emits),
            (r matches Err(e2) && e2 == GenError::Builder) || ({
                let (g2, rr) = sp_gen_expr(old(self).st(), expr@);
                final(self).st() == g2 && match (r, rr) {
                    (Ok(p), Ok(v)) => p.1@ == v,
                    (Err(a), Err(b)) => a == b,
                    _ => false,
                }
            }),
        decreases expr, 0int,
    {
        match expr {
            Expr::Integer(value) => {
                let iv = const_i32(self.context, *value);
                Ok((iv, Ghost(ValueV::Const(*value))))
            },
            Expr::BinaryOp(left, op, right) => {
                let left_val = match self.generate_ir_inner(&**left, function) {
                    Err(e) => {
                        return Err(e);
                    },
                    Ok(p) => p,
                };
                let right_val = match self.generate_ir_inner(&**right, function) {
                    Err(e) => {
                        return Err(e);
                    },
                    Ok(p) => p,
                };
                self.build_binary_op(&left_val.0, left_val.1, &right_val.0, right_val.1, op)
            },
            Expr::Variable(name) => {
                match self.lookup_slot(name) {
                    None => Err(GenError::MissingVariable),
                    Some((ptr, id)) => {
                        match build_load_int(&self.builder, &ptr, name.as_str()) {
                            Some(iv) => {
                                let ghost t = self.next_temp@;
                                proof {
                                    self.emits@ = self.emits@.push(EmitV::Load(id@));
                                    self.next_temp@ = t + 1;
                                }
                                Ok((iv, Ghost(ValueV::Temp(t))))
                            },
                            None => Err(GenError::Builder),
                        }
                    },
                }
            },
            Expr::Assign(name, value_expr) => {
                let value = match self.generate_ir_inner(&**value_expr, function) {
                    Err(e) => {
                        return Err(e);
                    },
                    Ok(p) => p,
                };
                match self.lookup_slot(name) {
                    None => Err(GenError::MissingVariable),
                    Some((ptr, id)) => {
                        if build_store_val(&self.builder, &ptr, &value.0) {
                            proof {
                                self.emits@ = self.emits@.push(EmitV::Store(id@, value.1@));
                            }
                            Ok(value)
                        } else {
                            Err(GenError::Builder)
                        }
                    },
                }
            },
            Expr::If(condition, then_branch, else_branch) => {
                let cond_val = match self.generate_ir_inner(&**condition, function) {
                    Err(e) => {
                        return Err(e);
                    },
                    Ok(p) => p,
                };
                let ghost b = self.next_block@;
                let then_block = append_block(self.context, function, "then");
                let else_block = append_block(self.context, function, "else");
                let continue_block = append_block(self.context, function, "ifcont");
                if !build_cond_br(&self.builder, &cond_val.0, &then_block, &else_block) {
                    return Err(GenError::Builder);
                }
                position_at_end(&self.builder, &then_block);
                proof {
                    self.next_block@ = b + 3;
                    self.emits@ = self.emits@ + seq![
                        EmitV::NewBlock(b),
                        EmitV::NewBlock(b + 1),
                        EmitV::NewBlock(b + 2),
                        EmitV::CondBr(cond_val.1@, b, b + 1),
                        EmitV::Position(b),
                    ];
                }
                match self.generate_ir_for_statement(&**then_branch, function) {
                    Err(e) => {
                        return Err(e);
                    },
                    Ok(_) => {},
                }
                if !build_br(&self.builder, &continue_block) {
                    return Err(GenError::Builder);
                }
                position_at_end(&self.builder, &else_block);
                proof {
                    self.emits@ = self.emits@.push(EmitV::Br(b + 2)).push(EmitV::Position(b + 1));
                }
                match else_branch {
                    Some(else_stmt) => {
                        match self.generate_ir_for_statement(&**else_stmt, function) {
                            Err(e) => {
                                return Err(e);
                            },
                            Ok(_) => {},
                        }
                    },
                    None => {},
                }
                if !build_br(&self.builder, &continue_block) {
                    return Err(GenError::Builder);
                }
                position_at_end(&self.builder, &continue_block);
                proof {
                    self.emits@ = self.emits@.push(EmitV::Br(b + 2)).push(EmitV::Position(b + 2));
                }
                let zero = const_i32(self.context, 0);
                Ok((zero, Ghost(ValueV::Const(0))))
            },
            Expr::FunctionCall(name, args) => {
                let f = match self.lookup_function(name) {
                    None => {
                        return Err(GenError::MissingFunction);
                    },
                    Some(f) => f,
                };
                proof {
                    assert(exprs_view(args@).skip(0) =~= exprs_view(args@));
                }
                let (arg_vals, arg_models) = match self.gen_args_from(args, 0, function) {
                    Err(e) => {
                        return Err(e);
                    },
                    Ok(p) => p,
                };
                match build_call_ints(&self.builder, &f, &arg_vals, "calltmp") {
                    Some(iv) => {
                        let ghost t = self.next_temp@;
                        proof {
                            self.emits@ = self.emits@.push(EmitV::Call(name@, arg_models@));
                            self.next_temp@ = t + 1;
                        }
                        Ok((iv, Ghost(ValueV::Temp(t))))
                    },
                    None => Err(GenError::Builder),
                }
            },
        }
    }
}

} // verus!
