//! The trusted boundary to the LLVM IR builder (the `inkwell` crate).
//!
//! Everything here is declared to Verus and believed, not proved: the type
//! declarations make inkwell's handle types usable in signatures and
//! fields, and each wrapper holds exactly one builder operation. All the
//! handles are opaque to Verus; none of the wrappers promises anything
//! about them, so every property the code generator proves rests only on
//! its own bookkeeping, never on these. A wrapper whose builder call can
//! be rejected (a builder positioning or type error inside LLVM) returns
//! `None` or `false` instead of panicking.
use vstd::prelude::*;

use inkwell::basic_block::BasicBlock;
use inkwell::builder::Builder;
use inkwell::context::Context;
use inkwell::module::Module;
use inkwell::values::FunctionValue;
use inkwell::values::IntValue;
use inkwell::values::PointerValue;

verus! {

#[verifier::external_type_specification]
#[verifier::external_body]
pub struct ExContext(Context);

#[verifier::external_type_specification]
#[verifier::external_body]
pub struct ExModule<'ctx>(Module<'ctx>);

#[verifier::external_type_specification]
#[verifier::external_body]
pub struct ExBuilder<'ctx>(Builder<'ctx>);

#[verifier::external_type_specification]
#[verifier::external_body]
pub struct ExBasicBlock<'ctx>(BasicBlock<'ctx>);

#[verifier::external_type_specification]
#[verifier::external_body]
pub struct ExFunctionValue<'ctx>(FunctionValue<'ctx>);

#[verifier::external_type_specification]
#[verifier::external_body]
pub struct ExIntValue<'ctx>(IntValue<'ctx>);

#[verifier::external_type_specification]
#[verifier::external_body]
pub struct ExPointerValue<'ctx>(PointerValue<'ctx>);

/// Relies on `Context::create_module`.
#[verifier::external_body]
pub fn create_module<'ctx>(context: &'ctx Context, name: &str) -> Module<'ctx> {
    context.create_module(name)
}

/// Relies on `Context::create_builder`.
#[verifier::external_body]
pub fn create_builder<'ctx>(context: &'ctx Context) -> Builder<'ctx> {
    context.create_builder()
}

/// Relies on `Context::append_basic_block`: adds one basic block at the
/// end of the function.
#[verifier::external_body]
pub fn append_block<'ctx>(
    context: &'ctx Context,
    function: &FunctionValue<'ctx>,
    name: &str,
) -> BasicBlock<'ctx> {
    context.append_basic_block(*function, name)
}

/// Relies on `Builder::position_at_end`: later instructions go to the end
/// of this block.
#[verifier::external_body]
pub fn position_at_end<'ctx>(builder: &Builder<'ctx>, block: &BasicBlock<'ctx>) {
    builder.position_at_end(*block);
}

/// Relies on `IntType::const_int` on the 32-bit integer type.
#[verifier::external_body]
pub fn const_i32<'ctx>(context: &'ctx Context, value: i64) -> IntValue<'ctx> {
    context.i32_type().const_int(value as u64, false)
}

/// Relies on `Module::add_function`: declares a parameterless function
/// returning a 32-bit integer, under the given name.
#[verifier::external_body]
pub fn declare_i32_function<'ctx>(
    context: &'ctx Context,
    module: &Module<'ctx>,
    name: &str,
) -> FunctionValue<'ctx> {
    let fn_type = context.i32_type().fn_type(&[], false);
    module.add_function(name, fn_type, None)
}

/// Relies on `Module::add_function`: declares a variadic function from a
/// byte pointer to a byte pointer, the shape of C's `printf`, under the
/// given name.
#[verifier::external_body]
pub fn declare_varargs_printf<'ctx>(
    context: &'ctx Context,
    module: &Module<'ctx>,
    name: &str,
) -> FunctionValue<'ctx> {
    let byte_ptr = context.i8_type().ptr_type(inkwell::AddressSpace::default());
    let printf_type = byte_ptr.fn_type(&[byte_ptr.into()], true);
    module.add_function(name, printf_type, None)
}

/// Relies on `Builder::build_alloca`: allocates one 32-bit stack slot at
/// the start of the function's entry block, before any instruction already
/// there. `None` when the function has no entry block yet or the builder
/// rejects the allocation.
#[verifier::external_body]
pub fn entry_block_alloca<'ctx>(
    context: &'ctx Context,
    function: &FunctionValue<'ctx>,
    name: &str,
) -> Option<PointerValue<'ctx>> {
    let builder = context.create_builder();
    let entry = match function.get_first_basic_block() {
        Some(block) => block,
        None => {
            return None;
        },
    };
    match entry.get_first_instruction() {
        Some(first_instr) => builder.position_before(&first_instr),
        None => builder.position_at_end(entry),
    }
    builder.build_alloca(context.i32_type(), name).ok()
}

/// Relies on `Builder::build_store`.
#[verifier::external_body]
pub fn build_store_val<'ctx>(
    builder: &Builder<'ctx>,
    ptr: &PointerValue<'ctx>,
    value: &IntValue<'ctx>,
) -> bool {
    builder.build_store(*ptr, *value).is_ok()
}

/// Relies on `Builder::build_load`: loads a 32-bit integer from the slot.
#[verifier::external_body]
pub fn build_load_int<'ctx>(
    builder: &Builder<'ctx>,
    ptr: &PointerValue<'ctx>,
    name: &str,
) -> Option<IntValue<'ctx>> {
    match builder.build_load(*ptr, name) {
        Ok(inkwell::values::BasicValueEnum::IntValue(iv)) => Some(iv),
        Ok(_) => None,
        Err(_) => None,
    }
}

/// Relies on `Builder::build_int_add`.
#[verifier::external_body]
pub fn build_add<'ctx>(
    builder: &Builder<'ctx>,
    lhs: &IntValue<'ctx>,
    rhs: &IntValue<'ctx>,
) -> Option<IntValue<'ctx>> {
    builder.build_int_add(*lhs, *rhs, "addtmp").ok()
}

/// Relies on `Builder::build_int_sub`.
#[verifier::external_body]
pub fn build_sub<'ctx>(
    builder: &Builder<'ctx>,
    lhs: &IntValue<'ctx>,
    rhs: &IntValue<'ctx>,
) -> Option<IntValue<'ctx>> {
    builder.build_int_sub(*lhs, *rhs, "subtmp").ok()
}

/// Relies on `Builder::build_int_mul`.
#[verifier::external_body]
pub fn build_mul<'ctx>(
    builder: &Builder<'ctx>,
    lhs: &IntValue<'ctx>,
    rhs: &IntValue<'ctx>,
) -> Option<IntValue<'ctx>> {
    builder.build_int_mul(*lhs, *rhs, "multmp").ok()
}

/// Relies on `Builder::build_int_compare` with the equality predicate.
#[verifier::external_body]
pub fn build_cmp_eq<'ctx>(
    builder: &Builder<'ctx>,
    lhs: &IntValue<'ctx>,
    rhs: &IntValue<'ctx>,
) -> Option<IntValue<'ctx>> {
    builder.build_int_compare(inkwell::IntPredicate::EQ, *lhs, *rhs, "eqtmp").ok()
}

/// Relies on `Builder::build_int_compare` with the signed greater-than
/// predicate.
#[verifier::external_body]
pub fn build_cmp_sgt<'ctx>(
    builder: &Builder<'ctx>,
    lhs: &IntValue<'ctx>,
    rhs: &IntValue<'ctx>,
) -> Option<IntValue<'ctx>> {
    builder.build_int_compare(inkwell::IntPredicate::SGT, *lhs, *rhs, "gttmp").ok()
}

/// Relies on `Builder::build_int_compare` with the signed less-than
/// predicate.
#[verifier::external_body]
pub fn build_cmp_slt<'ctx>(
    builder: &Builder<'ctx>,
    lhs: &IntValue<'ctx>,
    rhs: &IntValue<'ctx>,
) -> Option<IntValue<'ctx>> {
    builder.build_int_compare(inkwell::IntPredicate::SLT, *lhs, *rhs, "lttmp").ok()
}

/// Relies on `Builder::build_conditional_branch`.
#[verifier::external_body]
pub fn build_cond_br<'ctx>(
    builder: &Builder<'ctx>,
    comparison: &IntValue<'ctx>,
    then_block: &BasicBlock<'ctx>,
    else_block: &BasicBlock<'ctx>,
) -> bool {
    builder.build_conditional_branch(*comparison, *then_block, *else_block).is_ok()
}

/// Relies on `Builder::build_unconditional_branch`.
#[verifier::external_body]
pub fn build_br<'ctx>(builder: &Builder<'ctx>, block: &BasicBlock<'ctx>) -> bool {
    builder.build_unconditional_branch(*block).is_ok()
}

/// Relies on `Builder::build_global_string_ptr`: interns the string and
/// yields a pointer to it.
#[verifier::external_body]
pub fn build_global_string<'ctx>(
    builder: &Builder<'ctx>,
    value: &str,
    name: &str,
) -> Option<PointerValue<'ctx>> {
    match builder.build_global_string_ptr(value, name) {
        Ok(global) => Some(global.as_pointer_value()),
        Err(_) => None,
    }
}

/// Relies on `Builder::build_call`: calls the formatting routine with the
/// format pointer and one integer.
#[verifier::external_body]
pub fn build_printf_call<'ctx>(
    builder: &Builder<'ctx>,
    printf: &FunctionValue<'ctx>,
    fmt: &PointerValue<'ctx>,
    value: &IntValue<'ctx>,
) -> bool {
    builder.build_call(*printf, &[(*fmt).into(), (*value).into()], "printf_call").is_ok()
}

/// Relies on `Builder::build_call`: calls the function with the given
/// integer arguments and takes the call's integer result.
#[verifier::external_body]
pub fn build_call_ints<'ctx>(
    builder: &Builder<'ctx>,
    function: &FunctionValue<'ctx>,
    args: &Vec<IntValue<'ctx>>,
    name: &str,
) -> Option<IntValue<'ctx>> {
    let metadata: Vec<inkwell::values::BasicMetadataValueEnum> =
        args.iter().map(|a| (*a).into()).collect();
    match builder.build_call(*function, &metadata, name) {
        Ok(call) => match call.try_as_basic_value().left() {
            Some(inkwell::values::BasicValueEnum::IntValue(iv)) => Some(iv),
            _ => None,
        },
        Err(_) => None,
    }
}

/// Relies on `Builder::build_return` with a value.
#[verifier::external_body]
pub fn build_return_int<'ctx>(builder: &Builder<'ctx>, value: &IntValue<'ctx>) -> bool {
    builder.build_return(Some(value)).is_ok()
}

/// Relies on `Builder::build_return` without a value.
#[verifier::external_body]
pub fn build_return_void<'ctx>(builder: &Builder<'ctx>) -> bool {
    builder.build_return(None).is_ok()
}

/// Relies on `FunctionValue` being a plain copyable handle.
#[verifier::external_body]
pub fn copy_fn_value<'ctx>(function: &FunctionValue<'ctx>) -> FunctionValue<'ctx> {
    *function
}

/// Relies on `PointerValue` being a plain copyable handle.
#[verifier::external_body]
pub fn copy_ptr_value<'ctx>(ptr: &PointerValue<'ctx>) -> PointerValue<'ctx> {
    *ptr
}

} // verus!
