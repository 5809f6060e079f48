//! The LLVM operations the code generator uses, each a call into `inkwell`.
//!
//! LLVM values and types are opaque here: the generator hands them from one call to
//! the next. A builder call that fails (it does only when the builder is not placed
//! in a block, or when operand types do not fit the instruction) gives `None`.

use vstd::prelude::*;

use crate::codegen::LlvmKind;

use inkwell::basic_block::BasicBlock;
use inkwell::builder::Builder;
use inkwell::context::Context;
use inkwell::module::Module;
use inkwell::types::{BasicMetadataTypeEnum, BasicType, BasicTypeEnum, FloatType, FunctionType, IntType, PointerType, StructType};
use inkwell::values::{AggregateValueEnum, BasicMetadataValueEnum, BasicValueEnum, FloatValue, FunctionValue, IntValue, PhiValue, PointerValue, StructValue};
use inkwell::{AddressSpace, FloatPredicate, IntPredicate};

verus! {

/// `inkwell::context::Context`, opaque here: values are handed from one call to the next.
#[verifier::external_type_specification]
#[verifier::external_body]
pub struct ExContext(Context);

/// `inkwell::module::Module`, opaque here: values are handed from one call to the next.
#[verifier::external_type_specification]
#[verifier::external_body]
pub struct ExModule<'ctx>(Module<'ctx>);

/// `inkwell::builder::Builder`, opaque here: values are handed from one call to the next.
#[verifier::external_type_specification]
#[verifier::external_body]
pub struct ExBuilder<'ctx>(Builder<'ctx>);

/// `inkwell::basic_block::BasicBlock`, opaque here: values are handed from one call to the next.
#[verifier::external_type_specification]
#[verifier::external_body]
pub struct ExBasicBlock<'ctx>(BasicBlock<'ctx>);

/// `inkwell::values::FunctionValue`, opaque here: values are handed from one call to the next.
#[verifier::external_type_specification]
#[verifier::external_body]
pub struct ExFunctionValue<'ctx>(FunctionValue<'ctx>);

/// `inkwell::values::BasicValueEnum`, opaque here: values are handed from one call to the next.
#[verifier::external_type_specification]
#[verifier::external_body]
pub struct ExBasicValueEnum<'ctx>(BasicValueEnum<'ctx>);

/// `inkwell::values::BasicMetadataValueEnum`, opaque here: values are handed from one call to the next.
#[verifier::external_type_specification]
#[verifier::external_body]
pub struct ExBasicMetadataValueEnum<'ctx>(BasicMetadataValueEnum<'ctx>);

/// `inkwell::values::IntValue`, opaque here: values are handed from one call to the next.
#[verifier::external_type_specification]
#[verifier::external_body]
pub struct ExIntValue<'ctx>(IntValue<'ctx>);

/// `inkwell::values::FloatValue`, opaque here: values are handed from one call to the next.
#[verifier::external_type_specification]
#[verifier::external_body]
pub struct ExFloatValue<'ctx>(FloatValue<'ctx>);

/// `inkwell::values::PointerValue`, opaque here: values are handed from one call to the next.
#[verifier::external_type_specification]
#[verifier::external_body]
pub struct ExPointerValue<'ctx>(PointerValue<'ctx>);

/// `inkwell::values::StructValue`, opaque here: values are handed from one call to the next.
#[verifier::external_type_specification]
#[verifier::external_body]
pub struct ExStructValue<'ctx>(StructValue<'ctx>);

/// `inkwell::values::PhiValue`, opaque here: values are handed from one call to the next.
#[verifier::external_type_specification]
#[verifier::external_body]
pub struct ExPhiValue<'ctx>(PhiValue<'ctx>);

/// `inkwell::types::BasicTypeEnum`, opaque here: values are handed from one call to the next.
#[verifier::external_type_specification]
#[verifier::external_body]
pub struct ExBasicTypeEnum<'ctx>(BasicTypeEnum<'ctx>);

/// `inkwell::types::BasicMetadataTypeEnum`, opaque here: values are handed from one call to the next.
#[verifier::external_type_specification]
#[verifier::external_body]
pub struct ExBasicMetadataTypeEnum<'ctx>(BasicMetadataTypeEnum<'ctx>);

/// `inkwell::types::IntType`, opaque here: values are handed from one call to the next.
#[verifier::external_type_specification]
#[verifier::external_body]
pub struct ExIntType<'ctx>(IntType<'ctx>);

/// `inkwell::types::FloatType`, opaque here: values are handed from one call to the next.
#[verifier::external_type_specification]
#[verifier::external_body]
pub struct ExFloatType<'ctx>(FloatType<'ctx>);

/// `inkwell::types::PointerType`, opaque here: values are handed from one call to the next.
#[verifier::external_type_specification]
#[verifier::external_body]
pub struct ExPointerType<'ctx>(PointerType<'ctx>);

/// `inkwell::types::StructType`, opaque here: values are handed from one call to the next.
#[verifier::external_type_specification]
#[verifier::external_body]
pub struct ExStructType<'ctx>(StructType<'ctx>);

/// `inkwell::types::FunctionType`, opaque here: values are handed from one call to the next.
#[verifier::external_type_specification]
#[verifier::external_body]
pub struct ExFunctionType<'ctx>(FunctionType<'ctx>);

// ---------------------------------------------------------------------------
// Context, module, builder
// ---------------------------------------------------------------------------

/// `Context::create_module`: a new, empty module named `name`.
#[verifier::external_body]
pub(crate) fn create_module<'ctx>(c: &'ctx Context, name: &str) -> Module<'ctx> {
    c.create_module(name)
}

/// `Context::create_builder`: a new builder, not yet placed in a block.
#[verifier::external_body]
pub(crate) fn create_builder<'ctx>(c: &'ctx Context) -> Builder<'ctx> {
    c.create_builder()
}

/// `Module::add_function`: declares a function of type `ty` named `name`.
#[verifier::external_body]
pub(crate) fn add_function<'ctx>(m: &Module<'ctx>, name: &str, ty: FunctionType<'ctx>) -> FunctionValue<'ctx> {
    m.add_function(name, ty, None)
}

/// `Module::verify`: `None` when LLVM accepts the module, else LLVM's description
/// of what is wrong.
#[verifier::external_body]
pub(crate) fn verify_module<'ctx>(m: &Module<'ctx>) -> Option<String> {
    match m.verify() {
        Ok(()) => None,
        Err(e) => Some(e.to_string()),
    }
}

/// `Module::print_to_string`: the module's textual IR.
#[verifier::external_body]
pub(crate) fn module_text<'ctx>(m: &Module<'ctx>) -> String {
    m.print_to_string().to_string()
}

/// `Context::append_basic_block`: a new block at the end of function `f`.
#[verifier::external_body]
pub(crate) fn append_block<'ctx>(c: &'ctx Context, f: FunctionValue<'ctx>, name: &str) -> BasicBlock<'ctx> {
    c.append_basic_block(f, name)
}

/// `Builder::position_at_end`: instructions are added at the end of block `bb` from now on.
#[verifier::external_body]
pub(crate) fn position_at_end<'ctx>(b: &Builder<'ctx>, bb: BasicBlock<'ctx>) {
    b.position_at_end(bb)
}

/// `Builder::get_insert_block`: the block instructions are added to.
#[verifier::external_body]
pub(crate) fn insert_block<'ctx>(b: &Builder<'ctx>) -> Option<BasicBlock<'ctx>> {
    b.get_insert_block()
}

/// `BasicBlock::get_terminator`, tested for presence: whether block `bb` already ends
/// with a terminator.
#[verifier::external_body]
pub(crate) fn block_terminated<'ctx>(bb: BasicBlock<'ctx>) -> bool {
    bb.get_terminator().is_some()
}

/// `BasicBlock::get_parent`: the function that holds block `bb`.
#[verifier::external_body]
pub(crate) fn block_function<'ctx>(bb: BasicBlock<'ctx>) -> Option<FunctionValue<'ctx>> {
    bb.get_parent()
}

/// `FunctionValue::get_nth_param`: the function's parameter at position `i`.
#[verifier::external_body]
pub(crate) fn nth_param<'ctx>(f: FunctionValue<'ctx>, i: u32) -> Option<BasicValueEnum<'ctx>> {
    f.get_nth_param(i)
}

// ---------------------------------------------------------------------------
// Types
// ---------------------------------------------------------------------------

/// `Context::i8_type` (also `i16`, `i32`, `i64` below): an integer type of that width,
/// with the kind of type that it is.
#[verifier::external_body]
pub(crate) fn i8_type<'ctx>(c: &'ctx Context) -> (r: (IntType<'ctx>, LlvmKind))
    ensures
        r.1 == LlvmKind::I8,
{
    (c.i8_type(), LlvmKind::I8)
}

/// `Context::i16_type`.
#[verifier::external_body]
pub(crate) fn i16_type<'ctx>(c: &'ctx Context) -> (r: (IntType<'ctx>, LlvmKind))
    ensures
        r.1 == LlvmKind::I16,
{
    (c.i16_type(), LlvmKind::I16)
}

/// `Context::i32_type`.
#[verifier::external_body]
pub(crate) fn i32_type<'ctx>(c: &'ctx Context) -> (r: (IntType<'ctx>, LlvmKind))
    ensures
        r.1 == LlvmKind::I32,
{
    (c.i32_type(), LlvmKind::I32)
}

/// `Context::i64_type`.
#[verifier::external_body]
pub(crate) fn i64_type<'ctx>(c: &'ctx Context) -> (r: (IntType<'ctx>, LlvmKind))
    ensures
        r.1 == LlvmKind::I64,
{
    (c.i64_type(), LlvmKind::I64)
}

/// `Context::bool_type`: the one-bit integer type.
#[verifier::external_body]
pub(crate) fn bool_type<'ctx>(c: &'ctx Context) -> (r: (IntType<'ctx>, LlvmKind))
    ensures
        r.1 == LlvmKind::Bool,
{
    (c.bool_type(), LlvmKind::Bool)
}

/// `Context::f32_type`.
#[verifier::external_body]
pub(crate) fn f32_type<'ctx>(c: &'ctx Context) -> (r: (FloatType<'ctx>, LlvmKind))
    ensures
        r.1 == LlvmKind::F32,
{
    (c.f32_type(), LlvmKind::F32)
}

/// `Context::f64_type`.
#[verifier::external_body]
pub(crate) fn f64_type<'ctx>(c: &'ctx Context) -> (r: (FloatType<'ctx>, LlvmKind))
    ensures
        r.1 == LlvmKind::F64,
{
    (c.f64_type(), LlvmKind::F64)
}

/// The byte pointer type `i8*`, used for every object and buffer pointer.
pub(crate) fn byte_ptr_type<'ctx>(c: &'ctx Context) -> PointerType<'ctx> {
    ptr_to(int_ty_basic(i8_type(c).0))
}

/// `Context::struct_type`: an unnamed, unpacked struct type with these fields.
#[verifier::external_body]
pub(crate) fn struct_type<'ctx>(c: &'ctx Context, fields: &Vec<BasicTypeEnum<'ctx>>) -> StructType<'ctx> {
    c.struct_type(fields.as_slice(), false)
}

/// `Context::opaque_struct_type`: a named struct type whose body is set later.
#[verifier::external_body]
pub(crate) fn opaque_struct<'ctx>(c: &'ctx Context, name: &str) -> StructType<'ctx> {
    c.opaque_struct_type(name)
}

/// `StructType::set_body`: gives a named struct type its fields.
#[verifier::external_body]
pub(crate) fn set_struct_body<'ctx>(st: StructType<'ctx>, fields: &Vec<BasicTypeEnum<'ctx>>) {
    st.set_body(fields.as_slice(), false);
}

/// `StructType::ptr_type`: the type of pointers to `st`.
#[verifier::external_body]
pub(crate) fn struct_ptr_type<'ctx>(st: StructType<'ctx>) -> PointerType<'ctx> {
    st.ptr_type(AddressSpace::default())
}

/// `BasicType::ptr_type` on any value type: the type of pointers to it.
#[verifier::external_body]
pub(crate) fn ptr_to<'ctx>(t: BasicTypeEnum<'ctx>) -> PointerType<'ctx> {
    t.ptr_type(AddressSpace::default())
}

/// `StructType::size_of`: the size of a struct type, as an `i64` constant.
#[verifier::external_body]
pub(crate) fn struct_size<'ctx>(st: StructType<'ctx>) -> Option<IntValue<'ctx>> {
    st.size_of()
}

/// `BasicTypeEnum::size_of`: the size of a value type, as an `i64` constant.
#[verifier::external_body]
pub(crate) fn type_size<'ctx>(t: BasicTypeEnum<'ctx>) -> Option<IntValue<'ctx>> {
    t.size_of()
}

/// `From<IntType>` for `BasicTypeEnum`.
#[verifier::external_body]
pub(crate) fn int_ty_basic<'ctx>(t: IntType<'ctx>) -> BasicTypeEnum<'ctx> {
    t.into()
}

/// `From<FloatType>` for `BasicTypeEnum`.
#[verifier::external_body]
pub(crate) fn float_ty_basic<'ctx>(t: FloatType<'ctx>) -> BasicTypeEnum<'ctx> {
    t.into()
}

/// `From<PointerType>` for `BasicTypeEnum`.
#[verifier::external_body]
pub(crate) fn ptr_ty_basic<'ctx>(t: PointerType<'ctx>) -> BasicTypeEnum<'ctx> {
    t.into()
}

/// `From<StructType>` for `BasicTypeEnum`.
#[verifier::external_body]
pub(crate) fn struct_ty_basic<'ctx>(t: StructType<'ctx>) -> BasicTypeEnum<'ctx> {
    t.into()
}

/// `From<BasicTypeEnum>` for `BasicMetadataTypeEnum`.
#[verifier::external_body]
pub(crate) fn ty_meta<'ctx>(t: BasicTypeEnum<'ctx>) -> BasicMetadataTypeEnum<'ctx> {
    t.into()
}

/// `BasicTypeEnum::into_int_type` where the type is an integer type.
#[verifier::external_body]
pub(crate) fn as_int_type<'ctx>(t: BasicTypeEnum<'ctx>) -> Option<IntType<'ctx>> {
    match t {
        BasicTypeEnum::IntType(it) => Some(it),
        _ => None,
    }
}

/// `BasicTypeEnum::into_float_type` where the type is a float type.
#[verifier::external_body]
pub(crate) fn as_float_type<'ctx>(t: BasicTypeEnum<'ctx>) -> Option<FloatType<'ctx>> {
    match t {
        BasicTypeEnum::FloatType(ft) => Some(ft),
        _ => None,
    }
}

/// `VoidType::fn_type`: a function type returning nothing.
#[verifier::external_body]
pub(crate) fn void_fn_type<'ctx>(c: &'ctx Context, params: &Vec<BasicMetadataTypeEnum<'ctx>>, var_args: bool) -> FunctionType<'ctx> {
    c.void_type().fn_type(params.as_slice(), var_args)
}

/// `BasicType::fn_type`: a function type returning a value of type `ret`.
#[verifier::external_body]
pub(crate) fn fn_type<'ctx>(ret: BasicTypeEnum<'ctx>, params: &Vec<BasicMetadataTypeEnum<'ctx>>, var_args: bool) -> FunctionType<'ctx> {
    ret.fn_type(params.as_slice(), var_args)
}

// ---------------------------------------------------------------------------
// Constants
// ---------------------------------------------------------------------------

/// `IntType::const_int`: the constant `v` of type `t` (sign-extended from the low
/// bits of `v` when `signed`).
#[verifier::external_body]
pub(crate) fn const_int<'ctx>(t: IntType<'ctx>, v: u64, signed: bool) -> IntValue<'ctx> {
    t.const_int(v, signed)
}

/// `PointerType::const_null`.
#[verifier::external_body]
pub(crate) fn const_null<'ctx>(t: PointerType<'ctx>) -> PointerValue<'ctx> {
    t.const_null()
}

/// `StructType::get_undef`: an undefined value of struct type `t`.
#[verifier::external_body]
pub(crate) fn struct_undef<'ctx>(t: StructType<'ctx>) -> StructValue<'ctx> {
    t.get_undef()
}

// ---------------------------------------------------------------------------
// Conversions between value handles
// ---------------------------------------------------------------------------

/// `From<IntValue>` for `BasicValueEnum`.
#[verifier::external_body]
pub(crate) fn int_val<'ctx>(v: IntValue<'ctx>) -> BasicValueEnum<'ctx> {
    v.into()
}

/// `From<FloatValue>` for `BasicValueEnum`.
#[verifier::external_body]
pub(crate) fn float_val<'ctx>(v: FloatValue<'ctx>) -> BasicValueEnum<'ctx> {
    v.into()
}

/// `From<PointerValue>` for `BasicValueEnum`.
#[verifier::external_body]
pub(crate) fn ptr_val<'ctx>(v: PointerValue<'ctx>) -> BasicValueEnum<'ctx> {
    v.into()
}

/// `From<StructValue>` for `BasicValueEnum`.
#[verifier::external_body]
pub(crate) fn struct_val<'ctx>(v: StructValue<'ctx>) -> BasicValueEnum<'ctx> {
    v.into()
}

/// `From<BasicValueEnum>` for `BasicMetadataValueEnum`: a value as a call argument.
#[verifier::external_body]
pub(crate) fn arg_val<'ctx>(v: BasicValueEnum<'ctx>) -> BasicMetadataValueEnum<'ctx> {
    v.into()
}

/// The integer behind a value, where it is one.
#[verifier::external_body]
pub(crate) fn as_int<'ctx>(v: BasicValueEnum<'ctx>) -> Option<IntValue<'ctx>> {
    match v {
        BasicValueEnum::IntValue(x) => Some(x),
        _ => None,
    }
}

/// The float behind a value, where it is one.
#[verifier::external_body]
pub(crate) fn as_float<'ctx>(v: BasicValueEnum<'ctx>) -> Option<FloatValue<'ctx>> {
    match v {
        BasicValueEnum::FloatValue(x) => Some(x),
        _ => None,
    }
}

/// The pointer behind a value, where it is one.
#[verifier::external_body]
pub(crate) fn as_ptr<'ctx>(v: BasicValueEnum<'ctx>) -> Option<PointerValue<'ctx>> {
    match v {
        BasicValueEnum::PointerValue(x) => Some(x),
        _ => None,
    }
}

/// The struct behind a value, where it is one.
#[verifier::external_body]
pub(crate) fn as_struct<'ctx>(v: BasicValueEnum<'ctx>) -> Option<StructValue<'ctx>> {
    match v {
        BasicValueEnum::StructValue(x) => Some(x),
        _ => None,
    }
}

// ---------------------------------------------------------------------------
// Memory and calls
// ---------------------------------------------------------------------------

/// `Builder::build_alloca`: stack storage for one value of type `t`.
#[verifier::external_body]
pub(crate) fn alloca<'ctx>(b: &Builder<'ctx>, t: BasicTypeEnum<'ctx>, name: &str) -> Option<PointerValue<'ctx>> {
    b.build_alloca(t, name).ok()
}

/// `Builder::build_store`: stores `v` at `p`; `false` if the builder refused.
#[verifier::external_body]
pub(crate) fn store<'ctx>(b: &Builder<'ctx>, p: PointerValue<'ctx>, v: BasicValueEnum<'ctx>) -> bool {
    b.build_store(p, v).is_ok()
}

/// `Builder::build_load`: loads the value that `p` points to.
#[verifier::external_body]
pub(crate) fn load<'ctx>(b: &Builder<'ctx>, p: PointerValue<'ctx>, name: &str) -> Option<BasicValueEnum<'ctx>> {
    b.build_load(p, name).ok()
}

/// `Builder::build_call` with `CallSiteValue::try_as_basic_value`: `None` if the
/// builder refused, else the returned value (`None` inside for a function
/// returning nothing).
#[verifier::external_body]
pub(crate) fn call<'ctx>(
    b: &Builder<'ctx>,
    f: FunctionValue<'ctx>,
    args: &Vec<BasicMetadataValueEnum<'ctx>>,
    name: &str,
) -> Option<Option<BasicValueEnum<'ctx>>> {
    match b.build_call(f, args.as_slice(), name) {
        Ok(site) => Some(site.try_as_basic_value().left()),
        Err(_) => None,
    }
}

/// `Builder::build_struct_gep`: the address of field `i` of the struct `p` points to.
#[verifier::external_body]
pub(crate) fn struct_gep<'ctx>(b: &Builder<'ctx>, p: PointerValue<'ctx>, i: u32, name: &str) -> Option<PointerValue<'ctx>> {
    b.build_struct_gep(p, i, name).ok()
}

/// `Builder::build_pointer_cast`: `p` as a pointer of type `t`.
#[verifier::external_body]
pub(crate) fn pointer_cast<'ctx>(b: &Builder<'ctx>, p: PointerValue<'ctx>, t: PointerType<'ctx>, name: &str) -> Option<PointerValue<'ctx>> {
    b.build_pointer_cast(p, t, name).ok()
}

/// `Builder::build_ptr_to_int`: the address `p` as an integer of type `t`.
#[verifier::external_body]
pub(crate) fn ptr_to_int<'ctx>(b: &Builder<'ctx>, p: PointerValue<'ctx>, t: IntType<'ctx>, name: &str) -> Option<IntValue<'ctx>> {
    b.build_ptr_to_int(p, t, name).ok()
}

/// `Builder::build_int_to_ptr`: the integer `v` as a pointer of type `t`.
#[verifier::external_body]
pub(crate) fn int_to_ptr<'ctx>(b: &Builder<'ctx>, v: IntValue<'ctx>, t: PointerType<'ctx>, name: &str) -> Option<PointerValue<'ctx>> {
    b.build_int_to_ptr(v, t, name).ok()
}

/// `Builder::build_global_string_ptr`: a pointer to a global, NUL-terminated copy of
/// `s`, handed back with a copy of the text it holds.
#[verifier::external_body]
pub(crate) fn global_string<'ctx>(b: &Builder<'ctx>, s: &str, name: &str) -> (r: Option<(PointerValue<'ctx>, String)>)
    ensures
        r matches Some((_, t)) ==> t@ == s@,
{
    match b.build_global_string_ptr(s, name) {
        Ok(g) => Some((g.as_pointer_value(), s.to_string())),
        Err(_) => None,
    }
}

/// `Builder::build_extract_value`: field `i` of the struct value `v`.
#[verifier::external_body]
pub(crate) fn extract<'ctx>(b: &Builder<'ctx>, v: StructValue<'ctx>, i: u32, name: &str) -> Option<BasicValueEnum<'ctx>> {
    b.build_extract_value(v, i, name).ok()
}

/// `Builder::build_insert_value`: the struct value `agg` with field `i` set to `v`.
#[verifier::external_body]
pub(crate) fn insert<'ctx>(b: &Builder<'ctx>, agg: StructValue<'ctx>, v: BasicValueEnum<'ctx>, i: u32, name: &str) -> Option<StructValue<'ctx>> {
    match b.build_insert_value(agg, v, i, name) {
        Ok(AggregateValueEnum::StructValue(r)) => Some(r),
        Ok(AggregateValueEnum::ArrayValue(_)) => None,
        Err(_) => None,
    }
}

// ---------------------------------------------------------------------------
// Control flow
// ---------------------------------------------------------------------------

/// `Builder::build_return` with a value.
#[verifier::external_body]
pub(crate) fn ret_value<'ctx>(b: &Builder<'ctx>, v: BasicValueEnum<'ctx>) -> bool {
    b.build_return(Some(&v)).is_ok()
}

/// `Builder::build_return` without a value.
#[verifier::external_body]
pub(crate) fn ret_void<'ctx>(b: &Builder<'ctx>) -> bool {
    b.build_return(None).is_ok()
}

/// `Builder::build_unreachable`.
#[verifier::external_body]
pub(crate) fn unreachable_inst<'ctx>(b: &Builder<'ctx>) -> bool {
    b.build_unreachable().is_ok()
}

/// `Builder::build_unconditional_branch`.
#[verifier::external_body]
pub(crate) fn br<'ctx>(b: &Builder<'ctx>, to: BasicBlock<'ctx>) -> bool {
    b.build_unconditional_branch(to).is_ok()
}

/// `Builder::build_conditional_branch`.
#[verifier::external_body]
pub(crate) fn cond_br<'ctx>(b: &Builder<'ctx>, c: IntValue<'ctx>, then_bb: BasicBlock<'ctx>, else_bb: BasicBlock<'ctx>) -> bool {
    b.build_conditional_branch(c, then_bb, else_bb).is_ok()
}

/// `Builder::build_phi`: a phi node of type `t`, without incoming values yet.
#[verifier::external_body]
pub(crate) fn phi<'ctx>(b: &Builder<'ctx>, t: BasicTypeEnum<'ctx>, name: &str) -> Option<PhiValue<'ctx>> {
    b.build_phi(t, name).ok()
}

/// `PhiValue::add_incoming` with two incoming values: `v1` from block `bb1`, `v2`
/// from block `bb2`.
#[verifier::external_body]
pub(crate) fn add_incoming2<'ctx>(p: PhiValue<'ctx>, v1: IntValue<'ctx>, bb1: BasicBlock<'ctx>, v2: IntValue<'ctx>, bb2: BasicBlock<'ctx>) {
    p.add_incoming(&[(&v1, bb1), (&v2, bb2)]);
}

/// `PhiValue::as_basic_value`: the phi node as a value.
#[verifier::external_body]
pub(crate) fn phi_value<'ctx>(p: PhiValue<'ctx>) -> BasicValueEnum<'ctx> {
    p.as_basic_value()
}

/// `Builder::build_select`: `t` where `cond` holds, else `f`.
#[verifier::external_body]
pub(crate) fn select<'ctx>(b: &Builder<'ctx>, cond: IntValue<'ctx>, t: BasicValueEnum<'ctx>, f: BasicValueEnum<'ctx>, name: &str) -> Option<BasicValueEnum<'ctx>> {
    b.build_select(cond, t, f, name).ok()
}

// ---------------------------------------------------------------------------
// Arithmetic, comparison, conversion
// ---------------------------------------------------------------------------

/// `Builder::build_int_add` (and the integer instructions below, each named after
/// its inkwell method).
#[verifier::external_body]
pub(crate) fn int_add<'ctx>(b: &Builder<'ctx>, l: IntValue<'ctx>, r: IntValue<'ctx>, name: &str) -> (res: Option<(IntValue<'ctx>, Op)>)
    ensures
        res matches Some((_, o)) ==> o == Op::IntAdd,
{
    b.build_int_add(l, r, name).ok().map(|v| (v, Op::IntAdd))
}

/// `Builder::build_int_sub`.
#[verifier::external_body]
pub(crate) fn int_sub<'ctx>(b: &Builder<'ctx>, l: IntValue<'ctx>, r: IntValue<'ctx>, name: &str) -> (res: Option<(IntValue<'ctx>, Op)>)
    ensures
        res matches Some((_, o)) ==> o == Op::IntSub,
{
    b.build_int_sub(l, r, name).ok().map(|v| (v, Op::IntSub))
}

/// `Builder::build_int_mul`.
#[verifier::external_body]
pub(crate) fn int_mul<'ctx>(b: &Builder<'ctx>, l: IntValue<'ctx>, r: IntValue<'ctx>, name: &str) -> (res: Option<(IntValue<'ctx>, Op)>)
    ensures
        res matches Some((_, o)) ==> o == Op::IntMul,
{
    b.build_int_mul(l, r, name).ok().map(|v| (v, Op::IntMul))
}

/// `Builder::build_int_signed_div`.
#[verifier::external_body]
pub(crate) fn int_signed_div<'ctx>(b: &Builder<'ctx>, l: IntValue<'ctx>, r: IntValue<'ctx>, name: &str) -> (res: Option<(IntValue<'ctx>, Op)>)
    ensures
        res matches Some((_, o)) ==> o == Op::IntSDiv,
{
    b.build_int_signed_div(l, r, name).ok().map(|v| (v, Op::IntSDiv))
}

/// `Builder::build_int_unsigned_div`.
#[verifier::external_body]
pub(crate) fn int_unsigned_div<'ctx>(b: &Builder<'ctx>, l: IntValue<'ctx>, r: IntValue<'ctx>, name: &str) -> (res: Option<(IntValue<'ctx>, Op)>)
    ensures
        res matches Some((_, o)) ==> o == Op::IntUDiv,
{
    b.build_int_unsigned_div(l, r, name).ok().map(|v| (v, Op::IntUDiv))
}

/// `Builder::build_int_signed_rem`.
#[verifier::external_body]
pub(crate) fn int_signed_rem<'ctx>(b: &Builder<'ctx>, l: IntValue<'ctx>, r: IntValue<'ctx>, name: &str) -> (res: Option<(IntValue<'ctx>, Op)>)
    ensures
        res matches Some((_, o)) ==> o == Op::IntSRem,
{
    b.build_int_signed_rem(l, r, name).ok().map(|v| (v, Op::IntSRem))
}

/// `Builder::build_int_unsigned_rem`.
#[verifier::external_body]
pub(crate) fn int_unsigned_rem<'ctx>(b: &Builder<'ctx>, l: IntValue<'ctx>, r: IntValue<'ctx>, name: &str) -> (res: Option<(IntValue<'ctx>, Op)>)
    ensures
        res matches Some((_, o)) ==> o == Op::IntURem,
{
    b.build_int_unsigned_rem(l, r, name).ok().map(|v| (v, Op::IntURem))
}

/// `Builder::build_and`.
#[verifier::external_body]
pub(crate) fn and<'ctx>(b: &Builder<'ctx>, l: IntValue<'ctx>, r: IntValue<'ctx>, name: &str) -> (res: Option<(IntValue<'ctx>, Op)>)
    ensures
        res matches Some((_, o)) ==> o == Op::And,
{
    b.build_and(l, r, name).ok().map(|v| (v, Op::And))
}

/// `Builder::build_or`.
#[verifier::external_body]
pub(crate) fn or<'ctx>(b: &Builder<'ctx>, l: IntValue<'ctx>, r: IntValue<'ctx>, name: &str) -> (res: Option<(IntValue<'ctx>, Op)>)
    ensures
        res matches Some((_, o)) ==> o == Op::Or,
{
    b.build_or(l, r, name).ok().map(|v| (v, Op::Or))
}

/// `Builder::build_not`.
#[verifier::external_body]
pub(crate) fn not<'ctx>(b: &Builder<'ctx>, v: IntValue<'ctx>, name: &str) -> Option<IntValue<'ctx>> {
    b.build_not(v, name).ok()
}

/// `Builder::build_int_neg`.
#[verifier::external_body]
pub(crate) fn int_neg<'ctx>(b: &Builder<'ctx>, v: IntValue<'ctx>, name: &str) -> Option<IntValue<'ctx>> {
    b.build_int_neg(v, name).ok()
}

/// `Builder::build_float_add` (and the float instructions below, each named after
/// its inkwell method).
#[verifier::external_body]
pub(crate) fn float_add<'ctx>(b: &Builder<'ctx>, l: FloatValue<'ctx>, r: FloatValue<'ctx>, name: &str) -> (res: Option<(FloatValue<'ctx>, Op)>)
    ensures
        res matches Some((_, o)) ==> o == Op::FloatAdd,
{
    b.build_float_add(l, r, name).ok().map(|v| (v, Op::FloatAdd))
}

/// `Builder::build_float_sub`.
#[verifier::external_body]
pub(crate) fn float_sub<'ctx>(b: &Builder<'ctx>, l: FloatValue<'ctx>, r: FloatValue<'ctx>, name: &str) -> (res: Option<(FloatValue<'ctx>, Op)>)
    ensures
        res matches Some((_, o)) ==> o == Op::FloatSub,
{
    b.build_float_sub(l, r, name).ok().map(|v| (v, Op::FloatSub))
}

/// `Builder::build_float_mul`.
#[verifier::external_body]
pub(crate) fn float_mul<'ctx>(b: &Builder<'ctx>, l: FloatValue<'ctx>, r: FloatValue<'ctx>, name: &str) -> (res: Option<(FloatValue<'ctx>, Op)>)
    ensures
        res matches Some((_, o)) ==> o == Op::FloatMul,
{
    b.build_float_mul(l, r, name).ok().map(|v| (v, Op::FloatMul))
}

/// `Builder::build_float_div`.
#[verifier::external_body]
pub(crate) fn float_div<'ctx>(b: &Builder<'ctx>, l: FloatValue<'ctx>, r: FloatValue<'ctx>, name: &str) -> (res: Option<(FloatValue<'ctx>, Op)>)
    ensures
        res matches Some((_, o)) ==> o == Op::FloatDiv,
{
    b.build_float_div(l, r, name).ok().map(|v| (v, Op::FloatDiv))
}

/// `Builder::build_float_rem`.
#[verifier::external_body]
pub(crate) fn float_rem<'ctx>(b: &Builder<'ctx>, l: FloatValue<'ctx>, r: FloatValue<'ctx>, name: &str) -> (res: Option<(FloatValue<'ctx>, Op)>)
    ensures
        res matches Some((_, o)) ==> o == Op::FloatRem,
{
    b.build_float_rem(l, r, name).ok().map(|v| (v, Op::FloatRem))
}

/// `Builder::build_float_neg`.
#[verifier::external_body]
pub(crate) fn float_neg<'ctx>(b: &Builder<'ctx>, v: FloatValue<'ctx>, name: &str) -> Option<FloatValue<'ctx>> {
    b.build_float_neg(v, name).ok()
}

/// `Builder::build_int_compare` with the `IntPredicate` variant named like `p`.
#[verifier::external_body]
pub(crate) fn int_compare<'ctx>(b: &Builder<'ctx>, p: IntCmp, l: IntValue<'ctx>, r: IntValue<'ctx>, name: &str) -> (res: Option<(IntValue<'ctx>, Op)>)
    ensures
        res matches Some((_, o)) ==> o == Op::IntCompare(p),
{
    let pred = match p {
        IntCmp::Eq => IntPredicate::EQ, IntCmp::Ne => IntPredicate::NE,
        IntCmp::Slt => IntPredicate::SLT, IntCmp::Sle => IntPredicate::SLE,
        IntCmp::Sgt => IntPredicate::SGT, IntCmp::Sge => IntPredicate::SGE,
        IntCmp::Ult => IntPredicate::ULT, IntCmp::Ule => IntPredicate::ULE,
        IntCmp::Ugt => IntPredicate::UGT, IntCmp::Uge => IntPredicate::UGE,
    };
    b.build_int_compare(pred, l, r, name).ok().map(|v| (v, Op::IntCompare(p)))
}

/// `Builder::build_float_compare` with the `FloatPredicate` variant named like `p`.
#[verifier::external_body]
pub(crate) fn float_compare<'ctx>(b: &Builder<'ctx>, p: FloatCmp, l: FloatValue<'ctx>, r: FloatValue<'ctx>, name: &str) -> (res: Option<(IntValue<'ctx>, Op)>)
    ensures
        res matches Some((_, o)) ==> o == Op::FloatCompare(p),
{
    let pred = match p {
        FloatCmp::Oeq => FloatPredicate::OEQ, FloatCmp::One => FloatPredicate::ONE,
        FloatCmp::Olt => FloatPredicate::OLT, FloatCmp::Ole => FloatPredicate::OLE,
        FloatCmp::Ogt => FloatPredicate::OGT, FloatCmp::Oge => FloatPredicate::OGE,
    };
    b.build_float_compare(pred, l, r, name).ok().map(|v| (v, Op::FloatCompare(p)))
}

/// `Builder::build_is_null`.
#[verifier::external_body]
pub(crate) fn is_null<'ctx>(b: &Builder<'ctx>, p: PointerValue<'ctx>, name: &str) -> (res: Option<(IntValue<'ctx>, Op)>)
    ensures
        res matches Some((_, o)) ==> o == Op::IsNull,
{
    b.build_is_null(p, name).ok().map(|v| (v, Op::IsNull))
}

/// `Builder::build_is_not_null`.
#[verifier::external_body]
pub(crate) fn is_not_null<'ctx>(b: &Builder<'ctx>, p: PointerValue<'ctx>, name: &str) -> (res: Option<(IntValue<'ctx>, Op)>)
    ensures
        res matches Some((_, o)) ==> o == Op::IsNotNull,
{
    b.build_is_not_null(p, name).ok().map(|v| (v, Op::IsNotNull))
}

/// The conversions below are each named after their inkwell method: `v` converted to type `t`.
/// `Builder::build_int_s_extend_or_bit_cast`.
#[verifier::external_body]
pub(crate) fn int_s_extend<'ctx>(b: &Builder<'ctx>, v: IntValue<'ctx>, t: IntType<'ctx>, name: &str) -> (res: Option<(IntValue<'ctx>, Op)>)
    ensures
        res matches Some((_, o)) ==> o == Op::SignExtend,
{
    b.build_int_s_extend_or_bit_cast(v, t, name).ok().map(|v| (v, Op::SignExtend))
}

/// `Builder::build_int_z_extend_or_bit_cast`.
#[verifier::external_body]
pub(crate) fn int_z_extend<'ctx>(b: &Builder<'ctx>, v: IntValue<'ctx>, t: IntType<'ctx>, name: &str) -> (res: Option<(IntValue<'ctx>, Op)>)
    ensures
        res matches Some((_, o)) ==> o == Op::ZeroExtend,
{
    b.build_int_z_extend_or_bit_cast(v, t, name).ok().map(|v| (v, Op::ZeroExtend))
}

/// `Builder::build_int_truncate`.
#[verifier::external_body]
pub(crate) fn int_truncate<'ctx>(b: &Builder<'ctx>, v: IntValue<'ctx>, t: IntType<'ctx>, name: &str) -> (res: Option<(IntValue<'ctx>, Op)>)
    ensures
        res matches Some((_, o)) ==> o == Op::Truncate,
{
    b.build_int_truncate(v, t, name).ok().map(|v| (v, Op::Truncate))
}

/// `Builder::build_float_to_signed_int`.
#[verifier::external_body]
pub(crate) fn float_to_signed_int<'ctx>(b: &Builder<'ctx>, v: FloatValue<'ctx>, t: IntType<'ctx>, name: &str) -> (res: Option<(IntValue<'ctx>, Op)>)
    ensures
        res matches Some((_, o)) ==> o == Op::FloatToSigned,
{
    b.build_float_to_signed_int(v, t, name).ok().map(|v| (v, Op::FloatToSigned))
}

/// `Builder::build_float_to_unsigned_int`.
#[verifier::external_body]
pub(crate) fn float_to_unsigned_int<'ctx>(b: &Builder<'ctx>, v: FloatValue<'ctx>, t: IntType<'ctx>, name: &str) -> (res: Option<(IntValue<'ctx>, Op)>)
    ensures
        res matches Some((_, o)) ==> o == Op::FloatToUnsigned,
{
    b.build_float_to_unsigned_int(v, t, name).ok().map(|v| (v, Op::FloatToUnsigned))
}

/// `Builder::build_signed_int_to_float`.
#[verifier::external_body]
pub(crate) fn signed_int_to_float<'ctx>(b: &Builder<'ctx>, v: IntValue<'ctx>, t: FloatType<'ctx>, name: &str) -> (res: Option<(FloatValue<'ctx>, Op)>)
    ensures
        res matches Some((_, o)) ==> o == Op::SignedToFloat,
{
    b.build_signed_int_to_float(v, t, name).ok().map(|v| (v, Op::SignedToFloat))
}

/// `Builder::build_unsigned_int_to_float`.
#[verifier::external_body]
pub(crate) fn unsigned_int_to_float<'ctx>(b: &Builder<'ctx>, v: IntValue<'ctx>, t: FloatType<'ctx>, name: &str) -> (res: Option<(FloatValue<'ctx>, Op)>)
    ensures
        res matches Some((_, o)) ==> o == Op::UnsignedToFloat,
{
    b.build_unsigned_int_to_float(v, t, name).ok().map(|v| (v, Op::UnsignedToFloat))
}

/// `Builder::build_float_cast`.
#[verifier::external_body]
pub(crate) fn float_cast<'ctx>(b: &Builder<'ctx>, v: FloatValue<'ctx>, t: FloatType<'ctx>, name: &str) -> (res: Option<(FloatValue<'ctx>, Op)>)
    ensures
        res matches Some((_, o)) ==> o == Op::FloatCast,
{
    b.build_float_cast(v, t, name).ok().map(|v| (v, Op::FloatCast))
}

/// `Builder::build_float_ext`.
#[verifier::external_body]
pub(crate) fn float_ext<'ctx>(b: &Builder<'ctx>, v: FloatValue<'ctx>, t: FloatType<'ctx>, name: &str) -> (res: Option<(FloatValue<'ctx>, Op)>)
    ensures
        res matches Some((_, o)) ==> o == Op::FloatExtend,
{
    b.build_float_ext(v, t, name).ok().map(|v| (v, Op::FloatExtend))
}

// ---------------------------------------------------------------------------
// Predicates
// ---------------------------------------------------------------------------

/// The integer comparisons the generator uses.
pub enum IntCmp {
    Eq,
    Ne,
    Slt,
    Sle,
    Sgt,
    Sge,
    Ult,
    Ule,
    Ugt,
    Uge,
}

/// The float comparisons the generator uses (all ordered).
pub enum FloatCmp {
    Oeq,
    One,
    Olt,
    Ole,
    Ogt,
    Oge,
}

/// The value of a builder call, without the instruction it names.
pub(crate) fn value_of<T>(r: Option<(T, Op)>) -> (v: Option<T>)
    ensures
        match r {
            Some((x, _)) => v == Some(x),
            None => v is None,
        },
{
    match r {
        Some((x, _)) => Some(x),
        None => None,
    }
}

/// An integer result as a value, with its instruction.
pub(crate) fn int_tagged<'ctx>(r: Option<(IntValue<'ctx>, Op)>) -> (v: Option<(BasicValueEnum<'ctx>, Op)>)
    ensures
        match r {
            Some((_, o)) => v matches Some((_, o2)) && o2 == o,
            None => v is None,
        },
{
    match r {
        Some((x, o)) => Some((int_val(x), o)),
        None => None,
    }
}

/// A float result as a value, with its instruction.
pub(crate) fn float_tagged<'ctx>(r: Option<(FloatValue<'ctx>, Op)>) -> (v: Option<(BasicValueEnum<'ctx>, Op)>)
    ensures
        match r {
            Some((_, o)) => v matches Some((_, o2)) && o2 == o,
            None => v is None,
        },
{
    match r {
        Some((x, o)) => Some((float_val(x), o)),
        None => None,
    }
}

/// The instruction that a builder call emitted: the wrappers below hand it back
/// with the value, one variant per inkwell method.
pub enum Op {
    IntAdd,
    IntSub,
    IntMul,
    IntSDiv,
    IntUDiv,
    IntSRem,
    IntURem,
    FloatAdd,
    FloatSub,
    FloatMul,
    FloatDiv,
    FloatRem,
    IntCompare(IntCmp),
    FloatCompare(FloatCmp),
    SignExtend,
    ZeroExtend,
    Truncate,
    FloatToSigned,
    FloatToUnsigned,
    SignedToFloat,
    UnsignedToFloat,
    FloatCast,
    FloatExtend,
    IsNull,
    IsNotNull,
    And,
    Or,
}

} // verus!
