//! The calls into LLVM. What is marked as such here is believed, not
//! proved: each of those functions makes one call on the `inkwell` crate and
//! says of it when the call may be made, of what type the value is that it
//! gives, and that the call was made. The types are LLVM's own and are named
//! here, not computed: a value's type is what LLVM's rules for the
//! instruction make it. A build, which holds the module, notes where the
//! builder stands and keeps the record of the calls, is made and changed
//! here alone.

use crate::ir_gen::ir::{
    spec_field_type, spec_has_field, BinaryOp, IrTypeSpec, Predicate, MAX_INT_BITS,
};
use inkwell::basic_block::BasicBlock;
use inkwell::builder::Builder;
use inkwell::context::Context;
use inkwell::types::{BasicMetadataTypeEnum, BasicType, BasicTypeEnum, FunctionType, VoidType};
use inkwell::values::{BasicMetadataValueEnum, BasicValue, BasicValueEnum, FunctionValue, PhiValue};
use inkwell::{AddressSpace, IntPredicate};
use vstd::prelude::*;

verus! {

/// `inkwell::context::Context`, which owns the types and modules made in
/// it. Nothing is known of a value of it.
#[verifier::external_type_specification]
#[verifier::external_body]
pub struct ExContext(inkwell::context::Context);

/// `inkwell::module::Module`, an LLVM module. Nothing is known of a value of
/// it.
#[verifier::external_type_specification]
#[verifier::external_body]
pub struct ExModule<'ctx>(inkwell::module::Module<'ctx>);

/// `inkwell::builder::Builder`, the IR builder. Nothing is known of a value
/// of it.
#[verifier::external_type_specification]
#[verifier::external_body]
pub struct ExBuilder<'ctx>(inkwell::builder::Builder<'ctx>);

/// `inkwell::basic_block::BasicBlock`, a block of a function. Nothing is
/// known of a value of it.
#[verifier::external_type_specification]
#[verifier::external_body]
pub struct ExBasicBlock<'ctx>(inkwell::basic_block::BasicBlock<'ctx>);

/// `inkwell::types::BasicTypeEnum`, a type that a value can have. Verus
/// sees nothing inside a value of it; `spec_llvm_type` names what it stands
/// for.
#[verifier::external_type_specification]
#[verifier::external_body]
pub struct ExBasicTypeEnum<'ctx>(inkwell::types::BasicTypeEnum<'ctx>);

/// `inkwell::types::FunctionType`, the type of a function. Verus sees
/// nothing inside a value of it; `spec_fn_signature` names its parameters and
/// result.
#[verifier::external_type_specification]
#[verifier::external_body]
pub struct ExFunctionType<'ctx>(inkwell::types::FunctionType<'ctx>);

/// `inkwell::types::VoidType`, the type of nothing. Nothing is known of a
/// value of it.
#[verifier::external_type_specification]
#[verifier::external_body]
pub struct ExVoidType<'ctx>(inkwell::types::VoidType<'ctx>);

/// `inkwell::values::BasicValueEnum`, a value of a basic type. Verus sees
/// nothing inside a value of it; `spec_type_of` names its type.
#[verifier::external_type_specification]
#[verifier::external_body]
pub struct ExBasicValueEnum<'ctx>(inkwell::values::BasicValueEnum<'ctx>);

/// `inkwell::values::FunctionValue`, a function of a module. Verus sees
/// nothing inside a value of it; `spec_signature_of` names its parameters and
/// result.
#[verifier::external_type_specification]
#[verifier::external_body]
pub struct ExFunctionValue<'ctx>(inkwell::values::FunctionValue<'ctx>);

/// `inkwell::values::PhiValue`, a phi instruction. Verus sees nothing
/// inside a value of it; `spec_phi_type` names the type of its value.
#[verifier::external_type_specification]
#[verifier::external_body]
pub struct ExPhiValue<'ctx>(inkwell::values::PhiValue<'ctx>);

/// The type that an LLVM type stands for, as the plans write types: an
/// integer type of some width, a pointer type by what it points to, a struct
/// type by its fields. The types that the library never asks for (floating
/// point, arrays, vectors) count as the struct without fields.
pub uninterp spec fn spec_llvm_type(ty: BasicTypeEnum) -> IrTypeSpec;

/// The type of an LLVM value, written in the same way.
pub uninterp spec fn spec_type_of(value: BasicValueEnum) -> IrTypeSpec;

/// The type of the value of a phi, written in the same way.
pub uninterp spec fn spec_phi_type(phi: PhiValue) -> IrTypeSpec;

/// The phi that a value is, where it is the value of one.
pub uninterp spec fn spec_phi_of(value: BasicValueEnum) -> PhiValue;

/// The number that an integer constant holds, as an unsigned number.
pub uninterp spec fn spec_int_constant(value: BasicValueEnum) -> u64;

/// The parameter of a function at a place, where it has one there.
pub uninterp spec fn spec_nth_param(function: FunctionValue, index: u32) -> BasicValueEnum;

/// The parameter types of a function type, what such a function returns,
/// if it returns anything, and whether it takes more arguments than it has
/// parameters.
pub uninterp spec fn spec_fn_signature(ty: FunctionType) -> (
    Seq<IrTypeSpec>,
    Option<IrTypeSpec>,
    bool,
);

/// The parameter types of a function, what it returns, if it returns
/// anything, and whether it takes more arguments than it has parameters.
pub uninterp spec fn spec_signature_of(function: FunctionValue) -> (
    Seq<IrTypeSpec>,
    Option<IrTypeSpec>,
    bool,
);

/// The calls on LLVM by which a module was built, from first to last, each
/// with what it was handed and what it gave.
pub uninterp spec fn spec_built_by(module: inkwell::module::Module) -> Seq<Asked>;

/// What each of the LLVM types stands for.
pub open spec fn spec_llvm_types(types: Seq<BasicTypeEnum>) -> Seq<IrTypeSpec> {
    Seq::new(types.len(), |i: int| spec_llvm_type(types[i]))
}

/// The type of each of the LLVM values.
pub open spec fn spec_types_of(values: Seq<BasicValueEnum>) -> Seq<IrTypeSpec> {
    Seq::new(values.len(), |i: int| spec_type_of(values[i]))
}

/// Whether arguments of the types `args` fit a function of the parameters
/// `params`: there is one argument of its type for each parameter, and more
/// only where the function takes more.
pub open spec fn spec_args_fit(params: Seq<IrTypeSpec>, var_args: bool, args: Seq<IrTypeSpec>)
    -> bool {
    &&& if var_args {
        args.len() >= params.len()
    } else {
        args.len() == params.len()
    }
    &&& forall|k: int| 0 <= k < params.len() && k < args.len() ==> #[trigger] args[k] == params[k]
}

/// The low `bits` bits of `value`, which is what an integer constant of
/// that width holds of it.
pub open spec fn spec_low_bits(value: u64, bits: u32) -> u64 {
    if bits >= 64 {
        value
    } else {
        (value % (1u64 << bits)) as u64
    }
}

/// What a call on LLVM asks for, without the values that it is handed.
pub enum Asking {
    /// A module of that name.
    Module { name: Seq<char> },
    /// A function of that name, parameters and result.
    Function { name: Seq<char>, params: Seq<IrTypeSpec>, result: Option<IrTypeSpec>, var_args: bool },
    /// A block at the end of a function.
    Block { name: Seq<char> },
    /// The builder to stand at the end of a block.
    Place,
    GlobalString { text: Seq<char>, name: Seq<char> },
    Alloca { ty: IrTypeSpec, name: Seq<char> },
    Load { name: Seq<char> },
    Store,
    StructGep { index: u32, name: Seq<char> },
    Binary { op: BinaryOp, name: Seq<char> },
    Compare { predicate: Predicate, name: Seq<char> },
    PtrToInt { ty: IrTypeSpec, name: Seq<char> },
    IntToPtr { ty: IrTypeSpec, name: Seq<char> },
    PointerCast { ty: IrTypeSpec, name: Seq<char> },
    Call { name: Seq<char> },
    Phi { ty: IrTypeSpec, name: Seq<char> },
    /// One more incoming value of a phi.
    Incoming,
    Br,
    CondBr,
    Ret,
}

/// What a call on LLVM gave.
pub enum Made<'ctx> {
    Value(BasicValueEnum<'ctx>),
    Block(BasicBlock<'ctx>),
    Function(FunctionValue<'ctx>),
    Phi(PhiValue<'ctx>),
    Nothing,
}

/// One call on LLVM: what it asked for, the values, blocks and functions
/// that it was handed, in the order of the call's arguments, and what it
/// gave. The text that a call is handed is noted as it was handed over; LLVM
/// itself reads a text up to its first zero byte.
pub struct Asked<'ctx> {
    pub what: Asking,
    pub values: Seq<BasicValueEnum<'ctx>>,
    pub blocks: Seq<BasicBlock<'ctx>>,
    pub functions: Seq<FunctionValue<'ctx>>,
    pub made: Made<'ctx>,
}

/// `Context::custom_width_int_type`: the integer type of the given width.
/// LLVM has no integer type of width zero. What comes back stands for the
/// integer type of that width.
#[verifier::external_body]
pub(crate) fn int_type<'ctx>(context: &'ctx Context, bits: u32) -> (r: BasicTypeEnum<'ctx>)
    requires
        1 <= bits <= MAX_INT_BITS,
    ensures
        spec_llvm_type(r) == IrTypeSpec::Int(bits),
{
    context.custom_width_int_type(bits).into()
}

/// `BasicType::ptr_type`: the type of pointers to `pointee` in the default
/// address space. What comes back stands for the pointer type to what
/// `pointee` stands for.
#[verifier::external_body]
pub(crate) fn pointer_type<'ctx>(pointee: BasicTypeEnum<'ctx>) -> (r: BasicTypeEnum<'ctx>)
    ensures
        spec_llvm_type(r) == spec_llvm_type(pointee).pointer_to(),
{
    pointee.ptr_type(AddressSpace::default()).into()
}

/// `Context::struct_type`: the anonymous struct type of the given fields,
/// packed or not as asked. The call writes the number of fields in 32 bits. What comes back stands for the struct type of what
/// the fields stand for.
#[verifier::external_body]
pub(crate) fn struct_type<'ctx>(
    context: &'ctx Context,
    fields: &Vec<BasicTypeEnum<'ctx>>,
    packed: bool,
) -> (r: BasicTypeEnum<'ctx>)
    requires
        fields@.len() <= u32::MAX,
    ensures
        spec_llvm_type(r) == IrTypeSpec::Struct(spec_llvm_types(fields@), packed),
{
    context.struct_type(fields.as_slice(), packed).into()
}

/// `Context::void_type`: the type of nothing.
#[verifier::external_body]
pub(crate) fn void_type<'ctx>(context: &'ctx Context) -> VoidType<'ctx> {
    context.void_type()
}

/// `VoidType::fn_type`: the type of functions of the given parameters that
/// return nothing. The call writes the number of parameters in 32 bits. Its parameters are what `params` stand for, and it has no
/// result.
#[verifier::external_body]
pub(crate) fn void_fn_type<'ctx>(
    void: VoidType<'ctx>,
    params: &Vec<BasicTypeEnum<'ctx>>,
    var_args: bool,
) -> (r: FunctionType<'ctx>)
    requires
        params@.len() <= u32::MAX,
    ensures
        spec_fn_signature(r) == (spec_llvm_types(params@), None::<IrTypeSpec>, var_args),
{
    let params: Vec<BasicMetadataTypeEnum<'ctx>> = params.iter().map(|t| (*t).into()).collect();
    void.fn_type(params.as_slice(), var_args)
}

/// `BasicType::fn_type`: the type of functions of the given parameters
/// that return a `result`. The call writes the number of parameters in 32
/// bits. Its parameters and result are what `params` and
/// `result` stand for.
#[verifier::external_body]
pub(crate) fn value_fn_type<'ctx>(
    result: BasicTypeEnum<'ctx>,
    params: &Vec<BasicTypeEnum<'ctx>>,
    var_args: bool,
) -> (r: FunctionType<'ctx>)
    requires
        params@.len() <= u32::MAX,
    ensures
        spec_fn_signature(r) == (spec_llvm_types(params@), Some(spec_llvm_type(result)), var_args),
{
    let params: Vec<BasicMetadataTypeEnum<'ctx>> = params.iter().map(|t| (*t).into()).collect();
    result.fn_type(params.as_slice(), var_args)
}

/// `Context::create_module`: an empty module called `name`.
#[verifier::external_body]
fn create_module<'ctx>(context: &'ctx Context, name: &str) -> inkwell::module::Module<'ctx> {
    context.create_module(name)
}

/// `Context::create_builder`: a builder that stands nowhere.
#[verifier::external_body]
fn create_builder<'ctx>(context: &'ctx Context) -> Builder<'ctx> {
    context.create_builder()
}

/// `Builder::position_at_end`: moves the builder to the end of `block`.
#[verifier::external_body]
fn builder_position_at_end<'ctx>(builder: &Builder<'ctx>, block: BasicBlock<'ctx>) {
    builder.position_at_end(block)
}

/// `FunctionValue::get_nth_param`: the parameter at `index`, if the
/// function has that many. The call adds one to the index, so the index must
/// not be the largest there is. There is a parameter exactly where `index` is
/// below the number of the function's parameters; it is the function's
/// parameter at that place and has the type of that parameter.
#[verifier::external_body]
pub(crate) fn nth_param<'ctx>(function: FunctionValue<'ctx>, index: u32) -> (r: Option<
    BasicValueEnum<'ctx>,
>)
    requires
        index < u32::MAX,
    ensures
        r is Some <==> index < spec_signature_of(function).0.len(),
        r is Some ==> r.unwrap() == spec_nth_param(function, index),
        r is Some ==> spec_type_of(r.unwrap()) == spec_signature_of(function).0[index as int],
{
    function.get_nth_param(index)
}

/// `IntType::const_int`: the constant `value` of the integer type `ty`;
/// nothing where `ty` is no integer type. The constant is of type `ty` and
/// holds the low bits of `value`, as many as the type has.
#[verifier::external_body]
pub(crate) fn const_int<'ctx>(ty: BasicTypeEnum<'ctx>, value: u64) -> (r: Option<
    BasicValueEnum<'ctx>,
>)
    ensures
        r is Some <==> spec_llvm_type(ty) is Int,
        r is Some ==> spec_type_of(r.unwrap()) == spec_llvm_type(ty),
        r is Some ==> spec_int_constant(r.unwrap()) == spec_low_bits(
            value,
            spec_llvm_type(ty)->Int_0,
        ),
{
    match ty {
        BasicTypeEnum::IntType(t) => Some(t.const_int(value, false).into()),
        _ => None,
    }
}

/// A module in the making: the module, the IR builder with the number of
/// the block that it stands at the end of, if any, and the record of the
/// calls made on the way. A builder makes instructions only while it stands
/// in a block, so the calls that make one ask for a build whose builder
/// does. The fields are this file's own: a build is made by `start_build`
/// and changed by the functions of this file and no other way, so that a
/// builder that is said to stand in a block does, and the record holds the
/// calls that were made.
pub struct Build<'ctx> {
    module: inkwell::module::Module<'ctx>,
    builder: Builder<'ctx>,
    block: Option<usize>,
    asked: Ghost<Seq<Asked<'ctx>>>,
}

impl<'ctx> Build<'ctx> {
    /// The number of the block that the builder stands at the end of, if it
    /// stands in one.
    pub closed spec fn position(self) -> Option<usize> {
        self.block
    }

    /// The calls made so far, from first to last.
    pub closed spec fn asked(self) -> Seq<Asked<'ctx>> {
        self.asked@
    }

    /// The number of the block that the builder stands at the end of.
    pub(crate) fn standing_in(&self) -> (r: Option<usize>)
        ensures
            r == self.position(),
    {
        self.block
    }
}

/// The record of a call that asks for a module called `name`.
pub open spec fn spec_asked_module<'ctx>(name: Seq<char>) -> Asked<'ctx> {
    Asked {
        what: Asking::Module { name },
        values: Seq::empty(),
        blocks: Seq::empty(),
        functions: Seq::empty(),
        made: Made::Nothing,
    }
}

/// The record of a call that moves the builder to the end of `block`.
pub open spec fn spec_asked_place<'ctx>(block: BasicBlock<'ctx>) -> Asked<'ctx> {
    Asked {
        what: Asking::Place,
        values: Seq::empty(),
        blocks: seq![block],
        functions: Seq::empty(),
        made: Made::Nothing,
    }
}

/// The record of a call that builds an instruction from `values` and
/// `blocks` and gives `made`.
pub open spec fn spec_asked_build<'ctx>(
    what: Asking,
    values: Seq<BasicValueEnum<'ctx>>,
    blocks: Seq<BasicBlock<'ctx>>,
    made: Made<'ctx>,
) -> Asked<'ctx> {
    Asked { what, values, blocks, functions: Seq::empty(), made }
}

/// A new, empty module called `name` and a new builder that stands
/// nowhere.
pub(crate) fn start_build<'ctx>(context: &'ctx Context, name: &str) -> (build: Build<'ctx>)
    ensures
        build.position() is None,
        build.asked() == seq![spec_asked_module(name@)],
{
    let ghost first = seq![spec_asked_module(name@)];
    let asked: Ghost<Seq<Asked<'ctx>>> = Ghost(first);
    Build { module: create_module(context, name), builder: create_builder(context), block: None, asked }
}

/// Moves the builder to the end of `block` and notes `number`, the block's
/// number in the code, as the place where it stands.
pub(crate) fn position_at_end<'ctx>(build: &mut Build<'ctx>, block: BasicBlock<'ctx>, number: usize)
    ensures
        final(build).position() == Some(number),
        final(build).asked() == old(build).asked().push(spec_asked_place(block)),
{
    builder_position_at_end(&build.builder, block);
    build.block = Some(number);
    let ghost longer = build.asked@.push(spec_asked_place(block));
    let asked: Ghost<Seq<Asked<'ctx>>> = Ghost(longer);
    build.asked = asked;
}

/// Hands the module out. The calls by which it was built are those of the
/// build's record.
#[verifier::external_body]
pub(crate) fn finish<'ctx>(build: Build<'ctx>) -> (r: inkwell::module::Module<'ctx>)
    ensures
        spec_built_by(r) == build.asked(),
{
    build.module
}

/// `Module::add_function`: a new function of the module, with external
/// linkage and no body. It has the parameters and the result of `ty`.
#[verifier::external_body]
pub(crate) fn add_function<'ctx>(build: &mut Build<'ctx>, name: &str, ty: FunctionType<'ctx>) -> (r:
    FunctionValue<'ctx>)
    ensures
        spec_signature_of(r) == spec_fn_signature(ty),
        final(build).position() == old(build).position(),
        final(build).asked() == old(build).asked().push(
            Asked {
                what: Asking::Function {
                    name: name@,
                    params: spec_fn_signature(ty).0,
                    result: spec_fn_signature(ty).1,
                    var_args: spec_fn_signature(ty).2,
                },
                values: Seq::empty(),
                blocks: Seq::empty(),
                functions: Seq::empty(),
                made: Made::Function(r),
            },
        ),
{
    build.module.add_function(name, ty, None)
}

/// `Context::append_basic_block`: a new block at the end of `function`.
#[verifier::external_body]
pub(crate) fn append_basic_block<'ctx>(
    context: &'ctx Context,
    build: &mut Build<'ctx>,
    function: FunctionValue<'ctx>,
    name: &str,
) -> (r: BasicBlock<'ctx>)
    ensures
        final(build).position() == old(build).position(),
        final(build).asked() == old(build).asked().push(
            Asked {
                what: Asking::Block { name: name@ },
                values: Seq::empty(),
                blocks: Seq::empty(),
                functions: seq![function],
                made: Made::Block(r),
            },
        ),
{
    context.append_basic_block(function, name)
}

/// `Builder::build_global_string_ptr`: a constant of the enclosing module
/// with the bytes of `text` and a zero byte behind them; the value is the
/// address of its first byte, a pointer to a byte.
#[verifier::external_body]
pub(crate) fn build_global_string_ptr<'ctx>(build: &mut Build<'ctx>, text: &str, name: &str) -> (r:
    BasicValueEnum<'ctx>)
    requires
        old(build).position() is Some,
    ensures
        spec_type_of(r) == IrTypeSpec::byte().pointer_to(),
        final(build).position() == old(build).position(),
        final(build).asked() == old(build).asked().push(
            spec_asked_build(
                Asking::GlobalString { text: text@, name: name@ },
                Seq::empty(),
                Seq::empty(),
                Made::Value(r),
            ),
        ),
{
    build.builder.build_global_string_ptr(text, name).as_pointer_value().into()
}

/// `Builder::build_alloca`: a stack slot of type `ty`; the value is its
/// address, a pointer to `ty`.
#[verifier::external_body]
pub(crate) fn build_alloca<'ctx>(build: &mut Build<'ctx>, ty: BasicTypeEnum<'ctx>, name: &str) -> (r:
    BasicValueEnum<'ctx>)
    requires
        old(build).position() is Some,
    ensures
        spec_type_of(r) == spec_llvm_type(ty).pointer_to(),
        final(build).position() == old(build).position(),
        final(build).asked() == old(build).asked().push(
            spec_asked_build(
                Asking::Alloca { ty: spec_llvm_type(ty), name: name@ },
                Seq::empty(),
                Seq::empty(),
                Made::Value(r),
            ),
        ),
{
    build.builder.build_alloca(ty, name).into()
}

/// `Builder::build_load`: a load through `ptr`; nothing where `ptr` is no
/// pointer, and else a value of the type that `ptr` points to.
#[verifier::external_body]
pub(crate) fn build_load<'ctx>(build: &mut Build<'ctx>, ptr: BasicValueEnum<'ctx>, name: &str) -> (r:
    Option<BasicValueEnum<'ctx>>)
    requires
        old(build).position() is Some,
    ensures
        r is Some <==> spec_type_of(ptr) is Pointer,
        r is Some ==> spec_type_of(r.unwrap()) == *spec_type_of(ptr)->Pointer_0,
        final(build).position() == old(build).position(),
        r is Some ==> final(build).asked() == old(build).asked().push(
            spec_asked_build(
                Asking::Load { name: name@ },
                seq![ptr],
                Seq::empty(),
                Made::Value(r.unwrap()),
            ),
        ),
{
    match ptr {
        BasicValueEnum::PointerValue(p) => Some(build.builder.build_load(p, name)),
        _ => None,
    }
}

/// `Builder::build_store`: a store of `value` through `ptr`, which has to
/// be a pointer to the type of `value`; whether the store was made, which it
/// is.
#[verifier::external_body]
pub(crate) fn build_store<'ctx>(
    build: &mut Build<'ctx>,
    ptr: BasicValueEnum<'ctx>,
    value: BasicValueEnum<'ctx>,
) -> (r: bool)
    requires
        old(build).position() is Some,
        spec_type_of(ptr) == spec_type_of(value).pointer_to(),
    ensures
        r,
        final(build).position() == old(build).position(),
        final(build).asked() == old(build).asked().push(
            spec_asked_build(Asking::Store, seq![ptr, value], Seq::empty(), Made::Nothing),
        ),
{
    match ptr {
        BasicValueEnum::PointerValue(p) => {
            build.builder.build_store(p, value);
            true
        },
        _ => false,
    }
}

/// `Builder::build_struct_gep`: the address of the field at `index` of the
/// struct that `ptr` points to; nothing where `ptr` is no pointer to a
/// struct with that many fields, and else a pointer to the field's type.
#[verifier::external_body]
pub(crate) fn build_struct_gep<'ctx>(
    build: &mut Build<'ctx>,
    ptr: BasicValueEnum<'ctx>,
    index: u32,
    name: &str,
) -> (r: Option<BasicValueEnum<'ctx>>)
    requires
        old(build).position() is Some,
    ensures
        r is Some <==> spec_has_field(spec_type_of(ptr), index),
        r is Some ==> spec_type_of(r.unwrap()) == spec_field_type(
            spec_type_of(ptr),
            index,
        ).pointer_to(),
        final(build).position() == old(build).position(),
        r is Some ==> final(build).asked() == old(build).asked().push(
            spec_asked_build(
                Asking::StructGep { index, name: name@ },
                seq![ptr],
                Seq::empty(),
                Made::Value(r.unwrap()),
            ),
        ),
{
    match ptr {
        BasicValueEnum::PointerValue(p) => match build.builder.build_struct_gep(p, index, name) {
            Ok(field) => Some(field.into()),
            Err(_) => None,
        },
        _ => None,
    }
}

/// `Builder::build_and`: the bitwise and of two integers of one type; nothing
/// where they are no integers, and else a value of their type.
#[verifier::external_body]
pub(crate) fn build_and<'ctx>(
    build: &mut Build<'ctx>,
    lhs: BasicValueEnum<'ctx>,
    rhs: BasicValueEnum<'ctx>,
    name: &str,
) -> (r: Option<BasicValueEnum<'ctx>>)
    requires
        old(build).position() is Some,
        spec_type_of(lhs) == spec_type_of(rhs),
    ensures
        r is Some <==> spec_type_of(lhs) is Int,
        r is Some ==> spec_type_of(r.unwrap()) == spec_type_of(lhs),
        final(build).position() == old(build).position(),
        r is Some ==> final(build).asked() == old(build).asked().push(
            spec_asked_build(
                Asking::Binary { op: BinaryOp::And, name: name@ },
                seq![lhs, rhs],
                Seq::empty(),
                Made::Value(r.unwrap()),
            ),
        ),
{
    match (lhs, rhs) {
        (BasicValueEnum::IntValue(l), BasicValueEnum::IntValue(r)) => Some(
            build.builder.build_and(l, r, name).into(),
        ),
        _ => None,
    }
}

/// `Builder::build_or`: the bitwise or of two integers of one type; nothing
/// where they are no integers, and else a value of their type.
#[verifier::external_body]
pub(crate) fn build_or<'ctx>(
    build: &mut Build<'ctx>,
    lhs: BasicValueEnum<'ctx>,
    rhs: BasicValueEnum<'ctx>,
    name: &str,
) -> (r: Option<BasicValueEnum<'ctx>>)
    requires
        old(build).position() is Some,
        spec_type_of(lhs) == spec_type_of(rhs),
    ensures
        r is Some <==> spec_type_of(lhs) is Int,
        r is Some ==> spec_type_of(r.unwrap()) == spec_type_of(lhs),
        final(build).position() == old(build).position(),
        r is Some ==> final(build).asked() == old(build).asked().push(
            spec_asked_build(
                Asking::Binary { op: BinaryOp::Or, name: name@ },
                seq![lhs, rhs],
                Seq::empty(),
                Made::Value(r.unwrap()),
            ),
        ),
{
    match (lhs, rhs) {
        (BasicValueEnum::IntValue(l), BasicValueEnum::IntValue(r)) => Some(
            build.builder.build_or(l, r, name).into(),
        ),
        _ => None,
    }
}

/// `Builder::build_int_add`: the sum of two integers of one type; nothing
/// where they are no integers, and else a value of their type.
#[verifier::external_body]
pub(crate) fn build_int_add<'ctx>(
    build: &mut Build<'ctx>,
    lhs: BasicValueEnum<'ctx>,
    rhs: BasicValueEnum<'ctx>,
    name: &str,
) -> (r: Option<BasicValueEnum<'ctx>>)
    requires
        old(build).position() is Some,
        spec_type_of(lhs) == spec_type_of(rhs),
    ensures
        r is Some <==> spec_type_of(lhs) is Int,
        r is Some ==> spec_type_of(r.unwrap()) == spec_type_of(lhs),
        final(build).position() == old(build).position(),
        r is Some ==> final(build).asked() == old(build).asked().push(
            spec_asked_build(
                Asking::Binary { op: BinaryOp::Add, name: name@ },
                seq![lhs, rhs],
                Seq::empty(),
                Made::Value(r.unwrap()),
            ),
        ),
{
    match (lhs, rhs) {
        (BasicValueEnum::IntValue(l), BasicValueEnum::IntValue(r)) => Some(
            build.builder.build_int_add(l, r, name).into(),
        ),
        _ => None,
    }
}

/// `Builder::build_int_mul`: the product of two integers of one type; nothing
/// where they are no integers, and else a value of their type.
#[verifier::external_body]
pub(crate) fn build_int_mul<'ctx>(
    build: &mut Build<'ctx>,
    lhs: BasicValueEnum<'ctx>,
    rhs: BasicValueEnum<'ctx>,
    name: &str,
) -> (r: Option<BasicValueEnum<'ctx>>)
    requires
        old(build).position() is Some,
        spec_type_of(lhs) == spec_type_of(rhs),
    ensures
        r is Some <==> spec_type_of(lhs) is Int,
        r is Some ==> spec_type_of(r.unwrap()) == spec_type_of(lhs),
        final(build).position() == old(build).position(),
        r is Some ==> final(build).asked() == old(build).asked().push(
            spec_asked_build(
                Asking::Binary { op: BinaryOp::Mul, name: name@ },
                seq![lhs, rhs],
                Seq::empty(),
                Made::Value(r.unwrap()),
            ),
        ),
{
    match (lhs, rhs) {
        (BasicValueEnum::IntValue(l), BasicValueEnum::IntValue(r)) => Some(
            build.builder.build_int_mul(l, r, name).into(),
        ),
        _ => None,
    }
}

/// `Builder::build_int_compare`: the comparison of two integers of one
/// type under `predicate`; nothing where they are no integers, and else a
/// value of one bit.
#[verifier::external_body]
pub(crate) fn build_int_compare<'ctx>(
    build: &mut Build<'ctx>,
    predicate: Predicate,
    lhs: BasicValueEnum<'ctx>,
    rhs: BasicValueEnum<'ctx>,
    name: &str,
) -> (r: Option<BasicValueEnum<'ctx>>)
    requires
        old(build).position() is Some,
        spec_type_of(lhs) == spec_type_of(rhs),
    ensures
        r is Some <==> spec_type_of(lhs) is Int,
        r is Some ==> spec_type_of(r.unwrap()) == IrTypeSpec::Int(1),
        final(build).position() == old(build).position(),
        r is Some ==> final(build).asked() == old(build).asked().push(
            spec_asked_build(
                Asking::Compare { predicate, name: name@ },
                seq![lhs, rhs],
                Seq::empty(),
                Made::Value(r.unwrap()),
            ),
        ),
{
    let op = match predicate {
        Predicate::Equal => IntPredicate::EQ,
        Predicate::NotEqual => IntPredicate::NE,
        Predicate::SignedLess => IntPredicate::SLT,
        Predicate::SignedGreater => IntPredicate::SGT,
        Predicate::UnsignedLess => IntPredicate::ULT,
        Predicate::UnsignedGreater => IntPredicate::UGT,
    };
    match (lhs, rhs) {
        (BasicValueEnum::IntValue(l), BasicValueEnum::IntValue(r)) => Some(
            build.builder.build_int_compare(op, l, r, name).into(),
        ),
        _ => None,
    }
}

/// `Builder::build_ptr_to_int`: the address in the pointer `value` as an integer of type
/// `ty`; nothing where `value` is no pointer or `ty` no integer type, and
/// else a value of type `ty`.
#[verifier::external_body]
pub(crate) fn build_ptr_to_int<'ctx>(
    build: &mut Build<'ctx>,
    value: BasicValueEnum<'ctx>,
    ty: BasicTypeEnum<'ctx>,
    name: &str,
) -> (r: Option<BasicValueEnum<'ctx>>)
    requires
        old(build).position() is Some,
    ensures
        r is Some <==> (spec_type_of(value) is Pointer && spec_llvm_type(ty) is Int),
        r is Some ==> spec_type_of(r.unwrap()) == spec_llvm_type(ty),
        final(build).position() == old(build).position(),
        r is Some ==> final(build).asked() == old(build).asked().push(
            spec_asked_build(
                Asking::PtrToInt { ty: spec_llvm_type(ty), name: name@ },
                seq![value],
                Seq::empty(),
                Made::Value(r.unwrap()),
            ),
        ),
{
    match (value, ty) {
        (BasicValueEnum::PointerValue(v), BasicTypeEnum::IntType(t)) => Some(
            build.builder.build_ptr_to_int(v, t, name).into(),
        ),
        _ => None,
    }
}

/// `Builder::build_int_to_ptr`: the integer `value` as a pointer of type `ty`;
/// nothing where `value` is no integer or `ty` no pointer type, and else a
/// value of type `ty`.
#[verifier::external_body]
pub(crate) fn build_int_to_ptr<'ctx>(
    build: &mut Build<'ctx>,
    value: BasicValueEnum<'ctx>,
    ty: BasicTypeEnum<'ctx>,
    name: &str,
) -> (r: Option<BasicValueEnum<'ctx>>)
    requires
        old(build).position() is Some,
    ensures
        r is Some <==> (spec_type_of(value) is Int && spec_llvm_type(ty) is Pointer),
        r is Some ==> spec_type_of(r.unwrap()) == spec_llvm_type(ty),
        final(build).position() == old(build).position(),
        r is Some ==> final(build).asked() == old(build).asked().push(
            spec_asked_build(
                Asking::IntToPtr { ty: spec_llvm_type(ty), name: name@ },
                seq![value],
                Seq::empty(),
                Made::Value(r.unwrap()),
            ),
        ),
{
    match (value, ty) {
        (BasicValueEnum::IntValue(v), BasicTypeEnum::PointerType(t)) => Some(
            build.builder.build_int_to_ptr(v, t, name).into(),
        ),
        _ => None,
    }
}

/// `Builder::build_pointer_cast`: the pointer `value` as a pointer of type `ty`;
/// nothing where `value` is no pointer or `ty` no pointer type, and else a
/// value of type `ty`.
#[verifier::external_body]
pub(crate) fn build_pointer_cast<'ctx>(
    build: &mut Build<'ctx>,
    value: BasicValueEnum<'ctx>,
    ty: BasicTypeEnum<'ctx>,
    name: &str,
) -> (r: Option<BasicValueEnum<'ctx>>)
    requires
        old(build).position() is Some,
    ensures
        r is Some <==> (spec_type_of(value) is Pointer && spec_llvm_type(ty) is Pointer),
        r is Some ==> spec_type_of(r.unwrap()) == spec_llvm_type(ty),
        final(build).position() == old(build).position(),
        r is Some ==> final(build).asked() == old(build).asked().push(
            spec_asked_build(
                Asking::PointerCast { ty: spec_llvm_type(ty), name: name@ },
                seq![value],
                Seq::empty(),
                Made::Value(r.unwrap()),
            ),
        ),
{
    match (value, ty) {
        (BasicValueEnum::PointerValue(v), BasicTypeEnum::PointerType(t)) => Some(
            build.builder.build_pointer_cast(v, t, name).into(),
        ),
        _ => None,
    }
}

/// `Builder::build_call`: a call of `function` with `args`, which have to
/// fit the function's parameters and whose number is written in 32 bits; the value is what the call returns, if the
/// function returns anything, and is of the type of the function's result.
#[verifier::external_body]
pub(crate) fn build_call<'ctx>(
    build: &mut Build<'ctx>,
    function: FunctionValue<'ctx>,
    args: &Vec<BasicValueEnum<'ctx>>,
    name: &str,
) -> (r: Option<BasicValueEnum<'ctx>>)
    requires
        old(build).position() is Some,
        args@.len() <= u32::MAX,
        spec_args_fit(
            spec_signature_of(function).0,
            spec_signature_of(function).2,
            spec_types_of(args@),
        ),
    ensures
        r is Some <==> spec_signature_of(function).1 is Some,
        r is Some ==> spec_type_of(r.unwrap()) == spec_signature_of(function).1.unwrap(),
        final(build).position() == old(build).position(),
        final(build).asked() == old(build).asked().push(
            Asked {
                what: Asking::Call { name: name@ },
                values: args@,
                blocks: Seq::empty(),
                functions: seq![function],
                made: match r {
                    Some(v) => Made::Value(v),
                    None => Made::Nothing,
                },
            },
        ),
{
    let args: Vec<BasicMetadataValueEnum<'ctx>> = args.iter().map(|v| (*v).into()).collect();
    build.builder.build_call(function, args.as_slice(), name).try_as_basic_value().left()
}

/// `Builder::build_phi`: a phi without incoming values, whose value is of
/// type `ty`.
#[verifier::external_body]
pub(crate) fn build_phi<'ctx>(build: &mut Build<'ctx>, ty: BasicTypeEnum<'ctx>, name: &str) -> (r:
    PhiValue<'ctx>)
    requires
        old(build).position() is Some,
    ensures
        spec_phi_type(r) == spec_llvm_type(ty),
        final(build).position() == old(build).position(),
        final(build).asked() == old(build).asked().push(
            spec_asked_build(
                Asking::Phi { ty: spec_llvm_type(ty), name: name@ },
                Seq::empty(),
                Seq::empty(),
                Made::Phi(r),
            ),
        ),
{
    build.builder.build_phi(ty, name)
}

/// `PhiValue::add_incoming`: one more incoming value of the phi, which
/// has to be of the phi's type, for control that arrives from `block`.
#[verifier::external_body]
pub(crate) fn phi_add_incoming<'ctx>(
    build: &mut Build<'ctx>,
    phi: PhiValue<'ctx>,
    value: BasicValueEnum<'ctx>,
    block: BasicBlock<'ctx>,
)
    requires
        spec_type_of(value) == spec_phi_type(phi),
    ensures
        final(build).position() == old(build).position(),
        final(build).asked() == old(build).asked().push(
            spec_asked_build(Asking::Incoming, seq![value], seq![block], Made::Phi(phi)),
        ),
{
    phi.add_incoming(&[(&value as &dyn BasicValue<'ctx>, block)])
}

/// `PhiValue::as_basic_value`: the value of the phi, which is of the
/// phi's type.
#[verifier::external_body]
pub(crate) fn phi_value<'ctx>(phi: PhiValue<'ctx>) -> (r: BasicValueEnum<'ctx>)
    ensures
        spec_type_of(r) == spec_phi_type(phi),
        spec_phi_of(r) == phi,
{
    phi.as_basic_value()
}

/// `Builder::build_unconditional_branch`: a branch to `target`.
#[verifier::external_body]
pub(crate) fn build_unconditional_branch<'ctx>(build: &mut Build<'ctx>, target: BasicBlock<'ctx>)
    requires
        old(build).position() is Some,
    ensures
        final(build).position() == old(build).position(),
        final(build).asked() == old(build).asked().push(
            spec_asked_build(Asking::Br, Seq::empty(), seq![target], Made::Nothing),
        ),
{
    build.builder.build_unconditional_branch(target);
}

/// `Builder::build_conditional_branch`: a branch to `if_true` where
/// `condition`, which has to be of one bit, holds and to `if_false` where
/// not; whether the branch was made, which it is.
#[verifier::external_body]
pub(crate) fn build_conditional_branch<'ctx>(
    build: &mut Build<'ctx>,
    condition: BasicValueEnum<'ctx>,
    if_true: BasicBlock<'ctx>,
    if_false: BasicBlock<'ctx>,
) -> (r: bool)
    requires
        old(build).position() is Some,
        spec_type_of(condition) == IrTypeSpec::Int(1),
    ensures
        r,
        final(build).position() == old(build).position(),
        final(build).asked() == old(build).asked().push(
            spec_asked_build(
                Asking::CondBr,
                seq![condition],
                seq![if_true, if_false],
                Made::Nothing,
            ),
        ),
{
    match condition {
        BasicValueEnum::IntValue(c) => {
            build.builder.build_conditional_branch(c, if_true, if_false);
            true
        },
        _ => false,
    }
}

/// `Builder::build_return`: a return without a value.
#[verifier::external_body]
pub(crate) fn build_return<'ctx>(build: &mut Build<'ctx>)
    requires
        old(build).position() is Some,
    ensures
        final(build).position() == old(build).position(),
        final(build).asked() == old(build).asked().push(
            spec_asked_build(Asking::Ret, Seq::empty(), Seq::empty(), Made::Nothing),
        ),
{
    build.builder.build_return(None);
}

} // verus!
