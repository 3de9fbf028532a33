//! Hands the generator's instruction streams to LLVM, call by call.

use crate::ir_gen::codegen_state::{
    CodegenError, CodegenResult, CodegenState, CodegenStatus, ErrorSpec,
};
use crate::ir_gen::ir::{
    functions_view, ir_types_view, lemma_struct_fits, lemma_struct_supported, spec_type_fits,
    spec_type_supported, spec_types_supported, BinaryOp, EmittedSpec, FunctionPlan, FunctionSpec,
    Instr, InstrSpec, IrType, IrTypeSpec, MAX_INT_BITS,
};
use crate::ir_gen::llvm::{
    add_function, append_basic_block, build_alloca, build_and, build_call, build_conditional_branch,
    build_global_string_ptr, build_int_add, build_int_compare, build_int_mul, build_int_to_ptr,
    build_load, build_or, build_phi, build_pointer_cast, build_ptr_to_int, build_return,
    build_store, build_struct_gep, build_unconditional_branch, const_int, finish, int_type,
    nth_param, phi_add_incoming, phi_value, pointer_type, position_at_end, spec_args_fit,
    spec_asked_build, spec_asked_module, spec_asked_place, spec_built_by, spec_int_constant,
    spec_llvm_type, spec_llvm_types, spec_low_bits, spec_nth_param, spec_phi_of,
    spec_signature_of, spec_type_of, spec_types_of, start_build, struct_type, value_fn_type,
    void_fn_type, void_type, Asked, Asking, Build, Made,
};
use crate::ir_gen::order::{spec_block_operands, spec_emittable, spec_signature_supported};
use crate::ir_gen::typing::{
    lemma_refusal, lemma_slot_types_len, spec_bodies_error, spec_code_error, spec_entry_error,
    spec_entry_taken, spec_refusal, spec_result_type, spec_signature_fits, spec_slot_types,
    spec_type_at, spec_typed, spec_types_at,
};
use inkwell::basic_block::BasicBlock;
use inkwell::context::Context;
use inkwell::types::BasicTypeEnum;
use inkwell::values::{BasicValueEnum, FunctionValue};
use vstd::prelude::*;
use vstd::string::*;

verus! {

/// What LLVM gave for an entry of a function's code: a value, with its
/// type beside it, a block, or nothing.
pub enum Slot<'ctx> {
    Value(BasicValueEnum<'ctx>, IrType),
    Block(BasicBlock<'ctx>),
    Nothing,
}

fn lower_types<'ctx>(context: &'ctx Context, types: &Vec<IrType>) -> (r: CodegenResult<
    Vec<BasicTypeEnum<'ctx>>,
>)
    ensures
        r is Ok <==> spec_types_supported(ir_types_view(types@)) && forall|j: int|
            0 <= j < types@.len() ==> spec_type_fits(#[trigger] ir_types_view(types@)[j]),
        r is Ok ==> spec_llvm_types(r.unwrap()@) == crate::ir_gen::ir::ir_types_view(types@),
        r is Err ==> r.unwrap_err()@ == ErrorSpec::TypeMismatch,
    decreases types,
{
    let mut lowered: Vec<BasicTypeEnum<'ctx>> = Vec::new();
    let mut i: usize = 0;
    while i < types.len()
        invariant
            i <= types.len(),
            lowered.len() == i,
            forall|j: int| 0 <= j < i ==> spec_type_supported(#[trigger] types@[j]@),
            forall|j: int| 0 <= j < i ==> spec_type_fits(#[trigger] types@[j]@),
            forall|j: int| 0 <= j < i ==> spec_llvm_type(#[trigger] lowered@[j]) == types@[j]@,
        decreases types.len() - i,
    {
        match lower_type(context, &types[i]) {
            Ok(t) => lowered.push(t),
            Err(e) => {
                proof {
                    assert(crate::ir_gen::ir::ir_types_view(types@)[i as int] == types@[i as int]@);
                }
                return Err(e);
            },
        }
        i += 1;
    }
    proof {
        assert forall|j: int| 0 <= j < types@.len() implies spec_type_supported(
            #[trigger] crate::ir_gen::ir::ir_types_view(types@)[j],
        ) by {
            assert(spec_type_supported(types@[j]@));
        }
        assert forall|j: int| 0 <= j < types@.len() implies spec_type_fits(
            #[trigger] ir_types_view(types@)[j],
        ) by {
            assert(spec_type_fits(types@[j]@));
        }
        assert(spec_llvm_types(lowered@) =~= crate::ir_gen::ir::ir_types_view(types@));
    }
    Ok(lowered)
}

/// Asks LLVM for the type `ty`, and gets the LLVM type that stands for it.
/// Fails where an integer type inside it has a width of zero or of more than
/// 64 bits, or a struct type inside it more fields than 32 bits can count.
pub fn lower_type<'ctx>(context: &'ctx Context, ty: &IrType) -> (r: CodegenResult<
    BasicTypeEnum<'ctx>,
>)
    ensures
        r is Ok <==> spec_type_supported(ty@) && spec_type_fits(ty@),
        r is Ok ==> spec_llvm_type(r.unwrap()) == ty@,
        r is Err ==> r.unwrap_err()@ == ErrorSpec::TypeMismatch,
    decreases ty,
{
    match ty {
        IrType::Int(bits) => {
            if *bits == 0 || *bits > MAX_INT_BITS {
                Err(CodegenError::TypeMismatch(String::from_str("unsupported integer width")))
            } else {
                Ok(int_type(context, *bits))
            }
        },
        IrType::Pointer(pointee) => {
            let inner = lower_type(context, pointee)?;
            Ok(pointer_type(inner))
        },
        IrType::Struct(fields, packed) => {
            proof {
                lemma_struct_supported(ir_types_view(fields@), *packed);
                lemma_struct_fits(ir_types_view(fields@), *packed);
            }
            if fields.len() > u32::MAX as usize {
                return Err(CodegenError::TypeMismatch(String::from_str("a struct of too many fields")));
            }
            let lowered = lower_types(context, fields)?;
            Ok(struct_type(context, &lowered, *packed))
        },
    }
}

/// What has to hold of the slot of the entry at `j` of the code of `own`,
/// whose value has the type `ty` if it has one: it holds a block exactly
/// where the entry appends one, and a value of that type exactly where the
/// entry has one; the value of a parameter is the function's parameter, and
/// the value of a constant holds the constant.
pub open spec fn spec_slot_stands(
    slot: Slot,
    entry: EmittedSpec,
    ty: Option<IrTypeSpec>,
    function: FunctionValue,
) -> bool {
    &&& (slot is Block) == (entry.instr is Block)
    &&& (slot is Value) == (ty is Some)
    &&& slot is Value ==> spec_type_of(slot->Value_0) == ty.unwrap() && slot->Value_1@
        == ty.unwrap()
    &&& slot is Value && entry.instr is Param ==> slot->Value_0 == spec_nth_param(
        function,
        entry.instr->Param_index,
    )
    &&& slot is Value && entry.instr is ConstInt ==> spec_int_constant(slot->Value_0)
        == spec_low_bits(entry.instr->constant, entry.instr->bits)
}

/// Whether the slots stand for the first entries of the code of `own`,
/// whose values have the types `types`.
pub open spec fn spec_slots_match(
    slots: Seq<Slot>,
    own: FunctionSpec,
    types: Seq<Option<IrTypeSpec>>,
    function: FunctionValue,
) -> bool {
    &&& slots.len() <= own.code.len()
    &&& types.len() == slots.len()
    &&& forall|j: int|
        0 <= j < slots.len() ==> spec_slot_stands(#[trigger] slots[j], own.code[j], types[j], function)
}

/// Whether the LLVM functions are those of the plan's functions, with
/// their parameters and results.
pub open spec fn spec_functions_match(functions: Seq<FunctionValue>, plans: Seq<FunctionSpec>)
    -> bool {
    &&& functions.len() == plans.len()
    &&& forall|f: int|
        0 <= f < functions.len() ==> spec_signature_of(#[trigger] functions[f]) == (
            plans[f].params,
            plans[f].result,
            plans[f].var_args,
        )
}

/// Whether the type kept beside each value is the value's type.
pub open spec fn spec_slots_sound(slots: Seq<Slot>) -> bool {
    forall|i: int|
        0 <= i < slots.len() && (#[trigger] slots[i]) is Value ==> spec_type_of(slots[i]->Value_0)
            == slots[i]->Value_1@
}

/// Whether entry `id` has a slot that holds a value.
pub open spec fn spec_holds_value(slots: Seq<Slot>, id: int) -> bool {
    0 <= id < slots.len() && slots[id] is Value
}

/// Whether entry `id` has a slot that holds a block.
pub open spec fn spec_holds_block(slots: Seq<Slot>, id: int) -> bool {
    0 <= id < slots.len() && slots[id] is Block
}

/// The value of entry `id`, as the entry at `j` sees it: an entry sees
/// only what came before it.
pub open spec fn spec_value_before<'ctx>(slots: Seq<Slot<'ctx>>, j: int, id: usize)
    -> BasicValueEnum<'ctx> {
    if id < j {
        slots[id as int]->Value_0
    } else {
        arbitrary()
    }
}

/// The block of entry `id`, as the entry at `j` sees it.
pub open spec fn spec_block_before<'ctx>(slots: Seq<Slot<'ctx>>, j: int, id: usize) -> BasicBlock<
    'ctx,
> {
    if id < j {
        slots[id as int]->Block_0
    } else {
        arbitrary()
    }
}

/// The values of the entries `ids`, as the entry at `j` sees them.
pub open spec fn spec_values_before<'ctx>(slots: Seq<Slot<'ctx>>, j: int, ids: Seq<usize>) -> Seq<
    BasicValueEnum<'ctx>,
> {
    Seq::new(ids.len(), |k: int| spec_value_before(slots, j, ids[k]))
}

/// What the call for the entry at `j` gave, by its slot.
pub open spec fn spec_made<'ctx>(slots: Seq<Slot<'ctx>>, j: int) -> Made<'ctx> {
    match slots[j] {
        Slot::Value(v, _) => Made::Value(v),
        Slot::Block(b) => Made::Block(b),
        Slot::Nothing => Made::Nothing,
    }
}

/// The record of the call that hands a phi the incoming pair `pair`.
pub open spec fn spec_asked_incoming<'ctx>(slots: Seq<Slot<'ctx>>, j: int, pair: (usize, usize))
    -> Asked<'ctx> {
    spec_asked_build(
        Asking::Incoming,
        seq![spec_value_before(slots, j, pair.0)],
        seq![spec_block_before(slots, j, pair.1)],
        Made::Phi(spec_phi_of(slots[j]->Value_0)),
    )
}

/// The calls on LLVM that stand for the entry at `j` of a function's code,
/// with the values and blocks that the slots hold: none for a parameter or a
/// constant, which are looked up; one for a block; and for every other entry
/// the call that moves the builder to the entry's block and then the call
/// that builds the instruction from the values and blocks of the entries
/// that it names. A phi is given its incoming pairs by one more call each.
pub open spec fn spec_entry_asks<'ctx>(
    functions: Seq<FunctionValue<'ctx>>,
    function: FunctionValue<'ctx>,
    slots: Seq<Slot<'ctx>>,
    entry: EmittedSpec,
    j: int,
) -> Seq<Asked<'ctx>> {
    let place = spec_asked_place(spec_block_before(slots, j, entry.at.unwrap()));
    let made = spec_made(slots, j);
    let none = Seq::<BasicValueEnum<'ctx>>::empty();
    let nowhere = Seq::<BasicBlock<'ctx>>::empty();
    match entry.instr {
        InstrSpec::Block { name } => seq![
            Asked {
                what: Asking::Block { name },
                values: none,
                blocks: nowhere,
                functions: seq![function],
                made,
            },
        ],
        InstrSpec::Param { .. } => Seq::empty(),
        InstrSpec::ConstInt { .. } => Seq::empty(),
        InstrSpec::GlobalString { text, name } => seq![
            place,
            spec_asked_build(Asking::GlobalString { text, name }, none, nowhere, made),
        ],
        InstrSpec::Alloca { ty, name } => seq![
            place,
            spec_asked_build(Asking::Alloca { ty, name }, none, nowhere, made),
        ],
        InstrSpec::Load { ptr, name } => seq![
            place,
            spec_asked_build(
                Asking::Load { name },
                seq![spec_value_before(slots, j, ptr)],
                nowhere,
                made,
            ),
        ],
        InstrSpec::Store { ptr, value } => seq![
            place,
            spec_asked_build(
                Asking::Store,
                seq![spec_value_before(slots, j, ptr), spec_value_before(slots, j, value)],
                nowhere,
                made,
            ),
        ],
        InstrSpec::StructGep { ptr, index, name } => seq![
            place,
            spec_asked_build(
                Asking::StructGep { index, name },
                seq![spec_value_before(slots, j, ptr)],
                nowhere,
                made,
            ),
        ],
        InstrSpec::Binary { op, lhs, rhs, name } => seq![
            place,
            spec_asked_build(
                Asking::Binary { op, name },
                seq![spec_value_before(slots, j, lhs), spec_value_before(slots, j, rhs)],
                nowhere,
                made,
            ),
        ],
        InstrSpec::Compare { predicate, lhs, rhs, name } => seq![
            place,
            spec_asked_build(
                Asking::Compare { predicate, name },
                seq![spec_value_before(slots, j, lhs), spec_value_before(slots, j, rhs)],
                nowhere,
                made,
            ),
        ],
        InstrSpec::PtrToInt { ptr, name } => seq![
            place,
            spec_asked_build(
                Asking::PtrToInt { ty: IrTypeSpec::word(), name },
                seq![spec_value_before(slots, j, ptr)],
                nowhere,
                made,
            ),
        ],
        InstrSpec::IntToPtr { address, pointee, name } => seq![
            place,
            spec_asked_build(
                Asking::IntToPtr { ty: pointee.pointer_to(), name },
                seq![spec_value_before(slots, j, address)],
                nowhere,
                made,
            ),
        ],
        InstrSpec::PointerCast { ptr, pointee, name } => seq![
            place,
            spec_asked_build(
                Asking::PointerCast { ty: pointee.pointer_to(), name },
                seq![spec_value_before(slots, j, ptr)],
                nowhere,
                made,
            ),
        ],
        InstrSpec::Call { callee, args, name } => seq![
            place,
            Asked {
                what: Asking::Call { name },
                values: spec_values_before(slots, j, args),
                blocks: nowhere,
                functions: seq![functions[callee as int]],
                made,
            },
        ],
        InstrSpec::Phi { ty, incoming, name } => seq![
            place,
            spec_asked_build(
                Asking::Phi { ty, name },
                none,
                nowhere,
                Made::Phi(spec_phi_of(slots[j]->Value_0)),
            ),
        ] + Seq::new(incoming.len(), |k: int| spec_asked_incoming(slots, j, incoming[k])),
        InstrSpec::Br { target } => seq![
            place,
            spec_asked_build(Asking::Br, none, seq![spec_block_before(slots, j, target)], made),
        ],
        InstrSpec::CondBr { condition, if_true, if_false } => seq![
            place,
            spec_asked_build(
                Asking::CondBr,
                seq![spec_value_before(slots, j, condition)],
                seq![spec_block_before(slots, j, if_true), spec_block_before(slots, j, if_false)],
                made,
            ),
        ],
        InstrSpec::Ret => seq![place, spec_asked_build(Asking::Ret, none, nowhere, made)],
    }
}

/// The value that LLVM gave for entry `id`: there is one exactly where the
/// entry has a slot and that slot holds a value.
fn value_at<'ctx>(slots: &Vec<Slot<'ctx>>, id: usize) -> (r: Option<BasicValueEnum<'ctx>>)
    ensures
        r is Some <==> spec_holds_value(slots@, id as int),
        r is Some ==> r.unwrap() == slots@[id as int]->Value_0,
{
    if id >= slots.len() {
        return None;
    }
    match &slots[id] {
        Slot::Value(v, _) => Some(*v),
        _ => None,
    }
}

/// The type of the value that LLVM gave for entry `id`, where it gave one.
fn type_at<'a, 'ctx>(slots: &'a Vec<Slot<'ctx>>, id: usize) -> (r: Option<&'a IrType>)
    ensures
        r is Some <==> spec_holds_value(slots@, id as int),
        r is Some ==> *r.unwrap() == slots@[id as int]->Value_1,
{
    if id >= slots.len() {
        return None;
    }
    match &slots[id] {
        Slot::Value(_, ty) => Some(ty),
        _ => None,
    }
}

/// The block that LLVM gave for entry `id`: there is one exactly where the
/// entry has a slot and that slot holds a block.
fn block_at<'ctx>(slots: &Vec<Slot<'ctx>>, id: usize) -> (r: Option<BasicBlock<'ctx>>)
    ensures
        r is Some <==> spec_holds_block(slots@, id as int),
        r is Some ==> r.unwrap() == slots@[id as int]->Block_0,
{
    if id >= slots.len() {
        return None;
    }
    match &slots[id] {
        Slot::Block(b) => Some(*b),
        _ => None,
    }
}

fn mismatch(text: &str) -> (e: CodegenError)
    ensures
        e@ == ErrorSpec::TypeMismatch,
{
    CodegenError::TypeMismatch(String::from_str(text))
}

/// The values that LLVM gave for the entries `ids`, in the order of `ids`:
/// there are some exactly where each of the entries holds a value.
fn values_at<'ctx>(slots: &Vec<Slot<'ctx>>, ids: &Vec<usize>) -> (r: Option<
    Vec<BasicValueEnum<'ctx>>,
>)
    ensures
        r is Some <==> forall|k: int|
            0 <= k < ids@.len() ==> spec_holds_value(slots@, (#[trigger] ids@[k]) as int),
        r is Some ==> r.unwrap()@.len() == ids@.len(),
        r is Some ==> forall|k: int|
            0 <= k < ids@.len() ==> (#[trigger] r.unwrap()@[k]) == slots@[ids@[k] as int]->Value_0,
{
    let mut values: Vec<BasicValueEnum<'ctx>> = Vec::new();
    let mut k: usize = 0;
    while k < ids.len()
        invariant
            k <= ids.len(),
            values@.len() == k,
            forall|j: int| 0 <= j < k ==> spec_holds_value(slots@, (#[trigger] ids@[j]) as int),
            forall|j: int|
                0 <= j < k ==> (#[trigger] values@[j]) == slots@[ids@[j] as int]->Value_0,
        decreases ids.len() - k,
    {
        match value_at(slots, ids[k]) {
            Some(v) => values.push(v),
            None => {
                assert(!spec_holds_value(slots@, ids@[k as int] as int));
                return None;
            },
        }
        k += 1;
    }
    Some(values)
}

/// The types of the values of the entries `ids`, which all hold one.
pub open spec fn spec_slot_types_of(slots: Seq<Slot>, ids: Seq<usize>) -> Seq<IrTypeSpec> {
    Seq::new(ids.len(), |k: int| slots[ids[k] as int]->Value_1@)
}

/// Whether the values of the entries `ids`, which all hold one, fit the
/// parameters of `callee` as the arguments of a call.
fn args_fit<'ctx>(slots: &Vec<Slot<'ctx>>, ids: &Vec<usize>, callee: &FunctionPlan) -> (r: bool)
    requires
        forall|k: int| 0 <= k < ids@.len() ==> spec_holds_value(slots@, (#[trigger] ids@[k]) as int),
    ensures
        r == spec_args_fit(callee@.params, callee@.var_args, spec_slot_types_of(slots@, ids@)),
{
    let ghost given = spec_slot_types_of(slots@, ids@);
    if callee.var_args {
        if ids.len() < callee.params.len() {
            return false;
        }
    } else {
        if ids.len() != callee.params.len() {
            return false;
        }
    }
    let mut k: usize = 0;
    while k < callee.params.len()
        invariant
            k <= callee.params.len(),
            callee.params.len() <= ids.len(),
            given == spec_slot_types_of(slots@, ids@),
            forall|j: int| 0 <= j < ids@.len() ==> spec_holds_value(slots@, (#[trigger] ids@[j]) as int),
            forall|j: int| 0 <= j < k ==> #[trigger] given[j] == callee@.params[j],
        decreases callee.params.len() - k,
    {
        assert(spec_holds_value(slots@, ids@[k as int] as int));
        let ty = match type_at(slots, ids[k]) {
            Some(ty) => ty,
            None => {
                return false;
            },
        };
        proof {
            assert(callee@.params[k as int] == callee.params@[k as int]@);
            assert(given[k as int] == ty@);
        }
        if !ty.same(&callee.params[k]) {
            return false;
        }
        k += 1;
    }
    true
}

/// Moves the builder to the block that the entry was issued in. Succeeds
/// exactly where the entry names a block that LLVM has given; the builder
/// then stands there.
fn place<'ctx>(build: &mut Build<'ctx>, slots: &Vec<Slot<'ctx>>, at: Option<usize>) -> (r:
    CodegenStatus)
    ensures
        r is Ok <==> at is Some && spec_holds_block(slots@, at.unwrap() as int),
        r is Ok ==> final(build).position() == at,
        r is Ok ==> final(build).asked() == old(build).asked().push(
            spec_asked_place(slots@[at.unwrap() as int]->Block_0),
        ),
        r is Err ==> *final(build) == *old(build),
        r is Err && at is None ==> r.unwrap_err()@ == ErrorSpec::NotInABlock,
        r is Err && at is Some ==> r.unwrap_err()@ == ErrorSpec::TypeMismatch,
{
    let target = match at {
        Some(b) => b,
        None => {
            return Err(CodegenError::NotInABlock);
        },
    };
    let block = match block_at(slots, target) {
        Some(b) => b,
        None => {
            return Err(mismatch("the builder stands in no block"));
        },
    };
    position_at_end(build, block, target);
    Ok(())
}

/// Hands the phi its incoming pairs, in order, up to the first pair whose
/// value or block LLVM has not given or whose value is not of the phi's
/// type `ty`. Says whether every pair was handed over.
fn add_incoming<'ctx>(
    build: &mut Build<'ctx>,
    slots: &Vec<Slot<'ctx>>,
    phi: inkwell::values::PhiValue<'ctx>,
    ty: &IrType,
    incoming: &Vec<(usize, usize)>,
) -> (r: bool)
    requires
        crate::ir_gen::llvm::spec_phi_type(phi) == ty@,
        spec_slots_sound(slots@),
    ensures
        r <==> forall|k: int|
            0 <= k < incoming@.len() ==> {
                &&& spec_holds_value(slots@, (#[trigger] incoming@[k]).0 as int)
                &&& slots@[incoming@[k].0 as int]->Value_1@ == ty@
                &&& spec_holds_block(slots@, incoming@[k].1 as int)
            },
        final(build).position() == old(build).position(),
        r ==> final(build).asked() == old(build).asked() + Seq::new(
            incoming@.len(),
            |k: int|
                spec_asked_build(
                    Asking::Incoming,
                    seq![slots@[incoming@[k].0 as int]->Value_0],
                    seq![slots@[incoming@[k].1 as int]->Block_0],
                    Made::Phi(phi),
                ),
        ),
{
    let mut k: usize = 0;
    assert(build.asked() =~= old(build).asked() + Seq::new(
        0,
        |k: int|
            spec_asked_build(
                Asking::Incoming,
                seq![slots@[incoming@[k].0 as int]->Value_0],
                seq![slots@[incoming@[k].1 as int]->Block_0],
                Made::Phi(phi),
            ),
    ));
    while k < incoming.len()
        invariant
            k <= incoming.len(),
            crate::ir_gen::llvm::spec_phi_type(phi) == ty@,
            spec_slots_sound(slots@),
            build.position() == old(build).position(),
            build.asked() == old(build).asked() + Seq::new(
                k as nat,
                |k: int|
                    spec_asked_build(
                        Asking::Incoming,
                        seq![slots@[incoming@[k].0 as int]->Value_0],
                        seq![slots@[incoming@[k].1 as int]->Block_0],
                        Made::Phi(phi),
                    ),
            ),
            forall|j: int|
                0 <= j < k ==> {
                    &&& spec_holds_value(slots@, (#[trigger] incoming@[j]).0 as int)
                    &&& slots@[incoming@[j].0 as int]->Value_1@ == ty@
                    &&& spec_holds_block(slots@, incoming@[j].1 as int)
                },
        decreases incoming.len() - k,
    {
        let value = match value_at(slots, incoming[k].0) {
            Some(v) => v,
            None => {
                assert(!spec_holds_value(slots@, incoming@[k as int].0 as int));
                return false;
            },
        };
        let given = match type_at(slots, incoming[k].0) {
            Some(t) => t,
            None => {
                return false;
            },
        };
        if !given.same(ty) {
            assert(slots@[incoming@[k as int].0 as int]->Value_1@ != ty@);
            return false;
        }
        let block = match block_at(slots, incoming[k].1) {
            Some(b) => b,
            None => {
                assert(!spec_holds_block(slots@, incoming@[k as int].1 as int));
                return false;
            },
        };
        let ghost before = build.asked();
        phi_add_incoming(build, phi, value, block);
        assert(build.asked() =~= old(build).asked() + Seq::new(
            (k + 1) as nat,
            |k: int|
                spec_asked_build(
                    Asking::Incoming,
                    seq![slots@[incoming@[k].0 as int]->Value_0],
                    seq![slots@[incoming@[k].1 as int]->Block_0],
                    Made::Phi(phi),
                ),
        ));
        k += 1;
    }
    true
}

/// Asks LLVM for the entry at `index` of the code of the function at `f`
/// of `plans`, whose earlier entries stand in `slots`, and keeps what LLVM
/// gives in one more slot. Before a call it tests what LLVM's rules ask of
/// the operands' types, by the types kept beside the values. Succeeds
/// exactly where the entry is in order and the builder takes it; the calls
/// made are then those that stand for the entry. On failure the slots are as
/// they were, and the error says whether the entry names no place, calls a
/// function that is not there, or has something else amiss.
#[verifier::rlimit(100)]
fn emit_entry<'ctx>(
    context: &'ctx Context,
    build: &mut Build<'ctx>,
    function: FunctionValue<'ctx>,
    functions: &Vec<FunctionValue<'ctx>>,
    plans: &Vec<FunctionPlan>,
    f: usize,
    slots: &mut Vec<Slot<'ctx>>,
    index: usize,
) -> (r: CodegenStatus)
    requires
        f < plans.len(),
        index == old(slots).len(),
        index < plans@[f as int].code.len(),
        spec_functions_match(functions@, functions_view(plans@)),
        function == functions@[f as int],
        spec_slots_match(
            old(slots)@,
            plans@[f as int]@,
            spec_slot_types(functions_view(plans@), plans@[f as int]@, index as int),
            function,
        ),
    ensures
        r is Ok <==> spec_entry_taken(functions_view(plans@), plans@[f as int]@, index as int),
        r is Ok ==> {
            &&& final(slots).len() == index + 1
            &&& final(slots)@.take(index as int) == old(slots)@
            &&& spec_slots_match(
                final(slots)@,
                plans@[f as int]@,
                spec_slot_types(functions_view(plans@), plans@[f as int]@, index + 1),
                function,
            )
            &&& final(build).asked() == old(build).asked() + spec_entry_asks(
                functions@,
                function,
                final(slots)@,
                plans@[f as int]@.code[index as int],
                index as int,
            )
        },
        r is Err ==> final(slots)@ == old(slots)@,
        r is Err ==> r.unwrap_err()@ == spec_entry_error(
            functions_view(plans@),
            plans@[f as int]@,
            index as int,
        ),
{
    let plan = &plans[f];
    let entry = &plan.code[index];
    let ghost fs = functions_view(plans@);
    let ghost own = plans@[f as int]@;
    let ghost types = spec_slot_types(fs, own, index as int);
    let ghost instr = own.code[index as int].instr;
    let ghost before = build.asked();
    proof {
        assert(fs[f as int] == own);
        assert(own.code[index as int] == plan.code@[index as int]@);
        assert(spec_slot_types(fs, own, index + 1) == types.push(
            spec_result_type(fs, own, types, instr),
        ));
        assert(spec_slots_sound(slots@));
    }
    let made = match &entry.instr {
        Instr::Block { name } => Slot::Block(
            append_basic_block(context, build, function, name.as_str()),
        ),
        Instr::Param { index: nth } => {
            if *nth == u32::MAX {
                return Err(mismatch("the function has no such parameter"));
            }
            match nth_param(function, *nth) {
                Some(v) => {
                    proof {
                        assert(own.params.len() == plan.params@.len());
                        assert(own.params[*nth as int] == plan.params@[*nth as int]@);
                    }
                    Slot::Value(v, plan.params[*nth as usize].duplicate())
                },
                None => {
                    return Err(mismatch("the function has no such parameter"));
                },
            }
        },
        Instr::ConstInt { bits, constant } => {
            let ty = lower_type(context, &IrType::Int(*bits))?;
            match const_int(ty, *constant) {
                Some(v) => Slot::Value(v, IrType::Int(*bits)),
                None => {
                    return Err(mismatch("the constant has no integer type"));
                },
            }
        },
        Instr::GlobalString { text, name } => {
            place(build, slots, entry.at)?;
            Slot::Value(
                build_global_string_ptr(build, text.as_str(), name.as_str()),
                IrType::byte().pointer_to(),
            )
        },
        Instr::Alloca { ty, name } => {
            place(build, slots, entry.at)?;
            let lowered = lower_type(context, ty)?;
            Slot::Value(build_alloca(build, lowered, name.as_str()), ty.duplicate().pointer_to())
        },
        Instr::Load { ptr, name } => {
            place(build, slots, entry.at)?;
            let source = value_at(slots, *ptr).ok_or(mismatch("load of no value"))?;
            let given = type_at(slots, *ptr).ok_or(mismatch("load of no value"))?;
            let loaded = given.pointee().ok_or(mismatch("load through no pointer"))?;
            Slot::Value(
                build_load(build, source, name.as_str()).ok_or(mismatch("load through no pointer"))?,
                loaded.duplicate(),
            )
        },
        Instr::Store { ptr, value } => {
            place(build, slots, entry.at)?;
            let target = value_at(slots, *ptr).ok_or(mismatch("store to no value"))?;
            let holder = type_at(slots, *ptr).ok_or(mismatch("store to no value"))?;
            let stored = value_at(slots, *value).ok_or(mismatch("store of no value"))?;
            let given = type_at(slots, *value).ok_or(mismatch("store of no value"))?;
            let held = holder.pointee().ok_or(mismatch("store through no pointer"))?;
            if !held.same(given) {
                return Err(mismatch("store of another type than the slot's"));
            }
            if !build_store(build, target, stored) {
                return Err(mismatch("store through no pointer"));
            }
            Slot::Nothing
        },
        Instr::StructGep { ptr, index: field, name } => {
            place(build, slots, entry.at)?;
            let base = value_at(slots, *ptr).ok_or(mismatch("field of no value"))?;
            let given = type_at(slots, *ptr).ok_or(mismatch("field of no value"))?;
            let found = given.field(*field).ok_or(mismatch("no such field"))?;
            Slot::Value(
                build_struct_gep(build, base, *field, name.as_str()).ok_or(
                    mismatch("no such field"),
                )?,
                found.duplicate().pointer_to(),
            )
        },
        Instr::Binary { op, lhs, rhs, name } => {
            place(build, slots, entry.at)?;
            let l = value_at(slots, *lhs).ok_or(mismatch("operand is no value"))?;
            let left = type_at(slots, *lhs).ok_or(mismatch("operand is no value"))?;
            let r = value_at(slots, *rhs).ok_or(mismatch("operand is no value"))?;
            let right = type_at(slots, *rhs).ok_or(mismatch("operand is no value"))?;
            if !left.same(right) {
                return Err(mismatch("operands of two types"));
            }
            let built = match op {
                BinaryOp::And => build_and(build, l, r, name.as_str()),
                BinaryOp::Or => build_or(build, l, r, name.as_str()),
                BinaryOp::Add => build_int_add(build, l, r, name.as_str()),
                BinaryOp::Mul => build_int_mul(build, l, r, name.as_str()),
            };
            Slot::Value(built.ok_or(mismatch("operand is no integer"))?, left.duplicate())
        },
        Instr::Compare { predicate, lhs, rhs, name } => {
            place(build, slots, entry.at)?;
            let l = value_at(slots, *lhs).ok_or(mismatch("operand is no value"))?;
            let left = type_at(slots, *lhs).ok_or(mismatch("operand is no value"))?;
            let r = value_at(slots, *rhs).ok_or(mismatch("operand is no value"))?;
            let right = type_at(slots, *rhs).ok_or(mismatch("operand is no value"))?;
            if !left.same(right) {
                return Err(mismatch("operands of two types"));
            }
            Slot::Value(
                build_int_compare(build, *predicate, l, r, name.as_str()).ok_or(
                    mismatch("operand is no integer"),
                )?,
                IrType::Int(1),
            )
        },
        Instr::PtrToInt { ptr, name } => {
            place(build, slots, entry.at)?;
            let p = value_at(slots, *ptr).ok_or(mismatch("operand is no value"))?;
            let word = int_type(context, 64);
            Slot::Value(
                build_ptr_to_int(build, p, word, name.as_str()).ok_or(
                    mismatch("operand is no pointer"),
                )?,
                IrType::word(),
            )
        },
        Instr::IntToPtr { address, pointee, name } => {
            place(build, slots, entry.at)?;
            let a = value_at(slots, *address).ok_or(mismatch("operand is no value"))?;
            let target = pointer_type(lower_type(context, pointee)?);
            Slot::Value(
                build_int_to_ptr(build, a, target, name.as_str()).ok_or(
                    mismatch("operand is no integer"),
                )?,
                pointee.duplicate().pointer_to(),
            )
        },
        Instr::PointerCast { ptr, pointee, name } => {
            place(build, slots, entry.at)?;
            let p = value_at(slots, *ptr).ok_or(mismatch("operand is no value"))?;
            let target = pointer_type(lower_type(context, pointee)?);
            Slot::Value(
                build_pointer_cast(build, p, target, name.as_str()).ok_or(
                    mismatch("operand is no pointer"),
                )?,
                pointee.duplicate().pointer_to(),
            )
        },
        Instr::Call { callee, args, name } => {
            place(build, slots, entry.at)?;
            if *callee >= functions.len() {
                return Err(CodegenError::FunctionMissing);
            }
            if args.len() > u32::MAX as usize {
                return Err(mismatch("too many arguments"));
            }
            let values = values_at(slots, args).ok_or(mismatch("argument is no value"))?;
            proof {
                assert(fs[*callee as int] == plans@[*callee as int]@);
                assert(spec_slot_types_of(slots@, args@) =~= spec_types_at(types, args@));
                assert(spec_types_of(values@) =~= spec_slot_types_of(slots@, args@));
                assert(values@ =~= spec_values_before(slots@, index as int, args@));
            }
            if !args_fit(slots, args, &plans[*callee]) {
                return Err(mismatch("arguments do not fit the function"));
            }
            let built = build_call(build, functions[*callee], &values, name.as_str());
            match (built, &plans[*callee].result) {
                (Some(v), Some(t)) => Slot::Value(v, t.duplicate()),
                (None, None) => Slot::Nothing,
                _ => {
                    return Err(mismatch("the call gave what the function does not return"));
                },
            }
        },
        Instr::Phi { ty, incoming, name } => {
            place(build, slots, entry.at)?;
            let lowered = lower_type(context, ty)?;
            let phi = build_phi(build, lowered, name.as_str());
            if !add_incoming(build, slots, phi, ty, incoming) {
                proof {
                    if spec_entry_taken(fs, own, index as int) {
                        assert forall|k: int| 0 <= k < incoming@.len() implies {
                            &&& spec_holds_value(slots@, (#[trigger] incoming@[k]).0 as int)
                            &&& slots@[incoming@[k].0 as int]->Value_1@ == ty@
                            &&& spec_holds_block(slots@, incoming@[k].1 as int)
                        } by {
                            assert(spec_type_at(types, incoming@[k].0) == Some(ty@));
                            assert(spec_block_operands(instr)[k] == incoming@[k].1);
                        }
                    }
                }
                return Err(mismatch("incoming value or block is none"));
            }
            Slot::Value(phi_value(phi), ty.duplicate())
        },
        Instr::Br { target } => {
            place(build, slots, entry.at)?;
            proof {
                assert(spec_block_operands(instr)[0] == *target);
            }
            let block = block_at(slots, *target).ok_or(mismatch("branch to no block"))?;
            build_unconditional_branch(build, block);
            Slot::Nothing
        },
        Instr::CondBr { condition, if_true, if_false } => {
            place(build, slots, entry.at)?;
            let c = value_at(slots, *condition).ok_or(mismatch("condition is no value"))?;
            let given = type_at(slots, *condition).ok_or(mismatch("condition is no value"))?;
            let t = block_at(slots, *if_true).ok_or(mismatch("branch to no block"))?;
            let f = block_at(slots, *if_false).ok_or(mismatch("branch to no block"))?;
            if !given.same(&IrType::Int(1)) {
                return Err(mismatch("condition is no bit"));
            }
            if !build_conditional_branch(build, c, t, f) {
                return Err(mismatch("condition is no integer"));
            }
            Slot::Nothing
        },
        Instr::Ret => {
            place(build, slots, entry.at)?;
            build_return(build);
            Slot::Nothing
        },
    };
    slots.push(made);
    proof {
        let after = spec_entry_asks(
            functions@,
            function,
            slots@,
            own.code[index as int],
            index as int,
        );
        assert(instr is Block ==> build.asked() =~= before + after);
        assert(instr is Param ==> build.asked() =~= before + after);
        assert(instr is ConstInt ==> build.asked() =~= before + after);
        assert(instr is GlobalString ==> build.asked() =~= before + after);
        assert(instr is Alloca ==> build.asked() =~= before + after);
        assert(instr is Load ==> build.asked() =~= before + after);
        assert(instr is Store ==> build.asked() =~= before + after);
        assert(instr is StructGep ==> build.asked() =~= before + after);
        assert(instr is Binary ==> build.asked() =~= before + after);
        assert(instr is Compare ==> build.asked() =~= before + after);
        assert(instr is PtrToInt ==> build.asked() =~= before + after);
        assert(instr is IntToPtr ==> build.asked() =~= before + after);
        assert(instr is PointerCast ==> build.asked() =~= before + after);
        if instr is Call {
            assert(spec_values_before(slots@, index as int, instr->args) =~= spec_values_before(
                old(slots)@,
                index as int,
                instr->args,
            ));
        }
        assert(instr is Call ==> build.asked() =~= before + after);
        assert(instr is Phi ==> build.asked() =~= before + after);
        assert(instr is Br ==> build.asked() =~= before + after);
        assert(instr is CondBr ==> build.asked() =~= before + after);
        assert(instr is Ret ==> build.asked() =~= before + after);
    }
    Ok(())
}

/// The calls that stand for the first `n` entries of a function's code.
pub open spec fn spec_code_asks<'ctx>(
    functions: Seq<FunctionValue<'ctx>>,
    function: FunctionValue<'ctx>,
    slots: Seq<Slot<'ctx>>,
    own: FunctionSpec,
    n: int,
) -> Seq<Asked<'ctx>>
    decreases n,
{
    if n <= 0 {
        Seq::empty()
    } else {
        spec_code_asks(functions, function, slots, own, n - 1) + spec_entry_asks(
            functions,
            function,
            slots,
            own.code[n - 1],
            n - 1,
        )
    }
}

/// The calls for an entry look at no slot behind the entry's own.
proof fn lemma_entry_asks_kept<'ctx>(
    functions: Seq<FunctionValue<'ctx>>,
    function: FunctionValue<'ctx>,
    slots: Seq<Slot<'ctx>>,
    more: Slot<'ctx>,
    entry: EmittedSpec,
    j: int,
)
    requires
        0 <= j < slots.len(),
    ensures
        spec_entry_asks(functions, function, slots.push(more), entry, j) == spec_entry_asks(
            functions,
            function,
            slots,
            entry,
            j,
        ),
{
    let longer = slots.push(more);
    assert(longer[j] == slots[j]);
    assert forall|id: usize| spec_value_before(longer, j, id) == spec_value_before(
        slots,
        j,
        id,
    ) by {
        if id < j {
            assert(longer[id as int] == slots[id as int]);
        }
    }
    assert forall|id: usize| spec_block_before(longer, j, id) == spec_block_before(
        slots,
        j,
        id,
    ) by {
        if id < j {
            assert(longer[id as int] == slots[id as int]);
        }
    }
    match entry.instr {
        InstrSpec::Call { args, .. } => {
            assert(spec_values_before(longer, j, args) =~= spec_values_before(slots, j, args));
        },
        InstrSpec::Phi { incoming, .. } => {
            assert(Seq::new(incoming.len(), |k: int| spec_asked_incoming(longer, j, incoming[k]))
                =~= Seq::new(incoming.len(), |k: int| spec_asked_incoming(slots, j, incoming[k])));
        },
        _ => {},
    }
}

/// The calls for the first entries look at no slot behind theirs.
proof fn lemma_code_asks_kept<'ctx>(
    functions: Seq<FunctionValue<'ctx>>,
    function: FunctionValue<'ctx>,
    slots: Seq<Slot<'ctx>>,
    more: Slot<'ctx>,
    own: FunctionSpec,
    n: int,
)
    requires
        n <= slots.len(),
    ensures
        spec_code_asks(functions, function, slots.push(more), own, n) == spec_code_asks(
            functions,
            function,
            slots,
            own,
            n,
        ),
    decreases n,
{
    if n > 0 {
        lemma_code_asks_kept(functions, function, slots, more, own, n - 1);
        lemma_entry_asks_kept(functions, function, slots, more, own.code[n - 1], n - 1);
    }
}

/// Asks LLVM for the body of `function`, the function at `f` of `plans`,
/// entry by entry, and stops with the error of the first entry that is
/// refused. Where none is, it gives what LLVM gave for each entry, and the
/// calls made are those that stand for the entries, in order.
#[verifier::rlimit(50)]
fn emit_code<'ctx>(
    context: &'ctx Context,
    build: &mut Build<'ctx>,
    function: FunctionValue<'ctx>,
    functions: &Vec<FunctionValue<'ctx>>,
    plans: &Vec<FunctionPlan>,
    f: usize,
) -> (r: CodegenResult<Vec<Slot<'ctx>>>)
    requires
        f < plans.len(),
        spec_functions_match(functions@, functions_view(plans@)),
        function == functions@[f as int],
    ensures
        match spec_code_error(functions_view(plans@), plans@[f as int]@, 0) {
            Some(e) => r is Err && r->Err_0@ == e,
            None => r is Ok,
        },
        r is Ok ==> {
            &&& r.unwrap()@.len() == plans@[f as int]@.code.len()
            &&& spec_slots_match(
                r.unwrap()@,
                plans@[f as int]@,
                spec_slot_types(
                    functions_view(plans@),
                    plans@[f as int]@,
                    plans@[f as int]@.code.len() as int,
                ),
                function,
            )
            &&& final(build).asked() == old(build).asked() + spec_code_asks(
                functions@,
                function,
                r.unwrap()@,
                plans@[f as int]@,
                plans@[f as int]@.code.len() as int,
            )
        },
{
    let ghost fs = functions_view(plans@);
    let ghost own = plans@[f as int]@;
    let mut slots: Vec<Slot<'ctx>> = Vec::new();
    let mut index: usize = 0;
    proof {
        assert(build.asked() =~= old(build).asked() + spec_code_asks(
            functions@,
            function,
            slots@,
            own,
            0,
        ));
    }
    while index < plans[f].code.len()
        invariant
            f < plans.len(),
            fs == functions_view(plans@),
            own == plans@[f as int]@,
            index <= plans@[f as int].code.len(),
            index == slots.len(),
            own.code.len() == plans@[f as int].code.len(),
            spec_functions_match(functions@, fs),
            function == functions@[f as int],
            spec_slots_match(slots@, own, spec_slot_types(fs, own, index as int), function),
            spec_code_error(fs, own, 0) == spec_code_error(fs, own, index as int),
            build.asked() == old(build).asked() + spec_code_asks(
                functions@,
                function,
                slots@,
                own,
                index as int,
            ),
        decreases plans@[f as int].code.len() - index,
    {
        let ghost earlier = slots@;
        let ghost asked = build.asked();
        emit_entry(context, build, function, functions, plans, f, &mut slots, index)?;
        proof {
            assert(slots@ == earlier.push(slots@[index as int])) by {
                assert(slots@ =~= earlier.push(slots@[index as int]));
            }
            lemma_code_asks_kept(
                functions@,
                function,
                earlier,
                slots@[index as int],
                own,
                index as int,
            );
            assert(build.asked() =~= old(build).asked() + spec_code_asks(
                functions@,
                function,
                slots@,
                own,
                index + 1,
            ));
        }
        index += 1;
    }
    Ok(slots)
}

/// Asks LLVM for the type of `plan` and declares a function of that type
/// and name in the module. The function then has the plan's parameters and
/// result.
fn declare_function<'ctx>(context: &'ctx Context, build: &mut Build<'ctx>, plan: &FunctionPlan) -> (r:
    CodegenResult<FunctionValue<'ctx>>)
    ensures
        r is Ok <==> spec_signature_supported(plan@) && spec_signature_fits(plan@),
        r is Ok ==> spec_signature_of(r.unwrap()) == (plan@.params, plan@.result, plan@.var_args),
        r is Ok ==> final(build).asked() == old(build).asked().push(
            spec_asked_function(plan@, r.unwrap()),
        ),
        final(build).position() == old(build).position(),
        r is Err ==> r->Err_0@ == ErrorSpec::TypeMismatch,
{
    if plan.params.len() > u32::MAX as usize {
        return Err(mismatch("a function of too many parameters"));
    }
    let params = lower_types(context, &plan.params)?;
    let ty = match &plan.result {
        Some(result) => value_fn_type(lower_type(context, result)?, &params, plan.var_args),
        None => void_fn_type(void_type(context), &params, plan.var_args),
    };
    Ok(add_function(build, plan.name.as_str(), ty))
}

/// The record of the call that declares the function `plan` and gives
/// `made`.
pub open spec fn spec_asked_function<'ctx>(plan: FunctionSpec, made: FunctionValue<'ctx>) -> Asked<
    'ctx,
> {
    Asked {
        what: Asking::Function {
            name: plan.name,
            params: plan.params,
            result: plan.result,
            var_args: plan.var_args,
        },
        values: Seq::empty(),
        blocks: Seq::empty(),
        functions: Seq::empty(),
        made: Made::Function(made),
    }
}

/// The calls that stand for the bodies of the first `n` functions.
pub open spec fn spec_bodies_asks<'ctx>(
    plans: Seq<FunctionSpec>,
    functions: Seq<FunctionValue<'ctx>>,
    made: Seq<Seq<Slot<'ctx>>>,
    n: int,
) -> Seq<Asked<'ctx>>
    decreases n,
{
    if n <= 0 {
        Seq::empty()
    } else {
        spec_bodies_asks(plans, functions, made, n - 1) + spec_code_asks(
            functions,
            functions[n - 1],
            made[n - 1],
            plans[n - 1],
            plans[n - 1].code.len() as int,
        )
    }
}

/// The calls for the first bodies look at no slots behind theirs.
proof fn lemma_bodies_asks_kept<'ctx>(
    plans: Seq<FunctionSpec>,
    functions: Seq<FunctionValue<'ctx>>,
    made: Seq<Seq<Slot<'ctx>>>,
    more: Seq<Slot<'ctx>>,
    n: int,
)
    requires
        n <= made.len(),
    ensures
        spec_bodies_asks(plans, functions, made.push(more), n) == spec_bodies_asks(
            plans,
            functions,
            made,
            n,
        ),
    decreases n,
{
    if n > 0 {
        lemma_bodies_asks_kept(plans, functions, made, more, n - 1);
        assert(made.push(more)[n - 1] == made[n - 1]);
    }
}

/// Whether the calls `asked` built the module that `plan` describes, with
/// `functions` for its functions and `made` for what LLVM gave for each
/// entry of each function: first the module was asked for, by the plan's
/// name; then each function was declared, in order, with its name,
/// parameters and result; then the body of each function was built, in
/// order, entry by entry, each instruction from the values and blocks that
/// LLVM gave for the entries that it names. And the values are of the types
/// that the plan gives them.
pub open spec fn spec_built<'ctx>(
    asked: Seq<Asked<'ctx>>,
    name: Seq<char>,
    plans: Seq<FunctionSpec>,
    functions: Seq<FunctionValue<'ctx>>,
    made: Seq<Seq<Slot<'ctx>>>,
) -> bool {
    &&& spec_functions_match(functions, plans)
    &&& made.len() == plans.len()
    &&& forall|f: int|
        0 <= f < plans.len() ==> (#[trigger] made[f]).len() == plans[f].code.len()
            && spec_slots_match(
            made[f],
            plans[f],
            spec_slot_types(plans, plans[f], plans[f].code.len() as int),
            functions[f],
        )
    &&& asked == seq![spec_asked_module(name)] + Seq::new(
        plans.len(),
        |f: int| spec_asked_function(plans[f], functions[f]),
    ) + spec_bodies_asks(plans, functions, made, plans.len() as int)
}

/// What building a module gives: the module, its functions, and what LLVM
/// gave for each entry of each function's code.
pub struct Emission<'ctx> {
    pub module: inkwell::module::Module<'ctx>,
    pub functions: Vec<FunctionValue<'ctx>>,
    pub made: Vec<Vec<Slot<'ctx>>>,
}

/// The slots of each function, as a sequence of sequences.
pub open spec fn spec_all_slots<'ctx>(made: Seq<Vec<Slot<'ctx>>>) -> Seq<Seq<Slot<'ctx>>> {
    Seq::new(made.len(), |f: int| made[f]@)
}

/// Builds the LLVM module called `name` that `plan` describes: first every
/// function is declared, in order, then the body of each function is built,
/// entry by entry. Succeeds exactly where the plan is emittable and the builder takes
/// every entry, which is where every operand is of the type that LLVM's
/// rules for its instruction ask for. The module is then built by the calls
/// that stand for the plan, and comes with the functions and values that
/// LLVM gave. Fails with `TypeMismatch` where the type of a function is not
/// supported, and else with the error of the first entry that is refused.
pub fn emit_plan<'ctx>(context: &'ctx Context, name: &str, plan: &CodegenState) -> (r:
    CodegenResult<Emission<'ctx>>)
    ensures
        r is Ok <==> spec_emittable(plan@.functions) && spec_typed(plan@.functions),
        match spec_refusal(plan@.functions) {
            Some(e) => r is Err && r->Err_0@ == e,
            None => r is Ok,
        },
        r is Ok ==> spec_built(
            spec_built_by(r.unwrap().module),
            name@,
            plan@.functions,
            r.unwrap().functions@,
            spec_all_slots(r.unwrap().made@),
        ),
{
    let ghost fs = plan@.functions;
    let mut build = start_build(context, name);
    let mut functions: Vec<FunctionValue<'ctx>> = Vec::new();
    let mut f: usize = 0;
    proof {
        assert(build.asked() =~= seq![spec_asked_module(name@)] + Seq::new(
            0,
            |g: int| spec_asked_function(fs[g], functions@[g]),
        ));
    }
    while f < plan.functions.len()
        invariant
            f <= plan.functions.len(),
            functions.len() == f,
            fs == plan@.functions,
            fs == functions_view(plan.functions@),
            fs.len() == plan.functions.len(),
            forall|g: int|
                0 <= g < f ==> spec_signature_supported(#[trigger] fs[g]) && spec_signature_fits(
                    fs[g],
                ),
            forall|g: int|
                0 <= g < f ==> spec_signature_of(#[trigger] functions@[g]) == (
                    fs[g].params,
                    fs[g].result,
                    fs[g].var_args,
                ),
            build.asked() == seq![spec_asked_module(name@)] + Seq::new(
                f as nat,
                |g: int| spec_asked_function(fs[g], functions@[g]),
            ),
        decreases plan.functions.len() - f,
    {
        proof {
            assert(fs[f as int] == plan.functions@[f as int]@);
            lemma_refusal(fs);
        }
        let declared = declare_function(context, &mut build, &plan.functions[f])?;
        let ghost earlier = functions@;
        functions.push(declared);
        proof {
            assert(build.asked() =~= seq![spec_asked_module(name@)] + Seq::new(
                (f + 1) as nat,
                |g: int| spec_asked_function(fs[g], functions@[g]),
            )) by {
                assert forall|g: int| 0 <= g < f implies functions@[g] == earlier[g] by {}
            }
        }
        f += 1;
    }
    let ghost declared = build.asked();
    let mut made: Vec<Vec<Slot<'ctx>>> = Vec::new();
    let mut f: usize = 0;
    proof {
        assert(build.asked() =~= declared + spec_bodies_asks(
            fs,
            functions@,
            spec_all_slots(made@),
            0,
        ));
    }
    while f < plan.functions.len()
        invariant
            f <= plan.functions.len(),
            made.len() == f,
            functions.len() == plan.functions.len(),
            fs == plan@.functions,
            fs == functions_view(plan.functions@),
            fs.len() == plan.functions.len(),
            spec_functions_match(functions@, fs),
            forall|g: int|
                0 <= g < fs.len() ==> spec_signature_supported(#[trigger] fs[g])
                    && spec_signature_fits(fs[g]),
            spec_bodies_error(fs, 0) == spec_bodies_error(fs, f as int),
            forall|g: int|
                0 <= g < f ==> (#[trigger] made@[g])@.len() == fs[g].code.len()
                    && spec_slots_match(
                    made@[g]@,
                    fs[g],
                    spec_slot_types(fs, fs[g], fs[g].code.len() as int),
                    functions@[g],
                ),
            build.asked() == declared + spec_bodies_asks(
                fs,
                functions@,
                spec_all_slots(made@),
                f as int,
            ),
        decreases plan.functions.len() - f,
    {
        proof {
            assert(fs[f as int] == plan.functions@[f as int]@);
        }
        let built = emit_code(context, &mut build, functions[f], &functions, &plan.functions, f);
        let slots = match built {
            Ok(slots) => slots,
            Err(e) => {
                proof {
                    lemma_refusal(fs);
                }
                return Err(e);
            },
        };
        let ghost earlier = spec_all_slots(made@);
        made.push(slots);
        proof {
            assert(spec_all_slots(made@) =~= earlier.push(made@[f as int]@));
            lemma_bodies_asks_kept(fs, functions@, earlier, made@[f as int]@, f as int);
            assert(build.asked() =~= declared + spec_bodies_asks(
                fs,
                functions@,
                spec_all_slots(made@),
                f + 1,
            ));
        }
        f += 1;
    }
    proof {
        lemma_refusal(fs);
        assert forall|g: int| 0 <= g < fs.len() implies (#[trigger] spec_all_slots(
            made@,
        )[g]).len() == fs[g].code.len() && spec_slots_match(
            spec_all_slots(made@)[g],
            fs[g],
            spec_slot_types(fs, fs[g], fs[g].code.len() as int),
            functions@[g],
        ) by {
            assert(spec_all_slots(made@)[g] == made@[g]@);
        }
    }
    Ok(Emission { module: finish(build), functions, made })
}

/// Builds the LLVM module called `name` that `plan` describes, as
/// `emit_plan` does, and gives the module alone.
pub fn emit_named<'ctx>(context: &'ctx Context, name: &str, plan: &CodegenState) -> (r:
    CodegenResult<inkwell::module::Module<'ctx>>)
    ensures
        r is Ok <==> spec_emittable(plan@.functions) && spec_typed(plan@.functions),
        match spec_refusal(plan@.functions) {
            Some(e) => r is Err && r->Err_0@ == e,
            None => r is Ok,
        },
        r is Ok ==> spec_holds(r->Ok_0, name@, plan@.functions),
{
    let emission = emit_plan(context, name, plan)?;
    proof {
        assert(spec_built(
            spec_built_by(emission.module),
            name@,
            plan@.functions,
            emission.functions@,
            spec_all_slots(emission.made@),
        ));
    }
    Ok(emission.module)
}

/// Builds the LLVM module that `plan` describes, under the plan's name.
pub fn emit_module<'ctx>(context: &'ctx Context, plan: &CodegenState) -> (r: CodegenResult<
    inkwell::module::Module<'ctx>,
>)
    ensures
        r is Ok <==> spec_emittable(plan@.functions) && spec_typed(plan@.functions),
        match spec_refusal(plan@.functions) {
            Some(e) => r is Err && r->Err_0@ == e,
            None => r is Ok,
        },
        r is Ok ==> spec_holds(r->Ok_0, plan@.name, plan@.functions),
{
    emit_named(context, plan.name.as_str(), plan)
}

/// Whether the module is called `name` and was built by the calls that
/// stand for the functions `plans`, in order, with some functions and values
/// that LLVM gave for them.
pub open spec fn spec_holds<'ctx>(
    module: inkwell::module::Module<'ctx>,
    name: Seq<char>,
    plans: Seq<FunctionSpec>,
) -> bool {
    exists|functions: Seq<FunctionValue<'ctx>>, made: Seq<Seq<Slot<'ctx>>>|
        #[trigger] spec_built(spec_built_by(module), name, plans, functions, made)
}

} // verus!
