//! What it means for generated code to be in order: every entry refers
//! only to what was issued before it, so that the code can be handed to
//! LLVM one call after the other.

use crate::ir_gen::codegen_state::CodegenSpec;
use crate::ir_gen::ir::{
    spec_type_supported, spec_types_supported, EmittedSpec, FunctionSpec, InstrSpec, IrTypeSpec,
};
use crate::ir_gen::state_values::StateValueSpec;
use vstd::prelude::*;

verus! {

/// The entries of the code that `instr` refers to as values.
pub open spec fn spec_value_operands(instr: InstrSpec) -> Seq<usize> {
    match instr {
        InstrSpec::Load { ptr, .. } => seq![ptr],
        InstrSpec::Store { ptr, value } => seq![ptr, value],
        InstrSpec::StructGep { ptr, .. } => seq![ptr],
        InstrSpec::Binary { lhs, rhs, .. } => seq![lhs, rhs],
        InstrSpec::Compare { lhs, rhs, .. } => seq![lhs, rhs],
        InstrSpec::PtrToInt { ptr, .. } => seq![ptr],
        InstrSpec::IntToPtr { address, .. } => seq![address],
        InstrSpec::PointerCast { ptr, .. } => seq![ptr],
        InstrSpec::Call { args, .. } => args,
        InstrSpec::Phi { incoming, .. } => Seq::new(incoming.len(), |i: int| incoming[i].0),
        InstrSpec::CondBr { condition, .. } => seq![condition],
        _ => Seq::empty(),
    }
}

/// The entries of the code that `instr` refers to as blocks.
pub open spec fn spec_block_operands(instr: InstrSpec) -> Seq<usize> {
    match instr {
        InstrSpec::Phi { incoming, .. } => Seq::new(incoming.len(), |i: int| incoming[i].1),
        InstrSpec::Br { target } => seq![target],
        InstrSpec::CondBr { if_true, if_false, .. } => seq![if_true, if_false],
        _ => Seq::empty(),
    }
}

/// The type that `instr` names, if it names one.
pub open spec fn spec_type_operand(instr: InstrSpec) -> Option<IrTypeSpec> {
    match instr {
        InstrSpec::ConstInt { bits, .. } => Some(IrTypeSpec::Int(bits)),
        InstrSpec::Alloca { ty, .. } => Some(ty),
        InstrSpec::IntToPtr { pointee, .. } => Some(pointee),
        InstrSpec::PointerCast { pointee, .. } => Some(pointee),
        InstrSpec::Phi { ty, .. } => Some(ty),
        _ => None,
    }
}

/// Whether `instr` is placed by the builder, so that the builder has to
/// stand somewhere.
pub open spec fn spec_needs_position(instr: InstrSpec) -> bool {
    !(instr is Block || instr is Param || instr is ConstInt)
}

/// What has to hold of the entry at `index` of `code` for LLVM to be asked
/// for it: it refers only to earlier entries, as values to those that are no
/// blocks and as blocks to those that are; the builder stands in an earlier
/// block where it has to stand somewhere; the function it calls is one of
/// the module's `functions` functions; and its type is supported.
pub open spec fn spec_entry_in_order(code: Seq<EmittedSpec>, functions: int, index: int) -> bool {
    let entry = code[index];
    &&& forall|k: int|
        0 <= k < spec_value_operands(entry.instr).len() ==> {
            &&& (#[trigger] spec_value_operands(entry.instr)[k]) < index
            &&& !(code[spec_value_operands(entry.instr)[k] as int].instr is Block)
        }
    &&& forall|k: int|
        0 <= k < spec_block_operands(entry.instr).len() ==> {
            &&& (#[trigger] spec_block_operands(entry.instr)[k]) < index
            &&& code[spec_block_operands(entry.instr)[k] as int].instr is Block
        }
    &&& spec_needs_position(entry.instr) ==> entry.at is Some && entry.at.unwrap() < index
        && code[entry.at.unwrap() as int].instr is Block
    &&& entry.instr is Call ==> entry.instr->callee < functions
    &&& match spec_type_operand(entry.instr) {
        Some(ty) => spec_type_supported(ty),
        None => true,
    }
}

/// Whether every entry of `code` is in order.
pub open spec fn spec_code_in_order(code: Seq<EmittedSpec>, functions: int) -> bool {
    forall|i: int| 0 <= i < code.len() ==> spec_entry_in_order(code, functions, i)
}

/// Whether LLVM can be asked for the function's type.
pub open spec fn spec_signature_supported(function: FunctionSpec) -> bool {
    &&& spec_types_supported(function.params)
    &&& match function.result {
        Some(ty) => spec_type_supported(ty),
        None => true,
    }
}

/// Whether LLVM can be asked for the whole IR module: for each function's
/// type and for each entry of each function's code.
pub open spec fn spec_emittable(functions: Seq<FunctionSpec>) -> bool {
    forall|f: int|
        0 <= f < functions.len() ==> spec_signature_supported(#[trigger] functions[f])
            && spec_code_in_order(functions[f].code, functions.len() as int)
}

/// Whether the entry `id` of the function being emitted holds a value:
/// whether there is such an entry and it is no block.
#[verifier::opaque]
pub open spec fn spec_value_known(state: CodegenSpec, id: usize) -> bool {
    &&& state.in_function()
    &&& id < state.code().len()
    &&& !(state.code()[id as int].instr is Block)
}

/// Whether the entry `id` of the function being emitted made a block.
#[verifier::opaque]
pub open spec fn spec_block_known(state: CodegenSpec, id: usize) -> bool {
    &&& state.in_function()
    &&& id < state.code().len()
    &&& state.code()[id as int].instr is Block
}

/// Whether every part of `value` is held by an entry of the function being
/// emitted.
pub open spec fn spec_known(state: CodegenSpec, value: StateValueSpec) -> bool {
    match value {
        StateValueSpec::Nothing => true,
        StateValueSpec::Int(v) => spec_value_known(state, v),
        StateValueSpec::Char(v) => spec_value_known(state, v),
        StateValueSpec::Bool(v) => spec_value_known(state, v),
        StateValueSpec::MemRegion { data, size } => spec_value_known(state, data)
            && spec_value_known(state, size),
        StateValueSpec::DynamicArray { data, size, .. } => spec_value_known(state, data)
            && spec_value_known(state, size),
        StateValueSpec::Tuple { ptr, .. } => spec_value_known(state, ptr),
        StateValueSpec::FixedArray { data, .. } => spec_value_known(state, data),
    }
}

/// Whether the generator's state is in order: all code emitted so far is,
/// the builder stands in a block of the function being emitted if it stands
/// anywhere, and the locals are values of that function.
#[verifier::opaque]
pub open spec fn spec_ordered(state: CodegenSpec) -> bool {
    &&& spec_emittable(state.functions)
    &&& state.current is Some ==> state.in_function()
    &&& state.position is Some ==> spec_block_known(state, state.position.unwrap())
    &&& forall|i: int|
        0 <= i < state.locals.len() ==> spec_known(state, (#[trigger] state.locals[i]).1)
}

/// Whether the builder stands in a block of the function being emitted.
pub open spec fn spec_placed(state: CodegenSpec) -> bool {
    state.position is Some && spec_block_known(state, state.position.unwrap())
}

/// Whether the generator may issue `instr` next: its operands are values
/// and blocks of the function being emitted, its type is supported, the
/// function it calls is there, and the builder stands in a block if the
/// instruction needs a place.
pub open spec fn spec_accepts(state: CodegenSpec, instr: InstrSpec) -> bool {
    match instr {
        InstrSpec::Block { .. } => true,
        InstrSpec::Param { .. } => true,
        InstrSpec::ConstInt { bits, .. } => spec_type_supported(IrTypeSpec::Int(bits)),
        InstrSpec::GlobalString { .. } => spec_placed(state),
        InstrSpec::Alloca { ty, .. } => spec_placed(state) && spec_type_supported(ty),
        InstrSpec::Load { ptr, .. } => spec_placed(state) && spec_value_known(state, ptr),
        InstrSpec::Store { ptr, value } => spec_placed(state) && spec_value_known(state, ptr)
            && spec_value_known(state, value),
        InstrSpec::StructGep { ptr, .. } => spec_placed(state) && spec_value_known(state, ptr),
        InstrSpec::Binary { lhs, rhs, .. } => spec_placed(state) && spec_value_known(state, lhs)
            && spec_value_known(state, rhs),
        InstrSpec::Compare { lhs, rhs, .. } => spec_placed(state) && spec_value_known(state, lhs)
            && spec_value_known(state, rhs),
        InstrSpec::PtrToInt { ptr, .. } => spec_placed(state) && spec_value_known(state, ptr),
        InstrSpec::IntToPtr { address, pointee, .. } => spec_placed(state) && spec_value_known(
            state,
            address,
        ) && spec_type_supported(pointee),
        InstrSpec::PointerCast { ptr, pointee, .. } => spec_placed(state) && spec_value_known(
            state,
            ptr,
        ) && spec_type_supported(pointee),
        InstrSpec::Call { callee, args, .. } => spec_placed(state) && callee
            < state.functions.len() && forall|k: int|
            0 <= k < args.len() ==> spec_value_known(state, #[trigger] args[k]),
        InstrSpec::Phi { ty, incoming, .. } => spec_placed(state) && spec_type_supported(ty)
            && forall|k: int|
            0 <= k < incoming.len() ==> spec_value_known(state, (#[trigger] incoming[k]).0)
                && spec_block_known(state, incoming[k].1),
        InstrSpec::Br { target } => spec_placed(state) && spec_block_known(state, target),
        InstrSpec::CondBr { condition, if_true, if_false } => spec_placed(state)
            && spec_value_known(state, condition) && spec_block_known(state, if_true)
            && spec_block_known(state, if_false),
        InstrSpec::Ret => spec_placed(state),
    }
}

/// What the generator may issue fits.
pub proof fn lemma_accepted_fits(state: CodegenSpec, instr: InstrSpec)
    requires
        state.in_function(),
        spec_accepts(state, instr),
    ensures
        spec_fits(state, instr),
{
    reveal(spec_value_known);
    reveal(spec_block_known);
    let code = state.code().push(EmittedSpec { at: state.position, instr });
    let index = state.code().len() as int;
    assert(code[index].instr == instr);
    assert forall|k: int| 0 <= k < spec_value_operands(instr).len() implies {
        &&& (#[trigger] spec_value_operands(instr)[k]) < index
        &&& !(code[spec_value_operands(instr)[k] as int].instr is Block)
    } by {
        let operand = spec_value_operands(instr)[k];
        match instr {
            InstrSpec::Call { args, .. } => {
                assert(spec_value_known(state, args[k]));
            },
            InstrSpec::Phi { incoming, .. } => {
                assert(spec_value_known(state, incoming[k].0));
            },
            _ => {},
        }
        assert(spec_value_known(state, operand));
        assert(code[operand as int] == state.code()[operand as int]);
    }
    assert forall|k: int| 0 <= k < spec_block_operands(instr).len() implies {
        &&& (#[trigger] spec_block_operands(instr)[k]) < index
        &&& code[spec_block_operands(instr)[k] as int].instr is Block
    } by {
        let operand = spec_block_operands(instr)[k];
        match instr {
            InstrSpec::Phi { incoming, .. } => {
                assert(spec_value_known(state, incoming[k].0));
            },
            _ => {},
        }
        assert(spec_block_known(state, operand));
        assert(code[operand as int] == state.code()[operand as int]);
    }
    if spec_needs_position(instr) {
        assert(spec_placed(state));
        assert(code[state.position.unwrap() as int] == state.code()[state.position.unwrap() as int]);
    }
}

/// Whether `instr` can be the next entry of the function being emitted
/// without bringing the code out of order.
pub open spec fn spec_fits(state: CodegenSpec, instr: InstrSpec) -> bool {
    spec_entry_in_order(
        state.code().push(EmittedSpec { at: state.position, instr }),
        state.functions.len() as int,
        state.code().len() as int,
    )
}

/// Whether every value and every block of `before` is one of `after` too.
pub open spec fn spec_keeps(before: CodegenSpec, after: CodegenSpec) -> bool {
    &&& forall|id: usize| spec_value_known(before, id) ==> #[trigger] spec_value_known(after, id)
    &&& forall|id: usize| spec_block_known(before, id) ==> #[trigger] spec_block_known(after, id)
}

/// Whether `after` is in the same function as `before` and has all of its
/// code, and at least as many functions.
pub open spec fn spec_grows(before: CodegenSpec, after: CodegenSpec) -> bool {
    &&& before.in_function()
    &&& after.in_function()
    &&& after.current == before.current
    &&& after.functions.len() >= before.functions.len()
    &&& after.code().len() >= before.code().len()
    &&& forall|k: int|
        0 <= k < before.code().len() ==> #[trigger] after.code()[k] == before.code()[k]
}

/// Whether the state is in order and the builder stands in a block of the
/// function being emitted.
pub open spec fn spec_working(state: CodegenSpec) -> bool {
    spec_ordered(state) && spec_placed(state)
}

/// Whether a step of the generator from `before` to `after` carries order
/// on: every value and block of `before` is one of `after`; and if `before`
/// was in order with the builder in a block, and `given` held of what the
/// step was handed, then `after` is in order with the builder in a block, and
/// `then` holds of what the step gave.
pub open spec fn spec_carries(before: CodegenSpec, after: CodegenSpec, given: bool, then: bool)
    -> bool {
    &&& spec_keeps(before, after)
    &&& spec_working(before) && given ==> spec_working(after) && then
}

/// An entry that is in order stays in order when code is added behind it
/// and functions are added to the module.
pub proof fn lemma_entry_stays_in_order(
    code: Seq<EmittedSpec>,
    longer: Seq<EmittedSpec>,
    functions: int,
    more_functions: int,
    index: int,
)
    requires
        0 <= index < code.len() <= longer.len(),
        forall|k: int| 0 <= k < code.len() ==> code[k] == longer[k],
        functions <= more_functions,
        spec_entry_in_order(code, functions, index),
    ensures
        spec_entry_in_order(longer, more_functions, index),
{
    let entry = code[index];
    assert(longer[index] == entry);
    assert forall|k: int| 0 <= k < spec_value_operands(entry.instr).len() implies {
        &&& (#[trigger] spec_value_operands(entry.instr)[k]) < index
        &&& !(longer[spec_value_operands(entry.instr)[k] as int].instr is Block)
    } by {
        let operand = spec_value_operands(entry.instr)[k];
        assert(operand < index);
        assert(longer[operand as int] == code[operand as int]);
    }
    assert forall|k: int| 0 <= k < spec_block_operands(entry.instr).len() implies {
        &&& (#[trigger] spec_block_operands(entry.instr)[k]) < index
        &&& longer[spec_block_operands(entry.instr)[k] as int].instr is Block
    } by {
        let operand = spec_block_operands(entry.instr)[k];
        assert(operand < index);
        assert(longer[operand as int] == code[operand as int]);
    }
    if spec_needs_position(entry.instr) {
        assert(longer[entry.at.unwrap() as int] == code[entry.at.unwrap() as int]);
    }
}

/// Code that is in order stays in order when functions are added to the
/// module.
pub proof fn lemma_code_stays_in_order(code: Seq<EmittedSpec>, functions: int, more_functions: int)
    requires
        functions <= more_functions,
        spec_code_in_order(code, functions),
    ensures
        spec_code_in_order(code, more_functions),
{
    assert forall|i: int| 0 <= i < code.len() implies spec_entry_in_order(
        code,
        more_functions,
        i,
    ) by {
        lemma_entry_stays_in_order(code, code, functions, more_functions, i);
    }
}

/// What is known stays known when the code grows.
pub proof fn lemma_known_stays(before: CodegenSpec, after: CodegenSpec)
    requires
        spec_grows(before, after),
    ensures
        spec_keeps(before, after),
        forall|value: StateValueSpec|
            spec_known(before, value) ==> #[trigger] spec_known(after, value),
{
    reveal(spec_value_known);
    reveal(spec_block_known);
    assert forall|id: usize| spec_value_known(before, id) implies #[trigger] spec_value_known(
        after,
        id,
    ) by {
        assert(after.code()[id as int] == before.code()[id as int]);
    }
    assert forall|id: usize| spec_block_known(before, id) implies #[trigger] spec_block_known(
        after,
        id,
    ) by {
        assert(after.code()[id as int] == before.code()[id as int]);
    }
}

/// An instruction that fits keeps the state in order.
pub proof fn lemma_emit_ordered(state: CodegenSpec, instr: InstrSpec)
    requires
        state.in_function(),
    ensures
        spec_keeps(state, state.emit(instr)),
        state.emit(instr).code() == state.code().push(EmittedSpec { at: state.position, instr }),
        state.emit(instr).functions.len() == state.functions.len(),
        spec_ordered(state) && spec_accepts(state, instr) ==> spec_ordered(state.emit(instr)),
        (instr is Block && state.code().len() < usize::MAX) ==> spec_block_known(
            state.emit(instr),
            state.next_id(),
        ),
        (!(instr is Block) && state.code().len() < usize::MAX) ==> spec_value_known(
            state.emit(instr),
            state.next_id(),
        ),
{
    reveal(spec_ordered);
    reveal(spec_value_known);
    reveal(spec_block_known);
    if spec_accepts(state, instr) {
        lemma_accepted_fits(state, instr);
    }
    let after = state.emit(instr);
    let current = state.current.unwrap() as int;
    let count = state.functions.len() as int;
    assert(after.code() == state.code().push(EmittedSpec { at: state.position, instr }));
    if spec_ordered(state) && spec_accepts(state, instr) {
        assert forall|f: int| 0 <= f < after.functions.len() implies spec_signature_supported(
            #[trigger] after.functions[f],
        ) && spec_code_in_order(after.functions[f].code, after.functions.len() as int) by {
            assert(spec_signature_supported(state.functions[f]));
            if f == current {
                assert forall|i: int| 0 <= i < after.code().len() implies spec_entry_in_order(
                    after.code(),
                    count,
                    i,
                ) by {
                    if i < state.code().len() {
                        lemma_entry_stays_in_order(state.code(), after.code(), count, count, i);
                    }
                }
            }
        }
    }
    assert(spec_grows(state, after));
    lemma_known_stays(state, after);
}

/// The parts of a known value are known.
pub proof fn lemma_parts_known(state: CodegenSpec, value: StateValueSpec)
    requires
        spec_known(state, value),
        value.value_type().len() == 1,
    ensures
        spec_value_known(state, value.first_part()),
        value.size_part() is Some ==> spec_value_known(state, value.size_part().unwrap()),
{
}

/// A value is known where its parts are.
pub proof fn lemma_known_by_parts(
    state: CodegenSpec,
    value: StateValueSpec,
    first: usize,
    size: usize,
)
    requires
        spec_value_known(state, first),
        value.size_part() is Some ==> spec_value_known(state, size),
    ensures
        spec_known(state, value.with_parts(first, size)),
{
}

} // verus!
