//! The types of the values in a function's code, as LLVM's builder sees
//! them, and what the builder asks of the operands of each instruction.

use crate::ir_gen::codegen_state::ErrorSpec;
use crate::ir_gen::ir::{
    spec_field_type, spec_has_field, spec_type_fits, spec_type_supported, spec_types_fit,
    FunctionSpec, InstrSpec, IrTypeSpec,
};
use crate::ir_gen::llvm::spec_args_fit;
use crate::ir_gen::order::{
    spec_code_in_order, spec_emittable, spec_entry_in_order, spec_needs_position,
    spec_signature_supported,
};
use vstd::prelude::*;

verus! {

/// The type of the value of entry `id`, where `types` holds, for each of
/// the entries so far, the type of its value if it has one.
pub open spec fn spec_type_at(types: Seq<Option<IrTypeSpec>>, id: usize) -> Option<IrTypeSpec> {
    if id < types.len() {
        types[id as int]
    } else {
        None
    }
}

/// Whether entry `id` has a value and that value is an integer.
pub open spec fn spec_int_at(types: Seq<Option<IrTypeSpec>>, id: usize) -> bool {
    spec_type_at(types, id) is Some && spec_type_at(types, id).unwrap() is Int
}

/// Whether entry `id` has a value and that value is a pointer.
pub open spec fn spec_pointer_at(types: Seq<Option<IrTypeSpec>>, id: usize) -> bool {
    spec_type_at(types, id) is Some && spec_type_at(types, id).unwrap() is Pointer
}

/// The types of the entries `ids`, one after the other.
pub open spec fn spec_types_at(types: Seq<Option<IrTypeSpec>>, ids: Seq<usize>) -> Seq<IrTypeSpec> {
    Seq::new(ids.len(), |k: int| spec_type_at(types, ids[k]).unwrap())
}

/// Whether the builder takes `instr` in a function with the signature of
/// `own`, in a module of `functions`, when the earlier entries have the
/// values of `types`: every operand has a value, and the values are of the
/// types that LLVM's rules for the instruction ask for. The two operands of
/// an operation or comparison are integers of one type; a store goes through
/// a pointer to the type of what is stored; a branch is decided by one bit;
/// the arguments of a call fit the function's parameters; what comes into a
/// phi is of the phi's type.
pub open spec fn spec_instr_typed(
    functions: Seq<FunctionSpec>,
    own: FunctionSpec,
    types: Seq<Option<IrTypeSpec>>,
    instr: InstrSpec,
) -> bool {
    match instr {
        InstrSpec::Block { .. } => true,
        InstrSpec::Param { index } => index < u32::MAX && index < own.params.len(),
        InstrSpec::ConstInt { bits, .. } => spec_type_supported(IrTypeSpec::Int(bits)),
        InstrSpec::GlobalString { .. } => true,
        InstrSpec::Alloca { ty, .. } => spec_type_supported(ty) && spec_type_fits(ty),
        InstrSpec::Load { ptr, .. } => spec_pointer_at(types, ptr),
        InstrSpec::Store { ptr, value } => spec_type_at(types, value) is Some && spec_type_at(
            types,
            ptr,
        ) == Some(spec_type_at(types, value).unwrap().pointer_to()),
        InstrSpec::StructGep { ptr, index, .. } => spec_type_at(types, ptr) is Some
            && spec_has_field(spec_type_at(types, ptr).unwrap(), index),
        InstrSpec::Binary { lhs, rhs, .. } => spec_int_at(types, lhs) && spec_type_at(types, rhs)
            == spec_type_at(types, lhs),
        InstrSpec::Compare { lhs, rhs, .. } => spec_int_at(types, lhs) && spec_type_at(types, rhs)
            == spec_type_at(types, lhs),
        InstrSpec::PtrToInt { ptr, .. } => spec_pointer_at(types, ptr),
        InstrSpec::IntToPtr { address, pointee, .. } => spec_int_at(types, address)
            && spec_type_supported(pointee) && spec_type_fits(pointee),
        InstrSpec::PointerCast { ptr, pointee, .. } => spec_pointer_at(types, ptr)
            && spec_type_supported(pointee) && spec_type_fits(pointee),
        InstrSpec::Call { callee, args, .. } => callee < functions.len() && args.len()
            <= u32::MAX && (forall|k: int|
            0 <= k < args.len() ==> spec_type_at(types, #[trigger] args[k]) is Some)
            && spec_args_fit(
            functions[callee as int].params,
            functions[callee as int].var_args,
            spec_types_at(types, args),
        ),
        InstrSpec::Phi { ty, incoming, .. } => spec_type_supported(ty) && spec_type_fits(ty)
            && forall|k: int|
            0 <= k < incoming.len() ==> spec_type_at(types, (#[trigger] incoming[k]).0) == Some(
                ty,
            ),
        InstrSpec::Br { .. } => true,
        InstrSpec::CondBr { condition, .. } => spec_type_at(types, condition) == Some(
            IrTypeSpec::Int(1),
        ),
        InstrSpec::Ret => true,
    }
}

/// The type of the value that the builder gives for `instr`, where it
/// takes the instruction and gives a value for it.
pub open spec fn spec_result_type(
    functions: Seq<FunctionSpec>,
    own: FunctionSpec,
    types: Seq<Option<IrTypeSpec>>,
    instr: InstrSpec,
) -> Option<IrTypeSpec> {
    match instr {
        InstrSpec::Block { .. } => None,
        InstrSpec::Param { index } => Some(own.params[index as int]),
        InstrSpec::ConstInt { bits, .. } => Some(IrTypeSpec::Int(bits)),
        InstrSpec::GlobalString { .. } => Some(IrTypeSpec::byte().pointer_to()),
        InstrSpec::Alloca { ty, .. } => Some(ty.pointer_to()),
        InstrSpec::Load { ptr, .. } => Some(*spec_type_at(types, ptr).unwrap()->Pointer_0),
        InstrSpec::Store { .. } => None,
        InstrSpec::StructGep { ptr, index, .. } => Some(
            spec_field_type(spec_type_at(types, ptr).unwrap(), index).pointer_to(),
        ),
        InstrSpec::Binary { lhs, .. } => spec_type_at(types, lhs),
        InstrSpec::Compare { .. } => Some(IrTypeSpec::Int(1)),
        InstrSpec::PtrToInt { .. } => Some(IrTypeSpec::word()),
        InstrSpec::IntToPtr { pointee, .. } => Some(pointee.pointer_to()),
        InstrSpec::PointerCast { pointee, .. } => Some(pointee.pointer_to()),
        InstrSpec::Call { callee, .. } => functions[callee as int].result,
        InstrSpec::Phi { ty, .. } => Some(ty),
        InstrSpec::Br { .. } => None,
        InstrSpec::CondBr { .. } => None,
        InstrSpec::Ret => None,
    }
}

/// For each of the first `n` entries of the code of `own`, the type of the
/// value that the builder gives for it, if it gives one.
pub open spec fn spec_slot_types(functions: Seq<FunctionSpec>, own: FunctionSpec, n: int) -> Seq<
    Option<IrTypeSpec>,
>
    decreases n,
{
    if n <= 0 {
        Seq::empty()
    } else {
        let before = spec_slot_types(functions, own, n - 1);
        before.push(spec_result_type(functions, own, before, own.code[n - 1].instr))
    }
}

/// Whether the builder takes the entry at `index` of the code of `own`.
pub open spec fn spec_entry_typed(functions: Seq<FunctionSpec>, own: FunctionSpec, index: int)
    -> bool {
    spec_instr_typed(functions, own, spec_slot_types(functions, own, index), own.code[index].instr)
}

/// Whether the builder takes every entry of the code of `own`.
pub open spec fn spec_code_typed(functions: Seq<FunctionSpec>, own: FunctionSpec) -> bool {
    forall|i: int| 0 <= i < own.code.len() ==> spec_entry_typed(functions, own, i)
}

/// Whether the numbers in the type of `function` can be written in 32
/// bits, as LLVM writes them: the number of its parameters, and the number
/// of fields of each struct type in its parameters and result.
pub open spec fn spec_signature_fits(function: FunctionSpec) -> bool {
    &&& spec_types_fit(function.params)
    &&& match function.result {
        Some(ty) => spec_type_fits(ty),
        None => true,
    }
}

/// Whether the builder takes every entry of every function of the module,
/// and the type of every function can be written.
pub open spec fn spec_typed(functions: Seq<FunctionSpec>) -> bool {
    forall|f: int|
        0 <= f < functions.len() ==> spec_code_typed(functions, #[trigger] functions[f])
            && spec_signature_fits(functions[f])
}

/// Whether the builder can be asked for the entry at `index` of the code
/// of `own`: the entry is in order and the builder takes it.
pub open spec fn spec_entry_taken(functions: Seq<FunctionSpec>, own: FunctionSpec, index: int)
    -> bool {
    spec_entry_in_order(own.code, functions.len() as int, index) && spec_entry_typed(
        functions,
        own,
        index,
    )
}

/// The error with which the entry at `index` of the code of `own` is
/// refused, where it is: `NotInABlock` where it needs a place and names none;
/// `FunctionMissing` where it stands in a block and calls a function that the
/// module does not have; `TypeMismatch` for everything else.
pub open spec fn spec_entry_error(functions: Seq<FunctionSpec>, own: FunctionSpec, index: int)
    -> ErrorSpec {
    let entry = own.code[index];
    if spec_needs_position(entry.instr) && entry.at is None {
        ErrorSpec::NotInABlock
    } else if entry.instr is Call && entry.at is Some && entry.at.unwrap() < index
        && own.code[entry.at.unwrap() as int].instr is Block && entry.instr->callee
        >= functions.len() {
        ErrorSpec::FunctionMissing
    } else {
        ErrorSpec::TypeMismatch
    }
}

/// The error of the first entry of the code of `own`, from `from` on, that
/// is refused, if one is.
pub open spec fn spec_code_error(functions: Seq<FunctionSpec>, own: FunctionSpec, from: int)
    -> Option<ErrorSpec>
    decreases own.code.len() - from,
{
    if from < 0 || from >= own.code.len() {
        None
    } else if !spec_entry_taken(functions, own, from) {
        Some(spec_entry_error(functions, own, from))
    } else {
        spec_code_error(functions, own, from + 1)
    }
}

/// The error of the first function of the module, from the one at `from`
/// on, that has an entry which is refused, if there is one.
pub open spec fn spec_bodies_error(functions: Seq<FunctionSpec>, from: int) -> Option<ErrorSpec>
    decreases functions.len() - from,
{
    if from < 0 || from >= functions.len() {
        None
    } else if spec_code_error(functions, functions[from], 0) is Some {
        spec_code_error(functions, functions[from], 0)
    } else {
        spec_bodies_error(functions, from + 1)
    }
}

/// The error with which LLVM cannot be asked for the module, if it cannot:
/// `TypeMismatch` where the type of one of the functions is not supported
/// or cannot be written, and else the error of the first entry that is
/// refused, function by function.
pub open spec fn spec_refusal(functions: Seq<FunctionSpec>) -> Option<ErrorSpec> {
    if !(forall|f: int|
        0 <= f < functions.len() ==> spec_signature_supported(#[trigger] functions[f])
            && spec_signature_fits(functions[f])) {
        Some(ErrorSpec::TypeMismatch)
    } else {
        spec_bodies_error(functions, 0)
    }
}

/// No entry from `from` on is refused exactly where each of them is taken.
pub proof fn lemma_code_error(functions: Seq<FunctionSpec>, own: FunctionSpec, from: int)
    requires
        0 <= from,
    ensures
        spec_code_error(functions, own, from) is None <==> forall|i: int|
            from <= i < own.code.len() ==> spec_entry_taken(functions, own, i),
    decreases own.code.len() - from,
{
    if from < own.code.len() {
        lemma_code_error(functions, own, from + 1);
    }
}

/// No function from `from` on has an entry that is refused exactly where
/// the code of each of them is in order and the builder takes all of it.
pub proof fn lemma_bodies_error(functions: Seq<FunctionSpec>, from: int)
    requires
        0 <= from,
    ensures
        spec_bodies_error(functions, from) is None <==> forall|f: int|
            from <= f < functions.len() ==> spec_code_in_order(
                (#[trigger] functions[f]).code,
                functions.len() as int,
            ) && spec_code_typed(functions, functions[f]),
    decreases functions.len() - from,
{
    if from < functions.len() {
        lemma_bodies_error(functions, from + 1);
        lemma_code_error(functions, functions[from], 0);
        let own = functions[from];
        let n = functions.len() as int;
        if spec_code_error(functions, own, 0) is None {
            assert forall|i: int| 0 <= i < own.code.len() implies spec_entry_in_order(
                own.code,
                n,
                i,
            ) by {
                assert(spec_entry_taken(functions, own, i));
            }
            assert forall|i: int| 0 <= i < own.code.len() implies spec_entry_typed(
                functions,
                own,
                i,
            ) by {
                assert(spec_entry_taken(functions, own, i));
            }
            assert(spec_code_in_order(own.code, n));
            assert(spec_code_typed(functions, own));
        }
        if spec_code_in_order(own.code, n) && spec_code_typed(functions, own) {
            assert forall|i: int| 0 <= i < own.code.len() implies spec_entry_taken(
                functions,
                own,
                i,
            ) by {
                assert(spec_entry_in_order(own.code, n, i));
                assert(spec_entry_typed(functions, own, i));
            }
            assert(spec_code_error(functions, own, 0) is None);
        }
        assert(spec_code_error(functions, own, 0) is None <==> spec_code_in_order(own.code, n)
            && spec_code_typed(functions, own));
        if spec_bodies_error(functions, from) is None {
            assert forall|f: int| from <= f < functions.len() implies spec_code_in_order(
                (#[trigger] functions[f]).code,
                n,
            ) && spec_code_typed(functions, functions[f]) by {
                if f != from {
                    assert(from + 1 <= f);
                }
            }
        }
        if forall|f: int|
            from <= f < functions.len() ==> spec_code_in_order((#[trigger] functions[f]).code, n)
                && spec_code_typed(functions, functions[f]) {
            assert(spec_code_in_order(functions[from].code, n) && spec_code_typed(
                functions,
                functions[from],
            ));
            assert forall|f: int| from + 1 <= f < functions.len() implies spec_code_in_order(
                (#[trigger] functions[f]).code,
                n,
            ) && spec_code_typed(functions, functions[f]) by {}
        }
    }
}

/// LLVM can be asked for a module exactly where it is emittable and the
/// builder takes every entry of it.
pub proof fn lemma_refusal(functions: Seq<FunctionSpec>)
    ensures
        spec_refusal(functions) is None <==> spec_emittable(functions) && spec_typed(functions),
{
    lemma_bodies_error(functions, 0);
}

/// There is one type, or none, for each of the entries.
pub proof fn lemma_slot_types_len(functions: Seq<FunctionSpec>, own: FunctionSpec, n: int)
    requires
        0 <= n,
    ensures
        spec_slot_types(functions, own, n).len() == n,
    decreases n,
{
    if n > 0 {
        lemma_slot_types_len(functions, own, n - 1);
    }
}

} // verus!
