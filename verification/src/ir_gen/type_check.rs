//! Checks generated code against the typing rules before anything is
//! handed to LLVM: whether every operand has a value of the type that its
//! instruction asks for.

use crate::ir_gen::ir::{
    functions_view, ir_types_view, lemma_struct_fits, lemma_struct_supported, spec_type_fits,
    spec_type_supported, spec_types_fit, spec_types_supported, FunctionPlan, Instr, IrType,
    IrTypeSpec, MAX_INT_BITS,
};
use crate::ir_gen::llvm::spec_args_fit;
use crate::ir_gen::typing::{
    spec_code_typed, spec_entry_typed, spec_result_type, spec_signature_fits, spec_slot_types,
    spec_type_at, spec_typed, spec_types_at,
};
use vstd::prelude::*;

verus! {

/// The mathematical value of the types found so far.
pub open spec fn spec_found(types: Seq<Option<IrType>>) -> Seq<Option<IrTypeSpec>> {
    Seq::new(
        types.len(),
        |i: int|
            match types[i] {
                Some(t) => Some(t@),
                None => None,
            },
    )
}

/// Whether every type of `types` is supported.
pub fn all_supported(types: &Vec<IrType>) -> (r: bool)
    ensures
        r == spec_types_supported(ir_types_view(types@)),
    decreases types,
{
    let mut i: usize = 0;
    while i < types.len()
        invariant
            i <= types.len(),
            forall|j: int| 0 <= j < i ==> spec_type_supported(#[trigger] types@[j]@),
        decreases types.len() - i,
    {
        if !supported(&types[i]) {
            assert(ir_types_view(types@)[i as int] == types@[i as int]@);
            return false;
        }
        i += 1;
    }
    assert forall|j: int| 0 <= j < types@.len() implies spec_type_supported(
        #[trigger] ir_types_view(types@)[j],
    ) by {
        assert(spec_type_supported(types@[j]@));
    }
    true
}

/// Whether every integer type inside `ty` has a width of at least one bit
/// and at most 64.
pub fn supported(ty: &IrType) -> (r: bool)
    ensures
        r == spec_type_supported(ty@),
    decreases ty,
{
    match ty {
        IrType::Int(bits) => 1 <= *bits && *bits <= MAX_INT_BITS,
        IrType::Pointer(pointee) => supported(pointee),
        IrType::Struct(fields, packed) => {
            proof {
                lemma_struct_supported(ir_types_view(fields@), *packed);
            }
            all_supported(fields)
        },
    }
}

/// Whether every type of `types` fits, and their number too.
pub fn all_fit(types: &Vec<IrType>) -> (r: bool)
    ensures
        r == spec_types_fit(ir_types_view(types@)),
    decreases types,
{
    if types.len() > u32::MAX as usize {
        return false;
    }
    let mut i: usize = 0;
    while i < types.len()
        invariant
            i <= types.len(),
            types.len() <= u32::MAX,
            forall|j: int| 0 <= j < i ==> spec_type_fits(#[trigger] types@[j]@),
        decreases types.len() - i,
    {
        if !fits(&types[i]) {
            assert(ir_types_view(types@)[i as int] == types@[i as int]@);
            return false;
        }
        i += 1;
    }
    assert forall|j: int| 0 <= j < types@.len() implies spec_type_fits(
        #[trigger] ir_types_view(types@)[j],
    ) by {
        assert(spec_type_fits(types@[j]@));
    }
    true
}

/// Whether every struct type inside `ty` has few enough fields for their
/// number to be written in 32 bits.
pub fn fits(ty: &IrType) -> (r: bool)
    ensures
        r == spec_type_fits(ty@),
    decreases ty,
{
    match ty {
        IrType::Int(_) => true,
        IrType::Pointer(pointee) => fits(pointee),
        IrType::Struct(fields, packed) => {
            proof {
                lemma_struct_fits(ir_types_view(fields@), *packed);
            }
            all_fit(fields)
        },
    }
}

/// Whether the numbers in the type of `function` can be written in 32
/// bits.
pub fn signature_fits(function: &FunctionPlan) -> (r: bool)
    ensures
        r == spec_signature_fits(function@),
{
    all_fit(&function.params) && match &function.result {
        Some(ty) => fits(ty),
        None => true,
    }
}

/// The type of the value of entry `id`, where the entry has a value.
fn known<'a>(types: &'a Vec<Option<IrType>>, id: usize) -> (r: Option<&'a IrType>)
    ensures
        r is Some <==> spec_type_at(spec_found(types@), id) is Some,
        r is Some ==> r.unwrap()@ == spec_type_at(spec_found(types@), id).unwrap(),
{
    if id >= types.len() {
        return None;
    }
    match &types[id] {
        Some(t) => Some(t),
        None => None,
    }
}

/// Whether the entries `args` all have values and these fit the
/// parameters of `callee` as the arguments of a call.
fn call_fits(types: &Vec<Option<IrType>>, args: &Vec<usize>, callee: &FunctionPlan) -> (r: bool)
    ensures
        r == ((forall|k: int|
            0 <= k < args@.len() ==> spec_type_at(spec_found(types@), #[trigger] args@[k]) is Some)
            && spec_args_fit(
            callee@.params,
            callee@.var_args,
            spec_types_at(spec_found(types@), args@),
        )),
{
    let ghost found = spec_found(types@);
    let ghost given = spec_types_at(found, args@);
    let mut k: usize = 0;
    while k < args.len()
        invariant
            k <= args.len(),
            found == spec_found(types@),
            forall|j: int| 0 <= j < k ==> spec_type_at(found, #[trigger] args@[j]) is Some,
        decreases args.len() - k,
    {
        if known(types, args[k]).is_none() {
            return false;
        }
        k += 1;
    }
    if callee.var_args {
        if args.len() < callee.params.len() {
            return false;
        }
    } else {
        if args.len() != callee.params.len() {
            return false;
        }
    }
    let mut k: usize = 0;
    while k < callee.params.len()
        invariant
            k <= callee.params.len(),
            callee.params.len() <= args.len(),
            found == spec_found(types@),
            given == spec_types_at(found, args@),
            forall|j: int| 0 <= j < args@.len() ==> spec_type_at(found, #[trigger] args@[j]) is Some,
            forall|j: int| 0 <= j < k ==> #[trigger] given[j] == callee@.params[j],
        decreases callee.params.len() - k,
    {
        assert(spec_type_at(found, args@[k as int]) is Some);
        let ty = match known(types, args[k]) {
            Some(ty) => ty,
            None => {
                return false;
            },
        };
        proof {
            assert(callee@.params[k as int] == callee.params@[k as int]@);
            assert(given[k as int] == ty@);
        }
        if !ty.same(&callee.params[k]) {
            return false;
        }
        k += 1;
    }
    true
}

/// Whether the values that come into a phi all are there and of the type
/// `ty`.
fn incoming_fit(types: &Vec<Option<IrType>>, incoming: &Vec<(usize, usize)>, ty: &IrType) -> (r:
    bool)
    ensures
        r == (forall|k: int|
            0 <= k < incoming@.len() ==> spec_type_at(
                spec_found(types@),
                (#[trigger] incoming@[k]).0,
            ) == Some(ty@)),
{
    let mut k: usize = 0;
    while k < incoming.len()
        invariant
            k <= incoming.len(),
            forall|j: int|
                0 <= j < k ==> spec_type_at(spec_found(types@), (#[trigger] incoming@[j]).0)
                    == Some(ty@),
        decreases incoming.len() - k,
    {
        match known(types, incoming[k].0) {
            Some(given) => {
                if !given.same(ty) {
                    assert(spec_type_at(spec_found(types@), incoming@[k as int].0) != Some(ty@));
                    return false;
                }
            },
            None => {
                assert(spec_type_at(spec_found(types@), incoming@[k as int].0) is None);
                return false;
            },
        }
        k += 1;
    }
    true
}

/// Whether the builder takes `instr`, an instruction of the function at
/// `f` of `plans`, when the earlier entries have the values of `types`; and
/// if it does, the type of the value that the builder gives for it, if it
/// gives one.
pub fn instr_typed(plans: &Vec<FunctionPlan>, f: usize, types: &Vec<Option<IrType>>, instr: &Instr)
    -> (r: Option<Option<IrType>>)
    requires
        f < plans.len(),
    ensures
        r is Some <==> crate::ir_gen::typing::spec_instr_typed(
            functions_view(plans@),
            plans@[f as int]@,
            spec_found(types@),
            instr@,
        ),
        r is Some ==> (match r.unwrap() {
            Some(t) => Some(t@),
            None => None,
        }) == spec_result_type(
            functions_view(plans@),
            plans@[f as int]@,
            spec_found(types@),
            instr@,
        ),
{
    let plan = &plans[f];
    let ghost fs = functions_view(plans@);
    proof {
        assert(fs[f as int] == plans@[f as int]@);
    }
    match instr {
        Instr::Block { .. } => Some(None),
        Instr::Param { index } => {
            assert(plan@.params.len() == plan.params@.len());
            if *index < u32::MAX && (*index as usize) < plan.params.len() {
                assert(plan@.params[*index as int] == plan.params@[*index as int]@);
                Some(Some(plan.params[*index as usize].duplicate()))
            } else {
                None
            }
        },
        Instr::ConstInt { bits, .. } => {
            if 1 <= *bits && *bits <= MAX_INT_BITS {
                Some(Some(IrType::Int(*bits)))
            } else {
                None
            }
        },
        Instr::GlobalString { .. } => Some(Some(IrType::byte().pointer_to())),
        Instr::Alloca { ty, .. } => {
            if supported(ty) && fits(ty) {
                Some(Some(ty.duplicate().pointer_to()))
            } else {
                None
            }
        },
        Instr::Load { ptr, .. } => match known(types, *ptr) {
            Some(given) => match given.pointee() {
                Some(loaded) => Some(Some(loaded.duplicate())),
                None => None,
            },
            None => None,
        },
        Instr::Store { ptr, value } => match (known(types, *ptr), known(types, *value)) {
            (Some(holder), Some(given)) => match holder.pointee() {
                Some(held) => if held.same(given) {
                    Some(None)
                } else {
                    None
                },
                None => None,
            },
            _ => None,
        },
        Instr::StructGep { ptr, index, .. } => match known(types, *ptr) {
            Some(given) => match given.field(*index) {
                Some(found) => Some(Some(found.duplicate().pointer_to())),
                None => None,
            },
            None => None,
        },
        Instr::Binary { lhs, rhs, .. } => match (known(types, *lhs), known(types, *rhs)) {
            (Some(left), Some(right)) => if left.is_int() && left.same(right) {
                Some(Some(left.duplicate()))
            } else {
                None
            },
            _ => None,
        },
        Instr::Compare { lhs, rhs, .. } => match (known(types, *lhs), known(types, *rhs)) {
            (Some(left), Some(right)) => if left.is_int() && left.same(right) {
                Some(Some(IrType::Int(1)))
            } else {
                None
            },
            _ => None,
        },
        Instr::PtrToInt { ptr, .. } => match known(types, *ptr) {
            Some(given) => if given.pointee().is_some() {
                Some(Some(IrType::word()))
            } else {
                None
            },
            None => None,
        },
        Instr::IntToPtr { address, pointee, .. } => match known(types, *address) {
            Some(given) => if given.is_int() && supported(pointee) && fits(pointee) {
                Some(Some(pointee.duplicate().pointer_to()))
            } else {
                None
            },
            None => None,
        },
        Instr::PointerCast { ptr, pointee, .. } => match known(types, *ptr) {
            Some(given) => if given.pointee().is_some() && supported(pointee) && fits(pointee) {
                Some(Some(pointee.duplicate().pointer_to()))
            } else {
                None
            },
            None => None,
        },
        Instr::Call { callee, args, .. } => {
            if *callee >= plans.len() || args.len() > u32::MAX as usize {
                return None;
            }
            proof {
                assert(fs[*callee as int] == plans@[*callee as int]@);
            }
            if !call_fits(types, args, &plans[*callee]) {
                return None;
            }
            match &plans[*callee].result {
                Some(t) => Some(Some(t.duplicate())),
                None => Some(None),
            }
        },
        Instr::Phi { ty, incoming, .. } => {
            if supported(ty) && fits(ty) && incoming_fit(types, incoming, ty) {
                Some(Some(ty.duplicate()))
            } else {
                None
            }
        },
        Instr::Br { .. } => Some(None),
        Instr::CondBr { condition, .. } => match known(types, *condition) {
            Some(given) => if given.same(&IrType::Int(1)) {
                Some(None)
            } else {
                None
            },
            None => None,
        },
        Instr::Ret => Some(None),
    }
}

/// Whether the builder takes every entry of the code of the function at
/// `f` of `plans`.
pub fn code_typed(plans: &Vec<FunctionPlan>, f: usize) -> (r: bool)
    requires
        f < plans.len(),
    ensures
        r == spec_code_typed(functions_view(plans@), plans@[f as int]@),
{
    let ghost fs = functions_view(plans@);
    let ghost own = plans@[f as int]@;
    let mut types: Vec<Option<IrType>> = Vec::new();
    let mut index: usize = 0;
    proof {
        assert(spec_found(types@) =~= spec_slot_types(fs, own, 0));
    }
    while index < plans[f].code.len()
        invariant
            f < plans.len(),
            fs == functions_view(plans@),
            own == plans@[f as int]@,
            own.code.len() == plans@[f as int].code.len(),
            index <= plans@[f as int].code.len(),
            types.len() == index,
            spec_found(types@) == spec_slot_types(fs, own, index as int),
            forall|i: int| 0 <= i < index ==> spec_entry_typed(fs, own, i),
        decreases plans@[f as int].code.len() - index,
    {
        proof {
            assert(own.code[index as int] == plans@[f as int].code@[index as int]@);
        }
        let ghost before = spec_found(types@);
        match instr_typed(plans, f, &types, &plans[f].code[index].instr) {
            Some(result) => {
                types.push(result);
                proof {
                    assert(spec_found(types@) =~= before.push(
                        spec_result_type(fs, own, before, own.code[index as int].instr),
                    ));
                }
            },
            None => {
                assert(!spec_entry_typed(fs, own, index as int));
                return false;
            },
        }
        index += 1;
    }
    true
}

/// Whether the builder takes every entry of every function of `plans`.
pub fn plan_typed(plans: &Vec<FunctionPlan>) -> (r: bool)
    ensures
        r == spec_typed(functions_view(plans@)),
{
    let ghost fs = functions_view(plans@);
    let mut f: usize = 0;
    while f < plans.len()
        invariant
            f <= plans.len(),
            fs == functions_view(plans@),
            forall|g: int|
                0 <= g < f ==> spec_code_typed(fs, #[trigger] fs[g]) && spec_signature_fits(fs[g]),
        decreases plans.len() - f,
    {
        proof {
            assert(fs[f as int] == plans@[f as int]@);
        }
        if !code_typed(plans, f) || !signature_fits(&plans[f]) {
            return false;
        }
        f += 1;
    }
    true
}

} // verus!
