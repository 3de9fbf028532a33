//! Lowering of runtime representations to IR types, and the layout of a
//! module's state.

use crate::ast::{Handle, ModuleDecl, ModuleInfo};
use crate::ir_gen::ir::{
    ir_types_view, lemma_struct_supported, spec_type_supported, IrType, IrTypeSpec,
};
use crate::ir_gen::primitives::{
    primitives_view, spec_type_primitive_for_type, type_primitive_for_type, PrimitiveSpec,
    TypePrimitive,
};
use vstd::prelude::*;

verus! {

/// The most submodules a module may hold, so that every field of its state
/// has a 32-bit index.
pub const MAX_SUBMODULES: usize = 0x1000_0000;

/// The most handles a module may hold: one bit of the bitfield each.
pub const MAX_HANDLES: usize = 64;

/// The struct that stands for a heap span whose elements have type `elem`:
/// a data pointer, then a 64-bit size.
pub open spec fn spec_dptr_ir_type(elem: IrTypeSpec) -> IrTypeSpec {
    IrTypeSpec::Struct(seq![elem.pointer_to(), IrTypeSpec::word()], false)
}

/// The IR type of one representation.
pub open spec fn lowered_primitive(p: PrimitiveSpec) -> IrTypeSpec
    decreases p,
{
    match p {
        PrimitiveSpec::Int => IrTypeSpec::Int(64),
        PrimitiveSpec::Char => IrTypeSpec::Int(8),
        PrimitiveSpec::Bool => IrTypeSpec::Int(1),
        PrimitiveSpec::MemRegion => spec_dptr_ir_type(IrTypeSpec::byte()),
        PrimitiveSpec::DynamicArrayOf(inner) => spec_dptr_ir_type(lowered_type(inner)),
        PrimitiveSpec::PointerTo(inner) => lowered_type(inner).pointer_to(),
        PrimitiveSpec::FixedArrayOf(inner, _) => lowered_type(inner).pointer_to(),
    }
}

/// The IR type of a sequence of representations: that of its only member,
/// or else a packed struct of its members' types, in order.
pub open spec fn lowered_type(ps: Seq<PrimitiveSpec>) -> IrTypeSpec
    decreases ps,
{
    if ps.len() == 1 {
        lowered_primitive(ps[0])
    } else {
        IrTypeSpec::Struct(
            Seq::new(
                ps.len(),
                |i: int|
                    if 0 <= i < ps.len() {
                        lowered_primitive(ps[i])
                    } else {
                        IrTypeSpec::Int(0)
                    },
            ),
            true,
        )
    }
}

/// The IR type of a handle's two slots.
pub open spec fn spec_handle_type(handle: Handle) -> IrTypeSpec {
    lowered_type(spec_type_primitive_for_type(handle.h_type))
}

/// The fields of a module's state: for each handle its current slot and
/// then its update slot, then the 64-bit bitfield, then the state of each
/// submodule, all in declaration order.
pub open spec fn spec_state_fields(module: ModuleDecl) -> Seq<IrTypeSpec>
    decreases module, 1nat,
{
    Seq::new(
        2 * module.handles@.len() + 1 + module.submodules@.len(),
        |k: int|
            if 0 <= k < 2 * module.handles@.len() {
                spec_handle_type(module.handles@[k / 2])
            } else if 2 * module.handles@.len() < k < 2 * module.handles@.len() + 1
                + module.submodules@.len() {
                spec_submodule_state_type(module, k - 2 * module.handles@.len() - 1)
            } else {
                IrTypeSpec::word()
            },
    )
}

/// The IR type of the state of the submodule at `j`.
pub open spec fn spec_submodule_state_type(module: ModuleDecl, j: int) -> IrTypeSpec
    decreases module, 0nat,
{
    if 0 <= j < module.submodules@.len() {
        spec_state_type(module.submodules@[j].module)
    } else {
        IrTypeSpec::word()
    }
}

/// The IR type of a module's state: a struct with natural alignment.
pub open spec fn spec_state_type(module: ModuleDecl) -> IrTypeSpec
    decreases module, 2nat,
{
    IrTypeSpec::Struct(spec_state_fields(module), false)
}

/// A module that the generator accepts: its handles fit the bitfield, its
/// fields can be indexed, and its submodules are acceptable too.
pub open spec fn spec_well_formed(module: ModuleDecl) -> bool
    decreases module,
{
    &&& module.handles@.len() <= MAX_HANDLES
    &&& module.submodules@.len() <= MAX_SUBMODULES
    &&& forall|j: int|
        0 <= j < module.submodules@.len() ==> spec_well_formed(
            (#[trigger] module.submodules@[j]).module,
        )
}

/// Field index of the current slot of the handle at `idx`.
pub open spec fn current_slot(idx: int) -> int {
    2 * idx
}

/// Field index of the update slot of the handle at `idx`.
pub open spec fn update_slot(idx: int) -> int {
    2 * idx + 1
}

/// Field index of the bitfield.
pub open spec fn bitfield_slot(module: ModuleDecl) -> int {
    2 * (module.handles@.len() as int)
}

/// Field index of the state of the submodule at `j`.
pub open spec fn submodule_slot(module: ModuleDecl, j: int) -> int {
    2 * module.handles@.len() + 1 + j
}

/// Builds the struct that stands for a heap span of `elem`.
pub fn dptr_ir_type(elem: IrType) -> (r: IrType)
    ensures
        r@ == spec_dptr_ir_type(elem@),
        spec_type_supported(elem@) ==> spec_type_supported(r@),
{
    let mut fields: Vec<IrType> = Vec::new();
    fields.push(elem.pointer_to());
    fields.push(IrType::word());
    assert(ir_types_view(fields@) =~= seq![elem@.pointer_to(), IrTypeSpec::word()]);
    proof {
        lemma_struct_supported(ir_types_view(fields@), false);
    }
    IrType::Struct(fields, false)
}

fn lower_primitive(p: &TypePrimitive) -> (r: IrType)
    ensures
        r@ == lowered_primitive(p@),
        spec_type_supported(r@),
    decreases p,
{
    match p {
        TypePrimitive::Int => IrType::Int(64),
        TypePrimitive::Char => IrType::Int(8),
        TypePrimitive::Bool => IrType::Int(1),
        TypePrimitive::MemRegion => dptr_ir_type(IrType::byte()),
        TypePrimitive::DynamicArrayOf(inner) => dptr_ir_type(llvm_type_for_primitive(inner)),
        TypePrimitive::PointerTo(inner) => llvm_type_for_primitive(inner).pointer_to(),
        TypePrimitive::FixedArrayOf(inner, _) => llvm_type_for_primitive(inner).pointer_to(),
    }
}

/// Lowers a sequence of representations to a single IR type.
pub fn llvm_type_for_primitive(primitive_type: &Vec<TypePrimitive>) -> (r: IrType)
    ensures
        r@ == lowered_type(primitives_view(primitive_type@)),
        spec_type_supported(r@),
    decreases primitive_type,
{
    if primitive_type.len() == 1 {
        lower_primitive(&primitive_type[0])
    } else {
        let mut fields: Vec<IrType> = Vec::new();
        let mut i: usize = 0;
        while i < primitive_type.len()
            invariant
                i <= primitive_type.len(),
                fields@.len() == i,
                forall|j: int| 0 <= j < i ==> fields@[j]@ == lowered_primitive(primitive_type@[j]@),
                forall|j: int| 0 <= j < i ==> spec_type_supported(#[trigger] fields@[j]@),
            decreases primitive_type.len() - i,
        {
            fields.push(lower_primitive(&primitive_type[i]));
            i += 1;
        }
        let r = IrType::Struct(fields, true);
        assert(r@ == lowered_type(primitives_view(primitive_type@))) by {
            assert(ir_types_view(fields@) =~= lowered_type(
                primitives_view(primitive_type@),
            )->Struct_0);
        }
        proof {
            lemma_struct_supported(ir_types_view(fields@), true);
        }
        r
    }
}

/// The IR type of a handle's slots.
pub fn handle_type(handle: &Handle) -> (r: IrType)
    ensures
        r@ == spec_handle_type(*handle),
        spec_type_supported(r@),
{
    let primitive_type = type_primitive_for_type(&handle.h_type);
    llvm_type_for_primitive(&primitive_type)
}

fn all_well_formed(submodules: &Vec<ModuleInfo>) -> (r: bool)
    ensures
        r == forall|j: int|
            0 <= j < submodules@.len() ==> spec_well_formed((#[trigger] submodules@[j]).module),
    decreases submodules,
{
    let mut j: usize = 0;
    while j < submodules.len()
        invariant
            j <= submodules.len(),
            forall|k: int| 0 <= k < j ==> spec_well_formed((#[trigger] submodules@[k]).module),
        decreases submodules.len() - j,
    {
        if !submodules[j].module.is_well_formed() {
            return false;
        }
        j += 1;
    }
    true
}

fn submodule_state_types(submodules: &Vec<ModuleInfo>, fields: &mut Vec<IrType>)
    ensures
        final(fields)@.len() == old(fields)@.len() + submodules@.len(),
        forall|k: int| 0 <= k < old(fields)@.len() ==> final(fields)@[k] == old(fields)@[k],
        forall|j: int|
            0 <= j < submodules@.len() ==> spec_type_supported(
                (#[trigger] final(fields)@[old(fields)@.len() + j])@,
            ),
        forall|j: int|
            0 <= j < submodules@.len() ==> (#[trigger] final(fields)@[old(fields)@.len() + j])@
                == spec_state_type(submodules@[j].module),
    decreases submodules,
{
    let mut j: usize = 0;
    while j < submodules.len()
        invariant
            j <= submodules.len(),
            fields@.len() == old(fields)@.len() + j,
            forall|k: int| 0 <= k < old(fields)@.len() ==> fields@[k] == old(fields)@[k],
            forall|k: int|
                0 <= k < j ==> (#[trigger] fields@[old(fields)@.len() + k])@ == spec_state_type(
                    submodules@[k].module,
                ),
            forall|k: int|
                0 <= k < j ==> spec_type_supported((#[trigger] fields@[old(fields)@.len() + k])@),
        decreases submodules.len() - j,
    {
        fields.push(submodules[j].module.ir_type());
        j += 1;
    }
}

impl ModuleDecl {
    /// Whether the generator accepts the module.
    pub fn is_well_formed(&self) -> (r: bool)
        ensures
            r == spec_well_formed(*self),
        decreases self,
    {
        self.handles.len() <= MAX_HANDLES && self.submodules.len() <= MAX_SUBMODULES
            && all_well_formed(&self.submodules)
    }

    /// The IR type of the module's state. It has two fields of the same type
    /// for each handle, then the bitfield, then one field for each
    /// submodule.
    pub fn ir_type(&self) -> (r: IrType)
        ensures
            r@ == spec_state_type(*self),
            r@ == IrTypeSpec::Struct(spec_state_fields(*self), false),
            spec_type_supported(r@),
            spec_state_fields(*self).len() == 2 * self.handles@.len() + 1 + self.submodules@.len(),
            forall|i: int|
                0 <= i < self.handles@.len() ==> {
                    &&& spec_state_fields(*self)[current_slot(i)] == spec_handle_type(
                        #[trigger] self.handles@[i],
                    )
                    &&& spec_state_fields(*self)[update_slot(i)] == spec_handle_type(
                        self.handles@[i],
                    )
                },
            spec_state_fields(*self)[bitfield_slot(*self)] == IrTypeSpec::word(),
            forall|j: int|
                0 <= j < self.submodules@.len() ==> spec_state_fields(*self)[submodule_slot(
                    *self,
                    j,
                )] == spec_state_type((#[trigger] self.submodules@[j]).module),
        decreases self,
    {
        let mut sub_types: Vec<IrType> = Vec::new();
        let mut i: usize = 0;
        while i < self.handles.len()
            invariant
                i <= self.handles.len(),
                sub_types@.len() == 2 * i,
                forall|k: int|
                    0 <= k < 2 * i ==> (#[trigger] sub_types@[k])@ == spec_handle_type(
                        self.handles@[k / 2],
                    ),
                forall|k: int| 0 <= k < 2 * i ==> spec_type_supported((#[trigger] sub_types@[k])@),
            decreases self.handles.len() - i,
        {
            sub_types.push(handle_type(&self.handles[i]));
            sub_types.push(handle_type(&self.handles[i]));
            i += 1;
        }
        sub_types.push(IrType::word());
        submodule_state_types(&self.submodules, &mut sub_types);
        proof {
            let h = self.handles@.len();
            assert forall|k: int| 0 <= k < sub_types@.len() implies spec_type_supported(
                #[trigger] ir_types_view(sub_types@)[k],
            ) by {
                if k > 2 * h {
                    assert(spec_type_supported(sub_types@[(2 * h + 1) + (k - 2 * h - 1)]@));
                } else {
                    assert(spec_type_supported(sub_types@[k]@));
                }
            }
            lemma_struct_supported(ir_types_view(sub_types@), false);
        }
        assert(ir_types_view(sub_types@) =~= spec_state_fields(*self)) by {
            assert forall|k: int| 0 <= k < sub_types@.len() implies ir_types_view(sub_types@)[k]
                == spec_state_fields(*self)[k] by {
                let h = self.handles@.len();
                if k > 2 * h {
                    assert(sub_types@[(2 * h + 1) + (k - 2 * h - 1)]@ == spec_state_type(
                        self.submodules@[k - 2 * h - 1].module,
                    ));
                }
            }
        }
        assert forall|i: int| 0 <= i < self.handles@.len() implies {
            &&& spec_state_fields(*self)[current_slot(i)] == spec_handle_type(
                #[trigger] self.handles@[i],
            )
            &&& spec_state_fields(*self)[update_slot(i)] == spec_handle_type(self.handles@[i])
        } by {
            assert((2 * i) / 2 == i);
            assert((2 * i + 1) / 2 == i);
        }
        IrType::Struct(sub_types, false)
    }
}

} // verus!
