//! Values as the generator tracks them while it emits a function: which
//! entries of the code hold a value's parts, and what the value's
//! representation is.

use crate::ir_gen::codegen_state::{
    outcome, CodegenError, CodegenResult, CodegenSpec, CodegenState, CodegenStatus, ErrorSpec,
    TypedPointer, TypedPointerSpec, UpdatePointer, UpdatePointerSpec, UpdatePtrPurpose,
};
use crate::ir_gen::codegen::append_new_block;
use crate::ir_gen::codegen::runtime::{malloc, memcmp};
use crate::ir_gen::ir::{
    spec_type_supported, BinaryOp, Instr, InstrSpec, IrType, IrTypeSpec, Predicate,
};
use crate::ir_gen::order::{
    lemma_known_by_parts, lemma_parts_known, spec_block_known, spec_carries, spec_known,
    spec_value_known,
};
use crate::ir_gen::primitives::{
    clone_primitive, clone_primitives, primitives_eq, primitives_view, storage_size, stride,
    PrimitiveSpec, TypePrimitive,
};
use crate::ir_gen::types::{llvm_type_for_primitive, lowered_type};
use vstd::prelude::*;
use vstd::string::*;

verus! {

/// A value of the generated program. The numbers name the code entries that
/// produced the value's parts.
#[derive(Debug, PartialEq, Eq)]
pub enum StateValue {
    /// No value at all.
    Nothing,
    /// A 64-bit integer.
    Int(usize),
    /// An 8-bit character.
    Char(usize),
    /// A 1-bit truth value.
    Bool(usize),
    /// A heap span of bytes.
    MemRegion { data: usize, size: usize },
    /// A heap span of elements of type `elem_type`; `size` counts bytes.
    DynamicArray { data: usize, size: usize, elem_type: Vec<TypePrimitive> },
    /// A pointer to a packed struct of the given fields.
    Tuple { ptr: usize, field_types: Vec<TypePrimitive> },
    /// A pointer to `len` elements of type `elem_type`.
    FixedArray { data: usize, elem_type: Vec<TypePrimitive>, len: usize },
}

/// The mathematical value of a `StateValue`.
pub enum StateValueSpec {
    Nothing,
    Int(usize),
    Char(usize),
    Bool(usize),
    MemRegion { data: usize, size: usize },
    DynamicArray { data: usize, size: usize, elem_type: Seq<PrimitiveSpec> },
    Tuple { ptr: usize, field_types: Seq<PrimitiveSpec> },
    FixedArray { data: usize, elem_type: Seq<PrimitiveSpec>, len: usize },
}

impl View for StateValue {
    type V = StateValueSpec;

    open spec fn view(&self) -> StateValueSpec {
        match *self {
            StateValue::Nothing => StateValueSpec::Nothing,
            StateValue::Int(v) => StateValueSpec::Int(v),
            StateValue::Char(v) => StateValueSpec::Char(v),
            StateValue::Bool(v) => StateValueSpec::Bool(v),
            StateValue::MemRegion { data, size } => StateValueSpec::MemRegion { data, size },
            StateValue::DynamicArray { data, size, elem_type } => StateValueSpec::DynamicArray {
                data,
                size,
                elem_type: primitives_view(elem_type@),
            },
            StateValue::Tuple { ptr, field_types } => StateValueSpec::Tuple {
                ptr,
                field_types: primitives_view(field_types@),
            },
            StateValue::FixedArray { data, elem_type, len } => StateValueSpec::FixedArray {
                data,
                elem_type: primitives_view(elem_type@),
                len,
            },
        }
    }
}

impl StateValueSpec {
    /// The representation of the value: empty for no value, else a single
    /// primitive.
    pub open spec fn value_type(self) -> Seq<PrimitiveSpec> {
        match self {
            StateValueSpec::Nothing => Seq::empty(),
            StateValueSpec::Int(_) => seq![PrimitiveSpec::Int],
            StateValueSpec::Char(_) => seq![PrimitiveSpec::Char],
            StateValueSpec::Bool(_) => seq![PrimitiveSpec::Bool],
            StateValueSpec::MemRegion { .. } => seq![PrimitiveSpec::MemRegion],
            StateValueSpec::DynamicArray { elem_type, .. } => seq![
                PrimitiveSpec::DynamicArrayOf(elem_type),
            ],
            StateValueSpec::Tuple { field_types, .. } => seq![PrimitiveSpec::PointerTo(field_types)],
            StateValueSpec::FixedArray { elem_type, len, .. } => seq![
                PrimitiveSpec::FixedArrayOf(elem_type, len),
            ],
        }
    }

    /// The entry that holds the value, where it is a plain integer.
    pub open spec fn int_value(self) -> Option<usize> {
        match self {
            StateValueSpec::Int(v) => Some(v),
            StateValueSpec::Char(v) => Some(v),
            StateValueSpec::Bool(v) => Some(v),
            _ => None,
        }
    }

    /// The heap span at `data` of `size` bytes with the representation
    /// `value_type`, if that is the representation of a heap span.
    pub open spec fn region_of_type(
        data: usize,
        size: usize,
        value_type: Seq<PrimitiveSpec>,
    ) -> Option<StateValueSpec> {
        if value_type.len() != 1 {
            None
        } else {
            match value_type[0] {
                PrimitiveSpec::MemRegion => Some(StateValueSpec::MemRegion { data, size }),
                PrimitiveSpec::DynamicArrayOf(elem_type) => Some(
                    StateValueSpec::DynamicArray { data, size, elem_type },
                ),
                _ => None,
            }
        }
    }

    /// The width in bits of the value, where it is a plain integer.
    pub open spec fn int_bits(self) -> u32 {
        match self {
            StateValueSpec::Int(_) => 64,
            StateValueSpec::Char(_) => 8,
            _ => 1,
        }
    }
}

impl StateValue {
    pub fn new_none() -> (r: StateValue)
        ensures
            r@ == StateValueSpec::Nothing,
    {
        StateValue::Nothing
    }

    pub fn new_int(value: usize) -> (r: StateValue)
        ensures
            r@ == StateValueSpec::Int(value),
    {
        StateValue::Int(value)
    }

    pub fn new_char(value: usize) -> (r: StateValue)
        ensures
            r@ == StateValueSpec::Char(value),
    {
        StateValue::Char(value)
    }

    pub fn new_bool(value: usize) -> (r: StateValue)
        ensures
            r@ == StateValueSpec::Bool(value),
    {
        StateValue::Bool(value)
    }

    /// A heap span of the representation `value_type`, which has to be a
    /// memory region or a dynamic array.
    pub fn new_dynamic_mem_region_of_type(
        data: usize,
        size: usize,
        value_type: Vec<TypePrimitive>,
    ) -> (r: Option<StateValue>)
        ensures
            match r {
                Some(v) => StateValueSpec::region_of_type(data, size, primitives_view(value_type@))
                    == Some(v@),
                None => StateValueSpec::region_of_type(data, size, primitives_view(value_type@))
                    is None,
            },
    {
        if value_type.len() != 1 {
            return None;
        }
        proof {
            assert(primitives_view(value_type@)[0] == value_type@[0]@);
        }
        match &value_type[0] {
            TypePrimitive::MemRegion => Some(StateValue::MemRegion { data, size }),
            TypePrimitive::DynamicArrayOf(elem) => Some(
                StateValue::DynamicArray { data, size, elem_type: clone_primitives(elem) },
            ),
            _ => None,
        }
    }

    #[verifier::when_used_as_spec(spec_is_none)]
    pub fn is_none(&self) -> (r: bool)
        ensures
            r == (self@ is Nothing),
    {
        match self {
            StateValue::Nothing => true,
            _ => false,
        }
    }

    pub open spec fn spec_is_none(&self) -> bool {
        self@ is Nothing
    }

    /// The entry that holds the value, where it is a plain integer.
    pub fn into_int_value(&self) -> (r: Option<usize>)
        ensures
            r == self@.int_value(),
    {
        match self {
            StateValue::Int(v) => Some(*v),
            StateValue::Char(v) => Some(*v),
            StateValue::Bool(v) => Some(*v),
            _ => None,
        }
    }

    /// The representation of the value.
    pub fn value_type(&self) -> (r: Vec<TypePrimitive>)
        ensures
            primitives_view(r@) == self@.value_type(),
    {
        let mut out: Vec<TypePrimitive> = Vec::new();
        match self {
            StateValue::Nothing => {},
            StateValue::Int(_) => out.push(TypePrimitive::Int),
            StateValue::Char(_) => out.push(TypePrimitive::Char),
            StateValue::Bool(_) => out.push(TypePrimitive::Bool),
            StateValue::MemRegion { .. } => out.push(TypePrimitive::MemRegion),
            StateValue::DynamicArray { elem_type, .. } => out.push(
                TypePrimitive::DynamicArrayOf(clone_primitives(elem_type)),
            ),
            StateValue::Tuple { field_types, .. } => out.push(
                TypePrimitive::PointerTo(clone_primitives(field_types)),
            ),
            StateValue::FixedArray { elem_type, len, .. } => out.push(
                TypePrimitive::FixedArrayOf(clone_primitives(elem_type), *len),
            ),
        }
        assert(primitives_view(out@) =~= self@.value_type());
        out
    }

    /// A copy of the value.
    pub fn duplicate(&self) -> (r: StateValue)
        ensures
            r@ == self@,
    {
        match self {
            StateValue::Nothing => StateValue::Nothing,
            StateValue::Int(v) => StateValue::Int(*v),
            StateValue::Char(v) => StateValue::Char(*v),
            StateValue::Bool(v) => StateValue::Bool(*v),
            StateValue::MemRegion { data, size } => StateValue::MemRegion {
                data: *data,
                size: *size,
            },
            StateValue::DynamicArray { data, size, elem_type } => StateValue::DynamicArray {
                data: *data,
                size: *size,
                elem_type: clone_primitives(elem_type),
            },
            StateValue::Tuple { ptr, field_types } => StateValue::Tuple {
                ptr: *ptr,
                field_types: clone_primitives(field_types),
            },
            StateValue::FixedArray { data, elem_type, len } => StateValue::FixedArray {
                data: *data,
                elem_type: clone_primitives(elem_type),
                len: *len,
            },
        }
    }
}

impl CodegenSpec {
    /// Loads the two parts of the heap span stored at `ptr`: the state, the
    /// data pointer and the size.
    pub open spec fn load_region(self, ptr: usize, name: Seq<char>) -> (CodegenSpec, usize, usize) {
        let data_ptr = self.emit(InstrSpec::StructGep { ptr, index: 0, name: "data_ptr"@ });
        let data = data_ptr.emit(InstrSpec::Load { ptr: self.next_id(), name });
        let size_ptr = data.emit(InstrSpec::StructGep { ptr, index: 1, name: "size_ptr"@ });
        let size = size_ptr.emit(InstrSpec::Load { ptr: data.next_id(), name: "size"@ });
        (size, data_ptr.next_id(), size_ptr.next_id())
    }

    /// Stores the two parts of a heap span to the slot at `ptr`.
    pub open spec fn store_region(self, ptr: usize, data: usize, size: usize) -> CodegenSpec {
        let data_ptr = self.emit(InstrSpec::StructGep { ptr, index: 0, name: "data_ptr"@ });
        let data_stored = data_ptr.emit(InstrSpec::Store { ptr: self.next_id(), value: data });
        let size_ptr = data_stored.emit(InstrSpec::StructGep { ptr, index: 1, name: "size_ptr"@ });
        size_ptr.emit(InstrSpec::Store { ptr: data_stored.next_id(), value: size })
    }

    /// Loads the value that `source` points to. Scalars and pointers take
    /// one load, heap spans one for the data pointer and one for the size.
    /// Only a single primitive can be loaded.
    pub open spec fn load_value(self, source: TypedPointerSpec, name: Seq<char>) -> Result<
        (CodegenSpec, StateValueSpec),
        ErrorSpec,
    > {
        if source.value_type.len() != 1 {
            Err(ErrorSpec::TypeMismatch)
        } else {
            let loaded = self.emit(InstrSpec::Load { ptr: source.ptr, name });
            let id = self.next_id();
            match source.value_type[0] {
                PrimitiveSpec::Int => Ok((loaded, StateValueSpec::Int(id))),
                PrimitiveSpec::Char => Ok((loaded, StateValueSpec::Char(id))),
                PrimitiveSpec::Bool => Ok((loaded, StateValueSpec::Bool(id))),
                PrimitiveSpec::MemRegion => {
                    let (after, data, size) = self.load_region(source.ptr, name);
                    Ok((after, StateValueSpec::MemRegion { data, size }))
                },
                PrimitiveSpec::DynamicArrayOf(elem_type) => {
                    let (after, data, size) = self.load_region(source.ptr, name);
                    Ok((after, StateValueSpec::DynamicArray { data, size, elem_type }))
                },
                PrimitiveSpec::PointerTo(field_types) => Ok(
                    (loaded, StateValueSpec::Tuple { ptr: id, field_types }),
                ),
                PrimitiveSpec::FixedArrayOf(elem_type, len) => Ok(
                    (loaded, StateValueSpec::FixedArray { data: id, elem_type, len }),
                ),
            }
        }
    }

    /// Stores `value` to the slot that `target` points to. The two have to
    /// have the same representation.
    pub open spec fn store_value(self, value: StateValueSpec, target: TypedPointerSpec) -> Result<
        (CodegenSpec, ()),
        ErrorSpec,
    > {
        if value.value_type() != target.value_type {
            Err(ErrorSpec::TypeMismatch)
        } else {
            Ok(
                (
                    match value {
                        StateValueSpec::Nothing => self,
                        StateValueSpec::Int(v) => self.emit(
                            InstrSpec::Store { ptr: target.ptr, value: v },
                        ),
                        StateValueSpec::Char(v) => self.emit(
                            InstrSpec::Store { ptr: target.ptr, value: v },
                        ),
                        StateValueSpec::Bool(v) => self.emit(
                            InstrSpec::Store { ptr: target.ptr, value: v },
                        ),
                        StateValueSpec::MemRegion { data, size } => self.store_region(
                            target.ptr,
                            data,
                            size,
                        ),
                        StateValueSpec::DynamicArray { data, size, .. } => self.store_region(
                            target.ptr,
                            data,
                            size,
                        ),
                        StateValueSpec::Tuple { ptr, .. } => self.emit(
                            InstrSpec::Store { ptr: target.ptr, value: ptr },
                        ),
                        StateValueSpec::FixedArray { data, .. } => self.emit(
                            InstrSpec::Store { ptr: target.ptr, value: data },
                        ),
                    },
                    (),
                ),
            )
        }
    }

    /// Replaces the bitfield at `bitfield_ptr` by itself combined with
    /// `operand` under `op`.
    pub open spec fn change_bitfield(self, bitfield_ptr: usize, op: BinaryOp, operand: u64)
        -> CodegenSpec {
        let bits = self.emit(InstrSpec::Load { ptr: bitfield_ptr, name: "bitfield"@ });
        let mask = bits.emit(InstrSpec::ConstInt { bits: 64, constant: operand });
        let changed = mask.emit(
            InstrSpec::Binary {
                op,
                lhs: self.next_id(),
                rhs: bits.next_id(),
                name: "new_bitfield"@,
            },
        );
        changed.emit(InstrSpec::Store { ptr: bitfield_ptr, value: mask.next_id() })
    }

    /// A null pointer to a value of type `pointee`: the state and the entry
    /// that holds the pointer.
    pub open spec fn null_pointer(self, pointee: IrTypeSpec) -> (CodegenSpec, usize) {
        let zero = self.emit(InstrSpec::ConstInt { bits: 64, constant: 0 });
        (
            zero.emit(
                InstrSpec::IntToPtr { address: self.next_id(), pointee, name: "null"@ },
            ),
            zero.next_id(),
        )
    }

    /// Stores the zero of its representation to the slot that `target`
    /// points to: zero for an integer, a character or a truth value, a null
    /// pointer for a pointer, and a null data pointer with size zero for a
    /// heap span. Nothing is stored where the slot is no single primitive.
    pub open spec fn store_zero(self, target: TypedPointerSpec) -> CodegenSpec {
        if target.value_type.len() != 1 {
            self
        } else {
            match target.value_type[0] {
                PrimitiveSpec::MemRegion => {
                    let (with_null, null) = self.null_pointer(IrTypeSpec::byte());
                    with_null.store_region(target.ptr, null, self.next_id())
                },
                PrimitiveSpec::DynamicArrayOf(elem_type) => {
                    let (with_null, null) = self.null_pointer(lowered_type(elem_type));
                    with_null.store_region(target.ptr, null, self.next_id())
                },
                PrimitiveSpec::PointerTo(field_types) => {
                    let (with_null, null) = self.null_pointer(lowered_type(field_types));
                    with_null.emit(InstrSpec::Store { ptr: target.ptr, value: null })
                },
                PrimitiveSpec::FixedArrayOf(elem_type, _) => {
                    let (with_null, null) = self.null_pointer(lowered_type(elem_type));
                    with_null.emit(InstrSpec::Store { ptr: target.ptr, value: null })
                },
                scalar => self.emit(
                    InstrSpec::ConstInt {
                        bits: match scalar {
                            PrimitiveSpec::Int => 64,
                            PrimitiveSpec::Char => 8,
                            _ => 1,
                        },
                        constant: 0,
                    },
                ).emit(InstrSpec::Store { ptr: target.ptr, value: self.next_id() }),
            }
        }
    }

    /// Where the pointer is for reading and clearing: clears the handle's
    /// bit and leaves the zero of its representation in the update slot.
    /// Emits nothing otherwise.
    pub open spec fn clear_update_pointer(self, pointer: UpdatePointerSpec) -> CodegenSpec {
        if pointer.purpose == UpdatePtrPurpose::ReadAndClear {
            self.change_bitfield(pointer.bitfield_ptr, BinaryOp::And, !pointer.mask).store_zero(
                pointer.target,
            )
        } else {
            self
        }
    }

    /// Loads the pending value of a handle and, where the pointer is for
    /// reading and clearing, clears the handle's bit and the update slot. A
    /// pointer for writing cannot be read.
    pub open spec fn load_update(self, pointer: UpdatePointerSpec, name: Seq<char>) -> Result<
        (CodegenSpec, StateValueSpec),
        ErrorSpec,
    > {
        if pointer.purpose == UpdatePtrPurpose::WriteAndSet {
            Err(ErrorSpec::TypeMismatch)
        } else {
            match self.load_value(pointer.target, name) {
                Err(e) => Err(e),
                Ok((loaded, value)) => Ok((loaded.clear_update_pointer(pointer), value)),
            }
        }
    }

    /// Stores `value` as the pending value of a handle and sets the
    /// handle's bit. Only a pointer for writing can be written.
    pub open spec fn store_update(self, value: StateValueSpec, pointer: UpdatePointerSpec)
        -> Result<(CodegenSpec, ()), ErrorSpec> {
        if pointer.purpose != UpdatePtrPurpose::WriteAndSet {
            Err(ErrorSpec::TypeMismatch)
        } else {
            match self.store_value(value, pointer.target) {
                Err(e) => Err(e),
                Ok((stored, _)) => Ok(
                    (stored.change_bitfield(pointer.bitfield_ptr, BinaryOp::Or, pointer.mask), ()),
                ),
            }
        }
    }
}

fn load_region(cg: &mut CodegenState, ptr: usize, name: &str) -> (r: (usize, usize))
    requires
        old(cg)@.in_function(),
    ensures
        (final(cg)@, r.0, r.1) == old(cg)@.load_region(ptr, name@),
        final(cg)@.in_function(),
        final(cg)@.position == old(cg)@.position,
        spec_carries(
            old(cg)@,
            final(cg)@,
            spec_value_known(old(cg)@, ptr),
            spec_value_known(final(cg)@, r.0) && spec_value_known(final(cg)@, r.1),
        ),
{
    let data_ptr = cg.emit(Instr::StructGep { ptr, index: 0, name: String::from_str("data_ptr") });
    let data = cg.emit(Instr::Load { ptr: data_ptr, name: String::from_str(name) });
    let size_ptr = cg.emit(Instr::StructGep { ptr, index: 1, name: String::from_str("size_ptr") });
    let size = cg.emit(Instr::Load { ptr: size_ptr, name: String::from_str("size") });
    (data, size)
}

fn store_region(cg: &mut CodegenState, ptr: usize, data: usize, size: usize)
    requires
        old(cg)@.in_function(),
    ensures
        final(cg)@ == old(cg)@.store_region(ptr, data, size),
        final(cg)@.in_function(),
        final(cg)@.position == old(cg)@.position,
        spec_carries(
            old(cg)@,
            final(cg)@,
            spec_value_known(old(cg)@, ptr)
                && spec_value_known(old(cg)@, data)
                && spec_value_known(old(cg)@, size),
            true,
        ),
{
    let data_ptr = cg.emit(Instr::StructGep { ptr, index: 0, name: String::from_str("data_ptr") });
    cg.emit(Instr::Store { ptr: data_ptr, value: data });
    let size_ptr = cg.emit(Instr::StructGep { ptr, index: 1, name: String::from_str("size_ptr") });
    cg.emit(Instr::Store { ptr: size_ptr, value: size });
}

fn change_bitfield(cg: &mut CodegenState, bitfield_ptr: usize, op: BinaryOp, operand: u64)
    requires
        old(cg)@.in_function(),
    ensures
        final(cg)@ == old(cg)@.change_bitfield(bitfield_ptr, op, operand),
        final(cg)@.in_function(),
        final(cg)@.position == old(cg)@.position,
        spec_carries(
            old(cg)@,
            final(cg)@,
            spec_value_known(old(cg)@, bitfield_ptr),
            true,
        ),
{
    let bits = cg.emit(Instr::Load { ptr: bitfield_ptr, name: String::from_str("bitfield") });
    let mask = cg.uint_const(operand);
    let changed = cg.emit(
        Instr::Binary { op, lhs: bits, rhs: mask, name: String::from_str("new_bitfield") },
    );
    cg.emit(Instr::Store { ptr: bitfield_ptr, value: changed });
}

impl TypedPointer {
    /// Emits the load of the value that the pointer points to.
    pub fn load(&self, cg: &mut CodegenState, name: &str) -> (r: CodegenResult<StateValue>)
        requires
            old(cg)@.in_function(),
        ensures
            outcome(final(cg)@, r) == old(cg)@.load_value(self@, name@),
            final(cg)@.in_function(),
            final(cg)@.position == old(cg)@.position,
            spec_carries(
                old(cg)@,
                final(cg)@,
                spec_value_known(old(cg)@, self.ptr),
                r is Ok ==> spec_known(final(cg)@, r.unwrap()@),
            ),
    {
        if self.value_type.len() != 1 {
            return Err(
                CodegenError::TypeMismatch(String::from_str("only a single primitive can be loaded")),
            );
        }
        proof {
            assert(self@.value_type[0] == self.value_type@[0]@);
        }
        match &self.value_type[0] {
            TypePrimitive::Int => {
                let id = cg.emit(Instr::Load { ptr: self.ptr, name: String::from_str(name) });
                Ok(StateValue::Int(id))
            },
            TypePrimitive::Char => {
                let id = cg.emit(Instr::Load { ptr: self.ptr, name: String::from_str(name) });
                Ok(StateValue::Char(id))
            },
            TypePrimitive::Bool => {
                let id = cg.emit(Instr::Load { ptr: self.ptr, name: String::from_str(name) });
                Ok(StateValue::Bool(id))
            },
            TypePrimitive::MemRegion => {
                let (data, size) = load_region(cg, self.ptr, name);
                Ok(StateValue::MemRegion { data, size })
            },
            TypePrimitive::DynamicArrayOf(elem) => {
                let (data, size) = load_region(cg, self.ptr, name);
                Ok(StateValue::DynamicArray { data, size, elem_type: clone_primitives(elem) })
            },
            TypePrimitive::PointerTo(fields) => {
                let id = cg.emit(Instr::Load { ptr: self.ptr, name: String::from_str(name) });
                Ok(StateValue::Tuple { ptr: id, field_types: clone_primitives(fields) })
            },
            TypePrimitive::FixedArrayOf(elem, len) => {
                let id = cg.emit(Instr::Load { ptr: self.ptr, name: String::from_str(name) });
                Ok(StateValue::FixedArray { data: id, elem_type: clone_primitives(elem), len: *len })
            },
        }
    }
}

impl StateValue {
    /// Emits the store of the value to the slot that `target` points to.
    pub fn store(&self, cg: &mut CodegenState, target: &TypedPointer) -> (r: CodegenStatus)
        requires
            old(cg)@.in_function(),
        ensures
            outcome(final(cg)@, r) == old(cg)@.store_value(self@, target@),
            final(cg)@.in_function(),
            final(cg)@.position == old(cg)@.position,
            spec_carries(
                old(cg)@,
                final(cg)@,
                spec_known(old(cg)@, self@) && spec_value_known(old(cg)@, target.ptr),
                true,
            ),
    {
        let own_type = self.value_type();
        if !primitives_eq(&own_type, &target.value_type) {
            return Err(
                CodegenError::TypeMismatch(
                    String::from_str("the value and the slot differ in representation"),
                ),
            );
        }
        match self {
            StateValue::Nothing => {},
            StateValue::Int(v) => {
                cg.emit(Instr::Store { ptr: target.ptr, value: *v });
            },
            StateValue::Char(v) => {
                cg.emit(Instr::Store { ptr: target.ptr, value: *v });
            },
            StateValue::Bool(v) => {
                cg.emit(Instr::Store { ptr: target.ptr, value: *v });
            },
            StateValue::MemRegion { data, size } => store_region(cg, target.ptr, *data, *size),
            StateValue::DynamicArray { data, size, .. } => store_region(
                cg,
                target.ptr,
                *data,
                *size,
            ),
            StateValue::Tuple { ptr, .. } => {
                cg.emit(Instr::Store { ptr: target.ptr, value: *ptr });
            },
            StateValue::FixedArray { data, .. } => {
                cg.emit(Instr::Store { ptr: target.ptr, value: *data });
            },
        }
        Ok(())
    }
}

fn null_pointer(cg: &mut CodegenState, pointee: IrType) -> (r: (usize, usize))
    requires
        old(cg)@.in_function(),
        spec_type_supported(pointee@),
    ensures
        (final(cg)@, r.0) == old(cg)@.null_pointer(pointee@),
        r.1 == old(cg)@.next_id(),
        final(cg)@.in_function(),
        final(cg)@.position == old(cg)@.position,
        spec_carries(
            old(cg)@,
            final(cg)@,
            true,
            spec_value_known(final(cg)@, r.0) && spec_value_known(final(cg)@, r.1),
        ),
{
    let zero = cg.uint_const(0);
    let null = cg.emit(Instr::IntToPtr { address: zero, pointee, name: String::from_str("null") });
    (null, zero)
}

fn store_zero(cg: &mut CodegenState, target: &TypedPointer)
    requires
        old(cg)@.in_function(),
    ensures
        final(cg)@ == old(cg)@.store_zero(target@),
        final(cg)@.in_function(),
        final(cg)@.position == old(cg)@.position,
        spec_carries(old(cg)@, final(cg)@, spec_value_known(old(cg)@, target.ptr), true),
{
    if target.value_type.len() != 1 {
        return ;
    }
    proof {
        assert(target@.value_type[0] == target.value_type@[0]@);
    }
    match &target.value_type[0] {
        TypePrimitive::MemRegion => {
            let (null, zero) = null_pointer(cg, IrType::byte());
            store_region(cg, target.ptr, null, zero);
        },
        TypePrimitive::DynamicArrayOf(elem) => {
            let (null, zero) = null_pointer(cg, llvm_type_for_primitive(elem));
            store_region(cg, target.ptr, null, zero);
        },
        TypePrimitive::PointerTo(fields) => {
            let (null, _) = null_pointer(cg, llvm_type_for_primitive(fields));
            cg.emit(Instr::Store { ptr: target.ptr, value: null });
        },
        TypePrimitive::FixedArrayOf(elem, _) => {
            let (null, _) = null_pointer(cg, llvm_type_for_primitive(elem));
            cg.emit(Instr::Store { ptr: target.ptr, value: null });
        },
        scalar => {
            let bits: u32 = match scalar {
                TypePrimitive::Int => 64,
                TypePrimitive::Char => 8,
                _ => 1,
            };
            let zero = cg.emit(Instr::ConstInt { bits, constant: 0 });
            cg.emit(Instr::Store { ptr: target.ptr, value: zero });
        },
    }
}

impl UpdatePointer {
    /// Emits code that clears the handle's bit and the update slot, where
    /// the pointer is for reading and clearing.
    pub fn clear_update_pointer(&self, cg: &mut CodegenState)
        requires
            old(cg)@.in_function(),
        ensures
            final(cg)@ == old(cg)@.clear_update_pointer(self@),
            final(cg)@.in_function(),
            final(cg)@.position == old(cg)@.position,
            spec_carries(
                old(cg)@,
                final(cg)@,
                spec_value_known(old(cg)@, self.bitfield_ptr) && spec_value_known(
                    old(cg)@,
                    self.target.ptr,
                ),
                true,
            ),
    {
        if self.purpose == UpdatePtrPurpose::ReadAndClear {
            change_bitfield(cg, self.bitfield_ptr, BinaryOp::And, !self.mask);
            store_zero(cg, &self.target);
        }
    }

    /// Emits the load of the handle's pending value; where the pointer is
    /// for reading and clearing, the handle's bit and the update slot are
    /// cleared as well.
    pub fn load(&self, cg: &mut CodegenState, name: &str) -> (r: CodegenResult<StateValue>)
        requires
            old(cg)@.in_function(),
        ensures
            outcome(final(cg)@, r) == old(cg)@.load_update(self@, name@),
            final(cg)@.in_function(),
            final(cg)@.position == old(cg)@.position,
            spec_carries(
                old(cg)@,
                final(cg)@,
                spec_value_known(old(cg)@, self.target.ptr)
                    && spec_value_known(old(cg)@, self.bitfield_ptr),
                r is Ok ==> spec_known(final(cg)@, r.unwrap()@),
            ),
    {
        if self.purpose == UpdatePtrPurpose::WriteAndSet {
            return Err(
                CodegenError::TypeMismatch(String::from_str("the pointer is for writing")),
            );
        }
        let value = self.target.load(cg, name)?;
        self.clear_update_pointer(cg);
        Ok(value)
    }

    /// Emits the store of `value` as the handle's pending value, and sets
    /// the handle's bit.
    pub fn store(&self, cg: &mut CodegenState, value: &StateValue) -> (r: CodegenStatus)
        requires
            old(cg)@.in_function(),
        ensures
            outcome(final(cg)@, r) == old(cg)@.store_update(value@, self@),
            final(cg)@.in_function(),
            final(cg)@.position == old(cg)@.position,
            spec_carries(
                old(cg)@,
                final(cg)@,
                spec_value_known(old(cg)@, self.target.ptr)
                    && spec_value_known(old(cg)@, self.bitfield_ptr)
                    && spec_known(old(cg)@, value@),
                true,
            ),
    {
        if self.purpose != UpdatePtrPurpose::WriteAndSet {
            return Err(
                CodegenError::TypeMismatch(String::from_str("the pointer is for reading")),
            );
        }
        value.store(cg, &self.target)?;
        change_bitfield(cg, self.bitfield_ptr, BinaryOp::Or, self.mask);
        Ok(())
    }
}

impl StateValueSpec {
    /// The data pointer and the element type of an array.
    pub open spec fn array_parts(self) -> Option<(usize, Seq<PrimitiveSpec>)> {
        match self {
            StateValueSpec::DynamicArray { data, elem_type, .. } => Some((data, elem_type)),
            StateValueSpec::FixedArray { data, elem_type, .. } => Some((data, elem_type)),
            _ => None,
        }
    }

    /// The entry that holds the value, or the first of its two parts.
    pub open spec fn first_part(self) -> usize {
        match self {
            StateValueSpec::Nothing => 0,
            StateValueSpec::Int(v) => v,
            StateValueSpec::Char(v) => v,
            StateValueSpec::Bool(v) => v,
            StateValueSpec::MemRegion { data, .. } => data,
            StateValueSpec::DynamicArray { data, .. } => data,
            StateValueSpec::Tuple { ptr, .. } => ptr,
            StateValueSpec::FixedArray { data, .. } => data,
        }
    }

    /// The entry that holds the size of a heap span.
    pub open spec fn size_part(self) -> Option<usize> {
        match self {
            StateValueSpec::MemRegion { size, .. } => Some(size),
            StateValueSpec::DynamicArray { size, .. } => Some(size),
            _ => None,
        }
    }

    /// The IR type of the value's first part.
    pub open spec fn first_part_type(self) -> IrTypeSpec {
        match self {
            StateValueSpec::MemRegion { .. } => IrTypeSpec::byte().pointer_to(),
            StateValueSpec::DynamicArray { elem_type, .. } => lowered_type(elem_type).pointer_to(),
            _ => lowered_type(self.value_type()),
        }
    }

    /// The same kind of value with other entries for its parts.
    pub open spec fn with_parts(self, first: usize, size: usize) -> StateValueSpec {
        match self {
            StateValueSpec::Nothing => StateValueSpec::Nothing,
            StateValueSpec::Int(_) => StateValueSpec::Int(first),
            StateValueSpec::Char(_) => StateValueSpec::Char(first),
            StateValueSpec::Bool(_) => StateValueSpec::Bool(first),
            StateValueSpec::MemRegion { .. } => StateValueSpec::MemRegion { data: first, size },
            StateValueSpec::DynamicArray { elem_type, .. } => StateValueSpec::DynamicArray {
                data: first,
                size,
                elem_type,
            },
            StateValueSpec::Tuple { field_types, .. } => StateValueSpec::Tuple {
                ptr: first,
                field_types,
            },
            StateValueSpec::FixedArray { elem_type, len, .. } => StateValueSpec::FixedArray {
                data: first,
                elem_type,
                len,
            },
        }
    }
}

impl CodegenSpec {
    /// The size of `value` in bytes: a constant for a scalar, the stored
    /// size for a heap span. Nothing else has a size.
    pub open spec fn size_of_value(self, value: StateValueSpec) -> Result<
        (CodegenSpec, StateValueSpec),
        ErrorSpec,
    > {
        match value {
            StateValueSpec::Int(_) => Ok(
                (
                    self.emit(InstrSpec::ConstInt { bits: 64, constant: 8 }),
                    StateValueSpec::Int(self.next_id()),
                ),
            ),
            StateValueSpec::Char(_) => Ok(
                (
                    self.emit(InstrSpec::ConstInt { bits: 64, constant: 1 }),
                    StateValueSpec::Int(self.next_id()),
                ),
            ),
            StateValueSpec::Bool(_) => Ok(
                (
                    self.emit(InstrSpec::ConstInt { bits: 64, constant: 1 }),
                    StateValueSpec::Int(self.next_id()),
                ),
            ),
            StateValueSpec::MemRegion { size, .. } => Ok((self, StateValueSpec::Int(size))),
            StateValueSpec::DynamicArray { size, .. } => Ok((self, StateValueSpec::Int(size))),
            _ => Err(ErrorSpec::TypeMismatch),
        }
    }

    /// The element of `array` at `index`: the address is the data pointer
    /// plus `index` times the element's storage size, and nothing checks
    /// that it lies within the array.
    pub open spec fn array_lookup(self, array: StateValueSpec, index: StateValueSpec) -> Result<
        (CodegenSpec, StateValueSpec),
        ErrorSpec,
    > {
        match array.array_parts() {
            None => Err(ErrorSpec::TypeMismatch),
            Some((data, elem_type)) => {
                if !(index is Int) || storage_size(elem_type) > u64::MAX {
                    Err(ErrorSpec::TypeMismatch)
                } else {
                    let base = self.emit(InstrSpec::PtrToInt { ptr: data, name: "array_base"@ });
                    let width = base.emit(
                        InstrSpec::ConstInt { bits: 64, constant: storage_size(elem_type) as u64 },
                    );
                    let offset = width.emit(
                        InstrSpec::Binary {
                            op: BinaryOp::Mul,
                            lhs: index->Int_0,
                            rhs: base.next_id(),
                            name: "offset"@,
                        },
                    );
                    let address = offset.emit(
                        InstrSpec::Binary {
                            op: BinaryOp::Add,
                            lhs: self.next_id(),
                            rhs: width.next_id(),
                            name: "element_address"@,
                        },
                    );
                    let pointer = address.emit(
                        InstrSpec::IntToPtr {
                            address: offset.next_id(),
                            pointee: lowered_type(elem_type),
                            name: "element_ptr"@,
                        },
                    );
                    pointer.load_value(
                        TypedPointerSpec { ptr: address.next_id(), value_type: elem_type },
                        "element"@,
                    )
                }
            },
        }
    }

    /// A fresh tuple of the representation `tuple_type`, which has to be a
    /// pointer: its fields are laid out back to back in memory that
    /// `malloc` gives.
    pub open spec fn new_tuple(self, tuple_type: Seq<PrimitiveSpec>) -> Result<
        (CodegenSpec, StateValueSpec),
        ErrorSpec,
    > {
        if tuple_type.len() != 1 || !(tuple_type[0] is PointerTo) || storage_size(
            tuple_type[0]->PointerTo_0,
        ) > u64::MAX {
            Err(ErrorSpec::TypeMismatch)
        } else {
            let field_types = tuple_type[0]->PointerTo_0;
            let size = self.emit(
                InstrSpec::ConstInt { bits: 64, constant: storage_size(field_types) as u64 },
            );
            let (allocated, raw) = size.malloc(self.next_id(), "tuple_memory"@);
            Ok(
                (
                    allocated.emit(
                        InstrSpec::PointerCast {
                            ptr: raw,
                            pointee: lowered_type(field_types),
                            name: "tuple_ptr"@,
                        },
                    ),
                    StateValueSpec::Tuple { ptr: allocated.next_id(), field_types },
                ),
            )
        }
    }

    /// The address of the field at `index` of `tuple`. A tuple of one field
    /// is a pointer to that field.
    pub open spec fn tuple_field(self, tuple: StateValueSpec, index: u32) -> Result<
        (CodegenSpec, TypedPointerSpec),
        ErrorSpec,
    > {
        match tuple {
            StateValueSpec::Tuple { ptr, field_types } => {
                if index >= field_types.len() {
                    Err(ErrorSpec::TypeMismatch)
                } else if field_types.len() == 1 {
                    Ok((self, TypedPointerSpec { ptr, value_type: seq![field_types[0]] }))
                } else {
                    Ok(
                        (
                            self.emit(
                                InstrSpec::StructGep { ptr, index, name: "tuple_field_ptr"@ },
                            ),
                            TypedPointerSpec {
                                ptr: self.next_id(),
                                value_type: seq![field_types[index as int]],
                            },
                        ),
                    )
                }
            },
            _ => Err(ErrorSpec::TypeMismatch),
        }
    }

    /// Stores `value` to the field at `index` of `tuple`.
    pub open spec fn set_tuple_index(self, tuple: StateValueSpec, index: u32, value: StateValueSpec)
        -> Result<(CodegenSpec, ()), ErrorSpec> {
        match self.tuple_field(tuple, index) {
            Err(e) => Err(e),
            Ok((addressed, field)) => addressed.store_value(value, field),
        }
    }

    /// Loads the field at `index` of `tuple`.
    pub open spec fn get_tuple_index(self, tuple: StateValueSpec, index: u32) -> Result<
        (CodegenSpec, StateValueSpec),
        ErrorSpec,
    > {
        match self.tuple_field(tuple, index) {
            Err(e) => Err(e),
            Ok((addressed, field)) => addressed.load_value(field, "tuple_field"@),
        }
    }

    /// Whether two heap spans hold the same bytes: their sizes are compared
    /// first, and `memcmp` runs only where they agree.
    pub open spec fn regions_equal(self, lhs: StateValueSpec, rhs: StateValueSpec) -> Result<
        (CodegenSpec, StateValueSpec),
        ErrorSpec,
    > {
        let sizes = self.emit(
            InstrSpec::Compare {
                predicate: Predicate::Equal,
                lhs: lhs.size_part().unwrap(),
                rhs: rhs.size_part().unwrap(),
                name: "sizes_equal"@,
            },
        );
        match sizes.append_new_block("compare_bytes"@) {
            Err(e) => Err(e),
            Ok((with_compare, compare)) => match with_compare.append_new_block("compared"@) {
                Err(e) => Err(e),
                Ok((with_done, done)) => {
                    let branched = with_done.emit(
                        InstrSpec::CondBr {
                            condition: self.next_id(),
                            if_true: compare,
                            if_false: done,
                        },
                    ).position_at_end(compare);
                    let (called, difference) = branched.memcmp(
                        lhs.first_part(),
                        rhs.first_part(),
                        lhs.size_part().unwrap(),
                    );
                    let zero = called.emit(InstrSpec::ConstInt { bits: 64, constant: 0 });
                    let same = zero.emit(
                        InstrSpec::Compare {
                            predicate: Predicate::Equal,
                            lhs: difference,
                            rhs: called.next_id(),
                            name: "bytes_equal"@,
                        },
                    );
                    let joined = same.emit(InstrSpec::Br { target: done }).position_at_end(done);
                    Ok(
                        (
                            joined.emit(
                                InstrSpec::Phi {
                                    ty: IrTypeSpec::Int(1),
                                    incoming: seq![
                                        (self.next_id(), self.position.unwrap()),
                                        (zero.next_id(), compare),
                                    ],
                                    name: "regions_equal"@,
                                },
                            ),
                            StateValueSpec::Bool(joined.next_id()),
                        ),
                    )
                },
            },
        }
    }

    /// Whether `lhs` and `rhs` are equal, as a truth value. Both have to be
    /// integers, characters, truth values or memory regions, and of the same
    /// kind.
    pub open spec fn equals(self, lhs: StateValueSpec, rhs: StateValueSpec) -> Result<
        (CodegenSpec, StateValueSpec),
        ErrorSpec,
    > {
        if lhs is MemRegion && rhs is MemRegion {
            self.regions_equal(lhs, rhs)
        } else if lhs.int_value() is Some && lhs.value_type() == rhs.value_type() {
            Ok(
                (
                    self.emit(
                        InstrSpec::Compare {
                            predicate: Predicate::Equal,
                            lhs: lhs.first_part(),
                            rhs: rhs.first_part(),
                            name: "equal"@,
                        },
                    ),
                    StateValueSpec::Bool(self.next_id()),
                ),
            )
        } else {
            Err(ErrorSpec::TypeMismatch)
        }
    }

    /// Whether `lhs` is less than `rhs` (or greater, if `less` is not set),
    /// as a truth value. Both have to be integers, characters or truth
    /// values, and of the same kind; integers compare with sign, the others
    /// without.
    pub open spec fn ordered(self, lhs: StateValueSpec, rhs: StateValueSpec, less: bool) -> Result<
        (CodegenSpec, StateValueSpec),
        ErrorSpec,
    > {
        if lhs.int_value() is Some && lhs.value_type() == rhs.value_type() {
            Ok(
                (
                    self.emit(
                        InstrSpec::Compare {
                            predicate: if lhs is Int {
                                if less {
                                    Predicate::SignedLess
                                } else {
                                    Predicate::SignedGreater
                                }
                            } else {
                                if less {
                                    Predicate::UnsignedLess
                                } else {
                                    Predicate::UnsignedGreater
                                }
                            },
                            lhs: lhs.first_part(),
                            rhs: rhs.first_part(),
                            name: "ordered"@,
                        },
                    ),
                    StateValueSpec::Bool(self.next_id()),
                ),
            )
        } else {
            Err(ErrorSpec::TypeMismatch)
        }
    }

    /// The value that is `first` when control arrives from `first_block` and
    /// `second` when it arrives from `second_block`. The two have to have
    /// the same representation; each part of the value gets a phi.
    pub open spec fn merge(
        self,
        first: StateValueSpec,
        first_block: usize,
        second: StateValueSpec,
        second_block: usize,
    ) -> Result<(CodegenSpec, StateValueSpec), ErrorSpec> {
        if first.value_type() != second.value_type() {
            Err(ErrorSpec::TypeMismatch)
        } else if first is Nothing {
            Ok((self, StateValueSpec::Nothing))
        } else {
            let merged = self.emit(
                InstrSpec::Phi {
                    ty: first.first_part_type(),
                    incoming: seq![
                        (first.first_part(), first_block),
                        (second.first_part(), second_block),
                    ],
                    name: "merged"@,
                },
            );
            match first.size_part() {
                None => Ok((merged, first.with_parts(self.next_id(), 0))),
                Some(size) => Ok(
                    (
                        merged.emit(
                            InstrSpec::Phi {
                                ty: IrTypeSpec::word(),
                                incoming: seq![
                                    (size, first_block),
                                    (second.size_part().unwrap(), second_block),
                                ],
                                name: "merged_size"@,
                            },
                        ),
                        first.with_parts(self.next_id(), merged.next_id()),
                    ),
                ),
            }
        }
    }
}

impl StateValue {
    /// The IR type of the value.
    pub fn llvm_type(&self) -> (r: IrType)
        ensures
            r@ == lowered_type(self@.value_type()),
        spec_type_supported(r@),
    {
        llvm_type_for_primitive(&self.value_type())
    }

    fn first_part(&self) -> (r: usize)
        ensures
            r == self@.first_part(),
    {
        match self {
            StateValue::Nothing => 0,
            StateValue::Int(v) => *v,
            StateValue::Char(v) => *v,
            StateValue::Bool(v) => *v,
            StateValue::MemRegion { data, .. } => *data,
            StateValue::DynamicArray { data, .. } => *data,
            StateValue::Tuple { ptr, .. } => *ptr,
            StateValue::FixedArray { data, .. } => *data,
        }
    }

    fn size_part(&self) -> (r: Option<usize>)
        ensures
            r == self@.size_part(),
    {
        match self {
            StateValue::MemRegion { size, .. } => Some(*size),
            StateValue::DynamicArray { size, .. } => Some(*size),
            _ => None,
        }
    }

    fn first_part_type(&self) -> (r: IrType)
        ensures
            r@ == self@.first_part_type(),
        spec_type_supported(r@),
    {
        match self {
            StateValue::MemRegion { .. } => IrType::byte().pointer_to(),
            StateValue::DynamicArray { elem_type, .. } => llvm_type_for_primitive(
                elem_type,
            ).pointer_to(),
            _ => self.llvm_type(),
        }
    }

    fn with_parts(&self, first: usize, size: usize) -> (r: StateValue)
        ensures
            r@ == self@.with_parts(first, size),
    {
        match self {
            StateValue::Nothing => StateValue::Nothing,
            StateValue::Int(_) => StateValue::Int(first),
            StateValue::Char(_) => StateValue::Char(first),
            StateValue::Bool(_) => StateValue::Bool(first),
            StateValue::MemRegion { .. } => StateValue::MemRegion { data: first, size },
            StateValue::DynamicArray { elem_type, .. } => StateValue::DynamicArray {
                data: first,
                size,
                elem_type: clone_primitives(elem_type),
            },
            StateValue::Tuple { field_types, .. } => StateValue::Tuple {
                ptr: first,
                field_types: clone_primitives(field_types),
            },
            StateValue::FixedArray { elem_type, len, .. } => StateValue::FixedArray {
                data: first,
                elem_type: clone_primitives(elem_type),
                len: *len,
            },
        }
    }

    /// Emits the size of the value in bytes.
    pub fn size(&self, cg: &mut CodegenState) -> (r: CodegenResult<StateValue>)
        requires
            old(cg)@.in_function(),
        ensures
            outcome(final(cg)@, r) == old(cg)@.size_of_value(self@),
            final(cg)@.in_function(),
            final(cg)@.position == old(cg)@.position,
            spec_carries(
                old(cg)@,
                final(cg)@,
                spec_known(old(cg)@, self@),
                r is Ok ==> spec_known(final(cg)@, r.unwrap()@),
            ),
    {
        match self {
            StateValue::Int(_) => Ok(StateValue::Int(cg.uint_const(8))),
            StateValue::Char(_) => Ok(StateValue::Int(cg.uint_const(1))),
            StateValue::Bool(_) => Ok(StateValue::Int(cg.uint_const(1))),
            StateValue::MemRegion { size, .. } => Ok(StateValue::Int(*size)),
            StateValue::DynamicArray { size, .. } => Ok(StateValue::Int(*size)),
            _ => Err(CodegenError::TypeMismatch(String::from_str("the value has no size"))),
        }
    }

    /// Emits the load of the element at `index`. The value has to be an
    /// array and the index an integer.
    pub fn array_lookup(&self, cg: &mut CodegenState, index: StateValue) -> (r: CodegenResult<
        StateValue,
    >)
        requires
            old(cg)@.in_function(),
        ensures
            outcome(final(cg)@, r) == old(cg)@.array_lookup(self@, index@),
            final(cg)@.in_function(),
            final(cg)@.position == old(cg)@.position,
            spec_carries(
                old(cg)@,
                final(cg)@,
                spec_known(old(cg)@, self@) && spec_known(old(cg)@, index@),
                r is Ok ==> spec_known(final(cg)@, r.unwrap()@),
            ),
    {
        let (data, elem_type) = match self {
            StateValue::DynamicArray { data, elem_type, .. } => (*data, elem_type),
            StateValue::FixedArray { data, elem_type, .. } => (*data, elem_type),
            _ => {
                return Err(
                    CodegenError::TypeMismatch(String::from_str("array lookup on non-array")),
                );
            },
        };
        let index_value = match index {
            StateValue::Int(v) => v,
            _ => {
                return Err(
                    CodegenError::TypeMismatch(String::from_str("array index is no integer")),
                );
            },
        };
        let element_size = match stride(elem_type) {
            Some(n) => n,
            None => {
                return Err(
                    CodegenError::TypeMismatch(String::from_str("array element is too large")),
                );
            },
        };
        let base = cg.emit(Instr::PtrToInt { ptr: data, name: String::from_str("array_base") });
        let width = cg.uint_const(element_size);
        let offset = cg.emit(
            Instr::Binary {
                op: BinaryOp::Mul,
                lhs: index_value,
                rhs: width,
                name: String::from_str("offset"),
            },
        );
        let address = cg.emit(
            Instr::Binary {
                op: BinaryOp::Add,
                lhs: base,
                rhs: offset,
                name: String::from_str("element_address"),
            },
        );
        let pointer = cg.emit(
            Instr::IntToPtr {
                address,
                pointee: llvm_type_for_primitive(elem_type),
                name: String::from_str("element_ptr"),
            },
        );
        let source = TypedPointer { ptr: pointer, value_type: clone_primitives(elem_type) };
        source.load(cg, "element")
    }

    /// Emits the allocation of a tuple of the representation `tuple_type`.
    pub fn new_tuple(cg: &mut CodegenState, tuple_type: Vec<TypePrimitive>) -> (r: CodegenResult<
        StateValue,
    >)
        requires
            old(cg)@.in_function(),
        ensures
            outcome(final(cg)@, r) == old(cg)@.new_tuple(primitives_view(tuple_type@)),
            final(cg)@.in_function(),
            final(cg)@.position == old(cg)@.position,
            spec_carries(
                old(cg)@,
                final(cg)@,
                true,
                r is Ok ==> spec_known(final(cg)@, r.unwrap()@),
            ),
    {
        if tuple_type.len() != 1 {
            return Err(CodegenError::TypeMismatch(String::from_str("a tuple is one pointer")));
        }
        proof {
            assert(primitives_view(tuple_type@)[0] == tuple_type@[0]@);
        }
        let field_types = match &tuple_type[0] {
            TypePrimitive::PointerTo(fields) => fields,
            _ => {
                return Err(CodegenError::TypeMismatch(String::from_str("a tuple is a pointer")));
            },
        };
        let bytes = match stride(field_types) {
            Some(n) => n,
            None => {
                return Err(CodegenError::TypeMismatch(String::from_str("the tuple is too large")));
            },
        };
        let size = cg.uint_const(bytes);
        let raw = malloc(cg, size, "tuple_memory");
        let ptr = cg.emit(
            Instr::PointerCast {
                ptr: raw,
                pointee: llvm_type_for_primitive(field_types),
                name: String::from_str("tuple_ptr"),
            },
        );
        Ok(StateValue::Tuple { ptr, field_types: clone_primitives(field_types) })
    }

    fn tuple_field(&self, cg: &mut CodegenState, index: u32) -> (r: CodegenResult<TypedPointer>)
        requires
            old(cg)@.in_function(),
        ensures
            outcome(final(cg)@, r) == old(cg)@.tuple_field(self@, index),
            final(cg)@.in_function(),
            final(cg)@.position == old(cg)@.position,
            spec_carries(
                old(cg)@,
                final(cg)@,
                spec_known(old(cg)@, self@),
                r is Ok ==> spec_value_known(final(cg)@, r.unwrap().ptr),
            ),
    {
        match self {
            StateValue::Tuple { ptr, field_types } => {
                if index as usize >= field_types.len() {
                    return Err(
                        CodegenError::TypeMismatch(String::from_str("no such tuple field")),
                    );
                }
                let mut value_type: Vec<TypePrimitive> = Vec::new();
                value_type.push(clone_primitive(&field_types[index as usize]));
                proof {
                    assert(primitives_view(value_type@) =~= seq![
                        primitives_view(field_types@)[index as int],
                    ]);
                }
                if field_types.len() == 1 {
                    Ok(TypedPointer { ptr: *ptr, value_type })
                } else {
                    let field_ptr = cg.emit(
                        Instr::StructGep {
                            ptr: *ptr,
                            index,
                            name: String::from_str("tuple_field_ptr"),
                        },
                    );
                    Ok(TypedPointer { ptr: field_ptr, value_type })
                }
            },
            _ => Err(CodegenError::TypeMismatch(String::from_str("the value is no tuple"))),
        }
    }

    /// Emits the store of `value` to the tuple's field at `index`.
    pub fn set_tuple_index(&self, cg: &mut CodegenState, index: u32, value: StateValue) -> (r:
        CodegenStatus)
        requires
            old(cg)@.in_function(),
        ensures
            outcome(final(cg)@, r) == old(cg)@.set_tuple_index(self@, index, value@),
            final(cg)@.in_function(),
            final(cg)@.position == old(cg)@.position,
            spec_carries(
                old(cg)@,
                final(cg)@,
                spec_known(old(cg)@, self@) && spec_known(old(cg)@, value@),
                true,
            ),
    {
        let field = self.tuple_field(cg, index)?;
        value.store(cg, &field)
    }

    /// Emits the load of the tuple's field at `index`.
    pub fn get_tuple_index(&self, cg: &mut CodegenState, index: u32) -> (r: CodegenResult<
        StateValue,
    >)
        requires
            old(cg)@.in_function(),
        ensures
            outcome(final(cg)@, r) == old(cg)@.get_tuple_index(self@, index),
            final(cg)@.in_function(),
            final(cg)@.position == old(cg)@.position,
            spec_carries(
                old(cg)@,
                final(cg)@,
                spec_known(old(cg)@, self@),
                r is Ok ==> spec_known(final(cg)@, r.unwrap()@),
            ),
    {
        let field = self.tuple_field(cg, index)?;
        field.load(cg, "tuple_field")
    }

    #[verifier::rlimit(60)]
    fn regions_equal(&self, cg: &mut CodegenState, other: &StateValue) -> (r: CodegenResult<
        StateValue,
    >)
        requires
            old(cg)@.in_function(),
            self@.size_part() is Some,
            other@.size_part() is Some,
        ensures
            outcome(final(cg)@, r) == old(cg)@.regions_equal(self@, other@),
            final(cg)@.in_function(),
            old(cg)@.positioned() ==> final(cg)@.positioned(),
            r is Err ==> !old(cg)@.positioned(),
            spec_carries(
                old(cg)@,
                final(cg)@,
                spec_known(old(cg)@, self@) && spec_known(old(cg)@, other@),
                r is Ok ==> spec_known(final(cg)@, r.unwrap()@),
            ),
    {
        proof {
            if spec_known(cg@, self@) && spec_known(cg@, other@) {
                assert(self@.value_type().len() == 1);
                assert(other@.value_type().len() == 1);
                lemma_parts_known(cg@, self@);
                lemma_parts_known(cg@, other@);
            }
        }
        let sizes = cg.emit(
            Instr::Compare {
                predicate: Predicate::Equal,
                lhs: self.size_part().unwrap(),
                rhs: other.size_part().unwrap(),
                name: String::from_str("sizes_equal"),
            },
        );
        let start = cg.position;
        let compare = append_new_block(cg, "compare_bytes")?;
        let done = append_new_block(cg, "compared")?;
        cg.emit(Instr::CondBr { condition: sizes, if_true: compare, if_false: done });
        cg.position_at_end(compare);
        let difference = memcmp(
            cg,
            self.first_part(),
            other.first_part(),
            self.size_part().unwrap(),
        );
        let zero = cg.uint_const(0);
        let same = cg.emit(
            Instr::Compare {
                predicate: Predicate::Equal,
                lhs: difference,
                rhs: zero,
                name: String::from_str("bytes_equal"),
            },
        );
        cg.emit(Instr::Br { target: done });
        cg.position_at_end(done);
        let mut incoming: Vec<(usize, usize)> = Vec::new();
        incoming.push((sizes, start.unwrap()));
        incoming.push((same, compare));
        assert(incoming@ =~= seq![(sizes, start.unwrap()), (same, compare)]);
        let merged = cg.emit(
            Instr::Phi { ty: IrType::Int(1), incoming, name: String::from_str("regions_equal") },
        );
        Ok(StateValue::Bool(merged))
    }

    /// Emits the comparison of the value with `other` for equality.
    pub fn equals(&self, cg: &mut CodegenState, other: &StateValue) -> (r: CodegenResult<
        StateValue,
    >)
        requires
            old(cg)@.in_function(),
        ensures
            outcome(final(cg)@, r) == old(cg)@.equals(self@, other@),
            final(cg)@.in_function(),
            old(cg)@.positioned() ==> final(cg)@.positioned(),
            spec_carries(
                old(cg)@,
                final(cg)@,
                spec_known(old(cg)@, self@) && spec_known(old(cg)@, other@),
                r is Ok ==> spec_known(final(cg)@, r.unwrap()@),
            ),
    {
        match (self, other) {
            (StateValue::MemRegion { .. }, StateValue::MemRegion { .. }) => {
                return self.regions_equal(cg, other);
            },
            _ => {},
        }
        if self.into_int_value().is_some() && primitives_eq(
            &self.value_type(),
            &other.value_type(),
        ) {
            proof {
                assert(self@.value_type().len() == 1);
                if spec_known(cg@, self@) && spec_known(cg@, other@) {
                    lemma_parts_known(cg@, self@);
                    lemma_parts_known(cg@, other@);
                }
            }
            let id = cg.emit(
                Instr::Compare {
                    predicate: Predicate::Equal,
                    lhs: self.first_part(),
                    rhs: other.first_part(),
                    name: String::from_str("equal"),
                },
            );
            Ok(StateValue::Bool(id))
        } else {
            Err(CodegenError::TypeMismatch(String::from_str("the values cannot be compared")))
        }
    }

    fn ordered(&self, cg: &mut CodegenState, other: &StateValue, less: bool) -> (r: CodegenResult<
        StateValue,
    >)
        requires
            old(cg)@.in_function(),
        ensures
            outcome(final(cg)@, r) == old(cg)@.ordered(self@, other@, less),
            final(cg)@.in_function(),
            final(cg)@.position == old(cg)@.position,
            spec_carries(
                old(cg)@,
                final(cg)@,
                spec_known(old(cg)@, self@) && spec_known(old(cg)@, other@),
                r is Ok ==> spec_known(final(cg)@, r.unwrap()@),
            ),
    {
        if self.into_int_value().is_some() && primitives_eq(
            &self.value_type(),
            &other.value_type(),
        ) {
            let signed = match self {
                StateValue::Int(_) => true,
                _ => false,
            };
            let predicate = if signed {
                if less {
                    Predicate::SignedLess
                } else {
                    Predicate::SignedGreater
                }
            } else {
                if less {
                    Predicate::UnsignedLess
                } else {
                    Predicate::UnsignedGreater
                }
            };
            proof {
                assert(self@.value_type().len() == 1);
                if spec_known(cg@, self@) && spec_known(cg@, other@) {
                    lemma_parts_known(cg@, self@);
                    lemma_parts_known(cg@, other@);
                }
            }
            let id = cg.emit(
                Instr::Compare {
                    predicate,
                    lhs: self.first_part(),
                    rhs: other.first_part(),
                    name: String::from_str("ordered"),
                },
            );
            Ok(StateValue::Bool(id))
        } else {
            Err(CodegenError::TypeMismatch(String::from_str("the values cannot be ordered")))
        }
    }

    /// Emits the test whether the value is less than `other`.
    pub fn less_than(&self, cg: &mut CodegenState, other: &StateValue) -> (r: CodegenResult<
        StateValue,
    >)
        requires
            old(cg)@.in_function(),
        ensures
            outcome(final(cg)@, r) == old(cg)@.ordered(self@, other@, true),
            final(cg)@.in_function(),
            final(cg)@.position == old(cg)@.position,
            spec_carries(
                old(cg)@,
                final(cg)@,
                spec_known(old(cg)@, self@) && spec_known(old(cg)@, other@),
                r is Ok ==> spec_known(final(cg)@, r.unwrap()@),
            ),
    {
        self.ordered(cg, other, true)
    }

    /// Emits the test whether the value is greater than `other`.
    pub fn greater_than(&self, cg: &mut CodegenState, other: &StateValue) -> (r: CodegenResult<
        StateValue,
    >)
        requires
            old(cg)@.in_function(),
        ensures
            outcome(final(cg)@, r) == old(cg)@.ordered(self@, other@, false),
            final(cg)@.in_function(),
            final(cg)@.position == old(cg)@.position,
            spec_carries(
                old(cg)@,
                final(cg)@,
                spec_known(old(cg)@, self@) && spec_known(old(cg)@, other@),
                r is Ok ==> spec_known(final(cg)@, r.unwrap()@),
            ),
    {
        self.ordered(cg, other, false)
    }

    /// Emits the phis that give the value when control arrives from
    /// `own_block` and `other` when it arrives from `other_block`.
    pub fn merge(
        &self,
        cg: &mut CodegenState,
        own_block: usize,
        other: &StateValue,
        other_block: usize,
    ) -> (r: CodegenResult<StateValue>)
        requires
            old(cg)@.in_function(),
        ensures
            outcome(final(cg)@, r) == old(cg)@.merge(self@, own_block, other@, other_block),
            final(cg)@.in_function(),
            final(cg)@.position == old(cg)@.position,
            spec_carries(
                old(cg)@,
                final(cg)@,
                spec_known(old(cg)@, self@)
                    && spec_known(old(cg)@, other@)
                    && spec_block_known(old(cg)@, own_block)
                    && spec_block_known(old(cg)@, other_block),
                r is Ok ==> spec_known(final(cg)@, r.unwrap()@),
            ),
    {
        if !primitives_eq(&self.value_type(), &other.value_type()) {
            return Err(
                CodegenError::TypeMismatch(
                    String::from_str("the two branches differ in representation"),
                ),
            );
        }
        if self.is_none() {
            return Ok(StateValue::Nothing);
        }
        proof {
            assert(self@.value_type().len() == 1);
            if spec_known(cg@, self@) && spec_known(cg@, other@) {
                lemma_parts_known(cg@, self@);
                lemma_parts_known(cg@, other@);
            }
        }
        let mut incoming: Vec<(usize, usize)> = Vec::new();
        incoming.push((self.first_part(), own_block));
        incoming.push((other.first_part(), other_block));
        assert(incoming@ =~= seq![
            (self@.first_part(), own_block),
            (other@.first_part(), other_block),
        ]);
        let merged = cg.emit(
            Instr::Phi { ty: self.first_part_type(), incoming, name: String::from_str("merged") },
        );
        match self.size_part() {
            None => {
                proof {
                    if spec_value_known(cg@, merged) {
                        lemma_known_by_parts(cg@, self@, merged, 0);
                    }
                }
                Ok(self.with_parts(merged, 0))
            },
            Some(size) => {
                let mut sizes: Vec<(usize, usize)> = Vec::new();
                sizes.push((size, own_block));
                sizes.push((other.size_part().unwrap(), other_block));
                assert(sizes@ =~= seq![
                    (size, own_block),
                    (other@.size_part().unwrap(), other_block),
                ]);
                let merged_size = cg.emit(
                    Instr::Phi {
                        ty: IrType::word(),
                        incoming: sizes,
                        name: String::from_str("merged_size"),
                    },
                );
                proof {
                    if spec_value_known(cg@, merged) && spec_value_known(cg@, merged_size) {
                        lemma_known_by_parts(cg@, self@, merged, merged_size);
                    }
                }
                Ok(self.with_parts(merged, merged_size))
            },
        }
    }
}

} // verus!
