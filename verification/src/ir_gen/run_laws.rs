//! How the machine runs code as the generator emits it: what each piece of
//! emitted code does to a machine that has run the code before it.

use crate::ast::{lemma_first_handle_named, ModuleDecl};
use crate::ir_gen::codegen_state::{handle_bit, CodegenSpec, TypedPointerSpec, UpdatePtrPurpose};
use crate::ir_gen::ir::{
    first_function_named, BinaryOp, EmittedSpec, FunctionSpec, InstrSpec, IrTypeSpec,
};
use crate::ir_gen::primitives::{spec_type_primitive_for_type, PrimitiveSpec};
use crate::ir_gen::semantics::{
    lemma_run_prefix, lemma_run_split, spec_binary_result, spec_run, spec_step, state_address,
    Address, Control, Machine, Memory, Word, World,
};
use crate::ir_gen::state_values::StateValueSpec;
use crate::ir_gen::types::{
    bitfield_slot, current_slot, lowered_type, spec_well_formed, update_slot,
};
use vstd::prelude::*;

verus! {

/// The machine after it has visited, from the entry `from` on, all the code
/// that `state` has emitted for the function it is in.
pub open spec fn spec_ran(state: CodegenSpec, world: World, start: Machine, from: int) -> Machine {
    spec_run(state.code(), world, start, from, state.code().len() as int)
}

/// Whether two lists of functions have the same names in the same order.
pub open spec fn spec_same_names(a: Seq<FunctionSpec>, b: Seq<FunctionSpec>) -> bool {
    a.len() == b.len() && forall|i: int| 0 <= i < a.len() ==> (#[trigger] a[i]).name == b[i].name
}

/// A function is found by its name alone.
pub proof fn lemma_found_by_name(
    a: Seq<FunctionSpec>,
    b: Seq<FunctionSpec>,
    name: Seq<char>,
    from: int,
)
    requires
        spec_same_names(a, b),
    ensures
        first_function_named(a, name, from) == first_function_named(b, name, from),
    decreases a.len() - from,
{
    if 0 <= from < a.len() {
        assert(a[from].name == b[from].name);
        if a[from].name != name {
            lemma_found_by_name(a, b, name, from + 1);
        }
    }
}

/// One more emitted instruction is one more step of the machine, and
/// changes nothing else about the state of the generator.
pub proof fn lemma_emit(state: CodegenSpec, instr: InstrSpec, world: World, start: Machine, from: int)
    requires
        state.in_function(),
        0 <= from <= state.code().len(),
    ensures
        spec_ran(state.emit(instr), world, start, from) == spec_step(
            spec_ran(state, world, start, from),
            world,
            EmittedSpec { at: state.position, instr },
            state.next_id(),
        ),
        spec_continues(state, state.emit(instr), 1),
{
    let after = state.emit(instr);
    let entry = EmittedSpec { at: state.position, instr };
    assert(after.code() == state.code().push(entry));
    lemma_run_prefix(state.code(), after.code(), world, start, from, state.code().len() as int);
    assert(after.code()[state.code().len() as int] == entry);
}

/// Whether the machine has run all the code of `state` and control is in
/// the block where the builder stands.
pub open spec fn spec_at_work(state: CodegenSpec, machine: Machine) -> bool {
    &&& state.positioned()
    &&& machine.control == Control::At(state.position.unwrap())
}

/// Whether `after` has all the code of `before` and behind it only entries
/// that stand in the block where the builder stood, and still stands; and
/// whether the two have the same functions and locals.
pub open spec fn spec_extends(before: CodegenSpec, after: CodegenSpec) -> bool {
    &&& before.in_function()
    &&& after.in_function()
    &&& after.position == before.position
    &&& after.current == before.current
    &&& after.locals == before.locals
    &&& spec_same_names(before.functions, after.functions)
    &&& after.code().len() >= before.code().len()
    &&& forall|k: int|
        0 <= k < before.code().len() ==> #[trigger] after.code()[k] == before.code()[k]
    &&& forall|k: int|
        before.code().len() <= k < after.code().len() ==> (#[trigger] after.code()[k]).at
            == before.position
}

/// Whether `after` extends `before` by `added` entries.
pub open spec fn spec_continues(before: CodegenSpec, after: CodegenSpec, added: int) -> bool {
    spec_extends(before, after) && after.code().len() == before.code().len() + added
}

/// Extending carries over.
pub proof fn lemma_extends_chain(a: CodegenSpec, b: CodegenSpec, c: CodegenSpec)
    requires
        spec_extends(a, b),
        spec_extends(b, c),
    ensures
        spec_extends(a, c),
{
    lemma_names_chain(a.functions, b.functions, c.functions);
    assert forall|k: int| 0 <= k < a.code().len() implies #[trigger] c.code()[k] == a.code()[k] by {
        assert(c.code()[k] == b.code()[k]);
        assert(b.code()[k] == a.code()[k]);
    }
    assert forall|k: int| a.code().len() <= k < c.code().len() implies (#[trigger] c.code()[k]).at
        == a.position by {
        if k < b.code().len() {
            assert(c.code()[k] == b.code()[k]);
            assert(b.code()[k].at == a.position);
        }
    }
}

/// The run of an extended state is the run of the state it extends,
/// carried on over the added entries.
pub proof fn lemma_ran_on(
    before: CodegenSpec,
    after: CodegenSpec,
    world: World,
    start: Machine,
    from: int,
)
    requires
        spec_extends(before, after),
        0 <= from <= before.code().len(),
    ensures
        spec_ran(after, world, start, from) == spec_run(
            after.code(),
            world,
            spec_ran(before, world, start, from),
            before.code().len() as int,
            after.code().len() as int,
        ),
{
    lemma_run_split(
        after.code(),
        world,
        start,
        from,
        before.code().len() as int,
        after.code().len() as int,
    );
    lemma_run_prefix(
        before.code(),
        after.code(),
        world,
        start,
        from,
        before.code().len() as int,
    );
}

/// Entries that stand in blocks where control is not leave the machine as
/// it is, but for the values they define themselves.
pub proof fn lemma_passed_by(
    code: Seq<EmittedSpec>,
    world: World,
    machine: Machine,
    from: int,
    to: int,
)
    requires
        0 <= from <= to <= code.len(),
        to <= usize::MAX,
        match machine.control {
            Control::At(here) => forall|k: int| from <= k < to ==> (#[trigger] code[k]).at != Some(here),
            _ => true,
        },
    ensures
        spec_went_on(machine, spec_run(code, world, machine, from, to), from, machine.memory),
    decreases to - from,
{
    if to > from {
        lemma_passed_by(code, world, machine, from, to - 1);
        let earlier = spec_run(code, world, machine, from, to - 1);
        let entry = code[to - 1];
        let id = (to - 1) as usize;
        let later = spec_step(earlier, world, entry, id);
        assert(later == spec_run(code, world, machine, from, to));
        assert(later.control == earlier.control);
        assert(later.memory == earlier.memory);
        assert(later.calls == earlier.calls);
        assert(later.came_from == earlier.came_from);
        assert(later == earlier || exists|w: Word| later == earlier.set(id, w));
        assert forall|x: usize| x < from implies #[trigger] later.value(x) == machine.value(x) by {
            assert(earlier.value(x) == machine.value(x));
        }
    }
}

/// Entries that stand in a block where control is not leave the machine as
/// it is, but for the values they define themselves.
pub proof fn lemma_passed_over(
    code: Seq<EmittedSpec>,
    world: World,
    machine: Machine,
    from: int,
    to: int,
    at: Option<usize>,
)
    requires
        0 <= from <= to <= code.len(),
        to <= usize::MAX,
        forall|k: int| from <= k < to ==> (#[trigger] code[k]).at == at,
        match machine.control {
            Control::At(here) => at != Some(here),
            _ => true,
        },
    ensures
        spec_went_on(machine, spec_run(code, world, machine, from, to), from, machine.memory),
{
    lemma_passed_by(code, world, machine, from, to);
}

/// The address of the bitfield of the state of `module` at `base`.
pub open spec fn spec_bitfield_of(base: Address, module: ModuleDecl) -> Address {
    base.field(bitfield_slot(module))
}

/// The address of the current slot of the handle at `idx` of the state at
/// `base`.
pub open spec fn spec_current_of(base: Address, idx: int) -> Address {
    base.field(current_slot(idx))
}

/// The address of the update slot of the handle at `idx` of the state at
/// `base`.
pub open spec fn spec_update_of(base: Address, idx: int) -> Address {
    base.field(update_slot(idx))
}

/// The address of the bitfield of the state that the function works on.
pub open spec fn spec_bitfield_address(module: ModuleDecl) -> Address {
    spec_bitfield_of(state_address(), module)
}

/// The address of the current slot of the handle at `idx`.
pub open spec fn spec_current_address(idx: int) -> Address {
    spec_current_of(state_address(), idx)
}

/// The address of the update slot of the handle at `idx`.
pub open spec fn spec_update_address(idx: int) -> Address {
    spec_update_of(state_address(), idx)
}

/// Having the same names carries over.
pub proof fn lemma_names_chain(a: Seq<FunctionSpec>, b: Seq<FunctionSpec>, c: Seq<FunctionSpec>)
    requires
        spec_same_names(a, b),
        spec_same_names(b, c),
    ensures
        spec_same_names(a, c),
{
    assert forall|i: int| 0 <= i < a.len() implies (#[trigger] a[i]).name == c[i].name by {
        assert(a[i].name == b[i].name);
        assert(b[i].name == c[i].name);
    }
}

/// Whether the machine went from `before` to `after` without a jump, a call
/// or a change of the values of the entries below `known`, and with
/// `memory` as its memory afterwards.
pub open spec fn spec_went_on(before: Machine, after: Machine, known: int, memory: Memory) -> bool {
    &&& after.control == before.control
    &&& after.came_from == before.came_from
    &&& after.calls == before.calls
    &&& after.memory == memory
    &&& forall|x: usize| x < known ==> #[trigger] after.value(x) == before.value(x)
}

/// The word at `address` of `memory`.
pub open spec fn spec_word_at(memory: Memory, address: Address) -> Word {
    if memory.contains_key(address) {
        memory[address]
    } else {
        Word::Unknown
    }
}

/// The word `word` combined with `operand` under `op`.
pub open spec fn spec_combined(word: Word, op: BinaryOp, operand: u64) -> Word {
    match word {
        Word::Int(bits) => Word::Int(spec_binary_result(op, bits, operand)),
        _ => Word::Unknown,
    }
}

/// Whether a slot of the representation `value_type` holds a heap span,
/// which takes two words, and not a single word.
pub open spec fn spec_is_span(value_type: Seq<PrimitiveSpec>) -> bool {
    value_type.len() == 1 && (value_type[0] is MemRegion || value_type[0] is DynamicArrayOf)
}

/// The memory once the slot at `target` holds what `first` and `size` say:
/// for a heap span the data pointer and the size, else the one word.
pub open spec fn spec_slot_written(
    memory: Memory,
    value_type: Seq<PrimitiveSpec>,
    target: Address,
    first: Word,
    size: Word,
) -> Memory {
    if spec_is_span(value_type) {
        memory.insert(target.field(0), first).insert(target.field(1), size)
    } else {
        memory.insert(target, first)
    }
}

/// The first word of the slot at `source`.
pub open spec fn spec_slot_first(memory: Memory, value_type: Seq<PrimitiveSpec>, source: Address)
    -> Word {
    if spec_is_span(value_type) {
        spec_word_at(memory, source.field(0))
    } else {
        spec_word_at(memory, source)
    }
}

/// The second word of the slot at `source`, where it holds a heap span.
pub open spec fn spec_slot_size(memory: Memory, source: Address) -> Word {
    spec_word_at(memory, source.field(1))
}

/// Whether the machine has run the code of `state`, control is where the
/// builder stands, the entry `ptr` holds the address `address`, and the
/// numbers of `budget` more entries are numbers still.
pub open spec fn spec_ready(
    state: CodegenSpec,
    machine: Machine,
    ptr: usize,
    address: Address,
    budget: int,
) -> bool {
    &&& spec_at_work(state, machine)
    &&& state.code().len() + budget < usize::MAX
    &&& ptr < state.code().len()
    &&& machine.value(ptr) == Word::Pointer(address)
}

/// What the code for the address of the bitfield does.
pub proof fn lemma_bitfield_ptr(
    state: CodegenSpec,
    module: ModuleDecl,
    state_ptr: usize,
    base: Address,
    world: World,
    start: Machine,
    from: int,
)
    requires
        spec_well_formed(module),
        state.in_function(),
        0 <= from <= state.code().len(),
    ensures
        ({
            let before = spec_ran(state, world, start, from);
            let (after, id) = state.module_bitfield_ptr(module, state_ptr);
            &&& spec_continues(state, after, 1)
            &&& spec_ready(state, before, state_ptr, base, 1) ==> {
                &&& spec_ran(after, world, start, from) == before.set(
                    id,
                    Word::Pointer(spec_bitfield_of(base, module)),
                )
                &&& id == state.code().len()
            }
        }),
{
    lemma_emit(
        state,
        InstrSpec::StructGep {
            ptr: state_ptr,
            index: bitfield_slot(module) as u32,
            name: "bitfield_ptr"@,
        },
        world,
        start,
        from,
    );
}

/// What the code for the address of a handle's current slot does.
pub proof fn lemma_read_ptr(
    state: CodegenSpec,
    module: ModuleDecl,
    state_ptr: usize,
    base: Address,
    name: Seq<char>,
    world: World,
    start: Machine,
    from: int,
)
    requires
        spec_well_formed(module),
        module.spec_idx_for_field(name) is Some,
        state.in_function(),
        0 <= from <= state.code().len(),
    ensures
        ({
            let before = spec_ran(state, world, start, from);
            let idx = module.spec_idx_for_field(name).unwrap();
            let made = state.read_ptr_for_field(module, state_ptr, name);
            &&& 0 <= idx < module.handles@.len()
            &&& made is Ok
            &&& made->Ok_0.1.value_type == spec_type_primitive_for_type(module.handles@[idx].h_type)
            &&& spec_continues(state, made->Ok_0.0, 1)
            &&& spec_ready(state, before, state_ptr, base, 1) ==> {
                &&& spec_ran(made->Ok_0.0, world, start, from) == before.set(
                    made->Ok_0.1.ptr,
                    Word::Pointer(spec_current_of(base, idx)),
                )
                &&& made->Ok_0.1.ptr == state.code().len()
            }
        }),
{
    lemma_first_handle_named(module.handles@, name, 0);
    let idx = module.spec_idx_for_field(name).unwrap();
    lemma_emit(
        state,
        InstrSpec::StructGep { ptr: state_ptr, index: current_slot(idx) as u32, name: "read_ptr"@ },
        world,
        start,
        from,
    );
}

/// What the code for the address of a handle's update slot does.
pub proof fn lemma_update_ptr(
    state: CodegenSpec,
    module: ModuleDecl,
    state_ptr: usize,
    base: Address,
    name: Seq<char>,
    purpose: UpdatePtrPurpose,
    world: World,
    start: Machine,
    from: int,
)
    requires
        spec_well_formed(module),
        module.spec_idx_for_field(name) is Some,
        state.in_function(),
        0 <= from <= state.code().len(),
    ensures
        ({
            let before = spec_ran(state, world, start, from);
            let idx = module.spec_idx_for_field(name).unwrap();
            let made = state.update_ptr_for_field(module, state_ptr, name, purpose);
            &&& 0 <= idx < module.handles@.len()
            &&& made is Ok
            &&& made->Ok_0.1.mask == handle_bit(idx)
            &&& made->Ok_0.1.purpose == purpose
            &&& made->Ok_0.1.target.value_type == spec_type_primitive_for_type(
                module.handles@[idx].h_type,
            )
            &&& spec_continues(state, made->Ok_0.0, 2)
            &&& spec_ready(state, before, state_ptr, base, 2) ==> {
                &&& spec_ran(made->Ok_0.0, world, start, from) == before.set(
                    made->Ok_0.1.target.ptr,
                    Word::Pointer(spec_update_of(base, idx)),
                ).set(made->Ok_0.1.bitfield_ptr, Word::Pointer(spec_bitfield_of(base, module)))
                &&& made->Ok_0.1.target.ptr == state.code().len()
                &&& made->Ok_0.1.bitfield_ptr == state.code().len() + 1
            }
        }),
{
    lemma_first_handle_named(module.handles@, name, 0);
    let idx = module.spec_idx_for_field(name).unwrap();
    let instr = InstrSpec::StructGep {
        ptr: state_ptr,
        index: update_slot(idx) as u32,
        name: "update_ptr"@,
    };
    lemma_emit(state, instr, world, start, from);
    let with_slot = state.emit(instr);
    lemma_bitfield_ptr(with_slot, module, state_ptr, base, world, start, from);
    lemma_extends_chain(state, with_slot, with_slot.module_bitfield_ptr(module, state_ptr).0);
}

/// What the code that loads a value does: the parts of the value come from
/// the slot, and nothing else changes.
pub proof fn lemma_load_value(
    state: CodegenSpec,
    source: TypedPointerSpec,
    name: Seq<char>,
    address: Address,
    world: World,
    start: Machine,
    from: int,
)
    requires
        source.value_type.len() == 1,
        state.in_function(),
        0 <= from <= state.code().len(),
    ensures
        ({
            let before = spec_ran(state, world, start, from);
            let made = state.load_value(source, name);
            let after = spec_ran(made->Ok_0.0, world, start, from);
            let value = made->Ok_0.1;
            &&& made is Ok
            &&& value.value_type() == source.value_type
            &&& !(value is Nothing)
            &&& spec_is_span(source.value_type) == (value.size_part() is Some)
            &&& spec_extends(state, made->Ok_0.0)
            &&& made->Ok_0.0.code().len() <= state.code().len() + 4
            &&& state.code().len() + 4 < usize::MAX ==> {
                &&& state.code().len() <= value.first_part() < made->Ok_0.0.code().len()
                &&& value.size_part() is Some ==> state.code().len() <= value.size_part().unwrap()
                    < made->Ok_0.0.code().len()
            }
            &&& spec_ready(state, before, source.ptr, address, 4) ==> {
                &&& spec_went_on(before, after, state.code().len() as int, before.memory)
                &&& after.value(value.first_part()) == spec_slot_first(
                    before.memory,
                    source.value_type,
                    address,
                )
                &&& value.size_part() is Some ==> after.value(value.size_part().unwrap())
                    == spec_slot_size(before.memory, address)
            }
        }),
{
    let before = spec_ran(state, world, start, from);
    if spec_is_span(source.value_type) {
        let i0 = InstrSpec::StructGep { ptr: source.ptr, index: 0, name: "data_ptr"@ };
        lemma_emit(state, i0, world, start, from);
        let s1 = state.emit(i0);
        let i1 = InstrSpec::Load { ptr: state.next_id(), name };
        lemma_emit(s1, i1, world, start, from);
        let s2 = s1.emit(i1);
        let i2 = InstrSpec::StructGep { ptr: source.ptr, index: 1, name: "size_ptr"@ };
        lemma_emit(s2, i2, world, start, from);
        let s3 = s2.emit(i2);
        let i3 = InstrSpec::Load { ptr: s2.next_id(), name: "size"@ };
        lemma_emit(s3, i3, world, start, from);
        let s4 = s3.emit(i3);
        lemma_extends_chain(state, s1, s2);
        lemma_extends_chain(state, s2, s3);
        lemma_extends_chain(state, s3, s4);
        assert(state.load_region(source.ptr, name) == (s4, s1.next_id(), s3.next_id()));
    } else {
        let i0 = InstrSpec::Load { ptr: source.ptr, name };
        lemma_emit(state, i0, world, start, from);
    }
}

/// What the code that stores a value does: the slot takes the words that
/// the value's parts hold, and nothing else changes.
pub proof fn lemma_store_value(
    state: CodegenSpec,
    value: StateValueSpec,
    target: TypedPointerSpec,
    address: Address,
    world: World,
    start: Machine,
    from: int,
)
    requires
        target.value_type.len() == 1,
        value.value_type() == target.value_type,
        state.in_function(),
        0 <= from <= state.code().len(),
    ensures
        ({
            let before = spec_ran(state, world, start, from);
            let made = state.store_value(value, target);
            let after = spec_ran(made->Ok_0.0, world, start, from);
            &&& made is Ok
            &&& spec_extends(state, made->Ok_0.0)
            &&& made->Ok_0.0.code().len() <= state.code().len() + 4
            &&& (spec_ready(state, before, target.ptr, address, 4) && value.first_part()
                < state.code().len() && (value.size_part() is Some ==> value.size_part().unwrap()
                < state.code().len())) ==> spec_went_on(
                before,
                after,
                state.code().len() as int,
                spec_slot_written(
                    before.memory,
                    target.value_type,
                    address,
                    before.value(value.first_part()),
                    if value.size_part() is Some {
                        before.value(value.size_part().unwrap())
                    } else {
                        Word::Unknown
                    },
                ),
            )
        }),
{
    let before = spec_ran(state, world, start, from);
    assert(target.value_type[0] == value.value_type()[0]);
    if spec_is_span(target.value_type) {
        let data = value.first_part();
        let size = value.size_part().unwrap();
        let i0 = InstrSpec::StructGep { ptr: target.ptr, index: 0, name: "data_ptr"@ };
        lemma_emit(state, i0, world, start, from);
        let s1 = state.emit(i0);
        let i1 = InstrSpec::Store { ptr: state.next_id(), value: data };
        lemma_emit(s1, i1, world, start, from);
        let s2 = s1.emit(i1);
        let i2 = InstrSpec::StructGep { ptr: target.ptr, index: 1, name: "size_ptr"@ };
        lemma_emit(s2, i2, world, start, from);
        let s3 = s2.emit(i2);
        let i3 = InstrSpec::Store { ptr: s2.next_id(), value: size };
        lemma_emit(s3, i3, world, start, from);
        let s4 = s3.emit(i3);
        lemma_extends_chain(state, s1, s2);
        lemma_extends_chain(state, s2, s3);
        lemma_extends_chain(state, s3, s4);
        assert(state.store_region(target.ptr, data, size) == s4);
    } else {
        let i0 = InstrSpec::Store { ptr: target.ptr, value: value.first_part() };
        lemma_emit(state, i0, world, start, from);
    }
}

/// What the code that changes the bitfield does: the bitfield is combined
/// with the operand, and nothing else changes.
pub proof fn lemma_change_bitfield(
    state: CodegenSpec,
    bitfield_ptr: usize,
    op: BinaryOp,
    operand: u64,
    address: Address,
    world: World,
    start: Machine,
    from: int,
)
    requires
        state.in_function(),
        0 <= from <= state.code().len(),
    ensures
        ({
            let before = spec_ran(state, world, start, from);
            let changed = state.change_bitfield(bitfield_ptr, op, operand);
            let after = spec_ran(changed, world, start, from);
            &&& spec_continues(state, changed, 4)
            &&& spec_ready(state, before, bitfield_ptr, address, 4) ==> spec_went_on(
                before,
                after,
                state.code().len() as int,
                before.memory.insert(
                    address,
                    spec_combined(spec_word_at(before.memory, address), op, operand),
                ),
            )
        }),
{
    let i0 = InstrSpec::Load { ptr: bitfield_ptr, name: "bitfield"@ };
    lemma_emit(state, i0, world, start, from);
    let s1 = state.emit(i0);
    let i1 = InstrSpec::ConstInt { bits: 64, constant: operand };
    lemma_emit(s1, i1, world, start, from);
    let s2 = s1.emit(i1);
    let i2 = InstrSpec::Binary {
        op,
        lhs: state.next_id(),
        rhs: s1.next_id(),
        name: "new_bitfield"@,
    };
    lemma_emit(s2, i2, world, start, from);
    let s3 = s2.emit(i2);
    let i3 = InstrSpec::Store { ptr: bitfield_ptr, value: s2.next_id() };
    lemma_emit(s3, i3, world, start, from);
    let s4 = s3.emit(i3);
    lemma_extends_chain(state, s1, s2);
    lemma_extends_chain(state, s2, s3);
    lemma_extends_chain(state, s3, s4);
}

/// The first word of the zero of the representation `value_type`: zero
/// for an integer, a character or a truth value, the null pointer else.
pub open spec fn spec_zero_first(value_type: Seq<PrimitiveSpec>) -> Word {
    if value_type.len() == 1 && (value_type[0] is Int || value_type[0] is Char || value_type[0]
        is Bool) {
        Word::Int(0)
    } else {
        Word::Null
    }
}

/// The memory once the slot at `target` holds the zero of its
/// representation.
pub open spec fn spec_slot_zeroed(memory: Memory, value_type: Seq<PrimitiveSpec>, target: Address)
    -> Memory {
    spec_slot_written(memory, value_type, target, spec_zero_first(value_type), Word::Int(0))
}

/// What the code that stores the zero of a slot's representation does.
pub proof fn lemma_store_zero(
    state: CodegenSpec,
    target: TypedPointerSpec,
    address: Address,
    world: World,
    start: Machine,
    from: int,
)
    requires
        target.value_type.len() == 1,
        state.in_function(),
        0 <= from <= state.code().len(),
    ensures
        ({
            let before = spec_ran(state, world, start, from);
            let zeroed = state.store_zero(target);
            &&& spec_extends(state, zeroed)
            &&& zeroed.code().len() <= state.code().len() + 6
            &&& spec_ready(state, before, target.ptr, address, 6) ==> spec_went_on(
                before,
                spec_ran(zeroed, world, start, from),
                state.code().len() as int,
                spec_slot_zeroed(before.memory, target.value_type, address),
            )
        }),
{
    let zero = InstrSpec::ConstInt { bits: 64, constant: 0 };
    match target.value_type[0] {
        PrimitiveSpec::Int | PrimitiveSpec::Char | PrimitiveSpec::Bool => {
            let small = InstrSpec::ConstInt {
                bits: match target.value_type[0] {
                    PrimitiveSpec::Int => 64,
                    PrimitiveSpec::Char => 8,
                    _ => 1,
                },
                constant: 0,
            };
            lemma_emit(state, small, world, start, from);
            let s1 = state.emit(small);
            let store = InstrSpec::Store { ptr: target.ptr, value: state.next_id() };
            lemma_emit(s1, store, world, start, from);
            lemma_extends_chain(state, s1, s1.emit(store));
        },
        _ => {
            lemma_emit(state, zero, world, start, from);
            let s1 = state.emit(zero);
            let to_pointer = spec_null_instr(state, target);
            lemma_emit(s1, to_pointer, world, start, from);
            let s2 = s1.emit(to_pointer);
            lemma_extends_chain(state, s1, s2);
            let null = s1.next_id();
            if spec_is_span(target.value_type) {
                let i0 = InstrSpec::StructGep { ptr: target.ptr, index: 0, name: "data_ptr"@ };
                lemma_emit(s2, i0, world, start, from);
                let s3 = s2.emit(i0);
                let i1 = InstrSpec::Store { ptr: s2.next_id(), value: null };
                lemma_emit(s3, i1, world, start, from);
                let s4 = s3.emit(i1);
                let i2 = InstrSpec::StructGep { ptr: target.ptr, index: 1, name: "size_ptr"@ };
                lemma_emit(s4, i2, world, start, from);
                let s5 = s4.emit(i2);
                let i3 = InstrSpec::Store { ptr: s4.next_id(), value: state.next_id() };
                lemma_emit(s5, i3, world, start, from);
                let s6 = s5.emit(i3);
                lemma_extends_chain(state, s2, s3);
                lemma_extends_chain(state, s3, s4);
                lemma_extends_chain(state, s4, s5);
                lemma_extends_chain(state, s5, s6);
                assert(s2.store_region(target.ptr, null, state.next_id()) == s6);
            } else {
                let store = InstrSpec::Store { ptr: target.ptr, value: null };
                lemma_emit(s2, store, world, start, from);
                lemma_extends_chain(state, s2, s2.emit(store));
            }
        },
    }
}

/// The instruction that makes the null pointer for the slot that `target`
/// points to.
pub open spec fn spec_null_instr(state: CodegenSpec, target: TypedPointerSpec) -> InstrSpec {
    InstrSpec::IntToPtr {
        address: state.next_id(),
        pointee: match target.value_type[0] {
            PrimitiveSpec::MemRegion => IrTypeSpec::byte(),
            PrimitiveSpec::DynamicArrayOf(elem_type) => lowered_type(
                elem_type,
            ),
            PrimitiveSpec::PointerTo(field_types) => lowered_type(
                field_types,
            ),
            PrimitiveSpec::FixedArrayOf(elem_type, _) => lowered_type(
                elem_type,
            ),
            _ => IrTypeSpec::byte(),
        },
        name: "null"@,
    }
}

} // verus!
