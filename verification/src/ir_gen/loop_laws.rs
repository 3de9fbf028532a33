//! What one round of the fixpoint loop of a copy into a submodule does
//! when it runs.

use crate::ast::{lemma_first_handle_named, ModuleDecl, ModuleInfo};
use crate::ir_gen::codegen::expression_codegen::{
    spec_copy_back_from, spec_fixpoint_loop, spec_loop_head, spec_maybe_copy_back,
};
use crate::ir_gen::codegen::spec_ir_listener_type;
use crate::ir_gen::codegen_state::{handle_bit, CodegenSpec, ErrorSpec, UpdatePtrPurpose};
use crate::ir_gen::ir::{first_function_named, BinaryOp, InstrSpec, Predicate};
use crate::ir_gen::primitives::spec_type_primitive_for_type;
use crate::ir_gen::run_laws::{
    lemma_bitfield_ptr, lemma_change_bitfield, lemma_emit, lemma_extends_chain, lemma_found_by_name,
    lemma_load_value, lemma_names_chain, lemma_passed_by, lemma_passed_over, lemma_ran_on,
    lemma_store_value, lemma_update_ptr, spec_bitfield_address, spec_bitfield_of, spec_combined,
    spec_extends, spec_ran, spec_ready, spec_slot_first, spec_slot_size, spec_slot_written,
    spec_update_address, spec_update_of, spec_word_at,
};
use crate::ir_gen::semantics::{
    spec_run, state_address, Address, CallMade, Control, Machine, Memory, Word, World,
};
use crate::ir_gen::types::spec_well_formed;
use crate::ir_gen::update_laws::spec_follows;
use vstd::prelude::*;

verus! {

/// The handle of the child whose slots the code for the child's handle at
/// `index` reads: the first of that name.
pub open spec fn spec_drain_source(info: ModuleInfo, index: int) -> int {
    info.module.spec_idx_for_field(info.module.handles@[index].name@).unwrap()
}

/// The handle of the parent that the child's handle at `index` is wired to.
pub open spec fn spec_drain_target(parent: ModuleDecl, info: ModuleInfo, index: int) -> int {
    parent.spec_idx_for_field(
        info.spec_parent_of(info.module.handles@[index].name@).unwrap(),
    ).unwrap()
}

/// The memory once the pending value of the child's handle at `index` is
/// drained: the update slot of the parent handle it is wired to holds what
/// the child's update slot holds, and that parent handle's bit is set. The
/// child's state lies at `child_base`.
pub open spec fn spec_drained(
    parent: ModuleDecl,
    info: ModuleInfo,
    child_base: Address,
    memory: Memory,
    index: int,
) -> Memory {
    let source = spec_drain_source(info, index);
    let target = spec_drain_target(parent, info, index);
    let value_type = spec_type_primitive_for_type(info.module.handles@[source].h_type);
    let written = spec_slot_written(
        memory,
        value_type,
        spec_update_address(target),
        spec_slot_first(memory, value_type, spec_update_of(child_base, source)),
        spec_slot_size(memory, spec_update_of(child_base, source)),
    );
    written.insert(
        spec_bitfield_address(parent),
        spec_combined(
            spec_word_at(written, spec_bitfield_address(parent)),
            BinaryOp::Or,
            handle_bit(target),
        ),
    )
}

/// The memory after the code for the child's handle at `index` in a round
/// that found `bits` in the child's bitfield: the handle is drained where
/// its bit is set.
pub open spec fn spec_copied_back(
    parent: ModuleDecl,
    info: ModuleInfo,
    child_base: Address,
    bits: u64,
    memory: Memory,
    index: int,
) -> Memory {
    if bits & handle_bit(index) != 0 {
        spec_drained(parent, info, child_base, memory, index)
    } else {
        memory
    }
}

/// Whether the machine is ready to run code that works on the parent's
/// state through `state_ptr`, on the child's state at `child_base` through
/// `submodule_state_ptr`, and on the child's bitfield as it was read into
/// `bitfield`.
pub open spec fn spec_ready_to_drain(
    state: CodegenSpec,
    machine: Machine,
    state_ptr: usize,
    submodule_state_ptr: usize,
    child_base: Address,
    bitfield: usize,
    bits: u64,
    budget: int,
) -> bool {
    &&& spec_ready(state, machine, state_ptr, state_address(), budget)
    &&& submodule_state_ptr < state.code().len()
    &&& machine.value(submodule_state_ptr) == Word::Pointer(child_base)
    &&& bitfield < state.code().len()
    &&& machine.value(bitfield) == Word::Int(bits)
}

/// Whether every entry that `after` has more than `before` stands in the
/// block where the builder stood in `before` or in a block that was made
/// since, and the builder stands in such a block too.
pub open spec fn spec_stays_within(before: CodegenSpec, after: CodegenSpec) -> bool {
    &&& forall|k: int|
        before.code().len() <= k < after.code().len() ==> spec_within(
            before,
            (#[trigger] after.code()[k]).at,
        )
    &&& spec_within(before, after.position)
}

/// Whether `at` is the block where the builder stands in `before` or a
/// block that `before` does not have yet.
pub open spec fn spec_within(before: CodegenSpec, at: Option<usize>) -> bool {
    at == before.position || (at is Some && at.unwrap() >= before.code().len())
}

/// What the code for one output handle of the child does.
#[verifier::rlimit(40)]
pub proof fn lemma_maybe_copy_back(
    state: CodegenSpec,
    module: ModuleDecl,
    state_ptr: usize,
    info: ModuleInfo,
    submodule_state_ptr: usize,
    child_base: Address,
    bitfield: usize,
    index: int,
    bits: u64,
    world: World,
    start: Machine,
    from: int,
)
    requires
        spec_well_formed(module),
        spec_well_formed(info.module),
        state.positioned(),
        0 <= from <= state.code().len(),
        0 <= index < info.module.handles@.len(),
        spec_maybe_copy_back(
            state,
            module,
            state_ptr,
            info,
            submodule_state_ptr,
            bitfield,
            index,
        ) is Ok,
    ensures
        ({
            let before = spec_ran(state, world, start, from);
            let after = spec_maybe_copy_back(
                state,
                module,
                state_ptr,
                info,
                submodule_state_ptr,
                bitfield,
                index,
            )->Ok_0.0;
            let ran = spec_ran(after, world, start, from);
            &&& spec_follows(state, after)
            &&& after.code().len() < usize::MAX ==> spec_stays_within(state, after)
            &&& after.code().len() <= state.code().len() + 25
            &&& spec_ready_to_drain(
                state,
                before,
                state_ptr,
                submodule_state_ptr,
                child_base,
                bitfield,
                bits,
                25,
            ) ==> {
                &&& ran.control == Control::At(after.position.unwrap())
                &&& ran.calls == before.calls
                &&& ran.memory == spec_copied_back(
                    module,
                    info,
                    child_base,
                    bits,
                    before.memory,
                    index,
                )
                &&& forall|x: usize| x < state.code().len() ==> #[trigger] ran.value(x) == before.value(x)
            }
        }),
{
    let before = spec_ran(state, world, start, from);
    let child = info.module;
    let src_name = child.handles@[index].name@;
    lemma_first_handle_named(child.handles@, src_name, 0);
    let i0 = InstrSpec::ConstInt { bits: 64, constant: handle_bit(index) };
    lemma_emit(state, i0, world, start, from);
    let s1 = state.emit(i0);
    let i1 = InstrSpec::Binary {
        op: BinaryOp::And,
        lhs: bitfield,
        rhs: state.next_id(),
        name: "test"@,
    };
    lemma_emit(s1, i1, world, start, from);
    let s2 = s1.emit(i1);
    let i2 = InstrSpec::ConstInt { bits: 64, constant: 0 };
    lemma_emit(s2, i2, world, start, from);
    let s3 = s2.emit(i2);
    let i3 = InstrSpec::Compare {
        predicate: Predicate::NotEqual,
        lhs: s1.next_id(),
        rhs: s2.next_id(),
        name: "needs_copy"@,
    };
    lemma_emit(s3, i3, world, start, from);
    let s4 = s3.emit(i3);
    let i4 = InstrSpec::Block { name: "do_copy"@ };
    lemma_emit(s4, i4, world, start, from);
    let s5 = s4.emit(i4);
    let i5 = InstrSpec::Block { name: "after_copy"@ };
    lemma_emit(s5, i5, world, start, from);
    let s6 = s5.emit(i5);
    let do_copy = s4.next_id();
    let after_copy = s5.next_id();
    let i6 = InstrSpec::CondBr { condition: s3.next_id(), if_true: do_copy, if_false: after_copy };
    lemma_emit(s6, i6, world, start, from);
    let s7 = s6.emit(i6);
    lemma_extends_chain(state, s1, s2);
    lemma_extends_chain(state, s2, s3);
    lemma_extends_chain(state, s3, s4);
    lemma_extends_chain(state, s4, s5);
    lemma_extends_chain(state, s5, s6);
    lemma_extends_chain(state, s6, s7);
    assert(s4.append_new_block("do_copy"@) == Ok::<_, ErrorSpec>((s5, do_copy)));
    assert(s5.append_new_block("after_copy"@) == Ok::<_, ErrorSpec>((s6, after_copy)));
    let branched = s7.position_at_end(do_copy);
    assert(branched.code() == s7.code());
    assert(branched.functions == s7.functions);
    let m7 = spec_ran(s7, world, start, from);
    assert(spec_ran(branched, world, start, from) == m7);

    lemma_update_ptr(
        branched,
        child,
        submodule_state_ptr,
        child_base,
        src_name,
        UpdatePtrPurpose::ReadWithoutClearing,
        world,
        start,
        from,
    );
    let (with_src, src) = branched.update_ptr_for_field(
        child,
        submodule_state_ptr,
        src_name,
        UpdatePtrPurpose::ReadWithoutClearing,
    )->Ok_0;
    let dest_name = info.spec_parent_of(src_name).unwrap();
    assert(info.spec_parent_of(src_name) is Some);
    assert(module.spec_idx_for_field(dest_name) is Some);
    lemma_update_ptr(
        with_src,
        module,
        state_ptr,
        state_address(),
        dest_name,
        UpdatePtrPurpose::WriteAndSet,
        world,
        start,
        from,
    );
    let (with_dest, dest) = with_src.update_ptr_for_field(
        module,
        state_ptr,
        dest_name,
        UpdatePtrPurpose::WriteAndSet,
    )->Ok_0;
    lemma_extends_chain(branched, with_src, with_dest);
    let source = spec_drain_source(info, index);
    let target = spec_drain_target(module, info, index);
    assert(src.target.value_type.len() == 1);
    lemma_load_value(
        with_dest,
        src.target,
        "value"@,
        spec_update_of(child_base, source),
        world,
        start,
        from,
    );
    let (loaded, value) = with_dest.load_value(src.target, "value"@)->Ok_0;
    assert(with_dest.load_update(src, "value"@) == Ok::<_, ErrorSpec>((loaded, value)));
    lemma_extends_chain(branched, with_dest, loaded);
    assert(loaded.store_update(value, dest) is Ok);
    assert(loaded.store_value(value, dest.target) is Ok);
    assert(value.value_type() == dest.target.value_type);
    lemma_store_value(loaded, value, dest.target, spec_update_address(target), world, start, from);
    let stored = loaded.store_value(value, dest.target)->Ok_0.0;
    lemma_extends_chain(branched, loaded, stored);
    lemma_change_bitfield(
        stored,
        dest.bitfield_ptr,
        BinaryOp::Or,
        dest.mask,
        spec_bitfield_address(module),
        world,
        start,
        from,
    );
    let set = stored.change_bitfield(dest.bitfield_ptr, BinaryOp::Or, dest.mask);
    lemma_extends_chain(branched, stored, set);
    let i7 = InstrSpec::Br { target: after_copy };
    lemma_emit(set, i7, world, start, from);
    let left = set.emit(i7);
    lemma_extends_chain(branched, set, left);
    let after = left.position_at_end(after_copy);
    assert(after.code() == left.code());
    assert(after.functions == left.functions);
    assert(spec_maybe_copy_back(
        state,
        module,
        state_ptr,
        info,
        submodule_state_ptr,
        bitfield,
        index,
    )->Ok_0.0 == after);
    lemma_names_chain(state.functions, s7.functions, left.functions);
    assert forall|k: int| 0 <= k < state.code().len() implies #[trigger] after.code()[k]
        == state.code()[k] by {
        assert(left.code()[k] == branched.code()[k]);
        assert(s7.code()[k] == state.code()[k]);
    }
    if after.code().len() < usize::MAX {
        assert forall|k: int| state.code().len() <= k < after.code().len() implies spec_within(
            state,
            (#[trigger] after.code()[k]).at,
        ) by {
            if k < s7.code().len() {
                assert(left.code()[k] == branched.code()[k]);
                assert(s7.code()[k].at == state.position);
            } else {
                assert(left.code()[k].at == branched.position);
            }
        }
    }

    if spec_ready_to_drain(
        state,
        before,
        state_ptr,
        submodule_state_ptr,
        child_base,
        bitfield,
        bits,
        25,
    ) {
        let ran = spec_ran(after, world, start, from);
        assert(spec_ran(left, world, start, from) == ran);
        assert(m7.memory == before.memory);
        assert(m7.calls == before.calls);
        assert forall|x: usize| x < state.code().len() implies #[trigger] m7.value(x)
            == before.value(x) by {}
        if bits & handle_bit(index) != 0 {
            assert(m7.control == Control::At(do_copy));
            assert(spec_ready(branched, m7, submodule_state_ptr, child_base, 2));
            let m_src = spec_ran(with_src, world, start, from);
            assert(spec_ready(with_src, m_src, state_ptr, state_address(), 2));
            let m_dest = spec_ran(with_dest, world, start, from);
            assert(m_dest.value(src.target.ptr) == m_src.value(src.target.ptr));
            assert(spec_ready(
                with_dest,
                m_dest,
                src.target.ptr,
                spec_update_of(child_base, source),
                4,
            ));
            let m_loaded = spec_ran(loaded, world, start, from);
            assert(m_loaded.value(dest.target.ptr) == m_dest.value(dest.target.ptr));
            assert(spec_ready(loaded, m_loaded, dest.target.ptr, spec_update_address(target), 4));
            let m_stored = spec_ran(stored, world, start, from);
            assert(m_stored.value(dest.bitfield_ptr) == m_loaded.value(dest.bitfield_ptr));
            assert(m_loaded.value(dest.bitfield_ptr) == m_dest.value(dest.bitfield_ptr));
            assert(spec_ready(
                stored,
                m_stored,
                dest.bitfield_ptr,
                spec_bitfield_address(module),
                4,
            ));
            let m_set = spec_ran(set, world, start, from);
            assert forall|x: usize| x < state.code().len() implies #[trigger] ran.value(x)
                == before.value(x) by {
                assert(m_set.value(x) == m_stored.value(x));
                assert(m_stored.value(x) == m_loaded.value(x));
                assert(m_loaded.value(x) == m_dest.value(x));
                assert(m_dest.value(x) == m_src.value(x));
                assert(m_src.value(x) == m7.value(x));
            }
        } else {
            assert(m7.control == Control::At(after_copy));
            lemma_ran_on(branched, left, world, start, from);
            lemma_passed_over(
                left.code(),
                world,
                m7,
                branched.code().len() as int,
                left.code().len() as int,
                Some(do_copy),
            );
        }
    }
}

/// The memory after the code for the child's output handles from position
/// `from` on in a round that found `bits` in the child's bitfield.
pub open spec fn spec_drained_from(
    parent: ModuleDecl,
    info: ModuleInfo,
    child_base: Address,
    bits: u64,
    memory: Memory,
    from: int,
) -> Memory
    decreases info.module.handles@.len() - from,
{
    if from < 0 || from >= info.module.handles@.len() {
        memory
    } else if info.module.handles@[from].spec_is_output() {
        spec_drained_from(
            parent,
            info,
            child_base,
            bits,
            spec_copied_back(parent, info, child_base, bits, memory, from),
            from + 1,
        )
    } else {
        spec_drained_from(parent, info, child_base, bits, memory, from + 1)
    }
}

/// The most entries that the code for the child's handles from position
/// `from` on has.
pub open spec fn spec_drain_size(info: ModuleInfo, from: int) -> int
    decreases info.module.handles@.len() - from,
{
    if from < 0 || from >= info.module.handles@.len() {
        0
    } else {
        25 + spec_drain_size(info, from + 1)
    }
}

/// What the code for the child's output handles does.
#[verifier::rlimit(40)]
pub proof fn lemma_copy_back(
    state: CodegenSpec,
    module: ModuleDecl,
    state_ptr: usize,
    info: ModuleInfo,
    submodule_state_ptr: usize,
    child_base: Address,
    bitfield: usize,
    index: int,
    bits: u64,
    world: World,
    start: Machine,
    from: int,
)
    requires
        spec_well_formed(module),
        spec_well_formed(info.module),
        state.positioned(),
        0 <= from <= state.code().len(),
        0 <= index,
        spec_copy_back_from(
            state,
            module,
            state_ptr,
            info,
            submodule_state_ptr,
            bitfield,
            index,
        ) is Ok,
    ensures
        ({
            let before = spec_ran(state, world, start, from);
            let after = spec_copy_back_from(
                state,
                module,
                state_ptr,
                info,
                submodule_state_ptr,
                bitfield,
                index,
            )->Ok_0.0;
            let ran = spec_ran(after, world, start, from);
            &&& spec_follows(state, after)
            &&& after.code().len() < usize::MAX ==> spec_stays_within(state, after)
            &&& spec_drain_size(info, index) >= 0
            &&& after.code().len() <= state.code().len() + spec_drain_size(info, index)
            &&& spec_ready_to_drain(
                state,
                before,
                state_ptr,
                submodule_state_ptr,
                child_base,
                bitfield,
                bits,
                spec_drain_size(info, index),
            ) ==> {
                &&& ran.control == Control::At(after.position.unwrap())
                &&& ran.calls == before.calls
                &&& ran.memory == spec_drained_from(
                    module,
                    info,
                    child_base,
                    bits,
                    before.memory,
                    index,
                )
                &&& forall|x: usize| x < state.code().len() ==> #[trigger] ran.value(x) == before.value(x)
            }
        }),
    decreases info.module.handles@.len() - index,
{
    let before = spec_ran(state, world, start, from);
    if index < info.module.handles@.len() {
        if info.module.handles@[index].spec_is_output() {
            lemma_maybe_copy_back(
                state,
                module,
                state_ptr,
                info,
                submodule_state_ptr,
                child_base,
                bitfield,
                index,
                bits,
                world,
                start,
                from,
            );
            let copied = spec_maybe_copy_back(
                state,
                module,
                state_ptr,
                info,
                submodule_state_ptr,
                bitfield,
                index,
            )->Ok_0.0;
            lemma_copy_back(
                copied,
                module,
                state_ptr,
                info,
                submodule_state_ptr,
                child_base,
                bitfield,
                index + 1,
                bits,
                world,
                start,
                from,
            );
            let after = spec_copy_back_from(
                copied,
                module,
                state_ptr,
                info,
                submodule_state_ptr,
                bitfield,
                index + 1,
            )->Ok_0.0;
            lemma_names_chain(state.functions, copied.functions, after.functions);
            assert forall|k: int| 0 <= k < state.code().len() implies #[trigger] after.code()[k]
                == state.code()[k] by {
                assert(after.code()[k] == copied.code()[k]);
            }
            if after.code().len() < usize::MAX {
                assert forall|k: int|
                    state.code().len() <= k < after.code().len() implies spec_within(
                    state,
                    (#[trigger] after.code()[k]).at,
                ) by {
                    if k < copied.code().len() {
                        assert(after.code()[k] == copied.code()[k]);
                        assert(spec_within(state, copied.code()[k].at));
                    } else {
                        assert(spec_within(copied, after.code()[k].at));
                    }
                }
            }
            let mid = spec_ran(copied, world, start, from);
            if spec_ready_to_drain(
                state,
                before,
                state_ptr,
                submodule_state_ptr,
                child_base,
                bitfield,
                bits,
                spec_drain_size(info, index),
            ) {
                assert(mid.value(state_ptr) == before.value(state_ptr));
                assert(mid.value(submodule_state_ptr) == before.value(submodule_state_ptr));
                assert(mid.value(bitfield) == before.value(bitfield));
                assert(spec_ready_to_drain(
                    copied,
                    mid,
                    state_ptr,
                    submodule_state_ptr,
                    child_base,
                    bitfield,
                    bits,
                    spec_drain_size(info, index + 1),
                ));
                let ran = spec_ran(after, world, start, from);
                assert forall|x: usize| x < state.code().len() implies #[trigger] ran.value(x)
                    == before.value(x) by {
                    assert(ran.value(x) == mid.value(x));
                }
            }
        } else {
            lemma_copy_back(
                state,
                module,
                state_ptr,
                info,
                submodule_state_ptr,
                child_base,
                bitfield,
                index + 1,
                bits,
                world,
                start,
                from,
            );
        }
    }
}

/// The function that a round calls: the update function of the child,
/// which is the first function of that name, or a new function where there
/// is none.
pub open spec fn spec_round_callee(state: CodegenSpec, info: ModuleInfo) -> usize {
    match first_function_named(state.functions, info.module.spec_fn_name(), 0) {
        Some(found) => found as usize,
        None => state.functions.len() as usize,
    }
}

/// The most entries that the code of a fixpoint loop has.
pub open spec fn spec_loop_size(info: ModuleInfo) -> int {
    11 + spec_drain_size(info, 0)
}

/// The machine after one round of the loop that `state` emits for the
/// submodule `info`: it starts in the loop's first block and visits all the
/// code of the loop.
pub open spec fn spec_after_round(
    state: CodegenSpec,
    module: ModuleDecl,
    state_ptr: usize,
    info: ModuleInfo,
    submodule_state_ptr: usize,
    world: World,
    machine: Machine,
) -> Machine {
    let emitted = spec_fixpoint_loop(state, module, state_ptr, info, submodule_state_ptr)->Ok_0.0;
    spec_run(
        emitted.code(),
        world,
        machine,
        state.code().len() as int,
        emitted.code().len() as int,
    )
}

/// What has to hold for the laws to speak of a round of the loop: the loop
/// was emitted behind code that had the builder in one of its blocks; the
/// machine is in the loop's first block and holds the pointer to the parent's
/// state in `state_ptr` and the pointer to the child's state, which lies at
/// `child_base`, in `submodule_state_ptr`; and the code is short enough to
/// be numbered.
pub open spec fn spec_round_runs(
    state: CodegenSpec,
    module: ModuleDecl,
    state_ptr: usize,
    info: ModuleInfo,
    submodule_state_ptr: usize,
    child_base: Address,
    machine: Machine,
) -> bool {
    &&& spec_well_formed(module)
    &&& spec_well_formed(info.module)
    &&& spec_fixpoint_loop(state, module, state_ptr, info, submodule_state_ptr) is Ok
    &&& state.positioned()
    &&& state.position.unwrap() < state.code().len()
    &&& state.code().len() + spec_loop_size(info) < usize::MAX
    &&& state.functions.len() < usize::MAX
    &&& state_ptr < state.code().len()
    &&& submodule_state_ptr < state.code().len()
    &&& machine.control == Control::At(state.code().len() as usize)
    &&& machine.value(state_ptr) == Word::Pointer(state_address())
    &&& machine.value(submodule_state_ptr) == Word::Pointer(child_base)
}

/// What the head of the loop does: the child's update function is called
/// on the child's state, and control goes on to the code that drains the
/// child's outputs where the child's bitfield is not zero, and to the block
/// behind the loop where it is.
#[verifier::rlimit(40)]
proof fn lemma_loop_head(
    state: CodegenSpec,
    module: ModuleDecl,
    state_ptr: usize,
    info: ModuleInfo,
    submodule_state_ptr: usize,
    child_base: Address,
    world: World,
    machine: Machine,
)
    requires
        spec_round_runs(state, module, state_ptr, info, submodule_state_ptr, child_base, machine),
    ensures
        ({
            let from = state.code().len() as int;
            let head = spec_loop_head(state, info.module, submodule_state_ptr);
            let begun = head->Ok_0.0;
            let (loop_start, bitfield, updates_complete) = head->Ok_0.1;
            let ran = spec_ran(begun, world, machine, from);
            let call = CallMade {
                callee: spec_round_callee(state, info),
                arguments: seq![Word::Pointer(child_base)],
            };
            let called = (world.effect)(call.callee, call.arguments, machine.memory);
            &&& head is Ok
            &&& begun.positioned()
            &&& begun.code().len() == state.code().len() + 10
            &&& loop_start == state.code().len()
            &&& bitfield < begun.code().len()
            &&& updates_complete < begun.code().len()
            &&& updates_complete != loop_start
            &&& begun.position != Some(updates_complete)
            &&& ran.memory == called
            &&& ran.calls == machine.calls.push(call)
            &&& ran.value(state_ptr) == machine.value(state_ptr)
            &&& ran.value(submodule_state_ptr) == machine.value(submodule_state_ptr)
            &&& match spec_word_at(called, spec_bitfield_of(child_base, info.module)) {
                Word::Int(bits) => ran.value(bitfield) == Word::Int(bits) && ran.control
                    == Control::At(
                    if bits != 0 {
                        begun.position.unwrap()
                    } else {
                        updates_complete
                    },
                ),
                _ => ran.control == Control::Stuck,
            }
        }),
{
    let from = state.code().len() as int;
    let child = info.module;
    lemma_drain_size(info, 0);
    let b0 = InstrSpec::Block { name: "invoke_loop_start"@ };
    lemma_emit(state, b0, world, machine, from);
    let s1 = state.emit(b0);
    let loop_start = state.next_id();
    let b1 = InstrSpec::Br { target: loop_start };
    lemma_emit(s1, b1, world, machine, from);
    let s2 = s1.emit(b1);
    lemma_extends_chain(state, s1, s2);
    let in_loop = s2.position_at_end(loop_start);
    assert(state.flow_to_new_block("invoke_loop_start"@) == Ok::<_, ErrorSpec>((in_loop, loop_start)));
    assert(in_loop.code() == s2.code());
    assert(in_loop.functions == s2.functions);
    assert(spec_ran(state, world, machine, from) == machine);
    assert(spec_ran(s1, world, machine, from) == machine);
    assert(state.position.unwrap() != loop_start);
    assert(spec_ran(s2, world, machine, from) == machine);
    assert(spec_ran(in_loop, world, machine, from) == machine);

    let name = child.spec_fn_name();
    lemma_found_by_name(state.functions, in_loop.functions, name, 0);
    let (declared, callee) = in_loop.declare(name, spec_ir_listener_type(child), None, false);
    assert(callee == spec_round_callee(state, info));
    assert(declared.code() == in_loop.code());
    assert(declared.in_function());
    assert(spec_ran(declared, world, machine, from) == machine);
    let arguments = seq![Word::Pointer(child_base)];
    let c0 = InstrSpec::Call { callee, args: seq![submodule_state_ptr], name: "_"@ };
    lemma_emit(declared, c0, world, machine, from);
    let invoked = declared.emit(c0);
    assert(in_loop.invoke_submodule(child, submodule_state_ptr) == invoked);
    let m_invoked = spec_ran(invoked, world, machine, from);
    assert(machine.values_of(seq![submodule_state_ptr]) =~= arguments);
    assert(spec_ready(invoked, m_invoked, submodule_state_ptr, child_base, 1));
    lemma_bitfield_ptr(invoked, child, submodule_state_ptr, child_base, world, machine, from);
    let (with_ptr, bitfield_ptr) = invoked.module_bitfield_ptr(child, submodule_state_ptr);
    let l0 = InstrSpec::Load { ptr: bitfield_ptr, name: "bitfield"@ };
    lemma_emit(with_ptr, l0, world, machine, from);
    let with_bitfield = with_ptr.emit(l0);
    let z0 = InstrSpec::ConstInt { bits: 64, constant: 0 };
    lemma_emit(with_bitfield, z0, world, machine, from);
    let zero = with_bitfield.emit(z0);
    let h0 = InstrSpec::Compare {
        predicate: Predicate::NotEqual,
        lhs: with_ptr.next_id(),
        rhs: with_bitfield.next_id(),
        name: "has_update"@,
    };
    lemma_emit(zero, h0, world, machine, from);
    let has_update = zero.emit(h0);
    let k0 = InstrSpec::Block { name: "copy_back"@ };
    lemma_emit(has_update, k0, world, machine, from);
    let with_copy_back = has_update.emit(k0);
    let copy_back = has_update.next_id();
    let k1 = InstrSpec::Block { name: "updates_complete"@ };
    lemma_emit(with_copy_back, k1, world, machine, from);
    let with_complete = with_copy_back.emit(k1);
    let updates_complete = with_copy_back.next_id();
    let k2 = InstrSpec::CondBr {
        condition: zero.next_id(),
        if_true: copy_back,
        if_false: updates_complete,
    };
    lemma_emit(with_complete, k2, world, machine, from);
    let branched = with_complete.emit(k2);
    assert(has_update.append_new_block("copy_back"@) == Ok::<_, ErrorSpec>(
        (with_copy_back, copy_back),
    ));
    assert(with_copy_back.append_new_block("updates_complete"@) == Ok::<_, ErrorSpec>(
        (with_complete, updates_complete),
    ));
    let begun = branched.position_at_end(copy_back);
    assert(begun.code() == branched.code());
    assert(spec_ran(begun, world, machine, from) == spec_ran(branched, world, machine, from));
    assert(spec_loop_head(state, child, submodule_state_ptr) == Ok::<_, ErrorSpec>(
        (begun, (loop_start, with_ptr.next_id(), updates_complete)),
    ));
}

/// One round of the fixpoint loop. It calls the child's update function on
/// the child's state and then reads the child's bitfield. Where that is
/// zero, control leaves the loop and nothing else has happened. Where it is
/// not, every output handle of the child whose bit is set is drained, in
/// declaration order, and control is back at the start of the loop.
#[verifier::rlimit(40)]
pub proof fn law_fixpoint_round(
    state: CodegenSpec,
    module: ModuleDecl,
    state_ptr: usize,
    info: ModuleInfo,
    submodule_state_ptr: usize,
    child_base: Address,
    world: World,
    machine: Machine,
)
    requires
        spec_round_runs(state, module, state_ptr, info, submodule_state_ptr, child_base, machine),
    ensures
        ({
            let emitted = spec_fixpoint_loop(
                state,
                module,
                state_ptr,
                info,
                submodule_state_ptr,
            )->Ok_0.0;
            let loop_start = state.code().len() as usize;
            let ran = spec_after_round(
                state,
                module,
                state_ptr,
                info,
                submodule_state_ptr,
                world,
                machine,
            );
            let call = CallMade {
                callee: spec_round_callee(state, info),
                arguments: seq![Word::Pointer(child_base)],
            };
            let called = (world.effect)(call.callee, call.arguments, machine.memory);
            &&& emitted.position is Some
            &&& emitted.position.unwrap() != loop_start
            &&& ran.calls == machine.calls.push(call)
            &&& match spec_word_at(called, spec_bitfield_of(child_base, info.module)) {
                Word::Int(bits) => if bits == 0 {
                    ran.control == Control::At(emitted.position.unwrap()) && ran.memory == called
                } else {
                    ran.control == Control::At(loop_start) && ran.memory == spec_drained_from(
                        module,
                        info,
                        child_base,
                        bits,
                        called,
                        0,
                    )
                },
                _ => ran.control == Control::Stuck,
            }
        }),
{
    let from = state.code().len() as int;
    lemma_loop_head(state, module, state_ptr, info, submodule_state_ptr, child_base, world, machine);
    lemma_drain_size(info, 0);
    let head = spec_loop_head(state, info.module, submodule_state_ptr);
    let begun = head->Ok_0.0;
    let (loop_start, bitfield, updates_complete) = head->Ok_0.1;
    let m_begun = spec_ran(begun, world, machine, from);
    let call = CallMade {
        callee: spec_round_callee(state, info),
        arguments: seq![Word::Pointer(child_base)],
    };
    let called = (world.effect)(call.callee, call.arguments, machine.memory);
    let bits_word = spec_word_at(called, spec_bitfield_of(child_base, info.module));
    let bits = match bits_word {
        Word::Int(b) => b,
        _ => 0,
    };
    let copied = spec_copy_back_from(
        begun,
        module,
        state_ptr,
        info,
        submodule_state_ptr,
        bitfield,
        0,
    )->Ok_0.0;
    lemma_copy_back(
        begun,
        module,
        state_ptr,
        info,
        submodule_state_ptr,
        child_base,
        bitfield,
        0,
        bits,
        world,
        machine,
        from,
    );
    let e0 = InstrSpec::Br { target: loop_start };
    lemma_emit(copied, e0, world, machine, from);
    let left = copied.emit(e0);
    let emitted = left.position_at_end(updates_complete);
    assert(emitted.code() == left.code());
    assert(spec_fixpoint_loop(state, module, state_ptr, info, submodule_state_ptr)->Ok_0.0
        == emitted);
    let ran = spec_ran(left, world, machine, from);
    assert(spec_after_round(state, module, state_ptr, info, submodule_state_ptr, world, machine)
        == ran);
    match bits_word {
        Word::Int(b) => {
            if b != 0 {
                assert(spec_ready_to_drain(
                    begun,
                    m_begun,
                    state_ptr,
                    submodule_state_ptr,
                    child_base,
                    bitfield,
                    bits,
                    spec_drain_size(info, 0),
                ));
            } else {
                lemma_skipped(begun, copied, left, world, machine, from, updates_complete);
            }
        },
        _ => {
            lemma_skipped(begun, copied, left, world, machine, from, updates_complete);
        },
    }
}

/// The size of the code for the child's handles is no negative number.
pub proof fn lemma_drain_size(info: ModuleInfo, from: int)
    ensures
        spec_drain_size(info, from) >= 0,
    decreases info.module.handles@.len() - from,
{
    if 0 <= from < info.module.handles@.len() {
        lemma_drain_size(info, from + 1);
    }
}

/// A machine that is not in the block where the code of `copied` begins,
/// nor in a block made since, passes all of it by, and the branch behind it
/// as well.
proof fn lemma_skipped(
    begun: CodegenSpec,
    copied: CodegenSpec,
    left: CodegenSpec,
    world: World,
    machine: Machine,
    from: int,
    here: usize,
)
    requires
        spec_follows(begun, copied),
        spec_stays_within(begun, copied),
        0 <= from <= begun.code().len(),
        left.code().len() < usize::MAX,
        here < begun.code().len(),
        begun.position != Some(here),
        spec_extends(copied, left),
        left.code().len() == copied.code().len() + 1,
        match spec_ran(begun, world, machine, from).control {
            Control::At(block) => block == here,
            _ => true,
        },
    ensures
        spec_ran(left, world, machine, from).control == spec_ran(begun, world, machine, from).control,
        spec_ran(left, world, machine, from).memory == spec_ran(begun, world, machine, from).memory,
        spec_ran(left, world, machine, from).calls == spec_ran(begun, world, machine, from).calls,
{
    let before = spec_ran(begun, world, machine, from);
    assert forall|k: int| 0 <= k < begun.code().len() implies #[trigger] left.code()[k]
        == begun.code()[k] by {
        assert(left.code()[k] == copied.code()[k]);
    }
    crate::ir_gen::semantics::lemma_run_split(
        left.code(),
        world,
        machine,
        from,
        begun.code().len() as int,
        left.code().len() as int,
    );
    crate::ir_gen::semantics::lemma_run_prefix(
        begun.code(),
        left.code(),
        world,
        machine,
        from,
        begun.code().len() as int,
    );
    assert forall|k: int| begun.code().len() <= k < left.code().len() implies (
    #[trigger] left.code()[k]).at != Some(here) by {
        if k < copied.code().len() {
            assert(left.code()[k] == copied.code()[k]);
            assert(spec_within(begun, copied.code()[k].at));
        } else {
            assert(left.code()[k].at == copied.position);
            assert(spec_within(begun, copied.position));
        }
    }
    lemma_passed_by(
        left.code(),
        world,
        before,
        begun.code().len() as int,
        left.code().len() as int,
    );
}

} // verus!
