//! What an update function does when it runs.

use crate::ast::{lemma_first_handle_named, ModuleDecl};
use crate::ir_gen::codegen::{
    spec_begin_function, spec_fire_listeners_from, spec_ir_listener_type, spec_listener_fn_name,
    spec_module_update_function, spec_promote, spec_update_handle, spec_update_handles_from,
};
use crate::ir_gen::codegen_state::{handle_bit, CodegenSpec, UpdatePtrPurpose};
use crate::ir_gen::ir::{first_function_named, BinaryOp, FunctionSpec, InstrSpec, Predicate};
use crate::ir_gen::primitives::spec_type_primitive_for_type;
use crate::ir_gen::run_laws::{
    lemma_bitfield_ptr, lemma_change_bitfield, lemma_emit, lemma_extends_chain, lemma_found_by_name,
    lemma_load_value, lemma_names_chain, lemma_passed_over, lemma_ran_on, lemma_read_ptr,
    lemma_store_value, lemma_store_zero, lemma_update_ptr, spec_bitfield_address, spec_combined,
    spec_current_address, spec_extends, spec_ran, spec_ready, spec_same_names, spec_slot_first,
    spec_slot_size, spec_slot_written, spec_slot_zeroed, spec_update_address, spec_went_on,
    spec_word_at,
};
use crate::ir_gen::semantics::{
    spec_run, state_address, Address, CallMade, Control, Machine, Memory, Region, Word, World,
};
use crate::ir_gen::types::spec_well_formed;
use vstd::prelude::*;

verus! {

/// The memory once the pending value of the handle at `idx` is promoted:
/// the handle's bit is cleared, the update slot holds the zero of the
/// handle's representation, and the current slot holds what the update slot
/// held.
pub open spec fn spec_promoted(module: ModuleDecl, memory: Memory, idx: int) -> Memory {
    let value_type = spec_type_primitive_for_type(module.handles@[idx].h_type);
    let bits = spec_bitfield_address(module);
    spec_slot_written(
        spec_slot_zeroed(
            memory.insert(
                bits,
                spec_combined(spec_word_at(memory, bits), BinaryOp::And, !handle_bit(idx)),
            ),
            value_type,
            spec_update_address(idx),
        ),
        value_type,
        spec_current_address(idx),
        spec_slot_first(memory, value_type, spec_update_address(idx)),
        spec_slot_size(memory, spec_update_address(idx)),
    )
}

/// What the code that promotes a pending value does.
#[verifier::rlimit(40)]
pub proof fn lemma_promote(
    state: CodegenSpec,
    module: ModuleDecl,
    state_ptr: usize,
    name: Seq<char>,
    world: World,
    start: Machine,
    from: int,
)
    requires
        spec_well_formed(module),
        module.spec_idx_for_field(name) is Some,
        state.in_function(),
        0 <= from <= state.code().len(),
    ensures
        ({
            let before = spec_ran(state, world, start, from);
            let idx = module.spec_idx_for_field(name).unwrap();
            let made = spec_promote(state, module, state_ptr, name);
            &&& 0 <= idx < module.handles@.len()
            &&& made is Ok
            &&& spec_extends(state, made->Ok_0.0)
            &&& made->Ok_0.0.code().len() <= state.code().len() + 21
            &&& spec_ready(state, before, state_ptr, state_address(), 21) ==> spec_went_on(
                before,
                spec_ran(made->Ok_0.0, world, start, from),
                state.code().len() as int,
                spec_promoted(module, before.memory, idx),
            )
        }),
{
    let before = spec_ran(state, world, start, from);
    let idx = module.spec_idx_for_field(name).unwrap();
    let value_type = spec_type_primitive_for_type(module.handles@[idx].h_type);
    lemma_first_handle_named(module.handles@, name, 0);
    assert(value_type.len() == 1);
    lemma_read_ptr(state, module, state_ptr, state_address(), name, world, start, from);
    let (s1, write_ptr) = state.read_ptr_for_field(module, state_ptr, name)->Ok_0;
    lemma_update_ptr(
        s1,
        module,
        state_ptr,
        state_address(),
        name,
        UpdatePtrPurpose::ReadAndClear,
        world,
        start,
        from,
    );
    let (s2, update_ptr) = s1.update_ptr_for_field(
        module,
        state_ptr,
        name,
        UpdatePtrPurpose::ReadAndClear,
    )->Ok_0;
    lemma_extends_chain(state, s1, s2);
    lemma_load_value(s2, update_ptr.target, "value"@, spec_update_address(idx), world, start, from);
    let (s3, value) = s2.load_value(update_ptr.target, "value"@)->Ok_0;
    lemma_extends_chain(state, s2, s3);
    lemma_change_bitfield(
        s3,
        update_ptr.bitfield_ptr,
        BinaryOp::And,
        !update_ptr.mask,
        spec_bitfield_address(module),
        world,
        start,
        from,
    );
    let cleared = s3.change_bitfield(update_ptr.bitfield_ptr, BinaryOp::And, !update_ptr.mask);
    lemma_extends_chain(state, s3, cleared);
    lemma_store_zero(cleared, update_ptr.target, spec_update_address(idx), world, start, from);
    let s4 = cleared.store_zero(update_ptr.target);
    lemma_extends_chain(state, cleared, s4);
    assert(s2.load_update(update_ptr, "value"@) == Ok::<_, crate::ir_gen::codegen_state::ErrorSpec>(
        (s4, value),
    ));
    lemma_store_value(s4, value, write_ptr, spec_current_address(idx), world, start, from);
    let s5 = s4.store_value(value, write_ptr)->Ok_0.0;
    lemma_extends_chain(state, s4, s5);
    if spec_ready(state, before, state_ptr, state_address(), 21) {
        let m1 = spec_ran(s1, world, start, from);
        assert(spec_ready(s1, m1, state_ptr, state_address(), 2));
        let m2 = spec_ran(s2, world, start, from);
        assert(spec_ready(s2, m2, update_ptr.target.ptr, spec_update_address(idx), 4));
        let m3 = spec_ran(s3, world, start, from);
        assert(m3.value(update_ptr.bitfield_ptr) == m2.value(update_ptr.bitfield_ptr));
        assert(spec_ready(s3, m3, update_ptr.bitfield_ptr, spec_bitfield_address(module), 4));
        let m_cleared = spec_ran(cleared, world, start, from);
        assert(m_cleared.value(update_ptr.target.ptr) == m3.value(update_ptr.target.ptr));
        assert(m3.value(update_ptr.target.ptr) == m2.value(update_ptr.target.ptr));
        assert(spec_ready(
            cleared,
            m_cleared,
            update_ptr.target.ptr,
            spec_update_address(idx),
            6,
        ));
        let m4 = spec_ran(s4, world, start, from);
        assert(m4.value(write_ptr.ptr) == m_cleared.value(write_ptr.ptr));
        assert(m_cleared.value(write_ptr.ptr) == m3.value(write_ptr.ptr));
        assert(m3.value(write_ptr.ptr) == m2.value(write_ptr.ptr));
        assert(spec_ready(s4, m4, write_ptr.ptr, spec_current_address(idx), 4));
        assert(m4.value(value.first_part()) == m_cleared.value(value.first_part()));
        assert(m_cleared.value(value.first_part()) == m3.value(value.first_part()));
        if value.size_part() is Some {
            assert(m4.value(value.size_part().unwrap()) == m_cleared.value(
                value.size_part().unwrap(),
            ));
            assert(m_cleared.value(value.size_part().unwrap()) == m3.value(
                value.size_part().unwrap(),
            ));
        }
        let m5 = spec_ran(s5, world, start, from);
        assert forall|x: usize| x < state.code().len() implies #[trigger] m5.value(x)
            == before.value(x) by {
            assert(m5.value(x) == m4.value(x));
            assert(m4.value(x) == m_cleared.value(x));
            assert(m_cleared.value(x) == m3.value(x));
            assert(m3.value(x) == m2.value(x));
        }
    }
}

/// What the listeners from position `from` on that the handle at `handle`
/// triggers do when they are called in declaration order, each with the
/// pointer to the state: the memory they leave, and the calls made.
pub open spec fn spec_fired_from(
    functions: Seq<FunctionSpec>,
    module: ModuleDecl,
    world: World,
    memory: Memory,
    calls: Seq<CallMade>,
    handle: int,
    from: int,
) -> (Memory, Seq<CallMade>)
    decreases module.listeners@.len() - from,
{
    if from < 0 || from >= module.listeners@.len() {
        (memory, calls)
    } else if module.listeners@[from].trigger@ == module.handles@[handle].name@ {
        match first_function_named(
            functions,
            spec_listener_fn_name(module, module.listeners@[from]),
            0,
        ) {
            None => (memory, calls),
            Some(callee) => {
                let arguments = seq![Word::Pointer(state_address())];
                spec_fired_from(
                    functions,
                    module,
                    world,
                    (world.effect)(callee as usize, arguments, memory),
                    calls.push(CallMade { callee: callee as usize, arguments }),
                    handle,
                    from + 1,
                )
            },
        }
    } else {
        spec_fired_from(functions, module, world, memory, calls, handle, from + 1)
    }
}

/// What the listeners do depends on the functions' names alone.
pub proof fn lemma_fired_same_names(
    a: Seq<FunctionSpec>,
    b: Seq<FunctionSpec>,
    module: ModuleDecl,
    world: World,
    memory: Memory,
    calls: Seq<CallMade>,
    handle: int,
    from: int,
)
    requires
        spec_same_names(a, b),
    ensures
        spec_fired_from(a, module, world, memory, calls, handle, from) == spec_fired_from(
            b,
            module,
            world,
            memory,
            calls,
            handle,
            from,
        ),
    decreases module.listeners@.len() - from,
{
    if 0 <= from < module.listeners@.len() {
        let name = spec_listener_fn_name(module, module.listeners@[from]);
        lemma_found_by_name(a, b, name, 0);
        if module.listeners@[from].trigger@ == module.handles@[handle].name@ {
            match first_function_named(a, name, 0) {
                None => {},
                Some(callee) => {
                    let arguments = seq![Word::Pointer(state_address())];
                    lemma_fired_same_names(
                        a,
                        b,
                        module,
                        world,
                        (world.effect)(callee as usize, arguments, memory),
                        calls.push(CallMade { callee: callee as usize, arguments }),
                        handle,
                        from + 1,
                    );
                },
            }
        } else {
            lemma_fired_same_names(a, b, module, world, memory, calls, handle, from + 1);
        }
    }
}

/// How many listeners there are from position `from` on.
pub open spec fn spec_listeners_left(module: ModuleDecl, from: int) -> int {
    if from < module.listeners@.len() {
        module.listeners@.len() - from
    } else {
        0
    }
}

/// What the code that calls a handle's listeners does.
#[verifier::rlimit(40)]
pub proof fn lemma_fire(
    state: CodegenSpec,
    module: ModuleDecl,
    state_ptr: usize,
    handle: int,
    listener: int,
    world: World,
    start: Machine,
    from: int,
)
    requires
        state.in_function(),
        0 <= from <= state.code().len(),
        0 <= handle < module.handles@.len(),
        0 <= listener,
        spec_fire_listeners_from(state, module, state_ptr, handle, listener) is Ok,
    ensures
        ({
            let before = spec_ran(state, world, start, from);
            let after = spec_fire_listeners_from(state, module, state_ptr, handle, listener)->Ok_0.0;
            let ran = spec_ran(after, world, start, from);
            let fired = spec_fired_from(
                state.functions,
                module,
                world,
                before.memory,
                before.calls,
                handle,
                listener,
            );
            &&& spec_extends(state, after)
            &&& after.code().len() <= state.code().len() + spec_listeners_left(module, listener)
            &&& spec_ready(
                state,
                before,
                state_ptr,
                state_address(),
                spec_listeners_left(module, listener),
            ) ==> {
                &&& ran.control == before.control
                &&& ran.came_from == before.came_from
                &&& ran.memory == fired.0
                &&& ran.calls == fired.1
                &&& forall|x: usize| x < state.code().len() ==> #[trigger] ran.value(x) == before.value(x)
            }
        }),
    decreases module.listeners@.len() - listener,
{
    let before = spec_ran(state, world, start, from);
    if listener < module.listeners@.len() {
        if module.listeners@[listener].trigger@ == module.handles@[handle].name@ {
            let name = spec_listener_fn_name(module, module.listeners@[listener]);
            let callee = state.get_function(name).unwrap();
            let arguments = seq![Word::Pointer(state_address())];
            let instr = InstrSpec::Call {
                callee: callee as usize,
                args: seq![state_ptr],
                name: "_"@,
            };
            lemma_emit(state, instr, world, start, from);
            let called = state.emit(instr);
            lemma_fire(called, module, state_ptr, handle, listener + 1, world, start, from);
            let after = spec_fire_listeners_from(called, module, state_ptr, handle, listener + 1)->Ok_0.0;
            lemma_extends_chain(state, called, after);
            let m1 = spec_ran(called, world, start, from);
            lemma_fired_same_names(
                state.functions,
                called.functions,
                module,
                world,
                m1.memory,
                m1.calls,
                handle,
                listener + 1,
            );
            if spec_ready(
                state,
                before,
                state_ptr,
                state_address(),
                spec_listeners_left(module, listener),
            ) {
                assert(before.values_of(seq![state_ptr]) =~= arguments);
                assert(spec_ready(
                    called,
                    m1,
                    state_ptr,
                    state_address(),
                    spec_listeners_left(module, listener + 1),
                ));
                let ran = spec_ran(after, world, start, from);
                assert forall|x: usize| x < state.code().len() implies #[trigger] ran.value(x)
                    == before.value(x) by {
                    assert(ran.value(x) == m1.value(x));
                }
            }
        } else {
            lemma_fire(state, module, state_ptr, handle, listener + 1, world, start, from);
        }
    }
}

/// Whether `after` has all the code of `before`, is in the same function
/// with the same functions and locals around it, and has the builder
/// standing somewhere.
pub open spec fn spec_follows(before: CodegenSpec, after: CodegenSpec) -> bool {
    &&& before.in_function()
    &&& after.positioned()
    &&& after.current == before.current
    &&& after.locals == before.locals
    &&& spec_same_names(before.functions, after.functions)
    &&& after.code().len() >= before.code().len()
    &&& forall|k: int|
        0 <= k < before.code().len() ==> #[trigger] after.code()[k] == before.code()[k]
}

/// The handle whose slots the code for the handle at `idx` works on: the
/// first of that name.
pub open spec fn spec_resolved(module: ModuleDecl, idx: int) -> int {
    module.spec_idx_for_field(module.handles@[idx].name@).unwrap()
}

/// What the part of an update function for the handle at `idx` does to
/// memory, and the calls it makes: where the handle's bit is set in `bits`,
/// the pending value is promoted and the handle's listeners are called;
/// else nothing happens.
pub open spec fn spec_handled(
    functions: Seq<FunctionSpec>,
    module: ModuleDecl,
    world: World,
    bits: u64,
    memory: Memory,
    calls: Seq<CallMade>,
    idx: int,
) -> (Memory, Seq<CallMade>) {
    if bits & handle_bit(idx) != 0 {
        spec_fired_from(
            functions,
            module,
            world,
            spec_promoted(module, memory, spec_resolved(module, idx)),
            calls,
            idx,
            0,
        )
    } else {
        (memory, calls)
    }
}

/// The most entries that the part of an update function for one handle
/// has.
pub open spec fn spec_part_size(module: ModuleDecl) -> int {
    29 + (module.listeners@.len() as int)
}

/// What the part of an update function for one handle does.
#[verifier::rlimit(40)]
pub proof fn lemma_update_handle(
    state: CodegenSpec,
    module: ModuleDecl,
    state_ptr: usize,
    bitfield: usize,
    idx: int,
    bits: u64,
    world: World,
    start: Machine,
    from: int,
)
    requires
        spec_well_formed(module),
        state.positioned(),
        0 <= from <= state.code().len(),
        0 <= idx < module.handles@.len(),
        spec_update_handle(state, module, state_ptr, bitfield, idx) is Ok,
    ensures
        ({
            let before = spec_ran(state, world, start, from);
            let after = spec_update_handle(state, module, state_ptr, bitfield, idx)->Ok_0.0;
            let ran = spec_ran(after, world, start, from);
            let handled = spec_handled(
                state.functions,
                module,
                world,
                bits,
                before.memory,
                before.calls,
                idx,
            );
            &&& spec_follows(state, after)
            &&& after.code().len() <= state.code().len() + spec_part_size(module)
            &&& (spec_ready(state, before, state_ptr, state_address(), spec_part_size(module))
                && bitfield < state.code().len() && before.value(bitfield) == Word::Int(bits)) ==> {
                &&& ran.control == Control::At(after.position.unwrap())
                &&& ran.memory == handled.0
                &&& ran.calls == handled.1
                &&& forall|x: usize| x < state.code().len() ==> #[trigger] ran.value(x) == before.value(x)
            }
        }),
{
    let before = spec_ran(state, world, start, from);
    let name = module.handles@[idx].name@;
    lemma_first_handle_named(module.handles@, name, 0);
    let i0 = InstrSpec::ConstInt { bits: 64, constant: handle_bit(idx) };
    lemma_emit(state, i0, world, start, from);
    let s1 = state.emit(i0);
    let i1 = InstrSpec::Binary {
        op: BinaryOp::And,
        lhs: bitfield,
        rhs: state.next_id(),
        name: "bitfield_test"@,
    };
    lemma_emit(s1, i1, world, start, from);
    let s2 = s1.emit(i1);
    let i2 = InstrSpec::ConstInt { bits: 64, constant: 0 };
    lemma_emit(s2, i2, world, start, from);
    let s3 = s2.emit(i2);
    let i3 = InstrSpec::Compare {
        predicate: Predicate::NotEqual,
        lhs: s1.next_id(),
        rhs: s2.next_id(),
        name: "has_listener"@,
    };
    lemma_emit(s3, i3, world, start, from);
    let s4 = s3.emit(i3);
    let i4 = InstrSpec::Block { name: "activate_for_"@ + name };
    lemma_emit(s4, i4, world, start, from);
    let s5 = s4.emit(i4);
    let i5 = InstrSpec::Block { name: "after_"@ + name };
    lemma_emit(s5, i5, world, start, from);
    let s6 = s5.emit(i5);
    let activate = s4.next_id();
    let after_block = s5.next_id();
    let i6 = InstrSpec::CondBr { condition: s3.next_id(), if_true: activate, if_false: after_block };
    lemma_emit(s6, i6, world, start, from);
    let s7 = s6.emit(i6);
    lemma_extends_chain(state, s1, s2);
    lemma_extends_chain(state, s2, s3);
    lemma_extends_chain(state, s3, s4);
    lemma_extends_chain(state, s4, s5);
    lemma_extends_chain(state, s5, s6);
    lemma_extends_chain(state, s6, s7);
    let in_activate = s7.position_at_end(activate);
    assert(in_activate.code() == s7.code());
    assert(in_activate.functions == s7.functions);
    let m7 = spec_ran(s7, world, start, from);
    assert(spec_ran(in_activate, world, start, from) == m7);

    lemma_promote(in_activate, module, state_ptr, name, world, start, from);
    let stored = spec_promote(in_activate, module, state_ptr, name)->Ok_0.0;
    lemma_fire(stored, module, state_ptr, idx, 0, world, start, from);
    let fired = spec_fire_listeners_from(stored, module, state_ptr, idx, 0)->Ok_0.0;
    lemma_extends_chain(in_activate, stored, fired);
    let i7 = InstrSpec::Br { target: after_block };
    lemma_emit(fired, i7, world, start, from);
    let branched = fired.emit(i7);
    lemma_extends_chain(in_activate, fired, branched);
    let after = branched.position_at_end(after_block);
    assert(after.code() == branched.code());
    assert(after.functions == branched.functions);
    assert(spec_update_handle(state, module, state_ptr, bitfield, idx)->Ok_0.0 == after);
    lemma_names_chain(state.functions, s7.functions, branched.functions);
    assert forall|k: int| 0 <= k < state.code().len() implies #[trigger] after.code()[k]
        == state.code()[k] by {
        assert(branched.code()[k] == in_activate.code()[k]);
        assert(s7.code()[k] == state.code()[k]);
    }

    if spec_ready(state, before, state_ptr, state_address(), spec_part_size(module))
        && bitfield < state.code().len() && before.value(bitfield) == Word::Int(bits) {
        let ran = spec_ran(after, world, start, from);
        assert(spec_ran(branched, world, start, from) == ran);
        let here = state.position.unwrap();
        assert(m7.memory == before.memory);
        assert(m7.calls == before.calls);
        assert(m7.value(state_ptr) == before.value(state_ptr));
        assert forall|x: usize| x < state.code().len() implies #[trigger] m7.value(x)
            == before.value(x) by {}
        if bits & handle_bit(idx) != 0 {
            assert(m7.control == Control::At(activate));
            assert(spec_ready(in_activate, m7, state_ptr, state_address(), 21));
            let m_stored = spec_ran(stored, world, start, from);
            assert(m_stored.value(state_ptr) == m7.value(state_ptr));
            assert(spec_ready(
                stored,
                m_stored,
                state_ptr,
                state_address(),
                module.listeners@.len() as int,
            ));
            lemma_names_chain(state.functions, in_activate.functions, stored.functions);
            lemma_fired_same_names(
                state.functions,
                stored.functions,
                module,
                world,
                m_stored.memory,
                m_stored.calls,
                idx,
                0,
            );
            let m_fired = spec_ran(fired, world, start, from);
            assert forall|x: usize| x < state.code().len() implies #[trigger] ran.value(x)
                == before.value(x) by {
                assert(m_fired.value(x) == m_stored.value(x));
                assert(m_stored.value(x) == m7.value(x));
            }
        } else {
            assert(m7.control == Control::At(after_block));
            lemma_ran_on(in_activate, branched, world, start, from);
            lemma_passed_over(
                branched.code(),
                world,
                m7,
                in_activate.code().len() as int,
                branched.code().len() as int,
                Some(activate),
            );
        }
    }
}

/// What the parts of an update function for the handles from position
/// `from` on do to memory, one after the other, and the calls they make.
pub open spec fn spec_updated_from(
    functions: Seq<FunctionSpec>,
    module: ModuleDecl,
    world: World,
    bits: u64,
    memory: Memory,
    calls: Seq<CallMade>,
    from: int,
) -> (Memory, Seq<CallMade>)
    decreases module.handles@.len() - from,
{
    if from < 0 || from >= module.handles@.len() {
        (memory, calls)
    } else {
        let handled = spec_handled(functions, module, world, bits, memory, calls, from);
        spec_updated_from(functions, module, world, bits, handled.0, handled.1, from + 1)
    }
}

/// What an update function does depends on the functions' names alone.
pub proof fn lemma_updated_same_names(
    a: Seq<FunctionSpec>,
    b: Seq<FunctionSpec>,
    module: ModuleDecl,
    world: World,
    bits: u64,
    memory: Memory,
    calls: Seq<CallMade>,
    from: int,
)
    requires
        spec_same_names(a, b),
    ensures
        spec_updated_from(a, module, world, bits, memory, calls, from) == spec_updated_from(
            b,
            module,
            world,
            bits,
            memory,
            calls,
            from,
        ),
    decreases module.handles@.len() - from,
{
    if 0 <= from < module.handles@.len() {
        lemma_fired_same_names(
            a,
            b,
            module,
            world,
            spec_promoted(module, memory, spec_resolved(module, from)),
            calls,
            from,
            0,
        );
        let handled = spec_handled(a, module, world, bits, memory, calls, from);
        lemma_updated_same_names(a, b, module, world, bits, handled.0, handled.1, from + 1);
    }
}

/// The most entries that the parts of an update function for the handles
/// from position `from` on have.
pub open spec fn spec_parts_size(module: ModuleDecl, from: int) -> int
    decreases module.handles@.len() - from,
{
    if from < 0 || from >= module.handles@.len() {
        0
    } else {
        spec_part_size(module) + spec_parts_size(module, from + 1)
    }
}

/// What the parts of an update function do.
pub proof fn lemma_update_handles(
    state: CodegenSpec,
    module: ModuleDecl,
    state_ptr: usize,
    bitfield: usize,
    idx: int,
    bits: u64,
    world: World,
    start: Machine,
    from: int,
)
    requires
        spec_well_formed(module),
        state.positioned(),
        0 <= from <= state.code().len(),
        0 <= idx,
        spec_update_handles_from(state, module, state_ptr, bitfield, idx) is Ok,
    ensures
        ({
            let before = spec_ran(state, world, start, from);
            let after = spec_update_handles_from(state, module, state_ptr, bitfield, idx)->Ok_0.0;
            let ran = spec_ran(after, world, start, from);
            let updated = spec_updated_from(
                state.functions,
                module,
                world,
                bits,
                before.memory,
                before.calls,
                idx,
            );
            &&& spec_follows(state, after)
            &&& after.code().len() <= state.code().len() + spec_parts_size(module, idx)
            &&& spec_parts_size(module, idx) >= 0
            &&& (spec_ready(state, before, state_ptr, state_address(), spec_parts_size(module, idx))
                && bitfield < state.code().len() && before.value(bitfield) == Word::Int(bits)) ==> {
                &&& ran.control == Control::At(after.position.unwrap())
                &&& ran.memory == updated.0
                &&& ran.calls == updated.1
                &&& forall|x: usize| x < state.code().len() ==> #[trigger] ran.value(x) == before.value(x)
            }
        }),
    decreases module.handles@.len() - idx,
{
    let before = spec_ran(state, world, start, from);
    if idx < module.handles@.len() {
        lemma_update_handle(state, module, state_ptr, bitfield, idx, bits, world, start, from);
        let handled = spec_update_handle(state, module, state_ptr, bitfield, idx)->Ok_0.0;
        lemma_update_handles(handled, module, state_ptr, bitfield, idx + 1, bits, world, start, from);
        let after = spec_update_handles_from(handled, module, state_ptr, bitfield, idx + 1)->Ok_0.0;
        lemma_names_chain(state.functions, handled.functions, after.functions);
        assert forall|k: int| 0 <= k < state.code().len() implies #[trigger] after.code()[k]
            == state.code()[k] by {
            assert(after.code()[k] == handled.code()[k]);
        }
        let mid = spec_ran(handled, world, start, from);
        lemma_updated_same_names(
            state.functions,
            handled.functions,
            module,
            world,
            bits,
            mid.memory,
            mid.calls,
            idx + 1,
        );
        if spec_ready(state, before, state_ptr, state_address(), spec_parts_size(module, idx))
            && bitfield < state.code().len() && before.value(bitfield) == Word::Int(bits) {
            assert(mid.value(state_ptr) == before.value(state_ptr));
            assert(mid.value(bitfield) == before.value(bitfield));
            assert(spec_ready(
                handled,
                mid,
                state_ptr,
                state_address(),
                spec_parts_size(module, idx + 1),
            ));
            let ran = spec_ran(after, world, start, from);
            assert forall|x: usize| x < state.code().len() implies #[trigger] ran.value(x)
                == before.value(x) by {
                assert(ran.value(x) == mid.value(x));
            }
        }
    }
}

/// The stack slot in which an update function keeps the pointer to the
/// state.
pub open spec fn spec_state_slot() -> Address {
    Address { region: Region::Stack(1), path: Seq::empty() }
}

/// The most entries that the update function of a module has.
pub open spec fn spec_update_size(module: ModuleDecl) -> int {
    8 + spec_parts_size(module, 0)
}

/// What an update function does when it runs from its start with the
/// pointer to the state as its argument, while the bitfield holds `bits`:
/// it returns, and memory and the calls made are as `spec_updated_from`
/// says, with the pointer to the state in its stack slot.
#[verifier::rlimit(40)]
pub proof fn lemma_update_function(
    state: CodegenSpec,
    module: ModuleDecl,
    bits: u64,
    world: World,
    memory: Memory,
)
    requires
        spec_well_formed(module),
        spec_module_update_function(state, module) is Ok,
        state.functions.len() < usize::MAX,
        spec_update_size(module) <= usize::MAX,
        world.arguments.len() > 0,
        world.arguments[0] == Word::Pointer(state_address()),
        spec_word_at(memory, spec_bitfield_address(module)) == Word::Int(bits),
    ensures
        ({
            let after = spec_module_update_function(state, module)->Ok_0.0;
            let ran = spec_run(
                after.code(),
                world,
                Machine::start(0, memory),
                0,
                after.code().len() as int,
            );
            let updated = spec_updated_from(
                after.functions,
                module,
                world,
                bits,
                memory.insert(spec_state_slot(), Word::Pointer(state_address())),
                Seq::empty(),
                0,
            );
            &&& after.in_function()
            &&& ran.control == Control::Returned
            &&& ran.memory == updated.0
            &&& ran.calls == updated.1
        }),
{
    let start = Machine::start(0, memory);
    let declared = state.add_function(
        module.spec_fn_name(),
        spec_ir_listener_type(module),
        None,
        false,
    ).enter_function(state.functions.len() as usize).clear_locals();
    assert(declared.in_function());
    assert(declared.code() =~= Seq::empty());
    let b0 = InstrSpec::Block { name: "entry"@ };
    lemma_emit(declared, b0, world, start, 0);
    let entry = declared.emit(b0).position_at_end(declared.next_id());
    assert(entry == spec_begin_function(state, module, module.spec_fn_name()));
    assert(entry.code() == declared.emit(b0).code());
    assert(entry.functions == declared.emit(b0).functions);
    let m0 = spec_ran(entry, world, start, 0);
    assert(m0 == start);
    let i1 = InstrSpec::Alloca {
        ty: crate::ir_gen::types::spec_state_type(module).pointer_to(),
        name: "state_alloca"@,
    };
    lemma_emit(entry, i1, world, start, 0);
    let s1 = entry.emit(i1);
    let i2 = InstrSpec::Param { index: 0 };
    lemma_emit(s1, i2, world, start, 0);
    let s2 = s1.emit(i2);
    let i3 = InstrSpec::Store { ptr: entry.next_id(), value: s1.next_id() };
    lemma_emit(s2, i3, world, start, 0);
    let s3 = s2.emit(i3);
    assert(entry.state_alloca_for_module_function(module) == (s3, entry.next_id()));
    let i4 = InstrSpec::Load { ptr: entry.next_id(), name: "state_ptr"@ };
    lemma_emit(s3, i4, world, start, 0);
    let s4 = s3.emit(i4);
    let state_ptr = s3.next_id();
    lemma_extends_chain(entry, s1, s2);
    lemma_extends_chain(entry, s2, s3);
    lemma_extends_chain(entry, s3, s4);
    let m4 = spec_ran(s4, world, start, 0);
    let stacked = memory.insert(spec_state_slot(), Word::Pointer(state_address()));
    assert(m4.memory == stacked);
    assert(m4.value(state_ptr) == Word::Pointer(state_address()));
    lemma_bitfield_ptr(s4, module, state_ptr, state_address(), world, start, 0);
    let (s5, bitfield_ptr) = s4.module_bitfield_ptr(module, state_ptr);
    lemma_extends_chain(entry, s4, s5);
    assert(spec_parts_size(module, 0) >= 0) by {
        lemma_parts_size(module, 0);
    }
    assert(spec_ready(s4, m4, state_ptr, state_address(), 1));
    let i6 = InstrSpec::Load { ptr: bitfield_ptr, name: "bitfield"@ };
    lemma_emit(s5, i6, world, start, 0);
    let s6 = s5.emit(i6);
    let bitfield = s5.next_id();
    lemma_extends_chain(entry, s5, s6);
    let m6 = spec_ran(s6, world, start, 0);
    assert(m6.value(bitfield) == Word::Int(bits));
    assert(m6.memory == stacked);
    assert(m6.calls =~= Seq::empty());
    lemma_update_handles(s6, module, state_ptr, bitfield, 0, bits, world, start, 0);
    let s7 = spec_update_handles_from(s6, module, state_ptr, bitfield, 0)->Ok_0.0;
    assert(spec_ready(s6, m6, state_ptr, state_address(), spec_parts_size(module, 0)));
    let i8 = InstrSpec::Ret;
    lemma_emit(s7, i8, world, start, 0);
    let after = s7.emit(i8);
    assert(spec_module_update_function(state, module)->Ok_0.0 == after);
    lemma_names_chain(s6.functions, s7.functions, after.functions);
    lemma_updated_same_names(s6.functions, after.functions, module, world, bits, stacked, Seq::empty(), 0);
}

/// The size of the parts is no negative number.
pub proof fn lemma_parts_size(module: ModuleDecl, from: int)
    ensures
        spec_parts_size(module, from) >= 0,
    decreases module.handles@.len() - from,
{
    if 0 <= from < module.handles@.len() {
        lemma_parts_size(module, from + 1);
    }
}

} // verus!
