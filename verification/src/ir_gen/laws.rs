//! What holds of the code that the generator emits, whatever the module.

use crate::ast::{lemma_first_handle_named, ModuleDecl, ModuleInfo};
use crate::ir_gen::codegen::expression_codegen::spec_fixpoint_loop;
use crate::ir_gen::codegen::{spec_listener_fn_name, spec_module_update_function, spec_planned};
use crate::ir_gen::codegen_state::{handle_bit, CodegenError, CodegenSpec, CodegenState};
use crate::ir_gen::loop_laws::{
    law_fixpoint_round, spec_after_round, spec_drain_source, spec_drain_target, spec_drained,
    spec_round_runs,
};
use crate::ir_gen::ir::{first_function_named, FunctionSpec, IrTypeSpec};
use crate::ir_gen::primitives::{spec_type_primitive_for_type, PrimitiveSpec};
use crate::ir_gen::run_laws::{
    spec_bitfield_address, spec_bitfield_of, spec_current_address, spec_is_span,
    spec_slot_first, spec_slot_size, spec_update_address, spec_update_of, spec_word_at,
};
use crate::ir_gen::semantics::{
    spec_run, state_address, Address, CallMade, Control, Machine, Memory, Word, World,
};
use crate::ir_gen::types::{
    bitfield_slot, current_slot, spec_handle_type, spec_state_fields, spec_state_type,
    spec_well_formed, submodule_slot, update_slot,
};
use crate::ir_gen::update_laws::{
    lemma_update_function, spec_fired_from, spec_handled, spec_promoted, spec_resolved,
    spec_state_slot, spec_update_size, spec_updated_from,
};
use vstd::prelude::*;

verus! {

/// The layout of a module's state: a struct with natural alignment that
/// has, for a module of H handles and S submodules, 2H + 1 + S fields: for
/// each handle in declaration order its current slot and then its update
/// slot, both of the handle's type; then the 64-bit bitfield; then the state
/// of each submodule in declaration order.
pub proof fn law_state_layout(module: ModuleDecl)
    ensures
        spec_state_type(module) == IrTypeSpec::Struct(spec_state_fields(module), false),
        spec_state_fields(module).len() == 2 * module.handles@.len() + 1
            + module.submodules@.len(),
        forall|i: int|
            0 <= i < module.handles@.len() ==> {
                &&& spec_state_fields(module)[current_slot(i)] == spec_handle_type(
                    #[trigger] module.handles@[i],
                )
                &&& spec_state_fields(module)[update_slot(i)] == spec_handle_type(module.handles@[i])
            },
        spec_state_fields(module)[bitfield_slot(module)] == IrTypeSpec::word(),
        forall|j: int|
            0 <= j < module.submodules@.len() ==> spec_state_fields(module)[submodule_slot(
                module,
                j,
            )] == spec_state_type((#[trigger] module.submodules@[j]).module),
{
    assert forall|i: int| 0 <= i < module.handles@.len() implies {
        &&& spec_state_fields(module)[current_slot(i)] == spec_handle_type(
            #[trigger] module.handles@[i],
        )
        &&& spec_state_fields(module)[update_slot(i)] == spec_handle_type(module.handles@[i])
    } by {
        assert((2 * i) / 2 == i);
        assert((2 * i + 1) / 2 == i);
    }
}

/// The machine once the update function that `state` emits for `module`
/// has run from its start on `memory`.
pub open spec fn spec_after_update(
    state: CodegenSpec,
    module: ModuleDecl,
    world: World,
    memory: Memory,
) -> Machine {
    let emitted = spec_module_update_function(state, module)->Ok_0.0;
    spec_run(emitted.code(), world, Machine::start(0, memory), 0, emitted.code().len() as int)
}

/// What has to hold for the laws to speak of a run of the update function
/// of `module`: the function was emitted; it is called with the pointer to
/// the state; the bitfield holds the integer `bits`; and the module is small
/// enough for its code to be numbered.
pub open spec fn spec_update_runs(
    state: CodegenSpec,
    module: ModuleDecl,
    bits: u64,
    world: World,
    memory: Memory,
) -> bool {
    &&& spec_well_formed(module)
    &&& spec_module_update_function(state, module) is Ok
    &&& state.functions.len() < usize::MAX
    &&& spec_update_size(module) <= usize::MAX
    &&& world.arguments.len() > 0
    &&& world.arguments[0] == Word::Pointer(state_address())
    &&& spec_word_at(memory, spec_bitfield_address(module)) == Word::Int(bits)
}

proof fn lemma_idle(
    functions: Seq<FunctionSpec>,
    module: ModuleDecl,
    world: World,
    memory: Memory,
    calls: Seq<CallMade>,
    from: int,
)
    ensures
        spec_updated_from(functions, module, world, 0, memory, calls, from) == (memory, calls),
    decreases module.handles@.len() - from,
{
    if 0 <= from < module.handles@.len() {
        let bit = handle_bit(from);
        assert(0u64 & bit == 0) by (bit_vector);
        lemma_idle(functions, module, world, memory, calls, from + 1);
    }
}

/// An update function that finds no bit set in the bitfield returns
/// without a call and without a write to the state: the only thing it
/// writes is the pointer to the state, to its own stack slot. So however
/// often it is called on such a state, nothing happens.
pub proof fn law_idle_update_does_nothing(
    state: CodegenSpec,
    module: ModuleDecl,
    world: World,
    memory: Memory,
)
    requires
        spec_update_runs(state, module, 0, world, memory),
    ensures
        spec_after_update(state, module, world, memory).control == Control::Returned,
        spec_after_update(state, module, world, memory).calls == Seq::<CallMade>::empty(),
        spec_after_update(state, module, world, memory).memory == memory.insert(
            spec_state_slot(),
            Word::Pointer(state_address()),
        ),
{
    lemma_update_function(state, module, 0, world, memory);
    let emitted = spec_module_update_function(state, module)->Ok_0.0;
    lemma_idle(
        emitted.functions,
        module,
        world,
        memory.insert(spec_state_slot(), Word::Pointer(state_address())),
        Seq::empty(),
        0,
    );
}

/// The calls of the listeners from position `from` on that the handle at
/// `handle` triggers, in declaration order; each gets the pointer to the
/// state.
pub open spec fn spec_triggered_from(
    functions: Seq<FunctionSpec>,
    module: ModuleDecl,
    handle: int,
    from: int,
) -> Seq<CallMade>
    decreases module.listeners@.len() - from,
{
    if from < 0 || from >= module.listeners@.len() {
        Seq::empty()
    } else if module.listeners@[from].trigger@ == module.handles@[handle].name@ {
        match first_function_named(
            functions,
            spec_listener_fn_name(module, module.listeners@[from]),
            0,
        ) {
            None => Seq::empty(),
            Some(callee) => seq![
                CallMade {
                    callee: callee as usize,
                    arguments: seq![Word::Pointer(state_address())],
                },
            ] + spec_triggered_from(functions, module, handle, from + 1),
        }
    } else {
        spec_triggered_from(functions, module, handle, from + 1)
    }
}

/// The calls that an update function makes for the handles from position
/// `from` on: for each handle whose bit is set in `bits`, in declaration
/// order, those of its listeners, in declaration order.
pub open spec fn spec_dispatched_from(
    functions: Seq<FunctionSpec>,
    module: ModuleDecl,
    bits: u64,
    from: int,
) -> Seq<CallMade>
    decreases module.handles@.len() - from,
{
    if from < 0 || from >= module.handles@.len() {
        Seq::empty()
    } else if bits & handle_bit(from) != 0 {
        spec_triggered_from(functions, module, from, 0) + spec_dispatched_from(
            functions,
            module,
            bits,
            from + 1,
        )
    } else {
        spec_dispatched_from(functions, module, bits, from + 1)
    }
}

proof fn lemma_fired_calls(
    functions: Seq<FunctionSpec>,
    module: ModuleDecl,
    world: World,
    memory: Memory,
    calls: Seq<CallMade>,
    handle: int,
    from: int,
)
    ensures
        spec_fired_from(functions, module, world, memory, calls, handle, from).1 == calls
            + spec_triggered_from(functions, module, handle, from),
    decreases module.listeners@.len() - from,
{
    if 0 <= from < module.listeners@.len() {
        if module.listeners@[from].trigger@ == module.handles@[handle].name@ {
            match first_function_named(
                functions,
                spec_listener_fn_name(module, module.listeners@[from]),
                0,
            ) {
                None => {
                    assert(calls + Seq::<CallMade>::empty() =~= calls);
                },
                Some(callee) => {
                    let arguments = seq![Word::Pointer(state_address())];
                    let call = CallMade { callee: callee as usize, arguments };
                    lemma_fired_calls(
                        functions,
                        module,
                        world,
                        (world.effect)(callee as usize, arguments, memory),
                        calls.push(call),
                        handle,
                        from + 1,
                    );
                    assert(calls.push(call) + spec_triggered_from(functions, module, handle, from + 1)
                        =~= calls + (seq![call] + spec_triggered_from(
                        functions,
                        module,
                        handle,
                        from + 1,
                    )));
                },
            }
        } else {
            lemma_fired_calls(functions, module, world, memory, calls, handle, from + 1);
        }
    } else {
        assert(calls + Seq::<CallMade>::empty() =~= calls);
    }
}

proof fn lemma_updated_calls(
    functions: Seq<FunctionSpec>,
    module: ModuleDecl,
    world: World,
    bits: u64,
    memory: Memory,
    calls: Seq<CallMade>,
    from: int,
)
    ensures
        spec_updated_from(functions, module, world, bits, memory, calls, from).1 == calls
            + spec_dispatched_from(functions, module, bits, from),
    decreases module.handles@.len() - from,
{
    if 0 <= from < module.handles@.len() {
        let handled = spec_handled(functions, module, world, bits, memory, calls, from);
        lemma_updated_calls(functions, module, world, bits, handled.0, handled.1, from + 1);
        if bits & handle_bit(from) != 0 {
            lemma_fired_calls(
                functions,
                module,
                world,
                crate::ir_gen::update_laws::spec_promoted(
                    module,
                    memory,
                    crate::ir_gen::update_laws::spec_resolved(module, from),
                ),
                calls,
                from,
                0,
            );
            assert((calls + spec_triggered_from(functions, module, from, 0)) + spec_dispatched_from(
                functions,
                module,
                bits,
                from + 1,
            ) =~= calls + (spec_triggered_from(functions, module, from, 0) + spec_dispatched_from(
                functions,
                module,
                bits,
                from + 1,
            )));
        }
    } else {
        assert(calls + Seq::<CallMade>::empty() =~= calls);
    }
}

/// An update function scans the handles in declaration order and calls,
/// for each handle whose bit was set on entry, the handle's listeners in
/// declaration order, and makes no other call.
pub proof fn law_listeners_fire_in_declaration_order(
    state: CodegenSpec,
    module: ModuleDecl,
    bits: u64,
    world: World,
    memory: Memory,
)
    requires
        spec_update_runs(state, module, bits, world, memory),
    ensures
        spec_after_update(state, module, world, memory).control == Control::Returned,
        spec_after_update(state, module, world, memory).calls == spec_dispatched_from(
            spec_module_update_function(state, module)->Ok_0.0.functions,
            module,
            bits,
            0,
        ),
{
    lemma_update_function(state, module, bits, world, memory);
    let emitted = spec_module_update_function(state, module)->Ok_0.0;
    lemma_updated_calls(
        emitted.functions,
        module,
        world,
        bits,
        memory.insert(spec_state_slot(), Word::Pointer(state_address())),
        Seq::empty(),
        0,
    );
    assert(Seq::<CallMade>::empty() + spec_dispatched_from(emitted.functions, module, bits, 0)
        =~= spec_dispatched_from(emitted.functions, module, bits, 0));
}

/// Whether no two handles of the module have the same name.
pub open spec fn spec_distinct_names(module: ModuleDecl) -> bool {
    forall|i: int, j: int|
        0 <= i < j < module.handles@.len() ==> (#[trigger] module.handles@[i]).name@ != (
        #[trigger] module.handles@[j]).name@
}

/// The representation of the handle at `idx`.
pub open spec fn spec_handle_primitive(module: ModuleDecl, idx: int) -> Seq<PrimitiveSpec> {
    spec_type_primitive_for_type(module.handles@[idx].h_type)
}

/// Whether the slot at `here` in `memory` holds what the slot at `there`
/// in `other` holds.
pub open spec fn spec_same_slot(
    value_type: Seq<PrimitiveSpec>,
    memory: Memory,
    here: Address,
    other: Memory,
    there: Address,
) -> bool {
    &&& spec_slot_first(memory, value_type, here) == spec_slot_first(other, value_type, there)
    &&& spec_is_span(value_type) ==> spec_slot_size(memory, here) == spec_slot_size(other, there)
}

/// Whether the step from `before` to `after` left the handle at `idx`
/// alone: its two slots hold what they held, and the bitfield, where it held
/// an integer, holds one in which the handle's bit is as it was.
pub open spec fn spec_left_alone(module: ModuleDecl, idx: int, before: Memory, after: Memory)
    -> bool {
    let value_type = spec_handle_primitive(module, idx);
    &&& spec_same_slot(
        value_type,
        after,
        spec_current_address(idx),
        before,
        spec_current_address(idx),
    )
    &&& spec_same_slot(
        value_type,
        after,
        spec_update_address(idx),
        before,
        spec_update_address(idx),
    )
    &&& match spec_word_at(before, spec_bitfield_address(module)) {
        Word::Int(bits) => match spec_word_at(after, spec_bitfield_address(module)) {
            Word::Int(later) => later & handle_bit(idx) == bits & handle_bit(idx),
            _ => false,
        },
        _ => true,
    }
}

/// Whether the listener at `listener` fires in an update that finds `bits`
/// in the bitfield: whether the bit of a handle of its trigger's name is
/// set.
pub open spec fn spec_fires(module: ModuleDecl, bits: u64, listener: int) -> bool {
    exists|handle: int|
        0 <= handle < module.handles@.len() && (#[trigger] module.handles@[handle]).name@
            == module.listeners@[listener].trigger@ && bits & handle_bit(handle) != 0
}

/// Whether every listener that fires in an update that finds `bits` leaves
/// the handle at `idx` alone, whatever memory it runs on.
pub open spec fn spec_no_fired_listener_touches(
    functions: Seq<FunctionSpec>,
    module: ModuleDecl,
    world: World,
    bits: u64,
    idx: int,
) -> bool {
    forall|listener: int, memory: Memory|
        0 <= listener < module.listeners@.len() && spec_fires(module, bits, listener)
            && first_function_named(
            functions,
            spec_listener_fn_name(module, module.listeners@[listener]),
            0,
        ) is Some ==> spec_left_alone(
            module,
            idx,
            memory,
            #[trigger] (world.effect)(
                first_function_named(
                    functions,
                    spec_listener_fn_name(module, module.listeners@[listener]),
                    0,
                ).unwrap() as usize,
                seq![Word::Pointer(state_address())],
                memory,
            ),
        )
}

/// Whether the pending value of the handle at `idx` is still where it was
/// in `entry`, and the bitfield holds an integer.
pub open spec fn spec_still_pending(module: ModuleDecl, idx: int, entry: Memory, memory: Memory)
    -> bool {
    &&& spec_same_slot(
        spec_handle_primitive(module, idx),
        memory,
        spec_update_address(idx),
        entry,
        spec_update_address(idx),
    )
    &&& spec_word_at(memory, spec_bitfield_address(module)) is Int
}

/// Whether the current slot of the handle at `idx` holds what its update
/// slot held in `entry`, and the handle's bit is clear.
pub open spec fn spec_installed(module: ModuleDecl, idx: int, entry: Memory, memory: Memory)
    -> bool {
    &&& spec_same_slot(
        spec_handle_primitive(module, idx),
        memory,
        spec_current_address(idx),
        entry,
        spec_update_address(idx),
    )
    &&& match spec_word_at(memory, spec_bitfield_address(module)) {
        Word::Int(bits) => bits & handle_bit(idx) == 0,
        _ => false,
    }
}

proof fn lemma_bits_apart(bits: u64, i: int, j: int)
    requires
        0 <= i < 64,
        0 <= j < 64,
    ensures
        (bits & !handle_bit(i)) & handle_bit(i) == 0,
        i != j ==> (bits & !handle_bit(j)) & handle_bit(i) == bits & handle_bit(i),
{
    let a = i as u64;
    let b = j as u64;
    assert((bits & !(1u64 << a)) & (1u64 << a) == 0) by (bit_vector);
    if i != j {
        assert((bits & !(1u64 << b)) & (1u64 << a) == bits & (1u64 << a)) by (bit_vector)
            requires
                a != b,
                a < 64,
                b < 64,
        ;
    }
}

proof fn lemma_addresses_apart(i: int, j: int)
    ensures
        i != j ==> state_address().field(i) != state_address().field(j),
        forall|k: int| state_address().field(i) != #[trigger] state_address().field(j).field(k),
        forall|k: int, l: int|
            i != j ==> #[trigger] state_address().field(i).field(k) != #[trigger] state_address().field(
                j,
            ).field(l),
        state_address().field(i).field(0) != state_address().field(i).field(1),
        state_address().field(i) != spec_state_slot(),
        forall|k: int| #[trigger] state_address().field(i).field(k) != spec_state_slot(),
{
    let a = state_address().field(i);
    let b = state_address().field(j);
    assert(a.path[0] == i);
    assert(b.path[0] == j);
    assert forall|k: int| a != #[trigger] b.field(k) by {
        assert(a.path.len() == 1);
        assert(b.field(k).path.len() == 2);
    }
    assert forall|k: int, l: int| i != j implies #[trigger] a.field(k) != #[trigger] b.field(l) by {
        assert(a.field(k).path[0] == i);
        assert(b.field(l).path[0] == j);
    }
    assert(a.field(0).path[1] == 0);
    assert(a.field(1).path[1] == 1);
}

proof fn lemma_resolved(module: ModuleDecl, idx: int)
    requires
        spec_distinct_names(module),
        0 <= idx < module.handles@.len(),
    ensures
        spec_resolved(module, idx) == idx,
        module.spec_idx_for_field(module.handles@[idx].name@) is Some,
{
    lemma_first_handle_named(module.handles@, module.handles@[idx].name@, 0);
}

proof fn lemma_promoted_other(module: ModuleDecl, memory: Memory, idx: int, other: int)
    requires
        spec_well_formed(module),
        0 <= idx < module.handles@.len(),
        0 <= other < module.handles@.len(),
        idx != other,
    ensures
        spec_left_alone(module, idx, memory, spec_promoted(module, memory, other)),
{
    lemma_addresses_apart(2 * other, 2 * idx);
    lemma_addresses_apart(2 * other, 2 * idx + 1);
    lemma_addresses_apart(2 * idx, 2 * other);
    lemma_addresses_apart(2 * idx + 1, 2 * other);
    lemma_addresses_apart(2 * other + 1, 2 * idx);
    lemma_addresses_apart(2 * other + 1, 2 * idx + 1);
    lemma_addresses_apart(2 * idx, 2 * other + 1);
    lemma_addresses_apart(2 * idx + 1, 2 * other + 1);
    lemma_addresses_apart(bitfield_slot(module), 2 * other);
    lemma_addresses_apart(bitfield_slot(module), 2 * other + 1);
    lemma_addresses_apart(bitfield_slot(module), 2 * idx);
    lemma_addresses_apart(bitfield_slot(module), 2 * idx + 1);
    lemma_addresses_apart(2 * other, bitfield_slot(module));
    lemma_addresses_apart(2 * idx, bitfield_slot(module));
    lemma_addresses_apart(2 * idx + 1, bitfield_slot(module));
    match spec_word_at(memory, spec_bitfield_address(module)) {
        Word::Int(bits) => {
            lemma_bits_apart(bits, idx, other);
        },
        _ => {},
    }
}

proof fn lemma_promoted_self(module: ModuleDecl, entry: Memory, memory: Memory, idx: int)
    requires
        spec_well_formed(module),
        0 <= idx < module.handles@.len(),
        spec_still_pending(module, idx, entry, memory),
    ensures
        spec_installed(module, idx, entry, spec_promoted(module, memory, idx)),
{
    lemma_addresses_apart(2 * idx, 2 * idx + 1);
    lemma_addresses_apart(2 * idx + 1, 2 * idx);
    lemma_addresses_apart(2 * idx, bitfield_slot(module));
    lemma_addresses_apart(bitfield_slot(module), 2 * idx);
    lemma_addresses_apart(bitfield_slot(module), 2 * idx + 1);
    let bits = spec_word_at(memory, spec_bitfield_address(module))->Int_0;
    lemma_bits_apart(bits, idx, idx);
}

proof fn lemma_fired_leaves_alone(
    functions: Seq<FunctionSpec>,
    module: ModuleDecl,
    world: World,
    bits: u64,
    idx: int,
    memory: Memory,
    calls: Seq<CallMade>,
    handle: int,
    from: int,
)
    requires
        spec_no_fired_listener_touches(functions, module, world, bits, idx),
        0 <= handle < module.handles@.len(),
        bits & handle_bit(handle) != 0,
        0 <= from,
    ensures
        spec_left_alone(
            module,
            idx,
            memory,
            spec_fired_from(functions, module, world, memory, calls, handle, from).0,
        ),
    decreases module.listeners@.len() - from,
{
    if from < module.listeners@.len() {
        if module.listeners@[from].trigger@ == module.handles@[handle].name@ {
            let found = first_function_named(
                functions,
                spec_listener_fn_name(module, module.listeners@[from]),
                0,
            );
            match found {
                None => {},
                Some(callee) => {
                    let arguments = seq![Word::Pointer(state_address())];
                    let next = (world.effect)(callee as usize, arguments, memory);
                    assert(module.handles@[handle].name@ == module.listeners@[from].trigger@);
                    assert(spec_fires(module, bits, from));
                    assert(spec_left_alone(module, idx, memory, next));
                    lemma_fired_leaves_alone(
                        functions,
                        module,
                        world,
                        bits,
                        idx,
                        next,
                        calls.push(CallMade { callee: callee as usize, arguments }),
                        handle,
                        from + 1,
                    );
                },
            }
        } else {
            lemma_fired_leaves_alone(
                functions,
                module,
                world,
                bits,
                idx,
                memory,
                calls,
                handle,
                from + 1,
            );
        }
    }
}

proof fn lemma_installed_stays(
    functions: Seq<FunctionSpec>,
    module: ModuleDecl,
    world: World,
    bits: u64,
    idx: int,
    entry: Memory,
    memory: Memory,
    calls: Seq<CallMade>,
    from: int,
)
    requires
        spec_well_formed(module),
        spec_distinct_names(module),
        spec_no_fired_listener_touches(functions, module, world, bits, idx),
        0 <= idx < from,
        idx < module.handles@.len(),
        spec_installed(module, idx, entry, memory),
    ensures
        spec_installed(
            module,
            idx,
            entry,
            spec_updated_from(functions, module, world, bits, memory, calls, from).0,
        ),
    decreases module.handles@.len() - from,
{
    if from < module.handles@.len() {
        let handled = spec_handled(functions, module, world, bits, memory, calls, from);
        if bits & handle_bit(from) != 0 {
            lemma_resolved(module, from);
            let promoted = spec_promoted(module, memory, from);
            lemma_promoted_other(module, memory, idx, from);
            lemma_fired_leaves_alone(functions, module, world, bits, idx, promoted, calls, from, 0);
        }
        lemma_installed_stays(
            functions,
            module,
            world,
            bits,
            idx,
            entry,
            handled.0,
            handled.1,
            from + 1,
        );
    }
}

proof fn lemma_pending_gets_installed(
    functions: Seq<FunctionSpec>,
    module: ModuleDecl,
    world: World,
    bits: u64,
    idx: int,
    entry: Memory,
    memory: Memory,
    calls: Seq<CallMade>,
    from: int,
)
    requires
        spec_well_formed(module),
        spec_distinct_names(module),
        spec_no_fired_listener_touches(functions, module, world, bits, idx),
        0 <= from <= idx < module.handles@.len(),
        bits & handle_bit(idx) != 0,
        spec_still_pending(module, idx, entry, memory),
    ensures
        spec_installed(
            module,
            idx,
            entry,
            spec_updated_from(functions, module, world, bits, memory, calls, from).0,
        ),
    decreases module.handles@.len() - from,
{
    let handled = spec_handled(functions, module, world, bits, memory, calls, from);
    lemma_resolved(module, from);
    if from == idx {
        let promoted = spec_promoted(module, memory, idx);
        lemma_promoted_self(module, entry, memory, idx);
        lemma_fired_leaves_alone(functions, module, world, bits, idx, promoted, calls, idx, 0);
        lemma_installed_stays(
            functions,
            module,
            world,
            bits,
            idx,
            entry,
            handled.0,
            handled.1,
            from + 1,
        );
    } else {
        if bits & handle_bit(from) != 0 {
            let promoted = spec_promoted(module, memory, from);
            lemma_promoted_other(module, memory, idx, from);
            lemma_fired_leaves_alone(functions, module, world, bits, idx, promoted, calls, from, 0);
        }
        lemma_pending_gets_installed(
            functions,
            module,
            world,
            bits,
            idx,
            entry,
            handled.0,
            handled.1,
            from + 1,
        );
    }
}

/// The bitfield protocol. Take a handle whose bit is set when the update
/// function is entered, in a module whose handles have distinct names, and
/// let no listener that fires in this update touch the handle's slots or its
/// bit. Then, when the update function returns, the handle's current slot
/// holds what its update slot held on entry, and the handle's bit is clear.
pub proof fn law_pending_value_is_installed_and_bit_cleared(
    state: CodegenSpec,
    module: ModuleDecl,
    bits: u64,
    world: World,
    memory: Memory,
    idx: int,
)
    requires
        spec_update_runs(state, module, bits, world, memory),
        spec_distinct_names(module),
        0 <= idx < module.handles@.len(),
        bits & handle_bit(idx) != 0,
        spec_no_fired_listener_touches(
            spec_module_update_function(state, module)->Ok_0.0.functions,
            module,
            world,
            bits,
            idx,
        ),
    ensures
        spec_after_update(state, module, world, memory).control == Control::Returned,
        spec_installed(module, idx, memory, spec_after_update(state, module, world, memory).memory),
{
    lemma_update_function(state, module, bits, world, memory);
    let emitted = spec_module_update_function(state, module)->Ok_0.0;
    let stacked = memory.insert(spec_state_slot(), Word::Pointer(state_address()));
    lemma_addresses_apart(2 * idx + 1, 0);
    lemma_addresses_apart(bitfield_slot(module), 0);
    assert(spec_still_pending(module, idx, memory, stacked));
    lemma_pending_gets_installed(
        emitted.functions,
        module,
        world,
        bits,
        idx,
        memory,
        stacked,
        Seq::empty(),
        0,
    );
}

/// Control leaves the fixpoint loop of a copy into a submodule only when
/// the child's bitfield is zero: where a round ends in the block behind the
/// loop, the child's update function has just run and left no bit set.
pub proof fn law_loop_leaves_the_child_stable(
    state: CodegenSpec,
    module: ModuleDecl,
    state_ptr: usize,
    info: ModuleInfo,
    submodule_state_ptr: usize,
    child_base: Address,
    world: World,
    machine: Machine,
)
    requires
        spec_round_runs(state, module, state_ptr, info, submodule_state_ptr, child_base, machine),
    ensures
        ({
            let ran = spec_after_round(
                state,
                module,
                state_ptr,
                info,
                submodule_state_ptr,
                world,
                machine,
            );
            let behind = spec_fixpoint_loop(
                state,
                module,
                state_ptr,
                info,
                submodule_state_ptr,
            )->Ok_0.0.position;
            behind is Some && (ran.control == Control::At(behind.unwrap()) ==> spec_word_at(
                ran.memory,
                spec_bitfield_of(child_base, info.module),
            ) == Word::Int(0))
        }),
{
    law_fixpoint_round(
        state,
        module,
        state_ptr,
        info,
        submodule_state_ptr,
        child_base,
        world,
        machine,
    );
}

/// Draining an output of the child stores its pending value to the parent
/// handle that the wiring names and sets that handle's bit: afterwards the
/// update slot of the parent handle holds what the update slot of the
/// child's handle holds, and the parent handle's bit is set. The parent has
/// to have the handle that the wiring names, and its bitfield has to hold an
/// integer.
pub proof fn law_drained_output_reaches_the_parent(
    parent: ModuleDecl,
    info: ModuleInfo,
    child_base: Address,
    memory: Memory,
    index: int,
)
    requires
        spec_well_formed(parent),
        0 <= index < info.module.handles@.len(),
        info.spec_parent_of(info.module.handles@[index].name@) is Some,
        parent.spec_idx_for_field(
            info.spec_parent_of(info.module.handles@[index].name@).unwrap(),
        ) is Some,
        spec_word_at(memory, spec_bitfield_address(parent)) is Int,
    ensures
        ({
            let drained = spec_drained(parent, info, child_base, memory, index);
            let source = spec_drain_source(info, index);
            let target = spec_drain_target(parent, info, index);
            &&& 0 <= target < parent.handles@.len()
            &&& spec_same_slot(
                spec_handle_primitive(info.module, source),
                drained,
                spec_update_address(target),
                memory,
                spec_update_of(child_base, source),
            )
            &&& match spec_word_at(drained, spec_bitfield_address(parent)) {
                Word::Int(bits) => bits & handle_bit(target) != 0,
                _ => false,
            }
        }),
{
    let target = spec_drain_target(parent, info, index);
    lemma_first_handle_named(
        parent.handles@,
        info.spec_parent_of(info.module.handles@[index].name@).unwrap(),
        0,
    );
    lemma_addresses_apart(bitfield_slot(parent), 2 * target + 1);
    lemma_addresses_apart(2 * target + 1, bitfield_slot(parent));
    let bits = spec_word_at(memory, spec_bitfield_address(parent))->Int_0;
    let t = target as u64;
    assert((bits | (1u64 << t)) & (1u64 << t) != 0) by (bit_vector)
        requires
            t < 64,
    ;
}

/// Code generation is a function of the module: whatever two runs on the
/// same module give, they give the same, be it code or an error.
pub proof fn law_same_module_same_code(
    module: ModuleDecl,
    first: Result<CodegenState, CodegenError>,
    second: Result<CodegenState, CodegenError>,
)
    requires
        spec_planned(module, first),
        spec_planned(module, second),
    ensures
        match (first, second) {
            (Ok(a), Ok(b)) => a@ == b@,
            (Err(a), Err(b)) => a@ == b@,
            _ => false,
        },
{
}

} // verus!
