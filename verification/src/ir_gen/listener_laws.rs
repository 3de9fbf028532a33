//! What the function of a listener that copies one handle to another does
//! when it runs.

use crate::ast::{lemma_first_handle_named, ExpressionValue, Listener, ModuleDecl};
use crate::ir_gen::codegen::expression_codegen::{
    spec_expression_codegen, spec_output, spec_reference,
};
use crate::ir_gen::codegen::{
    spec_begin_function, spec_ir_listener_type, spec_listener_codegen, spec_listener_fn_name,
};
use crate::ir_gen::codegen_state::{handle_bit, CodegenSpec, ErrorSpec, UpdatePtrPurpose};
use crate::ir_gen::ir::{BinaryOp, InstrSpec};
use crate::ir_gen::primitives::spec_type_primitive_for_type;
use crate::ir_gen::run_laws::{
    lemma_change_bitfield, lemma_emit, lemma_extends_chain, lemma_load_value, lemma_read_ptr,
    lemma_store_value, lemma_update_ptr, spec_bitfield_address, spec_combined, spec_current_address,
    spec_ran, spec_ready, spec_slot_first, spec_slot_size, spec_slot_written, spec_update_address,
    spec_word_at,
};
use crate::ir_gen::semantics::{spec_run, state_address, Control, Machine, Memory, Word, World};
use crate::ir_gen::types::spec_well_formed;
use crate::ir_gen::update_laws::spec_state_slot;
use vstd::prelude::*;

verus! {

/// Whether the body of `listener` is the output of the handle called
/// `source` to the handle called `target`, without a return.
pub open spec fn spec_copies(listener: Listener, source: Seq<char>, target: Seq<char>) -> bool {
    match listener.implementation {
        ExpressionValue::Output(output) => output.output@ == target && target.len() > 0
            && !output.and_return && match *output.expression {
            ExpressionValue::ReferenceToState(field) => field@ == source,
            _ => false,
        },
        _ => false,
    }
}

/// The memory once the current value of the handle at `source` is written
/// as the pending value of the handle at `target`: the update slot of
/// `target` holds what the current slot of `source` holds, and the bit of
/// `target` is set.
pub open spec fn spec_copied(module: ModuleDecl, memory: Memory, source: int, target: int)
    -> Memory {
    let value_type = spec_type_primitive_for_type(module.handles@[source].h_type);
    let written = spec_slot_written(
        memory,
        value_type,
        spec_update_address(target),
        spec_slot_first(memory, value_type, spec_current_address(source)),
        spec_slot_size(memory, spec_current_address(source)),
    );
    written.insert(
        spec_bitfield_address(module),
        spec_combined(
            spec_word_at(written, spec_bitfield_address(module)),
            BinaryOp::Or,
            handle_bit(target),
        ),
    )
}

/// A listener that copies one handle to another moves the value one hop:
/// when its function has run, the update slot of the target holds what the
/// current slot of the source held, the target's bit is set, and nothing
/// else in the state has changed. So after a value is written to the source
/// of such a listener, one call of the update function brings it to the
/// target's update slot, and the next call installs it there.
#[verifier::rlimit(40)]
pub proof fn law_copy_listener_moves_value_one_hop(
    state: CodegenSpec,
    module: ModuleDecl,
    listener: Listener,
    source: Seq<char>,
    target: Seq<char>,
    world: World,
    memory: Memory,
)
    requires
        spec_well_formed(module),
        spec_copies(listener, source, target),
        spec_listener_codegen(state, module, listener) is Ok,
        state.functions.len() < usize::MAX,
        world.arguments.len() > 0,
        world.arguments[0] == Word::Pointer(state_address()),
    ensures
        ({
            let emitted = spec_listener_codegen(state, module, listener)->Ok_0.0;
            let ran = spec_run(
                emitted.code(),
                world,
                Machine::start(0, memory),
                0,
                emitted.code().len() as int,
            );
            &&& module.spec_idx_for_field(source) is Some
            &&& module.spec_idx_for_field(target) is Some
            &&& ran.control == Control::Returned
            &&& ran.calls == Seq::<crate::ir_gen::semantics::CallMade>::empty()
            &&& ran.memory == spec_copied(
                module,
                memory.insert(spec_state_slot(), Word::Pointer(state_address())),
                module.spec_idx_for_field(source).unwrap(),
                module.spec_idx_for_field(target).unwrap(),
            )
        }),
{
    let start = Machine::start(0, memory);
    let output = listener.implementation->Output_0;
    let name = spec_listener_fn_name(module, listener);
    let declared = state.add_function(
        name,
        spec_ir_listener_type(module),
        None,
        false,
    ).enter_function(state.functions.len() as usize).clear_locals();
    assert(declared.in_function());
    assert(declared.code() =~= Seq::empty());
    let b0 = InstrSpec::Block { name: "entry"@ };
    lemma_emit(declared, b0, world, start, 0);
    let begun = declared.emit(b0).position_at_end(declared.next_id());
    assert(begun == spec_begin_function(state, module, name));
    assert(begun.code() == declared.emit(b0).code());
    assert(begun.functions == declared.emit(b0).functions);
    let entry = begun.clear_locals();
    assert(entry.code() == begun.code());
    assert(entry.locals =~= Seq::empty());
    assert(spec_ran(entry, world, start, 0) == start);
    let i1 = InstrSpec::Alloca {
        ty: crate::ir_gen::types::spec_state_type(module).pointer_to(),
        name: "state_alloca"@,
    };
    lemma_emit(entry, i1, world, start, 0);
    let s1 = entry.emit(i1);
    let i2 = InstrSpec::Param { index: 0 };
    lemma_emit(s1, i2, world, start, 0);
    let s2 = s1.emit(i2);
    let i3 = InstrSpec::Store { ptr: entry.next_id(), value: s1.next_id() };
    lemma_emit(s2, i3, world, start, 0);
    let s3 = s2.emit(i3);
    let state_alloca = entry.next_id();
    assert(entry.state_alloca_for_module_function(module) == (s3, state_alloca));
    lemma_extends_chain(entry, s1, s2);
    lemma_extends_chain(entry, s2, s3);
    let stacked = memory.insert(spec_state_slot(), Word::Pointer(state_address()));
    let m3 = spec_ran(s3, world, start, 0);
    assert(m3.memory == stacked);

    // The value of the source.
    assert(s3.get_local(source) is None);
    let i4 = InstrSpec::Load { ptr: state_alloca, name: "state_ptr"@ };
    lemma_emit(s3, i4, world, start, 0);
    let s4 = s3.emit(i4);
    lemma_extends_chain(entry, s3, s4);
    let read = s4.read_ptr_for_field(module, s3.next_id(), source);
    assert(spec_expression_codegen(s3, module, state_alloca, *output.expression) == spec_reference(
        s3,
        module,
        state_alloca,
        source,
    ));
    assert(spec_output(s3, module, state_alloca, output) is Ok);
    assert(read is Ok);
    assert(module.spec_idx_for_field(source) is Some);
    let from = module.spec_idx_for_field(source).unwrap();
    lemma_first_handle_named(module.handles@, source, 0);
    lemma_read_ptr(s4, module, s3.next_id(), state_address(), source, world, start, 0);
    let (s5, value_ptr) = read->Ok_0;
    lemma_extends_chain(entry, s4, s5);
    assert(value_ptr.value_type.len() == 1);
    lemma_load_value(
        s5,
        value_ptr,
        "ref_to_state_"@ + source,
        spec_current_address(from),
        world,
        start,
        0,
    );
    let (s6, value) = s5.load_value(value_ptr, "ref_to_state_"@ + source)->Ok_0;
    lemma_extends_chain(entry, s5, s6);
    assert(spec_reference(s3, module, state_alloca, source) == Ok::<_, ErrorSpec>((s6, value)));

    // The store to the target.
    let i7 = InstrSpec::Load { ptr: state_alloca, name: "state_ptr"@ };
    lemma_emit(s6, i7, world, start, 0);
    let s7 = s6.emit(i7);
    lemma_extends_chain(entry, s6, s7);
    let update = s7.update_ptr_for_field(
        module,
        s6.next_id(),
        target,
        UpdatePtrPurpose::WriteAndSet,
    );
    assert(update is Ok);
    assert(module.spec_idx_for_field(target) is Some);
    let to = module.spec_idx_for_field(target).unwrap();
    lemma_first_handle_named(module.handles@, target, 0);
    lemma_update_ptr(
        s7,
        module,
        s6.next_id(),
        state_address(),
        target,
        UpdatePtrPurpose::WriteAndSet,
        world,
        start,
        0,
    );
    let (s8, update_ptr) = update->Ok_0;
    lemma_extends_chain(entry, s7, s8);
    assert(s8.store_update(value, update_ptr) is Ok);
    assert(s8.store_value(value, update_ptr.target) is Ok);
    assert(value.value_type() == update_ptr.target.value_type);
    lemma_store_value(s8, value, update_ptr.target, spec_update_address(to), world, start, 0);
    let s9 = s8.store_value(value, update_ptr.target)->Ok_0.0;
    lemma_extends_chain(entry, s8, s9);
    lemma_change_bitfield(
        s9,
        update_ptr.bitfield_ptr,
        BinaryOp::Or,
        update_ptr.mask,
        spec_bitfield_address(module),
        world,
        start,
        0,
    );
    let s10 = s9.change_bitfield(update_ptr.bitfield_ptr, BinaryOp::Or, update_ptr.mask);
    lemma_extends_chain(entry, s9, s10);
    assert(spec_output(s3, module, state_alloca, output) == Ok::<_, ErrorSpec>((s10, value)));
    let i11 = InstrSpec::Ret;
    lemma_emit(s10, i11, world, start, 0);
    let emitted = s10.emit(i11);
    assert(spec_listener_codegen(state, module, listener)->Ok_0.0 == emitted);

    // The run.
    let m4 = spec_ran(s4, world, start, 0);
    assert(m4.value(s3.next_id()) == Word::Pointer(state_address()));
    assert(spec_ready(s4, m4, s3.next_id(), state_address(), 1));
    let m5 = spec_ran(s5, world, start, 0);
    assert(spec_ready(s5, m5, value_ptr.ptr, spec_current_address(from), 4));
    let m6 = spec_ran(s6, world, start, 0);
    assert(m6.value(state_alloca) == m5.value(state_alloca));
    let m7 = spec_ran(s7, world, start, 0);
    assert(m7.value(s6.next_id()) == Word::Pointer(state_address()));
    assert(spec_ready(s7, m7, s6.next_id(), state_address(), 2));
    let m8 = spec_ran(s8, world, start, 0);
    assert(spec_ready(s8, m8, update_ptr.target.ptr, spec_update_address(to), 4));
    assert(m8.value(value.first_part()) == m6.value(value.first_part()));
    if value.size_part() is Some {
        assert(m8.value(value.size_part().unwrap()) == m6.value(value.size_part().unwrap()));
    }
    let m9 = spec_ran(s9, world, start, 0);
    assert(m9.value(update_ptr.bitfield_ptr) == m8.value(update_ptr.bitfield_ptr));
    assert(spec_ready(s9, m9, update_ptr.bitfield_ptr, spec_bitfield_address(module), 4));
}

} // verus!
