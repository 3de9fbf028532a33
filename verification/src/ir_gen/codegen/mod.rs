//! Code generation for modules, listeners and expressions.

pub mod expression_codegen;
pub mod expression_type;
pub mod runtime;

use crate::ast::{Listener, ModuleDecl};
use crate::ir_gen::codegen::expression_codegen::{expression_codegen, spec_expression_codegen};
use crate::ir_gen::codegen_state::{
    handle_bit, outcome, CodegenError, CodegenResult, CodegenSpec, CodegenState, CodegenStatus,
    ErrorSpec, UpdatePtrPurpose,
};
use crate::ir_gen::ir::{
    ir_types_view, spec_types_supported, BinaryOp, Instr, InstrSpec, IrType, IrTypeSpec, Predicate,
};
use crate::ir_gen::emit::{emit_named, spec_holds};
use crate::ir_gen::type_check::plan_typed;
use crate::ir_gen::typing::spec_typed;
use crate::ir_gen::order::{
    spec_block_known, spec_carries, spec_emittable, spec_keeps, spec_ordered, spec_value_known,
    spec_working,
};
use crate::ir_gen::types::{spec_state_type, spec_well_formed};
use vstd::prelude::*;
use vstd::string::*;

verus! {

impl CodegenSpec {
    /// Appends a block called `name` to the function that the builder
    /// stands in.
    pub open spec fn append_new_block(self, name: Seq<char>) -> Result<
        (CodegenSpec, usize),
        ErrorSpec,
    > {
        if self.position is None {
            Err(ErrorSpec::NotInABlock)
        } else if !self.in_function() {
            Err(ErrorSpec::NotInAFunction)
        } else {
            Ok((self.emit(InstrSpec::Block { name }), self.next_id()))
        }
    }

    /// Appends a block, branches to it and moves the builder there.
    pub open spec fn flow_to_new_block(self, name: Seq<char>) -> Result<
        (CodegenSpec, usize),
        ErrorSpec,
    > {
        match self.append_new_block(name) {
            Err(e) => Err(e),
            Ok((appended, block)) => Ok(
                (appended.emit(InstrSpec::Br { target: block }).position_at_end(block), block),
            ),
        }
    }
}

/// Appends a block called `block_name` to the function that the builder
/// stands in. Fails with `NotInABlock` where the builder stands nowhere, and
/// with `NotInAFunction` where no function is being emitted.
pub fn append_new_block(cg: &mut CodegenState, block_name: &str) -> (r: CodegenResult<usize>)
    ensures
        outcome(final(cg)@, r) == old(cg)@.append_new_block(block_name@),
        r is Err ==> final(cg)@ == old(cg)@,
        r is Ok <==> old(cg)@.positioned(),
        old(cg)@.in_function() ==> final(cg)@.in_function(),
        final(cg)@.position == old(cg)@.position,
        spec_carries(
            old(cg)@,
            final(cg)@,
            true,
            r is Ok ==> spec_block_known(final(cg)@, r.unwrap()),
        ),
{
    if cg.position.is_none() {
        return Err(CodegenError::NotInABlock);
    }
    match cg.current {
        None => Err(CodegenError::NotInAFunction),
        Some(c) => {
            if c >= cg.functions.len() {
                return Err(CodegenError::NotInAFunction);
            }
            Ok(cg.emit(Instr::Block { name: String::from_str(block_name) }))
        },
    }
}

/// Appends a block, branches to it and moves the builder there.
pub fn flow_to_new_block(cg: &mut CodegenState, block_name: &str) -> (r: CodegenResult<usize>)
    ensures
        outcome(final(cg)@, r) == old(cg)@.flow_to_new_block(block_name@),
        r is Err ==> final(cg)@ == old(cg)@,
        r is Ok <==> old(cg)@.positioned(),
        r is Ok ==> final(cg)@.positioned(),
        spec_carries(
            old(cg)@,
            final(cg)@,
            true,
            r is Ok ==> spec_block_known(final(cg)@, r.unwrap()),
        ),
{
    let new_block = append_new_block(cg, block_name)?;
    cg.emit(Instr::Br { target: new_block });
    cg.position_at_end(new_block);
    Ok(new_block)
}

/// The name of the function of `listener`: the module's name, the kind and
/// the trigger, with two underscores between each.
pub open spec fn spec_listener_fn_name(module: ModuleDecl, listener: Listener) -> Seq<char> {
    module.name@ + "__"@ + listener.kind.spec_name() + "__"@ + listener.trigger@
}

/// The parameters of every update and listener function: a pointer to the
/// module's state.
pub open spec fn spec_ir_listener_type(module: ModuleDecl) -> Seq<IrTypeSpec> {
    seq![spec_state_type(module).pointer_to()]
}

impl ModuleDecl {
    /// The name of the module's update function.
    pub open spec fn spec_fn_name(&self) -> Seq<char> {
        self.name@ + "_update"@
    }

    /// The name of the module's update function.
    pub fn fn_name(&self) -> (r: String)
        ensures
            r@ == self.spec_fn_name(),
    {
        self.name.clone().concat("_update")
    }
}

/// The name of the function of `listener`.
pub fn listener_fn_name(module: &ModuleDecl, listener: &Listener) -> (r: String)
    ensures
        r@ == spec_listener_fn_name(*module, *listener),
{
    module.name.clone().concat("__").concat(listener.kind.to_str()).concat("__").concat(
        listener.trigger.as_str(),
    )
}

/// The parameters of the module's update and listener functions.
pub fn ir_listener_type(module: &ModuleDecl) -> (r: Vec<IrType>)
    ensures
        ir_types_view(r@) == spec_ir_listener_type(*module),
        spec_types_supported(ir_types_view(r@)),
{
    let mut params: Vec<IrType> = Vec::new();
    params.push(module.ir_type().pointer_to());
    assert(ir_types_view(params@) =~= spec_ir_listener_type(*module));
    params
}

impl CodegenSpec {
    /// The first instructions of an update or listener function: a stack
    /// slot for the state pointer, filled from the function's parameter.
    pub open spec fn state_alloca_for_module_function(self, module: ModuleDecl) -> (
        CodegenSpec,
        usize,
    ) {
        let slot = self.emit(
            InstrSpec::Alloca {
                ty: spec_state_type(module).pointer_to(),
                name: "state_alloca"@,
            },
        );
        let param = slot.emit(InstrSpec::Param { index: 0 });
        (param.emit(InstrSpec::Store { ptr: self.next_id(), value: slot.next_id() }), self.next_id())
    }

    /// A call of the update function of `submodule` on the state at
    /// `submodule_state_ptr`; the function is declared if the IR module has
    /// none of its name.
    pub open spec fn invoke_submodule(self, submodule: ModuleDecl, submodule_state_ptr: usize)
        -> CodegenSpec {
        let (declared, callee) = self.declare(
            submodule.spec_fn_name(),
            spec_ir_listener_type(submodule),
            None,
            false,
        );
        declared.emit(InstrSpec::Call { callee, args: seq![submodule_state_ptr], name: "_"@ })
    }
}

/// Emits the stack slot for the state pointer and fills it from the
/// function's parameter; the result is the slot's address.
pub fn state_alloca_for_module_function(cg: &mut CodegenState, module: &ModuleDecl) -> (r: usize)
    requires
        old(cg)@.in_function(),
    ensures
        (final(cg)@, r) == old(cg)@.state_alloca_for_module_function(*module),
        final(cg)@.in_function(),
        final(cg)@.position == old(cg)@.position,
        spec_carries(
            old(cg)@,
            final(cg)@,
            true,
            spec_value_known(final(cg)@, r),
        ),
{
    let state_alloca = cg.emit(
        Instr::Alloca {
            ty: module.ir_type().pointer_to(),
            name: String::from_str("state_alloca"),
        },
    );
    let param = cg.emit(Instr::Param { index: 0 });
    cg.emit(Instr::Store { ptr: state_alloca, value: param });
    state_alloca
}

/// Emits a call of the update function of `submodule` on the state at
/// `submodule_state_ptr`.
pub fn invoke_submodule(cg: &mut CodegenState, submodule: &ModuleDecl, submodule_state_ptr: usize)
    requires
        old(cg)@.in_function(),
    ensures
        final(cg)@ == old(cg)@.invoke_submodule(*submodule, submodule_state_ptr),
        final(cg)@.in_function(),
        final(cg)@.position == old(cg)@.position,
        spec_carries(
            old(cg)@,
            final(cg)@,
            spec_value_known(old(cg)@, submodule_state_ptr),
            true,
        ),
{
    let name = submodule.fn_name();
    let callee = cg.declare(name.as_str(), ir_listener_type(submodule), None, false);
    let mut args: Vec<usize> = Vec::new();
    args.push(submodule_state_ptr);
    assert(args@ =~= seq![submodule_state_ptr]);
    cg.emit(Instr::Call { callee, args, name: String::from_str("_") });
}

/// Whether every listener of the module is triggered by one of its handles.
pub open spec fn spec_triggers_valid(module: ModuleDecl) -> bool {
    forall|k: int|
        0 <= k < module.listeners@.len() ==> module.spec_idx_for_field(
            (#[trigger] module.listeners@[k]).trigger@,
        ) is Some
}

/// The calls of the listeners from position `from` on that the handle at
/// `handle` triggers, in declaration order. Each listener's function has to
/// be in the IR module already.
pub open spec fn spec_fire_listeners_from(
    state: CodegenSpec,
    module: ModuleDecl,
    state_ptr: usize,
    handle: int,
    from: int,
) -> Result<(CodegenSpec, ()), ErrorSpec>
    decreases module.listeners@.len() - from,
{
    if from < 0 || from >= module.listeners@.len() {
        Ok((state, ()))
    } else if module.listeners@[from].trigger@ == module.handles@[handle].name@ {
        match state.get_function(spec_listener_fn_name(module, module.listeners@[from])) {
            None => Err(ErrorSpec::FunctionMissing),
            Some(callee) => spec_fire_listeners_from(
                state.emit(
                    InstrSpec::Call { callee: callee as usize, args: seq![state_ptr], name: "_"@ },
                ),
                module,
                state_ptr,
                handle,
                from + 1,
            ),
        }
    } else {
        spec_fire_listeners_from(state, module, state_ptr, handle, from + 1)
    }
}

/// The code that promotes the pending value of the handle called `name`:
/// the value is taken from the update slot, which is left empty, the
/// handle's bit is cleared, and the value is installed in the current slot.
pub open spec fn spec_promote(state: CodegenSpec, module: ModuleDecl, state_ptr: usize, name: Seq<char>)
    -> Result<(CodegenSpec, ()), ErrorSpec> {
    match state.read_ptr_for_field(module, state_ptr, name) {
        Err(e) => Err(e),
        Ok((with_write, write_ptr)) => match with_write.update_ptr_for_field(
            module,
            state_ptr,
            name,
            UpdatePtrPurpose::ReadAndClear,
        ) {
            Err(e) => Err(e),
            Ok((with_update, update_ptr)) => match with_update.load_update(update_ptr, "value"@) {
                Err(e) => Err(e),
                Ok((loaded, value)) => loaded.store_value(value, write_ptr),
            },
        },
    }
}

/// The part of an update function for the handle at `idx`: a test of the
/// handle's bit in the bitfield as it was on entry; where it is set, the
/// block that takes the pending value, clears the bit and the update slot,
/// installs the value in the current slot and calls the handle's listeners;
/// and the block that follows either way.
pub open spec fn spec_update_handle(
    state: CodegenSpec,
    module: ModuleDecl,
    state_ptr: usize,
    bitfield: usize,
    idx: int,
) -> Result<(CodegenSpec, ()), ErrorSpec> {
    let name = module.handles@[idx].name@;
    let test_value = state.emit(InstrSpec::ConstInt { bits: 64, constant: handle_bit(idx) });
    let bitfield_has_test = test_value.emit(
        InstrSpec::Binary {
            op: BinaryOp::And,
            lhs: bitfield,
            rhs: state.next_id(),
            name: "bitfield_test"@,
        },
    );
    let zero = bitfield_has_test.emit(InstrSpec::ConstInt { bits: 64, constant: 0 });
    let has_listener = zero.emit(
        InstrSpec::Compare {
            predicate: Predicate::NotEqual,
            lhs: test_value.next_id(),
            rhs: bitfield_has_test.next_id(),
            name: "has_listener"@,
        },
    );
    let with_activate = has_listener.emit(InstrSpec::Block { name: "activate_for_"@ + name });
    let with_after = with_activate.emit(InstrSpec::Block { name: "after_"@ + name });
    let activate = has_listener.next_id();
    let after = with_activate.next_id();
    let in_activate = with_after.emit(
        InstrSpec::CondBr { condition: zero.next_id(), if_true: activate, if_false: after },
    ).position_at_end(activate);
    match spec_promote(in_activate, module, state_ptr, name) {
        Err(e) => Err(e),
        Ok((stored, _)) => match spec_fire_listeners_from(stored, module, state_ptr, idx, 0) {
            Err(e) => Err(e),
            Ok((fired, _)) => Ok(
                (fired.emit(InstrSpec::Br { target: after }).position_at_end(after), ()),
            ),
        },
    }
}

/// The parts of an update function for the handles from position `from`
/// on, in declaration order.
pub open spec fn spec_update_handles_from(
    state: CodegenSpec,
    module: ModuleDecl,
    state_ptr: usize,
    bitfield: usize,
    from: int,
) -> Result<(CodegenSpec, ()), ErrorSpec>
    decreases module.handles@.len() - from,
{
    if from < 0 || from >= module.handles@.len() {
        Ok((state, ()))
    } else {
        match spec_update_handle(state, module, state_ptr, bitfield, from) {
            Err(e) => Err(e),
            Ok((updated, _)) => spec_update_handles_from(
                updated,
                module,
                state_ptr,
                bitfield,
                from + 1,
            ),
        }
    }
}

/// The state in which a new function called `name`, which takes a pointer
/// to the state of `module`, has its entry block and the builder stands in
/// it. No local of an earlier function is bound any more.
pub open spec fn spec_begin_function(state: CodegenSpec, module: ModuleDecl, name: Seq<char>)
    -> CodegenSpec {
    let declared = state.add_function(
        name,
        spec_ir_listener_type(module),
        None,
        false,
    ).enter_function(state.functions.len() as usize).clear_locals();
    declared.emit(InstrSpec::Block { name: "entry"@ }).position_at_end(declared.next_id())
}

/// The update function of a module: it reads the bitfield once on entry
/// and then handles each handle in declaration order. Nothing is emitted
/// where a listener's trigger is no handle of the module.
pub open spec fn spec_module_update_function(state: CodegenSpec, module: ModuleDecl) -> Result<
    (CodegenSpec, ()),
    ErrorSpec,
> {
    if !spec_triggers_valid(module) {
        Err(ErrorSpec::BadListenerTrigger)
    } else {
        let entry = spec_begin_function(state, module, module.spec_fn_name());
        let (with_alloca, state_alloca) = entry.state_alloca_for_module_function(module);
        let with_state = with_alloca.emit(
            InstrSpec::Load { ptr: state_alloca, name: "state_ptr"@ },
        );
        let (with_ptr, bitfield_ptr) = with_state.module_bitfield_ptr(
            module,
            with_alloca.next_id(),
        );
        let with_bitfield = with_ptr.emit(InstrSpec::Load { ptr: bitfield_ptr, name: "bitfield"@ });
        match spec_update_handles_from(
            with_bitfield,
            module,
            with_alloca.next_id(),
            with_ptr.next_id(),
            0,
        ) {
            Err(e) => Err(e),
            Ok((updated, _)) => Ok((updated.emit(InstrSpec::Ret), ())),
        }
    }
}

/// The function of a listener: it takes the state pointer, runs the
/// listener's body with no locals bound at first, and returns.
pub open spec fn spec_listener_codegen(state: CodegenSpec, module: ModuleDecl, listener: Listener)
    -> Result<(CodegenSpec, ()), ErrorSpec> {
    let entry = spec_begin_function(
        state,
        module,
        spec_listener_fn_name(module, listener),
    ).clear_locals();
    let (with_alloca, state_alloca) = entry.state_alloca_for_module_function(module);
    match spec_expression_codegen(with_alloca, module, state_alloca, listener.implementation) {
        Err(e) => Err(e),
        Ok((with_body, _)) => Ok((with_body.emit(InstrSpec::Ret), ())),
    }
}

/// The functions of the listeners from position `from` on, in declaration
/// order.
pub open spec fn spec_listeners_from(state: CodegenSpec, module: ModuleDecl, from: int) -> Result<
    (CodegenSpec, ()),
    ErrorSpec,
>
    decreases module.listeners@.len() - from,
{
    if from < 0 || from >= module.listeners@.len() {
        Ok((state, ()))
    } else {
        match spec_listener_codegen(state, module, module.listeners@[from]) {
            Err(e) => Err(e),
            Ok((emitted, _)) => spec_listeners_from(emitted, module, from + 1),
        }
    }
}

/// The functions of a module: that of each listener, then the update
/// function. A module that is not well formed has none.
pub open spec fn spec_module_functions(state: CodegenSpec, module: ModuleDecl) -> Result<
    (CodegenSpec, ()),
    ErrorSpec,
> {
    if !spec_well_formed(module) {
        Err(ErrorSpec::TypeMismatch)
    } else {
        match spec_listeners_from(state, module, 0) {
            Err(e) => Err(e),
            Ok((emitted, _)) => spec_module_update_function(emitted, module),
        }
    }
}

/// The code of a module: its functions, where every entry of the code
/// that then stands in the state meets the typing rules, so that LLVM's
/// builder takes it. Code that does not meet them is a `TypeMismatch`.
pub open spec fn spec_module_codegen(state: CodegenSpec, module: ModuleDecl) -> Result<
    (CodegenSpec, ()),
    ErrorSpec,
> {
    match spec_module_functions(state, module) {
        Err(e) => Err(e),
        Ok((emitted, _)) => if spec_typed(emitted.functions) {
            Ok((emitted, ()))
        } else {
            Err(ErrorSpec::TypeMismatch)
        },
    }
}

fn triggers_valid(module: &ModuleDecl) -> (r: bool)
    ensures
        r == spec_triggers_valid(*module),
{
    let mut k: usize = 0;
    while k < module.listeners.len()
        invariant
            k <= module.listeners.len(),
            forall|j: int|
                0 <= j < k ==> module.spec_idx_for_field(
                    (#[trigger] module.listeners@[j]).trigger@,
                ) is Some,
        decreases module.listeners.len() - k,
    {
        if module.idx_for_field(&module.listeners[k].trigger).is_none() {
            return false;
        }
        k += 1;
    }
    true
}

/// Adds a function called `name` that takes a pointer to the state of
/// `module`, gives it an entry block and moves the builder there. The locals
/// of the function before are forgotten.
pub fn begin_function(cg: &mut CodegenState, module: &ModuleDecl, name: String)
    ensures
        final(cg)@ == spec_begin_function(old(cg)@, *module, name@),
        final(cg)@.positioned(),
        spec_ordered(old(cg)@) ==> spec_working(final(cg)@),
{
    let index = cg.add_function(name, ir_listener_type(module), None, false);
    cg.enter_function(index);
    cg.clear_locals();
    proof {
        reveal(spec_ordered);
        reveal(spec_value_known);
        reveal(spec_block_known);
    }
    let entry_block = cg.emit(Instr::Block { name: String::from_str("entry") });
    cg.position_at_end(entry_block);
}

fn fire_listeners(cg: &mut CodegenState, module: &ModuleDecl, state_ptr: usize, handle: usize) -> (r:
    CodegenStatus)
    requires
        old(cg)@.positioned(),
        handle < module.handles@.len(),
    ensures
        outcome(final(cg)@, r) == spec_fire_listeners_from(
            old(cg)@,
            *module,
            state_ptr,
            handle as int,
            0,
        ),
        r is Ok ==> final(cg)@.positioned(),
        spec_carries(
            old(cg)@,
            final(cg)@,
            spec_value_known(old(cg)@, state_ptr),
            true,
        ),
{
    let mut k: usize = 0;
    while k < module.listeners.len()
        invariant
            k <= module.listeners.len(),
            handle < module.handles@.len(),
            cg@.positioned(),
            spec_keeps(old(cg)@, cg@),
            spec_working(old(cg)@) && spec_value_known(old(cg)@, state_ptr) ==> spec_working(cg@),
            spec_fire_listeners_from(old(cg)@, *module, state_ptr, handle as int, 0)
                == spec_fire_listeners_from(cg@, *module, state_ptr, handle as int, k as int),
        decreases module.listeners.len() - k,
    {
        let listener = &module.listeners[k];
        if listener.trigger == module.handles[handle].name {
            let function_name = listener_fn_name(module, listener);
            let function = match cg.get_function(&function_name) {
                Some(f) => f,
                None => {
                    return Err(CodegenError::FunctionMissing);
                },
            };
            let mut args: Vec<usize> = Vec::new();
            args.push(state_ptr);
            assert(args@ =~= seq![state_ptr]);
            cg.emit(Instr::Call { callee: function, args, name: String::from_str("_") });
        }
        k += 1;
    }
    Ok(())
}

#[verifier::rlimit(40)]
fn update_handle(
    cg: &mut CodegenState,
    module: &ModuleDecl,
    state_ptr: usize,
    bitfield: usize,
    idx: usize,
) -> (r: CodegenStatus)
    requires
        old(cg)@.positioned(),
        spec_well_formed(*module),
        idx < module.handles@.len(),
    ensures
        outcome(final(cg)@, r) == spec_update_handle(
            old(cg)@,
            *module,
            state_ptr,
            bitfield,
            idx as int,
        ),
        r is Ok ==> final(cg)@.positioned(),
        spec_carries(
            old(cg)@,
            final(cg)@,
            spec_value_known(old(cg)@, state_ptr) && spec_value_known(old(cg)@, bitfield),
            true,
        ),
{
    let handle = &module.handles[idx];
    let test_value = cg.uint_const(1u64 << (idx as u64));
    let bitfield_has_test = cg.emit(
        Instr::Binary {
            op: BinaryOp::And,
            lhs: bitfield,
            rhs: test_value,
            name: String::from_str("bitfield_test"),
        },
    );
    let zero = cg.uint_const(0);
    let has_listener = cg.emit(
        Instr::Compare {
            predicate: Predicate::NotEqual,
            lhs: bitfield_has_test,
            rhs: zero,
            name: String::from_str("has_listener"),
        },
    );
    let activate_for_block = cg.emit(
        Instr::Block { name: String::from_str("activate_for_").concat(handle.name.as_str()) },
    );
    let after_listeners_block = cg.emit(
        Instr::Block { name: String::from_str("after_").concat(handle.name.as_str()) },
    );
    cg.emit(
        Instr::CondBr {
            condition: has_listener,
            if_true: activate_for_block,
            if_false: after_listeners_block,
        },
    );
    cg.position_at_end(activate_for_block);
    let write_ptr = cg.read_ptr_for_field(module, state_ptr, &handle.name)?;
    let update_ptr = cg.update_ptr_for_field(
        module,
        state_ptr,
        &handle.name,
        UpdatePtrPurpose::ReadAndClear,
    )?;
    let value = update_ptr.load(cg, "value")?;
    value.store(cg, &write_ptr)?;
    fire_listeners(cg, module, state_ptr, idx)?;
    cg.emit(Instr::Br { target: after_listeners_block });
    cg.position_at_end(after_listeners_block);
    Ok(())
}

fn update_handles(cg: &mut CodegenState, module: &ModuleDecl, state_ptr: usize, bitfield: usize) -> (r:
    CodegenStatus)
    requires
        old(cg)@.positioned(),
        spec_well_formed(*module),
    ensures
        outcome(final(cg)@, r) == spec_update_handles_from(
            old(cg)@,
            *module,
            state_ptr,
            bitfield,
            0,
        ),
        r is Ok ==> final(cg)@.positioned(),
        spec_carries(
            old(cg)@,
            final(cg)@,
            spec_value_known(old(cg)@, state_ptr) && spec_value_known(old(cg)@, bitfield),
            true,
        ),
{
    let mut idx: usize = 0;
    while idx < module.handles.len()
        invariant
            idx <= module.handles.len(),
            cg@.positioned(),
            spec_well_formed(*module),
            spec_keeps(old(cg)@, cg@),
            spec_working(old(cg)@) && spec_value_known(old(cg)@, state_ptr) && spec_value_known(
                old(cg)@,
                bitfield,
            ) ==> spec_working(cg@),
            spec_update_handles_from(old(cg)@, *module, state_ptr, bitfield, 0)
                == spec_update_handles_from(cg@, *module, state_ptr, bitfield, idx as int),
        decreases module.handles.len() - idx,
    {
        update_handle(cg, module, state_ptr, bitfield, idx)?;
        idx += 1;
    }
    Ok(())
}

/// Emits the update function of `module`. Fails with `BadListenerTrigger`,
/// and emits nothing, where a listener's trigger is no handle of the
/// module; fails with `FunctionMissing` where the function of a listener
/// has not been emitted before.
#[verifier::rlimit(50)]
pub fn module_update_function(cg: &mut CodegenState, module: &ModuleDecl) -> (r: CodegenStatus)
    requires
        spec_well_formed(*module),
    ensures
        outcome(final(cg)@, r) == spec_module_update_function(old(cg)@, *module),
        !spec_triggers_valid(*module) ==> final(cg)@ == old(cg)@,
        spec_ordered(old(cg)@) ==> spec_ordered(final(cg)@),
{
    if !triggers_valid(module) {
        return Err(CodegenError::BadListenerTrigger);
    }
    begin_function(cg, module, module.fn_name());
    let state_alloca = state_alloca_for_module_function(cg, module);
    let state_ptr = cg.emit(Instr::Load { ptr: state_alloca, name: String::from_str("state_ptr") });
    let bitfield_ptr = cg.module_bitfield_ptr(module, state_ptr);
    let bitfield = cg.emit(Instr::Load { ptr: bitfield_ptr, name: String::from_str("bitfield") });
    update_handles(cg, module, state_ptr, bitfield)?;
    cg.emit(Instr::Ret);
    Ok(())
}

/// Emits the body of a listener into the function that was just begun.
pub fn listener_body_codegen(
    cg: &mut CodegenState,
    module: &ModuleDecl,
    implementation: &crate::ast::ExpressionValue,
) -> (r: CodegenStatus)
    requires
        old(cg)@.positioned(),
        spec_well_formed(*module),
    ensures
        r is Ok ==> final(cg)@.positioned(),
        ({
            let (with_alloca, state_alloca) = old(cg)@.clear_locals().state_alloca_for_module_function(
                *module,
            );
            outcome(final(cg)@, r) == match spec_expression_codegen(
                with_alloca,
                *module,
                state_alloca,
                *implementation,
            ) {
                Err(e) => Err(e),
                Ok((with_body, _)) => Ok((with_body.emit(InstrSpec::Ret), ())),
            }
        }),
        spec_working(old(cg)@) ==> spec_ordered(final(cg)@),
{
    cg.clear_locals();
    let state_alloca = state_alloca_for_module_function(cg, module);
    expression_codegen(cg, module, state_alloca, implementation)?;
    cg.emit(Instr::Ret);
    Ok(())
}

/// Emits the function of `listener`.
pub fn listener_codegen(cg: &mut CodegenState, module: &ModuleDecl, listener: &Listener) -> (r:
    CodegenStatus)
    requires
        spec_well_formed(*module),
    ensures
        outcome(final(cg)@, r) == spec_listener_codegen(old(cg)@, *module, *listener),
        spec_ordered(old(cg)@) ==> spec_ordered(final(cg)@),
{
    begin_function(cg, module, listener_fn_name(module, listener));
    listener_body_codegen(cg, module, &listener.implementation)
}

/// Emits the code of `module`: the function of each listener, then the
/// update function. Fails with `TypeMismatch` where the module is not well
/// formed, and else with the error of the first listener whose code cannot
/// be generated, or with that of the update function. The code is then
/// checked against the typing rules, entry by entry, and code that does not
/// meet them is a `TypeMismatch` too: what this function lets stand, LLVM's
/// builder takes. Where it fails, the state is left as it was: nothing of
/// the module stays behind, neither a listener's function nor the update
/// function.
pub fn module_codegen(cg: &mut CodegenState, module: &ModuleDecl) -> (r: CodegenStatus)
    ensures
        outcome(final(cg)@, r) == spec_module_codegen(old(cg)@, *module),
        r is Ok ==> spec_typed(final(cg)@.functions),
        r is Err ==> final(cg)@ == old(cg)@,
        spec_ordered(old(cg)@) ==> spec_ordered(final(cg)@),
{
    let saved = cg.duplicate();
    match emit_module_functions(cg, module) {
        Ok(()) => {
            if plan_typed(&cg.functions) {
                Ok(())
            } else {
                *cg = saved;
                Err(
                    CodegenError::TypeMismatch(
                        String::from_str("the code does not meet the typing rules"),
                    ),
                )
            }
        },
        Err(e) => {
            *cg = saved;
            Err(e)
        },
    }
}

/// Emits the function of each listener of `module`, then the update
/// function, and stops where one of them cannot be generated.
fn emit_module_functions(cg: &mut CodegenState, module: &ModuleDecl) -> (r: CodegenStatus)
    ensures
        outcome(final(cg)@, r) == spec_module_functions(old(cg)@, *module),
        spec_ordered(old(cg)@) ==> spec_ordered(final(cg)@),
{
    if !module.is_well_formed() {
        return Err(CodegenError::TypeMismatch(String::from_str("the module is not well formed")));
    }
    let mut k: usize = 0;
    while k < module.listeners.len()
        invariant
            k <= module.listeners.len(),
            spec_well_formed(*module),
            spec_ordered(old(cg)@) ==> spec_ordered(cg@),
            spec_listeners_from(old(cg)@, *module, 0) == spec_listeners_from(
                cg@,
                *module,
                k as int,
            ),
        decreases module.listeners.len() - k,
    {
        listener_codegen(cg, module, &module.listeners[k])?;
        k += 1;
    }
    module_update_function(cg, module)
}

/// The code of a module in an IR module of its own, which bears the
/// module's name.
#[verifier::opaque]
pub open spec fn spec_plan(module: ModuleDecl) -> Result<(CodegenSpec, ()), ErrorSpec> {
    spec_module_codegen(
        CodegenSpec {
            name: module.name@,
            functions: Seq::empty(),
            current: None,
            position: None,
            locals: Seq::empty(),
        },
        module,
    )
}

/// Whether `r` is what generating the code of `module` in a fresh state
/// gives.
pub open spec fn spec_planned(module: ModuleDecl, r: Result<CodegenState, CodegenError>) -> bool {
    match r {
        Ok(cg) => spec_plan(module) == Ok::<(CodegenSpec, ()), ErrorSpec>((cg@, ())),
        Err(e) => spec_plan(module) == Err::<(CodegenSpec, ()), ErrorSpec>(e@),
    }
}

/// Generates the code of `module` in a fresh state.
pub fn plan_module(module: &ModuleDecl) -> (r: CodegenResult<CodegenState>)
    ensures
        spec_planned(*module, r),
        r is Ok ==> spec_emittable(r.unwrap()@.functions),
        r is Ok ==> spec_typed(r.unwrap()@.functions),
{
    reveal(spec_plan);
    let mut cg = CodegenState::new(module.name.as_str());
    module_codegen(&mut cg, module)?;
    proof {
        reveal(spec_ordered);
    }
    Ok(cg)
}

/// The first error among the submodules of `module` from the one at `from`
/// on, in declaration order, if the code of one of them cannot be
/// generated.
pub open spec fn spec_first_submodule_error(module: ModuleDecl, from: int) -> Option<ErrorSpec>
    decreases module.submodules@.len() - from,
{
    if from < 0 || from >= module.submodules@.len() {
        None
    } else if spec_plan(module.submodules@[from].module) is Err {
        Some(spec_plan(module.submodules@[from].module)->Err_0)
    } else {
        spec_first_submodule_error(module, from + 1)
    }
}

/// The error with which generating the code of `module` and of its
/// submodules stops, if it does: that of `module` itself, or else that of
/// the first submodule whose code cannot be generated.
pub open spec fn spec_codegen_error(module: ModuleDecl) -> Option<ErrorSpec> {
    if spec_plan(module) is Err {
        Some(spec_plan(module)->Err_0)
    } else {
        spec_first_submodule_error(module, 0)
    }
}

/// Whether `plans` holds the code of `module` and then that of each of its
/// submodules, in declaration order.
pub open spec fn spec_all_planned(module: ModuleDecl, plans: Seq<CodegenState>) -> bool {
    &&& plans.len() == 1 + module.submodules@.len()
    &&& spec_plan(module) == Ok::<(CodegenSpec, ()), ErrorSpec>((plans[0]@, ()))
    &&& forall|j: int|
        0 <= j < module.submodules@.len() ==> spec_plan(
            (#[trigger] module.submodules@[j]).module,
        ) == Ok::<(CodegenSpec, ()), ErrorSpec>((plans[j + 1]@, ()))
    &&& forall|i: int|
        0 <= i < plans.len() ==> spec_emittable((#[trigger] plans[i])@.functions) && spec_typed(
            plans[i]@.functions,
        )
}

/// Generates the code of `module` and then of each of its submodules, in
/// declaration order, and stops at the first that cannot be generated.
pub fn plan_all(module: &ModuleDecl) -> (r: CodegenResult<Vec<CodegenState>>)
    ensures
        match spec_codegen_error(*module) {
            Some(e) => r is Err && r.unwrap_err()@ == e,
            None => r is Ok && spec_all_planned(*module, r.unwrap()@),
        },
{
    let mut plans: Vec<CodegenState> = Vec::new();
    plans.push(plan_module(module)?);
    let mut j: usize = 0;
    while j < module.submodules.len()
        invariant
            j <= module.submodules.len(),
            plans.len() == 1 + j,
            spec_plan(*module) == Ok::<(CodegenSpec, ()), ErrorSpec>((plans@[0]@, ())),
            spec_first_submodule_error(*module, 0) == spec_first_submodule_error(*module, j as int),
            forall|k: int|
                0 <= k < j ==> spec_plan((#[trigger] module.submodules@[k]).module) == Ok::<
                    (CodegenSpec, ()),
                    ErrorSpec,
                >((plans@[k + 1]@, ())),
            forall|i: int|
                0 <= i < plans.len() ==> spec_emittable((#[trigger] plans@[i])@.functions)
                    && spec_typed(plans@[i]@.functions),
        decreases module.submodules.len() - j,
    {
        plans.push(plan_module(&module.submodules[j].module)?);
        j += 1;
    }
    Ok(plans)
}

/// Whether the code of `module` can be generated and LLVM's builder takes
/// every entry of it.
pub open spec fn spec_plan_typed(module: ModuleDecl) -> bool {
    spec_plan(module) is Ok && spec_typed(spec_plan(module)->Ok_0.0.functions)
}

/// Code that can be generated is code that LLVM's builder takes. This
/// holds because `module_codegen` checks the code that it generated against
/// the typing rules and lets no other code stand; that the check can never
/// fail on a well-formed module is not shown here.
pub proof fn law_generated_code_is_taken(module: ModuleDecl)
    ensures
        spec_plan(module) is Ok ==> spec_plan_typed(module),
{
    reveal(spec_plan);
}

/// Generates the code of `module` and of each of its submodules and builds
/// an LLVM module for each: first that of `module`, then those of the
/// submodules in declaration order. All the code is generated before LLVM
/// is asked for any of it. Succeeds exactly where the code of every one of
/// the modules can be generated; each LLVM module then bears the name of its
/// module and was built by the calls that stand for the module's code.
/// Where the code of one of the modules cannot be generated, the error is
/// that of the first such module.
pub fn codegen<'ctx>(context: &'ctx inkwell::context::Context, module: &ModuleDecl) -> (r:
    CodegenResult<Vec<inkwell::module::Module<'ctx>>>)
    ensures
        match spec_codegen_error(*module) {
            Some(e) => r is Err && r->Err_0@ == e,
            None => r is Ok && r->Ok_0.len() == 1 + module.submodules.len(),
        },
        r is Ok ==> {
            &&& spec_holds(r->Ok_0@[0], module.name@, spec_plan(*module)->Ok_0.0.functions)
            &&& forall|i: int|
                1 <= i < r->Ok_0@.len() ==> spec_holds(
                    #[trigger] r->Ok_0@[i],
                    module.submodules@[i - 1].module.name@,
                    spec_plan(module.submodules@[i - 1].module)->Ok_0.0.functions,
                )
        },
{
    let plans = plan_all(module)?;
    proof {
        assert(spec_plan(*module)->Ok_0.0 == plans@[0]@);
        assert(spec_emittable(plans@[0]@.functions) && spec_typed(plans@[0]@.functions));
    }
    let mut result: Vec<inkwell::module::Module<'ctx>> = Vec::new();
    result.push(emit_named(context, module.name.as_str(), &plans[0])?);
    let mut j: usize = 0;
    while j < module.submodules.len()
        invariant
            j <= module.submodules.len(),
            result.len() == 1 + j,
            spec_all_planned(*module, plans@),
            spec_codegen_error(*module) is None,
            spec_holds(result@[0], module.name@, spec_plan(*module)->Ok_0.0.functions),
            forall|i: int|
                1 <= i < result@.len() ==> spec_holds(
                    #[trigger] result@[i],
                    module.submodules@[i - 1].module.name@,
                    spec_plan(module.submodules@[i - 1].module)->Ok_0.0.functions,
                ),
        decreases module.submodules.len() - j,
    {
        proof {
            assert(spec_plan(module.submodules@[j as int].module)->Ok_0.0 == plans@[j + 1]@);
            assert(spec_emittable(plans@[j + 1]@.functions) && spec_typed(
                plans@[j + 1]@.functions,
            ));
        }
        let ghost earlier = result@;
        result.push(
            emit_named(context, module.submodules[j].module.name.as_str(), &plans[j + 1])?,
        );
        proof {
            assert forall|i: int| 1 <= i < result@.len() implies spec_holds(
                #[trigger] result@[i],
                module.submodules@[i - 1].module.name@,
                spec_plan(module.submodules@[i - 1].module)->Ok_0.0.functions,
            ) by {
                if i < earlier.len() {
                    assert(result@[i] == earlier[i]);
                }
            }
            assert(result@[0] == earlier[0]);
        }
        j += 1;
    }
    Ok(result)
}

} // verus!
