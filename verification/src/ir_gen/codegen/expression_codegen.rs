//! Lowering of expressions to instructions.

use crate::ast::{
    CopyToSubModuleInfo, ExpressionValue, IfExpression, ModuleDecl, ModuleInfo, Operator,
    OutputExpression,
};
use crate::ir_gen::codegen::expression_type::{expression_type, spec_expression_type};
use crate::ir_gen::codegen::runtime::malloc;
use crate::ir_gen::codegen::{append_new_block, flow_to_new_block, invoke_submodule};
use crate::ir_gen::codegen_state::{
    handle_bit, outcome, CodegenError, CodegenResult, CodegenSpec, CodegenState, CodegenStatus,
    ErrorSpec, UpdatePtrPurpose,
};
use crate::ir_gen::ir::{BinaryOp, Instr, InstrSpec, IrType, IrTypeSpec, Predicate};
use crate::ir_gen::order::{
    spec_block_known, spec_carries, spec_keeps, spec_known, spec_value_known, spec_working,
};
use crate::ir_gen::primitives::{PrimitiveSpec, TypePrimitive};
use crate::ir_gen::state_values::{StateValue, StateValueSpec};
use crate::ir_gen::types::spec_well_formed;
use vstd::prelude::*;
use vstd::string::*;

verus! {

/// The 64-bit pattern of a signed integer.
pub open spec fn spec_bit_pattern(n: i64) -> u64 {
    if n >= 0 {
        n as u64
    } else {
        (n + 0x1_0000_0000_0000_0000) as u64
    }
}

/// The code for one output handle of a submodule inside the fixpoint loop:
/// where the handle's bit is set in `bitfield`, its pending value is stored
/// to the parent handle that the wiring names, whose bit is set; the child's
/// bit stays as it is.
pub open spec fn spec_maybe_copy_back(
    state: CodegenSpec,
    module: ModuleDecl,
    state_ptr: usize,
    submodule_info: ModuleInfo,
    submodule_state_ptr: usize,
    bitfield: usize,
    index: int,
) -> Result<(CodegenSpec, ()), ErrorSpec> {
    let mask = state.emit(InstrSpec::ConstInt { bits: 64, constant: handle_bit(index) });
    let test = mask.emit(
        InstrSpec::Binary { op: BinaryOp::And, lhs: bitfield, rhs: state.next_id(), name: "test"@ },
    );
    let zero = test.emit(InstrSpec::ConstInt { bits: 64, constant: 0 });
    let needs_copy = zero.emit(
        InstrSpec::Compare {
            predicate: Predicate::NotEqual,
            lhs: mask.next_id(),
            rhs: test.next_id(),
            name: "needs_copy"@,
        },
    );
    match needs_copy.append_new_block("do_copy"@) {
        Err(e) => Err(e),
        Ok((with_copy, do_copy)) => match with_copy.append_new_block("after_copy"@) {
            Err(e) => Err(e),
            Ok((with_after, after_copy)) => {
                let branched = with_after.emit(
                    InstrSpec::CondBr {
                        condition: zero.next_id(),
                        if_true: do_copy,
                        if_false: after_copy,
                    },
                ).position_at_end(do_copy);
                let src_name = submodule_info.module.handles@[index].name@;
                match branched.update_ptr_for_field(
                    submodule_info.module,
                    submodule_state_ptr,
                    src_name,
                    UpdatePtrPurpose::ReadWithoutClearing,
                ) {
                    Err(e) => Err(e),
                    Ok((with_src, src)) => match submodule_info.spec_parent_of(src_name) {
                        None => Err(ErrorSpec::BadReadFieldName(src_name)),
                        Some(dest_name) => match with_src.update_ptr_for_field(
                            module,
                            state_ptr,
                            dest_name,
                            UpdatePtrPurpose::WriteAndSet,
                        ) {
                            Err(e) => Err(e),
                            Ok((with_dest, dest)) => match with_dest.load_update(src, "value"@) {
                                Err(e) => Err(e),
                                Ok((loaded, value)) => match loaded.store_update(value, dest) {
                                    Err(e) => Err(e),
                                    Ok((stored, _)) => Ok(
                                        (
                                            stored.emit(
                                                InstrSpec::Br { target: after_copy },
                                            ).position_at_end(after_copy),
                                            (),
                                        ),
                                    ),
                                },
                            },
                        },
                    },
                }
            },
        },
    }
}

/// The code of `spec_maybe_copy_back` for each output handle of the
/// submodule from position `from` on, in declaration order.
pub open spec fn spec_copy_back_from(
    state: CodegenSpec,
    module: ModuleDecl,
    state_ptr: usize,
    submodule_info: ModuleInfo,
    submodule_state_ptr: usize,
    bitfield: usize,
    from: int,
) -> Result<(CodegenSpec, ()), ErrorSpec>
    decreases submodule_info.module.handles@.len() - from,
{
    if from < 0 || from >= submodule_info.module.handles@.len() {
        Ok((state, ()))
    } else if submodule_info.module.handles@[from].spec_is_output() {
        match spec_maybe_copy_back(
            state,
            module,
            state_ptr,
            submodule_info,
            submodule_state_ptr,
            bitfield,
            from,
        ) {
            Err(e) => Err(e),
            Ok((copied, _)) => spec_copy_back_from(
                copied,
                module,
                state_ptr,
                submodule_info,
                submodule_state_ptr,
                bitfield,
                from + 1,
            ),
        }
    } else {
        spec_copy_back_from(
            state,
            module,
            state_ptr,
            submodule_info,
            submodule_state_ptr,
            bitfield,
            from + 1,
        )
    }
}

/// The code for a copy into a submodule: the parent's current value goes to
/// the child's update slot and sets the child's bit; then a loop calls the
/// child's update function and leaves only once the child's bitfield reads
/// zero, copying the child's pending outputs to the parent on every other
/// round. The code stands in the order in which it runs.
pub open spec fn spec_copy_to_submodule(
    state: CodegenSpec,
    module: ModuleDecl,
    state_alloca: usize,
    info: CopyToSubModuleInfo,
) -> Result<(CodegenSpec, StateValueSpec), ErrorSpec> {
    let with_state = state.emit(InstrSpec::Load { ptr: state_alloca, name: "state_ptr"@ });
    let state_ptr = state.next_id();
    match with_state.read_ptr_for_field(module, state_ptr, info.state@) {
        Err(e) => Err(e),
        Ok((with_from, from_value_ptr)) => match with_from.submodule_ptr(
            module,
            state_ptr,
            info.submodule_index,
        ) {
            Err(e) => Err(e),
            Ok((with_sub, submodule_state_ptr)) => {
                let submodule_info = module.submodules@[info.submodule_index as int];
                match with_sub.update_ptr_for_field(
                    submodule_info.module,
                    submodule_state_ptr,
                    info.submodule_state@,
                    UpdatePtrPurpose::WriteAndSet,
                ) {
                    Err(e) => Err(e),
                    Ok((with_to, to_update_ptr)) => match with_to.load_value(
                        from_value_ptr,
                        "value"@,
                    ) {
                        Err(e) => Err(e),
                        Ok((loaded, value)) => match loaded.store_update(value, to_update_ptr) {
                            Err(e) => Err(e),
                            Ok((stored, _)) => spec_fixpoint_loop(
                                stored,
                                module,
                                state_ptr,
                                submodule_info,
                                submodule_state_ptr,
                            ),
                        },
                    },
                }
            },
        }
    }
}

/// The head of the loop of `spec_copy_to_submodule`: in a block of its
/// own, a call of the child's update function, a read of the child's
/// bitfield, and a branch that leaves the loop where the bitfield is zero.
/// The builder ends up in the block that the branch takes otherwise. The
/// result names the loop's first block, the entry that holds the bitfield,
/// and the block behind the loop.
pub open spec fn spec_loop_head(state: CodegenSpec, submodule: ModuleDecl, submodule_state_ptr: usize)
    -> Result<(CodegenSpec, (usize, usize, usize)), ErrorSpec> {
    match state.flow_to_new_block("invoke_loop_start"@) {
        Err(e) => Err(e),
        Ok((in_loop, invoke_loop_start)) => {
            let invoked = in_loop.invoke_submodule(submodule, submodule_state_ptr);
            let (with_ptr, bitfield_ptr) = invoked.module_bitfield_ptr(
                submodule,
                submodule_state_ptr,
            );
            let with_bitfield = with_ptr.emit(
                InstrSpec::Load { ptr: bitfield_ptr, name: "bitfield"@ },
            );
            let zero = with_bitfield.emit(InstrSpec::ConstInt { bits: 64, constant: 0 });
            let has_update = zero.emit(
                InstrSpec::Compare {
                    predicate: Predicate::NotEqual,
                    lhs: with_ptr.next_id(),
                    rhs: with_bitfield.next_id(),
                    name: "has_update"@,
                },
            );
            match has_update.append_new_block("copy_back"@) {
                Err(e) => Err(e),
                Ok((with_copy_back, copy_back)) => match with_copy_back.append_new_block(
                    "updates_complete"@,
                ) {
                    Err(e) => Err(e),
                    Ok((with_complete, updates_complete)) => Ok(
                        (
                            with_complete.emit(
                                InstrSpec::CondBr {
                                    condition: zero.next_id(),
                                    if_true: copy_back,
                                    if_false: updates_complete,
                                },
                            ).position_at_end(copy_back),
                            (invoke_loop_start, with_ptr.next_id(), updates_complete),
                        ),
                    ),
                },
            }
        },
    }
}

/// The loop of `spec_copy_to_submodule`: its head, the code that drains
/// the child's outputs, and a branch back to the head.
pub open spec fn spec_fixpoint_loop(
    state: CodegenSpec,
    module: ModuleDecl,
    state_ptr: usize,
    submodule_info: ModuleInfo,
    submodule_state_ptr: usize,
) -> Result<(CodegenSpec, StateValueSpec), ErrorSpec> {
    match spec_loop_head(state, submodule_info.module, submodule_state_ptr) {
        Err(e) => Err(e),
        Ok((in_copy_back, (invoke_loop_start, bitfield, updates_complete))) => match spec_copy_back_from(
            in_copy_back,
            module,
            state_ptr,
            submodule_info,
            submodule_state_ptr,
            bitfield,
            0,
        ) {
            Err(e) => Err(e),
            Ok((copied, _)) => Ok(
                (
                    copied.emit(InstrSpec::Br { target: invoke_loop_start }).position_at_end(
                        updates_complete,
                    ),
                    StateValueSpec::Nothing,
                ),
            ),
        },
    }
}

/// The code of the expressions from `from` on, one after the other; the
/// value is that of the last, or `last` if there is none.
pub open spec fn spec_block_from(
    state: CodegenSpec,
    module: ModuleDecl,
    state_alloca: usize,
    expressions: Seq<ExpressionValue>,
    from: int,
    last: StateValueSpec,
) -> Result<(CodegenSpec, StateValueSpec), ErrorSpec>
    decreases expressions, expressions.len() - from,
{
    if from < 0 || from >= expressions.len() {
        Ok((state, last))
    } else {
        match spec_expression_codegen(state, module, state_alloca, expressions[from]) {
            Err(e) => Err(e),
            Ok((after, value)) => spec_block_from(
                after,
                module,
                state_alloca,
                expressions,
                from + 1,
                value,
            ),
        }
    }
}

/// The code that computes the entries from `from` on and stores each to
/// its field of `tuple`.
pub open spec fn spec_fill_tuple_from(
    state: CodegenSpec,
    module: ModuleDecl,
    state_alloca: usize,
    entries: Seq<ExpressionValue>,
    from: int,
    tuple: StateValueSpec,
) -> Result<(CodegenSpec, StateValueSpec), ErrorSpec>
    decreases entries, entries.len() - from,
{
    if from < 0 || from >= entries.len() {
        Ok((state, tuple))
    } else if from > u32::MAX {
        Err(ErrorSpec::TypeMismatch)
    } else {
        match spec_expression_codegen(state, module, state_alloca, entries[from]) {
            Err(e) => Err(e),
            Ok((computed, value)) => match computed.set_tuple_index(tuple, from as u32, value) {
                Err(e) => Err(e),
                Ok((stored, _)) => spec_fill_tuple_from(
                    stored,
                    module,
                    state_alloca,
                    entries,
                    from + 1,
                    tuple,
                ),
            },
        }
    }
}

/// The code for an output: the value is computed; where the output has a
/// name, the value is stored to that handle's update slot, which sets the
/// handle's bit; where the output returns, a return follows, and what comes
/// after it goes to a block of its own.
pub open spec fn spec_output(
    state: CodegenSpec,
    module: ModuleDecl,
    state_alloca: usize,
    output: OutputExpression,
) -> Result<(CodegenSpec, StateValueSpec), ErrorSpec>
    decreases output, 0nat,
{
    match spec_expression_codegen(state, module, state_alloca, *output.expression) {
        Err(e) => Err(e),
        Ok((computed, value)) => {
            let written = if output.output@.len() > 0 {
                let with_state = computed.emit(
                    InstrSpec::Load { ptr: state_alloca, name: "state_ptr"@ },
                );
                match with_state.update_ptr_for_field(
                    module,
                    computed.next_id(),
                    output.output@,
                    UpdatePtrPurpose::WriteAndSet,
                ) {
                    Err(e) => Err(e),
                    Ok((with_ptr, update_ptr)) => with_ptr.store_update(value, update_ptr),
                }
            } else {
                Ok((computed, ()))
            };
            match written {
                Err(e) => Err(e),
                Ok((stored, _)) => if output.and_return {
                    match stored.emit(InstrSpec::Ret).append_new_block("after_return"@) {
                        Err(e) => Err(e),
                        Ok((with_block, block)) => Ok((with_block.position_at_end(block), value)),
                    }
                } else {
                    Ok((stored, value))
                },
            }
        },
    }
}

/// The head of a conditional: the test is compared with zero, the blocks
/// for the two arms and for what follows are appended, and the builder moves
/// to the first arm. The result names the three blocks.
pub open spec fn spec_if_begin(state: CodegenSpec, test: StateValueSpec) -> Result<
    (CodegenSpec, (usize, usize, usize)),
    ErrorSpec,
> {
    match test.int_value() {
        None => Err(ErrorSpec::TypeMismatch),
        Some(test_as_int) => {
            let zero = state.emit(InstrSpec::ConstInt { bits: test.int_bits(), constant: 0 });
            let compared = zero.emit(
                InstrSpec::Compare {
                    predicate: Predicate::NotEqual,
                    lhs: test_as_int,
                    rhs: state.next_id(),
                    name: "if_true"@,
                },
            );
            match compared.append_new_block("if_true_block"@) {
                Err(e) => Err(e),
                Ok((with_true, if_true)) => match with_true.append_new_block("if_false_block"@) {
                    Err(e) => Err(e),
                    Ok((with_false, if_false)) => match with_false.append_new_block("after_if"@) {
                        Err(e) => Err(e),
                        Ok((with_after, after_if)) => Ok(
                            (
                                with_after.emit(
                                    InstrSpec::CondBr {
                                        condition: zero.next_id(),
                                        if_true,
                                        if_false,
                                    },
                                ).position_at_end(if_true),
                                (if_true, if_false, after_if),
                            ),
                        ),
                    },
                },
            }
        },
    }
}

/// The end of an arm of a conditional: a branch to `join`, after which the
/// builder moves to `next`.
pub open spec fn spec_leave_arm(state: CodegenSpec, join: usize, next: usize) -> CodegenSpec {
    state.emit(InstrSpec::Br { target: join }).position_at_end(next)
}

/// The code for a conditional: each arm runs in a block of its own and
/// branches to a common block behind both; there the values of the arms are
/// merged, unless the first arm has none.
pub open spec fn spec_if(
    state: CodegenSpec,
    module: ModuleDecl,
    state_alloca: usize,
    conditional: IfExpression,
) -> Result<(CodegenSpec, StateValueSpec), ErrorSpec>
    decreases conditional, 0nat,
{
    match spec_expression_codegen(state, module, state_alloca, *conditional.test) {
        Err(e) => Err(e),
        Ok((tested, test)) => match spec_if_begin(tested, test) {
            Err(e) => Err(e),
            Ok((in_true, (if_true, if_false, after_if))) => match spec_expression_codegen(
                in_true,
                module,
                state_alloca,
                *conditional.if_true,
            ) {
                Err(e) => Err(e),
                Ok((done_true, result_if_true)) => match spec_expression_codegen(
                    spec_leave_arm(done_true, after_if, if_false),
                    module,
                    state_alloca,
                    *conditional.if_false,
                ) {
                    Err(e) => Err(e),
                    Ok((done_false, result_if_false)) => {
                        let joined = spec_leave_arm(done_false, after_if, after_if);
                        if result_if_true is Nothing {
                            Ok((joined, StateValueSpec::Nothing))
                        } else {
                            joined.merge(
                                result_if_true,
                                done_true.position.unwrap(),
                                result_if_false,
                                done_false.position.unwrap(),
                            )
                        }
                    },
                },
            },
        },
    }
}

/// The head of a short-circuit operator: the blocks for the right side and
/// for what follows are appended; a branch on the left side, which has to
/// be a truth value, skips the right side where the left side decides; the
/// builder moves to the right side's block. The result names the two
/// blocks.
pub open spec fn spec_logical_begin(state: CodegenSpec, lhs_value: StateValueSpec, is_or: bool)
    -> Result<(CodegenSpec, (usize, usize)), ErrorSpec> {
    if !(lhs_value is Bool) {
        Err(ErrorSpec::TypeMismatch)
    } else {
        match state.append_new_block(
            if is_or {
                "lhs_false"@
            } else {
                "lhs_true"@
            },
        ) {
            Err(e) => Err(e),
            Ok((with_rhs_block, rhs_block)) => match with_rhs_block.append_new_block(
                "end_of_test"@,
            ) {
                Err(e) => Err(e),
                Ok((with_end, end_of_test)) => Ok(
                    (
                        with_end.emit(
                            InstrSpec::CondBr {
                                condition: lhs_value->Bool_0,
                                if_true: if is_or {
                                    end_of_test
                                } else {
                                    rhs_block
                                },
                                if_false: if is_or {
                                    rhs_block
                                } else {
                                    end_of_test
                                },
                            },
                        ).position_at_end(rhs_block),
                        (rhs_block, end_of_test),
                    ),
                ),
            },
        }
    }
}

/// The tail of a short-circuit operator: the right side, which has to be a
/// truth value, branches to the end, where a phi picks the left side if
/// control comes from `lhs_block` and the right side otherwise.
pub open spec fn spec_logical_end(
    state: CodegenSpec,
    lhs_value: StateValueSpec,
    lhs_block: usize,
    rhs_value: StateValueSpec,
    end_of_test: usize,
    is_or: bool,
) -> Result<(CodegenSpec, StateValueSpec), ErrorSpec> {
    if !(rhs_value is Bool) {
        Err(ErrorSpec::TypeMismatch)
    } else {
        let joined = spec_leave_arm(state, end_of_test, end_of_test);
        Ok(
            (
                joined.emit(
                    InstrSpec::Phi {
                        ty: IrTypeSpec::Int(1),
                        incoming: seq![
                            (lhs_value.first_part(), lhs_block),
                            (rhs_value.first_part(), state.position.unwrap()),
                        ],
                        name: if is_or {
                            "logical-or-result"@
                        } else {
                            "logical-and-result"@
                        },
                    },
                ),
                StateValueSpec::Bool(joined.next_id()),
            ),
        )
    }
}

/// The code for a short-circuit operator on the values of `lhs` and `rhs`.
pub open spec fn spec_expression_logical(
    state: CodegenSpec,
    module: ModuleDecl,
    state_alloca: usize,
    lhs: ExpressionValue,
    rhs: ExpressionValue,
    is_or: bool,
) -> Result<(CodegenSpec, StateValueSpec), ErrorSpec> {
    match spec_expression_codegen(state, module, state_alloca, lhs) {
        Err(e) => Err(e),
        Ok((with_lhs, lhs_value)) => match spec_logical_begin(with_lhs, lhs_value, is_or) {
            Err(e) => Err(e),
            Ok((in_rhs, (rhs_block, end_of_test))) => match spec_expression_codegen(
                in_rhs,
                module,
                state_alloca,
                rhs,
            ) {
                Err(e) => Err(e),
                Ok((with_rhs, rhs_value)) => spec_logical_end(
                    with_rhs,
                    lhs_value,
                    with_lhs.position.unwrap(),
                    rhs_value,
                    end_of_test,
                    is_or,
                ),
            },
        },
    }
}

/// The code for a binary operation. The logical operators short-circuit;
/// equality and the two strict orderings compute both sides and compare;
/// no other operator has code.
pub open spec fn spec_binary(
    state: CodegenSpec,
    module: ModuleDecl,
    state_alloca: usize,
    expression: ExpressionValue,
) -> Result<(CodegenSpec, StateValueSpec), ErrorSpec>
    decreases expression, 1nat,
{
    match expression {
        ExpressionValue::BinaryOperator(lhs, op, rhs) => match spec_expression_codegen(
            state,
            module,
            state_alloca,
            *lhs,
        ) {
            Err(e) => Err(e),
            Ok((with_lhs, lhs_value)) => if op.spec_is_logical() {
                let is_or = op == Operator::LogicalOr;
                match spec_logical_begin(with_lhs, lhs_value, is_or) {
                    Err(e) => Err(e),
                    Ok((in_rhs, (rhs_block, end_of_test))) => match spec_expression_codegen(
                        in_rhs,
                        module,
                        state_alloca,
                        *rhs,
                    ) {
                        Err(e) => Err(e),
                        Ok((with_rhs, rhs_value)) => spec_logical_end(
                            with_rhs,
                            lhs_value,
                            with_lhs.position.unwrap(),
                            rhs_value,
                            end_of_test,
                            is_or,
                        ),
                    },
                }
            } else {
                match spec_expression_codegen(with_lhs, module, state_alloca, *rhs) {
                    Err(e) => Err(e),
                    Ok((with_rhs, rhs_value)) => match op {
                        Operator::Equality => with_rhs.equals(lhs_value, rhs_value),
                        Operator::LessThan => with_rhs.ordered(lhs_value, rhs_value, true),
                        Operator::GreaterThan => with_rhs.ordered(lhs_value, rhs_value, false),
                        _ => Err(ErrorSpec::TypeMismatch),
                    },
                }
            },
        },
        _ => Err(ErrorSpec::TypeMismatch),
    }
}

/// What a call of a built-in function does with the value of its argument:
/// `new` allocates as many bytes as the value says and gives the memory
/// region; `size` gives the value's size.
pub open spec fn spec_apply_function(state: CodegenSpec, name: Seq<char>, value: StateValueSpec)
    -> Result<(CodegenSpec, StateValueSpec), ErrorSpec> {
    if name == "new"@ {
        match value {
            StateValueSpec::Int(size) => {
                let (allocated, data) = state.malloc(size, "mem_region_location"@);
                Ok((allocated, StateValueSpec::MemRegion { data, size }))
            },
            _ => Err(ErrorSpec::TypeMismatch),
        }
    } else if name == "size"@ {
        state.size_of_value(value)
    } else {
        Err(ErrorSpec::UnknownFunctionCall(name))
    }
}

/// The code for a name: the local of that name, or else a load of the
/// current slot of the handle of that name.
pub open spec fn spec_reference(
    state: CodegenSpec,
    module: ModuleDecl,
    state_alloca: usize,
    field: Seq<char>,
) -> Result<(CodegenSpec, StateValueSpec), ErrorSpec> {
    match state.get_local(field) {
        Some(local) => Ok((state, local)),
        None => {
            let with_state = state.emit(InstrSpec::Load { ptr: state_alloca, name: "state_ptr"@ });
            match with_state.read_ptr_for_field(module, state.next_id(), field) {
                Err(e) => Err(e),
                Ok((with_ptr, value_ptr)) => with_ptr.load_value(
                    value_ptr,
                    "ref_to_state_"@ + field,
                ),
            }
        },
    }
}

/// Whether the text holds the character zero. A module-level constant
/// ends at its first zero byte, so such a text cannot be a literal.
pub open spec fn spec_has_nul(text: Seq<char>) -> bool {
    exists|i: int| 0 <= i < text.len() && #[trigger] text[i] == '\0'
}

/// Whether the text holds the character zero.
pub fn has_nul(text: &String) -> (r: bool)
    ensures
        r == spec_has_nul(text@),
{
    let length = text.as_str().unicode_len();
    let mut i: usize = 0;
    while i < length
        invariant
            i <= length,
            length == text@.len(),
            forall|j: int| 0 <= j < i ==> #[trigger] text@[j] != '\0',
        decreases length - i,
    {
        if text.as_str().get_char(i) == '\0' {
            return true;
        }
        i += 1;
    }
    false
}

/// The number of bytes that a text takes in UTF-8.
pub open spec fn spec_byte_length(text: Seq<char>) -> u64 {
    (vstd::utf8::encode_utf8(text).len() as usize) as u64
}

/// The code for a string literal: a module-level constant with the text,
/// as a dynamic array of characters whose size is the text's length in
/// bytes.
pub open spec fn spec_string_literal(state: CodegenSpec, literal: Seq<char>) -> (
    CodegenSpec,
    StateValueSpec,
) {
    let size = state.emit(
        InstrSpec::ConstInt {
            bits: 64,
            constant: spec_byte_length(literal),
        },
    );
    (
        size.emit(InstrSpec::GlobalString { text: literal, name: "literal"@ }),
        StateValueSpec::DynamicArray {
            data: size.next_id(),
            size: state.next_id(),
            elem_type: seq![PrimitiveSpec::Char],
        },
    )
}

/// The code that `expression` lowers to, appended to the function being
/// emitted, and the value it leaves.
pub open spec fn spec_expression_codegen(
    state: CodegenSpec,
    module: ModuleDecl,
    state_alloca: usize,
    expression: ExpressionValue,
) -> Result<(CodegenSpec, StateValueSpec), ErrorSpec>
    decreases expression, 2nat,
{
    match expression {
        ExpressionValue::Output(output) => spec_output(state, module, state_alloca, output),
        ExpressionValue::Block(expressions) => spec_block_from(
            state,
            module,
            state_alloca,
            expressions@,
            0,
            StateValueSpec::Nothing,
        ),
        ExpressionValue::Let(binding) => match spec_expression_codegen(
            state,
            module,
            state_alloca,
            *binding.expression,
        ) {
            Err(e) => Err(e),
            Ok((computed, value)) => Ok((computed.add_local(binding.var_name@, value), value)),
        },
        ExpressionValue::If(conditional) => spec_if(state, module, state_alloca, conditional),
        ExpressionValue::While(_) => Err(ErrorSpec::TypeMismatch),
        ExpressionValue::Empty => Ok((state, StateValueSpec::Nothing)),
        ExpressionValue::Break => Err(ErrorSpec::TypeMismatch),
        ExpressionValue::IntLiteral(literal) => Ok(
            (
                state.emit(InstrSpec::ConstInt { bits: 64, constant: spec_bit_pattern(literal) }),
                StateValueSpec::Int(state.next_id()),
            ),
        ),
        ExpressionValue::StringLiteral(literal) => if spec_has_nul(literal@) {
            Err(ErrorSpec::TypeMismatch)
        } else {
            Ok(spec_string_literal(state, literal@))
        },
        ExpressionValue::CharLiteral(literal) => Ok(
            (
                state.emit(InstrSpec::ConstInt { bits: 8, constant: literal as u64 }),
                StateValueSpec::Char(state.next_id()),
            ),
        ),
        ExpressionValue::ArrayLookup(array, index) => match spec_expression_codegen(
            state,
            module,
            state_alloca,
            *array,
        ) {
            Err(e) => Err(e),
            Ok((with_array, array_value)) => match spec_expression_codegen(
                with_array,
                module,
                state_alloca,
                *index,
            ) {
                Err(e) => Err(e),
                Ok((with_index, index_value)) => with_index.array_lookup(array_value, index_value),
            },
        },
        ExpressionValue::Tuple(entries) => match spec_expression_type(state, module, expression) {
            Err(e) => Err(e),
            Ok(tuple_type) => match state.new_tuple(tuple_type) {
                Err(e) => Err(e),
                Ok((allocated, tuple)) => spec_fill_tuple_from(
                    allocated,
                    module,
                    state_alloca,
                    entries@,
                    0,
                    tuple,
                ),
            },
        },
        ExpressionValue::TupleLookup(tuple, pos) => match spec_expression_codegen(
            state,
            module,
            state_alloca,
            *tuple,
        ) {
            Err(e) => Err(e),
            Ok((computed, value)) => if pos > u32::MAX {
                Err(ErrorSpec::TypeMismatch)
            } else {
                computed.get_tuple_index(value, pos as u32)
            },
        },
        ExpressionValue::ReferenceToState(field) => spec_reference(
            state,
            module,
            state_alloca,
            field@,
        ),
        ExpressionValue::CopyToSubModule(info) => spec_copy_to_submodule(
            state,
            module,
            state_alloca,
            info,
        ),
        ExpressionValue::FunctionCall(name, argument) => match spec_expression_codegen(
            state,
            module,
            state_alloca,
            *argument,
        ) {
            Err(e) => Err(e),
            Ok((computed, value)) => spec_apply_function(computed, name@, value),
        },
        ExpressionValue::BinaryOperator(_, _, _) => spec_binary(
            state,
            module,
            state_alloca,
            expression,
        ),
    }
}

/// The 64-bit pattern of a signed integer.
fn bit_pattern(n: i64) -> (r: u64)
    ensures
        r == spec_bit_pattern(n),
{
    if n >= 0 {
        n as u64
    } else {
        u64::MAX - ((-(n + 1)) as u64)
    }
}

/// Emits, for the output handle at `index` of a submodule, the test of the
/// handle's bit in `bitfield` and the copy of its pending value to the
/// parent handle that the wiring names. Fails with `BadReadFieldName` where
/// the wiring has no parent for the handle or names one that `module` does
/// not have.
#[verifier::rlimit(40)]
pub fn maybe_copy_back_to_module(
    cg: &mut CodegenState,
    module: &ModuleDecl,
    state_ptr: usize,
    submodule_info: &ModuleInfo,
    submodule_state_ptr: usize,
    bitfield: usize,
    index: usize,
) -> (r: CodegenStatus)
    requires
        old(cg)@.positioned(),
        spec_well_formed(*module),
        spec_well_formed(submodule_info.module),
        index < submodule_info.module.handles@.len(),
    ensures
        outcome(final(cg)@, r) == spec_maybe_copy_back(
            old(cg)@,
            *module,
            state_ptr,
            *submodule_info,
            submodule_state_ptr,
            bitfield,
            index as int,
        ),
        r is Ok ==> final(cg)@.positioned(),
        spec_carries(
            old(cg)@,
            final(cg)@,
            spec_value_known(old(cg)@, state_ptr)
                && spec_value_known(old(cg)@, submodule_state_ptr)
                && spec_value_known(old(cg)@, bitfield),
            true,
        ),
{
    let mask = cg.uint_const(1u64 << (index as u64));
    let test = cg.emit(
        Instr::Binary { op: BinaryOp::And, lhs: bitfield, rhs: mask, name: String::from_str("test") },
    );
    let zero = cg.uint_const(0);
    let needs_copy = cg.emit(
        Instr::Compare {
            predicate: Predicate::NotEqual,
            lhs: test,
            rhs: zero,
            name: String::from_str("needs_copy"),
        },
    );
    let do_copy = append_new_block(cg, "do_copy")?;
    let after_copy = append_new_block(cg, "after_copy")?;
    cg.emit(Instr::CondBr { condition: needs_copy, if_true: do_copy, if_false: after_copy });
    cg.position_at_end(do_copy);
    let src_name = &submodule_info.module.handles[index].name;
    let src_ptr = cg.update_ptr_for_field(
        &submodule_info.module,
        submodule_state_ptr,
        src_name,
        UpdatePtrPurpose::ReadWithoutClearing,
    )?;
    let dest_name = match submodule_info.parent_of(src_name) {
        Some(name) => name,
        None => {
            return Err(CodegenError::BadReadFieldName(src_name.clone()));
        },
    };
    let dest_ptr = cg.update_ptr_for_field(
        module,
        state_ptr,
        dest_name,
        UpdatePtrPurpose::WriteAndSet,
    )?;
    let value = src_ptr.load(cg, "value")?;
    dest_ptr.store(cg, &value)?;
    cg.emit(Instr::Br { target: after_copy });
    cg.position_at_end(after_copy);
    Ok(())
}

fn copy_back(
    cg: &mut CodegenState,
    module: &ModuleDecl,
    state_ptr: usize,
    submodule_info: &ModuleInfo,
    submodule_state_ptr: usize,
    bitfield: usize,
) -> (r: CodegenStatus)
    requires
        old(cg)@.positioned(),
        spec_well_formed(*module),
        spec_well_formed(submodule_info.module),
    ensures
        outcome(final(cg)@, r) == spec_copy_back_from(
            old(cg)@,
            *module,
            state_ptr,
            *submodule_info,
            submodule_state_ptr,
            bitfield,
            0,
        ),
        r is Ok ==> final(cg)@.positioned(),
        spec_carries(
            old(cg)@,
            final(cg)@,
            spec_value_known(old(cg)@, state_ptr)
                && spec_value_known(old(cg)@, submodule_state_ptr)
                && spec_value_known(old(cg)@, bitfield),
            true,
        ),
{
    let mut idx: usize = 0;
    while idx < submodule_info.module.handles.len()
        invariant
            idx <= submodule_info.module.handles.len(),
            cg@.positioned(),
            spec_well_formed(*module),
            spec_well_formed(submodule_info.module),
            spec_keeps(old(cg)@, cg@),
            spec_working(old(cg)@) && spec_value_known(old(cg)@, state_ptr) && spec_value_known(
                old(cg)@,
                submodule_state_ptr,
            ) && spec_value_known(old(cg)@, bitfield) ==> spec_working(cg@),
            spec_copy_back_from(
                old(cg)@,
                *module,
                state_ptr,
                *submodule_info,
                submodule_state_ptr,
                bitfield,
                0,
            ) == spec_copy_back_from(
                cg@,
                *module,
                state_ptr,
                *submodule_info,
                submodule_state_ptr,
                bitfield,
                idx as int,
            ),
        decreases submodule_info.module.handles.len() - idx,
    {
        if submodule_info.module.handles[idx].is_output() {
            maybe_copy_back_to_module(
                cg,
                module,
                state_ptr,
                submodule_info,
                submodule_state_ptr,
                bitfield,
                idx,
            )?;
        }
        idx += 1;
    }
    Ok(())
}

#[verifier::rlimit(40)]
fn fixpoint_loop(
    cg: &mut CodegenState,
    module: &ModuleDecl,
    state_ptr: usize,
    submodule_info: &ModuleInfo,
    submodule_state_ptr: usize,
) -> (r: CodegenResult<StateValue>)
    requires
        old(cg)@.positioned(),
        spec_well_formed(*module),
        spec_well_formed(submodule_info.module),
    ensures
        outcome(final(cg)@, r) == spec_fixpoint_loop(
            old(cg)@,
            *module,
            state_ptr,
            *submodule_info,
            submodule_state_ptr,
        ),
        r is Ok ==> final(cg)@.positioned(),
        spec_carries(
            old(cg)@,
            final(cg)@,
            spec_value_known(old(cg)@, state_ptr)
                && spec_value_known(old(cg)@, submodule_state_ptr),
            true,
        ),
{
    let invoke_loop_start = flow_to_new_block(cg, "invoke_loop_start")?;
    invoke_submodule(cg, &submodule_info.module, submodule_state_ptr);
    let bitfield_ptr = cg.module_bitfield_ptr(&submodule_info.module, submodule_state_ptr);
    let bitfield = cg.emit(Instr::Load { ptr: bitfield_ptr, name: String::from_str("bitfield") });
    let zero = cg.uint_const(0);
    let has_update = cg.emit(
        Instr::Compare {
            predicate: Predicate::NotEqual,
            lhs: bitfield,
            rhs: zero,
            name: String::from_str("has_update"),
        },
    );
    let copy_back_block = append_new_block(cg, "copy_back")?;
    let updates_complete = append_new_block(cg, "updates_complete")?;
    cg.emit(
        Instr::CondBr {
            condition: has_update,
            if_true: copy_back_block,
            if_false: updates_complete,
        },
    );
    cg.position_at_end(copy_back_block);
    copy_back(cg, module, state_ptr, submodule_info, submodule_state_ptr, bitfield)?;
    cg.emit(Instr::Br { target: invoke_loop_start });
    cg.position_at_end(updates_complete);
    Ok(StateValue::new_none())
}

#[verifier::rlimit(40)]
fn copy_to_submodule(
    cg: &mut CodegenState,
    module: &ModuleDecl,
    state_alloca: usize,
    info: &CopyToSubModuleInfo,
) -> (r: CodegenResult<StateValue>)
    requires
        old(cg)@.positioned(),
        spec_well_formed(*module),
    ensures
        outcome(final(cg)@, r) == spec_copy_to_submodule(old(cg)@, *module, state_alloca, *info),
        r is Ok ==> final(cg)@.positioned(),
        spec_carries(
            old(cg)@,
            final(cg)@,
            spec_value_known(old(cg)@, state_alloca),
            true,
        ),
{
    let state_ptr = cg.emit(Instr::Load { ptr: state_alloca, name: String::from_str("state_ptr") });
    let from_value_ptr = cg.read_ptr_for_field(module, state_ptr, &info.state)?;
    let submodule_state_ptr = cg.submodule_ptr(module, state_ptr, info.submodule_index)?;
    let submodule_info = &module.submodules[info.submodule_index];
    let to_update_ptr = cg.update_ptr_for_field(
        &submodule_info.module,
        submodule_state_ptr,
        &info.submodule_state,
        UpdatePtrPurpose::WriteAndSet,
    )?;
    let value = from_value_ptr.load(cg, "value")?;
    to_update_ptr.store(cg, &value)?;
    fixpoint_loop(cg, module, state_ptr, submodule_info, submodule_state_ptr)
}

fn if_begin(cg: &mut CodegenState, test: &StateValue) -> (r: CodegenResult<(usize, usize, usize)>)
    requires
        old(cg)@.positioned(),
    ensures
        outcome(final(cg)@, r) == spec_if_begin(old(cg)@, test@),
        r is Ok ==> final(cg)@.positioned(),
        spec_carries(
            old(cg)@,
            final(cg)@,
            spec_known(old(cg)@, test@),
            r is Ok ==> {
                &&& spec_block_known(final(cg)@, r.unwrap().0)
                &&& spec_block_known(final(cg)@, r.unwrap().1)
                &&& spec_block_known(final(cg)@, r.unwrap().2)
            },
        ),
{
    let test_as_int = match test.into_int_value() {
        Some(v) => v,
        None => {
            return Err(CodegenError::TypeMismatch(String::from_str("the test is no integer")));
        },
    };
    let bits: u32 = match test {
        StateValue::Int(_) => 64,
        StateValue::Char(_) => 8,
        _ => 1,
    };
    let zero = cg.emit(Instr::ConstInt { bits, constant: 0 });
    let compared = cg.emit(
        Instr::Compare {
            predicate: Predicate::NotEqual,
            lhs: test_as_int,
            rhs: zero,
            name: String::from_str("if_true"),
        },
    );
    let if_true = append_new_block(cg, "if_true_block")?;
    let if_false = append_new_block(cg, "if_false_block")?;
    let after_if = append_new_block(cg, "after_if")?;
    cg.emit(Instr::CondBr { condition: compared, if_true, if_false });
    cg.position_at_end(if_true);
    Ok((if_true, if_false, after_if))
}

fn leave_arm(cg: &mut CodegenState, join: usize, next: usize)
    requires
        old(cg)@.positioned(),
    ensures
        final(cg)@ == spec_leave_arm(old(cg)@, join, next),
        final(cg)@.positioned(),
        spec_carries(
            old(cg)@,
            final(cg)@,
            spec_block_known(old(cg)@, join) && spec_block_known(old(cg)@, next),
            true,
        ),
{
    cg.emit(Instr::Br { target: join });
    cg.position_at_end(next);
}

fn logical_begin(cg: &mut CodegenState, lhs_value: &StateValue, is_or: bool) -> (r: CodegenResult<
    (usize, usize),
>)
    requires
        old(cg)@.positioned(),
    ensures
        outcome(final(cg)@, r) == spec_logical_begin(old(cg)@, lhs_value@, is_or),
        r is Ok ==> final(cg)@.positioned(),
        spec_carries(
            old(cg)@,
            final(cg)@,
            spec_known(old(cg)@, lhs_value@),
            r is Ok ==> {
                &&& spec_block_known(final(cg)@, r.unwrap().0)
                &&& spec_block_known(final(cg)@, r.unwrap().1)
            },
        ),
{
    let condition = match lhs_value {
        StateValue::Bool(v) => *v,
        _ => {
            return Err(
                CodegenError::TypeMismatch(String::from_str("the left side is no truth value")),
            );
        },
    };
    let rhs_block = if is_or {
        append_new_block(cg, "lhs_false")?
    } else {
        append_new_block(cg, "lhs_true")?
    };
    let end_of_test = append_new_block(cg, "end_of_test")?;
    if is_or {
        cg.emit(Instr::CondBr { condition, if_true: end_of_test, if_false: rhs_block });
    } else {
        cg.emit(Instr::CondBr { condition, if_true: rhs_block, if_false: end_of_test });
    }
    cg.position_at_end(rhs_block);
    Ok((rhs_block, end_of_test))
}

fn logical_end(
    cg: &mut CodegenState,
    lhs_value: &StateValue,
    lhs_block: usize,
    rhs_value: &StateValue,
    end_of_test: usize,
    is_or: bool,
) -> (r: CodegenResult<StateValue>)
    requires
        old(cg)@.positioned(),
        lhs_value@ is Bool,
    ensures
        outcome(final(cg)@, r) == spec_logical_end(
            old(cg)@,
            lhs_value@,
            lhs_block,
            rhs_value@,
            end_of_test,
            is_or,
        ),
        r is Ok ==> final(cg)@.positioned(),
        spec_carries(
            old(cg)@,
            final(cg)@,
            spec_known(old(cg)@, lhs_value@)
                && spec_block_known(old(cg)@, lhs_block)
                && spec_known(old(cg)@, rhs_value@)
                && spec_block_known(old(cg)@, end_of_test),
            r is Ok ==> spec_known(final(cg)@, r.unwrap()@),
        ),
{
    let rhs = match rhs_value {
        StateValue::Bool(v) => *v,
        _ => {
            return Err(
                CodegenError::TypeMismatch(String::from_str("the right side is no truth value")),
            );
        },
    };
    let lhs = match lhs_value {
        StateValue::Bool(v) => *v,
        _ => 0,
    };
    let rhs_end = match cg.position {
        Some(block) => block,
        None => 0,
    };
    leave_arm(cg, end_of_test, end_of_test);
    let mut incoming: Vec<(usize, usize)> = Vec::new();
    incoming.push((lhs, lhs_block));
    incoming.push((rhs, rhs_end));
    assert(incoming@ =~= seq![(lhs, lhs_block), (rhs, rhs_end)]);
    let name = if is_or {
        String::from_str("logical-or-result")
    } else {
        String::from_str("logical-and-result")
    };
    let phi = cg.emit(Instr::Phi { ty: IrType::Int(1), incoming, name });
    Ok(StateValue::new_bool(phi))
}

fn apply_function(cg: &mut CodegenState, name: &String, value: StateValue) -> (r: CodegenResult<
    StateValue,
>)
    requires
        old(cg)@.positioned(),
    ensures
        outcome(final(cg)@, r) == spec_apply_function(old(cg)@, name@, value@),
        r is Ok ==> final(cg)@.positioned(),
        spec_carries(
            old(cg)@,
            final(cg)@,
            spec_known(old(cg)@, value@),
            r is Ok ==> spec_known(final(cg)@, r.unwrap()@),
        ),
{
    if *name == String::from_str("new") {
        match value {
            StateValue::Int(size) => {
                let data = malloc(cg, size, "mem_region_location");
                Ok(StateValue::MemRegion { data, size })
            },
            _ => Err(CodegenError::TypeMismatch(String::from_str("the size is no integer"))),
        }
    } else if *name == String::from_str("size") {
        value.size(cg)
    } else {
        Err(CodegenError::UnknownFunctionCall(name.clone()))
    }
}

fn reference_codegen(
    cg: &mut CodegenState,
    module: &ModuleDecl,
    state_alloca: usize,
    field: &String,
) -> (r: CodegenResult<StateValue>)
    requires
        old(cg)@.positioned(),
        spec_well_formed(*module),
    ensures
        outcome(final(cg)@, r) == spec_reference(old(cg)@, *module, state_alloca, field@),
        r is Ok ==> final(cg)@.positioned(),
        spec_carries(
            old(cg)@,
            final(cg)@,
            spec_value_known(old(cg)@, state_alloca),
            r is Ok ==> spec_known(final(cg)@, r.unwrap()@),
        ),
{
    match cg.get_local(field) {
        Some(local) => {
            return Ok(local.duplicate());
        },
        None => {},
    }
    let state_ptr = cg.emit(Instr::Load { ptr: state_alloca, name: String::from_str("state_ptr") });
    let value_ptr = cg.read_ptr_for_field(module, state_ptr, field)?;
    let name = String::from_str("ref_to_state_").concat(field.as_str());
    value_ptr.load(cg, name.as_str())
}

fn string_literal(cg: &mut CodegenState, literal: &String) -> (r: StateValue)
    requires
        old(cg)@.positioned(),
    ensures
        (final(cg)@, r@) == spec_string_literal(old(cg)@, literal@),
        final(cg)@.positioned(),
        spec_carries(
            old(cg)@,
            final(cg)@,
            true,
            spec_known(final(cg)@, r@),
        ),
{
    let size = cg.uint_const(literal.as_str().len() as u64);
    let data = cg.emit(
        Instr::GlobalString { text: literal.clone(), name: String::from_str("literal") },
    );
    let mut elem_type: Vec<TypePrimitive> = Vec::new();
    elem_type.push(TypePrimitive::Char);
    assert(crate::ir_gen::primitives::primitives_view(elem_type@) =~= seq![PrimitiveSpec::Char]);
    StateValue::DynamicArray { data, size, elem_type }
}

fn block_codegen(
    cg: &mut CodegenState,
    module: &ModuleDecl,
    state_alloca: usize,
    expressions: &Vec<ExpressionValue>,
) -> (r: CodegenResult<StateValue>)
    requires
        old(cg)@.positioned(),
        spec_well_formed(*module),
    ensures
        outcome(final(cg)@, r) == spec_block_from(
            old(cg)@,
            *module,
            state_alloca,
            expressions@,
            0,
            StateValueSpec::Nothing,
        ),
        r is Ok ==> final(cg)@.positioned(),
        spec_carries(
            old(cg)@,
            final(cg)@,
            spec_value_known(old(cg)@, state_alloca),
            r is Ok ==> spec_known(final(cg)@, r.unwrap()@),
        ),
    decreases expressions,
{
    let mut final_result = StateValue::new_none();
    let mut i: usize = 0;
    while i < expressions.len()
        invariant
            i <= expressions.len(),
            cg@.positioned(),
            spec_well_formed(*module),
            spec_keeps(old(cg)@, cg@),
            spec_working(old(cg)@) && spec_value_known(old(cg)@, state_alloca) ==> spec_working(cg@)
                && spec_known(cg@, final_result@),
            spec_block_from(
                old(cg)@,
                *module,
                state_alloca,
                expressions@,
                0,
                StateValueSpec::Nothing,
            ) == spec_block_from(
                cg@,
                *module,
                state_alloca,
                expressions@,
                i as int,
                final_result@,
            ),
        decreases expressions.len() - i,
    {
        final_result = expression_codegen(cg, module, state_alloca, &expressions[i])?;
        i += 1;
    }
    Ok(final_result)
}

fn fill_tuple(
    cg: &mut CodegenState,
    module: &ModuleDecl,
    state_alloca: usize,
    entries: &Vec<ExpressionValue>,
    tuple: StateValue,
) -> (r: CodegenResult<StateValue>)
    requires
        old(cg)@.positioned(),
        spec_well_formed(*module),
    ensures
        outcome(final(cg)@, r) == spec_fill_tuple_from(
            old(cg)@,
            *module,
            state_alloca,
            entries@,
            0,
            tuple@,
        ),
        r is Ok ==> final(cg)@.positioned(),
        spec_carries(
            old(cg)@,
            final(cg)@,
            spec_value_known(old(cg)@, state_alloca) && spec_known(old(cg)@, tuple@),
            r is Ok ==> spec_known(final(cg)@, r.unwrap()@),
        ),
    decreases entries,
{
    let mut idx: usize = 0;
    while idx < entries.len()
        invariant
            idx <= entries.len(),
            cg@.positioned(),
            spec_well_formed(*module),
            spec_keeps(old(cg)@, cg@),
            spec_working(old(cg)@) && spec_value_known(old(cg)@, state_alloca) && spec_known(
                old(cg)@,
                tuple@,
            ) ==> spec_working(cg@) && spec_known(cg@, tuple@),
            spec_fill_tuple_from(old(cg)@, *module, state_alloca, entries@, 0, tuple@)
                == spec_fill_tuple_from(cg@, *module, state_alloca, entries@, idx as int, tuple@),
        decreases entries.len() - idx,
    {
        if idx > u32::MAX as usize {
            return Err(CodegenError::TypeMismatch(String::from_str("the tuple is too long")));
        }
        let value = expression_codegen(cg, module, state_alloca, &entries[idx])?;
        tuple.set_tuple_index(cg, idx as u32, value)?;
        idx += 1;
    }
    Ok(tuple)
}

#[verifier::rlimit(40)]
fn output_codegen(
    cg: &mut CodegenState,
    module: &ModuleDecl,
    state_alloca: usize,
    output: &OutputExpression,
) -> (r: CodegenResult<StateValue>)
    requires
        old(cg)@.positioned(),
        spec_well_formed(*module),
    ensures
        outcome(final(cg)@, r) == spec_output(old(cg)@, *module, state_alloca, *output),
        r is Ok ==> final(cg)@.positioned(),
        spec_carries(
            old(cg)@,
            final(cg)@,
            spec_value_known(old(cg)@, state_alloca),
            r is Ok ==> spec_known(final(cg)@, r.unwrap()@),
        ),
    decreases output,
{
    let return_value = expression_codegen(cg, module, state_alloca, &output.expression)?;
    if !output.output.as_str().is_empty() {
        let state_ptr = cg.emit(
            Instr::Load { ptr: state_alloca, name: String::from_str("state_ptr") },
        );
        let update_ptr = cg.update_ptr_for_field(
            module,
            state_ptr,
            &output.output,
            UpdatePtrPurpose::WriteAndSet,
        )?;
        update_ptr.store(cg, &return_value)?;
    }
    if output.and_return {
        cg.emit(Instr::Ret);
        let after_return = append_new_block(cg, "after_return")?;
        cg.position_at_end(after_return);
    }
    Ok(return_value)
}

#[verifier::rlimit(40)]
fn if_codegen(
    cg: &mut CodegenState,
    module: &ModuleDecl,
    state_alloca: usize,
    conditional: &IfExpression,
) -> (r: CodegenResult<StateValue>)
    requires
        old(cg)@.positioned(),
        spec_well_formed(*module),
    ensures
        outcome(final(cg)@, r) == spec_if(old(cg)@, *module, state_alloca, *conditional),
        r is Ok ==> final(cg)@.positioned(),
        spec_carries(
            old(cg)@,
            final(cg)@,
            spec_value_known(old(cg)@, state_alloca),
            r is Ok ==> spec_known(final(cg)@, r.unwrap()@),
        ),
    decreases conditional,
{
    let test = expression_codegen(cg, module, state_alloca, &conditional.test)?;
    let (if_true, if_false, after_if) = if_begin(cg, &test)?;
    let result_if_true = expression_codegen(cg, module, state_alloca, &conditional.if_true)?;
    let end_of_true = cg.position.unwrap();
    leave_arm(cg, after_if, if_false);
    let result_if_false = expression_codegen(cg, module, state_alloca, &conditional.if_false)?;
    let end_of_false = cg.position.unwrap();
    leave_arm(cg, after_if, after_if);
    if result_if_true.is_none() {
        Ok(result_if_true)
    } else {
        result_if_true.merge(cg, end_of_true, &result_if_false, end_of_false)
    }
}

#[verifier::rlimit(40)]
fn binary_codegen(
    cg: &mut CodegenState,
    module: &ModuleDecl,
    state_alloca: usize,
    expression: &ExpressionValue,
) -> (r: CodegenResult<StateValue>)
    requires
        old(cg)@.positioned(),
        spec_well_formed(*module),
    ensures
        outcome(final(cg)@, r) == spec_binary(old(cg)@, *module, state_alloca, *expression),
        r is Ok ==> final(cg)@.positioned(),
        spec_carries(
            old(cg)@,
            final(cg)@,
            spec_value_known(old(cg)@, state_alloca),
            r is Ok ==> spec_known(final(cg)@, r.unwrap()@),
        ),
    decreases expression, 1nat,
{
    match expression {
        ExpressionValue::BinaryOperator(lhs, op, rhs) => {
            let lhs_value = expression_codegen(cg, module, state_alloca, lhs)?;
            if op.is_logical() {
                let is_or = match op {
                    Operator::LogicalOr => true,
                    _ => false,
                };
                let lhs_block = cg.position.unwrap();
                let (_, end_of_test) = logical_begin(cg, &lhs_value, is_or)?;
                let rhs_value = expression_codegen(cg, module, state_alloca, rhs)?;
                logical_end(cg, &lhs_value, lhs_block, &rhs_value, end_of_test, is_or)
            } else {
                let rhs_value = expression_codegen(cg, module, state_alloca, rhs)?;
                match op {
                    Operator::Equality => lhs_value.equals(cg, &rhs_value),
                    Operator::LessThan => lhs_value.less_than(cg, &rhs_value),
                    Operator::GreaterThan => lhs_value.greater_than(cg, &rhs_value),
                    _ => Err(
                        CodegenError::TypeMismatch(
                            String::from_str("the operator is not implemented"),
                        ),
                    ),
                }
            }
        },
        _ => Err(CodegenError::TypeMismatch(String::from_str("no binary operation"))),
    }
}

/// Emits the code of `expression` at the builder's position and gives the
/// value it leaves. `state_alloca` names the stack slot that holds the
/// pointer to the state of `module`.
#[verifier::rlimit(40)]
pub fn expression_codegen(
    cg: &mut CodegenState,
    module: &ModuleDecl,
    state_alloca: usize,
    expression: &ExpressionValue,
) -> (r: CodegenResult<StateValue>)
    requires
        old(cg)@.positioned(),
        spec_well_formed(*module),
    ensures
        outcome(final(cg)@, r) == spec_expression_codegen(
            old(cg)@,
            *module,
            state_alloca,
            *expression,
        ),
        r is Ok ==> final(cg)@.positioned(),
        spec_carries(
            old(cg)@,
            final(cg)@,
            spec_value_known(old(cg)@, state_alloca),
            r is Ok ==> spec_known(final(cg)@, r.unwrap()@),
        ),
    decreases expression, 2nat,
{
    match expression {
        ExpressionValue::Output(output) => output_codegen(cg, module, state_alloca, output),
        ExpressionValue::Block(expressions) => block_codegen(
            cg,
            module,
            state_alloca,
            expressions,
        ),
        ExpressionValue::Let(binding) => {
            let value = expression_codegen(cg, module, state_alloca, &binding.expression)?;
            cg.add_local(&binding.var_name, value.duplicate());
            Ok(value)
        },
        ExpressionValue::If(conditional) => if_codegen(cg, module, state_alloca, conditional),
        ExpressionValue::While(_) => Err(
            CodegenError::TypeMismatch(String::from_str("loops are not implemented")),
        ),
        ExpressionValue::Empty => Ok(StateValue::new_none()),
        ExpressionValue::Break => Err(
            CodegenError::TypeMismatch(String::from_str("breaks are not implemented")),
        ),
        ExpressionValue::IntLiteral(literal) => Ok(
            StateValue::new_int(cg.uint_const(bit_pattern(*literal))),
        ),
        ExpressionValue::StringLiteral(literal) => {
            if has_nul(literal) {
                Err(CodegenError::TypeMismatch(String::from_str("the text holds a zero character")))
            } else {
                Ok(string_literal(cg, literal))
            }
        },
        ExpressionValue::CharLiteral(literal) => Ok(
            StateValue::new_char(cg.emit(Instr::ConstInt { bits: 8, constant: *literal as u64 })),
        ),
        ExpressionValue::ArrayLookup(value, index) => {
            let arr_ptr = expression_codegen(cg, module, state_alloca, value)?;
            let idx = expression_codegen(cg, module, state_alloca, index)?;
            arr_ptr.array_lookup(cg, idx)
        },
        ExpressionValue::Tuple(entries) => {
            let tuple_type = expression_type(cg, module, expression)?;
            let tuple_ptr = StateValue::new_tuple(cg, tuple_type)?;
            fill_tuple(cg, module, state_alloca, entries, tuple_ptr)
        },
        ExpressionValue::TupleLookup(tuple_expr, pos) => {
            let tuple = expression_codegen(cg, module, state_alloca, tuple_expr)?;
            if *pos > u32::MAX as usize {
                return Err(CodegenError::TypeMismatch(String::from_str("no such tuple field")));
            }
            tuple.get_tuple_index(cg, *pos as u32)
        },
        ExpressionValue::ReferenceToState(field) => reference_codegen(
            cg,
            module,
            state_alloca,
            field,
        ),
        ExpressionValue::CopyToSubModule(info) => copy_to_submodule(cg, module, state_alloca, info),
        ExpressionValue::FunctionCall(name, argument) => {
            let value = expression_codegen(cg, module, state_alloca, argument)?;
            apply_function(cg, name, value)
        },
        ExpressionValue::BinaryOperator(_, _, _) => binary_codegen(
            cg,
            module,
            state_alloca,
            expression,
        ),
    }
}

/// Emits the code of `lhs`, and that of `rhs` where `lhs` is true; the
/// value is whether both are true. Both have to be truth values.
pub fn expression_logical_and(
    cg: &mut CodegenState,
    module: &ModuleDecl,
    state_alloca: usize,
    lhs: &ExpressionValue,
    rhs: &ExpressionValue,
) -> (r: CodegenResult<StateValue>)
    requires
        old(cg)@.positioned(),
        spec_well_formed(*module),
    ensures
        outcome(final(cg)@, r) == spec_expression_logical(
            old(cg)@,
            *module,
            state_alloca,
            *lhs,
            *rhs,
            false,
        ),
        r is Ok ==> final(cg)@.positioned(),
        spec_carries(
            old(cg)@,
            final(cg)@,
            spec_value_known(old(cg)@, state_alloca),
            r is Ok ==> spec_known(final(cg)@, r.unwrap()@),
        ),
{
    let lhs_value = expression_codegen(cg, module, state_alloca, lhs)?;
    let lhs_block = cg.position.unwrap();
    let (_, end_of_test) = logical_begin(cg, &lhs_value, false)?;
    let rhs_value = expression_codegen(cg, module, state_alloca, rhs)?;
    logical_end(cg, &lhs_value, lhs_block, &rhs_value, end_of_test, false)
}

} // verus!
