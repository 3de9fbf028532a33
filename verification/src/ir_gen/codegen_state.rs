//! The state of the generator: the functions emitted so far, where the next
//! instruction goes, and the local bindings.

use crate::ast::ModuleDecl;
use crate::ir_gen::ir::{
    first_function_named, functions_view, lemma_first_function_named, spec_type_supported,
    spec_types_supported, Emitted, EmittedSpec, FunctionPlan, FunctionSpec, Instr, InstrSpec,
    IrType, IrTypeSpec,
};
use crate::ir_gen::order::{
    lemma_code_stays_in_order, lemma_emit_ordered, lemma_known_stays, spec_accepts,
    spec_block_known, spec_grows, spec_keeps, spec_known, spec_ordered, spec_signature_supported,
    spec_value_known, spec_working,
};
use crate::ir_gen::primitives::{
    primitives_view, spec_type_primitive_for_type, type_primitive_for_type, PrimitiveSpec,
    TypePrimitive,
};
use crate::ir_gen::state_values::{StateValue, StateValueSpec};
use crate::ir_gen::types::{
    bitfield_slot, current_slot, spec_well_formed, submodule_slot, update_slot,
};
use vstd::prelude::*;
use vstd::string::*;

verus! {

/// Why code generation stopped.
#[derive(Debug, PartialEq, Eq)]
pub enum CodegenError {
    /// A listener names a handle that its module does not have.
    BadListenerTrigger,
    /// A field was named that is neither a handle nor a local.
    BadReadFieldName(String),
    /// A value does not have the representation that its use needs; the
    /// text says where.
    TypeMismatch(String),
    /// An update function calls a listener that was not emitted.
    FunctionMissing,
    /// A block was asked for while no instruction could be placed.
    NotInABlock,
    /// A block was asked for outside any function.
    NotInAFunction,
    /// A call names a function that is not built in.
    UnknownFunctionCall(String),
}

/// The mathematical value of a `CodegenError`: its kind and the name that
/// it is about. The text of a type mismatch is for people and is not part of
/// it; `spec_mismatch_text` gives it.
pub enum ErrorSpec {
    BadListenerTrigger,
    BadReadFieldName(Seq<char>),
    TypeMismatch,
    FunctionMissing,
    NotInABlock,
    NotInAFunction,
    UnknownFunctionCall(Seq<char>),
}

impl View for CodegenError {
    type V = ErrorSpec;

    open spec fn view(&self) -> ErrorSpec {
        match *self {
            CodegenError::BadListenerTrigger => ErrorSpec::BadListenerTrigger,
            CodegenError::BadReadFieldName(name) => ErrorSpec::BadReadFieldName(name@),
            CodegenError::TypeMismatch(_) => ErrorSpec::TypeMismatch,
            CodegenError::FunctionMissing => ErrorSpec::FunctionMissing,
            CodegenError::NotInABlock => ErrorSpec::NotInABlock,
            CodegenError::NotInAFunction => ErrorSpec::NotInAFunction,
            CodegenError::UnknownFunctionCall(name) => ErrorSpec::UnknownFunctionCall(name@),
        }
    }
}

/// The text that a type mismatch bears, which says where the mismatch was
/// found; the other errors bear none.
pub open spec fn spec_mismatch_text(e: CodegenError) -> Seq<char> {
    match e {
        CodegenError::TypeMismatch(text) => text@,
        _ => Seq::empty(),
    }
}

pub type CodegenResult<T> = Result<T, CodegenError>;

pub type CodegenStatus = CodegenResult<()>;

/// What a step of the generator amounts to: the state it leaves and the
/// value of what it returns, or the value of its error.
pub open spec fn outcome<T: View>(after: CodegenSpec, r: Result<T, CodegenError>) -> Result<
    (CodegenSpec, T::V),
    ErrorSpec,
> {
    match r {
        Ok(v) => Ok((after, v@)),
        Err(e) => Err(e@),
    }
}

/// What a pointer to an update slot is for.
#[derive(Clone, Copy, Debug, PartialEq, Eq, Structural)]
pub enum UpdatePtrPurpose {
    /// Reading takes the pending value, clears the handle's bit and leaves
    /// the update slot empty.
    ReadAndClear,
    /// Reading leaves the handle's bit as it is.
    ReadWithoutClearing,
    /// Writing sets the handle's bit.
    WriteAndSet,
}

/// The generator's state for one IR module.
#[derive(Debug, PartialEq, Eq)]
pub struct CodegenState {
    /// The name of the IR module.
    pub name: String,
    /// The functions declared or emitted so far.
    pub functions: Vec<FunctionPlan>,
    /// The function that instructions are added to.
    pub current: Option<usize>,
    /// The block at whose end instructions are added.
    pub position: Option<usize>,
    /// The let-bindings in scope, oldest first.
    pub locals: Vec<(String, StateValue)>,
}

/// The mathematical value of a `CodegenState`.
pub struct CodegenSpec {
    pub name: Seq<char>,
    pub functions: Seq<FunctionSpec>,
    pub current: Option<usize>,
    pub position: Option<usize>,
    pub locals: Seq<(Seq<char>, StateValueSpec)>,
}

pub open spec fn locals_view(locals: Seq<(String, StateValue)>) -> Seq<(Seq<char>, StateValueSpec)> {
    Seq::new(locals.len(), |i: int| (locals[i].0@, locals[i].1@))
}

/// The position of the last binding of `name` before `until`.
pub open spec fn last_local_named(
    locals: Seq<(Seq<char>, StateValueSpec)>,
    name: Seq<char>,
    until: int,
) -> Option<int>
    decreases until,
{
    if until <= 0 || until > locals.len() {
        None
    } else if locals[until - 1].0 == name {
        Some(until - 1)
    } else {
        last_local_named(locals, name, until - 1)
    }
}

impl View for CodegenState {
    type V = CodegenSpec;

    open spec fn view(&self) -> CodegenSpec {
        CodegenSpec {
            name: self.name@,
            functions: functions_view(self.functions@),
            current: self.current,
            position: self.position,
            locals: locals_view(self.locals@),
        }
    }
}

impl CodegenState {
    /// A copy of the state.
    pub fn duplicate(&self) -> (r: CodegenState)
        ensures
            r@ == self@,
    {
        let mut locals: Vec<(String, StateValue)> = Vec::new();
        let mut i: usize = 0;
        while i < self.locals.len()
            invariant
                i <= self.locals.len(),
                locals@.len() == i,
                forall|j: int|
                    0 <= j < i ==> locals@[j].0@ == self.locals@[j].0@ && locals@[j].1@
                        == self.locals@[j].1@,
            decreases self.locals.len() - i,
        {
            locals.push((self.locals[i].0.clone(), self.locals[i].1.duplicate()));
            i += 1;
        }
        assert(locals_view(locals@) =~= locals_view(self.locals@));
        CodegenState {
            name: self.name.clone(),
            functions: FunctionPlan::clone_all(&self.functions),
            current: self.current,
            position: self.position,
            locals,
        }
    }
}

impl CodegenSpec {
    /// Whether a function is being emitted.
    pub open spec fn in_function(self) -> bool {
        self.current is Some && self.current.unwrap() < self.functions.len()
    }

    /// Whether the next instruction has a place to go.
    pub open spec fn positioned(self) -> bool {
        self.in_function() && self.position is Some
    }

    /// The code of the function being emitted.
    pub open spec fn code(self) -> Seq<EmittedSpec> {
        self.functions[self.current.unwrap() as int].code
    }

    /// The number that the next entry of the code will get.
    pub open spec fn next_id(self) -> usize {
        self.code().len() as usize
    }

    /// The state after one more builder call.
    pub open spec fn emit(self, instr: InstrSpec) -> CodegenSpec {
        let c = self.current.unwrap() as int;
        CodegenSpec {
            functions: self.functions.update(
                c,
                FunctionSpec {
                    code: self.code().push(EmittedSpec { at: self.position, instr }),
                    ..self.functions[c]
                },
            ),
            ..self
        }
    }

    /// The state with the builder moved to the end of `block`.
    pub open spec fn position_at_end(self, block: usize) -> CodegenSpec {
        CodegenSpec { position: Some(block), ..self }
    }

    /// The state after declaring a function without code.
    pub open spec fn add_function(
        self,
        name: Seq<char>,
        params: Seq<IrTypeSpec>,
        result: Option<IrTypeSpec>,
        var_args: bool,
    ) -> CodegenSpec {
        CodegenSpec {
            functions: self.functions.push(
                FunctionSpec { name, params, result, var_args, code: Seq::empty() },
            ),
            ..self
        }
    }

    /// The state once the function at `index` is the one being emitted, with
    /// the builder nowhere yet.
    pub open spec fn enter_function(self, index: usize) -> CodegenSpec {
        CodegenSpec { current: Some(index), position: None, ..self }
    }

    /// The position of the first function called `name`.
    pub open spec fn get_function(self, name: Seq<char>) -> Option<int> {
        first_function_named(self.functions, name, 0)
    }

    /// The state with one more binding.
    pub open spec fn add_local(self, name: Seq<char>, value: StateValueSpec) -> CodegenSpec {
        CodegenSpec { locals: self.locals.push((name, value)), ..self }
    }

    /// The value most recently bound to `name`.
    pub open spec fn get_local(self, name: Seq<char>) -> Option<StateValueSpec> {
        match last_local_named(self.locals, name, self.locals.len() as int) {
            Some(i) => Some(self.locals[i].1),
            None => None,
        }
    }

    /// The state with no bindings.
    pub open spec fn clear_locals(self) -> CodegenSpec {
        CodegenSpec { locals: Seq::empty(), ..self }
    }
}

impl CodegenState {
    /// A state for the IR module `name` with nothing emitted.
    pub fn new(name: &str) -> (r: CodegenState)
        ensures
            r@ == (CodegenSpec {
                name: name@,
                functions: Seq::empty(),
                current: None,
                position: None,
                locals: Seq::empty(),
            }),
            spec_ordered(r@),
    {
        let r = CodegenState {
            name: String::from_str(name),
            functions: Vec::new(),
            current: None,
            position: None,
            locals: Vec::new(),
        };
        assert(r@.functions =~= Seq::empty());
        assert(r@.locals =~= Seq::empty());
        proof {
            reveal(spec_ordered);
        }
        r
    }

    /// Records one builder call and gives its number.
    pub fn emit(&mut self, instr: Instr) -> (id: usize)
        requires
            old(self)@.in_function(),
        ensures
            final(self)@ == old(self)@.emit(instr@),
            id == old(self)@.next_id(),
            final(self)@.in_function(),
            final(self)@.position == old(self)@.position,
            final(self)@.current == old(self)@.current,
            spec_keeps(old(self)@, final(self)@),
            spec_ordered(old(self)@) && spec_accepts(old(self)@, instr@) ==> spec_ordered(
                final(self)@,
            ),
            instr@ is Block ==> spec_block_known(final(self)@, id),
            !(instr@ is Block) ==> spec_value_known(final(self)@, id),
    {
        let c = self.current.unwrap();
        let id = self.functions[c].code.len();
        self.functions[c].code.push(Emitted { at: self.position, instr });
        let longer = self.functions[c].code.len();
        proof {
            assert(longer == id + 1);
            assert(self@.functions[c as int].code =~= old(self)@.code().push(
                EmittedSpec { at: old(self).position, instr: instr@ },
            ));
            assert(self@.functions =~= old(self)@.emit(instr@).functions);
            assert(self@.locals =~= old(self)@.locals);
            assert(self@ == old(self)@.emit(instr@));
            assert(old(self)@.code().len() == id);
            assert(self.functions@[c as int].code@.len() == id + 1);
            lemma_emit_ordered(old(self)@, instr@);
        }
        id
    }

    /// Moves the builder to the end of `block`.
    pub fn position_at_end(&mut self, block: usize)
        ensures
            final(self)@ == old(self)@.position_at_end(block),
            spec_keeps(old(self)@, final(self)@),
            spec_ordered(old(self)@) && spec_block_known(old(self)@, block) ==> spec_working(
                final(self)@,
            ),
    {
        self.position = Some(block);
        proof {
            reveal(spec_ordered);
            reveal(spec_value_known);
            reveal(spec_block_known);
            assert(self@.functions =~= old(self)@.functions);
            assert(self@.locals =~= old(self)@.locals);
        }
    }

    /// Declares a function and gives its position among the functions.
    pub fn add_function(
        &mut self,
        name: String,
        params: Vec<IrType>,
        result: Option<IrType>,
        var_args: bool,
    ) -> (index: usize)
        ensures
            final(self)@ == old(self)@.add_function(
                name@,
                crate::ir_gen::ir::ir_types_view(params@),
                match result {
                    Some(t) => Some(t@),
                    None => None,
                },
                var_args,
            ),
            index == old(self)@.functions.len(),
            old(self)@.in_function() ==> final(self)@.in_function() && final(self)@.code() == old(
                self,
            )@.code(),
            spec_keeps(old(self)@, final(self)@),
            final(self)@.position == old(self)@.position,
            final(self)@.current == old(self)@.current,
            (spec_ordered(old(self)@) && spec_types_supported(
                crate::ir_gen::ir::ir_types_view(params@),
            ) && (result is Some ==> spec_type_supported(result.unwrap()@))) ==> spec_ordered(
                final(self)@,
            ),
    {
        let index = self.functions.len();
        let f = FunctionPlan { name, params, result, var_args, code: Vec::new() };
        proof {
            assert(f@.code =~= Seq::empty());
        }
        self.functions.push(f);
        proof {
            assert(self@.functions =~= old(self)@.functions.push(f@));
            assert(self@.locals =~= old(self)@.locals);
            reveal(spec_ordered);
            if old(self)@.in_function() {
                assert(spec_grows(old(self)@, self@));
                lemma_known_stays(old(self)@, self@);
            } else {
                reveal(spec_value_known);
                reveal(spec_block_known);
            }
            if spec_ordered(old(self)@) && spec_signature_supported(f@) {
                let count = old(self)@.functions.len() as int;
                assert forall|g: int| 0 <= g < self@.functions.len() implies spec_signature_supported(
                    #[trigger] self@.functions[g],
                ) && crate::ir_gen::order::spec_code_in_order(
                    self@.functions[g].code,
                    self@.functions.len() as int,
                ) by {
                    if g < count {
                        assert(self@.functions[g] == old(self)@.functions[g]);
                        lemma_code_stays_in_order(old(self)@.functions[g].code, count, count + 1);
                    }
                }
            }
        }
        index
    }

    /// Makes the function at `index` the one that instructions are added to.
    pub fn enter_function(&mut self, index: usize)
        ensures
            final(self)@ == old(self)@.enter_function(index),
    {
        self.current = Some(index);
        self.position = None;
        proof {
            assert(self@.functions =~= old(self)@.functions);
            assert(self@.locals =~= old(self)@.locals);
        }
    }

    /// The position of the first function called `name`.
    pub fn get_function(&self, name: &String) -> (r: Option<usize>)
        ensures
            match r {
                Some(i) => self@.get_function(name@) == Some(i as int) && i < self.functions.len(),
                None => self@.get_function(name@) is None,
            },
    {
        proof {
            lemma_first_function_named(self@.functions, name@, 0);
        }
        let mut i: usize = 0;
        while i < self.functions.len()
            invariant
                i <= self.functions.len(),
                first_function_named(self@.functions, name@, 0) == first_function_named(
                    self@.functions,
                    name@,
                    i as int,
                ),
            decreases self.functions.len() - i,
        {
            if self.functions[i].name == *name {
                return Some(i);
            }
            i += 1;
        }
        None
    }

    /// A 64-bit integer constant.
    pub fn uint_const(&mut self, value: u64) -> (id: usize)
        requires
            old(self)@.in_function(),
        ensures
            final(self)@ == old(self)@.emit(InstrSpec::ConstInt { bits: 64, constant: value }),
            id == old(self)@.next_id(),
            final(self)@.in_function(),
            final(self)@.position == old(self)@.position,
            spec_keeps(old(self)@, final(self)@),
            spec_ordered(old(self)@) ==> spec_ordered(final(self)@),
            spec_value_known(final(self)@, id),
    {
        self.emit(Instr::ConstInt { bits: 64, constant: value })
    }

    /// Binds `name` to `value`, in front of any earlier binding of it.
    pub fn add_local(&mut self, name: &String, value: StateValue)
        ensures
            final(self)@ == old(self)@.add_local(name@, value@),
            spec_keeps(old(self)@, final(self)@),
            spec_working(old(self)@) && spec_known(old(self)@, value@) ==> spec_working(
                final(self)@,
            ),
    {
        self.locals.push((name.clone(), value));
        proof {
            reveal(spec_ordered);
            reveal(spec_value_known);
            reveal(spec_block_known);
            assert(self@.functions =~= old(self)@.functions);
            assert(self@.locals =~= old(self)@.locals.push((name@, value@)));
        }
    }

    /// The value most recently bound to `name`.
    pub fn get_local(&self, name: &String) -> (r: Option<&StateValue>)
        ensures
            match r {
                Some(v) => self@.get_local(name@) == Some(v@) && (spec_ordered(self@) ==> spec_known(
                    self@,
                    v@,
                )),
                None => self@.get_local(name@) is None,
            },
    {
        proof {
            reveal(spec_ordered);
        }
        let mut i: usize = self.locals.len();
        while i > 0
            invariant
                i <= self.locals.len(),
                spec_ordered(self@) ==> forall|k: int|
                    0 <= k < self@.locals.len() ==> spec_known(self@, (#[trigger] self@.locals[k]).1),
                last_local_named(self@.locals, name@, self.locals.len() as int)
                    == last_local_named(self@.locals, name@, i as int),
            decreases i,
        {
            if self.locals[i - 1].0 == *name {
                assert(self@.locals[i - 1].1 == self.locals@[i - 1].1@);
                return Some(&self.locals[i - 1].1);
            }
            i -= 1;
        }
        None
    }

    /// Forgets every binding.
    pub fn clear_locals(&mut self)
        ensures
            final(self)@ == old(self)@.clear_locals(),
            spec_keeps(old(self)@, final(self)@),
            spec_ordered(old(self)@) ==> spec_ordered(final(self)@),
    {
        self.locals = Vec::new();
        proof {
            reveal(spec_ordered);
            reveal(spec_value_known);
            reveal(spec_block_known);
            assert(self@.functions =~= old(self)@.functions);
            assert(self@.locals =~= Seq::empty());
        }
    }
}

/// A pointer to a slot that holds a value of a known representation.
#[derive(Debug, PartialEq, Eq)]
pub struct TypedPointer {
    pub ptr: usize,
    pub value_type: Vec<TypePrimitive>,
}

pub struct TypedPointerSpec {
    pub ptr: usize,
    pub value_type: Seq<PrimitiveSpec>,
}

impl View for TypedPointer {
    type V = TypedPointerSpec;

    open spec fn view(&self) -> TypedPointerSpec {
        TypedPointerSpec { ptr: self.ptr, value_type: primitives_view(self.value_type@) }
    }
}

/// A pointer to the update slot of a handle, with the pointer to the
/// bitfield beside it, the handle's bit, and what the pointer is for.
#[derive(Debug, PartialEq, Eq)]
pub struct UpdatePointer {
    pub target: TypedPointer,
    pub bitfield_ptr: usize,
    pub mask: u64,
    pub purpose: UpdatePtrPurpose,
}

pub struct UpdatePointerSpec {
    pub target: TypedPointerSpec,
    pub bitfield_ptr: usize,
    pub mask: u64,
    pub purpose: UpdatePtrPurpose,
}

impl View for UpdatePointer {
    type V = UpdatePointerSpec;

    open spec fn view(&self) -> UpdatePointerSpec {
        UpdatePointerSpec {
            target: self.target@,
            bitfield_ptr: self.bitfield_ptr,
            mask: self.mask,
            purpose: self.purpose,
        }
    }
}

/// The bit of the bitfield that belongs to the handle at `idx`.
pub open spec fn handle_bit(idx: int) -> u64 {
    1u64 << (idx as u64)
}

impl CodegenSpec {
    /// Emits the address of the bitfield in the state at `state_ptr`.
    pub open spec fn module_bitfield_ptr(self, module: ModuleDecl, state_ptr: usize) -> (
        CodegenSpec,
        usize,
    ) {
        (
            self.emit(
                InstrSpec::StructGep {
                    ptr: state_ptr,
                    index: bitfield_slot(module) as u32,
                    name: "bitfield_ptr"@,
                },
            ),
            self.next_id(),
        )
    }

    /// Emits the address of the state of the submodule at `index`.
    pub open spec fn submodule_ptr(self, module: ModuleDecl, state_ptr: usize, index: usize) -> Result<
        (CodegenSpec, usize),
        ErrorSpec,
    > {
        if index >= module.submodules@.len() {
            Err(ErrorSpec::TypeMismatch)
        } else {
            Ok(
                (
                    self.emit(
                        InstrSpec::StructGep {
                            ptr: state_ptr,
                            index: submodule_slot(module, index as int) as u32,
                            name: "submodule_ptr"@,
                        },
                    ),
                    self.next_id(),
                ),
            )
        }
    }

    /// Emits the address of the current slot of the handle called `name`.
    pub open spec fn read_ptr_for_field(self, module: ModuleDecl, state_ptr: usize, name: Seq<char>)
        -> Result<(CodegenSpec, TypedPointerSpec), ErrorSpec> {
        match module.spec_idx_for_field(name) {
            None => Err(ErrorSpec::BadReadFieldName(name)),
            Some(i) => Ok(
                (
                    self.emit(
                        InstrSpec::StructGep {
                            ptr: state_ptr,
                            index: current_slot(i) as u32,
                            name: "read_ptr"@,
                        },
                    ),
                    TypedPointerSpec {
                        ptr: self.next_id(),
                        value_type: spec_type_primitive_for_type(module.handles@[i].h_type),
                    },
                ),
            ),
        }
    }

    /// Emits the address of the update slot of the handle called `name`,
    /// and that of the bitfield.
    pub open spec fn update_ptr_for_field(
        self,
        module: ModuleDecl,
        state_ptr: usize,
        name: Seq<char>,
        purpose: UpdatePtrPurpose,
    ) -> Result<(CodegenSpec, UpdatePointerSpec), ErrorSpec> {
        match module.spec_idx_for_field(name) {
            None => Err(ErrorSpec::BadReadFieldName(name)),
            Some(i) => {
                let with_slot = self.emit(
                    InstrSpec::StructGep {
                        ptr: state_ptr,
                        index: update_slot(i) as u32,
                        name: "update_ptr"@,
                    },
                );
                let (with_bitfield, bitfield_ptr) = with_slot.module_bitfield_ptr(
                    module,
                    state_ptr,
                );
                Ok(
                    (
                        with_bitfield,
                        UpdatePointerSpec {
                            target: TypedPointerSpec {
                                ptr: self.next_id(),
                                value_type: spec_type_primitive_for_type(module.handles@[i].h_type),
                            },
                            bitfield_ptr,
                            mask: handle_bit(i),
                            purpose,
                        },
                    ),
                )
            },
        }
    }
}

impl CodegenState {
    /// Emits the address of the bitfield in the state at `state_ptr`.
    pub fn module_bitfield_ptr(&mut self, module: &ModuleDecl, state_ptr: usize) -> (r: usize)
        requires
            old(self)@.in_function(),
            spec_well_formed(*module),
        ensures
            (final(self)@, r) == old(self)@.module_bitfield_ptr(*module, state_ptr),
            final(self)@.in_function(),
            final(self)@.position == old(self)@.position,
            spec_keeps(old(self)@, final(self)@),
            spec_working(old(self)@) && spec_value_known(old(self)@, state_ptr) ==> spec_working(
                final(self)@,
            ) && spec_value_known(final(self)@, r),
    {
        let index: u32 = (2 * module.handles.len()) as u32;
        self.emit(
            Instr::StructGep { ptr: state_ptr, index, name: String::from_str("bitfield_ptr") },
        )
    }

    /// Emits the address of the state of the submodule at `index`. There
    /// has to be such a submodule.
    pub fn submodule_ptr(&mut self, module: &ModuleDecl, state_ptr: usize, index: usize) -> (r:
        CodegenResult<usize>)
        requires
            old(self)@.in_function(),
            spec_well_formed(*module),
        ensures
            final(self)@.in_function(),
            final(self)@.position == old(self)@.position,
            outcome(final(self)@, r) == old(self)@.submodule_ptr(*module, state_ptr, index),
            spec_keeps(old(self)@, final(self)@),
            spec_working(old(self)@) && spec_value_known(old(self)@, state_ptr) ==> spec_working(
                final(self)@,
            ) && (r is Ok ==> spec_value_known(final(self)@, r.unwrap())),
    {
        if index >= module.submodules.len() {
            return Err(CodegenError::TypeMismatch(String::from_str("no such submodule")));
        }
        let slot: u32 = (2 * module.handles.len() + 1 + index) as u32;
        Ok(
            self.emit(
                Instr::StructGep {
                    ptr: state_ptr,
                    index: slot,
                    name: String::from_str("submodule_ptr"),
                },
            ),
        )
    }

    /// Emits the address of the current slot of the handle called `name`.
    /// The module has to have such a handle.
    pub fn read_ptr_for_field(&mut self, module: &ModuleDecl, state_ptr: usize, name: &String) -> (r:
        CodegenResult<TypedPointer>)
        requires
            old(self)@.in_function(),
            spec_well_formed(*module),
        ensures
            final(self)@.in_function(),
            final(self)@.position == old(self)@.position,
            outcome(final(self)@, r) == old(self)@.read_ptr_for_field(*module, state_ptr, name@),
            spec_keeps(old(self)@, final(self)@),
            spec_working(old(self)@) && spec_value_known(old(self)@, state_ptr) ==> spec_working(
                final(self)@,
            ) && (r is Ok ==> spec_value_known(final(self)@, r.unwrap().ptr)),
    {
        match module.idx_for_field(name) {
            None => Err(CodegenError::BadReadFieldName(name.clone())),
            Some(i) => {
                let index: u32 = (2 * i) as u32;
                let ptr = self.emit(
                    Instr::StructGep { ptr: state_ptr, index, name: String::from_str("read_ptr") },
                );
                Ok(
                    TypedPointer {
                        ptr,
                        value_type: type_primitive_for_type(&module.handles[i].h_type),
                    },
                )
            },
        }
    }

    /// Emits the address of the update slot of the handle called `name`,
    /// and that of the bitfield. The module has to have such a handle.
    pub fn update_ptr_for_field(
        &mut self,
        module: &ModuleDecl,
        state_ptr: usize,
        name: &String,
        purpose: UpdatePtrPurpose,
    ) -> (r: CodegenResult<UpdatePointer>)
        requires
            old(self)@.in_function(),
            spec_well_formed(*module),
        ensures
            final(self)@.in_function(),
            final(self)@.position == old(self)@.position,
            outcome(final(self)@, r) == old(self)@.update_ptr_for_field(
                *module,
                state_ptr,
                name@,
                purpose,
            ),
            spec_keeps(old(self)@, final(self)@),
            spec_working(old(self)@) && spec_value_known(old(self)@, state_ptr) ==> spec_working(
                final(self)@,
            ) && (r is Ok ==> spec_value_known(final(self)@, r.unwrap().target.ptr)
                && spec_value_known(final(self)@, r.unwrap().bitfield_ptr)),
    {
        match module.idx_for_field(name) {
            None => Err(CodegenError::BadReadFieldName(name.clone())),
            Some(i) => {
                let index: u32 = (2 * i + 1) as u32;
                let ptr = self.emit(
                    Instr::StructGep { ptr: state_ptr, index, name: String::from_str("update_ptr") },
                );
                let bitfield_ptr = self.module_bitfield_ptr(module, state_ptr);
                let mask: u64 = 1u64 << (i as u64);
                Ok(
                    UpdatePointer {
                        target: TypedPointer {
                            ptr,
                            value_type: type_primitive_for_type(&module.handles[i].h_type),
                        },
                        bitfield_ptr,
                        mask,
                        purpose,
                    },
                )
            },
        }
    }
}

} // verus!
