//! The instruction streams that the generator produces: every call it
//! makes on the IR builder, in the order in which it makes them.

use vstd::prelude::*;

verus! {

/// The widest integer type that the generator uses.
pub const MAX_INT_BITS: u32 = 64;

/// An IR type.
#[derive(Debug, PartialEq, Eq)]
pub enum IrType {
    /// An integer of the given width in bits.
    Int(u32),
    /// A pointer to a value of the inner type.
    Pointer(Box<IrType>),
    /// An anonymous struct of the given fields; packed if the flag is set.
    Struct(Vec<IrType>, bool),
}

/// The mathematical value of an `IrType`.
pub enum IrTypeSpec {
    Int(u32),
    Pointer(Box<IrTypeSpec>),
    Struct(Seq<IrTypeSpec>, bool),
}

pub open spec fn ir_types_view(s: Seq<IrType>) -> Seq<IrTypeSpec>
    decreases s,
{
    Seq::new(
        s.len(),
        |i: int|
            if 0 <= i < s.len() {
                ir_type_view(s[i])
            } else {
                IrTypeSpec::Int(0)
            },
    )
}

pub open spec fn ir_type_view(t: IrType) -> IrTypeSpec
    decreases t,
{
    match t {
        IrType::Int(bits) => IrTypeSpec::Int(bits),
        IrType::Pointer(inner) => IrTypeSpec::Pointer(Box::new(ir_type_view(*inner))),
        IrType::Struct(fields, packed) => IrTypeSpec::Struct(ir_types_view(fields@), packed),
    }
}

impl View for IrType {
    type V = IrTypeSpec;

    open spec fn view(&self) -> IrTypeSpec {
        ir_type_view(*self)
    }
}

impl IrTypeSpec {
    /// The 64-bit integer type.
    pub open spec fn word() -> IrTypeSpec {
        IrTypeSpec::Int(64)
    }

    /// The byte type.
    pub open spec fn byte() -> IrTypeSpec {
        IrTypeSpec::Int(8)
    }

    pub open spec fn pointer_to(self) -> IrTypeSpec {
        IrTypeSpec::Pointer(Box::new(self))
    }
}

/// Whether every integer type inside `ty` has a width of at least one bit and
/// at most 64.
pub open spec fn spec_type_supported(ty: IrTypeSpec) -> bool
    decreases ty,
{
    match ty {
        IrTypeSpec::Int(bits) => 1 <= bits <= MAX_INT_BITS,
        IrTypeSpec::Pointer(pointee) => spec_type_supported(*pointee),
        IrTypeSpec::Struct(fields, _) => forall|i: int|
            0 <= i < fields.len() ==> spec_type_supported(#[trigger] fields[i]),
    }
}

/// Whether every type of `types` is supported.
pub open spec fn spec_types_supported(types: Seq<IrTypeSpec>) -> bool {
    forall|i: int| 0 <= i < types.len() ==> spec_type_supported(#[trigger] types[i])
}

/// Whether every struct type inside `ty` has few enough fields for their
/// number to be written in 32 bits, as LLVM writes it.
pub open spec fn spec_type_fits(ty: IrTypeSpec) -> bool
    decreases ty,
{
    match ty {
        IrTypeSpec::Int(_) => true,
        IrTypeSpec::Pointer(pointee) => spec_type_fits(*pointee),
        IrTypeSpec::Struct(fields, _) => fields.len() <= u32::MAX && forall|i: int|
            0 <= i < fields.len() ==> spec_type_fits(#[trigger] fields[i]),
    }
}

/// Whether every type of `types` fits, and their number too.
pub open spec fn spec_types_fit(types: Seq<IrTypeSpec>) -> bool {
    types.len() <= u32::MAX && forall|i: int|
        0 <= i < types.len() ==> spec_type_fits(#[trigger] types[i])
}

/// A struct fits where its fields do.
pub proof fn lemma_struct_fits(fields: Seq<IrTypeSpec>, packed: bool)
    ensures
        spec_type_fits(IrTypeSpec::Struct(fields, packed)) == spec_types_fit(fields),
{
    let ty = IrTypeSpec::Struct(fields, packed);
    assert(ty->Struct_0 == fields);
    if spec_type_fits(ty) {
        assert forall|i: int| 0 <= i < fields.len() implies spec_type_fits(#[trigger] fields[i]) by {}
    }
    if spec_types_fit(fields) {
        assert forall|i: int| 0 <= i < fields.len() implies spec_type_fits(#[trigger] fields[i]) by {}
    }
}

/// A struct is supported where its fields are.
pub proof fn lemma_struct_supported(fields: Seq<IrTypeSpec>, packed: bool)
    ensures
        spec_type_supported(IrTypeSpec::Struct(fields, packed)) == spec_types_supported(fields),
{
    let ty = IrTypeSpec::Struct(fields, packed);
    assert(ty->Struct_0 == fields);
    if spec_type_supported(ty) {
        assert forall|i: int| 0 <= i < fields.len() implies spec_type_supported(
            #[trigger] fields[i],
        ) by {}
    }
    if spec_types_supported(fields) {
        assert forall|i: int| 0 <= i < fields.len() implies spec_type_supported(
            #[trigger] fields[i],
        ) by {}
    }
}

/// Whether `ty` is the type of pointers to a struct that has a field at
/// `index`.
pub open spec fn spec_has_field(ty: IrTypeSpec, index: u32) -> bool {
    ty is Pointer && *ty->Pointer_0 is Struct && index < (*ty->Pointer_0)->Struct_0.len()
}

/// The type of the field at `index` of the struct that a pointer of type
/// `ty` points to.
pub open spec fn spec_field_type(ty: IrTypeSpec, index: u32) -> IrTypeSpec {
    (*ty->Pointer_0)->Struct_0[index as int]
}

impl IrType {
    /// Whether this is an integer type.
    pub fn is_int(&self) -> (r: bool)
        ensures
            r == (self@ is Int),
    {
        match self {
            IrType::Int(_) => true,
            _ => false,
        }
    }

    /// The type that a pointer of this type points to, if this is a pointer
    /// type.
    pub fn pointee(&self) -> (r: Option<&IrType>)
        ensures
            r is Some <==> self@ is Pointer,
            r is Some ==> r.unwrap()@ == *self@->Pointer_0,
    {
        match self {
            IrType::Pointer(inner) => Some(inner),
            _ => None,
        }
    }

    /// The type of the field at `index` of the struct that a pointer of
    /// this type points to, if this is the type of pointers to a struct with
    /// that many fields.
    pub fn field(&self, index: u32) -> (r: Option<&IrType>)
        ensures
            r is Some <==> spec_has_field(self@, index),
            r is Some ==> r.unwrap()@ == spec_field_type(self@, index),
    {
        match self {
            IrType::Pointer(inner) => inner.own_field(index),
            _ => None,
        }
    }

    /// The type of the field at `index` of this struct type, if this is a
    /// struct type with that many fields.
    pub fn own_field(&self, index: u32) -> (r: Option<&IrType>)
        ensures
            r is Some <==> self@ is Struct && index < self@->Struct_0.len(),
            r is Some ==> r.unwrap()@ == self@->Struct_0[index as int],
    {
        match self {
            IrType::Struct(fields, _) => {
                assert(self@->Struct_0 == ir_types_view(fields@));
                assert(ir_types_view(fields@).len() == fields@.len());
                if (index as usize) < fields.len() {
                    assert(ir_types_view(fields@)[index as int] == fields@[index as int]@);
                    Some(&fields[index as usize])
                } else {
                    None
                }
            },
            _ => None,
        }
    }

    pub fn clone_all(v: &Vec<IrType>) -> (r: Vec<IrType>)
        ensures
            ir_types_view(r@) == ir_types_view(v@),
        decreases v,
    {
        let mut out: Vec<IrType> = Vec::new();
        let mut i: usize = 0;
        while i < v.len()
            invariant
                i <= v.len(),
                out@.len() == i,
                forall|j: int| 0 <= j < i ==> out@[j]@ == v@[j]@,
            decreases v.len() - i,
        {
            out.push(v[i].duplicate());
            i += 1;
        }
        assert(ir_types_view(out@) =~= ir_types_view(v@));
        out
    }

    /// Whether the two sequences of types are the same.
    pub fn same_all(a: &Vec<IrType>, b: &Vec<IrType>) -> (r: bool)
        ensures
            r == (ir_types_view(a@) == ir_types_view(b@)),
        decreases a,
    {
        if a.len() != b.len() {
            assert(ir_types_view(a@).len() != ir_types_view(b@).len());
            return false;
        }
        let mut i: usize = 0;
        while i < a.len()
            invariant
                i <= a.len(),
                a.len() == b.len(),
                forall|j: int| 0 <= j < i ==> a@[j]@ == b@[j]@,
            decreases a.len() - i,
        {
            if !a[i].same(&b[i]) {
                assert(ir_types_view(a@)[i as int] == a@[i as int]@);
                assert(ir_types_view(b@)[i as int] == b@[i as int]@);
                return false;
            }
            i += 1;
        }
        assert(ir_types_view(a@) =~= ir_types_view(b@));
        true
    }

    /// Whether the two types are the same.
    pub fn same(&self, other: &IrType) -> (r: bool)
        ensures
            r == (self@ == other@),
        decreases self,
    {
        match (self, other) {
            (IrType::Int(a), IrType::Int(b)) => *a == *b,
            (IrType::Pointer(a), IrType::Pointer(b)) => a.same(b),
            (IrType::Struct(a, p), IrType::Struct(b, q)) => *p == *q && IrType::same_all(a, b),
            _ => false,
        }
    }

    /// A copy of the type.
    pub fn duplicate(&self) -> (r: IrType)
        ensures
            r@ == self@,
        decreases self,
    {
        match self {
            IrType::Int(bits) => IrType::Int(*bits),
            IrType::Pointer(inner) => IrType::Pointer(Box::new(inner.duplicate())),
            IrType::Struct(fields, packed) => IrType::Struct(IrType::clone_all(fields), *packed),
        }
    }

    pub fn word() -> (r: IrType)
        ensures
            r@ == IrTypeSpec::word(),
            spec_type_supported(r@),
    {
        IrType::Int(64)
    }

    pub fn byte() -> (r: IrType)
        ensures
            r@ == IrTypeSpec::byte(),
            spec_type_supported(r@),
    {
        IrType::Int(8)
    }

    pub fn pointer_to(self) -> (r: IrType)
        ensures
            r@ == self@.pointer_to(),
            spec_type_supported(r@) == spec_type_supported(self@),
    {
        IrType::Pointer(Box::new(self))
    }
}

/// The two-operand integer instructions.
#[derive(Clone, Copy, Debug, PartialEq, Eq, Structural)]
pub enum BinaryOp {
    And,
    Or,
    Add,
    Mul,
}

/// The integer comparisons.
#[derive(Clone, Copy, Debug, PartialEq, Eq, Structural)]
pub enum Predicate {
    Equal,
    NotEqual,
    SignedLess,
    SignedGreater,
    UnsignedLess,
    UnsignedGreater,
}

/// One call on the IR builder. Operands name earlier entries of the same
/// function's code by their position in it: a value operand names the entry
/// that produced the value, a block operand the `Block` entry that made the
/// block.
#[derive(Debug, PartialEq, Eq)]
pub enum Instr {
    /// Appends a basic block to the function.
    Block { name: String },
    /// The function's parameter at `index`.
    Param { index: u32 },
    /// An integer constant of width `bits`.
    ConstInt { bits: u32, constant: u64 },
    /// The address of a module-level constant holding the bytes of `text`.
    GlobalString { text: String, name: String },
    /// Reserves a stack slot of type `ty`; the value is its address.
    Alloca { ty: IrType, name: String },
    Load { ptr: usize, name: String },
    Store { ptr: usize, value: usize },
    /// The address of field `index` of the struct that `ptr` points to.
    StructGep { ptr: usize, index: u32, name: String },
    Binary { op: BinaryOp, lhs: usize, rhs: usize, name: String },
    Compare { predicate: Predicate, lhs: usize, rhs: usize, name: String },
    /// The address held in `ptr`, as a 64-bit integer.
    PtrToInt { ptr: usize, name: String },
    /// The integer `address`, as a pointer to `pointee`.
    IntToPtr { address: usize, pointee: IrType, name: String },
    /// The pointer `ptr`, as a pointer to `pointee`.
    PointerCast { ptr: usize, pointee: IrType, name: String },
    /// Calls the module's function at `callee`.
    Call { callee: usize, args: Vec<usize>, name: String },
    /// Merges one value per predecessor: each pair is a value and the block
    /// that control arrives from.
    Phi { ty: IrType, incoming: Vec<(usize, usize)>, name: String },
    Br { target: usize },
    CondBr { condition: usize, if_true: usize, if_false: usize },
    /// Returns from the function, which yields nothing.
    Ret,
}

/// The mathematical value of an `Instr`.
pub enum InstrSpec {
    Block { name: Seq<char> },
    Param { index: u32 },
    ConstInt { bits: u32, constant: u64 },
    GlobalString { text: Seq<char>, name: Seq<char> },
    Alloca { ty: IrTypeSpec, name: Seq<char> },
    Load { ptr: usize, name: Seq<char> },
    Store { ptr: usize, value: usize },
    StructGep { ptr: usize, index: u32, name: Seq<char> },
    Binary { op: BinaryOp, lhs: usize, rhs: usize, name: Seq<char> },
    Compare { predicate: Predicate, lhs: usize, rhs: usize, name: Seq<char> },
    PtrToInt { ptr: usize, name: Seq<char> },
    IntToPtr { address: usize, pointee: IrTypeSpec, name: Seq<char> },
    PointerCast { ptr: usize, pointee: IrTypeSpec, name: Seq<char> },
    Call { callee: usize, args: Seq<usize>, name: Seq<char> },
    Phi { ty: IrTypeSpec, incoming: Seq<(usize, usize)>, name: Seq<char> },
    Br { target: usize },
    CondBr { condition: usize, if_true: usize, if_false: usize },
    Ret,
}

impl View for Instr {
    type V = InstrSpec;

    open spec fn view(&self) -> InstrSpec {
        match *self {
            Instr::Block { name } => InstrSpec::Block { name: name@ },
            Instr::Param { index } => InstrSpec::Param { index },
            Instr::ConstInt { bits, constant } => InstrSpec::ConstInt { bits, constant },
            Instr::GlobalString { text, name } => InstrSpec::GlobalString {
                text: text@,
                name: name@,
            },
            Instr::Alloca { ty, name } => InstrSpec::Alloca { ty: ty@, name: name@ },
            Instr::Load { ptr, name } => InstrSpec::Load { ptr, name: name@ },
            Instr::Store { ptr, value } => InstrSpec::Store { ptr, value },
            Instr::StructGep { ptr, index, name } => InstrSpec::StructGep { ptr, index, name: name@ },
            Instr::Binary { op, lhs, rhs, name } => InstrSpec::Binary { op, lhs, rhs, name: name@ },
            Instr::Compare { predicate, lhs, rhs, name } => InstrSpec::Compare {
                predicate,
                lhs,
                rhs,
                name: name@,
            },
            Instr::PtrToInt { ptr, name } => InstrSpec::PtrToInt { ptr, name: name@ },
            Instr::IntToPtr { address, pointee, name } => InstrSpec::IntToPtr {
                address,
                pointee: pointee@,
                name: name@,
            },
            Instr::PointerCast { ptr, pointee, name } => InstrSpec::PointerCast {
                ptr,
                pointee: pointee@,
                name: name@,
            },
            Instr::Call { callee, args, name } => InstrSpec::Call { callee, args: args@, name: name@ },
            Instr::Phi { ty, incoming, name } => InstrSpec::Phi {
                ty: ty@,
                incoming: incoming@,
                name: name@,
            },
            Instr::Br { target } => InstrSpec::Br { target },
            Instr::CondBr { condition, if_true, if_false } => InstrSpec::CondBr {
                condition,
                if_true,
                if_false,
            },
            Instr::Ret => InstrSpec::Ret,
        }
    }
}

/// An instruction together with the block at whose end the builder stood
/// when it was issued, if it stood anywhere.
#[derive(Debug, PartialEq, Eq)]
pub struct Emitted {
    pub at: Option<usize>,
    pub instr: Instr,
}

pub struct EmittedSpec {
    pub at: Option<usize>,
    pub instr: InstrSpec,
}

impl View for Emitted {
    type V = EmittedSpec;

    open spec fn view(&self) -> EmittedSpec {
        EmittedSpec { at: self.at, instr: self.instr@ }
    }
}

pub open spec fn code_view(code: Seq<Emitted>) -> Seq<EmittedSpec> {
    Seq::new(code.len(), |i: int| code[i]@)
}

/// A function of a module: its signature and the builder calls that make
/// its body. A function without code is only declared.
#[derive(Debug, PartialEq, Eq)]
pub struct FunctionPlan {
    pub name: String,
    pub params: Vec<IrType>,
    pub result: Option<IrType>,
    pub var_args: bool,
    pub code: Vec<Emitted>,
}

pub struct FunctionSpec {
    pub name: Seq<char>,
    pub params: Seq<IrTypeSpec>,
    pub result: Option<IrTypeSpec>,
    pub var_args: bool,
    pub code: Seq<EmittedSpec>,
}

impl View for FunctionPlan {
    type V = FunctionSpec;

    open spec fn view(&self) -> FunctionSpec {
        FunctionSpec {
            name: self.name@,
            params: ir_types_view(self.params@),
            result: match self.result {
                Some(t) => Some(t@),
                None => None,
            },
            var_args: self.var_args,
            code: code_view(self.code@),
        }
    }
}

/// A copy of the entry numbers.
pub fn copy_ids(ids: &Vec<usize>) -> (r: Vec<usize>)
    ensures
        r@ == ids@,
{
    let mut out: Vec<usize> = Vec::new();
    let mut i: usize = 0;
    while i < ids.len()
        invariant
            i <= ids.len(),
            out@ == ids@.take(i as int),
        decreases ids.len() - i,
    {
        out.push(ids[i]);
        assert(ids@.take(i + 1) == ids@.take(i as int).push(ids@[i as int]));
        i += 1;
    }
    assert(ids@.take(ids@.len() as int) == ids@);
    out
}

/// A copy of the pairs of entry numbers.
pub fn copy_pairs(pairs: &Vec<(usize, usize)>) -> (r: Vec<(usize, usize)>)
    ensures
        r@ == pairs@,
{
    let mut out: Vec<(usize, usize)> = Vec::new();
    let mut i: usize = 0;
    while i < pairs.len()
        invariant
            i <= pairs.len(),
            out@ == pairs@.take(i as int),
        decreases pairs.len() - i,
    {
        out.push((pairs[i].0, pairs[i].1));
        assert(pairs@.take(i + 1) == pairs@.take(i as int).push(pairs@[i as int]));
        i += 1;
    }
    assert(pairs@.take(pairs@.len() as int) == pairs@);
    out
}

impl Instr {
    /// A copy of the instruction.
    pub fn duplicate(&self) -> (r: Instr)
        ensures
            r@ == self@,
    {
        match self {
            Instr::Block { name } => Instr::Block { name: name.clone() },
            Instr::Param { index } => Instr::Param { index: *index },
            Instr::ConstInt { bits, constant } => Instr::ConstInt {
                bits: *bits,
                constant: *constant,
            },
            Instr::GlobalString { text, name } => Instr::GlobalString {
                text: text.clone(),
                name: name.clone(),
            },
            Instr::Alloca { ty, name } => Instr::Alloca { ty: ty.duplicate(), name: name.clone() },
            Instr::Load { ptr, name } => Instr::Load { ptr: *ptr, name: name.clone() },
            Instr::Store { ptr, value } => Instr::Store { ptr: *ptr, value: *value },
            Instr::StructGep { ptr, index, name } => Instr::StructGep {
                ptr: *ptr,
                index: *index,
                name: name.clone(),
            },
            Instr::Binary { op, lhs, rhs, name } => Instr::Binary {
                op: *op,
                lhs: *lhs,
                rhs: *rhs,
                name: name.clone(),
            },
            Instr::Compare { predicate, lhs, rhs, name } => Instr::Compare {
                predicate: *predicate,
                lhs: *lhs,
                rhs: *rhs,
                name: name.clone(),
            },
            Instr::PtrToInt { ptr, name } => Instr::PtrToInt { ptr: *ptr, name: name.clone() },
            Instr::IntToPtr { address, pointee, name } => Instr::IntToPtr {
                address: *address,
                pointee: pointee.duplicate(),
                name: name.clone(),
            },
            Instr::PointerCast { ptr, pointee, name } => Instr::PointerCast {
                ptr: *ptr,
                pointee: pointee.duplicate(),
                name: name.clone(),
            },
            Instr::Call { callee, args, name } => Instr::Call {
                callee: *callee,
                args: copy_ids(args),
                name: name.clone(),
            },
            Instr::Phi { ty, incoming, name } => Instr::Phi {
                ty: ty.duplicate(),
                incoming: copy_pairs(incoming),
                name: name.clone(),
            },
            Instr::Br { target } => Instr::Br { target: *target },
            Instr::CondBr { condition, if_true, if_false } => Instr::CondBr {
                condition: *condition,
                if_true: *if_true,
                if_false: *if_false,
            },
            Instr::Ret => Instr::Ret,
        }
    }
}

impl Emitted {
    /// A copy of the entry.
    pub fn duplicate(&self) -> (r: Emitted)
        ensures
            r@ == self@,
    {
        Emitted { at: self.at, instr: self.instr.duplicate() }
    }

    /// A copy of the code.
    pub fn clone_all(code: &Vec<Emitted>) -> (r: Vec<Emitted>)
        ensures
            code_view(r@) == code_view(code@),
    {
        let mut out: Vec<Emitted> = Vec::new();
        let mut i: usize = 0;
        while i < code.len()
            invariant
                i <= code.len(),
                out@.len() == i,
                forall|j: int| 0 <= j < i ==> out@[j]@ == code@[j]@,
            decreases code.len() - i,
        {
            out.push(code[i].duplicate());
            i += 1;
        }
        assert(code_view(out@) =~= code_view(code@));
        out
    }
}

impl FunctionPlan {
    /// A copy of the function.
    pub fn duplicate(&self) -> (r: FunctionPlan)
        ensures
            r@ == self@,
    {
        FunctionPlan {
            name: self.name.clone(),
            params: IrType::clone_all(&self.params),
            result: match &self.result {
                Some(t) => Some(t.duplicate()),
                None => None,
            },
            var_args: self.var_args,
            code: Emitted::clone_all(&self.code),
        }
    }

    /// A copy of the functions.
    pub fn clone_all(functions: &Vec<FunctionPlan>) -> (r: Vec<FunctionPlan>)
        ensures
            functions_view(r@) == functions_view(functions@),
    {
        let mut out: Vec<FunctionPlan> = Vec::new();
        let mut i: usize = 0;
        while i < functions.len()
            invariant
                i <= functions.len(),
                out@.len() == i,
                forall|j: int| 0 <= j < i ==> out@[j]@ == functions@[j]@,
            decreases functions.len() - i,
        {
            out.push(functions[i].duplicate());
            i += 1;
        }
        assert(functions_view(out@) =~= functions_view(functions@));
        out
    }
}

pub open spec fn functions_view(functions: Seq<FunctionPlan>) -> Seq<FunctionSpec> {
    Seq::new(functions.len(), |i: int| functions[i]@)
}

/// The position of the first function called `name` at or after `from`.
pub open spec fn first_function_named(functions: Seq<FunctionSpec>, name: Seq<char>, from: int) -> Option<int>
    decreases functions.len() - from,
{
    if from < 0 || from >= functions.len() {
        None
    } else if functions[from].name == name {
        Some(from)
    } else {
        first_function_named(functions, name, from + 1)
    }
}

/// A found function lies in range, bears the name, and is the first to do so.
pub proof fn lemma_first_function_named(functions: Seq<FunctionSpec>, name: Seq<char>, from: int)
    requires
        0 <= from,
    ensures
        match first_function_named(functions, name, from) {
            Some(i) => from <= i < functions.len() && functions[i].name == name && forall|j: int|
                from <= j < i ==> functions[j].name != name,
            None => forall|j: int| from <= j < functions.len() ==> functions[j].name != name,
        },
    decreases functions.len() - from,
{
    if from < functions.len() && functions[from].name != name {
        lemma_first_function_named(functions, name, from + 1);
    }
}

} // verus!
