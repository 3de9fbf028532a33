//! The C runtime functions that generated code calls. Each is declared in
//! the module the first time it is needed.

use crate::ir_gen::codegen_state::{CodegenSpec, CodegenState, CodegenStatus};
use crate::ir_gen::state_values::{StateValue, StateValueSpec};
use crate::ir_gen::ir::{
    ir_types_view, spec_type_supported, spec_types_supported, Instr, InstrSpec, IrType, IrTypeSpec,
};
use crate::ir_gen::order::{
    spec_carries, spec_keeps, spec_known, spec_ordered, spec_value_known, spec_working,
};
use vstd::prelude::*;
use vstd::string::*;

verus! {

impl CodegenSpec {
    /// The function called `name`, declared with the given signature if the
    /// module has none of that name.
    pub open spec fn declare(
        self,
        name: Seq<char>,
        params: Seq<IrTypeSpec>,
        result: Option<IrTypeSpec>,
        var_args: bool,
    ) -> (CodegenSpec, usize) {
        match self.get_function(name) {
            Some(i) => (self, i as usize),
            None => (
                self.add_function(name, params, result, var_args),
                self.functions.len() as usize,
            ),
        }
    }

    /// `malloc`, which takes a 64-bit size and gives a byte pointer.
    pub open spec fn get_malloc(self) -> (CodegenSpec, usize) {
        self.declare(
            "malloc"@,
            seq![IrTypeSpec::word()],
            Some(IrTypeSpec::byte().pointer_to()),
            false,
        )
    }

    /// `free`, which takes a byte pointer and gives nothing.
    pub open spec fn get_free(self) -> (CodegenSpec, usize) {
        self.declare("free"@, seq![IrTypeSpec::byte().pointer_to()], None, false)
    }

    /// `memcmp`, which takes two byte pointers and a 64-bit size and gives a
    /// 64-bit integer.
    pub open spec fn get_memcmp(self) -> (CodegenSpec, usize) {
        self.declare(
            "memcmp"@,
            seq![
                IrTypeSpec::byte().pointer_to(),
                IrTypeSpec::byte().pointer_to(),
                IrTypeSpec::word(),
            ],
            Some(IrTypeSpec::word()),
            false,
        )
    }

    /// `printf`, which takes a byte pointer and any further arguments and
    /// gives a 32-bit integer.
    pub open spec fn get_printf(self) -> (CodegenSpec, usize) {
        self.declare(
            "printf"@,
            seq![IrTypeSpec::byte().pointer_to()],
            Some(IrTypeSpec::Int(32)),
            true,
        )
    }

    /// A call of `malloc` for `size` bytes.
    pub open spec fn malloc(self, size: usize, name: Seq<char>) -> (CodegenSpec, usize) {
        let (declared, callee) = self.get_malloc();
        (declared.emit(InstrSpec::Call { callee, args: seq![size], name }), declared.next_id())
    }

    /// A call of `free` on `ptr`.
    pub open spec fn free(self, ptr: usize) -> CodegenSpec {
        let (declared, callee) = self.get_free();
        declared.emit(InstrSpec::Call { callee, args: seq![ptr], name: ""@ })
    }

    /// A call of `memcmp` on `size` bytes at `lhs` and at `rhs`.
    pub open spec fn memcmp(self, lhs: usize, rhs: usize, size: usize) -> (CodegenSpec, usize) {
        let (declared, callee) = self.get_memcmp();
        (
            declared.emit(
                InstrSpec::Call { callee, args: seq![lhs, rhs, size], name: "memcmp_result"@ },
            ),
            declared.next_id(),
        )
    }

    /// A call of `printf` that prints `text` after the marker `skunk> `.
    pub open spec fn debug_str(self, text: Seq<char>) -> CodegenSpec {
        let (declared, callee) = self.get_printf();
        declared.emit(
            InstrSpec::GlobalString { text: "skunk> "@ + text, name: "sk_str"@ },
        ).emit(InstrSpec::Call { callee, args: seq![declared.next_id()], name: "_"@ })
    }
}

impl CodegenState {
    /// The function called `name`, declared with the given signature if the
    /// module has none of that name.
    pub fn declare(
        &mut self,
        name: &str,
        params: Vec<IrType>,
        result: Option<IrType>,
        var_args: bool,
    ) -> (index: usize)
        ensures
            (final(self)@, index) == old(self)@.declare(
                name@,
                ir_types_view(params@),
                match result {
                    Some(t) => Some(t@),
                    None => None,
                },
                var_args,
            ),
            old(self)@.in_function() ==> final(self)@.in_function(),
            final(self)@.position == old(self)@.position,
            final(self)@.current == old(self)@.current,
            index < final(self)@.functions.len(),
            spec_keeps(old(self)@, final(self)@),
            (spec_ordered(old(self)@) && spec_types_supported(ir_types_view(params@)) && (result
                is Some ==> spec_type_supported(result.unwrap()@))) ==> spec_ordered(final(self)@),
            (spec_working(old(self)@) && spec_types_supported(ir_types_view(params@)) && (result
                is Some ==> spec_type_supported(result.unwrap()@))) ==> spec_working(final(self)@),
    {
        let owned = String::from_str(name);
        match self.get_function(&owned) {
            Some(i) => i,
            None => self.add_function(owned, params, result, var_args),
        }
    }
}

/// `malloc`, declared on first use.
pub fn get_malloc(cg: &mut CodegenState) -> (index: usize)
    ensures
        (final(cg)@, index) == old(cg)@.get_malloc(),
        old(cg)@.in_function() ==> final(cg)@.in_function(),
        final(cg)@.position == old(cg)@.position,
        index < final(cg)@.functions.len(),
        spec_keeps(old(cg)@, final(cg)@),
        spec_ordered(old(cg)@) ==> spec_ordered(final(cg)@),
        spec_working(old(cg)@) ==> spec_working(final(cg)@),
{
    let mut params: Vec<IrType> = Vec::new();
    params.push(IrType::word());
    assert(ir_types_view(params@) =~= seq![IrTypeSpec::word()]);
    cg.declare("malloc", params, Some(IrType::byte().pointer_to()), false)
}

/// `free`, declared on first use.
pub fn get_free(cg: &mut CodegenState) -> (index: usize)
    ensures
        (final(cg)@, index) == old(cg)@.get_free(),
        old(cg)@.in_function() ==> final(cg)@.in_function(),
        final(cg)@.position == old(cg)@.position,
        index < final(cg)@.functions.len(),
        spec_keeps(old(cg)@, final(cg)@),
        spec_ordered(old(cg)@) ==> spec_ordered(final(cg)@),
        spec_working(old(cg)@) ==> spec_working(final(cg)@),
{
    let mut params: Vec<IrType> = Vec::new();
    params.push(IrType::byte().pointer_to());
    assert(ir_types_view(params@) =~= seq![IrTypeSpec::byte().pointer_to()]);
    cg.declare("free", params, None, false)
}

/// `memcmp`, declared on first use.
pub fn get_memcmp(cg: &mut CodegenState) -> (index: usize)
    ensures
        (final(cg)@, index) == old(cg)@.get_memcmp(),
        old(cg)@.in_function() ==> final(cg)@.in_function(),
        final(cg)@.position == old(cg)@.position,
        index < final(cg)@.functions.len(),
        spec_keeps(old(cg)@, final(cg)@),
        spec_ordered(old(cg)@) ==> spec_ordered(final(cg)@),
        spec_working(old(cg)@) ==> spec_working(final(cg)@),
{
    let mut params: Vec<IrType> = Vec::new();
    params.push(IrType::byte().pointer_to());
    params.push(IrType::byte().pointer_to());
    params.push(IrType::word());
    assert(ir_types_view(params@) =~= seq![
        IrTypeSpec::byte().pointer_to(),
        IrTypeSpec::byte().pointer_to(),
        IrTypeSpec::word(),
    ]);
    cg.declare("memcmp", params, Some(IrType::word()), false)
}

/// `printf`, declared on first use.
pub fn get_printf(cg: &mut CodegenState) -> (index: usize)
    ensures
        (final(cg)@, index) == old(cg)@.get_printf(),
        old(cg)@.in_function() ==> final(cg)@.in_function(),
        final(cg)@.position == old(cg)@.position,
        index < final(cg)@.functions.len(),
        spec_keeps(old(cg)@, final(cg)@),
        spec_ordered(old(cg)@) ==> spec_ordered(final(cg)@),
        spec_working(old(cg)@) ==> spec_working(final(cg)@),
{
    let mut params: Vec<IrType> = Vec::new();
    params.push(IrType::byte().pointer_to());
    assert(ir_types_view(params@) =~= seq![IrTypeSpec::byte().pointer_to()]);
    cg.declare("printf", params, Some(IrType::Int(32)), true)
}

/// Emits a call of `malloc` for `size` bytes; the result is the address.
pub fn malloc(cg: &mut CodegenState, size: usize, name: &str) -> (r: usize)
    requires
        old(cg)@.in_function(),
    ensures
        (final(cg)@, r) == old(cg)@.malloc(size, name@),
        final(cg)@.in_function(),
        final(cg)@.position == old(cg)@.position,
        spec_keeps(old(cg)@, final(cg)@),
        spec_working(old(cg)@) && spec_value_known(old(cg)@, size) ==> spec_working(final(cg)@)
            && spec_value_known(final(cg)@, r),
{
    let callee = get_malloc(cg);
    let mut args: Vec<usize> = Vec::new();
    args.push(size);
    assert(args@ =~= seq![size]);
    cg.emit(Instr::Call { callee, args, name: String::from_str(name) })
}

/// Emits a call of `free` on `ptr`.
pub fn free(cg: &mut CodegenState, ptr: usize)
    requires
        old(cg)@.in_function(),
    ensures
        final(cg)@ == old(cg)@.free(ptr),
        final(cg)@.in_function(),
        final(cg)@.position == old(cg)@.position,
        spec_carries(
            old(cg)@,
            final(cg)@,
            spec_value_known(old(cg)@, ptr),
            true,
        ),
{
    let callee = get_free(cg);
    let mut args: Vec<usize> = Vec::new();
    args.push(ptr);
    assert(args@ =~= seq![ptr]);
    cg.emit(Instr::Call { callee, args, name: String::from_str("") });
}

/// Emits a call of `memcmp` on `size` bytes at `lhs` and at `rhs`; the
/// result is what it returns.
pub fn memcmp(cg: &mut CodegenState, lhs: usize, rhs: usize, size: usize) -> (r: usize)
    requires
        old(cg)@.in_function(),
    ensures
        (final(cg)@, r) == old(cg)@.memcmp(lhs, rhs, size),
        final(cg)@.in_function(),
        final(cg)@.position == old(cg)@.position,
        spec_keeps(old(cg)@, final(cg)@),
        spec_working(old(cg)@) && spec_value_known(old(cg)@, lhs) && spec_value_known(
            old(cg)@,
            rhs,
        ) && spec_value_known(old(cg)@, size) ==> spec_working(final(cg)@) && spec_value_known(
            final(cg)@,
            r,
        ),
{
    let callee = get_memcmp(cg);
    let mut args: Vec<usize> = Vec::new();
    args.push(lhs);
    args.push(rhs);
    args.push(size);
    assert(args@ =~= seq![lhs, rhs, size]);
    cg.emit(Instr::Call { callee, args, name: String::from_str("memcmp_result") })
}

/// Emits code that prints `s` after the marker `skunk> `.
pub fn debug_str(cg: &mut CodegenState, s: &str)
    requires
        old(cg)@.in_function(),
    ensures
        final(cg)@ == old(cg)@.debug_str(s@),
        final(cg)@.in_function(),
        final(cg)@.position == old(cg)@.position,
        spec_carries(
            old(cg)@,
            final(cg)@,
            true,
            true,
        ),
{
    let callee = get_printf(cg);
    let text = String::from_str("skunk> ").concat(s);
    let sk_str = cg.emit(Instr::GlobalString { text, name: String::from_str("sk_str") });
    let mut args: Vec<usize> = Vec::new();
    args.push(sk_str);
    assert(args@ =~= seq![sk_str]);
    cg.emit(Instr::Call { callee, args, name: String::from_str("_") });
}

/// The `printf` format that shows a value of the kind of `value`.
pub open spec fn spec_debug_format(value: StateValueSpec) -> Seq<char> {
    match value {
        StateValueSpec::Nothing => ""@,
        StateValueSpec::Int(_) => "skunk> %ld\n"@,
        StateValueSpec::Char(_) => "skunk> %c\n"@,
        StateValueSpec::Bool(_) => "skunk> %d\n"@,
        StateValueSpec::MemRegion { .. } => "skunk> %p (%ld bytes)\n"@,
        StateValueSpec::DynamicArray { .. } => "skunk> %p (%ld bytes)\n"@,
        StateValueSpec::Tuple { .. } => "skunk> %p\n"@,
        StateValueSpec::FixedArray { .. } => "skunk> %p\n"@,
    }
}

impl CodegenSpec {
    /// A call of `printf` that prints `value`: an integer, a character or a
    /// truth value as such, a pointer as an address, a heap span as its
    /// address and size. `printf` is declared first where the module has
    /// none; nothing is printed for no value.
    pub open spec fn debug_value(self, value: StateValueSpec) -> CodegenSpec {
        if value is Nothing {
            self.get_printf().0
        } else {
            let (declared, callee) = self.get_printf();
            let format = declared.emit(
                InstrSpec::GlobalString { text: spec_debug_format(value), name: "sk_format"@ },
            );
            format.emit(
                InstrSpec::Call {
                    callee,
                    args: match value.size_part() {
                        Some(size) => seq![declared.next_id(), value.first_part(), size],
                        None => seq![declared.next_id(), value.first_part()],
                    },
                    name: "_"@,
                },
            )
        }
    }
}

/// Emits code that prints `s`. It always succeeds.
pub fn debug(cg: &mut CodegenState, s: StateValue) -> (r: CodegenStatus)
    requires
        old(cg)@.in_function(),
    ensures
        r is Ok,
        final(cg)@ == old(cg)@.debug_value(s@),
        final(cg)@.in_function(),
        final(cg)@.position == old(cg)@.position,
        spec_carries(
            old(cg)@,
            final(cg)@,
            spec_known(old(cg)@, s@),
            true,
        ),
{
    let callee = get_printf(cg);
    let (format, first, size): (&str, usize, Option<usize>) = match &s {
        StateValue::Nothing => {
            return Ok(());
        },
        StateValue::Int(v) => ("skunk> %ld\n", *v, None),
        StateValue::Char(v) => ("skunk> %c\n", *v, None),
        StateValue::Bool(v) => ("skunk> %d\n", *v, None),
        StateValue::MemRegion { data, size } => ("skunk> %p (%ld bytes)\n", *data, Some(*size)),
        StateValue::DynamicArray { data, size, .. } => (
            "skunk> %p (%ld bytes)\n",
            *data,
            Some(*size),
        ),
        StateValue::Tuple { ptr, .. } => ("skunk> %p\n", *ptr, None),
        StateValue::FixedArray { data, .. } => ("skunk> %p\n", *data, None),
    };
    let text = cg.emit(
        Instr::GlobalString { text: String::from_str(format), name: String::from_str("sk_format") },
    );
    let mut args: Vec<usize> = Vec::new();
    args.push(text);
    args.push(first);
    match size {
        Some(n) => {
            args.push(n);
            assert(args@ =~= seq![text, first, n]);
        },
        None => {
            assert(args@ =~= seq![text, first]);
        },
    }
    cg.emit(Instr::Call { callee, args, name: String::from_str("_") });
    Ok(())
}

} // verus!
