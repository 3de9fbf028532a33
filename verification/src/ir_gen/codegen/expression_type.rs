//! A structural derivation of the representation of an expression's value,
//! for where the layout of a value has to be known before it is computed.

use crate::ast::{ExpressionValue, ModuleDecl};
use crate::ir_gen::codegen_state::{
    spec_mismatch_text, CodegenError, CodegenResult, CodegenSpec, CodegenState, ErrorSpec,
};
use crate::ir_gen::primitives::{
    clone_primitive, clone_primitives, primitives_view, spec_type_primitive_for_type,
    type_primitive_for_type, PrimitiveSpec, TypePrimitive,
};
use vstd::prelude::*;
use vstd::string::*;

verus! {

/// The representations of the expressions from `from` on, one after the
/// other behind `so_far`, or the error of the first that has none.
pub open spec fn spec_tuple_contents(
    state: CodegenSpec,
    module: ModuleDecl,
    entries: Seq<ExpressionValue>,
    from: int,
    so_far: Seq<PrimitiveSpec>,
) -> Result<Seq<PrimitiveSpec>, ErrorSpec>
    decreases entries, entries.len() - from,
{
    if from < 0 || from >= entries.len() {
        Ok(so_far)
    } else {
        match spec_expression_type(state, module, entries[from]) {
            Err(e) => Err(e),
            Ok(t) => spec_tuple_contents(state, module, entries, from + 1, so_far + t),
        }
    }
}

/// The representation of the value of `expression`: what a literal
/// obviously is; for a name the representation of the local or else of the
/// handle; for a tuple a pointer to the flattened representations of its
/// entries; for a lookup the element or field; for `new` a memory region and
/// for `size` an integer; for an output, a binding or a block that of the
/// expression that gives its value. Conditionals, loops, breaks and binary
/// operators have no derived representation.
pub open spec fn spec_expression_type(state: CodegenSpec, module: ModuleDecl, expression: ExpressionValue)
    -> Result<Seq<PrimitiveSpec>, ErrorSpec>
    decreases expression, 0nat,
{
    match expression {
        ExpressionValue::Output(output) => spec_expression_type(state, module, *output.expression),
        ExpressionValue::Block(expressions) => {
            if expressions@.len() > 0 {
                spec_expression_type(state, module, expressions@[expressions@.len() - 1])
            } else {
                Ok(Seq::empty())
            }
        },
        ExpressionValue::Let(binding) => spec_expression_type(state, module, *binding.expression),
        ExpressionValue::If(_) => Err(ErrorSpec::TypeMismatch),
        ExpressionValue::While(_) => Err(ErrorSpec::TypeMismatch),
        ExpressionValue::Empty => Ok(Seq::empty()),
        ExpressionValue::Break => Err(ErrorSpec::TypeMismatch),
        ExpressionValue::IntLiteral(_) => Ok(seq![PrimitiveSpec::Int]),
        ExpressionValue::StringLiteral(_) => Ok(
            seq![PrimitiveSpec::DynamicArrayOf(seq![PrimitiveSpec::Char])],
        ),
        ExpressionValue::CharLiteral(_) => Ok(seq![PrimitiveSpec::Char]),
        ExpressionValue::ArrayLookup(array, _) => match spec_expression_type(state, module, *array) {
            Err(e) => Err(e),
            Ok(t) => if t.len() != 1 {
                Err(ErrorSpec::TypeMismatch)
            } else {
                match t[0] {
                    PrimitiveSpec::FixedArrayOf(elem, _) => Ok(elem),
                    PrimitiveSpec::DynamicArrayOf(elem) => Ok(elem),
                    _ => Err(ErrorSpec::TypeMismatch),
                }
            },
        },
        ExpressionValue::CopyToSubModule(_) => Ok(Seq::empty()),
        ExpressionValue::FunctionCall(name, _) => {
            if name@ == "new"@ {
                Ok(seq![PrimitiveSpec::MemRegion])
            } else if name@ == "size"@ {
                Ok(seq![PrimitiveSpec::Int])
            } else {
                Err(ErrorSpec::UnknownFunctionCall(name@))
            }
        },
        ExpressionValue::ReferenceToState(field) => match state.get_local(field@) {
            Some(local) => Ok(local.value_type()),
            None => match module.spec_idx_for_field(field@) {
                Some(i) => Ok(spec_type_primitive_for_type(module.handles@[i].h_type)),
                None => Err(ErrorSpec::BadReadFieldName(field@)),
            },
        },
        ExpressionValue::Tuple(entries) => match spec_tuple_contents(
            state,
            module,
            entries@,
            0,
            Seq::empty(),
        ) {
            Err(e) => Err(e),
            Ok(contents) => Ok(seq![PrimitiveSpec::PointerTo(contents)]),
        },
        ExpressionValue::TupleLookup(tuple, pos) => match spec_expression_type(
            state,
            module,
            *tuple,
        ) {
            Err(e) => Err(e),
            Ok(t) => if t.len() != 1 {
                Err(ErrorSpec::TypeMismatch)
            } else {
                match t[0] {
                    PrimitiveSpec::PointerTo(fields) => if pos < fields.len() {
                        Ok(seq![fields[pos as int]])
                    } else {
                        Err(ErrorSpec::TypeMismatch)
                    },
                    _ => Err(ErrorSpec::TypeMismatch),
                }
            },
        },
        ExpressionValue::BinaryOperator(_, _, _) => Err(ErrorSpec::TypeMismatch),
    }
}

/// The text of the first mismatch among the expressions from `from` on:
/// that of the first expression that has no representation.
pub open spec fn spec_tuple_mismatch(
    state: CodegenSpec,
    module: ModuleDecl,
    entries: Seq<ExpressionValue>,
    from: int,
) -> Seq<char>
    decreases entries, entries.len() - from,
{
    if from < 0 || from >= entries.len() {
        Seq::empty()
    } else if spec_expression_type(state, module, entries[from]) is Err {
        spec_expression_mismatch(state, module, entries[from])
    } else {
        spec_tuple_mismatch(state, module, entries, from + 1)
    }
}

/// The text that the error bears where `expression` has no representation
/// because of a type mismatch: what was asked of a value that cannot give
/// it. A lookup in something that is no array, or no single value, is an
/// "array lookup on non-array".
pub open spec fn spec_expression_mismatch(
    state: CodegenSpec,
    module: ModuleDecl,
    expression: ExpressionValue,
) -> Seq<char>
    decreases expression, 0nat,
{
    match expression {
        ExpressionValue::Output(output) => spec_expression_mismatch(
            state,
            module,
            *output.expression,
        ),
        ExpressionValue::Block(expressions) => {
            if expressions@.len() > 0 {
                spec_expression_mismatch(state, module, expressions@[expressions@.len() - 1])
            } else {
                Seq::empty()
            }
        },
        ExpressionValue::Let(binding) => spec_expression_mismatch(
            state,
            module,
            *binding.expression,
        ),
        ExpressionValue::If(_) => "a conditional has no derived type"@,
        ExpressionValue::While(_) => "a loop has no derived type"@,
        ExpressionValue::Break => "a break has no derived type"@,
        ExpressionValue::ArrayLookup(array, _) => {
            if spec_expression_type(state, module, *array) is Err {
                spec_expression_mismatch(state, module, *array)
            } else {
                "array lookup on non-array"@
            }
        },
        ExpressionValue::Tuple(entries) => spec_tuple_mismatch(state, module, entries@, 0),
        ExpressionValue::TupleLookup(tuple, pos) => match spec_expression_type(
            state,
            module,
            *tuple,
        ) {
            Err(_) => spec_expression_mismatch(state, module, *tuple),
            Ok(t) => if t.len() != 1 {
                "lookup in an inline tuple"@
            } else if t[0] is PointerTo {
                "no such tuple field"@
            } else {
                "non-pointer tuple field of size 1"@
            },
        },
        ExpressionValue::BinaryOperator(_, _, _) => "a binary operation has no derived type"@,
        _ => Seq::empty(),
    }
}

/// The value of a derivation's result.
pub open spec fn derived(r: Result<Vec<TypePrimitive>, CodegenError>) -> Result<
    Seq<PrimitiveSpec>,
    ErrorSpec,
> {
    match r {
        Ok(t) => Ok(primitives_view(t@)),
        Err(e) => Err(e@),
    }
}

fn single(p: TypePrimitive) -> (r: Vec<TypePrimitive>)
    ensures
        primitives_view(r@) == seq![p@],
{
    let mut out: Vec<TypePrimitive> = Vec::new();
    out.push(p);
    assert(primitives_view(out@) =~= seq![p@]);
    out
}

fn tuple_contents(cg: &CodegenState, module: &ModuleDecl, entries: &Vec<ExpressionValue>) -> (r:
    CodegenResult<Vec<TypePrimitive>>)
    ensures
        derived(r) == spec_tuple_contents(cg@, *module, entries@, 0, Seq::empty()),
        r is Err ==> spec_mismatch_text(r.unwrap_err()) == spec_tuple_mismatch(
            cg@,
            *module,
            entries@,
            0,
        ),
    decreases entries,
{
    let mut contents: Vec<TypePrimitive> = Vec::new();
    let mut i: usize = 0;
    assert(primitives_view(contents@) =~= Seq::empty());
    while i < entries.len()
        invariant
            i <= entries.len(),
            spec_tuple_contents(cg@, *module, entries@, 0, Seq::empty()) == spec_tuple_contents(
                cg@,
                *module,
                entries@,
                i as int,
                primitives_view(contents@),
            ),
            spec_tuple_mismatch(cg@, *module, entries@, 0) == spec_tuple_mismatch(
                cg@,
                *module,
                entries@,
                i as int,
            ),
        decreases entries.len() - i,
    {
        let mut part = expression_type(cg, module, &entries[i])?;
        let ghost before = contents@;
        let ghost added = part@;
        contents.append(&mut part);
        assert(primitives_view(contents@) =~= primitives_view(before) + primitives_view(added));
        i += 1;
    }
    Ok(contents)
}

/// Derives the representation of the value of `expression`. Where there
/// is none because of a type mismatch, the error bears the text that says
/// which.
pub fn expression_type(cg: &CodegenState, module: &ModuleDecl, expression: &ExpressionValue) -> (r:
    CodegenResult<Vec<TypePrimitive>>)
    ensures
        derived(r) == spec_expression_type(cg@, *module, *expression),
        r is Err ==> spec_mismatch_text(r.unwrap_err()) == spec_expression_mismatch(
            cg@,
            *module,
            *expression,
        ),
    decreases expression,
{
    match expression {
        ExpressionValue::Output(output) => expression_type(cg, module, &output.expression),
        ExpressionValue::Block(expressions) => {
            if expressions.len() > 0 {
                expression_type(cg, module, &expressions[expressions.len() - 1])
            } else {
                let none: Vec<TypePrimitive> = Vec::new();
                assert(primitives_view(none@) =~= Seq::empty());
                Ok(none)
            }
        },
        ExpressionValue::Let(binding) => expression_type(cg, module, &binding.expression),
        ExpressionValue::If(_) => Err(
            CodegenError::TypeMismatch(String::from_str("a conditional has no derived type")),
        ),
        ExpressionValue::While(_) => Err(
            CodegenError::TypeMismatch(String::from_str("a loop has no derived type")),
        ),
        ExpressionValue::Empty => {
            let none: Vec<TypePrimitive> = Vec::new();
            assert(primitives_view(none@) =~= Seq::empty());
            Ok(none)
        },
        ExpressionValue::Break => Err(
            CodegenError::TypeMismatch(String::from_str("a break has no derived type")),
        ),
        ExpressionValue::IntLiteral(_) => Ok(single(TypePrimitive::Int)),
        ExpressionValue::StringLiteral(_) => Ok(
            single(TypePrimitive::DynamicArrayOf(single(TypePrimitive::Char))),
        ),
        ExpressionValue::CharLiteral(_) => Ok(single(TypePrimitive::Char)),
        ExpressionValue::ArrayLookup(array, _) => {
            let array_type = expression_type(cg, module, array)?;
            if array_type.len() != 1 {
                return Err(
                    CodegenError::TypeMismatch(String::from_str("array lookup on non-array")),
                );
            }
            proof {
                assert(primitives_view(array_type@)[0] == array_type@[0]@);
            }
            match &array_type[0] {
                TypePrimitive::FixedArrayOf(elem, _) => Ok(clone_primitives(elem)),
                TypePrimitive::DynamicArrayOf(elem) => Ok(clone_primitives(elem)),
                _ => Err(CodegenError::TypeMismatch(String::from_str("array lookup on non-array"))),
            }
        },
        ExpressionValue::CopyToSubModule(_) => {
            let none: Vec<TypePrimitive> = Vec::new();
            assert(primitives_view(none@) =~= Seq::empty());
            Ok(none)
        },
        ExpressionValue::FunctionCall(name, _) => {
            if *name == String::from_str("new") {
                Ok(single(TypePrimitive::MemRegion))
            } else if *name == String::from_str("size") {
                Ok(single(TypePrimitive::Int))
            } else {
                Err(CodegenError::UnknownFunctionCall(name.clone()))
            }
        },
        ExpressionValue::ReferenceToState(field) => {
            match cg.get_local(field) {
                Some(local) => Ok(local.value_type()),
                None => match module.type_for_field(field) {
                    Some(h_type) => Ok(type_primitive_for_type(h_type)),
                    None => Err(CodegenError::BadReadFieldName(field.clone())),
                },
            }
        },
        ExpressionValue::Tuple(entries) => {
            let contents = tuple_contents(cg, module, entries)?;
            Ok(single(TypePrimitive::PointerTo(contents)))
        },
        ExpressionValue::TupleLookup(tuple, pos) => {
            let tuple_type = expression_type(cg, module, tuple)?;
            if tuple_type.len() != 1 {
                return Err(
                    CodegenError::TypeMismatch(String::from_str("lookup in an inline tuple")),
                );
            }
            proof {
                assert(primitives_view(tuple_type@)[0] == tuple_type@[0]@);
            }
            match &tuple_type[0] {
                TypePrimitive::PointerTo(fields) => {
                    if *pos < fields.len() {
                        Ok(single(clone_primitive(&fields[*pos])))
                    } else {
                        Err(CodegenError::TypeMismatch(String::from_str("no such tuple field")))
                    }
                },
                _ => Err(
                    CodegenError::TypeMismatch(
                        String::from_str("non-pointer tuple field of size 1"),
                    ),
                ),
            }
        },
        ExpressionValue::BinaryOperator(_, _, _) => Err(
            CodegenError::TypeMismatch(String::from_str("a binary operation has no derived type")),
        ),
    }
}

} // verus!
