//! The runtime representations that source types lower to.

use crate::ast::Type;
use vstd::prelude::*;

verus! {

/// One runtime representation. A source type lowers to a sequence of these.
#[derive(Debug, PartialEq, Eq)]
pub enum TypePrimitive {
    /// 64-bit signed integer.
    Int,
    /// 8-bit character.
    Char,
    /// 1-bit truth value.
    Bool,
    /// An owned heap span: a data pointer and a byte count.
    MemRegion,
    /// Laid out like a `MemRegion`, with typed elements.
    DynamicArrayOf(Vec<TypePrimitive>),
    /// A raw pointer to a value of the inner representation.
    PointerTo(Vec<TypePrimitive>),
    /// A pointer to element storage whose length is known statically.
    FixedArrayOf(Vec<TypePrimitive>, usize),
}

/// The mathematical value of a `TypePrimitive`.
pub enum PrimitiveSpec {
    Int,
    Char,
    Bool,
    MemRegion,
    DynamicArrayOf(Seq<PrimitiveSpec>),
    PointerTo(Seq<PrimitiveSpec>),
    FixedArrayOf(Seq<PrimitiveSpec>, usize),
}

pub open spec fn primitives_view(s: Seq<TypePrimitive>) -> Seq<PrimitiveSpec>
    decreases s,
{
    Seq::new(
        s.len(),
        |i: int|
            if 0 <= i < s.len() {
                primitive_view(s[i])
            } else {
                PrimitiveSpec::Int
            },
    )
}

pub open spec fn primitive_view(t: TypePrimitive) -> PrimitiveSpec
    decreases t,
{
    match t {
        TypePrimitive::Int => PrimitiveSpec::Int,
        TypePrimitive::Char => PrimitiveSpec::Char,
        TypePrimitive::Bool => PrimitiveSpec::Bool,
        TypePrimitive::MemRegion => PrimitiveSpec::MemRegion,
        TypePrimitive::DynamicArrayOf(inner) => PrimitiveSpec::DynamicArrayOf(
            primitives_view(inner@),
        ),
        TypePrimitive::PointerTo(inner) => PrimitiveSpec::PointerTo(primitives_view(inner@)),
        TypePrimitive::FixedArrayOf(inner, n) => PrimitiveSpec::FixedArrayOf(
            primitives_view(inner@),
            n,
        ),
    }
}

impl View for TypePrimitive {
    type V = PrimitiveSpec;

    open spec fn view(&self) -> PrimitiveSpec {
        primitive_view(*self)
    }
}

/// The representations of the types `types[0..n]`, one after the other.
pub open spec fn flattened_types(types: Seq<Type>, n: nat) -> Seq<PrimitiveSpec>
    decreases types, n,
{
    if n == 0 || n > types.len() {
        Seq::empty()
    } else {
        flattened_types(types, (n - 1) as nat) + spec_type_primitive_for_type(types[n - 1])
    }
}

/// What a source type lowers to: scalars and regions to themselves, a
/// string to a dynamic array of characters, a tuple to a pointer to its
/// flattened fields.
pub open spec fn spec_type_primitive_for_type(t: Type) -> Seq<PrimitiveSpec>
    decreases t, 0nat,
{
    match t {
        Type::Int => seq![PrimitiveSpec::Int],
        Type::Char => seq![PrimitiveSpec::Char],
        Type::Bool => seq![PrimitiveSpec::Bool],
        Type::MemRegion => seq![PrimitiveSpec::MemRegion],
        Type::String => seq![PrimitiveSpec::DynamicArrayOf(seq![PrimitiveSpec::Char])],
        Type::Tuple(fields) => seq![
            PrimitiveSpec::PointerTo(flattened_types(fields@, fields@.len())),
        ],
    }
}

/// Bytes that one representation occupies in memory on a 64-bit target.
pub open spec fn primitive_size(p: PrimitiveSpec) -> nat {
    match p {
        PrimitiveSpec::Int => 8,
        PrimitiveSpec::Char => 1,
        PrimitiveSpec::Bool => 1,
        PrimitiveSpec::MemRegion => 16,
        PrimitiveSpec::DynamicArrayOf(_) => 16,
        PrimitiveSpec::PointerTo(_) => 8,
        PrimitiveSpec::FixedArrayOf(_, _) => 8,
    }
}

/// Bytes that a sequence of representations occupies when its members are
/// laid out back to back.
pub open spec fn storage_size(ps: Seq<PrimitiveSpec>) -> nat
    decreases ps.len(),
{
    if ps.len() == 0 {
        0
    } else {
        storage_size(ps.drop_last()) + primitive_size(ps.last())
    }
}

pub fn clone_primitives(v: &Vec<TypePrimitive>) -> (r: Vec<TypePrimitive>)
    ensures
        primitives_view(r@) == primitives_view(v@),
    decreases v,
{
    let mut out: Vec<TypePrimitive> = Vec::new();
    let mut i: usize = 0;
    while i < v.len()
        invariant
            i <= v.len(),
            out@.len() == i,
            forall|j: int| 0 <= j < i ==> out@[j]@ == v@[j]@,
        decreases v.len() - i,
    {
        out.push(clone_primitive(&v[i]));
        i += 1;
    }
    assert(primitives_view(out@) =~= primitives_view(v@));
    out
}

pub fn clone_primitive(t: &TypePrimitive) -> (r: TypePrimitive)
    ensures
        r@ == t@,
    decreases t,
{
    match t {
        TypePrimitive::Int => TypePrimitive::Int,
        TypePrimitive::Char => TypePrimitive::Char,
        TypePrimitive::Bool => TypePrimitive::Bool,
        TypePrimitive::MemRegion => TypePrimitive::MemRegion,
        TypePrimitive::DynamicArrayOf(inner) => TypePrimitive::DynamicArrayOf(
            clone_primitives(inner),
        ),
        TypePrimitive::PointerTo(inner) => TypePrimitive::PointerTo(clone_primitives(inner)),
        TypePrimitive::FixedArrayOf(inner, n) => TypePrimitive::FixedArrayOf(
            clone_primitives(inner),
            *n,
        ),
    }
}

/// Whether two sequences of representations are the same.
pub fn primitives_eq(a: &Vec<TypePrimitive>, b: &Vec<TypePrimitive>) -> (r: bool)
    ensures
        r == (primitives_view(a@) == primitives_view(b@)),
    decreases a,
{
    if a.len() != b.len() {
        assert(primitives_view(a@).len() != primitives_view(b@).len());
        return false;
    }
    let mut i: usize = 0;
    while i < a.len()
        invariant
            i <= a.len(),
            a.len() == b.len(),
            forall|j: int| 0 <= j < i ==> a@[j]@ == b@[j]@,
        decreases a.len() - i,
    {
        if !primitive_eq(&a[i], &b[i]) {
            assert(primitives_view(a@)[i as int] == a@[i as int]@);
            assert(primitives_view(b@)[i as int] == b@[i as int]@);
            return false;
        }
        i += 1;
    }
    assert(primitives_view(a@) =~= primitives_view(b@));
    true
}

/// Whether two representations are the same.
pub fn primitive_eq(a: &TypePrimitive, b: &TypePrimitive) -> (r: bool)
    ensures
        r == (a@ == b@),
    decreases a,
{
    match (a, b) {
        (TypePrimitive::Int, TypePrimitive::Int) => true,
        (TypePrimitive::Char, TypePrimitive::Char) => true,
        (TypePrimitive::Bool, TypePrimitive::Bool) => true,
        (TypePrimitive::MemRegion, TypePrimitive::MemRegion) => true,
        (TypePrimitive::DynamicArrayOf(x), TypePrimitive::DynamicArrayOf(y)) => primitives_eq(x, y),
        (TypePrimitive::PointerTo(x), TypePrimitive::PointerTo(y)) => primitives_eq(x, y),
        (TypePrimitive::FixedArrayOf(x, n), TypePrimitive::FixedArrayOf(y, m)) => *n == *m
            && primitives_eq(x, y),
        _ => false,
    }
}

/// Lowers each of `types` and lays the results end to end.
pub fn flatten_types(types: &Vec<Type>) -> (r: Vec<TypePrimitive>)
    ensures
        primitives_view(r@) == flattened_types(types@, types@.len()),
    decreases types,
{
    let mut flat: Vec<TypePrimitive> = Vec::new();
    let mut i: usize = 0;
    while i < types.len()
        invariant
            i <= types.len(),
            primitives_view(flat@) == flattened_types(types@, i as nat),
        decreases types.len() - i,
    {
        let mut part = type_primitive_for_type(&types[i]);
        let ghost before = flat@;
        let ghost added = part@;
        flat.append(&mut part);
        assert(primitives_view(flat@) =~= primitives_view(before) + primitives_view(added));
        i += 1;
    }
    flat
}

/// Lowers a source type to its runtime representation.
pub fn type_primitive_for_type(t: &Type) -> (r: Vec<TypePrimitive>)
    ensures
        primitives_view(r@) == spec_type_primitive_for_type(*t),
    decreases t,
{
    let mut out: Vec<TypePrimitive> = Vec::new();
    match t {
        Type::Int => out.push(TypePrimitive::Int),
        Type::Char => out.push(TypePrimitive::Char),
        Type::Bool => out.push(TypePrimitive::Bool),
        Type::MemRegion => out.push(TypePrimitive::MemRegion),
        Type::String => {
            let mut chars: Vec<TypePrimitive> = Vec::new();
            chars.push(TypePrimitive::Char);
            assert(primitives_view(chars@) =~= seq![PrimitiveSpec::Char]);
            out.push(TypePrimitive::DynamicArrayOf(chars));
        },
        Type::Tuple(fields) => out.push(TypePrimitive::PointerTo(flatten_types(fields))),
    }
    assert(primitives_view(out@) =~= spec_type_primitive_for_type(*t));
    out
}

/// The storage size of `types`, or `None` where it does not fit in 64 bits.
pub fn stride(types: &Vec<TypePrimitive>) -> (r: Option<u64>)
    ensures
        match r {
            Some(n) => n == storage_size(primitives_view(types@)),
            None => storage_size(primitives_view(types@)) > u64::MAX,
        },
{
    let mut total: u64 = 0;
    let mut i: usize = 0;
    while i < types.len()
        invariant
            i <= types.len(),
            total == storage_size(primitives_view(types@).take(i as int)),
        decreases types.len() - i,
    {
        let size: u64 = match &types[i] {
            TypePrimitive::Int => 8,
            TypePrimitive::Char => 1,
            TypePrimitive::Bool => 1,
            TypePrimitive::MemRegion => 16,
            TypePrimitive::DynamicArrayOf(_) => 16,
            TypePrimitive::PointerTo(_) => 8,
            TypePrimitive::FixedArrayOf(_, _) => 8,
        };
        proof {
            let all = primitives_view(types@);
            assert(all.take(i + 1).drop_last() =~= all.take(i as int));
            assert(all.take(i + 1).last() == types@[i as int]@);
            lemma_storage_size_monotone(all, i + 1);
        }
        if size > u64::MAX - total {
            return None;
        }
        total = total + size;
        i += 1;
    }
    assert(primitives_view(types@).take(types.len() as int) =~= primitives_view(types@));
    Some(total)
}

/// A prefix never occupies more than the whole.
pub proof fn lemma_storage_size_monotone(ps: Seq<PrimitiveSpec>, n: int)
    requires
        0 <= n <= ps.len(),
    ensures
        storage_size(ps.take(n)) <= storage_size(ps),
    decreases ps.len(),
{
    if n < ps.len() {
        assert(ps.drop_last().take(n) =~= ps.take(n));
        lemma_storage_size_monotone(ps.drop_last(), n);
    } else {
        assert(ps.take(n) =~= ps);
    }
}

} // verus!
