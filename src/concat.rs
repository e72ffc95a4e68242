use vstd::prelude::*;
use vstd::string::*;

use crate::array::{
    Array, BooleanArray, DecimalArray, IntervalValue, ListArray, NullArray, PrimitiveArray,
    TimestampArray, VarlenArray, offsets_wf,
};
use crate::batch::Batch;
use crate::datatype::{DataType, DecimalTypeMeta, contains_struct, variant_name};
use crate::error::{ErrorKind, RayexecError, Result};
use crate::validity::{
    any_mask, concat_validity_spec, expanded_blocks, extend_validity, lemma_blocks_push,
    mask_view,
};

verus! {

/// The arrays behind a slice of references.
pub open spec fn derefs(arrays: Seq<&Array>) -> Seq<Array> {
    arrays.map_values(|a: &Array| *a)
}

/// Total row count of a sequence of arrays.
pub open spec fn sum_lens(arrs: Seq<Array>) -> nat
    decreases arrs.len(),
{
    if arrs.len() == 0 {
        0
    } else {
        sum_lens(arrs.drop_last()) + arrs.last().spec_len()
    }
}

/// The `(row count, mask)` parts of a sequence of arrays.
pub open spec fn parts_of(arrs: Seq<Array>) -> Seq<(nat, Option<Seq<bool>>)> {
    arrs.map_values(|a: Array| (a.spec_len(), a.spec_validity()))
}

/// Offsets as integers.
pub open spec fn ints(s: Seq<usize>) -> Seq<int> {
    s.map_values(|o: usize| o as int)
}

/// Offsets shifted by `base`.
pub open spec fn shift(s: Seq<usize>, base: int) -> Seq<int> {
    s.map_values(|o: usize| o + base)
}

/// Whether offsets never decrease.
pub open spec fn monotone(s: Seq<usize>) -> bool {
    forall|a: int, b: int| 0 <= a <= b < s.len() ==> #[trigger] s[a] <= #[trigger] s[b]
}

/// The offsets of a concatenation: a leading zero, then the offsets of each
/// part without its leading zero, shifted by the last offset so far.
pub open spec fn shifted_offsets(offs: Seq<Seq<usize>>) -> Seq<int>
    decreases offs.len(),
{
    if offs.len() == 0 {
        seq![0int]
    } else {
        let prev = shifted_offsets(offs.drop_last());
        prev + shift(offs.last().drop_first(), prev.last())
    }
}

/// How deeply list types nest.
pub open spec fn dt_depth(dt: DataType) -> nat
    decreases dt,
{
    match dt {
        DataType::List(inner) => 1 + dt_depth(*inner),
        _ => 0,
    }
}

/// The children of a sequence of list arrays.
pub open spec fn list_children(arrs: Seq<Array>) -> Seq<Array> {
    arrs.map_values(|a: Array| *a->List_0.child)
}

/// Whether every array has the type of the first.
pub open spec fn same_types(arrs: Seq<Array>) -> bool {
    forall|i: int| 0 <= i < arrs.len() ==> (#[trigger] arrs[i]).spec_datatype()
        == arrs[0].spec_datatype()
}

/// Whether the row count of every null array that a concatenation builds,
/// at any level of list nesting, fits in `usize`.
pub open spec fn lengths_fit(arrs: Seq<Array>, depth: nat) -> bool
    decreases depth,
{
    match arrs[0] {
        Array::Null(_) => sum_lens(arrs) <= usize::MAX,
        Array::List(_) => depth > 0 && lengths_fit(list_children(arrs), (depth - 1) as nat),
        _ => true,
    }
}

/// The inputs on which concatenation succeeds.
pub open spec fn concat_ok(arrs: Seq<Array>) -> bool {
    &&& arrs.len() > 0
    &&& same_types(arrs)
    &&& !contains_struct(arrs[0].spec_datatype())
    &&& lengths_fit(arrs, dt_depth(arrs[0].spec_datatype()))
}

/// The kind of error with which concatenation fails.
pub open spec fn concat_error_kind(arrs: Seq<Array>) -> ErrorKind {
    if arrs.len() == 0 {
        ErrorKind::InvalidArgument
    } else if arrs[0].spec_datatype() is Struct {
        ErrorKind::NotImplemented
    } else if !same_types(arrs) {
        ErrorKind::TypeMismatch
    } else if contains_struct(arrs[0].spec_datatype()) {
        ErrorKind::NotImplemented
    } else {
        ErrorKind::InvalidArgument
    }
}

/// The message of a type mismatch: the expected type, then the offending one.
pub open spec fn mismatch_message(expected: DataType, got: DataType) -> Seq<char> {
    "Cannot concat arrays of differing types: expected "@ + variant_name(expected) + ", got "@
        + variant_name(got)
}

/// `r` is the concatenation of the primitive arrays `parts`.
pub open spec fn primitive_concat<T>(parts: Seq<PrimitiveArray<T>>, r: PrimitiveArray<T>) -> bool {
    &&& r.values@ == parts.map_values(|p: PrimitiveArray<T>| p.values@).flatten()
    &&& mask_view(r.validity) == concat_validity_spec(
        parts.map_values(|p: PrimitiveArray<T>| p.part()),
    )
}

/// `r` is the concatenation of the variable-length arrays `parts`.
pub open spec fn varlen_concat(parts: Seq<VarlenArray>, r: VarlenArray) -> bool {
    &&& r.data@ == parts.map_values(|p: VarlenArray| p.data@).flatten()
    &&& ints(r.offsets@) == shifted_offsets(parts.map_values(|p: VarlenArray| p.offsets@))
    &&& mask_view(r.validity) == concat_validity_spec(parts.map_values(|p: VarlenArray| p.part()))
}

/// `r` holds the values of `arrs` in order; for lists, the child of `r` is
/// in turn the concatenation of their children.
pub open spec fn values_concat(arrs: Seq<Array>, r: Array, depth: nat) -> bool
    decreases depth, 0nat,
{
    match arrs[0] {
        Array::Null(_) => r is Null,
        Array::Boolean(_) => r matches Array::Boolean(b) && b.values@ == arrs.map_values(
            |a: Array| a->Boolean_0.values@,
        ).flatten(),
        Array::Int8(_) => r matches Array::Int8(p) && primitive_concat(
            arrs.map_values(|a: Array| a->Int8_0),
            p,
        ),
        Array::Int16(_) => r matches Array::Int16(p) && primitive_concat(
            arrs.map_values(|a: Array| a->Int16_0),
            p,
        ),
        Array::Int32(_) => r matches Array::Int32(p) && primitive_concat(
            arrs.map_values(|a: Array| a->Int32_0),
            p,
        ),
        Array::Int64(_) => r matches Array::Int64(p) && primitive_concat(
            arrs.map_values(|a: Array| a->Int64_0),
            p,
        ),
        Array::Int128(_) => r matches Array::Int128(p) && primitive_concat(
            arrs.map_values(|a: Array| a->Int128_0),
            p,
        ),
        Array::UInt8(_) => r matches Array::UInt8(p) && primitive_concat(
            arrs.map_values(|a: Array| a->UInt8_0),
            p,
        ),
        Array::UInt16(_) => r matches Array::UInt16(p) && primitive_concat(
            arrs.map_values(|a: Array| a->UInt16_0),
            p,
        ),
        Array::UInt32(_) => r matches Array::UInt32(p) && primitive_concat(
            arrs.map_values(|a: Array| a->UInt32_0),
            p,
        ),
        Array::UInt64(_) => r matches Array::UInt64(p) && primitive_concat(
            arrs.map_values(|a: Array| a->UInt64_0),
            p,
        ),
        Array::UInt128(_) => r matches Array::UInt128(p) && primitive_concat(
            arrs.map_values(|a: Array| a->UInt128_0),
            p,
        ),
        Array::Float32(_) => r matches Array::Float32(p) && primitive_concat(
            arrs.map_values(|a: Array| a->Float32_0),
            p,
        ),
        Array::Float64(_) => r matches Array::Float64(p) && primitive_concat(
            arrs.map_values(|a: Array| a->Float64_0),
            p,
        ),
        Array::Date32(_) => r matches Array::Date32(p) && primitive_concat(
            arrs.map_values(|a: Array| a->Date32_0),
            p,
        ),
        Array::Date64(_) => r matches Array::Date64(p) && primitive_concat(
            arrs.map_values(|a: Array| a->Date64_0),
            p,
        ),
        Array::Interval(_) => r matches Array::Interval(p) && primitive_concat(
            arrs.map_values(|a: Array| a->Interval_0),
            p,
        ),
        Array::Decimal64(_) => r matches Array::Decimal64(p) && primitive_concat(
            arrs.map_values(|a: Array| a->Decimal64_0.array),
            p.array,
        ),
        Array::Decimal128(_) => r matches Array::Decimal128(p) && primitive_concat(
            arrs.map_values(|a: Array| a->Decimal128_0.array),
            p.array,
        ),
        Array::Timestamp(_) => r matches Array::Timestamp(p) && primitive_concat(
            arrs.map_values(|a: Array| a->Timestamp_0.array),
            p.array,
        ),
        Array::Utf8(_) => r matches Array::Utf8(p) && varlen_concat(
            arrs.map_values(|a: Array| a->Utf8_0),
            p,
        ),
        Array::LargeUtf8(_) => r matches Array::LargeUtf8(p) && varlen_concat(
            arrs.map_values(|a: Array| a->LargeUtf8_0),
            p,
        ),
        Array::Binary(_) => r matches Array::Binary(p) && varlen_concat(
            arrs.map_values(|a: Array| a->Binary_0),
            p,
        ),
        Array::LargeBinary(_) => r matches Array::LargeBinary(p) && varlen_concat(
            arrs.map_values(|a: Array| a->LargeBinary_0),
            p,
        ),
        Array::Struct(_) => false,
        Array::List(_) => r matches Array::List(l) && depth > 0 && ints(l.offsets@)
            == shifted_offsets(arrs.map_values(|a: Array| a->List_0.offsets@)) && concat_spec(
            list_children(arrs),
            *l.child,
            (depth - 1) as nat,
        ),
    }
}

/// `r` is the concatenation of `arrs`: it is well formed, has their type,
/// the sum of their row counts, their masks in order, and their values in
/// order.
pub open spec fn concat_spec(arrs: Seq<Array>, r: Array, depth: nat) -> bool
    decreases depth, 1nat,
{
    &&& r.wf()
    &&& r.spec_datatype() == arrs[0].spec_datatype()
    &&& r.spec_len() == sum_lens(arrs)
    &&& (!(arrs[0] is Null) ==> r.spec_validity() == concat_validity_spec(parts_of(arrs)))
    &&& values_concat(arrs, r, depth)
}

proof fn lemma_flatten_prefix<A>(s: Seq<Seq<A>>, i: int)
    requires
        0 <= i < s.len(),
    ensures
        s.subrange(0, i + 1).flatten() == s.subrange(0, i).flatten() + s[i],
{
    assert(s.subrange(0, i + 1) =~= s.subrange(0, i).push(s[i]));
    s.subrange(0, i).lemma_flatten_push(s[i]);
}

proof fn lemma_blocks_prefix(parts: Seq<(nat, Option<Seq<bool>>)>, i: int)
    requires
        0 <= i < parts.len(),
    ensures
        expanded_blocks(parts.subrange(0, i + 1)) == expanded_blocks(parts.subrange(0, i))
            + crate::validity::expand_validity(parts[i].0, parts[i].1),
        any_mask(parts.subrange(0, i + 1)) == (any_mask(parts.subrange(0, i)) || parts[i].1 is Some),
{
    assert(parts.subrange(0, i + 1) =~= parts.subrange(0, i).push(parts[i]));
    lemma_blocks_push(parts.subrange(0, i), parts[i]);
}

proof fn lemma_full<A>(s: Seq<A>)
    ensures
        s.subrange(0, s.len() as int) == s,
{
    assert(s.subrange(0, s.len() as int) =~= s);
}

/// Copies `src` to the end of `dst`.
fn append_copied<T: Copy>(dst: &mut Vec<T>, src: &Vec<T>)
    ensures
        final(dst)@ == old(dst)@ + src@,
{
    let mut j: usize = 0;
    while j < src.len()
        invariant
            j <= src@.len(),
            dst@ == old(dst)@ + src@.subrange(0, j as int),
        decreases src@.len() - j,
    {
        dst.push(src[j]);
        j = j + 1;
        proof {
            assert(dst@ =~= old(dst)@ + src@.subrange(0, j as int));
        }
    }
    proof {
        lemma_full(src@);
    }
}

/// Appends the offsets of one part, without its leading zero, shifted by
/// `base`, the last offset so far.
fn append_shifted(offsets: &mut Vec<usize>, part: &Vec<usize>, base: usize, end: usize)
    requires
        old(offsets)@.len() >= 1,
        old(offsets)@.last() == base,
        monotone(old(offsets)@),
        offsets_wf(part@, (end - base) as nat),
        base <= end,
    ensures
        ints(final(offsets)@) == ints(old(offsets)@) + shift(part@.drop_first(), base as int),
        monotone(final(offsets)@),
        final(offsets)@.last() == end,
        final(offsets)@.len() == old(offsets)@.len() + part@.len() - 1,
        final(offsets)@[0] == old(offsets)@[0],
{
    let ghost start = offsets@;
    let mut k: usize = 1;
    while k < part.len()
        invariant
            1 <= k <= part@.len(),
            offsets_wf(part@, (end - base) as nat),
            base <= end,
            start.len() >= 1,
            offsets@.len() == start.len() + k - 1,
            offsets@[0] == start[0],
            monotone(offsets@),
            offsets@.last() == base + part@[k - 1],
            ints(offsets@) == ints(start) + shift(part@.subrange(1, k as int), base as int),
        decreases part@.len() - k,
    {
        let ghost before = offsets@;
        let v = part[k] + base;
        offsets.push(v);
        proof {
            assert(offsets@[0] == before[0]);
            assert(part@[k - 1] <= part@[k as int]);
            assert forall|a: int, b: int|
                0 <= a <= b < offsets@.len() implies #[trigger] offsets@[a]
                <= #[trigger] offsets@[b] by {
                if b == offsets@.len() - 1 && a < b {
                    assert(before[a] <= before.last());
                }
            }
            assert(part@.subrange(1, k + 1) =~= part@.subrange(1, k as int).push(part@[k as int]));
            assert(ints(offsets@) =~= ints(before).push(v as int));
            assert(shift(part@.subrange(1, k + 1), base as int) =~= shift(
                part@.subrange(1, k as int),
                base as int,
            ).push(v as int));
            assert(ints(offsets@) =~= ints(start) + shift(part@.subrange(1, k + 1), base as int));
        }
        k = k + 1;
    }
    proof {
        assert(part@.subrange(1, part@.len() as int) =~= part@.drop_first());
    }
}

proof fn lemma_shifted_prefix(offs: Seq<Seq<usize>>, i: int)
    requires
        0 <= i < offs.len(),
    ensures
        shifted_offsets(offs.subrange(0, i + 1)) == shifted_offsets(offs.subrange(0, i))
            + shift(offs[i].drop_first(), shifted_offsets(offs.subrange(0, i)).last()),
{
    assert(offs.subrange(0, i + 1).drop_last() =~= offs.subrange(0, i));
}

proof fn lemma_shifted_nonempty(offs: Seq<Seq<usize>>)
    ensures
        shifted_offsets(offs).len() >= 1,
    decreases offs.len(),
{
    if offs.len() > 0 {
        lemma_shifted_nonempty(offs.drop_last());
    }
}

/// Concatenates boolean arrays.
pub fn concat_boolean(arrays: &[&BooleanArray]) -> (r: BooleanArray)
    requires
        forall|i: int| 0 <= i < arrays@.len() ==> (#[trigger] arrays@[i]).wf(),
    ensures
        r.wf(),
        r.values@ == arrays@.map_values(|a: &BooleanArray| a.values@).flatten(),
        mask_view(r.validity) == concat_validity_spec(
            arrays@.map_values(|a: &BooleanArray| a.part()),
        ),
{
    let ghost vals = arrays@.map_values(|a: &BooleanArray| a.values@);
    let ghost parts = arrays@.map_values(|a: &BooleanArray| a.part());
    let mut values: Vec<bool> = Vec::new();
    let mut mask: Vec<bool> = Vec::new();
    let mut any = false;
    let mut i: usize = 0;
    while i < arrays.len()
        invariant
            i <= arrays@.len(),
            vals == arrays@.map_values(|a: &BooleanArray| a.values@),
            parts == arrays@.map_values(|a: &BooleanArray| a.part()),
            forall|k: int| 0 <= k < arrays@.len() ==> (#[trigger] arrays@[k]).wf(),
            values@ == vals.subrange(0, i as int).flatten(),
            mask@ == expanded_blocks(parts.subrange(0, i as int)),
            any == any_mask(parts.subrange(0, i as int)),
            mask@.len() == values@.len(),
        decreases arrays@.len() - i,
    {
        let a = arrays[i];
        append_copied(&mut values, &a.values);
        extend_validity(&mut mask, a.values.len(), &a.validity);
        if a.validity.is_some() {
            any = true;
        }
        proof {
            lemma_flatten_prefix(vals, i as int);
            lemma_blocks_prefix(parts, i as int);
        }
        i = i + 1;
    }
    proof {
        lemma_full(vals);
        lemma_full(parts);
    }
    BooleanArray { values, validity: if any { Some(mask) } else { None } }
}

/// Concatenates primitive arrays.
pub fn concat_primitive<T: Copy>(arrays: &[&PrimitiveArray<T>]) -> (r: PrimitiveArray<T>)
    requires
        forall|i: int| 0 <= i < arrays@.len() ==> (#[trigger] arrays@[i]).wf(),
    ensures
        r.wf(),
        primitive_concat(arrays@.map_values(|a: &PrimitiveArray<T>| *a), r),
{
    let ghost vals = arrays@.map_values(|a: &PrimitiveArray<T>| a.values@);
    let ghost parts = arrays@.map_values(|a: &PrimitiveArray<T>| a.part());
    let mut values: Vec<T> = Vec::new();
    let mut mask: Vec<bool> = Vec::new();
    let mut any = false;
    let mut i: usize = 0;
    while i < arrays.len()
        invariant
            i <= arrays@.len(),
            vals == arrays@.map_values(|a: &PrimitiveArray<T>| a.values@),
            parts == arrays@.map_values(|a: &PrimitiveArray<T>| a.part()),
            forall|k: int| 0 <= k < arrays@.len() ==> (#[trigger] arrays@[k]).wf(),
            values@ == vals.subrange(0, i as int).flatten(),
            mask@ == expanded_blocks(parts.subrange(0, i as int)),
            any == any_mask(parts.subrange(0, i as int)),
            mask@.len() == values@.len(),
        decreases arrays@.len() - i,
    {
        let a = arrays[i];
        append_copied(&mut values, &a.values);
        extend_validity(&mut mask, a.values.len(), &a.validity);
        if a.validity.is_some() {
            any = true;
        }
        proof {
            lemma_flatten_prefix(vals, i as int);
            lemma_blocks_prefix(parts, i as int);
        }
        i = i + 1;
    }
    proof {
        lemma_full(vals);
        lemma_full(parts);
        let ps = arrays@.map_values(|a: &PrimitiveArray<T>| *a);
        assert(ps.map_values(|p: PrimitiveArray<T>| p.values@) =~= vals);
        assert(ps.map_values(|p: PrimitiveArray<T>| p.part()) =~= parts);
    }
    PrimitiveArray { values, validity: if any { Some(mask) } else { None } }
}

fn collect_boolean<'a>(arrays: &[&'a Array]) -> (r: Vec<&'a BooleanArray>)
    requires
        forall|i: int| 0 <= i < arrays@.len() ==> (#[trigger] arrays@[i]) is Boolean,
    ensures
        r@.len() == arrays@.len(),
        forall|i: int| 0 <= i < arrays@.len() ==> *(#[trigger] r@[i]) == arrays@[i]->Boolean_0,
{
    let mut r: Vec<&'a BooleanArray> = Vec::new();
    let mut i: usize = 0;
    while i < arrays.len()
        invariant
            i <= arrays@.len(),
            r@.len() == i,
            forall|k: int| 0 <= k < arrays@.len() ==> (#[trigger] arrays@[k]) is Boolean,
            forall|k: int| 0 <= k < i ==> *(#[trigger] r@[k]) == arrays@[k]->Boolean_0,
        decreases arrays@.len() - i,
    {
        if let Array::Boolean(a) = arrays[i] {
            r.push(a);
        }
        i = i + 1;
    }
    r
}

fn collect_int8<'a>(arrays: &[&'a Array]) -> (r: Vec<&'a PrimitiveArray<i8>>)
    requires
        forall|i: int| 0 <= i < arrays@.len() ==> (#[trigger] arrays@[i]) is Int8,
    ensures
        r@.len() == arrays@.len(),
        forall|i: int| 0 <= i < arrays@.len() ==> *(#[trigger] r@[i]) == arrays@[i]->Int8_0,
{
    let mut r: Vec<&'a PrimitiveArray<i8>> = Vec::new();
    let mut i: usize = 0;
    while i < arrays.len()
        invariant
            i <= arrays@.len(),
            r@.len() == i,
            forall|k: int| 0 <= k < arrays@.len() ==> (#[trigger] arrays@[k]) is Int8,
            forall|k: int| 0 <= k < i ==> *(#[trigger] r@[k]) == arrays@[k]->Int8_0,
        decreases arrays@.len() - i,
    {
        if let Array::Int8(a) = arrays[i] {
            r.push(a);
        }
        i = i + 1;
    }
    r
}

fn collect_int16<'a>(arrays: &[&'a Array]) -> (r: Vec<&'a PrimitiveArray<i16>>)
    requires
        forall|i: int| 0 <= i < arrays@.len() ==> (#[trigger] arrays@[i]) is Int16,
    ensures
        r@.len() == arrays@.len(),
        forall|i: int| 0 <= i < arrays@.len() ==> *(#[trigger] r@[i]) == arrays@[i]->Int16_0,
{
    let mut r: Vec<&'a PrimitiveArray<i16>> = Vec::new();
    let mut i: usize = 0;
    while i < arrays.len()
        invariant
            i <= arrays@.len(),
            r@.len() == i,
            forall|k: int| 0 <= k < arrays@.len() ==> (#[trigger] arrays@[k]) is Int16,
            forall|k: int| 0 <= k < i ==> *(#[trigger] r@[k]) == arrays@[k]->Int16_0,
        decreases arrays@.len() - i,
    {
        if let Array::Int16(a) = arrays[i] {
            r.push(a);
        }
        i = i + 1;
    }
    r
}

fn collect_int32<'a>(arrays: &[&'a Array]) -> (r: Vec<&'a PrimitiveArray<i32>>)
    requires
        forall|i: int| 0 <= i < arrays@.len() ==> (#[trigger] arrays@[i]) is Int32,
    ensures
        r@.len() == arrays@.len(),
        forall|i: int| 0 <= i < arrays@.len() ==> *(#[trigger] r@[i]) == arrays@[i]->Int32_0,
{
    let mut r: Vec<&'a PrimitiveArray<i32>> = Vec::new();
    let mut i: usize = 0;
    while i < arrays.len()
        invariant
            i <= arrays@.len(),
            r@.len() == i,
            forall|k: int| 0 <= k < arrays@.len() ==> (#[trigger] arrays@[k]) is Int32,
            forall|k: int| 0 <= k < i ==> *(#[trigger] r@[k]) == arrays@[k]->Int32_0,
        decreases arrays@.len() - i,
    {
        if let Array::Int32(a) = arrays[i] {
            r.push(a);
        }
        i = i + 1;
    }
    r
}

fn collect_int64<'a>(arrays: &[&'a Array]) -> (r: Vec<&'a PrimitiveArray<i64>>)
    requires
        forall|i: int| 0 <= i < arrays@.len() ==> (#[trigger] arrays@[i]) is Int64,
    ensures
        r@.len() == arrays@.len(),
        forall|i: int| 0 <= i < arrays@.len() ==> *(#[trigger] r@[i]) == arrays@[i]->Int64_0,
{
    let mut r: Vec<&'a PrimitiveArray<i64>> = Vec::new();
    let mut i: usize = 0;
    while i < arrays.len()
        invariant
            i <= arrays@.len(),
            r@.len() == i,
            forall|k: int| 0 <= k < arrays@.len() ==> (#[trigger] arrays@[k]) is Int64,
            forall|k: int| 0 <= k < i ==> *(#[trigger] r@[k]) == arrays@[k]->Int64_0,
        decreases arrays@.len() - i,
    {
        if let Array::Int64(a) = arrays[i] {
            r.push(a);
        }
        i = i + 1;
    }
    r
}

fn collect_int128<'a>(arrays: &[&'a Array]) -> (r: Vec<&'a PrimitiveArray<i128>>)
    requires
        forall|i: int| 0 <= i < arrays@.len() ==> (#[trigger] arrays@[i]) is Int128,
    ensures
        r@.len() == arrays@.len(),
        forall|i: int| 0 <= i < arrays@.len() ==> *(#[trigger] r@[i]) == arrays@[i]->Int128_0,
{
    let mut r: Vec<&'a PrimitiveArray<i128>> = Vec::new();
    let mut i: usize = 0;
    while i < arrays.len()
        invariant
            i <= arrays@.len(),
            r@.len() == i,
            forall|k: int| 0 <= k < arrays@.len() ==> (#[trigger] arrays@[k]) is Int128,
            forall|k: int| 0 <= k < i ==> *(#[trigger] r@[k]) == arrays@[k]->Int128_0,
        decreases arrays@.len() - i,
    {
        if let Array::Int128(a) = arrays[i] {
            r.push(a);
        }
        i = i + 1;
    }
    r
}

fn collect_uint8<'a>(arrays: &[&'a Array]) -> (r: Vec<&'a PrimitiveArray<u8>>)
    requires
        forall|i: int| 0 <= i < arrays@.len() ==> (#[trigger] arrays@[i]) is UInt8,
    ensures
        r@.len() == arrays@.len(),
        forall|i: int| 0 <= i < arrays@.len() ==> *(#[trigger] r@[i]) == arrays@[i]->UInt8_0,
{
    let mut r: Vec<&'a PrimitiveArray<u8>> = Vec::new();
    let mut i: usize = 0;
    while i < arrays.len()
        invariant
            i <= arrays@.len(),
            r@.len() == i,
            forall|k: int| 0 <= k < arrays@.len() ==> (#[trigger] arrays@[k]) is UInt8,
            forall|k: int| 0 <= k < i ==> *(#[trigger] r@[k]) == arrays@[k]->UInt8_0,
        decreases arrays@.len() - i,
    {
        if let Array::UInt8(a) = arrays[i] {
            r.push(a);
        }
        i = i + 1;
    }
    r
}

fn collect_uint16<'a>(arrays: &[&'a Array]) -> (r: Vec<&'a PrimitiveArray<u16>>)
    requires
        forall|i: int| 0 <= i < arrays@.len() ==> (#[trigger] arrays@[i]) is UInt16,
    ensures
        r@.len() == arrays@.len(),
        forall|i: int| 0 <= i < arrays@.len() ==> *(#[trigger] r@[i]) == arrays@[i]->UInt16_0,
{
    let mut r: Vec<&'a PrimitiveArray<u16>> = Vec::new();
    let mut i: usize = 0;
    while i < arrays.len()
        invariant
            i <= arrays@.len(),
            r@.len() == i,
            forall|k: int| 0 <= k < arrays@.len() ==> (#[trigger] arrays@[k]) is UInt16,
            forall|k: int| 0 <= k < i ==> *(#[trigger] r@[k]) == arrays@[k]->UInt16_0,
        decreases arrays@.len() - i,
    {
        if let Array::UInt16(a) = arrays[i] {
            r.push(a);
        }
        i = i + 1;
    }
    r
}

fn collect_uint32<'a>(arrays: &[&'a Array]) -> (r: Vec<&'a PrimitiveArray<u32>>)
    requires
        forall|i: int| 0 <= i < arrays@.len() ==> (#[trigger] arrays@[i]) is UInt32,
    ensures
        r@.len() == arrays@.len(),
        forall|i: int| 0 <= i < arrays@.len() ==> *(#[trigger] r@[i]) == arrays@[i]->UInt32_0,
{
    let mut r: Vec<&'a PrimitiveArray<u32>> = Vec::new();
    let mut i: usize = 0;
    while i < arrays.len()
        invariant
            i <= arrays@.len(),
            r@.len() == i,
            forall|k: int| 0 <= k < arrays@.len() ==> (#[trigger] arrays@[k]) is UInt32,
            forall|k: int| 0 <= k < i ==> *(#[trigger] r@[k]) == arrays@[k]->UInt32_0,
        decreases arrays@.len() - i,
    {
        if let Array::UInt32(a) = arrays[i] {
            r.push(a);
        }
        i = i + 1;
    }
    r
}

fn collect_uint64<'a>(arrays: &[&'a Array]) -> (r: Vec<&'a PrimitiveArray<u64>>)
    requires
        forall|i: int| 0 <= i < arrays@.len() ==> (#[trigger] arrays@[i]) is UInt64,
    ensures
        r@.len() == arrays@.len(),
        forall|i: int| 0 <= i < arrays@.len() ==> *(#[trigger] r@[i]) == arrays@[i]->UInt64_0,
{
    let mut r: Vec<&'a PrimitiveArray<u64>> = Vec::new();
    let mut i: usize = 0;
    while i < arrays.len()
        invariant
            i <= arrays@.len(),
            r@.len() == i,
            forall|k: int| 0 <= k < arrays@.len() ==> (#[trigger] arrays@[k]) is UInt64,
            forall|k: int| 0 <= k < i ==> *(#[trigger] r@[k]) == arrays@[k]->UInt64_0,
        decreases arrays@.len() - i,
    {
        if let Array::UInt64(a) = arrays[i] {
            r.push(a);
        }
        i = i + 1;
    }
    r
}

fn collect_uint128<'a>(arrays: &[&'a Array]) -> (r: Vec<&'a PrimitiveArray<u128>>)
    requires
        forall|i: int| 0 <= i < arrays@.len() ==> (#[trigger] arrays@[i]) is UInt128,
    ensures
        r@.len() == arrays@.len(),
        forall|i: int| 0 <= i < arrays@.len() ==> *(#[trigger] r@[i]) == arrays@[i]->UInt128_0,
{
    let mut r: Vec<&'a PrimitiveArray<u128>> = Vec::new();
    let mut i: usize = 0;
    while i < arrays.len()
        invariant
            i <= arrays@.len(),
            r@.len() == i,
            forall|k: int| 0 <= k < arrays@.len() ==> (#[trigger] arrays@[k]) is UInt128,
            forall|k: int| 0 <= k < i ==> *(#[trigger] r@[k]) == arrays@[k]->UInt128_0,
        decreases arrays@.len() - i,
    {
        if let Array::UInt128(a) = arrays[i] {
            r.push(a);
        }
        i = i + 1;
    }
    r
}

fn collect_float32<'a>(arrays: &[&'a Array]) -> (r: Vec<&'a PrimitiveArray<u32>>)
    requires
        forall|i: int| 0 <= i < arrays@.len() ==> (#[trigger] arrays@[i]) is Float32,
    ensures
        r@.len() == arrays@.len(),
        forall|i: int| 0 <= i < arrays@.len() ==> *(#[trigger] r@[i]) == arrays@[i]->Float32_0,
{
    let mut r: Vec<&'a PrimitiveArray<u32>> = Vec::new();
    let mut i: usize = 0;
    while i < arrays.len()
        invariant
            i <= arrays@.len(),
            r@.len() == i,
            forall|k: int| 0 <= k < arrays@.len() ==> (#[trigger] arrays@[k]) is Float32,
            forall|k: int| 0 <= k < i ==> *(#[trigger] r@[k]) == arrays@[k]->Float32_0,
        decreases arrays@.len() - i,
    {
        if let Array::Float32(a) = arrays[i] {
            r.push(a);
        }
        i = i + 1;
    }
    r
}

fn collect_float64<'a>(arrays: &[&'a Array]) -> (r: Vec<&'a PrimitiveArray<u64>>)
    requires
        forall|i: int| 0 <= i < arrays@.len() ==> (#[trigger] arrays@[i]) is Float64,
    ensures
        r@.len() == arrays@.len(),
        forall|i: int| 0 <= i < arrays@.len() ==> *(#[trigger] r@[i]) == arrays@[i]->Float64_0,
{
    let mut r: Vec<&'a PrimitiveArray<u64>> = Vec::new();
    let mut i: usize = 0;
    while i < arrays.len()
        invariant
            i <= arrays@.len(),
            r@.len() == i,
            forall|k: int| 0 <= k < arrays@.len() ==> (#[trigger] arrays@[k]) is Float64,
            forall|k: int| 0 <= k < i ==> *(#[trigger] r@[k]) == arrays@[k]->Float64_0,
        decreases arrays@.len() - i,
    {
        if let Array::Float64(a) = arrays[i] {
            r.push(a);
        }
        i = i + 1;
    }
    r
}

fn collect_date32<'a>(arrays: &[&'a Array]) -> (r: Vec<&'a PrimitiveArray<i32>>)
    requires
        forall|i: int| 0 <= i < arrays@.len() ==> (#[trigger] arrays@[i]) is Date32,
    ensures
        r@.len() == arrays@.len(),
        forall|i: int| 0 <= i < arrays@.len() ==> *(#[trigger] r@[i]) == arrays@[i]->Date32_0,
{
    let mut r: Vec<&'a PrimitiveArray<i32>> = Vec::new();
    let mut i: usize = 0;
    while i < arrays.len()
        invariant
            i <= arrays@.len(),
            r@.len() == i,
            forall|k: int| 0 <= k < arrays@.len() ==> (#[trigger] arrays@[k]) is Date32,
            forall|k: int| 0 <= k < i ==> *(#[trigger] r@[k]) == arrays@[k]->Date32_0,
        decreases arrays@.len() - i,
    {
        if let Array::Date32(a) = arrays[i] {
            r.push(a);
        }
        i = i + 1;
    }
    r
}

fn collect_date64<'a>(arrays: &[&'a Array]) -> (r: Vec<&'a PrimitiveArray<i64>>)
    requires
        forall|i: int| 0 <= i < arrays@.len() ==> (#[trigger] arrays@[i]) is Date64,
    ensures
        r@.len() == arrays@.len(),
        forall|i: int| 0 <= i < arrays@.len() ==> *(#[trigger] r@[i]) == arrays@[i]->Date64_0,
{
    let mut r: Vec<&'a PrimitiveArray<i64>> = Vec::new();
    let mut i: usize = 0;
    while i < arrays.len()
        invariant
            i <= arrays@.len(),
            r@.len() == i,
            forall|k: int| 0 <= k < arrays@.len() ==> (#[trigger] arrays@[k]) is Date64,
            forall|k: int| 0 <= k < i ==> *(#[trigger] r@[k]) == arrays@[k]->Date64_0,
        decreases arrays@.len() - i,
    {
        if let Array::Date64(a) = arrays[i] {
            r.push(a);
        }
        i = i + 1;
    }
    r
}

fn collect_interval<'a>(arrays: &[&'a Array]) -> (r: Vec<&'a PrimitiveArray<IntervalValue>>)
    requires
        forall|i: int| 0 <= i < arrays@.len() ==> (#[trigger] arrays@[i]) is Interval,
    ensures
        r@.len() == arrays@.len(),
        forall|i: int| 0 <= i < arrays@.len() ==> *(#[trigger] r@[i]) == arrays@[i]->Interval_0,
{
    let mut r: Vec<&'a PrimitiveArray<IntervalValue>> = Vec::new();
    let mut i: usize = 0;
    while i < arrays.len()
        invariant
            i <= arrays@.len(),
            r@.len() == i,
            forall|k: int| 0 <= k < arrays@.len() ==> (#[trigger] arrays@[k]) is Interval,
            forall|k: int| 0 <= k < i ==> *(#[trigger] r@[k]) == arrays@[k]->Interval_0,
        decreases arrays@.len() - i,
    {
        if let Array::Interval(a) = arrays[i] {
            r.push(a);
        }
        i = i + 1;
    }
    r
}

fn collect_decimal64<'a>(arrays: &[&'a Array]) -> (r: Vec<&'a DecimalArray<i64>>)
    requires
        forall|i: int| 0 <= i < arrays@.len() ==> (#[trigger] arrays@[i]) is Decimal64,
    ensures
        r@.len() == arrays@.len(),
        forall|i: int| 0 <= i < arrays@.len() ==> *(#[trigger] r@[i]) == arrays@[i]->Decimal64_0,
{
    let mut r: Vec<&'a DecimalArray<i64>> = Vec::new();
    let mut i: usize = 0;
    while i < arrays.len()
        invariant
            i <= arrays@.len(),
            r@.len() == i,
            forall|k: int| 0 <= k < arrays@.len() ==> (#[trigger] arrays@[k]) is Decimal64,
            forall|k: int| 0 <= k < i ==> *(#[trigger] r@[k]) == arrays@[k]->Decimal64_0,
        decreases arrays@.len() - i,
    {
        if let Array::Decimal64(a) = arrays[i] {
            r.push(a);
        }
        i = i + 1;
    }
    r
}

fn collect_decimal128<'a>(arrays: &[&'a Array]) -> (r: Vec<&'a DecimalArray<i128>>)
    requires
        forall|i: int| 0 <= i < arrays@.len() ==> (#[trigger] arrays@[i]) is Decimal128,
    ensures
        r@.len() == arrays@.len(),
        forall|i: int| 0 <= i < arrays@.len() ==> *(#[trigger] r@[i]) == arrays@[i]->Decimal128_0,
{
    let mut r: Vec<&'a DecimalArray<i128>> = Vec::new();
    let mut i: usize = 0;
    while i < arrays.len()
        invariant
            i <= arrays@.len(),
            r@.len() == i,
            forall|k: int| 0 <= k < arrays@.len() ==> (#[trigger] arrays@[k]) is Decimal128,
            forall|k: int| 0 <= k < i ==> *(#[trigger] r@[k]) == arrays@[k]->Decimal128_0,
        decreases arrays@.len() - i,
    {
        if let Array::Decimal128(a) = arrays[i] {
            r.push(a);
        }
        i = i + 1;
    }
    r
}

fn collect_timestamp<'a>(arrays: &[&'a Array]) -> (r: Vec<&'a TimestampArray>)
    requires
        forall|i: int| 0 <= i < arrays@.len() ==> (#[trigger] arrays@[i]) is Timestamp,
    ensures
        r@.len() == arrays@.len(),
        forall|i: int| 0 <= i < arrays@.len() ==> *(#[trigger] r@[i]) == arrays@[i]->Timestamp_0,
{
    let mut r: Vec<&'a TimestampArray> = Vec::new();
    let mut i: usize = 0;
    while i < arrays.len()
        invariant
            i <= arrays@.len(),
            r@.len() == i,
            forall|k: int| 0 <= k < arrays@.len() ==> (#[trigger] arrays@[k]) is Timestamp,
            forall|k: int| 0 <= k < i ==> *(#[trigger] r@[k]) == arrays@[k]->Timestamp_0,
        decreases arrays@.len() - i,
    {
        if let Array::Timestamp(a) = arrays[i] {
            r.push(a);
        }
        i = i + 1;
    }
    r
}

fn collect_utf8<'a>(arrays: &[&'a Array]) -> (r: Vec<&'a VarlenArray>)
    requires
        forall|i: int| 0 <= i < arrays@.len() ==> (#[trigger] arrays@[i]) is Utf8,
    ensures
        r@.len() == arrays@.len(),
        forall|i: int| 0 <= i < arrays@.len() ==> *(#[trigger] r@[i]) == arrays@[i]->Utf8_0,
{
    let mut r: Vec<&'a VarlenArray> = Vec::new();
    let mut i: usize = 0;
    while i < arrays.len()
        invariant
            i <= arrays@.len(),
            r@.len() == i,
            forall|k: int| 0 <= k < arrays@.len() ==> (#[trigger] arrays@[k]) is Utf8,
            forall|k: int| 0 <= k < i ==> *(#[trigger] r@[k]) == arrays@[k]->Utf8_0,
        decreases arrays@.len() - i,
    {
        if let Array::Utf8(a) = arrays[i] {
            r.push(a);
        }
        i = i + 1;
    }
    r
}

fn collect_largeutf8<'a>(arrays: &[&'a Array]) -> (r: Vec<&'a VarlenArray>)
    requires
        forall|i: int| 0 <= i < arrays@.len() ==> (#[trigger] arrays@[i]) is LargeUtf8,
    ensures
        r@.len() == arrays@.len(),
        forall|i: int| 0 <= i < arrays@.len() ==> *(#[trigger] r@[i]) == arrays@[i]->LargeUtf8_0,
{
    let mut r: Vec<&'a VarlenArray> = Vec::new();
    let mut i: usize = 0;
    while i < arrays.len()
        invariant
            i <= arrays@.len(),
            r@.len() == i,
            forall|k: int| 0 <= k < arrays@.len() ==> (#[trigger] arrays@[k]) is LargeUtf8,
            forall|k: int| 0 <= k < i ==> *(#[trigger] r@[k]) == arrays@[k]->LargeUtf8_0,
        decreases arrays@.len() - i,
    {
        if let Array::LargeUtf8(a) = arrays[i] {
            r.push(a);
        }
        i = i + 1;
    }
    r
}

fn collect_binary<'a>(arrays: &[&'a Array]) -> (r: Vec<&'a VarlenArray>)
    requires
        forall|i: int| 0 <= i < arrays@.len() ==> (#[trigger] arrays@[i]) is Binary,
    ensures
        r@.len() == arrays@.len(),
        forall|i: int| 0 <= i < arrays@.len() ==> *(#[trigger] r@[i]) == arrays@[i]->Binary_0,
{
    let mut r: Vec<&'a VarlenArray> = Vec::new();
    let mut i: usize = 0;
    while i < arrays.len()
        invariant
            i <= arrays@.len(),
            r@.len() == i,
            forall|k: int| 0 <= k < arrays@.len() ==> (#[trigger] arrays@[k]) is Binary,
            forall|k: int| 0 <= k < i ==> *(#[trigger] r@[k]) == arrays@[k]->Binary_0,
        decreases arrays@.len() - i,
    {
        if let Array::Binary(a) = arrays[i] {
            r.push(a);
        }
        i = i + 1;
    }
    r
}

fn collect_largebinary<'a>(arrays: &[&'a Array]) -> (r: Vec<&'a VarlenArray>)
    requires
        forall|i: int| 0 <= i < arrays@.len() ==> (#[trigger] arrays@[i]) is LargeBinary,
    ensures
        r@.len() == arrays@.len(),
        forall|i: int| 0 <= i < arrays@.len() ==> *(#[trigger] r@[i]) == arrays@[i]->LargeBinary_0,
{
    let mut r: Vec<&'a VarlenArray> = Vec::new();
    let mut i: usize = 0;
    while i < arrays.len()
        invariant
            i <= arrays@.len(),
            r@.len() == i,
            forall|k: int| 0 <= k < arrays@.len() ==> (#[trigger] arrays@[k]) is LargeBinary,
            forall|k: int| 0 <= k < i ==> *(#[trigger] r@[k]) == arrays@[k]->LargeBinary_0,
        decreases arrays@.len() - i,
    {
        if let Array::LargeBinary(a) = arrays[i] {
            r.push(a);
        }
        i = i + 1;
    }
    r
}

fn collect_list<'a>(arrays: &[&'a Array]) -> (r: Vec<&'a ListArray>)
    requires
        forall|i: int| 0 <= i < arrays@.len() ==> (#[trigger] arrays@[i]) is List,
    ensures
        r@.len() == arrays@.len(),
        forall|i: int| 0 <= i < arrays@.len() ==> *(#[trigger] r@[i]) == arrays@[i]->List_0,
{
    let mut r: Vec<&'a ListArray> = Vec::new();
    let mut i: usize = 0;
    while i < arrays.len()
        invariant
            i <= arrays@.len(),
            r@.len() == i,
            forall|k: int| 0 <= k < arrays@.len() ==> (#[trigger] arrays@[k]) is List,
            forall|k: int| 0 <= k < i ==> *(#[trigger] r@[k]) == arrays@[k]->List_0,
        decreases arrays@.len() - i,
    {
        if let Array::List(a) = arrays[i] {
            r.push(a);
        }
        i = i + 1;
    }
    r
}

proof fn lemma_sum_lens_prefix(arrs: Seq<Array>, i: int)
    requires
        0 <= i < arrs.len(),
    ensures
        sum_lens(arrs.subrange(0, i + 1)) == sum_lens(arrs.subrange(0, i)) + arrs[i].spec_len(),
{
    assert(arrs.subrange(0, i + 1).drop_last() =~= arrs.subrange(0, i));
}

proof fn lemma_sum_lens_le(arrs: Seq<Array>, i: int)
    requires
        0 <= i <= arrs.len(),
    ensures
        sum_lens(arrs.subrange(0, i)) <= sum_lens(arrs),
    decreases arrs.len() - i,
{
    if i < arrs.len() {
        lemma_sum_lens_prefix(arrs, i);
        lemma_sum_lens_le(arrs, i + 1);
    } else {
        lemma_full(arrs);
    }
}

/// The flattened values of arrays whose value counts are their row counts
/// number the sum of their row counts.
proof fn lemma_flatten_len<T>(arrs: Seq<Array>, vals: Seq<Seq<T>>)
    requires
        vals.len() == arrs.len(),
        forall|i: int| 0 <= i < arrs.len() ==> (#[trigger] vals[i]).len() == arrs[i].spec_len(),
    ensures
        vals.flatten().len() == sum_lens(arrs),
    decreases arrs.len(),
{
    vals.lemma_flatten_and_flatten_alt_are_equivalent();
    if arrs.len() > 0 {
        let v2 = vals.drop_last();
        let a2 = arrs.drop_last();
        assert forall|i: int| 0 <= i < a2.len() implies (#[trigger] v2[i]).len() == a2[i].spec_len() by {
            assert(v2[i] == vals[i]);
            assert(a2[i] == arrs[i]);
        }
        lemma_flatten_len(a2, v2);
        v2.lemma_flatten_and_flatten_alt_are_equivalent();
    }
}

/// The offsets of a concatenation number one more than the sum of the row
/// counts, and end at the sum of the parts' last offsets.
proof fn lemma_shifted_len(arrs: Seq<Array>, offs: Seq<Seq<usize>>)
    requires
        offs.len() == arrs.len(),
        forall|i: int|
            0 <= i < arrs.len() ==> (#[trigger] offs[i]).len() >= 1 && offs[i].len() - 1
                == arrs[i].spec_len(),
    ensures
        shifted_offsets(offs).len() == 1 + sum_lens(arrs),
    decreases arrs.len(),
{
    if arrs.len() > 0 {
        let o2 = offs.drop_last();
        let a2 = arrs.drop_last();
        assert forall|i: int| 0 <= i < a2.len() implies (#[trigger] o2[i]).len() >= 1 && o2[i].len()
            - 1 == a2[i].spec_len() by {
            assert(o2[i] == offs[i]);
            assert(a2[i] == arrs[i]);
        }
        lemma_shifted_len(a2, o2);
    }
}

proof fn lemma_varlen_len(arrs: Seq<Array>, ps: Seq<VarlenArray>)
    requires
        ps.len() == arrs.len(),
        forall|i: int|
            0 <= i < arrs.len() ==> (#[trigger] ps[i]).wf() && arrs[i].spec_len() == ps[i].spec_len(),
    ensures
        shifted_offsets(ps.map_values(|p: VarlenArray| p.offsets@)).len() == 1 + sum_lens(arrs),
{
    let offs = ps.map_values(|p: VarlenArray| p.offsets@);
    assert forall|i: int| 0 <= i < arrs.len() implies (#[trigger] offs[i]).len() >= 1 && offs[i].len()
        - 1 == arrs[i].spec_len() by {
        assert(offs[i] == ps[i].offsets@);
    }
    lemma_shifted_len(arrs, offs);
}

/// Concatenates variable-length arrays.
pub fn concat_varlen(arrays: &[&VarlenArray]) -> (r: VarlenArray)
    requires
        forall|i: int| 0 <= i < arrays@.len() ==> (#[trigger] arrays@[i]).wf(),
    ensures
        r.wf(),
        varlen_concat(arrays@.map_values(|a: &VarlenArray| *a), r),
{
    let ghost ps = arrays@.map_values(|a: &VarlenArray| *a);
    let ghost datas = ps.map_values(|p: VarlenArray| p.data@);
    let ghost offs = ps.map_values(|p: VarlenArray| p.offsets@);
    let ghost parts = ps.map_values(|p: VarlenArray| p.part());
    let mut data: Vec<u8> = Vec::new();
    let mut offsets: Vec<usize> = Vec::new();
    offsets.push(0);
    let mut mask: Vec<bool> = Vec::new();
    let mut any = false;
    let mut i: usize = 0;
    while i < arrays.len()
        invariant
            i <= arrays@.len(),
            ps == arrays@.map_values(|a: &VarlenArray| *a),
            datas == ps.map_values(|p: VarlenArray| p.data@),
            offs == ps.map_values(|p: VarlenArray| p.offsets@),
            parts == ps.map_values(|p: VarlenArray| p.part()),
            forall|k: int| 0 <= k < arrays@.len() ==> (#[trigger] arrays@[k]).wf(),
            data@ == datas.subrange(0, i as int).flatten(),
            ints(offsets@) == shifted_offsets(offs.subrange(0, i as int)),
            offsets@.len() >= 1,
            offsets@[0] == 0,
            offsets@.last() == data@.len(),
            monotone(offsets@),
            mask@ == expanded_blocks(parts.subrange(0, i as int)),
            any == any_mask(parts.subrange(0, i as int)),
            mask@.len() + 1 == offsets@.len(),
        decreases arrays@.len() - i,
    {
        let a = arrays[i];
        let base = data.len();
        append_copied(&mut data, &a.data);
        proof {
            lemma_shifted_prefix(offs, i as int);
            lemma_shifted_nonempty(offs.subrange(0, i as int));
            assert(shifted_offsets(offs.subrange(0, i as int)).last() == ints(offsets@).last());
        }
        append_shifted(&mut offsets, &a.offsets, base, data.len());
        extend_validity(&mut mask, a.offsets.len() - 1, &a.validity);
        if a.validity.is_some() {
            any = true;
        }
        proof {
            lemma_flatten_prefix(datas, i as int);
            lemma_blocks_prefix(parts, i as int);
        }
        i = i + 1;
    }
    proof {
        lemma_full(datas);
        lemma_full(offs);
        lemma_full(parts);
    }
    VarlenArray { offsets, data, validity: if any { Some(mask) } else { None } }
}

/// Concatenates list arrays: their children are concatenated, and the
/// offsets of each part are shifted past the children before it.
pub fn concat_list(arrays: &[&ListArray]) -> (r: Result<ListArray>)
    requires
        arrays@.len() > 0,
        forall|i: int| 0 <= i < arrays@.len() ==> Array::List(*(#[trigger] arrays@[i])).wf(),
    ensures
        r is Ok <==> concat_ok(lists_of(arrays@)),
        r matches Ok(l) ==> concat_spec(
            lists_of(arrays@),
            Array::List(l),
            dt_depth(lists_of(arrays@)[0].spec_datatype()),
        ),
        r matches Err(e) ==> e.kind == concat_error_kind(list_children(lists_of(arrays@))),
    decreases 2 * dt_depth(lists_of(arrays@)[0].spec_datatype()) + 1,
{
    let ghost lists = lists_of(arrays@);
    let ghost children = list_children(lists);
    let mut inners: Vec<&Array> = Vec::new();
    let mut i: usize = 0;
    while i < arrays.len()
        invariant
            i <= arrays@.len(),
            inners@.len() == i,
            forall|k: int| 0 <= k < i ==> *(#[trigger] inners@[k]) == *arrays@[k].child,
        decreases arrays@.len() - i,
    {
        inners.push(&*arrays[i].child);
        i = i + 1;
    }
    proof {
        assert(derefs(inners@) =~= children);
        assert forall|k: int| 0 <= k < children.len() implies (#[trigger] children[k]).wf() by {
            assert(lists[k] == Array::List(*arrays@[k]));
        }
        if same_types(lists) {
            assert forall|k: int| 0 <= k < children.len() implies (#[trigger] children[k]).spec_datatype()
                == children[0].spec_datatype() by {
                assert(lists[k].spec_datatype() == lists[0].spec_datatype());
            }
        } else {
            let k = choose|k: int| 0 <= k < lists.len() && !((#[trigger] lists[k]).spec_datatype()
                == lists[0].spec_datatype());
            assert(children[k].spec_datatype() != children[0].spec_datatype());
            assert(!same_types(children));
        }
        assert(same_types(children) == same_types(lists));
        assert forall|k: int| 0 <= k < inners@.len() implies (#[trigger] inners@[k]).wf() by {
            assert(inners@[k] == children[k]);
        }
    }
    let child = concat(inners.as_slice())?;
    let child_len = child.len();
    let ghost offs = lists.map_values(|a: Array| a->List_0.offsets@);
    let ghost parts = parts_of(lists);
    let mut offsets: Vec<usize> = Vec::new();
    offsets.push(0);
    let mut mask: Vec<bool> = Vec::new();
    let mut any = false;
    let mut base: usize = 0;
    let mut i: usize = 0;
    proof {
        lemma_sum_lens_le(children, 0);
    }
    while i < arrays.len()
        invariant
            i <= arrays@.len(),
            lists == lists_of(arrays@),
            children == list_children(lists),
            offs == lists.map_values(|a: Array| a->List_0.offsets@),
            parts == parts_of(lists),
            forall|k: int| 0 <= k < arrays@.len() ==> Array::List(*(#[trigger] arrays@[k])).wf(),
            child_len == sum_lens(children),
            base == sum_lens(children.subrange(0, i as int)),
            ints(offsets@) == shifted_offsets(offs.subrange(0, i as int)),
            offsets@.len() >= 1,
            offsets@[0] == 0,
            offsets@.last() == base,
            monotone(offsets@),
            mask@ == expanded_blocks(parts.subrange(0, i as int)),
            any == any_mask(parts.subrange(0, i as int)),
            mask@.len() + 1 == offsets@.len(),
        decreases arrays@.len() - i,
    {
        let a = arrays[i];
        proof {
            assert(children[i as int] == *a.child);
            assert(lists[i as int] == Array::List(*a));
            lemma_sum_lens_prefix(children, i as int);
            lemma_sum_lens_le(children, i + 1);
            lemma_shifted_prefix(offs, i as int);
            lemma_shifted_nonempty(offs.subrange(0, i as int));
            assert(shifted_offsets(offs.subrange(0, i as int)).last() == ints(offsets@).last());
            assert(offs[i as int] == a.offsets@);
            assert(parts[i as int] == a.part());
        }
        let n = a.child.len();
        append_shifted(&mut offsets, &a.offsets, base, base + n);
        extend_validity(&mut mask, a.offsets.len() - 1, &a.validity);
        if a.validity.is_some() {
            any = true;
        }
        proof {
            lemma_blocks_prefix(parts, i as int);
        }
        base = base + n;
        i = i + 1;
    }
    proof {
        lemma_full(offs);
        lemma_full(parts);
        lemma_full(children);
        let lens = lists.map_values(|a: Array| a->List_0.offsets@);
        assert forall|k: int| 0 <= k < lists.len() implies (#[trigger] offs[k]).len() >= 1 && offs[k].len()
            - 1 == lists[k].spec_len() by {
            assert(lists[k] == Array::List(*arrays@[k]));
        }
        lemma_shifted_len(lists, offs);
    }
    Ok(ListArray { child: Box::new(child), offsets, validity: if any { Some(mask) } else { None } })
}

/// The list arrays behind a slice of references, as arrays.
pub open spec fn lists_of(arrays: Seq<&ListArray>) -> Seq<Array> {
    arrays.map_values(|a: &ListArray| Array::List(*a))
}

#[verifier::rlimit(40)]
fn concat_as_boolean(arrays: &[&Array]) -> (r: Array)
    requires
        arrays@.len() > 0,
        arrays@[0] is Boolean,
        same_types(derefs(arrays@)),
        forall|i: int| 0 <= i < arrays@.len() ==> (#[trigger] arrays@[i]).wf(),
    ensures
        concat_spec(derefs(arrays@), r, 0),
{
    let ghost arrs = derefs(arrays@);
    assert forall|i: int| 0 <= i < arrays@.len() implies (#[trigger] arrays@[i]) is Boolean by {
        assert(arrs[i].spec_datatype() == arrs[0].spec_datatype());
    }
    let parts = collect_boolean(arrays);
    let p = concat_boolean(parts.as_slice());
    proof {
        let ps = arrs.map_values(|a: Array| a->Boolean_0);
        assert(parts@.map_values(|a: &BooleanArray| *a) =~= ps);
        assert(parts@.map_values(|a: &BooleanArray| a.values@) =~= arrs.map_values(
            |a: Array| a->Boolean_0.values@,
        ));
        assert(parts_of(arrs) =~= parts@.map_values(|a: &BooleanArray| a.part()));
        lemma_flatten_len(arrs, arrs.map_values(|a: Array| a->Boolean_0.values@));
    }
    Array::Boolean(p)
}

#[verifier::rlimit(40)]
fn concat_as_int8(arrays: &[&Array]) -> (r: Array)
    requires
        arrays@.len() > 0,
        arrays@[0] is Int8,
        same_types(derefs(arrays@)),
        forall|i: int| 0 <= i < arrays@.len() ==> (#[trigger] arrays@[i]).wf(),
    ensures
        concat_spec(derefs(arrays@), r, 0),
{
    let ghost arrs = derefs(arrays@);
    assert forall|i: int| 0 <= i < arrays@.len() implies (#[trigger] arrays@[i]) is Int8 by {
        assert(arrs[i].spec_datatype() == arrs[0].spec_datatype());
    }
    let parts = collect_int8(arrays);
    let p = concat_primitive(parts.as_slice());
    proof {
        let ps = arrs.map_values(|a: Array| a->Int8_0);
        assert(parts@.map_values(|a: &PrimitiveArray<i8>| *a) =~= ps);
        assert(parts_of(arrs) =~= ps.map_values(|q: PrimitiveArray<i8>| q.part()));
        lemma_flatten_len(arrs, ps.map_values(|q: PrimitiveArray<i8>| q.values@));
    }
    Array::Int8(p)
}

#[verifier::rlimit(40)]
fn concat_as_int16(arrays: &[&Array]) -> (r: Array)
    requires
        arrays@.len() > 0,
        arrays@[0] is Int16,
        same_types(derefs(arrays@)),
        forall|i: int| 0 <= i < arrays@.len() ==> (#[trigger] arrays@[i]).wf(),
    ensures
        concat_spec(derefs(arrays@), r, 0),
{
    let ghost arrs = derefs(arrays@);
    assert forall|i: int| 0 <= i < arrays@.len() implies (#[trigger] arrays@[i]) is Int16 by {
        assert(arrs[i].spec_datatype() == arrs[0].spec_datatype());
    }
    let parts = collect_int16(arrays);
    let p = concat_primitive(parts.as_slice());
    proof {
        let ps = arrs.map_values(|a: Array| a->Int16_0);
        assert(parts@.map_values(|a: &PrimitiveArray<i16>| *a) =~= ps);
        assert(parts_of(arrs) =~= ps.map_values(|q: PrimitiveArray<i16>| q.part()));
        lemma_flatten_len(arrs, ps.map_values(|q: PrimitiveArray<i16>| q.values@));
    }
    Array::Int16(p)
}

#[verifier::rlimit(40)]
fn concat_as_int32(arrays: &[&Array]) -> (r: Array)
    requires
        arrays@.len() > 0,
        arrays@[0] is Int32,
        same_types(derefs(arrays@)),
        forall|i: int| 0 <= i < arrays@.len() ==> (#[trigger] arrays@[i]).wf(),
    ensures
        concat_spec(derefs(arrays@), r, 0),
{
    let ghost arrs = derefs(arrays@);
    assert forall|i: int| 0 <= i < arrays@.len() implies (#[trigger] arrays@[i]) is Int32 by {
        assert(arrs[i].spec_datatype() == arrs[0].spec_datatype());
    }
    let parts = collect_int32(arrays);
    let p = concat_primitive(parts.as_slice());
    proof {
        let ps = arrs.map_values(|a: Array| a->Int32_0);
        assert(parts@.map_values(|a: &PrimitiveArray<i32>| *a) =~= ps);
        assert(parts_of(arrs) =~= ps.map_values(|q: PrimitiveArray<i32>| q.part()));
        lemma_flatten_len(arrs, ps.map_values(|q: PrimitiveArray<i32>| q.values@));
    }
    Array::Int32(p)
}

#[verifier::rlimit(40)]
fn concat_as_int64(arrays: &[&Array]) -> (r: Array)
    requires
        arrays@.len() > 0,
        arrays@[0] is Int64,
        same_types(derefs(arrays@)),
        forall|i: int| 0 <= i < arrays@.len() ==> (#[trigger] arrays@[i]).wf(),
    ensures
        concat_spec(derefs(arrays@), r, 0),
{
    let ghost arrs = derefs(arrays@);
    assert forall|i: int| 0 <= i < arrays@.len() implies (#[trigger] arrays@[i]) is Int64 by {
        assert(arrs[i].spec_datatype() == arrs[0].spec_datatype());
    }
    let parts = collect_int64(arrays);
    let p = concat_primitive(parts.as_slice());
    proof {
        let ps = arrs.map_values(|a: Array| a->Int64_0);
        assert(parts@.map_values(|a: &PrimitiveArray<i64>| *a) =~= ps);
        assert(parts_of(arrs) =~= ps.map_values(|q: PrimitiveArray<i64>| q.part()));
        lemma_flatten_len(arrs, ps.map_values(|q: PrimitiveArray<i64>| q.values@));
    }
    Array::Int64(p)
}

#[verifier::rlimit(40)]
fn concat_as_int128(arrays: &[&Array]) -> (r: Array)
    requires
        arrays@.len() > 0,
        arrays@[0] is Int128,
        same_types(derefs(arrays@)),
        forall|i: int| 0 <= i < arrays@.len() ==> (#[trigger] arrays@[i]).wf(),
    ensures
        concat_spec(derefs(arrays@), r, 0),
{
    let ghost arrs = derefs(arrays@);
    assert forall|i: int| 0 <= i < arrays@.len() implies (#[trigger] arrays@[i]) is Int128 by {
        assert(arrs[i].spec_datatype() == arrs[0].spec_datatype());
    }
    let parts = collect_int128(arrays);
    let p = concat_primitive(parts.as_slice());
    proof {
        let ps = arrs.map_values(|a: Array| a->Int128_0);
        assert(parts@.map_values(|a: &PrimitiveArray<i128>| *a) =~= ps);
        assert(parts_of(arrs) =~= ps.map_values(|q: PrimitiveArray<i128>| q.part()));
        lemma_flatten_len(arrs, ps.map_values(|q: PrimitiveArray<i128>| q.values@));
    }
    Array::Int128(p)
}

#[verifier::rlimit(40)]
fn concat_as_uint8(arrays: &[&Array]) -> (r: Array)
    requires
        arrays@.len() > 0,
        arrays@[0] is UInt8,
        same_types(derefs(arrays@)),
        forall|i: int| 0 <= i < arrays@.len() ==> (#[trigger] arrays@[i]).wf(),
    ensures
        concat_spec(derefs(arrays@), r, 0),
{
    let ghost arrs = derefs(arrays@);
    assert forall|i: int| 0 <= i < arrays@.len() implies (#[trigger] arrays@[i]) is UInt8 by {
        assert(arrs[i].spec_datatype() == arrs[0].spec_datatype());
    }
    let parts = collect_uint8(arrays);
    let p = concat_primitive(parts.as_slice());
    proof {
        let ps = arrs.map_values(|a: Array| a->UInt8_0);
        assert(parts@.map_values(|a: &PrimitiveArray<u8>| *a) =~= ps);
        assert(parts_of(arrs) =~= ps.map_values(|q: PrimitiveArray<u8>| q.part()));
        lemma_flatten_len(arrs, ps.map_values(|q: PrimitiveArray<u8>| q.values@));
    }
    Array::UInt8(p)
}

#[verifier::rlimit(40)]
fn concat_as_uint16(arrays: &[&Array]) -> (r: Array)
    requires
        arrays@.len() > 0,
        arrays@[0] is UInt16,
        same_types(derefs(arrays@)),
        forall|i: int| 0 <= i < arrays@.len() ==> (#[trigger] arrays@[i]).wf(),
    ensures
        concat_spec(derefs(arrays@), r, 0),
{
    let ghost arrs = derefs(arrays@);
    assert forall|i: int| 0 <= i < arrays@.len() implies (#[trigger] arrays@[i]) is UInt16 by {
        assert(arrs[i].spec_datatype() == arrs[0].spec_datatype());
    }
    let parts = collect_uint16(arrays);
    let p = concat_primitive(parts.as_slice());
    proof {
        let ps = arrs.map_values(|a: Array| a->UInt16_0);
        assert(parts@.map_values(|a: &PrimitiveArray<u16>| *a) =~= ps);
        assert(parts_of(arrs) =~= ps.map_values(|q: PrimitiveArray<u16>| q.part()));
        lemma_flatten_len(arrs, ps.map_values(|q: PrimitiveArray<u16>| q.values@));
    }
    Array::UInt16(p)
}

#[verifier::rlimit(40)]
fn concat_as_uint32(arrays: &[&Array]) -> (r: Array)
    requires
        arrays@.len() > 0,
        arrays@[0] is UInt32,
        same_types(derefs(arrays@)),
        forall|i: int| 0 <= i < arrays@.len() ==> (#[trigger] arrays@[i]).wf(),
    ensures
        concat_spec(derefs(arrays@), r, 0),
{
    let ghost arrs = derefs(arrays@);
    assert forall|i: int| 0 <= i < arrays@.len() implies (#[trigger] arrays@[i]) is UInt32 by {
        assert(arrs[i].spec_datatype() == arrs[0].spec_datatype());
    }
    let parts = collect_uint32(arrays);
    let p = concat_primitive(parts.as_slice());
    proof {
        let ps = arrs.map_values(|a: Array| a->UInt32_0);
        assert(parts@.map_values(|a: &PrimitiveArray<u32>| *a) =~= ps);
        assert(parts_of(arrs) =~= ps.map_values(|q: PrimitiveArray<u32>| q.part()));
        lemma_flatten_len(arrs, ps.map_values(|q: PrimitiveArray<u32>| q.values@));
    }
    Array::UInt32(p)
}

#[verifier::rlimit(40)]
fn concat_as_uint64(arrays: &[&Array]) -> (r: Array)
    requires
        arrays@.len() > 0,
        arrays@[0] is UInt64,
        same_types(derefs(arrays@)),
        forall|i: int| 0 <= i < arrays@.len() ==> (#[trigger] arrays@[i]).wf(),
    ensures
        concat_spec(derefs(arrays@), r, 0),
{
    let ghost arrs = derefs(arrays@);
    assert forall|i: int| 0 <= i < arrays@.len() implies (#[trigger] arrays@[i]) is UInt64 by {
        assert(arrs[i].spec_datatype() == arrs[0].spec_datatype());
    }
    let parts = collect_uint64(arrays);
    let p = concat_primitive(parts.as_slice());
    proof {
        let ps = arrs.map_values(|a: Array| a->UInt64_0);
        assert(parts@.map_values(|a: &PrimitiveArray<u64>| *a) =~= ps);
        assert(parts_of(arrs) =~= ps.map_values(|q: PrimitiveArray<u64>| q.part()));
        lemma_flatten_len(arrs, ps.map_values(|q: PrimitiveArray<u64>| q.values@));
    }
    Array::UInt64(p)
}

#[verifier::rlimit(40)]
fn concat_as_uint128(arrays: &[&Array]) -> (r: Array)
    requires
        arrays@.len() > 0,
        arrays@[0] is UInt128,
        same_types(derefs(arrays@)),
        forall|i: int| 0 <= i < arrays@.len() ==> (#[trigger] arrays@[i]).wf(),
    ensures
        concat_spec(derefs(arrays@), r, 0),
{
    let ghost arrs = derefs(arrays@);
    assert forall|i: int| 0 <= i < arrays@.len() implies (#[trigger] arrays@[i]) is UInt128 by {
        assert(arrs[i].spec_datatype() == arrs[0].spec_datatype());
    }
    let parts = collect_uint128(arrays);
    let p = concat_primitive(parts.as_slice());
    proof {
        let ps = arrs.map_values(|a: Array| a->UInt128_0);
        assert(parts@.map_values(|a: &PrimitiveArray<u128>| *a) =~= ps);
        assert(parts_of(arrs) =~= ps.map_values(|q: PrimitiveArray<u128>| q.part()));
        lemma_flatten_len(arrs, ps.map_values(|q: PrimitiveArray<u128>| q.values@));
    }
    Array::UInt128(p)
}

#[verifier::rlimit(40)]
fn concat_as_float32(arrays: &[&Array]) -> (r: Array)
    requires
        arrays@.len() > 0,
        arrays@[0] is Float32,
        same_types(derefs(arrays@)),
        forall|i: int| 0 <= i < arrays@.len() ==> (#[trigger] arrays@[i]).wf(),
    ensures
        concat_spec(derefs(arrays@), r, 0),
{
    let ghost arrs = derefs(arrays@);
    assert forall|i: int| 0 <= i < arrays@.len() implies (#[trigger] arrays@[i]) is Float32 by {
        assert(arrs[i].spec_datatype() == arrs[0].spec_datatype());
    }
    let parts = collect_float32(arrays);
    let p = concat_primitive(parts.as_slice());
    proof {
        let ps = arrs.map_values(|a: Array| a->Float32_0);
        assert(parts@.map_values(|a: &PrimitiveArray<u32>| *a) =~= ps);
        assert(parts_of(arrs) =~= ps.map_values(|q: PrimitiveArray<u32>| q.part()));
        lemma_flatten_len(arrs, ps.map_values(|q: PrimitiveArray<u32>| q.values@));
    }
    Array::Float32(p)
}

#[verifier::rlimit(40)]
fn concat_as_float64(arrays: &[&Array]) -> (r: Array)
    requires
        arrays@.len() > 0,
        arrays@[0] is Float64,
        same_types(derefs(arrays@)),
        forall|i: int| 0 <= i < arrays@.len() ==> (#[trigger] arrays@[i]).wf(),
    ensures
        concat_spec(derefs(arrays@), r, 0),
{
    let ghost arrs = derefs(arrays@);
    assert forall|i: int| 0 <= i < arrays@.len() implies (#[trigger] arrays@[i]) is Float64 by {
        assert(arrs[i].spec_datatype() == arrs[0].spec_datatype());
    }
    let parts = collect_float64(arrays);
    let p = concat_primitive(parts.as_slice());
    proof {
        let ps = arrs.map_values(|a: Array| a->Float64_0);
        assert(parts@.map_values(|a: &PrimitiveArray<u64>| *a) =~= ps);
        assert(parts_of(arrs) =~= ps.map_values(|q: PrimitiveArray<u64>| q.part()));
        lemma_flatten_len(arrs, ps.map_values(|q: PrimitiveArray<u64>| q.values@));
    }
    Array::Float64(p)
}

#[verifier::rlimit(40)]
fn concat_as_date32(arrays: &[&Array]) -> (r: Array)
    requires
        arrays@.len() > 0,
        arrays@[0] is Date32,
        same_types(derefs(arrays@)),
        forall|i: int| 0 <= i < arrays@.len() ==> (#[trigger] arrays@[i]).wf(),
    ensures
        concat_spec(derefs(arrays@), r, 0),
{
    let ghost arrs = derefs(arrays@);
    assert forall|i: int| 0 <= i < arrays@.len() implies (#[trigger] arrays@[i]) is Date32 by {
        assert(arrs[i].spec_datatype() == arrs[0].spec_datatype());
    }
    let parts = collect_date32(arrays);
    let p = concat_primitive(parts.as_slice());
    proof {
        let ps = arrs.map_values(|a: Array| a->Date32_0);
        assert(parts@.map_values(|a: &PrimitiveArray<i32>| *a) =~= ps);
        assert(parts_of(arrs) =~= ps.map_values(|q: PrimitiveArray<i32>| q.part()));
        lemma_flatten_len(arrs, ps.map_values(|q: PrimitiveArray<i32>| q.values@));
    }
    Array::Date32(p)
}

#[verifier::rlimit(40)]
fn concat_as_date64(arrays: &[&Array]) -> (r: Array)
    requires
        arrays@.len() > 0,
        arrays@[0] is Date64,
        same_types(derefs(arrays@)),
        forall|i: int| 0 <= i < arrays@.len() ==> (#[trigger] arrays@[i]).wf(),
    ensures
        concat_spec(derefs(arrays@), r, 0),
{
    let ghost arrs = derefs(arrays@);
    assert forall|i: int| 0 <= i < arrays@.len() implies (#[trigger] arrays@[i]) is Date64 by {
        assert(arrs[i].spec_datatype() == arrs[0].spec_datatype());
    }
    let parts = collect_date64(arrays);
    let p = concat_primitive(parts.as_slice());
    proof {
        let ps = arrs.map_values(|a: Array| a->Date64_0);
        assert(parts@.map_values(|a: &PrimitiveArray<i64>| *a) =~= ps);
        assert(parts_of(arrs) =~= ps.map_values(|q: PrimitiveArray<i64>| q.part()));
        lemma_flatten_len(arrs, ps.map_values(|q: PrimitiveArray<i64>| q.values@));
    }
    Array::Date64(p)
}

#[verifier::rlimit(40)]
fn concat_as_interval(arrays: &[&Array]) -> (r: Array)
    requires
        arrays@.len() > 0,
        arrays@[0] is Interval,
        same_types(derefs(arrays@)),
        forall|i: int| 0 <= i < arrays@.len() ==> (#[trigger] arrays@[i]).wf(),
    ensures
        concat_spec(derefs(arrays@), r, 0),
{
    let ghost arrs = derefs(arrays@);
    assert forall|i: int| 0 <= i < arrays@.len() implies (#[trigger] arrays@[i]) is Interval by {
        assert(arrs[i].spec_datatype() == arrs[0].spec_datatype());
    }
    let parts = collect_interval(arrays);
    let p = concat_primitive(parts.as_slice());
    proof {
        let ps = arrs.map_values(|a: Array| a->Interval_0);
        assert(parts@.map_values(|a: &PrimitiveArray<IntervalValue>| *a) =~= ps);
        assert(parts_of(arrs) =~= ps.map_values(|q: PrimitiveArray<IntervalValue>| q.part()));
        lemma_flatten_len(arrs, ps.map_values(|q: PrimitiveArray<IntervalValue>| q.values@));
    }
    Array::Interval(p)
}

#[verifier::rlimit(40)]
fn concat_as_decimal64(arrays: &[&Array]) -> (r: Array)
    requires
        arrays@.len() > 0,
        arrays@[0] is Decimal64,
        same_types(derefs(arrays@)),
        forall|i: int| 0 <= i < arrays@.len() ==> (#[trigger] arrays@[i]).wf(),
    ensures
        concat_spec(derefs(arrays@), r, 0),
{
    let ghost arrs = derefs(arrays@);
    let meta = match arrays[0] {
        Array::Decimal64(a) => DecimalTypeMeta { precision: a.precision, scale: a.scale },
        _ => {
            proof {
                assert(false);
            }
            return Array::Null(NullArray::new(0));
        },
    };
    assert forall|i: int| 0 <= i < arrays@.len() implies (#[trigger] arrays@[i]) is Decimal64 by {
        assert(arrs[i].spec_datatype() == arrs[0].spec_datatype());
    }
    let parts = collect_decimal64(arrays);
    let mut prims: Vec<&PrimitiveArray<i64>> = Vec::new();
    let mut i: usize = 0;
    while i < parts.len()
        invariant
            i <= parts@.len(),
            prims@.len() == i,
            forall|k: int| 0 <= k < i ==> *(#[trigger] prims@[k]) == parts@[k].array,
        decreases parts@.len() - i,
    {
        prims.push(&parts[i].array);
        i = i + 1;
    }
    let p = concat_primitive(prims.as_slice());
    proof {
        let ps = arrs.map_values(|a: Array| a->Decimal64_0.array);
        assert(prims@.map_values(|a: &PrimitiveArray<i64>| *a) =~= ps);
        assert(parts_of(arrs) =~= ps.map_values(|q: PrimitiveArray<i64>| q.part()));
        lemma_flatten_len(arrs, ps.map_values(|q: PrimitiveArray<i64>| q.values@));
    }
    Array::Decimal64(DecimalArray::new(meta.precision, meta.scale, p))
}

#[verifier::rlimit(40)]
fn concat_as_decimal128(arrays: &[&Array]) -> (r: Array)
    requires
        arrays@.len() > 0,
        arrays@[0] is Decimal128,
        same_types(derefs(arrays@)),
        forall|i: int| 0 <= i < arrays@.len() ==> (#[trigger] arrays@[i]).wf(),
    ensures
        concat_spec(derefs(arrays@), r, 0),
{
    let ghost arrs = derefs(arrays@);
    let meta = match arrays[0] {
        Array::Decimal128(a) => DecimalTypeMeta { precision: a.precision, scale: a.scale },
        _ => {
            proof {
                assert(false);
            }
            return Array::Null(NullArray::new(0));
        },
    };
    assert forall|i: int| 0 <= i < arrays@.len() implies (#[trigger] arrays@[i]) is Decimal128 by {
        assert(arrs[i].spec_datatype() == arrs[0].spec_datatype());
    }
    let parts = collect_decimal128(arrays);
    let mut prims: Vec<&PrimitiveArray<i128>> = Vec::new();
    let mut i: usize = 0;
    while i < parts.len()
        invariant
            i <= parts@.len(),
            prims@.len() == i,
            forall|k: int| 0 <= k < i ==> *(#[trigger] prims@[k]) == parts@[k].array,
        decreases parts@.len() - i,
    {
        prims.push(&parts[i].array);
        i = i + 1;
    }
    let p = concat_primitive(prims.as_slice());
    proof {
        let ps = arrs.map_values(|a: Array| a->Decimal128_0.array);
        assert(prims@.map_values(|a: &PrimitiveArray<i128>| *a) =~= ps);
        assert(parts_of(arrs) =~= ps.map_values(|q: PrimitiveArray<i128>| q.part()));
        lemma_flatten_len(arrs, ps.map_values(|q: PrimitiveArray<i128>| q.values@));
    }
    Array::Decimal128(DecimalArray::new(meta.precision, meta.scale, p))
}

#[verifier::rlimit(40)]
fn concat_as_timestamp(arrays: &[&Array]) -> (r: Array)
    requires
        arrays@.len() > 0,
        arrays@[0] is Timestamp,
        same_types(derefs(arrays@)),
        forall|i: int| 0 <= i < arrays@.len() ==> (#[trigger] arrays@[i]).wf(),
    ensures
        concat_spec(derefs(arrays@), r, 0),
{
    let ghost arrs = derefs(arrays@);
    let unit = match arrays[0] {
        Array::Timestamp(a) => a.unit,
        _ => {
            proof {
                assert(false);
            }
            return Array::Null(NullArray::new(0));
        },
    };
    assert forall|i: int| 0 <= i < arrays@.len() implies (#[trigger] arrays@[i]) is Timestamp by {
        assert(arrs[i].spec_datatype() == arrs[0].spec_datatype());
    }
    let parts = collect_timestamp(arrays);
    let mut prims: Vec<&PrimitiveArray<i64>> = Vec::new();
    let mut i: usize = 0;
    while i < parts.len()
        invariant
            i <= parts@.len(),
            prims@.len() == i,
            forall|k: int| 0 <= k < i ==> *(#[trigger] prims@[k]) == parts@[k].array,
        decreases parts@.len() - i,
    {
        prims.push(&parts[i].array);
        i = i + 1;
    }
    let p = concat_primitive(prims.as_slice());
    proof {
        let ps = arrs.map_values(|a: Array| a->Timestamp_0.array);
        assert(prims@.map_values(|a: &PrimitiveArray<i64>| *a) =~= ps);
        assert(parts_of(arrs) =~= ps.map_values(|q: PrimitiveArray<i64>| q.part()));
        lemma_flatten_len(arrs, ps.map_values(|q: PrimitiveArray<i64>| q.values@));
    }
    Array::Timestamp(TimestampArray::new(unit, p))
}

#[verifier::rlimit(40)]
fn concat_as_utf8(arrays: &[&Array]) -> (r: Array)
    requires
        arrays@.len() > 0,
        arrays@[0] is Utf8,
        same_types(derefs(arrays@)),
        forall|i: int| 0 <= i < arrays@.len() ==> (#[trigger] arrays@[i]).wf(),
    ensures
        concat_spec(derefs(arrays@), r, 0),
{
    let ghost arrs = derefs(arrays@);
    assert forall|i: int| 0 <= i < arrays@.len() implies (#[trigger] arrays@[i]) is Utf8 by {
        assert(arrs[i].spec_datatype() == arrs[0].spec_datatype());
    }
    let parts = collect_utf8(arrays);
    let p = concat_varlen(parts.as_slice());
    proof {
        let ps = arrs.map_values(|a: Array| a->Utf8_0);
        assert(parts@.map_values(|a: &VarlenArray| *a) =~= ps);
        assert(parts_of(arrs) =~= ps.map_values(|q: VarlenArray| q.part()));
        lemma_varlen_len(arrs, ps);
    }
    Array::Utf8(p)
}

#[verifier::rlimit(40)]
fn concat_as_largeutf8(arrays: &[&Array]) -> (r: Array)
    requires
        arrays@.len() > 0,
        arrays@[0] is LargeUtf8,
        same_types(derefs(arrays@)),
        forall|i: int| 0 <= i < arrays@.len() ==> (#[trigger] arrays@[i]).wf(),
    ensures
        concat_spec(derefs(arrays@), r, 0),
{
    let ghost arrs = derefs(arrays@);
    assert forall|i: int| 0 <= i < arrays@.len() implies (#[trigger] arrays@[i]) is LargeUtf8 by {
        assert(arrs[i].spec_datatype() == arrs[0].spec_datatype());
    }
    let parts = collect_largeutf8(arrays);
    let p = concat_varlen(parts.as_slice());
    proof {
        let ps = arrs.map_values(|a: Array| a->LargeUtf8_0);
        assert(parts@.map_values(|a: &VarlenArray| *a) =~= ps);
        assert(parts_of(arrs) =~= ps.map_values(|q: VarlenArray| q.part()));
        lemma_varlen_len(arrs, ps);
    }
    Array::LargeUtf8(p)
}

#[verifier::rlimit(40)]
fn concat_as_binary(arrays: &[&Array]) -> (r: Array)
    requires
        arrays@.len() > 0,
        arrays@[0] is Binary,
        same_types(derefs(arrays@)),
        forall|i: int| 0 <= i < arrays@.len() ==> (#[trigger] arrays@[i]).wf(),
    ensures
        concat_spec(derefs(arrays@), r, 0),
{
    let ghost arrs = derefs(arrays@);
    assert forall|i: int| 0 <= i < arrays@.len() implies (#[trigger] arrays@[i]) is Binary by {
        assert(arrs[i].spec_datatype() == arrs[0].spec_datatype());
    }
    let parts = collect_binary(arrays);
    let p = concat_varlen(parts.as_slice());
    proof {
        let ps = arrs.map_values(|a: Array| a->Binary_0);
        assert(parts@.map_values(|a: &VarlenArray| *a) =~= ps);
        assert(parts_of(arrs) =~= ps.map_values(|q: VarlenArray| q.part()));
        lemma_varlen_len(arrs, ps);
    }
    Array::Binary(p)
}

#[verifier::rlimit(40)]
fn concat_as_largebinary(arrays: &[&Array]) -> (r: Array)
    requires
        arrays@.len() > 0,
        arrays@[0] is LargeBinary,
        same_types(derefs(arrays@)),
        forall|i: int| 0 <= i < arrays@.len() ==> (#[trigger] arrays@[i]).wf(),
    ensures
        concat_spec(derefs(arrays@), r, 0),
{
    let ghost arrs = derefs(arrays@);
    assert forall|i: int| 0 <= i < arrays@.len() implies (#[trigger] arrays@[i]) is LargeBinary by {
        assert(arrs[i].spec_datatype() == arrs[0].spec_datatype());
    }
    let parts = collect_largebinary(arrays);
    let p = concat_varlen(parts.as_slice());
    proof {
        let ps = arrs.map_values(|a: Array| a->LargeBinary_0);
        assert(parts@.map_values(|a: &VarlenArray| *a) =~= ps);
        assert(parts_of(arrs) =~= ps.map_values(|q: VarlenArray| q.part()));
        lemma_varlen_len(arrs, ps);
    }
    Array::LargeBinary(p)
}

/// Concatenates arrays of one type into a single array.
///
/// Fails with `InvalidArgument` on an empty list, with `TypeMismatch` when
/// the types differ, with `NotImplemented` for struct arrays, and with
/// `InvalidArgument` when the row count of a null result would not fit in
/// `usize`.
#[verifier::rlimit(60)]
pub fn concat(arrays: &[&Array]) -> (r: Result<Array>)
    requires
        forall|i: int| 0 <= i < arrays@.len() ==> (#[trigger] arrays@[i]).wf(),
    ensures
        r is Ok <==> concat_ok(derefs(arrays@)),
        r matches Ok(a) ==> concat_spec(
            derefs(arrays@),
            a,
            dt_depth(derefs(arrays@)[0].spec_datatype()),
        ),
        r matches Err(e) ==> e.kind == concat_error_kind(derefs(arrays@)),
        r matches Err(e) ==> (e.kind == ErrorKind::TypeMismatch ==> exists|i: int|
            0 < i < arrays@.len() && (#[trigger] arrays@[i]).spec_datatype()
                != arrays@[0].spec_datatype() && e.msg@ == mismatch_message(
                arrays@[0].spec_datatype(),
                arrays@[i].spec_datatype(),
            )),
    decreases 2 * dt_depth(derefs(arrays@)[0].spec_datatype()) + 2,
{
    let ghost arrs = derefs(arrays@);
    if arrays.len() == 0 {
        return Err(RayexecError::with_kind(ErrorKind::InvalidArgument, "Cannot concat zero arrays"));
    }
    let dt = arrays[0].datatype();
    if let DataType::Struct(_) = dt {
        return Err(
            RayexecError::with_kind(ErrorKind::NotImplemented, "Not yet implemented: struct concat"),
        );
    }
    let mut i: usize = 1;
    while i < arrays.len()
        invariant
            1 <= i <= arrays@.len(),
            arrs == derefs(arrays@),
            dt == arrs[0].spec_datatype(),
            forall|k: int| 0 <= k < i ==> (#[trigger] arrs[k]).spec_datatype() == dt,
            !(dt is Struct),
        decreases arrays@.len() - i,
    {
        let d = arrays[i].datatype();
        if !d.equals(&dt) {
            proof {
                assert(arrs[i as int] == *arrays@[i as int]);
                assert(!same_types(arrs)) by {
                    assert(arrs[i as int].spec_datatype() != arrs[0].spec_datatype());
                }
            }
            let mut msg = String::from_str("Cannot concat arrays of differing types: expected ");
            msg.append(dt.name());
            msg.append(", got ");
            msg.append(d.name());
            proof {
                assert(msg@ =~= mismatch_message(dt, d));
                assert(arrays@[i as int] == arrs[i as int]);
            }
            return Err(RayexecError::with_kind(ErrorKind::TypeMismatch, msg.as_str()));
        }
        i = i + 1;
    }
    assert(same_types(arrs));
    match dt {
        DataType::Null => {
            assert(arrs[0].spec_datatype() == DataType::Null);
            let mut total: usize = 0;
            let mut i: usize = 0;
            while i < arrays.len()
                invariant
                    i <= arrays@.len(),
                    arrs == derefs(arrays@),
                    forall|k: int| 0 <= k < arrays@.len() ==> (#[trigger] arrays@[k]).wf(),
                    total == sum_lens(arrs.subrange(0, i as int)),
                    arrs[0].spec_datatype() == DataType::Null,
                    same_types(arrs),
                    arrs.len() > 0,
                decreases arrays@.len() - i,
            {
                let n = arrays[i].len();
                proof {
                    lemma_sum_lens_prefix(arrs, i as int);
                    lemma_sum_lens_le(arrs, i + 1);
                }
                if n > usize::MAX - total {
                    proof {
                        assert(arrs[0].spec_datatype() == DataType::Null);
                        assert(arrs[0] is Null);
                        assert(arrs[i as int] == *arrays@[i as int]);
                    }
                    return Err(
                        RayexecError::with_kind(
                            ErrorKind::InvalidArgument,
                            "Concatenated length does not fit in usize",
                        ),
                    );
                }
                total = total + n;
                i = i + 1;
            }
            proof {
                lemma_full(arrs);
                assert(arrs[0].spec_datatype() == DataType::Null);
                assert(arrs[0] is Null);
            }
            Ok(Array::Null(NullArray::new(total)))
        },
        DataType::Boolean => {
            proof {
                assert(arrs[0].spec_datatype() == dt);
            }
            Ok(concat_as_boolean(arrays))
        },
        DataType::Int8 => {
            proof {
                assert(arrs[0].spec_datatype() == dt);
            }
            Ok(concat_as_int8(arrays))
        },
        DataType::Int16 => {
            proof {
                assert(arrs[0].spec_datatype() == dt);
            }
            Ok(concat_as_int16(arrays))
        },
        DataType::Int32 => {
            proof {
                assert(arrs[0].spec_datatype() == dt);
            }
            Ok(concat_as_int32(arrays))
        },
        DataType::Int64 => {
            proof {
                assert(arrs[0].spec_datatype() == dt);
            }
            Ok(concat_as_int64(arrays))
        },
        DataType::Int128 => {
            proof {
                assert(arrs[0].spec_datatype() == dt);
            }
            Ok(concat_as_int128(arrays))
        },
        DataType::UInt8 => {
            proof {
                assert(arrs[0].spec_datatype() == dt);
            }
            Ok(concat_as_uint8(arrays))
        },
        DataType::UInt16 => {
            proof {
                assert(arrs[0].spec_datatype() == dt);
            }
            Ok(concat_as_uint16(arrays))
        },
        DataType::UInt32 => {
            proof {
                assert(arrs[0].spec_datatype() == dt);
            }
            Ok(concat_as_uint32(arrays))
        },
        DataType::UInt64 => {
            proof {
                assert(arrs[0].spec_datatype() == dt);
            }
            Ok(concat_as_uint64(arrays))
        },
        DataType::UInt128 => {
            proof {
                assert(arrs[0].spec_datatype() == dt);
            }
            Ok(concat_as_uint128(arrays))
        },
        DataType::Float32 => {
            proof {
                assert(arrs[0].spec_datatype() == dt);
            }
            Ok(concat_as_float32(arrays))
        },
        DataType::Float64 => {
            proof {
                assert(arrs[0].spec_datatype() == dt);
            }
            Ok(concat_as_float64(arrays))
        },
        DataType::Date32 => {
            proof {
                assert(arrs[0].spec_datatype() == dt);
            }
            Ok(concat_as_date32(arrays))
        },
        DataType::Date64 => {
            proof {
                assert(arrs[0].spec_datatype() == dt);
            }
            Ok(concat_as_date64(arrays))
        },
        DataType::Interval => {
            proof {
                assert(arrs[0].spec_datatype() == dt);
            }
            Ok(concat_as_interval(arrays))
        },
        DataType::Decimal64(_) => {
            proof {
                assert(arrs[0].spec_datatype() == dt);
            }
            Ok(concat_as_decimal64(arrays))
        },
        DataType::Decimal128(_) => {
            proof {
                assert(arrs[0].spec_datatype() == dt);
            }
            Ok(concat_as_decimal128(arrays))
        },
        DataType::Timestamp(_) => {
            proof {
                assert(arrs[0].spec_datatype() == dt);
            }
            Ok(concat_as_timestamp(arrays))
        },
        DataType::Utf8 => {
            proof {
                assert(arrs[0].spec_datatype() == dt);
            }
            Ok(concat_as_utf8(arrays))
        },
        DataType::LargeUtf8 => {
            proof {
                assert(arrs[0].spec_datatype() == dt);
            }
            Ok(concat_as_largeutf8(arrays))
        },
        DataType::Binary => {
            proof {
                assert(arrs[0].spec_datatype() == dt);
            }
            Ok(concat_as_binary(arrays))
        },
        DataType::LargeBinary => {
            proof {
                assert(arrs[0].spec_datatype() == dt);
            }
            Ok(concat_as_largebinary(arrays))
        },
        DataType::Struct(_) => Err(
            RayexecError::with_kind(ErrorKind::NotImplemented, "Not yet implemented: struct concat"),
        ),
        DataType::List(_) => {
            assert forall|i: int| 0 <= i < arrays@.len() implies (#[trigger] arrays@[i]) is List by {
                assert(arrs[i].spec_datatype() == arrs[0].spec_datatype());
            }
            let parts = collect_list(arrays);
            proof {
                assert(lists_of(parts@) =~= arrs);
            }
            let l = concat_list(parts.as_slice())?;
            Ok(Array::List(l))
        },
    }
}

/// Column `c` of every batch, in order.
pub open spec fn column_of(batches: Seq<Batch>, c: int) -> Seq<Array> {
    batches.map_values(|b: Batch| b.spec_columns()[c])
}

/// Whether every batch has as many columns as the first.
pub open spec fn same_width(batches: Seq<Batch>) -> bool {
    forall|i: int|
        0 <= i < batches.len() ==> (#[trigger] batches[i]).spec_columns().len()
            == batches[0].spec_columns().len()
}

/// Whether column `c` of the batches can be concatenated.
pub open spec fn column_ok(batches: Seq<Batch>, c: int) -> bool {
    concat_ok(column_of(batches, c))
}

/// The inputs on which batch concatenation succeeds.
pub open spec fn concat_batches_ok(batches: Seq<Batch>) -> bool {
    batches.len() == 0 || (same_width(batches) && forall|c: int|
        0 <= c < batches[0].spec_columns().len() ==> #[trigger] column_ok(batches, c))
}

/// Total row count of a sequence of batches.
pub open spec fn sum_rows(batches: Seq<Batch>) -> nat
    decreases batches.len(),
{
    if batches.len() == 0 {
        0
    } else {
        sum_rows(batches.drop_last()) + batches.last().spec_num_rows()
    }
}

proof fn lemma_sum_rows(batches: Seq<Batch>, c: int)
    requires
        forall|i: int| 0 <= i < batches.len() ==> (#[trigger] batches[i]).wf(),
        0 <= c,
        forall|i: int| 0 <= i < batches.len() ==> c < (#[trigger] batches[i]).spec_columns().len(),
    ensures
        sum_lens(column_of(batches, c)) == sum_rows(batches),
    decreases batches.len(),
{
    if batches.len() > 0 {
        let b2 = batches.drop_last();
        assert forall|i: int| 0 <= i < b2.len() implies (#[trigger] b2[i]).wf() by {
            assert(b2[i] == batches[i]);
        }
        assert forall|i: int| 0 <= i < b2.len() implies c < (#[trigger] b2[i]).spec_columns().len() by {
            assert(b2[i] == batches[i]);
        }
        lemma_sum_rows(b2, c);
        assert(column_of(batches, c).drop_last() =~= column_of(b2, c));
        let last = batches[batches.len() - 1];
        assert(last.wf());
        assert(last.spec_columns()[c].spec_len() == last.spec_num_rows());
    }
}

/// Concatenates batches column by column.
///
/// An empty list gives the empty batch. Fails with `SchemaMismatch` when the
/// batches differ in width, and otherwise with the error of the first column
/// that cannot be concatenated.
pub fn concat_batches(batches: &[Batch]) -> (r: Result<Batch>)
    requires
        forall|i: int| 0 <= i < batches@.len() ==> (#[trigger] batches@[i]).wf(),
    ensures
        r is Ok <==> concat_batches_ok(batches@),
        r matches Ok(b) ==> b.wf() && (batches@.len() == 0 ==> b.spec_columns().len() == 0
            && b.spec_num_rows() == 0) && (b.spec_columns().len() == 0 ==> b.spec_num_rows() == 0)
            && (batches@.len() > 0 ==> {
            &&& b.spec_columns().len() == batches@[0].spec_columns().len()
            &&& forall|c: int|
                0 <= c < b.spec_columns().len() ==> concat_spec(
                    column_of(batches@, c),
                    #[trigger] b.spec_columns()[c],
                    dt_depth(column_of(batches@, c)[0].spec_datatype()),
                )
            &&& b.spec_columns().len() > 0 ==> b.spec_num_rows() == sum_rows(batches@)
        }),
        r matches Err(e) ==> if !same_width(batches@) {
            e.kind == ErrorKind::SchemaMismatch
        } else {
            exists|c: int|
                0 <= c < batches@[0].spec_columns().len() && !column_ok(batches@, c) && (forall|
                    c2: int,
                | 0 <= c2 < c ==> #[trigger] column_ok(batches@, c2)) && e.kind
                    == concat_error_kind(column_of(batches@, c))
        },
{
    if batches.len() == 0 {
        return Ok(Batch::empty());
    }
    let num_cols = batches[0].num_columns();
    let mut i: usize = 1;
    while i < batches.len()
        invariant
            1 <= i <= batches@.len(),
            num_cols == batches@[0].spec_columns().len(),
            forall|k: int| 0 <= k < i ==> (#[trigger] batches@[k]).spec_columns().len() == num_cols,
        decreases batches@.len() - i,
    {
        if batches[i].num_columns() != num_cols {
            return Err(
                RayexecError::with_kind(ErrorKind::SchemaMismatch, "Batches differ in column count"),
            );
        }
        i = i + 1;
    }
    assert(same_width(batches@));
    let mut concatted: Vec<Array> = Vec::new();
    let mut c: usize = 0;
    while c < num_cols
        invariant
            c <= num_cols,
            num_cols == batches@[0].spec_columns().len(),
            batches@.len() > 0,
            same_width(batches@),
            forall|k: int| 0 <= k < batches@.len() ==> (#[trigger] batches@[k]).wf(),
            concatted@.len() == c,
            forall|c2: int| 0 <= c2 < c ==> #[trigger] column_ok(batches@, c2),
            forall|c2: int|
                0 <= c2 < c ==> concat_spec(
                    column_of(batches@, c2),
                    #[trigger] concatted@[c2],
                    dt_depth(column_of(batches@, c2)[0].spec_datatype()),
                ),
        decreases num_cols - c,
    {
        let mut cols: Vec<&Array> = Vec::new();
        let mut k: usize = 0;
        while k < batches.len()
            invariant
                k <= batches@.len(),
                c < num_cols,
                num_cols == batches@[0].spec_columns().len(),
                same_width(batches@),
                forall|j: int| 0 <= j < batches@.len() ==> (#[trigger] batches@[j]).wf(),
                cols@.len() == k,
                forall|j: int| 0 <= j < k ==> *(#[trigger] cols@[j]) == batches@[j].spec_columns()[c as int],
                forall|j: int| 0 <= j < k ==> (#[trigger] cols@[j]).wf(),
            decreases batches@.len() - k,
        {
            assert(batches@[k as int].spec_columns().len() == num_cols);
            match batches[k].column(c) {
                Some(col) => cols.push(col),
                None => {
                    return Err(RayexecError::new("Missing column"));
                },
            }
            k = k + 1;
        }
        proof {
            assert(derefs(cols@) =~= column_of(batches@, c as int));
        }
        let arr = match concat(cols.as_slice()) {
            Ok(a) => a,
            Err(e) => {
                proof {
                    assert(!column_ok(batches@, c as int));
                    assert(!concat_batches_ok(batches@));
                }
                return Err(e);
            },
        };
        concatted.push(arr);
        c = c + 1;
    }
    proof {
        assert forall|j: int| 0 <= j < concatted@.len() implies (#[trigger] concatted@[j]).wf() by {}
        if num_cols > 0 {
            assert forall|i: int| 0 <= i < batches@.len() implies 0 < (
            #[trigger] batches@[i]).spec_columns().len() by {}
            lemma_sum_rows(batches@, 0);
            assert forall|j: int| 0 <= j < concatted@.len() implies (
            #[trigger] concatted@[j]).spec_len() == concatted@[0].spec_len() by {
                assert forall|i: int| 0 <= i < batches@.len() implies j < (
                #[trigger] batches@[i]).spec_columns().len() by {}
                lemma_sum_rows(batches@, j);
            }
        }
    }
    Batch::try_new(concatted)
}

} // verus!
