use vstd::prelude::*;

use crate::array::{Array, IntervalValue, PrimitiveArray, VarlenArray, offsets_wf};
use crate::concat::{
    concat_spec, dt_depth, ints, list_children, parts_of, shift, shifted_offsets, sum_lens,
    values_concat,
};
use crate::validity::{any_mask, concat_validity_spec, expand_validity, expanded_blocks};

verus! {

/// Whether two arrays hold the same rows: the same type, length, validity
/// and values, and for lists the same offsets and children.
pub open spec fn same_content(a: Array, b: Array, depth: nat) -> bool
    decreases depth, 1nat,
{
    &&& a.spec_datatype() == b.spec_datatype()
    &&& a.spec_len() == b.spec_len()
    &&& a.spec_validity() == b.spec_validity()
    &&& same_values(a, b, depth)
}

/// Whether two arrays hold the same values, and for lists the same offsets
/// and the same rows in their children.
pub open spec fn same_values(a: Array, b: Array, depth: nat) -> bool
    decreases depth, 0nat,
{
    match a {
        Array::Null(_) => b is Null,
        Array::Boolean(x) => b matches Array::Boolean(y) && x.values@ == y.values@,
        Array::Int8(x) => b matches Array::Int8(y) && x.values@ == y.values@,
        Array::Int16(x) => b matches Array::Int16(y) && x.values@ == y.values@,
        Array::Int32(x) => b matches Array::Int32(y) && x.values@ == y.values@,
        Array::Int64(x) => b matches Array::Int64(y) && x.values@ == y.values@,
        Array::Int128(x) => b matches Array::Int128(y) && x.values@ == y.values@,
        Array::UInt8(x) => b matches Array::UInt8(y) && x.values@ == y.values@,
        Array::UInt16(x) => b matches Array::UInt16(y) && x.values@ == y.values@,
        Array::UInt32(x) => b matches Array::UInt32(y) && x.values@ == y.values@,
        Array::UInt64(x) => b matches Array::UInt64(y) && x.values@ == y.values@,
        Array::UInt128(x) => b matches Array::UInt128(y) && x.values@ == y.values@,
        Array::Float32(x) => b matches Array::Float32(y) && x.values@ == y.values@,
        Array::Float64(x) => b matches Array::Float64(y) && x.values@ == y.values@,
        Array::Date32(x) => b matches Array::Date32(y) && x.values@ == y.values@,
        Array::Date64(x) => b matches Array::Date64(y) && x.values@ == y.values@,
        Array::Interval(x) => b matches Array::Interval(y) && x.values@ == y.values@,
        Array::Decimal64(x) => b matches Array::Decimal64(y) && x.array.values@ == y.array.values@,
        Array::Decimal128(x) => b matches Array::Decimal128(y) && x.array.values@ == y.array.values@,
        Array::Timestamp(x) => b matches Array::Timestamp(y) && x.array.values@ == y.array.values@,
        Array::Utf8(x) => b matches Array::Utf8(y) && x.offsets@ == y.offsets@ && x.data@ == y.data@,
        Array::LargeUtf8(x) => b matches Array::LargeUtf8(y) && x.offsets@ == y.offsets@ && x.data@ == y.data@,
        Array::Binary(x) => b matches Array::Binary(y) && x.offsets@ == y.offsets@ && x.data@ == y.data@,
        Array::LargeBinary(x) => b matches Array::LargeBinary(y) && x.offsets@ == y.offsets@ && x.data@ == y.data@,
        Array::Struct(_) => false,
        Array::List(x) => b matches Array::List(y) && x.offsets@ == y.offsets@ && depth > 0
            && same_content(*x.child, *y.child, (depth - 1) as nat),
    }
}

proof fn lemma_flatten_one<T>(s: Seq<Seq<T>>)
    requires
        s.len() == 1,
    ensures
        s.flatten() == s[0],
{
    s.lemma_flatten_one_element();
}

/// The validity of a concatenation of one part is that part's mask.
pub proof fn lemma_validity_single(p: (nat, Option<Seq<bool>>))
    requires
        p.1 matches Some(m) ==> m.len() == p.0,
    ensures
        concat_validity_spec(seq![p]) == p.1,
{
    let parts = seq![p];
    let f = |q: (nat, Option<Seq<bool>>)| expand_validity(q.0, q.1);
    assert(parts.map_values(f) =~= seq![f(p)]);
    lemma_flatten_one(parts.map_values(f));
    if p.1 is Some {
        assert(parts[0] == p);
        assert(any_mask(parts));
    } else {
        assert(!any_mask(parts));
    }
}

/// The offsets of a concatenation of one part are that part's offsets.
pub proof fn lemma_offsets_single(o: Seq<usize>)
    requires
        o.len() >= 1,
        o[0] == 0,
    ensures
        shifted_offsets(seq![o]) == ints(o),
{
    let offs = seq![o];
    assert(offs.drop_last() =~= Seq::<Seq<usize>>::empty());
    assert(shifted_offsets(offs.drop_last()) == seq![0int]);
    assert(shifted_offsets(offs) =~= ints(o));
}

/// Concatenating a single array gives an array with the same rows.
pub proof fn lemma_concat_single(a: Array, r: Array, depth: nat)
    requires
        a.wf(),
        concat_spec(seq![a], r, depth),
    ensures
        same_content(r, a, depth),
    decreases depth,
{
    let s = seq![a];
    assert(s.drop_last() =~= Seq::<Array>::empty());
    assert(sum_lens(s.drop_last()) == 0);
    assert(sum_lens(s) == a.spec_len());
    assert(parts_of(s) =~= seq![(a.spec_len(), a.spec_validity())]);
    lemma_validity_single((a.spec_len(), a.spec_validity()));
    match a {
        Array::Boolean(x) => {
            lemma_flatten_one(s.map_values(|b: Array| b->Boolean_0.values@));
        },
        Array::Int8(x) => {
            let ps = s.map_values(|b: Array| b->Int8_0);
            lemma_flatten_one(ps.map_values(|p: PrimitiveArray<i8>| p.values@));
        },
        Array::Int16(x) => {
            let ps = s.map_values(|b: Array| b->Int16_0);
            lemma_flatten_one(ps.map_values(|p: PrimitiveArray<i16>| p.values@));
        },
        Array::Int32(x) => {
            let ps = s.map_values(|b: Array| b->Int32_0);
            lemma_flatten_one(ps.map_values(|p: PrimitiveArray<i32>| p.values@));
        },
        Array::Int64(x) => {
            let ps = s.map_values(|b: Array| b->Int64_0);
            lemma_flatten_one(ps.map_values(|p: PrimitiveArray<i64>| p.values@));
        },
        Array::Int128(x) => {
            let ps = s.map_values(|b: Array| b->Int128_0);
            lemma_flatten_one(ps.map_values(|p: PrimitiveArray<i128>| p.values@));
        },
        Array::UInt8(x) => {
            let ps = s.map_values(|b: Array| b->UInt8_0);
            lemma_flatten_one(ps.map_values(|p: PrimitiveArray<u8>| p.values@));
        },
        Array::UInt16(x) => {
            let ps = s.map_values(|b: Array| b->UInt16_0);
            lemma_flatten_one(ps.map_values(|p: PrimitiveArray<u16>| p.values@));
        },
        Array::UInt32(x) => {
            let ps = s.map_values(|b: Array| b->UInt32_0);
            lemma_flatten_one(ps.map_values(|p: PrimitiveArray<u32>| p.values@));
        },
        Array::UInt64(x) => {
            let ps = s.map_values(|b: Array| b->UInt64_0);
            lemma_flatten_one(ps.map_values(|p: PrimitiveArray<u64>| p.values@));
        },
        Array::UInt128(x) => {
            let ps = s.map_values(|b: Array| b->UInt128_0);
            lemma_flatten_one(ps.map_values(|p: PrimitiveArray<u128>| p.values@));
        },
        Array::Float32(x) => {
            let ps = s.map_values(|b: Array| b->Float32_0);
            lemma_flatten_one(ps.map_values(|p: PrimitiveArray<u32>| p.values@));
        },
        Array::Float64(x) => {
            let ps = s.map_values(|b: Array| b->Float64_0);
            lemma_flatten_one(ps.map_values(|p: PrimitiveArray<u64>| p.values@));
        },
        Array::Date32(x) => {
            let ps = s.map_values(|b: Array| b->Date32_0);
            lemma_flatten_one(ps.map_values(|p: PrimitiveArray<i32>| p.values@));
        },
        Array::Date64(x) => {
            let ps = s.map_values(|b: Array| b->Date64_0);
            lemma_flatten_one(ps.map_values(|p: PrimitiveArray<i64>| p.values@));
        },
        Array::Interval(x) => {
            let ps = s.map_values(|b: Array| b->Interval_0);
            lemma_flatten_one(ps.map_values(|p: PrimitiveArray<IntervalValue>| p.values@));
        },
        Array::Decimal64(x) => {
            let ps = s.map_values(|b: Array| b->Decimal64_0.array);
            lemma_flatten_one(ps.map_values(|p: PrimitiveArray<i64>| p.values@));
        },
        Array::Decimal128(x) => {
            let ps = s.map_values(|b: Array| b->Decimal128_0.array);
            lemma_flatten_one(ps.map_values(|p: PrimitiveArray<i128>| p.values@));
        },
        Array::Timestamp(x) => {
            let ps = s.map_values(|b: Array| b->Timestamp_0.array);
            lemma_flatten_one(ps.map_values(|p: PrimitiveArray<i64>| p.values@));
        },
        Array::Utf8(x) => {
            let ps = s.map_values(|b: Array| b->Utf8_0);
            lemma_flatten_one(ps.map_values(|p: VarlenArray| p.data@));
            assert(ps.map_values(|p: VarlenArray| p.offsets@) =~= seq![x.offsets@]);
            lemma_offsets_single(x.offsets@);
            assert(r->Utf8_0.offsets@ =~= x.offsets@) by {
                assert(ints(r->Utf8_0.offsets@) == ints(x.offsets@));
                assert forall|i: int| 0 <= i < x.offsets@.len() implies r->Utf8_0.offsets@[i] == x.offsets@[i] by {
                    assert(ints(r->Utf8_0.offsets@)[i] == ints(x.offsets@)[i]);
                }
            }
        },
        Array::LargeUtf8(x) => {
            let ps = s.map_values(|b: Array| b->LargeUtf8_0);
            lemma_flatten_one(ps.map_values(|p: VarlenArray| p.data@));
            assert(ps.map_values(|p: VarlenArray| p.offsets@) =~= seq![x.offsets@]);
            lemma_offsets_single(x.offsets@);
            assert(r->LargeUtf8_0.offsets@ =~= x.offsets@) by {
                assert(ints(r->LargeUtf8_0.offsets@) == ints(x.offsets@));
                assert forall|i: int| 0 <= i < x.offsets@.len() implies r->LargeUtf8_0.offsets@[i] == x.offsets@[i] by {
                    assert(ints(r->LargeUtf8_0.offsets@)[i] == ints(x.offsets@)[i]);
                }
            }
        },
        Array::Binary(x) => {
            let ps = s.map_values(|b: Array| b->Binary_0);
            lemma_flatten_one(ps.map_values(|p: VarlenArray| p.data@));
            assert(ps.map_values(|p: VarlenArray| p.offsets@) =~= seq![x.offsets@]);
            lemma_offsets_single(x.offsets@);
            assert(r->Binary_0.offsets@ =~= x.offsets@) by {
                assert(ints(r->Binary_0.offsets@) == ints(x.offsets@));
                assert forall|i: int| 0 <= i < x.offsets@.len() implies r->Binary_0.offsets@[i] == x.offsets@[i] by {
                    assert(ints(r->Binary_0.offsets@)[i] == ints(x.offsets@)[i]);
                }
            }
        },
        Array::LargeBinary(x) => {
            let ps = s.map_values(|b: Array| b->LargeBinary_0);
            lemma_flatten_one(ps.map_values(|p: VarlenArray| p.data@));
            assert(ps.map_values(|p: VarlenArray| p.offsets@) =~= seq![x.offsets@]);
            lemma_offsets_single(x.offsets@);
            assert(r->LargeBinary_0.offsets@ =~= x.offsets@) by {
                assert(ints(r->LargeBinary_0.offsets@) == ints(x.offsets@));
                assert forall|i: int| 0 <= i < x.offsets@.len() implies r->LargeBinary_0.offsets@[i] == x.offsets@[i] by {
                    assert(ints(r->LargeBinary_0.offsets@)[i] == ints(x.offsets@)[i]);
                }
            }
        },
        Array::List(x) => {
            assert(s.map_values(|b: Array| b->List_0.offsets@) =~= seq![x.offsets@]);
            lemma_offsets_single(x.offsets@);
            let l = r->List_0;
            assert(l.offsets@ =~= x.offsets@) by {
                assert(ints(l.offsets@) == ints(x.offsets@));
                assert forall|i: int| 0 <= i < x.offsets@.len() implies l.offsets@[i] == x.offsets@[i] by {
                    assert(ints(l.offsets@)[i] == ints(x.offsets@)[i]);
                }
            }
            assert(list_children(s) =~= seq![*x.child]);
            lemma_concat_single(*x.child, *l.child, (depth - 1) as nat);
        },
        _ => {},
    }
}

proof fn lemma_flatten_two<T>(x: Seq<T>, y: Seq<T>)
    ensures
        seq![x, y].flatten() == x + y,
{
    let s = seq![x, y];
    assert(s.drop_first() =~= seq![y]);
    lemma_flatten_one(seq![y]);
    assert(s.flatten() == x + seq![y].flatten());
}

proof fn lemma_flatten_three<T>(x: Seq<T>, y: Seq<T>, z: Seq<T>)
    ensures
        seq![x, y, z].flatten() == x + y + z,
{
    let s = seq![x, y, z];
    assert(s.drop_first() =~= seq![y, z]);
    lemma_flatten_two(y, z);
    assert(s.flatten() == x + seq![y, z].flatten());
    assert(x + (y + z) =~= x + y + z);
}

/// A mask of a part: present masks cover the part's rows.
pub open spec fn part_ok(p: (nat, Option<Seq<bool>>)) -> bool {
    p.1 matches Some(m) ==> m.len() == p.0
}

proof fn lemma_blocks_two(p: (nat, Option<Seq<bool>>), q: (nat, Option<Seq<bool>>))
    ensures
        expanded_blocks(seq![p, q]) == expand_validity(p.0, p.1) + expand_validity(q.0, q.1),
        any_mask(seq![p, q]) == (p.1 is Some || q.1 is Some),
{
    let f = |r: (nat, Option<Seq<bool>>)| expand_validity(r.0, r.1);
    assert(seq![p, q].map_values(f) =~= seq![f(p), f(q)]);
    lemma_flatten_two(f(p), f(q));
    if p.1 is Some {
        assert(seq![p, q][0] == p);
    }
    if q.1 is Some {
        assert(seq![p, q][1] == q);
    }
}

proof fn lemma_blocks_three(p: (nat, Option<Seq<bool>>), q: (nat, Option<Seq<bool>>), r: (nat, Option<Seq<bool>>))
    ensures
        expanded_blocks(seq![p, q, r]) == expand_validity(p.0, p.1) + expand_validity(q.0, q.1)
            + expand_validity(r.0, r.1),
        any_mask(seq![p, q, r]) == (p.1 is Some || q.1 is Some || r.1 is Some),
{
    let f = |x: (nat, Option<Seq<bool>>)| expand_validity(x.0, x.1);
    assert(seq![p, q, r].map_values(f) =~= seq![f(p), f(q), f(r)]);
    lemma_flatten_three(f(p), f(q), f(r));
    if p.1 is Some {
        assert(seq![p, q, r][0] == p);
    }
    if q.1 is Some {
        assert(seq![p, q, r][1] == q);
    }
    if r.1 is Some {
        assert(seq![p, q, r][2] == r);
    }
}

/// The validity of a concatenation does not depend on how the parts are
/// grouped.
pub proof fn lemma_validity_assoc(p: (nat, Option<Seq<bool>>), q: (nat, Option<Seq<bool>>), r: (nat, Option<Seq<bool>>))
    requires
        part_ok(p),
        part_ok(q),
        part_ok(r),
    ensures
        concat_validity_spec(seq![p, (q.0 + r.0, concat_validity_spec(seq![q, r]))])
            == concat_validity_spec(seq![p, q, r]),
        concat_validity_spec(seq![(p.0 + q.0, concat_validity_spec(seq![p, q])), r])
            == concat_validity_spec(seq![p, q, r]),
{
    let e = |x: (nat, Option<Seq<bool>>)| expand_validity(x.0, x.1);
    lemma_blocks_two(q, r);
    lemma_blocks_two(p, q);
    lemma_blocks_three(p, q, r);
    let qr = (q.0 + r.0, concat_validity_spec(seq![q, r]));
    let pq = (p.0 + q.0, concat_validity_spec(seq![p, q]));
    lemma_blocks_two(p, qr);
    lemma_blocks_two(pq, r);
    assert(e(qr) =~= e(q) + e(r));
    assert(e(pq) =~= e(p) + e(q));
    assert(e(p) + (e(q) + e(r)) =~= e(p) + e(q) + e(r));
}

/// The last offset of a concatenation of two offset lists is the sum of
/// their last offsets.
proof fn lemma_shifted_one(o: Seq<usize>)
    requires
        o.len() >= 1,
        o[0] == 0,
    ensures
        shifted_offsets(seq![o]) == ints(o),
        shifted_offsets(seq![o]).last() == o.last() as int,
{
    lemma_offsets_single(o);
}

proof fn lemma_shifted_two(x: Seq<usize>, y: Seq<usize>)
    requires
        x.len() >= 1,
        x[0] == 0,
        y.len() >= 1,
        y[0] == 0,
    ensures
        shifted_offsets(seq![x, y]) == ints(x) + shift(y.drop_first(), x.last() as int),
        shifted_offsets(seq![x, y]).last() == x.last() + y.last(),
{
    lemma_shifted_one(x);
    assert(seq![x, y].drop_last() =~= seq![x]);
    assert(seq![x, y].last() == y);
    let s = ints(x) + shift(y.drop_first(), x.last() as int);
    if y.len() > 1 {
        assert(s.last() == y.last() + x.last());
    } else {
        assert(shift(y.drop_first(), x.last() as int) =~= Seq::<int>::empty());
        assert(s =~= ints(x));
    }
}

proof fn lemma_shifted_three(x: Seq<usize>, y: Seq<usize>, z: Seq<usize>)
    requires
        x.len() >= 1,
        x[0] == 0,
        y.len() >= 1,
        y[0] == 0,
        z.len() >= 1,
        z[0] == 0,
    ensures
        shifted_offsets(seq![x, y, z]) == ints(x) + shift(y.drop_first(), x.last() as int) + shift(
            z.drop_first(),
            x.last() + y.last(),
        ),
{
    lemma_shifted_two(x, y);
    assert(seq![x, y, z].drop_last() =~= seq![x, y]);
    assert(seq![x, y, z].last() == z);
}

/// Offsets of a concatenation do not depend on how the parts are grouped.
pub proof fn lemma_offsets_assoc(x: Seq<usize>, y: Seq<usize>, z: Seq<usize>, yz: Seq<usize>, xy: Seq<usize>)
    requires
        x.len() >= 1,
        x[0] == 0,
        y.len() >= 1,
        y[0] == 0,
        z.len() >= 1,
        z[0] == 0,
        ints(yz) == shifted_offsets(seq![y, z]),
        ints(xy) == shifted_offsets(seq![x, y]),
    ensures
        shifted_offsets(seq![x, yz]) == shifted_offsets(seq![x, y, z]),
        shifted_offsets(seq![xy, z]) == shifted_offsets(seq![x, y, z]),
{
    lemma_shifted_two(y, z);
    lemma_shifted_two(x, y);
    lemma_shifted_three(x, y, z);
    assert(yz.len() == ints(yz).len());
    assert(yz[0] as int == ints(yz)[0]);
    assert(yz.len() >= 1 && yz[0] == 0);
    assert(xy.len() == ints(xy).len());
    assert(xy[0] as int == ints(xy)[0]);
    assert(xy.len() >= 1 && xy[0] == 0);
    lemma_shifted_two(x, yz);
    lemma_shifted_two(xy, z);
    assert(yz.last() as int == ints(yz).last());
    assert(xy.last() as int == ints(xy).last());
    let a = shift(y.drop_first(), x.last() as int);
    let b = shift(z.drop_first(), x.last() + y.last());
    assert(shift(yz.drop_first(), x.last() as int) =~= a + b) by {
        assert forall|i: int| 0 <= i < yz.drop_first().len() implies shift(yz.drop_first(), x.last() as int)[i] == (a + b)[i] by {
            assert(ints(yz)[i + 1] == yz[i + 1] as int);
        }
    }
    assert(ints(xy) =~= ints(x) + a);
    assert(shifted_offsets(seq![x, yz]) =~= shifted_offsets(seq![x, y, z]));
    assert(shifted_offsets(seq![xy, z]) =~= shifted_offsets(seq![x, y, z]));
}

proof fn lemma_ints_injective(x: Seq<usize>, y: Seq<usize>)
    requires
        ints(x) == ints(y),
    ensures
        x == y,
{
    assert(x.len() == ints(x).len());
    assert(y.len() == ints(y).len());
    assert forall|i: int| 0 <= i < x.len() implies x[i] == y[i] by {
        assert(ints(x)[i] == x[i] as int);
        assert(ints(y)[i] == y[i] as int);
    }
    assert(x =~= y);
}

proof fn lemma_wf_part(a: Array)
    requires
        a.wf(),
    ensures
        part_ok((a.spec_len(), a.spec_validity())),
{
}

proof fn lemma_sums(a: Array, b: Array, c: Array)
    ensures
        sum_lens(seq![a, b]) == a.spec_len() + b.spec_len(),
        sum_lens(seq![a, b, c]) == a.spec_len() + b.spec_len() + c.spec_len(),
{
    assert(seq![a, b].drop_last() =~= seq![a]);
    assert(seq![a].drop_last() =~= Seq::<Array>::empty());
    assert(seq![a, b, c].drop_last() =~= seq![a, b]);
    assert(sum_lens(Seq::<Array>::empty()) == 0);
    assert(sum_lens(seq![a]) == a.spec_len());
    assert(seq![a, b].last() == b);
    assert(sum_lens(seq![a, b]) == a.spec_len() + b.spec_len());
    assert(seq![a, b, c].last() == c);
}

/// Concatenation is associative: concatenating `a` with the concatenation of
/// `b` and `c`, or the concatenation of `a` and `b` with `c`, gives the rows
/// of concatenating all three at once.
pub proof fn lemma_concat_associative(
    a: Array,
    b: Array,
    c: Array,
    bc: Array,
    ab: Array,
    r1: Array,
    r2: Array,
    r3: Array,
    depth: nat,
)
    requires
        a.wf(),
        b.wf(),
        c.wf(),
        b.spec_datatype() == a.spec_datatype(),
        c.spec_datatype() == a.spec_datatype(),
        concat_spec(seq![b, c], bc, depth),
        concat_spec(seq![a, b], ab, depth),
        concat_spec(seq![a, bc], r1, depth),
        concat_spec(seq![ab, c], r2, depth),
        concat_spec(seq![a, b, c], r3, depth),
    ensures
        same_content(r1, r3, depth),
        same_content(r2, r3, depth),
    decreases depth, 2nat,
{
    lemma_sums(a, b, c);
    lemma_sums(b, c, a);
    lemma_sums(a, bc, c);
    lemma_sums(ab, c, a);
    let pa = (a.spec_len(), a.spec_validity());
    let pb = (b.spec_len(), b.spec_validity());
    let pc = (c.spec_len(), c.spec_validity());
    lemma_wf_part(a);
    lemma_wf_part(b);
    lemma_wf_part(c);
    assert(parts_of(seq![b, c]) =~= seq![pb, pc]);
    assert(parts_of(seq![a, b]) =~= seq![pa, pb]);
    assert(parts_of(seq![a, bc]) =~= seq![pa, (bc.spec_len(), bc.spec_validity())]);
    assert(parts_of(seq![ab, c]) =~= seq![(ab.spec_len(), ab.spec_validity()), pc]);
    assert(parts_of(seq![a, b, c]) =~= seq![pa, pb, pc]);
    lemma_validity_assoc(pa, pb, pc);
    assert(seq![a, bc][0] == a);
    assert(seq![ab, c][0] == ab);
    assert(seq![a, b, c][0] == a);
    assert(seq![b, c][0] == b);
    assert(seq![a, b][0] == a);
    lemma_values_assoc(a, b, c, bc, ab, r1, r2, r3, depth);
}

proof fn lemma_values_assoc(
    a: Array,
    b: Array,
    c: Array,
    bc: Array,
    ab: Array,
    r1: Array,
    r2: Array,
    r3: Array,
    depth: nat,
)
    requires
        a.wf(),
        b.wf(),
        c.wf(),
        b.spec_datatype() == a.spec_datatype(),
        c.spec_datatype() == a.spec_datatype(),
        concat_spec(seq![b, c], bc, depth),
        concat_spec(seq![a, b], ab, depth),
        concat_spec(seq![a, bc], r1, depth),
        concat_spec(seq![ab, c], r2, depth),
        concat_spec(seq![a, b, c], r3, depth),
    ensures
        same_values(r1, r3, depth),
        same_values(r2, r3, depth),
    decreases depth, 1nat,
{
    assert(seq![a, bc][0] == a);
    assert(seq![ab, c][0] == ab);
    assert(seq![a, b, c][0] == a);
    assert(seq![b, c][0] == b);
    assert(seq![a, b][0] == a);
    match a {
        Array::Boolean(_) => lemma_assoc_boolean(a, b, c, bc, ab, r1, r2, r3, depth),
        Array::Int8(_) => lemma_assoc_int8(a, b, c, bc, ab, r1, r2, r3, depth),
        Array::Int16(_) => lemma_assoc_int16(a, b, c, bc, ab, r1, r2, r3, depth),
        Array::Int32(_) => lemma_assoc_int32(a, b, c, bc, ab, r1, r2, r3, depth),
        Array::Int64(_) => lemma_assoc_int64(a, b, c, bc, ab, r1, r2, r3, depth),
        Array::Int128(_) => lemma_assoc_int128(a, b, c, bc, ab, r1, r2, r3, depth),
        Array::UInt8(_) => lemma_assoc_uint8(a, b, c, bc, ab, r1, r2, r3, depth),
        Array::UInt16(_) => lemma_assoc_uint16(a, b, c, bc, ab, r1, r2, r3, depth),
        Array::UInt32(_) => lemma_assoc_uint32(a, b, c, bc, ab, r1, r2, r3, depth),
        Array::UInt64(_) => lemma_assoc_uint64(a, b, c, bc, ab, r1, r2, r3, depth),
        Array::UInt128(_) => lemma_assoc_uint128(a, b, c, bc, ab, r1, r2, r3, depth),
        Array::Float32(_) => lemma_assoc_float32(a, b, c, bc, ab, r1, r2, r3, depth),
        Array::Float64(_) => lemma_assoc_float64(a, b, c, bc, ab, r1, r2, r3, depth),
        Array::Date32(_) => lemma_assoc_date32(a, b, c, bc, ab, r1, r2, r3, depth),
        Array::Date64(_) => lemma_assoc_date64(a, b, c, bc, ab, r1, r2, r3, depth),
        Array::Interval(_) => lemma_assoc_interval(a, b, c, bc, ab, r1, r2, r3, depth),
        Array::Decimal64(_) => lemma_assoc_decimal64(a, b, c, bc, ab, r1, r2, r3, depth),
        Array::Decimal128(_) => lemma_assoc_decimal128(a, b, c, bc, ab, r1, r2, r3, depth),
        Array::Timestamp(_) => lemma_assoc_timestamp(a, b, c, bc, ab, r1, r2, r3, depth),
        Array::Utf8(_) => lemma_assoc_utf8(a, b, c, bc, ab, r1, r2, r3, depth),
        Array::LargeUtf8(_) => lemma_assoc_largeutf8(a, b, c, bc, ab, r1, r2, r3, depth),
        Array::Binary(_) => lemma_assoc_binary(a, b, c, bc, ab, r1, r2, r3, depth),
        Array::LargeBinary(_) => lemma_assoc_largebinary(a, b, c, bc, ab, r1, r2, r3, depth),
        Array::List(_) => lemma_assoc_list(a, b, c, bc, ab, r1, r2, r3, depth),
        _ => {},
    }
}

#[verifier::rlimit(30)]
proof fn lemma_assoc_boolean(
    a: Array,
    b: Array,
    c: Array,
    bc: Array,
    ab: Array,
    r1: Array,
    r2: Array,
    r3: Array,
    depth: nat,
)
    requires
        a.wf(),
        b.wf(),
        c.wf(),
        b.spec_datatype() == a.spec_datatype(),
        c.spec_datatype() == a.spec_datatype(),
        concat_spec(seq![b, c], bc, depth),
        concat_spec(seq![a, b], ab, depth),
        concat_spec(seq![a, bc], r1, depth),
        concat_spec(seq![ab, c], r2, depth),
        concat_spec(seq![a, b, c], r3, depth),
        a is Boolean,
    ensures
        same_values(r1, r3, depth),
        same_values(r2, r3, depth),
{
    assert(seq![a, bc][0] == a);
    assert(seq![ab, c][0] == ab);
    assert(seq![a, b, c][0] == a);
    assert(seq![b, c][0] == b);
    assert(seq![a, b][0] == a);
    let f = |x: Array| x->Boolean_0.values@;
    assert(seq![b, c].map_values(f) =~= seq![f(b), f(c)]);
    assert(seq![a, b].map_values(f) =~= seq![f(a), f(b)]);
    assert(seq![a, bc].map_values(f) =~= seq![f(a), f(bc)]);
    assert(seq![ab, c].map_values(f) =~= seq![f(ab), f(c)]);
    assert(seq![a, b, c].map_values(f) =~= seq![f(a), f(b), f(c)]);
    lemma_flatten_two(f(b), f(c));
    lemma_flatten_two(f(a), f(b));
    lemma_flatten_two(f(a), f(bc));
    lemma_flatten_two(f(ab), f(c));
    lemma_flatten_three(f(a), f(b), f(c));
    assert(f(a) + (f(b) + f(c)) =~= f(a) + f(b) + f(c));
    assert(f(a) + f(b) + f(c) =~= (f(a) + f(b)) + f(c));
}

#[verifier::rlimit(30)]
proof fn lemma_assoc_int8(
    a: Array,
    b: Array,
    c: Array,
    bc: Array,
    ab: Array,
    r1: Array,
    r2: Array,
    r3: Array,
    depth: nat,
)
    requires
        a.wf(),
        b.wf(),
        c.wf(),
        b.spec_datatype() == a.spec_datatype(),
        c.spec_datatype() == a.spec_datatype(),
        concat_spec(seq![b, c], bc, depth),
        concat_spec(seq![a, b], ab, depth),
        concat_spec(seq![a, bc], r1, depth),
        concat_spec(seq![ab, c], r2, depth),
        concat_spec(seq![a, b, c], r3, depth),
        a is Int8,
    ensures
        same_values(r1, r3, depth),
        same_values(r2, r3, depth),
{
    assert(seq![a, bc][0] == a);
    assert(seq![ab, c][0] == ab);
    assert(seq![a, b, c][0] == a);
    assert(seq![b, c][0] == b);
    assert(seq![a, b][0] == a);
    let g = |x: Array| x->Int8_0;
    let f = |p: PrimitiveArray<i8>| p.values@;
    let h = |x: Array| x->Int8_0.values@;
    assert(seq![b, c].map_values(g).map_values(f) =~= seq![h(b), h(c)]);
    assert(seq![a, b].map_values(g).map_values(f) =~= seq![h(a), h(b)]);
    assert(seq![a, bc].map_values(g).map_values(f) =~= seq![h(a), h(bc)]);
    assert(seq![ab, c].map_values(g).map_values(f) =~= seq![h(ab), h(c)]);
    assert(seq![a, b, c].map_values(g).map_values(f) =~= seq![h(a), h(b), h(c)]);
    lemma_flatten_two(h(b), h(c));
    lemma_flatten_two(h(a), h(b));
    lemma_flatten_two(h(a), h(bc));
    lemma_flatten_two(h(ab), h(c));
    lemma_flatten_three(h(a), h(b), h(c));
    assert(h(a) + (h(b) + h(c)) =~= h(a) + h(b) + h(c));
    assert(h(a) + h(b) + h(c) =~= (h(a) + h(b)) + h(c));
}

#[verifier::rlimit(30)]
proof fn lemma_assoc_int16(
    a: Array,
    b: Array,
    c: Array,
    bc: Array,
    ab: Array,
    r1: Array,
    r2: Array,
    r3: Array,
    depth: nat,
)
    requires
        a.wf(),
        b.wf(),
        c.wf(),
        b.spec_datatype() == a.spec_datatype(),
        c.spec_datatype() == a.spec_datatype(),
        concat_spec(seq![b, c], bc, depth),
        concat_spec(seq![a, b], ab, depth),
        concat_spec(seq![a, bc], r1, depth),
        concat_spec(seq![ab, c], r2, depth),
        concat_spec(seq![a, b, c], r3, depth),
        a is Int16,
    ensures
        same_values(r1, r3, depth),
        same_values(r2, r3, depth),
{
    assert(seq![a, bc][0] == a);
    assert(seq![ab, c][0] == ab);
    assert(seq![a, b, c][0] == a);
    assert(seq![b, c][0] == b);
    assert(seq![a, b][0] == a);
    let g = |x: Array| x->Int16_0;
    let f = |p: PrimitiveArray<i16>| p.values@;
    let h = |x: Array| x->Int16_0.values@;
    assert(seq![b, c].map_values(g).map_values(f) =~= seq![h(b), h(c)]);
    assert(seq![a, b].map_values(g).map_values(f) =~= seq![h(a), h(b)]);
    assert(seq![a, bc].map_values(g).map_values(f) =~= seq![h(a), h(bc)]);
    assert(seq![ab, c].map_values(g).map_values(f) =~= seq![h(ab), h(c)]);
    assert(seq![a, b, c].map_values(g).map_values(f) =~= seq![h(a), h(b), h(c)]);
    lemma_flatten_two(h(b), h(c));
    lemma_flatten_two(h(a), h(b));
    lemma_flatten_two(h(a), h(bc));
    lemma_flatten_two(h(ab), h(c));
    lemma_flatten_three(h(a), h(b), h(c));
    assert(h(a) + (h(b) + h(c)) =~= h(a) + h(b) + h(c));
    assert(h(a) + h(b) + h(c) =~= (h(a) + h(b)) + h(c));
}

#[verifier::rlimit(30)]
proof fn lemma_assoc_int32(
    a: Array,
    b: Array,
    c: Array,
    bc: Array,
    ab: Array,
    r1: Array,
    r2: Array,
    r3: Array,
    depth: nat,
)
    requires
        a.wf(),
        b.wf(),
        c.wf(),
        b.spec_datatype() == a.spec_datatype(),
        c.spec_datatype() == a.spec_datatype(),
        concat_spec(seq![b, c], bc, depth),
        concat_spec(seq![a, b], ab, depth),
        concat_spec(seq![a, bc], r1, depth),
        concat_spec(seq![ab, c], r2, depth),
        concat_spec(seq![a, b, c], r3, depth),
        a is Int32,
    ensures
        same_values(r1, r3, depth),
        same_values(r2, r3, depth),
{
    assert(seq![a, bc][0] == a);
    assert(seq![ab, c][0] == ab);
    assert(seq![a, b, c][0] == a);
    assert(seq![b, c][0] == b);
    assert(seq![a, b][0] == a);
    let g = |x: Array| x->Int32_0;
    let f = |p: PrimitiveArray<i32>| p.values@;
    let h = |x: Array| x->Int32_0.values@;
    assert(seq![b, c].map_values(g).map_values(f) =~= seq![h(b), h(c)]);
    assert(seq![a, b].map_values(g).map_values(f) =~= seq![h(a), h(b)]);
    assert(seq![a, bc].map_values(g).map_values(f) =~= seq![h(a), h(bc)]);
    assert(seq![ab, c].map_values(g).map_values(f) =~= seq![h(ab), h(c)]);
    assert(seq![a, b, c].map_values(g).map_values(f) =~= seq![h(a), h(b), h(c)]);
    lemma_flatten_two(h(b), h(c));
    lemma_flatten_two(h(a), h(b));
    lemma_flatten_two(h(a), h(bc));
    lemma_flatten_two(h(ab), h(c));
    lemma_flatten_three(h(a), h(b), h(c));
    assert(h(a) + (h(b) + h(c)) =~= h(a) + h(b) + h(c));
    assert(h(a) + h(b) + h(c) =~= (h(a) + h(b)) + h(c));
}

#[verifier::rlimit(30)]
proof fn lemma_assoc_int64(
    a: Array,
    b: Array,
    c: Array,
    bc: Array,
    ab: Array,
    r1: Array,
    r2: Array,
    r3: Array,
    depth: nat,
)
    requires
        a.wf(),
        b.wf(),
        c.wf(),
        b.spec_datatype() == a.spec_datatype(),
        c.spec_datatype() == a.spec_datatype(),
        concat_spec(seq![b, c], bc, depth),
        concat_spec(seq![a, b], ab, depth),
        concat_spec(seq![a, bc], r1, depth),
        concat_spec(seq![ab, c], r2, depth),
        concat_spec(seq![a, b, c], r3, depth),
        a is Int64,
    ensures
        same_values(r1, r3, depth),
        same_values(r2, r3, depth),
{
    assert(seq![a, bc][0] == a);
    assert(seq![ab, c][0] == ab);
    assert(seq![a, b, c][0] == a);
    assert(seq![b, c][0] == b);
    assert(seq![a, b][0] == a);
    let g = |x: Array| x->Int64_0;
    let f = |p: PrimitiveArray<i64>| p.values@;
    let h = |x: Array| x->Int64_0.values@;
    assert(seq![b, c].map_values(g).map_values(f) =~= seq![h(b), h(c)]);
    assert(seq![a, b].map_values(g).map_values(f) =~= seq![h(a), h(b)]);
    assert(seq![a, bc].map_values(g).map_values(f) =~= seq![h(a), h(bc)]);
    assert(seq![ab, c].map_values(g).map_values(f) =~= seq![h(ab), h(c)]);
    assert(seq![a, b, c].map_values(g).map_values(f) =~= seq![h(a), h(b), h(c)]);
    lemma_flatten_two(h(b), h(c));
    lemma_flatten_two(h(a), h(b));
    lemma_flatten_two(h(a), h(bc));
    lemma_flatten_two(h(ab), h(c));
    lemma_flatten_three(h(a), h(b), h(c));
    assert(h(a) + (h(b) + h(c)) =~= h(a) + h(b) + h(c));
    assert(h(a) + h(b) + h(c) =~= (h(a) + h(b)) + h(c));
}

#[verifier::rlimit(30)]
proof fn lemma_assoc_int128(
    a: Array,
    b: Array,
    c: Array,
    bc: Array,
    ab: Array,
    r1: Array,
    r2: Array,
    r3: Array,
    depth: nat,
)
    requires
        a.wf(),
        b.wf(),
        c.wf(),
        b.spec_datatype() == a.spec_datatype(),
        c.spec_datatype() == a.spec_datatype(),
        concat_spec(seq![b, c], bc, depth),
        concat_spec(seq![a, b], ab, depth),
        concat_spec(seq![a, bc], r1, depth),
        concat_spec(seq![ab, c], r2, depth),
        concat_spec(seq![a, b, c], r3, depth),
        a is Int128,
    ensures
        same_values(r1, r3, depth),
        same_values(r2, r3, depth),
{
    assert(seq![a, bc][0] == a);
    assert(seq![ab, c][0] == ab);
    assert(seq![a, b, c][0] == a);
    assert(seq![b, c][0] == b);
    assert(seq![a, b][0] == a);
    let g = |x: Array| x->Int128_0;
    let f = |p: PrimitiveArray<i128>| p.values@;
    let h = |x: Array| x->Int128_0.values@;
    assert(seq![b, c].map_values(g).map_values(f) =~= seq![h(b), h(c)]);
    assert(seq![a, b].map_values(g).map_values(f) =~= seq![h(a), h(b)]);
    assert(seq![a, bc].map_values(g).map_values(f) =~= seq![h(a), h(bc)]);
    assert(seq![ab, c].map_values(g).map_values(f) =~= seq![h(ab), h(c)]);
    assert(seq![a, b, c].map_values(g).map_values(f) =~= seq![h(a), h(b), h(c)]);
    lemma_flatten_two(h(b), h(c));
    lemma_flatten_two(h(a), h(b));
    lemma_flatten_two(h(a), h(bc));
    lemma_flatten_two(h(ab), h(c));
    lemma_flatten_three(h(a), h(b), h(c));
    assert(h(a) + (h(b) + h(c)) =~= h(a) + h(b) + h(c));
    assert(h(a) + h(b) + h(c) =~= (h(a) + h(b)) + h(c));
}

#[verifier::rlimit(30)]
proof fn lemma_assoc_uint8(
    a: Array,
    b: Array,
    c: Array,
    bc: Array,
    ab: Array,
    r1: Array,
    r2: Array,
    r3: Array,
    depth: nat,
)
    requires
        a.wf(),
        b.wf(),
        c.wf(),
        b.spec_datatype() == a.spec_datatype(),
        c.spec_datatype() == a.spec_datatype(),
        concat_spec(seq![b, c], bc, depth),
        concat_spec(seq![a, b], ab, depth),
        concat_spec(seq![a, bc], r1, depth),
        concat_spec(seq![ab, c], r2, depth),
        concat_spec(seq![a, b, c], r3, depth),
        a is UInt8,
    ensures
        same_values(r1, r3, depth),
        same_values(r2, r3, depth),
{
    assert(seq![a, bc][0] == a);
    assert(seq![ab, c][0] == ab);
    assert(seq![a, b, c][0] == a);
    assert(seq![b, c][0] == b);
    assert(seq![a, b][0] == a);
    let g = |x: Array| x->UInt8_0;
    let f = |p: PrimitiveArray<u8>| p.values@;
    let h = |x: Array| x->UInt8_0.values@;
    assert(seq![b, c].map_values(g).map_values(f) =~= seq![h(b), h(c)]);
    assert(seq![a, b].map_values(g).map_values(f) =~= seq![h(a), h(b)]);
    assert(seq![a, bc].map_values(g).map_values(f) =~= seq![h(a), h(bc)]);
    assert(seq![ab, c].map_values(g).map_values(f) =~= seq![h(ab), h(c)]);
    assert(seq![a, b, c].map_values(g).map_values(f) =~= seq![h(a), h(b), h(c)]);
    lemma_flatten_two(h(b), h(c));
    lemma_flatten_two(h(a), h(b));
    lemma_flatten_two(h(a), h(bc));
    lemma_flatten_two(h(ab), h(c));
    lemma_flatten_three(h(a), h(b), h(c));
    assert(h(a) + (h(b) + h(c)) =~= h(a) + h(b) + h(c));
    assert(h(a) + h(b) + h(c) =~= (h(a) + h(b)) + h(c));
}

#[verifier::rlimit(30)]
proof fn lemma_assoc_uint16(
    a: Array,
    b: Array,
    c: Array,
    bc: Array,
    ab: Array,
    r1: Array,
    r2: Array,
    r3: Array,
    depth: nat,
)
    requires
        a.wf(),
        b.wf(),
        c.wf(),
        b.spec_datatype() == a.spec_datatype(),
        c.spec_datatype() == a.spec_datatype(),
        concat_spec(seq![b, c], bc, depth),
        concat_spec(seq![a, b], ab, depth),
        concat_spec(seq![a, bc], r1, depth),
        concat_spec(seq![ab, c], r2, depth),
        concat_spec(seq![a, b, c], r3, depth),
        a is UInt16,
    ensures
        same_values(r1, r3, depth),
        same_values(r2, r3, depth),
{
    assert(seq![a, bc][0] == a);
    assert(seq![ab, c][0] == ab);
    assert(seq![a, b, c][0] == a);
    assert(seq![b, c][0] == b);
    assert(seq![a, b][0] == a);
    let g = |x: Array| x->UInt16_0;
    let f = |p: PrimitiveArray<u16>| p.values@;
    let h = |x: Array| x->UInt16_0.values@;
    assert(seq![b, c].map_values(g).map_values(f) =~= seq![h(b), h(c)]);
    assert(seq![a, b].map_values(g).map_values(f) =~= seq![h(a), h(b)]);
    assert(seq![a, bc].map_values(g).map_values(f) =~= seq![h(a), h(bc)]);
    assert(seq![ab, c].map_values(g).map_values(f) =~= seq![h(ab), h(c)]);
    assert(seq![a, b, c].map_values(g).map_values(f) =~= seq![h(a), h(b), h(c)]);
    lemma_flatten_two(h(b), h(c));
    lemma_flatten_two(h(a), h(b));
    lemma_flatten_two(h(a), h(bc));
    lemma_flatten_two(h(ab), h(c));
    lemma_flatten_three(h(a), h(b), h(c));
    assert(h(a) + (h(b) + h(c)) =~= h(a) + h(b) + h(c));
    assert(h(a) + h(b) + h(c) =~= (h(a) + h(b)) + h(c));
}

#[verifier::rlimit(30)]
proof fn lemma_assoc_uint32(
    a: Array,
    b: Array,
    c: Array,
    bc: Array,
    ab: Array,
    r1: Array,
    r2: Array,
    r3: Array,
    depth: nat,
)
    requires
        a.wf(),
        b.wf(),
        c.wf(),
        b.spec_datatype() == a.spec_datatype(),
        c.spec_datatype() == a.spec_datatype(),
        concat_spec(seq![b, c], bc, depth),
        concat_spec(seq![a, b], ab, depth),
        concat_spec(seq![a, bc], r1, depth),
        concat_spec(seq![ab, c], r2, depth),
        concat_spec(seq![a, b, c], r3, depth),
        a is UInt32,
    ensures
        same_values(r1, r3, depth),
        same_values(r2, r3, depth),
{
    assert(seq![a, bc][0] == a);
    assert(seq![ab, c][0] == ab);
    assert(seq![a, b, c][0] == a);
    assert(seq![b, c][0] == b);
    assert(seq![a, b][0] == a);
    let g = |x: Array| x->UInt32_0;
    let f = |p: PrimitiveArray<u32>| p.values@;
    let h = |x: Array| x->UInt32_0.values@;
    assert(seq![b, c].map_values(g).map_values(f) =~= seq![h(b), h(c)]);
    assert(seq![a, b].map_values(g).map_values(f) =~= seq![h(a), h(b)]);
    assert(seq![a, bc].map_values(g).map_values(f) =~= seq![h(a), h(bc)]);
    assert(seq![ab, c].map_values(g).map_values(f) =~= seq![h(ab), h(c)]);
    assert(seq![a, b, c].map_values(g).map_values(f) =~= seq![h(a), h(b), h(c)]);
    lemma_flatten_two(h(b), h(c));
    lemma_flatten_two(h(a), h(b));
    lemma_flatten_two(h(a), h(bc));
    lemma_flatten_two(h(ab), h(c));
    lemma_flatten_three(h(a), h(b), h(c));
    assert(h(a) + (h(b) + h(c)) =~= h(a) + h(b) + h(c));
    assert(h(a) + h(b) + h(c) =~= (h(a) + h(b)) + h(c));
}

#[verifier::rlimit(30)]
proof fn lemma_assoc_uint64(
    a: Array,
    b: Array,
    c: Array,
    bc: Array,
    ab: Array,
    r1: Array,
    r2: Array,
    r3: Array,
    depth: nat,
)
    requires
        a.wf(),
        b.wf(),
        c.wf(),
        b.spec_datatype() == a.spec_datatype(),
        c.spec_datatype() == a.spec_datatype(),
        concat_spec(seq![b, c], bc, depth),
        concat_spec(seq![a, b], ab, depth),
        concat_spec(seq![a, bc], r1, depth),
        concat_spec(seq![ab, c], r2, depth),
        concat_spec(seq![a, b, c], r3, depth),
        a is UInt64,
    ensures
        same_values(r1, r3, depth),
        same_values(r2, r3, depth),
{
    assert(seq![a, bc][0] == a);
    assert(seq![ab, c][0] == ab);
    assert(seq![a, b, c][0] == a);
    assert(seq![b, c][0] == b);
    assert(seq![a, b][0] == a);
    let g = |x: Array| x->UInt64_0;
    let f = |p: PrimitiveArray<u64>| p.values@;
    let h = |x: Array| x->UInt64_0.values@;
    assert(seq![b, c].map_values(g).map_values(f) =~= seq![h(b), h(c)]);
    assert(seq![a, b].map_values(g).map_values(f) =~= seq![h(a), h(b)]);
    assert(seq![a, bc].map_values(g).map_values(f) =~= seq![h(a), h(bc)]);
    assert(seq![ab, c].map_values(g).map_values(f) =~= seq![h(ab), h(c)]);
    assert(seq![a, b, c].map_values(g).map_values(f) =~= seq![h(a), h(b), h(c)]);
    lemma_flatten_two(h(b), h(c));
    lemma_flatten_two(h(a), h(b));
    lemma_flatten_two(h(a), h(bc));
    lemma_flatten_two(h(ab), h(c));
    lemma_flatten_three(h(a), h(b), h(c));
    assert(h(a) + (h(b) + h(c)) =~= h(a) + h(b) + h(c));
    assert(h(a) + h(b) + h(c) =~= (h(a) + h(b)) + h(c));
}

#[verifier::rlimit(30)]
proof fn lemma_assoc_uint128(
    a: Array,
    b: Array,
    c: Array,
    bc: Array,
    ab: Array,
    r1: Array,
    r2: Array,
    r3: Array,
    depth: nat,
)
    requires
        a.wf(),
        b.wf(),
        c.wf(),
        b.spec_datatype() == a.spec_datatype(),
        c.spec_datatype() == a.spec_datatype(),
        concat_spec(seq![b, c], bc, depth),
        concat_spec(seq![a, b], ab, depth),
        concat_spec(seq![a, bc], r1, depth),
        concat_spec(seq![ab, c], r2, depth),
        concat_spec(seq![a, b, c], r3, depth),
        a is UInt128,
    ensures
        same_values(r1, r3, depth),
        same_values(r2, r3, depth),
{
    assert(seq![a, bc][0] == a);
    assert(seq![ab, c][0] == ab);
    assert(seq![a, b, c][0] == a);
    assert(seq![b, c][0] == b);
    assert(seq![a, b][0] == a);
    let g = |x: Array| x->UInt128_0;
    let f = |p: PrimitiveArray<u128>| p.values@;
    let h = |x: Array| x->UInt128_0.values@;
    assert(seq![b, c].map_values(g).map_values(f) =~= seq![h(b), h(c)]);
    assert(seq![a, b].map_values(g).map_values(f) =~= seq![h(a), h(b)]);
    assert(seq![a, bc].map_values(g).map_values(f) =~= seq![h(a), h(bc)]);
    assert(seq![ab, c].map_values(g).map_values(f) =~= seq![h(ab), h(c)]);
    assert(seq![a, b, c].map_values(g).map_values(f) =~= seq![h(a), h(b), h(c)]);
    lemma_flatten_two(h(b), h(c));
    lemma_flatten_two(h(a), h(b));
    lemma_flatten_two(h(a), h(bc));
    lemma_flatten_two(h(ab), h(c));
    lemma_flatten_three(h(a), h(b), h(c));
    assert(h(a) + (h(b) + h(c)) =~= h(a) + h(b) + h(c));
    assert(h(a) + h(b) + h(c) =~= (h(a) + h(b)) + h(c));
}

#[verifier::rlimit(30)]
proof fn lemma_assoc_float32(
    a: Array,
    b: Array,
    c: Array,
    bc: Array,
    ab: Array,
    r1: Array,
    r2: Array,
    r3: Array,
    depth: nat,
)
    requires
        a.wf(),
        b.wf(),
        c.wf(),
        b.spec_datatype() == a.spec_datatype(),
        c.spec_datatype() == a.spec_datatype(),
        concat_spec(seq![b, c], bc, depth),
        concat_spec(seq![a, b], ab, depth),
        concat_spec(seq![a, bc], r1, depth),
        concat_spec(seq![ab, c], r2, depth),
        concat_spec(seq![a, b, c], r3, depth),
        a is Float32,
    ensures
        same_values(r1, r3, depth),
        same_values(r2, r3, depth),
{
    assert(seq![a, bc][0] == a);
    assert(seq![ab, c][0] == ab);
    assert(seq![a, b, c][0] == a);
    assert(seq![b, c][0] == b);
    assert(seq![a, b][0] == a);
    let g = |x: Array| x->Float32_0;
    let f = |p: PrimitiveArray<u32>| p.values@;
    let h = |x: Array| x->Float32_0.values@;
    assert(seq![b, c].map_values(g).map_values(f) =~= seq![h(b), h(c)]);
    assert(seq![a, b].map_values(g).map_values(f) =~= seq![h(a), h(b)]);
    assert(seq![a, bc].map_values(g).map_values(f) =~= seq![h(a), h(bc)]);
    assert(seq![ab, c].map_values(g).map_values(f) =~= seq![h(ab), h(c)]);
    assert(seq![a, b, c].map_values(g).map_values(f) =~= seq![h(a), h(b), h(c)]);
    lemma_flatten_two(h(b), h(c));
    lemma_flatten_two(h(a), h(b));
    lemma_flatten_two(h(a), h(bc));
    lemma_flatten_two(h(ab), h(c));
    lemma_flatten_three(h(a), h(b), h(c));
    assert(h(a) + (h(b) + h(c)) =~= h(a) + h(b) + h(c));
    assert(h(a) + h(b) + h(c) =~= (h(a) + h(b)) + h(c));
}

#[verifier::rlimit(30)]
proof fn lemma_assoc_float64(
    a: Array,
    b: Array,
    c: Array,
    bc: Array,
    ab: Array,
    r1: Array,
    r2: Array,
    r3: Array,
    depth: nat,
)
    requires
        a.wf(),
        b.wf(),
        c.wf(),
        b.spec_datatype() == a.spec_datatype(),
        c.spec_datatype() == a.spec_datatype(),
        concat_spec(seq![b, c], bc, depth),
        concat_spec(seq![a, b], ab, depth),
        concat_spec(seq![a, bc], r1, depth),
        concat_spec(seq![ab, c], r2, depth),
        concat_spec(seq![a, b, c], r3, depth),
        a is Float64,
    ensures
        same_values(r1, r3, depth),
        same_values(r2, r3, depth),
{
    assert(seq![a, bc][0] == a);
    assert(seq![ab, c][0] == ab);
    assert(seq![a, b, c][0] == a);
    assert(seq![b, c][0] == b);
    assert(seq![a, b][0] == a);
    let g = |x: Array| x->Float64_0;
    let f = |p: PrimitiveArray<u64>| p.values@;
    let h = |x: Array| x->Float64_0.values@;
    assert(seq![b, c].map_values(g).map_values(f) =~= seq![h(b), h(c)]);
    assert(seq![a, b].map_values(g).map_values(f) =~= seq![h(a), h(b)]);
    assert(seq![a, bc].map_values(g).map_values(f) =~= seq![h(a), h(bc)]);
    assert(seq![ab, c].map_values(g).map_values(f) =~= seq![h(ab), h(c)]);
    assert(seq![a, b, c].map_values(g).map_values(f) =~= seq![h(a), h(b), h(c)]);
    lemma_flatten_two(h(b), h(c));
    lemma_flatten_two(h(a), h(b));
    lemma_flatten_two(h(a), h(bc));
    lemma_flatten_two(h(ab), h(c));
    lemma_flatten_three(h(a), h(b), h(c));
    assert(h(a) + (h(b) + h(c)) =~= h(a) + h(b) + h(c));
    assert(h(a) + h(b) + h(c) =~= (h(a) + h(b)) + h(c));
}

#[verifier::rlimit(30)]
proof fn lemma_assoc_date32(
    a: Array,
    b: Array,
    c: Array,
    bc: Array,
    ab: Array,
    r1: Array,
    r2: Array,
    r3: Array,
    depth: nat,
)
    requires
        a.wf(),
        b.wf(),
        c.wf(),
        b.spec_datatype() == a.spec_datatype(),
        c.spec_datatype() == a.spec_datatype(),
        concat_spec(seq![b, c], bc, depth),
        concat_spec(seq![a, b], ab, depth),
        concat_spec(seq![a, bc], r1, depth),
        concat_spec(seq![ab, c], r2, depth),
        concat_spec(seq![a, b, c], r3, depth),
        a is Date32,
    ensures
        same_values(r1, r3, depth),
        same_values(r2, r3, depth),
{
    assert(seq![a, bc][0] == a);
    assert(seq![ab, c][0] == ab);
    assert(seq![a, b, c][0] == a);
    assert(seq![b, c][0] == b);
    assert(seq![a, b][0] == a);
    let g = |x: Array| x->Date32_0;
    let f = |p: PrimitiveArray<i32>| p.values@;
    let h = |x: Array| x->Date32_0.values@;
    assert(seq![b, c].map_values(g).map_values(f) =~= seq![h(b), h(c)]);
    assert(seq![a, b].map_values(g).map_values(f) =~= seq![h(a), h(b)]);
    assert(seq![a, bc].map_values(g).map_values(f) =~= seq![h(a), h(bc)]);
    assert(seq![ab, c].map_values(g).map_values(f) =~= seq![h(ab), h(c)]);
    assert(seq![a, b, c].map_values(g).map_values(f) =~= seq![h(a), h(b), h(c)]);
    lemma_flatten_two(h(b), h(c));
    lemma_flatten_two(h(a), h(b));
    lemma_flatten_two(h(a), h(bc));
    lemma_flatten_two(h(ab), h(c));
    lemma_flatten_three(h(a), h(b), h(c));
    assert(h(a) + (h(b) + h(c)) =~= h(a) + h(b) + h(c));
    assert(h(a) + h(b) + h(c) =~= (h(a) + h(b)) + h(c));
}

#[verifier::rlimit(30)]
proof fn lemma_assoc_date64(
    a: Array,
    b: Array,
    c: Array,
    bc: Array,
    ab: Array,
    r1: Array,
    r2: Array,
    r3: Array,
    depth: nat,
)
    requires
        a.wf(),
        b.wf(),
        c.wf(),
        b.spec_datatype() == a.spec_datatype(),
        c.spec_datatype() == a.spec_datatype(),
        concat_spec(seq![b, c], bc, depth),
        concat_spec(seq![a, b], ab, depth),
        concat_spec(seq![a, bc], r1, depth),
        concat_spec(seq![ab, c], r2, depth),
        concat_spec(seq![a, b, c], r3, depth),
        a is Date64,
    ensures
        same_values(r1, r3, depth),
        same_values(r2, r3, depth),
{
    assert(seq![a, bc][0] == a);
    assert(seq![ab, c][0] == ab);
    assert(seq![a, b, c][0] == a);
    assert(seq![b, c][0] == b);
    assert(seq![a, b][0] == a);
    let g = |x: Array| x->Date64_0;
    let f = |p: PrimitiveArray<i64>| p.values@;
    let h = |x: Array| x->Date64_0.values@;
    assert(seq![b, c].map_values(g).map_values(f) =~= seq![h(b), h(c)]);
    assert(seq![a, b].map_values(g).map_values(f) =~= seq![h(a), h(b)]);
    assert(seq![a, bc].map_values(g).map_values(f) =~= seq![h(a), h(bc)]);
    assert(seq![ab, c].map_values(g).map_values(f) =~= seq![h(ab), h(c)]);
    assert(seq![a, b, c].map_values(g).map_values(f) =~= seq![h(a), h(b), h(c)]);
    lemma_flatten_two(h(b), h(c));
    lemma_flatten_two(h(a), h(b));
    lemma_flatten_two(h(a), h(bc));
    lemma_flatten_two(h(ab), h(c));
    lemma_flatten_three(h(a), h(b), h(c));
    assert(h(a) + (h(b) + h(c)) =~= h(a) + h(b) + h(c));
    assert(h(a) + h(b) + h(c) =~= (h(a) + h(b)) + h(c));
}

#[verifier::rlimit(30)]
proof fn lemma_assoc_interval(
    a: Array,
    b: Array,
    c: Array,
    bc: Array,
    ab: Array,
    r1: Array,
    r2: Array,
    r3: Array,
    depth: nat,
)
    requires
        a.wf(),
        b.wf(),
        c.wf(),
        b.spec_datatype() == a.spec_datatype(),
        c.spec_datatype() == a.spec_datatype(),
        concat_spec(seq![b, c], bc, depth),
        concat_spec(seq![a, b], ab, depth),
        concat_spec(seq![a, bc], r1, depth),
        concat_spec(seq![ab, c], r2, depth),
        concat_spec(seq![a, b, c], r3, depth),
        a is Interval,
    ensures
        same_values(r1, r3, depth),
        same_values(r2, r3, depth),
{
    assert(seq![a, bc][0] == a);
    assert(seq![ab, c][0] == ab);
    assert(seq![a, b, c][0] == a);
    assert(seq![b, c][0] == b);
    assert(seq![a, b][0] == a);
    let g = |x: Array| x->Interval_0;
    let f = |p: PrimitiveArray<IntervalValue>| p.values@;
    let h = |x: Array| x->Interval_0.values@;
    assert(seq![b, c].map_values(g).map_values(f) =~= seq![h(b), h(c)]);
    assert(seq![a, b].map_values(g).map_values(f) =~= seq![h(a), h(b)]);
    assert(seq![a, bc].map_values(g).map_values(f) =~= seq![h(a), h(bc)]);
    assert(seq![ab, c].map_values(g).map_values(f) =~= seq![h(ab), h(c)]);
    assert(seq![a, b, c].map_values(g).map_values(f) =~= seq![h(a), h(b), h(c)]);
    lemma_flatten_two(h(b), h(c));
    lemma_flatten_two(h(a), h(b));
    lemma_flatten_two(h(a), h(bc));
    lemma_flatten_two(h(ab), h(c));
    lemma_flatten_three(h(a), h(b), h(c));
    assert(h(a) + (h(b) + h(c)) =~= h(a) + h(b) + h(c));
    assert(h(a) + h(b) + h(c) =~= (h(a) + h(b)) + h(c));
}

#[verifier::rlimit(30)]
proof fn lemma_assoc_decimal64(
    a: Array,
    b: Array,
    c: Array,
    bc: Array,
    ab: Array,
    r1: Array,
    r2: Array,
    r3: Array,
    depth: nat,
)
    requires
        a.wf(),
        b.wf(),
        c.wf(),
        b.spec_datatype() == a.spec_datatype(),
        c.spec_datatype() == a.spec_datatype(),
        concat_spec(seq![b, c], bc, depth),
        concat_spec(seq![a, b], ab, depth),
        concat_spec(seq![a, bc], r1, depth),
        concat_spec(seq![ab, c], r2, depth),
        concat_spec(seq![a, b, c], r3, depth),
        a is Decimal64,
    ensures
        same_values(r1, r3, depth),
        same_values(r2, r3, depth),
{
    assert(seq![a, bc][0] == a);
    assert(seq![ab, c][0] == ab);
    assert(seq![a, b, c][0] == a);
    assert(seq![b, c][0] == b);
    assert(seq![a, b][0] == a);
    let g = |x: Array| x->Decimal64_0.array;
    let f = |p: PrimitiveArray<i64>| p.values@;
    let h = |x: Array| x->Decimal64_0.array.values@;
    assert(seq![b, c].map_values(g).map_values(f) =~= seq![h(b), h(c)]);
    assert(seq![a, b].map_values(g).map_values(f) =~= seq![h(a), h(b)]);
    assert(seq![a, bc].map_values(g).map_values(f) =~= seq![h(a), h(bc)]);
    assert(seq![ab, c].map_values(g).map_values(f) =~= seq![h(ab), h(c)]);
    assert(seq![a, b, c].map_values(g).map_values(f) =~= seq![h(a), h(b), h(c)]);
    lemma_flatten_two(h(b), h(c));
    lemma_flatten_two(h(a), h(b));
    lemma_flatten_two(h(a), h(bc));
    lemma_flatten_two(h(ab), h(c));
    lemma_flatten_three(h(a), h(b), h(c));
    assert(h(a) + (h(b) + h(c)) =~= h(a) + h(b) + h(c));
    assert(h(a) + h(b) + h(c) =~= (h(a) + h(b)) + h(c));
}

#[verifier::rlimit(30)]
proof fn lemma_assoc_decimal128(
    a: Array,
    b: Array,
    c: Array,
    bc: Array,
    ab: Array,
    r1: Array,
    r2: Array,
    r3: Array,
    depth: nat,
)
    requires
        a.wf(),
        b.wf(),
        c.wf(),
        b.spec_datatype() == a.spec_datatype(),
        c.spec_datatype() == a.spec_datatype(),
        concat_spec(seq![b, c], bc, depth),
        concat_spec(seq![a, b], ab, depth),
        concat_spec(seq![a, bc], r1, depth),
        concat_spec(seq![ab, c], r2, depth),
        concat_spec(seq![a, b, c], r3, depth),
        a is Decimal128,
    ensures
        same_values(r1, r3, depth),
        same_values(r2, r3, depth),
{
    assert(seq![a, bc][0] == a);
    assert(seq![ab, c][0] == ab);
    assert(seq![a, b, c][0] == a);
    assert(seq![b, c][0] == b);
    assert(seq![a, b][0] == a);
    let g = |x: Array| x->Decimal128_0.array;
    let f = |p: PrimitiveArray<i128>| p.values@;
    let h = |x: Array| x->Decimal128_0.array.values@;
    assert(seq![b, c].map_values(g).map_values(f) =~= seq![h(b), h(c)]);
    assert(seq![a, b].map_values(g).map_values(f) =~= seq![h(a), h(b)]);
    assert(seq![a, bc].map_values(g).map_values(f) =~= seq![h(a), h(bc)]);
    assert(seq![ab, c].map_values(g).map_values(f) =~= seq![h(ab), h(c)]);
    assert(seq![a, b, c].map_values(g).map_values(f) =~= seq![h(a), h(b), h(c)]);
    lemma_flatten_two(h(b), h(c));
    lemma_flatten_two(h(a), h(b));
    lemma_flatten_two(h(a), h(bc));
    lemma_flatten_two(h(ab), h(c));
    lemma_flatten_three(h(a), h(b), h(c));
    assert(h(a) + (h(b) + h(c)) =~= h(a) + h(b) + h(c));
    assert(h(a) + h(b) + h(c) =~= (h(a) + h(b)) + h(c));
}

#[verifier::rlimit(30)]
proof fn lemma_assoc_timestamp(
    a: Array,
    b: Array,
    c: Array,
    bc: Array,
    ab: Array,
    r1: Array,
    r2: Array,
    r3: Array,
    depth: nat,
)
    requires
        a.wf(),
        b.wf(),
        c.wf(),
        b.spec_datatype() == a.spec_datatype(),
        c.spec_datatype() == a.spec_datatype(),
        concat_spec(seq![b, c], bc, depth),
        concat_spec(seq![a, b], ab, depth),
        concat_spec(seq![a, bc], r1, depth),
        concat_spec(seq![ab, c], r2, depth),
        concat_spec(seq![a, b, c], r3, depth),
        a is Timestamp,
    ensures
        same_values(r1, r3, depth),
        same_values(r2, r3, depth),
{
    assert(seq![a, bc][0] == a);
    assert(seq![ab, c][0] == ab);
    assert(seq![a, b, c][0] == a);
    assert(seq![b, c][0] == b);
    assert(seq![a, b][0] == a);
    let g = |x: Array| x->Timestamp_0.array;
    let f = |p: PrimitiveArray<i64>| p.values@;
    let h = |x: Array| x->Timestamp_0.array.values@;
    assert(seq![b, c].map_values(g).map_values(f) =~= seq![h(b), h(c)]);
    assert(seq![a, b].map_values(g).map_values(f) =~= seq![h(a), h(b)]);
    assert(seq![a, bc].map_values(g).map_values(f) =~= seq![h(a), h(bc)]);
    assert(seq![ab, c].map_values(g).map_values(f) =~= seq![h(ab), h(c)]);
    assert(seq![a, b, c].map_values(g).map_values(f) =~= seq![h(a), h(b), h(c)]);
    lemma_flatten_two(h(b), h(c));
    lemma_flatten_two(h(a), h(b));
    lemma_flatten_two(h(a), h(bc));
    lemma_flatten_two(h(ab), h(c));
    lemma_flatten_three(h(a), h(b), h(c));
    assert(h(a) + (h(b) + h(c)) =~= h(a) + h(b) + h(c));
    assert(h(a) + h(b) + h(c) =~= (h(a) + h(b)) + h(c));
}

#[verifier::rlimit(30)]
proof fn lemma_assoc_utf8(
    a: Array,
    b: Array,
    c: Array,
    bc: Array,
    ab: Array,
    r1: Array,
    r2: Array,
    r3: Array,
    depth: nat,
)
    requires
        a.wf(),
        b.wf(),
        c.wf(),
        b.spec_datatype() == a.spec_datatype(),
        c.spec_datatype() == a.spec_datatype(),
        concat_spec(seq![b, c], bc, depth),
        concat_spec(seq![a, b], ab, depth),
        concat_spec(seq![a, bc], r1, depth),
        concat_spec(seq![ab, c], r2, depth),
        concat_spec(seq![a, b, c], r3, depth),
        a is Utf8,
    ensures
        same_values(r1, r3, depth),
        same_values(r2, r3, depth),
{
    assert(seq![a, bc][0] == a);
    assert(seq![ab, c][0] == ab);
    assert(seq![a, b, c][0] == a);
    assert(seq![b, c][0] == b);
    assert(seq![a, b][0] == a);
    let h = |x: Array| x->Utf8_0.data@;
    let g = |x: Array| x->Utf8_0;
    let o = |x: Array| x->Utf8_0.offsets@;
    assert(seq![b, c].map_values(g).map_values(|p: VarlenArray| p.data@) =~= seq![h(b), h(c)]);
    assert(seq![a, b].map_values(g).map_values(|p: VarlenArray| p.data@) =~= seq![h(a), h(b)]);
    assert(seq![a, bc].map_values(g).map_values(|p: VarlenArray| p.data@) =~= seq![h(a), h(bc)]);
    assert(seq![ab, c].map_values(g).map_values(|p: VarlenArray| p.data@) =~= seq![h(ab), h(c)]);
    assert(seq![a, b, c].map_values(g).map_values(|p: VarlenArray| p.data@) =~= seq![h(a), h(b), h(c)]);
    assert(seq![b, c].map_values(g).map_values(|p: VarlenArray| p.offsets@) =~= seq![o(b), o(c)]);
    assert(seq![a, b].map_values(g).map_values(|p: VarlenArray| p.offsets@) =~= seq![o(a), o(b)]);
    assert(seq![a, bc].map_values(g).map_values(|p: VarlenArray| p.offsets@) =~= seq![o(a), o(bc)]);
    assert(seq![ab, c].map_values(g).map_values(|p: VarlenArray| p.offsets@) =~= seq![o(ab), o(c)]);
    assert(seq![a, b, c].map_values(g).map_values(|p: VarlenArray| p.offsets@) =~= seq![o(a), o(b), o(c)]);
    lemma_flatten_two(h(b), h(c));
    lemma_flatten_two(h(a), h(b));
    lemma_flatten_two(h(a), h(bc));
    lemma_flatten_two(h(ab), h(c));
    lemma_flatten_three(h(a), h(b), h(c));
    assert(h(a) + (h(b) + h(c)) =~= h(a) + h(b) + h(c));
    assert(h(a) + h(b) + h(c) =~= (h(a) + h(b)) + h(c));
    lemma_offsets_assoc(o(a), o(b), o(c), o(bc), o(ab));
    lemma_ints_injective(o(r1), o(r3));
    lemma_ints_injective(o(r2), o(r3));
}

#[verifier::rlimit(30)]
proof fn lemma_assoc_largeutf8(
    a: Array,
    b: Array,
    c: Array,
    bc: Array,
    ab: Array,
    r1: Array,
    r2: Array,
    r3: Array,
    depth: nat,
)
    requires
        a.wf(),
        b.wf(),
        c.wf(),
        b.spec_datatype() == a.spec_datatype(),
        c.spec_datatype() == a.spec_datatype(),
        concat_spec(seq![b, c], bc, depth),
        concat_spec(seq![a, b], ab, depth),
        concat_spec(seq![a, bc], r1, depth),
        concat_spec(seq![ab, c], r2, depth),
        concat_spec(seq![a, b, c], r3, depth),
        a is LargeUtf8,
    ensures
        same_values(r1, r3, depth),
        same_values(r2, r3, depth),
{
    assert(seq![a, bc][0] == a);
    assert(seq![ab, c][0] == ab);
    assert(seq![a, b, c][0] == a);
    assert(seq![b, c][0] == b);
    assert(seq![a, b][0] == a);
    let h = |x: Array| x->LargeUtf8_0.data@;
    let g = |x: Array| x->LargeUtf8_0;
    let o = |x: Array| x->LargeUtf8_0.offsets@;
    assert(seq![b, c].map_values(g).map_values(|p: VarlenArray| p.data@) =~= seq![h(b), h(c)]);
    assert(seq![a, b].map_values(g).map_values(|p: VarlenArray| p.data@) =~= seq![h(a), h(b)]);
    assert(seq![a, bc].map_values(g).map_values(|p: VarlenArray| p.data@) =~= seq![h(a), h(bc)]);
    assert(seq![ab, c].map_values(g).map_values(|p: VarlenArray| p.data@) =~= seq![h(ab), h(c)]);
    assert(seq![a, b, c].map_values(g).map_values(|p: VarlenArray| p.data@) =~= seq![h(a), h(b), h(c)]);
    assert(seq![b, c].map_values(g).map_values(|p: VarlenArray| p.offsets@) =~= seq![o(b), o(c)]);
    assert(seq![a, b].map_values(g).map_values(|p: VarlenArray| p.offsets@) =~= seq![o(a), o(b)]);
    assert(seq![a, bc].map_values(g).map_values(|p: VarlenArray| p.offsets@) =~= seq![o(a), o(bc)]);
    assert(seq![ab, c].map_values(g).map_values(|p: VarlenArray| p.offsets@) =~= seq![o(ab), o(c)]);
    assert(seq![a, b, c].map_values(g).map_values(|p: VarlenArray| p.offsets@) =~= seq![o(a), o(b), o(c)]);
    lemma_flatten_two(h(b), h(c));
    lemma_flatten_two(h(a), h(b));
    lemma_flatten_two(h(a), h(bc));
    lemma_flatten_two(h(ab), h(c));
    lemma_flatten_three(h(a), h(b), h(c));
    assert(h(a) + (h(b) + h(c)) =~= h(a) + h(b) + h(c));
    assert(h(a) + h(b) + h(c) =~= (h(a) + h(b)) + h(c));
    lemma_offsets_assoc(o(a), o(b), o(c), o(bc), o(ab));
    lemma_ints_injective(o(r1), o(r3));
    lemma_ints_injective(o(r2), o(r3));
}

#[verifier::rlimit(30)]
proof fn lemma_assoc_binary(
    a: Array,
    b: Array,
    c: Array,
    bc: Array,
    ab: Array,
    r1: Array,
    r2: Array,
    r3: Array,
    depth: nat,
)
    requires
        a.wf(),
        b.wf(),
        c.wf(),
        b.spec_datatype() == a.spec_datatype(),
        c.spec_datatype() == a.spec_datatype(),
        concat_spec(seq![b, c], bc, depth),
        concat_spec(seq![a, b], ab, depth),
        concat_spec(seq![a, bc], r1, depth),
        concat_spec(seq![ab, c], r2, depth),
        concat_spec(seq![a, b, c], r3, depth),
        a is Binary,
    ensures
        same_values(r1, r3, depth),
        same_values(r2, r3, depth),
{
    assert(seq![a, bc][0] == a);
    assert(seq![ab, c][0] == ab);
    assert(seq![a, b, c][0] == a);
    assert(seq![b, c][0] == b);
    assert(seq![a, b][0] == a);
    let h = |x: Array| x->Binary_0.data@;
    let g = |x: Array| x->Binary_0;
    let o = |x: Array| x->Binary_0.offsets@;
    assert(seq![b, c].map_values(g).map_values(|p: VarlenArray| p.data@) =~= seq![h(b), h(c)]);
    assert(seq![a, b].map_values(g).map_values(|p: VarlenArray| p.data@) =~= seq![h(a), h(b)]);
    assert(seq![a, bc].map_values(g).map_values(|p: VarlenArray| p.data@) =~= seq![h(a), h(bc)]);
    assert(seq![ab, c].map_values(g).map_values(|p: VarlenArray| p.data@) =~= seq![h(ab), h(c)]);
    assert(seq![a, b, c].map_values(g).map_values(|p: VarlenArray| p.data@) =~= seq![h(a), h(b), h(c)]);
    assert(seq![b, c].map_values(g).map_values(|p: VarlenArray| p.offsets@) =~= seq![o(b), o(c)]);
    assert(seq![a, b].map_values(g).map_values(|p: VarlenArray| p.offsets@) =~= seq![o(a), o(b)]);
    assert(seq![a, bc].map_values(g).map_values(|p: VarlenArray| p.offsets@) =~= seq![o(a), o(bc)]);
    assert(seq![ab, c].map_values(g).map_values(|p: VarlenArray| p.offsets@) =~= seq![o(ab), o(c)]);
    assert(seq![a, b, c].map_values(g).map_values(|p: VarlenArray| p.offsets@) =~= seq![o(a), o(b), o(c)]);
    lemma_flatten_two(h(b), h(c));
    lemma_flatten_two(h(a), h(b));
    lemma_flatten_two(h(a), h(bc));
    lemma_flatten_two(h(ab), h(c));
    lemma_flatten_three(h(a), h(b), h(c));
    assert(h(a) + (h(b) + h(c)) =~= h(a) + h(b) + h(c));
    assert(h(a) + h(b) + h(c) =~= (h(a) + h(b)) + h(c));
    lemma_offsets_assoc(o(a), o(b), o(c), o(bc), o(ab));
    lemma_ints_injective(o(r1), o(r3));
    lemma_ints_injective(o(r2), o(r3));
}

#[verifier::rlimit(30)]
proof fn lemma_assoc_largebinary(
    a: Array,
    b: Array,
    c: Array,
    bc: Array,
    ab: Array,
    r1: Array,
    r2: Array,
    r3: Array,
    depth: nat,
)
    requires
        a.wf(),
        b.wf(),
        c.wf(),
        b.spec_datatype() == a.spec_datatype(),
        c.spec_datatype() == a.spec_datatype(),
        concat_spec(seq![b, c], bc, depth),
        concat_spec(seq![a, b], ab, depth),
        concat_spec(seq![a, bc], r1, depth),
        concat_spec(seq![ab, c], r2, depth),
        concat_spec(seq![a, b, c], r3, depth),
        a is LargeBinary,
    ensures
        same_values(r1, r3, depth),
        same_values(r2, r3, depth),
{
    assert(seq![a, bc][0] == a);
    assert(seq![ab, c][0] == ab);
    assert(seq![a, b, c][0] == a);
    assert(seq![b, c][0] == b);
    assert(seq![a, b][0] == a);
    let h = |x: Array| x->LargeBinary_0.data@;
    let g = |x: Array| x->LargeBinary_0;
    let o = |x: Array| x->LargeBinary_0.offsets@;
    assert(seq![b, c].map_values(g).map_values(|p: VarlenArray| p.data@) =~= seq![h(b), h(c)]);
    assert(seq![a, b].map_values(g).map_values(|p: VarlenArray| p.data@) =~= seq![h(a), h(b)]);
    assert(seq![a, bc].map_values(g).map_values(|p: VarlenArray| p.data@) =~= seq![h(a), h(bc)]);
    assert(seq![ab, c].map_values(g).map_values(|p: VarlenArray| p.data@) =~= seq![h(ab), h(c)]);
    assert(seq![a, b, c].map_values(g).map_values(|p: VarlenArray| p.data@) =~= seq![h(a), h(b), h(c)]);
    assert(seq![b, c].map_values(g).map_values(|p: VarlenArray| p.offsets@) =~= seq![o(b), o(c)]);
    assert(seq![a, b].map_values(g).map_values(|p: VarlenArray| p.offsets@) =~= seq![o(a), o(b)]);
    assert(seq![a, bc].map_values(g).map_values(|p: VarlenArray| p.offsets@) =~= seq![o(a), o(bc)]);
    assert(seq![ab, c].map_values(g).map_values(|p: VarlenArray| p.offsets@) =~= seq![o(ab), o(c)]);
    assert(seq![a, b, c].map_values(g).map_values(|p: VarlenArray| p.offsets@) =~= seq![o(a), o(b), o(c)]);
    lemma_flatten_two(h(b), h(c));
    lemma_flatten_two(h(a), h(b));
    lemma_flatten_two(h(a), h(bc));
    lemma_flatten_two(h(ab), h(c));
    lemma_flatten_three(h(a), h(b), h(c));
    assert(h(a) + (h(b) + h(c)) =~= h(a) + h(b) + h(c));
    assert(h(a) + h(b) + h(c) =~= (h(a) + h(b)) + h(c));
    lemma_offsets_assoc(o(a), o(b), o(c), o(bc), o(ab));
    lemma_ints_injective(o(r1), o(r3));
    lemma_ints_injective(o(r2), o(r3));
}

#[verifier::rlimit(30)]
proof fn lemma_assoc_list(
    a: Array,
    b: Array,
    c: Array,
    bc: Array,
    ab: Array,
    r1: Array,
    r2: Array,
    r3: Array,
    depth: nat,
)
    requires
        a.wf(),
        b.wf(),
        c.wf(),
        b.spec_datatype() == a.spec_datatype(),
        c.spec_datatype() == a.spec_datatype(),
        concat_spec(seq![b, c], bc, depth),
        concat_spec(seq![a, b], ab, depth),
        concat_spec(seq![a, bc], r1, depth),
        concat_spec(seq![ab, c], r2, depth),
        concat_spec(seq![a, b, c], r3, depth),
        a is List,
    ensures
        same_values(r1, r3, depth),
        same_values(r2, r3, depth),
    decreases depth, 0nat,
{
    assert(seq![a, bc][0] == a);
    assert(seq![ab, c][0] == ab);
    assert(seq![a, b, c][0] == a);
    assert(seq![b, c][0] == b);
    assert(seq![a, b][0] == a);
    let o = |x: Array| x->List_0.offsets@;
    assert(seq![b, c].map_values(o) =~= seq![o(b), o(c)]);
    assert(seq![a, b].map_values(o) =~= seq![o(a), o(b)]);
    assert(seq![a, bc].map_values(o) =~= seq![o(a), o(bc)]);
    assert(seq![ab, c].map_values(o) =~= seq![o(ab), o(c)]);
    assert(seq![a, b, c].map_values(o) =~= seq![o(a), o(b), o(c)]);
    lemma_offsets_assoc(o(a), o(b), o(c), o(bc), o(ab));
    lemma_ints_injective(o(r1), o(r3));
    lemma_ints_injective(o(r2), o(r3));
    let ch = |x: Array| *x->List_0.child;
    assert(list_children(seq![b, c]) =~= seq![ch(b), ch(c)]);
    assert(list_children(seq![a, b]) =~= seq![ch(a), ch(b)]);
    assert(list_children(seq![a, bc]) =~= seq![ch(a), ch(bc)]);
    assert(list_children(seq![ab, c]) =~= seq![ch(ab), ch(c)]);
    assert(list_children(seq![a, b, c]) =~= seq![ch(a), ch(b), ch(c)]);
    lemma_concat_associative(
        ch(a),
        ch(b),
        ch(c),
        ch(bc),
        ch(ab),
        ch(r1),
        ch(r2),
        ch(r3),
        (depth - 1) as nat,
    );
}

/// The offsets of a concatenated variable-length or list array start at 0,
/// never decrease, and end at the total length of the concatenated bytes or
/// children, which is the sum over the inputs.
pub proof fn lemma_concat_offsets(arrs: Seq<Array>, r: Array, depth: nat)
    requires
        arrs.len() > 0,
        concat_spec(arrs, r, depth),
    ensures
        r matches Array::Utf8(v) ==> offsets_wf(v.offsets@, v.data@.len()) && v.data@
            == arrs.map_values(|a: Array| a->Utf8_0.data@).flatten(),
        r matches Array::LargeUtf8(v) ==> offsets_wf(v.offsets@, v.data@.len()) && v.data@
            == arrs.map_values(|a: Array| a->LargeUtf8_0.data@).flatten(),
        r matches Array::Binary(v) ==> offsets_wf(v.offsets@, v.data@.len()) && v.data@
            == arrs.map_values(|a: Array| a->Binary_0.data@).flatten(),
        r matches Array::LargeBinary(v) ==> offsets_wf(v.offsets@, v.data@.len()) && v.data@
            == arrs.map_values(|a: Array| a->LargeBinary_0.data@).flatten(),
        r matches Array::List(l) ==> offsets_wf(l.offsets@, l.child.spec_len()) && l.child.spec_len()
            == sum_lens(list_children(arrs)),
{
    match arrs[0] {
        Array::Utf8(_) => {
            assert(arrs.map_values(|a: Array| a->Utf8_0).map_values(|p: VarlenArray| p.data@)
                =~= arrs.map_values(|a: Array| a->Utf8_0.data@));
        },
        Array::LargeUtf8(_) => {
            assert(arrs.map_values(|a: Array| a->LargeUtf8_0).map_values(|p: VarlenArray| p.data@)
                =~= arrs.map_values(|a: Array| a->LargeUtf8_0.data@));
        },
        Array::Binary(_) => {
            assert(arrs.map_values(|a: Array| a->Binary_0).map_values(|p: VarlenArray| p.data@)
                =~= arrs.map_values(|a: Array| a->Binary_0.data@));
        },
        Array::LargeBinary(_) => {
            assert(arrs.map_values(|a: Array| a->LargeBinary_0).map_values(
                |p: VarlenArray| p.data@,
            ) =~= arrs.map_values(|a: Array| a->LargeBinary_0.data@));
        },
        Array::List(_) => {
            assert(values_concat(arrs, r, depth));
            assert(concat_spec(list_children(arrs), *r->List_0.child, (depth - 1) as nat));
        },
        _ => {},
    }
}

} // verus!
