use vstd::prelude::*;
use vstd::string::*;

use crate::array::{Array, BooleanArray, PrimitiveArray};
use crate::batch::Batch;
use crate::datatype::DataType;
use crate::error::{ErrorKind, RayexecError, Result};
use crate::scalar::copy_mask;

verus! {

/// Whether unit `g` stands in partition `g % parts.len()`.
pub open spec fn dealt(parts: Seq<Seq<usize>>, g: nat) -> bool {
    exists|k: int|
        0 <= k < parts[(g % parts.len()) as int].len() && #[trigger] parts[(g % parts.len()) as int][k]
            == g
}

/// Whether `parts` deals work units `0..n` round-robin over `parts.len()`
/// partitions: partition `p` holds, in increasing order, exactly the units
/// whose index leaves remainder `p`.
pub open spec fn round_robin(n: nat, parts: Seq<Seq<usize>>) -> bool {
    &&& forall|p: int, k: int|
        0 <= p < parts.len() && 0 <= k < parts[p].len() ==> #[trigger] parts[p][k] == p + k
            * parts.len()
    &&& forall|g: nat| g < n ==> #[trigger] dealt(parts, g)
    &&& forall|p: int, k: int|
        0 <= p < parts.len() && 0 <= k < parts[p].len() ==> #[trigger] parts[p][k] < n
}

proof fn lemma_unique_multiple(l: int, m: int, np: int)
    requires
        np > 0,
        l * np >= m * np,
        l * np < m * np + np,
    ensures
        l == m,
{
    if l > m {
        assert(l * np >= (m + 1) * np) by (nonlinear_arith)
            requires
                l >= m + 1,
                np > 0,
        ;
        assert((m + 1) * np == m * np + np) by (nonlinear_arith);
    } else if l < m {
        assert(l * np <= (m - 1) * np) by (nonlinear_arith)
            requires
                l <= m - 1,
                np > 0,
        ;
        assert((m - 1) * np == m * np - np) by (nonlinear_arith);
    }
}

/// Deals row groups `0..num_row_groups` round-robin over `num_partitions`
/// scans; a partition with no row group has an empty list.
pub fn partition_row_groups(num_row_groups: usize, num_partitions: usize) -> (r: Vec<Vec<usize>>)
    requires
        num_partitions > 0,
    ensures
        r@.len() == num_partitions,
        round_robin(num_row_groups as nat, r@.map_values(|v: Vec<usize>| v@)),
{
    let mut parts: Vec<Vec<usize>> = Vec::new();
    let mut p: usize = 0;
    while p < num_partitions
        invariant
            p <= num_partitions,
            parts@.len() == p,
            forall|q: int| 0 <= q < p ==> (#[trigger] parts@[q])@.len() == 0,
        decreases num_partitions - p,
    {
        parts.push(Vec::new());
        p = p + 1;
    }
    let ghost np = num_partitions as int;
    let mut g: usize = 0;
    while g < num_row_groups
        invariant
            g <= num_row_groups,
            parts@.len() == num_partitions,
            np == num_partitions,
            np > 0,
            forall|q: int, k: int|
                0 <= q < np && 0 <= k < parts@[q]@.len() ==> #[trigger] parts@[q]@[k] == q + k * np,
            forall|q: int| 0 <= q < np ==> (#[trigger] parts@[q])@.len() * np + q >= g,
            forall|q: int| 0 <= q < np ==> (#[trigger] parts@[q])@.len() * np + q < g + np,
        decreases num_row_groups - g,
    {
        let q = g % num_partitions;
        let ghost before = parts@;
        let mut v: Vec<usize> = Vec::new();
        parts.set_and_swap(q, &mut v);
        proof {
            let gi = g as int;
            let qi = q as int;
            let m = gi / np;
            vstd::arithmetic::div_mod::lemma_fundamental_div_mod(gi, np);
            assert(gi == np * m + qi);
            assert(np * m == m * np) by (nonlinear_arith);
            lemma_unique_multiple(v@.len() as int, m, np);
        }
        v.push(g);
        parts.set_and_swap(q, &mut v);
        proof {
            let gi = g as int;
            let qi = q as int;
            assert(parts@[qi]@.len() * np == before[qi]@.len() * np + np) by (nonlinear_arith)
                requires
                    parts@[qi]@.len() == before[qi]@.len() + 1,
            ;
            assert forall|r: int| 0 <= r < np && r != qi implies (#[trigger] parts@[r])@.len() * np + r
                >= gi + 1 by {
                assert(parts@[r] == before[r]);
                if parts@[r]@.len() * np + r == gi {
                    vstd::arithmetic::div_mod::lemma_fundamental_div_mod_converse(
                        gi,
                        np,
                        parts@[r]@.len() as int,
                        r,
                    );
                }
            }
        }
        g = g + 1;
    }
    proof {
        let pv = parts@.map_values(|v: Vec<usize>| v@);
        assert forall|x: nat| x < num_row_groups implies #[trigger] dealt(pv, x) by {
            let q = (x % pv.len()) as int;
            let k = x as int / np;
            vstd::arithmetic::div_mod::lemma_fundamental_div_mod(x as int, np);
            assert(x == np * k + q);
            assert(k * np == np * k) by (nonlinear_arith);
            assert(k < pv[q].len()) by (nonlinear_arith)
                requires
                    pv[q].len() * np + q >= num_row_groups,
                    x == k * np + q,
                    x < num_row_groups,
                    np > 0,
            ;
            assert(pv[q][k] == q + k * np);
        }
        assert forall|q: int, k: int| 0 <= q < pv.len() && 0 <= k < pv[q].len() implies #[trigger] pv[q][k]
            < num_row_groups by {
            assert(pv[q][k] == q + k * np);
            assert(k * np + q < num_row_groups) by (nonlinear_arith)
                requires
                    pv[q].len() * np + q < num_row_groups + np,
                    0 <= k < pv[q].len(),
                    np > 0,
            {
                assert((k + 1) * np <= pv[q].len() * np) by (nonlinear_arith)
                    requires
                        k + 1 <= pv[q].len(),
                        np > 0,
                ;
            }
        }
    }
    parts
}

/// The row groups each of `num_partitions` scans reads: dealt round-robin.
/// With no partitions, a file without row groups has no scans, and one
/// with row groups fails with `InvalidArgument`.
pub fn scan_row_groups(num_row_groups: usize, num_partitions: usize) -> (r: Result<Vec<Vec<usize>>>)
    ensures
        num_partitions > 0 ==> (r matches Ok(p) && p@.len() == num_partitions && round_robin(
            num_row_groups as nat,
            p@.map_values(|v: Vec<usize>| v@),
        )),
        num_partitions == 0 && num_row_groups == 0 ==> (r matches Ok(p) && p@.len() == 0),
        num_partitions == 0 && num_row_groups > 0 ==> (r matches Err(e) && e.kind
            == ErrorKind::InvalidArgument),
{
    if num_partitions == 0 {
        if num_row_groups == 0 {
            return Ok(Vec::new());
        }
        return Err(
            RayexecError::with_kind(ErrorKind::InvalidArgument, "Cannot scan with zero partitions"),
        );
    }
    Ok(partition_row_groups(num_row_groups, num_partitions))
}

/// Every work unit lands in exactly one partition, at exactly one place: the
/// partitions together deal out the whole sequence, each unit once.
pub proof fn lemma_round_robin_exactly_once(n: nat, parts: Seq<Seq<usize>>, g: nat)
    requires
        parts.len() > 0,
        round_robin(n, parts),
        g < n,
    ensures
        exists|p: int, k: int| 0 <= p < parts.len() && 0 <= k < parts[p].len() && parts[p][k] == g,
        forall|pa: int, ka: int, pb: int, kb: int|
            0 <= pa < parts.len() && 0 <= ka < parts[pa].len() && 0 <= pb < parts.len() && 0 <= kb
                < parts[pb].len() && parts[pa][ka] == g && parts[pb][kb] == g ==> pa == pb && ka
                == kb,
{
    let np = parts.len() as int;
    let p = (g % parts.len()) as int;
    assert(dealt(parts, g));
    assert forall|pa: int, ka: int, pb: int, kb: int|
        0 <= pa < parts.len() && 0 <= ka < parts[pa].len() && 0 <= pb < parts.len() && 0 <= kb
            < parts[pb].len() && parts[pa][ka] == g && parts[pb][kb] == g implies pa == pb && ka
            == kb by {
        assert(parts[pa][ka] == pa + ka * np);
        assert(parts[pb][kb] == pb + kb * np);
        vstd::arithmetic::div_mod::lemma_fundamental_div_mod_converse(g as int, np, ka, pa);
        vstd::arithmetic::div_mod::lemma_fundamental_div_mod_converse(g as int, np, kb, pb);
    }
}

/// A named column of a table.
#[derive(Debug, PartialEq, Eq)]
pub struct Field {
    pub name: String,
    pub datatype: DataType,
    pub nullable: bool,
}

/// A table as the catalog describes it.
#[derive(Debug, PartialEq, Eq)]
pub struct TableEntry {
    pub name: String,
    pub columns: Vec<Field>,
}

/// The column type that a Postgres type, given by its OID, is read as.
pub open spec fn pg_oid_datatype(oid: u32) -> Option<DataType> {
    if oid == 16 {
        Some(DataType::Boolean)
    } else if oid == 21 {
        Some(DataType::Int16)
    } else if oid == 23 {
        Some(DataType::Int32)
    } else if oid == 20 {
        Some(DataType::Int64)
    } else if oid == 700 {
        Some(DataType::Float32)
    } else if oid == 701 {
        Some(DataType::Float64)
    } else if oid == 18 || oid == 1042 || oid == 1043 || oid == 25 || oid == 3802 || oid == 114
        || oid == 2950 {
        Some(DataType::Utf8)
    } else if oid == 17 {
        Some(DataType::Binary)
    } else {
        None
    }
}

/// The column type for a Postgres type OID: booleans, 2-, 4- and 8-byte
/// integers, 4- and 8-byte floats, text-like types (char, bpchar, varchar,
/// text, json, jsonb, uuid) as strings and bytea as binary.
pub fn pg_datatype(oid: u32) -> (r: Option<DataType>)
    ensures
        r == pg_oid_datatype(oid),
{
    if oid == 16 {
        Some(DataType::Boolean)
    } else if oid == 21 {
        Some(DataType::Int16)
    } else if oid == 23 {
        Some(DataType::Int32)
    } else if oid == 20 {
        Some(DataType::Int64)
    } else if oid == 700 {
        Some(DataType::Float32)
    } else if oid == 701 {
        Some(DataType::Float64)
    } else if oid == 18 || oid == 1042 || oid == 1043 || oid == 25 || oid == 3802 || oid == 114
        || oid == 2950 {
        Some(DataType::Utf8)
    } else if oid == 17 {
        Some(DataType::Binary)
    } else {
        None
    }
}

/// Fields for the columns of a Postgres table, from their names and type
/// OIDs paired in order; every field is nullable. Fails with `Conversion`
/// at the first type that has no column type.
pub fn fields_from_columns(names: Vec<String>, type_oids: &[u32]) -> (r: Result<Vec<Field>>)
    ensures
        r is Ok <==> forall|i: int|
            0 <= i < names@.len() && i < type_oids@.len() ==> #[trigger] pg_oid_datatype(
                type_oids@[i],
            ) is Some,
        r matches Ok(fields) ==> {
            &&& fields@.len() == if names@.len() < type_oids@.len() {
                names@.len()
            } else {
                type_oids@.len()
            }
            &&& forall|i: int|
                0 <= i < fields@.len() ==> (#[trigger] fields@[i]).name == names@[i]
                    && pg_oid_datatype(type_oids@[i]) == Some(fields@[i].datatype)
                    && fields@[i].nullable
        },
        r matches Err(e) ==> e.kind == ErrorKind::Conversion,
{
    let mut fields: Vec<Field> = Vec::new();
    let mut i: usize = 0;
    while i < names.len() && i < type_oids.len()
        invariant
            i <= type_oids@.len(),
            i <= names@.len(),
            fields@.len() == i,
            forall|k: int| 0 <= k < i ==> #[trigger] pg_oid_datatype(type_oids@[k]) is Some,
            forall|k: int|
                0 <= k < i ==> (#[trigger] fields@[k]).name == names@[k] && pg_oid_datatype(
                    type_oids@[k],
                ) == Some(fields@[k].datatype) && fields@[k].nullable,
        decreases type_oids@.len() - i,
    {
        match pg_datatype(type_oids[i]) {
            Some(dt) => {
                fields.push(Field { name: names[i].clone(), datatype: dt, nullable: true });
            },
            None => {
                proof {
                    assert(!(pg_oid_datatype(type_oids@[i as int]) is Some));
                }
                return Err(
                    RayexecError::with_kind(ErrorKind::Conversion, "Unsupported postgres type"),
                );
            },
        }
        i = i + 1;
    }
    Ok(fields)
}

/// `parts` joined with `sep` between consecutive parts.
pub open spec fn joined(parts: Seq<Seq<char>>, sep: Seq<char>) -> Seq<char>
    decreases parts.len(),
{
    if parts.len() == 0 {
        Seq::empty()
    } else if parts.len() == 1 {
        parts[0]
    } else {
        joined(parts.drop_last(), sep) + sep + parts.last()
    }
}

/// The statement that streams a table's columns in binary COPY format.
pub open spec fn copy_statement(columns: Seq<Seq<char>>, schema: Seq<char>, table: Seq<char>) -> Seq<char> {
    "COPY (SELECT "@ + joined(columns, ", "@) + " FROM "@ + schema + "."@ + table
        + ") TO STDOUT (FORMAT binary)"@
}

/// The source that a scan partition reads.
#[derive(Debug, Clone, Copy, PartialEq, Eq, Structural)]
pub enum ScanSource {
    /// The single stream of the whole table.
    Stream,
    /// Nothing: the scan ends at once.
    Empty,
}

/// A data source reading tables of a Postgres server.
#[derive(Debug, Clone, Copy, PartialEq, Eq)]
pub struct PostgresDataSource;

/// The catalog of one Postgres server.
#[derive(Debug, PartialEq, Eq)]
pub struct PostgresCatalog {
    pub conn_str: String,
}

impl PostgresCatalog {
    pub fn new(conn_str: String) -> (r: PostgresCatalog)
        ensures
            r.conn_str == conn_str,
    {
        PostgresCatalog { conn_str }
    }

    /// The table of the given schema that `ent` describes.
    pub fn data_table(&self, schema: &String, ent: TableEntry) -> (r: PostgresDataTable)
        ensures
            r.conn_str == self.conn_str,
            r.schema == *schema,
            r.ent == ent,
    {
        PostgresDataTable { conn_str: self.conn_str.clone(), schema: schema.clone(), ent }
    }
}

/// One table of a Postgres server.
#[derive(Debug, PartialEq, Eq)]
pub struct PostgresDataTable {
    pub conn_str: String,
    pub schema: String,
    pub ent: TableEntry,
}

impl PostgresDataTable {
    /// The names of the table's columns.
    pub open spec fn column_names(&self) -> Seq<Seq<char>> {
        self.ent.columns@.map_values(|f: Field| f.name@)
    }

    /// The COPY statement that streams all the table's columns.
    pub fn copy_query(&self) -> (r: String)
        ensures
            r@ == copy_statement(self.column_names(), self.schema@, self.ent.name@),
    {
        let mut q = String::from_str("COPY (SELECT ");
        let ghost start = q@;
        let mut i: usize = 0;
        while i < self.ent.columns.len()
            invariant
                i <= self.ent.columns@.len(),
                q@ == start + joined(self.column_names().subrange(0, i as int), ", "@),
            decreases self.ent.columns@.len() - i,
        {
            let ghost before = q@;
            if i > 0 {
                q.append(", ");
            }
            q.append(self.ent.columns[i].name.as_str());
            i = i + 1;
            proof {
                let names = self.column_names();
                assert(names.subrange(0, i as int).drop_last() =~= names.subrange(0, i - 1));
                assert(names[i - 1] == self.ent.columns@[i - 1].name@);
                if i == 1 {
                    assert(joined(names.subrange(0, 0), ", "@) =~= Seq::<char>::empty());
                    assert(q@ =~= start + joined(names.subrange(0, i as int), ", "@));
                } else {
                    assert(q@ =~= start + joined(names.subrange(0, i as int), ", "@));
                }
            }
        }
        proof {
            assert(self.column_names().subrange(0, self.ent.columns@.len() as int)
                =~= self.column_names());
        }
        q.append(" FROM ");
        q.append(self.schema.as_str());
        q.append(".");
        q.append(self.ent.name.as_str());
        q.append(") TO STDOUT (FORMAT binary)");
        proof {
            assert(q@ =~= copy_statement(self.column_names(), self.schema@, self.ent.name@));
        }
        q
    }

    /// What each of `num_partitions` scans reads: the table cannot be split,
    /// so the first scan reads the whole stream and the others nothing.
    /// There is always at least one scan.
    pub fn scan_sources(&self, num_partitions: usize) -> (r: Vec<ScanSource>)
        ensures
            r@.len() == if num_partitions == 0 {
                1
            } else {
                num_partitions as int
            },
            r@[0] == ScanSource::Stream,
            forall|i: int| 1 <= i < r@.len() ==> #[trigger] r@[i] == ScanSource::Empty,
    {
        let mut r: Vec<ScanSource> = Vec::new();
        r.push(ScanSource::Stream);
        let mut i: usize = 1;
        while i < num_partitions
            invariant
                1 <= i,
                i <= num_partitions || num_partitions == 0,
                num_partitions == 0 ==> i == 1,
                r@.len() == i,
                r@[0] == ScanSource::Stream,
                forall|k: int| 1 <= k < r@.len() ==> #[trigger] r@[k] == ScanSource::Empty,
            decreases num_partitions - i,
        {
            r.push(ScanSource::Empty);
            i = i + 1;
        }
        r
    }
}

/// The values of one column of decoded rows; `None` where a row has no value.
#[derive(Debug, PartialEq, Eq)]
pub enum ColumnValues {
    Boolean(Vec<Option<bool>>),
    Int8(Vec<Option<i8>>),
    Int16(Vec<Option<i16>>),
    Int32(Vec<Option<i32>>),
    Int64(Vec<Option<i64>>),
}

/// Whether a row holds a value.
pub open spec fn present<T>(v: Option<T>) -> bool {
    v is Some
}

/// An array of optional values: a missing value is a null row holding
/// `fill`.
pub fn primitive_from_options<T: Copy>(values: &Vec<Option<T>>, fill: T) -> (r: PrimitiveArray<T>)
    ensures
        r.wf(),
        r.values@.len() == values@.len(),
        r.validity matches Some(m) && m@ == values@.map_values(|v: Option<T>| present(v)),
        forall|i: int|
            0 <= i < values@.len() ==> #[trigger] r.values@[i] == match values@[i] {
                Some(x) => x,
                None => fill,
            },
{
    let mut out: Vec<T> = Vec::new();
    let mut mask: Vec<bool> = Vec::new();
    let mut i: usize = 0;
    while i < values.len()
        invariant
            i <= values@.len(),
            out@.len() == i,
            mask@ == values@.subrange(0, i as int).map_values(|v: Option<T>| present(v)),
            forall|k: int|
                0 <= k < i ==> #[trigger] out@[k] == match values@[k] {
                    Some(x) => x,
                    None => fill,
                },
        decreases values@.len() - i,
    {
        match values[i] {
            Some(x) => {
                out.push(x);
                mask.push(true);
            },
            None => {
                out.push(fill);
                mask.push(false);
            },
        }
        i = i + 1;
        proof {
            assert(mask@ =~= values@.subrange(0, i as int).map_values(|v: Option<T>| present(v)));
        }
    }
    proof {
        assert(values@.subrange(0, values@.len() as int) =~= values@);
    }
    PrimitiveArray { values: out, validity: Some(mask) }
}

/// Whether values of a column can be read as type `typ`.
pub open spec fn column_supported(typ: DataType, values: ColumnValues) -> bool {
    match (typ, values) {
        (DataType::Boolean, ColumnValues::Boolean(_)) => true,
        (DataType::Int8, ColumnValues::Int8(_)) => true,
        (DataType::Int16, ColumnValues::Int16(_)) => true,
        (DataType::Int32, ColumnValues::Int32(_)) => true,
        (DataType::Int64, ColumnValues::Int64(_)) => true,
        _ => false,
    }
}

/// The number of rows of a column of values.
pub open spec fn values_len(values: ColumnValues) -> nat {
    match values {
        ColumnValues::Boolean(v) => v@.len(),
        ColumnValues::Int8(v) => v@.len(),
        ColumnValues::Int16(v) => v@.len(),
        ColumnValues::Int32(v) => v@.len(),
        ColumnValues::Int64(v) => v@.len(),
    }
}

/// For each row of a column of values, whether it holds a value.
pub open spec fn values_mask(values: ColumnValues) -> Seq<bool> {
    match values {
        ColumnValues::Boolean(v) => v@.map_values(|x: Option<bool>| present(x)),
        ColumnValues::Int8(v) => v@.map_values(|x: Option<i8>| present(x)),
        ColumnValues::Int16(v) => v@.map_values(|x: Option<i16>| present(x)),
        ColumnValues::Int32(v) => v@.map_values(|x: Option<i32>| present(x)),
        ColumnValues::Int64(v) => v@.map_values(|x: Option<i64>| present(x)),
    }
}

/// Every row of `a` that has a value in `values` holds that value.
pub open spec fn values_hold(a: Array, values: ColumnValues) -> bool {
    match (a, values) {
        (Array::Boolean(p), ColumnValues::Boolean(v)) => forall|i: int|
            0 <= i < v@.len() ==> (#[trigger] v@[i] matches Some(x) ==> p.values@[i] == x),
        (Array::Int8(p), ColumnValues::Int8(v)) => forall|i: int|
            0 <= i < v@.len() ==> (#[trigger] v@[i] matches Some(x) ==> p.values@[i] == x),
        (Array::Int16(p), ColumnValues::Int16(v)) => forall|i: int|
            0 <= i < v@.len() ==> (#[trigger] v@[i] matches Some(x) ==> p.values@[i] == x),
        (Array::Int32(p), ColumnValues::Int32(v)) => forall|i: int|
            0 <= i < v@.len() ==> (#[trigger] v@[i] matches Some(x) ==> p.values@[i] == x),
        (Array::Int64(p), ColumnValues::Int64(v)) => forall|i: int|
            0 <= i < v@.len() ==> (#[trigger] v@[i] matches Some(x) ==> p.values@[i] == x),
        _ => false,
    }
}

/// The array for one column of decoded rows of type `typ`: one row per
/// value, null where the value is missing. Fails with `NotImplemented` for
/// a type that rows are not decoded as, and with `TypeMismatch` when the
/// values are of another type.
pub fn column_array(typ: &DataType, values: &ColumnValues) -> (r: Result<Array>)
    ensures
        r is Ok <==> column_supported(*typ, *values),
        r matches Ok(a) ==> a.wf() && a.spec_datatype() == *typ && a.spec_len() == values_len(
            *values,
        ) && a.spec_validity() == Some(values_mask(*values)) && values_hold(a, *values),
{
    match (typ, values) {
        (DataType::Boolean, ColumnValues::Boolean(v)) => {
            let p = primitive_from_options(v, false);
            Ok(Array::Boolean(BooleanArray { values: p.values, validity: p.validity }))
        },
        (DataType::Int8, ColumnValues::Int8(v)) => Ok(Array::Int8(primitive_from_options(v, 0))),
        (DataType::Int16, ColumnValues::Int16(v)) => Ok(Array::Int16(primitive_from_options(v, 0))),
        (DataType::Int32, ColumnValues::Int32(v)) => Ok(Array::Int32(primitive_from_options(v, 0))),
        (DataType::Int64, ColumnValues::Int64(v)) => Ok(Array::Int64(primitive_from_options(v, 0))),
        (DataType::Boolean, _) | (DataType::Int8, _) | (DataType::Int16, _) | (
            DataType::Int32,
            _,
        ) | (DataType::Int64, _) => Err(
            RayexecError::with_kind(ErrorKind::TypeMismatch, "Column values of another type"),
        ),
        _ => Err(
            RayexecError::with_kind(
                ErrorKind::NotImplemented,
                "Unimplemented data type conversion",
            ),
        ),
    }
}

/// A batch of decoded rows: one array per column type, from the values of
/// that column, null where a value is missing. Succeeds exactly when every
/// column can be read as its type and all columns have as many values.
pub fn rows_to_batch(typs: &[DataType], columns: &Vec<ColumnValues>) -> (r: Result<Batch>)
    requires
        typs@.len() == columns@.len(),
    ensures
        r is Ok <==> (forall|i: int|
            0 <= i < typs@.len() ==> #[trigger] column_supported(typs@[i], columns@[i])) && (forall|
            i: int,
        | 0 <= i < columns@.len() ==> #[trigger] values_len(columns@[i]) == values_len(
            columns@[0],
        )),
        r matches Ok(b) ==> {
            &&& b.wf()
            &&& b.spec_columns().len() == typs@.len()
            &&& typs@.len() > 0 ==> b.spec_num_rows() == values_len(columns@[0])
            &&& forall|i: int|
                0 <= i < typs@.len() ==> (#[trigger] b.spec_columns()[i]).spec_datatype()
                    == typs@[i] && b.spec_columns()[i].spec_validity() == Some(
                    values_mask(columns@[i]),
                ) && values_hold(b.spec_columns()[i], columns@[i])
        },
{
    let mut arrays: Vec<Array> = Vec::new();
    let mut i: usize = 0;
    while i < typs.len()
        invariant
            i <= typs@.len(),
            typs@.len() == columns@.len(),
            arrays@.len() == i,
            forall|k: int| 0 <= k < i ==> #[trigger] column_supported(typs@[k], columns@[k]),
            forall|k: int|
                0 <= k < i ==> (#[trigger] arrays@[k]).wf() && arrays@[k].spec_datatype()
                    == typs@[k] && arrays@[k].spec_len() == values_len(columns@[k])
                    && arrays@[k].spec_validity() == Some(values_mask(columns@[k]))
                    && values_hold(arrays@[k], columns@[k]),
        decreases typs@.len() - i,
    {
        let a = match column_array(&typs[i], &columns[i]) {
            Ok(a) => a,
            Err(e) => {
                proof {
                    assert(!column_supported(typs@[i as int], columns@[i as int]));
                }
                return Err(e);
            },
        };
        arrays.push(a);
        i = i + 1;
    }
    let ghost ar = arrays@;
    let r = Batch::try_new(arrays);
    proof {
        if forall|k: int| 0 <= k < ar.len() ==> (#[trigger] ar[k]).spec_len() == ar[0].spec_len() {
            assert forall|k: int| 0 <= k < columns@.len() implies #[trigger] values_len(columns@[k])
                == values_len(columns@[0]) by {
                assert(ar[k].spec_len() == ar[0].spec_len());
            }
        } else {
            let k = choose|k: int| 0 <= k < ar.len() && !((#[trigger] ar[k]).spec_len() == ar[0].spec_len());
            assert(values_len(columns@[k]) != values_len(columns@[0]));
        }
    }
    r
}

} // verus!
