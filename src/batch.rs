use vstd::prelude::*;

use crate::array::Array;
use crate::error::{ErrorKind, RayexecError, Result};

verus! {

/// Columns of equal length forming a group of rows, in schema order.
#[derive(Debug)]
pub struct Batch {
    cols: Vec<Array>,
    num_rows: usize,
}

impl Batch {
    /// The columns.
    pub closed spec fn spec_columns(&self) -> Seq<Array> {
        self.cols@
    }

    /// The shared row count.
    pub closed spec fn spec_num_rows(&self) -> nat {
        self.num_rows as nat
    }

    /// Every column is well formed and has the batch's row count.
    pub open spec fn wf(&self) -> bool {
        forall|i: int|
            0 <= i < self.spec_columns().len() ==> (#[trigger] self.spec_columns()[i]).wf()
                && self.spec_columns()[i].spec_len() == self.spec_num_rows()
    }

    /// A batch with no columns and no rows.
    pub fn empty() -> (r: Batch)
        ensures
            r.wf(),
            r.spec_columns().len() == 0,
            r.spec_num_rows() == 0,
    {
        Batch { cols: Vec::new(), num_rows: 0 }
    }

    /// A batch of the given columns; fails with `SchemaMismatch` unless they
    /// all have the same length. Without columns the batch has no rows.
    pub fn try_new(cols: Vec<Array>) -> (r: Result<Batch>)
        requires
            forall|i: int| 0 <= i < cols@.len() ==> (#[trigger] cols@[i]).wf(),
        ensures
            r is Ok <==> forall|i: int|
                0 <= i < cols@.len() ==> (#[trigger] cols@[i]).spec_len() == cols@[0].spec_len(),
            r matches Ok(b) ==> b.wf() && b.spec_columns() == cols@ && b.spec_num_rows() == (
            if cols@.len() == 0 {
                0
            } else {
                cols@[0].spec_len()
            }),
            r matches Err(e) ==> e.kind == ErrorKind::SchemaMismatch,
    {
        if cols.len() == 0 {
            return Ok(Batch { cols, num_rows: 0 });
        }
        let num_rows = cols[0].len();
        let mut i: usize = 1;
        while i < cols.len()
            invariant
                1 <= i <= cols@.len(),
                num_rows == cols@[0].spec_len(),
                forall|k: int| 0 <= k < cols@.len() ==> (#[trigger] cols@[k]).wf(),
                forall|k: int| 0 <= k < i ==> (#[trigger] cols@[k]).spec_len() == num_rows,
            decreases cols@.len() - i,
        {
            if cols[i].len() != num_rows {
                return Err(
                    RayexecError::with_kind(
                        ErrorKind::SchemaMismatch,
                        "Columns in batch have differing lengths",
                    ),
                );
            }
            i = i + 1;
        }
        Ok(Batch { cols, num_rows })
    }

    pub fn num_columns(&self) -> (r: usize)
        ensures
            r == self.spec_columns().len(),
    {
        self.cols.len()
    }

    pub fn num_rows(&self) -> (r: usize)
        ensures
            r == self.spec_num_rows(),
    {
        self.num_rows
    }

    /// The column at `idx`, if there is one.
    pub fn column(&self, idx: usize) -> (r: Option<&Array>)
        ensures
            idx < self.spec_columns().len() ==> r == Some(&self.spec_columns()[idx as int]),
            idx >= self.spec_columns().len() ==> r is None,
    {
        if idx < self.cols.len() {
            Some(&self.cols[idx])
        } else {
            None
        }
    }

    /// The columns, consuming the batch.
    pub fn into_columns(self) -> (r: Vec<Array>)
        ensures
            r@ == self.spec_columns(),
    {
        self.cols
    }
}

} // verus!
