use vstd::prelude::*;
use vstd::string::*;

use crate::logical::LogicalExpression;
use crate::text::{decimal, decimal_string};

verus! {

/// How much an explanation shows.
#[derive(Debug, Clone, Copy, PartialEq, Eq, Structural)]
pub struct ExplainConfig {
    pub verbose: bool,
}

/// A value shown in an explanation.
#[derive(Debug, PartialEq, Eq)]
pub enum ExplainValue {
    Value(String),
    Values(Vec<String>),
}

/// The explanation of one operator: its name and named values.
#[derive(Debug, PartialEq, Eq)]
pub struct ExplainEntry {
    pub name: String,
    pub items: Vec<(String, ExplainValue)>,
}

impl ExplainEntry {
    pub fn new(name: &str) -> (r: ExplainEntry)
        ensures
            r.name@ == name@,
            r.items@.len() == 0,
    {
        ExplainEntry { name: String::from_str(name), items: Vec::new() }
    }

    /// Adds a named value.
    pub fn with_value(self, key: &str, value: String) -> (r: ExplainEntry)
        ensures
            r.name == self.name,
            r.items@.len() == self.items@.len() + 1,
            forall|i: int| 0 <= i < self.items@.len() ==> r.items@[i] == self.items@[i],
            r.items@.last().0@ == key@,
            r.items@.last().1 == ExplainValue::Value(value),
    {
        let mut e = self;
        e.items.push((String::from_str(key), ExplainValue::Value(value)));
        e
    }

    /// Adds a named list of values.
    pub fn with_values(self, key: &str, values: Vec<String>) -> (r: ExplainEntry)
        ensures
            r.name == self.name,
            r.items@.len() == self.items@.len() + 1,
            forall|i: int| 0 <= i < self.items@.len() ==> r.items@[i] == self.items@[i],
            r.items@.last().0@ == key@,
            r.items@.last().1 == ExplainValue::Values(values),
    {
        let mut e = self;
        e.items.push((String::from_str(key), ExplainValue::Values(values)));
        e
    }
}

/// A table produced by an operator, by its index in the bind context.
#[derive(Debug, Clone, Copy, PartialEq, Eq, Structural)]
pub struct TableRef {
    pub table_idx: usize,
}

/// A materialization, by its index in the bind context.
#[derive(Debug, Clone, Copy, PartialEq, Eq, Structural)]
pub struct MaterializationRef {
    pub materialization_idx: usize,
}

/// How a reference is shown: `#` and its index.
pub open spec fn ref_text(idx: nat) -> Seq<char> {
    "#"@ + decimal(idx)
}

fn ref_string(idx: usize) -> (r: String)
    ensures
        r@ == ref_text(idx as nat),
{
    let mut s = String::from_str("#");
    let d = decimal_string(idx);
    s.append(d.as_str());
    s
}

fn table_ref_strings(refs: &Vec<TableRef>) -> (r: Vec<String>)
    ensures
        r@.len() == refs@.len(),
        forall|i: int| 0 <= i < r@.len() ==> (#[trigger] r@[i])@ == ref_text(refs@[i].table_idx as nat),
{
    let mut out: Vec<String> = Vec::new();
    let mut i: usize = 0;
    while i < refs.len()
        invariant
            i <= refs@.len(),
            out@.len() == i,
            forall|k: int| 0 <= k < i ==> (#[trigger] out@[k])@ == ref_text(refs@[k].table_idx as nat),
        decreases refs@.len() - i,
    {
        out.push(ref_string(refs[i].table_idx));
        i = i + 1;
    }
    out
}

/// What a DROP removes.
#[derive(Debug, PartialEq, Eq)]
pub struct DropInfo {
    pub schema: String,
    pub name: String,
    pub if_exists: bool,
}

/// Drops an object of a catalog.
#[derive(Debug, PartialEq, Eq)]
pub struct LogicalDrop {
    pub catalog: String,
    pub info: DropInfo,
}

impl LogicalDrop {
    pub fn explain_entry(&self, _conf: ExplainConfig) -> (r: ExplainEntry)
        ensures
            r.name@ == "Drop"@,
            r.items@.len() == 0,
    {
        ExplainEntry::new("Drop")
    }

    /// A drop produces no table.
    pub fn get_output_table_refs(&self) -> (r: Vec<TableRef>)
        ensures
            r@.len() == 0,
    {
        Vec::new()
    }
}

/// Scans a materialized result.
#[derive(Debug, PartialEq, Eq)]
pub struct LogicalMaterializationScan {
    /// Reference to the materialization in the bind context.
    pub mat: MaterializationRef,
    /// Table references of the output of the materialization.
    pub table_refs: Vec<TableRef>,
}

impl LogicalMaterializationScan {
    /// Shows the materialization, and in verbose mode the output tables.
    pub fn explain_entry(&self, conf: ExplainConfig) -> (r: ExplainEntry)
        ensures
            r.name@ == "MaterializationScan"@,
            r.items@.len() == if conf.verbose {
                2int
            } else {
                1int
            },
            r.items@[0].0@ == "materialization_ref"@,
            r.items@[0].1 matches ExplainValue::Value(v) && v@ == ref_text(
                self.mat.materialization_idx as nat,
            ),
            conf.verbose ==> r.items@[1].0@ == "table_refs"@,
    {
        let ent = ExplainEntry::new("MaterializationScan").with_value(
            "materialization_ref",
            ref_string(self.mat.materialization_idx),
        );
        if conf.verbose {
            ent.with_values("table_refs", table_ref_strings(&self.table_refs))
        } else {
            ent
        }
    }

    pub fn get_output_table_refs(&self) -> (r: Vec<TableRef>)
        ensures
            r@ == self.table_refs@,
    {
        let mut out: Vec<TableRef> = Vec::new();
        let mut i: usize = 0;
        while i < self.table_refs.len()
            invariant
                i <= self.table_refs@.len(),
                out@ == self.table_refs@.subrange(0, i as int),
            decreases self.table_refs@.len() - i,
        {
            out.push(self.table_refs[i]);
            i = i + 1;
            proof {
                assert(out@ =~= self.table_refs@.subrange(0, i as int));
            }
        }
        proof {
            assert(self.table_refs@.subrange(0, self.table_refs@.len() as int) =~= self.table_refs@);
        }
        out
    }
}

/// A materialized scan that projects out of the materialization and removes
/// duplicates; it exposes a table of its own.
#[derive(Debug, PartialEq, Eq)]
pub struct LogicalMagicMaterializationScan {
    /// Reference to the materialization in the bind context.
    pub mat: MaterializationRef,
    /// Projections out of the materialization scan.
    pub projections: Vec<LogicalExpression>,
    /// The table ref for this scan.
    pub table_ref: TableRef,
}

impl LogicalMagicMaterializationScan {
    /// Shows the materialization and the number of projections, and in
    /// verbose mode the table this scan exposes.
    pub fn explain_entry(&self, conf: ExplainConfig) -> (r: ExplainEntry)
        ensures
            r.name@ == "MagicMaterializationScan"@,
            r.items@.len() == if conf.verbose {
                3int
            } else {
                2int
            },
            r.items@[0].1 matches ExplainValue::Value(v) && v@ == ref_text(
                self.mat.materialization_idx as nat,
            ),
            r.items@[1].1 matches ExplainValue::Value(v) && v@ == decimal(
                self.projections@.len(),
            ),
            conf.verbose ==> (r.items@[2].1 matches ExplainValue::Value(v) && v@ == ref_text(
                self.table_ref.table_idx as nat,
            )),
    {
        let ent = ExplainEntry::new("MagicMaterializationScan").with_value(
            "materialization_ref",
            ref_string(self.mat.materialization_idx),
        ).with_value("projections", decimal_string(self.projections.len()));
        if conf.verbose {
            ent.with_value("table_ref", ref_string(self.table_ref.table_idx))
        } else {
            ent
        }
    }

    pub fn get_output_table_refs(&self) -> (r: Vec<TableRef>)
        ensures
            r@ == seq![self.table_ref],
    {
        let mut out: Vec<TableRef> = Vec::new();
        out.push(self.table_ref);
        proof {
            assert(out@ =~= seq![self.table_ref]);
        }
        out
    }
}

} // verus!
