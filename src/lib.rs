//! The core of a columnar query engine, with its behaviour proved.
//!
//! - [`array`], [`batch`]: typed columns with validity masks, and groups of
//!   equal-length columns.
//! - [`concat`], [`concat_laws`]: concatenation of arrays and batches, and
//!   the laws it obeys.
//! - [`scalar`]: unary kernels over string columns.
//! - [`broadcast`]: the state of a channel that fans batches out to a fixed
//!   set of receivers.
//! - [`datasource`]: how scans split their work into partitions.
//! - [`ast`], [`scope`], [`expr`], [`plan`], [`logical`], [`explain`]: the
//!   planner glue from parsed queries to logical operators.

pub mod array;
pub mod ast;
pub mod batch;
pub mod broadcast;
pub mod concat;
pub mod concat_laws;
pub mod datasource;
pub mod datatype;
pub mod error;
pub mod explain;
pub mod expr;
pub mod inout;
pub mod logical;
pub mod plan;
pub mod scalar;
pub mod scope;
mod text;
pub mod validity;
