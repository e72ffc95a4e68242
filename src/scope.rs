use vstd::prelude::*;

use crate::error::{ErrorKind, RayexecError, Result};

verus! {

/// A written reference to a table: `[database.][schema.]table`.
#[derive(Debug, PartialEq, Eq)]
pub struct TableReference {
    pub database: Option<String>,
    pub schema: Option<String>,
    pub table: String,
}

/// A copy of an optional string.
pub fn copy_opt_string(s: &Option<String>) -> (r: Option<String>)
    ensures
        r == *s,
{
    match s {
        Some(v) => Some(v.clone()),
        None => None,
    }
}

/// Whether two optional strings are equal.
pub fn opt_string_eq(a: &Option<String>, b: &Option<String>) -> (r: bool)
    ensures
        r == (opt_view(*a) == opt_view(*b)),
{
    match (a, b) {
        (Some(x), Some(y)) => *x == *y,
        (None, None) => true,
        _ => false,
    }
}

/// An optional string as characters.
pub open spec fn opt_view(s: Option<String>) -> Option<Seq<char>> {
    match s {
        Some(v) => Some(v@),
        None => None,
    }
}

impl TableReference {
    pub fn copy(&self) -> (r: TableReference)
        ensures
            r == *self,
    {
        TableReference {
            database: copy_opt_string(&self.database),
            schema: copy_opt_string(&self.schema),
            table: self.table.clone(),
        }
    }

    /// A reference to a table by its bare name.
    pub fn bare(table: String) -> (r: TableReference)
        ensures
            r.database is None,
            r.schema is None,
            r.table == table,
    {
        TableReference { database: None, schema: None, table }
    }
}

/// Whether a column's table reference answers to a written reference: the
/// tables agree, and so does each part that the written reference gives.
pub open spec fn ref_matches(item: TableReference, given: TableReference) -> bool {
    &&& item.table@ == given.table@
    &&& (given.schema is Some ==> opt_view(item.schema) == opt_view(given.schema))
    &&& (given.database is Some ==> opt_view(item.database) == opt_view(given.database))
}

/// One column visible to name resolution.
#[derive(Debug, PartialEq, Eq)]
pub struct ScopeColumn {
    /// The table the column belongs to, if known.
    pub alias: Option<TableReference>,
    pub column: String,
}

impl ScopeColumn {
    pub fn copy(&self) -> (r: ScopeColumn)
        ensures
            r == *self,
    {
        let alias = match &self.alias {
            Some(a) => Some(a.copy()),
            None => None,
        };
        ScopeColumn { alias, column: self.column.clone() }
    }
}

/// Whether column `item` answers to `column`, qualified by `alias` if given.
pub open spec fn item_matches(item: ScopeColumn, alias: Option<TableReference>, column: Seq<char>) -> bool {
    &&& item.column@ == column
    &&& match alias {
        None => true,
        Some(a) => item.alias matches Some(ia) && ref_matches(ia, a),
    }
}

/// Where a column is found in one scope.
pub enum Found {
    Nowhere,
    At(nat),
    /// More than one column answers.
    Ambiguous,
}

/// The result of looking for a column among the first `n` items of a scope.
pub open spec fn scan(items: Seq<ScopeColumn>, alias: Option<TableReference>, column: Seq<char>, n: nat) -> Found
    decreases n,
{
    if n == 0 {
        Found::Nowhere
    } else {
        let prev = scan(items, alias, column, (n - 1) as nat);
        if item_matches(items[n - 1], alias, column) {
            match prev {
                Found::Nowhere => Found::At((n - 1) as nat),
                _ => Found::Ambiguous,
            }
        } else {
            prev
        }
    }
}

proof fn lemma_scan_sticky(items: Seq<ScopeColumn>, alias: Option<TableReference>, column: Seq<char>, n: nat, m: nat)
    requires
        n <= m,
        scan(items, alias, column, n) is Ambiguous,
    ensures
        scan(items, alias, column, m) is Ambiguous,
    decreases m - n,
{
    if n < m {
        lemma_scan_sticky(items, alias, column, n, (m - 1) as nat);
    }
}

/// Where a column is found in a chain of scopes, innermost first.
pub enum Resolved {
    NotFound,
    /// Found at a level of the chain and an index within it.
    Column(nat, nat),
    Ambiguous,
}

/// Looks for a column in the scopes of `levels` from `from` on; the first
/// scope with any answer decides.
pub open spec fn lookup(levels: Seq<Seq<ScopeColumn>>, alias: Option<TableReference>, column: Seq<char>, from: nat) -> Resolved
    decreases levels.len() - from,
{
    if from >= levels.len() {
        Resolved::NotFound
    } else {
        match scan(levels[from as int], alias, column, levels[from as int].len()) {
            Found::At(i) => Resolved::Column(from, i),
            Found::Ambiguous => Resolved::Ambiguous,
            Found::Nowhere => lookup(levels, alias, column, from + 1),
        }
    }
}

/// The level in a chain of scopes and the index within it of a column.
#[derive(Debug, Clone, Copy, PartialEq, Eq, Structural)]
pub struct ColumnRef {
    pub scope_level: usize,
    pub item_idx: usize,
}

/// The columns visible at one point of a query, in order.
#[derive(Debug, PartialEq, Eq)]
pub struct Scope {
    pub items: Vec<ScopeColumn>,
}

/// The items of each scope.
pub open spec fn scope_items(scopes: Seq<Scope>) -> Seq<Seq<ScopeColumn>> {
    scopes.map_values(|s: Scope| s.items@)
}

impl Scope {
    pub fn empty() -> (r: Scope)
        ensures
            r.items@.len() == 0,
    {
        Scope { items: Vec::new() }
    }

    pub fn copy(&self) -> (r: Scope)
        ensures
            r.items@ == self.items@,
    {
        let mut items: Vec<ScopeColumn> = Vec::new();
        let mut i: usize = 0;
        while i < self.items.len()
            invariant
                i <= self.items@.len(),
                items@ == self.items@.subrange(0, i as int),
            decreases self.items@.len() - i,
        {
            items.push(self.items[i].copy());
            i = i + 1;
            proof {
                assert(items@ =~= self.items@.subrange(0, i as int));
            }
        }
        proof {
            assert(self.items@.subrange(0, self.items@.len() as int) =~= self.items@);
        }
        Scope { items }
    }

    /// Appends columns of the given names, all under `alias`.
    pub fn add_columns(&mut self, alias: &Option<TableReference>, names: Vec<String>)
        ensures
            final(self).items@.len() == old(self).items@.len() + names@.len(),
            forall|i: int|
                0 <= i < old(self).items@.len() ==> final(self).items@[i] == old(self).items@[i],
            forall|i: int|
                0 <= i < names@.len() ==> #[trigger] final(self).items@[old(self).items@.len() + i]
                    == (ScopeColumn { alias: *alias, column: names@[i] }),
    {
        let ghost start = self.items@;
        let mut i: usize = 0;
        while i < names.len()
            invariant
                i <= names@.len(),
                self.items@.len() == start.len() + i,
                forall|k: int| 0 <= k < start.len() ==> self.items@[k] == start[k],
                forall|k: int|
                    0 <= k < i ==> #[trigger] self.items@[start.len() + k] == (ScopeColumn {
                        alias: *alias,
                        column: names@[k],
                    }),
            decreases names@.len() - i,
        {
            let a = match alias {
                Some(r) => Some(r.copy()),
                None => None,
            };
            self.items.push(ScopeColumn { alias: a, column: names[i].clone() });
            i = i + 1;
        }
    }

    /// A scope of columns of the given names, all under `alias`.
    pub fn with_columns(alias: Option<TableReference>, names: Vec<String>) -> (r: Scope)
        ensures
            r.items@.len() == names@.len(),
            forall|i: int|
                0 <= i < names@.len() ==> #[trigger] r.items@[i] == (ScopeColumn {
                    alias,
                    column: names@[i],
                }),
    {
        let mut s = Scope::empty();
        s.add_columns(&alias, names);
        proof {
            assert forall|i: int| 0 <= i < names@.len() implies #[trigger] s.items@[i] == (ScopeColumn {
                alias,
                column: names@[i],
            }) by {
                assert(s.items@[0 + i] == s.items@[i]);
            }
        }
        s
    }

    /// The index of the column that answers to `column`, qualified by
    /// `alias` if given; fails with `Lookup` when several answer.
    pub fn column_index(&self, alias: Option<&TableReference>, column: &String) -> (r: Result<
        Option<usize>,
    >)
        ensures
            match scan(self.items@, opt_ref(alias), column@, self.items@.len()) {
                Found::Nowhere => r == Ok::<Option<usize>, RayexecError>(None),
                Found::At(i) => r == Ok::<Option<usize>, RayexecError>(Some(i as usize)),
                Found::Ambiguous => r matches Err(e) && e.kind == ErrorKind::Lookup,
            },
    {
        let mut found: Option<usize> = None;
        let mut i: usize = 0;
        while i < self.items.len()
            invariant
                i <= self.items@.len(),
                match scan(self.items@, opt_ref(alias), column@, i as nat) {
                    Found::Nowhere => found is None,
                    Found::At(k) => found == Some(k as usize),
                    Found::Ambiguous => false,
                },
            decreases self.items@.len() - i,
        {
            let item = &self.items[i];
            let mut hit = item.column == *column;
            if hit {
                match alias {
                    Some(a) => {
                        match &item.alias {
                            Some(ia) => {
                                hit = ia.table == a.table;
                                if a.schema.is_some() && !opt_string_eq(&ia.schema, &a.schema) {
                                    hit = false;
                                }
                                if a.database.is_some() && !opt_string_eq(&ia.database, &a.database) {
                                    hit = false;
                                }
                            },
                            None => {
                                hit = false;
                            },
                        }
                    },
                    None => {},
                }
            }
            proof {
                assert(hit == item_matches(self.items@[i as int], opt_ref(alias), column@));
            }
            if hit {
                if found.is_some() {
                    proof {
                        lemma_scan_sticky(
                            self.items@,
                            opt_ref(alias),
                            column@,
                            (i + 1) as nat,
                            self.items@.len(),
                        );
                    }
                    return Err(RayexecError::with_kind(ErrorKind::Lookup, "Ambiguous column name"));
                }
                found = Some(i);
            }
            i = i + 1;
        }
        Ok(found)
    }

    /// Resolves a column in this scope, then in each outer scope in order;
    /// the level of the result counts this scope as 0.
    pub fn resolve_column(&self, outer: &[Scope], alias: Option<&TableReference>, column: &String) -> (r:
        Result<Option<ColumnRef>>)
        ensures
            match lookup(
                seq![self.items@] + scope_items(outer@),
                opt_ref(alias),
                column@,
                0,
            ) {
                Resolved::NotFound => r == Ok::<Option<ColumnRef>, RayexecError>(None),
                Resolved::Column(l, i) => r == Ok::<Option<ColumnRef>, RayexecError>(
                    Some(ColumnRef { scope_level: l as usize, item_idx: i as usize }),
                ),
                Resolved::Ambiguous => r matches Err(e) && e.kind == ErrorKind::Lookup,
            },
    {
        let ghost levels = seq![self.items@] + scope_items(outer@);
        proof {
            assert(levels[0] == self.items@);
        }
        match self.column_index(alias, column)? {
            Some(idx) => {
                return Ok(Some(ColumnRef { scope_level: 0, item_idx: idx }));
            },
            None => {},
        }
        let mut l: usize = 0;
        while l < outer.len()
            invariant
                l <= outer@.len(),
                levels == seq![self.items@] + scope_items(outer@),
                lookup(levels, opt_ref(alias), column@, 0) == lookup(
                    levels,
                    opt_ref(alias),
                    column@,
                    l as nat + 1,
                ),
            decreases outer@.len() - l,
        {
            proof {
                assert(levels[l + 1] == outer@[l as int].items@);
            }
            match outer[l].column_index(alias, column)? {
                Some(idx) => {
                    return Ok(Some(ColumnRef { scope_level: l + 1, item_idx: idx }));
                },
                None => {},
            }
            l = l + 1;
        }
        Ok(None)
    }
}

/// An optional borrowed reference as a value.
pub open spec fn opt_ref(alias: Option<&TableReference>) -> Option<TableReference> {
    match alias {
        Some(a) => Some(*a),
        None => None,
    }
}

} // verus!
