//! A row of named string columns: what a query is evaluated against.

use vstd::hash_map::StringHashMap;
use vstd::pervasive::unreached;
use vstd::prelude::*;

verus! {

/// One catalog entry projected into queryable form: a finite map from column
/// name to value. Its view is that map, over the characters of both strings.
pub struct TableRow {
    values: StringHashMap<String>,
}

impl View for TableRow {
    type V = Map<Seq<char>, Seq<char>>;

    closed spec fn view(&self) -> Map<Seq<char>, Seq<char>> {
        self.values@.map_values(|v: String| v@)
    }
}

impl TableRow {
    /// The row without any column.
    pub fn new() -> (row: TableRow)
        ensures
            row@ == Map::<Seq<char>, Seq<char>>::empty(),
    {
        let row = TableRow { values: StringHashMap::new() };
        assert(row@ =~= Map::<Seq<char>, Seq<char>>::empty());
        row
    }

    /// Whether the row has a value for `column`.
    pub fn contains(&self, column: &String) -> (present: bool)
        ensures
            present == self@.contains_key(column@),
    {
        self.values.contains_key(column.as_str())
    }

    /// The value stored for `column`. Asking for a column that the row lacks
    /// is a mistake of the caller, ruled out by the precondition.
    pub fn get(&mut self, column: &String) -> (value: String)
        requires
            old(self)@.contains_key(column@),
        ensures
            value@ == old(self)@[column@],
            *final(self) == *old(self),
    {
        match self.values.get(column.as_str()) {
            Some(x) => x.clone(),
            None => unreached(),
        }
    }

    /// Stores `value` for `column`, replacing what was stored for it before.
    pub fn insert(&mut self, column: &String, value: &String)
        ensures
            final(self)@ == old(self)@.insert(column@, value@),
    {
        self.values.insert(column.clone(), value.clone());
        assert(self@ =~= old(self)@.insert(column@, value@));
    }
}

/// The rows of a catalog, in the order in which they are listed.
pub struct TableRows {
    pub rows: Vec<TableRow>,
}

} // verus!
