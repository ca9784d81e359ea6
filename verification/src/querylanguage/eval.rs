//! Evaluation of a query against a row.

use crate::querylanguage::row::TableRow;
use crate::querylanguage::syntax::{CompType, Comparison, ComparisonView, ModType, Modifier, ModifierView};
use vstd::prelude::*;

verus! {

/// Whether `row` satisfies the comparison `c`: the kind is `Equal` and the
/// row's value for the column is the literal, character for character. A
/// comparison of another kind is satisfied by no row.
pub open spec fn comparison_holds(c: ComparisonView, row: Map<Seq<char>, Seq<char>>) -> bool {
    c.t == CompType::Equal && row.contains_key(c.col) && row[c.col] == c.ident
}

/// Whether `row` satisfies the chain `m`. A chain of one comparison is
/// satisfied where the comparison is. A longer chain joined by `And` is
/// satisfied where its first comparison and the rest of the chain both are;
/// one joined by `Or` is satisfied by no row.
pub open spec fn holds(m: ModifierView, row: Map<Seq<char>, Seq<char>>) -> bool
    decreases m,
{
    match m.right {
        None => comparison_holds(m.left, row),
        Some(rest) => match m.t {
            ModType::And => comparison_holds(m.left, row) && holds(*rest, row),
            ModType::Or => false,
        },
    }
}

/// Whether `row` has a value for the column of every comparison of `m`.
pub open spec fn columns_present(m: ModifierView, row: Map<Seq<char>, Seq<char>>) -> bool
    decreases m,
{
    row.contains_key(m.left.col) && match m.right {
        None => true,
        Some(rest) => columns_present(*rest, row),
    }
}

/// Decides whether `row` satisfies the single comparison `comp`.
pub fn perform_comparison(comp: &Comparison, row: &mut TableRow) -> (verdict: bool)
    requires
        old(row)@.contains_key(comp@.col),
    ensures
        verdict == comparison_holds(comp@, old(row)@),
        *final(row) == *old(row),
{
    match comp.t {
        CompType::Equal => {
            let col_value = row.get(&comp.col.name);
            comp.ident.name == col_value
        },
        CompType::Contains => false,
        CompType::No => false,
    }
}

/// Tells whether `row` has every column that `modifier` compares, which is
/// what [`eval`] asks of its caller.
pub fn covers(modifier: &Modifier, row: &TableRow) -> (covered: bool)
    ensures
        covered == columns_present(modifier@, row@),
    decreases modifier,
{
    if !row.contains(&modifier.left.col.name) {
        return false;
    }
    match &modifier.right {
        Some(rest) => covers(rest, row),
        None => true,
    }
}

/// Decides whether `row` satisfies the query `modifier`. The row must have
/// the columns that the query compares; it is left as it was.
pub fn eval(modifier: &Modifier, row: &mut TableRow) -> (verdict: bool)
    requires
        columns_present(modifier@, old(row)@),
    ensures
        verdict == holds(modifier@, old(row)@),
        *final(row) == *old(row),
    decreases modifier,
{
    match &modifier.right {
        Some(rest) => {
            match modifier.t {
                ModType::And => {
                    let first = perform_comparison(&modifier.left, row);
                    let others = eval(rest, row);
                    first && others
                },
                ModType::Or => false,
            }
        },
        None => perform_comparison(&modifier.left, row),
    }
}

} // verus!
