//! The syntax tree of a query and its mathematical model.

use vstd::prelude::*;

verus! {

/// How a comparison relates the value of a column to its literal.
#[derive(Debug, Clone, Copy, PartialEq, Eq, Structural)]
pub enum CompType {
    /// The value is the literal, character for character.
    Equal,
    /// Written `has`. It is part of the grammar; no row satisfies it yet.
    Contains,
    /// The kind of a comparison that no operator has been read for.
    No,
}

/// How two neighbouring comparisons of a chain are joined.
#[derive(Debug, Clone, Copy, PartialEq, Eq, Structural)]
pub enum ModType {
    And,
    /// Written `or`. It is part of the grammar; no row satisfies a chain that
    /// is joined by it.
    Or,
}

/// The literal that a column is compared with.
#[derive(Debug, Clone, PartialEq, Eq)]
pub struct Ident {
    pub name: String,
}

/// A named column of a row.
#[derive(Debug, Clone, PartialEq, Eq)]
pub struct Column {
    pub name: String,
}

/// A single predicate: the value of column `col` compared with `ident` in the
/// way that `t` says.
#[derive(Debug, Clone, PartialEq, Eq)]
pub struct Comparison {
    pub ident: Ident,
    pub col: Column,
    pub t: CompType,
}

/// The model of a [`Comparison`]: its strings as sequences of characters.
pub struct ComparisonView {
    pub ident: Seq<char>,
    pub col: Seq<char>,
    pub t: CompType,
}

impl View for Comparison {
    type V = ComparisonView;

    open spec fn view(&self) -> ComparisonView {
        ComparisonView { ident: self.ident.name@, col: self.col.name@, t: self.t }
    }
}

/// A query: the comparison `left`, followed, if `right` is there, by the rest
/// of the chain, to which `t` joins it. Where `right` is absent `t` has no
/// meaning.
#[derive(Debug, PartialEq, Eq)]
pub struct Modifier {
    pub left: Comparison,
    pub right: Option<Box<Modifier>>,
    pub t: ModType,
}

/// The model of a [`Modifier`]: the same chain over [`ComparisonView`].
pub struct ModifierView {
    pub left: ComparisonView,
    pub right: Option<Box<ModifierView>>,
    pub t: ModType,
}

impl Modifier {
    /// The chain as a value of the model, node for node.
    pub open spec fn model(&self) -> ModifierView
        decreases self,
    {
        ModifierView {
            left: self.left@,
            right: match self.right {
                Some(rest) => Some(Box::new(rest.model())),
                None => None,
            },
            t: self.t,
        }
    }
}

impl View for Modifier {
    type V = ModifierView;

    open spec fn view(&self) -> ModifierView {
        self.model()
    }
}

impl Default for Comparison {
    /// The comparison that nothing has been read for: no kind, and both
    /// strings empty.
    fn default() -> (c: Comparison)
        ensures
            c@ == (ComparisonView { ident: Seq::<char>::empty(), col: Seq::<char>::empty(), t: CompType::No }),
    {
        Comparison {
            t: CompType::No,
            col: Column { name: String::new() },
            ident: Ident { name: String::new() },
        }
    }
}

impl Default for Modifier {
    /// The chain of one default comparison.
    fn default() -> (m: Modifier)
        ensures
            m@ == (ModifierView {
                left: (ComparisonView { ident: Seq::<char>::empty(), col: Seq::<char>::empty(), t: CompType::No }),
                right: None,
                t: ModType::And,
            }),
    {
        Modifier { left: Comparison::default(), right: None, t: ModType::And }
    }
}

impl Modifier {
    /// The chain that starts with `left` and goes on with `right`.
    pub fn new(left: Comparison, right: Option<Modifier>, t: ModType) -> (m: Modifier)
        ensures
            m@ == (ModifierView {
                left: left@,
                right: match right {
                    Some(rest) => Some(Box::new(rest@)),
                    None => None,
                },
                t: t,
            }),
    {
        match right {
            Some(rest) => Modifier { left: left, right: Some(Box::new(rest)), t: t },
            None => Modifier { left: left, right: None, t: t },
        }
    }
}

} // verus!
