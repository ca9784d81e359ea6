//! The grammar of a query over its tokens, and the tree that a well-formed
//! query stands for.
//!
//! The tokens of a query are read in a fixed order of states: a column, a
//! comparison operator, a value, and then any number of times a connective
//! and a further value. A value after a connective starts a comparison of
//! its own, which takes its column and its kind from the first comparison.
//! Tokens that a space has ended are held to this order one by one; the
//! token that the end of the input has ended must stand where a value is
//! read, and is that value.

use crate::querylanguage::lexer::{lex, pending};
use crate::querylanguage::syntax::{CompType, ComparisonView, ModType, ModifierView};
use vstd::prelude::*;

verus! {

/// What the parser reads next.
#[derive(Debug, Clone, Copy, PartialEq, Eq, Structural)]
pub enum State {
    /// The name of a column, at the start of the query.
    Start,
    /// A comparison operator.
    CompOp,
    /// The literal of a comparison.
    Value,
    /// A connective.
    Operator,
}

/// Why a query is not well-formed, over the characters of the offending
/// token.
pub enum ParseErrorView {
    /// The token where a column is read names no valid column.
    UnknownColumn(Seq<char>),
    /// The token where a comparison operator is read is none.
    UnknownOperator(Seq<char>),
    /// The token where a connective is read is none.
    UnknownConnective(Seq<char>),
    /// The input ends where the parser does not read a value, or without a
    /// token to take as the value.
    UnexpectedEndOfInput,
}

/// The word `is`.
pub open spec fn word_is() -> Seq<char> {
    seq!['i', 's']
}

/// The word `has`.
pub open spec fn word_has() -> Seq<char> {
    seq!['h', 'a', 's']
}

/// The word `and`.
pub open spec fn word_and() -> Seq<char> {
    seq!['a', 'n', 'd']
}

/// The word `or`.
pub open spec fn word_or() -> Seq<char> {
    seq!['o', 'r']
}

/// The kind of comparison that `token` is the operator of, if it is one.
pub open spec fn comp_type_of(token: Seq<char>) -> Option<CompType> {
    if token == word_is() {
        Some(CompType::Equal)
    } else if token == word_has() {
        Some(CompType::Contains)
    } else {
        None
    }
}

/// The connective that `token` is, if it is one.
pub open spec fn mod_type_of(token: Seq<char>) -> Option<ModType> {
    if token == word_and() {
        Some(ModType::And)
    } else if token == word_or() {
        Some(ModType::Or)
    } else {
        None
    }
}

/// The state in which the token at position `i` is read.
pub open spec fn state_at(i: int) -> State {
    if i == 0 {
        State::Start
    } else if i == 1 {
        State::CompOp
    } else if i % 2 == 0 {
        State::Value
    } else {
        State::Operator
    }
}

/// What is wrong with reading `token` in `state`, if anything, given the
/// valid column names `columns`.
pub open spec fn token_fault(state: State, token: Seq<char>, columns: Set<Seq<char>>) -> Option<
    ParseErrorView,
> {
    match state {
        State::Start => if columns.contains(token) {
            None
        } else {
            Some(ParseErrorView::UnknownColumn(token))
        },
        State::CompOp => if comp_type_of(token) is Some {
            None
        } else {
            Some(ParseErrorView::UnknownOperator(token))
        },
        State::Value => None,
        State::Operator => if mod_type_of(token) is Some {
            None
        } else {
            Some(ParseErrorView::UnknownConnective(token))
        },
    }
}

/// The fault of the first token at or after position `from` that has one.
pub open spec fn first_fault(tokens: Seq<Seq<char>>, columns: Set<Seq<char>>, from: int) -> Option<
    ParseErrorView,
>
    decreases tokens.len() - from,
{
    if from < 0 || from >= tokens.len() {
        None
    } else {
        match token_fault(state_at(from), tokens[from], columns) {
            Some(fault) => Some(fault),
            None => first_fault(tokens, columns, from + 1),
        }
    }
}

/// The literals among `tokens`, in order: the tokens at positions 2, 4, 6
/// and so on.
pub open spec fn values_of(tokens: Seq<Seq<char>>) -> Seq<Seq<char>> {
    Seq::new(
        if tokens.len() >= 2 {
            ((tokens.len() - 1) / 2) as nat
        } else {
            0
        },
        |j: int| tokens[2 + 2 * j],
    )
}

/// The connectives among `tokens`, in order: those at positions 3, 5, 7 and
/// so on.
pub open spec fn joins_of(tokens: Seq<Seq<char>>) -> Seq<ModType> {
    Seq::new(
        if tokens.len() >= 3 {
            ((tokens.len() - 3) / 2) as nat
        } else {
            0
        },
        |j: int|
            match mod_type_of(tokens[3 + 2 * j]) {
                Some(t) => t,
                None => ModType::And,
            },
    )
}

/// The chain of the comparisons of column `col` and kind `kind` with the
/// literals `values[k]`, `values[k + 1]` and so on to the last:
/// `joins[j]` joins the comparison with `values[j]` to what follows it.
pub open spec fn chain(
    col: Seq<char>,
    kind: CompType,
    values: Seq<Seq<char>>,
    joins: Seq<ModType>,
    k: int,
) -> ModifierView
    decreases values.len() - k,
{
    let left = ComparisonView { ident: values[k], col: col, t: kind };
    if 0 <= k && k + 1 < values.len() {
        ModifierView {
            left: left,
            right: Some(Box::new(chain(col, kind, values, joins, k + 1))),
            t: joins[k],
        }
    } else {
        ModifierView { left: left, right: None, t: ModType::And }
    }
}

/// The tree that the well-formed token sequence `tokens` stands for.
pub open spec fn tree_of(tokens: Seq<Seq<char>>) -> ModifierView {
    chain(
        tokens[0],
        match comp_type_of(tokens[1]) {
            Some(kind) => kind,
            None => CompType::No,
        },
        values_of(tokens),
        joins_of(tokens),
        0,
    )
}

/// The result of parsing a query whose tokens are `closed`, each ended by a
/// space, and `open`, ended by the end of the input.
pub open spec fn parse_tokens(
    closed: Seq<Seq<char>>,
    open: Option<Seq<char>>,
    columns: Set<Seq<char>>,
) -> Result<ModifierView, ParseErrorView> {
    match first_fault(closed, columns, 0) {
        Some(fault) => Err(fault),
        None => match open {
            Some(last) => if state_at(closed.len() as int) == State::Value {
                Ok(tree_of(closed.push(last)))
            } else {
                Err(ParseErrorView::UnexpectedEndOfInput)
            },
            None => Err(ParseErrorView::UnexpectedEndOfInput),
        },
    }
}

/// The result of parsing the query `q`, given the valid column names
/// `columns`.
pub open spec fn parse_spec(q: Seq<char>, columns: Set<Seq<char>>) -> Result<
    ModifierView,
    ParseErrorView,
> {
    parse_tokens(lex(q).closed, pending(lex(q)), columns)
}

} // verus!
