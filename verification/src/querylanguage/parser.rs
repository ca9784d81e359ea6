//! The parser: from a query string to its syntax tree.

use crate::querylanguage::grammar::{
    chain, comp_type_of, first_fault, joins_of, mod_type_of, parse_spec, state_at, values_of,
    word_and, word_has, word_is, word_or, ParseErrorView, State,
};
use crate::querylanguage::lexer::{lex, tokenize, Lexed};
use crate::querylanguage::syntax::{
    Column, CompType, Comparison, Ident, ModType, Modifier, ModifierView,
};
use crate::text::texts;
use vstd::pervasive::unreached;
use vstd::prelude::*;
use vstd::string::StringExecFns;

verus! {

/// Why a query could not be parsed. Where a token is at fault the error
/// holds it.
#[derive(Debug, Clone, PartialEq, Eq)]
pub enum ParseError {
    /// The token where a column is read names no valid column.
    UnknownColumn(String),
    /// The token where a comparison operator is read is neither `is` nor
    /// `has`.
    UnknownOperator(String),
    /// The token where a connective is read is neither `and` nor `or`.
    UnknownConnective(String),
    /// The input ends where the parser does not read a value, or without a
    /// token to take as the value.
    UnexpectedEndOfInput,
}

impl View for ParseError {
    type V = ParseErrorView;

    open spec fn view(&self) -> ParseErrorView {
        match self {
            ParseError::UnknownColumn(token) => ParseErrorView::UnknownColumn(token@),
            ParseError::UnknownOperator(token) => ParseErrorView::UnknownOperator(token@),
            ParseError::UnknownConnective(token) => ParseErrorView::UnknownConnective(token@),
            ParseError::UnexpectedEndOfInput => ParseErrorView::UnexpectedEndOfInput,
        }
    }
}

/// The reason that a fault gives to the user: which kind of token was
/// expected, and the token that stands in its place.
pub open spec fn reason(fault: ParseErrorView) -> Seq<char> {
    match fault {
        ParseErrorView::UnknownColumn(token) => "expected a column name, found "@ + token,
        ParseErrorView::UnknownOperator(token) =>
            "expected a comparison operator ('is' or 'has'), found "@ + token,
        ParseErrorView::UnknownConnective(token) =>
            "expected a connective ('and' or 'or'), found "@ + token,
        ParseErrorView::UnexpectedEndOfInput => "unexpected end of query, expected a value"@,
    }
}

impl ParseError {
    /// The reason for the fault, for the user to read.
    pub fn message(&self) -> (text: String)
        ensures
            text@ == reason(self@),
    {
        match self {
            ParseError::UnknownColumn(token) => String::from_str(
                "expected a column name, found ",
            ).concat(token.as_str()),
            ParseError::UnknownOperator(token) => String::from_str(
                "expected a comparison operator ('is' or 'has'), found ",
            ).concat(token.as_str()),
            ParseError::UnknownConnective(token) => String::from_str(
                "expected a connective ('and' or 'or'), found ",
            ).concat(token.as_str()),
            ParseError::UnexpectedEndOfInput => String::from_str(
                "unexpected end of query, expected a value",
            ),
        }
    }
}

/// The names in `columns` as a set.
pub open spec fn column_set(columns: Seq<Seq<char>>) -> Set<Seq<char>> {
    Set::new(|name: Seq<char>| columns.contains(name))
}

/// Whether `token` is one of `cols`.
pub fn is_col(cols: &Vec<String>, token: &String) -> (found: bool)
    ensures
        found == texts(cols@).contains(token@),
{
    let mut i: usize = 0;
    while i < cols.len()
        invariant
            i <= cols.len(),
            forall|j: int| 0 <= j < i ==> texts(cols@)[j] != token@,
        decreases cols.len() - i,
    {
        if cols[i] == *token {
            assert(texts(cols@)[i as int] == token@);
            return true;
        }
        i = i + 1;
    }
    false
}

/// Whether `token` is one of `mods`.
pub fn is_mod(mods: &Vec<String>, token: &String) -> (found: bool)
    ensures
        found == texts(mods@).contains(token@),
{
    is_col(mods, token)
}

/// The kind of comparison that `token` is the operator of, if it is one.
pub fn comparison_kind(token: &String) -> (kind: Option<CompType>)
    ensures
        kind == comp_type_of(token@),
{
    proof {
        reveal_strlit("is");
        reveal_strlit("has");
        assert("is"@ =~= word_is());
        assert("has"@ =~= word_has());
    }
    if *token == String::from_str("is") {
        Some(CompType::Equal)
    } else if *token == String::from_str("has") {
        Some(CompType::Contains)
    } else {
        None
    }
}

/// The words that join two comparisons.
pub fn connectives() -> (mods: Vec<String>)
    ensures
        texts(mods@) == seq![word_and(), word_or()],
{
    proof {
        reveal_strlit("and");
        reveal_strlit("or");
        assert("and"@ =~= word_and());
        assert("or"@ =~= word_or());
    }
    let mut mods: Vec<String> = Vec::new();
    mods.push(String::from_str("and"));
    mods.push(String::from_str("or"));
    assert(texts(mods@) =~= seq![word_and(), word_or()]);
    mods
}

/// The connective that `token` is: `Or` for the word `or`, else `And`.
fn connective(token: &String) -> (t: ModType)
    ensures
        t == if token@ == word_or() {
            ModType::Or
        } else {
            ModType::And
        },
{
    proof {
        reveal_strlit("or");
        assert("or"@ =~= word_or());
    }
    if *token == String::from_str("or") {
        ModType::Or
    } else {
        ModType::And
    }
}

/// Builds the chain of the comparisons of `column` and `kind` with each of
/// `values`, joined by `joins`.
fn build_chain(column: &String, kind: CompType, values: Vec<String>, joins: &Vec<ModType>) -> (m:
    Modifier)
    requires
        values.len() == joins.len() + 1,
    ensures
        m@ == chain(column@, kind, texts(values@), joins@, 0),
{
    let ghost all = texts(values@);
    let mut values = values;
    let mut k: usize = values.len() - 1;
    let last = match values.pop() {
        Some(value) => value,
        None => unreached(),
    };
    let mut node = Modifier {
        left: Comparison { ident: Ident { name: last }, col: Column { name: column.clone() }, t: kind },
        right: None,
        t: ModType::And,
    };
    while k > 0
        invariant
            k == values.len(),
            all.len() == joins.len() + 1,
            k < all.len(),
            texts(values@) =~= all.take(k as int),
            node@ == chain(column@, kind, all, joins@, k as int),
        decreases k,
    {
        let value = match values.pop() {
            Some(value) => value,
            None => unreached(),
        };
        k = k - 1;
        proof {
            assert(value@ == all.take(k + 1)[k as int]);
        }
        node = Modifier {
            left: Comparison {
                ident: Ident { name: value },
                col: Column { name: column.clone() },
                t: kind,
            },
            right: Some(Box::new(node)),
            t: joins[k],
        };
    }
    node
}

/// Parses the query `q` into its syntax tree. The names in `columns` are
/// the columns that a query may compare. Either the whole query is
/// well-formed and its tree is returned, or the first fault is.
pub fn parse_query(q: &str, columns: &Vec<String>) -> (result: Result<Modifier, ParseError>)
    ensures
        match result {
            Ok(tree) => parse_spec(q@, column_set(texts(columns@))) == Ok::<ModifierView, ParseErrorView>(
                tree@,
            ),
            Err(fault) => parse_spec(q@, column_set(texts(columns@))) == Err::<
                ModifierView,
                ParseErrorView,
            >(fault@),
        },
{
    let lexed = tokenize(q);
    let Lexed { closed, open } = lexed;
    let mods = connectives();
    let ghost tokens = texts(closed@);
    let ghost valid = column_set(texts(columns@));
    let mut state = State::Start;
    let mut column = String::new();
    let mut kind = CompType::No;
    let mut values: Vec<String> = Vec::new();
    let mut joins: Vec<ModType> = Vec::new();
    let mut i: usize = 0;
    while i < closed.len()
        invariant
            i <= closed.len(),
            tokens == texts(closed@),
            tokens == lex(q@).closed,
            valid == column_set(texts(columns@)),
            texts(mods@) == seq![word_and(), word_or()],
            state == state_at(i as int),
            first_fault(tokens, valid, 0) == first_fault(tokens, valid, i as int),
            i >= 1 ==> column@ == tokens[0],
            i >= 2 ==> comp_type_of(tokens[1]) == Some(kind),
            values.len() == if i >= 1 {
                (i - 1) / 2
            } else {
                0
            },
            joins.len() == if i >= 2 {
                (i - 2) / 2
            } else {
                0
            },
            forall|j: int| 0 <= j < values.len() ==> (#[trigger] values[j])@ == tokens[2 + 2 * j],
            forall|j: int|
                0 <= j < joins.len() ==> mod_type_of(tokens[3 + 2 * j]) == Some(#[trigger] joins[j]),
        decreases closed.len() - i,
    {
        let token = closed[i].clone();
        assert(token@ == tokens[i as int]);
        match state {
            State::Start => {
                if !is_col(columns, &token) {
                    return Err(ParseError::UnknownColumn(token));
                }
                column = token;
                state = State::CompOp;
            },
            State::CompOp => {
                match comparison_kind(&token) {
                    Some(found) => {
                        kind = found;
                        state = State::Value;
                    },
                    None => {
                        return Err(ParseError::UnknownOperator(token));
                    },
                }
            },
            State::Value => {
                values.push(token);
                state = State::Operator;
            },
            State::Operator => {
                if !is_mod(&mods, &token) {
                    assert(texts(mods@)[0] == word_and());
                    assert(texts(mods@)[1] == word_or());
                    return Err(ParseError::UnknownConnective(token));
                }
                assert(word_or() != word_and()) by {
                    assert(word_or().len() != word_and().len());
                }
                joins.push(connective(&token));
                state = State::Value;
            },
        }
        i = i + 1;
    }
    let last = match open {
        Some(last) => last,
        None => {
            return Err(ParseError::UnexpectedEndOfInput);
        },
    };
    if state != State::Value {
        return Err(ParseError::UnexpectedEndOfInput);
    }
    let ghost full = tokens.push(last@);
    values.push(last);
    proof {
        assert(texts(values@) =~= values_of(full));
        assert(joins@ =~= joins_of(full));
    }
    Ok(build_chain(&column, kind, values, &joins))
}

} // verus!
