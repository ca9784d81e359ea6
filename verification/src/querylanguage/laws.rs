//! What holds of parsing and evaluation together.

use crate::querylanguage::eval::{columns_present, holds};
use crate::querylanguage::grammar::{
    chain, comp_type_of, first_fault, joins_of, parse_spec, state_at, token_fault, tree_of,
    values_of, word_and, word_has, word_is, word_or, ParseErrorView, State,
};
use crate::querylanguage::lexer::{lex, lex_from, lex_start, pending, LexState};
use crate::querylanguage::syntax::{CompType, ModType, ModifierView};
use vstd::prelude::*;

verus! {

/// A word that the lexer reads as one token and leaves as it is: it is not
/// empty and holds neither a space nor a double quote.
pub open spec fn plain_word(w: Seq<char>) -> bool {
    &&& w.len() > 0
    &&& forall|i: int| 0 <= i < w.len() ==> w[i] != ' ' && w[i] != '"'
}

/// A single space.
pub open spec fn space() -> Seq<char> {
    seq![' ']
}

/// The query `<col> is <value>`.
pub open spec fn equality_query(col: Seq<char>, value: Seq<char>) -> Seq<char> {
    col + space() + word_is() + space() + value
}

/// The query `<col> is <v0> and <v1> and ...` with all of `values`.
pub open spec fn conjunction_query(col: Seq<char>, values: Seq<Seq<char>>) -> Seq<char>
    decreases values.len(),
{
    if values.len() <= 1 {
        equality_query(col, values[0])
    } else {
        conjunction_query(col, values.drop_last()) + space() + word_and() + space() + values.last()
    }
}

/// Whether every comparison of `m` is of column `col`.
pub open spec fn compares_column(m: ModifierView, col: Seq<char>) -> bool
    decreases m,
{
    m.left.col == col && match m.right {
        Some(rest) => compares_column(*rest, col),
        None => true,
    }
}

/// Reading `a` and then `b` is reading `a + b`.
pub proof fn lemma_lex_from_append(s: LexState, a: Seq<char>, b: Seq<char>)
    ensures
        lex_from(s, a + b) == lex_from(lex_from(s, a), b),
    decreases b.len(),
{
    if b.len() == 0 {
        assert(a + b =~= a);
    } else {
        assert((a + b).drop_last() =~= a + b.drop_last());
        assert((a + b).last() == b.last());
        lemma_lex_from_append(s, a, b.drop_last());
    }
}

/// Outside a quoted span, reading a plain word adds it to the open token.
pub proof fn lemma_lex_word(s: LexState, w: Seq<char>)
    requires
        !s.quoted,
        plain_word(w),
    ensures
        lex_from(s, w) == (LexState { current: s.current + w, started: true, ..s }),
    decreases w.len(),
{
    if w.len() == 1 {
        assert(w.drop_last().len() == 0);
        assert(lex_from(s, w.drop_last()) == s);
        assert(s.current.push(w.last()) =~= s.current + w);
    } else {
        let front = w.drop_last();
        assert(plain_word(front));
        lemma_lex_word(s, front);
        assert((s.current + front).push(w.last()) =~= s.current + w);
    }
}

/// Outside a quoted span, reading a space ends the open token.
pub proof fn lemma_lex_space(s: LexState)
    requires
        !s.quoted,
        s.started,
    ensures
        lex_from(s, space()) == (LexState {
            closed: s.closed.push(s.current),
            current: Seq::empty(),
            started: false,
            quoted: false,
        }),
{
    assert(space().drop_last().len() == 0);
    assert(lex_from(s, space().drop_last()) == s);
    assert(space().last() == ' ');
}

/// After a separator, reading a plain word and a space closes that word as
/// a token.
pub proof fn lemma_lex_word_space(s: LexState, w: Seq<char>)
    requires
        !s.quoted,
        !s.started,
        s.current.len() == 0,
        plain_word(w),
    ensures
        lex_from(s, w + space()) == (LexState {
            closed: s.closed.push(w),
            current: Seq::empty(),
            started: false,
            quoted: false,
        }),
{
    lemma_lex_from_append(s, w, space());
    lemma_lex_word(s, w);
    lemma_lex_space(lex_from(s, w));
    assert(s.current + w =~= w);
}

/// The words of the grammar are plain words.
pub proof fn lemma_keywords_plain()
    ensures
        plain_word(word_is()),
        plain_word(word_has()),
        plain_word(word_and()),
        plain_word(word_or()),
{
}

/// The tokens that a space ends in the query `<col> is <v0> and <v1> and ...`:
/// all but the last of `values`, with the words between them.
pub open spec fn conjunction_closed(col: Seq<char>, values: Seq<Seq<char>>) -> Seq<Seq<char>> {
    Seq::new(
        2 * values.len(),
        |i: int|
            if i == 0 {
                col
            } else if i == 1 {
                word_is()
            } else if i % 2 == 0 {
                values[(i - 2) / 2]
            } else {
                word_and()
            },
    )
}

/// How the lexer reads the query `<col> is <v0> and <v1> and ...`.
pub proof fn lemma_lex_conjunction(col: Seq<char>, values: Seq<Seq<char>>)
    requires
        plain_word(col),
        values.len() >= 1,
        forall|i: int| 0 <= i < values.len() ==> plain_word(#[trigger] values[i]),
    ensures
        lex(conjunction_query(col, values)) == (LexState {
            closed: conjunction_closed(col, values),
            current: values.last(),
            started: true,
            quoted: false,
        }),
    decreases values.len(),
{
    lemma_keywords_plain();
    if values.len() == 1 {
        let head = col + space();
        let op = word_is() + space();
        let value = values[0];
        assert(conjunction_query(col, values) =~= (head + op) + value);
        lemma_lex_from_append(lex_start(), head + op, value);
        lemma_lex_from_append(lex_start(), head, op);
        lemma_lex_word_space(lex_start(), col);
        let after_col = lex_from(lex_start(), head);
        lemma_lex_word_space(after_col, word_is());
        let after_op = lex_from(after_col, op);
        lemma_lex_word(after_op, value);
        assert(after_op.current + value =~= value);
        assert(after_op.closed =~= conjunction_closed(col, values));
    } else {
        let front = values.drop_last();
        let value = values.last();
        let before = conjunction_query(col, front);
        let op = word_and() + space();
        assert(forall|i: int| 0 <= i < front.len() ==> plain_word(#[trigger] front[i])) by {
            assert(forall|i: int| 0 <= i < front.len() ==> front[i] == values[i]);
        }
        lemma_lex_conjunction(col, front);
        assert(conjunction_query(col, values) =~= ((before + space()) + op) + value);
        lemma_lex_from_append(lex_start(), (before + space()) + op, value);
        lemma_lex_from_append(lex_start(), before + space(), op);
        lemma_lex_from_append(lex_start(), before, space());
        let read = lex(before);
        lemma_lex_space(read);
        let after_space = lex_from(read, space());
        lemma_lex_word_space(after_space, word_and());
        let after_op = lex_from(after_space, op);
        lemma_lex_word(after_op, value);
        assert(after_op.current + value =~= value);
        assert(after_op.closed =~= conjunction_closed(col, values));
    }
}

/// Where no token from position `from` on has a fault, there is no first
/// fault from there.
pub proof fn lemma_no_fault(tokens: Seq<Seq<char>>, columns: Set<Seq<char>>, from: int)
    requires
        0 <= from,
        forall|i: int|
            from <= i < tokens.len() ==> token_fault(state_at(i), #[trigger] tokens[i], columns)
                is None,
    ensures
        first_fault(tokens, columns, from) is None,
    decreases tokens.len() - from,
{
    if from < tokens.len() {
        lemma_no_fault(tokens, columns, from + 1);
    }
}

/// Where there is no fault from position `from` on, no token from there on
/// has one.
pub proof fn lemma_fault_free(tokens: Seq<Seq<char>>, columns: Set<Seq<char>>, from: int, i: int)
    requires
        0 <= from <= i < tokens.len(),
        first_fault(tokens, columns, from) is None,
    ensures
        token_fault(state_at(i), tokens[i], columns) is None,
    decreases i - from,
{
    if from < i {
        lemma_fault_free(tokens, columns, from + 1, i);
    }
}

/// A row satisfies a chain exactly if the kind of its comparisons is
/// `Equal`, every connective from `k` on is `And`, and the row's value for
/// the column is every one of the literals from `k` on.
pub proof fn law_chain_holds(
    col: Seq<char>,
    kind: CompType,
    values: Seq<Seq<char>>,
    joins: Seq<ModType>,
    k: int,
    row: Map<Seq<char>, Seq<char>>,
)
    requires
        0 <= k < values.len(),
        joins.len() + 1 == values.len(),
    ensures
        holds(chain(col, kind, values, joins, k), row) <==> {
            &&& kind == CompType::Equal
            &&& row.contains_key(col)
            &&& forall|j: int| k <= j < joins.len() ==> joins[j] == ModType::And
            &&& forall|j: int| k <= j < values.len() ==> row[col] == values[j]
        },
    decreases values.len() - k,
{
    if k + 1 < values.len() {
        law_chain_holds(col, kind, values, joins, k + 1, row);
    }
}

/// Every comparison of a chain is of the chain's column.
pub proof fn lemma_chain_compares_column(
    col: Seq<char>,
    kind: CompType,
    values: Seq<Seq<char>>,
    joins: Seq<ModType>,
    k: int,
)
    ensures
        compares_column(chain(col, kind, values, joins, k), col),
    decreases values.len() - k,
{
    if 0 <= k && k + 1 < values.len() {
        lemma_chain_compares_column(col, kind, values, joins, k + 1);
    }
}

/// Every comparison of a parsed tree is of one column, the one that the
/// query names first, and that column is one of the valid ones.
pub proof fn law_parsed_tree_compares_valid_column(q: Seq<char>, columns: Set<Seq<char>>)
    ensures
        match parse_spec(q, columns) {
            Ok(tree) => columns.contains(tree.left.col) && compares_column(tree, tree.left.col),
            Err(_) => true,
        },
{
    let closed = lex(q).closed;
    if let Ok(tree) = parse_spec(q, columns) {
        let tokens = closed.push(pending(lex(q))->Some_0);
        lemma_fault_free(closed, columns, 0, 0);
        lemma_chain_compares_column(
            tokens[0],
            match comp_type_of(tokens[1]) {
                Some(kind) => kind,
                None => CompType::No,
            },
            values_of(tokens),
            joins_of(tokens),
            0,
        );
    }
}

/// A row that has the column of a chain has the column of each of its
/// comparisons.
pub proof fn lemma_column_present(m: ModifierView, col: Seq<char>, row: Map<Seq<char>, Seq<char>>)
    requires
        compares_column(m, col),
        row.contains_key(col),
    ensures
        columns_present(m, row),
    decreases m,
{
    if let Some(rest) = m.right {
        lemma_column_present(*rest, col, row);
    }
}

/// A tree parsed against the valid columns `columns` can be evaluated on
/// every row that has all of those columns.
pub proof fn law_parsed_tree_fits_rows(
    q: Seq<char>,
    columns: Set<Seq<char>>,
    row: Map<Seq<char>, Seq<char>>,
)
    requires
        columns.subset_of(row.dom()),
    ensures
        match parse_spec(q, columns) {
            Ok(tree) => columns_present(tree, row),
            Err(_) => true,
        },
{
    law_parsed_tree_compares_valid_column(q, columns);
    if let Ok(tree) = parse_spec(q, columns) {
        lemma_column_present(tree, tree.left.col, row);
    }
}

/// The query `<col> is <v0> and <v1> and ...`, of plain words and a valid
/// column, parses, and a row that has the column satisfies its tree exactly
/// if its value for the column is every one of the literals.
pub proof fn law_conjunction(
    col: Seq<char>,
    values: Seq<Seq<char>>,
    columns: Set<Seq<char>>,
    row: Map<Seq<char>, Seq<char>>,
)
    requires
        columns.contains(col),
        plain_word(col),
        values.len() >= 1,
        forall|i: int| 0 <= i < values.len() ==> plain_word(#[trigger] values[i]),
        row.contains_key(col),
    ensures
        parse_spec(conjunction_query(col, values), columns) is Ok,
        holds(parse_spec(conjunction_query(col, values), columns)->Ok_0, row) <==> forall|i: int|
            0 <= i < values.len() ==> row[col] == values[i],
{
    let q = conjunction_query(col, values);
    lemma_lex_conjunction(col, values);
    let closed = conjunction_closed(col, values);
    let tokens = closed.push(values.last());
    assert(word_is() != word_has()) by {
        assert(word_is().len() != word_has().len());
    }
    assert forall|i: int| 0 <= i < closed.len() implies token_fault(
        state_at(i),
        #[trigger] closed[i],
        columns,
    ) is None by {
    }
    lemma_no_fault(closed, columns, 0);
    assert(state_at(closed.len() as int) == State::Value);
    assert(parse_spec(q, columns) == Ok::<ModifierView, ParseErrorView>(tree_of(tokens)));
    let joins = joins_of(tokens);
    assert(values_of(tokens) =~= values);
    assert(forall|j: int| 0 <= j < joins.len() ==> joins[j] == ModType::And);
    law_chain_holds(col, CompType::Equal, values, joins, 0, row);
}

/// The query `<col> is <value>`, of plain words and a valid column, parses,
/// and a row that has the column satisfies its tree exactly if its value for
/// the column is `value`.
pub proof fn law_single_equality(
    col: Seq<char>,
    value: Seq<char>,
    columns: Set<Seq<char>>,
    row: Map<Seq<char>, Seq<char>>,
)
    requires
        columns.contains(col),
        plain_word(col),
        plain_word(value),
        row.contains_key(col),
    ensures
        parse_spec(equality_query(col, value), columns) is Ok,
        holds(parse_spec(equality_query(col, value), columns)->Ok_0, row) <==> row[col] == value,
{
    let values = seq![value];
    assert(conjunction_query(col, values) == equality_query(col, value));
    law_conjunction(col, values, columns, row);
    assert(values[0] == value);
}

/// Text that can stand between double quotes: it may hold spaces and be
/// empty, and holds no double quote.
pub open spec fn quotable(v: Seq<char>) -> bool {
    forall|i: int| 0 <= i < v.len() ==> v[i] != '"'
}

/// A single double quote.
pub open spec fn quote() -> Seq<char> {
    seq!['"']
}

/// The query `<col> is "<value>"`.
pub open spec fn quoted_query(col: Seq<char>, value: Seq<char>) -> Seq<char> {
    col + space() + word_is() + space() + quote() + value + quote()
}

/// Reading a double quote opens a quoted span or closes the open one, and
/// opens a token where none is open.
pub proof fn lemma_lex_quote(s: LexState)
    ensures
        lex_from(s, quote()) == (LexState { started: true, quoted: !s.quoted, ..s }),
{
    assert(quote().drop_last().len() == 0);
    assert(lex_from(s, quote().drop_last()) == s);
    assert(quote().last() == '"');
}

/// Inside a quoted span, reading text without a double quote adds all of
/// it, spaces too, to the open token.
pub proof fn lemma_lex_inside_quotes(s: LexState, v: Seq<char>)
    requires
        s.quoted,
        s.started,
        quotable(v),
    ensures
        lex_from(s, v) == (LexState { current: s.current + v, ..s }),
    decreases v.len(),
{
    if v.len() == 0 {
        assert(s.current + v =~= s.current);
    } else {
        let front = v.drop_last();
        assert(quotable(front));
        lemma_lex_inside_quotes(s, front);
        assert((s.current + front).push(v.last()) =~= s.current + v);
    }
}

/// The query `<col> is "<value>"`, of a valid column that is a plain word
/// and a value without a double quote, parses, and a row that has the column
/// satisfies its tree exactly if its value for the column is `value`, spaces
/// and all.
pub proof fn law_quoted_equality(
    col: Seq<char>,
    value: Seq<char>,
    columns: Set<Seq<char>>,
    row: Map<Seq<char>, Seq<char>>,
)
    requires
        columns.contains(col),
        plain_word(col),
        quotable(value),
        row.contains_key(col),
    ensures
        parse_spec(quoted_query(col, value), columns) is Ok,
        holds(parse_spec(quoted_query(col, value), columns)->Ok_0, row) <==> row[col] == value,
{
    lemma_keywords_plain();
    let q = quoted_query(col, value);
    let head = col + space();
    let op = word_is() + space();
    assert(q =~= (((head + op) + quote()) + value) + quote());
    lemma_lex_from_append(lex_start(), ((head + op) + quote()) + value, quote());
    lemma_lex_from_append(lex_start(), (head + op) + quote(), value);
    lemma_lex_from_append(lex_start(), head + op, quote());
    lemma_lex_from_append(lex_start(), head, op);
    lemma_lex_word_space(lex_start(), col);
    let after_col = lex_from(lex_start(), head);
    lemma_lex_word_space(after_col, word_is());
    let after_op = lex_from(after_col, op);
    lemma_lex_quote(after_op);
    let opened = lex_from(after_op, quote());
    lemma_lex_inside_quotes(opened, value);
    let inside = lex_from(opened, value);
    lemma_lex_quote(inside);
    assert(opened.current + value =~= value);
    let closed = seq![col, word_is()];
    assert(lex(q).closed =~= closed);
    assert(pending(lex(q)) == Some(value));
    assert(word_is() != word_has()) by {
        assert(word_is().len() != word_has().len());
    }
    assert forall|i: int| 0 <= i < closed.len() implies token_fault(
        state_at(i),
        #[trigger] closed[i],
        columns,
    ) is None by {
    }
    lemma_no_fault(closed, columns, 0);
    let tokens = closed.push(value);
    assert(parse_spec(q, columns) == Ok::<ModifierView, ParseErrorView>(tree_of(tokens)));
    let values = values_of(tokens);
    assert(values =~= seq![value]);
    law_chain_holds(col, CompType::Equal, values, joins_of(tokens), 0, row);
    assert(values[0] == value);
}

/// Parsing depends on the query and the valid columns alone: two trees
/// parsed from the same query with the same columns are the same tree, and
/// so are satisfied by the same rows.
pub proof fn law_parsing_repeats(
    q: Seq<char>,
    columns: Set<Seq<char>>,
    first: ModifierView,
    second: ModifierView,
    row: Map<Seq<char>, Seq<char>>,
)
    requires
        parse_spec(q, columns) == Ok::<ModifierView, ParseErrorView>(first),
        parse_spec(q, columns) == Ok::<ModifierView, ParseErrorView>(second),
    ensures
        first == second,
        holds(first, row) == holds(second, row),
{
}

} // verus!
