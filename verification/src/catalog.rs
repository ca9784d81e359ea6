//! The reading list as rows that a query can be asked of.

use crate::querylanguage::eval::{eval, holds};
use crate::querylanguage::grammar::{parse_spec, ParseErrorView};
use crate::querylanguage::laws::law_parsed_tree_fits_rows;
use crate::querylanguage::parser::{column_set, parse_query, ParseError};
use crate::querylanguage::row::TableRow;
use crate::querylanguage::syntax::ModifierView;
use crate::tags::{join_spaces, space_free, split_tags};
use crate::text::{lowercase, texts};
use crate::{formatEnumToString, format_name, format_named, stringToFormatEnum, Format, ReadingEntry};
use vstd::prelude::*;
use vstd::string::StringExecFns;

verus! {

/// The id of an entry that has not been stored yet.
pub const NEW_ENTRY_ID: i64 = -1000;

impl ReadingEntry {
    /// The entry with the given fields, its tags split out of their stored
    /// form `tags`.
    pub fn from_fields(
        id: i64,
        title: String,
        author: String,
        genre: String,
        format: Format,
        status: String,
        tags: &str,
    ) -> (e: ReadingEntry)
        ensures
            e.id == id,
            e.title == title,
            e.author == author,
            e.genre == genre,
            e.format == format,
            e.status == status,
            e.tags.len() >= 1,
            space_free(texts(e.tags@)),
            join_spaces(texts(e.tags@)) == tags@,
    {
        ReadingEntry {
            id: id,
            author: author,
            title: title,
            genre: genre,
            format: format,
            status: status,
            tags: split_tags(tags),
        }
    }

    /// The entry with the given fields as a user has typed them: the format
    /// by its name in any case, the tags separated by spaces.
    pub fn from_answers(
        id: i64,
        title: String,
        author: String,
        status: String,
        format: &str,
        genre: String,
        tags: &str,
    ) -> (e: ReadingEntry)
        ensures
            e.id == id,
            e.title == title,
            e.author == author,
            e.genre == genre,
            e.format == format_named(lowercase(format@)),
            e.status == status,
            e.tags.len() >= 1,
            space_free(texts(e.tags@)),
            join_spaces(texts(e.tags@)) == tags@,
    {
        ReadingEntry::from_fields(id, title, author, genre, stringToFormatEnum(format), status, tags)
    }
}

/// The names of the columns that a query may compare.
pub open spec fn query_columns() -> Seq<Seq<char>> {
    seq!["author"@, "format"@, "genre"@, "status"@, "title"@]
}

/// The names of the columns that a query may compare.
pub fn createHeaderVec() -> (columns: Vec<String>)
    ensures
        texts(columns@) == query_columns(),
{
    let mut columns: Vec<String> = Vec::new();
    columns.push(String::from_str("author"));
    columns.push(String::from_str("format"));
    columns.push(String::from_str("genre"));
    columns.push(String::from_str("status"));
    columns.push(String::from_str("title"));
    assert(texts(columns@) =~= query_columns());
    columns
}

/// The row that stands for the entry `e`: its author, the name of its
/// format, its genre, its title and its status, each under the name of its
/// column.
pub open spec fn entry_row(e: ReadingEntry) -> Map<Seq<char>, Seq<char>> {
    Map::<Seq<char>, Seq<char>>::empty().insert("author"@, e.author@).insert(
        "format"@,
        format_name(e.format),
    ).insert("genre"@, e.genre@).insert("title"@, e.title@).insert("status"@, e.status@)
}

/// The row that stands for the entry `re`.
pub fn createTableRowFromReadingEntry(re: &ReadingEntry) -> (row: TableRow)
    ensures
        row@ == entry_row(*re),
{
    let mut row = TableRow::new();
    row.insert(&String::from_str("author"), &re.author);
    row.insert(&String::from_str("format"), &formatEnumToString(&re.format));
    row.insert(&String::from_str("genre"), &re.genre);
    row.insert(&String::from_str("title"), &re.title);
    row.insert(&String::from_str("status"), &re.status);
    row
}

/// The row of an entry holds, under each column of a query, the field of
/// that name.
pub proof fn law_entry_row_fields(e: ReadingEntry)
    ensures
        column_set(query_columns()).subset_of(entry_row(e).dom()),
        entry_row(e)["author"@] == e.author@,
        entry_row(e)["format"@] == format_name(e.format),
        entry_row(e)["genre"@] == e.genre@,
        entry_row(e)["title"@] == e.title@,
        entry_row(e)["status"@] == e.status@,
{
    reveal_strlit("author");
    reveal_strlit("format");
    reveal_strlit("genre");
    reveal_strlit("title");
    reveal_strlit("status");
    assert("author"@[0] == 'a' && "format"@[0] == 'f' && "genre"@[0] == 'g' && "title"@[0] == 't'
        && "status"@[0] == 's');
}

/// The entries among `entries` that the query `query` selects, in their
/// order: all of them where the query is empty, else those whose row
/// satisfies it. A query that does not parse selects nothing and its fault
/// is returned.
pub fn select_entries(entries: Vec<ReadingEntry>, query: &str) -> (result: Result<
    Vec<ReadingEntry>,
    ParseError,
>)
    ensures
        query@.len() == 0 ==> result is Ok && result->Ok_0@ == entries@,
        query@.len() > 0 ==> match parse_spec(query@, column_set(query_columns())) {
            Ok(tree) => result is Ok && result->Ok_0@ == entries@.filter(
                |e: ReadingEntry| holds(tree, entry_row(e)),
            ),
            Err(fault) => result is Err && result->Err_0@ == fault,
        },
{
    if query.is_empty() {
        return Ok(entries);
    }
    let columns = createHeaderVec();
    let tree = match parse_query(query, &columns) {
        Ok(tree) => tree,
        Err(fault) => {
            return Err(fault);
        },
    };
    let ghost all = entries@;
    let ghost wanted = |e: ReadingEntry| holds(tree@, entry_row(e));
    let mut kept: Vec<ReadingEntry> = Vec::new();
    proof {
        reveal(Seq::filter);
        assert(all.take(0) =~= Seq::<ReadingEntry>::empty());
    }
    for e in it: entries
        invariant
            it.seq() == all,
            wanted == |e: ReadingEntry| holds(tree@, entry_row(e)),
            parse_spec(query@, column_set(query_columns())) == Ok::<ModifierView, ParseErrorView>(
                tree@,
            ),
            kept@ == all.take(it.index() as int).filter(wanted),
    {
        proof {
            let k = it.index() as int;
            reveal(Seq::filter);
            assert(all.take(k + 1).drop_last() =~= all.take(k));
            assert(all.take(k + 1).last() == e);
            law_entry_row_fields(e);
            law_parsed_tree_fits_rows(query@, column_set(query_columns()), entry_row(e));
        }
        let mut row = createTableRowFromReadingEntry(&e);
        if eval(&tree, &mut row) {
            kept.push(e);
        }
    }
    proof {
        assert(all.take(all.len() as int) =~= all);
    }
    Ok(kept)
}

} // verus!
