//! The reading list as a table for the terminal.
//!
//! The table itself is `comfy_table::Table`, which also draws it. This file
//! decides what the table holds: its header and, for each entry, the cells
//! of one row.

use crate::tags::{join_spaces, join_tags};
use crate::text::texts;
use crate::{formatEnumToString, format_name, ReadingEntry};
use comfy_table::presets::UTF8_FULL;
use vstd::prelude::*;
use vstd::string::StringExecFns;

verus! {

/// `comfy_table::Table`, of which the verifier sees nothing but what the
/// contracts below state.
#[verifier::external_type_specification]
#[verifier::external_body]
pub struct ExTable(comfy_table::Table);

/// The header of a table: the text of each of its cells, in order, or
/// nothing where no header has been set. The text of a cell is what
/// `Cell::content` returns for it.
pub uninterp spec fn table_header(t: comfy_table::Table) -> Option<Seq<Seq<char>>>;

/// The rows of a table in the order in which they were added, each as the
/// texts of its cells.
pub uninterp spec fn table_rows(t: comfy_table::Table) -> Seq<Seq<Seq<char>>>;

/// `Table::new` makes a table without a header and without rows.
#[verifier::external_body]
fn new_table() -> (t: comfy_table::Table)
    ensures
        table_header(t) is None,
        table_rows(t) == Seq::<Seq<Seq<char>>>::empty(),
{
    comfy_table::Table::new()
}

/// `Table::set_header` makes a row of one cell for each of `cells`, which
/// holds the text given, and sets it as the header. The rows stay.
#[verifier::external_body]
fn set_header(t: &mut comfy_table::Table, cells: &Vec<String>)
    ensures
        table_header(*final(t)) == Some(texts(cells@)),
        table_rows(*final(t)) == table_rows(*old(t)),
{
    t.set_header(cells);
}

/// `Table::load_style` with the preset `UTF8_FULL` changes how the table is
/// drawn, and neither its header nor its rows.
#[verifier::external_body]
fn load_full_style(t: &mut comfy_table::Table)
    ensures
        table_header(*final(t)) == table_header(*old(t)),
        table_rows(*final(t)) == table_rows(*old(t)),
{
    t.load_style(UTF8_FULL);
}

/// `Table::add_row` makes a row of one cell for each of `cells`, which
/// holds the text given, and adds it after the rows that are there. The
/// header stays.
#[verifier::external_body]
fn add_row(t: &mut comfy_table::Table, cells: &Vec<String>)
    ensures
        table_header(*final(t)) == table_header(*old(t)),
        table_rows(*final(t)) == table_rows(*old(t)).push(texts(cells@)),
{
    t.add_row(cells);
}

/// The digit `d` as a character.
pub open spec fn digit(d: int) -> char {
    if d == 0 {
        '0'
    } else if d == 1 {
        '1'
    } else if d == 2 {
        '2'
    } else if d == 3 {
        '3'
    } else if d == 4 {
        '4'
    } else if d == 5 {
        '5'
    } else if d == 6 {
        '6'
    } else if d == 7 {
        '7'
    } else if d == 8 {
        '8'
    } else {
        '9'
    }
}

/// The decimal digits of `n`, without leading zeros.
pub open spec fn digits(n: nat) -> Seq<char>
    decreases n,
{
    if n < 10 {
        seq![digit(n as int)]
    } else {
        digits(n / 10).push(digit((n % 10) as int))
    }
}

/// The number `n` in decimal, with a minus sign before the digits where it
/// is negative.
pub open spec fn decimal(n: int) -> Seq<char> {
    if n < 0 {
        seq!['-'] + digits((-n) as nat)
    } else {
        digits(n as nat)
    }
}

/// `i64::to_string` writes the number in decimal: its digits without
/// leading zeros, after a minus sign where it is negative.
#[verifier::external_body]
fn id_text(id: i64) -> (text: String)
    ensures
        text@ == decimal(id as int),
{
    id.to_string()
}

/// The header of the listing: the names of the columns shown, and `ID` after
/// them where the ids are shown.
pub open spec fn listing_header(with_id: bool) -> Seq<Seq<char>> {
    let names = seq!["Title"@, "Author"@, "Genre"@, "Status"@, "Format"@, "Tags"@];
    if with_id {
        names.push("ID"@)
    } else {
        names
    }
}

/// The cells of the row that shows `e`: title, author, genre, status, the
/// name of the format, the tags with spaces between them and, where the ids
/// are shown, the id in decimal.
pub open spec fn listing_cells(e: ReadingEntry, with_id: bool) -> Seq<Seq<char>> {
    let cells = seq![
        e.title@,
        e.author@,
        e.genre@,
        e.status@,
        format_name(e.format),
        join_spaces(texts(e.tags@)),
    ];
    if with_id {
        cells.push(decimal(e.id as int))
    } else {
        cells
    }
}

/// The header of the listing.
pub fn header_cells(withId: bool) -> (headers: Vec<String>)
    ensures
        texts(headers@) == listing_header(withId),
{
    let mut headers: Vec<String> = Vec::new();
    headers.push(String::from_str("Title"));
    headers.push(String::from_str("Author"));
    headers.push(String::from_str("Genre"));
    headers.push(String::from_str("Status"));
    headers.push(String::from_str("Format"));
    headers.push(String::from_str("Tags"));
    if withId {
        headers.push(String::from_str("ID"));
    }
    assert(texts(headers@) =~= listing_header(withId));
    headers
}

/// The cells of the row that shows `e`.
pub fn entry_cells(e: &ReadingEntry, withId: bool) -> (cells: Vec<String>)
    ensures
        texts(cells@) == listing_cells(*e, withId),
{
    let mut cells: Vec<String> = Vec::new();
    cells.push(e.title.clone());
    cells.push(e.author.clone());
    cells.push(e.genre.clone());
    cells.push(e.status.clone());
    cells.push(formatEnumToString(&e.format));
    cells.push(join_tags(&e.tags));
    if withId {
        cells.push(id_text(e.id));
    }
    assert(texts(cells@) =~= listing_cells(*e, withId));
    cells
}

/// The table that lists `entries`: under the header of the listing, one row
/// for each entry, in the order of the entries.
pub fn print_table(entries: &Vec<ReadingEntry>, withId: bool) -> (table: comfy_table::Table)
    ensures
        table_header(table) == Some(listing_header(withId)),
        table_rows(table) == Seq::new(
            entries.len() as nat,
            |i: int| listing_cells(entries[i], withId),
        ),
{
    let mut table = new_table();
    let headers = header_cells(withId);
    set_header(&mut table, &headers);
    load_full_style(&mut table);
    let mut i: usize = 0;
    while i < entries.len()
        invariant
            i <= entries.len(),
            table_header(table) == Some(listing_header(withId)),
            table_rows(table) == Seq::new(i as nat, |k: int| listing_cells(entries[k], withId)),
        decreases entries.len() - i,
    {
        let ghost before = table_rows(table);
        let row = entry_cells(&entries[i], withId);
        add_row(&mut table, &row);
        i = i + 1;
        assert(table_rows(table) =~= Seq::new(
            i as nat,
            |k: int| listing_cells(entries[k], withId),
        ));
    }
    table
}

} // verus!
