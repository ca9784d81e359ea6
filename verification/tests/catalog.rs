use readinglist::catalog::{createHeaderVec, createTableRowFromReadingEntry, select_entries, NEW_ENTRY_ID};
use readinglist::config::{expandTilde, expand_from, initConfig};
use readinglist::querylanguage::ParseError;
use readinglist::render::{entry_cells, header_cells, print_table};
use readinglist::tags::{join_tags, split_tags};
use readinglist::{formatEnumToString, formatFromLowercase, stringToFormatEnum, Format, ReadingEntry};

fn entry(id: i64, title: &str, genre: &str, status: &str, format: Format, tags: &str) -> ReadingEntry {
    ReadingEntry::from_fields(
        id,
        title.to_string(),
        "Someone".to_string(),
        genre.to_string(),
        format,
        status.to_string(),
        tags,
    )
}

fn strings(items: &[&str]) -> Vec<String> {
    items.iter().map(|s| s.to_string()).collect()
}

#[test]
fn format_names() {
    assert_eq!(formatEnumToString(&Format::Book), "book");
    assert_eq!(formatEnumToString(&Format::Kindle), "kindle");
    assert_eq!(stringToFormatEnum("book"), Format::Book);
    assert_eq!(stringToFormatEnum("kindle"), Format::Kindle);
    assert_eq!(stringToFormatEnum("KINDLE"), Format::Kindle);
    assert_eq!(stringToFormatEnum("Kindle"), Format::Kindle);
    assert_eq!(stringToFormatEnum("BoOk"), Format::Book);
    assert_eq!(stringToFormatEnum("paper"), Format::Book);
    assert_eq!(stringToFormatEnum(""), Format::Book);
    assert_eq!(stringToFormatEnum(" kindle"), Format::Book);
    assert_eq!(formatFromLowercase(&"kindle".to_string()), Format::Kindle);
    assert_eq!(formatFromLowercase(&"KINDLE".to_string()), Format::Book);
    assert_eq!(Format::from_column(true), Format::Book);
    assert_eq!(Format::from_column(false), Format::Kindle);
}

#[test]
fn format_name_round_trip() {
    for f in [Format::Book, Format::Kindle] {
        assert_eq!(stringToFormatEnum(&formatEnumToString(&f)), f);
    }
}

#[test]
fn tags_split_at_every_space() {
    assert_eq!(split_tags("a b"), strings(&["a", "b"]));
    assert_eq!(split_tags(""), strings(&[""]));
    assert_eq!(split_tags("one"), strings(&["one"]));
    assert_eq!(split_tags("a  b"), strings(&["a", "", "b"]));
    assert_eq!(split_tags(" a "), strings(&["", "a", ""]));
    assert_eq!(split_tags(" "), strings(&["", ""]));
}

#[test]
fn tags_join_with_single_spaces() {
    assert_eq!(join_tags(&strings(&["a", "b", "c"])), "a b c");
    assert_eq!(join_tags(&strings(&["one"])), "one");
    assert_eq!(join_tags(&Vec::new()), "");
    assert_eq!(join_tags(&strings(&["", ""])), " ");
}

#[test]
fn tags_round_trip() {
    for stored in ["", "a", "a b", " a  b ", "x y z"] {
        assert_eq!(join_tags(&split_tags(stored)), stored);
    }
    let tags = strings(&["classic", "", "usa"]);
    assert_eq!(split_tags(&join_tags(&tags)), tags);
}

#[test]
fn entry_from_fields_and_answers() {
    let e = ReadingEntry::from_fields(
        7,
        "T".to_string(),
        "A".to_string(),
        "G".to_string(),
        Format::Kindle,
        "S".to_string(),
        "x y",
    );
    assert_eq!(e.id, 7);
    assert_eq!(e.title, "T");
    assert_eq!(e.author, "A");
    assert_eq!(e.genre, "G");
    assert_eq!(e.format, Format::Kindle);
    assert_eq!(e.status, "S");
    assert_eq!(e.tags, strings(&["x", "y"]));
    let typed = ReadingEntry::from_answers(
        NEW_ENTRY_ID,
        "T".to_string(),
        "A".to_string(),
        "S".to_string(),
        "KINDLE",
        "G".to_string(),
        "",
    );
    assert_eq!(typed.id, -1000);
    assert_eq!(typed.format, Format::Kindle);
    assert_eq!(typed.status, "S");
    assert_eq!(typed.genre, "G");
    assert_eq!(typed.tags, strings(&[""]));
}

#[test]
fn query_columns_and_rows() {
    assert_eq!(createHeaderVec(), strings(&["author", "format", "genre", "status", "title"]));
    let e = entry(1, "Dune", "scifi", "read", Format::Kindle, "a b");
    let mut row = createTableRowFromReadingEntry(&e);
    assert_eq!(row.get(&"author".to_string()), "Someone");
    assert_eq!(row.get(&"format".to_string()), "kindle");
    assert_eq!(row.get(&"genre".to_string()), "scifi");
    assert_eq!(row.get(&"title".to_string()), "Dune");
    assert_eq!(row.get(&"status".to_string()), "read");
    assert!(!row.contains(&"tags".to_string()));
}

fn shelf() -> Vec<ReadingEntry> {
    vec![
        entry(1, "Dune", "scifi", "read", Format::Book, "a"),
        entry(2, "The Great Gatsby", "fiction", "unread", Format::Kindle, "b"),
        entry(3, "Emma", "fiction", "read", Format::Book, "c"),
        entry(4, "Ulysses", "fiction", "read", Format::Kindle, "d"),
    ]
}

fn ids(entries: &[ReadingEntry]) -> Vec<i64> {
    entries.iter().map(|e| e.id).collect()
}

#[test]
fn select_keeps_matching_entries_in_order() {
    assert_eq!(ids(&select_entries(shelf(), "").unwrap()), vec![1, 2, 3, 4]);
    assert_eq!(ids(&select_entries(shelf(), "genre is fiction").unwrap()), vec![2, 3, 4]);
    assert_eq!(ids(&select_entries(shelf(), "format is kindle").unwrap()), vec![2, 4]);
    assert_eq!(
        ids(&select_entries(shelf(), "title is \"The Great Gatsby\"").unwrap()),
        vec![2]
    );
    assert_eq!(ids(&select_entries(shelf(), "status is read and unread").unwrap()), Vec::<i64>::new());
    assert_eq!(ids(&select_entries(shelf(), "status is read or unread").unwrap()), Vec::<i64>::new());
}

#[test]
fn select_reports_the_fault() {
    assert_eq!(
        select_entries(shelf(), "tags is a").unwrap_err(),
        ParseError::UnknownColumn("tags".to_string())
    );
    assert_eq!(select_entries(shelf(), " ").unwrap_err(), ParseError::UnexpectedEndOfInput);
    assert_eq!(
        select_entries(shelf(), "genre is fiction and status is read").unwrap_err(),
        ParseError::UnknownConnective("is".to_string())
    );
}

#[test]
fn listing_cells_of_an_entry() {
    assert_eq!(
        header_cells(false),
        strings(&["Title", "Author", "Genre", "Status", "Format", "Tags"])
    );
    assert_eq!(
        header_cells(true),
        strings(&["Title", "Author", "Genre", "Status", "Format", "Tags", "ID"])
    );
    let e = entry(-42, "Dune", "scifi", "read", Format::Kindle, "desert spice");
    assert_eq!(
        entry_cells(&e, false),
        strings(&["Dune", "Someone", "scifi", "read", "kindle", "desert spice"])
    );
    assert_eq!(
        entry_cells(&e, true),
        strings(&["Dune", "Someone", "scifi", "read", "kindle", "desert spice", "-42"])
    );
    let zero = entry(0, "", "", "", Format::Book, "");
    assert_eq!(entry_cells(&zero, true).last().unwrap(), "0");
    let large = entry(i64::MIN, "", "", "", Format::Book, "");
    assert_eq!(entry_cells(&large, true).last().unwrap(), "-9223372036854775808");
    let round = entry(1000, "", "", "", Format::Book, "");
    assert_eq!(entry_cells(&round, true).last().unwrap(), "1000");
}

fn cells_of(row: &comfy_table::Row) -> Vec<String> {
    row.cell_iter().map(|c| c.content()).collect()
}

#[test]
fn table_holds_header_and_one_row_per_entry() {
    let entries = shelf();
    let table = print_table(&entries, true);
    assert_eq!(cells_of(table.header().unwrap()), header_cells(true));
    assert_eq!(table.row_iter().count(), 4);
    for (i, row) in table.row_iter().enumerate() {
        assert_eq!(cells_of(row), entry_cells(&entries[i], true));
    }
    assert_eq!(table.style(), comfy_table::presets::UTF8_FULL);
    let plain = print_table(&Vec::new(), false);
    assert_eq!(cells_of(plain.header().unwrap()), header_cells(false));
    assert_eq!(plain.row_iter().count(), 0);
    let text = print_table(&entries, false).to_string();
    assert!(text.contains("The Great Gatsby"));
    assert!(text.contains("Title"));
    assert!(!text.contains("ID"));
}

#[test]
fn tilde_expansion() {
    let home = "/home/reader".to_string();
    assert_eq!(expand_from(&"/foo/bar".to_string(), true, &home), "/foo/bar");
    assert_eq!(expand_from(&"~".to_string(), false, &home), "/home/reader");
    assert_eq!(expand_from(&"~/foo".to_string(), false, &home), "/home/reader/foo");
    assert_eq!(expand_from(&"foo/bar".to_string(), false, &home), "foo/bar");
    assert_eq!(expand_from(&"".to_string(), false, &home), "");
    assert_eq!(expand_from(&"~/".to_string(), false, &home), "/home/reader/");
    assert_eq!(expand_from(&"~ab".to_string(), false, &home), "/home/reader/b");
    assert_eq!(expand_from(&"~/foo".to_string(), true, &home), "~/foo");
    assert_eq!(expandTilde(&"~/.config/readinglist/readinglist.db".to_string(), &home), "/home/reader/.config/readinglist/readinglist.db");
    assert_eq!(expandTilde(&"foo/bar".to_string(), &home), "foo/bar");
}

#[test]
fn config_from_arguments() {
    let home = "/home/reader".to_string();
    let config = initConfig(true, &"~/list.db".to_string(), false, "genre is x".to_string(), &home);
    assert!(config.debug);
    assert!(!config.withId);
    assert_eq!(config.query, "genre is x");
    assert_eq!(config.db_file_location, "/home/reader/list.db");
}
