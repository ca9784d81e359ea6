//! A personal reading list: catalog entries and a query language to filter
//! them.
#![allow(non_snake_case)]

pub mod catalog;
pub mod config;
pub mod querylanguage;
pub mod render;
pub mod tags;
pub mod text;

use crate::text::lowercase;
use vstd::prelude::*;
use vstd::string::StringExecFns;

verus! {

/// The form in which a catalog entry is read.
#[derive(Debug, Clone, Copy, PartialEq, Eq, Structural)]
pub enum Format {
    Book,
    Kindle,
}

/// One entry of the reading list.
#[derive(Debug)]
pub struct ReadingEntry {
    pub id: i64,
    pub author: String,
    pub title: String,
    pub genre: String,
    pub format: Format,
    pub status: String,
    pub tags: Vec<String>,
}

/// The word `book`.
pub open spec fn word_book() -> Seq<char> {
    seq!['b', 'o', 'o', 'k']
}

/// The word `kindle`.
pub open spec fn word_kindle() -> Seq<char> {
    seq!['k', 'i', 'n', 'd', 'l', 'e']
}

/// The format that the lowercase name `name` stands for: `Kindle` for the
/// word `kindle`, and `Book` for every other name.
pub open spec fn format_named(name: Seq<char>) -> Format {
    if name == word_kindle() {
        Format::Kindle
    } else {
        Format::Book
    }
}

/// The name of a format: `book` or `kindle`.
pub open spec fn format_name(f: Format) -> Seq<char> {
    match f {
        Format::Book => word_book(),
        Format::Kindle => word_kindle(),
    }
}

/// The format that the lowercase name `name` stands for.
pub fn formatFromLowercase(name: &String) -> (f: Format)
    ensures
        f == format_named(name@),
{
    proof {
        reveal_strlit("kindle");
        assert("kindle"@ =~= word_kindle());
    }
    if *name == String::from_str("kindle") {
        Format::Kindle
    } else {
        Format::Book
    }
}

/// The format that `toConvert` names, whatever the case of its letters.
pub fn stringToFormatEnum(toConvert: &str) -> (f: Format)
    ensures
        f == format_named(lowercase(toConvert@)),
{
    let lc = toConvert.to_lowercase();
    formatFromLowercase(&lc)
}

/// The name of the format `f`.
pub fn formatEnumToString(f: &Format) -> (name: String)
    ensures
        name@ == format_name(*f),
{
    proof {
        reveal_strlit("book");
        reveal_strlit("kindle");
        assert("book"@ =~= word_book());
        assert("kindle"@ =~= word_kindle());
    }
    match f {
        Format::Book => String::from_str("book"),
        Format::Kindle => String::from_str("kindle"),
    }
}

/// Naming a format and reading the name back gives the format.
pub proof fn law_format_name_round_trip(f: Format)
    ensures
        format_named(format_name(f)) == f,
{
    assert(word_book() != word_kindle()) by {
        assert(word_book().len() != word_kindle().len());
    }
}

impl Format {
    /// The format of an entry whose stored format column holds text
    /// (`Book`) or holds something else (`Kindle`).
    pub fn from_column(holds_text: bool) -> (f: Format)
        ensures
            f == if holds_text {
                Format::Book
            } else {
                Format::Kindle
            },
    {
        if holds_text {
            Format::Book
        } else {
            Format::Kindle
        }
    }
}

} // verus!
