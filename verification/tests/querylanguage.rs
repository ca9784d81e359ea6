use readinglist::querylanguage::{
    covers, eval, is_col, is_mod, parse_query, perform_comparison, tokenize, Column, CompType,
    Comparison, Ident, ModType, Modifier, ParseError, TableRow,
};

fn cols(names: &[&str]) -> Vec<String> {
    names.iter().map(|n| n.to_string()).collect()
}

fn row(pairs: &[(&str, &str)]) -> TableRow {
    let mut row = TableRow::new();
    for (k, v) in pairs {
        row.insert(&k.to_string(), &v.to_string());
    }
    row
}

#[test]
fn equal_comparison_works() {
    let comp = Comparison {
        t: CompType::Equal,
        col: Column { name: String::from("foo") },
        ident: Ident { name: String::from("bar") },
    };

    let mut row = TableRow::new();
    row.insert(&String::from("foo"), &String::from("bar"));

    assert!(perform_comparison(&comp, &mut row), "Comparison should be true");

    row.insert(&String::from("foo"), &String::from("hola"));
    assert!(!perform_comparison(&comp, &mut row), "Comparison should be false");
}

#[test]
fn test_query_parsing_single_value() {
    let cols = vec![String::from("eins")];

    let modi = parse_query("eins is zwei", &cols).unwrap();
    assert_eq!(modi.t, ModType::And);
    assert_eq!(modi.left.col.name, String::from("eins"));
    assert_eq!(modi.left.ident.name, String::from("zwei"));
    assert!(modi.right.is_none());
}

#[test]
fn test_query_parsing_multivalue() {
    let cols = vec![String::from("eins")];

    let modi = parse_query("eins is \"zwei drei\"", &cols).unwrap();
    assert_eq!(modi.t, ModType::And);
    assert_eq!(modi.left.col.name, String::from("eins"));
    assert_eq!(modi.left.ident.name, String::from("zwei drei"));
    assert_eq!(modi.left.t, CompType::Equal);
    assert!(modi.right.is_none());
}

#[test]
fn single_equality_follows_the_row() {
    let columns = cols(&["title", "genre"]);
    let tree = parse_query("genre is fiction", &columns).unwrap();
    assert!(eval(&tree, &mut row(&[("title", "x"), ("genre", "fiction")])));
    assert!(!eval(&tree, &mut row(&[("title", "x"), ("genre", "fictio")])));
    assert!(!eval(&tree, &mut row(&[("title", "fiction"), ("genre", "Fiction")])));
}

#[test]
fn conjunction_needs_every_literal() {
    let columns = cols(&["genre"]);
    let same = parse_query("genre is fiction and fiction and fiction", &columns).unwrap();
    assert!(eval(&same, &mut row(&[("genre", "fiction")])));
    let mixed = parse_query("genre is fiction and poetry", &columns).unwrap();
    assert!(!eval(&mixed, &mut row(&[("genre", "fiction")])));
    assert!(!eval(&mixed, &mut row(&[("genre", "poetry")])));
    let late = parse_query("genre is fiction and fiction and poetry", &columns).unwrap();
    assert!(!eval(&late, &mut row(&[("genre", "fiction")])));
}

#[test]
fn chain_keeps_every_comparison_in_order() {
    let columns = cols(&["genre"]);
    let tree = parse_query("genre is a and b or c", &columns).unwrap();
    assert_eq!(tree.left.ident.name, "a");
    assert_eq!(tree.left.col.name, "genre");
    assert_eq!(tree.left.t, CompType::Equal);
    assert_eq!(tree.t, ModType::And);
    let second = tree.right.as_ref().unwrap();
    assert_eq!(second.left.ident.name, "b");
    assert_eq!(second.left.col.name, "genre");
    assert_eq!(second.left.t, CompType::Equal);
    assert_eq!(second.t, ModType::Or);
    let third = second.right.as_ref().unwrap();
    assert_eq!(third.left.ident.name, "c");
    assert_eq!(third.left.col.name, "genre");
    assert_eq!(third.t, ModType::And);
    assert!(third.right.is_none());
}

#[test]
fn quoted_value_round_trips() {
    let columns = cols(&["title"]);
    let tree = parse_query("title is \"The Great Gatsby\"", &columns).unwrap();
    assert_eq!(tree.left.ident.name, "The Great Gatsby");
    assert!(eval(&tree, &mut row(&[("title", "The Great Gatsby")])));
    assert!(!eval(&tree, &mut row(&[("title", "Gatsby")])));
}

#[test]
fn unknown_column_fails() {
    let columns = cols(&["title"]);
    assert_eq!(
        parse_query("nope is x", &columns),
        Err(ParseError::UnknownColumn("nope".to_string()))
    );
}

#[test]
fn query_without_value_fails() {
    let columns = cols(&["title"]);
    assert_eq!(parse_query("title is", &columns), Err(ParseError::UnexpectedEndOfInput));
    assert_eq!(parse_query("title is ", &columns), Err(ParseError::UnexpectedEndOfInput));
    assert_eq!(parse_query("title", &columns), Err(ParseError::UnexpectedEndOfInput));
    assert_eq!(parse_query("", &columns), Err(ParseError::UnexpectedEndOfInput));
    assert_eq!(parse_query("   ", &columns), Err(ParseError::UnexpectedEndOfInput));
}

#[test]
fn input_must_end_in_a_value() {
    let columns = cols(&["title"]);
    assert_eq!(parse_query("title is x ", &columns), Err(ParseError::UnexpectedEndOfInput));
    assert_eq!(parse_query("title is x and", &columns), Err(ParseError::UnexpectedEndOfInput));
    assert_eq!(parse_query("title is x and ", &columns), Err(ParseError::UnexpectedEndOfInput));
    assert_eq!(parse_query("nope", &columns), Err(ParseError::UnexpectedEndOfInput));
    assert_eq!(parse_query("title xx", &columns), Err(ParseError::UnexpectedEndOfInput));
}

#[test]
fn parsing_twice_gives_the_same_tree() {
    let columns = cols(&["genre", "status"]);
    let first = parse_query("genre is fiction and poetry", &columns).unwrap();
    let second = parse_query("genre is fiction and poetry", &columns).unwrap();
    assert_eq!(first, second);
    for value in ["fiction", "poetry", ""] {
        let mut r = row(&[("genre", value), ("status", "read")]);
        assert_eq!(eval(&first, &mut r), eval(&second, &mut r));
    }
}

#[test]
fn second_column_after_and_is_read_as_a_value() {
    let columns = cols(&["genre", "status"]);
    assert_eq!(
        parse_query("genre is fiction and status is read", &columns),
        Err(ParseError::UnknownConnective("is".to_string()))
    );
    let tree = parse_query("genre is fiction and status", &columns).unwrap();
    let second = tree.right.as_ref().unwrap();
    assert_eq!(second.left.col.name, "genre");
    assert_eq!(second.left.ident.name, "status");
    assert!(!eval(&tree, &mut row(&[("genre", "fiction"), ("status", "read")])));
}

#[test]
fn unknown_operator_fails() {
    let columns = cols(&["title"]);
    assert_eq!(
        parse_query("title equals x", &columns),
        Err(ParseError::UnknownOperator("equals".to_string()))
    );
    assert_eq!(
        parse_query("title IS x", &columns),
        Err(ParseError::UnknownOperator("IS".to_string()))
    );
}

#[test]
fn unknown_connective_fails() {
    let columns = cols(&["title"]);
    assert_eq!(
        parse_query("title is x but y", &columns),
        Err(ParseError::UnknownConnective("but".to_string()))
    );
}

#[test]
fn first_fault_wins() {
    let columns = cols(&["title"]);
    assert_eq!(
        parse_query("nope equals x but y", &columns),
        Err(ParseError::UnknownColumn("nope".to_string()))
    );
    assert_eq!(
        parse_query("title equals x but y", &columns),
        Err(ParseError::UnknownOperator("equals".to_string()))
    );
    assert_eq!(
        parse_query("title is x but", &columns),
        Err(ParseError::UnexpectedEndOfInput)
    );
}

#[test]
fn has_parses_and_no_row_satisfies_it() {
    let columns = cols(&["tags"]);
    let tree = parse_query("tags has classic", &columns).unwrap();
    assert_eq!(tree.left.t, CompType::Contains);
    assert_eq!(tree.left.ident.name, "classic");
    assert!(!eval(&tree, &mut row(&[("tags", "classic")])));
    assert!(!eval(&tree, &mut row(&[("tags", "a classic b")])));
    let chain = parse_query("tags has a and b", &columns).unwrap();
    assert_eq!(chain.right.as_ref().unwrap().left.t, CompType::Contains);
}

#[test]
fn or_parses_and_no_row_satisfies_it() {
    let columns = cols(&["genre"]);
    let tree = parse_query("genre is fiction or poetry", &columns).unwrap();
    assert_eq!(tree.t, ModType::Or);
    assert!(!eval(&tree, &mut row(&[("genre", "fiction")])));
    assert!(!eval(&tree, &mut row(&[("genre", "poetry")])));
    let later = parse_query("genre is fiction and fiction or fiction", &columns).unwrap();
    assert!(!eval(&later, &mut row(&[("genre", "fiction")])));
}

#[test]
fn unterminated_quote_still_gives_the_value() {
    let columns = cols(&["title"]);
    let tree = parse_query("title is \"The Great", &columns).unwrap();
    assert_eq!(tree.left.ident.name, "The Great");
    let spaced = parse_query("title is \"ends with space ", &columns).unwrap();
    assert_eq!(spaced.left.ident.name, "ends with space ");
}

#[test]
fn runs_of_spaces_separate_like_one() {
    let columns = cols(&["title"]);
    let tree = parse_query("  title   is    x", &columns).unwrap();
    assert_eq!(tree.left.col.name, "title");
    assert_eq!(tree.left.ident.name, "x");
    assert!(tree.right.is_none());
}

#[test]
fn empty_literal_needs_quotes() {
    let columns = cols(&["title"]);
    let tree = parse_query("title is \"\"", &columns).unwrap();
    assert_eq!(tree.left.ident.name, "");
    assert!(eval(&tree, &mut row(&[("title", "")])));
    assert!(!eval(&tree, &mut row(&[("title", "x")])));
}

#[test]
fn quotes_join_and_vanish() {
    let columns = cols(&["title"]);
    let tree = parse_query("title is ab\"c d\"e and \"second  one\"", &columns).unwrap();
    assert_eq!(tree.left.ident.name, "abc de");
    assert_eq!(tree.right.as_ref().unwrap().left.ident.name, "second  one");
    let quoted_column = parse_query("\"title\" is x", &columns).unwrap();
    assert_eq!(quoted_column.left.col.name, "title");
}

#[test]
fn tokenize_splits_closed_and_open_tokens() {
    let lexed = tokenize("a  \"b c\" d");
    assert_eq!(lexed.closed, vec!["a".to_string(), "b c".to_string()]);
    assert_eq!(lexed.open, Some("d".to_string()));
    let closed = tokenize("a b ");
    assert_eq!(closed.closed, vec!["a".to_string(), "b".to_string()]);
    assert_eq!(closed.open, None);
    let empty = tokenize("");
    assert!(empty.closed.is_empty());
    assert_eq!(empty.open, None);
    let quote_only = tokenize("\"");
    assert!(quote_only.closed.is_empty());
    assert_eq!(quote_only.open, Some(String::new()));
}

#[test]
fn fault_messages_name_the_token() {
    assert_eq!(
        ParseError::UnknownColumn("nope".to_string()).message(),
        "expected a column name, found nope"
    );
    assert_eq!(
        ParseError::UnknownOperator("eq".to_string()).message(),
        "expected a comparison operator ('is' or 'has'), found eq"
    );
    assert_eq!(
        ParseError::UnknownConnective("but".to_string()).message(),
        "expected a connective ('and' or 'or'), found but"
    );
    assert_eq!(
        ParseError::UnexpectedEndOfInput.message(),
        "unexpected end of query, expected a value"
    );
}

#[test]
fn row_keeps_the_last_value_of_a_column() {
    let mut r = TableRow::new();
    let foo = "foo".to_string();
    assert!(!r.contains(&foo));
    r.insert(&foo, &"bar".to_string());
    assert!(r.contains(&foo));
    assert_eq!(r.get(&foo), "bar");
    r.insert(&foo, &"baz".to_string());
    r.insert(&"other".to_string(), &"x".to_string());
    assert_eq!(r.get(&foo), "baz");
    assert_eq!(r.get(&"other".to_string()), "x");
}

#[test]
fn covers_tells_whether_eval_may_be_called() {
    let columns = cols(&["genre"]);
    let tree = parse_query("genre is a and b", &columns).unwrap();
    assert!(covers(&tree, &row(&[("genre", "a")])));
    assert!(!covers(&tree, &row(&[("title", "a")])));
    assert!(!covers(&tree, &TableRow::new()));
}

#[test]
fn membership_helpers() {
    let names = cols(&["and", "or"]);
    assert!(is_mod(&names, &"and".to_string()));
    assert!(is_mod(&names, &"or".to_string()));
    assert!(!is_mod(&names, &"is".to_string()));
    assert!(is_col(&names, &"or".to_string()));
    assert!(!is_col(&Vec::new(), &"or".to_string()));
    assert!(!is_col(&names, &"".to_string()));
}

#[test]
fn defaults_and_constructor() {
    let c = Comparison::default();
    assert_eq!(c.t, CompType::No);
    assert_eq!(c.col.name, "");
    assert_eq!(c.ident.name, "");
    let m = Modifier::default();
    assert_eq!(m.t, ModType::And);
    assert!(m.right.is_none());
    assert_eq!(m.left, Comparison::default());
    let leaf = Modifier::new(Comparison::default(), None, ModType::Or);
    let node = Modifier::new(
        Comparison {
            t: CompType::Equal,
            col: Column { name: "a".to_string() },
            ident: Ident { name: "b".to_string() },
        },
        Some(leaf),
        ModType::And,
    );
    assert_eq!(node.left.ident.name, "b");
    assert_eq!(node.right.as_ref().unwrap().t, ModType::Or);
}
