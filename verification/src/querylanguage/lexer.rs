//! The lexer: from the characters of a query to its tokens.
//!
//! Tokens are separated by spaces. A double quote opens a quoted span or
//! closes the open one; inside a span a space belongs to the token. The
//! quotes themselves are not part of the token. A run of spaces separates
//! like one space, so the only token that can be empty is one written with
//! quotes.

use crate::text::texts;
use vstd::prelude::*;

verus! {

/// What the lexer knows after reading some characters.
pub struct LexState {
    /// The tokens that a separating space has ended, in order.
    pub closed: Seq<Seq<char>>,
    /// The characters gathered for the token that is still open.
    pub current: Seq<char>,
    /// Whether a token is open: a character or a quote has been read since
    /// the last separator.
    pub started: bool,
    /// Whether a quoted span is open.
    pub quoted: bool,
}

/// The state before any character is read.
pub open spec fn lex_start() -> LexState {
    LexState { closed: Seq::empty(), current: Seq::empty(), started: false, quoted: false }
}

/// The state after reading the character `c` in state `s`.
pub open spec fn lex_step(s: LexState, c: char) -> LexState {
    if c == '"' {
        LexState { started: true, quoted: !s.quoted, ..s }
    } else if c == ' ' && !s.quoted {
        if s.started {
            LexState {
                closed: s.closed.push(s.current),
                current: Seq::empty(),
                started: false,
                quoted: false,
            }
        } else {
            s
        }
    } else {
        LexState { current: s.current.push(c), started: true, ..s }
    }
}

/// The state after reading all of `chars`, one by one, starting in state `s`.
pub open spec fn lex_from(s: LexState, chars: Seq<char>) -> LexState
    decreases chars.len(),
{
    if chars.len() == 0 {
        s
    } else {
        lex_step(lex_from(s, chars.drop_last()), chars.last())
    }
}

/// The state after reading the whole query `q`.
pub open spec fn lex(q: Seq<char>) -> LexState {
    lex_from(lex_start(), q)
}

/// The token that is open at the end of the input, if there is one.
pub open spec fn pending(s: LexState) -> Option<Seq<char>> {
    if s.started {
        Some(s.current)
    } else {
        None
    }
}

/// The tokens of a query: those that a space has ended, and the one that
/// the end of the input has ended, if any.
pub struct Lexed {
    pub closed: Vec<String>,
    pub open: Option<String>,
}

impl Lexed {
    /// The token that the end of the input has ended, as characters.
    pub open spec fn open_text(&self) -> Option<Seq<char>> {
        match self.open {
            Some(token) => Some(token@),
            None => None,
        }
    }
}

/// Splits the query `q` into its tokens.
pub fn tokenize(q: &str) -> (lexed: Lexed)
    ensures
        texts(lexed.closed@) == lex(q@).closed,
        lexed.open_text() == pending(lex(q@)),
{
    let mut closed: Vec<String> = Vec::new();
    let mut current = String::new();
    let mut started = false;
    let mut quoted = false;
    proof {
        assert(texts(closed@) =~= Seq::<Seq<char>>::empty());
        assert(q@.take(0) =~= Seq::<char>::empty());
    }
    for c in it: q.chars()
        invariant
            it.seq() == q@,
            lex(q@.take(it.index() as int)) == (LexState {
                closed: texts(closed@),
                current: current@,
                started: started,
                quoted: quoted,
            }),
    {
        proof {
            let k = it.index() as int;
            assert(q@.take(k + 1).drop_last() =~= q@.take(k));
            assert(q@.take(k + 1).last() == c);
        }
        let ghost before = texts(closed@);
        let ghost token = current@;
        if c == '"' {
            started = true;
            quoted = !quoted;
        } else if c == ' ' && !quoted {
            if started {
                closed.push(current);
                current = String::new();
                started = false;
                assert(texts(closed@) =~= before.push(token));
            }
        } else {
            current.push(c);
            started = true;
        }
    }
    proof {
        assert(q@.take(q@.len() as int) =~= q@);
    }
    let open = if started {
        Some(current)
    } else {
        None
    };
    Lexed { closed: closed, open: open }
}

} // verus!
