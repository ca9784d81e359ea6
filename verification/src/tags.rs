//! The tags of an entry, and the one string in which they are stored: the
//! tags in order, separated by single spaces.

use crate::text::texts;
use vstd::prelude::*;
use vstd::string::StringExecFns;

verus! {

/// `parts` written one after the other with a single space between
/// neighbours.
pub open spec fn join_spaces(parts: Seq<Seq<char>>) -> Seq<char>
    decreases parts.len(),
{
    if parts.len() == 0 {
        Seq::empty()
    } else if parts.len() == 1 {
        parts[0]
    } else {
        join_spaces(parts.drop_last()) + seq![' '] + parts.last()
    }
}

/// Whether none of `parts` holds a space.
pub open spec fn space_free(parts: Seq<Seq<char>>) -> bool {
    forall|i: int, j: int| 0 <= i < parts.len() && 0 <= j < parts[i].len() ==> parts[i][j] != ' '
}

/// Adding a character that is no space to the last part adds it to the
/// joined string.
proof fn lemma_join_grows(parts: Seq<Seq<char>>, last: Seq<char>, c: char)
    ensures
        join_spaces(parts.push(last.push(c))) == join_spaces(parts.push(last)).push(c),
{
    let grown = parts.push(last.push(c));
    let plain = parts.push(last);
    assert(grown.drop_last() =~= parts);
    assert(plain.drop_last() =~= parts);
    if parts.len() == 0 {
    } else {
        assert(join_spaces(parts) + seq![' '] + last.push(c) =~= (join_spaces(parts) + seq![' ']
            + last).push(c));
    }
}

/// Opening a new, empty part adds a space to the joined string.
proof fn lemma_join_opens(parts: Seq<Seq<char>>)
    requires
        parts.len() >= 1,
    ensures
        join_spaces(parts.push(Seq::empty())) == join_spaces(parts).push(' '),
{
    let opened = parts.push(Seq::<char>::empty());
    assert(opened.drop_last() =~= parts);
    assert(join_spaces(parts) + seq![' '] + Seq::<char>::empty() =~= join_spaces(parts).push(' '));
}

/// Splits the stored form `stored` at every space. There is always at least
/// one tag; between two neighbouring spaces, before a leading and after a
/// trailing one stands an empty tag.
pub fn split_tags(stored: &str) -> (tags: Vec<String>)
    ensures
        tags.len() >= 1,
        space_free(texts(tags@)),
        join_spaces(texts(tags@)) == stored@,
{
    let mut tags: Vec<String> = Vec::new();
    let mut current = String::new();
    proof {
        assert(texts(tags@).push(current@) =~= seq![Seq::<char>::empty()]);
        assert(stored@.take(0) =~= Seq::<char>::empty());
    }
    for c in it: stored.chars()
        invariant
            it.seq() == stored@,
            space_free(texts(tags@).push(current@)),
            join_spaces(texts(tags@).push(current@)) == stored@.take(it.index() as int),
    {
        let ghost done = texts(tags@);
        let ghost open = current@;
        proof {
            let k = it.index() as int;
            assert(stored@.take(k + 1) =~= stored@.take(k).push(c));
        }
        if c == ' ' {
            tags.push(current);
            current = String::new();
            proof {
                assert(texts(tags@) =~= done.push(open));
                lemma_join_opens(done.push(open));
                let after = texts(tags@).push(current@);
                assert forall|i: int, j: int|
                    0 <= i < after.len() && 0 <= j < after[i].len() implies after[i][j] != ' ' by {
                    assert(after[i] == done.push(open)[i]);
                }
            }
        } else {
            current.push(c);
            proof {
                lemma_join_grows(done, open, c);
                let before = done.push(open);
                let after = done.push(current@);
                assert forall|i: int, j: int|
                    0 <= i < after.len() && 0 <= j < after[i].len() implies after[i][j] != ' ' by {
                    if i < done.len() {
                        assert(after[i] == before[i]);
                    } else if j < open.len() {
                        assert(after[i][j] == before[i][j]);
                    }
                }
            }
        }
    }
    let ghost done = texts(tags@);
    proof {
        assert(stored@.take(stored@.len() as int) =~= stored@);
    }
    tags.push(current);
    assert(texts(tags@) =~= done.push(current@));
    tags
}

/// The stored form of `tags`: the tags in order, a single space between
/// neighbours.
pub fn join_tags(tags: &Vec<String>) -> (stored: String)
    ensures
        stored@ == join_spaces(texts(tags@)),
{
    let mut stored = String::new();
    let mut i: usize = 0;
    proof {
        assert(texts(tags@).take(0) =~= Seq::<Seq<char>>::empty());
    }
    while i < tags.len()
        invariant
            i <= tags.len(),
            stored@ == join_spaces(texts(tags@).take(i as int)),
        decreases tags.len() - i,
    {
        proof {
            let next = texts(tags@).take(i + 1);
            assert(next.drop_last() =~= texts(tags@).take(i as int));
            assert(next.last() == tags[i as int]@);
        }
        if i > 0 {
            stored.push(' ');
        }
        stored.append(tags[i].as_str());
        proof {
            if i > 0 {
                assert(stored@ =~= join_spaces(texts(tags@).take(i as int)) + seq![' ']
                    + tags[i as int]@);
            } else {
                assert(stored@ =~= tags[i as int]@);
            }
        }
        i = i + 1;
    }
    proof {
        assert(texts(tags@).take(tags.len() as int) =~= texts(tags@));
    }
    stored
}

/// A stored form splits in one way only: two lists of tags without spaces
/// that are stored as the same string are the same list. So splitting what
/// `join_tags` made of such tags gives the tags back.
pub proof fn law_split_is_unique(a: Seq<Seq<char>>, b: Seq<Seq<char>>)
    requires
        a.len() >= 1,
        b.len() >= 1,
        space_free(a),
        space_free(b),
        join_spaces(a) == join_spaces(b),
    ensures
        a == b,
    decreases a.len(),
{
    let s = join_spaces(a);
    if a.len() == 1 && b.len() == 1 {
        assert(a =~= b);
    } else if a.len() == 1 {
        let front = join_spaces(b.drop_last());
        assert(s == front + seq![' '] + b.last());
        assert(s[front.len() as int] == ' ');
        assert(a[0][front.len() as int] == ' ');
    } else if b.len() == 1 {
        let front = join_spaces(a.drop_last());
        assert(s == front + seq![' '] + a.last());
        assert(s[front.len() as int] == ' ');
        assert(b[0][front.len() as int] == ' ');
    } else {
        let fa = join_spaces(a.drop_last());
        let fb = join_spaces(b.drop_last());
        let la = a.last();
        let lb = b.last();
        assert(s == fa + seq![' '] + la);
        assert(s == fb + seq![' '] + lb);
        assert(s.len() == fa.len() + 1 + la.len());
        assert(s.len() == fb.len() + 1 + lb.len());
        if la.len() < lb.len() {
            assert(s[fa.len() as int] == ' ');
            assert(s[fa.len() as int] == lb[fa.len() - fb.len() - 1]);
            assert(b[b.len() - 1][fa.len() - fb.len() - 1] == ' ');
        } else if lb.len() < la.len() {
            assert(s[fb.len() as int] == ' ');
            assert(s[fb.len() as int] == la[fb.len() - fa.len() - 1]);
            assert(a[a.len() - 1][fb.len() - fa.len() - 1] == ' ');
        } else {
            assert(fa =~= s.take(fa.len() as int));
            assert(fb =~= s.take(fa.len() as int));
            assert(la =~= s.skip(fa.len() as int + 1));
            assert(lb =~= s.skip(fa.len() as int + 1));
            assert(space_free(a.drop_last())) by {
                assert(forall|i: int| 0 <= i < a.drop_last().len() ==> a.drop_last()[i] == a[i]);
            }
            assert(space_free(b.drop_last())) by {
                assert(forall|i: int| 0 <= i < b.drop_last().len() ==> b.drop_last()[i] == b[i]);
            }
            law_split_is_unique(a.drop_last(), b.drop_last());
            assert(a =~= a.drop_last().push(la));
            assert(b =~= b.drop_last().push(lb));
        }
    }
}

} // verus!
