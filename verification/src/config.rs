//! The settings of a run, and where the database file lies.

use vstd::prelude::*;

verus! {

/// The settings of a run.
#[derive(Debug)]
pub struct Config {
    pub debug: bool,
    pub db_file_location: String,
    pub withId: bool,
    pub query: String,
}

/// `Path::has_root` tells whether the path has a root. What counts as one
/// differs between platforms, so nothing is stated of the answer.
#[verifier::external_body]
fn has_root(dir: &str) -> bool {
    std::path::Path::new(dir).has_root()
}

/// The path that `dir` stands for, given whether it has a root and the home
/// directory `home`. A path with a root stands for itself, and so does one
/// that does not start with a tilde. The tilde alone stands for the home
/// directory. After a tilde and one more character, the rest names a path
/// below the home directory.
pub open spec fn expanded(dir: Seq<char>, rooted: bool, home: Seq<char>) -> Seq<char> {
    if rooted || dir.len() == 0 || dir[0] != '~' {
        dir
    } else if dir.len() == 1 {
        home
    } else {
        home + seq!['/'] + dir.skip(2)
    }
}

/// The path that `dir` stands for, given whether it has a root and the home
/// directory `home`.
pub fn expand_from(dir: &String, rooted: bool, home: &String) -> (path: String)
    ensures
        path@ == expanded(dir@, rooted, home@),
{
    if rooted {
        return dir.clone();
    }
    let mut path = home.clone();
    let mut seen: usize = 0;
    let mut tilde = false;
    for c in it: dir.as_str().chars()
        invariant
            it.seq() == dir@,
            seen == if it.index() < 2 {
                it.index()
            } else {
                2
            },
            it.index() >= 1 ==> tilde == (dir@[0] == '~'),
            path@ == if it.index() <= 1 {
                home@
            } else {
                home@ + seq!['/'] + dir@.take(it.index() as int).skip(2)
            },
    {
        let ghost k = it.index() as int;
        if seen == 0 {
            tilde = c == '~';
            seen = 1;
        } else if seen == 1 {
            path.push('/');
            seen = 2;
            assert(path@ =~= home@ + seq!['/'] + dir@.take(k + 1).skip(2));
        } else {
            path.push(c);
            assert(path@ =~= home@ + seq!['/'] + dir@.take(k + 1).skip(2));
        }
    }
    proof {
        assert(dir@.take(dir@.len() as int) =~= dir@);
    }
    if seen == 0 || !tilde {
        dir.clone()
    } else {
        path
    }
}

/// The path that `dir` stands for, given the home directory `home`: `dir`
/// read as a path with a root or as one without, whichever the platform
/// takes it for.
pub fn expandTilde(dir: &String, home: &String) -> (path: String)
    ensures
        path@ == expanded(dir@, true, home@) || path@ == expanded(dir@, false, home@),
{
    let rooted = has_root(dir.as_str());
    expand_from(dir, rooted, home)
}

/// The settings of a run, from what the command line gave and the home
/// directory `home`.
pub fn initConfig(debug: bool, db_file_location: &String, withId: bool, query: String, home: &String) -> (config:
    Config)
    ensures
        config.debug == debug,
        config.withId == withId,
        config.query == query,
        config.db_file_location@ == expanded(db_file_location@, true, home@)
            || config.db_file_location@ == expanded(db_file_location@, false, home@),
{
    Config {
        debug: debug,
        db_file_location: expandTilde(db_file_location, home),
        withId: withId,
        query: query,
    }
}

} // verus!
