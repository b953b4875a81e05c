//! Where the configuration file lies.

use vstd::prelude::*;
use vstd::string::StringExecFns;
use crate::script::{copy_from, parse_number, spec_number};

verus! {

/// The path of the configuration file under the configuration directory `dir`.
pub fn config_path(dir: &str) -> (res: String)
    ensures
        res@ == dir@ + "/ox/ox.ron"@,
{
    let mut path = String::from_str(dir);
    path.append("/ox/ox.ron");
    path
}

/// The path of the configuration file: under `dir` where the system names a
/// configuration directory, under the home directory's `.config` where it
/// names none.
pub fn config_path_or_default(dir: Option<&str>) -> (res: String)
    ensures
        res@ == match dir {
            Some(d) => d@ + "/ox/ox.ron"@,
            None => "~/.config/ox/ox.ron"@,
        },
{
    match dir {
        Some(d) => config_path(d),
        None => String::from_str("~/.config/ox/ox.ron"),
    }
}

/// The index of the last `:` of `arg`, or nothing where it has none.
pub open spec fn last_colon(arg: Seq<char>) -> Option<int>
    decreases arg.len(),
{
    if arg.len() == 0 {
        None
    } else if arg.last() == ':' {
        Some(arg.len() - 1)
    } else {
        last_colon(arg.drop_last())
    }
}

/// The file and the line that an argument names: `name:100` is line 100 of
/// `name`; an argument without `:`, or with anything but a number that is
/// not negative behind its last `:`, is a file's name as a whole.
pub open spec fn spec_target(arg: Seq<char>) -> (Seq<char>, Option<usize>) {
    match last_colon(arg) {
        None => (arg, None),
        Some(i) => match spec_number(arg.skip(i + 1)) {
            Some(n) => if 0 <= n <= usize::MAX {
                (arg.take(i), Some(n as usize))
            } else {
                (arg, None)
            },
            None => (arg, None),
        },
    }
}

/// Splits a file argument into the file's name and the line to go to.
pub fn file_target(arg: &Vec<char>) -> (res: (Vec<char>, Option<usize>))
    ensures
        res.0@ == spec_target(arg@).0,
        res.1 == spec_target(arg@).1,
{
    let mut i: usize = arg.len();
    assert(arg@.take(i as int) =~= arg@);
    while i > 0 && arg[i - 1] != ':'
        invariant
            i <= arg.len(),
            last_colon(arg@) == last_colon(arg@.take(i as int)),
        decreases i,
    {
        assert(arg@.take(i as int).drop_last() =~= arg@.take(i - 1));
        i -= 1;
    }
    assert(arg@.skip(0) =~= arg@);
    if i == 0 {
        return (copy_from(arg, 0), None);
    }
    assert(arg@.take(i as int).last() == ':');
    let number = copy_from(arg, i);
    match parse_number(&number) {
        Some(n) => {
            if n >= 0 && n as u64 <= usize::MAX as u64 {
                let mut name = copy_from(arg, 0);
                name.truncate(i - 1);
                assert(name@ =~= arg@.take(i - 1));
                (name, Some(n as usize))
            } else {
                (copy_from(arg, 0), None)
            }
        },
        None => (copy_from(arg, 0), None),
    }
}

} // verus!
