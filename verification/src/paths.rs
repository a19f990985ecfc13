//! Where the files of the program lie below the user's home directory.

use vstd::prelude::*;

verus! {

/// What `std::path::Path::join` makes of a path and a name. It is named,
/// not written out: which character parts two components of a path, and
/// which names count as absolute and take the place of the path they are
/// joined to, is a matter of the platform that the program is built for.
pub uninterp spec fn path_join(base: Seq<char>, name: Seq<char>) -> Seq<char>;

/// Joins `name` to `base` with `std::path::Path::join`. Both are given and
/// handed back as text. Taken on trust: the result is a function of the two
/// alone, named `path_join`.
#[verifier::external_body]
fn join(base: &str, name: &str) -> (joined: String)
    ensures
        joined@ == path_join(base@, name@),
{
    std::path::Path::new(base).join(name).to_string_lossy().into_owned()
}

/// The path of the `file` in the directory `termtint` in the directory
/// `area` of the home directory.
pub open spec fn path_in_home(home: Seq<char>, area: Seq<char>, file: Seq<char>) -> Seq<char> {
    path_join(path_join(path_join(home, area), "termtint"@), file)
}

fn in_home(home: &str, area: &str, file: &str) -> (path: String)
    ensures
        path@ == path_in_home(home@, area@, file@),
{
    let first = join(home, area);
    let second = join(first.as_str(), "termtint");
    join(second.as_str(), file)
}

/// The directory that holds one directory for each terminal session.
pub fn sessions_dir_for_home(home: &str) -> (path: String)
    ensures
        path@ == path_in_home(home@, ".cache"@, "sessions"@),
{
    in_home(home, ".cache", "sessions")
}

/// The file that holds the record of the state that was applied last.
pub fn state_file_path_for_home(home: &str) -> (path: String)
    ensures
        path@ == path_in_home(home@, ".cache"@, "last_config"@),
{
    in_home(home, ".cache", "last_config")
}

/// The file that holds the user's configuration.
pub fn config_file_path_for_home(home: &str) -> (path: String)
    ensures
        path@ == path_in_home(home@, ".config"@, "config.toml"@),
{
    in_home(home, ".config", "config.toml")
}

} // verus!
