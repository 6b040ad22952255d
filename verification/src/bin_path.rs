//! Locating external command-line tools (ffmpeg, ffprobe, cd-paranoia).

use vstd::prelude::*;
use crate::paths::{join, join_chars};
use crate::text::{from_chars, to_chars};
use crate::models::string_views;

verus! {

/// Where Homebrew and the system put command-line tools, in search order.
pub open spec fn tool_dirs() -> Seq<Seq<char>> {
    seq!["/opt/homebrew/bin"@, "/usr/local/bin"@, "/usr/bin"@, "/bin"@]
}

/// The paths where tool `name` is looked for, in order.
pub fn candidate_paths(name: &str) -> (r: Vec<String>)
    ensures
        string_views(r@) == tool_dirs().map_values(|d: Seq<char>| join(d, name@)),
{
    let n = to_chars(name);
    let mut r: Vec<String> = Vec::new();
    r.push(from_chars(&join_chars(&to_chars("/opt/homebrew/bin"), &n)));
    r.push(from_chars(&join_chars(&to_chars("/usr/local/bin"), &n)));
    r.push(from_chars(&join_chars(&to_chars("/usr/bin"), &n)));
    r.push(from_chars(&join_chars(&to_chars("/bin"), &n)));
    assert(string_views(r@) =~= tool_dirs().map_values(|d: Seq<char>| join(d, name@)));
    r
}

/// `Path::is_file`: whether a regular file exists at `path` (following
/// symbolic links). The answer depends on the disk, so nothing is stated.
#[verifier::external_body]
fn is_file(path: &str) -> bool {
    std::path::Path::new(path).is_file()
}

/// The tool path chosen from the candidates and whether each is a file:
/// the first candidate that is a file, or the bare name when none is.
pub open spec fn first_found(candidates: Seq<Seq<char>>, found: Seq<bool>, name: Seq<char>) -> Seq<char>
    decreases candidates.len(),
{
    if candidates.len() == 0 || found.len() == 0 {
        name
    } else if found[0] {
        candidates[0]
    } else {
        first_found(candidates.drop_first(), found.drop_first(), name)
    }
}

/// Picks the first candidate path found to be a file, else `name`.
pub fn first_existing(candidates: &Vec<String>, found: &Vec<bool>, name: &str) -> (r: String)
    requires
        candidates.len() == found.len(),
    ensures
        r@ == first_found(string_views(candidates@), found@, name@),
{
    let ghost cs = string_views(candidates@);
    let mut i: usize = 0;
    assert(cs.skip(0) == cs);
    assert(found@.skip(0) == found@);
    while i < candidates.len()
        invariant
            i <= candidates.len(),
            candidates.len() == found.len(),
            cs == string_views(candidates@),
            first_found(cs, found@, name@) == first_found(cs.skip(i as int), found@.skip(i as int), name@),
        decreases candidates.len() - i,
    {
        assert(cs.skip(i as int)[0] == candidates@[i as int]@);
        assert(found@.skip(i as int)[0] == found@[i as int]);
        if found[i] {
            return candidates[i].clone();
        }
        assert(cs.skip(i as int).drop_first() == cs.skip(i + 1));
        assert(found@.skip(i as int).drop_first() == found@.skip(i + 1));
        i += 1;
    }
    assert(cs.skip(i as int).len() == 0);
    String::from_str(name)
}

/// Resolves an external CLI tool to an absolute path when possible. A
/// packaged .app launched from Finder/LaunchServices gets a minimal PATH
/// that doesn't include Homebrew's bin dirs, so a bare tool name that works
/// under a terminal fails once bundled. The first candidate path that is a
/// regular file wins (directories and later folders are passed over);
/// otherwise the bare name is returned, to resolve via PATH.
pub fn resolve(name: &str) -> (r: String)
    ensures
        exists|found: Seq<bool>|
            found.len() == 4 && r@ == first_found(
                tool_dirs().map_values(|d: Seq<char>| join(d, name@)),
                found,
                name@,
            ),
{
    let candidates = candidate_paths(name);
    let mut found: Vec<bool> = Vec::new();
    let mut i: usize = 0;
    while i < candidates.len()
        invariant
            i <= candidates.len(),
            found.len() == i,
        decreases candidates.len() - i,
    {
        found.push(is_file(candidates[i].as_str()));
        i += 1;
    }
    let r = first_existing(&candidates, &found, name);
    assert(found@.len() == 4);
    r
}

} // verus!
