//! Watch mode: which changed paths trigger a rebuild, and the debounce
//! between rebuilds.  Paths are `/`-separated, read as std's `Path` reads
//! them on Unix.

use vstd::prelude::*;
use crate::text::{split, views, str_split, str_eq, owned, rfind_char, chars_of, seq_rfind_char,
    string_of, concat2};

verus! {

/// What to watch and how.
#[derive(Debug, Clone)]
pub struct WatchConfig {
    /// Directory watched.
    pub dir: String,
    /// Minimum time between two handled events, in milliseconds.
    pub debounce_ms: u64,
    /// File extensions (with their dot) that count.
    pub patterns: Vec<String>,
}

impl Default for WatchConfig {
    fn default() -> (r: Self)
        ensures
            r.dir@ == "src"@,
            r.debounce_ms == 500,
            views(r.patterns@) == seq![".java"@],
    {
        let mut patterns: Vec<String> = Vec::new();
        patterns.push(owned(".java"));
        proof {
            assert(views(patterns@) =~= seq![".java"@]);
        }
        WatchConfig { dir: owned("src"), debounce_ms: 500, patterns }
    }
}

/// Last `/`-separated piece that is a path component (not empty, not `.`).
pub open spec fn last_component(pieces: Seq<Seq<char>>) -> Option<Seq<char>>
    decreases pieces.len(),
{
    if pieces.len() == 0 {
        None
    } else if pieces.last() == ""@ || pieces.last() == "."@ {
        last_component(pieces.drop_last())
    } else {
        Some(pieces.last())
    }
}

/// `Path::file_name`: the last component unless it is `..`.
pub open spec fn file_name(path: Seq<char>) -> Option<Seq<char>> {
    match last_component(split(path, '/')) {
        Some(c) => if c == ".."@ {
            None
        } else {
            Some(c)
        },
        None => None,
    }
}

/// `Path::extension` of a file name: the text after its last `.`, unless
/// the name has no `.` or only a leading one.
pub open spec fn extension_of(name: Seq<char>) -> Option<Seq<char>> {
    match rfind_char(name, '.') {
        Some(i) => if i > 0 {
            Some(name.subrange(i + 1, name.len() as int))
        } else {
            None
        },
        None => None,
    }
}

/// The path's extension, with a leading dot, is one of the patterns.
pub open spec fn path_matches(path: Seq<char>, patterns: Seq<Seq<char>>) -> bool {
    match file_name(path) {
        Some(f) => match extension_of(f) {
            Some(e) => patterns.contains("."@ + e),
            None => false,
        },
        None => false,
    }
}

/// The file name of a path.
pub(crate) fn path_file_name(path: &str) -> (r: Option<String>)
    ensures
        match r {
            Some(f) => file_name(path@) == Some(f@),
            None => file_name(path@) is None,
        },
{
    let pieces = str_split(path, '/');
    let ghost s = views(pieces@);
    let mut i = pieces.len();
    assert(s.take(i as int) =~= s);
    while i > 0
        invariant
            s == views(pieces@),
            s == split(path@, '/'),
            i <= pieces@.len(),
            s.len() == pieces@.len(),
            last_component(s) == last_component(s.take(i as int)),
        decreases i,
    {
        let p = pieces[i - 1].as_str();
        assert(s.take(i as int).last() == p@);
        assert(s.take(i as int).drop_last() =~= s.take(i - 1));
        if !(str_eq(p, "") || str_eq(p, ".")) {
            if str_eq(p, "..") {
                return None;
            }
            return Some(owned(p));
        }
        i -= 1;
    }
    None
}

/// The extension of a file name.
fn name_extension(name: &str) -> (r: Option<String>)
    ensures
        match r {
            Some(e) => extension_of(name@) == Some(e@),
            None => extension_of(name@) is None,
        },
{
    let v = chars_of(name);
    let n = v.len();
    match seq_rfind_char(&v, '.') {
        Some(i) => if i > 0 {
            Some(string_of(&v, i + 1, n))
        } else {
            None
        },
        None => None,
    }
}

/// Whether the path's extension (with its dot) is one of `patterns`.
pub fn matches_patterns(path: &str, patterns: &[String]) -> (r: bool)
    ensures
        r == path_matches(path@, patterns@.map_values(|p: String| p@)),
{
    let f = match path_file_name(path) {
        Some(f) => f,
        None => return false,
    };
    let e = match name_extension(f.as_str()) {
        Some(e) => e,
        None => return false,
    };
    let ext = concat2(".", e.as_str());
    let ghost ps = patterns@.map_values(|p: String| p@);
    let mut k: usize = 0;
    while k < patterns.len()
        invariant
            k <= patterns@.len(),
            ps == patterns@.map_values(|p: String| p@),
            forall|j: int| 0 <= j < k ==> ps[j] != ext@,
            file_name(path@) == Some(f@),
            extension_of(f@) == Some(e@),
            ext@ == "."@ + e@,
        decreases patterns@.len() - k,
    {
        if str_eq(patterns[k].as_str(), ext.as_str()) {
            assert(ps[k as int] == ext@);
            assert(ps.contains(ext@));
            return true;
        }
        k += 1;
    }
    false
}

/// A directory name that watch mode never looks into.
pub open spec fn ignored_dir(name: Seq<char>) -> bool {
    name == "target"@ || name == ".git"@ || name == ".dev-flow"@
}

/// Some component of the path is `target`, `.git` or `.dev-flow`.
pub open spec fn path_ignored(path: Seq<char>) -> bool {
    exists|k: int| 0 <= k < split(path, '/').len() && ignored_dir(#[trigger] split(path, '/')[k])
}

/// Whether a path lies under `target/`, `.git/` or `.dev-flow/`.
pub fn should_ignore(path: &str) -> (r: bool)
    ensures
        r == path_ignored(path@),
{
    let pieces = str_split(path, '/');
    let ghost s = views(pieces@);
    let mut k: usize = 0;
    while k < pieces.len()
        invariant
            s == views(pieces@),
            s == split(path@, '/'),
            s.len() == pieces@.len(),
            k <= pieces@.len(),
            forall|j: int| 0 <= j < k ==> !ignored_dir(#[trigger] s[j]),
        decreases pieces@.len() - k,
    {
        let p = pieces[k].as_str();
        assert(s[k as int] == p@);
        if str_eq(p, "target") || str_eq(p, ".git") || str_eq(p, ".dev-flow") {
            return true;
        }
        k += 1;
    }
    false
}

/// A changed path is handed on: it is not ignored and its extension is
/// watched.
pub fn should_forward(path: &str, patterns: &[String]) -> (r: bool)
    ensures
        r == (!path_ignored(path@) && path_matches(path@, patterns@.map_values(|p: String| p@))),
{
    !should_ignore(path) && matches_patterns(path, patterns)
}

/// An event is handled only when at least `debounce_ms` have passed since
/// the last handled one.
pub fn debounce_elapsed(elapsed_nanos: u128, debounce_ms: u64) -> (r: bool)
    ensures
        r == (elapsed_nanos >= debounce_ms * 1_000_000),
{
    let limit: u128 = debounce_ms as u128 * 1_000_000;
    elapsed_nanos >= limit
}

} // verus!
