//! Build and run: the classpath of the locked dependencies, the command
//! lines of `javac` and `java`, the main class, and the cache keys of
//! compiled scripts.

use vstd::prelude::*;
use std::collections::hash_map::DefaultHasher;
use std::hash::{Hash, Hasher};
use vstd::std_specs::hash::DefaultHasherAdditionalSpecFns;
use crate::deps::{DepMap, LockFile};
use crate::error::{Error, Result};
use crate::num::{hex, u64_to_hex};
use crate::text::{
    split, views, str_split, owned, concat2, concat3, push_str, push_char, replace_char,
    str_replace_char, join, rfind_char, chars_of, seq_rfind_char, string_of,
};
use crate::util::{path_join, join_path};
use crate::watch::file_name;

verus! {

/// What `<str as Hash>::hash` writes into a `DefaultHasher` for the text
/// `s`, as the byte strings of vstd's model of the hasher's state.  It
/// depends on the text alone.
pub uninterp spec fn str_writes(s: Seq<char>) -> Seq<Seq<u8>>;

/// Feeds a string to a hasher as `Hash` does for `str` (std's
/// `<str as Hash>::hash`): the hasher's state gains `str_writes` of it.
#[verifier::external_body]
fn hash_text(h: &mut DefaultHasher, s: &str)
    ensures
        final(h)@ == old(h)@ + str_writes(s@),
{
    s.hash(h);
}

/// std's `DefaultHasher` hash of a text: a new hasher fed the text.
pub open spec fn text_hash(s: Seq<char>) -> u64 {
    DefaultHasher::spec_finish(str_writes(s))
}

/// What a new hasher holds after being fed each text of `ds` in order.
pub open spec fn texts_writes(ds: Seq<Seq<char>>) -> Seq<Seq<u8>>
    decreases ds.len(),
{
    if ds.len() == 0 {
        Seq::empty()
    } else {
        texts_writes(ds.drop_last()) + str_writes(ds.last())
    }
}

/// std's `DefaultHasher` hash of a list of texts, fed in order.
pub open spec fn texts_hash(ds: Seq<Seq<char>>) -> u64 {
    DefaultHasher::spec_finish(texts_writes(ds))
}

/// The cache key of a script: the hash of `{source hash}:{deps hash}`,
/// each hash in lower-case hexadecimal.
pub open spec fn script_key(source: Seq<char>, deps: Seq<Seq<char>>) -> Seq<char> {
    hex(text_hash(hex(text_hash(source) as nat) + ":"@ + hex(texts_hash(deps) as nat)) as nat)
}

/// Hash of a text, in lower-case hexadecimal (a cache key): std's
/// `DefaultHasher` hash of the string.
pub fn content_hash(content: &str) -> (r: String)
    ensures
        r@ == hex(text_hash(content@) as nat),
{
    let mut h = DefaultHasher::new();
    hash_text(&mut h, content);
    assert(h@ =~= str_writes(content@));
    let n = h.finish();
    u64_to_hex(n)
}

/// Hash of a list of dependencies, in lower-case hexadecimal: std's
/// `DefaultHasher` fed each string in order.
pub fn deps_hash(deps: &[String]) -> (r: String)
    ensures
        r@ == hex(texts_hash(views(deps@)) as nat),
{
    let mut h = DefaultHasher::new();
    let mut i: usize = 0;
    assert(views(deps@).take(0) =~= Seq::<Seq<char>>::empty());
    while i < deps.len()
        invariant
            i <= deps@.len(),
            h@ == texts_writes(views(deps@).take(i as int)),
        decreases deps@.len() - i,
    {
        let ghost w0 = h@;
        hash_text(&mut h, deps[i].as_str());
        assert(views(deps@).take(i + 1).drop_last() =~= views(deps@).take(i as int));
        assert(views(deps@).take(i + 1).last() == deps@[i as int]@);
        i += 1;
    }
    assert(views(deps@).take(deps@.len() as int) =~= views(deps@));
    let n = h.finish();
    u64_to_hex(n)
}

/// Cache key of a compiled script: the hash of `{source hash}:{deps hash}`.
pub fn script_cache_key(source: &str, deps: &[String]) -> (r: String)
    ensures
        r@ == script_key(source@, views(deps@)),
{
    let src_hash = content_hash(source);
    let dep_hash = deps_hash(deps);
    let combined = concat3(src_hash.as_str(), ":", dep_hash.as_str());
    content_hash(combined.as_str())
}

/// Cache directory of a compiled script under the home directory.
pub fn script_cache_dir(home: &str, key: &str) -> (r: String)
    ensures
        r@ == path_join(path_join(path_join(path_join(home@, ".jex"@), "cache"@), "scripts"@), key@),
{
    let a = join_path(home, ".jex");
    let b = join_path(a.as_str(), "cache");
    let c = join_path(b.as_str(), "scripts");
    join_path(c.as_str(), key)
}

/// Expected local path of a jar in the Maven cache.
pub open spec fn jar_path(m2: Seq<char>, group: Seq<char>, artifact: Seq<char>, version: Seq<char>) -> Seq<char> {
    m2 + "/"@ + replace_char(group, '.', "/"@) + "/"@ + artifact + "/"@ + artifact + "-"@ + version
        + ".jar"@
}

/// The jar path of one locked dependency: from its resolved node (group,
/// artifact, version) when resolution worked, otherwise from its
/// coordinate and locked version (none if the coordinate has fewer than
/// two parts).
pub open spec fn classpath_entry(
    m2: Seq<char>,
    coord: Seq<char>,
    version: Seq<char>,
    resolved: Option<(Seq<char>, Seq<char>, Seq<char>)>,
) -> Option<Seq<char>> {
    match resolved {
        Some((g, a, v)) => Some(jar_path(m2, g, a, v)),
        None => {
            let parts = split(coord, ':');
            if parts.len() >= 2 {
                Some(jar_path(m2, parts[0], parts[1], version))
            } else {
                None
            }
        },
    }
}

/// Jar path of `group:artifact:version` under the Maven cache `m2`.
fn jar_path_exec(m2: &str, group: &str, artifact: &str, version: &str) -> (r: String)
    ensures
        r@ == jar_path(m2@, group@, artifact@, version@),
{
    let g = str_replace_char(group, '.', "/");
    let mut s = concat3(m2, "/", g.as_str());
    push_str(&mut s, "/");
    push_str(&mut s, artifact);
    push_str(&mut s, "/");
    push_str(&mut s, artifact);
    push_str(&mut s, "-");
    push_str(&mut s, version);
    push_str(&mut s, ".jar");
    s
}

/// View of an optional resolved node.
pub open spec fn resolved_view(r: Option<(String, String, String)>) -> Option<(Seq<char>, Seq<char>, Seq<char>)> {
    match r {
        Some((g, a, v)) => Some((g@, a@, v@)),
        None => None,
    }
}

/// The jar paths of the locked dependencies, in order.
pub open spec fn classpath_entries(
    m2: Seq<char>,
    entries: Seq<(String, String)>,
    resolved: Seq<Option<(String, String, String)>>,
) -> Seq<Seq<char>>
    decreases entries.len(),
{
    if entries.len() == 0 || resolved.len() < entries.len() {
        Seq::empty()
    } else {
        let n = entries.len() - 1;
        let rest = classpath_entries(m2, entries.drop_last(), resolved.take(n));
        match classpath_entry(m2, entries.last().0@, entries.last().1@, resolved_view(resolved[n])) {
            Some(p) => rest.push(p),
            None => rest,
        }
    }
}

/// The classpath of the locked dependencies: the jar path of each (see
/// `classpath_entry`; `resolved` holds, for each dependency in order, its
/// resolved node when resolution worked), joined with `:`.
pub fn build_classpath(
    m2_cache: &str,
    lock: &LockFile,
    resolved: &Vec<Option<(String, String, String)>>,
) -> (r: Result<String>)
    requires
        lock.dependencies is Some ==> resolved@.len() == lock.dependencies->0.entries@.len(),
    ensures
        r matches Ok(cp) && cp@ == join(
            match lock.dependencies {
                Some(d) => classpath_entries(m2_cache@, d.entries@, resolved@),
                None => Seq::empty(),
            },
            ":"@,
        ),
{
    let mut paths: Vec<String> = Vec::new();
    match &lock.dependencies {
        Some(d) => {
            let ghost es = d.entries@;
            let mut i: usize = 0;
            assert(es.take(0) =~= Seq::<(String, String)>::empty());
            while i < d.entries.len()
                invariant
                    es == d.entries@,
                    resolved@.len() == es.len(),
                    i <= es.len(),
                    views(paths@) == classpath_entries(m2_cache@, es.take(i as int), resolved@.take(i as int)),
                decreases es.len() - i,
            {
                assert(es.take(i + 1).drop_last() =~= es.take(i as int));
                assert(es.take(i + 1).last() == es[i as int]);
                assert(resolved@.take(i + 1).take(i as int) =~= resolved@.take(i as int));
                assert(resolved@.take(i + 1)[i as int] == resolved@[i as int]);
                let (coord, version) = &d.entries[i];
                let ghost p0 = views(paths@);
                match &resolved[i] {
                    Some((g, a, v)) => {
                        paths.push(jar_path_exec(m2_cache, g.as_str(), a.as_str(), v.as_str()));
                        assert(views(paths@) =~= p0.push(jar_path(m2_cache@, g@, a@, v@)));
                    },
                    None => {
                        let parts = str_split(coord.as_str(), ':');
                        proof {
                            assert(views(parts@).len() == parts@.len());
                        }
                        if parts.len() >= 2 {
                            proof {
                                assert(views(parts@)[0] == parts@[0]@);
                                assert(views(parts@)[1] == parts@[1]@);
                            }
                            paths.push(
                                jar_path_exec(
                                    m2_cache,
                                    parts[0].as_str(),
                                    parts[1].as_str(),
                                    version.as_str(),
                                ),
                            );
                            assert(views(paths@) =~= p0.push(
                                jar_path(m2_cache@, parts@[0]@, parts@[1]@, version@),
                            ));
                        }
                    },
                }
                i += 1;
            }
            assert(es.take(es.len() as int) =~= es);
            assert(resolved@.take(es.len() as int) =~= resolved@);
        },
        None => {
            assert(views(paths@) =~= Seq::<Seq<char>>::empty());
        },
    }
    let n = paths.len();
    assert(views(paths@).take(n as int) =~= views(paths@));
    Ok(crate::text::join_prefix(&paths, n, ":"))
}

/// `Path::file_stem` of a file name: the part before its last `.`, unless
/// the name has no `.` or only a leading one.
pub open spec fn stem_of(name: Seq<char>) -> Seq<char> {
    match rfind_char(name, '.') {
        Some(i) => if i > 0 {
            name.subrange(0, i)
        } else {
            name
        },
        None => name,
    }
}

/// Message when no main class can be found.
pub open spec fn no_main_message() -> Seq<char> {
    "无法确定主类名：请在 jex.toml 中设置 [project].main 或传入文件路径"@
}

/// The main class run for `file`: the configured one, else the file's
/// stem.
pub fn main_class(configured: Option<&str>, file: &str) -> (r: Result<String>)
    ensures
        match configured {
            Some(m) => r matches Ok(c) && c@ == m@,
            None => match file_name(file@) {
                Some(f) => r matches Ok(c) && c@ == stem_of(f),
                None => r matches Err(e) && e.0@ == no_main_message(),
            },
        },
{
    match configured {
        Some(m) => Ok(owned(m)),
        None => {
            match crate::watch::path_file_name(file) {
                Some(f) => {
                    let v = chars_of(f.as_str());
                    match seq_rfind_char(&v, '.') {
                        Some(i) => if i > 0 {
                            Ok(string_of(&v, 0, i))
                        } else {
                            Ok(f)
                        },
                        None => Ok(f),
                    }
                },
                None => Err(
                    Error::new(
                        owned("无法确定主类名：请在 jex.toml 中设置 [project].main 或传入文件路径"),
                    ),
                ),
            }
        },
    }
}

/// Arguments of `javac`: the classpath, the output directory, the files,
/// then the configured compiler arguments.
pub fn javac_args(classpath: &str, build_dir: &str, files: &[String], compiler_args: &[String]) -> (r: Vec<String>)
    ensures
        views(r@) == seq!["-cp"@, classpath@, "-d"@, build_dir@] + views(files@) + views(compiler_args@),
{
    let mut a: Vec<String> = Vec::new();
    a.push(owned("-cp"));
    a.push(owned(classpath));
    a.push(owned("-d"));
    a.push(owned(build_dir));
    let ghost base = views(a@);
    assert(base =~= seq!["-cp"@, classpath@, "-d"@, build_dir@]);
    append_all(&mut a, files);
    append_all(&mut a, compiler_args);
    a
}

/// Arguments of `java`: the classpath (build directory first), the main
/// class, the configured JVM arguments, then the user's arguments.
pub fn java_args(
    build_dir: &str,
    classpath: &str,
    main: &str,
    jvm_args: &[String],
    args: &[String],
) -> (r: Vec<String>)
    ensures
        views(r@) == seq!["-cp"@, build_dir@ + ":"@ + classpath@, main@] + views(jvm_args@) + views(
            args@,
        ),
{
    let mut a: Vec<String> = Vec::new();
    a.push(owned("-cp"));
    a.push(concat3(build_dir, ":", classpath));
    a.push(owned(main));
    assert(views(a@) =~= seq!["-cp"@, build_dir@ + ":"@ + classpath@, main@]);
    append_all(&mut a, jvm_args);
    append_all(&mut a, args);
    a
}

/// Appends copies of `more` to `v`.
fn append_all(v: &mut Vec<String>, more: &[String])
    ensures
        views(final(v)@) == views(old(v)@) + views(more@),
{
    let ghost v0 = views(v@);
    let mut i: usize = 0;
    while i < more.len()
        invariant
            i <= more@.len(),
            views(v@) == v0 + views(more@.take(i as int)),
        decreases more@.len() - i,
    {
        let ghost b = views(v@);
        v.push(more[i].clone());
        assert(views(v@) =~= b.push(more@[i as int]@));
        assert(views(more@.take(i + 1)) =~= views(more@.take(i as int)).push(more@[i as int]@));
        i += 1;
    }
    assert(more@.take(i as int) =~= more@);
}

} // verus!
