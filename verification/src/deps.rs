//! Project configuration (`jex.toml`), lock file (`jex.lock.toml`), and
//! the dependency map they hold: what `init`, `add`, `remove`, `update`
//! and `why` do to them.

use vstd::prelude::*;
use crate::error::{Error, Result};
use crate::text::{
    split, views, str_split, str_eq, owned, concat2, concat3, join_pair, seq_eq, chars_of,
    starts_with, lines, trim, str_lines, str_starts_with, str_trim, string_of, trim_bounds,
};
use crate::util::{parse_coord, invalid_coord_message};

verus! {

// ───────────────────────────── dependency map ─────────────────────────────

/// Dependencies by coordinate: coordinate → version, each coordinate at
/// most once, kept in insertion order.
#[derive(Debug, Clone)]
pub struct DepMap {
    pub entries: Vec<(String, String)>,
}

/// Map of (key, value) pairs, a later pair for a key winning.
pub open spec fn pairs_map(s: Seq<(String, String)>) -> Map<Seq<char>, Seq<char>>
    decreases s.len(),
{
    if s.len() == 0 {
        Map::empty()
    } else {
        pairs_map(s.drop_last()).insert(s.last().0@, s.last().1@)
    }
}

/// No key occurs twice.
pub open spec fn distinct_keys(s: Seq<(String, String)>) -> bool {
    forall|i: int, j: int| 0 <= i < j < s.len() ==> (#[trigger] s[i]).0@ != (#[trigger] s[j]).0@
}

/// Keys of the pairs, in order.
pub open spec fn keys_of(s: Seq<(String, String)>) -> Seq<Seq<char>> {
    s.map_values(|e: (String, String)| e.0@)
}

impl View for DepMap {
    type V = Map<Seq<char>, Seq<char>>;

    open spec fn view(&self) -> Map<Seq<char>, Seq<char>> {
        pairs_map(self.entries@)
    }
}

/// The map holds key `k` exactly when some pair has it, with that pair's
/// value.
pub proof fn lemma_pairs_map(s: Seq<(String, String)>)
    requires
        distinct_keys(s),
    ensures
        forall|k: Seq<char>|
            #[trigger] pairs_map(s).contains_key(k) <==> exists|i: int|
                0 <= i < s.len() && (#[trigger] s[i]).0@ == k,
        forall|i: int| 0 <= i < s.len() ==> #[trigger] pairs_map(s)[s[i].0@] == s[i].1@,
        pairs_map(s).dom().finite(),
        pairs_map(s).dom().len() == s.len(),
    decreases s.len(),
{
    if s.len() > 0 {
        let t = s.drop_last();
        assert(distinct_keys(t)) by {
            assert forall|i: int, j: int| 0 <= i < j < t.len() implies (#[trigger] t[i]).0@ != (
            #[trigger] t[j]).0@ by {
                assert(t[i] == s[i] && t[j] == s[j]);
            }
        }
        lemma_pairs_map(t);
        let last = s.last();
        assert(!pairs_map(t).contains_key(last.0@)) by {
            if pairs_map(t).contains_key(last.0@) {
                let i = choose|i: int| 0 <= i < t.len() && (#[trigger] t[i]).0@ == last.0@;
                assert(s[i] == t[i]);
                assert(s[s.len() - 1] == last);
            }
        }
        assert forall|k: Seq<char>| #[trigger] pairs_map(s).contains_key(k) <==> exists|i: int|
            0 <= i < s.len() && (#[trigger] s[i]).0@ == k by {
            if pairs_map(s).contains_key(k) {
                if k == last.0@ {
                    assert(s[s.len() - 1].0@ == k);
                } else {
                    let i = choose|i: int| 0 <= i < t.len() && (#[trigger] t[i]).0@ == k;
                    assert(s[i] == t[i]);
                }
            }
            if exists|i: int| 0 <= i < s.len() && (#[trigger] s[i]).0@ == k {
                let i = choose|i: int| 0 <= i < s.len() && (#[trigger] s[i]).0@ == k;
                if i < s.len() - 1 {
                    assert(t[i] == s[i]);
                }
            }
        }
        assert forall|i: int| 0 <= i < s.len() implies #[trigger] pairs_map(s)[s[i].0@]
            == s[i].1@ by {
            if i < s.len() - 1 {
                assert(t[i] == s[i]);
                assert(s[i].0@ != last.0@);
            }
        }
    }
}

impl DepMap {
    /// The pairs are well formed: no coordinate twice.
    pub open spec fn wf(&self) -> bool {
        distinct_keys(self.entries@)
    }

    /// An empty map.
    pub fn new() -> (r: DepMap)
        ensures
            r.wf(),
            r@ == Map::<Seq<char>, Seq<char>>::empty(),
            r.entries@.len() == 0,
    {
        DepMap { entries: Vec::new() }
    }

    /// A copy of the map, pairs in the same order.
    pub fn copy(&self) -> (r: DepMap)
        ensures
            r.entries@.map_values(|e: (String, String)| (e.0@, e.1@)) == self.entries@.map_values(
                |e: (String, String)| (e.0@, e.1@),
            ),
            self.wf() ==> r.wf(),
            r@ == self@,
    {
        let mut entries: Vec<(String, String)> = Vec::new();
        let mut i: usize = 0;
        assert(self.entries@.take(0) =~= Seq::<(String, String)>::empty());
        while i < self.entries.len()
            invariant
                i <= self.entries@.len(),
                entries@.map_values(|e: (String, String)| (e.0@, e.1@)) == self.entries@.take(
                    i as int,
                ).map_values(|e: (String, String)| (e.0@, e.1@)),
                entries@.len() == i,
                pairs_map(entries@) == pairs_map(self.entries@.take(i as int)),
            decreases self.entries@.len() - i,
        {
            let ghost e0 = entries@;
            let k = self.entries[i].0.clone();
            let v = self.entries[i].1.clone();
            assert(k@ == self.entries@[i as int].0@ && v@ == self.entries@[i as int].1@);
            entries.push((k, v));
            assert(entries@[i as int].0@ == self.entries@[i as int].0@);
            assert(self.entries@.take(i + 1).drop_last() =~= self.entries@.take(i as int));
            assert(self.entries@.take(i + 1).last() == self.entries@[i as int]);
            assert(entries@.drop_last() =~= e0);
            assert(entries@.map_values(|e: (String, String)| (e.0@, e.1@)) =~= e0.map_values(
                |e: (String, String)| (e.0@, e.1@),
            ).push((self.entries@[i as int].0@, self.entries@[i as int].1@)));
            assert(self.entries@.take(i + 1).map_values(|e: (String, String)| (e.0@, e.1@))
                =~= self.entries@.take(i as int).map_values(|e: (String, String)| (e.0@, e.1@)).push(
                (self.entries@[i as int].0@, self.entries@[i as int].1@),
            ));
            i += 1;
        }
        assert(self.entries@.take(i as int) =~= self.entries@);
        let r = DepMap { entries };
        proof {
            if self.wf() {
                assert forall|a: int, b: int| 0 <= a < b < r.entries@.len() implies (
                #[trigger] r.entries@[a]).0@ != (#[trigger] r.entries@[b]).0@ by {
                    let m = r.entries@.map_values(|e: (String, String)| (e.0@, e.1@));
                    let n = self.entries@.map_values(|e: (String, String)| (e.0@, e.1@));
                    assert(m[a] == n[a] && m[b] == n[b]);
                }
            }
        }
        r
    }

    /// Number of dependencies.
    pub fn len(&self) -> (r: usize)
        requires
            self.wf(),
        ensures
            r == self@.dom().len(),
    {
        proof {
            lemma_pairs_map(self.entries@);
        }
        self.entries.len()
    }

    /// Whether the map is empty.
    pub fn is_empty(&self) -> (r: bool)
        requires
            self.wf(),
        ensures
            r == (self@.dom().len() == 0),
    {
        self.len() == 0
    }

    /// Position of `key` among the pairs.
    fn position(&self, key: &str) -> (r: Option<usize>)
        requires
            self.wf(),
        ensures
            match r {
                Some(i) => i < self.entries@.len() && self.entries@[i as int].0@ == key@,
                None => forall|i: int|
                    0 <= i < self.entries@.len() ==> (#[trigger] self.entries@[i]).0@ != key@,
            },
    {
        let mut i: usize = 0;
        while i < self.entries.len()
            invariant
                i <= self.entries@.len(),
                forall|j: int| 0 <= j < i ==> (#[trigger] self.entries@[j]).0@ != key@,
            decreases self.entries@.len() - i,
        {
            if str_eq(self.entries[i].0.as_str(), key) {
                return Some(i);
            }
            i += 1;
        }
        None
    }

    /// The version of `key`, if present.
    pub fn get(&self, key: &str) -> (r: Option<&String>)
        requires
            self.wf(),
        ensures
            match r {
                Some(v) => self@.contains_key(key@) && self@[key@] == v@,
                None => !self@.contains_key(key@),
            },
    {
        proof {
            lemma_pairs_map(self.entries@);
        }
        match self.position(key) {
            Some(i) => Some(&self.entries[i].1),
            None => None,
        }
    }

    /// Whether `key` is present.
    pub fn contains_key(&self, key: &str) -> (r: bool)
        requires
            self.wf(),
        ensures
            r == self@.contains_key(key@),
    {
        match self.get(key) {
            Some(_) => true,
            None => false,
        }
    }

    /// Sets the version of `key`, returning the previous one.
    pub fn insert(&mut self, key: String, value: String) -> (r: Option<String>)
        requires
            old(self).wf(),
        ensures
            final(self).wf(),
            final(self)@ == old(self)@.insert(key@, value@),
            match r {
                Some(v) => old(self)@.contains_key(key@) && old(self)@[key@] == v@,
                None => !old(self)@.contains_key(key@),
            },
    {
        proof {
            lemma_pairs_map(self.entries@);
        }
        let ghost s0 = self.entries@;
        match self.position(key.as_str()) {
            Some(i) => {
                let prev = self.entries[i].1.clone();
                self.entries.set(i, (key, value));
                let ghost s1 = self.entries@;
                proof {
                    assert(distinct_keys(s1)) by {
                        assert forall|a: int, b: int| 0 <= a < b < s1.len() implies (
                        #[trigger] s1[a]).0@ != (#[trigger] s1[b]).0@ by {
                            assert(s0[a].0@ == s1[a].0@);
                            assert(s0[b].0@ == s1[b].0@);
                        }
                    }
                    lemma_pairs_map(s1);
                    assert(pairs_map(s1) =~= pairs_map(s0).insert(key@, value@)) by {
                        assert forall|k: Seq<char>| #[trigger] pairs_map(s1).contains_key(k)
                            == pairs_map(s0).insert(key@, value@).contains_key(k) by {
                            if pairs_map(s1).contains_key(k) {
                                let j = choose|j: int| 0 <= j < s1.len() && (#[trigger] s1[j]).0@ == k;
                                assert(s0[j].0@ == s1[j].0@);
                            }
                            if pairs_map(s0).contains_key(k) {
                                let j = choose|j: int| 0 <= j < s0.len() && (#[trigger] s0[j]).0@ == k;
                                assert(s0[j].0@ == s1[j].0@);
                            }
                            assert(s1[i as int].0@ == key@);
                        }
                        assert forall|k: Seq<char>| #[trigger] pairs_map(s1).contains_key(k)
                            implies pairs_map(s1)[k] == pairs_map(s0).insert(key@, value@)[k] by {
                            let j = choose|j: int| 0 <= j < s1.len() && (#[trigger] s1[j]).0@ == k;
                            assert(pairs_map(s1)[s1[j].0@] == s1[j].1@);
                            if j != i {
                                assert(s0[j] == s1[j]);
                                assert(pairs_map(s0)[s0[j].0@] == s0[j].1@);
                            }
                        }
                    }
                }
                Some(prev)
            },
            None => {
                self.entries.push((key, value));
                let ghost s1 = self.entries@;
                proof {
                    assert(s1.drop_last() =~= s0);
                    assert(distinct_keys(s1)) by {
                        assert forall|a: int, b: int| 0 <= a < b < s1.len() implies (
                        #[trigger] s1[a]).0@ != (#[trigger] s1[b]).0@ by {
                            if b == s1.len() - 1 {
                                assert(s1[a] == s0[a]);
                            } else {
                                assert(s1[a] == s0[a] && s1[b] == s0[b]);
                            }
                        }
                    }
                }
                None
            },
        }
    }

    /// Removes `key`, returning its version.
    pub fn remove(&mut self, key: &str) -> (r: Option<String>)
        requires
            old(self).wf(),
        ensures
            final(self).wf(),
            final(self)@ == old(self)@.remove(key@),
            match r {
                Some(v) => old(self)@.contains_key(key@) && old(self)@[key@] == v@,
                None => !old(self)@.contains_key(key@),
            },
    {
        proof {
            lemma_pairs_map(self.entries@);
        }
        let ghost s0 = self.entries@;
        match self.position(key) {
            Some(i) => {
                let (_, v) = self.entries.remove(i);
                let ghost s1 = self.entries@;
                proof {
                    assert(s1 =~= s0.remove(i as int));
                    assert(distinct_keys(s1)) by {
                        assert forall|a: int, b: int| 0 <= a < b < s1.len() implies (
                        #[trigger] s1[a]).0@ != (#[trigger] s1[b]).0@ by {
                            let a0 = if a < i {
                                a
                            } else {
                                a + 1
                            };
                            let b0 = if b < i {
                                b
                            } else {
                                b + 1
                            };
                            assert(s1[a] == s0[a0] && s1[b] == s0[b0]);
                        }
                    }
                    lemma_pairs_map(s1);
                    assert(pairs_map(s1) =~= pairs_map(s0).remove(key@)) by {
                        assert forall|k: Seq<char>| #[trigger] pairs_map(s1).contains_key(k)
                            == pairs_map(s0).remove(key@).contains_key(k) by {
                            if pairs_map(s1).contains_key(k) {
                                let j = choose|j: int| 0 <= j < s1.len() && (#[trigger] s1[j]).0@ == k;
                                let j0 = if j < i {
                                    j
                                } else {
                                    j + 1
                                };
                                assert(s1[j] == s0[j0]);
                                assert(s0[i as int].0@ == key@);
                            }
                            if pairs_map(s0).contains_key(k) && k != key@ {
                                let j = choose|j: int| 0 <= j < s0.len() && (#[trigger] s0[j]).0@ == k;
                                assert(j != i);
                                let j1 = if j < i {
                                    j
                                } else {
                                    j - 1
                                };
                                assert(s1[j1] == s0[j]);
                            }
                        }
                        assert forall|k: Seq<char>| #[trigger] pairs_map(s1).contains_key(k)
                            implies pairs_map(s1)[k] == pairs_map(s0).remove(key@)[k] by {
                            let j = choose|j: int| 0 <= j < s1.len() && (#[trigger] s1[j]).0@ == k;
                            let j0 = if j < i {
                                j
                            } else {
                                j + 1
                            };
                            assert(s1[j] == s0[j0]);
                            assert(pairs_map(s1)[s1[j].0@] == s1[j].1@);
                            assert(pairs_map(s0)[s0[j0].0@] == s0[j0].1@);
                        }
                    }
                }
                Some(v)
            },
            None => {
                proof {
                    assert(pairs_map(s0).remove(key@) =~= pairs_map(s0));
                }
                None
            },
        }
    }
}

/// A version written for a coordinate is what reading it gives back, and
/// other coordinates keep their versions.
pub proof fn lemma_insert_then_get(m: Map<Seq<char>, Seq<char>>, k: Seq<char>, v: Seq<char>, other: Seq<char>)
    requires
        other != k,
    ensures
        m.insert(k, v).contains_key(k),
        m.insert(k, v)[k] == v,
        m.insert(k, v).contains_key(other) == m.contains_key(other),
        m.contains_key(other) ==> m.insert(k, v)[other] == m[other],
{
}

/// A removed coordinate is gone, and other coordinates are untouched.
pub proof fn lemma_remove_then_get(m: Map<Seq<char>, Seq<char>>, k: Seq<char>, other: Seq<char>)
    requires
        other != k,
    ensures
        !m.remove(k).contains_key(k),
        m.remove(k).contains_key(other) == m.contains_key(other),
        m.contains_key(other) ==> m.remove(k)[other] == m[other],
{
}

// ───────────────────────────── configuration ─────────────────────────────

/// The project section of `jex.toml`.
#[derive(Debug, Clone)]
pub struct ProjectInfo {
    pub name: String,
    pub java: Option<String>,
    pub main: Option<String>,
}

/// The build section of `jex.toml`.
#[derive(Debug, Clone)]
pub struct BuildConfig {
    pub output: Option<String>,
    pub sources: Option<Vec<String>>,
    pub resources: Option<Vec<String>>,
    pub compiler_args: Option<Vec<String>>,
    pub jvm_args: Option<Vec<String>>,
    pub env: Option<Vec<(String, String)>>,
}

/// A TOML value of the repositories section.
#[derive(Debug)]
pub enum TOMLValue {
    Bool(bool),
    String(String),
    Table(Vec<(String, TOMLValue)>),
}

/// `jex.toml`.
#[derive(Debug)]
pub struct ProjectConfig {
    pub project: Option<ProjectInfo>,
    pub dependencies: Option<DepMap>,
    pub repositories: Option<Vec<(String, TOMLValue)>>,
    pub build: Option<BuildConfig>,
}

/// `jex.lock.toml`.
#[derive(Debug, Clone)]
pub struct LockFile {
    pub lockfile_version: Option<u32>,
    pub dependencies: Option<DepMap>,
}

/// The configuration's dependency map is well formed where present.
pub open spec fn config_wf(c: ProjectConfig) -> bool {
    match c.dependencies {
        Some(d) => d.wf(),
        None => true,
    }
}

/// The configuration's dependencies (none when the section is missing).
pub open spec fn config_deps(c: ProjectConfig) -> Map<Seq<char>, Seq<char>> {
    match c.dependencies {
        Some(d) => d@,
        None => Map::empty(),
    }
}

/// The lock file's dependencies (none when the section is missing).
pub open spec fn lock_deps(l: LockFile) -> Map<Seq<char>, Seq<char>> {
    match l.dependencies {
        Some(d) => d@,
        None => Map::empty(),
    }
}

/// The lock file read when there is none: version 1, no dependencies.
pub fn empty_lock() -> (r: LockFile)
    ensures
        r.lockfile_version == Some(1u32),
        r.dependencies matches Some(d) && d.wf() && d.entries@.len() == 0,
{
    LockFile { lockfile_version: Some(1), dependencies: Some(DepMap::new()) }
}

/// The configuration `jex init` writes for a project named `name`
/// (`demo` when none is given).
pub fn init_config(name: Option<&str>) -> (r: ProjectConfig)
    ensures
        r.project is Some,
        r.project->0.name@ == match name {
            Some(n) => n@,
            None => "demo"@,
        },
        r.project->0.java is Some,
        r.project->0.java->0@ == "21"@,
        r.project->0.main is None,
        r.dependencies is Some,
        r.dependencies->0.wf(),
        r.dependencies->0.entries@.len() == 0,
        r.repositories is Some,
        r.repositories->0@.len() == 1,
        r.repositories->0@[0].0@ == "maven-central"@,
        r.repositories->0@[0].1 == TOMLValue::Bool(true),
        r.build is Some,
        r.build->0.output is Some,
        r.build->0.output->0@ == ".jex-build"@,
        r.build->0.sources is Some,
        views(r.build->0.sources->0@) == seq!["src"@],
        r.build->0.resources is Some,
        views(r.build->0.resources->0@) == seq!["src/main/resources"@],
        r.build->0.compiler_args is Some,
        views(r.build->0.compiler_args->0@) == seq!["-parameters"@, "-encoding"@, "UTF-8"@],
        r.build->0.jvm_args is None,
        r.build->0.env is None,
{
    let project_name = match name {
        Some(n) => n,
        None => "demo",
    };
    let mut repos: Vec<(String, TOMLValue)> = Vec::new();
    repos.push((owned("maven-central"), TOMLValue::Bool(true)));
    let mut sources: Vec<String> = Vec::new();
    sources.push(owned("src"));
    let mut resources: Vec<String> = Vec::new();
    resources.push(owned("src/main/resources"));
    let mut compiler_args: Vec<String> = Vec::new();
    compiler_args.push(owned("-parameters"));
    compiler_args.push(owned("-encoding"));
    compiler_args.push(owned("UTF-8"));
    proof {
        assert(views(sources@) =~= seq!["src"@]);
        assert(views(resources@) =~= seq!["src/main/resources"@]);
        assert(views(compiler_args@) =~= seq!["-parameters"@, "-encoding"@, "UTF-8"@]);
    }
    ProjectConfig {
        project: Some(
            ProjectInfo { name: owned(project_name), java: Some(owned("21")), main: None },
        ),
        dependencies: Some(DepMap::new()),
        repositories: Some(repos),
        build: Some(
            BuildConfig {
                output: Some(owned(".jex-build")),
                sources: Some(sources),
                resources: Some(resources),
                compiler_args: Some(compiler_args),
                jvm_args: None,
                env: None,
            },
        ),
    }
}

/// The coordinate `group:artifact` of a coordinate given on the command
/// line (its first two `:`-separated parts).
pub fn full_coordinate(coord: &str) -> (r: Result<String>)
    ensures
        match r {
            Ok(c) => split(coord@, ':').len() >= 2 && c@ == split(coord@, ':')[0].push(':')
                + split(coord@, ':')[1],
            Err(e) => split(coord@, ':').len() < 2 && e.0@ == invalid_coord_message(coord@),
        },
{
    match parse_coord(coord) {
        Ok((g, a)) => Ok(join_pair(g.as_str(), ':', a.as_str())),
        Err(e) => Err(e),
    }
}

/// Adds (or re-versions) a dependency in the configuration, creating the
/// dependencies section if missing.
pub fn add_to_config(config: &mut ProjectConfig, full_coord: &str, version: &str)
    requires
        config_wf(*old(config)),
    ensures
        config_wf(*final(config)),
        final(config).dependencies is Some,
        config_deps(*final(config)) == config_deps(*old(config)).insert(full_coord@, version@),
        final(config).project == old(config).project,
        final(config).build == old(config).build,
{
    let mut deps = match config.dependencies.take() {
        Some(d) => d,
        None => DepMap::new(),
    };
    deps.insert(owned(full_coord), owned(version));
    config.dependencies = Some(deps);
}

/// Message of the error for a dependency that is not there.
pub open spec fn not_found_message(coord: Seq<char>) -> Seq<char> {
    "未找到依赖: "@ + coord
}

/// Removes the dependency named by `coord` from the configuration,
/// returning its full coordinate; fails when the coordinate is invalid or
/// the dependency is not there.
pub fn remove_from_config(config: &mut ProjectConfig, coord: &str) -> (r: Result<String>)
    requires
        config_wf(*old(config)),
    ensures
        config_wf(*final(config)),
        final(config).project == old(config).project,
        final(config).build == old(config).build,
        match r {
            Ok(full) => split(coord@, ':').len() >= 2 && full@ == split(coord@, ':')[0].push(':')
                + split(coord@, ':')[1] && config_deps(*old(config)).contains_key(full@)
                && config_deps(*final(config)) == config_deps(*old(config)).remove(full@),
            Err(e) => (split(coord@, ':').len() < 2 && e.0@ == invalid_coord_message(coord@)) || (
            split(coord@, ':').len() >= 2 && !config_deps(*old(config)).contains_key(
                split(coord@, ':')[0].push(':') + split(coord@, ':')[1],
            ) && e.0@ == not_found_message(
                split(coord@, ':')[0].push(':') + split(coord@, ':')[1],
            )),
        },
{
    let full = match full_coordinate(coord) {
        Ok(f) => f,
        Err(e) => return Err(e),
    };
    let mut deps = match config.dependencies.take() {
        Some(d) => d,
        None => DepMap::new(),
    };
    let removed = deps.remove(full.as_str());
    config.dependencies = Some(deps);
    match removed {
        Some(_) => Ok(full),
        None => Err(Error::new(concat2("未找到依赖: ", full.as_str()))),
    }
}

/// The coordinates that `jex update` re-resolves: the one given (which must
/// be a dependency), or all dependencies in order.
pub fn update_targets(config: &ProjectConfig, coord: Option<&str>) -> (r: Result<Vec<String>>)
    requires
        config_wf(*config),
    ensures
        match coord {
            Some(c) => match r {
                Ok(t) => split(c@, ':').len() >= 2 && views(t@) == seq![
                    split(c@, ':')[0].push(':') + split(c@, ':')[1],
                ] && config_deps(*config).contains_key(
                    split(c@, ':')[0].push(':') + split(c@, ':')[1],
                ),
                Err(e) => (split(c@, ':').len() < 2 && e.0@ == invalid_coord_message(c@)) || (
                split(c@, ':').len() >= 2 && !config_deps(*config).contains_key(
                    split(c@, ':')[0].push(':') + split(c@, ':')[1],
                ) && e.0@ == not_found_message(split(c@, ':')[0].push(':') + split(c@, ':')[1])),
            },
            None => r matches Ok(t) && views(t@) == match config.dependencies {
                Some(d) => keys_of(d.entries@),
                None => Seq::empty(),
            },
        },
{
    match coord {
        Some(c) => {
            let full = match full_coordinate(c) {
                Ok(f) => f,
                Err(e) => return Err(e),
            };
            let present = match &config.dependencies {
                Some(d) => d.contains_key(full.as_str()),
                None => false,
            };
            if !present {
                return Err(Error::new(concat2("未找到依赖: ", full.as_str())));
            }
            let mut t: Vec<String> = Vec::new();
            t.push(full);
            assert(views(t@) =~= seq![t@[0]@]);
            Ok(t)
        },
        None => {
            let mut t: Vec<String> = Vec::new();
            match &config.dependencies {
                Some(d) => {
                    let mut i: usize = 0;
                    while i < d.entries.len()
                        invariant
                            i <= d.entries@.len(),
                            views(t@) == keys_of(d.entries@.take(i as int)),
                        decreases d.entries@.len() - i,
                    {
                        let ghost t0 = views(t@);
                        t.push(d.entries[i].0.clone());
                        assert(views(t@) =~= t0.push(d.entries@[i as int].0@));
                        assert(keys_of(d.entries@.take(i + 1)) =~= keys_of(d.entries@.take(i as int)).push(
                            d.entries@[i as int].0@,
                        ));
                        i += 1;
                    }
                    assert(d.entries@.take(i as int) =~= d.entries@);
                },
                None => {
                    assert(views(t@) =~= Seq::<Seq<char>>::empty());
                },
            }
            Ok(t)
        },
    }
}

/// The lock file for a configuration: version 1 and exactly the
/// configuration's dependencies (only direct dependencies are locked).
pub fn update_lock_file(config: &ProjectConfig) -> (r: Result<LockFile>)
    requires
        config_wf(*config),
    ensures
        r is Ok,
        r->Ok_0.lockfile_version == Some(1u32),
        r->Ok_0.dependencies is Some,
        r->Ok_0.dependencies->0.wf(),
        r->Ok_0.dependencies->0@ == config_deps(*config),
{
    let mut lock_deps = DepMap::new();
    match &config.dependencies {
        Some(d) => {
            let mut i: usize = 0;
            while i < d.entries.len()
                invariant
                    d.wf(),
                    i <= d.entries@.len(),
                    lock_deps.wf(),
                    lock_deps@ == pairs_map(d.entries@.take(i as int)),
                decreases d.entries@.len() - i,
            {
                assert(d.entries@.take(i + 1).drop_last() =~= d.entries@.take(i as int));
                assert(d.entries@.take(i + 1).last() == d.entries@[i as int]);
                lock_deps.insert(d.entries[i].0.clone(), d.entries[i].1.clone());
                i += 1;
            }
            assert(d.entries@.take(i as int) =~= d.entries@);
        },
        None => {},
    }
    Ok(LockFile { lockfile_version: Some(1), dependencies: Some(lock_deps) })
}

/// Locking a configuration records exactly its dependencies: what the
/// lock gives for a coordinate is what the configuration declares.
pub proof fn lemma_lock_matches_config(c: ProjectConfig, l: LockFile, k: Seq<char>)
    requires
        lock_deps(l) == config_deps(c),
    ensures
        lock_deps(l).contains_key(k) == config_deps(c).contains_key(k),
        config_deps(c).contains_key(k) ==> lock_deps(l)[k] == config_deps(c)[k],
{
}

/// Message of `jex why` for a coordinate given on the command line, read
/// against the lock file.
pub fn why_message(lock: &LockFile, coord: &str) -> (r: Result<String>)
    requires
        match lock.dependencies {
            Some(d) => d.wf(),
            None => true,
        },
    ensures
        match r {
            Ok(m) => split(coord@, ':').len() >= 2 && {
                let full = split(coord@, ':')[0].push(':') + split(coord@, ':')[1];
                if lock_deps(*lock).contains_key(full) {
                    m@ == full + " "@ + lock_deps(*lock)[full] + " 被直接依赖（在 jex.toml 中声明）"@
                } else {
                    m@ == not_found_message(full)
                }
            },
            Err(e) => split(coord@, ':').len() < 2 && e.0@ == invalid_coord_message(coord@),
        },
{
    let full = match full_coordinate(coord) {
        Ok(f) => f,
        Err(e) => return Err(e),
    };
    let found = match &lock.dependencies {
        Some(d) => d.get(full.as_str()),
        None => None,
    };
    match found {
        Some(v) => {
            let mut m = concat3(full.as_str(), " ", v.as_str());
            crate::text::push_str(&mut m, " 被直接依赖（在 jex.toml 中声明）");
            Ok(m)
        },
        None => Ok(concat2("未找到依赖: ", full.as_str())),
    }
}

/// The project name as `jex tree` reads it from `jex.toml` text: the first
/// line that starts with `name`, the text after its first `=`, trimmed and
/// without surrounding quotes; `project` when there is no such line or it
/// has no `=`.
pub open spec fn toml_project_name(content: Seq<char>) -> Seq<char> {
    match first_name_line(lines(content)) {
        Some(l) => if split(l, '=').len() >= 2 {
            trim_quotes(trim(split(l, '=')[1]))
        } else {
            "project"@
        },
        None => "project"@,
    }
}

/// First line that starts with `name`.
pub open spec fn first_name_line(ls: Seq<Seq<char>>) -> Option<Seq<char>>
    decreases ls.len(),
{
    if ls.len() == 0 {
        None
    } else if starts_with(ls[0], "name"@) {
        Some(ls[0])
    } else {
        first_name_line(ls.drop_first())
    }
}

/// `s` without leading and trailing `"` (`str::trim_matches('"')`).
pub open spec fn trim_quotes(s: Seq<char>) -> Seq<char>
    decreases s.len(),
{
    if s.len() > 0 && s[0] == '"' {
        trim_quotes(s.drop_first())
    } else if s.len() > 0 && s.last() == '"' {
        trim_quotes(s.drop_last())
    } else {
        s
    }
}

/// `str::trim_matches('"')`.
pub fn strip_quotes(s: &str) -> (r: String)
    ensures
        r@ == trim_quotes(s@),
{
    let v = chars_of(s);
    let mut lo: usize = 0;
    let mut hi: usize = v.len();
    assert(v@.subrange(0, v@.len() as int) =~= v@);
    while lo < hi && (v[lo] == '"' || v[hi - 1] == '"')
        invariant
            lo <= hi <= v@.len(),
            v@ == s@,
            trim_quotes(s@) == trim_quotes(v@.subrange(lo as int, hi as int)),
        decreases hi - lo,
    {
        let ghost t = v@.subrange(lo as int, hi as int);
        if v[lo] == '"' {
            assert(t[0] == v@[lo as int]);
            assert(t.drop_first() =~= v@.subrange(lo + 1, hi as int));
            lo += 1;
        } else {
            assert(t.last() == v@[hi - 1]);
            assert(t[0] == v@[lo as int]);
            assert(t.drop_last() =~= v@.subrange(lo as int, hi - 1));
            hi -= 1;
        }
    }
    string_of(&v, lo, hi)
}

/// The project name that `jex tree` shows, read from `jex.toml` text.
pub fn project_name_from_toml(content: &str) -> (r: String)
    ensures
        r@ == toml_project_name(content@),
{
    let ls = str_lines(content);
    let ghost s = views(ls@);
    let mut i: usize = 0;
    assert(s.skip(0) =~= s);
    while i < ls.len()
        invariant
            s == views(ls@),
            s == lines(content@),
            s.len() == ls@.len(),
            i <= ls@.len(),
            first_name_line(s) == first_name_line(s.skip(i as int)),
        decreases ls@.len() - i,
    {
        assert(s.skip(i as int).drop_first() =~= s.skip(i + 1));
        assert(s.skip(i as int)[0] == ls@[i as int]@);
        if str_starts_with(ls[i].as_str(), "name") {
            let parts = str_split(ls[i].as_str(), '=');
            proof {
                assert(views(parts@).len() == parts@.len());
            }
            if parts.len() >= 2 {
                proof {
                    assert(views(parts@)[1] == parts@[1]@);
                }
                let t = str_trim(parts[1].as_str());
                return strip_quotes(t.as_str());
            }
            return owned("project");
        }
        i += 1;
    }
    assert(s.skip(i as int).len() == 0);
    owned("project")
}

} // verus!
