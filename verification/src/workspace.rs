//! Workspaces (several modules in one repository): configuration, module
//! discovery helpers, and the workspace's dependency count.

use vstd::prelude::*;
use crate::error::Result;
use crate::text::{
    views, owned, lines, trim, starts_with, ends_with, contains, str_lines, str_trim, str_eq,
    str_starts_with, str_ends_with, str_contains, split, str_split, chars_of, string_of,
    lex_less, str_lt,
};
use crate::util::{path_join, join_path};

verus! {

/// The `[workspace]` table of `jex-workspace.toml`.
#[derive(Debug, Clone)]
pub struct WorkspaceConfig {
    /// Glob patterns of the member modules.
    pub members: Vec<String>,
}

impl Default for WorkspaceConfig {
    fn default() -> (r: Self)
        ensures
            views(r.members@) == seq!["crates/*"@],
    {
        let mut members: Vec<String> = Vec::new();
        members.push(owned("crates/*"));
        assert(views(members@) =~= seq!["crates/*"@]);
        WorkspaceConfig { members }
    }
}

/// `jex-workspace.toml`.
#[derive(Debug, Clone)]
pub struct WorkspaceRoot {
    pub workspace: WorkspaceConfig,
}

/// One module of the workspace.
#[derive(Debug, Clone)]
pub struct ModuleInfo {
    pub name: String,
    pub path: String,
    pub dependencies_count: usize,
}

/// The workspace and its modules.
#[derive(Debug, Clone)]
pub struct WorkspaceStatus {
    pub root: String,
    pub modules: Vec<ModuleInfo>,
    pub total_dependencies: usize,
}

/// Text written by `jex workspace init`.
pub open spec fn workspace_template_text() -> Seq<char> {
    "[workspace]\nmembers = [\"crates/*\"]\n"@
}

/// The `jex-workspace.toml` that `jex workspace init` writes.
pub fn workspace_template() -> (r: &'static str)
    ensures
        r@ == workspace_template_text(),
{
    "[workspace]\nmembers = [\"crates/*\"]\n"
}

/// State of the count of dependency lines.
pub struct DepCount {
    pub in_deps: bool,
    pub count: nat,
}

/// One line of `jex.toml`: `[dependencies]` opens the section, another
/// table header closes it, and inside it each line with `=` that is not a
/// comment counts.
pub open spec fn count_step(s: DepCount, line: Seq<char>) -> DepCount {
    let t = trim(line);
    if t == "[dependencies]"@ {
        DepCount { in_deps: true, ..s }
    } else if starts_with(t, "["@) && ends_with(t, "]"@) {
        DepCount { in_deps: false, ..s }
    } else if s.in_deps && t.contains('=') && !starts_with(t, "#"@) {
        DepCount { count: s.count + 1, ..s }
    } else {
        s
    }
}

/// The count after the lines `ls`.
pub open spec fn count_lines(ls: Seq<Seq<char>>) -> DepCount
    decreases ls.len(),
{
    if ls.len() == 0 {
        DepCount { in_deps: false, count: 0 }
    } else {
        count_step(count_lines(ls.drop_last()), ls.last())
    }
}

/// Whether `c` occurs in `s`.
fn has_char(s: &str, c: char) -> (r: bool)
    ensures
        r == s@.contains(c),
{
    let v = chars_of(s);
    crate::text::seq_has_char(&v, c)
}

proof fn lemma_count_bound(ls: Seq<Seq<char>>)
    ensures
        count_lines(ls).count <= ls.len(),
    decreases ls.len(),
{
    if ls.len() > 0 {
        lemma_count_bound(ls.drop_last());
    }
}

/// Number of dependency entries in a module's `jex.toml` text.
pub fn count_dependencies_in(content: &str) -> (r: usize)
    ensures
        r == count_lines(lines(content@)).count,
{
    let ls = str_lines(content);
    let ghost s = views(ls@);
    let mut in_deps = false;
    let mut count: usize = 0;
    let mut i: usize = 0;
    assert(s.take(0) =~= Seq::<Seq<char>>::empty());
    while i < ls.len()
        invariant
            s == views(ls@),
            s == lines(content@),
            s.len() == ls@.len(),
            i <= ls@.len(),
            count_lines(s.take(i as int)).in_deps == in_deps,
            count_lines(s.take(i as int)).count == count,
            count <= i,
        decreases ls@.len() - i,
    {
        assert(s.take(i + 1).drop_last() =~= s.take(i as int));
        assert(s.take(i + 1).last() == ls@[i as int]@);
        let t = str_trim(ls[i].as_str());
        let ts = t.as_str();
        if str_eq(ts, "[dependencies]") {
            in_deps = true;
        } else if str_starts_with(ts, "[") && str_ends_with(ts, "]") {
            in_deps = false;
        } else if in_deps && has_char(ts, '=') && !str_starts_with(ts, "#") {
            count += 1;
        }
        i += 1;
    }
    assert(s.take(s.len() as int) =~= s);
    count
}

/// `s` without its trailing `/`s (`trim_end_matches('/')`).
pub open spec fn trim_trailing_slashes(s: Seq<char>) -> Seq<char>
    decreases s.len(),
{
    if s.len() > 0 && s.last() == '/' {
        trim_trailing_slashes(s.drop_last())
    } else {
        s
    }
}

/// The directory searched for a member pattern: the text before its
/// first `*` (without trailing `/`s) under the root, or the pattern itself
/// when it has no `*`.
pub open spec fn expanded_pattern(root: Seq<char>, pattern: Seq<char>) -> Seq<char> {
    if pattern.contains('*') {
        path_join(root, trim_trailing_slashes(split(pattern, '*')[0]))
    } else {
        path_join(root, pattern)
    }
}

/// The directory under `root` that a member pattern names (only a `*`
/// standing for one directory level is understood).
pub fn expand_glob_pattern(root: &str, pattern: &str) -> (r: String)
    ensures
        r@ == expanded_pattern(root@, pattern@),
{
    if has_char(pattern, '*') {
        let parts = str_split(pattern, '*');
        proof {
            crate::text::lemma_split_acc_len(pattern@, '*', Seq::empty());
            assert(views(parts@).len() == parts@.len());
            assert(views(parts@)[0] == parts@[0]@);
        }
        let v = chars_of(parts[0].as_str());
        let mut n = v.len();
        assert(v@.subrange(0, n as int) =~= v@);
        while n > 0 && v[n - 1] == '/'
            invariant
                n <= v@.len(),
                trim_trailing_slashes(v@) == trim_trailing_slashes(v@.subrange(0, n as int)),
            decreases n,
        {
            assert(v@.subrange(0, n as int).drop_last() =~= v@.subrange(0, n - 1));
            n -= 1;
        }
        let prefix = string_of(&v, 0, n);
        join_path(root, prefix.as_str())
    } else {
        join_path(root, pattern)
    }
}

/// `a` comes before `b`: its name is smaller, or equal.
pub open spec fn name_not_after(a: ModuleInfo, b: ModuleInfo) -> bool {
    !lex_less(b.name@, a.name@)
}

/// Number of leading modules whose name is not after `x`'s.
pub open spec fn not_after_prefix(sorted: Seq<ModuleInfo>, x: ModuleInfo) -> int
    decreases sorted.len(),
{
    if sorted.len() == 0 {
        0
    } else if name_not_after(sorted[0], x) {
        1 + not_after_prefix(sorted.drop_first(), x)
    } else {
        0
    }
}

/// Modules in order of name, modules of equal name in their original
/// order (a stable sort by name).
pub open spec fn by_name(s: Seq<ModuleInfo>) -> Seq<ModuleInfo>
    decreases s.len(),
{
    if s.len() == 0 {
        Seq::empty()
    } else {
        let t = by_name(s.drop_last());
        t.insert(not_after_prefix(t, s.last()), s.last())
    }
}

proof fn lemma_not_after_prefix_bound(sorted: Seq<ModuleInfo>, x: ModuleInfo)
    ensures
        0 <= not_after_prefix(sorted, x) <= sorted.len(),
        forall|i: int| 0 <= i < not_after_prefix(sorted, x) ==> name_not_after(#[trigger] sorted[i], x),
        not_after_prefix(sorted, x) < sorted.len() ==> !name_not_after(sorted[not_after_prefix(sorted, x)], x),
    decreases sorted.len(),
{
    if sorted.len() > 0 && name_not_after(sorted[0], x) {
        lemma_not_after_prefix_bound(sorted.drop_first(), x);
        assert forall|i: int| 0 <= i < not_after_prefix(sorted, x) implies name_not_after(#[trigger] sorted[i], x) by {
            if i > 0 {
                assert(sorted[i] == sorted.drop_first()[i - 1]);
            }
        }
        if not_after_prefix(sorted, x) < sorted.len() {
            assert(sorted[not_after_prefix(sorted, x)] == sorted.drop_first()[not_after_prefix(sorted.drop_first(), x)]);
        }
    }
}

proof fn lemma_by_name_len(s: Seq<ModuleInfo>)
    ensures
        by_name(s).len() == s.len(),
    decreases s.len(),
{
    if s.len() > 0 {
        lemma_by_name_len(s.drop_last());
        lemma_not_after_prefix_bound(by_name(s.drop_last()), s.last());
    }
}

/// Sorts modules by name, keeping the order of modules of equal name.
pub fn sort_modules(modules: Vec<ModuleInfo>) -> (r: Vec<ModuleInfo>)
    ensures
        r@ == by_name(modules@),
{
    let ghost s = modules@;
    let mut out: Vec<ModuleInfo> = Vec::new();
    for x in it: modules.into_iter()
        invariant
            it.seq() == s,
            out@ == by_name(s.take(it.index() as int)),
    {
        let ghost k = it.index() as int;
        assert(s.take(k + 1).drop_last() =~= s.take(k));
        assert(s.take(k + 1).last() == x);
        proof {
            lemma_not_after_prefix_bound(out@, x);
        }
        let mut p: usize = 0;
        let ghost q = not_after_prefix(out@, x);
        while p < out.len() && !str_lt(x.name.as_str(), out[p].name.as_str())
            invariant
                p <= q,
                q == not_after_prefix(out@, x),
                0 <= q <= out@.len(),
                forall|i: int| 0 <= i < q ==> name_not_after(#[trigger] out@[i], x),
                q < out@.len() ==> !name_not_after(out@[q], x),
            decreases out@.len() - p,
        {
            p += 1;
        }
        assert(p == q);
        out.insert(p, x);
    }
    assert(s.take(s.len() as int) =~= s);
    out
}

/// Sum of the modules' dependency counts.
pub open spec fn total_count(ms: Seq<ModuleInfo>) -> nat
    decreases ms.len(),
{
    if ms.len() == 0 {
        0
    } else {
        total_count(ms.drop_last()) + ms.last().dependencies_count as nat
    }
}

/// The workspace status: its root, its modules (in order of name), and
/// their total number of dependencies.
pub fn workspace_status(root: &str, modules: Vec<ModuleInfo>) -> (r: Result<WorkspaceStatus>)
    requires
        total_count(modules@) <= usize::MAX,
    ensures
        r matches Ok(st) && st.root@ == root@ && st.modules@ == by_name(modules@)
            && st.total_dependencies == total_count(modules@),
{
    let ghost s = modules@;
    let mut total: usize = 0;
    let mut i: usize = 0;
    assert(s.take(0) =~= Seq::<ModuleInfo>::empty());
    while i < modules.len()
        invariant
            s == modules@,
            i <= s.len(),
            total == total_count(s.take(i as int)),
            total_count(s) <= usize::MAX,
        decreases s.len() - i,
    {
        assert(s.take(i + 1).drop_last() =~= s.take(i as int));
        assert(s.take(i + 1).last() == s[i as int]);
        proof {
            lemma_total_prefix(s, i + 1);
        }
        total = total + modules[i].dependencies_count;
        i += 1;
    }
    assert(s.take(s.len() as int) =~= s);
    let sorted = sort_modules(modules);
    Ok(WorkspaceStatus { root: owned(root), modules: sorted, total_dependencies: total })
}

proof fn lemma_total_prefix(s: Seq<ModuleInfo>, i: int)
    requires
        0 <= i <= s.len(),
    ensures
        total_count(s.take(i)) <= total_count(s),
    decreases s.len(),
{
    if i < s.len() {
        assert(s.drop_last().take(i) =~= s.take(i));
        lemma_total_prefix(s.drop_last(), i);
    } else {
        assert(s.take(i) =~= s);
    }
}

} // verus!
