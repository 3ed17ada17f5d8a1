//! Interactive browsing of the dependency tree (`jex tree -i`): the tree
//! flattened into the rows on screen (only expanded nodes show their
//! children, and a search filter hides what does not match), the cursor,
//! expanding and collapsing, and what each key does.
//!
//! An expanded node is remembered by a key made of its position among its
//! siblings and its parent's key (`parent * 1000 + index + 1`, with
//! wrapping arithmetic); the root's key is 0.  Counting children from one
//! keeps every child's key apart from its parent's, and, below a thousand
//! children a node and without wrapping, the key names one node.

use vstd::prelude::*;
use std::collections::HashSet;
use crate::tree::{DependencyNode, DependencyTree};
use crate::text::{contains, lowercase, to_lowercase, str_contains, str_is_empty, owned, concat2, push_str, push_char, spaces};
use crate::dashboard::{Tone, Piece, LineText, line_view, lines_view, one, blank, piece, line1, line2, blank_line, push_line};
use crate::num::{decimal, usize_to_decimal};

verus! {

/// A row of the flattened tree.
#[derive(Debug, Clone)]
pub struct FlatItem {
    pub name: String,
    pub version: String,
    pub license: Option<String>,
    pub depth: usize,
    pub has_children: bool,
    /// Position among its siblings.
    pub child_idx: usize,
}

/// What a row shows and where it sits: name, version, license, depth,
/// whether it has children, position among its siblings.
pub open spec fn row_view(r: FlatItem) -> (Seq<char>, Seq<char>, Option<Seq<char>>, nat, bool, nat) {
    (
        r.name@,
        r.version@,
        match r.license {
            Some(l) => Some(l@),
            None => None,
        },
        r.depth as nat,
        r.has_children,
        r.child_idx as nat,
    )
}

/// What a list of rows shows.
pub open spec fn rows_view(rs: Seq<FlatItem>) -> Seq<(Seq<char>, Seq<char>, Option<Seq<char>>, nat, bool, nat)> {
    rs.map_values(|r: FlatItem| row_view(r))
}

/// The row of node `n` at `depth`, the `i`-th of its siblings.
pub open spec fn node_row(n: DependencyNode, depth: nat, i: nat) -> (Seq<char>, Seq<char>, Option<Seq<char>>, nat, bool, nat) {
    (
        n.name@,
        n.version@,
        match n.license {
            Some(l) => Some(l@),
            None => None,
        },
        depth,
        n.children@.len() > 0,
        i,
    )
}

/// Key of the `i`-th child (from 0) of the node with key `parent`.
pub open spec fn child_key(parent: usize, i: usize) -> usize {
    parent.wrapping_mul(1000).wrapping_add(i).wrapping_add(1)
}

/// Key of the `i`-th child of the node with key `parent`.
fn child_key_exec(parent: usize, i: usize) -> (r: usize)
    ensures
        r == child_key(parent, i),
{
    parent.wrapping_mul(1000).wrapping_add(i).wrapping_add(1)
}

/// The node's name or version contains the filter, without regard to
/// case (an empty filter matches everything).
pub open spec fn node_matches(n: DependencyNode, f: Seq<char>) -> bool {
    f.len() == 0 || contains(lowercase(n.name@), lowercase(f)) || contains(
        lowercase(n.version@),
        lowercase(f),
    )
}

/// Some node below `n` matches the filter (always, for an empty filter).
pub open spec fn match_below(n: DependencyNode, f: Seq<char>) -> bool
    decreases n,
{
    f.len() == 0 || any_below(n.children@, f)
}

/// Some node of the forest, or below it, matches the filter.
pub open spec fn any_below(kids: Seq<DependencyNode>, f: Seq<char>) -> bool
    decreases kids,
{
    kids.len() > 0 && (any_below(kids.drop_last(), f) || node_matches(kids.last(), f) || match_below(
        kids.last(),
        f,
    ))
}

/// Number of levels of a node and its descendants.
pub open spec fn node_height(n: DependencyNode) -> nat
    decreases n,
{
    1 + forest_height(n.children@)
}

/// Number of levels of a forest.
pub open spec fn forest_height(kids: Seq<DependencyNode>) -> nat
    decreases kids,
{
    if kids.len() == 0 {
        0
    } else {
        let a = forest_height(kids.drop_last());
        let b = node_height(kids.last());
        if a >= b {
            a
        } else {
            b
        }
    }
}

/// The rows of node `n` (the `i`-th child of the node with key `parent`)
/// at `depth`: none when neither it nor anything below it matches the
/// filter; else its row, then, when it is expanded, the rows of its
/// children.
pub open spec fn node_rows(
    n: DependencyNode,
    i: nat,
    depth: nat,
    parent: usize,
    exp: Set<usize>,
    f: Seq<char>,
) -> Seq<(Seq<char>, Seq<char>, Option<Seq<char>>, nat, bool, nat)>
    decreases n,
{
    if !node_matches(n, f) && !match_below(n, f) {
        Seq::empty()
    } else {
        seq![node_row(n, depth, i)] + if exp.contains(child_key(parent, i as usize)) {
            kids_rows(n.children@, depth + 1, child_key(parent, i as usize), exp, f)
        } else {
            Seq::empty()
        }
    }
}

/// The rows of the children of the node with key `parent`, in order.
pub open spec fn kids_rows(
    kids: Seq<DependencyNode>,
    depth: nat,
    parent: usize,
    exp: Set<usize>,
    f: Seq<char>,
) -> Seq<(Seq<char>, Seq<char>, Option<Seq<char>>, nat, bool, nat)>
    decreases kids,
{
    if kids.len() == 0 {
        Seq::empty()
    } else {
        kids_rows(kids.drop_last(), depth, parent, exp, f) + node_rows(
            kids.last(),
            (kids.len() - 1) as nat,
            depth,
            parent,
            exp,
            f,
        )
    }
}

/// The rows on screen: the root, then (when it is expanded) its children.
pub open spec fn tree_rows(t: DependencyTree, exp: Set<usize>, f: Seq<char>) -> Seq<(Seq<char>, Seq<char>, Option<Seq<char>>, nat, bool, nat)> {
    seq![node_row(t.root, 0, 0)] + if exp.contains(0usize) {
        kids_rows(t.root.children@, 1, 0, exp, f)
    } else {
        Seq::empty()
    }
}

proof fn lemma_kid_height(kids: Seq<DependencyNode>, j: int)
    requires
        0 <= j < kids.len(),
    ensures
        node_height(kids[j]) <= forest_height(kids),
    decreases kids.len(),
{
    if j < kids.len() - 1 {
        lemma_kid_height(kids.drop_last(), j);
        assert(kids.drop_last()[j] == kids[j]);
    }
}

proof fn lemma_any_below_prefix(kids: Seq<DependencyNode>, i: int, f: Seq<char>)
    requires
        0 <= i < kids.len(),
    ensures
        any_below(kids.take(i + 1), f) == (any_below(kids.take(i), f) || node_matches(kids[i], f)
            || match_below(kids[i], f)),
{
    assert(kids.take(i + 1).drop_last() =~= kids.take(i));
    assert(kids.take(i + 1).last() == kids[i]);
}

/// Whether the name or version of a node contains the filter, given in
/// lower case, without regard to case.
fn matches_lower(n: &DependencyNode, lf: &str) -> (r: bool)
    ensures
        r == (contains(lowercase(n.name@), lf@) || contains(lowercase(n.version@), lf@)),
{
    let name = to_lowercase(n.name.as_str());
    if str_contains(name.as_str(), lf) {
        return true;
    }
    let version = to_lowercase(n.version.as_str());
    str_contains(version.as_str(), lf)
}

/// Whether a node's name or version contains the filter, without regard
/// to case.
fn matches_filter(n: &DependencyNode, filter: &str) -> (r: bool)
    ensures
        r == node_matches(*n, filter@),
{
    if str_is_empty(filter) {
        return true;
    }
    let lf = to_lowercase(filter);
    matches_lower(n, lf.as_str())
}

/// Whether some node below `node` matches the filter (always, for an
/// empty filter).
pub fn has_matching_descendant(node: &DependencyNode, filter: &str) -> (r: bool)
    ensures
        r == match_below(*node, filter@),
    decreases node,
{
    if str_is_empty(filter) {
        return true;
    }
    let lf = to_lowercase(filter);
    let kids = &node.children;
    let mut i: usize = 0;
    assert(kids@.take(0) =~= Seq::<DependencyNode>::empty());
    while i < kids.len()
        invariant
            i <= kids@.len(),
            filter@.len() > 0,
            lf@ == lowercase(filter@),
            kids == &node.children,
            !any_below(kids@.take(i as int), filter@),
        decreases kids@.len() - i,
    {
        proof {
            lemma_any_below_prefix(kids@, i as int, filter@);
        }
        if matches_lower(&kids[i], lf.as_str()) {
            assert(kids@.take(kids@.len() as int) =~= kids@);
            proof {
                lemma_any_mono(kids@, i + 1, filter@);
            }
            return true;
        }
        if has_matching_descendant(&kids[i], filter) {
            proof {
                lemma_any_mono(kids@, i + 1, filter@);
            }
            return true;
        }
        i += 1;
    }
    assert(kids@.take(i as int) =~= kids@);
    false
}

proof fn lemma_any_mono(kids: Seq<DependencyNode>, i: int, f: Seq<char>)
    requires
        0 <= i <= kids.len(),
        any_below(kids.take(i), f),
    ensures
        any_below(kids, f),
    decreases kids.len() - i,
{
    if i < kids.len() {
        assert(kids.take(i + 1).drop_last() =~= kids.take(i));
        lemma_any_mono(kids, i + 1, f);
    } else {
        assert(kids.take(i) =~= kids);
    }
}

/// Whether `k` is one of the keys.
fn has_key(keys: &HashSet<usize>, k: usize) -> (r: bool)
    ensures
        r == keys@.contains(k),
{
    broadcast use vstd::std_specs::hash::group_hash_axioms;
    keys.contains(&k)
}

fn row_of(n: &DependencyNode, depth: usize, i: usize) -> (r: FlatItem)
    ensures
        row_view(r) == node_row(*n, depth as nat, i as nat),
{
    FlatItem {
        name: n.name.clone(),
        version: n.version.clone(),
        license: match &n.license {
            Some(l) => Some(l.clone()),
            None => None,
        },
        depth,
        has_children: n.children.len() > 0,
        child_idx: i,
    }
}

/// Below a thousand children a node and without wrapping, two children
/// have the same key only when they are the same child of the same
/// parent, and a child's key is greater than its parent's (so never the
/// root's 0).
pub proof fn lemma_child_key_names_one(p: usize, i: usize, q: usize, j: usize)
    requires
        i < 999,
        j < 999,
        p * 1000 + 1000 <= usize::MAX,
        q * 1000 + 1000 <= usize::MAX,
    ensures
        child_key(p, i) == p * 1000 + i + 1,
        child_key(p, i) > p,
        child_key(p, i) == child_key(q, j) ==> p == q && i == j,
{
    assert(p * 1000 <= usize::MAX);
    assert(q * 1000 <= usize::MAX);
    assert((p as nat * 1000nat) % (usize::MAX as nat + 1) == p * 1000) by (nonlinear_arith)
        requires
            p * 1000 <= usize::MAX,
    ;
    assert((q as nat * 1000nat) % (usize::MAX as nat + 1) == q * 1000) by (nonlinear_arith)
        requires
            q * 1000 <= usize::MAX,
    ;
    assert(p.wrapping_mul(1000) == p * 1000);
    assert(q.wrapping_mul(1000) == q * 1000);
    if child_key(p, i) == child_key(q, j) {
        assert(p * 1000 + i == q * 1000 + j);
        assert(p == q && i == j) by (nonlinear_arith)
            requires
                p * 1000 + i == q * 1000 + j,
                i < 999,
                j < 999,
        ;
    }
}

/// With no filter and only the root expanded, the children's rows are the
/// children themselves, in order, one level down, none opened.
proof fn lemma_collapsed_kids_rows(kids: Seq<DependencyNode>)
    requires
        kids.len() <= usize::MAX,
    ensures
        kids_rows(kids, 1, 0, set![0usize], Seq::empty()) == Seq::new(
            kids.len(),
            |i: int| node_row(kids[i], 1, i as nat),
        ),
    decreases kids.len(),
{
    if kids.len() > 0 {
        let last = (kids.len() - 1) as nat;
        lemma_collapsed_kids_rows(kids.drop_last());
        assert(0usize.wrapping_mul(1000) == 0) by {
            assert((0nat * 1000nat) % (usize::MAX as nat + 1) == 0) by (nonlinear_arith);
        }
        assert(0usize.wrapping_add(last as usize) == last);
        assert((last as usize).wrapping_add(1) == last + 1);
        assert(child_key(0, last as usize) == last + 1);
        assert(!set![0usize].contains(child_key(0, last as usize)));
        assert(node_matches(kids.last(), Seq::empty()));
        assert(node_rows(kids.last(), last, 1, 0, set![0usize], Seq::empty()) =~= seq![
            node_row(kids.last(), 1, last),
        ]);
        assert(kids_rows(kids, 1, 0, set![0usize], Seq::empty()) =~= Seq::new(
            kids.len(),
            |i: int| node_row(kids[i], 1, i as nat),
        ));
    } else {
        assert(kids_rows(kids, 1, 0, set![0usize], Seq::empty()) =~= Seq::new(
            kids.len(),
            |i: int| node_row(kids[i], 1, i as nat),
        ));
    }
}

/// As the browser opens (only the root expanded, no filter), the rows are
/// the root and then each of its children, one level down, in order: a
/// child's own children stay hidden.
pub proof fn lemma_opening_rows(t: DependencyTree)
    requires
        t.root.children@.len() <= usize::MAX,
    ensures
        tree_rows(t, set![0usize], Seq::empty()) == seq![node_row(t.root, 0, 0)] + Seq::new(
            t.root.children@.len(),
            |i: int| node_row(t.root.children@[i], 1, i as nat),
        ),
{
    assert(set![0usize].contains(0usize));
    lemma_collapsed_kids_rows(t.root.children@);
}

/// Appends the rows of the children of the node with key `parent`.
fn flatten_children(
    children: &Vec<DependencyNode>,
    depth: usize,
    parent: usize,
    expanded: &HashSet<usize>,
    filter: &str,
    items: &mut Vec<FlatItem>,
)
    requires
        depth + forest_height(children@) <= usize::MAX,
    ensures
        rows_view(final(items)@) == rows_view(old(items)@) + kids_rows(
            children@,
            depth as nat,
            parent,
            expanded@,
            filter@,
        ),
    decreases children@,
{
    let ghost start = rows_view(items@);
    let mut i: usize = 0;
    assert(children@.take(0) =~= Seq::<DependencyNode>::empty());
    while i < children.len()
        invariant
            i <= children@.len(),
            depth + forest_height(children@) <= usize::MAX,
            rows_view(items@) == start + kids_rows(
                children@.take(i as int),
                depth as nat,
                parent,
                expanded@,
                filter@,
            ),
        decreases children@.len() - i,
    {
        let child = &children[i];
        assert(children@.take(i + 1).drop_last() =~= children@.take(i as int));
        assert(children@.take(i + 1).last() == *child);
        proof {
            lemma_kid_height(children@, i as int);
        }
        let key = child_key_exec(parent, i);
        let ghost before = rows_view(items@);
        if matches_filter(child, filter) || has_matching_descendant(child, filter) {
            let ghost r0 = rows_view(items@);
            items.push(row_of(child, depth, i));
            assert(rows_view(items@) =~= r0.push(node_row(*child, depth as nat, i as nat)));
            if has_key(expanded, key) {
                assert(depth + 1 + forest_height(child.children@) <= usize::MAX);
                flatten_children(&child.children, depth + 1, key, expanded, filter, items);
            }
        }
        assert(rows_view(items@) =~= before + node_rows(*child, i as nat, depth as nat, parent, expanded@, filter@));
        i += 1;
    }
    assert(children@.take(i as int) =~= children@);
}

/// The rows on screen for the tree, the expanded keys and the filter.
pub fn flatten_tree(tree: &DependencyTree, expanded: &HashSet<usize>, filter: &str) -> (r: Vec<FlatItem>)
    requires
        1 + forest_height(tree.root.children@) <= usize::MAX,
    ensures
        rows_view(r@) == tree_rows(*tree, expanded@, filter@),
{
    let mut items: Vec<FlatItem> = Vec::new();
    items.push(row_of(&tree.root, 0, 0));
    assert(rows_view(items@) =~= seq![node_row(tree.root, 0, 0)]);
    if has_key(expanded, 0) {
        flatten_children(&tree.root.children, 1, 0, expanded, filter, &mut items);
    }
    assert(rows_view(items@) =~= tree_rows(*tree, expanded@, filter@));
    items
}

// ───────────────────────────── browser state ─────────────────────────────

/// Whether keys move through the tree or type a search filter.
#[derive(Debug, Clone, Copy, PartialEq, Eq, Structural)]
pub enum InputMode {
    Normal,
    Search,
}

/// The tree is shallow enough for row depths to be counted.
pub open spec fn browsable(t: DependencyTree) -> bool {
    1 + forest_height(t.root.children@) <= usize::MAX
}

/// Number of levels of a node and everything below it, `None` when it
/// does not fit in a `usize`.
fn node_height_exec(n: &DependencyNode) -> (r: Option<usize>)
    ensures
        match r {
            Some(h) => h == node_height(*n),
            None => node_height(*n) > usize::MAX,
        },
    decreases n,
{
    let kids = &n.children;
    let mut best: usize = 0;
    let mut i: usize = 0;
    assert(kids@.take(0) =~= Seq::<DependencyNode>::empty());
    while i < kids.len()
        invariant
            i <= kids@.len(),
            kids == &n.children,
            best == forest_height(kids@.take(i as int)),
        decreases kids@.len() - i,
    {
        assert(kids@.take(i + 1).drop_last() =~= kids@.take(i as int));
        assert(kids@.take(i + 1).last() == kids@[i as int]);
        match node_height_exec(&kids[i]) {
            Some(h) => {
                if h > best {
                    best = h;
                }
            },
            None => {
                proof {
                    lemma_kid_height(kids@, i as int);
                }
                return None;
            },
        }
        i += 1;
    }
    assert(kids@.take(i as int) =~= kids@);
    if best == usize::MAX {
        None
    } else {
        Some(best + 1)
    }
}

/// Whether the tree is shallow enough to browse (see `browsable`).
pub fn tree_browsable(tree: &DependencyTree) -> (r: bool)
    ensures
        r == browsable(*tree),
{
    match node_height_exec(&tree.root) {
        Some(_) => true,
        None => false,
    }
}

/// State of the tree browser.
#[derive(Debug)]
pub struct TreeBrowser {
    pub flat: Vec<FlatItem>,
    pub selected: usize,
    pub expanded: HashSet<usize>,
    pub filter: String,
    pub input_mode: InputMode,
    pub show_help: bool,
}

/// Type of a row's view.
pub type RowView = (Seq<char>, Seq<char>, Option<Seq<char>>, nat, bool, nat);

/// Position of the last row before `end` at `depth`.
pub open spec fn last_at_depth(rows: Seq<RowView>, end: int, depth: nat) -> Option<int>
    decreases end,
{
    if end <= 0 || end > rows.len() {
        None
    } else if rows[end - 1].3 == depth {
        Some(end - 1)
    } else {
        last_at_depth(rows, end - 1, depth)
    }
}

/// Key of a row at `depth`, the `cidx`-th of its siblings, worked out from
/// the rows before the selection: the nearest row one level up before the
/// selection is taken for its parent.
pub open spec fn key_of(rows: Seq<RowView>, sel: int, depth: nat, cidx: nat) -> usize
    decreases depth,
{
    if depth == 0 {
        0
    } else {
        match last_at_depth(rows, sel, (depth - 1) as nat) {
            None => 0,
            Some(j) => if depth == 1 {
                child_key(0, cidx as usize)
            } else {
                child_key(key_of(rows, sel, (depth - 1) as nat, rows[j].5), cidx as usize)
            },
        }
    }
}

proof fn lemma_last_at_depth(rows: Seq<RowView>, end: int, depth: nat)
    ensures
        last_at_depth(rows, end, depth) matches Some(j) ==> 0 <= j < end && j < rows.len() && rows[j].3
            == depth,
    decreases end,
{
    if end > 0 && end <= rows.len() && rows[end - 1].3 != depth {
        lemma_last_at_depth(rows, end - 1, depth);
    }
}

/// The key that row `k` is expanded under.
pub open spec fn row_key(b: TreeBrowser, k: int) -> usize {
    key_of(rows_view(b.flat@), b.selected as int, rows_view(b.flat@)[k].3, rows_view(b.flat@)[k].5)
}

/// Filter, input mode and help flag are as they were.
pub open spec fn keeps_mode(o: TreeBrowser, f: TreeBrowser) -> bool {
    &&& f.filter@ == o.filter@
    &&& f.input_mode == o.input_mode
    &&& f.show_help == o.show_help
}

/// Nothing changed.
pub open spec fn unchanged(o: TreeBrowser, f: TreeBrowser) -> bool {
    &&& keeps_mode(o, f)
    &&& f.flat@ == o.flat@
    &&& f.expanded@ == o.expanded@
    &&& f.selected == o.selected
}

/// Only the selection moved, to `sel`.
pub open spec fn selected_to(o: TreeBrowser, f: TreeBrowser, sel: usize) -> bool {
    &&& keeps_mode(o, f)
    &&& f.flat@ == o.flat@
    &&& f.expanded@ == o.expanded@
    &&& f.selected == sel
}

/// The position of the last row, 0 when there is none.
pub open spec fn last_row(b: TreeBrowser) -> usize {
    if b.flat@.len() > 0 {
        (b.flat@.len() - 1) as usize
    } else {
        0
    }
}

/// The rows were worked out again from the tree, the expanded keys and the
/// filter of `o`; a selection past the end moved to the last row.
pub open spec fn refreshed(o: TreeBrowser, f: TreeBrowser, tree: DependencyTree) -> bool {
    &&& rows_view(f.flat@) == tree_rows(tree, o.expanded@, o.filter@)
    &&& f.selected == if o.selected >= f.flat@.len() {
        last_row(f)
    } else {
        o.selected
    }
    &&& f.expanded@ == o.expanded@
    &&& keeps_mode(o, f)
}

/// The selection moved up one row, at the top staying there.
pub open spec fn moved_up(o: TreeBrowser, f: TreeBrowser) -> bool {
    selected_to(o, f, if o.selected > 0 { (o.selected - 1) as usize } else { 0 })
}

/// The selection moved down one row, at the last row staying there.
pub open spec fn moved_down(o: TreeBrowser, f: TreeBrowser) -> bool {
    selected_to(
        o,
        f,
        if o.selected + 1 < o.flat@.len() {
            (o.selected + 1) as usize
        } else {
            o.selected
        },
    )
}

/// The selected row has children.
pub open spec fn selects_parent(o: TreeBrowser) -> bool {
    o.selected < o.flat@.len() && o.flat@[o.selected as int].has_children
}

/// The selected row was expanded and the rows worked out again; a row
/// without children changes nothing.
pub open spec fn expanded_row(o: TreeBrowser, f: TreeBrowser, tree: DependencyTree) -> bool {
    if selects_parent(o) {
        &&& f.expanded@ == with_key(o.expanded@, row_key(o, o.selected as int))
        &&& rows_view(f.flat@) == tree_rows(tree, f.expanded@, o.filter@)
        &&& keeps_mode(o, f)
    } else {
        unchanged(o, f)
    }
}

/// Where the selection goes when the selected row cannot collapse: the
/// nearest row one level up before it, if there is one.
pub open spec fn parent_row(o: TreeBrowser) -> usize {
    let item = o.flat@[o.selected as int];
    if item.depth > 0 {
        match last_at_depth(rows_view(o.flat@), o.selected as int, (item.depth - 1) as nat) {
            Some(j) => j as usize,
            None => o.selected,
        }
    } else {
        o.selected
    }
}

/// The selected row, when expanded, was collapsed and the rows worked out
/// again; otherwise the selection moved to its parent row.
pub open spec fn collapsed_row(o: TreeBrowser, f: TreeBrowser, tree: DependencyTree) -> bool {
    if o.selected >= o.flat@.len() {
        unchanged(o, f)
    } else {
        let k = row_key(o, o.selected as int);
        if o.flat@[o.selected as int].has_children && o.expanded@.contains(k) {
            &&& f.expanded@ == without(o.expanded@, k)
            &&& rows_view(f.flat@) == tree_rows(tree, f.expanded@, o.filter@)
            &&& keeps_mode(o, f)
        } else {
            selected_to(o, f, parent_row(o))
        }
    }
}

/// Every node with children was expanded and the rows worked out again.
pub open spec fn expanded_everything(o: TreeBrowser, f: TreeBrowser, tree: DependencyTree) -> bool {
    &&& f.expanded@ == with_keys(o.expanded@, keys_below(tree.root, 0))
    &&& rows_view(f.flat@) == tree_rows(tree, f.expanded@, o.filter@)
    &&& keeps_mode(o, f)
}

/// Only the root stays expanded, and the root is selected.
pub open spec fn collapsed_everything(o: TreeBrowser, f: TreeBrowser, tree: DependencyTree) -> bool {
    &&& f.expanded@ == set![0usize]
    &&& f.selected == 0
    &&& rows_view(f.flat@) == tree_rows(tree, set![0usize], o.filter@)
    &&& keeps_mode(o, f)
}

impl TreeBrowser {
    /// The browser as it opens: the root expanded, no filter, the root
    /// selected.
    pub fn new(tree: &DependencyTree) -> (r: TreeBrowser)
        requires
            browsable(*tree),
        ensures
            r.expanded@ == set![0usize],
            r.filter@.len() == 0,
            rows_view(r.flat@) == tree_rows(*tree, set![0usize], Seq::empty()),
            r.selected == 0,
            r.input_mode == InputMode::Normal,
            !r.show_help,
    {
        let mut expanded: HashSet<usize> = HashSet::new();
        insert_key(&mut expanded, 0);
        let filter = String::new();
        proof {
            reveal_strlit("");
        }
        let flat = flatten_tree(tree, &expanded, filter.as_str());
        assert(expanded@ =~= set![0usize]);
        TreeBrowser { flat, selected: 0, expanded, filter, input_mode: InputMode::Normal, show_help: false }
    }

    /// Flattens the tree again; a selection past the end moves to the last
    /// row.
    pub fn refresh(&mut self, tree: &DependencyTree)
        requires
            browsable(*tree),
        ensures
            refreshed(*old(self), *final(self), *tree),
    {
        self.flat = flatten_tree(tree, &self.expanded, self.filter.as_str());
        if self.selected >= self.flat.len() {
            self.selected = self.flat.len().saturating_sub(1);
        }
    }

    /// Moves the selection up one row, at the top staying there.
    pub fn move_up(&mut self)
        ensures
            moved_up(*old(self), *final(self)),
    {
        if self.selected > 0 {
            self.selected = self.selected - 1;
        }
    }

    /// Moves the selection down one row, at the last row staying there.
    pub fn move_down(&mut self)
        ensures
            moved_down(*old(self), *final(self)),
    {
        if self.selected < self.flat.len() && self.selected + 1 < self.flat.len() {
            self.selected = self.selected + 1;
        }
    }

    /// Key of a row at `depth`, the `cidx`-th of its siblings.
    fn key_for(&self, depth: usize, cidx: usize) -> (r: usize)
        ensures
            r == key_of(rows_view(self.flat@), self.selected as int, depth as nat, cidx as nat),
        decreases depth,
    {
        if depth == 0 {
            return 0;
        }
        let target = depth - 1;
        let ghost rows = rows_view(self.flat@);
        let end = if self.selected <= self.flat.len() {
            self.selected
        } else {
            0
        };
        let mut i: usize = end;
        while i > 0
            invariant
                i <= end,
                end <= self.flat@.len(),
                rows == rows_view(self.flat@),
                target == depth - 1,
                depth > 0,
                end == self.selected || (self.selected > self.flat@.len() && end == 0),
                last_at_depth(rows, self.selected as int, target as nat) == last_at_depth(rows, i as int, target as nat),
            decreases i,
        {
            if self.flat[i - 1].depth == target {
                assert(rows[i - 1].3 == target);
                if depth == 1 {
                    return child_key_exec(0, cidx);
                }
                let parent = self.key_for(target, self.flat[i - 1].child_idx);
                return child_key_exec(parent, cidx);
            }
            assert(rows[i - 1].3 != target);
            i -= 1;
        }
        0
    }

    /// The key that row `k` is expanded under.
    pub fn compute_tree_idx(&self, k: usize) -> (r: usize)
        requires
            k < self.flat@.len(),
        ensures
            r == row_key(*self, k as int),
    {
        self.key_for(self.flat[k].depth, self.flat[k].child_idx)
    }
}

/// `s` with `k` taken out.
pub open spec fn without(s: Set<usize>, k: usize) -> Set<usize> {
    s.remove(k)
}

/// Collapsing a node right after expanding it leaves the expanded keys as
/// they were, apart from that node's key.
pub proof fn lemma_collapse_undoes_expand(s: Set<usize>, k: usize)
    ensures
        without(with_key(s, k), k) == without(s, k),
{
    assert(s.insert(k).remove(k) =~= s.remove(k));
}

/// Takes the key out.
fn remove_key(keys: &mut HashSet<usize>, k: usize)
    ensures
        final(keys)@ == without(old(keys)@, k),
{
    broadcast use vstd::std_specs::hash::group_hash_axioms;
    keys.remove(&k);
}

/// `s` with `k` added.
pub open spec fn with_key(s: Set<usize>, k: usize) -> Set<usize> {
    s.insert(k)
}

/// Keys of the node with key `key` and of the nodes below it that have
/// children, in depth-first order.
pub open spec fn keys_below(n: DependencyNode, key: usize) -> Seq<usize>
    decreases n,
{
    (if n.children@.len() > 0 {
        seq![key]
    } else {
        Seq::empty()
    }) + kids_keys(n.children@, key)
}

/// Keys of the children (of the node with key `parent`) that have
/// children, and of theirs.
pub open spec fn kids_keys(kids: Seq<DependencyNode>, parent: usize) -> Seq<usize>
    decreases kids,
{
    if kids.len() == 0 {
        Seq::empty()
    } else {
        kids_keys(kids.drop_last(), parent) + keys_below(
            kids.last(),
            child_key(parent, (kids.len() - 1) as usize),
        )
    }
}

/// Adds every key of `more`.
pub open spec fn with_keys(s: Set<usize>, more: Seq<usize>) -> Set<usize>
    decreases more.len(),
{
    if more.len() == 0 {
        s
    } else {
        with_key(with_keys(s, more.drop_last()), more.last())
    }
}

/// Adds the key.
fn insert_key(keys: &mut HashSet<usize>, k: usize)
    ensures
        final(keys)@ == with_key(old(keys)@, k),
{
    broadcast use vstd::std_specs::hash::group_hash_axioms;
    keys.insert(k);
}

/// Adds the keys of a node with children and of every node below it.
fn expand_all_from(keys: &mut HashSet<usize>, key: usize, node: &DependencyNode)
    ensures
        final(keys)@ == with_keys(old(keys)@, keys_below(*node, key)),
    decreases node,
{
    let ghost k0 = keys@;
    if node.children.len() > 0 {
        insert_key(keys, key);
    }
    let ghost head = if node.children@.len() > 0 {
        seq![key]
    } else {
        Seq::<usize>::empty()
    };
    proof {
        reveal_with_fuel(with_keys, 2);
        assert(head.drop_last() =~= Seq::<usize>::empty() || head.len() == 0);
    }
    assert(keys@ == with_keys(k0, head)) by {
        if head.len() > 0 {
            assert(head.drop_last() =~= Seq::<usize>::empty());
        }
    }
    let kids = &node.children;
    let mut i: usize = 0;
    assert(kids@.take(0) =~= Seq::<DependencyNode>::empty());
    while i < kids.len()
        invariant
            i <= kids@.len(),
            kids == &node.children,
            keys@ == with_keys(k0, head + kids_keys(kids@.take(i as int), key)),
        decreases kids@.len() - i,
    {
        assert(kids@.take(i + 1).drop_last() =~= kids@.take(i as int));
        assert(kids@.take(i + 1).last() == kids@[i as int]);
        let ck = child_key_exec(key, i);
        let ghost before = keys@;
        expand_all_from(keys, ck, &kids[i]);
        proof {
            lemma_with_keys_concat(
                k0,
                head + kids_keys(kids@.take(i as int), key),
                keys_below(kids@[i as int], ck),
            );
            assert(head + kids_keys(kids@.take(i + 1), key) =~= head + kids_keys(kids@.take(i as int), key)
                + keys_below(kids@[i as int], ck));
        }
        i += 1;
    }
    assert(kids@.take(i as int) =~= kids@);
    assert(head + kids_keys(kids@, key) =~= keys_below(*node, key));
}

proof fn lemma_with_keys_concat(s: Set<usize>, a: Seq<usize>, b: Seq<usize>)
    ensures
        with_keys(s, a + b) == with_keys(with_keys(s, a), b),
    decreases b.len(),
{
    if b.len() == 0 {
        assert(a + b =~= a);
    } else {
        lemma_with_keys_concat(s, a, b.drop_last());
        assert((a + b).drop_last() =~= a + b.drop_last());
        assert((a + b).last() == b.last());
    }
}

impl TreeBrowser {
    /// Expands the selected row (when it has children) and flattens again.
    pub fn expand(&mut self, tree: &DependencyTree)
        requires
            browsable(*tree),
        ensures
            expanded_row(*old(self), *final(self), *tree),
    {
        if self.selected >= self.flat.len() {
            return;
        }
        if !self.flat[self.selected].has_children {
            return;
        }
        let idx = self.compute_tree_idx(self.selected);
        insert_key(&mut self.expanded, idx);
        self.refresh(tree);
    }

    /// Collapses the selected row when it is expanded; otherwise moves the
    /// selection to the nearest row one level up before it.
    pub fn collapse(&mut self, tree: &DependencyTree)
        requires
            browsable(*tree),
        ensures
            collapsed_row(*old(self), *final(self), *tree),
    {
        if self.selected >= self.flat.len() {
            return;
        }
        let idx = self.compute_tree_idx(self.selected);
        let has = self.flat[self.selected].has_children;
        if has && has_key(&self.expanded, idx) {
            remove_key(&mut self.expanded, idx);
            self.refresh(tree);
        } else if self.flat[self.selected].depth > 0 {
            let target = self.flat[self.selected].depth - 1;
            let ghost rows = rows_view(self.flat@);
            let ghost sel = self.selected;
            let ghost before = *self;
            let mut i: usize = self.selected;
            while i > 0
                invariant
                    i <= sel,
                    sel == self.selected,
                    sel < self.flat@.len(),
                    rows == rows_view(self.flat@),
                    *self == before,
                    before.flat@ == old(self).flat@,
                    before.expanded@ == old(self).expanded@,
                    before.filter@ == old(self).filter@,
                    before.input_mode == old(self).input_mode,
                    before.show_help == old(self).show_help,
                    before.selected == old(self).selected,
                    old(self).flat@[sel as int].depth > 0,
                    target == old(self).flat@[sel as int].depth - 1,
                    !(old(self).flat@[sel as int].has_children && old(self).expanded@.contains(
                        row_key(*old(self), sel as int),
                    )),
                    last_at_depth(rows, sel as int, target as nat) == last_at_depth(rows, i as int, target as nat),
                decreases i,
            {
                if self.flat[i - 1].depth == target {
                    assert(rows[i - 1].3 == target);
                    assert(last_at_depth(rows, i as int, target as nat) == Some((i - 1) as int));
                    self.selected = i - 1;
                    return;
                }
                i -= 1;
            }
        }
    }

    /// Expands every node that has children and flattens again.
    pub fn expand_all(&mut self, tree: &DependencyTree)
        requires
            browsable(*tree),
        ensures
            expanded_everything(*old(self), *final(self), *tree),
    {
        expand_all_from(&mut self.expanded, 0, &tree.root);
        self.refresh(tree);
    }

    /// Collapses everything but the root and selects the root.
    pub fn collapse_all(&mut self, tree: &DependencyTree)
        requires
            browsable(*tree),
        ensures
            collapsed_everything(*old(self), *final(self), *tree),
    {
        let mut e: HashSet<usize> = HashSet::new();
        insert_key(&mut e, 0);
        self.expanded = e;
        self.selected = 0;
        self.refresh(tree);
        assert(self.expanded@ =~= set![0usize]);
    }
}

// ───────────────────────────── keys ─────────────────────────────

/// A key press, as far as the browser tells keys apart.
#[derive(Debug, Clone, Copy, PartialEq, Eq)]
pub enum TreeKey {
    Up,
    Down,
    Left,
    Right,
    PageUp,
    PageDown,
    Enter,
    Esc,
    Backspace,
    Char(char),
    Other,
}

/// In search mode, the filter changed to `filter`, the rows were worked
/// out again with it, and the mode became `mode`.
pub open spec fn filtered(
    o: TreeBrowser,
    f: TreeBrowser,
    tree: DependencyTree,
    filter: Seq<char>,
    mode: InputMode,
) -> bool {
    &&& f.filter@ == filter
    &&& f.input_mode == mode
    &&& f.show_help == o.show_help
    &&& f.expanded@ == o.expanded@
    &&& rows_view(f.flat@) == tree_rows(tree, o.expanded@, filter)
    &&& f.selected == if o.selected >= f.flat@.len() {
        last_row(f)
    } else {
        o.selected
    }
}

/// What a key does in normal mode; the result tells whether to quit.
pub open spec fn normal_key(o: TreeBrowser, f: TreeBrowser, tree: DependencyTree, key: TreeKey, quit: bool) -> bool {
    match key {
        TreeKey::Esc | TreeKey::Char('q') => quit && unchanged(o, f),
        TreeKey::Char('?') => {
            &&& !quit
            &&& f.show_help
            &&& f.filter@ == o.filter@
            &&& f.input_mode == o.input_mode
            &&& f.flat@ == o.flat@
            &&& f.expanded@ == o.expanded@
            &&& f.selected == o.selected
        },
        TreeKey::Up | TreeKey::Char('k') => !quit && moved_up(o, f),
        TreeKey::Down | TreeKey::Char('j') => !quit && moved_down(o, f),
        TreeKey::Right | TreeKey::Char('l') => !quit && expanded_row(o, f, tree),
        TreeKey::Left | TreeKey::Char('h') => !quit && collapsed_row(o, f, tree),
        TreeKey::Char('/') => {
            &&& !quit
            &&& f.input_mode == InputMode::Search
            &&& f.filter@.len() == 0
            &&& f.show_help == o.show_help
            &&& f.flat@ == o.flat@
            &&& f.expanded@ == o.expanded@
            &&& f.selected == o.selected
        },
        TreeKey::Char('a') => !quit && expanded_everything(o, f, tree),
        TreeKey::Char('c') => !quit && collapsed_everything(o, f, tree),
        TreeKey::Char('g') => !quit && selected_to(o, f, 0),
        TreeKey::Char('G') => !quit && selected_to(o, f, last_row(o)),
        TreeKey::PageUp => !quit && selected_to(o, f, if o.selected >= 10 { (o.selected - 10) as usize } else { 0 }),
        TreeKey::PageDown => !quit && selected_to(
            o,
            f,
            if o.selected + 10 < last_row(o) { (o.selected + 10) as usize } else { last_row(o) },
        ),
        _ => !quit && unchanged(o, f),
    }
}

/// What a key does while a search filter is typed.
pub open spec fn search_key(o: TreeBrowser, f: TreeBrowser, tree: DependencyTree, key: TreeKey, quit: bool) -> bool {
    !quit && match key {
        TreeKey::Esc => filtered(o, f, tree, Seq::empty(), InputMode::Normal),
        TreeKey::Enter => filtered(o, f, tree, o.filter@, InputMode::Normal),
        TreeKey::Backspace => filtered(
            o,
            f,
            tree,
            if o.filter@.len() > 0 { o.filter@.drop_last() } else { o.filter@ },
            InputMode::Search,
        ),
        TreeKey::Char(c) => {
            &&& f.filter@ == o.filter@.push(c)
            &&& f.input_mode == InputMode::Search
            &&& f.show_help == o.show_help
            &&& f.expanded@ == o.expanded@
            &&& rows_view(f.flat@) == tree_rows(tree, o.expanded@, o.filter@.push(c))
            &&& f.selected == 0
        },
        _ => unchanged(o, f),
    }
}

/// `s` without its last character, if it has one.
fn drop_last_char(s: &String) -> (r: String)
    ensures
        r@ == if s@.len() > 0 { s@.drop_last() } else { s@ },
{
    let v = crate::text::chars_of(s.as_str());
    if v.len() == 0 {
        return owned(s.as_str());
    }
    let r = crate::text::string_of(&v, 0, v.len() - 1);
    assert(v@.subrange(0, v@.len() - 1) =~= s@.drop_last());
    r
}

impl TreeBrowser {
    /// Handles one key press and tells whether to quit.  While help shows,
    /// any key only closes it.
    pub fn handle_key(&mut self, tree: &DependencyTree, key: TreeKey) -> (quit: bool)
        requires
            browsable(*tree),
        ensures
            old(self).show_help ==> {
                &&& !quit
                &&& !final(self).show_help
                &&& final(self).filter@ == old(self).filter@
                &&& final(self).input_mode == old(self).input_mode
                &&& final(self).flat@ == old(self).flat@
                &&& final(self).expanded@ == old(self).expanded@
                &&& final(self).selected == old(self).selected
            },
            !old(self).show_help && old(self).input_mode == InputMode::Normal ==> normal_key(
                *old(self),
                *final(self),
                *tree,
                key,
                quit,
            ),
            !old(self).show_help && old(self).input_mode == InputMode::Search ==> search_key(
                *old(self),
                *final(self),
                *tree,
                key,
                quit,
            ),
    {
        if self.show_help {
            self.show_help = false;
            return false;
        }
        match self.input_mode {
            InputMode::Normal => self.normal_key(tree, key),
            InputMode::Search => {
                self.search_key(tree, key);
                false
            },
        }
    }

    fn normal_key(&mut self, tree: &DependencyTree, key: TreeKey) -> (quit: bool)
        requires
            browsable(*tree),
        ensures
            normal_key(*old(self), *final(self), *tree, key, quit),
    {
        match key {
            TreeKey::Esc | TreeKey::Char('q') => true,
            TreeKey::Char('?') => {
                self.show_help = true;
                false
            },
            TreeKey::Up | TreeKey::Char('k') => {
                self.move_up();
                false
            },
            TreeKey::Down | TreeKey::Char('j') => {
                self.move_down();
                false
            },
            TreeKey::Right | TreeKey::Char('l') => {
                self.expand(tree);
                false
            },
            TreeKey::Left | TreeKey::Char('h') => {
                self.collapse(tree);
                false
            },
            TreeKey::Char('/') => {
                self.input_mode = InputMode::Search;
                self.filter = String::new();
                proof {
                    reveal_strlit("");
                }
                false
            },
            TreeKey::Char('a') => {
                self.expand_all(tree);
                false
            },
            TreeKey::Char('c') => {
                self.collapse_all(tree);
                false
            },
            TreeKey::Char('g') => {
                self.selected = 0;
                false
            },
            TreeKey::Char('G') => {
                self.selected = self.flat.len().saturating_sub(1);
                false
            },
            TreeKey::PageUp => {
                self.selected = self.selected.saturating_sub(10);
                false
            },
            TreeKey::PageDown => {
                let last = self.flat.len().saturating_sub(1);
                if self.selected < last && last - self.selected > 10 {
                    self.selected = self.selected + 10;
                } else {
                    self.selected = last;
                }
                false
            },
            _ => false,
        }
    }

    fn search_key(&mut self, tree: &DependencyTree, key: TreeKey)
        requires
            browsable(*tree),
            old(self).input_mode == InputMode::Search,
        ensures
            search_key(*old(self), *final(self), *tree, key, false),
    {
        match key {
            TreeKey::Esc => {
                self.input_mode = InputMode::Normal;
                self.filter = String::new();
                assert(self.filter@ =~= Seq::<char>::empty());
                self.refresh(tree);
            },
            TreeKey::Enter => {
                self.input_mode = InputMode::Normal;
                self.refresh(tree);
            },
            TreeKey::Backspace => {
                self.filter = drop_last_char(&self.filter);
                self.refresh(tree);
            },
            TreeKey::Char(c) => {
                push_char(&mut self.filter, c);
                self.refresh(tree);
                self.selected = 0;
            },
            _ => {},
        }
    }
}

// ───────────────────────────── drawing ─────────────────────────────

/// The title of the tree panel.
pub open spec fn panel_title() -> Seq<char> {
    "jex tree (交互模式)"@
}

/// The title of the tree panel.
pub fn tree_panel_title() -> (r: &'static str)
    ensures
        r@ == panel_title(),
{
    "jex tree (交互模式)"
}

/// The marker before a row's name: open, closed, or none for a leaf.
pub open spec fn row_marker(has_children: bool, open: bool) -> Seq<char> {
    if has_children {
        if open {
            "▼ "@
        } else {
            "▶ "@
        }
    } else {
        "  "@
    }
}

/// What row `k` shows: indentation and marker, then the name (yellow and
/// bold when selected, white otherwise), the version in dark grey, and the
/// license in blue when there is one.
pub open spec fn row_text(b: TreeBrowser, k: int) -> LineText {
    let item = b.flat@[k];
    let tone = if k == b.selected { Tone::Yellow } else { Tone::White };
    let bold = k == b.selected;
    seq![
        (spaces((2 * item.depth) as nat) + row_marker(item.has_children, b.expanded@.contains(row_key(b, k))), tone, bold),
        (item.name@, tone, bold),
        ("  v"@ + item.version@, Tone::DarkGray, false),
        match item.license {
            Some(l) => ("  ["@ + l@ + "]"@, Tone::Blue, false),
            None => (Seq::empty(), Tone::Plain, false),
        },
    ]
}

/// Every row, in order.
pub open spec fn rows_text(b: TreeBrowser) -> Seq<LineText> {
    Seq::new(b.flat@.len(), |k: int| row_text(b, k))
}

/// What shows in place of the rows when there are none.
pub open spec fn empty_text(b: TreeBrowser) -> Seq<char> {
    if b.filter@.len() == 0 {
        "依赖树为空"@
    } else {
        "没有匹配的依赖"@
    }
}

/// The key hints shown while help is open.
pub open spec fn help_hint() -> Seq<char> {
    " ↑↓/jk:移动  →/l:展开  ←/h:折叠  /:搜索  a:全部展开  c:全部折叠  q/Esc:退出  ?:帮助 "@
}

/// The status bar: the key hints while help shows, the filter being typed
/// in search mode, otherwise the position among the dependencies (the root
/// not counted).
pub open spec fn status_text(b: TreeBrowser) -> Seq<char> {
    if b.show_help {
        help_hint()
    } else if b.input_mode == InputMode::Search {
        " /"@ + b.filter@
    } else {
        let total: nat = if b.flat@.len() > 0 { (b.flat@.len() - 1) as nat } else { 0 };
        let pos: nat = if b.selected < total { b.selected as nat } else { total };
        " "@ + decimal(pos) + "/"@ + decimal(total) + " dependencies | q/Esc:退出  ?:帮助 "@
    }
}

fn indent_marker(depth: usize, has_children: bool, open: bool) -> (r: String)
    ensures
        r@ == spaces((2 * depth) as nat) + row_marker(has_children, open),
{
    let mut s = String::new();
    let mut i: usize = 0;
    assert(s@ =~= spaces(0));
    while i < depth
        invariant
            i <= depth,
            s@ == spaces((2 * i) as nat),
        decreases depth - i,
    {
        push_str(&mut s, "  ");
        proof {
            reveal_strlit("  ");
        }
        assert(spaces((2 * (i + 1)) as nat) =~= spaces((2 * i) as nat) + "  "@);
        i += 1;
    }
    let m = if has_children {
        if open {
            "▼ "
        } else {
            "▶ "
        }
    } else {
        "  "
    };
    push_str(&mut s, m);
    s
}

impl TreeBrowser {
    /// The line that row `k` shows.
    pub fn row_line(&self, k: usize) -> (r: Vec<Piece>)
        requires
            k < self.flat@.len(),
        ensures
            line_view(r) == row_text(*self, k as int),
    {
        let item = &self.flat[k];
        let key = self.compute_tree_idx(k);
        let open = has_key(&self.expanded, key);
        let sel = k == self.selected;
        let tone = if sel {
            Tone::Yellow
        } else {
            Tone::White
        };
        let mut l: Vec<Piece> = Vec::new();
        l.push(piece(indent_marker(item.depth, item.has_children, open), tone, sel));
        l.push(piece(owned(item.name.as_str()), tone, sel));
        l.push(piece(concat2("  v", item.version.as_str()), Tone::DarkGray, false));
        match &item.license {
            Some(lic) => {
                let mut t = concat2("  [", lic.as_str());
                push_str(&mut t, "]");
                l.push(piece(t, Tone::Blue, false));
            },
            None => {
                l.push(piece(String::new(), Tone::Plain, false));
            },
        }
        proof {
            reveal_strlit("  v");
            reveal_strlit("  [");
            reveal_strlit("]");
        }
        assert(line_view(l) =~= row_text(*self, k as int));
        l
    }

    /// The lines of every row.
    pub fn row_lines(&self) -> (r: Vec<Vec<Piece>>)
        ensures
            lines_view(r@) == rows_text(*self),
    {
        let mut out: Vec<Vec<Piece>> = Vec::new();
        let mut k: usize = 0;
        while k < self.flat.len()
            invariant
                k <= self.flat@.len(),
                lines_view(out@) =~= rows_text(*self).take(k as int),
            decreases self.flat@.len() - k,
        {
            push_line(&mut out, self.row_line(k));
            assert(rows_text(*self).take(k + 1) =~= rows_text(*self).take(k as int).push(row_text(*self, k as int)));
            k += 1;
        }
        assert(rows_text(*self).take(k as int) =~= rows_text(*self));
        out
    }

    /// What shows in place of the rows when there are none.
    pub fn empty_message(&self) -> (r: &'static str)
        ensures
            r@ == empty_text(*self),
    {
        if str_is_empty(self.filter.as_str()) {
            "依赖树为空"
        } else {
            "没有匹配的依赖"
        }
    }

    /// The status bar's text.
    pub fn status_line(&self) -> (r: String)
        ensures
            r@ == status_text(*self),
    {
        if self.show_help {
            return owned(" ↑↓/jk:移动  →/l:展开  ←/h:折叠  /:搜索  a:全部展开  c:全部折叠  q/Esc:退出  ?:帮助 ");
        }
        if self.input_mode == InputMode::Search {
            return concat2(" /", self.filter.as_str());
        }
        let total = self.flat.len().saturating_sub(1);
        let pos = if self.selected < total {
            self.selected
        } else {
            total
        };
        let mut s = owned(" ");
        push_str(&mut s, usize_to_decimal(pos).as_str());
        push_str(&mut s, "/");
        push_str(&mut s, usize_to_decimal(total).as_str());
        push_str(&mut s, " dependencies | q/Esc:退出  ?:帮助 ");
        s
    }
}

/// One line of the help overlay: a key in cyan, then what it does.
pub open spec fn key_help(k: Seq<char>, what: Seq<char>) -> LineText {
    seq![(k, Tone::Cyan, false), (what, Tone::Plain, false)]
}

/// The help overlay.
pub open spec fn tree_help_text() -> Seq<LineText> {
    seq![
        one("  jex tree 交互模式帮助"@, Tone::Yellow, true),
        blank(),
        key_help("  ↑ / k"@, "      移动到上一个节点"@),
        key_help("  ↓ / j"@, "      移动到下一个节点"@),
        key_help("  → / l"@, "      展开当前节点"@),
        key_help("  ← / h"@, "      折叠当前节点 / 移动到父节点"@),
        key_help("  /"@, "        搜索过滤（输入后回车确认，Esc取消）"@),
        key_help("  a"@, "        全部展开"@),
        key_help("  c"@, "        全部折叠"@),
        key_help("  g"@, "        跳到第一个节点"@),
        key_help("  G"@, "        跳到最后一个节点"@),
        key_help("  q / Esc"@, "     退出"@),
        blank(),
        one("  按任意键关闭帮助"@, Tone::DarkGray, false),
    ]
}

/// The lines of the help overlay.
pub fn tree_help_lines() -> (r: Vec<Vec<Piece>>)
    ensures
        lines_view(r@) == tree_help_text(),
{
    let mut out: Vec<Vec<Piece>> = Vec::new();
    push_line(&mut out, line1(owned("  jex tree 交互模式帮助"), Tone::Yellow, true));
    push_line(&mut out, blank_line());
    push_line(&mut out, line2(owned("  ↑ / k"), Tone::Cyan, owned("      移动到上一个节点"), Tone::Plain));
    push_line(&mut out, line2(owned("  ↓ / j"), Tone::Cyan, owned("      移动到下一个节点"), Tone::Plain));
    push_line(&mut out, line2(owned("  → / l"), Tone::Cyan, owned("      展开当前节点"), Tone::Plain));
    push_line(&mut out, line2(owned("  ← / h"), Tone::Cyan, owned("      折叠当前节点 / 移动到父节点"), Tone::Plain));
    push_line(&mut out, line2(owned("  /"), Tone::Cyan, owned("        搜索过滤（输入后回车确认，Esc取消）"), Tone::Plain));
    push_line(&mut out, line2(owned("  a"), Tone::Cyan, owned("        全部展开"), Tone::Plain));
    push_line(&mut out, line2(owned("  c"), Tone::Cyan, owned("        全部折叠"), Tone::Plain));
    push_line(&mut out, line2(owned("  g"), Tone::Cyan, owned("        跳到第一个节点"), Tone::Plain));
    push_line(&mut out, line2(owned("  G"), Tone::Cyan, owned("        跳到最后一个节点"), Tone::Plain));
    push_line(&mut out, line2(owned("  q / Esc"), Tone::Cyan, owned("     退出"), Tone::Plain));
    push_line(&mut out, blank_line());
    push_line(&mut out, line1(owned("  按任意键关闭帮助"), Tone::DarkGray, false));
    assert(lines_view(out@) =~= tree_help_text());
    out
}

} // verus!
