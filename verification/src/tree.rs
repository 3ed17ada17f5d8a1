//! Dependency tree and its text rendering.

use vstd::prelude::*;
use crate::error::Result;
use crate::text::{split, views, str_split, owned, join_pair, push_str, concat2};

verus! {

/// A dependency tree.
#[derive(Debug)]
pub struct DependencyTree {
    pub root: DependencyNode,
}

/// A node of the dependency tree.
#[derive(Debug)]
pub struct DependencyNode {
    pub name: String,
    pub version: String,
    pub license: Option<String>,
    pub children: Vec<DependencyNode>,
}

/// Prefix of the children of a node drawn with `prefix`.
pub open spec fn child_prefix(prefix: Seq<char>, is_last: bool, depth: nat) -> Seq<char> {
    if depth == 0 {
        Seq::empty()
    } else if is_last {
        prefix + "    "@
    } else {
        prefix + "│   "@
    }
}

/// The lines of one node itself: at depth 0 its name; below, a branch to
/// its name and its version under it.
pub open spec fn node_head(node: DependencyNode, prefix: Seq<char>, is_last: bool, depth: nat) -> Seq<
    char,
> {
    if depth > 0 {
        prefix + (if is_last {
            "└── "@
        } else {
            "├── "@
        }) + node.name@ + "\n"@ + prefix + "    "@ + node.version@ + "\n"@
    } else {
        node.name@ + "\n"@
    }
}

/// Text of a node and, while `depth < max`, of its children.
pub open spec fn node_text(node: DependencyNode, prefix: Seq<char>, is_last: bool, depth: nat, max: nat) -> Seq<char>
    decreases node,
{
    let head = node_head(node, prefix, is_last, depth);
    if depth < max {
        head + children_text(node.children@, child_prefix(prefix, is_last, depth), depth + 1, max)
    } else {
        head
    }
}

/// Text of sibling nodes none of which is the last.
pub open spec fn nonlast_text(kids: Seq<DependencyNode>, prefix: Seq<char>, depth: nat, max: nat) -> Seq<char>
    decreases kids,
{
    if kids.len() == 0 {
        Seq::empty()
    } else {
        nonlast_text(kids.drop_last(), prefix, depth, max) + node_text(
            kids.last(),
            prefix,
            false,
            depth,
            max,
        )
    }
}

/// Text of a list of sibling nodes, the final one drawn as last.
pub open spec fn children_text(kids: Seq<DependencyNode>, prefix: Seq<char>, depth: nat, max: nat) -> Seq<char>
    decreases kids,
{
    if kids.len() == 0 {
        Seq::empty()
    } else {
        nonlast_text(kids.drop_last(), prefix, depth, max) + node_text(
            kids.last(),
            prefix,
            true,
            depth,
            max,
        )
    }
}

/// The rendered tree, down to depth `max` (unbounded when `None`).
pub open spec fn tree_text(tree: DependencyTree, depth: Option<usize>) -> Seq<char> {
    node_text(
        tree.root,
        Seq::empty(),
        true,
        0,
        match depth {
            Some(d) => d as nat,
            None => usize::MAX as nat,
        },
    )
}

/// `s` is `a`, then `x`, then `b`.
pub open spec fn split_around(s: Seq<char>, a: Seq<char>, x: Seq<char>, b: Seq<char>) -> bool {
    s == a + x + b
}

/// The text of the `i`-th of siblings none of which is the last lies
/// within theirs.
proof fn lemma_nonlast_holds(kids: Seq<DependencyNode>, prefix: Seq<char>, depth: nat, max: nat, i: int) -> (ab: (
    Seq<char>,
    Seq<char>,
))
    requires
        0 <= i < kids.len(),
    ensures
        nonlast_text(kids, prefix, depth, max) == ab.0 + node_text(kids[i], prefix, false, depth, max) + ab.1,
    decreases kids.len(),
{
    if i == kids.len() - 1 {
        let a = nonlast_text(kids.drop_last(), prefix, depth, max);
        assert(a + node_text(kids[i], prefix, false, depth, max) + Seq::<char>::empty() =~= nonlast_text(
            kids,
            prefix,
            depth,
            max,
        ));
        (a, Seq::empty())
    } else {
        let (a, b) = lemma_nonlast_holds(kids.drop_last(), prefix, depth, max, i);
        assert(kids.drop_last()[i] == kids[i]);
        let tail = node_text(kids.last(), prefix, false, depth, max);
        assert(a + node_text(kids[i], prefix, false, depth, max) + (b + tail) =~= nonlast_text(
            kids,
            prefix,
            depth,
            max,
        ));
        (a, b + tail)
    }
}

/// The two lines a node below the root starts with: the prefix, its
/// branch (`└── ` when it is the last of its siblings, else `├── `) and its
/// name; then the prefix, four spaces and its version.
pub open spec fn branch_lines(node: DependencyNode, prefix: Seq<char>, is_last: bool) -> Seq<char> {
    let branch = if is_last {
        "└── "@
    } else {
        "├── "@
    };
    let name_line = prefix + branch + node.name@ + "\n"@;
    let version_line = prefix + "    "@ + node.version@ + "\n"@;
    name_line + version_line
}

/// Every child in a rendered list of siblings below the root shows its
/// name and, on the next line, its version.
pub proof fn lemma_children_show_versions(
    kids: Seq<DependencyNode>,
    prefix: Seq<char>,
    depth: nat,
    max: nat,
    i: int,
)
    requires
        0 <= i < kids.len(),
        depth > 0,
    ensures
        ({
            let lines = branch_lines(kids[i], prefix, i == kids.len() - 1);
            exists|a: Seq<char>, b: Seq<char>|
                #[trigger] split_around(children_text(kids, prefix, depth, max), a, lines, b)
        }),
{
    let last = i == kids.len() - 1;
    let c = kids[i];
    let (a, b) = if last {
        (nonlast_text(kids.drop_last(), prefix, depth, max), Seq::<char>::empty())
    } else {
        let (a0, b0) = lemma_nonlast_holds(kids.drop_last(), prefix, depth, max, i);
        assert(kids.drop_last()[i] == c);
        (a0, b0 + node_text(kids.last(), prefix, true, depth, max))
    };
    assert(children_text(kids, prefix, depth, max) =~= a + node_text(c, prefix, last, depth, max) + b);
    let rest = node_text(c, prefix, last, depth, max).subrange(
        branch_lines(c, prefix, last).len() as int,
        node_text(c, prefix, last, depth, max).len() as int,
    );
    assert(node_head(c, prefix, last, depth) == branch_lines(c, prefix, last));
    assert(node_text(c, prefix, last, depth, max) =~= branch_lines(c, prefix, last) + rest);
    assert(children_text(kids, prefix, depth, max) =~= a + branch_lines(c, prefix, last) + (rest + b));
    assert(split_around(children_text(kids, prefix, depth, max), a, branch_lines(c, prefix, last), rest + b));
}

/// In the rendered tree, every child of the root (when the depth shows
/// children) has its name on a branch line and its version on the line
/// after, indented by four spaces.
pub proof fn lemma_tree_shows_child_versions(t: DependencyTree, depth: Option<usize>, i: int)
    requires
        0 <= i < t.root.children@.len(),
        depth is Some ==> depth->0 >= 1,
    ensures
        ({
            let lines = branch_lines(t.root.children@[i], Seq::empty(), i == t.root.children@.len() - 1);
            exists|a: Seq<char>, b: Seq<char>| #[trigger] split_around(tree_text(t, depth), a, lines, b)
        }),
{
    let max: nat = match depth {
        Some(d) => d as nat,
        None => usize::MAX as nat,
    };
    let kids = t.root.children@;
    lemma_children_show_versions(kids, Seq::empty(), 1, max, i);
    let lines = branch_lines(kids[i], Seq::empty(), i == kids.len() - 1);
    let (a, b) = choose|a: Seq<char>, b: Seq<char>|
        #[trigger] split_around(children_text(kids, Seq::empty(), 1, max), a, lines, b);
    assert(child_prefix(Seq::empty(), true, 0) == Seq::<char>::empty());
    let head = t.root.name@ + "\n"@;
    assert(tree_text(t, depth) == head + children_text(kids, Seq::empty(), 1, max));
    assert(tree_text(t, depth) =~= (head + a) + branch_lines(kids[i], Seq::empty(), i == kids.len() - 1)
        + b);
    assert(split_around(
        tree_text(t, depth),
        head + a,
        branch_lines(kids[i], Seq::empty(), i == kids.len() - 1),
        b,
    ));
}

/// Appends the text of `node` and its children to `output`.
fn render_node(
    node: &DependencyNode,
    output: &mut String,
    prefix: &str,
    is_last: bool,
    current_depth: usize,
    max_depth: usize,
)
    requires
        current_depth <= max_depth,
    ensures
        final(output)@ == old(output)@ + node_text(
            *node,
            prefix@,
            is_last,
            current_depth as nat,
            max_depth as nat,
        ),
    decreases node,
{
    let ghost out0 = output@;
    if current_depth > 0 {
        let connector = if is_last {
            "└── "
        } else {
            "├── "
        };
        push_str(output, prefix);
        push_str(output, connector);
        push_str(output, node.name.as_str());
        push_str(output, "\n");
        push_str(output, prefix);
        push_str(output, "    ");
        push_str(output, node.version.as_str());
        push_str(output, "\n");
    } else {
        push_str(output, node.name.as_str());
        push_str(output, "\n");
    }
    let ghost head = node_head(*node, prefix@, is_last, current_depth as nat);
    assert(output@ =~= out0 + head);
    if current_depth < max_depth {
        let child_prefix = if current_depth == 0 {
            String::new()
        } else if is_last {
            concat2(prefix, "    ")
        } else {
            concat2(prefix, "│   ")
        };
        let ghost kids = node.children@;
        let ghost cp = child_prefix@;
        assert(cp == crate::tree::child_prefix(prefix@, is_last, current_depth as nat));
        let child_count = node.children.len();
        if child_count > 0 {
            let mut i: usize = 0;
            assert(kids.take(0) =~= Seq::<DependencyNode>::empty());
            while i < child_count - 1
                invariant
                    kids == node.children@,
                    child_count == kids.len(),
                    child_count > 0,
                    i <= child_count - 1,
                    current_depth < max_depth,
                    cp == child_prefix@,
                    output@ == out0 + head + nonlast_text(
                        kids.take(i as int),
                        cp,
                        (current_depth + 1) as nat,
                        max_depth as nat,
                    ),
                decreases child_count - i,
            {
                assert(kids.take(i + 1).drop_last() =~= kids.take(i as int));
                assert(kids.take(i + 1).last() == kids[i as int]);
                let ghost before = output@;
                render_node(
                    &node.children[i],
                    output,
                    child_prefix.as_str(),
                    false,
                    current_depth + 1,
                    max_depth,
                );
                assert(output@ =~= before + node_text(
                    kids[i as int],
                    cp,
                    false,
                    (current_depth + 1) as nat,
                    max_depth as nat,
                ));
                i += 1;
            }
            assert(kids.drop_last() =~= kids.take(i as int));
            let ghost before = output@;
            render_node(
                &node.children[i],
                output,
                child_prefix.as_str(),
                true,
                current_depth + 1,
                max_depth,
            );
            assert(kids.last() == kids[i as int]);
            assert(output@ =~= out0 + head + children_text(
                kids,
                cp,
                (current_depth + 1) as nat,
                max_depth as nat,
            ));
        } else {
            assert(kids.len() == 0);
            assert(output@ =~= out0 + head + children_text(
                kids,
                cp,
                (current_depth + 1) as nat,
                max_depth as nat,
            ));
        }
    }
}

/// Renders the tree, showing nodes down to `depth` levels below the root
/// (all when `None`).
pub fn render_tree(tree: &DependencyTree, depth: Option<usize>) -> (r: String)
    ensures
        r@ == tree_text(*tree, depth),
{
    let mut output = String::new();
    let max_depth = match depth {
        Some(d) => d,
        None => usize::MAX,
    };
    render_node(&tree.root, &mut output, "", true, 0, max_depth);
    assert(output@ =~= tree_text(*tree, depth));
    output
}

/// Children of the root for the dependencies (coordinate, version) whose
/// coordinate has at least two `:`-separated parts: named `group:artifact`,
/// in order.
pub open spec fn root_children(deps: Seq<(String, String)>) -> Seq<(Seq<char>, Seq<char>)>
    decreases deps.len(),
{
    if deps.len() == 0 {
        Seq::empty()
    } else {
        let parts = split(deps.last().0@, ':');
        let rest = root_children(deps.drop_last());
        if parts.len() >= 2 {
            rest.push((parts[0].push(':') + parts[1], deps.last().1@))
        } else {
            rest
        }
    }
}

/// The tree of the locked dependencies (coordinate, version): a root named
/// `root` with one leaf per dependency.
pub fn build_dependency_tree(dependencies: &Vec<(String, String)>) -> (r: Result<DependencyTree>)
    ensures
        r matches Ok(t) && {
            &&& t.root.name@ == "root"@
            &&& t.root.version@.len() == 0
            &&& t.root.license is None
            &&& t.root.children@.map_values(|n: DependencyNode| (n.name@, n.version@))
                == root_children(dependencies@)
            &&& forall|k: int|
                0 <= k < t.root.children@.len() ==> (#[trigger] t.root.children@[k]).license is None
                    && t.root.children@[k].children@.len() == 0
        },
{
    let ghost s = dependencies@;
    let mut children: Vec<DependencyNode> = Vec::new();
    let mut i: usize = 0;
    assert(s.take(0) =~= Seq::<(String, String)>::empty());
    while i < dependencies.len()
        invariant
            s == dependencies@,
            i <= s.len(),
            children@.map_values(|n: DependencyNode| (n.name@, n.version@)) == root_children(
                s.take(i as int),
            ),
            forall|k: int|
                0 <= k < children@.len() ==> (#[trigger] children@[k]).license is None
                    && children@[k].children@.len() == 0,
        decreases s.len() - i,
    {
        assert(s.take(i + 1).drop_last() =~= s.take(i as int));
        assert(s.take(i + 1).last() == s[i as int]);
        let parts = str_split(dependencies[i].0.as_str(), ':');
        proof {
            assert(views(parts@).len() == parts@.len());
        }
        if parts.len() >= 2 {
            proof {
                assert(views(parts@)[0] == parts@[0]@);
                assert(views(parts@)[1] == parts@[1]@);
            }
            let name = join_pair(parts[0].as_str(), ':', parts[1].as_str());
            let ghost c0 = children@;
            children.push(
                DependencyNode {
                    name,
                    version: dependencies[i].1.clone(),
                    license: None,
                    children: Vec::new(),
                },
            );
            assert(children@.map_values(|n: DependencyNode| (n.name@, n.version@)) =~= c0.map_values(
                |n: DependencyNode| (n.name@, n.version@),
            ).push((parts@[0]@.push(':') + parts@[1]@, dependencies@[i as int].1@)));
        }
        i += 1;
    }
    assert(s.take(s.len() as int) =~= s);
    Ok(
        DependencyTree {
            root: DependencyNode {
                name: owned("root"),
                version: String::new(),
                license: None,
                children,
            },
        },
    )
}

} // verus!
