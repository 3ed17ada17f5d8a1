//! Maven dependency resolution: coordinates, Maven Central URLs, the
//! dependencies a POM declares, and the dependency tree's rendering.

use vstd::prelude::*;
use crate::error::{Error, Result};
use crate::text::{
    split, views, str_split, str_eq, owned, concat2, concat3, push_str, replace_char,
    str_replace_char, join_pair, str_is_empty,
};
use crate::xml::{XmlEvent, xml_events, xml_events_of};

verus! {

/// A node of a resolved dependency tree.
#[derive(Debug)]
pub struct DepNode {
    pub group: String,
    pub artifact: String,
    pub version: String,
    pub scope: String,
    pub children: Vec<DepNode>,
}

/// Message of the error for a coordinate without `:`.
pub open spec fn bad_coord_message(coord: Seq<char>) -> Seq<char> {
    "无效坐标格式: "@ + coord + "（应为 group:artifact）"@
}

/// Splits `group:artifact` into its first two parts.
pub fn split_coord(coord: &str) -> (r: Result<(String, String)>)
    ensures
        match r {
            Ok((g, a)) => split(coord@, ':').len() >= 2 && g@ == split(coord@, ':')[0] && a@
                == split(coord@, ':')[1],
            Err(e) => split(coord@, ':').len() < 2 && e.0@ == bad_coord_message(coord@),
        },
{
    let parts = str_split(coord, ':');
    proof {
        assert(views(parts@).len() == parts@.len());
    }
    if parts.len() < 2 {
        return Err(Error::new(concat3("无效坐标格式: ", coord, "（应为 group:artifact）")));
    }
    proof {
        assert(views(parts@)[0] == parts@[0]@);
        assert(views(parts@)[1] == parts@[1]@);
    }
    Ok((parts[0].clone(), parts[1].clone()))
}

/// Maven Central search URL for the versions of `group:artifact`.
pub open spec fn search_url_text(group: Seq<char>, artifact: Seq<char>) -> Seq<char> {
    "https://search.maven.org/solrsearch/select?q=g:"@ + group + "+AND+a:"@ + artifact
        + "&core=gav&rows=200&wt=json"@
}

/// Maven Central search URL for the versions of `group:artifact`.
pub fn search_url(group: &str, artifact: &str) -> (r: String)
    ensures
        r@ == search_url_text(group@, artifact@),
{
    let mut s = concat3("https://search.maven.org/solrsearch/select?q=g:", group, "+AND+a:");
    push_str(&mut s, artifact);
    push_str(&mut s, "&core=gav&rows=200&wt=json");
    s
}

/// The latest version of `coord`: the first of the versions the search
/// returned (newest first).
pub fn latest_from_versions(coord: &str, versions: Vec<String>) -> (r: Result<String>)
    ensures
        match r {
            Ok(v) => versions@.len() > 0 && v@ == versions@[0]@,
            Err(e) => versions@.len() == 0 && e.0@ == "未找到依赖: "@ + coord@,
        },
{
    if versions.len() == 0 {
        Err(Error::new(concat2("未找到依赖: ", coord)))
    } else {
        Ok(versions[0].clone())
    }
}

/// Maven Central URL of the POM of `group:artifact:version`.
pub open spec fn versioned_pom_url(group: Seq<char>, artifact: Seq<char>, version: Seq<char>) -> Seq<
    char,
> {
    "https://repo1.maven.org/maven2/"@ + replace_char(group, '.', "/"@) + "/"@ + artifact + "/"@
        + version + "/"@ + artifact + "-"@ + version + ".pom"@
}

/// Maven Central URL of the POM of `group:artifact:version`.
pub fn pom_url(group: &str, artifact: &str, version: &str) -> (r: String)
    ensures
        r@ == versioned_pom_url(group@, artifact@, version@),
{
    let path = str_replace_char(group, '.', "/");
    let mut s = concat3("https://repo1.maven.org/maven2/", path.as_str(), "/");
    push_str(&mut s, artifact);
    push_str(&mut s, "/");
    push_str(&mut s, version);
    push_str(&mut s, "/");
    push_str(&mut s, artifact);
    push_str(&mut s, "-");
    push_str(&mut s, version);
    push_str(&mut s, ".pom");
    s
}

// ───────────────────────────── POM dependencies ─────────────────────────────

/// State of the scan of a POM's events for its dependencies.
pub struct PomScan {
    pub in_deps: bool,
    pub in_dep: bool,
    pub group: Seq<char>,
    pub artifact: Seq<char>,
    pub version: Seq<char>,
    pub scope: Seq<char>,
    pub element: Seq<char>,
    pub skip_optional: bool,
    pub done: bool,
    pub deps: Seq<(Seq<char>, Seq<char>, Seq<char>)>,
}

/// State before the first event.
pub open spec fn scan_start() -> PomScan {
    PomScan {
        in_deps: false,
        in_dep: false,
        group: Seq::empty(),
        artifact: Seq::empty(),
        version: Seq::empty(),
        scope: "compile"@,
        element: Seq::empty(),
        skip_optional: false,
        done: false,
        deps: Seq::empty(),
    }
}

/// A finished `<dependency>` is kept: not optional, in compile or runtime
/// scope, with group, artifact and version.
pub open spec fn keeps(s: PomScan) -> bool {
    !s.skip_optional && (s.scope == "compile"@ || s.scope == "runtime"@) && s.version.len() > 0
        && s.group.len() > 0 && s.artifact.len() > 0
}

/// One event of the scan.
pub open spec fn scan_step(s: PomScan, e: XmlEvent) -> PomScan {
    if s.done {
        s
    } else {
        match e {
            XmlEvent::Start(t) => if t@ == "dependencies"@ && !s.in_deps {
                PomScan { in_deps: true, ..s }
            } else if t@ == "dependency"@ && s.in_deps {
                PomScan {
                    in_dep: true,
                    group: Seq::empty(),
                    artifact: Seq::empty(),
                    version: Seq::empty(),
                    scope: "compile"@,
                    ..s
                }
            } else if s.in_dep {
                PomScan { element: t@, ..s }
            } else {
                s
            },
            XmlEvent::Text(x) => text_step(s, x@),
            XmlEvent::BadText(_) => text_step(s, Seq::empty()),
            XmlEvent::End(t) => if t@ == "dependency"@ && s.in_dep {
                PomScan {
                    in_dep: false,
                    element: Seq::empty(),
                    skip_optional: false,
                    deps: if keeps(s) {
                        s.deps.push((s.group, s.artifact, s.version))
                    } else {
                        s.deps
                    },
                    ..s
                }
            } else if t@ == "dependencies"@ && s.in_deps {
                PomScan { in_deps: false, element: Seq::empty(), ..s }
            } else {
                PomScan { element: Seq::empty(), ..s }
            },
            XmlEvent::Eof => PomScan { done: true, ..s },
            XmlEvent::Failed(_) => PomScan { done: true, ..s },
            XmlEvent::CutShort => PomScan { done: true, ..s },
            _ => s,
        }
    }
}

/// Character data inside a dependency's element sets that field.
pub open spec fn text_step(s: PomScan, text: Seq<char>) -> PomScan {
    if s.in_dep && s.element.len() > 0 {
        if s.element == "groupId"@ {
            PomScan { group: text, ..s }
        } else if s.element == "artifactId"@ {
            PomScan { artifact: text, ..s }
        } else if s.element == "version"@ {
            PomScan { version: text, ..s }
        } else if s.element == "scope"@ {
            PomScan { scope: text, ..s }
        } else if s.element == "optional"@ && text == "true"@ {
            PomScan { skip_optional: true, ..s }
        } else {
            s
        }
    } else {
        s
    }
}

/// The scan after the events `es`.
pub open spec fn scan_events(es: Seq<XmlEvent>) -> PomScan
    decreases es.len(),
{
    if es.len() == 0 {
        scan_start()
    } else {
        scan_step(scan_events(es.drop_last()), es.last())
    }
}

/// The dependencies (group, artifact, version) that a POM's events
/// declare in compile or runtime scope and not as optional, in order;
/// events after the end of input or an error are not read.
pub fn pom_dependencies_from_events(events: &Vec<XmlEvent>) -> (r: Vec<(String, String, String)>)
    ensures
        r@.map_values(|d: (String, String, String)| (d.0@, d.1@, d.2@)) == scan_events(events@).deps,
{
    let ghost es = events@;
    let mut in_deps = false;
    let mut in_dep = false;
    let mut group = String::new();
    let mut artifact = String::new();
    let mut version = String::new();
    let mut scope = owned("compile");
    let mut element = String::new();
    let mut skip_optional = false;
    let mut done = false;
    let mut deps: Vec<(String, String, String)> = Vec::new();
    let mut i: usize = 0;
    assert(es.take(0) =~= Seq::<XmlEvent>::empty());
    while i < events.len()
        invariant
            es == events@,
            i <= es.len(),
            ({
                let st = scan_events(es.take(i as int));
                &&& st.in_deps == in_deps
                &&& st.in_dep == in_dep
                &&& st.group == group@
                &&& st.artifact == artifact@
                &&& st.version == version@
                &&& st.scope == scope@
                &&& st.element == element@
                &&& st.skip_optional == skip_optional
                &&& st.done == done
                &&& st.deps == deps@.map_values(|d: (String, String, String)| (d.0@, d.1@, d.2@))
            }),
        decreases es.len() - i,
    {
        assert(es.take(i + 1).drop_last() =~= es.take(i as int));
        assert(es.take(i + 1).last() == es[i as int]);
        let ghost st0 = scan_events(es.take(i as int));
        let ghost st1 = scan_step(st0, es[i as int]);
        if !done {
            match &events[i] {
                XmlEvent::Start(t) => {
                    if str_eq(t.as_str(), "dependencies") && !in_deps {
                        in_deps = true;
                    } else if str_eq(t.as_str(), "dependency") && in_deps {
                        in_dep = true;
                        group = String::new();
                        artifact = String::new();
                        version = String::new();
                        scope = owned("compile");
                    } else if in_dep {
                        element = t.clone();
                    }
                },
                XmlEvent::Text(x) => {
                    scan_text(
                        in_dep,
                        &element,
                        x.as_str(),
                        &mut group,
                        &mut artifact,
                        &mut version,
                        &mut scope,
                        &mut skip_optional,
                    );
                },
                XmlEvent::BadText(_) => {
                    proof {
                        reveal_strlit("");
                        assert(""@ =~= Seq::<char>::empty());
                    }
                    scan_text(
                        in_dep,
                        &element,
                        "",
                        &mut group,
                        &mut artifact,
                        &mut version,
                        &mut scope,
                        &mut skip_optional,
                    );
                },
                XmlEvent::End(t) => {
                    if str_eq(t.as_str(), "dependency") && in_dep {
                        in_dep = false;
                        let keep = !skip_optional && (str_eq(scope.as_str(), "compile") || str_eq(
                            scope.as_str(),
                            "runtime",
                        )) && !str_is_empty(version.as_str()) && !str_is_empty(group.as_str())
                            && !str_is_empty(artifact.as_str());
                        if keep {
                            let ghost d0 = deps@;
                            deps.push((group.clone(), artifact.clone(), version.clone()));
                            assert(deps@.map_values(|d: (String, String, String)| (d.0@, d.1@, d.2@))
                                =~= d0.map_values(|d: (String, String, String)| (d.0@, d.1@, d.2@)).push(
                                (group@, artifact@, version@),
                            ));
                        }
                        skip_optional = false;
                    } else if str_eq(t.as_str(), "dependencies") && in_deps {
                        in_deps = false;
                    }
                    element = String::new();
                },
                XmlEvent::Eof => {
                    done = true;
                },
                XmlEvent::Failed(_) => {
                    done = true;
                },
                XmlEvent::CutShort => {
                    done = true;
                },
                _ => {},
            }
        }
        assert(st1.in_deps == in_deps);
        assert(st1.in_dep == in_dep);
        assert(st1.group == group@);
        assert(st1.artifact == artifact@);
        assert(st1.version == version@);
        assert(st1.scope == scope@);
        assert(st1.element == element@);
        assert(st1.skip_optional == skip_optional);
        assert(st1.done == done);
        assert(st1.deps == deps@.map_values(|d: (String, String, String)| (d.0@, d.1@, d.2@)));
        i += 1;
    }
    assert(es.take(es.len() as int) =~= es);
    deps
}

/// Applies one text event to the fields of the dependency being read.
fn scan_text(
    in_dep: bool,
    element: &String,
    text: &str,
    group: &mut String,
    artifact: &mut String,
    version: &mut String,
    scope: &mut String,
    skip_optional: &mut bool,
)
    ensures
        ({
            let s = PomScan {
                in_deps: false,
                in_dep,
                group: old(group)@,
                artifact: old(artifact)@,
                version: old(version)@,
                scope: old(scope)@,
                element: element@,
                skip_optional: *old(skip_optional),
                done: false,
                deps: Seq::empty(),
            };
            let t = text_step(s, text@);
            &&& final(group)@ == t.group
            &&& final(artifact)@ == t.artifact
            &&& final(version)@ == t.version
            &&& final(scope)@ == t.scope
            &&& *final(skip_optional) == t.skip_optional
        }),
{
    if in_dep && !str_is_empty(element.as_str()) {
        let el = element.as_str();
        if str_eq(el, "groupId") {
            *group = owned(text);
        } else if str_eq(el, "artifactId") {
            *artifact = owned(text);
        } else if str_eq(el, "version") {
            *version = owned(text);
        } else if str_eq(el, "scope") {
            *scope = owned(text);
        } else if str_eq(el, "optional") && str_eq(text, "true") {
            *skip_optional = true;
        }
    }
}

/// The dependencies, as (group, artifact, version), that the POM text `pom`
/// declares in compile or runtime scope and not as optional, in order:
/// what the scan gives for the text's XML events.
pub open spec fn pom_deps_of(pom: Seq<char>) -> Seq<(Seq<char>, Seq<char>, Seq<char>)> {
    scan_events(xml_events_of(pom)).deps
}

/// The dependencies a POM declares in compile or runtime scope and not as
/// optional, in order, as read from the POM's XML events.
pub fn parse_pom_dependencies(pom: &str) -> (r: Result<Vec<(String, String, String)>>)
    ensures
        r is Ok,
        r->Ok_0@.map_values(|d: (String, String, String)| (d.0@, d.1@, d.2@)) == pom_deps_of(pom@),
        forall|k: int|
            0 <= k < r->Ok_0@.len() ==> (#[trigger] r->Ok_0@[k]).0@.len() > 0 && r->Ok_0@[k].1@.len()
                > 0 && r->Ok_0@[k].2@.len() > 0,
{
    let events = xml_events(pom);
    let deps = pom_dependencies_from_events(&events);
    proof {
        lemma_scan_deps_nonempty(events@);
        assert forall|k: int| 0 <= k < deps@.len() implies (#[trigger] deps@[k]).0@.len() > 0
            && deps@[k].1@.len() > 0 && deps@[k].2@.len() > 0 by {
            let m = deps@.map_values(|d: (String, String, String)| (d.0@, d.1@, d.2@));
            assert(m[k] == (deps@[k].0@, deps@[k].1@, deps@[k].2@));
        }
    }
    Ok(deps)
}

/// The event opens the element `name`.
pub open spec fn opens(e: XmlEvent, name: Seq<char>) -> bool {
    e matches XmlEvent::Start(t) && t@ == name
}

/// The event closes the element `name`.
pub open spec fn closes(e: XmlEvent, name: Seq<char>) -> bool {
    e matches XmlEvent::End(t) && t@ == name
}

/// The event is the character data `x`.
pub open spec fn text_is(e: XmlEvent, x: Seq<char>) -> bool {
    e matches XmlEvent::Text(t) && t@ == x
}

/// The events `el` are one `<dependency>` element holding, in order,
/// `<groupId>g</groupId>`, `<artifactId>a</artifactId>`,
/// `<version>v</version>` and `<scope>sc</scope>`.
pub open spec fn dependency_element(
    el: Seq<XmlEvent>,
    g: Seq<char>,
    a: Seq<char>,
    v: Seq<char>,
    sc: Seq<char>,
) -> bool {
    &&& el.len() == 14
    &&& opens(el[0], "dependency"@)
    &&& opens(el[1], "groupId"@) && text_is(el[2], g) && closes(el[3], "groupId"@)
    &&& opens(el[4], "artifactId"@) && text_is(el[5], a) && closes(el[6], "artifactId"@)
    &&& opens(el[7], "version"@) && text_is(el[8], v) && closes(el[9], "version"@)
    &&& opens(el[10], "scope"@) && text_is(el[11], sc) && closes(el[12], "scope"@)
    &&& closes(el[13], "dependency"@)
}

/// Outside a `<dependency>`, no dependency is marked optional.
pub proof fn lemma_scan_optional_inside(es: Seq<XmlEvent>)
    ensures
        scan_events(es).in_dep || !scan_events(es).skip_optional,
    decreases es.len(),
{
    if es.len() > 0 {
        lemma_scan_optional_inside(es.drop_last());
    }
}

/// The scan after one more event.
proof fn lemma_scan_push(es: Seq<XmlEvent>, e: XmlEvent)
    ensures
        scan_events(es.push(e)) == scan_step(scan_events(es), e),
{
    assert(es.push(e).drop_last() =~= es);
}

/// In the `<dependencies>` section, a `<dependency>` element with a group,
/// an artifact and a version adds exactly that dependency, at the end,
/// when its scope is `compile` or `runtime`, and adds nothing in any
/// other scope (`provided`, `system`, `import`, `test`, ...).
pub proof fn lemma_scan_dependency_scope(
    es: Seq<XmlEvent>,
    el: Seq<XmlEvent>,
    g: Seq<char>,
    a: Seq<char>,
    v: Seq<char>,
    sc: Seq<char>,
)
    requires
        scan_events(es).in_deps,
        !scan_events(es).in_dep,
        !scan_events(es).done,
        dependency_element(el, g, a, v, sc),
        g.len() > 0,
        a.len() > 0,
        v.len() > 0,
    ensures
        scan_events(es + el).deps == if sc == "compile"@ || sc == "runtime"@ {
            scan_events(es).deps.push((g, a, v))
        } else {
            scan_events(es).deps
        },
{
    reveal_strlit("dependency");
    reveal_strlit("dependencies");
    reveal_strlit("groupId");
    reveal_strlit("artifactId");
    reveal_strlit("version");
    reveal_strlit("scope");
    reveal_strlit("optional");
    assert("artifactId"@[0] != "dependency"@[0]);
    assert("version"@[0] != "groupId"@[0]);
    lemma_scan_optional_inside(es);
    let s0 = scan_events(es);
    let p0 = es;
    lemma_scan_push(p0, el[0]);
    let p1 = p0.push(el[0]);
    assert({ let st = scan_events(p1); st.in_dep && st.in_deps && !st.done && !st.skip_optional && st.deps == s0.deps && st.scope == "compile"@ });
    lemma_scan_push(p1, el[1]);
    let p2 = p1.push(el[1]);
    assert({ let st = scan_events(p2); st.element == "groupId"@ });
    lemma_scan_push(p2, el[2]);
    let p3 = p2.push(el[2]);
    assert({ let st = scan_events(p3); st.group == g });
    lemma_scan_push(p3, el[3]);
    let p4 = p3.push(el[3]);
    assert({ let st = scan_events(p4); st.element.len() == 0 });
    lemma_scan_push(p4, el[4]);
    let p5 = p4.push(el[4]);
    assert({ let st = scan_events(p5); st.element == "artifactId"@ });
    lemma_scan_push(p5, el[5]);
    let p6 = p5.push(el[5]);
    assert({ let st = scan_events(p6); st.artifact == a });
    lemma_scan_push(p6, el[6]);
    let p7 = p6.push(el[6]);
    assert({ let st = scan_events(p7); st.element.len() == 0 });
    lemma_scan_push(p7, el[7]);
    let p8 = p7.push(el[7]);
    assert({ let st = scan_events(p8); st.element == "version"@ });
    lemma_scan_push(p8, el[8]);
    let p9 = p8.push(el[8]);
    assert({ let st = scan_events(p9); st.version == v });
    lemma_scan_push(p9, el[9]);
    let p10 = p9.push(el[9]);
    assert({ let st = scan_events(p10); st.element.len() == 0 });
    lemma_scan_push(p10, el[10]);
    let p11 = p10.push(el[10]);
    assert({ let st = scan_events(p11); st.element == "scope"@ });
    lemma_scan_push(p11, el[11]);
    let p12 = p11.push(el[11]);
    assert({ let st = scan_events(p12); st.scope == sc });
    lemma_scan_push(p12, el[12]);
    let p13 = p12.push(el[12]);
    assert({ let st = scan_events(p13); st.element.len() == 0 });
    lemma_scan_push(p13, el[13]);
    let p14 = p13.push(el[13]);
    assert(p14 =~= es + el);
}

/// Every dependency the scan keeps has a group, an artifact and a version.
pub proof fn lemma_scan_deps_nonempty(es: Seq<XmlEvent>)
    ensures
        forall|k: int|
            0 <= k < scan_events(es).deps.len() ==> (#[trigger] scan_events(es).deps[k]).0.len() > 0
                && scan_events(es).deps[k].1.len() > 0 && scan_events(es).deps[k].2.len() > 0,
    decreases es.len(),
{
    if es.len() > 0 {
        lemma_scan_deps_nonempty(es.drop_last());
        let prev = scan_events(es.drop_last());
        let cur = scan_events(es);
        assert(cur == scan_step(prev, es.last()));
        assert(cur.deps == prev.deps || (keeps(prev) && cur.deps == prev.deps.push(
            (prev.group, prev.artifact, prev.version),
        )));
        assert forall|k: int| 0 <= k < cur.deps.len() implies (#[trigger] cur.deps[k]).0.len() > 0
            && cur.deps[k].1.len() > 0 && cur.deps[k].2.len() > 0 by {
            if k < prev.deps.len() {
                assert(cur.deps[k] == prev.deps[k]);
            }
        }
    }
}

// ───────────────────────────── tree ─────────────────────────────

/// Text of a dependency node and its children.
pub open spec fn dep_text(node: DepNode, prefix: Seq<char>, is_last: bool) -> Seq<char>
    decreases node,
{
    (prefix + (if is_last {
        "└─ "@
    } else {
        "├─ "@
    }) + node.group@ + ":"@ + node.artifact@ + ":"@ + node.version@ + "\n"@) + dep_children_text(
        node.children@,
        prefix + (if is_last {
            "   "@
        } else {
            "│  "@
        }),
    )
}

/// Text of sibling nodes none of which is the last.
pub open spec fn dep_nonlast_text(kids: Seq<DepNode>, prefix: Seq<char>) -> Seq<char>
    decreases kids,
{
    if kids.len() == 0 {
        Seq::empty()
    } else {
        dep_nonlast_text(kids.drop_last(), prefix) + dep_text(kids.last(), prefix, false)
    }
}

/// Text of sibling nodes, the final one drawn as last.
pub open spec fn dep_children_text(kids: Seq<DepNode>, prefix: Seq<char>) -> Seq<char>
    decreases kids,
{
    if kids.len() == 0 {
        Seq::empty()
    } else {
        dep_nonlast_text(kids.drop_last(), prefix) + dep_text(kids.last(), prefix, true)
    }
}

/// Formats a dependency tree as indented text, one node per line.
pub fn format_tree(node: &DepNode, prefix: &str, is_last: bool) -> (r: String)
    ensures
        r@ == dep_text(*node, prefix@, is_last),
    decreases node,
{
    let connector = if is_last {
        "└─ "
    } else {
        "├─ "
    };
    let mut result = concat2(prefix, connector);
    push_str(&mut result, node.group.as_str());
    push_str(&mut result, ":");
    push_str(&mut result, node.artifact.as_str());
    push_str(&mut result, ":");
    push_str(&mut result, node.version.as_str());
    push_str(&mut result, "\n");
    let child_prefix = concat2(
        prefix,
        if is_last {
            "   "
        } else {
            "│  "
        },
    );
    let ghost head = result@;
    let ghost kids = node.children@;
    let ghost cp = child_prefix@;
    let n = node.children.len();
    if n > 0 {
        let mut i: usize = 0;
        assert(kids.take(0) =~= Seq::<DepNode>::empty());
        while i < n - 1
            invariant
                kids == node.children@,
                n == kids.len(),
                n > 0,
                i <= n - 1,
                cp == child_prefix@,
                result@ == head + dep_nonlast_text(kids.take(i as int), cp),
            decreases n - i,
        {
            assert(kids.take(i + 1).drop_last() =~= kids.take(i as int));
            assert(kids.take(i + 1).last() == kids[i as int]);
            let c = format_tree(&node.children[i], child_prefix.as_str(), false);
            push_str(&mut result, c.as_str());
            i += 1;
        }
        assert(kids.drop_last() =~= kids.take(i as int));
        let c = format_tree(&node.children[i], child_prefix.as_str(), true);
        push_str(&mut result, c.as_str());
        assert(kids.last() == kids[i as int]);
    }
    assert(result@ =~= dep_text(*node, prefix@, is_last));
    result
}

/// Leaf node for a dependency that is not expanded (already visited, or
/// too deep): its version as given, or `?`.
pub fn leaf_node(group: &str, artifact: &str, version: Option<&str>) -> (r: DepNode)
    ensures
        r.group@ == group@,
        r.artifact@ == artifact@,
        r.version@ == match version {
            Some(v) => v@,
            None => "?"@,
        },
        r.scope@ == "compile"@,
        r.children@.len() == 0,
{
    let ver = match version {
        Some(v) => v,
        None => "?",
    };
    DepNode {
        group: owned(group),
        artifact: owned(artifact),
        version: owned(ver),
        scope: owned("compile"),
        children: Vec::new(),
    }
}

/// Deepest level of the resolved tree.
pub open spec fn max_depth() -> nat {
    8
}

/// A dependency is expanded unless already visited or at the depth limit.
pub fn should_expand(visited: &Vec<String>, key: &str, depth: usize) -> (r: bool)
    ensures
        r == (!views(visited@).contains(key@) && depth < max_depth()),
{
    if depth >= 8 {
        return false;
    }
    let mut i: usize = 0;
    while i < visited.len()
        invariant
            i <= visited@.len(),
            forall|j: int| 0 <= j < i ==> (#[trigger] visited@[j])@ != key@,
        decreases visited@.len() - i,
    {
        if str_eq(visited[i].as_str(), key) {
            assert(views(visited@)[i as int] == key@);
            return false;
        }
        i += 1;
    }
    proof {
        if views(visited@).contains(key@) {
            let j = choose|j: int| 0 <= j < views(visited@).len() && views(visited@)[j] == key@;
            assert(visited@[j]@ == key@);
        }
    }
    true
}

// ───────────────────────────── resolution ─────────────────────────────

/// What the latest-version lookup of `group:artifact` gives, from the
/// versions the search returned (newest first) or the search's error.
pub open spec fn latest_of(coord: Seq<char>, search: Result<Vec<String>>) -> std::result::Result<Seq<char>, Seq<char>> {
    match search {
        Ok(vs) => if vs@.len() > 0 {
            Ok(vs@[0]@)
        } else {
            Err("未找到依赖: "@ + coord)
        },
        Err(e) => Err(e.0@),
    }
}

/// View of a result whose error is a message.
pub open spec fn result_view(r: Result<String>) -> std::result::Result<Seq<char>, Seq<char>> {
    match r {
        Ok(v) => Ok(v@),
        Err(e) => Err(e.0@),
    }
}

/// The latest version of `coord` (`group:artifact`): the first version
/// that `search` (the versions of a group and artifact, newest first)
/// returns for it.
pub fn resolve_latest<S>(search: &S, coord: &str) -> (r: Result<String>)
    where
        S: Fn(String, String) -> Result<Vec<String>>,
    requires
        forall|g: String, a: String| search.requires((g, a)),
    ensures
        split(coord@, ':').len() < 2 ==> (r matches Err(e) && e.0@ == bad_coord_message(coord@)),
        split(coord@, ':').len() >= 2 ==> exists|g: String, a: String, found: Result<Vec<String>>|
            g@ == split(coord@, ':')[0] && a@ == split(coord@, ':')[1] && search.ensures((g, a), found)
                && result_view(r) == latest_of(coord@, found),
{
    let (g, a) = match split_coord(coord) {
        Ok(p) => p,
        Err(e) => return Err(e),
    };
    let ghost gg = g;
    let ghost aa = a;
    let found = search(g, a);
    let ghost f = found;
    match found {
        Ok(vs) => {
            let r = latest_from_versions(coord, vs);
            assert(result_view(r) == latest_of(coord@, f));
            r
        },
        Err(e) => {
            let r: Result<String> = Err(e);
            assert(result_view(r) == latest_of(coord@, f));
            r
        },
    }
}

/// Every node of the tree lies within `budget` levels below it: a node
/// with children needs a budget, and its children fit in one less.
pub open spec fn within_depth(node: DepNode, budget: nat) -> bool
    decreases node,
{
    node.children@.len() == 0 || (budget > 0 && all_within(node.children@, (budget - 1) as nat))
}

/// Every node of the forest lies within `budget` levels.
pub open spec fn all_within(kids: Seq<DepNode>, budget: nat) -> bool
    decreases kids,
{
    kids.len() == 0 || (all_within(kids.drop_last(), budget) && within_depth(kids.last(), budget))
}

/// Key under which a dependency is visited: `group:artifact`.
pub open spec fn visit_key(group: Seq<char>, artifact: Seq<char>) -> Seq<char> {
    group.push(':') + artifact
}

/// The POM text of `group:artifact:version` that resolution reads
/// children from: none when it could not be fetched or came back empty.
pub open spec fn usable_pom(pom: Option<String>) -> bool {
    pom matches Some(t) && t@.len() > 0
}

/// The group, artifact and version of a node.
pub open spec fn node_coord(n: DepNode) -> (Seq<char>, Seq<char>, Seq<char>) {
    (n.group@, n.artifact@, n.version@)
}

/// The children of a node follow its POM: when the POM text is usable, one
/// child per dependency it declares, in order, with that dependency's
/// group, artifact and version; otherwise none.
pub open spec fn children_follow(kids: Seq<DepNode>, pom: Option<String>) -> bool {
    match pom {
        Some(t) => if t@.len() > 0 {
            kids.map_values(|c: DepNode| node_coord(c)) == pom_deps_of(t@)
        } else {
            kids.len() == 0
        },
        None => kids.len() == 0,
    }
}

/// The `group:artifact` keys of the nodes of a tree that have children, in
/// preorder.
pub open spec fn expanded(node: DepNode) -> Seq<Seq<char>>
    decreases node,
{
    if node.children@.len() == 0 {
        Seq::empty()
    } else {
        seq![visit_key(node.group@, node.artifact@)] + expanded_all(node.children@)
    }
}

/// The keys of the nodes with children of a forest, in preorder.
pub open spec fn expanded_all(kids: Seq<DepNode>) -> Seq<Seq<char>>
    decreases kids,
{
    if kids.len() == 0 {
        Seq::empty()
    } else {
        expanded_all(kids.drop_last()) + expanded(kids.last())
    }
}

/// Every key of `ks` is new to `before` and found in `after`.
pub open spec fn newly_visited(ks: Seq<Seq<char>>, before: Seq<Seq<char>>, after: Seq<Seq<char>>) -> bool {
    forall|i: int| 0 <= i < ks.len() ==> !before.contains(#[trigger] ks[i]) && after.contains(ks[i])
}

/// Resolves one node: a leaf when the dependency was already visited or
/// the depth limit is reached; otherwise it is marked visited, its version
/// is the one given (else the latest one, from `search`), and its children
/// are the dependencies its POM (from `pom`) declares, each resolved one
/// level deeper (those that fail are left out).
pub fn resolve_node<S, P>(
    search: &S,
    pom: &P,
    group: &str,
    artifact: &str,
    version: Option<&str>,
    visited: &mut Vec<String>,
    depth: usize,
) -> (r: Result<DepNode>)
    where
        S: Fn(String, String) -> Result<Vec<String>>,
        P: Fn(String, String, String) -> Option<String>,
    requires
        forall|g: String, a: String| search.requires((g, a)),
        forall|g: String, a: String, v: String| pom.requires((g, a, v)),
        depth <= max_depth(),
    ensures
        forall|k: Seq<char>| views(old(visited)@).contains(k) ==> views(final(visited)@).contains(k),
        r matches Ok(n) ==> expanded(n).no_duplicates() && newly_visited(
            expanded(n),
            views(old(visited)@),
            views(final(visited)@),
        ),
        (views(old(visited)@).contains(visit_key(group@, artifact@)) || depth >= max_depth()) ==> (
        r matches Ok(n) && n.group@ == group@ && n.artifact@ == artifact@ && n.version@ == (
        match version {
            Some(v) => v@,
            None => "?"@,
        }) && n.scope@ == "compile"@ && n.children@.len() == 0 && final(visited)@ == old(
            visited,
        )@),
        !(views(old(visited)@).contains(visit_key(group@, artifact@)) || depth >= max_depth()) ==> {
            &&& views(final(visited)@).contains(visit_key(group@, artifact@))
            &&& match r {
                Ok(n) => {
                    &&& n.group@ == group@
                    &&& n.artifact@ == artifact@
                    &&& n.scope@ == "compile"@
                    &&& within_depth(n, (max_depth() - depth) as nat)
                    &&& exists|g: String, a: String, v: String, t: Option<String>|
                        g@ == group@ && a@ == artifact@ && v@ == n.version@ && #[trigger] pom.ensures(
                            (g, a, v),
                            t,
                        ) && children_follow(n.children@, t)
                    &&& version matches Some(v) ==> n.version@ == v@
                    &&& version is None ==> exists|g: String, a: String, found: Result<Vec<String>>|
                        g@ == split(visit_key(group@, artifact@), ':')[0] && a@ == split(
                            visit_key(group@, artifact@),
                            ':',
                        )[1] && search.ensures((g, a), found)
                            && latest_of(visit_key(group@, artifact@), found) == std::result::Result::<Seq<char>, Seq<char>>::Ok(n.version@)
                },
                Err(e) => version is None && exists|g: String, a: String, found: Result<Vec<String>>|
                    g@ == split(visit_key(group@, artifact@), ':')[0] && a@ == split(
                        visit_key(group@, artifact@),
                        ':',
                    )[1] && search.ensures((g, a), found)
                        && latest_of(visit_key(group@, artifact@), found) == std::result::Result::<Seq<char>, Seq<char>>::Err(e.0@),
            }
        },
    decreases max_depth() - depth,
{
    let key = join_pair(group, ':', artifact);
    if !should_expand(visited, key.as_str(), depth) {
        return Ok(leaf_node(group, artifact, version));
    }
    let ghost v0 = views(visited@);
    visited.push(key);
    assert(views(visited@) =~= v0.push(visit_key(group@, artifact@)));
    assert forall|k: Seq<char>| v0.contains(k) implies views(visited@).contains(k) by {
        let j = choose|j: int| 0 <= j < v0.len() && v0[j] == k;
        assert(views(visited@)[j] == k);
    }
    assert(views(visited@)[v0.len() as int] == visit_key(group@, artifact@));
    let ver: String = match version {
        Some(v) => owned(v),
        None => {
            let coord = join_pair(group, ':', artifact);
            proof {
                crate::util::lemma_parse_coord_accepts(coord@);
                assert(coord@[group@.len() as int] == ':');
            }
            match resolve_latest(search, coord.as_str()) {
                Ok(v) => v,
                Err(e) => {
                    return Err(e);
                },
            }
        },
    };
    let ghost key = visit_key(group@, artifact@);
    let ghost v1 = views(visited@);
    let mut children: Vec<DepNode> = Vec::new();
    let pg = owned(group);
    let pa = owned(artifact);
    let pv = ver.clone();
    let ghost pom_args = (pg, pa, pv);
    let body = pom(pg, pa, pv);
    let ghost pom_text = body;
    assert(expanded_all(children@) =~= Seq::<Seq<char>>::empty());
    assert(children@.map_values(|c: DepNode| node_coord(c)) =~= Seq::<(Seq<char>, Seq<char>, Seq<char>)>::empty());
    match body {
        Some(text) => {
            if !str_is_empty(text.as_str()) {
                let deps = match parse_pom_dependencies(text.as_str()) {
                    Ok(d) => d,
                    Err(_) => Vec::new(),
                };
                let ghost dv = deps@.map_values(|d: (String, String, String)| (d.0@, d.1@, d.2@));
                assert(dv == pom_deps_of(text@));
                let mut i: usize = 0;
                assert(dv.take(0) =~= Seq::<(Seq<char>, Seq<char>, Seq<char>)>::empty());
                while i < deps.len()
                    invariant
                        i <= deps@.len(),
                        dv == deps@.map_values(|d: (String, String, String)| (d.0@, d.1@, d.2@)),
                        depth < max_depth(),
                        forall|g: String, a: String| search.requires((g, a)),
                        forall|g: String, a: String, v: String| pom.requires((g, a, v)),
                        all_within(children@, (max_depth() - depth - 1) as nat),
                        v1 == v0.push(key),
                        v1.contains(key),
                        forall|k: Seq<char>| v1.contains(k) ==> views(visited@).contains(k),
                        children@.map_values(|c: DepNode| node_coord(c)) == dv.take(i as int),
                        expanded_all(children@).no_duplicates(),
                        newly_visited(expanded_all(children@), v1, views(visited@)),
                    decreases deps@.len() - i,
                {
                    let (g, a, v) = &deps[i];
                    let ghost before = views(visited@);
                    let ghost e0 = expanded_all(children@);
                    assert(dv[i as int] == (g@, a@, v@));
                    match resolve_node(search, pom, g.as_str(), a.as_str(), Some(v.as_str()), visited, depth + 1) {
                        Ok(child) => {
                            let ghost c0 = children@;
                            assert(within_depth(child, (max_depth() - depth - 1) as nat));
                            children.push(child);
                            assert(children@.drop_last() =~= c0);
                            assert(children@.last() == child);
                            let ghost ec = expanded(child);
                            assert(expanded_all(children@) == e0 + ec);
                            assert(node_coord(child) == (g@, a@, v@));
                            assert(children@.map_values(|c: DepNode| node_coord(c)) =~= c0.map_values(
                                |c: DepNode| node_coord(c),
                            ).push(node_coord(child)));
                            assert(dv.take(i + 1) =~= dv.take(i as int).push(dv[i as int]));
                            assert((e0 + ec).no_duplicates()) by {
                                assert forall|x: int, y: int| 0 <= x < y < (e0 + ec).len() implies (e0
                                    + ec)[x] != (e0 + ec)[y] by {
                                    if y >= e0.len() && x < e0.len() {
                                        assert(before.contains(e0[x]));
                                        assert(!before.contains(ec[y - e0.len()]));
                                    } else if x >= e0.len() {
                                        assert(ec[x - e0.len()] != ec[y - e0.len()]);
                                    }
                                }
                            }
                            assert forall|x: int| 0 <= x < (e0 + ec).len() implies !v1.contains(
                                #[trigger] (e0 + ec)[x],
                            ) && views(visited@).contains((e0 + ec)[x]) by {
                                if x >= e0.len() {
                                    assert(ec[x - e0.len()] == (e0 + ec)[x]);
                                    if v1.contains(ec[x - e0.len()]) {
                                        assert(before.contains(ec[x - e0.len()]));
                                    }
                                } else {
                                    assert(before.contains(e0[x]));
                                }
                            }
                        },
                        Err(_) => {},
                    }
                    i += 1;
                }
                assert(dv.take(deps@.len() as int) =~= dv);
            }
        },
        None => {},
    }
    assert(children_follow(children@, pom_text));
    assert(pom.ensures(pom_args, pom_text));
    let node = DepNode {
        group: owned(group),
        artifact: owned(artifact),
        version: ver,
        scope: owned("compile"),
        children,
    };
    assert(expanded(node) =~= if node.children@.len() == 0 {
        Seq::<Seq<char>>::empty()
    } else {
        seq![key] + expanded_all(node.children@)
    });
    assert(expanded(node).no_duplicates()) by {
        if node.children@.len() > 0 {
            let e = expanded_all(node.children@);
            assert forall|x: int, y: int| 0 <= x < y < expanded(node).len() implies expanded(node)[x]
                != expanded(node)[y] by {
                if x == 0 {
                    assert(expanded(node)[y] == e[y - 1]);
                    assert(!v1.contains(e[y - 1]));
                } else {
                    assert(e[x - 1] != e[y - 1]);
                }
            }
        }
    }
    assert forall|x: int| 0 <= x < expanded(node).len() implies !v0.contains(#[trigger] expanded(node)[x])
        && views(visited@).contains(expanded(node)[x]) by {
        if x > 0 {
            let e = expanded_all(node.children@);
            assert(expanded(node)[x] == e[x - 1]);
            if v0.contains(e[x - 1]) {
                let j = choose|j: int| 0 <= j < v0.len() && v0[j] == e[x - 1];
                assert(v1[j] == e[x - 1]);
            }
        }
    }
    Ok(node)
}

/// The dependency tree of `coord` (`group:artifact`): its latest version
/// (from `search`) at the root, then the dependencies each POM (from
/// `pom`) declares, at most eight levels deep, each dependency expanded
/// once: a `group:artifact` met again is a leaf, so no two nodes with
/// children share one.
pub fn resolve_dependencies<S, P>(search: &S, pom: &P, coord: &str) -> (r: Result<DepNode>)
    where
        S: Fn(String, String) -> Result<Vec<String>>,
        P: Fn(String, String, String) -> Option<String>,
    requires
        forall|g: String, a: String| search.requires((g, a)),
        forall|g: String, a: String, v: String| pom.requires((g, a, v)),
    ensures
        split(coord@, ':').len() < 2 ==> (r matches Err(e) && e.0@ == bad_coord_message(coord@)),
        r matches Ok(n) ==> {
            &&& split(coord@, ':').len() >= 2
            &&& n.group@ == split(coord@, ':')[0]
            &&& n.artifact@ == split(coord@, ':')[1]
            &&& n.scope@ == "compile"@
            &&& within_depth(n, max_depth())
            &&& expanded(n).no_duplicates()
            &&& exists|g: String, a: String, found: Result<Vec<String>>|
                g@ == split(coord@, ':')[0] && a@ == split(coord@, ':')[1] && #[trigger] search.ensures(
                    (g, a),
                    found,
                ) && latest_of(visit_key(g@, a@), found) == std::result::Result::<
                    Seq<char>,
                    Seq<char>,
                >::Ok(n.version@)
            &&& exists|g: String, a: String, v: String, t: Option<String>|
                g@ == n.group@ && a@ == n.artifact@ && v@ == n.version@ && #[trigger] pom.ensures(
                    (g, a, v),
                    t,
                ) && children_follow(n.children@, t)
        },
        r matches Err(e) ==> split(coord@, ':').len() >= 2 ==> exists|
            g: String,
            a: String,
            found: Result<Vec<String>>,
        |
            g@ == split(coord@, ':')[0] && a@ == split(coord@, ':')[1] && #[trigger] search.ensures(
                (g, a),
                found,
            ) && latest_of(visit_key(g@, a@), found) == std::result::Result::<Seq<char>, Seq<char>>::Err(
                e.0@,
            ),
{
    let (g, a) = match split_coord(coord) {
        Ok(p) => p,
        Err(e) => return Err(e),
    };
    proof {
        crate::text::lemma_split_pieces(coord@, ':');
        assert(!split(coord@, ':')[0].contains(':'));
        assert(!split(coord@, ':')[1].contains(':'));
        crate::util::lemma_parse_coord_roundtrip(g@, a@);
        assert(split(visit_key(g@, a@), ':')[0] == g@);
        assert(split(visit_key(g@, a@), ':')[1] == a@);
    }
    let mut visited: Vec<String> = Vec::new();
    assert(!views(visited@).contains(visit_key(g@, a@)));
    resolve_node(search, pom, g.as_str(), a.as_str(), None, &mut visited, 0)
}

} // verus!
