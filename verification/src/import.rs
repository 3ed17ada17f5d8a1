//! Import of a Maven `pom.xml`: its dependencies, their jex coordinates,
//! and their merge into the project's dependencies.

use vstd::prelude::*;
use crate::deps::DepMap;
use crate::error::{Error, Result};
use crate::text::{
    split, views, str_split, str_eq, owned, concat2, push_str, join_pair, trim, str_trim,
    str_is_empty,
};
use crate::xml::{XmlEvent, xml_events, xml_events_of};

verus! {

/// A dependency read from `pom.xml`.
#[derive(Debug, Clone, PartialEq)]
pub struct PomDependency {
    pub group_id: String,
    pub artifact_id: String,
    pub version: Option<String>,
    pub scope: Option<String>,
}

/// View of an optional string.
pub open spec fn opt(o: Option<String>) -> Option<Seq<char>> {
    match o {
        Some(s) => Some(s@),
        None => None,
    }
}

/// View of a POM dependency: group, artifact, version, scope.
pub open spec fn pom_dep_view(d: PomDependency) -> (Seq<char>, Seq<char>, Option<Seq<char>>, Option<Seq<char>>) {
    (d.group_id@, d.artifact_id@, opt(d.version), opt(d.scope))
}

/// Coordinates `group:artifact:version` of the dependencies that have a
/// version, in order.
pub open spec fn jex_coords(deps: Seq<PomDependency>) -> Seq<Seq<char>>
    decreases deps.len(),
{
    if deps.len() == 0 {
        Seq::empty()
    } else {
        let d = deps.last();
        match d.version {
            Some(v) => jex_coords(deps.drop_last()).push(
                d.group_id@.push(':') + d.artifact_id@.push(':') + v@,
            ),
            None => jex_coords(deps.drop_last()),
        }
    }
}

/// The jex coordinates of the dependencies that have a version.
pub fn pom_to_jex_coords(deps: &[PomDependency]) -> (r: Vec<String>)
    ensures
        views(r@) == jex_coords(deps@),
{
    let mut out: Vec<String> = Vec::new();
    let mut i: usize = 0;
    assert(deps@.take(0) =~= Seq::<PomDependency>::empty());
    while i < deps.len()
        invariant
            i <= deps@.len(),
            views(out@) == jex_coords(deps@.take(i as int)),
        decreases deps@.len() - i,
    {
        assert(deps@.take(i + 1).drop_last() =~= deps@.take(i as int));
        assert(deps@.take(i + 1).last() == deps@[i as int]);
        let d = &deps[i];
        match &d.version {
            Some(v) => {
                let mut c = join_pair(d.group_id.as_str(), ':', d.artifact_id.as_str());
                crate::text::push_char(&mut c, ':');
                push_str(&mut c, v.as_str());
                let ghost o0 = views(out@);
                out.push(c);
                assert(views(out@) =~= o0.push(d.group_id@.push(':') + d.artifact_id@.push(':') + v@));
            },
            None => {},
        }
        i += 1;
    }
    assert(deps@.take(i as int) =~= deps@);
    out
}

// ───────────────────────────── merging ─────────────────────────────

/// Warning for an imported version that differs from the declared one.
pub open spec fn conflict_warning(key: Seq<char>, existing: Seq<char>, imported: Seq<char>) -> Seq<char> {
    "⚠ "@ + key + " 版本冲突：现有 "@ + existing + "，导入 "@ + imported + "（保留现有版本）"@
}

/// The dependencies after merging the imported coordinates into `m`
/// (declared versions are kept), with the warnings, in order.
pub open spec fn merged(m: Map<Seq<char>, Seq<char>>, imported: Seq<Seq<char>>) -> (Map<Seq<char>, Seq<char>>, Seq<Seq<char>>)
    decreases imported.len(),
{
    if imported.len() == 0 {
        (m, Seq::empty())
    } else {
        let (pm, pw) = merged(m, imported.drop_last());
        let parts = split(imported.last(), ':');
        if parts.len() < 3 {
            (pm, pw)
        } else {
            let key = parts[0].push(':') + parts[1];
            if pm.contains_key(key) {
                if pm[key] != parts[2] {
                    (pm, pw.push(conflict_warning(key, pm[key], parts[2])))
                } else {
                    (pm, pw)
                }
            } else {
                (pm.insert(key, parts[2]), pw)
            }
        }
    }
}

/// Merges imported `group:artifact:version` coordinates into the existing
/// dependencies: new ones are added, declared ones keep their version (a
/// different imported version gives a warning); coordinates with fewer
/// than three parts are skipped.  Returns the merged dependencies and the
/// warnings.
pub fn merge_with_existing(imported: &[String], existing: &DepMap) -> (r: (DepMap, Vec<String>))
    requires
        existing.wf(),
    ensures
        r.0.wf(),
        (r.0@, views(r.1@)) == merged(existing@, views(imported@)),
{
    let ghost s = views(imported@);
    let mut m = existing.copy();
    let mut warnings: Vec<String> = Vec::new();
    let mut i: usize = 0;
    assert(s.take(0) =~= Seq::<Seq<char>>::empty());
    while i < imported.len()
        invariant
            s == views(imported@),
            s.len() == imported@.len(),
            i <= imported@.len(),
            m.wf(),
            (m@, views(warnings@)) == merged(existing@, s.take(i as int)),
        decreases imported@.len() - i,
    {
        assert(s.take(i + 1).drop_last() =~= s.take(i as int));
        assert(s.take(i + 1).last() == imported@[i as int]@);
        let parts = str_split(imported[i].as_str(), ':');
        proof {
            assert(views(parts@).len() == parts@.len());
        }
        if parts.len() >= 3 {
            proof {
                assert(views(parts@)[0] == parts@[0]@);
                assert(views(parts@)[1] == parts@[1]@);
                assert(views(parts@)[2] == parts@[2]@);
            }
            let key = join_pair(parts[0].as_str(), ':', parts[1].as_str());
            let version = parts[2].as_str();
            let current = match m.get(key.as_str()) {
                Some(v) => Some(v.clone()),
                None => None,
            };
            match current {
                Some(ev) => {
                    if !str_eq(ev.as_str(), version) {
                        let mut w = owned("⚠ ");
                        push_str(&mut w, key.as_str());
                        push_str(&mut w, " 版本冲突：现有 ");
                        push_str(&mut w, ev.as_str());
                        push_str(&mut w, "，导入 ");
                        push_str(&mut w, version);
                        push_str(&mut w, "（保留现有版本）");
                        let ghost w0 = views(warnings@);
                        warnings.push(w);
                        assert(views(warnings@) =~= w0.push(
                            conflict_warning(key@, ev@, version@),
                        ));
                    }
                },
                None => {
                    m.insert(key, owned(version));
                },
            }
        }
        i += 1;
    }
    assert(s.take(s.len() as int) =~= s);
    (m, warnings)
}

/// Merging never drops or changes a declared dependency.
pub proof fn lemma_merge_keeps_existing(m: Map<Seq<char>, Seq<char>>, imported: Seq<Seq<char>>, k: Seq<char>)
    requires
        m.contains_key(k),
    ensures
        merged(m, imported).0.contains_key(k),
        merged(m, imported).0[k] == m[k],
    decreases imported.len(),
{
    if imported.len() > 0 {
        lemma_merge_keeps_existing(m, imported.drop_last(), k);
    }
}

// ───────────────────────────── reading pom.xml ─────────────────────────────

/// Field of a dependency whose text is read next.
pub enum PomField {
    Group,
    Artifact,
    Version,
    Scope,
}

/// State of the reading of `pom.xml` events.
pub struct PomRead {
    pub in_dependencies: bool,
    pub in_dep_mgmt: bool,
    pub in_dep: bool,
    pub group: Seq<char>,
    pub artifact: Seq<char>,
    pub version: Option<Seq<char>>,
    pub scope: Option<Seq<char>>,
    pub pending: Option<PomField>,
    pub managed: Seq<(Seq<char>, Seq<char>, Seq<char>)>,
    pub deps: Seq<(Seq<char>, Seq<char>, Option<Seq<char>>, Option<Seq<char>>)>,
    pub done: bool,
    pub error: Option<Seq<char>>,
}

/// State before the first event.
pub open spec fn read_start() -> PomRead {
    PomRead {
        in_dependencies: false,
        in_dep_mgmt: false,
        in_dep: false,
        group: Seq::empty(),
        artifact: Seq::empty(),
        version: None,
        scope: None,
        pending: None,
        managed: Seq::empty(),
        deps: Seq::empty(),
        done: false,
        error: None,
    }
}

/// Version that the dependency management section gives `group:artifact`
/// (the last one it lists).
pub open spec fn managed_version(managed: Seq<(Seq<char>, Seq<char>, Seq<char>)>, g: Seq<char>, a: Seq<char>) -> Option<Seq<char>>
    decreases managed.len(),
{
    if managed.len() == 0 {
        None
    } else if managed.last().0 == g && managed.last().1 == a {
        Some(managed.last().2)
    } else {
        managed_version(managed.drop_last(), g, a)
    }
}

/// The field whose text follows an opening tag inside a dependency.
pub open spec fn field_of(tag: Seq<char>) -> Option<PomField> {
    if tag == "groupId"@ {
        Some(PomField::Group)
    } else if tag == "artifactId"@ {
        Some(PomField::Artifact)
    } else if tag == "version"@ {
        Some(PomField::Version)
    } else if tag == "scope"@ {
        Some(PomField::Scope)
    } else {
        None
    }
}

/// Sets a field from the (trimmed) text that followed its opening tag.
pub open spec fn set_field(s: PomRead, f: PomField, text: Seq<char>) -> PomRead {
    match f {
        PomField::Group => PomRead { group: text, pending: None, ..s },
        PomField::Artifact => PomRead { artifact: text, pending: None, ..s },
        PomField::Version => if s.in_dep_mgmt {
            PomRead { managed: s.managed.push((s.group, s.artifact, text)), pending: None, ..s }
        } else {
            PomRead { version: Some(text), pending: None, ..s }
        },
        PomField::Scope => PomRead { scope: Some(text), pending: None, ..s },
    }
}

/// Handles an opening (or self-closing) tag.
pub open spec fn open_tag(s: PomRead, tag: Seq<char>) -> PomRead {
    let s1 = if tag == "dependencies"@ {
        if s.in_dep_mgmt {
            s
        } else {
            PomRead { in_dependencies: true, ..s }
        }
    } else if tag == "dependencyManagement"@ {
        PomRead { in_dep_mgmt: true, ..s }
    } else if tag == "dependency"@ && (s.in_dependencies || s.in_dep_mgmt) {
        PomRead {
            in_dep: true,
            group: Seq::empty(),
            artifact: Seq::empty(),
            version: None,
            scope: None,
            ..s
        }
    } else {
        s
    };
    if s1.in_dep {
        PomRead { pending: field_of(tag), ..s1 }
    } else {
        s1
    }
}

/// The dependency being read, with its version completed from dependency
/// management when it has none.
pub open spec fn completed_version(s: PomRead) -> Option<Seq<char>> {
    match s.version {
        Some(v) => Some(v),
        None => managed_version(s.managed, s.group, s.artifact),
    }
}

/// A finished dependency outside dependency management is kept when its
/// scope is compile (or missing, or empty).
pub open spec fn compile_scope(scope: Option<Seq<char>>) -> bool {
    match scope {
        Some(sc) => sc == "compile"@ || sc.len() == 0,
        None => true,
    }
}

/// Handles a closing tag.
pub open spec fn close_tag(s: PomRead, tag: Seq<char>) -> PomRead {
    if tag == "dependency"@ && s.in_dep {
        let v = completed_version(s);
        PomRead {
            in_dep: false,
            version: v,
            deps: if !s.in_dep_mgmt && compile_scope(s.scope) {
                s.deps.push((s.group, s.artifact, v, s.scope))
            } else {
                s.deps
            },
            ..s
        }
    } else if tag == "dependencies"@ {
        PomRead { in_dependencies: false, ..s }
    } else if tag == "dependencyManagement"@ {
        PomRead { in_dep_mgmt: false, ..s }
    } else {
        s
    }
}

/// Message of the error for a failed read of `pom.xml`.
pub open spec fn pom_error_message(msg: Seq<char>) -> Seq<char> {
    "解析 pom.xml 失败: "@ + msg
}

/// One event of the reading.  After an opening tag of a dependency field
/// the next event is taken as that field's text: used when it is text,
/// dropped otherwise (a reading error there too: quick-xml reads on).
pub open spec fn read_step(s: PomRead, e: XmlEvent) -> PomRead {
    if s.done {
        s
    } else {
        match s.pending {
            Some(f) => match e {
                XmlEvent::Text(t) => set_field(s, f, trim(t@)),
                XmlEvent::BadText(m) => PomRead { pending: None, done: true, error: Some(m@), ..s },
                XmlEvent::CutShort => PomRead {
                    pending: None,
                    done: true,
                    error: Some(pom_error_message("XML reading cut short"@)),
                    ..s
                },
                _ => PomRead { pending: None, ..s },
            },
            None => match e {
                XmlEvent::Start(t) => open_tag(s, t@),
                XmlEvent::Empty(t) => open_tag(s, t@),
                XmlEvent::End(t) => close_tag(s, t@),
                XmlEvent::Eof => PomRead { done: true, ..s },
                XmlEvent::Failed(m) => PomRead { done: true, error: Some(pom_error_message(m@)), ..s },
                XmlEvent::CutShort => PomRead {
                    done: true,
                    error: Some(pom_error_message("XML reading cut short"@)),
                    ..s
                },
                _ => s,
            },
        }
    }
}

/// The reading after the events `es`.
pub open spec fn read_events(es: Seq<XmlEvent>) -> PomRead
    decreases es.len(),
{
    if es.len() == 0 {
        read_start()
    } else {
        read_step(read_events(es.drop_last()), es.last())
    }
}

/// The exec state of the reading.
struct Reading {
    in_dependencies: bool,
    in_dep_mgmt: bool,
    in_dep: bool,
    group: String,
    artifact: String,
    version: Option<String>,
    scope: Option<String>,
    pending: u8,
    managed: Vec<(String, String, String)>,
    deps: Vec<PomDependency>,
    done: bool,
    error: Option<String>,
}

/// Field code of the exec state (0 none, 1 to 4 the fields).
spec fn pending_of(p: u8) -> Option<PomField> {
    if p == 1 {
        Some(PomField::Group)
    } else if p == 2 {
        Some(PomField::Artifact)
    } else if p == 3 {
        Some(PomField::Version)
    } else if p == 4 {
        Some(PomField::Scope)
    } else {
        None
    }
}

/// The exec state stands for the spec state.
spec fn reading_is(r: Reading, s: PomRead) -> bool {
    &&& r.in_dependencies == s.in_dependencies
    &&& r.in_dep_mgmt == s.in_dep_mgmt
    &&& r.in_dep == s.in_dep
    &&& r.group@ == s.group
    &&& r.artifact@ == s.artifact
    &&& opt(r.version) == s.version
    &&& opt(r.scope) == s.scope
    &&& pending_of(r.pending) == s.pending
    &&& r.pending <= 4
    &&& r.managed@.map_values(|m: (String, String, String)| (m.0@, m.1@, m.2@)) == s.managed
    &&& r.deps@.map_values(|d: PomDependency| pom_dep_view(d)) == s.deps
    &&& r.done == s.done
    &&& opt(r.error) == s.error
}

/// Optional string copy.
fn copy_opt(o: &Option<String>) -> (r: Option<String>)
    ensures
        opt(r) == opt(*o),
{
    match o {
        Some(s) => Some(s.clone()),
        None => None,
    }
}

/// Version of `group:artifact` in the managed list (the last one).
fn find_managed(managed: &Vec<(String, String, String)>, g: &str, a: &str) -> (r: Option<String>)
    ensures
        opt(r) == managed_version(
            managed@.map_values(|m: (String, String, String)| (m.0@, m.1@, m.2@)),
            g@,
            a@,
        ),
{
    let ghost mv = managed@.map_values(|m: (String, String, String)| (m.0@, m.1@, m.2@));
    let mut i = managed.len();
    assert(mv.take(i as int) =~= mv);
    while i > 0
        invariant
            i <= managed@.len(),
            mv == managed@.map_values(|m: (String, String, String)| (m.0@, m.1@, m.2@)),
            managed_version(mv, g@, a@) == managed_version(mv.take(i as int), g@, a@),
        decreases i,
    {
        assert(mv.take(i as int).drop_last() =~= mv.take(i - 1));
        assert(mv.take(i as int).last() == mv[i - 1]);
        let m = &managed[i - 1];
        if str_eq(m.0.as_str(), g) && str_eq(m.1.as_str(), a) {
            return Some(m.2.clone());
        }
        i -= 1;
    }
    None
}

/// Handles an opening (or self-closing) tag.
fn open_tag_exec(st: &mut Reading, tag: &str)
    requires
        !old(st).done,
        old(st).pending == 0,
    ensures
        forall|s: PomRead| reading_is(*old(st), s) ==> reading_is(*final(st), open_tag(s, tag@)),
{
    if str_eq(tag, "dependencies") {
        if !st.in_dep_mgmt {
            st.in_dependencies = true;
        }
    } else if str_eq(tag, "dependencyManagement") {
        st.in_dep_mgmt = true;
    } else if str_eq(tag, "dependency") && (st.in_dependencies || st.in_dep_mgmt) {
        st.in_dep = true;
        st.group = String::new();
        st.artifact = String::new();
        st.version = None;
        st.scope = None;
    }
    if st.in_dep {
        st.pending = if str_eq(tag, "groupId") {
            1
        } else if str_eq(tag, "artifactId") {
            2
        } else if str_eq(tag, "version") {
            3
        } else if str_eq(tag, "scope") {
            4
        } else {
            0
        };
    }
}

/// Handles a closing tag.
fn close_tag_exec(st: &mut Reading, tag: &str)
    requires
        !old(st).done,
        old(st).pending == 0,
    ensures
        forall|s: PomRead| reading_is(*old(st), s) ==> reading_is(*final(st), close_tag(s, tag@)),
{
    if str_eq(tag, "dependency") && st.in_dep {
        if st.version.is_none() {
            st.version = find_managed(&st.managed, st.group.as_str(), st.artifact.as_str());
        }
        if !st.in_dep_mgmt {
            let keep = match &st.scope {
                Some(sc) => str_eq(sc.as_str(), "compile") || str_is_empty(sc.as_str()),
                None => true,
            };
            if keep {
                let d = PomDependency {
                    group_id: st.group.clone(),
                    artifact_id: st.artifact.clone(),
                    version: copy_opt(&st.version),
                    scope: copy_opt(&st.scope),
                };
                let ghost d0 = st.deps@;
                st.deps.push(d);
                assert(st.deps@.map_values(|d: PomDependency| pom_dep_view(d)) =~= d0.map_values(
                    |d: PomDependency| pom_dep_view(d),
                ).push(pom_dep_view(d)));
            }
        }
        st.in_dep = false;
    } else if str_eq(tag, "dependencies") {
        st.in_dependencies = false;
    } else if str_eq(tag, "dependencyManagement") {
        st.in_dep_mgmt = false;
    }
}

/// Handles the text that followed a field's opening tag.
fn field_text_exec(st: &mut Reading, text: &str)
    requires
        !old(st).done,
        1 <= old(st).pending <= 4,
    ensures
        forall|s: PomRead|
            reading_is(*old(st), s) ==> reading_is(*final(st), set_field(s, s.pending->0, trim(text@))),
{
    let t = str_trim(text);
    let p = st.pending;
    if p == 1 {
        st.group = t;
    } else if p == 2 {
        st.artifact = t;
    } else if p == 3 {
        if st.in_dep_mgmt {
            let ghost m0 = st.managed@;
            let e = (st.group.clone(), st.artifact.clone(), t);
            st.managed.push(e);
            assert(st.managed@.map_values(|m: (String, String, String)| (m.0@, m.1@, m.2@))
                =~= m0.map_values(|m: (String, String, String)| (m.0@, m.1@, m.2@)).push(
                (st.group@, st.artifact@, trim(text@)),
            ));
        } else {
            st.version = Some(t);
        }
    } else {
        st.scope = Some(t);
    }
    st.pending = 0;
}

/// The dependencies that `pom.xml`'s events declare in its `dependencies`
/// section in compile scope (versions completed from dependency
/// management), or the error the reading met.
pub fn pom_dependencies_from_xml_events(events: &Vec<XmlEvent>) -> (r: Result<Vec<PomDependency>>)
    ensures
        match read_events(events@).error {
            Some(m) => r matches Err(e) && e.0@ == m,
            None => r matches Ok(v) && v@.map_values(|d: PomDependency| pom_dep_view(d))
                == read_events(events@).deps,
        },
{
    let ghost es = events@;
    let mut st = Reading {
        in_dependencies: false,
        in_dep_mgmt: false,
        in_dep: false,
        group: String::new(),
        artifact: String::new(),
        version: None,
        scope: None,
        pending: 0,
        managed: Vec::new(),
        deps: Vec::new(),
        done: false,
        error: None,
    };
    let mut i: usize = 0;
    assert(es.take(0) =~= Seq::<XmlEvent>::empty());
    assert(st.managed@.map_values(|m: (String, String, String)| (m.0@, m.1@, m.2@)) =~= Seq::<
        (Seq<char>, Seq<char>, Seq<char>),
    >::empty());
    assert(st.deps@.map_values(|d: PomDependency| pom_dep_view(d)) =~= Seq::<
        (Seq<char>, Seq<char>, Option<Seq<char>>, Option<Seq<char>>),
    >::empty());
    while i < events.len()
        invariant
            es == events@,
            i <= es.len(),
            reading_is(st, read_events(es.take(i as int))),
        decreases es.len() - i,
    {
        assert(es.take(i + 1).drop_last() =~= es.take(i as int));
        assert(es.take(i + 1).last() == es[i as int]);
        let ghost s0 = read_events(es.take(i as int));
        if !st.done {
            if st.pending != 0 {
                match &events[i] {
                    XmlEvent::Text(t) => {
                        field_text_exec(&mut st, t.as_str());
                    },
                    XmlEvent::BadText(m) => {
                        st.pending = 0;
                        st.done = true;
                        st.error = Some(m.clone());
                    },
                    XmlEvent::CutShort => {
                        st.pending = 0;
                        st.done = true;
                        st.error = Some(concat2("解析 pom.xml 失败: ", "XML reading cut short"));
                    },
                    _ => {
                        st.pending = 0;
                    },
                }
            } else {
                match &events[i] {
                    XmlEvent::Start(t) => open_tag_exec(&mut st, t.as_str()),
                    XmlEvent::Empty(t) => open_tag_exec(&mut st, t.as_str()),
                    XmlEvent::End(t) => close_tag_exec(&mut st, t.as_str()),
                    XmlEvent::Eof => {
                        st.done = true;
                    },
                    XmlEvent::Failed(m) => {
                        st.done = true;
                        st.error = Some(concat2("解析 pom.xml 失败: ", m.as_str()));
                    },
                    XmlEvent::CutShort => {
                        st.done = true;
                        st.error = Some(concat2("解析 pom.xml 失败: ", "XML reading cut short"));
                    },
                    _ => {},
                }
            }
        }
        assert(reading_is(st, read_step(s0, es[i as int])));
        i += 1;
    }
    assert(es.take(es.len() as int) =~= es);
    match st.error {
        Some(m) => Err(Error::new(m)),
        None => Ok(st.deps),
    }
}

/// The dependencies of a `pom.xml` text (see
/// `pom_dependencies_from_xml_events`), read through its XML events: the
/// outcome is what that reading gives for the events quick-xml yields for
/// the text.
pub fn parse_pom_content(content: &str) -> (r: Result<Vec<PomDependency>>)
    ensures
        match read_events(xml_events_of(content@)).error {
            Some(m) => r matches Err(e) && e.0@ == m,
            None => r matches Ok(v) && v@.map_values(|d: PomDependency| pom_dep_view(d))
                == read_events(xml_events_of(content@)).deps,
        },
        r matches Ok(v) ==> forall|k: int| 0 <= k < v@.len() ==> compile_scope(#[trigger] opt(v@[k].scope)),
        r matches Ok(v) ==> forall|k: int|
            0 <= k < v@.len() ==> match #[trigger] opt(v@[k].scope) {
                Some(sc) => sc.len() == 0 || sc == "compile"@,
                None => true,
            },
{
    let events = xml_events(content);
    let r = pom_dependencies_from_xml_events(&events);
    proof {
        lemma_read_deps_compile(events@);
        if r is Ok {
            let v = r->Ok_0;
            assert(read_events(events@).error is None);
            let m = v@.map_values(|d: PomDependency| pom_dep_view(d));
            assert(m == read_events(events@).deps);
            assert forall|k: int| 0 <= k < v@.len() implies compile_scope(#[trigger] opt(v@[k].scope)) by {
                assert(m[k] == pom_dep_view(v@[k]));
                assert(m[k].3 == opt(v@[k].scope));
            }
        }
    }
    r
}

/// Every dependency the reading keeps is in compile scope: it has no
/// scope, or the scope `compile`, or an empty one; one declared in any
/// other scope (`provided`, `runtime`, `test`, ...) is never kept.
pub proof fn lemma_read_deps_compile(es: Seq<XmlEvent>)
    ensures
        forall|k: int| 0 <= k < read_events(es).deps.len() ==> compile_scope(#[trigger] read_events(es).deps[k].3),
        forall|k: int|
            0 <= k < read_events(es).deps.len() ==> match #[trigger] read_events(es).deps[k].3 {
                Some(sc) => sc.len() == 0 || sc == "compile"@,
                None => true,
            },
    decreases es.len(),
{
    if es.len() > 0 {
        lemma_read_deps_compile(es.drop_last());
        let prev = read_events(es.drop_last());
        let cur = read_events(es);
        assert(cur == read_step(prev, es.last()));
        assert(cur.deps == prev.deps || (compile_scope(prev.scope) && cur.deps == prev.deps.push(
            (prev.group, prev.artifact, completed_version(prev), prev.scope),
        )));
        assert forall|k: int| 0 <= k < cur.deps.len() implies compile_scope(#[trigger] cur.deps[k].3) by {
            if k < prev.deps.len() {
                assert(cur.deps[k] == prev.deps[k]);
            }
        }
    }
}

/// Lines that describe the imported dependencies: each with its version
/// (or a note that it has none), and a note on a scope other than compile.
pub open spec fn import_lines(deps: Seq<PomDependency>) -> Seq<Seq<char>>
    decreases deps.len(),
{
    if deps.len() == 0 {
        Seq::empty()
    } else {
        let d = deps.last();
        let l1 = match d.version {
            Some(v) => "  ✅ "@ + d.group_id@.push(':') + d.artifact_id@.push(':') + v@,
            None => "  ⚠ "@ + d.group_id@.push(':') + d.artifact_id@ + "（无版本号，需手动指定）"@,
        };
        let scope = match d.scope {
            Some(s) => s@,
            None => "compile"@,
        };
        let rest = import_lines(deps.drop_last()).push(l1);
        if scope != "compile"@ {
            rest.push("    （scope="@ + scope + "，已跳过）"@)
        } else {
            rest
        }
    }
}

/// The lines that describe the imported dependencies.
pub fn describe_imported(deps: &[PomDependency]) -> (r: Vec<String>)
    ensures
        views(r@) == import_lines(deps@),
{
    let mut out: Vec<String> = Vec::new();
    let mut i: usize = 0;
    assert(deps@.take(0) =~= Seq::<PomDependency>::empty());
    while i < deps.len()
        invariant
            i <= deps@.len(),
            views(out@) == import_lines(deps@.take(i as int)),
        decreases deps@.len() - i,
    {
        assert(deps@.take(i + 1).drop_last() =~= deps@.take(i as int));
        assert(deps@.take(i + 1).last() == deps@[i as int]);
        let d = &deps[i];
        let ghost o0 = views(out@);
        let mut l1 = match &d.version {
            Some(_) => owned("  ✅ "),
            None => owned("  ⚠ "),
        };
        push_str(&mut l1, d.group_id.as_str());
        crate::text::push_char(&mut l1, ':');
        push_str(&mut l1, d.artifact_id.as_str());
        match &d.version {
            Some(v) => {
                crate::text::push_char(&mut l1, ':');
                push_str(&mut l1, v.as_str());
            },
            None => {
                push_str(&mut l1, "（无版本号，需手动指定）");
            },
        }
        out.push(l1);
        let scope = match &d.scope {
            Some(s) => s.as_str(),
            None => "compile",
        };
        if !str_eq(scope, "compile") {
            let mut l2 = owned("    （scope=");
            push_str(&mut l2, scope);
            push_str(&mut l2, "，已跳过）");
            out.push(l2);
        }
        assert(views(out@) =~= import_lines(deps@.take(i + 1)));
        i += 1;
    }
    assert(deps@.take(i as int) =~= deps@);
    out
}

} // verus!
