//! Dependency analysis: which declared dependencies the Java sources
//! import, and which imported libraries are not declared.

use vstd::prelude::*;
use crate::deps::{DepMap, keys_of};
use crate::text::{
    split, views, str_split, str_eq, owned, join, join_prefix, starts_with, ends_with, trim,
    lines, str_lines, str_trim, str_starts_with, str_ends_with, chars_of, string_of, concat2,
    push_char, push_str,
};

verus! {

/// Artifact coordinate known for a package prefix.
pub open spec fn known_mapping(prefix: Seq<char>) -> Option<Seq<char>> {
    if prefix == "com.google.gson"@ {
        Some("com.google.code.gson:gson"@)
    } else if prefix == "org.apache.commons.lang3"@ {
        Some("org.apache.commons:commons-lang3"@)
    } else if prefix == "org.apache.commons.lang"@ {
        Some("commons-lang:commons-lang"@)
    } else if prefix == "org.slf4j"@ {
        Some("org.slf4j:slf4j-api"@)
    } else if prefix == "org.junit.jupiter"@ {
        Some("org.junit.jupiter:junit-jupiter"@)
    } else if prefix == "org.junit"@ {
        Some("junit:junit"@)
    } else if prefix == "org.mockito"@ {
        Some("org.mockito:mockito-core"@)
    } else if prefix == "com.fasterxml.jackson"@ {
        Some("com.fasterxml.jackson.core:jackson-databind"@)
    } else if prefix == "com.fasterxml.jackson.annotation"@ {
        Some("com.fasterxml.jackson.core:jackson-annotations"@)
    } else if prefix == "com.fasterxml.jackson.databind"@ {
        Some("com.fasterxml.jackson.core:jackson-databind"@)
    } else if prefix == "org.springframework"@ {
        Some("org.springframework:spring-core"@)
    } else if prefix == "org.springframework.boot"@ {
        Some("org.springframework.boot:spring-boot"@)
    } else if prefix == "io.netty"@ {
        Some("io.netty:netty-all"@)
    } else if prefix == "org.apache.httpcomponents"@ {
        Some("org.apache.httpcomponents:httpclient"@)
    } else if prefix == "org.json"@ {
        Some("org.json:json"@)
    } else if prefix == "com.squareup.okhttp3"@ {
        Some("com.squareup.okhttp3:okhttp"@)
    } else if prefix == "org.apache.logging.log4j"@ {
        Some("org.apache.logging.log4j:log4j-core"@)
    } else if prefix == "jakarta.servlet"@ {
        Some("jakarta.servlet:jakarta.servlet-api"@)
    } else if prefix == "javax.servlet"@ {
        Some("javax.servlet:javax.servlet-api"@)
    } else if prefix == "com.mysql"@ {
        Some("com.mysql:mysql-connector-j"@)
    } else if prefix == "org.postgresql"@ {
        Some("org.postgresql:postgresql"@)
    } else if prefix == "redis.clients"@ {
        Some("redis.clients:jedis"@)
    } else if prefix == "com.rabbitmq"@ {
        Some("com.rabbitmq:amqp-client"@)
    } else if prefix == "io.micrometer"@ {
        Some("io.micrometer:micrometer-core"@)
    } else if prefix == "org.thymeleaf"@ {
        Some("org.thymeleaf:thymeleaf"@)
    } else if prefix == "com.github"@ {
        Some("com.github.ben-manes.caffeine:caffeine"@)
    } else {
        None
    }
}

/// The artifact coordinate known for a package prefix.
fn lookup_mapping(prefix: &str) -> (r: Option<&'static str>)
    ensures
        match r {
            Some(c) => known_mapping(prefix@) == Some(c@),
            None => known_mapping(prefix@) is None,
        },
{
    if str_eq(prefix, "com.google.gson") {
        Some("com.google.code.gson:gson")
    } else if str_eq(prefix, "org.apache.commons.lang3") {
        Some("org.apache.commons:commons-lang3")
    } else if str_eq(prefix, "org.apache.commons.lang") {
        Some("commons-lang:commons-lang")
    } else if str_eq(prefix, "org.slf4j") {
        Some("org.slf4j:slf4j-api")
    } else if str_eq(prefix, "org.junit.jupiter") {
        Some("org.junit.jupiter:junit-jupiter")
    } else if str_eq(prefix, "org.junit") {
        Some("junit:junit")
    } else if str_eq(prefix, "org.mockito") {
        Some("org.mockito:mockito-core")
    } else if str_eq(prefix, "com.fasterxml.jackson") {
        Some("com.fasterxml.jackson.core:jackson-databind")
    } else if str_eq(prefix, "com.fasterxml.jackson.annotation") {
        Some("com.fasterxml.jackson.core:jackson-annotations")
    } else if str_eq(prefix, "com.fasterxml.jackson.databind") {
        Some("com.fasterxml.jackson.core:jackson-databind")
    } else if str_eq(prefix, "org.springframework") {
        Some("org.springframework:spring-core")
    } else if str_eq(prefix, "org.springframework.boot") {
        Some("org.springframework.boot:spring-boot")
    } else if str_eq(prefix, "io.netty") {
        Some("io.netty:netty-all")
    } else if str_eq(prefix, "org.apache.httpcomponents") {
        Some("org.apache.httpcomponents:httpclient")
    } else if str_eq(prefix, "org.json") {
        Some("org.json:json")
    } else if str_eq(prefix, "com.squareup.okhttp3") {
        Some("com.squareup.okhttp3:okhttp")
    } else if str_eq(prefix, "org.apache.logging.log4j") {
        Some("org.apache.logging.log4j:log4j-core")
    } else if str_eq(prefix, "jakarta.servlet") {
        Some("jakarta.servlet:jakarta.servlet-api")
    } else if str_eq(prefix, "javax.servlet") {
        Some("javax.servlet:javax.servlet-api")
    } else if str_eq(prefix, "com.mysql") {
        Some("com.mysql:mysql-connector-j")
    } else if str_eq(prefix, "org.postgresql") {
        Some("org.postgresql:postgresql")
    } else if str_eq(prefix, "redis.clients") {
        Some("redis.clients:jedis")
    } else if str_eq(prefix, "com.rabbitmq") {
        Some("com.rabbitmq:amqp-client")
    } else if str_eq(prefix, "io.micrometer") {
        Some("io.micrometer:micrometer-core")
    } else if str_eq(prefix, "org.thymeleaf") {
        Some("org.thymeleaf:thymeleaf")
    } else if str_eq(prefix, "com.github") {
        Some("com.github.ben-manes.caffeine:caffeine")
    } else {
        None
    }
}

/// The import names a JDK class (`java.`, `javax.` or `jdk.`).
pub open spec fn jdk_import(import: Seq<char>) -> bool {
    starts_with(import, "java."@) || starts_with(import, "javax."@) || starts_with(import, "jdk."@)
}

/// The first known mapping among the prefixes of `parts` of `i` parts
/// down to 2.
pub open spec fn mapping_from(parts: Seq<Seq<char>>, i: int) -> Option<Seq<char>>
    decreases i,
{
    if i < 2 {
        None
    } else {
        match known_mapping(join(parts.take(i), "."@)) {
            Some(c) => Some(c),
            None => mapping_from(parts, i - 1),
        }
    }
}

/// The artifact coordinate of a Java import: none for JDK classes or a
/// name of fewer than two parts; the known mapping of its longest prefix
/// of two to five parts; otherwise, for three parts or more,
/// `package:ClassName`.
pub open spec fn coord_of_import(import: Seq<char>) -> Option<Seq<char>> {
    let parts = split(import, '.');
    if jdk_import(import) || parts.len() < 2 {
        None
    } else {
        match mapping_from(parts, if parts.len() < 5 { parts.len() as int } else { 5 }) {
            Some(c) => Some(c),
            None => if parts.len() >= 3 {
                Some(join(parts.take(parts.len() - 1), "."@).push(':') + parts.last())
            } else {
                None
            },
        }
    }
}

/// The artifact coordinate that a Java import points to, if any.
pub fn import_to_coord(import: &str) -> (r: Option<String>)
    ensures
        match r {
            Some(c) => coord_of_import(import@) == Some(c@),
            None => coord_of_import(import@) is None,
        },
{
    if str_starts_with(import, "java.") || str_starts_with(import, "javax.") || str_starts_with(
        import,
        "jdk.",
    ) {
        return None;
    }
    let parts = str_split(import, '.');
    let ghost ps = views(parts@);
    proof {
        assert(ps.len() == parts@.len());
    }
    if parts.len() < 2 {
        return None;
    }
    let top: usize = if parts.len() < 5 {
        parts.len()
    } else {
        5
    };
    let mut i = top;
    while i >= 2
        invariant
            ps == views(parts@),
            ps == split(import@, '.'),
            ps.len() == parts@.len(),
            i <= parts@.len(),
            top <= parts@.len(),
            top == (if ps.len() < 5 { ps.len() as int } else { 5 }),
            mapping_from(ps, top as int) == mapping_from(ps, i as int),
            !jdk_import(import@),
            ps.len() >= 2,
        decreases i,
    {
        let prefix = join_prefix(&parts, i, ".");
        match lookup_mapping(prefix.as_str()) {
            Some(c) => {
                return Some(owned(c));
            },
            None => {},
        }
        i -= 1;
    }
    if parts.len() >= 3 {
        let n = parts.len();
        let mut c = join_prefix(&parts, n - 1, ".");
        push_char(&mut c, ':');
        push_str(&mut c, parts[n - 1].as_str());
        return Some(c);
    }
    None
}

/// The class a source line imports: a trimmed line `import NAME;` that is
/// not a static import.
pub open spec fn line_import(line: Seq<char>) -> Option<Seq<char>> {
    let t = trim(line);
    if starts_with(t, "import "@) && ends_with(t, ";"@) && t.len() >= 8 {
        let name = t.subrange(7, t.len() - 1);
        if starts_with(name, "static "@) {
            None
        } else {
            Some(name)
        }
    } else {
        None
    }
}

/// The imports of the lines, in order.
pub open spec fn imports_of(ls: Seq<Seq<char>>) -> Seq<Seq<char>>
    decreases ls.len(),
{
    if ls.len() == 0 {
        Seq::empty()
    } else {
        match line_import(ls.last()) {
            Some(n) => imports_of(ls.drop_last()).push(n),
            None => imports_of(ls.drop_last()),
        }
    }
}

/// The non-static imports of a Java source text, in order.
pub fn source_imports(content: &str) -> (r: Vec<String>)
    ensures
        views(r@) == imports_of(lines(content@)),
{
    proof {
        reveal_strlit("import ");
        reveal_strlit(";");
    }
    let ls = str_lines(content);
    let ghost s = views(ls@);
    let mut out: Vec<String> = Vec::new();
    let mut i: usize = 0;
    assert(s.take(0) =~= Seq::<Seq<char>>::empty());
    while i < ls.len()
        invariant
            s == views(ls@),
            s == lines(content@),
            s.len() == ls@.len(),
            i <= ls@.len(),
            views(out@) == imports_of(s.take(i as int)),
            "import "@.len() == 7,
            ";"@.len() == 1,
        decreases ls@.len() - i,
    {
        assert(s.take(i + 1).drop_last() =~= s.take(i as int));
        assert(s.take(i + 1).last() == ls@[i as int]@);
        let t = str_trim(ls[i].as_str());
        if str_starts_with(t.as_str(), "import ") && str_ends_with(t.as_str(), ";") {
            let v = chars_of(t.as_str());
            if v.len() >= 8 {
                let name = string_of(&v, 7, v.len() - 1);
                if !str_starts_with(name.as_str(), "static ") {
                    let ghost o0 = views(out@);
                    out.push(name);
                    assert(views(out@) =~= o0.push(line_import(ls@[i as int]@)->0));
                }
            }
        }
        i += 1;
    }
    assert(s.take(s.len() as int) =~= s);
    out
}

/// Distinct coordinates of the imports that map to one, in order of first
/// appearance.
pub open spec fn used_coords(imports: Seq<Seq<char>>) -> Seq<Seq<char>>
    decreases imports.len(),
{
    if imports.len() == 0 {
        Seq::empty()
    } else {
        let rest = used_coords(imports.drop_last());
        match coord_of_import(imports.last()) {
            Some(c) => if rest.contains(c) {
                rest
            } else {
                rest.push(c)
            },
            None => rest,
        }
    }
}

/// Result of the analysis.
#[derive(Debug, Clone)]
pub struct DependencyAnalysis {
    /// Declared dependencies that no import uses, in declaration order.
    pub unused: Vec<String>,
    /// Imported libraries that are not declared, in order of first import.
    pub undeclared: Vec<String>,
    /// Number of declared dependencies.
    pub total: usize,
}

/// The elements of `a` not in `b`, in order.
pub open spec fn minus(a: Seq<Seq<char>>, b: Seq<Seq<char>>) -> Seq<Seq<char>>
    decreases a.len(),
{
    if a.len() == 0 {
        Seq::empty()
    } else if b.contains(a.last()) {
        minus(a.drop_last(), b)
    } else {
        minus(a.drop_last(), b).push(a.last())
    }
}

/// Whether `x` is among `v`.
fn among(v: &Vec<String>, x: &str) -> (r: bool)
    ensures
        r == views(v@).contains(x@),
{
    let mut i: usize = 0;
    while i < v.len()
        invariant
            i <= v@.len(),
            forall|j: int| 0 <= j < i ==> (#[trigger] v@[j])@ != x@,
        decreases v@.len() - i,
    {
        if str_eq(v[i].as_str(), x) {
            assert(views(v@)[i as int] == x@);
            return true;
        }
        i += 1;
    }
    proof {
        if views(v@).contains(x@) {
            let j = choose|j: int| 0 <= j < views(v@).len() && views(v@)[j] == x@;
            assert(v@[j]@ == x@);
        }
    }
    false
}

/// The elements of `a` not in `b`, in order.
fn minus_exec(a: &Vec<String>, b: &Vec<String>) -> (r: Vec<String>)
    ensures
        views(r@) == minus(views(a@), views(b@)),
{
    let ghost s = views(a@);
    let mut out: Vec<String> = Vec::new();
    let mut i: usize = 0;
    assert(s.take(0) =~= Seq::<Seq<char>>::empty());
    while i < a.len()
        invariant
            s == views(a@),
            s.len() == a@.len(),
            i <= a@.len(),
            views(out@) == minus(s.take(i as int), views(b@)),
        decreases a@.len() - i,
    {
        assert(s.take(i + 1).drop_last() =~= s.take(i as int));
        assert(s.take(i + 1).last() == a@[i as int]@);
        if !among(b, a[i].as_str()) {
            let ghost o0 = views(out@);
            out.push(a[i].clone());
            assert(views(out@) =~= o0.push(a@[i as int]@));
        }
        i += 1;
    }
    assert(s.take(s.len() as int) =~= s);
    out
}

/// Compares the declared dependencies with the imports of the sources.
pub fn analyze_dependencies(declared: &DepMap, imports: &Vec<String>) -> (r: DependencyAnalysis)
    requires
        declared.wf(),
    ensures
        views(r.unused@) == minus(keys_of(declared.entries@), used_coords(views(imports@))),
        views(r.undeclared@) == minus(used_coords(views(imports@)), keys_of(declared.entries@)),
        r.total == declared@.dom().len(),
{
    let ghost s = views(imports@);
    let mut used: Vec<String> = Vec::new();
    let mut i: usize = 0;
    assert(s.take(0) =~= Seq::<Seq<char>>::empty());
    while i < imports.len()
        invariant
            s == views(imports@),
            s.len() == imports@.len(),
            i <= imports@.len(),
            views(used@) == used_coords(s.take(i as int)),
        decreases imports@.len() - i,
    {
        assert(s.take(i + 1).drop_last() =~= s.take(i as int));
        assert(s.take(i + 1).last() == imports@[i as int]@);
        match import_to_coord(imports[i].as_str()) {
            Some(c) => {
                if !among(&used, c.as_str()) {
                    let ghost u0 = views(used@);
                    used.push(c);
                    assert(views(used@) =~= u0.push(coord_of_import(imports@[i as int]@)->0));
                }
            },
            None => {},
        }
        i += 1;
    }
    assert(s.take(s.len() as int) =~= s);
    let mut keys: Vec<String> = Vec::new();
    let mut k: usize = 0;
    while k < declared.entries.len()
        invariant
            k <= declared.entries@.len(),
            views(keys@) == keys_of(declared.entries@.take(k as int)),
        decreases declared.entries@.len() - k,
    {
        let ghost k0 = views(keys@);
        keys.push(declared.entries[k].0.clone());
        assert(views(keys@) =~= k0.push(declared.entries@[k as int].0@));
        assert(keys_of(declared.entries@.take(k + 1)) =~= keys_of(declared.entries@.take(k as int)).push(
            declared.entries@[k as int].0@,
        ));
        k += 1;
    }
    assert(declared.entries@.take(k as int) =~= declared.entries@);
    let unused = minus_exec(&keys, &used);
    let undeclared = minus_exec(&used, &keys);
    let total = declared.len();
    DependencyAnalysis { unused, undeclared, total }
}

} // verus!
