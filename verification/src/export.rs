//! Export to Maven: the `pom.xml` written for a jex project.

use vstd::prelude::*;
use crate::deps::DepMap;
use crate::text::{split, owned, push_str, concat2};
use crate::util::parse_coord;

verus! {

/// Header of the generated POM, up to the opening of its dependencies.
pub open spec fn pom_head(group_id: Seq<char>, artifact_id: Seq<char>) -> Seq<char> {
    "<?xml version=\"1.0\" encoding=\"UTF-8\"?>\n"@
        + "<project xmlns=\"http://maven.apache.org/POM/4.0.0\"\n"@
        + "         xmlns:xsi=\"http://www.w3.org/2001/XMLSchema-instance\"\n"@
        + "         xsi:schemaLocation=\"http://maven.apache.org/POM/4.0.0 http://maven.apache.org/xsd/maven-4.0.0.xsd\">\n"@
        + "    <modelVersion>4.0.0</modelVersion>\n"@ + "    <groupId>"@ + group_id
        + "</groupId>\n"@ + "    <artifactId>"@ + artifact_id + "</artifactId>\n"@
        + "    <version>0.1.0</version>\n"@ + "    <packaging>jar</packaging>\n"@ + "\n"@
        + "    <dependencies>\n"@
}

/// The `<dependency>` element of one locked dependency, when its
/// coordinate has a group and an artifact.
pub open spec fn dependency_element(coord: Seq<char>, version: Seq<char>) -> Seq<char> {
    let parts = split(coord, ':');
    if parts.len() >= 2 {
        "        <dependency>\n"@ + "            <groupId>"@ + parts[0] + "</groupId>\n"@
            + "            <artifactId>"@ + parts[1] + "</artifactId>\n"@
            + "            <version>"@ + version + "</version>\n"@ + "        </dependency>\n"@
    } else {
        Seq::empty()
    }
}

/// The `<dependency>` elements of the dependencies, in order.
pub open spec fn dependency_elements(entries: Seq<(String, String)>) -> Seq<char>
    decreases entries.len(),
{
    if entries.len() == 0 {
        Seq::empty()
    } else {
        dependency_elements(entries.drop_last()) + dependency_element(
            entries.last().0@,
            entries.last().1@,
        )
    }
}

/// Group id of the exported project: `local.` and the project's name.
pub open spec fn export_group(name: Seq<char>) -> Seq<char> {
    "local."@ + name
}

/// The POM for a project named `project_name` (`demo` when it has none)
/// with the locked dependencies, in their order.
pub open spec fn pom_text(project_name: Option<Seq<char>>, entries: Seq<(String, String)>) -> Seq<char> {
    let name = match project_name {
        Some(n) => n,
        None => "demo"@,
    };
    pom_head(export_group(name), name) + dependency_elements(entries) + "    </dependencies>\n"@
        + "</project>\n"@
}

/// The `pom.xml` exported for a project and its locked dependencies.
pub fn pom_xml(project_name: Option<&str>, dependencies: &DepMap) -> (r: String)
    ensures
        r@ == pom_text(
            match project_name {
                Some(n) => Some(n@),
                None => None,
            },
            dependencies.entries@,
        ),
{
    let name = match project_name {
        Some(n) => n,
        None => "demo",
    };
    let group_id = concat2("local.", name);
    let mut pom = owned("<?xml version=\"1.0\" encoding=\"UTF-8\"?>\n");
    push_str(&mut pom, "<project xmlns=\"http://maven.apache.org/POM/4.0.0\"\n");
    push_str(&mut pom, "         xmlns:xsi=\"http://www.w3.org/2001/XMLSchema-instance\"\n");
    push_str(
        &mut pom,
        "         xsi:schemaLocation=\"http://maven.apache.org/POM/4.0.0 http://maven.apache.org/xsd/maven-4.0.0.xsd\">\n",
    );
    push_str(&mut pom, "    <modelVersion>4.0.0</modelVersion>\n");
    push_str(&mut pom, "    <groupId>");
    push_str(&mut pom, group_id.as_str());
    push_str(&mut pom, "</groupId>\n");
    push_str(&mut pom, "    <artifactId>");
    push_str(&mut pom, name);
    push_str(&mut pom, "</artifactId>\n");
    push_str(&mut pom, "    <version>0.1.0</version>\n");
    push_str(&mut pom, "    <packaging>jar</packaging>\n");
    push_str(&mut pom, "\n");
    push_str(&mut pom, "    <dependencies>\n");
    let ghost head = pom@;
    let ghost es = dependencies.entries@;
    let mut i: usize = 0;
    assert(es.take(0) =~= Seq::<(String, String)>::empty());
    while i < dependencies.entries.len()
        invariant
            es == dependencies.entries@,
            i <= es.len(),
            pom@ == head + dependency_elements(es.take(i as int)),
        decreases es.len() - i,
    {
        assert(es.take(i + 1).drop_last() =~= es.take(i as int));
        assert(es.take(i + 1).last() == es[i as int]);
        let (coord, ver) = &dependencies.entries[i];
        let ghost before = pom@;
        match parse_coord(coord.as_str()) {
            Ok((g, a)) => {
                push_str(&mut pom, "        <dependency>\n");
                push_str(&mut pom, "            <groupId>");
                push_str(&mut pom, g.as_str());
                push_str(&mut pom, "</groupId>\n");
                push_str(&mut pom, "            <artifactId>");
                push_str(&mut pom, a.as_str());
                push_str(&mut pom, "</artifactId>\n");
                push_str(&mut pom, "            <version>");
                push_str(&mut pom, ver.as_str());
                push_str(&mut pom, "</version>\n");
                push_str(&mut pom, "        </dependency>\n");
            },
            Err(_) => {},
        }
        assert(pom@ =~= before + dependency_element(coord@, ver@));
        i += 1;
    }
    assert(es.take(es.len() as int) =~= es);
    push_str(&mut pom, "    </dependencies>\n");
    push_str(&mut pom, "</project>\n");
    pom
}

} // verus!
