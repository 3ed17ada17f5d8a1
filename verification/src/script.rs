//! Script mode: the metadata a Java file declares in its leading comment
//! lines (shebang, `//DEPS`, `//JAVA`).

use vstd::prelude::*;
use crate::text::{
    lines, trim, starts_with, views, str_lines, str_trim, str_starts_with, chars_of, string_of,
    str_is_empty,
};

verus! {

/// Metadata of a script file.
#[derive(Debug, Clone)]
pub struct ScriptMeta {
    /// Java version required (such as `21` or `21+`).
    pub java_version: Option<String>,
    /// Dependencies (such as `com.google.code.gson:gson:2.11.0`).
    pub deps: Vec<String>,
    /// The file is a script (it has a shebang or a directive).
    pub is_script: bool,
}

impl Default for ScriptMeta {
    fn default() -> (r: Self)
        ensures
            r.java_version is None,
            r.deps@.len() == 0,
            !r.is_script,
    {
        ScriptMeta { java_version: None, deps: Vec::new(), is_script: false }
    }
}

/// State of the reading of a script's leading lines.
pub struct MetaScan {
    pub java_version: Option<Seq<char>>,
    pub deps: Seq<Seq<char>>,
    pub is_script: bool,
    pub stopped: bool,
}

/// One line: a shebang (`#!/` or `///`) marks a script; `//DEPS x` adds
/// dependency `x` and `//JAVA v` sets the version (when not empty after
/// trimming); the first line that is neither empty nor a comment ends the
/// reading.
pub open spec fn meta_step(s: MetaScan, line: Seq<char>) -> MetaScan {
    let t = trim(line);
    if s.stopped {
        s
    } else if starts_with(t, "#!/"@) || starts_with(t, "///"@) {
        MetaScan { is_script: true, ..s }
    } else if starts_with(t, "//DEPS "@) {
        let d = trim(t.subrange(7, t.len() as int));
        if d.len() > 0 {
            MetaScan { deps: s.deps.push(d), is_script: true, ..s }
        } else {
            s
        }
    } else if starts_with(t, "//JAVA "@) {
        let v = trim(t.subrange(7, t.len() as int));
        if v.len() > 0 {
            MetaScan { java_version: Some(v), is_script: true, ..s }
        } else {
            s
        }
    } else if t.len() > 0 && !starts_with(t, "//"@) {
        MetaScan { stopped: true, ..s }
    } else {
        s
    }
}

/// The reading after the lines `ls`.
pub open spec fn meta_of(ls: Seq<Seq<char>>) -> MetaScan
    decreases ls.len(),
{
    if ls.len() == 0 {
        MetaScan { java_version: None, deps: Seq::empty(), is_script: false, stopped: false }
    } else {
        meta_step(meta_of(ls.drop_last()), ls.last())
    }
}

/// The text after the first seven characters, trimmed.
fn rest_trimmed(t: &str) -> (r: String)
    requires
        t@.len() >= 7,
    ensures
        r@ == trim(t@.subrange(7, t@.len() as int)),
{
    let v = chars_of(t);
    let rest = string_of(&v, 7, v.len());
    str_trim(rest.as_str())
}

/// The metadata a Java source text declares in its leading lines.
pub fn parse_script_content(content: &str) -> (r: ScriptMeta)
    ensures
        ({
            let m = meta_of(lines(content@));
            &&& r.is_script == m.is_script
            &&& views(r.deps@) == m.deps
            &&& match r.java_version {
                Some(v) => m.java_version == Some(v@),
                None => m.java_version is None,
            }
        }),
{
    proof {
        reveal_strlit("//DEPS ");
        reveal_strlit("//JAVA ");
    }
    let ls = str_lines(content);
    let ghost s = views(ls@);
    let mut java_version: Option<String> = None;
    let mut deps: Vec<String> = Vec::new();
    let mut is_script = false;
    let mut stopped = false;
    let mut i: usize = 0;
    assert(s.take(0) =~= Seq::<Seq<char>>::empty());
    while i < ls.len()
        invariant
            s == views(ls@),
            s == lines(content@),
            s.len() == ls@.len(),
            i <= ls@.len(),
            "//DEPS "@.len() == 7,
            "//JAVA "@.len() == 7,
            ({
                let m = meta_of(s.take(i as int));
                &&& m.is_script == is_script
                &&& m.stopped == stopped
                &&& m.deps == views(deps@)
                &&& m.java_version == match java_version {
                    Some(v) => Some(v@),
                    None => None,
                }
            }),
        decreases ls@.len() - i,
    {
        assert(s.take(i + 1).drop_last() =~= s.take(i as int));
        assert(s.take(i + 1).last() == ls@[i as int]@);
        if !stopped {
            let t = str_trim(ls[i].as_str());
            let ts = t.as_str();
            if str_starts_with(ts, "#!/") || str_starts_with(ts, "///") {
                is_script = true;
            } else if str_starts_with(ts, "//DEPS ") {
                let d = rest_trimmed(ts);
                if !str_is_empty(d.as_str()) {
                    let ghost d0 = views(deps@);
                    deps.push(d);
                    assert(views(deps@) =~= d0.push(trim(t@.subrange(7, t@.len() as int))));
                    is_script = true;
                }
            } else if str_starts_with(ts, "//JAVA ") {
                let v = rest_trimmed(ts);
                if !str_is_empty(v.as_str()) {
                    java_version = Some(v);
                    is_script = true;
                }
            } else if !str_is_empty(ts) && !str_starts_with(ts, "//") {
                stopped = true;
            }
        }
        i += 1;
    }
    assert(s.take(s.len() as int) =~= s);
    ScriptMeta { java_version, deps, is_script }
}

} // verus!
