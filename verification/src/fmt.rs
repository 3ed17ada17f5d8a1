//! Java formatting with google-java-format: styles, configuration, the
//! formatter's arguments and the choice of files to format.

use vstd::prelude::*;
use crate::error::{Error, Result};
use crate::text::{
    uppercase, to_uppercase, str_eq, owned, concat2, contains, ends_with, lines, views,
    str_contains, str_ends_with, str_lines,
};

verus! {

/// Formatting style.
#[derive(Debug, Clone, Copy, PartialEq, Eq, Structural)]
pub enum Style {
    Google,
    Aosp,
    OpenJ7,
}

impl Default for Style {
    fn default() -> (r: Self)
        ensures
            r == Style::Google,
    {
        Style::Google
    }
}

/// Display name of a style.
pub open spec fn style_name(s: Style) -> Seq<char> {
    match s {
        Style::Google => "Google"@,
        Style::Aosp => "AOSP"@,
        Style::OpenJ7 => "OpenJ7"@,
    }
}

/// Style named by an upper-case name.
pub open spec fn style_named(u: Seq<char>) -> Option<Style> {
    if u == "GOOGLE"@ {
        Some(Style::Google)
    } else if u == "AOSP"@ {
        Some(Style::Aosp)
    } else if u == "OPENJ7"@ || u == "OPENJDK7"@ {
        Some(Style::OpenJ7)
    } else {
        None
    }
}

/// Message of the error for an unknown style name.
pub open spec fn unknown_style_message(s: Seq<char>) -> Seq<char> {
    "未知格式化风格: "@ + s
}

impl Style {
    /// Display name of the style (what `Display` shows).
    pub fn to_string(&self) -> (r: String)
        ensures
            r@ == style_name(*self),
    {
        match self {
            Style::Google => owned("Google"),
            Style::Aosp => owned("AOSP"),
            Style::OpenJ7 => owned("OpenJ7"),
        }
    }
}

/// Parses a style name, without regard to case.
pub fn parse_style(s: &str) -> (r: Result<Style>)
    ensures
        match r {
            Ok(st) => style_named(uppercase(s@)) == Some(st),
            Err(e) => style_named(uppercase(s@)) is None && e.0@ == unknown_style_message(s@),
        },
{
    let u = to_uppercase(s);
    match style_of_uppercase(u.as_str()) {
        Some(st) => Ok(st),
        None => Err(Error::new(concat2("未知格式化风格: ", s))),
    }
}

/// The style an upper-cased name stands for, if any.
pub fn style_of_uppercase(u: &str) -> (r: Option<Style>)
    ensures
        r == style_named(u@),
{
    if str_eq(u, "GOOGLE") {
        Some(Style::Google)
    } else if str_eq(u, "AOSP") {
        Some(Style::Aosp)
    } else if str_eq(u, "OPENJ7") || str_eq(u, "OPENJDK7") {
        Some(Style::OpenJ7)
    } else {
        None
    }
}

impl std::str::FromStr for Style {
    type Err = Error;

    fn from_str(s: &str) -> (r: Result<Self>)
        ensures
            match r {
                Ok(st) => style_named(uppercase(s@)) == Some(st),
                Err(e) => style_named(uppercase(s@)) is None && e.0@ == unknown_style_message(s@),
            },
    {
        parse_style(s)
    }
}

/// Formatting configuration.
#[derive(Debug, Clone)]
pub struct FmtConfig {
    pub style: Style,
    pub aosp: bool,
    pub skip_future: bool,
    pub exclude: Vec<String>,
}

impl Default for FmtConfig {
    fn default() -> (r: Self)
        ensures
            r.style == Style::Google,
            !r.aosp,
            !r.skip_future,
            views(r.exclude@) == seq!["build/"@, "target/"@],
    {
        let mut exclude: Vec<String> = Vec::new();
        exclude.push(owned("build/"));
        exclude.push(owned("target/"));
        proof {
            assert(views(exclude@) =~= seq!["build/"@, "target/"@]);
        }
        FmtConfig { style: Style::Google, aosp: false, skip_future: false, exclude }
    }
}

/// Where formatted code goes.
#[derive(Debug, Clone, Copy)]
pub enum OutputMode {
    /// Printed to standard output.
    Stdout,
    /// Only reported (files are left unchanged).
    Check,
    /// Written back to the file.
    Write,
}

/// Arguments of google-java-format for a style, after `java`.
pub open spec fn style_args(jar: Seq<char>, style: Style) -> Seq<Seq<char>> {
    match style {
        Style::Aosp => seq!["-jar"@, jar, "--aosp"@],
        Style::OpenJ7 => seq!["-jar"@, jar, "--google-java-format-1.7"@],
        Style::Google => seq!["-jar"@, jar],
    }
}

/// Arguments of the formatter: the style's arguments, then, when a file is
/// formatted, `--skip-sorting-imports` if asked and the file's path.
pub open spec fn formatter_args(jar: Seq<char>, config: FmtConfig, file: Option<Seq<char>>) -> Seq<
    Seq<char>,
> {
    match file {
        None => style_args(jar, config.style),
        Some(p) => if config.skip_future {
            style_args(jar, config.style).push("--skip-sorting-imports"@).push(p)
        } else {
            style_args(jar, config.style).push(p)
        },
    }
}

/// The command-line arguments of google-java-format, run from the JAR at
/// `jar`, for formatting `file` (or standard input when `None`).
pub fn gjf_args(jar: &str, config: &FmtConfig, file: Option<&str>) -> (r: Vec<String>)
    ensures
        views(r@) == formatter_args(
            jar@,
            *config,
            match file {
                Some(f) => Some(f@),
                None => None,
            },
        ),
{
    let mut args: Vec<String> = Vec::new();
    args.push(owned("-jar"));
    args.push(owned(jar));
    match config.style {
        Style::Aosp => args.push(owned("--aosp")),
        Style::OpenJ7 => args.push(owned("--google-java-format-1.7")),
        Style::Google => {},
    }
    let ghost base = views(args@);
    assert(base =~= style_args(jar@, config.style));
    match file {
        Some(f) => {
            if config.skip_future {
                args.push(owned("--skip-sorting-imports"));
            }
            args.push(owned(f));
        },
        None => {},
    }
    assert(views(args@) =~= formatter_args(
        jar@,
        *config,
        match file {
            Some(f) => Some(f@),
            None => None,
        },
    ));
    args
}

/// Lines of `git diff --name-only` output that name Java files, in order.
pub open spec fn java_lines(ls: Seq<Seq<char>>) -> Seq<Seq<char>>
    decreases ls.len(),
{
    if ls.len() == 0 {
        Seq::empty()
    } else if ends_with(ls.last(), ".java"@) {
        java_lines(ls.drop_last()).push(ls.last())
    } else {
        java_lines(ls.drop_last())
    }
}

/// The Java files that `git diff --name-only` lists.
pub fn changed_java_files(diff_output: &str) -> (r: Vec<String>)
    ensures
        views(r@) == java_lines(lines(diff_output@)),
{
    let ls = str_lines(diff_output);
    let ghost s = views(ls@);
    let mut out: Vec<String> = Vec::new();
    let mut i: usize = 0;
    assert(s.take(0) =~= Seq::<Seq<char>>::empty());
    while i < ls.len()
        invariant
            s == views(ls@),
            s == lines(diff_output@),
            i <= ls@.len(),
            s.len() == ls@.len(),
            views(out@) == java_lines(s.take(i as int)),
        decreases ls@.len() - i,
    {
        assert(s.take(i + 1).drop_last() =~= s.take(i as int));
        assert(s.take(i + 1).last() == ls@[i as int]@);
        if str_ends_with(ls[i].as_str(), ".java") {
            let ghost o0 = views(out@);
            out.push(ls[i].clone());
            assert(views(out@) =~= o0.push(ls@[i as int]@));
        }
        i += 1;
    }
    assert(s.take(s.len() as int) =~= s);
    out
}

/// No exclusion pattern occurs in the path.
pub open spec fn not_excluded(path: Seq<char>, exclude: Seq<Seq<char>>) -> bool {
    forall|k: int| 0 <= k < exclude.len() ==> !contains(path, #[trigger] exclude[k])
}

/// The paths in which no exclusion pattern occurs, in order.
pub open spec fn kept_paths(files: Seq<Seq<char>>, exclude: Seq<Seq<char>>) -> Seq<Seq<char>>
    decreases files.len(),
{
    if files.len() == 0 {
        Seq::empty()
    } else if not_excluded(files.last(), exclude) {
        kept_paths(files.drop_last(), exclude).push(files.last())
    } else {
        kept_paths(files.drop_last(), exclude)
    }
}

/// Whether some exclusion pattern occurs in `path`.
fn is_excluded(path: &str, exclude: &Vec<String>) -> (r: bool)
    ensures
        r == !not_excluded(path@, views(exclude@)),
{
    let mut k: usize = 0;
    while k < exclude.len()
        invariant
            k <= exclude@.len(),
            forall|j: int| 0 <= j < k ==> !contains(path@, #[trigger] views(exclude@)[j]),
        decreases exclude@.len() - k,
    {
        if str_contains(path, exclude[k].as_str()) {
            assert(contains(path@, views(exclude@)[k as int]));
            return true;
        }
        k += 1;
    }
    false
}

/// The changed files to format: those in which none of the configured
/// exclusion patterns occurs, in order.
pub fn format_changed(config: &FmtConfig, changed: &Vec<String>) -> (r: Result<Vec<String>>)
    ensures
        r matches Ok(v) && views(v@) == kept_paths(views(changed@), views(config.exclude@)),
{
    let ghost s = views(changed@);
    let mut out: Vec<String> = Vec::new();
    let mut i: usize = 0;
    assert(s.take(0) =~= Seq::<Seq<char>>::empty());
    while i < changed.len()
        invariant
            s == views(changed@),
            i <= changed@.len(),
            s.len() == changed@.len(),
            views(out@) == kept_paths(s.take(i as int), views(config.exclude@)),
        decreases changed@.len() - i,
    {
        assert(s.take(i + 1).drop_last() =~= s.take(i as int));
        assert(s.take(i + 1).last() == changed@[i as int]@);
        if !is_excluded(changed[i].as_str(), &config.exclude) {
            let ghost o0 = views(out@);
            out.push(changed[i].clone());
            assert(views(out@) =~= o0.push(changed@[i as int]@));
        }
        i += 1;
    }
    assert(s.take(s.len() as int) =~= s);
    Ok(out)
}

} // verus!
