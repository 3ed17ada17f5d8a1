//! The interactive `jex init` wizard: its five steps, its state, what each
//! key does to it, and the `jex.toml` it writes.  The cursor in the
//! project name counts characters.

use vstd::prelude::*;
use crate::text::{owned, push_str, push_char, chars_of, string_of, str_eq, trim, str_trim, str_is_empty};

verus! {

/// Number of steps.
pub open spec fn total_steps() -> nat {
    5
}

/// Java versions offered: value and label.
pub open spec fn java_versions() -> Seq<(Seq<char>, Seq<char>)> {
    seq![
        ("8"@, "Java 8 (LTS)"@),
        ("11"@, "Java 11 (LTS)"@),
        ("17"@, "Java 17 (LTS)"@),
        ("21"@, "Java 21 (LTS, recommended)"@),
    ]
}

/// Build tools offered: value and label.
pub open spec fn build_tools() -> Seq<(Seq<char>, Seq<char>)> {
    seq![
        ("javac"@, "Pure javac (no build tool)"@),
        ("maven"@, "Apache Maven"@),
        ("gradle"@, "Gradle"@),
    ]
}

/// Common dependencies offered: name, group, artifact, default version.
pub open spec fn common_deps() -> Seq<(Seq<char>, Seq<char>, Seq<char>, Seq<char>)> {
    seq![
        ("JUnit 5"@, "org.junit.jupiter"@, "junit-jupiter-api"@, "5.10.2"@),
        ("Gson"@, "com.google.code.gson"@, "gson"@, "2.11.0"@),
        ("Lombok"@, "org.projectlombok"@, "lombok"@, "1.18.32"@),
        ("SLF4J API"@, "org.slf4j"@, "slf4j-api"@, "2.0.13"@),
        ("Log4j Core"@, "org.apache.logging.log4j"@, "log4j-core"@, "2.23.1"@),
        ("Apache Commons Lang"@, "org.apache.commons"@, "commons-lang3"@, "3.14.0"@),
        ("Jackson Databind"@, "com.fasterxml.jackson.core"@, "jackson-databind"@, "2.17.1"@),
    ]
}

/// Value of Java version `i`.
pub fn java_version_value(i: usize) -> (r: &'static str)
    requires
        i < 4,
    ensures
        r@ == java_versions()[i as int].0,
{
    if i == 0 {
        "8"
    } else if i == 1 {
        "11"
    } else if i == 2 {
        "17"
    } else {
        "21"
    }
}

/// Value of build tool `i`.
pub fn build_tool_value(i: usize) -> (r: &'static str)
    requires
        i < 3,
    ensures
        r@ == build_tools()[i as int].0,
{
    if i == 0 {
        "javac"
    } else if i == 1 {
        "maven"
    } else {
        "gradle"
    }
}

/// Description of Java version `i`.
pub fn java_version_label(i: usize) -> (r: &'static str)
    requires
        i < 4,
    ensures
        r@ == java_versions()[i as int].1,
{
    if i == 0 {
        "Java 8 (LTS)"
    } else if i == 1 {
        "Java 11 (LTS)"
    } else if i == 2 {
        "Java 17 (LTS)"
    } else {
        "Java 21 (LTS, recommended)"
    }
}

/// Description of build tool `i`.
pub fn build_tool_label(i: usize) -> (r: &'static str)
    requires
        i < 3,
    ensures
        r@ == build_tools()[i as int].1,
{
    if i == 0 {
        "Pure javac (no build tool)"
    } else if i == 1 {
        "Apache Maven"
    } else {
        "Gradle"
    }
}

/// Display name of common dependency `i`.
pub fn common_dep_name(i: usize) -> (r: &'static str)
    requires
        i < 7,
    ensures
        r@ == common_deps()[i as int].0,
{
    if i == 0 {
        "JUnit 5"
    } else if i == 1 {
        "Gson"
    } else if i == 2 {
        "Lombok"
    } else if i == 3 {
        "SLF4J API"
    } else if i == 4 {
        "Log4j Core"
    } else if i == 5 {
        "Apache Commons Lang"
    } else {
        "Jackson Databind"
    }
}

/// Group, artifact and default version of common dependency `i`.
pub fn common_dep(i: usize) -> (r: (&'static str, &'static str, &'static str))
    requires
        i < 7,
    ensures
        r.0@ == common_deps()[i as int].1,
        r.1@ == common_deps()[i as int].2,
        r.2@ == common_deps()[i as int].3,
{
    if i == 0 {
        ("org.junit.jupiter", "junit-jupiter-api", "5.10.2")
    } else if i == 1 {
        ("com.google.code.gson", "gson", "2.11.0")
    } else if i == 2 {
        ("org.projectlombok", "lombok", "1.18.32")
    } else if i == 3 {
        ("org.slf4j", "slf4j-api", "2.0.13")
    } else if i == 4 {
        ("org.apache.logging.log4j", "log4j-core", "2.23.1")
    } else if i == 5 {
        ("org.apache.commons", "commons-lang3", "3.14.0")
    } else {
        ("com.fasterxml.jackson.core", "jackson-databind", "2.17.1")
    }
}

/// A step of the wizard.
#[derive(Debug, Clone, Copy, PartialEq, Eq, Structural)]
pub enum Step {
    Name,
    JavaVersion,
    BuildTool,
    Dependencies,
    Preview,
}

/// The step at an index (the last one beyond it).
pub open spec fn step_at(i: nat) -> Step {
    if i == 0 {
        Step::Name
    } else if i == 1 {
        Step::JavaVersion
    } else if i == 2 {
        Step::BuildTool
    } else if i == 3 {
        Step::Dependencies
    } else {
        Step::Preview
    }
}

/// Title of a step.
pub open spec fn step_title(s: Step) -> Seq<char> {
    match s {
        Step::Name => "Project Name"@,
        Step::JavaVersion => "Java Version"@,
        Step::BuildTool => "Build Tool"@,
        Step::Dependencies => "Dependencies"@,
        Step::Preview => "Preview & Confirm"@,
    }
}

impl Step {
    /// The step at index `i` (the last step for larger indices).
    pub fn from_index(i: usize) -> (r: Step)
        ensures
            r == step_at(i as nat),
    {
        if i == 0 {
            Step::Name
        } else if i == 1 {
            Step::JavaVersion
        } else if i == 2 {
            Step::BuildTool
        } else if i == 3 {
            Step::Dependencies
        } else {
            Step::Preview
        }
    }

    /// Title of the step.
    pub fn title(self) -> (r: &'static str)
        ensures
            r@ == step_title(self),
    {
        match self {
            Step::Name => "Project Name",
            Step::JavaVersion => "Java Version",
            Step::BuildTool => "Build Tool",
            Step::Dependencies => "Dependencies",
            Step::Preview => "Preview & Confirm",
        }
    }
}

/// State of the wizard.
#[derive(Debug, Clone)]
pub struct App {
    pub current_step: usize,
    pub step_cursor: usize,
    pub name_input: String,
    pub name_cursor: usize,
    pub java_selected: usize,
    pub build_selected: usize,
    pub deps_selected: Vec<bool>,
    pub deps_cursor: usize,
    pub cancelled: bool,
    pub confirmed: bool,
}

/// Largest cursor position in a step's list.
pub open spec fn max_cursor_of(step: nat) -> nat {
    match step_at(step) {
        Step::Name => 0,
        Step::JavaVersion => 3,
        Step::BuildTool => 2,
        Step::Dependencies => 6,
        Step::Preview => 0,
    }
}

/// Cursor position when entering a step.
pub open spec fn entry_cursor(a: App, step: nat) -> usize {
    match step_at(step) {
        Step::JavaVersion => a.java_selected,
        Step::BuildTool => a.build_selected,
        Step::Dependencies => a.deps_cursor,
        _ => 0,
    }
}

/// The project name to start from: the current directory's name, else
/// `demo`.
pub fn default_project_name(dir_name: Option<String>) -> (r: String)
    ensures
        r@ == match dir_name {
            Some(n) => n@,
            None => "demo"@,
        },
{
    match dir_name {
        Some(n) => n,
        None => owned("demo"),
    }
}

impl App {
    /// The wizard at its first step, with `default_name` as the project
    /// name, Java 17, plain javac and no dependency selected.
    pub fn new(default_name: String) -> (r: App)
        ensures
            r.current_step == 0,
            r.step_cursor == 0,
            r.name_input@ == default_name@,
            r.name_cursor == 0,
            r.java_selected == 2,
            r.build_selected == 0,
            r.deps_selected@ == seq![false, false, false, false, false, false, false],
            r.deps_cursor == 0,
            !r.cancelled,
            !r.confirmed,
    {
        let mut deps: Vec<bool> = Vec::new();
        let mut i: usize = 0;
        while i < 7
            invariant
                i <= 7,
                deps@.len() == i,
                forall|k: int| 0 <= k < i ==> !(#[trigger] deps@[k]),
            decreases 7 - i,
        {
            deps.push(false);
            i += 1;
        }
        assert(deps@ =~= seq![false, false, false, false, false, false, false]);
        App {
            current_step: 0,
            step_cursor: 0,
            name_input: default_name,
            name_cursor: 0,
            java_selected: 2,
            build_selected: 0,
            deps_selected: deps,
            deps_cursor: 0,
            cancelled: false,
            confirmed: false,
        }
    }

    /// Largest cursor position in the current step's list.
    pub fn max_cursor(&self) -> (r: usize)
        ensures
            r == max_cursor_of(self.current_step as nat),
    {
        match Step::from_index(self.current_step) {
            Step::Name => 0,
            Step::JavaVersion => 3,
            Step::BuildTool => 2,
            Step::Dependencies => 6,
            Step::Preview => 0,
        }
    }

    /// Moves the cursor up, unless at the top.
    pub fn move_up(&mut self)
        ensures
            final(self).step_cursor == if old(self).step_cursor > 0 {
                (old(self).step_cursor - 1) as usize
            } else {
                old(self).step_cursor
            },
            *final(self) == (App { step_cursor: final(self).step_cursor, ..*old(self) }),
    {
        if self.step_cursor > 0 {
            self.step_cursor -= 1;
        }
    }

    /// Moves the cursor down, unless at the end of the list.
    pub fn move_down(&mut self)
        ensures
            final(self).step_cursor == if old(self).step_cursor < max_cursor_of(
                old(self).current_step as nat,
            ) {
                (old(self).step_cursor + 1) as usize
            } else {
                old(self).step_cursor
            },
            *final(self) == (App { step_cursor: final(self).step_cursor, ..*old(self) }),
    {
        if self.step_cursor < self.max_cursor() {
            self.step_cursor += 1;
        }
    }

    /// Goes to the next step, unless at the last; the cursor goes to the
    /// step's saved position.
    pub fn next_step(&mut self)
        ensures
            old(self).current_step < 4 ==> final(self).current_step == old(self).current_step + 1
                && final(self).step_cursor == entry_cursor(
                *old(self),
                (old(self).current_step + 1) as nat,
            ),
            old(self).current_step >= 4 ==> final(self).current_step == old(self).current_step
                && final(self).step_cursor == old(self).step_cursor,
            *final(self) == (App {
                current_step: final(self).current_step,
                step_cursor: final(self).step_cursor,
                ..*old(self)
            }),
    {
        if self.current_step < 4 {
            self.current_step += 1;
            self.step_cursor = match Step::from_index(self.current_step) {
                Step::JavaVersion => self.java_selected,
                Step::BuildTool => self.build_selected,
                Step::Dependencies => self.deps_cursor,
                _ => 0,
            };
        }
    }

    /// Goes to the previous step, unless at the first; the cursor goes to
    /// the step's saved position.
    pub fn prev_step(&mut self)
        ensures
            old(self).current_step > 0 ==> final(self).current_step == old(self).current_step - 1
                && final(self).step_cursor == entry_cursor(
                *old(self),
                (old(self).current_step - 1) as nat,
            ),
            old(self).current_step == 0 ==> final(self).current_step == 0
                && final(self).step_cursor == old(self).step_cursor,
            *final(self) == (App {
                current_step: final(self).current_step,
                step_cursor: final(self).step_cursor,
                ..*old(self)
            }),
    {
        if self.current_step > 0 {
            self.current_step -= 1;
            self.step_cursor = match Step::from_index(self.current_step) {
                Step::JavaVersion => self.java_selected,
                Step::BuildTool => self.build_selected,
                Step::Dependencies => self.deps_cursor,
                _ => 0,
            };
        }
    }

    /// Flips the selection of the dependency under the cursor.
    pub fn toggle_dep(&mut self)
        ensures
            old(self).step_cursor < old(self).deps_selected@.len() ==> final(self).deps_selected@
                == old(self).deps_selected@.update(
                old(self).step_cursor as int,
                !old(self).deps_selected@[old(self).step_cursor as int],
            ),
            old(self).step_cursor >= old(self).deps_selected@.len() ==> final(self).deps_selected@
                == old(self).deps_selected@,
            final(self).current_step == old(self).current_step,
            final(self).step_cursor == old(self).step_cursor,
            final(self).name_input == old(self).name_input,
            final(self).name_cursor == old(self).name_cursor,
            final(self).java_selected == old(self).java_selected,
            final(self).build_selected == old(self).build_selected,
            final(self).deps_cursor == old(self).deps_cursor,
    {
        if self.step_cursor < self.deps_selected.len() {
            let i = self.step_cursor;
            let v = !self.deps_selected[i];
            self.deps_selected.set(i, v);
        }
    }

    /// Inserts a character at the name cursor and moves past it.
    pub fn name_insert_char(&mut self, c: char)
        requires
            old(self).name_cursor <= old(self).name_input@.len(),
            old(self).name_input@.len() < usize::MAX,
        ensures
            final(self).name_input@ == old(self).name_input@.take(old(self).name_cursor as int)
                + seq![c] + old(self).name_input@.skip(old(self).name_cursor as int),
            final(self).name_cursor == old(self).name_cursor + 1,
            final(self).deps_cursor == old(self).deps_cursor,
            final(self).current_step == old(self).current_step,
            final(self).step_cursor == old(self).step_cursor,
            final(self).deps_selected@ == old(self).deps_selected@,
            final(self).java_selected == old(self).java_selected,
            final(self).build_selected == old(self).build_selected,
    {
        let v = chars_of(self.name_input.as_str());
        let n = v.len();
        let k = self.name_cursor;
        let mut s = string_of(&v, 0, k);
        push_char(&mut s, c);
        let rest = string_of(&v, k, n);
        push_str(&mut s, rest.as_str());
        assert(v@.subrange(0, k as int) =~= v@.take(k as int));
        assert(v@.subrange(k as int, n as int) =~= v@.skip(k as int));
        self.name_input = s;
        self.name_cursor = k + 1;
    }

    /// Deletes the character before the name cursor, if any.
    pub fn name_delete_char(&mut self)
        requires
            old(self).name_cursor <= old(self).name_input@.len(),
        ensures
            old(self).name_cursor > 0 ==> final(self).name_input@ == old(self).name_input@.remove(
                old(self).name_cursor - 1,
            ) && final(self).name_cursor == old(self).name_cursor - 1,
            old(self).name_cursor == 0 ==> final(self).name_input@ == old(self).name_input@
                && final(self).name_cursor == 0,
            final(self).deps_cursor == old(self).deps_cursor,
            final(self).current_step == old(self).current_step,
            final(self).step_cursor == old(self).step_cursor,
            final(self).deps_selected@ == old(self).deps_selected@,
            final(self).java_selected == old(self).java_selected,
            final(self).build_selected == old(self).build_selected,
    {
        if self.name_cursor > 0 {
            let k = self.name_cursor - 1;
            let v = chars_of(self.name_input.as_str());
            let n = v.len();
            let mut s = string_of(&v, 0, k);
            let rest = string_of(&v, k + 1, n);
            push_str(&mut s, rest.as_str());
            assert(s@ =~= v@.remove(k as int));
            self.name_input = s;
            self.name_cursor = k;
        }
    }

    /// The `jex.toml` the wizard writes.
    pub fn build_jex_toml_content(&self) -> (r: String)
        requires
            self.java_selected < 4,
            self.build_selected < 3,
        ensures
            r@ == toml_text(
                self.name_input@,
                java_versions()[self.java_selected as int].0,
                build_tools()[self.build_selected as int].0,
                deps_section(self.deps_selected@, 7),
            ),
    {
        let java_ver = java_version_value(self.java_selected);
        let build_tool = build_tool_value(self.build_selected);
        let mut deps = String::new();
        let mut i: usize = 0;
        while i < 7
            invariant
                i <= 7,
                deps@ == deps_section(self.deps_selected@, i as nat),
            decreases 7 - i,
        {
            let selected = if i < self.deps_selected.len() {
                self.deps_selected[i]
            } else {
                false
            };
            if selected {
                let (g, a, v) = common_dep(i);
                push_str(&mut deps, "\"");
                push_str(&mut deps, g);
                push_str(&mut deps, ":");
                push_str(&mut deps, a);
                push_str(&mut deps, "\" = \"");
                push_str(&mut deps, v);
                push_str(&mut deps, "\"\n");
            }
            i += 1;
        }
        let mut out = owned("[project]\nname = \"");
        push_str(&mut out, self.name_input.as_str());
        push_str(&mut out, "\"\n");
        push_str(&mut out, "java = \"");
        push_str(&mut out, java_ver);
        push_str(&mut out, "\"\n\n");
        push_str(&mut out, "[build]\n");
        push_str(&mut out, "output = \".jex-build\"\n");
        push_str(&mut out, "sources = [\"src\"]\n");
        push_str(&mut out, "resources = [\"src/main/resources\"]\n");
        push_str(&mut out, "compiler_args = [\"-parameters\", \"-encoding\", \"UTF-8\"]\n");
        if !str_eq(build_tool, "javac") {
            push_str(&mut out, "build_tool = \"");
            push_str(&mut out, build_tool);
            push_str(&mut out, "\"\n");
        }
        if !str_is_empty(deps.as_str()) {
            push_str(&mut out, "\n[dependencies]\n");
            push_str(&mut out, deps.as_str());
        }
        push_str(&mut out, "\n[repositories]\nmaven-central = true\n");
        out
    }
}

/// The `[dependencies]` lines of the first `n` common dependencies that
/// are selected.
pub open spec fn deps_section(selected: Seq<bool>, n: nat) -> Seq<char>
    decreases n,
{
    if n == 0 {
        Seq::empty()
    } else {
        let i = (n - 1) as nat;
        deps_section(selected, i) + if i < selected.len() && selected[i as int] {
            "\""@ + common_deps()[i as int].1 + ":"@ + common_deps()[i as int].2 + "\" = \""@
                + common_deps()[i as int].3 + "\"\n"@
        } else {
            Seq::empty()
        }
    }
}

/// The `jex.toml` text for a name, a Java version, a build tool and the
/// dependency lines.
pub open spec fn toml_text(name: Seq<char>, java: Seq<char>, tool: Seq<char>, deps: Seq<char>) -> Seq<char> {
    "[project]\nname = \""@ + name + "\"\n"@ + "java = \""@ + java + "\"\n\n"@ + "[build]\n"@
        + "output = \".jex-build\"\n"@ + "sources = [\"src\"]\n"@
        + "resources = [\"src/main/resources\"]\n"@
        + "compiler_args = [\"-parameters\", \"-encoding\", \"UTF-8\"]\n"@ + (if tool != "javac"@ {
        "build_tool = \""@ + tool + "\"\n"@
    } else {
        Seq::empty()
    }) + (if deps.len() > 0 {
        "\n[dependencies]\n"@ + deps
    } else {
        Seq::empty()
    }) + "\n[repositories]\nmaven-central = true\n"@
}

/// A key press, as the wizard reads it.
#[derive(Debug, Clone, Copy, PartialEq, Eq)]
pub enum WizardKey {
    Char(char),
    CtrlC,
    Esc,
    Left,
    Right,
    Up,
    Down,
    Enter,
    Backspace,
    Other,
}

/// What a key press leads to.
#[derive(Debug, Clone, PartialEq, Eq)]
pub enum KeyOutcome {
    /// Keep going.
    Continue,
    /// The user cancelled.
    Cancelled,
    /// The user confirmed: write this `jex.toml`.
    Confirmed(String),
}

/// `char::is_control`: the Unicode control characters.
pub open spec fn is_control(c: char) -> bool {
    (c as u32) <= 0x1f || (0x7f <= (c as u32) && (c as u32) <= 0x9f)
}

/// The wizard's invariant: its selections are in range, the name cursor
/// is inside the name, and there is one flag per common dependency.
pub open spec fn app_wf(a: App) -> bool {
    &&& a.java_selected < 4
    &&& a.build_selected < 3
    &&& a.name_cursor <= a.name_input@.len()
    &&& a.deps_selected@.len() == 7
    &&& a.current_step < 5
    &&& a.step_cursor <= max_cursor_of(a.current_step as nat)
    &&& a.deps_cursor <= 6
}

impl App {
    /// Handles one key press: `q`, Esc and Ctrl-C cancel; otherwise the
    /// current step decides (typing and confirming the name, moving in and
    /// choosing from the lists, toggling dependencies, confirming at the
    /// preview).
    pub fn handle_key(&mut self, key: WizardKey) -> (r: KeyOutcome)
        requires
            app_wf(*old(self)),
        ensures
            app_wf(*final(self)),
            (key == WizardKey::Char('q') || key == WizardKey::Esc || key == WizardKey::CtrlC)
                ==> r == KeyOutcome::Cancelled && final(self).cancelled,
            r matches KeyOutcome::Confirmed(t) ==> old(self).current_step == 4 && key
                == WizardKey::Enter && final(self).confirmed && t@ == toml_text(
                old(self).name_input@,
                java_versions()[old(self).java_selected as int].0,
                build_tools()[old(self).build_selected as int].0,
                deps_section(old(self).deps_selected@, 7),
            ),
            (old(self).current_step == 4 && key == WizardKey::Enter) ==> r is Confirmed,
            key == WizardKey::Right && old(self).current_step != 3 ==> r == KeyOutcome::Continue
                && final(self).current_step == if old(self).current_step < 4 {
                old(self).current_step + 1
            } else {
                old(self).current_step as int
            },
            key == WizardKey::Left && old(self).current_step != 3 && old(self).current_step != 4 ==> r
                == KeyOutcome::Continue && final(self).current_step == if old(self).current_step
                > 0 {
                old(self).current_step - 1
            } else {
                0
            },
    {
        match key {
            WizardKey::Char('q') | WizardKey::Esc | WizardKey::CtrlC => {
                self.cancelled = true;
                return KeyOutcome::Cancelled;
            },
            _ => {},
        }
        match Step::from_index(self.current_step) {
            Step::Name => match key {
                WizardKey::Right => self.next_step(),
                WizardKey::Left => self.prev_step(),
                WizardKey::Char(c) => {
                    let len = chars_of(self.name_input.as_str()).len();
                    if !char_is_control(c) && len < usize::MAX {
                        self.name_insert_char(c);
                    }
                },
                WizardKey::Backspace => self.name_delete_char(),
                WizardKey::Enter => {
                    let t = str_trim(self.name_input.as_str());
                    if !str_is_empty(t.as_str()) {
                        self.next_step();
                    }
                },
                _ => {},
            },
            Step::JavaVersion | Step::BuildTool => match key {
                WizardKey::Up | WizardKey::Char('k') => self.move_up(),
                WizardKey::Down | WizardKey::Char('j') => self.move_down(),
                WizardKey::Right => self.next_step(),
                WizardKey::Left => self.prev_step(),
                WizardKey::Enter => {
                    if self.current_step == 1 {
                        self.java_selected = self.step_cursor;
                    } else {
                        self.build_selected = self.step_cursor;
                    }
                    self.next_step();
                },
                _ => {},
            },
            Step::Dependencies => match key {
                WizardKey::Up | WizardKey::Char('k') => self.move_up(),
                WizardKey::Down | WizardKey::Char('j') => self.move_down(),
                WizardKey::Right | WizardKey::Enter => {
                    self.deps_cursor = self.step_cursor;
                    self.next_step();
                },
                WizardKey::Left => {
                    self.deps_cursor = self.step_cursor;
                    self.prev_step();
                },
                WizardKey::Char(' ') => self.toggle_dep(),
                _ => {},
            },
            Step::Preview => match key {
                WizardKey::Left => self.prev_step(),
                WizardKey::Enter => {
                    let content = self.build_jex_toml_content();
                    self.confirmed = true;
                    return KeyOutcome::Confirmed(content);
                },
                _ => {},
            },
        }
        KeyOutcome::Continue
    }
}

/// `char::is_control`.
pub fn char_is_control(c: char) -> (r: bool)
    ensures
        r == is_control(c),
{
    let u = c as u32;
    u <= 0x1f || (0x7f <= u && u <= 0x9f)
}

} // verus!
