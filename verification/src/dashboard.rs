//! The project health dashboard (`jex dashboard`): its tabs and panels,
//! what each key does, and the styled lines each tab shows.  A line is a
//! list of pieces of text, each with a tone and a weight; drawing them is
//! left to the terminal front end.

use vstd::prelude::*;
use crate::audit::{AuditReport, Severity, Vulnerability, get_fix_suggestion, fix_text, severity_name};
use crate::license_check::LicenseReport;
use crate::num::{decimal, usize_to_decimal};
use crate::outdated::OutdatedDep;
use crate::text::{owned, concat2, concat3, push_str};

verus! {

/// Colour of a piece of text (`Plain` keeps the terminal's own).
#[derive(Debug, Clone, Copy, PartialEq, Eq)]
pub enum Tone {
    Plain,
    Cyan,
    White,
    DarkGray,
    Green,
    Yellow,
    Red,
    Blue,
}

/// A piece of text in one tone, bold or not.
#[derive(Debug, Clone)]
pub struct Piece {
    pub text: String,
    pub tone: Tone,
    pub bold: bool,
}

/// What a piece shows: its text, tone and weight.
pub open spec fn piece_view(p: Piece) -> (Seq<char>, Tone, bool) {
    (p.text@, p.tone, p.bold)
}

/// What a line shows.
pub open spec fn line_view(l: Vec<Piece>) -> Seq<(Seq<char>, Tone, bool)> {
    l@.map_values(|p: Piece| piece_view(p))
}

/// What a list of lines shows.
pub open spec fn lines_view(ls: Seq<Vec<Piece>>) -> Seq<Seq<(Seq<char>, Tone, bool)>> {
    ls.map_values(|l: Vec<Piece>| line_view(l))
}

/// A line of one piece.
pub open spec fn one(text: Seq<char>, tone: Tone, bold: bool) -> Seq<(Seq<char>, Tone, bool)> {
    seq![(text, tone, bold)]
}

/// A line of two pieces, neither bold.
pub open spec fn two(a: Seq<char>, ta: Tone, b: Seq<char>, tb: Tone) -> Seq<(Seq<char>, Tone, bool)> {
    seq![(a, ta, false), (b, tb, false)]
}

/// An empty line.
pub open spec fn blank() -> Seq<(Seq<char>, Tone, bool)> {
    one(Seq::empty(), Tone::Plain, false)
}

pub(crate) fn piece(text: String, tone: Tone, bold: bool) -> (r: Piece)
    ensures
        piece_view(r) == (text@, tone, bold),
{
    Piece { text, tone, bold }
}

pub(crate) fn line1(text: String, tone: Tone, bold: bool) -> (r: Vec<Piece>)
    ensures
        line_view(r) == one(text@, tone, bold),
{
    let mut l: Vec<Piece> = Vec::new();
    l.push(piece(text, tone, bold));
    assert(line_view(l) =~= one(l@[0].text@, tone, bold));
    l
}

pub(crate) fn line2(a: String, ta: Tone, b: String, tb: Tone) -> (r: Vec<Piece>)
    ensures
        line_view(r) == two(a@, ta, b@, tb),
{
    let mut l: Vec<Piece> = Vec::new();
    l.push(piece(a, ta, false));
    l.push(piece(b, tb, false));
    assert(line_view(l) =~= two(l@[0].text@, ta, l@[1].text@, tb));
    l
}

pub(crate) fn blank_line() -> (r: Vec<Piece>)
    ensures
        line_view(r) == blank(),
{
    let r = line1(String::new(), Tone::Plain, false);
    proof {
        reveal_strlit("");
    }
    assert(line_view(r) =~= blank());
    r
}

/// Appends a line, keeping track of what the lines show.
pub(crate) fn push_line(out: &mut Vec<Vec<Piece>>, l: Vec<Piece>)
    ensures
        lines_view(final(out)@) == lines_view(old(out)@).push(line_view(l)),
{
    let ghost o0 = out@;
    out.push(l);
    assert(lines_view(out@) =~= lines_view(o0).push(line_view(out@.last())));
}

// ───────────────────────────── tabs and state ─────────────────────────────

/// The dashboard's tabs, in order.
#[derive(Debug, Clone, Copy, PartialEq, Eq)]
pub enum Tab {
    Overview,
    Outdated,
    Audit,
    License,
}

/// The tab at a navigation position (the last one beyond the end).
pub open spec fn tab_at(i: nat) -> Tab {
    if i == 0 {
        Tab::Overview
    } else if i == 1 {
        Tab::Outdated
    } else if i == 2 {
        Tab::Audit
    } else {
        Tab::License
    }
}

/// Title of a tab.
pub open spec fn tab_label(t: Tab) -> Seq<char> {
    match t {
        Tab::Overview => "项目概览"@,
        Tab::Outdated => "依赖更新"@,
        Tab::Audit => "安全审计"@,
        Tab::License => "许可证"@,
    }
}

impl Tab {
    /// The tab's title.
    pub fn label(&self) -> (r: &'static str)
        ensures
            r@ == tab_label(*self),
    {
        match self {
            Tab::Overview => "项目概览",
            Tab::Outdated => "依赖更新",
            Tab::Audit => "安全审计",
            Tab::License => "许可证",
        }
    }

    /// The tab at a navigation position, which must be one of the four.
    pub fn from_index(i: usize) -> (r: Tab)
        requires
            i < 4,
        ensures
            r == tab_at(i as nat),
    {
        if i == 0 {
            Tab::Overview
        } else if i == 1 {
            Tab::Outdated
        } else if i == 2 {
            Tab::Audit
        } else {
            Tab::License
        }
    }
}

/// The panel that has the focus.
#[derive(Debug, Clone, Copy, PartialEq, Eq, Structural)]
pub enum Panel {
    Navigation,
    Content,
}

/// What the dashboard shows: the project, and the results of the three
/// checks (or why each could not be made).
#[derive(Debug)]
pub struct DashboardData {
    pub project_name: String,
    pub dependency_count: usize,
    pub java_version: Option<String>,
    pub outdated: Option<Vec<OutdatedDep>>,
    pub outdated_error: Option<String>,
    pub audit_report: Option<AuditReport>,
    pub audit_error: Option<String>,
    pub license_report: Option<LicenseReport>,
    pub license_error: Option<String>,
}

impl DashboardData {
    /// Nothing read yet.
    pub fn new() -> (r: DashboardData)
        ensures
            r.project_name@ == "(未知)"@,
            r.dependency_count == 0,
            r.java_version is None,
            r.outdated is None && r.outdated_error is None,
            r.audit_report is None && r.audit_error is None,
            r.license_report is None && r.license_error is None,
    {
        DashboardData {
            project_name: owned("(未知)"),
            dependency_count: 0,
            java_version: None,
            outdated: None,
            outdated_error: None,
            audit_report: None,
            audit_error: None,
            license_report: None,
            license_error: None,
        }
    }

    /// Takes in what a refresh read: the project's name, Java version and
    /// number of dependencies (or the message of the error reading
    /// `jex.toml`), and each report (or its error's message).  A project
    /// without a name shows `(未命名)`; when `jex.toml` could not be read,
    /// only the name changes, to the error, and the Java version and the
    /// count stay as they were.  Each report replaces the old one and
    /// clears its error, or the error replaces it.
    pub fn refresh_with(
        &mut self,
        project: std::result::Result<(Option<String>, Option<String>, usize), String>,
        outdated: std::result::Result<Vec<OutdatedDep>, String>,
        audit: std::result::Result<AuditReport, String>,
        license: std::result::Result<LicenseReport, String>,
    )
        ensures
            match project {
                Ok((name, java, count)) => {
                    &&& final(self).project_name@ == match name {
                        Some(n) => n@,
                        None => "(未命名)"@,
                    }
                    &&& final(self).java_version == java
                    &&& final(self).dependency_count == count
                },
                Err(e) => {
                    &&& final(self).project_name@ == "读取失败: "@ + e@
                    &&& final(self).java_version == old(self).java_version
                    &&& final(self).dependency_count == old(self).dependency_count
                },
            },
            match outdated {
                Ok(v) => final(self).outdated == Some(v) && final(self).outdated_error is None,
                Err(e) => final(self).outdated is None && final(self).outdated_error == Some(e),
            },
            match audit {
                Ok(r) => final(self).audit_report == Some(r) && final(self).audit_error is None,
                Err(e) => final(self).audit_report is None && final(self).audit_error == Some(e),
            },
            match license {
                Ok(r) => final(self).license_report == Some(r) && final(self).license_error is None,
                Err(e) => final(self).license_report is None && final(self).license_error == Some(e),
            },
    {
        match project {
            Ok((name, java, count)) => {
                self.project_name = match name {
                    Some(n) => n,
                    None => owned("(未命名)"),
                };
                self.java_version = java;
                self.dependency_count = count;
            },
            Err(e) => {
                self.project_name = concat2("读取失败: ", e.as_str());
            },
        }
        match outdated {
            Ok(v) => {
                self.outdated = Some(v);
                self.outdated_error = None;
            },
            Err(e) => {
                self.outdated = None;
                self.outdated_error = Some(e);
            },
        }
        match audit {
            Ok(r) => {
                self.audit_report = Some(r);
                self.audit_error = None;
            },
            Err(e) => {
                self.audit_report = None;
                self.audit_error = Some(e);
            },
        }
        match license {
            Ok(r) => {
                self.license_report = Some(r);
                self.license_error = None;
            },
            Err(e) => {
                self.license_report = None;
                self.license_error = Some(e);
            },
        }
    }
}

/// Focus and positions of the dashboard.
#[derive(Debug, Clone, Copy, PartialEq, Eq)]
pub struct DashState {
    pub active_panel: Panel,
    pub nav_selected: usize,
    pub content_scroll: usize,
    pub show_help: bool,
}

/// A key, as the dashboard reads it.
#[derive(Debug, Clone, Copy, PartialEq, Eq)]
pub enum DashKey {
    Char(char),
    Esc,
    Tab,
    Up,
    Down,
    Home,
    End,
    PageUp,
    PageDown,
    Other,
}

/// What the front end does after a key.
#[derive(Debug, Clone, Copy, PartialEq, Eq)]
pub enum DashAction {
    /// Redraw.
    Continue,
    /// Read the data again, then redraw.
    Refresh,
    /// Leave the dashboard.
    Quit,
}

/// The state after a key.
pub open spec fn dash_next(o: DashState, key: DashKey) -> DashState {
    if o.show_help {
        DashState { show_help: false, ..o }
    } else {
        match key {
            DashKey::Char('?') => DashState { show_help: true, ..o },
            DashKey::Tab => DashState {
                active_panel: match o.active_panel {
                    Panel::Navigation => Panel::Content,
                    Panel::Content => Panel::Navigation,
                },
                ..o
            },
            DashKey::Up | DashKey::Char('k') => match o.active_panel {
                Panel::Navigation => if o.nav_selected > 0 {
                    DashState { nav_selected: (o.nav_selected - 1) as usize, content_scroll: 0, ..o }
                } else {
                    o
                },
                Panel::Content => DashState {
                    content_scroll: if o.content_scroll > 0 { (o.content_scroll - 1) as usize } else { 0 },
                    ..o
                },
            },
            DashKey::Down | DashKey::Char('j') => match o.active_panel {
                Panel::Navigation => if o.nav_selected < 3 {
                    DashState { nav_selected: (o.nav_selected + 1) as usize, content_scroll: 0, ..o }
                } else {
                    o
                },
                Panel::Content => DashState { content_scroll: (o.content_scroll + 1) as usize, ..o },
            },
            DashKey::Home => DashState { content_scroll: 0, ..o },
            DashKey::End => DashState { content_scroll: usize::MAX, ..o },
            DashKey::PageUp => DashState {
                content_scroll: if o.content_scroll >= 10 { (o.content_scroll - 10) as usize } else { 0 },
                ..o
            },
            DashKey::PageDown => DashState { content_scroll: (o.content_scroll + 10) as usize, ..o },
            _ => o,
        }
    }
}

/// What the front end does after a key.
pub open spec fn dash_action(o: DashState, key: DashKey) -> DashAction {
    if o.show_help {
        DashAction::Continue
    } else {
        match key {
            DashKey::Char('q') | DashKey::Esc => DashAction::Quit,
            DashKey::Char('r') => DashAction::Refresh,
            _ => DashAction::Continue,
        }
    }
}

impl DashState {
    /// The dashboard as it opens: navigation focused on the first tab.
    pub fn new() -> (r: DashState)
        ensures
            r.active_panel == Panel::Navigation,
            r.nav_selected == 0,
            r.content_scroll == 0,
            !r.show_help,
    {
        DashState { active_panel: Panel::Navigation, nav_selected: 0, content_scroll: 0, show_help: false }
    }

    /// The tab selected.
    pub fn current_tab(&self) -> (r: Tab)
        requires
            self.nav_selected < 4,
        ensures
            r == tab_at(self.nav_selected as nat),
    {
        Tab::from_index(self.nav_selected)
    }

    /// Selects the previous tab, at the top staying there; the content
    /// scrolls back to its start when the tab changes.
    pub fn nav_up(&mut self)
        ensures
            old(self).nav_selected > 0 ==> final(self).nav_selected == old(self).nav_selected - 1
                && final(self).content_scroll == 0,
            old(self).nav_selected == 0 ==> *final(self) == *old(self),
            final(self).active_panel == old(self).active_panel,
            final(self).show_help == old(self).show_help,
    {
        if self.nav_selected > 0 {
            self.nav_selected = self.nav_selected - 1;
            self.content_scroll = 0;
        }
    }

    /// Selects the next tab, at the last one staying there.
    pub fn nav_down(&mut self)
        ensures
            old(self).nav_selected + 1 < 4 ==> final(self).nav_selected == old(self).nav_selected + 1
                && final(self).content_scroll == 0,
            old(self).nav_selected + 1 >= 4 ==> *final(self) == *old(self),
            final(self).active_panel == old(self).active_panel,
            final(self).show_help == old(self).show_help,
    {
        if self.nav_selected < 3 {
            self.nav_selected = self.nav_selected + 1;
            self.content_scroll = 0;
        }
    }

    /// Scrolls the content up one line, stopping at the top.
    pub fn scroll_up(&mut self)
        ensures
            final(self).content_scroll == if old(self).content_scroll > 0 {
                (old(self).content_scroll - 1) as usize
            } else {
                0
            },
            final(self).nav_selected == old(self).nav_selected,
            final(self).active_panel == old(self).active_panel,
            final(self).show_help == old(self).show_help,
    {
        self.content_scroll = self.content_scroll.saturating_sub(1);
    }

    /// Scrolls the content down one line.
    pub fn scroll_down(&mut self)
        requires
            old(self).content_scroll < usize::MAX,
        ensures
            final(self).content_scroll == old(self).content_scroll + 1,
            final(self).nav_selected == old(self).nav_selected,
            final(self).active_panel == old(self).active_panel,
            final(self).show_help == old(self).show_help,
    {
        self.content_scroll = self.content_scroll + 1;
    }

    /// Moves the focus to the other panel.
    pub fn switch_panel(&mut self)
        ensures
            final(self).active_panel == match old(self).active_panel {
                Panel::Navigation => Panel::Content,
                Panel::Content => Panel::Navigation,
            },
            final(self).nav_selected == old(self).nav_selected,
            final(self).content_scroll == old(self).content_scroll,
            final(self).show_help == old(self).show_help,
    {
        self.active_panel = match self.active_panel {
            Panel::Navigation => Panel::Content,
            Panel::Content => Panel::Navigation,
        };
    }

    /// After the data is read again the content starts at its top.
    pub fn refresh_data(&mut self)
        ensures
            final(self).content_scroll == 0,
            final(self).nav_selected == old(self).nav_selected,
            final(self).active_panel == old(self).active_panel,
            final(self).show_help == old(self).show_help,
    {
        self.content_scroll = 0;
    }

    /// Handles one key press: any key closes the help; otherwise `q` and
    /// Esc quit, `?` opens the help, `r` asks for fresh data, Tab switches
    /// panels, the arrows (and `k`/`j`) move in the focused panel, and
    /// Home, End, PageUp and PageDown scroll the content.
    pub fn handle_key(&mut self, key: DashKey) -> (r: DashAction)
        requires
            old(self).nav_selected < 4,
            !old(self).show_help && (key == DashKey::Down || key == DashKey::Char('j'))
                && old(self).active_panel == Panel::Content ==> old(self).content_scroll < usize::MAX,
            !old(self).show_help && key == DashKey::PageDown ==> old(self).content_scroll <= usize::MAX
                - 10,
        ensures
            *final(self) == dash_next(*old(self), key),
            r == dash_action(*old(self), key),
            final(self).nav_selected < 4,
    {
        if self.show_help {
            self.show_help = false;
            return DashAction::Continue;
        }
        match key {
            DashKey::Char('q') | DashKey::Esc => DashAction::Quit,
            DashKey::Char('?') => {
                self.show_help = true;
                DashAction::Continue
            },
            DashKey::Char('r') => DashAction::Refresh,
            DashKey::Tab => {
                self.switch_panel();
                DashAction::Continue
            },
            DashKey::Up | DashKey::Char('k') => {
                match self.active_panel {
                    Panel::Navigation => self.nav_up(),
                    Panel::Content => self.scroll_up(),
                }
                DashAction::Continue
            },
            DashKey::Down | DashKey::Char('j') => {
                match self.active_panel {
                    Panel::Navigation => self.nav_down(),
                    Panel::Content => self.scroll_down(),
                }
                DashAction::Continue
            },
            DashKey::Home => {
                self.content_scroll = 0;
                DashAction::Continue
            },
            DashKey::End => {
                self.content_scroll = usize::MAX;
                DashAction::Continue
            },
            DashKey::PageUp => {
                self.content_scroll = self.content_scroll.saturating_sub(10);
                DashAction::Continue
            },
            DashKey::PageDown => {
                self.content_scroll = self.content_scroll + 10;
                DashAction::Continue
            },
            _ => DashAction::Continue,
        }
    }
}

// ───────────────────────────── shared pieces ─────────────────────────────

/// What a line shows.
pub type LineText = Seq<(Seq<char>, Tone, bool)>;

/// The lines from position `n` on (none when `n` is past the end).
pub open spec fn skip_lines(s: Seq<LineText>, n: nat) -> Seq<LineText> {
    if n >= s.len() {
        Seq::empty()
    } else {
        s.skip(n as int)
    }
}

/// The lines from position `n` on.
fn skip_exec(lines: Vec<Vec<Piece>>, n: usize) -> (r: Vec<Vec<Piece>>)
    ensures
        lines_view(r@) == skip_lines(lines_view(lines@), n as nat),
{
    let ghost s = lines_view(lines@);
    let len = lines.len();
    let mut out: Vec<Vec<Piece>> = Vec::new();
    let mut i: usize = 0;
    for x in it: lines.into_iter()
        invariant
            s == lines_view(it.seq()),
            s.len() == len,
            i == it.index(),
            i <= n ==> lines_view(out@) == Seq::<LineText>::empty(),
            i > n ==> lines_view(out@) == s.subrange(n as int, i as int),
    {
        if i >= n {
            let ghost o0 = lines_view(out@);
            out.push(x);
            assert(lines_view(out@) =~= o0.push(line_view(x)));
            assert(s[i as int] == line_view(x));
            assert(s.subrange(n as int, i + 1) =~= s.subrange(n as int, i as int).push(s[i as int]));
        }
        i += 1;
    }
    proof {
        if n < s.len() {
            assert(s.skip(n as int) =~= s.subrange(n as int, s.len() as int));
        }
    }
    out
}

/// Lines shown when a check's data could not be read.
pub open spec fn unavailable_text(err: Seq<char>, hint: Seq<char>) -> Seq<LineText> {
    seq![
        one(" ⚠ 数据不可用"@, Tone::Yellow, true),
        blank(),
        one("  "@ + err, Tone::DarkGray, false),
        blank(),
        one(hint, Tone::DarkGray, false),
    ]
}

fn unavailable_lines(err: &str, hint: &str) -> (r: Vec<Vec<Piece>>)
    ensures
        lines_view(r@) == unavailable_text(err@, hint@),
{
    let mut out: Vec<Vec<Piece>> = Vec::new();
    push_line(&mut out, line1(owned(" ⚠ 数据不可用"), Tone::Yellow, true));
    push_line(&mut out, blank_line());
    push_line(&mut out, line1(concat2("  ", err), Tone::DarkGray, false));
    push_line(&mut out, blank_line());
    push_line(&mut out, line1(owned(hint), Tone::DarkGray, false));
    assert(lines_view(out@) =~= unavailable_text(err@, hint@));
    out
}

/// Line shown while a check's data is not there yet.
pub open spec fn loading_text() -> Seq<LineText> {
    seq![one("  加载中..."@, Tone::DarkGray, false)]
}

fn loading_lines() -> (r: Vec<Vec<Piece>>)
    ensures
        lines_view(r@) == loading_text(),
{
    let mut out: Vec<Vec<Piece>> = Vec::new();
    push_line(&mut out, line1(owned("  加载中..."), Tone::DarkGray, false));
    assert(lines_view(out@) =~= loading_text());
    out
}

/// Green when nothing was found, else the given tone.
pub open spec fn count_tone(n: nat, found: Tone) -> Tone {
    if n > 0 {
        found
    } else {
        Tone::Green
    }
}

/// Hint shown when the dependency data could not be read.
pub open spec fn resolver_hint() -> Seq<char> {
    "  提示: 请确认 Coursier (cs) 已安装且网络可用"@
}

// ───────────────────────────── overview ─────────────────────────────

/// Number of outdated dependencies found (none when not read).
pub open spec fn outdated_count(d: DashboardData) -> nat {
    match d.outdated {
        Some(v) => v@.len(),
        None => 0,
    }
}

/// Number of vulnerabilities found (none when not read).
pub open spec fn vuln_count(d: DashboardData) -> nat {
    match d.audit_report {
        Some(r) => r.total_vulnerabilities as nat,
        None => 0,
    }
}

/// Number of dependencies with an incompatible license (none when not
/// read).
pub open spec fn incompatible_count(d: DashboardData) -> nat {
    match d.license_report {
        Some(r) => r.incompatible@.len(),
        None => 0,
    }
}

/// The overview tab.
pub open spec fn overview_text(d: DashboardData) -> Seq<LineText> {
    seq![
        one(" 项目概览"@, Tone::Cyan, true),
        blank(),
        two("  项目名称: "@, Tone::DarkGray, d.project_name@, Tone::White),
        two("  依赖数量: "@, Tone::DarkGray, decimal(d.dependency_count as nat), Tone::Green),
        two(
            "  Java 版本: "@,
            Tone::DarkGray,
            match d.java_version {
                Some(j) => j@,
                None => "未指定"@,
            },
            Tone::White,
        ),
        blank(),
        two(
            "  依赖更新: "@,
            Tone::DarkGray,
            decimal(outdated_count(d)) + " 个可更新"@,
            count_tone(outdated_count(d), Tone::Yellow),
        ),
        two(
            "  安全漏洞: "@,
            Tone::DarkGray,
            decimal(vuln_count(d)) + " 个"@,
            count_tone(vuln_count(d), Tone::Red),
        ),
        two(
            "  许可证:   "@,
            Tone::DarkGray,
            decimal(incompatible_count(d)) + " 个不兼容"@,
            count_tone(incompatible_count(d), Tone::Red),
        ),
    ]
}

/// The lines of the overview tab.
pub fn overview_lines(d: &DashboardData) -> (r: Vec<Vec<Piece>>)
    ensures
        lines_view(r@) == overview_text(*d),
{
    let mut out: Vec<Vec<Piece>> = Vec::new();
    push_line(&mut out, line1(owned(" 项目概览"), Tone::Cyan, true));
    push_line(&mut out, blank_line());
    push_line(&mut out, line2(owned("  项目名称: "), Tone::DarkGray, d.project_name.clone(), Tone::White));
    push_line(
        &mut out,
        line2(owned("  依赖数量: "), Tone::DarkGray, usize_to_decimal(d.dependency_count), Tone::Green),
    );
    let java = match &d.java_version {
        Some(j) => j.clone(),
        None => owned("未指定"),
    };
    push_line(&mut out, line2(owned("  Java 版本: "), Tone::DarkGray, java, Tone::White));
    push_line(&mut out, blank_line());
    let oc: usize = match &d.outdated {
        Some(v) => v.len(),
        None => 0,
    };
    let vc: usize = match &d.audit_report {
        Some(r) => r.total_vulnerabilities,
        None => 0,
    };
    let ic: usize = match &d.license_report {
        Some(r) => r.incompatible.len(),
        None => 0,
    };
    let ot = if oc > 0 {
        Tone::Yellow
    } else {
        Tone::Green
    };
    let vt = if vc > 0 {
        Tone::Red
    } else {
        Tone::Green
    };
    let it = if ic > 0 {
        Tone::Red
    } else {
        Tone::Green
    };
    push_line(
        &mut out,
        line2(owned("  依赖更新: "), Tone::DarkGray, concat2(usize_to_decimal(oc).as_str(), " 个可更新"), ot),
    );
    push_line(&mut out, line2(owned("  安全漏洞: "), Tone::DarkGray, concat2(usize_to_decimal(vc).as_str(), " 个"), vt));
    push_line(
        &mut out,
        line2(owned("  许可证:   "), Tone::DarkGray, concat2(usize_to_decimal(ic).as_str(), " 个不兼容"), it),
    );
    assert(lines_view(out@) =~= overview_text(*d));
    out
}

// ───────────────────────────── outdated ─────────────────────────────

/// Lines of one outdated dependency.
pub open spec fn outdated_entry(dep: OutdatedDep) -> Seq<LineText> {
    seq![
        two("  "@, Tone::Plain, dep.group@ + ":"@ + dep.artifact@, Tone::White),
        two("    "@, Tone::Plain, dep.current@ + " → "@ + dep.latest@, Tone::Cyan),
    ]
}

/// Lines of the outdated dependencies, in order.
pub open spec fn outdated_entries(ds: Seq<OutdatedDep>) -> Seq<LineText>
    decreases ds.len(),
{
    if ds.len() == 0 {
        Seq::empty()
    } else {
        outdated_entries(ds.drop_last()) + outdated_entry(ds.last())
    }
}

/// The outdated tab, scrolled down `scroll` lines where it is a list.
pub open spec fn outdated_text(d: DashboardData, scroll: nat) -> Seq<LineText> {
    match d.outdated_error {
        Some(e) => unavailable_text(e@, resolver_hint()),
        None => match d.outdated {
            Some(ds) => if ds@.len() == 0 {
                seq![one(" ✅ 所有依赖已是最新版本"@, Tone::Green, false)]
            } else {
                skip_lines(
                    seq![
                        one(" 找到 "@ + decimal(ds@.len()) + " 个可更新依赖"@, Tone::Yellow, true),
                        blank(),
                    ] + outdated_entries(ds@),
                    scroll,
                )
            },
            None => loading_text(),
        },
    }
}

/// The lines of the outdated tab.
pub fn outdated_lines(d: &DashboardData, scroll: usize) -> (r: Vec<Vec<Piece>>)
    ensures
        lines_view(r@) == outdated_text(*d, scroll as nat),
{
    match &d.outdated_error {
        Some(e) => {
            return unavailable_lines(e.as_str(), "  提示: 请确认 Coursier (cs) 已安装且网络可用");
        },
        None => {},
    }
    match &d.outdated {
        Some(ds) => {
            let mut out: Vec<Vec<Piece>> = Vec::new();
            if ds.len() == 0 {
                push_line(&mut out, line1(owned(" ✅ 所有依赖已是最新版本"), Tone::Green, false));
                assert(lines_view(out@) =~= outdated_text(*d, scroll as nat));
                return out;
            }
            push_line(
                &mut out,
                line1(concat3(" 找到 ", usize_to_decimal(ds.len()).as_str(), " 个可更新依赖"), Tone::Yellow, true),
            );
            push_line(&mut out, blank_line());
            let ghost head = lines_view(out@);
            let mut i: usize = 0;
            while i < ds.len()
                invariant
                    i <= ds@.len(),
                    lines_view(out@) == head + outdated_entries(ds@.take(i as int)),
                decreases ds@.len() - i,
            {
                let dep = &ds[i];
                assert(ds@.take(i + 1).drop_last() =~= ds@.take(i as int));
                assert(ds@.take(i + 1).last() == ds@[i as int]);
                let ghost o0 = lines_view(out@);
                push_line(&mut out, line2(owned("  "), Tone::Plain, concat3(dep.group.as_str(), ":", dep.artifact.as_str()), Tone::White));
                push_line(&mut out, line2(owned("    "), Tone::Plain, concat3(dep.current.as_str(), " → ", dep.latest.as_str()), Tone::Cyan));
                assert(lines_view(out@) =~= o0 + outdated_entry(*dep));
                i += 1;
            }
            assert(ds@.take(i as int) =~= ds@);
            skip_exec(out, scroll)
        },
        None => loading_lines(),
    }
}

// ───────────────────────────── audit ─────────────────────────────

/// Tone of a severity.
pub open spec fn severity_tone(s: Severity) -> Tone {
    match s {
        Severity::Critical => Tone::Red,
        Severity::High => Tone::Red,
        Severity::Medium => Tone::Yellow,
        Severity::Low => Tone::Green,
    }
}

/// Lines of one vulnerability: its severity and id, its description, the
/// fix where one is known, and an empty line.
pub open spec fn vuln_entry(v: Vulnerability) -> Seq<LineText> {
    seq![
        seq![
            ("  "@, Tone::Plain, false),
            (severity_name(v.severity), severity_tone(v.severity), false),
            (" ["@ + v.cve_id@ + "] "@ + v.group@ + ":"@ + v.artifact@, Tone::White, false),
        ],
        one("    "@ + v.description@, Tone::DarkGray, false),
    ] + match v.fixed_version {
        Some(f) => seq![one("    修复: "@ + fix_text(v, f@), Tone::Cyan, false)],
        None => Seq::empty(),
    } + seq![blank()]
}

/// Lines of the vulnerabilities, in order.
pub open spec fn vuln_entries(vs: Seq<Vulnerability>) -> Seq<LineText>
    decreases vs.len(),
{
    if vs.len() == 0 {
        Seq::empty()
    } else {
        vuln_entries(vs.drop_last()) + vuln_entry(vs.last())
    }
}

/// Line of two counts with their labels, in one tone each.
pub open spec fn counts_line(a: Seq<char>, na: nat, ta: Tone, b: Seq<char>, nb: nat, tb: Tone) -> LineText {
    seq![(a, ta, false), (decimal(na), ta, false), (b, tb, false), (decimal(nb), tb, false)]
}

/// The audit tab, scrolled down `scroll` lines where it is a list.
pub open spec fn audit_text(d: DashboardData, scroll: nat) -> Seq<LineText> {
    match d.audit_error {
        Some(e) => unavailable_text(e@, "  提示: 请确认网络可访问 OSV 数据库"@),
        None => match d.audit_report {
            Some(r) => if r.total_vulnerabilities == 0 {
                seq![one(" ✅ 未发现安全漏洞"@, Tone::Green, false)]
            } else {
                skip_lines(
                    seq![
                        one(" 发现 "@ + decimal(r.total_vulnerabilities as nat) + " 个安全漏洞"@, Tone::Red, true),
                        blank(),
                        counts_line("  CRITICAL: "@, r.critical as nat, Tone::Red, "  HIGH: "@, r.high as nat, Tone::Red),
                        counts_line("  MEDIUM:   "@, r.medium as nat, Tone::Yellow, "  LOW:      "@, r.low as nat, Tone::Green),
                        blank(),
                    ] + vuln_entries(r.vulnerabilities@),
                    scroll,
                )
            },
            None => loading_text(),
        },
    }
}

fn counts_exec(a: &str, na: usize, ta: Tone, b: &str, nb: usize, tb: Tone) -> (r: Vec<Piece>)
    ensures
        line_view(r) == counts_line(a@, na as nat, ta, b@, nb as nat, tb),
{
    let mut l: Vec<Piece> = Vec::new();
    l.push(piece(owned(a), ta, false));
    l.push(piece(usize_to_decimal(na), ta, false));
    l.push(piece(owned(b), tb, false));
    l.push(piece(usize_to_decimal(nb), tb, false));
    assert(line_view(l) =~= counts_line(a@, na as nat, ta, b@, nb as nat, tb));
    l
}

fn vuln_exec(out: &mut Vec<Vec<Piece>>, v: &Vulnerability)
    ensures
        lines_view(final(out)@) == lines_view(old(out)@) + vuln_entry(*v),
{
    let ghost o0 = lines_view(out@);
    let tone = match v.severity {
        Severity::Critical => Tone::Red,
        Severity::High => Tone::Red,
        Severity::Medium => Tone::Yellow,
        Severity::Low => Tone::Green,
    };
    let mut head: Vec<Piece> = Vec::new();
    head.push(piece(owned("  "), Tone::Plain, false));
    head.push(piece(owned(v.severity.display()), tone, false));
    let mut id = concat3(" [", v.cve_id.as_str(), "] ");
    push_str(&mut id, v.group.as_str());
    push_str(&mut id, ":");
    push_str(&mut id, v.artifact.as_str());
    head.push(piece(id, Tone::White, false));
    assert(tone == severity_tone(v.severity));
    assert(line_view(head) =~= seq![
        ("  "@, Tone::Plain, false),
        (severity_name(v.severity), severity_tone(v.severity), false),
        (" ["@ + v.cve_id@ + "] "@ + v.group@ + ":"@ + v.artifact@, Tone::White, false),
    ]);
    push_line(out, head);
    push_line(out, line1(concat2("    ", v.description.as_str()), Tone::DarkGray, false));
    let ghost o1 = lines_view(out@);
    let ghost fix_part = if v.fixed_version is Some {
        seq![one("    修复: "@ + fix_text(*v, v.fixed_version->0@), Tone::Cyan, false)]
    } else {
        Seq::<LineText>::empty()
    };
    match get_fix_suggestion(v) {
        Some(fix) => {
            push_line(out, line1(concat2("    修复: ", fix.as_str()), Tone::Cyan, false));
        },
        None => {},
    }
    assert(lines_view(out@) =~= o1 + fix_part);
    push_line(out, blank_line());
    assert(lines_view(out@) =~= o0 + vuln_entry(*v));
}

/// The lines of the audit tab.
pub fn audit_lines(d: &DashboardData, scroll: usize) -> (r: Vec<Vec<Piece>>)
    ensures
        lines_view(r@) == audit_text(*d, scroll as nat),
{
    match &d.audit_error {
        Some(e) => {
            return unavailable_lines(e.as_str(), "  提示: 请确认网络可访问 OSV 数据库");
        },
        None => {},
    }
    match &d.audit_report {
        Some(r) => {
            let mut out: Vec<Vec<Piece>> = Vec::new();
            if r.total_vulnerabilities == 0 {
                push_line(&mut out, line1(owned(" ✅ 未发现安全漏洞"), Tone::Green, false));
                assert(lines_view(out@) =~= audit_text(*d, scroll as nat));
                return out;
            }
            push_line(
                &mut out,
                line1(concat3(" 发现 ", usize_to_decimal(r.total_vulnerabilities).as_str(), " 个安全漏洞"), Tone::Red, true),
            );
            push_line(&mut out, blank_line());
            push_line(&mut out, counts_exec("  CRITICAL: ", r.critical, Tone::Red, "  HIGH: ", r.high, Tone::Red));
            push_line(&mut out, counts_exec("  MEDIUM:   ", r.medium, Tone::Yellow, "  LOW:      ", r.low, Tone::Green));
            push_line(&mut out, blank_line());
            let ghost head = lines_view(out@);
            let vs = &r.vulnerabilities;
            let mut i: usize = 0;
            while i < vs.len()
                invariant
                    i <= vs@.len(),
                    lines_view(out@) == head + vuln_entries(vs@.take(i as int)),
                decreases vs@.len() - i,
            {
                assert(vs@.take(i + 1).drop_last() =~= vs@.take(i as int));
                assert(vs@.take(i + 1).last() == vs@[i as int]);
                let ghost o0 = lines_view(out@);
                vuln_exec(&mut out, &vs[i]);
                assert(lines_view(out@) =~= head + vuln_entries(vs@.take(i + 1)));
                i += 1;
            }
            assert(vs@.take(i as int) =~= vs@);
            skip_exec(out, scroll)
        },
        None => loading_lines(),
    }
}

// ───────────────────────────── licenses ─────────────────────────────

/// Lines listing dependencies, each with a mark, in one tone.
pub open spec fn marked_lines(deps: Seq<String>, mark: Seq<char>, tone: Tone) -> Seq<LineText> {
    deps.map_values(|x: String| one(mark + x@, tone, false))
}

/// The license tab, scrolled down `scroll` lines.
pub open spec fn license_text(d: DashboardData, scroll: nat) -> Seq<LineText> {
    match d.license_error {
        Some(e) => unavailable_text(e@, resolver_hint()),
        None => match d.license_report {
            Some(r) => {
                let c = r.compatible@.len();
                let i = r.incompatible@.len();
                let u = r.unknown@.len();
                skip_lines(
                    seq![
                        one(" 许可证合规性报告"@, Tone::Cyan, true),
                        blank(),
                        two("  总计:   "@, Tone::DarkGray, decimal(c + i + u) + " 个依赖"@, Tone::White),
                        two("  兼容:   "@, Tone::DarkGray, decimal(c) + " 个"@, Tone::Green),
                        two("  不兼容: "@, Tone::DarkGray, decimal(i) + " 个"@, Tone::Red),
                        two("  未知:   "@, Tone::DarkGray, decimal(u) + " 个"@, Tone::Yellow),
                    ] + (if i > 0 {
                        seq![blank(), one(" 不兼容的依赖:"@, Tone::Red, true)] + marked_lines(
                            r.incompatible@,
                            "  ❌ "@,
                            Tone::Red,
                        )
                    } else {
                        Seq::empty()
                    }) + (if u > 0 {
                        seq![blank(), one(" 未知许可证:"@, Tone::Yellow, true)] + marked_lines(
                            r.unknown@,
                            "  ❓ "@,
                            Tone::Yellow,
                        )
                    } else {
                        Seq::empty()
                    }),
                    scroll,
                )
            },
            None => loading_text(),
        },
    }
}

fn marked_exec(out: &mut Vec<Vec<Piece>>, deps: &Vec<String>, mark: &str, tone: Tone)
    ensures
        lines_view(final(out)@) == lines_view(old(out)@) + marked_lines(deps@, mark@, tone),
{
    let ghost o0 = lines_view(out@);
    let mut i: usize = 0;
    while i < deps.len()
        invariant
            i <= deps@.len(),
            lines_view(out@) == o0 + marked_lines(deps@.take(i as int), mark@, tone),
        decreases deps@.len() - i,
    {
        let ghost o1 = lines_view(out@);
        push_line(out, line1(concat2(mark, deps[i].as_str()), tone, false));
        assert(marked_lines(deps@.take(i + 1), mark@, tone) =~= marked_lines(deps@.take(i as int), mark@, tone).push(
            one(mark@ + deps@[i as int]@, tone, false),
        ));
        assert(lines_view(out@) =~= o0 + marked_lines(deps@.take(i + 1), mark@, tone));
        i += 1;
    }
    assert(deps@.take(i as int) =~= deps@);
}

/// The lines of the license tab.
pub fn license_lines(d: &DashboardData, scroll: usize) -> (r: Vec<Vec<Piece>>)
    requires
        d.license_report matches Some(r) ==> r.compatible@.len() + r.incompatible@.len()
            + r.unknown@.len() <= usize::MAX,
    ensures
        lines_view(r@) == license_text(*d, scroll as nat),
{
    match &d.license_error {
        Some(e) => {
            return unavailable_lines(e.as_str(), "  提示: 请确认 Coursier (cs) 已安装且网络可用");
        },
        None => {},
    }
    match &d.license_report {
        Some(r) => {
            let c = r.compatible.len();
            let i = r.incompatible.len();
            let u = r.unknown.len();
            let mut out: Vec<Vec<Piece>> = Vec::new();
            push_line(&mut out, line1(owned(" 许可证合规性报告"), Tone::Cyan, true));
            push_line(&mut out, blank_line());
            push_line(&mut out, line2(owned("  总计:   "), Tone::DarkGray, concat2(usize_to_decimal(c + i + u).as_str(), " 个依赖"), Tone::White));
            push_line(&mut out, line2(owned("  兼容:   "), Tone::DarkGray, concat2(usize_to_decimal(c).as_str(), " 个"), Tone::Green));
            push_line(&mut out, line2(owned("  不兼容: "), Tone::DarkGray, concat2(usize_to_decimal(i).as_str(), " 个"), Tone::Red));
            push_line(&mut out, line2(owned("  未知:   "), Tone::DarkGray, concat2(usize_to_decimal(u).as_str(), " 个"), Tone::Yellow));
            let ghost head = lines_view(out@);
            if i > 0 {
                push_line(&mut out, blank_line());
                push_line(&mut out, line1(owned(" 不兼容的依赖:"), Tone::Red, true));
                marked_exec(&mut out, &r.incompatible, "  ❌ ", Tone::Red);
            }
            let ghost mid = lines_view(out@);
            if u > 0 {
                push_line(&mut out, blank_line());
                push_line(&mut out, line1(owned(" 未知许可证:"), Tone::Yellow, true));
                marked_exec(&mut out, &r.unknown, "  ❓ ", Tone::Yellow);
            }
            let ghost full = lines_view(out@);
            proof {
                let sec_i = if i > 0 {
                    seq![blank(), one(" 不兼容的依赖:"@, Tone::Red, true)] + marked_lines(r.incompatible@, "  ❌ "@, Tone::Red)
                } else {
                    Seq::<LineText>::empty()
                };
                let sec_u = if u > 0 {
                    seq![blank(), one(" 未知许可证:"@, Tone::Yellow, true)] + marked_lines(r.unknown@, "  ❓ "@, Tone::Yellow)
                } else {
                    Seq::<LineText>::empty()
                };
                assert(mid =~= head + sec_i);
                assert(full =~= head + sec_i + sec_u);
            }
            skip_exec(out, scroll)
        },
        None => loading_lines(),
    }
}

// ───────────────────────────── frame ─────────────────────────────

/// Status mark of a tab in the navigation: whether its check found
/// something (`!` when its data is missing).
pub open spec fn tab_indicator(t: Tab, d: DashboardData) -> Seq<char> {
    match t {
        Tab::Overview => Seq::empty(),
        Tab::Outdated => match d.outdated {
            Some(v) => if v@.len() > 0 {
                " ⚠"@
            } else {
                " ✓"@
            },
            None => " !"@,
        },
        Tab::Audit => match d.audit_report {
            Some(r) => if r.total_vulnerabilities > 0 {
                " 🔴"@
            } else {
                " 🟢"@
            },
            None => " !"@,
        },
        Tab::License => match d.license_report {
            Some(r) => if r.incompatible@.len() > 0 {
                " ⚠"@
            } else {
                " ✓"@
            },
            None => " !"@,
        },
    }
}

/// The navigation entry at position `i`: highlighted when selected
/// (yellow when the navigation has the focus), grey otherwise.
pub open spec fn nav_item(st: DashState, d: DashboardData, i: nat) -> LineText {
    let text = "  "@ + tab_label(tab_at(i)) + tab_indicator(tab_at(i), d);
    if i == st.nav_selected && st.active_panel == Panel::Navigation {
        one(text, Tone::Yellow, true)
    } else if i == st.nav_selected {
        one(text, Tone::White, true)
    } else {
        one(text, Tone::DarkGray, false)
    }
}

fn indicator_exec(t: Tab, d: &DashboardData) -> (r: &'static str)
    ensures
        r@ == tab_indicator(t, *d),
{
    proof {
        reveal_strlit("");
    }
    match t {
        Tab::Overview => "",
        Tab::Outdated => match &d.outdated {
            Some(v) => if v.len() > 0 {
                " ⚠"
            } else {
                " ✓"
            },
            None => " !",
        },
        Tab::Audit => match &d.audit_report {
            Some(r) => if r.total_vulnerabilities > 0 {
                " 🔴"
            } else {
                " 🟢"
            },
            None => " !",
        },
        Tab::License => match &d.license_report {
            Some(r) => if r.incompatible.len() > 0 {
                " ⚠"
            } else {
                " ✓"
            },
            None => " !",
        },
    }
}

/// The four navigation entries.
pub fn nav_lines(st: &DashState, d: &DashboardData) -> (r: Vec<Vec<Piece>>)
    ensures
        lines_view(r@) == Seq::new(4, |i: int| nav_item(*st, *d, i as nat)),
{
    let mut out: Vec<Vec<Piece>> = Vec::new();
    let mut i: usize = 0;
    while i < 4
        invariant
            i <= 4,
            lines_view(out@) == Seq::new(i as nat, |k: int| nav_item(*st, *d, k as nat)),
        decreases 4 - i,
    {
        let t = Tab::from_index(i);
        let text = concat3("  ", t.label(), indicator_exec(t, d));
        let l = if i == st.nav_selected && st.active_panel == Panel::Navigation {
            line1(text, Tone::Yellow, true)
        } else if i == st.nav_selected {
            line1(text, Tone::White, true)
        } else {
            line1(text, Tone::DarkGray, false)
        };
        let ghost o0 = lines_view(out@);
        push_line(&mut out, l);
        assert(lines_view(out@) =~= Seq::new((i + 1) as nat, |k: int| nav_item(*st, *d, k as nat)));
        i += 1;
    }
    out
}

/// Tone of a panel's border: its own when focused, grey otherwise.
pub open spec fn border_tone(focused: bool, own: Tone) -> Tone {
    if focused {
        own
    } else {
        Tone::DarkGray
    }
}

/// Border tones of the navigation and content panels.
pub fn border_tones(st: &DashState) -> (r: (Tone, Tone))
    ensures
        r.0 == border_tone(st.active_panel == Panel::Navigation, Tone::Yellow),
        r.1 == border_tone(st.active_panel == Panel::Content, Tone::Cyan),
{
    match st.active_panel {
        Panel::Navigation => (Tone::Yellow, Tone::DarkGray),
        Panel::Content => (Tone::DarkGray, Tone::Cyan),
    }
}

/// Title of the content panel: the selected tab's name, padded.
pub fn content_title(st: &DashState) -> (r: String)
    requires
        st.nav_selected < 4,
    ensures
        r@ == " "@ + tab_label(tab_at(st.nav_selected as nat)) + " "@,
{
    concat3(" ", st.current_tab().label(), " ")
}

/// The content of the selected tab.
pub open spec fn content_text(st: DashState, d: DashboardData) -> Seq<LineText> {
    match tab_at(st.nav_selected as nat) {
        Tab::Overview => overview_text(d),
        Tab::Outdated => outdated_text(d, st.content_scroll as nat),
        Tab::Audit => audit_text(d, st.content_scroll as nat),
        Tab::License => license_text(d, st.content_scroll as nat),
    }
}

/// The lines of the selected tab.
pub fn content_lines(st: &DashState, d: &DashboardData) -> (r: Vec<Vec<Piece>>)
    requires
        st.nav_selected < 4,
        d.license_report matches Some(r) ==> r.compatible@.len() + r.incompatible@.len()
            + r.unknown@.len() <= usize::MAX,
    ensures
        lines_view(r@) == content_text(*st, *d),
{
    match st.current_tab() {
        Tab::Overview => overview_lines(d),
        Tab::Outdated => outdated_lines(d, st.content_scroll),
        Tab::Audit => audit_lines(d, st.content_scroll),
        Tab::License => license_lines(d, st.content_scroll),
    }
}

/// Text of the status bar.
pub open spec fn status_text(st: DashState) -> Seq<char> {
    if st.show_help {
        " Tab:切换面板  ↑↓:导航  r:刷新  q:退出  ?:帮助 "@
    } else {
        " "@ + (match st.active_panel {
            Panel::Navigation => "[导航]"@,
            Panel::Content => "[内容]"@,
        }) + " jex dashboard | Tab:切换  ↑↓:导航  r:刷新  q:退出  ?:帮助 "@
    }
}

/// The status bar's text.
pub fn status_line(st: &DashState) -> (r: String)
    ensures
        r@ == status_text(*st),
{
    if st.show_help {
        owned(" Tab:切换面板  ↑↓:导航  r:刷新  q:退出  ?:帮助 ")
    } else {
        let hint = match st.active_panel {
            Panel::Navigation => "[导航]",
            Panel::Content => "[内容]",
        };
        concat3(" ", hint, " jex dashboard | Tab:切换  ↑↓:导航  r:刷新  q:退出  ?:帮助 ")
    }
}

/// A help line: a key in cyan and what it does.
pub open spec fn help_entry(key: Seq<char>, what: Seq<char>) -> LineText {
    two(key, Tone::Cyan, what, Tone::Plain)
}

/// The help overlay.
pub open spec fn help_text() -> Seq<LineText> {
    seq![
        one("  jex dashboard 帮助"@, Tone::Yellow, true),
        blank(),
        help_entry("  Tab"@, "      切换导航/内容面板"@),
        help_entry("  ↑ / k"@, "      向上移动"@),
        help_entry("  ↓ / j"@, "      向下移动"@),
        help_entry("  r"@, "        刷新数据"@),
        help_entry("  q / Esc"@, "     退出仪表盘"@),
        blank(),
        one("  按任意键关闭帮助"@, Tone::DarkGray, false),
    ]
}

/// The lines of the help overlay.
pub fn help_lines() -> (r: Vec<Vec<Piece>>)
    ensures
        lines_view(r@) == help_text(),
{
    let mut out: Vec<Vec<Piece>> = Vec::new();
    push_line(&mut out, line1(owned("  jex dashboard 帮助"), Tone::Yellow, true));
    push_line(&mut out, blank_line());
    push_line(&mut out, line2(owned("  Tab"), Tone::Cyan, owned("      切换导航/内容面板"), Tone::Plain));
    push_line(&mut out, line2(owned("  ↑ / k"), Tone::Cyan, owned("      向上移动"), Tone::Plain));
    push_line(&mut out, line2(owned("  ↓ / j"), Tone::Cyan, owned("      向下移动"), Tone::Plain));
    push_line(&mut out, line2(owned("  r"), Tone::Cyan, owned("        刷新数据"), Tone::Plain));
    push_line(&mut out, line2(owned("  q / Esc"), Tone::Cyan, owned("     退出仪表盘"), Tone::Plain));
    push_line(&mut out, blank_line());
    push_line(&mut out, line1(owned("  按任意键关闭帮助"), Tone::DarkGray, false));
    assert(lines_view(out@) =~= help_text());
    out
}

} // verus!
