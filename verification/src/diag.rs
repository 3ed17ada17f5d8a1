//! JVM diagnostics: the structure of `jcmd Thread.print` output and the
//! `jstat -gcutil` table header.

use vstd::prelude::*;
use crate::num::parse_unsigned;
use crate::text::{
    chars_of, contains, digit_run, digit_run_end, find, find_seq, lines, lines_seq, owned,
    pad_left, pad_left_exec, push_char, push_str, rfind_char, seq_contains, seq_rfind_char,
    skip_ws, string_of, trim, trim_bounds, trim_start, views, concat2, concat3, pad_right,
    pad_right_exec,
};
use crate::num::{parse_u32_seq, decimal, u64_to_decimal, usize_to_decimal};

verus! {

/// One thread of a thread dump.
#[derive(Debug, Clone)]
pub struct ThreadInfo {
    pub name: String,
    pub id: u32,
    pub daemon: bool,
    pub state: ThreadState,
    pub priority: u32,
}

/// `java.lang.Thread.State` of a thread.
#[derive(Debug, Clone, PartialEq)]
pub enum ThreadState {
    Runnable,
    Blocked,
    Waiting,
    TimedWaiting,
    Sleeping,
    Unknown(String),
}

/// Totals over a thread dump.
#[derive(Debug, Clone)]
pub struct ThreadSnapshot {
    pub threads: Vec<ThreadInfo>,
    pub total: usize,
    pub daemon_count: usize,
    pub blocked_count: usize,
    pub deadlock_detected: bool,
    pub deadlock_threads: Vec<String>,
}

/// The state that `jcmd` prints as `t` (after trimming).
pub open spec fn state_matches(st: ThreadState, t: Seq<char>) -> bool {
    let k = trim(t);
    match st {
        ThreadState::Runnable => k == "RUNNABLE"@,
        ThreadState::Blocked => k == "BLOCKED"@,
        ThreadState::Waiting => k == "WAITING"@,
        ThreadState::TimedWaiting => k == "TIMED_WAITING"@,
        ThreadState::Sleeping => k == "SLEEPING"@,
        ThreadState::Unknown(u) => u@ == k && k != "RUNNABLE"@ && k != "BLOCKED"@ && k
            != "WAITING"@ && k != "TIMED_WAITING"@ && k != "SLEEPING"@,
    }
}

impl ThreadState {
    /// The status light shown beside a thread.
    pub fn symbol(&self) -> (r: &str)
        ensures
            r@ == (match self {
                ThreadState::Runnable => "🟢"@,
                ThreadState::Blocked => "🔴"@,
                ThreadState::Waiting | ThreadState::TimedWaiting => "🟡"@,
                ThreadState::Sleeping => "🔵"@,
                ThreadState::Unknown(_) => "⚪"@,
            }),
    {
        match self {
            ThreadState::Runnable => "🟢",
            ThreadState::Blocked => "🔴",
            ThreadState::Waiting | ThreadState::TimedWaiting => "🟡",
            ThreadState::Sleeping => "🔵",
            ThreadState::Unknown(_) => "⚪",
        }
    }

    /// The state's name as the JVM prints it.
    pub fn label(&self) -> (r: &str)
        ensures
            r@ == (match self {
                ThreadState::Runnable => "RUNNABLE"@,
                ThreadState::Blocked => "BLOCKED"@,
                ThreadState::Waiting => "WAITING"@,
                ThreadState::TimedWaiting => "TIMED_WAITING"@,
                ThreadState::Sleeping => "SLEEPING"@,
                ThreadState::Unknown(s) => s@,
            }),
    {
        match self {
            ThreadState::Runnable => "RUNNABLE",
            ThreadState::Blocked => "BLOCKED",
            ThreadState::Waiting => "WAITING",
            ThreadState::TimedWaiting => "TIMED_WAITING",
            ThreadState::Sleeping => "SLEEPING",
            ThreadState::Unknown(s) => s.as_str(),
        }
    }

    /// The state named by `jcmd`'s text `s`.
    pub fn from_jcmd(s: &str) -> (r: ThreadState)
        ensures
            state_matches(r, s@),
    {
        let v = chars_of(s);
        let (a, b) = trim_bounds(&v, 0, v.len());
        assert(v@.subrange(0, v@.len() as int) =~= v@);
        let k = string_of(&v, a, b);
        let kv = chars_of(k.as_str());
        if crate::text::seq_eq(&kv, &chars_of("RUNNABLE")) {
            ThreadState::Runnable
        } else if crate::text::seq_eq(&kv, &chars_of("BLOCKED")) {
            ThreadState::Blocked
        } else if crate::text::seq_eq(&kv, &chars_of("WAITING")) {
            ThreadState::Waiting
        } else if crate::text::seq_eq(&kv, &chars_of("TIMED_WAITING")) {
            ThreadState::TimedWaiting
        } else if crate::text::seq_eq(&kv, &chars_of("SLEEPING")) {
            ThreadState::Sleeping
        } else {
            ThreadState::Unknown(k)
        }
    }
}

// ─── the structure of a thread dump ───

/// The marker line of a deadlock report.
pub open spec fn deadlock_marker() -> Seq<char> {
    "Found one Java-level deadlock"@
}

/// The key before a thread's state.
pub open spec fn state_key() -> Seq<char> {
    "java.lang.Thread.State: "@
}

/// A (left-trimmed) line that opens a thread: it starts with `"`.
pub open spec fn is_header(l: Seq<char>) -> bool {
    l.len() > 0 && l[0] == '"'
}

/// The quoted thread name of a header line.
pub open spec fn thread_name(l: Seq<char>) -> Seq<char> {
    let st = l.drop_first();
    match find(st, "\""@) {
        Some(q) => st.subrange(0, q),
        None => Seq::empty(),
    }
}

/// The number after `key` in `l` (its leading digits), or `default` when
/// `key` is absent or the digits do not form a `u32`.
pub open spec fn number_after(l: Seq<char>, key: Seq<char>, default: nat) -> nat {
    match find(l, key) {
        Some(p) => {
            let rest = l.skip(p + key.len());
            match parse_unsigned(rest.take(digit_run(rest)), u32::MAX as nat) {
                Some(v) => v,
                None => default,
            }
        },
        None => default,
    }
}

/// The state text of the thread whose header is line `i`: what follows the
/// state key on the first of the next nine lines that holds it.
pub open spec fn state_text(ls: Seq<Seq<char>>, i: int, j: int) -> Option<Seq<char>>
    decreases ls.len() - j,
{
    if j >= ls.len() || j >= i + 10 || j < 0 {
        None
    } else {
        let t = trim(ls[j]);
        match find(t, state_key()) {
            Some(p) => Some(t.skip(p + state_key().len())),
            None => state_text(ls, i, j + 1),
        }
    }
}

/// What a thread dump says of the thread whose header is line `i`.
pub open spec fn thread_matches(t: ThreadInfo, ls: Seq<Seq<char>>, i: int) -> bool {
    let l = trim_start(ls[i]);
    &&& t.name@ == thread_name(l)
    &&& t.id == number_after(l, "#"@, 0)
    &&& t.daemon == contains(l, " daemon "@)
    &&& t.priority == number_after(l, "prio="@, 5)
    &&& match state_text(ls, i, i + 1) {
        Some(s) => state_matches(t.state, s),
        None => t.state matches ThreadState::Unknown(u) && u@ == "UNKNOWN"@,
    }
}

/// Scan of a thread dump from line `i`: the header lines, whether a deadlock
/// is reported, and the threads named in the deadlock report.
pub open spec fn scan(ls: Seq<Seq<char>>, i: int, in_deadlock: bool) -> (
    Seq<int>,
    bool,
    Seq<Seq<char>>,
)
    decreases ls.len() - i,
{
    if i >= ls.len() || i < 0 {
        (Seq::empty(), false, Seq::empty())
    } else {
        let l = trim_start(ls[i]);
        if contains(l, deadlock_marker()) {
            let r = scan(ls, i + 1, true);
            (r.0, true, r.2)
        } else if in_deadlock {
            if is_header(l) {
                let r = scan(ls, i + 1, true);
                match rfind_char(l, '"') {
                    Some(q) => if q > 0 {
                        (r.0, r.1, seq![l.subrange(1, q)] + r.2)
                    } else {
                        r
                    },
                    None => r,
                }
            } else if l.len() == 0 {
                scan(ls, i + 1, false)
            } else {
                scan(ls, i + 1, true)
            }
        } else if is_header(l) {
            let r = scan(ls, i + 1, false);
            (seq![i] + r.0, r.1, r.2)
        } else {
            scan(ls, i + 1, false)
        }
    }
}

/// Number of daemon threads.
pub open spec fn count_daemon(ts: Seq<ThreadInfo>) -> nat
    decreases ts.len(),
{
    if ts.len() == 0 {
        0
    } else {
        count_daemon(ts.drop_last()) + (if ts.last().daemon {
            1nat
        } else {
            0nat
        })
    }
}

/// Number of blocked threads.
pub open spec fn count_blocked(ts: Seq<ThreadInfo>) -> nat
    decreases ts.len(),
{
    if ts.len() == 0 {
        0
    } else {
        count_blocked(ts.drop_last()) + (if ts.last().state is Blocked {
            1nat
        } else {
            0nat
        })
    }
}

/// The number that follows `key` in `l`, or `default`.
fn number_after_exec(l: &Vec<char>, key: &str, default: u32) -> (r: u32)
    ensures
        r as nat == number_after(l@, key@, default as nat),
{
    let kv = chars_of(key);
    match find_seq(l, &kv) {
        Some(p) => {
            let ll = l.len();
            assert(p + kv@.len() <= ll);
            let from = p + kv.len();
            let end = digit_run_end(l, from);
            let ghost rest = l@.skip(from as int);
            assert(rest.take(digit_run(rest)) =~= l@.subrange(from as int, end as int));
            match parse_u32_seq(l, from, end) {
                Some(v) => v,
                None => default,
            }
        },
        None => default,
    }
}

/// Searches lines `j..` (up to `i + 10`) for the thread state.
fn find_state(ls: &Vec<Vec<char>>, i: usize) -> (r: Option<String>)
    requires
        i < ls@.len(),
    ensures
        match r {
            Some(s) => state_text(ls@.map_values(|v: Vec<char>| v@), i as int, i + 1) == Some(s@),
            None => state_text(ls@.map_values(|v: Vec<char>| v@), i as int, i + 1) is None,
        },
{
    let ghost lv = ls@.map_values(|v: Vec<char>| v@);
    let end = if ls.len() - i > 10 {
        i + 10
    } else {
        ls.len()
    };
    let key = chars_of("java.lang.Thread.State: ");
    let mut j = i + 1;
    while j < end
        invariant
            i < ls@.len(),
            lv == ls@.map_values(|v: Vec<char>| v@),
            end as int == (if i + 10 < ls@.len() {
                i + 10
            } else {
                ls@.len() as int
            }),
            i + 1 <= j,
            j <= end || j == i + 1,
            key@ == state_key(),
            state_text(lv, i as int, i + 1) == state_text(lv, i as int, j as int),
        decreases end - j,
    {
        let line = &ls[j];
        assert(lv[j as int] == line@);
        let (a, b) = trim_bounds(line, 0, line.len());
        assert(line@.subrange(0, line@.len() as int) =~= line@);
        let t = {
            let s = string_of(line, a, b);
            chars_of(s.as_str())
        };
        match find_seq(&t, &key) {
            Some(p) => {
                let from = p + key.len();
                assert(t@.skip(from as int) =~= t@.subrange(from as int, t@.len() as int));
                return Some(string_of(&t, from, t.len()));
            },
            None => {},
        }
        j += 1;
    }
    None
}

/// Parses the output of `jcmd <pid> Thread.print`.
pub fn parse_threads_output(output: &str) -> (r: ThreadSnapshot)
    ensures
        ({
            let ls = lines(output@);
            let sc = scan(ls, 0, false);
            &&& r.threads@.len() == sc.0.len()
            &&& forall|k: int|
                0 <= k < sc.0.len() ==> thread_matches(#[trigger] r.threads@[k], ls, sc.0[k])
            &&& r.deadlock_detected == sc.1
            &&& views(r.deadlock_threads@) == sc.2
            &&& r.total == r.threads@.len()
            &&& r.daemon_count == count_daemon(r.threads@)
            &&& r.blocked_count == count_blocked(r.threads@)
        }),
{
    let ls_s = lines_seq(&chars_of(output));
    let ghost ls = views(ls_s@);
    let mut ls_v: Vec<Vec<char>> = Vec::new();
    let mut m: usize = 0;
    while m < ls_s.len()
        invariant
            m <= ls_s@.len(),
            ls_v@.len() == m,
            forall|k: int| 0 <= k < m ==> (#[trigger] ls_v@[k])@ == ls_s@[k]@,
        decreases ls_s@.len() - m,
    {
        ls_v.push(chars_of(ls_s[m].as_str()));
        m += 1;
    }
    let ghost lv = ls_v@.map_values(|v: Vec<char>| v@);
    assert(lv =~= ls);
    let mut threads: Vec<ThreadInfo> = Vec::new();
    let mut deadlock_detected = false;
    let mut deadlock_threads: Vec<String> = Vec::new();
    let mut in_deadlock = false;
    let ghost mut hdrs: Seq<int> = Seq::empty();
    let marker = chars_of("Found one Java-level deadlock");
    let daemon_key = chars_of(" daemon ");
    let mut i: usize = 0;
    assert(views(deadlock_threads@) =~= Seq::<Seq<char>>::empty());
    assert(hdrs + scan(ls, 0, false).0 =~= scan(ls, 0, false).0);
    assert(Seq::<Seq<char>>::empty() + scan(ls, 0, false).2 =~= scan(ls, 0, false).2);
    while i < ls_v.len()
        invariant
            i <= ls_v@.len(),
            ls_v@.len() == ls.len(),
            lv == ls_v@.map_values(|v: Vec<char>| v@),
            lv == ls,
            ls == lines(output@),
            marker@ == deadlock_marker(),
            daemon_key@ == " daemon "@,
            hdrs + scan(ls, i as int, in_deadlock).0 == scan(ls, 0, false).0,
            (deadlock_detected || scan(ls, i as int, in_deadlock).1) == scan(ls, 0, false).1,
            views(deadlock_threads@) + scan(ls, i as int, in_deadlock).2 == scan(ls, 0, false).2,
            threads@.len() == hdrs.len(),
            forall|k: int|
                0 <= k < hdrs.len() ==> thread_matches(#[trigger] threads@[k], ls, hdrs[k]),
        decreases ls_v@.len() - i,
    {
        let raw = &ls_v[i];
        assert(lv[i as int] == raw@);
        let a = skip_ws(raw, 0, raw.len());
        assert(raw@.subrange(0, raw@.len() as int) =~= raw@);
        let line = {
            let s = string_of(raw, a, raw.len());
            chars_of(s.as_str())
        };
        assert(line@ == trim_start(ls[i as int]));
        let ghost r_next_t = scan(ls, i + 1, true);
        let ghost r_next_f = scan(ls, i + 1, false);
        if seq_contains(&line, &marker) {
            deadlock_detected = true;
            in_deadlock = true;
            i += 1;
            continue;
        }
        if in_deadlock {
            if line.len() > 0 && line[0] == '"' {
                match seq_rfind_char(&line, '"') {
                    Some(q) => {
                        if q > 0 {
                            let name = string_of(&line, 1, q);
                            let ghost old_dl = views(deadlock_threads@);
                            deadlock_threads.push(name);
                            assert(views(deadlock_threads@) =~= old_dl + seq![
                                line@.subrange(1, q as int),
                            ]);
                            assert(old_dl + (seq![line@.subrange(1, q as int)] + r_next_t.2)
                                =~= views(deadlock_threads@) + r_next_t.2);
                        }
                    },
                    None => {},
                }
            } else if line.len() == 0 {
                in_deadlock = false;
            }
            i += 1;
            continue;
        }
        if line.len() > 0 && line[0] == '"' {
            let mut name = String::new();
            let mut e: usize = 1;
            let ghost st = line@.drop_first();
            let q = {
                let stv = {
                    let s = string_of(&line, 1, line.len());
                    chars_of(s.as_str())
                };
                assert(stv@ =~= st);
                let quote = chars_of("\"");
                let f = find_seq(&stv, &quote);
                match f {
                    Some(qq) => {
                        name = string_of(&stv, 0, qq);
                    },
                    None => {
                        assert(name@ =~= Seq::<char>::empty());
                    },
                }
                f
            };
            let id = number_after_exec(&line, "#", 0);
            let daemon = seq_contains(&line, &daemon_key);
            let priority = number_after_exec(&line, "prio=", 5);
            let state = match find_state(&ls_v, i) {
                Some(s) => ThreadState::from_jcmd(s.as_str()),
                None => ThreadState::Unknown(owned("UNKNOWN")),
            };
            let info = ThreadInfo { name, id, daemon, state, priority };
            assert(thread_matches(info, ls, i as int));
            let ghost old_hdrs = hdrs;
            threads.push(info);
            proof {
                hdrs = hdrs.push(i as int);
                assert(old_hdrs + (seq![i as int] + r_next_f.0) =~= hdrs + r_next_f.0);
                assert forall|k: int| 0 <= k < hdrs.len() implies thread_matches(
                    #[trigger] threads@[k],
                    ls,
                    hdrs[k],
                ) by {
                    if k < old_hdrs.len() {
                        assert(hdrs[k] == old_hdrs[k]);
                    }
                }
            }
        }
        i += 1;
    }
    let total = threads.len();
    let mut daemon_count: usize = 0;
    let mut blocked_count: usize = 0;
    let mut k: usize = 0;
    assert(threads@.subrange(0, 0) =~= Seq::<ThreadInfo>::empty());
    while k < threads.len()
        invariant
            k <= threads@.len(),
            daemon_count == count_daemon(threads@.subrange(0, k as int)),
            blocked_count == count_blocked(threads@.subrange(0, k as int)),
            daemon_count <= k,
            blocked_count <= k,
        decreases threads@.len() - k,
    {
        assert(threads@.subrange(0, k + 1).drop_last() =~= threads@.subrange(0, k as int));
        if threads[k].daemon {
            daemon_count += 1;
        }
        if matches!(threads[k].state, ThreadState::Blocked) {
            blocked_count += 1;
        }
        k += 1;
    }
    assert(threads@.subrange(0, threads@.len() as int) =~= threads@);
    ThreadSnapshot {
        threads,
        total,
        daemon_count,
        blocked_count,
        deadlock_detected,
        deadlock_threads,
    }
}

/// The column titles of a `jstat -gcutil` table.
pub open spec fn gc_header_spec() -> Seq<char> {
    pad_left("S0%"@, 6) + " "@ + pad_left("S1%"@, 6) + " "@ + pad_left("Eden%"@, 6) + " "@
        + pad_left("Old%"@, 6) + " "@ + pad_left("Meta%"@, 6) + " "@ + pad_left("CCS%"@, 6) + " "@
        + pad_left("YGC"@, 5) + " "@ + pad_left("YGCT"@, 7) + " "@ + pad_left("FGC"@, 4) + " "@
        + pad_left("FGCT"@, 7) + " "@ + pad_left("GCT"@, 7)
}

/// The header line of the GC table.
pub fn gc_table_header() -> (r: String)
    ensures
        r@ == gc_header_spec(),
{
    let mut s = pad_left_exec("S0%", 6);
    push_str(&mut s, " ");
    push_str(&mut s, pad_left_exec("S1%", 6).as_str());
    push_str(&mut s, " ");
    push_str(&mut s, pad_left_exec("Eden%", 6).as_str());
    push_str(&mut s, " ");
    push_str(&mut s, pad_left_exec("Old%", 6).as_str());
    push_str(&mut s, " ");
    push_str(&mut s, pad_left_exec("Meta%", 6).as_str());
    push_str(&mut s, " ");
    push_str(&mut s, pad_left_exec("CCS%", 6).as_str());
    push_str(&mut s, " ");
    push_str(&mut s, pad_left_exec("YGC", 5).as_str());
    push_str(&mut s, " ");
    push_str(&mut s, pad_left_exec("YGCT", 7).as_str());
    push_str(&mut s, " ");
    push_str(&mut s, pad_left_exec("FGC", 4).as_str());
    push_str(&mut s, " ");
    push_str(&mut s, pad_left_exec("FGCT", 7).as_str());
    push_str(&mut s, " ");
    push_str(&mut s, pad_left_exec("GCT", 7).as_str());
    s
}

// ─── thread report ───

/// What std's `Debug` prints for a list of strings (`["a", "b"]`, with
/// each string escaped).
pub uninterp spec fn debug_list(items: Seq<Seq<char>>) -> Seq<char>;

/// `format!("{:?}", names)` on a list of strings.
#[verifier::external_body]
fn debug_strings(names: &Vec<String>) -> (r: String)
    ensures
        r@ == debug_list(views(names@)),
{
    format!("{:?}", names)
}

/// The name the JVM prints for a state.
pub open spec fn state_label(st: ThreadState) -> Seq<char> {
    match st {
        ThreadState::Runnable => "RUNNABLE"@,
        ThreadState::Blocked => "BLOCKED"@,
        ThreadState::Waiting => "WAITING"@,
        ThreadState::TimedWaiting => "TIMED_WAITING"@,
        ThreadState::Sleeping => "SLEEPING"@,
        ThreadState::Unknown(s) => s@,
    }
}

/// The report's groups of threads: blocked, runnable, waiting (timed or
/// not) and the others.
pub open spec fn in_group(st: ThreadState, g: int) -> bool {
    if g == 0 {
        st is Blocked
    } else if g == 1 {
        st is Runnable
    } else if g == 2 {
        st is Waiting || st is TimedWaiting
    } else {
        st is Sleeping || st is Unknown
    }
}

/// The report line of a thread; waiting and other threads show their
/// state.
pub open spec fn thread_line(t: ThreadInfo, with_state: bool) -> Seq<char> {
    "  "@ + t.name@ + " #"@ + decimal(t.id as nat) + (if with_state {
        " "@ + state_label(t.state)
    } else {
        Seq::empty()
    }) + " (prio="@ + decimal(t.priority as nat) + ")"@ + (if t.daemon {
        " [daemon]"@
    } else {
        Seq::empty()
    })
}

/// The threads of group `g`, in order.
pub open spec fn group_of(ts: Seq<ThreadInfo>, g: int) -> Seq<ThreadInfo>
    decreases ts.len(),
{
    if ts.len() == 0 {
        Seq::empty()
    } else if in_group(ts.last().state, g) {
        group_of(ts.drop_last(), g).push(ts.last())
    } else {
        group_of(ts.drop_last(), g)
    }
}

/// Heading of group `g`.
pub open spec fn group_title(g: int) -> Seq<char> {
    if g == 0 {
        "🔴 BLOCKED"@
    } else if g == 1 {
        "🟢 RUNNABLE"@
    } else if g == 2 {
        "🟡 WAITING"@
    } else {
        "⚪ OTHER"@
    }
}

/// The section of group `g`: none when it is empty, else an empty line,
/// its heading with the count, and its threads.
pub open spec fn group_section(ts: Seq<ThreadInfo>, g: int) -> Seq<Seq<char>> {
    let m = group_of(ts, g);
    if m.len() == 0 {
        Seq::empty()
    } else {
        seq![Seq::<char>::empty(), group_title(g) + " ("@ + decimal(m.len()) + ")"@] + m.map_values(
            |t: ThreadInfo| thread_line(t, g >= 2),
        )
    }
}

/// The lines that `jex diag threads` prints for a thread dump.
pub open spec fn threads_report(s: ThreadSnapshot) -> Seq<Seq<char>> {
    seq![
        "线程统计:"@,
        "  总线程数: "@ + decimal(s.total as nat),
        "  守护线程: "@ + decimal(s.daemon_count as nat),
    ] + (if s.blocked_count > 0 {
        seq!["  ⚠️  BLOCKED: "@ + decimal(s.blocked_count as nat)]
    } else {
        Seq::empty()
    }) + (if s.deadlock_detected {
        seq!["  🔴 检测到死锁! 涉及线程: "@ + debug_list(views(s.deadlock_threads@))]
    } else {
        seq!["  死锁检测: ✅ 无"@]
    }) + seq![Seq::<char>::empty(), "详细信息:"@] + group_section(s.threads@, 0) + group_section(
        s.threads@,
        1,
    ) + group_section(s.threads@, 2) + group_section(s.threads@, 3)
}

fn in_group_exec(st: &ThreadState, g: usize) -> (r: bool)
    ensures
        r == in_group(*st, g as int),
{
    match st {
        ThreadState::Blocked => g == 0,
        ThreadState::Runnable => g == 1,
        ThreadState::Waiting | ThreadState::TimedWaiting => g == 2,
        _ => g >= 3,
    }
}

fn thread_line_exec(t: &ThreadInfo, with_state: bool) -> (r: String)
    ensures
        r@ == thread_line(*t, with_state),
{
    let mut s = concat3("  ", t.name.as_str(), " #");
    push_str(&mut s, u64_to_decimal(t.id as u64).as_str());
    if with_state {
        push_str(&mut s, " ");
        push_str(&mut s, t.state.label());
    }
    push_str(&mut s, " (prio=");
    push_str(&mut s, u64_to_decimal(t.priority as u64).as_str());
    push_str(&mut s, ")");
    if t.daemon {
        push_str(&mut s, " [daemon]");
    }
    proof {
        reveal_strlit("");
    }
    s
}

fn push_group(out: &mut Vec<String>, ts: &Vec<ThreadInfo>, g: usize)
    requires
        g < 4,
    ensures
        views(final(out)@) == views(old(out)@) + group_section(ts@, g as int),
{
    let ghost o0 = views(out@);
    let mut lines: Vec<String> = Vec::new();
    let mut i: usize = 0;
    while i < ts.len()
        invariant
            i <= ts@.len(),
            g < 4,
            lines@.len() == group_of(ts@.take(i as int), g as int).len(),
            views(lines@) == group_of(ts@.take(i as int), g as int).map_values(
                |t: ThreadInfo| thread_line(t, g >= 2),
            ),
            lines@.len() <= i,
        decreases ts@.len() - i,
    {
        assert(ts@.take(i + 1).drop_last() =~= ts@.take(i as int));
        assert(ts@.take(i + 1).last() == ts@[i as int]);
        if in_group_exec(&ts[i].state, g) {
            let ghost l0 = views(lines@);
            lines.push(thread_line_exec(&ts[i], g >= 2));
            assert(group_of(ts@.take(i + 1), g as int) == group_of(ts@.take(i as int), g as int).push(
                ts@[i as int],
            ));
            assert(views(lines@) =~= l0.push(thread_line(ts@[i as int], g >= 2)));
            assert(group_of(ts@.take(i + 1), g as int).map_values(|t: ThreadInfo| thread_line(t, g >= 2))
                =~= group_of(ts@.take(i as int), g as int).map_values(
                |t: ThreadInfo| thread_line(t, g >= 2),
            ).push(thread_line(ts@[i as int], g >= 2)));
            assert(views(lines@) =~= group_of(ts@.take(i + 1), g as int).map_values(
                |t: ThreadInfo| thread_line(t, g >= 2),
            ));
        }
        i += 1;
    }
    assert(ts@.take(i as int) =~= ts@);
    if lines.len() > 0 {
        out.push(String::new());
        let title = if g == 0 {
            "🔴 BLOCKED"
        } else if g == 1 {
            "🟢 RUNNABLE"
        } else if g == 2 {
            "🟡 WAITING"
        } else {
            "⚪ OTHER"
        };
        let mut h = concat3(title, " (", usize_to_decimal(lines.len()).as_str());
        push_str(&mut h, ")");
        out.push(h);
        let ghost o1 = views(out@);
        let ghost lv = views(lines@);
        out.append(&mut lines);
        assert(views(out@) =~= o1 + lv);
        proof {
            reveal_strlit("");
        }
        assert(views(out@) =~= o0 + group_section(ts@, g as int));
    } else {
        assert(views(out@) =~= o0 + group_section(ts@, g as int));
    }
}

/// The lines of the thread report for a dump.
pub fn threads_report_lines(s: &ThreadSnapshot) -> (r: Vec<String>)
    ensures
        views(r@) == threads_report(*s),
{
    let mut out: Vec<String> = Vec::new();
    out.push(owned("线程统计:"));
    out.push(concat2("  总线程数: ", usize_to_decimal(s.total).as_str()));
    out.push(concat2("  守护线程: ", usize_to_decimal(s.daemon_count).as_str()));
    if s.blocked_count > 0 {
        out.push(concat2("  ⚠️  BLOCKED: ", usize_to_decimal(s.blocked_count).as_str()));
    }
    if s.deadlock_detected {
        out.push(concat2("  🔴 检测到死锁! 涉及线程: ", debug_strings(&s.deadlock_threads).as_str()));
    } else {
        out.push(owned("  死锁检测: ✅ 无"));
    }
    out.push(String::new());
    out.push(owned("详细信息:"));
    let ghost head = views(out@);
    proof {
        reveal_strlit("");
        assert(head =~= seq![
            "线程统计:"@,
            "  总线程数: "@ + decimal(s.total as nat),
            "  守护线程: "@ + decimal(s.daemon_count as nat),
        ] + (if s.blocked_count > 0 {
            seq!["  ⚠️  BLOCKED: "@ + decimal(s.blocked_count as nat)]
        } else {
            Seq::empty()
        }) + (if s.deadlock_detected {
            seq!["  🔴 检测到死锁! 涉及线程: "@ + debug_list(views(s.deadlock_threads@))]
        } else {
            seq!["  死锁检测: ✅ 无"@]
        }) + seq![Seq::<char>::empty(), "详细信息:"@]);
    }
    push_group(&mut out, &s.threads, 0);
    push_group(&mut out, &s.threads, 1);
    push_group(&mut out, &s.threads, 2);
    push_group(&mut out, &s.threads, 3);
    assert(views(out@) =~= threads_report(*s));
    out
}

// ─── thread monitor frame ───

/// ANSI escapes of the terminal monitor.
pub open spec fn esc_reset() -> Seq<char> { "\x1b[0m"@ }
pub open spec fn esc_bold() -> Seq<char> { "\x1b[1m"@ }
pub open spec fn esc_cyan() -> Seq<char> { "\x1b[36m"@ }

/// Colour escape of a thread state in the monitor.
pub open spec fn state_color(st: ThreadState) -> Seq<char> {
    match st {
        ThreadState::Runnable => "\x1b[32m"@,
        ThreadState::Blocked => "\x1b[31m"@,
        ThreadState::Waiting | ThreadState::TimedWaiting => "\x1b[33m"@,
        ThreadState::Sleeping => "\x1b[34m"@,
        ThreadState::Unknown(_) => "\x1b[90m"@,
    }
}

/// Status light of a thread state.
pub open spec fn state_symbol(st: ThreadState) -> Seq<char> {
    match st {
        ThreadState::Runnable => "🟢"@,
        ThreadState::Blocked => "🔴"@,
        ThreadState::Waiting | ThreadState::TimedWaiting => "🟡"@,
        ThreadState::Sleeping => "🔵"@,
        ThreadState::Unknown(_) => "⚪"@,
    }
}

/// One row of the monitor's thread table.
pub open spec fn monitor_row(t: ThreadInfo) -> Seq<char> {
    state_color(t.state) + state_symbol(t.state) + esc_reset() + " "@ + pad_right(t.name@, 30) + " "@
        + pad_right("#"@ + decimal(t.id as nat), 8) + " "@ + pad_right(
        if t.daemon {
            "✔"@
        } else {
            Seq::empty()
        },
        6,
    ) + " "@ + pad_right(decimal(t.priority as nat), 6) + esc_reset() + "\n"@
}

/// The rows of the first threads, in order.
pub open spec fn monitor_rows(ts: Seq<ThreadInfo>) -> Seq<char>
    decreases ts.len(),
{
    if ts.len() == 0 {
        Seq::empty()
    } else {
        monitor_rows(ts.drop_last()) + monitor_row(ts.last())
    }
}

/// `n` empty lines.
pub open spec fn newlines(n: nat) -> Seq<char> {
    Seq::new(n, |i: int| '\n')
}

/// Rows of the table that fit a terminal of `rows` lines.
pub open spec fn table_rows(rows: nat) -> nat {
    if rows >= 8 {
        (rows - 8) as nat
    } else {
        0
    }
}

/// Title line of the thread monitor.
pub open spec fn frame_title(pid: nat, total: nat) -> Seq<char> {
    "\x1b[2J\x1b[H"@ + esc_cyan() + esc_bold() + "╔══ JVM 线程信息 (PID: "@ + decimal(pid) + ") — 共 "@
        + decimal(total) + " 个线程 ══╗"@ + esc_reset() + "\n"@ + "\n"@
}

/// Column titles of the monitor's table.
pub open spec fn table_header() -> Seq<char> {
    "\x1b[33m"@ + esc_bold() + pad_right("状态"@, 4) + " "@ + pad_right("线程名"@, 30) + " "@
        + pad_right("ID"@, 8) + " "@ + pad_right("守护"@, 6) + " "@ + pad_right("优先级"@, 6)
        + esc_reset() + "\n"@
}

/// Status bar of the monitor.
pub open spec fn monitor_status(s: ThreadSnapshot) -> Seq<char> {
    esc_cyan() + esc_bold() + "╔══════════════════════════════════════════════════════════════════╗"@ + esc_reset() + "\n"@ + esc_cyan() + esc_bold() + " q "@
        + "\x1b[37;41m"@ + esc_reset() + " 退出  守护线程: "@ + decimal(s.daemon_count as nat) + (
    if s.blocked_count > 0 {
        " ⚠️ BLOCKED: "@ + decimal(s.blocked_count as nat)
    } else {
        Seq::empty()
    }) + (if s.deadlock_detected {
        " 🔴 死锁!"@
    } else {
        Seq::empty()
    }) + esc_reset() + esc_cyan() + esc_bold() + "╚══════════════════════════════════════════════════════════════════╝"@ + esc_reset() + "\n"@
}

/// Number of threads the table shows.
pub open spec fn shown_count(s: ThreadSnapshot, rows: nat) -> nat {
    if s.threads@.len() < table_rows(rows) {
        s.threads@.len()
    } else {
        table_rows(rows)
    }
}

/// The frame the thread monitor draws for a terminal of `rows` lines:
/// the title, then (once a dump was read) the table of as many threads as
/// fit, blank lines up to the bottom, and the status bar.
pub open spec fn threads_frame_text(pid: nat, snap: Option<ThreadSnapshot>, rows: nat) -> Seq<char> {
    frame_title(
        pid,
        match snap {
            Some(s) => s.total as nat,
            None => 0,
        },
    ) + match snap {
        None => Seq::empty(),
        Some(s) => table_header() + monitor_rows(s.threads@.take(shown_count(s, rows) as int))
            + newlines((table_rows(rows) - shown_count(s, rows)) as nat) + monitor_status(s),
    }
}

fn monitor_row_exec(t: &ThreadInfo) -> (r: String)
    ensures
        r@ == monitor_row(*t),
{
    let color = match &t.state {
        ThreadState::Runnable => "\x1b[32m",
        ThreadState::Blocked => "\x1b[31m",
        ThreadState::Waiting | ThreadState::TimedWaiting => "\x1b[33m",
        ThreadState::Sleeping => "\x1b[34m",
        ThreadState::Unknown(_) => "\x1b[90m",
    };
    let mut s = concat3(color, t.state.symbol(), "\x1b[0m");
    push_str(&mut s, " ");
    push_str(&mut s, pad_right_exec(t.name.as_str(), 30).as_str());
    push_str(&mut s, " ");
    let id = concat2("#", u64_to_decimal(t.id as u64).as_str());
    push_str(&mut s, pad_right_exec(id.as_str(), 8).as_str());
    push_str(&mut s, " ");
    let d = if t.daemon {
        "✔"
    } else {
        ""
    };
    push_str(&mut s, pad_right_exec(d, 6).as_str());
    push_str(&mut s, " ");
    push_str(&mut s, pad_right_exec(u64_to_decimal(t.priority as u64).as_str(), 6).as_str());
    push_str(&mut s, "\x1b[0m");
    push_str(&mut s, "\n");
    proof {
        reveal_strlit("");
    }
    s
}

fn frame_title_exec(pid: u32, total: usize) -> (r: String)
    ensures
        r@ == frame_title(pid as nat, total as nat),
{
    let mut out = owned("\x1b[2J\x1b[H\x1b[36m\x1b[1m╔══ JVM 线程信息 (PID: ");
    push_str(&mut out, u64_to_decimal(pid as u64).as_str());
    push_str(&mut out, ") — 共 ");
    push_str(&mut out, usize_to_decimal(total).as_str());
    push_str(&mut out, " 个线程 ══╗\x1b[0m\n\n");
    proof {
        reveal_strlit("\x1b[2J\x1b[H\x1b[36m\x1b[1m╔══ JVM 线程信息 (PID: ");
        reveal_strlit("\x1b[2J\x1b[H");
        reveal_strlit("\x1b[36m");
        reveal_strlit("\x1b[1m");
        reveal_strlit("╔══ JVM 线程信息 (PID: ");
        reveal_strlit(" 个线程 ══╗\x1b[0m\n\n");
        reveal_strlit(" 个线程 ══╗");
        reveal_strlit("\x1b[0m");
        reveal_strlit("\n");
    }
    assert(out@ =~= frame_title(pid as nat, total as nat));
    out
}

fn table_header_exec() -> (r: String)
    ensures
        r@ == table_header(),
{
    let mut body = owned("\x1b[33m\x1b[1m");
    push_str(&mut body, pad_right_exec("状态", 4).as_str());
    push_str(&mut body, " ");
    push_str(&mut body, pad_right_exec("线程名", 30).as_str());
    push_str(&mut body, " ");
    push_str(&mut body, pad_right_exec("ID", 8).as_str());
    push_str(&mut body, " ");
    push_str(&mut body, pad_right_exec("守护", 6).as_str());
    push_str(&mut body, " ");
    push_str(&mut body, pad_right_exec("优先级", 6).as_str());
    push_str(&mut body, "\x1b[0m\n");
    proof {
        reveal_strlit("\x1b[33m\x1b[1m");
        reveal_strlit("\x1b[33m");
        reveal_strlit("\x1b[1m");
        reveal_strlit("\x1b[0m\n");
        reveal_strlit("\x1b[0m");
        reveal_strlit("\n");
    }
    assert(body@ =~= table_header());
    body
}

fn monitor_status_exec(s: &ThreadSnapshot) -> (r: String)
    ensures
        r@ == monitor_status(*s),
{
    let mut body = owned("\x1b[36m\x1b[1m╔══════════════════════════════════════════════════════════════════╗\x1b[0m\n");
    push_str(&mut body, "\x1b[36m\x1b[1m q \x1b[37;41m\x1b[0m 退出  守护线程: ");
    push_str(&mut body, usize_to_decimal(s.daemon_count).as_str());
    if s.blocked_count > 0 {
        push_str(&mut body, " ⚠️ BLOCKED: ");
        push_str(&mut body, usize_to_decimal(s.blocked_count).as_str());
    }
    if s.deadlock_detected {
        push_str(&mut body, " 🔴 死锁!");
    }
    push_str(&mut body, "\x1b[0m\x1b[36m\x1b[1m╚══════════════════════════════════════════════════════════════════╝\x1b[0m\n");
    proof {
        reveal_strlit("\x1b[36m\x1b[1m╔══════════════════════════════════════════════════════════════════╗\x1b[0m\n");
        reveal_strlit("\x1b[36m");
        reveal_strlit("\x1b[1m");
        reveal_strlit("╔══════════════════════════════════════════════════════════════════╗");
        reveal_strlit("\x1b[0m");
        reveal_strlit("\n");
        reveal_strlit("\x1b[36m\x1b[1m q \x1b[37;41m\x1b[0m 退出  守护线程: ");
        reveal_strlit(" q ");
        reveal_strlit("\x1b[37;41m");
        reveal_strlit(" 退出  守护线程: ");
        reveal_strlit("\x1b[0m\x1b[36m\x1b[1m╚══════════════════════════════════════════════════════════════════╝\x1b[0m\n");
        reveal_strlit("╚══════════════════════════════════════════════════════════════════╝");
        reveal_strlit("");
    }
    assert(body@ =~= monitor_status(*s));
    body
}

/// The frame the thread monitor draws.
pub fn threads_frame(pid: u32, snapshot: Option<&ThreadSnapshot>, rows: u16) -> (r: String)
    ensures
        r@ == threads_frame_text(
            pid as nat,
            match snapshot {
                Some(s) => Some(*s),
                None => None,
            },
            rows as nat,
        ),
{
    let total: usize = match snapshot {
        Some(s) => s.total,
        None => 0,
    };
    let mut out = frame_title_exec(pid, total);
    match snapshot {
        None => {
            assert(out@ =~= threads_frame_text(pid as nat, None, rows as nat));
            out
        },
        Some(s) => {
            let ghost title = out@;
            let max: usize = if rows >= 8 {
                (rows - 8) as usize
            } else {
                0
            };
            let shown: usize = if s.threads.len() < max {
                s.threads.len()
            } else {
                max
            };
            let mut body = table_header_exec();
            let ghost head = body@;
            let mut i: usize = 0;
            while i < shown
                invariant
                    i <= shown,
                    shown <= s.threads@.len(),
                    body@ == head + monitor_rows(s.threads@.take(i as int)),
                decreases shown - i,
            {
                assert(s.threads@.take(i + 1).drop_last() =~= s.threads@.take(i as int));
                assert(s.threads@.take(i + 1).last() == s.threads@[i as int]);
                push_str(&mut body, monitor_row_exec(&s.threads[i]).as_str());
                i += 1;
            }
            let ghost rows_done = body@;
            let mut k: usize = shown;
            while k < max
                invariant
                    shown <= k <= max,
                    body@ == rows_done + newlines((k - shown) as nat),
                decreases max - k,
            {
                push_str(&mut body, "\n");
                proof {
                    reveal_strlit("\n");
                }
                assert(newlines((k + 1 - shown) as nat) =~= newlines((k - shown) as nat).push('\n'));
                k += 1;
            }
            push_str(&mut body, monitor_status_exec(s).as_str());
            push_str(&mut out, body.as_str());
            assert(out@ =~= threads_frame_text(pid as nat, Some(*s), rows as nat));
            out
        },
    }
}

} // verus!
