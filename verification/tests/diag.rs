use jex_core::diag::{gc_table_header, parse_threads_output, threads_frame, threads_report_lines, ThreadState};

#[test]
fn test_thread_state_from_jcmd() {
    assert_eq!(ThreadState::from_jcmd("RUNNABLE"), ThreadState::Runnable);
    assert_eq!(ThreadState::from_jcmd("BLOCKED"), ThreadState::Blocked);
    assert_eq!(ThreadState::from_jcmd("WAITING"), ThreadState::Waiting);
    assert_eq!(ThreadState::from_jcmd("TIMED_WAITING"), ThreadState::TimedWaiting);
    assert!(matches!(ThreadState::from_jcmd("UNKNOWN"), ThreadState::Unknown(_)));
}

#[test]
fn test_parse_threads_output_simple() {
    let output = r#""main" #1 daemon prio=5 java.lang.Thread.State: RUNNABLE
"pool-1-thread-1" #12 prio=5 java.lang.Thread.State: WAITING
"worker-1" #15 daemon prio=5 java.lang.Thread.State: BLOCKED
"#;
    let snapshot = parse_threads_output(output);
    assert_eq!(snapshot.total, 3);
    assert_eq!(snapshot.daemon_count, 2);
    assert_eq!(snapshot.blocked_count, 1);
    assert!(!snapshot.deadlock_detected);
}

#[test]
fn test_parse_threads_output_with_deadlock() {
    let output = r#""main" #1 prio=5 java.lang.Thread.State: BLOCKED
"t2" #2 prio=5 java.lang.Thread.State: BLOCKED

Found one Java-level deadlock:
=============================
"main":
  waiting to lock monitor 0x00007f... (a java.lang.Object),
  held by thread 2
"t2":
  waiting to lock monitor 0x00007f... (a java.lang.Object),
  held by thread 1
"#;
    let snapshot = parse_threads_output(output);
    assert!(snapshot.deadlock_detected, "deadlock_detected should be true");
    assert_eq!(snapshot.deadlock_threads.len(), 2);
    assert!(snapshot.deadlock_threads.contains(&"main".to_string()));
    assert!(snapshot.deadlock_threads.contains(&"t2".to_string()));
}

#[test]
fn test_thread_state_symbols() {
    assert_eq!(ThreadState::Runnable.symbol(), "🟢");
    assert_eq!(ThreadState::Blocked.symbol(), "🔴");
    assert_eq!(ThreadState::Waiting.symbol(), "🟡");
    assert_eq!(ThreadState::TimedWaiting.symbol(), "🟡");
    assert_eq!(ThreadState::Sleeping.symbol(), "🔵");
}

#[test]
fn test_thread_state_unknown_symbol() {
    let state = ThreadState::Unknown("CUSTOM".to_string());
    assert_eq!(state.symbol(), "⚪");
}

#[test]
fn test_thread_state_labels() {
    assert_eq!(ThreadState::Runnable.label(), "RUNNABLE");
    assert_eq!(ThreadState::Blocked.label(), "BLOCKED");
    assert_eq!(ThreadState::Waiting.label(), "WAITING");
    assert_eq!(ThreadState::TimedWaiting.label(), "TIMED_WAITING");
    assert_eq!(ThreadState::Sleeping.label(), "SLEEPING");
    let unknown = ThreadState::Unknown("CUSTOM".to_string());
    assert_eq!(unknown.label(), "CUSTOM");
}

#[test]
fn test_gc_table_header() {
    let header = gc_table_header();
    for col in ["S0%", "S1%", "Eden%", "Old%", "Meta%", "CCS%", "YGC", "YGCT", "FGC", "FGCT", "GCT"] {
        assert!(header.contains(col));
    }
}

#[test]
fn test_thread_state_from_jcmd_sleeping() {
    assert_eq!(ThreadState::from_jcmd("SLEEPING"), ThreadState::Sleeping);
}

#[test]
fn test_parse_threads_output_empty() {
    let snapshot = parse_threads_output("");
    assert_eq!(snapshot.total, 0);
    assert!(!snapshot.deadlock_detected);
}

#[test]
fn test_parse_threads_output_sleeping() {
    let output = r#""sleeping-thread" #10 prio=5
java.lang.Thread.State: SLEEPING
"#;
    let snapshot = parse_threads_output(output);
    assert_eq!(snapshot.total, 1);
    assert_eq!(snapshot.threads[0].state, ThreadState::Sleeping);
}

#[test]
fn parse_threads_reads_name_id_priority() {
    let output = "\"worker\" #42 daemon prio=7\n   java.lang.Thread.State: TIMED_WAITING\n";
    let s = parse_threads_output(output);
    assert_eq!(s.threads.len(), 1);
    let t = &s.threads[0];
    assert_eq!(t.name, "worker");
    assert_eq!(t.id, 42);
    assert!(t.daemon);
    assert_eq!(t.priority, 7);
    assert_eq!(t.state, ThreadState::TimedWaiting);
}

#[test]
fn thread_state_comes_from_following_lines_only() {
    let s = parse_threads_output("\"solo\" #1 prio=5 java.lang.Thread.State: RUNNABLE\n");
    assert_eq!(s.threads[0].state, ThreadState::Unknown("UNKNOWN".to_string()));
}

#[test]
fn from_jcmd_trims_and_keeps_unknown_text() {
    assert_eq!(ThreadState::from_jcmd("  BLOCKED "), ThreadState::Blocked);
    assert_eq!(ThreadState::from_jcmd("PARKED"), ThreadState::Unknown("PARKED".to_string()));
}

#[test]
fn threads_report_groups_threads() {
    let output = "\"main\" #1 prio=5 java.lang.Thread.State: BLOCKED\n\"t2\" #2 daemon prio=5 java.lang.Thread.State: RUNNABLE\n\"t3\" #3 prio=7 java.lang.Thread.State: TIMED_WAITING\n";
    let s = parse_threads_output(output);
    let lines = threads_report_lines(&s);
    assert_eq!(
        lines,
        vec![
            "线程统计:",
            "  总线程数: 3",
            "  守护线程: 1",
            "  ⚠️  BLOCKED: 1",
            "  死锁检测: ✅ 无",
            "",
            "详细信息:",
            "",
            "🔴 BLOCKED (1)",
            "  main #1 (prio=5)",
            "",
            "🟢 RUNNABLE (1)",
            "  t2 #2 (prio=5) [daemon]",
            "",
            "🟡 WAITING (1)",
            "  t3 #3 TIMED_WAITING (prio=7)",
        ]
    );
}

#[test]
fn threads_report_names_deadlocked_threads() {
    let output = "\"a\" #1 prio=5 java.lang.Thread.State: BLOCKED\n\nFound one Java-level deadlock:\n\"a\":\n";
    let s = parse_threads_output(output);
    let lines = threads_report_lines(&s);
    assert_eq!(lines[4], "  🔴 检测到死锁! 涉及线程: [\"a\"]");
}

#[test]
fn threads_frame_without_dump_is_title_only() {
    let f = threads_frame(42, None, 30);
    assert_eq!(f, "\x1b[2J\x1b[H\x1b[36m\x1b[1m╔══ JVM 线程信息 (PID: 42) — 共 0 个线程 ══╗\x1b[0m\n\n");
}

#[test]
fn threads_frame_lists_threads() {
    let s = parse_threads_output("\"main\" #1 prio=5 java.lang.Thread.State: RUNNABLE\n");
    let f = threads_frame(7, Some(&s), 10);
    assert!(f.contains("(PID: 7) — 共 1 个线程"));
    assert!(f.contains("main"));
    assert!(f.contains(" 退出  守护线程: 0"));
    assert!(f.ends_with("╝\x1b[0m\n"));
}
