use deet::debugger::{BacktraceOutcome, Debugger, parse_address, parse_decimal};
use deet::debugger_command::DebuggerCommand;
use deet::symbols::SymbolTable;

#[test]
fn test_parse_address_with_prefix() {
    assert_eq!(parse_address("0x1f"), Some(0x1f));
    assert_eq!(parse_address("0X00FF"), Some(255));
}

#[test]
fn test_parse_address_without_prefix() {
    assert_eq!(parse_address("1f"), Some(0x1f));
    assert_eq!(parse_address("DEADbeef"), Some(0xdead_beef));
    assert_eq!(parse_address("0"), Some(0));
}

#[test]
fn test_parse_address_rejects_garbage() {
    assert_eq!(parse_address(""), None);
    assert_eq!(parse_address("0x"), None);
    assert_eq!(parse_address("main"), None);
    assert_eq!(parse_address("12g4"), None);
}

#[test]
fn test_parse_address_overflow() {
    assert_eq!(parse_address("ffffffffffffffff"), Some(u64::MAX));
    assert_eq!(parse_address("10000000000000000"), None);
}

#[test]
fn test_parse_decimal() {
    assert_eq!(parse_decimal("110"), Some(110));
    assert_eq!(parse_decimal(""), None);
    assert_eq!(parse_decimal("1a"), None);
    assert_eq!(parse_decimal("18446744073709551615"), Some(u64::MAX));
    assert_eq!(parse_decimal("18446744073709551616"), None);
}

#[test]
fn test_from_tokens_commands() {
    assert!(matches!(
        DebuggerCommand::from_tokens(&vec!["q"]),
        Some(DebuggerCommand::Quit)
    ));
    assert!(matches!(
        DebuggerCommand::from_tokens(&vec!["quit"]),
        Some(DebuggerCommand::Quit)
    ));
    assert!(matches!(
        DebuggerCommand::from_tokens(&vec!["c"]),
        Some(DebuggerCommand::Cont)
    ));
    assert!(matches!(
        DebuggerCommand::from_tokens(&vec!["continue"]),
        Some(DebuggerCommand::Cont)
    ));
    assert!(matches!(
        DebuggerCommand::from_tokens(&vec!["k"]),
        Some(DebuggerCommand::Kill)
    ));
    assert!(matches!(
        DebuggerCommand::from_tokens(&vec!["bt"]),
        Some(DebuggerCommand::Backtrace)
    ));
    assert!(DebuggerCommand::from_tokens(&vec!["step"]).is_none());
}

#[test]
fn test_from_tokens_run_args() {
    match DebuggerCommand::from_tokens(&vec!["r", "arg1", "arg2"]) {
        Some(DebuggerCommand::Run(args)) => {
            assert_eq!(args, vec!["arg1".to_string(), "arg2".to_string()]);
        }
        _ => panic!("expected a run command"),
    }
}

#[test]
fn test_from_tokens_breakpoint() {
    match DebuggerCommand::from_tokens(&vec!["b", "*0x4000"]) {
        Some(DebuggerCommand::Breakpoint(loc)) => assert_eq!(loc, "*0x4000"),
        _ => panic!("expected a breakpoint command"),
    }
    assert!(DebuggerCommand::from_tokens(&vec!["b"]).is_none());
}

fn sample_symbols() -> SymbolTable {
    let mut syms = SymbolTable::new();
    syms.add_function("main".to_string(), 0x1000, 0x2000);
    syms.add_function("g".to_string(), 0x3000, 0x3800);
    syms.add_line(10, 0x1000, 0x2000);
    syms.add_line(42, 0x3000, 0x3800);
    syms
}

#[test]
fn test_idle_session_is_inert() {
    // Killing a non-started session is a no-op, and continuing reports
    // nothing to continue.
    let mut dbg = Debugger::new("target".to_string(), sample_symbols());
    assert!(!dbg.has_inferior());
    assert_eq!(dbg.inferior_pid(), None);
    assert_eq!(dbg.cmd_kill(), Ok(None));
    assert!(matches!(dbg.cmd_continue(), Ok(None)));
    assert!(matches!(dbg.cmd_backtrace(), Ok(BacktraceOutcome::NoProcess)));
    assert_eq!(dbg.begin_launch(), Ok(None));
    assert!(!dbg.has_inferior());
}

#[test]
fn test_breakpoint_resolution_while_idle() {
    let mut dbg = Debugger::new("target".to_string(), sample_symbols());
    // A raw address literal.
    assert_eq!(dbg.cmd_breakpoint("*0x4000"), Ok(Some(0x4000)));
    // A source line.
    assert_eq!(dbg.cmd_breakpoint("42"), Ok(Some(0x3000)));
    // A function name.
    assert_eq!(dbg.cmd_breakpoint("g"), Ok(Some(0x3000)));
    assert_eq!(dbg.cmd_breakpoint("main"), Ok(Some(0x1000)));
    // Unresolvable locations are silently dropped.
    assert_eq!(dbg.cmd_breakpoint("no_such_function"), Ok(None));
    assert_eq!(dbg.cmd_breakpoint("999"), Ok(None));
    assert_eq!(dbg.cmd_breakpoint("*zz"), Ok(None));
}

#[test]
fn test_attach_to_vanished_process_reports_error() {
    // A pid that cannot exist: every trace operation on it fails, the
    // failure is reported, and the session can still be torn down.
    let mut dbg = Debugger::new("target".to_string(), SymbolTable::new());
    assert!(dbg.attach_spawned(i32::MAX).is_err());
    assert!(dbg.has_inferior());
    // Killing reports the failure but the session falls back to idle.
    assert!(dbg.cmd_kill().is_err());
    assert!(!dbg.has_inferior());
    assert!(matches!(dbg.cmd_continue(), Ok(None)));
}
