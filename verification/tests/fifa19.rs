use fixfifa::fifa19::{
    alt_tab_jump_address, disable_console, enable_console, event_hook_address, event_hook_code,
    event_hook_jump, unconditional_jump_patch, ConsoleAction, ConsolePhase,
};
use fixfifa::memory::rel_target;
use fixfifa::words::to_lparam;

#[test]
fn alt_tab_site_is_behind_the_pattern() {
    assert_eq!(alt_tab_jump_address(0), None);
    assert_eq!(alt_tab_jump_address(0x1000), Some(0x1015));
}

#[test]
fn conditional_jump_becomes_jmp_and_nop() {
    // jne at 0x1000 to 0x1100 (0F 85 FA 00 00 00)
    let patch = unconditional_jump_patch(0x1000, 0x1100);
    assert_eq!(patch, vec![0xE9, 0xFB, 0x00, 0x00, 0x00, 0x90]);
    let rel = to_lparam(&patch[1..5]).unwrap();
    assert_eq!(rel_target(0x1000, 5, rel), 0x1100);
}

#[test]
fn hook_jumps_to_code_and_back() {
    let hook = event_hook_address(0x5000);
    assert_eq!(hook, 0x5012);
    let jump = event_hook_jump(hook, 0x9000);
    assert_eq!(jump.len(), 5);
    assert_eq!(rel_target(hook, 5, to_lparam(&jump[1..5]).unwrap()), 0x9000);
    let code = event_hook_code(0x9000, 0x1122_3344, hook + 5, &[0x50], &[0x48, 0xB8], &[0xFF, 0xD0], &[0x58], &[0x90, 0x90]);
    assert_eq!(
        &code[..16],
        &[0x50, 0x48, 0xB8, 0x44, 0x33, 0x22, 0x11, 0, 0, 0, 0, 0xFF, 0xD0, 0x58, 0x90, 0x90]
    );
    assert_eq!(code.len(), 21);
    assert_eq!(code[16], 0xE9);
    let back = to_lparam(&code[17..21]).unwrap();
    assert_eq!(rel_target(0x9000 + 16, 5, back), hook + 5);
}

#[test]
fn enabling_allocates_a_missing_console() {
    let mut c = enable_console();
    assert!(matches!(c.start(), ConsoleAction::QueryWindow));
    assert!(matches!(c.window_found(false), ConsoleAction::AllocConsole));
    assert!(matches!(c.console_allocated(true), ConsoleAction::QueryWindow));
    assert!(matches!(c.window_found(true), ConsoleAction::Show { visible: true }));
    assert!(matches!(c.window_shown(true), ConsoleAction::Done(Ok(()))));
}

#[test]
fn enabling_gives_up_after_one_allocation() {
    let mut c = enable_console();
    c.window_found(false);
    c.console_allocated(false);
    match c.window_found(false) {
        ConsoleAction::Abort(e) => assert_eq!(e.description(), "Console window not found."),
        _ => panic!("expected the switch to give up"),
    }
}

#[test]
fn disabling_needs_a_window() {
    let mut c = disable_console();
    assert_eq!(c.phase, ConsolePhase::Query { alloc: false });
    assert!(matches!(c.window_found(false), ConsoleAction::Abort(_)));
    let mut c = disable_console();
    assert!(matches!(c.window_found(true), ConsoleAction::Show { visible: false }));
    match c.window_shown(false) {
        ConsoleAction::Done(Err(e)) => assert_eq!(e.description(), "ShowWindow failed."),
        _ => panic!("expected a failure"),
    }
}
