use et::client_console_mode::{enable_autowrap, ModeEvent, OutputMode, REQUIRED_OUTPUT_MODE};
use et::client_hangup::{take_hangup_close, HangupClose, HangupStep};

/// Runs the mode machine against a console that answers with the given
/// failures, until it has entered or left. Returns the modes that were set
/// and the bytes that were written.
fn run(
    mode: &mut OutputMode,
    start: u32,
    fail_read: bool,
    fail_change: bool,
    fail_write: bool,
    fail_flush: bool,
) -> (Vec<u32>, Vec<u8>, bool) {
    let mut set = Vec::new();
    let mut bytes = Vec::new();
    let mut flushed = false;
    loop {
        if let Some(wanted) = mode.wanted_mode() {
            set.push(wanted);
        }
        let event = match *mode {
            OutputMode::Read => {
                if fail_read {
                    ModeEvent::Failed
                } else {
                    ModeEvent::Mode(start)
                }
            }
            OutputMode::Change { .. } | OutputMode::Restore { .. } => {
                if fail_change {
                    ModeEvent::Failed
                } else {
                    ModeEvent::Done
                }
            }
            OutputMode::Wrap { .. } => {
                if fail_write {
                    ModeEvent::Failed
                } else {
                    bytes.extend_from_slice(&enable_autowrap());
                    ModeEvent::Done
                }
            }
            OutputMode::Flush { .. } => {
                flushed = true;
                if fail_flush {
                    ModeEvent::Failed
                } else {
                    ModeEvent::Done
                }
            }
            OutputMode::Entered { .. } => ModeEvent::Leave,
            OutputMode::Left => return (set, bytes, flushed),
        };
        mode.enter(event);
    }
}

#[test]
fn preserves_bits_orders_setup_and_restores_on_success_or_io_error() {
    for (fail_write, fail_flush) in [(false, false), (true, false), (false, true)] {
        let mut mode = OutputMode::Read;
        let (set, bytes, flushed) = run(&mut mode, 0x10, false, false, fail_write, fail_flush);
        if !fail_write {
            assert_eq!(bytes, b"\x1b[?7h");
            assert!(flushed);
        }
        assert_eq!(set, vec![0x1f, 0x10]);
    }
}

#[test]
fn console_api_errors_do_not_emit_decawm_or_panic_during_restore() {
    for fail_read in [true, false] {
        let mut mode = OutputMode::Read;
        let (set, bytes, _) = run(&mut mode, 0x12, fail_read, true, false, false);
        assert!(bytes.is_empty());
        assert_eq!(set, if fail_read { vec![] } else { vec![0x1f, 0x12] });
    }
}

#[test]
fn unwinding_restores_the_exact_inherited_mode() {
    let mut mode = OutputMode::Entered { inherited: 0x15 };
    mode.enter(ModeEvent::Leave);
    assert_eq!(mode, OutputMode::Restore { inherited: 0x15 });
    assert_eq!(mode.wanted_mode(), Some(0x15));
    mode.enter(ModeEvent::Done);
    assert_eq!(mode, OutputMode::Left);
    assert_eq!(REQUIRED_OUTPUT_MODE, 0x0f);
}

#[test]
fn disabled_hangup_does_not_send_terminal_close() {
    let mut hangup = HangupClose::disabled();
    assert_eq!(take_hangup_close(true, &mut hangup), HangupStep::Continue);
    assert!(!hangup.completed());
}

#[test]
fn requested_hangup_sends_empty_terminal_close_and_completes() {
    let mut hangup = HangupClose::disabled();
    hangup.request();
    assert!(hangup.requested());
    assert_eq!(
        take_hangup_close(true, &mut hangup),
        HangupStep::Leave { send_close: true }
    );
    assert!(hangup.completed());
}

#[test]
fn disconnected_hangup_skips_the_write_and_still_completes() {
    let mut hangup = HangupClose::disabled();
    hangup.request();
    assert_eq!(
        take_hangup_close(false, &mut hangup),
        HangupStep::Leave { send_close: false }
    );
    assert!(hangup.completed());
}
