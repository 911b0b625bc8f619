use et::client_output::{
    after_flush, after_write, copy_windows_helper_output, drain_step, finish_plan,
    frame_for_helper, read_acknowledgement, stdout_step, AckStep, Batch, ConsoleCompletion,
    ConsoleError, ConsoleQueue, DrainStep, HelperEvent, HelperPhase, SinkEvent, SinkStep,
    StdoutReady, StdoutStep, WriteFault, WriterTurn, CONSOLE_CHUNK, OUTPUT_BYTES, OUTPUT_PACKETS,
    DrainLook, Writer, WriterEvent, WriterPhase,
};
use et::terminal_modes::TerminalModeState;
use et::terminal_protocol::FlowControlMode;

const LOOK: DrainLook = DrainLook {
    worker_done: false,
    progressed: false,
    timed_out: false,
    expired: false,
};

const MODES: [FlowControlMode; 3] = [
    FlowControlMode::Off,
    FlowControlMode::Backpressure,
    FlowControlMode::Discard,
];

/// A console whose writer is stepped by hand.
struct Console {
    mode: FlowControlMode,
    queue: ConsoleQueue,
    batch: Option<Batch>,
    offset: usize,
    trackers: [TerminalModeState; 2],
    flushes: usize,
    sink: Vec<u8>,
}

impl Console {
    fn new(mode: FlowControlMode) -> Self {
        Self {
            mode,
            queue: ConsoleQueue::new(),
            batch: None,
            offset: 0,
            trackers: [TerminalModeState::default(), TerminalModeState::default()],
            flushes: 0,
            sink: Vec::new(),
        }
    }

    fn try_write(&mut self, bytes: &[u8]) -> bool {
        self.try_write_for(bytes, 0)
    }

    fn try_write_for(&mut self, bytes: &[u8], tracker: u64) -> bool {
        self.queue.try_write(self.mode, bytes, tracker).unwrap()
    }

    /// What the writer is about to hand to its sink.
    fn pending(&mut self) -> Vec<u8> {
        if self.batch.is_none() {
            if self.queue.next_turn() != WriterTurn::Write {
                return Vec::new();
            }
            self.batch = Some(self.queue.take_batch());
            self.offset = 0;
        }
        self.batch.as_ref().unwrap().bytes()[self.offset..].to_vec()
    }

    /// The sink accepts so many bytes, and flushes them.
    fn accept(&mut self, count: usize) {
        let pending = self.pending();
        match after_write(SinkEvent::Accepted(count)) {
            SinkStep::Flush(accepted) => assert_eq!(accepted, count),
            other => panic!("{other:?}"),
        }
        self.queue.report_worker_progress();
        self.flushes += 1;
        assert!(matches!(
            after_flush(SinkEvent::Accepted(0)),
            SinkStep::Delivered
        ));
        self.sink.extend_from_slice(&pending[..count]);
        self.offset += count;
        let batch = self.batch.as_mut().unwrap();
        let first = batch.next;
        let reports = batch.deliver(count);
        for entry in &batch.entries[first..batch.next] {
            self.trackers[entry.tracker as usize].observe(&entry.bytes);
        }
        self.queue.owe_cursor_reports(reports);
        if self.batch.as_ref().unwrap().next == self.batch.as_ref().unwrap().entries.len() {
            self.batch = None;
        }
    }

    fn fail(&mut self, cause: &str) {
        match after_write(SinkEvent::Failed(cause.into())) {
            SinkStep::Fail(WriteFault::Sink(cause)) => self.queue.finish_writer(Some(cause)),
            other => panic!("{other:?}"),
        }
        self.batch = None;
    }

    /// Drains everything and winds the writer up.
    fn complete(&mut self) -> &[u8] {
        self.queue.stop();
        loop {
            let pending = self.pending();
            if pending.is_empty() {
                break;
            }
            self.accept(pending.len());
        }
        assert_eq!(self.queue.next_turn(), WriterTurn::Exit);
        self.queue.finish_writer(None);
        &self.sink
    }

    fn interrupt(&mut self, kept: &[u8], skip_until_newline: bool) {
        if self.queue.interruptible().is_some() {
            self.queue.interrupt(kept, skip_until_newline);
        }
    }
}

/// A console whose writer already owns a prefix.
fn gated(mode: FlowControlMode, prefix: &[u8]) -> Console {
    let mut console = Console::new(mode);
    assert!(console.try_write(prefix));
    assert_eq!(console.pending(), prefix);
    console
}

#[test]
fn output_interrupt_default_console_delivers_small_output_to_its_writer() {
    let mut console = Console::new(FlowControlMode::Off);
    assert!(console.try_write(b"ET_SMALL_OUTPUT_OK"));
    assert_eq!(console.complete(), b"ET_SMALL_OUTPUT_OK");
}

#[test]
fn output_interrupt_preserves_console_output_below_the_flush_threshold() {
    for size in [6, 64 * 1024 - 1] {
        let mut console = gated(FlowControlMode::Off, b"prefix\n");
        let pending = vec![b'x'; size];
        assert!(console.try_write(&pending));
        console.interrupt(b"", false);
        assert_eq!(
            console.complete(),
            [b"prefix\n".as_slice(), &pending].concat()
        );
    }
}

#[test]
fn output_interrupt_saturated_console_delivers_prefix_then_new_prompt() {
    for mode in MODES {
        let mut console = gated(mode, b"prefix\n");
        assert!(console.try_write(&vec![b'x'; OUTPUT_BYTES]));
        console.interrupt(b"", false);
        assert!(console.try_write(b"ET_CTRL_C_OK"));
        assert_eq!(console.complete(), b"prefix\nET_CTRL_C_OK");
    }
}

#[test]
fn output_interrupt_console_finishes_in_flight_tmux_line_and_keeps_layout() {
    let mut console = gated(FlowControlMode::Off, b"%extended-output %0 0 : ");
    let queued = format!(
        "tail\n%output %0 {}\n%layout-change @1 layout\n",
        "x".repeat(64 * 1024 - b"tail\n%output %0 \n%layout-change @1 layout\n".len())
    );
    assert!(console.try_write(queued.as_bytes()));
    assert_eq!(console.queue.interruptible().unwrap(), queued.as_bytes());
    console.interrupt(b"tail\n%layout-change @1 layout\n", false);
    assert_eq!(
        console.complete(),
        b"%extended-output %0 0 : tail\n%layout-change @1 layout\n"
    );
}

#[test]
fn output_interrupt_console_skips_only_the_dropped_tmux_continuation() {
    let mut console = gated(FlowControlMode::Off, b"%session-changed $1 test\n");
    let pane = format!(
        "%output %0 {}",
        "x".repeat(64 * 1024 - b"%output %0 ".len())
    );
    assert!(console.try_write(pane.as_bytes()));
    console.interrupt(b"", true);
    assert!(console.try_write(b"more-pane-data"));
    assert!(console.try_write(b"\n%window-add @2\n"));
    assert_eq!(
        console.complete(),
        b"%session-changed $1 test\n%window-add @2\n"
    );
}

#[test]
fn adjacent_admitted_packets_render_once_and_keep_packet_accounting() {
    for mode in MODES {
        let mut console = gated(mode, b"gate");
        for (packet, tracker) in [
            (b"\x1b[2J\x1b[H\x1b[?1049".as_slice(), 0),
            (b"hpaint\x1b[6n", 0),
            (b"\x1b[?1049l\x1b[6n\x1b[6n", 1),
            (b"\x1b[", 0),
            (b"6n", 0),
        ] {
            assert!(console.try_write_for(packet, tracker));
        }
        console.accept(4);
        let batch = console.pending();
        assert_eq!(
            batch,
            b"\x1b[2J\x1b[H\x1b[?1049hpaint\x1b[6n\x1b[?1049l\x1b[6n\x1b[6n\x1b[6n"
        );
        assert!(!console.trackers[0].alternate_screen());
        assert_eq!(console.queue.take_cursor_reports(), 0);
        assert_eq!(console.flushes, 1);
        console.queue.stop();
        console.accept(batch.len());
        assert!(console.trackers[0].alternate_screen());
        assert!(!console.trackers[1].alternate_screen());
        // One report per packet that holds a whole request, and none for a
        // request that two packets share.
        assert_eq!(console.queue.take_cursor_reports(), 2);
        assert_eq!(console.queue.take_cursor_reports(), 0);
        assert_eq!(console.flushes, 2);
        assert_eq!(console.queue.worker_progress(), 2);
        assert!(console.pending().is_empty());
    }
}

#[test]
fn batched_partial_writes_retry_exact_suffix_and_report_progress() {
    let mut console = gated(FlowControlMode::Backpressure, b"gate");
    assert!(console.try_write(b"ab\x1b[?1049"));
    assert!(console.try_write(b"hXYZ\x1b[6n"));
    console.accept(4);
    assert_eq!(console.pending(), b"ab\x1b[?1049hXYZ\x1b[6n");
    console.accept(3);
    assert_eq!(console.pending(), b"[?1049hXYZ\x1b[6n");
    assert_eq!(console.queue.worker_progress(), 2);
    assert!(matches!(
        after_write(SinkEvent::Interrupted),
        SinkStep::Retry
    ));
    assert_eq!(console.pending(), b"[?1049hXYZ\x1b[6n");
    assert_eq!(console.queue.worker_progress(), 2);
    console.accept(9);
    assert_eq!(console.pending(), b"Z\x1b[6n");
    assert_eq!(console.queue.worker_progress(), 3);
    assert!(!console.trackers[0].alternate_screen());
    assert_eq!(console.queue.take_cursor_reports(), 0);
    assert_eq!(console.flushes, 3);
    console.queue.stop();
    console.accept(5);
    assert_eq!(console.queue.worker_progress(), 4);
    assert!(console.trackers[0].alternate_screen());
    assert_eq!(console.queue.take_cursor_reports(), 1);
    assert_eq!(console.flushes, 4);
}

#[test]
fn delivered_packet_is_confirmed_before_batched_suffix_fails() {
    let mut console = gated(FlowControlMode::Off, b"gate");
    assert!(console.try_write(b"\x1b[?1049h\x1b[6n"));
    assert!(console.try_write(b"\x1b[?1049l\x1b[6n"));
    console.accept(4);
    assert_eq!(console.pending(), b"\x1b[?1049h\x1b[6n\x1b[?1049l\x1b[6n");
    console.accept(12);
    assert_eq!(console.pending(), b"\x1b[?1049l\x1b[6n");
    assert!(console.trackers[0].alternate_screen());
    assert_eq!(console.queue.take_cursor_reports(), 1);
    assert_eq!(console.queue.worker_progress(), 2);
    console.fail("broken pipe");
    assert!(console.queue.worker_done);
    assert!(console.trackers[0].alternate_screen());
    assert_eq!(console.queue.take_cursor_reports(), 0);
    assert_eq!(console.flushes, 2);
    assert!(matches!(
        console.queue.check_error(),
        Err(ConsoleError::Writer(cause)) if cause == "broken pipe"
    ));
}

#[test]
fn flush_retry_never_rewrites_accepted_bytes_or_confirms_failed_flush() {
    assert!(matches!(
        after_write(SinkEvent::Accepted(6)),
        SinkStep::Flush(6)
    ));
    assert!(matches!(
        after_flush(SinkEvent::Interrupted),
        SinkStep::Retry
    ));
    assert!(matches!(
        after_flush(SinkEvent::Accepted(0)),
        SinkStep::Delivered
    ));
    assert!(matches!(
        after_flush(SinkEvent::Failed("broken pipe".into())),
        SinkStep::Fail(WriteFault::Sink(_))
    ));
    assert!(matches!(
        after_write(SinkEvent::Accepted(0)),
        SinkStep::Fail(WriteFault::Zero)
    ));
}

#[test]
fn windows_helper_acknowledgements_confirm_prefix_before_later_failure() {
    assert_eq!(
        frame_for_helper(b"0123456789").unwrap(),
        [10u32.to_le_bytes().as_slice(), b"0123456789"].concat()
    );
    for final_ack in [0u32, 7, 8] {
        let mut acknowledged = 0;
        let mut delivered = Vec::new();
        let mut ended = None;
        for ack in [3, final_ack, 0] {
            match read_acknowledgement(acknowledged, 10, ack) {
                AckStep::Delivered(count) => {
                    acknowledged += count;
                    delivered.push(count);
                }
                step => {
                    ended = Some(step);
                    break;
                }
            }
        }
        match final_ack {
            7 => {
                assert_eq!(ended, Some(AckStep::Done));
                assert_eq!(delivered, [3, 7]);
            }
            0 => {
                assert_eq!(ended, Some(AckStep::Incomplete));
                assert_eq!(delivered, [3]);
            }
            _ => {
                assert_eq!(ended, Some(AckStep::Invalid));
                assert_eq!(delivered, [3]);
            }
        }
    }
}

#[test]
fn windows_helper_flushes_before_ack_and_never_acknowledges_failed_flush() {
    for (limit, fail_flush, expected) in [
        (10, false, vec!["write:abcde", "flush", "ack:5", "ack:0"]),
        (
            3,
            false,
            vec![
                "write:abc",
                "flush",
                "ack:3",
                "write:de",
                "flush",
                "ack:2",
                "ack:0",
            ],
        ),
        (3, true, vec!["write:abc", "flush"]),
    ] {
        let body = "abcde";
        let mut events: Vec<String> = Vec::new();
        let mut lengths = vec![5u32];
        let mut phase = HelperPhase::Length;
        let status = loop {
            let event = match phase {
                HelperPhase::Length => match lengths.pop() {
                    Some(length) => HelperEvent::Done(length),
                    None => HelperEvent::Eof,
                },
                HelperPhase::Body(_) => HelperEvent::Done(0),
                HelperPhase::Write(left) => {
                    let count = left.min(limit);
                    let start = body.len() - left;
                    events.push(format!("write:{}", &body[start..start + count]));
                    HelperEvent::Done(count as u32)
                }
                HelperPhase::Flush(_, _) => {
                    events.push("flush".to_owned());
                    if fail_flush {
                        HelperEvent::Failed
                    } else {
                        HelperEvent::Done(0)
                    }
                }
                HelperPhase::Acknowledge(count, _) => {
                    events.push(format!("ack:{count}"));
                    HelperEvent::Done(0)
                }
                HelperPhase::Conclude => {
                    events.push("ack:0".to_owned());
                    HelperEvent::Done(0)
                }
                HelperPhase::Exit(status) => break status,
            };
            phase = copy_windows_helper_output(phase, event);
        };
        assert_eq!(status, i32::from(fail_flush));
        assert_eq!(events, expected);
    }
}

#[test]
fn interrupt_preserves_writer_owned_batch_and_filters_next_tmux_queue() {
    let mut console = gated(FlowControlMode::Off, b"gate\n");
    assert!(console.try_write(b"%session-changed $1 test\n"));
    assert!(console.try_write(b"%extended-output %0 0 : "));
    console.accept(5);
    let batch = console.pending();
    assert_eq!(batch, b"%session-changed $1 test\n%extended-output %0 0 : ");
    let pending = format!(
        "tail\n%output %0 {}\n%layout-change @1 layout\n",
        "x".repeat(OUTPUT_BYTES - b"tail\n%output %0 \n%layout-change @1 layout\n".len())
    );
    assert!(console.try_write(pending.as_bytes()));
    assert!(!console.try_write(b"held"));
    let kept = b"tail\n%layout-change @1 layout\n";
    console.interrupt(kept, false);
    assert_eq!(kept.len(), 30);
    assert_eq!(console.queue.bytes, 30);
    assert!(console.try_write(b"prompt"));
    console.accept(batch.len());
    assert_eq!(
        console.pending(),
        b"tail\n%layout-change @1 layout\nprompt"
    );
    console.queue.stop();
    console.accept(36);
    assert_eq!(console.queue.next_turn(), WriterTurn::Exit);
}

#[test]
fn full_backpressure_queue_does_not_block_control_progress() {
    let mut console = Console::new(FlowControlMode::Backpressure);
    assert!(console.try_write(&vec![1; OUTPUT_BYTES]));
    assert_eq!(console.pending().len(), OUTPUT_BYTES);
    assert!(console.try_write(&vec![2; OUTPUT_BYTES]));
    assert!(!console.try_write(&[3]));
    console.accept(OUTPUT_BYTES);
    assert_eq!(console.pending().len(), OUTPUT_BYTES);
    console.accept(OUTPUT_BYTES);
    assert!(!console.queue.has_pending_data());
}

#[test]
fn discard_eviction_does_not_change_confirmed_terminal_mode() {
    let mut console = gated(FlowControlMode::Discard, b"visible");
    assert!(console.try_write(b"\x1b[?1049h"));
    assert!(console.try_write(&[b'n'; OUTPUT_BYTES]));
    assert!(!console.trackers[0].alternate_screen());
    console.accept(7);
    assert_eq!(console.pending().len(), OUTPUT_BYTES);
    console.accept(OUTPUT_BYTES);
    assert!(!console.trackers[0].alternate_screen());
}

#[test]
fn evicted_alternate_leave_preserves_confirmed_enter_state() {
    let mut console = gated(FlowControlMode::Discard, b"\x1b[?1049h");
    assert!(console.try_write(b"blocking"));
    console.accept(8);
    assert_eq!(console.pending().len(), 8);
    assert!(console.trackers[0].alternate_screen());
    assert!(console.try_write(b"\x1b[?1049l"));
    assert!(console.try_write(&[b'n'; OUTPUT_BYTES]));
    console.accept(8);
    assert_eq!(console.pending().len(), OUTPUT_BYTES);
    console.accept(OUTPUT_BYTES);
    assert!(console.trackers[0].alternate_screen());
}

#[test]
fn clean_remote_session_end_drains_admitted_output_before_returning() {
    let mut console = gated(FlowControlMode::Backpressure, b"first");
    assert!(console.try_write(b"second"));
    console.queue.stop();
    assert!(matches!(
        console.queue.try_write(FlowControlMode::Backpressure, b"late", 0),
        Err(ConsoleError::Stopped)
    ));
    assert_eq!(drain_step(LOOK), DrainStep::Continue);
    assert_eq!(console.complete(), b"firstsecond");
    assert!(console.queue.worker_done);
    let done = DrainLook {
        worker_done: true,
        ..LOOK
    };
    assert_eq!(drain_step(done), DrainStep::Drained);
}

#[test]
fn graceful_finish_is_idempotent() {
    let mut console = Console::new(FlowControlMode::Backpressure);
    assert!(console.complete().is_empty());
    assert!(console.complete().is_empty());
    assert!(console.queue.check_error().is_ok());
}

#[test]
fn graceful_finish_surfaces_last_write_error() {
    let mut console = gated(FlowControlMode::Backpressure, b"last");
    console.fail("broken pipe");
    assert!(matches!(
        console.queue.check_error(),
        Err(ConsoleError::Writer(cause)) if cause == "broken pipe"
    ));
    assert!(console.queue.check_error().is_ok());
}

#[test]
fn local_input_close_cancels_blocked_output_before_join() {
    let plan = finish_plan(ConsoleCompletion::LocalInputClosed, false, false, false);
    assert!(!plan.drain && plan.cancel && plan.join && !plan.conclude);
}

#[test]
fn remote_session_end_cancels_writer_after_graceful_drain_stalls() {
    let expired = DrainLook {
        expired: true,
        ..LOOK
    };
    assert_eq!(drain_step(expired), DrainStep::Stalled);
    let timed_out = DrainLook {
        timed_out: true,
        ..LOOK
    };
    assert_eq!(drain_step(timed_out), DrainStep::Stalled);
    let plan = finish_plan(ConsoleCompletion::RemoteSessionEnded, false, true, false);
    assert!(plan.drain && plan.cancel && plan.join);
    let plan = finish_plan(ConsoleCompletion::RemoteSessionEnded, false, false, false);
    assert!(plan.drain && !plan.cancel && plan.join);
}

#[test]
fn stalled_remote_completion_does_not_join_an_uninterruptible_write() {
    let plan = finish_plan(ConsoleCompletion::RemoteSessionEnded, false, true, true);
    assert!(plan.drain && plan.cancel && !plan.join);
}

#[test]
fn partial_writes_report_progress_before_completion_and_drain_every_byte() {
    let mut console = gated(FlowControlMode::Off, b"ok");
    console.accept(1);
    assert_eq!(console.sink, b"o");
    assert_eq!(console.queue.worker_progress(), 1);
    let progressed = DrainLook {
        progressed: true,
        ..LOOK
    };
    assert_eq!(drain_step(progressed), DrainStep::Restart);
    console.accept(1);
    assert_eq!(console.sink, b"ok");
    assert_eq!(console.queue.worker_progress(), 2);
}

#[test]
fn remote_session_end_drains_every_partial_write_before_returning() {
    let mut console = Console::new(FlowControlMode::Backpressure);
    assert!(console.try_write(b"partial"));
    console.queue.stop();
    for _ in 0..7 {
        console.accept(1);
    }
    assert_eq!(console.complete(), b"partial");
    assert!(!finish_plan(ConsoleCompletion::RemoteSessionEnded, false, false, false).cancel);
}

#[test]
fn cancellable_stdout_fails_when_output_is_closed() {
    let ready = StdoutReady {
        cancelled: false,
        unavailable: true,
        writable: true,
    };
    assert_eq!(stdout_step(ready, 6), StdoutStep::Unavailable);
    assert_eq!(
        stdout_step(
            StdoutReady {
                cancelled: true,
                ..ready
            },
            6
        ),
        StdoutStep::Cancelled
    );
    let room = StdoutReady {
        unavailable: false,
        ..ready
    };
    assert_eq!(stdout_step(room, 6), StdoutStep::Write(6));
    assert_eq!(
        stdout_step(room, CONSOLE_CHUNK + 1),
        StdoutStep::Write(CONSOLE_CHUNK)
    );
    assert_eq!(
        stdout_step(
            StdoutReady {
                writable: false,
                ..room
            },
            6
        ),
        StdoutStep::PollAgain
    );
}

#[test]
fn last_packet_broken_pipe_is_reported_without_another_packet() {
    let mut console = gated(FlowControlMode::Discard, b"last");
    console.fail("broken pipe");
    assert!(console.queue.worker_done);
    assert!(matches!(
        console.queue.check_error(),
        Err(ConsoleError::Writer(_))
    ));
}

#[test]
fn oversized_packets_fail_or_keep_their_end() {
    let large = [vec![b'a'; 10], vec![b'b'; OUTPUT_BYTES]].concat();
    let mut console = Console::new(FlowControlMode::Backpressure);
    match console.queue.try_write(console.mode, &large, 0) {
        Err(error) => assert_eq!(
            error.message(),
            "terminal output packet exceeds console queue capacity"
        ),
        Ok(taken) => panic!("{taken}"),
    }
    let mut console = Console::new(FlowControlMode::Discard);
    assert!(console.try_write(&large));
    assert_eq!(console.pending(), vec![b'b'; OUTPUT_BYTES]);
}

#[test]
fn the_queue_is_bounded_in_packets_too() {
    let mut console = Console::new(FlowControlMode::Backpressure);
    for _ in 0..OUTPUT_PACKETS {
        assert!(console.try_write(b"x"));
    }
    assert!(!console.try_write(b"x"));
    console.mode = FlowControlMode::Discard;
    assert!(console.try_write(b"y"));
    assert_eq!(console.queue.queue.len(), OUTPUT_PACKETS);
}

#[test]
fn a_stall_that_was_seen_before_is_not_waited_for_again() {
    let plan = finish_plan(ConsoleCompletion::RemoteSessionEnded, true, false, false);
    assert!(!plan.drain && plan.cancel && plan.join && plan.conclude);
    let plan = finish_plan(ConsoleCompletion::RemoteSessionEnded, true, false, true);
    assert!(!plan.join && !plan.conclude);
}

fn sink(writer: &mut Writer, queue: &mut ConsoleQueue, event: SinkEvent) -> (bool, bool) {
    let signals = writer.advance(queue, WriterEvent::Sink(event));
    (signals.capacity, signals.status)
}

#[test]
fn the_writer_flushes_before_it_delivers() {
    let mut queue = ConsoleQueue::new();
    let mut writer = Writer::new();
    assert!(!writer.advance(&mut queue, WriterEvent::Woken).capacity);
    assert_eq!(writer.phase, WriterPhase::Look);
    for bytes in [b"one".as_slice(), b"\x1b[6n", b"two"] {
        assert!(queue
            .try_write(FlowControlMode::Backpressure, bytes, 0)
            .unwrap());
    }
    assert!(writer.advance(&mut queue, WriterEvent::Woken).capacity);
    assert!(!queue.has_pending_data());
    assert_eq!(writer.rest(), b"one\x1b[6ntwo");
    sink(&mut writer, &mut queue, SinkEvent::Interrupted);
    sink(&mut writer, &mut queue, SinkEvent::Accepted(5));
    assert_eq!(writer.phase, WriterPhase::Flush(5));
    assert_eq!(queue.worker_progress(), 1);
    assert_eq!(writer.batch.next, 0);
    sink(&mut writer, &mut queue, SinkEvent::Interrupted);
    assert_eq!(
        sink(&mut writer, &mut queue, SinkEvent::Accepted(0)),
        (false, false)
    );
    assert_eq!(writer.batch.next, 1);
    assert_eq!(writer.rest(), b"6ntwo");
    sink(&mut writer, &mut queue, SinkEvent::Accepted(5));
    // The packet that asks for a cursor report is complete now.
    assert_eq!(
        sink(&mut writer, &mut queue, SinkEvent::Accepted(0)),
        (true, false)
    );
    assert_eq!(queue.take_cursor_reports(), 1);
    assert_eq!(writer.phase, WriterPhase::Look);
    queue.stop();
    writer.advance(&mut queue, WriterEvent::Woken);
    assert_eq!(writer.phase, WriterPhase::Gone);
    assert!(queue.worker_done && queue.check_error().is_ok());
}

#[test]
fn a_failed_writer_is_reported_and_gone() {
    for (event, words) in [
        (SinkEvent::Failed("broken".into()), "broken"),
        (SinkEvent::Accepted(0), "write zero"),
    ] {
        let mut queue = ConsoleQueue::new();
        let mut writer = Writer::new();
        assert!(queue
            .try_write(FlowControlMode::Backpressure, b"text", 0)
            .unwrap());
        writer.advance(&mut queue, WriterEvent::Woken);
        assert_eq!(sink(&mut writer, &mut queue, event), (false, true));
        assert_eq!(writer.phase, WriterPhase::Gone);
        assert!(queue.stopping && queue.worker_done);
        assert!(matches!(
            queue.check_error(),
            Err(ConsoleError::Writer(cause)) if cause == words
        ));
    }
    let mut queue = ConsoleQueue::new();
    let mut writer = Writer::new();
    writer.advance(&mut queue, WriterEvent::Lost);
    assert_eq!(writer.phase, WriterPhase::Gone);
    assert!(!queue.worker_done);
}
