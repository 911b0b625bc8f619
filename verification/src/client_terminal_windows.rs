//! The client's session loop on a Windows console. A console handle cannot be
//! polled together with a socket, so the loop goes round in short turns: it
//! takes what the console has, then what the server has, then what the
//! forwarder has, and waits a little.
use vstd::prelude::*;

use crate::client_terminal::{
    connection_ended, is_failure, terminal_error, terminal_io, terminal_text, Failure,
};
use crate::client_terminal_loop::{
    is_forward_packet, is_forwarding, keepalive_millis, later, moment_after, PumpOptions, MISSED_KEEPALIVES,
};
use crate::error::{ClientError, ConnError};
use crate::key_input::{key_bytes, sent_for, KeyEvent};
use crate::terminal_protocol::PacketKind;

verus! {

/// How long a turn waits for the console, in milliseconds.
pub const POLL_INTERVAL_MILLIS: u64 = 10;

/// Where a turn goes on after a cursor report.
#[derive(Debug, Clone, Copy, PartialEq, Eq, Structural)]
pub enum AfterReport {
    /// To what is held.
    Held,
    /// To the console.
    Input,
    /// To further packets.
    Packets,
}

/// What the loop does now.
#[derive(Debug, Clone, Copy, PartialEq, Eq, Structural)]
pub enum ConsolePhase {
    /// Look whether the console writer failed, and how many cursor reports
    /// it owes.
    CheckConsole,
    /// Send a cursor report; so many are left with it.
    SendReport(usize, AfterReport),
    /// Offer the held forwarding packet again.
    RetryForward,
    /// Offer the held output packet again.
    RetryOutput,
    /// Look whether the console has an event.
    PollInput,
    /// Take the event of the console.
    ReadInput,
    /// Send the bytes of a key.
    SendKey(KeyEvent),
    /// Ask for the terminal size.
    ReadSize,
    /// Send the terminal size.
    SendSize,
    /// Read the next packet.
    ReadPacket,
    /// Hand the packet that was read to the forwarder.
    Forward,
    /// Show the packet that was read.
    Show,
    /// Ask the forwarder for a packet.
    TakeOutbound,
    /// Send the packet of the forwarder.
    WriteOutbound,
    /// Recover the transport.
    Recover,
    SendKeepAlive,
    /// Wait for the console, or for a while.
    Idle,
    Ended,
}

/// What a write gave that recovers the transport by itself.
#[derive(Debug)]
pub enum OwnedWriteOutcome {
    Written,
    /// It is on its way over a new transport.
    Recovered,
    /// There is no session left to write to.
    SessionEnded,
    Failed(ClientError),
}

/// What happened in a phase.
#[derive(Debug)]
pub enum ConsoleEvent {
    /// How many cursor reports are owed, and the writer's failure.
    Console(usize, Option<String>),
    /// The number of cursor reports is not known, with the cause.
    ReportsUnknown(String),
    Write(OwnedWriteOutcome),
    /// The packet was taken, or is held back.
    Taken,
    Held,
    /// The packet was shown, and a cursor report is owed for it at once.
    ShownWithReport,
    /// The forwarder failed, with its description.
    ForwarderFailed(String),
    ShowFailed(ClientError),
    /// Whether the console has an event.
    InputReady(bool),
    PollFailed(String),
    Key(KeyEvent),
    Resize,
    /// An event that is not for the server.
    OtherInput,
    ReadInputFailed(String),
    /// Whether the terminal told its size.
    Size(bool),
    SizeFailed(ClientError),
    Packet(PacketKind),
    NoPacket,
    ReadFailed(ConnError),
    /// Whether the forwarder had a packet.
    Outbound(bool),
    Recovered,
    SessionEnded,
    RecoverFailed(ClientError),
    Waited,
}

/// How the loop ends.
#[derive(Debug)]
pub enum ConsoleEnd {
    /// The server ended the session. A packet of the forwarder may be left.
    RemoteSessionEnded { outbound: bool },
    Failed(ClientError),
}

/// The contents of a [`ConsoleEnd`].
pub enum ConsoleEndModel {
    RemoteSessionEnded { outbound: bool },
    Failed(Failure),
}

/// Whether the loop stands, and ended, as a model says.
pub open spec fn steps_to(
    step: (ConsolePump, Option<ConsoleEnd>),
    model: (ConsolePump, Option<ConsoleEndModel>),
) -> bool {
    step.0 == model.0 && match (step.1, model.1) {
        (None, None) => true,
        (
            Some(ConsoleEnd::RemoteSessionEnded { outbound }),
            Some(ConsoleEndModel::RemoteSessionEnded { outbound: left }),
        ) => outbound == left,
        (Some(ConsoleEnd::Failed(error)), Some(ConsoleEndModel::Failed(failure))) => is_failure(
            error,
            failure,
        ),
        _ => false,
    }
}

/// The loop between two events. Moments are milliseconds of a clock that
/// does not go back.
#[derive(Debug, Clone, Copy)]
pub struct ConsolePump {
    pub options: PumpOptions,
    /// When the last packet came.
    pub last_received: u64,
    /// When the next keepalive is due.
    pub next_keepalive: u64,
    /// A forwarding packet is held that the forwarder had no room for.
    pub forward_held: bool,
    /// An output packet is held that the console had no room for.
    pub output_held: bool,
    pub reconnect_needed: bool,
    pub phase: ConsolePhase,
}

impl ConsolePump {
    /// The time between keepalives, in milliseconds.
    pub open spec fn interval(self) -> u64 {
        if self.options.keepalive_seconds == 0 {
            1000
        } else {
            (self.options.keepalive_seconds * 1000) as u64
        }
    }

    /// The silence after which the connection counts as broken.
    pub open spec fn silence(self) -> u64 {
        (self.interval() * MISSED_KEEPALIVES) as u64
    }

    /// No packet is read while another one is held.
    pub open spec fn well_formed(self) -> bool {
        self.phase is ReadPacket || self.phase is Forward || self.phase is Show
            ==> !self.forward_held && !self.output_held
    }

    pub open spec fn at(self, phase: ConsolePhase) -> ConsolePump {
        ConsolePump { phase, ..self }
    }

    /// The beginning of a turn.
    pub open spec fn top(self) -> ConsolePump {
        ConsolePump { phase: ConsolePhase::CheckConsole, reconnect_needed: false, ..self }
    }

    /// On to what is held.
    pub open spec fn to_held(self) -> ConsolePump {
        if self.forward_held {
            self.at(ConsolePhase::RetryForward)
        } else {
            self.to_held_output()
        }
    }

    pub open spec fn to_held_output(self) -> ConsolePump {
        if self.output_held {
            self.at(ConsolePhase::RetryOutput)
        } else {
            self.to_input()
        }
    }

    /// On to the console.
    pub open spec fn to_input(self) -> ConsolePump {
        if self.options.read_stdin {
            self.at(ConsolePhase::PollInput)
        } else {
            self.to_packets()
        }
    }

    /// On to the packets of the server.
    pub open spec fn to_packets(self) -> ConsolePump {
        if self.forward_held || self.output_held {
            self.at(ConsolePhase::TakeOutbound)
        } else {
            self.at(ConsolePhase::ReadPacket)
        }
    }

    /// On to the clocks: a connection that broke, or from which nothing came
    /// for too long, is recovered before anything else is sent.
    pub open spec fn to_clocks(self, now: u64) -> ConsolePump {
        if self.reconnect_needed || (!self.output_held && now - self.last_received
            >= self.silence()) {
            self.at(ConsolePhase::Recover)
        } else if now >= self.next_keepalive {
            self.at(ConsolePhase::SendKeepAlive)
        } else {
            self.at(ConsolePhase::Idle)
        }
    }

    /// A failure of the loop's own ends it.
    pub open spec fn failed(self, text: Seq<char>) -> (ConsolePump, Option<ConsoleEndModel>) {
        (self.at(ConsolePhase::Ended), Some(ConsoleEndModel::Failed(Failure::Terminal(text))))
    }

    /// An error that the loop was handed ends it.
    pub open spec fn stopped(self, error: ClientError) -> (ConsolePump, Option<ConsoleEndModel>) {
        (self.at(ConsolePhase::Ended), Some(ConsoleEndModel::Failed(Failure::Given(error))))
    }

    /// The server ended the session.
    pub open spec fn over(self, outbound: bool) -> (ConsolePump, Option<ConsoleEndModel>) {
        (
            self.at(ConsolePhase::Ended),
            Some(ConsoleEndModel::RemoteSessionEnded { outbound }),
        )
    }

    /// On after a cursor report.
    pub open spec fn after_report(self, then: AfterReport) -> ConsolePump {
        match then {
            AfterReport::Held => self.to_held(),
            AfterReport::Input => self.to_input(),
            AfterReport::Packets => self.to_packets(),
        }
    }

    /// Where a write leads that was done.
    pub open spec fn after_written(self, now: u64) -> ConsolePump {
        match self.phase {
            ConsolePhase::SendReport(left, then) => if left > 1 {
                self.at(ConsolePhase::SendReport((left - 1) as usize, then))
            } else {
                self.after_report(then)
            },
            ConsolePhase::SendKey(_) => self.at(ConsolePhase::PollInput),
            ConsolePhase::SendSize => self.at(ConsolePhase::PollInput),
            ConsolePhase::WriteOutbound => self.at(ConsolePhase::TakeOutbound),
            ConsolePhase::SendKeepAlive => ConsolePump {
                next_keepalive: later(now, self.interval()),
                ..self
            }.at(ConsolePhase::Idle),
            _ => self,
        }
    }

    /// Whether the loop waits for a write.
    pub open spec fn writes(self) -> bool {
        self.phase is SendReport || self.phase is SendKey || self.phase is SendSize
            || self.phase is WriteOutbound || self.phase is SendKeepAlive
    }

    /// What follows a write. A transport that it recovered need not be
    /// recovered again.
    pub open spec fn next_write(self, outcome: OwnedWriteOutcome, now: u64) -> (
        ConsolePump,
        Option<ConsoleEndModel>,
    ) {
        match outcome {
            OwnedWriteOutcome::Written => (self.after_written(now), None),
            OwnedWriteOutcome::Recovered => if self.phase is SendReport || self.phase
                is SendKeepAlive {
                (self.after_written(now), None)
            } else {
                (ConsolePump { reconnect_needed: false, ..self }.after_written(now), None)
            },
            OwnedWriteOutcome::SessionEnded => self.over(self.phase is WriteOutbound),
            OwnedWriteOutcome::Failed(error) => self.stopped(error),
        }
    }

    /// What follows an event. Events that the phase does not wait for leave
    /// the loop as it is.
    pub open spec fn next(self, event: ConsoleEvent, now: u64) -> (
        ConsolePump,
        Option<ConsoleEndModel>,
    ) {
        match (self.phase, event) {
            (ConsolePhase::CheckConsole, ConsoleEvent::Console(reports, failure)) => match failure {
                Some(cause) => self.failed("writing terminal output"@ + ": "@ + cause@),
                None => if self.options.auto_cursor_report && reports > 0 {
                    (self.at(ConsolePhase::SendReport(reports, AfterReport::Held)), None)
                } else {
                    (self.to_held(), None)
                },
            },
            (ConsolePhase::CheckConsole, ConsoleEvent::ReportsUnknown(cause)) => self.failed(
                "reading console confirmations"@ + ": "@ + cause@,
            ),
            (_, ConsoleEvent::Write(outcome)) => if self.writes() {
                self.next_write(outcome, now)
            } else {
                (self, None)
            },
            (ConsolePhase::RetryForward, ConsoleEvent::Taken) => (
                ConsolePump { forward_held: false, ..self }.to_held_output(),
                None,
            ),
            (ConsolePhase::RetryForward, ConsoleEvent::Held) => (self.to_held_output(), None),
            (ConsolePhase::RetryForward, ConsoleEvent::ForwarderFailed(cause)) => self.failed(
                cause@,
            ),
            (ConsolePhase::RetryOutput, ConsoleEvent::Taken) => (
                ConsolePump { output_held: false, ..self }.to_input(),
                None,
            ),
            (ConsolePhase::RetryOutput, ConsoleEvent::ShownWithReport) => {
                let shown = ConsolePump { output_held: false, ..self };
                if self.options.auto_cursor_report {
                    (shown.at(ConsolePhase::SendReport(1, AfterReport::Input)), None)
                } else {
                    (shown.to_input(), None)
                }
            },
            (ConsolePhase::RetryOutput, ConsoleEvent::Held) => (self.to_input(), None),
            (ConsolePhase::RetryOutput, ConsoleEvent::ShowFailed(error)) => self.stopped(error),
            (ConsolePhase::PollInput, ConsoleEvent::InputReady(ready)) => if ready {
                (self.at(ConsolePhase::ReadInput), None)
            } else {
                (self.to_packets(), None)
            },
            (ConsolePhase::PollInput, ConsoleEvent::PollFailed(cause)) => self.failed(
                "polling console input"@ + ": "@ + cause@,
            ),
            (ConsolePhase::ReadInput, ConsoleEvent::Key(key)) => if sent_for(key).len() == 0 {
                (self.at(ConsolePhase::PollInput), None)
            } else {
                (self.at(ConsolePhase::SendKey(key)), None)
            },
            (ConsolePhase::ReadInput, ConsoleEvent::Resize) => if self.options.terminal_enabled {
                (self.at(ConsolePhase::ReadSize), None)
            } else {
                (self.at(ConsolePhase::PollInput), None)
            },
            (ConsolePhase::ReadInput, ConsoleEvent::OtherInput) => (
                self.at(ConsolePhase::PollInput),
                None,
            ),
            (ConsolePhase::ReadInput, ConsoleEvent::ReadInputFailed(cause)) => self.failed(
                "reading console input"@ + ": "@ + cause@,
            ),
            (ConsolePhase::ReadSize, ConsoleEvent::Size(told)) => if told {
                (self.at(ConsolePhase::SendSize), None)
            } else {
                (self.at(ConsolePhase::PollInput), None)
            },
            (ConsolePhase::ReadSize, ConsoleEvent::SizeFailed(error)) => self.stopped(error),
            (ConsolePhase::ReadPacket, ConsoleEvent::Packet(kind)) => {
                let heard = ConsolePump { last_received: now, ..self };
                if is_forwarding(kind) {
                    (heard.at(ConsolePhase::Forward), None)
                } else {
                    (heard.at(ConsolePhase::Show), None)
                }
            },
            (ConsolePhase::ReadPacket, ConsoleEvent::NoPacket) => (
                self.at(ConsolePhase::TakeOutbound),
                None,
            ),
            (ConsolePhase::ReadPacket, ConsoleEvent::ReadFailed(error)) => if error is Io {
                (
                    ConsolePump { reconnect_needed: true, ..self }.at(ConsolePhase::TakeOutbound),
                    None,
                )
            } else {
                self.failed("terminal transport"@ + ": "@ + error.text())
            },
            (ConsolePhase::Forward, ConsoleEvent::Taken) => (self.to_packets(), None),
            (ConsolePhase::Forward, ConsoleEvent::Held) => (
                ConsolePump { forward_held: true, ..self }.to_packets(),
                None,
            ),
            (ConsolePhase::Forward, ConsoleEvent::ForwarderFailed(cause)) => self.failed(cause@),
            (ConsolePhase::Show, ConsoleEvent::Taken) => (self.to_packets(), None),
            (ConsolePhase::Show, ConsoleEvent::ShownWithReport) => if self.options.auto_cursor_report {
                (self.at(ConsolePhase::SendReport(1, AfterReport::Packets)), None)
            } else {
                (self.to_packets(), None)
            },
            (ConsolePhase::Show, ConsoleEvent::Held) => (
                ConsolePump { output_held: true, ..self }.to_packets(),
                None,
            ),
            (ConsolePhase::Show, ConsoleEvent::ShowFailed(error)) => self.stopped(error),
            (ConsolePhase::TakeOutbound, ConsoleEvent::Outbound(found)) => if found {
                (self.at(ConsolePhase::WriteOutbound), None)
            } else {
                (self.to_clocks(now), None)
            },
            (ConsolePhase::TakeOutbound, ConsoleEvent::ForwarderFailed(cause)) => self.failed(
                cause@,
            ),
            (ConsolePhase::Recover, ConsoleEvent::Recovered) => (
                ConsolePump {
                    last_received: now,
                    next_keepalive: later(now, self.interval()),
                    ..self
                }.top(),
                None,
            ),
            (ConsolePhase::Recover, ConsoleEvent::SessionEnded) => self.over(false),
            (ConsolePhase::Recover, ConsoleEvent::RecoverFailed(error)) => self.stopped(error),
            (ConsolePhase::Idle, ConsoleEvent::Waited) => (self.top(), None),
            _ => (self, None),
        }
    }

    /// A loop at its beginning.
    pub fn new(options: PumpOptions, now: u64) -> (pump: Self)
        ensures
            pump.options == options,
            pump.last_received == now,
            pump.next_keepalive == later(now, pump.interval()),
            !pump.forward_held && !pump.output_held && !pump.reconnect_needed,
            pump.phase == ConsolePhase::CheckConsole,
            pump.well_formed(),
    {
        let mut pump = ConsolePump {
            options,
            last_received: now,
            next_keepalive: now,
            forward_held: false,
            output_held: false,
            reconnect_needed: false,
            phase: ConsolePhase::CheckConsole,
        };
        pump.next_keepalive = moment_after(now, pump.interval_millis());
        pump
    }

    fn interval_millis(&self) -> (r: u64)
        ensures
            r == self.interval(),
            1000 <= r <= 4_294_967_295_000,
    {
        if self.options.keepalive_seconds == 0 {
            1000
        } else {
            self.options.keepalive_seconds as u64 * 1000
        }
    }

    fn go_held(&mut self)
        ensures
            *final(self) == old(self).to_held(),
    {
        if self.forward_held {
            self.phase = ConsolePhase::RetryForward;
        } else {
            self.go_held_output();
        }
    }

    fn go_held_output(&mut self)
        ensures
            *final(self) == old(self).to_held_output(),
    {
        if self.output_held {
            self.phase = ConsolePhase::RetryOutput;
        } else {
            self.go_input();
        }
    }

    fn go_input(&mut self)
        ensures
            *final(self) == old(self).to_input(),
    {
        if self.options.read_stdin {
            self.phase = ConsolePhase::PollInput;
        } else {
            self.go_packets();
        }
    }

    fn go_packets(&mut self)
        ensures
            *final(self) == old(self).to_packets(),
    {
        if self.forward_held || self.output_held {
            self.phase = ConsolePhase::TakeOutbound;
        } else {
            self.phase = ConsolePhase::ReadPacket;
        }
    }

    fn go_clocks(&mut self, now: u64)
        ensures
            *final(self) == old(self).to_clocks(now),
    {
        let silence = self.interval_millis() * MISSED_KEEPALIVES;
        let silent = !self.output_held && now >= self.last_received && now - self.last_received
            >= silence;
        if self.reconnect_needed || silent {
            self.phase = ConsolePhase::Recover;
        } else if now >= self.next_keepalive {
            self.phase = ConsolePhase::SendKeepAlive;
        } else {
            self.phase = ConsolePhase::Idle;
        }
    }

    fn fail(&mut self, error: ClientError) -> (end: Option<ConsoleEnd>)
        ensures
            steps_to((*final(self), end), old(self).stopped(error)),
    {
        self.phase = ConsolePhase::Ended;
        Some(ConsoleEnd::Failed(error))
    }

    fn end(&mut self, outbound: bool) -> (end: Option<ConsoleEnd>)
        ensures
            steps_to((*final(self), end), old(self).over(outbound)),
    {
        self.phase = ConsolePhase::Ended;
        Some(ConsoleEnd::RemoteSessionEnded { outbound })
    }

    fn go_after_written(&mut self, now: u64)
        ensures
            *final(self) == old(self).after_written(now),
    {
        match self.phase {
            ConsolePhase::SendReport(left, then) => {
                if left > 1 {
                    self.phase = ConsolePhase::SendReport(left - 1, then);
                } else {
                    match then {
                        AfterReport::Held => self.go_held(),
                        AfterReport::Input => self.go_input(),
                        AfterReport::Packets => self.go_packets(),
                    }
                }
            },
            ConsolePhase::SendKey(_) => {
                self.phase = ConsolePhase::PollInput;
            },
            ConsolePhase::SendSize => {
                self.phase = ConsolePhase::PollInput;
            },
            ConsolePhase::WriteOutbound => {
                self.phase = ConsolePhase::TakeOutbound;
            },
            ConsolePhase::SendKeepAlive => {
                self.next_keepalive = moment_after(now, self.interval_millis());
                self.phase = ConsolePhase::Idle;
            },
            _ => {},
        }
    }

    fn after_write(&mut self, outcome: OwnedWriteOutcome, now: u64) -> (end: Option<ConsoleEnd>)
        requires
            old(self).writes(),
        ensures
            steps_to((*final(self), end), old(self).next_write(outcome, now)),
    {
        match outcome {
            OwnedWriteOutcome::Written => {
                self.go_after_written(now);
                None
            },
            OwnedWriteOutcome::Recovered => {
                match self.phase {
                    ConsolePhase::SendReport(_, _) => {},
                    ConsolePhase::SendKeepAlive => {},
                    _ => {
                        self.reconnect_needed = false;
                    },
                }
                self.go_after_written(now);
                None
            },
            OwnedWriteOutcome::SessionEnded => match self.phase {
                ConsolePhase::WriteOutbound => self.end(true),
                _ => self.end(false),
            },
            OwnedWriteOutcome::Failed(error) => self.fail(error),
        }
    }

    fn after_check(&mut self, event: ConsoleEvent, now: u64) -> (end: Option<ConsoleEnd>)
        requires
            old(self).phase is CheckConsole,
        ensures
            steps_to((*final(self), end), old(self).next(event, now)),
    {
        match event {
            ConsoleEvent::Console(_, Some(cause)) => self.fail(
                terminal_io("writing terminal output", cause.as_str()),
            ),
            ConsoleEvent::Console(reports, None) => {
                if self.options.auto_cursor_report && reports > 0 {
                    self.phase = ConsolePhase::SendReport(reports, AfterReport::Held);
                } else {
                    self.go_held();
                }
                None
            },
            ConsoleEvent::ReportsUnknown(cause) => self.fail(
                terminal_io("reading console confirmations", cause.as_str()),
            ),
            _ => None,
        }
    }

    fn after_retry(&mut self, event: ConsoleEvent, now: u64) -> (end: Option<ConsoleEnd>)
        requires
            old(self).phase is RetryForward || old(self).phase is RetryOutput,
        ensures
            steps_to((*final(self), end), old(self).next(event, now)),
    {
        match (self.phase, event) {
            (ConsolePhase::RetryForward, ConsoleEvent::Taken) => {
                self.forward_held = false;
                self.go_held_output();
                None
            },
            (ConsolePhase::RetryForward, ConsoleEvent::Held) => {
                self.go_held_output();
                None
            },
            (ConsolePhase::RetryForward, ConsoleEvent::ForwarderFailed(cause)) => self.fail(
                terminal_text(cause.as_str()),
            ),
            (ConsolePhase::RetryOutput, ConsoleEvent::Taken) => {
                self.output_held = false;
                self.go_input();
                None
            },
            (ConsolePhase::RetryOutput, ConsoleEvent::ShownWithReport) => {
                self.output_held = false;
                if self.options.auto_cursor_report {
                    self.phase = ConsolePhase::SendReport(1, AfterReport::Input);
                } else {
                    self.go_input();
                }
                None
            },
            (ConsolePhase::RetryOutput, ConsoleEvent::Held) => {
                self.go_input();
                None
            },
            (ConsolePhase::RetryOutput, ConsoleEvent::ShowFailed(error)) => self.fail(error),
            _ => None,
        }
    }

    fn after_input(&mut self, event: ConsoleEvent, now: u64) -> (end: Option<ConsoleEnd>)
        requires
            old(self).phase is PollInput || old(self).phase is ReadInput || old(self).phase
                is ReadSize,
        ensures
            steps_to((*final(self), end), old(self).next(event, now)),
    {
        match (self.phase, event) {
            (ConsolePhase::PollInput, ConsoleEvent::InputReady(ready)) => {
                if ready {
                    self.phase = ConsolePhase::ReadInput;
                } else {
                    self.go_packets();
                }
                None
            },
            (ConsolePhase::PollInput, ConsoleEvent::PollFailed(cause)) => self.fail(
                terminal_io("polling console input", cause.as_str()),
            ),
            (ConsolePhase::ReadInput, ConsoleEvent::Key(key)) => {
                if key_bytes(&key).len() == 0 {
                    self.phase = ConsolePhase::PollInput;
                } else {
                    self.phase = ConsolePhase::SendKey(key);
                }
                None
            },
            (ConsolePhase::ReadInput, ConsoleEvent::Resize) => {
                if self.options.terminal_enabled {
                    self.phase = ConsolePhase::ReadSize;
                } else {
                    self.phase = ConsolePhase::PollInput;
                }
                None
            },
            (ConsolePhase::ReadInput, ConsoleEvent::OtherInput) => {
                self.phase = ConsolePhase::PollInput;
                None
            },
            (ConsolePhase::ReadInput, ConsoleEvent::ReadInputFailed(cause)) => self.fail(
                terminal_io("reading console input", cause.as_str()),
            ),
            (ConsolePhase::ReadSize, ConsoleEvent::Size(told)) => {
                if told {
                    self.phase = ConsolePhase::SendSize;
                } else {
                    self.phase = ConsolePhase::PollInput;
                }
                None
            },
            (ConsolePhase::ReadSize, ConsoleEvent::SizeFailed(error)) => self.fail(error),
            _ => None,
        }
    }

    fn after_read(&mut self, event: ConsoleEvent, now: u64) -> (end: Option<ConsoleEnd>)
        requires
            old(self).phase is ReadPacket,
        ensures
            steps_to((*final(self), end), old(self).next(event, now)),
    {
        match event {
            ConsoleEvent::Packet(kind) => {
                self.last_received = now;
                if is_forward_packet(kind) {
                    self.phase = ConsolePhase::Forward;
                } else {
                    self.phase = ConsolePhase::Show;
                }
                None
            },
            ConsoleEvent::NoPacket => {
                self.phase = ConsolePhase::TakeOutbound;
                None
            },
            ConsoleEvent::ReadFailed(error) => {
                if connection_ended(&error) {
                    self.reconnect_needed = true;
                    self.phase = ConsolePhase::TakeOutbound;
                    None
                } else {
                    self.fail(terminal_error(&error))
                }
            },
            _ => None,
        }
    }

    fn after_packet(&mut self, event: ConsoleEvent, now: u64) -> (end: Option<ConsoleEnd>)
        requires
            old(self).phase is Forward || old(self).phase is Show,
        ensures
            steps_to((*final(self), end), old(self).next(event, now)),
    {
        match (self.phase, event) {
            (ConsolePhase::Forward, ConsoleEvent::Taken) => {
                self.go_packets();
                None
            },
            (ConsolePhase::Forward, ConsoleEvent::Held) => {
                self.forward_held = true;
                self.go_packets();
                None
            },
            (ConsolePhase::Forward, ConsoleEvent::ForwarderFailed(cause)) => self.fail(
                terminal_text(cause.as_str()),
            ),
            (ConsolePhase::Show, ConsoleEvent::Taken) => {
                self.go_packets();
                None
            },
            (ConsolePhase::Show, ConsoleEvent::ShownWithReport) => {
                if self.options.auto_cursor_report {
                    self.phase = ConsolePhase::SendReport(1, AfterReport::Packets);
                } else {
                    self.go_packets();
                }
                None
            },
            (ConsolePhase::Show, ConsoleEvent::Held) => {
                self.output_held = true;
                self.go_packets();
                None
            },
            (ConsolePhase::Show, ConsoleEvent::ShowFailed(error)) => self.fail(error),
            _ => None,
        }
    }

    fn after_outbound(&mut self, event: ConsoleEvent, now: u64) -> (end: Option<ConsoleEnd>)
        requires
            old(self).phase is TakeOutbound,
        ensures
            steps_to((*final(self), end), old(self).next(event, now)),
    {
        match event {
            ConsoleEvent::Outbound(found) => {
                if found {
                    self.phase = ConsolePhase::WriteOutbound;
                } else {
                    self.go_clocks(now);
                }
                None
            },
            ConsoleEvent::ForwarderFailed(cause) => self.fail(terminal_text(cause.as_str())),
            _ => None,
        }
    }

    fn after_recovery(&mut self, event: ConsoleEvent, now: u64) -> (end: Option<ConsoleEnd>)
        requires
            old(self).phase is Recover,
        ensures
            steps_to((*final(self), end), old(self).next(event, now)),
    {
        match event {
            ConsoleEvent::Recovered => {
                self.last_received = now;
                self.next_keepalive = moment_after(now, self.interval_millis());
                self.phase = ConsolePhase::CheckConsole;
                self.reconnect_needed = false;
                None
            },
            ConsoleEvent::SessionEnded => self.end(false),
            ConsoleEvent::RecoverFailed(error) => self.fail(error),
            _ => None,
        }
    }

    /// Takes in what happened in the present phase.
    pub fn advance(&mut self, event: ConsoleEvent, now: u64) -> (end: Option<ConsoleEnd>)
        ensures
            steps_to((*final(self), end), old(self).next(event, now)),
    {
        match self.phase {
            ConsolePhase::CheckConsole => self.after_check(event, now),
            ConsolePhase::RetryForward => self.after_retry(event, now),
            ConsolePhase::RetryOutput => self.after_retry(event, now),
            ConsolePhase::PollInput => self.after_input(event, now),
            ConsolePhase::ReadInput => self.after_input(event, now),
            ConsolePhase::ReadSize => self.after_input(event, now),
            ConsolePhase::ReadPacket => self.after_read(event, now),
            ConsolePhase::Forward => self.after_packet(event, now),
            ConsolePhase::Show => self.after_packet(event, now),
            ConsolePhase::TakeOutbound => self.after_outbound(event, now),
            ConsolePhase::Recover => self.after_recovery(event, now),
            ConsolePhase::Idle => match event {
                ConsoleEvent::Waited => {
                    self.phase = ConsolePhase::CheckConsole;
                    self.reconnect_needed = false;
                    None
                },
                _ => None,
            },
            ConsolePhase::Ended => None,
            _ => match event {
                ConsoleEvent::Write(outcome) => self.after_write(outcome, now),
                _ => None,
            },
        }
    }
}

/// A packet is read only while none is held back: whatever happens, the loop
/// that holds one goes on without reading.
pub proof fn held_packets_stop_the_turns_reading(pump: ConsolePump, event: ConsoleEvent, now: u64)
    requires
        pump.well_formed(),
    ensures
        pump.next(event, now).0.well_formed(),
{
}

/// The loop ends with its server or with a failure, and never because of the
/// console. A packet of the forwarder is left exactly where its own write
/// learned of the end.
pub proof fn turns_end_with_their_server(pump: ConsolePump, event: ConsoleEvent, now: u64)
    ensures
        match pump.next(event, now).1 {
            Some(ConsoleEndModel::RemoteSessionEnded { outbound }) => {
                &&& (event == ConsoleEvent::Write(OwnedWriteOutcome::SessionEnded)) || event
                    is SessionEnded
                &&& outbound == (pump.phase is WriteOutbound)
            },
            _ => true,
        },
{
}

/// A connection counts as silent only while the console keeps up: held
/// output alone never makes the loop reconnect.
pub proof fn held_output_is_no_silence(pump: ConsolePump, now: u64)
    requires
        pump.output_held,
        !pump.reconnect_needed,
    ensures
        !(pump.to_clocks(now).phase is Recover),
{
}

/// A server that was silent for three keepalive intervals is gone: the turn
/// that finds the forwarder empty recovers the connection, whether or not
/// anything reported an error. A server that was heard since is left alone.
pub proof fn silence_ends_in_recovery(pump: ConsolePump, now: u64)
    requires
        pump.phase is TakeOutbound,
    ensures
        ({
            let next = pump.next(ConsoleEvent::Outbound(false), now).0;
            let silent = now >= pump.last_received + 3 * keepalive_millis(pump.options);
            &&& pump.reconnect_needed ==> next.phase is Recover
            &&& silent && !pump.output_held ==> next.phase is Recover
            &&& !pump.reconnect_needed && (pump.output_held || !silent) ==> next.phase == if now
                >= pump.next_keepalive {
                ConsolePhase::SendKeepAlive
            } else {
                ConsolePhase::Idle
            }
        }),
{
}

/// A recovery gives the connection its full time again, and a keepalive that
/// was sent the time until the next one.
pub proof fn clocks_are_wound_up(pump: ConsolePump, outcome: OwnedWriteOutcome, now: u64)
    requires
        now + keepalive_millis(pump.options) <= u64::MAX,
    ensures
        pump.phase is Recover ==> {
            let next = pump.next(ConsoleEvent::Recovered, now).0;
            &&& next.phase is CheckConsole
            &&& next.last_received == now
            &&& next.next_keepalive == now + keepalive_millis(pump.options)
            &&& !next.reconnect_needed
        },
        pump.phase is SendKeepAlive && (outcome is Written || outcome is Recovered) ==> {
            let next = pump.next(ConsoleEvent::Write(outcome), now).0;
            &&& next.phase is Idle
            &&& next.last_received == pump.last_received
            &&& next.next_keepalive == now + keepalive_millis(pump.options)
        },
        forall|options: PumpOptions, fresh: ConsolePump|
            #[trigger] call_ensures(ConsolePump::new, (options, now), fresh) && now
                + keepalive_millis(options) <= u64::MAX ==> fresh.options == options
                && fresh.last_received == now && fresh.next_keepalive == now + keepalive_millis(
                options,
            ) && fresh.phase is CheckConsole,
{
}

/// Keys that mean something are sent, and the console is looked at again
/// behind each of them; a change of its size is told to the server.
pub proof fn console_events_are_sent(pump: ConsolePump, key: KeyEvent, now: u64)
    requires
        pump.phase is ReadInput,
    ensures
        ({
            let next = pump.next(ConsoleEvent::Key(key), now).0;
            &&& sent_for(key).len() > 0 ==> next.phase == ConsolePhase::SendKey(key)
            &&& sent_for(key).len() == 0 ==> next.phase is PollInput
            &&& next.at(ConsolePhase::SendKey(key)).next(
                ConsoleEvent::Write(OwnedWriteOutcome::Written),
                now,
            ).0.phase is PollInput
        }),
        pump.options.terminal_enabled ==> {
            let asked = pump.next(ConsoleEvent::Resize, now).0;
            &&& asked.phase is ReadSize
            &&& asked.next(ConsoleEvent::Size(true), now).0.phase is SendSize
            &&& asked.next(ConsoleEvent::Size(false), now).0.phase is PollInput
            &&& asked.next(ConsoleEvent::Size(true), now).0.next(
                ConsoleEvent::Write(OwnedWriteOutcome::Written),
                now,
            ).0.phase is PollInput
        },
        !pump.options.terminal_enabled ==> pump.next(ConsoleEvent::Resize, now).0.phase
            is PollInput,
        pump.at(ConsolePhase::PollInput).next(ConsoleEvent::InputReady(true), now).0 == pump,
        pump.at(ConsolePhase::Idle).next(ConsoleEvent::Waited, now).0.phase is CheckConsole,
{
}

/// Every packet is taken in: it counts as a sign of life, goes to the
/// forwarder where it belongs to a tunnel and to the terminal otherwise, and
/// reading goes on behind it. One that finds no room is held, and offered
/// again in the next turn before anything else is read.
pub proof fn packets_are_taken_in_turns(pump: ConsolePump, kind: PacketKind, now: u64)
    requires
        pump.phase is ReadPacket,
        !pump.forward_held && !pump.output_held,
    ensures
        ({
            let tunnel = kind == PacketKind::PortForwardDestinationRequest || kind
                == PacketKind::PortForwardDestinationResponse || kind
                == PacketKind::PortForwardData;
            let got = pump.next(ConsoleEvent::Packet(kind), now).0;
            let held = got.next(ConsoleEvent::Held, now).0;
            let again = held.top().next(ConsoleEvent::Console(0, None), now).0;
            &&& got.last_received == now
            &&& got.next_keepalive == pump.next_keepalive
            &&& got.phase == if tunnel {
                ConsolePhase::Forward
            } else {
                ConsolePhase::Show
            }
            &&& got.next(ConsoleEvent::Taken, now).0.phase is ReadPacket
            &&& held.forward_held == tunnel && held.output_held == !tunnel
            &&& held.phase is TakeOutbound
            &&& again.phase == if tunnel {
                ConsolePhase::RetryForward
            } else {
                ConsolePhase::RetryOutput
            }
            &&& again.next(ConsoleEvent::Held, now).0.forward_held == tunnel
            &&& again.next(ConsoleEvent::Held, now).0.output_held == !tunnel
            &&& !again.next(ConsoleEvent::Taken, now).0.forward_held
            &&& !again.next(ConsoleEvent::Taken, now).0.output_held
        }),
        pump.next(ConsoleEvent::NoPacket, now).0.phase is TakeOutbound,
{
}

/// A forwarder's packets are all sent before the turn goes on, and a
/// connection that broke is noticed where it was read.
pub proof fn outbound_packets_are_sent_in_turns(pump: ConsolePump, cause: String, now: u64)
    requires
        pump.phase is TakeOutbound,
    ensures
        pump.next(ConsoleEvent::Outbound(true), now).0.phase is WriteOutbound,
        pump.next(ConsoleEvent::Outbound(true), now).0.next(
            ConsoleEvent::Write(OwnedWriteOutcome::Written),
            now,
        ).0 == pump,
        ({
            let broken = pump.at(ConsolePhase::ReadPacket).next(
                ConsoleEvent::ReadFailed(ConnError::Io(cause)),
                now,
            ).0;
            broken.reconnect_needed && broken.next(ConsoleEvent::Outbound(false), now).0.phase
                is Recover
        }),
{
}

/// A failure that the loop is handed ends it as that failure.
pub proof fn console_failures_come_through(pump: ConsolePump, error: ClientError, now: u64)
    ensures
        pump.phase is Recover ==> pump.next(ConsoleEvent::RecoverFailed(error), now).1 == Some(
            ConsoleEndModel::Failed(Failure::Given(error)),
        ),
        pump.phase is Show || pump.phase is RetryOutput ==> pump.next(
            ConsoleEvent::ShowFailed(error),
            now,
        ).1 == Some(ConsoleEndModel::Failed(Failure::Given(error))),
        pump.phase is SendKey || pump.phase is SendSize || pump.phase is WriteOutbound
            || pump.phase is SendKeepAlive || pump.phase is SendReport ==> pump.next(
            ConsoleEvent::Write(OwnedWriteOutcome::Failed(error)),
            now,
        ).1 == Some(ConsoleEndModel::Failed(Failure::Given(error))),
        pump.phase is Recover ==> pump.next(ConsoleEvent::SessionEnded, now).1 == Some(
            ConsoleEndModel::RemoteSessionEnded { outbound: false },
        ),
{
}

/// Output that asks for the position of the cursor is answered with one report
/// each where the session answers for the console, and with none elsewhere.
pub proof fn cursor_reports_are_sent_where_asked(
    pump: ConsolePump,
    event: ConsoleEvent,
    now: u64,
    reports: usize,
)
    requires
        (pump.phase == ConsolePhase::Show || pump.phase == ConsolePhase::RetryOutput)
            && event is ShownWithReport && reports == 1 || pump.phase == ConsolePhase::CheckConsole
            && event == ConsoleEvent::Console(reports, None) && reports > 0,
    ensures
        pump.next(event, now).1 is None,
        pump.options.auto_cursor_report <==> pump.next(event, now).0.phase is SendReport,
        pump.options.auto_cursor_report ==> (pump.next(
            event,
            now,
        ).0.phase matches ConsolePhase::SendReport(count, _) && count == reports),
{
}

/// A turn offers what is held first, then takes input where it is read, then
/// the packets of the server unless something is still held, and then goes on
/// to what is to be sent.
pub proof fn turns_go_on_in_order(pump: ConsolePump, now: u64)
    ensures
        pump.phase == ConsolePhase::CheckConsole ==> ({
            let next = pump.next(ConsoleEvent::Console(0, None), now).0;
            &&& next.phase == if pump.forward_held {
                ConsolePhase::RetryForward
            } else if pump.output_held {
                ConsolePhase::RetryOutput
            } else if pump.options.read_stdin {
                ConsolePhase::PollInput
            } else {
                ConsolePhase::ReadPacket
            }
            &&& next.forward_held == pump.forward_held && next.output_held == pump.output_held
        }),
        pump.phase == ConsolePhase::RetryForward ==> ({
            let taken = pump.next(ConsoleEvent::Taken, now).0;
            let held = pump.next(ConsoleEvent::Held, now).0;
            &&& !taken.forward_held && taken.output_held == pump.output_held
            &&& held.forward_held == pump.forward_held && held.output_held == pump.output_held
            &&& pump.output_held ==> taken.phase == ConsolePhase::RetryOutput && held.phase
                == ConsolePhase::RetryOutput
            &&& !pump.output_held && pump.options.read_stdin ==> taken.phase
                == ConsolePhase::PollInput && held.phase == ConsolePhase::PollInput
            &&& !pump.output_held && !pump.options.read_stdin ==> taken.phase
                == ConsolePhase::ReadPacket && (pump.forward_held ==> held.phase
                == ConsolePhase::TakeOutbound)
        }),
        pump.phase == ConsolePhase::RetryOutput ==> ({
            let taken = pump.next(ConsoleEvent::Taken, now).0;
            let held = pump.next(ConsoleEvent::Held, now).0;
            &&& !taken.output_held && taken.forward_held == pump.forward_held
            &&& held.forward_held == pump.forward_held && held.output_held == pump.output_held
            &&& pump.options.read_stdin ==> taken.phase == ConsolePhase::PollInput && held.phase
                == ConsolePhase::PollInput
            &&& !pump.options.read_stdin ==> taken.phase == (if pump.forward_held {
                ConsolePhase::TakeOutbound
            } else {
                ConsolePhase::ReadPacket
            }) && (pump.output_held ==> held.phase == ConsolePhase::TakeOutbound)
        }),
        pump.phase == ConsolePhase::PollInput ==> pump.next(
            ConsoleEvent::InputReady(true),
            now,
        ).0.phase == ConsolePhase::ReadInput && pump.next(
            ConsoleEvent::InputReady(false),
            now,
        ).0.phase == (if pump.forward_held || pump.output_held {
            ConsolePhase::TakeOutbound
        } else {
            ConsolePhase::ReadPacket
        }),
        (pump.phase == ConsolePhase::Forward || pump.phase == ConsolePhase::Show)
            && !pump.forward_held && !pump.output_held ==> pump.next(
            ConsoleEvent::Taken,
            now,
        ).0.phase == ConsolePhase::ReadPacket && pump.next(ConsoleEvent::Held, now).0.phase
            == ConsolePhase::TakeOutbound,
        pump.phase == ConsolePhase::ReadPacket ==> pump.next(ConsoleEvent::NoPacket, now).0.phase
            == ConsolePhase::TakeOutbound,
{
}

} // verus!
