//! The client's session loop: what it waits for, and what follows each event.
use vstd::prelude::*;

use crate::client_terminal::{
    connection_ended, is_failure, terminal_error, terminal_io, terminal_text, Failure,
};
use crate::error::{ClientError, ConnError};
use crate::terminal_protocol::PacketKind;

verus! {

/// How many keepalives may go unanswered.
pub const MISSED_KEEPALIVES: u64 = 3;

/// The longest wait, in milliseconds. Some systems report a closed socket
/// only to a read.
pub const POLL_CAP_MILLIS: u64 = 100;

/// The longest wait while a packet is held, in milliseconds: the held packet
/// is tried again even when nothing else happens.
pub const HELD_POLL_CAP_MILLIS: u64 = 10;

/// Loop configuration, resolved when the session opens.
#[derive(Debug, Clone, Copy, PartialEq, Eq, Structural)]
pub struct PumpOptions {
    pub read_stdin: bool,
    pub keepalive_seconds: u32,
    pub terminal_enabled: bool,
    pub auto_cursor_report: bool,
}

/// What a descriptor is watched for.
#[derive(Debug, Clone, Copy, PartialEq, Eq, Structural)]
pub struct PollFlags {
    pub readable: bool,
    pub writable: bool,
    pub hangup: bool,
    pub error: bool,
}

/// What the network socket is watched for. A packet that is held back stops
/// the reading of further ones, and a readable socket would only wake a loop
/// that ignores it; that the connection ends is noticed all the same.
pub fn network_poll_flags(output_held: bool, forward_held: bool) -> (flags: PollFlags)
    ensures
        flags.readable == (!output_held && !forward_held),
        flags.hangup && flags.error,
        !flags.writable,
{
    PollFlags {
        readable: !output_held && !forward_held,
        writable: false,
        hangup: true,
        error: true,
    }
}

/// What a poll said about the descriptors of the loop.
#[derive(Debug, Clone, Copy, PartialEq, Eq, Structural)]
pub struct Ready {
    /// The network connection broke.
    pub network_down: bool,
    /// The terminal changed its size.
    pub resize: bool,
    /// The forwarder has packets.
    pub forwarding: bool,
    /// There is input.
    pub input: bool,
    /// The input is closed or broken.
    pub input_closed: bool,
}

/// Nothing is ready.
pub open spec fn nothing_ready() -> Ready {
    Ready {
        network_down: false,
        resize: false,
        forwarding: false,
        input: false,
        input_closed: false,
    }
}

/// Where the loop goes on after a cursor report.
#[derive(Debug, Clone, Copy, PartialEq, Eq, Structural)]
pub enum AfterReport {
    /// To what is held.
    Held,
    /// To the poll.
    Poll,
    /// To further packets.
    Packets,
}

/// Where the loop goes on after a recovery.
#[derive(Debug, Clone, Copy, PartialEq, Eq, Structural)]
pub enum AfterRecovery {
    Top,
    /// To what else the input says.
    Input,
    Keepalive,
}

/// What the loop does now.
#[derive(Debug, Clone, Copy, PartialEq, Eq, Structural)]
pub enum Phase {
    /// Look whether the console writer failed, and how many cursor reports
    /// it owes.
    CheckConsole,
    /// Send a cursor report; so many are left with it. One that cannot be
    /// sent is not missed.
    SendReport(usize, AfterReport),
    /// Offer the held forwarding packet again.
    RetryForward,
    /// Offer the held output packet again.
    RetryOutput,
    /// Wait for something to happen.
    Poll,
    /// Send the terminal size.
    SendSize,
    /// Read the next packet.
    ReadPacket,
    /// Hand the packet that was read to the forwarder.
    Forward,
    /// Show the packet that was read.
    Show,
    /// Ask the forwarder for a packet.
    TakeOutbound,
    /// Send the packet of the forwarder.
    WriteOutbound,
    /// Recover the transport.
    Recover(AfterRecovery),
    ReadInput,
    SendInput,
    SendKeepAlive,
    Ended,
}

/// What a write to the connection gave.
#[derive(Debug)]
pub enum WriteResult {
    Written,
    /// The transport broke; the connection keeps the packet.
    Lost,
    Failed(ClientError),
}

/// What happened in a phase.
#[derive(Debug)]
pub enum PumpEvent {
    /// How many cursor reports are owed, and the writer's failure.
    Console(usize, Option<String>),
    Write(WriteResult),
    /// The packet was taken, or is held back.
    Taken,
    Held,
    /// The packet was shown, and a cursor report is owed for it at once.
    ShownWithReport,
    /// The forwarder failed, with its description.
    ForwarderFailed(String),
    ShowFailed(ClientError),
    Polled(Ready),
    PollFailed(String),
    /// The wakeup for a change of size could not be read.
    DrainFailed(String),
    Packet(PacketKind),
    NoPacket,
    ReadFailed(ConnError),
    /// Whether the forwarder had a packet.
    Outbound(bool),
    Recovered,
    SessionEnded,
    RecoverFailed(ClientError),
    /// So many bytes were read.
    Input(usize),
    InputFailed(String),
}

/// How the loop ends.
#[derive(Debug)]
pub enum PumpEnd {
    LocalInputClosed,
    RemoteSessionEnded,
    Failed(ClientError),
}

/// The contents of a [`PumpEnd`].
pub enum EndModel {
    LocalInputClosed,
    RemoteSessionEnded,
    Failed(Failure),
}

/// Whether the loop stands, and ended, as a model says.
pub open spec fn steps_to(
    step: (Pump, Option<PumpEnd>),
    model: (Pump, Option<EndModel>),
) -> bool {
    step.0 == model.0 && match (step.1, model.1) {
        (None, None) => true,
        (Some(PumpEnd::LocalInputClosed), Some(EndModel::LocalInputClosed)) => true,
        (Some(PumpEnd::RemoteSessionEnded), Some(EndModel::RemoteSessionEnded)) => true,
        (Some(PumpEnd::Failed(error)), Some(EndModel::Failed(failure))) => is_failure(
            error,
            failure,
        ),
        _ => false,
    }
}

/// Whether a packet belongs to the forwarder.
pub open spec fn is_forwarding(kind: PacketKind) -> bool {
    ||| kind == PacketKind::PortForwardDestinationRequest
    ||| kind == PacketKind::PortForwardDestinationResponse
    ||| kind == PacketKind::PortForwardData
}

pub fn is_forward_packet(kind: PacketKind) -> (r: bool)
    ensures
        r == is_forwarding(kind),
{
    match kind {
        PacketKind::PortForwardDestinationRequest => true,
        PacketKind::PortForwardDestinationResponse => true,
        PacketKind::PortForwardData => true,
        _ => false,
    }
}

/// A moment so many milliseconds after another, or the last one there is.
pub open spec fn later(moment: u64, by: u64) -> u64 {
    if moment + by > u64::MAX {
        u64::MAX
    } else {
        (moment + by) as u64
    }
}

pub fn moment_after(moment: u64, by: u64) -> (r: u64)
    ensures
        r == later(moment, by),
{
    if moment > u64::MAX - by {
        u64::MAX
    } else {
        moment + by
    }
}

/// The loop between two events. Moments are milliseconds of a clock that
/// does not go back.
#[derive(Debug, Clone, Copy)]
pub struct Pump {
    pub options: PumpOptions,
    /// When the last packet came.
    pub last_received: u64,
    /// When the next keepalive is due.
    pub next_keepalive: u64,
    /// A forwarding packet is held that the forwarder had no room for.
    pub forward_held: bool,
    /// An output packet is held that the console had no room for.
    pub output_held: bool,
    pub reconnect_needed: bool,
    pub ready: Ready,
    pub phase: Phase,
}

impl Pump {
    /// The time between keepalives, in milliseconds.
    pub open spec fn interval(self) -> u64 {
        if self.options.keepalive_seconds == 0 {
            1000
        } else {
            (self.options.keepalive_seconds * 1000) as u64
        }
    }

    /// The silence after which the connection counts as broken.
    pub open spec fn silence(self) -> u64 {
        (self.interval() * MISSED_KEEPALIVES) as u64
    }

    /// No packet is read while another one is held.
    pub open spec fn well_formed(self) -> bool {
        self.phase is ReadPacket || self.phase is Forward || self.phase is Show ==> !self.forward_held
            && !self.output_held
    }

    pub open spec fn at(self, phase: Phase) -> Pump {
        Pump { phase, ..self }
    }

    /// The beginning of a round.
    pub open spec fn top(self) -> Pump {
        Pump {
            phase: Phase::CheckConsole,
            reconnect_needed: false,
            ready: nothing_ready(),
            ..self
        }
    }

    /// On to what is held.
    pub open spec fn to_held(self) -> Pump {
        if self.forward_held {
            self.at(Phase::RetryForward)
        } else {
            self.to_held_output()
        }
    }

    pub open spec fn to_held_output(self) -> Pump {
        if self.output_held {
            self.at(Phase::RetryOutput)
        } else {
            self.at(Phase::Poll)
        }
    }

    /// On to the packets of the server.
    pub open spec fn to_packets(self, now: u64) -> (Pump, Option<EndModel>) {
        if self.forward_held || self.output_held {
            self.to_outbound(now)
        } else {
            (self.at(Phase::ReadPacket), None)
        }
    }

    /// On to the packets of the forwarder.
    pub open spec fn to_outbound(self, now: u64) -> (Pump, Option<EndModel>) {
        if self.ready.forwarding {
            (self.at(Phase::TakeOutbound), None)
        } else {
            self.to_recovery(now)
        }
    }

    /// A connection that broke, or from which nothing came for too long, is
    /// recovered before anything else is sent.
    pub open spec fn to_recovery(self, now: u64) -> (Pump, Option<EndModel>) {
        if self.reconnect_needed || (!self.output_held && now - self.last_received
            >= self.silence()) {
            (self.at(Phase::Recover(AfterRecovery::Top)), None)
        } else if self.ready.input {
            (self.at(Phase::ReadInput), None)
        } else {
            self.to_input_end(now)
        }
    }

    /// On to what else the input says.
    pub open spec fn to_input_end(self, now: u64) -> (Pump, Option<EndModel>) {
        if self.ready.input_closed {
            (self.at(Phase::Ended), Some(EndModel::LocalInputClosed))
        } else if now >= self.next_keepalive {
            (self.at(Phase::SendKeepAlive), None)
        } else {
            (self.top(), None)
        }
    }

    /// The clocks start anew.
    pub open spec fn refreshed(self, now: u64) -> Pump {
        Pump { last_received: now, next_keepalive: later(now, self.interval()), ..self }
    }

    /// A failure of the loop's own ends it.
    pub open spec fn failed(self, text: Seq<char>) -> (Pump, Option<EndModel>) {
        (self.at(Phase::Ended), Some(EndModel::Failed(Failure::Terminal(text))))
    }

    /// An error that the loop was handed ends it.
    pub open spec fn stopped(self, error: ClientError) -> (Pump, Option<EndModel>) {
        (self.at(Phase::Ended), Some(EndModel::Failed(Failure::Given(error))))
    }

    /// On after a cursor report.
    pub open spec fn after_report(self, then: AfterReport, now: u64) -> (Pump, Option<EndModel>) {
        match then {
            AfterReport::Held => (self.to_held(), None),
            AfterReport::Poll => (self.at(Phase::Poll), None),
            AfterReport::Packets => self.to_packets(now),
        }
    }

    /// What follows an event. Events that the phase does not wait for leave
    /// the loop as it is.
    pub open spec fn next(self, event: PumpEvent, now: u64) -> (Pump, Option<EndModel>) {
        match (self.phase, event) {
            (Phase::CheckConsole, PumpEvent::Console(reports, failure)) => match failure {
                Some(cause) => self.failed("writing terminal output"@ + ": "@ + cause@),
                None => if self.options.auto_cursor_report && reports > 0 {
                    (self.at(Phase::SendReport(reports, AfterReport::Held)), None)
                } else {
                    (self.to_held(), None)
                },
            },
            (Phase::SendReport(left, then), PumpEvent::Write(_)) => if left > 1 {
                (self.at(Phase::SendReport((left - 1) as usize, then)), None)
            } else {
                self.after_report(then, now)
            },
            (Phase::RetryForward, PumpEvent::Taken) => (
                Pump { forward_held: false, ..self }.to_held_output(),
                None,
            ),
            (Phase::RetryForward, PumpEvent::Held) => (self.to_held_output(), None),
            (Phase::RetryForward, PumpEvent::ForwarderFailed(cause)) => self.failed(cause@),
            (Phase::RetryOutput, PumpEvent::Taken) => (
                Pump { output_held: false, ..self }.at(Phase::Poll),
                None,
            ),
            (Phase::RetryOutput, PumpEvent::ShownWithReport) => {
                let shown = Pump { output_held: false, ..self };
                if self.options.auto_cursor_report {
                    (shown.at(Phase::SendReport(1, AfterReport::Poll)), None)
                } else {
                    (shown.at(Phase::Poll), None)
                }
            },
            (Phase::RetryOutput, PumpEvent::Held) => (self.at(Phase::Poll), None),
            (Phase::RetryOutput, PumpEvent::ShowFailed(error)) => self.stopped(error),
            (Phase::Poll, PumpEvent::Polled(ready)) => {
                let seen = Pump { ready, reconnect_needed: ready.network_down, ..self };
                if ready.resize && self.options.terminal_enabled {
                    (seen.at(Phase::SendSize), None)
                } else {
                    seen.to_packets(now)
                }
            },
            (Phase::Poll, PumpEvent::PollFailed(cause)) => self.failed(
                "polling terminal streams"@ + ": "@ + cause@,
            ),
            (Phase::Poll, PumpEvent::DrainFailed(cause)) => self.failed(
                "draining resize wakeup"@ + ": "@ + cause@,
            ),
            (Phase::SendSize, PumpEvent::Write(result)) => match result {
                WriteResult::Written => self.to_packets(now),
                WriteResult::Lost => Pump { reconnect_needed: true, ..self }.to_packets(now),
                WriteResult::Failed(error) => self.stopped(error),
            },
            (Phase::ReadPacket, PumpEvent::Packet(kind)) => {
                let heard = Pump { last_received: now, ..self };
                if is_forwarding(kind) {
                    (heard.at(Phase::Forward), None)
                } else {
                    (heard.at(Phase::Show), None)
                }
            },
            (Phase::ReadPacket, PumpEvent::NoPacket) => self.to_outbound(now),
            (Phase::ReadPacket, PumpEvent::ReadFailed(error)) => if error is Io {
                Pump { reconnect_needed: true, ..self }.to_outbound(now)
            } else {
                self.failed("terminal transport"@ + ": "@ + error.text())
            },
            (Phase::Forward, PumpEvent::Taken) => self.to_packets(now),
            (Phase::Forward, PumpEvent::Held) => Pump { forward_held: true, ..self }.to_packets(
                now,
            ),
            (Phase::Forward, PumpEvent::ForwarderFailed(cause)) => self.failed(cause@),
            (Phase::Show, PumpEvent::Taken) => self.to_packets(now),
            (Phase::Show, PumpEvent::ShownWithReport) => if self.options.auto_cursor_report {
                (self.at(Phase::SendReport(1, AfterReport::Packets)), None)
            } else {
                self.to_packets(now)
            },
            (Phase::Show, PumpEvent::Held) => Pump { output_held: true, ..self }.to_packets(now),
            (Phase::Show, PumpEvent::ShowFailed(error)) => self.stopped(error),
            (Phase::TakeOutbound, PumpEvent::Outbound(found)) => if found {
                (self.at(Phase::WriteOutbound), None)
            } else {
                self.to_recovery(now)
            },
            (Phase::TakeOutbound, PumpEvent::ForwarderFailed(cause)) => self.failed(cause@),
            (Phase::WriteOutbound, PumpEvent::Write(result)) => match result {
                WriteResult::Written => (self.at(Phase::TakeOutbound), None),
                WriteResult::Lost => Pump { reconnect_needed: true, ..self }.to_recovery(now),
                WriteResult::Failed(error) => self.stopped(error),
            },
            (Phase::Recover(then), PumpEvent::Recovered) => {
                match then {
                    AfterRecovery::Top => (self.refreshed(now).top(), None),
                    AfterRecovery::Input => self.refreshed(now).to_input_end(now),
                    AfterRecovery::Keepalive => (
                        Pump { next_keepalive: later(now, self.interval()), ..self }.top(),
                        None,
                    ),
                }
            },
            (Phase::Recover(_), PumpEvent::SessionEnded) => (
                self.at(Phase::Ended),
                Some(EndModel::RemoteSessionEnded),
            ),
            (Phase::Recover(_), PumpEvent::RecoverFailed(error)) => self.stopped(error),
            (Phase::ReadInput, PumpEvent::Input(count)) => if count == 0 {
                (self.at(Phase::Ended), Some(EndModel::LocalInputClosed))
            } else {
                (self.at(Phase::SendInput), None)
            },
            (Phase::ReadInput, PumpEvent::InputFailed(cause)) => self.failed(
                "reading terminal input"@ + ": "@ + cause@,
            ),
            (Phase::SendInput, PumpEvent::Write(result)) => match result {
                WriteResult::Written => self.to_input_end(now),
                WriteResult::Lost => (self.at(Phase::Recover(AfterRecovery::Input)), None),
                WriteResult::Failed(error) => self.stopped(error),
            },
            (Phase::SendKeepAlive, PumpEvent::Write(result)) => match result {
                WriteResult::Written => (
                    Pump { next_keepalive: later(now, self.interval()), ..self }.top(),
                    None,
                ),
                _ => (self.at(Phase::Recover(AfterRecovery::Keepalive)), None),
            },
            _ => (self, None),
        }
    }

    /// A loop at its beginning.
    pub fn new(options: PumpOptions, now: u64) -> (pump: Self)
        ensures
            pump.options == options,
            pump.last_received == now,
            pump.next_keepalive == later(now, pump.interval()),
            !pump.forward_held && !pump.output_held && !pump.reconnect_needed,
            pump.ready == nothing_ready(),
            pump.phase == Phase::CheckConsole,
            pump.well_formed(),
    {
        let mut pump = Pump {
            options,
            last_received: now,
            next_keepalive: now,
            forward_held: false,
            output_held: false,
            reconnect_needed: false,
            ready: Ready {
                network_down: false,
                resize: false,
                forwarding: false,
                input: false,
                input_closed: false,
            },
            phase: Phase::CheckConsole,
        };
        pump.next_keepalive = moment_after(now, pump.interval_millis());
        pump
    }

    fn interval_millis(&self) -> (r: u64)
        ensures
            r == self.interval(),
            1000 <= r <= 4_294_967_295_000,
    {
        if self.options.keepalive_seconds == 0 {
            1000
        } else {
            self.options.keepalive_seconds as u64 * 1000
        }
    }

    /// How long a poll may wait, in milliseconds.
    pub open spec fn wait(self, now: u64) -> int {
        let silent = later(self.last_received, self.silence());
        let due = if self.next_keepalive < silent {
            self.next_keepalive
        } else {
            silent
        };
        let cap = if self.forward_held || self.output_held {
            HELD_POLL_CAP_MILLIS
        } else {
            POLL_CAP_MILLIS
        };
        if due <= now {
            0
        } else if due - now < cap {
            due - now
        } else {
            cap as int
        }
    }

    /// How long to wait for an event: no longer than until the next keepalive
    /// is due or the connection counts as silent.
    pub fn poll_timeout(&self, now: u64) -> (millis: u64)
        ensures
            millis == self.wait(now),
    {
        let interval = self.interval_millis();
        let silent = moment_after(self.last_received, interval * MISSED_KEEPALIVES);
        let due: u64 = if self.next_keepalive < silent {
            self.next_keepalive
        } else {
            silent
        };
        let cap: u64 = if self.forward_held || self.output_held {
            HELD_POLL_CAP_MILLIS
        } else {
            POLL_CAP_MILLIS
        };
        if due <= now {
            0
        } else if due - now < cap {
            due - now
        } else {
            cap
        }
    }

    fn go_top(&mut self)
        ensures
            *final(self) == old(self).top(),
    {
        self.phase = Phase::CheckConsole;
        self.reconnect_needed = false;
        self.ready = Ready {
            network_down: false,
            resize: false,
            forwarding: false,
            input: false,
            input_closed: false,
        };
    }

    fn go_held(&mut self)
        ensures
            *final(self) == old(self).to_held(),
    {
        if self.forward_held {
            self.phase = Phase::RetryForward;
        } else {
            self.go_held_output();
        }
    }

    fn go_held_output(&mut self)
        ensures
            *final(self) == old(self).to_held_output(),
    {
        if self.output_held {
            self.phase = Phase::RetryOutput;
        } else {
            self.phase = Phase::Poll;
        }
    }

    fn go_packets(&mut self, now: u64) -> (end: Option<PumpEnd>)
        ensures
            steps_to((*final(self), end), old(self).to_packets(now)),
    {
        if self.forward_held || self.output_held {
            self.go_outbound(now)
        } else {
            self.phase = Phase::ReadPacket;
            None
        }
    }

    fn go_outbound(&mut self, now: u64) -> (end: Option<PumpEnd>)
        ensures
            steps_to((*final(self), end), old(self).to_outbound(now)),
    {
        if self.ready.forwarding {
            self.phase = Phase::TakeOutbound;
            None
        } else {
            self.go_recovery(now)
        }
    }

    fn go_recovery(&mut self, now: u64) -> (end: Option<PumpEnd>)
        ensures
            steps_to((*final(self), end), old(self).to_recovery(now)),
    {
        let silence = self.interval_millis() * MISSED_KEEPALIVES;
        let silent = !self.output_held && now >= self.last_received && now - self.last_received
            >= silence;
        if self.reconnect_needed || silent {
            self.phase = Phase::Recover(AfterRecovery::Top);
            None
        } else if self.ready.input {
            self.phase = Phase::ReadInput;
            None
        } else {
            self.go_input_end(now)
        }
    }

    fn go_input_end(&mut self, now: u64) -> (end: Option<PumpEnd>)
        ensures
            steps_to((*final(self), end), old(self).to_input_end(now)),
    {
        if self.ready.input_closed {
            self.phase = Phase::Ended;
            Some(PumpEnd::LocalInputClosed)
        } else if now >= self.next_keepalive {
            self.phase = Phase::SendKeepAlive;
            None
        } else {
            self.go_top();
            None
        }
    }

    fn fail(&mut self, error: ClientError) -> (end: Option<PumpEnd>)
        ensures
            steps_to((*final(self), end), old(self).stopped(error)),
    {
        self.phase = Phase::Ended;
        Some(PumpEnd::Failed(error))
    }

    fn go_after_report(&mut self, then: AfterReport, now: u64) -> (end: Option<PumpEnd>)
        ensures
            steps_to((*final(self), end), old(self).after_report(then, now)),
    {
        match then {
            AfterReport::Held => {
                self.go_held();
                None
            },
            AfterReport::Poll => {
                self.phase = Phase::Poll;
                None
            },
            AfterReport::Packets => self.go_packets(now),
        }
    }

    fn after_check(&mut self, reports: usize, failure: Option<String>) -> (end: Option<PumpEnd>)
        requires
            old(self).phase is CheckConsole,
        ensures
            forall|now: u64|
                steps_to(
                    (*final(self), end),
                    #[trigger] old(self).next(PumpEvent::Console(reports, failure), now),
                ),
    {
        match failure {
            Some(cause) => self.fail(terminal_io("writing terminal output", cause.as_str())),
            None => {
                if self.options.auto_cursor_report && reports > 0 {
                    self.phase = Phase::SendReport(reports, AfterReport::Held);
                } else {
                    self.go_held();
                }
                None
            },
        }
    }

    /// What a write gives: the loop goes on when it was done, and looks for
    /// the connection when it was lost.
    fn after_write(&mut self, result: WriteResult, now: u64) -> (end: Option<PumpEnd>)
        ensures
            steps_to((*final(self), end), old(self).next(PumpEvent::Write(result), now)),
    {
        match (self.phase, result) {
            (Phase::SendReport(left, then), _) => {
                if left > 1 {
                    self.phase = Phase::SendReport(left - 1, then);
                    None
                } else {
                    self.go_after_report(then, now)
                }
            },
            (Phase::SendSize, WriteResult::Written) => self.go_packets(now),
            (Phase::SendSize, WriteResult::Lost) => {
                self.reconnect_needed = true;
                self.go_packets(now)
            },
            (Phase::WriteOutbound, WriteResult::Written) => {
                self.phase = Phase::TakeOutbound;
                None
            },
            (Phase::WriteOutbound, WriteResult::Lost) => {
                self.reconnect_needed = true;
                self.go_recovery(now)
            },
            (Phase::SendInput, WriteResult::Written) => self.go_input_end(now),
            (Phase::SendInput, WriteResult::Lost) => {
                self.phase = Phase::Recover(AfterRecovery::Input);
                None
            },
            (Phase::SendKeepAlive, WriteResult::Written) => {
                self.next_keepalive = moment_after(now, self.interval_millis());
                self.go_top();
                None
            },
            (Phase::SendKeepAlive, _) => {
                self.phase = Phase::Recover(AfterRecovery::Keepalive);
                None
            },
            (Phase::SendSize, WriteResult::Failed(error))
            | (Phase::WriteOutbound, WriteResult::Failed(error))
            | (Phase::SendInput, WriteResult::Failed(error)) => self.fail(error),
            _ => None,
        }
    }

    fn after_retry(&mut self, event: PumpEvent, now: u64) -> (end: Option<PumpEnd>)
        requires
            old(self).phase is RetryForward || old(self).phase is RetryOutput,
        ensures
            steps_to((*final(self), end), old(self).next(event, now)),
    {
        match (self.phase, event) {
            (Phase::RetryForward, PumpEvent::Taken) => {
                self.forward_held = false;
                self.go_held_output();
                None
            },
            (Phase::RetryForward, PumpEvent::Held) => {
                self.go_held_output();
                None
            },
            (Phase::RetryForward, PumpEvent::ForwarderFailed(cause)) => self.fail(
                terminal_text(cause.as_str()),
            ),
            (Phase::RetryOutput, PumpEvent::Taken) => {
                self.output_held = false;
                self.phase = Phase::Poll;
                None
            },
            (Phase::RetryOutput, PumpEvent::ShownWithReport) => {
                self.output_held = false;
                if self.options.auto_cursor_report {
                    self.phase = Phase::SendReport(1, AfterReport::Poll);
                } else {
                    self.phase = Phase::Poll;
                }
                None
            },
            (Phase::RetryOutput, PumpEvent::Held) => {
                self.phase = Phase::Poll;
                None
            },
            (Phase::RetryOutput, PumpEvent::ShowFailed(error)) => self.fail(error),
            _ => None,
        }
    }

    fn after_poll(&mut self, event: PumpEvent, now: u64) -> (end: Option<PumpEnd>)
        requires
            old(self).phase is Poll,
        ensures
            steps_to((*final(self), end), old(self).next(event, now)),
    {
        match event {
            PumpEvent::Polled(ready) => {
                self.ready = ready;
                self.reconnect_needed = ready.network_down;
                if ready.resize && self.options.terminal_enabled {
                    self.phase = Phase::SendSize;
                    None
                } else {
                    self.go_packets(now)
                }
            },
            PumpEvent::PollFailed(cause) => self.fail(
                terminal_io("polling terminal streams", cause.as_str()),
            ),
            PumpEvent::DrainFailed(cause) => self.fail(
                terminal_io("draining resize wakeup", cause.as_str()),
            ),
            _ => None,
        }
    }

    fn after_read(&mut self, event: PumpEvent, now: u64) -> (end: Option<PumpEnd>)
        requires
            old(self).phase is ReadPacket,
        ensures
            steps_to((*final(self), end), old(self).next(event, now)),
    {
        match event {
            PumpEvent::Packet(kind) => {
                self.last_received = now;
                if is_forward_packet(kind) {
                    self.phase = Phase::Forward;
                } else {
                    self.phase = Phase::Show;
                }
                None
            },
            PumpEvent::NoPacket => self.go_outbound(now),
            PumpEvent::ReadFailed(error) => {
                if connection_ended(&error) {
                    self.reconnect_needed = true;
                    self.go_outbound(now)
                } else {
                    self.fail(terminal_error(&error))
                }
            },
            _ => None,
        }
    }

    fn after_packet(&mut self, event: PumpEvent, now: u64) -> (end: Option<PumpEnd>)
        requires
            old(self).phase is Forward || old(self).phase is Show,
        ensures
            steps_to((*final(self), end), old(self).next(event, now)),
    {
        match (self.phase, event) {
            (Phase::Forward, PumpEvent::Taken) => self.go_packets(now),
            (Phase::Forward, PumpEvent::Held) => {
                self.forward_held = true;
                self.go_packets(now)
            },
            (Phase::Forward, PumpEvent::ForwarderFailed(cause)) => self.fail(
                terminal_text(cause.as_str()),
            ),
            (Phase::Show, PumpEvent::Taken) => self.go_packets(now),
            (Phase::Show, PumpEvent::ShownWithReport) => {
                if self.options.auto_cursor_report {
                    self.phase = Phase::SendReport(1, AfterReport::Packets);
                    None
                } else {
                    self.go_packets(now)
                }
            },
            (Phase::Show, PumpEvent::Held) => {
                self.output_held = true;
                self.go_packets(now)
            },
            (Phase::Show, PumpEvent::ShowFailed(error)) => self.fail(error),
            _ => None,
        }
    }

    fn after_outbound(&mut self, event: PumpEvent, now: u64) -> (end: Option<PumpEnd>)
        requires
            old(self).phase is TakeOutbound,
        ensures
            steps_to((*final(self), end), old(self).next(event, now)),
    {
        match event {
            PumpEvent::Outbound(found) => {
                if found {
                    self.phase = Phase::WriteOutbound;
                    None
                } else {
                    self.go_recovery(now)
                }
            },
            PumpEvent::ForwarderFailed(cause) => self.fail(terminal_text(cause.as_str())),
            _ => None,
        }
    }

    fn after_recovery(&mut self, then: AfterRecovery, event: PumpEvent, now: u64) -> (end: Option<
        PumpEnd,
    >)
        requires
            old(self).phase == Phase::Recover(then),
        ensures
            steps_to((*final(self), end), old(self).next(event, now)),
    {
        match event {
            PumpEvent::Recovered => {
                self.next_keepalive = moment_after(now, self.interval_millis());
                match then {
                    AfterRecovery::Top => {
                        self.last_received = now;
                        self.go_top();
                        None
                    },
                    AfterRecovery::Input => {
                        self.last_received = now;
                        self.go_input_end(now)
                    },
                    AfterRecovery::Keepalive => {
                        self.go_top();
                        None
                    },
                }
            },
            PumpEvent::SessionEnded => {
                self.phase = Phase::Ended;
                Some(PumpEnd::RemoteSessionEnded)
            },
            PumpEvent::RecoverFailed(error) => self.fail(error),
            _ => None,
        }
    }

    fn after_input(&mut self, event: PumpEvent, now: u64) -> (end: Option<PumpEnd>)
        requires
            old(self).phase is ReadInput,
        ensures
            steps_to((*final(self), end), old(self).next(event, now)),
    {
        match event {
            PumpEvent::Input(count) => {
                if count == 0 {
                    self.phase = Phase::Ended;
                    Some(PumpEnd::LocalInputClosed)
                } else {
                    self.phase = Phase::SendInput;
                    None
                }
            },
            PumpEvent::InputFailed(cause) => self.fail(
                terminal_io("reading terminal input", cause.as_str()),
            ),
            _ => None,
        }
    }

    /// Takes in what happened in the present phase.
    pub fn advance(&mut self, event: PumpEvent, now: u64) -> (end: Option<PumpEnd>)
        ensures
            steps_to((*final(self), end), old(self).next(event, now)),
    {
        match self.phase {
            Phase::CheckConsole => match event {
                PumpEvent::Console(reports, failure) => self.after_check(reports, failure),
                _ => None,
            },
            Phase::RetryForward => self.after_retry(event, now),
            Phase::RetryOutput => self.after_retry(event, now),
            Phase::Poll => self.after_poll(event, now),
            Phase::ReadPacket => self.after_read(event, now),
            Phase::Forward => self.after_packet(event, now),
            Phase::Show => self.after_packet(event, now),
            Phase::TakeOutbound => self.after_outbound(event, now),
            Phase::Recover(then) => self.after_recovery(then, event, now),
            Phase::ReadInput => self.after_input(event, now),
            _ => match event {
                PumpEvent::Write(result) => self.after_write(result, now),
                _ => None,
            },
        }
    }
}

/// A packet is read only while none is held back: whatever happens, the loop
/// that holds one goes on without reading.
pub proof fn held_packets_stop_the_reading(pump: Pump, event: PumpEvent, now: u64)
    requires
        pump.well_formed(),
    ensures
        pump.next(event, now).0.well_formed(),
{
}

/// A recovered connection gets the full time until its next keepalive, and
/// the full time of silence, unless a keepalive found it broken: that one
/// does not stand for a packet from the server.
pub proof fn recovery_restarts_the_clocks(pump: Pump, now: u64)
    requires
        pump.phase is Recover,
    ensures
        pump.next(PumpEvent::Recovered, now).0.next_keepalive == later(now, pump.interval()),
        pump.phase != Phase::Recover(AfterRecovery::Keepalive) ==> pump.next(
            PumpEvent::Recovered,
            now,
        ).0.last_received == now,
{
}

/// Local input ends the session only when it closed, and the server ends it
/// only where the connection could not be recovered.
pub proof fn sessions_end_for_a_reason(pump: Pump, event: PumpEvent, now: u64)
    ensures
        pump.next(event, now).1 == Some(EndModel::LocalInputClosed) ==> (pump.phase is ReadInput
            && event == PumpEvent::Input(0)) || pump.ready.input_closed || (event matches PumpEvent::Polled(
            ready,
        ) && ready.input_closed),
        pump.next(event, now).1 == Some(EndModel::RemoteSessionEnded) ==> pump.phase is Recover
            && event is SessionEnded,
{
}

/// The milliseconds between two keepalives: the seconds of the options, and
/// one where they name none.
pub open spec fn keepalive_millis(options: PumpOptions) -> int {
    if options.keepalive_seconds == 0 {
        1000
    } else {
        1000 * options.keepalive_seconds
    }
}

/// A round of the loop in which the server and the forwarder have nothing
/// more: the next event is the end of their packets.
pub open spec fn round_exhausted(pump: Pump, event: PumpEvent) -> bool {
    ||| pump.phase is ReadPacket && event is NoPacket && !pump.ready.forwarding
    ||| pump.phase is TakeOutbound && event == PumpEvent::Outbound(false)
    ||| pump.phase is Poll && (pump.forward_held || pump.output_held) && (
    event matches PumpEvent::Polled(ready) && !ready.forwarding && !ready.network_down
        && !ready.resize) && !pump.reconnect_needed
}

/// A server that was silent for three keepalive intervals is gone: the
/// connection is recovered, whether or not anything reported an error. A
/// server that was heard since is left alone. While output is held back the
/// server is not read, and its silence says nothing.
pub proof fn silence_leads_to_recovery(pump: Pump, event: PumpEvent, now: u64)
    requires
        round_exhausted(pump, event),
        !pump.reconnect_needed,
    ensures
        !pump.output_held && now >= pump.last_received + 3 * keepalive_millis(pump.options)
            ==> pump.next(event, now).0.phase is Recover,
        pump.output_held || now < pump.last_received + 3 * keepalive_millis(pump.options)
            ==> !(pump.next(event, now).0.phase is Recover),
{
}

/// A connection that broke is recovered at the end of the round in which that
/// was noticed, before any input or keepalive is sent on it, and nothing of
/// that round's input is read.
pub proof fn broken_connections_are_recovered(pump: Pump, event: PumpEvent, now: u64)
    ensures
        pump.reconnect_needed && round_exhausted(pump, event) && !(pump.phase is Poll)
            ==> pump.next(event, now).0.phase is Recover,
        pump.phase is Poll && (event matches PumpEvent::Polled(ready) && ready.network_down)
            ==> pump.next(event, now).0.reconnect_needed,
        pump.phase is ReadPacket && (event matches PumpEvent::ReadFailed(error) && error is Io)
            ==> pump.next(event, now).0.phase is TakeOutbound || pump.next(event, now).0.phase
            is Recover,
        pump.phase is ReadPacket && (event matches PumpEvent::ReadFailed(error) && error is Io)
            ==> pump.next(event, now).0.reconnect_needed,
        pump.phase is WriteOutbound && event == PumpEvent::Write(WriteResult::Lost) ==> pump.next(
            event,
            now,
        ).0.phase is Recover,
        pump.phase is SendInput && event == PumpEvent::Write(WriteResult::Lost) ==> pump.next(
            event,
            now,
        ).0.phase is Recover,
        pump.phase is SendSize && event == PumpEvent::Write(WriteResult::Lost) ==> pump.next(
            event,
            now,
        ).0.reconnect_needed,
        pump.phase is SendKeepAlive && (event matches PumpEvent::Write(result) && !(result
            is Written)) ==> pump.next(event, now).0.phase is Recover,
        pump.phase is Recover && event is Recovered ==> !pump.next(event, now).0.reconnect_needed
            || pump.phase == Phase::Recover(AfterRecovery::Input),
{
}

/// A quiet round sends a keepalive once one is due, and only then; the next
/// one is due an interval later.
pub proof fn keepalives_are_sent_on_time(pump: Pump, event: PumpEvent, now: u64)
    requires
        round_exhausted(pump, event),
        !pump.reconnect_needed,
        !pump.ready.input && !pump.ready.input_closed,
        event matches PumpEvent::Polled(ready) ==> !ready.input && !ready.input_closed,
        pump.output_held || now < pump.last_received + 3 * keepalive_millis(pump.options),
    ensures
        now >= pump.next_keepalive ==> {
            let sending = pump.next(event, now).0;
            let sent = sending.next(PumpEvent::Write(WriteResult::Written), now).0;
            &&& sending.phase is SendKeepAlive
            &&& sent.phase is CheckConsole
            &&& now + keepalive_millis(pump.options) <= u64::MAX ==> sent.next_keepalive == now
                + keepalive_millis(pump.options)
            &&& sent.last_received == pump.last_received
        },
        now < pump.next_keepalive ==> pump.next(event, now).0.phase is CheckConsole,
        pump.next(event, now).1 is None,
{
}

/// What is typed is sent: input that is ready is read, what was read is sent,
/// and input that ended closes the session.
pub proof fn input_is_read_and_sent(pump: Pump, event: PumpEvent, now: u64, count: usize)
    requires
        round_exhausted(pump, event),
        !pump.reconnect_needed,
        pump.output_held || now < pump.last_received + 3 * keepalive_millis(pump.options),
        match event {
            PumpEvent::Polled(ready) => ready.input,
            _ => pump.ready.input,
        },
    ensures
        ({
            let reading = pump.next(event, now).0;
            &&& reading.phase is ReadInput
            &&& reading.next(PumpEvent::Input(count), now).0.phase == if count > 0 {
                Phase::SendInput
            } else {
                Phase::Ended
            }
            &&& reading.next(PumpEvent::Input(0), now).1 == Some(EndModel::LocalInputClosed)
        }),
{
}

/// Every packet is taken in: it counts as a sign of life, goes to the
/// forwarder where it belongs to a tunnel and to the terminal otherwise, and
/// reading goes on behind it. One that finds no room is held, and offered
/// again in the next round before anything else is read.
pub proof fn packets_are_taken_in(pump: Pump, kind: PacketKind, now: u64)
    requires
        pump.phase is ReadPacket,
        !pump.forward_held && !pump.output_held,
    ensures
        ({
            let tunnel = kind == PacketKind::PortForwardDestinationRequest || kind
                == PacketKind::PortForwardDestinationResponse || kind
                == PacketKind::PortForwardData;
            let got = pump.next(PumpEvent::Packet(kind), now).0;
            let held = got.next(PumpEvent::Held, now).0;
            let again = held.top().next(PumpEvent::Console(0, None), now).0;
            &&& got.last_received == now
            &&& got.next_keepalive == pump.next_keepalive
            &&& got.phase == if tunnel {
                Phase::Forward
            } else {
                Phase::Show
            }
            &&& got.next(PumpEvent::Taken, now).0.phase is ReadPacket
            &&& held.forward_held == tunnel && held.output_held == !tunnel
            &&& !(held.phase is ReadPacket)
            &&& again.phase == if tunnel {
                Phase::RetryForward
            } else {
                Phase::RetryOutput
            }
            &&& again.next(PumpEvent::Held, now).0.phase is Poll
            &&& again.next(PumpEvent::Held, now).0.forward_held == tunnel
            &&& again.next(PumpEvent::Held, now).0.output_held == !tunnel
            &&& again.next(PumpEvent::Taken, now).0.phase is Poll
            &&& !again.next(PumpEvent::Taken, now).0.forward_held
            &&& !again.next(PumpEvent::Taken, now).0.output_held
        }),
{
}

/// A forwarder's packets are all sent before the round goes on.
pub proof fn outbound_packets_are_sent(pump: Pump, now: u64)
    requires
        pump.phase is TakeOutbound,
    ensures
        pump.next(PumpEvent::Outbound(true), now).0.phase is WriteOutbound,
        pump.next(PumpEvent::Outbound(true), now).0.next(
            PumpEvent::Write(WriteResult::Written),
            now,
        ).0 == pump,
        pump.ready.forwarding ==> pump.at(Phase::ReadPacket).next(PumpEvent::NoPacket, now).0.phase
            is TakeOutbound,
{
}

/// As many cursor reports are sent as are owed, and none where the terminal
/// answers itself.
pub proof fn owed_reports_are_sent(pump: Pump, reports: usize, result: WriteResult, now: u64)
    requires
        pump.phase is CheckConsole,
        !pump.forward_held && !pump.output_held,
    ensures
        ({
            let first = pump.next(PumpEvent::Console(reports, None), now).0;
            let second = first.next(PumpEvent::Write(result), now).0;
            &&& pump.options.auto_cursor_report && reports > 0 ==> first.phase
                == Phase::SendReport(reports, AfterReport::Held)
            &&& !(pump.options.auto_cursor_report && reports > 0) ==> first.phase is Poll
            &&& pump.options.auto_cursor_report && reports > 1 ==> second.phase
                == Phase::SendReport((reports - 1) as usize, AfterReport::Held)
            &&& pump.options.auto_cursor_report && reports == 1 ==> second.phase is Poll
        }),
{
}

/// A terminal that changed its size tells the server before the packets of
/// the round are read, and the session goes on.
pub proof fn sizes_are_sent(pump: Pump, ready: Ready, now: u64)
    requires
        pump.phase is Poll,
        ready.resize,
    ensures
        pump.options.terminal_enabled ==> pump.next(PumpEvent::Polled(ready), now).0.phase
            is SendSize,
        !pump.options.terminal_enabled ==> !(pump.next(PumpEvent::Polled(ready), now).0.phase
            is SendSize),
        pump.options.terminal_enabled && !pump.forward_held && !pump.output_held ==> pump.next(
            PumpEvent::Polled(ready),
            now,
        ).0.next(PumpEvent::Write(WriteResult::Written), now).0.phase is ReadPacket,
{
}

/// A wait ends in time: before the next keepalive is due, before the server
/// counts as silent, and soon where a packet is held.
pub proof fn waits_end_in_time(pump: Pump, now: u64)
    ensures
        0 <= pump.wait(now) <= 100,
        pump.forward_held || pump.output_held ==> pump.wait(now) <= 10,
        pump.next_keepalive <= now ==> pump.wait(now) == 0,
        pump.next_keepalive > now ==> now + pump.wait(now) <= pump.next_keepalive,
        now >= pump.last_received + 3 * keepalive_millis(pump.options) ==> pump.wait(now) == 0,
        now < pump.last_received + 3 * keepalive_millis(pump.options) ==> now + pump.wait(now)
            <= pump.last_received + 3 * keepalive_millis(pump.options),
        pump.next_keepalive > now && now < pump.last_received + 3 * keepalive_millis(pump.options)
            ==> pump.wait(now) > 0,
{
}

/// A new loop owes nothing, and its first keepalive is due an interval after
/// its start.
pub proof fn loops_start_fresh(options: PumpOptions, now: u64, pump: Pump)
    requires
        call_ensures(Pump::new, (options, now), pump),
        now + keepalive_millis(options) <= u64::MAX,
    ensures
        pump.options == options,
        pump.last_received == now,
        pump.next_keepalive == now + keepalive_millis(options),
        pump.phase is CheckConsole,
        pump.wait(now) > 0,
{
}

/// A failure that the loop is handed ends it as that failure, and a session
/// that the server no longer knows ends as the server's.
pub proof fn failures_come_through(pump: Pump, error: ClientError, now: u64)
    ensures
        pump.phase is Recover ==> pump.next(PumpEvent::RecoverFailed(error), now).1 == Some(
            EndModel::Failed(Failure::Given(error)),
        ),
        pump.phase is Show || pump.phase is RetryOutput ==> pump.next(
            PumpEvent::ShowFailed(error),
            now,
        ).1 == Some(EndModel::Failed(Failure::Given(error))),
        pump.phase is SendInput || pump.phase is SendSize || pump.phase is WriteOutbound
            ==> pump.next(PumpEvent::Write(WriteResult::Failed(error)), now).1 == Some(
            EndModel::Failed(Failure::Given(error)),
        ),
        pump.phase is Recover ==> pump.next(PumpEvent::SessionEnded, now).1 == Some(
            EndModel::RemoteSessionEnded,
        ),
{
}

/// Nothing is read from the network while something that it brought is still
/// held, but its end is always noticed.
pub proof fn held_output_stops_the_polling(output: bool, forward: bool, flags: PollFlags)
    requires
        call_ensures(network_poll_flags, (output, forward), flags),
    ensures
        output || forward ==> !flags.readable,
        !output && !forward ==> flags.readable,
        flags.hangup && flags.error && !flags.writable,
{
}

} // verus!
