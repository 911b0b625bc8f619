//! The multiplexer roles: how a client finds or starts its daemon.
use vstd::prelude::*;

use crate::bytes::same_bytes;
use crate::error::joined;
use crate::text::{ascii, ascii_bytes, push_text};

verus! {

/// How long a daemon may take to become ready.
pub const READY_TIMEOUT_SECONDS: u64 = 30;

/// How long a daemon may take to shut down.
pub const STOP_READ_SECONDS: u64 = 15;

pub const STOP_WRITE_SECONDS: u64 = 5;

/// The length of the readiness marker.
pub const READY_BYTES: usize = 11;

/// How an attempt to reach a daemon failed.
#[derive(Debug, Clone, Copy, PartialEq, Eq, Structural)]
pub enum ConnectFault {
    NotFound,
    Refused,
    Other,
}

/// Whether a failure means that no daemon runs: then one is started, and
/// there is none to stop. Any other failure is reported.
pub fn no_daemon(fault: ConnectFault) -> (r: bool)
    ensures
        r == (fault == ConnectFault::NotFound || fault == ConnectFault::Refused),
{
    match fault {
        ConnectFault::NotFound => true,
        ConnectFault::Refused => true,
        ConnectFault::Other => false,
    }
}

/// The arguments of a daemon at an endpoint.
pub fn daemon_args(path: &str) -> (args: Vec<String>)
    ensures
        args.deep_view() == seq![
            "htmd"@,
            "--daemon-child"@,
            "--ready-stdout"@,
            "--socket"@,
            path@,
        ],
{
    let mut args: Vec<String> = Vec::new();
    assert(args.deep_view() =~= Seq::<Seq<char>>::empty());
    push_text(&mut args, "htmd");
    push_text(&mut args, "--daemon-child");
    push_text(&mut args, "--ready-stdout");
    push_text(&mut args, "--socket");
    push_text(&mut args, path);
    assert(args.deep_view() =~= seq![
        "htmd"@,
        "--daemon-child"@,
        "--ready-stdout"@,
        "--socket"@,
        path@,
    ]);
    args
}

/// What a daemon prints when it is ready.
pub fn ready_marker() -> (marker: Vec<u8>)
    ensures
        marker@ == ascii("HTMD_READY\n"@),
{
    ascii_bytes("HTMD_READY\n")
}

/// Whether a daemon printed that it is ready.
pub fn is_ready(bytes: &[u8]) -> (r: bool)
    ensures
        r == (bytes@ == ascii("HTMD_READY\n"@)),
{
    let marker = ready_marker();
    same_bytes(bytes, marker.as_slice())
}

// The client.

/// What the client does now.
#[derive(Debug, Clone, Copy, PartialEq, Eq, Structural)]
pub enum ClientStep {
    SelectEndpoint,
    /// Ask the daemon for its panes, then print them.
    ReadPanes,
    WritePanes,
    /// Stop the daemon that runs.
    Stop,
    Connect,
    /// Start a daemon: none runs.
    Start,
    /// Connect to the daemon that was started.
    Reconnect,
    OpenOutput,
    /// Carry the session.
    Bridge,
    Done,
}

/// The client between two steps. The first connection is kept: one that is
/// made and dropped to look for a daemon would look like a session to it.
#[derive(Debug, Clone, Copy, PartialEq, Eq, Structural)]
pub struct HtmClient {
    pub kill_other_sessions: bool,
    pub dump_panes: bool,
    pub step: ClientStep,
}

/// How a step went: done, or failed in some way and with some description.
#[derive(Debug)]
pub struct StepFault {
    pub fault: ConnectFault,
    pub cause: String,
}

/// What a failed step is called.
pub open spec fn client_trouble(step: ClientStep) -> Seq<char> {
    match step {
        ClientStep::SelectEndpoint => "selecting HTM endpoint"@,
        ClientStep::ReadPanes => "reading HTM pane diagnostic"@,
        ClientStep::WritePanes => "writing HTM pane diagnostic"@,
        ClientStep::Stop => "stopping htmd"@,
        ClientStep::Connect => "could not connect to htmd"@,
        ClientStep::Start => "could not start htmd"@,
        ClientStep::Reconnect => "could not connect to htmd"@,
        ClientStep::OpenOutput => "duplicating HTM stdout"@,
        _ => "htm session ended with an error"@,
    }
}

fn describe_client(step: ClientStep) -> (words: &'static str)
    ensures
        words@ == client_trouble(step),
{
    match step {
        ClientStep::SelectEndpoint => "selecting HTM endpoint",
        ClientStep::ReadPanes => "reading HTM pane diagnostic",
        ClientStep::WritePanes => "writing HTM pane diagnostic",
        ClientStep::Stop => "stopping htmd",
        ClientStep::Connect => "could not connect to htmd",
        ClientStep::Start => "could not start htmd",
        ClientStep::Reconnect => "could not connect to htmd",
        ClientStep::OpenOutput => "duplicating HTM stdout",
        _ => "htm session ended with an error",
    }
}

/// The line that reports trouble.
pub open spec fn trouble_line(words: Seq<char>, cause: Seq<char>) -> Seq<char> {
    words + ": "@ + cause + "\n"@
}

fn report(words: &str, cause: &str) -> (line: String)
    ensures
        line@ == trouble_line(words@, cause@),
{
    let mut line = joined(words, ": ");
    line.append(cause);
    line.append("\n");
    line
}

/// How a role ends: with an exit code, or with a line about its trouble.
pub open spec fn ends_as(r: Option<Result<i32, String>>, end: Option<Result<i32, Seq<char>>>) -> bool {
    match (r, end) {
        (None, None) => true,
        (Some(Ok(code)), Some(Ok(wanted))) => code == wanted,
        (Some(Err(line)), Some(Err(words))) => line@ == words,
        _ => false,
    }
}

impl HtmClient {
    pub fn new(kill_other_sessions: bool, dump_panes: bool) -> (client: Self)
        ensures
            client == (HtmClient {
                kill_other_sessions,
                dump_panes,
                step: ClientStep::SelectEndpoint,
            }),
    {
        HtmClient { kill_other_sessions, dump_panes, step: ClientStep::SelectEndpoint }
    }

    /// The step that follows one that was done.
    pub open spec fn successor(self) -> ClientStep {
        match self.step {
            ClientStep::SelectEndpoint => if self.dump_panes {
                ClientStep::ReadPanes
            } else if self.kill_other_sessions {
                ClientStep::Stop
            } else {
                ClientStep::Connect
            },
            ClientStep::ReadPanes => ClientStep::WritePanes,
            ClientStep::WritePanes => ClientStep::Done,
            ClientStep::Stop => ClientStep::Connect,
            ClientStep::Connect => ClientStep::OpenOutput,
            ClientStep::Start => ClientStep::Reconnect,
            ClientStep::Reconnect => ClientStep::OpenOutput,
            ClientStep::OpenOutput => ClientStep::Bridge,
            ClientStep::Bridge => ClientStep::Done,
            ClientStep::Done => ClientStep::Done,
        }
    }

    pub open spec fn at(self, step: ClientStep) -> Self {
        HtmClient { step, ..self }
    }

    /// What follows how a step went.
    pub open spec fn next(self, outcome: Result<(), StepFault>) -> (
        Self,
        Option<Result<i32, Seq<char>>>,
    ) {
        match outcome {
            Ok(()) => (
                self.at(self.successor()),
                if self.successor() is Done {
                    Some(Ok(0))
                } else {
                    None
                },
            ),
            Err(trouble) => if self.step is Connect && (trouble.fault is NotFound
                || trouble.fault is Refused) {
                (self.at(ClientStep::Start), None)
            } else {
                (
                    self.at(ClientStep::Done),
                    Some(Err(trouble_line(client_trouble(self.step), trouble.cause@))),
                )
            },
        }
    }

    fn following(&self) -> (step: ClientStep)
        ensures
            step == self.successor(),
    {
        match self.step {
            ClientStep::SelectEndpoint => {
                if self.dump_panes {
                    ClientStep::ReadPanes
                } else if self.kill_other_sessions {
                    ClientStep::Stop
                } else {
                    ClientStep::Connect
                }
            },
            ClientStep::ReadPanes => ClientStep::WritePanes,
            ClientStep::WritePanes => ClientStep::Done,
            ClientStep::Stop => ClientStep::Connect,
            ClientStep::Connect => ClientStep::OpenOutput,
            ClientStep::Start => ClientStep::Reconnect,
            ClientStep::Reconnect => ClientStep::OpenOutput,
            ClientStep::OpenOutput => ClientStep::Bridge,
            ClientStep::Bridge => ClientStep::Done,
            ClientStep::Done => ClientStep::Done,
        }
    }

    /// Takes in how the present step went.
    pub fn advance(&mut self, outcome: Result<(), StepFault>) -> (r: Option<Result<i32, String>>)
        ensures
            *final(self) == old(self).next(outcome).0,
            ends_as(r, old(self).next(outcome).1),
    {
        match outcome {
            Ok(()) => {
                self.step = self.following();
                if self.step == ClientStep::Done {
                    Some(Ok(0))
                } else {
                    None
                }
            },
            Err(trouble) => {
                if self.step == ClientStep::Connect && no_daemon(trouble.fault) {
                    self.step = ClientStep::Start;
                    None
                } else {
                    let line = report(describe_client(self.step), trouble.cause.as_str());
                    self.step = ClientStep::Done;
                    Some(Err(line))
                }
            },
        }
    }
}

/// A daemon is started only for a session, and only when none was there to
/// connect to.
pub proof fn daemons_start_only_when_none_runs(client: HtmClient, outcome: Result<(), StepFault>)
    requires
        client.next(outcome).0.step is Start,
    ensures
        client.step is Connect,
        outcome matches Err(trouble) && (trouble.fault is NotFound || trouble.fault is Refused),
{
}

// The daemon.

/// What the daemon does now.
#[derive(Debug, Clone, Copy, PartialEq, Eq, Structural)]
pub enum DaemonStep {
    /// A detached child closes what it inherited and leads a session.
    CloseDescriptors,
    LeadSession,
    SelectEndpoint,
    Bind,
    /// Print the readiness marker.
    Report,
    Serve,
    Done,
}

#[derive(Debug, Clone, Copy, PartialEq, Eq, Structural)]
pub struct HtmDaemon {
    pub ready_stdout: bool,
    pub step: DaemonStep,
}

pub open spec fn daemon_trouble(step: DaemonStep) -> Seq<char> {
    match step {
        DaemonStep::CloseDescriptors => "closing inherited descriptors"@,
        DaemonStep::LeadSession => "detaching htmd"@,
        DaemonStep::SelectEndpoint => "selecting HTM endpoint"@,
        DaemonStep::Bind => "could not bind the htm IPC socket"@,
        DaemonStep::Report => "reporting htmd readiness"@,
        _ => "htmd stopped with an error"@,
    }
}

fn describe_daemon(step: DaemonStep) -> (words: &'static str)
    ensures
        words@ == daemon_trouble(step),
{
    match step {
        DaemonStep::CloseDescriptors => "closing inherited descriptors",
        DaemonStep::LeadSession => "detaching htmd",
        DaemonStep::SelectEndpoint => "selecting HTM endpoint",
        DaemonStep::Bind => "could not bind the htm IPC socket",
        DaemonStep::Report => "reporting htmd readiness",
        _ => "htmd stopped with an error",
    }
}

impl HtmDaemon {
    /// A daemon; only a child on a Unix system has to detach itself.
    pub fn new(daemon_child: bool, ready_stdout: bool, windows: bool) -> (daemon: Self)
        ensures
            daemon == (HtmDaemon {
                ready_stdout,
                step: if daemon_child && !windows {
                    DaemonStep::CloseDescriptors
                } else {
                    DaemonStep::SelectEndpoint
                },
            }),
    {
        let step = if daemon_child && !windows {
            DaemonStep::CloseDescriptors
        } else {
            DaemonStep::SelectEndpoint
        };
        HtmDaemon { ready_stdout, step }
    }

    pub open spec fn successor(self) -> DaemonStep {
        match self.step {
            DaemonStep::CloseDescriptors => DaemonStep::LeadSession,
            DaemonStep::LeadSession => DaemonStep::SelectEndpoint,
            DaemonStep::SelectEndpoint => DaemonStep::Bind,
            DaemonStep::Bind => if self.ready_stdout {
                DaemonStep::Report
            } else {
                DaemonStep::Serve
            },
            DaemonStep::Report => DaemonStep::Serve,
            DaemonStep::Serve => DaemonStep::Done,
            DaemonStep::Done => DaemonStep::Done,
        }
    }

    pub open spec fn next(self, outcome: Result<(), String>) -> (
        Self,
        Option<Result<i32, Seq<char>>>,
    ) {
        match outcome {
            Ok(()) => (
                HtmDaemon { step: self.successor(), ..self },
                if self.successor() is Done {
                    Some(Ok(0))
                } else {
                    None
                },
            ),
            Err(cause) => (
                HtmDaemon { step: DaemonStep::Done, ..self },
                Some(Err(trouble_line(daemon_trouble(self.step), cause@))),
            ),
        }
    }

    /// Takes in how the present step went.
    pub fn advance(&mut self, outcome: Result<(), String>) -> (r: Option<Result<i32, String>>)
        ensures
            *final(self) == old(self).next(outcome).0,
            ends_as(r, old(self).next(outcome).1),
    {
        match outcome {
            Ok(()) => {
                self.step = match self.step {
                    DaemonStep::CloseDescriptors => DaemonStep::LeadSession,
                    DaemonStep::LeadSession => DaemonStep::SelectEndpoint,
                    DaemonStep::SelectEndpoint => DaemonStep::Bind,
                    DaemonStep::Bind => {
                        if self.ready_stdout {
                            DaemonStep::Report
                        } else {
                            DaemonStep::Serve
                        }
                    },
                    DaemonStep::Report => DaemonStep::Serve,
                    DaemonStep::Serve => DaemonStep::Done,
                    DaemonStep::Done => DaemonStep::Done,
                };
                if self.step == DaemonStep::Done {
                    Some(Ok(0))
                } else {
                    None
                }
            },
            Err(cause) => {
                let line = report(describe_daemon(self.step), cause.as_str());
                self.step = DaemonStep::Done;
                Some(Err(line))
            },
        }
    }
}

/// A daemon reports that it is ready only once its endpoint exists.
pub proof fn readiness_follows_the_endpoint(daemon: HtmDaemon, outcome: Result<(), String>)
    requires
        !(daemon.step is Report),
        daemon.next(outcome).0.step is Report,
    ensures
        daemon.step is Bind,
        outcome is Ok,
        daemon.ready_stdout,
{
}

// Starting the daemon.

/// What became of the start of a daemon.
#[derive(Debug)]
pub enum StartEvent {
    /// It was not started, or its status could not be waited for.
    NotStarted(String),
    NoPipe,
    NoWorker(String),
    /// What it printed, as far as its marker is long.
    Printed(Vec<u8>),
    /// Its output ended early.
    Closed(String),
    TimedOut(String),
    /// The thread that waited for its marker panicked, perhaps behind it.
    WorkerPanicked { ready: bool },
}

/// Whether a start worked, or what went wrong.
pub open spec fn start_words(event: StartEvent) -> Option<Seq<char>> {
    match event {
        StartEvent::NotStarted(cause) => Some(cause@),
        StartEvent::NoPipe => Some("missing htmd readiness pipe"@),
        StartEvent::NoWorker(cause) => Some(cause@),
        StartEvent::Printed(bytes) => if bytes@ == ascii("HTMD_READY\n"@) {
            None
        } else {
            Some("invalid htmd readiness marker"@)
        },
        StartEvent::Closed(cause) => Some(cause@),
        StartEvent::TimedOut(cause) => Some(cause@),
        StartEvent::WorkerPanicked { .. } => Some("htmd readiness worker panicked"@),
    }
}

/// Whether the process is stopped and reaped: one that could be waited for,
/// and did not become ready.
pub open spec fn start_abandoned(event: StartEvent) -> bool {
    match event {
        StartEvent::NoWorker(_) => true,
        StartEvent::Printed(bytes) => bytes@ != ascii("HTMD_READY\n"@),
        StartEvent::Closed(_) => true,
        StartEvent::TimedOut(_) => true,
        StartEvent::WorkerPanicked { ready } => !ready,
        _ => false,
    }
}

/// How the start of a daemon ended, and whether its process is stopped.
pub fn conclude_start(event: StartEvent) -> (r: (Result<(), String>, bool))
    ensures
        match (r.0, start_words(event)) {
            (Ok(()), None) => true,
            (Err(message), Some(words)) => message@ == words,
            _ => false,
        },
        r.1 == start_abandoned(event),
{
    match event {
        StartEvent::NotStarted(cause) => (Err(cause), false),
        StartEvent::NoPipe => (Err("missing htmd readiness pipe".to_owned()), false),
        StartEvent::NoWorker(cause) => (Err(cause), true),
        StartEvent::Printed(bytes) => {
            if is_ready(bytes.as_slice()) {
                (Ok(()), false)
            } else {
                (Err("invalid htmd readiness marker".to_owned()), true)
            }
        },
        StartEvent::Closed(cause) => (Err(cause), true),
        StartEvent::TimedOut(cause) => (Err(cause), true),
        StartEvent::WorkerPanicked { ready } => (
            Err("htmd readiness worker panicked".to_owned()),
            !ready,
        ),
    }
}

/// A client connects to the daemon that runs, or starts one and connects to
/// that, and then carries its terminal over. One that only asks for the panes
/// prints them and leaves.
pub proof fn clients_reach_their_daemon(client: HtmClient, trouble: StepFault)
    ensures
        client.step == ClientStep::SelectEndpoint && client.dump_panes ==> client.next(Ok(())).0.step
            == ClientStep::ReadPanes,
        client.step == ClientStep::SelectEndpoint && !client.dump_panes
            && client.kill_other_sessions ==> client.next(Ok(())).0.step == ClientStep::Stop,
        client.step == ClientStep::SelectEndpoint && !client.dump_panes
            && !client.kill_other_sessions ==> client.next(Ok(())).0.step == ClientStep::Connect,
        client.step == ClientStep::ReadPanes ==> client.next(Ok(())).0.step
            == ClientStep::WritePanes,
        client.step == ClientStep::WritePanes ==> client.next(Ok(())).1 == Some(
            Ok::<i32, Seq<char>>(0i32),
        ),
        client.step == ClientStep::Stop ==> client.next(Ok(())).0.step == ClientStep::Connect,
        client.step == ClientStep::Connect || client.step == ClientStep::Reconnect ==> client.next(
            Ok(()),
        ).0.step == ClientStep::OpenOutput,
        client.step == ClientStep::Connect && (trouble.fault is NotFound || trouble.fault is Refused)
            ==> client.next(Err(trouble)).0.step == ClientStep::Start && client.next(
            Err(trouble),
        ).1 is None,
        client.step == ClientStep::Start ==> client.next(Ok(())).0.step == ClientStep::Reconnect,
        client.step == ClientStep::OpenOutput ==> client.next(Ok(())).0.step == ClientStep::Bridge,
        client.step == ClientStep::Bridge ==> client.next(Ok(())).1 == Some(
            Ok::<i32, Seq<char>>(0i32),
        ),
        client.step != ClientStep::Connect ==> (client.next(Err(trouble)).1 matches Some(Err(_)))
            && client.next(Err(trouble)).0.step == ClientStep::Done,
{
}

/// A daemon has its endpoint before it serves, and says that it is ready only
/// in between and only where it was asked.
pub proof fn daemons_serve_their_endpoint(daemon: HtmDaemon, cause: String)
    ensures
        daemon.step == DaemonStep::CloseDescriptors ==> daemon.next(Ok(())).0.step
            == DaemonStep::LeadSession,
        daemon.step == DaemonStep::LeadSession ==> daemon.next(Ok(())).0.step
            == DaemonStep::SelectEndpoint,
        daemon.step == DaemonStep::SelectEndpoint ==> daemon.next(Ok(())).0.step
            == DaemonStep::Bind,
        daemon.step == DaemonStep::Bind ==> daemon.next(Ok(())).0.step == if daemon.ready_stdout {
            DaemonStep::Report
        } else {
            DaemonStep::Serve
        },
        daemon.step == DaemonStep::Report ==> daemon.next(Ok(())).0.step == DaemonStep::Serve,
        daemon.step == DaemonStep::Serve ==> daemon.next(Ok(())).1 == Some(
            Ok::<i32, Seq<char>>(0i32),
        ),
        daemon.next(Err(cause)).1 matches Some(Err(_)),
        daemon.next(Err(cause)).0.step == DaemonStep::Done,
{
}

/// A daemon is told its socket, and what it prints when it is ready is what
/// its client waits for.
pub proof fn ready_daemons_are_recognised(
    path: &str,
    args: Vec<String>,
    printed: Vec<u8>,
    bytes: &[u8],
    r: bool,
)
    requires
        call_ensures(daemon_args, (path,), args),
        call_ensures(ready_marker, (), printed),
        call_ensures(is_ready, (bytes,), r),
    ensures
        r <==> bytes@ == printed@,
        args@.len() == 5 && args@[0]@ == "htmd"@ && args@[3]@ == "--socket"@ && args@[4]@ == path@,
{
    assert(args.deep_view().len() == args@.len());
    assert(args.deep_view()[0] == args@[0]@);
    assert(args.deep_view()[3] == args@[3]@);
    assert(args.deep_view()[4] == args@[4]@);
}

/// A start succeeded where the daemon printed its marker, and a process that
/// did not become one is stopped where it runs.
pub proof fn failed_daemons_are_stopped(event: StartEvent, r: (Result<(), String>, bool))
    requires
        call_ensures(conclude_start, (event,), r),
    ensures
        r.0 is Ok ==> event is Printed && !r.1,
        event is TimedOut || event is Closed || event is NoWorker ==> r.0 is Err && r.1,
        event is NotStarted ==> r.0 is Err && !r.1,
        event is Printed ==> (r.0 is Ok <==> !r.1),
{
}

/// A daemon is started only where none answers: a missing endpoint and one
/// that refuses have none.
pub proof fn missing_daemons_are_noticed(r: bool, refused: bool, other: bool)
    requires
        call_ensures(no_daemon, (ConnectFault::NotFound,), r),
        call_ensures(no_daemon, (ConnectFault::Refused,), refused),
        call_ensures(no_daemon, (ConnectFault::Other,), other),
    ensures
        r && refused && !other,
{
}

} // verus!
